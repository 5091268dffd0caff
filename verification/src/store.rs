//! The table of stored artifacts, keyed by content hash.
//!
//! An artifact is either absent or stored. Storing is the only transition:
//! nothing is ever updated or deleted, and offering a content hash that is
//! already stored leaves the table as it is.

use vstd::prelude::*;

use crate::error::ArtifactError;
use crate::format::FormatVersion;
use crate::hash::content_hash;
use crate::upload::{is_content_addressed, Upload, UploadView};

verus! {

/// One stored artifact.
#[derive(Debug)]
pub struct Artifact {
    /// Surrogate identifier, drawn when the artifact is created.
    pub id: u128,
    /// The content hash under which the artifact is found.
    pub content_hash: String,
    /// The format whose strategy produced the content hash.
    pub format_version: FormatVersion,
    /// The uploaded bytes, as they came.
    pub payload: Vec<u8>,
}

/// The view of an artifact: what contracts say of it.
pub struct ArtifactView {
    pub id: u128,
    pub content_hash: Seq<char>,
    pub format_version: FormatVersion,
    pub payload: Seq<u8>,
}

impl View for Artifact {
    type V = ArtifactView;

    open spec fn view(&self) -> ArtifactView {
        ArtifactView {
            id: self.id,
            content_hash: self.content_hash@,
            format_version: self.format_version,
            payload: self.payload@,
        }
    }
}

/// How the table answered an offered row.
#[derive(Clone, Copy, Debug, PartialEq, Eq, Structural)]
pub enum InsertOutcome {
    /// The row was added.
    Created,
    /// A row with that content hash was there already; nothing changed.
    AlreadyStored,
}

impl InsertOutcome {
    /// The outcome that a count of affected rows tells of a statement that
    /// inserts one row unless its content hash is taken: none affected means
    /// the hash was there already.
    pub open spec fn of_rows_affected(rows: u64) -> InsertOutcome {
        if rows == 0 {
            InsertOutcome::AlreadyStored
        } else {
            InsertOutcome::Created
        }
    }

    /// Reads the outcome off the number of rows that the statement affected.
    pub fn from_rows_affected(rows: u64) -> (outcome: InsertOutcome)
        ensures
            outcome == InsertOutcome::of_rows_affected(rows),
    {
        if rows == 0 {
            InsertOutcome::AlreadyStored
        } else {
            InsertOutcome::Created
        }
    }
}

/// The row stored under `hash`, if there is one.
pub open spec fn stored(rows: Seq<ArtifactView>, hash: Seq<char>) -> Option<ArtifactView>
    decreases rows.len(),
{
    if rows.len() == 0 {
        None
    } else if rows.last().content_hash == hash {
        Some(rows.last())
    } else {
        stored(rows.drop_last(), hash)
    }
}

/// Some row carries the identifier `id`.
pub open spec fn holds_id(rows: Seq<ArtifactView>, id: u128) -> bool {
    exists|i: int| 0 <= i < rows.len() && (#[trigger] rows[i]).id == id
}

/// No two rows share a content hash.
pub open spec fn unique_hashes(rows: Seq<ArtifactView>) -> bool {
    forall|i: int, j: int|
        0 <= i < j < rows.len() ==> (#[trigger] rows[i]).content_hash != (
        #[trigger] rows[j]).content_hash
}

/// No two rows share an identifier.
pub open spec fn unique_ids(rows: Seq<ArtifactView>) -> bool {
    forall|i: int, j: int|
        0 <= i < j < rows.len() ==> (#[trigger] rows[i]).id != (#[trigger] rows[j]).id
}

/// Every row stands under the content hash that its payload has in its
/// format.
pub open spec fn content_addressed(rows: Seq<ArtifactView>) -> bool {
    forall|i: int|
        0 <= i < rows.len() ==> content_hash(
            (#[trigger] rows[i]).payload,
            rows[i].format_version,
        ) == Ok::<Seq<char>, ArtifactError>(rows[i].content_hash)
}

/// The row that an upload becomes under the identifier `id`.
pub open spec fn row_of(upload: UploadView, id: u128) -> ArtifactView {
    ArtifactView {
        id,
        content_hash: upload.content_hash,
        format_version: upload.format_version,
        payload: upload.payload,
    }
}

/// How the table answers when `row` is offered: a stored content hash wins
/// over everything else, and an identifier that is taken is a failure.
pub open spec fn insert_outcome(rows: Seq<ArtifactView>, row: ArtifactView) -> Result<
    InsertOutcome,
    ArtifactError,
> {
    if stored(rows, row.content_hash) is Some {
        Ok(InsertOutcome::AlreadyStored)
    } else if holds_id(rows, row.id) {
        Err(ArtifactError::Storage)
    } else {
        Ok(InsertOutcome::Created)
    }
}

/// The table after `row` was offered: one row longer where it was created,
/// unchanged otherwise.
pub open spec fn after_insert(rows: Seq<ArtifactView>, row: ArtifactView) -> Seq<ArtifactView> {
    if insert_outcome(rows, row) == Ok::<InsertOutcome, ArtifactError>(InsertOutcome::Created) {
        rows.push(row)
    } else {
        rows
    }
}

/// A hash is stored exactly when some row carries it, and then `stored`
/// gives such a row.
pub proof fn lemma_stored(rows: Seq<ArtifactView>, hash: Seq<char>)
    ensures
        stored(rows, hash) is None <==> forall|i: int|
            0 <= i < rows.len() ==> (#[trigger] rows[i]).content_hash != hash,
        stored(rows, hash) matches Some(row) ==> row.content_hash == hash && exists|i: int|
            0 <= i < rows.len() && #[trigger] rows[i] == row,
    decreases rows.len(),
{
    if rows.len() > 0 {
        let shorter = rows.drop_last();
        lemma_stored(shorter, hash);
        assert forall|i: int| 0 <= i < shorter.len() implies shorter[i] == rows[i] by {}
        if rows.last().content_hash == hash {
            assert(rows[rows.len() - 1] == rows.last());
        } else {
            if stored(rows, hash) is None {
                assert forall|i: int| 0 <= i < rows.len() implies (
                #[trigger] rows[i]).content_hash != hash by {
                    if i < shorter.len() {
                        assert(shorter[i] == rows[i]);
                    }
                }
            } else {
                let row = stored(shorter, hash)->0;
                let i = choose|i: int| 0 <= i < shorter.len() && #[trigger] shorter[i] == row;
                assert(rows[i] == row);
            }
        }
    }
}

/// Where the hashes are unique, the row at each position is the one stored
/// under its hash.
pub proof fn lemma_stored_at(rows: Seq<ArtifactView>, at: int)
    requires
        unique_hashes(rows),
        0 <= at < rows.len(),
    ensures
        stored(rows, rows[at].content_hash) == Some(rows[at]),
    decreases rows.len(),
{
    if at < rows.len() - 1 {
        let shorter = rows.drop_last();
        assert(rows[at].content_hash != rows[rows.len() - 1].content_hash);
        assert forall|i: int, j: int| 0 <= i < j < shorter.len() implies (
        #[trigger] shorter[i]).content_hash != (#[trigger] shorter[j]).content_hash by {
            assert(shorter[i] == rows[i]);
            assert(shorter[j] == rows[j]);
        }
        assert(shorter[at] == rows[at]);
        lemma_stored_at(shorter, at);
    }
}

/// Offering a row never makes two rows share a content hash or an
/// identifier.
pub proof fn insert_keeps_rows_unique(rows: Seq<ArtifactView>, row: ArtifactView)
    requires
        unique_hashes(rows),
        unique_ids(rows),
    ensures
        unique_hashes(after_insert(rows, row)),
        unique_ids(after_insert(rows, row)),
{
    lemma_stored(rows, row.content_hash);
}

/// Offering a row that stands under the content hash of its payload keeps
/// every row under the content hash of its own.
pub proof fn insert_keeps_rows_content_addressed(rows: Seq<ArtifactView>, upload: UploadView, id: u128)
    requires
        content_addressed(rows),
        is_content_addressed(upload),
    ensures
        content_addressed(after_insert(rows, row_of(upload, id))),
{
}

/// Offering a row never removes or alters what was stored before.
pub proof fn insert_keeps_stored_rows(rows: Seq<ArtifactView>, row: ArtifactView, hash: Seq<char>)
    requires
        stored(rows, hash) is Some,
    ensures
        stored(after_insert(rows, row), hash) == stored(rows, hash),
{
    let after = after_insert(rows, row);
    if after != rows {
        assert(after.drop_last() == rows);
        assert(after.last() == row);
    }
}

/// A row that was created is found under its content hash, with the payload
/// it came with.
pub proof fn created_row_is_stored(rows: Seq<ArtifactView>, row: ArtifactView)
    requires
        insert_outcome(rows, row) == Ok::<InsertOutcome, ArtifactError>(InsertOutcome::Created),
    ensures
        stored(after_insert(rows, row), row.content_hash) == Some(row),
{
    let after = after_insert(rows, row);
    assert(after.last() == row);
}

/// Offering the same content hash a second time changes nothing, whatever
/// else the second row holds.
pub proof fn second_insert_changes_nothing(
    rows: Seq<ArtifactView>,
    row: ArtifactView,
    again: ArtifactView,
)
    requires
        insert_outcome(rows, row) is Ok,
        again.content_hash == row.content_hash,
    ensures
        insert_outcome(after_insert(rows, row), again) == Ok::<InsertOutcome, ArtifactError>(
            InsertOutcome::AlreadyStored,
        ),
        after_insert(after_insert(rows, row), again) == after_insert(rows, row),
{
    let after = after_insert(rows, row);
    if after != rows {
        assert(after.last() == row);
    }
}

/// The table of artifacts, in the order in which they were created.
pub struct ArtifactStore {
    rows: Vec<Artifact>,
}

/// The rows by their views.
pub open spec fn rows_view(rows: Seq<Artifact>) -> Seq<ArtifactView> {
    Seq::new(rows.len(), |i: int| rows[i]@)
}

impl View for ArtifactStore {
    type V = Seq<ArtifactView>;

    closed spec fn view(&self) -> Seq<ArtifactView> {
        rows_view(self.rows@)
    }
}

impl ArtifactStore {
    #[verifier::type_invariant]
    spec fn well_formed(self) -> bool {
        unique_hashes(self@) && unique_ids(self@) && content_addressed(self@)
    }

    /// An empty table.
    pub fn new() -> (store: ArtifactStore)
        ensures
            store@ == Seq::<ArtifactView>::empty(),
    {
        let store = ArtifactStore { rows: Vec::new() };
        assert(store@ =~= Seq::<ArtifactView>::empty());
        store
    }

    /// What holds of every table: no two rows share a content hash or an
    /// identifier, and every row stands under the content hash that its
    /// payload has in its format. Does nothing when run; a caller's proof
    /// learns these facts of the table at hand by the call.
    pub fn rows_are_sound(&self)
        ensures
            unique_hashes(self@),
            unique_ids(self@),
            content_addressed(self@),
    {
        proof {
            use_type_invariant(self);
        }
    }

    /// The number of stored artifacts.
    pub fn len(&self) -> (count: usize)
        ensures
            count == self@.len(),
    {
        self.rows.len()
    }

    /// The position of the row stored under `hash`.
    fn position(&self, hash: &String) -> (at: Option<usize>)
        ensures
            match at {
                Some(i) => i < self.rows@.len() && stored(self@, hash@) == Some(self.rows@[i as int]@),
                None => stored(self@, hash@) is None,
            },
    {
        proof {
            use_type_invariant(self);
        }
        let mut i: usize = 0;
        while i < self.rows.len()
            invariant
                i <= self.rows@.len(),
                self@.len() == self.rows@.len(),
                unique_hashes(self@),
                forall|j: int| 0 <= j < i ==> (#[trigger] self@[j]).content_hash != hash@,
            decreases self.rows.len() - i,
        {
            if self.rows[i].content_hash == *hash {
                proof {
                    assert(self@[i as int].content_hash == hash@);
                    lemma_stored_at(self@, i as int);
                }
                return Some(i);
            }
            i = i + 1;
        }
        proof {
            lemma_stored(self@, hash@);
        }
        None
    }

    /// Whether some row carries the identifier `id`.
    fn has_id(&self, id: u128) -> (held: bool)
        ensures
            held == holds_id(self@, id),
    {
        let mut i: usize = 0;
        while i < self.rows.len()
            invariant
                i <= self.rows@.len(),
                self@.len() == self.rows@.len(),
                forall|j: int| 0 <= j < i ==> (#[trigger] self@[j]).id != id,
            decreases self.rows.len() - i,
        {
            if self.rows[i].id == id {
                assert(self@[i as int].id == id);
                return true;
            }
            i = i + 1;
        }
        false
    }

    /// Offers an upload to the table, to be stored under the identifier
    /// `id`. A content hash that is stored already leaves the table unchanged
    /// and is no failure; an identifier that is taken is one.
    pub fn insert(&mut self, upload: Upload, id: u128) -> (outcome: Result<
        InsertOutcome,
        ArtifactError,
    >)
        ensures
            outcome == insert_outcome(old(self)@, row_of(upload@, id)),
            final(self)@ == after_insert(old(self)@, row_of(upload@, id)),
    {
        proof {
            use_type_invariant(&*self);
        }
        let ghost before = self@;
        let ghost offered = row_of(upload@, id);
        let (content_hash, format_version, payload) = upload.into_parts();
        if self.position(&content_hash).is_some() {
            return Ok(InsertOutcome::AlreadyStored);
        }
        if self.has_id(id) {
            return Err(ArtifactError::Storage);
        }
        proof {
            insert_keeps_rows_unique(before, offered);
            insert_keeps_rows_content_addressed(before, upload@, id);
        }
        let row = Artifact { id, content_hash, format_version, payload };
        // The rows leave the table as a whole and come back as a whole, one
        // longer: at no point does a table exist that is not sound.
        let mut taken = ArtifactStore { rows: Vec::new() };
        core::mem::swap(self, &mut taken);
        let ArtifactStore { rows } = taken;
        let mut rows = rows;
        rows.push(row);
        assert(rows_view(rows@) =~= before.push(offered));
        *self = ArtifactStore { rows };
        Ok(InsertOutcome::Created)
    }

    /// The artifact stored under `content_hash`, which is the content hash
    /// that its payload has in its format.
    pub fn fetch(&self, content_hash: &str) -> (found: Option<&Artifact>)
        ensures
            match found {
                Some(artifact) => stored(self@, content_hash@) == Some(artifact@)
                    && artifact@.content_hash == content_hash@ && crate::hash::content_hash(
                    artifact@.payload,
                    artifact@.format_version,
                ) == Ok::<Seq<char>, ArtifactError>(content_hash@),
                None => stored(self@, content_hash@) is None,
            },
    {
        proof {
            use_type_invariant(self);
        }
        let key = content_hash.to_owned();
        match self.position(&key) {
            Some(at) => {
                proof {
                    lemma_stored(self@, content_hash@);
                    assert(self@[at as int] == self.rows@[at as int]@);
                }
                Some(&self.rows[at])
            },
            None => None,
        }
    }
}

} // verus!
