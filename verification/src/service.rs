//! The two operations of the service: storing an uploaded blob under its
//! content hash, and serving a stored blob back.
//!
//! Nothing here performs I/O. An upload is planned from the parts of a
//! request, offered to the table, and concluded from the table's answer; a
//! download is a stored payload with the headers that describe it.

use vstd::prelude::*;
use vstd::slice::slice_to_vec;
use vstd::string::*;

use crate::error::ArtifactError;
use crate::felt::hash_view;
use crate::hash::content_hash;
use crate::format::{
    classification, declared_major, format_for_major, format_of_major, read_declared_major,
    FormatVersion,
};
use crate::store::{
    after_insert, created_row_is_stored, insert_outcome, row_of, second_insert_changes_nothing,
    stored, ArtifactStore, ArtifactView, InsertOutcome,
};
use crate::upload::{prepared, Upload, UploadView};

verus! {

/// One part of a multipart upload request.
#[derive(Debug)]
pub struct Part {
    pub name: String,
    pub data: Vec<u8>,
}

/// Whether a part of the given name holds a blob to upload. The data of
/// every other part is never looked at.
pub fn is_program_part(name: &str) -> (is: bool)
    ensures
        is == (name@ == "program"@),
{
    name.to_owned() == "program".to_owned()
}

/// The part to upload and the major version it declares: the last part
/// named `program`. Every part of that name has its metadata read, in order,
/// and the first that is malformed fails the request.
pub open spec fn chosen_program(parts: Seq<Part>) -> Result<Option<(int, i32)>, ArtifactError>
    decreases parts.len(),
{
    if parts.len() == 0 {
        Ok(None)
    } else {
        match chosen_program(parts.drop_last()) {
            Err(e) => Err(e),
            Ok(earlier) => if parts.last().name@ == "program"@ {
                match declared_major(parts.last().data@) {
                    Ok(major) => Ok(Some((parts.len() - 1, major))),
                    Err(e) => Err(e),
                }
            } else {
                Ok(earlier)
            },
        }
    }
}

/// What a request asks to store: nothing where it has no part named
/// `program`; else the chosen part under the content hash of its format.
pub open spec fn planned_upload(parts: Seq<Part>) -> Result<Option<UploadView>, ArtifactError> {
    match chosen_program(parts) {
        Err(e) => Err(e),
        Ok(None) => Ok(None),
        Ok(Some((at, major))) => match format_of_major(major) {
            Err(e) => Err(e),
            Ok(format) => match prepared(parts[at].data@, format) {
                Err(e) => Err(e),
                Ok(upload) => Ok(Some(upload)),
            },
        },
    }
}

/// The plan or the error in `plan`, an upload by its view.
pub open spec fn plan_view(plan: Result<Option<Upload>, ArtifactError>) -> Result<
    Option<UploadView>,
    ArtifactError,
> {
    match plan {
        Ok(Some(upload)) => Ok(Some(upload@)),
        Ok(None) => Ok(None),
        Err(e) => Err(e),
    }
}

/// Plans an upload from the parts of a request: classification and hashing,
/// and nothing that touches the table.
pub fn plan_upload(parts: Vec<Part>) -> (plan: Result<Option<Upload>, ArtifactError>)
    ensures
        plan_view(plan) == planned_upload(parts@),
{
    let ghost all = parts@;
    let mut list = parts;
    let program = "program".to_owned();
    let mut chosen: Option<(usize, i32)> = None;
    let mut i: usize = 0;
    while i < list.len()
        invariant
            i <= list@.len(),
            list@ == all,
            parts@ == all,
            program@ == "program"@,
            match chosen {
                Some((at, major)) => at < i && chosen_program(all.take(i as int)) == Ok::<
                    Option<(int, i32)>,
                    ArtifactError,
                >(Some((at as int, major))),
                None => chosen_program(all.take(i as int)) == Ok::<
                    Option<(int, i32)>,
                    ArtifactError,
                >(None),
            },
        decreases list.len() - i,
    {
        let ghost longer = all.take(i + 1);
        assert(longer.drop_last() == all.take(i as int));
        assert(longer.last() == all[i as int]);
        if list[i].name == program {
            match read_declared_major(list[i].data.as_slice()) {
                Ok(major) => {
                    chosen = Some((i, major));
                },
                Err(e) => {
                    proof {
                        assert(chosen_program(longer) == Err::<Option<(int, i32)>, ArtifactError>(e));
                        lemma_first_failure_stands(all, i + 1);
                    }
                    return Err(e);
                },
            }
        }
        i = i + 1;
    }
    assert(all.take(i as int) == all);
    match chosen {
        None => Ok(None),
        Some((at, major)) => {
            let format = match format_for_major(major) {
                Ok(format) => format,
                Err(e) => {
                    return Err(e);
                },
            };
            let part = list.remove(at);
            match Upload::new(part.data, format) {
                Ok(upload) => Ok(Some(upload)),
                Err(e) => Err(e),
            }
        },
    }
}

/// Once the parts up to some point have failed, the request has failed.
proof fn lemma_first_failure_stands(parts: Seq<Part>, upto: int)
    requires
        0 <= upto <= parts.len(),
        chosen_program(parts.take(upto)) is Err,
    ensures
        chosen_program(parts) == chosen_program(parts.take(upto)),
    decreases parts.len() - upto,
{
    if upto < parts.len() {
        let longer = parts.take(upto + 1);
        assert(longer.drop_last() == parts.take(upto));
        lemma_first_failure_stands(parts, upto + 1);
    } else {
        assert(parts.take(upto) == parts);
    }
}

/// What an upload answers once the table has answered: the content hash,
/// whether the row was created or was there already, and `Storage` for any
/// failure of the table.
pub open spec fn upload_answer(
    content_hash: Seq<char>,
    outcome: Result<InsertOutcome, ArtifactError>,
) -> Result<Seq<char>, ArtifactError> {
    match outcome {
        Ok(_) => Ok(content_hash),
        Err(_) => Err(ArtifactError::Storage),
    }
}

/// Concludes an upload from what the table answered.
pub fn conclude_upload(content_hash: String, outcome: Result<InsertOutcome, ArtifactError>) -> (answer:
    Result<String, ArtifactError>)
    ensures
        hash_view(answer) == upload_answer(content_hash@, outcome),
{
    match outcome {
        Ok(_) => Ok(content_hash),
        Err(_) => Err(ArtifactError::Storage),
    }
}

/// What a request answers when its row would carry the identifier `id`: the
/// empty text where there is nothing to store.
pub open spec fn upload_result(rows: Seq<ArtifactView>, parts: Seq<Part>, id: u128) -> Result<
    Seq<char>,
    ArtifactError,
> {
    match planned_upload(parts) {
        Err(e) => Err(e),
        Ok(None) => Ok(Seq::<char>::empty()),
        Ok(Some(upload)) => upload_answer(
            upload.content_hash,
            insert_outcome(rows, row_of(upload, id)),
        ),
    }
}

/// The table after a request whose row would carry the identifier `id`.
pub open spec fn rows_after_upload(rows: Seq<ArtifactView>, parts: Seq<Part>, id: u128) -> Seq<
    ArtifactView,
> {
    match planned_upload(parts) {
        Ok(Some(upload)) => after_insert(rows, row_of(upload, id)),
        _ => rows,
    }
}

/// Offers an upload to the table under the identifier `id`, and answers
/// with its content hash unless the table failed.
pub fn store_upload(store: &mut ArtifactStore, upload: Upload, id: u128) -> (answer: Result<
    String,
    ArtifactError,
>)
    ensures
        hash_view(answer) == upload_answer(
            upload@.content_hash,
            insert_outcome(old(store)@, row_of(upload@, id)),
        ),
        final(store)@ == after_insert(old(store)@, row_of(upload@, id)),
{
    let content_hash = upload.content_hash().to_owned();
    let outcome = store.insert(upload, id);
    conclude_upload(content_hash, outcome)
}

/// Handles an upload request against the table, the new row's identifier
/// being given.
pub fn upload_program_with_id(store: &mut ArtifactStore, parts: Vec<Part>, id: u128) -> (answer: Result<
    String,
    ArtifactError,
>)
    ensures
        hash_view(answer) == upload_result(old(store)@, parts@, id),
        final(store)@ == rows_after_upload(old(store)@, parts@, id),
{
    match plan_upload(parts) {
        Err(e) => Err(e),
        Ok(None) => Ok(String::new()),
        Ok(Some(upload)) => store_upload(store, upload, id),
    }
}

/// `Uuid::new_v4`, as a number by `Uuid::as_u128`: a random identifier, of
/// which nothing is promised. The outside function panics where the operating
/// system gives it no random bytes, which no argument decides.
#[verifier::external_body]
fn fresh_id() -> (id: u128) {
    uuid::Uuid::new_v4().as_u128()
}

/// Handles an upload request against the table: the part named `program` is
/// classified, hashed, and stored under its content hash with an identifier
/// drawn for it. What is answered and stored is what `upload_program_with_id`
/// gives for the identifier that was drawn.
pub fn upload_program(store: &mut ArtifactStore, parts: Vec<Part>) -> (answer: Result<
    String,
    ArtifactError,
>)
    ensures
        exists|id: u128|
            hash_view(answer) == upload_result(old(store)@, parts@, id) && final(store)@
                == #[trigger] rows_after_upload(old(store)@, parts@, id),
{
    match plan_upload(parts) {
        Err(e) => {
            assert(store@ == rows_after_upload(old(store)@, parts@, 0u128));
            Err(e)
        },
        Ok(None) => {
            assert(store@ == rows_after_upload(old(store)@, parts@, 0u128));
            Ok(String::new())
        },
        Ok(Some(upload)) => {
            let id = fresh_id();
            let answer = store_upload(store, upload, id);
            assert(store@ == rows_after_upload(old(store)@, parts@, id));
            answer
        },
    }
}

/// Uploading a request a second time stores nothing more and answers as the
/// first time, whatever identifier the second row would have carried.
pub proof fn repeated_upload_changes_nothing(
    rows: Seq<ArtifactView>,
    parts: Seq<Part>,
    first: u128,
    second: u128,
)
    requires
        upload_result(rows, parts, first) is Ok,
    ensures
        upload_result(rows_after_upload(rows, parts, first), parts, second) == upload_result(
            rows,
            parts,
            first,
        ),
        rows_after_upload(rows_after_upload(rows, parts, first), parts, second)
            == rows_after_upload(rows, parts, first),
{
    match planned_upload(parts) {
        Ok(Some(upload)) => {
            second_insert_changes_nothing(rows, row_of(upload, first), row_of(upload, second));
        },
        _ => {},
    }
}

/// After an upload that answered with a content hash, that hash leads to the
/// row that was stored under it before, and where there was none, to the
/// uploaded bytes.
pub proof fn upload_round_trip(rows: Seq<ArtifactView>, parts: Seq<Part>, id: u128)
    requires
        planned_upload(parts) matches Ok(Some(_)),
        upload_result(rows, parts, id) is Ok,
    ensures
        ({
            let upload = planned_upload(parts)->Ok_0->Some_0;
            let after = rows_after_upload(rows, parts, id);
            &&& upload_result(rows, parts, id) == Ok::<Seq<char>, ArtifactError>(
                upload.content_hash,
            )
            &&& stored(rows, upload.content_hash) is Some ==> stored(after, upload.content_hash)
                == stored(rows, upload.content_hash)
            &&& stored(rows, upload.content_hash) is None ==> stored(after, upload.content_hash)
                == Some(row_of(upload, id)) && row_of(upload, id).payload == upload.payload
        }),
{
    let upload = planned_upload(parts)->Ok_0->Some_0;
    let row = row_of(upload, id);
    if stored(rows, upload.content_hash) is None {
        created_row_is_stored(rows, row);
    }
}

/// A planned upload is of the chosen part and of nothing else: its payload
/// is the part's data as it came, its format is the one that the data
/// classify as, and its content hash is that of the data in that format.
pub proof fn planned_upload_is_of_the_chosen_part(parts: Seq<Part>)
    requires
        planned_upload(parts) matches Ok(Some(_)),
    ensures
        ({
            let upload = planned_upload(parts)->Ok_0->Some_0;
            &&& chosen_program(parts) matches Ok(Some((at, major)))
            &&& 0 <= at < parts.len()
            &&& parts[at].name@ == "program"@
            &&& upload.payload == parts[at].data@
            &&& classification(parts[at].data@) == Ok::<FormatVersion, ArtifactError>(
                upload.format_version,
            )
            &&& content_hash(upload.payload, upload.format_version) == Ok::<
                Seq<char>,
                ArtifactError,
            >(upload.content_hash)
        }),
{
    lemma_chosen_in_range(parts);
}

/// The chosen part is one of the parts, and is named `program`.
proof fn lemma_chosen_in_range(parts: Seq<Part>)
    ensures
        chosen_program(parts) matches Ok(Some((at, major))) ==> 0 <= at < parts.len()
            && parts[at].name@ == "program"@ && declared_major(parts[at].data@) == Ok::<
            i32,
            ArtifactError,
        >(major),
    decreases parts.len(),
{
    if parts.len() > 0 {
        lemma_chosen_in_range(parts.drop_last());
    }
}

/// A stored payload with the headers that describe it.
#[derive(Debug)]
pub struct Download {
    pub body: Vec<u8>,
    pub content_type: String,
    pub content_disposition: String,
}

/// The `Content-Disposition` of the download of `program_hash`.
pub open spec fn disposition(program_hash: Seq<char>) -> Seq<char> {
    "attachment; filename=\""@ + program_hash + ".json\""@
}

/// Describes `body` as the download of `program_hash`.
pub fn attachment(program_hash: &str, body: Vec<u8>) -> (download: Download)
    ensures
        download.body@ == body@,
        download.content_type@ == "application/json"@,
        download.content_disposition@ == disposition(program_hash@),
{
    let mut content_disposition = "attachment; filename=\"".to_owned();
    content_disposition.append(program_hash);
    content_disposition.append(".json\"");
    Download { body, content_type: "application/json".to_owned(), content_disposition }
}

/// What a download answers once the table has answered: the payload under
/// its headers, `NotFound` where the table holds nothing under the hash, and
/// `Storage` for any failure of the table.
pub fn serve(program_hash: &str, found: Result<Option<Vec<u8>>, ArtifactError>) -> (download:
    Result<Download, ArtifactError>)
    ensures
        match found {
            Ok(Some(payload)) => download matches Ok(d) && d.body@ == payload@ && d.content_type@
                == "application/json"@ && d.content_disposition@ == disposition(program_hash@),
            Ok(None) => download matches Err(e) && e == ArtifactError::NotFound,
            Err(_) => download matches Err(e) && e == ArtifactError::Storage,
        },
{
    match found {
        Ok(Some(payload)) => Ok(attachment(program_hash, payload)),
        Ok(None) => Err(ArtifactError::NotFound),
        Err(_) => Err(ArtifactError::Storage),
    }
}

/// Serves the artifact stored under `program_hash`: its payload, byte for
/// byte, which has that very content hash in the format it is stored with;
/// or `NotFound` where nothing is stored under that hash.
pub fn get_program(store: &ArtifactStore, program_hash: &str) -> (download: Result<
    Download,
    ArtifactError,
>)
    ensures
        match download {
            Ok(d) => stored(store@, program_hash@) matches Some(row) && d.body@ == row.payload
                && content_hash(d.body@, row.format_version) == Ok::<Seq<char>, ArtifactError>(
                program_hash@,
            ) && d.content_type@ == "application/json"@ && d.content_disposition@ == disposition(
                program_hash@,
            ),
            Err(e) => e == ArtifactError::NotFound && stored(store@, program_hash@) is None,
        },
{
    let found = match store.fetch(program_hash) {
        Some(artifact) => Some(slice_to_vec(artifact.payload.as_slice())),
        None => None,
    };
    serve(program_hash, Ok(found))
}

} // verus!
