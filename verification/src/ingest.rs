//! The ingest service: what it asks of the store for each request, and what
//! it answers.

use vstd::prelude::*;
use crate::fingerprint::{texts, PathAndHash};
use crate::protocol::{
    file_views, ApiRequest, ApiRequestView, ApiResponse, ApiResponseView, UploadedFile,
    UploadedFileView,
};
use crate::store::{
    lemma_accepted_completes, lemma_run_push, statement_views, Statement, StatementView, Store,
};

verus! {

/// The candidates that are not among `present`, each once, in the order in
/// which they first occur.
pub open spec fn missing(candidates: Seq<Seq<char>>, present: Seq<Seq<char>>) -> Seq<Seq<char>>
    decreases candidates.len(),
{
    if candidates.len() == 0 {
        Seq::empty()
    } else {
        let earlier = missing(candidates.drop_last(), present);
        let last = candidates.last();
        if present.contains(last) || earlier.contains(last) {
            earlier
        } else {
            earlier.push(last)
        }
    }
}

/// The keys of a list, each once, in the order in which they first occur.
pub open spec fn distinct(keys: Seq<Seq<char>>) -> Seq<Seq<char>> {
    missing(keys, Seq::empty())
}

/// A key is reported missing exactly when it is a candidate and is not
/// present.
pub proof fn lemma_missing_contains(
    candidates: Seq<Seq<char>>,
    present: Seq<Seq<char>>,
    key: Seq<char>,
)
    ensures
        missing(candidates, present).contains(key) <==> candidates.contains(key)
            && !present.contains(key),
    decreases candidates.len(),
{
    if candidates.len() > 0 {
        let earlier = candidates.drop_last();
        let last = candidates.last();
        lemma_missing_contains(earlier, present, key);
        assert(candidates =~= earlier.push(last));
        if candidates.contains(key) {
            let i = choose|i: int| 0 <= i < candidates.len() && candidates[i] == key;
            if i < earlier.len() {
                assert(earlier[i] == key);
            }
        }
        if earlier.contains(key) {
            let i = choose|i: int| 0 <= i < earlier.len() && earlier[i] == key;
            assert(candidates[i] == key);
        }
        assert(candidates[candidates.len() - 1] == last);
        let found = missing(earlier, present);
        if !(present.contains(last) || found.contains(last)) {
            assert(found.push(last)[found.len() as int] == last);
            if found.push(last).contains(key) {
                let i = choose|i: int| 0 <= i < found.push(last).len() && found.push(last)[i] == key;
                if i < found.len() {
                    assert(found[i] == key);
                }
            }
            if found.contains(key) {
                let i = choose|i: int| 0 <= i < found.len() && found[i] == key;
                assert(found.push(last)[i] == key);
            }
        }
    }
}

/// No key is reported missing twice.
pub proof fn lemma_missing_no_duplicates(candidates: Seq<Seq<char>>, present: Seq<Seq<char>>)
    ensures
        missing(candidates, present).no_duplicates(),
    decreases candidates.len(),
{
    if candidates.len() > 0 {
        lemma_missing_no_duplicates(candidates.drop_last(), present);
    }
}

/// Whether `key` is in `list`.
fn holds(list: &Vec<PathAndHash>, key: &PathAndHash) -> (found: bool)
    ensures
        found == texts(list@).contains(key@),
{
    let mut i: usize = 0;
    while i < list.len()
        invariant
            i <= list.len(),
            forall|j: int| 0 <= j < i ==> texts(list@)[j] != key@,
        decreases list.len() - i,
    {
        if list[i] == *key {
            assert(texts(list@)[i as int] == key@);
            return true;
        }
        i = i + 1;
    }
    false
}

/// The candidates that are not among `present`, each once, in the order in
/// which they first occur.
pub fn missing_files(candidates: &Vec<PathAndHash>, present: &Vec<PathAndHash>) -> (absent: Vec<
    PathAndHash,
>)
    ensures
        texts(absent@) == missing(texts(candidates@), texts(present@)),
{
    let mut absent: Vec<PathAndHash> = Vec::new();
    let mut i: usize = 0;
    assert(texts(candidates@).take(0) =~= Seq::empty());
    assert(texts(absent@) =~= Seq::empty());
    while i < candidates.len()
        invariant
            i <= candidates.len(),
            texts(absent@) == missing(texts(candidates@).take(i as int), texts(present@)),
        decreases candidates.len() - i,
    {
        let candidate = &candidates[i];
        let ghost before = texts(absent@);
        proof {
            let all = texts(candidates@);
            assert(all.take(i + 1).drop_last() =~= all.take(i as int));
            assert(all.take(i + 1).last() == candidate@);
        }
        if !holds(present, candidate) && !holds(&absent, candidate) {
            absent.push(candidate.clone());
            assert(texts(absent@) =~= before.push(candidate@));
        }
        i = i + 1;
    }
    assert(texts(candidates@).take(candidates.len() as int) =~= texts(candidates@));
    absent
}

/// The keys to look up for a list of candidates: each candidate once.
pub fn query_keys(candidates: &Vec<PathAndHash>) -> (keys: Vec<PathAndHash>)
    ensures
        texts(keys@) == distinct(texts(candidates@)),
{
    let nothing: Vec<PathAndHash> = Vec::new();
    assert(texts(nothing@) =~= Seq::empty());
    missing_files(candidates, &nothing)
}

/// The alphabet of revision identifiers.
pub open spec fn is_crockford_digit(c: char) -> bool {
    "0123456789ABCDEFGHJKMNPQRSTVWXYZ"@.contains(c)
}

/// The shape of a revision identifier: 26 characters of Crockford's base-32
/// alphabet.
pub open spec fn is_ulid_text(text: Seq<char>) -> bool {
    &&& text.len() == 26
    &&& forall|i: int| 0 <= i < text.len() ==> is_crockford_digit(#[trigger] text[i])
}

/// Calls `rusty_ulid::generate_ulid_string`: a new identifier made from the
/// clock and from random bits. Two calls may give any two identifiers; all
/// that is claimed is the shape of each. The call panics once the clock has
/// passed the year 10889.
#[verifier::external_body]
fn fresh_revision_id() -> (revision_id: String)
    ensures
        is_ulid_text(revision_id@),
{
    rusty_ulid::generate_ulid_string()
}

/// What the service does next for a request.
#[derive(Debug, PartialEq, Eq)]
pub enum IngestStep {
    /// Ask the store which of `keys` it has a file for, then answer with
    /// [`finish_lookup`].
    Lookup { keys: Vec<PathAndHash> },
    /// Execute `statements` in this order, as long as each
    /// [passes](Statement::passes); once all have passed, answer with
    /// `response`.
    Apply { statements: Vec<Statement>, response: ApiResponse },
}

/// What an [`IngestStep`] stands for.
pub enum IngestStepView {
    Lookup { keys: Seq<Seq<char>> },
    Apply { statements: Seq<StatementView>, response: ApiResponseView },
}

impl View for IngestStep {
    type V = IngestStepView;

    open spec fn view(&self) -> IngestStepView {
        match self {
            IngestStep::Lookup { keys } => IngestStepView::Lookup { keys: texts(keys@) },
            IngestStep::Apply { statements, response } => IngestStepView::Apply {
                statements: statement_views(statements@),
                response: response@,
            },
        }
    }
}

/// One insertion into `files` per uploaded file, in order.
pub open spec fn upload_statements(files: Seq<UploadedFileView>) -> Seq<StatementView> {
    files.map_values(
        |file: UploadedFileView|
            StatementView::InsertFile { path_and_hash: file.pah, data: file.contents },
    )
}

/// One insertion into `revision_files` per fingerprint, in order.
pub open spec fn manifest_statements(revision_id: Seq<char>, files: Seq<Seq<char>>) -> Seq<
    StatementView,
> {
    files.map_values(
        |key: Seq<char>| StatementView::InsertRevisionFile { revision_id, path_and_hash: key },
    )
}

/// The manifest rows of a revision; then the pointer; then the
/// announcement.
pub open spec fn revision_statements(revision_id: Seq<char>, files: Seq<Seq<char>>) -> Seq<
    StatementView,
> {
    manifest_statements(revision_id, files) + seq![
        StatementView::SetLatest { revision_id },
        StatementView::Notify,
    ]
}

/// The step for a list of candidates: look up each candidate once.
pub open spec fn lookup_step(candidates: Seq<Seq<char>>) -> IngestStepView {
    IngestStepView::Lookup { keys: distinct(candidates) }
}

/// The step for an upload: insert every file, then report success.
pub open spec fn upload_step(files: Seq<UploadedFileView>) -> IngestStepView {
    IngestStepView::Apply {
        statements: upload_statements(files),
        response: ApiResponseView::UploadFiles { success: true },
    }
}

/// The step that publishes `files` as revision `revision_id`: the manifest
/// rows, then the pointer, then the announcement; then report success and
/// the identifier.
pub open spec fn publish_step(revision_id: Seq<char>, files: Seq<Seq<char>>) -> IngestStepView {
    IngestStepView::Apply {
        statements: revision_statements(revision_id, files),
        response: ApiResponseView::MakeRevision { success: true, revision_id },
    }
}

/// Whether `step` is the step for `request`: determined by the request, but
/// for the identifier under which a revision is published, which is any
/// text of the shape of an identifier.
pub open spec fn is_step_for(request: ApiRequestView, step: IngestStepView) -> bool {
    match request {
        ApiRequestView::ListMissingFiles { candidates } => step == lookup_step(candidates),
        ApiRequestView::UploadFiles { files } => step == upload_step(files),
        ApiRequestView::MakeRevision { files } => exists|revision_id: Seq<char>|
            is_ulid_text(revision_id) && step == #[trigger] publish_step(revision_id, files),
    }
}

/// The step for a list of candidates.
pub fn begin_lookup(candidates: &Vec<PathAndHash>) -> (step: IngestStep)
    ensures
        step@ == lookup_step(texts(candidates@)),
{
    IngestStep::Lookup { keys: query_keys(candidates) }
}

/// The answer to a lookup, once the store has said which of `keys` are
/// `present`.
pub fn finish_lookup(keys: &Vec<PathAndHash>, present: &Vec<PathAndHash>) -> (response:
    ApiResponse)
    ensures
        response@ == (ApiResponseView::ListMissingFiles {
            missing: missing(texts(keys@), texts(present@)),
        }),
{
    ApiResponse::ListMissingFiles { missing: missing_files(keys, present) }
}

/// The step for an upload.
pub fn begin_upload(files: Vec<UploadedFile>) -> (step: IngestStep)
    ensures
        step@ == upload_step(file_views(files@)),
{
    let ghost all = file_views(files@);
    let mut statements: Vec<Statement> = Vec::new();
    for file in it: files
        invariant
            file_views(it.seq()) == all,
            statement_views(statements@) =~= upload_statements(all.take(it.index() as int)),
    {
        let ghost k = it.index() as int;
        let ghost before = statement_views(statements@);
        let ghost added = StatementView::InsertFile {
            path_and_hash: file.pah@,
            data: file.contents@,
        };
        assert(all[k] == file@);
        assert(all.take(k + 1) =~= all.take(k).push(all[k]));
        statements.push(Statement::InsertFile { path_and_hash: file.pah, data: file.contents });
        assert(statement_views(statements@) =~= before.push(added));
        assert(upload_statements(all.take(k + 1)) =~= upload_statements(all.take(k)).push(added));
    }
    assert(all.take(all.len() as int) =~= all);
    IngestStep::Apply { statements, response: ApiResponse::UploadFiles { success: true } }
}

/// The step that publishes `files` as revision `revision_id`.
pub fn begin_publish(revision_id: String, files: Vec<PathAndHash>) -> (step: IngestStep)
    ensures
        step@ == publish_step(revision_id@, texts(files@)),
{
    let ghost id = revision_id@;
    let ghost all = texts(files@);
    let mut statements: Vec<Statement> = Vec::new();
    for file in it: files
        invariant
            revision_id@ == id,
            texts(it.seq()) == all,
            statement_views(statements@) =~= manifest_statements(
                id,
                all.take(it.index() as int),
            ),
    {
        let ghost k = it.index() as int;
        let ghost before = statement_views(statements@);
        let ghost added = StatementView::InsertRevisionFile {
            revision_id: id,
            path_and_hash: file@,
        };
        assert(all[k] == file@);
        assert(all.take(k + 1) =~= all.take(k).push(all[k]));
        let statement = Statement::InsertRevisionFile {
            revision_id: revision_id.clone(),
            path_and_hash: file,
        };
        assert(statement@ == added);
        statements.push(statement);
        assert(statement_views(statements@) =~= before.push(added));
        assert(manifest_statements(id, all.take(k + 1)) =~= manifest_statements(
            id,
            all.take(k),
        ).push(added));
    }
    assert(all.take(all.len() as int) =~= all);
    let ghost rows = statement_views(statements@);
    statements.push(Statement::SetLatest { revision_id: revision_id.clone() });
    statements.push(Statement::Notify);
    assert(statement_views(statements@) =~= rows + seq![
        StatementView::SetLatest { revision_id: id },
        StatementView::Notify,
    ]);
    IngestStep::Apply {
        statements,
        response: ApiResponse::MakeRevision { success: true, revision_id },
    }
}

/// The step for a request. A revision to publish gets a freshly generated
/// identifier.
pub fn handle(request: ApiRequest) -> (step: IngestStep)
    ensures
        is_step_for(request@, step@),
{
    match request {
        ApiRequest::ListMissingFiles { candidates } => begin_lookup(&candidates),
        ApiRequest::UploadFiles { files } => begin_upload(files),
        ApiRequest::MakeRevision { files } => {
            let revision_id = fresh_revision_id();
            let ghost id = revision_id@;
            let ghost keys = texts(files@);
            let step = begin_publish(revision_id, files);
            assert(is_ulid_text(id) && step@ == publish_step(id, keys));
            step
        },
    }
}

/// What the service reports missing for `candidates` when the store names
/// `present` as the looked-up keys it holds.
pub open spec fn reported_missing(candidates: Seq<Seq<char>>, present: Seq<Seq<char>>) -> Seq<
    Seq<char>,
> {
    missing(distinct(candidates), present)
}

/// Deduplication is correct: when the store answers a lookup with exactly
/// the looked-up keys it holds, every fingerprint reported missing is
/// absent from the store, and every candidate not reported missing is in
/// it.
pub proof fn lemma_reported_missing_is_exact(
    store: Store,
    candidates: Seq<Seq<char>>,
    present: Seq<Seq<char>>,
)
    requires
        present.to_set() == store.present(distinct(candidates)),
    ensures
        forall|key: Seq<char>| #[trigger]
            reported_missing(candidates, present).contains(key) ==> candidates.contains(key)
                && !store.files.contains_key(key),
        forall|key: Seq<char>|
            candidates.contains(key) && !(#[trigger] reported_missing(candidates, present).contains(
                key,
            )) ==> store.files.contains_key(key),
        reported_missing(candidates, present).no_duplicates(),
{
    let keys = distinct(candidates);
    lemma_missing_no_duplicates(keys, present);
    assert forall|key: Seq<char>|
        reported_missing(candidates, present).contains(key) <==> candidates.contains(key)
            && !store.files.contains_key(key) by {
        lemma_missing_contains(keys, present, key);
        lemma_missing_contains(candidates, Seq::empty(), key);
        assert(!Seq::<Seq<char>>::empty().contains(key));
        assert(present.contains(key) == present.to_set().contains(key));
        assert(store.present(keys).contains(key) == (keys.contains(key)
            && store.files.contains_key(key)));
    }
}

/// Whether every one of `statements` belongs to the publication of
/// `revision_id` with the fingerprints `files`.
pub open spec fn publishes_only(
    statements: Seq<StatementView>,
    revision_id: Seq<char>,
    files: Seq<Seq<char>>,
) -> bool {
    forall|i: int|
        0 <= i < statements.len() ==> match #[trigger] statements[i] {
            StatementView::InsertFile { .. } => false,
            StatementView::InsertRevisionFile { revision_id: id, path_and_hash } => id
                == revision_id && files.contains(path_and_hash),
            StatementView::SetLatest { revision_id: id } => id == revision_id,
            StatementView::Notify => true,
        }
}

/// Whether the store is ready for the publication of `revision_id` with
/// the fingerprints `files`: it holds every file, lists nothing else for
/// the revision, and its latest revision is complete.
pub open spec fn ready_to_publish(store: Store, revision_id: Seq<char>, files: Seq<Seq<char>>) -> bool {
    &&& store.holds_all(files)
    &&& store.publication_complete()
    &&& forall|key: Seq<char>| #[trigger]
        store.revision_files.contains((revision_id, key)) ==> files.contains(key)
}

/// Statements of a publication keep a ready store ready, wherever the run
/// stops.
pub proof fn lemma_publishing_keeps_ready(
    store: Store,
    revision_id: Seq<char>,
    files: Seq<Seq<char>>,
    statements: Seq<StatementView>,
)
    requires
        ready_to_publish(store, revision_id, files),
        publishes_only(statements, revision_id, files),
    ensures
        ready_to_publish(store.run(statements), revision_id, files),
        store.run(statements).files == store.files,
    decreases statements.len(),
{
    if statements.len() > 0 && store.goes_on(statements.first()) {
        let first = statements.first();
        let next = store.apply(first);
        assert(statements[0] == first);
        assert forall|key: Seq<char>| files.contains(key) implies store.files.contains_key(key) by {
            let i = choose|i: int| 0 <= i < files.len() && files[i] == key;
            assert(store.files.contains_key(files[i]));
        }
        assert(ready_to_publish(next, revision_id, files));
        assert forall|i: int| 0 <= i < statements.drop_first().len() implies match #[trigger] statements.drop_first()[i] {
            StatementView::InsertFile { .. } => false,
            StatementView::InsertRevisionFile { revision_id: id, path_and_hash } => id
                == revision_id && files.contains(path_and_hash),
            StatementView::SetLatest { revision_id: id } => id == revision_id,
            StatementView::Notify => true,
        } by {
            assert(statements.drop_first()[i] == statements[i + 1]);
        }
        lemma_publishing_keeps_ready(next, revision_id, files, statements.drop_first());
    }
}

/// Atomic publication: while a revision is being published, at whatever
/// statement an observer looks in, every fingerprint listed for the latest
/// revision has its file in the store. It takes a store that holds every
/// file of the new revision, which is what uploading before publishing is
/// for, and an identifier that no row uses yet.
pub proof fn lemma_publication_is_atomic(
    store: Store,
    revision_id: Seq<char>,
    files: Seq<Seq<char>>,
    k: int,
)
    requires
        store.publication_complete(),
        store.holds_all(files),
        store.is_unused(revision_id),
        0 <= k <= revision_statements(revision_id, files).len(),
    ensures
        store.run(revision_statements(revision_id, files).take(k)).publication_complete(),
        store.run(revision_statements(revision_id, files).take(k)).files == store.files,
{
    let plan = revision_statements(revision_id, files);
    assert forall|i: int| 0 <= i < plan.take(k).len() implies match #[trigger] plan.take(k)[i] {
        StatementView::InsertFile { .. } => false,
        StatementView::InsertRevisionFile { revision_id: id, path_and_hash } => id == revision_id
            && files.contains(path_and_hash),
        StatementView::SetLatest { revision_id: id } => id == revision_id,
        StatementView::Notify => true,
    } by {
        if i < files.len() {
            assert(plan[i] == StatementView::InsertRevisionFile {
                revision_id,
                path_and_hash: files[i],
            });
        }
    }
    lemma_publishing_keeps_ready(store, revision_id, files, plan.take(k));
}

/// The keys of a list of uploaded files, in order.
pub open spec fn upload_keys(files: Seq<UploadedFileView>) -> Seq<Seq<char>> {
    files.map_values(|file: UploadedFileView| file.pah)
}

/// Uploading files that the store lacks, each under a key of its own, is
/// accepted in full. Afterwards the store holds each of them with the
/// bytes sent, and what it held before as it was; revisions and the
/// pointer are untouched.
pub proof fn lemma_upload_stores_files(store: Store, files: Seq<UploadedFileView>)
    requires
        upload_keys(files).no_duplicates(),
        forall|i: int| 0 <= i < files.len() ==> !store.files.contains_key(#[trigger] files[i].pah),
    ensures
        store.accepts_all(upload_statements(files)),
        forall|i: int|
            0 <= i < files.len() ==> store.run(upload_statements(files)).files.contains_key(
                #[trigger] files[i].pah,
            ) && store.run(upload_statements(files)).files[files[i].pah] == files[i].contents,
        forall|key: Seq<char>|
            store.run(upload_statements(files)).files.contains_key(key) ==> store.files.contains_key(
                key,
            ) || upload_keys(files).contains(key),
        forall|key: Seq<char>| #[trigger]
            store.files.contains_key(key) ==> store.run(upload_statements(files)).files.contains_key(
                key,
            ) && store.run(upload_statements(files)).files[key] == store.files[key],
        store.run(upload_statements(files)).revision_files == store.revision_files,
        store.run(upload_statements(files)).latest == store.latest,
    decreases files.len(),
{
    if files.len() == 0 {
        assert(upload_statements(files) =~= Seq::empty());
        assert(store.accepts_all(Seq::empty()));
    } else {
        let earlier = files.drop_last();
        let last = files.last();
        let insert = StatementView::InsertFile { path_and_hash: last.pah, data: last.contents };
        assert(upload_keys(earlier) =~= upload_keys(files).drop_last());
        assert forall|i: int| 0 <= i < earlier.len() implies !store.files.contains_key(
            #[trigger] earlier[i].pah,
        ) by {
            assert(earlier[i] == files[i]);
        }
        lemma_upload_stores_files(store, earlier);
        assert(upload_statements(files) =~= upload_statements(earlier).push(insert));
        lemma_accepted_completes(store, upload_statements(earlier));
        lemma_run_push(store, upload_statements(earlier), insert);
        let stored = store.run(upload_statements(earlier));
        assert(!stored.files.contains_key(last.pah)) by {
            if upload_keys(earlier).contains(last.pah) {
                let i = choose|i: int|
                    0 <= i < upload_keys(earlier).len() && upload_keys(earlier)[i] == last.pah;
                assert(upload_keys(files)[i] == last.pah);
                assert(upload_keys(files)[files.len() - 1] == last.pah);
            }
            assert(files[files.len() - 1] == last);
        }
        assert(stored.accepts(insert));
        let done = stored.apply(insert);
        assert forall|i: int| 0 <= i < files.len() implies done.files.contains_key(
            #[trigger] files[i].pah,
        ) && done.files[files[i].pah] == files[i].contents by {
            if i < earlier.len() {
                assert(earlier[i] == files[i]);
                assert(stored.files.contains_key(earlier[i].pah));
            }
        }
        assert forall|key: Seq<char>| done.files.contains_key(key) implies store.files.contains_key(
            key,
        ) || upload_keys(files).contains(key) by {
            if key == last.pah {
                assert(upload_keys(files)[files.len() - 1] == key);
            } else if upload_keys(earlier).contains(key) {
                let i = choose|i: int|
                    0 <= i < upload_keys(earlier).len() && upload_keys(earlier)[i] == key;
                assert(upload_keys(files)[i] == key);
            }
        }
    }
}

/// Idempotent upload: whatever the store holds already, and whatever the
/// batch repeats, the service gets through an upload. Afterwards the
/// store holds a file under every key uploaded, and every file it held
/// before is as it was; revisions and the pointer are untouched.
pub proof fn lemma_upload_always_completes(store: Store, files: Seq<UploadedFileView>)
    ensures
        store.completes(upload_statements(files)),
        store.run(upload_statements(files)).holds_all(upload_keys(files)),
        forall|key: Seq<char>| #[trigger]
            store.files.contains_key(key) ==> store.run(upload_statements(files)).files.contains_key(
                key,
            ) && store.run(upload_statements(files)).files[key] == store.files[key],
        store.run(upload_statements(files)).revision_files == store.revision_files,
        store.run(upload_statements(files)).latest == store.latest,
    decreases files.len(),
{
    if files.len() > 0 {
        let earlier = files.drop_last();
        let last = files.last();
        let insert = StatementView::InsertFile { path_and_hash: last.pah, data: last.contents };
        lemma_upload_always_completes(store, earlier);
        assert(upload_statements(files) =~= upload_statements(earlier).push(insert));
        lemma_run_push(store, upload_statements(earlier), insert);
        let stored = store.run(upload_statements(earlier));
        let done = stored.apply(insert);
        assert forall|i: int| 0 <= i < upload_keys(files).len() implies done.files.contains_key(
            #[trigger] upload_keys(files)[i],
        ) by {
            if i < earlier.len() {
                assert(upload_keys(earlier)[i] == upload_keys(files)[i]);
            }
        }
    }
}

/// Publishing a revision under an unused identifier, with no fingerprint
/// listed twice, is accepted in full. Afterwards the pointer names the
/// revision, the revision lists exactly the fingerprints given, and the
/// stored files are as they were.
pub proof fn lemma_publication_completes(
    store: Store,
    revision_id: Seq<char>,
    files: Seq<Seq<char>>,
)
    requires
        store.is_unused(revision_id),
        files.no_duplicates(),
    ensures
        store.accepts_all(revision_statements(revision_id, files)),
        store.run(revision_statements(revision_id, files)).latest == Some(revision_id),
        store.run(revision_statements(revision_id, files)).manifest(revision_id) == files.to_set(),
        store.run(revision_statements(revision_id, files)).files == store.files,
{
    lemma_manifest_is_written(store, revision_id, files);
    let rows = manifest_statements(revision_id, files);
    let point = StatementView::SetLatest { revision_id };
    lemma_accepted_completes(store, rows);
    lemma_run_push(store, rows, point);
    lemma_accepted_completes(store, rows.push(point));
    lemma_run_push(store, rows.push(point), StatementView::Notify);
    assert(revision_statements(revision_id, files) =~= rows.push(point).push(
        StatementView::Notify,
    ));
    let written = store.run(rows);
    let done = store.run(revision_statements(revision_id, files));
    assert(done == written.apply(point).apply(StatementView::Notify));
    assert(done.revision_files == written.revision_files);
    assert forall|key: Seq<char>| done.manifest(revision_id).contains(key) <==> files.to_set().contains(
        key,
    ) by {
        assert(!store.revision_files.contains((revision_id, key)));
        assert(written.revision_files.contains((revision_id, key)) <==> files.contains(key));
    }
    assert(done.manifest(revision_id) =~= files.to_set());
}

/// Writing the manifest of a revision under an unused identifier, with no
/// fingerprint listed twice, is accepted in full and adds exactly the
/// rows of the revision.
proof fn lemma_manifest_is_written(store: Store, revision_id: Seq<char>, files: Seq<Seq<char>>)
    requires
        store.is_unused(revision_id),
        files.no_duplicates(),
    ensures
        store.accepts_all(manifest_statements(revision_id, files)),
        store.run(manifest_statements(revision_id, files)).files == store.files,
        store.run(manifest_statements(revision_id, files)).latest == store.latest,
        forall|id: Seq<char>, key: Seq<char>|
            store.run(manifest_statements(revision_id, files)).revision_files.contains((id, key))
                <==> store.revision_files.contains((id, key)) || (id == revision_id
                && files.contains(key)),
    decreases files.len(),
{
    if files.len() == 0 {
        assert(manifest_statements(revision_id, files) =~= Seq::empty());
        assert(store.accepts_all(Seq::empty()));
    } else {
        let earlier = files.drop_last();
        let last = files.last();
        let insert = StatementView::InsertRevisionFile { revision_id, path_and_hash: last };
        lemma_manifest_is_written(store, revision_id, earlier);
        assert(manifest_statements(revision_id, files) =~= manifest_statements(
            revision_id,
            earlier,
        ).push(insert));
        lemma_accepted_completes(store, manifest_statements(revision_id, earlier));
        lemma_run_push(store, manifest_statements(revision_id, earlier), insert);
        let written = store.run(manifest_statements(revision_id, earlier));
        assert(!earlier.contains(last)) by {
            if earlier.contains(last) {
                let i = choose|i: int| 0 <= i < earlier.len() && earlier[i] == last;
                assert(files[i] == files[files.len() - 1]);
            }
        }
        assert(!store.revision_files.contains((revision_id, last)));
        assert(!written.revision_files.contains((revision_id, last)));
        assert(written.accepts(insert));
        let done = written.apply(insert);
        assert forall|id: Seq<char>, key: Seq<char>|
            done.revision_files.contains((id, key)) <==> store.revision_files.contains((id, key))
                || (id == revision_id && files.contains(key)) by {
            assert(files[files.len() - 1] == last);
            if files.contains(key) && key != last {
                let i = choose|i: int| 0 <= i < files.len() && files[i] == key;
                assert(earlier[i] == key);
            }
            if earlier.contains(key) {
                let i = choose|i: int| 0 <= i < earlier.len() && earlier[i] == key;
                assert(files[i] == key);
            }
        }
    }
}

} // verus!
