//! The deploy client as a state machine.
//!
//! The client itself walks a directory, reads files and talks to the ingest
//! service. What it decides is here: given what just happened, what the
//! client's state becomes and what is to be done next.

use vstd::prelude::*;
use vstd::string::*;
use crate::fingerprint::{
    all_well_formed, are_well_formed, fingerprint_of, path_part, separator, texts, well_formed,
    PathAndHash,
};
use crate::ingest::{
    distinct, lemma_publication_is_atomic, lemma_reported_missing_is_exact,
    lemma_upload_stores_files, reported_missing, revision_statements, upload_keys,
    upload_statements,
};
use crate::store::Store;
use crate::protocol::{
    file_views, ApiRequest, ApiRequestView, ApiResponse, ApiResponseView, UploadedFile,
    UploadedFileView,
};

verus! {

/// Why a deployment was given up.
#[derive(Clone, Copy, Debug, PartialEq, Eq, Structural)]
pub enum DeployError {
    /// A file's relative path holds the separator of fingerprints.
    BadPath,
    /// A request could not be sent, its answer could not be read, or a
    /// file could not be read.
    Transport,
    /// What came back is not an answer to what was asked.
    Unexpected,
    /// The service named a missing fingerprint that cannot be split.
    Malformed,
    /// The service reported a failure.
    Refused,
}

/// Where the client is in a deployment.
#[derive(Debug)]
pub enum ClientPhase {
    /// The working tree is being walked.
    Collecting,
    /// The service was asked which candidates it lacks.
    AwaitingMissing,
    /// The missing files are being read.
    Reading { missing: Vec<PathAndHash> },
    /// The missing files were sent.
    AwaitingUpload,
    /// The service was asked to publish the revision.
    AwaitingRevision,
    /// The revision was published.
    Done,
    /// The deployment was given up.
    Failed,
}

/// What a [`ClientPhase`] stands for.
pub enum ClientPhaseView {
    Collecting,
    AwaitingMissing,
    Reading { missing: Seq<Seq<char>> },
    AwaitingUpload,
    AwaitingRevision,
    Done,
    Failed,
}

impl View for ClientPhase {
    type V = ClientPhaseView;

    open spec fn view(&self) -> ClientPhaseView {
        match self {
            ClientPhase::Collecting => ClientPhaseView::Collecting,
            ClientPhase::AwaitingMissing => ClientPhaseView::AwaitingMissing,
            ClientPhase::Reading { missing } => ClientPhaseView::Reading {
                missing: texts(missing@),
            },
            ClientPhase::AwaitingUpload => ClientPhaseView::AwaitingUpload,
            ClientPhase::AwaitingRevision => ClientPhaseView::AwaitingRevision,
            ClientPhase::Done => ClientPhaseView::Done,
            ClientPhase::Failed => ClientPhaseView::Failed,
        }
    }
}

/// What happened: the outcome of the action the client asked for last.
#[derive(Debug, PartialEq, Eq)]
#[allow(inconsistent_fields)]
pub enum ClientEvent {
    /// The walk came to a regular file.
    File { path: String, contents: Vec<u8> },
    /// The walk is over.
    WalkFinished,
    /// The service answered.
    Response { response: ApiResponse },
    /// The files were read: their bytes, in the order asked for.
    FilesRead { contents: Vec<Vec<u8>> },
    /// The action could not be carried out.
    Failed,
}

/// What a list of byte strings stands for.
pub open spec fn byte_views(list: Seq<Vec<u8>>) -> Seq<Seq<u8>> {
    list.map_values(|bytes: Vec<u8>| bytes@)
}

/// What a list of strings stands for.
pub open spec fn string_views(list: Seq<String>) -> Seq<Seq<char>> {
    list.map_values(|text: String| text@)
}

/// What a [`ClientEvent`] stands for.
#[allow(inconsistent_fields)]
pub enum ClientEventView {
    File { path: Seq<char>, contents: Seq<u8> },
    WalkFinished,
    Response { response: ApiResponseView },
    FilesRead { contents: Seq<Seq<u8>> },
    Failed,
}

impl View for ClientEvent {
    type V = ClientEventView;

    open spec fn view(&self) -> ClientEventView {
        match self {
            ClientEvent::File { path, contents } => ClientEventView::File {
                path: path@,
                contents: contents@,
            },
            ClientEvent::WalkFinished => ClientEventView::WalkFinished,
            ClientEvent::Response { response } => ClientEventView::Response {
                response: response@,
            },
            ClientEvent::FilesRead { contents } => ClientEventView::FilesRead {
                contents: byte_views(contents@),
            },
            ClientEvent::Failed => ClientEventView::Failed,
        }
    }
}

/// What is to be done next. Every action but `Report` and `Abort` is
/// answered by one event.
#[derive(Debug, PartialEq, Eq)]
pub enum ClientAction {
    /// Go on walking the working tree.
    Walk,
    /// Send the request to the ingest service.
    Send { request: ApiRequest },
    /// Read the files at these paths.
    ReadFiles { paths: Vec<String> },
    /// Report the published revision: the deployment is done.
    Report { revision_id: String },
    /// Give up, without sending anything more.
    Abort { error: DeployError },
}

/// What a [`ClientAction`] stands for.
pub enum ClientActionView {
    Walk,
    Send { request: ApiRequestView },
    ReadFiles { paths: Seq<Seq<char>> },
    Report { revision_id: Seq<char> },
    Abort { error: DeployError },
}

impl View for ClientAction {
    type V = ClientActionView;

    open spec fn view(&self) -> ClientActionView {
        match self {
            ClientAction::Walk => ClientActionView::Walk,
            ClientAction::Send { request } => ClientActionView::Send { request: request@ },
            ClientAction::ReadFiles { paths } => ClientActionView::ReadFiles {
                paths: string_views(paths@),
            },
            ClientAction::Report { revision_id } => ClientActionView::Report {
                revision_id: revision_id@,
            },
            ClientAction::Abort { error } => ClientActionView::Abort { error: *error },
        }
    }
}

/// The paths of a list of well-formed fingerprints, in order.
pub open spec fn paths_of(files: Seq<Seq<char>>) -> Seq<Seq<char>> {
    files.map_values(|text: Seq<char>| path_part(text))
}

/// Each fingerprint with the bytes at the same position.
pub open spec fn uploads_of(files: Seq<Seq<char>>, contents: Seq<Seq<u8>>) -> Seq<
    UploadedFileView,
> {
    Seq::new(files.len(), |i: int| UploadedFileView { pah: files[i], contents: contents[i] })
}

/// What a [`DeployClient`] stands for.
pub struct DeployClientView {
    /// The fingerprints of the files found so far, in the order found.
    pub candidates: Seq<Seq<char>>,
    /// Where the client is in the deployment.
    pub phase: ClientPhaseView,
}

impl DeployClientView {
    /// The state a client starts in: walking, with nothing found yet.
    pub open spec fn initial() -> DeployClientView {
        DeployClientView { candidates: Seq::empty(), phase: ClientPhaseView::Collecting }
    }

    /// The state with its phase replaced.
    pub open spec fn at(self, phase: ClientPhaseView) -> DeployClientView {
        DeployClientView { phase, ..self }
    }

    /// The deployment is given up.
    pub open spec fn aborted(self, error: DeployError) -> (DeployClientView, ClientActionView) {
        (self.at(ClientPhaseView::Failed), ClientActionView::Abort { error })
    }

    /// Whether the deployment is over, one way or the other.
    pub open spec fn is_over(self) -> bool {
        self.phase is Done || self.phase is Failed
    }

    /// The state after `event` and the action to take. While the
    /// deployment runs, an event that does not answer the last action
    /// gives it up. Once it is over, nothing follows: `None`.
    pub open spec fn next(self, event: ClientEventView) -> Option<
        (DeployClientView, ClientActionView),
    > {
        if self.is_over() {
            None
        } else {
            Some(
                match (self.phase, event) {
                    (_, ClientEventView::Failed) => self.aborted(DeployError::Transport),
                    (ClientPhaseView::Collecting, ClientEventView::File { path, contents }) => {
                        if path.contains(separator()) {
                            self.aborted(DeployError::BadPath)
                        } else {
                            (
                                DeployClientView {
                                    candidates: self.candidates.push(
                                        fingerprint_of(path, contents),
                                    ),
                                    ..self
                                },
                                ClientActionView::Walk,
                            )
                        }
                    },
                    (ClientPhaseView::Collecting, ClientEventView::WalkFinished) => (
                        self.at(ClientPhaseView::AwaitingMissing),
                        ClientActionView::Send {
                            request: ApiRequestView::ListMissingFiles {
                                candidates: self.candidates,
                            },
                        },
                    ),
                    (
                        ClientPhaseView::AwaitingMissing,
                        ClientEventView::Response {
                            response: ApiResponseView::ListMissingFiles { missing },
                        },
                    ) => {
                        if all_well_formed(missing) {
                            (
                                self.at(ClientPhaseView::Reading { missing }),
                                ClientActionView::ReadFiles { paths: paths_of(missing) },
                            )
                        } else {
                            self.aborted(DeployError::Malformed)
                        }
                    },
                    (
                        ClientPhaseView::Reading { missing },
                        ClientEventView::FilesRead { contents },
                    ) => {
                        if contents.len() == missing.len() {
                            (
                                self.at(ClientPhaseView::AwaitingUpload),
                                ClientActionView::Send {
                                    request: ApiRequestView::UploadFiles {
                                        files: uploads_of(missing, contents),
                                    },
                                },
                            )
                        } else {
                            self.aborted(DeployError::Unexpected)
                        }
                    },
                    (
                        ClientPhaseView::AwaitingUpload,
                        ClientEventView::Response {
                            response: ApiResponseView::UploadFiles { success },
                        },
                    ) => {
                        if success {
                            (
                                self.at(ClientPhaseView::AwaitingRevision),
                                ClientActionView::Send {
                                    request: ApiRequestView::MakeRevision {
                                        files: self.candidates,
                                    },
                                },
                            )
                        } else {
                            self.aborted(DeployError::Refused)
                        }
                    },
                    (
                        ClientPhaseView::AwaitingRevision,
                        ClientEventView::Response {
                            response: ApiResponseView::MakeRevision { success, revision_id },
                        },
                    ) => {
                        if success {
                            (
                                self.at(ClientPhaseView::Done),
                                ClientActionView::Report { revision_id },
                            )
                        } else {
                            self.aborted(DeployError::Refused)
                        }
                    },
                    _ => self.aborted(DeployError::Unexpected),
                },
            )
        }
    }
}

/// What a deployment achieves against a store that nobody else writes to.
///
/// The service reports the candidates that the store lacks; the client
/// uploads those, with whatever bytes; the service publishes the
/// candidates as a revision. Then every upload is accepted, the store
/// holds every candidate before the revision is published, and at
/// whatever statement of the publication an observer looks in, every
/// fingerprint listed for the latest revision has its file in the store.
pub proof fn lemma_deployment_publishes_complete_revision(
    store: Store,
    candidates: Seq<Seq<char>>,
    present: Seq<Seq<char>>,
    contents: Seq<Seq<u8>>,
    revision_id: Seq<char>,
    k: int,
)
    requires
        store.publication_complete(),
        store.is_unused(revision_id),
        present.to_set() == store.present(distinct(candidates)),
        contents.len() == reported_missing(candidates, present).len(),
        0 <= k <= revision_statements(revision_id, candidates).len(),
    ensures
        ({
            let uploads = uploads_of(reported_missing(candidates, present), contents);
            let stored = store.run(upload_statements(uploads));
            &&& store.accepts_all(upload_statements(uploads))
            &&& stored.holds_all(candidates)
            &&& stored.run(
                revision_statements(revision_id, candidates).take(k),
            ).publication_complete()
        }),
{
    let missing = reported_missing(candidates, present);
    let uploads = uploads_of(missing, contents);
    let stored = store.run(upload_statements(uploads));
    lemma_reported_missing_is_exact(store, candidates, present);
    assert(upload_keys(uploads) =~= missing);
    assert forall|i: int| 0 <= i < uploads.len() implies !store.files.contains_key(
        #[trigger] uploads[i].pah,
    ) by {
        assert(missing.contains(missing[i]));
    }
    lemma_upload_stores_files(store, uploads);
    assert forall|i: int| 0 <= i < candidates.len() implies stored.files.contains_key(
        #[trigger] candidates[i],
    ) by {
        let key = candidates[i];
        assert(candidates.contains(key));
        if missing.contains(key) {
            let j = choose|j: int| 0 <= j < missing.len() && missing[j] == key;
            assert(uploads[j].pah == key);
        } else {
            assert(store.files.contains_key(key));
        }
    }
    assert(stored.publication_complete()) by {
        if let Some(latest) = stored.latest {
            assert forall|key: Seq<char>|
                stored.revision_files.contains((latest, key)) implies stored.files.contains_key(
                key,
            ) by {
                assert(store.revision_files.contains((latest, key)));
                assert(store.files.contains_key(key));
            }
        }
    }
    lemma_publication_is_atomic(stored, revision_id, candidates, k);
}

/// The paths of a list of well-formed fingerprints, in order.
fn paths(files: &Vec<PathAndHash>) -> (paths: Vec<String>)
    requires
        all_well_formed(texts(files@)),
    ensures
        string_views(paths@) == paths_of(texts(files@)),
{
    let mut paths: Vec<String> = Vec::new();
    let mut i: usize = 0;
    while i < files.len()
        invariant
            i <= files.len(),
            all_well_formed(texts(files@)),
            string_views(paths@) =~= paths_of(texts(files@).take(i as int)),
        decreases files.len() - i,
    {
        let ghost before = string_views(paths@);
        let ghost all = texts(files@);
        assert(well_formed(all[i as int]));
        let path = String::from_str(files[i].path());
        assert(all.take(i + 1) =~= all.take(i as int).push(all[i as int]));
        assert(paths_of(all.take(i + 1)) =~= paths_of(all.take(i as int)).push(path@));
        paths.push(path);
        assert(string_views(paths@) =~= before.push(path@));
        i = i + 1;
    }
    assert(texts(files@).take(files.len() as int) =~= texts(files@));
    paths
}

/// Each fingerprint with the bytes at the same position.
fn pair_up(files: &Vec<PathAndHash>, contents: Vec<Vec<u8>>) -> (uploads: Vec<UploadedFile>)
    requires
        files.len() == contents.len(),
    ensures
        file_views(uploads@) == uploads_of(texts(files@), byte_views(contents@)),
{
    let ghost keys = texts(files@);
    let ghost all = byte_views(contents@);
    let mut uploads: Vec<UploadedFile> = Vec::new();
    let mut i: usize = 0;
    for data in it: contents
        invariant
            i == it.index(),
            keys == texts(files@),
            keys.len() == all.len(),
            byte_views(it.seq()) == all,
            file_views(uploads@) =~= uploads_of(keys, all).take(it.index() as int),
    {
        let ghost k = it.index() as int;
        let ghost before = file_views(uploads@);
        assert(all[k] == data@);
        assert(i < files.len());
        let upload = UploadedFile { pah: files[i].clone(), contents: data };
        assert(upload@ == uploads_of(keys, all)[k]);
        uploads.push(upload);
        assert(file_views(uploads@) =~= before.push(uploads_of(keys, all)[k]));
        i = i + 1;
    }
    assert(uploads_of(keys, all).take(all.len() as int) =~= uploads_of(keys, all));
    uploads
}

/// The state of a deployment: the fingerprints found, and how far the
/// exchange with the service has come.
#[derive(Debug)]
pub struct DeployClient {
    candidates: Vec<PathAndHash>,
    phase: ClientPhase,
}

impl View for DeployClient {
    type V = DeployClientView;

    closed spec fn view(&self) -> DeployClientView {
        DeployClientView { candidates: texts(self.candidates@), phase: self.phase@ }
    }
}

impl DeployClient {
    /// A client in its initial state. The first thing to do is to walk the
    /// working tree.
    pub fn new() -> (client: DeployClient)
        ensures
            client@ == DeployClientView::initial(),
    {
        let client = DeployClient { candidates: Vec::new(), phase: ClientPhase::Collecting };
        assert(texts(client.candidates@) =~= Seq::empty());
        client
    }

    /// Whether the deployment is over, one way or the other.
    pub fn is_over(&self) -> (over: bool)
        ensures
            over == self@.is_over(),
    {
        match self.phase {
            ClientPhase::Done => true,
            ClientPhase::Failed => true,
            _ => false,
        }
    }

    /// Takes in `event`: gives the state after it and the action to take
    /// next, or the state unchanged and no action once the deployment is
    /// over.
    pub fn step(self, event: ClientEvent) -> (out: (DeployClient, Option<ClientAction>))
        ensures
            self@.next(event@) matches Some(next) ==> out.0@ == next.0 && (out.1 matches Some(
                action,
            ) && action@ == next.1),
            self@.next(event@) is None ==> out.0@ == self@ && out.1 is None,
    {
        if self.is_over() {
            return (self, None);
        }
        let DeployClient { candidates, phase } = self;
        match (phase, event) {
            (_, ClientEvent::Failed) => (
                DeployClient { candidates, phase: ClientPhase::Failed },
                Some(ClientAction::Abort { error: DeployError::Transport }),
            ),
            (ClientPhase::Collecting, ClientEvent::File { path, contents }) => {
                match PathAndHash::from_path(path.as_str(), contents.as_slice()) {
                    None => (
                        DeployClient { candidates, phase: ClientPhase::Failed },
                        Some(ClientAction::Abort { error: DeployError::BadPath }),
                    ),
                    Some(fingerprint) => {
                        let ghost before = texts(candidates@);
                        let mut candidates = candidates;
                        candidates.push(fingerprint);
                        assert(texts(candidates@) =~= before.push(fingerprint@));
                        (
                            DeployClient { candidates, phase: ClientPhase::Collecting },
                            Some(ClientAction::Walk),
                        )
                    },
                }
            },
            (ClientPhase::Collecting, ClientEvent::WalkFinished) => {
                let request = ApiRequest::ListMissingFiles { candidates: candidates.clone() };
                assert(texts(request->candidates@) =~= texts(candidates@));
                (
                    DeployClient { candidates, phase: ClientPhase::AwaitingMissing },
                    Some(ClientAction::Send { request }),
                )
            },
            (
                ClientPhase::AwaitingMissing,
                ClientEvent::Response { response: ApiResponse::ListMissingFiles { missing } },
            ) => {
                if are_well_formed(&missing) {
                    let paths = paths(&missing);
                    (
                        DeployClient { candidates, phase: ClientPhase::Reading { missing } },
                        Some(ClientAction::ReadFiles { paths }),
                    )
                } else {
                    (
                        DeployClient { candidates, phase: ClientPhase::Failed },
                        Some(ClientAction::Abort { error: DeployError::Malformed }),
                    )
                }
            },
            (ClientPhase::Reading { missing }, ClientEvent::FilesRead { contents }) => {
                if contents.len() == missing.len() {
                    let files = pair_up(&missing, contents);
                    (
                        DeployClient { candidates, phase: ClientPhase::AwaitingUpload },
                        Some(ClientAction::Send { request: ApiRequest::UploadFiles { files } }),
                    )
                } else {
                    (
                        DeployClient { candidates, phase: ClientPhase::Failed },
                        Some(ClientAction::Abort { error: DeployError::Unexpected }),
                    )
                }
            },
            (
                ClientPhase::AwaitingUpload,
                ClientEvent::Response { response: ApiResponse::UploadFiles { success } },
            ) => {
                if success {
                    let request = ApiRequest::MakeRevision { files: candidates.clone() };
                    assert(request@ == ApiRequestView::MakeRevision { files: texts(candidates@) })
                        by {
                        assert(request matches ApiRequest::MakeRevision { files } && texts(files@)
                            =~= texts(candidates@));
                    }
                    (
                        DeployClient { candidates, phase: ClientPhase::AwaitingRevision },
                        Some(ClientAction::Send { request }),
                    )
                } else {
                    (
                        DeployClient { candidates, phase: ClientPhase::Failed },
                        Some(ClientAction::Abort { error: DeployError::Refused }),
                    )
                }
            },
            (
                ClientPhase::AwaitingRevision,
                ClientEvent::Response {
                    response: ApiResponse::MakeRevision { success, revision_id },
                },
            ) => {
                if success {
                    (
                        DeployClient { candidates, phase: ClientPhase::Done },
                        Some(ClientAction::Report { revision_id }),
                    )
                } else {
                    (
                        DeployClient { candidates, phase: ClientPhase::Failed },
                        Some(ClientAction::Abort { error: DeployError::Refused }),
                    )
                }
            },
            _ => (
                DeployClient { candidates, phase: ClientPhase::Failed },
                Some(ClientAction::Abort { error: DeployError::Unexpected }),
            ),
        }
    }
}

} // verus!
