use refresh::fingerprint::PathAndHash;
use refresh::ingest::{
    begin_lookup, begin_publish, begin_upload, finish_lookup, handle, missing_files, query_keys,
    IngestStep,
};
use refresh::protocol::{ApiRequest, ApiResponse, UploadedFile};
use refresh::store::{Outcome, Statement};

fn key(text: &str) -> PathAndHash {
    PathAndHash::new(text.to_string())
}

fn keys(texts: &[&str]) -> Vec<PathAndHash> {
    texts.iter().map(|text| key(text)).collect()
}

#[test]
fn missing_files_are_the_candidates_not_present() {
    let candidates = keys(&["a#1", "b#2", "c#3", "d#4"]);
    let present = keys(&["b#2", "d#4"]);
    assert_eq!(missing_files(&candidates, &present), keys(&["a#1", "c#3"]));
}

#[test]
fn missing_files_come_once_in_order_of_first_occurrence() {
    let candidates = keys(&["c#3", "a#1", "c#3", "b#2", "a#1", "c#3"]);
    assert_eq!(missing_files(&candidates, &keys(&[])), keys(&["c#3", "a#1", "b#2"]));
    assert_eq!(missing_files(&candidates, &keys(&["a#1"])), keys(&["c#3", "b#2"]));
}

#[test]
fn missing_files_of_nothing_or_of_all_present() {
    assert_eq!(missing_files(&keys(&[]), &keys(&["a#1"])), keys(&[]));
    let candidates = keys(&["a#1", "b#2"]);
    assert_eq!(missing_files(&candidates, &keys(&["b#2", "a#1", "z#9"])), keys(&[]));
}

#[test]
fn present_keys_that_are_no_candidates_are_not_reported() {
    let candidates = keys(&["a#1"]);
    assert_eq!(missing_files(&candidates, &keys(&["x#1", "y#2"])), keys(&["a#1"]));
}

#[test]
fn query_keys_hold_each_candidate_once() {
    assert_eq!(query_keys(&keys(&["a#1", "a#1", "b#2", "a#1"])), keys(&["a#1", "b#2"]));
    assert_eq!(query_keys(&keys(&[])), keys(&[]));
    assert_eq!(query_keys(&keys(&["a#1", "b#2"])), keys(&["a#1", "b#2"]));
}

#[test]
fn lookup_step_asks_for_the_distinct_candidates() {
    let step = begin_lookup(&keys(&["a#1", "b#2", "a#1"]));
    assert_eq!(step, IngestStep::Lookup { keys: keys(&["a#1", "b#2"]) });
}

#[test]
fn lookup_is_answered_with_the_missing_keys() {
    let asked = keys(&["a#1", "b#2", "c#3"]);
    let response = finish_lookup(&asked, &keys(&["b#2"]));
    assert_eq!(response, ApiResponse::ListMissingFiles { missing: keys(&["a#1", "c#3"]) });
    let response = finish_lookup(&asked, &asked);
    assert_eq!(response, ApiResponse::ListMissingFiles { missing: keys(&[]) });
}

#[test]
fn upload_step_inserts_each_file_in_order() {
    let files = vec![
        UploadedFile { pah: key("a#1"), contents: b"hi".to_vec() },
        UploadedFile { pah: key("b#2"), contents: vec![] },
        UploadedFile { pah: key("a#1"), contents: b"again".to_vec() },
    ];
    let step = begin_upload(files);
    assert_eq!(
        step,
        IngestStep::Apply {
            statements: vec![
                Statement::InsertFile { path_and_hash: key("a#1"), data: b"hi".to_vec() },
                Statement::InsertFile { path_and_hash: key("b#2"), data: vec![] },
                Statement::InsertFile { path_and_hash: key("a#1"), data: b"again".to_vec() },
            ],
            response: ApiResponse::UploadFiles { success: true },
        }
    );
}

#[test]
fn upload_step_of_no_files_reports_success() {
    assert_eq!(
        begin_upload(vec![]),
        IngestStep::Apply {
            statements: vec![],
            response: ApiResponse::UploadFiles { success: true },
        }
    );
}

#[test]
fn publish_step_writes_manifest_then_pointer_then_announcement() {
    let id = "01ARZ3NDEKTSV4RRFFQ69G5FAV".to_string();
    let step = begin_publish(id.clone(), keys(&["a#1", "b#2"]));
    assert_eq!(
        step,
        IngestStep::Apply {
            statements: vec![
                Statement::InsertRevisionFile { revision_id: id.clone(), path_and_hash: key("a#1") },
                Statement::InsertRevisionFile { revision_id: id.clone(), path_and_hash: key("b#2") },
                Statement::SetLatest { revision_id: id.clone() },
                Statement::Notify,
            ],
            response: ApiResponse::MakeRevision { success: true, revision_id: id },
        }
    );
}

#[test]
fn publish_step_of_no_files_still_moves_the_pointer() {
    let id = "R".to_string();
    assert_eq!(
        begin_publish(id.clone(), vec![]),
        IngestStep::Apply {
            statements: vec![Statement::SetLatest { revision_id: id.clone() }, Statement::Notify],
            response: ApiResponse::MakeRevision { success: true, revision_id: id },
        }
    );
}

#[test]
fn handle_dispatches_lookup_and_upload() {
    let step = handle(ApiRequest::ListMissingFiles { candidates: keys(&["a#1", "a#1"]) });
    assert_eq!(step, IngestStep::Lookup { keys: keys(&["a#1"]) });
    let step = handle(ApiRequest::UploadFiles {
        files: vec![UploadedFile { pah: key("a#1"), contents: vec![1, 2, 3] }],
    });
    assert_eq!(
        step,
        IngestStep::Apply {
            statements: vec![Statement::InsertFile {
                path_and_hash: key("a#1"),
                data: vec![1, 2, 3]
            }],
            response: ApiResponse::UploadFiles { success: true },
        }
    );
}

#[test]
fn handle_publishes_under_a_generated_identifier() {
    let step = handle(ApiRequest::MakeRevision { files: keys(&["a#1", "b#2"]) });
    let (statements, response) = match step {
        IngestStep::Apply { statements, response } => (statements, response),
        other => panic!("unexpected step {:?}", other),
    };
    let id = match response {
        ApiResponse::MakeRevision { success, revision_id } => {
            assert!(success);
            revision_id
        }
        other => panic!("unexpected response {:?}", other),
    };
    assert_eq!(id.chars().count(), 26);
    assert!(id.chars().all(|c| "0123456789ABCDEFGHJKMNPQRSTVWXYZ".contains(c)));
    assert_eq!(
        statements,
        vec![
            Statement::InsertRevisionFile { revision_id: id.clone(), path_and_hash: key("a#1") },
            Statement::InsertRevisionFile { revision_id: id.clone(), path_and_hash: key("b#2") },
            Statement::SetLatest { revision_id: id.clone() },
            Statement::Notify,
        ]
    );
}

#[test]
fn generated_identifiers_differ() {
    let first = handle(ApiRequest::MakeRevision { files: vec![] });
    let second = handle(ApiRequest::MakeRevision { files: vec![] });
    assert_ne!(first, second);
}

#[test]
fn service_goes_on_after_an_executed_statement() {
    let statements = vec![
        Statement::InsertFile { path_and_hash: key("a#1"), data: vec![] },
        Statement::InsertRevisionFile { revision_id: "R".to_string(), path_and_hash: key("a#1") },
        Statement::SetLatest { revision_id: "R".to_string() },
        Statement::Notify,
    ];
    for statement in &statements {
        assert!(statement.passes(Outcome::Done));
        assert!(!statement.passes(Outcome::Failed));
    }
}

#[test]
fn key_violation_is_passed_over_for_files_only() {
    let file = Statement::InsertFile { path_and_hash: key("a#1"), data: vec![1] };
    let row =
        Statement::InsertRevisionFile { revision_id: "R".to_string(), path_and_hash: key("a#1") };
    assert!(file.passes(Outcome::KeyViolation));
    assert!(!row.passes(Outcome::KeyViolation));
    assert!(!Statement::SetLatest { revision_id: "R".to_string() }.passes(Outcome::KeyViolation));
    assert!(!Statement::Notify.passes(Outcome::KeyViolation));
}
