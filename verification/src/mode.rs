//! The two ways the server can run.

use vstd::prelude::*;
use vstd::string::*;

verus! {

/// What the `serve` command runs as.
#[derive(Clone, Copy, Debug, PartialEq, Eq, Structural)]
pub enum ServeMode {
    /// The ingest service, which takes uploads and publishes revisions.
    DeployIngest,
    /// The supervisor, which keeps a child running on the latest revision.
    ServeFresh,
}

/// Whether two texts are the same.
fn same_text(a: &str, b: &str) -> (same: bool)
    ensures
        same == (a@ == b@),
{
    let n = a.unicode_len();
    if n != b.unicode_len() {
        return false;
    }
    let mut i: usize = 0;
    while i < n
        invariant
            i <= n,
            n == a@.len(),
            n == b@.len(),
            forall|j: int| 0 <= j < i ==> a@[j] == b@[j],
        decreases n - i,
    {
        if a.get_char(i) != b.get_char(i) {
            return false;
        }
        i = i + 1;
    }
    assert(a@ =~= b@);
    true
}

impl ServeMode {
    /// The mode that a setting names, if it names one.
    pub open spec fn spec_parse(value: Seq<char>) -> Option<ServeMode> {
        if value == "DEPLOY_INGEST"@ {
            Some(ServeMode::DeployIngest)
        } else if value == "SERVE_FRESH"@ {
            Some(ServeMode::ServeFresh)
        } else {
            None
        }
    }

    /// The mode that a setting names: `DEPLOY_INGEST` or `SERVE_FRESH`,
    /// letter for letter. Any other setting names none.
    pub fn parse(value: &str) -> (mode: Option<ServeMode>)
        ensures
            mode == ServeMode::spec_parse(value@),
    {
        if same_text(value, "DEPLOY_INGEST") {
            Some(ServeMode::DeployIngest)
        } else if same_text(value, "SERVE_FRESH") {
            Some(ServeMode::ServeFresh)
        } else {
            None
        }
    }
}

} // verus!
