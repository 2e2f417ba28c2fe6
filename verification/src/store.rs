//! The store behind the ingest service: what it holds, the statements that
//! change it, and what every sequence of statements preserves.
//!
//! The store itself lives in a database. Here it is modelled by its three
//! relations, so that the order in which the service issues statements can
//! be reasoned about.

use vstd::prelude::*;
use crate::fingerprint::PathAndHash;

verus! {

/// One statement the ingest service asks the database to execute.
#[derive(Debug, PartialEq, Eq)]
pub enum Statement {
    /// Insert a row into `files`. Fails when the key is already there.
    InsertFile { path_and_hash: PathAndHash, data: Vec<u8> },
    /// Insert a row into `revision_files`. Fails when the pair is already
    /// there.
    InsertRevisionFile { revision_id: String, path_and_hash: PathAndHash },
    /// Point `latest_revision` at a revision, whether or not it pointed
    /// anywhere before.
    SetLatest { revision_id: String },
    /// Announce on the change channel that a revision was published.
    Notify,
}

/// What a [`Statement`] stands for.
pub enum StatementView {
    InsertFile { path_and_hash: Seq<char>, data: Seq<u8> },
    InsertRevisionFile { revision_id: Seq<char>, path_and_hash: Seq<char> },
    SetLatest { revision_id: Seq<char> },
    Notify,
}

impl View for Statement {
    type V = StatementView;

    open spec fn view(&self) -> StatementView {
        match self {
            Statement::InsertFile { path_and_hash, data } => StatementView::InsertFile {
                path_and_hash: path_and_hash@,
                data: data@,
            },
            Statement::InsertRevisionFile {
                revision_id,
                path_and_hash,
            } => StatementView::InsertRevisionFile {
                revision_id: revision_id@,
                path_and_hash: path_and_hash@,
            },
            Statement::SetLatest { revision_id } => StatementView::SetLatest {
                revision_id: revision_id@,
            },
            Statement::Notify => StatementView::Notify,
        }
    }
}

/// How the execution of a statement ended.
#[derive(Clone, Copy, Debug, PartialEq, Eq, Structural)]
pub enum Outcome {
    /// The statement was executed.
    Done,
    /// The statement was refused: the key it inserts is already there.
    KeyViolation,
    /// The statement could not be executed.
    Failed,
}

impl StatementView {
    /// Whether the service goes on to the next statement after this one
    /// ended in `outcome`. It does when the statement was executed, and
    /// when a file was not inserted because one is stored under its key
    /// already.
    pub open spec fn passes(self, outcome: Outcome) -> bool {
        outcome is Done || (outcome is KeyViolation && self is InsertFile)
    }
}

impl Statement {
    /// Whether the service goes on to the next statement after this one
    /// ended in `outcome`. Where it does not, the request has failed.
    pub fn passes(&self, outcome: Outcome) -> (ok: bool)
        ensures
            ok == self@.passes(outcome),
    {
        match outcome {
            Outcome::Done => true,
            Outcome::KeyViolation => match self {
                Statement::InsertFile { .. } => true,
                _ => false,
            },
            Outcome::Failed => false,
        }
    }
}

/// What a list of statements stands for, in order.
pub open spec fn statement_views(statements: Seq<Statement>) -> Seq<StatementView> {
    statements.map_values(|statement: Statement| statement@)
}

/// The contents of the store.
pub struct Store {
    /// `files`: the bytes stored under each fingerprint.
    pub files: Map<Seq<char>, Seq<u8>>,
    /// `revision_files`: the pairs of a revision and one of its fingerprints.
    pub revision_files: Set<(Seq<char>, Seq<char>)>,
    /// `latest_revision`: the revision last published, if any.
    pub latest: Option<Seq<char>>,
}

impl Store {
    /// Whether the store executes `statement` without a key violation.
    pub open spec fn accepts(self, statement: StatementView) -> bool {
        match statement {
            StatementView::InsertFile { path_and_hash, data } => !self.files.contains_key(
                path_and_hash,
            ),
            StatementView::InsertRevisionFile {
                revision_id,
                path_and_hash,
            } => !self.revision_files.contains((revision_id, path_and_hash)),
            StatementView::SetLatest { revision_id } => true,
            StatementView::Notify => true,
        }
    }

    /// The store after `statement`. A statement that is not accepted leaves
    /// the store as it was.
    pub open spec fn apply(self, statement: StatementView) -> Store {
        if !self.accepts(statement) {
            self
        } else {
            match statement {
                StatementView::InsertFile { path_and_hash, data } => Store {
                    files: self.files.insert(path_and_hash, data),
                    ..self
                },
                StatementView::InsertRevisionFile { revision_id, path_and_hash } => Store {
                    revision_files: self.revision_files.insert((revision_id, path_and_hash)),
                    ..self
                },
                StatementView::SetLatest { revision_id } => Store {
                    latest: Some(revision_id),
                    ..self
                },
                StatementView::Notify => self,
            }
        }
    }

    /// How the store ends `statement`. The store of the model is always
    /// there, so it never fails otherwise than by a key violation.
    pub open spec fn outcome(self, statement: StatementView) -> Outcome {
        if self.accepts(statement) {
            Outcome::Done
        } else {
            Outcome::KeyViolation
        }
    }

    /// Whether the service goes on after `statement`.
    pub open spec fn goes_on(self, statement: StatementView) -> bool {
        statement.passes(self.outcome(statement))
    }

    /// Whether the service gets through all of `statements`, run in order.
    pub open spec fn completes(self, statements: Seq<StatementView>) -> bool
        decreases statements.len(),
    {
        if statements.len() == 0 {
            true
        } else {
            self.goes_on(statements.first()) && self.apply(statements.first()).completes(
                statements.drop_first(),
            )
        }
    }

    /// Whether the store accepts every one of `statements`, run in order.
    pub open spec fn accepts_all(self, statements: Seq<StatementView>) -> bool
        decreases statements.len(),
    {
        if statements.len() == 0 {
            true
        } else {
            self.accepts(statements.first()) && self.apply(statements.first()).accepts_all(
                statements.drop_first(),
            )
        }
    }

    /// The store after `statements`, run in order up to the first one
    /// after which the service does not go on.
    pub open spec fn run(self, statements: Seq<StatementView>) -> Store
        decreases statements.len(),
    {
        if statements.len() == 0 || !self.goes_on(statements.first()) {
            self
        } else {
            self.apply(statements.first()).run(statements.drop_first())
        }
    }

    /// The keys among `keys` that the store holds a file for.
    pub open spec fn present(self, keys: Seq<Seq<char>>) -> Set<Seq<char>> {
        Set::new(|key: Seq<char>| keys.contains(key) && self.files.contains_key(key))
    }

    /// Whether the store holds a file for every one of `keys`.
    pub open spec fn holds_all(self, keys: Seq<Seq<char>>) -> bool {
        forall|i: int| 0 <= i < keys.len() ==> self.files.contains_key(#[trigger] keys[i])
    }

    /// The fingerprints listed for a revision.
    pub open spec fn manifest(self, revision_id: Seq<char>) -> Set<Seq<char>> {
        Set::new(|key: Seq<char>| self.revision_files.contains((revision_id, key)))
    }

    /// Whether a revision has no row yet.
    pub open spec fn is_unused(self, revision_id: Seq<char>) -> bool {
        forall|key: Seq<char>| !self.revision_files.contains((revision_id, key))
    }

    /// Whether every fingerprint of the latest revision has its file in the
    /// store: a reader who follows the pointer finds every file it lists.
    pub open spec fn publication_complete(self) -> bool {
        self.latest matches Some(revision_id) ==> forall|key: Seq<char>|
            self.revision_files.contains((revision_id, key)) ==> self.files.contains_key(key)
    }
}

/// No statement removes or rewrites a stored file.
pub proof fn lemma_apply_keeps_files(store: Store, statement: StatementView, key: Seq<char>)
    requires
        store.files.contains_key(key),
    ensures
        store.apply(statement).files.contains_key(key),
        store.apply(statement).files[key] == store.files[key],
{
}

/// No sequence of statements removes or rewrites a stored file.
pub proof fn lemma_run_keeps_files(store: Store, statements: Seq<StatementView>, key: Seq<char>)
    requires
        store.files.contains_key(key),
    ensures
        store.run(statements).files.contains_key(key),
        store.run(statements).files[key] == store.files[key],
    decreases statements.len(),
{
    if statements.len() > 0 && store.goes_on(statements.first()) {
        lemma_apply_keeps_files(store, statements.first(), key);
        lemma_run_keeps_files(store.apply(statements.first()), statements.drop_first(), key);
    }
}

/// The first upload wins: once a file is stored under a key, a second
/// insertion under that key is refused and changes nothing, the service
/// goes on all the same, and whatever statements follow, the key still
/// gives the bytes stored first.
pub proof fn lemma_first_upload_wins(
    store: Store,
    key: Seq<char>,
    first: Seq<u8>,
    second: Seq<u8>,
    later: Seq<StatementView>,
)
    requires
        !store.files.contains_key(key),
    ensures
        ({
            let stored = store.apply(StatementView::InsertFile { path_and_hash: key, data: first });
            let again = StatementView::InsertFile { path_and_hash: key, data: second };
            &&& stored.files.contains_key(key)
            &&& stored.files[key] == first
            &&& stored.outcome(again) == Outcome::KeyViolation
            &&& stored.goes_on(again)
            &&& stored.apply(again) == stored
            &&& stored.run(later).files.contains_key(key)
            &&& stored.run(later).files[key] == first
        }),
{
    let stored = store.apply(StatementView::InsertFile { path_and_hash: key, data: first });
    lemma_run_keeps_files(stored, later, key);
}

/// A store that accepts all of a sequence of statements gets through it.
pub proof fn lemma_accepted_completes(store: Store, statements: Seq<StatementView>)
    requires
        store.accepts_all(statements),
    ensures
        store.completes(statements),
    decreases statements.len(),
{
    if statements.len() > 0 {
        lemma_accepted_completes(store.apply(statements.first()), statements.drop_first());
    }
}

/// Running a sequence of statements and then one more is running the
/// longer sequence, as long as the service got through the first ones.
pub proof fn lemma_run_push(store: Store, statements: Seq<StatementView>, next: StatementView)
    requires
        store.completes(statements),
    ensures
        store.run(statements.push(next)) == store.run(statements).apply(next),
        store.completes(statements.push(next)) == store.run(statements).goes_on(next),
        store.accepts_all(statements) ==> store.accepts_all(statements.push(next))
            == store.run(statements).accepts(next),
    decreases statements.len(),
{
    if statements.len() == 0 {
        assert(statements.push(next).first() == next);
        assert(statements.push(next).drop_first() =~= Seq::empty());
        assert(store.apply(next).run(Seq::empty()) == store.apply(next));
        assert(store.apply(next).accepts_all(Seq::empty()));
        assert(store.apply(next).completes(Seq::empty()));
    } else {
        assert(statements.push(next).first() == statements.first());
        assert(statements.push(next).drop_first() =~= statements.drop_first().push(next));
        lemma_run_push(store.apply(statements.first()), statements.drop_first(), next);
    }
}

} // verus!
