//! The blue/green supervisor as a state machine.
//!
//! The supervisor itself touches the file system, the store and child
//! processes. What it decides is here: given what just happened, what the
//! supervisor's state becomes and what is to be done next.

use vstd::prelude::*;
use vstd::string::*;
use crate::fingerprint::{
    all_well_formed, are_well_formed, path_part, texts, well_formed, PathAndHash,
};
use crate::slot::Deploy;

verus! {

/// Where the supervisor is in an activation cycle.
#[derive(Debug)]
pub enum Phase {
    /// Between cycles.
    Idle,
    /// The target slot's directory is being wiped and recreated.
    Preparing,
    /// The latest revision is being read.
    ReadingLatest,
    /// The revision's manifest is being listed.
    Listing,
    /// The file at `index` is being read from the store.
    Fetching { files: Vec<PathAndHash>, index: usize },
    /// The file at `index` is being written to the target slot.
    Writing { files: Vec<PathAndHash>, index: usize },
    /// The child is being started in the target slot.
    Spawning,
    /// Child `pid` runs in the target slot; the target slot is being made
    /// the active one.
    Activating { pid: u32 },
    /// The target slot is active; the child of the other slot is being
    /// told to terminate.
    Retiring,
}

/// What a [`Phase`] stands for.
pub enum PhaseView {
    Idle,
    Preparing,
    ReadingLatest,
    Listing,
    Fetching { files: Seq<Seq<char>>, index: int },
    Writing { files: Seq<Seq<char>>, index: int },
    Spawning,
    Activating { pid: u32 },
    Retiring,
}

impl View for Phase {
    type V = PhaseView;

    open spec fn view(&self) -> PhaseView {
        match self {
            Phase::Idle => PhaseView::Idle,
            Phase::Preparing => PhaseView::Preparing,
            Phase::ReadingLatest => PhaseView::ReadingLatest,
            Phase::Listing => PhaseView::Listing,
            Phase::Fetching { files, index } => PhaseView::Fetching {
                files: texts(files@),
                index: *index as int,
            },
            Phase::Writing { files, index } => PhaseView::Writing {
                files: texts(files@),
                index: *index as int,
            },
            Phase::Spawning => PhaseView::Spawning,
            Phase::Activating { pid } => PhaseView::Activating { pid: *pid },
            Phase::Retiring => PhaseView::Retiring,
        }
    }
}

/// What happened: the outcome of the action the supervisor asked for last,
/// or a wakeup.
#[derive(Debug, PartialEq, Eq)]
pub enum Event {
    /// A revision may have been published.
    Wakeup,
    /// The slot's directory exists and is empty.
    DirectoryReady,
    /// The latest revision is `revision_id`.
    Latest { revision_id: String },
    /// The revision lists `files`.
    Manifest { files: Vec<PathAndHash> },
    /// The store holds `data` under the fingerprint asked for.
    Blob { data: Vec<u8> },
    /// The file was written.
    Written,
    /// The child runs, as process `pid`.
    Spawned { pid: u32 },
    /// New connections now go to the slot.
    Activated,
    /// The signal was sent, or the process was gone already.
    Terminated,
    /// The action could not be carried out.
    Failed,
}

/// What an [`Event`] stands for.
pub enum EventView {
    Wakeup,
    DirectoryReady,
    Latest { revision_id: Seq<char> },
    Manifest { files: Seq<Seq<char>> },
    Blob { data: Seq<u8> },
    Written,
    Spawned { pid: u32 },
    Activated,
    Terminated,
    Failed,
}

impl View for Event {
    type V = EventView;

    open spec fn view(&self) -> EventView {
        match self {
            Event::Wakeup => EventView::Wakeup,
            Event::DirectoryReady => EventView::DirectoryReady,
            Event::Latest { revision_id } => EventView::Latest { revision_id: revision_id@ },
            Event::Manifest { files } => EventView::Manifest { files: texts(files@) },
            Event::Blob { data } => EventView::Blob { data: data@ },
            Event::Written => EventView::Written,
            Event::Spawned { pid } => EventView::Spawned { pid: *pid },
            Event::Activated => EventView::Activated,
            Event::Terminated => EventView::Terminated,
            Event::Failed => EventView::Failed,
        }
    }
}

/// What is to be done next. Every action but `Wait` is answered by one
/// event.
#[derive(Debug, PartialEq, Eq)]
pub enum Action {
    /// Nothing, until the next wakeup.
    Wait,
    /// Delete the slot's directory with all it holds, if it exists, and
    /// create it anew.
    ResetDirectory { slot: Deploy },
    /// Read the latest revision's identifier.
    ReadLatest,
    /// List the fingerprints of the revision.
    ListManifest { revision_id: String },
    /// Read the file stored under the fingerprint.
    FetchBlob { path_and_hash: PathAndHash },
    /// Write `data` to `path` below the slot's directory, creating the
    /// directories on the way.
    WriteFile { slot: Deploy, path: String, data: Vec<u8> },
    /// Start the child in the slot's directory, listening on `port`.
    Spawn { slot: Deploy, port: u16 },
    /// Send new connections to the slot from now on.
    Activate { slot: Deploy },
    /// Tell process `pid` to terminate.
    Terminate { pid: u32 },
}

/// What an [`Action`] stands for.
pub enum ActionView {
    Wait,
    ResetDirectory { slot: Deploy },
    ReadLatest,
    ListManifest { revision_id: Seq<char> },
    FetchBlob { path_and_hash: Seq<char> },
    WriteFile { slot: Deploy, path: Seq<char>, data: Seq<u8> },
    Spawn { slot: Deploy, port: u16 },
    Activate { slot: Deploy },
    Terminate { pid: u32 },
}

impl View for Action {
    type V = ActionView;

    open spec fn view(&self) -> ActionView {
        match self {
            Action::Wait => ActionView::Wait,
            Action::ResetDirectory { slot } => ActionView::ResetDirectory { slot: *slot },
            Action::ReadLatest => ActionView::ReadLatest,
            Action::ListManifest { revision_id } => ActionView::ListManifest {
                revision_id: revision_id@,
            },
            Action::FetchBlob { path_and_hash } => ActionView::FetchBlob {
                path_and_hash: path_and_hash@,
            },
            Action::WriteFile { slot, path, data } => ActionView::WriteFile {
                slot: *slot,
                path: path@,
                data: data@,
            },
            Action::Spawn { slot, port } => ActionView::Spawn { slot: *slot, port: *port },
            Action::Activate { slot } => ActionView::Activate { slot: *slot },
            Action::Terminate { pid } => ActionView::Terminate { pid: *pid },
        }
    }
}

/// What a [`Supervisor`] stands for.
pub struct SupervisorView {
    /// The slot that new connections go to.
    pub active: Deploy,
    /// The child that runs in the active slot, if one was started.
    pub previous_child_pid: Option<u32>,
    /// Where the supervisor is in its cycle.
    pub phase: PhaseView,
}

impl SupervisorView {
    /// The state a supervisor starts in: blue is active, no child runs.
    pub open spec fn initial() -> SupervisorView {
        SupervisorView { active: Deploy::Blue, previous_child_pid: None, phase: PhaseView::Idle }
    }

    /// The slot that the current cycle fills: the one that is not active.
    pub open spec fn target(self) -> Deploy {
        self.active.spec_other()
    }

    /// Whether the phase holds a valid position in a list of well-formed
    /// fingerprints, where it holds one.
    pub open spec fn well_formed(self) -> bool {
        match self.phase {
            PhaseView::Fetching { files, index } => 0 <= index < files.len() && all_well_formed(
                files,
            ),
            PhaseView::Writing { files, index } => 0 <= index < files.len() && all_well_formed(
                files,
            ),
            _ => true,
        }
    }

    /// The state with its phase replaced.
    pub open spec fn at(self, phase: PhaseView) -> SupervisorView {
        SupervisorView { phase, ..self }
    }

    /// The cycle is given up: the supervisor is idle again, the active
    /// slot and its child are as they were.
    pub open spec fn abandoned(self) -> (SupervisorView, ActionView) {
        (self.at(PhaseView::Idle), ActionView::Wait)
    }

    /// The start of the target slot's child.
    pub open spec fn spawning(self) -> (SupervisorView, ActionView) {
        (
            self.at(PhaseView::Spawning),
            ActionView::Spawn { slot: self.target(), port: self.target().spec_listen_port() },
        )
    }

    /// The state after `event` and the action to take, or `None` where the
    /// phase does not wait for `event`.
    pub open spec fn next(self, event: EventView) -> Option<(SupervisorView, ActionView)> {
        match (self.phase, event) {
            (PhaseView::Idle, EventView::Wakeup) => Some(
                (
                    self.at(PhaseView::Preparing),
                    ActionView::ResetDirectory { slot: self.target() },
                ),
            ),
            (PhaseView::Preparing, EventView::DirectoryReady) => Some(
                (self.at(PhaseView::ReadingLatest), ActionView::ReadLatest),
            ),
            (PhaseView::ReadingLatest, EventView::Latest { revision_id }) => Some(
                (self.at(PhaseView::Listing), ActionView::ListManifest { revision_id }),
            ),
            (PhaseView::Listing, EventView::Manifest { files }) => if !all_well_formed(files) {
                Some(self.abandoned())
            } else if files.len() == 0 {
                Some(self.spawning())
            } else {
                Some(
                    (
                        self.at(PhaseView::Fetching { files, index: 0 }),
                        ActionView::FetchBlob { path_and_hash: files[0] },
                    ),
                )
            },
            (PhaseView::Fetching { files, index }, EventView::Blob { data }) => Some(
                (
                    self.at(PhaseView::Writing { files, index }),
                    ActionView::WriteFile {
                        slot: self.target(),
                        path: path_part(files[index]),
                        data,
                    },
                ),
            ),
            (PhaseView::Writing { files, index }, EventView::Written) => if index + 1
                < files.len() {
                Some(
                    (
                        self.at(PhaseView::Fetching { files, index: index + 1 }),
                        ActionView::FetchBlob { path_and_hash: files[index + 1] },
                    ),
                )
            } else {
                Some(self.spawning())
            },
            (PhaseView::Spawning, EventView::Spawned { pid }) => Some(
                (
                    self.at(PhaseView::Activating { pid }),
                    ActionView::Activate { slot: self.target() },
                ),
            ),
            (PhaseView::Activating { pid }, EventView::Activated) => match self.previous_child_pid {
                Some(old) => Some(
                    (
                        SupervisorView {
                            active: self.target(),
                            previous_child_pid: Some(pid),
                            phase: PhaseView::Retiring,
                        },
                        ActionView::Terminate { pid: old },
                    ),
                ),
                None => Some(
                    (
                        SupervisorView {
                            active: self.target(),
                            previous_child_pid: Some(pid),
                            phase: PhaseView::Idle,
                        },
                        ActionView::Wait,
                    ),
                ),
            },
            (PhaseView::Retiring, EventView::Terminated) => Some(
                (self.at(PhaseView::Idle), ActionView::Wait),
            ),
            (PhaseView::Preparing, EventView::Failed) => Some(self.abandoned()),
            (PhaseView::ReadingLatest, EventView::Failed) => Some(self.abandoned()),
            (PhaseView::Listing, EventView::Failed) => Some(self.abandoned()),
            (PhaseView::Fetching { .. }, EventView::Failed) => Some(self.abandoned()),
            (PhaseView::Writing { .. }, EventView::Failed) => Some(self.abandoned()),
            (PhaseView::Spawning, EventView::Failed) => Some(self.abandoned()),
            _ => None,
        }
    }
}

impl SupervisorView {
    /// The state after `event`. An event that the phase does not wait for
    /// changes nothing.
    pub open spec fn after_one(self, event: EventView) -> SupervisorView {
        match self.next(event) {
            Some(next) => next.0,
            None => self,
        }
    }

    /// The state after a sequence of events.
    pub open spec fn after(self, events: Seq<EventView>) -> SupervisorView
        decreases events.len(),
    {
        if events.len() == 0 {
            self
        } else {
            self.after(events.drop_last()).after_one(events.last())
        }
    }

    /// How often the active slot changes over a sequence of events.
    pub open spec fn switches(self, events: Seq<EventView>) -> nat
        decreases events.len(),
    {
        if events.len() == 0 {
            0
        } else {
            let before = self.after(events.drop_last());
            let switched: nat = if before.after_one(events.last()).active != before.active {
                1
            } else {
                0
            };
            self.switches(events.drop_last()) + switched
        }
    }

    /// Whether `events` make up one activation cycle: they take an idle
    /// supervisor out of idleness, and it is idle again after the last of
    /// them and not before.
    pub open spec fn is_cycle(self, events: Seq<EventView>) -> bool {
        &&& self.phase is Idle
        &&& events.len() >= 2
        &&& forall|k: int|
            0 < k < events.len() ==> !(#[trigger] self.after(events.take(k)).phase is Idle)
        &&& self.after(events).phase is Idle
    }

    /// The children started and not yet told to terminate, after `event`,
    /// when they were `children` before it.
    pub open spec fn children_after_one(self, children: Set<u32>, event: EventView) -> Set<u32> {
        match self.next(event) {
            None => children,
            Some(next) => {
                let started = match event {
                    EventView::Spawned { pid } => children.insert(pid),
                    _ => children,
                };
                match next.1 {
                    ActionView::Terminate { pid } => started.remove(pid),
                    _ => started,
                }
            },
        }
    }

    /// The children started and not yet told to terminate, after a
    /// sequence of events, when there was none before it.
    pub open spec fn children_after(self, events: Seq<EventView>) -> Set<u32>
        decreases events.len(),
    {
        if events.len() == 0 {
            Set::empty()
        } else {
            self.after(events.drop_last()).children_after_one(
                self.children_after(events.drop_last()),
                events.last(),
            )
        }
    }

    /// Whether every child that `events` report as started, at a moment
    /// when the supervisor waits for one, has a process identifier that
    /// no child started earlier and not yet told to terminate has.
    pub open spec fn pids_are_fresh(self, events: Seq<EventView>) -> bool {
        forall|k: int|
            0 <= k < events.len() ==> (#[trigger] events[k] matches EventView::Spawned { pid }
                ==> self.after(events.take(k)).phase is Spawning ==> !self.children_after(
                events.take(k),
            ).contains(pid))
    }

    /// The child recorded for the active slot, as a set.
    pub open spec fn recorded(self) -> Set<u32> {
        match self.previous_child_pid {
            Some(pid) => set![pid],
            None => Set::empty(),
        }
    }

    /// How far a phase is into the cycle.
    pub open spec fn stage(self) -> int {
        match self.phase {
            PhaseView::Idle => 0,
            PhaseView::Preparing => 1,
            PhaseView::ReadingLatest => 2,
            PhaseView::Listing => 3,
            PhaseView::Fetching { .. } => 4,
            PhaseView::Writing { .. } => 4,
            PhaseView::Spawning => 5,
            PhaseView::Activating { .. } => 6,
            PhaseView::Retiring => 7,
        }
    }
}

/// Everything a cycle does to a slot, it does to the slot that is not
/// active, and the child is started on that slot's own port.
pub proof fn lemma_actions_aim_at_target(state: SupervisorView, event: EventView)
    ensures
        state.next(event) matches Some(next) ==> match next.1 {
            ActionView::ResetDirectory { slot } => slot == state.target(),
            ActionView::WriteFile { slot, .. } => slot == state.target(),
            ActionView::Spawn { slot, port } => slot == state.target() && port
                == slot.spec_listen_port(),
            ActionView::Activate { slot } => slot == state.target(),
            _ => true,
        },
{
}

/// The active slot changes at one step only: when the activation of the
/// target slot is confirmed. It then becomes the target slot.
pub proof fn lemma_switch_point(state: SupervisorView, event: EventView)
    ensures
        state.after_one(event).active != state.active <==> state.phase is Activating
            && event is Activated,
        state.after_one(event).active != state.active ==> state.after_one(event).active
            == state.target(),
{
}

/// The state after a beginning of a sequence of events, extended by the
/// event that follows it.
pub proof fn lemma_after_take(state: SupervisorView, events: Seq<EventView>, k: int)
    requires
        0 <= k < events.len(),
    ensures
        state.after(events.take(k + 1)) == state.after(events.take(k)).after_one(events[k]),
        state.switches(events.take(k + 1)) == state.switches(events.take(k)) + (if state.after(
            events.take(k + 1),
        ).active != state.after(events.take(k)).active {
            1nat
        } else {
            0nat
        }),
        state.children_after(events.take(k + 1)) == state.after(
            events.take(k),
        ).children_after_one(state.children_after(events.take(k)), events[k]),
{
    assert(events.take(k + 1).drop_last() =~= events.take(k));
    assert(events.take(k + 1).last() == events[k]);
}

/// Where a cycle stands after its first `k` events: either the active
/// slot has not changed yet, or it changed once, to the other slot, and
/// all that is left is to retire the old child.
proof fn lemma_cycle_progress(start: SupervisorView, events: Seq<EventView>, k: int)
    requires
        start.is_cycle(events),
        0 < k < events.len(),
    ensures
        ({
            let now = start.after(events.take(k));
            let count = start.switches(events.take(k));
            ||| count == 0 && 1 <= now.stage() <= 6 && now.active == start.active
            ||| count == 1 && now.stage() == 7 && now.active == start.active.spec_other()
        }),
    decreases k,
{
    if k == 1 {
        assert(events.take(0) =~= Seq::empty());
        lemma_after_take(start, events, 0);
    } else {
        lemma_cycle_progress(start, events, k - 1);
        lemma_after_take(start, events, k - 1);
    }
}

/// Switch monotonicity: over one activation cycle the active slot changes
/// at most once. It changes exactly once, to the other slot, when the
/// cycle is carried through, and not at all when the cycle is given up.
pub proof fn lemma_cycle_switches_once(start: SupervisorView, events: Seq<EventView>)
    requires
        start.is_cycle(events),
    ensures
        ({
            let end = start.after(events);
            let count = start.switches(events);
            ||| count == 0 && end.active == start.active && end.previous_child_pid
                == start.previous_child_pid
            ||| count == 1 && end.active == start.active.spec_other()
                && end.previous_child_pid is Some
        }),
{
    let k = events.len() - 1;
    lemma_cycle_progress(start, events, k);
    lemma_after_take(start, events, k);
    assert(events.take(k + 1) =~= events);
    lemma_cycle_pid(start, events, k);
}

/// While a cycle has not changed the active slot, it has not changed the
/// recorded child either; once it has, a child is recorded.
proof fn lemma_cycle_pid(start: SupervisorView, events: Seq<EventView>, k: int)
    requires
        start.is_cycle(events),
        0 <= k < events.len(),
    ensures
        ({
            let now = start.after(events.take(k));
            if now.stage() == 7 {
                now.previous_child_pid is Some
            } else {
                now.previous_child_pid == start.previous_child_pid
            }
        }),
    decreases k,
{
    if k == 0 {
        assert(events.take(0) =~= Seq::empty());
    } else {
        lemma_cycle_pid(start, events, k - 1);
        lemma_after_take(start, events, k - 1);
        if k - 1 > 0 {
            lemma_cycle_progress(start, events, k - 1);
        }
    }
}

/// Once a child is recorded, one stays recorded.
pub proof fn lemma_recorded_child_stays(state: SupervisorView, events: Seq<EventView>)
    requires
        state.previous_child_pid is Some,
    ensures
        state.after(events).previous_child_pid is Some,
    decreases events.len(),
{
    if events.len() > 0 {
        lemma_recorded_child_stays(state, events.drop_last());
    }
}

/// Single active child: whatever happens to a supervisor from its start,
/// the children it has started and not told to terminate are the one
/// recorded for the active slot, and, between the start of a new child
/// and the switch to it, that new child. It takes that the system gives a
/// new child an identifier that no such child has.
pub proof fn lemma_one_child_is_live(events: Seq<EventView>)
    requires
        SupervisorView::initial().pids_are_fresh(events),
    ensures
        ({
            let now = SupervisorView::initial().after(events);
            let children = SupervisorView::initial().children_after(events);
            match now.phase {
                PhaseView::Activating { pid } => children == now.recorded().insert(pid)
                    && !now.recorded().contains(pid),
                _ => children == now.recorded(),
            }
        }),
    decreases events.len(),
{
    let start = SupervisorView::initial();
    if events.len() > 0 {
        let k = events.len() - 1;
        let earlier = events.drop_last();
        assert(earlier =~= events.take(k));
        assert forall|j: int| 0 <= j < earlier.len() implies (#[trigger] earlier[j] matches EventView::Spawned {
            pid,
        } ==> start.after(earlier.take(j)).phase is Spawning ==> !start.children_after(
            earlier.take(j),
        ).contains(pid)) by {
            assert(earlier.take(j) =~= events.take(j));
            assert(earlier[j] == events[j]);
        }
        lemma_one_child_is_live(earlier);
        let before = start.after(earlier);
        let children = start.children_after(earlier);
        let after = before.after_one(events.last());
        let left = before.children_after_one(children, events.last());
        assert(events[k] == events.last());
        match after.phase {
            PhaseView::Activating { pid } => {
                assert(left =~= after.recorded().insert(pid));
            },
            _ => {
                assert(left =~= after.recorded());
            },
        }
    }
}

/// The supervisor's state: the active slot, the child that runs in it, and
/// the progress of the current cycle.
#[derive(Debug)]
pub struct Supervisor {
    active: Deploy,
    previous_child_pid: Option<u32>,
    phase: Phase,
}

impl View for Supervisor {
    type V = SupervisorView;

    closed spec fn view(&self) -> SupervisorView {
        SupervisorView {
            active: self.active,
            previous_child_pid: self.previous_child_pid,
            phase: self.phase@,
        }
    }
}

impl Supervisor {
    #[verifier::type_invariant]
    spec fn valid(self) -> bool {
        self@.well_formed()
    }

    /// A supervisor in its initial state.
    pub fn new() -> (supervisor: Supervisor)
        ensures
            supervisor@ == SupervisorView::initial(),
    {
        Supervisor { active: Deploy::Blue, previous_child_pid: None, phase: Phase::Idle }
    }

    /// The slot that new connections go to.
    pub fn active(&self) -> (slot: Deploy)
        ensures
            slot == self@.active,
    {
        self.active
    }

    /// The child that runs in the active slot, if one was started.
    pub fn previous_child_pid(&self) -> (pid: Option<u32>)
        ensures
            pid == self@.previous_child_pid,
    {
        self.previous_child_pid
    }

    /// Whether the supervisor is between cycles.
    pub fn is_idle(&self) -> (idle: bool)
        ensures
            idle == (self@.phase is Idle),
    {
        match self.phase {
            Phase::Idle => true,
            _ => false,
        }
    }

    /// Takes in `event`: gives the state after it and the action to take
    /// next, or the state unchanged and no action where the phase does not
    /// wait for `event`.
    pub fn step(self, event: Event) -> (out: (Supervisor, Option<Action>))
        ensures
            self@.well_formed(),
            out.0@.well_formed(),
            self@.next(event@) matches Some(next) ==> out.0@ == next.0 && (out.1 matches Some(
                action,
            ) && action@ == next.1),
            self@.next(event@) is None ==> out.0@ == self@ && out.1 is None,
    {
        proof {
            use_type_invariant(&self);
        }
        let ghost before = self@;
        let Supervisor { active, previous_child_pid, phase } = self;
        let target = active.other();
        match (phase, event) {
            (Phase::Idle, Event::Wakeup) => (
                Supervisor { active, previous_child_pid, phase: Phase::Preparing },
                Some(Action::ResetDirectory { slot: target }),
            ),
            (Phase::Preparing, Event::DirectoryReady) => (
                Supervisor { active, previous_child_pid, phase: Phase::ReadingLatest },
                Some(Action::ReadLatest),
            ),
            (Phase::ReadingLatest, Event::Latest { revision_id }) => (
                Supervisor { active, previous_child_pid, phase: Phase::Listing },
                Some(Action::ListManifest { revision_id }),
            ),
            (Phase::Listing, Event::Manifest { files }) => {
                if !are_well_formed(&files) {
                    (
                        Supervisor { active, previous_child_pid, phase: Phase::Idle },
                        Some(Action::Wait),
                    )
                } else if files.len() == 0 {
                    (
                        Supervisor { active, previous_child_pid, phase: Phase::Spawning },
                        Some(Action::Spawn { slot: target, port: target.listen_port() }),
                    )
                } else {
                    let first = files[0].clone();
                    (
                        Supervisor {
                            active,
                            previous_child_pid,
                            phase: Phase::Fetching { files, index: 0 },
                        },
                        Some(Action::FetchBlob { path_and_hash: first }),
                    )
                }
            },
            (Phase::Fetching { files, index }, Event::Blob { data }) => {
                assert(well_formed(texts(files@)[index as int]));
                let path = String::from_str(files[index].path());
                (
                    Supervisor {
                        active,
                        previous_child_pid,
                        phase: Phase::Writing { files, index },
                    },
                    Some(Action::WriteFile { slot: target, path, data }),
                )
            },
            (Phase::Writing { files, index }, Event::Written) => {
                assert(before.phase == PhaseView::Writing {
                    files: texts(files@),
                    index: index as int,
                });
                assert(index < files.len());
                if index + 1 < files.len() {
                    let following = files[index + 1].clone();
                    (
                        Supervisor {
                            active,
                            previous_child_pid,
                            phase: Phase::Fetching { files, index: index + 1 },
                        },
                        Some(Action::FetchBlob { path_and_hash: following }),
                    )
                } else {
                    (
                        Supervisor { active, previous_child_pid, phase: Phase::Spawning },
                        Some(Action::Spawn { slot: target, port: target.listen_port() }),
                    )
                }
            },
            (Phase::Spawning, Event::Spawned { pid }) => (
                Supervisor { active, previous_child_pid, phase: Phase::Activating { pid } },
                Some(Action::Activate { slot: target }),
            ),
            (Phase::Activating { pid }, Event::Activated) => match previous_child_pid {
                Some(old) => (
                    Supervisor {
                        active: target,
                        previous_child_pid: Some(pid),
                        phase: Phase::Retiring,
                    },
                    Some(Action::Terminate { pid: old }),
                ),
                None => (
                    Supervisor {
                        active: target,
                        previous_child_pid: Some(pid),
                        phase: Phase::Idle,
                    },
                    Some(Action::Wait),
                ),
            },
            (Phase::Retiring, Event::Terminated) => (
                Supervisor { active, previous_child_pid, phase: Phase::Idle },
                Some(Action::Wait),
            ),
            (Phase::Preparing, Event::Failed)
            | (Phase::ReadingLatest, Event::Failed)
            | (Phase::Listing, Event::Failed)
            | (Phase::Fetching { .. }, Event::Failed)
            | (Phase::Writing { .. }, Event::Failed)
            | (Phase::Spawning, Event::Failed) => (
                Supervisor { active, previous_child_pid, phase: Phase::Idle },
                Some(Action::Wait),
            ),
            (phase, _) => (Supervisor { active, previous_child_pid, phase }, None),
        }
    }
}

} // verus!
