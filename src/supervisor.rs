//! The lifecycle of the analysis worker: which input device it runs on, and the
//! stop-join-spawn sequence when that device changes.

use vstd::prelude::*;

verus! {

/// What the supervisor is told.
#[derive(Clone, Copy, Debug, PartialEq, Eq, Structural)]
pub enum SupervisorEvent {
    /// An input device was chosen.
    DeviceSelected,
    /// The periodic wake-up of the supervising loop.
    Heartbeat,
}

/// What the supervisor asks its loop to do, in order.
#[derive(Clone, Copy, Debug, PartialEq, Eq, Structural)]
pub enum SupervisorAction {
    /// Choose the first input device there is.
    SelectDefault,
    /// Send the stop command on the running worker's control channel.
    Stop,
    /// Wait until the running worker has ended.
    Join,
    /// Start a worker, with a fresh control channel, on the chosen device.
    Spawn,
}

/// Whether a worker is running.
#[derive(Clone, Copy, Debug, PartialEq, Eq, Structural)]
pub enum WorkerState {
    Stopped,
    Running,
}

/// The supervisor's state.
#[derive(Clone, Copy, Debug)]
pub struct Supervisor {
    pub worker: WorkerState,
    /// Whether a device has been chosen.
    pub has_device: bool,
    /// Whether the chosen device differs from the one the worker runs on.
    pub device_changed: bool,
}

/// The supervisor's state after `e`.
pub open spec fn next_state(s: Supervisor, e: SupervisorEvent) -> Supervisor {
    match e {
        SupervisorEvent::DeviceSelected => Supervisor {
            worker: s.worker,
            has_device: true,
            device_changed: true,
        },
        SupervisorEvent::Heartbeat => if !s.has_device {
            Supervisor { worker: s.worker, has_device: true, device_changed: true }
        } else if s.device_changed {
            Supervisor { worker: WorkerState::Running, has_device: true, device_changed: false }
        } else {
            s
        },
    }
}

/// The actions asked for on `e`.
pub open spec fn actions_for(s: Supervisor, e: SupervisorEvent) -> Seq<SupervisorAction> {
    match e {
        SupervisorEvent::DeviceSelected => Seq::empty(),
        SupervisorEvent::Heartbeat => if !s.has_device {
            seq![SupervisorAction::SelectDefault]
        } else if s.device_changed {
            if s.worker == WorkerState::Running {
                seq![SupervisorAction::Stop, SupervisorAction::Join, SupervisorAction::Spawn]
            } else {
                seq![SupervisorAction::Spawn]
            }
        } else {
            Seq::empty()
        },
    }
}

/// The state after each of `events` in turn.
pub open spec fn run_state(s: Supervisor, events: Seq<SupervisorEvent>) -> Supervisor
    decreases events.len(),
{
    if events.len() == 0 {
        s
    } else {
        run_state(next_state(s, events[0]), events.drop_first())
    }
}

/// All actions asked for over `events`, in order.
pub open spec fn run_actions(s: Supervisor, events: Seq<SupervisorEvent>) -> Seq<
    SupervisorAction,
>
    decreases events.len(),
{
    if events.len() == 0 {
        Seq::empty()
    } else {
        actions_for(s, events[0]) + run_actions(next_state(s, events[0]), events.drop_first())
    }
}

/// Workers alive after `x` is carried out with `n` alive before.
pub open spec fn alive_step(n: int, x: SupervisorAction) -> int {
    match x {
        SupervisorAction::Spawn => n + 1,
        SupervisorAction::Join => n - 1,
        _ => n,
    }
}

/// Whether the alive worker has been sent a stop after `x`.
pub open spec fn stopped_step(stopped: bool, x: SupervisorAction) -> bool {
    match x {
        SupervisorAction::Stop => true,
        SupervisorAction::Join => false,
        _ => stopped,
    }
}

/// Whether `x` may be carried out with `n` workers alive: a spawn finds none alive, a
/// stop finds one not yet stopped, a join finds one that was stopped.
pub open spec fn step_ok(n: int, stopped: bool, x: SupervisorAction) -> bool {
    match x {
        SupervisorAction::Spawn => n == 0,
        SupervisorAction::Join => n == 1 && stopped,
        SupervisorAction::Stop => n == 1 && !stopped,
        SupervisorAction::SelectDefault => true,
    }
}

/// Workers alive once `acts` are carried out with `n` alive before.
pub open spec fn alive_after(n: int, acts: Seq<SupervisorAction>) -> int
    decreases acts.len(),
{
    if acts.len() == 0 {
        n
    } else {
        alive_after(alive_step(n, acts[0]), acts.drop_first())
    }
}

/// Whether every action of `acts` may be carried out in turn, from `n` workers alive.
pub open spec fn one_at_a_time(n: int, stopped: bool, acts: Seq<SupervisorAction>) -> bool
    decreases acts.len(),
{
    if acts.len() == 0 {
        true
    } else {
        step_ok(n, stopped, acts[0]) && one_at_a_time(
            alive_step(n, acts[0]),
            stopped_step(stopped, acts[0]),
            acts.drop_first(),
        )
    }
}

/// Workers alive in state `s`.
pub open spec fn alive(s: Supervisor) -> int {
    if s.worker == WorkerState::Running {
        1
    } else {
        0
    }
}

proof fn lemma_cons(n: int, stopped: bool, x: SupervisorAction, b: Seq<SupervisorAction>)
    ensures
        one_at_a_time(n, stopped, seq![x] + b) == (step_ok(n, stopped, x) && one_at_a_time(
            alive_step(n, x),
            stopped_step(stopped, x),
            b,
        )),
        alive_after(n, seq![x] + b) == alive_after(alive_step(n, x), b),
{
    assert((seq![x] + b).drop_first() =~= b);
    assert((seq![x] + b)[0] == x);
}

impl Supervisor {
    /// A supervisor with no device chosen and no worker running.
    pub fn new() -> (r: Self)
        ensures
            r.worker == WorkerState::Stopped,
            !r.has_device,
            !r.device_changed,
    {
        Supervisor { worker: WorkerState::Stopped, has_device: false, device_changed: false }
    }

    /// Takes in `e`; returns the actions to carry out, in order.
    pub fn handle(&mut self, e: SupervisorEvent) -> (r: Vec<SupervisorAction>)
        ensures
            *final(self) == next_state(*old(self), e),
            r@ == actions_for(*old(self), e),
    {
        let mut acts: Vec<SupervisorAction> = Vec::new();
        match e {
            SupervisorEvent::DeviceSelected => {
                self.has_device = true;
                self.device_changed = true;
            },
            SupervisorEvent::Heartbeat => {
                if !self.has_device {
                    acts.push(SupervisorAction::SelectDefault);
                    self.has_device = true;
                    self.device_changed = true;
                } else if self.device_changed {
                    if self.worker == WorkerState::Running {
                        acts.push(SupervisorAction::Stop);
                        acts.push(SupervisorAction::Join);
                    }
                    acts.push(SupervisorAction::Spawn);
                    self.worker = WorkerState::Running;
                    self.device_changed = false;
                }
            },
        }
        proof {
            assert(acts@ =~= actions_for(*old(self), e));
        }
        acts
    }
}

/// Law of the supervisor: over any run of events, carrying out the actions in order
/// never has two workers alive; a new worker starts only once the old one was sent
/// one stop and joined; and the workers alive at the end are those the state records.
pub proof fn lemma_one_worker_at_a_time(s: Supervisor, events: Seq<SupervisorEvent>)
    ensures
        one_at_a_time(alive(s), false, run_actions(s, events)),
        alive_after(alive(s), run_actions(s, events)) == alive(run_state(s, events)),
    decreases events.len(),
{
    if events.len() > 0 {
        let e = events[0];
        let s2 = next_state(s, e);
        let a = actions_for(s, e);
        let rest = run_actions(s2, events.drop_first());
        lemma_one_worker_at_a_time(s2, events.drop_first());
        assert(run_actions(s, events) == a + rest);
        let n = alive(s);
        if a.len() == 0 {
            assert(a + rest =~= rest);
        } else if a =~= seq![SupervisorAction::SelectDefault] {
            lemma_cons(n, false, SupervisorAction::SelectDefault, rest);
        } else if a =~= seq![SupervisorAction::Spawn] {
            lemma_cons(n, false, SupervisorAction::Spawn, rest);
        } else {
            assert(a =~= seq![SupervisorAction::Stop, SupervisorAction::Join, SupervisorAction::Spawn]);
            let r2 = seq![SupervisorAction::Spawn] + rest;
            let r1 = seq![SupervisorAction::Join] + r2;
            assert(a + rest =~= seq![SupervisorAction::Stop] + r1);
            lemma_cons(1, true, SupervisorAction::Join, r2);
            lemma_cons(0, false, SupervisorAction::Spawn, rest);
            lemma_cons(n, false, SupervisorAction::Stop, r1);
        }
    }
}

/// The index of the first device whose host and device names are exactly `host` and
/// `device`; `None` when there is none.
pub fn device_from_names(devices: &Vec<(String, String)>, host: &String, device: &String) -> (r:
    Option<usize>)
    ensures
        match r {
            Some(i) => {
                &&& i < devices@.len()
                &&& devices@[i as int].0@ == host@
                &&& devices@[i as int].1@ == device@
                &&& forall|j: int|
                    0 <= j < i ==> !(#[trigger] devices@[j].0@ == host@ && devices@[j].1@
                        == device@)
            },
            None => forall|j: int|
                0 <= j < devices@.len() ==> !(#[trigger] devices@[j].0@ == host@
                    && devices@[j].1@ == device@),
        },
{
    let n = devices.len();
    let mut i: usize = 0;
    while i < n
        invariant
            n == devices@.len(),
            i <= n,
            forall|j: int|
                0 <= j < i ==> !(#[trigger] devices@[j].0@ == host@ && devices@[j].1@ == device@),
        decreases n - i,
    {
        let entry = &devices[i];
        if entry.0 == *host && entry.1 == *device {
            return Some(i);
        }
        i = i + 1;
    }
    None
}

} // verus!
