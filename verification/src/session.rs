//! The session's control decisions: how the orchestrator walks from
//! discovery to the steady state, how pushed VM events change the debug
//! state, when a log line signals a completed reload, and how bursts of
//! file-change events collapse into one reload command.

use vstd::prelude::*;
use crate::app_state::{DebugState, IsolateRef};
use crate::text::{contains_seq, contains_str, occurs_at, occurs_at_exec, str_eq};

verus! {

/// The phases the orchestrator moves through on its way to the steady
/// state.
#[derive(Clone, Copy, PartialEq, Eq, Structural, Debug)]
pub enum SessionPhase {
    Discovering,
    Connecting,
    ListingIsolates,
    AwaitingUserSelection,
    WaitingForInspector,
    TreeFetch,
    Steady,
}

/// What the orchestrator reacts to while bringing the session up.
#[derive(Clone, Copy, PartialEq, Eq, Structural, Debug)]
pub enum SessionEvent {
    UriDiscovered,
    Connected,
    OneIsolate,
    ManyIsolates,
    IsolateSelected,
    InspectorAdvertised,
    TreeFetched,
    TreeFetchFailed,
    ReloadSignal,
}

/// One transition of the session state machine. Events that a phase does
/// not consume leave it unchanged.
pub open spec fn phase_after_spec(phase: SessionPhase, event: SessionEvent) -> SessionPhase {
    match (phase, event) {
        (SessionPhase::Discovering, SessionEvent::UriDiscovered) => SessionPhase::Connecting,
        (SessionPhase::Connecting, SessionEvent::Connected) => SessionPhase::ListingIsolates,
        (SessionPhase::ListingIsolates, SessionEvent::OneIsolate) => SessionPhase::WaitingForInspector,
        (SessionPhase::ListingIsolates, SessionEvent::ManyIsolates) => SessionPhase::AwaitingUserSelection,
        (SessionPhase::AwaitingUserSelection, SessionEvent::IsolateSelected) => SessionPhase::WaitingForInspector,
        (SessionPhase::WaitingForInspector, SessionEvent::InspectorAdvertised) => SessionPhase::TreeFetch,
        (SessionPhase::TreeFetch, SessionEvent::TreeFetched) => SessionPhase::Steady,
        (SessionPhase::TreeFetch, SessionEvent::TreeFetchFailed) => SessionPhase::AwaitingUserSelection,
        (SessionPhase::Steady, SessionEvent::ReloadSignal) => SessionPhase::TreeFetch,
        _ => phase,
    }
}

/// Drives the session state machine one step.
pub fn phase_after(phase: SessionPhase, event: SessionEvent) -> (r: SessionPhase)
    ensures
        r == phase_after_spec(phase, event),
{
    match (phase, event) {
        (SessionPhase::Discovering, SessionEvent::UriDiscovered) => SessionPhase::Connecting,
        (SessionPhase::Connecting, SessionEvent::Connected) => SessionPhase::ListingIsolates,
        (SessionPhase::ListingIsolates, SessionEvent::OneIsolate) => SessionPhase::WaitingForInspector,
        (SessionPhase::ListingIsolates, SessionEvent::ManyIsolates) => SessionPhase::AwaitingUserSelection,
        (SessionPhase::AwaitingUserSelection, SessionEvent::IsolateSelected) => SessionPhase::WaitingForInspector,
        (SessionPhase::WaitingForInspector, SessionEvent::InspectorAdvertised) => SessionPhase::TreeFetch,
        (SessionPhase::TreeFetch, SessionEvent::TreeFetched) => SessionPhase::Steady,
        (SessionPhase::TreeFetch, SessionEvent::TreeFetchFailed) => SessionPhase::AwaitingUserSelection,
        (SessionPhase::Steady, SessionEvent::ReloadSignal) => SessionPhase::TreeFetch,
        (p, _) => p,
    }
}

/// What the orchestrator does with one pushed VM event.
pub enum DebugAction {
    /// A pause-family event: become paused and fetch the stack.
    PauseAndFetchStack { isolate_id: String, reason: String },
    /// The peer resumed.
    Resume,
    /// An event the core ignores.
    Ignore,
}

/// The event kinds that transition the session to Paused.
pub open spec fn is_pause_kind(kind: Seq<char>) -> bool {
    ||| kind == "PauseStart"@
    ||| kind == "PauseBreakpoint"@
    ||| kind == "PauseException"@
    ||| kind == "PauseInterrupted"@
    ||| kind == "PauseExit"@
}

/// Decides the reaction to a pushed VM event: pause-family kinds with an
/// isolate turn into a paused state plus a stack fetch, a resume turns the
/// state back to running, and everything else is ignored.
pub fn debug_event_action(event_kind: &str, isolate_id: Option<&String>) -> (r: DebugAction)
    ensures
        match r {
            DebugAction::PauseAndFetchStack { isolate_id: iso, reason } => {
                &&& is_pause_kind(event_kind@)
                &&& isolate_id is Some
                &&& iso@ == isolate_id.unwrap()@
                &&& reason@ == event_kind@
            },
            DebugAction::Resume => event_kind@ == "Resume"@,
            DebugAction::Ignore => !(is_pause_kind(event_kind@) && isolate_id is Some)
                && event_kind@ != "Resume"@,
        },
{
    proof {
        reveal_strlit("PauseStart");
        reveal_strlit("PauseBreakpoint");
        reveal_strlit("PauseException");
        reveal_strlit("PauseInterrupted");
        reveal_strlit("PauseExit");
        reveal_strlit("Resume");
        assert("PauseStart"@.len() == 10);
        assert("PauseBreakpoint"@.len() == 15);
        assert("PauseException"@.len() == 14);
        assert("PauseInterrupted"@.len() == 16);
        assert("PauseExit"@.len() == 9);
        assert("Resume"@.len() == 6);
    }
    let pause = str_eq(event_kind, "PauseStart") || str_eq(event_kind, "PauseBreakpoint")
        || str_eq(event_kind, "PauseException") || str_eq(event_kind, "PauseInterrupted")
        || str_eq(event_kind, "PauseExit");
    if pause {
        match isolate_id {
            Some(iso) => DebugAction::PauseAndFetchStack {
                isolate_id: iso.clone(),
                reason: event_kind.to_owned(),
            },
            None => DebugAction::Ignore,
        }
    } else if str_eq(event_kind, "Resume") {
        DebugAction::Resume
    } else {
        DebugAction::Ignore
    }
}

/// The debug state a pause-family event leaves behind.
pub fn paused_state(isolate_id: String, reason: String) -> (r: DebugState)
    ensures
        r matches DebugState::Paused { isolate_id: i, reason: re } && i@ == isolate_id@ && re@
            == reason@,
{
    DebugState::Paused { isolate_id, reason }
}

/// The inspector extension method whose advertisement makes an isolate
/// ready.
pub open spec fn inspector_method() -> Seq<char> {
    "ext.flutter.inspector.getRootWidgetSummaryTree"@
}

/// Whether the advertised extension RPCs include the inspector's tree
/// method, which ends the readiness poll.
pub fn inspector_ready(rpcs: &Vec<String>) -> (r: bool)
    ensures
        r == exists|i: int| 0 <= i < rpcs@.len() && rpcs@[i]@ == inspector_method(),
{
    let n = rpcs.len();
    let mut i: usize = 0;
    while i < n
        invariant
            n == rpcs@.len(),
            i <= n,
            forall|j: int| 0 <= j < i ==> rpcs@[j]@ != inspector_method(),
        decreases n - i,
    {
        if str_eq(rpcs[i].as_str(), "ext.flutter.inspector.getRootWidgetSummaryTree") {
            return true;
        }
        i += 1;
    }
    false
}

/// The position of the isolate with the given id in the isolate list.
pub fn find_isolate(isolates: &Vec<IsolateRef>, id: &str) -> (r: Option<usize>)
    ensures
        match r {
            Some(i) => i < isolates@.len() && isolates@[i as int].id@ == id@,
            None => forall|j: int| 0 <= j < isolates@.len() ==> isolates@[j].id@ != id@,
        },
{
    let n = isolates.len();
    let mut i: usize = 0;
    while i < n
        invariant
            n == isolates@.len(),
            i <= n,
            forall|j: int| 0 <= j < i ==> isolates@[j].id@ != id@,
        decreases n - i,
    {
        if str_eq(isolates[i].id.as_str(), id) {
            return Some(i);
        }
        i += 1;
    }
    None
}

/// Whether a log line signals a completed hot reload or restart, which
/// makes the orchestrator refetch the tree.
pub fn is_reload_line(line: &str) -> (r: bool)
    ensures
        r == (contains_seq(line@, "Reloaded"@) || contains_seq(line@, "Restarted"@)),
{
    contains_str(line, "Reloaded") || contains_str(line, "Restarted")
}

/// Whether `s` ends with `suffix`.
pub open spec fn ends_with(s: Seq<char>, suffix: Seq<char>) -> bool {
    occurs_at(s, suffix, s.len() - suffix.len())
}

/// The auto-reload file filter: a change counts only when the file is not
/// ignored and carries the source suffix of the attached app.
pub fn should_trigger_reload(is_ignored: bool, path: &str) -> (r: bool)
    ensures
        r == (!is_ignored && ends_with(path@, ".dart"@)),
{
    if is_ignored {
        return false;
    }
    proof {
        reveal_strlit(".dart");
    }
    let n = path.unicode_len();
    if n < 5 {
        return false;
    }
    occurs_at_exec(path, ".dart", n - 5)
}

/// The debounced auto-reload pump: every file-change event pushes the
/// deadline 500 ms out; when a tick passes the deadline the pump disarms
/// and, with auto-reload on, emits one reload command.
pub struct Debouncer {
    pub deadline: Option<u64>,
}

/// The debounce window in milliseconds.
pub open spec fn debounce_window() -> u64 {
    500
}

impl Debouncer {
    pub fn new() -> (r: Debouncer)
        ensures
            r.deadline is None,
    {
        Debouncer { deadline: None }
    }

    /// A file-change event arms (or re-arms) the deadline at `now + 500`.
    pub fn on_file_event(&mut self, now: u64)
        requires
            now <= u64::MAX - 500,
        ensures
            final(self).deadline == Some((now + 500) as u64),
    {
        self.deadline = Some(now + 500);
    }

    /// A tick fires exactly when armed and past the deadline; firing
    /// disarms, and the command is sent only while auto-reload is on.
    pub fn on_tick(&mut self, now: u64, auto_reload: bool) -> (fire: bool)
        ensures
            match old(self).deadline {
                Some(d) => if now >= d {
                    &&& final(self).deadline is None
                    &&& fire == auto_reload
                } else {
                    &&& *final(self) == *old(self)
                    &&& !fire
                },
                None => *final(self) == *old(self) && !fire,
            },
    {
        match self.deadline {
            Some(d) => {
                if now >= d {
                    self.deadline = None;
                    auto_reload
                } else {
                    false
                }
            },
            None => false,
        }
    }
}

/// One step of the debounce pump's life, for reasoning about whole runs.
pub enum DebounceStep {
    FileEvent(u64),
    Tick(u64),
}

pub open spec fn step_time(step: DebounceStep) -> u64 {
    match step {
        DebounceStep::FileEvent(t) => t,
        DebounceStep::Tick(t) => t,
    }
}

/// How many reload commands a run of the pump emits from deadline state
/// `d0`, with auto-reload on.
pub open spec fn count_fires(d0: Option<u64>, steps: Seq<DebounceStep>) -> nat
    decreases steps.len(),
{
    if steps.len() == 0 {
        0
    } else {
        match steps[0] {
            DebounceStep::FileEvent(t) => count_fires(Some((t + 500) as u64), steps.drop_first()),
            DebounceStep::Tick(t) => match d0 {
                Some(d) => if t >= d {
                    1 + count_fires(None, steps.drop_first())
                } else {
                    count_fires(d0, steps.drop_first())
                },
                None => count_fires(None, steps.drop_first()),
            },
        }
    }
}

/// A well-formed burst after an event at `t_last`: times never decrease,
/// every further event lands inside the 500 ms window of the one before it,
/// and no tick outruns the pending deadline while more events are coming.
pub open spec fn burst(steps: Seq<DebounceStep>, t_last: u64) -> bool
    decreases steps.len(),
{
    if steps.len() == 0 {
        true
    } else {
        let t = step_time(steps[0]);
        match steps[0] {
            DebounceStep::FileEvent(tv) => {
                &&& t_last <= tv
                &&& tv < t_last + 500
                &&& tv <= u64::MAX - 500
                &&& burst(steps.drop_first(), tv)
            },
            DebounceStep::Tick(tv) => {
                &&& t_last <= tv
                &&& (has_event(steps.drop_first()) ==> tv < t_last + 500)
                &&& burst(steps.drop_first(), t_last)
            },
        }
    }
}

pub open spec fn has_event(steps: Seq<DebounceStep>) -> bool {
    exists|i: int| 0 <= i < steps.len() && steps[i] is FileEvent
}

/// Ticks alone never fire an unarmed pump.
proof fn lemma_quiet(steps: Seq<DebounceStep>)
    requires
        !has_event(steps),
    ensures
        count_fires(None, steps) == 0,
    decreases steps.len(),
{
    if steps.len() > 0 {
        assert(!(steps[0] is FileEvent)) by {
            if steps[0] is FileEvent {
                assert(has_event(steps));
            }
        }
        assert(!has_event(steps.drop_first())) by {
            if has_event(steps.drop_first()) {
                let i = choose|i: int|
                    0 <= i < steps.drop_first().len() && steps.drop_first()[i] is FileEvent;
                assert(steps[i + 1] is FileEvent);
            }
        }
        lemma_quiet(steps.drop_first());
    }
}

/// Once the last event has armed the deadline, a quiescent tail with one
/// tick past the deadline fires exactly once.
proof fn lemma_tail_fires_once(steps: Seq<DebounceStep>, dl: u64, fi: int)
    requires
        !has_event(steps),
        0 <= fi < steps.len(),
        steps[fi] is Tick,
        step_time(steps[fi]) >= dl,
    ensures
        count_fires(Some(dl), steps) == 1,
    decreases steps.len(),
{
    assert(!(steps[0] is FileEvent)) by {
        if steps[0] is FileEvent {
            assert(has_event(steps));
        }
    }
    assert(!has_event(steps.drop_first())) by {
        if has_event(steps.drop_first()) {
            let i = choose|i: int|
                0 <= i < steps.drop_first().len() && steps.drop_first()[i] is FileEvent;
            assert(steps[i + 1] is FileEvent);
        }
    }
    let t = step_time(steps[0]);
    if t >= dl && steps[0] is Tick {
        lemma_quiet(steps.drop_first());
    } else {
        assert(fi != 0);
        assert(steps.drop_first()[fi - 1] == steps[fi]);
        lemma_tail_fires_once(steps.drop_first(), dl, fi - 1);
    }
}

/// Debounce rate: over a burst of file-change events less than 500 ms
/// apart, followed by quiet in which some tick passes the deadline of the
/// last event, exactly one reload command is emitted — at the first tick at
/// or after that deadline.
pub proof fn lemma_debounce_rate(steps: Seq<DebounceStep>, t_last: u64, fi: int)
    requires
        burst(steps, t_last),
        t_last <= u64::MAX - 500,
        0 <= fi < steps.len(),
        steps[fi] is Tick,
        step_time(steps[fi]) >= last_event_deadline(steps, t_last),
    ensures
        count_fires(Some((t_last + 500) as u64), steps) == 1,
    decreases steps.len(),
{
    let dl = (t_last + 500) as u64;
    let t = step_time(steps[0]);
    match steps[0] {
        DebounceStep::FileEvent(tv) => {
            assert(fi != 0);
            assert(steps.drop_first()[fi - 1] == steps[fi]);
            assert(last_event_deadline(steps.drop_first(), tv) == last_event_deadline(
                steps,
                t_last,
            ));
            lemma_debounce_rate(steps.drop_first(), tv, fi - 1);
        },
        DebounceStep::Tick(tv) => {
            if has_event(steps.drop_first()) {
                assert(tv < dl);
                assert(fi != 0) by {
                    if fi == 0 {
                        assert(last_event_deadline(steps, t_last) >= dl) by {
                            lemma_deadline_grows(steps, t_last);
                        }
                    }
                }
                assert(steps.drop_first()[fi - 1] == steps[fi]);
                assert(last_event_deadline(steps.drop_first(), t_last) == last_event_deadline(
                    steps,
                    t_last,
                ));
                lemma_debounce_rate(steps.drop_first(), t_last, fi - 1);
            } else {
                assert(!has_event(steps)) by {
                    if has_event(steps) {
                        let i = choose|i: int| 0 <= i < steps.len() && steps[i] is FileEvent;
                        assert(i != 0);
                        assert(steps.drop_first()[i - 1] == steps[i]);
                        assert(has_event(steps.drop_first()));
                    }
                }
                lemma_led_quiet(steps, t_last);
                lemma_tail_fires_once(steps, dl, fi);
            }
        },
    }
}

/// The deadline the last file-change event of the run leaves armed; with no
/// further event, the one already pending.
pub open spec fn last_event_deadline(steps: Seq<DebounceStep>, t_last: u64) -> u64
    decreases steps.len(),
{
    if steps.len() == 0 {
        (t_last + 500) as u64
    } else {
        match steps[0] {
            DebounceStep::FileEvent(tv) => last_event_deadline(steps.drop_first(), tv),
            DebounceStep::Tick(_) => last_event_deadline(steps.drop_first(), t_last),
        }
    }
}

/// With no event in the run, the pending deadline is the last one.
proof fn lemma_led_quiet(steps: Seq<DebounceStep>, t_last: u64)
    requires
        !has_event(steps),
        t_last <= u64::MAX - 500,
    ensures
        last_event_deadline(steps, t_last) == t_last + 500,
    decreases steps.len(),
{
    if steps.len() > 0 {
        assert(!(steps[0] is FileEvent)) by {
            if steps[0] is FileEvent {
                assert(has_event(steps));
            }
        }
        assert(!has_event(steps.drop_first())) by {
            if has_event(steps.drop_first()) {
                let i = choose|i: int|
                    0 <= i < steps.drop_first().len() && steps.drop_first()[i] is FileEvent;
                assert(steps[i + 1] is FileEvent);
            }
        }
        lemma_led_quiet(steps.drop_first(), t_last);
    }
}

/// The final deadline never falls below the one already pending.
proof fn lemma_deadline_grows(steps: Seq<DebounceStep>, t_last: u64)
    requires
        burst(steps, t_last),
        t_last <= u64::MAX - 500,
    ensures
        last_event_deadline(steps, t_last) >= t_last + 500,
    decreases steps.len(),
{
    if steps.len() > 0 {
        match steps[0] {
            DebounceStep::FileEvent(tv) => {
                lemma_deadline_grows(steps.drop_first(), tv);
            },
            DebounceStep::Tick(_) => {
                lemma_deadline_grows(steps.drop_first(), t_last);
            },
        }
    }
}

} // verus!
