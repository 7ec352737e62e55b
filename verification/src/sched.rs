use crate::clock::Timestamp;
use crate::config::{AlarmConfig, AlarmView};
use crate::input::{Message, MessageView};
use vstd::prelude::*;

verus! {

/// The lifecycle of the scheduler loop: it runs until a `Quit` stops it, and
/// never runs again after that.
#[derive(Debug, Clone, Copy, PartialEq, Eq, Structural)]
pub enum SchedState {
    Running,
    Stopped,
}

/// The scheduler: the sole owner of the alarm list, driven by one `tick` per
/// poll interval.
#[derive(Debug)]
pub struct Scheduler {
    pub alarms: Vec<AlarmConfig>,
    pub state: SchedState,
}

/// The mathematical picture of the scheduler.
#[verifier::ext_equal]
pub struct SchedulerView {
    pub alarms: Seq<AlarmView>,
    pub state: SchedState,
}

impl View for Scheduler {
    type V = SchedulerView;

    open spec fn view(&self) -> SchedulerView {
        SchedulerView {
            alarms: self.alarms@.map_values(|c: AlarmConfig| c@),
            state: self.state,
        }
    }
}

/// Everything one tick asks of the outside world: messages for the audio
/// runner in send order, whether to unregister the file watcher, whether the
/// loop terminates, and which reports to print.
#[derive(Debug)]
pub struct TickOutcome {
    /// Messages to forward to the audio runner, in order.
    pub runner_messages: Vec<Message>,
    /// Unregister the configuration watcher before exiting.
    pub unwatch: bool,
    /// The scheduler loop ends after this tick.
    pub terminate: bool,
    /// A new configuration was installed; report it.
    pub reconfigured: bool,
    /// Nothing fired and a minute began; print the periodic status report.
    pub heartbeat: bool,
}

/// The mathematical picture of a tick's outcome.
#[verifier::ext_equal]
pub struct TickOutcomeView {
    pub runner_messages: Seq<MessageView>,
    pub unwatch: bool,
    pub terminate: bool,
    pub reconfigured: bool,
    pub heartbeat: bool,
}

impl View for TickOutcome {
    type V = TickOutcomeView;

    open spec fn view(&self) -> TickOutcomeView {
        TickOutcomeView {
            runner_messages: self.runner_messages@.map_values(|m: Message| m@),
            unwatch: self.unwatch,
            terminate: self.terminate,
            reconfigured: self.reconfigured,
            heartbeat: self.heartbeat,
        }
    }
}

/// A scheduler state and a tick outcome together: what one tick steps to.
#[verifier::ext_equal]
pub struct TickStep {
    pub sched: SchedulerView,
    pub out: TickOutcomeView,
}

/// The view of an optional message.
pub open spec fn spec_msg_view(m: Option<Message>) -> Option<MessageView> {
    match m {
        Some(x) => Some(x@),
        None => None,
    }
}

/// The position of the first record due to fire, if any.
pub open spec fn spec_first_due(alarms: Seq<AlarmView>, now: Timestamp) -> Option<int>
    decreases alarms.len(),
{
    if alarms.len() == 0 {
        None
    } else if alarms[0].spec_should_fire(now) {
        Some(0)
    } else {
        match spec_first_due(alarms.drop_first(), now) {
            Some(i) => Some(i + 1),
            None => None,
        }
    }
}

/// `spec_first_due` names a due record, and the earliest one in list order;
/// when it names none, no record is due.
pub proof fn lemma_first_due_is_earliest(alarms: Seq<AlarmView>, now: Timestamp)
    ensures
        match spec_first_due(alarms, now) {
            Some(i) => 0 <= i < alarms.len() && alarms[i].spec_should_fire(now) && (forall|j: int|
                0 <= j < i ==> !(#[trigger] alarms[j]).spec_should_fire(now)),
            None => forall|j: int|
                0 <= j < alarms.len() ==> !(#[trigger] alarms[j]).spec_should_fire(now),
        },
    decreases alarms.len(),
{
    if alarms.len() > 0 && !alarms[0].spec_should_fire(now) {
        let rest = alarms.drop_first();
        lemma_first_due_is_earliest(rest, now);
        match spec_first_due(rest, now) {
            Some(i) => {
                assert(alarms[i + 1] == rest[i]);
                assert forall|j: int| 0 <= j < i + 1 implies !(
                #[trigger] alarms[j]).spec_should_fire(now) by {
                    if j > 0 {
                        assert(alarms[j] == rest[j - 1]);
                    }
                }
            },
            None => {
                assert forall|j: int| 0 <= j < alarms.len() implies !(
                #[trigger] alarms[j]).spec_should_fire(now) by {
                    if j > 0 {
                        assert(alarms[j] == rest[j - 1]);
                    }
                }
            },
        }
    }
}

/// The alarm list after the tick's message is handled: a `Reconfigure`
/// replaces it whole, anything else leaves it alone.
pub open spec fn spec_alarms_after_message(
    alarms: Seq<AlarmView>,
    msg: Option<MessageView>,
) -> Seq<AlarmView> {
    match msg {
        Some(MessageView::Reconfigure(l)) => l,
        _ => alarms,
    }
}

/// What message handling alone forwards to the audio runner.
pub open spec fn spec_handle_msgs(msg: Option<MessageView>) -> Seq<MessageView> {
    match msg {
        Some(MessageView::StopAlarm) => seq![MessageView::StopAlarm],
        Some(MessageView::Quit) => seq![MessageView::Quit],
        _ => Seq::empty(),
    }
}

/// The record at `i` marked as fired at `now`.
pub open spec fn spec_mark_fired(alarms: Seq<AlarmView>, i: int, now: Timestamp) -> Seq<
    AlarmView,
> {
    alarms.update(i, AlarmView { last_run: Some(now), ..alarms[i] })
}

/// The scan step: the first due record, if any, has its last run set to
/// `now` and its payload forwarded; everything else is untouched.
pub open spec fn spec_fire(alarms: Seq<AlarmView>, now: Timestamp) -> (Seq<AlarmView>, Seq<
    MessageView,
>) {
    match spec_first_due(alarms, now) {
        Some(i) => (
            spec_mark_fired(alarms, i, now),
            seq![MessageView::AudioAndVolume(alarms[i].audio_file, alarms[i].volume)],
        ),
        None => (alarms, Seq::empty()),
    }
}

/// One tick of the scheduler loop. A `Quit` forwards a quit to the runner,
/// asks for the watcher to be unregistered and stops the loop without
/// scanning. Any other tick first handles its message (a `Reconfigure`
/// replaces the alarm list, a `StopAlarm` is forwarded, anything else is
/// ignored), then fires the first due record, if any; when nothing fired and
/// a minute begins, the periodic status report is requested.
pub open spec fn spec_tick(s: SchedulerView, msg: Option<MessageView>, now: Timestamp) -> TickStep {
    let msgs0 = spec_handle_msgs(msg);
    if msg == Some(MessageView::Quit) {
        TickStep {
            sched: SchedulerView { alarms: s.alarms, state: SchedState::Stopped },
            out: TickOutcomeView {
                runner_messages: msgs0,
                unwatch: true,
                terminate: true,
                reconfigured: false,
                heartbeat: false,
            },
        }
    } else {
        let alarms1 = spec_alarms_after_message(s.alarms, msg);
        let fired = spec_fire(alarms1, now);
        TickStep {
            sched: SchedulerView { alarms: fired.0, state: s.state },
            out: TickOutcomeView {
                runner_messages: msgs0 + fired.1,
                unwatch: false,
                terminate: false,
                reconfigured: msg matches Some(MessageView::Reconfigure(_)),
                heartbeat: spec_first_due(alarms1, now) is None && now.seconds == 0,
            },
        }
    }
}

/// How many `AudioAndVolume` messages a message sequence holds.
pub open spec fn audio_count(msgs: Seq<MessageView>) -> int
    decreases msgs.len(),
{
    if msgs.len() == 0 {
        0
    } else {
        audio_count(msgs.drop_last()) + (if msgs.last() matches MessageView::AudioAndVolume(_, _) {
            1int
        } else {
            0int
        })
    }
}

proof fn lemma_audio_count_concat(a: Seq<MessageView>, b: Seq<MessageView>)
    ensures
        audio_count(a + b) == audio_count(a) + audio_count(b),
    decreases b.len(),
{
    if b.len() == 0 {
        assert(a + b =~= a);
    } else {
        assert((a + b).drop_last() =~= a + b.drop_last());
        assert((a + b).last() == b.last());
        lemma_audio_count_concat(a, b.drop_last());
    }
}

proof fn lemma_audio_count_single(m: MessageView)
    ensures
        audio_count(seq![m]) == (if m matches MessageView::AudioAndVolume(_, _) {
            1int
        } else {
            0int
        }),
{
    assert(seq![m].drop_last() =~= Seq::<MessageView>::empty());
    assert(seq![m].last() == m);
    assert(audio_count(Seq::<MessageView>::empty()) == 0);
    assert(audio_count(seq![m]) == audio_count(seq![m].drop_last()) + (if seq![m].last() matches
        MessageView::AudioAndVolume(_, _) {
        1int
    } else {
        0int
    }));
}

/// One tick forwards at most one `AudioAndVolume` message to the audio
/// runner, however many records are due at once; it forwards exactly one
/// precisely when the tick is not a `Quit` and some record of the list the
/// tick scans is due; and the record it plays is the earliest due one in
/// list order.
pub proof fn lemma_tick_fires_at_most_once(
    s: SchedulerView,
    msg: Option<MessageView>,
    now: Timestamp,
)
    ensures
        ({
            let step = spec_tick(s, msg, now);
            let alarms1 = spec_alarms_after_message(s.alarms, msg);
            &&& audio_count(step.out.runner_messages) <= 1
            &&& (audio_count(step.out.runner_messages) == 1 <==> msg != Some(MessageView::Quit)
                && spec_first_due(alarms1, now) is Some)
            &&& (match spec_first_due(alarms1, now) {
                Some(i) => alarms1[i].spec_should_fire(now) && (forall|j: int|
                    0 <= j < i ==> !(#[trigger] alarms1[j]).spec_should_fire(now)),
                None => forall|j: int|
                    0 <= j < alarms1.len() ==> !(#[trigger] alarms1[j]).spec_should_fire(now),
            })
        }),
{
    let alarms1 = spec_alarms_after_message(s.alarms, msg);
    lemma_first_due_is_earliest(alarms1, now);
    let msgs0 = spec_handle_msgs(msg);
    if msg == Some(MessageView::Quit) {
        lemma_audio_count_single(MessageView::Quit);
    } else {
        let fired = spec_fire(alarms1, now).1;
        lemma_audio_count_concat(msgs0, fired);
        match msg {
            Some(MessageView::StopAlarm) => {
                lemma_audio_count_single(MessageView::StopAlarm);
            },
            _ => {
                assert(audio_count(Seq::<MessageView>::empty()) == 0);
            },
        }
        match spec_first_due(alarms1, now) {
            Some(i) => {
                lemma_audio_count_single(
                    MessageView::AudioAndVolume(alarms1[i].audio_file, alarms1[i].volume),
                );
            },
            None => {
                assert(audio_count(Seq::<MessageView>::empty()) == 0);
            },
        }
    }
}

/// A `Reconfigure` replaces the alarm list whole: the tick's outcome does not
/// depend on any record held before the message, and whatever fires on that
/// tick is a record of the new list. A record absent from the new list
/// therefore cannot fire, even if it was about to under the old one.
pub proof fn lemma_reconfigure_replaces(
    s1: SchedulerView,
    s2: SchedulerView,
    l: Seq<AlarmView>,
    now: Timestamp,
)
    requires
        s1.state == s2.state,
    ensures
        spec_tick(s1, Some(MessageView::Reconfigure(l)), now) == spec_tick(
            s2,
            Some(MessageView::Reconfigure(l)),
            now,
        ),
        ({
            let step = spec_tick(s1, Some(MessageView::Reconfigure(l)), now);
            match spec_first_due(l, now) {
                Some(i) => 0 <= i < l.len() && step.out.runner_messages
                    =~= seq![MessageView::AudioAndVolume(l[i].audio_file, l[i].volume)],
                None => step.out.runner_messages =~= Seq::<MessageView>::empty(),
            }
        }),
{
    let mv = Some(MessageView::Reconfigure(l));
    lemma_first_due_is_earliest(l, now);
    assert(spec_tick(s1, mv, now) =~~= spec_tick(s2, mv, now));
    match spec_first_due(l, now) {
        Some(i) => {
            assert(spec_tick(s1, mv, now).out.runner_messages =~= seq![
                MessageView::AudioAndVolume(l[i].audio_file, l[i].volume),
            ]);
        },
        None => {
            assert(spec_tick(s1, mv, now).out.runner_messages =~= Seq::<MessageView>::empty());
        },
    }
}

/// The per-hop pieces of the shutdown chain: a `Quit` tick forwards exactly
/// one message to the audio runner — a `Quit` — asks for the watcher to be
/// unregistered, terminates the loop without scanning (the alarm list is
/// untouched and nothing fires), and stops the scheduler for good; and the
/// runner's reaction to that forwarded `Quit` is to silence and terminate.
/// The join order of the threads themselves is the embedding program's duty
/// and cannot be stated here.
pub proof fn lemma_quit_shutdown_chain(s: SchedulerView, now: Timestamp)
    ensures
        ({
            let step = spec_tick(s, Some(MessageView::Quit), now);
            &&& step.out.runner_messages =~= seq![MessageView::Quit]
            &&& step.out.unwatch
            &&& step.out.terminate
            &&& !step.out.heartbeat
            &&& step.sched.alarms == s.alarms
            &&& step.sched.state == SchedState::Stopped
            &&& crate::runner::spec_runner_step(MessageView::Quit)
                == crate::runner::RunnerActionView::Terminate
        }),
{
}

/// Every record of a list is well formed.
pub open spec fn alarms_wf(alarms: Seq<AlarmView>) -> bool {
    forall|i: int| 0 <= i < alarms.len() ==> (#[trigger] alarms[i]).wf()
}

/// A message keeps the record invariant: a `Reconfigure` only carries well
/// formed records.
pub open spec fn msg_wf(msg: Option<MessageView>) -> bool {
    match msg {
        Some(MessageView::Reconfigure(l)) => alarms_wf(l),
        _ => true,
    }
}

/// A tick keeps the record invariant: marking a record as fired changes only
/// its last run, and a reconfiguration installs only well formed records.
pub proof fn lemma_tick_preserves_wf(s: SchedulerView, msg: Option<MessageView>, now: Timestamp)
    requires
        alarms_wf(s.alarms),
        msg_wf(msg),
    ensures
        alarms_wf(spec_tick(s, msg, now).sched.alarms),
{
    let alarms1 = spec_alarms_after_message(s.alarms, msg);
    if msg != Some(MessageView::Quit) {
        match spec_first_due(alarms1, now) {
            Some(i) => {
                lemma_first_due_is_earliest(alarms1, now);
                let marked = spec_mark_fired(alarms1, i, now);
                assert forall|k: int| 0 <= k < marked.len() implies (
                #[trigger] marked[k]).wf() by {
                    assert(alarms1[k].wf());
                }
            },
            None => {},
        }
    }
}

impl Scheduler {
    /// A scheduler with no alarms yet, running.
    pub fn new() -> (s: Scheduler)
        ensures
            s@.alarms.len() == 0,
            s@.state == SchedState::Running,
    {
        Scheduler { alarms: Vec::new(), state: SchedState::Running }
    }

    /// Runs one tick: exactly the transition `spec_tick` describes, on this
    /// scheduler, the message received this tick (if any), and the current
    /// time.
    pub fn tick(&mut self, msg: Option<Message>, now: &Timestamp) -> (out: TickOutcome)
        ensures
            ({
                let step = spec_tick(old(self)@, spec_msg_view(msg), *now);
                final(self)@ == step.sched && out@ == step.out
            }),
    {
        let ghost mv = spec_msg_view(msg);
        let ghost pre = self@;
        let mut out_msgs: Vec<Message> = Vec::new();
        let mut reconfigured = false;
        match msg {
            Some(Message::Reconfigure(l)) => {
                self.alarms = l;
                reconfigured = true;
            },
            Some(Message::StopAlarm) => {
                out_msgs.push(Message::StopAlarm);
            },
            Some(Message::Quit) => {
                out_msgs.push(Message::Quit);
                self.state = SchedState::Stopped;
                let out = TickOutcome {
                    runner_messages: out_msgs,
                    unwatch: true,
                    terminate: true,
                    reconfigured: false,
                    heartbeat: false,
                };
                proof {
                    let step = spec_tick(pre, mv, *now);
                    assert(out@.runner_messages =~= step.out.runner_messages);
                    assert(out@ =~~= step.out);
                    assert(self@ =~~= step.sched);
                }
                return out;
            },
            _ => {},
        }
        let ghost alarms1 = spec_alarms_after_message(pre.alarms, mv);
        proof {
            assert(self@.alarms =~~= alarms1);
        }
        let ghost msgs0 = spec_handle_msgs(mv);
        let ghost pre_msgs = out_msgs@;
        proof {
            assert(out_msgs@.map_values(|m: Message| m@) =~= msgs0);
        }
        let n = self.alarms.len();
        let mut idx: usize = 0;
        let mut found: Option<usize> = None;
        while found.is_none() && idx < n
            invariant
                idx <= n,
                n == self.alarms@.len(),
                self@.alarms == alarms1,
                self.state == pre.state,
                out_msgs@ == pre_msgs,
                forall|j: int| 0 <= j < idx ==> !(#[trigger] alarms1[j]).spec_should_fire(*now),
                match found {
                    Some(i) => i == idx && idx < n && alarms1[idx as int].spec_should_fire(*now),
                    None => true,
                },
            decreases n - idx + (if found is Some {
                0int
            } else {
                1int
            }),
        {
            proof {
                assert(alarms1[idx as int] == self.alarms@.map_values(|c: AlarmConfig| c@)[
                    idx as int]);
            }
            if self.alarms[idx].should_fire(now) {
                found = Some(idx);
            } else {
                idx = idx + 1;
            }
        }
        proof {
            lemma_first_due_is_earliest(alarms1, *now);
        }
        let heartbeat: bool;
        match found {
            Some(i) => {
                proof {
                    assert(spec_first_due(alarms1, *now) == Some(i as int));
                }
                let mut a = self.alarms.remove(i);
                let f = a.audio_file.clone();
                let vol = a.volume;
                a.last_run = Some(*now);
                self.alarms.insert(i, a);
                out_msgs.push(Message::AudioAndVolume(f, vol));
                heartbeat = false;
                proof {
                    assert(self.alarms@.map_values(|c: AlarmConfig| c@) =~~= spec_mark_fired(
                        alarms1,
                        i as int,
                        *now,
                    ));
                    assert(out_msgs@.map_values(|m: Message| m@) =~~= msgs0 + spec_fire(
                        alarms1,
                        *now,
                    ).1);
                }
            },
            None => {
                proof {
                    assert(spec_first_due(alarms1, *now) is None);
                    assert(out_msgs@.map_values(|m: Message| m@) =~~= msgs0 + spec_fire(
                        alarms1,
                        *now,
                    ).1);
                }
                heartbeat = now.seconds == 0;
            },
        }
        let out = TickOutcome {
            runner_messages: out_msgs,
            unwatch: false,
            terminate: false,
            reconfigured,
            heartbeat,
        };
        proof {
            let step = spec_tick(pre, mv, *now);
            assert(self@ =~~= step.sched);
            assert(out@ =~~= step.out);
        }
        out
    }
}

} // verus!
