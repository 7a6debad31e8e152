//! Waiting for a launched instance to become reachable, and telling about it.
//!
//! The wait looks at the clock, sleeps, checks the instance and starts over until
//! it ends: with a notification once the instance has an address, without one when
//! the instance is lost or the wait has taken too long.

use crate::error::{wording, ClientError};
use crate::text::{opt_text, or_text, same_text, text_or, texts};
use crate::types::Instance;
use vstd::prelude::*;

verus! {

/// How long to wait for an instance, in seconds.
pub const MAX_WAIT_SECS: u64 = 600;

/// How long to sleep before an instance is checked, in seconds.
pub const POLL_INTERVAL_SECS: u64 = 10;

/// The instance that is waited for.
#[derive(Debug)]
pub struct Watch {
    pub instance_id: String,
    pub instance_name: Option<String>,
    pub gpu_type: String,
    pub region: String,
}

/// What is told of an instance that has become reachable.
#[derive(Debug)]
pub struct InstanceReadyMessage {
    pub instance_id: String,
    pub instance_name: Option<String>,
    pub ip: String,
    pub gpu_type: String,
    pub region: String,
}

/// What the wait learns.
#[derive(Debug)]
pub enum PollEvent {
    /// The time since it began.
    Elapsed { secs: u64, nanos: u32 },
    /// What came of checking the instance.
    Checked(Result<Instance, ClientError>),
    /// What came of the notification in each channel: nothing, or why it failed.
    Notified(Vec<(String, Option<String>)>),
}

/// What the wait does next.
#[derive(Debug)]
pub enum PollAction {
    /// Sleep for the given number of seconds, then check the instance.
    SleepAndCheck(u64),
    /// Look at the clock again.
    StartOver,
    /// Tell that the instance is reachable.
    Notify(InstanceReadyMessage),
    /// End.
    Stop,
}

/// What the wait reports and what it does next.
#[derive(Debug)]
pub struct PollStep {
    pub log: Vec<String>,
    pub action: PollAction,
}

/// The message is about the watched instance and carries its address.
pub open spec fn tells(message: InstanceReadyMessage, watch: Watch, ip: Seq<char>) -> bool {
    &&& message.instance_id@ == watch.instance_id@
    &&& opt_text(message.instance_name) == opt_text(watch.instance_name)
    &&& message.ip@ == ip
    &&& message.gpu_type@ == watch.gpu_type@
    &&& message.region@ == watch.region@
}

/// More time has passed than the wait may take.
pub open spec fn overdue(secs: u64, nanos: u32) -> bool {
    secs > MAX_WAIT_SECS || (secs == MAX_WAIT_SECS && nanos > 0)
}

/// The status of an instance, `unknown` where none is given.
pub open spec fn status_of(instance: Instance) -> Seq<char> {
    or_text(instance.status, "unknown"@)
}

/// The instance will not become reachable any more.
pub open spec fn lost(instance: Instance) -> bool {
    status_of(instance) == "terminated"@ || status_of(instance) == "unhealthy"@
}

/// The line that reports what came of the notification in a channel.
pub open spec fn channel_line(
    instance_id: Seq<char>,
    channel: Seq<char>,
    failed: Option<Seq<char>>,
) -> Seq<char> {
    match failed {
        None => "[notify] "@ + channel + " notification sent for "@ + instance_id,
        Some(reason) => "[notify] "@ + channel + " notification failed: "@ + reason,
    }
}

/// The lines that report what came of the notification in every channel.
pub open spec fn channel_lines(
    instance_id: Seq<char>,
    results: Seq<(String, Option<String>)>,
) -> Seq<Seq<char>> {
    results.map_values(
        |result: (String, Option<String>)|
            channel_line(instance_id, result.0@, opt_text(result.1)),
    )
}

/// The step is the one that the event calls for.
pub open spec fn follows(watch: Watch, event: PollEvent, step: PollStep) -> bool {
    match event {
        PollEvent::Elapsed { secs, nanos } => if overdue(secs, nanos) {
            &&& texts(step.log@) == seq![
                "[notify] Timeout waiting for instance "@ + watch.instance_id@
                    + " to become active"@,
            ]
            &&& step.action is Stop
        } else {
            &&& step.log@.len() == 0
            &&& step.action == PollAction::SleepAndCheck(POLL_INTERVAL_SECS)
        },
        PollEvent::Checked(Ok(instance)) => if lost(instance) {
            &&& texts(step.log@) == seq![
                "[notify] Instance "@ + watch.instance_id@ + " entered "@ + status_of(instance)
                    + " state, stopping notifications"@,
            ]
            &&& step.action is Stop
        } else {
            &&& step.log@.len() == 0
            &&& match instance.ip {
                Some(ip) => step.action is Notify && tells(step.action->Notify_0, watch, ip@),
                None => step.action is StartOver,
            }
        },
        PollEvent::Checked(Err(error)) => {
            &&& texts(step.log@) == seq![
                "[notify] Error checking instance "@ + watch.instance_id@ + ": "@ + wording(
                    error@,
                ),
            ]
            &&& step.action is StartOver
        },
        PollEvent::Notified(results) => {
            &&& texts(step.log@) == channel_lines(watch.instance_id@, results@)
            &&& step.action is Stop
        },
    }
}

fn one_line(line: String) -> (log: Vec<String>)
    ensures
        texts(log@) == seq![line@],
{
    let mut log: Vec<String> = Vec::new();
    log.push(line);
    assert(texts(log@) =~= seq![line@]);
    log
}

impl Watch {
    /// What the wait does on an event.
    pub fn step(&self, event: PollEvent) -> (step: PollStep)
        ensures
            follows(*self, event, step),
    {
        match event {
            PollEvent::Elapsed { secs, nanos } => {
                if secs > MAX_WAIT_SECS || (secs == MAX_WAIT_SECS && nanos > 0) {
                    let mut line = "[notify] Timeout waiting for instance ".to_owned();
                    line.append(self.instance_id.as_str());
                    line.append(" to become active");
                    PollStep { log: one_line(line), action: PollAction::Stop }
                } else {
                    PollStep {
                        log: Vec::new(),
                        action: PollAction::SleepAndCheck(POLL_INTERVAL_SECS),
                    }
                }
            },
            PollEvent::Checked(checked) => match checked {
                Ok(instance) => self.checked(instance),
                Err(error) => {
                    let mut line = "[notify] Error checking instance ".to_owned();
                    line.append(self.instance_id.as_str());
                    line.append(": ");
                    line.append(error.to_string().as_str());
                    PollStep { log: one_line(line), action: PollAction::StartOver }
                },
            },
            PollEvent::Notified(results) => PollStep {
                log: self.notified(&results),
                action: PollAction::Stop,
            },
        }
    }

    fn checked(&self, instance: Instance) -> (step: PollStep)
        ensures
            follows(*self, PollEvent::Checked(Ok(instance)), step),
    {
        let status = text_or(&instance.status, "unknown");
        if same_text(status, "terminated") || same_text(status, "unhealthy") {
            let mut line = "[notify] Instance ".to_owned();
            line.append(self.instance_id.as_str());
            line.append(" entered ");
            line.append(status);
            line.append(" state, stopping notifications");
            PollStep { log: one_line(line), action: PollAction::Stop }
        } else {
            match &instance.ip {
                Some(ip) => {
                    let instance_name = match &self.instance_name {
                        Some(name) => Some(name.clone()),
                        None => None,
                    };
                    let message = InstanceReadyMessage {
                        instance_id: self.instance_id.clone(),
                        instance_name,
                        ip: ip.clone(),
                        gpu_type: self.gpu_type.clone(),
                        region: self.region.clone(),
                    };
                    PollStep { log: Vec::new(), action: PollAction::Notify(message) }
                },
                None => PollStep { log: Vec::new(), action: PollAction::StartOver },
            }
        }
    }

    fn notified(&self, results: &Vec<(String, Option<String>)>) -> (log: Vec<String>)
        ensures
            texts(log@) == channel_lines(self.instance_id@, results@),
    {
        let mut log: Vec<String> = Vec::new();
        let mut at: usize = 0;
        while at < results.len()
            invariant
                at <= results.len(),
                log.len() == at,
                forall|i: int|
                    0 <= i < at ==> (#[trigger] log@[i])@ == channel_lines(
                        self.instance_id@,
                        results@,
                    )[i],
            decreases results.len() - at,
        {
            let mut line = "[notify] ".to_owned();
            line.append(results[at].0.as_str());
            match &results[at].1 {
                None => {
                    line.append(" notification sent for ");
                    line.append(self.instance_id.as_str());
                },
                Some(reason) => {
                    line.append(" notification failed: ");
                    line.append(reason.as_str());
                },
            }
            assert(line@ == channel_lines(self.instance_id@, results@)[at as int]);
            log.push(line);
            at = at + 1;
        }
        assert(texts(log@) =~= channel_lines(self.instance_id@, results@));
        log
    }
}

/// A notification is sent exactly when a check finds an instance with an address
/// that is neither terminated nor unhealthy, whatever else its status is.
pub proof fn notifies_when_reachable(watch: Watch, event: PollEvent, step: PollStep)
    requires
        follows(watch, event, step),
    ensures
        step.action is Notify <==> (event matches PollEvent::Checked(Ok(instance)) && !lost(instance)
            && instance.ip is Some),
{
}

/// A check that fails does not end the wait.
pub proof fn failed_check_is_survived(watch: Watch, event: PollEvent, step: PollStep)
    requires
        follows(watch, event, step),
        event matches PollEvent::Checked(Err(_)),
    ensures
        step.action is StartOver,
{
}

/// The event is one that comes of the action.
pub open spec fn comes_of(event: PollEvent, action: PollAction) -> bool {
    match action {
        PollAction::SleepAndCheck(_) => event is Checked,
        PollAction::StartOver => event is Elapsed,
        PollAction::Notify(_) => event is Notified,
        PollAction::Stop => false,
    }
}

/// The events and steps of a wait, from its first look at the clock on: each step
/// follows its event, and each event comes of the action before it.
pub open spec fn is_wait(watch: Watch, run: Seq<(PollEvent, PollStep)>) -> bool {
    &&& run.len() > 0 ==> run[0].0 is Elapsed
    &&& forall|i: int| 0 <= i < run.len() ==> follows(watch, (#[trigger] run[i]).0, run[i].1)
    &&& forall|i: int, j: int|
        0 <= i && j == i + 1 && j < run.len() ==> comes_of(
            (#[trigger] run[j]).0,
            (#[trigger] run[i]).1.action,
        )
}

/// The event is a check that found the instance lost.
pub open spec fn finds_lost(event: PollEvent) -> bool {
    event matches PollEvent::Checked(Ok(instance)) && lost(instance)
}

/// A wait sends at most one notification, and none where any of its checks found the
/// instance lost. After either the instance is not checked again.
pub proof fn wait_notifies_at_most_once(watch: Watch, run: Seq<(PollEvent, PollStep)>)
    requires
        is_wait(watch, run),
    ensures
        forall|i: int, j: int|
            0 <= i < j < run.len() ==> !((#[trigger] run[i]).1.action is Notify && (
            #[trigger] run[j]).1.action is Notify),
        forall|i: int, j: int|
            0 <= i < run.len() && 0 <= j < run.len() && finds_lost((#[trigger] run[i]).0) ==> (
            #[trigger] run[j]).1.action !is Notify,
        forall|i: int, j: int|
            0 <= i < j < run.len() && ((#[trigger] run[i]).1.action is Notify || finds_lost(
                run[i].0,
            )) ==> (#[trigger] run[j]).0 !is Checked,
{
    assert forall|i: int| 0 <= i < run.len() && (#[trigger] run[i]).1.action is Notify implies
        run.len() <= i + 2 && (i + 1 < run.len() ==> run[i + 1].0 is Notified) by {
        notify_is_nearly_last(watch, run, i);
    }
    assert forall|i: int| 0 <= i < run.len() && finds_lost((#[trigger] run[i]).0) implies run.len()
        == i + 1 by {
        stop_is_last(watch, run, i);
    }
}

/// The instance is only checked right after the clock showed that the wait may go on.
pub proof fn checks_are_in_time(watch: Watch, run: Seq<(PollEvent, PollStep)>, i: int)
    requires
        is_wait(watch, run),
        0 <= i < run.len(),
        run[i].0 is Checked,
    ensures
        i > 0,
        run[i - 1].0 matches PollEvent::Elapsed { secs, nanos } && !overdue(secs, nanos),
{
    assert(comes_of(run[i].0, run[i - 1].1.action));
    assert(follows(watch, run[i - 1].0, run[i - 1].1));
}

proof fn stop_is_last(watch: Watch, run: Seq<(PollEvent, PollStep)>, i: int)
    requires
        is_wait(watch, run),
        0 <= i < run.len(),
        run[i].1.action is Stop || finds_lost(run[i].0),
    ensures
        run.len() == i + 1,
{
    assert(follows(watch, run[i].0, run[i].1));
    if i + 1 < run.len() {
        assert(comes_of(run[i + 1].0, run[i].1.action));
    }
}

proof fn notify_is_nearly_last(watch: Watch, run: Seq<(PollEvent, PollStep)>, i: int)
    requires
        is_wait(watch, run),
        0 <= i < run.len(),
        run[i].1.action is Notify,
    ensures
        run.len() <= i + 2,
        i + 1 < run.len() ==> run[i + 1].0 is Notified,
{
    if i + 1 < run.len() {
        assert(comes_of(run[i + 1].0, run[i].1.action));
        assert(follows(watch, run[i + 1].0, run[i + 1].1));
        stop_is_last(watch, run, i + 1);
    }
}

/// A moment since the wait began, in nanoseconds.
pub open spec fn moment(secs: u64, nanos: u32) -> int {
    secs as int * 1_000_000_000 + nanos as int
}

/// The moment of a look at the clock.
pub open spec fn looked_at(event: PollEvent) -> int
    recommends
        event is Elapsed,
{
    moment(event->secs, event->nanos)
}

/// The clock goes on in a wait: a later look at it comes at least one poll interval
/// after an earlier one.
pub open spec fn clock_goes_on(run: Seq<(PollEvent, PollStep)>) -> bool {
    &&& forall|i: int|
        0 <= i < run.len() && (#[trigger] run[i]).0 is Elapsed ==> run[i].0->nanos < 1_000_000_000
    &&& forall|i: int, j: int|
        0 <= i < j < run.len() && (#[trigger] run[i]).0 is Elapsed && (#[trigger] run[j]).0
            is Elapsed ==> looked_at(run[j].0) >= looked_at(run[i].0) + POLL_INTERVAL_SECS
            * 1_000_000_000
}

/// The checks of a wait.
pub open spec fn checks(run: Seq<(PollEvent, PollStep)>) -> Seq<(PollEvent, PollStep)> {
    run.filter(|pair: (PollEvent, PollStep)| pair.0 is Checked)
}

/// A wait ends: where the clock goes on, it has at most 123 events, and at most 61 of
/// them are checks of the instance.
pub proof fn wait_is_bounded(watch: Watch, run: Seq<(PollEvent, PollStep)>)
    requires
        is_wait(watch, run),
        clock_goes_on(run),
    ensures
        run.len() <= 123,
        checks(run).len() <= 61,
{
    if run.len() > 123 {
        events_alternate(watch, run, 123);
        assert(run[123].0 is Checked);
        checks_are_in_time(watch, run, 123);
        clock_advances(watch, run, 61);
    }
    checks_are_every_other(watch, run, run.len() as int);
    assert(run.take(run.len() as int) =~= run);
}

/// A wait looks at the clock at every even place, unless it has notified, and checks
/// the instance at every odd one.
proof fn events_alternate(watch: Watch, run: Seq<(PollEvent, PollStep)>, i: int)
    requires
        is_wait(watch, run),
        0 <= i < run.len(),
    ensures
        i % 2 == 1 ==> run[i].0 is Checked,
        i % 2 == 0 ==> run[i].0 is Elapsed || (run[i].0 is Notified && run.len() == i + 1),
    decreases i,
{
    assert(follows(watch, run[i].0, run[i].1));
    if i > 0 {
        events_alternate(watch, run, i - 1);
        assert(follows(watch, run[i - 1].0, run[i - 1].1));
        assert(comes_of(run[i].0, run[i - 1].1.action));
        if run[i].0 is Notified {
            stop_is_last(watch, run, i);
        }
    }
}

proof fn clock_advances(watch: Watch, run: Seq<(PollEvent, PollStep)>, k: int)
    requires
        is_wait(watch, run),
        clock_goes_on(run),
        0 <= k,
        2 * k + 1 < run.len(),
    ensures
        run[2 * k].0 is Elapsed,
        looked_at(run[2 * k].0) >= k * 10_000_000_000,
    decreases k,
{
    events_alternate(watch, run, 2 * k);
    if k > 0 {
        clock_advances(watch, run, k - 1);
        let (i, j) = (2 * (k - 1), 2 * k);
        assert(run[i].0 is Elapsed && run[j].0 is Elapsed);
        assert(looked_at(run[j].0) >= looked_at(run[i].0) + 10_000_000_000);
    }
}

proof fn checks_are_every_other(watch: Watch, run: Seq<(PollEvent, PollStep)>, n: int)
    requires
        is_wait(watch, run),
        0 <= n <= run.len(),
    ensures
        checks(run.take(n)).len() <= n / 2,
    decreases n,
{
    reveal(Seq::filter);
    if n > 0 {
        checks_are_every_other(watch, run, n - 1);
        events_alternate(watch, run, n - 1);
        assert(run.take(n).drop_last() =~= run.take(n - 1));
        assert(run.take(n).last() == run[n - 1]);
    }
}

/// What the clock says decides whether the wait goes on: up to ten minutes it sleeps for
/// ten seconds and checks, and beyond them it stops and reports so.
pub proof fn clock_decides(watch: Watch, secs: u64, nanos: u32, step: PollStep)
    requires
        follows(watch, PollEvent::Elapsed { secs, nanos }, step),
        nanos < 1_000_000_000,
    ensures
        secs * 1_000_000_000 + nanos <= 600_000_000_000 ==> step.action
            == PollAction::SleepAndCheck(10) && step.log@.len() == 0,
        secs * 1_000_000_000 + nanos > 600_000_000_000 ==> {
            &&& step.action is Stop
            &&& step.log@.len() == 1
            &&& step.log@[0]@ == "[notify] Timeout waiting for instance "@ + watch.instance_id@
                + " to become active"@
        },
{
    if step.log@.len() > 0 {
        assert(texts(step.log@)[0] == step.log@[0]@);
    }
    assert(texts(step.log@).len() == step.log@.len());
}

/// What a check finds decides what is done: a terminated or unhealthy instance ends the
/// wait with a report, one with an address is told of with that address and with what is
/// known of the launch, and one without is waited for further, as is one that could not be
/// checked, which is reported.
pub proof fn check_decides(
    watch: Watch,
    checked: Result<Instance, ClientError>,
    step: PollStep,
)
    requires
        follows(watch, PollEvent::Checked(checked), step),
    ensures
        checked matches Ok(instance) ==> {
            let ended = instance.status is Some && (instance.status->0@ == "terminated"@
                || instance.status->0@ == "unhealthy"@);
            &&& ended ==> {
                &&& step.action is Stop
                &&& step.log@.len() == 1
                &&& step.log@[0]@ == "[notify] Instance "@ + watch.instance_id@ + " entered "@
                    + instance.status->0@ + " state, stopping notifications"@
            }
            &&& !ended ==> step.log@.len() == 0
            &&& !ended && instance.ip is None ==> step.action is StartOver
            &&& !ended && instance.ip is Some ==> {
                let message = step.action->Notify_0;
                &&& step.action is Notify
                &&& message.ip@ == instance.ip->0@
                &&& message.instance_id@ == watch.instance_id@
                &&& message.gpu_type@ == watch.gpu_type@
                &&& message.region@ == watch.region@
                &&& message.instance_name is Some <==> watch.instance_name is Some
                &&& watch.instance_name is Some ==> message.instance_name->0@
                    == watch.instance_name->0@
            }
        },
        checked matches Err(error) ==> {
            &&& step.action is StartOver
            &&& step.log@.len() == 1
            &&& step.log@[0]@ == "[notify] Error checking instance "@ + watch.instance_id@ + ": "@
                + wording(error@)
        },
{
    reveal_strlit("unknown");
    reveal_strlit("terminated");
    reveal_strlit("unhealthy");
    assert("unknown"@.len() == 7 && "terminated"@.len() == 10 && "unhealthy"@.len() == 9);
    if step.log@.len() > 0 {
        assert(texts(step.log@)[0] == step.log@[0]@);
    }
    assert(texts(step.log@).len() == step.log@.len());
}

/// After the notification every channel is reported, in order and each once: that it was
/// sent, or why it failed. Then the wait ends.
pub proof fn every_channel_is_reported(
    watch: Watch,
    results: Vec<(String, Option<String>)>,
    step: PollStep,
)
    requires
        follows(watch, PollEvent::Notified(results), step),
    ensures
        step.action is Stop,
        step.log@.len() == results@.len(),
        forall|i: int|
            0 <= i < results@.len() ==> (#[trigger] step.log@[i])@ == match results@[i].1 {
                None => "[notify] "@ + results@[i].0@ + " notification sent for "@
                    + watch.instance_id@,
                Some(reason) => "[notify] "@ + results@[i].0@ + " notification failed: "@
                    + reason@,
            },
{
    let lines = channel_lines(watch.instance_id@, results@);
    assert(texts(step.log@).len() == step.log@.len());
    assert forall|i: int| 0 <= i < results@.len() implies (#[trigger] step.log@[i])@ == lines[i] by {
        assert(texts(step.log@)[i] == step.log@[i]@);
    }
}

} // verus!
