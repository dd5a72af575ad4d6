//! Waiting for the gateway to reach a state.
use crate::commands::OPENCLAW_GATEWAY_PORT;
use crate::status;
use crate::status::{gateway_url, OpenClawStatus, GATEWAY_HOST};
use vstd::prelude::*;
use vstd::string::*;

verus! {

/// How long to wait between two looks at the gateway, in milliseconds.
pub const WAIT_PAUSE_MILLIS: u64 = 250;

/// How often to look for a gateway that was started.
pub const READY_ATTEMPTS: usize = 60;

/// How often to look for a gateway that was stopped.
pub const STOPPED_ATTEMPTS: usize = 40;

/// Whether the gateway is ready: its process runs and its port is open.
pub fn is_ready(status: &OpenClawStatus) -> (ready: bool)
    ensures
        ready == (status.process_running && status.port_open),
{
    status.process_running && status.port_open
}

/// Whether the gateway is stopped: neither does its process run nor is its port
/// open.
pub fn is_stopped(status: &OpenClawStatus) -> (stopped: bool)
    ensures
        stopped == (!status.process_running && !status.port_open),
{
    !status.process_running && !status.port_open
}

/// Whether a predicate can say this of a status.
pub open spec fn judged<F: Fn(&OpenClawStatus) -> bool>(
    predicate: F,
    status: OpenClawStatus,
    verdict: bool,
) -> bool {
    call_ensures(predicate, (&status,), verdict)
}

/// What is to be done next. `left` says how many looks are left.
pub enum WaitStep {
    /// Look at the gateway: there is a look left.
    Look { left: usize },
    /// Wait for [`WAIT_PAUSE_MILLIS`]; `last` is what the last look found.
    Pause { left: usize, last: OpenClawStatus },
    /// Nothing: the status that was waited for, or why there is none.
    Done(Result<OpenClawStatus, String>),
}

/// What came of a step.
pub enum WaitReply {
    /// The gateway's status, or why there is none.
    Looked(Result<OpenClawStatus, String>),
    /// The pause is over.
    Paused,
}

/// What is said when a wait ends without a status to speak of.
pub open spec fn timed_out() -> Seq<char> {
    "Timed out while waiting for OpenClaw state reconciliation."@
}

/// Why a wait ended in vain: what the last status says, if it says anything.
pub open spec fn reason(last: OpenClawStatus) -> Seq<char> {
    match last.message {
        Some(message) => message@,
        None => timed_out(),
    }
}

/// Whether a step is the first of a wait with the given number of looks.
pub open spec fn begins_wait(attempts: usize, step: WaitStep) -> bool {
    if attempts == 0 {
        step matches WaitStep::Done(Err(e)) && e@ == timed_out()
    } else {
        step == (WaitStep::Look { left: attempts })
    }
}

/// Whether a reply answers a step.
pub open spec fn wait_answers(step: WaitStep, reply: WaitReply) -> bool {
    match step {
        WaitStep::Look { .. } => reply is Looked,
        WaitStep::Pause { .. } => reply is Paused,
        WaitStep::Done(_) => false,
    }
}

/// Whether `next` is the step that follows while waiting for a status that the
/// predicate holds of. A reply that does not answer the step changes nothing.
pub open spec fn wait_follows<F: Fn(&OpenClawStatus) -> bool>(
    predicate: F,
    step: WaitStep,
    reply: WaitReply,
    next: WaitStep,
) -> bool {
    match (step, reply) {
        (WaitStep::Look { .. }, WaitReply::Looked(Err(error))) => {
            next == WaitStep::Done(Err(error))
        },
        (WaitStep::Look { left }, WaitReply::Looked(Ok(found))) => {
            ||| judged(predicate, found, true) && next == WaitStep::Done(Ok(found))
            ||| judged(predicate, found, false) && (next matches WaitStep::Pause { left: l, last }
                && last == found && l == (if left > 0 { left - 1 } else { 0 }))
        },
        (WaitStep::Pause { left, last }, WaitReply::Paused) => {
            if left > 0 {
                next == (WaitStep::Look { left })
            } else {
                next matches WaitStep::Done(Err(e)) && e@ == reason(last)
            }
        },
        _ => next == step,
    }
}

/// Begins to wait for a state, with the given number of looks at the gateway.
pub fn begin_wait(max_attempts: usize) -> (step: WaitStep)
    ensures
        begins_wait(max_attempts, step),
{
    if max_attempts == 0 {
        WaitStep::Done(
            Err("Timed out while waiting for OpenClaw state reconciliation.".to_owned()),
        )
    } else {
        WaitStep::Look { left: max_attempts }
    }
}

/// Decides what is to be done next while waiting for a state of the gateway: one
/// that the predicate holds of.
pub fn wait_for_openclaw_status<F: Fn(&OpenClawStatus) -> bool>(
    predicate: F,
    step: WaitStep,
    reply: WaitReply,
) -> (next: WaitStep)
    requires
        forall|status: &OpenClawStatus| call_requires(predicate, (status,)),
    ensures
        wait_follows(predicate, step, reply, next),
{
    match (step, reply) {
        (WaitStep::Look { left }, WaitReply::Looked(found)) => match found {
            Err(error) => WaitStep::Done(Err(error)),
            Ok(found) => if predicate(&found) {
                WaitStep::Done(Ok(found))
            } else {
                let left: usize = if left > 0 {
                    left - 1
                } else {
                    0
                };
                WaitStep::Pause { left, last: found }
            },
        },
        (WaitStep::Pause { left, last }, WaitReply::Paused) => if left > 0 {
            WaitStep::Look { left }
        } else {
            match last.message {
                Some(message) => WaitStep::Done(Err(message)),
                None => WaitStep::Done(
                    Err("Timed out while waiting for OpenClaw state reconciliation.".to_owned()),
                ),
            }
        },
        (step, _) => step,
    }
}

/// The URL to announce once the gateway is ready: the one that its status
/// names, or else the usual one.
pub fn ready_url(found: &OpenClawStatus) -> (url: String)
    ensures
        url@ == (match found.gateway_url {
            Some(u) => u@,
            None => status::url_of(GATEWAY_HOST@, OPENCLAW_GATEWAY_PORT),
        }),
{
    match &found.gateway_url {
        Some(url) => url.clone(),
        None => gateway_url(GATEWAY_HOST, OPENCLAW_GATEWAY_PORT),
    }
}

/// Whether a series of steps and replies is a wait: it begins at the beginning,
/// and each step follows from the one before and the reply to it.
pub open spec fn is_wait<F: Fn(&OpenClawStatus) -> bool>(
    predicate: F,
    attempts: usize,
    steps: Seq<WaitStep>,
    replies: Seq<WaitReply>,
) -> bool {
    &&& steps.len() == replies.len() + 1
    &&& begins_wait(attempts, steps[0])
    &&& forall|i: int|
        0 <= i < replies.len() ==> wait_follows(predicate, steps[i], #[trigger] replies[i], steps[i + 1])
}

/// Whether a look at the gateway, the one that `steps[i]` asks for, found the
/// given status.
pub open spec fn looked_at(
    steps: Seq<WaitStep>,
    replies: Seq<WaitReply>,
    i: int,
    found: OpenClawStatus,
) -> bool {
    &&& 0 <= i < replies.len()
    &&& steps[i] is Look
    &&& replies[i] == WaitReply::Looked(Ok(found))
}

/// Whether the look that `steps[i]` asks for found the given status, and is the
/// last one among the first `n` replies.
pub open spec fn last_looked_at(
    steps: Seq<WaitStep>,
    replies: Seq<WaitReply>,
    n: int,
    i: int,
    found: OpenClawStatus,
) -> bool {
    &&& i < n
    &&& looked_at(steps, replies, i, found)
    &&& forall|j: int| i < j < n ==> !(#[trigger] steps[j] is Look && replies[j] is Looked)
}

/// Whether the look that `steps[i]` asks for, among the first `n`, failed with
/// the given error.
pub open spec fn look_failed(
    steps: Seq<WaitStep>,
    replies: Seq<WaitReply>,
    n: int,
    i: int,
    error: String,
) -> bool {
    &&& 0 <= i < n
    &&& steps[i] is Look
    &&& replies[i] == WaitReply::Looked(Err(error))
}

/// Whether the first `n` replies account for a wait that gave up with the given
/// error for want of looks: all looks are used, and the error is what the last
/// status says, or the usual text where there was no look to use.
pub open spec fn gave_up(
    attempts: usize,
    steps: Seq<WaitStep>,
    replies: Seq<WaitReply>,
    n: int,
    error: Seq<char>,
) -> bool {
    &&& looks(steps, replies, n) == attempts
    &&& if attempts == 0 {
        error == timed_out()
    } else {
        exists|i: int, last: OpenClawStatus|
            last_looked_at(steps, replies, n, i, last) && error == reason(last)
    }
}

/// How many of the first `n` replies were looks that were asked for.
pub open spec fn looks(steps: Seq<WaitStep>, replies: Seq<WaitReply>, n: int) -> nat
    decreases n,
{
    if n <= 0 {
        0
    } else if steps[n - 1] is Look && replies[n - 1] is Looked {
        looks(steps, replies, n - 1) + 1
    } else {
        looks(steps, replies, n - 1)
    }
}

/// What holds of every step of a wait.
proof fn lemma_wait<F: Fn(&OpenClawStatus) -> bool>(
    predicate: F,
    attempts: usize,
    steps: Seq<WaitStep>,
    replies: Seq<WaitReply>,
    n: int,
)
    requires
        is_wait(predicate, attempts, steps, replies),
        0 <= n <= replies.len(),
    ensures
        looks(steps, replies, n) <= attempts,
        match steps[n] {
            WaitStep::Look { left } => {
                &&& left > 0
                &&& looks(steps, replies, n) + left == attempts
            },
            WaitStep::Pause { left, last } => {
                &&& looks(steps, replies, n) + left == attempts
                &&& attempts > 0
                &&& judged(predicate, last, false)
                &&& exists|i: int| last_looked_at(steps, replies, n, i, last)
            },
            WaitStep::Done(Ok(found)) => {
                &&& judged(predicate, found, true)
                &&& exists|i: int| i < n && looked_at(steps, replies, i, found)
            },
            WaitStep::Done(Err(e)) => {
                ||| exists|i: int| look_failed(steps, replies, n, i, e)
                ||| gave_up(attempts, steps, replies, n, e@)
            },
        },
        !(steps[n] is Done && steps[n]->Done_0 is Ok) ==> forall|i: int, found: OpenClawStatus|
            i < n && looked_at(steps, replies, i, found) ==> judged(predicate, found, false),
    decreases n,
{
    if n > 0 {
        lemma_wait(predicate, attempts, steps, replies, n - 1);
        let m = n - 1;
        let before = steps[m];
        let reply = replies[m];
        assert(wait_follows(predicate, before, reply, steps[n]));
        match steps[n] {
            WaitStep::Pause { last, .. } => {
                if before is Look {
                    assert(last_looked_at(steps, replies, n, n - 1, last));
                } else {
                    let i = choose|i: int| last_looked_at(steps, replies, m, i, last);
                    assert(last_looked_at(steps, replies, n, i, last));
                }
            },
            WaitStep::Done(Ok(found)) => {
                if before is Look {
                    assert(looked_at(steps, replies, n - 1, found));
                } else {
                    let i = choose|i: int| i < n - 1 && looked_at(steps, replies, i, found);
                    assert(looked_at(steps, replies, i, found));
                }
            },
            WaitStep::Done(Err(e)) => {
                match before {
                    WaitStep::Look { .. } => {
                        assert(look_failed(steps, replies, n, n - 1, e));
                    },
                    WaitStep::Pause { last, .. } => {
                        let i = choose|i: int| last_looked_at(steps, replies, m, i, last);
                        assert(last_looked_at(steps, replies, n, i, last));
                        assert(gave_up(attempts, steps, replies, n, e@));
                    },
                    WaitStep::Done(_) => {
                        lemma_end_stays(attempts, steps, replies, m, n, e);
                    },
                }
            },
            WaitStep::Look { .. } => {},
        }
    }
}

/// What accounts for the end of a wait still does after another reply.
proof fn lemma_end_stays(
    attempts: usize,
    steps: Seq<WaitStep>,
    replies: Seq<WaitReply>,
    m: int,
    n: int,
    error: String,
)
    requires
        n == m + 1,
        steps[m] is Done,
        (exists|i: int| look_failed(steps, replies, m, i, error)) || gave_up(
            attempts,
            steps,
            replies,
            m,
            error@,
        ),
    ensures
        (exists|i: int| look_failed(steps, replies, n, i, error)) || gave_up(
            attempts,
            steps,
            replies,
            n,
            error@,
        ),
{
    if exists|i: int| look_failed(steps, replies, m, i, error) {
        let i = choose|i: int| look_failed(steps, replies, m, i, error);
        assert(look_failed(steps, replies, n, i, error));
    } else if attempts > 0 {
        let (i, last) = choose|i: int, last: OpenClawStatus|
            last_looked_at(steps, replies, m, i, last) && error@ == reason(last);
        assert(last_looked_at(steps, replies, n, i, last));
    }
}

/// A wait that succeeds hands back a status that was found and that the predicate
/// held of.
pub proof fn law_wait_ends_with_what_was_waited_for<F: Fn(&OpenClawStatus) -> bool>(
    predicate: F,
    attempts: usize,
    steps: Seq<WaitStep>,
    replies: Seq<WaitReply>,
)
    requires
        is_wait(predicate, attempts, steps, replies),
    ensures
        steps.last() matches WaitStep::Done(Ok(found)) ==> judged(predicate, found, true) && exists|i: int|
            looked_at(steps, replies, i, found),
{
    lemma_wait(predicate, attempts, steps, replies, replies.len() as int);
}

/// A wait for the gateway to be ready that succeeds hands back a status with a
/// running process and an open port.
pub proof fn law_ready_wait_finds_gateway_ready(
    attempts: usize,
    steps: Seq<WaitStep>,
    replies: Seq<WaitReply>,
)
    requires
        is_wait(is_ready, attempts, steps, replies),
    ensures
        steps.last() matches WaitStep::Done(Ok(found)) ==> found.process_running
            && found.port_open,
{
    law_wait_ends_with_what_was_waited_for(is_ready, attempts, steps, replies);
}

/// A wait for the gateway to be stopped that succeeds hands back a status with
/// neither a running process nor an open port.
pub proof fn law_stopped_wait_finds_gateway_gone(
    attempts: usize,
    steps: Seq<WaitStep>,
    replies: Seq<WaitReply>,
)
    requires
        is_wait(is_stopped, attempts, steps, replies),
    ensures
        steps.last() matches WaitStep::Done(Ok(found)) ==> !found.process_running
            && !found.port_open,
{
    law_wait_ends_with_what_was_waited_for(is_stopped, attempts, steps, replies);
}

/// The first status that the predicate must hold of ends a wait: a wait that has
/// not succeeded has not seen one.
pub proof fn law_wait_stops_at_first_match<F: Fn(&OpenClawStatus) -> bool>(
    predicate: F,
    attempts: usize,
    steps: Seq<WaitStep>,
    replies: Seq<WaitReply>,
    i: int,
    found: OpenClawStatus,
)
    requires
        is_wait(predicate, attempts, steps, replies),
        looked_at(steps, replies, i, found),
        !judged(predicate, found, false),
    ensures
        steps[i + 1] == WaitStep::Done(Ok(found)),
        steps.last() == WaitStep::Done(Ok(found)),
{
    lemma_wait(predicate, attempts, steps, replies, i);
    assert(wait_follows(predicate, steps[i], replies[i], steps[i + 1]));
    lemma_done_stays(predicate, attempts, steps, replies, i + 1, replies.len() as int);
}

/// A wait that is done stays done.
proof fn lemma_done_stays<F: Fn(&OpenClawStatus) -> bool>(
    predicate: F,
    attempts: usize,
    steps: Seq<WaitStep>,
    replies: Seq<WaitReply>,
    from: int,
    to: int,
)
    requires
        is_wait(predicate, attempts, steps, replies),
        0 <= from <= to <= replies.len(),
        steps[from] is Done,
    ensures
        steps[to] == steps[from],
    decreases to - from,
{
    if from < to {
        lemma_done_stays(predicate, attempts, steps, replies, from, to - 1);
        assert(wait_follows(predicate, steps[to - 1], replies[to - 1], steps[to]));
    }
}

/// A wait never looks at the gateway more often than it may. It fails either
/// because a look did, with that look's error, or for want of looks, once it has
/// used them all; then the error is what the last status says, if it says
/// anything.
pub proof fn law_wait_is_bounded<F: Fn(&OpenClawStatus) -> bool>(
    predicate: F,
    attempts: usize,
    steps: Seq<WaitStep>,
    replies: Seq<WaitReply>,
)
    requires
        is_wait(predicate, attempts, steps, replies),
    ensures
        looks(steps, replies, replies.len() as int) <= attempts,
        steps.last() matches WaitStep::Look { left, .. } ==> looks(
            steps,
            replies,
            replies.len() as int,
        ) + left == attempts,
        steps.last() matches WaitStep::Pause { left, .. } ==> looks(
            steps,
            replies,
            replies.len() as int,
        ) + left == attempts,
        steps.last() matches WaitStep::Done(Err(e)) ==> (exists|i: int|
            look_failed(steps, replies, replies.len() as int, i, e)) || gave_up(
            attempts,
            steps,
            replies,
            replies.len() as int,
            e@,
        ),
{
    lemma_wait(predicate, attempts, steps, replies, replies.len() as int);
}

/// How many replies a wait still takes at most.
pub open spec fn wait_replies_left(step: WaitStep) -> nat {
    match step {
        WaitStep::Look { left, .. } => 2 * left as nat,
        WaitStep::Pause { left, .. } => 2 * left as nat + 1,
        WaitStep::Done(_) => 0,
    }
}

/// A wait comes to an end: each reply that answers a step brings it closer.
pub proof fn law_wait_ends<F: Fn(&OpenClawStatus) -> bool>(
    predicate: F,
    attempts: usize,
    steps: Seq<WaitStep>,
    replies: Seq<WaitReply>,
    i: int,
)
    requires
        is_wait(predicate, attempts, steps, replies),
        0 <= i < replies.len(),
        wait_answers(steps[i], replies[i]),
    ensures
        wait_replies_left(steps[i + 1]) < wait_replies_left(steps[i]),
        wait_replies_left(steps[0]) == 2 * attempts,
{
    lemma_wait(predicate, attempts, steps, replies, i);
    assert(wait_follows(predicate, steps[i], replies[i], steps[i + 1]));
}

/// What follows a step of a wait, whatever the predicate, as long as it judges a
/// status always alike. A status that it holds of ends the wait with that status;
/// after any other there is a pause, with one look less. After a pause comes
/// another look while there is one left; else the wait fails with what the last
/// status says, or for want of that with the usual words. A look that fails ends
/// the wait with its error. Nothing else changes anything.
pub proof fn law_wait_goes_by_the_predicate<F: Fn(&OpenClawStatus) -> bool>(
    predicate: F,
    wanted: spec_fn(OpenClawStatus) -> bool,
    step: WaitStep,
    reply: WaitReply,
    next: WaitStep,
)
    requires
        forall|status: &OpenClawStatus, verdict: bool| #[trigger]
            call_ensures(predicate, (status,), verdict) ==> verdict == wanted(*status),
        call_ensures(wait_for_openclaw_status::<F>, (predicate, step, reply), next),
    ensures
        step is Look && reply is Looked && reply->Looked_0 is Err ==> next == WaitStep::Done(
            Err(reply->Looked_0->Err_0),
        ),
        step is Look && reply is Looked && reply->Looked_0 is Ok ==> {
            let found = reply->Looked_0->Ok_0;
            if wanted(found) {
                next == WaitStep::Done(Ok(found))
            } else {
                &&& next is Pause
                &&& next->last == found
                &&& step->Look_left > 0 ==> next->Pause_left == step->Look_left - 1
                &&& step->Look_left == 0 ==> next->Pause_left == 0
            }
        },
        step is Pause && reply is Paused && step->Pause_left > 0 ==> next is Look
            && next->Look_left == step->Pause_left,
        step is Pause && reply is Paused && step->Pause_left == 0 ==> {
            &&& next matches WaitStep::Done(Err(e)) && e@ == (match step->last.message {
                Some(message) => message@,
                None => "Timed out while waiting for OpenClaw state reconciliation."@,
            })
        },
        step is Look && !(reply is Looked) ==> next == step,
        step is Pause && !(reply is Paused) ==> next == step,
        step is Done ==> next == step,
{
}

/// A wait begins with a look, and has as many as it was given; with none it
/// fails at once.
pub proof fn law_wait_begins_with_a_look(attempts: usize, step: WaitStep)
    requires
        call_ensures(begin_wait, (attempts,), step),
    ensures
        attempts > 0 ==> step is Look && step->Look_left == attempts,
        attempts == 0 ==> (step matches WaitStep::Done(Err(e)) && e@
            == "Timed out while waiting for OpenClaw state reconciliation."@),
{
}

/// The gateway is ready if its process runs and its port is open, and stopped if
/// neither is so; else it is neither.
pub proof fn law_states_by_process_and_port(status: &OpenClawStatus, ready: bool, stopped: bool)
    requires
        call_ensures(is_ready, (status,), ready),
        call_ensures(is_stopped, (status,), stopped),
    ensures
        ready <==> status.process_running && status.port_open,
        stopped <==> !status.process_running && !status.port_open,
        !(ready && stopped),
{
}

/// A gateway is given fifteen seconds to become ready and ten to be gone, with a
/// look every quarter of a second.
pub proof fn law_wait_limits()
    ensures
        WAIT_PAUSE_MILLIS == 250,
        READY_ATTEMPTS == 60,
        STOPPED_ATTEMPTS == 40,
        READY_ATTEMPTS * WAIT_PAUSE_MILLIS == 15_000,
        STOPPED_ATTEMPTS * WAIT_PAUSE_MILLIS == 10_000,
{
}

/// The URL that is announced is the one that the status names, and that of this
/// machine where it names none.
pub proof fn law_ready_url_is_that_of_the_status(found: &OpenClawStatus, url: String)
    requires
        call_ensures(ready_url, (found,), url),
    ensures
        found.gateway_url matches Some(u) ==> url@ == u@,
        found.gateway_url is None ==> url@ == "http://127.0.0.1:18789/"@,
{
    status::lemma_gateway_texts();
}

} // verus!
