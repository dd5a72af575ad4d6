//! Starting and stopping the gateway.
//!
//! The gateway is an ordinary process: it is run in the foreground, its process
//! is recorded, and it is stopped by ending that process and whatever else holds
//! its port.
use crate::commands::OPENCLAW_GATEWAY_PORT;
use crate::pid::set_gateway_pid;
use crate::status;
use crate::status::{gateway_url, GATEWAY_HOST};
use crate::text;
use crate::text::trim;
use vstd::prelude::*;
use vstd::string::*;

verus! {

/// How long a stopped gateway is given to let go of its port, in milliseconds.
pub const SETTLE_MILLIS: u64 = 500;

/// The event that announces that the gateway is ready.
pub const GATEWAY_READY_EVENT: &'static str = "openclaw-gateway-ready";

/// What a launch reports.
pub struct OpenClawLaunchResult {
    pub gateway_url: String,
}

/// The model that a launch is to inject, if any: a blank name is none.
pub open spec fn model_to_inject(model: Option<String>) -> Option<String> {
    match model {
        Some(name) => if text::trimmed(name@).len() == 0 {
            None
        } else {
            model
        },
        None => None,
    }
}

/// The model that a launch is to inject, if any: a blank name is none.
pub fn injected_model(model: Option<String>) -> (injected: Option<String>)
    ensures
        injected == model_to_inject(model),
{
    match model {
        Some(name) => if trim(name.as_str()).as_str().is_empty() {
            None
        } else {
            Some(name)
        },
        None => None,
    }
}

/// What is to be done next to launch the gateway.
pub enum LaunchStep {
    /// Find OpenClaw. `model` is the model that was asked for.
    FindBinary { model: Option<String> },
    /// Enter the model in the configuration.
    WriteConfig { bin: String, model: String },
    /// Stop the gateway that may be running; whether that succeeds is no matter.
    StopGateway { bin: String, inject_local_model: bool },
    /// Wait for [`SETTLE_MILLIS`].
    Settle { bin: String, inject_local_model: bool },
    /// Start the gateway's process and record it.
    Spawn { bin: String, inject_local_model: bool },
    /// Begin to wait, in the background, for the gateway to become ready.
    Watch,
    /// Nothing: this is what the launch reports.
    Done(Result<OpenClawLaunchResult, String>),
}

/// What came of a step.
pub enum LaunchReply {
    /// Where OpenClaw is.
    Binary(Option<String>),
    /// Whether the configuration was written.
    ConfigWritten(Result<(), String>),
    /// The gateway was stopped as far as possible.
    Stopped,
    /// The wait is over.
    Settled,
    /// The process that was started, or why none was.
    Spawned(Result<u32, String>),
    /// The wait in the background has begun.
    Watching,
}

/// The URL that a launch reports.
pub open spec fn launch_url() -> Seq<char> {
    status::url_of(GATEWAY_HOST@, OPENCLAW_GATEWAY_PORT)
}

/// Whether `next` is the step that follows. A reply that does not answer the
/// step changes nothing.
pub open spec fn launch_follows(step: LaunchStep, reply: LaunchReply, next: LaunchStep) -> bool {
    match (step, reply) {
        (LaunchStep::FindBinary { .. }, LaunchReply::Binary(None)) => {
            next matches LaunchStep::Done(Err(e)) && e@
                == "OpenClaw is not installed. Please install it first."@
        },
        (LaunchStep::FindBinary { model }, LaunchReply::Binary(Some(bin))) => {
            match model_to_inject(model) {
                Some(name) => next == (LaunchStep::WriteConfig { bin, model: name }),
                None => next == (LaunchStep::StopGateway { bin, inject_local_model: false }),
            }
        },
        (LaunchStep::WriteConfig { bin, .. }, LaunchReply::ConfigWritten(Ok(_))) => {
            next == (LaunchStep::StopGateway { bin, inject_local_model: true })
        },
        (LaunchStep::WriteConfig { .. }, LaunchReply::ConfigWritten(Err(error))) => {
            next == LaunchStep::Done(Err(error))
        },
        (LaunchStep::StopGateway { bin, inject_local_model }, LaunchReply::Stopped) => {
            next == (LaunchStep::Settle { bin, inject_local_model })
        },
        (LaunchStep::Settle { bin, inject_local_model }, LaunchReply::Settled) => {
            next == (LaunchStep::Spawn { bin, inject_local_model })
        },
        (LaunchStep::Spawn { .. }, LaunchReply::Spawned(Ok(_))) => next is Watch,
        (LaunchStep::Spawn { .. }, LaunchReply::Spawned(Err(error))) => {
            next == LaunchStep::Done(Err(error))
        },
        (LaunchStep::Watch, LaunchReply::Watching) => {
            next matches LaunchStep::Done(Ok(result)) && result.gateway_url@ == launch_url()
        },
        _ => next == step,
    }
}

/// Decides what is to be done next to launch the gateway, beginning with
/// [`LaunchStep::FindBinary`].
pub fn launch_openclaw_gateway(step: LaunchStep, reply: LaunchReply) -> (next: LaunchStep)
    ensures
        launch_follows(step, reply, next),
{
    match (step, reply) {
        (LaunchStep::FindBinary { model }, LaunchReply::Binary(found)) => match found {
            None => LaunchStep::Done(
                Err("OpenClaw is not installed. Please install it first.".to_owned()),
            ),
            Some(bin) => match injected_model(model) {
                Some(model) => LaunchStep::WriteConfig { bin, model },
                None => LaunchStep::StopGateway { bin, inject_local_model: false },
            },
        },
        (LaunchStep::WriteConfig { bin, model }, LaunchReply::ConfigWritten(written)) => {
            match written {
                Ok(()) => LaunchStep::StopGateway { bin, inject_local_model: true },
                Err(error) => LaunchStep::Done(Err(error)),
            }
        },
        // Whatever held the port before would get in the way of the new gateway.
        (LaunchStep::StopGateway { bin, inject_local_model }, LaunchReply::Stopped) => {
            LaunchStep::Settle { bin, inject_local_model }
        },
        (LaunchStep::Settle { bin, inject_local_model }, LaunchReply::Settled) => {
            LaunchStep::Spawn { bin, inject_local_model }
        },
        (LaunchStep::Spawn { bin, inject_local_model }, LaunchReply::Spawned(spawned)) => {
            match spawned {
                Ok(_) => LaunchStep::Watch,
                Err(error) => LaunchStep::Done(Err(error)),
            }
        },
        (LaunchStep::Watch, LaunchReply::Watching) => {
            LaunchStep::Done(
                Ok(
                    OpenClawLaunchResult {
                        gateway_url: gateway_url(GATEWAY_HOST, OPENCLAW_GATEWAY_PORT),
                    },
                ),
            )
        },
        (step, _) => step,
    }
}

/// Records the gateway's process once it was started. `spawned` is its
/// identifier, which may be unknown, or why it was not started.
pub fn spawn_gateway_foreground(
    record: &mut Option<u32>,
    spawned: Result<Option<u32>, String>,
) -> (pid: Result<u32, String>)
    ensures
        match spawned {
            Ok(Some(p)) => pid == Ok::<u32, String>(p) && *final(record) == Some(p),
            Ok(None) => {
                &&& pid matches Err(e) && e@ == "Failed to get child PID"@
                &&& *final(record) == *old(record)
            },
            Err(error) => {
                &&& pid matches Err(e) && e@ == "Failed to start OpenClaw gateway: "@ + error@
                &&& *final(record) == *old(record)
            },
        },
{
    match spawned {
        Ok(Some(pid)) => {
            set_gateway_pid(record, pid);
            Ok(pid)
        },
        Ok(None) => Err("Failed to get child PID".to_owned()),
        Err(error) => Err(
            "Failed to start OpenClaw gateway: ".to_owned().concat(error.as_str()),
        ),
    }
}

/// What is to be done next to stop the gateway.
#[derive(Clone, Copy, Debug, PartialEq, Eq, Structural)]
pub enum StopStep {
    /// Take the recorded process out of the record.
    TakeRecord,
    /// End that process.
    KillProcess { pid: u32 },
    /// End every process that listens on the gateway's port.
    KillListeners,
    /// Begin to wait, in the background, for the gateway to be gone.
    Watch,
    /// Nothing: the stop is under way.
    Done,
}

/// What came of a step.
#[derive(Clone, Copy, Debug, PartialEq, Eq, Structural)]
pub enum StopReply {
    /// The process that was recorded.
    Taken(Option<u32>),
    /// The process was ended as far as possible.
    Killed,
    /// The port's processes were ended as far as possible.
    ListenersKilled,
    /// The wait in the background has begun.
    Watching,
}

/// The step that follows. A reply that does not answer the step changes nothing.
pub open spec fn next_stop_step(step: StopStep, reply: StopReply) -> StopStep {
    match (step, reply) {
        (StopStep::TakeRecord, StopReply::Taken(Some(pid))) => StopStep::KillProcess { pid },
        (StopStep::TakeRecord, StopReply::Taken(None)) => StopStep::KillListeners,
        (StopStep::KillProcess { .. }, StopReply::Killed) => StopStep::KillListeners,
        (StopStep::KillListeners, StopReply::ListenersKilled) => StopStep::Watch,
        (StopStep::Watch, StopReply::Watching) => StopStep::Done,
        _ => step,
    }
}

/// Decides what is to be done next to stop the gateway, beginning with
/// [`StopStep::TakeRecord`]. A stop does not fail.
pub fn stop_openclaw_gateway(step: StopStep, reply: StopReply) -> (next: StopStep)
    ensures
        next == next_stop_step(step, reply),
{
    match (step, reply) {
        (StopStep::TakeRecord, StopReply::Taken(taken)) => match taken {
            Some(pid) => StopStep::KillProcess { pid },
            None => StopStep::KillListeners,
        },
        (StopStep::KillProcess { pid }, StopReply::Killed) => StopStep::KillListeners,
        (StopStep::KillListeners, StopReply::ListenersKilled) => StopStep::Watch,
        (StopStep::Watch, StopReply::Watching) => StopStep::Done,
        (step, _) => step,
    }
}

/// Whether a series of steps and replies is a launch: it begins at the
/// beginning, and each step follows from the one before and the reply to it.
pub open spec fn is_launch(
    model: Option<String>,
    steps: Seq<LaunchStep>,
    replies: Seq<LaunchReply>,
) -> bool {
    &&& steps.len() == replies.len() + 1
    &&& steps[0] == (LaunchStep::FindBinary { model })
    &&& forall|i: int|
        0 <= i < replies.len() ==> launch_follows(steps[i], #[trigger] replies[i], steps[i + 1])
}

/// Whether the configuration was written with the given model.
pub open spec fn config_written(
    steps: Seq<LaunchStep>,
    replies: Seq<LaunchReply>,
    i: int,
    model: String,
) -> bool {
    &&& 0 <= i < replies.len()
    &&& steps[i] matches LaunchStep::WriteConfig { model: m, .. } && m == model
    &&& replies[i] matches LaunchReply::ConfigWritten(Ok(_))
}

/// Whether the gateway was stopped.
pub open spec fn gateway_stopped(
    steps: Seq<LaunchStep>,
    replies: Seq<LaunchReply>,
    i: int,
) -> bool {
    0 <= i < replies.len() && steps[i] is StopGateway && replies[i] is Stopped
}

/// Whether the gateway's process was started.
pub open spec fn gateway_spawned(
    steps: Seq<LaunchStep>,
    replies: Seq<LaunchReply>,
    i: int,
) -> bool {
    &&& 0 <= i < replies.len()
    &&& steps[i] is Spawn
    &&& replies[i] matches LaunchReply::Spawned(Ok(_))
}

/// Whether what was done up to a step is what the model calls for: with a model
/// to inject, the configuration was written with it.
spec fn model_done(
    model: Option<String>,
    inject_local_model: bool,
    steps: Seq<LaunchStep>,
    replies: Seq<LaunchReply>,
    n: int,
) -> bool {
    &&& inject_local_model <==> model_to_inject(model) is Some
    &&& model_to_inject(model) matches Some(name) ==> exists|i: int|
        i < n && config_written(steps, replies, i, name)
}

/// What holds of every step of a launch.
proof fn lemma_launch(
    model: Option<String>,
    steps: Seq<LaunchStep>,
    replies: Seq<LaunchReply>,
    n: int,
)
    requires
        is_launch(model, steps, replies),
        0 <= n <= replies.len(),
    ensures
        match steps[n] {
            LaunchStep::FindBinary { model: m } => m == model,
            LaunchStep::WriteConfig { model: m, .. } => model_to_inject(model) == Some(m),
            LaunchStep::StopGateway { inject_local_model, .. } => model_done(
                model,
                inject_local_model,
                steps,
                replies,
                n,
            ),
            LaunchStep::Settle { inject_local_model, .. } => {
                &&& model_done(model, inject_local_model, steps, replies, n)
                &&& exists|i: int| i < n && gateway_stopped(steps, replies, i)
            },
            LaunchStep::Spawn { inject_local_model, .. } => {
                &&& model_done(model, inject_local_model, steps, replies, n)
                &&& exists|i: int| i < n && gateway_stopped(steps, replies, i)
            },
            LaunchStep::Watch => exists|i: int| i < n && gateway_spawned(steps, replies, i),
            LaunchStep::Done(Ok(result)) => {
                &&& result.gateway_url@ == launch_url()
                &&& exists|i: int| i < n && gateway_spawned(steps, replies, i)
            },
            LaunchStep::Done(Err(_)) => true,
        },
    decreases n,
{
    if n > 0 {
        lemma_launch(model, steps, replies, n - 1);
        let before = steps[n - 1];
        let reply = replies[n - 1];
        assert(launch_follows(before, reply, steps[n]));
        if before is WriteConfig && steps[n] is StopGateway {
            assert(config_written(steps, replies, n - 1, model_to_inject(model)->0));
        }
        if before is StopGateway && steps[n] is Settle {
            assert(gateway_stopped(steps, replies, n - 1));
        }
        if before is Spawn && steps[n] is Watch {
            assert(gateway_spawned(steps, replies, n - 1));
        }
    }
}

/// A gateway is started only after the one that may have been running was
/// stopped.
pub proof fn law_launch_stops_before_it_starts(
    model: Option<String>,
    steps: Seq<LaunchStep>,
    replies: Seq<LaunchReply>,
    n: int,
)
    requires
        is_launch(model, steps, replies),
        0 <= n < steps.len(),
        steps[n] is Spawn,
    ensures
        exists|i: int| i < n && gateway_stopped(steps, replies, i),
{
    lemma_launch(model, steps, replies, n);
}

/// A gateway is started with a local model injected exactly if a model was
/// asked for by a name that is not blank, and then the configuration was
/// written with that name first.
pub proof fn law_launch_injects_the_model(
    model: Option<String>,
    steps: Seq<LaunchStep>,
    replies: Seq<LaunchReply>,
    n: int,
)
    requires
        is_launch(model, steps, replies),
        0 <= n < steps.len(),
        steps[n] is Spawn,
    ensures
        steps[n]->Spawn_inject_local_model <==> model_to_inject(model) is Some,
        model_to_inject(model) matches Some(name) ==> exists|i: int|
            i < n && config_written(steps, replies, i, name),
        steps[n]->Spawn_inject_local_model <==> (model matches Some(name) && exists|i: int|
            0 <= i < name@.len() && !text::white_space(#[trigger] name@[i])),
        steps[n]->Spawn_inject_local_model ==> exists|i: int|
            i < n && config_written(steps, replies, i, model->0),
{
    lemma_launch(model, steps, replies, n);
    if model is Some {
        law_model_is_injected_unless_blank(model->0);
    }
}

/// Without a model to inject, a launch leaves the configuration alone; with
/// one, it enters that model and no other.
pub proof fn law_launch_writes_only_the_model(
    model: Option<String>,
    steps: Seq<LaunchStep>,
    replies: Seq<LaunchReply>,
    n: int,
)
    requires
        is_launch(model, steps, replies),
        0 <= n < steps.len(),
        steps[n] is WriteConfig,
    ensures
        model_to_inject(model) == Some(steps[n]->WriteConfig_model),
        model == Some(steps[n]->WriteConfig_model),
        exists|i: int|
            0 <= i < steps[n]->WriteConfig_model@.len() && !text::white_space(
                #[trigger] steps[n]->WriteConfig_model@[i],
            ),
{
    lemma_launch(model, steps, replies, n);
    if model is Some {
        law_model_is_injected_unless_blank(model->0);
    }
}

/// A launch that succeeds has started a gateway, and reports where it is.
pub proof fn law_launch_success_means_started(
    model: Option<String>,
    steps: Seq<LaunchStep>,
    replies: Seq<LaunchReply>,
)
    requires
        is_launch(model, steps, replies),
    ensures
        steps.last() matches LaunchStep::Done(Ok(result)) ==> result.gateway_url@ == launch_url()
            && exists|i: int| gateway_spawned(steps, replies, i),
{
    lemma_launch(model, steps, replies, replies.len() as int);
}

/// Where OpenClaw is not found, a launch fails at once: nothing is written,
/// stopped or started.
pub proof fn law_launch_without_openclaw_does_nothing(
    model: Option<String>,
    steps: Seq<LaunchStep>,
    replies: Seq<LaunchReply>,
    n: int,
)
    requires
        is_launch(model, steps, replies),
        replies.len() > 0,
        replies[0] == LaunchReply::Binary(None),
        0 < n < steps.len(),
    ensures
        steps[n] matches LaunchStep::Done(Err(_)),
    decreases n,
{
    assert(launch_follows(steps[n - 1], replies[n - 1], steps[n]));
    if n > 1 {
        law_launch_without_openclaw_does_nothing(model, steps, replies, n - 1);
    }
}

/// Whether a reply answers a step of a launch.
pub open spec fn launch_answers(step: LaunchStep, reply: LaunchReply) -> bool {
    match step {
        LaunchStep::FindBinary { .. } => reply is Binary,
        LaunchStep::WriteConfig { .. } => reply is ConfigWritten,
        LaunchStep::StopGateway { .. } => reply is Stopped,
        LaunchStep::Settle { .. } => reply is Settled,
        LaunchStep::Spawn { .. } => reply is Spawned,
        LaunchStep::Watch => reply is Watching,
        LaunchStep::Done(_) => false,
    }
}

/// How many replies a launch still takes at most.
pub open spec fn launch_replies_left(step: LaunchStep) -> nat {
    match step {
        LaunchStep::FindBinary { .. } => 6,
        LaunchStep::WriteConfig { .. } => 5,
        LaunchStep::StopGateway { .. } => 4,
        LaunchStep::Settle { .. } => 3,
        LaunchStep::Spawn { .. } => 2,
        LaunchStep::Watch => 1,
        LaunchStep::Done(_) => 0,
    }
}

/// A launch does not wait for the gateway to become ready: each reply that
/// answers a step brings its end closer, and once the gateway is started all
/// that is left is to begin the wait in the background.
pub proof fn law_launch_ends_without_waiting(
    step: LaunchStep,
    reply: LaunchReply,
    next: LaunchStep,
)
    requires
        launch_follows(step, reply, next),
        launch_answers(step, reply),
    ensures
        launch_replies_left(next) < launch_replies_left(step),
        step is Spawn ==> next is Watch || next is Done,
        step is Watch ==> next is Done,
{
}

/// The step that a stop is at after a series of replies.
pub open spec fn stop_run(replies: Seq<StopReply>) -> StopStep
    decreases replies.len(),
{
    if replies.len() == 0 {
        StopStep::TakeRecord
    } else {
        next_stop_step(stop_run(replies.drop_last()), replies.last())
    }
}

/// Whether a step of a stop was taken: it came up, and was answered.
pub open spec fn stop_took(replies: Seq<StopReply>, i: int, step: StopStep) -> bool {
    &&& 0 <= i < replies.len()
    &&& stop_run(replies.take(i)) == step
    &&& next_stop_step(step, replies[i]) != step
}

/// What was done before each step of a stop.
proof fn lemma_stop(replies: Seq<StopReply>, n: int)
    requires
        0 <= n <= replies.len(),
    ensures
        match stop_run(replies.take(n)) {
            StopStep::TakeRecord => true,
            StopStep::KillProcess { pid } => exists|i: int|
                i < n && stop_took(replies, i, StopStep::TakeRecord) && replies[i]
                    == StopReply::Taken(Some(pid)),
            StopStep::KillListeners => record_dealt_with(replies, n),
            _ => record_dealt_with(replies, n) && exists|i: int|
                i < n && stop_took(replies, i, StopStep::KillListeners),
        },
    decreases n,
{
    if n > 0 {
        lemma_stop(replies, n - 1);
        let step = stop_run(replies.take(n - 1));
        assert(replies.take(n).drop_last() =~= replies.take(n - 1));
        assert(replies.take(n).last() == replies[n - 1]);
        if next_stop_step(step, replies[n - 1]) != step {
            assert(stop_took(replies, n - 1, step));
            if step is TakeRecord && replies[n - 1] == StopReply::Taken(None) {
                assert(record_dealt_with(replies, n));
            } else if step is KillProcess {
                let pid = step->KillProcess_pid;
                let i = choose|i: int|
                    i < n - 1 && stop_took(replies, i, StopStep::TakeRecord) && replies[i]
                        == StopReply::Taken(Some(pid));
                assert(process_killed(replies, i, n - 1, pid));
                assert(record_dealt_with(replies, n));
            } else if step is KillListeners || step is Watch {
                lemma_record_dealt_with_stays(replies, n - 1, n);
            }
        } else if step is KillListeners || step is Watch || step is Done {
            lemma_record_dealt_with_stays(replies, n - 1, n);
        }
    }
}

/// Whether a reply answers a step of a stop.
pub open spec fn stop_answers(step: StopStep, reply: StopReply) -> bool {
    match step {
        StopStep::TakeRecord => reply is Taken,
        StopStep::KillProcess { .. } => reply is Killed,
        StopStep::KillListeners => reply is ListenersKilled,
        StopStep::Watch => reply is Watching,
        StopStep::Done => false,
    }
}

/// How many replies a stop still takes at most.
pub open spec fn stop_replies_left(step: StopStep) -> nat {
    match step {
        StopStep::TakeRecord => 4,
        StopStep::KillProcess { .. } => 3,
        StopStep::KillListeners => 2,
        StopStep::Watch => 1,
        StopStep::Done => 0,
    }
}

/// A stop does not wait for the gateway to be gone: each reply that answers a
/// step brings its end closer, and once the port's processes are ended all that
/// is left is to begin the wait in the background.
pub proof fn law_stop_ends_without_waiting(step: StopStep, reply: StopReply)
    requires
        stop_answers(step, reply),
    ensures
        stop_replies_left(next_stop_step(step, reply)) < stop_replies_left(step),
        step is KillListeners ==> next_stop_step(step, reply) is Watch,
        step is Watch ==> next_stop_step(step, reply) is Done,
{
}

/// Whether a process that was taken out of the record was ended.
pub open spec fn process_killed(replies: Seq<StopReply>, i: int, j: int, pid: u32) -> bool {
    &&& i < j
    &&& stop_took(replies, i, StopStep::TakeRecord)
    &&& replies[i] == StopReply::Taken(Some(pid))
    &&& stop_took(replies, j, StopStep::KillProcess { pid })
}

/// Whether within the first `n` replies the record was emptied and the process
/// that stood there, if any, was ended.
pub open spec fn record_dealt_with(replies: Seq<StopReply>, n: int) -> bool {
    ||| exists|i: int|
        i < n && stop_took(replies, i, StopStep::TakeRecord) && replies[i] == StopReply::Taken(None)
    ||| exists|i: int, j: int, pid: u32| j < n && process_killed(replies, i, j, pid)
}

proof fn lemma_record_dealt_with_stays(replies: Seq<StopReply>, m: int, n: int)
    requires
        record_dealt_with(replies, m),
        m <= n,
    ensures
        record_dealt_with(replies, n),
{
    if exists|i: int|
        i < m && stop_took(replies, i, StopStep::TakeRecord) && replies[i] == StopReply::Taken(
            None,
        ) {
        let i = choose|i: int|
            i < m && stop_took(replies, i, StopStep::TakeRecord) && replies[i] == StopReply::Taken(
                None,
            );
        assert(i < n && stop_took(replies, i, StopStep::TakeRecord));
    } else {
        let (i, j, pid) = choose|i: int, j: int, pid: u32|
            j < m && process_killed(replies, i, j, pid);
        assert(j < n && process_killed(replies, i, j, pid));
    }
}

/// The processes that hold the gateway's port are ended only once the record
/// was emptied and the process that stood there, if any, was ended.
pub proof fn law_stop_ends_recorded_process_first(replies: Seq<StopReply>)
    requires
        stop_run(replies) is KillListeners,
    ensures
        record_dealt_with(replies, replies.len() as int),
{
    assert(replies.take(replies.len() as int) =~= replies);
    lemma_stop(replies, replies.len() as int);
}

/// A stop that is over has emptied the record, has set about to end the process
/// that stood there, if any, and in any case every process that listens on the
/// gateway's port.
pub proof fn law_stop_always_kills_listeners(replies: Seq<StopReply>)
    requires
        stop_run(replies) is Done,
    ensures
        record_dealt_with(replies, replies.len() as int),
        exists|i: int| stop_took(replies, i, StopStep::KillListeners),
{
    assert(replies.take(replies.len() as int) =~= replies);
    lemma_stop(replies, replies.len() as int);
}

/// A model that is asked for is injected, under the very name that was given,
/// exactly if that name has a character that is not white space; otherwise none
/// is, as where none was asked for.
pub proof fn law_model_is_injected_unless_blank(name: String)
    ensures
        model_to_inject(Some(name)) == Some(name) <==> exists|i: int|
            0 <= i < name@.len() && !text::white_space(#[trigger] name@[i]),
        model_to_inject(Some(name)) == Some(name) || model_to_inject(Some(name)) == None::<String>,
        model_to_inject(None) == None::<String>,
{
    text::law_trim_leaves_nothing_of_blanks_only(name@);
}

/// Whatever is taken for the model to inject is the model that was asked for, and
/// it is taken exactly if its name has a character that is not white space.
pub proof fn law_injected_model_is_the_one_asked_for(
    name: String,
    injected: Option<String>,
    none: Option<String>,
)
    requires
        call_ensures(injected_model, (Some(name),), injected),
        call_ensures(injected_model, (None,), none),
    ensures
        none is None,
        injected is Some <==> exists|i: int|
            0 <= i < name@.len() && !text::white_space(#[trigger] name@[i]),
        injected matches Some(m) ==> m == name,
{
    law_model_is_injected_unless_blank(name);
}

/// A launch with a model whose name is not blank: the model is entered in the
/// configuration, the old gateway is stopped and given time, the new one is
/// started from where OpenClaw was found and with the model injected, and the
/// launch reports where it is.
pub proof fn law_launch_with_model_goes_its_way(
    steps: Seq<LaunchStep>,
    name: String,
    k: int,
    bin: String,
    pid: u32,
)
    requires
        0 <= k < name@.len(),
        !text::white_space(name@[k]),
        is_launch(
            Some(name),
            steps,
            seq![
                LaunchReply::Binary(Some(bin)),
                LaunchReply::ConfigWritten(Ok(())),
                LaunchReply::Stopped,
                LaunchReply::Settled,
                LaunchReply::Spawned(Ok(pid)),
                LaunchReply::Watching,
            ],
        ),
    ensures
        steps[1] == (LaunchStep::WriteConfig { bin, model: name }),
        steps[2] == (LaunchStep::StopGateway { bin, inject_local_model: true }),
        steps[3] == (LaunchStep::Settle { bin, inject_local_model: true }),
        steps[4] == (LaunchStep::Spawn { bin, inject_local_model: true }),
        steps[5] == LaunchStep::Watch,
        steps[6] matches LaunchStep::Done(Ok(result)) && result.gateway_url@
            == "http://127.0.0.1:18789/"@,
{
    let replies = seq![
        LaunchReply::Binary(Some(bin)),
        LaunchReply::ConfigWritten(Ok(())),
        LaunchReply::Stopped,
        LaunchReply::Settled,
        LaunchReply::Spawned(Ok(pid)),
        LaunchReply::Watching,
    ];
    law_model_is_injected_unless_blank(name);
    status::lemma_gateway_texts();
    assert(launch_follows(steps[0], replies[0], steps[1]));
    assert(launch_follows(steps[1], replies[1], steps[2]));
    assert(launch_follows(steps[2], replies[2], steps[3]));
    assert(launch_follows(steps[3], replies[3], steps[4]));
    assert(launch_follows(steps[4], replies[4], steps[5]));
    assert(launch_follows(steps[5], replies[5], steps[6]));
}

/// A launch without a model, or with a blank name for one: the configuration is
/// left alone, the old gateway is stopped and given time, the new one is started
/// from where OpenClaw was found and without a model injected, and the launch
/// reports where it is.
pub proof fn law_launch_without_model_goes_its_way(
    model: Option<String>,
    steps: Seq<LaunchStep>,
    bin: String,
    pid: u32,
)
    requires
        model matches Some(name) ==> forall|i: int|
            0 <= i < name@.len() ==> text::white_space(#[trigger] name@[i]),
        is_launch(
            model,
            steps,
            seq![
                LaunchReply::Binary(Some(bin)),
                LaunchReply::Stopped,
                LaunchReply::Settled,
                LaunchReply::Spawned(Ok(pid)),
                LaunchReply::Watching,
            ],
        ),
    ensures
        steps[1] == (LaunchStep::StopGateway { bin, inject_local_model: false }),
        steps[2] == (LaunchStep::Settle { bin, inject_local_model: false }),
        steps[3] == (LaunchStep::Spawn { bin, inject_local_model: false }),
        steps[4] == LaunchStep::Watch,
        steps[5] matches LaunchStep::Done(Ok(result)) && result.gateway_url@
            == "http://127.0.0.1:18789/"@,
{
    let replies = seq![
        LaunchReply::Binary(Some(bin)),
        LaunchReply::Stopped,
        LaunchReply::Settled,
        LaunchReply::Spawned(Ok(pid)),
        LaunchReply::Watching,
    ];
    if model is Some {
        law_model_is_injected_unless_blank(model->0);
    }
    status::lemma_gateway_texts();
    assert(launch_follows(steps[0], replies[0], steps[1]));
    assert(launch_follows(steps[1], replies[1], steps[2]));
    assert(launch_follows(steps[2], replies[2], steps[3]));
    assert(launch_follows(steps[3], replies[3], steps[4]));
    assert(launch_follows(steps[4], replies[4], steps[5]));
}

/// A launch fails exactly where something that it needs does: OpenClaw is not
/// found, or the configuration could not be written, or the process could not be
/// started; and it says which. A reply that does not answer the step that was
/// taken changes nothing, and an end stays one.
pub proof fn law_launch_fails_for_a_reason(step: LaunchStep, reply: LaunchReply, next: LaunchStep)
    requires
        call_ensures(launch_openclaw_gateway, (step, reply), next),
    ensures
        step is FindBinary && reply == LaunchReply::Binary(None) ==> (next matches LaunchStep::Done(
            Err(e),
        ) && e@ == "OpenClaw is not installed. Please install it first."@),
        step is WriteConfig && reply is ConfigWritten && reply->ConfigWritten_0 is Err ==> next
            == LaunchStep::Done(Err(reply->ConfigWritten_0->Err_0)),
        step is Spawn && reply is Spawned && reply->Spawned_0 is Err ==> next == LaunchStep::Done(
            Err(reply->Spawned_0->Err_0),
        ),
        !(step is Done) && next is Done && next->Done_0 is Err ==> {
            ||| step is FindBinary && reply == LaunchReply::Binary(None)
            ||| step is WriteConfig && reply is ConfigWritten && reply->ConfigWritten_0 is Err
            ||| step is Spawn && reply is Spawned && reply->Spawned_0 is Err
        },
        step is FindBinary && !(reply is Binary) ==> next == step,
        step is WriteConfig && !(reply is ConfigWritten) ==> next == step,
        step is StopGateway && !(reply is Stopped) ==> next == step,
        step is Settle && !(reply is Settled) ==> next == step,
        step is Spawn && !(reply is Spawned) ==> next == step,
        step is Watch && !(reply is Watching) ==> next == step,
        step is Done ==> next == step,
{
}

/// Whether a reply says where OpenClaw was found.
pub open spec fn found_at(
    steps: Seq<LaunchStep>,
    replies: Seq<LaunchReply>,
    i: int,
    bin: String,
) -> bool {
    &&& 0 <= i < replies.len()
    &&& steps[i] is FindBinary
    &&& replies[i] == LaunchReply::Binary(Some(bin))
}

/// The OpenClaw that a step is about, if it is about one.
spec fn binary_of(step: LaunchStep) -> Option<String> {
    match step {
        LaunchStep::WriteConfig { bin, .. } => Some(bin),
        LaunchStep::StopGateway { bin, .. } => Some(bin),
        LaunchStep::Settle { bin, .. } => Some(bin),
        LaunchStep::Spawn { bin, .. } => Some(bin),
        _ => None,
    }
}

/// The OpenClaw that a step is about was found.
proof fn lemma_binary_was_found(
    model: Option<String>,
    steps: Seq<LaunchStep>,
    replies: Seq<LaunchReply>,
    n: int,
)
    requires
        is_launch(model, steps, replies),
        0 <= n < steps.len(),
    ensures
        binary_of(steps[n]) is Some ==> exists|i: int|
            found_at(steps, replies, i, binary_of(steps[n])->0),
    decreases n,
{
    if n > 0 {
        let m = n - 1;
        lemma_binary_was_found(model, steps, replies, m);
        assert(launch_follows(steps[m], replies[m], steps[n]));
        if binary_of(steps[n]) is Some {
            let bin = binary_of(steps[n])->0;
            if steps[m] is FindBinary {
                assert(found_at(steps, replies, m, bin));
            } else {
                assert(binary_of(steps[m]) == Some(bin));
            }
        }
    }
}

/// What a launch starts is the OpenClaw that it found.
pub proof fn law_launch_starts_what_was_found(
    model: Option<String>,
    steps: Seq<LaunchStep>,
    replies: Seq<LaunchReply>,
    n: int,
)
    requires
        is_launch(model, steps, replies),
        0 <= n < steps.len(),
        steps[n] is Spawn,
    ensures
        exists|i: int| found_at(steps, replies, i, steps[n]->Spawn_bin),
{
    lemma_binary_was_found(model, steps, replies, n);
    assert(binary_of(steps[n]) == Some(steps[n]->Spawn_bin));
}

/// A process that was started is recorded and handed back; where none was, or its
/// number is unknown, the record stays as it was, and the error says so.
pub proof fn law_started_process_is_recorded(
    record: &mut Option<u32>,
    spawned: Result<Option<u32>, String>,
    pid: Result<u32, String>,
)
    requires
        call_ensures(spawn_gateway_foreground, (record, spawned), pid),
    ensures
        spawned is Ok && spawned->Ok_0 is Some ==> {
            &&& pid is Ok
            &&& pid->Ok_0 == spawned->Ok_0->0
            &&& *final(record) == Some(pid->Ok_0)
        },
        spawned is Ok && spawned->Ok_0 is None ==> {
            &&& pid matches Err(e) && e@ == "Failed to get child PID"@
            &&& *final(record) == *old(record)
        },
        spawned is Err ==> {
            &&& pid matches Err(e) && e@ == "Failed to start OpenClaw gateway: "@
                + spawned->Err_0@
            &&& *final(record) == *old(record)
        },
{
}

/// A stop with a recorded process ends that very process, then whatever listens,
/// and then watches; without one it goes straight to what listens.
pub proof fn law_stop_goes_its_way(pid: u32)
    ensures
        stop_run(Seq::empty()) == StopStep::TakeRecord,
        stop_run(seq![StopReply::Taken(Some(pid))]) == (StopStep::KillProcess { pid }),
        stop_run(seq![StopReply::Taken(Some(pid)), StopReply::Killed]) == StopStep::KillListeners,
        stop_run(seq![StopReply::Taken(None)]) == StopStep::KillListeners,
        stop_run(
            seq![StopReply::Taken(Some(pid)), StopReply::Killed, StopReply::ListenersKilled],
        ) == StopStep::Watch,
        stop_run(
            seq![
                StopReply::Taken(Some(pid)),
                StopReply::Killed,
                StopReply::ListenersKilled,
                StopReply::Watching,
            ],
        ) == StopStep::Done,
{
    let none = Seq::<StopReply>::empty();
    let one = seq![StopReply::Taken(Some(pid))];
    let two = seq![StopReply::Taken(Some(pid)), StopReply::Killed];
    let three = seq![StopReply::Taken(Some(pid)), StopReply::Killed, StopReply::ListenersKilled];
    let four = seq![
        StopReply::Taken(Some(pid)),
        StopReply::Killed,
        StopReply::ListenersKilled,
        StopReply::Watching,
    ];
    let untaken = seq![StopReply::Taken(None)];
    assert(stop_run(none) == StopStep::TakeRecord);
    assert(one.drop_last() =~= none && untaken.drop_last() =~= none);
    assert(two.drop_last() =~= one);
    assert(stop_run(two) == StopStep::KillListeners);
    assert(three.drop_last() =~= two);
    assert(stop_run(three) == StopStep::Watch);
    assert(four.drop_last() =~= three);
}

/// A reply that does not answer the step of a stop that was taken changes
/// nothing, and its end stays one.
pub proof fn law_stop_minds_only_answers(step: StopStep, reply: StopReply, next: StopStep)
    requires
        call_ensures(stop_openclaw_gateway, (step, reply), next),
    ensures
        step is TakeRecord && !(reply is Taken) ==> next == step,
        step is KillProcess && !(reply is Killed) ==> next == step,
        step is KillProcess && reply is Killed ==> next == StopStep::KillListeners,
        step == StopStep::KillListeners && reply != StopReply::ListenersKilled ==> next == step,
        step == StopStep::Watch && reply != StopReply::Watching ==> next == step,
        step == StopStep::Done ==> next == step,
{
}

/// A gateway that was stopped is given half a second, and this event announces
/// one that is ready.
pub proof fn law_launch_settings()
    ensures
        SETTLE_MILLIS == 500,
        GATEWAY_READY_EVENT@ == "openclaw-gateway-ready"@,
{
}

/// What follows each step of a launch that is answered and does not fail.
pub proof fn law_launch_goes_on(step: LaunchStep, reply: LaunchReply, next: LaunchStep)
    requires
        call_ensures(launch_openclaw_gateway, (step, reply), next),
    ensures
        step is FindBinary && reply is Binary && reply->Binary_0 is Some ==> {
            let bin = reply->Binary_0->0;
            let model = step->FindBinary_model;
            if model is Some && exists|i: int|
                0 <= i < model->0@.len() && !text::white_space(#[trigger] model->0@[i]) {
                next == (LaunchStep::WriteConfig { bin, model: model->0 })
            } else {
                next == (LaunchStep::StopGateway { bin, inject_local_model: false })
            }
        },
        step is WriteConfig && reply is ConfigWritten && reply->ConfigWritten_0 is Ok ==> next
            == (LaunchStep::StopGateway { bin: step->WriteConfig_bin, inject_local_model: true }),
        step is StopGateway && reply is Stopped ==> next == (LaunchStep::Settle {
            bin: step->StopGateway_bin,
            inject_local_model: step->StopGateway_inject_local_model,
        }),
        step is Settle && reply is Settled ==> next == (LaunchStep::Spawn {
            bin: step->Settle_bin,
            inject_local_model: step->Settle_inject_local_model,
        }),
        step is Spawn && reply is Spawned && reply->Spawned_0 is Ok ==> next is Watch,
        step is Watch && reply is Watching ==> (next matches LaunchStep::Done(Ok(result))
            && result.gateway_url@ == "http://127.0.0.1:18789/"@),
{
    status::lemma_gateway_texts();
    if step is FindBinary && step->FindBinary_model is Some {
        law_model_is_injected_unless_blank(step->FindBinary_model->0);
    }
}

/// What follows each step of a stop that is answered.
pub proof fn law_stop_goes_on(step: StopStep, reply: StopReply, next: StopStep)
    requires
        call_ensures(stop_openclaw_gateway, (step, reply), next),
    ensures
        step is TakeRecord && reply is Taken && reply->Taken_0 is Some ==> next
            == (StopStep::KillProcess { pid: reply->Taken_0->0 }),
        step is TakeRecord && reply is Taken && reply->Taken_0 is None ==> next
            == StopStep::KillListeners,
        step is KillListeners && reply is ListenersKilled ==> next == StopStep::Watch,
        step is Watch && reply is Watching ==> next == StopStep::Done,
{
}

} // verus!
