//! Installing OpenClaw with npm.
use crate::commands::Platform;
use crate::registry;
use crate::registry::resolve_openclaw_install_registry;
use crate::text;
use crate::text::read_output;
use vstd::prelude::*;
use vstd::string::*;

verus! {

/// The event that tells how an installation goes.
pub const OPENCLAW_INSTALL_PROGRESS_EVENT: &'static str = "openclaw-install-progress";

/// How an installation goes.
pub struct InstallProgress {
    pub status: &'static str,
    pub percent: u32,
    pub message: &'static str,
}

/// What became of the run of `npm install`.
pub enum InstallOutcome {
    /// It could not be started.
    NotStarted(String),
    /// It was started, but could not be waited for.
    Lost(String),
    /// It ran to its end.
    Ended { success: bool, stderr: Vec<u8> },
}

/// What is to be done next to install OpenClaw.
pub enum InstallStep<P> {
    /// Announce that the installation begins.
    AnnounceStart,
    /// Find npm.
    FindNpm,
    /// Ask npm for the registry that it is configured with.
    QueryRegistry { npm: P },
    /// Announce that the installation goes through the mirror.
    AnnounceMirror { npm: P, mirror: &'static str },
    /// Run `npm install`, through the given registry if there is one.
    Install { npm: P, registry: Option<&'static str> },
    /// Announce that OpenClaw is installed.
    AnnounceDone,
    /// Nothing: this is how the installation went.
    Done(Result<(), String>),
}

/// What came of a step.
pub enum InstallReply<P> {
    /// The announcement was made.
    Announced,
    /// Where npm is.
    Npm(Option<P>),
    /// The registry that npm is configured with, if it is known.
    Registry(Option<String>),
    /// What became of the run of `npm install`.
    Ran(InstallOutcome),
}

/// The announcement that a step makes, if it makes one.
pub open spec fn announcement<P>(step: InstallStep<P>) -> Option<(Seq<char>, u32, Seq<char>)> {
    match step {
        InstallStep::AnnounceStart => Some(
            ("installing"@, 0u32, "正在安装 OpenClaw，请稍候..."@),
        ),
        InstallStep::AnnounceMirror { .. } => Some(
            (
                "installing"@,
                8u32,
                "检测到 npm 仍在使用默认源，本次安装将临时切换到国内镜像。"@,
            ),
        ),
        InstallStep::AnnounceDone => Some(("completed"@, 100u32, "OpenClaw 安装成功。"@)),
        _ => None,
    }
}

/// The announcement that a step makes, if it makes one.
pub fn install_progress<P>(step: &InstallStep<P>) -> (progress: Option<InstallProgress>)
    ensures
        match (progress, announcement(*step)) {
            (Some(p), Some((status, percent, message))) => {
                &&& p.status@ == status
                &&& p.percent == percent
                &&& p.message@ == message
            },
            (None, None) => true,
            _ => false,
        },
{
    match step {
        InstallStep::AnnounceStart => Some(
            InstallProgress {
                status: "installing",
                percent: 0,
                message: "正在安装 OpenClaw，请稍候...",
            },
        ),
        InstallStep::AnnounceMirror { .. } => Some(
            InstallProgress {
                status: "installing",
                percent: 8,
                message: "检测到 npm 仍在使用默认源，本次安装将临时切换到国内镜像。",
            },
        ),
        InstallStep::AnnounceDone => Some(
            InstallProgress {
                status: "completed",
                percent: 100,
                message: "OpenClaw 安装成功。",
            },
        ),
        _ => None,
    }
}

/// Why an installation failed, if it did.
pub open spec fn failure(platform: Platform, outcome: InstallOutcome) -> Option<Seq<char>> {
    match (platform, outcome) {
        (_, InstallOutcome::Ended { success: true, .. }) => None,
        (Platform::Windows, InstallOutcome::NotStarted(error)) => Some(
            "Failed to spawn npm install: "@ + error@,
        ),
        (Platform::Windows, InstallOutcome::Lost(error)) => Some(
            "npm install process failed: "@ + error@,
        ),
        (Platform::Windows, InstallOutcome::Ended { .. }) => Some(
            "npm install -g openclaw@latest failed"@,
        ),
        (Platform::Unix, InstallOutcome::NotStarted(error)) => Some(
            "Failed to run npm install: "@ + error@,
        ),
        (Platform::Unix, InstallOutcome::Lost(error)) => Some(
            "Failed to run npm install: "@ + error@,
        ),
        (Platform::Unix, InstallOutcome::Ended { stderr, .. }) => Some(
            "npm install failed: "@ + text::output_text(stderr@),
        ),
    }
}

/// How an installation went, from what became of the run of `npm install`.
pub fn install_result(platform: Platform, outcome: InstallOutcome) -> (result: Result<(), String>)
    ensures
        match failure(platform, outcome) {
            Some(reason) => result matches Err(e) && e@ == reason,
            None => result is Ok,
        },
{
    match outcome {
        InstallOutcome::NotStarted(error) => {
            let what = match platform {
                Platform::Windows => "Failed to spawn npm install: ",
                Platform::Unix => "Failed to run npm install: ",
            };
            Err(what.to_owned().concat(error.as_str()))
        },
        InstallOutcome::Lost(error) => {
            let what = match platform {
                Platform::Windows => "npm install process failed: ",
                Platform::Unix => "Failed to run npm install: ",
            };
            Err(what.to_owned().concat(error.as_str()))
        },
        InstallOutcome::Ended { success, stderr } => if success {
            Ok(())
        } else {
            match platform {
                Platform::Windows => Err("npm install -g openclaw@latest failed".to_owned()),
                Platform::Unix => Err(
                    "npm install failed: ".to_owned().concat(
                        read_output(stderr.as_slice()).as_str(),
                    ),
                ),
            }
        },
    }
}

/// The normalized address of the registry that npm is configured with.
pub open spec fn configured_address(configured: Option<String>) -> Seq<char> {
    match configured {
        Some(address) => registry::normalized(address@),
        None => Seq::empty(),
    }
}

/// Whether `next` is the step that follows. A reply that does not answer the
/// step changes nothing.
pub open spec fn install_follows<P>(
    platform: Platform,
    step: InstallStep<P>,
    reply: InstallReply<P>,
    next: InstallStep<P>,
) -> bool {
    match (step, reply) {
        (InstallStep::AnnounceStart, InstallReply::Announced) => next is FindNpm,
        (InstallStep::FindNpm, InstallReply::Npm(Some(npm))) => {
            next == (InstallStep::QueryRegistry { npm })
        },
        (InstallStep::FindNpm, InstallReply::Npm(None)) => {
            next matches InstallStep::Done(Err(e)) && e@
                == "npm not found on PATH. Please install Node.js first."@
        },
        (InstallStep::QueryRegistry { npm }, InstallReply::Registry(configured)) => {
            if registry::default_registry(configured_address(configured)) {
                next matches InstallStep::AnnounceMirror { npm: p, mirror } && p == npm && mirror@
                    == registry::TEMPORARY_CHINA_NPM_REGISTRY@
            } else {
                next == (InstallStep::Install { npm, registry: None::<&'static str> })
            }
        },
        (InstallStep::AnnounceMirror { npm, mirror }, InstallReply::Announced) => {
            next == (InstallStep::Install { npm, registry: Some(mirror) })
        },
        (InstallStep::Install { .. }, InstallReply::Ran(outcome)) => {
            match failure(platform, outcome) {
                Some(reason) => next matches InstallStep::Done(Err(e)) && e@ == reason,
                None => next is AnnounceDone,
            }
        },
        (InstallStep::AnnounceDone, InstallReply::Announced) => {
            next == InstallStep::<P>::Done(Ok(()))
        },
        _ => next == step,
    }
}

/// Decides what is to be done next to install OpenClaw, beginning with
/// [`InstallStep::AnnounceStart`].
pub fn install_openclaw<P>(
    platform: Platform,
    step: InstallStep<P>,
    reply: InstallReply<P>,
) -> (next: InstallStep<P>)
    ensures
        install_follows(platform, step, reply, next),
{
    match (step, reply) {
        (InstallStep::AnnounceStart, InstallReply::Announced) => InstallStep::FindNpm,
        (InstallStep::FindNpm, InstallReply::Npm(found)) => match found {
            Some(npm) => InstallStep::QueryRegistry { npm },
            None => InstallStep::Done(
                Err("npm not found on PATH. Please install Node.js first.".to_owned()),
            ),
        },
        (InstallStep::QueryRegistry { npm }, InstallReply::Registry(configured)) => {
            let mirror = match &configured {
                Some(address) => resolve_openclaw_install_registry(Some(address.as_str())),
                None => resolve_openclaw_install_registry(None),
            };
            match mirror {
                Some(mirror) => InstallStep::AnnounceMirror { npm, mirror },
                None => InstallStep::Install { npm, registry: None },
            }
        },
        (InstallStep::AnnounceMirror { npm, mirror }, InstallReply::Announced) => {
            InstallStep::Install { npm, registry: Some(mirror) }
        },
        (InstallStep::Install { npm, registry }, InstallReply::Ran(outcome)) => {
            match install_result(platform, outcome) {
                Ok(()) => InstallStep::AnnounceDone,
                Err(error) => InstallStep::Done(Err(error)),
            }
        },
        (InstallStep::AnnounceDone, InstallReply::Announced) => InstallStep::Done(Ok(())),
        (step, _) => step,
    }
}

/// Whether a series of steps and replies is an installation: it begins at the
/// beginning, and each step follows from the one before and the reply to it.
pub open spec fn is_installation<P>(
    platform: Platform,
    steps: Seq<InstallStep<P>>,
    replies: Seq<InstallReply<P>>,
) -> bool {
    &&& steps.len() == replies.len() + 1
    &&& steps[0] is AnnounceStart
    &&& forall|i: int|
        0 <= i < replies.len() ==> install_follows(
            platform,
            steps[i],
            #[trigger] replies[i],
            steps[i + 1],
        )
}

/// Whether npm was asked for its registry, and answered with the given one.
pub open spec fn registry_answered<P>(
    steps: Seq<InstallStep<P>>,
    replies: Seq<InstallReply<P>>,
    i: int,
    configured: Option<String>,
) -> bool {
    &&& 0 <= i < replies.len()
    &&& steps[i] is QueryRegistry
    &&& replies[i] == InstallReply::<P>::Registry(configured)
}

/// Whether `npm install` ran to its end and succeeded.
pub open spec fn npm_succeeded<P>(
    steps: Seq<InstallStep<P>>,
    replies: Seq<InstallReply<P>>,
    i: int,
) -> bool {
    &&& 0 <= i < replies.len()
    &&& steps[i] is Install
    &&& replies[i] matches InstallReply::Ran(InstallOutcome::Ended { success: true, .. })
}

/// What holds of every step of an installation.
proof fn lemma_installation<P>(
    platform: Platform,
    steps: Seq<InstallStep<P>>,
    replies: Seq<InstallReply<P>>,
    n: int,
)
    requires
        is_installation(platform, steps, replies),
        0 <= n <= replies.len(),
    ensures
        match steps[n] {
            InstallStep::AnnounceMirror { mirror, .. } => {
                &&& mirror@ == registry::TEMPORARY_CHINA_NPM_REGISTRY@
                &&& exists|i: int, configured: Option<String>|
                    i < n && registry_answered(steps, replies, i, configured)
                        && registry::default_registry(configured_address(configured))
            },
            InstallStep::Install { registry, .. } => {
                &&& registry matches Some(r) ==> r@ == registry::TEMPORARY_CHINA_NPM_REGISTRY@
                &&& exists|i: int, configured: Option<String>|
                    i < n && registry_answered(steps, replies, i, configured) && (registry is Some
                        <==> registry::default_registry(configured_address(configured)))
            },
            InstallStep::AnnounceDone => exists|i: int| i < n && npm_succeeded(steps, replies, i),
            InstallStep::Done(Ok(_)) => exists|i: int| i < n && npm_succeeded(steps, replies, i),
            _ => true,
        },
    decreases n,
{
    if n > 0 {
        lemma_installation(platform, steps, replies, n - 1);
        let before = steps[n - 1];
        let reply = replies[n - 1];
        assert(install_follows(platform, before, reply, steps[n]));
        if before is QueryRegistry && reply is Registry {
            assert(registry_answered(steps, replies, n - 1, reply->Registry_0));
        }
        if before is Install && steps[n] is AnnounceDone {
            assert(npm_succeeded(steps, replies, n - 1));
        }
    }
}

/// An installation goes through the mirror exactly if npm was found to use its
/// default registry or none is known, and through the configured one else.
pub proof fn law_mirror_stands_in_for_default_only<P>(
    platform: Platform,
    steps: Seq<InstallStep<P>>,
    replies: Seq<InstallReply<P>>,
    n: int,
)
    requires
        is_installation(platform, steps, replies),
        0 <= n < steps.len(),
        steps[n] is Install,
    ensures
        steps[n]->Install_registry matches Some(r) ==> r@
            == registry::TEMPORARY_CHINA_NPM_REGISTRY@,
        exists|i: int, configured: Option<String>|
            i < n && registry_answered(steps, replies, i, configured) && (
            steps[n]->Install_registry is Some <==> registry::default_registry(
                configured_address(configured),
            )),
{
    lemma_installation(platform, steps, replies, n);
}

/// An installation is announced as complete, and reported as a success, only
/// after npm succeeded.
pub proof fn law_success_only_after_npm_succeeded<P>(
    platform: Platform,
    steps: Seq<InstallStep<P>>,
    replies: Seq<InstallReply<P>>,
    n: int,
)
    requires
        is_installation(platform, steps, replies),
        0 <= n < steps.len(),
        steps[n] is AnnounceDone || steps[n] == InstallStep::<P>::Done(Ok(())),
    ensures
        exists|i: int| i < n && npm_succeeded(steps, replies, i),
{
    lemma_installation(platform, steps, replies, n);
}

/// An installation fails exactly if npm did not run to its end with success, on
/// every platform, and then says what went wrong.
pub proof fn law_installation_fails_exactly_if_npm_does(
    platform: Platform,
    outcome: InstallOutcome,
    result: Result<(), String>,
)
    requires
        call_ensures(install_result, (platform, outcome), result),
    ensures
        result is Ok <==> (outcome is Ended && outcome->success),
        failure(platform, outcome) is Some <==> !(outcome is Ended && outcome->success),
        outcome is NotStarted ==> result->Err_0@ == (match platform {
            Platform::Windows => "Failed to spawn npm install: "@,
            Platform::Unix => "Failed to run npm install: "@,
        }) + outcome->NotStarted_0@,
        outcome is Lost ==> result->Err_0@ == (match platform {
            Platform::Windows => "npm install process failed: "@,
            Platform::Unix => "Failed to run npm install: "@,
        }) + outcome->Lost_0@,
        outcome is Ended && !outcome->success ==> result->Err_0@ == (match platform {
            Platform::Windows => "npm install -g openclaw@latest failed"@,
            Platform::Unix => "npm install failed: "@ + text::output_text(outcome->stderr@),
        }),
{
}

/// When npm has run, the installation goes on to be announced as complete, and
/// then succeeds, exactly if npm ran to its end with success; whatever the
/// platform, and whatever the registry. Otherwise it fails at once.
pub proof fn law_installation_succeeds_whenever_npm_does<P>(
    platform: Platform,
    step: InstallStep<P>,
    outcome: InstallOutcome,
    next: InstallStep<P>,
    announced: InstallStep<P>,
)
    requires
        step is Install,
        call_ensures(install_openclaw::<P>, (platform, step, InstallReply::Ran(outcome)), next),
        call_ensures(install_openclaw::<P>, (platform, next, InstallReply::Announced), announced),
    ensures
        outcome is Ended && outcome->success ==> next is AnnounceDone && announced
            == InstallStep::<P>::Done(Ok(())),
        !(outcome is Ended && outcome->success) ==> next is Done && next->Done_0 is Err
            && announced == next,
{
}

/// A whole installation with npm's default registry, or with one that is not
/// known: it is announced, npm is found and asked, the mirror is announced, npm
/// installs through the mirror, and success is announced and reported.
pub proof fn law_installation_through_mirror_goes_its_way<P>(
    platform: Platform,
    steps: Seq<InstallStep<P>>,
    npm: P,
    configured: Option<String>,
    stderr: Vec<u8>,
)
    requires
        configured matches Some(address) ==> {
            let wanted = registry::normalized(address@);
            ||| wanted.len() == 0
            ||| wanted == "https://registry.npmjs.org"@
            ||| wanted == "http://registry.npmjs.org"@
        },
        is_installation(
            platform,
            steps,
            seq![
                InstallReply::Announced,
                InstallReply::Npm(Some(npm)),
                InstallReply::Registry(configured),
                InstallReply::Announced,
                InstallReply::Ran(InstallOutcome::Ended { success: true, stderr }),
                InstallReply::Announced,
            ],
        ),
    ensures
        steps[1] is FindNpm,
        steps[2] == (InstallStep::QueryRegistry { npm }),
        steps[3] matches InstallStep::AnnounceMirror { npm: p, mirror } && p == npm && mirror@
            == "https://registry.npmmirror.com"@,
        steps[4] matches InstallStep::Install { npm: p, registry: Some(r) } && p == npm && r@
            == "https://registry.npmmirror.com"@,
        steps[5] is AnnounceDone,
        steps[6] == InstallStep::<P>::Done(Ok(())),
{
    let replies = seq![
        InstallReply::Announced,
        InstallReply::Npm(Some(npm)),
        InstallReply::Registry(configured),
        InstallReply::Announced,
        InstallReply::Ran(InstallOutcome::Ended { success: true, stderr }),
        InstallReply::Announced,
    ];
    registry::law_default_registry_by_address(configured_address(configured));
    assert(install_follows(platform, steps[0], replies[0], steps[1]));
    assert(install_follows(platform, steps[1], replies[1], steps[2]));
    assert(install_follows(platform, steps[2], replies[2], steps[3]));
    assert(install_follows(platform, steps[3], replies[3], steps[4]));
    assert(install_follows(platform, steps[4], replies[4], steps[5]));
    assert(install_follows(platform, steps[5], replies[5], steps[6]));
}

/// A whole installation with another registry: npm installs through that one,
/// and no mirror is announced.
pub proof fn law_installation_through_own_registry_goes_its_way<P>(
    platform: Platform,
    steps: Seq<InstallStep<P>>,
    npm: P,
    address: String,
    stderr: Vec<u8>,
)
    requires
        registry::normalized(address@).len() > 0,
        registry::normalized(address@) != "https://registry.npmjs.org"@,
        registry::normalized(address@) != "http://registry.npmjs.org"@,
        is_installation(
            platform,
            steps,
            seq![
                InstallReply::Announced,
                InstallReply::Npm(Some(npm)),
                InstallReply::Registry(Some(address)),
                InstallReply::Ran(InstallOutcome::Ended { success: true, stderr }),
                InstallReply::Announced,
            ],
        ),
    ensures
        steps[1] is FindNpm,
        steps[2] == (InstallStep::QueryRegistry { npm }),
        steps[3] == (InstallStep::Install { npm, registry: None::<&'static str> }),
        steps[4] is AnnounceDone,
        steps[5] == InstallStep::<P>::Done(Ok(())),
{
    let replies = seq![
        InstallReply::Announced,
        InstallReply::Npm(Some(npm)),
        InstallReply::Registry(Some(address)),
        InstallReply::Ran(InstallOutcome::Ended { success: true, stderr }),
        InstallReply::Announced,
    ];
    registry::law_default_registry_by_address(configured_address(Some(address)));
    assert(install_follows(platform, steps[0], replies[0], steps[1]));
    assert(install_follows(platform, steps[1], replies[1], steps[2]));
    assert(install_follows(platform, steps[2], replies[2], steps[3]));
    assert(install_follows(platform, steps[3], replies[3], steps[4]));
    assert(install_follows(platform, steps[4], replies[4], steps[5]));
}

/// Without npm an installation fails, and says so. A reply that does not answer
/// the step that was taken changes nothing, and an end stays one.
pub proof fn law_installation_needs_npm<P>(
    platform: Platform,
    step: InstallStep<P>,
    reply: InstallReply<P>,
    next: InstallStep<P>,
)
    requires
        call_ensures(install_openclaw::<P>, (platform, step, reply), next),
    ensures
        step is FindNpm && reply is Npm && reply->Npm_0 is None ==> (
        next matches InstallStep::Done(Err(e)) && e@
            == "npm not found on PATH. Please install Node.js first."@),
        step is FindNpm && reply is Npm && reply->Npm_0 is Some ==> next
            == (InstallStep::QueryRegistry { npm: reply->Npm_0->0 }),
        step is AnnounceStart && !(reply is Announced) ==> next == step,
        step is FindNpm && !(reply is Npm) ==> next == step,
        step is QueryRegistry && !(reply is Registry) ==> next == step,
        step is AnnounceMirror && !(reply is Announced) ==> next == step,
        step is Install && !(reply is Ran) ==> next == step,
        step is AnnounceDone && !(reply is Announced) ==> next == step,
        step is Done ==> next == step,
{
}

/// Three steps announce something: the beginning, the use of the mirror and the
/// success, at nothing, eight and a hundred per cent. No other step does.
pub proof fn law_announcements<P>(step: InstallStep<P>, progress: Option<InstallProgress>)
    requires
        call_ensures(install_progress::<P>, (&step,), progress),
    ensures
        progress is Some <==> step is AnnounceStart || step is AnnounceMirror
            || step is AnnounceDone,
        step is AnnounceStart ==> progress->0.status@ == "installing"@ && progress->0.percent == 0
            && progress->0.message@ == "正在安装 OpenClaw，请稍候..."@,
        step is AnnounceMirror ==> progress->0.status@ == "installing"@ && progress->0.percent == 8
            && progress->0.message@
            == "检测到 npm 仍在使用默认源，本次安装将临时切换到国内镜像。"@,
        step is AnnounceDone ==> progress->0.status@ == "completed"@ && progress->0.percent == 100
            && progress->0.message@ == "OpenClaw 安装成功。"@,
        OPENCLAW_INSTALL_PROGRESS_EVENT@ == "openclaw-install-progress"@,
{
}

/// What follows each step of an installation that is answered, up to the run of
/// npm: the mirror is announced, and then used, exactly where npm uses its
/// default or none is known.
pub proof fn law_installation_goes_on<P>(
    platform: Platform,
    step: InstallStep<P>,
    reply: InstallReply<P>,
    next: InstallStep<P>,
)
    requires
        call_ensures(install_openclaw::<P>, (platform, step, reply), next),
    ensures
        step is AnnounceStart && reply is Announced ==> next is FindNpm,
        step is QueryRegistry && reply is Registry ==> {
            let configured = reply->Registry_0;
            if configured is None || {
                let wanted = registry::normalized(configured->0@);
                ||| wanted.len() == 0
                ||| wanted == "https://registry.npmjs.org"@
                ||| wanted == "http://registry.npmjs.org"@
            } {
                &&& next is AnnounceMirror
                &&& next->AnnounceMirror_npm == step->QueryRegistry_npm
                &&& next->mirror@ == "https://registry.npmmirror.com"@
            } else {
                next == (InstallStep::Install {
                    npm: step->QueryRegistry_npm,
                    registry: None::<&'static str>,
                })
            }
        },
        step is AnnounceMirror && reply is Announced ==> next == (InstallStep::Install {
            npm: step->AnnounceMirror_npm,
            registry: Some(step->mirror),
        }),
        step is AnnounceDone && reply is Announced ==> next == InstallStep::<P>::Done(Ok(())),
{
}

} // verus!
