//! What the launcher reports of the gateway.
use crate::commands::OPENCLAW_GATEWAY_PORT;
use crate::numbers;
use crate::numbers::decimal_text;
use crate::text::same_text;
use vstd::prelude::*;
use vstd::string::*;

verus! {

/// The address under which the gateway is reached from this machine.
pub const GATEWAY_HOST: &'static str = "127.0.0.1";

/// How long the gateway's port may take to answer, in seconds.
pub const PORT_PROBE_TIMEOUT_SECS: u64 = 2;

/// How long OpenClaw may take to state its version, in seconds.
pub const VERSION_TIMEOUT_SECS: u64 = 5;

/// The state of the gateway.
#[derive(Clone, Debug, PartialEq, Eq)]
pub struct OpenClawStatus {
    pub installed: bool,
    pub binary_path: Option<String>,
    pub version: Option<String>,
    pub gateway_url: Option<String>,
    pub gateway_port: u16,
    pub process_running: bool,
    pub pid: Option<u32>,
    pub port_open: bool,
    pub health: String,
    pub message: Option<String>,
}

/// The host to connect to in order to reach what is bound to a host: the
/// wildcard addresses stand for this machine.
pub open spec fn reachable_host(bind_host: Seq<char>) -> Seq<char> {
    if bind_host == "0.0.0.0"@ || bind_host == "::"@ {
        "127.0.0.1"@
    } else {
        bind_host
    }
}

/// The URL of a gateway that is bound to a host and a port.
pub open spec fn url_of(bind_host: Seq<char>, port: u16) -> Seq<char> {
    "http://"@ + reachable_host(bind_host) + ":"@ + numbers::decimal(port as nat) + "/"@
}

/// The URL of a gateway that is bound to a host and a port.
pub fn gateway_url(bind_host: &str, port: u16) -> (url: String)
    ensures
        url@ == url_of(bind_host@, port),
{
    let host = if same_text(bind_host, "0.0.0.0") || same_text(bind_host, "::") {
        "127.0.0.1"
    } else {
        bind_host
    };
    "http://".to_owned().concat(host).concat(":").concat(decimal_text(port as u32).as_str()).concat(
        "/",
    )
}

/// Whether an optional text holds the given characters, or none where none are
/// given.
pub open spec fn holds(found: Option<String>, expected: Option<Seq<char>>) -> bool {
    match (found, expected) {
        (Some(f), Some(e)) => f@ == e,
        (None, None) => true,
        _ => false,
    }
}

/// The word for the gateway's health: its process and its port have to agree.
pub open spec fn health_of(process_running: bool, port_open: bool) -> Seq<char> {
    if process_running && port_open {
        "running"@
    } else if !process_running && !port_open {
        "stopped"@
    } else {
        "degraded"@
    }
}

/// What is said about the gateway: something only where it is degraded.
pub open spec fn message_of(process_running: bool, port_open: bool) -> Option<Seq<char>> {
    if process_running && !port_open {
        Some("Gateway process is running but port is not responding."@)
    } else if !process_running && port_open {
        Some(
            "Port "@ + numbers::decimal(OPENCLAW_GATEWAY_PORT as nat)
                + " is occupied by another process."@,
        )
    } else {
        None
    }
}

/// The URL that is reported: that of the gateway, if its port is open.
pub open spec fn reported_url(port_open: bool) -> Option<Seq<char>> {
    if port_open {
        Some(url_of(GATEWAY_HOST@, OPENCLAW_GATEWAY_PORT))
    } else {
        None
    }
}

/// Whether a status says that OpenClaw is not installed, and nothing more.
pub open spec fn says_not_installed(status: OpenClawStatus) -> bool {
    &&& !status.installed
    &&& status.binary_path is None
    &&& status.version is None
    &&& status.gateway_url is None
    &&& status.gateway_port == OPENCLAW_GATEWAY_PORT
    &&& !status.process_running
    &&& status.pid is None
    &&& !status.port_open
    &&& status.health@ == "not-installed"@
    &&& status.message is None
}

/// Whether a status says what was found out about an OpenClaw that is installed.
pub open spec fn says(
    status: OpenClawStatus,
    bin: String,
    version: Option<String>,
    pid: Option<u32>,
    process_running: bool,
    port_open: bool,
) -> bool {
    &&& status.installed
    &&& status.binary_path == Some(bin)
    &&& status.version == version
    &&& holds(status.gateway_url, reported_url(port_open))
    &&& status.gateway_port == OPENCLAW_GATEWAY_PORT
    &&& status.process_running == process_running
    &&& status.pid == pid
    &&& status.port_open == port_open
    &&& status.health@ == health_of(process_running, port_open)
    &&& holds(status.message, message_of(process_running, port_open))
}

/// The status where OpenClaw is not installed.
pub fn openclaw_not_installed_status() -> (status: OpenClawStatus)
    ensures
        says_not_installed(status),
{
    OpenClawStatus {
        installed: false,
        binary_path: None,
        version: None,
        gateway_url: None,
        gateway_port: OPENCLAW_GATEWAY_PORT,
        process_running: false,
        pid: None,
        port_open: false,
        health: "not-installed".to_owned(),
        message: None,
    }
}

/// The status of an OpenClaw that is installed, from what was found out.
pub fn openclaw_installed_status(
    bin: String,
    version: Option<String>,
    pid: Option<u32>,
    process_running: bool,
    port_open: bool,
) -> (status: OpenClawStatus)
    ensures
        says(status, bin, version, pid, process_running, port_open),
{
    let health = if process_running && port_open {
        "running"
    } else if process_running && !port_open {
        "degraded"
    } else if !process_running && port_open {
        "degraded"
    } else {
        "stopped"
    };
    let url = if port_open {
        Some(gateway_url(GATEWAY_HOST, OPENCLAW_GATEWAY_PORT))
    } else {
        None
    };
    let message = if process_running && !port_open {
        Some("Gateway process is running but port is not responding.".to_owned())
    } else if !process_running && port_open {
        Some(
            "Port ".to_owned().concat(decimal_text(OPENCLAW_GATEWAY_PORT as u32).as_str()).concat(
                " is occupied by another process.",
            ),
        )
    } else {
        None
    };
    OpenClawStatus {
        installed: true,
        binary_path: Some(bin),
        version,
        gateway_url: url,
        gateway_port: OPENCLAW_GATEWAY_PORT,
        process_running,
        pid,
        port_open,
        health: health.to_owned(),
        message,
    }
}

/// What is to be found out next in order to report the gateway's status.
pub enum StatusStep {
    /// Find OpenClaw.
    FindBinary,
    /// Ask it for its version.
    QueryVersion { bin: String },
    /// Read which process is recorded as the gateway.
    ReadRecord { bin: String, version: Option<String> },
    /// Find out whether that process is alive.
    CheckProcess { bin: String, version: Option<String>, pid: u32 },
    /// Find out whether the gateway's port is open.
    ProbePort { bin: String, version: Option<String>, recorded: Option<u32>, process_running: bool },
    /// Nothing: this is the status.
    Report(OpenClawStatus),
}

/// What was found out.
pub enum StatusReply {
    /// Where OpenClaw is.
    Binary(Option<String>),
    /// Which version it states.
    Version(Option<String>),
    /// Which process is recorded.
    Recorded(Option<u32>),
    /// Whether the process is alive.
    Alive(bool),
    /// Whether the port is open.
    PortOpen(bool),
}

/// Whether `next` is the step that follows. A reply that does not answer the
/// step changes nothing.
pub open spec fn follows(step: StatusStep, reply: StatusReply, next: StatusStep) -> bool {
    match (step, reply) {
        (StatusStep::FindBinary, StatusReply::Binary(None)) => {
            next matches StatusStep::Report(status) && says_not_installed(status)
        },
        (StatusStep::FindBinary, StatusReply::Binary(Some(bin))) => {
            next == (StatusStep::QueryVersion { bin })
        },
        (StatusStep::QueryVersion { bin }, StatusReply::Version(version)) => {
            next == (StatusStep::ReadRecord { bin, version })
        },
        (StatusStep::ReadRecord { bin, version }, StatusReply::Recorded(Some(pid))) => {
            next == (StatusStep::CheckProcess { bin, version, pid })
        },
        (StatusStep::ReadRecord { bin, version }, StatusReply::Recorded(None)) => {
            next == (StatusStep::ProbePort { bin, version, recorded: None, process_running: false })
        },
        (StatusStep::CheckProcess { bin, version, pid }, StatusReply::Alive(alive)) => {
            next == (StatusStep::ProbePort {
                bin,
                version,
                recorded: Some(pid),
                process_running: alive,
            })
        },
        (
            StatusStep::ProbePort { bin, version, recorded, process_running },
            StatusReply::PortOpen(port_open),
        ) => {
            next matches StatusStep::Report(status) && says(
                status,
                bin,
                version,
                recorded,
                process_running,
                port_open,
            )
        },
        _ => next == step,
    }
}

/// Decides what is to be found out next in order to report the gateway's
/// status, beginning with [`StatusStep::FindBinary`].
pub fn get_openclaw_status(step: StatusStep, reply: StatusReply) -> (next: StatusStep)
    ensures
        follows(step, reply, next),
{
    match (step, reply) {
        (StatusStep::FindBinary, StatusReply::Binary(found)) => match found {
            Some(bin) => StatusStep::QueryVersion { bin },
            None => StatusStep::Report(openclaw_not_installed_status()),
        },
        (StatusStep::QueryVersion { bin }, StatusReply::Version(version)) => {
            StatusStep::ReadRecord { bin, version }
        },
        (StatusStep::ReadRecord { bin, version }, StatusReply::Recorded(recorded)) => {
            match recorded {
                Some(pid) => StatusStep::CheckProcess { bin, version, pid },
                None => StatusStep::ProbePort { bin, version, recorded: None, process_running: false },
            }
        },
        (StatusStep::CheckProcess { bin, version, pid }, StatusReply::Alive(alive)) => {
            StatusStep::ProbePort { bin, version, recorded: Some(pid), process_running: alive }
        },
        (
            StatusStep::ProbePort { bin, version, recorded, process_running },
            StatusReply::PortOpen(port_open),
        ) => {
            StatusStep::Report(
                openclaw_installed_status(bin, version, recorded, process_running, port_open),
            )
        },
        (step, _) => step,
    }
}

/// Whether a series of steps and replies is a run: it begins at the beginning,
/// and each step follows from the one before and the reply to it.
pub open spec fn is_status_run(steps: Seq<StatusStep>, replies: Seq<StatusReply>) -> bool {
    &&& steps.len() == replies.len() + 1
    &&& steps[0] is FindBinary
    &&& forall|i: int|
        0 <= i < replies.len() ==> follows(steps[i], #[trigger] replies[i], steps[i + 1])
}

/// Whether the parts of a status agree with one another.
pub open spec fn consistent(status: OpenClawStatus) -> bool {
    if status.installed {
        &&& status.binary_path is Some
        &&& holds(status.gateway_url, reported_url(status.port_open))
        &&& status.gateway_port == OPENCLAW_GATEWAY_PORT
        &&& status.process_running ==> status.pid is Some
        &&& status.health@ == health_of(status.process_running, status.port_open)
        &&& holds(status.message, message_of(status.process_running, status.port_open))
    } else {
        says_not_installed(status)
    }
}

/// Every status that is reported is consistent, whatever was found out.
pub proof fn law_reported_status_is_consistent(steps: Seq<StatusStep>, replies: Seq<StatusReply>)
    requires
        is_status_run(steps, replies),
    ensures
        steps.last() matches StatusStep::Report(status) ==> consistent(status),
{
    lemma_status_run(steps, replies, replies.len() as int);
}

/// What holds of every step of a run.
proof fn lemma_status_run(steps: Seq<StatusStep>, replies: Seq<StatusReply>, n: int)
    requires
        is_status_run(steps, replies),
        0 <= n <= replies.len(),
    ensures
        match steps[n] {
            StatusStep::ProbePort { recorded, process_running, .. } => process_running
                ==> recorded is Some,
            StatusStep::Report(status) => consistent(status),
            _ => true,
        },
    decreases n,
{
    if n > 0 {
        lemma_status_run(steps, replies, n - 1);
        assert(follows(steps[n - 1], replies[n - 1], steps[n]));
    }
}

/// The word for the health of the gateway tells the state that it is in: of an
/// OpenClaw that is installed, it is `running` if both the process and the port
/// are there, `stopped` if neither is, and else `degraded`; and only then is
/// there a message.
pub proof fn law_health_tells_the_state(status: OpenClawStatus)
    requires
        consistent(status),
    ensures
        status.health@ == "running"@ <==> status.installed && status.process_running
            && status.port_open,
        status.health@ == "stopped"@ <==> status.installed && !status.process_running
            && !status.port_open,
        status.health@ == "degraded"@ <==> status.installed && status.process_running
            != status.port_open,
        status.health@ == "not-installed"@ <==> !status.installed,
        status.message is Some <==> status.health@ == "degraded"@,
        status.gateway_url is Some <==> status.installed && status.port_open,
{
    reveal_strlit("running");
    reveal_strlit("stopped");
    reveal_strlit("degraded");
    reveal_strlit("not-installed");
    assert("running"@.len() == 7 && "stopped"@.len() == 7 && "running"@[0] != "stopped"@[0]);
    assert("degraded"@.len() == 8 && "not-installed"@.len() == 13);
}

/// A URL never names a wildcard address: nothing can be reached under one.
pub proof fn law_url_names_no_wildcard(bind_host: Seq<char>)
    ensures
        reachable_host(bind_host) != "0.0.0.0"@,
        reachable_host(bind_host) != "::"@,
{
    reveal_strlit("0.0.0.0");
    reveal_strlit("::");
    reveal_strlit("127.0.0.1");
    assert("127.0.0.1"@.len() == 9 && "0.0.0.0"@.len() == 7 && "::"@.len() == 2);
}

/// Whether a step was answered with the given reply.
pub open spec fn replied(
    steps: Seq<StatusStep>,
    replies: Seq<StatusReply>,
    i: int,
    step: StatusStep,
    reply: StatusReply,
) -> bool {
    &&& 0 <= i < replies.len()
    &&& steps[i] == step
    &&& replies[i] == reply
}

/// Whether what a run has found out of an OpenClaw that is installed stands in
/// its replies: where it is, which version it states, which process is recorded,
/// and whether that one is alive.
spec fn found_out(
    steps: Seq<StatusStep>,
    replies: Seq<StatusReply>,
    bin: String,
    version: Option<String>,
    pid: Option<u32>,
    process_running: bool,
) -> bool {
    &&& exists|i: int|
        replied(steps, replies, i, StatusStep::FindBinary, StatusReply::Binary(Some(bin)))
    &&& exists|i: int|
        replied(
            steps,
            replies,
            i,
            StatusStep::QueryVersion { bin },
            StatusReply::Version(version),
        )
    &&& exists|i: int|
        replied(
            steps,
            replies,
            i,
            StatusStep::ReadRecord { bin, version },
            StatusReply::Recorded(pid),
        )
    &&& match pid {
        Some(p) => exists|i: int|
            replied(
                steps,
                replies,
                i,
                StatusStep::CheckProcess { bin, version, pid: p },
                StatusReply::Alive(process_running),
            ),
        None => !process_running,
    }
}

/// Whether what a step goes by stands in the replies before it.
spec fn grounded(steps: Seq<StatusStep>, replies: Seq<StatusReply>, step: StatusStep) -> bool {
    match step {
        StatusStep::FindBinary => true,
        StatusStep::QueryVersion { bin } => exists|i: int|
            replied(steps, replies, i, StatusStep::FindBinary, StatusReply::Binary(Some(bin))),
        StatusStep::ReadRecord { bin, version } => {
            &&& exists|i: int|
                replied(
                    steps,
                    replies,
                    i,
                    StatusStep::FindBinary,
                    StatusReply::Binary(Some(bin)),
                )
            &&& exists|i: int|
                replied(
                    steps,
                    replies,
                    i,
                    StatusStep::QueryVersion { bin },
                    StatusReply::Version(version),
                )
        },
        StatusStep::CheckProcess { bin, version, pid } => {
            &&& exists|i: int|
                replied(
                    steps,
                    replies,
                    i,
                    StatusStep::FindBinary,
                    StatusReply::Binary(Some(bin)),
                )
            &&& exists|i: int|
                replied(
                    steps,
                    replies,
                    i,
                    StatusStep::QueryVersion { bin },
                    StatusReply::Version(version),
                )
            &&& exists|i: int|
                replied(
                    steps,
                    replies,
                    i,
                    StatusStep::ReadRecord { bin, version },
                    StatusReply::Recorded(Some(pid)),
                )
        },
        StatusStep::ProbePort { bin, version, recorded, process_running } => found_out(
            steps,
            replies,
            bin,
            version,
            recorded,
            process_running,
        ),
        StatusStep::Report(status) => if status.installed {
            &&& status.binary_path is Some
            &&& found_out(
                steps,
                replies,
                status.binary_path->0,
                status.version,
                status.pid,
                status.process_running,
            )
            &&& exists|i: int|
                replied(
                    steps,
                    replies,
                    i,
                    StatusStep::ProbePort {
                        bin: status.binary_path->0,
                        version: status.version,
                        recorded: status.pid,
                        process_running: status.process_running,
                    },
                    StatusReply::PortOpen(status.port_open),
                )
        } else {
            exists|i: int|
                replied(steps, replies, i, StatusStep::FindBinary, StatusReply::Binary(None))
        },
    }
}

/// Every step of a run goes by what was found out.
proof fn lemma_found_out(steps: Seq<StatusStep>, replies: Seq<StatusReply>, n: int)
    requires
        is_status_run(steps, replies),
        0 <= n <= replies.len(),
    ensures
        grounded(steps, replies, steps[n]),
    decreases n,
{
    if n > 0 {
        let m = n - 1;
        lemma_found_out(steps, replies, m);
        assert(follows(steps[m], replies[m], steps[n]));
        assert(replied(steps, replies, m, steps[m], replies[m]));
        match (steps[m], replies[m]) {
            (StatusStep::FindBinary, StatusReply::Binary(Some(bin))) => {
                let reply = StatusReply::Binary(Some(bin));
                assert(replied(steps, replies, m, StatusStep::FindBinary, reply));
                assert(grounded(steps, replies, steps[n]));
            },
            (StatusStep::FindBinary, StatusReply::Binary(None)) => {
                let reply = StatusReply::Binary(None);
                assert(replied(steps, replies, m, StatusStep::FindBinary, reply));
                assert(grounded(steps, replies, steps[n]));
            },
            (StatusStep::QueryVersion { bin }, StatusReply::Version(version)) => {
                let step = StatusStep::QueryVersion { bin };
                assert(replied(steps, replies, m, step, StatusReply::Version(version)));
                assert(grounded(steps, replies, steps[n]));
            },
            (StatusStep::ReadRecord { bin, version }, StatusReply::Recorded(pid)) => {
                let step = StatusStep::ReadRecord { bin, version };
                assert(replied(steps, replies, m, step, StatusReply::Recorded(pid)));
                if pid is None {
                    assert(found_out(steps, replies, bin, version, pid, false));
                }
                assert(grounded(steps, replies, steps[n]));
            },
            (StatusStep::CheckProcess { bin, version, pid }, StatusReply::Alive(alive)) => {
                let step = StatusStep::CheckProcess { bin, version, pid };
                assert(replied(steps, replies, m, step, StatusReply::Alive(alive)));
                assert(found_out(steps, replies, bin, version, Some(pid), alive));
                assert(grounded(steps, replies, steps[n]));
            },
            (
                StatusStep::ProbePort { bin, version, recorded, process_running },
                StatusReply::PortOpen(open),
            ) => {
                let step = StatusStep::ProbePort { bin, version, recorded, process_running };
                assert(replied(steps, replies, m, step, StatusReply::PortOpen(open)));
                let status = steps[n]->Report_0;
                assert(steps[n] is Report && status.installed);
                assert(step == (StatusStep::ProbePort {
                    bin: status.binary_path->0,
                    version: status.version,
                    recorded: status.pid,
                    process_running: status.process_running,
                }));
                assert(grounded(steps, replies, steps[n]));
            },
            _ => {
                assert(steps[n] == steps[m]);
            },
        }
    }
}

/// Every report says what was found out. Of an OpenClaw that is installed, its
/// path, its version, the recorded process and the state of the port are the
/// replies to the steps that asked for them; the process is reported as running
/// exactly if one is recorded and the reply to the check of that very process was
/// that it is alive. OpenClaw is reported as not installed only where none was
/// found.
pub proof fn law_report_says_what_was_found_out(
    steps: Seq<StatusStep>,
    replies: Seq<StatusReply>,
    status: OpenClawStatus,
)
    requires
        is_status_run(steps, replies),
        steps.last() == StatusStep::Report(status),
    ensures
        status.installed ==> {
            &&& status.binary_path is Some
            &&& exists|i: int|
                0 <= i < replies.len() && (#[trigger] steps[i] is FindBinary) && replies[i]
                    == StatusReply::Binary(status.binary_path)
            &&& exists|i: int|
                0 <= i < replies.len() && (#[trigger] steps[i] is QueryVersion) && replies[i]
                    == StatusReply::Version(status.version)
            &&& exists|i: int|
                0 <= i < replies.len() && (#[trigger] steps[i] is ReadRecord) && replies[i]
                    == StatusReply::Recorded(status.pid)
            &&& exists|i: int|
                0 <= i < replies.len() && (#[trigger] steps[i] is ProbePort) && replies[i]
                    == StatusReply::PortOpen(status.port_open)
            &&& status.pid is Some ==> exists|i: int|
                0 <= i < replies.len() && (#[trigger] steps[i] is CheckProcess)
                    && steps[i]->CheckProcess_pid == status.pid->0 && replies[i]
                    == StatusReply::Alive(status.process_running)
            &&& status.pid is None ==> !status.process_running
        },
        !status.installed ==> exists|i: int|
            0 <= i < replies.len() && (#[trigger] steps[i] is FindBinary) && replies[i]
                == StatusReply::Binary(None),
{
    lemma_found_out(steps, replies, replies.len() as int);
    if status.installed {
        let bin = status.binary_path->0;
        let i = choose|i: int|
            replied(steps, replies, i, StatusStep::FindBinary, StatusReply::Binary(Some(bin)));
        assert(steps[i] is FindBinary);
        let i = choose|i: int|
            replied(
                steps,
                replies,
                i,
                StatusStep::QueryVersion { bin },
                StatusReply::Version(status.version),
            );
        assert(steps[i] is QueryVersion);
        let i = choose|i: int|
            replied(
                steps,
                replies,
                i,
                StatusStep::ReadRecord { bin, version: status.version },
                StatusReply::Recorded(status.pid),
            );
        assert(steps[i] is ReadRecord);
        let probe = StatusStep::ProbePort {
            bin,
            version: status.version,
            recorded: status.pid,
            process_running: status.process_running,
        };
        let i = choose|i: int|
            replied(steps, replies, i, probe, StatusReply::PortOpen(status.port_open));
        assert(steps[i] is ProbePort);
        if status.pid is Some {
            let check = StatusStep::CheckProcess {
                bin,
                version: status.version,
                pid: status.pid->0,
            };
            let i = choose|i: int|
                replied(steps, replies, i, check, StatusReply::Alive(status.process_running));
            assert(steps[i] is CheckProcess);
        }
    } else {
        let i = choose|i: int|
            replied(steps, replies, i, StatusStep::FindBinary, StatusReply::Binary(None));
        assert(steps[i] is FindBinary);
    }
}

/// A process whose state was asked for and is recorded: the report comes after
/// five replies, and each part of it is the reply to one of them. The health, the
/// message and the URL follow from whether the process is alive and the port open.
pub proof fn law_five_replies_make_a_report(
    steps: Seq<StatusStep>,
    bin: String,
    version: Option<String>,
    pid: u32,
    alive: bool,
    open: bool,
)
    requires
        is_status_run(
            steps,
            seq![
                StatusReply::Binary(Some(bin)),
                StatusReply::Version(version),
                StatusReply::Recorded(Some(pid)),
                StatusReply::Alive(alive),
                StatusReply::PortOpen(open),
            ],
        ),
    ensures
        steps[5] matches StatusStep::Report(status) && {
            &&& status.installed
            &&& status.binary_path == Some(bin)
            &&& status.version == version
            &&& status.pid == Some(pid)
            &&& status.process_running == alive
            &&& status.port_open == open
            &&& status.gateway_port == 18789
            &&& reads_as_found(status)
        },
{
    let replies = seq![
        StatusReply::Binary(Some(bin)),
        StatusReply::Version(version),
        StatusReply::Recorded(Some(pid)),
        StatusReply::Alive(alive),
        StatusReply::PortOpen(open),
    ];
    assert(follows(steps[0], replies[0], steps[1]));
    assert(follows(steps[1], replies[1], steps[2]));
    assert(follows(steps[2], replies[2], steps[3]));
    assert(follows(steps[3], replies[3], steps[4]));
    assert(follows(steps[4], replies[4], steps[5]));
    lemma_says_reads_as_found(steps[5]->Report_0, bin, version, Some(pid), alive, open);
}

/// Where no process is recorded none is asked about: the report comes after four
/// replies, and no process is said to run.
pub proof fn law_four_replies_make_a_report_without_process(
    steps: Seq<StatusStep>,
    bin: String,
    version: Option<String>,
    open: bool,
)
    requires
        is_status_run(
            steps,
            seq![
                StatusReply::Binary(Some(bin)),
                StatusReply::Version(version),
                StatusReply::Recorded(None),
                StatusReply::PortOpen(open),
            ],
        ),
    ensures
        steps[4] matches StatusStep::Report(status) && {
            &&& status.installed
            &&& status.binary_path == Some(bin)
            &&& status.version == version
            &&& status.pid == None::<u32>
            &&& !status.process_running
            &&& status.port_open == open
            &&& status.gateway_port == 18789
            &&& reads_as_found(status)
        },
{
    let replies = seq![
        StatusReply::Binary(Some(bin)),
        StatusReply::Version(version),
        StatusReply::Recorded(None),
        StatusReply::PortOpen(open),
    ];
    assert(follows(steps[0], replies[0], steps[1]));
    assert(follows(steps[1], replies[1], steps[2]));
    assert(follows(steps[2], replies[2], steps[3]));
    assert(follows(steps[3], replies[3], steps[4]));
    lemma_says_reads_as_found(steps[4]->Report_0, bin, version, None, false, open);
}

/// Whether the words of a status are those for the state of its process and its
/// port.
pub open spec fn reads_as_found(status: OpenClawStatus) -> bool {
    match (status.process_running, status.port_open) {
        (true, true) => {
            &&& status.health@ == "running"@
            &&& status.message is None
            &&& status.gateway_url matches Some(url) && url@ == "http://127.0.0.1:18789/"@
        },
        (true, false) => {
            &&& status.health@ == "degraded"@
            &&& status.message matches Some(message) && message@
                == "Gateway process is running but port is not responding."@
            &&& status.gateway_url is None
        },
        (false, true) => {
            &&& status.health@ == "degraded"@
            &&& status.message matches Some(message) && message@
                == "Port 18789 is occupied by another process."@
            &&& status.gateway_url matches Some(url) && url@ == "http://127.0.0.1:18789/"@
        },
        (false, false) => {
            &&& status.health@ == "stopped"@
            &&& status.message is None
            &&& status.gateway_url is None
        },
    }
}

/// The gateway's own URL, and the message that names its port.
pub proof fn lemma_gateway_texts()
    ensures
        url_of(GATEWAY_HOST@, OPENCLAW_GATEWAY_PORT) == "http://127.0.0.1:18789/"@,
        "Port "@ + numbers::decimal(18789) + " is occupied by another process."@
            == "Port 18789 is occupied by another process."@,
{
    numbers::lemma_port_numeral();
    reveal_strlit("18789");
    reveal_strlit("127.0.0.1");
    reveal_strlit("0.0.0.0");
    reveal_strlit("::");
    reveal_strlit("http://");
    reveal_strlit(":");
    reveal_strlit("/");
    reveal_strlit("http://127.0.0.1:18789/");
    reveal_strlit("Port ");
    reveal_strlit(" is occupied by another process.");
    reveal_strlit("Port 18789 is occupied by another process.");
    assert("127.0.0.1"@.len() == 9 && "0.0.0.0"@.len() == 7 && "::"@.len() == 2);
    assert(url_of(GATEWAY_HOST@, OPENCLAW_GATEWAY_PORT) =~= "http://127.0.0.1:18789/"@);
    assert("Port "@ + numbers::decimal(18789) + " is occupied by another process."@
        =~= "Port 18789 is occupied by another process."@);
}

/// A status that says what was found out has the words for it.
proof fn lemma_says_reads_as_found(
    status: OpenClawStatus,
    bin: String,
    version: Option<String>,
    pid: Option<u32>,
    process_running: bool,
    port_open: bool,
)
    requires
        says(status, bin, version, pid, process_running, port_open),
    ensures
        reads_as_found(status),
        status.gateway_port == 18789,
{
    lemma_gateway_texts();
}

/// However a status is put together from what was found out, its parts are that,
/// and its words are those for the state of the process and the port.
pub proof fn law_installed_status_reads_as_found(
    bin: String,
    version: Option<String>,
    pid: Option<u32>,
    process_running: bool,
    port_open: bool,
    status: OpenClawStatus,
)
    requires
        call_ensures(
            openclaw_installed_status,
            (bin, version, pid, process_running, port_open),
            status,
        ),
    ensures
        status.installed,
        status.binary_path == Some(bin),
        status.version == version,
        status.pid == pid,
        status.process_running == process_running,
        status.port_open == port_open,
        status.gateway_port == 18789,
        reads_as_found(status),
{
    lemma_says_reads_as_found(status, bin, version, pid, process_running, port_open);
}

/// Where OpenClaw is not found, the very first reply makes the report: it is not
/// installed, and nothing else is claimed.
pub proof fn law_missing_openclaw_is_reported(steps: Seq<StatusStep>)
    requires
        is_status_run(steps, seq![StatusReply::Binary(None)]),
    ensures
        steps[1] matches StatusStep::Report(status) && {
            &&& !status.installed && !status.process_running && !status.port_open
            &&& status.binary_path is None && status.version is None && status.pid is None
            &&& status.gateway_url is None && status.message is None
            &&& status.gateway_port == 18789
            &&& status.health@ == "not-installed"@
        },
{
    let replies = seq![StatusReply::Binary(None)];
    assert(follows(steps[0], replies[0], steps[1]));
}

/// A reply that does not answer the step that was taken changes nothing, and a
/// report stays as it is.
pub proof fn law_status_minds_only_answers(step: StatusStep, reply: StatusReply, next: StatusStep)
    requires
        call_ensures(get_openclaw_status, (step, reply), next),
    ensures
        step is FindBinary && !(reply is Binary) ==> next == step,
        step is QueryVersion && !(reply is Version) ==> next == step,
        step is ReadRecord && !(reply is Recorded) ==> next == step,
        step is CheckProcess && !(reply is Alive) ==> next == step,
        step is ProbePort && !(reply is PortOpen) ==> next == step,
        step is Report ==> next == step,
{
}

/// A URL is made of the host and the port's number: the two wildcard addresses
/// are reached at this machine's own, and every other host under its own name.
pub proof fn law_url_names_host_and_port(host: &str, port: u16, url: String)
    requires
        call_ensures(gateway_url, (host, port), url),
    ensures
        host@ == "0.0.0.0"@ || host@ == "::"@ ==> url@ == "http://127.0.0.1:"@
            + numbers::decimal(port as nat) + "/"@,
        host@ != "0.0.0.0"@ && host@ != "::"@ ==> url@ == "http://"@ + host@ + ":"@
            + numbers::decimal(port as nat) + "/"@,
{
    reveal_strlit("http://");
    reveal_strlit("127.0.0.1");
    reveal_strlit(":");
    reveal_strlit("http://127.0.0.1:");
    assert("http://"@ + "127.0.0.1"@ + ":"@ =~= "http://127.0.0.1:"@);
}

/// The gateway is reached on this machine; its port may take two seconds to
/// answer, and OpenClaw five to state its version.
pub proof fn law_status_limits()
    ensures
        GATEWAY_HOST@ == "127.0.0.1"@,
        PORT_PROBE_TIMEOUT_SECS == 2,
        VERSION_TIMEOUT_SECS == 5,
{
}

/// What follows each step of a report that is answered.
pub proof fn law_status_goes_on(step: StatusStep, reply: StatusReply, next: StatusStep)
    requires
        call_ensures(get_openclaw_status, (step, reply), next),
    ensures
        step is FindBinary && reply is Binary && reply->Binary_0 is Some ==> next
            == (StatusStep::QueryVersion { bin: reply->Binary_0->0 }),
        step is FindBinary && reply is Binary && reply->Binary_0 is None ==> next is Report
            && !next->Report_0.installed,
        step is QueryVersion && reply is Version ==> next == (StatusStep::ReadRecord {
            bin: step->QueryVersion_bin,
            version: reply->Version_0,
        }),
        step is ReadRecord && reply is Recorded && reply->Recorded_0 is Some ==> next
            == (StatusStep::CheckProcess {
            bin: step->ReadRecord_bin,
            version: step->ReadRecord_version,
            pid: reply->Recorded_0->0,
        }),
        step is ReadRecord && reply is Recorded && reply->Recorded_0 is None ==> next
            == (StatusStep::ProbePort {
            bin: step->ReadRecord_bin,
            version: step->ReadRecord_version,
            recorded: None,
            process_running: false,
        }),
        step is CheckProcess && reply is Alive ==> next == (StatusStep::ProbePort {
            bin: step->CheckProcess_bin,
            version: step->CheckProcess_version,
            recorded: Some(step->CheckProcess_pid),
            process_running: reply->Alive_0,
        }),
        step is ProbePort && reply is PortOpen ==> {
            let status = next->Report_0;
            &&& next is Report
            &&& status.installed
            &&& status.binary_path == Some(step->ProbePort_bin)
            &&& status.version == step->ProbePort_version
            &&& status.pid == step->recorded
            &&& status.process_running == step->process_running
            &&& status.port_open == reply->PortOpen_0
            &&& status.gateway_port == 18789
            &&& reads_as_found(status)
        },
{
    lemma_gateway_texts();
}

/// The status without OpenClaw claims nothing but that.
pub proof fn law_not_installed_status_claims_nothing(status: OpenClawStatus)
    requires
        call_ensures(openclaw_not_installed_status, (), status),
    ensures
        !status.installed && !status.process_running && !status.port_open,
        status.binary_path is None && status.version is None && status.pid is None,
        status.gateway_url is None && status.message is None,
        status.gateway_port == 18789,
        status.health@ == "not-installed"@,
{
}

} // verus!
