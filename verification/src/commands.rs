//! The programs that the launcher runs, and what it reads from their output.
use crate::environment;
use crate::environment::filtered_openclaw_env;
use crate::numbers;
use crate::numbers::{decimal_text, parse_u32};
use crate::text;
use crate::text::{contains, read_output, eq_ignore_ascii_case, first_line, no_texts, push_text, trim};
use vstd::prelude::*;
use vstd::string::*;

verus! {

/// The port that the gateway listens on.
pub const OPENCLAW_GATEWAY_PORT: u16 = 18789;

/// The flag under which Windows starts a program without a console window.
pub const CREATE_NO_WINDOW: u32 = 0x08000000;

/// The family of operating systems that the launcher runs on.
#[derive(Clone, Copy, Debug, PartialEq, Eq, Structural)]
pub enum Platform {
    Windows,
    Unix,
}

/// The environment that a program is started in.
pub enum Environment {
    /// That of the launcher.
    Inherited,
    /// That of the launcher, with some variables set.
    InheritedWith(Vec<(String, String)>),
    /// These variables and no others.
    Only(Vec<(String, String)>),
}

/// A program to run, with its arguments.
pub struct CommandLine<P> {
    pub program: P,
    pub args: Vec<String>,
    pub env: Environment,
    /// Whether Windows is to show no console window for it.
    pub no_window: bool,
}

impl<P> CommandLine<P> {
    /// The arguments, as sequences of characters.
    pub open spec fn arguments(self) -> Seq<Seq<char>> {
        text::texts(self.args@)
    }
}

/// What a program that ran to its end left behind.
pub struct CommandOutput {
    pub success: bool,
    pub stdout: Vec<u8>,
    pub stderr: Vec<u8>,
}

/// Lists the process with the given identifier, if there is one (Windows).
pub fn process_query(pid: u32) -> (command: CommandLine<String>)
    ensures
        command.program@ == "tasklist"@,
        command.arguments() == seq!["/FI"@, "PID eq "@ + numbers::decimal(pid as nat), "/NH"@],
        command.env is Inherited,
        command.no_window,
{
    let mut args = no_texts();
    push_text(&mut args, "/FI".to_owned());
    push_text(&mut args, "PID eq ".to_owned().concat(decimal_text(pid).as_str()));
    push_text(&mut args, "/NH".to_owned());
    CommandLine {
        program: "tasklist".to_owned(),
        args,
        env: Environment::Inherited,
        no_window: true,
    }
}

/// Whether a listing of processes shows a process.
pub open spec fn listing_shows(listing: Seq<char>, pid: u32) -> bool {
    text::has_part(listing, numbers::decimal(pid as nat))
}

/// Whether a listing of processes shows a process.
pub fn listing_has_pid(listing: &str, pid: u32) -> (shown: bool)
    ensures
        shown == listing_shows(listing@, pid),
{
    contains(listing, decimal_text(pid).as_str())
}

/// Whether the output of [`process_query`] shows the process (Windows).
pub fn is_process_alive(stdout: &[u8], pid: u32) -> (alive: bool)
    ensures
        alive == listing_shows(text::output_text(stdout@), pid),
{
    let listing = read_output(stdout);
    listing_has_pid(listing.as_str(), pid)
}

/// The script that prints the processes that listen on a port (Windows).
pub open spec fn netstat_script(port: u16) -> Seq<char> {
    "for /f \"tokens=5\" %a in ('netstat -ano ^| findstr :"@ + numbers::decimal(port as nat)
        + " ^| findstr LISTENING') do @echo %a"@
}

/// Prints the processes that listen on a port, one in each line. A process that
/// is merely connected to the port is none of them.
pub fn listener_query(platform: Platform, port: u16) -> (command: CommandLine<String>)
    ensures
        match platform {
            Platform::Windows => {
                &&& command.program@ == "cmd"@
                &&& command.arguments() == seq!["/C"@, netstat_script(port)]
                &&& command.no_window
            },
            Platform::Unix => {
                &&& command.program@ == "lsof"@
                &&& command.arguments() == seq![
                    "-i"@,
                    "tcp:"@ + numbers::decimal(port as nat),
                    "-s"@,
                    "tcp:LISTEN"@,
                    "-t"@,
                ]
                &&& !command.no_window
            },
        },
        command.env is Inherited,
{
    let number = decimal_text(port as u32);
    let mut args = no_texts();
    match platform {
        Platform::Windows => {
            push_text(&mut args, "/C".to_owned());
            push_text(
                &mut args,
                "for /f \"tokens=5\" %a in ('netstat -ano ^| findstr :".to_owned().concat(
                    number.as_str(),
                ).concat(" ^| findstr LISTENING') do @echo %a"),
            );
            CommandLine {
                program: "cmd".to_owned(),
                args,
                env: Environment::Inherited,
                no_window: true,
            }
        },
        Platform::Unix => {
            push_text(&mut args, "-i".to_owned());
            push_text(&mut args, "tcp:".to_owned().concat(number.as_str()));
            push_text(&mut args, "-s".to_owned());
            push_text(&mut args, "tcp:LISTEN".to_owned());
            push_text(&mut args, "-t".to_owned());
            CommandLine {
                program: "lsof".to_owned(),
                args,
                env: Environment::Inherited,
                no_window: false,
            }
        },
    }
}

/// The process that a listing names in its first line: nothing but its number,
/// with white space around it or not.
pub open spec fn first_listed_pid(listing: Seq<char>) -> Option<u32> {
    match text::first_line_of(listing) {
        Some(line) => numbers::spelled_u32(text::trimmed(line)),
        None => None,
    }
}

/// The process that a listing names in its first line.
pub fn pid_on_first_line(listing: &str) -> (pid: Option<u32>)
    ensures
        pid == first_listed_pid(listing@),
{
    match first_line(listing) {
        Some(line) => parse_u32(trim(line.as_str()).as_str()),
        None => None,
    }
}

/// The process that the output of [`listener_query`] names first.
pub fn find_pid_by_port(stdout: &[u8]) -> (pid: Option<u32>)
    ensures
        pid == first_listed_pid(text::output_text(stdout@)),
{
    let listing = read_output(stdout);
    pid_on_first_line(listing.as_str())
}

/// Asks npm for the registry that it is configured with.
pub fn registry_query<P>(npm: P) -> (command: CommandLine<P>)
    ensures
        command.program == npm,
        command.arguments() == seq!["config"@, "get"@, "registry"@],
        command.env is Inherited,
        command.no_window,
{
    let mut args = no_texts();
    push_text(&mut args, "config".to_owned());
    push_text(&mut args, "get".to_owned());
    push_text(&mut args, "registry".to_owned());
    CommandLine { program: npm, args, env: Environment::Inherited, no_window: true }
}

/// The registry that npm's answer names: the whole answer but for white space
/// around it, unless that is nothing or the word `undefined`.
pub open spec fn answered_registry(answer: Seq<char>) -> Option<Seq<char>> {
    let name = text::trimmed(answer);
    if name.len() == 0 || text::lowered(name) == text::lowered("undefined"@) {
        None
    } else {
        Some(name)
    }
}

/// The registry that npm's answer names.
pub fn registry_in_answer(answer: &str) -> (registry: Option<String>)
    ensures
        registry is Some <==> answered_registry(answer@) is Some,
        registry matches Some(r) ==> Some(r@) == answered_registry(answer@),
{
    let name = trim(answer);
    if name.as_str().is_empty() || eq_ignore_ascii_case(name.as_str(), "undefined") {
        None
    } else {
        Some(name)
    }
}

/// The registry that npm is configured with, from what [`registry_query`] left
/// behind. It is unknown where the query could not be run or failed.
pub fn get_npm_registry(output: Option<&CommandOutput>) -> (registry: Option<String>)
    ensures
        registry is Some <==> (output matches Some(o) && o.success && answered_registry(
            text::output_text(o.stdout@),
        ) is Some),
        registry matches Some(r) ==> Some(r@) == answered_registry(
            text::output_text(output->0.stdout@),
        ),
{
    match output {
        Some(output) => if output.success {
            let answer = read_output(output.stdout.as_slice());
            registry_in_answer(answer.as_str())
        } else {
            None
        },
        None => None,
    }
}

/// Asks OpenClaw for its version.
pub fn version_query(bin: String) -> (command: CommandLine<String>)
    ensures
        command.program == bin,
        command.arguments() == seq!["--version"@],
        command.env is Inherited,
        command.no_window,
{
    let mut args = no_texts();
    push_text(&mut args, "--version".to_owned());
    CommandLine { program: bin, args, env: Environment::Inherited, no_window: true }
}

/// The version that an answer states: its first line, without the white space
/// around it.
pub open spec fn stated_version(answer: Seq<char>) -> Option<Seq<char>> {
    match text::first_line_of(answer) {
        Some(line) => Some(text::trimmed(line)),
        None => None,
    }
}

/// The version that an answer states.
pub fn version_in_answer(answer: &str) -> (version: Option<String>)
    ensures
        version is Some <==> stated_version(answer@) is Some,
        version matches Some(v) ==> Some(v@) == stated_version(answer@),
{
    match first_line(answer) {
        Some(line) => Some(trim(line.as_str())),
        None => None,
    }
}

/// OpenClaw's version, from what [`version_query`] left behind. It is unknown
/// where the query could not be run, failed or took too long.
pub fn openclaw_version(output: Option<&CommandOutput>) -> (version: Option<String>)
    ensures
        version is Some <==> (output matches Some(o) && o.success && stated_version(
            text::output_text(o.stdout@),
        ) is Some),
        version matches Some(v) ==> Some(v@) == stated_version(
            text::output_text(output->0.stdout@),
        ),
{
    match output {
        Some(output) => if output.success {
            let answer = read_output(output.stdout.as_slice());
            version_in_answer(answer.as_str())
        } else {
            None
        },
        None => None,
    }
}

/// Whether an environment is the launcher's own with npm's registry set to the
/// given one, under both spellings of the variable.
pub open spec fn sets_registry(env: Environment, registry: Seq<char>) -> bool {
    env matches Environment::InheritedWith(vars) && {
        &&& vars@.len() == 2
        &&& vars@[0].0@ == "npm_config_registry"@
        &&& vars@[0].1@ == registry
        &&& vars@[1].0@ == "NPM_CONFIG_REGISTRY"@
        &&& vars@[1].1@ == registry
    }
}

/// Installs the latest OpenClaw for all projects, through the given registry if
/// there is one.
pub fn install_command<P>(npm: P, registry: Option<&str>) -> (command: CommandLine<P>)
    ensures
        command.program == npm,
        command.arguments() == seq!["install"@, "-g"@, "openclaw@latest"@],
        registry matches Some(r) ==> sets_registry(command.env, r@),
        registry is None ==> command.env is Inherited,
        command.no_window,
{
    let mut args = no_texts();
    push_text(&mut args, "install".to_owned());
    push_text(&mut args, "-g".to_owned());
    push_text(&mut args, "openclaw@latest".to_owned());
    let env = match registry {
        Some(registry) => {
            let mut vars: Vec<(String, String)> = Vec::new();
            vars.push(("npm_config_registry".to_owned(), registry.to_owned()));
            vars.push(("NPM_CONFIG_REGISTRY".to_owned(), registry.to_owned()));
            Environment::InheritedWith(vars)
        },
        None => Environment::Inherited,
    };
    CommandLine { program: npm, args, env, no_window: true }
}

/// Runs the gateway in the foreground. `vars` are the launcher's own variables.
/// With a local model injected, the keys of remote providers are not among
/// those that the gateway gets.
pub fn gateway_command(bin: String, vars: Vec<(String, String)>, inject_local_model: bool) -> (command:
    CommandLine<String>)
    ensures
        command.program == bin,
        command.arguments() == seq!["gateway"@, "run"@, "--force"@, "--allow-unconfigured"@],
        command.env matches Environment::Only(kept) && kept@ == environment::gateway_vars(
            vars@,
            inject_local_model,
        ),
        command.no_window,
{
    let mut args = no_texts();
    push_text(&mut args, "gateway".to_owned());
    push_text(&mut args, "run".to_owned());
    push_text(&mut args, "--force".to_owned());
    push_text(&mut args, "--allow-unconfigured".to_owned());
    let kept = filtered_openclaw_env(vars, inject_local_model);
    CommandLine { program: bin, args, env: Environment::Only(kept), no_window: true }
}

/// The script that ends every process that listens on a port (Windows).
pub open spec fn stop_listeners_script(port: u16) -> Seq<char> {
    "$conn = netstat -ano | Select-String ':"@ + numbers::decimal(port as nat)
        + "'; foreach ($line in $conn) { $parts = $line -split '\\s+' | Where-Object { $_ -ne '' }; if ($parts[-2] -eq 'LISTENING') { $procId = $parts[-1]; Stop-Process -Id $procId -Force -ErrorAction SilentlyContinue } }"@
}

/// The script that ends every process that listens on a port (Unix).
pub open spec fn stop_listeners_shell_script(port: u16) -> Seq<char> {
    "lsof -t -i tcp:"@ + numbers::decimal(port as nat) + " -s tcp:LISTEN | xargs kill -9"@
}

/// Ends every process that listens on the gateway's port, whatever program it
/// runs.
pub fn kill_gateway_port_listener(platform: Platform) -> (command: CommandLine<String>)
    ensures
        match platform {
            Platform::Windows => {
                &&& command.program@ == "powershell"@
                &&& command.arguments() == seq![
                    "-Command"@,
                    stop_listeners_script(OPENCLAW_GATEWAY_PORT),
                ]
            },
            Platform::Unix => {
                &&& command.program@ == "sh"@
                &&& command.arguments() == seq![
                    "-c"@,
                    stop_listeners_shell_script(OPENCLAW_GATEWAY_PORT),
                ]
            },
        },
        command.env is Inherited,
        !command.no_window,
{
    let mut args = no_texts();
    let program = match platform {
        Platform::Windows => {
            push_text(&mut args, "-Command".to_owned());
            push_text(
                &mut args,
                "$conn = netstat -ano | Select-String ':".to_owned().concat(
                    decimal_text(OPENCLAW_GATEWAY_PORT as u32).as_str(),
                ).concat(
                    "'; foreach ($line in $conn) { $parts = $line -split '\\s+' | Where-Object { $_ -ne '' }; if ($parts[-2] -eq 'LISTENING') { $procId = $parts[-1]; Stop-Process -Id $procId -Force -ErrorAction SilentlyContinue } }",
                ),
            );
            "powershell".to_owned()
        },
        Platform::Unix => {
            push_text(&mut args, "-c".to_owned());
            push_text(
                &mut args,
                "lsof -t -i tcp:".to_owned().concat(
                    decimal_text(OPENCLAW_GATEWAY_PORT as u32).as_str(),
                ).concat(" -s tcp:LISTEN | xargs kill -9"),
            );
            "sh".to_owned()
        },
    };
    CommandLine { program, args, env: Environment::Inherited, no_window: false }
}

/// Ends a process.
pub fn kill_gateway_by_pid(platform: Platform, pid: u32) -> (command: CommandLine<String>)
    ensures
        match platform {
            Platform::Windows => {
                &&& command.program@ == "taskkill"@
                &&& command.arguments() == seq!["/PID"@, numbers::decimal(pid as nat), "/F"@]
                &&& command.no_window
            },
            Platform::Unix => {
                &&& command.program@ == "kill"@
                &&& command.arguments() == seq!["-9"@, numbers::decimal(pid as nat)]
                &&& !command.no_window
            },
        },
        command.env is Inherited,
{
    let number = decimal_text(pid);
    let mut args = no_texts();
    match platform {
        Platform::Windows => {
            push_text(&mut args, "/PID".to_owned());
            push_text(&mut args, number);
            push_text(&mut args, "/F".to_owned());
            CommandLine {
                program: "taskkill".to_owned(),
                args,
                env: Environment::Inherited,
                no_window: true,
            }
        },
        Platform::Unix => {
            push_text(&mut args, "-9".to_owned());
            push_text(&mut args, number);
            CommandLine {
                program: "kill".to_owned(),
                args,
                env: Environment::Inherited,
                no_window: false,
            }
        },
    }
}

/// A process that a listing names in a line of its own at the top is found,
/// whatever follows.
pub proof fn law_listed_pid_is_found(pid: u32, rest: Seq<char>)
    ensures
        first_listed_pid(numbers::decimal(pid as nat).push('\n') + rest) == Some(pid),
        first_listed_pid(numbers::decimal(pid as nat)) == Some(pid),
{
    let number = numbers::decimal(pid as nat);
    let n = number.len() as int;
    numbers::lemma_decimal_value(pid as nat);
    numbers::law_numeral_reads_back(pid);
    assert('0' <= number[0] <= '9' && '0' <= number[n - 1] <= '9');
    text::lemma_trimmed_stable(number);
    let listing = number.push('\n') + rest;
    assert(listing[n - 1] == number[n - 1]);
    assert forall|k: int| 0 <= k < n implies listing[k] != '\n' && number[k] != '\n' by {
        assert(listing[k] == number[k]);
        assert('0' <= number[k] <= '9');
    }
    text::lemma_line_length(listing, n);
    assert(listing.take(n) =~= number);
    text::lemma_line_length(number, n);
    assert(number.take(n) =~= number);
}

/// The arguments of a command line are its texts, in order, none left out.
pub proof fn law_arguments_are_the_texts<P>(command: CommandLine<P>, i: int)
    requires
        0 <= i < command.args@.len(),
    ensures
        command.arguments().len() == command.args@.len(),
        command.arguments()[i] == command.args@[i]@,
{
}

/// Whatever the port, the listeners are asked for by its number, and only those
/// that listen are asked for.
pub proof fn law_listeners_are_asked_for_by_port(
    port: u16,
    windows: CommandLine<String>,
    unix: CommandLine<String>,
)
    requires
        call_ensures(listener_query, (Platform::Windows, port), windows),
        call_ensures(listener_query, (Platform::Unix, port), unix),
    ensures
        windows.program@ == "cmd"@,
        windows.args@.len() == 2,
        windows.args@[0]@ == "/C"@,
        windows.args@[1]@ == "for /f \"tokens=5\" %a in ('netstat -ano ^| findstr :"@
            + numbers::decimal(port as nat) + " ^| findstr LISTENING') do @echo %a"@,
        unix.program@ == "lsof"@,
        unix.args@.len() == 5,
        unix.args@[0]@ == "-i"@,
        unix.args@[1]@ == "tcp:"@ + numbers::decimal(port as nat),
        unix.args@[2]@ == "-s"@,
        unix.args@[3]@ == "tcp:LISTEN"@,
        unix.args@[4]@ == "-t"@,
        windows.env is Inherited && unix.env is Inherited,
        windows.no_window && !unix.no_window,
{
    assert(windows.arguments().len() == 2 && unix.arguments().len() == 5);
    assert forall|i: int| 0 <= i < 2 implies windows.arguments()[i]
        == #[trigger] windows.args@[i]@ by {}
    assert forall|i: int| 0 <= i < 5 implies unix.arguments()[i] == #[trigger] unix.args@[i]@ by {}
}

/// What listens on the gateway's port is ended by the port's number alone: the
/// scripts name no program.
pub proof fn law_listeners_are_ended_by_port(
    windows: CommandLine<String>,
    unix: CommandLine<String>,
)
    requires
        call_ensures(kill_gateway_port_listener, (Platform::Windows,), windows),
        call_ensures(kill_gateway_port_listener, (Platform::Unix,), unix),
    ensures
        windows.program@ == "powershell"@,
        windows.args@.len() == 2,
        windows.args@[0]@ == "-Command"@,
        windows.args@[1]@ == "$conn = netstat -ano | Select-String ':"@ + numbers::decimal(18789)
            + "'; foreach ($line in $conn) { $parts = $line -split '\\s+' | Where-Object { $_ -ne '' }; if ($parts[-2] -eq 'LISTENING') { $procId = $parts[-1]; Stop-Process -Id $procId -Force -ErrorAction SilentlyContinue } }"@,
        unix.program@ == "sh"@,
        unix.args@.len() == 2,
        unix.args@[0]@ == "-c"@,
        unix.args@[1]@ == "lsof -t -i tcp:"@ + numbers::decimal(18789)
            + " -s tcp:LISTEN | xargs kill -9"@,
        windows.env is Inherited && unix.env is Inherited,
        !windows.no_window && !unix.no_window,
{
    assert(windows.arguments().len() == 2 && unix.arguments().len() == 2);
    assert forall|i: int| 0 <= i < 2 implies windows.arguments()[i]
        == #[trigger] windows.args@[i]@ by {}
    assert forall|i: int| 0 <= i < 2 implies unix.arguments()[i] == #[trigger] unix.args@[i]@ by {}
}

/// A process is ended by its number, on every platform and whatever the number.
pub proof fn law_process_is_ended_by_number(
    pid: u32,
    windows: CommandLine<String>,
    unix: CommandLine<String>,
)
    requires
        call_ensures(kill_gateway_by_pid, (Platform::Windows, pid), windows),
        call_ensures(kill_gateway_by_pid, (Platform::Unix, pid), unix),
    ensures
        windows.program@ == "taskkill"@,
        windows.args@.len() == 3,
        windows.args@[0]@ == "/PID"@,
        windows.args@[1]@ == numbers::decimal(pid as nat),
        windows.args@[2]@ == "/F"@,
        unix.program@ == "kill"@,
        unix.args@.len() == 2,
        unix.args@[0]@ == "-9"@,
        unix.args@[1]@ == numbers::decimal(pid as nat),
        windows.env is Inherited && unix.env is Inherited,
        windows.no_window && !unix.no_window,
{
    assert(windows.arguments().len() == 3 && unix.arguments().len() == 2);
    assert forall|i: int| 0 <= i < 3 implies windows.arguments()[i]
        == #[trigger] windows.args@[i]@ by {}
    assert forall|i: int| 0 <= i < 2 implies unix.arguments()[i] == #[trigger] unix.args@[i]@ by {}
}

/// An installation is of the latest OpenClaw, for all projects. A registry that
/// is given goes to npm under both spellings of its variable; without one npm
/// keeps its own.
pub proof fn law_installation_goes_through_given_registry<P>(
    npm: P,
    registry: &str,
    through: CommandLine<P>,
    plain: CommandLine<P>,
)
    requires
        call_ensures(install_command::<P>, (npm, Some(registry)), through),
        call_ensures(install_command::<P>, (npm, None), plain),
    ensures
        through.program == npm && plain.program == npm,
        through.arguments() == plain.arguments(),
        plain.args@.len() == 3,
        plain.args@[0]@ == "install"@,
        plain.args@[1]@ == "-g"@,
        plain.args@[2]@ == "openclaw@latest"@,
        plain.env is Inherited,
        plain.no_window && through.no_window,
        through.env matches Environment::InheritedWith(vars) && vars@.len() == 2 && vars@[0].0@
            == "npm_config_registry"@ && vars@[0].1@ == registry@ && vars@[1].0@
            == "NPM_CONFIG_REGISTRY"@ && vars@[1].1@ == registry@,
{
    assert(plain.arguments().len() == 3);
    assert forall|i: int| 0 <= i < 3 implies plain.arguments()[i]
        == #[trigger] plain.args@[i]@ by {}
}

/// The gateway is run in the foreground with these arguments, and with no other
/// variables than those that it may see: of these, each that was there, but for
/// the eight keys where a local model is injected.
pub proof fn law_gateway_runs_in_foreground(
    bin: String,
    vars: Vec<(String, String)>,
    inject_local_model: bool,
    command: CommandLine<String>,
    var: (String, String),
)
    requires
        call_ensures(gateway_command, (bin, vars, inject_local_model), command),
    ensures
        command.program == bin,
        command.args@.len() == 4,
        command.args@[0]@ == "gateway"@,
        command.args@[1]@ == "run"@,
        command.args@[2]@ == "--force"@,
        command.args@[3]@ == "--allow-unconfigured"@,
        command.env is Only,
        command.no_window,
        !inject_local_model ==> command.env->Only_0@ == vars@,
        command.env->Only_0@.contains(var) <==> vars@.contains(var) && (inject_local_model ==> {
            let name = var.0@;
            &&& name != "ANTHROPIC_API_KEY"@ && name != "ANTHROPIC_OAUTH_TOKEN"@
            &&& name != "OPENAI_API_KEY"@ && name != "GEMINI_API_KEY"@
            &&& name != "MISTRAL_API_KEY"@ && name != "GROQ_API_KEY"@
            &&& name != "XAI_API_KEY"@ && name != "OPENROUTER_API_KEY"@
        }),
{
    environment::law_gateway_misses_eight_names_only(vars@, var, vars@);
    assert(command.arguments().len() == 4);
    assert forall|i: int| 0 <= i < 4 implies command.arguments()[i]
        == #[trigger] command.args@[i]@ by {}
}

/// A listing shows a process exactly if its number stands in the listing, with
/// anything or nothing before and behind it.
pub proof fn law_listing_shows_by_number(listing: Seq<char>, pid: u32)
    ensures
        listing_shows(listing, pid) <==> exists|before: Seq<char>, after: Seq<char>|
            listing == #[trigger] (before + numbers::decimal(pid as nat) + after),
{
    text::law_part_has_surroundings(listing, numbers::decimal(pid as nat));
}

/// A process is alive exactly if the listing that was printed shows its number.
pub proof fn law_alive_means_listed(listing: Seq<char>, stdout: &[u8], pid: u32, alive: bool)
    requires
        call_ensures(is_process_alive, (stdout, pid), alive),
        stdout@ == vstd::utf8::encode_utf8(listing),
    ensures
        alive <==> exists|before: Seq<char>, after: Seq<char>|
            listing == #[trigger] (before + numbers::decimal(pid as nat) + after),
{
    text::law_written_text_is_read(listing, stdout@);
    law_listing_shows_by_number(listing, pid);
}

/// A carriage return at the end of a line is white space like any other.
proof fn lemma_return_is_trimmed(line: Seq<char>)
    ensures
        text::trimmed(line.push('\r')) == text::trimmed(line),
{
    let nothing = Seq::<char>::empty();
    assert(line.push('\r') =~= nothing + line + seq!['\r']);
    text::lemma_trimmed_between_blanks(nothing, line, seq!['\r']);
}

/// The first line of a text, once it is trimmed, is all up to the first line
/// feed, trimmed, whatever follows.
proof fn lemma_first_line_trimmed(line: Seq<char>, rest: Seq<char>)
    requires
        forall|i: int| 0 <= i < line.len() ==> #[trigger] line[i] != '\n',
    ensures
        text::first_line_of(line.push('\n') + rest) is Some,
        text::trimmed(text::first_line_of(line.push('\n') + rest)->0) == text::trimmed(line),
        line.len() > 0 ==> text::first_line_of(line) == Some(line),
        line.len() == 0 ==> text::first_line_of(line) is None,
{
    text::law_first_line_ends_at_line_feed(line, rest);
    if line.len() > 0 && line.last() == '\r' {
        let cut = line.drop_last();
        assert(cut.push('\r') =~= line);
        text::law_first_line_ends_at_line_feed(cut, rest);
        lemma_return_is_trimmed(cut);
    }
}

/// What a listing names is what its first line spells once it is trimmed,
/// whatever follows; an empty listing names nothing.
pub proof fn law_first_line_names_the_process(line: Seq<char>, rest: Seq<char>)
    requires
        forall|i: int| 0 <= i < line.len() ==> #[trigger] line[i] != '\n',
    ensures
        first_listed_pid(line.push('\n') + rest) == numbers::spelled_u32(text::trimmed(line)),
        first_listed_pid(line) == numbers::spelled_u32(text::trimmed(line)),
{
    lemma_first_line_trimmed(line, rest);
    if line.len() == 0 {
        text::law_trim_leaves_nothing_of_blanks_only(line);
        numbers::law_only_digits_spell_a_number(text::trimmed(line), '0');
    }
}

/// The listener that is found in what was printed is the one that the first line
/// spells once it is trimmed, whatever follows; a number alone in that line, with
/// white space around it or not, is found.
pub proof fn law_printed_listener_is_found(
    before: Seq<char>,
    core: Seq<char>,
    after: Seq<char>,
    rest: Seq<char>,
    stdout: &[u8],
    found: Option<u32>,
)
    requires
        call_ensures(find_pid_by_port, (stdout,), found),
        stdout@ == vstd::utf8::encode_utf8((before + core + after).push('\n') + rest),
        forall|i: int|
            0 <= i < before.len() ==> text::white_space(#[trigger] before[i]) && before[i] != '\n',
        forall|i: int|
            0 <= i < after.len() ==> text::white_space(#[trigger] after[i]) && after[i] != '\n',
        forall|i: int| 0 <= i < core.len() ==> #[trigger] core[i] != '\n',
        core.len() > 0 ==> !text::white_space(core[0]) && !text::white_space(core[core.len() - 1]),
    ensures
        found == numbers::spelled_u32(core),
        forall|pid: u32| core == #[trigger] numbers::decimal(pid as nat) ==> found == Some(pid),
{
    let line = before + core + after;
    text::law_written_text_is_read(line.push('\n') + rest, stdout@);
    text::law_trim_leaves_what_stands_between(before, core, after);
    assert forall|i: int| 0 <= i < line.len() implies #[trigger] line[i] != '\n' by {
        if i < before.len() {
            assert(line[i] == before[i]);
        } else if i < before.len() + core.len() {
            assert(line[i] == core[i - before.len()]);
        } else {
            assert(line[i] == after[i - before.len() - core.len()]);
        }
    }
    law_first_line_names_the_process(line, rest);
    assert forall|pid: u32| core == #[trigger] numbers::decimal(pid as nat) implies found == Some(
        pid,
    ) by {
        numbers::law_numeral_reads_back(pid);
    }
}

/// The registry that npm's answer names is all of the answer but for the white
/// space around it. A blank answer names none, and neither does the word
/// `undefined`, in whatever case.
pub proof fn law_answer_names_registry(before: Seq<char>, name: Seq<char>, after: Seq<char>)
    requires
        forall|i: int| 0 <= i < before.len() ==> text::white_space(#[trigger] before[i]),
        forall|i: int| 0 <= i < after.len() ==> text::white_space(#[trigger] after[i]),
        name.len() > 0 ==> !text::white_space(name[0]) && !text::white_space(name[name.len() - 1]),
    ensures
        answered_registry(before + name + after) == (if name.len() == 0 || text::lowered(name)
            == "undefined"@ {
            None
        } else {
            Some(name)
        }),
{
    text::law_trim_leaves_what_stands_between(before, name, after);
    reveal_strlit("undefined");
    assert(text::lowered("undefined"@) =~= "undefined"@);
}

/// What npm prints is taken for its registry only where it ran and succeeded.
pub proof fn law_registry_needs_success(
    before: Seq<char>,
    name: Seq<char>,
    after: Seq<char>,
    output: &CommandOutput,
    found: Option<String>,
    missing: Option<String>,
)
    requires
        call_ensures(get_npm_registry, (Some(output),), found),
        call_ensures(get_npm_registry, (None,), missing),
        output.stdout@ == vstd::utf8::encode_utf8(before + name + after),
        forall|i: int| 0 <= i < before.len() ==> text::white_space(#[trigger] before[i]),
        forall|i: int| 0 <= i < after.len() ==> text::white_space(#[trigger] after[i]),
        name.len() > 0 ==> !text::white_space(name[0]) && !text::white_space(name[name.len() - 1]),
    ensures
        missing is None,
        found is Some <==> output.success && name.len() > 0 && text::lowered(name)
            != "undefined"@,
        found matches Some(r) ==> r@ == name,
{
    text::law_written_text_is_read(before + name + after, output.stdout@);
    law_answer_names_registry(before, name, after);
}

/// The version that an answer states is its first line, trimmed, whatever
/// follows; an empty answer states none.
pub proof fn law_first_line_states_version(line: Seq<char>, rest: Seq<char>)
    requires
        forall|i: int| 0 <= i < line.len() ==> #[trigger] line[i] != '\n',
    ensures
        stated_version(line.push('\n') + rest) == Some(text::trimmed(line)),
        line.len() > 0 ==> stated_version(line) == Some(text::trimmed(line)),
        line.len() == 0 ==> stated_version(line) == None::<Seq<char>>,
{
    lemma_first_line_trimmed(line, rest);
}

/// What OpenClaw prints is taken for its version only where it ran and succeeded.
pub proof fn law_version_needs_success(
    line: Seq<char>,
    rest: Seq<char>,
    output: &CommandOutput,
    found: Option<String>,
    missing: Option<String>,
)
    requires
        call_ensures(openclaw_version, (Some(output),), found),
        call_ensures(openclaw_version, (None,), missing),
        output.stdout@ == vstd::utf8::encode_utf8(line.push('\n') + rest),
        forall|i: int| 0 <= i < line.len() ==> #[trigger] line[i] != '\n',
    ensures
        missing is None,
        found is Some <==> output.success,
        found matches Some(v) ==> v@ == text::trimmed(line),
{
    text::law_written_text_is_read(line.push('\n') + rest, output.stdout@);
    law_first_line_states_version(line, rest);
}

/// A process is looked for by its number; npm and OpenClaw are asked with these
/// arguments and in the environment of the launcher.
pub proof fn law_queries_ask_what_they_are_for<P>(
    pid: u32,
    npm: P,
    bin: String,
    process: CommandLine<String>,
    registry: CommandLine<P>,
    version: CommandLine<String>,
)
    requires
        call_ensures(process_query, (pid,), process),
        call_ensures(registry_query::<P>, (npm,), registry),
        call_ensures(version_query, (bin,), version),
    ensures
        process.program@ == "tasklist"@,
        process.args@.len() == 3,
        process.args@[0]@ == "/FI"@,
        process.args@[1]@ == "PID eq "@ + numbers::decimal(pid as nat),
        process.args@[2]@ == "/NH"@,
        registry.program == npm,
        registry.args@.len() == 3,
        registry.args@[0]@ == "config"@,
        registry.args@[1]@ == "get"@,
        registry.args@[2]@ == "registry"@,
        version.program == bin,
        version.args@.len() == 1,
        version.args@[0]@ == "--version"@,
        process.env is Inherited && registry.env is Inherited && version.env is Inherited,
        process.no_window && registry.no_window && version.no_window,
{
    assert(process.arguments().len() == 3 && registry.arguments().len() == 3);
    assert(version.arguments().len() == 1);
    assert forall|i: int| 0 <= i < 3 implies process.arguments()[i]
        == #[trigger] process.args@[i]@ by {}
    assert forall|i: int| 0 <= i < 3 implies registry.arguments()[i]
        == #[trigger] registry.args@[i]@ by {}
    assert(version.arguments()[0] == version.args@[0]@);
}

/// The gateway's port, and the flag for programs without a window.
pub proof fn law_gateway_port()
    ensures
        OPENCLAW_GATEWAY_PORT == 18789,
        CREATE_NO_WINDOW == 0x08000000,
{
}

} // verus!
