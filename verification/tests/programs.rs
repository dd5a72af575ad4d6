use openclaw_launcher::binary::{check_openclaw_installed, find_openclaw_binary};
use openclaw_launcher::commands::{
    find_pid_by_port, gateway_command, get_npm_registry, install_command, is_process_alive,
    kill_gateway_by_pid, kill_gateway_port_listener, listener_query, listing_has_pid,
    openclaw_version, pid_on_first_line, process_query, registry_in_answer, registry_query,
    version_in_answer, version_query, CommandLine, CommandOutput, Environment, Platform,
    OPENCLAW_GATEWAY_PORT,
};

fn vars(env: &Environment) -> Vec<(String, String)> {
    match env {
        Environment::Inherited => panic!("nothing is set"),
        Environment::InheritedWith(vars) => vars.clone(),
        Environment::Only(vars) => vars.clone(),
    }
}

fn inherits<P>(command: &CommandLine<P>) -> bool {
    matches!(command.env, Environment::Inherited)
}

fn output(success: bool, stdout: &[u8]) -> CommandOutput {
    CommandOutput { success, stdout: stdout.to_vec(), stderr: Vec::new() }
}

#[test]
fn process_is_looked_up_by_number() {
    let command = process_query(4711);
    assert_eq!(command.program, "tasklist");
    assert_eq!(command.args, vec!["/FI", "PID eq 4711", "/NH"]);
    assert!(command.no_window && inherits(&command));
    assert!(is_process_alive(b"node.exe   4711 Console", 4711));
    assert!(is_process_alive(b"node.exe  14711 Console", 4711));
    assert!(!is_process_alive(b"INFO: No tasks are running", 4711));
    assert!(is_process_alive(&[0xff, b'9', 0xfe], 9));
    assert!(!listing_has_pid("", 0));
}

#[test]
fn listener_is_looked_up_by_port() {
    let unix = listener_query(Platform::Unix, OPENCLAW_GATEWAY_PORT);
    assert_eq!(unix.program, "lsof");
    assert_eq!(unix.args, vec!["-i", "tcp:18789", "-s", "tcp:LISTEN", "-t"]);
    assert!(!unix.no_window && inherits(&unix));
    let windows = listener_query(Platform::Windows, 80);
    assert_eq!(windows.program, "cmd");
    assert_eq!(
        windows.args,
        vec![
            "/C",
            "for /f \"tokens=5\" %a in ('netstat -ano ^| findstr :80 ^| findstr LISTENING') do @echo %a"
        ]
    );
    assert!(windows.no_window && inherits(&windows));
}

#[test]
fn listener_is_read_from_first_line() {
    assert_eq!(find_pid_by_port(b"4711\n4712\n"), Some(4711));
    assert_eq!(find_pid_by_port(b"  4711 \r\n"), Some(4711));
    assert_eq!(find_pid_by_port(b""), None);
    assert_eq!(find_pid_by_port(b"\n4711\n"), None);
    assert_eq!(find_pid_by_port(b"4711 4712"), None);
    assert_eq!(find_pid_by_port(b"99999999999"), None);
    assert_eq!(find_pid_by_port(&[b'1', 0xff]), None);
    assert_eq!(pid_on_first_line("12\nrest"), Some(12));
}

#[test]
fn registry_is_asked_for_and_read() {
    let command = registry_query(3u8);
    assert_eq!(command.program, 3);
    assert_eq!(command.args, vec!["config", "get", "registry"]);
    assert!(command.no_window && inherits(&command));
    let known = output(true, b" https://Registry.example/ \n");
    assert_eq!(get_npm_registry(Some(&known)), Some("https://Registry.example/".to_string()));
    assert_eq!(get_npm_registry(Some(&output(false, b"https://r"))), None);
    assert_eq!(get_npm_registry(Some(&output(true, b"  \n"))), None);
    assert_eq!(get_npm_registry(Some(&output(true, b"Undefined\n"))), None);
    assert_eq!(get_npm_registry(None), None);
    assert_eq!(registry_in_answer("undefined behaviour"), Some("undefined behaviour".to_string()));
}

#[test]
fn version_is_asked_for_and_read() {
    let command = version_query("/bin/openclaw".to_string());
    assert_eq!(command.program, "/bin/openclaw");
    assert_eq!(command.args, vec!["--version"]);
    assert!(command.no_window && inherits(&command));
    assert_eq!(openclaw_version(Some(&output(true, b" 1.2.3 \nmore"))), Some("1.2.3".to_string()));
    assert_eq!(openclaw_version(Some(&output(true, b"\n1.2.3"))), Some(String::new()));
    assert_eq!(openclaw_version(Some(&output(true, b""))), None);
    assert_eq!(openclaw_version(Some(&output(false, b"1.2.3"))), None);
    assert_eq!(openclaw_version(None), None);
    assert_eq!(version_in_answer("v1"), Some("v1".to_string()));
}

#[test]
fn install_goes_through_the_given_registry() {
    let plain = install_command(1u8, None);
    assert_eq!(plain.args, vec!["install", "-g", "openclaw@latest"]);
    assert!(plain.program == 1 && plain.no_window && inherits(&plain));
    let mirrored = install_command(1u8, Some("https://m"));
    assert_eq!(mirrored.args, vec!["install", "-g", "openclaw@latest"]);
    assert!(matches!(mirrored.env, Environment::InheritedWith(_)));
    assert_eq!(
        vars(&mirrored.env),
        vec![
            ("npm_config_registry".to_string(), "https://m".to_string()),
            ("NPM_CONFIG_REGISTRY".to_string(), "https://m".to_string()),
        ]
    );
}

#[test]
fn gateway_runs_in_the_foreground_without_provider_keys() {
    let env = vec![
        ("GROQ_API_KEY".to_string(), "k".to_string()),
        ("PATH".to_string(), "/bin".to_string()),
    ];
    let injected = gateway_command("oc".to_string(), env.clone(), true);
    assert_eq!(injected.program, "oc");
    assert_eq!(injected.args, vec!["gateway", "run", "--force", "--allow-unconfigured"]);
    assert!(matches!(injected.env, Environment::Only(_)) && injected.no_window);
    assert_eq!(vars(&injected.env), vec![("PATH".to_string(), "/bin".to_string())]);
    let plain = gateway_command("oc".to_string(), env.clone(), false);
    assert_eq!(vars(&plain.env), env);
}

#[test]
fn processes_are_ended() {
    let unix = kill_gateway_by_pid(Platform::Unix, 4711);
    assert_eq!((unix.program.as_str(), unix.no_window), ("kill", false));
    assert_eq!(unix.args, vec!["-9", "4711"]);
    let windows = kill_gateway_by_pid(Platform::Windows, 4711);
    assert_eq!((windows.program.as_str(), windows.no_window), ("taskkill", true));
    assert_eq!(windows.args, vec!["/PID", "4711", "/F"]);
    assert!(inherits(&unix) && inherits(&windows));
}

#[test]
fn listeners_are_ended() {
    let unix = kill_gateway_port_listener(Platform::Unix);
    assert_eq!((unix.program.as_str(), unix.no_window), ("sh", false));
    assert_eq!(unix.args, vec!["-c", "lsof -t -i tcp:18789 -s tcp:LISTEN | xargs kill -9"]);
    let windows = kill_gateway_port_listener(Platform::Windows);
    assert_eq!((windows.program.as_str(), windows.no_window), ("powershell", false));
    assert_eq!(
        windows.args,
        vec![
            "-Command".to_string(),
            format!(
                "$conn = netstat -ano | Select-String ':{port}'; foreach ($line in $conn) {{ $parts = $line -split '\\s+' | Where-Object {{ $_ -ne '' }}; if ($parts[-2] -eq 'LISTENING') {{ $procId = $parts[-1]; Stop-Process -Id $procId -Force -ErrorAction SilentlyContinue }} }}",
                port = OPENCLAW_GATEWAY_PORT
            ),
        ]
    );
    assert!(inherits(&unix) && inherits(&windows));
}

#[test]
fn first_known_name_is_found() {
    let path = find_openclaw_binary(|name: &str| {
        if name.starts_with("clawdbot") { Some(format!("/bin/{}", name)) } else { None }
    });
    assert_eq!(path, Some("/bin/clawdbot".to_string()));
    let path = find_openclaw_binary(|name: &str| {
        if name.ends_with(".cmd") { Some(name.to_string()) } else { None }
    });
    assert_eq!(path, Some("openclaw.cmd".to_string()));
    assert_eq!(check_openclaw_installed(|name: &str| Some(name.to_string())), Some("openclaw".to_string()));
    assert_eq!(check_openclaw_installed(|_: &str| None), None);
}
