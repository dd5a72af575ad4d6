use openclaw_launcher::commands::{Platform, OPENCLAW_GATEWAY_PORT};
use openclaw_launcher::install::{
    install_openclaw, install_progress, install_result, InstallOutcome, InstallReply, InstallStep,
};
use openclaw_launcher::launch::{
    injected_model, launch_openclaw_gateway, spawn_gateway_foreground, stop_openclaw_gateway,
    LaunchReply, LaunchStep, StopReply, StopStep,
};
use openclaw_launcher::pid::{
    begin_resolve, current_gateway_pid, record_listener, resolve_gateway_pid_after_spawn,
    set_gateway_pid, take_gateway_pid, ResolveReply, ResolveStep, RESOLVE_ATTEMPTS,
};
use openclaw_launcher::registry::TEMPORARY_CHINA_NPM_REGISTRY;
use openclaw_launcher::status::{
    gateway_url, get_openclaw_status, openclaw_installed_status, openclaw_not_installed_status,
    OpenClawStatus, StatusReply, StatusStep,
};
use openclaw_launcher::wait::{
    begin_wait, is_ready, is_stopped, ready_url, wait_for_openclaw_status, WaitReply, WaitStep,
};

fn status(running: bool, open: bool) -> OpenClawStatus {
    openclaw_installed_status("oc".to_string(), None, Some(1), running, open)
}

#[test]
fn urls_name_a_reachable_host() {
    assert_eq!(gateway_url("127.0.0.1", 18789), "http://127.0.0.1:18789/");
    assert_eq!(gateway_url("0.0.0.0", 80), "http://127.0.0.1:80/");
    assert_eq!(gateway_url("::", 0), "http://127.0.0.1:0/");
    assert_eq!(gateway_url("example.org", 65535), "http://example.org:65535/");
}

#[test]
fn status_of_missing_openclaw() {
    let status = openclaw_not_installed_status();
    assert_eq!(
        status,
        OpenClawStatus {
            installed: false,
            binary_path: None,
            version: None,
            gateway_url: None,
            gateway_port: 18789,
            process_running: false,
            pid: None,
            port_open: false,
            health: "not-installed".to_string(),
            message: None,
        }
    );
}

#[test]
fn status_tells_the_health() {
    let url = Some("http://127.0.0.1:18789/".to_string());
    let running = status(true, true);
    assert_eq!((running.health.as_str(), &running.message, &running.gateway_url), ("running", &None, &url));
    let stopped = status(false, false);
    assert_eq!((stopped.health.as_str(), &stopped.message, &stopped.gateway_url), ("stopped", &None, &None));
    let silent = status(true, false);
    assert_eq!(silent.health, "degraded");
    assert_eq!(
        silent.message.as_deref(),
        Some("Gateway process is running but port is not responding.")
    );
    assert_eq!(silent.gateway_url, None);
    let foreign = status(false, true);
    assert_eq!(foreign.health, "degraded");
    assert_eq!(foreign.message.as_deref(), Some("Port 18789 is occupied by another process."));
    assert_eq!(foreign.gateway_url, url);
    assert_eq!(foreign.binary_path.as_deref(), Some("oc"));
}

fn report(replies: Vec<StatusReply>) -> OpenClawStatus {
    let mut step = StatusStep::FindBinary;
    for reply in replies {
        step = get_openclaw_status(step, reply);
    }
    match step {
        StatusStep::Report(status) => status,
        _ => panic!("no report yet"),
    }
}

#[test]
fn status_is_put_together_from_what_is_found() {
    assert_eq!(report(vec![StatusReply::Binary(None)]), openclaw_not_installed_status());
    let found = report(vec![
        StatusReply::Binary(Some("/bin/oc".to_string())),
        StatusReply::Version(Some("1.0".to_string())),
        StatusReply::Recorded(Some(42)),
        StatusReply::Alive(true),
        StatusReply::PortOpen(true),
    ]);
    assert_eq!(
        found,
        openclaw_installed_status(
            "/bin/oc".to_string(),
            Some("1.0".to_string()),
            Some(42),
            true,
            true
        )
    );
    let unrecorded = report(vec![
        StatusReply::Binary(Some("/bin/oc".to_string())),
        StatusReply::Version(None),
        StatusReply::Recorded(None),
        StatusReply::PortOpen(true),
    ]);
    assert!(!unrecorded.process_running && unrecorded.pid.is_none());
    assert_eq!(unrecorded.health, "degraded");
}

#[test]
fn wait_ends_at_first_match() {
    let mut step = begin_wait(3);
    for (running, open) in [(false, false), (true, false)] {
        assert!(matches!(step, WaitStep::Look { .. }));
        step = wait_for_openclaw_status(is_ready, step, WaitReply::Looked(Ok(status(running, open))));
        assert!(matches!(step, WaitStep::Pause { .. }));
        step = wait_for_openclaw_status(is_ready, step, WaitReply::Paused);
    }
    step = wait_for_openclaw_status(is_ready, step, WaitReply::Looked(Ok(status(true, true))));
    match step {
        WaitStep::Done(Ok(found)) => assert_eq!(found, status(true, true)),
        _ => panic!("the gateway is ready"),
    }
}

fn wait_in_vain(attempts: usize, seen: OpenClawStatus) -> (usize, String) {
    let mut step = begin_wait(attempts);
    let mut looks = 0;
    loop {
        step = match step {
            WaitStep::Done(Err(error)) => return (looks, error),
            WaitStep::Done(Ok(_)) => panic!("the wait is in vain"),
            WaitStep::Look { .. } => {
                looks += 1;
                wait_for_openclaw_status(is_stopped, step, WaitReply::Looked(Ok(seen.clone())))
            }
            WaitStep::Pause { .. } => wait_for_openclaw_status(is_stopped, step, WaitReply::Paused),
        };
    }
}

#[test]
fn wait_gives_up_with_the_last_message() {
    let timeout = "Timed out while waiting for OpenClaw state reconciliation.".to_string();
    assert_eq!(wait_in_vain(0, status(true, true)), (0, timeout.clone()));
    assert_eq!(wait_in_vain(40, status(true, true)), (40, timeout));
    assert_eq!(
        wait_in_vain(2, status(false, true)),
        (2, "Port 18789 is occupied by another process.".to_string())
    );
    let step = begin_wait(5);
    let step = wait_for_openclaw_status(is_ready, step, WaitReply::Looked(Err("no status".to_string())));
    assert!(matches!(step, WaitStep::Done(Err(error)) if error == "no status"));
}

#[test]
fn wait_fails_with_the_last_look() {
    let mut step = begin_wait(2);
    for seen in [status(false, true), status(true, false)] {
        step = wait_for_openclaw_status(is_ready, step, WaitReply::Looked(Ok(seen)));
        step = wait_for_openclaw_status(is_ready, step, WaitReply::Paused);
    }
    let stuck = "Gateway process is running but port is not responding.";
    assert!(matches!(step, WaitStep::Done(Err(error)) if error == stuck));

    let seen = WaitReply::Looked(Ok(status(false, true)));
    let step = wait_for_openclaw_status(is_ready, begin_wait(2), seen);
    let step = wait_for_openclaw_status(is_ready, step, WaitReply::Paused);
    let failed = WaitReply::Looked(Err("no status".to_string()));
    let step = wait_for_openclaw_status(is_ready, step, failed);
    assert!(matches!(step, WaitStep::Done(Err(error)) if error == "no status"));
}

#[test]
fn states_are_recognized() {
    assert!(is_ready(&status(true, true)));
    assert!(!is_ready(&status(false, true)) && !is_ready(&status(true, false)));
    assert!(is_stopped(&status(false, false)));
    assert!(!is_stopped(&status(true, false)) && !is_stopped(&status(false, true)));
    assert!(is_stopped(&openclaw_not_installed_status()));
}

#[test]
fn wait_takes_any_predicate() {
    let version = "2.0".to_string();
    let updated = |found: &OpenClawStatus| found.version.as_ref() == Some(&version);
    let old = status(true, true);
    let mut new = status(false, true);
    new.version = Some(version.clone());
    let step = wait_for_openclaw_status(updated, begin_wait(1), WaitReply::Looked(Ok(old)));
    assert!(matches!(step, WaitStep::Pause { left: 0, .. }));
    let step = wait_for_openclaw_status(updated, begin_wait(1), WaitReply::Looked(Ok(new.clone())));
    assert!(matches!(step, WaitStep::Done(Ok(found)) if found == new));
}

#[test]
fn ready_gateway_is_announced_with_its_url() {
    assert_eq!(ready_url(&status(true, true)), "http://127.0.0.1:18789/");
    assert_eq!(ready_url(&status(true, false)), "http://127.0.0.1:18789/");
    let mut elsewhere = status(true, true);
    elsewhere.gateway_url = Some("http://elsewhere/".to_string());
    assert_eq!(ready_url(&elsewhere), "http://elsewhere/");
    assert_eq!(OPENCLAW_GATEWAY_PORT, 18789);
}

#[test]
fn record_is_set_read_and_taken() {
    let mut record = None;
    assert_eq!(current_gateway_pid(&record), None);
    set_gateway_pid(&mut record, 5);
    assert_eq!(current_gateway_pid(&record), Some(5));
    set_gateway_pid(&mut record, 6);
    assert_eq!(take_gateway_pid(&mut record), Some(6));
    assert_eq!(take_gateway_pid(&mut record), None);
}

fn resolve(expected: u32, replies: &[ResolveReply]) -> ResolveStep {
    let mut step = begin_resolve(expected);
    for reply in replies {
        step = resolve_gateway_pid_after_spawn(step, *reply);
    }
    step
}

#[test]
fn listener_replaces_started_process() {
    let found = resolve(
        10,
        &[
            ResolveReply::Paused,
            ResolveReply::Recorded(Some(10)),
            ResolveReply::Listener(None),
            ResolveReply::Paused,
            ResolveReply::Recorded(Some(10)),
            ResolveReply::Listener(Some(11)),
        ],
    );
    assert_eq!(found, ResolveStep::Record { expected: 10, listener: 11 });
    assert_eq!(
        resolve_gateway_pid_after_spawn(found, ResolveReply::Written(true)),
        ResolveStep::Replaced { expected: 10, listener: 11 }
    );
    let same = [ResolveReply::Paused, ResolveReply::Recorded(Some(10)), ResolveReply::Listener(Some(10))];
    assert_eq!(resolve(10, &same), ResolveStep::Confirmed { expected: 10 });
}

#[test]
fn newer_start_is_left_alone() {
    for recorded in [None, Some(11)] {
        let mut replies = vec![ResolveReply::Paused, ResolveReply::Recorded(recorded)];
        assert_eq!(resolve(10, &replies), ResolveStep::Superseded { expected: 10 });
        replies.push(ResolveReply::Listener(Some(12)));
        replies.push(ResolveReply::Written(true));
        assert_eq!(resolve(10, &replies), ResolveStep::Superseded { expected: 10 });
    }
}

#[test]
fn record_that_changed_during_the_scan_is_kept() {
    for newer in [None, Some(12)] {
        let found = resolve(
            10,
            &[
                ResolveReply::Paused,
                ResolveReply::Recorded(Some(10)),
                ResolveReply::Listener(Some(11)),
            ],
        );
        let mut record = newer;
        let written = record_listener(&mut record, 10, 11);
        assert_eq!((written, record), (false, newer));
        assert_eq!(
            resolve_gateway_pid_after_spawn(found, ResolveReply::Written(written)),
            ResolveStep::Superseded { expected: 10 }
        );
    }
    let mut record = Some(10);
    assert!(record_listener(&mut record, 10, 11));
    assert_eq!(record, Some(11));
}

#[test]
fn first_listener_decides() {
    let mut replies = vec![];
    for _ in 1..RESOLVE_ATTEMPTS {
        replies.push(ResolveReply::Paused);
        replies.push(ResolveReply::Recorded(Some(10)));
        replies.push(ResolveReply::Listener(None));
    }
    assert!(matches!(resolve(10, &replies), ResolveStep::Pause { left: 1, .. }));
    replies.push(ResolveReply::Paused);
    replies.push(ResolveReply::Recorded(Some(10)));
    let mut other = replies.clone();
    other.push(ResolveReply::Listener(Some(11)));
    other.push(ResolveReply::Listener(Some(12)));
    assert_eq!(resolve(10, &other), ResolveStep::Record { expected: 10, listener: 11 });
    let mut same = replies.clone();
    same.push(ResolveReply::Listener(Some(10)));
    same.push(ResolveReply::Listener(Some(12)));
    assert_eq!(resolve(10, &same), ResolveStep::Confirmed { expected: 10 });
    replies.push(ResolveReply::Listener(None));
    assert_eq!(resolve(10, &replies), ResolveStep::GaveUp { expected: 10 });
}

#[test]
fn search_gives_up() {
    let round = [ResolveReply::Paused, ResolveReply::Recorded(Some(10)), ResolveReply::Listener(None)];
    let mut step = begin_resolve(10);
    let mut scans = 0;
    while step != (ResolveStep::GaveUp { expected: 10 }) {
        for reply in round {
            step = resolve_gateway_pid_after_spawn(step, reply);
        }
        scans += 1;
    }
    assert_eq!(scans, RESOLVE_ATTEMPTS);
    assert_eq!(scans, 30);
}

fn launch(model: Option<&str>, replies: Vec<LaunchReply>) -> LaunchStep {
    let mut step = LaunchStep::FindBinary { model: model.map(str::to_string) };
    for reply in replies {
        step = launch_openclaw_gateway(step, reply);
    }
    step
}

fn oc() -> LaunchReply {
    LaunchReply::Binary(Some("oc".to_string()))
}

#[test]
fn launch_writes_stops_and_starts_in_order() {
    assert!(matches!(
        launch(Some(" m "), vec![oc()]),
        LaunchStep::WriteConfig { bin, model } if bin == "oc" && model == " m "
    ));
    assert!(matches!(
        launch(Some(" m "), vec![oc(), LaunchReply::ConfigWritten(Ok(()))]),
        LaunchStep::StopGateway { bin, inject_local_model: true } if bin == "oc"
    ));
    assert!(matches!(
        launch(Some("m"), vec![oc(), LaunchReply::ConfigWritten(Ok(())), LaunchReply::Stopped]),
        LaunchStep::Settle { inject_local_model: true, .. }
    ));
    let mut replies = vec![oc(), LaunchReply::Stopped, LaunchReply::Settled];
    for model in [None, Some(""), Some(" \t")] {
        assert!(matches!(
            launch(model, vec![oc()]),
            LaunchStep::StopGateway { inject_local_model: false, .. }
        ));
    }
    assert!(matches!(
        launch(None, vec![oc(), LaunchReply::Stopped, LaunchReply::Settled]),
        LaunchStep::Spawn { bin, inject_local_model: false } if bin == "oc"
    ));
    replies.push(LaunchReply::Spawned(Ok(9)));
    replies.push(LaunchReply::Watching);
    match launch(None, replies) {
        LaunchStep::Done(Ok(result)) => assert_eq!(result.gateway_url, "http://127.0.0.1:18789/"),
        _ => panic!("the gateway was launched"),
    }
}

#[test]
fn launch_fails_as_it_should() {
    match launch(Some("m"), vec![LaunchReply::Binary(None)]) {
        LaunchStep::Done(Err(error)) => {
            assert_eq!(error, "OpenClaw is not installed. Please install it first.")
        }
        _ => panic!("nothing to launch"),
    }
    let refused = LaunchReply::ConfigWritten(Err("Error: read-only".to_string()));
    assert!(matches!(
        launch(Some("m"), vec![oc(), refused, LaunchReply::Stopped]),
        LaunchStep::Done(Err(error)) if error == "Error: read-only"
    ));
    let failed = LaunchReply::Spawned(Err("gone".to_string()));
    assert!(matches!(
        launch(None, vec![oc(), LaunchReply::Stopped, LaunchReply::Settled, failed]),
        LaunchStep::Done(Err(error)) if error == "gone"
    ));
}

#[test]
fn launch_and_stop_return_without_waiting() {
    let spawn = LaunchStep::Spawn { bin: "oc".to_string(), inject_local_model: false };
    let watch = launch_openclaw_gateway(spawn, LaunchReply::Spawned(Ok(3)));
    assert!(matches!(watch, LaunchStep::Watch));
    assert!(matches!(
        launch_openclaw_gateway(watch, LaunchReply::Watching),
        LaunchStep::Done(Ok(_))
    ));

    let watch = stop_openclaw_gateway(StopStep::KillListeners, StopReply::ListenersKilled);
    assert_eq!(watch, StopStep::Watch);
    assert_eq!(stop_openclaw_gateway(watch, StopReply::Watching), StopStep::Done);
}

#[test]
fn replies_out_of_turn_change_nothing() {
    assert!(matches!(
        launch(None, vec![LaunchReply::Settled, LaunchReply::Watching]),
        LaunchStep::FindBinary { model: None }
    ));
    assert_eq!(stop_openclaw_gateway(StopStep::KillListeners, StopReply::Killed), StopStep::KillListeners);
}

#[test]
fn blank_model_is_none() {
    assert_eq!(injected_model(Some(" \u{3000}".to_string())), None);
    assert_eq!(injected_model(None), None);
    assert_eq!(injected_model(Some(" m".to_string())), Some(" m".to_string()));
}

#[test]
fn started_process_is_recorded() {
    let mut record = Some(1);
    assert_eq!(
        spawn_gateway_foreground(&mut record, Err("no such file".to_string())),
        Err("Failed to start OpenClaw gateway: no such file".to_string())
    );
    assert_eq!(
        spawn_gateway_foreground(&mut record, Ok(None)),
        Err("Failed to get child PID".to_string())
    );
    assert_eq!(record, Some(1));
    assert_eq!(spawn_gateway_foreground(&mut record, Ok(Some(2))), Ok(2));
    assert_eq!(record, Some(2));
}

#[test]
fn stop_ends_process_then_listeners() {
    let mut step = StopStep::TakeRecord;
    let mut seen = vec![step];
    for reply in [
        StopReply::Taken(Some(3)),
        StopReply::Killed,
        StopReply::ListenersKilled,
        StopReply::Watching,
    ] {
        step = stop_openclaw_gateway(step, reply);
        seen.push(step);
    }
    assert_eq!(
        seen,
        vec![
            StopStep::TakeRecord,
            StopStep::KillProcess { pid: 3 },
            StopStep::KillListeners,
            StopStep::Watch,
            StopStep::Done,
        ]
    );
    assert_eq!(
        stop_openclaw_gateway(StopStep::TakeRecord, StopReply::Taken(None)),
        StopStep::KillListeners
    );
}

fn install(replies: Vec<InstallReply<u8>>) -> InstallStep<u8> {
    let mut step = InstallStep::AnnounceStart;
    for reply in replies {
        step = install_openclaw(Platform::Unix, step, reply);
    }
    step
}

#[test]
fn install_goes_through_the_mirror_for_the_default() {
    let start = || vec![InstallReply::Announced, InstallReply::Npm(Some(1u8))];
    assert!(matches!(install(start()), InstallStep::QueryRegistry { npm: 1 }));
    let mut replies = start();
    replies.push(InstallReply::Registry(None));
    assert!(matches!(
        install(replies),
        InstallStep::AnnounceMirror { npm: 1, mirror } if mirror == TEMPORARY_CHINA_NPM_REGISTRY
    ));
    let mut replies = start();
    replies.push(InstallReply::Registry(Some("https://registry.npmjs.org/".to_string())));
    replies.push(InstallReply::Announced);
    assert!(matches!(
        install(replies),
        InstallStep::Install { npm: 1, registry: Some(mirror) } if mirror == TEMPORARY_CHINA_NPM_REGISTRY
    ));
    let mut replies = start();
    replies.push(InstallReply::Registry(Some("https://packages.example.com/npm".to_string())));
    assert!(matches!(install(replies), InstallStep::Install { npm: 1, registry: None }));
}

#[test]
fn install_ends_as_npm_does() {
    let run = |outcome| {
        vec![
            InstallReply::Announced,
            InstallReply::Npm(Some(1u8)),
            InstallReply::Registry(Some("https://x".to_string())),
            InstallReply::Ran(outcome),
            InstallReply::Announced,
        ]
    };
    let success = InstallOutcome::Ended { success: true, stderr: Vec::new() };
    assert!(matches!(install(run(success)), InstallStep::Done(Ok(()))));
    let failure = InstallOutcome::Ended { success: false, stderr: b"EACCES".to_vec() };
    assert!(matches!(
        install(run(failure)),
        InstallStep::Done(Err(error)) if error == "npm install failed: EACCES"
    ));
    assert!(matches!(
        install(vec![InstallReply::Announced, InstallReply::Npm(None)]),
        InstallStep::Done(Err(error)) if error == "npm not found on PATH. Please install Node.js first."
    ));
}

#[test]
fn install_failures_are_explained() {
    let error = |platform, outcome| install_result(platform, outcome).unwrap_err();
    let ended = || InstallOutcome::Ended { success: false, stderr: vec![b'x', 0xff] };
    let missing = || InstallOutcome::NotStarted("e".to_string());
    let lost = || InstallOutcome::Lost("e".to_string());
    assert_eq!(error(Platform::Windows, missing()), "Failed to spawn npm install: e");
    assert_eq!(error(Platform::Windows, lost()), "npm install process failed: e");
    assert_eq!(error(Platform::Windows, ended()), "npm install -g openclaw@latest failed");
    assert_eq!(error(Platform::Unix, missing()), "Failed to run npm install: e");
    assert_eq!(error(Platform::Unix, lost()), "Failed to run npm install: e");
    assert_eq!(error(Platform::Unix, ended()), "npm install failed: x\u{fffd}");
}

#[test]
fn install_progress_is_announced() {
    let told = |step: InstallStep<u8>| {
        install_progress(&step).map(|p| (p.status, p.percent, p.message))
    };
    assert_eq!(
        told(InstallStep::AnnounceStart),
        Some(("installing", 0, "正在安装 OpenClaw，请稍候..."))
    );
    assert_eq!(
        told(InstallStep::AnnounceMirror { npm: 1, mirror: "m" }),
        Some(("installing", 8, "检测到 npm 仍在使用默认源，本次安装将临时切换到国内镜像。"))
    );
    assert_eq!(told(InstallStep::AnnounceDone), Some(("completed", 100, "OpenClaw 安装成功。")));
    assert_eq!(told(InstallStep::FindNpm), None);
}
