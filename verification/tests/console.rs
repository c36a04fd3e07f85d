use mc_tui::console::{
    captured, Backend, Console, ConsoleRole, Ending, Probe, Scrollback, Step, TmuxCommand,
    MAX_BUFFER,
};

fn tmux() -> Console {
    Console::new(ConsoleRole::Server, "survival", "/srv/survival", Backend::Tmux)
}

fn pty() -> Console {
    Console::new(ConsoleRole::Frpc, "survival", "C:\\survival", Backend::Pty)
}

fn words(list: &[&str]) -> Vec<String> {
    list.iter().map(|s| s.to_string()).collect()
}

fn tmux_args(step: Step) -> Vec<String> {
    match step {
        Step::Tmux(args) => args,
        _ => panic!("expected a tmux command"),
    }
}

#[test]
fn sessions_are_named_after_role_and_directory() {
    assert_eq!(tmux().session_name, "shulker-survival");
    assert_eq!(tmux().cwd, "/srv/survival");
    assert_eq!(pty().session_name, "shulker-frpc-survival");
}

#[test]
fn only_tmux_can_be_attached_to() {
    assert_eq!(tmux().attach_command().unwrap(), "tmux attach -t shulker-survival");
    assert!(pty().attach_command().is_none());
}

#[test]
fn tmux_sessions_are_driven_by_commands() {
    let c = tmux();
    let argv = words(&["java", "-jar", "'my server.jar'"]);
    assert_eq!(
        tmux_args(c.start(false, &argv)),
        words(&[
            "new-session",
            "-d",
            "-s",
            "shulker-survival",
            "-c",
            "/srv/survival",
            "java -jar 'my server.jar'",
        ]),
    );
    assert!(matches!(c.start(true, &argv), Step::Done));
    let stop = words(&["send-keys", "-t", "shulker-survival", "stop", "Enter"]);
    assert_eq!(tmux_args(c.send_line(false, "stop")), stop);
    assert_eq!(tmux_args(c.stop_graceful(true, "stop")), stop);
    assert!(matches!(c.stop_graceful(false, "stop"), Step::Done));
    assert_eq!(
        tmux_args(c.capture_recent(200)),
        words(&["capture-pane", "-t", "shulker-survival", "-p", "-S", "-200"]),
    );
    assert_eq!(
        tmux_args(c.kill_session(true)),
        words(&["kill-session", "-t", "shulker-survival"]),
    );
    assert!(matches!(c.kill_session(false), Step::Done));
}

#[test]
fn pseudo_terminals_are_driven_by_bytes() {
    let c = pty();
    match c.start(false, &words(&["frpc", "-c", "frpc.toml"])) {
        Step::Spawn(program, args) => {
            assert_eq!(program, "frpc");
            assert_eq!(args, words(&["-c", "frpc.toml"]));
        }
        _ => panic!("expected a program"),
    }
    assert!(matches!(c.start(true, &[]), Step::Done));
    match c.send_line(true, "say 你好") {
        Step::Write(bytes) => assert_eq!(bytes, "say 你好\r\n".as_bytes()),
        _ => panic!("expected bytes"),
    }
    match c.send_line(false, "stop") {
        Step::Fail(why) => assert_eq!(why, "console not running"),
        _ => panic!("expected a failure"),
    }
    match c.stop_graceful(true, "stop") {
        Step::Write(bytes) => assert_eq!(bytes, b"stop\r\n"),
        _ => panic!("expected bytes"),
    }
    assert!(matches!(c.stop_graceful(false, "stop"), Step::Done));
    assert!(matches!(c.capture_recent(5), Step::ShowScrollback));
    assert!(matches!(c.kill_session(true), Step::Kill));
    assert!(matches!(c.kill_session(false), Step::Done));
}

#[test]
fn failed_commands_are_named() {
    let c = tmux();
    assert_eq!(
        c.tmux_outcome(TmuxCommand::NewSession, false).unwrap_err(),
        "tmux new-session failed for shulker-survival",
    );
    assert_eq!(
        c.tmux_outcome(TmuxCommand::SendKeys, false).unwrap_err(),
        "tmux send-keys failed",
    );
    assert_eq!(
        c.tmux_outcome(TmuxCommand::KillSession, false).unwrap_err(),
        "tmux kill-session failed",
    );
    assert!(c.tmux_outcome(TmuxCommand::SendKeys, true).is_ok());
}

#[test]
fn captured_rows_are_text() {
    assert_eq!(captured(true, "行 1\n".as_bytes(), b"noise").unwrap(), "行 1\n");
    assert_eq!(captured(true, &[b'a', 0xff, b'b'], b"").unwrap(), "a\u{fffd}b");
    assert_eq!(
        captured(false, b"rows", b" can't find pane\n").unwrap_err(),
        "tmux capture-pane failed: can't find pane",
    );
}

#[test]
fn sessions_are_alive_while_something_runs() {
    assert!(tmux().is_alive(Probe::Tmux(true)));
    assert!(!tmux().is_alive(Probe::Tmux(false)));
    assert!(pty().is_alive(Probe::Running));
    for probe in [Probe::NoPty, Probe::Exited, Probe::Lost] {
        assert!(!pty().is_alive(probe));
    }
}

#[test]
fn stopping_is_given_half_a_minute() {
    let c = pty();
    assert_eq!(c.stop_progress(true, 0), Ending::Wait);
    assert_eq!(c.stop_progress(true, 29), Ending::Wait);
    assert_eq!(c.stop_progress(true, 30), Ending::Kill);
    assert_eq!(c.stop_progress(false, 30), Ending::Ended);
}

#[test]
fn scrollback_keeps_the_end() {
    assert_eq!(MAX_BUFFER, 256 * 1024);
    let mut all: Vec<u8> = Vec::new();
    let mut chunked = Scrollback::new();
    assert_eq!(chunked.text(), "");
    for i in 0..100u32 {
        let chunk = vec![b'a' + (i % 26) as u8; 4096];
        chunked.push_chunk(&chunk);
        all.extend_from_slice(&chunk);
    }
    let mut whole = Scrollback::new();
    whole.push_chunk(&all);
    assert_eq!(chunked.text().as_bytes(), &all[all.len() - MAX_BUFFER..]);
    assert_eq!(chunked.text(), whole.text());
    let mut broken = Scrollback::new();
    broken.push_chunk("日".as_bytes());
    broken.push_chunk(&[0xe6]);
    assert_eq!(broken.text(), "日\u{fffd}");
}
