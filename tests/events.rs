use run_in_roblox::{
    drain, exit_code, parse_submission, style_of, Event, Line, OutputLevel, ResultLoop, RunError,
    Style, Submission, Transport,
};

const SESSION: &str = "run-in-roblox-1f";

fn output(session: &str, level: OutputLevel, text: &str) -> Submission {
    Submission {
        session_id: session.to_string(),
        level: Some(level),
        text: Some(text.to_string()),
        terminate: false,
    }
}

fn terminate(session: &str) -> Submission {
    Submission { session_id: session.to_string(), level: None, text: None, terminate: true }
}

fn texts(lines: &[Line]) -> Vec<(Style, String)> {
    lines.iter().map(|l| (l.style, l.text.clone())).collect()
}

fn run(subs: Vec<Submission>) -> (Vec<Line>, Result<i32, RunError>) {
    let mut transport = Transport::new(SESSION);
    let events = transport.relay(&subs);
    drain(&events)
}

#[test]
fn scenario_print_then_terminate() {
    let (lines, result) = run(vec![output(SESSION, OutputLevel::Print, "hello"), terminate(SESSION)]);
    assert_eq!(texts(&lines), vec![(Style::Plain, "hello".to_string())]);
    assert_eq!(result, Ok(0));
    assert_eq!(exit_code(&result), 0);
}

#[test]
fn scenario_error_then_terminate() {
    let (lines, result) = run(vec![output(SESSION, OutputLevel::Error, "boom"), terminate(SESSION)]);
    assert_eq!(texts(&lines), vec![(Style::Red, "boom".to_string())]);
    assert_eq!(result, Ok(1));
    assert_eq!(exit_code(&result), 1);
}

#[test]
fn scenario_stale_sessions_then_terminate() {
    let (lines, result) = run(vec![
        output("run-in-roblox-old", OutputLevel::Error, "stale"),
        output("run-in-roblox-older", OutputLevel::Print, "stale too"),
        terminate(SESSION),
    ]);
    assert!(lines.is_empty());
    assert_eq!(result, Ok(0));
}

#[test]
fn scenario_process_ends_without_events() {
    let (lines, result) = run(vec![]);
    assert!(lines.is_empty());
    assert_eq!(result, Err(RunError::ProcessEnded));
    assert_eq!(exit_code(&result), 2);
}

#[test]
fn outputs_shown_once_in_order() {
    let (lines, result) = run(vec![
        output(SESSION, OutputLevel::Print, "one"),
        output(SESSION, OutputLevel::Info, "two"),
        output(SESSION, OutputLevel::Warning, "three"),
        output(SESSION, OutputLevel::Print, "one"),
        terminate(SESSION),
    ]);
    assert_eq!(
        texts(&lines),
        vec![
            (Style::Plain, "one".to_string()),
            (Style::Cyan, "two".to_string()),
            (Style::Yellow, "three".to_string()),
            (Style::Plain, "one".to_string()),
        ]
    );
    assert_eq!(result, Ok(0));
}

#[test]
fn foreign_session_never_seen() {
    let (lines, result) = run(vec![
        output(SESSION, OutputLevel::Print, "mine"),
        output("run-in-roblox-2a", OutputLevel::Error, "theirs"),
        terminate("run-in-roblox-2a"),
        output(SESSION, OutputLevel::Print, "mine again"),
        terminate(SESSION),
    ]);
    assert_eq!(
        texts(&lines),
        vec![(Style::Plain, "mine".to_string()), (Style::Plain, "mine again".to_string())]
    );
    assert_eq!(result, Ok(0));
}

#[test]
fn submissions_after_terminate_are_ignored() {
    let mut transport = Transport::new(SESSION);
    assert!(matches!(transport.submit(&terminate(SESSION)), Some(Event::Terminate)));
    assert!(transport.submit(&output(SESSION, OutputLevel::Error, "late")).is_none());
    assert!(transport.submit(&terminate(SESSION)).is_none());
}

#[test]
fn incomplete_submission_is_rejected() {
    let mut transport = Transport::new(SESSION);
    let missing_text = Submission {
        session_id: SESSION.to_string(),
        level: Some(OutputLevel::Print),
        text: None,
        terminate: false,
    };
    assert!(transport.submit(&missing_text).is_none());
    assert!(!transport.terminated);
    assert!(transport.submit(&output(SESSION, OutputLevel::Print, "ok")).is_some());
}

#[test]
fn shutdown_twice_is_a_no_op() {
    let mut transport = Transport::new(SESSION);
    transport.shutdown();
    assert!(!transport.listening);
    transport.shutdown();
    assert!(!transport.listening);
    assert!(!transport.terminated);
    assert_eq!(transport.session_id, SESSION);
    assert!(transport.submit(&output(SESSION, OutputLevel::Print, "x")).is_none());
}

#[test]
fn lines_after_terminate_are_not_shown() {
    let events = vec![
        Event::Terminate,
        Event::Output { level: OutputLevel::Error, body: "after".to_string() },
    ];
    let (lines, result) = drain(&events);
    assert!(lines.is_empty());
    assert_eq!(result, Ok(0));
}

#[test]
fn result_loop_steps() {
    let mut state = ResultLoop::new();
    let line = state.step(&Event::Output { level: OutputLevel::Warning, body: "w".to_string() });
    assert_eq!(line.map(|l| (l.style, l.text)), Some((Style::Yellow, "w".to_string())));
    assert_eq!(state.exit_code, 0);
    state.step(&Event::Output { level: OutputLevel::Error, body: "e".to_string() });
    assert_eq!(state.exit_code, 1);
    assert!(state.step(&Event::Terminate).is_none());
    assert!(state.done);
    assert_eq!(state.exit_code, 1);
}

#[test]
fn styles_by_level() {
    assert_eq!(style_of(OutputLevel::Print), Style::Plain);
    assert_eq!(style_of(OutputLevel::Info), Style::Cyan);
    assert_eq!(style_of(OutputLevel::Warning), Style::Yellow);
    assert_eq!(style_of(OutputLevel::Error), Style::Red);
}

#[test]
fn parse_submission_bodies() {
    let s = parse_submission("run-in-roblox-1f\nWarning\nline one\nline two");
    assert_eq!(s.session_id, "run-in-roblox-1f");
    assert_eq!(s.level, Some(OutputLevel::Warning));
    assert_eq!(s.text, Some("line one\nline two".to_string()));
    assert!(!s.terminate);

    let t = parse_submission("run-in-roblox-1f\nTerminate\n");
    assert!(t.terminate);
    assert_eq!(t.level, None);

    let short = parse_submission("run-in-roblox-1f");
    assert_eq!(short.session_id, "run-in-roblox-1f");
    assert_eq!(short.level, None);
    assert_eq!(short.text, None);

    let unknown = parse_submission("id\nShout\nhi");
    assert_eq!(unknown.level, None);
    assert!(!unknown.terminate);
}

#[test]
fn parsed_body_flows_to_output() {
    let subs = vec![
        parse_submission("run-in-roblox-1f\nPrint\nhello"),
        parse_submission("run-in-roblox-1f\nTerminate\n"),
    ];
    let (lines, result) = run(subs);
    assert_eq!(texts(&lines), vec![(Style::Plain, "hello".to_string())]);
    assert_eq!(result, Ok(0));
}
