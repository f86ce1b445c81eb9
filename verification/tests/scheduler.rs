use stop_it::pomodoro::{PhaseTargets, PomodoroMode};
use stop_it::scheduler::{
    domain_change, ingest, resolve_domain, run_tick, window_message, DomainChange,
};
use stop_it::tracker::{ActivityTracker, DomainTime};
use stop_it::websocket_server::{
    handle_incoming, Incoming, Reply, TabUpdateMessage, WebSocketResponse,
};

fn parse(text: &str) -> Incoming {
    let value: serde_json::Value = match serde_json::from_str(text) {
        Ok(value) => value,
        Err(e) => return Incoming::Malformed(e.to_string()),
    };
    let field = |name: &str| value.get(name).and_then(|v| v.as_str()).map(|s| s.to_string());
    match (field("type"), field("url"), field("title")) {
        (Some(_), Some(url), Some(title)) => Incoming::Update(TabUpdateMessage {
            url,
            title,
            domain: field("domain"),
            category: field("category"),
        }),
        _ => Incoming::Malformed("missing field".to_string()),
    }
}

fn message(url: &str, domain: Option<&str>) -> TabUpdateMessage {
    TabUpdateMessage {
        url: url.to_string(),
        title: "t".to_string(),
        domain: domain.map(|d| d.to_string()),
        category: None,
    }
}

#[test]
fn network_message_sets_the_current_domain() {
    let step = handle_incoming(parse(
        "{\"type\":\"tab_update\",\"url\":\"https://reddit.com/r/x\",\"title\":\"Reddit\"}",
    ));
    assert_eq!(
        step.reply,
        Some(Reply::Text(WebSocketResponse {
            success: true,
            message: Some("Message received".to_string()),
        }))
    );
    assert!(step.continues(true));
    let queued = vec![step.enqueue.expect("a well-formed message is queued")];
    let mut tracker = ActivityTracker::new(0);
    let outcome = run_tick(&mut tracker, &queued, 1);
    assert_eq!(*tracker.current_domain(), Some("reddit.com".to_string()));
    assert_eq!(outcome.changes, vec![DomainChange::SwitchedTo("reddit.com".to_string())]);
    assert_eq!(outcome.transition, None);
    assert_eq!(outcome.report, None);
}

#[test]
fn explicit_domain_wins_over_the_url() {
    assert_eq!(
        resolve_domain(&message("https://reddit.com/r/x", Some("example.org"))),
        Some("example.org".to_string())
    );
    assert_eq!(
        resolve_domain(&message("https://reddit.com/r/x", None)),
        Some("reddit.com".to_string())
    );
    assert_eq!(resolve_domain(&message("reddit.com", None)), None);
}

#[test]
fn malformed_message_keeps_the_connection() {
    let bad = handle_incoming(parse("{not json"));
    assert_eq!(bad.enqueue, None);
    match &bad.reply {
        Some(Reply::Text(response)) => {
            assert!(!response.success);
            let text = response.message.clone().unwrap_or_default();
            assert!(text.starts_with("Parse error: "));
            assert!(text.len() > "Parse error: ".len());
        }
        other => panic!("unexpected reply {:?}", other),
    }
    assert!(bad.continues(true));
    assert!(bad.continues(false));
    let good = handle_incoming(parse(
        "{\"type\":\"tab_update\",\"url\":\"https://a.com/\",\"title\":\"A\",\"domain\":\"a.com\"}",
    ));
    assert!(good.enqueue.is_some());
    assert_eq!(good.reply, Some(Reply::Text(WebSocketResponse::received())));
    assert!(good.continues(true));
    assert!(!good.continues(false));
}

#[test]
fn control_frames() {
    let ping = handle_incoming(Incoming::Ping(vec![1, 2, 3]));
    assert_eq!(ping.reply, Some(Reply::Pong(vec![1, 2, 3])));
    assert_eq!(ping.enqueue, None);
    assert!(ping.continues(true));
    assert!(!ping.continues(false));
    let close = handle_incoming(Incoming::Close);
    assert_eq!(close.reply, None);
    assert!(!close.continues(true));
    let other = handle_incoming(Incoming::Other);
    assert_eq!(other.reply, None);
    assert_eq!(other.enqueue, None);
    assert!(other.continues(false));
    let failed = handle_incoming(Incoming::Failed);
    assert_eq!(failed.reply, None);
    assert!(!failed.continues(true));
    assert_eq!(
        WebSocketResponse::parse_error("eof"),
        WebSocketResponse { success: false, message: Some("Parse error: eof".to_string()) }
    );
}

#[test]
fn changes_of_domain_are_told_apart() {
    let a = Some("a.com".to_string());
    let b = Some("b.com".to_string());
    assert_eq!(domain_change(&a, &a), DomainChange::Unchanged);
    assert_eq!(domain_change(&None, &None), DomainChange::Unchanged);
    assert_eq!(domain_change(&a, &b), DomainChange::SwitchedTo("b.com".to_string()));
    assert_eq!(domain_change(&None, &a), DomainChange::SwitchedTo("a.com".to_string()));
    assert_eq!(domain_change(&a, &None), DomainChange::LeftBrowser);
}

#[test]
fn poller_queues_nothing_for_an_empty_title() {
    assert_eq!(window_message(""), None);
    assert_eq!(
        window_message("Reddit - Funny"),
        Some(TabUpdateMessage {
            url: String::new(),
            title: "Reddit - Funny".to_string(),
            domain: Some("reddit.com".to_string()),
            category: None,
        })
    );
    let plain = window_message("Terminal").expect("a title gives a message");
    assert_eq!(plain.domain, None);
    assert_eq!(resolve_domain(&plain), None);
}

#[test]
fn tick_observes_then_accrues_then_switches() {
    let mut tracker = ActivityTracker::with_targets(0, PhaseTargets::new(10, 5));
    let first = run_tick(&mut tracker, &vec![message("", Some("a.com"))], 2);
    assert_eq!(first.changes, vec![DomainChange::SwitchedTo("a.com".to_string())]);
    assert_eq!(tracker.idle_seconds(), 2);
    let second = run_tick(
        &mut tracker,
        &vec![message("", Some("a.com")), message("https://b.com/x", None), message("", None)],
        6,
    );
    assert_eq!(
        second.changes,
        vec![
            DomainChange::Unchanged,
            DomainChange::SwitchedTo("b.com".to_string()),
            DomainChange::LeftBrowser,
        ]
    );
    assert_eq!(tracker.seconds_for("a.com"), 4);
    assert_eq!(tracker.seconds_for("b.com"), 0);
    assert_eq!(*tracker.current_domain(), None);
    assert_eq!(second.transition, None);
    let third = run_tick(&mut tracker, &vec![message("", Some("b.com"))], 10);
    let transition = third.transition.expect("the work phase reached its target");
    assert_eq!(transition.from, PomodoroMode::Work);
    assert_eq!(transition.to, PomodoroMode::Break);
    let report = third.report.expect("a work phase ends with a report");
    assert_eq!(
        report.domains,
        vec![
            DomainTime { domain: "a.com".to_string(), seconds: 4 },
            DomainTime { domain: "b.com".to_string(), seconds: 0 },
        ]
    );
    assert_eq!(report.idle_seconds, 6);
    assert_eq!(report.session_seconds, 10);
    assert_eq!(tracker.mode(), PomodoroMode::Break);
    assert_eq!(tracker.mode_start(), 10);
    let fourth = run_tick(&mut tracker, &vec![], 15);
    let back = fourth.transition.expect("the break reached its target");
    assert_eq!(back.to, PomodoroMode::Work);
    assert_eq!(back.notice, "Break is over! Starting 0-minute work session.");
    assert_eq!(fourth.report, None);
    assert_eq!(tracker.seconds_for("b.com"), 5);
}

#[test]
fn ingest_reports_the_change() {
    let mut tracker = ActivityTracker::new(0);
    let change = ingest(&mut tracker, &message("https://a.com/", None), 3);
    assert_eq!(change, DomainChange::SwitchedTo("a.com".to_string()));
    assert_eq!(tracker.idle_seconds(), 3);
    let again = ingest(&mut tracker, &message("https://a.com/y", None), 5);
    assert_eq!(again, DomainChange::Unchanged);
    assert_eq!(tracker.seconds_for("a.com"), 2);
}
