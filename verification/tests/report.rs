use stop_it::report::{
    format_entry, format_session, listed_before, rank, text_before, SessionReport,
};
use stop_it::tracker::DomainTime;

fn entry(domain: &str, seconds: u64) -> DomainTime {
    DomainTime { domain: domain.to_string(), seconds }
}

#[test]
fn ranking_is_by_seconds_then_name() {
    let ranked = rank(&vec![entry("a.com", 120), entry("b.com", 180), entry("c.com", 120)]);
    assert_eq!(ranked, vec![entry("b.com", 180), entry("a.com", 120), entry("c.com", 120)]);
    let other = rank(&vec![entry("c.com", 120), entry("b.com", 180), entry("a.com", 120)]);
    assert_eq!(other, ranked);
    assert_eq!(rank(&vec![]), vec![]);
}

#[test]
fn dictionary_order_is_that_of_strings() {
    let words = ["", "a", "ab", "b", "B", "a.com", "a-com", "é", "z", "aa"];
    for x in words {
        for y in words {
            assert_eq!(text_before(x, y), x < y);
        }
    }
    assert!(listed_before(&entry("z", 2), &entry("a", 1)));
    assert!(listed_before(&entry("a", 1), &entry("b", 1)));
    assert!(!listed_before(&entry("a", 1), &entry("a", 1)));
    assert!(!listed_before(&entry("b", 1), &entry("a", 1)));
}

#[test]
fn lines_of_a_report() {
    let report = SessionReport {
        session_seconds: 3725,
        idle_seconds: 5,
        domains: vec![entry("b.com", 180), entry("a.com", 125), entry("c.com", 59)],
    };
    assert_eq!(
        report.lines(),
        vec![
            "".to_string(),
            "--- Session Statistics ---".to_string(),
            "Session duration: 62 minutes".to_string(),
            "".to_string(),
            "Time spent per domain:".to_string(),
            "  b.com - 3m 0s".to_string(),
            "  a.com - 2m 5s".to_string(),
            "  c.com - 0m 59s".to_string(),
            "------------------------".to_string(),
            "".to_string(),
        ]
    );
}

#[test]
fn durations_round_towards_zero() {
    assert_eq!(format_session(0), "Session duration: 0 minutes");
    assert_eq!(format_session(59), "Session duration: 0 minutes");
    assert_eq!(format_session(60), "Session duration: 1 minutes");
    assert_eq!(format_session(-59), "Session duration: 0 minutes");
    assert_eq!(format_session(-61), "Session duration: -1 minutes");
    assert_eq!(
        format_session(i128::MIN),
        format!("Session duration: {} minutes", i128::MIN / 60)
    );
    assert_eq!(format_entry(&entry("x.io", u64::MAX)), format!("  x.io - {}m 15s", u64::MAX / 60));
}
