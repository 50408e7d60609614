use statsbot::stats::{SimplePrometheus, StatsZ};
use statsbot::store::MetricsStore;

fn report(total: u64, users: u64) -> StatsZ {
    let mut r = StatsZ::default();
    r.total = total;
    r.users = users;
    r
}

#[test]
fn an_empty_store_renders_as_nothing() {
    let store = MetricsStore::new();
    assert_eq!(store.len(), 0);
    assert_eq!(store.render(None), "");
    assert_eq!(store.render(Some("a")), "");
    assert_eq!(store.get("a"), None);
    let store = MetricsStore::default();
    assert_eq!(store.len(), 0);
    assert_eq!(store.render(None), "");
}

#[test]
fn the_last_report_of_a_server_wins() {
    let first = report(1, 10);
    let second = report(2, 20);
    let mut store = MetricsStore::new();
    store.update("a".to_string(), first);
    assert_eq!(store.get("a"), Some(first));
    store.update("a".to_string(), second);
    assert_eq!(store.len(), 1);
    assert_eq!(store.get("a"), Some(second));
    let text = store.render(None);
    assert_eq!(text, second.to_prometheus_metrics(Some("a".to_string())).unwrap());
    assert!(text.contains("total{server=\"a\"} 2\n"));
    assert!(text.contains("users{server=\"a\"} 20\n"));
    assert!(!text.contains("total{server=\"a\"} 1\n"));
    assert!(!text.contains("users{server=\"a\"} 10\n"));
    assert_eq!(text.lines().count(), 46);
}

#[test]
fn a_report_of_one_server_leaves_the_others() {
    let mut store = MetricsStore::new();
    store.update("a".to_string(), report(1, 10));
    store.update("b".to_string(), report(2, 20));
    store.update("c".to_string(), report(3, 30));
    store.update("b".to_string(), report(4, 40));
    assert_eq!(store.len(), 3);
    assert_eq!(store.get("a"), Some(report(1, 10)));
    assert_eq!(store.get("b"), Some(report(4, 40)));
    assert_eq!(store.get("c"), Some(report(3, 30)));
    assert_eq!(store.get("d"), None);
    assert_eq!(store.get(""), None);
}

#[test]
fn all_reports_are_rendered_each_under_its_server() {
    let report1 = report(111, 1);
    let report2 = report(222, 2);
    let mut store = MetricsStore::new();
    store.update("a".to_string(), report1);
    store.update("b".to_string(), report2);
    let text = store.render(None);
    let lines: Vec<&str> = text.lines().collect();
    assert_eq!(lines.len(), 92);
    let a = report1.to_prometheus_metrics(Some("a".to_string())).unwrap();
    let b = report2.to_prometheus_metrics(Some("b".to_string())).unwrap();
    for line in a.lines() {
        assert!(line.contains("{server=\"a\"} "));
        assert!(lines.contains(&line), "{}", line);
    }
    for line in b.lines() {
        assert!(line.contains("{server=\"b\"} "));
        assert!(lines.contains(&line), "{}", line);
    }
    assert!(lines.contains(&"total{server=\"a\"} 111"));
    assert!(lines.contains(&"total{server=\"b\"} 222"));
    assert!(text.ends_with('\n'));
    // The servers come in the order in which they first reported.
    assert_eq!(text, format!("{}{}", a, b));
    store.update("a".to_string(), report(333, 3));
    let a = report(333, 3).to_prometheus_metrics(Some("a".to_string())).unwrap();
    assert_eq!(store.render(None), format!("{}{}", a, b));
}

#[test]
fn one_server_can_be_rendered_alone() {
    let mut store = MetricsStore::new();
    store.update("a".to_string(), report(1, 10));
    store.update("b".to_string(), report(2, 20));
    assert_eq!(
        store.render(Some("b")),
        report(2, 20).to_prometheus_metrics(Some("b".to_string())).unwrap()
    );
    assert_eq!(
        store.render(Some("a")),
        report(1, 10).to_prometheus_metrics(Some("a".to_string())).unwrap()
    );
    assert_eq!(store.render(Some("c")), "");
    assert_eq!(store.render(Some("A")), "");
}

#[test]
fn servers_are_told_apart_to_the_letter() {
    let mut store = MetricsStore::new();
    store.update("irc".to_string(), report(1, 1));
    store.update("irc ".to_string(), report(2, 2));
    store.update("IRC".to_string(), report(3, 3));
    store.update("".to_string(), report(4, 4));
    assert_eq!(store.len(), 4);
    assert_eq!(store.get("irc"), Some(report(1, 1)));
    assert_eq!(store.get("irc "), Some(report(2, 2)));
    assert_eq!(store.get("IRC"), Some(report(3, 3)));
    assert_eq!(store.get(""), Some(report(4, 4)));
}
