use irc::client::data::Config as IrcConfig;
use statsbot::config::{same_opt_text, same_texts, Configuration};
use statsbot::supervisor::{
    handle_reload_signal, reload_outcome, supervise, Reload, SupervisorAction, SupervisorEvent,
    RESTART_SECONDS,
};

fn config() -> Configuration {
    Configuration {
        irc: IrcConfig {
            nickname: Some("statsbot".to_string()),
            server: Some("irc.example.org".to_string()),
            port: Some(6697),
            ..IrcConfig::default()
        },
        oper_name: Some("admin".to_string()),
        oper_password: Some("secret".to_string()),
        servers: vec!["a".to_string(), "b".to_string()],
        exporter_address: "127.0.0.1:9100".to_string(),
    }
}

/// The configurations that differ from `config()` in one place each.
fn changed() -> Vec<Configuration> {
    let mut all = Vec::new();
    let mut c = config();
    c.irc.nickname = Some("other".to_string());
    all.push(c);
    let mut c = config();
    c.irc.port = None;
    all.push(c);
    let mut c = config();
    c.irc.channels = vec!["#stats".to_string()];
    all.push(c);
    let mut c = config();
    c.oper_name = None;
    all.push(c);
    let mut c = config();
    c.oper_name = Some("Admin".to_string());
    all.push(c);
    let mut c = config();
    c.oper_password = Some("".to_string());
    all.push(c);
    let mut c = config();
    c.servers.push("c".to_string());
    all.push(c);
    let mut c = config();
    c.servers.swap(0, 1);
    all.push(c);
    let mut c = config();
    c.servers.clear();
    all.push(c);
    let mut c = config();
    c.exporter_address = "127.0.0.1:9101".to_string();
    all.push(c);
    all
}

#[test]
fn the_rule_of_reloading() {
    assert_eq!(reload_outcome(false, false, false), Reload::LoadFailed);
    assert_eq!(reload_outcome(false, true, true), Reload::LoadFailed);
    assert_eq!(reload_outcome(false, true, false), Reload::LoadFailed);
    assert_eq!(reload_outcome(false, false, true), Reload::LoadFailed);
    assert_eq!(reload_outcome(true, true, true), Reload::Unchanged);
    assert_eq!(reload_outcome(true, false, true), Reload::Restart);
    assert_eq!(reload_outcome(true, true, false), Reload::Restart);
    assert_eq!(reload_outcome(true, false, false), Reload::Restart);
}

#[test]
fn an_equal_configuration_does_not_restart_the_session() {
    let mut current = config();
    assert_eq!(handle_reload_signal(&mut current, Some(config())), Reload::Unchanged);
    assert!(current.same_as(&config()));
    // Again and again.
    assert_eq!(handle_reload_signal(&mut current, Some(config())), Reload::Unchanged);
    assert_eq!(
        supervise(&mut current, SupervisorEvent::ReloadSignal { loaded: Some(config()) }),
        (SupervisorAction::Continue, Some(Reload::Unchanged))
    );
    assert!(current.same_as(&config()));
}

#[test]
fn a_changed_configuration_restarts_the_session_once() {
    for new in changed() {
        let mut current = config();
        assert!(!current.same_as(&new));
        assert_eq!(handle_reload_signal(&mut current, Some(new.clone())), Reload::Restart);
        assert!(current.same_as(&new));
        assert!(!current.same_as(&config()));
        // The new configuration is in force: reading it again changes nothing.
        assert_eq!(handle_reload_signal(&mut current, Some(new.clone())), Reload::Unchanged);
        assert!(current.same_as(&new));
        // And going back is a change again.
        assert_eq!(handle_reload_signal(&mut current, Some(config())), Reload::Restart);
        assert!(current.same_as(&config()));
    }
}

#[test]
fn a_configuration_that_cannot_be_read_changes_nothing() {
    let mut current = config();
    assert_eq!(handle_reload_signal(&mut current, None), Reload::LoadFailed);
    assert!(current.same_as(&config()));
    assert_eq!(
        supervise(&mut current, SupervisorEvent::ReloadSignal { loaded: None }),
        (SupervisorAction::Continue, Some(Reload::LoadFailed))
    );
    assert!(current.same_as(&config()));
}

#[test]
fn a_reload_restarts_at_once_and_a_failure_after_the_delay() {
    assert_eq!(RESTART_SECONDS, 2);
    let mut current = config();
    let new = changed().remove(0);
    assert_eq!(
        supervise(&mut current, SupervisorEvent::ReloadSignal { loaded: Some(new.clone()) }),
        (SupervisorAction::RestartSession { delay_seconds: 0 }, Some(Reload::Restart))
    );
    assert!(current.same_as(&new));
    // However often the session ends, it is opened again, with the
    // configuration in force.
    for _ in 0..10 {
        assert_eq!(
            supervise(&mut current, SupervisorEvent::SessionEnded),
            (SupervisorAction::RestartSession { delay_seconds: 2 }, None)
        );
        assert!(current.same_as(&new));
    }
}

#[test]
fn the_end_of_the_exporter_ends_the_process() {
    let mut current = config();
    assert_eq!(
        supervise(&mut current, SupervisorEvent::ExporterEnded),
        (SupervisorAction::Shutdown, None)
    );
    assert!(current.same_as(&config()));
}

#[test]
fn settings_are_compared_by_value() {
    let a = config();
    assert!(a.same_settings(&config()));
    assert!(a.same_as(&a.clone()));
    for (i, other) in changed().iter().enumerate() {
        // The first three differ in the connection parameters only.
        assert_eq!(a.same_settings(other), i < 3, "{}", i);
        assert!(!a.same_as(other));
        assert!(!other.same_as(&a));
    }
    // Equal connection parameters alone do not make two configurations
    // equal, and neither do equal settings alone.
    assert!(a.same_given(&config(), true));
    assert!(!a.same_given(&config(), false));
    for (i, other) in changed().iter().enumerate() {
        assert_eq!(a.same_given(other, true), i < 3, "{}", i);
        assert!(!a.same_given(other, false));
    }
    assert!(same_opt_text(&None, &None));
    assert!(same_opt_text(&Some("x".to_string()), &Some("x".to_string())));
    assert!(!same_opt_text(&Some("x".to_string()), &None));
    assert!(!same_opt_text(&None, &Some("x".to_string())));
    assert!(!same_opt_text(&Some("x".to_string()), &Some("y".to_string())));
    assert!(same_texts(&vec![], &vec![]));
    assert!(same_texts(&vec!["a".to_string()], &vec!["a".to_string()]));
    assert!(!same_texts(&vec!["a".to_string()], &vec![]));
    assert!(!same_texts(&vec!["a".to_string()], &vec!["b".to_string()]));
    assert!(!same_texts(
        &vec!["a".to_string(), "b".to_string()],
        &vec!["b".to_string(), "a".to_string()]
    ));
}
