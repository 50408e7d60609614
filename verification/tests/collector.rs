use irc::client::data::Config as IrcConfig;
use statsbot::collector::{
    advance, message_handler, stats_line_code, stats_query, CollectorState, Outcome,
    SessionEvent, TickAction, TickHandler, STUCK_TICKS, TICK_SECONDS,
};
use statsbot::config::Configuration;
use statsbot::stats::StatsZ;

const REPORT: [&str; 17] = [
    "Users 10175(1221000) Invites 0(0)",
    "User channels 30651(735624) Aways 496(14282)",
    "Attached confs 24(576)",
    "Conflines 0(0)",
    "Classes 12(960)",
    "Channels 1988(816734)",
    "Bans 826(66080) Exceptions 31(2480) Invex 552(44160) Quiets 131(10480)",
    "Channel members 30651(735624) invite 0(0)",
    "Whowas array 15000(5756672)",
    "Hash: client 131072(3145728) chan 65536(1572864)",
    "linebuf 0(0)",
    "scache 8(1152)",
    "hostname hash 131072(3145728)",
    "Total: whowas 5756672 channel 1618438 conf 0",
    "Local client Memory in use: 0(0)",
    "Remote client Memory in use: 0(0)",
    "TOTAL: 7377222",
];

fn config(servers: &[&str]) -> Configuration {
    Configuration {
        irc: IrcConfig::default(),
        oper_name: None,
        oper_password: None,
        servers: servers.iter().map(|s| s.to_string()).collect(),
        exporter_address: "127.0.0.1:9100".to_string(),
    }
}

/// The reply that carries one line of the report, as the server sends it:
/// the nick, the letter of the request, and the line cut at its blanks.
fn stats_line(line: &str) -> SessionEvent {
    let mut args = vec!["statsbot".to_string(), "z".to_string()];
    args.extend(line.split(' ').map(|s| s.to_string()));
    SessionEvent::Raw { code: "249".to_string(), args }
}

fn waiting(lines: &[&str], server: usize) -> CollectorState {
    CollectorState::WaitingForData {
        lines: lines.iter().map(|s| s.to_string()).collect(),
        server,
    }
}

/// One round without trouble: the request on a tick, the whole report, its end.
fn round(
    config: &Configuration,
    ticks: &mut TickHandler,
    state: &mut CollectorState,
) -> (TickAction, Outcome) {
    let asked = ticks.handle_tick(state, config);
    for line in REPORT {
        assert_eq!(message_handler(config, state, stats_line(line)), Outcome::LineKept);
    }
    let outcome = message_handler(config, state, SessionEvent::EndOfStats);
    (asked, outcome)
}

#[test]
fn the_constants() {
    assert_eq!(STUCK_TICKS, 3);
    assert_eq!(TICK_SECONDS, 5);
    assert_eq!(stats_query(), "z");
    assert_eq!(stats_line_code(), "249");
}

#[test]
fn the_session_starts_at_rest_once_it_is_ready() {
    let config = config(&["a", "b"]);
    let mut state = CollectorState::NotConnected;
    let outcome = message_handler(&config, &mut state, SessionEvent::EndOfMotd);
    assert_eq!(outcome, Outcome::Ready { oper: None });
    assert_eq!(state, CollectorState::Idle { next: None });
    // Ready again, from any state, starts over at the first server.
    let mut state = waiting(&["x"], 1);
    let outcome = message_handler(&config, &mut state, SessionEvent::EndOfMotd);
    assert_eq!(outcome, Outcome::Ready { oper: None });
    assert_eq!(state, CollectorState::Idle { next: None });
}

#[test]
fn operator_rights_are_asked_for_where_both_credentials_are_given() {
    let mut with_both = config(&["a"]);
    with_both.oper_name = Some("admin".to_string());
    with_both.oper_password = Some("secret".to_string());
    let mut state = CollectorState::NotConnected;
    assert_eq!(
        message_handler(&with_both, &mut state, SessionEvent::EndOfMotd),
        Outcome::Ready { oper: Some(("admin".to_string(), "secret".to_string())) }
    );

    let mut name_only = config(&["a"]);
    name_only.oper_name = Some("admin".to_string());
    let mut state = CollectorState::NotConnected;
    assert_eq!(
        message_handler(&name_only, &mut state, SessionEvent::EndOfMotd),
        Outcome::Ready { oper: None }
    );

    let mut password_only = config(&["a"]);
    password_only.oper_password = Some("secret".to_string());
    let mut state = CollectorState::NotConnected;
    assert_eq!(
        message_handler(&password_only, &mut state, SessionEvent::EndOfMotd),
        Outcome::Ready { oper: None }
    );
}

#[test]
fn a_tick_at_rest_asks_the_next_server() {
    let config = config(&["a", "b", "c"]);
    let mut ticks = TickHandler { stuck_counter: 2 };
    let mut state = CollectorState::Idle { next: None };
    let action = ticks.handle_tick(&mut state, &config);
    assert_eq!(action, TickAction::Request { server: Some("a".to_string()) });
    assert_eq!(state, waiting(&[], 0));
    assert_eq!(ticks.stuck_counter, 0);

    let mut state = CollectorState::Idle { next: Some(2) };
    let action = ticks.handle_tick(&mut state, &config);
    assert_eq!(action, TickAction::Request { server: Some("c".to_string()) });
    assert_eq!(state, waiting(&[], 2));
}

#[test]
fn a_tick_at_rest_past_the_last_server_asks_without_a_name() {
    let config3 = config(&["a", "b", "c"]);
    let mut ticks = TickHandler::default();
    let mut state = CollectorState::Idle { next: Some(3) };
    let action = ticks.handle_tick(&mut state, &config3);
    assert_eq!(action, TickAction::Request { server: None });
    assert_eq!(state, waiting(&[], 3));
    // The answer cannot be stored, and the first server is next.
    let outcome = message_handler(&config3, &mut state, SessionEvent::EndOfStats);
    assert_eq!(outcome, Outcome::UnknownServer { index: 3 });
    assert_eq!(state, CollectorState::Idle { next: Some(0) });

    let none = config(&[]);
    let mut state = CollectorState::Idle { next: None };
    let action = ticks.handle_tick(&mut state, &none);
    assert_eq!(action, TickAction::Request { server: None });
    assert_eq!(state, waiting(&[], 0));
    let outcome = message_handler(&none, &mut state, SessionEvent::EndOfStats);
    assert_eq!(outcome, Outcome::UnknownServer { index: 0 });
    assert_eq!(state, CollectorState::Idle { next: Some(0) });
}

#[test]
fn a_tick_before_the_session_is_ready_does_nothing() {
    let config = config(&["a"]);
    let mut ticks = TickHandler { stuck_counter: 1 };
    let mut state = CollectorState::NotConnected;
    assert_eq!(ticks.handle_tick(&mut state, &config), TickAction::Nothing);
    assert_eq!(state, CollectorState::NotConnected);
    assert_eq!(ticks.stuck_counter, 1);
}

#[test]
fn the_lines_of_an_answer_are_gathered_in_their_order() {
    let config = config(&["a"]);
    let mut state = waiting(&[], 0);
    assert_eq!(
        message_handler(&config, &mut state, stats_line("Users 10175(1221000) Invites 0(0)")),
        Outcome::LineKept
    );
    assert_eq!(
        message_handler(&config, &mut state, stats_line("Attached confs 24(576)")),
        Outcome::LineKept
    );
    assert_eq!(
        state,
        waiting(&["Users 10175(1221000) Invites 0(0)", "Attached confs 24(576)"], 0)
    );
    // Exactly three arguments: the third is the line.
    let three = SessionEvent::Raw {
        code: "249".to_string(),
        args: vec!["nick".to_string(), "z".to_string(), "TOTAL:".to_string()],
    };
    assert_eq!(message_handler(&config, &mut state, three), Outcome::LineKept);
    assert_eq!(
        state,
        waiting(
            &["Users 10175(1221000) Invites 0(0)", "Attached confs 24(576)", "TOTAL:"],
            0
        )
    );
}

#[test]
fn a_line_with_fewer_than_three_arguments_is_dropped() {
    let config = config(&["a"]);
    for n in 0..3 {
        let mut state = waiting(&["kept"], 0);
        let args: Vec<String> = ["nick", "z"].iter().take(n).map(|s| s.to_string()).collect();
        let event = SessionEvent::Raw { code: "249".to_string(), args };
        assert_eq!(message_handler(&config, &mut state, event), Outcome::LineTooShort);
        assert_eq!(state, waiting(&["kept"], 0));
    }
}

#[test]
fn a_line_that_was_not_asked_for_is_dropped() {
    let config = config(&["a"]);
    for start in [CollectorState::NotConnected, CollectorState::Idle { next: Some(1) }] {
        let mut state = start.clone();
        assert_eq!(
            message_handler(&config, &mut state, stats_line("Conflines 0(0)")),
            Outcome::Unexpected
        );
        assert_eq!(state, start);
        assert_eq!(
            message_handler(&config, &mut state, SessionEvent::EndOfStats),
            Outcome::Unexpected
        );
        assert_eq!(state, start);
    }
}

#[test]
fn other_messages_are_ignored() {
    let config = config(&["a"]);
    for start in [
        CollectorState::NotConnected,
        CollectorState::Idle { next: None },
        waiting(&["x"], 0),
    ] {
        let mut state = start.clone();
        assert_eq!(message_handler(&config, &mut state, SessionEvent::Other), Outcome::Ignored);
        assert_eq!(state, start);
        let other_code = SessionEvent::Raw {
            code: "248".to_string(),
            args: vec!["nick".to_string(), "z".to_string(), "x".to_string()],
        };
        assert_eq!(message_handler(&config, &mut state, other_code), Outcome::Ignored);
        assert_eq!(state, start);
        let longer_code = SessionEvent::Raw { code: "2490".to_string(), args: vec![] };
        assert_eq!(message_handler(&config, &mut state, longer_code), Outcome::Ignored);
        assert_eq!(state, start);
    }
}

#[test]
fn a_whole_answer_becomes_a_report_of_the_server_asked() {
    let config = config(&["a", "b"]);
    let mut ticks = TickHandler::default();
    let mut state = CollectorState::Idle { next: Some(1) };
    let (asked, outcome) = round(&config, &mut ticks, &mut state);
    assert_eq!(asked, TickAction::Request { server: Some("b".to_string()) });
    match outcome {
        Outcome::Report { server, stats } => {
            assert_eq!(server, "b");
            assert_eq!(stats.total, 7377222);
            assert_eq!(stats.users, 10175);
            assert_eq!(stats.users_memory, 1221000);
            assert_eq!(stats.total_channel_memory, 1618438);
        },
        other => panic!("{:?}", other),
    }
    assert_eq!(state, CollectorState::Idle { next: Some(0) });
}

#[test]
fn a_malformed_answer_is_dropped_and_the_next_server_is_asked() {
    let config = config(&["a", "b"]);
    // The last line is missing.
    let mut state = waiting(&REPORT[..16], 0);
    assert_eq!(
        message_handler(&config, &mut state, SessionEvent::EndOfStats),
        Outcome::Malformed
    );
    assert_eq!(state, CollectorState::Idle { next: Some(1) });
    // No line at all.
    let mut state = waiting(&[], 1);
    assert_eq!(
        message_handler(&config, &mut state, SessionEvent::EndOfStats),
        Outcome::Malformed
    );
    assert_eq!(state, CollectorState::Idle { next: Some(0) });
    // A line too many.
    let mut lines = REPORT.to_vec();
    lines.push("TOTAL: 1");
    let mut state = waiting(&lines, 0);
    assert_eq!(
        message_handler(&config, &mut state, SessionEvent::EndOfStats),
        Outcome::Malformed
    );
    assert_eq!(state, CollectorState::Idle { next: Some(1) });
}

#[test]
fn after_as_many_rounds_as_servers_the_first_server_is_next() {
    for n in 1..6usize {
        let names: Vec<String> = (0..n).map(|i| format!("server{}", i)).collect();
        let refs: Vec<&str> = names.iter().map(|s| s.as_str()).collect();
        let config = config(&refs);
        let mut ticks = TickHandler::default();
        let mut state = CollectorState::NotConnected;
        message_handler(&config, &mut state, SessionEvent::EndOfMotd);
        for i in 0..n {
            let (asked, outcome) = round(&config, &mut ticks, &mut state);
            assert_eq!(asked, TickAction::Request { server: Some(names[i].clone()) });
            assert!(matches!(outcome, Outcome::Report { ref server, .. } if *server == names[i]));
            assert_eq!(state, CollectorState::Idle { next: Some((i + 1) % n) });
        }
        assert_eq!(state, CollectorState::Idle { next: Some(0) });
        // And the round after asks the first server again.
        let (asked, _) = round(&config, &mut ticks, &mut state);
        assert_eq!(asked, TickAction::Request { server: Some(names[0].clone()) });
    }
}

#[test]
fn a_server_that_does_not_answer_is_given_up_at_the_third_tick() {
    let config = config(&["a", "b", "c"]);
    for k in 0..3usize {
        let mut ticks = TickHandler::default();
        let mut state = CollectorState::Idle { next: Some(k) };
        let asked = ticks.handle_tick(&mut state, &config);
        assert_eq!(asked, TickAction::Request { server: Some(config.servers[k].clone()) });
        assert_eq!(ticks.handle_tick(&mut state, &config), TickAction::Late);
        assert_eq!(state, waiting(&[], k));
        assert_eq!(ticks.stuck_counter, 1);
        assert_eq!(ticks.handle_tick(&mut state, &config), TickAction::Late);
        assert_eq!(state, waiting(&[], k));
        assert_eq!(ticks.stuck_counter, 2);
        assert_eq!(ticks.handle_tick(&mut state, &config), TickAction::Abandoned { server: k });
        assert_eq!(state, CollectorState::Idle { next: Some((k + 1) % 3) });
        assert_eq!(ticks.stuck_counter, 3);
        // The tick after asks the server behind it, and the count starts over.
        let asked = ticks.handle_tick(&mut state, &config);
        assert_eq!(
            asked,
            TickAction::Request { server: Some(config.servers[(k + 1) % 3].clone()) }
        );
        assert_eq!(ticks.stuck_counter, 0);
    }
}

#[test]
fn lines_of_a_late_answer_do_not_stop_the_count() {
    let config = config(&["a", "b"]);
    let mut ticks = TickHandler::default();
    let mut state = CollectorState::Idle { next: None };
    ticks.handle_tick(&mut state, &config);
    message_handler(&config, &mut state, stats_line(REPORT[0]));
    assert_eq!(ticks.handle_tick(&mut state, &config), TickAction::Late);
    message_handler(&config, &mut state, stats_line(REPORT[1]));
    assert_eq!(ticks.handle_tick(&mut state, &config), TickAction::Late);
    assert_eq!(state, waiting(&REPORT[..2], 0));
    assert_eq!(ticks.handle_tick(&mut state, &config), TickAction::Abandoned { server: 0 });
    assert_eq!(state, CollectorState::Idle { next: Some(1) });
    // What comes of the old answer now is dropped.
    assert_eq!(
        message_handler(&config, &mut state, stats_line(REPORT[2])),
        Outcome::Unexpected
    );
    assert_eq!(
        message_handler(&config, &mut state, SessionEvent::EndOfStats),
        Outcome::Unexpected
    );
    assert_eq!(state, CollectorState::Idle { next: Some(1) });
}

#[test]
fn the_count_of_late_ticks_stops_at_the_largest_number() {
    let config = config(&["a", "b"]);
    let mut ticks = TickHandler { stuck_counter: usize::MAX - 1 };
    let mut state = waiting(&[], 0);
    assert_eq!(ticks.handle_tick(&mut state, &config), TickAction::Abandoned { server: 0 });
    assert_eq!(ticks.stuck_counter, usize::MAX);
    let mut state = waiting(&[], 1);
    assert_eq!(ticks.handle_tick(&mut state, &config), TickAction::Abandoned { server: 1 });
    assert_eq!(ticks.stuck_counter, usize::MAX);
    assert_eq!(state, CollectorState::Idle { next: Some(0) });
}

#[test]
fn the_position_moves_on_by_one_and_starts_over_after_the_last() {
    assert_eq!(advance(0, 3), Some(1));
    assert_eq!(advance(1, 3), Some(2));
    assert_eq!(advance(2, 3), Some(0));
    assert_eq!(advance(0, 1), Some(0));
    assert_eq!(advance(7, 3), Some(0));
    assert_eq!(advance(0, 0), Some(0));
    assert_eq!(advance(usize::MAX - 1, usize::MAX), Some(0));
    assert_eq!(advance(usize::MAX, usize::MAX), None);
    assert_eq!(advance(usize::MAX, 0), None);
}

#[test]
fn the_report_is_the_same_as_parsed_from_the_joined_lines() {
    let config = config(&["a"]);
    let mut state = waiting(&REPORT, 0);
    let outcome = message_handler(&config, &mut state, SessionEvent::EndOfStats);
    let parsed: StatsZ = statsbot::parser::parse_stats_z(&REPORT.join("\n")).unwrap();
    assert_eq!(outcome, Outcome::Report { server: "a".to_string(), stats: parsed });
}

#[test]
fn late_answers_do_not_disturb_the_order() {
    // Every wait sees one or two late ticks, some before the first line,
    // some between lines, some after the last.
    let names = ["a", "b", "c", "d"];
    let config = config(&names);
    let mut ticks = TickHandler::default();
    let mut state = CollectorState::NotConnected;
    message_handler(&config, &mut state, SessionEvent::EndOfMotd);
    for round in 0..(2 * names.len()) {
        let i = round % names.len();
        let asked = ticks.handle_tick(&mut state, &config);
        assert_eq!(asked, TickAction::Request { server: Some(names[i].to_string()) });
        let late_at = [round % 17, (round * 7 + 3) % 17];
        let late = if round % 2 == 0 { &late_at[..1] } else { &late_at[..] };
        if late.contains(&0) {
            assert_eq!(ticks.handle_tick(&mut state, &config), TickAction::Late);
        }
        for (n, line) in REPORT.iter().enumerate() {
            assert_eq!(message_handler(&config, &mut state, stats_line(line)), Outcome::LineKept);
            assert_eq!(message_handler(&config, &mut state, SessionEvent::Other), Outcome::Ignored);
            if n > 0 && late.contains(&n) {
                assert_eq!(ticks.handle_tick(&mut state, &config), TickAction::Late);
            }
        }
        assert!(ticks.stuck_counter < STUCK_TICKS);
        let outcome = message_handler(&config, &mut state, SessionEvent::EndOfStats);
        assert!(matches!(outcome, Outcome::Report { ref server, .. } if server == names[i]));
        assert_eq!(state, CollectorState::Idle { next: Some((i + 1) % names.len()) });
        if i == names.len() - 1 {
            assert_eq!(state, CollectorState::Idle { next: Some(0) });
        }
    }
}
