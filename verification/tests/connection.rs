use following_no_reposts_feed::admin_socket::{command_from_words, parse_command, AdminCommand};
use following_no_reposts_feed::connection::{
    Connection, ConnectionAction, ConnectionEvent, ConnectionState, RECONNECT_DELAY_SECONDS,
};
use following_no_reposts_feed::instant::{instant_from_text, instant_to_text};

#[test]
fn subscription_walks_the_circle() {
    let mut link = Connection::new();
    assert_eq!(link.state, ConnectionState::Disconnected);
    assert_eq!(link.step(ConnectionEvent::Start), ConnectionAction::Open);
    assert_eq!(link.state, ConnectionState::Connecting);
    assert_eq!(link.step(ConnectionEvent::Opened), ConnectionAction::Receive);
    assert_eq!(link.state, ConnectionState::Connected);
    assert_eq!(link.step(ConnectionEvent::StreamClosed), ConnectionAction::Release);
    assert_eq!(link.state, ConnectionState::Disconnecting);
    assert_eq!(link.step(ConnectionEvent::Released), ConnectionAction::Wait(5));
    assert_eq!(link.state, ConnectionState::Disconnected);
    assert_eq!(link.step(ConnectionEvent::DelayElapsed), ConnectionAction::Open);
    assert_eq!(link.state, ConnectionState::Connecting);
}

#[test]
fn failures_wait_five_seconds() {
    assert_eq!(RECONNECT_DELAY_SECONDS, 5);
    let mut link = Connection::new();
    link.step(ConnectionEvent::Start);
    assert_eq!(link.step(ConnectionEvent::OpenFailed), ConnectionAction::Wait(5));
    assert_eq!(link.state, ConnectionState::Disconnected);
    link.step(ConnectionEvent::DelayElapsed);
    link.step(ConnectionEvent::Opened);
    assert_eq!(link.step(ConnectionEvent::StreamFailed), ConnectionAction::Release);
    assert_eq!(link.step(ConnectionEvent::Released), ConnectionAction::Wait(5));
}

#[test]
fn cancellation_releases_the_socket_and_stops() {
    let mut link = Connection::new();
    link.step(ConnectionEvent::Start);
    link.step(ConnectionEvent::Opened);
    assert_eq!(link.step(ConnectionEvent::Cancelled), ConnectionAction::Release);
    assert_eq!(link.state, ConnectionState::Disconnecting);
    assert!(link.stopping);
    assert_eq!(link.step(ConnectionEvent::Released), ConnectionAction::Stop);
    assert_eq!(link.state, ConnectionState::Disconnected);
    assert_eq!(link.step(ConnectionEvent::Start), ConnectionAction::Stop);
    assert_eq!(link.step(ConnectionEvent::DelayElapsed), ConnectionAction::Stop);
    let mut idle = Connection::new();
    assert_eq!(idle.step(ConnectionEvent::Cancelled), ConnectionAction::Stop);
    assert_eq!(idle.state, ConnectionState::Disconnected);
}

#[test]
fn reports_out_of_place_are_ignored() {
    let mut link = Connection::new();
    for event in [
        ConnectionEvent::Opened,
        ConnectionEvent::OpenFailed,
        ConnectionEvent::StreamFailed,
        ConnectionEvent::StreamClosed,
        ConnectionEvent::Released,
    ] {
        assert_eq!(link.step(event), ConnectionAction::Ignore);
        assert_eq!(link, Connection::new());
    }
    link.step(ConnectionEvent::Start);
    assert_eq!(link.step(ConnectionEvent::Start), ConnectionAction::Ignore);
    assert_eq!(link.state, ConnectionState::Connecting);
}

#[test]
fn cursor_text_denotes_the_instant_it_was_written_from() {
    for instant in [0i64, 1, -1, 1_704_067_200_000_000, 1_704_067_200_123_456, 253_402_300_799_999_999] {
        let text = instant_to_text(instant).unwrap();
        assert_eq!(instant_from_text(&text, instant.wrapping_add(1)), instant);
    }
}

#[test]
fn instants_past_the_year_9999_are_written_but_not_read_back() {
    let instant: i64 = 253_402_300_800_000_000;
    let text = instant_to_text(instant).unwrap();
    assert_eq!(text, "+10000-01-01T00:00:00+00:00");
    assert_eq!(instant_from_text(&text, 7), 7);
}

#[test]
fn console_lines_are_read_as_commands() {
    assert!(matches!(parse_command(""), AdminCommand::Empty));
    assert!(matches!(parse_command("  \t\n"), AdminCommand::Empty));
    assert!(matches!(parse_command("stats\n"), AdminCommand::Stats));
    assert!(matches!(parse_command("  help  "), AdminCommand::Help));
    assert!(matches!(parse_command("quit"), AdminCommand::Quit));
    assert!(matches!(parse_command("exit now"), AdminCommand::Quit));
    assert!(matches!(parse_command("backfill"), AdminCommand::BackfillUsage));
    assert!(matches!(parse_command("Stats"), AdminCommand::Unknown));
    assert!(matches!(parse_command("statsx"), AdminCommand::Unknown));
    match parse_command(" backfill \t did:plc:alice  extra\n") {
        AdminCommand::Backfill(did) => assert_eq!(did, "did:plc:alice"),
        _ => panic!("expected a backfill"),
    }
    match command_from_words("backfill", Some("a b")) {
        AdminCommand::Backfill(did) => assert_eq!(did, "a b"),
        _ => panic!("expected a backfill"),
    }
    assert!(matches!(command_from_words("backfill", None), AdminCommand::BackfillUsage));
    assert!(matches!(command_from_words("exit", Some("x")), AdminCommand::Quit));
    assert!(matches!(parse_command("\u{a0}stats\u{2003}now"), AdminCommand::Stats));
    assert!(matches!(parse_command("st\u{e9}ts"), AdminCommand::Unknown));
}
