//! The connection to the server, and what is sent over it.

use vvv::bot::types::FromDiscordEvent;
use vvv::rcon::{
    connect_timeout, worker_failed, RconAction, RconError, RconEvent, ReconnectingRcon,
    CONNECT_TIMEOUT_SECS, RECONNECT_COOLDOWN_MS,
};
use vvv::relay::{sanitize, tellraw_command};

#[test]
fn commands_go_over_the_connection() {
    let mut rcon = ReconnectingRcon::connect();
    assert!(matches!(rcon.send_command_step(RconEvent::Command, 0), RconAction::Send));
    let action = rcon.send_command_step(RconEvent::Sent(Ok("done".into())), 1);
    assert!(matches!(action, RconAction::Finish(Ok(reply)) if reply == "done"));
    assert_eq!(rcon.last_connect_attempt, None);
}

#[test]
fn failed_command_is_sent_again() {
    let mut rcon = ReconnectingRcon::connect();
    assert!(matches!(rcon.send_command_step(RconEvent::Command, 10), RconAction::Send));
    let action = rcon.send_command_step(RconEvent::Sent(Err("broken pipe".into())), 10);
    assert!(matches!(action, RconAction::Reconnect));
    let action = rcon.send_command_step(RconEvent::Resent(Ok("done".into())), 20);
    assert!(matches!(action, RconAction::Finish(Ok(reply)) if reply == "done"));
    assert!(rcon.connected);
}

#[test]
fn reconnects_are_rate_limited() {
    let mut rcon = ReconnectingRcon::connect();
    assert!(rcon.should_reconnect(1_000));
    assert!(!rcon.should_reconnect(1_000 + RECONNECT_COOLDOWN_MS - 1));
    assert!(!rcon.should_reconnect(0));
    let action = rcon.send_command_step(RconEvent::Sent(Err("x".into())), 5_999);
    match action {
        RconAction::Finish(Err(e)) => {
            assert_eq!(
                e.message(),
                "rcon error: reconnect rate limited, last attempt was <5s ago"
            );
        }
        _ => panic!("a reconnect within the cooldown"),
    }
    assert!(rcon.should_reconnect(1_000 + RECONNECT_COOLDOWN_MS));
}

#[test]
fn failed_connection_is_gone() {
    let mut rcon = ReconnectingRcon::connect();
    assert!(matches!(
        rcon.send_command_step(RconEvent::Sent(Err("x".into())), 0),
        RconAction::Reconnect
    ));
    let refused = RconError::Connect("refused".into());
    let action = rcon.send_command_step(RconEvent::ConnectFailed(refused), 1);
    assert!(matches!(
        action,
        RconAction::Finish(Err(RconError::Connect(why))) if why == "refused"
    ));
    assert!(!rcon.connected);
    assert!(matches!(rcon.send_command_step(RconEvent::Command, 5_000), RconAction::Reconnect));
    let action = rcon.send_command_step(RconEvent::Resent(Err("y".into())), 5_001);
    assert!(matches!(action, RconAction::Finish(Err(RconError::Rcon(why))) if why == "y"));
    assert!(rcon.connected);
}

#[test]
fn connection_errors_say_what_they_are() {
    assert_eq!(RconError::Connect("refused".into()).message(), "rcon connection failed: refused");
    assert_eq!(
        connect_timeout(CONNECT_TIMEOUT_SECS),
        RconError::Rcon("RCON connect timeout after 3s".into())
    );
    assert_eq!(worker_failed("panic"), RconError::Rcon("blocking task failed: panic".into()));
}

#[test]
fn relayed_text_stays_in_its_string() {
    assert_eq!(sanitize("a\"b\\c"), "a b c");
    assert_eq!(sanitize("a\nb\tc\u{1f}d\u{7f}"), "a b c d\u{7f}");
    let event = FromDiscordEvent { username: "x\"".into(), content: "hi \\\" there".into() };
    let command = tellraw_command(&event);
    assert_eq!(
        command,
        r#"tellraw @a {"text":"[Discord] <x >: hi    there", "color":"gold"}"#
    );
    let json: serde_json::Value =
        serde_json::from_str(command.strip_prefix("tellraw @a ").unwrap()).unwrap();
    assert_eq!(json["text"], "[Discord] <x >: hi    there");
    let event = FromDiscordEvent { username: "x".into(), content: "two\nlines".into() };
    let command = tellraw_command(&event);
    let json: serde_json::Value =
        serde_json::from_str(command.strip_prefix("tellraw @a ").unwrap()).unwrap();
    assert_eq!(json["text"], "[Discord] <x>: two lines");
}
