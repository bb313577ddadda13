use irc_gateway::gateway::{time_intent, weather_intent, Outcome};
use irc_gateway::relay::{Action, Command, Event, Phase, Relay};
use irc_gateway::reply::{extract_reply, strip_marker};

const SEP: &str = "tt-t-bot ";

fn cmd(id: u64, payload: &str) -> Command {
    Command { id, payload: payload.to_string() }
}

fn connected_relay(capacity: usize) -> Relay {
    let mut r = Relay::new(capacity, SEP);
    assert!(matches!(r.step(Event::Start), Action::Connect));
    assert!(matches!(r.step(Event::Connected), Action::Identify));
    assert!(matches!(r.step(Event::Identified), Action::Idle));
    assert_eq!(r.phase(), Phase::Ready);
    r
}

/// Drives one queued command through drain, transmit and reply; returns what was
/// transmitted and the completion.
fn serve(r: &mut Relay, decoys: usize, frame: &str) -> ((u64, String), (u64, String)) {
    assert!(matches!(r.step(Event::Wake), Action::Poll));
    for _ in 0..decoys {
        assert!(matches!(r.step(Event::Stale), Action::Poll));
    }
    let sent = match r.step(Event::Drained) {
        Action::Transmit(id, p) => (id, p),
        _ => panic!("expected a transmission"),
    };
    assert!(matches!(r.step(Event::Sent), Action::AwaitFrame));
    let done = match r.step(Event::Frame(frame.to_string())) {
        Action::Complete(id, t) => (id, t),
        _ => panic!("expected a completion"),
    };
    (sent, done)
}

#[test]
fn render_time_command() {
    assert_eq!(time_intent().render_command("alice"), ",time alice");
    assert_eq!(weather_intent().render_command("bob"), ",weather bob");
}

#[test]
fn strip_marker_removes_leading_marker() {
    assert_eq!(strip_marker("MARKbody", "MARK"), "body");
    assert_eq!(strip_marker("MARK", "MARK"), "");
}

#[test]
fn strip_marker_without_marker_is_identity() {
    assert_eq!(strip_marker("body MARK", "MARK"), "body MARK");
    assert_eq!(strip_marker("MA", "MARK"), "MA");
    assert_eq!(strip_marker("", "MARK"), "");
}

#[test]
fn extract_reply_takes_text_after_last_marker() {
    let frame = ":tt-t-bot PRIVMSG tt-t-bot :[\u{3}03Time\u{3}] 14:02 UTC";
    assert_eq!(extract_reply(frame, SEP), ":[\u{3}03Time\u{3}] 14:02 UTC");
}

#[test]
fn extract_reply_without_marker_fails() {
    assert_eq!(extract_reply(":someone PRIVMSG x :hi", SEP), "Failed to receive IRC reply");
    assert_eq!(extract_reply("", SEP), "Failed to receive IRC reply");
}

#[test]
fn result_text_for_each_outcome() {
    let t = time_intent();
    assert_eq!(t.result_text(&Outcome::NotSubmitted), "Failed to send message to IRC client");
    assert_eq!(t.result_text(&Outcome::NoAnswer), "Failed to receive response from tildebot");
    let reply = ":[\u{3}03Time\u{3}] 14:02 UTC".to_string();
    assert_eq!(t.result_text(&Outcome::Answered(reply.clone())), "14:02 UTC");
    // the weather marker does not match a time reply: returned unchanged
    assert_eq!(weather_intent().result_text(&Outcome::Answered(reply.clone())), reply);
}

#[test]
fn time_scenario_end_to_end() {
    let t = time_intent();
    let mut r = connected_relay(100);
    assert!(r.submit(cmd(7, &t.render_command("alice"))).is_ok());
    let frame = ":tt-t-bot PRIVMSG tt-t-bot :[\u{3}03Time\u{3}] 14:02 UTC";
    let (sent, done) = serve(&mut r, 0, frame);
    assert_eq!(sent, (7, ",time alice".to_string()));
    assert_eq!(done.0, 7);
    assert_eq!(t.result_text(&Outcome::Answered(done.1)), "14:02 UTC");
    assert_eq!(r.phase(), Phase::Ready);
}

#[test]
fn commands_transmitted_in_submission_order() {
    let mut r = connected_relay(10);
    for i in 0..5u64 {
        assert!(r.submit(cmd(i, &format!(",time u{}", i))).is_ok());
    }
    for i in 0..5u64 {
        let (sent, done) = serve(&mut r, 0, &format!("tt-t-bot r{}", i));
        assert_eq!(sent, (i, format!(",time u{}", i)));
        assert_eq!(done, (i, format!("r{}", i)));
    }
    assert!(matches!(r.step(Event::Wake), Action::Idle));
}

#[test]
fn decoy_frames_are_never_delivered() {
    let mut r = connected_relay(10);
    for k in 0..4u64 {
        assert!(r.submit(cmd(k, ",time alice")).is_ok());
        let (_, done) = serve(&mut r, k as usize, "x tt-t-bot genuine");
        assert_eq!(done, (k, "genuine".to_string()));
    }
}

#[test]
fn saturated_queue_refuses_at_once() {
    let mut r = Relay::new(2, SEP);
    assert!(r.submit(cmd(1, "a")).is_ok());
    assert!(r.submit(cmd(2, "b")).is_ok());
    assert_eq!(r.load(), 2);
    match r.submit(cmd(3, "c")) {
        Err(back) => assert_eq!((back.id, back.payload.as_str()), (3, "c")),
        Ok(()) => panic!("a saturated queue accepted a command"),
    }
    assert_eq!(r.load(), 2);
}

#[test]
fn in_flight_command_counts_against_capacity() {
    let mut r = connected_relay(1);
    assert!(r.submit(cmd(1, "a")).is_ok());
    assert!(matches!(r.step(Event::Wake), Action::Poll));
    assert!(r.submit(cmd(2, "b")).is_err());
    assert!(matches!(r.step(Event::Drained), Action::Transmit(1, _)));
    assert!(matches!(r.step(Event::SendFailed), Action::Complete(1, _)));
    assert!(r.submit(cmd(2, "b")).is_ok());
}

#[test]
fn send_failure_completes_with_fixed_text_and_continues() {
    let mut r = connected_relay(10);
    assert!(r.submit(cmd(1, "a")).is_ok());
    assert!(r.submit(cmd(2, "b")).is_ok());
    assert!(matches!(r.step(Event::Wake), Action::Poll));
    assert!(matches!(r.step(Event::Drained), Action::Transmit(1, _)));
    match r.step(Event::SendFailed) {
        Action::Complete(id, t) => assert_eq!((id, t.as_str()), (1, "Failed to send IRC command")),
        _ => panic!("expected a completion"),
    }
    let (sent, done) = serve(&mut r, 0, "tt-t-bot ok");
    assert_eq!(sent.0, 2);
    assert_eq!(done, (2, "ok".to_string()));
}

#[test]
fn command_queued_during_outage_is_served_after_reconnect() {
    let mut r = connected_relay(10);
    assert!(matches!(r.step(Event::StreamEnded), Action::Retry(None)));
    assert_eq!(r.phase(), Phase::Disconnected);
    assert!(r.submit(cmd(9, ",time alice")).is_ok());
    assert!(matches!(r.step(Event::Start), Action::Connect));
    assert!(matches!(r.step(Event::ConnectFailed), Action::Retry(None)));
    assert!(matches!(r.step(Event::Start), Action::Connect));
    assert!(matches!(r.step(Event::Connected), Action::Identify));
    assert!(matches!(r.step(Event::IdentifyFailed), Action::Retry(None)));
    assert!(matches!(r.step(Event::Start), Action::Connect));
    assert!(matches!(r.step(Event::Connected), Action::Identify));
    assert!(matches!(r.step(Event::Identified), Action::Poll));
    assert!(matches!(r.step(Event::Drained), Action::Transmit(9, _)));
    assert!(matches!(r.step(Event::Sent), Action::AwaitFrame));
    match r.step(Event::Frame("tt-t-bot back".to_string())) {
        Action::Complete(id, t) => assert_eq!((id, t.as_str()), (9, "back")),
        _ => panic!("expected a completion"),
    }
}

#[test]
fn stream_end_while_draining_requeues_command() {
    let mut r = connected_relay(10);
    assert!(r.submit(cmd(1, "a")).is_ok());
    assert!(r.submit(cmd(2, "b")).is_ok());
    assert!(matches!(r.step(Event::Wake), Action::Poll));
    assert!(matches!(r.step(Event::StreamEnded), Action::Retry(None)));
    assert_eq!(r.load(), 2);
    assert!(matches!(r.step(Event::Start), Action::Connect));
    assert!(matches!(r.step(Event::Connected), Action::Identify));
    assert!(matches!(r.step(Event::Identified), Action::Poll));
    assert!(matches!(r.step(Event::Drained), Action::Transmit(1, _)));
}

#[test]
fn stream_end_while_awaiting_reply_abandons_command() {
    let mut r = connected_relay(10);
    assert!(r.submit(cmd(1, "a")).is_ok());
    assert!(matches!(r.step(Event::Wake), Action::Poll));
    assert!(matches!(r.step(Event::Drained), Action::Transmit(1, _)));
    assert!(matches!(r.step(Event::Sent), Action::AwaitFrame));
    assert!(matches!(r.step(Event::StreamEnded), Action::Retry(Some(1))));
    assert_eq!(r.load(), 0);
    assert_eq!(r.phase(), Phase::Disconnected);
}

#[test]
fn unexpected_event_changes_nothing() {
    let mut r = Relay::new(3, SEP);
    assert!(matches!(r.step(Event::Wake), Action::Idle));
    assert!(matches!(r.step(Event::Frame("tt-t-bot x".to_string())), Action::Idle));
    assert_eq!(r.phase(), Phase::Disconnected);
}

#[test]
fn strip_marker_strips_only_once() {
    let m = ":[\u{3}03Weather\u{3}] ";
    let doubled = format!("{}{}sunny", m, m);
    assert_eq!(strip_marker(&doubled, m), format!("{}sunny", m));
}

#[test]
fn weather_scenario_end_to_end() {
    let w = weather_intent();
    let mut r = connected_relay(100);
    assert!(r.submit(cmd(3, &w.render_command("bob"))).is_ok());
    let frame = ":tt-t-bot PRIVMSG tt-t-bot :[\u{3}03Weather\u{3}] sunny, 21C";
    let (sent, done) = serve(&mut r, 2, frame);
    assert_eq!(sent, (3, ",weather bob".to_string()));
    assert_eq!(w.result_text(&Outcome::Answered(done.1)), "sunny, 21C");
}
