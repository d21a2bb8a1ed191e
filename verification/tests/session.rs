use chat_relay::message::{Message, SendError, SendRequest};
use chat_relay::registry::Registry;
use chat_relay::session::{send, PumpAction, PumpEvent, Session, SessionState};

fn id(name: &str) -> String {
    name.to_string()
}

fn message(sender: &str, content: &str) -> Message {
    Message { sender: sender.to_string(), content: content.to_string() }
}

fn active(registry: &mut Registry<u32>) -> Session {
    Session::connect_with(id("alice"), 1, registry)
}

fn terminating(registry: &mut Registry<u32>) -> Session {
    let mut session = active(registry);
    session.step(PumpEvent::ForwardFailed);
    session
}

fn closed(registry: &mut Registry<u32>) -> Session {
    let mut session = active(registry);
    session.step(PumpEvent::ChannelClosed);
    session
}

#[test]
fn connecting_registers_and_activates() {
    let mut registry: Registry<u32> = Registry::new();
    let session = Session::connect_with(id("alice"), 5, &mut registry);
    assert_eq!(session.name(), "alice");
    assert_eq!(session.current_state(), SessionState::Active);
    assert_eq!(registry.len(), 1);
    assert_eq!(registry.get(&id("alice")), Some(&5));
}

#[test]
fn connecting_again_displaces_the_earlier_session() {
    let mut registry: Registry<u32> = Registry::new();
    let first = Session::connect_with(id("carol"), 1, &mut registry);
    let second = Session::connect_with(id("carol"), 2, &mut registry);
    assert_eq!(first.current_state(), SessionState::Active);
    assert_eq!(second.current_state(), SessionState::Active);
    assert_eq!(registry.len(), 1);
    assert_eq!(registry.get(&id("carol")), Some(&2));
}

#[test]
fn an_active_session_forwards_what_it_receives() {
    let mut registry = Registry::new();
    let mut session = active(&mut registry);
    let action = session.step(PumpEvent::Received(message("bob", "hi")));
    assert_eq!(action, PumpAction::Forward(message("bob", "hi")));
    assert_eq!(session.current_state(), SessionState::Active);
}

#[test]
fn an_active_session_goes_on_after_a_forwarded_message() {
    let mut registry = Registry::new();
    let mut session = active(&mut registry);
    assert_eq!(session.step(PumpEvent::Forwarded), PumpAction::Receive);
    assert_eq!(session.current_state(), SessionState::Active);
    assert_eq!(session.name(), "alice");
}

#[test]
fn a_forwarding_failure_terminates_the_session() {
    let mut registry = Registry::new();
    let mut session = active(&mut registry);
    assert_eq!(session.step(PumpEvent::ForwardFailed), PumpAction::Deregister);
    assert_eq!(session.current_state(), SessionState::Terminating);
    assert_eq!(session.name(), "alice");
}

#[test]
fn a_closed_channel_stops_the_pump_without_cleanup() {
    let mut registry = Registry::new();
    let mut session = active(&mut registry);
    assert_eq!(session.step(PumpEvent::ChannelClosed), PumpAction::Stop);
    assert_eq!(session.current_state(), SessionState::Closed);
    assert_eq!(session.cleanup(&mut registry), None);
    assert!(registry.contains(&id("alice")));
}

#[test]
fn a_terminating_session_only_stops() {
    let mut registry = Registry::new();
    let mut session = terminating(&mut registry);
    assert_eq!(session.step(PumpEvent::Received(message("bob", "late"))), PumpAction::Stop);
    assert_eq!(session.current_state(), SessionState::Terminating);
    assert_eq!(session.step(PumpEvent::Forwarded), PumpAction::Stop);
    assert_eq!(session.step(PumpEvent::ForwardFailed), PumpAction::Stop);
    assert_eq!(session.step(PumpEvent::ChannelClosed), PumpAction::Stop);
    assert_eq!(session.current_state(), SessionState::Terminating);
}

#[test]
fn a_closed_session_only_stops() {
    let mut registry = Registry::new();
    let mut session = closed(&mut registry);
    assert_eq!(session.step(PumpEvent::Received(message("bob", "late"))), PumpAction::Stop);
    assert_eq!(session.step(PumpEvent::Forwarded), PumpAction::Stop);
    assert_eq!(session.step(PumpEvent::ForwardFailed), PumpAction::Stop);
    assert_eq!(session.step(PumpEvent::ChannelClosed), PumpAction::Stop);
    assert_eq!(session.current_state(), SessionState::Closed);
}

#[test]
fn cleanup_of_a_terminating_session_deregisters_it() {
    let mut registry = Registry::new();
    registry.register(id("bob"), 2);
    let session = terminating(&mut registry);
    assert_eq!(session.cleanup(&mut registry), Some(1));
    assert!(!registry.contains(&id("alice")));
    assert_eq!(registry.get(&id("bob")), Some(&2));
    assert_eq!(registry.len(), 1);
}

#[test]
fn cleanup_twice_is_cleanup_once() {
    let mut registry = Registry::new();
    registry.register(id("bob"), 2);
    let session = terminating(&mut registry);
    assert_eq!(session.cleanup(&mut registry), Some(1));
    assert_eq!(session.cleanup(&mut registry), None);
    assert_eq!(registry.len(), 1);
    assert_eq!(registry.get(&id("bob")), Some(&2));
}

#[test]
fn cleanup_of_an_active_session_changes_nothing() {
    let mut registry = Registry::new();
    let session = active(&mut registry);
    assert_eq!(session.cleanup(&mut registry), None);
    assert_eq!(registry.get(&id("alice")), Some(&1));
}

#[test]
fn send_without_a_message_is_an_invalid_argument() {
    let mut registry: Registry<u32> = Registry::new();
    registry.register(id("alice"), 1);
    let outcome = send(&registry, SendRequest { message: None });
    assert!(matches!(outcome, Err(SendError::InvalidArgument)));
    assert_eq!(registry.len(), 1);
    assert_eq!(registry.get(&id("alice")), Some(&1));
}

#[test]
fn send_without_a_message_registers_nothing() {
    let registry: Registry<u32> = Registry::new();
    assert!(send(&registry, SendRequest { message: None }).is_err());
    assert!(registry.is_empty());
}

#[test]
fn send_starts_the_broadcast_of_the_message() {
    let mut registry: Registry<u32> = Registry::new();
    registry.register(id("alice"), 1);
    registry.register(id("bob"), 2);
    let request = SendRequest { message: Some(message("bob", "hi")) };
    let mut fan_out = match send(&registry, request) {
        Ok(fan_out) => fan_out,
        Err(error) => panic!("turned down: {:?}", error),
    };
    let first = fan_out.next().unwrap();
    assert_eq!((first.identity.as_str(), *first.channel), ("alice", 1));
    assert_eq!(first.message, message("bob", "hi"));
    fan_out.record(true);
    let second = fan_out.next().unwrap();
    assert_eq!((second.identity.as_str(), *second.channel), ("bob", 2));
    fan_out.record(true);
    assert!(fan_out.next().is_none());
    let report = fan_out.finish();
    assert_eq!(report.acknowledgement, message("bob", "hi"));
    assert!(report.failed.is_empty());
}

#[test]
fn send_takes_empty_sender_and_content() {
    let registry: Registry<u32> = Registry::new();
    let request = SendRequest { message: Some(message("", "")) };
    let report = match send(&registry, request) {
        Ok(fan_out) => fan_out.finish(),
        Err(error) => panic!("turned down: {:?}", error),
    };
    assert_eq!(report.acknowledgement, message("", ""));
}

#[test]
fn validate_hands_the_message_over() {
    let request = SendRequest { message: Some(message("bob", "hi")) };
    assert_eq!(request.validate(), Ok(message("bob", "hi")));
    assert_eq!(SendRequest { message: None }.validate(), Err(SendError::InvalidArgument));
}

#[test]
fn the_error_describes_itself() {
    assert_eq!(SendError::InvalidArgument.description(), "the request carries no message");
}
