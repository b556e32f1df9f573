use matrix_display::adapter::{
    delivered, local_part_of, on_room_message, resolve, resolve_sender, AdapterError, Delivery,
    Lookup, Member, MessageKind, RoomEvent, Screening,
};
use matrix_display::render::{render, DrawOp};
use matrix_sdk::ruma::UserId;
use std::convert::TryFrom;

fn event(kind: MessageKind, body: &str, sender: &str) -> RoomEvent {
    RoomEvent { kind, body: body.to_string(), sender: sender.to_string() }
}

fn member(display_name: Option<&str>, user_id: &str) -> Member {
    Member { display_name: display_name.map(|n| n.to_string()), user_id: user_id.to_string() }
}

fn pending(body: &str, sender: &str) -> matrix_display::adapter::Pending {
    match on_room_message(event(MessageKind::Text, body, sender)) {
        Screening::Resolve(p) => p,
        Screening::Ignore => panic!("a text event was ignored"),
    }
}

fn header_of(message: &matrix_display::message::Message) -> String {
    match &render(message)[1] {
        DrawOp::Text(run) => run.text.clone(),
        other => panic!("no header but {:?}", other),
    }
}

#[test]
fn text_event_goes_on_to_the_lookup() {
    let p = pending("hello", "@alice:example.org");
    assert_eq!(p.sender(), "@alice:example.org");
}

#[test]
fn events_that_are_not_text_are_ignored() {
    let kinds = [
        MessageKind::Audio,
        MessageKind::Emote,
        MessageKind::File,
        MessageKind::Image,
        MessageKind::Location,
        MessageKind::Notice,
        MessageKind::ServerNotice,
        MessageKind::Video,
        MessageKind::Other,
    ];
    for kind in kinds {
        assert_eq!(on_room_message(event(kind, "cat.png", "@alice:example.org")), Screening::Ignore);
    }
}

#[test]
fn sender_without_display_name_is_shown_by_local_part() {
    let found = Lookup::Found(member(None, "@alice:example.org"));
    let message = resolve(pending("hello", "@alice:example.org"), found).unwrap();
    assert_eq!(message.sender(), "alice");
    assert_eq!(message.content(), "hello");
    assert_eq!(header_of(&message), "ALICE");
}

#[test]
fn sender_with_display_name_is_shown_by_it() {
    let found = Lookup::Found(member(Some("Bob W."), "@robert:example.org"));
    let message = resolve(pending("hi", "@robert:example.org"), found).unwrap();
    assert_eq!(message.sender(), "Bob W.");
    assert_eq!(header_of(&message), "BOB W.");
    let other = Lookup::Found(member(Some("Bob W."), "not an identifier"));
    let message = resolve(pending("hi", "@robert:example.org"), other).unwrap();
    assert_eq!(header_of(&message), "BOB W.");
}

#[test]
fn empty_display_name_counts_as_none() {
    assert_eq!(resolve_sender(member(Some(""), "@carol:example.org")), Some("carol".to_string()));
}

#[test]
fn failed_lookup_ends_the_event() {
    let outcome = resolve(pending("hello", "@alice:example.org"), Lookup::Failed);
    assert_eq!(outcome, Err(AdapterError::LookupFailed));
}

#[test]
fn unknown_sender_ends_the_event() {
    let outcome = resolve(pending("hello", "@alice:example.org"), Lookup::Unknown);
    assert_eq!(outcome, Err(AdapterError::UnknownSender));
}

#[test]
fn sender_without_any_name_ends_the_event() {
    let found = Lookup::Found(member(None, "@:example.org"));
    let outcome = resolve(pending("hello", "@:example.org"), found);
    assert_eq!(outcome, Err(AdapterError::UnnamedSender));
    assert_eq!(resolve_sender(member(Some(""), "alice")), None);
}

#[test]
fn closed_channel_is_no_error() {
    assert_eq!(delivered(Delivery::ChannelClosed), Ok(()));
    assert_eq!(delivered(Delivery::Enqueued), Ok(()));
}

#[test]
fn local_part_stands_between_sigil_and_first_colon() {
    assert_eq!(local_part_of("@alice:example.org"), Some("alice".to_string()));
    assert_eq!(local_part_of("@a:b:c"), Some("a".to_string()));
    assert_eq!(local_part_of("@a%b[irc]:example.com"), Some("a%b[irc]".to_string()));
    assert_eq!(local_part_of("@alice:"), Some("alice".to_string()));
    assert_eq!(local_part_of("@:example.org"), None);
    assert_eq!(local_part_of("@alice"), None);
    assert_eq!(local_part_of("alice:example.org"), None);
    assert_eq!(local_part_of("@"), None);
    assert_eq!(local_part_of(""), None);
}

#[test]
fn local_part_agrees_with_the_protocol_library() {
    for text in ["@alice:example.org", "@carl:example.com", "@a%b[irc]:example.com", "@x:1.2.3.4:80"] {
        let id = UserId::try_from(text).unwrap();
        assert_eq!(local_part_of(id.as_str()), Some(id.localpart().to_string()));
    }
}
