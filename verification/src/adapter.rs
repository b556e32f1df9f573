//! The event adapter: from an event of the room to at most one message.
//!
//! Only plain text passes. The sender is named by the display name that the
//! room holds for the participant, or else by the local part of the
//! participant's identifier. The steps that wait on the network are taken
//! elsewhere; each function here decides what happens on either side of one.

use vstd::prelude::*;
use crate::layout::characters;
use crate::message::{Message, MessageView};

verus! {

/// The kinds of message that a room carries.
#[derive(Clone, Copy, Debug, PartialEq, Eq)]
pub enum MessageKind {
    Audio,
    Emote,
    File,
    Image,
    Location,
    Notice,
    ServerNotice,
    Text,
    Video,
    Other,
}

/// An event of the room as it arrives: its kind, its body, and the
/// identifier of the participant who sent it.
#[derive(Debug, PartialEq, Eq)]
pub struct RoomEvent {
    pub kind: MessageKind,
    pub body: String,
    pub sender: String,
}

/// A text event whose sender has yet to be looked up in the room.
#[derive(Debug, PartialEq, Eq)]
pub struct Pending {
    sender: String,
    body: String,
}

impl Pending {
    /// The identifier of the participant to look up.
    pub closed spec fn sender_id(&self) -> Seq<char> {
        self.sender@
    }

    /// The body that the message will carry.
    pub closed spec fn body(&self) -> Seq<char> {
        self.body@
    }

    /// The identifier of the participant to look up.
    pub fn sender(&self) -> (id: &str)
        ensures
            id@ == self.sender_id(),
    {
        self.sender.as_str()
    }
}

/// What becomes of an event on arrival.
#[derive(Debug, PartialEq, Eq)]
pub enum Screening {
    /// Not plain text: nothing is looked up, nothing is sent, nothing fails.
    Ignore,
    /// Plain text: look the sender up in the room, then call [`resolve`].
    Resolve(Pending),
}

/// Screens an event: plain text goes on to the lookup of its sender, every
/// other kind is dropped in silence.
pub fn on_room_message(event: RoomEvent) -> (screening: Screening)
    ensures
        event.kind is Text <==> screening is Resolve,
        screening matches Screening::Resolve(pending) ==> pending.sender_id() == event.sender@
            && pending.body() == event.body@,
{
    match event.kind {
        MessageKind::Text => Screening::Resolve(Pending { sender: event.sender, body: event.body }),
        _ => Screening::Ignore,
    }
}

/// What the room holds on a participant.
#[derive(Debug, PartialEq, Eq)]
pub struct Member {
    pub display_name: Option<String>,
    pub user_id: String,
}

/// What a [`Member`] stands for in contracts.
pub struct MemberView {
    pub display_name: Option<Seq<char>>,
    pub user_id: Seq<char>,
}

impl View for Member {
    type V = MemberView;

    open spec fn view(&self) -> MemberView {
        MemberView {
            display_name: match self.display_name {
                Some(name) => Some(name@),
                None => None,
            },
            user_id: self.user_id@,
        }
    }
}

/// `colon` is the place of the first colon in `id`.
pub open spec fn is_first_colon(id: Seq<char>, colon: int) -> bool {
    &&& 0 <= colon < id.len()
    &&& id[colon] == ':'
    &&& forall|k: int| 0 <= k < colon ==> id[k] != ':'
}

/// The shape of a participant's identifier: the sigil `@`, a local part of
/// at least one character, a colon, and what names the server.
pub open spec fn is_identifier(id: Seq<char>) -> bool {
    &&& id.len() > 0
    &&& id[0] == '@'
    &&& exists|colon: int| 2 <= colon && is_first_colon(id, colon)
}

/// The local part of an identifier: what stands between the sigil and the
/// first colon.
pub open spec fn local_part(id: Seq<char>) -> Seq<char> {
    id.subrange(1, choose|colon: int| is_first_colon(id, colon))
}

/// The first colon has one place only.
pub proof fn first_colon_is_unique(id: Seq<char>, a: int, b: int)
    requires
        is_first_colon(id, a),
        is_first_colon(id, b),
    ensures
        a == b,
{
}

/// The local part of an identifier, or nothing where the text does not have
/// the shape of one.
pub fn local_part_of(id: &str) -> (local: Option<String>)
    ensures
        is_identifier(id@) <==> local is Some,
        local matches Some(part) ==> part@ == local_part(id@) && part@.len() > 0,
{
    let chars = characters(id);
    let n: usize = chars.len();
    if n == 0 || chars[0] != '@' {
        return None;
    }
    let mut at: usize = 1;
    while at < n && chars[at] != ':'
        invariant
            n == chars.len(),
            chars@ == id@,
            1 <= at <= n,
            chars@[0] == '@',
            forall|k: int| 0 <= k < at ==> chars@[k] != ':',
        decreases n - at,
    {
        at += 1;
    }
    if at == n {
        assert forall|colon: int| !is_first_colon(id@, colon) by {}
        return None;
    }
    assert(is_first_colon(id@, at as int));
    assert forall|colon: int| is_first_colon(id@, colon) implies colon == at by {
        first_colon_is_unique(id@, colon, at as int);
    }
    if at < 2 {
        return None;
    }
    Some(id.substring_char(1, at).to_owned())
}

/// A display name counts as configured where it is there and not empty.
pub open spec fn configured(display_name: Option<Seq<char>>) -> bool {
    display_name matches Some(name) && name.len() > 0
}

/// The name under which a participant's messages are shown: the configured
/// display name, or else the local part of the identifier.
pub open spec fn sender_name(member: MemberView) -> Seq<char> {
    if configured(member.display_name) {
        member.display_name->0
    } else {
        local_part(member.user_id)
    }
}

/// A participant can be named where a display name is configured or the
/// identifier has a local part to fall back on.
pub open spec fn can_be_named(member: MemberView) -> bool {
    configured(member.display_name) || is_identifier(member.user_id)
}

/// The outcome of looking a participant up in the room.
#[derive(Debug, PartialEq, Eq)]
pub enum Lookup {
    /// The room knows the participant.
    Found(Member),
    /// The room does not know the participant.
    Unknown,
    /// The lookup itself failed.
    Failed,
}

/// Why an event could not be turned into a message. Each of these ends the
/// handling of that one event and nothing else.
#[derive(Clone, Copy, Debug, PartialEq, Eq)]
pub enum AdapterError {
    /// The lookup of the sender failed.
    LookupFailed,
    /// The room does not know the sender.
    UnknownSender,
    /// The sender has no display name and an identifier without a local part.
    UnnamedSender,
}

/// What [`resolve`] returns for a body and the outcome of the lookup.
pub open spec fn resolved(body: Seq<char>, lookup: Lookup) -> Result<MessageView, AdapterError> {
    match lookup {
        Lookup::Failed => Err(AdapterError::LookupFailed),
        Lookup::Unknown => Err(AdapterError::UnknownSender),
        Lookup::Found(member) => if can_be_named(member@) {
            Ok(MessageView { sender: sender_name(member@), content: body })
        } else {
            Err(AdapterError::UnnamedSender)
        },
    }
}

/// The name under which the messages of `member` are shown.
pub fn resolve_sender(member: Member) -> (name: Option<String>)
    ensures
        can_be_named(member@) <==> name is Some,
        name matches Some(text) ==> text@ == sender_name(member@) && text@.len() > 0,
{
    let Member { display_name, user_id } = member;
    match display_name {
        Some(name) => {
            if name.as_str().unicode_len() > 0 {
                return Some(name);
            }
        },
        None => {},
    }
    local_part_of(user_id.as_str())
}

/// Turns a text event and the outcome of the lookup of its sender into the
/// message to enqueue, or into the error that ends the handling of the event.
pub fn resolve(pending: Pending, lookup: Lookup) -> (outcome: Result<Message, AdapterError>)
    ensures
        match resolved(pending.body(), lookup) {
            Ok(view) => outcome matches Ok(message) && message@ == view,
            Err(error) => outcome == Err::<Message, AdapterError>(error),
        },
{
    match lookup {
        Lookup::Failed => Err(AdapterError::LookupFailed),
        Lookup::Unknown => Err(AdapterError::UnknownSender),
        Lookup::Found(member) => match resolve_sender(member) {
            None => Err(AdapterError::UnnamedSender),
            Some(sender) => match Message::new(sender, pending.body) {
                Some(message) => Ok(message),
                None => Err(AdapterError::UnnamedSender),
            },
        },
    }
}

/// How the attempt to enqueue a message ended.
#[derive(Clone, Copy, Debug, PartialEq, Eq)]
pub enum Delivery {
    /// The channel took the message.
    Enqueued,
    /// The render loop is gone and the channel closed: the message is lost.
    ChannelClosed,
}

/// Ends the handling of an event after the attempt to enqueue its message.
/// The attempt is best effort: a closed channel is no error.
pub fn delivered(delivery: Delivery) -> (outcome: Result<(), AdapterError>)
    ensures
        outcome is Ok,
{
    match delivery {
        Delivery::Enqueued => Ok(()),
        Delivery::ChannelClosed => Ok(()),
    }
}

} // verus!
