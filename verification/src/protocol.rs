//! The wire protocol: the text commands that a client sends and the envelope of a
//! published message.

use crate::json::{
    json_members, json_object_text, json_parsed, lemma_writable_names, members_of, members_view,
    names_of, object_text, parse_json, text_member, text_or, writable_names, JsonItem,
};
use crate::text::{
    after_first, before_first, find_first, match_prefix, str_eq, substring, to_chars, trim_range,
    trimmed,
};
use vstd::prelude::*;

verus! {

/// A published message as it travels from a publisher to every subscriber.
#[derive(Clone, Debug, PartialEq, Eq)]
pub struct Envelope {
    pub publisher_name: String,
    pub topic: String,
    /// The content, which the broker never looks into.
    pub payload: String,
    pub timestamp: String,
    pub session_id: String,
}

/// The mathematical form of an [`Envelope`].
pub ghost struct EnvelopeView {
    pub publisher_name: Seq<char>,
    pub topic: Seq<char>,
    pub payload: Seq<char>,
    pub timestamp: Seq<char>,
    pub session_id: Seq<char>,
}

impl View for Envelope {
    type V = EnvelopeView;

    open spec fn view(&self) -> EnvelopeView {
        EnvelopeView {
            publisher_name: self.publisher_name@,
            topic: self.topic@,
            payload: self.payload@,
            timestamp: self.timestamp@,
            session_id: self.session_id@,
        }
    }
}

/// One command of a client, as read from a text frame.
#[derive(Clone, Debug, PartialEq, Eq)]
pub enum Command {
    /// `register-name:<name>`
    RegisterName { name: String },
    /// `register-session:<id>`
    RegisterSession { session_id: String },
    /// `subscribe:<topic>` or `subscribe:<topic>|<session>`
    Subscribe { topic: String, session: Option<String> },
    /// `unsubscribe:<topic>` or `unsubscribe:<topic>|<session>`
    Unsubscribe { topic: String, session: Option<String> },
    /// `publish-json:<json envelope>`, with the JSON text not yet read
    PublishJson { body: String },
    /// `ping`
    Ping,
    /// Anything else.
    Unknown,
}

/// The mathematical form of a [`Command`].
pub ghost enum CommandView {
    RegisterName { name: Seq<char> },
    RegisterSession { session_id: Seq<char> },
    Subscribe { topic: Seq<char>, session: Option<Seq<char>> },
    Unsubscribe { topic: Seq<char>, session: Option<Seq<char>> },
    PublishJson { body: Seq<char> },
    Ping,
    Unknown,
}

/// The characters of an optional string.
pub open spec fn optional_view(text: Option<String>) -> Option<Seq<char>> {
    match text {
        Some(s) => Some(s@),
        None => None,
    }
}

impl View for Command {
    type V = CommandView;

    open spec fn view(&self) -> CommandView {
        match self {
            Command::RegisterName { name } => CommandView::RegisterName { name: name@ },
            Command::RegisterSession { session_id } => CommandView::RegisterSession {
                session_id: session_id@,
            },
            Command::Subscribe { topic, session } => CommandView::Subscribe {
                topic: topic@,
                session: optional_view(*session),
            },
            Command::Unsubscribe { topic, session } => CommandView::Unsubscribe {
                topic: topic@,
                session: optional_view(*session),
            },
            Command::PublishJson { body } => CommandView::PublishJson { body: body@ },
            Command::Ping => CommandView::Ping,
            Command::Unknown => CommandView::Unknown,
        }
    }
}

/// The topic of a subscription target: the trimmed argument up to its first `|`.
pub open spec fn target_topic(argument: Seq<char>) -> Seq<char> {
    before_first(trimmed(argument), '|')
}

/// The session of a subscription target: what stands between the first `|` of the trimmed
/// argument and the next one, where the argument has a `|` at all.
pub open spec fn target_session(argument: Seq<char>) -> Option<Seq<char>> {
    match after_first(trimmed(argument), '|') {
        Some(tail) => Some(before_first(tail, '|')),
        None => None,
    }
}

/// The command that a text frame spells. The prefixes are case sensitive; the arguments of
/// the two registrations and of the two subscription commands are trimmed of white space,
/// that of a publication is taken as it stands.
pub open spec fn command_of(text: Seq<char>) -> CommandView {
    if "register-name:"@.is_prefix_of(text) {
        CommandView::RegisterName { name: trimmed(text.skip("register-name:"@.len() as int)) }
    } else if "register-session:"@.is_prefix_of(text) {
        CommandView::RegisterSession {
            session_id: trimmed(text.skip("register-session:"@.len() as int)),
        }
    } else if "subscribe:"@.is_prefix_of(text) {
        CommandView::Subscribe {
            topic: target_topic(text.skip("subscribe:"@.len() as int)),
            session: target_session(text.skip("subscribe:"@.len() as int)),
        }
    } else if "unsubscribe:"@.is_prefix_of(text) {
        CommandView::Unsubscribe {
            topic: target_topic(text.skip("unsubscribe:"@.len() as int)),
            session: target_session(text.skip("unsubscribe:"@.len() as int)),
        }
    } else if "publish-json:"@.is_prefix_of(text) {
        CommandView::PublishJson { body: text.skip("publish-json:"@.len() as int) }
    } else if text == "ping"@ {
        CommandView::Ping
    } else {
        CommandView::Unknown
    }
}

/// Reads the trimmed argument that starts at `start`.
fn parse_name(text: &str, chars: &Vec<char>, start: usize) -> (name: String)
    requires
        chars@ == text@,
        start <= chars.len(),
    ensures
        name@ == trimmed(text@.skip(start as int)),
{
    let (from, to) = trim_range(chars, start, chars.len());
    substring(text, from, to)
}

/// Reads the subscription target that starts at `start`.
fn parse_target(text: &str, chars: &Vec<char>, start: usize) -> (target: (String, Option<String>))
    requires
        chars@ == text@,
        start <= chars.len(),
    ensures
        target.0@ == target_topic(text@.skip(start as int)),
        optional_view(target.1) == target_session(text@.skip(start as int)),
{
    let (from, to) = trim_range(chars, start, chars.len());
    let ghost whole = chars@.subrange(from as int, to as int);
    let bar = find_first(chars, from, to, '|');
    let topic = substring(text, from, bar);
    if bar < to {
        let ghost tail = whole.skip(bar - from + 1);
        assert(tail =~= chars@.subrange(bar + 1, to as int));
        let next = find_first(chars, bar + 1, to, '|');
        let session = substring(text, bar + 1, next);
        (topic, Some(session))
    } else {
        (topic, None)
    }
}

/// Reads one text frame as a command.
pub fn parse_command(text: &str) -> (command: Command)
    ensures
        command@ == command_of(text@),
{
    let chars = to_chars(text);
    match match_prefix(&chars, "register-name:") {
        Some(start) => {
            return Command::RegisterName { name: parse_name(text, &chars, start) };
        },
        None => {},
    }
    match match_prefix(&chars, "register-session:") {
        Some(start) => {
            return Command::RegisterSession { session_id: parse_name(text, &chars, start) };
        },
        None => {},
    }
    match match_prefix(&chars, "subscribe:") {
        Some(start) => {
            let (topic, session) = parse_target(text, &chars, start);
            return Command::Subscribe { topic, session };
        },
        None => {},
    }
    match match_prefix(&chars, "unsubscribe:") {
        Some(start) => {
            let (topic, session) = parse_target(text, &chars, start);
            return Command::Unsubscribe { topic, session };
        },
        None => {},
    }
    match match_prefix(&chars, "publish-json:") {
        Some(start) => {
            return Command::PublishJson { body: substring(text, start, chars.len()) };
        },
        None => {},
    }
    if str_eq(text, "ping") {
        Command::Ping
    } else {
        Command::Unknown
    }
}

/// The envelope that the members of a JSON value stand for. A member that is absent or is
/// no string counts as the empty string, and for the session as `current_session`.
pub open spec fn envelope_of(
    members: Map<Seq<char>, JsonItem>,
    current_session: Seq<char>,
) -> EnvelopeView {
    EnvelopeView {
        publisher_name: text_member(members, "publisher_name"@, Seq::empty()),
        topic: text_member(members, "topic"@, Seq::empty()),
        payload: text_member(members, "payload"@, Seq::empty()),
        timestamp: text_member(members, "timestamp"@, Seq::empty()),
        session_id: text_member(members, "session_id"@, current_session),
    }
}

/// The envelope that the body of a publication stands for, where the body is JSON.
pub open spec fn decoded_envelope(body: Seq<char>, current_session: Seq<char>) -> Option<
    EnvelopeView,
> {
    match json_parsed(body) {
        Some(members) => Some(envelope_of(members, current_session)),
        None => None,
    }
}

/// The five members of an envelope, by name.
pub open spec fn envelope_entries(envelope: EnvelopeView) -> Seq<(Seq<char>, Seq<char>)> {
    seq![
        ("publisher_name"@, envelope.publisher_name),
        ("topic"@, envelope.topic),
        ("payload"@, envelope.payload),
        ("timestamp"@, envelope.timestamp),
        ("session_id"@, envelope.session_id),
    ]
}

/// The text of the frame that carries `envelope` to a subscriber: a JSON object with the
/// five members of the envelope.
pub open spec fn envelope_text(envelope: EnvelopeView) -> Seq<char> {
    json_object_text(envelope_entries(envelope))
}

/// The five names of the members of an envelope are distinct, so each member of the
/// object that an envelope is written as is the field of that name.
pub proof fn lemma_envelope_members(envelope: EnvelopeView)
    ensures
        members_of(envelope_entries(envelope)) == map![
            "publisher_name"@ => JsonItem::Text(envelope.publisher_name),
            "topic"@ => JsonItem::Text(envelope.topic),
            "payload"@ => JsonItem::Text(envelope.payload),
            "timestamp"@ => JsonItem::Text(envelope.timestamp),
            "session_id"@ => JsonItem::Text(envelope.session_id),
        ],
        "publisher_name"@.len() == 14,
        "topic"@.len() == 5,
        "payload"@.len() == 7,
        "timestamp"@.len() == 9,
        "session_id"@.len() == 10,
        writable_names(names_of(envelope_entries(envelope))),
{
    reveal_strlit("publisher_name");
    reveal_strlit("topic");
    reveal_strlit("payload");
    reveal_strlit("timestamp");
    reveal_strlit("session_id");
    let entries = envelope_entries(envelope);
    assert(names_of(entries) =~= seq![
        "publisher_name"@,
        "topic"@,
        "payload"@,
        "timestamp"@,
        "session_id"@,
    ]);
    let names = names_of(entries);
    assert forall|i: int, j: int| 0 <= i < j < names.len() implies names[i] != names[j] by {
        assert(names[i].len() != names[j].len());
    }
    lemma_writable_names(names);
    let four = entries.drop_last();
    let three = four.drop_last();
    let two = three.drop_last();
    let one = two.drop_last();
    assert(members_of(one.drop_last()) == Map::<Seq<char>, JsonItem>::empty());
    assert(members_of(one) == Map::<Seq<char>, JsonItem>::empty().insert(
        "publisher_name"@,
        JsonItem::Text(envelope.publisher_name),
    ));
    assert(members_of(three) == members_of(two).insert(
        "payload"@,
        JsonItem::Text(envelope.payload),
    ));
    assert(members_of(four) == members_of(three).insert(
        "timestamp"@,
        JsonItem::Text(envelope.timestamp),
    ));
    assert(members_of(entries) == members_of(four).insert(
        "session_id"@,
        JsonItem::Text(envelope.session_id),
    ));
    assert(members_of(entries) =~= map![
        "publisher_name"@ => JsonItem::Text(envelope.publisher_name),
        "topic"@ => JsonItem::Text(envelope.topic),
        "payload"@ => JsonItem::Text(envelope.payload),
        "timestamp"@ => JsonItem::Text(envelope.timestamp),
        "session_id"@ => JsonItem::Text(envelope.session_id),
    ]);
}

/// Reading the members that an envelope is written as gives the envelope back, whatever
/// the current session of the reader.
pub proof fn lemma_envelope_read_back(envelope: EnvelopeView, current_session: Seq<char>)
    ensures
        envelope_of(members_of(envelope_entries(envelope)), current_session) == envelope,
{
    lemma_envelope_members(envelope);
}

impl Envelope {
    /// The envelope with the given fields, an absent one counting as the empty string and
    /// an absent session as `current_session`.
    pub fn with_defaults(
        publisher_name: Option<String>,
        topic: Option<String>,
        payload: Option<String>,
        timestamp: Option<String>,
        session_id: Option<String>,
        current_session: &str,
    ) -> (envelope: Envelope)
        ensures
            envelope.publisher_name@ == optional_view(publisher_name).unwrap_or(Seq::empty()),
            envelope.topic@ == optional_view(topic).unwrap_or(Seq::empty()),
            envelope.payload@ == optional_view(payload).unwrap_or(Seq::empty()),
            envelope.timestamp@ == optional_view(timestamp).unwrap_or(Seq::empty()),
            envelope.session_id@ == optional_view(session_id).unwrap_or(current_session@),
    {
        Envelope {
            publisher_name: match publisher_name {
                Some(given) => given,
                None => String::new(),
            },
            topic: match topic {
                Some(given) => given,
                None => String::new(),
            },
            payload: match payload {
                Some(given) => given,
                None => String::new(),
            },
            timestamp: match timestamp {
                Some(given) => given,
                None => String::new(),
            },
            session_id: match session_id {
                Some(given) => given,
                None => current_session.to_owned(),
            },
        }
    }

    /// Reads an envelope from a parsed JSON value.
    pub(crate) fn from_json(value: &serde_json::Value, current_session: &str) -> (envelope: Envelope)
        ensures
            envelope@ == envelope_of(json_members(*value), current_session@),
    {
        let empty = "";
        proof {
            reveal_strlit("");
            assert(empty@ =~= Seq::<char>::empty());
        }
        Envelope {
            publisher_name: text_or(value, "publisher_name", empty),
            topic: text_or(value, "topic", empty),
            payload: text_or(value, "payload", empty),
            timestamp: text_or(value, "timestamp", empty),
            session_id: text_or(value, "session_id", current_session),
        }
    }

    /// Reads the body of a publication. `None` where the body is not JSON.
    pub fn decode(body: &str, current_session: &str) -> (decoded: Option<Envelope>)
        ensures
            optional_envelope_view(decoded) == decoded_envelope(body@, current_session@),
    {
        match parse_json(body) {
            Ok(value) => Some(Envelope::from_json(&value, current_session)),
            Err(_) => None,
        }
    }

    /// Writes the envelope as the text of one frame. The text is JSON, and reading it
    /// gives the envelope back.
    pub fn encode(&self) -> (text: String)
        ensures
            text@ == envelope_text(self@),
            json_parsed(text@) == Some(members_of(envelope_entries(self@))),
            forall|current_session: Seq<char>| #[trigger]
                decoded_envelope(text@, current_session) == Some(self@),
    {
        let mut members: Vec<(String, String)> = Vec::new();
        members.push(("publisher_name".to_owned(), self.publisher_name.clone()));
        members.push(("topic".to_owned(), self.topic.clone()));
        members.push(("payload".to_owned(), self.payload.clone()));
        members.push(("timestamp".to_owned(), self.timestamp.clone()));
        members.push(("session_id".to_owned(), self.session_id.clone()));
        assert(members_view(members@) =~= envelope_entries(self@));
        proof {
            lemma_envelope_members(self@);
        }
        let text = object_text(&members);
        proof {
            assert forall|current_session: Seq<char>| #[trigger]
                decoded_envelope(text@, current_session) == Some(self@) by {
                lemma_envelope_read_back(self@, current_session);
            }
        }
        text
    }
}

/// The mathematical form of an optional envelope.
pub open spec fn optional_envelope_view(envelope: Option<Envelope>) -> Option<EnvelopeView> {
    match envelope {
        Some(e) => Some(e@),
        None => None,
    }
}

} // verus!
