//! The client side of the protocol: the frames that a client sends, what it reads from the
//! frames it receives, and when it renews its token.
//!
//! Nothing here opens a socket. A client program keeps a [`ClientState`] beside its
//! connection, sends the frames that these functions write, and reports back when sending
//! failed.

use crate::json::{
    json_members, json_object_text, json_parsed, lemma_writable_names, member, members_of,
    members_view, names_of, object_text, parse_json, text_member, text_or, writable_names,
    JsonField, JsonItem,
};
use crate::protocol::{
    envelope_entries, envelope_text, lemma_envelope_members, optional_envelope_view, optional_view,
    Envelope, EnvelopeView,
};
use crate::protocol::{command_of, target_session, target_topic, CommandView};
use crate::registry::Model;
use crate::router::publication;
use crate::session::{queued_by, ConnectionView};
use crate::text::{
    is_space, lemma_no_separator, lemma_not_prefix, lemma_split_joined, lemma_trimmed_unchanged,
};
use vstd::prelude::*;
use vstd::string::StringExecFns;
use vstd::string::StringSliceAdditionalSpecFns;

verus! {

/// The error of `url` when text is no absolute URL, carried through as it is.
#[verifier::external_type_specification]
#[verifier::external_body]
pub struct ExUrlParseError(url::ParseError);

/// A token is renewed once less than this is left of its life, in nanoseconds: five
/// minutes.
pub const REFRESH_MARGIN: u128 = 300_000_000_000;

/// The greatest number of bytes that the address of a server and a token may have together
/// for the token to be added to the address: a quarter of the positions that a URL can
/// have, since writing a byte into a URL can take three.
pub const URL_BUDGET: usize = 0x3fff_ffff;

/// Why the client could not do what was asked.
#[derive(Clone, Copy, Debug, PartialEq, Eq, Structural)]
pub enum ClientError {
    /// The connection is known to be down.
    NotConnected,
    /// The address of the server is no absolute URL.
    InvalidUrl,
    /// The address of the server and the token are too long together.
    UrlTooLong,
    /// The token endpoint answered with a status that is no success.
    AuthenticationFailed { status: u16 },
    /// The token endpoint answered with something else than a token and its life time.
    MalformedResponse,
}

/// How much of the life of the client's token is left.
#[derive(Clone, Copy, Debug, PartialEq, Eq, Structural)]
pub enum TokenLifetime {
    /// The client has no token.
    NoToken,
    /// The token has expired.
    Expired,
    /// The token expires in this many nanoseconds.
    Remaining(u128),
}

/// What the token endpoint grants.
#[derive(Clone, Debug, PartialEq, Eq)]
pub struct JwtAuthResponse {
    pub token: String,
    /// The number of seconds for which the token is valid.
    pub expires_in: u64,
}

/// Whether a token with this much life left is due for renewal: one that has expired or
/// will within five minutes.
pub open spec fn refresh_due(lifetime: TokenLifetime) -> bool {
    match lifetime {
        TokenLifetime::NoToken => false,
        TokenLifetime::Expired => true,
        TokenLifetime::Remaining(nanos) => nanos < REFRESH_MARGIN,
    }
}

/// Whether a token with this much life left is due for renewal.
pub fn needs_refresh(lifetime: TokenLifetime) -> (due: bool)
    ensures
        due == refresh_due(lifetime),
{
    match lifetime {
        TokenLifetime::NoToken => false,
        TokenLifetime::Expired => true,
        TokenLifetime::Remaining(nanos) => nanos < REFRESH_MARGIN,
    }
}

/// `head` followed by `tail`.
fn join(head: &str, tail: &str) -> (text: String)
    ensures
        text@ == head@ + tail@,
{
    let mut text = String::from_str(head);
    text.append(tail);
    text
}

/// The session that a client is given where it asks for none: `session-` and its name.
pub fn default_session_id(client_name: &str) -> (session: String)
    ensures
        session@ == "session-"@ + client_name@,
{
    join("session-", client_name)
}

/// The frame that registers the name of the client.
pub fn register_name_frame(client_name: &str) -> (frame: String)
    ensures
        frame@ == "register-name:"@ + client_name@,
{
    join("register-name:", client_name)
}

/// The frame that registers the session of the client.
pub fn register_session_frame(session_id: &str) -> (frame: String)
    ensures
        frame@ == "register-session:"@ + session_id@,
{
    join("register-session:", session_id)
}

/// The frame that subscribes to `topic` under `session_id`.
pub fn subscribe_frame(topic: &str, session_id: &str) -> (frame: String)
    ensures
        frame@ == "subscribe:"@ + topic@ + "|"@ + session_id@,
{
    let mut frame = join("subscribe:", topic);
    frame.append("|");
    frame.append(session_id);
    frame
}

/// The frame that unsubscribes from `topic` under `session_id`.
pub fn unsubscribe_frame(topic: &str, session_id: &str) -> (frame: String)
    ensures
        frame@ == "unsubscribe:"@ + topic@ + "|"@ + session_id@,
{
    let mut frame = join("unsubscribe:", topic);
    frame.append("|");
    frame.append(session_id);
    frame
}

/// The frame that publishes `envelope`.
pub fn publish_frame(envelope: &Envelope) -> (frame: String)
    ensures
        frame@ == "publish-json:"@ + envelope_text(envelope@),
        json_parsed(envelope_text(envelope@)) == Some(members_of(envelope_entries(envelope@))),
{
    let body = envelope.encode();
    join("publish-json:", body.as_str())
}

/// Whether a subscription target comes out of a frame as it went in: neither part holds a
/// `|`, the topic does not begin with white space, and the session does not end with it.
pub open spec fn framable(topic: Seq<char>, session: Seq<char>) -> bool {
    &&& !topic.contains('|')
    &&& !session.contains('|')
    &&& topic.len() > 0 ==> !is_space(topic.first())
    &&& session.len() > 0 ==> !is_space(session.last())
}

/// The broker reads the target of a subscription frame as the client wrote it.
pub proof fn lemma_target_read_back(topic: Seq<char>, session: Seq<char>)
    requires
        framable(topic, session),
    ensures
        target_topic(topic + "|"@ + session) == topic,
        target_session(topic + "|"@ + session) == Some(session),
{
    reveal_strlit("|");
    assert("|"@ =~= seq!['|']);
    let argument = topic + "|"@ + session;
    assert(argument.first() == if topic.len() > 0 {
        topic.first()
    } else {
        '|'
    });
    assert(argument.last() == if session.len() > 0 {
        session.last()
    } else {
        '|'
    });
    lemma_trimmed_unchanged(argument);
    lemma_split_joined(topic, session, '|');
    lemma_no_separator(session, '|');
}

/// The broker reads the two subscription frames of a client as the commands they were
/// written for.
pub proof fn lemma_subscription_frames_read_back(topic: Seq<char>, session: Seq<char>)
    requires
        framable(topic, session),
    ensures
        command_of("subscribe:"@ + topic + "|"@ + session) == (CommandView::Subscribe {
            topic,
            session: Some(session),
        }),
        command_of("unsubscribe:"@ + topic + "|"@ + session) == (CommandView::Unsubscribe {
            topic,
            session: Some(session),
        }),
{
    reveal_strlit("register-name:");
    reveal_strlit("register-session:");
    reveal_strlit("subscribe:");
    reveal_strlit("unsubscribe:");
    lemma_target_read_back(topic, session);
    let argument = topic + "|"@ + session;
    let subscribe = "subscribe:"@ + topic + "|"@ + session;
    assert(subscribe.skip("subscribe:"@.len() as int) =~= argument);
    assert(subscribe[0] == 's');
    lemma_not_prefix("register-name:"@, subscribe);
    lemma_not_prefix("register-session:"@, subscribe);
    let unsubscribe = "unsubscribe:"@ + topic + "|"@ + session;
    assert(unsubscribe.skip("unsubscribe:"@.len() as int) =~= argument);
    assert(unsubscribe[0] == 'u');
    lemma_not_prefix("register-name:"@, unsubscribe);
    lemma_not_prefix("register-session:"@, unsubscribe);
    lemma_not_prefix("subscribe:"@, unsubscribe);
}

/// The broker reads a publication frame as a publication of the body that follows the
/// prefix, untouched.
pub proof fn lemma_publish_frame_read_back(body: Seq<char>)
    ensures
        command_of("publish-json:"@ + body) == (CommandView::PublishJson { body }),
{
    reveal_strlit("register-name:");
    reveal_strlit("register-session:");
    reveal_strlit("subscribe:");
    reveal_strlit("unsubscribe:");
    reveal_strlit("publish-json:");
    let frame = "publish-json:"@ + body;
    assert(frame.skip("publish-json:"@.len() as int) =~= body);
    assert(frame[0] == 'p');
    lemma_not_prefix("register-name:"@, frame);
    lemma_not_prefix("register-session:"@, frame);
    lemma_not_prefix("subscribe:"@, frame);
    lemma_not_prefix("unsubscribe:"@, frame);
}

/// What a client publishes is what the subscribers are sent: where `text` spells the
/// members of an envelope, as the text that an envelope is written as does, the broker,
/// reading the publication frame with that text, queues the envelope for the subscribers
/// of its topic and session.
pub proof fn lemma_published_envelope_is_routed(
    publisher: ConnectionView,
    m: Model,
    envelope: EnvelopeView,
    text: Seq<char>,
)
    ensures
        json_parsed(text) == Some(members_of(envelope_entries(envelope))) ==> queued_by(
            publisher,
            m,
            command_of("publish-json:"@ + text),
        ) == publication(m, envelope),
{
    lemma_publish_frame_read_back(text);
    lemma_envelope_members(envelope);
}

/// The message that the members of a received JSON value stand for. A member that is
/// absent or is no string is shown by a placeholder.
pub open spec fn received_of(members: Map<Seq<char>, JsonItem>) -> EnvelopeView {
    EnvelopeView {
        publisher_name: text_member(members, "publisher_name"@, "<unknown>"@),
        topic: text_member(members, "topic"@, "<unknown>"@),
        payload: text_member(members, "payload"@, "<no message>"@),
        timestamp: text_member(members, "timestamp"@, "???"@),
        session_id: text_member(members, "session_id"@, "<unknown>"@),
    }
}

/// The message that a received frame carries, where the frame is JSON.
pub open spec fn received_message(text: Seq<char>) -> Option<EnvelopeView> {
    match json_parsed(text) {
        Some(members) => Some(received_of(members)),
        None => None,
    }
}

/// A subscriber reads from the members that an envelope is written as the envelope that
/// was published.
pub proof fn lemma_message_read_back(envelope: EnvelopeView)
    ensures
        received_of(members_of(envelope_entries(envelope))) == envelope,
{
    lemma_envelope_members(envelope);
}

/// Reads a message from a parsed JSON value.
pub(crate) fn message_from_json(value: &serde_json::Value) -> (message: Envelope)
    ensures
        message@ == received_of(json_members(*value)),
{
    Envelope {
        publisher_name: text_or(value, "publisher_name", "<unknown>"),
        topic: text_or(value, "topic", "<unknown>"),
        payload: text_or(value, "payload", "<no message>"),
        timestamp: text_or(value, "timestamp", "???"),
        session_id: text_or(value, "session_id", "<unknown>"),
    }
}

/// Reads a received text frame. `None` where the frame is not JSON, as the answer to a
/// ping is not.
pub fn decode_message(text: &str) -> (message: Option<Envelope>)
    ensures
        optional_envelope_view(message) == received_message(text@),
{
    match parse_json(text) {
        Ok(value) => Some(message_from_json(&value)),
        Err(_) => None,
    }
}

/// The members of the body of a request for a token.
pub open spec fn auth_request_members(
    username: Seq<char>,
    password: Seq<char>,
    session_id: Option<Seq<char>>,
) -> Seq<(Seq<char>, Seq<char>)> {
    match session_id {
        Some(session) => seq![
            ("username"@, username),
            ("password"@, password),
            ("session_id"@, session),
        ],
        None => seq![("username"@, username), ("password"@, password)],
    }
}

/// The names of the members of a request for a token can be written: they differ from
/// each other and none is reserved.
pub proof fn lemma_auth_request_names(
    username: Seq<char>,
    password: Seq<char>,
    session_id: Option<Seq<char>>,
)
    ensures
        writable_names(names_of(auth_request_members(username, password, session_id))),
{
    reveal_strlit("username");
    reveal_strlit("password");
    reveal_strlit("session_id");
    assert("username"@[0] != "password"@[0]);
    let names = names_of(auth_request_members(username, password, session_id));
    match session_id {
        Some(_) => {
            assert(names =~= seq!["username"@, "password"@, "session_id"@]);
        },
        None => {
            assert(names =~= seq!["username"@, "password"@]);
        },
    }
    lemma_writable_names(names);
}

/// The body of a request for a token: a JSON object with the user name, the password and,
/// where one is given, the session.
pub fn auth_request_body(username: &str, password: &str, session_id: Option<&str>) -> (body: String)
    ensures
        body@ == json_object_text(
            auth_request_members(
                username@,
                password@,
                match session_id {
                    Some(session) => Some(session@),
                    None => None,
                },
            ),
        ),
{
    let mut members: Vec<(String, String)> = Vec::new();
    members.push(("username".to_owned(), username.to_owned()));
    members.push(("password".to_owned(), password.to_owned()));
    match session_id {
        Some(session) => {
            members.push(("session_id".to_owned(), session.to_owned()));
            assert(members_view(members@) =~= seq![
                ("username"@, username@),
                ("password"@, password@),
                ("session_id"@, session@),
            ]);
        },
        None => {
            assert(members_view(members@) =~= seq![
                ("username"@, username@),
                ("password"@, password@),
            ]);
        },
    }
    proof {
        lemma_auth_request_names(
            username@,
            password@,
            match session_id {
                Some(session) => Some(session@),
                None => None,
            },
        );
    }
    object_text(&members)
}

/// Whether a status stands for success: 200 to 299.
pub open spec fn is_success(status: u16) -> bool {
    200 <= status <= 299
}

/// Whether a status stands for success.
pub fn is_success_status(status: u16) -> (success: bool)
    ensures
        success == is_success(status),
{
    200 <= status && status <= 299
}

/// What the members of an answer grant: a string `token` and an unsigned `expires_in`.
pub open spec fn granted_of(members: Map<Seq<char>, JsonItem>) -> Option<(Seq<char>, u64)> {
    if members.contains_key("token"@) && members.contains_key("expires_in"@) {
        match (members["token"@], members["expires_in"@]) {
            (JsonItem::Text(token), JsonItem::Unsigned(seconds)) => Some((token, seconds)),
            _ => None,
        }
    } else {
        None
    }
}

/// What `read_auth_response` returns.
pub open spec fn auth_response(status: u16, body: Seq<char>) -> Result<(Seq<char>, u64), ClientError> {
    if !is_success(status) {
        Err(ClientError::AuthenticationFailed { status })
    } else {
        match json_parsed(body) {
            None => Err(ClientError::MalformedResponse),
            Some(members) => match granted_of(members) {
                Some(granted) => Ok(granted),
                None => Err(ClientError::MalformedResponse),
            },
        }
    }
}

/// The mathematical form of the result of reading an answer.
pub open spec fn auth_result_view(result: Result<JwtAuthResponse, ClientError>) -> Result<
    (Seq<char>, u64),
    ClientError,
> {
    match result {
        Ok(granted) => Ok((granted.token@, granted.expires_in)),
        Err(error) => Err(error),
    }
}

/// What two members of an answer grant.
pub fn granted_from_fields(token: Option<JsonField>, expires_in: Option<JsonField>) -> (granted:
    Option<JwtAuthResponse>)
    ensures
        match granted {
            Some(response) => token == Some(JsonField::Text(response.token)) && expires_in == Some(
                JsonField::Unsigned(response.expires_in),
            ),
            None => !(token matches Some(JsonField::Text(_)) && expires_in matches Some(
                JsonField::Unsigned(_),
            )),
        },
{
    match (token, expires_in) {
        (Some(JsonField::Text(token)), Some(JsonField::Unsigned(expires_in))) => Some(
            JwtAuthResponse { token, expires_in },
        ),
        _ => None,
    }
}

/// Reads the answer of the token endpoint from its status and its body.
pub fn read_auth_response(status: u16, body: &str) -> (response: Result<
    JwtAuthResponse,
    ClientError,
>)
    ensures
        auth_result_view(response) == auth_response(status, body@),
{
    if !is_success_status(status) {
        return Err(ClientError::AuthenticationFailed { status });
    }
    match parse_json(body) {
        Err(_) => Err(ClientError::MalformedResponse),
        Ok(value) => match granted_from_fields(member(&value, "token"), member(&value, "expires_in")) {
            Some(granted) => Ok(granted),
            None => Err(ClientError::MalformedResponse),
        },
    }
}

/// The text of the URL `url` with the pair `key=value` added to its query; `None` where
/// `url` is no absolute URL.
pub uninterp spec fn url_with_pair(url: Seq<char>, key: Seq<char>, value: Seq<char>) -> Option<
    Seq<char>,
>;

/// `Url::parse` of `url`, then `query_pairs_mut().append_pair(key, value)`, then
/// `Url::as_str`: the text of the URL with one more pair in its query, or the error where
/// `url` is no absolute URL. The three texts together must leave the URL within the
/// positions that the `url` crate counts in 32 bits.
#[verifier::external_body]
fn append_query_pair(url: &str, key: &str, value: &str) -> (extended: Result<
    String,
    url::ParseError,
>)
    requires
        url.spec_bytes().len() + key.spec_bytes().len() + value.spec_bytes().len() <= URL_BUDGET,
    ensures
        match extended {
            Ok(text) => url_with_pair(url@, key@, value@) == Some(text@),
            Err(_) => url_with_pair(url@, key@, value@) is None,
        },
{
    let mut parsed = url::Url::parse(url)?;
    parsed.query_pairs_mut().append_pair(key, value);
    Ok(parsed.as_str().to_owned())
}

/// What `url_with_token` returns.
pub open spec fn tokened_url(ws_url: &str, token: &str) -> Result<Seq<char>, ClientError> {
    if ws_url.spec_bytes().len() + token.spec_bytes().len() + "token".spec_bytes().len()
        > URL_BUDGET {
        Err(ClientError::UrlTooLong)
    } else {
        match url_with_pair(ws_url@, "token"@, token@) {
            Some(text) => Ok(text),
            None => Err(ClientError::InvalidUrl),
        }
    }
}

/// The address of the server with the token added as the query parameter `token`.
pub fn url_with_token(ws_url: &str, token: &str) -> (address: Result<String, ClientError>)
    ensures
        match address {
            Ok(text) => tokened_url(ws_url, token) == Ok::<Seq<char>, ClientError>(text@),
            Err(error) => tokened_url(ws_url, token) == Err::<Seq<char>, ClientError>(error),
        },
{
    let key = "token";
    let url_len = ws_url.as_bytes().len();
    let token_len = token.as_bytes().len();
    let key_len = key.as_bytes().len();
    if url_len > URL_BUDGET || token_len > URL_BUDGET - url_len || key_len > URL_BUDGET - url_len
        - token_len {
        return Err(ClientError::UrlTooLong);
    }
    match append_query_pair(ws_url, key, token) {
        Ok(text) => Ok(text),
        Err(_) => Err(ClientError::InvalidUrl),
    }
}

/// What a client knows of itself and of its connection.
pub struct ClientState {
    /// The name of the client.
    pub name: String,
    /// The session of the client.
    pub session_id: String,
    connected: bool,
    auth_token: Option<String>,
    auth_url: Option<String>,
}

/// The mathematical form of a [`ClientState`].
pub ghost struct ClientStateView {
    pub name: Seq<char>,
    pub session_id: Seq<char>,
    pub connected: bool,
    pub auth_token: Option<Seq<char>>,
    pub auth_url: Option<Seq<char>>,
}

impl View for ClientState {
    type V = ClientStateView;

    closed spec fn view(&self) -> ClientStateView {
        ClientStateView {
            name: self.name@,
            session_id: self.session_id@,
            connected: self.connected,
            auth_token: optional_view(self.auth_token),
            auth_url: optional_view(self.auth_url),
        }
    }
}

impl ClientState {
    /// The state of a client that has just connected under `session_id`, without a token.
    pub fn connected(client_name: &str, session_id: &str) -> (state: ClientState)
        ensures
            state@ == (ClientStateView {
                name: client_name@,
                session_id: session_id@,
                connected: true,
                auth_token: None,
                auth_url: None,
            }),
    {
        ClientState {
            name: client_name.to_owned(),
            session_id: session_id.to_owned(),
            connected: true,
            auth_token: None,
            auth_url: None,
        }
    }

    /// The two frames that a client sends first: its name, then its session.
    pub fn greeting(&self) -> (frames: Vec<String>)
        ensures
            frames@.len() == 2,
            frames@[0]@ == "register-name:"@ + self@.name,
            frames@[1]@ == "register-session:"@ + self@.session_id,
    {
        let mut frames: Vec<String> = Vec::new();
        frames.push(register_name_frame(self.name.as_str()));
        frames.push(register_session_frame(self.session_id.as_str()));
        frames
    }

    /// Records the token that the client connected with. With `auth_url`, also records
    /// where the token came from, so that it can be renewed there.
    pub fn set_token(&mut self, token: String, auth_url: Option<String>)
        ensures
            final(self)@ == (ClientStateView {
                auth_token: Some(token@),
                auth_url: match auth_url {
                    Some(url) => Some(url@),
                    None => old(self)@.auth_url,
                },
                ..old(self)@
            }),
    {
        self.auth_token = Some(token);
        match auth_url {
            Some(url) => {
                self.auth_url = Some(url);
            },
            None => {},
        }
    }

    /// The name of the client.
    pub fn name(&self) -> (name: &str)
        ensures
            name@ == self@.name,
    {
        self.name.as_str()
    }

    /// The session of the client.
    pub fn session_id(&self) -> (session: &str)
        ensures
            session@ == self@.session_id,
    {
        self.session_id.as_str()
    }

    /// The current token, if the client has one.
    pub fn get_token(&self) -> (token: Option<String>)
        ensures
            optional_view(token) == self@.auth_token,
    {
        match &self.auth_token {
            Some(token) => Some(token.clone()),
            None => None,
        }
    }

    /// Whether the connection is not known to be down.
    pub fn is_connected(&self) -> (connected: bool)
        ensures
            connected == self@.connected,
    {
        self.connected
    }

    /// Whether the client has a token.
    pub fn is_authenticated(&self) -> (authenticated: bool)
        ensures
            authenticated == self@.auth_token is Some,
    {
        self.auth_token.is_some()
    }

    /// Where the client renews its token: the place it is on record to have come from, once
    /// the token is due for renewal.
    pub fn refresh_target(&self, lifetime: TokenLifetime) -> (target: Option<&str>)
        ensures
            match target {
                Some(url) => refresh_due(lifetime) && self@.auth_url == Some(url@),
                None => !refresh_due(lifetime) || self@.auth_url is None,
            },
    {
        if !needs_refresh(lifetime) {
            return None;
        }
        match &self.auth_url {
            Some(url) => Some(url.as_str()),
            None => None,
        }
    }

    /// The frame that subscribes the client to `topic` under its session.
    pub fn subscribe(&self, topic: &str) -> (frame: String)
        ensures
            frame@ == "subscribe:"@ + topic@ + "|"@ + self@.session_id,
    {
        subscribe_frame(topic, self.session_id.as_str())
    }

    /// The frame that unsubscribes the client from `topic` under its session.
    pub fn unsubscribe(&self, topic: &str) -> (frame: String)
        ensures
            frame@ == "unsubscribe:"@ + topic@ + "|"@ + self@.session_id,
    {
        unsubscribe_frame(topic, self.session_id.as_str())
    }

    /// The frame that publishes `payload` to `topic` under the session of the client; an
    /// error, and no frame, where the connection is known to be down.
    pub fn publish(&self, publisher_name: &str, topic: &str, payload: &str, timestamp: &str) -> (frame:
        Result<String, ClientError>)
        ensures
            match frame {
                Ok(text) => self@.connected && text@ == "publish-json:"@ + envelope_text(
                    EnvelopeView {
                        publisher_name: publisher_name@,
                        topic: topic@,
                        payload: payload@,
                        timestamp: timestamp@,
                        session_id: self@.session_id,
                    },
                ),
                Err(error) => !self@.connected && error == ClientError::NotConnected,
            },
    {
        if !self.connected {
            return Err(ClientError::NotConnected);
        }
        let envelope = Envelope {
            publisher_name: publisher_name.to_owned(),
            topic: topic.to_owned(),
            payload: payload.to_owned(),
            timestamp: timestamp.to_owned(),
            session_id: self.session_id.clone(),
        };
        Ok(publish_frame(&envelope))
    }

    /// Records that sending a frame failed: the connection counts as down from now on.
    pub fn send_failed(&mut self)
        ensures
            final(self)@ == (ClientStateView { connected: false, ..old(self)@ }),
    {
        self.connected = false;
    }
}

} // verus!
