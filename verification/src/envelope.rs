//! The envelope data model: the typed protocol units carried by wire frames,
//! their mathematical views, and serialization back to a generic field-set.
//!
//! One wire shape has five possible meanings; which one a frame carries is
//! decided only by which indicator field is present (`content`, `event`,
//! `method` or `state`). Frames matching none fall back to `Unknown`.

use crate::value::{fields_view, jentries_of, jval_of, jvals_of, FieldsV, Fields, JVal, JsonValue};
use vstd::prelude::*;

verus! {

/// Everything that can go wrong between raw bytes and a routed envelope.
#[derive(Clone, Copy, Debug, PartialEq, Eq, Structural)]
pub enum ProtocolError {
    /// Bytes before a delimiter do not parse as one JSON object.
    MalformedFrame,
    /// The accumulate buffer outgrew the configured frame cap with no delimiter.
    FrameTooLarge,
    /// Two or more indicator field groups are present on one frame.
    AmbiguousFrame,
    /// A matched variant lacks a field it requires, or carries it malformed.
    MissingRequiredField,
    /// An envelope type that the session state does not admit.
    UnexpectedEnvelope,
    /// A negotiation selection outside the offered option lists.
    InvalidOption,
    /// The credential check refused the peer.
    AuthenticationFailed,
    /// No node of the destination address is registered.
    DestinationUnknown,
    /// The outbound stream failed; the connection is torn down.
    WriteFailure,
}

/// Known kinds of envelopes; one per indicator field group.
#[derive(Clone, Copy, Debug, PartialEq, Eq, Structural)]
pub enum EnvelopeType {
    Message,
    Notification,
    Command,
    Session,
}

/// Kinds of messages; reserved for content negotiation.
#[derive(Clone, Copy, Debug, PartialEq, Eq, Structural)]
pub enum MessageType {
    Normal,
    Chat,
    Groupchat,
    Error,
}

/// Why an operation failed, attached to failure notifications and failed
/// session responses.
#[derive(Debug)]
pub struct Reason {
    pub code: u8,
    pub description: Option<String>,
}

/// Model of a `Reason`.
#[verifier::ext_equal]
pub struct ReasonV {
    pub code: u8,
    pub description: Option<Seq<char>>,
}

impl View for Reason {
    type V = ReasonV;

    open spec fn view(&self) -> ReasonV {
        ReasonV { code: self.code, description: opt_str_v(self.description) }
    }
}

/// The event a notification reports about a previously sent message.
#[derive(Debug)]
pub enum NotificationEvent {
    Accepted,
    Validated,
    Authorized,
    Dispatched,
    Received,
    Consumed,
    Failed(Option<Reason>),
}

/// Model of a `NotificationEvent`.
#[verifier::ext_equal]
pub enum EventV {
    Accepted,
    Validated,
    Authorized,
    Dispatched,
    Received,
    Consumed,
    Failed(Option<ReasonV>),
}

impl View for NotificationEvent {
    type V = EventV;

    open spec fn view(&self) -> EventV {
        match self {
            NotificationEvent::Accepted => EventV::Accepted,
            NotificationEvent::Validated => EventV::Validated,
            NotificationEvent::Authorized => EventV::Authorized,
            NotificationEvent::Dispatched => EventV::Dispatched,
            NotificationEvent::Received => EventV::Received,
            NotificationEvent::Consumed => EventV::Consumed,
            NotificationEvent::Failed(r) => EventV::Failed(
                match r {
                    Some(re) => Some(re@),
                    None => None,
                },
            ),
        }
    }
}

/// The states a session moves through; also the value of a session frame's
/// `state` field.
#[derive(Clone, Copy, Debug, PartialEq, Eq, Structural)]
pub enum SessionState {
    New,
    Negotiating,
    Authenticating,
    Established,
    Finished,
    Failed,
}

/// A chat payload: `mime_type` and `content` are required on the wire.
#[derive(Debug)]
pub struct Message {
    pub to: Option<String>,
    pub from: Option<String>,
    pub pp: Option<String>,
    pub id: Option<u64>,
    pub metadata: Option<Fields>,
    pub mime_type: String,
    pub content: JsonValue,
    /// Fields of the frame that no variant consumes, in wire order.
    pub other: Fields,
}

#[verifier::ext_equal]
pub struct MessageV {
    pub to: Option<Seq<char>>,
    pub from: Option<Seq<char>>,
    pub pp: Option<Seq<char>>,
    pub id: Option<u64>,
    pub metadata: Option<FieldsV>,
    pub mime_type: Seq<char>,
    pub content: JVal,
    pub other: FieldsV,
}

impl View for Message {
    type V = MessageV;

    open spec fn view(&self) -> MessageV {
        MessageV {
            to: opt_str_v(self.to),
            from: opt_str_v(self.from),
            pp: opt_str_v(self.pp),
            id: self.id,
            metadata: opt_fields_v(self.metadata),
            mime_type: self.mime_type@,
            content: self.content@,
            other: fields_view(self.other),
        }
    }
}

/// A delivery event about an earlier message; `id` and `event` are required.
#[derive(Debug)]
pub struct Notification {
    pub to: Option<String>,
    pub from: Option<String>,
    pub pp: Option<String>,
    pub id: u64,
    pub metadata: Option<Fields>,
    pub event: NotificationEvent,
    pub other: Fields,
}

#[verifier::ext_equal]
pub struct NotificationV {
    pub to: Option<Seq<char>>,
    pub from: Option<Seq<char>>,
    pub pp: Option<Seq<char>>,
    pub id: u64,
    pub metadata: Option<FieldsV>,
    pub event: EventV,
    pub other: FieldsV,
}

impl View for Notification {
    type V = NotificationV;

    open spec fn view(&self) -> NotificationV {
        NotificationV {
            to: opt_str_v(self.to),
            from: opt_str_v(self.from),
            pp: opt_str_v(self.pp),
            id: self.id,
            metadata: opt_fields_v(self.metadata),
            event: self.event@,
            other: fields_view(self.other),
        }
    }
}

/// An instruction to the peer; `method` is required.
#[derive(Debug)]
pub struct Command {
    pub to: Option<String>,
    pub from: Option<String>,
    pub pp: Option<String>,
    pub id: Option<u64>,
    pub metadata: Option<Fields>,
    pub method: String,
    pub status: Option<String>,
    pub mime_type: Option<String>,
    pub uri: Option<String>,
    pub other: Fields,
}

#[verifier::ext_equal]
pub struct CommandV {
    pub to: Option<Seq<char>>,
    pub from: Option<Seq<char>>,
    pub pp: Option<Seq<char>>,
    pub id: Option<u64>,
    pub metadata: Option<FieldsV>,
    pub method: Seq<char>,
    pub status: Option<Seq<char>>,
    pub mime_type: Option<Seq<char>>,
    pub uri: Option<Seq<char>>,
    pub other: FieldsV,
}

impl View for Command {
    type V = CommandV;

    open spec fn view(&self) -> CommandV {
        CommandV {
            to: opt_str_v(self.to),
            from: opt_str_v(self.from),
            pp: opt_str_v(self.pp),
            id: self.id,
            metadata: opt_fields_v(self.metadata),
            method: self.method@,
            status: opt_str_v(self.status),
            mime_type: opt_str_v(self.mime_type),
            uri: opt_str_v(self.uri),
            other: fields_view(self.other),
        }
    }
}

/// A session frame offering option lists; it never carries chosen values.
#[derive(Debug)]
pub struct SessionRequest {
    pub to: Option<String>,
    pub from: Option<String>,
    pub pp: Option<String>,
    pub id: u64,
    pub metadata: Option<Fields>,
    pub state: SessionState,
    pub encryption_options: Option<Vec<String>>,
    pub compression_options: Option<Vec<String>>,
    pub scheme_options: Option<Vec<String>>,
    pub other: Fields,
}

#[verifier::ext_equal]
pub struct SessionRequestV {
    pub to: Option<Seq<char>>,
    pub from: Option<Seq<char>>,
    pub pp: Option<Seq<char>>,
    pub id: u64,
    pub metadata: Option<FieldsV>,
    pub state: SessionState,
    pub encryption_options: Option<Seq<Seq<char>>>,
    pub compression_options: Option<Seq<Seq<char>>>,
    pub scheme_options: Option<Seq<Seq<char>>>,
    pub other: FieldsV,
}

impl View for SessionRequest {
    type V = SessionRequestV;

    open spec fn view(&self) -> SessionRequestV {
        SessionRequestV {
            to: opt_str_v(self.to),
            from: opt_str_v(self.from),
            pp: opt_str_v(self.pp),
            id: self.id,
            metadata: opt_fields_v(self.metadata),
            state: self.state,
            encryption_options: opt_strs_v(self.encryption_options),
            compression_options: opt_strs_v(self.compression_options),
            scheme_options: opt_strs_v(self.scheme_options),
            other: fields_view(self.other),
        }
    }
}

/// A session frame carrying chosen values (or authentication material, or a
/// failure reason); it never carries option lists.
#[derive(Debug)]
pub struct SessionResponse {
    pub to: Option<String>,
    pub from: Option<String>,
    pub pp: Option<String>,
    pub id: u64,
    pub metadata: Option<Fields>,
    pub state: SessionState,
    pub encryption: Option<String>,
    pub compression: Option<String>,
    pub scheme: Option<String>,
    pub reason: Option<Reason>,
    pub other: Fields,
}

#[verifier::ext_equal]
pub struct SessionResponseV {
    pub to: Option<Seq<char>>,
    pub from: Option<Seq<char>>,
    pub pp: Option<Seq<char>>,
    pub id: u64,
    pub metadata: Option<FieldsV>,
    pub state: SessionState,
    pub encryption: Option<Seq<char>>,
    pub compression: Option<Seq<char>>,
    pub scheme: Option<Seq<char>>,
    pub reason: Option<ReasonV>,
    pub other: FieldsV,
}

impl View for SessionResponse {
    type V = SessionResponseV;

    open spec fn view(&self) -> SessionResponseV {
        SessionResponseV {
            to: opt_str_v(self.to),
            from: opt_str_v(self.from),
            pp: opt_str_v(self.pp),
            id: self.id,
            metadata: opt_fields_v(self.metadata),
            state: self.state,
            encryption: opt_str_v(self.encryption),
            compression: opt_str_v(self.compression),
            scheme: opt_str_v(self.scheme),
            reason: opt_reason_v(self.reason),
            other: fields_view(self.other),
        }
    }
}

/// One complete protocol unit.
#[derive(Debug)]
pub enum Envelope {
    Message(Message),
    Notification(Notification),
    Command(Command),
    SessionRequest(SessionRequest),
    SessionResponse(SessionResponse),
    /// A frame matching no known variant, kept verbatim.
    Unknown(Fields),
}

/// Model of an `Envelope`.
#[verifier::ext_equal]
pub enum EnvelopeV {
    Message(MessageV),
    Notification(NotificationV),
    Command(CommandV),
    SessionRequest(SessionRequestV),
    SessionResponse(SessionResponseV),
    Unknown(FieldsV),
}

impl View for Envelope {
    type V = EnvelopeV;

    open spec fn view(&self) -> EnvelopeV {
        match self {
            Envelope::Message(m) => EnvelopeV::Message(m@),
            Envelope::Notification(n) => EnvelopeV::Notification(n@),
            Envelope::Command(c) => EnvelopeV::Command(c@),
            Envelope::SessionRequest(s) => EnvelopeV::SessionRequest(s@),
            Envelope::SessionResponse(s) => EnvelopeV::SessionResponse(s@),
            Envelope::Unknown(f) => EnvelopeV::Unknown(fields_view(*f)),
        }
    }
}

/// The message identifier, shared across variants; for an unrecognized
/// frame, its `id` field read as an unsigned integer.
pub open spec fn spec_envelope_id(e: EnvelopeV) -> Option<u64> {
    match e {
        EnvelopeV::Message(m) => m.id,
        EnvelopeV::Notification(n) => Some(n.id),
        EnvelopeV::Command(c) => c.id,
        EnvelopeV::SessionRequest(s) => Some(s.id),
        EnvelopeV::SessionResponse(s) => Some(s.id),
        EnvelopeV::Unknown(fs) => match crate::value::first_val(fs, "id"@) {
            Some(JVal::UInt(n)) => Some(n),
            _ => None,
        },
    }
}

/// The destination address, where one is carried.
pub open spec fn spec_envelope_to(e: EnvelopeV) -> Option<Seq<char>> {
    match e {
        EnvelopeV::Message(m) => m.to,
        EnvelopeV::Notification(n) => n.to,
        EnvelopeV::Command(c) => c.to,
        EnvelopeV::SessionRequest(s) => s.to,
        EnvelopeV::SessionResponse(s) => s.to,
        EnvelopeV::Unknown(fs) => match crate::value::first_val(fs, "to"@) {
            Some(JVal::Str(s)) => Some(s),
            _ => None,
        },
    }
}

/// The sender address, where one is carried.
pub open spec fn spec_envelope_from(e: EnvelopeV) -> Option<Seq<char>> {
    match e {
        EnvelopeV::Message(m) => m.from,
        EnvelopeV::Notification(n) => n.from,
        EnvelopeV::Command(c) => c.from,
        EnvelopeV::SessionRequest(s) => s.from,
        EnvelopeV::SessionResponse(s) => s.from,
        EnvelopeV::Unknown(fs) => match crate::value::first_val(fs, "from"@) {
            Some(JVal::Str(s)) => Some(s),
            _ => None,
        },
    }
}

impl Envelope {
    pub fn id(&self) -> (r: Option<u64>)
        ensures
            r == spec_envelope_id(self@),
    {
        match self {
            Envelope::Message(m) => m.id,
            Envelope::Notification(n) => Some(n.id),
            Envelope::Command(c) => c.id,
            Envelope::SessionRequest(s) => Some(s.id),
            Envelope::SessionResponse(s) => Some(s.id),
            Envelope::Unknown(map) => match crate::value::find_field(map, "id") {
                Some(JsonValue::UInt(n)) => Some(*n),
                _ => None,
            },
        }
    }

    pub fn to_address(&self) -> (r: Option<&String>)
        ensures
            match r {
                Some(s) => spec_envelope_to(self@) == Some(s@),
                None => spec_envelope_to(self@) is None,
            },
    {
        match self {
            Envelope::Message(m) => m.to.as_ref(),
            Envelope::Notification(n) => n.to.as_ref(),
            Envelope::Command(c) => c.to.as_ref(),
            Envelope::SessionRequest(s) => s.to.as_ref(),
            Envelope::SessionResponse(s) => s.to.as_ref(),
            Envelope::Unknown(map) => match crate::value::find_field(map, "to") {
                Some(JsonValue::Str(s)) => Some(s),
                _ => None,
            },
        }
    }

    pub fn from_address(&self) -> (r: Option<&String>)
        ensures
            match r {
                Some(s) => spec_envelope_from(self@) == Some(s@),
                None => spec_envelope_from(self@) is None,
            },
    {
        match self {
            Envelope::Message(m) => m.from.as_ref(),
            Envelope::Notification(n) => n.from.as_ref(),
            Envelope::Command(c) => c.from.as_ref(),
            Envelope::SessionRequest(s) => s.from.as_ref(),
            Envelope::SessionResponse(s) => s.from.as_ref(),
            Envelope::Unknown(map) => match crate::value::find_field(map, "from") {
                Some(JsonValue::Str(s)) => Some(s),
                _ => None,
            },
        }
    }
}

impl From<Message> for Envelope {
    fn from(m: Message) -> Envelope {
        Envelope::Message(m)
    }
}

impl vstd::std_specs::convert::FromSpecImpl<Message> for Envelope {
    open spec fn obeys_from_spec() -> bool {
        true
    }

    open spec fn from_spec(m: Message) -> Envelope {
        Envelope::Message(m)
    }
}

impl From<Notification> for Envelope {
    fn from(n: Notification) -> Envelope {
        Envelope::Notification(n)
    }
}

impl vstd::std_specs::convert::FromSpecImpl<Notification> for Envelope {
    open spec fn obeys_from_spec() -> bool {
        true
    }

    open spec fn from_spec(n: Notification) -> Envelope {
        Envelope::Notification(n)
    }
}

impl From<Command> for Envelope {
    fn from(c: Command) -> Envelope {
        Envelope::Command(c)
    }
}

impl vstd::std_specs::convert::FromSpecImpl<Command> for Envelope {
    open spec fn obeys_from_spec() -> bool {
        true
    }

    open spec fn from_spec(c: Command) -> Envelope {
        Envelope::Command(c)
    }
}

impl From<SessionRequest> for Envelope {
    fn from(s: SessionRequest) -> Envelope {
        Envelope::SessionRequest(s)
    }
}

impl vstd::std_specs::convert::FromSpecImpl<SessionRequest> for Envelope {
    open spec fn obeys_from_spec() -> bool {
        true
    }

    open spec fn from_spec(s: SessionRequest) -> Envelope {
        Envelope::SessionRequest(s)
    }
}

impl From<SessionResponse> for Envelope {
    fn from(s: SessionResponse) -> Envelope {
        Envelope::SessionResponse(s)
    }
}

impl vstd::std_specs::convert::FromSpecImpl<SessionResponse> for Envelope {
    open spec fn obeys_from_spec() -> bool {
        true
    }

    open spec fn from_spec(s: SessionResponse) -> Envelope {
        Envelope::SessionResponse(s)
    }
}

pub open spec fn opt_str_v(o: Option<String>) -> Option<Seq<char>> {
    match o {
        Some(s) => Some(s@),
        None => None,
    }
}

pub open spec fn opt_fields_v(o: Option<Fields>) -> Option<FieldsV> {
    match o {
        Some(f) => Some(fields_view(f)),
        None => None,
    }
}

pub open spec fn opt_reason_v(o: Option<Reason>) -> Option<ReasonV> {
    match o {
        Some(r) => Some(r@),
        None => None,
    }
}

pub open spec fn strs_v(v: Vec<String>) -> Seq<Seq<char>> {
    v@.map_values(|s: String| s@)
}

pub open spec fn opt_strs_v(o: Option<Vec<String>>) -> Option<Seq<Seq<char>>> {
    match o {
        Some(v) => Some(strs_v(v)),
        None => None,
    }
}

// ---------------------------------------------------------------------------
// Serialization: an envelope back to its generic field-set, fields in
// canonical order, then the preserved `other` fields.
// ---------------------------------------------------------------------------

pub open spec fn opt_str_entry(name: Seq<char>, o: Option<Seq<char>>) -> FieldsV {
    match o {
        Some(s) => seq![(name, JVal::Str(s))],
        None => Seq::empty(),
    }
}

pub open spec fn opt_u64_entry(name: Seq<char>, o: Option<u64>) -> FieldsV {
    match o {
        Some(n) => seq![(name, JVal::UInt(n))],
        None => Seq::empty(),
    }
}

pub open spec fn opt_obj_entry(name: Seq<char>, o: Option<FieldsV>) -> FieldsV {
    match o {
        Some(f) => seq![(name, JVal::Obj(f))],
        None => Seq::empty(),
    }
}

pub open spec fn reason_jv(r: ReasonV) -> JVal {
    JVal::Obj(
        seq![("code"@, JVal::UInt(r.code as u64))] + opt_str_entry("description"@, r.description),
    )
}

pub open spec fn opt_reason_entry(name: Seq<char>, o: Option<ReasonV>) -> FieldsV {
    match o {
        Some(r) => seq![(name, reason_jv(r))],
        None => Seq::empty(),
    }
}

pub open spec fn event_name(e: EventV) -> Seq<char> {
    match e {
        EventV::Accepted => "accepted"@,
        EventV::Validated => "validated"@,
        EventV::Authorized => "authorized"@,
        EventV::Dispatched => "dispatched"@,
        EventV::Received => "received"@,
        EventV::Consumed => "consumed"@,
        EventV::Failed(_) => "failed"@,
    }
}

pub open spec fn event_entries(e: EventV) -> FieldsV {
    seq![("event"@, JVal::Str(event_name(e)))] + (match e {
        EventV::Failed(Some(r)) => seq![("reason"@, reason_jv(r))],
        _ => Seq::empty(),
    })
}

pub open spec fn state_name(s: SessionState) -> Seq<char> {
    match s {
        SessionState::New => "new"@,
        SessionState::Negotiating => "negotiating"@,
        SessionState::Authenticating => "authenticating"@,
        SessionState::Established => "established"@,
        SessionState::Finished => "finished"@,
        SessionState::Failed => "failed"@,
    }
}

pub open spec fn strs_jv(ss: Seq<Seq<char>>) -> JVal {
    JVal::Arr(ss.map_values(|s: Seq<char>| JVal::Str(s)))
}

pub open spec fn opt_strs_entry(name: Seq<char>, o: Option<Seq<Seq<char>>>) -> FieldsV {
    match o {
        Some(ss) => seq![(name, strs_jv(ss))],
        None => Seq::empty(),
    }
}

/// The shared leading fields every non-`Unknown` variant serializes first.
pub open spec fn common_entries(
    to: Option<Seq<char>>,
    from: Option<Seq<char>>,
    pp: Option<Seq<char>>,
    id: Option<u64>,
    md: Option<FieldsV>,
) -> FieldsV {
    opt_str_entry("to"@, to) + opt_str_entry("from"@, from) + opt_str_entry("pp"@, pp)
        + opt_u64_entry("id"@, id) + opt_obj_entry("metadata"@, md)
}

pub open spec fn spec_encode_message(m: MessageV) -> FieldsV {
    common_entries(m.to, m.from, m.pp, m.id, m.metadata) + seq![
        ("type"@, JVal::Str(m.mime_type)),
        ("content"@, m.content),
    ] + m.other
}

pub open spec fn spec_encode_notification(n: NotificationV) -> FieldsV {
    common_entries(n.to, n.from, n.pp, Some(n.id), n.metadata) + event_entries(n.event) + n.other
}

pub open spec fn spec_encode_command(c: CommandV) -> FieldsV {
    common_entries(c.to, c.from, c.pp, c.id, c.metadata) + seq![("method"@, JVal::Str(c.method))]
        + opt_str_entry("status"@, c.status) + opt_str_entry("type"@, c.mime_type) + opt_str_entry(
        "uri"@,
        c.uri,
    ) + c.other
}

pub open spec fn spec_encode_session_request(s: SessionRequestV) -> FieldsV {
    common_entries(s.to, s.from, s.pp, Some(s.id), s.metadata) + seq![
        ("state"@, JVal::Str(state_name(s.state))),
    ] + opt_strs_entry("encryptionOptions"@, s.encryption_options) + opt_strs_entry(
        "compressionOptions"@,
        s.compression_options,
    ) + opt_strs_entry("schemeOptions"@, s.scheme_options) + s.other
}

pub open spec fn spec_encode_session_response(s: SessionResponseV) -> FieldsV {
    common_entries(s.to, s.from, s.pp, Some(s.id), s.metadata) + seq![
        ("state"@, JVal::Str(state_name(s.state))),
    ] + opt_str_entry("encryption"@, s.encryption) + opt_str_entry("compression"@, s.compression)
        + opt_str_entry("scheme"@, s.scheme) + opt_reason_entry("reason"@, s.reason) + s.other
}

/// Serialization is total: every envelope maps back to a generic field-set;
/// `Unknown` returns its stored field-set unchanged.
pub open spec fn spec_encode(e: EnvelopeV) -> FieldsV {
    match e {
        EnvelopeV::Message(m) => spec_encode_message(m),
        EnvelopeV::Notification(n) => spec_encode_notification(n),
        EnvelopeV::Command(c) => spec_encode_command(c),
        EnvelopeV::SessionRequest(s) => spec_encode_session_request(s),
        EnvelopeV::SessionResponse(s) => spec_encode_session_response(s),
        EnvelopeV::Unknown(f) => f,
    }
}

fn push_opt_str(out: &mut Fields, name: &str, v: Option<String>)
    ensures
        fields_view(*final(out)) == fields_view(*old(out)) + opt_str_entry(name@, opt_str_v(v)),
{
    match v {
        Some(s) => {
            crate::value::push_field(out, name, JsonValue::Str(s));
        },
        None => {},
    }
    assert(fields_view(*out) =~= fields_view(*old(out)) + opt_str_entry(name@, opt_str_v(v)));
}

fn push_opt_u64(out: &mut Fields, name: &str, v: Option<u64>)
    ensures
        fields_view(*final(out)) == fields_view(*old(out)) + opt_u64_entry(name@, v),
{
    match v {
        Some(n) => {
            crate::value::push_field(out, name, JsonValue::UInt(n));
        },
        None => {},
    }
    assert(fields_view(*out) =~= fields_view(*old(out)) + opt_u64_entry(name@, v));
}

fn push_opt_obj(out: &mut Fields, name: &str, v: Option<Fields>)
    ensures
        fields_view(*final(out)) == fields_view(*old(out)) + opt_obj_entry(name@, opt_fields_v(v)),
{
    match v {
        Some(f) => {
            crate::value::push_field(out, name, JsonValue::Obj(f));
        },
        None => {},
    }
    assert(fields_view(*out) =~= fields_view(*old(out)) + opt_obj_entry(name@, opt_fields_v(v)));
}

fn push_common(
    out: &mut Fields,
    to: Option<String>,
    from: Option<String>,
    pp: Option<String>,
    id: Option<u64>,
    md: Option<Fields>,
)
    ensures
        fields_view(*final(out)) == fields_view(*old(out)) + common_entries(
            opt_str_v(to),
            opt_str_v(from),
            opt_str_v(pp),
            id,
            opt_fields_v(md),
        ),
{
    push_opt_str(out, "to", to);
    push_opt_str(out, "from", from);
    push_opt_str(out, "pp", pp);
    push_opt_u64(out, "id", id);
    push_opt_obj(out, "metadata", md);
    assert(fields_view(*out) =~= fields_view(*old(out)) + common_entries(
        opt_str_v(to),
        opt_str_v(from),
        opt_str_v(pp),
        id,
        opt_fields_v(md),
    ));
}

/// Appends every field of `more` to `out`, preserving order.
fn append_fields(out: &mut Fields, more: Fields)
    ensures
        fields_view(*final(out)) == fields_view(*old(out)) + fields_view(more),
{
    let mut rest = more;
    while rest.len() > 0
        invariant
            fields_view(*out) + jentries_of(rest@) == fields_view(*old(out)) + fields_view(more),
        decreases rest.len(),
    {
        let ghost pre = rest@;
        let e = rest.remove(0);
        assert(pre.remove(0) =~= pre.subrange(1, pre.len() as int));
        let ghost outpre = out@;
        out.push(e);
        proof {
            crate::value::lemma_jentries_push(outpre, e);
        }
    }
    assert(jentries_of(rest@) =~= Seq::<(Seq<char>, JVal)>::empty());
    assert(fields_view(*out) =~= fields_view(*old(out)) + fields_view(more));
}

fn reason_value(r: Reason) -> (v: JsonValue)
    ensures
        jval_of(v) == reason_jv(r@),
{
    let ghost rv = r@;
    let Reason { code, description } = r;
    let mut obj: Fields = Vec::new();
    crate::value::push_field(&mut obj, "code", JsonValue::UInt(code as u64));
    match description {
        Some(d) => {
            crate::value::push_field(&mut obj, "description", JsonValue::Str(d));
        },
        None => {},
    }
    assert(fields_view(obj) =~= seq![("code"@, JVal::UInt(rv.code as u64))] + opt_str_entry(
        "description"@,
        rv.description,
    ));
    JsonValue::Obj(obj)
}

fn push_event(out: &mut Fields, e: NotificationEvent)
    ensures
        fields_view(*final(out)) == fields_view(*old(out)) + event_entries(e@),
{
    match e {
        NotificationEvent::Accepted => {
            crate::value::push_field(out, "event", JsonValue::Str("accepted".to_owned()));
        },
        NotificationEvent::Validated => {
            crate::value::push_field(out, "event", JsonValue::Str("validated".to_owned()));
        },
        NotificationEvent::Authorized => {
            crate::value::push_field(out, "event", JsonValue::Str("authorized".to_owned()));
        },
        NotificationEvent::Dispatched => {
            crate::value::push_field(out, "event", JsonValue::Str("dispatched".to_owned()));
        },
        NotificationEvent::Received => {
            crate::value::push_field(out, "event", JsonValue::Str("received".to_owned()));
        },
        NotificationEvent::Consumed => {
            crate::value::push_field(out, "event", JsonValue::Str("consumed".to_owned()));
        },
        NotificationEvent::Failed(opt_r) => {
            crate::value::push_field(out, "event", JsonValue::Str("failed".to_owned()));
            match opt_r {
                Some(r) => {
                    let rv = reason_value(r);
                    crate::value::push_field(out, "reason", rv);
                },
                None => {},
            }
        },
    }
    assert(fields_view(*out) =~= fields_view(*old(out)) + event_entries(e@));
}

fn push_opt_strs(out: &mut Fields, name: &str, v: Option<Vec<String>>)
    ensures
        fields_view(*final(out)) == fields_view(*old(out)) + opt_strs_entry(name@, opt_strs_v(v)),
{
    match v {
        Some(ss) => {
            let arr = strs_value(ss);
            crate::value::push_field(out, name, arr);
        },
        None => {},
    }
    assert(fields_view(*out) =~= fields_view(*old(out)) + opt_strs_entry(name@, opt_strs_v(v)));
}

fn strs_value(v: Vec<String>) -> (r: JsonValue)
    ensures
        jval_of(r) == strs_jv(strs_v(v)),
{
    let mut items: Vec<JsonValue> = Vec::new();
    let mut i: usize = 0;
    while i < v.len()
        invariant
            i <= v.len(),
            jvals_of(items@) == strs_v(v).subrange(0, i as int).map_values(
                |s: Seq<char>| JVal::Str(s),
            ),
        decreases v.len() - i,
    {
        let ghost pre = items@;
        let s = v[i].clone();
        items.push(JsonValue::Str(s));
        proof {
            crate::value::lemma_jvals_push(pre, JsonValue::Str(s));
            assert(jvals_of(items@) =~= strs_v(v).subrange(0, i as int + 1).map_values(
                |s: Seq<char>| JVal::Str(s),
            ));
        }
        i = i + 1;
    }
    assert(strs_v(v).subrange(0, v@.len() as int) =~= strs_v(v));
    JsonValue::Arr(items)
}

fn encode_message(m: Message) -> (r: Fields)
    ensures
        fields_view(r) == spec_encode_message(m@),
{
    let ghost mv = m@;
    let Message { to, from, pp, id, metadata, mime_type, content, other } = m;
    let mut out: Fields = Vec::new();
    push_common(&mut out, to, from, pp, id, metadata);
    crate::value::push_field(&mut out, "type", JsonValue::Str(mime_type));
    crate::value::push_field(&mut out, "content", content);
    append_fields(&mut out, other);
    assert(fields_view(out) =~= spec_encode_message(mv));
    out
}

fn encode_notification(n: Notification) -> (r: Fields)
    ensures
        fields_view(r) == spec_encode_notification(n@),
{
    let ghost nv = n@;
    let Notification { to, from, pp, id, metadata, event, other } = n;
    let mut out: Fields = Vec::new();
    push_common(&mut out, to, from, pp, Some(id), metadata);
    push_event(&mut out, event);
    append_fields(&mut out, other);
    assert(fields_view(out) =~= spec_encode_notification(nv));
    out
}

fn encode_command(c: Command) -> (r: Fields)
    ensures
        fields_view(r) == spec_encode_command(c@),
{
    let ghost cv = c@;
    let Command { to, from, pp, id, metadata, method, status, mime_type, uri, other } = c;
    let mut out: Fields = Vec::new();
    push_common(&mut out, to, from, pp, id, metadata);
    crate::value::push_field(&mut out, "method", JsonValue::Str(method));
    push_opt_str(&mut out, "status", status);
    push_opt_str(&mut out, "type", mime_type);
    push_opt_str(&mut out, "uri", uri);
    append_fields(&mut out, other);
    assert(fields_view(out) =~= spec_encode_command(cv));
    out
}

fn state_string(s: SessionState) -> (r: String)
    ensures
        r@ == state_name(s),
{
    match s {
        SessionState::New => "new".to_owned(),
        SessionState::Negotiating => "negotiating".to_owned(),
        SessionState::Authenticating => "authenticating".to_owned(),
        SessionState::Established => "established".to_owned(),
        SessionState::Finished => "finished".to_owned(),
        SessionState::Failed => "failed".to_owned(),
    }
}

fn encode_session_request(s: SessionRequest) -> (r: Fields)
    ensures
        fields_view(r) == spec_encode_session_request(s@),
{
    let ghost sv = s@;
    let SessionRequest {
        to,
        from,
        pp,
        id,
        metadata,
        state,
        encryption_options,
        compression_options,
        scheme_options,
        other,
    } = s;
    let mut out: Fields = Vec::new();
    push_common(&mut out, to, from, pp, Some(id), metadata);
    let st = state_string(state);
    crate::value::push_field(&mut out, "state", JsonValue::Str(st));
    push_opt_strs(&mut out, "encryptionOptions", encryption_options);
    push_opt_strs(&mut out, "compressionOptions", compression_options);
    push_opt_strs(&mut out, "schemeOptions", scheme_options);
    append_fields(&mut out, other);
    assert(fields_view(out) =~= spec_encode_session_request(sv));
    out
}

fn encode_session_response(s: SessionResponse) -> (r: Fields)
    ensures
        fields_view(r) == spec_encode_session_response(s@),
{
    let ghost sv = s@;
    let SessionResponse {
        to,
        from,
        pp,
        id,
        metadata,
        state,
        encryption,
        compression,
        scheme,
        reason,
        other,
    } = s;
    let mut out: Fields = Vec::new();
    push_common(&mut out, to, from, pp, Some(id), metadata);
    let st = state_string(state);
    crate::value::push_field(&mut out, "state", JsonValue::Str(st));
    push_opt_str(&mut out, "encryption", encryption);
    push_opt_str(&mut out, "compression", compression);
    push_opt_str(&mut out, "scheme", scheme);
    match reason {
        Some(re) => {
            let rv = reason_value(re);
            crate::value::push_field(&mut out, "reason", rv);
        },
        None => {},
    }
    append_fields(&mut out, other);
    assert(fields_view(out) =~= spec_encode_session_response(sv));
    out
}

/// Serializes an envelope back to its generic field-set. Total, and for
/// non-`Unknown` variants the exact inverse of `decode`; for `Unknown` it
/// returns the stored field-set unchanged.
pub fn encode(env: Envelope) -> (r: Fields)
    ensures
        fields_view(r) == spec_encode(env@),
{
    match env {
        Envelope::Message(m) => encode_message(m),
        Envelope::Notification(n) => encode_notification(n),
        Envelope::Command(c) => encode_command(c),
        Envelope::SessionRequest(s) => encode_session_request(s),
        Envelope::SessionResponse(s) => encode_session_response(s),
        Envelope::Unknown(f) => f,
    }
}

} // verus!
