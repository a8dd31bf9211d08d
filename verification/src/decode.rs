//! Type discrimination: one generic field-set in, exactly one envelope
//! meaning out.
//!
//! A frame is classified by which indicator fields are present (`content`,
//! `event`, `method`, `state`): two or more present is ambiguous, none falls
//! back to `Unknown`, exactly one selects the variant whose fields are then
//! pulled out of the set. Fields no variant consumes are preserved, in wire
//! order, in the variant's `other` bucket.

use crate::envelope::{
    opt_fields_v, opt_str_v, opt_strs_v, Command, CommandV, Envelope, EnvelopeV, EventV, Message,
    MessageV, Notification, NotificationEvent, NotificationV, ProtocolError, Reason, ReasonV,
    SessionRequest, SessionRequestV, SessionResponse, SessionResponseV, SessionState,
};
use crate::value::{
    fields_view, find_field, first_val, has_field, jentries_of, jval_of, jvals_of, str_eq,
    Fields, FieldsV, JVal, JsonValue,
};
use vstd::prelude::*;

verus! {

// ---------------------------------------------------------------------------
// Scan accumulators: one left-to-right pass; the first occurrence of a
// consumed name wins, later duplicates of it are dropped, and every other
// field keeps its relative order in the `other` bucket.
// ---------------------------------------------------------------------------

#[verifier::ext_equal]
pub struct MsgScan {
    pub to: Option<JVal>,
    pub from: Option<JVal>,
    pub pp: Option<JVal>,
    pub id: Option<JVal>,
    pub metadata: Option<JVal>,
    pub mime: Option<JVal>,
    pub content: Option<JVal>,
    pub other: FieldsV,
}

pub open spec fn msg_scan0() -> MsgScan {
    MsgScan {
        to: None,
        from: None,
        pp: None,
        id: None,
        metadata: None,
        mime: None,
        content: None,
        other: Seq::empty(),
    }
}

pub open spec fn msg_step(a: MsgScan, e: (Seq<char>, JVal)) -> MsgScan {
    if e.0 == "to"@ {
        if a.to is None {
            MsgScan { to: Some(e.1), ..a }
        } else {
            a
        }
    } else if e.0 == "from"@ {
        if a.from is None {
            MsgScan { from: Some(e.1), ..a }
        } else {
            a
        }
    } else if e.0 == "pp"@ {
        if a.pp is None {
            MsgScan { pp: Some(e.1), ..a }
        } else {
            a
        }
    } else if e.0 == "id"@ {
        if a.id is None {
            MsgScan { id: Some(e.1), ..a }
        } else {
            a
        }
    } else if e.0 == "metadata"@ {
        if a.metadata is None {
            MsgScan { metadata: Some(e.1), ..a }
        } else {
            a
        }
    } else if e.0 == "type"@ {
        if a.mime is None {
            MsgScan { mime: Some(e.1), ..a }
        } else {
            a
        }
    } else if e.0 == "content"@ {
        if a.content is None {
            MsgScan { content: Some(e.1), ..a }
        } else {
            a
        }
    } else {
        MsgScan { other: a.other.push(e), ..a }
    }
}

pub open spec fn msg_scan(a: MsgScan, fs: FieldsV) -> MsgScan
    decreases fs.len(),
{
    if fs.len() == 0 {
        a
    } else {
        msg_scan(msg_step(a, fs[0]), fs.subrange(1, fs.len() as int))
    }
}

// Shape checks applied to a filled slot.
pub open spec fn opt_str_ok(v: Option<JVal>) -> bool {
    match v {
        None => true,
        Some(JVal::Str(_)) => true,
        Some(_) => false,
    }
}

pub open spec fn opt_str_val(v: Option<JVal>) -> Option<Seq<char>> {
    match v {
        Some(JVal::Str(s)) => Some(s),
        _ => None,
    }
}

pub open spec fn opt_u64_ok(v: Option<JVal>) -> bool {
    match v {
        None => true,
        Some(JVal::UInt(_)) => true,
        Some(_) => false,
    }
}

pub open spec fn opt_u64_val(v: Option<JVal>) -> Option<u64> {
    match v {
        Some(JVal::UInt(n)) => Some(n),
        _ => None,
    }
}

pub open spec fn opt_obj_ok(v: Option<JVal>) -> bool {
    match v {
        None => true,
        Some(JVal::Obj(_)) => true,
        Some(_) => false,
    }
}

pub open spec fn opt_obj_val(v: Option<JVal>) -> Option<FieldsV> {
    match v {
        Some(JVal::Obj(f)) => Some(f),
        _ => None,
    }
}

pub open spec fn req_str_val(v: Option<JVal>) -> Seq<char> {
    match v {
        Some(JVal::Str(s)) => s,
        _ => Seq::empty(),
    }
}

pub open spec fn req_u64_val(v: Option<JVal>) -> u64 {
    match v {
        Some(JVal::UInt(n)) => n,
        _ => 0,
    }
}

pub open spec fn common_ok(
    to: Option<JVal>,
    from: Option<JVal>,
    pp: Option<JVal>,
    id: Option<JVal>,
    metadata: Option<JVal>,
) -> bool {
    opt_str_ok(to) && opt_str_ok(from) && opt_str_ok(pp) && opt_u64_ok(id) && opt_obj_ok(metadata)
}

pub open spec fn spec_decode_message(fs: FieldsV) -> Result<EnvelopeV, ProtocolError> {
    let a = msg_scan(msg_scan0(), fs);
    if common_ok(a.to, a.from, a.pp, a.id, a.metadata) && (a.mime matches Some(JVal::Str(_)))
        && a.content is Some {
        Ok(
            EnvelopeV::Message(
                MessageV {
                    to: opt_str_val(a.to),
                    from: opt_str_val(a.from),
                    pp: opt_str_val(a.pp),
                    id: opt_u64_val(a.id),
                    metadata: opt_obj_val(a.metadata),
                    mime_type: req_str_val(a.mime),
                    content: match a.content {
                        Some(c) => c,
                        None => JVal::Null,
                    },
                    other: a.other,
                },
            ),
        )
    } else {
        Err(ProtocolError::MissingRequiredField)
    }
}

// ---------------------------------------------------------------------------
// Notification: the `reason` field belongs to the variant only when the
// event is `failed`; on any other event it stays in the generic bucket.
// ---------------------------------------------------------------------------

#[verifier::ext_equal]
pub struct NtfScan {
    pub to: Option<JVal>,
    pub from: Option<JVal>,
    pub pp: Option<JVal>,
    pub id: Option<JVal>,
    pub metadata: Option<JVal>,
    pub event: Option<JVal>,
    pub reason: Option<JVal>,
    pub other: FieldsV,
}

pub open spec fn ntf_scan0() -> NtfScan {
    NtfScan {
        to: None,
        from: None,
        pp: None,
        id: None,
        metadata: None,
        event: None,
        reason: None,
        other: Seq::empty(),
    }
}

pub open spec fn ntf_step(a: NtfScan, e: (Seq<char>, JVal), take_reason: bool) -> NtfScan {
    if e.0 == "to"@ {
        if a.to is None {
            NtfScan { to: Some(e.1), ..a }
        } else {
            a
        }
    } else if e.0 == "from"@ {
        if a.from is None {
            NtfScan { from: Some(e.1), ..a }
        } else {
            a
        }
    } else if e.0 == "pp"@ {
        if a.pp is None {
            NtfScan { pp: Some(e.1), ..a }
        } else {
            a
        }
    } else if e.0 == "id"@ {
        if a.id is None {
            NtfScan { id: Some(e.1), ..a }
        } else {
            a
        }
    } else if e.0 == "metadata"@ {
        if a.metadata is None {
            NtfScan { metadata: Some(e.1), ..a }
        } else {
            a
        }
    } else if e.0 == "event"@ {
        if a.event is None {
            NtfScan { event: Some(e.1), ..a }
        } else {
            a
        }
    } else if e.0 == "reason"@ && take_reason {
        if a.reason is None {
            NtfScan { reason: Some(e.1), ..a }
        } else {
            a
        }
    } else {
        NtfScan { other: a.other.push(e), ..a }
    }
}

pub open spec fn ntf_scan(a: NtfScan, fs: FieldsV, take_reason: bool) -> NtfScan
    decreases fs.len(),
{
    if fs.len() == 0 {
        a
    } else {
        ntf_scan(ntf_step(a, fs[0], take_reason), fs.subrange(1, fs.len() as int), take_reason)
    }
}

/// A reason object: a `code` of at most 255 with an optional string
/// `description`, and nothing else.
pub open spec fn parse_reason(v: JVal) -> Option<ReasonV> {
    match v {
        JVal::Obj(fs) => {
            let code = first_val(fs, "code"@);
            let desc = first_val(fs, "description"@);
            if (forall|i: int|
                0 <= i < fs.len() ==> (fs[i].0 == "code"@ || fs[i].0 == "description"@))
                && (code matches Some(JVal::UInt(c))) && req_u64_val(code) <= 255 && (desc is None
                || (desc matches Some(JVal::Str(_)))) {
                Some(
                    ReasonV {
                        code: req_u64_val(code) as u8,
                        description: opt_str_val(desc),
                    },
                )
            } else {
                None
            }
        },
        _ => None,
    }
}

pub open spec fn event_of_scan(ev: Option<JVal>, reason: Option<JVal>) -> Option<EventV> {
    if ev == Some(JVal::Str("accepted"@)) {
        Some(EventV::Accepted)
    } else if ev == Some(JVal::Str("validated"@)) {
        Some(EventV::Validated)
    } else if ev == Some(JVal::Str("authorized"@)) {
        Some(EventV::Authorized)
    } else if ev == Some(JVal::Str("dispatched"@)) {
        Some(EventV::Dispatched)
    } else if ev == Some(JVal::Str("received"@)) {
        Some(EventV::Received)
    } else if ev == Some(JVal::Str("failed"@)) {
        match reason {
            None => Some(EventV::Failed(None)),
            Some(rv) => match parse_reason(rv) {
                Some(r) => Some(EventV::Failed(Some(r))),
                None => None,
            },
        }
    } else if ev == Some(JVal::Str("consumed"@)) {
        Some(EventV::Consumed)
    } else {
        None
    }
}

pub open spec fn spec_decode_notification(fs: FieldsV) -> Result<EnvelopeV, ProtocolError> {
    let failed = first_val(fs, "event"@) == Some(JVal::Str("failed"@));
    let a = ntf_scan(ntf_scan0(), fs, failed);
    if common_ok(a.to, a.from, a.pp, a.id, a.metadata) && a.id is Some && event_of_scan(
        a.event,
        a.reason,
    ) is Some {
        Ok(
            EnvelopeV::Notification(
                NotificationV {
                    to: opt_str_val(a.to),
                    from: opt_str_val(a.from),
                    pp: opt_str_val(a.pp),
                    id: req_u64_val(a.id),
                    metadata: opt_obj_val(a.metadata),
                    event: match event_of_scan(a.event, a.reason) {
                        Some(e) => e,
                        None => EventV::Accepted,
                    },
                    other: a.other,
                },
            ),
        )
    } else {
        Err(ProtocolError::MissingRequiredField)
    }
}

// ---------------------------------------------------------------------------
// Command.
// ---------------------------------------------------------------------------

#[verifier::ext_equal]
pub struct CmdScan {
    pub to: Option<JVal>,
    pub from: Option<JVal>,
    pub pp: Option<JVal>,
    pub id: Option<JVal>,
    pub metadata: Option<JVal>,
    pub method: Option<JVal>,
    pub status: Option<JVal>,
    pub mime: Option<JVal>,
    pub uri: Option<JVal>,
    pub other: FieldsV,
}

pub open spec fn cmd_scan0() -> CmdScan {
    CmdScan {
        to: None,
        from: None,
        pp: None,
        id: None,
        metadata: None,
        method: None,
        status: None,
        mime: None,
        uri: None,
        other: Seq::empty(),
    }
}

pub open spec fn cmd_step(a: CmdScan, e: (Seq<char>, JVal)) -> CmdScan {
    if e.0 == "to"@ {
        if a.to is None {
            CmdScan { to: Some(e.1), ..a }
        } else {
            a
        }
    } else if e.0 == "from"@ {
        if a.from is None {
            CmdScan { from: Some(e.1), ..a }
        } else {
            a
        }
    } else if e.0 == "pp"@ {
        if a.pp is None {
            CmdScan { pp: Some(e.1), ..a }
        } else {
            a
        }
    } else if e.0 == "id"@ {
        if a.id is None {
            CmdScan { id: Some(e.1), ..a }
        } else {
            a
        }
    } else if e.0 == "metadata"@ {
        if a.metadata is None {
            CmdScan { metadata: Some(e.1), ..a }
        } else {
            a
        }
    } else if e.0 == "method"@ {
        if a.method is None {
            CmdScan { method: Some(e.1), ..a }
        } else {
            a
        }
    } else if e.0 == "status"@ {
        if a.status is None {
            CmdScan { status: Some(e.1), ..a }
        } else {
            a
        }
    } else if e.0 == "type"@ {
        if a.mime is None {
            CmdScan { mime: Some(e.1), ..a }
        } else {
            a
        }
    } else if e.0 == "uri"@ {
        if a.uri is None {
            CmdScan { uri: Some(e.1), ..a }
        } else {
            a
        }
    } else {
        CmdScan { other: a.other.push(e), ..a }
    }
}

pub open spec fn cmd_scan(a: CmdScan, fs: FieldsV) -> CmdScan
    decreases fs.len(),
{
    if fs.len() == 0 {
        a
    } else {
        cmd_scan(cmd_step(a, fs[0]), fs.subrange(1, fs.len() as int))
    }
}

pub open spec fn spec_decode_command(fs: FieldsV) -> Result<EnvelopeV, ProtocolError> {
    let a = cmd_scan(cmd_scan0(), fs);
    if common_ok(a.to, a.from, a.pp, a.id, a.metadata) && (a.method matches Some(JVal::Str(_)))
        && opt_str_ok(a.status) && opt_str_ok(a.mime) && opt_str_ok(a.uri) {
        Ok(
            EnvelopeV::Command(
                CommandV {
                    to: opt_str_val(a.to),
                    from: opt_str_val(a.from),
                    pp: opt_str_val(a.pp),
                    id: opt_u64_val(a.id),
                    metadata: opt_obj_val(a.metadata),
                    method: req_str_val(a.method),
                    status: opt_str_val(a.status),
                    mime_type: opt_str_val(a.mime),
                    uri: opt_str_val(a.uri),
                    other: a.other,
                },
            ),
        )
    } else {
        Err(ProtocolError::MissingRequiredField)
    }
}

// ---------------------------------------------------------------------------
// Session frames: the presence of chosen values (or a reason) against the
// presence of option lists tells a response from a request.
// ---------------------------------------------------------------------------

#[verifier::ext_equal]
pub struct SreqScan {
    pub to: Option<JVal>,
    pub from: Option<JVal>,
    pub pp: Option<JVal>,
    pub id: Option<JVal>,
    pub metadata: Option<JVal>,
    pub state: Option<JVal>,
    pub eopts: Option<JVal>,
    pub copts: Option<JVal>,
    pub sopts: Option<JVal>,
    pub other: FieldsV,
}

pub open spec fn sreq_scan0() -> SreqScan {
    SreqScan {
        to: None,
        from: None,
        pp: None,
        id: None,
        metadata: None,
        state: None,
        eopts: None,
        copts: None,
        sopts: None,
        other: Seq::empty(),
    }
}

pub open spec fn sreq_step(a: SreqScan, e: (Seq<char>, JVal)) -> SreqScan {
    if e.0 == "to"@ {
        if a.to is None {
            SreqScan { to: Some(e.1), ..a }
        } else {
            a
        }
    } else if e.0 == "from"@ {
        if a.from is None {
            SreqScan { from: Some(e.1), ..a }
        } else {
            a
        }
    } else if e.0 == "pp"@ {
        if a.pp is None {
            SreqScan { pp: Some(e.1), ..a }
        } else {
            a
        }
    } else if e.0 == "id"@ {
        if a.id is None {
            SreqScan { id: Some(e.1), ..a }
        } else {
            a
        }
    } else if e.0 == "metadata"@ {
        if a.metadata is None {
            SreqScan { metadata: Some(e.1), ..a }
        } else {
            a
        }
    } else if e.0 == "state"@ {
        if a.state is None {
            SreqScan { state: Some(e.1), ..a }
        } else {
            a
        }
    } else if e.0 == "encryptionOptions"@ {
        if a.eopts is None {
            SreqScan { eopts: Some(e.1), ..a }
        } else {
            a
        }
    } else if e.0 == "compressionOptions"@ {
        if a.copts is None {
            SreqScan { copts: Some(e.1), ..a }
        } else {
            a
        }
    } else if e.0 == "schemeOptions"@ {
        if a.sopts is None {
            SreqScan { sopts: Some(e.1), ..a }
        } else {
            a
        }
    } else {
        SreqScan { other: a.other.push(e), ..a }
    }
}

pub open spec fn sreq_scan(a: SreqScan, fs: FieldsV) -> SreqScan
    decreases fs.len(),
{
    if fs.len() == 0 {
        a
    } else {
        sreq_scan(sreq_step(a, fs[0]), fs.subrange(1, fs.len() as int))
    }
}

#[verifier::ext_equal]
pub struct SrespScan {
    pub to: Option<JVal>,
    pub from: Option<JVal>,
    pub pp: Option<JVal>,
    pub id: Option<JVal>,
    pub metadata: Option<JVal>,
    pub state: Option<JVal>,
    pub enc: Option<JVal>,
    pub cmp: Option<JVal>,
    pub sch: Option<JVal>,
    pub reason: Option<JVal>,
    pub other: FieldsV,
}

pub open spec fn sresp_scan0() -> SrespScan {
    SrespScan {
        to: None,
        from: None,
        pp: None,
        id: None,
        metadata: None,
        state: None,
        enc: None,
        cmp: None,
        sch: None,
        reason: None,
        other: Seq::empty(),
    }
}

pub open spec fn sresp_step(a: SrespScan, e: (Seq<char>, JVal)) -> SrespScan {
    if e.0 == "to"@ {
        if a.to is None {
            SrespScan { to: Some(e.1), ..a }
        } else {
            a
        }
    } else if e.0 == "from"@ {
        if a.from is None {
            SrespScan { from: Some(e.1), ..a }
        } else {
            a
        }
    } else if e.0 == "pp"@ {
        if a.pp is None {
            SrespScan { pp: Some(e.1), ..a }
        } else {
            a
        }
    } else if e.0 == "id"@ {
        if a.id is None {
            SrespScan { id: Some(e.1), ..a }
        } else {
            a
        }
    } else if e.0 == "metadata"@ {
        if a.metadata is None {
            SrespScan { metadata: Some(e.1), ..a }
        } else {
            a
        }
    } else if e.0 == "state"@ {
        if a.state is None {
            SrespScan { state: Some(e.1), ..a }
        } else {
            a
        }
    } else if e.0 == "encryption"@ {
        if a.enc is None {
            SrespScan { enc: Some(e.1), ..a }
        } else {
            a
        }
    } else if e.0 == "compression"@ {
        if a.cmp is None {
            SrespScan { cmp: Some(e.1), ..a }
        } else {
            a
        }
    } else if e.0 == "scheme"@ {
        if a.sch is None {
            SrespScan { sch: Some(e.1), ..a }
        } else {
            a
        }
    } else if e.0 == "reason"@ {
        if a.reason is None {
            SrespScan { reason: Some(e.1), ..a }
        } else {
            a
        }
    } else {
        SrespScan { other: a.other.push(e), ..a }
    }
}

pub open spec fn sresp_scan(a: SrespScan, fs: FieldsV) -> SrespScan
    decreases fs.len(),
{
    if fs.len() == 0 {
        a
    } else {
        sresp_scan(sresp_step(a, fs[0]), fs.subrange(1, fs.len() as int))
    }
}

pub open spec fn state_of_name(s: Seq<char>) -> Option<SessionState> {
    if s == "new"@ {
        Some(SessionState::New)
    } else if s == "negotiating"@ {
        Some(SessionState::Negotiating)
    } else if s == "authenticating"@ {
        Some(SessionState::Authenticating)
    } else if s == "established"@ {
        Some(SessionState::Established)
    } else if s == "finished"@ {
        Some(SessionState::Finished)
    } else if s == "failed"@ {
        Some(SessionState::Failed)
    } else {
        None
    }
}

pub open spec fn state_of_slot(v: Option<JVal>) -> Option<SessionState> {
    match v {
        Some(JVal::Str(s)) => state_of_name(s),
        _ => None,
    }
}

/// A list of option names: every element must be a string.
pub open spec fn strs_of(items: Seq<JVal>) -> Option<Seq<Seq<char>>>
    decreases items.len(),
{
    if items.len() == 0 {
        Some(Seq::empty())
    } else {
        match items[0] {
            JVal::Str(s) => match strs_of(items.subrange(1, items.len() as int)) {
                Some(r) => Some(seq![s] + r),
                None => None,
            },
            _ => None,
        }
    }
}

pub open spec fn opts_ok(v: Option<JVal>) -> bool {
    match v {
        None => true,
        Some(JVal::Arr(items)) => strs_of(items) is Some,
        Some(_) => false,
    }
}

pub open spec fn opts_val(v: Option<JVal>) -> Option<Seq<Seq<char>>> {
    match v {
        Some(JVal::Arr(items)) => strs_of(items),
        _ => None,
    }
}

pub open spec fn spec_decode_session_request(fs: FieldsV) -> Result<EnvelopeV, ProtocolError> {
    let a = sreq_scan(sreq_scan0(), fs);
    if common_ok(a.to, a.from, a.pp, a.id, a.metadata) && a.id is Some && state_of_slot(
        a.state,
    ) is Some && opts_ok(a.eopts) && opts_ok(a.copts) && opts_ok(a.sopts) {
        Ok(
            EnvelopeV::SessionRequest(
                SessionRequestV {
                    to: opt_str_val(a.to),
                    from: opt_str_val(a.from),
                    pp: opt_str_val(a.pp),
                    id: req_u64_val(a.id),
                    metadata: opt_obj_val(a.metadata),
                    state: match state_of_slot(a.state) {
                        Some(st) => st,
                        None => SessionState::New,
                    },
                    encryption_options: opts_val(a.eopts),
                    compression_options: opts_val(a.copts),
                    scheme_options: opts_val(a.sopts),
                    other: a.other,
                },
            ),
        )
    } else {
        Err(ProtocolError::MissingRequiredField)
    }
}

pub open spec fn spec_decode_session_response(fs: FieldsV) -> Result<EnvelopeV, ProtocolError> {
    let a = sresp_scan(sresp_scan0(), fs);
    if common_ok(a.to, a.from, a.pp, a.id, a.metadata) && a.id is Some && state_of_slot(
        a.state,
    ) is Some && opt_str_ok(a.enc) && opt_str_ok(a.cmp) && opt_str_ok(a.sch) && (match a.reason {
        None => true,
        Some(rv) => parse_reason(rv) is Some,
    }) {
        Ok(
            EnvelopeV::SessionResponse(
                SessionResponseV {
                    to: opt_str_val(a.to),
                    from: opt_str_val(a.from),
                    pp: opt_str_val(a.pp),
                    id: req_u64_val(a.id),
                    metadata: opt_obj_val(a.metadata),
                    state: match state_of_slot(a.state) {
                        Some(st) => st,
                        None => SessionState::New,
                    },
                    encryption: opt_str_val(a.enc),
                    compression: opt_str_val(a.cmp),
                    scheme: opt_str_val(a.sch),
                    reason: match a.reason {
                        Some(rv) => parse_reason(rv),
                        None => None,
                    },
                    other: a.other,
                },
            ),
        )
    } else {
        Err(ProtocolError::MissingRequiredField)
    }
}

pub open spec fn session_is_response(fs: FieldsV) -> bool {
    has_field(fs, "encryption"@) || has_field(fs, "compression"@) || has_field(fs, "scheme"@)
        || has_field(fs, "reason"@)
}

pub open spec fn session_is_request(fs: FieldsV) -> bool {
    has_field(fs, "encryptionOptions"@) || has_field(fs, "compressionOptions"@) || has_field(
        fs,
        "schemeOptions"@,
    )
}

pub open spec fn spec_decode_session(fs: FieldsV) -> Result<EnvelopeV, ProtocolError> {
    if session_is_response(fs) && session_is_request(fs) {
        Err(ProtocolError::AmbiguousFrame)
    } else if session_is_response(fs) {
        spec_decode_session_response(fs)
    } else {
        spec_decode_session_request(fs)
    }
}

// ---------------------------------------------------------------------------
// Top level discrimination.
// ---------------------------------------------------------------------------

pub open spec fn indicator_count(fs: FieldsV) -> int {
    (if has_field(fs, "content"@) {
        1int
    } else {
        0int
    }) + (if has_field(fs, "event"@) {
        1int
    } else {
        0int
    }) + (if has_field(fs, "method"@) {
        1int
    } else {
        0int
    }) + (if has_field(fs, "state"@) {
        1int
    } else {
        0int
    })
}

/// One field-set, at most one meaning: two or more indicator groups is
/// ambiguous, none is `Unknown`, one selects the variant.
pub open spec fn spec_decode(fs: FieldsV) -> Result<EnvelopeV, ProtocolError> {
    if indicator_count(fs) >= 2 {
        Err(ProtocolError::AmbiguousFrame)
    } else if has_field(fs, "content"@) {
        spec_decode_message(fs)
    } else if has_field(fs, "event"@) {
        spec_decode_notification(fs)
    } else if has_field(fs, "method"@) {
        spec_decode_command(fs)
    } else if has_field(fs, "state"@) {
        spec_decode_session(fs)
    } else {
        Ok(EnvelopeV::Unknown(fs))
    }
}

/// Discrimination exclusivity: a field-set on which two or more indicator
/// groups are present (say both `content` and `event`) never decodes to a
/// variant by silently picking one group; it is always refused as
/// `AmbiguousFrame`.
pub proof fn lemma_discrimination_exclusive(fs: FieldsV)
    requires
        indicator_count(fs) >= 2,
    ensures
        spec_decode(fs) == Err::<EnvelopeV, ProtocolError>(ProtocolError::AmbiguousFrame),
{
}

// ---------------------------------------------------------------------------
// Executable decoding, proved to return exactly what `spec_decode` says.
// ---------------------------------------------------------------------------

pub open spec fn opt_jv(o: Option<JsonValue>) -> Option<JVal> {
    match o {
        Some(v) => Some(jval_of(v)),
        None => None,
    }
}

fn take_opt_str(slot: Option<JsonValue>) -> (r: Result<Option<String>, ProtocolError>)
    ensures
        opt_str_ok(opt_jv(slot)) ==> (r matches Ok(o) && opt_str_v(o) == opt_str_val(opt_jv(slot))),
        !opt_str_ok(opt_jv(slot)) ==> r == Err::<Option<String>, ProtocolError>(
            ProtocolError::MissingRequiredField,
        ),
{
    match slot {
        None => Ok(None),
        Some(JsonValue::Str(s)) => Ok(Some(s)),
        Some(_) => Err(ProtocolError::MissingRequiredField),
    }
}

fn take_opt_u64(slot: Option<JsonValue>) -> (r: Result<Option<u64>, ProtocolError>)
    ensures
        opt_u64_ok(opt_jv(slot)) ==> (r matches Ok(o) && o == opt_u64_val(opt_jv(slot))),
        !opt_u64_ok(opt_jv(slot)) ==> r == Err::<Option<u64>, ProtocolError>(
            ProtocolError::MissingRequiredField,
        ),
{
    match slot {
        None => Ok(None),
        Some(JsonValue::UInt(n)) => Ok(Some(n)),
        Some(_) => Err(ProtocolError::MissingRequiredField),
    }
}

fn take_opt_obj(slot: Option<JsonValue>) -> (r: Result<Option<Fields>, ProtocolError>)
    ensures
        opt_obj_ok(opt_jv(slot)) ==> (r matches Ok(o) && opt_fields_v(o) == opt_obj_val(
            opt_jv(slot),
        )),
        !opt_obj_ok(opt_jv(slot)) ==> r == Err::<Option<Fields>, ProtocolError>(
            ProtocolError::MissingRequiredField,
        ),
{
    match slot {
        None => Ok(None),
        Some(JsonValue::Obj(f)) => Ok(Some(f)),
        Some(_) => Err(ProtocolError::MissingRequiredField),
    }
}

fn take_req_u64(slot: Option<JsonValue>) -> (r: Result<u64, ProtocolError>)
    ensures
        (opt_u64_ok(opt_jv(slot)) && opt_jv(slot) is Some) ==> r == Ok::<u64, ProtocolError>(
            req_u64_val(opt_jv(slot)),
        ),
        !(opt_u64_ok(opt_jv(slot)) && opt_jv(slot) is Some) ==> r == Err::<u64, ProtocolError>(
            ProtocolError::MissingRequiredField,
        ),
{
    match slot {
        Some(JsonValue::UInt(n)) => Ok(n),
        _ => Err(ProtocolError::MissingRequiredField),
    }
}

/// Parses a reason object: `code` of at most 255, optional string
/// `description`, nothing else.
fn reason_from(v: &JsonValue) -> (r: Option<Reason>)
    ensures
        match r {
            Some(re) => parse_reason(jval_of(*v)) == Some(re@),
            None => parse_reason(jval_of(*v)) is None,
        },
{
    match v {
        JsonValue::Obj(fs) => {
            let ghost fv = fields_view(*fs);
            proof {
                crate::value::lemma_jentries_props(fs@);
            }
            let mut i: usize = 0;
            while i < fs.len()
                invariant
                    i <= fs.len(),
                    fv == fields_view(*fs),
                    jval_of(*v) == JVal::Obj(fv),
                    fv.len() == fs@.len(),
                    forall|j: int| 0 <= j < fs@.len() ==> fv[j] == (
                        fs@[j].0@,
                        jval_of(fs@[j].1),
                    ),
                    forall|j: int| 0 <= j < i ==> (fv[j].0 == "code"@ || fv[j].0 == "description"@),
                decreases fs.len() - i,
            {
                let is_code = str_eq(fs[i].0.as_str(), "code");
                let is_desc = str_eq(fs[i].0.as_str(), "description");
                if !is_code && !is_desc {
                    proof {
                        assert(0 <= i < fv.len() && !(fv[i as int].0 == "code"@ || fv[
                            i as int
                        ].0 == "description"@));
                    }
                    return None;
                }
                i = i + 1;
            }
            let code: u64 = match find_field(fs, "code") {
                Some(JsonValue::UInt(n)) => {
                    if *n <= 255 {
                        *n
                    } else {
                        return None;
                    }
                },
                _ => {
                    return None;
                },
            };
            let desc: Option<String> = match find_field(fs, "description") {
                None => None,
                Some(JsonValue::Str(s)) => Some(s.clone()),
                Some(_) => {
                    return None;
                },
            };
            Some(Reason { code: code as u8, description: desc })
        },
        _ => None,
    }
}

fn event_from(ev: Option<JsonValue>, reason: Option<JsonValue>) -> (r: Option<NotificationEvent>)
    ensures
        match r {
            Some(e) => event_of_scan(opt_jv(ev), opt_jv(reason)) == Some(e@),
            None => event_of_scan(opt_jv(ev), opt_jv(reason)) is None,
        },
{
    let name = match &ev {
        Some(JsonValue::Str(s)) => s,
        _ => {
            return None;
        },
    };
    if str_eq(name.as_str(), "accepted") {
        Some(NotificationEvent::Accepted)
    } else if str_eq(name.as_str(), "validated") {
        Some(NotificationEvent::Validated)
    } else if str_eq(name.as_str(), "authorized") {
        Some(NotificationEvent::Authorized)
    } else if str_eq(name.as_str(), "dispatched") {
        Some(NotificationEvent::Dispatched)
    } else if str_eq(name.as_str(), "received") {
        Some(NotificationEvent::Received)
    } else if str_eq(name.as_str(), "failed") {
        match reason {
            None => Some(NotificationEvent::Failed(None)),
            Some(rv) => match reason_from(&rv) {
                Some(re) => Some(NotificationEvent::Failed(Some(re))),
                None => None,
            },
        }
    } else if str_eq(name.as_str(), "consumed") {
        Some(NotificationEvent::Consumed)
    } else {
        None
    }
}

fn state_from(slot: Option<JsonValue>) -> (r: Option<SessionState>)
    ensures
        match r {
            Some(st) => state_of_slot(opt_jv(slot)) == Some(st),
            None => state_of_slot(opt_jv(slot)) is None,
        },
{
    let name = match &slot {
        Some(JsonValue::Str(s)) => s,
        _ => {
            return None;
        },
    };
    if str_eq(name.as_str(), "new") {
        Some(SessionState::New)
    } else if str_eq(name.as_str(), "negotiating") {
        Some(SessionState::Negotiating)
    } else if str_eq(name.as_str(), "authenticating") {
        Some(SessionState::Authenticating)
    } else if str_eq(name.as_str(), "established") {
        Some(SessionState::Established)
    } else if str_eq(name.as_str(), "finished") {
        Some(SessionState::Finished)
    } else if str_eq(name.as_str(), "failed") {
        Some(SessionState::Failed)
    } else {
        None
    }
}

fn strs_from(items: Vec<JsonValue>) -> (r: Option<Vec<String>>)
    ensures
        match r {
            Some(v) => strs_of(jvals_of(items@)) == Some(crate::envelope::strs_v(v)),
            None => strs_of(jvals_of(items@)) is None,
        },
{
    let ghost whole = jvals_of(items@);
    let mut rest = items;
    let mut out: Vec<String> = Vec::new();
    proof {
        match strs_of(whole) {
            Some(t) => {
                assert(crate::envelope::strs_v(out) + t =~= t);
            },
            None => {},
        }
    }
    while rest.len() > 0
        invariant
            whole == jvals_of(items@),
            match strs_of(jvals_of(rest@)) {
                Some(t) => strs_of(whole) == Some(crate::envelope::strs_v(out) + t),
                None => strs_of(whole) is None,
            },
        decreases rest.len(),
    {
        let ghost pre = rest@;
        let ghost opre = out@;
        let e = rest.remove(0);
        proof {
            assert(pre.remove(0) =~= pre.subrange(1, pre.len() as int));
            assert(jvals_of(pre) == seq![jval_of(pre[0])] + jvals_of(
                pre.subrange(1, pre.len() as int),
            ));
        }
        match e {
            JsonValue::Str(s) => {
                let ghost sv = s@;
                let ghost spush = opre.push(s);
                out.push(s);
                proof {
                    assert(out@ == spush);
                    assert(crate::envelope::strs_v(out) =~= opre.map_values(
                        |x: String| x@,
                    ).push(sv));
                    assert((seq![JVal::Str(sv)] + jvals_of(rest@)).subrange(
                        1,
                        (seq![JVal::Str(sv)] + jvals_of(rest@)).len() as int,
                    ) =~= jvals_of(rest@));
                    assert(jvals_of(pre) == seq![JVal::Str(sv)] + jvals_of(rest@));
                    match strs_of(jvals_of(rest@)) {
                        Some(t) => {
                            assert(strs_of(jvals_of(pre)) == Some(seq![sv] + t));
                            assert(crate::envelope::strs_v(out) + t =~= opre.map_values(
                                |x: String| x@,
                            ) + (seq![sv] + t));
                        },
                        None => {
                            assert(strs_of(jvals_of(pre)) is None);
                        },
                    }
                }
            },
            _ => {
                proof {
                    assert(jvals_of(pre)[0] == jval_of(pre[0]));
                    assert(!(jvals_of(pre)[0] matches JVal::Str(_)));
                    assert(strs_of(jvals_of(pre)) is None);
                }
                return None;
            },
        }
    }
    proof {
        assert(jvals_of(rest@) =~= Seq::<JVal>::empty());
        assert(strs_of(Seq::<JVal>::empty()) == Some(Seq::<Seq<char>>::empty()));
        assert(crate::envelope::strs_v(out) + Seq::<Seq<char>>::empty() =~= crate::envelope::strs_v(
            out,
        ));
    }
    Some(out)
}

fn opts_from(slot: Option<JsonValue>) -> (r: Result<Option<Vec<String>>, ProtocolError>)
    ensures
        opts_ok(opt_jv(slot)) ==> (r matches Ok(o) && opt_strs_v(o) == opts_val(opt_jv(slot))),
        !opts_ok(opt_jv(slot)) ==> r == Err::<Option<Vec<String>>, ProtocolError>(
            ProtocolError::MissingRequiredField,
        ),
{
    match slot {
        None => Ok(None),
        Some(JsonValue::Arr(items)) => match strs_from(items) {
            Some(v) => Ok(Some(v)),
            None => Err(ProtocolError::MissingRequiredField),
        },
        Some(_) => Err(ProtocolError::MissingRequiredField),
    }
}

/// One pass over the fields, filling this variant's slots and the bucket,
/// exactly as the scan function says.
#[verifier::rlimit(60)]
fn run_msg_scan(fields: Fields) -> (r: (Option<JsonValue>, Option<JsonValue>, Option<JsonValue>, Option<JsonValue>, Option<JsonValue>, Option<JsonValue>, Option<JsonValue>, Fields))
    ensures
        ({
            let a = msg_scan(msg_scan0(), fields_view(fields));
            a.to == opt_jv(r.0) &&
            a.from == opt_jv(r.1) &&
            a.pp == opt_jv(r.2) &&
            a.id == opt_jv(r.3) &&
            a.metadata == opt_jv(r.4) &&
            a.mime == opt_jv(r.5) &&
            a.content == opt_jv(r.6) &&
            a.other == fields_view(r.7)
        }),
{
    let ghost fsv = fields_view(fields);
    let mut rest = fields;
    let mut f_to: Option<JsonValue> = None;
    let mut f_from: Option<JsonValue> = None;
    let mut f_pp: Option<JsonValue> = None;
    let mut f_id: Option<JsonValue> = None;
    let mut f_metadata: Option<JsonValue> = None;
    let mut f_mime: Option<JsonValue> = None;
    let mut f_content: Option<JsonValue> = None;
    let mut other: Fields = Vec::new();
    while rest.len() > 0
        invariant
            msg_scan(MsgScan { to: opt_jv(f_to), from: opt_jv(f_from), pp: opt_jv(f_pp), id: opt_jv(f_id), metadata: opt_jv(f_metadata), mime: opt_jv(f_mime), content: opt_jv(f_content), other: fields_view(other) }, jentries_of(rest@)) == msg_scan(msg_scan0(), fsv),
        decreases rest.len(),
    {
        let ghost pre = rest@;
        let ghost accpre = MsgScan { to: opt_jv(f_to), from: opt_jv(f_from), pp: opt_jv(f_pp), id: opt_jv(f_id), metadata: opt_jv(f_metadata), mime: opt_jv(f_mime), content: opt_jv(f_content), other: fields_view(other) };
        let e = rest.remove(0);
        proof {
            assert(pre.remove(0) =~= pre.subrange(1, pre.len() as int));
            assert(jentries_of(pre) == seq![(pre[0].0@, jval_of(pre[0].1))] + jentries_of(
                pre.subrange(1, pre.len() as int),
            ));
        }
        let ghost ev = (e.0@, jval_of(e.1));
        let is_to = str_eq(e.0.as_str(), "to");
        let is_from = str_eq(e.0.as_str(), "from");
        let is_pp = str_eq(e.0.as_str(), "pp");
        let is_id = str_eq(e.0.as_str(), "id");
        let is_metadata = str_eq(e.0.as_str(), "metadata");
        let is_mime = str_eq(e.0.as_str(), "type");
        let is_content = str_eq(e.0.as_str(), "content");
        if is_to {
            if f_to.is_none() {
                f_to = Some(e.1);
            }
        } else if is_from {
            if f_from.is_none() {
                f_from = Some(e.1);
            }
        } else if is_pp {
            if f_pp.is_none() {
                f_pp = Some(e.1);
            }
        } else if is_id {
            if f_id.is_none() {
                f_id = Some(e.1);
            }
        } else if is_metadata {
            if f_metadata.is_none() {
                f_metadata = Some(e.1);
            }
        } else if is_mime {
            if f_mime.is_none() {
                f_mime = Some(e.1);
            }
        } else if is_content {
            if f_content.is_none() {
                f_content = Some(e.1);
            }
        } else {
            let ghost opre = other@;
            let ghost ec = e;
            other.push(e);
            proof {
                crate::value::lemma_jentries_push(opre, ec);
            }
        }
        proof {
            let accnew = MsgScan { to: opt_jv(f_to), from: opt_jv(f_from), pp: opt_jv(f_pp), id: opt_jv(f_id), metadata: opt_jv(f_metadata), mime: opt_jv(f_mime), content: opt_jv(f_content), other: fields_view(other) };
            assert(accnew =~= msg_step(accpre, ev));
            assert((seq![ev] + jentries_of(rest@)).subrange(
                1,
                (seq![ev] + jentries_of(rest@)).len() as int,
            ) =~= jentries_of(rest@));
            assert(jentries_of(pre) == seq![ev] + jentries_of(rest@));
            assert(msg_scan(accpre, jentries_of(pre)) == msg_scan(accnew, jentries_of(rest@)));
        }
    }
    proof {
        assert(jentries_of(rest@) =~= Seq::<(Seq<char>, JVal)>::empty());
    }
    (f_to, f_from, f_pp, f_id, f_metadata, f_mime, f_content, other)
}

/// One pass over the fields, filling this variant's slots and the bucket,
/// exactly as the scan function says.
#[verifier::rlimit(60)]
fn run_ntf_scan(fields: Fields, take_reason: bool) -> (r: (Option<JsonValue>, Option<JsonValue>, Option<JsonValue>, Option<JsonValue>, Option<JsonValue>, Option<JsonValue>, Option<JsonValue>, Fields))
    ensures
        ({
            let a = ntf_scan(ntf_scan0(), fields_view(fields), take_reason);
            a.to == opt_jv(r.0) &&
            a.from == opt_jv(r.1) &&
            a.pp == opt_jv(r.2) &&
            a.id == opt_jv(r.3) &&
            a.metadata == opt_jv(r.4) &&
            a.event == opt_jv(r.5) &&
            a.reason == opt_jv(r.6) &&
            a.other == fields_view(r.7)
        }),
{
    let ghost fsv = fields_view(fields);
    let mut rest = fields;
    let mut f_to: Option<JsonValue> = None;
    let mut f_from: Option<JsonValue> = None;
    let mut f_pp: Option<JsonValue> = None;
    let mut f_id: Option<JsonValue> = None;
    let mut f_metadata: Option<JsonValue> = None;
    let mut f_event: Option<JsonValue> = None;
    let mut f_reason: Option<JsonValue> = None;
    let mut other: Fields = Vec::new();
    while rest.len() > 0
        invariant
            ntf_scan(NtfScan { to: opt_jv(f_to), from: opt_jv(f_from), pp: opt_jv(f_pp), id: opt_jv(f_id), metadata: opt_jv(f_metadata), event: opt_jv(f_event), reason: opt_jv(f_reason), other: fields_view(other) }, jentries_of(rest@), take_reason) == ntf_scan(ntf_scan0(), fsv, take_reason),
        decreases rest.len(),
    {
        let ghost pre = rest@;
        let ghost accpre = NtfScan { to: opt_jv(f_to), from: opt_jv(f_from), pp: opt_jv(f_pp), id: opt_jv(f_id), metadata: opt_jv(f_metadata), event: opt_jv(f_event), reason: opt_jv(f_reason), other: fields_view(other) };
        let e = rest.remove(0);
        proof {
            assert(pre.remove(0) =~= pre.subrange(1, pre.len() as int));
            assert(jentries_of(pre) == seq![(pre[0].0@, jval_of(pre[0].1))] + jentries_of(
                pre.subrange(1, pre.len() as int),
            ));
        }
        let ghost ev = (e.0@, jval_of(e.1));
        let is_to = str_eq(e.0.as_str(), "to");
        let is_from = str_eq(e.0.as_str(), "from");
        let is_pp = str_eq(e.0.as_str(), "pp");
        let is_id = str_eq(e.0.as_str(), "id");
        let is_metadata = str_eq(e.0.as_str(), "metadata");
        let is_event = str_eq(e.0.as_str(), "event");
        let is_reason = str_eq(e.0.as_str(), "reason");
        if is_to {
            if f_to.is_none() {
                f_to = Some(e.1);
            }
        } else if is_from {
            if f_from.is_none() {
                f_from = Some(e.1);
            }
        } else if is_pp {
            if f_pp.is_none() {
                f_pp = Some(e.1);
            }
        } else if is_id {
            if f_id.is_none() {
                f_id = Some(e.1);
            }
        } else if is_metadata {
            if f_metadata.is_none() {
                f_metadata = Some(e.1);
            }
        } else if is_event {
            if f_event.is_none() {
                f_event = Some(e.1);
            }
        } else if is_reason && take_reason {
            if f_reason.is_none() {
                f_reason = Some(e.1);
            }
        } else {
            let ghost opre = other@;
            let ghost ec = e;
            other.push(e);
            proof {
                crate::value::lemma_jentries_push(opre, ec);
            }
        }
        proof {
            let accnew = NtfScan { to: opt_jv(f_to), from: opt_jv(f_from), pp: opt_jv(f_pp), id: opt_jv(f_id), metadata: opt_jv(f_metadata), event: opt_jv(f_event), reason: opt_jv(f_reason), other: fields_view(other) };
            assert(accnew =~= ntf_step(accpre, ev, take_reason));
            assert((seq![ev] + jentries_of(rest@)).subrange(
                1,
                (seq![ev] + jentries_of(rest@)).len() as int,
            ) =~= jentries_of(rest@));
            assert(jentries_of(pre) == seq![ev] + jentries_of(rest@));
            assert(ntf_scan(accpre, jentries_of(pre), take_reason) == ntf_scan(accnew, jentries_of(rest@), take_reason));
        }
    }
    proof {
        assert(jentries_of(rest@) =~= Seq::<(Seq<char>, JVal)>::empty());
    }
    (f_to, f_from, f_pp, f_id, f_metadata, f_event, f_reason, other)
}

/// One pass over the fields, filling this variant's slots and the bucket,
/// exactly as the scan function says.
#[verifier::rlimit(60)]
fn run_cmd_scan(fields: Fields) -> (r: (Option<JsonValue>, Option<JsonValue>, Option<JsonValue>, Option<JsonValue>, Option<JsonValue>, Option<JsonValue>, Option<JsonValue>, Option<JsonValue>, Option<JsonValue>, Fields))
    ensures
        ({
            let a = cmd_scan(cmd_scan0(), fields_view(fields));
            a.to == opt_jv(r.0) &&
            a.from == opt_jv(r.1) &&
            a.pp == opt_jv(r.2) &&
            a.id == opt_jv(r.3) &&
            a.metadata == opt_jv(r.4) &&
            a.method == opt_jv(r.5) &&
            a.status == opt_jv(r.6) &&
            a.mime == opt_jv(r.7) &&
            a.uri == opt_jv(r.8) &&
            a.other == fields_view(r.9)
        }),
{
    let ghost fsv = fields_view(fields);
    let mut rest = fields;
    let mut f_to: Option<JsonValue> = None;
    let mut f_from: Option<JsonValue> = None;
    let mut f_pp: Option<JsonValue> = None;
    let mut f_id: Option<JsonValue> = None;
    let mut f_metadata: Option<JsonValue> = None;
    let mut f_method: Option<JsonValue> = None;
    let mut f_status: Option<JsonValue> = None;
    let mut f_mime: Option<JsonValue> = None;
    let mut f_uri: Option<JsonValue> = None;
    let mut other: Fields = Vec::new();
    while rest.len() > 0
        invariant
            cmd_scan(CmdScan { to: opt_jv(f_to), from: opt_jv(f_from), pp: opt_jv(f_pp), id: opt_jv(f_id), metadata: opt_jv(f_metadata), method: opt_jv(f_method), status: opt_jv(f_status), mime: opt_jv(f_mime), uri: opt_jv(f_uri), other: fields_view(other) }, jentries_of(rest@)) == cmd_scan(cmd_scan0(), fsv),
        decreases rest.len(),
    {
        let ghost pre = rest@;
        let ghost accpre = CmdScan { to: opt_jv(f_to), from: opt_jv(f_from), pp: opt_jv(f_pp), id: opt_jv(f_id), metadata: opt_jv(f_metadata), method: opt_jv(f_method), status: opt_jv(f_status), mime: opt_jv(f_mime), uri: opt_jv(f_uri), other: fields_view(other) };
        let e = rest.remove(0);
        proof {
            assert(pre.remove(0) =~= pre.subrange(1, pre.len() as int));
            assert(jentries_of(pre) == seq![(pre[0].0@, jval_of(pre[0].1))] + jentries_of(
                pre.subrange(1, pre.len() as int),
            ));
        }
        let ghost ev = (e.0@, jval_of(e.1));
        let is_to = str_eq(e.0.as_str(), "to");
        let is_from = str_eq(e.0.as_str(), "from");
        let is_pp = str_eq(e.0.as_str(), "pp");
        let is_id = str_eq(e.0.as_str(), "id");
        let is_metadata = str_eq(e.0.as_str(), "metadata");
        let is_method = str_eq(e.0.as_str(), "method");
        let is_status = str_eq(e.0.as_str(), "status");
        let is_mime = str_eq(e.0.as_str(), "type");
        let is_uri = str_eq(e.0.as_str(), "uri");
        if is_to {
            if f_to.is_none() {
                f_to = Some(e.1);
            }
        } else if is_from {
            if f_from.is_none() {
                f_from = Some(e.1);
            }
        } else if is_pp {
            if f_pp.is_none() {
                f_pp = Some(e.1);
            }
        } else if is_id {
            if f_id.is_none() {
                f_id = Some(e.1);
            }
        } else if is_metadata {
            if f_metadata.is_none() {
                f_metadata = Some(e.1);
            }
        } else if is_method {
            if f_method.is_none() {
                f_method = Some(e.1);
            }
        } else if is_status {
            if f_status.is_none() {
                f_status = Some(e.1);
            }
        } else if is_mime {
            if f_mime.is_none() {
                f_mime = Some(e.1);
            }
        } else if is_uri {
            if f_uri.is_none() {
                f_uri = Some(e.1);
            }
        } else {
            let ghost opre = other@;
            let ghost ec = e;
            other.push(e);
            proof {
                crate::value::lemma_jentries_push(opre, ec);
            }
        }
        proof {
            let accnew = CmdScan { to: opt_jv(f_to), from: opt_jv(f_from), pp: opt_jv(f_pp), id: opt_jv(f_id), metadata: opt_jv(f_metadata), method: opt_jv(f_method), status: opt_jv(f_status), mime: opt_jv(f_mime), uri: opt_jv(f_uri), other: fields_view(other) };
            assert(accnew =~= cmd_step(accpre, ev));
            assert((seq![ev] + jentries_of(rest@)).subrange(
                1,
                (seq![ev] + jentries_of(rest@)).len() as int,
            ) =~= jentries_of(rest@));
            assert(jentries_of(pre) == seq![ev] + jentries_of(rest@));
            assert(cmd_scan(accpre, jentries_of(pre)) == cmd_scan(accnew, jentries_of(rest@)));
        }
    }
    proof {
        assert(jentries_of(rest@) =~= Seq::<(Seq<char>, JVal)>::empty());
    }
    (f_to, f_from, f_pp, f_id, f_metadata, f_method, f_status, f_mime, f_uri, other)
}

/// One pass over the fields, filling this variant's slots and the bucket,
/// exactly as the scan function says.
#[verifier::rlimit(60)]
fn run_sreq_scan(fields: Fields) -> (r: (Option<JsonValue>, Option<JsonValue>, Option<JsonValue>, Option<JsonValue>, Option<JsonValue>, Option<JsonValue>, Option<JsonValue>, Option<JsonValue>, Option<JsonValue>, Fields))
    ensures
        ({
            let a = sreq_scan(sreq_scan0(), fields_view(fields));
            a.to == opt_jv(r.0) &&
            a.from == opt_jv(r.1) &&
            a.pp == opt_jv(r.2) &&
            a.id == opt_jv(r.3) &&
            a.metadata == opt_jv(r.4) &&
            a.state == opt_jv(r.5) &&
            a.eopts == opt_jv(r.6) &&
            a.copts == opt_jv(r.7) &&
            a.sopts == opt_jv(r.8) &&
            a.other == fields_view(r.9)
        }),
{
    let ghost fsv = fields_view(fields);
    let mut rest = fields;
    let mut f_to: Option<JsonValue> = None;
    let mut f_from: Option<JsonValue> = None;
    let mut f_pp: Option<JsonValue> = None;
    let mut f_id: Option<JsonValue> = None;
    let mut f_metadata: Option<JsonValue> = None;
    let mut f_state: Option<JsonValue> = None;
    let mut f_eopts: Option<JsonValue> = None;
    let mut f_copts: Option<JsonValue> = None;
    let mut f_sopts: Option<JsonValue> = None;
    let mut other: Fields = Vec::new();
    while rest.len() > 0
        invariant
            sreq_scan(SreqScan { to: opt_jv(f_to), from: opt_jv(f_from), pp: opt_jv(f_pp), id: opt_jv(f_id), metadata: opt_jv(f_metadata), state: opt_jv(f_state), eopts: opt_jv(f_eopts), copts: opt_jv(f_copts), sopts: opt_jv(f_sopts), other: fields_view(other) }, jentries_of(rest@)) == sreq_scan(sreq_scan0(), fsv),
        decreases rest.len(),
    {
        let ghost pre = rest@;
        let ghost accpre = SreqScan { to: opt_jv(f_to), from: opt_jv(f_from), pp: opt_jv(f_pp), id: opt_jv(f_id), metadata: opt_jv(f_metadata), state: opt_jv(f_state), eopts: opt_jv(f_eopts), copts: opt_jv(f_copts), sopts: opt_jv(f_sopts), other: fields_view(other) };
        let e = rest.remove(0);
        proof {
            assert(pre.remove(0) =~= pre.subrange(1, pre.len() as int));
            assert(jentries_of(pre) == seq![(pre[0].0@, jval_of(pre[0].1))] + jentries_of(
                pre.subrange(1, pre.len() as int),
            ));
        }
        let ghost ev = (e.0@, jval_of(e.1));
        let is_to = str_eq(e.0.as_str(), "to");
        let is_from = str_eq(e.0.as_str(), "from");
        let is_pp = str_eq(e.0.as_str(), "pp");
        let is_id = str_eq(e.0.as_str(), "id");
        let is_metadata = str_eq(e.0.as_str(), "metadata");
        let is_state = str_eq(e.0.as_str(), "state");
        let is_eopts = str_eq(e.0.as_str(), "encryptionOptions");
        let is_copts = str_eq(e.0.as_str(), "compressionOptions");
        let is_sopts = str_eq(e.0.as_str(), "schemeOptions");
        if is_to {
            if f_to.is_none() {
                f_to = Some(e.1);
            }
        } else if is_from {
            if f_from.is_none() {
                f_from = Some(e.1);
            }
        } else if is_pp {
            if f_pp.is_none() {
                f_pp = Some(e.1);
            }
        } else if is_id {
            if f_id.is_none() {
                f_id = Some(e.1);
            }
        } else if is_metadata {
            if f_metadata.is_none() {
                f_metadata = Some(e.1);
            }
        } else if is_state {
            if f_state.is_none() {
                f_state = Some(e.1);
            }
        } else if is_eopts {
            if f_eopts.is_none() {
                f_eopts = Some(e.1);
            }
        } else if is_copts {
            if f_copts.is_none() {
                f_copts = Some(e.1);
            }
        } else if is_sopts {
            if f_sopts.is_none() {
                f_sopts = Some(e.1);
            }
        } else {
            let ghost opre = other@;
            let ghost ec = e;
            other.push(e);
            proof {
                crate::value::lemma_jentries_push(opre, ec);
            }
        }
        proof {
            let accnew = SreqScan { to: opt_jv(f_to), from: opt_jv(f_from), pp: opt_jv(f_pp), id: opt_jv(f_id), metadata: opt_jv(f_metadata), state: opt_jv(f_state), eopts: opt_jv(f_eopts), copts: opt_jv(f_copts), sopts: opt_jv(f_sopts), other: fields_view(other) };
            assert(accnew =~= sreq_step(accpre, ev));
            assert((seq![ev] + jentries_of(rest@)).subrange(
                1,
                (seq![ev] + jentries_of(rest@)).len() as int,
            ) =~= jentries_of(rest@));
            assert(jentries_of(pre) == seq![ev] + jentries_of(rest@));
            assert(sreq_scan(accpre, jentries_of(pre)) == sreq_scan(accnew, jentries_of(rest@)));
        }
    }
    proof {
        assert(jentries_of(rest@) =~= Seq::<(Seq<char>, JVal)>::empty());
    }
    (f_to, f_from, f_pp, f_id, f_metadata, f_state, f_eopts, f_copts, f_sopts, other)
}

/// One pass over the fields, filling this variant's slots and the bucket,
/// exactly as the scan function says.
#[verifier::rlimit(60)]
fn run_sresp_scan(fields: Fields) -> (r: (Option<JsonValue>, Option<JsonValue>, Option<JsonValue>, Option<JsonValue>, Option<JsonValue>, Option<JsonValue>, Option<JsonValue>, Option<JsonValue>, Option<JsonValue>, Option<JsonValue>, Fields))
    ensures
        ({
            let a = sresp_scan(sresp_scan0(), fields_view(fields));
            a.to == opt_jv(r.0) &&
            a.from == opt_jv(r.1) &&
            a.pp == opt_jv(r.2) &&
            a.id == opt_jv(r.3) &&
            a.metadata == opt_jv(r.4) &&
            a.state == opt_jv(r.5) &&
            a.enc == opt_jv(r.6) &&
            a.cmp == opt_jv(r.7) &&
            a.sch == opt_jv(r.8) &&
            a.reason == opt_jv(r.9) &&
            a.other == fields_view(r.10)
        }),
{
    let ghost fsv = fields_view(fields);
    let mut rest = fields;
    let mut f_to: Option<JsonValue> = None;
    let mut f_from: Option<JsonValue> = None;
    let mut f_pp: Option<JsonValue> = None;
    let mut f_id: Option<JsonValue> = None;
    let mut f_metadata: Option<JsonValue> = None;
    let mut f_state: Option<JsonValue> = None;
    let mut f_enc: Option<JsonValue> = None;
    let mut f_cmp: Option<JsonValue> = None;
    let mut f_sch: Option<JsonValue> = None;
    let mut f_reason: Option<JsonValue> = None;
    let mut other: Fields = Vec::new();
    while rest.len() > 0
        invariant
            sresp_scan(SrespScan { to: opt_jv(f_to), from: opt_jv(f_from), pp: opt_jv(f_pp), id: opt_jv(f_id), metadata: opt_jv(f_metadata), state: opt_jv(f_state), enc: opt_jv(f_enc), cmp: opt_jv(f_cmp), sch: opt_jv(f_sch), reason: opt_jv(f_reason), other: fields_view(other) }, jentries_of(rest@)) == sresp_scan(sresp_scan0(), fsv),
        decreases rest.len(),
    {
        let ghost pre = rest@;
        let ghost accpre = SrespScan { to: opt_jv(f_to), from: opt_jv(f_from), pp: opt_jv(f_pp), id: opt_jv(f_id), metadata: opt_jv(f_metadata), state: opt_jv(f_state), enc: opt_jv(f_enc), cmp: opt_jv(f_cmp), sch: opt_jv(f_sch), reason: opt_jv(f_reason), other: fields_view(other) };
        let e = rest.remove(0);
        proof {
            assert(pre.remove(0) =~= pre.subrange(1, pre.len() as int));
            assert(jentries_of(pre) == seq![(pre[0].0@, jval_of(pre[0].1))] + jentries_of(
                pre.subrange(1, pre.len() as int),
            ));
        }
        let ghost ev = (e.0@, jval_of(e.1));
        let is_to = str_eq(e.0.as_str(), "to");
        let is_from = str_eq(e.0.as_str(), "from");
        let is_pp = str_eq(e.0.as_str(), "pp");
        let is_id = str_eq(e.0.as_str(), "id");
        let is_metadata = str_eq(e.0.as_str(), "metadata");
        let is_state = str_eq(e.0.as_str(), "state");
        let is_enc = str_eq(e.0.as_str(), "encryption");
        let is_cmp = str_eq(e.0.as_str(), "compression");
        let is_sch = str_eq(e.0.as_str(), "scheme");
        let is_reason = str_eq(e.0.as_str(), "reason");
        if is_to {
            if f_to.is_none() {
                f_to = Some(e.1);
            }
        } else if is_from {
            if f_from.is_none() {
                f_from = Some(e.1);
            }
        } else if is_pp {
            if f_pp.is_none() {
                f_pp = Some(e.1);
            }
        } else if is_id {
            if f_id.is_none() {
                f_id = Some(e.1);
            }
        } else if is_metadata {
            if f_metadata.is_none() {
                f_metadata = Some(e.1);
            }
        } else if is_state {
            if f_state.is_none() {
                f_state = Some(e.1);
            }
        } else if is_enc {
            if f_enc.is_none() {
                f_enc = Some(e.1);
            }
        } else if is_cmp {
            if f_cmp.is_none() {
                f_cmp = Some(e.1);
            }
        } else if is_sch {
            if f_sch.is_none() {
                f_sch = Some(e.1);
            }
        } else if is_reason {
            if f_reason.is_none() {
                f_reason = Some(e.1);
            }
        } else {
            let ghost opre = other@;
            let ghost ec = e;
            other.push(e);
            proof {
                crate::value::lemma_jentries_push(opre, ec);
            }
        }
        proof {
            let accnew = SrespScan { to: opt_jv(f_to), from: opt_jv(f_from), pp: opt_jv(f_pp), id: opt_jv(f_id), metadata: opt_jv(f_metadata), state: opt_jv(f_state), enc: opt_jv(f_enc), cmp: opt_jv(f_cmp), sch: opt_jv(f_sch), reason: opt_jv(f_reason), other: fields_view(other) };
            assert(accnew =~= sresp_step(accpre, ev));
            assert((seq![ev] + jentries_of(rest@)).subrange(
                1,
                (seq![ev] + jentries_of(rest@)).len() as int,
            ) =~= jentries_of(rest@));
            assert(jentries_of(pre) == seq![ev] + jentries_of(rest@));
            assert(sresp_scan(accpre, jentries_of(pre)) == sresp_scan(accnew, jentries_of(rest@)));
        }
    }
    proof {
        assert(jentries_of(rest@) =~= Seq::<(Seq<char>, JVal)>::empty());
    }
    (f_to, f_from, f_pp, f_id, f_metadata, f_state, f_enc, f_cmp, f_sch, f_reason, other)
}

fn decode_message(fields: Fields) -> (r: Result<Envelope, ProtocolError>)
    ensures
        match r {
            Ok(env) => spec_decode_message(fields_view(fields)) == Ok::<
                EnvelopeV,
                ProtocolError,
            >(env@),
            Err(er) => spec_decode_message(fields_view(fields)) == Err::<
                EnvelopeV,
                ProtocolError,
            >(er),
        },
{
    let ghost a = msg_scan(msg_scan0(), fields_view(fields));
    let (f_to, f_from, f_pp, f_id, f_md, f_mime, f_content, other) = run_msg_scan(fields);
    let to_s = match take_opt_str(f_to) {
        Ok(o) => o,
        Err(er) => {
            return Err(er);
        },
    };
    let from_s = match take_opt_str(f_from) {
        Ok(o) => o,
        Err(er) => {
            return Err(er);
        },
    };
    let pp_s = match take_opt_str(f_pp) {
        Ok(o) => o,
        Err(er) => {
            return Err(er);
        },
    };
    let id_o = match take_opt_u64(f_id) {
        Ok(o) => o,
        Err(er) => {
            return Err(er);
        },
    };
    let md_o = match take_opt_obj(f_md) {
        Ok(o) => o,
        Err(er) => {
            return Err(er);
        },
    };
    let mime_s = match f_mime {
        Some(JsonValue::Str(s)) => s,
        _ => {
            return Err(ProtocolError::MissingRequiredField);
        },
    };
    let content_v = match f_content {
        Some(c) => c,
        None => {
            return Err(ProtocolError::MissingRequiredField);
        },
    };
    let env = Envelope::Message(
        Message {
            to: to_s,
            from: from_s,
            pp: pp_s,
            id: id_o,
            metadata: md_o,
            mime_type: mime_s,
            content: content_v,
            other,
        },
    );
    proof {
        assert(spec_decode_message(fields_view(fields)) == Ok::<EnvelopeV, ProtocolError>(env@));
    }
    Ok(env)
}

fn decode_notification(fields: Fields) -> (r: Result<Envelope, ProtocolError>)
    ensures
        match r {
            Ok(env) => spec_decode_notification(fields_view(fields)) == Ok::<
                EnvelopeV,
                ProtocolError,
            >(env@),
            Err(er) => spec_decode_notification(fields_view(fields)) == Err::<
                EnvelopeV,
                ProtocolError,
            >(er),
        },
{
    let ghost fsv = fields_view(fields);
    let failed = match find_field(&fields, "event") {
        Some(JsonValue::Str(s)) => str_eq(s.as_str(), "failed"),
        _ => false,
    };
    proof {
        assert(failed == (first_val(fsv, "event"@) == Some(JVal::Str("failed"@))));
    }
    let ghost a = ntf_scan(ntf_scan0(), fsv, failed);
    let (f_to, f_from, f_pp, f_id, f_md, f_event, f_reason, other) = run_ntf_scan(fields, failed);
    let to_s = match take_opt_str(f_to) {
        Ok(o) => o,
        Err(er) => {
            return Err(er);
        },
    };
    let from_s = match take_opt_str(f_from) {
        Ok(o) => o,
        Err(er) => {
            return Err(er);
        },
    };
    let pp_s = match take_opt_str(f_pp) {
        Ok(o) => o,
        Err(er) => {
            return Err(er);
        },
    };
    let md_o = match take_opt_obj(f_md) {
        Ok(o) => o,
        Err(er) => {
            return Err(er);
        },
    };
    let id_v = match take_req_u64(f_id) {
        Ok(n) => n,
        Err(er) => {
            return Err(er);
        },
    };
    let event_e = match event_from(f_event, f_reason) {
        Some(e) => e,
        None => {
            return Err(ProtocolError::MissingRequiredField);
        },
    };
    let env = Envelope::Notification(
        Notification {
            to: to_s,
            from: from_s,
            pp: pp_s,
            id: id_v,
            metadata: md_o,
            event: event_e,
            other,
        },
    );
    proof {
        assert(spec_decode_notification(fsv) == Ok::<EnvelopeV, ProtocolError>(env@));
    }
    Ok(env)
}

fn decode_command(fields: Fields) -> (r: Result<Envelope, ProtocolError>)
    ensures
        match r {
            Ok(env) => spec_decode_command(fields_view(fields)) == Ok::<
                EnvelopeV,
                ProtocolError,
            >(env@),
            Err(er) => spec_decode_command(fields_view(fields)) == Err::<
                EnvelopeV,
                ProtocolError,
            >(er),
        },
{
    let ghost a = cmd_scan(cmd_scan0(), fields_view(fields));
    let (f_to, f_from, f_pp, f_id, f_md, f_method, f_status, f_mime, f_uri, other) = run_cmd_scan(
        fields,
    );
    let to_s = match take_opt_str(f_to) {
        Ok(o) => o,
        Err(er) => {
            return Err(er);
        },
    };
    let from_s = match take_opt_str(f_from) {
        Ok(o) => o,
        Err(er) => {
            return Err(er);
        },
    };
    let pp_s = match take_opt_str(f_pp) {
        Ok(o) => o,
        Err(er) => {
            return Err(er);
        },
    };
    let id_o = match take_opt_u64(f_id) {
        Ok(o) => o,
        Err(er) => {
            return Err(er);
        },
    };
    let md_o = match take_opt_obj(f_md) {
        Ok(o) => o,
        Err(er) => {
            return Err(er);
        },
    };
    let method_s = match f_method {
        Some(JsonValue::Str(s)) => s,
        _ => {
            return Err(ProtocolError::MissingRequiredField);
        },
    };
    let status_s = match take_opt_str(f_status) {
        Ok(o) => o,
        Err(er) => {
            return Err(er);
        },
    };
    let mime_s = match take_opt_str(f_mime) {
        Ok(o) => o,
        Err(er) => {
            return Err(er);
        },
    };
    let uri_s = match take_opt_str(f_uri) {
        Ok(o) => o,
        Err(er) => {
            return Err(er);
        },
    };
    let env = Envelope::Command(
        Command {
            to: to_s,
            from: from_s,
            pp: pp_s,
            id: id_o,
            metadata: md_o,
            method: method_s,
            status: status_s,
            mime_type: mime_s,
            uri: uri_s,
            other,
        },
    );
    proof {
        assert(spec_decode_command(fields_view(fields)) == Ok::<EnvelopeV, ProtocolError>(env@));
    }
    Ok(env)
}

fn decode_session_request(fields: Fields) -> (r: Result<Envelope, ProtocolError>)
    ensures
        match r {
            Ok(env) => spec_decode_session_request(fields_view(fields)) == Ok::<
                EnvelopeV,
                ProtocolError,
            >(env@),
            Err(er) => spec_decode_session_request(fields_view(fields)) == Err::<
                EnvelopeV,
                ProtocolError,
            >(er),
        },
{
    let ghost a = sreq_scan(sreq_scan0(), fields_view(fields));
    let (f_to, f_from, f_pp, f_id, f_md, f_state, f_eo, f_co, f_so, other) = run_sreq_scan(fields);
    let to_s = match take_opt_str(f_to) {
        Ok(o) => o,
        Err(er) => {
            return Err(er);
        },
    };
    let from_s = match take_opt_str(f_from) {
        Ok(o) => o,
        Err(er) => {
            return Err(er);
        },
    };
    let pp_s = match take_opt_str(f_pp) {
        Ok(o) => o,
        Err(er) => {
            return Err(er);
        },
    };
    let md_o = match take_opt_obj(f_md) {
        Ok(o) => o,
        Err(er) => {
            return Err(er);
        },
    };
    let id_v = match take_req_u64(f_id) {
        Ok(n) => n,
        Err(er) => {
            return Err(er);
        },
    };
    let st = match state_from(f_state) {
        Some(s) => s,
        None => {
            return Err(ProtocolError::MissingRequiredField);
        },
    };
    let eo = match opts_from(f_eo) {
        Ok(o) => o,
        Err(er) => {
            return Err(er);
        },
    };
    let co = match opts_from(f_co) {
        Ok(o) => o,
        Err(er) => {
            return Err(er);
        },
    };
    let so = match opts_from(f_so) {
        Ok(o) => o,
        Err(er) => {
            return Err(er);
        },
    };
    let env = Envelope::SessionRequest(
        SessionRequest {
            to: to_s,
            from: from_s,
            pp: pp_s,
            id: id_v,
            metadata: md_o,
            state: st,
            encryption_options: eo,
            compression_options: co,
            scheme_options: so,
            other,
        },
    );
    proof {
        assert(spec_decode_session_request(fields_view(fields)) == Ok::<
            EnvelopeV,
            ProtocolError,
        >(env@));
    }
    Ok(env)
}

fn decode_session_response(fields: Fields) -> (r: Result<Envelope, ProtocolError>)
    ensures
        match r {
            Ok(env) => spec_decode_session_response(fields_view(fields)) == Ok::<
                EnvelopeV,
                ProtocolError,
            >(env@),
            Err(er) => spec_decode_session_response(fields_view(fields)) == Err::<
                EnvelopeV,
                ProtocolError,
            >(er),
        },
{
    let ghost a = sresp_scan(sresp_scan0(), fields_view(fields));
    let (f_to, f_from, f_pp, f_id, f_md, f_state, f_enc, f_cmp, f_sch, f_reason, other) =
        run_sresp_scan(fields);
    let to_s = match take_opt_str(f_to) {
        Ok(o) => o,
        Err(er) => {
            return Err(er);
        },
    };
    let from_s = match take_opt_str(f_from) {
        Ok(o) => o,
        Err(er) => {
            return Err(er);
        },
    };
    let pp_s = match take_opt_str(f_pp) {
        Ok(o) => o,
        Err(er) => {
            return Err(er);
        },
    };
    let md_o = match take_opt_obj(f_md) {
        Ok(o) => o,
        Err(er) => {
            return Err(er);
        },
    };
    let id_v = match take_req_u64(f_id) {
        Ok(n) => n,
        Err(er) => {
            return Err(er);
        },
    };
    let st = match state_from(f_state) {
        Some(s) => s,
        None => {
            return Err(ProtocolError::MissingRequiredField);
        },
    };
    let enc_s = match take_opt_str(f_enc) {
        Ok(o) => o,
        Err(er) => {
            return Err(er);
        },
    };
    let cmp_s = match take_opt_str(f_cmp) {
        Ok(o) => o,
        Err(er) => {
            return Err(er);
        },
    };
    let sch_s = match take_opt_str(f_sch) {
        Ok(o) => o,
        Err(er) => {
            return Err(er);
        },
    };
    let rsn: Option<Reason> = match f_reason {
        None => None,
        Some(rv) => match reason_from(&rv) {
            Some(re) => Some(re),
            None => {
                return Err(ProtocolError::MissingRequiredField);
            },
        },
    };
    let env = Envelope::SessionResponse(
        SessionResponse {
            to: to_s,
            from: from_s,
            pp: pp_s,
            id: id_v,
            metadata: md_o,
            state: st,
            encryption: enc_s,
            compression: cmp_s,
            scheme: sch_s,
            reason: rsn,
            other,
        },
    );
    proof {
        assert(spec_decode_session_response(fields_view(fields)) == Ok::<
            EnvelopeV,
            ProtocolError,
        >(env@));
    }
    Ok(env)
}

fn decode_session(fields: Fields) -> (r: Result<Envelope, ProtocolError>)
    ensures
        match r {
            Ok(env) => spec_decode_session(fields_view(fields)) == Ok::<
                EnvelopeV,
                ProtocolError,
            >(env@),
            Err(er) => spec_decode_session(fields_view(fields)) == Err::<
                EnvelopeV,
                ProtocolError,
            >(er),
        },
{
    let r1 = find_field(&fields, "encryption").is_some();
    let r2 = find_field(&fields, "compression").is_some();
    let r3 = find_field(&fields, "scheme").is_some();
    let r4 = find_field(&fields, "reason").is_some();
    let q1 = find_field(&fields, "encryptionOptions").is_some();
    let q2 = find_field(&fields, "compressionOptions").is_some();
    let q3 = find_field(&fields, "schemeOptions").is_some();
    let is_resp = r1 || r2 || r3 || r4;
    let is_req = q1 || q2 || q3;
    if is_resp && is_req {
        Err(ProtocolError::AmbiguousFrame)
    } else if is_resp {
        decode_session_response(fields)
    } else {
        decode_session_request(fields)
    }
}

/// Applies the discrimination rule to a generic field-set: two or more
/// indicator groups present is `AmbiguousFrame`, never a silent pick; none
/// present falls back to `Unknown` with the field-set kept verbatim; exactly
/// one selects the variant, whose required fields must then be present and
/// well-shaped or the frame is `MissingRequiredField`.
pub fn decode(fields: Fields) -> (r: Result<Envelope, ProtocolError>)
    ensures
        match r {
            Ok(env) => spec_decode(fields_view(fields)) == Ok::<EnvelopeV, ProtocolError>(env@),
            Err(er) => spec_decode(fields_view(fields)) == Err::<EnvelopeV, ProtocolError>(er),
        },
{
    let has_c = find_field(&fields, "content").is_some();
    let has_e = find_field(&fields, "event").is_some();
    let has_m = find_field(&fields, "method").is_some();
    let has_s = find_field(&fields, "state").is_some();
    let n: u32 = (if has_c {
        1
    } else {
        0
    }) + (if has_e {
        1
    } else {
        0
    }) + (if has_m {
        1
    } else {
        0
    }) + (if has_s {
        1
    } else {
        0
    });
    if n >= 2 {
        return Err(ProtocolError::AmbiguousFrame);
    }
    if has_c {
        decode_message(fields)
    } else if has_e {
        decode_notification(fields)
    } else if has_m {
        decode_command(fields)
    } else if has_s {
        decode_session(fields)
    } else {
        Ok(Envelope::Unknown(fields))
    }
}

} // verus!
