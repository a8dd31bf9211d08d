//! The round-trip law: decoding a serialized envelope yields the envelope
//! back, for every well-formed envelope.
//!
//! Well-formedness asks only what re-decoding forces: the preserved `other`
//! fields must not use names the variant's own serialization would claim,
//! and a session response must carry at least one of the fields that tell
//! it from a request.

use crate::decode::{
    cmd_scan, cmd_scan0, cmd_step, event_of_scan, indicator_count, msg_scan, msg_scan0, msg_step, ntf_scan,
    ntf_scan0, ntf_step, opt_obj_val, opt_str_val, opt_u64_val, opts_val, parse_reason,
    req_str_val, req_u64_val, session_is_request, session_is_response, spec_decode,
    spec_decode_command, spec_decode_message, spec_decode_notification, spec_decode_session,
    spec_decode_session_request, spec_decode_session_response, sreq_scan, sreq_scan0, sreq_step,
    sresp_scan, sresp_scan0, sresp_step, state_of_name, state_of_slot, strs_of, CmdScan, MsgScan,
    NtfScan, SreqScan, SrespScan,
};
use crate::envelope::{
    common_entries, event_entries, event_name, opt_obj_entry, opt_reason_entry, opt_str_entry,
    opt_strs_entry, opt_u64_entry, reason_jv, spec_encode, spec_encode_command,
    spec_encode_message, spec_encode_notification, spec_encode_session_request,
    spec_encode_session_response, state_name, strs_jv, CommandV, EnvelopeV, EventV, MessageV,
    NotificationV, ProtocolError, ReasonV, SessionRequestV, SessionResponseV, SessionState,
};
use crate::value::{first_val, has_field, FieldsV, JVal};
use vstd::prelude::*;

verus! {

pub proof fn lemma_has_field_concat(a: FieldsV, b: FieldsV, k: Seq<char>)
    ensures
        has_field(a + b, k) == (has_field(a, k) || has_field(b, k)),
{
    if has_field(a, k) {
        let i = choose|i: int| 0 <= i < a.len() && a[i].0 == k;
        assert((a + b)[i] == a[i]);
        assert(has_field(a + b, k));
    }
    if has_field(b, k) {
        let i = choose|i: int| 0 <= i < b.len() && b[i].0 == k;
        assert((a + b)[a.len() + i] == b[i]);
        assert(has_field(a + b, k));
    }
    if has_field(a + b, k) {
        let i = choose|i: int| 0 <= i < (a + b).len() && (a + b)[i].0 == k;
        if i < a.len() {
            assert(a[i] == (a + b)[i]);
            assert(has_field(a, k));
        } else {
            assert(b[i - a.len()] == (a + b)[i]);
            assert(has_field(b, k));
        }
    }
}

pub proof fn lemma_first_val_concat(a: FieldsV, b: FieldsV, k: Seq<char>)
    ensures
        first_val(a + b, k) == (if has_field(a, k) {
            first_val(a, k)
        } else {
            first_val(b, k)
        }),
    decreases a.len(),
{
    if a.len() == 0 {
        assert(a + b =~= b);
        if has_field(a, k) {
            let i = choose|i: int| 0 <= i < a.len() && a[i].0 == k;
        }
    } else {
        let t = a.subrange(1, a.len() as int);
        lemma_first_val_concat(t, b, k);
        assert((a + b).subrange(1, (a + b).len() as int) =~= t + b);
        if a[0].0 == k {
            assert(has_field(a, k));
        } else {
            // presence in a is presence in its tail
            if has_field(a, k) {
                let i = choose|i: int| 0 <= i < a.len() && a[i].0 == k;
                assert(t[i - 1] == a[i]);
                assert(has_field(t, k));
            }
            if has_field(t, k) {
                let i = choose|i: int| 0 <= i < t.len() && t[i].0 == k;
                assert(a[i + 1] == t[i]);
                assert(has_field(a, k));
            }
        }
    }
}

pub proof fn lemma_has_field_single(n: Seq<char>, v: JVal, k: Seq<char>)
    ensures
        has_field(seq![(n, v)], k) == (n == k),
        !has_field(Seq::<(Seq<char>, JVal)>::empty(), k),
{
    if n == k {
        assert(seq![(n, v)][0].0 == k);
        assert(has_field(seq![(n, v)], k));
    }
    if has_field(seq![(n, v)], k) {
        let i = choose|i: int| 0 <= i < 1 && seq![(n, v)][i].0 == k;
        assert(n == k);
    }
    if has_field(Seq::<(Seq<char>, JVal)>::empty(), k) {
        let i = choose|i: int| 0 <= i < 0 && Seq::<(Seq<char>, JVal)>::empty()[i].0 == k;
    }
}


pub proof fn lemma_has_field_opt_str(n: Seq<char>, o: Option<Seq<char>>, k: Seq<char>)
    ensures
        has_field(opt_str_entry(n, o), k) == (o is Some && n == k),
{
    match o {
        Some(s) => {
            lemma_has_field_single(n, JVal::Str(s), k);
        },
        None => {
            lemma_has_field_single(n, JVal::Null, k);
        },
    }
}

pub proof fn lemma_has_field_opt_strs(n: Seq<char>, o: Option<Seq<Seq<char>>>, k: Seq<char>)
    ensures
        has_field(opt_strs_entry(n, o), k) == (o is Some && n == k),
{
    match o {
        Some(ss) => {
            lemma_has_field_single(n, strs_jv(ss), k);
        },
        None => {
            lemma_has_field_single(n, JVal::Null, k);
        },
    }
}

pub proof fn lemma_has_field_opt_reason(n: Seq<char>, o: Option<ReasonV>, k: Seq<char>)
    ensures
        has_field(opt_reason_entry(n, o), k) == (o is Some && n == k),
{
    match o {
        Some(r) => {
            lemma_has_field_single(n, reason_jv(r), k);
        },
        None => {
            lemma_has_field_single(n, JVal::Null, k);
        },
    }
}

/// Names the serialization of the shared leading fields can use.
pub open spec fn is_common_name(k: Seq<char>) -> bool {
    k == "to"@ || k == "from"@ || k == "pp"@ || k == "id"@ || k == "metadata"@
}


/// Every name the common prefix carries is one of the five common names.
pub proof fn lemma_common_names(
    to: Option<Seq<char>>,
    from: Option<Seq<char>>,
    pp: Option<Seq<char>>,
    id: Option<u64>,
    md: Option<FieldsV>,
)
    ensures
        forall|i: int|
            0 <= i < common_entries(to, from, pp, id, md).len() ==> is_common_name(
                #[trigger] common_entries(to, from, pp, id, md)[i].0,
            ),
{
}

pub proof fn lemma_strs_of_map(ss: Seq<Seq<char>>)
    ensures
        strs_of(ss.map_values(|s: Seq<char>| JVal::Str(s))) == Some(ss),
    decreases ss.len(),
{
    let m = ss.map_values(|s: Seq<char>| JVal::Str(s));
    if ss.len() == 0 {
        assert(m.len() == 0);
        assert(strs_of(m) == Some(Seq::<Seq<char>>::empty()));
        assert(Seq::<Seq<char>>::empty() =~= ss);
    } else {
        let t = ss.subrange(1, ss.len() as int);
        lemma_strs_of_map(t);
        assert(m.subrange(1, m.len() as int) =~= t.map_values(|s: Seq<char>| JVal::Str(s)));
        assert(m[0] == JVal::Str(ss[0]));
        assert(seq![ss[0]] + t =~= ss);
    }
}

pub proof fn lemma_parse_reason_roundtrip(r: ReasonV)
    ensures
        parse_reason(reason_jv(r)) == Some(r),
{
    reveal_strlit("code");
    reveal_strlit("description");
    assert("code"@.len() == 4);
    assert("description"@.len() == 11);
    let fs = seq![("code"@, JVal::UInt(r.code as u64))] + opt_str_entry(
        "description"@,
        r.description,
    );
    match r.description {
        Some(d) => {
            assert(fs.len() == 2);
            assert(fs[0] == ("code"@, JVal::UInt(r.code as u64)));
            assert(fs[1] == ("description"@, JVal::Str(d)));
            assert(fs.subrange(1, 2) =~= seq![("description"@, JVal::Str(d))]);
            assert(first_val(fs, "code"@) == Some(JVal::UInt(r.code as u64)));
            assert(fs.subrange(1, 2).subrange(1, 1) =~= Seq::<(Seq<char>, JVal)>::empty());
            assert(fs.subrange(1, 2)[0] == ("description"@, JVal::Str(d)));
            assert(first_val(fs.subrange(1, 2), "description"@) == Some(JVal::Str(d)));
            assert(fs[0].0 != "description"@);
            assert(fs.subrange(1, fs.len() as int) =~= fs.subrange(1, 2));
            assert(first_val(fs, "description"@) == Some(JVal::Str(d)));
            assert(parse_reason(reason_jv(r)) == Some(r));
        },
        None => {
            assert(fs =~= seq![("code"@, JVal::UInt(r.code as u64))]);
            assert(fs.subrange(1, 1) =~= Seq::<(Seq<char>, JVal)>::empty());
            assert(first_val(fs, "code"@) == Some(JVal::UInt(r.code as u64)));
            assert(first_val(fs.subrange(1, 1), "description"@) is None);
            assert(fs[0].0 != "description"@);
            assert(fs.subrange(1, fs.len() as int) =~= fs.subrange(1, 1));
            assert(first_val(fs, "description"@) is None);
            assert(parse_reason(reason_jv(r)) == Some(r));
        },
    }
}


pub proof fn lemma_msg_scan_concat(a: MsgScan, x: FieldsV, y: FieldsV)
    ensures
        msg_scan(a, x + y) == msg_scan(msg_scan(a, x), y),
    decreases x.len(),
{
    if x.len() == 0 {
        assert(x + y =~= y);
        assert(msg_scan(a, x) == a);
    } else {
        let t = x.subrange(1, x.len() as int);
        assert((x + y).subrange(1, (x + y).len() as int) =~= t + y);
        assert((x + y)[0] == x[0]);
        lemma_msg_scan_concat(msg_step(a, x[0]), t, y);
    }
}

pub proof fn lemma_msg_scan_single(a: MsgScan, e: (Seq<char>, JVal))
    ensures
        msg_scan(a, seq![e]) == msg_step(a, e),
{
    assert(seq![e].subrange(1, 1) =~= Seq::<(Seq<char>, JVal)>::empty());
    assert(msg_scan(msg_step(a, e), seq![e].subrange(1, 1)) == msg_step(a, e));
}


pub open spec fn is_msg_taken(k: Seq<char>) -> bool {
    k == "to"@ || k == "from"@ || k == "pp"@ || k == "id"@ || k == "metadata"@ || k == "type"@ || k == "content"@
}

pub proof fn lemma_msg_scan_bucket(a: MsgScan, fs: FieldsV)
    requires
        forall|i: int| 0 <= i < fs.len() ==> !is_msg_taken(#[trigger] fs[i].0),
    ensures
        msg_scan(a, fs) == (MsgScan { other: a.other + fs, ..a }),
    decreases fs.len(),
{
    if fs.len() == 0 {
        assert(a.other + fs =~= a.other);
        assert(msg_scan(a, fs) =~= MsgScan { other: a.other + fs, ..a });
    } else {
        let t = fs.subrange(1, fs.len() as int);
        assert(!is_msg_taken(fs[0].0));
        let a1 = msg_step(a, fs[0]);
        assert(a1 =~= MsgScan { other: a.other.push(fs[0]), ..a });
        assert(forall|i: int| 0 <= i < t.len() ==> t[i] == fs[i + 1]);
        lemma_msg_scan_bucket(a1, t);
        assert(a.other.push(fs[0]) + t =~= a.other + fs);
        assert(msg_scan(a, fs) =~= MsgScan { other: a.other + fs, ..a });
    }
}


pub proof fn lemma_ntf_scan_concat(a: NtfScan, x: FieldsV, y: FieldsV, tr: bool)
    ensures
        ntf_scan(a, x + y, tr) == ntf_scan(ntf_scan(a, x, tr), y, tr),
    decreases x.len(),
{
    if x.len() == 0 {
        assert(x + y =~= y);
        assert(ntf_scan(a, x, tr) == a);
    } else {
        let t = x.subrange(1, x.len() as int);
        assert((x + y).subrange(1, (x + y).len() as int) =~= t + y);
        assert((x + y)[0] == x[0]);
        lemma_ntf_scan_concat(ntf_step(a, x[0], tr), t, y, tr);
    }
}

pub proof fn lemma_ntf_scan_single(a: NtfScan, e: (Seq<char>, JVal), tr: bool)
    ensures
        ntf_scan(a, seq![e], tr) == ntf_step(a, e, tr),
{
    assert(seq![e].subrange(1, 1) =~= Seq::<(Seq<char>, JVal)>::empty());
    assert(ntf_scan(ntf_step(a, e, tr), seq![e].subrange(1, 1), tr) == ntf_step(a, e, tr));
}


pub open spec fn is_ntf_taken(k: Seq<char>, tr: bool) -> bool {
    k == "to"@ || k == "from"@ || k == "pp"@ || k == "id"@ || k == "metadata"@ || k == "event"@ || (k == "reason"@ && tr)
}

pub proof fn lemma_ntf_scan_bucket(a: NtfScan, fs: FieldsV, tr: bool)
    requires
        forall|i: int| 0 <= i < fs.len() ==> !is_ntf_taken(#[trigger] fs[i].0, tr),
    ensures
        ntf_scan(a, fs, tr) == (NtfScan { other: a.other + fs, ..a }),
    decreases fs.len(),
{
    if fs.len() == 0 {
        assert(a.other + fs =~= a.other);
        assert(ntf_scan(a, fs, tr) =~= NtfScan { other: a.other + fs, ..a });
    } else {
        let t = fs.subrange(1, fs.len() as int);
        assert(!is_ntf_taken(fs[0].0, tr));
        let a1 = ntf_step(a, fs[0], tr);
        assert(a1 =~= NtfScan { other: a.other.push(fs[0]), ..a });
        assert(forall|i: int| 0 <= i < t.len() ==> t[i] == fs[i + 1]);
        lemma_ntf_scan_bucket(a1, t, tr);
        assert(a.other.push(fs[0]) + t =~= a.other + fs);
        assert(ntf_scan(a, fs, tr) =~= NtfScan { other: a.other + fs, ..a });
    }
}


pub proof fn lemma_cmd_scan_concat(a: CmdScan, x: FieldsV, y: FieldsV)
    ensures
        cmd_scan(a, x + y) == cmd_scan(cmd_scan(a, x), y),
    decreases x.len(),
{
    if x.len() == 0 {
        assert(x + y =~= y);
        assert(cmd_scan(a, x) == a);
    } else {
        let t = x.subrange(1, x.len() as int);
        assert((x + y).subrange(1, (x + y).len() as int) =~= t + y);
        assert((x + y)[0] == x[0]);
        lemma_cmd_scan_concat(cmd_step(a, x[0]), t, y);
    }
}

pub proof fn lemma_cmd_scan_single(a: CmdScan, e: (Seq<char>, JVal))
    ensures
        cmd_scan(a, seq![e]) == cmd_step(a, e),
{
    assert(seq![e].subrange(1, 1) =~= Seq::<(Seq<char>, JVal)>::empty());
    assert(cmd_scan(cmd_step(a, e), seq![e].subrange(1, 1)) == cmd_step(a, e));
}


pub open spec fn is_cmd_taken(k: Seq<char>) -> bool {
    k == "to"@ || k == "from"@ || k == "pp"@ || k == "id"@ || k == "metadata"@ || k == "method"@ || k == "status"@ || k == "type"@ || k == "uri"@
}

pub proof fn lemma_cmd_scan_bucket(a: CmdScan, fs: FieldsV)
    requires
        forall|i: int| 0 <= i < fs.len() ==> !is_cmd_taken(#[trigger] fs[i].0),
    ensures
        cmd_scan(a, fs) == (CmdScan { other: a.other + fs, ..a }),
    decreases fs.len(),
{
    if fs.len() == 0 {
        assert(a.other + fs =~= a.other);
        assert(cmd_scan(a, fs) =~= CmdScan { other: a.other + fs, ..a });
    } else {
        let t = fs.subrange(1, fs.len() as int);
        assert(!is_cmd_taken(fs[0].0));
        let a1 = cmd_step(a, fs[0]);
        assert(a1 =~= CmdScan { other: a.other.push(fs[0]), ..a });
        assert(forall|i: int| 0 <= i < t.len() ==> t[i] == fs[i + 1]);
        lemma_cmd_scan_bucket(a1, t);
        assert(a.other.push(fs[0]) + t =~= a.other + fs);
        assert(cmd_scan(a, fs) =~= CmdScan { other: a.other + fs, ..a });
    }
}


pub proof fn lemma_sreq_scan_concat(a: SreqScan, x: FieldsV, y: FieldsV)
    ensures
        sreq_scan(a, x + y) == sreq_scan(sreq_scan(a, x), y),
    decreases x.len(),
{
    if x.len() == 0 {
        assert(x + y =~= y);
        assert(sreq_scan(a, x) == a);
    } else {
        let t = x.subrange(1, x.len() as int);
        assert((x + y).subrange(1, (x + y).len() as int) =~= t + y);
        assert((x + y)[0] == x[0]);
        lemma_sreq_scan_concat(sreq_step(a, x[0]), t, y);
    }
}

pub proof fn lemma_sreq_scan_single(a: SreqScan, e: (Seq<char>, JVal))
    ensures
        sreq_scan(a, seq![e]) == sreq_step(a, e),
{
    assert(seq![e].subrange(1, 1) =~= Seq::<(Seq<char>, JVal)>::empty());
    assert(sreq_scan(sreq_step(a, e), seq![e].subrange(1, 1)) == sreq_step(a, e));
}


pub open spec fn is_sreq_taken(k: Seq<char>) -> bool {
    k == "to"@ || k == "from"@ || k == "pp"@ || k == "id"@ || k == "metadata"@ || k == "state"@ || k == "encryptionOptions"@ || k == "compressionOptions"@ || k == "schemeOptions"@
}

pub proof fn lemma_sreq_scan_bucket(a: SreqScan, fs: FieldsV)
    requires
        forall|i: int| 0 <= i < fs.len() ==> !is_sreq_taken(#[trigger] fs[i].0),
    ensures
        sreq_scan(a, fs) == (SreqScan { other: a.other + fs, ..a }),
    decreases fs.len(),
{
    if fs.len() == 0 {
        assert(a.other + fs =~= a.other);
        assert(sreq_scan(a, fs) =~= SreqScan { other: a.other + fs, ..a });
    } else {
        let t = fs.subrange(1, fs.len() as int);
        assert(!is_sreq_taken(fs[0].0));
        let a1 = sreq_step(a, fs[0]);
        assert(a1 =~= SreqScan { other: a.other.push(fs[0]), ..a });
        assert(forall|i: int| 0 <= i < t.len() ==> t[i] == fs[i + 1]);
        lemma_sreq_scan_bucket(a1, t);
        assert(a.other.push(fs[0]) + t =~= a.other + fs);
        assert(sreq_scan(a, fs) =~= SreqScan { other: a.other + fs, ..a });
    }
}


pub proof fn lemma_sresp_scan_concat(a: SrespScan, x: FieldsV, y: FieldsV)
    ensures
        sresp_scan(a, x + y) == sresp_scan(sresp_scan(a, x), y),
    decreases x.len(),
{
    if x.len() == 0 {
        assert(x + y =~= y);
        assert(sresp_scan(a, x) == a);
    } else {
        let t = x.subrange(1, x.len() as int);
        assert((x + y).subrange(1, (x + y).len() as int) =~= t + y);
        assert((x + y)[0] == x[0]);
        lemma_sresp_scan_concat(sresp_step(a, x[0]), t, y);
    }
}

pub proof fn lemma_sresp_scan_single(a: SrespScan, e: (Seq<char>, JVal))
    ensures
        sresp_scan(a, seq![e]) == sresp_step(a, e),
{
    assert(seq![e].subrange(1, 1) =~= Seq::<(Seq<char>, JVal)>::empty());
    assert(sresp_scan(sresp_step(a, e), seq![e].subrange(1, 1)) == sresp_step(a, e));
}


pub open spec fn is_sresp_taken(k: Seq<char>) -> bool {
    k == "to"@ || k == "from"@ || k == "pp"@ || k == "id"@ || k == "metadata"@ || k == "state"@ || k == "encryption"@ || k == "compression"@ || k == "scheme"@ || k == "reason"@
}

pub proof fn lemma_sresp_scan_bucket(a: SrespScan, fs: FieldsV)
    requires
        forall|i: int| 0 <= i < fs.len() ==> !is_sresp_taken(#[trigger] fs[i].0),
    ensures
        sresp_scan(a, fs) == (SrespScan { other: a.other + fs, ..a }),
    decreases fs.len(),
{
    if fs.len() == 0 {
        assert(a.other + fs =~= a.other);
        assert(sresp_scan(a, fs) =~= SrespScan { other: a.other + fs, ..a });
    } else {
        let t = fs.subrange(1, fs.len() as int);
        assert(!is_sresp_taken(fs[0].0));
        let a1 = sresp_step(a, fs[0]);
        assert(a1 =~= SrespScan { other: a.other.push(fs[0]), ..a });
        assert(forall|i: int| 0 <= i < t.len() ==> t[i] == fs[i + 1]);
        lemma_sresp_scan_bucket(a1, t);
        assert(a.other.push(fs[0]) + t =~= a.other + fs);
        assert(sresp_scan(a, fs) =~= SrespScan { other: a.other + fs, ..a });
    }
}

pub open spec fn slot_str(o: Option<Seq<char>>) -> Option<JVal> {
    match o {
        Some(s) => Some(JVal::Str(s)),
        None => None,
    }
}

pub open spec fn slot_u64(o: Option<u64>) -> Option<JVal> {
    match o {
        Some(n) => Some(JVal::UInt(n)),
        None => None,
    }
}

pub open spec fn slot_obj(o: Option<FieldsV>) -> Option<JVal> {
    match o {
        Some(f) => Some(JVal::Obj(f)),
        None => None,
    }
}

/// A field whose presence discriminates the frame.
pub open spec fn is_indicator(k: Seq<char>) -> bool {
    k == "content"@ || k == "event"@ || k == "method"@ || k == "state"@
}

/// The preserved fields of a message may use any names its own
/// serialization and the discrimination rule do not claim.
pub open spec fn wf_message(m: MessageV) -> bool {
    forall|i: int|
        0 <= i < m.other.len() ==> !(is_msg_taken(#[trigger] m.other[i].0) || is_indicator(
            m.other[i].0,
        ))
}

/// Round-trip for messages: decoding a serialized message yields it back.
#[verifier::rlimit(100)]
pub proof fn lemma_round_trip_message(m: MessageV)
    requires
        wf_message(m),
    ensures
        spec_decode(spec_encode_message(m)) == Ok::<EnvelopeV, ProtocolError>(
            EnvelopeV::Message(m),
        ),
{
    reveal_strlit("to");
    reveal_strlit("from");
    reveal_strlit("pp");
    reveal_strlit("id");
    reveal_strlit("metadata");
    reveal_strlit("type");
    reveal_strlit("content");
    reveal_strlit("event");
    reveal_strlit("method");
    reveal_strlit("state");
    assert("to"@.len() == 2 && "from"@.len() == 4 && "pp"@.len() == 2 && "id"@.len() == 2
        && "metadata"@.len() == 8 && "type"@.len() == 4 && "content"@.len() == 7 && "event"@.len()
        == 5 && "method"@.len() == 6 && "state"@.len() == 5);
    assert("to"@[0] == 't' && "from"@[0] == 'f' && "pp"@[0] == 'p' && "id"@[0] == 'i'
        && "metadata"@[0] == 'm' && "type"@[0] == 't' && "content"@[0] == 'c' && "event"@[0]
        == 'e' && "method"@[0] == 'm' && "state"@[0] == 's');
    assert("pp"@ != "to"@ && "pp"@ != "id"@ && "to"@ != "id"@ && "event"@ != "state"@
        && "type"@ != "from"@);
    let c = common_entries(m.to, m.from, m.pp, m.id, m.metadata);
    let mid = seq![("type"@, JVal::Str(m.mime_type)), ("content"@, m.content)];
    let fs = spec_encode_message(m);
    assert(fs == (c + mid) + m.other);
    lemma_common_names(m.to, m.from, m.pp, m.id, m.metadata);
    assert(!has_field(c, "content"@)) by {
        if has_field(c, "content"@) {
            let i = choose|i: int| 0 <= i < c.len() && c[i].0 == "content"@;
            assert(is_common_name(c[i].0));
        }
    }
    assert(!has_field(c, "event"@)) by {
        if has_field(c, "event"@) {
            let i = choose|i: int| 0 <= i < c.len() && c[i].0 == "event"@;
            assert(is_common_name(c[i].0));
        }
    }
    assert(!has_field(c, "method"@)) by {
        if has_field(c, "method"@) {
            let i = choose|i: int| 0 <= i < c.len() && c[i].0 == "method"@;
            assert(is_common_name(c[i].0));
        }
    }
    assert(!has_field(c, "state"@)) by {
        if has_field(c, "state"@) {
            let i = choose|i: int| 0 <= i < c.len() && c[i].0 == "state"@;
            assert(is_common_name(c[i].0));
        }
    }
    assert(has_field(mid, "content"@)) by {
        assert(mid[1].0 == "content"@);
    }
    assert(!has_field(mid, "event"@)) by {
        if has_field(mid, "event"@) {
            let i = choose|i: int| 0 <= i < mid.len() && mid[i].0 == "event"@;
        }
    }
    assert(!has_field(mid, "method"@)) by {
        if has_field(mid, "method"@) {
            let i = choose|i: int| 0 <= i < mid.len() && mid[i].0 == "method"@;
        }
    }
    assert(!has_field(mid, "state"@)) by {
        if has_field(mid, "state"@) {
            let i = choose|i: int| 0 <= i < mid.len() && mid[i].0 == "state"@;
        }
    }
    assert(!has_field(m.other, "content"@)) by {
        if has_field(m.other, "content"@) {
            let i = choose|i: int| 0 <= i < m.other.len() && m.other[i].0 == "content"@;
            assert(!(is_msg_taken(m.other[i].0) || is_indicator(m.other[i].0)));
        }
    }
    assert(!has_field(m.other, "event"@)) by {
        if has_field(m.other, "event"@) {
            let i = choose|i: int| 0 <= i < m.other.len() && m.other[i].0 == "event"@;
            assert(!(is_msg_taken(m.other[i].0) || is_indicator(m.other[i].0)));
        }
    }
    assert(!has_field(m.other, "method"@)) by {
        if has_field(m.other, "method"@) {
            let i = choose|i: int| 0 <= i < m.other.len() && m.other[i].0 == "method"@;
            assert(!(is_msg_taken(m.other[i].0) || is_indicator(m.other[i].0)));
        }
    }
    assert(!has_field(m.other, "state"@)) by {
        if has_field(m.other, "state"@) {
            let i = choose|i: int| 0 <= i < m.other.len() && m.other[i].0 == "state"@;
            assert(!(is_msg_taken(m.other[i].0) || is_indicator(m.other[i].0)));
        }
    }
    lemma_has_field_concat(c, mid, "content"@);
    lemma_has_field_concat(c + mid, m.other, "content"@);
    lemma_has_field_concat(c, mid, "event"@);
    lemma_has_field_concat(c + mid, m.other, "event"@);
    lemma_has_field_concat(c, mid, "method"@);
    lemma_has_field_concat(c + mid, m.other, "method"@);
    lemma_has_field_concat(c, mid, "state"@);
    lemma_has_field_concat(c + mid, m.other, "state"@);
    assert(has_field(fs, "content"@));
    assert(!has_field(fs, "event"@));
    assert(!has_field(fs, "method"@));
    assert(!has_field(fs, "state"@));
    assert(indicator_count(fs) == 1);
    // scan of the common prefix
    let a0 = msg_scan0();
    let e1 = opt_str_entry("to"@, m.to);
    let e2 = opt_str_entry("from"@, m.from);
    let e3 = opt_str_entry("pp"@, m.pp);
    let e4 = opt_u64_entry("id"@, m.id);
    let e5 = opt_obj_entry("metadata"@, m.metadata);
    assert(c == (((e1 + e2) + e3) + e4) + e5);
    let a1 = msg_scan(a0, e1);
    match m.to {
        Some(s) => {
            lemma_msg_scan_single(a0, ("to"@, JVal::Str(s)));
        },
        None => {},
    }
    assert(a1 =~= MsgScan { to: slot_str(m.to), ..a0 });
    lemma_msg_scan_concat(a0, e1, e2);
    let a2 = msg_scan(a1, e2);
    match m.from {
        Some(s) => {
            lemma_msg_scan_single(a1, ("from"@, JVal::Str(s)));
        },
        None => {},
    }
    assert(a2 =~= MsgScan { from: slot_str(m.from), ..a1 });
    lemma_msg_scan_concat(a0, e1 + e2, e3);
    let a3 = msg_scan(a2, e3);
    match m.pp {
        Some(s) => {
            lemma_msg_scan_single(a2, ("pp"@, JVal::Str(s)));
        },
        None => {},
    }
    assert(a3 =~= MsgScan { pp: slot_str(m.pp), ..a2 });
    lemma_msg_scan_concat(a0, (e1 + e2) + e3, e4);
    let a4 = msg_scan(a3, e4);
    match m.id {
        Some(n) => {
            lemma_msg_scan_single(a3, ("id"@, JVal::UInt(n)));
        },
        None => {},
    }
    assert(a4 =~= MsgScan { id: slot_u64(m.id), ..a3 });
    lemma_msg_scan_concat(a0, ((e1 + e2) + e3) + e4, e5);
    let a5 = msg_scan(a4, e5);
    match m.metadata {
        Some(f) => {
            lemma_msg_scan_single(a4, ("metadata"@, JVal::Obj(f)));
        },
        None => {},
    }
    assert(a5 =~= MsgScan { metadata: slot_obj(m.metadata), ..a4 });
    let ac = msg_scan(a0, c);
    assert(ac == a5);
    // scan of the required fields
    lemma_msg_scan_concat(a0, c, mid);
    assert(mid =~= seq![("type"@, JVal::Str(m.mime_type))] + seq![("content"@, m.content)]);
    lemma_msg_scan_concat(ac, seq![("type"@, JVal::Str(m.mime_type))], seq![
        ("content"@, m.content),
    ]);
    lemma_msg_scan_single(ac, ("type"@, JVal::Str(m.mime_type)));
    let acm1 = msg_step(ac, ("type"@, JVal::Str(m.mime_type)));
    lemma_msg_scan_single(acm1, ("content"@, m.content));
    let acm = msg_scan(ac, mid);
    assert(acm =~= MsgScan {
        mime: Some(JVal::Str(m.mime_type)),
        content: Some(m.content),
        ..a5
    });
    // the preserved fields all land in the bucket
    lemma_msg_scan_concat(a0, c + mid, m.other);
    assert(forall|i: int| 0 <= i < m.other.len() ==> !is_msg_taken(#[trigger] m.other[i].0));
    lemma_msg_scan_bucket(acm, m.other);
    let af = msg_scan(a0, fs);
    assert(af == msg_scan(acm, m.other));
    assert(Seq::<(Seq<char>, JVal)>::empty() + m.other =~= m.other);
    assert(af =~= MsgScan {
        to: slot_str(m.to),
        from: slot_str(m.from),
        pp: slot_str(m.pp),
        id: slot_u64(m.id),
        metadata: slot_obj(m.metadata),
        mime: Some(JVal::Str(m.mime_type)),
        content: Some(m.content),
        other: m.other,
    });
    assert(opt_str_val(af.to) == m.to);
    assert(opt_str_val(af.from) == m.from);
    assert(opt_str_val(af.pp) == m.pp);
    assert(opt_u64_val(af.id) == m.id);
    assert(opt_obj_val(af.metadata) == m.metadata);
    assert(spec_decode_message(fs) == Ok::<EnvelopeV, ProtocolError>(EnvelopeV::Message(m)))
        by {
        assert(MessageV {
            to: opt_str_val(af.to),
            from: opt_str_val(af.from),
            pp: opt_str_val(af.pp),
            id: opt_u64_val(af.id),
            metadata: opt_obj_val(af.metadata),
            mime_type: req_str_val(af.mime),
            content: match af.content {
                Some(x) => x,
                None => JVal::Null,
            },
            other: af.other,
        } =~= m);
    }
}

/// The preserved fields of a command may use any names its own
/// serialization and the discrimination rule do not claim.
pub open spec fn wf_command(c: CommandV) -> bool {
    forall|i: int|
        0 <= i < c.other.len() ==> !(is_cmd_taken(#[trigger] c.other[i].0) || is_indicator(
            c.other[i].0,
        ))
}

#[verifier::rlimit(100)]
pub proof fn lemma_cmd_indicators(cm: CommandV)
    requires
        wf_command(cm),
    ensures
        has_field(spec_encode_command(cm), "method"@),
        !has_field(spec_encode_command(cm), "content"@),
        !has_field(spec_encode_command(cm), "event"@),
        !has_field(spec_encode_command(cm), "state"@),
        indicator_count(spec_encode_command(cm)) == 1,
{
    reveal_strlit("to");
    reveal_strlit("from");
    reveal_strlit("pp");
    reveal_strlit("id");
    reveal_strlit("metadata");
    reveal_strlit("method");
    reveal_strlit("status");
    reveal_strlit("type");
    reveal_strlit("uri");
    reveal_strlit("content");
    reveal_strlit("event");
    reveal_strlit("state");
    assert("to"@.len() == 2 && "from"@.len() == 4 && "pp"@.len() == 2 && "id"@.len() == 2
        && "metadata"@.len() == 8 && "method"@.len() == 6 && "status"@.len() == 6 && "type"@.len()
        == 4 && "uri"@.len() == 3 && "content"@.len() == 7 && "event"@.len() == 5 && "state"@.len()
        == 5);
    assert("to"@[0] == 't' && "from"@[0] == 'f' && "pp"@[0] == 'p' && "id"@[0] == 'i'
        && "metadata"@[0] == 'm' && "method"@[0] == 'm' && "status"@[0] == 's' && "type"@[0]
        == 't' && "uri"@[0] == 'u' && "content"@[0] == 'c' && "event"@[0] == 'e' && "state"@[0]
        == 's');
    let c = common_entries(cm.to, cm.from, cm.pp, cm.id, cm.metadata);
    let m1 = seq![("method"@, JVal::Str(cm.method))];
    let s1 = opt_str_entry("status"@, cm.status);
    let s2 = opt_str_entry("type"@, cm.mime_type);
    let s3 = opt_str_entry("uri"@, cm.uri);
    let mid = ((m1 + s1) + s2) + s3;
    let fs = spec_encode_command(cm);
    assert(fs == (((((c + m1) + s1) + s2) + s3)) + cm.other);
    assert(fs == (c + mid) + cm.other) by {
        assert((((((c + m1) + s1) + s2) + s3)) =~= c + (((m1 + s1) + s2) + s3));
    }
    lemma_common_names(cm.to, cm.from, cm.pp, cm.id, cm.metadata);
    assert forall|k: Seq<char>| is_indicator(k) || k == "method"@ implies !has_field(c, k) by {
        if has_field(c, k) {
            let i = choose|i: int| 0 <= i < c.len() && c[i].0 == k;
            assert(is_common_name(c[i].0));
        }
    }
    assert(has_field(mid, "method"@)) by {
        assert(mid[0].0 == "method"@);
    }
    assert(!has_field(mid, "content"@) && !has_field(mid, "event"@) && !has_field(
        mid,
        "state"@,
    )) by {
        lemma_has_field_single("method"@, JVal::Str(cm.method), "content"@);
        lemma_has_field_opt_str("status"@, cm.status, "content"@);
        lemma_has_field_opt_str("type"@, cm.mime_type, "content"@);
        lemma_has_field_opt_str("uri"@, cm.uri, "content"@);
        lemma_has_field_concat(m1, s1, "content"@);
        lemma_has_field_concat(m1 + s1, s2, "content"@);
        lemma_has_field_concat((m1 + s1) + s2, s3, "content"@);
        lemma_has_field_single("method"@, JVal::Str(cm.method), "event"@);
        lemma_has_field_opt_str("status"@, cm.status, "event"@);
        lemma_has_field_opt_str("type"@, cm.mime_type, "event"@);
        lemma_has_field_opt_str("uri"@, cm.uri, "event"@);
        lemma_has_field_concat(m1, s1, "event"@);
        lemma_has_field_concat(m1 + s1, s2, "event"@);
        lemma_has_field_concat((m1 + s1) + s2, s3, "event"@);
        lemma_has_field_single("method"@, JVal::Str(cm.method), "state"@);
        lemma_has_field_opt_str("status"@, cm.status, "state"@);
        lemma_has_field_opt_str("type"@, cm.mime_type, "state"@);
        lemma_has_field_opt_str("uri"@, cm.uri, "state"@);
        lemma_has_field_concat(m1, s1, "state"@);
        lemma_has_field_concat(m1 + s1, s2, "state"@);
        lemma_has_field_concat((m1 + s1) + s2, s3, "state"@);
    }
    assert forall|k: Seq<char>| is_indicator(k) || k == "method"@ implies !has_field(
        cm.other,
        k,
    ) by {
        if has_field(cm.other, k) {
            let i = choose|i: int| 0 <= i < cm.other.len() && cm.other[i].0 == k;
            assert(!(is_cmd_taken(cm.other[i].0) || is_indicator(cm.other[i].0)));
        }
    }
    lemma_has_field_concat(c, mid, "content"@);
    lemma_has_field_concat(c + mid, cm.other, "content"@);
    lemma_has_field_concat(c, mid, "event"@);
    lemma_has_field_concat(c + mid, cm.other, "event"@);
    lemma_has_field_concat(c, mid, "method"@);
    lemma_has_field_concat(c + mid, cm.other, "method"@);
    lemma_has_field_concat(c, mid, "state"@);
    lemma_has_field_concat(c + mid, cm.other, "state"@);
    assert(has_field(fs, "method"@));
    assert(!has_field(fs, "content"@));
    assert(!has_field(fs, "event"@));
    assert(!has_field(fs, "state"@));
    assert(indicator_count(fs) == 1);
}

/// Round-trip for commands.
#[verifier::rlimit(100)]
pub proof fn lemma_round_trip_command(cm: CommandV)
    requires
        wf_command(cm),
    ensures
        spec_decode(spec_encode_command(cm)) == Ok::<EnvelopeV, ProtocolError>(
            EnvelopeV::Command(cm),
        ),
{
    lemma_cmd_indicators(cm);
    reveal_strlit("to");
    reveal_strlit("from");
    reveal_strlit("pp");
    reveal_strlit("id");
    reveal_strlit("metadata");
    reveal_strlit("method");
    reveal_strlit("status");
    reveal_strlit("type");
    reveal_strlit("uri");
    reveal_strlit("content");
    reveal_strlit("event");
    reveal_strlit("state");
    assert("to"@.len() == 2 && "from"@.len() == 4 && "pp"@.len() == 2 && "id"@.len() == 2
        && "metadata"@.len() == 8 && "method"@.len() == 6 && "status"@.len() == 6 && "type"@.len()
        == 4 && "uri"@.len() == 3 && "content"@.len() == 7 && "event"@.len() == 5 && "state"@.len()
        == 5);
    assert("to"@[0] == 't' && "from"@[0] == 'f' && "pp"@[0] == 'p' && "id"@[0] == 'i'
        && "metadata"@[0] == 'm' && "method"@[0] == 'm' && "status"@[0] == 's' && "type"@[0]
        == 't' && "uri"@[0] == 'u' && "content"@[0] == 'c' && "event"@[0] == 'e' && "state"@[0]
        == 's');
    let c = common_entries(cm.to, cm.from, cm.pp, cm.id, cm.metadata);
    let m1 = seq![("method"@, JVal::Str(cm.method))];
    let s1 = opt_str_entry("status"@, cm.status);
    let s2 = opt_str_entry("type"@, cm.mime_type);
    let s3 = opt_str_entry("uri"@, cm.uri);
    let fs = spec_encode_command(cm);
    assert(fs == (((((c + m1) + s1) + s2) + s3)) + cm.other);
    lemma_cmd_scan_common(cm);
    let a0 = cmd_scan0();
    let ac = cmd_scan(a0, c);
    // scan of method, status, type, uri
    lemma_cmd_scan_concat(a0, c, m1);
    lemma_cmd_scan_single(ac, ("method"@, JVal::Str(cm.method)));
    let b1 = cmd_scan(ac, m1);
    assert(b1 =~= CmdScan { method: Some(JVal::Str(cm.method)), ..ac });
    lemma_cmd_scan_concat(a0, c + m1, s1);
    let b2 = cmd_scan(b1, s1);
    match cm.status {
        Some(s) => {
            lemma_cmd_scan_single(b1, ("status"@, JVal::Str(s)));
        },
        None => {},
    }
    assert(b2 =~= CmdScan { status: slot_str(cm.status), ..b1 });
    lemma_cmd_scan_concat(a0, (c + m1) + s1, s2);
    let b3 = cmd_scan(b2, s2);
    match cm.mime_type {
        Some(s) => {
            lemma_cmd_scan_single(b2, ("type"@, JVal::Str(s)));
        },
        None => {},
    }
    assert(b3 =~= CmdScan { mime: slot_str(cm.mime_type), ..b2 });
    lemma_cmd_scan_concat(a0, ((c + m1) + s1) + s2, s3);
    let b4 = cmd_scan(b3, s3);
    match cm.uri {
        Some(s) => {
            lemma_cmd_scan_single(b3, ("uri"@, JVal::Str(s)));
        },
        None => {},
    }
    assert(b4 =~= CmdScan { uri: slot_str(cm.uri), ..b3 });
    // the preserved fields all land in the bucket
    lemma_cmd_scan_concat(a0, (((c + m1) + s1) + s2) + s3, cm.other);
    assert(forall|i: int| 0 <= i < cm.other.len() ==> !is_cmd_taken(#[trigger] cm.other[i].0));
    lemma_cmd_scan_bucket(b4, cm.other);
    let af = cmd_scan(a0, fs);
    assert(af == cmd_scan(b4, cm.other));
    assert(Seq::<(Seq<char>, JVal)>::empty() + cm.other =~= cm.other);
    assert(af =~= CmdScan {
        to: slot_str(cm.to),
        from: slot_str(cm.from),
        pp: slot_str(cm.pp),
        id: slot_u64(cm.id),
        metadata: slot_obj(cm.metadata),
        method: Some(JVal::Str(cm.method)),
        status: slot_str(cm.status),
        mime: slot_str(cm.mime_type),
        uri: slot_str(cm.uri),
        other: cm.other,
    });
    assert(spec_decode_command(fs) == Ok::<EnvelopeV, ProtocolError>(EnvelopeV::Command(cm)))
        by {
        assert(CommandV {
            to: opt_str_val(af.to),
            from: opt_str_val(af.from),
            pp: opt_str_val(af.pp),
            id: opt_u64_val(af.id),
            metadata: opt_obj_val(af.metadata),
            method: req_str_val(af.method),
            status: opt_str_val(af.status),
            mime_type: opt_str_val(af.mime),
            uri: opt_str_val(af.uri),
            other: af.other,
        } =~= cm);
    }
}

#[verifier::rlimit(100)]
pub proof fn lemma_cmd_scan_common(cm: CommandV)
    ensures
        cmd_scan(cmd_scan0(), common_entries(cm.to, cm.from, cm.pp, cm.id, cm.metadata))
            == (CmdScan {
            to: slot_str(cm.to),
            from: slot_str(cm.from),
            pp: slot_str(cm.pp),
            id: slot_u64(cm.id),
            metadata: slot_obj(cm.metadata),
            method: None,
            status: None,
            mime: None,
            uri: None,
            other: Seq::empty(),
        }),
{
    reveal_strlit("to");
    reveal_strlit("from");
    reveal_strlit("pp");
    reveal_strlit("id");
    reveal_strlit("metadata");
    assert("to"@.len() == 2 && "from"@.len() == 4 && "pp"@.len() == 2 && "id"@.len() == 2
        && "metadata"@.len() == 8);
    assert("to"@[0] == 't' && "pp"@[0] == 'p' && "id"@[0] == 'i');
    let c = common_entries(cm.to, cm.from, cm.pp, cm.id, cm.metadata);
    let a0 = cmd_scan0();
    let e1 = opt_str_entry("to"@, cm.to);
    let e2 = opt_str_entry("from"@, cm.from);
    let e3 = opt_str_entry("pp"@, cm.pp);
    let e4 = opt_u64_entry("id"@, cm.id);
    let e5 = opt_obj_entry("metadata"@, cm.metadata);
    assert(c == (((e1 + e2) + e3) + e4) + e5);
    let a1 = cmd_scan(a0, e1);
    match cm.to {
        Some(s) => {
            lemma_cmd_scan_single(a0, ("to"@, JVal::Str(s)));
        },
        None => {},
    }
    assert(a1 =~= CmdScan { to: slot_str(cm.to), ..a0 });
    lemma_cmd_scan_concat(a0, e1, e2);
    let a2 = cmd_scan(a1, e2);
    match cm.from {
        Some(s) => {
            lemma_cmd_scan_single(a1, ("from"@, JVal::Str(s)));
        },
        None => {},
    }
    assert(a2 =~= CmdScan { from: slot_str(cm.from), ..a1 });
    lemma_cmd_scan_concat(a0, e1 + e2, e3);
    let a3 = cmd_scan(a2, e3);
    match cm.pp {
        Some(s) => {
            lemma_cmd_scan_single(a2, ("pp"@, JVal::Str(s)));
        },
        None => {},
    }
    assert(a3 =~= CmdScan { pp: slot_str(cm.pp), ..a2 });
    lemma_cmd_scan_concat(a0, (e1 + e2) + e3, e4);
    let a4 = cmd_scan(a3, e4);
    match cm.id {
        Some(n) => {
            lemma_cmd_scan_single(a3, ("id"@, JVal::UInt(n)));
        },
        None => {},
    }
    assert(a4 =~= CmdScan { id: slot_u64(cm.id), ..a3 });
    lemma_cmd_scan_concat(a0, ((e1 + e2) + e3) + e4, e5);
    let a5 = cmd_scan(a4, e5);
    match cm.metadata {
        Some(f) => {
            lemma_cmd_scan_single(a4, ("metadata"@, JVal::Obj(f)));
        },
        None => {},
    }
    assert(a5 =~= CmdScan { metadata: slot_obj(cm.metadata), ..a4 });
    let ac = cmd_scan(a0, c);
    assert(ac == a5);
    assert(ac =~= CmdScan {
        to: slot_str(cm.to),
        from: slot_str(cm.from),
        pp: slot_str(cm.pp),
        id: slot_u64(cm.id),
        metadata: slot_obj(cm.metadata),
        method: None,
        status: None,
        mime: None,
        uri: None,
        other: Seq::empty(),
    });
}

/// Names that tell a session response apart from a request.
pub open spec fn is_resp_name(k: Seq<char>) -> bool {
    k == "encryption"@ || k == "compression"@ || k == "scheme"@ || k == "reason"@
}

pub open spec fn is_req_name(k: Seq<char>) -> bool {
    k == "encryptionOptions"@ || k == "compressionOptions"@ || k == "schemeOptions"@
}

/// The preserved fields of a session request must avoid every name the
/// session frames or the discrimination rule claim.
pub open spec fn wf_session_request(s: SessionRequestV) -> bool {
    forall|i: int|
        0 <= i < s.other.len() ==> !(is_sreq_taken(#[trigger] s.other[i].0) || is_indicator(
            s.other[i].0,
        ) || is_resp_name(s.other[i].0))
}

#[verifier::rlimit(100)]
pub proof fn lemma_sreq_scan_common(s: SessionRequestV)
    ensures
        sreq_scan(
            sreq_scan0(),
            common_entries(s.to, s.from, s.pp, Some(s.id), s.metadata),
        ) == (SreqScan {
            to: slot_str(s.to),
            from: slot_str(s.from),
            pp: slot_str(s.pp),
            id: Some(JVal::UInt(s.id)),
            metadata: slot_obj(s.metadata),
            state: None,
            eopts: None,
            copts: None,
            sopts: None,
            other: Seq::empty(),
        }),
{
    reveal_strlit("to");
    reveal_strlit("from");
    reveal_strlit("pp");
    reveal_strlit("id");
    reveal_strlit("metadata");
    assert("to"@.len() == 2 && "from"@.len() == 4 && "pp"@.len() == 2 && "id"@.len() == 2
        && "metadata"@.len() == 8);
    assert("to"@[0] == 't' && "pp"@[0] == 'p' && "id"@[0] == 'i');
    let c = common_entries(s.to, s.from, s.pp, Some(s.id), s.metadata);
    let a0 = sreq_scan0();
    let e1 = opt_str_entry("to"@, s.to);
    let e2 = opt_str_entry("from"@, s.from);
    let e3 = opt_str_entry("pp"@, s.pp);
    let e4 = opt_u64_entry("id"@, Some(s.id));
    let e5 = opt_obj_entry("metadata"@, s.metadata);
    assert(c == (((e1 + e2) + e3) + e4) + e5);
    let a1 = sreq_scan(a0, e1);
    match s.to {
        Some(x) => {
            lemma_sreq_scan_single(a0, ("to"@, JVal::Str(x)));
        },
        None => {},
    }
    assert(a1 =~= SreqScan { to: slot_str(s.to), ..a0 });
    lemma_sreq_scan_concat(a0, e1, e2);
    let a2 = sreq_scan(a1, e2);
    match s.from {
        Some(x) => {
            lemma_sreq_scan_single(a1, ("from"@, JVal::Str(x)));
        },
        None => {},
    }
    assert(a2 =~= SreqScan { from: slot_str(s.from), ..a1 });
    lemma_sreq_scan_concat(a0, e1 + e2, e3);
    let a3 = sreq_scan(a2, e3);
    match s.pp {
        Some(x) => {
            lemma_sreq_scan_single(a2, ("pp"@, JVal::Str(x)));
        },
        None => {},
    }
    assert(a3 =~= SreqScan { pp: slot_str(s.pp), ..a2 });
    lemma_sreq_scan_concat(a0, (e1 + e2) + e3, e4);
    lemma_sreq_scan_single(a3, ("id"@, JVal::UInt(s.id)));
    let a4 = sreq_scan(a3, e4);
    assert(a4 =~= SreqScan { id: Some(JVal::UInt(s.id)), ..a3 });
    lemma_sreq_scan_concat(a0, ((e1 + e2) + e3) + e4, e5);
    let a5 = sreq_scan(a4, e5);
    match s.metadata {
        Some(f) => {
            lemma_sreq_scan_single(a4, ("metadata"@, JVal::Obj(f)));
        },
        None => {},
    }
    assert(a5 =~= SreqScan { metadata: slot_obj(s.metadata), ..a4 });
    assert(sreq_scan(a0, c) == a5);
}

#[verifier::rlimit(100)]
pub proof fn lemma_sreq_names(s: SessionRequestV)
    requires
        wf_session_request(s),
    ensures
        has_field(spec_encode_session_request(s), "state"@),
        !has_field(spec_encode_session_request(s), "content"@),
        !has_field(spec_encode_session_request(s), "event"@),
        !has_field(spec_encode_session_request(s), "method"@),
        !has_field(spec_encode_session_request(s), "encryption"@),
        !has_field(spec_encode_session_request(s), "compression"@),
        !has_field(spec_encode_session_request(s), "scheme"@),
        !has_field(spec_encode_session_request(s), "reason"@),
        indicator_count(spec_encode_session_request(s)) == 1,
{
    reveal_strlit("to");
    reveal_strlit("from");
    reveal_strlit("pp");
    reveal_strlit("id");
    reveal_strlit("metadata");
    reveal_strlit("state");
    reveal_strlit("encryptionOptions");
    reveal_strlit("compressionOptions");
    reveal_strlit("schemeOptions");
    reveal_strlit("content");
    reveal_strlit("event");
    reveal_strlit("method");
    reveal_strlit("encryption");
    reveal_strlit("compression");
    reveal_strlit("scheme");
    reveal_strlit("reason");
    assert("to"@.len() == 2 && "from"@.len() == 4 && "pp"@.len() == 2 && "id"@.len() == 2
        && "metadata"@.len() == 8 && "state"@.len() == 5 && "encryptionOptions"@.len() == 17
        && "compressionOptions"@.len() == 18 && "schemeOptions"@.len() == 13 && "content"@.len()
        == 7 && "event"@.len() == 5 && "method"@.len() == 6 && "encryption"@.len() == 10
        && "compression"@.len() == 11 && "scheme"@.len() == 6 && "reason"@.len() == 6);
    assert("state"@[0] == 's' && "event"@[0] == 'e' && "scheme"@[0] == 's' && "method"@[0]
        == 'm' && "reason"@[0] == 'r');
    let c = common_entries(s.to, s.from, s.pp, Some(s.id), s.metadata);
    let st = seq![("state"@, JVal::Str(state_name(s.state)))];
    let o1 = opt_strs_entry("encryptionOptions"@, s.encryption_options);
    let o2 = opt_strs_entry("compressionOptions"@, s.compression_options);
    let o3 = opt_strs_entry("schemeOptions"@, s.scheme_options);
    let fs = spec_encode_session_request(s);
    assert(fs == (((((c + st) + o1) + o2) + o3)) + s.other);
    lemma_common_names(s.to, s.from, s.pp, Some(s.id), s.metadata);
    assert forall|k: Seq<char>|
        is_indicator(k) || is_resp_name(k) implies !has_field(c, k) by {
        if has_field(c, k) {
            let i = choose|i: int| 0 <= i < c.len() && c[i].0 == k;
            assert(is_common_name(c[i].0));
        }
    }
    assert forall|k: Seq<char>|
        is_indicator(k) || is_resp_name(k) implies !has_field(s.other, k) by {
        if has_field(s.other, k) {
            let i = choose|i: int| 0 <= i < s.other.len() && s.other[i].0 == k;
            assert(!(is_sreq_taken(s.other[i].0) || is_indicator(s.other[i].0) || is_resp_name(
                s.other[i].0,
            )));
        }
    }
    let names = seq!["content"@, "event"@, "method"@, "encryption"@, "compression"@, "scheme"@,
        "reason"@];
    assert forall|j: int| 0 <= j < 7 implies !has_field(fs, #[trigger] names[j]) by {
        let k = names[j];
        lemma_has_field_single("state"@, JVal::Str(state_name(s.state)), k);
        lemma_has_field_opt_strs("encryptionOptions"@, s.encryption_options, k);
        lemma_has_field_opt_strs("compressionOptions"@, s.compression_options, k);
        lemma_has_field_opt_strs("schemeOptions"@, s.scheme_options, k);
        lemma_has_field_concat(c, st, k);
        lemma_has_field_concat(c + st, o1, k);
        lemma_has_field_concat((c + st) + o1, o2, k);
        lemma_has_field_concat(((c + st) + o1) + o2, o3, k);
        lemma_has_field_concat((((c + st) + o1) + o2) + o3, s.other, k);
    }
    assert(!has_field(fs, "content"@) && !has_field(fs, "event"@) && !has_field(fs, "method"@)
        && !has_field(fs, "encryption"@) && !has_field(fs, "compression"@) && !has_field(
        fs,
        "scheme"@,
    ) && !has_field(fs, "reason"@)) by {
        assert(names[0] == "content"@ && names[1] == "event"@ && names[2] == "method"@
            && names[3] == "encryption"@ && names[4] == "compression"@ && names[5] == "scheme"@
            && names[6] == "reason"@);
    }
    assert(has_field(fs, "state"@)) by {
        assert(st[0].0 == "state"@);
        assert(has_field(st, "state"@));
        lemma_has_field_concat(c, st, "state"@);
        lemma_has_field_concat(c + st, o1, "state"@);
        lemma_has_field_concat((c + st) + o1, o2, "state"@);
        lemma_has_field_concat(((c + st) + o1) + o2, o3, "state"@);
        lemma_has_field_concat((((c + st) + o1) + o2) + o3, s.other, "state"@);
    }
    assert(indicator_count(fs) == 1);
}

pub proof fn lemma_state_roundtrip(st: SessionState)
    ensures
        state_of_name(state_name(st)) == Some(st),
{
    reveal_strlit("new");
    reveal_strlit("negotiating");
    reveal_strlit("authenticating");
    reveal_strlit("established");
    reveal_strlit("finished");
    reveal_strlit("failed");
    assert("new"@.len() == 3 && "negotiating"@.len() == 11 && "authenticating"@.len() == 14
        && "established"@.len() == 11 && "finished"@.len() == 8 && "failed"@.len() == 6);
    assert("negotiating"@[0] == 'n' && "established"@[0] == 'e');
}

/// Round-trip for session requests.
#[verifier::rlimit(100)]
pub proof fn lemma_round_trip_session_request(s: SessionRequestV)
    requires
        wf_session_request(s),
    ensures
        spec_decode(spec_encode_session_request(s)) == Ok::<EnvelopeV, ProtocolError>(
            EnvelopeV::SessionRequest(s),
        ),
{
    lemma_sreq_names(s);
    lemma_sreq_scan_common(s);
    lemma_state_roundtrip(s.state);
    reveal_strlit("to");
    reveal_strlit("from");
    reveal_strlit("pp");
    reveal_strlit("id");
    reveal_strlit("metadata");
    reveal_strlit("state");
    reveal_strlit("encryptionOptions");
    reveal_strlit("compressionOptions");
    reveal_strlit("schemeOptions");
    assert("to"@.len() == 2 && "from"@.len() == 4 && "pp"@.len() == 2 && "id"@.len() == 2
        && "metadata"@.len() == 8 && "state"@.len() == 5 && "encryptionOptions"@.len() == 17
        && "compressionOptions"@.len() == 18 && "schemeOptions"@.len() == 13);
    let c = common_entries(s.to, s.from, s.pp, Some(s.id), s.metadata);
    let st = seq![("state"@, JVal::Str(state_name(s.state)))];
    let o1 = opt_strs_entry("encryptionOptions"@, s.encryption_options);
    let o2 = opt_strs_entry("compressionOptions"@, s.compression_options);
    let o3 = opt_strs_entry("schemeOptions"@, s.scheme_options);
    let fs = spec_encode_session_request(s);
    assert(fs == (((((c + st) + o1) + o2) + o3)) + s.other);
    // a request frame shows none of the response-side names
    assert(!session_is_response(fs));
    let a0 = sreq_scan0();
    let ac = sreq_scan(a0, c);
    lemma_sreq_scan_concat(a0, c, st);
    lemma_sreq_scan_single(ac, ("state"@, JVal::Str(state_name(s.state))));
    let b1 = sreq_scan(ac, st);
    assert(b1 =~= SreqScan { state: Some(JVal::Str(state_name(s.state))), ..ac });
    lemma_sreq_scan_concat(a0, c + st, o1);
    let b2 = sreq_scan(b1, o1);
    match s.encryption_options {
        Some(ss) => {
            lemma_sreq_scan_single(b1, ("encryptionOptions"@, strs_jv(ss)));
        },
        None => {},
    }
    lemma_sreq_scan_concat(a0, (c + st) + o1, o2);
    let b3 = sreq_scan(b2, o2);
    match s.compression_options {
        Some(ss) => {
            lemma_sreq_scan_single(b2, ("compressionOptions"@, strs_jv(ss)));
        },
        None => {},
    }
    lemma_sreq_scan_concat(a0, ((c + st) + o1) + o2, o3);
    let b4 = sreq_scan(b3, o3);
    match s.scheme_options {
        Some(ss) => {
            lemma_sreq_scan_single(b3, ("schemeOptions"@, strs_jv(ss)));
        },
        None => {},
    }
    lemma_sreq_scan_concat(a0, (((c + st) + o1) + o2) + o3, s.other);
    assert(forall|i: int| 0 <= i < s.other.len() ==> !is_sreq_taken(#[trigger] s.other[i].0));
    lemma_sreq_scan_bucket(b4, s.other);
    let af = sreq_scan(a0, fs);
    assert(Seq::<(Seq<char>, JVal)>::empty() + s.other =~= s.other);
    assert(af =~= SreqScan {
        to: slot_str(s.to),
        from: slot_str(s.from),
        pp: slot_str(s.pp),
        id: Some(JVal::UInt(s.id)),
        metadata: slot_obj(s.metadata),
        state: Some(JVal::Str(state_name(s.state))),
        eopts: match s.encryption_options {
            Some(ss) => Some(strs_jv(ss)),
            None => None,
        },
        copts: match s.compression_options {
            Some(ss) => Some(strs_jv(ss)),
            None => None,
        },
        sopts: match s.scheme_options {
            Some(ss) => Some(strs_jv(ss)),
            None => None,
        },
        other: s.other,
    });
    match s.encryption_options {
        Some(ss) => {
            lemma_strs_of_map(ss);
        },
        None => {},
    }
    match s.compression_options {
        Some(ss) => {
            lemma_strs_of_map(ss);
        },
        None => {},
    }
    match s.scheme_options {
        Some(ss) => {
            lemma_strs_of_map(ss);
        },
        None => {},
    }
    assert(spec_decode_session_request(fs) == Ok::<EnvelopeV, ProtocolError>(
        EnvelopeV::SessionRequest(s),
    )) by {
        assert(state_of_slot(af.state) == Some(s.state));
        assert(opts_val(af.eopts) == s.encryption_options);
        assert(opts_val(af.copts) == s.compression_options);
        assert(opts_val(af.sopts) == s.scheme_options);
        assert(SessionRequestV {
            to: opt_str_val(af.to),
            from: opt_str_val(af.from),
            pp: opt_str_val(af.pp),
            id: req_u64_val(af.id),
            metadata: opt_obj_val(af.metadata),
            state: s.state,
            encryption_options: opts_val(af.eopts),
            compression_options: opts_val(af.copts),
            scheme_options: opts_val(af.sopts),
            other: af.other,
        } =~= s);
    }
}

/// A session response must carry at least one of the fields that tell it
/// from a request, and its preserved fields must avoid every claimed name.
pub open spec fn wf_session_response(s: SessionResponseV) -> bool {
    (s.encryption is Some || s.compression is Some || s.scheme is Some || s.reason is Some)
        && (forall|i: int|
        0 <= i < s.other.len() ==> !(is_sresp_taken(#[trigger] s.other[i].0) || is_indicator(
            s.other[i].0,
        ) || is_req_name(s.other[i].0)))
}

#[verifier::rlimit(100)]
pub proof fn lemma_sresp_scan_common(s: SessionResponseV)
    ensures
        sresp_scan(
            sresp_scan0(),
            common_entries(s.to, s.from, s.pp, Some(s.id), s.metadata),
        ) == (SrespScan {
            to: slot_str(s.to),
            from: slot_str(s.from),
            pp: slot_str(s.pp),
            id: Some(JVal::UInt(s.id)),
            metadata: slot_obj(s.metadata),
            state: None,
            enc: None,
            cmp: None,
            sch: None,
            reason: None,
            other: Seq::empty(),
        }),
{
    reveal_strlit("to");
    reveal_strlit("from");
    reveal_strlit("pp");
    reveal_strlit("id");
    reveal_strlit("metadata");
    assert("to"@.len() == 2 && "from"@.len() == 4 && "pp"@.len() == 2 && "id"@.len() == 2
        && "metadata"@.len() == 8);
    assert("to"@[0] == 't' && "pp"@[0] == 'p' && "id"@[0] == 'i');
    let c = common_entries(s.to, s.from, s.pp, Some(s.id), s.metadata);
    let a0 = sresp_scan0();
    let e1 = opt_str_entry("to"@, s.to);
    let e2 = opt_str_entry("from"@, s.from);
    let e3 = opt_str_entry("pp"@, s.pp);
    let e4 = opt_u64_entry("id"@, Some(s.id));
    let e5 = opt_obj_entry("metadata"@, s.metadata);
    assert(c == (((e1 + e2) + e3) + e4) + e5);
    let a1 = sresp_scan(a0, e1);
    match s.to {
        Some(x) => {
            lemma_sresp_scan_single(a0, ("to"@, JVal::Str(x)));
        },
        None => {},
    }
    assert(a1 =~= SrespScan { to: slot_str(s.to), ..a0 });
    lemma_sresp_scan_concat(a0, e1, e2);
    let a2 = sresp_scan(a1, e2);
    match s.from {
        Some(x) => {
            lemma_sresp_scan_single(a1, ("from"@, JVal::Str(x)));
        },
        None => {},
    }
    assert(a2 =~= SrespScan { from: slot_str(s.from), ..a1 });
    lemma_sresp_scan_concat(a0, e1 + e2, e3);
    let a3 = sresp_scan(a2, e3);
    match s.pp {
        Some(x) => {
            lemma_sresp_scan_single(a2, ("pp"@, JVal::Str(x)));
        },
        None => {},
    }
    assert(a3 =~= SrespScan { pp: slot_str(s.pp), ..a2 });
    lemma_sresp_scan_concat(a0, (e1 + e2) + e3, e4);
    lemma_sresp_scan_single(a3, ("id"@, JVal::UInt(s.id)));
    let a4 = sresp_scan(a3, e4);
    assert(a4 =~= SrespScan { id: Some(JVal::UInt(s.id)), ..a3 });
    lemma_sresp_scan_concat(a0, ((e1 + e2) + e3) + e4, e5);
    let a5 = sresp_scan(a4, e5);
    match s.metadata {
        Some(f) => {
            lemma_sresp_scan_single(a4, ("metadata"@, JVal::Obj(f)));
        },
        None => {},
    }
    assert(a5 =~= SrespScan { metadata: slot_obj(s.metadata), ..a4 });
    assert(sresp_scan(a0, c) == a5);
}

#[verifier::rlimit(100)]
pub proof fn lemma_sresp_names(s: SessionResponseV)
    requires
        wf_session_response(s),
    ensures
        has_field(spec_encode_session_response(s), "state"@),
        !has_field(spec_encode_session_response(s), "content"@),
        !has_field(spec_encode_session_response(s), "event"@),
        !has_field(spec_encode_session_response(s), "method"@),
        !has_field(spec_encode_session_response(s), "encryptionOptions"@),
        !has_field(spec_encode_session_response(s), "compressionOptions"@),
        !has_field(spec_encode_session_response(s), "schemeOptions"@),
        session_is_response(spec_encode_session_response(s)),
        indicator_count(spec_encode_session_response(s)) == 1,
{
    reveal_strlit("to");
    reveal_strlit("from");
    reveal_strlit("pp");
    reveal_strlit("id");
    reveal_strlit("metadata");
    reveal_strlit("state");
    reveal_strlit("encryption");
    reveal_strlit("compression");
    reveal_strlit("scheme");
    reveal_strlit("reason");
    reveal_strlit("content");
    reveal_strlit("event");
    reveal_strlit("method");
    reveal_strlit("encryptionOptions");
    reveal_strlit("compressionOptions");
    reveal_strlit("schemeOptions");
    assert("to"@.len() == 2 && "from"@.len() == 4 && "pp"@.len() == 2 && "id"@.len() == 2
        && "metadata"@.len() == 8 && "state"@.len() == 5 && "encryption"@.len() == 10
        && "compression"@.len() == 11 && "scheme"@.len() == 6 && "reason"@.len() == 6
        && "content"@.len() == 7 && "event"@.len() == 5 && "method"@.len() == 6
        && "encryptionOptions"@.len() == 17 && "compressionOptions"@.len() == 18
        && "schemeOptions"@.len() == 13);
    assert("state"@[0] == 's' && "event"@[0] == 'e' && "scheme"@[0] == 's' && "method"@[0]
        == 'm' && "reason"@[0] == 'r');
    let c = common_entries(s.to, s.from, s.pp, Some(s.id), s.metadata);
    let st = seq![("state"@, JVal::Str(state_name(s.state)))];
    let o1 = opt_str_entry("encryption"@, s.encryption);
    let o2 = opt_str_entry("compression"@, s.compression);
    let o3 = opt_str_entry("scheme"@, s.scheme);
    let o4 = opt_reason_entry("reason"@, s.reason);
    let fs = spec_encode_session_response(s);
    assert(fs == ((((((c + st) + o1) + o2) + o3) + o4)) + s.other);
    lemma_common_names(s.to, s.from, s.pp, Some(s.id), s.metadata);
    assert forall|k: Seq<char>|
        is_indicator(k) || is_req_name(k) || is_resp_name(k) implies !has_field(c, k) by {
        if has_field(c, k) {
            let i = choose|i: int| 0 <= i < c.len() && c[i].0 == k;
            assert(is_common_name(c[i].0));
        }
    }
    assert forall|k: Seq<char>|
        is_indicator(k) || is_req_name(k) implies !has_field(s.other, k) by {
        if has_field(s.other, k) {
            let i = choose|i: int| 0 <= i < s.other.len() && s.other[i].0 == k;
            assert(!(is_sresp_taken(s.other[i].0) || is_indicator(s.other[i].0) || is_req_name(
                s.other[i].0,
            )));
        }
    }
    let names = seq!["content"@, "event"@, "method"@, "encryptionOptions"@,
        "compressionOptions"@, "schemeOptions"@];
    assert forall|j: int| 0 <= j < 6 implies !has_field(fs, #[trigger] names[j]) by {
        let k = names[j];
        lemma_has_field_single("state"@, JVal::Str(state_name(s.state)), k);
        lemma_has_field_opt_str("encryption"@, s.encryption, k);
        lemma_has_field_opt_str("compression"@, s.compression, k);
        lemma_has_field_opt_str("scheme"@, s.scheme, k);
        lemma_has_field_opt_reason("reason"@, s.reason, k);
        lemma_has_field_concat(c, st, k);
        lemma_has_field_concat(c + st, o1, k);
        lemma_has_field_concat((c + st) + o1, o2, k);
        lemma_has_field_concat(((c + st) + o1) + o2, o3, k);
        lemma_has_field_concat((((c + st) + o1) + o2) + o3, o4, k);
        lemma_has_field_concat(((((c + st) + o1) + o2) + o3) + o4, s.other, k);
    }
    assert(!has_field(fs, "content"@) && !has_field(fs, "event"@) && !has_field(fs, "method"@)
        && !has_field(fs, "encryptionOptions"@) && !has_field(fs, "compressionOptions"@)
        && !has_field(fs, "schemeOptions"@)) by {
        assert(names[0] == "content"@ && names[1] == "event"@ && names[2] == "method"@
            && names[3] == "encryptionOptions"@ && names[4] == "compressionOptions"@ && names[5]
            == "schemeOptions"@);
    }
    assert(has_field(fs, "state"@)) by {
        assert(st[0].0 == "state"@);
        assert(has_field(st, "state"@));
        lemma_has_field_concat(c, st, "state"@);
        lemma_has_field_concat(c + st, o1, "state"@);
        lemma_has_field_concat((c + st) + o1, o2, "state"@);
        lemma_has_field_concat(((c + st) + o1) + o2, o3, "state"@);
        lemma_has_field_concat((((c + st) + o1) + o2) + o3, o4, "state"@);
        lemma_has_field_concat(((((c + st) + o1) + o2) + o3) + o4, s.other, "state"@);
    }
    assert(indicator_count(fs) == 1);
    assert(session_is_response(fs)) by {
        lemma_has_field_opt_str("encryption"@, s.encryption, "encryption"@);
        lemma_has_field_opt_str("compression"@, s.compression, "compression"@);
        lemma_has_field_opt_str("scheme"@, s.scheme, "scheme"@);
        lemma_has_field_opt_reason("reason"@, s.reason, "reason"@);
        lemma_has_field_concat(c, st, "encryption"@);
        lemma_has_field_concat(c + st, o1, "encryption"@);
        lemma_has_field_concat((c + st) + o1, o2, "encryption"@);
        lemma_has_field_concat(((c + st) + o1) + o2, o3, "encryption"@);
        lemma_has_field_concat((((c + st) + o1) + o2) + o3, o4, "encryption"@);
        lemma_has_field_concat(((((c + st) + o1) + o2) + o3) + o4, s.other, "encryption"@);
        lemma_has_field_concat(c, st, "compression"@);
        lemma_has_field_concat(c + st, o1, "compression"@);
        lemma_has_field_concat((c + st) + o1, o2, "compression"@);
        lemma_has_field_concat(((c + st) + o1) + o2, o3, "compression"@);
        lemma_has_field_concat((((c + st) + o1) + o2) + o3, o4, "compression"@);
        lemma_has_field_concat(((((c + st) + o1) + o2) + o3) + o4, s.other, "compression"@);
        lemma_has_field_concat(c, st, "scheme"@);
        lemma_has_field_concat(c + st, o1, "scheme"@);
        lemma_has_field_concat((c + st) + o1, o2, "scheme"@);
        lemma_has_field_concat(((c + st) + o1) + o2, o3, "scheme"@);
        lemma_has_field_concat((((c + st) + o1) + o2) + o3, o4, "scheme"@);
        lemma_has_field_concat(((((c + st) + o1) + o2) + o3) + o4, s.other, "scheme"@);
        lemma_has_field_concat(c, st, "reason"@);
        lemma_has_field_concat(c + st, o1, "reason"@);
        lemma_has_field_concat((c + st) + o1, o2, "reason"@);
        lemma_has_field_concat(((c + st) + o1) + o2, o3, "reason"@);
        lemma_has_field_concat((((c + st) + o1) + o2) + o3, o4, "reason"@);
        lemma_has_field_concat(((((c + st) + o1) + o2) + o3) + o4, s.other, "reason"@);
    }
}

/// Round-trip for session responses.
#[verifier::rlimit(100)]
pub proof fn lemma_round_trip_session_response(s: SessionResponseV)
    requires
        wf_session_response(s),
    ensures
        spec_decode(spec_encode_session_response(s)) == Ok::<EnvelopeV, ProtocolError>(
            EnvelopeV::SessionResponse(s),
        ),
{
    lemma_sresp_names(s);
    lemma_sresp_scan_common(s);
    lemma_state_roundtrip(s.state);
    reveal_strlit("to");
    reveal_strlit("from");
    reveal_strlit("pp");
    reveal_strlit("id");
    reveal_strlit("metadata");
    reveal_strlit("state");
    reveal_strlit("encryption");
    reveal_strlit("compression");
    reveal_strlit("scheme");
    reveal_strlit("reason");
    assert("to"@.len() == 2 && "from"@.len() == 4 && "pp"@.len() == 2 && "id"@.len() == 2
        && "metadata"@.len() == 8 && "state"@.len() == 5 && "encryption"@.len() == 10
        && "compression"@.len() == 11 && "scheme"@.len() == 6 && "reason"@.len() == 6);
    assert("state"@[0] == 's' && "scheme"@[0] == 's' && "reason"@[0] == 'r');
    let c = common_entries(s.to, s.from, s.pp, Some(s.id), s.metadata);
    let st = seq![("state"@, JVal::Str(state_name(s.state)))];
    let o1 = opt_str_entry("encryption"@, s.encryption);
    let o2 = opt_str_entry("compression"@, s.compression);
    let o3 = opt_str_entry("scheme"@, s.scheme);
    let o4 = opt_reason_entry("reason"@, s.reason);
    let fs = spec_encode_session_response(s);
    assert(fs == ((((((c + st) + o1) + o2) + o3) + o4)) + s.other);
    let a0 = sresp_scan0();
    let ac = sresp_scan(a0, c);
    lemma_sresp_scan_concat(a0, c, st);
    lemma_sresp_scan_single(ac, ("state"@, JVal::Str(state_name(s.state))));
    let b1 = sresp_scan(ac, st);
    assert(b1 =~= SrespScan { state: Some(JVal::Str(state_name(s.state))), ..ac });
    lemma_sresp_scan_concat(a0, c + st, o1);
    let b2 = sresp_scan(b1, o1);
    match s.encryption {
        Some(x) => {
            lemma_sresp_scan_single(b1, ("encryption"@, JVal::Str(x)));
        },
        None => {},
    }
    assert(b2 =~= SrespScan { enc: slot_str(s.encryption), ..b1 });
    lemma_sresp_scan_concat(a0, (c + st) + o1, o2);
    let b3 = sresp_scan(b2, o2);
    match s.compression {
        Some(x) => {
            lemma_sresp_scan_single(b2, ("compression"@, JVal::Str(x)));
        },
        None => {},
    }
    assert(b3 =~= SrespScan { cmp: slot_str(s.compression), ..b2 });
    lemma_sresp_scan_concat(a0, ((c + st) + o1) + o2, o3);
    let b4 = sresp_scan(b3, o3);
    match s.scheme {
        Some(x) => {
            lemma_sresp_scan_single(b3, ("scheme"@, JVal::Str(x)));
        },
        None => {},
    }
    assert(b4 =~= SrespScan { sch: slot_str(s.scheme), ..b3 });
    lemma_sresp_scan_concat(a0, (((c + st) + o1) + o2) + o3, o4);
    let b5 = sresp_scan(b4, o4);
    match s.reason {
        Some(r) => {
            lemma_sresp_scan_single(b4, ("reason"@, reason_jv(r)));
            lemma_parse_reason_roundtrip(r);
        },
        None => {},
    }
    assert(b5 =~= SrespScan {
        reason: match s.reason {
            Some(r) => Some(reason_jv(r)),
            None => None,
        },
        ..b4
    });
    lemma_sresp_scan_concat(a0, ((((c + st) + o1) + o2) + o3) + o4, s.other);
    assert(forall|i: int| 0 <= i < s.other.len() ==> !is_sresp_taken(#[trigger] s.other[i].0));
    lemma_sresp_scan_bucket(b5, s.other);
    let af = sresp_scan(a0, fs);
    assert(Seq::<(Seq<char>, JVal)>::empty() + s.other =~= s.other);
    assert(af =~= SrespScan {
        to: slot_str(s.to),
        from: slot_str(s.from),
        pp: slot_str(s.pp),
        id: Some(JVal::UInt(s.id)),
        metadata: slot_obj(s.metadata),
        state: Some(JVal::Str(state_name(s.state))),
        enc: slot_str(s.encryption),
        cmp: slot_str(s.compression),
        sch: slot_str(s.scheme),
        reason: match s.reason {
            Some(r) => Some(reason_jv(r)),
            None => None,
        },
        other: s.other,
    });
    assert(spec_decode_session_response(fs) == Ok::<EnvelopeV, ProtocolError>(
        EnvelopeV::SessionResponse(s),
    )) by {
        assert(state_of_slot(af.state) == Some(s.state));
        assert(SessionResponseV {
            to: opt_str_val(af.to),
            from: opt_str_val(af.from),
            pp: opt_str_val(af.pp),
            id: req_u64_val(af.id),
            metadata: opt_obj_val(af.metadata),
            state: s.state,
            encryption: opt_str_val(af.enc),
            compression: opt_str_val(af.cmp),
            scheme: opt_str_val(af.sch),
            reason: match af.reason {
                Some(rv) => parse_reason(rv),
                None => None,
            },
            other: af.other,
        } =~= s);
    }
    assert(spec_decode_session(fs) == spec_decode_session_response(fs));
    assert(spec_decode(fs) == spec_decode_session(fs));
}

/// The preserved fields of a notification must avoid the claimed names;
/// `reason` itself is free unless the event is `failed`, when the variant
/// would consume it.
pub open spec fn wf_notification(n: NotificationV) -> bool {
    forall|i: int|
        0 <= i < n.other.len() ==> !(is_ntf_taken(
            #[trigger] n.other[i].0,
            n.event matches EventV::Failed(_),
        ) || is_indicator(n.other[i].0))
}

#[verifier::rlimit(100)]
pub proof fn lemma_ntf_scan_common(n: NotificationV, tr: bool)
    ensures
        ntf_scan(
            ntf_scan0(),
            common_entries(n.to, n.from, n.pp, Some(n.id), n.metadata),
            tr,
        ) == (NtfScan {
            to: slot_str(n.to),
            from: slot_str(n.from),
            pp: slot_str(n.pp),
            id: Some(JVal::UInt(n.id)),
            metadata: slot_obj(n.metadata),
            event: None,
            reason: None,
            other: Seq::empty(),
        }),
{
    reveal_strlit("to");
    reveal_strlit("from");
    reveal_strlit("pp");
    reveal_strlit("id");
    reveal_strlit("metadata");
    assert("to"@.len() == 2 && "from"@.len() == 4 && "pp"@.len() == 2 && "id"@.len() == 2
        && "metadata"@.len() == 8);
    assert("to"@[0] == 't' && "pp"@[0] == 'p' && "id"@[0] == 'i');
    let c = common_entries(n.to, n.from, n.pp, Some(n.id), n.metadata);
    let a0 = ntf_scan0();
    let e1 = opt_str_entry("to"@, n.to);
    let e2 = opt_str_entry("from"@, n.from);
    let e3 = opt_str_entry("pp"@, n.pp);
    let e4 = opt_u64_entry("id"@, Some(n.id));
    let e5 = opt_obj_entry("metadata"@, n.metadata);
    assert(c == (((e1 + e2) + e3) + e4) + e5);
    let a1 = ntf_scan(a0, e1, tr);
    match n.to {
        Some(x) => {
            lemma_ntf_scan_single(a0, ("to"@, JVal::Str(x)), tr);
        },
        None => {},
    }
    assert(a1 =~= NtfScan { to: slot_str(n.to), ..a0 });
    lemma_ntf_scan_concat(a0, e1, e2, tr);
    let a2 = ntf_scan(a1, e2, tr);
    match n.from {
        Some(x) => {
            lemma_ntf_scan_single(a1, ("from"@, JVal::Str(x)), tr);
        },
        None => {},
    }
    assert(a2 =~= NtfScan { from: slot_str(n.from), ..a1 });
    lemma_ntf_scan_concat(a0, e1 + e2, e3, tr);
    let a3 = ntf_scan(a2, e3, tr);
    match n.pp {
        Some(x) => {
            lemma_ntf_scan_single(a2, ("pp"@, JVal::Str(x)), tr);
        },
        None => {},
    }
    assert(a3 =~= NtfScan { pp: slot_str(n.pp), ..a2 });
    lemma_ntf_scan_concat(a0, (e1 + e2) + e3, e4, tr);
    lemma_ntf_scan_single(a3, ("id"@, JVal::UInt(n.id)), tr);
    let a4 = ntf_scan(a3, e4, tr);
    assert(a4 =~= NtfScan { id: Some(JVal::UInt(n.id)), ..a3 });
    lemma_ntf_scan_concat(a0, ((e1 + e2) + e3) + e4, e5, tr);
    let a5 = ntf_scan(a4, e5, tr);
    match n.metadata {
        Some(f) => {
            lemma_ntf_scan_single(a4, ("metadata"@, JVal::Obj(f)), tr);
        },
        None => {},
    }
    assert(a5 =~= NtfScan { metadata: slot_obj(n.metadata), ..a4 });
    assert(ntf_scan(a0, c, tr) == a5);
}

/// Round-trip for notifications.
#[verifier::rlimit(100)]
pub proof fn lemma_round_trip_notification(n: NotificationV)
    requires
        wf_notification(n),
    ensures
        spec_decode(spec_encode_notification(n)) == Ok::<EnvelopeV, ProtocolError>(
            EnvelopeV::Notification(n),
        ),
{
    reveal_strlit("to");
    reveal_strlit("from");
    reveal_strlit("pp");
    reveal_strlit("id");
    reveal_strlit("metadata");
    reveal_strlit("event");
    reveal_strlit("reason");
    reveal_strlit("content");
    reveal_strlit("method");
    reveal_strlit("state");
    reveal_strlit("accepted");
    reveal_strlit("validated");
    reveal_strlit("authorized");
    reveal_strlit("dispatched");
    reveal_strlit("received");
    reveal_strlit("consumed");
    reveal_strlit("failed");
    assert("to"@.len() == 2 && "from"@.len() == 4 && "pp"@.len() == 2 && "id"@.len() == 2
        && "metadata"@.len() == 8 && "event"@.len() == 5 && "reason"@.len() == 6
        && "content"@.len() == 7 && "method"@.len() == 6 && "state"@.len() == 5
        && "accepted"@.len() == 8 && "validated"@.len() == 9 && "authorized"@.len() == 10
        && "dispatched"@.len() == 10 && "received"@.len() == 8 && "consumed"@.len() == 8
        && "failed"@.len() == 6);
    assert("event"@[0] == 'e' && "state"@[0] == 's' && "reason"@[0] == 'r' && "method"@[0]
        == 'm' && "accepted"@[0] == 'a' && "received"@[0] == 'r' && "consumed"@[0] == 'c'
        && "authorized"@[0] == 'a' && "dispatched"@[0] == 'd');
    let failed = n.event matches EventV::Failed(_);
    let c = common_entries(n.to, n.from, n.pp, Some(n.id), n.metadata);
    let ev = event_entries(n.event);
    let ev0 = ("event"@, JVal::Str(event_name(n.event)));
    let tail = (match n.event {
        EventV::Failed(Some(r)) => seq![("reason"@, reason_jv(r))],
        _ => Seq::<(Seq<char>, JVal)>::empty(),
    });
    assert(ev == seq![ev0] + tail);
    let fs = spec_encode_notification(n);
    assert(fs == (c + ev) + n.other);
    // names
    lemma_common_names(n.to, n.from, n.pp, Some(n.id), n.metadata);
    assert forall|k: Seq<char>| is_indicator(k) implies !has_field(c, k) by {
        if has_field(c, k) {
            let i = choose|i: int| 0 <= i < c.len() && c[i].0 == k;
            assert(is_common_name(c[i].0));
        }
    }
    assert forall|k: Seq<char>|
        k == "content"@ || k == "method"@ || k == "state"@ implies !has_field(n.other, k) by {
        if has_field(n.other, k) {
            let i = choose|i: int| 0 <= i < n.other.len() && n.other[i].0 == k;
            assert(!(is_ntf_taken(n.other[i].0, failed) || is_indicator(n.other[i].0)));
        }
    }
    assert(!has_field(n.other, "event"@)) by {
        if has_field(n.other, "event"@) {
            let i = choose|i: int| 0 <= i < n.other.len() && n.other[i].0 == "event"@;
            assert(!(is_ntf_taken(n.other[i].0, failed) || is_indicator(n.other[i].0)));
        }
    }
    assert(has_field(ev, "event"@)) by {
        assert(ev[0].0 == "event"@);
    }
    assert(!has_field(ev, "content"@) && !has_field(ev, "method"@) && !has_field(
        ev,
        "state"@,
    )) by {
        if has_field(ev, "content"@) {
            let i = choose|i: int| 0 <= i < ev.len() && ev[i].0 == "content"@;
        }
        if has_field(ev, "method"@) {
            let i = choose|i: int| 0 <= i < ev.len() && ev[i].0 == "method"@;
        }
        if has_field(ev, "state"@) {
            let i = choose|i: int| 0 <= i < ev.len() && ev[i].0 == "state"@;
        }
    }
    lemma_has_field_concat(c, ev, "event"@);
    lemma_has_field_concat(c + ev, n.other, "event"@);
    lemma_has_field_concat(c, ev, "content"@);
    lemma_has_field_concat(c + ev, n.other, "content"@);
    lemma_has_field_concat(c, ev, "method"@);
    lemma_has_field_concat(c + ev, n.other, "method"@);
    lemma_has_field_concat(c, ev, "state"@);
    lemma_has_field_concat(c + ev, n.other, "state"@);
    assert(has_field(fs, "event"@));
    assert(!has_field(fs, "content"@));
    assert(!has_field(fs, "method"@));
    assert(!has_field(fs, "state"@));
    assert(indicator_count(fs) == 1);
    // the failed pre-pass
    lemma_first_val_concat(c, ev, "event"@);
    lemma_first_val_concat(c + ev, n.other, "event"@);
    assert((seq![ev0] + tail)[0] == ev0);
    assert(first_val(ev, "event"@) == Some(JVal::Str(event_name(n.event))));
    assert(first_val(fs, "event"@) == Some(JVal::Str(event_name(n.event))));
    assert((first_val(fs, "event"@) == Some(JVal::Str("failed"@))) == failed);
    // scan
    lemma_ntf_scan_common(n, failed);
    let a0 = ntf_scan0();
    let ac = ntf_scan(a0, c, failed);
    lemma_ntf_scan_concat(a0, c, ev, failed);
    lemma_ntf_scan_concat(ac, seq![ev0], tail, failed);
    lemma_ntf_scan_single(ac, ev0, failed);
    let b1 = ntf_step(ac, ev0, failed);
    assert(b1 =~= NtfScan { event: Some(JVal::Str(event_name(n.event))), ..ac });
    let b2 = ntf_scan(b1, tail, failed);
    match n.event {
        EventV::Failed(Some(r)) => {
            lemma_ntf_scan_single(b1, ("reason"@, reason_jv(r)), failed);
            lemma_parse_reason_roundtrip(r);
            assert(b2 =~= NtfScan { reason: Some(reason_jv(r)), ..b1 });
        },
        _ => {
            assert(b2 == b1);
        },
    }
    lemma_ntf_scan_concat(a0, c + ev, n.other, failed);
    assert(ntf_scan(ac, ev, failed) == b2);
    assert(forall|i: int|
        0 <= i < n.other.len() ==> !is_ntf_taken(#[trigger] n.other[i].0, failed));
    lemma_ntf_scan_bucket(b2, n.other, failed);
    let af = ntf_scan(a0, fs, failed);
    assert(af == ntf_scan(b2, n.other, failed));
    assert(Seq::<(Seq<char>, JVal)>::empty() + n.other =~= n.other);
    assert(af =~= NtfScan {
        to: slot_str(n.to),
        from: slot_str(n.from),
        pp: slot_str(n.pp),
        id: Some(JVal::UInt(n.id)),
        metadata: slot_obj(n.metadata),
        event: Some(JVal::Str(event_name(n.event))),
        reason: match n.event {
            EventV::Failed(Some(r)) => Some(reason_jv(r)),
            _ => None,
        },
        other: n.other,
    });
    // the event is recovered exactly
    assert(event_of_scan(af.event, af.reason) == Some(n.event)) by {
        match n.event {
            EventV::Failed(r_opt) => {
                match r_opt {
                    Some(r) => {
                        lemma_parse_reason_roundtrip(r);
                    },
                    None => {},
                }
            },
            _ => {},
        }
    }
    assert(spec_decode_notification(fs) == Ok::<EnvelopeV, ProtocolError>(
        EnvelopeV::Notification(n),
    )) by {
        assert(NotificationV {
            to: opt_str_val(af.to),
            from: opt_str_val(af.from),
            pp: opt_str_val(af.pp),
            id: req_u64_val(af.id),
            metadata: opt_obj_val(af.metadata),
            event: n.event,
            other: af.other,
        } =~= n);
    }
}


/// A fallback frame is well-formed when no indicator field would pull it
/// into a variant on re-decoding.
pub open spec fn wf_unknown(fs: FieldsV) -> bool {
    indicator_count(fs) == 0
}

/// A constructible envelope: its preserved fields use no name that its own
/// serialization or the discrimination rule claim.
pub open spec fn wf_envelope(e: EnvelopeV) -> bool {
    match e {
        EnvelopeV::Message(m) => wf_message(m),
        EnvelopeV::Notification(n) => wf_notification(n),
        EnvelopeV::Command(c) => wf_command(c),
        EnvelopeV::SessionRequest(s) => wf_session_request(s),
        EnvelopeV::SessionResponse(s) => wf_session_response(s),
        EnvelopeV::Unknown(fs) => wf_unknown(fs),
    }
}

/// Round-trip: for every constructible well-formed envelope, decoding its
/// serialization yields the envelope itself.
pub proof fn lemma_round_trip(e: EnvelopeV)
    requires
        wf_envelope(e),
    ensures
        spec_decode(spec_encode(e)) == Ok::<EnvelopeV, ProtocolError>(e),
{
    match e {
        EnvelopeV::Message(m) => {
            lemma_round_trip_message(m);
        },
        EnvelopeV::Notification(n) => {
            lemma_round_trip_notification(n);
        },
        EnvelopeV::Command(c) => {
            lemma_round_trip_command(c);
        },
        EnvelopeV::SessionRequest(s) => {
            lemma_round_trip_session_request(s);
        },
        EnvelopeV::SessionResponse(s) => {
            lemma_round_trip_session_response(s);
        },
        EnvelopeV::Unknown(fs) => {
            assert(spec_decode(fs) == Ok::<EnvelopeV, ProtocolError>(EnvelopeV::Unknown(fs)));
        },
    }
}

} // verus!
