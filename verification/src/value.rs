//! The library's own model of a parsed wire document: a JSON-like value and
//! the generic field-set (ordered field name / value pairs) that every frame
//! carries.

use vstd::prelude::*;

verus! {

/// A JSON-like value as carried by a wire frame. Numbers are restricted to
/// unsigned 64-bit integers, which covers every numeric field the protocol
/// reads (`id`, reason codes); a frame with any other number is treated as
/// malformed by the codec.
#[derive(Debug)]
pub enum JsonValue {
    Null,
    Bool(bool),
    UInt(u64),
    Str(String),
    Arr(Vec<JsonValue>),
    Obj(Vec<(String, JsonValue)>),
}

/// Mathematical model of a `JsonValue`.
#[verifier::ext_equal]
pub enum JVal {
    Null,
    Bool(bool),
    UInt(u64),
    Str(Seq<char>),
    Arr(Seq<JVal>),
    Obj(Seq<(Seq<char>, JVal)>),
}

pub open spec fn jval_of(v: JsonValue) -> JVal
    decreases v,
{
    match v {
        JsonValue::Null => JVal::Null,
        JsonValue::Bool(b) => JVal::Bool(b),
        JsonValue::UInt(n) => JVal::UInt(n),
        JsonValue::Str(s) => JVal::Str(s@),
        JsonValue::Arr(items) => JVal::Arr(jvals_of(items@)),
        JsonValue::Obj(fields) => JVal::Obj(jentries_of(fields@)),
    }
}

pub open spec fn jvals_of(s: Seq<JsonValue>) -> Seq<JVal>
    decreases s,
{
    if s.len() == 0 {
        Seq::empty()
    } else {
        seq![jval_of(s[0])] + jvals_of(s.subrange(1, s.len() as int))
    }
}

pub open spec fn jentries_of(s: Seq<(String, JsonValue)>) -> Seq<(Seq<char>, JVal)>
    decreases s,
{
    if s.len() == 0 {
        Seq::empty()
    } else {
        seq![(s[0].0@, jval_of(s[0].1))] + jentries_of(s.subrange(1, s.len() as int))
    }
}

impl View for JsonValue {
    type V = JVal;

    open spec fn view(&self) -> JVal {
        jval_of(*self)
    }
}

/// One frame's generic field-set: field names with their values, in wire order.
pub type Fields = Vec<(String, JsonValue)>;

/// Model of a field-set.
pub type FieldsV = Seq<(Seq<char>, JVal)>;

pub open spec fn fields_view(f: Fields) -> FieldsV {
    jentries_of(f@)
}

/// No two fields share a name.
pub open spec fn unique_names(fs: FieldsV) -> bool {
    forall|i: int, j: int| 0 <= i < j < fs.len() ==> fs[i].0 != fs[j].0
}

/// A field of that name is present.
pub open spec fn has_field(fs: FieldsV, name: Seq<char>) -> bool {
    exists|i: int| 0 <= i < fs.len() && fs[i].0 == name
}

/// The value of the first field of that name, if any.
pub open spec fn first_val(fs: FieldsV, name: Seq<char>) -> Option<JVal>
    decreases fs.len(),
{
    if fs.len() == 0 {
        None
    } else if fs[0].0 == name {
        Some(fs[0].1)
    } else {
        first_val(fs.subrange(1, fs.len() as int), name)
    }
}

pub proof fn lemma_jentries_push(s: Seq<(String, JsonValue)>, x: (String, JsonValue))
    ensures
        jentries_of(s.push(x)) == jentries_of(s) + seq![(x.0@, jval_of(x.1))],
    decreases s.len(),
{
    if s.len() == 0 {
        assert(s.push(x).subrange(1, 1) =~= Seq::<(String, JsonValue)>::empty());
        assert(jentries_of(Seq::<(String, JsonValue)>::empty()) == Seq::<(Seq<char>,
            JVal)>::empty());
        assert(s.push(x)[0] == x);
        assert(jentries_of(s.push(x)) =~~= jentries_of(s) + seq![(x.0@, jval_of(x.1))]);
    } else {
        let t = s.subrange(1, s.len() as int);
        lemma_jentries_push(t, x);
        assert(s.push(x).subrange(1, s.push(x).len() as int) =~= t.push(x));
        assert(s.push(x)[0] == s[0]);
        assert(jentries_of(s.push(x)) == seq![(s[0].0@, jval_of(s[0].1))] + (jentries_of(t)
            + seq![(x.0@, jval_of(x.1))]));
        assert(jentries_of(s) == seq![(s[0].0@, jval_of(s[0].1))] + jentries_of(t));
        assert(jentries_of(s.push(x)) =~~= jentries_of(s) + seq![(x.0@, jval_of(x.1))]);
    }
}

pub proof fn lemma_jvals_push(s: Seq<JsonValue>, x: JsonValue)
    ensures
        jvals_of(s.push(x)) == jvals_of(s) + seq![jval_of(x)],
    decreases s.len(),
{
    if s.len() == 0 {
        assert(s.push(x).subrange(1, 1) =~= Seq::<JsonValue>::empty());
        assert(jvals_of(Seq::<JsonValue>::empty()) == Seq::<JVal>::empty());
        assert(s.push(x)[0] == x);
        assert(jvals_of(s.push(x)) =~~= jvals_of(s) + seq![jval_of(x)]);
    } else {
        let t = s.subrange(1, s.len() as int);
        lemma_jvals_push(t, x);
        assert(s.push(x).subrange(1, s.push(x).len() as int) =~= t.push(x));
        assert(s.push(x)[0] == s[0]);
        assert(jvals_of(s.push(x)) == seq![jval_of(s[0])] + (jvals_of(t) + seq![jval_of(x)]));
        assert(jvals_of(s) == seq![jval_of(s[0])] + jvals_of(t));
        assert(jvals_of(s.push(x)) =~~= jvals_of(s) + seq![jval_of(x)]);
    }
}

pub proof fn lemma_jentries_props(s: Seq<(String, JsonValue)>)
    ensures
        jentries_of(s).len() == s.len(),
        forall|i: int| 0 <= i < s.len() ==> jentries_of(s)[i] == (s[i].0@, jval_of(s[i].1)),
    decreases s.len(),
{
    if s.len() > 0 {
        let t = s.subrange(1, s.len() as int);
        lemma_jentries_props(t);
        assert forall|i: int| 0 <= i < s.len() implies jentries_of(s)[i] == (
        s[i].0@,
        jval_of(s[i].1),
        ) by {
            if i > 0 {
                assert(jentries_of(s)[i] == jentries_of(t)[i - 1]);
                assert(t[i - 1] == s[i]);
            }
        }
    }
}

pub proof fn lemma_first_val_prefix(fs: FieldsV, name: Seq<char>, i: int)
    requires
        0 <= i <= fs.len(),
        forall|j: int| 0 <= j < i ==> fs[j].0 != name,
    ensures
        first_val(fs, name) == first_val(fs.subrange(i, fs.len() as int), name),
    decreases i,
{
    if i == 0 {
        assert(fs.subrange(0, fs.len() as int) =~= fs);
    } else {
        let t = fs.subrange(1, fs.len() as int);
        assert(forall|j: int| 0 <= j < i - 1 ==> t[j] == fs[j + 1]);
        lemma_first_val_prefix(t, name, i - 1);
        assert(t.subrange(i - 1, t.len() as int) =~= fs.subrange(i, fs.len() as int));
    }
}

pub proof fn lemma_has_first(fs: FieldsV, name: Seq<char>)
    ensures
        has_field(fs, name) <==> first_val(fs, name) is Some,
    decreases fs.len(),
{
    if fs.len() == 0 {
    } else {
        let t = fs.subrange(1, fs.len() as int);
        lemma_has_first(t, name);
        if fs[0].0 == name {
            assert(has_field(fs, name));
        } else {
            if has_field(fs, name) {
                let i = choose|i: int| 0 <= i < fs.len() && fs[i].0 == name;
                assert(t[i - 1] == fs[i]);
                assert(has_field(t, name));
            }
            if has_field(t, name) {
                let i = choose|i: int| 0 <= i < t.len() && t[i].0 == name;
                assert(fs[i + 1] == t[i]);
                assert(has_field(fs, name));
            }
        }
    }
}

/// Finds the first field of that name, returning a borrow of its value.
pub fn find_field<'a>(fields: &'a Fields, name: &str) -> (r: Option<&'a JsonValue>)
    ensures
        match r {
            Some(v) => has_field(fields_view(*fields), name@) && first_val(
                fields_view(*fields),
                name@,
            ) == Some(jval_of(*v)),
            None => !has_field(fields_view(*fields), name@) && first_val(
                fields_view(*fields),
                name@,
            ) is None,
        },
{
    let ghost fv = fields_view(*fields);
    proof {
        lemma_jentries_props(fields@);
        lemma_has_first(fv, name@);
    }
    let mut i: usize = 0;
    while i < fields.len()
        invariant
            i <= fields.len(),
            fv == fields_view(*fields),
            fv.len() == fields@.len(),
            forall|j: int| 0 <= j < fields@.len() ==> fv[j] == (
                fields@[j].0@,
                jval_of(fields@[j].1),
            ),
            forall|j: int| 0 <= j < i ==> fv[j].0 != name@,
        decreases fields.len() - i,
    {
        if str_eq(fields[i].0.as_str(), name) {
            proof {
                lemma_first_val_prefix(fv, name@, i as int);
                assert(fv.subrange(i as int, fv.len() as int)[0] == fv[i as int]);
            }
            return Some(&fields[i].1);
        }
        i = i + 1;
    }
    proof {
        lemma_first_val_prefix(fv, name@, fv.len() as int);
        assert(fv.subrange(fv.len() as int, fv.len() as int) =~= Seq::<(Seq<char>, JVal)>::empty());
    }
    None
}

/// Relies on str's `==` (PartialEq::eq): two slices are equal exactly when
/// their characters are.
#[verifier::external_body]
pub(crate) fn str_eq(a: &str, b: &str) -> (r: bool)
    ensures
        r == (a@ == b@),
{
    a == b
}

/// Appends one named value to a field-set.
pub fn push_field(out: &mut Fields, name: &str, v: JsonValue)
    ensures
        fields_view(*final(out)) == fields_view(*old(out)) + seq![(name@, jval_of(v))],
{
    let ghost s = out@;
    let key = name.to_owned();
    let ghost p = (key, v);
    out.push((key, v));
    proof {
        lemma_jentries_push(s, p);
    }
}

} // verus!
