//! MessagePack bytes of values, by the `rmpv` crate.
use crate::term::{term_view, Integer, Term, TermView};
use rmpv::Value;
use vstd::prelude::*;
use vstd::utf8::encode_utf8;

verus! {

/// `rmpv`'s own value type, which its reader and writer work on.
#[verifier::external_type_specification]
#[verifier::external_body]
pub struct ExOutsideValue(rmpv::Value);

/// What an `rmpv::Value` holds.
pub uninterp spec fn value_content(v: rmpv::Value) -> TermView;

/// The bytes that `rmpv::encode::write_value` writes for a value of this content.
pub uninterp spec fn msgpack_bytes(v: TermView) -> Seq<u8>;

/// What `rmpv::decode::read_value` reads from the front of these bytes, or the text of its error.
pub uninterp spec fn msgpack_read(bytes: Seq<u8>) -> Result<TermView, Seq<char>>;

/// The reading of a value of content `v`.
pub open spec fn read_ok(v: TermView) -> Result<TermView, Seq<char>> {
    Ok(v)
}

/// The content of a reader's result.
pub open spec fn read_outcome(r: Result<Term, String>) -> Result<TermView, Seq<char>> {
    match r {
        Ok(v) => Ok(v@),
        Err(e) => Err(e@),
    }
}

/// The content of the outside reader's result.
pub open spec fn value_outcome(r: Result<rmpv::Value, String>) -> Result<TermView, Seq<char>> {
    match r {
        Ok(v) => Ok(value_content(v)),
        Err(e) => Err(e@),
    }
}

/// What values hold, one after another.
pub open spec fn contents(s: Seq<rmpv::Value>) -> Seq<TermView> {
    s.map_values(|v: rmpv::Value| value_content(v))
}

/// What pairs of values hold, one after another.
pub open spec fn pair_contents(s: Seq<(rmpv::Value, rmpv::Value)>) -> Seq<(TermView, TermView)> {
    s.map_values(|p: (rmpv::Value, rmpv::Value)| (value_content(p.0), value_content(p.1)))
}

/// A value as it is written: text that is not valid becomes binary.
pub open spec fn as_written(v: TermView) -> TermView
    decreases v,
{
    match v {
        TermView::Raw(b) => TermView::Binary(b),
        TermView::Array(a) => TermView::Array(
            Seq::new(
                a.len(),
                |i: int|
                    if 0 <= i < a.len() {
                        as_written(a[i])
                    } else {
                        TermView::Nil
                    },
            ),
        ),
        TermView::Mapping(m) => TermView::Mapping(
            Seq::new(
                m.len(),
                |i: int|
                    if 0 <= i < m.len() {
                        (as_written(m[i].0), as_written(m[i].1))
                    } else {
                        (TermView::Nil, TermView::Nil)
                    },
            ),
        ),
        _ => v,
    }
}

/// The bytes of a value.
pub open spec fn term_bytes(v: TermView) -> Seq<u8> {
    msgpack_bytes(as_written(v))
}

/// How many nested reads `rmpv::decode::read_value` allows.
pub open spec fn read_depth() -> int {
    1024
}

/// Whether the reader, with `depth` nested reads left, reads a written value back unchanged:
/// every length fits the 32-bit length fields, no text is invalid UTF-8 (such text is written
/// as binary), and the nesting stays within the reads left.
pub open spec fn readable(v: TermView, depth: int) -> bool
    decreases v,
{
    match v {
        TermView::Nil => depth >= 1,
        TermView::Boolean(_) => depth >= 1,
        TermView::Integer(_) => depth >= 1,
        TermView::F32(_) => depth >= 1,
        TermView::F64(_) => depth >= 1,
        TermView::String(s) => depth >= 3 && encode_utf8(s).len() <= u32::MAX,
        TermView::Raw(_) => false,
        TermView::Binary(b) => depth >= 2 && b.len() <= u32::MAX,
        TermView::Array(a) => depth >= 2 && a.len() <= u32::MAX && forall|i: int|
            0 <= i < a.len() ==> readable(#[trigger] a[i], depth - 2),
        TermView::Mapping(m) => depth >= 2 && m.len() <= u32::MAX && forall|i: int|
            0 <= i < m.len() ==> readable((#[trigger] m[i]).0, depth - 2) && readable(
                m[i].1,
                depth - 2,
            ),
        TermView::Ext(_, b) => depth >= 3 && b.len() <= u32::MAX,
    }
}

/// A value that is read back unchanged is written unchanged.
pub proof fn readable_is_as_written(v: TermView, depth: int)
    requires
        readable(v, depth),
    ensures
        as_written(v) == v,
    decreases v,
{
    match v {
        TermView::Array(a) => {
            assert forall|i: int| 0 <= i < a.len() implies as_written(a[i]) == a[i] by {
                assert(readable(a[i], depth - 2));
                readable_is_as_written(a[i], depth - 2);
            }
            assert(as_written(v)->Array_0 =~= a);
        },
        TermView::Mapping(m) => {
            assert forall|i: int| 0 <= i < m.len() implies as_written(m[i].0) == m[i].0
                && as_written(m[i].1) == m[i].1 by {
                assert(readable(m[i].0, depth - 2) && readable(m[i].1, depth - 2));
                readable_is_as_written(m[i].0, depth - 2);
                readable_is_as_written(m[i].1, depth - 2);
            }
            assert(as_written(v)->Mapping_0 =~= m);
        },
        _ => {},
    }
}

/// `rmpv::Value::Nil`.
#[verifier::external_body]
fn nil_value() -> (r: rmpv::Value)
    ensures
        value_content(r) == TermView::Nil,
{
    rmpv::Value::Nil
}

/// `rmpv::Value::Boolean` of a truth value.
#[verifier::external_body]
fn bool_value(b: bool) -> (r: rmpv::Value)
    ensures
        value_content(r) == TermView::Boolean(b),
{
    rmpv::Value::Boolean(b)
}

/// `rmpv::Value::from` a number without a sign.
#[verifier::external_body]
fn uint_value(n: u64) -> (r: rmpv::Value)
    ensures
        value_content(r) == TermView::Integer(n as int),
{
    rmpv::Value::from(n)
}

/// `rmpv::Value::from` a number with a sign.
#[verifier::external_body]
fn int_value(n: i64) -> (r: rmpv::Value)
    ensures
        value_content(r) == TermView::Integer(n as int),
{
    rmpv::Value::from(n)
}

/// `rmpv::Value::F32` of a float with these bits, read by `rmpv::decode::read_value` from behind
/// the marker for such a float.
#[verifier::external_body]
fn float32_value(bits: u32) -> (r: rmpv::Value)
    ensures
        value_content(r) == TermView::F32(bits),
{
    let bytes = [&[0xca], &bits.to_be_bytes()[..]].concat();
    rmpv::decode::read_value(&mut bytes.as_slice()).unwrap()
}

/// `rmpv::Value::F64` of a float with these bits, read by `rmpv::decode::read_value` from behind
/// the marker for such a float.
#[verifier::external_body]
fn float64_value(bits: u64) -> (r: rmpv::Value)
    ensures
        value_content(r) == TermView::F64(bits),
{
    let bytes = [&[0xcb], &bits.to_be_bytes()[..]].concat();
    rmpv::decode::read_value(&mut bytes.as_slice()).unwrap()
}

/// `rmpv::Value::from` a text.
#[verifier::external_body]
fn text_value(s: &str) -> (r: rmpv::Value)
    ensures
        value_content(r) == TermView::String(s@),
{
    rmpv::Value::from(s)
}

/// `rmpv::Value::Binary` of bytes.
#[verifier::external_body]
fn binary_value(b: Vec<u8>) -> (r: rmpv::Value)
    ensures
        value_content(r) == TermView::Binary(b@),
{
    rmpv::Value::Binary(b)
}

/// `rmpv::Value::Array` of values.
#[verifier::external_body]
fn array_value(a: Vec<rmpv::Value>) -> (r: rmpv::Value)
    ensures
        value_content(r) == TermView::Array(contents(a@)),
{
    rmpv::Value::Array(a)
}

/// `rmpv::Value::Map` of pairs of values.
#[verifier::external_body]
fn mapping_value(m: Vec<(rmpv::Value, rmpv::Value)>) -> (r: rmpv::Value)
    ensures
        value_content(r) == TermView::Mapping(pair_contents(m@)),
{
    rmpv::Value::Map(m)
}

/// `rmpv::Value::Ext` of a type and bytes.
#[verifier::external_body]
fn ext_value(t: i8, b: Vec<u8>) -> (r: rmpv::Value)
    ensures
        value_content(r) == TermView::Ext(t, b@),
{
    rmpv::Value::Ext(t, b)
}

/// The `rmpv::Value` of a value as it is written.
fn to_rmpv(v: &Term) -> (r: rmpv::Value)
    ensures
        value_content(r) == as_written(v@),
    decreases *v,
{
    match v {
        Term::Nil => nil_value(),
        Term::Boolean(b) => bool_value(*b),
        Term::Integer(Integer::PosInt(n)) => uint_value(*n),
        Term::Integer(Integer::NegInt(n)) => int_value(*n),
        Term::F32(b) => float32_value(*b),
        Term::F64(b) => float64_value(*b),
        Term::String(s) => text_value(s.as_str()),
        Term::Raw(b) => binary_value(b.clone()),
        Term::Binary(b) => binary_value(b.clone()),
        Term::Array(a) => {
            let mut items: Vec<rmpv::Value> = Vec::new();
            let mut i: usize = 0;
            while i < a.len()
                invariant
                    *v == Term::Array(*a),
                    i <= a@.len(),
                    items@.len() == i,
                    forall|j: int|
                        0 <= j < i ==> value_content(#[trigger] items@[j]) == as_written(a@[j]@),
                decreases a@.len() - i,
            {
                assert(decreases_to!(*v => v->Array_0));
                items.push(to_rmpv(&a[i]));
                i = i + 1;
            }
            assert(contents(items@) =~= as_written(v@)->Array_0);
            array_value(items)
        },
        Term::Mapping(m) => {
            let mut items: Vec<(rmpv::Value, rmpv::Value)> = Vec::new();
            let mut i: usize = 0;
            while i < m.len()
                invariant
                    *v == Term::Mapping(*m),
                    i <= m@.len(),
                    items@.len() == i,
                    forall|j: int|
                        0 <= j < i ==> value_content((#[trigger] items@[j]).0) == as_written(
                            m@[j].0@,
                        ) && value_content(items@[j].1) == as_written(m@[j].1@),
                decreases m@.len() - i,
            {
                assert(decreases_to!(*v => v->Mapping_0));
                let key = to_rmpv(&m[i].0);
                let value = to_rmpv(&m[i].1);
                items.push((key, value));
                i = i + 1;
            }
            assert(pair_contents(items@) =~= as_written(v@)->Mapping_0);
            mapping_value(items)
        },
        Term::Ext(t, b) => ext_value(*t, b.clone()),
    }
}

/// An `rmpv::Value` taken apart, down to the values in it.
enum Part {
    Nil,
    Boolean(bool),
    /// An integer, as what fits without a sign and what fits with one.
    Integer(Option<u64>, Option<i64>),
    F32(u32),
    F64(u64),
    String(String),
    Raw(Vec<u8>),
    Binary(Vec<u8>),
    Array(Vec<rmpv::Value>),
    Mapping(Vec<(rmpv::Value, rmpv::Value)>),
    Ext(i8, Vec<u8>),
}

/// What a value taken apart holds.
spec fn part_content(p: Part) -> TermView {
    match p {
        Part::Nil => TermView::Nil,
        Part::Boolean(b) => TermView::Boolean(b),
        Part::Integer(unsigned, signed) => TermView::Integer(
            if unsigned is Some {
                unsigned->0 as int
            } else {
                signed->0 as int
            },
        ),
        Part::F32(b) => TermView::F32(b),
        Part::F64(b) => TermView::F64(b),
        Part::String(s) => TermView::String(s@),
        Part::Raw(b) => TermView::Raw(b@),
        Part::Binary(b) => TermView::Binary(b@),
        Part::Array(a) => TermView::Array(contents(a@)),
        Part::Mapping(m) => TermView::Mapping(pair_contents(m@)),
        Part::Ext(t, b) => TermView::Ext(t, b@),
    }
}

/// An `rmpv::Value` taken apart, variant for variant: an integer by `rmpv::Integer::as_u64` and
/// `as_i64`, of which one succeeds, a text by whether `rmpv::Utf8String::is_str`. Claimed: it
/// holds what the value held.
#[verifier::external_body]
fn take_apart(v: rmpv::Value) -> (r: Part)
    ensures
        value_content(v) == part_content(r),
        r matches Part::Integer(unsigned, signed) ==> unsigned is Some || signed is Some,
{
    match v {
        Value::Nil => Part::Nil,
        Value::Boolean(b) => Part::Boolean(b),
        Value::Integer(n) => Part::Integer(n.as_u64(), n.as_i64()),
        Value::F32(f) => Part::F32(f.to_bits()),
        Value::F64(f) => Part::F64(f.to_bits()),
        Value::String(s) if s.is_str() => Part::String(s.into_str().unwrap()),
        Value::String(s) => Part::Raw(s.into_bytes()),
        Value::Binary(b) => Part::Binary(b),
        Value::Array(a) => Part::Array(a),
        Value::Map(m) => Part::Mapping(m),
        Value::Ext(t, b) => Part::Ext(t, b),
    }
}

/// The value of an `rmpv::Value`.
fn from_rmpv(v: rmpv::Value) -> (r: Term)
    ensures
        r@ == value_content(v),
    decreases value_content(v),
{
    match take_apart(v) {
        Part::Nil => Term::Nil,
        Part::Boolean(b) => Term::Boolean(b),
        Part::Integer(Some(n), _) => Term::Integer(Integer::PosInt(n)),
        Part::Integer(None, Some(n)) => Term::Integer(Integer::NegInt(n)),
        Part::Integer(None, None) => Term::Nil,
        Part::F32(b) => Term::F32(b),
        Part::F64(b) => Term::F64(b),
        Part::String(s) => Term::String(s),
        Part::Raw(b) => Term::Raw(b),
        Part::Binary(b) => Term::Binary(b),
        Part::Array(a) => {
            let mut a = a;
            let ghost all = a@;
            let n: usize = a.len();
            let mut back: Vec<Term> = Vec::new();
            while a.len() > 0
                invariant
                    value_content(v) == TermView::Array(contents(all)),
                    n == all.len(),
                    a@.len() <= n,
                    a@ == all.take(a@.len() as int),
                    back@.len() == n - a@.len(),
                    forall|j: int|
                        0 <= j < back@.len() ==> (#[trigger] back@[j])@ == value_content(
                            all[n - 1 - j],
                        ),
                decreases a@.len(),
            {
                let ghost last = a@.len() - 1;
                match a.pop() {
                    Some(x) => {
                        proof {
                            assert(x == all[last]);
                            assert(contents(all)[last] == value_content(x));
                            assert(decreases_to!(value_content(v) => value_content(v)->Array_0));
                        }
                        back.push(from_rmpv(x));
                    },
                    None => {},
                }
                assert(a@ =~= all.take(a@.len() as int));
            }
            let mut out: Vec<Term> = Vec::new();
            while back.len() > 0
                invariant
                    n == all.len(),
                    back@.len() + out@.len() == n,
                    forall|j: int|
                        0 <= j < back@.len() ==> (#[trigger] back@[j])@ == value_content(
                            all[n - 1 - j],
                        ),
                    forall|j: int|
                        0 <= j < out@.len() ==> (#[trigger] out@[j])@ == value_content(all[j]),
                decreases back@.len(),
            {
                match back.pop() {
                    Some(x) => {
                        out.push(x);
                    },
                    None => {},
                }
            }
            assert(term_view(Term::Array(out))->Array_0 =~= contents(all));
            Term::Array(out)
        },
        Part::Mapping(m) => {
            let mut m = m;
            let ghost all = m@;
            let n: usize = m.len();
            let mut back: Vec<(Term, Term)> = Vec::new();
            while m.len() > 0
                invariant
                    value_content(v) == TermView::Mapping(pair_contents(all)),
                    n == all.len(),
                    m@.len() <= n,
                    m@ == all.take(m@.len() as int),
                    back@.len() == n - m@.len(),
                    forall|j: int|
                        0 <= j < back@.len() ==> (#[trigger] back@[j]).0@ == value_content(
                            all[n - 1 - j].0,
                        ) && back@[j].1@ == value_content(all[n - 1 - j].1),
                decreases m@.len(),
            {
                let ghost last = m@.len() - 1;
                match m.pop() {
                    Some((key, value)) => {
                        proof {
                            assert((key, value) == all[last]);
                            assert(pair_contents(all)[last] == (
                                value_content(key),
                                value_content(value),
                            ));
                            assert(decreases_to!(value_content(v) => value_content(v)->Mapping_0));
                            assert(decreases_to!(value_content(v)->Mapping_0 => pair_contents(all)[last]));
                            assert(decreases_to!(pair_contents(all)[last] => pair_contents(all)[last].0));
                            assert(decreases_to!(pair_contents(all)[last] => pair_contents(all)[last].1));
                        }
                        let k = from_rmpv(key);
                        let w = from_rmpv(value);
                        back.push((k, w));
                    },
                    None => {},
                }
                assert(m@ =~= all.take(m@.len() as int));
            }
            let mut out: Vec<(Term, Term)> = Vec::new();
            while back.len() > 0
                invariant
                    n == all.len(),
                    back@.len() + out@.len() == n,
                    forall|j: int|
                        0 <= j < back@.len() ==> (#[trigger] back@[j]).0@ == value_content(
                            all[n - 1 - j].0,
                        ) && back@[j].1@ == value_content(all[n - 1 - j].1),
                    forall|j: int|
                        0 <= j < out@.len() ==> (#[trigger] out@[j]).0@ == value_content(all[j].0)
                            && out@[j].1@ == value_content(all[j].1),
                decreases back@.len(),
            {
                match back.pop() {
                    Some(x) => {
                        out.push(x);
                    },
                    None => {},
                }
            }
            assert(term_view(Term::Mapping(out))->Mapping_0 =~= pair_contents(all));
            Term::Mapping(out)
        },
        Part::Ext(t, b) => Term::Ext(t, b),
    }
}

/// `rmpv::encode::write_value` into an empty buffer, where writing cannot fail. Claimed: the
/// bytes depend on what the value holds alone, and the reader reads a `readable` value back.
#[verifier::external_body]
fn encode_value(v: &rmpv::Value) -> (r: Vec<u8>)
    ensures
        r@ == msgpack_bytes(value_content(*v)),
        readable(value_content(*v), read_depth()) ==> msgpack_read(r@) == read_ok(
            value_content(*v),
        ),
{
    let mut buf = Vec::new();
    rmpv::encode::write_value(&mut buf, v).unwrap();
    buf
}

/// `rmpv::decode::read_value` on a byte slice. Claimed: what it reads, and the text of its
/// error, depend on the bytes alone.
#[verifier::external_body]
fn decode_value(bytes: &[u8]) -> (r: Result<rmpv::Value, String>)
    ensures
        msgpack_read(bytes@) == value_outcome(r),
{
    rmpv::decode::read_value(&mut &bytes[..]).map_err(|e| e.to_string())
}

/// The bytes of a value.
pub fn write_value(v: &Term) -> (r: Vec<u8>)
    ensures
        r@ == term_bytes(v@),
        readable(v@, read_depth()) ==> msgpack_read(r@) == read_ok(v@),
{
    proof {
        if readable(v@, read_depth()) {
            readable_is_as_written(v@, read_depth());
        }
    }
    encode_value(&to_rmpv(v))
}

/// The value at the front of bytes, or the text of the reader's error.
pub fn read_value(bytes: &[u8]) -> (r: Result<Term, String>)
    ensures
        msgpack_read(bytes@) == read_outcome(r),
{
    match decode_value(bytes) {
        Ok(v) => Ok(from_rmpv(v)),
        Err(e) => Err(e),
    }
}

/// Writing changes a value in one way only: text that is not valid is written as the bytes that it
/// is. Whatever holds it keeps its kind, its length and its other items.
pub proof fn only_invalid_text_is_written_otherwise(v: TermView, b: Seq<u8>, i: int)
    ensures
        as_written(TermView::Raw(b)) == TermView::Binary(b),
        !(v is Raw) && !(v is Array) && !(v is Mapping) ==> as_written(v) == v,
        v matches TermView::Array(a) ==> {
            &&& as_written(v) is Array
            &&& as_written(v)->Array_0.len() == a.len()
            &&& 0 <= i < a.len() ==> as_written(v)->Array_0[i] == as_written(a[i])
        },
        v matches TermView::Mapping(m) ==> {
            &&& as_written(v) is Mapping
            &&& as_written(v)->Mapping_0.len() == m.len()
            &&& 0 <= i < m.len() ==> as_written(v)->Mapping_0[i].0 == as_written(m[i].0)
            &&& 0 <= i < m.len() ==> as_written(v)->Mapping_0[i].1 == as_written(m[i].1)
        },
        as_written(as_written(v)) == as_written(v),
    decreases v,
{
    match v {
        TermView::Array(a) => {
            assert forall|j: int| 0 <= j < a.len() implies as_written(as_written(a[j]))
                == as_written(a[j]) by {
                only_invalid_text_is_written_otherwise(a[j], b, 0);
            }
            assert(as_written(as_written(v))->Array_0 =~= as_written(v)->Array_0);
        },
        TermView::Mapping(m) => {
            assert forall|j: int| 0 <= j < m.len() implies as_written(as_written(m[j].0))
                == as_written(m[j].0) && as_written(as_written(m[j].1)) == as_written(m[j].1) by {
                only_invalid_text_is_written_otherwise(m[j].0, b, 0);
                only_invalid_text_is_written_otherwise(m[j].1, b, 0);
            }
            assert(as_written(as_written(v))->Mapping_0 =~= as_written(v)->Mapping_0);
        },
        _ => {},
    }
}

} // verus!
