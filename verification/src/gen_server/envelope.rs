//! The payloads that servers and their clients exchange.
use crate::term::{pairs_view, Term, TermView};
use crate::text::str_eq;
use vstd::prelude::*;

verus! {

/// Whether an entry is the first one that tells the kind of a message: its key is `$gs`, and its
/// value a text, valid or not.
pub open spec fn tells_kind(e: (TermView, TermView)) -> bool {
    e.0 == TermView::String("$gs"@) && (e.1 is String || e.1 is Raw)
}

/// The kind of message that the entries tell, from the index on.
pub open spec fn kind_from(pairs: Seq<(TermView, TermView)>, i: int) -> Option<Seq<char>>
    decreases pairs.len() - i,
{
    if i < 0 || i >= pairs.len() {
        None
    } else if tells_kind(pairs[i]) {
        pairs[i].1.as_str()
    } else {
        kind_from(pairs, i + 1)
    }
}

/// The kind of message that a payload is, if it tells one.
pub open spec fn gs_type(v: TermView) -> Option<Seq<char>> {
    match v {
        TermView::Mapping(pairs) => kind_from(pairs, 0),
        _ => None,
    }
}

/// The value of the first entry with the key, from the index on.
pub open spec fn value_from(pairs: Seq<(TermView, TermView)>, key: Seq<char>, i: int) -> Option<
    TermView,
>
    decreases pairs.len() - i,
{
    if i < 0 || i >= pairs.len() {
        None
    } else if pairs[i].0 == TermView::String(key) {
        Some(pairs[i].1)
    } else {
        value_from(pairs, key, i + 1)
    }
}

/// The value of a field of a payload, if it has the field.
pub open spec fn field_of(v: TermView, key: Seq<char>) -> Option<TermView> {
    match v {
        TermView::Mapping(pairs) => value_from(pairs, key, 0),
        _ => None,
    }
}

/// The number in a field of a payload, if there is one.
pub open spec fn number_of(v: TermView, key: Seq<char>) -> Option<u64> {
    match field_of(v, key) {
        Some(x) => x.as_u64(),
        None => None,
    }
}

/// The value of a field of a payload, or nothing.
pub open spec fn field_or_nil(v: TermView, key: Seq<char>) -> TermView {
    match field_of(v, key) {
        Some(x) => x,
        None => TermView::Nil,
    }
}

/// The payload of a call: its kind, its reference and the request.
pub open spec fn call_payload(ref_id: u64, request: TermView) -> TermView {
    TermView::Mapping(
        seq![
            (TermView::String("$gs"@), TermView::String("call"@)),
            (TermView::String("ref"@), TermView::Integer(ref_id as int)),
            (TermView::String("req"@), request),
        ],
    )
}

/// The payload of a cast: its kind and the request.
pub open spec fn cast_payload(request: TermView) -> TermView {
    TermView::Mapping(
        seq![
            (TermView::String("$gs"@), TermView::String("cast"@)),
            (TermView::String("req"@), request),
        ],
    )
}

/// The payload of a reply: its kind, the reference of the call and the response.
pub open spec fn reply_payload(ref_id: u64, response: TermView) -> TermView {
    TermView::Mapping(
        seq![
            (TermView::String("$gs"@), TermView::String("reply"@)),
            (TermView::String("ref"@), TermView::Integer(ref_id as int)),
            (TermView::String("val"@), response),
        ],
    )
}

/// The kind of message that a payload is, if it tells one.
pub fn extract_gs_type(value: &Term) -> (r: Option<&str>)
    ensures
        (r is Some) == (gs_type(value@) is Some),
        r is Some ==> r->0@ == gs_type(value@)->0,
{
    let entries = match value.as_map() {
        Some(m) => m,
        None => {
            return None;
        },
    };
    let ghost pairs = value@->Mapping_0;
    assert(pairs =~= pairs_view(entries@));
    let mut i: usize = 0;
    while i < entries.len()
        invariant
            value@ == TermView::Mapping(pairs),
            pairs == pairs_view(entries@),
            i <= entries@.len(),
            kind_from(pairs, 0) == kind_from(pairs, i as int),
        decreases entries@.len() - i,
    {
        assert(pairs[i as int] == (entries@[i as int].0@, entries@[i as int].1@));
        let is_kind = match entries[i].0.as_str() {
            Some(k) => str_eq(k, "$gs"),
            None => false,
        };
        if is_kind {
            match &entries[i].1 {
                Term::String(s) => {
                    return Some(s.as_str());
                },
                Term::Raw(_) => {
                    return None;
                },
                _ => {},
            }
        }
        i = i + 1;
    }
    None
}

/// A copy of the value of a field of a payload, if it has the field.
pub fn extract_field(value: &Term, field: &str) -> (r: Option<Term>)
    ensures
        (r is Some) == (field_of(value@, field@) is Some),
        r is Some ==> r->0@ == field_of(value@, field@)->0,
{
    let entries = match value.as_map() {
        Some(m) => m,
        None => {
            return None;
        },
    };
    let ghost pairs = value@->Mapping_0;
    assert(pairs =~= pairs_view(entries@));
    let mut i: usize = 0;
    while i < entries.len()
        invariant
            value@ == TermView::Mapping(pairs),
            pairs == pairs_view(entries@),
            i <= entries@.len(),
            value_from(pairs, field@, 0) == value_from(pairs, field@, i as int),
        decreases entries@.len() - i,
    {
        assert(pairs[i as int] == (entries@[i as int].0@, entries@[i as int].1@));
        let is_key = match entries[i].0.as_str() {
            Some(k) => str_eq(k, field),
            None => false,
        };
        if is_key {
            return Some(entries[i].1.clone());
        }
        i = i + 1;
    }
    None
}

/// The number in a field of a payload, if there is one.
pub fn extract_number(value: &Term, field: &str) -> (r: Option<u64>)
    ensures
        r == number_of(value@, field@),
{
    match extract_field(value, field) {
        Some(v) => v.as_u64(),
        None => None,
    }
}

/// A copy of the value of a field of a payload, or nothing.
pub fn extract_or_nil(value: &Term, field: &str) -> (r: Term)
    ensures
        r@ == field_or_nil(value@, field@),
{
    match extract_field(value, field) {
        Some(v) => v,
        None => Term::Nil,
    }
}

/// The payload of a call.
pub fn call_envelope(ref_id: u64, request: Term) -> (r: Term)
    ensures
        r@ == call_payload(ref_id, request@),
{
    let mut pairs: Vec<(Term, Term)> = Vec::new();
    pairs.push((Term::from_text("$gs"), Term::from_text("call")));
    pairs.push((Term::from_text("ref"), Term::from_u64(ref_id)));
    pairs.push((Term::from_text("req"), request));
    let r = Term::Mapping(pairs);
    assert(r@->Mapping_0 =~= call_payload(ref_id, request@)->Mapping_0);
    r
}

/// The payload of a cast.
pub fn cast_envelope(request: Term) -> (r: Term)
    ensures
        r@ == cast_payload(request@),
{
    let mut pairs: Vec<(Term, Term)> = Vec::new();
    pairs.push((Term::from_text("$gs"), Term::from_text("cast")));
    pairs.push((Term::from_text("req"), request));
    let r = Term::Mapping(pairs);
    assert(r@->Mapping_0 =~= cast_payload(request@)->Mapping_0);
    r
}

/// The payload of a reply.
pub fn reply_envelope(ref_id: u64, response: Term) -> (r: Term)
    ensures
        r@ == reply_payload(ref_id, response@),
{
    let mut pairs: Vec<(Term, Term)> = Vec::new();
    pairs.push((Term::from_text("$gs"), Term::from_text("reply")));
    pairs.push((Term::from_text("ref"), Term::from_u64(ref_id)));
    pairs.push((Term::from_text("val"), response));
    let r = Term::Mapping(pairs);
    assert(r@->Mapping_0 =~= reply_payload(ref_id, response@)->Mapping_0);
    r
}

proof fn keys_differ()
    ensures
        "$gs"@ != "ref"@,
        "$gs"@ != "req"@,
        "$gs"@ != "val"@,
        "ref"@ != "req"@,
        "ref"@ != "val"@,
        "req"@ != "val"@,
        "call"@ != "cast"@,
        "call"@ != "reply"@,
        "cast"@ != "reply"@,
{
    reveal_strlit("$gs");
    reveal_strlit("ref");
    reveal_strlit("req");
    reveal_strlit("val");
    reveal_strlit("call");
    reveal_strlit("cast");
    reveal_strlit("reply");
    assert("$gs"@[0] == '$');
    assert("ref"@[0] == 'r');
    assert("req"@[0] == 'r');
    assert("val"@[0] == 'v');
    assert("ref"@[2] == 'f');
    assert("req"@[2] == 'q');
    assert("call"@.len() == 4);
    assert("cast"@.len() == 4);
    assert("reply"@.len() == 5);
    assert("call"@[2] == 'l');
    assert("cast"@[2] == 's');
}

/// What is put into the payload of a call is found in it: its kind, reference and request.
pub proof fn call_round_trip(ref_id: u64, request: TermView)
    ensures
        gs_type(call_payload(ref_id, request)) == Some("call"@),
        number_of(call_payload(ref_id, request), "ref"@) == Some(ref_id),
        field_or_nil(call_payload(ref_id, request), "req"@) == request,
{
    keys_differ();
    reveal_with_fuel(value_from, 4);
    reveal_with_fuel(kind_from, 2);
}

/// What is put into the payload of a cast is found in it: its kind and request.
pub proof fn cast_round_trip(request: TermView)
    ensures
        gs_type(cast_payload(request)) == Some("cast"@),
        field_or_nil(cast_payload(request), "req"@) == request,
        "cast"@ != "call"@,
{
    keys_differ();
    reveal_with_fuel(value_from, 4);
    reveal_with_fuel(kind_from, 2);
}

/// What is put into the payload of a reply is found in it: its kind, reference and response.
pub proof fn reply_round_trip(ref_id: u64, response: TermView)
    ensures
        gs_type(reply_payload(ref_id, response)) == Some("reply"@),
        number_of(reply_payload(ref_id, response), "ref"@) == Some(ref_id),
        field_or_nil(reply_payload(ref_id, response), "val"@) == response,
        "reply"@ != "call"@,
        "reply"@ != "cast"@,
{
    keys_differ();
    reveal_with_fuel(value_from, 4);
    reveal_with_fuel(kind_from, 2);
}

proof fn kind_before_is_skipped(pairs: Seq<(TermView, TermView)>, from: int, to: int)
    requires
        0 <= from <= to <= pairs.len(),
        forall|j: int| from <= j < to ==> !tells_kind(#[trigger] pairs[j]),
    ensures
        kind_from(pairs, from) == kind_from(pairs, to),
    decreases to - from,
{
    if from < to {
        kind_before_is_skipped(pairs, from + 1, to);
    }
}

/// The kind of a message is the text that its first entry with the key `$gs` and a text has,
/// whatever other entries it has and in whatever order; a payload without such an entry, or that
/// is no mapping, tells none.
pub proof fn kind_is_the_text_under_the_key(v: TermView, pairs: Seq<(TermView, TermView)>, i: int)
    ensures
        !(v is Mapping) ==> gs_type(v) is None,
        v == TermView::Mapping(pairs) && (forall|j: int|
            0 <= j < pairs.len() ==> (#[trigger] pairs[j]).0 != TermView::String("$gs"@)) ==> gs_type(
            v,
        ) is None,
        v == TermView::Mapping(pairs) && 0 <= i < pairs.len() && pairs[i].0 == TermView::String(
            "$gs"@,
        ) && pairs[i].1 is String && (forall|j: int|
            0 <= j < i && (#[trigger] pairs[j]).0 == TermView::String("$gs"@) ==> !(
            pairs[j].1 is String) && !(pairs[j].1 is Raw)) ==> gs_type(v) == Some(
            pairs[i].1->String_0,
        ),
{
    if v == TermView::Mapping(pairs) {
        if forall|j: int|
            0 <= j < pairs.len() ==> (#[trigger] pairs[j]).0 != TermView::String("$gs"@) {
            kind_before_is_skipped(pairs, 0, pairs.len() as int);
        }
        if 0 <= i < pairs.len() && pairs[i].0 == TermView::String("$gs"@) && pairs[i].1 is String
            && forall|j: int|
            0 <= j < i && (#[trigger] pairs[j]).0 == TermView::String("$gs"@) ==> !(
            pairs[j].1 is String) && !(pairs[j].1 is Raw) {
            assert forall|j: int| 0 <= j < i implies !tells_kind(#[trigger] pairs[j]) by {
                assert(pairs[j].0 == TermView::String("$gs"@) ==> !(pairs[j].1 is String) && !(
                pairs[j].1 is Raw));
            }
            kind_before_is_skipped(pairs, 0, i);
        }
    }
}

proof fn value_before_is_skipped(
    pairs: Seq<(TermView, TermView)>,
    key: Seq<char>,
    from: int,
    to: int,
)
    requires
        0 <= from <= to <= pairs.len(),
        forall|j: int| from <= j < to ==> (#[trigger] pairs[j]).0 != TermView::String(key),
    ensures
        value_from(pairs, key, from) == value_from(pairs, key, to),
    decreases to - from,
{
    if from < to {
        value_before_is_skipped(pairs, key, from + 1, to);
    }
}

/// The value of a field is that of the first entry with its key; a payload without such an entry,
/// or that is no mapping, does not have the field, and what is taken from it is nothing.
pub proof fn field_is_the_value_under_the_key(
    v: TermView,
    pairs: Seq<(TermView, TermView)>,
    key: Seq<char>,
    i: int,
)
    ensures
        !(v is Mapping) ==> field_of(v, key) is None,
        v == TermView::Mapping(pairs) && (forall|j: int|
            0 <= j < pairs.len() ==> (#[trigger] pairs[j]).0 != TermView::String(key)) ==> field_of(
            v,
            key,
        ) is None,
        v == TermView::Mapping(pairs) && 0 <= i < pairs.len() && pairs[i].0 == TermView::String(key)
            && (forall|j: int| 0 <= j < i ==> (#[trigger] pairs[j]).0 != TermView::String(key))
            ==> field_of(v, key) == Some(pairs[i].1),
        field_of(v, key) is None ==> field_or_nil(v, key) == TermView::Nil && number_of(
            v,
            key,
        ) is None,
        field_of(v, key) is Some ==> field_or_nil(v, key) == field_of(v, key)->0,
        forall|n: u64|
            field_of(v, key) == Some(TermView::Integer(n as int)) ==> #[trigger] number_of(v, key)
                == Some(n),
{
    if v == TermView::Mapping(pairs) {
        if forall|j: int| 0 <= j < pairs.len() ==> (#[trigger] pairs[j]).0 != TermView::String(key) {
            value_before_is_skipped(pairs, key, 0, pairs.len() as int);
        }
        if 0 <= i < pairs.len() && pairs[i].0 == TermView::String(key) && forall|j: int|
            0 <= j < i ==> (#[trigger] pairs[j]).0 != TermView::String(key) {
            value_before_is_skipped(pairs, key, 0, i);
        }
    }
}

} // verus!
