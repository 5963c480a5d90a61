//! The message values that processes exchange, and their MessagePack form.
use vstd::prelude::*;

verus! {

/// A MessagePack integer.
#[derive(Debug, Clone, Copy)]
pub enum Integer {
    PosInt(u64),
    NegInt(i64),
}

impl View for Integer {
    type V = int;

    open spec fn view(&self) -> int {
        match *self {
            Integer::PosInt(n) => n as int,
            Integer::NegInt(n) => n as int,
        }
    }
}

/// A message value. Floats are held by their bit patterns; `Raw` is a string whose bytes are
/// not valid UTF-8.
#[derive(Debug)]
pub enum Term {
    Nil,
    Boolean(bool),
    Integer(Integer),
    F32(u32),
    F64(u64),
    String(String),
    Raw(Vec<u8>),
    Binary(Vec<u8>),
    Array(Vec<Term>),
    Mapping(Vec<(Term, Term)>),
    Ext(i8, Vec<u8>),
}

/// The mathematical content of a [`Term`].
pub enum TermView {
    Nil,
    Boolean(bool),
    Integer(int),
    F32(u32),
    F64(u64),
    String(Seq<char>),
    Raw(Seq<u8>),
    Binary(Seq<u8>),
    Array(Seq<TermView>),
    Mapping(Seq<(TermView, TermView)>),
    Ext(i8, Seq<u8>),
}

pub open spec fn term_view(v: Term) -> TermView
    decreases v,
{
    match v {
        Term::Nil => TermView::Nil,
        Term::Boolean(b) => TermView::Boolean(b),
        Term::Integer(n) => TermView::Integer(n@),
        Term::F32(b) => TermView::F32(b),
        Term::F64(b) => TermView::F64(b),
        Term::String(s) => TermView::String(s@),
        Term::Raw(b) => TermView::Raw(b@),
        Term::Binary(b) => TermView::Binary(b@),
        Term::Array(a) => TermView::Array(
            Seq::new(
                a@.len(),
                |i: int|
                    if 0 <= i < a@.len() {
                        term_view(a@[i])
                    } else {
                        TermView::Nil
                    },
            ),
        ),
        Term::Mapping(m) => TermView::Mapping(
            Seq::new(
                m@.len(),
                |i: int|
                    if 0 <= i < m@.len() {
                        (term_view(m@[i].0), term_view(m@[i].1))
                    } else {
                        (TermView::Nil, TermView::Nil)
                    },
            ),
        ),
        Term::Ext(t, b) => TermView::Ext(t, b@),
    }
}

impl View for Term {
    type V = TermView;

    open spec fn view(&self) -> TermView {
        term_view(*self)
    }
}

/// Whether two byte strings are equal.
fn bytes_eq(a: &Vec<u8>, b: &Vec<u8>) -> (r: bool)
    ensures
        r == (a@ == b@),
{
    if a.len() != b.len() {
        return false;
    }
    let mut i: usize = 0;
    while i < a.len()
        invariant
            a.len() == b.len(),
            i <= a.len(),
            forall|j: int| 0 <= j < i ==> a@[j] == b@[j],
        decreases a.len() - i,
    {
        if a[i] != b[i] {
            return false;
        }
        i = i + 1;
    }
    assert(a@ =~= b@);
    true
}

/// A copy of a byte string.
fn bytes_copy(a: &Vec<u8>) -> (r: Vec<u8>)
    ensures
        r@ == a@,
{
    let mut r: Vec<u8> = Vec::new();
    let mut i: usize = 0;
    while i < a.len()
        invariant
            i <= a.len(),
            r@ == a@.take(i as int),
        decreases a.len() - i,
    {
        r.push(a[i]);
        i = i + 1;
        assert(r@ =~= a@.take(i as int));
    }
    assert(r@ =~= a@);
    r
}

/// Whether two values are equal in content.
fn term_eq(a: &Term, b: &Term) -> (r: bool)
    ensures
        r == (a@ == b@),
    decreases *a,
{
    match (a, b) {
        (Term::Nil, Term::Nil) => true,
        (Term::Boolean(x), Term::Boolean(y)) => *x == *y,
        (Term::Integer(x), Term::Integer(y)) => integer_eq(x, y),
        (Term::F32(x), Term::F32(y)) => *x == *y,
        (Term::F64(x), Term::F64(y)) => *x == *y,
        (Term::String(x), Term::String(y)) => *x == *y,
        (Term::Raw(x), Term::Raw(y)) => bytes_eq(x, y),
        (Term::Binary(x), Term::Binary(y)) => bytes_eq(x, y),
        (Term::Array(x), Term::Array(y)) => {
            let ghost xs = a@->Array_0;
            let ghost ys = b@->Array_0;
            if x.len() != y.len() {
                assert(xs.len() != ys.len());
                return false;
            }
            let mut i: usize = 0;
            while i < x.len()
                invariant
                    *a == Term::Array(*x),
                    *b == Term::Array(*y),
                    a@ == TermView::Array(xs),
                    b@ == TermView::Array(ys),
                    x.len() == y.len(),
                    i <= x.len(),
                    forall|j: int| 0 <= j < i ==> xs[j] == ys[j],
                decreases x.len() - i,
            {
                assert(xs[i as int] == x@[i as int]@);
                assert(ys[i as int] == y@[i as int]@);
                if !term_eq(&x[i], &y[i]) {
                    return false;
                }
                i = i + 1;
            }
            assert(xs =~= ys);
            true
        },
        (Term::Mapping(x), Term::Mapping(y)) => {
            let ghost xs = a@->Mapping_0;
            let ghost ys = b@->Mapping_0;
            if x.len() != y.len() {
                assert(xs.len() != ys.len());
                return false;
            }
            let mut i: usize = 0;
            while i < x.len()
                invariant
                    *a == Term::Mapping(*x),
                    *b == Term::Mapping(*y),
                    a@ == TermView::Mapping(xs),
                    b@ == TermView::Mapping(ys),
                    x.len() == y.len(),
                    i <= x.len(),
                    forall|j: int| 0 <= j < i ==> xs[j] == ys[j],
                decreases x.len() - i,
            {
                assert(xs[i as int] == (x@[i as int].0@, x@[i as int].1@));
                assert(ys[i as int] == (y@[i as int].0@, y@[i as int].1@));
                if !term_eq(&x[i].0, &y[i].0) {
                    return false;
                }
                if !term_eq(&x[i].1, &y[i].1) {
                    return false;
                }
                i = i + 1;
            }
            assert(xs =~= ys);
            true
        },
        (Term::Ext(s, x), Term::Ext(t, y)) => *s == *t && bytes_eq(x, y),
        _ => false,
    }
}

/// Whether two integers are equal in value.
fn integer_eq(a: &Integer, b: &Integer) -> (r: bool)
    ensures
        r == (a@ == b@),
{
    match (a, b) {
        (Integer::PosInt(x), Integer::PosInt(y)) => *x == *y,
        (Integer::NegInt(x), Integer::NegInt(y)) => *x == *y,
        (Integer::PosInt(x), Integer::NegInt(y)) => *y >= 0 && *x == *y as u64,
        (Integer::NegInt(x), Integer::PosInt(y)) => *x >= 0 && *x as u64 == *y,
    }
}

/// A copy of a value, equal to it in content.
fn term_copy(v: &Term) -> (r: Term)
    ensures
        r@ == v@,
    decreases *v,
{
    match v {
        Term::Nil => Term::Nil,
        Term::Boolean(b) => Term::Boolean(*b),
        Term::Integer(n) => Term::Integer(*n),
        Term::F32(b) => Term::F32(*b),
        Term::F64(b) => Term::F64(*b),
        Term::String(s) => Term::String(s.clone()),
        Term::Raw(b) => Term::Raw(bytes_copy(b)),
        Term::Binary(b) => Term::Binary(bytes_copy(b)),
        Term::Array(a) => {
            let mut out: Vec<Term> = Vec::new();
            let mut i: usize = 0;
            while i < a.len()
                invariant
                    *v == Term::Array(*a),
                    i <= a.len(),
                    out.len() == i,
                    forall|j: int| 0 <= j < i ==> term_view(#[trigger] out@[j]) == term_view(a@[j]),
                decreases a.len() - i,
            {
                assert(decreases_to!(*v => v->Array_0));
                out.push(term_copy(&a[i]));
                i = i + 1;
            }
            let r = Term::Array(out);
            assert(r@->Array_0 =~= v@->Array_0);
            r
        },
        Term::Mapping(m) => {
            let mut out: Vec<(Term, Term)> = Vec::new();
            let mut i: usize = 0;
            while i < m.len()
                invariant
                    *v == Term::Mapping(*m),
                    i <= m.len(),
                    out.len() == i,
                    forall|j: int|
                        0 <= j < i ==> {
                            &&& term_view((#[trigger] out@[j]).0) == term_view(m@[j].0)
                            &&& term_view(out@[j].1) == term_view(m@[j].1)
                        },
                decreases m.len() - i,
            {
                assert(decreases_to!(*v => v->Mapping_0));
                out.push((term_copy(&m[i].0), term_copy(&m[i].1)));
                i = i + 1;
            }
            let r = Term::Mapping(out);
            assert(r@->Mapping_0 =~= v@->Mapping_0);
            r
        },
        Term::Ext(t, b) => Term::Ext(*t, bytes_copy(b)),
    }
}

impl Clone for Term {
    fn clone(&self) -> (r: Self)
        ensures
            r@ == self@,
    {
        term_copy(self)
    }
}

impl PartialEq for Term {
    fn eq(&self, other: &Self) -> (r: bool) {
        term_eq(self, other)
    }
}

impl vstd::std_specs::cmp::PartialEqSpecImpl for Term {
    open spec fn obeys_eq_spec() -> bool {
        true
    }

    open spec fn eq_spec(&self, other: &Self) -> bool {
        self@ == other@
    }
}

impl TermView {
    /// The unsigned integer that the value is, if it is one.
    pub open spec fn as_u64(self) -> Option<u64> {
        match self {
            TermView::Integer(n) => if 0 <= n <= u64::MAX {
                Some(n as u64)
            } else {
                None
            },
            _ => None,
        }
    }

    /// The text that the value is, if it is valid text.
    pub open spec fn as_str(self) -> Option<Seq<char>> {
        match self {
            TermView::String(s) => Some(s),
            _ => None,
        }
    }

    /// The key-value pairs that the value holds, if it is a mapping.
    pub open spec fn as_map(self) -> Option<Seq<(TermView, TermView)>> {
        match self {
            TermView::Mapping(m) => Some(m),
            _ => None,
        }
    }
}

impl Term {
    /// The value of an unsigned integer.
    pub fn from_u64(n: u64) -> (r: Term)
        ensures
            r@ == TermView::Integer(n as int),
    {
        Term::Integer(Integer::PosInt(n))
    }

    /// The value of a signed integer.
    pub fn from_i64(n: i64) -> (r: Term)
        ensures
            r@ == TermView::Integer(n as int),
    {
        if n < 0 {
            Term::Integer(Integer::NegInt(n))
        } else {
            Term::Integer(Integer::PosInt(n as u64))
        }
    }

    /// The value of a text.
    pub fn from_text(s: &str) -> (r: Term)
        ensures
            r@ == TermView::String(s@),
    {
        Term::String(s.to_string())
    }

    /// Whether the value is `Nil`.
    pub fn is_nil(&self) -> (r: bool)
        ensures
            r == (self@ == TermView::Nil),
    {
        match self {
            Term::Nil => true,
            _ => false,
        }
    }

    /// The unsigned integer that the value is, if it is one.
    pub fn as_u64(&self) -> (r: Option<u64>)
        ensures
            r == self@.as_u64(),
    {
        match self {
            Term::Integer(Integer::PosInt(n)) => Some(*n),
            Term::Integer(Integer::NegInt(n)) => if *n >= 0 {
                Some(*n as u64)
            } else {
                None
            },
            _ => None,
        }
    }

    /// The text that the value is, if it is valid text.
    pub fn as_str(&self) -> (r: Option<&str>)
        ensures
            (r is Some) == (self@.as_str() is Some),
            r is Some ==> r->0@ == self@.as_str()->0,
    {
        match self {
            Term::String(s) => Some(s.as_str()),
            _ => None,
        }
    }

    /// The key-value pairs that the value holds, if it is a mapping.
    pub fn as_map(&self) -> (r: Option<&Vec<(Term, Term)>>)
        ensures
            (r is Some) == (self@.as_map() is Some),
            r is Some ==> pairs_view(r->0@) == self@.as_map()->0,
    {
        match self {
            Term::Mapping(m) => {
                assert(pairs_view(m@) =~= self@->Mapping_0);
                Some(m)
            },
            _ => None,
        }
    }
}

/// The content of a list of key-value pairs.
pub open spec fn pairs_view(m: Seq<(Term, Term)>) -> Seq<(TermView, TermView)> {
    Seq::new(m.len(), |i: int| (m[i].0@, m[i].1@))
}

/// Values have the same content only where they are of the same kind and hold the same: truth
/// values, numbers, bits of floats, texts and bytes by themselves, arrays and mappings item by
/// item.
pub proof fn content_tells_values_apart(v: Term, w: Term, i: int)
    requires
        v@ == w@,
    ensures
        match (v, w) {
            (Term::Nil, Term::Nil) => true,
            (Term::Boolean(x), Term::Boolean(y)) => x == y,
            (Term::Integer(x), Term::Integer(y)) => x@ == y@,
            (Term::F32(x), Term::F32(y)) => x == y,
            (Term::F64(x), Term::F64(y)) => x == y,
            (Term::String(x), Term::String(y)) => x@ == y@,
            (Term::Raw(x), Term::Raw(y)) => x@ == y@,
            (Term::Binary(x), Term::Binary(y)) => x@ == y@,
            (Term::Array(x), Term::Array(y)) => {
                &&& x@.len() == y@.len()
                &&& 0 <= i < x@.len() ==> x@[i]@ == y@[i]@
            },
            (Term::Mapping(x), Term::Mapping(y)) => {
                &&& x@.len() == y@.len()
                &&& 0 <= i < x@.len() ==> x@[i].0@ == y@[i].0@ && x@[i].1@ == y@[i].1@
            },
            (Term::Ext(s, x), Term::Ext(t, y)) => s == t && x@ == y@,
            _ => false,
        },
{
    match (v, w) {
        (Term::Array(x), Term::Array(y)) => {
            assert(v@->Array_0.len() == x@.len());
            assert(w@->Array_0.len() == y@.len());
            if 0 <= i < x@.len() {
                assert(v@->Array_0[i] == x@[i]@);
                assert(w@->Array_0[i] == y@[i]@);
            }
        },
        (Term::Mapping(x), Term::Mapping(y)) => {
            assert(v@->Mapping_0.len() == x@.len());
            assert(w@->Mapping_0.len() == y@.len());
            if 0 <= i < x@.len() {
                assert(v@->Mapping_0[i] == (x@[i].0@, x@[i].1@));
                assert(w@->Mapping_0[i] == (y@[i].0@, y@[i].1@));
            }
        },
        _ => {},
    }
}

/// A value is an unsigned number exactly where it is an integer that fits one, and is then that
/// number; it is a text exactly where it is a valid one, and is then that text.
pub proof fn numbers_and_texts_are_themselves(v: TermView, n: u64, s: Seq<char>)
    ensures
        v == TermView::Integer(n as int) <==> v.as_u64() == Some(n),
        v matches TermView::Integer(k) ==> (k < 0 || k > u64::MAX ==> v.as_u64() is None),
        !(v is Integer) ==> v.as_u64() is None,
        v == TermView::String(s) <==> v.as_str() == Some(s),
        !(v is String) ==> v.as_str() is None,
        v is Mapping <==> v.as_map() is Some,
        v is Mapping ==> v.as_map()->0 == v->Mapping_0,
{
}

/// A value is read as what it was made of: a number as that number, a text as that text, and
/// neither as the other.
pub proof fn values_are_read_as_made(
    n: u64,
    s: &str,
    number: Term,
    text: Term,
    a: Option<u64>,
    b: Option<&str>,
    c: Option<u64>,
    d: Option<&str>,
)
    requires
        call_ensures(Term::from_u64, (n,), number),
        call_ensures(Term::from_text, (s,), text),
        call_ensures(Term::as_u64, (&number,), a),
        call_ensures(Term::as_str, (&text,), b),
        call_ensures(Term::as_u64, (&text,), c),
        call_ensures(Term::as_str, (&number,), d),
    ensures
        a == Some(n),
        b is Some,
        b->0@ == s@,
        c is None,
        d is None,
{
}

/// A number with a sign is read without one exactly where it is not negative.
pub proof fn signed_numbers_are_read(
    n: i64,
    t: Term,
    a: Option<u64>,
)
    requires
        call_ensures(Term::from_i64, (n,), t),
        call_ensures(Term::as_u64, (&t,), a),
    ensures
        n >= 0 ==> a == Some(n as u64),
        n < 0 ==> a is None,
{
}

} // verus!
