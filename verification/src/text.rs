//! Text building: decimal numbers and concatenation.
use vstd::prelude::*;
use vstd::string::*;

verus! {

/// The digit character of `d`, for `d` below ten.
pub open spec fn digit_char(d: nat) -> char {
    (d + 48) as char
}

/// The decimal notation of `n`, without leading zeros.
pub open spec fn decimal(n: nat) -> Seq<char>
    decreases n,
{
    if n < 10 {
        seq![digit_char(n)]
    } else {
        decimal(n / 10).push(digit_char(n % 10))
    }
}

/// The digit `d` as text.
fn digit_str(d: u64) -> (r: &'static str)
    requires
        d < 10,
    ensures
        r@ == seq![digit_char(d as nat)],
{
    proof {
        reveal_strlit("0");
        reveal_strlit("1");
        reveal_strlit("2");
        reveal_strlit("3");
        reveal_strlit("4");
        reveal_strlit("5");
        reveal_strlit("6");
        reveal_strlit("7");
        reveal_strlit("8");
        reveal_strlit("9");
    }
    if d == 0 {
        "0"
    } else if d == 1 {
        "1"
    } else if d == 2 {
        "2"
    } else if d == 3 {
        "3"
    } else if d == 4 {
        "4"
    } else if d == 5 {
        "5"
    } else if d == 6 {
        "6"
    } else if d == 7 {
        "7"
    } else if d == 8 {
        "8"
    } else {
        "9"
    }
}

/// Appends the decimal notation of `n` to `s`.
pub fn push_decimal(s: &mut String, n: u64)
    ensures
        final(s)@ == old(s)@ + decimal(n as nat),
    decreases n,
{
    if n >= 10 {
        push_decimal(s, n / 10);
    }
    s.append(digit_str(n % 10));
}

/// Whether two texts are equal.
pub fn str_eq(a: &str, b: &str) -> (r: bool)
    ensures
        r == (a@ == b@),
{
    a.to_string() == b.to_string()
}

/// Two distinct numbers have distinct decimal notations.
pub proof fn decimal_is_injective(a: nat, b: nat)
    requires
        decimal(a) == decimal(b),
    ensures
        a == b,
    decreases a,
{
    decimal_is_nonempty(a);
    decimal_is_nonempty(b);
    assert(decimal(a).last() == digit_char(a % 10));
    assert(decimal(b).last() == digit_char(b % 10));
    if a >= 10 || b >= 10 {
        if a < 10 {
            decimal_is_nonempty(b / 10);
            assert(decimal(b).len() >= 2);
        }
        if b < 10 {
            decimal_is_nonempty(a / 10);
            assert(decimal(a).len() >= 2);
        }
        assert(decimal(a).drop_last() =~= decimal(a / 10));
        assert(decimal(b).drop_last() =~= decimal(b / 10));
        decimal_is_injective(a / 10, b / 10);
    }
}

/// A decimal notation has at least one digit.
pub proof fn decimal_is_nonempty(n: nat)
    ensures
        decimal(n).len() >= 1,
{
}

/// Whether a text comes before another in the order of a dictionary: at the first place where
/// they differ it has the smaller character, or it ends there.
pub open spec fn before(a: Seq<char>, b: Seq<char>) -> bool {
    exists|k: int| #[trigger] differs_at(a, b, k)
}

/// Whether two texts agree up to a place, and the first ends there or has the smaller character.
pub open spec fn differs_at(a: Seq<char>, b: Seq<char>, k: int) -> bool {
    &&& 0 <= k <= a.len()
    &&& k < b.len()
    &&& forall|j: int| 0 <= j < k ==> a[j] == b[j]
    &&& k == a.len() || (a[k] as int) < (b[k] as int)
}

/// The order of texts is transitive.
pub proof fn before_is_transitive(a: Seq<char>, b: Seq<char>, c: Seq<char>)
    requires
        before(a, b),
        before(b, c),
    ensures
        before(a, c),
{
    let i = choose|i: int| #[trigger] differs_at(a, b, i);
    let j = choose|j: int| #[trigger] differs_at(b, c, j);
    let k = if i < j {
        i
    } else {
        j
    };
    assert(differs_at(a, c, k));
}

/// A text does not come before one that it comes after, nor before itself.
pub proof fn before_is_strict(a: Seq<char>, b: Seq<char>)
    requires
        before(a, b),
    ensures
        !before(b, a),
        a != b,
{
    let i = choose|i: int| #[trigger] differs_at(a, b, i);
    if before(b, a) {
        let j = choose|j: int| #[trigger] differs_at(b, a, j);
        assert(i == j || i < j || j < i);
    }
    if i < a.len() {
        assert(a[i] != b[i]);
    }
}

/// Of two texts one comes before the other, unless they are equal.
pub proof fn before_is_total(a: Seq<char>, b: Seq<char>)
    ensures
        a == b || before(a, b) || before(b, a),
{
    total_from(a, b, 0);
}

proof fn total_from(a: Seq<char>, b: Seq<char>, k: int)
    requires
        0 <= k <= a.len(),
        k <= b.len(),
        forall|j: int| 0 <= j < k ==> a[j] == b[j],
    ensures
        a == b || before(a, b) || before(b, a),
    decreases a.len() - k,
{
    if k == a.len() && k == b.len() {
        assert(a =~= b);
    } else if k == a.len() {
        assert(differs_at(a, b, k));
    } else if k == b.len() {
        assert(differs_at(b, a, k));
    } else if a[k] == b[k] {
        total_from(a, b, k + 1);
    } else if (a[k] as int) < (b[k] as int) {
        assert(differs_at(a, b, k));
    } else {
        assert(differs_at(b, a, k));
    }
}

/// Whether a text comes before another.
pub fn str_before(a: &str, b: &str) -> (r: bool)
    ensures
        r == before(a@, b@),
        !r ==> a@ == b@ || before(b@, a@),
{
    let n: usize = a.unicode_len();
    let m: usize = b.unicode_len();
    let mut i: usize = 0;
    while i < n && i < m
        invariant
            n == a@.len(),
            m == b@.len(),
            i <= n,
            i <= m,
            forall|j: int| 0 <= j < i ==> a@[j] == b@[j],
        decreases n - i,
    {
        let x: u32 = a.get_char(i) as u32;
        let y: u32 = b.get_char(i) as u32;
        if x < y {
            assert(differs_at(a@, b@, i as int));
            return true;
        }
        if y < x {
            proof {
                assert(differs_at(b@, a@, i as int));
                before_is_strict(b@, a@);
            }
            return false;
        }
        i = i + 1;
    }
    proof {
        if i < m {
            assert(differs_at(a@, b@, i as int));
        } else if i < n {
            assert(differs_at(b@, a@, i as int));
            before_is_strict(b@, a@);
        } else {
            assert(a@ =~= b@);
            if before(a@, b@) {
                before_is_strict(a@, b@);
            }
        }
    }
    i < m
}

/// A decimal notation is read from the left: behind the notation of a number without its last
/// digit comes that digit. It is made of the characters from zero to nine, and does not begin with
/// zero unless it is that of zero.
pub proof fn decimal_is_read_from_the_left(n: nat, d: nat, i: int)
    requires
        d < 10,
    ensures
        n > 0 ==> decimal(10 * n + d) == decimal(n).push((d + ('0' as nat)) as char),
        decimal(d) == seq![(d + ('0' as nat)) as char],
        0 <= i < decimal(n).len() ==> '0' <= decimal(n)[i] <= '9',
        n > 0 ==> decimal(n)[0] != '0',
    decreases n,
{
    if n >= 10 {
        decimal_is_nonempty(n / 10);
        decimal_is_read_from_the_left(n / 10, d, i);
        decimal_is_read_from_the_left(n / 10, d, 0);
        assert(decimal(n)[0] == decimal(n / 10)[0]);
        if 0 <= i < decimal(n / 10).len() {
            assert(decimal(n)[i] == decimal(n / 10)[i]);
        }
    }
    if n > 0 {
        assert((10 * n + d) / 10 == n);
        assert((10 * n + d) % 10 == d);
    }
}

/// Two texts are equal, or one comes before the other, and only one of these holds.
pub proof fn texts_are_ordered(
    a: &str,
    b: &str,
    same: bool,
    ab: bool,
    ba: bool,
)
    requires
        call_ensures(str_eq, (a, b), same),
        call_ensures(str_before, (a, b), ab),
        call_ensures(str_before, (b, a), ba),
    ensures
        same || ab || ba,
        !(ab && ba),
        same ==> !ab && !ba,
        same <==> a@ == b@,
{
    before_is_total(a@, b@);
    if ab {
        before_is_strict(a@, b@);
    }
    if ba {
        before_is_strict(b@, a@);
    }
}

/// The order of texts is that of a dictionary: a text comes before one that goes on behind it, and
/// where two part, the one with the smaller character there comes first, whatever follows.
pub proof fn texts_are_ordered_as_in_a_dictionary(
    s: Seq<char>,
    x: char,
    y: char,
    t: Seq<char>,
    u: Seq<char>,
)
    requires
        (x as int) < (y as int),
    ensures
        before(s, s.push(x) + t),
        before(s.push(x) + t, s.push(y) + u),
        !before(s.push(y) + u, s.push(x) + t),
{
    let k = s.len() as int;
    assert(differs_at(s, s.push(x) + t, k));
    assert(differs_at(s.push(x) + t, s.push(y) + u, k));
    before_is_strict(s.push(x) + t, s.push(y) + u);
}

} // verus!
