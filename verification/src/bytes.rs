//! Numbers as bytes, the most significant first.
use vstd::prelude::*;

verus! {

/// The lowest `k` bytes of a number, the most significant first.
pub open spec fn be_bytes(n: nat, k: nat) -> Seq<u8>
    decreases k,
{
    if k == 0 {
        Seq::empty()
    } else {
        be_bytes(n / 256, (k - 1) as nat).push((n % 256) as u8)
    }
}

/// The number that bytes stand for, the most significant first.
pub open spec fn be_value(s: Seq<u8>) -> nat
    decreases s.len(),
{
    if s.len() == 0 {
        0
    } else {
        be_value(s.drop_last()) * 256 + s.last() as nat
    }
}

/// The number of numbers that `k` bytes can hold.
pub open spec fn byte_range(k: nat) -> nat
    decreases k,
{
    if k == 0 {
        1
    } else {
        256 * byte_range((k - 1) as nat)
    }
}

/// `k` bytes of a number are `k` bytes.
pub proof fn be_bytes_len(n: nat, k: nat)
    ensures
        be_bytes(n, k).len() == k,
    decreases k,
{
    if k > 0 {
        be_bytes_len(n / 256, (k - 1) as nat);
    }
}

/// A number that fits `k` bytes is read back from them.
pub proof fn be_round_trip(n: nat, k: nat)
    requires
        n < byte_range(k),
    ensures
        be_value(be_bytes(n, k)) == n,
    decreases k,
{
    if k > 0 {
        be_round_trip(n / 256, (k - 1) as nat);
        assert(be_bytes(n, k).drop_last() =~= be_bytes(n / 256, (k - 1) as nat));
    }
}

/// Bytes hold a number below their range.
pub proof fn be_value_bound(s: Seq<u8>)
    ensures
        be_value(s) < byte_range(s.len()),
    decreases s.len(),
{
    if s.len() > 0 {
        be_value_bound(s.drop_last());
    }
}

/// The ranges of four and of eight bytes.
pub proof fn byte_range_values()
    ensures
        byte_range(4) == 0x1_0000_0000,
        byte_range(8) == 0x1_0000_0000_0000_0000,
{
    reveal_with_fuel(byte_range, 9);
}

/// Appends the lowest `k` bytes of a number, the most significant first.
pub fn push_be(out: &mut Vec<u8>, n: u64, k: usize)
    ensures
        final(out)@ == old(out)@ + be_bytes(n as nat, k as nat),
    decreases k,
{
    if k > 0 {
        push_be(out, n / 256, k - 1);
        out.push((n % 256) as u8);
    }
    assert(out@ =~= old(out)@ + be_bytes(n as nat, k as nat));
}

/// The number that the `k` bytes at a position stand for.
pub fn read_be(bytes: &[u8], at: usize, k: usize) -> (r: u64)
    requires
        k <= 8,
        at + k <= bytes@.len(),
    ensures
        r == be_value(bytes@.subrange(at as int, at + k)),
{
    let len: usize = bytes.len();
    let mut value: u64 = 0;
    let mut i: usize = 0;
    assert(bytes@.subrange(at as int, at as int) =~= Seq::<u8>::empty());
    while i < k
        invariant
            k <= 8,
            i <= k,
            at + k <= len,
            len == bytes@.len(),
            value == be_value(bytes@.subrange(at as int, at + i)),
        decreases k - i,
    {
        proof {
            let s = bytes@.subrange(at as int, at + i);
            be_value_bound(s);
            byte_range_up_to(i as nat);
            assert(bytes@.subrange(at as int, at + i + 1).drop_last() =~= s);
        }
        value = value * 256 + bytes[at + i] as u64;
        i = i + 1;
    }
    value
}

proof fn byte_range_up_to(i: nat)
    requires
        i < 8,
    ensures
        byte_range(i) <= 0x100_0000_0000_0000,
{
    reveal_with_fuel(byte_range, 9);
}

/// The first byte counts most: it stands for as many times the range of the bytes behind it as it
/// says, and they stand for the rest.
pub proof fn first_byte_counts_most(first: u8, rest: Seq<u8>)
    ensures
        be_value(seq![first] + rest) == first * byte_range(rest.len()) + be_value(rest),
    decreases rest.len(),
{
    let all = seq![first] + rest;
    if rest.len() == 0 {
        assert(all.drop_last() =~= Seq::<u8>::empty());
        assert(all.last() == first);
        reveal_with_fuel(be_value, 2);
        assert(first * byte_range(0) == first) by (nonlinear_arith)
            requires
                byte_range(0) == 1,
        ;
    } else {
        let front = rest.drop_last();
        first_byte_counts_most(first, front);
        assert(all.drop_last() =~= seq![first] + front);
        assert(all.last() == rest.last());
        let a = first as nat;
        let b = byte_range(front.len());
        assert(byte_range(rest.len()) == 256 * b);
        assert((a * b) * 256 == a * (256 * b)) by (nonlinear_arith);
        let c = be_value(front);
        assert((a * b + c) * 256 == (a * b) * 256 + c * 256) by (nonlinear_arith);
        assert(be_value(all) == (a * b + c) * 256 + rest.last());
        assert(be_value(rest) == c * 256 + rest.last());
        assert(first * byte_range(rest.len()) == a * (256 * b)) by (nonlinear_arith)
            requires
                byte_range(rest.len()) == 256 * b,
                a == first,
        ;
    }
}

/// Bytes are those of the number that they stand for.
pub proof fn bytes_are_of_their_number(s: Seq<u8>)
    ensures
        be_bytes(be_value(s), s.len()) == s,
    decreases s.len(),
{
    if s.len() == 0 {
        assert(s =~= Seq::<u8>::empty());
    } else {
        let front = s.drop_last();
        bytes_are_of_their_number(front);
        let v = be_value(front);
        let d = s.last() as nat;
        assert((v * 256 + d) / 256 == v && (v * 256 + d) % 256 == d);
        assert(be_bytes(be_value(s), s.len()) =~= s);
    }
}

/// A number that was written in as many bytes as it needs is read back from where it was written.
pub proof fn written_numbers_are_read_back(
    before: Vec<u8>,
    n: u64,
    k: usize,
    after: Vec<u8>,
    at: usize,
    bytes: &[u8],
    r: u64,
)
    requires
        k <= 8,
        n < byte_range(k as nat),
        at == before@.len(),
        exists|x: &mut Vec<u8>|
            *x == before && *final(x) == after && #[trigger] call_ensures(
                push_be,
                (x, n, k),
                (),
            ),
        bytes@ == after@,
        call_ensures(read_be, (bytes, at, k), r),
    ensures
        r == n,
        after@.len() == before@.len() + k,
{
    be_bytes_len(n as nat, k as nat);
    be_round_trip(n as nat, k as nat);
    assert(after@.subrange(at as int, at + k) =~= be_bytes(n as nat, k as nat));
}

} // verus!
