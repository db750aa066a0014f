//! Big-endian integers and small helpers on byte buffers.

use vstd::arithmetic::power;
use vstd::prelude::*;

verus! {

/// The `width` low-order base-256 digits of `n`, most significant digit first.
pub open spec fn be(n: nat, width: nat) -> Seq<u8>
    decreases width,
{
    if width == 0 {
        Seq::empty()
    } else {
        be(n / 256, (width - 1) as nat).push((n % 256) as u8)
    }
}

/// The number that `s` spells in base 256, most significant digit first.
pub open spec fn from_be(s: Seq<u8>) -> nat
    decreases s.len(),
{
    if s.len() == 0 {
        0
    } else {
        from_be(s.drop_last()) * 256 + s.last() as nat
    }
}

/// Optional bytes as a sequence.
pub open spec fn option_view(v: Option<Vec<u8>>) -> Option<Seq<u8>> {
    match v {
        Some(b) => Some(b@),
        None => None,
    }
}

/// A big-endian field is exactly as wide as asked for.
pub broadcast proof fn lemma_be_len(n: nat, width: nat)
    ensures
        #[trigger] be(n, width).len() == width,
    decreases width,
{
    if width > 0 {
        lemma_be_len(n / 256, (width - 1) as nat);
    }
}

/// Reading a big-endian field gives back the number written, when it fits.
pub proof fn lemma_from_be_be(n: nat, width: nat)
    requires
        n < power::pow(256, width),
    ensures
        from_be(be(n, width)) == n,
    decreases width,
{
    if width == 0 {
        power::lemma_pow0(256);
    } else {
        let w1 = (width - 1) as nat;
        assert(power::pow(256, width) == 256 * power::pow(256, w1)) by {
            reveal(power::pow);
        }
        assert(n / 256 < power::pow(256, w1)) by (nonlinear_arith)
            requires
                n < 256 * power::pow(256, w1),
        ;
        lemma_from_be_be(n / 256, w1);
        assert(be(n, width).drop_last() =~= be(n / 256, w1));
    }
}

/// Writing the number read from a field gives back the field.
pub proof fn lemma_be_from_be(s: Seq<u8>)
    ensures
        be(from_be(s), s.len()) == s,
    decreases s.len(),
{
    if s.len() > 0 {
        let t = s.drop_last();
        lemma_be_from_be(t);
        let n = from_be(s);
        assert(n / 256 == from_be(t) && n % 256 == s.last() as nat) by (nonlinear_arith)
            requires
                n == from_be(t) * 256 + s.last() as nat,
                (s.last() as nat) < 256,
        ;
        assert(be(n, s.len()) =~= s);
    }
}

/// A field of `k` bytes spells a number below 256 to the `k`.
pub proof fn lemma_from_be_bound(s: Seq<u8>)
    ensures
        from_be(s) < power::pow(256, s.len()),
    decreases s.len(),
{
    if s.len() == 0 {
        power::lemma_pow0(256);
    } else {
        let t = s.drop_last();
        lemma_from_be_bound(t);
        assert(power::pow(256, s.len()) == 256 * power::pow(256, t.len())) by {
            reveal(power::pow);
        }
    }
}

/// The powers of 256 that bound the field widths of the wire format.
pub proof fn lemma_pow256()
    ensures
        power::pow(256, 0) == 1,
        power::pow(256, 1) == 0x100,
        power::pow(256, 2) == 0x1_0000,
        power::pow(256, 4) == 0x1_0000_0000,
        power::pow(256, 8) == 0x1_0000_0000_0000_0000,
{
    reveal(power::pow);
    assert(power::pow(256, 0) == 1);
    assert(power::pow(256, 1) == 256 * power::pow(256, 0));
    assert(power::pow(256, 2) == 256 * power::pow(256, 1));
    assert(power::pow(256, 3) == 256 * power::pow(256, 2));
    assert(power::pow(256, 4) == 256 * power::pow(256, 3));
    assert(power::pow(256, 5) == 256 * power::pow(256, 4));
    assert(power::pow(256, 6) == 256 * power::pow(256, 5));
    assert(power::pow(256, 7) == 256 * power::pow(256, 6));
    assert(power::pow(256, 8) == 256 * power::pow(256, 7));
}

/// Two, four and eight bytes spell a number with the most significant byte first.
pub proof fn law_be_bytes(n: nat)
    ensures
        n < 0x100 ==> be(n, 1) == seq![n as u8],
        n < 0x1_0000 ==> be(n, 2) == seq![(n / 0x100) as u8, (n % 0x100) as u8],
        n < 0x1_0000_0000 ==> be(n, 4) == seq![
            (n / 0x100_0000) as u8,
            (n / 0x1_0000 % 0x100) as u8,
            (n / 0x100 % 0x100) as u8,
            (n % 0x100) as u8,
        ],
        n < 0x1_0000_0000_0000_0000 ==> be(n, 8) == seq![
            (n / 0x100_0000_0000_0000) as u8,
            (n / 0x1_0000_0000_0000 % 0x100) as u8,
            (n / 0x100_0000_0000 % 0x100) as u8,
            (n / 0x1_0000_0000 % 0x100) as u8,
            (n / 0x100_0000 % 0x100) as u8,
            (n / 0x1_0000 % 0x100) as u8,
            (n / 0x100 % 0x100) as u8,
            (n % 0x100) as u8,
        ],
{
    reveal_with_fuel(be, 9);
    assert(be(n, 1) =~= seq![(n % 0x100) as u8]);
    assert(be(n, 2) =~= seq![(n / 0x100 % 0x100) as u8, (n % 0x100) as u8]);
    assert(be(n, 4) =~= be(n / 0x1_0000, 2) + be(n, 2)) by {
        assert(n / 0x100 / 0x100 == n / 0x1_0000);
        assert(n / 0x100 / 0x100 / 0x100 == n / 0x1_0000 / 0x100);
    }
    assert(n / 0x1_0000 / 0x100 == n / 0x100_0000);
    assert(be(n, 8) =~= be(n / 0x1_0000_0000, 4) + be(n, 4)) by {
        assert(n / 0x100 / 0x100 / 0x100 / 0x100 == n / 0x1_0000_0000);
        assert(n / 0x100 / 0x100 / 0x100 / 0x100 / 0x100 == n / 0x1_0000_0000 / 0x100);
    }
    let h = n / 0x1_0000_0000;
    assert(be(h, 4) =~= be(h / 0x1_0000, 2) + be(h, 2)) by {
        assert(h / 0x100 / 0x100 == h / 0x1_0000);
        assert(h / 0x100 / 0x100 / 0x100 == h / 0x1_0000 / 0x100);
    }
    assert(h / 0x100_0000 == n / 0x100_0000_0000_0000);
    assert(h / 0x1_0000 == n / 0x1_0000_0000_0000);
    assert(h / 0x100 == n / 0x100_0000_0000);
    if n < 0x1_0000_0000_0000_0000 {
        assert(be(n, 8) =~= seq![
            (n / 0x100_0000_0000_0000) as u8,
            (n / 0x1_0000_0000_0000 % 0x100) as u8,
            (n / 0x100_0000_0000 % 0x100) as u8,
            (n / 0x1_0000_0000 % 0x100) as u8,
            (n / 0x100_0000 % 0x100) as u8,
            (n / 0x1_0000 % 0x100) as u8,
            (n / 0x100 % 0x100) as u8,
            (n % 0x100) as u8,
        ]);
    }
}

/// A number is read from bytes with the most significant byte first: every byte
/// that follows makes what was read 256 times as large and is added to it.
pub proof fn law_from_be_bytes(s: Seq<u8>, b: u8)
    ensures
        from_be(Seq::<u8>::empty()) == 0,
        from_be(s.push(b)) == 256 * from_be(s) + b,
        from_be(seq![b]) == b,
        s.len() == 2 ==> from_be(s) == 256 * s[0] + s[1],
        s.len() == 4 ==> from_be(s) == 0x100_0000 * s[0] + 0x1_0000 * s[1] + 0x100 * s[2] + s[3],
{
    reveal_with_fuel(from_be, 5);
    assert(s.push(b).drop_last() =~= s);
    assert(seq![b].drop_last() =~= Seq::<u8>::empty());
}

/// Optional bytes as a sequence are there exactly when the bytes are, and are
/// those bytes.
pub proof fn law_option_view(v: Option<Vec<u8>>)
    ensures
        v is Some <==> option_view(v) is Some,
        v matches Some(b) ==> option_view(v)->Some_0 == b@,
{
}

/// Append the `width` low-order bytes of `n` to `buf`, most significant first.
pub fn push_be(buf: &mut Vec<u8>, n: u64, width: usize)
    ensures
        final(buf)@ == old(buf)@ + be(n as nat, width as nat),
    decreases width,
{
    if width > 0 {
        push_be(buf, n / 256, width - 1);
        buf.push((n % 256) as u8);
    }
    assert(buf@ =~= old(buf)@ + be(n as nat, width as nat));
}

/// Read a big-endian number of at most eight bytes.
pub fn read_be(s: &[u8]) -> (n: u64)
    requires
        s@.len() <= 8,
    ensures
        n == from_be(s@),
{
    let mut n: u64 = 0;
    let mut i: usize = 0;
    while i < s.len()
        invariant
            i <= s@.len() <= 8,
            n == from_be(s@.take(i as int)),
        decreases s@.len() - i,
    {
        proof {
            let t = s@.take(i as int + 1);
            assert(t.drop_last() =~= s@.take(i as int));
            lemma_from_be_bound(t);
            lemma_pow256();
            power::lemma_pow_increases(256, t.len(), 8);
        }
        n = n * 256 + s[i] as u64;
        i = i + 1;
    }
    assert(s@.take(i as int) =~= s@);
    n
}

/// Append all of `other` to `buf`.
pub fn push_all(buf: &mut Vec<u8>, other: &[u8])
    ensures
        final(buf)@ == old(buf)@ + other@,
{
    buf.extend_from_slice(other);
    assert(buf@ =~= old(buf)@ + other@);
}

/// Copy a run of bytes into an array of its length.
pub fn to_array<const N: usize>(s: &[u8]) -> (a: [u8; N])
    requires
        s@.len() == N,
    ensures
        a@ == s@,
{
    let mut a: [u8; N] = [0u8; N];
    let mut i: usize = 0;
    while i < N
        invariant
            i <= N,
            s@.len() == N,
            forall|j: int| 0 <= j < i ==> a@[j] == s@[j],
        decreases N - i,
    {
        a[i] = s[i];
        i = i + 1;
    }
    assert(a@ =~= s@);
    a
}

/// Copy a slice into a vector.
pub fn to_vec(s: &[u8]) -> (v: Vec<u8>)
    ensures
        v@ == s@,
{
    vstd::slice::slice_to_vec(s)
}

} // verus!
