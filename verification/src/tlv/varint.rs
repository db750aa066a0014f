//! Base-128 varints: seven bits a byte, low bits first, the top bit set on
//! every byte but the last.

use vstd::arithmetic::div_mod;
use vstd::arithmetic::power;
use vstd::prelude::*;

verus! {

/// The most bytes a varint may have.
pub const MAX_VARINT_LEN: usize = 10;

/// The varint of `n`.
pub open spec fn varint(n: nat) -> Seq<u8>
    decreases n,
{
    if n < 128 {
        seq![n as u8]
    } else {
        seq![(n % 128 + 128) as u8] + varint(n / 128)
    }
}

/// The number that the low seven bits of the bytes of `s` spell in base 128,
/// least significant digit first.
pub open spec fn base128(s: Seq<u8>) -> nat
    decreases s.len(),
{
    if s.len() == 0 {
        0
    } else {
        (s[0] % 128) as nat + 128 * base128(s.drop_first())
    }
}

/// How many bytes at the start of `s` have the top bit set.
pub open spec fn continuations(s: Seq<u8>) -> nat
    decreases s.len(),
{
    if s.len() == 0 || s[0] < 128 {
        0
    } else {
        1 + continuations(s.drop_first())
    }
}

/// What reading a varint at the start of `s` gives: its value modulo 2 to the
/// 64 and its length, or why it cannot be read.
pub open spec fn parse_varint(s: Seq<u8>) -> Result<(nat, nat), Seq<char>> {
    let k = continuations(s);
    if k < s.len() && k < 10 {
        Ok((base128(s.take(k as int + 1)) % 0x1_0000_0000_0000_0000, k + 1))
    } else if s.len() > 10 {
        Err("varint too long"@)
    } else {
        Err("unterminated varint"@)
    }
}

proof fn lemma_continuations(s: Seq<u8>)
    ensures
        continuations(s) <= s.len(),
        forall|j: int| 0 <= j < continuations(s) ==> #[trigger] s[j] >= 128,
        continuations(s) < s.len() ==> s[continuations(s) as int] < 128,
    decreases s.len(),
{
    if s.len() > 0 && s[0] >= 128 {
        let t = s.drop_first();
        lemma_continuations(t);
        assert forall|j: int| 0 <= j < continuations(s) implies #[trigger] s[j] >= 128 by {
            if j > 0 {
                assert(s[j] == t[j - 1]);
            }
        }
    }
}

proof fn lemma_continuations_is(s: Seq<u8>, k: nat)
    requires
        k <= s.len(),
        forall|j: int| 0 <= j < k ==> #[trigger] s[j] >= 128,
        k < s.len() ==> s[k as int] < 128,
    ensures
        continuations(s) == k,
{
    lemma_continuations(s);
    let c = continuations(s);
    if c < k {
        assert(s[c as int] >= 128);
    } else if k < c {
        assert(s[k as int] >= 128);
    }
}

proof fn lemma_base128_push(s: Seq<u8>, b: u8)
    ensures
        base128(s.push(b)) == base128(s) + (b % 128) as nat * power::pow(128, s.len()),
    decreases s.len(),
{
    if s.len() == 0 {
        power::lemma_pow0(128);
        assert(s.push(b).drop_first() =~= Seq::<u8>::empty());
        assert(base128(s.push(b).drop_first()) == 0);
    } else {
        let t = s.drop_first();
        lemma_base128_push(t, b);
        assert(s.push(b).drop_first() =~= t.push(b));
        assert(power::pow(128, s.len()) == 128 * power::pow(128, t.len())) by {
            reveal(power::pow);
        }
        let d = (b % 128) as int;
        let p = power::pow(128, t.len());
        assert(128 * (base128(t) + d * p) == 128 * base128(t) + d * (128 * p))
            by (nonlinear_arith);
    }
}

/// A varint holds at least one byte, all but its last have the top bit set, and
/// it spells the number it was made from.
pub proof fn lemma_varint(n: nat)
    ensures
        varint(n).len() >= 1,
        base128(varint(n)) == n,
        forall|j: int| 0 <= j < varint(n).len() - 1 ==> #[trigger] varint(n)[j] >= 128,
        varint(n).last() < 128,
    decreases n,
{
    if n < 128 {
        assert(varint(n).drop_first() =~= Seq::<u8>::empty());
        assert(base128(varint(n).drop_first()) == 0);
    } else {
        let t = varint(n / 128);
        lemma_varint(n / 128);
        let v = varint(n);
        assert(v.drop_first() =~= t);
        assert forall|j: int| 0 <= j < v.len() - 1 implies #[trigger] v[j] >= 128 by {
            if j > 0 {
                assert(v[j] == t[j - 1]);
            }
        }
        assert(v.last() == t.last());
    }
}

/// A number below 128 to the `k` has a varint of at most `k` bytes.
pub proof fn lemma_varint_len(n: nat, k: nat)
    requires
        k >= 1,
        n < power::pow(128, k),
    ensures
        varint(n).len() <= k,
    decreases k,
{
    if n >= 128 {
        power::lemma_pow1(128);
        assert(k > 1);
        let k1 = (k - 1) as nat;
        assert(power::pow(128, k) == 128 * power::pow(128, k1)) by {
            reveal(power::pow);
        }
        assert(n / 128 < power::pow(128, k1)) by (nonlinear_arith)
            requires
                n < 128 * power::pow(128, k1),
        ;
        lemma_varint_len(n / 128, k1);
    }
}

proof fn lemma_pow128_10()
    ensures
        power::pow(128, 10) > 0x1_0000_0000_0000_0000,
{
    reveal(power::pow);
    assert(power::pow(128, 0) == 1);
    assert(power::pow(128, 1) == 128 * power::pow(128, 0));
    assert(power::pow(128, 2) == 128 * power::pow(128, 1));
    assert(power::pow(128, 3) == 128 * power::pow(128, 2));
    assert(power::pow(128, 4) == 128 * power::pow(128, 3));
    assert(power::pow(128, 5) == 128 * power::pow(128, 4));
    assert(power::pow(128, 6) == 128 * power::pow(128, 5));
    assert(power::pow(128, 7) == 128 * power::pow(128, 6));
    assert(power::pow(128, 8) == 128 * power::pow(128, 7));
    assert(power::pow(128, 9) == 128 * power::pow(128, 8));
    assert(power::pow(128, 10) == 128 * power::pow(128, 9));
}

/// Reading a varint gives back the number written, whatever bytes follow.
pub proof fn law_varint_roundtrip(n: nat, rest: Seq<u8>)
    requires
        n < 0x1_0000_0000_0000_0000,
    ensures
        parse_varint(varint(n) + rest) == Ok::<(nat, nat), Seq<char>>((n, varint(n).len())),
{
    let v = varint(n);
    let s = v + rest;
    lemma_varint(n);
    lemma_pow128_10();
    lemma_varint_len(n, 10);
    assert forall|j: int| 0 <= j < v.len() - 1 implies #[trigger] s[j] >= 128 by {
        assert(s[j] == v[j]);
    }
    assert(s[v.len() - 1] == v.last());
    lemma_continuations_is(s, (v.len() - 1) as nat);
    assert(s.take(v.len() as int) =~= v);
    div_mod::lemma_small_mod(n, 0x1_0000_0000_0000_0000);
}

/// A varint that can be read depends on its own bytes alone.
pub proof fn lemma_parse_varint_prefix(s: Seq<u8>, rest: Seq<u8>)
    ensures
        parse_varint(s) matches Ok((n, k)) ==> parse_varint(s.take(k as int) + rest) == Ok::<
            (nat, nat),
            Seq<char>,
        >((n, k)),
{
    if let Ok((n, k)) = parse_varint(s) {
        let c = continuations(s);
        lemma_continuations(s);
        let t = s.take(k as int) + rest;
        assert forall|j: int| 0 <= j < c implies #[trigger] t[j] >= 128 by {
            assert(t[j] == s[j]);
        }
        assert(t[c as int] == s[c as int]);
        lemma_continuations_is(t, c);
        assert(t.take(k as int) =~= s.take(k as int));
    }
}

/// A varint that can be read lies within the bytes it was read from.
pub proof fn lemma_parse_varint_len(s: Seq<u8>)
    ensures
        parse_varint(s) matches Ok((n, k)) ==> 1 <= k <= s.len() && n < 0x1_0000_0000_0000_0000,
{
    div_mod::lemma_mod_bound(
        base128(s.take(continuations(s) as int + 1)) as int,
        0x1_0000_0000_0000_0000,
    );
}

/// A number below 128 is its own varint, and any other begins with its low seven
/// bits, with the top bit set, before the varint of the rest.
pub proof fn law_varint_bytes(n: nat, digit: nat)
    requires
        digit < 128,
    ensures
        varint(digit) == seq![digit as u8],
        n > 0 ==> varint(128 * n + digit) == seq![(digit + 128) as u8] + varint(n),
{
}

/// Up to ten bytes of which all but the last have the top bit set are read as a
/// number, whether or not fewer bytes would do: the low seven bits of the first
/// byte, and 128 times what is read behind it, modulo 2 to the 64.
pub proof fn law_parse_varint_bytes(s: Seq<u8>, k: nat)
    requires
        k < s.len(),
        k < 10,
        forall|j: int| 0 <= j < k ==> #[trigger] s[j] >= 128,
        s[k as int] < 128,
    ensures
        parse_varint(s) matches Ok((n, len)) && len == k + 1 && (k == 0 ==> n == s[0]) && (k > 0
            ==> (parse_varint(s.skip(1)) matches Ok((m, _)) && n == (s[0] - 128 + 128 * m)
            % 0x1_0000_0000_0000_0000)),
{
    lemma_continuations_is(s, k);
    let own = s.take(k as int + 1);
    let modulus: int = 0x1_0000_0000_0000_0000;
    if k == 0 {
        assert(own.drop_first() =~= Seq::<u8>::empty());
        assert(base128(own.drop_first()) == 0);
    } else {
        let t = s.skip(1);
        assert forall|j: int| 0 <= j < k - 1 implies #[trigger] t[j] >= 128 by {
            assert(s[j + 1] >= 128);
        }
        lemma_continuations_is(t, (k - 1) as nat);
        assert(own.drop_first() =~= t.take(k as int));
        assert(s[0] >= 128);
        let b = base128(t.take(k as int)) as int;
        let d = s[0] - 128;
        assert(base128(own) == d + 128 * b);
        div_mod::lemma_mul_mod_noop_right(128, b, modulus);
        div_mod::lemma_add_mod_noop_right(d, 128 * b, modulus);
        div_mod::lemma_add_mod_noop_right(d, 128 * (b % modulus), modulus);
    }
}

/// Bytes that all have the top bit set, or of which the first ten have, are not read
/// as a number.
pub proof fn law_parse_varint_refused(s: Seq<u8>)
    requires
        forall|j: int| 0 <= j < s.len() && j < 10 ==> #[trigger] s[j] >= 128,
    ensures
        s.len() <= 10 ==> parse_varint(s) == Err::<(nat, nat), Seq<char>>("unterminated varint"@),
        s.len() > 10 ==> parse_varint(s) == Err::<(nat, nat), Seq<char>>("varint too long"@),
{
    lemma_continuations(s);
}

/// Append the varint of `n`.
pub fn encode_varint(n: u64, buf: &mut Vec<u8>)
    ensures
        final(buf)@ == old(buf)@ + varint(n as nat),
{
    let mut n: u64 = n;
    let ghost whole = varint(n as nat);
    let ghost start = buf@;
    while n >= 128
        invariant
            buf@ + varint(n as nat) == start + whole,
        decreases n,
    {
        let ghost before = buf@;
        let ghost m = n as nat;
        buf.push((n % 128 + 128) as u8);
        n = n / 128;
        assert(buf@ + varint(n as nat) =~= before + varint(m));
    }
    buf.push(n as u8);
    assert(buf@ =~= start + whole);
}

/// Read a varint at the start of `buf`: its value, modulo 2 to the 64, and its
/// length.
pub fn decode_varint(buf: &[u8]) -> (r: Result<(u64, usize), String>)
    ensures
        match r {
            Ok((n, k)) => parse_varint(buf@) == Ok::<(nat, nat), Seq<char>>((n as nat, k as nat)),
            Err(e) => parse_varint(buf@) == Err::<(nat, nat), Seq<char>>(e@),
        },
{
    let mut result: u64 = 0;
    let mut scale: u64 = 1;
    let mut i: usize = 0;
    proof {
        power::lemma_pow0(128);
        assert(base128(buf@.take(0)) == 0);
    }
    while i < buf.len()
        invariant
            i <= buf@.len(),
            i <= 10,
            forall|j: int| 0 <= j < i ==> #[trigger] buf@[j] >= 128,
            result == base128(buf@.take(i as int)) % 0x1_0000_0000_0000_0000,
            scale == power::pow(128, i as nat) % 0x1_0000_0000_0000_0000,
        decreases buf@.len() - i,
    {
        if i >= MAX_VARINT_LEN {
            proof {
                lemma_continuations(buf@);
            }
            return Err("varint too long".to_owned());
        }
        let byte: u8 = buf[i];
        let ghost r0 = result;
        let ghost s0 = scale;
        result = result.wrapping_add(((byte % 128) as u64).wrapping_mul(scale));
        scale = scale.wrapping_mul(128);
        proof {
            let m: int = 0x1_0000_0000_0000_0000;
            let t = buf@.take(i as int);
            let p = power::pow(128, i as nat);
            let d = (byte % 128) as int;
            lemma_base128_push(t, byte);
            assert(buf@.take(i as int + 1) =~= t.push(byte));
            div_mod::lemma_mul_mod_noop_right(d, p, m);
            div_mod::lemma_add_mod_noop(base128(t) as int, d * p, m);
            assert(result == ((r0 as int) + (d * (s0 as int)) % m) % m);
            assert(power::pow(128, (i + 1) as nat) == 128 * p) by {
                reveal(power::pow);
            }
            div_mod::lemma_mul_mod_noop_right(128, p, m);
            assert((s0 as int) * 128 == 128 * (s0 as int));
            assert(scale == ((s0 as int) * 128) % m);
        }
        if byte < 128 {
            proof {
                lemma_continuations_is(buf@, i as nat);
            }
            return Ok((result, i + 1));
        }
        i = i + 1;
    }
    proof {
        lemma_continuations_is(buf@, buf@.len());
    }
    Err("unterminated varint".to_owned())
}

} // verus!
