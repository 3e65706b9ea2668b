use vstd::prelude::*;

verus! {

/// The value of one character of the RFC 4648 Base32 alphabet (letters in
/// either case, then `2`..`7`).
pub open spec fn b32_val(c: u8) -> Option<u8> {
    if 65 <= c <= 90 {
        Some((c - 65) as u8)
    } else if 97 <= c <= 122 {
        Some((c - 97) as u8)
    } else if 50 <= c <= 55 {
        Some((c - 50 + 26) as u8)
    } else {
        None
    }
}

/// `s` without its trailing `=` padding.
pub open spec fn unpadded(s: Seq<u8>) -> Seq<u8>
    decreases s.len(),
{
    if s.len() > 0 && s.last() == 61 {
        unpadded(s.drop_last())
    } else {
        s
    }
}

pub open spec fn small_pow2(e: int) -> nat {
    if e == 0 {
        1
    } else if e == 1 {
        2
    } else if e == 2 {
        4
    } else if e == 3 {
        8
    } else {
        16
    }
}

/// Bit `i` of the bit string that five-bit groups `vals` spell, most
/// significant bit of each group first.
pub open spec fn bit_at(vals: Seq<u8>, i: int) -> nat {
    ((vals[i / 5] as nat) / small_pow2(4 - i % 5)) % 2
}

/// The number that bits `start .. start + n` spell, most significant first.
pub open spec fn bits_value(vals: Seq<u8>, start: int, n: nat) -> nat
    decreases n,
{
    if n == 0 {
        0
    } else {
        bits_value(vals, start, (n - 1) as nat) * 2 + bit_at(vals, start + n - 1)
    }
}

/// Base32 decoding: after trailing `=` are dropped every character must be
/// of the alphabet; each gives five bits, and every full eight bits give one
/// byte (leftover bits are dropped).
pub open spec fn base32_spec(s: Seq<u8>) -> Option<Seq<u8>> {
    let t = unpadded(s);
    if forall|k: int| 0 <= k < t.len() ==> (#[trigger] b32_val(t[k])) is Some {
        let vals = t.map_values(|c: u8| b32_val(c)->0);
        Some(Seq::new(t.len() * 5 / 8, |j: int| bits_value(vals, 8 * j, 8) as u8))
    } else {
        None
    }
}

fn value_of(c: u8) -> (r: Option<u8>)
    ensures
        r == b32_val(c),
{
    if 65 <= c && c <= 90 {
        Some(c - 65)
    } else if 97 <= c && c <= 122 {
        Some(c - 97)
    } else if 50 <= c && c <= 55 {
        Some(c - 50 + 26)
    } else {
        None
    }
}

proof fn lemma_bits_value_bound(vals: Seq<u8>, start: int, n: nat)
    ensures
        bits_value(vals, start, n) < vstd::arithmetic::power2::pow2(n),
    decreases n,
{
    vstd::arithmetic::power2::lemma2_to64();
    if n > 0 {
        lemma_bits_value_bound(vals, start, (n - 1) as nat);
        vstd::arithmetic::power2::lemma_pow2_unfold(n);
    }
}

/// Decodes Base32 text (see `base32_spec`); `None` when a character is not
/// of the alphabet.
pub fn base32_decode(s: &[u8]) -> (r: Option<Vec<u8>>)
    ensures
        match r {
            Some(b) => base32_spec(s@) == Some(b@),
            None => base32_spec(s@) is None,
        },
{
    let mut end = s.len();
    assert(s@.subrange(0, s.len() as int) =~= s@);
    while end > 0 && s[end - 1] == 61
        invariant
            end <= s.len(),
            unpadded(s@) == unpadded(s@.subrange(0, end as int)),
        decreases end,
    {
        assert(s@.subrange(0, end as int).drop_last() =~= s@.subrange(0, end - 1));
        end = end - 1;
    }
    let ghost t = s@.subrange(0, end as int);
    assert(unpadded(t) == t);
    let mut vals: Vec<u8> = Vec::new();
    let mut i: usize = 0;
    while i < end
        invariant
            i <= end <= s.len(),
            t == s@.subrange(0, end as int),
            unpadded(s@) == t,
            vals.len() == i,
            forall|k: int| 0 <= k < i ==> (#[trigger] b32_val(t[k])) is Some,
            forall|k: int| 0 <= k < i ==> vals@[k] == b32_val(t[k])->0 && vals@[k] < 32,
        decreases end - i,
    {
        match value_of(s[i]) {
            Some(x) => {
                vals.push(x);
            },
            None => {
                assert(b32_val(t[i as int]) is None);
                return None;
            },
        }
        i = i + 1;
    }
    let ghost gvals = t.map_values(|c: u8| b32_val(c)->0);
    assert(vals@ =~= gvals);
    let nbytes = ((end as u128) * 5 / 8) as usize;
    let mut out: Vec<u8> = Vec::new();
    let mut j: usize = 0;
    while j < nbytes
        invariant
            j <= nbytes,
            nbytes == end * 5 / 8,
            vals.len() == end,
            vals@ == gvals,
            forall|k: int| 0 <= k < end ==> vals@[k] < 32,
            out.len() == j,
            forall|k: int| 0 <= k < j ==> out@[k] == bits_value(gvals, 8 * k, 8) as u8,
        decreases nbytes - j,
    {
        assert(8 * j + 8 <= 5 * end) by (nonlinear_arith)
            requires
                j < nbytes,
                nbytes == end * 5 / 8,
        ;
        let mut acc: u32 = 0;
        let mut k: usize = 0;
        proof {
            vstd::arithmetic::power2::lemma2_to64();
        }
        while k < 8
            invariant
                k <= 8,
                j < nbytes,
                8 * j + 8 <= 5 * end,
                vals.len() == end,
                vals@ == gvals,
                acc == bits_value(gvals, 8 * j, k as nat),
                acc < vstd::arithmetic::power2::pow2(k as nat),
            decreases 8 - k,
        {
            let bit_index: u128 = 8 * (j as u128) + (k as u128);
            let group = vals[(bit_index / 5) as usize];
            let shift = 4 - bit_index % 5;
            let divisor: u8 = if shift == 0 {
                1
            } else if shift == 1 {
                2
            } else if shift == 2 {
                4
            } else if shift == 3 {
                8
            } else {
                16
            };
            assert(divisor as nat == small_pow2(4 - (bit_index as int) % 5));
            let bit = (group / divisor) % 2;
            assert(bits_value(gvals, 8 * j, (k + 1) as nat) == acc * 2 + bit as nat);
            proof {
                vstd::arithmetic::power2::lemma_pow2_unfold((k + 1) as nat);
                vstd::arithmetic::power2::lemma2_to64();
            }
            acc = acc * 2 + bit as u32;
            k = k + 1;
        }
        proof {
            vstd::arithmetic::power2::lemma2_to64();
        }
        out.push(acc as u8);
        j = j + 1;
    }
    assert(out@ =~= Seq::new(t.len() * 5 / 8, |q: int| bits_value(gvals, 8 * q, 8) as u8));
    Some(out)
}

} // verus!
