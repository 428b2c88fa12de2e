//! Integers of variable length, as they stand in a message.
//!
//! An integer is cut into groups of seven bits, the lowest first. Each group is one byte; the
//! top bit of a byte is set where another byte follows.
use crate::codec::DecodeError;
use vstd::arithmetic::div_mod::{lemma_div_denominator, lemma_fundamental_div_mod};
use vstd::arithmetic::power::{lemma_pow_positive, pow};
use vstd::prelude::*;

verus! {

/// The bytes of `n`.
pub open spec fn varint(n: nat) -> Seq<u8>
    decreases n,
{
    if n < 128 {
        seq![n as u8]
    } else {
        seq![(n % 128 + 128) as u8] + varint(n / 128)
    }
}

/// The integer at the start of `s` and how many bytes it takes, where it ends within the first
/// `limit` bytes.
pub open spec fn varint_prefix(s: Seq<u8>, limit: nat) -> Result<(nat, nat), DecodeError>
    decreases limit,
{
    if limit == 0 {
        Err(DecodeError::BadVarint)
    } else if s.len() == 0 {
        Err(DecodeError::UnexpectedEnd)
    } else if s[0] < 128 {
        Ok((s[0] as nat, 1))
    } else {
        match varint_prefix(s.skip(1), (limit - 1) as nat) {
            Ok((high, len)) => Ok(((s[0] - 128) as nat + 128 * high, len + 1)),
            Err(e) => Err(e),
        }
    }
}

/// How many groups of seven bits an integer of `bits` bits needs.
pub open spec fn varint_limit(bits: nat) -> nat {
    (bits + 6) / 7
}

/// The integer at the start of `s` and how many bytes it takes, read as one of `bits` bits, the
/// largest of which is `max`. Zeros in front of the highest group are read over.
pub open spec fn read_varint(s: Seq<u8>, bits: nat, max: nat) -> Result<(nat, nat), DecodeError> {
    match varint_prefix(s, varint_limit(bits)) {
        Ok((n, len)) => if n <= max {
            Ok((n, len))
        } else {
            Err(DecodeError::BadVarint)
        },
        Err(e) => Err(e),
    }
}

/// The first integer that takes more than `len` bytes.
pub open spec fn varint_bound(len: nat) -> nat
    decreases len,
{
    if len == 0 {
        1
    } else {
        128 * varint_bound((len - 1) as nat)
    }
}

/// An integer that was written is read back, whatever follows it, by a reader that allows for its
/// length.
pub proof fn lemma_varint_prefix_of_varint(n: nat, rest: Seq<u8>, limit: nat)
    requires
        limit > 0,
        n < varint_bound(limit),
    ensures
        varint_prefix(varint(n) + rest, limit) == Ok::<(nat, nat), DecodeError>(
            (n, varint(n).len()),
        ),
        0 < varint(n).len() <= limit,
    decreases n,
{
    let s = varint(n) + rest;
    if n >= 128 {
        let high = n / 128;
        let less = (limit - 1) as nat;
        if less == 0 {
            assert(varint_bound(1) == 128) by {
                reveal_with_fuel(varint_bound, 2);
            }
        }
        lemma_varint_prefix_of_varint(high, rest, less);
        assert(s.skip(1) =~= varint(high) + rest);
        assert(s[0] == (n % 128 + 128) as u8);
    } else {
        assert(s[0] == n as u8);
    }
}

/// The integers of 32, 64 and 128 bits take at most five, ten and nineteen bytes.
pub proof fn lemma_varint_bounds()
    ensures
        u32::MAX < varint_bound(varint_limit(32)),
        u64::MAX < varint_bound(varint_limit(64)),
        u128::MAX < varint_bound(varint_limit(128)),
{
    reveal_with_fuel(varint_bound, 6);
    assert(varint_bound(5) == 0x8_0000_0000);
    assert(varint_bound(10) == 0x40_0000_0000_0000_0000);
    assert(varint_bound(15) == 0x200_0000_0000_0000_0000_0000_0000);
    assert(varint_bound(19) == 0x20_0000_0000_0000_0000_0000_0000_0000_0000);
}

/// What was read takes at least one byte, and no more than there were.
pub proof fn lemma_varint_prefix_len(s: Seq<u8>, limit: nat)
    ensures
        varint_prefix(s, limit) matches Ok((_, len)) ==> 0 < len <= s.len() && len <= limit,
    decreases limit,
{
    if limit > 0 && s.len() > 0 && s[0] >= 128 {
        lemma_varint_prefix_len(s.skip(1), (limit - 1) as nat);
    }
}

/// A group of a number, but for the lowest, is a group of what is left without the lowest.
proof fn lemma_higher_group(n: nat, i: nat)
    requires
        i > 0,
    ensures
        n as int / pow(128, i) == (n / 128) as int / pow(128, (i - 1) as nat),
        pow(128, i) == 128 * pow(128, (i - 1) as nat),
        n < pow(128, i) <==> n / 128 < pow(128, (i - 1) as nat),
{
    let p = pow(128, (i - 1) as nat);
    reveal(pow);
    lemma_pow_positive(128, (i - 1) as nat);
    lemma_div_denominator(n as int, 128, p);
    assert(n < 128 * p <==> n / 128 < p);
}

/// The bytes of a number are its groups of seven bits, the lowest first, as many as it has; the top
/// bit is set in all but the last.
pub proof fn law_varint_holds_the_groups(n: nat)
    ensures
        varint(n).len() > 0,
        n < pow(128, varint(n).len()),
        varint(n).len() > 1 ==> n >= pow(128, (varint(n).len() - 1) as nat),
        forall|i: int|
            0 <= i < varint(n).len() ==> (#[trigger] varint(n)[i]) as int % 128 == n as int / pow(
                128,
                i as nat,
            ) % 128,
        forall|i: int|
            0 <= i < varint(n).len() ==> ((#[trigger] varint(n)[i]) >= 128 <==> i < varint(n).len()
                - 1),
    decreases n,
{
    let s = varint(n);
    reveal(pow);
    reveal_with_fuel(pow, 2);
    if n >= 128 {
        let high = varint(n / 128);
        law_varint_holds_the_groups(n / 128);
        lemma_higher_group(n, s.len());
        lemma_higher_group(n, (s.len() - 1) as nat);
        assert forall|i: int| 0 <= i < s.len() implies (#[trigger] s[i]) as int % 128 == n as int
            / pow(128, i as nat) % 128 && (s[i] >= 128 <==> i < s.len() - 1) by {
            if i > 0 {
                assert(s[i] == high[i - 1]);
                lemma_higher_group(n, i as nat);
            } else {
                assert(s[i] == n % 128 + 128);
                assert(pow(128, i as nat) == 1);
            }
        }
    }
}

/// What is read is told by the groups of seven bits that the bytes begin with.
proof fn lemma_varint_prefix_holds_the_groups(s: Seq<u8>, limit: nat)
    ensures
        varint_prefix(s, limit) matches Ok((n, len)) ==> {
            &&& 0 < len <= s.len()
            &&& len <= limit
            &&& n < pow(128, len)
            &&& forall|i: int|
                0 <= i < len ==> (#[trigger] s[i]) as int % 128 == n as int / pow(128, i as nat)
                    % 128
            &&& forall|i: int| 0 <= i < len ==> ((#[trigger] s[i]) >= 128 <==> i < len - 1)
        },
        varint_prefix(s, limit) matches Err(e) ==> {
            &&& e is UnexpectedEnd || e is BadVarint
            &&& e is UnexpectedEnd <==> s.len() < limit
            &&& forall|i: int| 0 <= i < s.len() && i < limit ==> (#[trigger] s[i]) >= 128
        },
    decreases limit,
{
    reveal(pow);
    reveal_with_fuel(pow, 2);
    if limit > 0 && s.len() > 0 && s[0] >= 128 {
        let tail = s.skip(1);
        lemma_varint_prefix_holds_the_groups(tail, (limit - 1) as nat);
        match varint_prefix(s, limit) {
            Ok((n, len)) => {
                let high = (varint_prefix(tail, (limit - 1) as nat)->Ok_0).0;
                assert(n / 128 == high);
                lemma_higher_group(n, len);
                assert forall|i: int| 0 <= i < len implies (#[trigger] s[i]) as int % 128
                    == n as int / pow(128, i as nat) % 128 && (s[i] >= 128 <==> i < len - 1) by {
                    if i > 0 {
                        assert(s[i] == tail[i - 1]);
                        lemma_higher_group(n, i as nat);
                    }
                }
            },
            Err(_) => {
                assert forall|i: int| 0 <= i < s.len() && i < limit implies (#[trigger] s[i])
                    >= 128 by {
                    if i > 0 {
                        assert(s[i] == tail[i - 1]);
                    }
                }
            },
        }
    }
}

/// A number below a power is told by its groups.
proof fn lemma_groups_tell_the_number(m: nat, n: nat, len: nat)
    requires
        m < pow(128, len),
        n < pow(128, len),
        forall|i: nat|
            i < len ==> #[trigger] (m as int / pow(128, i)) % 128 == (n as int / pow(128, i)) % 128,
    ensures
        m == n,
    decreases len,
{
    reveal(pow);
    reveal_with_fuel(pow, 2);
    if len > 0 {
        lemma_higher_group(m, len);
        lemma_higher_group(n, len);
        assert((m as int / pow(128, 0)) % 128 == (n as int / pow(128, 0)) % 128);
        assert forall|i: nat| i < len - 1 implies #[trigger] ((m / 128) as int / pow(128, i)) % 128
            == ((n / 128) as int / pow(128, i)) % 128 by {
            lemma_higher_group(m, i + 1);
            lemma_higher_group(n, i + 1);
            assert((m as int / pow(128, i + 1)) % 128 == (n as int / pow(128, i + 1)) % 128);
        }
        lemma_groups_tell_the_number(m / 128, n / 128, (len - 1) as nat);
        lemma_fundamental_div_mod(m as int, 128);
        lemma_fundamental_div_mod(n as int, 128);
    }
}

/// A number is read exactly where the first bytes are its groups of seven bits, the lowest first,
/// with the top bit set in all but the last, and where neither the groups are more than `bits` bits
/// need nor the number is over `max`. The bytes end too early exactly where all have the top bit set
/// and more are allowed for. Else the bytes are no number.
pub proof fn law_varint_is_read_by_its_groups(s: Seq<u8>, bits: nat, max: nat, n: nat, len: nat)
    ensures
        read_varint(s, bits, max) == Ok::<(nat, nat), DecodeError>((n, len)) <==> {
            &&& 0 < len <= s.len()
            &&& len <= (bits + 6) / 7
            &&& n <= max
            &&& n < pow(128, len)
            &&& forall|i: int|
                0 <= i < len ==> (#[trigger] s[i]) as int % 128 == n as int / pow(128, i as nat)
                    % 128
            &&& forall|i: int| 0 <= i < len ==> ((#[trigger] s[i]) >= 128 <==> i < len - 1)
        },
        read_varint(s, bits, max) == Err::<(nat, nat), DecodeError>(DecodeError::UnexpectedEnd)
            <==> s.len() < (bits + 6) / 7 && forall|i: int|
            0 <= i < s.len() ==> (#[trigger] s[i]) >= 128,
        read_varint(s, bits, max) matches Err(e) ==> e is UnexpectedEnd || e is BadVarint,
{
    let limit = (bits + 6) / 7;
    lemma_varint_prefix_holds_the_groups(s, limit);
    let groups = 0 < len <= s.len() && len <= limit && n <= max && n < pow(128, len) && (forall|
        i: int,
    |
        0 <= i < len ==> (#[trigger] s[i]) as int % 128 == n as int / pow(128, i as nat) % 128) && (
    forall|i: int| 0 <= i < len ==> ((#[trigger] s[i]) >= 128 <==> i < len - 1));
    match varint_prefix(s, limit) {
        Ok((m, found)) => {
            assert(s[found - 1] < 128);
            if groups {
                assert(s[len - 1] < 128);
                assert(found == len);
                assert forall|i: nat| i < len implies #[trigger] (m as int / pow(128, i)) % 128 == (
                n as int / pow(128, i)) % 128 by {
                    assert(s[i as int] as int % 128 == m as int / pow(128, i) % 128);
                    assert(s[i as int] as int % 128 == n as int / pow(128, i) % 128);
                }
                lemma_groups_tell_the_number(m, n, len);
            }
        },
        Err(_) => {
            if groups {
                assert(s[len - 1] < 128);
            }
        },
    }
}

} // verus!
