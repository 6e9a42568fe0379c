//! The SCALE encoding, in which contract calls and node messages travel.

use vstd::prelude::*;

verus! {

/// The number that bytes spell, least significant first.
pub open spec fn le_value(b: Seq<u8>) -> nat
    decreases b.len(),
{
    if b.len() == 0 {
        0
    } else {
        b.first() as nat + 0x100 * le_value(b.drop_first())
    }
}

/// The lowest `len` bytes of `n`, least significant first.
pub open spec fn le_bytes(n: nat, len: nat) -> Seq<u8>
    decreases len,
{
    if len == 0 {
        Seq::empty()
    } else {
        seq![(n % 0x100) as u8] + le_bytes(n / 0x100, (len - 1) as nat)
    }
}

/// A number in one, two, four or five bytes; the lowest two bits tell which.
pub open spec fn compact(n: nat) -> Seq<u8> {
    if n < 0x40 {
        le_bytes(4 * n, 1)
    } else if n < 0x4000 {
        le_bytes(4 * n + 1, 2)
    } else if n < 0x4000_0000 {
        le_bytes(4 * n + 2, 4)
    } else {
        seq![3u8] + le_bytes(n, 4)
    }
}

/// A byte string behind its length.
pub open spec fn scale_bytes(data: Seq<u8>) -> Seq<u8> {
    compact(data.len()) + data
}

/// What was decoded and what follows it.
pub open spec fn bytes_and_rest(decoded: Result<(Vec<u8>, Vec<u8>), String>) -> Option<
    (Seq<u8>, Seq<u8>),
> {
    match decoded {
        Ok((read, rest)) => Some((read@, rest@)),
        Err(_) => None,
    }
}

/// What was decoded and what follows it.
pub open spec fn length_and_rest(decoded: Result<(u32, Vec<u8>), String>) -> Option<
    (u32, Seq<u8>),
> {
    match decoded {
        Ok((n, rest)) => Some((n, rest@)),
        Err(_) => None,
    }
}

/// What `parity_scale_codec::Decode::decode` of a byte vector tells of bytes that it refuses.
pub uninterp spec fn bytes_refusal(data: Seq<u8>) -> Seq<char>;

/// What `parity_scale_codec::Decode::decode` of a compact `u32` tells of bytes that it refuses.
pub uninterp spec fn length_refusal(data: Seq<u8>) -> Seq<char>;

/// Whether no byte string starts `data`.
pub open spec fn no_bytes_start(data: Seq<u8>) -> bool {
    forall|read: Seq<u8>, rest: Seq<u8>|
        read.len() <= u32::MAX ==> data != #[trigger] (scale_bytes(read) + rest)
}

/// Whether no compact number starts `data`.
pub open spec fn no_length_starts(data: Seq<u8>) -> bool {
    forall|n: u32, rest: Seq<u8>| data != #[trigger] (compact(n as nat) + rest)
}

/// Calls `parity_scale_codec::Encode::encode` of a byte slice.
/// Trusted: the bytes follow their compact length. Slices of more than `u32::MAX` bytes, on
/// which the call panics, are left out.
#[verifier::external_body]
pub(crate) fn encode_bytes(data: &[u8]) -> (encoded: Vec<u8>)
    requires
        data@.len() <= u32::MAX,
    ensures
        encoded@ == scale_bytes(data@),
{
    parity_scale_codec::Encode::encode(data)
}

/// Calls `parity_scale_codec::Decode::decode` of a byte vector and hands out what it read and
/// what it left unread.
/// Trusted: it reads a byte string behind its compact length, as `encode` writes one, and
/// fails exactly where the input does not start with such a string, with a text that depends on
/// the input alone.
#[verifier::external_body]
pub(crate) fn decode_bytes(data: &[u8]) -> (decoded: Result<(Vec<u8>, Vec<u8>), String>)
    ensures
        decoded matches Err(text) ==> text@ == bytes_refusal(data@),
        bytes_and_rest(decoded) matches Some((read, rest)) ==> data@ == scale_bytes(read) + rest
            && read.len() <= u32::MAX,
        forall|read: Seq<u8>, rest: Seq<u8>|
            read.len() <= u32::MAX && data@ == #[trigger] (scale_bytes(read) + rest)
                ==> bytes_and_rest(decoded) == Some((read, rest)),
{
    let mut input = data;
    match <Vec<u8> as parity_scale_codec::Decode>::decode(&mut input) {
        Ok(read) => Ok((read, input.to_vec())),
        Err(e) => Err(format!("{}", e)),
    }
}

/// Calls `parity_scale_codec::Decode::decode` of a compact `u32` and hands out what it read and
/// what it left unread.
/// Trusted: it reads a compact number, and fails exactly where the input does not start with
/// one, with a text that depends on the input alone.
#[verifier::external_body]
pub(crate) fn decode_length(data: &[u8]) -> (decoded: Result<(u32, Vec<u8>), String>)
    ensures
        decoded matches Err(text) ==> text@ == length_refusal(data@),
        length_and_rest(decoded) matches Some((n, rest)) ==> data@ == compact(n as nat) + rest,
        forall|n: u32, rest: Seq<u8>|
            data@ == #[trigger] (compact(n as nat) + rest) ==> length_and_rest(decoded) == Some(
                (n, rest),
            ),
{
    let mut input = data;
    match <parity_scale_codec::Compact<u32> as parity_scale_codec::Decode>::decode(&mut input) {
        Ok(n) => Ok((n.0, input.to_vec())),
        Err(e) => Err(format!("{}", e)),
    }
}

/// Calls `parity_scale_codec::Decode::decode` of a `u64`; an error comes as its text.
/// Trusted: it reads the first eight bytes, least significant first, and where there are fewer
/// it fails with one text.
#[verifier::external_body]
pub(crate) fn decode_u64(data: &[u8]) -> (decoded: Result<u64, String>)
    ensures
        match decoded {
            Ok(n) => data@.len() >= 8 && n as nat == le_value(data@.take(8)),
            Err(e) => data@.len() < 8 && e@ == "Not enough data to fill buffer"@,
        },
{
    match <u64 as parity_scale_codec::Decode>::decode(&mut &data[..]) {
        Ok(n) => Ok(n),
        Err(e) => Err(format!("{}", e)),
    }
}

/// Calls `parity_scale_codec::Decode::decode` of a `u128`; an error comes as its text.
/// Trusted: it reads the first sixteen bytes, least significant first, and where there are
/// fewer it fails with one text.
#[verifier::external_body]
pub(crate) fn decode_u128(data: &[u8]) -> (decoded: Result<u128, String>)
    ensures
        match decoded {
            Ok(n) => data@.len() >= 16 && n as nat == le_value(data@.take(16)),
            Err(e) => data@.len() < 16 && e@ == "Not enough data to fill buffer"@,
        },
{
    match <u128 as parity_scale_codec::Decode>::decode(&mut &data[..]) {
        Ok(n) => Ok(n),
        Err(e) => Err(format!("{}", e)),
    }
}

/// Appends the four bytes of `n`, least significant first.
pub fn append_u32_le(buf: &mut Vec<u8>, n: u32)
    ensures
        final(buf)@ == old(buf)@ + le_bytes(n as nat, 4),
{
    buf.push((n % 0x100) as u8);
    buf.push(((n / 0x100) % 0x100) as u8);
    buf.push(((n / 0x1_0000) % 0x100) as u8);
    buf.push((n / 0x100_0000) as u8);
    proof {
        reveal_with_fuel(le_bytes, 5);
    }
    assert(buf@ =~= old(buf)@ + le_bytes(n as nat, 4));
}

/// Appends the sixteen bytes of `n`, least significant first.
pub fn append_u128_le(buf: &mut Vec<u8>, n: u128)
    ensures
        final(buf)@ == old(buf)@ + le_bytes(n as nat, 16),
{
    let mut left: u128 = n;
    let mut i: usize = 0;
    assert(buf@ =~= old(buf)@ + Seq::<u8>::empty());
    let ghost start = buf@;
    while i < 16
        invariant
            i <= 16,
            start + le_bytes(n as nat, 16) == buf@ + le_bytes(left as nat, (16 - i) as nat),
        decreases 16 - i,
    {
        let ghost before = buf@;
        buf.push((left % 0x100) as u8);
        assert(le_bytes(left as nat, (16 - i) as nat) =~= seq![(left % 0x100) as u8] + le_bytes(
            (left / 0x100) as nat,
            (15 - i) as nat,
        ));
        assert(buf@ + le_bytes((left / 0x100) as nat, (15 - i) as nat) =~= before + le_bytes(
            left as nat,
            (16 - i) as nat,
        ));
        left = left / 0x100;
        i = i + 1;
    }
    assert(buf@ + le_bytes(left as nat, 0) =~= buf@);
}

/// The number that four bytes spell, least significant first.
pub fn read_u32_le(data: &[u8]) -> (n: u32)
    requires
        data@.len() >= 4,
    ensures
        n as nat == le_value(data@.take(4)),
{
    let n: u32 = data[0] as u32 + 0x100 * (data[1] as u32) + 0x1_0000 * (data[2] as u32)
        + 0x100_0000 * (data[3] as u32);
    proof {
        reveal_with_fuel(le_value, 5);
    }
    n
}

proof fn lemma_le_value_bound(b: Seq<u8>)
    ensures
        b.len() <= 16 ==> le_value(b) <= u128::MAX,
{
    reveal_with_fuel(le_value, 17);
}

/// The number that sixteen bytes spell, least significant first.
pub fn read_u128_le(data: &[u8]) -> (n: u128)
    requires
        data@.len() >= 16,
    ensures
        n as nat == le_value(data@.take(16)),
{
    let mut n: u128 = 0;
    let mut i: usize = 16;
    assert(data@.subrange(16, 16) =~= Seq::<u8>::empty());
    while i > 0
        invariant
            i <= 16,
            data@.len() >= 16,
            n as nat == le_value(data@.subrange(i as int, 16)),
        decreases i,
    {
        i = i - 1;
        proof {
            let tail = data@.subrange(i as int, 16);
            assert(tail.drop_first() =~= data@.subrange(i + 1, 16));
            lemma_le_value_bound(tail);
        }
        n = data[i] as u128 + 0x100 * n;
    }
    assert(data@.subrange(0, 16) =~= data@.take(16));
    n
}

/// The eight bytes of a number give back the number.
pub proof fn law_u64_round_trip(n: u64)
    ensures
        le_bytes(n as nat, 8).len() == 8,
        le_value(le_bytes(n as nat, 8)) == n,
{
    assert(vstd::arithmetic::power::pow(0x100, 8) == 0x1_0000_0000_0000_0000nat) by {
        reveal_with_fuel(vstd::arithmetic::power::pow, 9);
    }
    law_le_round_trip(n as nat, 8);
}

/// The sixteen bytes of a number give back the number.
pub proof fn law_u128_round_trip(n: u128)
    ensures
        le_bytes(n as nat, 16).len() == 16,
        le_value(le_bytes(n as nat, 16)) == n,
{
    assert(vstd::arithmetic::power::pow(0x100, 16) == 0x1_0000_0000_0000_0000_0000_0000_0000_0000nat)
        by {
        reveal_with_fuel(vstd::arithmetic::power::pow, 17);
    }
    law_le_round_trip(n as nat, 16);
}

/// The bytes of a number give back the number, if there are enough of them.
pub proof fn law_le_round_trip(n: nat, len: nat)
    ensures
        le_bytes(n, len).len() == len,
        n < vstd::arithmetic::power::pow(0x100, len) ==> le_value(le_bytes(n, len)) == n,
    decreases len,
{
    vstd::arithmetic::power::lemma_pow0(0x100);
    if len > 0 {
        law_le_round_trip(n / 0x100, (len - 1) as nat);
        let rest = le_bytes(n / 0x100, (len - 1) as nat);
        assert(le_bytes(n, len).drop_first() =~= rest);
        if n < vstd::arithmetic::power::pow(0x100, len) {
            let p = vstd::arithmetic::power::pow(0x100, (len - 1) as nat);
            vstd::arithmetic::power::lemma_pow1(0x100);
            assert(vstd::arithmetic::power::pow(0x100, len) == 0x100 * p) by {
                reveal(vstd::arithmetic::power::pow);
            }
            assert(n / 0x100 < p);
        }
    }
}

/// The four bytes of a number give back the number.
pub proof fn law_u32_round_trip(n: u32)
    ensures
        le_bytes(n as nat, 4).len() == 4,
        le_value(le_bytes(n as nat, 4)) == n,
{
    assert(vstd::arithmetic::power::pow(0x100, 4) == 0x1_0000_0000) by {
        reveal_with_fuel(vstd::arithmetic::power::pow, 5);
    }
    law_le_round_trip(n as nat, 4);
}

/// A compact number can be told from what follows it.
pub proof fn law_compact_is_unambiguous(n: nat, after_n: Seq<u8>, m: nat, after_m: Seq<u8>)
    requires
        n <= u32::MAX,
        m <= u32::MAX,
        compact(n) + after_n == compact(m) + after_m,
    ensures
        n == m,
        after_n == after_m,
{
    lemma_compact_shape(n);
    lemma_compact_shape(m);
    let a = compact(n) + after_n;
    let b = compact(m) + after_m;
    assert(a[0] == compact(n)[0]);
    assert(b[0] == compact(m)[0]);
    let len = compact(n).len() as int;
    assert(a.take(len) =~= compact(n));
    assert(b.take(len) =~= compact(m));
    assert(a.skip(len) =~= after_n);
    assert(b.skip(len) =~= after_m);
}

proof fn lemma_compact_shape(n: nat)
    requires
        n <= u32::MAX,
    ensures
        compact(n).len() > 0,
        compact(n)[0] % 4 == (if n < 0x40 {
            0int
        } else if n < 0x4000 {
            1
        } else if n < 0x4000_0000 {
            2
        } else {
            3
        }),
        compact(n).len() == (if n < 0x40 {
            1int
        } else if n < 0x4000 {
            2
        } else if n < 0x4000_0000 {
            4
        } else {
            5
        }),
        le_value(compact(n)) == (if n < 0x4000_0000 {
            4 * n + compact(n)[0] % 4
        } else {
            3int + 0x100 * n
        }),
{
    assert(vstd::arithmetic::power::pow(0x100, 1) == 0x100 && vstd::arithmetic::power::pow(0x100, 2)
        == 0x1_0000 && vstd::arithmetic::power::pow(0x100, 4) == 0x1_0000_0000) by {
        reveal_with_fuel(vstd::arithmetic::power::pow, 5);
    }
    if n < 0x40 {
        law_le_round_trip(4 * n, 1);
    } else if n < 0x4000 {
        law_le_round_trip(4 * n + 1, 2);
    } else if n < 0x4000_0000 {
        law_le_round_trip(4 * n + 2, 4);
    } else {
        law_le_round_trip(n, 4);
        assert(compact(n).drop_first() =~= le_bytes(n, 4));
    }
}

/// An encoded byte string can be told from what follows it.
pub proof fn law_bytes_are_unambiguous(
    a: Seq<u8>,
    after_a: Seq<u8>,
    b: Seq<u8>,
    after_b: Seq<u8>,
)
    requires
        a.len() <= u32::MAX,
        b.len() <= u32::MAX,
        scale_bytes(a) + after_a == scale_bytes(b) + after_b,
    ensures
        a == b,
        after_a == after_b,
{
    assert(scale_bytes(a) + after_a =~= compact(a.len()) + (a + after_a));
    assert(scale_bytes(b) + after_b =~= compact(b.len()) + (b + after_b));
    law_compact_is_unambiguous(a.len(), a + after_a, b.len(), b + after_b);
    assert((a + after_a).take(a.len() as int) =~= a);
    assert((b + after_b).take(a.len() as int) =~= b);
    assert((a + after_a).skip(a.len() as int) =~= after_a);
    assert((b + after_b).skip(a.len() as int) =~= after_b);
}

/// Bytes give back themselves, by way of the number that they spell.
pub proof fn law_le_value_reads_back(b: Seq<u8>)
    ensures
        le_bytes(le_value(b), b.len()) == b,
    decreases b.len(),
{
    if b.len() > 0 {
        let rest = b.drop_first();
        law_le_value_reads_back(rest);
        assert(le_value(b) % 0x100 == b.first());
        assert(le_value(b) / 0x100 == le_value(rest));
        assert(seq![b.first()] + rest =~= b);
    } else {
        assert(le_bytes(le_value(b), b.len()) =~= b);
    }
}

/// The byte at place `i` of a number is its digit of weight 256 to the `i`, and the digits of a
/// byte string have these weights.
pub proof fn law_le_digits(n: nat, len: nat, i: int)
    requires
        0 <= i < len,
    ensures
        le_bytes(n, len).len() == len,
        le_bytes(n, len)[i] as nat == (n / vstd::arithmetic::power::pow(0x100, i as nat) as nat)
            % 0x100,
    decreases len,
{
    let p = vstd::arithmetic::power::pow(0x100, i as nat);
    law_le_round_trip(n, len);
    if i == 0 {
        vstd::arithmetic::power::lemma_pow0(0x100);
        assert(n / 1 == n);
    } else {
        let q = vstd::arithmetic::power::pow(0x100, (i - 1) as nat);
        law_le_digits(n / 0x100, (len - 1) as nat, i - 1);
        vstd::arithmetic::power::lemma_pow_positive(0x100, (i - 1) as nat);
        assert(p == 0x100 * q) by {
            reveal(vstd::arithmetic::power::pow);
        }
        vstd::arithmetic::div_mod::lemma_div_denominator(n as int, 0x100, q);
    }
}

/// The number that two parts spell one after the other: the later part weighs more.
pub proof fn law_le_value_of_parts(a: Seq<u8>, b: Seq<u8>)
    ensures
        le_value(seq![]) == 0,
        a.len() == 1 ==> le_value(a) == a[0] as nat,
        le_value(a + b) == le_value(a) + vstd::arithmetic::power::pow(0x100, a.len()) * le_value(b),
    decreases a.len(),
{
    vstd::arithmetic::power::lemma_pow0(0x100);
    reveal_with_fuel(le_value, 2);
    if a.len() == 0 {
        assert(a + b =~= b);
    } else {
        let rest = a.drop_first();
        law_le_value_of_parts(rest, b);
        assert((a + b).drop_first() =~= rest + b);
        let p = vstd::arithmetic::power::pow(0x100, rest.len());
        assert(vstd::arithmetic::power::pow(0x100, a.len()) == 0x100 * p) by {
            reveal(vstd::arithmetic::power::pow);
        }
        let v = le_value(b) as int;
        assert(0x100 * (p * v) == (0x100 * p) * v) by (nonlinear_arith);
    }
}

/// The compact form of a number: one, two, four or five bytes. The lowest two bits of the first
/// byte tell which, and the rest of the form is the number.
pub proof fn law_compact_form(n: u32)
    ensures
        n < 0x40 ==> compact(n as nat) == seq![(4 * n) as u8],
        0x40 <= n < 0x4000 ==> compact(n as nat).len() == 2 && le_value(compact(n as nat)) == 4 * n
            + 1,
        0x4000 <= n < 0x4000_0000 ==> compact(n as nat).len() == 4 && le_value(compact(n as nat))
            == 4 * n + 2,
        n >= 0x4000_0000 ==> compact(n as nat).len() == 5 && compact(n as nat)[0] == 3 && le_value(
            compact(n as nat).skip(1),
        ) == n,
{
    lemma_compact_shape(n as nat);
    reveal_with_fuel(le_bytes, 5);
    if n < 0x40 {
        assert(compact(n as nat) =~= seq![(4 * n) as u8]);
    } else if n >= 0x4000_0000 {
        law_u32_round_trip(n);
        assert(compact(n as nat).skip(1) =~= le_bytes(n as nat, 4));
    }
}

/// An encoded byte string ends with the bytes themselves, behind their compact length.
pub proof fn law_bytes_follow_their_length(data: Seq<u8>)
    requires
        data.len() <= u32::MAX,
    ensures
        scale_bytes(data).len() == data.len() + (if data.len() < 0x40 {
            1nat
        } else if data.len() < 0x4000 {
            2
        } else if data.len() < 0x4000_0000 {
            4
        } else {
            5
        }),
        scale_bytes(data).skip(scale_bytes(data).len() - data.len()) == data,
        scale_bytes(data).take(scale_bytes(data).len() - data.len()) == compact(data.len()),
{
    lemma_compact_shape(data.len());
    let start = compact(data.len()).len() as int;
    assert(scale_bytes(data).skip(start) =~= data);
    assert(scale_bytes(data).take(start) =~= compact(data.len()));
}

} // verus!
