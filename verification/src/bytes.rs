//! Byte strings: comparison, concatenation and big-endian length prefixes.

use vstd::prelude::*;

verus! {

/// The value of `n` modulo 2^32, which is what a cast of a length to `u32` keeps.
pub open spec fn low_u32(n: nat) -> u32 {
    (n % 0x1_0000_0000) as u32
}

/// The four bytes of `n`, most significant first.
pub open spec fn u32_be(n: u32) -> Seq<u8> {
    seq![
        (n / 0x100_0000) as u8,
        ((n / 0x1_0000) % 0x100) as u8,
        ((n / 0x100) % 0x100) as u8,
        (n % 0x100) as u8,
    ]
}

/// The number that four bytes spell, most significant first.
pub open spec fn u32_of_be(b: Seq<u8>) -> u32
    recommends
        b.len() == 4,
{
    (b[0] * 0x100_0000 + b[1] * 0x1_0000 + b[2] * 0x100 + b[3]) as u32
}

/// `field` behind its length in four big-endian bytes.
pub open spec fn prefixed(field: Seq<u8>) -> Seq<u8> {
    u32_be(low_u32(field.len())) + field
}

/// Each of `fields` behind its length, one after the other.
pub open spec fn prefixed_all(fields: Seq<Seq<u8>>) -> Seq<u8>
    decreases fields.len(),
{
    if fields.len() == 0 {
        Seq::empty()
    } else {
        prefixed_all(fields.drop_last()) + prefixed(fields.last())
    }
}

/// A list of byte strings: their number in four big-endian bytes, then each behind its length.
pub open spec fn listing(fields: Seq<Seq<u8>>) -> Seq<u8> {
    u32_be(low_u32(fields.len())) + prefixed_all(fields)
}

/// Four big-endian bytes give back the number they were made from.
pub proof fn lemma_u32_be_round_trip(n: u32)
    ensures
        u32_of_be(u32_be(n)) == n,
{
    let b = u32_be(n);
    assert(b[0] as int == n / 0x100_0000);
    assert(b[1] as int == (n / 0x1_0000) % 0x100);
    assert(b[2] as int == (n / 0x100) % 0x100);
    assert(b[3] as int == n % 0x100);
}

/// Four bytes are given back by the number that they spell.
pub proof fn lemma_u32_be_packs_back(head: Seq<u8>)
    requires
        head.len() == 4,
    ensures
        u32_be(u32_of_be(head)) == head,
{
    let n = u32_of_be(head) as int;
    let (a, b, c, d) = (head[0] as int, head[1] as int, head[2] as int, head[3] as int);
    assert(n == a * 0x100_0000 + b * 0x1_0000 + c * 0x100 + d);
    assert(n / 0x100_0000 == a);
    assert((n / 0x1_0000) % 0x100 == b);
    assert((n / 0x100) % 0x100 == c);
    assert(n % 0x100 == d);
    assert(u32_be(u32_of_be(head)) =~= head);
}

/// Whether the number of fields and their lengths fit into four bytes.
pub open spec fn fields_fit(fields: Seq<Seq<u8>>) -> bool {
    &&& fields.len() <= u32::MAX
    &&& forall|i: int| 0 <= i < fields.len() ==> (#[trigger] fields[i]).len() <= u32::MAX
}

proof fn lemma_heads(head_a: Seq<u8>, a: Seq<u8>, head_b: Seq<u8>, b: Seq<u8>)
    requires
        head_a.len() == head_b.len(),
        head_a + a == head_b + b,
    ensures
        head_a == head_b,
        a == b,
{
    let n = head_a.len() as int;
    assert((head_a + a).take(n) =~= head_a);
    assert((head_b + b).take(n) =~= head_b);
    assert((head_a + a).skip(n) =~= a);
    assert((head_b + b).skip(n) =~= b);
}

proof fn lemma_length_heads(n: nat, a: Seq<u8>, m: nat, b: Seq<u8>)
    requires
        n <= u32::MAX,
        m <= u32::MAX,
        u32_be(low_u32(n)) + a == u32_be(low_u32(m)) + b,
    ensures
        n == m,
        a == b,
{
    lemma_u32_be_round_trip(low_u32(n));
    lemma_u32_be_round_trip(low_u32(m));
    lemma_heads(u32_be(low_u32(n)), a, u32_be(low_u32(m)), b);
}

proof fn lemma_prefixed_is_unambiguous(a: Seq<u8>, after_a: Seq<u8>, b: Seq<u8>, after_b: Seq<u8>)
    requires
        a.len() <= u32::MAX,
        b.len() <= u32::MAX,
        prefixed(a) + after_a == prefixed(b) + after_b,
    ensures
        a == b,
        after_a == after_b,
{
    let head_a = u32_be(low_u32(a.len()));
    let head_b = u32_be(low_u32(b.len()));
    assert(prefixed(a) + after_a =~= head_a + (a + after_a));
    assert(prefixed(b) + after_b =~= head_b + (b + after_b));
    lemma_length_heads(a.len(), a + after_a, b.len(), b + after_b);
    lemma_heads(a, after_a, b, after_b);
}

proof fn lemma_prefixed_all_front(fields: Seq<Seq<u8>>)
    requires
        fields.len() > 0,
    ensures
        prefixed_all(fields) == prefixed(fields.first()) + prefixed_all(fields.drop_first()),
    decreases fields.len(),
{
    if fields.len() == 1 {
        assert(fields.drop_last() =~= fields.drop_first());
        assert(fields.drop_first() =~= Seq::<Seq<u8>>::empty());
        assert(prefixed_all(fields.drop_last()) =~= Seq::<u8>::empty());
        assert(prefixed_all(fields) =~= prefixed(fields.first()));
        assert(prefixed(fields.first()) + Seq::<u8>::empty() =~= prefixed(fields.first()));
    } else {
        lemma_prefixed_all_front(fields.drop_last());
        assert(fields.drop_last().first() == fields.first());
        assert(fields.drop_last().drop_first() =~= fields.drop_first().drop_last());
        assert(fields.drop_first().last() == fields.last());
        assert(prefixed_all(fields) =~= prefixed(fields.first()) + prefixed_all(
            fields.drop_first(),
        ));
    }
}

proof fn lemma_prefixed_all_is_unambiguous(a: Seq<Seq<u8>>, b: Seq<Seq<u8>>)
    requires
        fields_fit(a),
        fields_fit(b),
        a.len() == b.len(),
        prefixed_all(a) == prefixed_all(b),
    ensures
        a == b,
    decreases a.len(),
{
    if a.len() == 0 {
        assert(a =~= b);
    } else {
        lemma_prefixed_all_front(a);
        lemma_prefixed_all_front(b);
        assert(a[0].len() <= u32::MAX && b[0].len() <= u32::MAX);
        lemma_prefixed_is_unambiguous(
            a.first(),
            prefixed_all(a.drop_first()),
            b.first(),
            prefixed_all(b.drop_first()),
        );
        assert forall|i: int| 0 <= i < a.drop_first().len() implies (#[trigger] a.drop_first()[i]).len()
            <= u32::MAX by {
            assert(a[i + 1].len() <= u32::MAX);
        }
        assert forall|i: int| 0 <= i < b.drop_first().len() implies (#[trigger] b.drop_first()[i]).len()
            <= u32::MAX by {
            assert(b[i + 1].len() <= u32::MAX);
        }
        lemma_prefixed_all_is_unambiguous(a.drop_first(), b.drop_first());
        assert(a =~= seq![a.first()] + a.drop_first());
        assert(b =~= seq![b.first()] + b.drop_first());
    }
}

/// Different lists of byte strings are listed differently, so that a listing can be taken apart
/// again.
pub proof fn law_listings_are_unambiguous(a: Seq<Seq<u8>>, b: Seq<Seq<u8>>)
    requires
        fields_fit(a),
        fields_fit(b),
        listing(a) == listing(b),
    ensures
        a == b,
{
    lemma_length_heads(a.len(), prefixed_all(a), b.len(), prefixed_all(b));
    lemma_prefixed_all_is_unambiguous(a, b);
}

/// The length of `s` modulo 2^32.
pub fn length_u32(s: &[u8]) -> (n: u32)
    ensures
        n == low_u32(s@.len()),
{
    let len: u64 = s.len() as u64;
    assert(len as u32 == len % 0x1_0000_0000) by (bit_vector);
    len as u32
}

/// Appends `s` to `buf`.
pub fn append(buf: &mut Vec<u8>, s: &[u8])
    ensures
        final(buf)@ == old(buf)@ + s@,
{
    buf.extend_from_slice(s);
    assert(buf@ =~= old(buf)@ + s@);
}

/// A vector with the bytes of `s`.
pub fn to_vec(s: &[u8]) -> (v: Vec<u8>)
    ensures
        v@ == s@,
{
    let mut v: Vec<u8> = Vec::new();
    append(&mut v, s);
    assert(v@ =~= s@);
    v
}

/// The UTF-8 bytes of `text`.
pub fn text_bytes(text: &str) -> (v: Vec<u8>)
    ensures
        v@ == vstd::utf8::encode_utf8(text@),
{
    to_vec(text.as_bytes())
}

/// A vector with the bytes `s[from..to]`.
pub fn copy_range(s: &[u8], from: usize, to: usize) -> (v: Vec<u8>)
    requires
        from <= to <= s@.len(),
    ensures
        v@ == s@.subrange(from as int, to as int),
{
    to_vec(vstd::slice::slice_subrange(s, from, to))
}

/// Appends the four big-endian bytes of `n` to `buf`.
pub fn append_u32_be(buf: &mut Vec<u8>, n: u32)
    ensures
        final(buf)@ == old(buf)@ + u32_be(n),
{
    buf.push((n / 0x100_0000) as u8);
    buf.push(((n / 0x1_0000) % 0x100) as u8);
    buf.push(((n / 0x100) % 0x100) as u8);
    buf.push((n % 0x100) as u8);
    assert(buf@ =~= old(buf)@ + u32_be(n));
}

/// Appends `field` behind its big-endian length.
pub fn append_prefixed(buf: &mut Vec<u8>, field: &[u8])
    ensures
        final(buf)@ == old(buf)@ + prefixed(field@),
{
    append_u32_be(buf, length_u32(field));
    append(buf, field);
    assert(buf@ =~= old(buf)@ + prefixed(field@));
}

/// Reads the big-endian number at `at`.
pub fn read_u32_be(s: &[u8], at: usize) -> (n: u32)
    requires
        at + 4 <= s@.len(),
    ensures
        n == u32_of_be(s@.subrange(at as int, at + 4)),
{
    let b0: u32 = s[at] as u32;
    let b1: u32 = s[at + 1] as u32;
    let b2: u32 = s[at + 2] as u32;
    let b3: u32 = s[at + 3] as u32;
    b0 * 0x100_0000 + b1 * 0x1_0000 + b2 * 0x100 + b3
}

/// Whether two byte strings are equal.
pub fn bytes_equal(a: &[u8], b: &[u8]) -> (equal: bool)
    ensures
        equal == (a@ == b@),
{
    if a.len() != b.len() {
        return false;
    }
    let mut i: usize = 0;
    while i < a.len()
        invariant
            i <= a@.len(),
            a@.len() == b@.len(),
            forall|j: int| 0 <= j < i ==> a@[j] == b@[j],
        decreases a@.len() - i,
    {
        if a[i] != b[i] {
            return false;
        }
        i = i + 1;
    }
    assert(a@ =~= b@);
    true
}

/// The most significant of four bytes comes first.
pub proof fn law_big_endian_bytes(n: u32)
    ensures
        u32_be(n).len() == 4,
        n == u32_be(n)[0] * 0x100_0000 + u32_be(n)[1] * 0x1_0000 + u32_be(n)[2] * 0x100 + u32_be(
            n,
        )[3],
{
    let b = u32_be(n);
    assert(b[0] as int == n / 0x100_0000);
    assert(b[1] as int == (n / 0x1_0000) % 0x100);
    assert(b[2] as int == (n / 0x100) % 0x100);
    assert(b[3] as int == n % 0x100);
}

/// A field follows its length, and a list of one more field ends with that field.
pub proof fn law_fields_follow_their_lengths(fields: Seq<Seq<u8>>, field: Seq<u8>)
    requires
        field.len() <= u32::MAX,
    ensures
        prefixed(field).len() == field.len() + 4,
        u32_of_be(prefixed(field).take(4)) == field.len(),
        prefixed(field).skip(4) == field,
        prefixed_all(fields.push(field)) == prefixed_all(fields) + prefixed(field),
        prefixed_all(Seq::empty()) == Seq::<u8>::empty(),
        fields.len() <= u32::MAX ==> u32_of_be(listing(fields).take(4)) == fields.len(),
        listing(fields).skip(4) == prefixed_all(fields),
{
    lemma_u32_be_round_trip(low_u32(field.len()));
    lemma_u32_be_round_trip(low_u32(fields.len()));
    assert(prefixed(field).take(4) =~= u32_be(low_u32(field.len())));
    assert(prefixed(field).skip(4) =~= field);
    assert(fields.push(field).drop_last() =~= fields);
    assert(listing(fields).take(4) =~= u32_be(low_u32(fields.len())));
    assert(listing(fields).skip(4) =~= prefixed_all(fields));
}

/// A length below 2^32 is kept, and one more than that is cut down by 2^32.
pub proof fn law_low_lengths(n: nat)
    ensures
        n <= u32::MAX ==> low_u32(n) == n,
        low_u32(n + 0x1_0000_0000) == low_u32(n),
{
}

} // verus!
