//! Persistence codec for the item list.
//!
//! A serialized list is the three magic bytes `0xFE 0xDC 0x00`, a 4-byte
//! big-endian item count, and then each item's UTF-8 bytes followed by a
//! single NUL terminator.  Decoding fails cleanly on a buffer shorter than
//! seven bytes, on a wrong magic, on a missing terminator and on a segment
//! that is not valid UTF-8.

use vstd::prelude::*;
use vstd::utf8::decode_utf8;
use vstd::utf8::encode_scalar;
use vstd::utf8::encode_utf8;
use vstd::utf8::encode_utf8_decode_utf8;
use vstd::utf8::encode_utf8_valid_utf8;
use vstd::utf8::has_width_1_encoding;
use vstd::utf8::has_width_2_encoding;
use vstd::utf8::has_width_3_encoding;
use vstd::utf8::is_scalar;
use vstd::utf8::valid_utf8;

verus! {

/// The three magic bytes that open every serialized list.
pub open spec fn magic() -> Seq<u8> {
    seq![0xFEu8, 0xDCu8, 0x00u8]
}

/// The four big-endian bytes of a 32-bit count.
pub open spec fn be32(n: u32) -> Seq<u8> {
    seq![(n >> 24) as u8, (n >> 16) as u8, (n >> 8) as u8, n as u8]
}

/// The count stored in four big-endian bytes.
pub open spec fn be32_val(b0: u8, b1: u8, b2: u8, b3: u8) -> u32 {
    ((b0 as u32) << 24) | ((b1 as u32) << 16) | ((b2 as u32) << 8) | (b3 as u32)
}

/// The payload: each item's UTF-8 bytes followed by one NUL terminator.
pub open spec fn encode_items(items: Seq<Seq<char>>) -> Seq<u8>
    decreases items.len(),
{
    if items.len() == 0 {
        seq![]
    } else {
        encode_utf8(items[0]) + seq![0u8] + encode_items(items.drop_first())
    }
}

/// The serialized form of an item list.
pub open spec fn spec_encode(items: Seq<Seq<char>>) -> Seq<u8>
    recommends
        items.len() <= u32::MAX,
{
    magic() + be32(items.len() as u32) + encode_items(items)
}

/// The index of the first NUL byte of `b`, or -1 when there is none.
pub open spec fn find_nul(b: Seq<u8>) -> int
    decreases b.len(),
{
    if b.len() == 0 {
        -1
    } else if b[0] == 0 {
        0
    } else {
        let r = find_nul(b.drop_first());
        if r < 0 {
            -1
        } else {
            r + 1
        }
    }
}

/// Reads `n` NUL-terminated UTF-8 segments from the front of `b`; bytes after
/// the last segment are ignored.  Fails when a terminator is missing or a
/// segment is not valid UTF-8.
pub open spec fn parse_items(b: Seq<u8>, n: nat) -> Option<Seq<Seq<char>>>
    decreases n,
{
    if n == 0 {
        Some(Seq::empty())
    } else {
        let i = find_nul(b);
        if i < 0 {
            None
        } else if !valid_utf8(b.take(i)) {
            None
        } else {
            match parse_items(b.skip(i + 1), (n - 1) as nat) {
                Option::None => None,
                Option::Some(rest) => Some(seq![decode_utf8(b.take(i))] + rest),
            }
        }
    }
}

/// The item list stored in a serialized buffer, or `None` when the buffer is
/// shorter than seven bytes, opens with the wrong magic, or its payload is
/// not `count` well-formed segments.
pub open spec fn spec_decode(b: Seq<u8>) -> Option<Seq<Seq<char>>> {
    if b.len() < 7 {
        None
    } else if b[0] != 0xFE || b[1] != 0xDC || b[2] != 0x00 {
        None
    } else {
        parse_items(b.skip(7), be32_val(b[3], b[4], b[5], b[6]) as nat)
    }
}

/// Prepends a decoded prefix to the result of parsing the rest of a buffer.
pub open spec fn opt_cat(pre: Seq<Seq<char>>, r: Option<Seq<Seq<char>>>) -> Option<
    Seq<Seq<char>>,
> {
    match r {
        Option::None => None,
        Option::Some(rest) => Some(pre + rest),
    }
}

/// Relies on String::from_utf8: succeeds exactly on valid UTF-8 input and
/// returns the string with those bytes.
#[verifier::external_body]
fn string_from_utf8(v: Vec<u8>) -> (r: Option<String>)
    ensures
        r is Some <==> valid_utf8(v@),
        r matches Some(s) ==> encode_utf8(s@) == v@,
{
    String::from_utf8(v).ok()
}

/// Serializes an item list.
pub fn encode_list(items: &Vec<String>) -> (out: Vec<u8>)
    requires
        items@.len() <= u32::MAX,
    ensures
        out@ == spec_encode(items.deep_view()),
{
    let n: u32 = items.len() as u32;
    let mut out: Vec<u8> = Vec::new();
    out.push(0xFE);
    out.push(0xDC);
    out.push(0x00);
    out.push((n >> 24) as u8);
    out.push((n >> 16) as u8);
    out.push((n >> 8) as u8);
    out.push(n as u8);
    assert(out@ =~= magic() + be32(n));
    assert(items.deep_view().take(0) =~= Seq::<Seq<char>>::empty());
    let mut k: usize = 0;
    while k < items.len()
        invariant
            k <= items@.len(),
            items@.len() <= u32::MAX,
            n == items@.len() as u32,
            out@ == magic() + be32(n) + encode_items(items.deep_view().take(k as int)),
        decreases items@.len() - k,
    {
        let ghost pre = out@;
        let bytes: &[u8] = items[k].as_str().as_bytes();
        let mut seg: Vec<u8> = vstd::slice::slice_to_vec(bytes);
        out.append(&mut seg);
        out.push(0u8);
        proof {
            assert(items.deep_view()[k as int] == items@[k as int]@);
            lemma_encode_items_snoc(items.deep_view(), k as int);
            assert(out@ =~= magic() + be32(n) + encode_items(
                items.deep_view().take(k as int + 1),
            ));
        }
        k = k + 1;
    }
    proof {
        assert(items.deep_view().take(items@.len() as int) =~= items.deep_view());
    }
    out
}

/// Deserializes an item list; the exact failure conditions are those of
/// [`spec_decode`].
pub fn decode_list(buf: &Vec<u8>) -> (r: Option<Vec<String>>)
    ensures
        match r {
            Option::Some(items) => spec_decode(buf@) == Some(items.deep_view()),
            Option::None => spec_decode(buf@) is None,
        },
{
    if buf.len() < 7 {
        return None;
    }
    if buf[0] != 0xFE || buf[1] != 0xDC || buf[2] != 0x00 {
        return None;
    }
    let n: u32 = ((buf[3] as u32) << 24) | ((buf[4] as u32) << 16) | ((buf[5] as u32) << 8) | (
    buf[6] as u32);
    let mut items: Vec<String> = Vec::new();
    let mut pos: usize = 7;
    let mut k: u32 = 0;
    assert(items.deep_view() =~= Seq::<Seq<char>>::empty());
    while k < n
        invariant
            7 <= pos <= buf@.len(),
            k <= n,
            buf@.len() >= 7,
            spec_decode(buf@) == opt_cat(
                items.deep_view(),
                parse_items(buf@.skip(pos as int), (n - k) as nat),
            ),
        decreases n - k,
    {
        let ghost items0 = items.deep_view();
        let ghost k0 = k;
        let start: usize = pos;
        while pos < buf.len() && buf[pos] != 0
            invariant
                start <= pos <= buf@.len(),
                forall|j: int| start <= j < pos ==> buf@[j] != 0,
            decreases buf@.len() - pos,
        {
            pos = pos + 1;
        }
        if pos == buf.len() {
            proof {
                lemma_find_nul_none(buf@.skip(start as int));
            }
            return None;
        }
        proof {
            lemma_find_nul_at(buf@.skip(start as int), pos - start);
        }
        let mut seg: Vec<u8> = Vec::new();
        let mut j: usize = start;
        while j < pos
            invariant
                start <= j <= pos <= buf@.len(),
                seg@ == buf@.subrange(start as int, j as int),
            decreases pos - j,
        {
            seg.push(buf[j]);
            assert(seg@ =~= buf@.subrange(start as int, j as int + 1));
            j = j + 1;
        }
        proof {
            assert(buf@.skip(start as int).take(pos - start) =~= buf@.subrange(
                start as int,
                pos as int,
            ));
        }
        match string_from_utf8(seg) {
            Option::None => {
                return None;
            },
            Option::Some(s) => {
                proof {
                    encode_utf8_decode_utf8(s@);
                    assert(buf@.skip(start as int).skip(pos - start + 1) =~= buf@.skip(
                        pos as int + 1,
                    ));
                }
                items.push(s);
                proof {
                    assert(items.deep_view() =~= items0.push(s@));
                    let tail = parse_items(buf@.skip(pos as int + 1), (n - k0 - 1) as nat);
                    assert(parse_items(buf@.skip(start as int), (n - k0) as nat) == opt_cat(
                        seq![s@],
                        tail,
                    ));
                    if tail is Some {
                        assert(items0 + (seq![s@] + tail->Some_0) =~= items0.push(s@)
                            + tail->Some_0);
                    }
                }
                pos = pos + 1;
                k = k + 1;
            },
        }
    }
    proof {
        assert(items.deep_view() + Seq::<Seq<char>>::empty() =~= items.deep_view());
    }
    Some(items)
}

/// Appending one item to a list appends its segment to the payload.
proof fn lemma_encode_items_snoc(items: Seq<Seq<char>>, i: int)
    requires
        0 <= i < items.len(),
    ensures
        encode_items(items.take(i + 1)) == encode_items(items.take(i)) + encode_utf8(items[i])
            + seq![0u8],
    decreases i,
{
    if i == 0 {
        assert(items.take(1) =~= seq![items[0]]);
        assert(seq![items[0]].drop_first() =~= Seq::<Seq<char>>::empty());
        assert(encode_items(Seq::<Seq<char>>::empty()) =~= Seq::<u8>::empty());
        assert(encode_items(seq![items[0]]) =~= encode_utf8(items[0]) + seq![0u8]);
        assert(encode_items(items.take(1)) =~= encode_utf8(items[0]) + seq![0u8]);
        assert(items.take(0) =~= Seq::<Seq<char>>::empty());
        assert(encode_items(items.take(0)) + encode_utf8(items[0]) + seq![0u8] =~= encode_utf8(
            items[0],
        ) + seq![0u8]);
    } else {
        lemma_encode_items_snoc(items.drop_first(), i - 1);
        assert(items.take(i + 1).drop_first() =~= items.drop_first().take(i));
        assert(items.take(i).drop_first() =~= items.drop_first().take(i - 1));
        assert(items.take(i + 1)[0] == items[0]);
        assert(items.take(i)[0] == items[0]);
        assert(items.drop_first()[i - 1] == items[i]);
        assert(encode_items(items.take(i + 1)) =~= encode_items(items.take(i)) + encode_utf8(
            items[i],
        ) + seq![0u8]);
    }
}

/// A NUL at `i` with no NUL before it is the first NUL.
proof fn lemma_find_nul_at(b: Seq<u8>, i: int)
    requires
        0 <= i < b.len(),
        b[i] == 0,
        forall|j: int| 0 <= j < i ==> b[j] != 0,
    ensures
        find_nul(b) == i,
    decreases i,
{
    if i > 0 {
        lemma_find_nul_at(b.drop_first(), i - 1);
    }
}

/// A buffer without a NUL has no first NUL.
proof fn lemma_find_nul_none(b: Seq<u8>)
    requires
        forall|j: int| 0 <= j < b.len() ==> b[j] != 0,
    ensures
        find_nul(b) == -1,
    decreases b.len(),
{
    if b.len() > 0 {
        lemma_find_nul_none(b.drop_first());
    }
}

/// No byte of the UTF-8 encoding of a scalar other than NUL is zero.
proof fn lemma_encode_scalar_no_nul(scalar: u32)
    requires
        is_scalar(scalar),
        scalar != 0,
    ensures
        forall|j: int|
            0 <= j < encode_scalar(scalar).len() ==> #[trigger] encode_scalar(scalar)[j] != 0,
{
    if has_width_1_encoding(scalar) {
        assert((scalar & 0x7F) as u8 != 0) by (bit_vector)
            requires
                scalar <= 0x7F && scalar != 0,
        ;
    } else if has_width_2_encoding(scalar) {
        assert(0xC0u8 | ((scalar >> 6) & 0x1F) as u8 != 0) by (bit_vector);
        assert(0x80u8 | (scalar & 0x3F) as u8 != 0) by (bit_vector);
    } else if has_width_3_encoding(scalar) {
        assert(0xE0u8 | ((scalar >> 12) & 0x0F) as u8 != 0) by (bit_vector);
        assert(0x80u8 | ((scalar >> 6) & 0x3F) as u8 != 0) by (bit_vector);
        assert(0x80u8 | (scalar & 0x3F) as u8 != 0) by (bit_vector);
    } else {
        assert(0xF0u8 | ((scalar >> 18) & 0x7) as u8 != 0) by (bit_vector);
        assert(0x80u8 | ((scalar >> 12) & 0x3F) as u8 != 0) by (bit_vector);
        assert(0x80u8 | ((scalar >> 6) & 0x3F) as u8 != 0) by (bit_vector);
        assert(0x80u8 | (scalar & 0x3F) as u8 != 0) by (bit_vector);
    }
}

/// The UTF-8 encoding of a string without NUL characters has no zero byte.
proof fn lemma_encode_no_nul(s: Seq<char>)
    requires
        forall|i: int| 0 <= i < s.len() ==> s[i] != '\0',
    ensures
        forall|j: int| 0 <= j < encode_utf8(s).len() ==> #[trigger] encode_utf8(s)[j] != 0,
    decreases s.len(),
{
    if s.len() > 0 {
        vstd::utf8::char_is_scalar(s[0]);
        vstd::utf8::char_u32_cast(s[0], s[0] as u32);
        vstd::utf8::char_u32_cast('\0', '\0' as u32);
        assert(s[0] as u32 != 0) by {
            if s[0] as u32 == 0 {
                assert(('\0' as u32) as char == '\0');
                assert((s[0] as u32) as char == s[0]);
            }
        }
        lemma_encode_scalar_no_nul(s[0] as u32);
        assert(forall|i: int| 0 <= i < s.drop_first().len() ==> #[trigger] s.drop_first()[i]
            != '\0');
        lemma_encode_no_nul(s.drop_first());
        let e = encode_utf8(s);
        let h = encode_scalar(s[0] as u32);
        let t = encode_utf8(s.drop_first());
        assert(e == h + t);
        assert forall|j: int| 0 <= j < e.len() implies #[trigger] e[j] != 0 by {
            if j < h.len() {
                assert(e[j] == h[j]);
            } else {
                assert(e[j] == t[j - h.len()]);
            }
        }
    }
}

/// Reading back four big-endian bytes gives the count they were made from.
proof fn lemma_be32_roundtrip(n: u32)
    ensures
        be32_val((n >> 24) as u8, (n >> 16) as u8, (n >> 8) as u8, n as u8) == n,
{
    assert((((n >> 24) as u8 as u32) << 24) | (((n >> 16) as u8 as u32) << 16) | (((n >> 8) as u8
        as u32) << 8) | (n as u8 as u32) == n) by (bit_vector);
}

/// Parsing back an encoded payload yields the items that were encoded.
proof fn lemma_parse_encode_items(items: Seq<Seq<char>>)
    requires
        forall|i: int, j: int|
            0 <= i < items.len() && 0 <= j < items[i].len() ==> #[trigger] items[i][j] != '\0',
    ensures
        parse_items(encode_items(items), items.len()) == Some(items),
    decreases items.len(),
{
    if items.len() == 0 {
        assert(parse_items(encode_items(items), 0) =~= Some(Seq::<Seq<char>>::empty()));
        assert(items =~= Seq::<Seq<char>>::empty());
    } else {
        let e0 = encode_utf8(items[0]);
        let b = encode_items(items);
        assert(b == e0 + seq![0u8] + encode_items(items.drop_first()));
        assert(forall|j: int| 0 <= j < items[0].len() ==> items[0][j] != '\0');
        lemma_encode_no_nul(items[0]);
        assert(b[e0.len() as int] == 0);
        assert(forall|j: int| 0 <= j < e0.len() ==> b[j] == e0[j] && b[j] != 0);
        lemma_find_nul_at(b, e0.len() as int);
        assert(b.take(e0.len() as int) =~= e0);
        encode_utf8_valid_utf8(items[0]);
        encode_utf8_decode_utf8(items[0]);
        assert(b.skip(e0.len() as int + 1) =~= encode_items(items.drop_first()));
        assert(forall|i: int, j: int|
            0 <= i < items.drop_first().len() && 0 <= j < items.drop_first()[i].len()
                ==> #[trigger] items.drop_first()[i][j] != '\0');
        lemma_parse_encode_items(items.drop_first());
        assert(seq![items[0]] + items.drop_first() =~= items);
    }
}

/// A buffer shorter than seven bytes never decodes, and neither does one
/// whose first three bytes are not the magic.
pub proof fn lemma_decode_rejects(b: Seq<u8>)
    ensures
        b.len() < 7 ==> spec_decode(b) is None,
        b.len() >= 7 && !(b[0] == 0xFE && b[1] == 0xDC && b[2] == 0x00) ==> spec_decode(b)
            is None,
{
}

/// Decoding an encoded list yields the original items, in order, as long as
/// no item holds a NUL character and the count fits the four-byte field.
pub proof fn lemma_encode_decode(items: Seq<Seq<char>>)
    requires
        items.len() <= u32::MAX,
        forall|i: int, j: int|
            0 <= i < items.len() && 0 <= j < items[i].len() ==> #[trigger] items[i][j] != '\0',
    ensures
        spec_decode(spec_encode(items)) == Some(items),
{
    let n = items.len() as u32;
    let b = spec_encode(items);
    assert(b.len() >= 7);
    assert(b[0] == 0xFE && b[1] == 0xDC && b[2] == 0x00);
    assert(b[3] == (n >> 24) as u8 && b[4] == (n >> 16) as u8 && b[5] == (n >> 8) as u8 && b[6]
        == n as u8);
    lemma_be32_roundtrip(n);
    assert(b.skip(7) =~= encode_items(items));
    lemma_parse_encode_items(items);
}

} // verus!
