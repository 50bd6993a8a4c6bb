//! Redaction of IPv4 addresses in diagnostic text: each dotted quad keeps its
//! first three groups and shows its last one as `x`.
use crate::text::utf8_text;
use vstd::prelude::*;
use vstd::slice::slice_subrange;
use vstd::utf8::*;

verus! {

pub open spec fn is_digit(b: u8) -> bool {
    48 <= b <= 57
}

/// A byte of a run: a digit or a dot.
pub open spec fn in_run(b: u8) -> bool {
    is_digit(b) || b == 46
}

/// Where the run of digits and dots that starts at `i` ends.
pub open spec fn run_end(b: Seq<u8>, i: int) -> int
    decreases b.len() - i,
{
    if 0 <= i < b.len() && in_run(b[i]) {
        run_end(b, i + 1)
    } else {
        i
    }
}

/// The value of a string of decimal digits.
pub open spec fn digits_value(s: Seq<u8>) -> nat
    decreases s.len(),
{
    if s.len() == 0 {
        0
    } else {
        digits_value(s.drop_last()) * 10 + (s.last() - 48) as nat
    }
}

/// `c` is a dotted quad whose dots stand at `d1`, `d2` and `d3`: four
/// non-empty groups of digits, each worth at most 255.
pub open spec fn dotted_quad_at(c: Seq<u8>, d1: int, d2: int, d3: int) -> bool {
    &&& 0 < d1 && d1 + 1 < d2 && d2 + 1 < d3 && d3 + 1 < c.len()
    &&& c[d1] == 46 && c[d2] == 46 && c[d3] == 46
    &&& forall|i: int|
        0 <= i < c.len() && i != d1 && i != d2 && i != d3 ==> is_digit(#[trigger] c[i])
    &&& digits_value(c.subrange(0, d1)) <= 255
    &&& digits_value(c.subrange(d1 + 1, d2)) <= 255
    &&& digits_value(c.subrange(d2 + 1, d3)) <= 255
    &&& digits_value(c.subrange(d3 + 1, c.len() as int)) <= 255
}

pub open spec fn is_dotted_quad(c: Seq<u8>) -> bool {
    exists|d1: int, d2: int, d3: int| #[trigger] dotted_quad_at(c, d1, d2, d3)
}

/// Each byte as the character with its value.
pub open spec fn byte_chars(b: Seq<u8>) -> Seq<char> {
    b.map_values(|x: u8| x as char)
}

/// What a run of digits and dots becomes.
pub open spec fn redact_run(c: Seq<u8>) -> Seq<char> {
    if is_dotted_quad(c) {
        let (d1, d2, d3) = choose|d1: int, d2: int, d3: int| dotted_quad_at(c, d1, d2, d3);
        byte_chars(c.subrange(0, d3)) + ".x"@
    } else {
        byte_chars(c)
    }
}

pub proof fn lemma_run_end(b: Seq<u8>, i: int)
    requires
        0 <= i <= b.len(),
    ensures
        i <= run_end(b, i) <= b.len(),
        forall|k: int| i <= k < run_end(b, i) ==> in_run(#[trigger] b[k]),
        run_end(b, i) < b.len() ==> !in_run(b[run_end(b, i)]),
    decreases b.len() - i,
{
    if i < b.len() && in_run(b[i]) {
        lemma_run_end(b, i + 1);
    }
}

/// The redacted text from byte `i` on: runs that start with a digit are
/// redacted, every other byte stands as the character with its value.
pub open spec fn redact_from(b: Seq<u8>, i: int) -> Seq<char>
    decreases b.len() - i,
{
    if i < 0 || i >= b.len() {
        Seq::empty()
    } else if is_digit(b[i]) {
        let j = run_end(b, i);
        proof {
            lemma_run_end(b, i + 1);
        }
        redact_run(b.subrange(i, j)) + redact_from(b, j)
    } else {
        seq![b[i] as char] + redact_from(b, i + 1)
    }
}

proof fn lemma_encode_concat(a: Seq<char>, b: Seq<char>)
    ensures
        encode_utf8(a + b) == encode_utf8(a) + encode_utf8(b),
    decreases a.len(),
{
    if a.len() > 0 {
        lemma_encode_concat(a.drop_first(), b);
        assert((a + b).drop_first() =~= a.drop_first() + b);
        assert(encode_utf8(a + b) =~= encode_scalar(a[0] as u32) + encode_utf8(a.drop_first() + b));
        assert(encode_utf8(a) =~= encode_scalar(a[0] as u32) + encode_utf8(a.drop_first()));
    } else {
        assert(a + b =~= b);
    }
}

proof fn lemma_encode_ascii(b: Seq<u8>)
    requires
        forall|i: int| 0 <= i < b.len() ==> #[trigger] b[i] < 128,
    ensures
        encode_utf8(byte_chars(b)) == b,
    decreases b.len(),
{
    if b.len() > 0 {
        let c = byte_chars(b);
        lemma_encode_ascii(b.drop_first());
        assert(c.drop_first() =~= byte_chars(b.drop_first()));
        let x = b[0];
        assert((x as char) as u32 == x as u32);
        assert(encode_scalar((x as char) as u32) =~= seq![x]) by {
            assert((x as u32 & 0x7F) as u8 == x) by (bit_vector)
                requires
                    x < 128,
            ;
        }
        assert(encode_utf8(c) =~= b);
    } else {
        assert(byte_chars(b) =~= Seq::<char>::empty());
    }
}

/// Appends the UTF-8 encoding of the character with value `x`.
fn push_byte_char(out: &mut Vec<u8>, x: u8)
    ensures
        final(out)@ == old(out)@ + encode_utf8(seq![x as char]),
{
    proof {
        let one = seq![x as char];
        assert((x as char) as u32 == x as u32);
        assert(one.drop_first() =~= Seq::<char>::empty());
        assert(encode_utf8(one.drop_first()) =~= Seq::<u8>::empty());
        assert(encode_utf8(one) =~= encode_scalar(x as u32));
    }
    if x < 128 {
        out.push(x);
        proof {
            assert((x as u32 & 0x7F) as u8 == x) by (bit_vector)
                requires
                    x < 128,
            ;
            assert(encode_scalar(x as u32) =~= seq![x]);
        }
        assert(out@ =~= old(out)@ + encode_utf8(seq![x as char]));
    } else {
        let lead = 0xC0u8 | (x >> 6);
        let last = 0x80u8 | (x & 0x3F);
        out.push(lead);
        out.push(last);
        proof {
            assert(lead == (0xC0 | ((x as u32 >> 6) & 0x1F) as u8)) by (bit_vector)
                requires
                    lead == 0xC0u8 | (x >> 6),
            ;
            assert(last == (0x80 | (x as u32 & 0x3F) as u8)) by (bit_vector)
                requires
                    last == 0x80u8 | (x & 0x3F),
            ;
            assert(encode_scalar(x as u32) =~= seq![lead, last]);
        }
        assert(out@ =~= old(out)@ + encode_utf8(seq![x as char]));
    }
}

/// Appends bytes that are all ASCII, unchanged.
fn push_ascii(out: &mut Vec<u8>, bytes: &[u8])
    requires
        forall|i: int| 0 <= i < bytes@.len() ==> #[trigger] bytes@[i] < 128,
    ensures
        final(out)@ == old(out)@ + encode_utf8(byte_chars(bytes@)),
{
    proof {
        lemma_encode_ascii(bytes@);
    }
    let mut i: usize = 0;
    while i < bytes.len()
        invariant
            i <= bytes@.len(),
            out@ == old(out)@ + bytes@.subrange(0, i as int),
        decreases bytes@.len() - i,
    {
        out.push(bytes[i]);
        i = i + 1;
        assert(out@ =~= old(out)@ + bytes@.subrange(0, i as int));
    }
    assert(bytes@.subrange(0, bytes@.len() as int) =~= bytes@);
}


/// `value` when at most 255, else 256.
pub open spec fn capped(value: nat) -> nat {
    if value > 255 {
        256
    } else {
        value
    }
}

/// The value of the digits `c[start..end]`, capped.
fn group_value(c: &[u8], start: usize, end: usize) -> (value: u16)
    requires
        start <= end <= c@.len(),
        forall|i: int| start <= i < end ==> is_digit(#[trigger] c@[i]),
    ensures
        value as nat == capped(digits_value(c@.subrange(start as int, end as int))),
{
    let mut value: u16 = 0;
    let mut i: usize = start;
    assert(c@.subrange(start as int, start as int) =~= Seq::<u8>::empty());
    while i < end
        invariant
            start <= i <= end <= c@.len(),
            forall|k: int| start <= k < end ==> is_digit(#[trigger] c@[k]),
            value as nat == capped(digits_value(c@.subrange(start as int, i as int))),
        decreases end - i,
    {
        let digit = c[i] - 48;
        let ghost before = digits_value(c@.subrange(start as int, i as int));
        assert(c@.subrange(start as int, i + 1).drop_last() =~= c@.subrange(start as int, i as int));
        assert(digits_value(c@.subrange(start as int, i + 1)) == before * 10 + digit as nat);
        let next = value * 10 + digit as u16;
        value = if next > 255 {
            256
        } else {
            next
        };
        i = i + 1;
    }
    value
}

/// A dotted quad has no other dots than its three.
proof fn lemma_quad_dots(c: Seq<u8>, d1: int, d2: int, d3: int, j: int)
    requires
        dotted_quad_at(c, d1, d2, d3),
        0 <= j < c.len(),
        c[j] == 46,
    ensures
        j == d1 || j == d2 || j == d3,
{
    if j != d1 && j != d2 && j != d3 {
        assert(is_digit(c[j]));
    }
}

/// The dots of a dotted quad are found where they are.
proof fn lemma_quad_unique(c: Seq<u8>, a1: int, a2: int, a3: int, b1: int, b2: int, b3: int)
    requires
        dotted_quad_at(c, a1, a2, a3),
        dotted_quad_at(c, b1, b2, b3),
    ensures
        a1 == b1 && a2 == b2 && a3 == b3,
{
    lemma_quad_dots(c, b1, b2, b3, a1);
    lemma_quad_dots(c, b1, b2, b3, a2);
    lemma_quad_dots(c, b1, b2, b3, a3);
    lemma_quad_dots(c, a1, a2, a3, b1);
    lemma_quad_dots(c, a1, a2, a3, b2);
    lemma_quad_dots(c, a1, a2, a3, b3);
}

/// Where the dots of `c` stand when `c` is a dotted quad.
fn dotted_quad_dots(c: &[u8]) -> (found: Option<(usize, usize, usize)>)
    requires
        forall|i: int| 0 <= i < c@.len() ==> in_run(#[trigger] c@[i]),
    ensures
        found matches Some((d1, d2, d3)) ==> dotted_quad_at(c@, d1 as int, d2 as int, d3 as int),
        found is None ==> !is_dotted_quad(c@),
{
    let mut dots: Vec<usize> = Vec::new();
    let mut i: usize = 0;
    while i < c.len()
        invariant
            i <= c@.len(),
            dots@.len() <= 3,
            forall|k: int| 0 <= k < dots@.len() ==> dots@[k] < i && c@[dots@[k] as int] == 46,
            forall|k: int, l: int| 0 <= k < l < dots@.len() ==> dots@[k] < dots@[l],
            forall|j: int| 0 <= j < i && c@[j] == 46 ==> dots@.contains(j as usize),
        decreases c@.len() - i,
    {
        if c[i] == 46 {
            if dots.len() == 3 {
                proof {
                    if is_dotted_quad(c@) {
                        let (e1, e2, e3) = choose|e1: int, e2: int, e3: int| dotted_quad_at(c@, e1, e2, e3);
                        lemma_quad_dots(c@, e1, e2, e3, dots@[0] as int);
                        lemma_quad_dots(c@, e1, e2, e3, dots@[1] as int);
                        lemma_quad_dots(c@, e1, e2, e3, dots@[2] as int);
                        lemma_quad_dots(c@, e1, e2, e3, i as int);
                    }
                }
                return None;
            }
            let ghost before = dots@;
            dots.push(i);
            proof {
                assert forall|j: int| 0 <= j < i && c@[j] == 46 implies dots@.contains(j as usize) by {
                    let k = choose|k: int| 0 <= k < before.len() && before[k] == j as usize;
                    assert(dots@[k] == j as usize);
                }
                assert(dots@[dots@.len() - 1] == i);
            }
        }
        i = i + 1;
    }
    proof {
        if is_dotted_quad(c@) {
            let (e1, e2, e3) = choose|e1: int, e2: int, e3: int| dotted_quad_at(c@, e1, e2, e3);
            assert(dots@.contains(e1 as usize));
            assert(dots@.contains(e2 as usize));
            assert(dots@.contains(e3 as usize));
            assert(dots@.len() == 3);
            let k1 = choose|k: int| 0 <= k < dots@.len() && dots@[k] == e1 as usize;
            let k2 = choose|k: int| 0 <= k < dots@.len() && dots@[k] == e2 as usize;
            let k3 = choose|k: int| 0 <= k < dots@.len() && dots@[k] == e3 as usize;
            assert(k1 == 0 && k2 == 1 && k3 == 2);
        }
    }
    if dots.len() != 3 {
        return None;
    }
    let d1 = dots[0];
    let d2 = dots[1];
    let d3 = dots[2];
    if !(0 < d1 && d1 + 1 < d2 && d2 + 1 < d3 && d3 + 1 < c.len()) {
        return None;
    }
    proof {
        assert forall|j: int| 0 <= j < c@.len() && j != d1 && j != d2 && j != d3 implies is_digit(
            #[trigger] c@[j],
        ) by {
            if c@[j] == 46 {
                assert(dots@.contains(j as usize));
            }
        }
    }
    if group_value(c, 0, d1) > 255 || group_value(c, d1 + 1, d2) > 255 || group_value(
        c,
        d2 + 1,
        d3,
    ) > 255 || group_value(c, d3 + 1, c.len()) > 255 {
        return None;
    }
    Some((d1, d2, d3))
}


/// The redacted form of diagnostic text: each run of digits and dots that
/// starts with a digit and is a dotted quad (four groups of digits, each at
/// most 255) keeps its first three groups and shows `x` for the last. Every
/// other byte of the text's UTF-8 stands as the character with that value.
pub open spec fn spec_redact(text: Seq<char>) -> Seq<char> {
    redact_from(encode_utf8(text), 0)
}

pub fn redact_ipv4_addresses(source: &str) -> (redacted: String)
    ensures
        redacted@ == spec_redact(source@),
{
    let bytes = source.as_bytes();
    let ghost b = bytes@;
    let mut out: Vec<u8> = Vec::new();
    let ghost mut done: Seq<char> = Seq::empty();
    let mut index: usize = 0;
    proof {
        assert(done + redact_from(b, 0) =~= redact_from(b, 0));
    }
    while index < bytes.len()
        invariant
            b == bytes@,
            index <= b.len(),
            out@ == encode_utf8(done),
            done + redact_from(b, index as int) == redact_from(b, 0),
        decreases b.len() - index,
    {
        let first = bytes[index];
        if 48 <= first && first <= 57 {
            let start = index;
            proof {
                lemma_run_end(b, start as int);
            }
            while index < bytes.len() && (48 <= bytes[index] && bytes[index] <= 57 || bytes[index] == 46)
                invariant
                    b == bytes@,
                    start <= index <= b.len(),
                    run_end(b, start as int) == run_end(b, index as int),
                    forall|k: int| start <= k < index ==> in_run(#[trigger] b[k]),
                decreases b.len() - index,
            {
                index = index + 1;
            }
            let candidate = slice_subrange(bytes, start, index);
            let ghost piece = redact_run(candidate@);
            assert forall|k: int| 0 <= k < candidate@.len() implies in_run(#[trigger] candidate@[k]) by {
                assert(candidate@[k] == b[start + k]);
            }
            match dotted_quad_dots(candidate) {
                Some((d1, d2, d3)) => {
                    proof {
                        let (e1, e2, e3) = choose|e1: int, e2: int, e3: int|
                            dotted_quad_at(candidate@, e1, e2, e3);
                        lemma_quad_unique(candidate@, d1 as int, d2 as int, d3 as int, e1, e2, e3);
                    }
                    let kept = slice_subrange(candidate, 0, d3);
                    push_ascii(&mut out, kept);
                    let hidden = ".x".as_bytes();
                    proof {
                        reveal_strlit(".x");
                        is_ascii_chars_encode_utf8(".x"@);
                        assert(hidden@ =~= seq![46u8, 120u8]);
                        assert(byte_chars(hidden@) =~= ".x"@);
                    }
                    push_ascii(&mut out, hidden);
                    proof {
                        lemma_encode_concat(done, byte_chars(kept@));
                        lemma_encode_concat(done + byte_chars(kept@), byte_chars(hidden@));
                        assert(piece =~= byte_chars(kept@) + byte_chars(hidden@));
                        assert(done + piece =~= done + byte_chars(kept@) + byte_chars(hidden@));
                    }
                },
                None => {
                    push_ascii(&mut out, candidate);
                    proof {
                        lemma_encode_concat(done, byte_chars(candidate@));
                    }
                },
            }
            proof {
                assert(redact_from(b, start as int) == piece + redact_from(b, index as int));
                assert(done + piece + redact_from(b, index as int) =~= done + (piece + redact_from(b, index as int)));
                done = done + piece;
            }
        } else {
            push_byte_char(&mut out, first);
            proof {
                lemma_encode_concat(done, seq![first as char]);
                assert(redact_from(b, index as int) == seq![first as char] + redact_from(b, index + 1));
                assert(done + seq![first as char] + redact_from(b, index + 1) =~= done + (seq![first as char] + redact_from(b, index + 1)));
                done = done + seq![first as char];
            }
            index = index + 1;
        }
    }
    proof {
        assert(done + redact_from(b, index as int) =~= done);
        encode_utf8_valid_utf8(done);
        encode_utf8_decode_utf8(done);
    }
    utf8_text(out.as_slice()).unwrap()
}


proof fn lemma_no_digits(b: Seq<u8>, i: int)
    requires
        0 <= i <= b.len(),
        forall|k: int| 0 <= k < b.len() ==> !is_digit(#[trigger] b[k]),
    ensures
        redact_from(b, i) == byte_chars(b.subrange(i, b.len() as int)),
    decreases b.len() - i,
{
    if i < b.len() {
        lemma_no_digits(b, i + 1);
        assert(byte_chars(b.subrange(i, b.len() as int)) =~= seq![b[i] as char] + byte_chars(
            b.subrange(i + 1, b.len() as int),
        ));
    } else {
        assert(byte_chars(b.subrange(i, b.len() as int)) =~= Seq::<char>::empty());
    }
}

/// ASCII text without digits holds no address, and comes out unchanged.
pub proof fn law_text_without_digits_is_unchanged(text: Seq<char>)
    requires
        is_ascii_chars(text),
        forall|i: int| 0 <= i < text.len() ==> !('0' <= #[trigger] text[i] <= '9'),
    ensures
        spec_redact(text) == text,
{
    is_ascii_chars_encode_utf8(text);
    let b = encode_utf8(text);
    assert forall|k: int| 0 <= k < b.len() implies !is_digit(#[trigger] b[k]) by {
        let c = text[k];
        assert(c as u8 == b[k]);
        assert(!('0' <= c <= '9'));
        assert('\0' <= c <= '\u{7f}');
    }
    lemma_no_digits(b, 0);
    assert(b.subrange(0, b.len() as int) =~= b);
    assert forall|k: int| 0 <= k < text.len() implies byte_chars(b)[k] == text[k] by {
        let c = text[k];
        assert(c as u8 == b[k]);
        assert('\0' <= c <= '\u{7f}');
    }
    assert(byte_chars(b) =~= text);
}

} // verus!
