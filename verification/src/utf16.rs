//! UTF-16 text: what Windows hands over and takes back.
use vstd::prelude::*;

verus! {

/// `char::from_u32` gives the character with that scalar value, and nothing
/// for a surrogate or a number above `0x10FFFF`.
pub assume_specification[ char::from_u32 ](i: u32) -> (r: Option<char>)
    ensures
        match r {
            Some(c) => c as u32 == i,
            None => 0xD800 <= i <= 0xDFFF || i > 0x10FFFF,
        },
;

/// The character that stands for a code unit that decodes to nothing.
pub open spec fn replacement() -> char {
    '\u{fffd}'
}

/// A first half of a surrogate pair.
pub open spec fn is_high(u: u16) -> bool {
    0xD800 <= u <= 0xDBFF
}

/// A second half of a surrogate pair.
pub open spec fn is_low(u: u16) -> bool {
    0xDC00 <= u <= 0xDFFF
}

/// The character that a surrogate pair stands for.
pub open spec fn pair_char(high: u16, low: u16) -> char {
    (0x10000 + (high - 0xD800) * 1024 + (low - 0xDC00)) as u32 as char
}

/// The code units of one character.
pub open spec fn char_units(c: char) -> Seq<u16> {
    if (c as u32) < 0x10000 {
        seq![c as u16]
    } else {
        let v = c as u32 - 0x10000;
        seq![(0xD800 + v / 1024) as u16, (0xDC00 + v % 1024) as u16]
    }
}

/// The code units of a text.
pub open spec fn encode_utf16(s: Seq<char>) -> Seq<u16>
    decreases s.len(),
{
    if s.len() == 0 {
        Seq::empty()
    } else {
        char_units(s[0]) + encode_utf16(s.drop_first())
    }
}

/// The text of a sequence of code units; every unit that belongs to no
/// character counts as one replacement character.
pub open spec fn decode_utf16_lossy(u: Seq<u16>) -> Seq<char>
    decreases u.len(),
{
    if u.len() == 0 {
        Seq::empty()
    } else if is_high(u[0]) && u.len() >= 2 && is_low(u[1]) {
        seq![pair_char(u[0], u[1])] + decode_utf16_lossy(u.skip(2))
    } else if is_high(u[0]) || is_low(u[0]) {
        seq![replacement()] + decode_utf16_lossy(u.skip(1))
    } else {
        seq![u[0] as char] + decode_utf16_lossy(u.skip(1))
    }
}

/// Decoding the code units of a character and of what follows gives that
/// character and then what follows.
proof fn lemma_decode_one(c: char, rest: Seq<u16>)
    ensures
        decode_utf16_lossy(char_units(c) + rest) == seq![c] + decode_utf16_lossy(rest),
{
    let all = char_units(c) + rest;
    if (c as u32) < 0x10000 {
        assert(all[0] == c as u16);
        assert(all.skip(1) =~= rest);
    } else {
        let v = c as u32 - 0x10000;
        assert(v < 0x100000);
        assert(all[0] == 0xD800 + v / 1024);
        assert(all[1] == 0xDC00 + v % 1024);
        assert(is_high(all[0]) && is_low(all[1]));
        assert(pair_char(all[0], all[1]) == c);
        assert(all.skip(2) =~= rest);
    }
}

/// Decoding what a text was encoded to gives that text back.
pub proof fn encoding_is_read_back(s: Seq<char>)
    ensures
        decode_utf16_lossy(encode_utf16(s)) == s,
    decreases s.len(),
{
    if s.len() > 0 {
        encoding_is_read_back(s.drop_first());
        lemma_decode_one(s[0], encode_utf16(s.drop_first()));
        assert(seq![s[0]] + s.drop_first() =~= s);
    }
}

/// Encoding one text after another is encoding the two in turn.
pub proof fn encoding_is_by_parts(a: Seq<char>, b: Seq<char>)
    ensures
        encode_utf16(a + b) == encode_utf16(a) + encode_utf16(b),
    decreases a.len(),
{
    if a.len() == 0 {
        assert(a + b =~= b);
        assert(encode_utf16(a) + encode_utf16(b) =~= encode_utf16(b));
    } else {
        encoding_is_by_parts(a.drop_first(), b);
        assert((a + b).drop_first() =~= a.drop_first() + b);
        assert(encode_utf16(a + b) =~= encode_utf16(a) + encode_utf16(b));
    }
}

/// A text of one character is encoded to the code units of that character.
proof fn lemma_encode_one(c: char)
    ensures
        encode_utf16(seq![c]) == char_units(c),
{
    assert(seq![c].drop_first() =~= Seq::empty());
    assert(encode_utf16(seq![c].drop_first()) =~= Seq::empty());
    assert(encode_utf16(seq![c]) =~= char_units(c));
}

/// Appends the code units of a character.
fn push_units(out: &mut Vec<u16>, c: char)
    ensures
        final(out)@ == old(out)@ + char_units(c),
{
    let v: u32 = c as u32;
    if v < 0x10000 {
        out.push(v as u16);
    } else {
        let w: u32 = v - 0x10000;
        out.push((0xD800 + w / 1024) as u16);
        out.push((0xDC00 + w % 1024) as u16);
    }
    proof {
        assert(out@ =~= old(out)@ + char_units(c));
    }
}

/// The character with a scalar value.
fn scalar(v: u32) -> (r: char)
    requires
        v < 0xD800 || 0xDFFF < v <= 0x10FFFF,
    ensures
        r == v as char,
{
    match char::from_u32(v) {
        Some(c) => {
            proof {
                vstd::utf8::char_u32_cast(c, v);
            }
            c
        },
        None => '\u{fffd}',
    }
}

/// A text as the system takes it: its code units and a terminating zero.
pub open spec fn terminated(s: Seq<char>) -> Seq<u16> {
    encode_utf16(s).push(0)
}

/// The code units of a text, and a terminating zero.
pub fn wide(s: &str) -> (r: Vec<u16>)
    ensures
        r@ == encode_utf16(s@).push(0),
        r@ == terminated(s@),
{
    let mut out: Vec<u16> = Vec::new();
    for c in it: s.chars()
        invariant
            out@ == encode_utf16(s@.take(it.index())),
            it.seq() == s@,
    {
        proof {
            let before = s@.take(it.index());
            assert(s@.take(it.index() + 1) =~= before + seq![c]);
            encoding_is_by_parts(before, seq![c]);
            lemma_encode_one(c);
        }
        push_units(&mut out, c);
    }
    proof {
        assert(s@.take(s@.len() as int) =~= s@);
    }
    out.push(0);
    out
}

/// The text of a slice of code units, with a replacement character for every
/// unit that belongs to no character.
pub fn text_from_utf16_lossy(units: &[u16]) -> (r: String)
    ensures
        r@ == decode_utf16_lossy(units@),
{
    let mut out: String = String::new();
    let n: usize = units.len();
    let mut i: usize = 0;
    proof {
        assert(units@.skip(0) =~= units@);
    }
    while i < n
        invariant
            n == units@.len(),
            i <= n,
            out@ + decode_utf16_lossy(units@.skip(i as int)) == decode_utf16_lossy(units@),
        decreases n - i,
    {
        let ghost rest = units@.skip(i as int);
        let ghost before = out@;
        let u: u16 = units[i];
        proof {
            assert(rest[0] == u);
            assert(rest.skip(1) =~= units@.skip(i + 1));
            assert(n - i >= 2 ==> rest[1] == units@[i + 1] && rest.skip(2) =~= units@.skip(i + 2));
        }
        if 0xD800 <= u && u <= 0xDBFF && n - i >= 2 && 0xDC00 <= units[i + 1] && units[i + 1]
            <= 0xDFFF {
            let low: u16 = units[i + 1];
            let v: u32 = 0x10000 + ((u - 0xD800) as u32) * 1024 + ((low - 0xDC00) as u32);
            out.push(scalar(v));
            i = i + 2;
            proof {
                assert(out@ =~= before.push(pair_char(u, low)));
                assert(before + (seq![pair_char(u, low)] + decode_utf16_lossy(rest.skip(2)))
                    =~= out@ + decode_utf16_lossy(rest.skip(2)));
            }
        } else {
            if 0xD800 <= u && u <= 0xDFFF {
                out.push('\u{fffd}');
            } else {
                out.push(scalar(u as u32));
            }
            i = i + 1;
            proof {
                let c = out@.last();
                assert(before + (seq![c] + decode_utf16_lossy(rest.skip(1))) =~= out@
                    + decode_utf16_lossy(rest.skip(1)));
            }
        }
    }
    proof {
        assert(units@.skip(n as int) =~= Seq::empty());
        assert(out@ + Seq::<char>::empty() =~= out@);
    }
    out
}

/// Where no first half stands before a second one, every code unit is one
/// character: itself, or the replacement character where it is half of a pair.
pub proof fn units_without_pairs_are_characters(u: Seq<u16>)
    requires
        forall|i: int|
            0 <= i < u.len() - 1 && 0xD800 <= #[trigger] u[i] <= 0xDBFF ==> !(0xDC00 <= u[i + 1]
                <= 0xDFFF),
    ensures
        decode_utf16_lossy(u).len() == u.len(),
        forall|i: int|
            0 <= i < u.len() ==> #[trigger] decode_utf16_lossy(u)[i] as int == if 0xD800 <= u[i]
                <= 0xDFFF {
                0xFFFD
            } else {
                u[i] as int
            },
    decreases u.len(),
{
    if u.len() > 0 {
        let rest = u.skip(1);
        assert forall|i: int|
            0 <= i < rest.len() - 1 && 0xD800 <= #[trigger] rest[i] <= 0xDBFF implies !(0xDC00
            <= rest[i + 1] <= 0xDFFF) by {
            assert(rest[i] == u[i + 1]);
            assert(rest[i + 1] == u[i + 2]);
        }
        units_without_pairs_are_characters(rest);
        if u.len() >= 2 {
            let first = 0int;
            assert(u[first] == u[0] && u[first + 1] == u[1]);
        }
        let all = decode_utf16_lossy(u);
        assert(all.len() == u.len());
        assert forall|i: int| 0 <= i < u.len() implies #[trigger] all[i] as int == if 0xD800
            <= u[i] <= 0xDFFF {
            0xFFFD
        } else {
            u[i] as int
        } by {
            if i > 0 {
                assert(all[i] == decode_utf16_lossy(rest)[i - 1]);
                assert(rest[i - 1] == u[i]);
            }
        }
    }
}

/// A first half and a second half stand for one character: its number is made of
/// ten bits from each, above the first plane.
pub proof fn a_pair_is_one_character(high: u16, low: u16, rest: Seq<u16>)
    requires
        0xD800 <= high <= 0xDBFF,
        0xDC00 <= low <= 0xDFFF,
    ensures
        decode_utf16_lossy(seq![high, low] + rest).len() == 1 + decode_utf16_lossy(rest).len(),
        decode_utf16_lossy(seq![high, low] + rest)[0] as int == 0x10000 + 1024 * (high - 0xD800) + (
        low - 0xDC00),
        decode_utf16_lossy(seq![high, low] + rest).skip(1) == decode_utf16_lossy(rest),
{
    let all = seq![high, low] + rest;
    assert(all.skip(2) =~= rest);
    assert(decode_utf16_lossy(all).skip(1) =~= decode_utf16_lossy(rest));
}

/// A character below the second plane is one code unit, its own number; every
/// other is a first half and a second half.
pub proof fn a_character_is_one_unit_or_a_pair(c: char)
    ensures
        (c as int) < 0x10000 ==> char_units(c).len() == 1 && char_units(c)[0] as int == c as int,
        (c as int) >= 0x10000 ==> char_units(c).len() == 2 && 0xD800 <= char_units(c)[0] <= 0xDBFF
            && 0xDC00 <= char_units(c)[1] <= 0xDFFF && c as int == 0x10000 + 1024 * (char_units(
            c,
        )[0] - 0xD800) + (char_units(c)[1] - 0xDC00),
{
}

/// A terminated text ends in a zero, is read back from what stands before it, and,
/// where the text itself holds no NUL, has no zero but that one.
pub proof fn a_terminated_text_is_read_up_to_its_zero(s: Seq<char>)
    ensures
        terminated(s).len() > 0,
        terminated(s).last() == 0,
        decode_utf16_lossy(terminated(s).drop_last()) == s,
        !s.contains('\0') ==> forall|i: int|
            0 <= i < terminated(s).len() - 1 ==> #[trigger] terminated(s)[i] != 0,
{
    encoding_is_read_back(s);
    assert(terminated(s).drop_last() =~= encode_utf16(s));
    if !s.contains('\0') {
        lemma_no_zero(s);
    }
}

proof fn lemma_no_zero(s: Seq<char>)
    requires
        !s.contains('\0'),
    ensures
        forall|i: int| 0 <= i < encode_utf16(s).len() ==> #[trigger] encode_utf16(s)[i] != 0,
    decreases s.len(),
{
    if s.len() > 0 {
        let rest = s.drop_first();
        assert(s[0] != '\0');
        assert(!rest.contains('\0')) by {
            if rest.contains('\0') {
                let k = rest.index_of('\0');
                assert(s[k + 1] == '\0');
            }
        }
        lemma_no_zero(rest);
        a_character_is_one_unit_or_a_pair(s[0]);
        let head = char_units(s[0]);
        assert forall|i: int| 0 <= i < encode_utf16(s).len() implies #[trigger] encode_utf16(s)[i]
            != 0 by {
            if i >= head.len() {
                assert(encode_utf16(s)[i] == encode_utf16(rest)[i - head.len()]);
            }
        }
    }
}

} // verus!
