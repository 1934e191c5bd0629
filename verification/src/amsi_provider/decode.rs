//! Decoding the content that a scripting host hands over.
//!
//! AMSI does not say how the content is encoded. PowerShell submits its
//! script as UTF-16LE, most other hosts as UTF-8. Taken as UTF-8, a UTF-16LE
//! script keeps a NUL after every ASCII letter and matches no signature, so
//! the encoding is inferred from the bytes.
use vstd::prelude::*;
use vstd::utf8::{decode_utf8, is_ascii_chars, valid_utf8};

use crate::utf16::{
    decode_utf16_lossy, encode_utf16, encoding_is_read_back, text_from_utf16_lossy,
};

verus! {

/// How many code units the detection looks at.
pub const SAMPLE_UNITS: usize = 512;

/// What `String::from_utf8_lossy` makes of a byte sequence.
pub uninterp spec fn utf8_lossy(bytes: Seq<u8>) -> Seq<char>;

/// `String::from_utf8_lossy`, as an owned string. Its text depends on the
/// bytes alone, and bytes that are valid UTF-8 are the text they encode.
#[verifier::external_body]
fn text_from_utf8_lossy(bytes: &[u8]) -> (r: String)
    ensures
        r@ == utf8_lossy(bytes@),
        valid_utf8(bytes@) ==> r@ == decode_utf8(bytes@),
{
    String::from_utf8_lossy(bytes).into_owned()
}

/// How many of the first `n` code units have a NUL high byte.
pub open spec fn nul_high_bytes(b: Seq<u8>, n: nat) -> nat
    decreases n,
{
    if n == 0 {
        0
    } else {
        nul_high_bytes(b, (n - 1) as nat) + if b[2 * (n - 1) + 1] == 0 {
            1nat
        } else {
            0nat
        }
    }
}

/// The number of code units the detection looks at.
pub open spec fn sampled(b: Seq<u8>) -> nat {
    if b.len() / 2 < SAMPLE_UNITS {
        b.len() / 2
    } else {
        SAMPLE_UNITS as nat
    }
}

/// A buffer taken for UTF-16LE: whole code units, and either a byte order
/// mark or a NUL high byte in at least three of five sampled units.
pub open spec fn is_utf16le(b: Seq<u8>) -> bool {
    &&& b.len() >= 2
    &&& b.len() % 2 == 0
    &&& (b[0] == 0xFF && b[1] == 0xFE) || nul_high_bytes(b, sampled(b)) * 100 >= sampled(b) * 60
}

/// The code units of a UTF-16LE buffer.
pub open spec fn le_units(b: Seq<u8>) -> Seq<u16> {
    Seq::new(b.len() / 2, |i: int| (b[2 * i] + 256 * b[2 * i + 1]) as u16)
}

/// The UTF-16LE bytes of a sequence of code units.
pub open spec fn le_bytes(u: Seq<u16>) -> Seq<u8> {
    Seq::new(
        2 * u.len(),
        |i: int| if i % 2 == 0 {
            (u[i / 2] % 256) as u8
        } else {
            (u[i / 2] / 256) as u8
        },
    )
}

/// A text without a leading byte order mark.
pub open spec fn without_bom(s: Seq<char>) -> Seq<char> {
    if s.len() > 0 && s[0] == '\u{feff}' {
        s.drop_first()
    } else {
        s
    }
}

/// The text of an AMSI content buffer.
pub open spec fn content_text(b: Seq<u8>) -> Seq<char> {
    if is_utf16le(b) {
        without_bom(decode_utf16_lossy(le_units(b)))
    } else {
        utf8_lossy(b)
    }
}

/// Whether a buffer looks like UTF-16LE text.
pub fn looks_like_utf16le(b: &[u8]) -> (r: bool)
    ensures
        r == is_utf16le(b@),
{
    if b.len() < 2 || b.len() % 2 != 0 {
        return false;
    }
    if b[0] == 0xFF && b[1] == 0xFE {
        return true;
    }
    let units: usize = b.len() / 2;
    let sample: usize = if units < SAMPLE_UNITS {
        units
    } else {
        SAMPLE_UNITS
    };
    let mut odd_nul: usize = 0;
    let mut i: usize = 0;
    while i < sample
        invariant
            sample <= SAMPLE_UNITS,
            2 * sample <= b@.len(),
            i <= sample,
            odd_nul <= i,
            odd_nul == nul_high_bytes(b@, i as nat),
        decreases sample - i,
    {
        if b[i * 2 + 1] == 0 {
            odd_nul = odd_nul + 1;
        }
        i = i + 1;
    }
    odd_nul * 100 >= sample * 60
}

/// The code units of a UTF-16LE buffer; an odd last byte is left out.
pub fn units_of(content: &[u8]) -> (r: Vec<u16>)
    ensures
        r@ == le_units(content@),
{
    let total: usize = content.len();
    let n: usize = total / 2;
    let mut units: Vec<u16> = Vec::new();
    let mut i: usize = 0;
    while i < n
        invariant
            total == content@.len(),
            n == total / 2,
            i <= n,
            units@ == le_units(content@).take(i as int),
        decreases n - i,
    {
        let unit: u16 = content[2 * i] as u16 + 256 * (content[2 * i + 1] as u16);
        units.push(unit);
        proof {
            assert(units@ =~= le_units(content@).take(i + 1));
        }
        i = i + 1;
    }
    proof {
        assert(units@ =~= le_units(content@));
    }
    units
}

/// Decodes an AMSI content buffer to text, as UTF-16LE where it looks like
/// it and as UTF-8 otherwise.
pub fn decode_amsi_content(content: &[u8]) -> (r: String)
    ensures
        r@ == content_text(content@),
        !is_utf16le(content@) && valid_utf8(content@) ==> r@ == decode_utf8(content@),
{
    if !looks_like_utf16le(content) {
        return text_from_utf8_lossy(content);
    }
    let units: Vec<u16> = units_of(content);
    let s: String = text_from_utf16_lossy(units.as_slice());
    let count: usize = s.as_str().unicode_len();
    if count > 0 && s.as_str().get_char(0) == '\u{feff}' {
        let rest: String = s.as_str().substring_char(1, count).to_owned();
        proof {
            assert(s@.subrange(1, count as int) =~= s@.drop_first());
        }
        return rest;
    }
    s
}

/// The code units of the bytes of some code units are those code units.
proof fn lemma_units_of_bytes(u: Seq<u16>)
    ensures
        le_units(le_bytes(u)) == u,
{
    let b = le_bytes(u);
    assert(b.len() / 2 == u.len());
    assert forall|i: int| 0 <= i < u.len() implies le_units(b)[i] == u[i] by {
        assert(b[2 * i] == u[i] % 256);
        assert(b[2 * i + 1] == u[i] / 256);
    }
    assert(le_units(b) =~= u);
}

/// Where no high byte is NUL, none is counted.
proof fn lemma_no_nuls(b: Seq<u8>, n: nat)
    requires
        2 * n <= b.len(),
        forall|i: int| 0 <= i < b.len() ==> b[i] != 0,
    ensures
        nul_high_bytes(b, n) == 0,
    decreases n,
{
    if n > 0 {
        lemma_no_nuls(b, (n - 1) as nat);
    }
}

/// Where every high byte is NUL, all are counted.
proof fn lemma_all_nuls(b: Seq<u8>, n: nat)
    requires
        2 * n <= b.len(),
        forall|i: int| 0 <= i < n ==> #[trigger] b[2 * i + 1] == 0,
    ensures
        nul_high_bytes(b, n) == n,
    decreases n,
{
    if n > 0 {
        lemma_all_nuls(b, (n - 1) as nat);
        assert(b[2 * (n - 1) + 1] == 0);
    }
}

/// ASCII text has one code unit per character, and it is that character.
proof fn lemma_ascii_units(s: Seq<char>)
    requires
        is_ascii_chars(s),
    ensures
        encode_utf16(s).len() == s.len(),
        forall|i: int| 0 <= i < s.len() ==> #[trigger] encode_utf16(s)[i] < 128,
    decreases s.len(),
{
    if s.len() > 0 {
        let rest = s.drop_first();
        assert forall|i: int| 0 <= i < rest.len() implies '\0' <= #[trigger] rest[i]
            <= '\u{7f}' by {
            assert(rest[i] == s[i + 1]);
        }
        lemma_ascii_units(rest);
        assert('\0' <= s[0] <= '\u{7f}');
        assert(encode_utf16(s) =~= seq![s[0] as u16] + encode_utf16(rest));
    }
}

/// UTF-16LE text that is recognised as such is read back exactly, unless it
/// begins with a byte order mark.
pub proof fn recognised_utf16_is_read_back(s: Seq<char>)
    requires
        is_utf16le(le_bytes(encode_utf16(s))),
        s.len() > 0 ==> s[0] != '\u{feff}',
    ensures
        content_text(le_bytes(encode_utf16(s))) == s,
{
    lemma_units_of_bytes(encode_utf16(s));
    encoding_is_read_back(s);
}

/// ASCII text in UTF-16LE is always recognised, and read back exactly.
pub proof fn ascii_utf16_is_read_back(s: Seq<char>)
    requires
        is_ascii_chars(s),
        s.len() > 0,
    ensures
        is_utf16le(le_bytes(encode_utf16(s))),
        content_text(le_bytes(encode_utf16(s))) == s,
{
    let u = encode_utf16(s);
    let b = le_bytes(u);
    lemma_ascii_units(s);
    assert forall|i: int| 0 <= i < u.len() implies #[trigger] b[2 * i + 1] == 0 by {
        assert(b[2 * i + 1] == u[i] / 256);
    }
    lemma_all_nuls(b, sampled(b));
    assert('\0' <= s[0] <= '\u{7f}');
    recognised_utf16_is_read_back(s);
}

/// UTF-16LE text behind a byte order mark is always recognised, and read back
/// exactly, without the mark.
pub proof fn marked_utf16_is_read_back(s: Seq<char>)
    ensures
        is_utf16le(seq![0xFFu8, 0xFEu8] + le_bytes(encode_utf16(s))),
        content_text(seq![0xFFu8, 0xFEu8] + le_bytes(encode_utf16(s))) == s,
{
    let bom = '\u{feff}';
    let marked = seq![bom] + s;
    let b = seq![0xFFu8, 0xFEu8] + le_bytes(encode_utf16(s));
    assert(marked.drop_first() =~= s);
    assert(encode_utf16(marked) == seq![0xFEFFu16] + encode_utf16(s));
    assert(b =~= le_bytes(encode_utf16(marked)));
    lemma_units_of_bytes(encode_utf16(marked));
    encoding_is_read_back(marked);
}

/// UTF-8 text without NUL bytes is never taken for UTF-16LE.
pub proof fn utf8_is_not_taken_for_utf16(b: Seq<u8>)
    requires
        valid_utf8(b),
        forall|i: int| 0 <= i < b.len() ==> b[i] != 0,
    ensures
        !is_utf16le(b),
{
    lemma_no_nuls(b, sampled(b));
    if b.len() >= 2 {
        let first = b[0];
        assert(vstd::utf8::valid_first_scalar(b));
        vstd::utf8::utf8_byte_ranges_bitwise(first);
        assert(first != 0xFF);
    }
}

/// The count of NUL high bytes is the number of places where one stands.
proof fn lemma_nuls_are_places(b: Seq<u8>, n: nat)
    ensures
        nul_places(b, n as int).finite(),
        nul_places(b, n as int).len() == nul_high_bytes(b, n),
    decreases n,
{
    if n == 0 {
        assert(nul_places(b, 0) =~= Set::empty());
    } else {
        let before = nul_places(b, n - 1);
        lemma_nuls_are_places(b, (n - 1) as nat);
        if b[2 * (n - 1) + 1] == 0 {
            assert(nul_places(b, n as int) =~= before.insert(n - 1));
        } else {
            assert(nul_places(b, n as int) =~= before);
        }
    }
}

/// The first `n` code units whose high byte is NUL, by their places.
pub open spec fn nul_places(b: Seq<u8>, n: int) -> Set<int> {
    Set::new(|i: int| 0 <= i < n && b[2 * i + 1] == 0)
}

/// The first `n` code units that are below 256, by their places.
pub open spec fn low_places(u: Seq<u16>, n: int) -> Set<int> {
    Set::new(|i: int| 0 <= i < n && u[i] < 256)
}

/// A buffer is taken for UTF-16LE exactly when it is a whole number of code units,
/// at least one, and begins with the bytes FF FE or has a NUL high byte in at
/// least three of five of its first 512 code units, wherever those stand.
pub proof fn utf16_is_known_by_its_nul_bytes(b: Seq<u8>)
    ensures
        ({
            let n: int = if b.len() < 1024 {
                b.len() as int / 2
            } else {
                512
            };
            is_utf16le(b) <==> b.len() >= 2 && b.len() % 2 == 0 && ((b[0] == 255 && b[1] == 254)
                || 5 * nul_places(b, n).len() >= 3 * n)
        }),
{
    lemma_nuls_are_places(b, sampled(b));
}

/// A text is recognised in UTF-16LE and read back exactly, wherever its code units
/// below 256 stand, as long as they are at least three of five of the first 512
/// and it does not begin with a byte order mark.
pub proof fn mostly_latin_utf16_is_read_back(s: Seq<char>)
    requires
        s.len() > 0,
        s[0] != '\u{feff}',
        ({
            let u = encode_utf16(s);
            let n: int = if u.len() < 512 {
                u.len() as int
            } else {
                512
            };
            5 * low_places(u, n).len() >= 3 * n
        }),
    ensures
        is_utf16le(le_bytes(encode_utf16(s))),
        content_text(le_bytes(encode_utf16(s))) == s,
{
    let u = encode_utf16(s);
    let b = le_bytes(u);
    let n: int = if u.len() < 512 {
        u.len() as int
    } else {
        512
    };
    assert(u.len() >= 1) by {
        assert(u == crate::utf16::char_units(s[0]) + encode_utf16(s.drop_first()));
    }
    assert(b.len() == 2 * u.len());
    assert forall|i: int| 0 <= i < n implies (b[2 * i + 1] == 0 <==> u[i] < 256) by {
        assert(b[2 * i + 1] == u[i] / 256);
    }
    assert(nul_places(b, n) =~= low_places(u, n));
    utf16_is_known_by_its_nul_bytes(b);
    recognised_utf16_is_read_back(s);
}

/// The text of a recognised buffer without surrogates and without a byte order
/// mark has one character for every two bytes, the low byte first.
pub proof fn content_is_read_low_byte_first(b: Seq<u8>)
    requires
        is_utf16le(b),
        !(b[0] == 255 && b[1] == 254),
        forall|i: int| 0 <= i < b.len() / 2 ==> !(0xD8 <= #[trigger] b[2 * i + 1] <= 0xDF),
    ensures
        content_text(b).len() == b.len() / 2,
        forall|i: int|
            0 <= i < b.len() / 2 ==> #[trigger] content_text(b)[i] as int == b[2 * i] + 256 * b[2 * i
                + 1],
{
    let u = le_units(b);
    assert forall|i: int| 0 <= i < u.len() implies !(0xD800 <= #[trigger] u[i] <= 0xDFFF) by {
        assert(u[i] == b[2 * i] + 256 * b[2 * i + 1]);
        assert(!(0xD8 <= b[2 * i + 1] <= 0xDF));
    }
    crate::utf16::units_without_pairs_are_characters(u);
    let s = decode_utf16_lossy(u);
    let first = 0int;
    assert(u[first] == b[2 * first] + 256 * b[2 * first + 1]);
    assert(s[0] as int == u[0] as int);
    assert(s[0] != '\u{feff}');
    assert(content_text(b) == s);
}

/// A buffer that is not taken for UTF-16LE is read as UTF-8.
pub proof fn other_content_is_read_as_utf8(b: Seq<u8>)
    requires
        !is_utf16le(b),
    ensures
        content_text(b) == utf8_lossy(b),
{
}

} // verus!
