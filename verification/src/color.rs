use vstd::prelude::*;
use vstd::string::*;
use vstd::utf8::*;

use crate::text::{hex_digit_char, hex_digit_str, trim_hashes, without_leading_hashes};

verus! {

broadcast use vstd::utf8::group_utf8_lib;

/// An 8-bit RGBA colour.
#[derive(Clone, Copy, Debug, PartialEq, Eq, Structural)]
pub struct Color {
    pub r: u8,
    pub g: u8,
    pub b: u8,
    pub a: u8,
}

/// The value of an ASCII hexadecimal digit (either case), if `c` is one.
pub open spec fn hex_value(c: u8) -> Option<u8> {
    if 48 <= c <= 57 {
        Some((c - 48) as u8)
    } else if 65 <= c <= 70 {
        Some((c - 55) as u8)
    } else if 97 <= c <= 102 {
        Some((c - 87) as u8)
    } else {
        None
    }
}

/// The byte written by the two characters `hi` `lo` in base 16, as integer
/// parsing reads it: two hexadecimal digits, or a `+` sign and one digit.
pub open spec fn parse_hex_pair(hi: u8, lo: u8) -> Option<u8> {
    match (hex_value(hi), hex_value(lo)) {
        (Some(h), Some(l)) => Some((h * 16 + l) as u8),
        (None, Some(l)) => if hi == 43 {
            Some(l)
        } else {
            None
        },
        _ => None,
    }
}

/// The UTF-8 bytes of `s` after its leading `#` characters.
pub open spec fn hex_body(s: Seq<char>) -> Seq<u8> {
    encode_utf8(trim_hashes(s))
}

/// The byte that the pair of characters at `i` in `body` writes, or `default`.
pub open spec fn pair_or(body: Seq<u8>, i: int, default: u8) -> u8 {
    match parse_hex_pair(body[i], body[i + 1]) {
        Some(v) => v,
        None => default,
    }
}

/// The colour that a `#RRGGBB` or `#RRGGBBAA` text denotes: each channel whose
/// two characters do not parse is 0 (alpha: 255), and a body of any other
/// length gives opaque black.
pub open spec fn spec_from_hex(s: Seq<char>) -> Color {
    let body = hex_body(s);
    if body.len() == 6 {
        Color { r: pair_or(body, 0, 0), g: pair_or(body, 2, 0), b: pair_or(body, 4, 0), a: 255 }
    } else if body.len() == 8 {
        Color {
            r: pair_or(body, 0, 0),
            g: pair_or(body, 2, 0),
            b: pair_or(body, 4, 0),
            a: pair_or(body, 6, 255),
        }
    } else {
        Color { r: 0, g: 0, b: 0, a: 255 }
    }
}

/// The two-character slices of a hex body of six or eight bytes begin and end
/// on character boundaries, so that the body can be cut into them.
pub open spec fn hex_pairs_on_char_boundaries(s: Seq<char>) -> bool {
    let body = hex_body(s);
    &&& body.len() == 6 ==> !is_continuation_byte(body[2]) && !is_continuation_byte(body[4])
    &&& body.len() == 8 ==> !is_continuation_byte(body[2]) && !is_continuation_byte(body[4])
        && !is_continuation_byte(body[6])
}

/// `#` followed by the upper-case hexadecimal digits of red, green and blue.
pub open spec fn spec_to_hex(c: Color) -> Seq<char> {
    seq![
        '#',
        hex_digit_char((c.r / 16) as nat),
        hex_digit_char((c.r % 16) as nat),
        hex_digit_char((c.g / 16) as nat),
        hex_digit_char((c.g % 16) as nat),
        hex_digit_char((c.b / 16) as nat),
        hex_digit_char((c.b % 16) as nat),
    ]
}

/// Reads one hexadecimal digit.
fn hex_digit_value(c: u8) -> (v: Option<u8>)
    ensures
        v == hex_value(c),
{
    if 48 <= c && c <= 57 {
        Some(c - 48)
    } else if 65 <= c && c <= 70 {
        Some(c - 55)
    } else if 97 <= c && c <= 102 {
        Some(c - 87)
    } else {
        None
    }
}

/// Reads the byte that two characters write in base 16.
pub fn hex_pair(hi: u8, lo: u8) -> (v: Option<u8>)
    ensures
        v == parse_hex_pair(hi, lo),
{
    match (hex_digit_value(hi), hex_digit_value(lo)) {
        (Some(h), Some(l)) => Some(h * 16 + l),
        (None, Some(l)) => if hi == 43 {
            Some(l)
        } else {
            None
        },
        _ => None,
    }
}

fn hex_pair_or(body: &[u8], i: usize, default: u8) -> (v: u8)
    requires
        i + 1 < body@.len(),
    ensures
        v == pair_or(body@, i as int, default),
{
    match hex_pair(body[i], body[i + 1]) {
        Some(v) => v,
        None => default,
    }
}

impl Color {
    /// An opaque colour.
    pub fn rgb(r: u8, g: u8, b: u8) -> (c: Self)
        ensures
            c == (Color { r, g, b, a: 255 }),
    {
        Color { r, g, b, a: 255 }
    }

    /// A colour with the given alpha.
    pub fn rgba(r: u8, g: u8, b: u8, a: u8) -> (c: Self)
        ensures
            c == (Color { r, g, b, a }),
    {
        Color { r, g, b, a }
    }

    /// Parses `#RRGGBB` or `#RRGGBBAA` (any number of leading `#`, digits of
    /// either case).
    pub fn from_hex(hex: &str) -> (c: Self)
        requires
            hex_pairs_on_char_boundaries(hex@),
        ensures
            c == spec_from_hex(hex@),
    {
        let clean = without_leading_hashes(hex);
        let body = clean.as_bytes();
        let n = body.len();
        if n == 6 {
            let r = hex_pair_or(body, 0, 0);
            let g = hex_pair_or(body, 2, 0);
            let b = hex_pair_or(body, 4, 0);
            Self::rgb(r, g, b)
        } else if n == 8 {
            let r = hex_pair_or(body, 0, 0);
            let g = hex_pair_or(body, 2, 0);
            let b = hex_pair_or(body, 4, 0);
            let a = hex_pair_or(body, 6, 255);
            Self::rgba(r, g, b, a)
        } else {
            Self::rgb(0, 0, 0)
        }
    }

    /// `#RRGGBB` in upper-case hexadecimal; alpha is left out.
    pub fn to_hex(&self) -> (s: String)
        ensures
            s@ == spec_to_hex(*self),
    {
        let mut s = String::from_str("#");
        proof {
            reveal_strlit("#");
        }
        s.append(hex_digit_str(self.r / 16));
        s.append(hex_digit_str(self.r % 16));
        s.append(hex_digit_str(self.g / 16));
        s.append(hex_digit_str(self.g % 16));
        s.append(hex_digit_str(self.b / 16));
        s.append(hex_digit_str(self.b % 16));
        proof {
            assert(s@ =~= spec_to_hex(*self));
        }
        s
    }
}

impl Default for Color {
    /// The accent blue that new shapes are filled with.
    fn default() -> (c: Self)
        ensures
            c == (Color { r: 91, g: 124, b: 250, a: 255 }),
    {
        Self::rgb(91, 124, 250)
    }
}

/// Whether `s`, after its leading `#`s, is six or eight bytes long.
pub fn is_valid_hex(s: &str) -> (valid: bool)
    ensures
        valid == (hex_body(s@).len() == 6 || hex_body(s@).len() == 8),
{
    let clean = without_leading_hashes(s);
    let n = clean.as_bytes().len();
    n == 6 || n == 8
}

/// The alpha byte an eight-digit colour text writes in its last pair (255
/// when that pair does not parse), or `None` for texts of any other length.
pub fn hex_alpha(s: &str) -> (a: Option<u8>)
    ensures
        a == (if hex_body(s@).len() == 8 {
            Some(pair_or(hex_body(s@), 6, 255))
        } else {
            None::<u8>
        }),
{
    let clean = without_leading_hashes(s);
    let body = clean.as_bytes();
    if body.len() == 8 {
        Some(hex_pair_or(body, 6, 255))
    } else {
        None
    }
}

/// What [`hex_to_rgb6`] makes of `s`.
pub open spec fn spec_hex_to_rgb6(s: Seq<char>) -> Seq<char> {
    if hex_body(s).len() >= 6 {
        seq!['#'] + decode_utf8(hex_body(s).take(6))
    } else {
        s
    }
}

/// `#` and the first six bytes after the leading `#`s of `s`, or `s` itself
/// when fewer than six bytes follow them.
pub fn hex_to_rgb6(s: &str) -> (t: String)
    requires
        hex_body(s@).len() > 6 ==> !is_continuation_byte(hex_body(s@)[6]),
    ensures
        t@ == spec_hex_to_rgb6(s@),
        hex_body(s@).len() >= 6 ==> t@ == seq!['#'] + decode_utf8(hex_body(s@).take(6)),
        hex_body(s@).len() < 6 ==> t@ == s@,
{
    let clean = without_leading_hashes(s);
    if clean.as_bytes().len() >= 6 {
        proof {
            let bytes = clean.spec_bytes();
            assert(valid_utf8(bytes));
            if bytes.len() > 6 {
                assert(is_char_boundary(bytes, 6));
            } else {
                assert(is_char_boundary(bytes, bytes.len() as int));
            }
        }
        let (head, _) = clean.split_at(6);
        let mut t = String::from_str("#");
        proof {
            reveal_strlit("#");
            assert(decode_utf8(encode_utf8(head@)) == head@);
            assert(head.spec_bytes() =~= hex_body(s@).take(6));
        }
        t.append(head);
        t
    } else {
        s.to_owned()
    }
}

/// After its leading `#`s are removed, a text does not start with `#`.
proof fn lemma_trim_hashes_first(cs: Seq<char>)
    ensures
        trim_hashes(cs).len() > 0 ==> trim_hashes(cs)[0] != '#',
    decreases cs.len(),
{
    if cs.len() > 0 && cs[0] == '#' {
        lemma_trim_hashes_first(cs.drop_first());
    }
}

/// Shortening to `#RRGGBB` twice is shortening once: the shortened text can
/// be shortened again, and that gives it back unchanged.
pub proof fn lemma_hex_to_rgb6_idempotent(s: Seq<char>)
    requires
        hex_body(s).len() > 6 ==> !is_continuation_byte(hex_body(s)[6]),
    ensures
        hex_body(spec_hex_to_rgb6(s)).len() > 6 ==> !is_continuation_byte(hex_body(spec_hex_to_rgb6(s))[6]),
        spec_hex_to_rgb6(spec_hex_to_rgb6(s)) == spec_hex_to_rgb6(s),
{
    let h = trim_hashes(s);
    let b = encode_utf8(h);
    if b.len() >= 6 {
        if b.len() > 6 {
            assert(is_char_boundary(b, 6));
        } else {
            assert(is_char_boundary(b, b.len() as int));
        }
        let head = b.take(6);
        assert(head =~= b.subrange(0, 6));
        assert(valid_utf8(b.subrange(0, 6)));
        let p = decode_utf8(head);
        assert(encode_utf8(p) == head);
        assert(decode_utf8(b) =~= p + decode_utf8(b.subrange(6, b.len() as int)));
        assert(decode_utf8(b) == h);
        if p.len() == 0 {
            assert(encode_utf8(p).len() == 0);
            assert(false);
        }
        lemma_trim_hashes_first(s);
        assert(p[0] == h[0]);
        let t = seq!['#'] + p;
        assert(t.drop_first() =~= p);
        assert(trim_hashes(p) == p);
        assert(t[0] == '#');
        assert(trim_hashes(t) == trim_hashes(t.drop_first()));
        assert(trim_hashes(t) == p);
        assert(hex_body(t) == head);
        assert(head.take(6) =~= head);
    }
}

/// The hexadecimal digit characters are ASCII and read back as their value.
proof fn lemma_hex_digit_reads_back(n: nat)
    requires
        n < 16,
    ensures
        hex_digit_char(n) as u32 <= 0x7f,
        hex_digit_char(n) != '#',
        hex_value(hex_digit_char(n) as u8) == Some(n as u8),
{
}

/// The colour that `to_hex` writes reads back through `from_hex` with the same
/// red, green and blue and full opacity; the text can be cut into its pairs.
pub proof fn lemma_from_hex_to_hex(c: Color)
    ensures
        hex_pairs_on_char_boundaries(spec_to_hex(c)),
        spec_from_hex(spec_to_hex(c)) == (Color { r: c.r, g: c.g, b: c.b, a: 255 }),
        hex_body(spec_to_hex(c)).len() == 6,
        seq!['#'] + decode_utf8(hex_body(spec_to_hex(c)).take(6)) == spec_to_hex(c),
{
    let t = spec_to_hex(c);
    lemma_hex_digit_reads_back((c.r / 16) as nat);
    lemma_hex_digit_reads_back((c.r % 16) as nat);
    lemma_hex_digit_reads_back((c.g / 16) as nat);
    lemma_hex_digit_reads_back((c.g % 16) as nat);
    lemma_hex_digit_reads_back((c.b / 16) as nat);
    lemma_hex_digit_reads_back((c.b % 16) as nat);
    crate::text::lemma_trim_hashes_skip(t, 1);
    let digits = t.skip(1);
    assert(is_ascii_chars(digits));
    is_ascii_chars_encode_utf8(digits);
    let body = hex_body(t);
    assert(body.len() == 6);
    assert(body[0] == hex_digit_char((c.r / 16) as nat) as u8);
    assert(body[1] == hex_digit_char((c.r % 16) as nat) as u8);
    assert(body[2] == hex_digit_char((c.g / 16) as nat) as u8);
    assert(body[3] == hex_digit_char((c.g % 16) as nat) as u8);
    assert(body[4] == hex_digit_char((c.b / 16) as nat) as u8);
    assert(body[5] == hex_digit_char((c.b % 16) as nat) as u8);
    assert(pair_or(body, 0, 0) == c.r);
    assert(pair_or(body, 2, 0) == c.g);
    assert(pair_or(body, 4, 0) == c.b);
    assert(body.take(6) =~= body);
    assert(decode_utf8(encode_utf8(digits)) == digits);
    assert(seq!['#'] + digits =~= t);
}

} // verus!
