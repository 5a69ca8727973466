//! Parsing of CSS hex colours (`#rrggbb` or `#rrggbbaa`) as themes pass them.

use vstd::prelude::*;
use vstd::string::StringSliceAdditionalSpecFns;

verus! {

/// An 8-bit-per-channel colour.
#[derive(Clone, Copy, Debug, PartialEq, Eq, Structural)]
pub struct Rgba8 {
    pub r: u8,
    pub g: u8,
    pub b: u8,
    pub a: u8,
}

/// ASCII characters with the Unicode `White_Space` property.
pub open spec fn ascii_ws(b: u8) -> bool {
    (0x09 <= b && b <= 0x0D) || b == 0x20
}

/// Three-byte UTF-8 encodings of `White_Space` characters: U+1680,
/// U+2000..U+200A, U+2028, U+2029, U+202F, U+205F and U+3000.
pub open spec fn ws3(a: u8, b: u8, c: u8) -> bool {
    ||| (a == 0xE1 && b == 0x9A && c == 0x80)
    ||| (a == 0xE2 && b == 0x80 && ((0x80 <= c && c <= 0x8A) || c == 0xA8 || c == 0xA9 || c
        == 0xAF))
    ||| (a == 0xE2 && b == 0x81 && c == 0x9F)
    ||| (a == 0xE3 && b == 0x80 && c == 0x80)
}

/// Length of the whitespace character that UTF-8 text starts with (0: none).
/// The two-byte ones are U+0085 and U+00A0.
pub open spec fn ws_prefix(b: Seq<u8>) -> int {
    if b.len() >= 1 && ascii_ws(b[0]) {
        1
    } else if b.len() >= 2 && b[0] == 0xC2 && (b[1] == 0x85 || b[1] == 0xA0) {
        2
    } else if b.len() >= 3 && ws3(b[0], b[1], b[2]) {
        3
    } else {
        0
    }
}

/// Length of the whitespace character that UTF-8 text ends with (0: none).
pub open spec fn ws_suffix(b: Seq<u8>) -> int {
    let n = b.len() as int;
    if n >= 1 && ascii_ws(b[n - 1]) {
        1
    } else if n >= 2 && b[n - 2] == 0xC2 && (b[n - 1] == 0x85 || b[n - 1] == 0xA0) {
        2
    } else if n >= 3 && ws3(b[n - 3], b[n - 2], b[n - 1]) {
        3
    } else {
        0
    }
}

/// UTF-8 text without its leading whitespace.
pub open spec fn trim_start(b: Seq<u8>) -> Seq<u8>
    decreases b.len(),
{
    if ws_prefix(b) > 0 {
        trim_start(b.skip(ws_prefix(b)))
    } else {
        b
    }
}

/// UTF-8 text without its trailing whitespace.
pub open spec fn trim_end(b: Seq<u8>) -> Seq<u8>
    decreases b.len(),
{
    if ws_suffix(b) > 0 {
        trim_end(b.take(b.len() - ws_suffix(b)))
    } else {
        b
    }
}

/// The hex digits of a colour: the trimmed text without one leading `#`.
pub open spec fn css_hex(b: Seq<u8>) -> Seq<u8> {
    let t = trim_end(trim_start(b));
    if t.len() > 0 && t[0] == 0x23 {
        t.skip(1)
    } else {
        t
    }
}

/// An ASCII hex digit.
pub open spec fn is_hex_digit(c: u8) -> bool {
    (0x30 <= c && c <= 0x39) || (0x41 <= c && c <= 0x46) || (0x61 <= c && c <= 0x66)
}

/// The value of an ASCII hex digit.
pub open spec fn hex_value(c: u8) -> int {
    if 0x30 <= c && c <= 0x39 {
        c - 0x30
    } else if 0x41 <= c && c <= 0x46 {
        c - 0x41 + 10
    } else {
        c - 0x61 + 10
    }
}

/// A two-byte field of a colour: two hex digits (`#RRGGBB` / `#RRGGBBAA`
/// allow nothing else, so a sign is no digit).
pub open spec fn hex_pair(c0: u8, c1: u8) -> Option<u8> {
    if is_hex_digit(c0) && is_hex_digit(c1) {
        Some((16 * hex_value(c0) + hex_value(c1)) as u8)
    } else {
        None
    }
}

/// The colour that CSS text denotes, if it is one: six hex digits (opaque) or
/// eight (with alpha), after trimming and an optional `#`.
pub open spec fn css_color_of(b: Seq<u8>) -> Option<Rgba8> {
    let h = css_hex(b);
    if h.len() == 6 {
        match (hex_pair(h[0], h[1]), hex_pair(h[2], h[3]), hex_pair(h[4], h[5])) {
            (Some(r), Some(g), Some(bl)) => Some(Rgba8 { r, g, b: bl, a: 255 }),
            _ => None,
        }
    } else if h.len() == 8 {
        match (hex_pair(h[0], h[1]), hex_pair(h[2], h[3]), hex_pair(h[4], h[5]), hex_pair(h[6], h[7])) {
            (Some(r), Some(g), Some(bl), Some(a)) => Some(Rgba8 { r, g, b: bl, a }),
            _ => None,
        }
    } else {
        None
    }
}

/// A byte that does not continue a UTF-8 sequence: a character starts there.
pub open spec fn starts_char(c: u8) -> bool {
    c < 0x80 || c >= 0xC0
}

/// The two-byte fields of the hex digits start and end on character
/// boundaries, so that the text can be cut into them.
pub open spec fn fields_on_char_boundaries(b: Seq<u8>) -> bool {
    let h = css_hex(b);
    &&& h.len() == 6 ==> starts_char(h[2]) && starts_char(h[4])
    &&& h.len() == 8 ==> starts_char(h[2]) && starts_char(h[4]) && starts_char(h[6])
}

/// What a colour text denotes, from its hex digits `h` (the text trimmed, one
/// leading `#` dropped): exactly six or eight characters, all hex digits, are
/// a colour whose channels are the two-digit fields read as base-16 numbers
/// (most significant digit first), opaque (alpha 255) for six; anything else
/// (another length, or any character that is no hex digit, a sign included)
/// denotes no colour.
pub proof fn lemma_css_color(b: Seq<u8>)
    ensures
        ({
            let h = css_hex(b);
            let field = |k: int| 16 * hex_value(h[2 * k]) + hex_value(h[2 * k + 1]);
            let all_hex = forall|i: int| 0 <= i < h.len() ==> #[trigger] is_hex_digit(h[i]);
            &&& (h.len() != 6 && h.len() != 8) ==> css_color_of(b) is None
            &&& ((h.len() == 6 || h.len() == 8) && !all_hex) ==> css_color_of(b) is None
            &&& (h.len() == 6 && all_hex) ==> (css_color_of(b) matches Some(c) && c.r == field(0)
                && c.g == field(1) && c.b == field(2) && c.a == 255)
            &&& (h.len() == 8 && all_hex) ==> (css_color_of(b) matches Some(c) && c.r == field(0)
                && c.g == field(1) && c.b == field(2) && c.a == field(3))
        }),
{
    let h = css_hex(b);
    if h.len() == 6 || h.len() == 8 {
        if !(forall|i: int| 0 <= i < h.len() ==> #[trigger] is_hex_digit(h[i])) {
            let i = choose|i: int| 0 <= i < h.len() && !is_hex_digit(h[i]);
            assert(!is_hex_digit(h[i]));
        }
        assert forall|i: int| 0 <= i < h.len() && is_hex_digit(h[i]) implies 0 <= #[trigger] hex_value(h[i]) < 16 by {}
    }
}

/// The hex digits are `0`-`9` (values 0-9), `A`-`F` and `a`-`f` (values
/// 10-15); no other byte, signs included, is a digit.
pub proof fn lemma_hex_digits(c: u8)
    ensures
        is_hex_digit(c) == ((0x30 <= c <= 0x39) || (0x41 <= c <= 0x46) || (0x61 <= c <= 0x66)),
        0x30 <= c <= 0x39 ==> hex_value(c) == c - 0x30,
        0x41 <= c <= 0x46 ==> hex_value(c) == c - 0x41 + 10,
        0x61 <= c <= 0x66 ==> hex_value(c) == c - 0x61 + 10,
        !is_hex_digit(0x2B) && !is_hex_digit(0x2D),
        is_hex_digit(c) ==> 0 <= hex_value(c) < 16,
        forall|c0: u8, c1: u8| #[trigger] hex_pair(c0, c1) is Some <==> (is_hex_digit(c0) && is_hex_digit(c1)),
        forall|c0: u8, c1: u8| is_hex_digit(c0) && is_hex_digit(c1) ==> #[trigger] hex_pair(c0, c1) == Some(
            (16 * hex_value(c0) + hex_value(c1)) as u8,
        ),
{
}

/// Length of the whitespace character at the start of `b[from..to]`.
fn ws_prefix_at(b: &[u8], from: usize, to: usize) -> (n: usize)
    requires
        from <= to <= b@.len(),
    ensures
        n == ws_prefix(b@.subrange(from as int, to as int)),
{
    let len = to - from;
    if len >= 1 && ((0x09 <= b[from] && b[from] <= 0x0D) || b[from] == 0x20) {
        1
    } else if len >= 2 && b[from] == 0xC2 && (b[from + 1] == 0x85 || b[from + 1] == 0xA0) {
        2
    } else if len >= 3 && is_ws3(b[from], b[from + 1], b[from + 2]) {
        3
    } else {
        0
    }
}

/// Length of the whitespace character at the end of `b[from..to]`.
fn ws_suffix_at(b: &[u8], from: usize, to: usize) -> (n: usize)
    requires
        from <= to <= b@.len(),
    ensures
        n == ws_suffix(b@.subrange(from as int, to as int)),
{
    let len = to - from;
    if len >= 1 && ((0x09 <= b[to - 1] && b[to - 1] <= 0x0D) || b[to - 1] == 0x20) {
        1
    } else if len >= 2 && b[to - 2] == 0xC2 && (b[to - 1] == 0x85 || b[to - 1] == 0xA0) {
        2
    } else if len >= 3 && is_ws3(b[to - 3], b[to - 2], b[to - 1]) {
        3
    } else {
        0
    }
}

/// Whether three bytes encode a three-byte whitespace character.
fn is_ws3(a: u8, b: u8, c: u8) -> (r: bool)
    ensures
        r == ws3(a, b, c),
{
    (a == 0xE1 && b == 0x9A && c == 0x80) || (a == 0xE2 && b == 0x80 && ((0x80 <= c && c <= 0x8A)
        || c == 0xA8 || c == 0xA9 || c == 0xAF)) || (a == 0xE2 && b == 0x81 && c == 0x9F) || (a
        == 0xE3 && b == 0x80 && c == 0x80)
}

/// The value of a hex digit, if it is one.
fn hex_digit(c: u8) -> (r: Option<u8>)
    ensures
        r == (if is_hex_digit(c) {
            Some(hex_value(c) as u8)
        } else {
            None::<u8>
        }),
{
    if 0x30 <= c && c <= 0x39 {
        Some(c - 0x30)
    } else if 0x41 <= c && c <= 0x46 {
        Some(c - 0x41 + 10)
    } else if 0x61 <= c && c <= 0x66 {
        Some(c - 0x61 + 10)
    } else {
        None
    }
}

/// Reads a two-byte field of hex digits.
fn parse_hex_pair(c0: u8, c1: u8) -> (r: Option<u8>)
    ensures
        r == hex_pair(c0, c1),
{
    match (hex_digit(c0), hex_digit(c1)) {
        (Some(h), Some(l)) => Some(16 * h + l),
        _ => None,
    }
}

/// Parses a CSS hex colour: surrounding whitespace is ignored, a leading `#`
/// is optional, and six hex digits give an opaque colour, eight a colour with
/// alpha. Anything else gives `None`, for which callers use a placeholder.
/// Text of six or eight bytes whose two-byte fields would cut through a
/// multi-byte character is not accepted as input (cutting it there panics):
/// see [`fields_on_char_boundaries`].
pub fn parse_css_color(css: &str) -> (r: Option<Rgba8>)
    requires
        fields_on_char_boundaries(css.spec_bytes()),
    ensures
        r == css_color_of(css.spec_bytes()),
{
    let b = css.as_bytes();
    let ghost bs = b@;
    let n = b.len();
    let mut s: usize = 0;
    assert(bs.subrange(0, n as int) =~= bs);
    loop
        invariant
            s <= n,
            n == bs.len(),
            b@ == bs,
            trim_start(bs) == trim_start(bs.subrange(s as int, n as int)),
        ensures
            s <= n,
            trim_start(bs) == trim_start(bs.subrange(s as int, n as int)),
            ws_prefix(bs.subrange(s as int, n as int)) == 0,
        decreases n - s,
    {
        let k = ws_prefix_at(b, s, n);
        if k == 0 {
            break;
        }
        proof {
            let t = bs.subrange(s as int, n as int);
            assert(t.skip(k as int) =~= bs.subrange(s + k, n as int));
        }
        s = s + k;
    }
    let mut e: usize = n;
    let ghost front = bs.subrange(s as int, n as int);
    assert(trim_start(front) == front);
    loop
        invariant
            s <= e <= n,
            n == bs.len(),
            b@ == bs,
            trim_end(front) == trim_end(bs.subrange(s as int, e as int)),
        ensures
            s <= e <= n,
            trim_end(front) == trim_end(bs.subrange(s as int, e as int)),
            ws_suffix(bs.subrange(s as int, e as int)) == 0,
        decreases e - s,
    {
        let k = ws_suffix_at(b, s, e);
        if k == 0 {
            break;
        }
        proof {
            let t = bs.subrange(s as int, e as int);
            assert(t.take(t.len() - k) =~= bs.subrange(s as int, e - k));
        }
        e = e - k;
    }
    assert(trim_end(bs.subrange(s as int, e as int)) == bs.subrange(s as int, e as int));
    if s < e && b[s] == 0x23 {
        s = s + 1;
    }
    let ghost h = css_hex(bs);
    assert(h =~= bs.subrange(s as int, e as int));
    let len = e - s;
    if len == 6 {
        match (
            parse_hex_pair(b[s], b[s + 1]),
            parse_hex_pair(b[s + 2], b[s + 3]),
            parse_hex_pair(b[s + 4], b[s + 5]),
        ) {
            (Some(r), Some(g), Some(bl)) => Some(Rgba8 { r, g, b: bl, a: 255 }),
            _ => None,
        }
    } else if len == 8 {
        match (
            parse_hex_pair(b[s], b[s + 1]),
            parse_hex_pair(b[s + 2], b[s + 3]),
            parse_hex_pair(b[s + 4], b[s + 5]),
            parse_hex_pair(b[s + 6], b[s + 7]),
        ) {
            (Some(r), Some(g), Some(bl), Some(a)) => Some(Rgba8 { r, g, b: bl, a }),
            _ => None,
        }
    } else {
        None
    }
}

} // verus!
