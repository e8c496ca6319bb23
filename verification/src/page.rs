//! The markup-to-style parser: the colour vocabularies and the 1-3 field
//! class-attribute grammar.

use vstd::prelude::*;
use vstd::string::StrSliceExecFns;

use crate::dom::{child_view, line_children_of, opt_view, row_matches, rows_match, selector_ok};
use crate::error::Error;
use crate::strutil::{
    first_space, lemma_first_space_unique, str_eq, find_space, is_digit, all_digits, digits_value,
    lemma_digits_value_take_le,
};

verus! {

broadcast use vstd::string::group_string_axioms;

/// The closed background colour vocabulary of the source format.
#[derive(PartialEq, Eq, Structural, Debug, Clone, Copy)]
pub enum BgColour {
    Black,
    Blue,
    Cyan,
    Green,
    Magenta,
    Red,
    White,
    Yellow,
}

/// The closed foreground colour vocabulary of the source format.
#[derive(PartialEq, Eq, Structural, Debug, Clone, Copy)]
pub enum FgColour {
    Black,
    Blue,
    Cyan,
    Green,
    Magenta,
    Red,
    White,
    Yellow,
}

/// The style of one span: background, foreground, and whether the span's
/// text stands for an embedded image and is drawn as a mosaic glyph.
#[derive(PartialEq, Eq, Structural, Debug, Clone, Copy)]
pub struct SpanStyle {
    pub bg: BgColour,
    pub fg: FgColour,
    pub mosaic: bool,
}

/// The background named by one class field, by the fixed lookup table.
pub open spec fn spec_bg_of(s: Seq<char>) -> Option<BgColour> {
    if s == "bgB"@ {
        Some(BgColour::Blue)
    } else if s == "bgBl"@ {
        Some(BgColour::Black)
    } else if s == "bgC"@ {
        Some(BgColour::Cyan)
    } else if s == "bgG"@ {
        Some(BgColour::Green)
    } else if s == "bgM"@ {
        Some(BgColour::Magenta)
    } else if s == "bgR"@ {
        Some(BgColour::Red)
    } else if s == "bgW"@ {
        Some(BgColour::White)
    } else if s == "bgY"@ {
        Some(BgColour::Yellow)
    } else {
        None
    }
}

/// The foreground named by one class field, by the fixed lookup table.
/// The empty field is an alias for white: there is no visible foreground
/// character to colour, so the choice is inert but must not fail.
pub open spec fn spec_fg_of(s: Seq<char>) -> Option<FgColour> {
    if s == "bl"@ {
        Some(FgColour::Black)
    } else if s == "B"@ {
        Some(FgColour::Blue)
    } else if s == "C"@ {
        Some(FgColour::Cyan)
    } else if s == "G"@ {
        Some(FgColour::Green)
    } else if s == "M"@ {
        Some(FgColour::Magenta)
    } else if s == "R"@ {
        Some(FgColour::Red)
    } else if s == "W"@ || s.len() == 0 {
        Some(FgColour::White)
    } else if s == "Y"@ {
        Some(FgColour::Yellow)
    } else {
        None
    }
}

/// What `BgColour::from_str` returns on a field with characters `s`.
pub open spec fn bg_result_matches(s: Seq<char>, r: Result<BgColour, Error>) -> bool {
    match spec_bg_of(s) {
        Some(b) => r == Ok::<BgColour, Error>(b),
        None => r matches Err(e) && e matches Error::UnknownBackground(c) && c@ == s,
    }
}

/// What `FgColour::from_str` returns on a field with characters `s`.
pub open spec fn fg_result_matches(s: Seq<char>, r: Result<FgColour, Error>) -> bool {
    match spec_fg_of(s) {
        Some(f) => r == Ok::<FgColour, Error>(f),
        None => r matches Err(e) && e matches Error::UnknownForeground(c) && c@ == s,
    }
}

impl Default for BgColour {
    /// The default background is black.
    fn default() -> (d: Self)
        ensures
            d == BgColour::Black,
    {
        BgColour::Black
    }
}

impl Default for FgColour {
    /// The default foreground is white.
    fn default() -> (d: Self)
        ensures
            d == FgColour::White,
    {
        FgColour::White
    }
}

impl Default for SpanStyle {
    /// The default style: black background, white foreground, no mosaic.
    fn default() -> (d: Self)
        ensures
            d == (SpanStyle { bg: BgColour::Black, fg: FgColour::White, mosaic: false }),
    {
        SpanStyle { bg: BgColour::Black, fg: FgColour::White, mosaic: false }
    }
}

impl BgColour {
    /// Looks one class field up in the background table.
    pub fn from_str(s: &str) -> (r: Result<BgColour, Error>)
        ensures
            bg_result_matches(s@, r),
    {
        if str_eq(s, "bgB") {
            Ok(BgColour::Blue)
        } else if str_eq(s, "bgBl") {
            Ok(BgColour::Black)
        } else if str_eq(s, "bgC") {
            Ok(BgColour::Cyan)
        } else if str_eq(s, "bgG") {
            Ok(BgColour::Green)
        } else if str_eq(s, "bgM") {
            Ok(BgColour::Magenta)
        } else if str_eq(s, "bgR") {
            Ok(BgColour::Red)
        } else if str_eq(s, "bgW") {
            Ok(BgColour::White)
        } else if str_eq(s, "bgY") {
            Ok(BgColour::Yellow)
        } else {
            Err(Error::UnknownBackground(s.to_owned()))
        }
    }
}

impl FgColour {
    /// Looks one class field up in the foreground table.
    pub fn from_str(s: &str) -> (r: Result<FgColour, Error>)
        ensures
            fg_result_matches(s@, r),
    {
        if str_eq(s, "bl") {
            Ok(FgColour::Black)
        } else if str_eq(s, "B") {
            Ok(FgColour::Blue)
        } else if str_eq(s, "C") {
            Ok(FgColour::Cyan)
        } else if str_eq(s, "G") {
            Ok(FgColour::Green)
        } else if str_eq(s, "M") {
            Ok(FgColour::Magenta)
        } else if str_eq(s, "R") {
            Ok(FgColour::Red)
        } else if str_eq(s, "W") || s.is_empty() {
            Ok(FgColour::White)
        } else if str_eq(s, "Y") {
            Ok(FgColour::Yellow)
        } else {
            Err(Error::UnknownForeground(s.to_owned()))
        }
    }
}

/// The fields of a class string: split on every single space, empty
/// fields kept.
pub open spec fn spec_fields(s: Seq<char>) -> Seq<Seq<char>>
    decreases s.len(),
{
    let i = first_space(s) as int;
    if i >= s.len() {
        seq![s]
    } else {
        seq![s.take(i)].add(spec_fields(s.skip(i + 1)))
    }
}

/// What a two-field parse (with the given mosaic flag) returns on fields
/// `a` and `b`: the background is looked up first.
pub open spec fn two_field_matches(
    a: Seq<char>,
    b: Seq<char>,
    mosaic: bool,
    r: Result<SpanStyle, Error>,
) -> bool {
    match spec_bg_of(a) {
        Some(bg) => match spec_fg_of(b) {
            Some(fg) => r == Ok::<SpanStyle, Error>(SpanStyle { bg, fg, mosaic }),
            None => r matches Err(e) && e matches Error::UnknownForeground(c) && c@ == b,
        },
        None => r matches Err(e) && e matches Error::UnknownBackground(c) && c@ == a,
    }
}

/// What `SpanStyle::from_str` returns on a class string with characters
/// `s`: one field names a background; two fields name background and
/// foreground; three fields are accepted only when the third is exactly
/// the image sentinel, and then mark the span as mosaic.
pub open spec fn style_result_matches(s: Seq<char>, r: Result<SpanStyle, Error>) -> bool {
    let fs = spec_fields(s);
    if fs.len() == 1 {
        match spec_bg_of(fs[0]) {
            Some(bg) => r == Ok::<SpanStyle, Error>(
                SpanStyle { bg, fg: FgColour::White, mosaic: false },
            ),
            None => r matches Err(e) && e matches Error::UnknownBackground(c) && c@ == fs[0],
        }
    } else if fs.len() == 2 {
        two_field_matches(fs[0], fs[1], false, r)
    } else if fs.len() == 3 && fs[2] == "bgImg"@ {
        two_field_matches(fs[0], fs[1], true, r)
    } else {
        r matches Err(e) && e matches Error::MalformedClass(c) && c@ == s
    }
}

/// Looks both colour fields up and assembles the style.
fn bg_fg_style(f0: &str, f1: &str, mosaic: bool) -> (r: Result<SpanStyle, Error>)
    ensures
        two_field_matches(f0@, f1@, mosaic, r),
{
    let bg = match BgColour::from_str(f0) {
        Ok(bg) => bg,
        Err(e) => {
            return Err(e);
        },
    };
    let fg = match FgColour::from_str(f1) {
        Ok(fg) => fg,
        Err(e) => {
            return Err(e);
        },
    };
    Ok(SpanStyle { bg, fg, mosaic })
}

impl SpanStyle {
    /// Parses colour codes from space-separated fields, e.g. `bgB W bgImg`.
    /// There can be 1-3 fields present in the string.
    pub fn from_str(s: &str) -> (r: Result<SpanStyle, Error>)
        ensures
            style_result_matches(s@, r),
            r is Ok <==> spec_style_of(s@) is Some,
            r matches Ok(st) ==> Some(st) == spec_style_of(s@),
    {
        let n = s.unicode_len();
        let i = find_space(s, 0);
        proof {
            lemma_first_space_unique(s@, i as int);
        }
        if i == n {
            // One field: the whole string names a background.
            assert(spec_fields(s@) =~= seq![s@]);
            match BgColour::from_str(s) {
                Ok(bg) => Ok(SpanStyle { bg, fg: FgColour::White, mosaic: false }),
                Err(e) => Err(e),
            }
        } else {
            let f0 = s.substring_char(0, i);
            let ghost rest = s@.skip(i + 1);
            let j = find_space(s, i + 1);
            proof {
                assert(f0@ =~= s@.take(i as int));
                assert forall|q: int| 0 <= q < j - i - 1 implies rest[q] != ' ' by {
                    assert(s@[i + 1 + q] != ' ');
                }
                if j < n {
                    assert(rest[j - i - 1] == s@[j as int]);
                }
                lemma_first_space_unique(rest, j - i - 1);
                assert(spec_fields(s@) == seq![s@.take(i as int)].add(spec_fields(rest)));
            }
            if j == n {
                // Two fields.
                let f1 = s.substring_char(i + 1, n);
                proof {
                    assert(f1@ =~= rest);
                    assert(spec_fields(rest) =~= seq![rest]);
                    assert(spec_fields(s@) =~= seq![f0@, f1@]);
                }
                bg_fg_style(f0, f1, false)
            } else {
                let ghost rest2 = rest.skip(j - i);
                let k = find_space(s, j + 1);
                proof {
                    assert(rest2 =~= s@.skip(j + 1));
                    assert forall|q: int| 0 <= q < k - j - 1 implies rest2[q] != ' ' by {
                        assert(s@[j + 1 + q] != ' ');
                    }
                    if k < n {
                        assert(rest2[k - j - 1] == s@[k as int]);
                    }
                    lemma_first_space_unique(rest2, k - j - 1);
                    assert(spec_fields(rest) == seq![rest.take(j - i - 1)].add(spec_fields(rest2)));
                }
                let f1 = s.substring_char(i + 1, j);
                let f2 = s.substring_char(j + 1, n);
                proof {
                    assert(f1@ =~= rest.take(j - i - 1));
                    assert(f2@ =~= rest2);
                }
                if k == n {
                    // Three fields: accepted only with the image sentinel.
                    proof {
                        assert(spec_fields(rest2) =~= seq![rest2]);
                        assert(spec_fields(s@) =~= seq![f0@, f1@, f2@]);
                    }
                    if str_eq(f2, "bgImg") {
                        bg_fg_style(f0, f1, true)
                    } else {
                        Err(Error::MalformedClass(s.to_owned()))
                    }
                } else {
                    // Four or more fields: malformed.
                    proof {
                        assert(spec_fields(rest2) == seq![rest2.take(k - j - 1)].add(
                            spec_fields(rest2.skip(k - j)),
                        ));
                        assert(spec_fields(s@).len() >= 4);
                    }
                    Err(Error::MalformedClass(s.to_owned()))
                }
            }
        }
    }
}

/// The least index of an ASCII digit in `s`, or `s.len()` when `s` has
/// none.
pub open spec fn first_digit(s: Seq<char>) -> nat
    decreases s.len(),
{
    if s.len() == 0 {
        0
    } else if is_digit(s[0]) {
        0
    } else {
        (1 + first_digit(s.skip(1))) as nat
    }
}

pub proof fn lemma_first_digit(s: Seq<char>)
    ensures
        first_digit(s) <= s.len(),
        forall|j: int| 0 <= j < first_digit(s) ==> !is_digit(s[j]),
        first_digit(s) < s.len() ==> is_digit(s[first_digit(s) as int]),
    decreases s.len(),
{
    if s.len() > 0 && !is_digit(s[0]) {
        lemma_first_digit(s.skip(1));
        assert forall|j: int| 0 <= j < first_digit(s) implies !is_digit(s[j]) by {
            if j > 0 {
                assert(!is_digit(s.skip(1)[j - 1]));
            }
        }
        if first_digit(s) < s.len() {
            assert(is_digit(s.skip(1)[first_digit(s) - 1]));
        }
    }
}

pub proof fn lemma_first_digit_unique(s: Seq<char>, i: int)
    requires
        0 <= i <= s.len(),
        forall|j: int| 0 <= j < i ==> !is_digit(s[j]),
        i < s.len() ==> is_digit(s[i]),
    ensures
        first_digit(s) == i,
{
    lemma_first_digit(s);
    if first_digit(s) < i {
        assert(is_digit(s[first_digit(s) as int]));
    }
    if i < first_digit(s) {
        assert(is_digit(s[i]));
    }
}

/// Whether the image file-extension marker starts at index `i` of `s`.
pub open spec fn marker_at(s: Seq<char>, i: int) -> bool {
    0 <= i && i + 4 <= s.len() && s.subrange(i, i + 4) == ".gif"@
}

/// The least index of `s` where the extension marker starts, or `s.len()`
/// when it occurs nowhere.
pub open spec fn first_marker(s: Seq<char>) -> nat
    decreases s.len(),
{
    if s.len() < 4 {
        s.len()
    } else if s.subrange(0, 4) == ".gif"@ {
        0
    } else {
        (1 + first_marker(s.skip(1))) as nat
    }
}

pub proof fn lemma_first_marker(s: Seq<char>)
    ensures
        first_marker(s) <= s.len(),
        forall|j: int| 0 <= j < first_marker(s) ==> !marker_at(s, j),
        first_marker(s) < s.len() ==> marker_at(s, first_marker(s) as int),
    decreases s.len(),
{
    if s.len() < 4 {
        assert forall|j: int| 0 <= j < first_marker(s) implies !marker_at(s, j) by {}
    } else if s.subrange(0, 4) == ".gif"@ {
    } else {
        lemma_first_marker(s.skip(1));
        assert forall|j: int| 0 <= j < first_marker(s) implies !marker_at(s, j) by {
            if j == 0 {
                assert(!marker_at(s, 0)) by {
                    assert(s.subrange(0, 4) != ".gif"@);
                }
            } else {
                assert(!marker_at(s.skip(1), j - 1));
                if marker_at(s, j) {
                    assert(s.skip(1).subrange(j - 1, j + 3) =~= s.subrange(j, j + 4));
                }
            }
        }
        if first_marker(s) < s.len() {
            let f = first_marker(s) as int;
            assert(marker_at(s.skip(1), f - 1));
            assert(s.subrange(f, f + 4) =~= s.skip(1).subrange(f - 1, f + 3));
        }
    }
}

pub proof fn lemma_first_marker_unique(s: Seq<char>, i: int)
    requires
        0 <= i <= s.len(),
        forall|j: int| 0 <= j < i ==> !marker_at(s, j),
        i < s.len() ==> marker_at(s, i),
    ensures
        first_marker(s) == i,
{
    lemma_first_marker(s);
    if first_marker(s) < i {
        assert(!marker_at(s, first_marker(s) as int));
    }
    if i < first_marker(s) {
        assert(!marker_at(s, i));
    }
}

/// The image-reference identifier extracted from an inline style
/// attribute: the characters between the first ASCII digit and the first
/// extension marker, read as a decimal number; `None` when there is no
/// digit, no marker, nothing between them, a stray non-digit, or a value
/// too large to hold.
pub open spec fn spec_gif_id(s: Seq<char>) -> Option<u64> {
    let st = first_digit(s) as int;
    let en = first_marker(s) as int;
    if st < s.len() && en < s.len() && st < en && all_digits(s.subrange(st, en)) && digits_value(
        s.subrange(st, en),
    ) <= u64::MAX {
        Some(digits_value(s.subrange(st, en)) as u64)
    } else {
        None
    }
}

/// The least index of an ASCII digit, or the length when there is none.
fn find_first_digit(s: &str) -> (i: usize)
    ensures
        i <= s@.len(),
        i == first_digit(s@),
{
    let n = s.unicode_len();
    let mut i: usize = 0;
    while i < n
        invariant
            n == s@.len(),
            i <= n,
            forall|j: int| 0 <= j < i ==> !is_digit(s@[j]),
        decreases n - i,
    {
        let c = s.get_char(i);
        if '0' <= c && c <= '9' {
            proof {
                lemma_first_digit_unique(s@, i as int);
            }
            return i;
        }
        i += 1;
    }
    proof {
        lemma_first_digit_unique(s@, n as int);
    }
    n
}

/// The least index where the extension marker starts, or the length when
/// it occurs nowhere.
fn find_marker(s: &str) -> (i: usize)
    ensures
        i <= s@.len(),
        i == first_marker(s@),
{
    proof {
        reveal_strlit(".gif");
    }
    let n = s.unicode_len();
    let mut i: usize = 0;
    while n >= 4 && i <= n - 4
        invariant
            n == s@.len(),
            i <= n,
            forall|j: int| 0 <= j < i ==> !marker_at(s@, j),
        decreases n - i,
    {
        proof {
            reveal_strlit(".gif");
        }
        if s.get_char(i) == '.' && s.get_char(i + 1) == 'g' && s.get_char(i + 2) == 'i'
            && s.get_char(i + 3) == 'f' {
            proof {
                assert(s@.subrange(i as int, i as int + 4) =~= ".gif"@);
                lemma_first_marker_unique(s@, i as int);
            }
            return i;
        }
        proof {
            assert(!marker_at(s@, i as int)) by {
                if marker_at(s@, i as int) {
                    let sub = s@.subrange(i as int, i as int + 4);
                    assert(sub[0] == s@[i as int] && sub[1] == s@[i as int + 1] && sub[2] == s@[
                        i as int + 2
                    ] && sub[3] == s@[i as int + 3]);
                }
            }
        }
        i += 1;
    }
    proof {
        assert forall|j: int| 0 <= j < n implies !marker_at(s@, j) by {
            if j >= i {
                assert(j + 4 > n);
            }
        }
        lemma_first_marker_unique(s@, n as int);
    }
    n
}

/// Extracts the image-reference identifier from an inline style
/// attribute: the first run of ASCII digits followed by the fixed
/// file-extension marker.
pub fn parse_gif_id(attr: &str) -> (r: Option<u64>)
    ensures
        r == spec_gif_id(attr@),
{
    let n = attr.unicode_len();
    let st = find_first_digit(attr);
    let en = find_marker(attr);
    if st >= n || en >= n || st >= en {
        return None;
    }
    let ghost sub = attr@.subrange(st as int, en as int);
    let mut v: u64 = 0;
    let mut i: usize = st;
    while i < en
        invariant
            st <= i <= en,
            en <= n == attr@.len(),
            st < en,
            st == first_digit(attr@),
            en == first_marker(attr@),
            sub == attr@.subrange(st as int, en as int),
            all_digits(sub.take(i - st)),
            v == digits_value(sub.take(i - st)),
        decreases en - i,
    {
        let c = attr.get_char(i);
        let ghost pre = sub.take(i - st);
        proof {
            assert(sub[i - st] == attr@[i as int]);
            assert(sub.take(i - st + 1).drop_last() =~= pre);
            assert(sub.take(i - st + 1).last() == c);
        }
        if !('0' <= c && c <= '9') {
            // A stray non-digit between the run and the marker.
            assert(!all_digits(sub));
            return None;
        }
        let d: u64 = (c as u32 - '0' as u32) as u64;
        let v10 = match v.checked_mul(10) {
            Some(x) => x,
            None => {
                proof {
                    overflow_means_no_id(sub, i - st + 1);
                }
                return None;
            },
        };
        v = match v10.checked_add(d) {
            Some(x) => x,
            None => {
                proof {
                    overflow_means_no_id(sub, i - st + 1);
                }
                return None;
            },
        };
        i += 1;
    }
    proof {
        assert(sub.take(en - st) =~= sub);
    }
    Some(v)
}

/// A digit prefix already past `u64::MAX` rules the whole value out.
proof fn overflow_means_no_id(sub: Seq<char>, k: int)
    requires
        0 < k <= sub.len(),
        all_digits(sub.take(k).drop_last()),
        is_digit(sub[k - 1]),
        digits_value(sub.take(k)) > u64::MAX,
    ensures
        !(all_digits(sub) && digits_value(sub) <= u64::MAX),
{
    if all_digits(sub) {
        lemma_digits_value_take_le(sub, k);
    }
}

/// One atomic styled run within a line.
#[derive(Debug)]
pub struct Span {
    pub style: SpanStyle,
    pub content: String,
}

/// One display line: its spans in rendering order.
pub type Line = Vec<Span>;

/// One parsed page: its lines in document order.
pub type Page = Vec<Line>;

/// The frames a fetched page number resolves to, one page per subpage.
pub type PageSet = Vec<Page>;

/// The style a class string parses to, when it parses at all.
pub open spec fn spec_style_of(s: Seq<char>) -> Option<SpanStyle> {
    let fs = spec_fields(s);
    if fs.len() == 1 {
        match spec_bg_of(fs[0]) {
            Some(bg) => Some(SpanStyle { bg, fg: FgColour::White, mosaic: false }),
            None => None,
        }
    } else if fs.len() == 2 || (fs.len() == 3 && fs[2] == "bgImg"@) {
        match spec_bg_of(fs[0]) {
            Some(bg) => match spec_fg_of(fs[1]) {
                Some(fg) => Some(SpanStyle { bg, fg, mosaic: fs.len() == 3 }),
                None => None,
            },
            None => None,
        }
    } else {
        None
    }
}

/// The image-reference identifier a child's inline style attribute
/// yields: a failed or absent extraction falls back to the sentinel `0`.
pub open spec fn spec_child_gif_id(style_attr: Option<Seq<char>>) -> u64 {
    match style_attr {
        Some(a) => match spec_gif_id(a) {
            Some(v) => v,
            None => 0,
        },
        None => 0,
    }
}

/// The content of a span: a mosaic span draws the glyph its image
/// reference resolves to, any other span carries the element's text.
pub open spec fn spec_span_content(
    st: SpanStyle,
    style_attr: Option<Seq<char>>,
    text: Seq<char>,
) -> Seq<char> {
    if st.mosaic {
        seq![crate::mosaic::spec_glyph_for(spec_child_gif_id(style_attr))]
    } else {
        text
    }
}

/// What `span_from_child` returns for one child element's class
/// attribute, inline style attribute, and text.
pub open spec fn span_result_matches(
    class: Option<Seq<char>>,
    style_attr: Option<Seq<char>>,
    text: Seq<char>,
    r: Result<Span, Error>,
) -> bool {
    match class {
        None => r matches Err(e) && e == Error::MissingClass,
        Some(cls) => match spec_style_of(cls) {
            Some(st) => r matches Ok(sp) && sp.style == st && sp.content@ == spec_span_content(
                st,
                style_attr,
                text,
            ),
            None => r matches Err(e) && style_result_matches(cls, Err::<SpanStyle, Error>(e)),
        },
    }
}

/// Relies on `char::to_string` of std: the one-character string of `c`.
#[verifier::external_body]
fn char_to_string(c: char) -> (s: String)
    ensures
        s@ == seq![c],
{
    c.to_string()
}

/// Builds one span from a child element's attributes and text: a missing
/// class attribute is fatal; a mosaic style replaces the text by the
/// glyph its image reference resolves to.
pub fn span_from_child(class: &Option<String>, style_attr: &Option<String>, text: &String) -> (r:
    Result<Span, Error>)
    ensures
        span_result_matches(opt_view(*class), opt_view(*style_attr), text@, r),
{
    let cls = match class {
        Some(c) => c,
        None => {
            return Err(Error::MissingClass);
        },
    };
    let style = match SpanStyle::from_str(cls.as_str()) {
        Ok(st) => st,
        Err(e) => {
            return Err(e);
        },
    };
    let content = if style.mosaic {
        let id = match style_attr {
            Some(a) => match parse_gif_id(a.as_str()) {
                Some(v) => v,
                None => 0,
            },
            None => 0,
        };
        char_to_string(crate::mosaic::MosaicTable::glyph_for(id))
    } else {
        text.clone()
    };
    Ok(Span { style, content })
}

/// Whether `e` is an error the page parser can report.
pub open spec fn is_page_error(e: Error) -> bool {
    ||| e matches Error::InvalidMarkup
    ||| e matches Error::MissingClass
    ||| e matches Error::MalformedClass(_)
    ||| e matches Error::UnknownBackground(_)
    ||| e matches Error::UnknownForeground(_)
}

/// The selector that picks the display-line elements: those whose class
/// attribute contains the token "line" (variants like "line toprow" and
/// "line DH" all match).
pub open spec fn spec_line_selector() -> Seq<char> {
    "span[class*=\"line\"]"@
}

/// The extracted child data of a markup fragment under the fixed line
/// selector.
pub open spec fn spec_line_children(html: Seq<char>) -> Seq<
    Seq<(Option<Seq<char>>, Option<Seq<char>>, Seq<char>)>,
> {
    line_children_of(html, spec_line_selector())
}

/// Whether one extracted child carries a class attribute that the grammar
/// accepts.
pub open spec fn child_ok(t: (Option<Seq<char>>, Option<Seq<char>>, Seq<char>)) -> bool {
    t.0 matches Some(cls) && spec_style_of(cls) is Some
}

/// Whether every extracted child of the model carries an acceptable
/// class attribute.
pub open spec fn all_children_parse(
    m: Seq<Seq<(Option<Seq<char>>, Option<Seq<char>>, Seq<char>)>>,
) -> bool {
    forall|i: int, j: int|
        0 <= i < m.len() && 0 <= j < m[i].len() ==> child_ok(#[trigger] m[i][j])
}

/// Whether the whole fragment parses: the fixed selector compiles and
/// every child of every line element carries an acceptable class.
pub open spec fn fragment_parses(html: Seq<char>) -> bool {
    selector_ok(spec_line_selector()) && all_children_parse(spec_line_children(html))
}

/// Whether `page` is exactly the parse of the extracted model: one line
/// per line element, one span per child, in document order, each span
/// fixed by its child's attribute data.
pub open spec fn page_matches(
    m: Seq<Seq<(Option<Seq<char>>, Option<Seq<char>>, Seq<char>)>>,
    page: Seq<Line>,
) -> bool {
    &&& page.len() == m.len()
    &&& forall|i: int| 0 <= i < m.len() ==> (#[trigger] page[i])@.len() == m[i].len()
    &&& forall|i: int, j: int|
        0 <= i < m.len() && 0 <= j < m[i].len() ==> span_result_matches(
            (#[trigger] m[i][j]).0,
            m[i][j].1,
            m[i][j].2,
            Ok::<Span, Error>(page[i]@[j]),
        )
}

/// What `parse` returns on a fragment with characters `html`: the page
/// that mirrors the extracted line/child model exactly when everything
/// parses; the selector-compile error as a distinct defensive case; a
/// grammar or missing-class error otherwise.
pub open spec fn parse_result_matches(html: Seq<char>, r: Result<Page, Error>) -> bool {
    &&& (r is Ok <==> fragment_parses(html))
    &&& (r matches Ok(page) ==> page_matches(spec_line_children(html), page@))
    &&& (!selector_ok(spec_line_selector()) ==> (r matches Err(e) && e
        == Error::InvalidMarkup))
    &&& (r matches Err(e) ==> is_page_error(e) && (selector_ok(spec_line_selector()) ==> !(
    e matches Error::InvalidMarkup)))
}

/// Builds one line from one extracted row, or fails on the first child
/// whose class attribute is missing or malformed.
fn line_from_row(row: &Vec<(Option<String>, Option<String>, String)>) -> (r: Result<Line, Error>)
    ensures
        r is Ok <==> (forall|j: int|
            0 <= j < row@.len() ==> child_ok(child_view(#[trigger] row@[j]))),
        r matches Ok(line) ==> line@.len() == row@.len() && (forall|j: int|
            0 <= j < row@.len() ==> span_result_matches(
                child_view(#[trigger] row@[j]).0,
                child_view(row@[j]).1,
                child_view(row@[j]).2,
                Ok::<Span, Error>(line@[j]),
            )),
        r matches Err(e) ==> is_page_error(e) && !(e matches Error::InvalidMarkup),
{
    let mut line: Line = Vec::new();
    let mut j: usize = 0;
    while j < row.len()
        invariant
            j <= row@.len(),
            line@.len() == j,
            forall|k: int| 0 <= k < j ==> child_ok(child_view(#[trigger] row@[k])),
            forall|k: int|
                0 <= k < j ==> span_result_matches(
                    child_view(#[trigger] row@[k]).0,
                    child_view(row@[k]).1,
                    child_view(row@[k]).2,
                    Ok::<Span, Error>(line@[k]),
                ),
        decreases row@.len() - j,
    {
        let child = &row[j];
        match span_from_child(&child.0, &child.1, &child.2) {
            Ok(sp) => {
                line.push(sp);
            },
            Err(e) => {
                proof {
                    assert(!child_ok(child_view(row@[j as int])));
                }
                return Err(e);
            },
        }
        j += 1;
    }
    Ok(line)
}

/// Parses one markup fragment to a page: every element whose class
/// contains the token "line" becomes a line, in document order, and each
/// of its direct element children becomes a span. Any failure aborts the
/// whole parse; partial pages are never returned.
pub fn parse(html: &str) -> (r: Result<Page, Error>)
    ensures
        parse_result_matches(html@, r),
{
    let model = match crate::dom::select_line_children(html, "span[class*=\"line\"]") {
        Some(v) => v,
        None => {
            return Err(Error::InvalidMarkup);
        },
    };
    let ghost m = spec_line_children(html@);
    let mut page: Page = Vec::new();
    let mut i: usize = 0;
    while i < model.len()
        invariant
            selector_ok(spec_line_selector()),
            m == spec_line_children(html@),
            rows_match(model@, m),
            i <= model@.len(),
            page@.len() == i,
            forall|k: int| 0 <= k < i ==> (#[trigger] page@[k])@.len() == m[k].len(),
            forall|k: int, j: int|
                0 <= k < i && 0 <= j < m[k].len() ==> span_result_matches(
                    (#[trigger] m[k][j]).0,
                    m[k][j].1,
                    m[k][j].2,
                    Ok::<Span, Error>(page@[k]@[j]),
                ),
            forall|k: int, j: int|
                0 <= k < i && 0 <= j < m[k].len() ==> child_ok(#[trigger] m[k][j]),
        decreases model@.len() - i,
    {
        let ghost mrow = m[i as int];
        proof {
            assert(row_matches(model@[i as int]@, mrow));
        }
        match line_from_row(&model[i]) {
            Ok(line) => {
                proof {
                    assert forall|j: int| 0 <= j < mrow.len() implies child_ok(
                        #[trigger] mrow[j],
                    ) && span_result_matches(
                        mrow[j].0,
                        mrow[j].1,
                        mrow[j].2,
                        Ok::<Span, Error>(line@[j]),
                    ) by {
                        assert(child_view(model@[i as int]@[j]) == mrow[j]);
                    }
                }
                page.push(line);
            },
            Err(e) => {
                proof {
                    let row = model@[i as int]@;
                    assert(!(forall|j: int|
                        0 <= j < row.len() ==> child_ok(child_view(#[trigger] row[j]))));
                    let j0 = choose|j0: int|
                        0 <= j0 < row.len() && !child_ok(child_view(row[j0]));
                    assert(child_view(row[j0]) == m[i as int][j0]);
                    assert(!child_ok(m[i as int][j0]));
                    assert(!all_children_parse(m));
                }
                return Err(e);
            },
        }
        i += 1;
    }
    Ok(page)
}

/// Whether `s` holds no space, that is, splits into one single field.
pub open spec fn space_free(s: Seq<char>) -> bool {
    forall|j: int| 0 <= j < s.len() ==> s[j] != ' '
}

/// A space-free string is one single field.
proof fn lemma_single_field(s: Seq<char>)
    requires
        space_free(s),
    ensures
        spec_fields(s) == seq![s],
{
    lemma_first_space_unique(s, s.len() as int);
}

/// Splitting takes the space-free prefix as the first field and splits
/// the remainder on its own.
proof fn lemma_split_at_space(f0: Seq<char>, rest: Seq<char>)
    requires
        space_free(f0),
    ensures
        spec_fields(f0 + seq![' '] + rest) == seq![f0].add(spec_fields(rest)),
{
    let s = f0 + seq![' '] + rest;
    assert forall|j: int| 0 <= j < f0.len() implies s[j] != ' ' by {
        assert(s[j] == f0[j]);
    }
    assert(s[f0.len() as int] == ' ');
    lemma_first_space_unique(s, f0.len() as int);
    assert(s.take(f0.len() as int) =~= f0);
    assert(s.skip(f0.len() as int + 1) =~= rest);
}

/// No code in the background table holds a space.
proof fn lemma_bg_code_space_free(s: Seq<char>)
    requires
        spec_bg_of(s) is Some,
    ensures
        space_free(s),
{
    reveal_strlit("bgB");
    reveal_strlit("bgBl");
    reveal_strlit("bgC");
    reveal_strlit("bgG");
    reveal_strlit("bgM");
    reveal_strlit("bgR");
    reveal_strlit("bgW");
    reveal_strlit("bgY");
}

/// No code in the foreground table holds a space.
proof fn lemma_fg_code_space_free(s: Seq<char>)
    requires
        spec_fg_of(s) is Some,
    ensures
        space_free(s),
{
    reveal_strlit("bl");
    reveal_strlit("B");
    reveal_strlit("C");
    reveal_strlit("G");
    reveal_strlit("M");
    reveal_strlit("R");
    reveal_strlit("W");
    reveal_strlit("Y");
}

/// A class string that is one valid background field parses to that
/// background, a white foreground, and no mosaic.
pub proof fn lemma_one_field_style(s: Seq<char>, bg: BgColour)
    requires
        spec_bg_of(s) == Some(bg),
    ensures
        spec_style_of(s) == Some(SpanStyle { bg, fg: FgColour::White, mosaic: false }),
{
    lemma_bg_code_space_free(s);
    lemma_single_field(s);
}

/// A class string of one valid background field and one valid foreground
/// field parses to those colours, and never to a mosaic.
pub proof fn lemma_two_field_style(f0: Seq<char>, f1: Seq<char>, bg: BgColour, fg: FgColour)
    requires
        spec_bg_of(f0) == Some(bg),
        spec_fg_of(f1) == Some(fg),
    ensures
        spec_style_of(f0 + seq![' '] + f1) == Some(SpanStyle { bg, fg, mosaic: false }),
{
    lemma_bg_code_space_free(f0);
    lemma_fg_code_space_free(f1);
    lemma_split_at_space(f0, f1);
    lemma_single_field(f1);
}

/// A class string of two valid colour fields followed by the image
/// sentinel parses to those colours with the mosaic flag set.
pub proof fn lemma_sentinel_style(f0: Seq<char>, f1: Seq<char>, bg: BgColour, fg: FgColour)
    requires
        spec_bg_of(f0) == Some(bg),
        spec_fg_of(f1) == Some(fg),
    ensures
        spec_style_of(f0 + seq![' '] + f1 + seq![' '] + "bgImg"@) == Some(
            SpanStyle { bg, fg, mosaic: true },
        ),
{
    let sentinel = "bgImg"@;
    let s = f0 + seq![' '] + f1 + seq![' '] + sentinel;
    lemma_bg_code_space_free(f0);
    lemma_fg_code_space_free(f1);
    reveal_strlit("bgImg");
    assert(space_free(sentinel));
    assert(s =~= f0 + seq![' '] + (f1 + seq![' '] + sentinel));
    lemma_split_at_space(f0, f1 + seq![' '] + sentinel);
    lemma_split_at_space(f1, sentinel);
    lemma_single_field(sentinel);
    assert(spec_fields(s) == seq![f0, f1, sentinel]) by {
        assert(seq![f0].add(seq![f1].add(seq![sentinel])) =~= seq![f0, f1, sentinel]);
    }
}

/// A sentinel-terminated class string still demands valid colour fields:
/// with either field outside its table, the parse fails.
pub proof fn lemma_sentinel_needs_valid_fields(f0: Seq<char>, f1: Seq<char>)
    requires
        space_free(f0),
        space_free(f1),
        spec_bg_of(f0) is None || spec_fg_of(f1) is None,
    ensures
        spec_style_of(f0 + seq![' '] + f1 + seq![' '] + "bgImg"@) is None,
{
    let sentinel = "bgImg"@;
    let s = f0 + seq![' '] + f1 + seq![' '] + sentinel;
    reveal_strlit("bgImg");
    assert(space_free(sentinel));
    assert(s =~= f0 + seq![' '] + (f1 + seq![' '] + sentinel));
    lemma_split_at_space(f0, f1 + seq![' '] + sentinel);
    lemma_split_at_space(f1, sentinel);
    lemma_single_field(sentinel);
    assert(spec_fields(s) == seq![f0, f1, sentinel]) by {
        assert(seq![f0].add(seq![f1].add(seq![sentinel])) =~= seq![f0, f1, sentinel]);
    }
}

/// Whether two errors report the same failure: the same variant carrying
/// the same characters.
pub open spec fn err_equiv(a: Error, b: Error) -> bool {
    match (a, b) {
        (Error::InvalidPageNumber(x), Error::InvalidPageNumber(y)) => x == y,
        (Error::MalformedClass(x), Error::MalformedClass(y)) => x@ == y@,
        (Error::UnknownBackground(x), Error::UnknownBackground(y)) => x@ == y@,
        (Error::UnknownForeground(x), Error::UnknownForeground(y)) => x@ == y@,
        (Error::MissingClass, Error::MissingClass) => true,
        (Error::InvalidMarkup, Error::InvalidMarkup) => true,
        (Error::MalformedInput, Error::MalformedInput) => true,
        _ => false,
    }
}

/// The class-string parser is total — it has no precondition — and
/// deterministic: one input admits one result, up to the identity of the
/// strings an error carries.
pub proof fn lemma_style_parser_deterministic(
    s: Seq<char>,
    r1: Result<SpanStyle, Error>,
    r2: Result<SpanStyle, Error>,
)
    requires
        style_result_matches(s, r1),
        style_result_matches(s, r2),
    ensures
        r1 is Ok <==> r2 is Ok,
        r1 matches Ok(a) ==> r2 == Ok::<SpanStyle, Error>(a),
        r1 is Err && r2 is Err ==> err_equiv(r1->Err_0, r2->Err_0),
{
}

/// Whether two pages render the same: line for line, span for span, the
/// same style and the same characters.
pub open spec fn pages_equiv(a: Seq<Line>, b: Seq<Line>) -> bool {
    &&& a.len() == b.len()
    &&& forall|i: int| 0 <= i < a.len() ==> (#[trigger] a[i])@.len() == b[i]@.len()
    &&& forall|i: int, j: int|
        0 <= i < a.len() && 0 <= j < a[i]@.len() ==> ((#[trigger] a[i]@[j]).style
            == b[i]@[j].style && a[i]@[j].content@ == b[i]@[j].content@)
}

/// The page parser is a pure, deterministic function of the fragment
/// text: two parses of one fragment succeed together, and then render the
/// same page.
pub proof fn lemma_parse_deterministic(
    html: Seq<char>,
    r1: Result<Page, Error>,
    r2: Result<Page, Error>,
)
    requires
        parse_result_matches(html, r1),
        parse_result_matches(html, r2),
    ensures
        r1 is Ok <==> r2 is Ok,
        r1 is Ok && r2 is Ok ==> pages_equiv(r1->Ok_0@, r2->Ok_0@),
{
    if r1 is Ok && r2 is Ok {
        let p1 = r1->Ok_0@;
        let p2 = r2->Ok_0@;
        let m = spec_line_children(html);
        assert forall|i: int, j: int|
            0 <= i < p1.len() && 0 <= j < p1[i]@.len() implies ((#[trigger] p1[i]@[j]).style
            == p2[i]@[j].style && p1[i]@[j].content@ == p2[i]@[j].content@) by {
            assert(span_result_matches(
                (#[trigger] m[i][j]).0,
                m[i][j].1,
                m[i][j].2,
                Ok::<Span, Error>(p1[i]@[j]),
            ));
            assert(span_result_matches(m[i][j].0, m[i][j].1, m[i][j].2, Ok::<Span, Error>(
                p2[i]@[j],
            )));
        }
    }
}

/// Parses every fragment of a fetched envelope's content list; one page
/// per fragment, in order, or the first failure.
pub fn build_page_set(contents: &Vec<String>) -> (r: Result<PageSet, Error>)
    ensures
        r is Ok <==> (forall|k: int|
            0 <= k < contents@.len() ==> fragment_parses((#[trigger] contents@[k])@)),
        r matches Ok(ps) ==> ps@.len() == contents@.len() && (forall|k: int|
            0 <= k < contents@.len() ==> page_matches(
                spec_line_children((#[trigger] contents@[k])@),
                ps@[k]@,
            )),
        r matches Err(e) ==> is_page_error(e),
{
    let mut out: PageSet = Vec::new();
    let mut i: usize = 0;
    while i < contents.len()
        invariant
            i <= contents@.len(),
            out@.len() == i,
            forall|k: int| 0 <= k < i ==> fragment_parses((#[trigger] contents@[k])@),
            forall|k: int|
                0 <= k < i ==> page_matches(
                    spec_line_children((#[trigger] contents@[k])@),
                    out@[k]@,
                ),
        decreases contents.len() - i,
    {
        match parse(contents[i].as_str()) {
            Ok(p) => out.push(p),
            Err(e) => {
                proof {
                    assert(!fragment_parses(contents@[i as int]@));
                }
                return Err(e);
            },
        }
        i += 1;
    }
    Ok(out)
}

} // verus!
