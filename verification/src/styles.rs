//! Recognising Word styles and fonts: headings, code paragraphs, code
//! character styles and monospace font families.
use vstd::prelude::*;

use crate::text::{
    char_to_lowercase, chars_eq_str, chars_of, contains, contains_str, is_alphanumeric,
    is_ascii_digit, parse_u8, parse_unsigned, push_chars, slice_chars, string_of, to_lowercase,
    trim, trim_chars, unicode_char_lowercase, unicode_is_alphanumeric, unicode_lowercase,
};

verus! {

// ---------------------------------------------------------------------------
// Style names
// ---------------------------------------------------------------------------

/// A style id stripped of separators and case: its alphanumeric characters,
/// each lowercased.
pub open spec fn normalized_style(s: Seq<char>) -> Seq<char>
    decreases s.len(),
{
    if s.len() == 0 {
        seq![]
    } else {
        normalized_style(s.drop_last()) + if unicode_is_alphanumeric(s.last()) {
            unicode_char_lowercase(s.last())
        } else {
            seq![]
        }
    }
}

/// Every character of `x` is alphanumeric and its own lowercase.
pub open spec fn settled(x: Seq<char>) -> bool {
    forall|i: int|
        0 <= i < x.len() ==> unicode_is_alphanumeric(#[trigger] x[i])
            && unicode_char_lowercase(x[i]) == seq![x[i]]
}

proof fn lemma_normalized_concat(a: Seq<char>, b: Seq<char>)
    ensures
        normalized_style(a + b) == normalized_style(a) + normalized_style(b),
    decreases b.len(),
{
    if b.len() == 0 {
        assert(a + b =~= a);
        assert(normalized_style(a) + normalized_style(b) =~= normalized_style(a));
    } else {
        assert((a + b).drop_last() =~= a + b.drop_last());
        assert((a + b).last() == b.last());
        lemma_normalized_concat(a, b.drop_last());
        let tail = if unicode_is_alphanumeric(b.last()) {
            unicode_char_lowercase(b.last())
        } else {
            seq![]
        };
        assert(normalized_style(a) + normalized_style(b.drop_last()) + tail =~= normalized_style(a)
            + (normalized_style(b.drop_last()) + tail));
    }
}

proof fn lemma_settled_normalized(x: Seq<char>)
    requires
        settled(x),
    ensures
        normalized_style(x) == x,
    decreases x.len(),
{
    if x.len() > 0 {
        assert(settled(x.drop_last())) by {
            assert forall|i: int| 0 <= i < x.drop_last().len() implies unicode_is_alphanumeric(
                #[trigger] x.drop_last()[i],
            ) && unicode_char_lowercase(x.drop_last()[i]) == seq![x.drop_last()[i]] by {
                assert(x.drop_last()[i] == x[i]);
            }
        }
        lemma_settled_normalized(x.drop_last());
        assert(unicode_is_alphanumeric(x[x.len() - 1]));
        assert(x.drop_last() + seq![x.last()] =~= x);
    }
}

/// Normalising a style name twice changes nothing, wherever the lowercase of
/// each of its alphanumeric characters is made of alphanumeric characters
/// that are their own lowercase (as for ASCII letters and digits, which std
/// lowercases to `a`-`z` and leaves alone).
pub proof fn law_normalizing_twice_changes_nothing(s: Seq<char>)
    requires
        forall|i: int|
            0 <= i < s.len() && unicode_is_alphanumeric(#[trigger] s[i]) ==> settled(
                unicode_char_lowercase(s[i]),
            ),
    ensures
        normalized_style(normalized_style(s)) == normalized_style(s),
    decreases s.len(),
{
    if s.len() > 0 {
        let rest = s.drop_last();
        assert forall|i: int|
            0 <= i < rest.len() && unicode_is_alphanumeric(#[trigger] rest[i]) implies settled(
            unicode_char_lowercase(rest[i]),
        ) by {
            assert(rest[i] == s[i]);
        }
        law_normalizing_twice_changes_nothing(rest);
        let tail = if unicode_is_alphanumeric(s.last()) {
            unicode_char_lowercase(s.last())
        } else {
            seq![]
        };
        if unicode_is_alphanumeric(s.last()) {
            assert(unicode_is_alphanumeric(s[s.len() - 1]));
            lemma_settled_normalized(tail);
        } else {
            assert(normalized_style(tail) == Seq::<char>::empty());
        }
        lemma_normalized_concat(normalized_style(rest), tail);
    }
}

/// Strip separators and case from a Word style id so "HTML Preformatted",
/// "htmlpreformatted" and "Source-Code" can all be matched the same way.
pub fn normalize_style(style: &str) -> (r: String)
    ensures
        r@ == normalized_style(style@),
{
    let s = chars_of(style);
    let mut out: Vec<char> = Vec::new();
    let mut i: usize = 0;
    while i < s.len()
        invariant
            i <= s.len(),
            out@ == normalized_style(s@.take(i as int)),
        decreases s.len() - i,
    {
        assert(s@.take(i + 1).drop_last() == s@.take(i as int));
        let c = s[i];
        if is_alphanumeric(c) {
            let lower = char_to_lowercase(c);
            push_chars(&mut out, &lower);
        } else {
            assert(out@ + seq![] == out@);
        }
        i += 1;
    }
    assert(s@.take(s.len() as int) == s@);
    string_of(&out)
}

/// Normalised names of the paragraph styles that mean "preformatted text" in
/// Word and common exporters.
pub open spec fn pre_style_name(n: Seq<char>) -> bool {
    ||| n == "pre"@
    ||| n == "preformatted"@
    ||| n == "htmlpreformatted"@
    ||| n == "htmlpre"@
    ||| n == "code"@
    ||| n == "codeblock"@
    ||| n == "sourcecode"@
    ||| n == "macro"@
    ||| n == "macrotext"@
    ||| n == "plaintext"@
}

/// Normalised names of the character styles that mark inline or block code.
pub open spec fn mono_style_name(n: Seq<char>) -> bool {
    ||| pre_style_name(n)
    ||| n == "htmlcode"@
    ||| n == "verbatim"@
    ||| n == "verbatimchar"@
    ||| n == "codephrase"@
    ||| n == "inlinecode"@
}

/// Every preformatted paragraph style also marks code as a character style.
pub proof fn law_pre_styles_are_code_styles(style: Seq<char>)
    ensures
        pre_style_name(normalized_style(style)) ==> mono_style_name(normalized_style(style)),
{
}

/// Whether a normalised style name is a preformatted/code paragraph style.
pub fn is_pre_style_name(name: &str) -> (r: bool)
    ensures
        r == pre_style_name(name@),
{
    let n = chars_of(name);
    chars_eq_str(&n, "pre") || chars_eq_str(&n, "preformatted") || chars_eq_str(
        &n,
        "htmlpreformatted",
    ) || chars_eq_str(&n, "htmlpre") || chars_eq_str(&n, "code") || chars_eq_str(
        &n,
        "codeblock",
    ) || chars_eq_str(&n, "sourcecode") || chars_eq_str(&n, "macro") || chars_eq_str(
        &n,
        "macrotext",
    ) || chars_eq_str(&n, "plaintext")
}

/// Whether a normalised style name is a code character style.
pub fn is_mono_style_name(name: &str) -> (r: bool)
    ensures
        r == mono_style_name(name@),
{
    let n = chars_of(name);
    is_pre_style_name(name) || chars_eq_str(&n, "htmlcode") || chars_eq_str(&n, "verbatim")
        || chars_eq_str(&n, "verbatimchar") || chars_eq_str(&n, "codephrase") || chars_eq_str(
        &n,
        "inlinecode",
    )
}

/// Paragraph styles that mean "preformatted text" in Word and common
/// exporters.
pub fn is_pre_style(style: &str) -> (r: bool)
    ensures
        r == pre_style_name(normalized_style(style@)),
{
    let n = normalize_style(style);
    is_pre_style_name(n.as_str())
}

/// Character styles that mark inline or block code.
pub fn is_mono_style(style: &str) -> (r: bool)
    ensures
        r == mono_style_name(normalized_style(style@)),
{
    let n = normalize_style(style);
    is_mono_style_name(n.as_str())
}

// ---------------------------------------------------------------------------
// Fonts
// ---------------------------------------------------------------------------

/// Whether a trimmed, lowercased font family names a monospace font: it
/// holds one of the giveaway words, or is one of a few names without one.
pub open spec fn mono_font_name(n: Seq<char>) -> bool {
    ||| contains(n, "mono"@)
    ||| contains(n, "courier"@)
    ||| contains(n, "consolas"@)
    ||| contains(n, "menlo"@)
    ||| contains(n, "monaco"@)
    ||| contains(n, "console"@)
    ||| contains(n, "typewriter"@)
    ||| contains(n, "fixed"@)
    ||| contains(n, "terminal"@)
    ||| contains(n, "inconsolata"@)
    ||| contains(n, "cascadia"@)
    ||| contains(n, "andale"@)
    ||| n == "fira code"@
    ||| n == "source code pro"@
    ||| n == "anonymous pro"@
    ||| n == "iosevka"@
    ||| n == "input"@
    ||| n == "hack"@
    ||| n == "m+ 1m"@
}

/// Whether a trimmed, lowercased font family names a monospace font.
pub fn is_mono_font_name(name: &str) -> (r: bool)
    ensures
        r == mono_font_name(name@),
{
    let n = chars_of(name);
    contains_str(&n, "mono") || contains_str(&n, "courier") || contains_str(&n, "consolas")
        || contains_str(&n, "menlo") || contains_str(&n, "monaco") || contains_str(&n, "console")
        || contains_str(&n, "typewriter") || contains_str(&n, "fixed") || contains_str(
        &n,
        "terminal",
    ) || contains_str(&n, "inconsolata") || contains_str(&n, "cascadia") || contains_str(
        &n,
        "andale",
    ) || chars_eq_str(&n, "fira code") || chars_eq_str(&n, "source code pro") || chars_eq_str(
        &n,
        "anonymous pro",
    ) || chars_eq_str(&n, "iosevka") || chars_eq_str(&n, "input") || chars_eq_str(&n, "hack")
        || chars_eq_str(&n, "m+ 1m")
}

/// Heuristic: does a Word font name denote a monospace family? Word stores
/// the family as free text ("Consolas", "Courier New", "JetBrains Mono"), so
/// names are matched by substring plus a few exact names that lack a giveaway
/// word.
pub fn is_mono_font(name: &str) -> (r: bool)
    ensures
        r == mono_font_name(unicode_lowercase(trim(name@))),
{
    let lowered = to_lowercase(&trim_chars(&chars_of(name)));
    is_mono_font_name(string_of(&lowered).as_str())
}

// ---------------------------------------------------------------------------
// Headings
// ---------------------------------------------------------------------------

/// `s` without its trailing ASCII digits.
pub open spec fn without_trailing_digits(s: Seq<char>) -> Seq<char>
    decreases s.len(),
{
    if s.len() > 0 && is_ascii_digit(s.last()) {
        without_trailing_digits(s.drop_last())
    } else {
        s
    }
}

pub open spec fn is_separator(c: char) -> bool {
    c == ' ' || c == '-' || c == '_'
}

/// `s` without its trailing spaces, hyphens and underscores.
pub open spec fn without_trailing_separators(s: Seq<char>) -> Seq<char>
    decreases s.len(),
{
    if s.len() > 0 && is_separator(s.last()) {
        without_trailing_separators(s.drop_last())
    } else {
        s
    }
}

/// The heading level that a trimmed, lowercased style id names: "heading"
/// or "h", optional separators, then a number that fits a byte, capped at 6;
/// 0 for any other style.
pub open spec fn heading_of(s: Seq<char>) -> u8 {
    let name = without_trailing_digits(s);
    let digits = s.skip(name.len() as int);
    let base = without_trailing_separators(name);
    if (base == "heading"@ || base == "h"@) && parse_unsigned(digits, 10, 255) is Some {
        let level = parse_unsigned(digits, 10, 255).unwrap();
        if level < 6 {
            level as u8
        } else {
            6
        }
    } else {
        0
    }
}

/// Every character of `s` is a separator.
pub open spec fn all_separators(s: Seq<char>) -> bool {
    forall|i: int| 0 <= i < s.len() ==> is_separator(#[trigger] s[i])
}

/// Every character of `s` is an ASCII digit.
pub open spec fn all_ascii_digits(s: Seq<char>) -> bool {
    forall|i: int| 0 <= i < s.len() ==> is_ascii_digit(#[trigger] s[i])
}

/// `s` spells a heading: "heading" or "h", then separators, then digits.
pub open spec fn heading_form(s: Seq<char>, p: Seq<char>, sep: Seq<char>, d: Seq<char>) -> bool {
    &&& s == p + sep + d
    &&& (p == "heading"@ || p == "h"@)
    &&& all_separators(sep)
    &&& d.len() > 0
    &&& all_ascii_digits(d)
}

proof fn lemma_digits_stripped(x: Seq<char>)
    ensures
        without_trailing_digits(x).len() <= x.len(),
        x.take(without_trailing_digits(x).len() as int) == without_trailing_digits(x),
        all_ascii_digits(x.skip(without_trailing_digits(x).len() as int)),
    decreases x.len(),
{
    if x.len() > 0 && is_ascii_digit(x.last()) {
        lemma_digits_stripped(x.drop_last());
        let w = without_trailing_digits(x);
        assert(x.take(w.len() as int) =~= x.drop_last().take(w.len() as int));
        assert forall|i: int| 0 <= i < x.skip(w.len() as int).len() implies is_ascii_digit(
            #[trigger] x.skip(w.len() as int)[i],
        ) by {
            if w.len() + i < x.len() - 1 {
                assert(x.skip(w.len() as int)[i] == x.drop_last().skip(w.len() as int)[i]);
            }
        }
    } else {
        assert(x.take(x.len() as int) =~= x);
    }
}

proof fn lemma_separators_stripped(x: Seq<char>)
    ensures
        without_trailing_separators(x).len() <= x.len(),
        x.take(without_trailing_separators(x).len() as int) == without_trailing_separators(x),
        all_separators(x.skip(without_trailing_separators(x).len() as int)),
    decreases x.len(),
{
    if x.len() > 0 && is_separator(x.last()) {
        lemma_separators_stripped(x.drop_last());
        let w = without_trailing_separators(x);
        assert(x.take(w.len() as int) =~= x.drop_last().take(w.len() as int));
        assert forall|i: int| 0 <= i < x.skip(w.len() as int).len() implies is_separator(
            #[trigger] x.skip(w.len() as int)[i],
        ) by {
            if w.len() + i < x.len() - 1 {
                assert(x.skip(w.len() as int)[i] == x.drop_last().skip(w.len() as int)[i]);
            }
        }
    } else {
        assert(x.take(x.len() as int) =~= x);
    }
}

proof fn lemma_digits_after(x: Seq<char>, d: Seq<char>)
    requires
        all_ascii_digits(d),
    ensures
        without_trailing_digits(x + d) == without_trailing_digits(x),
    decreases d.len(),
{
    if d.len() == 0 {
        assert(x + d =~= x);
    } else {
        assert((x + d).drop_last() =~= x + d.drop_last());
        assert((x + d).last() == d.last());
        assert(is_ascii_digit(d[d.len() - 1]));
        assert(all_ascii_digits(d.drop_last())) by {
            assert forall|i: int| 0 <= i < d.drop_last().len() implies is_ascii_digit(
                #[trigger] d.drop_last()[i],
            ) by {
                assert(d.drop_last()[i] == d[i]);
            }
        }
        lemma_digits_after(x, d.drop_last());
    }
}

proof fn lemma_separators_after(x: Seq<char>, sep: Seq<char>)
    requires
        all_separators(sep),
    ensures
        without_trailing_separators(x + sep) == without_trailing_separators(x),
    decreases sep.len(),
{
    if sep.len() == 0 {
        assert(x + sep =~= x);
    } else {
        assert((x + sep).drop_last() =~= x + sep.drop_last());
        assert((x + sep).last() == sep.last());
        assert(is_separator(sep[sep.len() - 1]));
        assert(all_separators(sep.drop_last())) by {
            assert forall|i: int| 0 <= i < sep.drop_last().len() implies is_separator(
                #[trigger] sep.drop_last()[i],
            ) by {
                assert(sep.drop_last()[i] == sep[i]);
            }
        }
        lemma_separators_after(x, sep.drop_last());
    }
}

/// Which style names are headings: a trimmed, lowercased style id gives a
/// level of 1 or more exactly when it is "heading" or "h", then separators
/// (spaces, hyphens, underscores), then ASCII digits whose number fits a byte
/// and is at least 1; the level is that number, capped at 6.
pub proof fn law_heading_names(s: Seq<char>, p: Seq<char>, sep: Seq<char>, d: Seq<char>)
    ensures
        heading_form(s, p, sep, d) ==> heading_of(s) == match parse_unsigned(d, 10, 255) {
            Some(n) => if n < 6 {
                n as u8
            } else {
                6u8
            },
            None => 0u8,
        },
        heading_of(s) >= 1 ==> {
            let name = without_trailing_digits(s);
            let base = without_trailing_separators(name);
            &&& heading_form(s, base, name.skip(base.len() as int), s.skip(name.len() as int))
            &&& parse_unsigned(s.skip(name.len() as int), 10, 255) matches Some(n) && n >= 1
        },
{
    reveal_strlit("heading");
    reveal_strlit("h");
    if heading_form(s, p, sep, d) {
        let ps = p + sep;
        assert(s == ps + d);
        lemma_digits_after(ps, d);
        assert(!is_ascii_digit(p.last()));
        if sep.len() > 0 {
            assert(is_separator(sep[sep.len() - 1]));
            assert(ps.last() == sep.last());
        } else {
            assert(ps =~= p);
        }
        assert(without_trailing_digits(ps) == ps);
        assert(s.skip(ps.len() as int) =~= d);
        lemma_separators_after(p, sep);
        assert(!is_separator(p.last()));
        assert(without_trailing_separators(p) == p);
    }
    if heading_of(s) >= 1 {
        let name = without_trailing_digits(s);
        let base = without_trailing_separators(name);
        lemma_digits_stripped(s);
        lemma_separators_stripped(name);
        let sep2 = name.skip(base.len() as int);
        let d2 = s.skip(name.len() as int);
        assert(name =~= base + sep2);
        assert(s =~= name + d2);
        assert(d2.len() > 0) by {
            if d2.len() == 0 {
                assert(crate::text::unsigned_digits(d2).len() == 0);
            }
        }
    }
}

fn trailing_digits_start(s: &Vec<char>) -> (n: usize)
    ensures
        n <= s.len(),
        s@.take(n as int) == without_trailing_digits(s@),
{
    let mut n: usize = s.len();
    assert(s@.take(n as int) == s@);
    while n > 0 && '0' <= s[n - 1] && s[n - 1] <= '9'
        invariant
            n <= s.len(),
            without_trailing_digits(s@.take(n as int)) == without_trailing_digits(s@),
        decreases n,
    {
        assert(s@.take(n as int).drop_last() == s@.take(n - 1));
        n -= 1;
    }
    n
}

fn trailing_separators_start(s: &Vec<char>, end: usize) -> (n: usize)
    requires
        end <= s.len(),
    ensures
        n <= end,
        s@.take(n as int) == without_trailing_separators(s@.take(end as int)),
{
    let mut n: usize = end;
    while n > 0 && (s[n - 1] == ' ' || s[n - 1] == '-' || s[n - 1] == '_')
        invariant
            n <= end <= s.len(),
            without_trailing_separators(s@.take(n as int)) == without_trailing_separators(
                s@.take(end as int),
            ),
        decreases n,
    {
        assert(s@.take(n as int).drop_last() == s@.take(n - 1));
        n -= 1;
    }
    n
}

/// The heading level of a trimmed, lowercased style id.
pub fn heading_level_of(lowered: &str) -> (r: u8)
    ensures
        r == heading_of(lowered@),
{
    let s = chars_of(lowered);
    let name_end = trailing_digits_start(&s);
    let digits = slice_chars(&s, name_end, s.len());
    let base_end = trailing_separators_start(&s, name_end);
    let base = slice_chars(&s, 0, base_end);
    proof {
        assert(digits@ == s@.skip(name_end as int));
        assert(base@ == s@.take(base_end as int));
    }
    if chars_eq_str(&base, "heading") || chars_eq_str(&base, "h") {
        match parse_u8(&digits) {
            Some(level) => {
                if level < 6 {
                    level
                } else {
                    6
                }
            },
            None => 0,
        }
    } else {
        0
    }
}

/// "Heading1", "heading 2", "Heading-3" -> 1, 2, 3. Levels above 6 are 6;
/// any other style is 0.
pub fn heading_level(style: &str) -> (r: u8)
    ensures
        r == heading_of(unicode_lowercase(trim(style@))),
        r <= 6,
{
    let lowered = to_lowercase(&trim_chars(&chars_of(style)));
    heading_level_of(string_of(&lowered).as_str())
}

} // verus!
