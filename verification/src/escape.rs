//! Escaping of document text for HTML content and attributes.
use vstd::prelude::*;

use crate::text::{chars_of, push_str, replace_all, replace_exec, string_of};

verus! {

/// The HTML for one character of document text. `preserve_ws` keeps tabs
/// and newlines (for code); otherwise they become spaces.
pub open spec fn escape_char(c: char, preserve_ws: bool) -> Seq<char> {
    if c == '&' {
        "&amp;"@
    } else if c == '<' {
        "&lt;"@
    } else if c == '>' {
        "&gt;"@
    } else if c == '\u{2018}' || c == '\u{2019}' {
        seq!['\'']
    } else if c == '\u{201C}' || c == '\u{201D}' {
        seq!['"']
    } else if c == '\u{2013}' {
        "&ndash;"@
    } else if c == '\u{2014}' {
        "&mdash;"@
    } else if c == '\u{2026}' {
        "&hellip;"@
    } else if c == '\u{00A0}' {
        "&nbsp;"@
    } else if (c == '\n' || c == '\r' || c == '\t') && !preserve_ws {
        seq![' ']
    } else {
        seq![c]
    }
}

/// The HTML for document text: each character escaped in turn.
pub open spec fn escaped(s: Seq<char>, preserve_ws: bool) -> Seq<char>
    decreases s.len(),
{
    if s.len() == 0 {
        seq![]
    } else {
        escaped(s.drop_last(), preserve_ws) + escape_char(s.last(), preserve_ws)
    }
}

/// `c` does not occur in `s`.
pub open spec fn lacks(s: Seq<char>, c: char) -> bool {
    forall|i: int| 0 <= i < s.len() ==> s[i] != c
}

fn push_escaped(out: &mut Vec<char>, c: char, preserve_ws: bool)
    ensures
        final(out)@ == old(out)@ + escape_char(c, preserve_ws),
{
    if c == '&' {
        push_str(out, "&amp;");
    } else if c == '<' {
        push_str(out, "&lt;");
    } else if c == '>' {
        push_str(out, "&gt;");
    } else if c == '\u{2018}' || c == '\u{2019}' {
        out.push('\'');
    } else if c == '\u{201C}' || c == '\u{201D}' {
        out.push('"');
    } else if c == '\u{2013}' {
        push_str(out, "&ndash;");
    } else if c == '\u{2014}' {
        push_str(out, "&mdash;");
    } else if c == '\u{2026}' {
        push_str(out, "&hellip;");
    } else if c == '\u{00A0}' {
        push_str(out, "&nbsp;");
    } else if (c == '\n' || c == '\r' || c == '\t') && !preserve_ws {
        out.push(' ');
    } else {
        out.push(c);
    }
}

/// Escapes a character sequence for HTML content.
pub fn escape_chars(s: &Vec<char>, preserve_ws: bool) -> (r: Vec<char>)
    ensures
        r@ == escaped(s@, preserve_ws),
{
    let mut out: Vec<char> = Vec::new();
    let mut i: usize = 0;
    while i < s.len()
        invariant
            i <= s.len(),
            out@ == escaped(s@.take(i as int), preserve_ws),
        decreases s.len() - i,
    {
        assert(s@.take(i + 1).drop_last() == s@.take(i as int));
        push_escaped(&mut out, s[i], preserve_ws);
        i += 1;
    }
    assert(s@.take(s.len() as int) == s@);
    out
}

/// Escape text for HTML content. `preserve_ws` keeps tabs and newlines for
/// code (they survive as written inside `<pre>`); otherwise whitespace is
/// collapsed so the generated HTML's only newlines are the structural ones.
pub fn escape_text(s: &str, preserve_ws: bool) -> (r: String)
    ensures
        r@ == escaped(s@, preserve_ws),
{
    let v = chars_of(s);
    string_of(&escape_chars(&v, preserve_ws))
}

/// Escapes text for HTML content, collapsing whitespace.
pub fn escape(s: &str) -> (r: String)
    ensures
        r@ == escaped(s@, false),
{
    escape_text(s, false)
}

/// The HTML for a value inside a double-quoted attribute.
pub open spec fn escaped_attr(s: Seq<char>) -> Seq<char> {
    replace_all(escaped(s, false), "\""@, "&quot;"@)
}

/// Escape a value for use inside a double-quoted attribute. Only the double
/// quote differs from text escaping.
pub fn escape_attr(s: &str) -> (r: String)
    ensures
        r@ == escaped_attr(s@),
{
    let v = escape_chars(&chars_of(s), false);
    let quote = chars_of("\"");
    let entity = chars_of("&quot;");
    proof {
        reveal_strlit("\"");
    }
    string_of(&replace_exec(&v, &quote, &entity))
}

proof fn lemma_escape_char_safe(c: char, preserve_ws: bool)
    ensures
        lacks(escape_char(c, preserve_ws), '<'),
        lacks(escape_char(c, preserve_ws), '>'),
        !preserve_ws ==> lacks(escape_char(c, preserve_ws), '\n'),
        !preserve_ws ==> lacks(escape_char(c, preserve_ws), '\r'),
        !preserve_ws ==> lacks(escape_char(c, preserve_ws), '\t'),
{
    reveal_strlit("&amp;");
    reveal_strlit("&lt;");
    reveal_strlit("&gt;");
    reveal_strlit("&ndash;");
    reveal_strlit("&mdash;");
    reveal_strlit("&hellip;");
    reveal_strlit("&nbsp;");
}

proof fn lemma_lacks_concat(a: Seq<char>, b: Seq<char>, c: char)
    requires
        lacks(a, c),
        lacks(b, c),
    ensures
        lacks(a + b, c),
{
    assert forall|i: int| 0 <= i < (a + b).len() implies (a + b)[i] != c by {
        if i >= a.len() {
            assert((a + b)[i] == b[i - a.len()]);
        }
    }
}

/// Escaped text never holds markup: no `<` and no `>` comes out of
/// `escape_text`, whatever the text; and without `preserve_ws` no newline,
/// carriage return or tab comes out either.
pub proof fn law_escaped_text_has_no_markup(s: Seq<char>, preserve_ws: bool)
    ensures
        lacks(escaped(s, preserve_ws), '<'),
        lacks(escaped(s, preserve_ws), '>'),
        !preserve_ws ==> lacks(escaped(s, preserve_ws), '\n'),
        !preserve_ws ==> lacks(escaped(s, preserve_ws), '\r'),
        !preserve_ws ==> lacks(escaped(s, preserve_ws), '\t'),
    decreases s.len(),
{
    if s.len() > 0 {
        law_escaped_text_has_no_markup(s.drop_last(), preserve_ws);
        lemma_escape_char_safe(s.last(), preserve_ws);
        let a = escaped(s.drop_last(), preserve_ws);
        let b = escape_char(s.last(), preserve_ws);
        lemma_lacks_concat(a, b, '<');
        lemma_lacks_concat(a, b, '>');
        if !preserve_ws {
            lemma_lacks_concat(a, b, '\n');
            lemma_lacks_concat(a, b, '\r');
            lemma_lacks_concat(a, b, '\t');
        }
    }
}

/// No typographic quote, dash, ellipsis or non-breaking space of Word's.
pub open spec fn plain_punctuation(s: Seq<char>) -> bool {
    &&& lacks(s, '\u{2018}')
    &&& lacks(s, '\u{2019}')
    &&& lacks(s, '\u{201C}')
    &&& lacks(s, '\u{201D}')
    &&& lacks(s, '\u{2013}')
    &&& lacks(s, '\u{2014}')
    &&& lacks(s, '\u{2026}')
    &&& lacks(s, '\u{00A0}')
}

proof fn lemma_escape_char_plain(c: char, preserve_ws: bool)
    ensures
        plain_punctuation(escape_char(c, preserve_ws)),
{
    reveal_strlit("&amp;");
    reveal_strlit("&lt;");
    reveal_strlit("&gt;");
    reveal_strlit("&ndash;");
    reveal_strlit("&mdash;");
    reveal_strlit("&hellip;");
    reveal_strlit("&nbsp;");
}

proof fn lemma_plain_concat(a: Seq<char>, b: Seq<char>)
    requires
        plain_punctuation(a),
        plain_punctuation(b),
    ensures
        plain_punctuation(a + b),
{
    lemma_lacks_concat(a, b, '\u{2018}');
    lemma_lacks_concat(a, b, '\u{2019}');
    lemma_lacks_concat(a, b, '\u{201C}');
    lemma_lacks_concat(a, b, '\u{201D}');
    lemma_lacks_concat(a, b, '\u{2013}');
    lemma_lacks_concat(a, b, '\u{2014}');
    lemma_lacks_concat(a, b, '\u{2026}');
    lemma_lacks_concat(a, b, '\u{00A0}');
}

/// Typographic punctuation is cleaned up for the web: no curly quote or
/// apostrophe, en or em dash, ellipsis or non-breaking space survives
/// escaping (they become ASCII quotes or entities).
pub proof fn law_escaped_text_has_plain_punctuation(s: Seq<char>, preserve_ws: bool)
    ensures
        plain_punctuation(escaped(s, preserve_ws)),
    decreases s.len(),
{
    if s.len() > 0 {
        law_escaped_text_has_plain_punctuation(s.drop_last(), preserve_ws);
        lemma_escape_char_plain(s.last(), preserve_ws);
        lemma_plain_concat(escaped(s.drop_last(), preserve_ws), escape_char(s.last(), preserve_ws));
    }
}

proof fn lemma_replace_removes(s: Seq<char>, q: char, r: Seq<char>)
    requires
        lacks(r, q),
    ensures
        lacks(replace_all(s, seq![q], r), q),
    decreases s.len(),
{
    if s.len() > 0 {
        let p = seq![q];
        if crate::text::starts_with(s, p) {
            lemma_replace_removes(s.skip(1), q, r);
            lemma_lacks_concat(r, replace_all(s.skip(p.len() as int), p, r), q);
        } else {
            assert(s.subrange(0, 1) =~= seq![s[0]]);
            lemma_replace_removes(s.drop_first(), q, r);
            lemma_lacks_concat(seq![s[0]], replace_all(s.drop_first(), p, r), q);
        }
    }
}

proof fn lemma_replace_keeps_lacking(s: Seq<char>, p: Seq<char>, r: Seq<char>, c: char)
    requires
        lacks(s, c),
        lacks(r, c),
    ensures
        lacks(replace_all(s, p, r), c),
    decreases s.len(),
{
    if s.len() > 0 && p.len() > 0 {
        if crate::text::starts_with(s, p) {
            assert(lacks(s.skip(p.len() as int), c)) by {
                assert forall|i: int| 0 <= i < s.skip(p.len() as int).len() implies s.skip(
                    p.len() as int,
                )[i] != c by {
                    assert(s.skip(p.len() as int)[i] == s[i + p.len()]);
                }
            }
            lemma_replace_keeps_lacking(s.skip(p.len() as int), p, r, c);
            lemma_lacks_concat(r, replace_all(s.skip(p.len() as int), p, r), c);
        } else {
            assert(lacks(s.drop_first(), c)) by {
                assert forall|i: int| 0 <= i < s.drop_first().len() implies s.drop_first()[i]
                    != c by {
                    assert(s.drop_first()[i] == s[i + 1]);
                }
            }
            lemma_replace_keeps_lacking(s.drop_first(), p, r, c);
            lemma_lacks_concat(seq![s[0]], replace_all(s.drop_first(), p, r), c);
        }
    }
}

/// An escaped attribute value never closes its quotes or opens a tag: no
/// `"`, `<` or `>` comes out of `escape_attr`.
pub proof fn law_escaped_attr_stays_quoted(s: Seq<char>)
    ensures
        lacks(escaped_attr(s), '"'),
        lacks(escaped_attr(s), '<'),
        lacks(escaped_attr(s), '>'),
{
    reveal_strlit("\"");
    reveal_strlit("&quot;");
    assert("\""@ =~= seq!['"']);
    lemma_replace_removes(escaped(s, false), '"', "&quot;"@);
    law_escaped_text_has_no_markup(s, false);
    lemma_replace_keeps_lacking(escaped(s, false), "\""@, "&quot;"@, '<');
    lemma_replace_keeps_lacking(escaped(s, false), "\""@, "&quot;"@, '>');
}

} // verus!
