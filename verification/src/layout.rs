//! Shaping of the converted HTML: merging adjacent formatting tags, line
//! wrapping, joining onto one line, and the minimal document around it.
use vstd::prelude::*;

use crate::escape::{escape_chars, escaped, lacks};
use crate::text::{
    chars_of, contains, contains_exec, push_chars, push_str, replace_all, replace_exec,
    slice_chars, starts_with, starts_with_str, string_of, trim_end,
};

verus! {

// ---------------------------------------------------------------------------
// Merging adjacent formatting
// ---------------------------------------------------------------------------

/// The number of inline formatting tags whose adjacent runs are merged.
pub const MERGED_TAGS: usize = 7;

/// The boundary between two adjacent runs of the `k`-th formatting tag, such
/// as `</em><em>`.
pub open spec fn boundary(k: int) -> Seq<char> {
    if k == 0 {
        "</em><em>"@
    } else if k == 1 {
        "</strong><strong>"@
    } else if k == 2 {
        "</u><u>"@
    } else if k == 3 {
        "</s><s>"@
    } else if k == 4 {
        "</sub><sub>"@
    } else if k == 5 {
        "</sup><sup>"@
    } else {
        "</code><code>"@
    }
}

/// One step of a merging pass: drop every boundary of tag `k`, and say
/// whether there was one.
pub open spec fn merge_tag(s: Seq<char>, k: int) -> (Seq<char>, bool) {
    if contains(s, boundary(k)) {
        (replace_all(s, boundary(k), seq![]), true)
    } else {
        (s, false)
    }
}

/// A merging pass over the tags from `k` on, in order.
pub open spec fn merge_pass_from(s: Seq<char>, k: int) -> (Seq<char>, bool)
    decreases MERGED_TAGS - k,
{
    if k < 0 || k >= MERGED_TAGS {
        (s, false)
    } else {
        let (t, c1) = merge_tag(s, k);
        let (u, c2) = merge_pass_from(t, k + 1);
        (u, c1 || c2)
    }
}

pub proof fn lemma_boundary_nonempty(k: int)
    ensures
        boundary(k).len() > 0,
{
    reveal_strlit("</em><em>");
    reveal_strlit("</strong><strong>");
    reveal_strlit("</u><u>");
    reveal_strlit("</s><s>");
    reveal_strlit("</sub><sub>");
    reveal_strlit("</sup><sup>");
    reveal_strlit("</code><code>");
}

pub proof fn lemma_remove_len(s: Seq<char>, p: Seq<char>)
    requires
        p.len() > 0,
    ensures
        replace_all(s, p, seq![]).len() <= s.len(),
        contains(s, p) ==> replace_all(s, p, seq![]).len() < s.len(),
    decreases s.len(),
{
    if s.len() > 0 {
        if starts_with(s, p) {
            lemma_remove_len(s.skip(p.len() as int), p);
        } else {
            lemma_remove_len(s.drop_first(), p);
            if contains(s, p) {
                let i = choose|i: int| crate::text::occurs_at(s, p, i);
                assert(i != 0);
                assert(s.drop_first().subrange(i - 1, i - 1 + p.len()) == s.subrange(
                    i,
                    i + p.len(),
                ));
                assert(crate::text::occurs_at(s.drop_first(), p, i - 1));
            }
        }
    }
}

pub proof fn lemma_merge_pass_len(s: Seq<char>, k: int)
    ensures
        merge_pass_from(s, k).0.len() <= s.len(),
        merge_pass_from(s, k).1 ==> merge_pass_from(s, k).0.len() < s.len(),
    decreases MERGED_TAGS - k,
{
    if 0 <= k < MERGED_TAGS {
        lemma_boundary_nonempty(k);
        lemma_remove_len(s, boundary(k));
        lemma_merge_pass_len(merge_tag(s, k).0, k + 1);
    }
}

/// Adjacent runs of identical formatting stitched together: merging passes
/// are repeated until one finds nothing to merge.
pub open spec fn merged(s: Seq<char>) -> Seq<char>
    decreases s.len(),
{
    let (t, changed) = merge_pass_from(s, 0);
    if changed {
        proof {
            lemma_merge_pass_len(s, 0);
        }
        merged(t)
    } else {
        s
    }
}

fn boundary_str(k: usize) -> (r: &'static str)
    ensures
        r@ == boundary(k as int),
{
    if k == 0 {
        "</em><em>"
    } else if k == 1 {
        "</strong><strong>"
    } else if k == 2 {
        "</u><u>"
    } else if k == 3 {
        "</s><s>"
    } else if k == 4 {
        "</sub><sub>"
    } else if k == 5 {
        "</sup><sup>"
    } else {
        "</code><code>"
    }
}

/// Word frequently splits a formatted phrase across many runs, which would
/// emit runs of adjacent tags such as `<em>very</em><em> </em><em>long</em>`.
/// Since the formatting is identical, stitch them into one tag.
pub fn merge_adjacent(html: &str) -> (r: String)
    ensures
        r@ == merged(html@),
{
    let mut out = chars_of(html);
    let empty: Vec<char> = Vec::new();
    loop
        invariant_except_break
            merged(out@) == merged(html@),
            empty@ == Seq::<char>::empty(),
        ensures
            out@ == merged(html@),
        decreases out@.len(),
    {
        let ghost before = out@;
        let mut changed = false;
        let mut k: usize = 0;
        while k < MERGED_TAGS
            invariant
                k <= MERGED_TAGS,
                empty@ == Seq::<char>::empty(),
                merge_pass_from(before, 0) == (
                    merge_pass_from(out@, k as int).0,
                    changed || merge_pass_from(out@, k as int).1,
                ),
            decreases MERGED_TAGS - k,
        {
            let b = chars_of(boundary_str(k));
            proof {
                lemma_boundary_nonempty(k as int);
            }
            if contains_exec(&out, &b) {
                out = replace_exec(&out, &b, &empty);
                changed = true;
            }
            k += 1;
        }
        proof {
            lemma_merge_pass_len(before, 0);
            if !changed {
                lemma_pass_unchanged(before, 0);
            }
        }
        if !changed {
            break ;
        }
    }
    string_of(&out)
}

proof fn lemma_pass_unchanged(s: Seq<char>, k: int)
    requires
        0 <= k,
        !merge_pass_from(s, k).1,
    ensures
        merge_pass_from(s, k).0 == s,
        forall|j: int| k <= j < MERGED_TAGS ==> !contains(s, #[trigger] boundary(j)),
    decreases MERGED_TAGS - k,
{
    if k < MERGED_TAGS {
        lemma_pass_unchanged(s, k + 1);
    }
}

proof fn lemma_pass_absent(s: Seq<char>, k: int)
    requires
        0 <= k,
        forall|j: int| k <= j < MERGED_TAGS ==> !contains(s, #[trigger] boundary(j)),
    ensures
        !merge_pass_from(s, k).1,
    decreases MERGED_TAGS - k,
{
    if k < MERGED_TAGS {
        assert(!contains(s, boundary(k)));
        lemma_pass_absent(s, k + 1);
    }
}

/// Merging leaves no boundary behind: in the output of `merge_adjacent` no
/// closing formatting tag is directly followed by the same opening tag.
pub proof fn law_merged_has_no_boundary(s: Seq<char>)
    ensures
        forall|k: int| 0 <= k < MERGED_TAGS ==> !contains(merged(s), #[trigger] boundary(k)),
    decreases s.len(),
{
    let (t, changed) = merge_pass_from(s, 0);
    if changed {
        lemma_merge_pass_len(s, 0);
        law_merged_has_no_boundary(t);
    } else {
        lemma_pass_unchanged(s, 0);
    }
}

/// Merging is idempotent: merging merged HTML changes nothing.
pub proof fn law_merge_is_idempotent(s: Seq<char>)
    ensures
        merged(merged(s)) == merged(s),
{
    law_merged_has_no_boundary(s);
    lemma_pass_absent(merged(s), 0);
}

// ---------------------------------------------------------------------------
// Tag tracking
// ---------------------------------------------------------------------------

/// What a scan over markup knows after a character: whether it is inside a
/// tag, inside a `<pre>` block, and the text of the current tag so far.
pub struct TagScan {
    pub in_tag: bool,
    pub in_pre: bool,
    pub tag: Seq<char>,
}

pub open spec fn scan_start() -> TagScan {
    TagScan { in_tag: false, in_pre: false, tag: seq![] }
}

/// The scan state after reading `c`: `<` starts a tag, `>` ends it, and a
/// tag that starts with `<pre` or `</pre` enters or leaves a code block.
pub open spec fn scan_char(st: TagScan, c: char) -> TagScan {
    let in_tag = if c == '<' {
        true
    } else {
        st.in_tag
    };
    let tag0 = if c == '<' {
        seq![]
    } else {
        st.tag
    };
    let tag = if in_tag {
        tag0.push(c)
    } else {
        tag0
    };
    if c == '>' {
        TagScan {
            in_tag: false,
            in_pre: if starts_with(tag, "<pre"@) {
                true
            } else if starts_with(tag, "</pre"@) {
                false
            } else {
                st.in_pre
            },
            tag,
        }
    } else {
        TagScan { in_tag, in_pre: st.in_pre, tag }
    }
}

// ---------------------------------------------------------------------------
// Joining onto one line
// ---------------------------------------------------------------------------

/// `s`, read from scan state `st`, without the newlines that stand outside
/// code blocks.
pub open spec fn stripped_from(st: TagScan, s: Seq<char>) -> Seq<char>
    decreases s.len(),
{
    if s.len() == 0 {
        seq![]
    } else {
        let next = scan_char(st, s[0]);
        (if s[0] == '\n' && !next.in_pre {
            seq![]
        } else {
            seq![s[0]]
        }) + stripped_from(next, s.drop_first())
    }
}

pub open spec fn stripped(s: Seq<char>) -> Seq<char> {
    stripped_from(scan_start(), s)
}

/// Join the markup onto one line for `--wrap 0`, but keep the newlines
/// inside a `<pre>` block: those are the code's own line breaks, not
/// formatting.
pub fn strip_newlines(html: &str) -> (r: String)
    ensures
        r@ == stripped(html@),
{
    let s = chars_of(html);
    let mut out: Vec<char> = Vec::new();
    let mut in_tag = false;
    let mut in_pre = false;
    let mut tag: Vec<char> = Vec::new();
    let mut i: usize = 0;
    assert(s@.skip(0) == s@);
    while i < s.len()
        invariant
            i <= s.len(),
            s@ == html@,
            stripped(html@) == out@ + stripped_from(
                TagScan { in_tag, in_pre, tag: tag@ },
                s@.skip(i as int),
            ),
        decreases s.len() - i,
    {
        let c = s[i];
        let ghost st = TagScan { in_tag, in_pre, tag: tag@ };
        assert(s@.skip(i as int)[0] == c);
        assert(s@.skip(i as int).drop_first() == s@.skip(i + 1));
        if c == '<' {
            in_tag = true;
            tag.clear();
        }
        if in_tag {
            tag.push(c);
        }
        if c == '>' {
            in_tag = false;
            if starts_with_str(&tag, "<pre") {
                in_pre = true;
            } else if starts_with_str(&tag, "</pre") {
                in_pre = false;
            }
        }
        assert(TagScan { in_tag, in_pre, tag: tag@ } == scan_char(st, c));
        if !(c == '\n' && !in_pre) {
            out.push(c);
        }
        i += 1;
    }
    string_of(&out)
}

// ---------------------------------------------------------------------------
// Line wrapping
// ---------------------------------------------------------------------------

/// The state of the line wrapper: the finished lines, the current line, the
/// position of the last space in it where a break may go, and the scan
/// state.
pub struct WrapState {
    pub out: Seq<char>,
    pub line: Seq<char>,
    pub last_space: Option<nat>,
    pub in_tag: bool,
    pub in_pre: bool,
    pub tag: Seq<char>,
}

pub open spec fn wrap_start() -> WrapState {
    WrapState {
        out: seq![],
        line: seq![],
        last_space: None,
        in_tag: false,
        in_pre: false,
        tag: seq![],
    }
}

/// The wrapper after the current line has gone past `limit`: if it may be
/// broken (outside tags and code, at a known space), the part before the
/// space becomes a finished line and the part after it the new line.
pub open spec fn break_line(w: WrapState, limit: nat) -> WrapState {
    if w.line.len() > limit && !w.in_tag && !w.in_pre && w.last_space is Some {
        let i = w.last_space.unwrap() as int;
        WrapState {
            out: w.out + w.line.take(i) + seq!['\n'],
            line: w.line.skip(i + 1),
            last_space: None,
            ..w
        }
    } else {
        w
    }
}

/// The wrapper after reading `c`.
pub open spec fn wrap_char(w: WrapState, c: char, limit: nat) -> WrapState {
    if c == '\n' {
        WrapState {
            out: w.out + w.line + seq!['\n'],
            line: seq![],
            last_space: None,
            in_tag: false,
            ..w
        }
    } else {
        let in_tag0 = if c == '<' {
            true
        } else {
            w.in_tag
        };
        let tag0 = if c == '<' {
            seq![]
        } else {
            w.tag
        };
        if c == ' ' && w.line.len() == 0 && !in_tag0 && !w.in_pre {
            // no leading space on a wrapped line
            w
        } else {
            let line = w.line.push(c);
            let tag = if in_tag0 {
                tag0.push(c)
            } else {
                tag0
            };
            let in_tag = if c == '>' {
                false
            } else {
                in_tag0
            };
            let in_pre = if c == '>' {
                if starts_with(tag, "<pre"@) {
                    true
                } else if starts_with(tag, "</pre"@) {
                    false
                } else {
                    w.in_pre
                }
            } else {
                w.in_pre
            };
            let last_space = if c == ' ' && !in_tag && !in_pre {
                Some((line.len() - 1) as nat)
            } else {
                w.last_space
            };
            break_line(
                WrapState { out: w.out, line, last_space, in_tag, in_pre, tag },
                limit,
            )
        }
    }
}

pub open spec fn wrap_run(w: WrapState, s: Seq<char>, limit: nat) -> WrapState
    decreases s.len(),
{
    if s.len() == 0 {
        w
    } else {
        wrap_run(wrap_char(w, s[0], limit), s.drop_first(), limit)
    }
}

/// `s` wrapped at spaces near `limit` characters; a limit of 0 leaves it as
/// it is.
pub open spec fn wrapped(s: Seq<char>, limit: nat) -> Seq<char> {
    if limit == 0 {
        s
    } else {
        let w = wrap_run(wrap_start(), s, limit);
        w.out + w.line
    }
}

pub open spec fn wrap_inv(w: WrapState) -> bool {
    w.last_space matches Some(i) ==> i < w.line.len() && w.line[i as int] == ' '
}

/// Wrap lines at spaces near the limit so the HTML can be read in an editor
/// without horizontal scrolling. Newlines are whitespace in HTML. Tags are
/// never split, so a very long tag or URL can still exceed the limit, and
/// `<pre>` content is left exactly as it was written.
pub fn wrap(html: &str, limit: usize) -> (r: String)
    ensures
        r@ == wrapped(html@, limit as nat),
{
    if limit == 0 {
        return string_of(&chars_of(html));
    }
    let s = chars_of(html);
    let mut out: Vec<char> = Vec::new();
    let mut line: Vec<char> = Vec::new();
    let mut len: usize = 0;
    let mut last_space: Option<usize> = None;
    let mut in_tag = false;
    // Code blocks are emitted verbatim: no re-wrapping and no stripping of
    // the leading spaces that carry indentation.
    let mut in_pre = false;
    let mut tag: Vec<char> = Vec::new();
    let mut i: usize = 0;
    assert(s@.skip(0) == s@);
    while i < s.len()
        invariant
            i <= s.len(),
            s@ == html@,
            limit > 0,
            len == line@.len(),
            last_space matches Some(k) ==> k < line@.len() && line@[k as int] == ' ',
            line@.len() <= i,
            wrap_run(wrap_start(), html@, limit as nat) == wrap_run(
                WrapState {
                    out: out@,
                    line: line@,
                    last_space: match last_space {
                        Some(k) => Some(k as nat),
                        None => None,
                    },
                    in_tag,
                    in_pre,
                    tag: tag@,
                },
                s@.skip(i as int),
                limit as nat,
            ),
        decreases s.len() - i,
    {
        let c = s[i];
        let ghost w = WrapState {
            out: out@,
            line: line@,
            last_space: match last_space {
                Some(k) => Some(k as nat),
                None => None,
            },
            in_tag,
            in_pre,
            tag: tag@,
        };
        assert(s@.skip(i as int)[0] == c);
        assert(s@.skip(i as int).drop_first() == s@.skip(i + 1));
        if c == '\n' {
            push_chars(&mut out, &line);
            out.push('\n');
            line.clear();
            len = 0;
            last_space = None;
            in_tag = false;
        } else {
            if c == '<' {
                in_tag = true;
                tag.clear();
            }
            if !(c == ' ' && len == 0 && !in_tag && !in_pre) {
                line.push(c);
                len += 1;
                if in_tag {
                    tag.push(c);
                }
                if c == '>' {
                    in_tag = false;
                    if starts_with_str(&tag, "<pre") {
                        in_pre = true;
                    } else if starts_with_str(&tag, "</pre") {
                        in_pre = false;
                    }
                }
                if c == ' ' && !in_tag && !in_pre {
                    last_space = Some(line.len() - 1);
                }
                // Break at the last space once the line goes past the limit.
                if len > limit && !in_tag && !in_pre {
                    if let Some(k) = last_space {
                        let head = slice_chars(&line, 0, k);
                        let rest = slice_chars(&line, k + 1, line.len());
                        push_chars(&mut out, &head);
                        out.push('\n');
                        line = rest;
                        len = line.len();
                        last_space = None;
                    }
                }
            }
        }
        proof {
            let w2 = wrap_char(w, c, limit as nat);
            assert(out@ =~= w2.out);
            assert(line@ =~= w2.line);
            assert(tag@ =~= w2.tag);
            assert(in_tag == w2.in_tag);
            assert(in_pre == w2.in_pre);
            assert(match last_space {
                Some(k) => Some(k as nat),
                None => None,
            } == w2.last_space);
        }
        i += 1;
    }
    push_chars(&mut out, &line);
    string_of(&out)
}

// ---------------------------------------------------------------------------
// What layout keeps
// ---------------------------------------------------------------------------

/// The characters of `s` that are neither spaces nor newlines: the text that
/// layout may not touch.
pub open spec fn printed(s: Seq<char>) -> Seq<char> {
    s.filter(|c: char| c != ' ' && c != '\n')
}

/// The characters of `s` other than newlines.
pub open spec fn unbroken(s: Seq<char>) -> Seq<char> {
    s.filter(|c: char| c != '\n')
}

proof fn lemma_printed_add(a: Seq<char>, b: Seq<char>)
    ensures
        printed(a + b) == printed(a) + printed(b),
{
    Seq::filter_distributes_over_add(a, b, |c: char| c != ' ' && c != '\n');
}

proof fn lemma_printed_one(c: char)
    ensures
        printed(seq![c]) == (if c != ' ' && c != '\n' {
            seq![c]
        } else {
            seq![]
        }),
{
    reveal_with_fuel(Seq::filter, 2);
    assert(seq![c].drop_last() =~= Seq::<char>::empty());
}

proof fn lemma_unbroken_add(a: Seq<char>, b: Seq<char>)
    ensures
        unbroken(a + b) == unbroken(a) + unbroken(b),
{
    Seq::filter_distributes_over_add(a, b, |c: char| c != '\n');
}

proof fn lemma_unbroken_one(c: char)
    ensures
        unbroken(seq![c]) == (if c != '\n' {
            seq![c]
        } else {
            seq![]
        }),
{
    reveal_with_fuel(Seq::filter, 2);
    assert(seq![c].drop_last() =~= Seq::<char>::empty());
}

proof fn lemma_wrap_char_printed(w: WrapState, c: char, limit: nat)
    requires
        wrap_inv(w),
    ensures
        wrap_inv(wrap_char(w, c, limit)),
        printed(wrap_char(w, c, limit).out + wrap_char(w, c, limit).line) == printed(w.out + w.line)
            + printed(seq![c]),
{
    let w1 = wrap_char(w, c, limit);
    lemma_printed_one(c);
    lemma_printed_add(w.out, w.line);
    if c == '\n' {
        lemma_printed_add(w.out + w.line, seq!['\n']);
        assert(w1.out + w1.line =~= w.out + w.line + seq!['\n']);
    } else {
        let in_tag0 = if c == '<' {
            true
        } else {
            w.in_tag
        };
        if c == ' ' && w.line.len() == 0 && !in_tag0 && !w.in_pre {
            assert(printed(w.out + w.line) + printed(seq![c]) =~= printed(w.out + w.line));
        } else {
            let line = w.line.push(c);
            lemma_printed_add(w.line, seq![c]);
            assert(line =~= w.line + seq![c]);
            lemma_printed_add(w.out, line);
            assert(printed(w.out + line) =~= printed(w.out + w.line) + printed(seq![c]));
            let tag0 = if c == '<' {
                seq![]
            } else {
                w.tag
            };
            let tag = if in_tag0 {
                tag0.push(c)
            } else {
                tag0
            };
            let in_tag = if c == '>' {
                false
            } else {
                in_tag0
            };
            let in_pre = if c == '>' {
                if starts_with(tag, "<pre"@) {
                    true
                } else if starts_with(tag, "</pre"@) {
                    false
                } else {
                    w.in_pre
                }
            } else {
                w.in_pre
            };
            let last_space = if c == ' ' && !in_tag && !in_pre {
                Some((line.len() - 1) as nat)
            } else {
                w.last_space
            };
            let w2 = WrapState { out: w.out, line, last_space, in_tag, in_pre, tag };
            assert(wrap_inv(w2));
            assert(w1 == break_line(w2, limit));
            if line.len() > limit && !in_tag && !in_pre && last_space is Some {
                let i = last_space.unwrap() as int;
                let head = line.take(i);
                let tail = line.skip(i + 1);
                assert(line =~= head + seq![' '] + tail);
                lemma_printed_add(head + seq![' '], tail);
                lemma_printed_add(head, seq![' ']);
                lemma_printed_one(' ');
                lemma_printed_one('\n');
                assert(printed(line) =~= printed(head) + printed(tail));
                lemma_printed_add(w.out + head, seq!['\n']);
                lemma_printed_add(w.out, head);
                lemma_printed_add(w.out + head + seq!['\n'], tail);
                assert(w1.out + w1.line == w.out + head + seq!['\n'] + tail);
                assert(printed(w1.out + w1.line) =~= printed(w.out) + printed(head) + printed(
                    tail,
                ));
                assert(printed(w.out + line) =~= printed(w.out) + printed(head) + printed(tail));
            } else {
                assert(w1.out + w1.line == w.out + line);
            }
        }
    }
}

proof fn lemma_wrap_run_printed(w: WrapState, rest: Seq<char>, limit: nat)
    requires
        wrap_inv(w),
    ensures
        printed(wrap_run(w, rest, limit).out + wrap_run(w, rest, limit).line) == printed(w.out
            + w.line) + printed(rest),
    decreases rest.len(),
{
    if rest.len() == 0 {
        assert(printed(rest) =~= Seq::<char>::empty()) by {
            reveal(Seq::filter);
        }
        assert(printed(w.out + w.line) + printed(rest) =~= printed(w.out + w.line));
    } else {
        let c = rest[0];
        lemma_wrap_char_printed(w, c, limit);
        lemma_wrap_run_printed(wrap_char(w, c, limit), rest.drop_first(), limit);
        assert(rest =~= seq![c] + rest.drop_first());
        lemma_printed_add(seq![c], rest.drop_first());
    }
}

/// Wrapping changes only where the lines break: apart from spaces and
/// newlines, the wrapped HTML holds exactly the characters of the input, in
/// order.
pub proof fn law_wrap_changes_only_spacing(s: Seq<char>, limit: nat)
    ensures
        printed(wrapped(s, limit)) == printed(s),
{
    if limit > 0 {
        assert(wrap_inv(wrap_start()));
        lemma_wrap_run_printed(wrap_start(), s, limit);
        assert(wrap_start().out + wrap_start().line =~= Seq::<char>::empty());
        assert(printed(Seq::<char>::empty()) =~= Seq::<char>::empty()) by {
            reveal(Seq::filter);
        }
        assert(printed(Seq::<char>::empty()) + printed(s) =~= printed(s));
    }
}

/// The newlines of `s`.
pub open spec fn breaks(s: Seq<char>) -> Seq<char> {
    s.filter(|c: char| c == '\n')
}

proof fn lemma_breaks_add(a: Seq<char>, b: Seq<char>)
    ensures
        breaks(a + b) == breaks(a) + breaks(b),
{
    Seq::filter_distributes_over_add(a, b, |c: char| c == '\n');
}

proof fn lemma_breaks_one(c: char)
    ensures
        breaks(seq![c]).len() == (if c == '\n' {
            1int
        } else {
            0int
        }),
{
    reveal_with_fuel(Seq::filter, 2);
    assert(seq![c].drop_last() =~= Seq::<char>::empty());
}

proof fn lemma_wrap_char_breaks(w: WrapState, c: char, limit: nat)
    requires
        wrap_inv(w),
    ensures
        breaks(wrap_char(w, c, limit).out + wrap_char(w, c, limit).line).len() >= breaks(w.out
            + w.line).len() + breaks(seq![c]).len(),
{
    let w1 = wrap_char(w, c, limit);
    lemma_breaks_one(c);
    lemma_wrap_char_printed(w, c, limit);
    if c == '\n' {
        lemma_breaks_add(w.out + w.line, seq!['\n']);
        assert(w1.out + w1.line =~= w.out + w.line + seq!['\n']);
    } else {
        let in_tag0 = if c == '<' {
            true
        } else {
            w.in_tag
        };
        if c == ' ' && w.line.len() == 0 && !in_tag0 && !w.in_pre {
        } else {
            let line = w.line.push(c);
            assert(line =~= w.line + seq![c]);
            lemma_breaks_add(w.out, line);
            lemma_breaks_add(w.line, seq![c]);
            lemma_breaks_add(w.out, w.line);
            if w1.out + w1.line == w.out + line {
            } else {
                // A break replaced the space at the last break point.
                let tag0 = if c == '<' {
                    seq![]
                } else {
                    w.tag
                };
                let tag = if in_tag0 {
                    tag0.push(c)
                } else {
                    tag0
                };
                let in_tag = if c == '>' {
                    false
                } else {
                    in_tag0
                };
                let in_pre = if c == '>' {
                    if starts_with(tag, "<pre"@) {
                        true
                    } else if starts_with(tag, "</pre"@) {
                        false
                    } else {
                        w.in_pre
                    }
                } else {
                    w.in_pre
                };
                let last_space = if c == ' ' && !in_tag && !in_pre {
                    Some((line.len() - 1) as nat)
                } else {
                    w.last_space
                };
                let w2 = WrapState { out: w.out, line, last_space, in_tag, in_pre, tag };
                assert(w1 == break_line(w2, limit));
                let i = last_space.unwrap() as int;
                assert(0 <= i < line.len() && line[i] == ' ');
                let head = line.take(i);
                let tail = line.skip(i + 1);
                assert(line =~= head + seq![' '] + tail);
                assert(w1.out + w1.line == w.out + head + seq!['\n'] + tail);
                lemma_breaks_add(w.out + head + seq!['\n'], tail);
                lemma_breaks_add(w.out + head, seq!['\n']);
                lemma_breaks_add(w.out, head);
                lemma_breaks_add(head + seq![' '], tail);
                lemma_breaks_add(head, seq![' ']);
                lemma_breaks_one(' ');
                lemma_breaks_one('\n');
            }
        }
    }
}

proof fn lemma_wrap_run_breaks(w: WrapState, rest: Seq<char>, limit: nat)
    requires
        wrap_inv(w),
    ensures
        breaks(wrap_run(w, rest, limit).out + wrap_run(w, rest, limit).line).len() >= breaks(
            w.out + w.line,
        ).len() + breaks(rest).len(),
    decreases rest.len(),
{
    if rest.len() == 0 {
        assert(breaks(rest) =~= Seq::<char>::empty()) by {
            reveal(Seq::filter);
        }
    } else {
        let c = rest[0];
        lemma_wrap_char_breaks(w, c, limit);
        lemma_wrap_char_printed(w, c, limit);
        lemma_wrap_run_breaks(wrap_char(w, c, limit), rest.drop_first(), limit);
        assert(rest =~= seq![c] + rest.drop_first());
        lemma_breaks_add(seq![c], rest.drop_first());
    }
}

/// Newlines are whitespace in HTML, and wrapping only adds them: the wrapped
/// HTML has at least as many newlines as the input.
pub proof fn law_wrap_keeps_newlines(s: Seq<char>, limit: nat)
    ensures
        breaks(wrapped(s, limit)).len() >= breaks(s).len(),
{
    if limit > 0 {
        assert(wrap_inv(wrap_start()));
        lemma_wrap_run_breaks(wrap_start(), s, limit);
        assert(wrap_start().out + wrap_start().line =~= Seq::<char>::empty());
        assert(breaks(Seq::<char>::empty()) =~= Seq::<char>::empty()) by {
            reveal(Seq::filter);
        }
    }
}

/// A line that fits: at most `limit` characters, or with no space at which
/// it could have been broken.
pub open spec fn line_fits(l: Seq<char>, limit: nat) -> bool {
    l.len() <= limit || lacks(l, ' ')
}

/// Every line of `s` fits, the current line having begun with `cur`.
pub open spec fn lines_fit_from(cur: Seq<char>, s: Seq<char>, limit: nat) -> bool
    decreases s.len(),
{
    if s.len() == 0 {
        line_fits(cur, limit)
    } else if s[0] == '\n' {
        line_fits(cur, limit) && lines_fit_from(seq![], s.drop_first(), limit)
    } else {
        lines_fit_from(cur.push(s[0]), s.drop_first(), limit)
    }
}

/// Every line of `s` fits.
pub open spec fn lines_fit(s: Seq<char>, limit: nat) -> bool {
    lines_fit_from(seq![], s, limit)
}

proof fn lemma_fit_after_newline(c: Seq<char>, x: Seq<char>, b: Seq<char>, limit: nat)
    requires
        x.len() > 0,
        x.last() == '\n',
    ensures
        lines_fit_from(c, x + b, limit) == (lines_fit_from(c, x, limit) && lines_fit_from(
            seq![],
            b,
            limit,
        )),
    decreases x.len(),
{
    assert((x + b)[0] == x[0]);
    assert((x + b).drop_first() =~= x.drop_first() + b);
    if x[0] == '\n' {
        if x.len() == 1 {
            assert(x.drop_first() + b =~= b);
            assert(lines_fit_from(seq![], x.drop_first(), limit));
        } else {
            lemma_fit_after_newline(seq![], x.drop_first(), b, limit);
        }
    } else {
        lemma_fit_after_newline(c.push(x[0]), x.drop_first(), b, limit);
    }
}

proof fn lemma_fit_last_line(c: Seq<char>, l: Seq<char>, limit: nat)
    requires
        lacks(l, '\n'),
    ensures
        lines_fit_from(c, l, limit) == line_fits(c + l, limit),
        lines_fit_from(c, l.push('\n'), limit) == line_fits(c + l, limit),
    decreases l.len(),
{
    if l.len() == 0 {
        assert(c + l =~= c);
        assert(l.push('\n')[0] == '\n');
        assert(l.push('\n').drop_first() =~= Seq::<char>::empty());
        assert(lines_fit_from(seq![], Seq::<char>::empty(), limit));
    } else {
        assert(l.push('\n')[0] == l[0]);
        assert(l.push('\n').drop_first() =~= l.drop_first().push('\n'));
        assert(lacks(l.drop_first(), '\n')) by {
            assert forall|i: int| 0 <= i < l.drop_first().len() implies l.drop_first()[i]
                != '\n' by {
                assert(l.drop_first()[i] == l[i + 1]);
            }
        }
        lemma_fit_last_line(c.push(l[0]), l.drop_first(), limit);
        assert(c.push(l[0]) + l.drop_first() =~= c + l);
    }
}

/// What the wrapper keeps true on markup with no tags: its finished lines
/// fit and end in a newline, and its current line fits, holds no newline,
/// and has a break point at its last space if it has one.
pub open spec fn wrap_fits(w: WrapState, limit: nat) -> bool {
    &&& !w.in_tag
    &&& !w.in_pre
    &&& w.tag == Seq::<char>::empty()
    &&& wrap_inv(w)
    &&& (w.out.len() == 0 || w.out.last() == '\n')
    &&& lines_fit(w.out, limit)
    &&& lacks(w.line, '\n')
    &&& line_fits(w.line, limit)
    &&& (!lacks(w.line, ' ') ==> w.last_space is Some)
    &&& (w.last_space matches Some(i) ==> lacks(w.line.skip(i as int + 1), ' '))
}

proof fn lemma_fit_finish(out: Seq<char>, l: Seq<char>, limit: nat)
    requires
        out.len() == 0 || out.last() == '\n',
        lines_fit(out, limit),
        lacks(l, '\n'),
        line_fits(l, limit),
    ensures
        lines_fit(out + l.push('\n'), limit),
        lines_fit(out + l, limit),
{
    lemma_fit_last_line(seq![], l, limit);
    assert(Seq::<char>::empty() + l =~= l);
    if out.len() == 0 {
        assert(out + l.push('\n') =~= l.push('\n'));
        assert(out + l =~= l);
    } else {
        lemma_fit_after_newline(seq![], out, l.push('\n'), limit);
        lemma_fit_after_newline(seq![], out, l, limit);
    }
}

proof fn lemma_wrap_char_fits(w: WrapState, c: char, limit: nat)
    requires
        wrap_fits(w, limit),
        c != '<',
        limit > 0,
    ensures
        wrap_fits(wrap_char(w, c, limit), limit),
{
    let w1 = wrap_char(w, c, limit);
    lemma_wrap_char_printed(w, c, limit);
    if c == '\n' {
        lemma_fit_finish(w.out, w.line, limit);
        assert(w1.out =~= w.out + w.line.push('\n'));
        assert(lacks(Seq::<char>::empty(), ' '));
        assert(lacks(Seq::<char>::empty(), '\n'));
    } else if c == ' ' && w.line.len() == 0 {
    } else {
        let line = w.line.push(c);
        assert(!starts_with(Seq::<char>::empty(), "<pre"@)) by {
            reveal_strlit("<pre");
        }
        assert(!starts_with(Seq::<char>::empty(), "</pre"@)) by {
            reveal_strlit("</pre");
        }
        let last_space = if c == ' ' {
            Some((line.len() - 1) as nat)
        } else {
            w.last_space
        };
        let w2 = WrapState {
            out: w.out,
            line,
            last_space,
            in_tag: false,
            in_pre: false,
            tag: seq![],
        };
        assert(w1 == break_line(w2, limit));
        assert(lacks(line, '\n')) by {
            assert forall|k: int| 0 <= k < line.len() implies line[k] != '\n' by {
                if k < w.line.len() {
                    assert(line[k] == w.line[k]);
                }
            }
        }
        // The part after the last break point still holds no space.
        assert(last_space matches Some(i) ==> lacks(line.skip(i as int + 1), ' ')) by {
            if let Some(i) = last_space {
                if c != ' ' {
                    let sk = line.skip(i as int + 1);
                    let wsk = w.line.skip(i as int + 1);
                    assert forall|k: int| 0 <= k < sk.len() implies sk[k] != ' ' by {
                        if k < wsk.len() {
                            assert(sk[k] == wsk[k]);
                        }
                    }
                } else {
                    assert(line.skip(i as int + 1).len() == 0);
                }
            }
        }
        if line.len() > limit && last_space is Some {
            let i = last_space.unwrap() as int;
            let head = line.take(i);
            let tail = line.skip(i + 1);
            assert(lacks(head, '\n')) by {
                assert forall|k: int| 0 <= k < head.len() implies head[k] != '\n' by {
                    assert(head[k] == line[k]);
                }
            }
            assert(lacks(tail, '\n')) by {
                assert forall|k: int| 0 <= k < tail.len() implies tail[k] != '\n' by {
                    assert(tail[k] == line[k + i + 1]);
                }
            }
            // The finished part fits: either the line fitted before `c`, or
            // it had no space and `c` is the space it breaks at.
            if w.line.len() <= limit {
                assert(head.len() <= limit);
            } else {
                assert(lacks(w.line, ' '));
                if c != ' ' {
                    assert(w.last_space is None);
                    assert(false);
                }
                assert(i == w.line.len());
                assert(head =~= w.line);
            }
            lemma_fit_finish(w.out, head, limit);
            assert(w1.out =~= w.out + head.push('\n'));
            assert(tail.len() <= limit);
            assert(w1.line == tail);
            assert(w1.last_space is None);
            assert(lacks(tail, ' '));
        } else {
            assert(w1 == w2);
            if line.len() > limit {
                assert(last_space is None);
                assert(lacks(line, ' ')) by {
                    assert forall|k: int| 0 <= k < line.len() implies line[k] != ' ' by {
                        if k < w.line.len() {
                            assert(line[k] == w.line[k]);
                        }
                    }
                }
            }
            if !lacks(line, ' ') {
                let k = choose|k: int| 0 <= k < line.len() && line[k] == ' ';
                if k < w.line.len() {
                    assert(w.line[k] == ' ');
                }
            }
        }
    }
}

proof fn lemma_wrap_run_fits(w: WrapState, s: Seq<char>, limit: nat)
    requires
        wrap_fits(w, limit),
        lacks(s, '<'),
        limit > 0,
    ensures
        wrap_fits(wrap_run(w, s, limit), limit),
    decreases s.len(),
{
    if s.len() > 0 {
        lemma_wrap_char_fits(w, s[0], limit);
        assert(lacks(s.drop_first(), '<')) by {
            assert forall|k: int| 0 <= k < s.drop_first().len() implies s.drop_first()[k]
                != '<' by {
                assert(s.drop_first()[k] == s[k + 1]);
            }
        }
        lemma_wrap_run_fits(wrap_char(w, s[0], limit), s.drop_first(), limit);
    }
}

/// On markup without tags, wrapping breaks every line that it can: a line
/// of the output runs past the limit only when it has no space to break at.
pub proof fn law_wrapped_lines_fit(s: Seq<char>, limit: nat)
    requires
        limit > 0,
        lacks(s, '<'),
    ensures
        lines_fit(wrapped(s, limit), limit),
{
    let w0 = wrap_start();
    assert(lines_fit(Seq::<char>::empty(), limit));
    assert(lacks(Seq::<char>::empty(), '\n'));
    assert(lacks(Seq::<char>::empty(), ' '));
    assert(wrap_fits(w0, limit));
    lemma_wrap_run_fits(w0, s, limit);
    let w = wrap_run(w0, s, limit);
    lemma_fit_finish(w.out, w.line, limit);
}

proof fn lemma_stripped_unbroken(st: TagScan, s: Seq<char>)
    ensures
        unbroken(stripped_from(st, s)) == unbroken(s),
    decreases s.len(),
{
    if s.len() == 0 {
        assert(unbroken(s) =~= Seq::<char>::empty()) by {
            reveal(Seq::filter);
        }
        assert(unbroken(stripped_from(st, s)) =~= Seq::<char>::empty()) by {
            reveal(Seq::filter);
        }
    } else {
        let next = scan_char(st, s[0]);
        let head = if s[0] == '\n' && !next.in_pre {
            seq![]
        } else {
            seq![s[0]]
        };
        lemma_stripped_unbroken(next, s.drop_first());
        lemma_unbroken_add(head, stripped_from(next, s.drop_first()));
        assert(s =~= seq![s[0]] + s.drop_first());
        lemma_unbroken_add(seq![s[0]], s.drop_first());
        lemma_unbroken_one(s[0]);
        assert(unbroken(Seq::<char>::empty()) =~= Seq::<char>::empty()) by {
            reveal(Seq::filter);
        }
    }
}

/// Joining onto one line removes newlines and nothing else.
pub proof fn law_single_line_removes_only_newlines(s: Seq<char>)
    ensures
        unbroken(stripped(s)) == unbroken(s),
{
    lemma_stripped_unbroken(scan_start(), s);
}

proof fn lemma_absent_in_suffix(s: Seq<char>, k: int, p: Seq<char>)
    requires
        0 <= k <= s.len(),
        !contains(s, p),
    ensures
        !contains(s.skip(k), p),
{
    if contains(s.skip(k), p) {
        let i = choose|i: int| crate::text::occurs_at(s.skip(k), p, i);
        assert(s.subrange(i + k, i + k + p.len()) =~= s.skip(k).subrange(i, i + p.len()));
        assert(crate::text::occurs_at(s, p, i + k));
    }
}

/// What a scan of markup that holds no `<pre` keeps true: it is outside any
/// code block, and neither the tag being read nor a finished one can start
/// one.
pub open spec fn scan_outside_code(st: TagScan, rest: Seq<char>) -> bool {
    &&& !st.in_pre
    &&& st.in_tag ==> !contains(st.tag + rest, "<pre"@)
    &&& !st.in_tag ==> !starts_with(st.tag, "<pre"@) && !contains(rest, "<pre"@)
}

proof fn lemma_stripped_no_newline(st: TagScan, s: Seq<char>)
    requires
        scan_outside_code(st, s),
    ensures
        !stripped_from(st, s).contains('\n'),
    decreases s.len(),
{
    reveal_strlit("<pre");
    if s.len() > 0 {
        let c = s[0];
        let next = scan_char(st, c);
        let rest = s.drop_first();
        // `s` itself holds no `<pre`, whether or not a tag is being read.
        if st.in_tag {
            lemma_absent_in_suffix(st.tag + s, st.tag.len() as int, "<pre"@);
            assert((st.tag + s).skip(st.tag.len() as int) =~= s);
        }
        assert(!contains(s, "<pre"@));
        lemma_absent_in_suffix(s, 1, "<pre"@);
        assert(s.skip(1) =~= rest);
        if c == '<' {
            assert(next.tag + rest =~= s);
            assert(scan_outside_code(next, rest));
        } else if st.in_tag {
            assert(next.tag + rest =~= st.tag + s);
            if c == '>' {
                if starts_with(next.tag, "<pre"@) {
                    assert((st.tag + s).subrange(0, 4) =~= next.tag.subrange(0, 4));
                    assert(crate::text::occurs_at(st.tag + s, "<pre"@, 0));
                }
            }
            assert(scan_outside_code(next, rest));
        } else {
            assert(scan_outside_code(next, rest));
        }
        lemma_stripped_no_newline(next, rest);
        let head = if c == '\n' && !next.in_pre {
            seq![]
        } else {
            seq![c]
        };
        assert(stripped_from(st, s) == head + stripped_from(next, rest));
        if (head + stripped_from(next, rest)).contains('\n') {
            let j = choose|j: int|
                0 <= j < (head + stripped_from(next, rest)).len() && (head + stripped_from(
                    next,
                    rest,
                ))[j] == '\n';
            if j >= head.len() {
                assert(stripped_from(next, rest)[j - head.len()] == '\n');
            }
        }
    }
}

/// With no code block in the markup, joining onto one line leaves no newline
/// at all.
pub proof fn law_single_line_without_code(s: Seq<char>)
    requires
        !contains(s, "<pre"@),
    ensures
        !stripped(s).contains('\n'),
{
    reveal_strlit("<pre");
    assert(!starts_with(Seq::<char>::empty(), "<pre"@));
    lemma_stripped_no_newline(scan_start(), s);
}

/// What a wrapper state inside a code block keeps true while it reads
/// `rest`, which holds no `</pre`: it stays in the code block, and neither
/// the tag being read nor a finished one can close it.
pub open spec fn wrap_in_code(w: WrapState, rest: Seq<char>) -> bool {
    &&& w.in_pre
    &&& w.in_tag ==> !contains(w.tag + rest, "</pre"@)
    &&& !w.in_tag ==> !starts_with(w.tag, "</pre"@) && !contains(rest, "</pre"@)
}

proof fn lemma_prefix_lacks_start(t: Seq<char>, rest: Seq<char>, p: Seq<char>)
    requires
        !contains(t + rest, p),
    ensures
        !starts_with(t, p),
{
    if starts_with(t, p) {
        assert((t + rest).subrange(0, p.len() as int) =~= t.subrange(0, p.len() as int));
        assert(crate::text::occurs_at(t + rest, p, 0));
    }
}

proof fn lemma_wrap_run_split(w: WrapState, a: Seq<char>, b: Seq<char>, limit: nat)
    ensures
        wrap_run(w, a + b, limit) == wrap_run(wrap_run(w, a, limit), b, limit),
    decreases a.len(),
{
    if a.len() == 0 {
        assert(a + b =~= b);
    } else {
        assert((a + b).drop_first() =~= a.drop_first() + b);
        assert((a + b)[0] == a[0]);
        lemma_wrap_run_split(wrap_char(w, a[0], limit), a.drop_first(), b, limit);
    }
}

proof fn lemma_wrap_code_verbatim(w: WrapState, s: Seq<char>, limit: nat)
    requires
        wrap_in_code(w, s),
    ensures
        wrap_run(w, s, limit).out + wrap_run(w, s, limit).line == w.out + w.line + s,
        wrap_run(w, s, limit).in_pre,
        wrap_run(w, s, limit).last_space is None || (wrap_run(w, s, limit).last_space
            == w.last_space && wrap_run(w, s, limit).out == w.out && wrap_run(w, s, limit).line
            == w.line + s),
    decreases s.len(),
{
    reveal_strlit("</pre");
    reveal_strlit("<pre");
    if s.len() == 0 {
        assert(w.line + s =~= w.line);
        assert(w.out + w.line + s =~= w.out + w.line);
    } else {
        let c = s[0];
        let rest = s.drop_first();
        let next = wrap_char(w, c, limit);
        if w.in_tag {
            lemma_absent_in_suffix(w.tag + s, w.tag.len() as int, "</pre"@);
            assert((w.tag + s).skip(w.tag.len() as int) =~= s);
            lemma_prefix_lacks_start(w.tag, s, "</pre"@);
        }
        assert(!contains(s, "</pre"@));
        assert(!starts_with(w.tag, "</pre"@));
        lemma_absent_in_suffix(s, 1, "</pre"@);
        assert(s.skip(1) =~= rest);
        if c == '\n' {
            assert(next.out + next.line =~= w.out + w.line + seq![c]);
        } else {
            if c == '<' {
                assert(next.tag + rest =~= s);
            } else if w.in_tag {
                assert(next.tag + rest =~= w.tag + s);
                if c == '>' {
                    lemma_prefix_lacks_start(next.tag, rest, "</pre"@);
                }
            }
            assert(next.in_pre);
            assert(next.out + next.line =~= w.out + w.line + seq![c]);
            assert(next.last_space == w.last_space);
            assert(next.out == w.out);
            assert(next.line =~= w.line + seq![c]);
        }
        assert(wrap_in_code(next, rest));
        lemma_wrap_code_verbatim(next, rest, limit);
        assert(w.out + w.line + s =~= w.out + w.line + seq![c] + rest);
        assert(w.line + s =~= w.line + seq![c] + rest);
    }
}

proof fn lemma_wrap_run_inv(w: WrapState, s: Seq<char>, limit: nat)
    requires
        wrap_inv(w),
    ensures
        wrap_inv(wrap_run(w, s, limit)),
    decreases s.len(),
{
    if s.len() > 0 {
        lemma_wrap_char_printed(w, s[0], limit);
        lemma_wrap_run_inv(wrap_char(w, s[0], limit), s.drop_first(), limit);
    }
}

/// The closing tag `</pre>` of a code block.
pub open spec fn pre_close() -> Seq<char> {
    seq!['<', '/', 'p', 'r', 'e', '>']
}

proof fn lemma_wrap_closing_tag(w: WrapState, limit: nat)
    requires
        w.in_pre,
        wrap_inv(w),
    ensures
        ({
            let r = wrap_run(w, pre_close(), limit);
            match w.last_space {
                None => r.out + r.line == w.out + w.line + pre_close(),
                Some(i) => r.out + r.line == w.out + w.line + pre_close() || r.out + r.line
                    == w.out + w.line.take(i as int) + seq!['\n'] + w.line.skip(i as int + 1) + pre_close(),
            }
        }),
{
    reveal_strlit("</pre");
    reveal_strlit("<pre");
    let t = pre_close();
    let w1 = wrap_char(w, '<', limit);
    let w2 = wrap_char(w1, '/', limit);
    let w3 = wrap_char(w2, 'p', limit);
    let w4 = wrap_char(w3, 'r', limit);
    let w5 = wrap_char(w4, 'e', limit);
    let w6 = wrap_char(w5, '>', limit);
    assert(w1.in_pre && w1.in_tag && w1.last_space == w.last_space && w1.out == w.out);
    assert(w1.line =~= w.line + seq!['<'] && w1.tag =~= seq!['<']);
    assert(w2.in_pre && w2.in_tag && w2.last_space == w.last_space && w2.out == w.out);
    assert(w2.line =~= w.line + seq!['<', '/'] && w2.tag =~= seq!['<', '/']);
    assert(w3.in_pre && w3.in_tag && w3.last_space == w.last_space && w3.out == w.out);
    assert(w3.line =~= w.line + seq!['<', '/', 'p'] && w3.tag =~= seq!['<', '/', 'p']);
    assert(w4.in_pre && w4.in_tag && w4.last_space == w.last_space && w4.out == w.out);
    assert(w4.line =~= w.line + seq!['<', '/', 'p', 'r'] && w4.tag =~= seq!['<', '/', 'p', 'r']);
    assert(w5.in_pre && w5.in_tag && w5.last_space == w.last_space && w5.out == w.out);
    assert(w5.line =~= w.line + seq!['<', '/', 'p', 'r', 'e'] && w5.tag =~= seq![
        '<',
        '/',
        'p',
        'r',
        'e',
    ]);
    let tag = w5.tag.push('>');
    assert(tag =~= t);
    assert(!starts_with(tag, "<pre"@)) by {
        assert(tag.subrange(0, 4)[1] != "<pre"@[1]);
    }
    assert(starts_with(tag, "</pre"@)) by {
        assert(tag.subrange(0, 5) =~= "</pre"@);
    }
    let line = w5.line.push('>');
    assert(line =~= w.line + t);
    assert(w6 == break_line(
        WrapState {
            out: w.out,
            line,
            last_space: w.last_space,
            in_tag: false,
            in_pre: false,
            tag,
        },
        limit,
    ));
    match w.last_space {
        Some(i) => {
            let k = i as int;
            assert(line.take(k) =~= w.line.take(k));
            assert(line.skip(k + 1) =~= w.line.skip(k + 1) + t);
            assert(w.out + line.take(k) + seq!['\n'] + line.skip(k + 1) =~= w.out + w.line.take(
                k,
            ) + seq!['\n'] + w.line.skip(k + 1) + t);
        },
        None => {},
    }
    assert(w.out + line =~= w.out + w.line + t);
    assert(t.drop_first() =~= seq!['/', 'p', 'r', 'e', '>']);
    assert(t.drop_first().drop_first() =~= seq!['p', 'r', 'e', '>']);
    assert(t.drop_first().drop_first().drop_first() =~= seq!['r', 'e', '>']);
    assert(t.drop_first().drop_first().drop_first().drop_first() =~= seq!['e', '>']);
    assert(t.drop_first().drop_first().drop_first().drop_first().drop_first() =~= seq!['>']);
    assert(seq!['>'].drop_first() =~= Seq::<char>::empty());
    assert(wrap_run(w, t, limit) == w6) by {
        reveal_with_fuel(wrap_run, 7);
    }
}

proof fn lemma_closed_tag_state(t: Seq<char>, in_pre: bool, was: bool)
    requires
        in_pre == (if starts_with(t, "<pre"@) {
            true
        } else if starts_with(t, "</pre"@) {
            false
        } else {
            was
        }),
        in_pre,
    ensures
        !starts_with(t, "</pre"@),
{
    reveal_strlit("</pre");
    reveal_strlit("<pre");
    if starts_with(t, "<pre"@) && starts_with(t, "</pre"@) {
        assert(t.subrange(0, 4)[1] == t.subrange(0, 5)[1]);
    }
}

proof fn lemma_code_state_after(a: Seq<char>, b: Seq<char>, limit: nat)
    requires
        a.len() > 0,
        a.last() == '>',
        wrap_run(wrap_start(), a, limit).in_pre,
        !contains(b, "</pre"@),
    ensures
        wrap_in_code(wrap_run(wrap_start(), a, limit), b),
{
    let before = wrap_run(wrap_start(), a.drop_last(), limit);
    assert(a =~= a.drop_last() + seq!['>']);
    lemma_wrap_run_split(wrap_start(), a.drop_last(), seq!['>'], limit);
    let w = wrap_run(wrap_start(), a, limit);
    assert(seq!['>'].drop_first() =~= Seq::<char>::empty());
    assert(wrap_run(wrap_char(before, '>', limit), Seq::<char>::empty(), limit) == wrap_char(
        before,
        '>',
        limit,
    ));
    assert(w == wrap_char(before, '>', limit));
    assert(!w.in_tag);
    let tag = if before.in_tag {
        before.tag.push('>')
    } else {
        before.tag
    };
    assert(w.tag == tag);
    lemma_closed_tag_state(w.tag, w.in_pre, before.in_pre);
}

/// Code is left exactly as it was written: once the markup read so far has
/// ended a tag inside a `<pre>` block, the text that follows up to the
/// closing `</pre` comes out of wrapping unchanged.
pub proof fn law_wrap_keeps_code(a: Seq<char>, b: Seq<char>, limit: nat)
    requires
        a.len() > 0,
        a.last() == '>',
        wrap_run(wrap_start(), a, limit).in_pre,
        !contains(b, "</pre"@),
    ensures
        wrapped(a + b, limit) == wrapped(a, limit) + b,
{
    if limit > 0 {
        let w = wrap_run(wrap_start(), a, limit);
        lemma_code_state_after(a, b, limit);
        lemma_wrap_run_split(wrap_start(), a, b, limit);
        lemma_wrap_code_verbatim(w, b, limit);
    }
}

/// A whole code block, its closing tag included, comes out of wrapping
/// exactly as it was written: once the markup read so far has ended a tag
/// inside a `<pre>` block, the code `b` that follows and its `</pre>` end the
/// wrapped output unchanged. A break can only fall before the block, at a
/// space read outside code; with none pending the output is the wrapped
/// markup before the block, then the block.
pub proof fn law_wrap_keeps_code_block(a: Seq<char>, b: Seq<char>, limit: nat)
    requires
        a.len() > 0,
        a.last() == '>',
        wrap_run(wrap_start(), a, limit).in_pre,
        !contains(b, "</pre"@),
    ensures
        wrapped(a + b + pre_close(), limit).len() >= b.len() + 6,
        wrapped(a + b + pre_close(), limit).subrange(
            wrapped(a + b + pre_close(), limit).len() - (b.len() + 6),
            wrapped(a + b + pre_close(), limit).len() as int,
        ) == b + pre_close(),
        wrap_run(wrap_start(), a, limit).last_space is None ==> wrapped(a + b + pre_close(), limit)
            == wrapped(a, limit) + b + pre_close(),
{
    let whole = a + b + pre_close();
    if limit > 0 {
        let w = wrap_run(wrap_start(), a, limit);
        law_wrap_keeps_code(a, b, limit);
        lemma_code_state_after(a, b, limit);
        let r = wrap_run(w, b, limit);
        lemma_wrap_code_verbatim(w, b, limit);
        assert(wrap_inv(wrap_start()));
        lemma_wrap_run_inv(wrap_start(), a, limit);
        lemma_wrap_run_inv(w, b, limit);
        lemma_wrap_closing_tag(r, limit);
        lemma_wrap_run_split(wrap_start(), a + b, pre_close(), limit);
        lemma_wrap_run_split(wrap_start(), a, b, limit);
        let f = wrap_run(r, pre_close(), limit);
        assert(wrapped(whole, limit) == f.out + f.line);
        let tail = b + pre_close();
        match r.last_space {
            None => {
                assert(f.out + f.line =~= w.out + w.line + tail);
            },
            Some(i) => {
                assert(r.out == w.out && r.line == w.line + b);
                assert(w.last_space == Some(i));
                let k = i as int;
                assert(k < w.line.len());
                assert(r.line.skip(k + 1) =~= w.line.skip(k + 1) + b);
                if f.out + f.line == r.out + r.line + pre_close() {
                    assert(f.out + f.line =~= w.out + w.line + tail);
                } else {
                    assert(f.out + f.line =~= w.out + w.line.take(k) + seq!['\n'] + w.line.skip(
                        k + 1,
                    ) + tail);
                }
            },
        }
        let o = f.out + f.line;
        assert(o.subrange(o.len() - tail.len(), o.len() as int) =~= tail);
    } else {
        assert(whole.subrange(whole.len() - (b.len() + 6), whole.len() as int) =~= b
            + pre_close());
    }
}

/// The scan state after reading `s` from `st`.
pub open spec fn scan_run(st: TagScan, s: Seq<char>) -> TagScan
    decreases s.len(),
{
    if s.len() == 0 {
        st
    } else {
        scan_run(scan_char(st, s[0]), s.drop_first())
    }
}

proof fn lemma_stripped_split(st: TagScan, a: Seq<char>, b: Seq<char>)
    ensures
        stripped_from(st, a + b) == stripped_from(st, a) + stripped_from(scan_run(st, a), b),
    decreases a.len(),
{
    if a.len() == 0 {
        assert(a + b =~= b);
        assert(stripped_from(st, a) + stripped_from(st, b) =~= stripped_from(st, b));
    } else {
        let next = scan_char(st, a[0]);
        assert((a + b).drop_first() =~= a.drop_first() + b);
        assert((a + b)[0] == a[0]);
        lemma_stripped_split(next, a.drop_first(), b);
        let head = if a[0] == '\n' && !next.in_pre {
            seq![]
        } else {
            seq![a[0]]
        };
        assert(head + (stripped_from(next, a.drop_first()) + stripped_from(
            scan_run(next, a.drop_first()),
            b,
        )) =~= head + stripped_from(next, a.drop_first()) + stripped_from(
            scan_run(next, a.drop_first()),
            b,
        ));
    }
}

/// What a scan inside a code block keeps true while it reads `rest`, which
/// holds no `</pre`.
pub open spec fn scan_in_code(st: TagScan, rest: Seq<char>) -> bool {
    &&& st.in_pre
    &&& st.in_tag ==> !contains(st.tag + rest, "</pre"@)
    &&& !st.in_tag ==> !starts_with(st.tag, "</pre"@) && !contains(rest, "</pre"@)
}

proof fn lemma_stripped_code_verbatim(st: TagScan, s: Seq<char>)
    requires
        scan_in_code(st, s),
    ensures
        stripped_from(st, s) == s,
    decreases s.len(),
{
    reveal_strlit("</pre");
    reveal_strlit("<pre");
    if s.len() > 0 {
        let c = s[0];
        let rest = s.drop_first();
        let next = scan_char(st, c);
        if st.in_tag {
            lemma_absent_in_suffix(st.tag + s, st.tag.len() as int, "</pre"@);
            assert((st.tag + s).skip(st.tag.len() as int) =~= s);
            lemma_prefix_lacks_start(st.tag, s, "</pre"@);
        }
        assert(!contains(s, "</pre"@));
        lemma_absent_in_suffix(s, 1, "</pre"@);
        assert(s.skip(1) =~= rest);
        if c == '<' {
            assert(next.tag + rest =~= s);
        } else if st.in_tag {
            assert(next.tag + rest =~= st.tag + s);
            if c == '>' {
                lemma_prefix_lacks_start(next.tag, rest, "</pre"@);
            }
        }
        assert(next.in_pre);
        assert(scan_in_code(next, rest));
        lemma_stripped_code_verbatim(next, rest);
        assert(s =~= seq![c] + rest);
    }
}

/// Joining onto one line keeps code as it was written: once the markup read
/// so far has ended a tag inside a `<pre>` block, the text that follows up
/// to the closing `</pre`, newlines included, comes out unchanged.
pub proof fn law_single_line_keeps_code(a: Seq<char>, b: Seq<char>)
    requires
        a.len() > 0,
        a.last() == '>',
        scan_run(scan_start(), a).in_pre,
        !contains(b, "</pre"@),
    ensures
        stripped(a + b) == stripped(a) + b,
{
    let before = scan_run(scan_start(), a.drop_last());
    assert(a =~= a.drop_last() + seq!['>']);
    lemma_scan_run_split(scan_start(), a.drop_last(), seq!['>']);
    let st = scan_run(scan_start(), a);
    assert(seq!['>'].drop_first() =~= Seq::<char>::empty());
    assert(scan_run(scan_char(before, '>'), Seq::<char>::empty()) == scan_char(before, '>'));
    assert(st == scan_char(before, '>'));
    lemma_closed_tag_state(st.tag, st.in_pre, before.in_pre);
    assert(scan_in_code(st, b));
    lemma_stripped_split(scan_start(), a, b);
    lemma_stripped_code_verbatim(st, b);
}

proof fn lemma_scan_run_split(st: TagScan, a: Seq<char>, b: Seq<char>)
    ensures
        scan_run(st, a + b) == scan_run(scan_run(st, a), b),
    decreases a.len(),
{
    if a.len() == 0 {
        assert(a + b =~= b);
    } else {
        assert((a + b).drop_first() =~= a.drop_first() + b);
        assert((a + b)[0] == a[0]);
        lemma_scan_run_split(scan_char(st, a[0]), a.drop_first(), b);
    }
}

// ---------------------------------------------------------------------------
// The document
// ---------------------------------------------------------------------------

/// The minimal HTML document around a converted fragment.
pub open spec fn document(body: Seq<char>, title: Seq<char>) -> Seq<char> {
    "<!DOCTYPE html>\n<html lang=\"en\">\n<head>\n<meta charset=\"utf-8\">\n<title>"@ + escaped(
        title,
        false,
    ) + "</title>\n</head>\n<body>\n"@ + trim_end(body) + "\n</body>\n</html>\n"@
}

/// Wrap the converted fragment in a minimal HTML document titled after the
/// input file. The charset declaration is essential so Word's typographic
/// characters (e.g. ’) are not misinterpreted as Latin-1 and rendered as
/// mojibake such as â€™.
pub fn wrap_document(body: &str, title: &str) -> (r: String)
    ensures
        r@ == document(body@, title@),
{
    let mut out: Vec<char> = Vec::new();
    push_str(
        &mut out,
        "<!DOCTYPE html>\n<html lang=\"en\">\n<head>\n<meta charset=\"utf-8\">\n<title>",
    );
    let t = escape_chars(&chars_of(title), false);
    push_chars(&mut out, &t);
    push_str(&mut out, "</title>\n</head>\n<body>\n");
    let b = chars_of(body);
    let end = trim_end_len_of(&b);
    let trimmed = slice_chars(&b, 0, end);
    push_chars(&mut out, &trimmed);
    push_str(&mut out, "\n</body>\n</html>\n");
    string_of(&out)
}

fn trim_end_len_of(s: &Vec<char>) -> (n: usize)
    ensures
        n <= s.len(),
        s@.subrange(0, n as int) == trim_end(s@),
{
    let t = crate::text::trim_end_len(s);
    assert(s@.subrange(0, t as int) == s@.take(t as int));
    t
}

/// The fragment laid out for width `width`: wrapped near that column, or for
/// 0 a single line with no newlines at all, except inside code blocks where
/// the newlines are part of the content.
pub open spec fn laid_out(body: Seq<char>, width: nat) -> Seq<char> {
    if width == 0 {
        stripped(body)
    } else {
        wrapped(body, width)
    }
}

/// Lays the converted fragment out for width `width` (0: one line).
pub fn layout_body(body: &str, width: usize) -> (r: String)
    ensures
        r@ == laid_out(body@, width as nat),
{
    if width == 0 {
        strip_newlines(body)
    } else {
        wrap(body, width)
    }
}

/// Build the final HTML document. `width` is the wrap column; 0 means a
/// single line with no newlines at all, except inside code blocks where the
/// newlines are part of the content.
pub fn build_document(body: &str, title: &str, width: usize) -> (r: String)
    ensures
        r@ == document(laid_out(body@, width as nat), title@),
{
    let laid = layout_body(body, width);
    wrap_document(laid.as_str(), title)
}

} // verus!
