//! SQL `LIKE` patterns for prefix matching.

use vstd::prelude::*;
use vstd::string::*;
use crate::text::push_char;

verus! {

/// A LIKE wildcard or the escape character.
pub open spec fn like_special(c: char) -> bool {
    c == '%' || c == '_' || c == '\\'
}

/// `text` with a backslash before every `%`, `_` and `\`.
pub open spec fn escape_like(text: Seq<char>) -> Seq<char>
    decreases text.len(),
{
    if text.len() == 0 {
        Seq::empty()
    } else if like_special(text.last()) {
        escape_like(text.drop_last()).push('\\').push(text.last())
    } else {
        escape_like(text.drop_last()).push(text.last())
    }
}

/// Escape LIKE wildcards in `prefix` and append `%`: a pattern (for
/// `LIKE ? ESCAPE '\'`) that matches exactly the texts starting with `prefix`.
pub fn escape_like_prefix(prefix: &str) -> (p: String)
    ensures
        p@ == escape_like(prefix@).push('%'),
{
    broadcast use vstd::string::group_string_axioms;
    let mut escaped = String::new();
    let n = prefix.unicode_len();
    let mut i: usize = 0;
    while i < n
        invariant
            n == prefix@.len(),
            i <= n,
            escaped@ == escape_like(prefix@.take(i as int)),
        decreases n - i,
    {
        let ch = prefix.get_char(i);
        if ch == '%' || ch == '_' || ch == '\\' {
            push_char(&mut escaped, '\\');
        }
        push_char(&mut escaped, ch);
        proof {
            assert(prefix@.take(i as int + 1).drop_last() =~= prefix@.take(i as int));
        }
        i = i + 1;
    }
    proof {
        assert(prefix@.take(n as int) =~= prefix@);
    }
    push_char(&mut escaped, '%');
    escaped
}

/// A prefix without wildcards is used as is.
pub proof fn lemma_escape_plain_text(text: Seq<char>)
    requires
        forall|i: int| 0 <= i < text.len() ==> !like_special(#[trigger] text[i]),
    ensures
        escape_like(text) == text,
    decreases text.len(),
{
    if text.len() > 0 {
        let d = text.drop_last();
        assert forall|i: int| 0 <= i < d.len() implies !like_special(#[trigger] d[i]) by {
            assert(d[i] == text[i]);
        }
        lemma_escape_plain_text(d);
        assert(text =~= d.push(text.last()));
    }
}

/// A character compared under SQLite's `LIKE` case folding: ASCII upper-case
/// letters count as their lower-case forms; every other character stands for
/// itself.
pub open spec fn like_fold(c: char) -> int {
    if 'A' <= c && c <= 'Z' {
        c as int + 32
    } else {
        c as int
    }
}

/// Whether the pattern character `p` matches the text character `t`.
pub open spec fn like_char_eq(p: char, t: char) -> bool {
    like_fold(p) == like_fold(t)
}

/// `text` matches `pattern` under `LIKE pattern ESCAPE '\'`: `%` matches any
/// run of characters, `_` any one character, `\` makes the next character
/// literal, and any other character matches itself up to ASCII case.
pub open spec fn like_match(pattern: Seq<char>, text: Seq<char>) -> bool
    decreases pattern.len(), text.len(),
{
    if pattern.len() == 0 {
        text.len() == 0
    } else if pattern[0] == '%' {
        like_match(pattern.skip(1), text) || (text.len() > 0 && like_match(pattern, text.skip(1)))
    } else if pattern[0] == '_' {
        text.len() > 0 && like_match(pattern.skip(1), text.skip(1))
    } else if pattern[0] == '\\' {
        pattern.len() >= 2 && text.len() > 0 && like_char_eq(pattern[1], text[0]) && like_match(
            pattern.skip(2),
            text.skip(1),
        )
    } else {
        text.len() > 0 && like_char_eq(pattern[0], text[0]) && like_match(pattern.skip(1), text.skip(1))
    }
}

/// `text` starts with `prefix`, up to ASCII case.
pub open spec fn starts_with_folded(text: Seq<char>, prefix: Seq<char>) -> bool {
    prefix.len() <= text.len() && forall|i: int| 0 <= i < prefix.len() ==> like_char_eq(
        #[trigger] prefix[i],
        text[i],
    )
}

/// One character, escaped.
pub open spec fn escape_char(c: char) -> Seq<char> {
    if like_special(c) {
        seq!['\\', c]
    } else {
        seq![c]
    }
}

/// Escaping distributes over concatenation.
proof fn lemma_escape_concat(a: Seq<char>, b: Seq<char>)
    ensures
        escape_like(a + b) == escape_like(a) + escape_like(b),
    decreases b.len(),
{
    if b.len() == 0 {
        assert(a + b =~= a);
        assert(escape_like(a) + escape_like(b) =~= escape_like(a));
    } else {
        let b0 = b.drop_last();
        lemma_escape_concat(a, b0);
        assert((a + b).drop_last() =~= a + b0);
        assert((a + b).last() == b.last());
        if like_special(b.last()) {
            assert(escape_like(a + b) =~= escape_like(a) + escape_like(b));
        } else {
            assert(escape_like(a + b) =~= escape_like(a) + escape_like(b));
        }
    }
}

/// Escaping a non-empty text escapes its first character, then the rest.
proof fn lemma_escape_first(text: Seq<char>)
    requires
        text.len() > 0,
    ensures
        escape_like(text) == escape_char(text[0]) + escape_like(text.skip(1)),
{
    let first = seq![text[0]];
    assert(text =~= first + text.skip(1));
    lemma_escape_concat(first, text.skip(1));
    assert(first.drop_last() =~= Seq::<char>::empty());
    assert(escape_like(Seq::<char>::empty()) =~= Seq::<char>::empty());
    assert(first.last() == text[0]);
    assert(escape_like(first) =~= escape_char(text[0]));
}

/// The number of `%`, `_` and `\` in `text`.
pub open spec fn special_count(text: Seq<char>) -> nat
    decreases text.len(),
{
    if text.len() == 0 {
        0
    } else {
        special_count(text.drop_last()) + if like_special(text.last()) {
            1nat
        } else {
            0nat
        }
    }
}

/// `escaped` with its escapes removed: a backslash is dropped and the
/// character after it kept as it is.
pub open spec fn unescape_like(escaped: Seq<char>) -> Seq<char>
    decreases escaped.len(),
{
    if escaped.len() == 0 {
        Seq::empty()
    } else if escaped[0] == '\\' && escaped.len() >= 2 {
        seq![escaped[1]] + unescape_like(escaped.skip(2))
    } else {
        seq![escaped[0]] + unescape_like(escaped.skip(1))
    }
}

proof fn lemma_escape_len(text: Seq<char>)
    ensures
        escape_like(text).len() == text.len() + special_count(text),
    decreases text.len(),
{
    if text.len() > 0 {
        lemma_escape_len(text.drop_last());
    }
}

proof fn lemma_unescape_escape(text: Seq<char>)
    ensures
        unescape_like(escape_like(text)) == text,
    decreases text.len(),
{
    if text.len() > 0 {
        let c = text[0];
        let rest = text.skip(1);
        let e = escape_like(text);
        let er = escape_like(rest);
        lemma_escape_first(text);
        lemma_unescape_escape(rest);
        if like_special(c) {
            assert(e =~= seq!['\\', c] + er);
            assert(e[0] == '\\' && e[1] == c);
            assert(e.skip(2) =~= er);
        } else {
            assert(e =~= seq![c] + er);
            assert(e[0] == c);
            assert(e.skip(1) =~= er);
        }
        assert(seq![c] + rest =~= text);
    }
}

/// Escaping adds one backslash for each `%`, `_` and `\` of the text, so the
/// pattern `escape_like_prefix` builds is that much longer than the prefix
/// plus the final `%`; removing the escapes gives the text back.
pub proof fn lemma_escape_like_round_trip(prefix: Seq<char>)
    ensures
        escape_like(prefix).len() == prefix.len() + special_count(prefix),
        escape_like(prefix).push('%').len() == prefix.len() + special_count(prefix) + 1,
        unescape_like(escape_like(prefix)) == prefix,
{
    lemma_escape_len(prefix);
    lemma_unescape_escape(prefix);
}

/// A lone `%` matches every text.
proof fn lemma_percent_matches_all(text: Seq<char>)
    ensures
        like_match(seq!['%'], text),
    decreases text.len(),
{
    let p = seq!['%'];
    assert(p.len() == 1 && p[0] == '%');
    assert(p.skip(1) =~= Seq::<char>::empty());
    if text.len() > 0 {
        lemma_percent_matches_all(text.skip(1));
    } else {
        assert(like_match(p.skip(1), text));
    }
}

/// The pattern `escape_like_prefix` builds matches exactly the texts that
/// start with the prefix (up to ASCII case, as `LIKE` compares): wildcards in
/// the prefix match only themselves.
pub proof fn lemma_prefix_pattern_matches(prefix: Seq<char>, text: Seq<char>)
    ensures
        like_match(escape_like(prefix).push('%'), text) <==> starts_with_folded(text, prefix),
    decreases prefix.len(),
{
    let pat = escape_like(prefix).push('%');
    if prefix.len() == 0 {
        assert(pat =~= seq!['%']);
        lemma_percent_matches_all(text);
    } else {
        let c = prefix[0];
        let rest = prefix.skip(1);
        let pat_rest = escape_like(rest).push('%');
        lemma_escape_first(prefix);
        if text.len() > 0 {
            lemma_prefix_pattern_matches(rest, text.skip(1));
        }
        if like_special(c) {
            assert(pat =~= seq!['\\', c] + pat_rest);
            assert(pat[0] == '\\');
            assert(pat[1] == c);
            assert(pat.skip(2) =~= pat_rest);
            assert(like_match(pat, text) == (text.len() > 0 && like_char_eq(c, text[0]) && like_match(
                pat_rest,
                text.skip(1),
            )));
        } else {
            assert(pat =~= seq![c] + pat_rest);
            assert(pat[0] == c);
            assert(pat.skip(1) =~= pat_rest);
            assert(like_match(pat, text) == (text.len() > 0 && like_char_eq(c, text[0]) && like_match(
                pat_rest,
                text.skip(1),
            )));
        }
        if starts_with_folded(text, prefix) {
            assert(like_char_eq(prefix[0], text[0]));
            assert forall|i: int| 0 <= i < rest.len() implies like_char_eq(
                #[trigger] rest[i],
                text.skip(1)[i],
            ) by {
                assert(like_char_eq(prefix[i + 1], text[i + 1]));
            }
        }
        if text.len() > 0 && like_char_eq(c, text[0]) && starts_with_folded(text.skip(1), rest) {
            assert forall|i: int| 0 <= i < prefix.len() implies like_char_eq(
                #[trigger] prefix[i],
                text[i],
            ) by {
                if i > 0 {
                    assert(like_char_eq(rest[i - 1], text.skip(1)[i - 1]));
                }
            }
        }
    }
}

/// The unescaped LIKE pattern for `task_type` prefix matching: the prefix
/// followed by `%`.
pub fn prefix_pattern(prefix: &str) -> (p: String)
    ensures
        p@ == prefix@.push('%'),
{
    let mut s = prefix.to_owned();
    push_char(&mut s, '%');
    s
}

} // verus!
