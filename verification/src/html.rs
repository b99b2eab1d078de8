//! Texts made safe for HTML.

use vstd::prelude::*;
use crate::text::{
    chars_of, lemma_replaced_without_occurrence, occurs_at, replace, replaced,
};

verus! {

/// What stands for `c` in HTML text: an entity for `"`, `&`, `'`, `<` and `>`, and `c`
/// itself for any other character.
pub open spec fn entity_of(c: char) -> Seq<char> {
    if c == '"' {
        "&quot;"@
    } else if c == '&' {
        "&amp;"@
    } else if c == '\'' {
        "&#x27;"@
    } else if c == '<' {
        "&lt;"@
    } else if c == '>' {
        "&gt;"@
    } else {
        seq![c]
    }
}

/// `s` with each character replaced by what stands for it in HTML text.
pub open spec fn escaped(s: Seq<char>) -> Seq<char>
    decreases s.len(),
{
    if s.len() == 0 {
        Seq::empty()
    } else {
        escaped(s.drop_last()) + entity_of(s.last())
    }
}

/// The entity that stands for `c`, if `c` is not written as itself.
fn entity(c: char) -> (e: Option<&'static str>)
    ensures
        match e {
            Some(text) => entity_of(c) == text@,
            None => entity_of(c) == seq![c],
        },
{
    if c == '"' {
        Some("&quot;")
    } else if c == '&' {
        Some("&amp;")
    } else if c == '\'' {
        Some("&#x27;")
    } else if c == '<' {
        Some("&lt;")
    } else if c == '>' {
        Some("&gt;")
    } else {
        None
    }
}

/// `s` made safe for HTML text: `"`, `&`, `'`, `<` and `>` are written as entities.
pub fn escape_html(s: &str) -> (out: String)
    ensures
        out@ == escaped(s@),
{
    let chars = chars_of(s);
    let n = chars.len();
    let mut out = String::new();
    let mut run: usize = 0;
    let mut i: usize = 0;
    while i < n
        invariant
            chars@ == s@,
            n == chars.len(),
            run <= i <= n,
            out@ + s@.subrange(run as int, i as int) == escaped(s@.take(i as int)),
        decreases n - i,
    {
        proof {
            assert(s@.take(i + 1).drop_last() =~= s@.take(i as int));
        }
        if let Some(text) = entity(chars[i]) {
            out.append(s.substring_char(run, i));
            out.append(text);
            run = i + 1;
        }
        i += 1;
    }
    out.append(s.substring_char(run, n));
    assert(s@.take(n as int) =~= s@);
    out
}

/// `s`, already safe for HTML text, as it is written between the quotes of an
/// attribute: a `"` is written as `&quot;` and a `'` as `&#39;`.
pub open spec fn attribute_text_of(s: Seq<char>) -> Seq<char> {
    replaced(replaced(s, "\""@, "&quot;"@), "'"@, "&#39;"@)
}

/// What stands for a character in HTML text holds no quote.
proof fn lemma_entity_has_no_quote(c: char)
    ensures
        forall|j: int|
            0 <= j < entity_of(c).len() ==> entity_of(c)[j] != '"' && entity_of(c)[j] != '\'',
{
    reveal_strlit("&quot;");
    reveal_strlit("&amp;");
    reveal_strlit("&#x27;");
    reveal_strlit("&lt;");
    reveal_strlit("&gt;");
}

/// Text made safe for HTML holds no quote.
proof fn lemma_escaped_has_no_quote(s: Seq<char>)
    ensures
        forall|j: int|
            0 <= j < escaped(s).len() ==> escaped(s)[j] != '"' && escaped(s)[j] != '\'',
    decreases s.len(),
{
    if s.len() > 0 {
        let front = escaped(s.drop_last());
        let entity = entity_of(s.last());
        lemma_escaped_has_no_quote(s.drop_last());
        lemma_entity_has_no_quote(s.last());
        assert forall|j: int| 0 <= j < escaped(s).len() implies escaped(s)[j] != '"' && escaped(
            s,
        )[j] != '\'' by {
            if j >= front.len() {
                assert(escaped(s)[j] == entity[j - front.len()]);
            }
        }
    }
}

/// A pattern of one character occurs nowhere in a text that lacks the character.
proof fn lemma_no_char_no_occurrence(s: Seq<char>, pattern: Seq<char>)
    requires
        pattern.len() == 1,
        forall|j: int| 0 <= j < s.len() ==> s[j] != pattern[0],
    ensures
        forall|j: int| 0 <= j < s.len() ==> !occurs_at(s, pattern, j),
{
    assert forall|j: int| 0 <= j < s.len() implies !occurs_at(s, pattern, j) by {
        let rest = s.subrange(j, s.len() as int);
        if occurs_at(s, pattern, j) {
            assert(rest.subrange(0, 1)[0] == s[j]);
        }
    }
}

/// Text that is safe for HTML is written into an attribute as it is: it has no quote
/// left to write as an entity.
pub proof fn lemma_escaped_is_attribute_text(s: Seq<char>)
    ensures
        attribute_text_of(escaped(s)) == escaped(s),
{
    let safe = escaped(s);
    lemma_escaped_has_no_quote(s);
    reveal_strlit("\"");
    reveal_strlit("'");
    lemma_no_char_no_occurrence(safe, "\""@);
    lemma_replaced_without_occurrence(safe, "\""@, "&quot;"@);
    lemma_no_char_no_occurrence(safe, "'"@);
    lemma_replaced_without_occurrence(safe, "'"@, "&#39;"@);
}

/// `safe`, which is safe for HTML text already, as it is written between the quotes of
/// an attribute.
pub fn attribute_text(safe: &str) -> (out: String)
    ensures
        out@ == attribute_text_of(safe@),
{
    let quoted = replace(safe, "\"", "&quot;");
    replace(quoted.as_str(), "'", "&#39;")
}

} // verus!
