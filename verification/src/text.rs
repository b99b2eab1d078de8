//! Texts as sequences of characters: trimming, splitting, searching, replacing and
//! joining, each with its meaning stated over `Seq<char>`.

use vstd::prelude::*;

verus! {

/// Whether `c` has the Unicode property White_Space.
pub open spec fn is_white_space(c: char) -> bool {
    let u = c as u32;
    ||| 0x09 <= u <= 0x0D
    ||| u == 0x20
    ||| u == 0x85
    ||| u == 0xA0
    ||| u == 0x1680
    ||| 0x2000 <= u <= 0x200A
    ||| u == 0x2028
    ||| u == 0x2029
    ||| u == 0x202F
    ||| u == 0x205F
    ||| u == 0x3000
}

/// `s` without the white space at its start.
pub open spec fn trim_start_of(s: Seq<char>) -> Seq<char>
    decreases s.len(),
{
    if s.len() > 0 && is_white_space(s.first()) {
        trim_start_of(s.drop_first())
    } else {
        s
    }
}

/// `s` without the white space at its end.
pub open spec fn trim_end_of(s: Seq<char>) -> Seq<char>
    decreases s.len(),
{
    if s.len() > 0 && is_white_space(s.last()) {
        trim_end_of(s.drop_last())
    } else {
        s
    }
}

/// `s` without the white space at either end.
pub open spec fn trimmed(s: Seq<char>) -> Seq<char> {
    trim_end_of(trim_start_of(s))
}

/// Whether `s` has no white space at its start nor at its end.
pub open spec fn is_trimmed(s: Seq<char>) -> bool {
    s.len() > 0 ==> !is_white_space(s.first()) && !is_white_space(s.last())
}

/// What is left after trimming the start does not begin with white space.
proof fn lemma_trim_start_result(s: Seq<char>)
    ensures
        trim_start_of(s).len() > 0 ==> !is_white_space(trim_start_of(s).first()),
    decreases s.len(),
{
    if s.len() > 0 && is_white_space(s.first()) {
        lemma_trim_start_result(s.drop_first());
    }
}

/// What is left after trimming the end does not end with white space, and begins as the
/// text began.
proof fn lemma_trim_end_result(s: Seq<char>)
    ensures
        trim_end_of(s).len() > 0 ==> !is_white_space(trim_end_of(s).last()) && trim_end_of(
            s,
        ).first() == s.first(),
    decreases s.len(),
{
    if s.len() > 0 && is_white_space(s.last()) {
        lemma_trim_end_result(s.drop_last());
    }
}

/// What trimming gives has no white space at its ends, and trimming it again changes nothing.
pub proof fn lemma_trimmed_is_trimmed(s: Seq<char>)
    ensures
        is_trimmed(trimmed(s)),
        trimmed(trimmed(s)) == trimmed(s),
{
    lemma_trim_start_result(s);
    lemma_trim_end_result(trim_start_of(s));
}

/// Whether `c` is white space.
pub fn white_space(c: char) -> (b: bool)
    ensures
        b == is_white_space(c),
{
    let u: u32 = c as u32;
    (0x09 <= u && u <= 0x0D) || u == 0x20 || u == 0x85 || u == 0xA0 || u == 0x1680 || (0x2000 <= u
        && u <= 0x200A) || u == 0x2028 || u == 0x2029 || u == 0x202F || u == 0x205F || u == 0x3000
}

/// The characters of `s`, one by one.
pub fn chars_of(s: &str) -> (chars: Vec<char>)
    ensures
        chars@ == s@,
{
    let mut chars: Vec<char> = Vec::new();
    for c in it: s.chars()
        invariant
            chars@ == it.seq().take(it.index() as int),
            it.seq() == s@,
    {
        chars.push(c);
    }
    chars
}

/// Trimming the start leaves what follows the leading run of white space.
proof fn lemma_trim_start(s: Seq<char>, lo: int)
    requires
        0 <= lo <= s.len(),
        forall|i: int| 0 <= i < lo ==> is_white_space(s[i]),
        lo < s.len() ==> !is_white_space(s[lo]),
    ensures
        trim_start_of(s) == s.subrange(lo, s.len() as int),
    decreases lo,
{
    if lo > 0 {
        lemma_trim_start(s.drop_first(), lo - 1);
    }
}

/// Trimming the end leaves what stands before the trailing run of white space.
proof fn lemma_trim_end(s: Seq<char>, hi: int)
    requires
        0 <= hi <= s.len(),
        forall|i: int| hi <= i < s.len() ==> is_white_space(s[i]),
        hi > 0 ==> !is_white_space(s[hi - 1]),
    ensures
        trim_end_of(s) == s.subrange(0, hi),
    decreases s.len() - hi,
{
    if hi < s.len() {
        lemma_trim_end(s.drop_last(), hi);
    }
}

/// The bounds of `chars[from..to]` without the white space at either end.
fn trim_bounds(chars: &Vec<char>, from: usize, to: usize) -> (bounds: (usize, usize))
    requires
        from <= to <= chars.len(),
    ensures
        from <= bounds.0 <= bounds.1 <= to,
        chars@.subrange(bounds.0 as int, bounds.1 as int) == trimmed(
            chars@.subrange(from as int, to as int),
        ),
{
    let ghost s = chars@.subrange(from as int, to as int);
    let mut lo: usize = from;
    while lo < to && white_space(chars[lo])
        invariant
            from <= lo <= to <= chars.len(),
            forall|i: int| from <= i < lo ==> is_white_space(chars[i]),
        decreases to - lo,
    {
        lo += 1;
    }
    let mut hi: usize = to;
    while hi > lo && white_space(chars[hi - 1])
        invariant
            lo <= hi <= to <= chars.len(),
            forall|i: int| hi <= i < to ==> is_white_space(chars[i]),
        decreases hi,
    {
        hi -= 1;
    }
    proof {
        lemma_trim_start(s, lo - from);
        let t = s.subrange(lo - from, s.len() as int);
        lemma_trim_end(t, hi - lo);
    }
    (lo, hi)
}

/// `s` without the white space at its start and at its end.
pub fn trim(s: &str) -> (out: String)
    ensures
        out@ == trimmed(s@),
{
    let chars = chars_of(s);
    let (lo, hi) = trim_bounds(&chars, 0, chars.len());
    assert(chars@.subrange(0, chars.len() as int) =~= chars@);
    String::from_str(s.substring_char(lo, hi))
}

/// `s` without the white space at its end.
pub fn trim_end(s: &str) -> (out: String)
    ensures
        out@ == trim_end_of(s@),
{
    let chars = chars_of(s);
    let mut hi: usize = chars.len();
    while hi > 0 && white_space(chars[hi - 1])
        invariant
            hi <= chars.len(),
            forall|i: int| hi <= i < chars.len() ==> is_white_space(chars[i]),
        decreases hi,
    {
        hi -= 1;
    }
    proof {
        lemma_trim_end(chars@, hi as int);
    }
    String::from_str(s.substring_char(0, hi))
}

/// Where `c` first occurs in `s`; the length of `s` where it does not occur.
pub open spec fn first_index_of(s: Seq<char>, c: char) -> int
    decreases s.len(),
{
    if s.len() == 0 || s.first() == c {
        0
    } else {
        1 + first_index_of(s.drop_first(), c)
    }
}

/// The pieces of `s` between the occurrences of `sep`: one more piece than occurrences.
pub open spec fn split_on(s: Seq<char>, sep: char) -> Seq<Seq<char>>
    decreases s.len(),
{
    let i = first_index_of(s, sep);
    if 0 <= i < s.len() {
        seq![s.subrange(0, i)] + split_on(s.subrange(i + 1, s.len() as int), sep)
    } else {
        seq![s]
    }
}

/// The position at which `c` stands, with no `c` before it, is where `c` first occurs.
proof fn lemma_first_index_of(s: Seq<char>, c: char, at: int)
    requires
        0 <= at <= s.len(),
        forall|i: int| 0 <= i < at ==> s[i] != c,
        at < s.len() ==> s[at] == c,
    ensures
        first_index_of(s, c) == at,
    decreases at,
{
    if at > 0 {
        lemma_first_index_of(s.drop_first(), c, at - 1);
    }
}

/// The pieces of `s` between the occurrences of `sep`, each without the white space at its ends.
pub open spec fn trimmed_pieces(s: Seq<char>, sep: char) -> Seq<Seq<char>> {
    split_on(s, sep).map_values(|piece: Seq<char>| trimmed(piece))
}

/// Splits `s` at every `sep` and trims each piece.
pub fn split_trimmed(s: &str, sep: char) -> (pieces: Vec<String>)
    ensures
        pieces.deep_view() == trimmed_pieces(s@, sep),
{
    let chars = chars_of(s);
    let n = chars.len();
    let mut pieces: Vec<String> = Vec::new();
    let mut start: usize = 0;
    let mut i: usize = 0;
    proof {
        assert(s@.subrange(0, n as int) =~= s@);
    }
    while i < n
        invariant
            chars@ == s@,
            n == chars.len(),
            start <= i <= n,
            forall|j: int| start <= j < i ==> chars[j] != sep,
            trimmed_pieces(s@, sep) == pieces.deep_view() + trimmed_pieces(
                s@.subrange(start as int, n as int),
                sep,
            ),
        decreases n - i,
    {
        if chars[i] == sep {
            let (lo, hi) = trim_bounds(&chars, start, i);
            let piece = String::from_str(s.substring_char(lo, hi));
            proof {
                let rest = s@.subrange(start as int, n as int);
                lemma_first_index_of(rest, sep, i - start);
                assert(rest.subrange(0, i - start) =~= s@.subrange(start as int, i as int));
                assert(rest.subrange(i - start + 1, rest.len() as int) =~= s@.subrange(
                    i + 1,
                    n as int,
                ));
            }
            pieces.push(piece);
            start = i + 1;
        }
        i += 1;
    }
    let (lo, hi) = trim_bounds(&chars, start, n);
    let piece = String::from_str(s.substring_char(lo, hi));
    proof {
        lemma_first_index_of(s@.subrange(start as int, n as int), sep, n - start);
    }
    pieces.push(piece);
    pieces
}

/// Whether `s` begins with `prefix`.
pub open spec fn has_prefix(s: Seq<char>, prefix: Seq<char>) -> bool {
    prefix.len() <= s.len() && s.subrange(0, prefix.len() as int) == prefix
}

/// Whether `pattern` stands in `s` at position `at`.
pub open spec fn occurs_at(s: Seq<char>, pattern: Seq<char>, at: int) -> bool {
    0 <= at <= s.len() && has_prefix(s.subrange(at, s.len() as int), pattern)
}

/// The first position from `from` on at which `pattern` stands in `s`.
pub open spec fn first_occurrence_from(s: Seq<char>, pattern: Seq<char>, from: int) -> Option<int>
    decreases s.len() - from,
{
    if from < 0 || from > s.len() {
        None
    } else if occurs_at(s, pattern, from) {
        Some(from)
    } else if from == s.len() {
        None
    } else {
        first_occurrence_from(s, pattern, from + 1)
    }
}

/// The first position at which `pattern` stands in `s`.
pub open spec fn first_occurrence(s: Seq<char>, pattern: Seq<char>) -> Option<int> {
    first_occurrence_from(s, pattern, 0)
}

/// The first occurrence is an occurrence, and there is none before it; where there is
/// no first occurrence, there is none at all.
pub proof fn lemma_first_occurrence_from(s: Seq<char>, pattern: Seq<char>, from: int)
    requires
        0 <= from <= s.len(),
    ensures
        match first_occurrence_from(s, pattern, from) {
            Some(at) => from <= at <= s.len() && occurs_at(s, pattern, at) && forall|j: int|
                from <= j < at ==> !occurs_at(s, pattern, j),
            None => forall|j: int| from <= j ==> !occurs_at(s, pattern, j),
        },
    decreases s.len() - from,
{
    if !occurs_at(s, pattern, from) && from < s.len() {
        lemma_first_occurrence_from(s, pattern, from + 1);
    }
}

/// `s` with every occurrence of `from` replaced by `to`, the occurrences taken from the
/// left and none overlapping another. An empty `from` occurs before every character
/// and at the end.
pub open spec fn replaced(s: Seq<char>, from: Seq<char>, to: Seq<char>) -> Seq<char>
    decreases s.len(),
{
    if from.len() == 0 {
        if s.len() == 0 {
            to
        } else {
            to + seq![s.first()] + replaced(s.drop_first(), from, to)
        }
    } else if s.len() == 0 {
        s
    } else if has_prefix(s, from) {
        to + replaced(s.subrange(from.len() as int, s.len() as int), from, to)
    } else {
        seq![s.first()] + replaced(s.drop_first(), from, to)
    }
}

/// Whether `pattern` stands in `chars` at position `at`.
fn pattern_at(chars: &Vec<char>, at: usize, pattern: &Vec<char>) -> (found: bool)
    requires
        at <= chars.len(),
    ensures
        found == occurs_at(chars@, pattern@, at as int),
{
    let ghost rest = chars@.subrange(at as int, chars.len() as int);
    if pattern.len() > chars.len() - at {
        return false;
    }
    let mut k: usize = 0;
    while k < pattern.len()
        invariant
            at <= chars.len(),
            pattern.len() <= chars.len() - at,
            k <= pattern.len(),
            rest == chars@.subrange(at as int, chars.len() as int),
            forall|j: int| 0 <= j < k ==> chars[at + j] == pattern[j],
        decreases pattern.len() - k,
    {
        if chars[at + k] != pattern[k] {
            return false;
        }
        k += 1;
    }
    assert(rest.subrange(0, pattern.len() as int) =~= pattern@);
    true
}

/// The first position at which `pattern` stands in `s`, counted in characters.
pub fn find(s: &str, pattern: &str) -> (at: Option<usize>)
    ensures
        match at {
            Some(i) => first_occurrence(s@, pattern@) == Some(i as int) && i <= s@.len(),
            None => first_occurrence(s@, pattern@) is None,
        },
{
    proof {
        lemma_first_occurrence_from(s@, pattern@, 0);
    }
    let chars = chars_of(s);
    let pat = chars_of(pattern);
    let mut i: usize = 0;
    while i <= chars.len()
        invariant
            chars@ == s@,
            pat@ == pattern@,
            i <= chars.len() + 1,
            first_occurrence(s@, pattern@) == first_occurrence_from(s@, pattern@, i as int),
        decreases chars.len() + 1 - i,
    {
        if pattern_at(&chars, i, &pat) {
            return Some(i);
        }
        if i == chars.len() {
            return None;
        }
        i += 1;
    }
    None
}

/// Whether `pattern` stands somewhere in `s`.
pub fn contains(s: &str, pattern: &str) -> (found: bool)
    ensures
        found == first_occurrence(s@, pattern@) is Some,
{
    find(s, pattern).is_some()
}

/// Replacing leaves a start of the text as it is where `from` occurs nowhere in that start.
proof fn lemma_replaced_skips(s: Seq<char>, from: Seq<char>, to: Seq<char>, upto: int)
    requires
        from.len() > 0,
        0 <= upto <= s.len(),
        forall|j: int| 0 <= j < upto ==> !occurs_at(s, from, j),
    ensures
        replaced(s, from, to) == s.subrange(0, upto) + replaced(
            s.subrange(upto, s.len() as int),
            from,
            to,
        ),
    decreases upto,
{
    assert(s.subrange(0, s.len() as int) =~= s);
    if upto > 0 {
        let rest = s.drop_first();
        assert(!occurs_at(s, from, 0));
        assert forall|j: int| 0 <= j < upto - 1 implies !occurs_at(rest, from, j) by {
            assert(!occurs_at(s, from, j + 1));
            assert(rest.subrange(j, rest.len() as int) =~= s.subrange(j + 1, s.len() as int));
        }
        lemma_replaced_skips(rest, from, to, upto - 1);
        assert(rest.subrange(upto - 1, rest.len() as int) =~= s.subrange(upto, s.len() as int));
    }
}

/// Where `from` does not occur in `s`, replacing it leaves `s` as it is.
pub proof fn lemma_replaced_without_occurrence(s: Seq<char>, from: Seq<char>, to: Seq<char>)
    requires
        from.len() > 0,
        forall|j: int| 0 <= j < s.len() ==> !occurs_at(s, from, j),
    ensures
        replaced(s, from, to) == s,
{
    lemma_replaced_skips(s, from, to, s.len() as int);
    assert(s.subrange(0, s.len() as int) =~= s);
}

/// `s` with every occurrence of `from` replaced by `to`.
pub fn replace(s: &str, from: &str, to: &str) -> (out: String)
    ensures
        out@ == replaced(s@, from@, to@),
{
    let chars = chars_of(s);
    let pat = chars_of(from);
    let n = chars.len();
    let mut out = String::new();
    if pat.len() == 0 {
        let mut i: usize = 0;
        proof {
            assert(s@.subrange(0, n as int) =~= s@);
        }
        while i < n
            invariant
                chars@ == s@,
                n == chars.len(),
                from@.len() == 0,
                i <= n,
                replaced(s@, from@, to@) == out@ + replaced(
                    s@.subrange(i as int, n as int),
                    from@,
                    to@,
                ),
            decreases n - i,
        {
            proof {
                let rest = s@.subrange(i as int, n as int);
                assert(rest.drop_first() =~= s@.subrange(i + 1, n as int));
            }
            out.append(to);
            out.append(s.substring_char(i, i + 1));
            i += 1;
        }
        out.append(to);
        return out;
    }
    let mut run: usize = 0;
    let mut i: usize = 0;
    proof {
        assert(s@.subrange(0, n as int) =~= s@);
    }
    while i < n
        invariant
            chars@ == s@,
            pat@ == from@,
            n == chars.len(),
            pat.len() > 0,
            run <= i <= n,
            forall|j: int| run <= j < i ==> !occurs_at(s@, from@, j),
            replaced(s@, from@, to@) == out@ + replaced(
                s@.subrange(run as int, n as int),
                from@,
                to@,
            ),
        decreases n - i,
    {
        if pattern_at(&chars, i, &pat) {
            proof {
                let rest = s@.subrange(run as int, n as int);
                assert forall|j: int| 0 <= j < i - run implies !occurs_at(rest, from@, j) by {
                    assert(!occurs_at(s@, from@, run + j));
                    assert(rest.subrange(j, rest.len() as int) =~= s@.subrange(
                        run + j,
                        n as int,
                    ));
                }
                lemma_replaced_skips(rest, from@, to@, i - run);
                let here = s@.subrange(i as int, n as int);
                assert(rest.subrange(i - run, rest.len() as int) =~= here);
                assert(here.subrange(from@.len() as int, here.len() as int) =~= s@.subrange(
                    i + from@.len(),
                    n as int,
                ));
            }
            out.append(s.substring_char(run, i));
            out.append(to);
            i += pat.len();
            run = i;
        } else {
            i += 1;
        }
    }
    proof {
        let rest = s@.subrange(run as int, n as int);
        assert forall|j: int| 0 <= j < n - run implies !occurs_at(rest, from@, j) by {
            assert(!occurs_at(s@, from@, run + j));
            assert(rest.subrange(j, rest.len() as int) =~= s@.subrange(run + j, n as int));
        }
        lemma_replaced_skips(rest, from@, to@, n - run);
    }
    out.append(s.substring_char(run, n));
    out
}

/// The parts one after another with `sep` between each two.
pub open spec fn joined(parts: Seq<Seq<char>>, sep: Seq<char>) -> Seq<char>
    decreases parts.len(),
{
    if parts.len() == 0 {
        Seq::empty()
    } else if parts.len() == 1 {
        parts[0]
    } else {
        joined(parts.drop_last(), sep) + sep + parts.last()
    }
}

/// The parts one after another with `sep` between each two.
pub fn join(parts: &Vec<String>, sep: &str) -> (out: String)
    ensures
        out@ == joined(parts.deep_view(), sep@),
{
    let mut out = String::new();
    let mut i: usize = 0;
    while i < parts.len()
        invariant
            i <= parts.len(),
            out@ == joined(parts.deep_view().take(i as int), sep@),
        decreases parts.len() - i,
    {
        proof {
            let upto = parts.deep_view().take(i + 1);
            assert(upto.drop_last() =~= parts.deep_view().take(i as int));
        }
        if i > 0 {
            out.append(sep);
        }
        out.append(parts[i].as_str());
        i += 1;
    }
    assert(parts.deep_view().take(parts.len() as int) =~= parts.deep_view());
    out
}

/// Whether the two texts hold the same characters.
pub fn same_text(a: &str, b: &str) -> (same: bool)
    ensures
        same == (a@ == b@),
{
    String::from_str(a) == String::from_str(b)
}

} // verus!
