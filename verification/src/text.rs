//! Text as a sequence of characters: comparing, searching, trimming and
//! cutting into lines.

use vstd::prelude::*;
use vstd::utf8::*;

verus! {

/// `needle` stands in `text` from position `i` on.
pub open spec fn occurs_at(text: Seq<char>, needle: Seq<char>, i: int) -> bool {
    0 <= i && i + needle.len() <= text.len() && text.subrange(i, i + needle.len()) == needle
}

/// `needle` stands somewhere in `text`.
pub open spec fn contains_text(text: Seq<char>, needle: Seq<char>) -> bool {
    exists|i: int| occurs_at(text, needle, i)
}

/// The text that `bytes` stand for, read as UTF-8, with a replacement character
/// in place of what is none.
pub uninterp spec fn lossy_text(bytes: Seq<u8>) -> Seq<char>;

/// `String::from_utf8_lossy`: valid UTF-8 is decoded, and of other bytes the
/// result depends on the bytes alone.
#[verifier::external_body]
pub(crate) fn decode_lossy(bytes: &[u8]) -> (text: String)
    ensures
        text@ == lossy_text(bytes@),
        valid_utf8(bytes@) ==> text@ == decode_utf8(bytes@),
{
    String::from_utf8_lossy(bytes).into_owned()
}

/// The number of characters that satisfy `p` before the first one that does not.
pub open spec fn run_len(s: Seq<char>, p: spec_fn(char) -> bool) -> nat
    decreases s.len(),
{
    if s.len() > 0 && p(s[0]) {
        1 + run_len(s.skip(1), p)
    } else {
        0
    }
}

/// The number of characters that satisfy `p` after the last one that does not.
pub open spec fn tail_len(s: Seq<char>, p: spec_fn(char) -> bool) -> nat
    decreases s.len(),
{
    if s.len() > 0 && p(s.last()) {
        1 + tail_len(s.drop_last(), p)
    } else {
        0
    }
}

/// `s` without the longest tail of characters that satisfy `p`.
pub open spec fn trimmed_end(s: Seq<char>, p: spec_fn(char) -> bool) -> Seq<char> {
    s.take(s.len() - tail_len(s, p))
}

/// The characters with the Unicode property White_Space.
pub open spec fn is_white_space(c: char) -> bool {
    ||| '\u{9}' <= c <= '\u{d}'
    ||| c == ' '
    ||| c == '\u{85}'
    ||| c == '\u{a0}'
    ||| c == '\u{1680}'
    ||| '\u{2000}' <= c <= '\u{200a}'
    ||| c == '\u{2028}'
    ||| c == '\u{2029}'
    ||| c == '\u{202f}'
    ||| c == '\u{205f}'
    ||| c == '\u{3000}'
}

/// The predicate "is white space".
pub open spec fn white() -> spec_fn(char) -> bool {
    |c: char| is_white_space(c)
}

/// The predicate "is not white space".
pub open spec fn not_white() -> spec_fn(char) -> bool {
    |c: char| !is_white_space(c)
}

/// The predicate "does not end a line".
pub open spec fn not_newline() -> spec_fn(char) -> bool {
    |c: char| c != '\n'
}

/// `s` without the white space around it.
pub open spec fn trimmed(s: Seq<char>) -> Seq<char> {
    trimmed_end(s.skip(run_len(s, white()) as int), white())
}

/// The last of the words of `s`, where white space separates words; empty if
/// there is no word.
pub open spec fn last_word(s: Seq<char>) -> Seq<char> {
    let t = trimmed_end(s, white());
    t.skip(t.len() - tail_len(t, not_white()))
}

/// A line without the carriage return that stood before its line feed.
pub open spec fn without_return(line: Seq<char>) -> Seq<char> {
    if line.len() > 0 && line.last() == '\r' {
        line.drop_last()
    } else {
        line
    }
}

/// The lines of `s`. A line ends with a line feed or with a carriage return and
/// a line feed; the line feed of the last line may be missing.
pub open spec fn lines(s: Seq<char>) -> Seq<Seq<char>>
    decreases s.len(),
{
    let n = run_len(s, not_newline());
    if s.len() == 0 {
        seq![]
    } else if n < s.len() {
        seq![without_return(s.take(n as int))] + lines(s.skip(n as int + 1))
    } else {
        seq![s]
    }
}

/// `c` with an ASCII capital letter replaced by the small one.
pub open spec fn ascii_lower(c: char) -> char {
    if 'A' <= c <= 'Z' {
        ((c as u32) + 32) as char
    } else {
        c
    }
}

/// `s` with the ASCII capital letters replaced by the small ones.
pub open spec fn ascii_lowercase(s: Seq<char>) -> Seq<char> {
    s.map_values(|c: char| ascii_lower(c))
}

/// A run is as long as its characters satisfy `p` and the next one does not.
pub proof fn lemma_run_len(s: Seq<char>, p: spec_fn(char) -> bool, k: int)
    requires
        0 <= k <= s.len(),
        forall|i: int| 0 <= i < k ==> p(#[trigger] s[i]),
        k < s.len() ==> !p(s[k]),
    ensures
        run_len(s, p) == k,
    decreases s.len(),
{
    if k > 0 {
        let t = s.skip(1);
        assert forall|i: int| 0 <= i < k - 1 implies p(#[trigger] t[i]) by {
            assert(t[i] == s[i + 1]);
        }
        lemma_run_len(t, p, k - 1);
    }
}

/// What a run is made of.
pub proof fn lemma_run(s: Seq<char>, p: spec_fn(char) -> bool)
    ensures
        run_len(s, p) <= s.len(),
        forall|i: int| 0 <= i < run_len(s, p) ==> p(#[trigger] s[i]),
        run_len(s, p) < s.len() ==> !p(s[run_len(s, p) as int]),
    decreases s.len(),
{
    if s.len() > 0 && p(s[0]) {
        let t = s.skip(1);
        lemma_run(t, p);
        assert forall|i: int| 0 <= i < run_len(s, p) implies p(#[trigger] s[i]) by {
            if i > 0 {
                assert(t[i - 1] == s[i]);
            }
        }
        assert(run_len(s, p) < s.len() ==> s[run_len(s, p) as int] == t[run_len(t, p) as int]);
    }
}

/// A tail is as long as its characters satisfy `p` and the one before does not.
pub proof fn lemma_tail_len(s: Seq<char>, p: spec_fn(char) -> bool, k: int)
    requires
        0 <= k <= s.len(),
        forall|i: int| s.len() - k <= i < s.len() ==> p(#[trigger] s[i]),
        k < s.len() ==> !p(s[s.len() - k - 1]),
    ensures
        tail_len(s, p) == k,
    decreases s.len(),
{
    if k > 0 {
        let t = s.drop_last();
        assert(p(s[s.len() - 1]));
        assert forall|i: int| t.len() - (k - 1) <= i < t.len() implies p(#[trigger] t[i]) by {
            assert(t[i] == s[i]);
        }
        lemma_tail_len(t, p, k - 1);
    }
}

/// What a tail is made of.
pub proof fn lemma_tail(s: Seq<char>, p: spec_fn(char) -> bool)
    ensures
        tail_len(s, p) <= s.len(),
        forall|i: int| s.len() - tail_len(s, p) <= i < s.len() ==> p(#[trigger] s[i]),
        tail_len(s, p) < s.len() ==> !p(s[s.len() - tail_len(s, p) - 1]),
    decreases s.len(),
{
    if s.len() > 0 && p(s.last()) {
        let t = s.drop_last();
        lemma_tail(t, p);
        assert forall|i: int| s.len() - tail_len(s, p) <= i < s.len() implies p(#[trigger] s[i]) by {
            if i < t.len() {
                assert(t[i] == s[i]);
            }
        }
    }
}

/// The characters of `s`, in order.
pub fn chars_of(s: &str) -> (chars: Vec<char>)
    ensures
        chars@ == s@,
{
    let mut chars: Vec<char> = Vec::new();
    for c in it: s.chars()
        invariant
            it.seq() == s@,
            chars@ == it.seq().take(it.index() as int),
    {
        chars.push(c);
    }
    assert(s@.take(s@.len() as int) =~= s@);
    chars
}

/// Whether two runs of characters are the same.
pub fn same_chars(a: &[char], b: &[char]) -> (same: bool)
    ensures
        same == (a@ == b@),
{
    if a.len() != b.len() {
        return false;
    }
    let mut i: usize = 0;
    while i < a.len()
        invariant
            a.len() == b.len(),
            i <= a.len(),
            forall|j: int| 0 <= j < i ==> a@[j] == b@[j],
        decreases a.len() - i,
    {
        if a[i] != b[i] {
            return false;
        }
        i += 1;
    }
    assert(a@ =~= b@);
    true
}

/// Whether two texts are the same.
pub fn same_text(a: &str, b: &str) -> (same: bool)
    ensures
        same == (a@ == b@),
{
    let a = chars_of(a);
    let b = chars_of(b);
    same_chars(&a, &b)
}

/// Whether `needle` stands in `text` from position `i` on.
pub fn matches_at(text: &[char], needle: &[char], i: usize) -> (found: bool)
    ensures
        found == occurs_at(text@, needle@, i as int),
{
    if i > text.len() || needle.len() > text.len() - i {
        return false;
    }
    let mut k: usize = 0;
    while k < needle.len()
        invariant
            i + needle.len() <= text.len(),
            k <= needle.len(),
            forall|j: int| 0 <= j < k ==> text@[i + j] == needle@[j],
        decreases needle.len() - k,
    {
        if text[i + k] != needle[k] {
            assert(text@.subrange(i as int, i + needle@.len())[k as int] != needle@[k as int]);
            return false;
        }
        k += 1;
    }
    assert(text@.subrange(i as int, i + needle@.len()) =~= needle@);
    true
}

/// The first position, from `from` on, at which `needle` stands in `text`.
pub fn find_from(text: &[char], needle: &[char], from: usize) -> (hit: Option<usize>)
    ensures
        match hit {
            Some(i) => from <= i && occurs_at(text@, needle@, i as int) && forall|j: int|
                from <= j < i ==> !occurs_at(text@, needle@, j),
            None => forall|j: int| from <= j ==> !occurs_at(text@, needle@, j),
        },
{
    let mut i: usize = from;
    while i < text.len()
        invariant
            from <= i,
            forall|j: int| from <= j < i ==> !occurs_at(text@, needle@, j),
        decreases text.len() - i,
    {
        if matches_at(text, needle, i) {
            return Some(i);
        }
        i += 1;
    }
    if i == text.len() && needle.len() == 0 {
        assert(text@.subrange(i as int, i as int) =~= needle@);
        return Some(i);
    }
    None
}

/// The last position at which `needle` stands in `text`.
pub fn find_last(text: &[char], needle: &[char]) -> (hit: Option<usize>)
    ensures
        match hit {
            Some(i) => occurs_at(text@, needle@, i as int) && forall|j: int|
                i < j ==> !occurs_at(text@, needle@, j),
            None => forall|j: int| !occurs_at(text@, needle@, j),
        },
{
    if needle.len() > text.len() {
        return None;
    }
    let mut i: usize = text.len() - needle.len();
    loop
        invariant
            i + needle.len() <= text.len(),
            forall|j: int| i < j ==> !occurs_at(text@, needle@, j),
        decreases i,
    {
        if matches_at(text, needle, i) {
            return Some(i);
        }
        if i == 0 {
            return None;
        }
        i -= 1;
    }
}

/// Whether `needle` stands somewhere in `text`.
pub fn has(text: &[char], needle: &[char]) -> (found: bool)
    ensures
        found == contains_text(text@, needle@),
{
    find_from(text, needle, 0).is_some()
}

/// Whether `needle` stands somewhere in `text`.
pub fn contains(text: &str, needle: &str) -> (found: bool)
    ensures
        found == contains_text(text@, needle@),
{
    let text = chars_of(text);
    let needle = chars_of(needle);
    has(&text, &needle)
}

/// Whether `text` begins with `prefix`.
pub fn begins_with(text: &[char], prefix: &[char]) -> (found: bool)
    ensures
        found == prefix@.is_prefix_of(text@),
{
    let found = matches_at(text, prefix, 0);
    assert(found == prefix@.is_prefix_of(text@)) by {
        if prefix@.is_prefix_of(text@) {
            assert(text@.subrange(0, prefix@.len() as int) =~= prefix@);
        }
    }
    found
}

/// Whether `c` has the Unicode property White_Space.
pub fn is_white(c: char) -> (white: bool)
    ensures
        white == is_white_space(c),
{
    ('\u{9}' <= c && c <= '\u{d}') || c == ' ' || c == '\u{85}' || c == '\u{a0}' || c == '\u{1680}'
        || ('\u{2000}' <= c && c <= '\u{200a}') || c == '\u{2028}' || c == '\u{2029}' || c
        == '\u{202f}' || c == '\u{205f}' || c == '\u{3000}'
}

/// Where the text proper ends: what follows in `text` is white space.
pub fn white_tail_start(text: &[char]) -> (end: usize)
    ensures
        end == text@.len() - tail_len(text@, white()),
        end <= text@.len(),
        text@.take(end as int) == trimmed_end(text@, white()),
{
    let mut end: usize = text.len();
    while end > 0 && is_white(text[end - 1])
        invariant
            end <= text.len(),
            forall|i: int| end <= i < text@.len() ==> is_white_space(#[trigger] text@[i]),
        decreases end,
    {
        end -= 1;
    }
    proof {
        lemma_tail_len(text@, white(), text@.len() - end);
    }
    end
}

/// The bounds of `text` without the white space around it.
pub fn trim_bounds(text: &[char]) -> (bounds: (usize, usize))
    ensures
        bounds.0 <= bounds.1 <= text@.len(),
        text@.subrange(bounds.0 as int, bounds.1 as int) == trimmed(text@),
{
    let mut start: usize = 0;
    while start < text.len() && is_white(text[start])
        invariant
            start <= text.len(),
            forall|i: int| 0 <= i < start ==> is_white_space(#[trigger] text@[i]),
        decreases text.len() - start,
    {
        start += 1;
    }
    proof {
        lemma_run_len(text@, white(), start as int);
    }
    let mut end: usize = text.len();
    while end > start && is_white(text[end - 1])
        invariant
            start <= end <= text.len(),
            forall|i: int| end <= i < text@.len() ==> is_white_space(#[trigger] text@[i]),
        decreases end,
    {
        end -= 1;
    }
    proof {
        let rest = text@.skip(start as int);
        assert forall|i: int| rest.len() - (text@.len() - end) <= i < rest.len() implies white()(
            #[trigger] rest[i],
        ) by {
            assert(rest[i] == text@[start + i]);
        }
        if text@.len() - end < rest.len() {
            assert(rest[end - start - 1] == text@[end - 1]);
        }
        lemma_tail_len(rest, white(), text@.len() - end);
        assert(text@.subrange(start as int, end as int) =~= trimmed(text@));
    }
    (start, end)
}

/// `text` without the white space around it.
pub fn trim(text: &str) -> (inner: String)
    ensures
        inner@ == trimmed(text@),
{
    let chars = chars_of(text);
    let (start, end) = trim_bounds(&chars);
    text.substring_char(start, end).to_owned()
}

/// The bounds of the last word of `text`.
pub fn last_word_bounds(text: &[char]) -> (bounds: (usize, usize))
    ensures
        bounds.0 <= bounds.1 <= text@.len(),
        text@.subrange(bounds.0 as int, bounds.1 as int) == last_word(text@),
{
    let end = white_tail_start(text);
    let mut start: usize = end;
    while start > 0 && !is_white(text[start - 1])
        invariant
            start <= end <= text.len(),
            forall|i: int| start <= i < end ==> !is_white_space(#[trigger] text@[i]),
        decreases start,
    {
        start -= 1;
    }
    proof {
        let t = text@.take(end as int);
        lemma_tail_len(t, not_white(), end - start);
        assert(text@.subrange(start as int, end as int) =~= t.skip(start as int));
    }
    (start, end)
}

/// The bounds of the lines of `text`.
pub fn line_bounds(text: &[char]) -> (all: Vec<(usize, usize)>)
    ensures
        all@.len() == lines(text@).len(),
        forall|i: int|
            0 <= i < all@.len() ==> {
                let (from, to) = #[trigger] all@[i];
                from <= to <= text@.len() && text@.subrange(from as int, to as int) == lines(text@)[i]
            },
{
    let mut all: Vec<(usize, usize)> = Vec::new();
    let mut pos: usize = 0;
    let ghost mut done: Seq<Seq<char>> = seq![];
    assert(text@.skip(0) =~= text@);
    assert(done + lines(text@) =~= lines(text@));
    while pos < text.len()
        invariant
            pos <= text.len(),
            all@.len() == done.len(),
            forall|i: int|
                0 <= i < all@.len() ==> {
                    let (from, to) = #[trigger] all@[i];
                    from <= to <= text@.len() && text@.subrange(from as int, to as int) == done[i]
                },
            lines(text@) == done + lines(text@.skip(pos as int)),
        decreases text.len() - pos,
    {
        let mut end: usize = pos;
        while end < text.len() && text[end] != '\n'
            invariant
                pos <= end <= text.len(),
                forall|i: int| pos <= i < end ==> #[trigger] text@[i] != '\n',
            decreases text.len() - end,
        {
            end += 1;
        }
        let ghost rest = text@.skip(pos as int);
        proof {
            assert forall|i: int| 0 <= i < end - pos implies not_newline()(#[trigger] rest[i]) by {
                assert(rest[i] == text@[pos + i]);
            }
            if end < text@.len() {
                assert(rest[end - pos] == text@[end as int]);
            }
            lemma_run_len(rest, not_newline(), end - pos);
            assert(rest.take(end - pos) =~= text@.subrange(pos as int, end as int));
        }
        let ended = end < text.len();
        let to: usize = if ended && end > pos && text[end - 1] == '\r' {
            end - 1
        } else {
            end
        };
        let ghost found = text@.subrange(pos as int, to as int);
        all.push((pos, to));
        if ended {
            proof {
                assert(found =~= without_return(rest.take(end - pos)));
                assert(rest.skip(end - pos + 1) =~= text@.skip(end + 1));
                assert(lines(rest) =~= seq![found] + lines(text@.skip(end + 1)));
                assert(done + lines(rest) =~= done.push(found) + lines(text@.skip(end + 1)));
            }
            pos = end + 1;
        } else {
            proof {
                assert(found =~= rest);
                assert(lines(rest) =~= seq![found]);
                assert(text@.skip(end as int) =~= Seq::<char>::empty());
                assert(done + lines(rest) =~= done.push(found) + lines(text@.skip(end as int)));
            }
            pos = end;
        }
        proof {
            done = done.push(found);
        }
    }
    assert(text@.skip(pos as int) =~= Seq::<char>::empty());
    assert(lines(text@) =~= done);
    all
}

/// `c` with an ASCII capital letter replaced by the small one.
pub fn to_lower(c: char) -> (small: char)
    ensures
        small == ascii_lower(c),
{
    if 'A' <= c && c <= 'Z' {
        ((c as u8) + 32) as char
    } else {
        c
    }
}

/// The characters of `text` with ASCII capital letters replaced by the small ones.
pub fn lower_chars(text: &str) -> (small: Vec<char>)
    ensures
        small@ == ascii_lowercase(text@),
{
    let chars = chars_of(text);
    let mut small: Vec<char> = Vec::new();
    let mut i: usize = 0;
    while i < chars.len()
        invariant
            i <= chars.len(),
            small@ == ascii_lowercase(chars@.take(i as int)),
        decreases chars.len() - i,
    {
        small.push(to_lower(chars[i]));
        i += 1;
        assert(small@ =~= ascii_lowercase(chars@.take(i as int)));
    }
    assert(chars@.take(i as int) =~= text@);
    small
}


/// What stands between two texts stands in the whole.
pub proof fn lemma_contains_between(before: Seq<char>, needle: Seq<char>, after: Seq<char>)
    ensures
        contains_text(before + needle + after, needle),
{
    let all = before + needle + after;
    let i = before.len() as int;
    assert(all.subrange(i, i + needle.len()) =~= needle);
    assert(occurs_at(all, needle, i));
}


/// Trimming takes the white space around a text and nothing else: what begins and
/// ends with other characters is what is left of it, whatever white space stands
/// around.
pub proof fn law_trimming_leaves_the_inner_text(
    before: Seq<char>,
    inner: Seq<char>,
    after: Seq<char>,
)
    requires
        forall|i: int| 0 <= i < before.len() ==> is_white_space(#[trigger] before[i]),
        forall|i: int| 0 <= i < after.len() ==> is_white_space(#[trigger] after[i]),
        inner.len() > 0 ==> !is_white_space(inner[0]) && !is_white_space(inner.last()),
    ensures
        trimmed(before + inner + after) == inner,
{
    let s = before + inner + after;
    let n = before.len() as int;
    if inner.len() > 0 {
        assert(s[n] == inner[0]);
        assert forall|i: int| 0 <= i < n implies white()(#[trigger] s[i]) by {
            assert(s[i] == before[i]);
        }
        lemma_run_len(s, white(), n);
        let t = s.skip(n);
        assert(t =~= inner + after);
        assert forall|i: int| t.len() - after.len() <= i < t.len() implies white()(
            #[trigger] t[i],
        ) by {
            assert(t[i] == after[i - inner.len()]);
        }
        assert(t[t.len() - after.len() - 1] == inner.last());
        lemma_tail_len(t, white(), after.len() as int);
        assert(trimmed(s) =~= inner);
    } else {
        assert forall|i: int| 0 <= i < s.len() implies white()(#[trigger] s[i]) by {
            if i < n {
                assert(s[i] == before[i]);
            } else {
                assert(s[i] == after[i - n]);
            }
        }
        lemma_run_len(s, white(), s.len() as int);
        let t = s.skip(s.len() as int);
        lemma_tail_len(t, white(), 0);
        assert(trimmed(s) =~= inner);
    }
}

/// The last word of a text is what stands behind the last white space before it.
pub proof fn law_last_word_stands_at_the_end(before: Seq<char>, word: Seq<char>, after: Seq<char>)
    requires
        before.len() > 0 ==> is_white_space(before.last()),
        word.len() > 0,
        forall|i: int| 0 <= i < word.len() ==> !is_white_space(#[trigger] word[i]),
        forall|i: int| 0 <= i < after.len() ==> is_white_space(#[trigger] after[i]),
    ensures
        last_word(before + word + after) == word,
{
    let s = before + word + after;
    assert forall|i: int| s.len() - after.len() <= i < s.len() implies white()(#[trigger] s[i]) by {
        assert(s[i] == after[i - before.len() - word.len()]);
    }
    assert(s[s.len() - after.len() - 1] == word[word.len() - 1]);
    lemma_tail_len(s, white(), after.len() as int);
    let t = trimmed_end(s, white());
    assert(t =~= before + word);
    assert forall|i: int| t.len() - word.len() <= i < t.len() implies not_white()(#[trigger] t[i]) by {
        assert(t[i] == word[i - before.len()]);
    }
    if before.len() > 0 {
        assert(t[t.len() - word.len() - 1] == before.last());
    }
    lemma_tail_len(t, not_white(), word.len() as int);
    assert(last_word(s) =~= word);
}

/// A line feed ends a line, with or without a carriage return before it, and the
/// rest is cut in the same way; what follows the last line feed is a line too,
/// unless it is empty.
pub proof fn law_lines_end_with_line_feeds(line: Seq<char>, rest: Seq<char>)
    requires
        forall|i: int| 0 <= i < line.len() ==> #[trigger] line[i] != '\n',
    ensures
        line.len() == 0 || line.last() != '\r' ==> lines(line + seq!['\n'] + rest) == seq![line]
            + lines(rest),
        lines(line + seq!['\r', '\n'] + rest) == seq![line] + lines(rest),
        line.len() > 0 ==> lines(line) == seq![line],
        lines(Seq::empty()) == Seq::<Seq<char>>::empty(),
{
    lemma_first_line(line, rest);
    let with_return = line.push('\r');
    assert forall|i: int| 0 <= i < with_return.len() implies #[trigger] with_return[i] != '\n' by {
        if i < line.len() {
            assert(with_return[i] == line[i]);
        }
    }
    lemma_first_line(with_return, rest);
    assert(line + seq!['\r', '\n'] + rest =~= with_return + seq!['\n'] + rest);
    assert(without_return(with_return) =~= line);
    lemma_run_len(line, not_newline(), line.len() as int);
}

proof fn lemma_first_line(line: Seq<char>, rest: Seq<char>)
    requires
        forall|i: int| 0 <= i < line.len() ==> #[trigger] line[i] != '\n',
    ensures
        lines(line + seq!['\n'] + rest) == seq![without_return(line)] + lines(rest),
{
    let s = line + seq!['\n'] + rest;
    let n = line.len() as int;
    assert forall|i: int| 0 <= i < n implies not_newline()(#[trigger] s[i]) by {
        assert(s[i] == line[i]);
    }
    assert(s[n] == '\n');
    lemma_run_len(s, not_newline(), n);
    assert(s.take(n) =~= line);
    assert(s.skip(n + 1) =~= rest);
}

/// Small letters: each capital letter of ASCII becomes the small one, 32 code
/// points on, and every other character stays.
pub proof fn law_small_letters(s: Seq<char>, i: int)
    requires
        0 <= i < s.len(),
    ensures
        ascii_lowercase(s).len() == s.len(),
        'A' <= s[i] <= 'Z' ==> ascii_lowercase(s)[i] as u32 == s[i] as u32 + 32,
        !('A' <= s[i] <= 'Z') ==> ascii_lowercase(s)[i] == s[i],
{
}

/// Small letters have no capital letters left, and whether a text is in capital or
/// small letters does not matter to them.
pub proof fn law_small_letters_stay_small(s: Seq<char>)
    ensures
        ascii_lowercase(ascii_lowercase(s)) == ascii_lowercase(s),
{
    assert forall|i: int| 0 <= i < s.len() implies ascii_lowercase(ascii_lowercase(s))[i]
        == ascii_lowercase(s)[i] by {
        lemma_small_letter(s[i]);
    }
    assert(ascii_lowercase(ascii_lowercase(s)) =~= ascii_lowercase(s));
}

proof fn lemma_small_letter(c: char)
    ensures
        ascii_lower(ascii_lower(c)) == ascii_lower(c),
{
}


/// A text stands at a place if and only if its characters do, one by one.
pub proof fn law_occurrence_is_letter_by_letter(text: Seq<char>, needle: Seq<char>, i: int)
    ensures
        occurs_at(text, needle, i) <==> 0 <= i && i + needle.len() <= text.len() && forall|k: int|
            0 <= k < needle.len() ==> text[i + k] == #[trigger] needle[k],
        contains_text(text, needle) <==> exists|j: int| #[trigger] occurs_at(text, needle, j),
{
    if 0 <= i && i + needle.len() <= text.len() {
        let part = text.subrange(i, i + needle.len());
        assert(forall|k: int| 0 <= k < needle.len() ==> part[k] == text[i + k]);
        if forall|k: int| 0 <= k < needle.len() ==> text[i + k] == #[trigger] needle[k] {
            assert(part =~= needle);
        }
    }
}

}
