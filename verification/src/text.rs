//! Text as a sequence of characters: comparing, trimming and splitting it.

use vstd::prelude::*;
use vstd::utf8::{decode_utf8, valid_utf8};

verus! {

/// `String::push` appends the given character to the end of the string.
pub assume_specification[ String::push ](text: &mut String, c: char)
    ensures
        final(text)@ == old(text)@.push(c),
;

/// The characters of a string, in order.
pub fn chars_of(text: &str) -> (chars: Vec<char>)
    ensures
        chars@ == text@,
{
    let mut chars: Vec<char> = Vec::new();
    for c in it: text.chars()
        invariant
            chars@ == text@.take(it.index() as int),
            it.seq() == text@,
    {
        chars.push(c);
        assert(text@.take(it.index() + 1) =~= text@.take(it.index() as int).push(c));
    }
    assert(text@.take(text@.len() as int) =~= text@);
    chars
}

/// The string made of the given characters.
pub fn string_of(chars: &[char]) -> (text: String)
    ensures
        text@ == chars@,
{
    let mut text = String::new();
    for i in 0..chars.len()
        invariant
            text@ == chars@.take(i as int),
    {
        text.push(chars[i]);
        assert(chars@.take(i + 1) =~= chars@.take(i as int).push(chars@[i as int]));
    }
    assert(chars@.take(chars@.len() as int) =~= chars@);
    text
}

/// What `String::from_utf8_lossy` reads from bytes.
pub uninterp spec fn utf8_lossy(bytes: Seq<u8>) -> Seq<char>;

/// `String::from_utf8_lossy` reads bytes as UTF-8. What it gives depends on the
/// bytes alone; where all of them are valid UTF-8 it is the text that they
/// encode. Which replacement characters stand for bytes that are not valid is
/// left open.
#[verifier::external_body]
pub(crate) fn from_utf8_lossy(bytes: &[u8]) -> (text: String)
    ensures
        text@ == utf8_lossy(bytes@),
        valid_utf8(bytes@) ==> text@ == decode_utf8(bytes@),
{
    String::from_utf8_lossy(bytes).into_owned()
}

/// Whether two runs of characters are the same.
pub fn same_chars(a: &[char], b: &[char]) -> (same: bool)
    ensures
        same == (a@ == b@),
{
    if a.len() != b.len() {
        return false;
    }
    for i in 0..a.len()
        invariant
            a@.len() == b@.len(),
            forall|j: int| 0 <= j < i ==> a@[j] == b@[j],
    {
        if a[i] != b[i] {
            return false;
        }
    }
    assert(a@ =~= b@);
    true
}

/// Whether two strings hold the same characters.
pub fn same_text(a: &str, b: &str) -> (same: bool)
    ensures
        same == (a@ == b@),
{
    same_chars(chars_of(a).as_slice(), chars_of(b).as_slice())
}

/// Whether `text` begins with `prefix`.
pub fn starts_with(text: &[char], prefix: &[char]) -> (starts: bool)
    ensures
        starts == prefix@.is_prefix_of(text@),
{
    if text.len() < prefix.len() {
        return false;
    }
    let head = &text[0..prefix.len()];
    let starts = same_chars(prefix, head);
    starts
}

/// The characters that Unicode gives the property White_Space.
pub open spec fn is_white(c: char) -> bool {
    ||| '\u{9}' <= c <= '\u{d}'
    ||| c == '\u{20}'
    ||| c == '\u{85}'
    ||| c == '\u{a0}'
    ||| c == '\u{1680}'
    ||| '\u{2000}' <= c <= '\u{200a}'
    ||| c == '\u{2028}'
    ||| c == '\u{2029}'
    ||| c == '\u{202f}'
    ||| c == '\u{205f}'
    ||| c == '\u{3000}'
}

/// Whether `c` is white space.
pub fn is_whitespace(c: char) -> (white: bool)
    ensures
        white == is_white(c),
{
    ('\u{9}' <= c && c <= '\u{d}') || c == '\u{20}' || c == '\u{85}' || c == '\u{a0}' || c
        == '\u{1680}' || ('\u{2000}' <= c && c <= '\u{200a}') || c == '\u{2028}' || c == '\u{2029}'
        || c == '\u{202f}' || c == '\u{205f}' || c == '\u{3000}'
}

/// `s` without the white space at its front.
pub open spec fn trimmed_front(s: Seq<char>) -> Seq<char>
    decreases s.len(),
{
    if s.len() > 0 && is_white(s.first()) {
        trimmed_front(s.drop_first())
    } else {
        s
    }
}

/// `s` without the white space at its back.
pub open spec fn trimmed_back(s: Seq<char>) -> Seq<char>
    decreases s.len(),
{
    if s.len() > 0 && is_white(s.last()) {
        trimmed_back(s.drop_last())
    } else {
        s
    }
}

/// `s` without the white space around it.
pub open spec fn trimmed(s: Seq<char>) -> Seq<char> {
    trimmed_back(trimmed_front(s))
}

/// Takes the white space off the front of `s`.
pub fn trim_front(s: &[char]) -> (r: &[char])
    ensures
        r@ == trimmed_front(s@),
        r@.len() <= s@.len(),
{
    let mut start: usize = 0;
    assert(s@.skip(0) =~= s@);
    while start < s.len() && is_whitespace(s[start])
        invariant
            start <= s@.len(),
            trimmed_front(s@.skip(start as int)) == trimmed_front(s@),
        decreases s@.len() - start,
    {
        assert(s@.skip(start as int).drop_first() =~= s@.skip(start + 1));
        start += 1;
    }
    assert(s@.subrange(start as int, s@.len() as int) =~= s@.skip(start as int));
    &s[start..s.len()]
}

/// Takes the white space off the back of `s`.
pub fn trim_back(s: &[char]) -> (r: &[char])
    ensures
        r@ == trimmed_back(s@),
{
    let mut end: usize = s.len();
    assert(s@.take(end as int) =~= s@);
    while end > 0 && is_whitespace(s[end - 1])
        invariant
            end <= s@.len(),
            trimmed_back(s@.take(end as int)) == trimmed_back(s@),
        decreases end,
    {
        assert(s@.take(end as int).drop_last() =~= s@.take(end - 1));
        end -= 1;
    }
    assert(s@.subrange(0, end as int) =~= s@.take(end as int));
    &s[0..end]
}

/// Takes the white space off both ends of `s`.
pub fn trim(s: &[char]) -> (r: &[char])
    ensures
        r@ == trimmed(s@),
{
    trim_back(trim_front(s))
}

/// Where `c` first occurs in `s`, or the length of `s` where it does not.
pub open spec fn position(s: Seq<char>, c: char) -> nat
    decreases s.len(),
{
    if s.len() == 0 || s.first() == c {
        0
    } else {
        1 + position(s.drop_first(), c)
    }
}

pub(crate) proof fn lemma_position(s: Seq<char>, c: char)
    ensures
        position(s, c) <= s.len(),
        position(s, c) < s.len() ==> s[position(s, c) as int] == c,
        forall|i: int| 0 <= i < position(s, c) ==> s[i] != c,
    decreases s.len(),
{
    if s.len() > 0 && s.first() != c {
        lemma_position(s.drop_first(), c);
        assert forall|i: int| 0 <= i < position(s, c) implies s[i] != c by {
            if i > 0 {
                assert(s[i] == s.drop_first()[i - 1]);
            }
        }
    }
}

/// The first occurrence of a character is where it stands with none of it
/// before.
pub(crate) proof fn lemma_position_is(s: Seq<char>, c: char, n: int)
    requires
        0 <= n <= s.len(),
        n < s.len() ==> s[n] == c,
        forall|i: int| 0 <= i < n ==> s[i] != c,
    ensures
        position(s, c) == n,
{
    lemma_position(s, c);
}

/// Finds where `c` first occurs in `s`.
pub fn find(s: &[char], c: char) -> (n: usize)
    ensures
        n == position(s@, c),
        n <= s@.len(),
{
    let mut n: usize = 0;
    while n < s.len() && s[n] != c
        invariant
            n <= s@.len(),
            forall|i: int| 0 <= i < n ==> s@[i] != c,
        decreases s@.len() - n,
    {
        n += 1;
    }
    proof {
        lemma_position_is(s@, c, n as int);
    }
    n
}

/// The parts of `s` between the occurrences of `sep`.
pub open spec fn parts(s: Seq<char>, sep: char) -> Seq<Seq<char>>
    decreases s.len(),
{
    let n = position(s, sep);
    if n >= s.len() {
        seq![s]
    } else {
        seq![s.take(n as int)] + parts(s.skip(n as int + 1), sep)
    }
}

/// Splits `s` at every `sep`.
pub fn split(s: &[char], sep: char) -> (r: Vec<&[char]>)
    ensures
        r@.len() == parts(s@, sep).len(),
        forall|i: int| 0 <= i < r@.len() ==> (#[trigger] r@[i])@ == parts(s@, sep)[i],
{
    let mut r: Vec<&[char]> = Vec::new();
    let mut rest = s;
    let ghost all = parts(s@, sep);
    loop
        invariant
            r@.len() + parts(rest@, sep).len() == all.len(),
            forall|i: int| 0 <= i < r@.len() ==> (#[trigger] r@[i])@ == all[i],
            forall|i: int|
                0 <= i < parts(rest@, sep).len() ==> #[trigger] parts(rest@, sep)[i] == all[r@.len()
                    + i],
            all == parts(s@, sep),
        decreases rest@.len(),
    {
        let n = find(rest, sep);
        let ghost left = parts(rest@, sep);
        if n >= rest.len() {
            assert(left[0] == all[r@.len() as int]);
            r.push(rest);
            return r;
        }
        assert(rest@.subrange(0, n as int) =~= rest@.take(n as int));
        assert(rest@.subrange(n + 1, rest@.len() as int) =~= rest@.skip(n + 1));
        let ghost more = parts(rest@.skip(n + 1), sep);
        assert(left == seq![rest@.take(n as int)] + more);
        assert(left[0] == all[r@.len() as int]);
        assert forall|i: int| 0 <= i < more.len() implies #[trigger] more[i] == all[r@.len() + 1
            + i] by {
            assert(left[i + 1] == all[r@.len() + (i + 1)]);
        }
        r.push(&rest[0..n]);
        rest = &rest[n + 1..rest.len()];
    }
}

/// The first part of `s` and all that follows the first `sep`, where `sep`
/// occurs.
pub open spec fn halves(s: Seq<char>, sep: char) -> Option<(Seq<char>, Seq<char>)> {
    let n = position(s, sep);
    if n >= s.len() {
        None
    } else {
        Some((s.take(n as int), s.skip(n as int + 1)))
    }
}

/// Splits `s` at the first `sep`.
pub fn split_once(s: &[char], sep: char) -> (r: Option<(&[char], &[char])>)
    ensures
        match r {
            Some((a, b)) => halves(s@, sep) == Some((a@, b@)),
            None => halves(s@, sep) is None,
        },
{
    let n = find(s, sep);
    if n >= s.len() {
        None
    } else {
        assert(s@.subrange(0, n as int) =~= s@.take(n as int));
        assert(s@.subrange(n + 1, s@.len() as int) =~= s@.skip(n + 1));
        Some((&s[0..n], &s[n + 1..s.len()]))
    }
}

/// How many characters of `s` stand before its first white space.
pub open spec fn word_length(s: Seq<char>) -> nat
    decreases s.len(),
{
    if s.len() == 0 || is_white(s.first()) {
        0
    } else {
        1 + word_length(s.drop_first())
    }
}

pub(crate) proof fn lemma_word_length(s: Seq<char>)
    ensures
        word_length(s) <= s.len(),
        word_length(s) < s.len() ==> is_white(s[word_length(s) as int]),
        forall|i: int| 0 <= i < word_length(s) ==> !is_white(s[i]),
    decreases s.len(),
{
    if s.len() > 0 && !is_white(s.first()) {
        lemma_word_length(s.drop_first());
        assert forall|i: int| 0 <= i < word_length(s) implies !is_white(s[i]) by {
            if i > 0 {
                assert(s[i] == s.drop_first()[i - 1]);
            }
        }
    }
}

/// A word ends at the first white space.
pub(crate) proof fn lemma_word_length_is(s: Seq<char>, n: int)
    requires
        0 <= n <= s.len(),
        n < s.len() ==> is_white(s[n]),
        forall|i: int| 0 <= i < n ==> !is_white(s[i]),
    ensures
        word_length(s) == n,
{
    lemma_word_length(s);
}

pub(crate) proof fn lemma_trimmed_front_length(s: Seq<char>)
    ensures
        trimmed_front(s).len() <= s.len(),
        trimmed_front(s).len() > 0 ==> !is_white(trimmed_front(s).first()),
    decreases s.len(),
{
    if s.len() > 0 && is_white(s.first()) {
        lemma_trimmed_front_length(s.drop_first());
    }
}

/// The words of `s`: its longest runs without white space.
pub open spec fn words(s: Seq<char>) -> Seq<Seq<char>>
    decreases s.len(),
    via words_decreases
{
    let t = trimmed_front(s);
    if t.len() == 0 {
        Seq::empty()
    } else {
        seq![t.take(word_length(t) as int)] + words(t.skip(word_length(t) as int))
    }
}

#[via_fn]
proof fn words_decreases(s: Seq<char>) {
    let t = trimmed_front(s);
    lemma_trimmed_front_length(s);
    lemma_word_length(t);
}

/// Splits `s` into its words.
pub fn split_whitespace(s: &[char]) -> (r: Vec<&[char]>)
    ensures
        r@.len() == words(s@).len(),
        forall|i: int| 0 <= i < r@.len() ==> (#[trigger] r@[i])@ == words(s@)[i],
{
    let mut r: Vec<&[char]> = Vec::new();
    let mut rest = s;
    let ghost all = words(s@);
    loop
        invariant
            r@.len() + words(rest@).len() == all.len(),
            forall|i: int| 0 <= i < r@.len() ==> (#[trigger] r@[i])@ == all[i],
            forall|i: int|
                0 <= i < words(rest@).len() ==> #[trigger] words(rest@)[i] == all[r@.len() + i],
            all == words(s@),
        decreases rest@.len(),
    {
        let t = trim_front(rest);
        let ghost left = words(rest@);
        if t.len() == 0 {
            return r;
        }
        let mut n: usize = 0;
        while n < t.len() && !is_whitespace(t[n])
            invariant
                n <= t@.len(),
                forall|i: int| 0 <= i < n ==> !is_white(t@[i]),
            decreases t@.len() - n,
        {
            n += 1;
        }
        proof {
            lemma_trimmed_front_length(rest@);
            lemma_word_length(t@);
            assert(n == word_length(t@));
        }
        assert(t@.subrange(0, n as int) =~= t@.take(n as int));
        assert(t@.subrange(n as int, t@.len() as int) =~= t@.skip(n as int));
        let ghost more = words(t@.skip(n as int));
        assert(left == seq![t@.take(n as int)] + more);
        assert(left[0] == all[r@.len() as int]);
        assert forall|i: int| 0 <= i < more.len() implies #[trigger] more[i] == all[r@.len() + 1
            + i] by {
            assert(left[i + 1] == all[r@.len() + (i + 1)]);
        }
        r.push(&t[0..n]);
        rest = &t[n..t.len()];
    }
}

/// The first line of `s`, without its line ending, which is a line feed or a
/// carriage return and a line feed. An empty text has no line.
pub open spec fn first_line(s: Seq<char>) -> Option<Seq<char>> {
    let n = position(s, '\n');
    if s.len() == 0 {
        None
    } else if n >= s.len() {
        Some(s)
    } else if n > 0 && s[n - 1] == '\r' {
        Some(s.take(n - 1))
    } else {
        Some(s.take(n as int))
    }
}

/// Takes the first line of `s`.
pub fn take_line(s: &[char]) -> (r: Option<&[char]>)
    ensures
        match r {
            Some(line) => first_line(s@) == Some(line@),
            None => first_line(s@) is None,
        },
{
    if s.len() == 0 {
        return None;
    }
    let n = find(s, '\n');
    if n >= s.len() {
        return Some(s);
    }
    let end: usize = if n > 0 && s[n - 1] == '\r' { n - 1 } else { n };
    assert(s@.subrange(0, end as int) =~= s@.take(end as int));
    Some(&s[0..end])
}

/// Whether every character of `s` is white space.
pub open spec fn all_white(s: Seq<char>) -> bool {
    forall|i: int| 0 <= i < s.len() ==> is_white(#[trigger] s[i])
}

pub(crate) proof fn lemma_trimmed_front(lead: Seq<char>, s: Seq<char>)
    requires
        all_white(lead),
        s.len() > 0 ==> !is_white(s.first()),
    ensures
        trimmed_front(lead + s) == s,
    decreases lead.len(),
{
    if lead.len() > 0 {
        assert(is_white(lead[0]));
        assert((lead + s).drop_first() =~= lead.drop_first() + s);
        lemma_trimmed_front(lead.drop_first(), s);
    } else {
        assert(lead + s =~= s);
    }
}

pub(crate) proof fn lemma_trimmed_back(s: Seq<char>, trail: Seq<char>)
    requires
        all_white(trail),
        s.len() > 0 ==> !is_white(s.last()),
    ensures
        trimmed_back(s + trail) == s,
    decreases trail.len(),
{
    if trail.len() > 0 {
        assert(is_white(trail[trail.len() - 1]));
        assert((s + trail).drop_last() =~= s + trail.drop_last());
        lemma_trimmed_back(s, trail.drop_last());
    } else {
        assert(s + trail =~= s);
    }
}

/// Trimming takes off the white space around a text and nothing else: what is
/// left begins and ends as the text between the white space does, and a text of
/// white space leaves nothing.
pub proof fn law_trimming_takes_the_white_space_around(
    lead: Seq<char>,
    core: Seq<char>,
    trail: Seq<char>,
)
    requires
        all_white(lead),
        all_white(trail),
        core.len() > 0 ==> !is_white(core.first()) && !is_white(core.last()),
    ensures
        trimmed(lead + core + trail) == core,
        core.len() > 0 ==> trimmed_front(lead + core + trail) == core + trail,
        core.len() > 0 ==> trimmed_back(lead + core + trail) == lead + core,
        core.len() == 0 ==> trimmed_front(lead + core + trail).len() == 0,
        core.len() == 0 ==> trimmed_back(lead + core + trail).len() == 0,
{
    if core.len() > 0 {
        assert(lead + core + trail =~= lead + (core + trail));
        assert((core + trail).first() == core.first());
        lemma_trimmed_front(lead, core + trail);
        lemma_trimmed_back(core, trail);
        assert((lead + core).last() == core.last());
        lemma_trimmed_back(lead + core, trail);
    } else {
        let all = lead + core + trail;
        assert forall|i: int| 0 <= i < all.len() implies is_white(#[trigger] all[i]) by {
            if i < lead.len() {
                assert(all[i] == lead[i]);
            } else {
                assert(all[i] == trail[i - lead.len()]);
            }
        }
        assert(all =~= all + Seq::<char>::empty());
        lemma_trimmed_front(all, Seq::empty());
        assert(all =~= Seq::<char>::empty() + all);
        lemma_trimmed_back(Seq::empty(), all);
    }
}

/// Every text is white space, a core that neither begins nor ends with any, and
/// white space again; trimming gives the core.
pub proof fn law_every_text_has_a_core(s: Seq<char>) -> (r: (Seq<char>, Seq<char>))
    ensures
        s == r.0 + trimmed(s) + r.1,
        all_white(r.0),
        all_white(r.1),
        trimmed(s).len() > 0 ==> !is_white(trimmed(s).first()) && !is_white(trimmed(s).last()),
    decreases s.len(),
{
    if s.len() == 0 {
        assert(s =~= Seq::<char>::empty() + trimmed(s) + Seq::<char>::empty());
        (Seq::empty(), Seq::empty())
    } else if is_white(s.first()) {
        let (lead, trail) = law_every_text_has_a_core(s.drop_first());
        let longer = seq![s.first()] + lead;
        assert(s =~= seq![s.first()] + s.drop_first());
        assert(s =~= longer + trimmed(s) + trail);
        assert forall|i: int| 0 <= i < longer.len() implies is_white(#[trigger] longer[i]) by {
            if i > 0 {
                assert(longer[i] == lead[i - 1]);
            }
        }
        (longer, trail)
    } else {
        let trail = lemma_back_of(s);
        assert(s =~= Seq::<char>::empty() + trimmed(s) + trail);
        assert(trimmed(s).first() == s.first()) by {
            if trimmed(s).len() == 0 {
                assert(s[0] == trail[0]);
            }
        }
        (Seq::empty(), trail)
    }
}

/// The white space that trimming takes off the back of `s`.
proof fn lemma_back_of(s: Seq<char>) -> (trail: Seq<char>)
    ensures
        s == trimmed_back(s) + trail,
        all_white(trail),
        trimmed_back(s).len() > 0 ==> !is_white(trimmed_back(s).last()),
    decreases s.len(),
{
    if s.len() > 0 && is_white(s.last()) {
        let shorter = lemma_back_of(s.drop_last());
        let trail = shorter.push(s.last());
        assert(s =~= s.drop_last().push(s.last()));
        assert(s.drop_last() == trimmed_back(s) + shorter);
        assert(s =~= trimmed_back(s) + trail);
        assert forall|i: int| 0 <= i < trail.len() implies is_white(#[trigger] trail[i]) by {
            if i < shorter.len() {
                assert(trail[i] == shorter[i]);
            }
        }
        trail
    } else {
        assert(s =~= s + Seq::<char>::empty());
        Seq::empty()
    }
}

/// A character is found where it stands first: not at all just when the text
/// does not hold it.
pub proof fn law_first_occurrence_is_found(s: Seq<char>, c: char)
    ensures
        position(s, c) <= s.len(),
        position(s, c) < s.len() <==> s.contains(c),
        position(s, c) < s.len() ==> s[position(s, c) as int] == c,
        forall|i: int| 0 <= i < position(s, c) ==> s[i] != c,
{
    lemma_position(s, c);
}

/// A text without the separator is its own only part, and a separator ends the
/// part before it.
pub proof fn law_separators_end_parts(head: Seq<char>, rest: Seq<char>, sep: char)
    requires
        !head.contains(sep),
    ensures
        parts(head, sep) == seq![head],
        parts(head + seq![sep] + rest, sep) == seq![head] + parts(rest, sep),
        halves(head, sep) is None,
        halves(head + seq![sep] + rest, sep) == Some((head, rest)),
{
    assert forall|i: int| 0 <= i < head.len() implies head[i] != sep by {
        assert(head.contains(head[i]));
    }
    lemma_position_is(head, sep, head.len() as int);
    let all = head + seq![sep] + rest;
    assert forall|i: int| 0 <= i < head.len() implies all[i] != sep by {
        assert(all[i] == head[i]);
    }
    lemma_position_is(all, sep, head.len() as int);
    assert(all.take(head.len() as int) =~= head);
    assert(all.skip(head.len() as int + 1) =~= rest);
}

/// Parts with the separator between each two of them.
pub open spec fn joined(pieces: Seq<Seq<char>>, sep: char) -> Seq<char>
    decreases pieces.len(),
{
    if pieces.len() == 0 {
        Seq::empty()
    } else if pieces.len() == 1 {
        pieces[0]
    } else {
        pieces.first() + seq![sep] + joined(pieces.drop_first(), sep)
    }
}

/// Nothing is lost in splitting: the parts with the separator between them are
/// the text again, there is always a part, and no part holds the separator.
pub proof fn law_parts_join_to_the_text(s: Seq<char>, sep: char)
    ensures
        parts(s, sep).len() >= 1,
        joined(parts(s, sep), sep) == s,
        forall|i: int| 0 <= i < parts(s, sep).len() ==> !(#[trigger] parts(s, sep)[i]).contains(sep),
    decreases s.len(),
{
    lemma_position(s, sep);
    let n = position(s, sep) as int;
    let pieces = parts(s, sep);
    if n < s.len() {
        let rest = s.skip(n + 1);
        law_parts_join_to_the_text(rest, sep);
        assert(pieces.drop_first() =~= parts(rest, sep));
        assert(s =~= s.take(n) + seq![sep] + rest);
        assert forall|i: int| 0 <= i < pieces.len() implies !(#[trigger] pieces[i]).contains(
            sep,
        ) by {
            if i > 0 {
                assert(pieces[i] == parts(rest, sep)[i - 1]);
            }
        }
    }
}

/// Parts that are joined come apart again as they were.
pub proof fn law_joined_parts_come_apart(pieces: Seq<Seq<char>>, sep: char)
    requires
        pieces.len() >= 1,
        forall|i: int| 0 <= i < pieces.len() ==> !(#[trigger] pieces[i]).contains(sep),
    ensures
        parts(joined(pieces, sep), sep) == pieces,
    decreases pieces.len(),
{
    assert(!pieces[0].contains(sep));
    if pieces.len() == 1 {
        law_separators_end_parts(pieces[0], Seq::empty(), sep);
        assert(pieces =~= seq![pieces[0]]);
    } else {
        let rest = pieces.drop_first();
        assert forall|i: int| 0 <= i < rest.len() implies !(#[trigger] rest[i]).contains(sep) by {
            assert(rest[i] == pieces[i + 1]);
        }
        law_joined_parts_come_apart(rest, sep);
        law_separators_end_parts(pieces[0], joined(rest, sep), sep);
        assert(pieces =~= seq![pieces[0]] + rest);
    }
}

/// A text of white space has no words; else its first word reaches from its
/// first character that is not white space to the next white space.
pub proof fn law_white_space_ends_words(lead: Seq<char>, word: Seq<char>, rest: Seq<char>)
    requires
        all_white(lead),
        forall|i: int| 0 <= i < word.len() ==> !is_white(#[trigger] word[i]),
        word.len() > 0,
        rest.len() > 0 ==> is_white(rest.first()),
    ensures
        words(lead).len() == 0,
        words(lead + word + rest) == seq![word] + words(rest),
{
    assert(lead =~= lead + Seq::<char>::empty());
    lemma_trimmed_front(lead, Seq::empty());
    let tail = word + rest;
    assert(lead + word + rest =~= lead + tail);
    assert(!is_white(word[0]));
    assert(tail.first() == word[0]);
    lemma_trimmed_front(lead, tail);
    assert forall|i: int| 0 <= i < word.len() implies !is_white(tail[i]) by {
        assert(tail[i] == word[i]);
    }
    if rest.len() > 0 {
        assert(tail[word.len() as int] == rest.first());
    }
    lemma_word_length_is(tail, word.len() as int);
    assert(tail.take(word.len() as int) =~= word);
    assert(tail.skip(word.len() as int) =~= rest);
}

/// A line ends at the first line feed, and a carriage return before that goes
/// with it; the last line needs no end, and an empty text has no line.
pub proof fn law_line_ends_at_the_line_feed(line: Seq<char>, rest: Seq<char>)
    requires
        !line.contains('\n'),
    ensures
        first_line(line + seq!['\r', '\n'] + rest) == Some(line),
        (line.len() == 0 || line.last() != '\r') ==> first_line(line + seq!['\n'] + rest) == Some(
            line,
        ),
        line.len() > 0 ==> first_line(line) == Some(line),
        line.len() == 0 ==> first_line(line) is None,
{
    assert forall|i: int| 0 <= i < line.len() implies line[i] != '\n' by {
        assert(line.contains(line[i]));
    }
    let n = line.len() as int;
    lemma_position_is(line, '\n', n);
    let a = line + seq!['\r', '\n'] + rest;
    assert forall|i: int| 0 <= i < n + 1 implies a[i] != '\n' by {
        if i < n {
            assert(a[i] == line[i]);
        }
    }
    lemma_position_is(a, '\n', n + 1);
    assert(a.take(n) =~= line);
    let b = line + seq!['\n'] + rest;
    assert forall|i: int| 0 <= i < n implies b[i] != '\n' by {
        assert(b[i] == line[i]);
    }
    lemma_position_is(b, '\n', n);
    assert(b.take(n) =~= line);
    if n > 0 {
        assert(b[n - 1] == line.last());
    }
}

}
