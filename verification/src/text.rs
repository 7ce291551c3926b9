//! Text as sequences of characters: blanks, lines and words, and the few
//! operations on `String` and `str` that the rest of the crate is built on.

use vstd::prelude::*;

verus! {

/// `String::push` of the standard library appends the character to the end of
/// the string and leaves the rest as it was.
pub assume_specification[ String::push ](s: &mut String, c: char)
    ensures
        final(s)@ == old(s)@.push(c),
;

/// Equality of two string slices in the standard library holds exactly when
/// they are made of the same characters in the same order.
pub assume_specification[ <str as PartialEq>::eq ](a: &str, b: &str) -> (same: bool)
    ensures
        same == (a@ == b@),
;

/// Whether `c` is white space: a character with the Unicode property
/// `White_Space`.
pub open spec fn spec_is_blank(c: char) -> bool {
    let n = c as u32;
    ||| 0x09 <= n <= 0x0D
    ||| n == 0x20
    ||| n == 0x85
    ||| n == 0xA0
    ||| n == 0x1680
    ||| 0x2000 <= n <= 0x200A
    ||| n == 0x2028
    ||| n == 0x2029
    ||| n == 0x202F
    ||| n == 0x205F
    ||| n == 0x3000
}

/// Whether no character of `s` is white space.
pub open spec fn blank_free(s: Seq<char>) -> bool {
    forall|i: int| 0 <= i < s.len() ==> !spec_is_blank(#[trigger] s[i])
}

/// Whether `c` does not occur in `s`.
pub open spec fn free_of(s: Seq<char>, c: char) -> bool {
    forall|i: int| 0 <= i < s.len() ==> #[trigger] s[i] != c
}

/// How many characters of `s` come before its first `c`: all of them where it
/// has none.
pub open spec fn len_before(s: Seq<char>, c: char) -> nat
    decreases s.len(),
{
    if s.len() == 0 || s[0] == c {
        0
    } else {
        1 + len_before(s.drop_first(), c)
    }
}

/// How many characters of `s` come before its first blank: all of them where
/// it has none.
pub open spec fn word_len(s: Seq<char>) -> nat
    decreases s.len(),
{
    if s.len() == 0 || spec_is_blank(s[0]) {
        0
    } else {
        1 + word_len(s.drop_first())
    }
}

/// The lines of `text`: the pieces that its line feeds end. What follows the
/// last line feed is a line too, unless it is empty.
pub open spec fn lines(text: Seq<char>) -> Seq<Seq<char>>
    decreases text.len(),
{
    if text.len() == 0 {
        Seq::empty()
    } else {
        let n = len_before(text, '\n') as int;
        if n >= text.len() {
            seq![text]
        } else {
            seq![text.take(n)] + lines(text.skip(n + 1))
        }
    }
}

/// The pieces of `s` that `c` parts, in order: one more than `s` has of `c`,
/// empty ones among them where two of `c` meet or one stands at an end.
pub open spec fn split(s: Seq<char>, c: char) -> Seq<Seq<char>>
    decreases s.len(),
{
    let n = len_before(s, c) as int;
    if n >= s.len() {
        seq![s]
    } else {
        seq![s.take(n)] + split(s.skip(n + 1), c)
    }
}

/// The words of `line`: its longest pieces free of blanks, in order.
pub open spec fn words(line: Seq<char>) -> Seq<Seq<char>>
    decreases line.len(),
{
    if line.len() == 0 {
        Seq::empty()
    } else if spec_is_blank(line[0]) {
        words(line.drop_first())
    } else {
        let n = word_len(line) as int;
        if n >= line.len() {
            seq![line]
        } else {
            seq![line.take(n)] + words(line.skip(n))
        }
    }
}

/// The views of the strings of `v`, in order.
pub open spec fn texts(v: Seq<String>) -> Seq<Seq<char>> {
    Seq::new(v.len(), |i: int| v[i]@)
}

/// Whether `c` is white space.
#[verifier::when_used_as_spec(spec_is_blank)]
pub fn is_blank(c: char) -> (b: bool)
    ensures
        b == spec_is_blank(c),
{
    let n: u32 = c as u32;
    (0x09 <= n && n <= 0x0D) || n == 0x20 || n == 0x85 || n == 0xA0 || n == 0x1680 || (0x2000 <= n
        && n <= 0x200A) || n == 0x2028 || n == 0x2029 || n == 0x202F || n == 0x205F || n == 0x3000
}

/// The characters of `s`, one by one.
pub fn chars_of(s: &str) -> (v: Vec<char>)
    ensures
        v@ == s@,
{
    let mut v: Vec<char> = Vec::new();
    for c in it: s.chars()
        invariant
            v@ == it.seq().take(it.index()),
            it.seq() == s@,
    {
        v.push(c);
    }
    v
}

/// The string made of the characters of `chars` from `from` up to `to`.
pub(crate) fn string_of(chars: &Vec<char>, from: usize, to: usize) -> (s: String)
    requires
        from <= to <= chars.len(),
    ensures
        s@ == chars@.subrange(from as int, to as int),
{
    let mut s = String::new();
    let mut i: usize = from;
    while i < to
        invariant
            from <= i <= to <= chars.len(),
            s@ == chars@.subrange(from as int, i as int),
        decreases to - i,
    {
        s.push(chars[i]);
        i += 1;
    }
    s
}

/// Where the first `c` of `chars` between `from` and `to` stands: `to` where
/// there is none.
pub(crate) fn find_char(chars: &Vec<char>, c: char, from: usize, to: usize) -> (end: usize)
    requires
        from <= to <= chars.len(),
    ensures
        from <= end <= to,
        end == from + len_before(chars@.subrange(from as int, to as int), c),
{
    let mut j: usize = from;
    while j < to && chars[j] != c
        invariant
            from <= j <= to <= chars.len(),
            len_before(chars@.subrange(from as int, to as int), c) == (j - from) + len_before(
                chars@.subrange(j as int, to as int),
                c,
            ),
        decreases to - j,
    {
        assert(chars@.subrange(j as int, to as int).drop_first() == chars@.subrange(
            j + 1,
            to as int,
        ));
        j += 1;
    }
    j
}

/// Where the word that begins at `from` ends: at the next blank, or at `to`.
pub(crate) fn word_end(chars: &Vec<char>, from: usize, to: usize) -> (end: usize)
    requires
        from <= to <= chars.len(),
    ensures
        from <= end <= to,
        end == from + word_len(chars@.subrange(from as int, to as int)),
{
    let mut j: usize = from;
    while j < to && !is_blank(chars[j])
        invariant
            from <= j <= to <= chars.len(),
            word_len(chars@.subrange(from as int, to as int)) == (j - from) + word_len(
                chars@.subrange(j as int, to as int),
            ),
        decreases to - j,
    {
        assert(chars@.subrange(j as int, to as int).drop_first() == chars@.subrange(
            j + 1,
            to as int,
        ));
        j += 1;
    }
    j
}

/// The words of `chars` between `from` and `to`, each as a string of its own.
pub(crate) fn split_words(chars: &Vec<char>, from: usize, to: usize) -> (found: Vec<String>)
    requires
        from <= to <= chars.len(),
    ensures
        texts(found@) == words(chars@.subrange(from as int, to as int)),
{
    let mut found: Vec<String> = Vec::new();
    let mut i: usize = from;
    while i < to
        invariant
            from <= i <= to <= chars.len(),
            texts(found@) + words(chars@.subrange(i as int, to as int)) == words(
                chars@.subrange(from as int, to as int),
            ),
        decreases to - i,
    {
        let ghost rest = chars@.subrange(i as int, to as int);
        if is_blank(chars[i]) {
            assert(rest.drop_first() == chars@.subrange(i + 1, to as int));
            i += 1;
        } else {
            let end = word_end(chars, i, to);
            let word = string_of(chars, i, end);
            proof {
                assert(rest.take(end - i) == chars@.subrange(i as int, end as int));
                assert(rest.skip(end - i) == chars@.subrange(end as int, to as int));
            }
            found.push(word);
            i = end;
        }
    }
    found
}

/// The pieces of `text` that `c` parts, each as a string of its own.
pub fn split_on(text: &str, c: char) -> (parts: Vec<String>)
    ensures
        texts(parts@) == split(text@, c),
{
    let chars = chars_of(text);
    let mut parts: Vec<String> = Vec::new();
    let mut i: usize = 0;
    assert(chars@.subrange(0, chars.len() as int) == chars@);
    loop
        invariant
            i <= chars.len(),
            chars@ == text@,
            texts(parts@) + split(chars@.subrange(i as int, chars.len() as int), c) == split(
                text@,
                c,
            ),
        decreases chars.len() - i,
    {
        let ghost rest = chars@.subrange(i as int, chars.len() as int);
        let end = find_char(&chars, c, i, chars.len());
        let part = string_of(&chars, i, end);
        proof {
            assert(rest.take(end - i) == part@);
        }
        parts.push(part);
        if end >= chars.len() {
            return parts;
        }
        assert(rest.skip(end - i + 1) == chars@.subrange(end + 1, chars.len() as int));
        i = end + 1;
    }
}

/// Splitting never gives nothing, and it gives one piece only where that
/// piece is the whole.
pub proof fn lemma_split_one(s: Seq<char>, c: char)
    ensures
        split(s, c).len() >= 1,
        split(s, c).len() == 1 ==> split(s, c)[0] == s,
{
    let n = len_before(s, c) as int;
    if n < s.len() {
        let rest = s.skip(n + 1);
        let m = len_before(rest, c) as int;
        if m < rest.len() {
            assert(split(rest, c) == seq![rest.take(m)] + split(rest.skip(m + 1), c));
        }
    }
}

/// Where `c` does not occur in `a`, the first `c` of `a`, `c` and `rest` is
/// the one after `a`; and `a` alone has no first `c`.
proof fn lemma_len_before(a: Seq<char>, c: char, rest: Seq<char>)
    requires
        free_of(a, c),
    ensures
        len_before(a + seq![c] + rest, c) == a.len(),
        len_before(a, c) == a.len(),
    decreases a.len(),
{
    let whole = a + seq![c] + rest;
    if a.len() > 0 {
        assert(whole.drop_first() == a.drop_first() + seq![c] + rest);
        assert(free_of(a.drop_first(), c));
        lemma_len_before(a.drop_first(), c, rest);
    }
}

/// A text in which `c` does not occur is one piece.
pub proof fn lemma_split_whole(s: Seq<char>, c: char)
    requires
        free_of(s, c),
    ensures
        split(s, c) == seq![s],
{
    lemma_len_before(s, c, Seq::empty());
}

/// Where `c` does not occur in `a`, the pieces of `a`, `c` and `rest` are `a`
/// and the pieces of `rest`.
pub proof fn lemma_split_first(a: Seq<char>, c: char, rest: Seq<char>)
    requires
        free_of(a, c),
    ensures
        split(a + seq![c] + rest, c) == seq![a] + split(rest, c),
{
    let whole = a + seq![c] + rest;
    lemma_len_before(a, c, rest);
    assert(whole.take(a.len() as int) == a);
    assert(whole.skip(a.len() as int + 1) == rest);
}

/// A line feed ends the line: where `s` has no line feed, the first line of
/// `s`, a line feed and `rest` is `s`, and the other lines are those of `rest`.
pub proof fn lemma_lines_after_line(s: Seq<char>, rest: Seq<char>)
    requires
        free_of(s, '\n'),
    ensures
        lines(s + seq!['\n'] + rest) == seq![s] + lines(rest),
{
    let whole = s + seq!['\n'] + rest;
    lemma_len_before(s, '\n', rest);
    assert(whole.take(s.len() as int) == s);
    assert(whole.skip(s.len() as int + 1) == rest);
}

/// A word ends at a blank or at the end: where `s` has no blank and `rest` is
/// empty or begins with one, the first word of `s` and `rest` is `s`.
proof fn lemma_word_len_of_word(s: Seq<char>, rest: Seq<char>)
    requires
        blank_free(s),
        rest.len() == 0 || spec_is_blank(rest[0]),
    ensures
        word_len(s + rest) == s.len(),
    decreases s.len(),
{
    let whole = s + rest;
    if s.len() > 0 {
        assert(whole.drop_first() == s.drop_first() + rest);
        assert(blank_free(s.drop_first()));
        lemma_word_len_of_word(s.drop_first(), rest);
    }
}

/// No character before the end of the first word is a blank.
proof fn lemma_word_len_bounds(s: Seq<char>)
    ensures
        word_len(s) <= s.len(),
        blank_free(s.take(word_len(s) as int)),
    decreases s.len(),
{
    if s.len() > 0 && !spec_is_blank(s[0]) {
        let tail = s.drop_first();
        lemma_word_len_bounds(tail);
        let word = s.take(word_len(s) as int);
        assert forall|i: int| 0 <= i < word.len() implies !spec_is_blank(#[trigger] word[i]) by {
            if i > 0 {
                assert(word[i] == tail.take(word_len(tail) as int)[i - 1]);
            }
        }
    }
}

/// Each word of a line has a character, and none of its characters is a
/// blank.
pub proof fn lemma_words_are_words(line: Seq<char>)
    ensures
        forall|i: int|
            0 <= i < words(line).len() ==> (#[trigger] words(line)[i]).len() > 0 && blank_free(
                words(line)[i],
            ),
    decreases line.len(),
{
    if line.len() == 0 {
    } else if spec_is_blank(line[0]) {
        lemma_words_are_words(line.drop_first());
        assert(words(line) == words(line.drop_first()));
    } else {
        let n = word_len(line) as int;
        lemma_word_len_bounds(line);
        if n >= line.len() {
            assert(line.take(n) == line);
        } else {
            let rest = words(line.skip(n));
            lemma_words_are_words(line.skip(n));
            assert forall|i: int| 0 < i < words(line).len() implies #[trigger] words(line)[i]
                == rest[i - 1] by {}
        }
    }
}

/// The words of a line made of two words with one space between them are
/// those two.
pub proof fn lemma_words_of_pair(key: Seq<char>, value: Seq<char>)
    requires
        key.len() > 0,
        value.len() > 0,
        blank_free(key),
        blank_free(value),
    ensures
        words(key + seq![' '] + value) == seq![key, value],
{
    let tail = seq![' '] + value;
    let line = key + seq![' '] + value;
    assert(line == key + tail);
    lemma_word_len_of_word(key, tail);
    lemma_word_len_of_word(value, Seq::empty());
    assert(line.take(key.len() as int) == key);
    assert(line.skip(key.len() as int) == tail);
    assert(tail.drop_first() == value);
    assert(words(tail) == words(value));
}

} // verus!
