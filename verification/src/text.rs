//! Text: sizes, whitespace, searching, numbers.
//!
//! A text is specified by its characters; its size is the number of bytes of its UTF-8 encoding.
use vstd::prelude::*;
use vstd::utf8::{encode_scalar, encode_utf8};

verus! {

/// `String::push` appends one character.
pub assume_specification[ String::push ](text: &mut String, c: char)
    ensures
        final(text)@ == old(text)@.push(c),
;

// ---------------------------------------------------------------------------
// Size

/// Number of bytes of a text.
pub open spec fn size(s: Seq<char>) -> nat {
    encode_utf8(s).len()
}

/// Number of bytes of a character.
pub open spec fn width(c: char) -> nat {
    encode_scalar(c as u32).len()
}

/// The size of a concatenation is the sum of the sizes.
pub proof fn lemma_size_concat(a: Seq<char>, b: Seq<char>)
    ensures
        size(a + b) == size(a) + size(b),
    decreases a.len(),
{
    if a.len() == 0 {
        assert(a + b =~= b);
    } else {
        assert((a + b).drop_first() =~= a.drop_first() + b);
        lemma_size_concat(a.drop_first(), b);
    }
}

/// Each character adds its own width, which is one to four bytes.
pub proof fn lemma_size_push(s: Seq<char>, c: char)
    ensures
        size(s.push(c)) == size(s) + width(c),
        1 <= width(c) <= 4,
{
    let one = seq![c];
    assert(s.push(c) =~= s + one);
    lemma_size_concat(s, one);
    assert(one.drop_first() =~= Seq::<char>::empty());
    assert(encode_utf8(one) =~= encode_scalar(c as u32)) by {
        reveal_with_fuel(encode_utf8, 2);
    }
}

/// A prefix is no larger than a longer prefix.
pub proof fn lemma_size_take(s: Seq<char>, i: int, j: int)
    requires
        0 <= i <= j <= s.len(),
    ensures
        size(s.take(i)) <= size(s.take(j)),
        size(s.take(i)) + (j - i) <= size(s.take(j)),
    decreases j - i,
{
    if i < j {
        lemma_size_take(s, i, j - 1);
        assert(s.take(j) =~= s.take(j - 1).push(s[j - 1]));
        lemma_size_push(s.take(j - 1), s[j - 1]);
    }
}

/// A text has at least as many bytes as characters, and only the empty one has none.
pub proof fn lemma_size_len(s: Seq<char>)
    ensures
        s.len() <= size(s),
        size(s) == 0 <==> s.len() == 0,
{
    lemma_size_take(s, 0, s.len() as int);
    assert(s.take(0) =~= Seq::<char>::empty());
    assert(s.take(s.len() as int) =~= s);
}

/// The size of `text`.
pub fn byte_len(text: &str) -> (n: usize)
    ensures
        n == size(text@),
{
    text.as_bytes().len()
}

/// Length in characters of the longest prefix of `s` that has at most `max` bytes.
pub open spec fn fitting(s: Seq<char>, max: nat) -> nat
    decreases s.len(),
{
    if s.len() == 0 {
        0
    } else if size(s) <= max {
        s.len()
    } else {
        fitting(s.drop_last(), max)
    }
}

/// The longest prefix of `s` that has at most `max` bytes.
pub open spec fn clipped(s: Seq<char>, max: nat) -> Seq<char> {
    s.take(fitting(s, max) as int)
}

/// `clipped` is a prefix within the limit, and no longer prefix is.
pub proof fn law_clipped(s: Seq<char>, max: nat)
    ensures
        fitting(s, max) <= s.len(),
        size(clipped(s, max)) <= max,
        size(s) <= max ==> clipped(s, max) == s,
        forall|n: int| fitting(s, max) < n <= s.len() ==> size(#[trigger] s.take(n)) > max,
    decreases s.len(),
{
    assert(s.take(s.len() as int) =~= s);
    if s.len() == 0 {
    } else if size(s) <= max {
    } else {
        let rest = s.drop_last();
        law_clipped(rest, max);
        let k = fitting(rest, max) as int;
        assert(rest.take(k) =~= s.take(k));
        assert forall|n: int| k < n <= s.len() implies size(#[trigger] s.take(n)) > max by {
            if n < s.len() {
                assert(rest.take(n) =~= s.take(n));
            }
        }
    }
}

/// `clipped` stops after the characters that fit.
pub proof fn lemma_clipped_at(s: Seq<char>, max: nat, n: int)
    requires
        0 <= n <= s.len(),
        size(s.take(n)) <= max,
        n < s.len() ==> size(s.take(n + 1)) > max,
    ensures
        fitting(s, max) == n,
{
    law_clipped(s, max);
    let k = fitting(s, max) as int;
    if k > n {
        lemma_size_take(s, n + 1, k);
    }
}

/// The longest prefix of `value` that has at most `max` bytes.
pub fn clip(value: &str, max: usize) -> (res: String)
    ensures
        res@ == clipped(value@, max as nat),
{
    proof {
        law_clipped(value@, max as nat);
    }
    if byte_len(value) <= max {
        return value.to_owned();
    }
    let mut out = String::new();
    let mut used: usize = 0;
    let text = chars_of(value);
    let mut i: usize = 0;
    while i < text.len()
        invariant
            text@ == value@,
            i <= text.len(),
            out@ == value@.take(i as int),
            used == size(value@.take(i as int)),
            used <= max,
        decreases text.len() - i,
    {
        let c = text[i];
        let wide: usize = char_width(c);
        proof {
            assert(value@.take(i + 1) =~= value@.take(i as int).push(c));
            lemma_size_push(value@.take(i as int), c);
        }
        if wide > max - used {
            proof {
                lemma_clipped_at(value@, max as nat, i as int);
            }
            return out;
        }
        out.push(c);
        used = used + wide;
        i = i + 1;
    }
    assert(value@.take(text.len() as int) =~= value@);
    out
}

/// The width of `c`.
fn char_width(c: char) -> (n: usize)
    ensures
        n == width(c),
{
    let code: u32 = c as u32;
    if code <= 0x7F {
        1
    } else if code <= 0x7FF {
        2
    } else if code <= 0xFFFF {
        3
    } else {
        4
    }
}

// ---------------------------------------------------------------------------
// Characters

/// The characters of `text`.
pub fn chars_of(text: &str) -> (res: Vec<char>)
    ensures
        res@ == text@,
{
    let mut out: Vec<char> = Vec::new();
    for c in it: text.chars()
        invariant
            out@ == text@.take(it.index() as int),
            it.seq() == text@,
    {
        assert(text@.take(it.index() + 1) =~= text@.take(it.index() as int).push(c));
        out.push(c);
    }
    assert(text@.take(text@.len() as int) =~= text@);
    out
}

/// The characters from `start` up to `end`.
pub fn string_of(text: &Vec<char>, start: usize, end: usize) -> (res: String)
    requires
        start <= end <= text.len(),
    ensures
        res@ == text@.subrange(start as int, end as int),
{
    let mut out = String::new();
    let mut i: usize = start;
    while i < end
        invariant
            start <= i <= end <= text.len(),
            out@ == text@.subrange(start as int, i as int),
        decreases end - i,
    {
        out.push(text[i]);
        i = i + 1;
        assert(text@.subrange(start as int, i as int) =~= text@.subrange(start as int, i - 1).push(
            text@[i - 1],
        ));
    }
    out
}

/// Whether two texts are the same.
pub fn same(a: &str, b: &str) -> (res: bool)
    ensures
        res == (a@ == b@),
{
    let x = chars_of(a);
    let y = chars_of(b);
    if x.len() != y.len() {
        return false;
    }
    let mut i: usize = 0;
    while i < x.len()
        invariant
            x@ == a@,
            y@ == b@,
            x.len() == y.len(),
            i <= x.len(),
            forall|j: int| 0 <= j < i ==> x@[j] == y@[j],
        decreases x.len() - i,
    {
        if x[i] != y[i] {
            return false;
        }
        i = i + 1;
    }
    assert(a@ =~= b@);
    true
}

/// Decimal digit.
pub open spec fn digit(c: char) -> bool {
    '0' <= c <= '9'
}

/// Latin letter.
pub open spec fn letter(c: char) -> bool {
    ('a' <= c <= 'z') || ('A' <= c <= 'Z')
}

pub fn is_digit(c: char) -> (res: bool)
    ensures
        res == digit(c),
{
    '0' <= c && c <= '9'
}

pub fn is_letter(c: char) -> (res: bool)
    ensures
        res == letter(c),
{
    ('a' <= c && c <= 'z') || ('A' <= c && c <= 'Z')
}

// ---------------------------------------------------------------------------
// Whitespace

/// Unicode whitespace.
pub open spec fn white(c: char) -> bool {
    ||| '\u{9}' <= c <= '\u{d}'
    ||| c == ' '
    ||| c == '\u{85}'
    ||| c == '\u{a0}'
    ||| c == '\u{1680}'
    ||| '\u{2000}' <= c <= '\u{200a}'
    ||| c == '\u{2028}'
    ||| c == '\u{2029}'
    ||| c == '\u{202f}'
    ||| c == '\u{205f}'
    ||| c == '\u{3000}'
}

pub fn is_white(c: char) -> (res: bool)
    ensures
        res == white(c),
{
    ('\u{9}' <= c && c <= '\u{d}') || c == ' ' || c == '\u{85}' || c == '\u{a0}' || c == '\u{1680}'
        || ('\u{2000}' <= c && c <= '\u{200a}') || c == '\u{2028}' || c == '\u{2029}' || c == '\u{202f}'
        || c == '\u{205f}' || c == '\u{3000}'
}

/// `s` without leading whitespace.
pub open spec fn trimmed_start(s: Seq<char>) -> Seq<char>
    decreases s.len(),
{
    if s.len() > 0 && white(s[0]) {
        trimmed_start(s.drop_first())
    } else {
        s
    }
}

/// `s` without trailing whitespace.
pub open spec fn trimmed_end(s: Seq<char>) -> Seq<char>
    decreases s.len(),
{
    if s.len() > 0 && white(s.last()) {
        trimmed_end(s.drop_last())
    } else {
        s
    }
}

/// `s` without leading and trailing whitespace.
pub open spec fn trimmed(s: Seq<char>) -> Seq<char> {
    trimmed_end(trimmed_start(s))
}

/// `s` is empty or only whitespace.
pub open spec fn blank(s: Seq<char>) -> bool {
    forall|i: int| 0 <= i < s.len() ==> white(#[trigger] s[i])
}

proof fn lemma_blank_before(before: Seq<char>, rest: Seq<char>)
    requires
        blank(before),
        rest.len() > 0,
        !white(rest[0]),
    ensures
        trimmed_start(before + rest) == rest,
    decreases before.len(),
{
    if before.len() == 0 {
        assert(before + rest =~= rest);
    } else {
        let fewer = before.drop_first();
        assert forall|i: int| 0 <= i < fewer.len() implies white(#[trigger] fewer[i]) by {
            assert(fewer[i] == before[i + 1]);
        }
        lemma_blank_before(fewer, rest);
        assert((before + rest).drop_first() =~= fewer + rest);
        assert(white(before[0]));
    }
}

proof fn lemma_blank_after(rest: Seq<char>, after: Seq<char>)
    requires
        blank(after),
        rest.len() > 0,
        !white(rest.last()),
    ensures
        trimmed_end(rest + after) == rest,
    decreases after.len(),
{
    if after.len() == 0 {
        assert(rest + after =~= rest);
    } else {
        let fewer = after.drop_last();
        assert forall|i: int| 0 <= i < fewer.len() implies white(#[trigger] fewer[i]) by {
            assert(fewer[i] == after[i]);
        }
        lemma_blank_after(rest, fewer);
        assert((rest + after).drop_last() =~= rest + fewer);
        assert(white(after[after.len() - 1]));
    }
}

/// Trimming takes what is blank on both sides and no more.
pub proof fn law_trimmed(before: Seq<char>, text: Seq<char>, after: Seq<char>)
    requires
        blank(before),
        blank(after),
        text.len() > 0,
        !white(text[0]),
        !white(text.last()),
    ensures
        trimmed(before + text + after) == text,
{
    assert(before + text + after =~= before + (text + after));
    lemma_blank_before(before, text + after);
    lemma_blank_after(text, after);
}

/// Trimming leaves nothing of a blank text, and something of any other.
pub proof fn law_blank(s: Seq<char>)
    ensures
        blank(s) <==> trimmed(s).len() == 0,
{
    lemma_blank_start(s);
    lemma_blank_end(trimmed_start(s));
}

proof fn lemma_blank_start(s: Seq<char>)
    ensures
        blank(s) <==> blank(trimmed_start(s)),
        trimmed_start(s).len() > 0 ==> !white(trimmed_start(s)[0]),
    decreases s.len(),
{
    if s.len() > 0 && white(s[0]) {
        let rest = s.drop_first();
        lemma_blank_start(rest);
        assert(blank(rest) ==> blank(s)) by {
            if blank(rest) {
                assert forall|i: int| 0 <= i < s.len() implies white(#[trigger] s[i]) by {
                    if i > 0 {
                        assert(rest[i - 1] == s[i]);
                    }
                }
            }
        }
        assert(blank(s) ==> blank(rest)) by {
            if blank(s) {
                assert forall|i: int| 0 <= i < rest.len() implies white(#[trigger] rest[i]) by {
                    assert(rest[i] == s[i + 1]);
                }
            }
        }
    }
}

proof fn lemma_blank_end(s: Seq<char>)
    requires
        s.len() > 0 ==> !white(s[0]),
    ensures
        blank(s) <==> trimmed_end(s).len() == 0,
    decreases s.len(),
{
    if s.len() > 0 {
        assert(!blank(s));
        if white(s.last()) {
            let rest = s.drop_last();
            assert(rest.len() > 0);
            assert(rest[0] == s[0]);
            lemma_blank_end(rest);
            assert(!blank(rest));
        }
    }
}

/// Whether `text` is empty or only whitespace.
pub fn is_blank(text: &str) -> (res: bool)
    ensures
        res == blank(text@),
{
    let v = chars_of(text);
    let mut i: usize = 0;
    while i < v.len()
        invariant
            v@ == text@,
            i <= v.len(),
            forall|j: int| 0 <= j < i ==> white(#[trigger] v@[j]),
        decreases v.len() - i,
    {
        if !is_white(v[i]) {
            return false;
        }
        i = i + 1;
    }
    true
}

/// `text` without leading and trailing whitespace.
pub fn trim(text: &str) -> (res: String)
    ensures
        res@ == trimmed(text@),
{
    let v = chars_of(text);
    let mut a: usize = 0;
    assert(v@.skip(0) =~= v@);
    while a < v.len() && is_white(v[a])
        invariant
            a <= v.len(),
            trimmed_start(v@) == trimmed_start(v@.skip(a as int)),
        decreases v.len() - a,
    {
        assert(v@.skip(a as int).drop_first() =~= v@.skip(a + 1));
        a = a + 1;
    }
    let mut b: usize = v.len();
    assert(v@.skip(a as int) =~= v@.subrange(a as int, b as int));
    while b > a && is_white(v[b - 1])
        invariant
            a <= b <= v.len(),
            trimmed_end(v@.skip(a as int)) == trimmed_end(v@.subrange(a as int, b as int)),
        decreases b,
    {
        assert(v@.subrange(a as int, b as int).drop_last() =~= v@.subrange(a as int, b - 1));
        b = b - 1;
    }
    string_of(&v, a, b)
}

/// `s` without trailing characters of `set`.
pub open spec fn stripped_end(s: Seq<char>, set: Seq<char>) -> Seq<char>
    decreases s.len(),
{
    if s.len() > 0 && set.contains(s.last()) {
        stripped_end(s.drop_last(), set)
    } else {
        s
    }
}

/// `s` without leading characters of `set`.
pub open spec fn stripped_start(s: Seq<char>, set: Seq<char>) -> Seq<char>
    decreases s.len(),
{
    if s.len() > 0 && set.contains(s[0]) {
        stripped_start(s.drop_first(), set)
    } else {
        s
    }
}

/// Characters of the set are stripped from the end, up to one that is not of it.
pub proof fn law_stripped_end(text: Seq<char>, marks: Seq<char>, set: Seq<char>)
    requires
        forall|i: int| 0 <= i < marks.len() ==> set.contains(#[trigger] marks[i]),
        text.len() > 0 ==> !set.contains(text.last()),
    ensures
        stripped_end(text + marks, set) == text,
    decreases marks.len(),
{
    if marks.len() == 0 {
        assert(text + marks =~= text);
    } else {
        law_stripped_end(text, marks.drop_last(), set);
        assert((text + marks).drop_last() =~= text + marks.drop_last());
        assert(set.contains(marks[marks.len() - 1]));
    }
}

/// Characters of the set are stripped from the start, up to one that is not of it.
pub proof fn law_stripped_start(marks: Seq<char>, text: Seq<char>, set: Seq<char>)
    requires
        forall|i: int| 0 <= i < marks.len() ==> set.contains(#[trigger] marks[i]),
        text.len() > 0 ==> !set.contains(text[0]),
    ensures
        stripped_start(marks + text, set) == text,
    decreases marks.len(),
{
    if marks.len() == 0 {
        assert(marks + text =~= text);
    } else {
        law_stripped_start(marks.drop_first(), text, set);
        assert((marks + text).drop_first() =~= marks.drop_first() + text);
        assert(set.contains(marks[0]));
    }
}

fn member(c: char, set: &Vec<char>) -> (res: bool)
    ensures
        res == set@.contains(c),
{
    let mut i: usize = 0;
    while i < set.len()
        invariant
            i <= set.len(),
            forall|j: int| 0 <= j < i ==> set@[j] != c,
        decreases set.len() - i,
    {
        if set[i] == c {
            assert(set@[i as int] == c);
            return true;
        }
        i = i + 1;
    }
    false
}

/// `text` without trailing characters of `set`.
pub fn strip_end(text: &str, set: &str) -> (res: String)
    ensures
        res@ == stripped_end(text@, set@),
{
    let v = chars_of(text);
    let chosen = chars_of(set);
    let mut b: usize = v.len();
    assert(v@.take(b as int) =~= v@);
    while b > 0 && member(v[b - 1], &chosen)
        invariant
            b <= v.len(),
            chosen@ == set@,
            stripped_end(v@, set@) == stripped_end(v@.take(b as int), set@),
        decreases b,
    {
        assert(v@.take(b as int).drop_last() =~= v@.take(b - 1));
        b = b - 1;
    }
    assert(v@.take(b as int) =~= v@.subrange(0, b as int));
    string_of(&v, 0, b)
}

/// `text` without leading characters of `set`.
pub fn strip_start(text: &str, set: &str) -> (res: String)
    ensures
        res@ == stripped_start(text@, set@),
{
    let v = chars_of(text);
    let chosen = chars_of(set);
    let mut a: usize = 0;
    assert(v@.skip(0) =~= v@);
    while a < v.len() && member(v[a], &chosen)
        invariant
            a <= v.len(),
            chosen@ == set@,
            stripped_start(v@, set@) == stripped_start(v@.skip(a as int), set@),
        decreases v.len() - a,
    {
        assert(v@.skip(a as int).drop_first() =~= v@.skip(a + 1));
        a = a + 1;
    }
    assert(v@.skip(a as int) =~= v@.subrange(a as int, v@.len() as int));
    let end = v.len();
    string_of(&v, a, end)
}

/// Number of leading characters of `s` that are not whitespace.
pub open spec fn word_len(s: Seq<char>) -> nat
    decreases s.len(),
{
    if s.len() == 0 || white(s[0]) {
        0
    } else {
        1 + word_len(s.drop_first())
    }
}

pub proof fn lemma_word_len(s: Seq<char>)
    ensures
        word_len(s) <= s.len(),
        s.len() > 0 && !white(s[0]) ==> word_len(s) > 0,
    decreases s.len(),
{
    if s.len() > 0 && !white(s[0]) {
        lemma_word_len(s.drop_first());
    }
}

proof fn lemma_trimmed_start(s: Seq<char>)
    ensures
        trimmed_start(s).len() <= s.len(),
        trimmed_start(s).len() > 0 ==> !white(trimmed_start(s)[0]),
    decreases s.len(),
{
    if s.len() > 0 && white(s[0]) {
        lemma_trimmed_start(s.drop_first());
    }
}

/// The words of `s`: its maximal runs without whitespace, in order.
pub open spec fn words(s: Seq<char>) -> Seq<Seq<char>>
    decreases s.len(),
    when true
    via words_decreases
{
    let t = trimmed_start(s);
    if t.len() == 0 {
        Seq::empty()
    } else {
        seq![t.take(word_len(t) as int)] + words(t.skip(word_len(t) as int))
    }
}

#[via_fn]
proof fn words_decreases(s: Seq<char>) {
    lemma_trimmed_start(s);
    lemma_word_len(trimmed_start(s));
}

/// The contents of several texts.
pub open spec fn views(list: Seq<String>) -> Seq<Seq<char>> {
    Seq::new(list.len(), |i: int| list[i]@)
}

/// The words of `text`.
pub fn split_words(text: &str) -> (res: Vec<String>)
    ensures
        views(res@) == words(text@),
{
    let v = chars_of(text);
    let n = v.len();
    let mut out: Vec<String> = Vec::new();
    let mut a: usize = 0;
    assert(v@.skip(0) =~= v@);
    assert(views(out@) + words(v@) =~= words(v@));
    loop
        invariant
            v@ == text@,
            n == v.len(),
            a <= n,
            views(out@) + words(v@.skip(a as int)) == words(text@),
        decreases n - a,
    {
        let ghost rest = v@.skip(a as int);
        proof {
            lemma_trimmed_start(rest);
            lemma_word_len(trimmed_start(rest));
        }
        let mut b: usize = a;
        while b < n && is_white(v[b])
            invariant
                n == v.len(),
                a <= b <= n,
                trimmed_start(v@.skip(a as int)) == trimmed_start(v@.skip(b as int)),
            decreases n - b,
        {
            assert(v@.skip(b as int).drop_first() =~= v@.skip(b + 1));
            b = b + 1;
        }
        let ghost t = v@.skip(b as int);
        assert(trimmed_start(rest) == t);
        if b == n {
            assert(t.len() == 0);
            assert(views(out@) + words(rest) =~= views(out@));
            return out;
        }
        let mut e: usize = b;
        while e < n && !is_white(v[e])
            invariant
                n == v.len(),
                b <= e <= n,
                word_len(v@.skip(b as int)) == (e - b) + word_len(v@.skip(e as int)),
            decreases n - e,
        {
            assert(v@.skip(e as int).drop_first() =~= v@.skip(e + 1));
            e = e + 1;
        }
        assert(word_len(t) == e - b);
        let word = string_of(&v, b, e);
        assert(word@ =~= t.take(e - b));
        assert(t.skip(e - b) =~= v@.skip(e as int));
        let ghost before = out@;
        out.push(word);
        assert(views(out@) =~= views(before) + seq![t.take(e - b)]);
        assert(views(out@) + words(v@.skip(e as int)) =~= views(before) + (seq![t.take(e - b)] + words(
            v@.skip(e as int),
        )));
        a = e;
    }
}

/// `parts`, separated by `gap`.
pub open spec fn joined(parts: Seq<Seq<char>>, gap: Seq<char>) -> Seq<char>
    decreases parts.len(),
{
    if parts.len() == 0 {
        Seq::empty()
    } else if parts.len() == 1 {
        parts[0]
    } else {
        joined(parts.drop_last(), gap) + gap + parts.last()
    }
}

/// `parts`, separated by `gap`.
pub fn join(parts: &Vec<String>, gap: &str) -> (res: String)
    ensures
        res@ == joined(views(parts@), gap@),
{
    let mut out = String::new();
    let mut i: usize = 0;
    assert(views(parts@).take(0) =~= Seq::<Seq<char>>::empty());
    while i < parts.len()
        invariant
            i <= parts.len(),
            out@ == joined(views(parts@).take(i as int), gap@),
        decreases parts.len() - i,
    {
        let ghost all = views(parts@);
        assert(all.take(i + 1).drop_last() =~= all.take(i as int));
        assert(all.take(i + 1).last() == parts@[i as int]@);
        if i > 0 {
            out.append(gap);
        } else {
            assert(out@ =~= Seq::<char>::empty());
        }
        out.append(parts[i].as_str());
        if i == 0 {
            assert(out@ =~= parts@[0]@);
        }
        i = i + 1;
    }
    assert(views(parts@).take(parts@.len() as int) =~= views(parts@));
    out
}

/// Some character of `s` is one of `set`.
pub open spec fn touches(s: Seq<char>, set: Seq<char>) -> bool {
    exists|i: int| 0 <= i < s.len() && set.contains(#[trigger] s[i])
}

/// Whether some character of `text` is one of `set`.
pub fn holds_any(text: &str, set: &str) -> (res: bool)
    ensures
        res == touches(text@, set@),
{
    let v = chars_of(text);
    let set_chars = chars_of(set);
    let mut i: usize = 0;
    while i < v.len()
        invariant
            v@ == text@,
            set_chars@ == set@,
            i <= v.len(),
            forall|j: int| 0 <= j < i ==> !set@.contains(#[trigger] v@[j]),
        decreases v.len() - i,
    {
        if member(v[i], &set_chars) {
            assert(set@.contains(text@[i as int]));
            return true;
        }
        i = i + 1;
    }
    false
}

// ---------------------------------------------------------------------------
// Searching

/// `part` stands in `s` at position `i`.
pub open spec fn stands_at(s: Seq<char>, part: Seq<char>, i: int) -> bool {
    &&& 0 <= i
    &&& i + part.len() <= s.len()
    &&& s.subrange(i, i + part.len()) == part
}

/// `part` stands somewhere in `s`.
pub open spec fn occurs(s: Seq<char>, part: Seq<char>) -> bool {
    exists|i: int| stands_at(s, part, i)
}

/// The first position at which `part` stands in `s`, which has it.
pub open spec fn first_at(s: Seq<char>, part: Seq<char>) -> int {
    choose|i: int| stands_at(s, part, i) && (forall|j: int| 0 <= j < i ==> !stands_at(s, part, j))
}

/// `s` begins with `part`.
pub open spec fn begins(s: Seq<char>, part: Seq<char>) -> bool {
    stands_at(s, part, 0)
}

/// `s` ends with `part`.
pub open spec fn ends(s: Seq<char>, part: Seq<char>) -> bool {
    stands_at(s, part, s.len() - part.len())
}

/// Whether `part` stands in `text` at `i`.
fn matches_at(text: &Vec<char>, part: &Vec<char>, i: usize) -> (res: bool)
    requires
        i <= text.len(),
    ensures
        res == stands_at(text@, part@, i as int),
{
    if part.len() > text.len() - i {
        return false;
    }
    let mut j: usize = 0;
    while j < part.len()
        invariant
            i + part.len() <= text.len(),
            j <= part.len(),
            forall|k: int| 0 <= k < j ==> text@[i + k] == part@[k],
        decreases part.len() - j,
    {
        if text[i + j] != part[j] {
            assert(text@.subrange(i as int, i + part@.len())[j as int] != part@[j as int]);
            return false;
        }
        j = j + 1;
    }
    assert(text@.subrange(i as int, i + part@.len()) =~= part@);
    true
}

/// The first position at which `part` stands in `text`.
fn position(text: &Vec<char>, part: &Vec<char>) -> (res: Option<usize>)
    ensures
        match res {
            Some(i) => {
                &&& occurs(text@, part@)
                &&& i == first_at(text@, part@)
                &&& stands_at(text@, part@, i as int)
            },
            None => !occurs(text@, part@),
        },
{
    let mut i: usize = 0;
    while i <= text.len()
        invariant
            i <= text.len() + 1,
            forall|j: int| 0 <= j < i ==> !stands_at(text@, part@, j),
        decreases text.len() + 1 - i,
    {
        if matches_at(text, part, i) {
            proof {
                let f = first_at(text@, part@);
                assert(stands_at(text@, part@, i as int));
                assert(stands_at(text@, part@, f) && (forall|j: int|
                    0 <= j < f ==> !stands_at(text@, part@, j)));
            }
            return Some(i);
        }
        if i == text.len() {
            return None;
        }
        i = i + 1;
    }
    None
}

/// Whether `part` stands in `text`.
pub fn contains(text: &str, part: &str) -> (res: bool)
    ensures
        res == occurs(text@, part@),
{
    position(&chars_of(text), &chars_of(part)).is_some()
}

/// The texts before and after the first `mark` in `text`.
pub fn split_once(text: &str, mark: &str) -> (res: Option<(String, String)>)
    ensures
        match res {
            Some((head, tail)) => {
                &&& occurs(text@, mark@)
                &&& head@ == text@.take(first_at(text@, mark@))
                &&& tail@ == text@.skip(first_at(text@, mark@) + mark@.len())
            },
            None => !occurs(text@, mark@),
        },
{
    let v = chars_of(text);
    let m = chars_of(mark);
    match position(&v, &m) {
        Some(i) => {
            let head = string_of(&v, 0, i);
            let end = v.len();
            let tail = string_of(&v, i + m.len(), end);
            assert(head@ =~= text@.take(i as int));
            assert(tail@ =~= text@.skip(i + mark@.len()));
            Some((head, tail))
        },
        None => None,
    }
}

/// Whether `text` begins with `part`.
pub fn starts_with(text: &str, part: &str) -> (res: bool)
    ensures
        res == begins(text@, part@),
{
    matches_at(&chars_of(text), &chars_of(part), 0)
}

/// Whether `text` ends with `part`.
pub fn ends_with(text: &str, part: &str) -> (res: bool)
    ensures
        res == ends(text@, part@),
{
    let v = chars_of(text);
    let p = chars_of(part);
    if p.len() > v.len() {
        return false;
    }
    matches_at(&v, &p, v.len() - p.len())
}

/// What follows `part` in `text`, which begins with it.
pub fn after(text: &str, part: &str) -> (res: String)
    requires
        begins(text@, part@),
    ensures
        res@ == text@.skip(part@.len() as int),
{
    let v = chars_of(text);
    let p = chars_of(part);
    let end = v.len();
    assert(text@.skip(part@.len() as int) =~= v@.subrange(p@.len() as int, v@.len() as int));
    string_of(&v, p.len(), end)
}

/// What precedes `part` in `text`, which ends with it.
pub fn until(text: &str, part: &str) -> (res: String)
    requires
        ends(text@, part@),
    ensures
        res@ == text@.take(text@.len() - part@.len()),
{
    let v = chars_of(text);
    let p = chars_of(part);
    assert(text@.take(text@.len() - part@.len()) =~= v@.subrange(0, v@.len() - p@.len()));
    string_of(&v, 0, v.len() - p.len())
}

/// `s` with each occurrence of `from`, taken from the left, replaced by `to`.
pub open spec fn replaced(s: Seq<char>, from: Seq<char>, to: Seq<char>) -> Seq<char>
    decreases s.len(),
{
    if s.len() == 0 || from.len() == 0 {
        s
    } else if begins(s, from) {
        to + replaced(s.skip(from.len() as int), from, to)
    } else {
        seq![s[0]] + replaced(s.skip(1), from, to)
    }
}

/// `text` with each `from` replaced by `to`.
pub fn replace(text: &str, from: &str, to: &str) -> (res: String)
    requires
        from@.len() > 0,
    ensures
        res@ == replaced(text@, from@, to@),
{
    let v = chars_of(text);
    let p = chars_of(from);
    let mut out = String::new();
    let mut i: usize = 0;
    assert(v@.skip(0) =~= v@);
    assert(out@ + replaced(v@, from@, to@) =~= replaced(v@, from@, to@));
    while i < v.len()
        invariant
            v@ == text@,
            p@ == from@,
            p.len() > 0,
            i <= v.len(),
            out@ + replaced(v@.skip(i as int), from@, to@) == replaced(text@, from@, to@),
        decreases v.len() - i,
    {
        let ghost rest = v@.skip(i as int);
        let ghost before = out@;
        assert(stands_at(v@, from@, i as int) == begins(rest, from@)) by {
            if i + from@.len() <= v@.len() {
                assert(v@.subrange(i as int, i + from@.len()) =~= rest.subrange(0, from@.len() as int));
            }
        }
        if matches_at(&v, &p, i) {
            out.append(to);
            assert(rest.skip(from@.len() as int) =~= v@.skip(i + from@.len()));
            assert(before + (to@ + replaced(v@.skip(i + from@.len()), from@, to@)) =~= out@ + replaced(
                v@.skip(i + from@.len()),
                from@,
                to@,
            ));
            i = i + p.len();
        } else {
            out.push(v[i]);
            assert(rest.skip(1) =~= v@.skip(i + 1));
            assert(before + (seq![rest[0]] + replaced(v@.skip(i + 1), from@, to@)) =~= out@ + replaced(
                v@.skip(i + 1),
                from@,
                to@,
            ));
            i = i + 1;
        }
    }
    assert(v@.skip(i as int).len() == 0);
    assert(out@ + replaced(v@.skip(i as int), from@, to@) =~= out@);
    out
}

// ---------------------------------------------------------------------------
// Numbers

/// The character of a decimal digit.
pub open spec fn digit_char(d: nat) -> char {
    if d == 0 { '0' }
    else if d == 1 { '1' }
    else if d == 2 { '2' }
    else if d == 3 { '3' }
    else if d == 4 { '4' }
    else if d == 5 { '5' }
    else if d == 6 { '6' }
    else if d == 7 { '7' }
    else if d == 8 { '8' }
    else { '9' }
}

/// The decimal numeral of `n`.
pub open spec fn numeral(n: nat) -> Seq<char>
    decreases n,
{
    if n < 10 {
        seq![digit_char(n)]
    } else {
        numeral(n / 10).push(digit_char(n % 10))
    }
}

/// The decimal numeral of `n`.
pub fn decimal(n: u64) -> (res: String)
    ensures
        res@ == numeral(n as nat),
    decreases n,
{
    let mut out = if n < 10 {
        String::new()
    } else {
        decimal(n / 10)
    };
    let d: u64 = n % 10;
    let c = if d == 0 {
        '0'
    } else if d == 1 {
        '1'
    } else if d == 2 {
        '2'
    } else if d == 3 {
        '3'
    } else if d == 4 {
        '4'
    } else if d == 5 {
        '5'
    } else if d == 6 {
        '6'
    } else if d == 7 {
        '7'
    } else if d == 8 {
        '8'
    } else {
        '9'
    };
    out.push(c);
    assert(n < 10 ==> out@ =~= seq![digit_char(n as nat)]);
    out
}

/// The value of a decimal digit.
pub open spec fn digit_value(c: char) -> nat {
    (c as nat - '0' as nat) as nat
}

/// The number that a row of decimal digits denotes.
pub open spec fn value_of(s: Seq<char>) -> nat
    decreases s.len(),
{
    if s.len() == 0 {
        0
    } else {
        value_of(s.drop_last()) * 10 + digit_value(s.last())
    }
}

/// `s` holds decimal digits only.
pub open spec fn digits(s: Seq<char>) -> bool {
    forall|i: int| 0 <= i < s.len() ==> digit(#[trigger] s[i])
}

proof fn lemma_value_grows(s: Seq<char>, i: int)
    requires
        0 <= i <= s.len(),
    ensures
        value_of(s.take(i)) <= value_of(s),
    decreases s.len() - i,
{
    if i < s.len() {
        lemma_value_grows(s, i + 1);
        assert(s.take(i + 1).drop_last() =~= s.take(i));
    } else {
        assert(s.take(i) =~= s);
    }
}

/// Whether `text` holds decimal digits only.
pub fn all_digits(text: &str) -> (res: bool)
    ensures
        res == digits(text@),
{
    let v = chars_of(text);
    let mut i: usize = 0;
    while i < v.len()
        invariant
            v@ == text@,
            i <= v.len(),
            forall|j: int| 0 <= j < i ==> digit(#[trigger] v@[j]),
        decreases v.len() - i,
    {
        if !is_digit(v[i]) {
            return false;
        }
        i = i + 1;
    }
    true
}

/// The number that the digits of `text` denote, where it fits.
pub fn parse_digits(text: &str) -> (res: Option<u64>)
    requires
        digits(text@),
    ensures
        match res {
            Some(n) => n == value_of(text@),
            None => value_of(text@) > u64::MAX,
        },
{
    let v = chars_of(text);
    let mut n: u64 = 0;
    let mut i: usize = 0;
    while i < v.len()
        invariant
            v@ == text@,
            digits(text@),
            i <= v.len(),
            n == value_of(text@.take(i as int)),
        decreases v.len() - i,
    {
        assert(digit(text@[i as int]));
        let d: u64 = v[i] as u64 - '0' as u64;
        proof {
            assert(text@.take(i + 1).drop_last() =~= text@.take(i as int));
            lemma_value_grows(text@, i + 1);
        }
        if n > (u64::MAX - d) / 10 {
            return None;
        }
        n = n * 10 + d;
        i = i + 1;
    }
    assert(text@.take(text@.len() as int) =~= text@);
    Some(n)
}

/// The numeral of a number denotes it.
pub proof fn lemma_numeral_value(n: nat)
    ensures
        digits(numeral(n)),
        numeral(n).len() > 0,
        value_of(numeral(n)) == n,
    decreases n,
{
    if n < 10 {
        assert(numeral(n).drop_last() =~= Seq::<char>::empty());
        assert(value_of(numeral(n).drop_last()) == 0);
    } else {
        lemma_numeral_value(n / 10);
        assert(numeral(n).drop_last() =~= numeral(n / 10));
        assert forall|i: int| 0 <= i < numeral(n).len() implies digit(#[trigger] numeral(n)[i]) by {
            if i < numeral(n / 10).len() {
                assert(numeral(n)[i] == numeral(n / 10)[i]);
            }
        }
    }
}

/// The lower-case hexadecimal digit of `d`.
pub open spec fn hex_char(d: nat) -> char {
    if d < 10 { digit_char(d) }
    else if d == 10 { 'a' }
    else if d == 11 { 'b' }
    else if d == 12 { 'c' }
    else if d == 13 { 'd' }
    else if d == 14 { 'e' }
    else { 'f' }
}

/// The bytes in hexadecimal, two digits each.
pub open spec fn hex(bytes: Seq<u8>) -> Seq<char>
    decreases bytes.len(),
{
    if bytes.len() == 0 {
        Seq::empty()
    } else {
        hex(bytes.drop_last()).push(hex_char(bytes.last() as nat / 16)).push(
            hex_char(bytes.last() as nat % 16),
        )
    }
}

fn hex_digit(d: u8) -> (c: char)
    requires
        d < 16,
    ensures
        c == hex_char(d as nat),
{
    if d == 0 {
        '0'
    } else if d == 1 {
        '1'
    } else if d == 2 {
        '2'
    } else if d == 3 {
        '3'
    } else if d == 4 {
        '4'
    } else if d == 5 {
        '5'
    } else if d == 6 {
        '6'
    } else if d == 7 {
        '7'
    } else if d == 8 {
        '8'
    } else if d == 9 {
        '9'
    } else if d == 10 {
        'a'
    } else if d == 11 {
        'b'
    } else if d == 12 {
        'c'
    } else if d == 13 {
        'd'
    } else if d == 14 {
        'e'
    } else {
        'f'
    }
}

/// The bytes in hexadecimal.
pub fn lower_hex(bytes: &Vec<u8>) -> (res: String)
    ensures
        res@ == hex(bytes@),
{
    let mut out = String::new();
    let mut i: usize = 0;
    assert(bytes@.take(0) =~= Seq::<u8>::empty());
    while i < bytes.len()
        invariant
            i <= bytes.len(),
            out@ == hex(bytes@.take(i as int)),
        decreases bytes.len() - i,
    {
        let b: u8 = bytes[i];
        out.push(hex_digit(b / 16));
        out.push(hex_digit(b % 16));
        assert(bytes@.take(i + 1).drop_last() =~= bytes@.take(i as int));
        i = i + 1;
    }
    assert(bytes@.take(bytes@.len() as int) =~= bytes@);
    out
}

// ---------------------------------------------------------------------------
// Texts that may be missing

/// The view of a text that may be missing.
pub open spec fn maybe(text: Option<String>) -> Option<Seq<char>> {
    match text {
        Some(text) => Some(text@),
        None => None,
    }
}

/// Pairs of texts.
pub open spec fn pairs(list: Seq<(String, String)>) -> Seq<(Seq<char>, Seq<char>)> {
    Seq::new(list.len(), |i: int| (list[i].0@, list[i].1@))
}

/// A copy of a text that may be missing.
pub fn copy_text(text: &Option<String>) -> (res: Option<String>)
    ensures
        maybe(res) == maybe(*text),
{
    match text {
        Some(text) => Some(text.clone()),
        None => None,
    }
}

/// The value, or nothing at all.
pub open spec fn or_empty(value: Option<Seq<char>>) -> Seq<char> {
    match value {
        Some(text) => text,
        None => ""@,
    }
}

/// The value, or nothing at all.
pub fn value_or_empty(value: Option<String>) -> (res: String)
    ensures
        res@ == or_empty(maybe(value)),
{
    match value {
        Some(text) => text,
        None => "".to_owned(),
    }
}

// ---------------------------------------------------------------------------
// Case and encoding

/// The characters are all of ASCII.
pub open spec fn ascii(s: Seq<char>) -> bool {
    forall|i: int| 0 <= i < s.len() ==> #[trigger] s[i] <= '\x7f'
}

/// The character, the lower-case letter for a Latin letter.
pub open spec fn small(c: char) -> char {
    if 'A' <= c <= 'Z' {
        (c as u32 + 32) as char
    } else {
        c
    }
}

/// The lower-case form of a text that is not all of ASCII.
pub uninterp spec fn unicode_lowered(s: Seq<char>) -> Seq<char>;

/// The lower-case form of a text.
#[verifier::opaque]
pub open spec fn lowered(s: Seq<char>) -> Seq<char> {
    if ascii(s) {
        s.map_values(|c: char| small(c))
    } else {
        unicode_lowered(s)
    }
}

/// `str::to_lowercase`: the Unicode lower-case mapping, which takes a Latin letter to its small
/// letter and leaves the rest of ASCII. Of other texts it is a function, named `unicode_lowered`.
#[verifier::external_body]
pub(crate) fn lowercase(text: &str) -> (res: String)
    ensures
        res@ == lowered(text@),
        !ascii(text@) ==> res@ == unicode_lowered(text@),
{
    text.to_lowercase()
}

/// A text of ASCII is put in lower case piece by piece.
pub proof fn law_lowered_parts(first: Seq<char>, second: Seq<char>)
    requires
        ascii(first + second),
    ensures
        lowered(first + second) == lowered(first) + lowered(second),
{
    reveal(lowered);
    let all = first + second;
    assert forall|i: int| 0 <= i < first.len() implies #[trigger] first[i] <= '\x7f' by {
        assert(all[i] == first[i]);
    }
    assert forall|i: int| 0 <= i < second.len() implies #[trigger] second[i] <= '\x7f' by {
        assert(all[first.len() + i] == second[i]);
    }
    assert(lowered(all) =~= lowered(first) + lowered(second));
}

/// The case of a letter does not make it white space.
pub proof fn lemma_white_folded(a: char, b: char)
    requires
        folded(a) == folded(b),
    ensures
        white(a) == white(b),
{
    lemma_small(a);
    lemma_small(b);
}

proof fn lemma_small(c: char)
    ensures
        small(c) as nat == folded(c),
{
}

/// The lower-case form of a phrase in any letters is the phrase.
pub proof fn lemma_lowered(said: Seq<char>, phrase: Seq<char>)
    requires
        same_letters(said, phrase),
        forall|i: int| 0 <= i < phrase.len() ==> #[trigger] phrase[i] <= '\x7f' && !('A'
            <= phrase[i] <= 'Z'),
    ensures
        lowered(said) == phrase,
{
    reveal(lowered);
    assert forall|i: int| 0 <= i < said.len() implies #[trigger] said[i] <= '\x7f' && small(
        said[i],
    ) == phrase[i] by {
        assert(folded(said[i]) == folded(phrase[i]));
        lemma_small(said[i]);
        lemma_small(phrase[i]);
        assert(phrase[i] <= '\x7f');
    }
    assert(lowered(said) =~= phrase);
}

/// The code of a character, that of the lower-case letter for a Latin letter.
pub open spec fn folded(c: char) -> nat {
    if 'A' <= c <= 'Z' {
        c as nat + 32
    } else {
        c as nat
    }
}

/// Equal up to the case of Latin letters.
pub open spec fn same_letters(a: Seq<char>, b: Seq<char>) -> bool {
    &&& a.len() == b.len()
    &&& forall|i: int| 0 <= i < a.len() ==> folded(#[trigger] a[i]) == folded(b[i])
}

fn fold(c: char) -> (n: u32)
    ensures
        n == folded(c),
{
    if 'A' <= c && c <= 'Z' {
        c as u32 + 32
    } else {
        c as u32
    }
}

/// Whether two texts are equal up to the case of Latin letters.
pub fn same_fold(a: &str, b: &str) -> (res: bool)
    ensures
        res == same_letters(a@, b@),
{
    let v = chars_of(a);
    let w = chars_of(b);
    if v.len() != w.len() {
        return false;
    }
    let mut i: usize = 0;
    while i < v.len()
        invariant
            v@ == a@,
            w@ == b@,
            v.len() == w.len(),
            i <= v.len(),
            forall|j: int| 0 <= j < i ==> folded(#[trigger] a@[j]) == folded(b@[j]),
        decreases v.len() - i,
    {
        if fold(v[i]) != fold(w[i]) {
            assert(folded(a@[i as int]) != folded(b@[i as int]));
            return false;
        }
        i = i + 1;
    }
    true
}

/// Whether `text` begins with `phrase`, up to the case of Latin letters.
pub fn starts_with_letters(text: &str, phrase: &str) -> (res: bool)
    ensures
        res == (phrase@.len() <= text@.len() && same_letters(
            text@.take(phrase@.len() as int),
            phrase@,
        )),
{
    let v = chars_of(text);
    let p = chars_of(phrase);
    if p.len() > v.len() {
        return false;
    }
    let mut i: usize = 0;
    while i < p.len()
        invariant
            v@ == text@,
            p@ == phrase@,
            p.len() <= v.len(),
            i <= p.len(),
            forall|j: int| 0 <= j < i ==> folded(#[trigger] v@[j]) == folded(p@[j]),
        decreases p.len() - i,
    {
        if fold(v[i]) != fold(p[i]) {
            assert(text@.take(phrase@.len() as int)[i as int] == v@[i as int]);
            return false;
        }
        i = i + 1;
    }
    assert forall|j: int| 0 <= j < p@.len() implies folded(
        #[trigger] text@.take(phrase@.len() as int)[j],
    ) == folded(phrase@[j]) by {
        assert(text@.take(phrase@.len() as int)[j] == v@[j]);
    }
    true
}

/// Where bytes go wrong that are no UTF-8, in words.
pub uninterp spec fn utf8_fault(bytes: Seq<u8>) -> Seq<char>;

/// The text that bytes encode, or why they encode none.
pub open spec fn text_from(bytes: Seq<u8>) -> Result<Seq<char>, Seq<char>> {
    if vstd::utf8::valid_utf8(bytes) {
        Ok(vstd::utf8::decode_utf8(bytes))
    } else {
        Err(utf8_fault(bytes))
    }
}

/// `String::from_utf8`: the text that valid UTF-8 encodes; other bytes are refused, with the error's
/// words, which are a function of the bytes, named `utf8_fault`.
#[verifier::external_body]
pub(crate) fn utf8_text(bytes: Vec<u8>) -> (res: Result<String, String>)
    ensures
        match res {
            Ok(text) => vstd::utf8::valid_utf8(bytes@) && text@ == vstd::utf8::decode_utf8(bytes@),
            Err(words) => !vstd::utf8::valid_utf8(bytes@) && words@ == utf8_fault(bytes@),
        },
{
    String::from_utf8(bytes).map_err(|error| error.to_string())
}

/// The words of a text are what stands between its blanks: a blank text has none, and a word with a
/// blank behind it comes before the words of the rest.
pub proof fn law_words(before: Seq<char>, word: Seq<char>, gap: char, rest: Seq<char>)
    requires
        blank(before),
        word.len() > 0,
        forall|i: int| 0 <= i < word.len() ==> !white(#[trigger] word[i]),
        white(gap),
    ensures
        words(before) == Seq::<Seq<char>>::empty(),
        words(before + word) == seq![word],
        words(before + word + (seq![gap] + rest)) == seq![word] + words(rest),
{
    lemma_words_of_blank(before);
    assert(!white(word[0]));
    let tail = seq![gap] + rest;
    let all = before + word + tail;
    assert(all =~= before + (word + tail));
    lemma_blank_before(before, word + tail);
    lemma_blank_before(before, word);
    lemma_word_len_at(word, tail);
    lemma_word_len_at(word, Seq::empty());
    assert(word + Seq::<char>::empty() =~= word);
    assert((word + tail).take(word.len() as int) =~= word);
    assert((word + tail).skip(word.len() as int) =~= tail);
    assert(word.take(word.len() as int) =~= word);
    assert(word.skip(word.len() as int) =~= Seq::<char>::empty());
    assert(words(tail) == words(rest)) by {
        assert(tail.drop_first() =~= rest);
        assert(trimmed_start(tail) == trimmed_start(rest));
    }
    lemma_words_of_blank(Seq::<char>::empty());
    assert(seq![word] + Seq::<Seq<char>>::empty() =~= seq![word]);
}

proof fn lemma_words_of_blank(s: Seq<char>)
    requires
        blank(s),
    ensures
        words(s) == Seq::<Seq<char>>::empty(),
{
    lemma_blank_start(s);
    lemma_trimmed_start(s);
    if trimmed_start(s).len() > 0 {
        assert(white(trimmed_start(s)[0]));
    }
}

proof fn lemma_word_len_at(word: Seq<char>, tail: Seq<char>)
    requires
        forall|i: int| 0 <= i < word.len() ==> !white(#[trigger] word[i]),
        tail.len() > 0 ==> white(tail[0]),
    ensures
        word_len(word + tail) == word.len(),
    decreases word.len(),
{
    if word.len() == 0 {
        assert(word + tail =~= tail);
    } else {
        assert(!white(word[0]));
        let rest = word.drop_first();
        assert forall|i: int| 0 <= i < rest.len() implies !white(#[trigger] rest[i]) by {
            assert(rest[i] == word[i + 1]);
        }
        assert((word + tail).drop_first() =~= rest + tail);
        lemma_word_len_at(rest, tail);
    }
}

/// Replacing changes what occurs and nothing else: a text without the part stays as it is, and the
/// first occurrence of it gives way, and then those behind it.
pub proof fn law_replaced(s: Seq<char>, from: Seq<char>, to: Seq<char>, i: int)
    requires
        from.len() > 0,
    ensures
        !occurs(s, from) ==> replaced(s, from, to) == s,
        stands_at(s, from, i) && (forall|j: int| 0 <= j < i ==> !stands_at(s, from, j)) ==> replaced(
            s,
            from,
            to,
        ) == s.take(i) + to + replaced(s.skip(i + from.len()), from, to),
    decreases s.len(),
{
    if s.len() > 0 {
        let rest = s.skip(1);
        if !occurs(s, from) {
            assert(!begins(s, from)) by {
                if begins(s, from) {
                    assert(stands_at(s, from, 0));
                }
            }
            assert(!occurs(rest, from)) by {
                if occurs(rest, from) {
                    let k = choose|k: int| stands_at(rest, from, k);
                    assert(s.subrange(k + 1, k + 1 + from.len()) =~= rest.subrange(
                        k,
                        k + from.len(),
                    ));
                    assert(stands_at(s, from, k + 1));
                }
            }
            law_replaced(rest, from, to, i);
            assert(seq![s[0]] + rest =~= s);
        }
        if stands_at(s, from, i) && (forall|j: int| 0 <= j < i ==> !stands_at(s, from, j)) {
            if i == 0 {
                assert(s.take(0) + to =~= to);
            } else {
                assert(!stands_at(s, from, 0));
                assert(rest.subrange(i - 1, i - 1 + from.len()) =~= s.subrange(
                    i,
                    i + from.len(),
                ));
                assert(stands_at(rest, from, i - 1));
                assert forall|j: int| 0 <= j < i - 1 implies !stands_at(rest, from, j) by {
                    if stands_at(rest, from, j) {
                        assert(s.subrange(j + 1, j + 1 + from.len()) =~= rest.subrange(
                            j,
                            j + from.len(),
                        ));
                        assert(stands_at(s, from, j + 1));
                    }
                }
                law_replaced(rest, from, to, i - 1);
                assert(rest.skip(i - 1 + from.len()) =~= s.skip(i + from.len()));
                assert(seq![s[0]] + rest.take(i - 1) =~= s.take(i));
                assert(replaced(s, from, to) =~= s.take(i) + to + replaced(
                    s.skip(i + from.len()),
                    from,
                    to,
                ));
            }
        }
    } else {
        assert(!stands_at(s, from, i));
    }
}

/// The digit that a character of a hexadecimal numeral stands for.
pub open spec fn hex_value(c: char) -> nat {
    if '0' <= c <= '9' {
        (c as nat - '0' as nat) as nat
    } else {
        (c as nat - 'a' as nat + 10) as nat
    }
}

/// A byte is written in two characters, and different bytes differently: from the numeral the bytes
/// can be read back.
pub proof fn law_hex(bytes: Seq<u8>)
    ensures
        hex(bytes).len() == 2 * bytes.len(),
        forall|i: int|
            0 <= i < bytes.len() ==> #[trigger] bytes[i] == 16 * hex_value(hex(bytes)[2 * i])
                + hex_value(hex(bytes)[2 * i + 1]),
        forall|i: int|
            0 <= i < hex(bytes).len() ==> ('0' <= #[trigger] hex(bytes)[i] <= '9') || ('a' <= hex(
                bytes,
            )[i] <= 'f'),
    decreases bytes.len(),
{
    if bytes.len() > 0 {
        let less = bytes.drop_last();
        law_hex(less);
        let last = bytes.last() as nat;
        let all = hex(bytes);
        assert(last / 16 < 16 && last % 16 < 16 && 16 * (last / 16) + last % 16 == last);
        assert forall|i: int| 0 <= i < bytes.len() implies #[trigger] bytes[i] == 16 * hex_value(
            all[2 * i],
        ) + hex_value(all[2 * i + 1]) by {
            if i < less.len() {
                assert(bytes[i] == less[i]);
                assert(all[2 * i] == hex(less)[2 * i]);
                assert(all[2 * i + 1] == hex(less)[2 * i + 1]);
            } else {
                assert(all[2 * i] == hex_char(last / 16));
                assert(all[2 * i + 1] == hex_char(last % 16));
            }
        }
        assert forall|i: int| 0 <= i < all.len() implies ('0' <= #[trigger] all[i] <= '9') || ('a'
            <= all[i] <= 'f') by {
            if i < hex(less).len() {
                assert(all[i] == hex(less)[i]);
            }
        }
    }
}

/// The lower-case form of a text in ASCII has a small letter for each capital, and all else as it
/// was.
pub proof fn law_lowered(s: Seq<char>)
    requires
        ascii(s),
    ensures
        lowered(s).len() == s.len(),
        forall|i: int|
            0 <= i < s.len() ==> (#[trigger] lowered(s)[i]) as nat == if 'A' <= s[i] <= 'Z' {
                s[i] as nat + 32
            } else {
                s[i] as nat
            },
{
    reveal(lowered);
    assert forall|i: int| 0 <= i < s.len() implies (#[trigger] lowered(s)[i]) as nat == if 'A'
        <= s[i] <= 'Z' {
        s[i] as nat + 32
    } else {
        s[i] as nat
    } by {
        lemma_small(s[i]);
    }
}

/// Parts that are joined stand one after another with the gap between each two.
pub proof fn law_joined(first: Seq<Seq<char>>, second: Seq<Seq<char>>, gap: Seq<char>)
    ensures
        first.len() == 0 ==> joined(first, gap).len() == 0,
        first.len() == 1 ==> joined(first, gap) == first[0],
        first.len() > 0 && second.len() > 0 ==> joined(first + second, gap) == joined(first, gap)
            + gap + joined(second, gap),
    decreases second.len(),
{
    if first.len() > 0 && second.len() > 0 {
        let all = first + second;
        assert(all.drop_last() =~= first + second.drop_last());
        if second.len() == 1 {
            assert(all.drop_last() =~= first);
        } else {
            law_joined(first, second.drop_last(), gap);
            assert(joined(all, gap) =~= joined(first, gap) + gap + joined(second, gap));
        }
    }
}

/// Blank are the tab, the four line breaks behind it, the space, and the blanks and breaks that
/// Unicode has beyond ASCII; no other character is.
pub proof fn law_white(c: char)
    ensures
        white(c) <==> {
            let n = c as u32;
            ||| 9 <= n <= 13
            ||| n == 32
            ||| n == 133
            ||| n == 160
            ||| n == 5760
            ||| 8192 <= n <= 8202
            ||| n == 8232
            ||| n == 8233
            ||| n == 8239
            ||| n == 8287
            ||| n == 12288
        },
{
}

/// Two texts of ASCII have the same letters exactly if their lower-case forms are the same.
pub proof fn law_same_letters(a: Seq<char>, b: Seq<char>)
    requires
        ascii(a),
        ascii(b),
    ensures
        same_letters(a, b) <==> lowered(a) == lowered(b),
{
    law_lowered(a);
    law_lowered(b);
    reveal(lowered);
    if same_letters(a, b) {
        assert forall|i: int| 0 <= i < a.len() implies lowered(a)[i] == lowered(b)[i] by {
            assert(folded(a[i]) == folded(b[i]));
            assert(small(a[i]) == small(b[i]));
        }
        assert(lowered(a) =~= lowered(b));
    }
    if lowered(a) == lowered(b) {
        assert forall|i: int| 0 <= i < a.len() implies folded(#[trigger] a[i]) == folded(b[i]) by {
            assert(lowered(a)[i] == lowered(b)[i]);
        }
    }
}

/// The bytes of a text are read as that text, and bytes that are read are those of the text; other
/// bytes are not read.
pub proof fn law_text_from(text: Seq<char>, bytes: Seq<u8>)
    ensures
        text_from(encode_utf8(text)) == Ok::<Seq<char>, Seq<char>>(text),
        text_from(bytes) is Ok ==> encode_utf8(text_from(bytes)->Ok_0) == bytes,
        text_from(bytes) is Ok <==> vstd::utf8::valid_utf8(bytes),
{
    vstd::utf8::encode_utf8_valid_utf8(text);
    vstd::utf8::encode_utf8_decode_utf8(text);
    if vstd::utf8::valid_utf8(bytes) {
        vstd::utf8::decode_utf8_encode_utf8(bytes);
    }
}

} // verus!
