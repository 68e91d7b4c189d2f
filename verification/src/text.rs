//! Text as sequences of characters: searching, cutting, joining and numerals.

use vstd::arithmetic::div_mod::lemma_div_denominator;
use vstd::arithmetic::power::{lemma_pow_positive, pow};
use vstd::prelude::*;

verus! {

/// `String::push` of std: the character is put behind the text, and nothing else changes.
pub assume_specification[ String::push ](s: &mut String, c: char)
    ensures
        final(s)@ == old(s)@.push(c),
;

// ---------------------------------------------------------------------------
// Characters of a text
// ---------------------------------------------------------------------------

/// The characters of a text, in order.
pub fn chars_of(s: &str) -> (out: Vec<char>)
    ensures
        out@ == s@,
{
    let mut out: Vec<char> = Vec::new();
    for c in it: s.chars()
        invariant
            out@ == it.seq().take(it.index() as int),
            it.seq() == s@,
    {
        out.push(c);
    }
    out
}

/// The text made of the characters `from..to` of `chars`.
pub fn slice_text(chars: &Vec<char>, from: usize, to: usize) -> (out: String)
    requires
        from <= to <= chars@.len(),
    ensures
        out@ == chars@.subrange(from as int, to as int),
{
    let mut out = String::new();
    let mut i: usize = from;
    while i < to
        invariant
            from <= i <= to <= chars@.len(),
            out@ == chars@.subrange(from as int, i as int),
        decreases to - i,
    {
        out.push(chars[i]);
        i += 1;
    }
    out
}

/// The texts behind a sequence of strings.
pub open spec fn texts(v: Seq<String>) -> Seq<Seq<char>> {
    Seq::new(v.len(), |i: int| v[i]@)
}

/// A string put behind others adds its text.
pub broadcast proof fn lemma_texts_push(v: Seq<String>, s: String)
    ensures
        #[trigger] texts(v.push(s)) == texts(v).push(s@),
{
    assert(texts(v.push(s)) =~= texts(v).push(s@));
}

/// Whether two texts hold the same characters.
pub fn same_text(a: &str, b: &str) -> (same: bool)
    ensures
        same == (a@ == b@),
{
    let x = chars_of(a);
    let y = chars_of(b);
    if x.len() != y.len() {
        return false;
    }
    let mut i: usize = 0;
    while i < x.len()
        invariant
            x@ == a@,
            y@ == b@,
            x@.len() == y@.len(),
            i <= x@.len(),
            forall|j: int| 0 <= j < i ==> x@[j] == y@[j],
        decreases x.len() - i,
    {
        if x[i] != y[i] {
            return false;
        }
        i += 1;
    }
    assert(a@ =~= b@);
    true
}

/// Whether `part` stands in `s` at position `i`.
pub open spec fn stands_at(s: Seq<char>, part: Seq<char>, i: int) -> bool {
    &&& 0 <= i
    &&& i + part.len() <= s.len()
    &&& s.subrange(i, i + part.len()) == part
}

/// Whether `part` stands somewhere in `s`.
pub open spec fn has_part(s: Seq<char>, part: Seq<char>) -> bool {
    exists|i: int| stands_at(s, part, i)
}

fn part_at(s: &Vec<char>, part: &Vec<char>, i: usize) -> (yes: bool)
    requires
        i + part@.len() <= s@.len(),
    ensures
        yes == stands_at(s@, part@, i as int),
{
    let mut k: usize = 0;
    while k < part.len()
        invariant
            k <= part@.len(),
            i + part@.len() <= s.len(),
            forall|j: int| 0 <= j < k ==> s@[i + j] == part@[j],
        decreases part.len() - k,
    {
        if s[i + k] != part[k] {
            assert(s@.subrange(i as int, i + part@.len())[k as int] == s@[i + k]);
            return false;
        }
        k += 1;
    }
    assert(s@.subrange(i as int, i + part@.len()) =~= part@);
    true
}

/// Whether `part` stands somewhere in `s`.
pub fn contains_text(s: &str, part: &str) -> (yes: bool)
    ensures
        yes == has_part(s@, part@),
{
    let x = chars_of(s);
    let y = chars_of(part);
    if y.len() > x.len() {
        return false;
    }
    let last: usize = x.len() - y.len();
    let mut i: usize = 0;
    while i <= last
        invariant
            x@ == s@,
            y@ == part@,
            y@.len() <= x@.len(),
            last == x@.len() - y@.len(),
            i <= last + 1,
            forall|j: int| 0 <= j < i ==> !#[trigger] stands_at(s@, part@, j),
        decreases last + 1 - i,
    {
        if part_at(&x, &y, i) {
            return true;
        }
        if i == last {
            assert(forall|j: int| !#[trigger] stands_at(s@, part@, j));
            return false;
        }
        i += 1;
    }
    false
}

/// Whether `s` begins with `prefix`.
pub open spec fn begins_with(s: Seq<char>, prefix: Seq<char>) -> bool {
    stands_at(s, prefix, 0)
}

/// Whether `s` begins with `prefix`.
pub fn starts_with_text(s: &str, prefix: &str) -> (yes: bool)
    ensures
        yes == begins_with(s@, prefix@),
{
    let x = chars_of(s);
    let y = chars_of(prefix);
    if y.len() > x.len() {
        return false;
    }
    part_at(&x, &y, 0)
}

/// What follows `prefix` in a text that begins with it.
pub fn strip_text(s: &str, prefix: &str) -> (rest: String)
    requires
        begins_with(s@, prefix@),
    ensures
        rest@ == s@.skip(prefix@.len() as int),
        s@ == prefix@ + rest@,
{
    let x = chars_of(s);
    let y = chars_of(prefix);
    let rest = slice_text(&x, y.len(), x.len());
    assert(rest@ =~= s@.skip(prefix@.len() as int));
    assert(s@ =~= s@.subrange(0, prefix@.len() as int) + rest@);
    rest
}

/// The text with every `from` turned into `to`.
pub open spec fn replaced(s: Seq<char>, from: char, to: char) -> Seq<char> {
    Seq::new(s.len(), |i: int| if s[i] == from { to } else { s[i] })
}

/// The text with every `from` turned into `to`.
pub fn replace_char(s: &str, from: char, to: char) -> (out: String)
    ensures
        out@ == replaced(s@, from, to),
{
    let x = chars_of(s);
    let mut out = String::new();
    let mut i: usize = 0;
    while i < x.len()
        invariant
            x@ == s@,
            i <= x@.len(),
            out@ == replaced(s@, from, to).take(i as int),
        decreases x.len() - i,
    {
        if x[i] == from {
            out.push(to);
        } else {
            out.push(x[i]);
        }
        i += 1;
        assert(out@ =~= replaced(s@, from, to).take(i as int));
    }
    assert(out@ =~= replaced(s@, from, to));
    out
}

// ---------------------------------------------------------------------------
// Cutting a text at a separator
// ---------------------------------------------------------------------------

/// The first position at or behind `from` that holds `c`, or the length of the text.
pub open spec fn find(s: Seq<char>, c: char, from: int) -> int
    decreases s.len() - from,
{
    if from >= s.len() {
        s.len() as int
    } else if s[from] == c {
        from
    } else {
        find(s, c, from + 1)
    }
}

/// The last position before `to` that holds `c`, or -1.
pub open spec fn rfind(s: Seq<char>, c: char, to: int) -> int
    decreases to,
{
    if to <= 0 {
        -1
    } else if s[to - 1] == c {
        to - 1
    } else {
        rfind(s, c, to - 1)
    }
}

/// What stands before the first `c`; the whole text where there is none.
pub open spec fn before_first(s: Seq<char>, c: char) -> Seq<char> {
    s.take(find(s, c, 0))
}

/// What stands behind the first `c`.
pub open spec fn after_first(s: Seq<char>, c: char) -> Option<Seq<char>> {
    if find(s, c, 0) < s.len() {
        Some(s.skip(find(s, c, 0) + 1))
    } else {
        None
    }
}

/// What stands before the last `c`.
pub open spec fn before_last(s: Seq<char>, c: char) -> Option<Seq<char>> {
    if rfind(s, c, s.len() as int) >= 0 {
        Some(s.take(rfind(s, c, s.len() as int)))
    } else {
        None
    }
}

/// What stands behind the last `c`; the whole text where there is none.
pub open spec fn after_last(s: Seq<char>, c: char) -> Seq<char> {
    s.skip(rfind(s, c, s.len() as int) + 1)
}

/// `find` stays within the text and passes over nothing but other characters.
pub proof fn lemma_find(s: Seq<char>, c: char, from: int)
    requires
        0 <= from <= s.len(),
    ensures
        from <= find(s, c, from) <= s.len(),
        find(s, c, from) < s.len() ==> s[find(s, c, from)] == c,
        forall|j: int| from <= j < find(s, c, from) ==> s[j] != c,
    decreases s.len() - from,
{
    if from < s.len() && s[from] != c {
        lemma_find(s, c, from + 1);
    }
}

/// A position that holds `c` with none before it is the one that `find` gives.
pub proof fn lemma_find_is(s: Seq<char>, c: char, from: int, at: int)
    requires
        0 <= from <= at <= s.len(),
        at < s.len() ==> s[at] == c,
        forall|j: int| from <= j < at ==> s[j] != c,
    ensures
        find(s, c, from) == at,
{
    lemma_find(s, c, from);
}

/// `rfind` stays within the text and passes over nothing but other characters.
pub proof fn lemma_rfind(s: Seq<char>, c: char, to: int)
    requires
        0 <= to <= s.len(),
    ensures
        -1 <= rfind(s, c, to) < to || (to == 0 && rfind(s, c, to) == -1),
        rfind(s, c, to) >= 0 ==> s[rfind(s, c, to)] == c,
        forall|j: int| rfind(s, c, to) < j < to ==> s[j] != c,
    decreases to,
{
    if to > 0 && s[to - 1] != c {
        lemma_rfind(s, c, to - 1);
    }
}

/// A position that holds `c` with none behind it is the one that `rfind` gives.
pub proof fn lemma_rfind_is(s: Seq<char>, c: char, at: int)
    requires
        -1 <= at < s.len(),
        at >= 0 ==> s[at] == c,
        forall|j: int| at < j < s.len() ==> s[j] != c,
    ensures
        rfind(s, c, s.len() as int) == at,
{
    lemma_rfind(s, c, s.len() as int);
}

/// The first position at or behind `from` that holds `c`, or the length.
pub fn find_char(s: &Vec<char>, c: char, from: usize) -> (at: usize)
    requires
        from <= s@.len(),
    ensures
        at == find(s@, c, from as int),
        from <= at <= s@.len(),
{
    let mut i: usize = from;
    while i < s.len()
        invariant
            from <= i <= s@.len(),
            find(s@, c, from as int) == find(s@, c, i as int),
        decreases s.len() - i,
    {
        if s[i] == c {
            return i;
        }
        i += 1;
    }
    i
}

/// The last position that holds `c`.
pub fn rfind_char(s: &Vec<char>, c: char) -> (at: Option<usize>)
    ensures
        match at {
            Some(i) => i < s@.len() && i == rfind(s@, c, s@.len() as int),
            None => rfind(s@, c, s@.len() as int) == -1,
        },
{
    let mut i: usize = s.len();
    while i > 0
        invariant
            i <= s@.len(),
            rfind(s@, c, s@.len() as int) == rfind(s@, c, i as int),
        decreases i,
    {
        if s[i - 1] == c {
            return Some(i - 1);
        }
        i -= 1;
    }
    None
}

/// Cuts a text at its first `c`.
pub fn split_first(s: &str, c: char) -> (r: (String, Option<String>))
    ensures
        r.0@ == before_first(s@, c),
        match r.1 {
            Some(rest) => after_first(s@, c) == Some(rest@),
            None => after_first(s@, c) is None,
        },
{
    let x = chars_of(s);
    let at = find_char(&x, c, 0);
    let head = slice_text(&x, 0, at);
    assert(head@ =~= before_first(s@, c));
    if at < x.len() {
        let rest = slice_text(&x, at + 1, x.len());
        assert(rest@ =~= s@.skip(at + 1));
        (head, Some(rest))
    } else {
        (head, None)
    }
}

/// Cuts a text at its last `c`.
pub fn split_last(s: &str, c: char) -> (r: (Option<String>, String))
    ensures
        r.1@ == after_last(s@, c),
        match r.0 {
            Some(head) => before_last(s@, c) == Some(head@),
            None => before_last(s@, c) is None,
        },
{
    let x = chars_of(s);
    let len: usize = x.len();
    match rfind_char(&x, c) {
        Some(at) => {
            let head = slice_text(&x, 0, at);
            let tail = slice_text(&x, at + 1, len);
            assert(head@ =~= s@.take(at as int));
            assert(tail@ =~= after_last(s@, c));
            (Some(head), tail)
        },
        None => {
            let tail = slice_text(&x, 0, len);
            assert(tail@ =~= after_last(s@, c));
            (None, tail)
        },
    }
}

/// A text put together from a part without `c`, a `c` and a rest is cut back into the two.
pub proof fn lemma_cut_first(head: Seq<char>, c: char, rest: Seq<char>)
    requires
        !head.contains(c),
    ensures
        before_first(head + seq![c] + rest, c) == head,
        after_first(head + seq![c] + rest, c) == Some(rest),
{
    let s = head + seq![c] + rest;
    assert forall|j: int| 0 <= j < head.len() implies s[j] != c by {
        assert(head.contains(head[j]));
    }
    lemma_find_is(s, c, 0, head.len() as int);
    assert(s.take(head.len() as int) =~= head);
    assert(s.skip(head.len() as int + 1) =~= rest);
}

/// A text without `c` is not cut.
pub proof fn lemma_no_cut(s: Seq<char>, c: char)
    requires
        !s.contains(c),
    ensures
        before_first(s, c) == s,
        after_first(s, c) is None,
        before_last(s, c) is None,
        after_last(s, c) == s,
{
    assert forall|j: int| 0 <= j < s.len() implies s[j] != c by {
        assert(s.contains(s[j]));
    }
    lemma_find_is(s, c, 0, s.len() as int);
    lemma_rfind_is(s, c, -1);
    assert(s.take(s.len() as int) =~= s);
    assert(s.skip(0) =~= s);
}

/// A text put together from a head, a `c` and a part without `c` is cut back into the two.
pub proof fn lemma_cut_last(head: Seq<char>, c: char, rest: Seq<char>)
    requires
        !rest.contains(c),
    ensures
        before_last(head + seq![c] + rest, c) == Some(head),
        after_last(head + seq![c] + rest, c) == rest,
{
    let s = head + seq![c] + rest;
    assert forall|j: int| head.len() < j < s.len() implies s[j] != c by {
        assert(s[j] == rest[j - head.len() - 1]);
        assert(rest.contains(rest[j - head.len() - 1]));
    }
    lemma_rfind_is(s, c, head.len() as int);
    assert(s.take(head.len() as int) =~= head);
    assert(s.skip(head.len() as int + 1) =~= rest);
}

/// The text without the run of `c` at its end.
pub open spec fn trimmed_end_of(s: Seq<char>, c: char) -> Seq<char>
    decreases s.len(),
{
    if s.len() > 0 && s.last() == c {
        trimmed_end_of(s.drop_last(), c)
    } else {
        s
    }
}

/// Takes every `c` off the end of a text.
pub fn trim_end_of(s: &str, c: char) -> (out: String)
    ensures
        out@ == trimmed_end_of(s@, c),
{
    let x = chars_of(s);
    let mut to: usize = x.len();
    assert(s@.take(to as int) =~= s@);
    while to > 0 && x[to - 1] == c
        invariant
            x@ == s@,
            to <= x@.len(),
            trimmed_end_of(s@, c) == trimmed_end_of(s@.take(to as int), c),
        decreases to,
    {
        assert(s@.take(to as int).drop_last() =~= s@.take(to - 1));
        to -= 1;
    }
    let out = slice_text(&x, 0, to);
    assert(out@ =~= s@.take(to as int));
    out
}

// ---------------------------------------------------------------------------
// White space
// ---------------------------------------------------------------------------

/// The characters with the Unicode property White_Space.
pub open spec fn white_space(c: char) -> bool {
    ||| '\u{9}' <= c <= '\u{d}'
    ||| c == ' '
    ||| c == '\u{85}'
    ||| c == '\u{a0}'
    ||| c == '\u{1680}'
    ||| '\u{2000}' <= c <= '\u{200a}'
    ||| c == '\u{2028}'
    ||| c == '\u{2029}'
    ||| c == '\u{202f}'
    ||| c == '\u{205f}'
    ||| c == '\u{3000}'
}

/// Whether a character is white space.
pub fn is_white_space(c: char) -> (yes: bool)
    ensures
        yes == white_space(c),
{
    ('\u{9}' <= c && c <= '\u{d}') || c == ' ' || c == '\u{85}' || c == '\u{a0}' || c == '\u{1680}'
        || ('\u{2000}' <= c && c <= '\u{200a}') || c == '\u{2028}' || c == '\u{2029}'
        || c == '\u{202f}' || c == '\u{205f}' || c == '\u{3000}'
}

/// The text without the white space in front.
pub open spec fn trimmed_start(s: Seq<char>) -> Seq<char>
    decreases s.len(),
{
    if s.len() > 0 && white_space(s[0]) {
        trimmed_start(s.skip(1))
    } else {
        s
    }
}

/// The text without the white space behind.
pub open spec fn trimmed_end(s: Seq<char>) -> Seq<char>
    decreases s.len(),
{
    if s.len() > 0 && white_space(s.last()) {
        trimmed_end(s.drop_last())
    } else {
        s
    }
}

/// The text without the white space in front and behind.
pub open spec fn trimmed(s: Seq<char>) -> Seq<char> {
    trimmed_end(trimmed_start(s))
}

/// The characters `from..to` without the white space in front and behind.
pub fn trim_slice(x: &Vec<char>, from: usize, to: usize) -> (out: String)
    requires
        from <= to <= x@.len(),
    ensures
        out@ == trimmed(x@.subrange(from as int, to as int)),
{
    let ghost whole = x@.subrange(from as int, to as int);
    let mut a: usize = from;
    while a < to && is_white_space(x[a])
        invariant
            from <= a <= to <= x@.len(),
            trimmed_start(whole) == trimmed_start(x@.subrange(a as int, to as int)),
        decreases to - a,
    {
        assert(x@.subrange(a as int, to as int).skip(1) =~= x@.subrange(a + 1, to as int));
        a += 1;
    }
    let ghost front = x@.subrange(a as int, to as int);
    assert(trimmed_start(whole) == front);
    let mut b: usize = to;
    while b > a && is_white_space(x[b - 1])
        invariant
            a <= b <= to <= x@.len(),
            trimmed_end(front) == trimmed_end(x@.subrange(a as int, b as int)),
        decreases b - a,
    {
        assert(x@.subrange(a as int, b as int).drop_last() =~= x@.subrange(a as int, b - 1));
        b -= 1;
    }
    slice_text(x, a, b)
}

/// The text without the white space in front and behind.
pub fn trim(s: &str) -> (out: String)
    ensures
        out@ == trimmed(s@),
{
    let x = chars_of(s);
    assert(x@.subrange(0, x@.len() as int) =~= s@);
    trim_slice(&x, 0, x.len())
}

/// A trimmed text neither begins nor ends with white space.
pub proof fn lemma_trimmed_ends(s: Seq<char>)
    ensures
        trimmed(s).len() > 0 ==> !white_space(trimmed(s)[0]) && !white_space(trimmed(s).last()),
        trimmed(s).len() <= s.len(),
{
    lemma_trimmed_start(s);
    lemma_trimmed_end(trimmed_start(s));
}

proof fn lemma_trimmed_start(s: Seq<char>)
    ensures
        trimmed_start(s).len() > 0 ==> !white_space(trimmed_start(s)[0]),
        trimmed_start(s).len() <= s.len(),
    decreases s.len(),
{
    if s.len() > 0 && white_space(s[0]) {
        lemma_trimmed_start(s.skip(1));
    }
}

proof fn lemma_trimmed_end(s: Seq<char>)
    ensures
        trimmed_end(s).len() > 0 ==> !white_space(trimmed_end(s).last()),
        trimmed_end(s).len() > 0 ==> trimmed_end(s)[0] == s[0],
        trimmed_end(s).len() <= s.len(),
    decreases s.len(),
{
    if s.len() > 0 && white_space(s.last()) {
        lemma_trimmed_end(s.drop_last());
    }
}

// ---------------------------------------------------------------------------
// Joining
// ---------------------------------------------------------------------------

/// The parts in order, with `sep` between each two.
pub open spec fn joined(parts: Seq<Seq<char>>, sep: Seq<char>) -> Seq<char>
    decreases parts.len(),
{
    if parts.len() == 0 {
        Seq::empty()
    } else if parts.len() == 1 {
        parts[0]
    } else {
        joined(parts.drop_last(), sep) + sep + parts.last()
    }
}

/// The parts in order, with `sep` between each two.
pub fn join(parts: &Vec<String>, sep: &str) -> (out: String)
    ensures
        out@ == joined(texts(parts@), sep@),
{
    let mut out = String::new();
    let mut i: usize = 0;
    while i < parts.len()
        invariant
            i <= parts@.len(),
            out@ == joined(texts(parts@).take(i as int), sep@),
        decreases parts.len() - i,
    {
        if i > 0 {
            out.append(sep);
        }
        out.append(parts[i].as_str());
        assert(texts(parts@).take(i + 1).drop_last() =~= texts(parts@).take(i as int));
        i += 1;
    }
    assert(texts(parts@).take(i as int) =~= texts(parts@));
    out
}

// ---------------------------------------------------------------------------
// Numerals
// ---------------------------------------------------------------------------

/// The digit for a number below sixteen, in lower case.
pub open spec fn digit(n: int) -> char {
    if n < 10 {
        (48 + n) as char
    } else {
        (87 + n) as char
    }
}

/// The digit for a number below sixteen, in lower case.
pub fn digit_char(n: u8) -> (c: char)
    requires
        n < 16,
    ensures
        c == digit(n as int),
{
    if n < 10 {
        (48 + n) as char
    } else {
        (87 + n) as char
    }
}

/// A number in base ten.
pub open spec fn decimal(n: nat) -> Seq<char>
    decreases n,
{
    if n < 10 {
        seq![digit(n as int)]
    } else {
        decimal(n / 10).push(digit((n % 10) as int))
    }
}

/// A number in base ten.
pub fn decimal_text(n: u64) -> (out: String)
    ensures
        out@ == decimal(n as nat),
    decreases n,
{
    let mut out = if n < 10 {
        String::new()
    } else {
        decimal_text(n / 10)
    };
    out.push(digit_char((n % 10) as u8));
    assert(out@ =~= decimal(n as nat));
    out
}

/// A number in base sixteen, without leading zeros.
pub open spec fn hexadecimal(n: nat) -> Seq<char>
    decreases n,
{
    if n < 16 {
        seq![digit(n as int)]
    } else {
        hexadecimal(n / 16).push(digit((n % 16) as int))
    }
}

/// A number in base sixteen, without leading zeros.
pub fn hexadecimal_text(n: u16) -> (out: String)
    ensures
        out@ == hexadecimal(n as nat),
    decreases n,
{
    let mut out = if n < 16 {
        String::new()
    } else {
        hexadecimal_text(n / 16)
    };
    out.push(digit_char((n % 16) as u8));
    assert(out@ =~= hexadecimal(n as nat));
    out
}

/// A byte as two digits in base sixteen.
pub open spec fn hex_pair(b: u8) -> Seq<char> {
    seq![digit((b / 16) as int), digit((b % 16) as int)]
}

/// Puts a byte behind a text, as two digits in base sixteen.
pub fn push_hex_pair(out: &mut String, b: u8)
    ensures
        final(out)@ == old(out)@ + hex_pair(b),
{
    out.push(digit_char(b / 16));
    out.push(digit_char(b % 16));
    assert(out@ =~= old(out)@ + hex_pair(b));
}

/// Bytes in order, each as two digits in base sixteen.
pub open spec fn hex_pairs(bytes: Seq<u8>) -> Seq<char>
    decreases bytes.len(),
{
    if bytes.len() == 0 {
        Seq::empty()
    } else {
        hex_pairs(bytes.drop_last()) + hex_pair(bytes.last())
    }
}

/// Whether every character is a decimal digit.
pub open spec fn all_digits(s: Seq<char>) -> bool {
    forall|i: int| 0 <= i < s.len() ==> '0' <= #[trigger] s[i] <= '9'
}

/// The number that decimal digits stand for.
pub open spec fn digits_value(s: Seq<char>) -> nat
    decreases s.len(),
{
    if s.len() == 0 {
        0
    } else {
        (digits_value(s.drop_last()) * 10 + (s.last() as int - 48)) as nat
    }
}

/// The 16-bit number that a text stands for: decimal digits, behind at most one `+`.
pub open spec fn u16_of(s: Seq<char>) -> Option<u16> {
    let digits = if s.len() > 0 && s[0] == '+' {
        s.skip(1)
    } else {
        s
    };
    if digits.len() > 0 && all_digits(digits) && digits_value(digits) <= 0xffff {
        Some(digits_value(digits) as u16)
    } else {
        None
    }
}

proof fn lemma_digits_value_grows(s: Seq<char>, i: int)
    requires
        0 <= i <= s.len(),
        all_digits(s),
    ensures
        digits_value(s.take(i)) <= digits_value(s),
    decreases s.len(),
{
    if i == s.len() {
        assert(s.take(i) =~= s);
    } else {
        lemma_digits_value_grows(s.drop_last(), i);
        assert(s.drop_last().take(i) =~= s.take(i));
        assert('0' <= s[s.len() - 1] <= '9');
    }
}

/// Reads a 16-bit number.
pub fn parse_u16(s: &str) -> (n: Option<u16>)
    ensures
        n == u16_of(s@),
{
    let x = chars_of(s);
    let from: usize = if x.len() > 0 && x[0] == '+' {
        1
    } else {
        0
    };
    let ghost digits = x@.skip(from as int);
    assert(from == 0 ==> digits =~= s@);
    if from == x.len() {
        return None;
    }
    let mut value: u32 = 0;
    let mut i: usize = from;
    while i < x.len()
        invariant
            x@ == s@,
            from <= i <= x@.len(),
            from < x@.len(),
            digits == x@.skip(from as int),
            u16_of(s@) == (if digits.len() > 0 && all_digits(digits) && digits_value(digits)
                <= 0xffff {
                Some(digits_value(digits) as u16)
            } else {
                None::<u16>
            }),
            value <= 0xffff,
            value == digits_value(digits.take(i - from)),
            all_digits(digits.take(i - from)),
        decreases x.len() - i,
    {
        let c = x[i];
        assert(digits[i - from] == c);
        if c < '0' || c > '9' {
            assert(!all_digits(digits));
            return None;
        }
        let d: u32 = c as u32 - 48;
        value = value * 10 + d;
        assert(digits.take(i + 1 - from).drop_last() =~= digits.take(i - from));
        assert(digits.take(i + 1 - from).last() == c);
        assert(all_digits(digits.take(i + 1 - from))) by {
            assert forall|j: int| 0 <= j < i + 1 - from implies '0' <= #[trigger] digits.take(
                i + 1 - from,
            )[j] <= '9' by {
                if j < i - from {
                    assert(digits.take(i - from)[j] == digits[j]);
                }
            }
        }
        if value > 0xffff {
            proof {
                if all_digits(digits) {
                    lemma_digits_value_grows(digits, i + 1 - from);
                }
            }
            return None;
        }
        i += 1;
    }
    assert(digits.take(i - from) =~= digits);
    Some(value as u16)
}

proof fn lemma_decimal(n: nat)
    ensures
        decimal(n).len() > 0,
        all_digits(decimal(n)),
        digits_value(decimal(n)) == n,
    decreases n,
{
    reveal_with_fuel(digits_value, 2);
    if n >= 10 {
        lemma_decimal(n / 10);
        assert(decimal(n).drop_last() =~= decimal(n / 10));
        assert(all_digits(decimal(n))) by {
            assert forall|j: int| 0 <= j < decimal(n).len() implies '0' <= #[trigger] decimal(n)[j]
                <= '9' by {
                if j < decimal(n).len() - 1 {
                    assert(decimal(n)[j] == decimal(n / 10)[j]);
                }
            }
        }
    } else {
        assert(decimal(n).drop_last() =~= Seq::empty());
    }
}

/// Reading the decimal numeral of a 16-bit number gives the number back.
pub proof fn law_u16_reads_decimal(n: u16)
    ensures
        u16_of(decimal(n as nat)) == Some(n),
{
    lemma_decimal(n as nat);
    assert('0' <= decimal(n as nat)[0] <= '9');
}

/// A decimal numeral holds digits only.
pub proof fn lemma_decimal_lacks(n: nat, c: char)
    requires
        !('0' <= c <= '9'),
    ensures
        !decimal(n).contains(c),
{
    lemma_decimal(n);
}

// ---------------------------------------------------------------------------
// The parts of a text between separators
// ---------------------------------------------------------------------------

/// The parts of a text between its separators `c`, in order; a text without any is its only part.
pub open spec fn parts_of(s: Seq<char>, c: char) -> Seq<Seq<char>>
    decreases s.len(),
{
    proof {
        lemma_find(s, c, 0);
    }
    if find(s, c, 0) < s.len() {
        seq![s.take(find(s, c, 0))] + parts_of(s.skip(find(s, c, 0) + 1), c)
    } else {
        seq![s]
    }
}

/// Two texts with a separator between them have the parts of the first and then those of the
/// second.
pub proof fn law_parts_add(a: Seq<char>, c: char, b: Seq<char>)
    ensures
        parts_of(a + seq![c] + b, c) == parts_of(a, c) + parts_of(b, c),
    decreases a.len(),
{
    let s = a + seq![c] + b;
    lemma_find(a, c, 0);
    let at = find(a, c, 0);
    if at < a.len() {
        assert forall|j: int| 0 <= j < at implies s[j] != c by {
            assert(s[j] == a[j]);
        }
        assert(s[at] == a[at]);
        lemma_find_is(s, c, 0, at);
        law_parts_add(a.skip(at + 1), c, b);
        assert(s.take(at) =~= a.take(at));
        assert(s.skip(at + 1) =~= a.skip(at + 1) + seq![c] + b);
        assert(parts_of(s, c) =~= parts_of(a, c) + parts_of(b, c));
    } else {
        assert forall|j: int| 0 <= j < a.len() implies s[j] != c by {
            assert(s[j] == a[j]);
        }
        lemma_find_is(s, c, 0, a.len() as int);
        assert(s.take(a.len() as int) =~= a);
        assert(s.skip(a.len() as int + 1) =~= b);
    }
}

/// A text without a separator is its only part.
pub proof fn law_parts_one(s: Seq<char>, c: char)
    requires
        !s.contains(c),
    ensures
        parts_of(s, c) == seq![s],
{
    lemma_no_cut(s, c);
    assert(find(s, c, 0) == s.len()) by {
        lemma_find(s, c, 0);
        if find(s, c, 0) < s.len() {
            assert(s.contains(s[find(s, c, 0)]));
        }
    }
}

/// The parts of several texts, one behind the other.
pub open spec fn all_parts(texts: Seq<Seq<char>>, c: char) -> Seq<Seq<char>>
    decreases texts.len(),
{
    if texts.len() == 0 {
        Seq::empty()
    } else {
        all_parts(texts.drop_last(), c) + parts_of(texts.last(), c)
    }
}

/// Texts that are joined with a separator have the parts of each, in order.
pub proof fn law_joined_parts(texts: Seq<Seq<char>>, c: char)
    requires
        texts.len() > 0,
    ensures
        parts_of(joined(texts, seq![c]), c) == all_parts(texts, c),
    decreases texts.len(),
{
    reveal_with_fuel(all_parts, 2);
    if texts.len() == 1 {
        assert(texts.last() == texts[0]);
        assert(all_parts(texts, c) =~= parts_of(texts[0], c));
    } else {
        law_joined_parts(texts.drop_last(), c);
        law_parts_add(joined(texts.drop_last(), seq![c]), c, texts.last());
    }
}

/// Texts without the separator are the parts of what they are joined to.
pub proof fn law_joined_is_taken_apart(texts: Seq<Seq<char>>, c: char)
    requires
        texts.len() > 0,
        forall|i: int| 0 <= i < texts.len() ==> !(#[trigger] texts[i]).contains(c),
    ensures
        parts_of(joined(texts, seq![c]), c) == texts,
    decreases texts.len(),
{
    law_joined_parts(texts, c);
    lemma_all_parts(texts, c);
}

proof fn lemma_all_parts(texts: Seq<Seq<char>>, c: char)
    requires
        forall|i: int| 0 <= i < texts.len() ==> !(#[trigger] texts[i]).contains(c),
    ensures
        all_parts(texts, c) == texts,
    decreases texts.len(),
{
    if texts.len() > 0 {
        assert forall|i: int| 0 <= i < texts.drop_last().len() implies !(
        #[trigger] texts.drop_last()[i]).contains(c) by {
            assert(texts.drop_last()[i] == texts[i]);
        }
        lemma_all_parts(texts.drop_last(), c);
        law_parts_one(texts.last(), c);
        assert(all_parts(texts, c) =~= texts);
    } else {
        assert(all_parts(texts, c) =~= texts);
    }
}

// ---------------------------------------------------------------------------
// Laws
// ---------------------------------------------------------------------------

/// A part stands in a text exactly where the text is something, the part, and something.
pub proof fn law_part_is_anywhere(s: Seq<char>, part: Seq<char>, a: Seq<char>, b: Seq<char>)
    ensures
        has_part(a + part + b, part),
        has_part(s, part) ==> exists|x: Seq<char>, y: Seq<char>| s == #[trigger] (x + part + y),
{
    let whole = a + part + b;
    assert(whole.subrange(a.len() as int, a.len() as int + part.len()) =~= part);
    assert(stands_at(whole, part, a.len() as int));
    if has_part(s, part) {
        let i = choose|i: int| stands_at(s, part, i);
        let x = s.take(i);
        let y = s.skip(i + part.len());
        assert(s =~= x + part + y);
    }
}

/// A text begins with a prefix exactly where it is the prefix and something.
pub proof fn law_prefix_is_in_front(s: Seq<char>, prefix: Seq<char>, rest: Seq<char>)
    ensures
        begins_with(prefix + rest, prefix),
        begins_with(s, prefix) ==> exists|y: Seq<char>| s == #[trigger] (prefix + y),
{
    assert((prefix + rest).subrange(0, prefix.len() as int) =~= prefix);
    if begins_with(s, prefix) {
        assert(s =~= prefix + s.skip(prefix.len() as int));
    }
}

/// Texts that are joined in two heaps, and the heaps with a separator between them, are joined as
/// one; a single text is joined to itself, and none to nothing.
pub proof fn law_joined_adds(a: Seq<Seq<char>>, b: Seq<Seq<char>>, one: Seq<char>, sep: Seq<char>)
    requires
        a.len() > 0,
        b.len() > 0,
    ensures
        joined(a + b, sep) == joined(a, sep) + sep + joined(b, sep),
        joined(seq![one], sep) == one,
        joined(Seq::empty(), sep) == Seq::<char>::empty(),
    decreases b.len(),
{
    if b.len() == 1 {
        assert((a + b).drop_last() =~= a);
        assert((a + b).last() == b[0]);
    } else {
        law_joined_adds(a, b.drop_last(), one, sep);
        assert((a + b).drop_last() =~= a + b.drop_last());
        assert((a + b).last() == b.last());
        assert(joined(a + b, sep) =~= joined(a, sep) + sep + joined(b, sep));
    }
}

/// Trimming takes off exactly the white space in front and behind.
pub proof fn law_trimming(front: Seq<char>, core: Seq<char>, back: Seq<char>)
    requires
        forall|i: int| 0 <= i < front.len() ==> white_space(#[trigger] front[i]),
        forall|i: int| 0 <= i < back.len() ==> white_space(#[trigger] back[i]),
        core.len() > 0 ==> !white_space(core[0]) && !white_space(core.last()),
    ensures
        trimmed(front + core + back) == core,
{
    if core.len() == 0 {
        lemma_all_white(front + core + back);
        assert(core =~= Seq::<char>::empty());
        assert(trimmed(front + core + back) =~= core);
    } else {
        assert(front + core + back =~= front + (core + back));
        lemma_trim_front(front, core + back);
        lemma_trim_back(core, back);
    }
}

proof fn lemma_all_white(s: Seq<char>)
    requires
        forall|i: int| 0 <= i < s.len() ==> white_space(#[trigger] s[i]),
    ensures
        trimmed_start(s).len() == 0,
        trimmed(s).len() == 0,
    decreases s.len(),
{
    if s.len() > 0 {
        assert(white_space(s[0]));
        assert forall|i: int| 0 <= i < s.skip(1).len() implies white_space(
            #[trigger] s.skip(1)[i],
        ) by {
            assert(s.skip(1)[i] == s[i + 1]);
        }
        lemma_all_white(s.skip(1));
    }
}

proof fn lemma_trim_front(front: Seq<char>, rest: Seq<char>)
    requires
        forall|i: int| 0 <= i < front.len() ==> white_space(#[trigger] front[i]),
        rest.len() > 0,
        !white_space(rest[0]),
    ensures
        trimmed_start(front + rest) == rest,
    decreases front.len(),
{
    if front.len() == 0 {
        assert(front + rest =~= rest);
    } else {
        assert(white_space(front[0]));
        assert forall|i: int| 0 <= i < front.skip(1).len() implies white_space(
            #[trigger] front.skip(1)[i],
        ) by {
            assert(front.skip(1)[i] == front[i + 1]);
        }
        lemma_trim_front(front.skip(1), rest);
        assert((front + rest).skip(1) =~= front.skip(1) + rest);
    }
}

proof fn lemma_trim_back(core: Seq<char>, back: Seq<char>)
    requires
        forall|i: int| 0 <= i < back.len() ==> white_space(#[trigger] back[i]),
        core.len() > 0,
        !white_space(core.last()),
    ensures
        trimmed_end(core + back) == core,
    decreases back.len(),
{
    if back.len() == 0 {
        assert(core + back =~= core);
    } else {
        assert(white_space(back[back.len() - 1]));
        assert forall|i: int| 0 <= i < back.drop_last().len() implies white_space(
            #[trigger] back.drop_last()[i],
        ) by {
            assert(back.drop_last()[i] == back[i]);
        }
        lemma_trim_back(core, back.drop_last());
        assert((core + back).drop_last() =~= core + back.drop_last());
    }
}

/// Taking a character off the end takes off exactly the run of it there.
pub proof fn law_trimming_end_of(core: Seq<char>, n: nat, c: char)
    requires
        core.len() > 0 ==> core.last() != c,
    ensures
        trimmed_end_of(core + Seq::new(n, |i: int| c), c) == core,
    decreases n,
{
    let run = Seq::new(n, |i: int| c);
    if n == 0 {
        assert(core + run =~= core);
    } else {
        let shorter = Seq::new((n - 1) as nat, |i: int| c);
        assert((core + run).drop_last() =~= core + shorter);
        law_trimming_end_of(core, (n - 1) as nat, c);
    }
}

/// A decimal numeral has, `i` places from its end, the digit for the tens to the power of `i` in
/// the number, and it has no more digits than the number needs.
pub proof fn law_decimal_digits(n: nat, i: nat)
    requires
        i < decimal(n).len(),
    ensures
        decimal(n)[decimal(n).len() - 1 - i] as int == 48 + (n as int / pow(10, i)) % 10,
        n < pow(10, decimal(n).len()),
        decimal(n).len() > 1 ==> pow(10, (decimal(n).len() - 1) as nat) <= n,
    decreases n,
{
    reveal(pow);
    lemma_pow_positive(10, i);
    let len = decimal(n).len();
    if n < 10 {
        assert(pow(10, 1) == 10 * pow(10, 0));
    } else {
        let m = n / 10;
        lemma_decimal(m);
        if i > 0 {
            let j = (i - 1) as nat;
            law_decimal_digits(m, j);
            lemma_pow_positive(10, j);
            assert(pow(10, i) == 10 * pow(10, j));
            lemma_div_denominator(n as int, 10, pow(10, j));
            assert(decimal(n)[len - 1 - i] == decimal(m)[decimal(m).len() - 1 - j]);
        } else {
            law_decimal_digits(m, 0);
            assert(pow(10, 0) == 1);
        }
        assert(pow(10, len) == 10 * pow(10, (len - 1) as nat));
        if len > 2 {
            assert(pow(10, (len - 1) as nat) == 10 * pow(10, (len - 2) as nat));
        } else {
            assert(pow(10, 1) == 10 * pow(10, 0));
        }
    }
}

/// The number that a digit in base sixteen stands for, in lower case; -1 for any other character.
pub open spec fn hex_value(c: char) -> int {
    if '0' <= c <= '9' {
        c as int - 48
    } else if 'a' <= c <= 'f' {
        c as int - 87
    } else {
        -1
    }
}

/// The number that digits in base sixteen stand for.
pub open spec fn hex_number(s: Seq<char>) -> int
    decreases s.len(),
{
    if s.len() == 0 {
        0
    } else {
        hex_number(s.drop_last()) * 16 + hex_value(s.last())
    }
}

/// Whether every character is a digit in base sixteen, in lower case.
pub open spec fn all_hex(s: Seq<char>) -> bool {
    forall|i: int| 0 <= i < s.len() ==> hex_value(#[trigger] s[i]) >= 0
}

/// A numeral in base sixteen stands for its number, holds nothing but digits, and does not begin
/// with a zero unless it is one.
pub proof fn law_hexadecimal_is_read_back(n: nat)
    ensures
        hex_number(hexadecimal(n)) == n,
        all_hex(hexadecimal(n)),
        hexadecimal(n).len() > 0,
        hexadecimal(n)[0] == '0' ==> n == 0 && hexadecimal(n).len() == 1,
    decreases n,
{
    reveal_with_fuel(hex_number, 2);
    if n < 16 {
        assert(hexadecimal(n).drop_last() =~= Seq::empty());
        assert(hex_value(digit(n as int)) == n);
    } else {
        law_hexadecimal_is_read_back(n / 16);
        assert(hexadecimal(n).drop_last() =~= hexadecimal(n / 16));
        assert(hex_value(digit((n % 16) as int)) == n % 16);
        assert forall|i: int| 0 <= i < hexadecimal(n).len() implies hex_value(
            #[trigger] hexadecimal(n)[i],
        ) >= 0 by {
            if i < hexadecimal(n).len() - 1 {
                assert(hexadecimal(n)[i] == hexadecimal(n / 16)[i]);
            }
        }
    }
}

/// A byte is two digits in base sixteen that stand for it.
pub proof fn law_hex_pair_is_read_back(b: u8)
    ensures
        hex_pair(b).len() == 2,
        0 <= hex_value(hex_pair(b)[0]) < 16,
        0 <= hex_value(hex_pair(b)[1]) < 16,
        hex_value(hex_pair(b)[0]) * 16 + hex_value(hex_pair(b)[1]) == b,
{
}

/// A 16-bit number is read from every decimal numeral for it: with any number of zeros in front,
/// and with or without one `+` before those.
pub proof fn law_u16_reads_every_numeral(n: u16, zeros: nat)
    ensures
        u16_of(Seq::new(zeros, |i: int| '0') + decimal(n as nat)) == Some(n),
        u16_of(seq!['+'] + (Seq::new(zeros, |i: int| '0') + decimal(n as nat))) == Some(n),
{
    let s = Seq::new(zeros, |i: int| '0') + decimal(n as nat);
    lemma_decimal(n as nat);
    lemma_zeros_value(zeros, decimal(n as nat));
    assert(all_digits(s)) by {
        assert forall|i: int| 0 <= i < s.len() implies '0' <= #[trigger] s[i] <= '9' by {
            if i >= zeros {
                assert(s[i] == decimal(n as nat)[i - zeros]);
            }
        }
    }
    assert('0' <= s[0] <= '9');
    assert((seq!['+'] + s).skip(1) =~= s);
}

proof fn lemma_zeros_value(zeros: nat, s: Seq<char>)
    ensures
        digits_value(Seq::new(zeros, |i: int| '0') + s) == digits_value(s),
    decreases zeros + s.len(),
{
    let z = Seq::new(zeros, |i: int| '0');
    if s.len() > 0 {
        lemma_zeros_value(zeros, s.drop_last());
        assert((z + s).drop_last() =~= z + s.drop_last());
    } else if zeros > 0 {
        let less = Seq::new((zeros - 1) as nat, |i: int| '0');
        lemma_zeros_value((zeros - 1) as nat, s);
        assert((z + s).drop_last() =~= less + s);
        assert((z + s).last() == '0');
    } else {
        assert(z + s =~= s);
    }
}

/// A 16-bit number is read from nothing else.
pub proof fn law_u16_reads_nothing_else(s: Seq<char>, n: u16)
    requires
        u16_of(s) == Some(n),
    ensures
        ({
            let zeros = |k: nat| Seq::new(k, |i: int| '0');
            ||| exists|k: nat| s == #[trigger] zeros(k) + decimal(n as nat)
            ||| exists|k: nat| s == seq!['+'] + (#[trigger] zeros(k) + decimal(n as nat))
        }),
{
    let zeros = |k: nat| Seq::new(k, |i: int| '0');
    if s[0] == '+' {
        let digits = s.skip(1);
        lemma_digits_are_numerals(digits);
        let k = (digits.len() - decimal(n as nat).len()) as nat;
        assert(s =~= seq!['+'] + (zeros(k) + decimal(n as nat)));
    } else {
        lemma_digits_are_numerals(s);
        let k = (s.len() - decimal(n as nat).len()) as nat;
        assert(s == zeros(k) + decimal(n as nat));
    }
}

proof fn lemma_digits_are_numerals(s: Seq<char>)
    requires
        s.len() > 0,
        all_digits(s),
    ensures
        decimal(digits_value(s)).len() <= s.len(),
        s == Seq::new(
            (s.len() - decimal(digits_value(s)).len()) as nat,
            |i: int| '0',
        ) + decimal(digits_value(s)),
    decreases s.len(),
{
    let t = s.drop_last();
    let d = s.last() as int - 48;
    let v = digits_value(s);
    assert('0' <= s[s.len() - 1] <= '9');
    if t.len() == 0 {
        assert(digits_value(t) == 0);
        assert(decimal(v) =~= seq![s.last()]);
        assert(s =~= Seq::new(0, |i: int| '0') + decimal(v));
    } else {
        assert forall|i: int| 0 <= i < t.len() implies '0' <= #[trigger] t[i] <= '9' by {
            assert(t[i] == s[i]);
        }
        lemma_digits_are_numerals(t);
        let w = digits_value(t);
        assert(v == w * 10 + d);
        if w == 0 {
            assert(decimal(w) =~= seq!['0']);
            assert(decimal(v) =~= seq![s.last()]);
        } else {
            assert(v / 10 == w && v % 10 == d);
            assert(decimal(v) =~= decimal(w).push(s.last()));
        }
        assert(s =~= t.push(s.last()));
        assert(s =~= Seq::new((s.len() - decimal(v).len()) as nat, |i: int| '0') + decimal(v));
    }
}

/// A character that two texts lack is in neither of them put together.
pub proof fn lemma_add_lacks(a: Seq<char>, b: Seq<char>, c: char)
    requires
        !a.contains(c),
        !b.contains(c),
    ensures
        !(a + b).contains(c),
{
    assert forall|i: int| 0 <= i < (a + b).len() implies (a + b)[i] != c by {
        if i < a.len() {
            assert(a.contains(a[i]));
        } else {
            assert(b.contains(b[i - a.len()]));
        }
    }
}

/// What is cut off a text lacks what the text lacks.
pub proof fn lemma_range_lacks(s: Seq<char>, from: int, to: int, c: char)
    requires
        0 <= from <= to <= s.len(),
        !s.contains(c),
    ensures
        !s.subrange(from, to).contains(c),
        from == 0 ==> s.take(to) == s.subrange(from, to),
        to == s.len() ==> s.skip(from) == s.subrange(from, to),
{
    assert forall|i: int| 0 <= i < to - from implies s.subrange(from, to)[i] != c by {
        assert(s.contains(s[from + i]));
    }
    assert(from == 0 ==> s.take(to) =~= s.subrange(from, to));
    assert(to == s.len() ==> s.skip(from) =~= s.subrange(from, to));
}

/// Lines, each with a line feed in front.
pub open spec fn lines_below(lines: Seq<Seq<char>>) -> Seq<char>
    decreases lines.len(),
{
    if lines.len() == 0 {
        Seq::empty()
    } else {
        lines_below(lines.drop_last()) + seq!['\n'] + lines.last()
    }
}

/// Lines below a text are its last lines, and what is put behind them belongs to the last.
pub proof fn lemma_lines_below(s: Seq<char>, lines: Seq<Seq<char>>, end: Seq<char>)
    requires
        lines.len() > 0,
        forall|i: int| 0 <= i < lines.len() ==> !(#[trigger] lines[i]).contains('\n'),
        !end.contains('\n'),
    ensures
        parts_of(s + lines_below(lines) + end, '\n') == parts_of(s, '\n') + lines.drop_last().push(
            lines.last() + end,
        ),
    decreases lines.len(),
{
    let rest = lines.drop_last();
    let last = lines.last();
    let head = s + lines_below(rest);
    assert(s + lines_below(lines) + end =~= head + seq!['\n'] + (last + end));
    assert(!lines[lines.len() - 1].contains('\n'));
    lemma_add_lacks(last, end, '\n');
    law_parts_add(head, '\n', last + end);
    law_parts_one(last + end, '\n');
    if rest.len() > 0 {
        let none = Seq::<char>::empty();
        assert forall|i: int| 0 <= i < rest.len() implies !(#[trigger] rest[i]).contains('\n') by {
            assert(rest[i] == lines[i]);
        }
        lemma_lines_below(s, rest, none);
        assert(head + none =~= head);
        assert(rest.last() + none =~= rest.last());
        assert(rest.drop_last().push(rest.last()) =~= rest);
    } else {
        assert(head =~= s);
    }
    assert(parts_of(s + lines_below(lines) + end, '\n') =~= parts_of(s, '\n') + rest.push(
        last + end,
    ));
}

/// Two bytes as four digits in base sixteen stand for the number that they make, high byte first.
pub proof fn law_hex_pairs_make_a_number(hi: u8, lo: u8)
    ensures
        (hex_pair(hi) + hex_pair(lo)).len() == 4,
        all_hex(hex_pair(hi) + hex_pair(lo)),
        hex_number(hex_pair(hi) + hex_pair(lo)) == hi * 256 + lo,
{
    reveal_with_fuel(hex_number, 5);
    law_hex_pair_is_read_back(hi);
    law_hex_pair_is_read_back(lo);
    let s = hex_pair(hi) + hex_pair(lo);
    assert(s.drop_last().drop_last() =~= hex_pair(hi));
    assert(s.drop_last().last() == hex_pair(lo)[0]);
    assert(s.last() == hex_pair(lo)[1]);
    assert(hex_pair(hi).drop_last().drop_last() =~= Seq::empty());
    assert(hex_pair(hi).drop_last().last() == hex_pair(hi)[0]);
}

/// Strings are seen as their texts, one for one.
pub proof fn law_texts_are_seen_as_they_are(v: Seq<String>, i: int)
    requires
        0 <= i < v.len(),
    ensures
        texts(v).len() == v.len(),
        texts(v)[i] == v[i]@,
{
}

/// Turning one character into another changes no other, and the length stays.
pub proof fn law_replacing(s: Seq<char>, from: char, to: char, i: int)
    requires
        0 <= i < s.len(),
    ensures
        replaced(s, from, to).len() == s.len(),
        s[i] == from ==> replaced(s, from, to)[i] == to,
        s[i] != from ==> replaced(s, from, to)[i] == s[i],
{
}

} // verus!
