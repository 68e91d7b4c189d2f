//! Internet addresses and their text.

use crate::text::{
    begins_with, decimal, decimal_text, hex_number, hex_value, hexadecimal, hexadecimal_text, join,
    joined, law_hexadecimal_is_read_back, law_joined_is_taken_apart, law_parts_add, law_parts_one,
    parse_u16, parts_of, same_text, split_first, texts,
};
use vstd::prelude::*;

verus! {

// ---------------------------------------------------------------------------
// IPv4
// ---------------------------------------------------------------------------

/// Four octets in dotted decimal.
pub open spec fn ipv4_text(o: Seq<u8>) -> Seq<char> {
    decimal(o[0] as nat) + seq!['.'] + decimal(o[1] as nat) + seq!['.'] + decimal(o[2] as nat)
        + seq!['.'] + decimal(o[3] as nat)
}

/// Whether a text is an address in dotted decimal.
pub open spec fn is_ipv4(s: Seq<char>) -> bool {
    exists|o: Seq<u8>| o.len() == 4 && s == #[trigger] ipv4_text(o)
}

/// The octets of an address in dotted decimal: four numbers below 256 without leading zeros, with
/// single dots between them and nothing else.
pub open spec fn ipv4_of(s: Seq<char>) -> Option<Seq<u8>> {
    if is_ipv4(s) {
        Some(choose|o: Seq<u8>| o.len() == 4 && s == #[trigger] ipv4_text(o))
    } else {
        None
    }
}

/// Writes four octets in dotted decimal.
pub fn format_ipv4(a: u8, b: u8, c: u8, d: u8) -> (out: String)
    ensures
        out@ == ipv4_text(seq![a, b, c, d]),
{
    let mut out = decimal_text(a as u64);
    out.push('.');
    out.append(decimal_text(b as u64).as_str());
    out.push('.');
    out.append(decimal_text(c as u64).as_str());
    out.push('.');
    out.append(decimal_text(d as u64).as_str());
    assert(out@ =~= ipv4_text(seq![a, b, c, d]));
    out
}

/// The parts of a text at its first dots, as numbers below 256.
fn dotted_numbers(s: &str) -> (r: Option<[u8; 4]>)
    ensures
        forall|o: Seq<u8>|
            o.len() == 4 && s@ == #[trigger] ipv4_text(o) ==> (r matches Some(q) && q@ == o),
{
    let ghost text = s@;
    assert forall|o: Seq<u8>| o.len() == 4 && text == #[trigger] ipv4_text(o) implies ({
        &&& crate::text::before_first(text, '.') == decimal(o[0] as nat)
        &&& crate::text::after_first(text, '.') == Some(after_octet(o, 1))
        &&& crate::text::before_first(after_octet(o, 1), '.') == decimal(o[1] as nat)
        &&& crate::text::after_first(after_octet(o, 1), '.') == Some(after_octet(o, 2))
        &&& crate::text::before_first(after_octet(o, 2), '.') == decimal(o[2] as nat)
        &&& crate::text::after_first(after_octet(o, 2), '.') == Some(decimal(o[3] as nat))
    }) by {
        lemma_dotted(o);
    }
    proof {
        assert forall|b: u8| #[trigger] crate::text::u16_of(decimal(b as nat)) == Some(b as u16) by {
            crate::text::law_u16_reads_decimal(b as u16);
        }
    }
    let (a, r1) = split_first(s, '.');
    if let Some(r1) = r1 {
        let (b, r2) = split_first(r1.as_str(), '.');
        if let Some(r2) = r2 {
            let (c, d) = split_first(r2.as_str(), '.');
            if let Some(d) = d {
                let a = parse_u16(a.as_str());
                let b = parse_u16(b.as_str());
                let c = parse_u16(c.as_str());
                let d = parse_u16(d.as_str());
                if let (Some(a), Some(b), Some(c), Some(d)) = (a, b, c, d) {
                    if a < 256 && b < 256 && c < 256 && d < 256 {
                        let q: [u8; 4] = [a as u8, b as u8, c as u8, d as u8];
                        assert forall|o: Seq<u8>|
                            o.len() == 4 && text == #[trigger] ipv4_text(o) implies q@ == o by {
                            assert(q@ =~= o);
                        }
                        return Some(q);
                    }
                }
            }
        }
    }
    None
}

/// What follows the first `k` dots of a dotted decimal.
spec fn after_octet(o: Seq<u8>, k: int) -> Seq<char> {
    if k == 1 {
        decimal(o[1] as nat) + seq!['.'] + (decimal(o[2] as nat) + seq!['.'] + decimal(o[3] as nat))
    } else {
        decimal(o[2] as nat) + seq!['.'] + decimal(o[3] as nat)
    }
}

proof fn lemma_dotted(o: Seq<u8>)
    requires
        o.len() == 4,
    ensures
        crate::text::before_first(ipv4_text(o), '.') == decimal(o[0] as nat),
        crate::text::after_first(ipv4_text(o), '.') == Some(after_octet(o, 1)),
        crate::text::before_first(after_octet(o, 1), '.') == decimal(o[1] as nat),
        crate::text::after_first(after_octet(o, 1), '.') == Some(after_octet(o, 2)),
        crate::text::before_first(after_octet(o, 2), '.') == decimal(o[2] as nat),
        crate::text::after_first(after_octet(o, 2), '.') == Some(decimal(o[3] as nat)),
{
    crate::text::lemma_decimal_lacks(o[0] as nat, '.');
    crate::text::lemma_decimal_lacks(o[1] as nat, '.');
    crate::text::lemma_decimal_lacks(o[2] as nat, '.');
    assert(ipv4_text(o) =~= decimal(o[0] as nat) + seq!['.'] + after_octet(o, 1));
    crate::text::lemma_cut_first(decimal(o[0] as nat), '.', after_octet(o, 1));
    crate::text::lemma_cut_first(decimal(o[1] as nat), '.', after_octet(o, 2));
    crate::text::lemma_cut_first(decimal(o[2] as nat), '.', decimal(o[3] as nat));
}

/// Reads an address in dotted decimal.
pub fn parse_ipv4(s: &str) -> (r: Option<[u8; 4]>)
    ensures
        match r {
            Some(o) => s@ == ipv4_text(o@) && ipv4_of(s@) == Some(o@),
            None => ipv4_of(s@) is None,
        },
{
    match dotted_numbers(s) {
        Some(o) => {
            let canonical = format_ipv4(o[0], o[1], o[2], o[3]);
            assert(seq![o[0], o[1], o[2], o[3]] =~= o@);
            if same_text(s, canonical.as_str()) {
                proof {
                    law_ipv4_is_read_as_written(o@);
                }
                Some(o)
            } else {
                None
            }
        },
        None => None,
    }
}

/// The text of four octets is read back as those octets.
pub proof fn law_ipv4_is_read_as_written(o: Seq<u8>)
    requires
        o.len() == 4,
    ensures
        ipv4_of(ipv4_text(o)) == Some(o),
{
    let p = choose|p: Seq<u8>| p.len() == 4 && ipv4_text(o) == #[trigger] ipv4_text(p);
    assert(is_ipv4(ipv4_text(o)));
    law_ipv4_text_is_unique(o, p);
}

/// Different octets have different texts.
pub proof fn law_ipv4_text_is_unique(a: Seq<u8>, b: Seq<u8>)
    requires
        a.len() == 4,
        b.len() == 4,
        ipv4_text(a) == ipv4_text(b),
    ensures
        a == b,
{
    lemma_dotted(a);
    lemma_dotted(b);
    assert forall|i: int| 0 <= i < 4 implies a[i] == b[i] by {
        assert(decimal(a[i] as nat) == decimal(b[i] as nat));
        crate::text::law_u16_reads_decimal(a[i] as u16);
        crate::text::law_u16_reads_decimal(b[i] as u16);
    }
    assert(a =~= b);
}

// ---------------------------------------------------------------------------
// IPv6
// ---------------------------------------------------------------------------

/// The 16-bit segments of an address given as bytes, high byte first.
pub open spec fn segments(o: Seq<u8>) -> Seq<u16> {
    Seq::new(o.len() / 2, |i: int| (o[2 * i] * 256 + o[2 * i + 1]) as u16)
}

/// Segments in base sixteen, each without leading zeros, with colons between them.
pub open spec fn hex_segments(s: Seq<u16>) -> Seq<char> {
    joined(Seq::new(s.len(), |i: int| hexadecimal(s[i] as nat)), seq![':'])
}

/// Segments in base ten, with colons between them.
pub open spec fn decimal_segments(s: Seq<u16>) -> Seq<char> {
    joined(Seq::new(s.len(), |i: int| decimal(s[i] as nat)), seq![':'])
}

/// How many segments from position `i` on are zero.
pub open spec fn zero_run(s: Seq<u16>, i: int) -> int
    decreases s.len() - i,
{
    if i < 0 || i >= s.len() || s[i] != 0 {
        0
    } else {
        1 + zero_run(s, i + 1)
    }
}

/// The first of the positions below `k` at which the longest run of zeros begins.
pub open spec fn longest_run(s: Seq<u16>, k: int) -> int
    decreases k,
{
    if k <= 1 {
        0
    } else if zero_run(s, k - 1) > zero_run(s, longest_run(s, k - 1)) {
        k - 1
    } else {
        longest_run(s, k - 1)
    }
}

/// Whether sixteen bytes hold an IPv4 address mapped into IPv6.
pub open spec fn is_mapped(o: Seq<u8>) -> bool {
    &&& forall|i: int| 0 <= i < 10 ==> #[trigger] o[i] == 0
    &&& o[10] == 255
    &&& o[11] == 255
}

/// The text of an IPv6 address: a mapped address keeps its dotted decimal; of any other the first
/// longest run of two or more zero segments is left out.
pub open spec fn ipv6_text(o: Seq<u8>) -> Seq<char> {
    let s = segments(o);
    let start = longest_run(s, 8);
    let len = zero_run(s, start);
    if is_mapped(o) {
        "::ffff:"@ + ipv4_text(o.subrange(12, 16))
    } else if len > 1 {
        hex_segments(s.take(start)) + "::"@ + hex_segments(s.skip(start + len))
    } else {
        hex_segments(s)
    }
}

proof fn lemma_zero_run(s: Seq<u16>, i: int)
    requires
        0 <= i <= s.len(),
    ensures
        0 <= zero_run(s, i) <= s.len() - i,
    decreases s.len() - i,
{
    if i < s.len() && s[i] == 0 {
        lemma_zero_run(s, i + 1);
    }
}

/// The 16-bit segments of bytes.
pub fn segments_of(o: &Vec<u8>) -> (s: Vec<u16>)
    requires
        o@.len() % 2 == 0,
    ensures
        s@ == segments(o@),
{
    let mut s: Vec<u16> = Vec::new();
    let mut i: usize = 0;
    while i < o.len() / 2
        invariant
            i <= o@.len() / 2,
            o.len() % 2 == 0,
            s@ == segments(o@).take(i as int),
        decreases o.len() / 2 - i,
    {
        s.push(o[2 * i] as u16 * 256 + o[2 * i + 1] as u16);
        i += 1;
        assert(s@ =~= segments(o@).take(i as int));
    }
    assert(s@ =~= segments(o@));
    s
}

/// Segments `from..to` in base sixteen, with colons between them.
pub fn format_hex_segments(s: &Vec<u16>, from: usize, to: usize) -> (out: String)
    requires
        from <= to <= s@.len(),
    ensures
        out@ == hex_segments(s@.subrange(from as int, to as int)),
{
    let mut parts: Vec<String> = Vec::new();
    let mut i: usize = from;
    let ghost part = s@.subrange(from as int, to as int);
    let ghost want = Seq::new(part.len(), |j: int| hexadecimal(part[j] as nat));
    while i < to
        invariant
            from <= i <= to <= s@.len(),
            part == s@.subrange(from as int, to as int),
            want == Seq::new(part.len(), |j: int| hexadecimal(part[j] as nat)),
            texts(parts@) == want.take(i - from),
        decreases to - i,
    {
        broadcast use crate::text::lemma_texts_push;

        parts.push(hexadecimal_text(s[i]));
        assert(want.take(i + 1 - from) =~= want.take(i - from).push(want[i - from]));
        i += 1;
    }
    assert(texts(parts@) =~= want);
    proof {
        reveal_strlit(":");
    }
    assert(":"@ =~= seq![':']);
    join(&parts, ":")
}

/// Segments in base ten, with colons between them.
pub fn format_decimal_segments(s: &Vec<u16>) -> (out: String)
    ensures
        out@ == decimal_segments(s@),
{
    let mut parts: Vec<String> = Vec::new();
    let mut i: usize = 0;
    let ghost want = Seq::new(s@.len(), |j: int| decimal(s@[j] as nat));
    while i < s.len()
        invariant
            i <= s@.len(),
            want == Seq::new(s@.len(), |j: int| decimal(s@[j] as nat)),
            texts(parts@) == want.take(i as int),
        decreases s.len() - i,
    {
        broadcast use crate::text::lemma_texts_push;

        parts.push(decimal_text(s[i] as u64));
        assert(want.take(i + 1) =~= want.take(i as int).push(want[i as int]));
        i += 1;
    }
    assert(texts(parts@) =~= want);
    proof {
        reveal_strlit(":");
    }
    assert(":"@ =~= seq![':']);
    join(&parts, ":")
}

/// How many segments from position `i` on are zero.
fn count_zeros(s: &Vec<u16>, i: usize) -> (n: usize)
    requires
        i <= s@.len(),
    ensures
        n == zero_run(s@, i as int),
        i + n <= s@.len(),
{
    let mut n: usize = 0;
    while i + n < s.len() && s[i + n] == 0
        invariant
            i + n <= s.len(),
            zero_run(s@, i as int) == n + zero_run(s@, i + n),
        decreases s.len() - i - n,
    {
        n += 1;
    }
    n
}

/// Writes the text of an IPv6 address.
pub fn format_ipv6(o: &Vec<u8>) -> (out: String)
    requires
        o@.len() == 16,
    ensures
        out@ == ipv6_text(o@),
{
    let mut zeros: bool = true;
    let mut i: usize = 0;
    while i < 10
        invariant
            i <= 10,
            o@.len() == 16,
            zeros == (forall|j: int| 0 <= j < i ==> #[trigger] o@[j] == 0),
        decreases 10 - i,
    {
        if o[i] != 0 {
            zeros = false;
        }
        i += 1;
    }
    if zeros && o[10] == 255 && o[11] == 255 {
        let mut out = "::ffff:".to_owned();
        out.append(format_ipv4(o[12], o[13], o[14], o[15]).as_str());
        assert(seq![o@[12], o@[13], o@[14], o@[15]] =~= o@.subrange(12, 16));
        return out;
    }
    let s = segments_of(o);
    let mut start: usize = 0;
    let mut len: usize = count_zeros(&s, 0);
    let mut k: usize = 1;
    while k < 8
        invariant
            1 <= k <= 8,
            s@.len() == 8,
            start == longest_run(s@, k as int),
            start < 8,
            len == zero_run(s@, start as int),
            start + len <= 8,
        decreases 8 - k,
    {
        let n = count_zeros(&s, k);
        if n > len {
            start = k;
            len = n;
        }
        k += 1;
    }
    if len > 1 {
        let mut out = format_hex_segments(&s, 0, start);
        out.append("::");
        out.append(format_hex_segments(&s, start + len, 8).as_str());
        assert(s@.subrange(0, start as int) =~= s@.take(start as int));
        assert(s@.subrange(start + len, 8) =~= s@.skip(start + len));
        out
    } else {
        assert(s@.subrange(0, 8) =~= s@);
        format_hex_segments(&s, 0, 8)
    }
}

// ---------------------------------------------------------------------------
// Laws
// ---------------------------------------------------------------------------

/// The parts of an IPv4 address between its dots are the decimal numerals of its four octets, in
/// order; and a text that is read as an address is one of those.
pub proof fn law_ipv4_has_four_numerals(o: Seq<u8>, s: Seq<char>)
    requires
        o.len() == 4,
    ensures
        parts_of(ipv4_text(o), '.') == Seq::new(4, |i: int| decimal(o[i] as nat)),
        ipv4_of(s) matches Some(p) ==> p.len() == 4 && parts_of(s, '.') == Seq::new(
            4,
            |i: int| decimal(p[i] as nat),
        ),
{
    lemma_ipv4_parts(o);
    if let Some(p) = ipv4_of(s) {
        lemma_ipv4_parts(p);
    }
}

proof fn lemma_ipv4_parts(o: Seq<u8>)
    requires
        o.len() == 4,
    ensures
        parts_of(ipv4_text(o), '.') == Seq::new(4, |i: int| decimal(o[i] as nat)),
{
    let d = Seq::new(4, |i: int| decimal(o[i] as nat));
    assert forall|i: int| 0 <= i < 4 implies parts_of(d[i], '.') == seq![d[i]] by {
        crate::text::lemma_decimal_lacks(o[i] as nat, '.');
        law_parts_one(d[i], '.');
    }
    let two = d[0] + seq!['.'] + d[1];
    let three = two + seq!['.'] + d[2];
    law_parts_add(d[0], '.', d[1]);
    law_parts_add(two, '.', d[2]);
    law_parts_add(three, '.', d[3]);
    assert(parts_of(ipv4_text(o), '.') =~= d);
}

/// Four numbers below 256 with dots between them are read as those four octets.
pub proof fn law_dotted_decimal_is_read(a: u8, b: u8, c: u8, d: u8)
    ensures
        ipv4_of(
            decimal(a as nat) + seq!['.'] + decimal(b as nat) + seq!['.'] + decimal(c as nat)
                + seq!['.'] + decimal(d as nat),
        ) == Some(seq![a, b, c, d]),
{
    law_ipv4_is_read_as_written(seq![a, b, c, d]);
}

/// The position of the first empty part, or the number of parts.
pub open spec fn first_empty(parts: Seq<Seq<char>>) -> int
    decreases parts.len(),
{
    if parts.len() == 0 || parts[0].len() == 0 {
        0
    } else {
        1 + first_empty(parts.skip(1))
    }
}

/// The parts that are not empty.
pub open spec fn filled_parts(parts: Seq<Seq<char>>) -> Seq<Seq<char>>
    decreases parts.len(),
{
    if parts.len() == 0 {
        Seq::empty()
    } else if parts[0].len() == 0 {
        filled_parts(parts.skip(1))
    } else {
        seq![parts[0]] + filled_parts(parts.skip(1))
    }
}

/// The numbers that parts in base sixteen stand for.
pub open spec fn hex_numbers(parts: Seq<Seq<char>>) -> Seq<int> {
    Seq::new(parts.len(), |i: int| hex_number(parts[i]))
}

/// The eight numbers of an IPv6 address without dots: the parts between its colons, in base
/// sixteen. Where a part is empty, zeros fill up what is missing.
pub open spec fn ipv6_numbers(text: Seq<char>) -> Seq<int> {
    let parts = parts_of(text, ':');
    let at = first_empty(parts);
    if at == parts.len() {
        hex_numbers(parts)
    } else {
        let head = hex_numbers(parts.take(at));
        let tail = hex_numbers(filled_parts(parts.skip(at)));
        head + Seq::new((8 - head.len() - tail.len()) as nat, |i: int| 0int) + tail
    }
}

/// The numbers in the bytes of an IPv6 address, high byte first.
pub open spec fn byte_pairs(o: Seq<u8>) -> Seq<int> {
    Seq::new(8, |i: int| o[2 * i] * 256 + o[2 * i + 1])
}

proof fn lemma_hexadecimal_lacks(n: nat, c: char)
    requires
        hex_value(c) < 0,
    ensures
        !hexadecimal(n).contains(c),
{
    law_hexadecimal_is_read_back(n);
    assert forall|i: int| 0 <= i < hexadecimal(n).len() implies hexadecimal(n)[i] != c by {
        assert(hex_value(hexadecimal(n)[i]) >= 0);
    }
}

/// The numerals of segments in base sixteen.
spec fn hex_parts(s: Seq<u16>) -> Seq<Seq<char>> {
    Seq::new(s.len(), |i: int| hexadecimal(s[i] as nat))
}

proof fn lemma_hex_parts(s: Seq<u16>)
    ensures
        s.len() > 0 ==> parts_of(hex_segments(s), ':') == hex_parts(s),
        s.len() == 0 ==> parts_of(hex_segments(s), ':') == seq![Seq::<char>::empty()],
        forall|i: int| 0 <= i < s.len() ==> (#[trigger] hex_parts(s)[i]).len() > 0,
        hex_numbers(hex_parts(s)) == Seq::new(s.len(), |i: int| s[i] as int),
        !hex_segments(s).contains('.'),
{
    let parts = hex_parts(s);
    assert forall|i: int| 0 <= i < s.len() implies (#[trigger] parts[i]).len() > 0 && !parts[i].contains(
        ':',
    ) && hex_number(parts[i]) == s[i] && !parts[i].contains('.') by {
        law_hexadecimal_is_read_back(s[i] as nat);
        lemma_hexadecimal_lacks(s[i] as nat, ':');
        lemma_hexadecimal_lacks(s[i] as nat, '.');
    }
    assert(hex_numbers(parts) =~= Seq::new(s.len(), |i: int| s[i] as int));
    lemma_joined_lacks(parts, seq![':'], '.');
    if s.len() > 0 {
        law_joined_is_taken_apart(parts, ':');
    } else {
        assert(hex_segments(s) =~= Seq::<char>::empty());
        law_parts_one(hex_segments(s), ':');
    }
}

proof fn lemma_joined_lacks(parts: Seq<Seq<char>>, sep: Seq<char>, c: char)
    requires
        forall|i: int| 0 <= i < parts.len() ==> !(#[trigger] parts[i]).contains(c),
        !sep.contains(c),
    ensures
        !joined(parts, sep).contains(c),
    decreases parts.len(),
{
    if parts.len() > 1 {
        assert forall|i: int| 0 <= i < parts.drop_last().len() implies !(
        #[trigger] parts.drop_last()[i]).contains(c) by {
            assert(parts.drop_last()[i] == parts[i]);
        }
        lemma_joined_lacks(parts.drop_last(), sep, c);
        let head = joined(parts.drop_last(), sep);
        let s = head + sep + parts.last();
        assert(!parts[parts.len() - 1].contains(c));
        assert forall|i: int| 0 <= i < s.len() implies s[i] != c by {
            if i < head.len() {
                assert(head.contains(head[i]));
            } else if i < head.len() + sep.len() {
                assert(sep.contains(sep[i - head.len()]));
            } else {
                let k = i - head.len() - sep.len();
                assert(parts.last().contains(parts.last()[k]));
            }
        }
    }
}

proof fn lemma_first_empty(head: Seq<Seq<char>>, tail: Seq<Seq<char>>)
    requires
        forall|i: int| 0 <= i < head.len() ==> (#[trigger] head[i]).len() > 0,
        tail.len() == 0 || tail[0].len() == 0,
    ensures
        first_empty(head + tail) == head.len(),
    decreases head.len(),
{
    if head.len() == 0 {
        assert(head + tail =~= tail);
    } else {
        assert(head[0].len() > 0);
        assert forall|i: int| 0 <= i < head.skip(1).len() implies (
        #[trigger] head.skip(1)[i]).len() > 0 by {
            assert(head.skip(1)[i] == head[i + 1]);
        }
        lemma_first_empty(head.skip(1), tail);
        assert((head + tail).skip(1) =~= head.skip(1) + tail);
    }
}

proof fn lemma_filled_parts(empties: nat, rest: Seq<Seq<char>>)
    requires
        forall|i: int| 0 <= i < rest.len() ==> (#[trigger] rest[i]).len() > 0,
    ensures
        filled_parts(Seq::new(empties, |i: int| Seq::<char>::empty()) + rest) == rest,
    decreases empties + rest.len(),
{
    let e = Seq::new(empties, |i: int| Seq::<char>::empty());
    let all = e + rest;
    if empties > 0 {
        lemma_filled_parts((empties - 1) as nat, rest);
        assert(all.skip(1) =~= Seq::new((empties - 1) as nat, |i: int| Seq::<char>::empty()) + rest);
    } else if rest.len() > 0 {
        assert(rest[0].len() > 0);
        assert forall|i: int| 0 <= i < rest.skip(1).len() implies (
        #[trigger] rest.skip(1)[i]).len() > 0 by {
            assert(rest.skip(1)[i] == rest[i + 1]);
        }
        lemma_filled_parts(0, rest.skip(1));
        assert(all =~= rest);
        assert(Seq::new(0, |i: int| Seq::<char>::empty()) + rest.skip(1) =~= rest.skip(1));
        assert(filled_parts(all) =~= rest);
    } else {
        assert(all =~= rest);
        assert(filled_parts(all) =~= rest);
    }
}

/// The parts of two rows of segments with `::` between them.
proof fn lemma_two_rows(x: Seq<u16>, y: Seq<u16>)
    requires
        x.len() + y.len() < 8,
    ensures
        ({
            let t = hex_segments(x) + "::"@ + hex_segments(y);
            &&& ipv6_numbers(t) == Seq::new(x.len(), |i: int| x[i] as int) + Seq::new(
                (8 - x.len() - y.len()) as nat,
                |i: int| 0int,
            ) + Seq::new(y.len(), |i: int| y[i] as int)
            &&& !t.contains('.')
        }),
{
    let empty = Seq::<char>::empty();
    let (hx, hy) = (hex_segments(x), hex_segments(y));
    let t = hx + "::"@ + hy;
    reveal_strlit("::");
    lemma_hex_parts(x);
    lemma_hex_parts(y);
    assert(t =~= hx + seq![':'] + (empty + seq![':'] + hy));
    law_parts_add(hx, ':', empty + seq![':'] + hy);
    law_parts_add(empty, ':', hy);
    law_parts_one(empty, ':');
    let parts = parts_of(t, ':');
    let (px, py) = (hex_parts(x), hex_parts(y));
    let front: nat = if x.len() == 0 { 1 } else { 0 };
    let back: nat = if y.len() == 0 { 1 } else { 0 };
    let empties = Seq::new(front + 1 + back, |i: int| empty);
    assert(parts =~= px + (empties + py));
    lemma_first_empty(px, empties + py);
    assert(parts.take(px.len() as int) =~= px);
    assert(parts.skip(px.len() as int) =~= empties + py);
    lemma_filled_parts(front + 1 + back, py);
    assert(ipv6_numbers(t) =~= Seq::new(x.len(), |i: int| x[i] as int) + Seq::new(
        (8 - x.len() - y.len()) as nat,
        |i: int| 0int,
    ) + Seq::new(y.len(), |i: int| y[i] as int));
    assert forall|i: int| 0 <= i < t.len() implies t[i] != '.' by {
        if i < hx.len() {
            assert(hx.contains(hx[i]));
        } else if i >= hx.len() + 2 {
            assert(hy.contains(hy[i - hx.len() - 2]));
        }
    }
}

/// Nothing but zeros stands in a run, and whatever stands behind it is none.
proof fn lemma_zero_run_is(s: Seq<u16>, i: int)
    requires
        0 <= i <= s.len(),
    ensures
        0 <= zero_run(s, i) <= s.len() - i,
        forall|j: int| i <= j < i + zero_run(s, i) ==> s[j] == 0,
        i + zero_run(s, i) < s.len() ==> s[i + zero_run(s, i)] != 0,
    decreases s.len() - i,
{
    if i < s.len() && s[i] == 0 {
        lemma_zero_run_is(s, i + 1);
    }
}

proof fn lemma_longest_run_is(s: Seq<u16>, k: int)
    requires
        1 <= k <= s.len(),
    ensures
        0 <= longest_run(s, k) < k,
        forall|i: int|
            0 <= i < k ==> #[trigger] zero_run(s, i) <= zero_run(s, longest_run(s, k)),
        forall|i: int|
            0 <= i < longest_run(s, k) ==> #[trigger] zero_run(s, i) < zero_run(
                s,
                longest_run(s, k),
            ),
    decreases k,
{
    if k > 1 {
        lemma_longest_run_is(s, k - 1);
    }
}

/// The text of an IPv6 address is read back as its bytes: the parts between the colons, with zeros
/// for what `::` leaves out, are the eight numbers in the sixteen bytes. A mapped address is
/// `::ffff:` and the dotted decimal of its last four bytes, and only a mapped one has dots.
pub proof fn law_ipv6_text_is_read_back(o: Seq<u8>)
    requires
        o.len() == 16,
    ensures
        !is_mapped(o) ==> ipv6_numbers(ipv6_text(o)) == byte_pairs(o),
        !is_mapped(o) ==> !ipv6_text(o).contains('.'),
        is_mapped(o) ==> begins_with(ipv6_text(o), "::ffff:"@) && ipv4_of(ipv6_text(o).skip(7))
            == Some(o.subrange(12, 16)) && ipv6_text(o).contains('.'),
{
    let s = segments(o);
    let t = ipv6_text(o);
    assert(byte_pairs(o) =~= Seq::new(8, |i: int| s[i] as int));
    if is_mapped(o) {
        let dotted = ipv4_text(o.subrange(12, 16));
        reveal_strlit("::ffff:");
        assert(t.subrange(0, 7) =~= "::ffff:"@);
        assert(t.skip(7) =~= dotted);
        law_ipv4_is_read_as_written(o.subrange(12, 16));
        let first = decimal(o[12] as nat);
        assert(t[7 + first.len() as int] == '.');
    } else {
        let start = longest_run(s, 8);
        let len = zero_run(s, start);
        lemma_longest_run_is(s, 8);
        lemma_zero_run_is(s, start);
        if len > 1 {
            let (x, y) = (s.take(start), s.skip(start + len));
            lemma_two_rows(x, y);
            assert(ipv6_numbers(t) =~= byte_pairs(o));
        } else {
            lemma_hex_parts(s);
            let none = Seq::<Seq<char>>::empty();
            lemma_first_empty(hex_parts(s), none);
            assert(hex_parts(s) + none =~= hex_parts(s));
        }
    }
}

/// Different IPv6 addresses have different texts.
pub proof fn law_ipv6_text_is_unique(a: Seq<u8>, b: Seq<u8>)
    requires
        a.len() == 16,
        b.len() == 16,
        ipv6_text(a) == ipv6_text(b),
    ensures
        a == b,
{
    law_ipv6_text_is_read_back(a);
    law_ipv6_text_is_read_back(b);
    if is_mapped(a) {
        assert(a.subrange(12, 16) == b.subrange(12, 16));
        assert forall|i: int| 0 <= i < 16 implies a[i] == b[i] by {
            if i >= 12 {
                assert(a.subrange(12, 16)[i - 12] == b.subrange(12, 16)[i - 12]);
            }
        }
        assert(a =~= b);
    } else {
        lemma_byte_pairs_unique(a, b);
    }
}

proof fn lemma_byte_pairs_unique(a: Seq<u8>, b: Seq<u8>)
    requires
        a.len() == 16,
        b.len() == 16,
        byte_pairs(a) == byte_pairs(b),
    ensures
        a == b,
{
    assert forall|i: int| 0 <= i < 16 implies a[i] == b[i] by {
        let k = i / 2;
        assert(i == 2 * k || i == 2 * k + 1);
        assert(byte_pairs(a)[k] == a[2 * k] * 256 + a[2 * k + 1]);
        assert(byte_pairs(b)[k] == b[2 * k] * 256 + b[2 * k + 1]);
        let (p, q) = (a[2 * k] as int, a[2 * k + 1] as int);
        let (r, u) = (b[2 * k] as int, b[2 * k + 1] as int);
        assert(p * 256 + q == r * 256 + u);
        assert(p == r && q == u);
    }
    assert(a =~= b);
}

/// Of an address that is not mapped, `::` stands for the longest run of zero segments, for the
/// first of those that are as long, and only for two or more: no row of zeros anywhere is longer
/// than what is left out, and none before it is as long. Without two zeros in a row nothing is
/// left out.
pub proof fn law_ipv6_text_leaves_out_the_longest_run(o: Seq<u8>)
    requires
        o.len() == 16,
        !is_mapped(o),
    ensures
        ({
            let s = segments(o);
            let zeros = |i: int, n: int|
                0 <= i && i + n <= 8 && forall|j: int| i <= j < i + n ==> s[j] == 0;
            ||| ipv6_text(o) == hex_segments(s) && !exists|i: int| #[trigger] zeros(i, 2)
            ||| exists|at: int, n: int|
                {
                    &&& #[trigger] zeros(at, n)
                    &&& n >= 2
                    &&& ipv6_text(o) == hex_segments(s.take(at)) + "::"@ + hex_segments(
                        s.skip(at + n),
                    )
                    &&& forall|i: int, m: int| #[trigger] zeros(i, m) && m > 0 ==> m <= n
                    &&& forall|i: int, m: int|
                        #[trigger] zeros(i, m) && 0 <= i < at && m > 0 ==> m < n
                }
        }),
{
    let s = segments(o);
    let zeros = |i: int, n: int|
        0 <= i && i + n <= 8 && forall|j: int| i <= j < i + n ==> s[j] == 0;
    let at = longest_run(s, 8);
    let n = zero_run(s, at);
    lemma_longest_run_is(s, 8);
    lemma_zero_run_is(s, at);
    assert forall|i: int, m: int| #[trigger] zeros(i, m) && m > 0 implies m <= zero_run(s, i) by {
        lemma_zero_run_is(s, i);
        if m > zero_run(s, i) {
            assert(s[i + zero_run(s, i)] == 0);
        }
    }
    assert forall|i: int, m: int| #[trigger] zeros(i, m) && m > 0 implies m <= n by {
        assert(m <= zero_run(s, i));
        assert(zero_run(s, i) <= zero_run(s, at));
    }
    if n >= 2 {
        assert(zeros(at, n));
        assert forall|i: int, m: int| #[trigger] zeros(i, m) && 0 <= i < at && m > 0 implies m
            < n by {
            assert(m <= zero_run(s, i));
            assert(zero_run(s, i) < zero_run(s, at));
        }
    } else {
        assert forall|i: int| !#[trigger] zeros(i, 2) by {
            if zeros(i, 2) {
                assert(2 <= n);
            }
        }
    }
}

/// Segments with colons between them are taken apart again, in base sixteen and in base ten: the
/// number of parts is that of the segments, and each part is the numeral of its segment.
pub proof fn law_segments_are_read_back(o: Seq<u8>)
    requires
        o.len() == 16,
    ensures
        hex_numbers(parts_of(hex_segments(segments(o)), ':')) == byte_pairs(o),
        parts_of(decimal_segments(segments(o)), ':') == Seq::new(
            8,
            |i: int| decimal((o[2 * i] * 256 + o[2 * i + 1]) as nat),
        ),
{
    let s = segments(o);
    lemma_hex_parts(s);
    assert(hex_numbers(parts_of(hex_segments(s), ':')) =~= byte_pairs(o));
    let parts = Seq::new(s.len(), |i: int| decimal(s[i] as nat));
    assert forall|i: int| 0 <= i < parts.len() implies !(#[trigger] parts[i]).contains(':') by {
        crate::text::lemma_decimal_lacks(s[i] as nat, ':');
    }
    law_joined_is_taken_apart(parts, ':');
    assert(parts =~= Seq::new(8, |i: int| decimal((o[2 * i] * 256 + o[2 * i + 1]) as nat)));
}

/// An address is mapped where ten zero bytes and two bytes 255 stand before its last four, and then
/// those keep their dots; no other address has a dot in its text.
pub proof fn law_mapped_addresses_keep_their_dots(a: u8, b: u8, c: u8, d: u8, o: Seq<u8>)
    requires
        o.len() == 16,
    ensures
        ipv6_text(
            seq![0u8, 0u8, 0u8, 0u8, 0u8, 0u8, 0u8, 0u8, 0u8, 0u8, 255u8, 255u8, a, b, c, d],
        ) == "::ffff:"@ + ipv4_text(seq![a, b, c, d]),
        ipv6_text(o).contains('.') ==> o.take(12) == seq![
            0u8,
            0u8,
            0u8,
            0u8,
            0u8,
            0u8,
            0u8,
            0u8,
            0u8,
            0u8,
            255u8,
            255u8,
        ],
{
    let m = seq![0u8, 0u8, 0u8, 0u8, 0u8, 0u8, 0u8, 0u8, 0u8, 0u8, 255u8, 255u8, a, b, c, d];
    assert(is_mapped(m));
    assert(m.subrange(12, 16) =~= seq![a, b, c, d]);
    law_ipv6_text_is_read_back(o);
    if is_mapped(o) {
        assert(o.take(12) =~= seq![
            0u8,
            0u8,
            0u8,
            0u8,
            0u8,
            0u8,
            0u8,
            0u8,
            0u8,
            0u8,
            255u8,
            255u8,
        ]);
    }
}

} // verus!
