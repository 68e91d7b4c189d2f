//! Nodes, and lists of preferred ones: one entry in each line.

use crate::text::{
    chars_of, find, find_char, law_trimming, lemma_find, lemma_find_is, lemma_trimmed_ends, texts,
    trim_slice, trimmed, white_space,
};
use vstd::prelude::*;

verus! {

/// A node that clients can connect to.
pub struct NodeView {
    pub address: Seq<char>,
    pub port: u16,
    pub name: Seq<char>,
}

/// The entry in a line: the line without the white space around it, unless nothing is left.
pub open spec fn entry(line: Seq<char>) -> Seq<Seq<char>> {
    if trimmed(line).len() == 0 {
        Seq::empty()
    } else {
        seq![trimmed(line)]
    }
}

/// The entries in the lines of a text.
pub open spec fn entries(s: Seq<char>) -> Seq<Seq<char>>
    decreases s.len(),
{
    proof {
        lemma_find(s, '\n', 0);
    }
    if find(s, '\n', 0) < s.len() {
        entry(s.take(find(s, '\n', 0))) + entries(s.skip(find(s, '\n', 0) + 1))
    } else {
        entry(s)
    }
}

/// Reads the entries in the lines of a text.
pub fn read_entries(text: &str) -> (list: Vec<String>)
    ensures
        texts(list@) == entries(text@),
{
    broadcast use crate::text::lemma_texts_push;

    let x = chars_of(text);
    let len: usize = x.len();
    let mut list: Vec<String> = Vec::new();
    let mut from: usize = 0;
    assert(x@.skip(0) =~= text@);
    assert(texts(list@) =~= Seq::empty());
    assert(texts(list@) + entries(text@) =~= entries(text@));
    loop
        invariant
            x@ == text@,
            len == x@.len(),
            from <= len,
            texts(list@) + entries(x@.skip(from as int)) == entries(text@),
        decreases len - from,
    {
        let at = find_char(&x, '\n', from);
        let line = trim_slice(&x, from, at);
        let ghost rest = x@.skip(from as int);
        let ghost before = texts(list@);
        proof {
            lemma_find(x@, '\n', from as int);
            assert forall|j: int| 0 <= j < at - from implies rest[j] != '\n' by {
                assert(rest[j] == x@[from + j]);
            }
            lemma_find_is(rest, '\n', 0, at - from);
            assert(rest.take(at - from) =~= x@.subrange(from as int, at as int));
        }
        if !line.as_str().is_empty() {
            list.push(line);
        }
        assert(texts(list@) =~= before + entry(rest.take(at - from)));
        if at >= len {
            assert(rest.take(at - from) =~= rest);
            return list;
        }
        assert(rest.skip(at - from + 1) =~= x@.skip(at + 1));
        assert(texts(list@) + entries(x@.skip(at + 1)) =~= before + entries(rest));
        from = at + 1;
    }
}

/// Two lists put into one text, on separate lines, give the entries of the first and then those of
/// the second.
pub proof fn law_lists_put_together(a: Seq<char>, b: Seq<char>)
    ensures
        entries(a + seq!['\n'] + b) == entries(a) + entries(b),
    decreases a.len(),
{
    let s = a + seq!['\n'] + b;
    lemma_find(a, '\n', 0);
    let at = find(a, '\n', 0);
    if at < a.len() {
        assert forall|j: int| 0 <= j < at implies s[j] != '\n' by {
            assert(s[j] == a[j]);
        }
        assert(s[at] == a[at]);
        lemma_find_is(s, '\n', 0, at);
        law_lists_put_together(a.skip(at + 1), b);
        assert(s.take(at) =~= a.take(at));
        assert(s.skip(at + 1) =~= a.skip(at + 1) + seq!['\n'] + b);
        assert(entries(s) =~= entries(a) + entries(b));
    } else {
        assert forall|j: int| 0 <= j < a.len() implies s[j] != '\n' by {
            assert(s[j] == a[j]);
        }
        lemma_find_is(s, '\n', 0, a.len() as int);
        assert(s.take(a.len() as int) =~= a);
        assert(s.skip(a.len() as int + 1) =~= b);
    }
}

/// No entry is empty, and none has white space around it.
pub proof fn law_entries_are_trimmed(s: Seq<char>, i: int)
    requires
        0 <= i < entries(s).len(),
    ensures
        entries(s)[i].len() > 0,
        !white_space(entries(s)[i][0]),
        !white_space(entries(s)[i].last()),
    decreases s.len(),
{
    lemma_find(s, '\n', 0);
    let at = find(s, '\n', 0);
    if at < s.len() {
        let head = entry(s.take(at));
        lemma_trimmed_ends(s.take(at));
        if i >= head.len() {
            law_entries_are_trimmed(s.skip(at + 1), i - head.len());
        }
    } else {
        lemma_trimmed_ends(s);
    }
}

/// A line gives the entry between the white space at its ends, whatever stands in it, and none
/// where nothing else does.
pub proof fn law_entry_of_a_line(front: Seq<char>, core: Seq<char>, back: Seq<char>)
    requires
        forall|i: int| 0 <= i < front.len() ==> white_space(#[trigger] front[i]),
        forall|i: int| 0 <= i < back.len() ==> white_space(#[trigger] back[i]),
        core.len() > 0 ==> !white_space(core[0]) && !white_space(core.last()),
        !(front + core + back).contains('\n'),
    ensures
        entries(front + core + back) == (if core.len() > 0 {
            seq![core]
        } else {
            Seq::<Seq<char>>::empty()
        }),
{
    let line = front + core + back;
    law_trimming(front, core, back);
    lemma_find(line, '\n', 0);
    if find(line, '\n', 0) < line.len() {
        assert(line.contains(line[find(line, '\n', 0)]));
    }
}

} // verus!
