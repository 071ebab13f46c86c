//! Splitting a text into lines.
use vstd::prelude::*;
use crate::text::{chars_of, first_index, lemma_first_index, string_of, texts};

verus! {

/// `s` without one carriage return at its end, if it ends in one.
pub open spec fn without_cr(s: Seq<char>) -> Seq<char> {
    if s.len() > 0 && s.last() == '\r' {
        s.drop_last()
    } else {
        s
    }
}

/// The lines of a text. A line ends at a line feed; the line feed, and a
/// carriage return directly before it, belong to no line. What follows the
/// last line feed is a line of its own unless it is empty, and is kept as it
/// is.
pub open spec fn lines_of(s: Seq<char>) -> Seq<Seq<char>>
    decreases s.len(),
{
    if s.len() == 0 {
        Seq::empty()
    } else {
        let cut = first_index(s, '\n');
        if cut < s.len() {
            seq![without_cr(s.take(cut as int))] + lines_of(s.skip(cut as int + 1))
        } else {
            seq![s]
        }
    }
}

/// Splits `content` into its lines.
pub fn split_lines(content: &str) -> (out: Vec<String>)
    ensures
        texts(out@) == lines_of(content@),
{
    let chars = chars_of(content);
    let mut out: Vec<String> = Vec::new();
    let mut start: usize = 0;
    let mut i: usize = 0;
    assert(chars@.skip(0) == chars@);
    assert(texts(out@) == Seq::<Seq<char>>::empty());
    while i < chars.len()
        invariant
            start <= i <= chars.len(),
            forall|k: int| start <= k < i ==> chars@[k] != '\n',
            lines_of(chars@) == texts(out@) + lines_of(chars@.skip(start as int)),
        decreases chars.len() - i,
    {
        if chars[i] == '\n' {
            let end: usize = if i > start && chars[i - 1] == '\r' {
                i - 1
            } else {
                i
            };
            let line = string_of(&chars, start, end);
            proof {
                let t = chars@.skip(start as int);
                lemma_first_index(t, '\n', i - start);
                assert(t.take(i - start) == chars@.subrange(start as int, i as int));
                assert(t.skip(i - start + 1) == chars@.skip(i + 1));
                assert(line@ == without_cr(chars@.subrange(start as int, i as int)));
                assert(texts(out@.push(line)) == texts(out@).push(line@));
            }
            out.push(line);
            start = i + 1;
        }
        i += 1;
    }
    if start < chars.len() {
        let line = string_of(&chars, start, chars.len());
        proof {
            let t = chars@.skip(start as int);
            lemma_first_index(t, '\n', t.len() as int);
            assert(t == chars@.subrange(start as int, chars.len() as int));
            assert(texts(out@.push(line)) == texts(out@).push(line@));
        }
        out.push(line);
    }
    out
}

} // verus!
