//! Splitting a text into its lines.

use vstd::prelude::*;

verus! {

/// Number of characters of `text` that come before its first line feed, or
/// the length of `text` when it has none.
pub open spec fn first_line_len(text: Seq<char>) -> nat
    decreases text.len(),
{
    if text.len() == 0 || text[0] == '\n' {
        0
    } else {
        1 + first_line_len(text.drop_first())
    }
}

/// `line` without the carriage return at its end, if it has one there.
pub open spec fn without_cr(line: Seq<char>) -> Seq<char> {
    if line.len() > 0 && line.last() == '\r' {
        line.drop_last()
    } else {
        line
    }
}

/// The lines of `text`.
///
/// A line ends at a line feed, or at a carriage return directly followed by
/// a line feed; neither belongs to the line. The last line needs no line
/// ending: what follows the last line feed is a line of its own unless it is
/// empty, and is taken as it stands.
pub open spec fn lines(text: Seq<char>) -> Seq<Seq<char>>
    decreases text.len(),
{
    let n = first_line_len(text);
    if text.len() == 0 {
        Seq::empty()
    } else if n >= text.len() {
        seq![text]
    } else {
        seq![without_cr(text.take(n as int))] + lines(text.skip(n as int + 1))
    }
}

/// The first line of a text stops at the first line feed and not before.
pub proof fn lemma_first_line_len(text: Seq<char>, n: nat)
    requires
        n <= text.len(),
        forall|k: int| 0 <= k < n ==> text[k] != '\n',
        n == text.len() || text[n as int] == '\n',
    ensures
        first_line_len(text) == n,
    decreases n,
{
    if n > 0 {
        lemma_first_line_len(text.drop_first(), (n - 1) as nat);
    }
}

/// The views of the lines gathered so far.
pub open spec fn line_views(rows: Seq<Vec<char>>) -> Seq<Seq<char>> {
    Seq::new(rows.len(), |i: int| rows[i]@)
}

/// Splits `text` into its lines.
pub fn split_lines(text: &Vec<char>) -> (rows: Vec<Vec<char>>)
    ensures
        line_views(rows@) == lines(text@),
{
    let mut rows: Vec<Vec<char>> = Vec::new();
    let mut start: usize = 0;
    assert(text@.skip(0) =~= text@);
    assert(line_views(rows@) =~= Seq::<Seq<char>>::empty());
    while start < text.len()
        invariant
            start <= text.len(),
            lines(text@) == line_views(rows@) + lines(text@.skip(start as int)),
        decreases text.len() - start,
    {
        let ghost rest = text@.skip(start as int);
        let ghost done = line_views(rows@);
        let mut end: usize = start;
        let mut line: Vec<char> = Vec::new();
        while end < text.len() && text[end] != '\n'
            invariant
                start <= end <= text.len(),
                line@ == text@.subrange(start as int, end as int),
                forall|k: int| start <= k < end ==> text@[k] != '\n',
            decreases text.len() - end,
        {
            line.push(text[end]);
            end += 1;
        }
        proof {
            lemma_first_line_len(rest, (end - start) as nat);
            assert(line@ =~= rest.take(end - start));
        }
        if end >= text.len() {
            proof {
                assert(line@ =~= rest);
                assert(text@.skip(end as int) =~= Seq::<char>::empty());
            }
            rows.push(line);
            start = end;
        } else {
            let n = line.len();
            if n > 0 && line[n - 1] == '\r' {
                line.pop();
            }
            proof {
                assert(line@ =~= without_cr(rest.take(end - start)));
                assert(rest.skip(end - start + 1) =~= text@.skip(end + 1));
            }
            rows.push(line);
            start = end + 1;
        }
        proof {
            assert(line_views(rows@) =~= done + seq![line@]);
            assert(lines(text@) =~= line_views(rows@) + lines(text@.skip(start as int)));
        }
    }
    proof {
        assert(text@.skip(start as int) =~= Seq::<char>::empty());
        assert(lines(text@) =~= line_views(rows@));
    }
    rows
}

} // verus!
