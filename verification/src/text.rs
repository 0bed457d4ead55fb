//! The line model of a document: splitting text into lines the way
//! `str::lines` does (a line ends at `\n`, a `\r` directly before the `\n`
//! is dropped, a final segment without `\n` is a line only if nonempty),
//! and joining lines back together.
use vstd::prelude::*;

verus! {

/// `s` with one trailing carriage return removed, if present.
pub open spec fn strip_cr(s: Seq<char>) -> Seq<char> {
    if s.len() > 0 && s.last() == '\r' {
        s.drop_last()
    } else {
        s
    }
}

/// The lines of `s` that remain to be produced when the scan has already
/// emitted everything before `start` and examined everything before `i`
/// (with no newline between `start` and `i`).
pub open spec fn lines_from(s: Seq<char>, start: int, i: int) -> Seq<Seq<char>>
    recommends
        0 <= start <= i <= s.len(),
    decreases s.len() - i,
{
    if !(0 <= start <= i <= s.len()) {
        Seq::empty()
    } else if i == s.len() {
        if start == i {
            Seq::empty()
        } else {
            seq![s.subrange(start, i)]
        }
    } else if s[i] == '\n' {
        seq![strip_cr(s.subrange(start, i))] + lines_from(s, i + 1, i + 1)
    } else {
        lines_from(s, start, i + 1)
    }
}

/// The sequence of lines of `s`, as `str::lines` yields them.
pub open spec fn spec_lines(s: Seq<char>) -> Seq<Seq<char>> {
    lines_from(s, 0, 0)
}

/// The lines of `ls` concatenated, each one followed by a newline.
pub open spec fn cat_with_newlines(ls: Seq<Seq<char>>) -> Seq<char>
    decreases ls.len(),
{
    if ls.len() == 0 {
        Seq::empty()
    } else {
        ls[0] + seq!['\n'] + cat_with_newlines(ls.drop_first())
    }
}

/// The lines of `ls` joined with a newline between neighbours and nothing
/// after the last.
pub open spec fn join_lines(ls: Seq<Seq<char>>) -> Seq<char>
    decreases ls.len(),
{
    if ls.len() == 0 {
        Seq::empty()
    } else if ls.len() == 1 {
        ls[0]
    } else {
        ls[0] + seq!['\n'] + join_lines(ls.drop_first())
    }
}

/// The views of a vector of owned lines.
pub open spec fn lines_view(ls: Seq<String>) -> Seq<Seq<char>> {
    ls.map_values(|l: String| l@)
}

/// Appending one more line extends the newline-terminated concatenation by
/// that line and a newline.
pub proof fn lemma_cat_push(ls: Seq<Seq<char>>, x: Seq<char>)
    ensures
        cat_with_newlines(ls.push(x)) == cat_with_newlines(ls) + x + seq!['\n'],
    decreases ls.len(),
{
    if ls.len() == 0 {
        assert(ls.push(x).drop_first() =~= Seq::<Seq<char>>::empty());
        assert(ls.push(x)[0] == x);
        assert(cat_with_newlines(Seq::<Seq<char>>::empty()) == Seq::<char>::empty());
        assert(cat_with_newlines(ls.push(x)) =~= x + seq!['\n']);
        assert(cat_with_newlines(ls) + x + seq!['\n'] =~= x + seq!['\n']);
    } else {
        lemma_cat_push(ls.drop_first(), x);
        assert(ls.push(x).drop_first() =~= ls.drop_first().push(x));
        assert(ls.push(x)[0] == ls[0]);
        assert(cat_with_newlines(ls.push(x)) == ls[0] + seq!['\n'] + cat_with_newlines(
            ls.drop_first().push(x),
        ));
        assert(cat_with_newlines(ls.push(x)) =~= cat_with_newlines(ls) + x + seq!['\n']);
    }
}

/// Appending one more line to a nonempty sequence extends the joined text
/// by a separating newline and that line.
pub proof fn lemma_join_push(ls: Seq<Seq<char>>, x: Seq<char>)
    requires
        ls.len() > 0,
    ensures
        join_lines(ls.push(x)) == join_lines(ls) + seq!['\n'] + x,
    decreases ls.len(),
{
    if ls.len() == 1 {
        assert(ls.push(x).drop_first() =~= seq![x]);
        assert(ls.push(x)[0] == ls[0]);
        assert(join_lines(ls.push(x)) == ls[0] + seq!['\n'] + join_lines(seq![x]));
        assert(join_lines(seq![x]) == x);
        assert(join_lines(ls.push(x)) =~= join_lines(ls) + seq!['\n'] + x);
    } else {
        lemma_join_push(ls.drop_first(), x);
        assert(ls.push(x).drop_first() =~= ls.drop_first().push(x));
        assert(ls.push(x)[0] == ls[0]);
        assert(join_lines(ls.push(x)) == ls[0] + seq!['\n'] + join_lines(
            ls.drop_first().push(x),
        ));
        assert(join_lines(ls.push(x)) =~= join_lines(ls) + seq!['\n'] + x);
    }
}

/// Splits a document into its lines.
pub fn split_lines(doc: &str) -> (r: Vec<String>)
    ensures
        lines_view(r@) == spec_lines(doc@),
{
    let n = doc.unicode_len();
    let mut lines: Vec<String> = Vec::new();
    let mut start: usize = 0;
    let mut i: usize = 0;
    while i < n
        invariant
            0 <= start <= i <= n,
            n == doc@.len(),
            forall|k: int| start <= k < i ==> doc@[k] != '\n',
            lines_view(lines@) + lines_from(doc@, start as int, i as int) == spec_lines(doc@),
        decreases n - i,
    {
        if doc.get_char(i) == '\n' {
            let end = if i > start && doc.get_char(i - 1) == '\r' {
                i - 1
            } else {
                i
            };
            let line = doc.substring_char(start, end).to_owned();
            proof {
                assert(line@ =~= strip_cr(doc@.subrange(start as int, i as int)));
                assert(lines_view(lines@.push(line)) =~= lines_view(lines@) + seq![line@]);
                assert(lines_from(doc@, start as int, i as int) == seq![line@] + lines_from(
                    doc@,
                    i + 1,
                    i + 1,
                ));
                assert(lines_view(lines@) + lines_from(doc@, start as int, i as int)
                    =~= lines_view(lines@.push(line)) + lines_from(doc@, i + 1, i + 1));
            }
            lines.push(line);
            start = i + 1;
        }
        i = i + 1;
    }
    if start < n {
        let line = doc.substring_char(start, n).to_owned();
        proof {
            assert(lines_view(lines@.push(line)) =~= lines_view(lines@) + seq![line@]);
            assert(lines_from(doc@, start as int, n as int) == seq![line@]);
            assert(lines_view(lines@.push(line)) =~= spec_lines(doc@));
        }
        lines.push(line);
    } else {
        proof {
            assert(lines_from(doc@, start as int, n as int) =~= Seq::<Seq<char>>::empty());
            assert(lines_view(lines@) =~= spec_lines(doc@));
        }
    }
    lines
}

} // verus!
