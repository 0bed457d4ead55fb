//! Laws that hold of extraction as a whole: splitting a joined document
//! gives its lines back, and extraction on a well-formed document returns
//! exactly the metadata lines and the body lines it was built from.
use vstd::prelude::*;

verus! {

use crate::body_of;
use crate::body_text;
use crate::delim::is_delim_line;
use crate::delim::lemma_delim_line_nonempty;
use crate::front_matter_of;
use crate::front_matter_text;
use crate::find_delim;
use crate::lemma_find_delim;
use crate::lemma_find_delim_is;
use crate::text::cat_with_newlines;
use crate::text::join_lines;
use crate::text::lines_from;
use crate::text::spec_lines;
use crate::text::strip_cr;

/// A line as it can stand inside a document: free of newlines and not
/// ending in a carriage return, so that joining lines with newlines and
/// splitting the result gives the same lines back.
pub open spec fn plain_line(l: Seq<char>) -> bool {
    (forall|k: int| 0 <= k < l.len() ==> l[k] != '\n') && (l.len() > 0 ==> l.last() != '\r')
}

/// Scanning up to the next newline at `m` emits one line and goes on
/// after it.
proof fn lemma_scan_to_nl(s: Seq<char>, start: int, i: int, m: int)
    requires
        0 <= start <= i <= m < s.len(),
        s[m] == '\n',
        forall|k: int| i <= k < m ==> s[k] != '\n',
    ensures
        lines_from(s, start, i) == seq![strip_cr(s.subrange(start, m))] + lines_from(
            s,
            m + 1,
            m + 1,
        ),
    decreases m - i,
{
    if i < m {
        lemma_scan_to_nl(s, start, i + 1, m);
    }
}

/// Scanning a tail without newlines emits the rest as one final line, or
/// nothing when the rest is empty.
proof fn lemma_scan_no_nl(s: Seq<char>, start: int, i: int)
    requires
        0 <= start <= i <= s.len(),
        forall|k: int| i <= k < s.len() ==> s[k] != '\n',
    ensures
        lines_from(s, start, i) == if start == s.len() {
            Seq::<Seq<char>>::empty()
        } else {
            seq![s.subrange(start, s.len() as int)]
        },
    decreases s.len() - i,
{
    if i < s.len() {
        lemma_scan_no_nl(s, start, i + 1);
    }
}

/// A scan that starts at `off` sees exactly what a scan of the suffix from
/// `off` sees.
proof fn lemma_lines_from_offset(s: Seq<char>, off: int, start: int, i: int)
    requires
        0 <= off <= start <= i <= s.len(),
    ensures
        lines_from(s, start, i) == lines_from(
            s.subrange(off, s.len() as int),
            start - off,
            i - off,
        ),
    decreases s.len() - i,
{
    let t = s.subrange(off, s.len() as int);
    if i == s.len() {
        if start < s.len() {
            assert(s.subrange(start, i) =~= t.subrange(start - off, i - off));
        }
    } else if s[i] == '\n' {
        lemma_lines_from_offset(s, off, i + 1, i + 1);
        assert(s.subrange(start, i) =~= t.subrange(start - off, i - off));
        assert(strip_cr(s.subrange(start, i)) == strip_cr(t.subrange(start - off, i - off)));
    } else {
        lemma_lines_from_offset(s, off, start, i + 1);
    }
}

/// Splitting the newline-joined text of plain lines gives the lines back,
/// provided the last line is not empty (a trailing empty line leaves no
/// trace in the joined text).
pub proof fn lemma_lines_of_join(ls: Seq<Seq<char>>)
    requires
        forall|i: int| 0 <= i < ls.len() ==> plain_line(#[trigger] ls[i]),
        ls.len() > 0 ==> ls.last().len() > 0,
    ensures
        spec_lines(join_lines(ls)) == ls,
    decreases ls.len(),
{
    if ls.len() == 0 {
        assert(spec_lines(join_lines(ls)) =~= ls);
    } else if ls.len() == 1 {
        let s = ls[0];
        assert(plain_line(s));
        lemma_scan_no_nl(s, 0, 0);
        assert(s.subrange(0, s.len() as int) =~= s);
        assert(spec_lines(join_lines(ls)) =~= ls);
    } else {
        let x = ls[0];
        let rest = ls.drop_first();
        let tail = join_lines(rest);
        let s = x + seq!['\n'] + tail;
        assert(join_lines(ls) == s);
        let m = x.len() as int;
        assert(s[m] == '\n');
        assert(forall|k: int| 0 <= k < m ==> s[k] == x[k] && s[k] != '\n');
        lemma_scan_to_nl(s, 0, 0, m);
        assert(s.subrange(0, m) =~= x);
        assert(strip_cr(x) == x);
        lemma_lines_from_offset(s, m + 1, m + 1, m + 1);
        assert(s.subrange(m + 1, s.len() as int) =~= tail);
        assert(rest.last() == ls.last());
        lemma_lines_of_join(rest);
        assert(spec_lines(s) =~= seq![x] + rest);
        assert(seq![x] + rest =~= ls);
    }
}

/// On the lines of a document shaped as delimiter, metadata lines,
/// delimiter, body lines, extraction selects exactly the metadata lines
/// and the body lines.
proof fn lemma_extract_of_shape(
    ls: Seq<Seq<char>>,
    opening: Seq<char>,
    metas: Seq<Seq<char>>,
    closing: Seq<char>,
    bodys: Seq<Seq<char>>,
)
    requires
        ls == seq![opening] + metas + seq![closing] + bodys,
        is_delim_line(opening),
        is_delim_line(closing),
        forall|i: int| 0 <= i < metas.len() ==> !is_delim_line(#[trigger] metas[i]),
    ensures
        front_matter_of(ls) == cat_with_newlines(metas),
        body_of(ls) == join_lines(bodys),
{
    let n = metas.len() as int;
    assert(ls.len() == metas.len() + bodys.len() + 2);
    assert(ls[0] == opening);
    assert(forall|k: int| 1 <= k < n + 1 ==> ls[k] == metas[k - 1]);
    assert(ls[n + 1] == closing);
    lemma_find_delim_is(ls, 0, 0);
    lemma_find_delim_is(ls, 1, n + 1);
    assert(ls.subrange(1, n + 1) =~= metas);
    assert(ls.subrange(n + 2, ls.len() as int) =~= bodys);
}

/// A document none of whose lines is a delimiter line extracts to empty
/// front matter and an empty body: absent delimiters degrade to empty
/// results, they are no error.
pub proof fn lemma_no_delimiter_degrades_to_empty(doc: Seq<char>)
    requires
        forall|i: int|
            0 <= i < spec_lines(doc).len() ==> !is_delim_line(#[trigger] spec_lines(doc)[i]),
    ensures
        front_matter_text(doc) == Seq::<char>::empty(),
        body_text(doc) == Seq::<char>::empty(),
{
    let ls = spec_lines(doc);
    lemma_find_delim_is(ls, 0, ls.len() as int);
}

/// A document whose opening delimiter line is never closed yields an empty
/// body, and its front matter accumulates every line after that lone
/// delimiter, each newline-terminated.
pub proof fn lemma_unclosed_block_drops_body(doc: Seq<char>)
    requires
        find_delim(spec_lines(doc), 0) < spec_lines(doc).len(),
        forall|k: int|
            find_delim(spec_lines(doc), 0) < k < spec_lines(doc).len() ==> !is_delim_line(
                #[trigger] spec_lines(doc)[k],
            ),
    ensures
        front_matter_text(doc) == cat_with_newlines(
            spec_lines(doc).subrange(
                find_delim(spec_lines(doc), 0) + 1,
                spec_lines(doc).len() as int,
            ),
        ),
        body_text(doc) == Seq::<char>::empty(),
{
    let ls = spec_lines(doc);
    let opening = find_delim(ls, 0);
    lemma_find_delim(ls, 0);
    lemma_find_delim_is(ls, opening + 1, ls.len() as int);
}

/// Round trip of a well-formed document: built of an opening delimiter
/// line, metadata lines that are no delimiters, a closing delimiter line,
/// and body lines, all joined with newlines, it extracts to exactly those
/// metadata lines (each newline-terminated) and those body lines
/// (newline-joined, no trailing newline).
pub proof fn lemma_extract_round_trip(
    opening: Seq<char>,
    metas: Seq<Seq<char>>,
    closing: Seq<char>,
    bodys: Seq<Seq<char>>,
)
    requires
        is_delim_line(opening),
        is_delim_line(closing),
        plain_line(opening),
        plain_line(closing),
        forall|i: int| 0 <= i < metas.len() ==> plain_line(#[trigger] metas[i]) && !is_delim_line(
            metas[i],
        ),
        forall|i: int| 0 <= i < bodys.len() ==> plain_line(#[trigger] bodys[i]),
        bodys.len() > 0 ==> bodys.last().len() > 0,
    ensures
        front_matter_text(join_lines(seq![opening] + metas + seq![closing] + bodys))
            == cat_with_newlines(metas),
        body_text(join_lines(seq![opening] + metas + seq![closing] + bodys)) == join_lines(
            bodys,
        ),
{
    let ls = seq![opening] + metas + seq![closing] + bodys;
    assert(forall|i: int| 0 <= i < ls.len() ==> plain_line(#[trigger] ls[i])) by {
        assert(ls[0] == opening);
        assert(forall|k: int| 1 <= k < metas.len() + 1 ==> ls[k] == metas[k - 1]);
        assert(ls[metas.len() as int + 1] == closing);
        assert(forall|k: int|
            metas.len() + 2 <= k < ls.len() ==> ls[k] == bodys[k - metas.len() - 2]);
    }
    if bodys.len() == 0 {
        assert(ls.last() == closing);
        lemma_delim_line_nonempty(closing);
    } else {
        assert(ls.last() == bodys.last());
    }
    lemma_lines_of_join(ls);
    lemma_extract_of_shape(ls, opening, metas, closing, bodys);
}

} // verus!
