//! Recognizing delimiter lines: a line counts as a front matter delimiter
//! when its content, with surrounding whitespace trimmed away, is exactly
//! the three characters `---`.
use vstd::prelude::*;

verus! {

/// The characters with the Unicode `White_Space` property, the set that
/// `char::is_whitespace` recognizes.
pub open spec fn is_space(c: char) -> bool {
    ||| c == ' '
    ||| c == '\t'
    ||| c == '\n'
    ||| c == '\u{b}'
    ||| c == '\u{c}'
    ||| c == '\r'
    ||| c == '\u{85}'
    ||| c == '\u{a0}'
    ||| c == '\u{1680}'
    ||| c == '\u{2000}'
    ||| c == '\u{2001}'
    ||| c == '\u{2002}'
    ||| c == '\u{2003}'
    ||| c == '\u{2004}'
    ||| c == '\u{2005}'
    ||| c == '\u{2006}'
    ||| c == '\u{2007}'
    ||| c == '\u{2008}'
    ||| c == '\u{2009}'
    ||| c == '\u{200a}'
    ||| c == '\u{2028}'
    ||| c == '\u{2029}'
    ||| c == '\u{202f}'
    ||| c == '\u{205f}'
    ||| c == '\u{3000}'
}

/// Whether `c` is whitespace, decided in executable code.
pub fn is_space_char(c: char) -> (r: bool)
    ensures
        r == is_space(c),
{
    c == ' ' || c == '\t' || c == '\n' || c == '\u{b}' || c == '\u{c}' || c == '\r'
        || c == '\u{85}' || c == '\u{a0}' || c == '\u{1680}' || c == '\u{2000}'
        || c == '\u{2001}' || c == '\u{2002}' || c == '\u{2003}' || c == '\u{2004}'
        || c == '\u{2005}' || c == '\u{2006}' || c == '\u{2007}' || c == '\u{2008}'
        || c == '\u{2009}' || c == '\u{200a}' || c == '\u{2028}' || c == '\u{2029}'
        || c == '\u{202f}' || c == '\u{205f}' || c == '\u{3000}'
}

/// `s` with its leading whitespace removed.
pub open spec fn trim_start(s: Seq<char>) -> Seq<char>
    decreases s.len(),
{
    if s.len() > 0 && is_space(s[0]) {
        trim_start(s.drop_first())
    } else {
        s
    }
}

/// `s` with its trailing whitespace removed.
pub open spec fn trim_end(s: Seq<char>) -> Seq<char>
    decreases s.len(),
{
    if s.len() > 0 && is_space(s.last()) {
        trim_end(s.drop_last())
    } else {
        s
    }
}

/// `s` with both leading and trailing whitespace removed, as `str::trim`
/// computes it.
pub open spec fn spec_trim(s: Seq<char>) -> Seq<char> {
    trim_end(trim_start(s))
}

/// The delimiter marker: three hyphen-minus characters.
pub open spec fn delim_chars() -> Seq<char> {
    seq!['-', '-', '-']
}

/// A line bounds the front matter block exactly when it trims to `---`.
pub open spec fn is_delim_line(l: Seq<char>) -> bool {
    spec_trim(l) == delim_chars()
}

/// Trimming never lengthens a sequence.
proof fn lemma_trim_start_len(s: Seq<char>)
    ensures
        trim_start(s).len() <= s.len(),
    decreases s.len(),
{
    if s.len() > 0 && is_space(s[0]) {
        lemma_trim_start_len(s.drop_first());
    }
}

/// Trimming never lengthens a sequence.
proof fn lemma_trim_end_len(s: Seq<char>)
    ensures
        trim_end(s).len() <= s.len(),
    decreases s.len(),
{
    if s.len() > 0 && is_space(s.last()) {
        lemma_trim_end_len(s.drop_last());
    }
}

/// A delimiter line holds at least the three marker characters.
pub proof fn lemma_delim_line_nonempty(l: Seq<char>)
    requires
        is_delim_line(l),
    ensures
        l.len() >= 3,
{
    lemma_trim_start_len(l);
    lemma_trim_end_len(trim_start(l));
}

/// If everything before index `a` is whitespace and `a` is either the end
/// or a non-whitespace character, trimming from the start lands on `a`.
proof fn lemma_trim_start_at(s: Seq<char>, a: int)
    requires
        0 <= a <= s.len(),
        forall|k: int| 0 <= k < a ==> is_space(s[k]),
        a < s.len() ==> !is_space(s[a]),
    ensures
        trim_start(s) == s.subrange(a, s.len() as int),
    decreases a,
{
    if a == 0 {
        assert(s.subrange(0, s.len() as int) =~= s);
    } else {
        assert(is_space(s[0]));
        lemma_trim_start_at(s.drop_first(), a - 1);
        assert(s.drop_first().subrange(a - 1, s.drop_first().len() as int) =~= s.subrange(
            a,
            s.len() as int,
        ));
    }
}

/// If everything from index `b` on is whitespace and `b` is either the
/// start or preceded by a non-whitespace character, trimming from the end
/// lands on `b`.
proof fn lemma_trim_end_at(s: Seq<char>, b: int)
    requires
        0 <= b <= s.len(),
        forall|k: int| b <= k < s.len() ==> is_space(s[k]),
        b > 0 ==> !is_space(s[b - 1]),
    ensures
        trim_end(s) == s.subrange(0, b),
    decreases s.len() - b,
{
    if b == s.len() {
        assert(s.subrange(0, b) =~= s);
    } else {
        assert(is_space(s.last()));
        lemma_trim_end_at(s.drop_last(), b);
        assert(s.drop_last().subrange(0, b) =~= s.subrange(0, b));
    }
}

/// Decides whether `line` is a delimiter line: skip whitespace from both
/// ends and compare what is left against `---`.
pub fn line_is_delim(line: &str) -> (r: bool)
    ensures
        r == is_delim_line(line@),
{
    let n = line.unicode_len();
    let mut a: usize = 0;
    while a < n && is_space_char(line.get_char(a))
        invariant
            0 <= a <= n,
            n == line@.len(),
            forall|k: int| 0 <= k < a ==> is_space(line@[k]),
        decreases n - a,
    {
        a = a + 1;
    }
    let mut b: usize = n;
    while b > a && is_space_char(line.get_char(b - 1))
        invariant
            a <= b <= n,
            n == line@.len(),
            forall|k: int| b <= k < n ==> is_space(line@[k]),
        decreases b,
    {
        b = b - 1;
    }
    proof {
        lemma_trim_start_at(line@, a as int);
        let t = line@.subrange(a as int, n as int);
        lemma_trim_end_at(t, b - a);
        assert(t.subrange(0, b - a) =~= line@.subrange(a as int, b as int));
        assert(spec_trim(line@) == line@.subrange(a as int, b as int));
    }
    if b - a == 3 {
        let r = line.get_char(a) == '-' && line.get_char(a + 1) == '-' && line.get_char(a + 2)
            == '-';
        proof {
            if r {
                assert(line@.subrange(a as int, b as int) =~= delim_chars());
            } else {
                assert(line@.subrange(a as int, b as int) != delim_chars());
            }
        }
        r
    } else {
        proof {
            assert(line@.subrange(a as int, b as int).len() != delim_chars().len());
        }
        false
    }
}

} // verus!
