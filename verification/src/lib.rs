//! Separates a YAML front matter block from the head of a text document and
//! decodes it into a caller-supplied record type.
//!
//! A front matter block is the run of lines enclosed by the first two
//! delimiter lines of the document, a delimiter line being one that trims to
//! `---`. Extraction never fails: missing or unclosed delimiters degrade to
//! empty results instead of errors. Decoding the block's YAML text is
//! delegated to `serde_yaml` and its failures are passed through unchanged.
use vstd::prelude::*;

pub mod delim;
pub mod laws;
pub mod text;

verus! {

use crate::delim::is_delim_line;
use crate::delim::line_is_delim;
use crate::text::cat_with_newlines;
use crate::text::join_lines;
use crate::text::lemma_cat_push;
use crate::text::lemma_join_push;
use crate::text::lines_view;
use crate::text::spec_lines;
use crate::text::split_lines;

/// The index of the first delimiter line of `ls` at or after `from`, or
/// `ls.len()` if there is none.
pub open spec fn find_delim(ls: Seq<Seq<char>>, from: int) -> int
    recommends
        0 <= from <= ls.len(),
    decreases ls.len() - from,
{
    if from >= ls.len() {
        ls.len() as int
    } else if is_delim_line(ls[from]) {
        from
    } else {
        find_delim(ls, from + 1)
    }
}

/// What `find_delim` returns is in range, lands on a delimiter line if it
/// is not the end, and skips no delimiter line on the way.
pub proof fn lemma_find_delim(ls: Seq<Seq<char>>, from: int)
    requires
        0 <= from <= ls.len(),
    ensures
        from <= find_delim(ls, from) <= ls.len(),
        find_delim(ls, from) < ls.len() ==> is_delim_line(ls[find_delim(ls, from)]),
        forall|k: int| from <= k < find_delim(ls, from) ==> !is_delim_line(ls[k]),
    decreases ls.len() - from,
{
    if from < ls.len() && !is_delim_line(ls[from]) {
        lemma_find_delim(ls, from + 1);
    }
}

/// An index that lands on a delimiter line (or the end) with none before
/// it is exactly what `find_delim` returns.
pub proof fn lemma_find_delim_is(ls: Seq<Seq<char>>, from: int, r: int)
    requires
        0 <= from <= r <= ls.len(),
        forall|k: int| from <= k < r ==> !is_delim_line(ls[k]),
        r < ls.len() ==> is_delim_line(ls[r]),
    ensures
        find_delim(ls, from) == r,
    decreases r - from,
{
    if from < r {
        lemma_find_delim_is(ls, from + 1, r);
    }
}

/// The front matter of a document given as its lines: every line strictly
/// between the first delimiter line and the next one after it, each
/// followed by a newline. Empty when no delimiter line exists.
pub open spec fn front_matter_of(ls: Seq<Seq<char>>) -> Seq<char> {
    let opening = find_delim(ls, 0);
    if opening == ls.len() {
        Seq::empty()
    } else {
        cat_with_newlines(ls.subrange(opening + 1, find_delim(ls, opening + 1)))
    }
}

/// The body of a document given as its lines: every line strictly after
/// the closing delimiter line, joined with newlines and without a trailing
/// one. Empty when no closing delimiter line exists.
pub open spec fn body_of(ls: Seq<Seq<char>>) -> Seq<char> {
    let opening = find_delim(ls, 0);
    if opening == ls.len() {
        Seq::empty()
    } else {
        let closing = find_delim(ls, opening + 1);
        if closing == ls.len() {
            Seq::empty()
        } else {
            join_lines(ls.subrange(closing + 1, ls.len() as int))
        }
    }
}

/// The front matter text of a document.
pub open spec fn front_matter_text(doc: Seq<char>) -> Seq<char> {
    front_matter_of(spec_lines(doc))
}

/// The body text of a document.
pub open spec fn body_text(doc: Seq<char>) -> Seq<char> {
    body_of(spec_lines(doc))
}

#[verifier::external_type_specification]
#[verifier::external_body]
pub struct ExSerdeYamlError(serde_yaml::Error);

/// The one error this crate surfaces: the YAML decoder rejected the front
/// matter text. It carries the decoder's own error value.
#[derive(Debug)]
pub struct DecodeError {
    /// The error that `serde_yaml` reported.
    pub inner: serde_yaml::Error,
}

/// A document taken apart: the decoded front matter record and the body
/// text that followed the front matter block.
pub struct Document<T> {
    /// The record decoded from the front matter block.
    pub metadata: T,
    /// The document body, with the front matter block and its delimiter
    /// lines removed.
    pub content: String,
}

/// Relies on `serde_yaml::from_str`: decodes the YAML document in `text`
/// into a `T` or reports why it cannot. Which of the two happens depends
/// on `T`'s deserialization logic, so nothing is claimed of the outcome.
#[verifier::external_body]
fn decode_yaml<T: serde::de::DeserializeOwned>(text: &str) -> Result<T, serde_yaml::Error> {
    serde_yaml::from_str(text)
}

/// The index of the first delimiter line of `lines` at or after `from`,
/// or the line count if there is none.
fn find_delim_from(lines: &Vec<String>, from: usize) -> (r: usize)
    requires
        from <= lines@.len(),
    ensures
        r == find_delim(lines_view(lines@), from as int),
{
    let len = lines.len();
    let mut i = from;
    while i < len
        invariant
            from <= i <= len,
            len == lines@.len(),
            forall|k: int| from <= k < i ==> !is_delim_line(lines_view(lines@)[k]),
        decreases len - i,
    {
        if line_is_delim(lines[i].as_str()) {
            proof {
                lemma_find_delim_is(lines_view(lines@), from as int, i as int);
            }
            return i;
        }
        i = i + 1;
    }
    proof {
        lemma_find_delim_is(lines_view(lines@), from as int, len as int);
    }
    len
}

/// The front matter separator.
pub struct YamlFrontMatter;

impl YamlFrontMatter {
    /// Splits a document into its front matter text and its body text.
    /// Never fails: a document without a front matter block yields empty
    /// text for the missing parts.
    pub fn extract(markdown: &str) -> (r: Result<(String, String), DecodeError>)
        ensures
            r is Ok,
            r matches Ok(p) ==> p.0@ == front_matter_text(markdown@) && p.1@ == body_text(
                markdown@,
            ),
    {
        let lines = split_lines(markdown);
        let len = lines.len();
        let ghost lm = lines_view(lines@);
        let opening = find_delim_from(&lines, 0);
        proof {
            lemma_find_delim(lm, 0);
        }
        let mut front_matter = String::new();
        let mut body = String::new();
        if opening < len {
            let closing = find_delim_from(&lines, opening + 1);
            proof {
                lemma_find_delim(lm, opening + 1);
            }
            let mut k = opening + 1;
            while k < closing
                invariant
                    opening + 1 <= k <= closing <= len,
                    len == lines@.len(),
                    lm == lines_view(lines@),
                    front_matter@ == cat_with_newlines(lm.subrange(opening + 1, k as int)),
                decreases closing - k,
            {
                front_matter.append(lines[k].as_str());
                front_matter.append("\n");
                proof {
                    reveal_strlit("\n");
                    assert("\n"@ =~= seq!['\n']);
                    lemma_cat_push(lm.subrange(opening + 1, k as int), lm[k as int]);
                    assert(lm.subrange(opening + 1, k + 1) =~= lm.subrange(
                        opening + 1,
                        k as int,
                    ).push(lm[k as int]));
                }
                k = k + 1;
            }
            if closing < len {
                let mut j = closing + 1;
                while j < len
                    invariant
                        closing + 1 <= j <= len,
                        len == lines@.len(),
                        lm == lines_view(lines@),
                        closing < len,
                        body@ == join_lines(lm.subrange(closing + 1, j as int)),
                    decreases len - j,
                {
                    if j == closing + 1 {
                        body.append(lines[j].as_str());
                        proof {
                            assert(lm.subrange(closing + 1, j + 1) =~= seq![lm[j as int]]);
                            assert(join_lines(seq![lm[j as int]]) == lm[j as int]);
                        }
                    } else {
                        body.append("\n");
                        body.append(lines[j].as_str());
                        proof {
                            reveal_strlit("\n");
                            assert("\n"@ =~= seq!['\n']);
                            lemma_join_push(lm.subrange(closing + 1, j as int), lm[j as int]);
                            assert(lm.subrange(closing + 1, j + 1) =~= lm.subrange(
                                closing + 1,
                                j as int,
                            ).push(lm[j as int]));
                        }
                    }
                    j = j + 1;
                }
            }
        }
        Ok((front_matter, body))
    }

    /// Combines the decoder's outcome with the extracted body: a decoded
    /// record becomes the finished document with that body, a decoder
    /// error is passed through wrapped as this crate's error.
    pub fn package<T>(decoded: Result<T, serde_yaml::Error>, content: String) -> (r: Result<
        Document<T>,
        DecodeError,
    >)
        ensures
            (decoded matches Ok(m) ==> r matches Ok(d) && d.metadata == m && d.content
                == content),
            (decoded matches Err(e) ==> r matches Err(f) && f.inner == e),
    {
        match decoded {
            Ok(metadata) => Ok(Document { metadata, content }),
            Err(e) => Err(DecodeError { inner: e }),
        }
    }

    /// Extracts the front matter block of `markdown`, decodes it into a
    /// `T`, and returns it together with the body. Whether decoding
    /// succeeds is the YAML decoder's decision; whatever it decides, a
    /// returned document carries exactly the extracted body text.
    pub fn parse<T: serde::de::DeserializeOwned>(markdown: &str) -> (r: Result<
        Document<T>,
        DecodeError,
    >)
        ensures
            r matches Ok(d) ==> d.content@ == body_text(markdown@),
    {
        let (front_matter, content) = match Self::extract(markdown) {
            Ok(p) => p,
            Err(e) => {
                return Err(e);
            },
        };
        let decoded = decode_yaml::<T>(front_matter.as_str());
        Self::package(decoded, content)
    }
}

} // verus!
