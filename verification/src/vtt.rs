//! The caption normalizer: flattens a raw WebVTT caption stream into one
//! deduplicated line of prose. The header is skipped up through the
//! language-declaration line, cue-timestamp lines are discarded, inline
//! timing tags are stripped, blank lines are dropped, consecutive
//! duplicate lines are collapsed, and what remains is joined with single
//! spaces.

use vstd::prelude::*;
use vstd::string::*;

use crate::chars::{
    digit_char, is_digit_char, is_space_char, space_char, spec_starts_with, split_on, split_str,
    str_starts_with,
};

verus! {

/// A header line that declares the caption language; the last line of the
/// header that is skipped.
pub open spec fn is_lang_line(line: Seq<char>) -> bool {
    spec_starts_with(line, "Language"@)
}

/// Executable form of [`is_lang_line`].
pub fn lang_line(line: &str) -> (r: bool)
    ensures
        r == is_lang_line(line@),
{
    str_starts_with(line, "Language")
}

/// A cue-delimiter line: it opens with an `HH:MM:SS.mmm` timestamp and is
/// never caption content.
pub open spec fn is_timestamp_line(line: Seq<char>) -> bool {
    &&& line.len() >= 12
    &&& is_digit_char(line[0])
    &&& is_digit_char(line[1])
    &&& line[2] == ':'
    &&& is_digit_char(line[3])
    &&& is_digit_char(line[4])
    &&& line[5] == ':'
    &&& is_digit_char(line[6])
    &&& is_digit_char(line[7])
    &&& line[8] == '.'
    &&& is_digit_char(line[9])
    &&& is_digit_char(line[10])
    &&& is_digit_char(line[11])
}

/// Executable form of [`is_timestamp_line`].
pub fn timestamp_line(line: &str) -> (r: bool)
    ensures
        r == is_timestamp_line(line@),
{
    let n = line.unicode_len();
    if n < 12 {
        return false;
    }
    digit_char(line.get_char(0)) && digit_char(line.get_char(1)) && line.get_char(2) == ':'
        && digit_char(line.get_char(3)) && digit_char(line.get_char(4)) && line.get_char(5) == ':'
        && digit_char(line.get_char(6)) && digit_char(line.get_char(7)) && line.get_char(8) == '.'
        && digit_char(line.get_char(9)) && digit_char(line.get_char(10)) && digit_char(
        line.get_char(11),
    )
}

/// Empty or whitespace-only.
pub open spec fn is_blank(line: Seq<char>) -> bool {
    forall|i: int| 0 <= i < line.len() ==> is_space_char(line[i])
}

/// Executable form of [`is_blank`].
pub fn blank_line(line: &str) -> (r: bool)
    ensures
        r == is_blank(line@),
{
    let n = line.unicode_len();
    let mut i: usize = 0;
    while i < n
        invariant
            i <= n,
            n == line@.len(),
            forall|k: int| 0 <= k < i ==> is_space_char(line@[k]),
        decreases n - i,
    {
        if !space_char(line.get_char(i)) {
            return false;
        }
        i += 1;
    }
    true
}

/// One step of the tag stripper. The state is the retained text so far
/// and, inside a possibly unterminated tag, the characters buffered since
/// its `<`.
pub open spec fn strip_step(st: (Seq<char>, Option<Seq<char>>), c: char) -> (
    Seq<char>,
    Option<Seq<char>>,
) {
    match st.1 {
        None => if c == '<' {
            (st.0, Some(seq!['<']))
        } else {
            (st.0.push(c), None)
        },
        Some(p) => if c == '>' {
            (st.0, None)
        } else {
            (st.0, Some(p.push(c)))
        },
    }
}

/// The tag stripper run over `s`, starting from `st`.
pub open spec fn strip_run_from(st: (Seq<char>, Option<Seq<char>>), s: Seq<char>) -> (
    Seq<char>,
    Option<Seq<char>>,
)
    decreases s.len(),
{
    if s.len() == 0 {
        st
    } else {
        strip_step(strip_run_from(st, s.drop_last()), s.last())
    }
}

/// A line with every complete `<...>` tag removed. A `<` that is never
/// closed is kept verbatim together with what follows it.
pub open spec fn strip_tags(line: Seq<char>) -> Seq<char> {
    let st = strip_run_from((Seq::<char>::empty(), None), line);
    match st.1 {
        None => st.0,
        Some(p) => st.0 + p,
    }
}

/// Executable form of [`strip_tags`].
pub fn strip_tags_exec(line: &str) -> (r: String)
    ensures
        r@ == strip_tags(line@),
{
    let n = line.unicode_len();
    let mut out: String = String::new();
    let mut in_tag: bool = false;
    let mut pend: String = String::new();
    let mut i: usize = 0;
    while i < n
        invariant
            i <= n,
            n == line@.len(),
            strip_run_from((Seq::<char>::empty(), None), line@.take(i as int)) == (
                out@,
                if in_tag {
                    Some(pend@)
                } else {
                    None::<Seq<char>>
                },
            ),
        decreases n - i,
    {
        let ghost pre = line@.take(i as int);
        let c = line.get_char(i);
        if in_tag {
            if c == '>' {
                in_tag = false;
                pend = String::new();
            } else {
                pend.push(c);
            }
        } else {
            if c == '<' {
                in_tag = true;
                pend = String::new();
                pend.push('<');
            } else {
                out.push(c);
            }
        }
        i += 1;
        proof {
            let post = line@.take(i as int);
            assert(post.drop_last() =~= pre);
            assert(post.last() == c);
        }
    }
    proof {
        assert(line@.take(n as int) =~= line@);
    }
    if in_tag {
        out.append(pend.as_str());
    }
    out
}

/// What one raw line contributes to the cleaned stream: nothing for a cue
/// delimiter or a line that is blank once its tags are stripped, else the
/// stripped line.
pub open spec fn clean_one(line: Seq<char>) -> Seq<Seq<char>> {
    if is_timestamp_line(line) {
        Seq::<Seq<char>>::empty()
    } else {
        let t = strip_tags(line);
        if is_blank(t) {
            Seq::<Seq<char>>::empty()
        } else {
            seq![t]
        }
    }
}

/// The cleaned caption stream: cue delimiters and blank lines gone, tags
/// stripped from the rest, order kept.
pub open spec fn clean_lines(lines: Seq<Seq<char>>) -> Seq<Seq<char>>
    decreases lines.len(),
{
    if lines.len() == 0 {
        Seq::<Seq<char>>::empty()
    } else {
        clean_lines(lines.drop_last()) + clean_one(lines.last())
    }
}

/// Executable form of [`clean_lines`].
pub fn clean(lines: Vec<String>) -> (r: Vec<String>)
    ensures
        r.deep_view() == clean_lines(lines.deep_view()),
{
    let n = lines.len();
    let mut out: Vec<String> = Vec::new();
    let mut i: usize = 0;
    while i < n
        invariant
            i <= n,
            n == lines@.len(),
            out.deep_view() == clean_lines(lines.deep_view().take(i as int)),
        decreases n - i,
    {
        let ghost pre = lines.deep_view().take(i as int);
        if !timestamp_line(lines[i].as_str()) {
            let t = strip_tags_exec(lines[i].as_str());
            if !blank_line(t.as_str()) {
                let ghost old_out = out.deep_view();
                let ghost tv = t@;
                out.push(t);
                proof {
                    assert(out.deep_view() =~= old_out.push(tv));
                }
            }
        }
        i += 1;
        proof {
            let post = lines.deep_view().take(i as int);
            assert(post.drop_last() =~= pre);
            assert(post.last() == lines.deep_view()[i - 1]);
            assert(out.deep_view() =~= clean_lines(pre) + clean_one(lines.deep_view()[i - 1]));
        }
    }
    proof {
        assert(lines.deep_view().take(n as int) =~= lines.deep_view());
    }
    out
}

/// Some line declares the language.
pub open spec fn has_lang_line(lines: Seq<Seq<char>>) -> bool {
    exists|i: int| 0 <= i < lines.len() && is_lang_line(lines[i])
}

/// The lines after the first language-declaration line; meaningful only
/// when one exists.
pub open spec fn after_lang_line(lines: Seq<Seq<char>>) -> Seq<Seq<char>>
    decreases lines.len(),
{
    if lines.len() == 0 {
        lines
    } else if is_lang_line(lines[0]) {
        lines.drop_first()
    } else {
        after_lang_line(lines.drop_first())
    }
}

/// The caption body: everything up to and including the first
/// language-declaration line is header and skipped; a document without
/// one is all body.
pub open spec fn body_lines(lines: Seq<Seq<char>>) -> Seq<Seq<char>> {
    if has_lang_line(lines) {
        after_lang_line(lines)
    } else {
        lines
    }
}

/// When the first language-declaration line stands at `j`, the body is
/// everything after it.
proof fn lemma_after_lang_line(lines: Seq<Seq<char>>, j: int)
    requires
        0 <= j < lines.len(),
        is_lang_line(lines[j]),
        forall|k: int| 0 <= k < j ==> !is_lang_line(lines[k]),
    ensures
        after_lang_line(lines) == lines.skip(j + 1),
    decreases j,
{
    if j == 0 {
        assert(lines.drop_first() =~= lines.skip(1));
    } else {
        assert(!is_lang_line(lines[0]));
        let rest = lines.drop_first();
        assert(rest[j - 1] == lines[j]);
        assert(forall|k: int| 0 <= k < j - 1 ==> !is_lang_line(rest[k]));
        lemma_after_lang_line(rest, j - 1);
        assert(rest.skip(j) =~= lines.skip(j + 1));
    }
}

/// Executable form of [`body_lines`].
pub fn skip_header(lines: Vec<String>) -> (r: Vec<String>)
    ensures
        r.deep_view() == body_lines(lines.deep_view()),
{
    let n = lines.len();
    let mut j: usize = 0;
    while j < n
        invariant
            j <= n,
            n == lines@.len(),
            forall|k: int| 0 <= k < j ==> !is_lang_line(lines.deep_view()[k]),
        decreases n - j,
    {
        if lang_line(lines[j].as_str()) {
            let mut out: Vec<String> = Vec::new();
            let mut t: usize = j + 1;
            while t < n
                invariant
                    j + 1 <= t <= n,
                    n == lines@.len(),
                    out.deep_view() == lines.deep_view().subrange(j + 1, t as int),
                decreases n - t,
            {
                let ghost old_out = out.deep_view();
                let l = lines[t].clone();
                let ghost lv = l@;
                out.push(l);
                t += 1;
                proof {
                    assert(out.deep_view() =~= old_out.push(lv));
                    assert(out.deep_view() =~= lines.deep_view().subrange(j + 1, t as int));
                }
            }
            proof {
                assert(has_lang_line(lines.deep_view())) by {
                    assert(is_lang_line(lines.deep_view()[j as int]));
                }
                lemma_after_lang_line(lines.deep_view(), j as int);
                assert(out.deep_view() =~= lines.deep_view().skip(j as int + 1));
            }
            return out;
        }
        j += 1;
    }
    proof {
        assert(!has_lang_line(lines.deep_view()));
    }
    lines
}

/// Consecutive-duplicate elimination: a line identical to the previously
/// retained line is suppressed; any other line is kept.
pub open spec fn dedup_consecutive(lines: Seq<Seq<char>>) -> Seq<Seq<char>>
    decreases lines.len(),
{
    if lines.len() == 0 {
        lines
    } else {
        let p = dedup_consecutive(lines.drop_last());
        if p.len() > 0 && p.last() == lines.last() {
            p
        } else {
            p.push(lines.last())
        }
    }
}

/// Executable form of [`dedup_consecutive`].
pub fn dedup(lines: Vec<String>) -> (r: Vec<String>)
    ensures
        r.deep_view() == dedup_consecutive(lines.deep_view()),
{
    let n = lines.len();
    let mut out: Vec<String> = Vec::new();
    let mut i: usize = 0;
    while i < n
        invariant
            i <= n,
            n == lines@.len(),
            out.deep_view() == dedup_consecutive(lines.deep_view().take(i as int)),
        decreases n - i,
    {
        let ghost pre = lines.deep_view().take(i as int);
        if out.len() == 0 || !(out[out.len() - 1] == lines[i]) {
            let ghost old_out = out.deep_view();
            let l = lines[i].clone();
            let ghost lv = l@;
            out.push(l);
            proof {
                assert(out.deep_view() =~= old_out.push(lv));
            }
        }
        i += 1;
        proof {
            let post = lines.deep_view().take(i as int);
            assert(post.drop_last() =~= pre);
            assert(post.last() == lines.deep_view()[i - 1]);
        }
    }
    proof {
        assert(lines.deep_view().take(n as int) =~= lines.deep_view());
    }
    out
}

/// The retained lines joined with single spaces.
pub open spec fn join_spaced(lines: Seq<Seq<char>>) -> Seq<char>
    decreases lines.len(),
{
    if lines.len() == 0 {
        Seq::<char>::empty()
    } else if lines.len() == 1 {
        lines[0]
    } else {
        join_spaced(lines.drop_last()) + seq![' '] + lines.last()
    }
}

/// Executable form of [`join_spaced`].
pub fn join_lines(lines: &Vec<String>) -> (r: String)
    ensures
        r@ == join_spaced(lines.deep_view()),
{
    let n = lines.len();
    let mut out: String = String::new();
    let mut i: usize = 0;
    while i < n
        invariant
            i <= n,
            n == lines@.len(),
            out@ == join_spaced(lines.deep_view().take(i as int)),
        decreases n - i,
    {
        let ghost pre = lines.deep_view().take(i as int);
        if i > 0 {
            out.push(' ');
        }
        out.append(lines[i].as_str());
        i += 1;
        proof {
            let post = lines.deep_view().take(i as int);
            assert(post.drop_last() =~= pre);
            assert(post.last() == lines.deep_view()[i - 1]);
            if i == 1 {
                assert(out@ =~= lines.deep_view()[0]);
                assert(post.len() == 1);
                assert(join_spaced(post) == post[0]);
            } else {
                assert(out@ =~= join_spaced(pre) + seq![' '] + post.last());
            }
        }
    }
    proof {
        assert(lines.deep_view().take(n as int) =~= lines.deep_view());
    }
    out
}

/// The whole normalization of a raw WebVTT document: header skipped, cue
/// delimiters discarded, tags stripped, blank lines dropped, consecutive
/// duplicates collapsed, and the survivors joined with single spaces.
pub open spec fn normalize_spec(s: Seq<char>) -> Seq<char> {
    join_spaced(dedup_consecutive(clean_lines(body_lines(split_on(s, '\n')))))
}

/// Normalizes a raw WebVTT document into one flat line of prose.
pub fn normalize(raw: &str) -> (r: String)
    ensures
        r@ == normalize_spec(raw@),
{
    let lines = split_str(raw, '\n');
    let body = skip_header(lines);
    let cleaned = clean(body);
    let deduped = dedup(cleaned);
    join_lines(&deduped)
}

} // verus!
