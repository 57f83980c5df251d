//! Laws of the caption normalizer: how the tag stripper composes, that
//! deduplication collapses only consecutive repeats, that a document
//! without a language-declaration line loses no lines, and that
//! normalization is a no-op on its own already-flat output.

use vstd::prelude::*;

use crate::chars::{is_space_char, lemma_split_on_absent, lemma_split_on_no_sep, split_on};
use crate::vtt::{
    after_lang_line, body_lines, clean_lines, clean_one, dedup_consecutive, has_lang_line,
    is_blank, is_lang_line, is_timestamp_line, join_spaced, normalize_spec, strip_run_from,
    strip_tags,
};

verus! {

/// Pushing a character other than `c0` onto a sequence without `c0`
/// leaves a sequence without `c0`.
proof fn lemma_push_not_contains(a: Seq<char>, x: char, c0: char)
    requires
        !a.contains(c0),
        x != c0,
    ensures
        !a.push(x).contains(c0),
{
    assert forall|k: int| 0 <= k < a.push(x).len() implies a.push(x)[k] != c0 by {
        if k < a.len() {
            assert(a.push(x)[k] == a[k]);
        } else {
            assert(a.push(x)[k] == x);
        }
    }
}

/// Running the tag stripper over a concatenation is running it over the
/// parts in turn.
proof fn lemma_strip_run_compose(st: (Seq<char>, Option<Seq<char>>), a: Seq<char>, b: Seq<char>)
    ensures
        strip_run_from(st, a + b) == strip_run_from(strip_run_from(st, a), b),
    decreases b.len(),
{
    if b.len() == 0 {
        assert(a + b =~= a);
    } else {
        assert((a + b).drop_last() =~= a + b.drop_last());
        assert((a + b).last() == b.last());
        lemma_strip_run_compose(st, a, b.drop_last());
    }
}

/// Outside a tag, text without `<` passes through the stripper verbatim.
proof fn lemma_strip_run_plain(o: Seq<char>, s: Seq<char>)
    requires
        !s.contains('<'),
    ensures
        strip_run_from((o, None), s) == (o + s, None::<Seq<char>>),
    decreases s.len(),
{
    if s.len() == 0 {
        assert(o + s =~= o);
    } else {
        assert(forall|k: int| 0 <= k < s.drop_last().len() ==> s.drop_last()[k] == s[k]);
        assert(!s.drop_last().contains('<'));
        lemma_strip_run_plain(o, s.drop_last());
        assert(s.last() != '<');
        assert((o + s.drop_last()).push(s.last()) =~= o + s);
    }
}

/// Inside a tag, text without `>` is buffered and nothing is emitted.
proof fn lemma_strip_run_buffered(o: Seq<char>, p: Seq<char>, s: Seq<char>)
    requires
        !s.contains('>'),
    ensures
        strip_run_from((o, Some(p)), s) == (o, Some(p + s)),
    decreases s.len(),
{
    if s.len() == 0 {
        assert(p + s =~= p);
    } else {
        assert(forall|k: int| 0 <= k < s.drop_last().len() ==> s.drop_last()[k] == s[k]);
        assert(!s.drop_last().contains('>'));
        lemma_strip_run_buffered(o, p, s.drop_last());
        assert(s.last() != '>');
        assert((p + s.drop_last()).push(s.last()) =~= p + s);
    }
}

/// The text already emitted is only carried along: running from `(o, pend)`
/// emits `o` followed by whatever a run from an empty emission emits.
proof fn lemma_strip_run_frame(o: Seq<char>, pend: Option<Seq<char>>, s: Seq<char>)
    ensures
        strip_run_from((o, pend), s).0 == o + strip_run_from((Seq::<char>::empty(), pend), s).0,
        strip_run_from((o, pend), s).1 == strip_run_from((Seq::<char>::empty(), pend), s).1,
    decreases s.len(),
{
    if s.len() == 0 {
        assert(o + Seq::<char>::empty() =~= o);
    } else {
        lemma_strip_run_frame(o, pend, s.drop_last());
        let r = strip_run_from((Seq::<char>::empty(), pend), s.drop_last());
        assert((o + r.0).push(s.last()) =~= o + r.0.push(s.last()));
    }
}

/// Stripping inline tags is content-preserving: a complete tag contributes
/// nothing, and the visible text around it is kept unchanged.
pub proof fn lemma_strip_tags_preserves_content(pre: Seq<char>, attrs: Seq<char>, post: Seq<char>)
    requires
        !pre.contains('<'),
        !attrs.contains('>'),
    ensures
        strip_tags(pre + seq!['<'] + attrs + seq!['>'] + post) == pre + strip_tags(post),
{
    let init = (Seq::<char>::empty(), None::<Seq<char>>);
    let whole = pre + seq!['<'] + attrs + seq!['>'] + post;

    lemma_strip_run_compose(init, pre + seq!['<'] + attrs + seq!['>'], post);
    lemma_strip_run_compose(init, pre + seq!['<'] + attrs, seq!['>']);
    lemma_strip_run_compose(init, pre + seq!['<'], attrs);
    lemma_strip_run_compose(init, pre, seq!['<']);

    lemma_strip_run_plain(Seq::<char>::empty(), pre);
    assert(Seq::<char>::empty() + pre =~= pre);
    assert(strip_run_from(init, pre) == (pre, None::<Seq<char>>));

    // one step over the opening `<`
    assert(seq!['<'].drop_last() =~= Seq::<char>::empty());
    assert(strip_run_from((pre, None::<Seq<char>>), Seq::<char>::empty()) == (
        pre,
        None::<Seq<char>>,
    ));
    assert(strip_run_from((pre, None::<Seq<char>>), seq!['<']) == (pre, Some(seq!['<'])));

    lemma_strip_run_buffered(pre, seq!['<'], attrs);
    assert(strip_run_from(init, pre + seq!['<'] + attrs) == (pre, Some(seq!['<'] + attrs)));

    // one step over the closing `>`
    assert(seq!['>'].drop_last() =~= Seq::<char>::empty());
    assert(strip_run_from((pre, Some(seq!['<'] + attrs)), Seq::<char>::empty()) == (
        pre,
        Some(seq!['<'] + attrs),
    ));
    assert(strip_run_from((pre, Some(seq!['<'] + attrs)), seq!['>']) == (
        pre,
        None::<Seq<char>>,
    ));
    assert(strip_run_from(init, pre + seq!['<'] + attrs + seq!['>']) == (
        pre,
        None::<Seq<char>>,
    ));

    lemma_strip_run_frame(pre, None::<Seq<char>>, post);
    let r = strip_run_from(init, post);
    assert(strip_run_from(init, whole).0 == pre + r.0);
    assert(strip_run_from(init, whole).1 == r.1);
    match r.1 {
        None => {
        },
        Some(p) => {
            assert((pre + r.0) + p =~= pre + (r.0 + p));
        },
    }
}

/// Deduplication is consecutive-only: in a cleaned stream `[a, a, b, a]`
/// the adjacent repeat of `a` is collapsed, while the later, non-adjacent
/// `a` is retained.
pub proof fn lemma_dedup_consecutive_only(a: Seq<char>, b: Seq<char>)
    requires
        a != b,
    ensures
        dedup_consecutive(seq![a, a, b, a]) == seq![a, b, a],
{
    let s4 = seq![a, a, b, a];
    let s3 = seq![a, a, b];
    let s2 = seq![a, a];
    let s1 = seq![a];
    let s0 = Seq::<Seq<char>>::empty();
    assert(s4.drop_last() =~= s3);
    assert(s3.drop_last() =~= s2);
    assert(s2.drop_last() =~= s1);
    assert(s1.drop_last() =~= s0);
    assert(dedup_consecutive(s0) == s0);
    assert(dedup_consecutive(s1) =~= seq![a]);
    assert(dedup_consecutive(s2) =~= seq![a]);
    assert(dedup_consecutive(s3) =~= seq![a, b]);
    assert(dedup_consecutive(s4) =~= seq![a, b, a]);
}

/// The invariant of the retained stream: no two adjacent retained lines
/// are textually identical.
pub proof fn lemma_dedup_no_adjacent_repeat(lines: Seq<Seq<char>>)
    ensures
        forall|i: int|
            0 <= i && i + 1 < dedup_consecutive(lines).len() ==> (#[trigger] dedup_consecutive(
                lines,
            )[i]) != dedup_consecutive(lines)[i + 1],
    decreases lines.len(),
{
    if lines.len() > 0 {
        lemma_dedup_no_adjacent_repeat(lines.drop_last());
        let p = dedup_consecutive(lines.drop_last());
        let r = dedup_consecutive(lines);
        if p.len() > 0 && p.last() == lines.last() {
        } else {
            assert forall|i: int| 0 <= i && i + 1 < r.len() implies (#[trigger] r[i]) != r[i
                + 1] by {
                if i + 1 < p.len() {
                    assert(r[i] == p[i] && r[i + 1] == p[i + 1]);
                } else {
                    assert(r[i] == p.last() && r[i + 1] == lines.last());
                }
            }
        }
    }
}

/// A document with no language-declaration line is all body: the header
/// skip drops nothing.
pub proof fn lemma_header_skip_absent(s: Seq<char>)
    requires
        !has_lang_line(split_on(s, '\n')),
    ensures
        normalize_spec(s) == join_spaced(dedup_consecutive(clean_lines(split_on(s, '\n')))),
{
}

/// The body is a suffix of the document's lines.
proof fn lemma_body_is_suffix(lines: Seq<Seq<char>>) -> (m: int)
    ensures
        0 <= m <= lines.len(),
        body_lines(lines) == lines.skip(m),
    decreases lines.len(),
{
    if !has_lang_line(lines) {
        assert(lines.skip(0) =~= lines);
        0
    } else if is_lang_line(lines[0]) {
        assert(after_lang_line(lines) == lines.drop_first());
        assert(lines.drop_first() =~= lines.skip(1));
        1
    } else {
        let rest = lines.drop_first();
        assert(has_lang_line(rest)) by {
            let i = choose|i: int| 0 <= i < lines.len() && is_lang_line(lines[i]);
            assert(rest[i - 1] == lines[i]);
        }
        let m0 = lemma_body_is_suffix(rest);
        assert(body_lines(rest) == after_lang_line(rest));
        assert(rest.skip(m0) =~= lines.skip(m0 + 1));
        m0 + 1
    }
}

/// Concatenating sequences free of `c0` yields a sequence free of `c0`.
proof fn lemma_concat_not_contains(a: Seq<char>, b: Seq<char>, c0: char)
    requires
        !a.contains(c0),
        !b.contains(c0),
    ensures
        !(a + b).contains(c0),
{
    assert forall|k: int| 0 <= k < (a + b).len() implies (a + b)[k] != c0 by {
        if k < a.len() {
            assert((a + b)[k] == a[k]);
        } else {
            assert((a + b)[k] == b[k - a.len()]);
        }
    }
}

/// A line free of `c0` keeps a stripped form free of `c0`, `<` aside.
proof fn lemma_strip_tags_no_char(line: Seq<char>, c0: char)
    requires
        c0 != '<',
        !line.contains(c0),
    ensures
        !strip_tags(line).contains(c0),
{
    lemma_strip_run_no_char((Seq::<char>::empty(), None::<Seq<char>>), line, c0);
    let r = strip_run_from((Seq::<char>::empty(), None::<Seq<char>>), line);
    match r.1 {
        None => {
        },
        Some(p) => {
            lemma_concat_not_contains(r.0, p, c0);
        },
    }
}

/// Every cleaned line is non-blank and free of the characters the raw
/// lines were free of, `<` aside.
proof fn lemma_clean_lines_elems(lines: Seq<Seq<char>>, c0: char)
    requires
        c0 != '<',
        forall|j: int| 0 <= j < lines.len() ==> !(#[trigger] lines[j]).contains(c0),
    ensures
        forall|i: int|
            0 <= i < clean_lines(lines).len() ==> !is_blank(#[trigger] clean_lines(lines)[i])
                && !clean_lines(lines)[i].contains(c0),
    decreases lines.len(),
{
    if lines.len() > 0 {
        assert(forall|j: int|
            0 <= j < lines.drop_last().len() ==> !(#[trigger] lines.drop_last()[j]).contains(c0));
        lemma_clean_lines_elems(lines.drop_last(), c0);
        let p = clean_lines(lines.drop_last());
        let one = clean_one(lines.last());
        if one.len() > 0 {
            assert(lines.last() == lines[lines.len() - 1]);
            lemma_strip_tags_no_char(lines.last(), c0);
        }
        assert forall|i: int|
            0 <= i < clean_lines(lines).len() implies !is_blank(
            #[trigger] clean_lines(lines)[i],
        ) && !clean_lines(lines)[i].contains(c0) by {
            if i < p.len() {
                assert(clean_lines(lines)[i] == p[i]);
            } else {
                assert(clean_lines(lines)[i] == one[i - p.len()]);
                assert(one[i - p.len()] == strip_tags(lines.last()));
            }
        }
    }
}

/// The stripper introduces no character: a character absent from the
/// state and the input, `<` aside, is absent from the result.
proof fn lemma_strip_run_no_char(st: (Seq<char>, Option<Seq<char>>), s: Seq<char>, c0: char)
    requires
        c0 != '<',
        !st.0.contains(c0),
        st.1 matches Some(p) ==> !p.contains(c0),
        !s.contains(c0),
    ensures
        !strip_run_from(st, s).0.contains(c0),
        strip_run_from(st, s).1 matches Some(p) ==> !p.contains(c0),
    decreases s.len(),
{
    if s.len() > 0 {
        assert(forall|k: int| 0 <= k < s.drop_last().len() ==> s.drop_last()[k] == s[k]);
        assert(!s.drop_last().contains(c0));
        lemma_strip_run_no_char(st, s.drop_last(), c0);
        let r = strip_run_from(st, s.drop_last());
        let c = s.last();
        assert(c != c0);
        match r.1 {
            None => {
                if c == '<' {
                    assert(!seq!['<'].contains(c0)) by {
                        assert(forall|k: int| 0 <= k < 1 ==> seq!['<'][k] == '<');
                    }
                } else {
                    lemma_push_not_contains(r.0, c, c0);
                }
            },
            Some(p) => {
                if c != '>' {
                    lemma_push_not_contains(p, c, c0);
                }
            },
        }
    }
}

/// Every deduplicated line is one of the input lines.
proof fn lemma_dedup_elems(lines: Seq<Seq<char>>)
    ensures
        forall|i: int|
            0 <= i < dedup_consecutive(lines).len() ==> exists|j: int|
                0 <= j < lines.len() && #[trigger] dedup_consecutive(lines)[i] == lines[j],
        dedup_consecutive(lines).len() == 0 <==> lines.len() == 0,
    decreases lines.len(),
{
    if lines.len() > 0 {
        lemma_dedup_elems(lines.drop_last());
        let p = dedup_consecutive(lines.drop_last());
        assert forall|i: int|
            0 <= i < dedup_consecutive(lines).len() implies exists|j: int|
            0 <= j < lines.len() && #[trigger] dedup_consecutive(lines)[i] == lines[j] by {
            if i < p.len() {
                assert(dedup_consecutive(lines)[i] == p[i]);
                let j0 = choose|j: int|
                    0 <= j < lines.drop_last().len() && p[i] == lines.drop_last()[j];
                assert(lines.drop_last()[j0] == lines[j0]);
                assert(dedup_consecutive(lines)[i] == lines[j0]);
            } else {
                assert(dedup_consecutive(lines)[i] == lines.last());
                assert(lines.last() == lines[lines.len() - 1]);
            }
        }
    }
}

/// Joining lines free of `c0` with spaces yields text free of `c0`.
proof fn lemma_join_no_char(lines: Seq<Seq<char>>, c0: char)
    requires
        c0 != ' ',
        forall|i: int| 0 <= i < lines.len() ==> !(#[trigger] lines[i]).contains(c0),
    ensures
        !join_spaced(lines).contains(c0),
    decreases lines.len(),
{
    if lines.len() == 0 {
    } else if lines.len() == 1 {
        assert(join_spaced(lines) == lines[0]);
    } else {
        assert(forall|i: int|
            0 <= i < lines.drop_last().len() ==> !(#[trigger] lines.drop_last()[i]).contains(c0));
        lemma_join_no_char(lines.drop_last(), c0);
        let a = join_spaced(lines.drop_last());
        let w = a + seq![' '] + lines.last();
        assert forall|k: int| 0 <= k < w.len() implies w[k] != c0 by {
            if k < a.len() {
                assert(w[k] == a[k]);
            } else if k == a.len() {
                assert(w[k] == ' ');
            } else {
                assert(w[k] == lines.last()[k - a.len() - 1]);
            }
        }
    }
}

/// Joining at least one non-blank line yields non-blank text.
proof fn lemma_join_not_blank(lines: Seq<Seq<char>>)
    requires
        lines.len() > 0,
        forall|i: int| 0 <= i < lines.len() ==> !is_blank(#[trigger] lines[i]),
    ensures
        !is_blank(join_spaced(lines)),
    decreases lines.len(),
{
    if lines.len() == 1 {
        assert(join_spaced(lines) == lines[0]);
    } else {
        let a = join_spaced(lines.drop_last());
        let w = a + seq![' '] + lines.last();
        assert(!is_blank(lines.last()));
        let k = choose|k: int| 0 <= k < lines.last().len() && !is_space_char(lines.last()[k]);
        assert(w[a.len() + 1 + k] == lines.last()[k]);
        assert(!is_blank(w));
    }
}

/// Normalization is idempotent on its own output: as long as the flat
/// result does not itself open like a header language line, a cue
/// timestamp, or hold a complete `<...>` tag, running the normalizer
/// again returns it unchanged.
#[verifier::rlimit(50)]
pub proof fn lemma_normalize_idempotent(x: Seq<char>)
    requires
        !is_lang_line(normalize_spec(x)),
        !is_timestamp_line(normalize_spec(x)),
        strip_tags(normalize_spec(x)) == normalize_spec(x),
    ensures
        normalize_spec(normalize_spec(x)) == normalize_spec(x),
{
    let y = normalize_spec(x);
    let lines = split_on(x, '\n');
    let body = body_lines(lines);
    let cleaned = clean_lines(body);
    let d = dedup_consecutive(cleaned);

    // the lines of the first run carry no newline into its output
    lemma_split_on_no_sep(x, '\n');
    let m = lemma_body_is_suffix(lines);
    assert forall|j: int| 0 <= j < body.len() implies !(#[trigger] body[j]).contains('\n') by {
        assert(body[j] == lines.skip(m)[j]);
        assert(lines.skip(m)[j] == lines[m + j]);
    }
    lemma_clean_lines_elems(body, '\n');
    lemma_dedup_elems(cleaned);
    assert forall|i: int| 0 <= i < d.len() implies !is_blank(#[trigger] d[i]) && !d[i].contains(
        '\n',
    ) by {
        let j = choose|j: int| 0 <= j < cleaned.len() && d[i] == cleaned[j];
        assert(!is_blank(cleaned[j]) && !cleaned[j].contains('\n'));
    }
    lemma_join_no_char(d, '\n');
    assert(!y.contains('\n'));

    // the second run sees a single line that every stage keeps
    lemma_split_on_absent(y, '\n');
    let ls = seq![y];
    assert(split_on(y, '\n') == ls);
    assert(!has_lang_line(ls)) by {
        if has_lang_line(ls) {
            let i = choose|i: int| 0 <= i < ls.len() && is_lang_line(ls[i]);
            assert(ls[i] == y);
        }
    }
    assert(body_lines(ls) == ls);
    assert(ls.drop_last() =~= Seq::<Seq<char>>::empty());
    assert(clean_lines(Seq::<Seq<char>>::empty()) == Seq::<Seq<char>>::empty());
    assert(clean_lines(ls) =~= Seq::<Seq<char>>::empty() + clean_one(y));
    if d.len() == 0 {
        assert(y == Seq::<char>::empty());
        assert(is_blank(strip_tags(y)));
        assert(clean_one(y) =~= Seq::<Seq<char>>::empty());
        assert(clean_lines(ls) =~= Seq::<Seq<char>>::empty());
        assert(dedup_consecutive(Seq::<Seq<char>>::empty()) == Seq::<Seq<char>>::empty());
        assert(join_spaced(Seq::<Seq<char>>::empty()) == Seq::<char>::empty());
        assert(normalize_spec(y) == y);
    } else {
        lemma_join_not_blank(d);
        assert(!is_blank(y));
        assert(clean_one(y) =~= seq![y]);
        assert(clean_lines(ls) =~= seq![y]);
        assert(seq![y].drop_last() =~= Seq::<Seq<char>>::empty());
        assert(dedup_consecutive(Seq::<Seq<char>>::empty()) == Seq::<Seq<char>>::empty());
        assert(dedup_consecutive(seq![y]) =~= seq![y]);
        assert(join_spaced(seq![y]) == y);
    }
}

} // verus!
