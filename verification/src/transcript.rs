//! Where the pipeline's files live: the output path derived from the
//! source locator's video identifier, and the caption file name derived
//! from what the downloader prints.

use vstd::prelude::*;
use vstd::string::*;

use crate::chars::{is_space_char, space_char, spec_starts_with, split_on, split_str, str_starts_with};
use crate::error::Error;
use crate::urls::{locator_query, url_query, url_well_formed};

verus! {

/// Directory that holds the caption files and the derived articles.
pub const OUTPUT_DIR: &'static str = "./transcripts";

/// A query piece that carries the video identifier: exactly `v`, or
/// `v=` followed by the identifier.
pub open spec fn is_v_piece(p: Seq<char>) -> bool {
    p == "v"@ || spec_starts_with(p, "v="@)
}

/// The identifier a `v` piece carries.
pub open spec fn v_piece_value(p: Seq<char>) -> Seq<char> {
    if p == "v"@ {
        Seq::<char>::empty()
    } else {
        p.skip("v="@.len() as int)
    }
}

/// The value of the first `v` parameter among the pieces, if any.
pub open spec fn v_in_pieces(ps: Seq<Seq<char>>) -> Option<Seq<char>>
    decreases ps.len(),
{
    if ps.len() == 0 {
        None
    } else if is_v_piece(ps[0]) {
        Some(v_piece_value(ps[0]))
    } else {
        v_in_pieces(ps.drop_first())
    }
}

/// The value of the `v` parameter in a raw query string.
pub open spec fn v_param(q: Seq<char>) -> Option<Seq<char>> {
    v_in_pieces(split_on(q, '&'))
}

/// When the first `v` piece stands at `i`, it decides the parameter.
proof fn lemma_v_found(ps: Seq<Seq<char>>, i: int)
    requires
        0 <= i < ps.len(),
        is_v_piece(ps[i]),
        forall|k: int| 0 <= k < i ==> !is_v_piece(ps[k]),
    ensures
        v_in_pieces(ps) == Some(v_piece_value(ps[i])),
    decreases i,
{
    if i > 0 {
        let rest = ps.drop_first();
        assert(rest[i - 1] == ps[i]);
        assert(forall|k: int| 0 <= k < i - 1 ==> !is_v_piece(rest[k]));
        lemma_v_found(rest, i - 1);
    }
}

/// Without a `v` piece there is no parameter.
proof fn lemma_v_absent(ps: Seq<Seq<char>>)
    requires
        forall|k: int| 0 <= k < ps.len() ==> !is_v_piece(ps[k]),
    ensures
        v_in_pieces(ps) is None,
    decreases ps.len(),
{
    if ps.len() > 0 {
        let rest = ps.drop_first();
        assert(forall|k: int| 0 <= k < rest.len() ==> rest[k] == ps[k + 1]);
        lemma_v_absent(rest);
    }
}

/// Executable form of [`v_param`].
fn v_param_exec(q: &str) -> (r: Option<String>)
    ensures
        match r {
            Some(v) => v_param(q@) matches Some(t) && v@ == t,
            None => v_param(q@) is None,
        },
{
    proof {
        reveal_strlit("v");
        reveal_strlit("v=");
    }
    let pieces = split_str(q, '&');
    let n = pieces.len();
    let mut i: usize = 0;
    while i < n
        invariant
            i <= n,
            n == pieces@.len(),
            pieces.deep_view() == split_on(q@, '&'),
            forall|k: int| 0 <= k < i ==> !is_v_piece(pieces.deep_view()[k]),
        decreases n - i,
    {
        proof {
            reveal_strlit("v");
            reveal_strlit("v=");
        }
        let p: &str = pieces[i].as_str();
        let len = p.unicode_len();
        if len == 1 && p.get_char(0) == 'v' {
            proof {
                assert(p@ =~= "v"@);
                lemma_v_found(pieces.deep_view(), i as int);
            }
            return Some(String::new());
        }
        if str_starts_with(p, "v=") {
            let v = p.substring_char(2, len);
            proof {
                assert(p@ != "v"@);
                assert(v@ =~= p@.skip(2));
                lemma_v_found(pieces.deep_view(), i as int);
            }
            return Some(v.to_owned());
        }
        proof {
            assert(!is_v_piece(pieces.deep_view()[i as int]));
        }
        i += 1;
    }
    proof {
        lemma_v_absent(pieces.deep_view());
    }
    None
}

/// The identifier the output path is named after: the locator's `v`
/// parameter, or `default` when the query or the parameter is absent.
pub open spec fn video_id_spec(q: Option<Seq<char>>) -> Seq<char> {
    match q {
        None => "default"@,
        Some(qs) => match v_param(qs) {
            Some(v) => v,
            None => "default"@,
        },
    }
}

/// The output path the article of a locator is written to.
pub open spec fn article_path_spec(locator: Seq<char>) -> Seq<char> {
    "./transcripts/"@ + video_id_spec(url_query(locator)) + ".md"@
}

/// Derives the output file path for a source locator: its `v` query
/// parameter names the file, a missing parameter degrades to `default`,
/// and a locator that is no URL at all is rejected.
pub fn derive_path(locator: &str) -> (r: Result<String, Error>)
    ensures
        url_well_formed(locator@) ==> (r matches Ok(p) && p@ == article_path_spec(locator@)),
        !url_well_formed(locator@) ==> r == Err::<String, Error>(Error::InvalidLocator),
{
    match locator_query(locator) {
        None => Err(Error::InvalidLocator),
        Some(query) => {
            let id: String = match query {
                None => "default".to_owned(),
                Some(qs) => match v_param_exec(qs.as_str()) {
                    Some(v) => v,
                    None => "default".to_owned(),
                },
            };
            let mut out = "./transcripts/".to_owned();
            out.append(id.as_str());
            out.append(".md");
            Ok(out)
        },
    }
}

/// A character `trim_end` removes.
pub open spec fn is_trim_char(c: char) -> bool {
    is_space_char(c) || c == '\n'
}

/// The printed name with trailing whitespace removed.
pub open spec fn trim_trailing(s: Seq<char>) -> Seq<char>
    decreases s.len(),
{
    if s.len() > 0 && is_trim_char(s.last()) {
        trim_trailing(s.drop_last())
    } else {
        s
    }
}

/// The index of the dot that begins the final component's extension, or
/// `-1` when that component has none. A dot that begins the component
/// itself marks a hidden file, not an extension.
pub open spec fn ext_dot_at(s: Seq<char>) -> int
    decreases s.len(),
{
    if s.len() == 0 {
        -1
    } else if s.last() == '/' {
        -1
    } else if s.last() == '.' {
        if s.len() >= 2 && s[s.len() - 2] != '/' {
            s.len() - 1
        } else {
            -1
        }
    } else {
        ext_dot_at(s.drop_last())
    }
}

/// The path with its extension set to `en.vtt`: the stem of the final
/// component, then `.en.vtt`.
pub open spec fn with_vtt_ext(s: Seq<char>) -> Seq<char> {
    let d = ext_dot_at(s);
    (if d >= 0 {
        s.take(d)
    } else {
        s
    }) + ".en.vtt"@
}

/// The caption file the downloader leaves behind for the name it prints.
pub open spec fn subtitle_path_spec(printed: Seq<char>) -> Seq<char> {
    with_vtt_ext(trim_trailing(printed))
}

/// Trailing trim characters and the first kept character pin the trim.
proof fn lemma_trim_trailing(s: Seq<char>, e: int)
    requires
        0 <= e <= s.len(),
        forall|k: int| e <= k < s.len() ==> is_trim_char(s[k]),
        e > 0 ==> !is_trim_char(s[e - 1]),
    ensures
        trim_trailing(s) == s.take(e),
    decreases s.len(),
{
    if s.len() == e {
        assert(s.take(e) =~= s);
        if e > 0 {
            assert(s.last() == s[e - 1]);
        }
    } else {
        assert(is_trim_char(s.last()));
        assert(forall|k: int| 0 <= k < s.drop_last().len() ==> s.drop_last()[k] == s[k]);
        lemma_trim_trailing(s.drop_last(), e);
        assert(s.drop_last().take(e) =~= s.take(e));
    }
}

/// Executable form of [`subtitle_path_spec`]: where the caption
/// downloader will have written the English WebVTT track, given the file
/// name it printed.
pub fn subtitle_path(printed: &str) -> (r: String)
    ensures
        r@ == subtitle_path_spec(printed@),
{
    let n = printed.unicode_len();
    let mut e: usize = n;
    let mut kept: bool = false;
    while e > 0 && !kept
        invariant
            e <= n,
            n == printed@.len(),
            forall|k: int| e <= k < n ==> is_trim_char(printed@[k]),
            kept ==> e > 0 && !is_trim_char(printed@[e - 1]),
        decreases e + if kept {
            0int
        } else {
            1int
        },
    {
        let c = printed.get_char(e - 1);
        if space_char(c) || c == '\n' {
            e -= 1;
        } else {
            kept = true;
        }
    }
    proof {
        lemma_trim_trailing(printed@, e as int);
    }
    let ghost t = printed@.take(e as int);

    // scan the trimmed name backwards for the extension dot
    let mut k: usize = e;
    let mut dot: usize = 0;
    let mut has_dot: bool = false;
    let mut scanning: bool = true;
    proof {
        assert(t.take(e as int) =~= t);
    }
    while scanning && k > 0
        invariant
            k <= e <= n,
            n == printed@.len(),
            t == printed@.take(e as int),
            scanning ==> !has_dot && ext_dot_at(t) == ext_dot_at(t.take(k as int)),
            !scanning ==> (if has_dot {
                ext_dot_at(t) == dot && dot < e
            } else {
                ext_dot_at(t) == -1
            }),
        decreases k + if scanning {
            1int
        } else {
            0int
        },
    {
        let c = printed.get_char(k - 1);
        proof {
            assert(t.take(k as int).last() == printed@[k - 1]);
        }
        if c == '/' {
            scanning = false;
            proof {
                assert(ext_dot_at(t.take(k as int)) == -1);
            }
        } else if c == '.' {
            if k >= 2 && printed.get_char(k - 2) != '/' {
                proof {
                    assert(t.take(k as int)[k - 2] == printed@[k - 2]);
                    assert(ext_dot_at(t.take(k as int)) == k - 1);
                }
                dot = k - 1;
                has_dot = true;
            } else {
                proof {
                    if k >= 2 {
                        assert(t.take(k as int)[k - 2] == printed@[k - 2]);
                    }
                    assert(ext_dot_at(t.take(k as int)) == -1);
                }
            }
            scanning = false;
        } else {
            proof {
                assert(t.take(k as int).drop_last() =~= t.take(k - 1));
            }
            k -= 1;
        }
    }
    proof {
        if scanning {
            assert(t.take(0) =~= Seq::<char>::empty());
            assert(ext_dot_at(t) == -1);
        }
    }
    let stem_end: usize = if has_dot {
        dot
    } else {
        e
    };
    let stem = printed.substring_char(0, stem_end);
    let mut out = stem.to_owned();
    out.append(".en.vtt");
    proof {
        assert(stem@ =~= t.take(stem_end as int));
        if has_dot {
            assert(t.take(stem_end as int) =~= t.take(ext_dot_at(t)));
        } else {
            assert(t.take(stem_end as int) =~= t);
        }
    }
    out
}

} // verus!
