//! The renderer adapter's string post-processing: the narrow theming
//! substitution (every occurrence of the default foreground token becomes a
//! host-themeable variable reference, nothing else changes), the one-time
//! overshoot rule insertion, and the splice of the overlay fragment before
//! the closing root tag.

use vstd::prelude::*;

use crate::text::{push_all, push_lit};

verus! {

/// The default foreground token the external renderer emits.
pub open spec fn theme_token() -> Seq<char> {
    "#000000"@
}

/// The host-themeable variable reference that replaces it.
pub open spec fn theme_variable() -> Seq<char> {
    "var(--typst-base-color)"@
}

/// The opening-tag text whose first occurrence gains the overshoot rule.
pub open spec fn overshoot_needle() -> Seq<char> {
    "<svg class"@
}

/// The opening tag with the inline rule that prevents clipping of glyph
/// overshoot.
pub open spec fn overshoot_repl() -> Seq<char> {
    "<svg style=\"overflow: visible;\" class"@
}

/// The closing root tag the overlay is spliced before.
pub open spec fn close_tag() -> Seq<char> {
    "</svg>"@
}

/// The style rule fixing overlay text fill to near-zero alpha — 0.004, so
/// the layer stays selectable and copyable yet invisible; full transparency
/// is deliberately avoided, since some renderers exclude fully transparent
/// text from selection.
pub open spec fn overlay_style_rule() -> Seq<char> {
    "<style>svg text { fill: rgba(0, 0, 0, 0.004) !important; }</style>"@
}

/// The themed markup: every default foreground token replaced by the
/// variable reference (and nothing else), then the overshoot rule inserted
/// at the first opening tag only.
pub open spec fn spec_themed(markup: Seq<char>) -> Seq<char> {
    spec_replace_first(
        spec_replace_all(markup, theme_token(), theme_variable()),
        overshoot_needle(),
        overshoot_repl(),
    )
}

/// The finished artifact: the themed markup, with the near-zero-alpha style
/// rule and the overlay fragment spliced immediately before the closing
/// root tag when selection is enabled.
pub open spec fn spec_assemble(markup: Seq<char>, overlay: Seq<char>, enable: bool) -> Seq<char> {
    let themed = spec_themed(markup);
    if enable {
        match spec_find_last(themed, close_tag()) {
            Some(p) => themed.take(p) + overlay_style_rule() + overlay + themed.skip(p),
            None => themed,
        }
    } else {
        themed
    }
}

/// Assemble one render artifact from the external renderer's markup and the
/// overlay fragment.
pub fn assemble_artifact(markup: &Vec<char>, overlay: &Vec<char>, enable_selection: bool) -> (r:
    Vec<char>)
    ensures
        r@ == spec_assemble(markup@, overlay@, enable_selection),
{
    proof {
        reveal_strlit("#000000");
        reveal_strlit("var(--typst-base-color)");
        reveal_strlit("<svg class");
        reveal_strlit("<svg style=\"overflow: visible;\" class");
        reveal_strlit("</svg>");
    }
    let mut token: Vec<char> = Vec::new();
    push_lit(&mut token, "#000000");
    let mut variable: Vec<char> = Vec::new();
    push_lit(&mut variable, "var(--typst-base-color)");
    let mut needle: Vec<char> = Vec::new();
    push_lit(&mut needle, "<svg class");
    let mut repl: Vec<char> = Vec::new();
    push_lit(&mut repl, "<svg style=\"overflow: visible;\" class");
    let mut close: Vec<char> = Vec::new();
    push_lit(&mut close, "</svg>");
    let recolored = replace_all(markup, &token, &variable);
    let themed = replace_first(&recolored, &needle, &repl);
    if enable_selection {
        let mut insertion: Vec<char> = Vec::new();
        push_lit(&mut insertion, "<style>svg text { fill: rgba(0, 0, 0, 0.004) !important; }</style>");
        push_all(&mut insertion, overlay);
        let r = splice_before_last(&themed, &close, &insertion);
        proof {
            reveal_strlit("<style>svg text { fill: rgba(0, 0, 0, 0.004) !important; }</style>");
            match spec_find_last(themed@, close_tag()) {
                Some(p) => {
                    assert(r@ =~= themed@.take(p) + overlay_style_rule() + overlay@
                        + themed@.skip(p));
                },
                None => {},
            }
        }
        r
    } else {
        themed
    }
}

/// `hay` with every non-overlapping occurrence of `needle` replaced by
/// `repl`, scanning left to right; text without an occurrence is unchanged.
pub open spec fn spec_replace_all(hay: Seq<char>, needle: Seq<char>, repl: Seq<char>) -> Seq<char>
    decreases hay.len(),
    when needle.len() > 0
{
    if hay.len() < needle.len() {
        hay
    } else if hay.subrange(0, needle.len() as int) == needle {
        repl + spec_replace_all(hay.skip(needle.len() as int), needle, repl)
    } else {
        seq![hay[0]] + spec_replace_all(hay.skip(1), needle, repl)
    }
}

/// `hay` with only its first occurrence of `needle` replaced by `repl`.
pub open spec fn spec_replace_first(hay: Seq<char>, needle: Seq<char>, repl: Seq<char>) -> Seq<
    char,
>
    decreases hay.len(),
    when needle.len() > 0
{
    if hay.len() < needle.len() {
        hay
    } else if hay.subrange(0, needle.len() as int) == needle {
        repl + hay.skip(needle.len() as int)
    } else {
        seq![hay[0]] + spec_replace_first(hay.skip(1), needle, repl)
    }
}

fn match_at(hay: &Vec<char>, i: usize, needle: &Vec<char>) -> (r: bool)
    requires
        i + needle.len() <= hay.len(),
    ensures
        r <==> hay@.subrange(i as int, i as int + needle@.len() as int) == needle@,
{
    let mut j: usize = 0;
    while j < needle.len()
        invariant
            j <= needle.len(),
            i + needle.len() <= hay.len(),
            forall|k: int| 0 <= k < j ==> hay@[i + k] == needle@[k],
        decreases needle.len() - j,
    {
        if hay[i + j] != needle[j] {
            proof {
                assert(hay@.subrange(i as int, i as int + needle@.len() as int)[j as int]
                    != needle@[j as int]);
            }
            return false;
        }
        j += 1;
    }
    proof {
        assert(hay@.subrange(i as int, i as int + needle@.len() as int) =~= needle@);
    }
    true
}

/// Replace every occurrence of `needle` in `hay` by `repl`.
pub fn replace_all(hay: &Vec<char>, needle: &Vec<char>, repl: &Vec<char>) -> (r: Vec<char>)
    requires
        needle.len() > 0,
    ensures
        r@ == spec_replace_all(hay@, needle@, repl@),
{
    let mut out: Vec<char> = Vec::new();
    let mut i: usize = 0;
    proof {
        assert(hay@.skip(0) =~= hay@);
        assert(Seq::<char>::empty() + spec_replace_all(hay@, needle@, repl@) =~= spec_replace_all(
            hay@,
            needle@,
            repl@,
        ));
    }
    while i < hay.len()
        invariant
            i <= hay.len(),
            needle@.len() > 0,
            out@ + spec_replace_all(hay@.skip(i as int), needle@, repl@) == spec_replace_all(
                hay@,
                needle@,
                repl@,
            ),
        decreases hay.len() - i,
    {
        if needle.len() <= hay.len() - i && match_at(hay, i, needle) {
            push_all(&mut out, repl);
            proof {
                let rem = hay@.skip(i as int);
                assert(rem.subrange(0, needle@.len() as int) =~= hay@.subrange(
                    i as int,
                    i as int + needle@.len() as int,
                ));
                assert(rem.skip(needle@.len() as int) =~= hay@.skip(
                    i as int + needle@.len() as int,
                ));
                assert(spec_replace_all(rem, needle@, repl@) == repl@ + spec_replace_all(
                    hay@.skip(i as int + needle@.len() as int),
                    needle@,
                    repl@,
                ));
            }
            i += needle.len();
        } else {
            out.push(hay[i]);
            proof {
                let rem = hay@.skip(i as int);
                assert(rem[0] == hay@[i as int]);
                assert(rem.skip(1) =~= hay@.skip(i as int + 1));
                if i + needle@.len() <= hay@.len() {
                    assert(rem.subrange(0, needle@.len() as int) =~= hay@.subrange(
                        i as int,
                        i as int + needle@.len() as int,
                    ));
                    assert(spec_replace_all(rem, needle@, repl@) == seq![rem[0]]
                        + spec_replace_all(rem.skip(1), needle@, repl@));
                } else {
                    assert(rem.len() < needle@.len());
                    assert(spec_replace_all(rem, needle@, repl@) == rem);
                    assert(spec_replace_all(rem.skip(1), needle@, repl@) == rem.skip(1));
                    assert(rem =~= seq![rem[0]] + rem.skip(1));
                }
            }
            i += 1;
        }
    }
    proof {
        assert(hay@.skip(hay@.len() as int) =~= Seq::<char>::empty());
        assert(spec_replace_all(hay@.skip(hay@.len() as int), needle@, repl@)
            == Seq::<char>::empty());
        assert(out@ =~= out@ + Seq::<char>::empty());
    }
    out
}

/// Replace the first occurrence of `needle` in `hay` by `repl`.
pub fn replace_first(hay: &Vec<char>, needle: &Vec<char>, repl: &Vec<char>) -> (r: Vec<char>)
    requires
        needle.len() > 0,
    ensures
        r@ == spec_replace_first(hay@, needle@, repl@),
{
    let mut out: Vec<char> = Vec::new();
    let mut i: usize = 0;
    proof {
        assert(hay@.skip(0) =~= hay@);
        assert(hay@.take(0) =~= Seq::<char>::empty());
        assert(Seq::<char>::empty() + spec_replace_first(hay@, needle@, repl@)
            =~= spec_replace_first(hay@, needle@, repl@));
    }
    while i < hay.len()
        invariant
            i <= hay.len(),
            needle@.len() > 0,
            out@ == hay@.take(i as int),
            spec_replace_first(hay@, needle@, repl@) == out@ + spec_replace_first(
                hay@.skip(i as int),
                needle@,
                repl@,
            ),
        decreases hay.len() - i,
    {
        if needle.len() <= hay.len() - i && match_at(hay, i, needle) {
            push_all(&mut out, repl);
            let mut k: usize = i + needle.len();
            while k < hay.len()
                invariant
                    i + needle.len() <= k <= hay.len(),
                    out@ == hay@.take(i as int) + repl@ + hay@.subrange(
                        i as int + needle@.len() as int,
                        k as int,
                    ),
                decreases hay.len() - k,
            {
                out.push(hay[k]);
                proof {
                    assert(out@ =~= hay@.take(i as int) + repl@ + hay@.subrange(
                        i as int + needle@.len() as int,
                        k as int + 1,
                    ));
                }
                k += 1;
            }
            proof {
                let rem = hay@.skip(i as int);
                assert(rem.subrange(0, needle@.len() as int) =~= hay@.subrange(
                    i as int,
                    i as int + needle@.len() as int,
                ));
                assert(spec_replace_first(rem, needle@, repl@) == repl@ + rem.skip(
                    needle@.len() as int,
                ));
                assert(rem.skip(needle@.len() as int) =~= hay@.subrange(
                    i as int + needle@.len() as int,
                    hay@.len() as int,
                ));
                assert(out@ =~= hay@.take(i as int) + (repl@ + rem.skip(needle@.len() as int)));
            }
            return out;
        }
        out.push(hay[i]);
        proof {
            let rem = hay@.skip(i as int);
            assert(out@ =~= hay@.take(i as int + 1));
            assert(rem[0] == hay@[i as int]);
            assert(rem.skip(1) =~= hay@.skip(i as int + 1));
            if i + needle@.len() <= hay@.len() {
                assert(rem.subrange(0, needle@.len() as int) =~= hay@.subrange(
                    i as int,
                    i as int + needle@.len() as int,
                ));
                assert(spec_replace_first(rem, needle@, repl@) == seq![rem[0]]
                    + spec_replace_first(rem.skip(1), needle@, repl@));
            } else {
                assert(rem.len() < needle@.len());
                assert(spec_replace_first(rem, needle@, repl@) == rem);
                assert(spec_replace_first(rem.skip(1), needle@, repl@) == rem.skip(1));
                assert(rem =~= seq![rem[0]] + rem.skip(1));
            }
            assert(hay@.take(i as int) + seq![hay@[i as int]] =~= hay@.take(i as int + 1));
            assert((hay@.take(i as int) + seq![rem[0]]) + spec_replace_first(
                rem.skip(1),
                needle@,
                repl@,
            ) =~= hay@.take(i as int) + (seq![rem[0]] + spec_replace_first(
                rem.skip(1),
                needle@,
                repl@,
            )));
        }
        i += 1;
    }
    proof {
        assert(hay@.skip(hay@.len() as int) =~= Seq::<char>::empty());
        assert(spec_replace_first(hay@.skip(hay@.len() as int), needle@, repl@) == Seq::<
            char,
        >::empty());
        assert(out@ =~= hay@.take(hay@.len() as int));
        assert(out@ =~= out@ + Seq::<char>::empty());
    }
    out
}

/// The start of the last occurrence of `marker` at or below position `p`.
pub open spec fn find_last_from(hay: Seq<char>, marker: Seq<char>, p: int) -> Option<int>
    decreases p + 1,
{
    if p < 0 {
        None
    } else if p + marker.len() <= hay.len() && hay.subrange(p, p + marker.len() as int)
        == marker {
        Some(p)
    } else {
        find_last_from(hay, marker, p - 1)
    }
}

/// The start of the last occurrence of `marker` in `hay`.
pub open spec fn spec_find_last(hay: Seq<char>, marker: Seq<char>) -> Option<int> {
    find_last_from(hay, marker, hay.len() - marker.len())
}

/// Insert `insertion` immediately before the last occurrence of `marker`;
/// text without the marker is returned unchanged.
pub fn splice_before_last(hay: &Vec<char>, marker: &Vec<char>, insertion: &Vec<char>) -> (r: Vec<
    char,
>)
    requires
        marker.len() > 0,
    ensures
        match spec_find_last(hay@, marker@) {
            Some(p) => r@ == hay@.take(p) + insertion@ + hay@.skip(p),
            None => r@ == hay@,
        },
{
    if marker.len() > hay.len() {
        proof {
            assert(hay@.len() - marker@.len() < 0);
            assert(spec_find_last(hay@, marker@) is None);
        }
        let mut out: Vec<char> = Vec::new();
        push_all(&mut out, hay);
        return out;
    }
    let mut j: usize = hay.len() - marker.len() + 1;
    while j > 0
        invariant
            j <= hay.len() - marker.len() + 1,
            marker@.len() > 0,
            spec_find_last(hay@, marker@) == find_last_from(hay@, marker@, j - 1),
        decreases j,
    {
        if match_at(hay, j - 1, marker) {
            proof {
                assert(find_last_from(hay@, marker@, j - 1) == Some(j - 1));
            }
            let mut out: Vec<char> = Vec::new();
            let mut k: usize = 0;
            while k < j - 1
                invariant
                    1 <= j,
                    k <= j - 1 <= hay.len(),
                    out@ == hay@.take(k as int),
                decreases j - k,
            {
                out.push(hay[k]);
                proof {
                    assert(out@ =~= hay@.take(k as int + 1));
                }
                k += 1;
            }
            push_all(&mut out, insertion);
            proof {
                assert(out@ =~= hay@.take(j - 1) + insertion@ + hay@.subrange(j - 1, j - 1));
            }
            let mut m: usize = j - 1;
            while m < hay.len()
                invariant
                    1 <= j,
                    j - 1 <= m <= hay.len(),
                    out@ == hay@.take(j - 1) + insertion@ + hay@.subrange(j - 1, m as int),
                decreases hay.len() - m,
            {
                out.push(hay[m]);
                proof {
                    assert(out@ =~= hay@.take(j - 1) + insertion@ + hay@.subrange(
                        j - 1,
                        m as int + 1,
                    ));
                }
                m += 1;
            }
            proof {
                assert(hay@.subrange(j - 1, hay@.len() as int) =~= hay@.skip(j - 1));
            }
            return out;
        }
        proof {
            assert(find_last_from(hay@, marker@, j - 1) == find_last_from(hay@, marker@, j - 2));
        }
        j -= 1;
    }
    proof {
        assert(find_last_from(hay@, marker@, -1) is None);
    }
    let mut out: Vec<char> = Vec::new();
    push_all(&mut out, hay);
    out
}

} // verus!
