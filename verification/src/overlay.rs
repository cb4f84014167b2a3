//! The selectable-text overlay generator: a depth-first walk of the frame
//! tree that emits one invisible text element per text run, geometrically
//! coincident with the rendered glyph outlines. Groups nest an emitted
//! matrix; by `transform::lemma_group_factor` and
//! `transform::lemma_chain_is_product`, the anchor of any glyph under a
//! chain of nested groups equals the direct matrix product of the same
//! ordered factors.

use vstd::prelude::*;

use crate::escape::{escape_chars, push_escaped};
use crate::numfmt::{push_fixed3, spec_fixed3};
use crate::text::push_lit;
use crate::transform::{Transform, SCALE};

verus! {

broadcast use {vstd::std_specs::vec::group_vec_axioms, vstd::seq::group_seq_axioms};

/// Coordinate bound, in millipoints: every stored coordinate of a
/// well-formed frame lies within it, so pen sums over a run cannot overflow.
pub const COORD_LIMIT: i64 = 0x4000_0000;

/// Bound on the glyphs of one run.
pub const GLYPH_LIMIT: usize = 0x10000;

/// One glyph of a text run: offsets and advances resolved to millipoints at
/// the run's font size, and the source text the glyph covers.
pub struct Glyph {
    pub x_offset: i64,
    pub y_offset: i64,
    pub x_advance: i64,
    pub y_advance: i64,
    pub text: Vec<char>,
}

/// One text run: font size in millipoints and its glyphs in order.
pub struct TextRun {
    pub size: i64,
    pub glyphs: Vec<Glyph>,
}

/// A positioned item of a frame.
pub enum FrameItem {
    Group(Group),
    Text(TextRun),
    Other,
}

/// A nested group: its own transform and its child frame.
pub struct Group {
    pub transform: Transform,
    pub frame: Frame,
}

/// An item at a position within its frame.
pub struct Placed {
    pub x: i64,
    pub y: i64,
    pub item: FrameItem,
}

/// A frame: positioned items in paint order.
pub struct Frame {
    pub items: Vec<Placed>,
}

pub open spec fn in_bounds(v: i64) -> bool {
    -COORD_LIMIT <= v <= COORD_LIMIT
}

pub open spec fn wf_glyph(g: Glyph) -> bool {
    in_bounds(g.x_offset) && in_bounds(g.y_offset) && in_bounds(g.x_advance) && in_bounds(
        g.y_advance,
    )
}

pub open spec fn wf_run(r: TextRun) -> bool {
    &&& 0 <= r.size <= COORD_LIMIT
    &&& r.glyphs.len() <= GLYPH_LIMIT
    &&& forall|i: int| 0 <= i < r.glyphs.len() ==> wf_glyph(#[trigger] r.glyphs[i])
}

pub open spec fn wf_transform(t: Transform) -> bool {
    in_bounds(t.sx) && in_bounds(t.ky) && in_bounds(t.kx) && in_bounds(t.sy) && in_bounds(t.tx)
        && in_bounds(t.ty)
}

pub open spec fn wf_placed(p: Placed) -> bool
    decreases p,
{
    &&& in_bounds(p.x)
    &&& in_bounds(p.y)
    &&& match p.item {
        FrameItem::Group(g) => wf_transform(g.transform) && wf_frame(g.frame),
        FrameItem::Text(r) => wf_run(r),
        FrameItem::Other => true,
    }
}

pub open spec fn wf_frame(f: Frame) -> bool
    decreases f,
{
    forall|i: int| 0 <= i < f.items.len() ==> wf_placed(#[trigger] f.items@[i])
}

/// The opening group element carrying a matrix: entries in milliunits and
/// millipoints, each printed with three decimals.
pub open spec fn matrix_open(sx: int, ky: int, kx: int, sy: int, tx: int, ty: int) -> Seq<char> {
    "<g transform=\"matrix("@ + spec_fixed3(sx) + ","@ + spec_fixed3(ky) + ","@ + spec_fixed3(kx)
        + ","@ + spec_fixed3(sy) + ","@ + spec_fixed3(tx) + ","@ + spec_fixed3(ty) + ")\">"@
}

/// A glyph sub-span at its anchor, with a forced visual length equal to the
/// advance when the advance exceeds the negligible threshold of one
/// millipoint, and with position only otherwise.
#[verifier::opaque]
pub open spec fn tspan_markup(gx: int, gy: int, adv: int, text: Seq<char>) -> Seq<char> {
    if adv > 1 {
        "<tspan x=\""@ + spec_fixed3(gx) + "\" y=\""@ + spec_fixed3(gy)
            + "\" dx=\"0\" textLength=\""@ + spec_fixed3(adv)
            + "\" lengthAdjust=\"spacingAndGlyphs\" style=\"user-select: all\">"@ + escape_chars(
            text,
        ) + "</tspan>"@
    } else {
        "<tspan x=\""@ + spec_fixed3(gx) + "\" y=\""@ + spec_fixed3(gy)
            + "\" dx=\"0\" style=\"user-select: all\">"@ + escape_chars(text) + "</tspan>"@
    }
}

/// A glyph whose advance is at or below the threshold never carries a forced
/// length, and one above it always does, equal to its advance: the two
/// branches of `tspan_markup`, pinned input by input.
pub proof fn lemma_advance_length(gx: int, gy: int, adv: int, text: Seq<char>)
    ensures
        adv <= 1 ==> tspan_markup(gx, gy, adv, text) == "<tspan x=\""@ + spec_fixed3(gx)
            + "\" y=\""@ + spec_fixed3(gy) + "\" dx=\"0\" style=\"user-select: all\">"@
            + escape_chars(text) + "</tspan>"@,
        adv > 1 ==> tspan_markup(gx, gy, adv, text) == "<tspan x=\""@ + spec_fixed3(gx)
            + "\" y=\""@ + spec_fixed3(gy) + "\" dx=\"0\" textLength=\""@ + spec_fixed3(adv)
            + "\" lengthAdjust=\"spacingAndGlyphs\" style=\"user-select: all\">"@ + escape_chars(
            text,
        ) + "</tspan>"@,
{
    reveal(tspan_markup);
}

/// The glyphs of a run from index `i` on, with the pen at `(pen_x, pen_y)`:
/// each glyph is anchored at pen plus its offsets, then the pen advances.
pub open spec fn glyphs_markup(glyphs: Seq<Glyph>, i: int, pen_x: int, pen_y: int) -> Seq<char>
    decreases glyphs.len() - i,
{
    if i < 0 || i >= glyphs.len() {
        Seq::empty()
    } else {
        let g = glyphs[i];
        tspan_markup(pen_x + g.x_offset, pen_y + g.y_offset, g.x_advance as int, g.text@)
            + glyphs_markup(glyphs, i + 1, pen_x + g.x_advance, pen_y + g.y_advance)
    }
}

/// A whole text run: one text element holding all its glyph sub-spans.
pub open spec fn run_markup(r: TextRun) -> Seq<char> {
    "<text fill=\"transparent\" font-size=\""@ + spec_fixed3(r.size as int)
        + "pt\" style=\"font-variant-ligatures: none\" dominant-baseline=\"alphabetic\">"@
        + glyphs_markup(r.glyphs@, 0, 0, 0) + "</text>"@
}

/// The overlay fragment for the items of a frame from index `i` on.
pub open spec fn items_markup(items: Seq<Placed>, i: int) -> Seq<char>
    decreases items, items.len() - i,
{
    if i < 0 || i >= items.len() {
        Seq::empty()
    } else {
        placed_markup(items[i]) + items_markup(items, i + 1)
    }
}

/// The overlay fragment for one positioned item: a group nests its matrix
/// (the group transform with the position folded in), a text run is wrapped
/// in `translate(position)` composed with the vertical flip, anything else
/// is ignored.
pub open spec fn placed_markup(p: Placed) -> Seq<char>
    decreases p,
{
    match p.item {
        FrameItem::Group(g) => matrix_open(
            g.transform.sx as int,
            g.transform.ky as int,
            g.transform.kx as int,
            g.transform.sy as int,
            g.transform.tx + p.x,
            g.transform.ty + p.y,
        ) + frame_markup(g.frame) + "</g>"@,
        FrameItem::Text(r) => matrix_open(
            SCALE as int,
            0,
            0,
            -(SCALE as int),
            p.x as int,
            p.y as int,
        ) + run_markup(r) + "</g>"@,
        FrameItem::Other => Seq::empty(),
    }
}

/// The overlay fragment for a whole frame.
pub open spec fn frame_markup(f: Frame) -> Seq<char>
    decreases f,
{
    items_markup(f.items@, 0)
}

fn push_matrix_open(out: &mut Vec<char>, sx: i64, ky: i64, kx: i64, sy: i64, tx: i64, ty: i64)
    requires
        sx != i64::MIN,
        ky != i64::MIN,
        kx != i64::MIN,
        sy != i64::MIN,
        tx != i64::MIN,
        ty != i64::MIN,
    ensures
        final(out)@ == old(out)@ + matrix_open(
            sx as int,
            ky as int,
            kx as int,
            sy as int,
            tx as int,
            ty as int,
        ),
{
    let ghost base = out@;
    push_lit(out, "<g transform=\"matrix(");
    push_fixed3(out, sx);
    push_lit(out, ",");
    push_fixed3(out, ky);
    push_lit(out, ",");
    push_fixed3(out, kx);
    push_lit(out, ",");
    push_fixed3(out, sy);
    push_lit(out, ",");
    push_fixed3(out, tx);
    push_lit(out, ",");
    push_fixed3(out, ty);
    push_lit(out, ")\">");
    proof {
        assert(out@ =~= base + matrix_open(
            sx as int,
            ky as int,
            kx as int,
            sy as int,
            tx as int,
            ty as int,
        ));
    }
}

proof fn lemma_pen_step(pen: int, off: int, i: int) by (nonlinear_arith)
    requires
        -0x4000_0000 * i <= pen <= 0x4000_0000 * i,
        -0x4000_0000 <= off <= 0x4000_0000,
        0 <= i,
        i + 1 <= 0x10000,
    ensures
        -0x4000_0000 * (i + 1) <= pen + off <= 0x4000_0000 * (i + 1),
        -0x5000_0000_0000 <= pen + off <= 0x5000_0000_0000,
{
}

fn push_tspan(out: &mut Vec<char>, gx: i64, gy: i64, adv: i64, text: &Vec<char>)
    requires
        gx != i64::MIN,
        gy != i64::MIN,
        adv != i64::MIN,
    ensures
        final(out)@ == old(out)@ + tspan_markup(gx as int, gy as int, adv as int, text@),
{
    let ghost base = out@;
    push_lit(out, "<tspan x=\"");
    push_fixed3(out, gx);
    push_lit(out, "\" y=\"");
    push_fixed3(out, gy);
    if adv > 1 {
        push_lit(out, "\" dx=\"0\" textLength=\"");
        push_fixed3(out, adv);
        push_lit(out, "\" lengthAdjust=\"spacingAndGlyphs\" style=\"user-select: all\">");
    } else {
        push_lit(out, "\" dx=\"0\" style=\"user-select: all\">");
    }
    push_escaped(out, text);
    push_lit(out, "</tspan>");
    proof {
        reveal(tspan_markup);
        assert(out@ =~= base + tspan_markup(gx as int, gy as int, adv as int, text@));
    }
}

/// One text element for a whole run, every glyph in it so that selection
/// crosses glyph boundaries.
#[verifier::rlimit(100)]
pub fn render_text_item(out: &mut Vec<char>, run: &TextRun)
    requires
        wf_run(*run),
    ensures
        final(out)@ == old(out)@ + run_markup(*run),
{
    let ghost base = out@;
    push_lit(out, "<text fill=\"transparent\" font-size=\"");
    push_fixed3(out, run.size);
    push_lit(out, "pt\" style=\"font-variant-ligatures: none\" dominant-baseline=\"alphabetic\">");
    let ghost head = "<text fill=\"transparent\" font-size=\""@ + spec_fixed3(run.size as int)
        + "pt\" style=\"font-variant-ligatures: none\" dominant-baseline=\"alphabetic\">"@;
    proof {
        assert(out@ =~= base + head);
    }
    let mut pen_x: i64 = 0;
    let mut pen_y: i64 = 0;
    let mut i: usize = 0;
    while i < run.glyphs.len()
        invariant
            wf_run(*run),
            i <= run.glyphs.len(),
            -0x4000_0000 * (i as int) <= pen_x <= 0x4000_0000 * (i as int),
            -0x4000_0000 * (i as int) <= pen_y <= 0x4000_0000 * (i as int),
            i <= GLYPH_LIMIT,
            out@ + glyphs_markup(run.glyphs@, i as int, pen_x as int, pen_y as int) == base + head
                + glyphs_markup(run.glyphs@, 0, 0, 0),
        decreases run.glyphs.len() - i,
    {
        let g = &run.glyphs[i];
        proof {
            assert(COORD_LIMIT == 0x4000_0000);
            assert(GLYPH_LIMIT == 0x10000);
            assert(wf_glyph(run.glyphs@[i as int]));
            lemma_pen_step(pen_x as int, run.glyphs@[i as int].x_offset as int, i as int);
            lemma_pen_step(pen_y as int, run.glyphs@[i as int].y_offset as int, i as int);
            lemma_pen_step(pen_x as int, run.glyphs@[i as int].x_advance as int, i as int);
            lemma_pen_step(pen_y as int, run.glyphs@[i as int].y_advance as int, i as int);
        }
        let gx = pen_x + g.x_offset;
        let gy = pen_y + g.y_offset;
        let adv = g.x_advance;
        let ghost pre = out@;
        push_tspan(out, gx, gy, adv, &g.text);
        proof {
            assert(glyphs_markup(run.glyphs@, i as int, pen_x as int, pen_y as int)
                == tspan_markup(gx as int, gy as int, adv as int, run.glyphs@[i as int].text@)
                + glyphs_markup(
                run.glyphs@,
                i as int + 1,
                pen_x as int + adv as int,
                pen_y as int + run.glyphs@[i as int].y_advance as int,
            ));
            assert(out@ + glyphs_markup(
                run.glyphs@,
                i as int + 1,
                pen_x as int + adv as int,
                pen_y as int + run.glyphs@[i as int].y_advance as int,
            ) =~= base + head + glyphs_markup(run.glyphs@, 0, 0, 0));
        }
        pen_x = pen_x + adv;
        pen_y = pen_y + g.y_advance;
        i += 1;
    }
    push_lit(out, "</text>");
    proof {
        assert(glyphs_markup(run.glyphs@, run.glyphs@.len() as int, pen_x as int, pen_y as int)
            =~= Seq::<char>::empty());
        assert(out@ =~= base + run_markup(*run));
    }
}

/// Walk one frame, appending the overlay fragments of its items in order.
#[verifier::rlimit(100)]
pub fn render_frame(out: &mut Vec<char>, frame: &Frame)
    requires
        wf_frame(*frame),
    ensures
        final(out)@ == old(out)@ + frame_markup(*frame),
    decreases *frame,
{
    let ghost base = out@;
    let mut i: usize = 0;
    while i < frame.items.len()
        invariant
            wf_frame(*frame),
            i <= frame.items.len(),
            out@ + items_markup(frame.items@, i as int) == base + items_markup(frame.items@, 0),
        decreases frame.items.len() - i,
    {
        let ghost pre = out@;
        proof {
            assert(wf_placed(frame.items@[i as int]));
        }
        match &frame.items[i].item {
            FrameItem::Group(g) => {
                let px = frame.items[i].x;
                let py = frame.items[i].y;
                push_matrix_open(
                    out,
                    g.transform.sx,
                    g.transform.ky,
                    g.transform.kx,
                    g.transform.sy,
                    g.transform.tx + px,
                    g.transform.ty + py,
                );
                render_frame(out, &g.frame);
                push_lit(out, "</g>");
                proof {
                    assert(out@ =~= pre + placed_markup(frame.items@[i as int]));
                }
            },
            FrameItem::Text(r) => {
                let px = frame.items[i].x;
                let py = frame.items[i].y;
                push_matrix_open(out, SCALE, 0, 0, -SCALE, px, py);
                render_text_item(out, r);
                push_lit(out, "</g>");
                proof {
                    assert(out@ =~= pre + placed_markup(frame.items@[i as int]));
                }
            },
            FrameItem::Other => {
                proof {
                    assert(placed_markup(frame.items@[i as int]) =~= Seq::<char>::empty());
                    assert(out@ =~= pre + placed_markup(frame.items@[i as int]));
                }
            },
        }
        proof {
            assert(items_markup(frame.items@, i as int) == placed_markup(frame.items@[i as int])
                + items_markup(frame.items@, i as int + 1));
            assert(out@ + items_markup(frame.items@, i as int + 1) =~= base + items_markup(
                frame.items@,
                0,
            ));
        }
        i += 1;
    }
    proof {
        assert(items_markup(frame.items@, frame.items@.len() as int) =~= Seq::<char>::empty());
        assert(out@ =~= base + frame_markup(*frame));
    }
}

/// The invisible, selectable text layer for a whole frame tree.
pub fn generate_text_layer_for_frame(frame: &Frame) -> (r: Vec<char>)
    requires
        wf_frame(*frame),
    ensures
        r@ == frame_markup(*frame),
{
    let mut buffer: Vec<char> = Vec::new();
    render_frame(&mut buffer, frame);
    buffer
}

} // verus!
