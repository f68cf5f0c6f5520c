//! Row and frame composition.
//!
//! A row is rendered left to right; a color directive is emitted only
//! when it changes the color already active, so runs of equally colored
//! cells cost one directive. A frame prefixes every row with an absolute
//! cursor move, computes the rows on a parallel worker pool, joins them
//! in row order and closes with a color reset.

use crate::color::Rgb;
use crate::directive::{directives_to_text, push_directive, text_matches, Directive,
    lemma_text_matches_concat, lemma_text_matches_empty, lemma_text_matches_push};
use crate::kernel::FractalVariant;
use crate::sampler::{cell_pixel, spec_cell_mask, spec_pixel, Pixel};
use crate::viewport::Viewport;
use rayon::iter::{IndexedParallelIterator, IntoParallelIterator, ParallelIterator};
use vstd::prelude::*;

verus! {

/// The directives one cell appends, given the colors already active:
/// a foreground change when needed, a background change when the cell
/// has one and it differs, then the glyph.
pub open spec fn spec_cell_dirs(p: Pixel, last_fg: Option<Rgb>, last_bg: Option<Rgb>) -> Seq<
    Directive,
> {
    (if last_fg != Some(p.foreground) {
        seq![Directive::SetForeground(p.foreground)]
    } else {
        Seq::<Directive>::empty()
    }) + (match p.background {
        Option::Some(b) => {
            if last_bg != Some(b) {
                seq![Directive::SetBackground(b)]
            } else {
                Seq::<Directive>::empty()
            }
        },
        Option::None => Seq::<Directive>::empty(),
    }) + seq![Directive::Glyph(p.character)]
}

/// The background that is active after a cell: a drawn background
/// stays active, a cell without one leaves it untouched.
pub open spec fn spec_next_bg(p: Pixel, last_bg: Option<Rgb>) -> Option<Rgb> {
    match p.background {
        Option::Some(b) => Some(b),
        Option::None => last_bg,
    }
}

/// Directives of the first `n` cells of row `py`, together with the
/// colors active after them; a row starts with no active colors.
pub open spec fn spec_row_state(
    py: int,
    w: int,
    h: int,
    vp: Viewport,
    cap: nat,
    v: FractalVariant,
    n: int,
) -> (Seq<Directive>, Option<Rgb>, Option<Rgb>)
    decreases n,
{
    if n <= 0 {
        (Seq::<Directive>::empty(), Option::<Rgb>::None, Option::<Rgb>::None)
    } else {
        let prev = spec_row_state(py, w, h, vp, cap, v, n - 1);
        let p = spec_pixel(n - 1, py, w, h, vp, cap, v);
        (prev.0 + spec_cell_dirs(p, prev.1, prev.2), Some(p.foreground), spec_next_bg(p, prev.2))
    }
}

/// All directives of row `py`.
pub open spec fn spec_row_dirs(
    py: int,
    w: int,
    h: int,
    vp: Viewport,
    cap: nat,
    v: FractalVariant,
) -> Seq<Directive> {
    spec_row_state(py, w, h, vp, cap, v, w).0
}

/// A row never moves the cursor: its directives are colors and glyphs.
proof fn lemma_row_dirs_no_cursor(
    py: int,
    w: int,
    h: int,
    vp: Viewport,
    cap: nat,
    v: FractalVariant,
    n: int,
)
    ensures
        forall|i: int|
            0 <= i < spec_row_state(py, w, h, vp, cap, v, n).0.len() ==> !(#[trigger] spec_row_state(
                py,
                w,
                h,
                vp,
                cap,
                v,
                n,
            ).0[i] is CursorTo),
    decreases n,
{
    if n > 0 {
        lemma_row_dirs_no_cursor(py, w, h, vp, cap, v, n - 1);
    }
}

/// Every glyph a row emits comes from the 16-entry glyph table.
proof fn lemma_row_glyphs(
    py: int,
    w: int,
    h: int,
    vp: Viewport,
    cap: nat,
    v: FractalVariant,
    n: int,
)
    ensures
        forall|i: int|
            0 <= i < spec_row_state(py, w, h, vp, cap, v, n).0.len() ==> ((#[trigger] spec_row_state(
                py,
                w,
                h,
                vp,
                cap,
                v,
                n,
            ).0[i]) matches Directive::Glyph(c) ==> crate::glyph::is_block_glyph(c)),
    decreases n,
{
    if n > 0 {
        lemma_row_glyphs(py, w, h, vp, cap, v, n - 1);
        crate::glyph::lemma_glyph_total(spec_cell_mask(n - 1, py, w, h, vp, cap, v));
        assert(spec_pixel(n - 1, py, w, h, vp, cap, v).character == crate::glyph::spec_glyph(
            spec_cell_mask(n - 1, py, w, h, vp, cap, v)));
    }
}

/// Every glyph a frame emits, whatever the viewport, cap and variant,
/// comes from the 16-entry glyph table.
pub proof fn lemma_frame_glyphs_in_table(w: int, h: int, vp: Viewport, cap: nat, v: FractalVariant)
    ensures
        forall|i: int|
            0 <= i < spec_frame_dirs(w, h, vp, cap, v).len() ==> ((#[trigger] spec_frame_dirs(
                w,
                h,
                vp,
                cap,
                v,
            )[i]) matches Directive::Glyph(c) ==> crate::glyph::is_block_glyph(c)),
{
    lemma_frame_rows_glyphs(w, h, vp, cap, v, h);
}

/// Induction step of the frame-wide glyph statement, over row prefixes.
proof fn lemma_frame_rows_glyphs(
    w: int,
    h: int,
    vp: Viewport,
    cap: nat,
    v: FractalVariant,
    n: int,
)
    ensures
        forall|i: int|
            0 <= i < spec_frame_rows(w, h, vp, cap, v, n).len() ==> ((#[trigger] spec_frame_rows(
                w,
                h,
                vp,
                cap,
                v,
                n,
            )[i]) matches Directive::Glyph(c) ==> crate::glyph::is_block_glyph(c)),
    decreases n,
{
    if n > 0 {
        lemma_frame_rows_glyphs(w, h, vp, cap, v, n - 1);
        lemma_row_glyphs(n - 1, w, h, vp, cap, v, w);
    }
}

/// Compute the directives of one row.
#[verifier::rlimit(100)]
pub fn row_directives(
    py: u16,
    width: u16,
    height: u16,
    vp: &Viewport,
    cap: u32,
    v: FractalVariant,
) -> (ds: Vec<Directive>)
    requires
        vp.wf(),
        py < height,
        cap >= 1,
    ensures
        ds@ == spec_row_dirs(py as int, width as int, height as int, *vp, cap as nat, v),
{
    let mut ds: Vec<Directive> = Vec::new();
    let mut last_fg: Option<Rgb> = None;
    let mut last_bg: Option<Rgb> = None;
    proof {
        assert(ds@ =~= spec_row_state(py as int, width as int, height as int, *vp, cap as nat,
            v, 0).0);
    }
    for px in 0..width
        invariant
            vp.wf(),
            py < height,
            cap >= 1,
            ds@ == spec_row_state(py as int, width as int, height as int, *vp, cap as nat, v,
                px as int).0,
            last_fg == spec_row_state(py as int, width as int, height as int, *vp, cap as nat,
                v, px as int).1,
            last_bg == spec_row_state(py as int, width as int, height as int, *vp, cap as nat,
                v, px as int).2,
    {
        let ghost st = spec_row_state(py as int, width as int, height as int, *vp, cap as nat,
            v, px as int);
        let p = cell_pixel(px, py, width, height, vp, cap, v);
        let emit_fg = match last_fg {
            None => true,
            Some(c) => !(c == p.foreground),
        };
        if emit_fg {
            ds.push(Directive::SetForeground(p.foreground));
            last_fg = Some(p.foreground);
        }
        match p.background {
            Some(b) => {
                let emit_bg = match last_bg {
                    None => true,
                    Some(c) => !(c == b),
                };
                if emit_bg {
                    ds.push(Directive::SetBackground(b));
                    last_bg = Some(b);
                }
            },
            None => {},
        }
        ds.push(Directive::Glyph(p.character));
        proof {
            assert(ds@ =~= st.0 + spec_cell_dirs(p, st.1, st.2));
            assert(spec_row_state(py as int, width as int, height as int, *vp, cap as nat, v,
                px + 1).0 == st.0 + spec_cell_dirs(p, st.1, st.2));
        }
    }
    ds
}

/// Render one row into terminal text.
pub fn render_row(
    py: u16,
    width: u16,
    height: u16,
    vp: &Viewport,
    cap: u32,
    v: FractalVariant,
) -> (out: String)
    requires
        vp.wf(),
        py < height,
        cap >= 1,
    ensures
        text_matches(out@, spec_row_dirs(py as int, width as int, height as int, *vp,
            cap as nat, v)),
{
    let ds = row_directives(py, width, height, vp, cap, v);
    proof {
        lemma_row_dirs_no_cursor(py as int, width as int, height as int, *vp, cap as nat, v,
            width as int);
    }
    directives_to_text(&ds)
}

/// Directives of the first `n` rows of a frame: each row is prefixed
/// with a cursor move to its start.
pub open spec fn spec_frame_rows(
    w: int,
    h: int,
    vp: Viewport,
    cap: nat,
    v: FractalVariant,
    n: int,
) -> Seq<Directive>
    decreases n,
{
    if n <= 0 {
        Seq::<Directive>::empty()
    } else {
        spec_frame_rows(w, h, vp, cap, v, n - 1) + seq![Directive::CursorTo(0, (n - 1) as u16)]
            + spec_row_dirs(n - 1, w, h, vp, cap, v)
    }
}

/// All directives of a frame: the rows in order, then a color reset.
pub open spec fn spec_frame_dirs(
    w: int,
    h: int,
    vp: Viewport,
    cap: nat,
    v: FractalVariant,
) -> Seq<Directive> {
    spec_frame_rows(w, h, vp, cap, v, h) + seq![Directive::Reset]
}

/// Relies on rayon's indexed parallel iterator: `into_par_iter` over a
/// range, `map`, and `collect` into a `Vec` yield exactly the closure's
/// results, one per index, in index order; the closure itself only
/// calls the verified row renderer.
#[verifier::external_body]
fn par_row_texts(
    width: u16,
    height: u16,
    vp: &Viewport,
    cap: u32,
    v: FractalVariant,
) -> (rows: Vec<String>)
    requires
        vp.wf(),
        cap >= 1,
    ensures
        rows@.len() == height as int,
        forall|y: int|
            0 <= y < height as int ==> text_matches(#[trigger] rows@[y]@, spec_row_dirs(y,
                width as int, height as int, *vp, cap as nat, v)),
{
    (0..height).into_par_iter().map(|py| render_row(py, width, height, vp, cap, v)).collect()
}

/// Render a whole frame into one buffer of terminal text.
pub fn render_frame(
    width: u16,
    height: u16,
    vp: &Viewport,
    cap: u32,
    v: FractalVariant,
) -> (out: String)
    requires
        vp.wf(),
        cap >= 1,
    ensures
        text_matches(out@, spec_frame_dirs(width as int, height as int, *vp, cap as nat, v)),
{
    let rows = par_row_texts(width, height, vp, cap, v);
    let mut out = String::new();
    proof {
        lemma_text_matches_empty();
        assert(out@ =~= Seq::<char>::empty());
        assert(spec_frame_rows(width as int, height as int, *vp, cap as nat, v, 0) =~= Seq::<
            Directive,
        >::empty());
    }
    for y in 0..height
        invariant
            rows@.len() == height as int,
            forall|j: int|
                0 <= j < height as int ==> text_matches(#[trigger] rows@[j]@, spec_row_dirs(j,
                    width as int, height as int, *vp, cap as nat, v)),
            text_matches(out@, spec_frame_rows(width as int, height as int, *vp, cap as nat, v,
                y as int)),
    {
        let ghost rows_so_far = spec_frame_rows(width as int, height as int, *vp, cap as nat,
            v, y as int);
        let ghost before = out@;
        push_directive(&mut out, Directive::CursorTo(0, y));
        proof {
            let piece = choose|piece: Seq<char>|
                out@ == before + piece && #[trigger] crate::directive::dir_matches(
                    Directive::CursorTo(0, y),
                    piece,
                );
            lemma_text_matches_push(before, rows_so_far, piece, Directive::CursorTo(0, y));
        }
        let ghost mid = out@;
        let row = &rows[y as usize];
        out.append(row.as_str());
        proof {
            lemma_text_matches_concat(
                mid,
                rows_so_far.push(Directive::CursorTo(0, y)),
                rows@[y as int]@,
                spec_row_dirs(y as int, width as int, height as int, *vp, cap as nat, v),
            );
            assert(spec_frame_rows(width as int, height as int, *vp, cap as nat, v, y + 1)
                =~= rows_so_far.push(Directive::CursorTo(0, y)) + spec_row_dirs(y as int,
                width as int, height as int, *vp, cap as nat, v));
        }
    }
    let ghost before_reset = out@;
    push_directive(&mut out, Directive::Reset);
    proof {
        let piece = choose|piece: Seq<char>|
            out@ == before_reset + piece && #[trigger] crate::directive::dir_matches(
                Directive::Reset,
                piece,
            );
        lemma_text_matches_push(before_reset, spec_frame_rows(width as int, height as int, *vp,
            cap as nat, v, height as int), piece, Directive::Reset);
        assert(spec_frame_dirs(width as int, height as int, *vp, cap as nat, v)
            =~= spec_frame_rows(width as int, height as int, *vp, cap as nat, v,
            height as int).push(Directive::Reset));
    }
    out
}

} // verus!
