use vstd::prelude::*;

use crate::algn::Algn;
use crate::color::{color_code, Color};
use crate::esc::stripped_of;
use crate::glyph::glyph_chars;
use crate::lines::{max_width, split_lines};
use crate::txt_frame::TextFrame;

verus! {

/// Upper bound on each size control, so that the width and height
/// arithmetic of a render stays within `usize` on any platform.
pub const DIM_MAX: usize = 0x8000;

/// Upper bound on the length of a rendered text block, for the same
/// reason.
pub const TEXT_MAX: usize = 0x100000;

/// `n` copies of `g`, concatenated.
pub open spec fn repeat_seq(g: Seq<char>, n: nat) -> Seq<char>
    decreases n,
{
    if n == 0 {
        Seq::empty()
    } else {
        repeat_seq(g, (n - 1) as nat) + g
    }
}

/// The escape sequence for `c` when color emission is on; nothing
/// otherwise.
pub open spec fn code_if(on: bool, c: Color) -> Seq<char> {
    if on {
        color_code(c)
    } else {
        Seq::empty()
    }
}

/// Horizontal expansion: cells added on each side of every row.
pub open spec fn sum_exp_width(cfg: TextFrame) -> nat {
    (cfg.expand_width + cfg.expand) as nat
}

/// Vertical expansion: blank rows added above and below the content.
pub open spec fn sum_exp_height(cfg: TextFrame) -> nat {
    (cfg.expand + cfg.expand_height) as nat
}

/// Cells between the two vertical border glyphs: the widest line plus
/// the horizontal expansion on both sides, stretched further when the
/// configured minimum total width asks for more.
pub open spec fn inner_width(cfg: TextFrame, natural: nat) -> nat {
    if natural + 2 + 2 * sum_exp_width(cfg) < cfg.width {
        (cfg.width - 2) as nat
    } else {
        natural + 2 * sum_exp_width(cfg)
    }
}

/// Left and right fill counts around a line whose leftover space is
/// `diff`. Subtractions clamp at zero; center alignment biases an odd
/// leftover to the right.
pub open spec fn pads(algn: Algn, sew: nat, diff: nat) -> (nat, nat) {
    match algn {
        Algn::Left => (
            sew,
            if diff >= sew {
                (diff - sew) as nat
            } else {
                0
            },
        ),
        Algn::Centr => (diff / 2, (diff - diff / 2) as nat),
        Algn::Right => (
            if diff >= sew {
                (diff - sew) as nat
            } else {
                0
            },
            sew,
        ),
    }
}

/// The top border row.
pub open spec fn top_row(cfg: TextFrame, inner: nat) -> Seq<char> {
    code_if(cfg.color_use, cfg.color_fra) + glyph_chars(cfg.left_top_cnr) + repeat_seq(
        glyph_chars(cfg.hor_top_line),
        inner,
    ) + glyph_chars(cfg.right_top_cnr) + code_if(cfg.color_use, Color::Default)
}

/// A full-width blank row between the vertical borders.
pub open spec fn blank_row(cfg: TextFrame, inner: nat) -> Seq<char> {
    code_if(cfg.color_use, cfg.color_fra) + glyph_chars(cfg.vert_left_line) + code_if(
        cfg.color_use,
        cfg.color_fill,
    ) + repeat_seq(glyph_chars(cfg.fill), inner) + code_if(cfg.color_use, cfg.color_fra)
        + glyph_chars(cfg.vert_right_line) + code_if(cfg.color_use, Color::Default)
}

/// A content row: one line of the text, aligned between fill runs, of
/// measured visible width `w`.
pub open spec fn content_row(cfg: TextFrame, inner: nat, line: Seq<char>, w: nat) -> Seq<char> {
    let diff = if inner >= w {
        (inner - w) as nat
    } else {
        0
    };
    let p = pads(cfg.algn, sum_exp_width(cfg), diff);
    code_if(cfg.color_use, cfg.color_fra) + glyph_chars(cfg.vert_left_line) + code_if(
        cfg.color_use,
        cfg.color_fill,
    ) + repeat_seq(glyph_chars(cfg.fill), p.0) + code_if(cfg.color_use, cfg.color_txt) + line
        + code_if(cfg.color_use, cfg.color_fill) + repeat_seq(glyph_chars(cfg.fill), p.1)
        + code_if(cfg.color_use, cfg.color_fra) + glyph_chars(cfg.vert_right_line) + code_if(
        cfg.color_use,
        Color::Default,
    )
}

/// The bottom border row.
pub open spec fn btm_row(cfg: TextFrame, inner: nat) -> Seq<char> {
    code_if(cfg.color_use, cfg.color_fra) + glyph_chars(cfg.left_btm_cnr) + repeat_seq(
        glyph_chars(cfg.hor_btm_line),
        inner,
    ) + glyph_chars(cfg.right_btm_cnr) + code_if(cfg.color_use, Color::Default)
}

/// Rows over the minimum height that the natural total leaves to fill:
/// they are appended at the bottom only.
pub open spec fn extra_rows(cfg: TextFrame, count: nat) -> nat {
    let total = 2 * sum_exp_height(cfg) + 2 + count;
    if total < cfg.height {
        (cfg.height - total) as nat
    } else {
        0
    }
}

/// All rows of a frame, top to bottom: the top border, the expansion
/// blank rows, one content row per emitted line, the expansion blank
/// rows again with any rows the minimum height adds, and the bottom
/// border. `emit` are the lines as printed, `widths` their measured
/// visible widths, `count` and `natural` the measured line count and
/// widest line.
pub open spec fn frame_rows_with(
    cfg: TextFrame,
    emit: Seq<Seq<char>>,
    widths: Seq<nat>,
    count: nat,
    natural: nat,
) -> Seq<Seq<char>> {
    let inner = inner_width(cfg, natural);
    let seh = sum_exp_height(cfg);
    seq![top_row(cfg, inner)] + Seq::new(seh, |b: int| blank_row(cfg, inner)) + Seq::new(
        emit.len(),
        |k: int| content_row(cfg, inner, emit[k], widths[k]),
    ) + Seq::new((seh + extra_rows(cfg, count)) as nat, |b: int| blank_row(cfg, inner)) + seq![
        btm_row(cfg, inner),
    ]
}

/// Each printed line's visible width when measured as it stands.
pub open spec fn plain_widths(emit: Seq<Seq<char>>) -> Seq<nat> {
    emit.map_values(|l: Seq<char>| l.len())
}

/// Each printed line's visible width with escape sequences stripped.
pub open spec fn esc_widths(emit: Seq<Seq<char>>) -> Seq<nat> {
    emit.map_values(|l: Seq<char>| stripped_of(l).len())
}

/// The rows of the frame for a text block. With `esc`, widths are
/// measured on the text with escape sequences stripped; the lines are
/// printed as given either way.
pub open spec fn frame_rows(cfg: TextFrame, text: Seq<char>, esc: bool) -> Seq<Seq<char>> {
    let emit = split_lines(text);
    if esc {
        let meas = split_lines(stripped_of(text));
        frame_rows_with(cfg, emit, esc_widths(emit), meas.len(), max_width(meas))
    } else {
        frame_rows_with(cfg, emit, plain_widths(emit), emit.len(), max_width(emit))
    }
}

/// Rows joined with a line feed after every row but the last.
pub open spec fn join_rows(rows: Seq<Seq<char>>) -> Seq<char>
    decreases rows.len(),
{
    if rows.len() == 0 {
        Seq::empty()
    } else if rows.len() == 1 {
        rows[0]
    } else {
        join_rows(rows.drop_last()) + seq!['\n'] + rows.last()
    }
}

/// The rendered frame for one text block: its rows, joined.
pub open spec fn render(cfg: TextFrame, text: Seq<char>, esc: bool) -> Seq<char> {
    join_rows(frame_rows(cfg, text, esc))
}

/// Concatenation of a sequence of fragments.
pub open spec fn concat_seqs(frags: Seq<Seq<char>>) -> Seq<char>
    decreases frags.len(),
{
    if frags.len() == 0 {
        Seq::empty()
    } else {
        concat_seqs(frags.drop_last()) + frags.last()
    }
}

/// The views of `usize` widths.
pub open spec fn nats_of(v: Seq<usize>) -> Seq<nat> {
    v.map_values(|w: usize| w as nat)
}

/// Where each row of a frame stands: the two borders, the blank rows
/// and the content rows, with their exact counts. Blank rows beyond the
/// vertical expansion appear at the bottom only.
pub proof fn lemma_frame_rows_shape(
    cfg: TextFrame,
    emit: Seq<Seq<char>>,
    widths: Seq<nat>,
    count: nat,
    natural: nat,
)
    ensures
        ({
            let rows = frame_rows_with(cfg, emit, widths, count, natural);
            let inner = inner_width(cfg, natural);
            let seh = sum_exp_height(cfg);
            &&& rows.len() == 2 + seh + emit.len() + seh + extra_rows(cfg, count)
            &&& rows[0] == top_row(cfg, inner)
            &&& forall|i: int| 1 <= i < 1 + seh ==> rows[i] == blank_row(cfg, inner)
            &&& forall|i: int|
                1 + seh <= i < 1 + seh + emit.len() ==> rows[i] == content_row(
                    cfg,
                    inner,
                    emit[i - 1 - seh],
                    widths[i - 1 - seh],
                )
            &&& forall|i: int|
                1 + seh + emit.len() <= i < rows.len() - 1 ==> rows[i] == blank_row(cfg, inner)
            &&& rows[rows.len() - 1] == btm_row(cfg, inner)
        }),
{
    let rows = frame_rows_with(cfg, emit, widths, count, natural);
    let inner = inner_width(cfg, natural);
    let seh = sum_exp_height(cfg);
    let s1 = seq![top_row(cfg, inner)];
    let s2 = Seq::new(seh, |b: int| blank_row(cfg, inner));
    let s3 = Seq::new(emit.len(), |k: int| content_row(cfg, inner, emit[k], widths[k]));
    let s4 = Seq::new((seh + extra_rows(cfg, count)) as nat, |b: int| blank_row(cfg, inner));
    let s5 = seq![btm_row(cfg, inner)];
    assert(rows == s1 + s2 + s3 + s4 + s5);
    assert(rows.len() == 1 + seh + emit.len() + (seh + extra_rows(cfg, count)) + 1);
    assert forall|i: int| 1 <= i < 1 + seh implies rows[i] == blank_row(cfg, inner) by {
        assert(rows[i] == s2[i - 1]);
    }
    assert forall|i: int| 1 + seh <= i < 1 + seh + emit.len() implies rows[i] == content_row(
        cfg,
        inner,
        emit[i - 1 - seh],
        widths[i - 1 - seh],
    ) by {
        assert(rows[i] == s3[i - 1 - seh]);
    }
    assert forall|i: int|
        1 + seh + emit.len() <= i < rows.len() - 1 implies rows[i] == blank_row(cfg, inner) by {
        assert(rows[i] == s4[i - 1 - seh - emit.len()]);
    }
    assert(rows[rows.len() - 1] == s5[0]);
}

/// Appending one fragment appends its view to the concatenation.
pub proof fn lemma_concat_push(vs: Seq<String>, x: String)
    ensures
        concat_seqs(crate::lines::views_of(vs.push(x))) == concat_seqs(
            crate::lines::views_of(vs),
        ) + x@,
{
    assert(crate::lines::views_of(vs.push(x)).drop_last() =~= crate::lines::views_of(vs));
    assert(crate::lines::views_of(vs.push(x)).last() == x@);
}

} // verus!
