use vstd::prelude::*;

use crate::algn::Algn;
use crate::color::{color_code, Color};
use crate::glyph::glyph_chars;
use crate::lines::{chop_cr, free_of, lemma_split_lines_nl_free, split_lines};
use crate::lines::{lemma_split_lines_free_of, lemma_split_lines_step, lemma_split_lines_whole};
use crate::render::{blank_row, btm_row, content_row, frame_rows};
use crate::render::{code_if, inner_width, join_rows, lemma_frame_rows_shape, pads, plain_widths};
use crate::render::{render, repeat_seq, sum_exp_height, sum_exp_width, top_row};
use crate::txt_frame::TextFrame;

verus! {

/// Holds no escape character.
pub open spec fn esc_free(s: Seq<char>) -> bool {
    free_of(s, '\u{1b}')
}

/// Freedom of a character is closed under concatenation.
proof fn lemma_free_of_add(a: Seq<char>, b: Seq<char>, c: char)
    requires
        free_of(a, c),
        free_of(b, c),
    ensures
        free_of(a + b, c),
{
    assert forall|i: int| 0 <= i < (a + b).len() implies (a + b)[i] != c by {
        if i < a.len() {
            assert((a + b)[i] == a[i]);
        } else {
            assert((a + b)[i] == b[i - a.len()]);
        }
    }
}

/// A repetition of a glyph free of a character stays free of it.
proof fn lemma_free_of_repeat(g: Seq<char>, n: nat, c: char)
    requires
        free_of(g, c),
    ensures
        free_of(repeat_seq(g, n), c),
    decreases n,
{
    if n > 0 {
        lemma_free_of_repeat(g, (n - 1) as nat, c);
        lemma_free_of_add(repeat_seq(g, (n - 1) as nat), g, c);
    }
}

/// Rows all free of a character other than the line feed join to an
/// output free of it.
proof fn lemma_join_free_of(rows: Seq<Seq<char>>, c: char)
    requires
        c != '\n',
        forall|k: int| 0 <= k < rows.len() ==> free_of(#[trigger] rows[k], c),
    ensures
        free_of(join_rows(rows), c),
    decreases rows.len(),
{
    if rows.len() > 1 {
        lemma_join_free_of(rows.drop_last(), c);
        lemma_free_of_add(join_rows(rows.drop_last()), seq!['\n'], c);
        lemma_free_of_add(join_rows(rows.drop_last()) + seq!['\n'], rows.last(), c);
    }
}

/// The nine glyphs of a configuration, all escape-free.
pub open spec fn glyphs_esc_free(cfg: TextFrame) -> bool {
    &&& esc_free(glyph_chars(cfg.left_top_cnr))
    &&& esc_free(glyph_chars(cfg.hor_top_line))
    &&& esc_free(glyph_chars(cfg.right_top_cnr))
    &&& esc_free(glyph_chars(cfg.vert_left_line))
    &&& esc_free(glyph_chars(cfg.vert_right_line))
    &&& esc_free(glyph_chars(cfg.left_btm_cnr))
    &&& esc_free(glyph_chars(cfg.hor_btm_line))
    &&& esc_free(glyph_chars(cfg.right_btm_cnr))
    &&& esc_free(glyph_chars(cfg.fill))
}

/// With color emission off, rendering introduces no escape character:
/// when the text and the glyphs hold none, the output holds none, in
/// both measurement modes.
pub proof fn lemma_render_esc_free(cfg: TextFrame, text: Seq<char>, esc: bool)
    requires
        !cfg.color_use,
        esc_free(text),
        glyphs_esc_free(cfg),
    ensures
        esc_free(render(cfg, text, esc)),
{
    let rows = frame_rows(cfg, text, esc);
    let emit = split_lines(text);
    let widths = if esc {
        crate::render::esc_widths(emit)
    } else {
        plain_widths(emit)
    };
    let count = if esc {
        split_lines(crate::esc::stripped_of(text)).len()
    } else {
        emit.len()
    };
    let natural = if esc {
        crate::lines::max_width(split_lines(crate::esc::stripped_of(text)))
    } else {
        crate::lines::max_width(emit)
    };
    let inner = inner_width(cfg, natural);
    lemma_frame_rows_shape(cfg, emit, widths, count, natural);
    lemma_split_lines_free_of(text, '\u{1b}');
    lemma_free_of_repeat(glyph_chars(cfg.hor_top_line), inner, '\u{1b}');
    lemma_free_of_repeat(glyph_chars(cfg.hor_btm_line), inner, '\u{1b}');
    lemma_free_of_repeat(glyph_chars(cfg.fill), inner, '\u{1b}');
    assert(esc_free(top_row(cfg, inner)));
    assert(esc_free(btm_row(cfg, inner)));
    assert(esc_free(blank_row(cfg, inner)));
    assert forall|k: int| 0 <= k < rows.len() implies esc_free(#[trigger] rows[k]) by {
        let seh = sum_exp_height(cfg) as int;
        if 1 + seh <= k < 1 + seh + emit.len() {
            let line = emit[k - 1 - seh];
            let w = widths[k - 1 - seh];
            let diff = if inner >= w {
                (inner - w) as nat
            } else {
                0
            };
            let p = pads(cfg.algn, sum_exp_width(cfg), diff);
            lemma_free_of_repeat(glyph_chars(cfg.fill), p.0, '\u{1b}');
            lemma_free_of_repeat(glyph_chars(cfg.fill), p.1, '\u{1b}');
            assert(esc_free(line));
            assert(esc_free(content_row(cfg, inner, line, w)));
        }
    }
    lemma_join_free_of(rows, '\u{1b}');
}

/// The joined rows begin with the first row.
proof fn lemma_join_starts(rows: Seq<Seq<char>>)
    requires
        rows.len() >= 1,
    ensures
        join_rows(rows).len() >= rows[0].len(),
        join_rows(rows).subrange(0, rows[0].len() as int) == rows[0],
    decreases rows.len(),
{
    if rows.len() == 1 {
        assert(join_rows(rows).subrange(0, rows[0].len() as int) =~= rows[0]);
    } else {
        lemma_join_starts(rows.drop_last());
        assert(rows.drop_last()[0] == rows[0]);
        assert(join_rows(rows).subrange(0, rows[0].len() as int) =~= join_rows(
            rows.drop_last(),
        ).subrange(0, rows[0].len() as int));
    }
}

/// The joined rows end with the last row.
proof fn lemma_join_ends(rows: Seq<Seq<char>>)
    requires
        rows.len() >= 1,
    ensures
        join_rows(rows).len() >= rows.last().len(),
        join_rows(rows).subrange(
            join_rows(rows).len() - rows.last().len(),
            join_rows(rows).len() as int,
        ) == rows.last(),
{
    assert(join_rows(rows).subrange(
        join_rows(rows).len() - rows.last().len(),
        join_rows(rows).len() as int,
    ) =~= rows.last());
}

/// With color emission on, the output is bracketed by color codes: it
/// begins with the frame color's escape sequence and ends with the
/// reset sequence, whatever the palette choices are. With every color
/// left at `Default`, both are the reset sequence itself.
pub proof fn lemma_color_bracketed(cfg: TextFrame, text: Seq<char>, esc: bool)
    requires
        cfg.color_use,
    ensures
        ({
            let out = render(cfg, text, esc);
            let fra = color_code(cfg.color_fra);
            let reset = color_code(Color::Default);
            &&& out.len() >= fra.len()
            &&& out.subrange(0, fra.len() as int) == fra
            &&& out.len() >= reset.len()
            &&& out.subrange(out.len() - reset.len(), out.len() as int) == reset
        }),
{
    let emit = split_lines(text);
    let widths = if esc {
        crate::render::esc_widths(emit)
    } else {
        plain_widths(emit)
    };
    let count = if esc {
        split_lines(crate::esc::stripped_of(text)).len()
    } else {
        emit.len()
    };
    let natural = if esc {
        crate::lines::max_width(split_lines(crate::esc::stripped_of(text)))
    } else {
        crate::lines::max_width(emit)
    };
    let rows = frame_rows(cfg, text, esc);
    let inner = inner_width(cfg, natural);
    let fra = color_code(cfg.color_fra);
    let reset = color_code(Color::Default);
    lemma_frame_rows_shape(cfg, emit, widths, count, natural);
    lemma_join_starts(rows);
    lemma_join_ends(rows);
    let out = render(cfg, text, esc);
    assert(rows[0] == top_row(cfg, inner));
    assert(rows.last() == btm_row(cfg, inner));
    assert(top_row(cfg, inner).subrange(0, fra.len() as int) =~= fra);
    assert(btm_row(cfg, inner).subrange(
        btm_row(cfg, inner).len() - reset.len(),
        btm_row(cfg, inner).len() as int,
    ) =~= reset);
    assert(out.subrange(0, fra.len() as int) =~= top_row(cfg, inner).subrange(
        0,
        fra.len() as int,
    ));
    assert(out.subrange(out.len() - reset.len(), out.len() as int) =~= btm_row(
        cfg,
        inner,
    ).subrange(btm_row(cfg, inner).len() - reset.len(), btm_row(cfg, inner).len() as int));
}

/// With every size control at zero, color emission off and empty text,
/// the output is exactly the four corner glyphs in two rows.
pub proof fn lemma_minimal_frame(cfg: TextFrame)
    requires
        cfg.width == 0,
        cfg.height == 0,
        cfg.expand == 0,
        cfg.expand_width == 0,
        cfg.expand_height == 0,
        !cfg.color_use,
    ensures
        render(cfg, Seq::empty(), false) == glyph_chars(cfg.left_top_cnr) + glyph_chars(
            cfg.right_top_cnr,
        ) + seq!['\n'] + glyph_chars(cfg.left_btm_cnr) + glyph_chars(cfg.right_btm_cnr),
{
    let rows = frame_rows(cfg, Seq::empty(), false);
    let emit = split_lines(Seq::<char>::empty());
    assert(emit =~= Seq::<Seq<char>>::empty());
    lemma_frame_rows_shape(cfg, emit, plain_widths(emit), 0, 0);
    assert(rows.len() == 2);
    assert(rows =~= seq![top_row(cfg, 0), btm_row(cfg, 0)]);
    assert(rows.drop_last() =~= seq![top_row(cfg, 0)]);
    assert(join_rows(seq![top_row(cfg, 0)]) == top_row(cfg, 0));
    assert(join_rows(rows) == join_rows(rows.drop_last()) + seq!['\n'] + rows.last());
    assert(join_rows(rows) == top_row(cfg, 0) + seq!['\n'] + btm_row(cfg, 0));
    assert(top_row(cfg, 0) =~= glyph_chars(cfg.left_top_cnr) + glyph_chars(cfg.right_top_cnr));
    assert(btm_row(cfg, 0) =~= glyph_chars(cfg.left_btm_cnr) + glyph_chars(cfg.right_btm_cnr));
    assert(top_row(cfg, 0) + seq!['\n'] + btm_row(cfg, 0) =~= glyph_chars(cfg.left_top_cnr)
        + glyph_chars(cfg.right_top_cnr) + seq!['\n'] + glyph_chars(cfg.left_btm_cnr)
        + glyph_chars(cfg.right_btm_cnr));
}

/// With expansion `n`, every other size control zero, and empty text,
/// the frame has exactly `2 + 2n` rows, and every interior row is a
/// blank row with `2n` fill cells between the vertical edges.
pub proof fn lemma_expand_rows(cfg: TextFrame)
    requires
        cfg.width == 0,
        cfg.height == 0,
        cfg.expand_width == 0,
        cfg.expand_height == 0,
    ensures
        frame_rows(cfg, Seq::empty(), false).len() == 2 + 2 * cfg.expand,
        inner_width(cfg, 0) == 2 * cfg.expand,
        forall|i: int|
            1 <= i < 1 + 2 * cfg.expand ==> frame_rows(cfg, Seq::empty(), false)[i] == blank_row(
                cfg,
                (2 * cfg.expand) as nat,
            ),
{
    let emit = split_lines(Seq::<char>::empty());
    assert(emit =~= Seq::<Seq<char>>::empty());
    lemma_frame_rows_shape(cfg, emit, plain_widths(emit), 0, 0);
}

/// A minimum height over the natural row total pads at the bottom
/// only: the row count is the larger of the two, while the rows above
/// the content stay exactly the expansion rows.
pub proof fn lemma_height_bottom_padding(cfg: TextFrame, text: Seq<char>)
    ensures
        ({
            let rows = frame_rows(cfg, text, false);
            let seh = sum_exp_height(cfg);
            let count = split_lines(text).len();
            let total = 2 * seh + 2 + count;
            &&& rows.len() == if cfg.height > total {
                cfg.height as int
            } else {
                total as int
            }
            &&& forall|i: int|
                1 <= i < 1 + seh ==> rows[i] == blank_row(
                    cfg,
                    inner_width(cfg, crate::lines::max_width(split_lines(text))),
                )
            &&& forall|i: int|
                1 + seh <= i < 1 + seh + count ==> rows[i] == content_row(
                    cfg,
                    inner_width(cfg, crate::lines::max_width(split_lines(text))),
                    split_lines(text)[i - 1 - seh],
                    plain_widths(split_lines(text))[i - 1 - seh],
                )
        }),
{
    let emit = split_lines(text);
    lemma_frame_rows_shape(
        cfg,
        emit,
        plain_widths(emit),
        emit.len(),
        crate::lines::max_width(emit),
    );
}

/// Center alignment splits leftover space with the odd cell on the
/// right: the two pads sum to the leftover, the left one is never the
/// larger, and they differ exactly by the leftover's parity.
pub proof fn lemma_center_pads(sew: nat, diff: nat)
    ensures
        pads(Algn::Centr, sew, diff).0 + pads(Algn::Centr, sew, diff).1 == diff,
        pads(Algn::Centr, sew, diff).0 <= pads(Algn::Centr, sew, diff).1,
        pads(Algn::Centr, sew, diff).1 - pads(Algn::Centr, sew, diff).0 == diff % 2,
{
}

/// A row that splitting the output must give back whole: nonempty, no
/// line feed inside, and no carriage return at its end.
pub open spec fn row_ok(r: Seq<char>) -> bool {
    &&& r.len() > 0
    &&& free_of(r, '\n')
    &&& r[r.len() - 1] != '\r'
}

/// A glyph that keeps rows splittable: at least one character, none of
/// them a line feed or carriage return.
pub open spec fn line_safe(g: Seq<char>) -> bool {
    &&& g.len() > 0
    &&& free_of(g, '\n')
    &&& free_of(g, '\r')
}

/// The nine glyphs of a configuration, all line-safe.
pub open spec fn line_safe_glyphs(cfg: TextFrame) -> bool {
    &&& line_safe(glyph_chars(cfg.left_top_cnr))
    &&& line_safe(glyph_chars(cfg.hor_top_line))
    &&& line_safe(glyph_chars(cfg.right_top_cnr))
    &&& line_safe(glyph_chars(cfg.vert_left_line))
    &&& line_safe(glyph_chars(cfg.vert_right_line))
    &&& line_safe(glyph_chars(cfg.left_btm_cnr))
    &&& line_safe(glyph_chars(cfg.hor_btm_line))
    &&& line_safe(glyph_chars(cfg.right_btm_cnr))
    &&& line_safe(glyph_chars(cfg.fill))
}

/// Every color escape sequence is line-safe.
proof fn lemma_color_code_line_safe(c: Color)
    ensures
        line_safe(color_code(c)),
{
    reveal_strlit("\u{1b}[30m");
    reveal_strlit("\u{1b}[31m");
    reveal_strlit("\u{1b}[32m");
    reveal_strlit("\u{1b}[33m");
    reveal_strlit("\u{1b}[34m");
    reveal_strlit("\u{1b}[35m");
    reveal_strlit("\u{1b}[36m");
    reveal_strlit("\u{1b}[37m");
    reveal_strlit("\u{1b}[0m");
}

/// The last element of a concatenation whose right part is nonempty.
proof fn lemma_last_of_add(a: Seq<char>, b: Seq<char>)
    requires
        b.len() > 0,
    ensures
        (a + b).len() > 0,
        (a + b)[(a + b).len() - 1] == b[b.len() - 1],
{
}

/// The border and blank rows of a line-safe configuration are whole
/// rows to the splitter.
proof fn lemma_fixed_rows_ok(cfg: TextFrame, inner: nat)
    requires
        line_safe_glyphs(cfg),
    ensures
        row_ok(top_row(cfg, inner)),
        row_ok(btm_row(cfg, inner)),
        row_ok(blank_row(cfg, inner)),
{
    lemma_color_code_line_safe(cfg.color_fra);
    lemma_color_code_line_safe(cfg.color_fill);
    lemma_color_code_line_safe(Color::Default);
    lemma_free_of_repeat(glyph_chars(cfg.hor_top_line), inner, '\n');
    lemma_free_of_repeat(glyph_chars(cfg.hor_btm_line), inner, '\n');
    lemma_free_of_repeat(glyph_chars(cfg.fill), inner, '\n');
    let e = code_if(cfg.color_use, Color::Default);
    if cfg.color_use {
        lemma_last_of_add(
            code_if(cfg.color_use, cfg.color_fra) + glyph_chars(cfg.left_top_cnr) + repeat_seq(
                glyph_chars(cfg.hor_top_line),
                inner,
            ) + glyph_chars(cfg.right_top_cnr),
            e,
        );
        lemma_last_of_add(
            code_if(cfg.color_use, cfg.color_fra) + glyph_chars(cfg.left_btm_cnr) + repeat_seq(
                glyph_chars(cfg.hor_btm_line),
                inner,
            ) + glyph_chars(cfg.right_btm_cnr),
            e,
        );
        lemma_last_of_add(
            code_if(cfg.color_use, cfg.color_fra) + glyph_chars(cfg.vert_left_line) + code_if(
                cfg.color_use,
                cfg.color_fill,
            ) + repeat_seq(glyph_chars(cfg.fill), inner) + code_if(cfg.color_use, cfg.color_fra)
                + glyph_chars(cfg.vert_right_line),
            e,
        );
    } else {
        lemma_last_of_add(
            code_if(cfg.color_use, cfg.color_fra) + glyph_chars(cfg.left_top_cnr) + repeat_seq(
                glyph_chars(cfg.hor_top_line),
                inner,
            ),
            glyph_chars(cfg.right_top_cnr),
        );
        lemma_last_of_add(
            code_if(cfg.color_use, cfg.color_fra) + glyph_chars(cfg.left_btm_cnr) + repeat_seq(
                glyph_chars(cfg.hor_btm_line),
                inner,
            ),
            glyph_chars(cfg.right_btm_cnr),
        );
        lemma_last_of_add(
            code_if(cfg.color_use, cfg.color_fra) + glyph_chars(cfg.vert_left_line) + code_if(
                cfg.color_use,
                cfg.color_fill,
            ) + repeat_seq(glyph_chars(cfg.fill), inner) + code_if(cfg.color_use, cfg.color_fra),
            glyph_chars(cfg.vert_right_line),
        );
    }
}

/// A content row of a line-safe configuration and a line-feed-free
/// line is a whole row to the splitter.
#[verifier::rlimit(100)]
proof fn lemma_content_row_ok(cfg: TextFrame, inner: nat, line: Seq<char>, w: nat)
    requires
        line_safe_glyphs(cfg),
        free_of(line, '\n'),
    ensures
        row_ok(content_row(cfg, inner, line, w)),
{
    lemma_color_code_line_safe(cfg.color_fra);
    lemma_color_code_line_safe(cfg.color_txt);
    lemma_color_code_line_safe(cfg.color_fill);
    lemma_color_code_line_safe(Color::Default);
    let diff = if inner >= w {
        (inner - w) as nat
    } else {
        0
    };
    let p = pads(cfg.algn, sum_exp_width(cfg), diff);
    lemma_free_of_repeat(glyph_chars(cfg.fill), p.0, '\n');
    lemma_free_of_repeat(glyph_chars(cfg.fill), p.1, '\n');
    let e = code_if(cfg.color_use, Color::Default);
    let front = code_if(cfg.color_use, cfg.color_fra) + glyph_chars(cfg.vert_left_line) + code_if(
        cfg.color_use,
        cfg.color_fill,
    ) + repeat_seq(glyph_chars(cfg.fill), p.0) + code_if(cfg.color_use, cfg.color_txt) + line
        + code_if(cfg.color_use, cfg.color_fill) + repeat_seq(glyph_chars(cfg.fill), p.1)
        + code_if(cfg.color_use, cfg.color_fra);
    if cfg.color_use {
        lemma_last_of_add(front + glyph_chars(cfg.vert_right_line), e);
    } else {
        lemma_last_of_add(front, glyph_chars(cfg.vert_right_line));
    }
}

/// Dropping the first row of at least two joins the rest after the
/// first row and one line feed.
proof fn lemma_join_front(rows: Seq<Seq<char>>)
    requires
        rows.len() >= 2,
    ensures
        join_rows(rows) == rows[0] + seq!['\n'] + join_rows(rows.subrange(1, rows.len() as int)),
    decreases rows.len(),
{
    let rest = rows.subrange(1, rows.len() as int);
    if rows.len() == 2 {
        assert(rows.drop_last() =~= seq![rows[0]]);
        assert(join_rows(seq![rows[0]]) == rows[0]);
        assert(rest =~= seq![rows[1]]);
        assert(join_rows(seq![rows[1]]) == rows[1]);
    } else {
        let front = rows.drop_last();
        lemma_join_front(front);
        assert(front[0] == rows[0]);
        assert(rest.drop_last() =~= front.subrange(1, front.len() as int));
        assert(join_rows(rest) == join_rows(rest.drop_last()) + seq!['\n'] + rest.last());
        assert(rest.last() == rows.last());
        assert((rows[0] + seq!['\n'] + join_rows(rest.drop_last())) + seq!['\n'] + rows.last()
            =~= rows[0] + seq!['\n'] + (join_rows(rest.drop_last()) + seq!['\n'] + rows.last()));
    }
}

/// Splitting the joined rows gives the rows back, when each is whole
/// to the splitter.
proof fn lemma_join_splits_back(rows: Seq<Seq<char>>)
    requires
        rows.len() > 0,
        forall|k: int| 0 <= k < rows.len() ==> row_ok(#[trigger] rows[k]),
    ensures
        split_lines(join_rows(rows)) == rows,
    decreases rows.len(),
{
    if rows.len() == 1 {
        lemma_split_lines_whole(rows[0]);
        assert(seq![rows[0]] =~= rows);
    } else {
        let r0 = rows[0];
        let rest = rows.subrange(1, rows.len() as int);
        lemma_join_front(rows);
        lemma_join_splits_back(rest);
        let j = join_rows(rows);
        assert(j == r0 + seq!['\n'] + join_rows(rest));
        assert forall|i: int| 0 <= i < r0.len() implies j[i] != '\n' by {
            assert(j[i] == r0[i]);
        }
        assert(j[r0.len() as int] == '\n');
        lemma_split_lines_step(j, r0.len() as int);
        assert(j.subrange(0, r0.len() as int) =~= r0);
        assert(chop_cr(r0) == r0);
        assert(j.subrange(r0.len() as int + 1, j.len() as int) =~= join_rows(rest));
        assert(seq![r0] + split_lines(join_rows(rest)) =~= rows);
    }
}

/// The output splits back into exactly the frame's rows, so the number
/// of output lines is the row count: the configured minimum height
/// when it exceeds the natural total, and the natural total otherwise.
pub proof fn lemma_output_lines(cfg: TextFrame, text: Seq<char>)
    requires
        line_safe_glyphs(cfg),
    ensures
        split_lines(render(cfg, text, false)) == frame_rows(cfg, text, false),
        ({
            let total = 2 * sum_exp_height(cfg) + 2 + split_lines(text).len();
            split_lines(render(cfg, text, false)).len() == if cfg.height > total {
                cfg.height as int
            } else {
                total as int
            }
        }),
{
    let emit = split_lines(text);
    let rows = frame_rows(cfg, text, false);
    let inner = inner_width(cfg, crate::lines::max_width(emit));
    lemma_frame_rows_shape(cfg, emit, plain_widths(emit), emit.len(), crate::lines::max_width(emit));
    lemma_fixed_rows_ok(cfg, inner);
    lemma_split_lines_nl_free(text);
    assert forall|k: int| 0 <= k < rows.len() implies row_ok(#[trigger] rows[k]) by {
        let seh = sum_exp_height(cfg) as int;
        if 1 + seh <= k < 1 + seh + emit.len() {
            lemma_content_row_ok(
                cfg,
                inner,
                emit[k - 1 - seh],
                plain_widths(emit)[k - 1 - seh],
            );
        }
    }
    lemma_join_splits_back(rows);
}

} // verus!
