use vstd::prelude::*;

use crate::algn::Algn;
use crate::color::Color;
use crate::esc::stripped_of;
use crate::esc::strip_escapes;
use crate::frame_var::FrameVar;
use crate::glyph::{Glyph, glyph_chars, glyph_from_char, glyph_str};
use crate::lines::{max_line_len, max_width, split_lines, split_text, views_of};
use crate::lines::{lemma_max_width_bound, lemma_split_lines_count, lemma_split_lines_each_le};
use crate::render::{blank_row, btm_row, code_if, concat_seqs, content_row, extra_rows};
use crate::render::{frame_rows_with, inner_width, join_rows, nats_of, pads};
use crate::render::{esc_widths, plain_widths, render, repeat_seq, sum_exp_height, sum_exp_width};
use crate::render::{lemma_concat_push, lemma_frame_rows_shape, top_row, DIM_MAX, TEXT_MAX};
use vstd::string::{StrSliceExecFns, StringExecFns};

verus! {

/// A frame configuration: border glyphs, fill glyph, size controls,
/// text alignment, colors, and whether color escape sequences are
/// emitted at all.
///
/// Built once through the builder methods, then read-only for any
/// number of renders.
#[allow(missing_docs)]
#[derive(Clone)]
pub struct TextFrame {
    pub left_top_cnr: Glyph,
    pub hor_top_line: Glyph,
    pub right_top_cnr: Glyph,
    pub left_btm_cnr: Glyph,
    pub vert_left_line: Glyph,
    pub vert_right_line: Glyph,
    pub hor_btm_line: Glyph,
    pub right_btm_cnr: Glyph,
    pub fill: Glyph,
    pub width: usize,
    pub height: usize,
    pub expand: usize,
    pub expand_width: usize,
    pub expand_height: usize,
    pub algn: Algn,
    pub color_fra: Color,
    pub color_txt: Color,
    pub color_fill: Color,
    pub color_use: bool,
}

impl TextFrame {
    /// The layout fields: everything except the nine glyph strings.
    pub open spec fn layout(self) -> (usize, usize, usize, usize, usize, Algn, Color, Color, Color, bool) {
        (
            self.width,
            self.height,
            self.expand,
            self.expand_width,
            self.expand_height,
            self.algn,
            self.color_fra,
            self.color_txt,
            self.color_fill,
            self.color_use,
        )
    }

    /// Construct a frame configuration with the light box-drawing
    /// border, a space as fill, all size controls at zero, left
    /// alignment, default colors, and color emission enabled.
    pub fn new() -> (r: Self)
        ensures
            glyph_chars(r.left_top_cnr) == seq!['┌'],
            glyph_chars(r.hor_top_line) == seq!['─'],
            glyph_chars(r.right_top_cnr) == seq!['┐'],
            glyph_chars(r.vert_left_line) == seq!['│'],
            glyph_chars(r.vert_right_line) == seq!['│'],
            glyph_chars(r.left_btm_cnr) == seq!['└'],
            glyph_chars(r.hor_btm_line) == seq!['─'],
            glyph_chars(r.right_btm_cnr) == seq!['┘'],
            glyph_chars(r.fill) == seq![' '],
            r.layout() == (
                0usize,
                0usize,
                0usize,
                0usize,
                0usize,
                Algn::Left,
                Color::Default,
                Color::Default,
                Color::Default,
                true,
            ),
    {
        Self {
            left_top_cnr: glyph_from_char('┌'),
            hor_top_line: glyph_from_char('─'),
            right_top_cnr: glyph_from_char('┐'),
            vert_left_line: glyph_from_char('│'),
            vert_right_line: glyph_from_char('│'),
            left_btm_cnr: glyph_from_char('└'),
            hor_btm_line: glyph_from_char('─'),
            right_btm_cnr: glyph_from_char('┘'),
            fill: glyph_from_char(' '),
            width: 0,
            height: 0,
            expand: 0,
            expand_width: 0,
            expand_height: 0,
            algn: Algn::Left,
            color_fra: Color::Default,
            color_txt: Color::Default,
            color_fill: Color::Default,
            color_use: true,
        }
    }

    /// Replace the eight border glyphs with a preset, leaving the fill
    /// glyph and every layout field untouched.
    pub fn frame_var(self, vars: &FrameVar) -> (r: Self)
        ensures
            glyph_chars(r.left_top_cnr) == crate::frame_var::preset_glyphs(*vars).0,
            glyph_chars(r.hor_top_line) == crate::frame_var::preset_glyphs(*vars).1,
            glyph_chars(r.right_top_cnr) == crate::frame_var::preset_glyphs(*vars).2,
            glyph_chars(r.vert_left_line) == crate::frame_var::preset_glyphs(*vars).3,
            glyph_chars(r.vert_right_line) == crate::frame_var::preset_glyphs(*vars).4,
            glyph_chars(r.left_btm_cnr) == crate::frame_var::preset_glyphs(*vars).5,
            glyph_chars(r.hor_btm_line) == crate::frame_var::preset_glyphs(*vars).6,
            glyph_chars(r.right_btm_cnr) == crate::frame_var::preset_glyphs(*vars).7,
            r.fill == self.fill,
            r.layout() == self.layout(),
    {
        match vars {
            FrameVar::Space => Self {
                left_top_cnr: glyph_from_char(' '),
                hor_top_line: glyph_from_char(' '),
                right_top_cnr: glyph_from_char(' '),
                vert_left_line: glyph_from_char(' '),
                vert_right_line: glyph_from_char(' '),
                left_btm_cnr: glyph_from_char(' '),
                hor_btm_line: glyph_from_char(' '),
                right_btm_cnr: glyph_from_char(' '),
                ..self
            },
            FrameVar::Double => Self {
                left_top_cnr: glyph_from_char('╔'),
                hor_top_line: glyph_from_char('═'),
                right_top_cnr: glyph_from_char('╗'),
                vert_left_line: glyph_from_char('║'),
                vert_right_line: glyph_from_char('║'),
                left_btm_cnr: glyph_from_char('╚'),
                hor_btm_line: glyph_from_char('═'),
                right_btm_cnr: glyph_from_char('╝'),
                ..self
            },
            FrameVar::Round => Self {
                left_top_cnr: glyph_from_char('╭'),
                hor_top_line: glyph_from_char('─'),
                right_top_cnr: glyph_from_char('╮'),
                vert_left_line: glyph_from_char('│'),
                vert_right_line: glyph_from_char('│'),
                left_btm_cnr: glyph_from_char('╰'),
                hor_btm_line: glyph_from_char('─'),
                right_btm_cnr: glyph_from_char('╯'),
                ..self
            },
            FrameVar::HorDouble => Self {
                left_top_cnr: glyph_from_char('╒'),
                hor_top_line: glyph_from_char('═'),
                right_top_cnr: glyph_from_char('╕'),
                vert_left_line: glyph_from_char('│'),
                vert_right_line: glyph_from_char('│'),
                left_btm_cnr: glyph_from_char('╘'),
                hor_btm_line: glyph_from_char('═'),
                right_btm_cnr: glyph_from_char('╛'),
                ..self
            },
            FrameVar::VertDouble => Self {
                left_top_cnr: glyph_from_char('╓'),
                hor_top_line: glyph_from_char('─'),
                right_top_cnr: glyph_from_char('╖'),
                vert_left_line: glyph_from_char('║'),
                vert_right_line: glyph_from_char('║'),
                left_btm_cnr: glyph_from_char('╙'),
                hor_btm_line: glyph_from_char('─'),
                right_btm_cnr: glyph_from_char('╜'),
                ..self
            },
            FrameVar::Heavy => Self {
                left_top_cnr: glyph_from_char('┏'),
                hor_top_line: glyph_from_char('━'),
                right_top_cnr: glyph_from_char('┓'),
                vert_left_line: glyph_from_char('┃'),
                vert_right_line: glyph_from_char('┃'),
                left_btm_cnr: glyph_from_char('┗'),
                hor_btm_line: glyph_from_char('━'),
                right_btm_cnr: glyph_from_char('┛'),
                ..self
            },
            FrameVar::Light => Self {
                left_top_cnr: glyph_from_char('┌'),
                hor_top_line: glyph_from_char('─'),
                right_top_cnr: glyph_from_char('┐'),
                vert_left_line: glyph_from_char('│'),
                vert_right_line: glyph_from_char('│'),
                left_btm_cnr: glyph_from_char('└'),
                hor_btm_line: glyph_from_char('─'),
                right_btm_cnr: glyph_from_char('┘'),
                ..self
            },
            FrameVar::VertHeavy => Self {
                left_top_cnr: glyph_from_char('┎'),
                hor_top_line: glyph_from_char('─'),
                right_top_cnr: glyph_from_char('┒'),
                vert_left_line: glyph_from_char('┃'),
                vert_right_line: glyph_from_char('┃'),
                left_btm_cnr: glyph_from_char('┖'),
                hor_btm_line: glyph_from_char('─'),
                right_btm_cnr: glyph_from_char('┚'),
                ..self
            },
            FrameVar::HorHeavy => Self {
                left_top_cnr: glyph_from_char('┍'),
                hor_top_line: glyph_from_char('━'),
                right_top_cnr: glyph_from_char('┑'),
                vert_left_line: glyph_from_char('│'),
                vert_right_line: glyph_from_char('│'),
                left_btm_cnr: glyph_from_char('┕'),
                hor_btm_line: glyph_from_char('━'),
                right_btm_cnr: glyph_from_char('┙'),
                ..self
            },
        }
    }

    /// Specifies the top left corner.
    pub fn left_top(self, ch: char) -> (r: Self)
        ensures
            glyph_chars(r.left_top_cnr) == seq![ch],
            r == (TextFrame { left_top_cnr: r.left_top_cnr, ..self }),
    {
        Self { left_top_cnr: glyph_from_char(ch), ..self }
    }

    /// Change top left corner.
    pub fn set_left_top(&mut self, ch: char)
        ensures
            glyph_chars(final(self).left_top_cnr) == seq![ch],
            *final(self) == (TextFrame { left_top_cnr: final(self).left_top_cnr, ..*old(self) }),
    {
        self.left_top_cnr = glyph_from_char(ch);
    }

    /// Value for frame width.
    pub fn width(self, width: usize) -> (r: Self)
        ensures
            r == (TextFrame { width, ..self }),
    {
        Self { width, ..self }
    }

    /// Change frame width.
    pub fn set_width(&mut self, width: usize)
        ensures
            *final(self) == (TextFrame { width, ..*old(self) }),
    {
        self.width = width;
    }

    /// Specifies the top line.
    pub fn top_line(self, ch: char) -> (r: Self)
        ensures
            glyph_chars(r.hor_top_line) == seq![ch],
            r == (TextFrame { hor_top_line: r.hor_top_line, ..self }),
    {
        Self { hor_top_line: glyph_from_char(ch), ..self }
    }

    /// Change top line.
    pub fn set_top_line(&mut self, ch: char)
        ensures
            glyph_chars(final(self).hor_top_line) == seq![ch],
            *final(self) == (TextFrame { hor_top_line: final(self).hor_top_line, ..*old(self) }),
    {
        self.hor_top_line = glyph_from_char(ch);
    }

    /// Specifies the top right corner.
    pub fn right_top(self, ch: char) -> (r: Self)
        ensures
            glyph_chars(r.right_top_cnr) == seq![ch],
            r == (TextFrame { right_top_cnr: r.right_top_cnr, ..self }),
    {
        Self { right_top_cnr: glyph_from_char(ch), ..self }
    }

    /// Change top right corner.
    pub fn set_right_top(&mut self, ch: char)
        ensures
            glyph_chars(final(self).right_top_cnr) == seq![ch],
            *final(self) == (TextFrame { right_top_cnr: final(self).right_top_cnr, ..*old(self) }),
    {
        self.right_top_cnr = glyph_from_char(ch);
    }

    /// Specifies the left vertical line.
    pub fn vert_left(self, ch: char) -> (r: Self)
        ensures
            glyph_chars(r.vert_left_line) == seq![ch],
            r == (TextFrame { vert_left_line: r.vert_left_line, ..self }),
    {
        Self { vert_left_line: glyph_from_char(ch), ..self }
    }

    /// Change left vertical line.
    pub fn set_vert_left(&mut self, ch: char)
        ensures
            glyph_chars(final(self).vert_left_line) == seq![ch],
            *final(self) == (TextFrame { vert_left_line: final(self).vert_left_line, ..*old(self) }),
    {
        self.vert_left_line = glyph_from_char(ch);
    }

    /// Specifies the right vertical line.
    pub fn vert_right(self, ch: char) -> (r: Self)
        ensures
            glyph_chars(r.vert_right_line) == seq![ch],
            r == (TextFrame { vert_right_line: r.vert_right_line, ..self }),
    {
        Self { vert_right_line: glyph_from_char(ch), ..self }
    }

    /// Change right vertical line.
    pub fn set_vert_right(&mut self, ch: char)
        ensures
            glyph_chars(final(self).vert_right_line) == seq![ch],
            *final(self) == (TextFrame { vert_right_line: final(self).vert_right_line, ..*old(self) }),
    {
        self.vert_right_line = glyph_from_char(ch);
    }

    /// Specifies the bottom left corner.
    pub fn left_btm(self, ch: char) -> (r: Self)
        ensures
            glyph_chars(r.left_btm_cnr) == seq![ch],
            r == (TextFrame { left_btm_cnr: r.left_btm_cnr, ..self }),
    {
        Self { left_btm_cnr: glyph_from_char(ch), ..self }
    }

    /// Change bottom left corner.
    pub fn set_left_btm(&mut self, ch: char)
        ensures
            glyph_chars(final(self).left_btm_cnr) == seq![ch],
            *final(self) == (TextFrame { left_btm_cnr: final(self).left_btm_cnr, ..*old(self) }),
    {
        self.left_btm_cnr = glyph_from_char(ch);
    }

    /// Specifies the bottom line.
    pub fn btm_line(self, ch: char) -> (r: Self)
        ensures
            glyph_chars(r.hor_btm_line) == seq![ch],
            r == (TextFrame { hor_btm_line: r.hor_btm_line, ..self }),
    {
        Self { hor_btm_line: glyph_from_char(ch), ..self }
    }

    /// Change bottom line.
    pub fn set_btm_line(&mut self, ch: char)
        ensures
            glyph_chars(final(self).hor_btm_line) == seq![ch],
            *final(self) == (TextFrame { hor_btm_line: final(self).hor_btm_line, ..*old(self) }),
    {
        self.hor_btm_line = glyph_from_char(ch);
    }

    /// Specifies the bottom right corner.
    pub fn right_btm(self, ch: char) -> (r: Self)
        ensures
            glyph_chars(r.right_btm_cnr) == seq![ch],
            r == (TextFrame { right_btm_cnr: r.right_btm_cnr, ..self }),
    {
        Self { right_btm_cnr: glyph_from_char(ch), ..self }
    }

    /// Change bottom right corner.
    pub fn set_right_btm(&mut self, ch: char)
        ensures
            glyph_chars(final(self).right_btm_cnr) == seq![ch],
            *final(self) == (TextFrame { right_btm_cnr: final(self).right_btm_cnr, ..*old(self) }),
    {
        self.right_btm_cnr = glyph_from_char(ch);
    }

    /// Specifies the fill character.
    pub fn fill(self, ch: char) -> (r: Self)
        ensures
            glyph_chars(r.fill) == seq![ch],
            r == (TextFrame { fill: r.fill, ..self }),
    {
        Self { fill: glyph_from_char(ch), ..self }
    }

    /// Change fill character.
    pub fn set_fill(&mut self, ch: char)
        ensures
            glyph_chars(final(self).fill) == seq![ch],
            *final(self) == (TextFrame { fill: final(self).fill, ..*old(self) }),
    {
        self.fill = glyph_from_char(ch);
    }

    /// Value for frame height.
    pub fn height(self, height: usize) -> (r: Self)
        ensures
            r == (TextFrame { height, ..self }),
    {
        Self { height, ..self }
    }

    /// Change frame height.
    pub fn set_height(&mut self, height: usize)
        ensures
            *final(self) == (TextFrame { height, ..*old(self) }),
    {
        self.height = height;
    }

    /// Value for the width of the frame extension.
    pub fn expand_width(self, expand_width: usize) -> (r: Self)
        ensures
            r == (TextFrame { expand_width, ..self }),
    {
        Self { expand_width, ..self }
    }

    /// Change the width of the frame extension.
    pub fn set_expand_width(&mut self, expand_width: usize)
        ensures
            *final(self) == (TextFrame { expand_width, ..*old(self) }),
    {
        self.expand_width = expand_width;
    }

    /// Value for the height of the frame extension.
    pub fn expand_height(self, expand_height: usize) -> (r: Self)
        ensures
            r == (TextFrame { expand_height, ..self }),
    {
        Self { expand_height, ..self }
    }

    /// Change the height of the frame extension.
    pub fn set_expand_height(&mut self, expand_height: usize)
        ensures
            *final(self) == (TextFrame { expand_height, ..*old(self) }),
    {
        self.expand_height = expand_height;
    }

    /// Value for frame expand.
    pub fn expand(self, expand: usize) -> (r: Self)
        ensures
            r == (TextFrame { expand, ..self }),
    {
        Self { expand, ..self }
    }

    /// Change frame expand.
    pub fn set_expand(&mut self, expand: usize)
        ensures
            *final(self) == (TextFrame { expand, ..*old(self) }),
    {
        self.expand = expand;
    }

    /// Specifies the text alignment.
    pub fn algn(self, algn: Algn) -> (r: Self)
        ensures
            r == (TextFrame { algn, ..self }),
    {
        Self { algn, ..self }
    }

    /// Change text alignment.
    pub fn set_algn(&mut self, algn: Algn)
        ensures
            *final(self) == (TextFrame { algn, ..*old(self) }),
    {
        self.algn = algn;
    }

    /// Specifies the frame color.
    pub fn color_fra(self, color_fra: Color) -> (r: Self)
        ensures
            r == (TextFrame { color_fra, ..self }),
    {
        Self { color_fra, ..self }
    }

    /// Change frame color.
    pub fn set_color_fra(&mut self, color_fra: Color)
        ensures
            *final(self) == (TextFrame { color_fra, ..*old(self) }),
    {
        self.color_fra = color_fra;
    }

    /// Specifies the text color.
    pub fn color_txt(self, color_txt: Color) -> (r: Self)
        ensures
            r == (TextFrame { color_txt, ..self }),
    {
        Self { color_txt, ..self }
    }

    /// Change text color.
    pub fn set_color_txt(&mut self, color_txt: Color)
        ensures
            *final(self) == (TextFrame { color_txt, ..*old(self) }),
    {
        self.color_txt = color_txt;
    }

    /// Specifies the fill color.
    pub fn color_fill(self, color_fill: Color) -> (r: Self)
        ensures
            r == (TextFrame { color_fill, ..self }),
    {
        Self { color_fill, ..self }
    }

    /// Change fill color.
    pub fn set_color_fill(&mut self, color_fill: Color)
        ensures
            *final(self) == (TextFrame { color_fill, ..*old(self) }),
    {
        self.color_fill = color_fill;
    }

    /// Specifies whether color escape sequences are emitted.
    pub fn color_use(self, color_use: bool) -> (r: Self)
        ensures
            r == (TextFrame { color_use, ..self }),
    {
        Self { color_use, ..self }
    }

    /// Change whether color escape sequences are emitted.
    pub fn set_color_use(&mut self, color_use: bool)
        ensures
            *final(self) == (TextFrame { color_use, ..*old(self) }),
    {
        self.color_use = color_use;
    }

    /// All size controls within [`DIM_MAX`]: what rendering requires so
    /// that its width and height arithmetic fits in `usize`.
    pub open spec fn dims_ok(self) -> bool {
        self.width <= DIM_MAX && self.height <= DIM_MAX && self.expand <= DIM_MAX
            && self.expand_width <= DIM_MAX && self.expand_height <= DIM_MAX
    }

    /// Push the escape sequence for `c` when color emission is on.
    fn push_code(&self, frags: &mut Vec<String>, c: Color)
        ensures
            concat_seqs(views_of(final(frags)@)) == concat_seqs(views_of(old(frags)@)) + code_if(
                self.color_use,
                c,
            ),
    {
        if self.color_use {
            push_frag(frags, c.into_fg_str().to_owned());
        } else {
            proof {
                assert(concat_seqs(views_of(frags@)) + code_if(false, c) =~= concat_seqs(
                    views_of(frags@),
                ));
            }
        }
    }

    /// Push the top border row.
    fn push_top_row(&self, frags: &mut Vec<String>, inner: usize)
        ensures
            concat_seqs(views_of(final(frags)@)) == concat_seqs(views_of(old(frags)@)) + top_row(
                *self,
                inner as nat,
            ),
    {
        self.push_code(frags, self.color_fra);
        push_glyph(frags, &self.left_top_cnr);
        push_repeat(frags, &self.hor_top_line, inner);
        push_glyph(frags, &self.right_top_cnr);
        self.push_code(frags, Color::Default);
        proof {
            assert(concat_seqs(views_of(frags@)) =~= concat_seqs(views_of(old(frags)@)) + top_row(
                *self,
                inner as nat,
            ));
        }
    }

    /// Push the bottom border row.
    fn push_btm_row(&self, frags: &mut Vec<String>, inner: usize)
        ensures
            concat_seqs(views_of(final(frags)@)) == concat_seqs(views_of(old(frags)@)) + btm_row(
                *self,
                inner as nat,
            ),
    {
        self.push_code(frags, self.color_fra);
        push_glyph(frags, &self.left_btm_cnr);
        push_repeat(frags, &self.hor_btm_line, inner);
        push_glyph(frags, &self.right_btm_cnr);
        self.push_code(frags, Color::Default);
        proof {
            assert(concat_seqs(views_of(frags@)) =~= concat_seqs(views_of(old(frags)@)) + btm_row(
                *self,
                inner as nat,
            ));
        }
    }

    /// Push one full-width blank row.
    fn push_blank_row(&self, frags: &mut Vec<String>, inner: usize)
        ensures
            concat_seqs(views_of(final(frags)@)) == concat_seqs(views_of(old(frags)@))
                + blank_row(*self, inner as nat),
    {
        self.push_code(frags, self.color_fra);
        push_glyph(frags, &self.vert_left_line);
        self.push_code(frags, self.color_fill);
        push_repeat(frags, &self.fill, inner);
        self.push_code(frags, self.color_fra);
        push_glyph(frags, &self.vert_right_line);
        self.push_code(frags, Color::Default);
        proof {
            assert(concat_seqs(views_of(frags@)) =~= concat_seqs(views_of(old(frags)@))
                + blank_row(*self, inner as nat));
        }
    }

    /// Push one content row: the line between its alignment fill runs.
    #[verifier::rlimit(30)]
    fn push_content_row(&self, frags: &mut Vec<String>, inner: usize, line: &String, w: usize)
        requires
            self.dims_ok(),
            inner <= 2 * TEXT_MAX,
        ensures
            concat_seqs(views_of(final(frags)@)) == concat_seqs(views_of(old(frags)@))
                + content_row(*self, inner as nat, line@, w as nat),
    {
        let sew = self.expand_width + self.expand;
        let diff = if inner >= w {
            inner - w
        } else {
            0
        };
        let (p0, p1): (usize, usize) = match self.algn {
            Algn::Left => (
                sew,
                if diff >= sew {
                    diff - sew
                } else {
                    0
                },
            ),
            Algn::Centr => (diff / 2, diff - diff / 2),
            Algn::Right => (
                if diff >= sew {
                    diff - sew
                } else {
                    0
                },
                sew,
            ),
        };
        proof {
            assert((p0 as nat, p1 as nat) == pads(self.algn, sum_exp_width(*self), diff as nat));
        }
        let ghost base = concat_seqs(views_of(frags@));
        self.push_code(frags, self.color_fra);
        let ghost mut acc = code_if(self.color_use, self.color_fra);
        push_glyph(frags, &self.vert_left_line);
        proof {
            lemma_add_assoc(base, acc, glyph_chars(self.vert_left_line));
            acc = acc + glyph_chars(self.vert_left_line);
        }
        self.push_code(frags, self.color_fill);
        proof {
            lemma_add_assoc(base, acc, code_if(self.color_use, self.color_fill));
            acc = acc + code_if(self.color_use, self.color_fill);
        }
        push_repeat(frags, &self.fill, p0);
        proof {
            lemma_add_assoc(base, acc, repeat_seq(glyph_chars(self.fill), p0 as nat));
            acc = acc + repeat_seq(glyph_chars(self.fill), p0 as nat);
        }
        self.push_code(frags, self.color_txt);
        proof {
            lemma_add_assoc(base, acc, code_if(self.color_use, self.color_txt));
            acc = acc + code_if(self.color_use, self.color_txt);
        }
        push_frag(frags, line.clone());
        proof {
            lemma_add_assoc(base, acc, line@);
            acc = acc + line@;
        }
        self.push_code(frags, self.color_fill);
        proof {
            lemma_add_assoc(base, acc, code_if(self.color_use, self.color_fill));
            acc = acc + code_if(self.color_use, self.color_fill);
        }
        push_repeat(frags, &self.fill, p1);
        proof {
            lemma_add_assoc(base, acc, repeat_seq(glyph_chars(self.fill), p1 as nat));
            acc = acc + repeat_seq(glyph_chars(self.fill), p1 as nat);
        }
        self.push_code(frags, self.color_fra);
        proof {
            lemma_add_assoc(base, acc, code_if(self.color_use, self.color_fra));
            acc = acc + code_if(self.color_use, self.color_fra);
        }
        push_glyph(frags, &self.vert_right_line);
        proof {
            lemma_add_assoc(base, acc, glyph_chars(self.vert_right_line));
            acc = acc + glyph_chars(self.vert_right_line);
        }
        self.push_code(frags, Color::Default);
        proof {
            lemma_add_assoc(base, acc, code_if(self.color_use, Color::Default));
            acc = acc + code_if(self.color_use, Color::Default);
            assert(acc == content_row(*self, inner as nat, line@, w as nat));
            assert(concat_seqs(views_of(frags@)) == base + acc);
        }
    }

    /// Emit all fragments of the frame for already split and measured
    /// lines: `lines` as printed, `widths` their visible widths,
    /// `count` and `natural` the measured line count and widest line.
    #[verifier::loop_isolation(false)]
    #[verifier::rlimit(30)]
    fn emit_frame(&self, lines: &Vec<String>, widths: &Vec<usize>, count: usize, natural: usize) -> (r: Vec<String>)
        requires
            self.dims_ok(),
            lines@.len() == widths@.len(),
            lines@.len() <= TEXT_MAX,
            count <= TEXT_MAX,
            natural <= TEXT_MAX,
        ensures
            concat_seqs(views_of(r@)) == join_rows(
                frame_rows_with(
                    *self,
                    views_of(lines@),
                    nats_of(widths@),
                    count as nat,
                    natural as nat,
                ),
            ),
    {
        let sew = self.expand_width + self.expand;
        let inner = if natural + 2 + 2 * sew < self.width {
            self.width - 2
        } else {
            natural + 2 * sew
        };
        let seh = self.expand + self.expand_height;
        let total = 2 * seh + 2 + count;
        let extra = if total < self.height {
            self.height - total
        } else {
            0
        };
        let btm_blanks = seh + extra;
        let nlines = lines.len();
        let ghost rows = frame_rows_with(
            *self,
            views_of(lines@),
            nats_of(widths@),
            count as nat,
            natural as nat,
        );
        proof {
            assert(inner as nat == inner_width(*self, natural as nat));
            assert(seh as nat == sum_exp_height(*self));
            assert(extra as nat == extra_rows(*self, count as nat));
            assert(views_of(lines@).len() == nlines);
            lemma_frame_rows_shape(
                *self,
                views_of(lines@),
                nats_of(widths@),
                count as nat,
                natural as nat,
            );
            assert(rows.len() == 2 + seh + nlines + btm_blanks);
        }
        let mut frags: Vec<String> = Vec::new();
        self.push_top_row(&mut frags, inner);
        proof {
            assert(rows.subrange(0, 1) =~= seq![rows[0]]);
            assert(concat_seqs(views_of(frags@)) =~= join_rows(rows.subrange(0, 1)));
        }
        let mut b: usize = 0;
        while b < seh
            invariant
                b <= seh,
                concat_seqs(views_of(frags@)) == join_rows(rows.subrange(0, 1 + b)),
            decreases seh - b,
        {
            push_newline(&mut frags);
            self.push_blank_row(&mut frags, inner);
            b += 1;
            proof {
                lemma_join_next(rows, 1 + b - 1);
            }
        }
        let mut k: usize = 0;
        while k < nlines
            invariant
                k <= nlines,
                concat_seqs(views_of(frags@)) == join_rows(rows.subrange(0, 1 + seh + k)),
            decreases nlines - k,
        {
            push_newline(&mut frags);
            let w = widths[k];
            self.push_content_row(&mut frags, inner, &lines[k], w);
            k += 1;
            proof {
                assert(views_of(lines@)[k - 1] == lines@[k - 1]@);
                assert(nats_of(widths@)[k - 1] == widths@[k - 1] as nat);
                lemma_join_next(rows, 1 + seh + k - 1);
            }
        }
        let mut b2: usize = 0;
        while b2 < btm_blanks
            invariant
                b2 <= btm_blanks,
                concat_seqs(views_of(frags@)) == join_rows(
                    rows.subrange(0, 1 + seh + nlines + b2),
                ),
            decreases btm_blanks - b2,
        {
            push_newline(&mut frags);
            self.push_blank_row(&mut frags, inner);
            b2 += 1;
            proof {
                lemma_join_next(rows, 1 + seh + nlines + b2 - 1);
            }
        }
        push_newline(&mut frags);
        self.push_btm_row(&mut frags, inner);
        proof {
            lemma_join_next(rows, rows.len() as int - 1);
            assert(rows.subrange(0, rows.len() as int) =~= rows);
        }
        frags
    }

    /// Render `text` inside the frame: the ordered fragments whose
    /// concatenation is the frame, without a trailing line break.
    pub fn frame_iter(&self, text: &str) -> (r: Vec<String>)
        requires
            self.dims_ok(),
            text@.len() <= TEXT_MAX,
        ensures
            concat_seqs(views_of(r@)) == render(*self, text@, false),
    {
        let lines = split_text(text);
        let (count, natural) = max_line_len(text);
        proof {
            lemma_split_lines_count(text@);
            lemma_split_lines_each_le(text@);
            lemma_max_width_bound(split_lines(text@), text@.len());
        }
        let mut widths: Vec<usize> = Vec::new();
        let mut k: usize = 0;
        while k < lines.len()
            invariant
                k <= lines@.len(),
                views_of(lines@) == split_lines(text@),
                widths@.len() == k,
                forall|j: int| 0 <= j < k ==> widths@[j] == views_of(lines@)[j].len(),
            decreases lines@.len() - k,
        {
            widths.push(lines[k].as_str().unicode_len());
            k += 1;
        }
        let r = self.emit_frame(&lines, &widths, count, natural);
        proof {
            assert(nats_of(widths@) =~= plain_widths(views_of(lines@)));
        }
        r
    }

    /// Render `text` inside the frame, with exactly one line break
    /// appended after the closing border.
    pub fn frame_iterln(&self, text: &str) -> (r: Vec<String>)
        requires
            self.dims_ok(),
            text@.len() <= TEXT_MAX,
        ensures
            concat_seqs(views_of(r@)) == render(*self, text@, false) + seq!['\n'],
    {
        let mut r = self.frame_iter(text);
        push_newline(&mut r);
        r
    }

    /// Render `text` inside the frame, measuring each line's visible
    /// width with ANSI escape sequences stripped, so that pre-colored
    /// text does not distort the alignment; the lines are printed as
    /// given.
    pub fn frame_iter_esc(&self, text: &str) -> (r: Vec<String>)
        requires
            self.dims_ok(),
            text@.len() <= TEXT_MAX,
        ensures
            concat_seqs(views_of(r@)) == render(*self, text@, true),
    {
        let lines = split_text(text);
        let (count, natural) = max_line_len_no_esc(text);
        proof {
            lemma_split_lines_count(text@);
        }
        let mut widths: Vec<usize> = Vec::new();
        let mut k: usize = 0;
        while k < lines.len()
            invariant
                k <= lines@.len(),
                views_of(lines@) == split_lines(text@),
                widths@.len() == k,
                forall|j: int| 0 <= j < k ==> widths@[j] == stripped_of(
                    views_of(lines@)[j],
                ).len(),
            decreases lines@.len() - k,
        {
            let stripped = strip_escapes(lines[k].as_str());
            widths.push(stripped.as_str().unicode_len());
            k += 1;
        }
        let r = self.emit_frame(&lines, &widths, count, natural);
        proof {
            assert(nats_of(widths@) =~= esc_widths(views_of(lines@)));
        }
        r
    }

    /// Render `text` as [`Self::frame_iter_esc`] does, with exactly one
    /// line break appended after the closing border.
    pub fn frame_iterln_esc(&self, text: &str) -> (r: Vec<String>)
        requires
            self.dims_ok(),
            text@.len() <= TEXT_MAX,
        ensures
            concat_seqs(views_of(r@)) == render(*self, text@, true) + seq!['\n'],
    {
        let mut r = self.frame_iter_esc(text);
        push_newline(&mut r);
        r
    }
}

impl Default for TextFrame {
    /// The same configuration as [`TextFrame::new`].
    fn default() -> (r: Self)
        ensures
            glyph_chars(r.left_top_cnr) == seq!['\u{250c}'],
            glyph_chars(r.hor_top_line) == seq!['\u{2500}'],
            glyph_chars(r.right_top_cnr) == seq!['\u{2510}'],
            glyph_chars(r.vert_left_line) == seq!['\u{2502}'],
            glyph_chars(r.vert_right_line) == seq!['\u{2502}'],
            glyph_chars(r.left_btm_cnr) == seq!['\u{2514}'],
            glyph_chars(r.hor_btm_line) == seq!['\u{2500}'],
            glyph_chars(r.right_btm_cnr) == seq!['\u{2518}'],
            glyph_chars(r.fill) == seq![' '],
            r.layout() == (
                0usize,
                0usize,
                0usize,
                0usize,
                0usize,
                Algn::Left,
                Color::Default,
                Color::Default,
                Color::Default,
                true,
            ),
    {
        Self::new()
    }
}

/// The line count and the greatest visible line width of the text with
/// ANSI escape sequences stripped.
fn max_line_len_no_esc(text: &str) -> (r: (usize, usize))
    ensures
        r.0 == split_lines(stripped_of(text@)).len(),
        r.1 == max_width(split_lines(stripped_of(text@))),
        r.0 <= text@.len(),
        r.1 <= text@.len(),
{
    let stripped = strip_escapes(text);
    proof {
        lemma_split_lines_count(stripped@);
        lemma_split_lines_each_le(stripped@);
        lemma_max_width_bound(split_lines(stripped@), stripped@.len());
    }
    max_line_len(stripped.as_str())
}

/// Push one fragment.
fn push_frag(frags: &mut Vec<String>, s: String)
    ensures
        concat_seqs(views_of(final(frags)@)) == concat_seqs(views_of(old(frags)@)) + s@,
{
    frags.push(s);
    proof {
        lemma_concat_push(old(frags)@, frags@.last());
    }
}

/// Push a line break fragment.
fn push_newline(frags: &mut Vec<String>)
    ensures
        concat_seqs(views_of(final(frags)@)) == concat_seqs(views_of(old(frags)@)) + seq!['\n'],
{
    push_frag(frags, "\n".to_owned());
    proof {
        reveal_strlit("\n");
        assert("\n"@ =~= seq!['\n']);
    }
}

/// Push one glyph as a fragment.
fn push_glyph(frags: &mut Vec<String>, g: &Glyph)
    ensures
        concat_seqs(views_of(final(frags)@)) == concat_seqs(views_of(old(frags)@)) + glyph_chars(
            *g,
        ),
{
    push_frag(frags, glyph_str(g).to_owned());
}

/// Push a run of `n` repetitions of one glyph as a fragment.
fn push_repeat(frags: &mut Vec<String>, g: &Glyph, n: usize)
    ensures
        concat_seqs(views_of(final(frags)@)) == concat_seqs(views_of(old(frags)@)) + repeat_seq(
            glyph_chars(*g),
            n as nat,
        ),
{
    let mut s = String::new();
    let mut k: usize = 0;
    while k < n
        invariant
            k <= n,
            s@ == repeat_seq(glyph_chars(*g), k as nat),
        decreases n - k,
    {
        s.append(glyph_str(g));
        k += 1;
    }
    push_frag(frags, s);
}

/// Sequence concatenation is associative.
proof fn lemma_add_assoc(a: Seq<char>, b: Seq<char>, c: Seq<char>)
    ensures
        (a + b) + c == a + (b + c),
{
    assert((a + b) + c =~= a + (b + c));
}

/// One more row extends the joined prefix by a line break and that row.
proof fn lemma_join_next(rows: Seq<Seq<char>>, i: int)
    requires
        1 <= i < rows.len(),
    ensures
        join_rows(rows.subrange(0, i + 1)) == join_rows(rows.subrange(0, i)) + seq!['\n']
            + rows[i],
{
    assert(rows.subrange(0, i + 1).drop_last() =~= rows.subrange(0, i));
    assert(rows.subrange(0, i + 1).last() == rows[i]);
}

} // verus!
