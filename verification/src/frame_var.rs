use vstd::prelude::*;

verus! {

/// Preset frames.
#[allow(missing_docs)]
#[derive(Clone, Copy, Debug, PartialEq, Eq, Structural)]
pub enum FrameVar {
    Space,
    Double,
    Round,
    HorDouble,
    VertDouble,
    Heavy,
    Light,
    VertHeavy,
    HorHeavy,
}

/// The eight border glyphs of a preset, in the order: top-left corner,
/// top line, top-right corner, left vertical line, right vertical line,
/// bottom-left corner, bottom line, bottom-right corner.
pub open spec fn preset_glyphs(v: FrameVar) -> (
    Seq<char>,
    Seq<char>,
    Seq<char>,
    Seq<char>,
    Seq<char>,
    Seq<char>,
    Seq<char>,
    Seq<char>,
) {
    match v {
        FrameVar::Space => (
            seq![' '],
            seq![' '],
            seq![' '],
            seq![' '],
            seq![' '],
            seq![' '],
            seq![' '],
            seq![' '],
        ),
        FrameVar::Double => (
            seq!['╔'],
            seq!['═'],
            seq!['╗'],
            seq!['║'],
            seq!['║'],
            seq!['╚'],
            seq!['═'],
            seq!['╝'],
        ),
        FrameVar::Round => (
            seq!['╭'],
            seq!['─'],
            seq!['╮'],
            seq!['│'],
            seq!['│'],
            seq!['╰'],
            seq!['─'],
            seq!['╯'],
        ),
        FrameVar::HorDouble => (
            seq!['╒'],
            seq!['═'],
            seq!['╕'],
            seq!['│'],
            seq!['│'],
            seq!['╘'],
            seq!['═'],
            seq!['╛'],
        ),
        FrameVar::VertDouble => (
            seq!['╓'],
            seq!['─'],
            seq!['╖'],
            seq!['║'],
            seq!['║'],
            seq!['╙'],
            seq!['─'],
            seq!['╜'],
        ),
        FrameVar::Heavy => (
            seq!['┏'],
            seq!['━'],
            seq!['┓'],
            seq!['┃'],
            seq!['┃'],
            seq!['┗'],
            seq!['━'],
            seq!['┛'],
        ),
        FrameVar::Light => (
            seq!['┌'],
            seq!['─'],
            seq!['┐'],
            seq!['│'],
            seq!['│'],
            seq!['└'],
            seq!['─'],
            seq!['┘'],
        ),
        FrameVar::VertHeavy => (
            seq!['┎'],
            seq!['─'],
            seq!['┒'],
            seq!['┃'],
            seq!['┃'],
            seq!['┖'],
            seq!['─'],
            seq!['┚'],
        ),
        FrameVar::HorHeavy => (
            seq!['┍'],
            seq!['━'],
            seq!['┑'],
            seq!['│'],
            seq!['│'],
            seq!['┕'],
            seq!['━'],
            seq!['┙'],
        ),
    }
}

} // verus!
