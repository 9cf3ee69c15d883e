//! The mathematical model of rendering: which frames an input produces.

use vstd::prelude::*;

use crate::printer::Animation;
use crate::printer::FrameOp;

verus! {

/// The code point of the space character, where every cursor sweep starts.
pub const SWEEP_START: u8 = 0x20;

/// The sequence views of a sequence of character vectors.
pub open spec fn lines_view(lines: Seq<Vec<char>>) -> Seq<Seq<char>> {
    lines.map_values(|l: Vec<char>| l@)
}

/// The views of a sequence of frame operations: `Some(content)` for a
/// frame, `None` for a line terminator.
pub open spec fn ops_view(ops: Seq<FrameOp>) -> Seq<Option<Seq<char>>> {
    ops.map_values(|op: FrameOp| op@)
}

/// The logical lines of a text: maximal substrings free of `'\n'`.
/// An empty text has one empty line; a trailing `'\n'` opens a final
/// empty line, as splitting on a separator does.
pub open spec fn split_lines(s: Seq<char>) -> Seq<Seq<char>>
    decreases s.len(),
{
    if s.len() == 0 {
        seq![Seq::<char>::empty()]
    } else {
        let prev = split_lines(s.drop_last());
        if s.last() == '\n' {
            prev.push(Seq::<char>::empty())
        } else {
            prev.update(prev.len() - 1, prev.last().push(s.last()))
        }
    }
}

/// The code point at which the cursor sweep for `target` stops: the
/// target itself when the cursor can reach it, else the greatest byte
/// value, where the saturating cursor can climb no further.
pub open spec fn settle_point(target: char) -> int {
    if SWEEP_START as int <= target as int <= 255 {
        target as int
    } else {
        255
    }
}

/// The frames of one cursor sweep: the already settled prefix `acc`
/// followed by each cursor character from the space character up to the
/// settle point of `target`, one frame per code point.
pub open spec fn sweep_frames(acc: Seq<char>, target: char) -> Seq<Option<Seq<char>>> {
    Seq::new(
        (settle_point(target) - SWEEP_START as int + 1) as nat,
        |j: int| Some(acc.push(((SWEEP_START as int + j) as u8) as char)),
    )
}

/// The frames the character-cycling animation emits for one logical
/// line: one sweep per character, over the settled prefix before it.
pub open spec fn cycling_line_frames(line: Seq<char>) -> Seq<Option<Seq<char>>>
    decreases line.len(),
{
    if line.len() == 0 {
        Seq::empty()
    } else {
        cycling_line_frames(line.drop_last()) + sweep_frames(line.drop_last(), line.last())
    }
}

/// The frames the typing animation emits for one logical line: its
/// non-empty prefixes, shortest first.
pub open spec fn typing_line_frames(line: Seq<char>) -> Seq<Option<Seq<char>>> {
    Seq::new(line.len(), |i: int| Some(line.take(i + 1)))
}

/// The frames one logical line produces under the given animation.
pub open spec fn line_frames(line: Seq<char>, kind: Animation) -> Seq<Option<Seq<char>>> {
    match kind {
        Animation::CharacterCycling => cycling_line_frames(line),
        Animation::Typing => typing_line_frames(line),
    }
}

/// The operations one logical line produces: its frames, then its
/// terminator unless terminators are suppressed.
pub open spec fn line_ops(line: Seq<char>, kind: Animation, ignore_newlines: bool) -> Seq<
    Option<Seq<char>>,
> {
    line_frames(line, kind) + if ignore_newlines {
        Seq::<Option<Seq<char>>>::empty()
    } else {
        seq![None]
    }
}

/// The operations a sequence of logical lines produces, in order.
pub open spec fn lines_ops(lines: Seq<Seq<char>>, kind: Animation, ignore_newlines: bool) -> Seq<
    Option<Seq<char>>,
>
    decreases lines.len(),
{
    if lines.len() == 0 {
        Seq::empty()
    } else {
        lines_ops(lines.drop_last(), kind, ignore_newlines) + line_ops(
            lines.last(),
            kind,
            ignore_newlines,
        )
    }
}

/// The full operation sequence that rendering a text produces: every
/// logical line animated independently, each followed by its terminator
/// unless terminators are suppressed.
pub open spec fn render_ops(text: Seq<char>, kind: Animation, ignore_newlines: bool) -> Seq<
    Option<Seq<char>>,
> {
    lines_ops(split_lines(text), kind, ignore_newlines)
}

/// What one frame writes to the terminal, given the layout configuration:
/// its own output line when `multi_line` is set; otherwise a redraw of the
/// current line behind a carriage return for the cycling animation, or
/// just the newly revealed character for the typing animation.
pub open spec fn frame_payload(content: Seq<char>, kind: Animation, multi_line: bool) -> Seq<char>
    recommends
        content.len() > 0,
{
    if multi_line {
        content.push('\n')
    } else if kind is CharacterCycling {
        seq!['\r'] + content
    } else {
        seq![content.last()]
    }
}

/// How many frames the cursor sweep for one character emits: for a
/// reachable target, its code point less the space character's, plus
/// one; for a target below the space character, the whole saturating
/// climb to the greatest byte value.
pub open spec fn char_frame_count(c: char) -> int {
    settle_point(c) - SWEEP_START as int + 1
}

/// How many frames the character-cycling animation emits for a whole
/// text: the sweep lengths of all its characters, newlines aside.
pub open spec fn cycling_text_frame_count(s: Seq<char>) -> int
    decreases s.len(),
{
    if s.len() == 0 {
        0
    } else {
        cycling_text_frame_count(s.drop_last()) + if s.last() == '\n' {
            0
        } else {
            char_frame_count(s.last())
        }
    }
}

/// How many frames the typing animation emits for a whole text: one per
/// character, newlines aside.
pub open spec fn typing_text_frame_count(s: Seq<char>) -> int
    decreases s.len(),
{
    if s.len() == 0 {
        0
    } else {
        typing_text_frame_count(s.drop_last()) + if s.last() == '\n' {
            0int
        } else {
            1int
        }
    }
}

/// How many frames rendering a whole text emits under the given
/// animation.
pub open spec fn text_frame_count(s: Seq<char>, kind: Animation) -> int {
    match kind {
        Animation::CharacterCycling => cycling_text_frame_count(s),
        Animation::Typing => typing_text_frame_count(s),
    }
}

/// How many newline characters a text holds.
pub open spec fn newline_count(s: Seq<char>) -> int
    decreases s.len(),
{
    if s.len() == 0 {
        0
    } else {
        newline_count(s.drop_last()) + if s.last() == '\n' {
            1int
        } else {
            0int
        }
    }
}

/// How many of the operations are frames rather than line terminators.
pub open spec fn frame_ops_count(ops: Seq<Option<Seq<char>>>) -> int
    decreases ops.len(),
{
    if ops.len() == 0 {
        0
    } else {
        frame_ops_count(ops.drop_last()) + if ops.last() is Some {
            1int
        } else {
            0int
        }
    }
}

} // verus!
