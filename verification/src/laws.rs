//! The laws the renderer obeys, stated and proved over the model.

use vstd::prelude::*;

use crate::model::char_frame_count;
use crate::model::cycling_line_frames;
use crate::model::cycling_text_frame_count;
use crate::model::frame_ops_count;
use crate::model::line_frames;
use crate::model::line_ops;
use crate::model::lines_ops;
use crate::model::lines_view;
use crate::model::newline_count;
use crate::model::ops_view;
use crate::model::render_ops;
use crate::model::settle_point;
use crate::model::split_lines;
use crate::model::sweep_frames;
use crate::model::text_frame_count;
use crate::model::typing_line_frames;
use crate::model::typing_text_frame_count;
use crate::printer::Animation;
use crate::printer::FancyPrinter;
use crate::printer::FrameOp;

verus! {

/// Appending one operation appends its view.
pub proof fn lemma_ops_view_push(ops: Seq<FrameOp>, op: FrameOp)
    ensures
        ops_view(ops.push(op)) == ops_view(ops).push(op@),
{
    assert(ops_view(ops.push(op)) =~= ops_view(ops).push(op@));
}

/// Appending one line appends its view.
pub proof fn lemma_lines_view_push(lines: Seq<Vec<char>>, line: Vec<char>)
    ensures
        lines_view(lines.push(line)) == lines_view(lines).push(line@),
{
    assert(lines_view(lines.push(line)) =~= lines_view(lines).push(line@));
}

/// Frame counting distributes over concatenation.
pub proof fn lemma_frame_ops_count_concat(a: Seq<Option<Seq<char>>>, b: Seq<Option<Seq<char>>>)
    ensures
        frame_ops_count(a + b) == frame_ops_count(a) + frame_ops_count(b),
    decreases b.len(),
{
    if b.len() == 0 {
        assert(a + b =~= a);
    } else {
        lemma_frame_ops_count_concat(a, b.drop_last());
        assert((a + b).drop_last() =~= a + b.drop_last());
        assert((a + b).last() == b.last());
    }
}

/// A sequence of frames alone — no line terminator among them — counts
/// as many frames as it is long.
proof fn lemma_count_all_frames(ops: Seq<Option<Seq<char>>>)
    requires
        forall|i: int| 0 <= i < ops.len() ==> ops[i] is Some,
    ensures
        frame_ops_count(ops) == ops.len(),
    decreases ops.len(),
{
    if ops.len() > 0 {
        assert(forall|i: int| 0 <= i < ops.drop_last().len() ==> ops.drop_last()[i] == ops[i]);
        lemma_count_all_frames(ops.drop_last());
    }
}

/// The cursor sweep for one character emits exactly `char_frame_count`
/// frames: the character's code point less the space character's, plus
/// one, when the cursor can reach it.
pub proof fn lemma_sweep_frame_count(acc: Seq<char>, c: char)
    ensures
        frame_ops_count(sweep_frames(acc, c)) == char_frame_count(c),
{
    lemma_count_all_frames(sweep_frames(acc, c));
}

/// A text splits into one logical line more than it has newlines.
pub proof fn lemma_split_lines_len(s: Seq<char>)
    ensures
        newline_count(s) >= 0,
        split_lines(s).len() == newline_count(s) + 1,
    decreases s.len(),
{
    if s.len() > 0 {
        lemma_split_lines_len(s.drop_last());
        let prev = split_lines(s.drop_last());
        if s.last() == '\n' {
            assert(split_lines(s) == prev.push(Seq::<char>::empty()));
        } else {
            assert(split_lines(s) == prev.update(prev.len() - 1, prev.last().push(s.last())));
        }
    } else {
        assert(split_lines(s) == seq![Seq::<char>::empty()]);
        assert(newline_count(s) == 0);
    }
}

/// The frames of an empty logical line: none at all.
proof fn lemma_empty_line_frames(kind: Animation)
    ensures
        line_frames(Seq::<char>::empty(), kind) == Seq::<Option<Seq<char>>>::empty(),
{
    assert(typing_line_frames(Seq::<char>::empty()) =~= Seq::<Option<Seq<char>>>::empty());
}

/// The operations of one logical line are its frames and, unless
/// suppressed, one terminator; counting sees the frames alone.
proof fn lemma_line_ops_count(line: Seq<char>, kind: Animation, ignore_newlines: bool)
    ensures
        frame_ops_count(line_ops(line, kind, ignore_newlines)) == frame_ops_count(
            line_frames(line, kind),
        ),
        line_ops(line, kind, ignore_newlines).len() == line_frames(line, kind).len() + if ignore_newlines {
            0int
        } else {
            1int
        },
{
    let tail: Seq<Option<Seq<char>>> = if ignore_newlines {
        Seq::empty()
    } else {
        seq![None]
    };
    assert(line_ops(line, kind, ignore_newlines) == line_frames(line, kind) + tail);
    if !ignore_newlines {
        assert(frame_ops_count(Seq::<Option<Seq<char>>>::empty()) == 0);
        assert(tail.drop_last() =~= Seq::<Option<Seq<char>>>::empty());
        assert(frame_ops_count(tail) == 0);
    }
    lemma_frame_ops_count_concat(line_frames(line, kind), tail);
}

/// Extending a logical line by one character appends that character's
/// frames: one sweep for the cycling animation, one reveal for typing.
proof fn lemma_line_frames_step(l: Seq<char>, c: char, kind: Animation)
    ensures
        kind is CharacterCycling ==> line_frames(l.push(c), kind) == line_frames(l, kind)
            + sweep_frames(l, c),
        kind is Typing ==> line_frames(l.push(c), kind) == line_frames(l, kind).push(
            Some(l.push(c)),
        ),
{
    assert(l.push(c).drop_last() =~= l);
    assert(l.push(c).last() == c);
    match kind {
        Animation::CharacterCycling => {
            assert(cycling_line_frames(l.push(c)) == cycling_line_frames(l) + sweep_frames(l, c));
        },
        Animation::Typing => {
            assert forall|i: int| 0 <= i < l.len() + 1 implies typing_line_frames(l.push(c))[i]
                == typing_line_frames(l).push(Some(l.push(c)))[i] by {
                if i < l.len() {
                    assert(l.push(c).take(i + 1) =~= l.take(i + 1));
                } else {
                    assert(l.push(c).take(i + 1) =~= l.push(c));
                }
            }
            assert(typing_line_frames(l.push(c)) =~= typing_line_frames(l).push(Some(l.push(c))));
        },
    }
}

/// Rendering always terminates, in a frame count given in closed form:
/// the character-cycling animation emits, for every character, its code
/// point less the space character's plus one frames (saturating for the
/// few characters below the space character), and the typing animation
/// one frame per character; newline characters emit no frame, and every
/// logical line adds one terminator operation unless terminators are
/// suppressed.
pub proof fn lemma_render_frame_count(text: Seq<char>, kind: Animation, ignore_newlines: bool)
    ensures
        frame_ops_count(render_ops(text, kind, ignore_newlines)) == text_frame_count(text, kind),
        render_ops(text, kind, ignore_newlines).len() == text_frame_count(text, kind)
            + if ignore_newlines {
            0int
        } else {
            newline_count(text) + 1
        },
    decreases text.len(),
{
    let lines = split_lines(text);
    if text.len() == 0 {
        assert(lines == seq![Seq::<char>::empty()]);
        assert(lines.drop_last() =~= Seq::<Seq<char>>::empty());
        assert(lines_ops(lines.drop_last(), kind, ignore_newlines)
            == Seq::<Option<Seq<char>>>::empty());
        assert(render_ops(text, kind, ignore_newlines) =~= Seq::<Option<Seq<char>>>::empty()
            + line_ops(Seq::<char>::empty(), kind, ignore_newlines));
        lemma_empty_line_frames(kind);
        lemma_line_ops_count(Seq::<char>::empty(), kind, ignore_newlines);
        lemma_frame_ops_count_concat(
            Seq::<Option<Seq<char>>>::empty(),
            line_ops(Seq::<char>::empty(), kind, ignore_newlines),
        );
    } else {
        let p = text.drop_last();
        let c = text.last();
        lemma_render_frame_count(p, kind, ignore_newlines);
        lemma_split_lines_len(p);
        let prev = split_lines(p);
        if c == '\n' {
            assert(lines == prev.push(Seq::<char>::empty()));
            assert(lines.drop_last() =~= prev);
            assert(lines.last() == Seq::<char>::empty());
            assert(lines_ops(lines, kind, ignore_newlines) == lines_ops(
                prev,
                kind,
                ignore_newlines,
            ) + line_ops(Seq::<char>::empty(), kind, ignore_newlines));
            lemma_empty_line_frames(kind);
            lemma_line_ops_count(Seq::<char>::empty(), kind, ignore_newlines);
            lemma_frame_ops_count_concat(
                lines_ops(prev, kind, ignore_newlines),
                line_ops(Seq::<char>::empty(), kind, ignore_newlines),
            );
        } else {
            let l = prev.last();
            let grown = l.push(c);
            assert(lines == prev.update(prev.len() - 1, grown));
            assert(lines.drop_last() =~= prev.drop_last());
            assert(lines.last() == grown);
            assert(lines_ops(lines, kind, ignore_newlines) == lines_ops(
                prev.drop_last(),
                kind,
                ignore_newlines,
            ) + line_ops(grown, kind, ignore_newlines));
            assert(lines_ops(prev, kind, ignore_newlines) == lines_ops(
                prev.drop_last(),
                kind,
                ignore_newlines,
            ) + line_ops(l, kind, ignore_newlines));
            lemma_frame_ops_count_concat(
                lines_ops(prev.drop_last(), kind, ignore_newlines),
                line_ops(grown, kind, ignore_newlines),
            );
            lemma_frame_ops_count_concat(
                lines_ops(prev.drop_last(), kind, ignore_newlines),
                line_ops(l, kind, ignore_newlines),
            );
            lemma_line_ops_count(grown, kind, ignore_newlines);
            lemma_line_ops_count(l, kind, ignore_newlines);
            lemma_line_frames_step(l, c, kind);
            match kind {
                Animation::CharacterCycling => {
                    lemma_frame_ops_count_concat(line_frames(l, kind), sweep_frames(l, c));
                    lemma_sweep_frame_count(l, c);
                },
                Animation::Typing => {
                    assert(line_frames(grown, kind).drop_last() =~= line_frames(l, kind));
                },
            }
        }
    }
}

/// Rendering a single character with the cycling animation emits
/// exactly its code point less the space character's, plus one, frames:
/// rendering `"A"`, code point 65, emits 65 - 32 + 1 = 34 frames.
pub proof fn lemma_single_char_cycling_count(c: char, ignore_newlines: bool)
    requires
        c != '\n',
    ensures
        frame_ops_count(render_ops(seq![c], Animation::CharacterCycling, ignore_newlines))
            == char_frame_count(c),
        0x20 <= c as int <= 255 ==> frame_ops_count(
            render_ops(seq![c], Animation::CharacterCycling, ignore_newlines),
        ) == c as int - 0x20 + 1,
{
    lemma_render_frame_count(seq![c], Animation::CharacterCycling, ignore_newlines);
    assert(seq![c].drop_last() =~= Seq::<char>::empty());
    assert(cycling_text_frame_count(Seq::<char>::empty()) == 0);
}

/// The typing animation spends no more and no fewer frames than the
/// text is long: one frame per character of a newline-free text.
pub proof fn lemma_typing_count_is_length(line: Seq<char>, ignore_newlines: bool)
    requires
        forall|i: int| 0 <= i < line.len() ==> line[i] != '\n',
    ensures
        frame_ops_count(render_ops(line, Animation::Typing, ignore_newlines)) == line.len(),
{
    lemma_render_frame_count(line, Animation::Typing, ignore_newlines);
    lemma_typing_text_count_no_newline(line);
}

/// On a newline-free text the typing frame count is the text's length.
proof fn lemma_typing_text_count_no_newline(s: Seq<char>)
    requires
        forall|i: int| 0 <= i < s.len() ==> s[i] != '\n',
    ensures
        typing_text_frame_count(s) == s.len(),
    decreases s.len(),
{
    if s.len() > 0 {
        assert(forall|i: int| 0 <= i < s.drop_last().len() ==> s.drop_last()[i] == s[i]);
        lemma_typing_text_count_no_newline(s.drop_last());
    }
}

/// Every frame in the operations shows at least one character.
pub open spec fn frames_nonempty(ops: Seq<Option<Seq<char>>>) -> bool {
    forall|k: int|
        0 <= k < ops.len() ==> (#[trigger] ops[k] matches Some(content) ==> content.len() > 0)
}

/// Concatenation keeps frames non-empty.
proof fn lemma_frames_nonempty_concat(a: Seq<Option<Seq<char>>>, b: Seq<Option<Seq<char>>>)
    requires
        frames_nonempty(a),
        frames_nonempty(b),
    ensures
        frames_nonempty(a + b),
{
    assert forall|k: int| 0 <= k < (a + b).len() implies (#[trigger] (a + b)[k] matches Some(
        content,
    ) ==> content.len() > 0) by {
        if k < a.len() {
            assert((a + b)[k] == a[k]);
        } else {
            assert((a + b)[k] == b[k - a.len()]);
        }
    }
}

/// The frames of one logical line are never blank: each shows the
/// settled prefix and at least the cursor or the newly revealed
/// character.
proof fn lemma_line_frames_nonempty(line: Seq<char>, kind: Animation)
    ensures
        frames_nonempty(line_frames(line, kind)),
    decreases line.len(),
{
    match kind {
        Animation::CharacterCycling => {
            if line.len() > 0 {
                lemma_line_frames_nonempty(line.drop_last(), kind);
                lemma_frames_nonempty_concat(
                    cycling_line_frames(line.drop_last()),
                    sweep_frames(line.drop_last(), line.last()),
                );
            }
        },
        Animation::Typing => {
        },
    }
}

/// No frame of a rendering is blank: every frame the printer emits
/// shows at least one character, so a player may rely on a non-empty
/// content when it lays a frame out.
pub proof fn lemma_render_frames_nonempty(text: Seq<char>, kind: Animation, ignore_newlines: bool)
    ensures
        frames_nonempty(render_ops(text, kind, ignore_newlines)),
{
    lemma_lines_frames_nonempty(split_lines(text), kind, ignore_newlines);
}

/// Every frame of a sequence of rendered lines is non-empty.
proof fn lemma_lines_frames_nonempty(lines: Seq<Seq<char>>, kind: Animation, ignore_newlines: bool)
    ensures
        frames_nonempty(lines_ops(lines, kind, ignore_newlines)),
    decreases lines.len(),
{
    if lines.len() > 0 {
        lemma_lines_frames_nonempty(lines.drop_last(), kind, ignore_newlines);
        lemma_line_frames_nonempty(lines.last(), kind);
        let tail: Seq<Option<Seq<char>>> = if ignore_newlines {
            Seq::empty()
        } else {
            seq![None]
        };
        assert(line_ops(lines.last(), kind, ignore_newlines) == line_frames(lines.last(), kind)
            + tail);
        lemma_frames_nonempty_concat(line_frames(lines.last(), kind), tail);
        lemma_frames_nonempty_concat(
            lines_ops(lines.drop_last(), kind, ignore_newlines),
            line_ops(lines.last(), kind, ignore_newlines),
        );
    }
}

/// The layout flag changes no frame: two printers that agree on the
/// animation and on newline handling produce the same operations for
/// every text, however they differ in `multi_line` or in the delay; the
/// layout governs only how each frame is written out.
pub proof fn lemma_layout_changes_no_frame(a: FancyPrinter, b: FancyPrinter, text: Seq<char>)
    requires
        a.animation == b.animation,
        a.ignore_newlines == b.ignore_newlines,
    ensures
        render_ops(text, a.animation, a.ignore_newlines) == render_ops(
            text,
            b.animation,
            b.ignore_newlines,
        ),
{
}

/// Every non-empty logical line settles to exactly its input text: the
/// last frame of the line shows the line itself. For the cycling
/// animation this asks that the final character be reachable from the
/// space character, which holds for every printable character.
pub proof fn lemma_line_settles_to_input(line: Seq<char>, kind: Animation)
    requires
        line.len() > 0,
        kind is CharacterCycling ==> 0x20 <= line.last() as int <= 255,
    ensures
        line_frames(line, kind).len() > 0,
        line_frames(line, kind).last() == Some(line),
{
    match kind {
        Animation::CharacterCycling => {
            let front = line.drop_last();
            let c = line.last();
            let sweep = sweep_frames(front, c);
            assert(settle_point(c) == c as int);
            assert(sweep.last() == Some(front.push(((0x20 + (c as int - 0x20)) as u8) as char)));
            assert(((c as int) as u8) as char == c);
            assert(front.push(c) =~= line);
            assert(cycling_line_frames(line) == cycling_line_frames(front) + sweep);
            assert(cycling_line_frames(line).last() == Some(line));
        },
        Animation::Typing => {
            assert(line.take(line.len() as int) =~= line);
            assert(typing_line_frames(line).last() == Some(line));
        },
    }
}

} // verus!
