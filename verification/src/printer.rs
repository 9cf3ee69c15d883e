//! The printer configuration, its builder, and the frame types.

use vstd::prelude::*;

use vstd::string::StrSliceExecFns;
use vstd::utf8::is_ascii_chars;

use crate::laws::lemma_lines_view_push;
use crate::laws::lemma_ops_view_push;
use crate::model::cycling_line_frames;
use crate::model::line_ops;
use crate::model::lines_ops;
use crate::model::lines_view;
use crate::model::ops_view;
use crate::model::render_ops;
use crate::model::settle_point;
use crate::model::split_lines;
use crate::model::sweep_frames;
use crate::model::typing_line_frames;

verus! {

/// Milliseconds waited between two frames when no delay was chosen.
pub const DEFAULT_TIME_DELAY: u64 = 2;

/// The two frame-generation algorithms a [`FancyPrinter`] can use.
#[derive(Debug, Clone, Copy, PartialEq, Eq, Structural)]
pub enum Animation {
    /// Every character of the text is swept: a cursor starts at the space
    /// character and counts upward, one frame per code point, until it
    /// reaches the target character, which is then fixed in place.
    CharacterCycling,
    /// The text appears one character at a time, one frame per character.
    Typing,
}

/// The error returned when the text to render holds a character whose code
/// point is 128 or above. Rendering is defined for ASCII text only.
#[derive(Debug, Clone, Copy, PartialEq, Eq, Structural)]
pub struct InvalidInputError;

/// One step of a rendered animation.
///
/// A `Frame` holds the full visible content of the line being animated at
/// one instant; a `LineEnd` marks the terminator that closes a finished
/// logical line. A player writes frames in order, pausing the configured
/// delay before each `Frame`.
#[derive(Debug, PartialEq, Eq)]
pub enum FrameOp {
    /// The visible content of the current line at this instant.
    Frame(Vec<char>),
    /// The newline emitted after a logical line has fully settled.
    LineEnd,
}

impl View for FrameOp {
    type V = Option<Seq<char>>;

    open spec fn view(&self) -> Option<Seq<char>> {
        match self {
            FrameOp::Frame(content) => Some(content@),
            FrameOp::LineEnd => None,
        }
    }
}

/// Renders ASCII text as a sequence of animation frames.
///
/// The configuration is immutable once built; every call of
/// [`FancyPrinter::print`] is independent of any other.
#[derive(Debug, Clone, Copy, PartialEq, Eq, Structural)]
pub struct FancyPrinter {
    /// Milliseconds a player should wait before each frame.
    pub time_delay_ms: u64,
    /// Which frame-generation algorithm is used.
    pub animation: Animation,
    /// Whether a player lays every frame out on its own output line
    /// (`true`) or redraws the current line in place (`false`). The frame
    /// contents never depend on this flag, only the written bytes do.
    pub multi_line: bool,
    /// Whether the terminator after each finished logical line is
    /// suppressed.
    pub ignore_newlines: bool,
}

/// The code point at which the cursor sweep for `c` stops: `c` itself
/// when reachable from the space character, else the greatest byte value.
fn settle_stop(c: char) -> (r: u8)
    ensures
        r as int == settle_point(c),
{
    let cu: u32 = c as u32;
    if 0x20 <= cu && cu <= 255 {
        c as u8
    } else {
        255
    }
}

/// The first `n` characters of `line`, with `c` appended: the visible
/// content of one animation frame.
fn frame_prefix(line: &Vec<char>, n: usize, c: char) -> (r: Vec<char>)
    requires
        n <= line.len(),
    ensures
        r@ == line@.take(n as int).push(c),
{
    let mut r: Vec<char> = Vec::new();
    proof {
        assert(r@ =~= line@.take(0));
    }
    let mut k: usize = 0;
    while k < n
        invariant
            k <= n <= line.len(),
            r@ == line@.take(k as int),
        decreases n - k,
    {
        r.push(line[k]);
        proof {
            assert(line@.take(k as int + 1) =~= line@.take(k as int).push(line@[k as int]));
        }
        k = k + 1;
    }
    r.push(c);
    r
}

/// Splits a text into its logical lines on newline characters.
fn split_text_lines(text: &str) -> (lines: Vec<Vec<char>>)
    ensures
        lines_view(lines@) == split_lines(text@),
{
    let n = text.unicode_len();
    let mut done: Vec<Vec<char>> = Vec::new();
    let mut cur: Vec<char> = Vec::new();
    proof {
        assert(lines_view(done@).push(cur@) =~= split_lines(text@.take(0)));
    }
    let mut i: usize = 0;
    while i < n
        invariant
            i <= n,
            n == text@.len(),
            lines_view(done@).push(cur@) == split_lines(text@.take(i as int)),
        decreases n - i,
    {
        let ghost prev = split_lines(text@.take(i as int));
        let c = text.get_char(i);
        proof {
            assert(text@.take(i as int + 1).drop_last() =~= text@.take(i as int));
            assert(text@.take(i as int + 1).last() == c);
        }
        if c == '\n' {
            let ghost done_prev = done@;
            let ghost cur_prev = cur@;
            done.push(cur);
            cur = Vec::new();
            proof {
                lemma_lines_view_push(done_prev, done@.last());
                assert(split_lines(text@.take(i as int + 1)) == prev.push(Seq::<char>::empty()));
                assert(lines_view(done@).push(cur@) =~= prev.push(Seq::<char>::empty()));
            }
        } else {
            cur.push(c);
            proof {
                let lv = lines_view(done@);
                assert(split_lines(text@.take(i as int + 1)) == prev.update(
                    prev.len() - 1,
                    prev.last().push(c),
                ));
                assert(prev.update(prev.len() - 1, prev.last().push(c)) =~= lv.push(cur@));
            }
        }
        i = i + 1;
    }
    proof {
        assert(text@.take(n as int) =~= text@);
    }
    let ghost done_prev = done@;
    let ghost cur_prev = cur@;
    done.push(cur);
    proof {
        lemma_lines_view_push(done_prev, done@.last());
        assert(lines_view(done@) =~= lines_view(done_prev).push(cur_prev));
    }
    done
}

impl FancyPrinter {
    /// Returns a `FancyPrinterBuilder` to construct a new `FancyPrinter` with.
    pub fn builder() -> (r: FancyPrinterBuilder)
        ensures
            r == FancyPrinterBuilder::default_spec(),
    {
        FancyPrinterBuilder::new()
    }

    /// Renders `text` as the full sequence of frame operations under this
    /// printer's configuration.
    ///
    /// Succeeds exactly when `text` is ASCII, returning every frame and
    /// line terminator in order; on any non-ASCII character it returns
    /// [`InvalidInputError`] and no frames. A player shows the animation by
    /// writing [`FancyPrinter::frame_payload`] of each frame in order,
    /// waiting `time_delay_ms` milliseconds before each one, and a newline
    /// for each `LineEnd`.
    pub fn print(&self, text: &str) -> (r: Result<Vec<FrameOp>, InvalidInputError>)
        ensures
            r is Ok <==> is_ascii_chars(text@),
            r matches Ok(ops) ==> ops_view(ops@) == render_ops(
                text@,
                self.animation,
                self.ignore_newlines,
            ),
    {
        if !text.is_ascii() {
            return Err(InvalidInputError);
        }
        let lines = split_text_lines(text);
        match self.animation {
            Animation::CharacterCycling => Ok(self.character_cycling(&lines)),
            Animation::Typing => Ok(self.typing(&lines)),
        }
    }

    /// The character-cycling renderer: for every character of every line,
    /// a cursor sweeps from the space character up to the target, one
    /// frame per code point, over the already settled prefix.
    fn character_cycling(&self, lines: &Vec<Vec<char>>) -> (ops: Vec<FrameOp>)
        ensures
            ops_view(ops@) == lines_ops(
                lines_view(lines@),
                Animation::CharacterCycling,
                self.ignore_newlines,
            ),
    {
        let ghost lv = lines_view(lines@);
        let mut ops: Vec<FrameOp> = Vec::new();
        proof {
            assert(ops_view(ops@) =~= lines_ops(
                lv.take(0),
                Animation::CharacterCycling,
                self.ignore_newlines,
            ));
        }
        let mut li: usize = 0;
        while li < lines.len()
            invariant
                li <= lines.len(),
                lv == lines_view(lines@),
                ops_view(ops@) == lines_ops(
                    lv.take(li as int),
                    Animation::CharacterCycling,
                    self.ignore_newlines,
                ),
            decreases lines.len() - li,
        {
            let line = &lines[li];
            let ghost base = ops_view(ops@);
            proof {
                assert(ops_view(ops@) =~= base + cycling_line_frames(line@.take(0)));
            }
            let mut ci: usize = 0;
            while ci < line.len()
                invariant
                    ci <= line.len(),
                    ops_view(ops@) == base + cycling_line_frames(line@.take(ci as int)),
                decreases line.len() - ci,
            {
                let target = line[ci];
                let ghost acc = line@.take(ci as int);
                let ghost sweep = sweep_frames(acc, target);
                let stop: u8 = settle_stop(target);
                proof {
                    assert(sweep.take(0) =~= Seq::<Option<Seq<char>>>::empty());
                    assert(ops_view(ops@) =~= base + cycling_line_frames(acc) + sweep.take(0));
                }
                let mut cursor: u32 = 0x20;
                while cursor <= stop as u32
                    invariant
                        0x20 <= cursor <= stop as u32 + 1,
                        ci < line.len(),
                        target == line@[ci as int],
                        stop as int == settle_point(target),
                        acc == line@.take(ci as int),
                        sweep == sweep_frames(acc, target),
                        ops_view(ops@) == base + cycling_line_frames(acc) + sweep.take(
                            cursor as int - 0x20,
                        ),
                    decreases stop as u32 + 1 - cursor,
                {
                    let ghost prev_ops = ops@;
                    let ghost j = cursor as int - 0x20;
                    let frame = frame_prefix(line, ci, (cursor as u8) as char);
                    let ghost frame_view = frame@;
                    ops.push(FrameOp::Frame(frame));
                    proof {
                        lemma_ops_view_push(prev_ops, ops@.last());
                        assert(sweep[j] == Some(acc.push(((0x20 + j) as u8) as char)));
                        assert(((0x20 + j) as u8) as char == (cursor as u8) as char);
                        assert(ops@.last()@ == Some(frame_view));
                        assert(sweep.take(j + 1) =~= sweep.take(j).push(sweep[j]));
                        assert(ops_view(ops@) =~= base + cycling_line_frames(acc) + sweep.take(
                            j + 1,
                        ));
                    }
                    cursor = cursor + 1;
                }
                proof {
                    assert(sweep.take(stop as int + 1 - 0x20) =~= sweep);
                    let t = line@.take(ci as int + 1);
                    assert(t.drop_last() =~= acc);
                    assert(t.last() == target);
                    assert(cycling_line_frames(t) == cycling_line_frames(acc) + sweep_frames(
                        acc,
                        target,
                    ));
                    assert(ops_view(ops@) =~= base + cycling_line_frames(t));
                }
                ci = ci + 1;
            }
            proof {
                assert(line@.take(line@.len() as int) =~= line@);
            }
            if !self.ignore_newlines {
                let ghost prev_ops = ops@;
                ops.push(FrameOp::LineEnd);
                proof {
                    lemma_ops_view_push(prev_ops, FrameOp::LineEnd);
                }
            }
            proof {
                assert(ops_view(ops@) =~= base + line_ops(
                    line@,
                    Animation::CharacterCycling,
                    self.ignore_newlines,
                ));
                assert(lv.take(li as int + 1).drop_last() =~= lv.take(li as int));
                assert(lv.take(li as int + 1).last() == line@);
                assert(lines_ops(
                    lv.take(li as int + 1),
                    Animation::CharacterCycling,
                    self.ignore_newlines,
                ) == lines_ops(lv.take(li as int), Animation::CharacterCycling, self.ignore_newlines)
                    + line_ops(line@, Animation::CharacterCycling, self.ignore_newlines));
            }
            li = li + 1;
        }
        proof {
            assert(lv.take(lines@.len() as int) =~= lv);
        }
        ops
    }

    /// The typing renderer: every line appears one character at a time,
    /// one frame per character.
    fn typing(&self, lines: &Vec<Vec<char>>) -> (ops: Vec<FrameOp>)
        ensures
            ops_view(ops@) == lines_ops(
                lines_view(lines@),
                Animation::Typing,
                self.ignore_newlines,
            ),
    {
        let ghost lv = lines_view(lines@);
        let mut ops: Vec<FrameOp> = Vec::new();
        proof {
            assert(ops_view(ops@) =~= lines_ops(lv.take(0), Animation::Typing, self.ignore_newlines));
        }
        let mut li: usize = 0;
        while li < lines.len()
            invariant
                li <= lines.len(),
                lv == lines_view(lines@),
                ops_view(ops@) == lines_ops(
                    lv.take(li as int),
                    Animation::Typing,
                    self.ignore_newlines,
                ),
            decreases lines.len() - li,
        {
            let line = &lines[li];
            let ghost base = ops_view(ops@);
            let ghost frames = typing_line_frames(line@);
            proof {
                assert(ops_view(ops@) =~= base + frames.take(0));
            }
            let mut ci: usize = 0;
            while ci < line.len()
                invariant
                    ci <= line.len(),
                    frames == typing_line_frames(line@),
                    ops_view(ops@) == base + frames.take(ci as int),
                decreases line.len() - ci,
            {
                let ghost prev_ops = ops@;
                let c = line[ci];
                let frame = frame_prefix(line, ci, c);
                let ghost frame_view = frame@;
                ops.push(FrameOp::Frame(frame));
                proof {
                    lemma_ops_view_push(prev_ops, ops@.last());
                    assert(frame_view =~= line@.take(ci as int + 1));
                    assert(frames[ci as int] == Some(line@.take(ci as int + 1)));
                    assert(frames.take(ci as int + 1) =~= frames.take(ci as int).push(
                        frames[ci as int],
                    ));
                    assert(ops_view(ops@) =~= base + frames.take(ci as int + 1));
                }
                ci = ci + 1;
            }
            proof {
                assert(frames.take(line@.len() as int) =~= frames);
            }
            if !self.ignore_newlines {
                let ghost prev_ops = ops@;
                ops.push(FrameOp::LineEnd);
                proof {
                    lemma_ops_view_push(prev_ops, FrameOp::LineEnd);
                }
            }
            proof {
                assert(ops_view(ops@) =~= base + line_ops(
                    line@,
                    Animation::Typing,
                    self.ignore_newlines,
                ));
                assert(lv.take(li as int + 1).drop_last() =~= lv.take(li as int));
                assert(lv.take(li as int + 1).last() == line@);
                assert(lines_ops(lv.take(li as int + 1), Animation::Typing, self.ignore_newlines)
                    == lines_ops(lv.take(li as int), Animation::Typing, self.ignore_newlines)
                    + line_ops(line@, Animation::Typing, self.ignore_newlines));
            }
            li = li + 1;
        }
        proof {
            assert(lv.take(lines@.len() as int) =~= lv);
        }
        ops
    }

    /// What one frame writes to the terminal under this configuration: the
    /// frame content on its own output line when `multi_line` is set;
    /// otherwise a redraw behind a carriage return for character cycling,
    /// or just the newly revealed last character for typing.
    pub fn frame_payload(&self, content: &Vec<char>) -> (r: Vec<char>)
        requires
            content@.len() > 0,
        ensures
            r@ == crate::model::frame_payload(content@, self.animation, self.multi_line),
    {
        let mut r: Vec<char> = Vec::new();
        if self.multi_line {
            let mut k: usize = 0;
            proof {
                assert(r@ =~= content@.take(0));
            }
            while k < content.len()
                invariant
                    k <= content.len(),
                    r@ == content@.take(k as int),
                decreases content.len() - k,
            {
                r.push(content[k]);
                proof {
                    assert(content@.take(k as int + 1) =~= content@.take(k as int).push(
                        content@[k as int],
                    ));
                }
                k = k + 1;
            }
            r.push('\n');
            proof {
                assert(content@.take(content@.len() as int) =~= content@);
            }
        } else {
            match self.animation {
                Animation::CharacterCycling => {
                    r.push('\r');
                    let mut k: usize = 0;
                    proof {
                        assert(r@ =~= seq!['\r'] + content@.take(0));
                    }
                    while k < content.len()
                        invariant
                            k <= content.len(),
                            r@ == seq!['\r'] + content@.take(k as int),
                        decreases content.len() - k,
                    {
                        r.push(content[k]);
                        proof {
                            assert((seq!['\r'] + content@.take(k as int)).push(content@[k as int])
                                =~= seq!['\r'] + content@.take(k as int + 1));
                        }
                        k = k + 1;
                    }
                    proof {
                        assert(content@.take(content@.len() as int) =~= content@);
                    }
                },
                Animation::Typing => {
                    r.push(content[content.len() - 1]);
                    proof {
                        assert(r@ =~= seq![content@.last()]);
                    }
                },
            }
        }
        r
    }
}

impl Default for FancyPrinter {
    /// The default printer: character cycling, a 2 ms delay, frames drawn
    /// in place, line terminators emitted.
    fn default() -> (r: Self)
        ensures
            r == FancyPrinterBuilder::default_spec().build_spec(),
    {
        FancyPrinterBuilder::new().build()
    }
}

/// Builder for the [`FancyPrinter`] struct.
#[derive(Debug, Clone, Copy, PartialEq, Eq, Structural)]
pub struct FancyPrinterBuilder {
    /// Milliseconds a player should wait before each frame.
    pub time_delay_ms: u64,
    /// Which frame-generation algorithm is used.
    pub animation: Animation,
    /// Whether frames are laid out on separate output lines.
    pub multi_line: bool,
    /// Whether line terminators are suppressed.
    pub ignore_newlines: bool,
}

impl FancyPrinterBuilder {
    /// The builder state that `new` establishes.
    pub open spec fn default_spec() -> FancyPrinterBuilder {
        FancyPrinterBuilder {
            time_delay_ms: DEFAULT_TIME_DELAY as u64,
            animation: Animation::CharacterCycling,
            multi_line: false,
            ignore_newlines: false,
        }
    }

    /// The printer that `build` constructs from this builder.
    pub open spec fn build_spec(self) -> FancyPrinter {
        FancyPrinter {
            time_delay_ms: self.time_delay_ms,
            animation: self.animation,
            multi_line: self.multi_line,
            ignore_newlines: self.ignore_newlines,
        }
    }

    /// Returns a new `FancyPrinterBuilder` with the default options: a 2 ms
    /// delay, character cycling, single-line layout, newlines respected.
    pub fn new() -> (r: Self)
        ensures
            r == Self::default_spec(),
    {
        Self {
            time_delay_ms: DEFAULT_TIME_DELAY,
            animation: Animation::CharacterCycling,
            multi_line: false,
            ignore_newlines: false,
        }
    }

    /// The delay in milliseconds between frames of the animation. Defaults to 2 ms.
    pub fn time_delay(self, time_delay_ms: u64) -> (r: Self)
        ensures
            r == (Self { time_delay_ms, ..self }),
    {
        Self { time_delay_ms, ..self }
    }

    /// Whether the printer lays new frames out on new lines. Defaults to `false`.
    pub fn multi_line(self, multi_line: bool) -> (r: Self)
        ensures
            r == (Self { multi_line, ..self }),
    {
        Self { multi_line, ..self }
    }

    /// The type of animation the printer will use. Defaults to `CharacterCycling`.
    pub fn animation(self, animation: Animation) -> (r: Self)
        ensures
            r == (Self { animation, ..self }),
    {
        Self { animation, ..self }
    }

    /// Whether the printer suppresses the terminator after each logical
    /// line. Defaults to `false`.
    pub fn ignore_newlines(self, ignore_newlines: bool) -> (r: Self)
        ensures
            r == (Self { ignore_newlines, ..self }),
    {
        Self { ignore_newlines, ..self }
    }

    /// Builds a `FancyPrinter` with the builder's options.
    pub fn build(self) -> (r: FancyPrinter)
        ensures
            r == self.build_spec(),
    {
        FancyPrinter {
            time_delay_ms: self.time_delay_ms,
            animation: self.animation,
            multi_line: self.multi_line,
            ignore_newlines: self.ignore_newlines,
        }
    }
}

impl Default for FancyPrinterBuilder {
    fn default() -> (r: Self)
        ensures
            r == Self::default_spec(),
    {
        Self::new()
    }
}

} // verus!
