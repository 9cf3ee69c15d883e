use fancy_print::{Animation, FancyPrinter, FancyPrinterBuilder, FrameOp, InvalidInputError};

fn chars(s: &str) -> Vec<char> {
    s.chars().collect()
}

fn frames(ops: &[FrameOp]) -> Vec<Vec<char>> {
    let mut out = Vec::new();
    for op in ops {
        if let FrameOp::Frame(content) = op {
            out.push(content.clone());
        }
    }
    out
}

fn line_ends(ops: &[FrameOp]) -> usize {
    ops.iter().filter(|op| matches!(op, FrameOp::LineEnd)).count()
}

/// The closed-form frame count of the character-cycling animation.
fn cycling_count(s: &str) -> usize {
    let mut n = 0;
    for c in s.chars() {
        if c == '\n' {
            continue;
        }
        let code = c as u32;
        if (0x20..=255).contains(&code) {
            n += (code - 0x20 + 1) as usize;
        } else {
            n += 224;
        }
    }
    n
}

#[test]
fn single_character_cycling_frame_count() {
    let printer = FancyPrinter::builder().build();
    let ops = printer.print("A").unwrap();
    let frames = frames(&ops);
    // 'A' is code point 65: 65 - 32 + 1 = 34 frames, the 34th showing "A".
    assert_eq!(frames.len(), 34);
    assert_eq!(frames[0], chars(" "));
    assert_eq!(frames[33], chars("A"));
    assert_eq!(line_ends(&ops), 1);
    assert!(matches!(ops.last(), Some(FrameOp::LineEnd)));
}

#[test]
fn typing_frame_count_is_line_length() {
    let printer = FancyPrinter::builder().animation(Animation::Typing).build();
    let ops = printer.print("Hello").unwrap();
    let frames = frames(&ops);
    assert_eq!(frames.len(), 5);
    assert_eq!(frames[0], chars("H"));
    assert_eq!(frames[1], chars("He"));
    assert_eq!(frames[4], chars("Hello"));
    assert_eq!(line_ends(&ops), 1);
}

#[test]
fn empty_input_emits_one_terminator_and_no_frames() {
    for kind in [Animation::CharacterCycling, Animation::Typing] {
        let printer = FancyPrinter::builder().animation(kind).build();
        let ops = printer.print("").unwrap();
        assert_eq!(ops.len(), 1);
        assert!(matches!(ops[0], FrameOp::LineEnd));

        let silent = FancyPrinter::builder().animation(kind).ignore_newlines(true).build();
        let ops = silent.print("").unwrap();
        assert!(ops.is_empty());
    }
}

#[test]
fn hello_world_settles_to_input() {
    let printer = FancyPrinter::builder().build();
    let text = "Hello, world!";
    let ops = printer.print(text).unwrap();
    let frames = frames(&ops);
    assert_eq!(frames.len(), cycling_count(text));
    assert_eq!(frames.last().unwrap(), &chars(text));
    assert_eq!(line_ends(&ops), 1);
}

#[test]
fn multi_line_input_animates_each_line() {
    let printer = FancyPrinter::builder().animation(Animation::Typing).build();
    let ops = printer.print("Hi\nYo").unwrap();
    let frames = frames(&ops);
    assert_eq!(frames, vec![chars("H"), chars("Hi"), chars("Y"), chars("Yo")]);
    assert_eq!(line_ends(&ops), 2);
    // Each line is terminated right after it settles.
    assert!(matches!(ops[2], FrameOp::LineEnd));
    assert!(matches!(ops[5], FrameOp::LineEnd));
}

#[test]
fn ignore_newlines_drops_terminators_but_keeps_frames() {
    let respect = FancyPrinter::builder().animation(Animation::Typing).build();
    let suppress = FancyPrinter::builder()
        .animation(Animation::Typing)
        .ignore_newlines(true)
        .build();
    let with_ends = respect.print("Hi\nYo").unwrap();
    let without_ends = suppress.print("Hi\nYo").unwrap();
    assert_eq!(line_ends(&without_ends), 0);
    assert_eq!(frames(&with_ends), frames(&without_ends));
}

#[test]
fn trailing_newline_opens_an_empty_line() {
    let printer = FancyPrinter::builder().animation(Animation::Typing).build();
    let ops = printer.print("a\n").unwrap();
    let frames = frames(&ops);
    assert_eq!(frames, vec![chars("a")]);
    // One terminator for "a", one for the empty final line.
    assert_eq!(line_ends(&ops), 2);
}

#[test]
fn consecutive_newlines_make_empty_lines() {
    let printer = FancyPrinter::builder().animation(Animation::Typing).build();
    let ops = printer.print("\n\n").unwrap();
    assert_eq!(frames(&ops).len(), 0);
    assert_eq!(line_ends(&ops), 3);
}

#[test]
fn non_ascii_input_is_rejected_with_no_frames() {
    for kind in [Animation::CharacterCycling, Animation::Typing] {
        let printer = FancyPrinter::builder().animation(kind).build();
        assert_eq!(printer.print("h\u{e9}llo"), Err(InvalidInputError));
        assert_eq!(printer.print("\u{65e5}\u{672c}"), Err(InvalidInputError));
        assert_eq!(printer.print("ok\u{80}"), Err(InvalidInputError));
    }
}

#[test]
fn multi_line_flag_does_not_change_frames() {
    for kind in [Animation::CharacterCycling, Animation::Typing] {
        let in_place = FancyPrinter::builder().animation(kind).build();
        let stacked = FancyPrinter::builder().animation(kind).multi_line(true).build();
        assert_eq!(in_place.print("Hi\nYo").unwrap(), stacked.print("Hi\nYo").unwrap());
    }
}

#[test]
fn control_character_saturates_the_sweep() {
    let printer = FancyPrinter::builder().build();
    let ops = printer.print("\t").unwrap();
    let frames = frames(&ops);
    // A tab sits below the space character, so the cursor climbs all the
    // way to the greatest byte value: 255 - 32 + 1 = 224 frames.
    assert_eq!(frames.len(), 224);
    assert_eq!(frames[0], chars(" "));
    assert_eq!(frames[223], vec![char::from(255u8)]);
}

#[test]
fn cycling_frames_walk_the_code_points() {
    let printer = FancyPrinter::builder().build();
    let ops = printer.print("ab").unwrap();
    let frames = frames(&ops);
    let a_sweep = ('a' as u32) - 0x20 + 1;
    let b_sweep = ('b' as u32) - 0x20 + 1;
    assert_eq!(frames.len(), (a_sweep + b_sweep) as usize);
    // The sweep for 'b' runs over the settled prefix "a".
    assert_eq!(frames[a_sweep as usize], chars("a "));
    assert_eq!(frames.last().unwrap(), &chars("ab"));
}

#[test]
fn frame_payload_layouts() {
    let content = chars("ab");

    let cycling_in_place = FancyPrinter::builder().build();
    assert_eq!(cycling_in_place.frame_payload(&content), chars("\rab"));

    let cycling_stacked = FancyPrinter::builder().multi_line(true).build();
    assert_eq!(cycling_stacked.frame_payload(&content), chars("ab\n"));

    let typing_in_place = FancyPrinter::builder().animation(Animation::Typing).build();
    assert_eq!(typing_in_place.frame_payload(&content), chars("b"));

    let typing_stacked = FancyPrinter::builder()
        .animation(Animation::Typing)
        .multi_line(true)
        .build();
    assert_eq!(typing_stacked.frame_payload(&content), chars("ab\n"));
}

#[test]
fn printers_compare_by_configuration() {
    let a = FancyPrinterBuilder::new().time_delay(7).build();
    let b = FancyPrinter::builder().time_delay(7).build();
    assert_eq!(a, b);
    assert_ne!(a, FancyPrinter::builder().build());
}
