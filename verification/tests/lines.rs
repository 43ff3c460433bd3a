use clipcount::lines::count_lines;
use clipcount::process_text;

#[test]
fn empty_text_has_no_line() {
    assert_eq!(count_lines(""), 0);
}

#[test]
fn text_without_terminator_is_one_line() {
    assert_eq!(count_lines("a"), 1);
    assert_eq!(count_lines("no terminator here"), 1);
}

#[test]
fn trailing_terminator_adds_no_line() {
    assert_eq!(count_lines("a\n"), 1);
    assert_eq!(count_lines("a\nb"), 2);
    assert_eq!(count_lines("a\nb\n"), 2);
}

#[test]
fn lone_terminator_is_one_empty_line() {
    assert_eq!(count_lines("\n"), 1);
    assert_eq!(count_lines("\n\n"), 2);
    assert_eq!(count_lines("\n\nx"), 3);
}

#[test]
fn carriage_return_and_line_feed_end_one_line() {
    assert_eq!(count_lines("\r\n"), 1);
    assert_eq!(count_lines("a\r\nb"), 2);
    assert_eq!(count_lines("a\r\nb\r\n"), 2);
    assert_eq!(count_lines("a\r\nb"), count_lines("a\nb"));
}

#[test]
fn lone_carriage_return_ends_no_line() {
    assert_eq!(count_lines("a\rb"), 1);
    assert_eq!(count_lines("a\r"), 1);
    assert_eq!(count_lines("\r"), 1);
}

#[test]
fn other_separators_end_no_line() {
    assert_eq!(count_lines("a\u{2028}b"), 1);
    assert_eq!(count_lines("a\u{2029}b"), 1);
    assert_eq!(count_lines("a\u{0B}b\u{0C}c\u{85}d"), 1);
}

#[test]
fn code_points_that_end_in_ten_are_no_terminators() {
    // U+010A, U+080A and U+1000A all have 0x0A as their low byte.
    assert_eq!(count_lines("\u{10A}"), 1);
    assert_eq!(count_lines("\u{80A}\u{1000A}"), 1);
    assert_eq!(count_lines("\u{10A}\n\u{80A}\n"), 2);
}

#[test]
fn count_lines_agrees_with_std_lines() {
    let samples = [
        "",
        "a",
        "a\n",
        "\n",
        "\r\n",
        "a\r\n\r\nb",
        "a\rb\n",
        "one\ntwo\nthree\n",
        "你好\n世界",
        "\n\n\n",
        " \n ",
    ];
    for sample in samples {
        assert_eq!(count_lines(sample), sample.lines().count());
    }
}

#[test]
fn line_feed_between_two_lines_adds_their_counts() {
    let a = "first";
    let b = "second";
    let joined = format!("{}\n{}", a, b);
    assert_eq!(
        process_text(&joined).line_count,
        process_text(a).line_count + process_text(b).line_count
    );
    assert_eq!(process_text(&joined).line_count, 2);
}

#[test]
fn line_feed_after_open_line_adds_counts_of_any_text() {
    let a = "x\ny";
    for b in ["", "z", "z\n", "\n", "p\nq\nr"] {
        let joined = format!("{}\n{}", a, b);
        assert_eq!(count_lines(&joined), count_lines(a) + count_lines(b));
    }
}

#[test]
fn whitespace_lines_are_counted() {
    assert_eq!(process_text(" \n ").line_count, 2);
    assert_eq!(process_text("   ").line_count, 1);
}
