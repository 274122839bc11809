use ox_core::Position;
use ox_core::util::Exp;
use ox_core::util::is_ahead;
use ox_core::util::is_behind;
use ox_core::util::raw_to_grapheme;
use ox_core::util::title;
use ox_core::util::trim_end;

#[test]
fn ansi_len_strips_escape_codes() {
    let exp = Exp::new();
    assert_eq!(exp.ansi_len("\x1b[31mhi\x1b[0m"), 2);
}

#[test]
fn ansi_len_measures_plain_text() {
    let exp = Exp::new();
    assert_eq!(exp.ansi_len("hi"), 2);
    assert_eq!(exp.ansi_len(""), 0);
    // A double-width character occupies two columns.
    assert_eq!(exp.ansi_len("日"), 2);
}

#[test]
fn ansi_len_strips_sequences_with_parameters_and_intermediates() {
    let exp = Exp::new();
    assert_eq!(exp.ansi_len("\x1b[m"), 0);
    assert_eq!(exp.ansi_len("\x1b[1;31mX\x1b[0m"), 1);
    // Intermediate bytes before the final byte are part of the sequence.
    assert_eq!(exp.ansi_len("\x1b[4 qY"), 1);
}

#[test]
fn trim_end_keeps_what_fits() {
    assert_eq!(trim_end("hello", 3), "hel");
    assert_eq!(trim_end("hello", 10), "hello");
    assert_eq!(trim_end("", 5), "");
    assert_eq!(trim_end("hello", 0), "");
}

#[test]
fn trim_end_never_splits_a_double_width_character() {
    // Grapheme widths 1, 1, 2 with a budget of 2: exactly the two
    // single-width graphemes, no partial double-width one.
    assert_eq!(trim_end("ab日", 2), "ab");
}

#[test]
fn trim_end_pads_with_a_space_on_overflow() {
    // The double-width grapheme would overflow the one remaining column,
    // so a single space marks the soft truncation.
    assert_eq!(trim_end("日", 1), " ");
    assert_eq!(trim_end("a日", 2), "a ");
}

#[test]
fn trim_end_keeps_grapheme_clusters_whole() {
    // 'e' plus a combining accent is one cluster of width 1.
    assert_eq!(trim_end("e\u{301}x", 1), "e\u{301}");
}

#[test]
fn title_uppercases_the_first_character() {
    assert_eq!(title("hello"), "Hello");
    assert_eq!(title("Hello"), "Hello");
    assert_eq!(title(""), "");
    // A character whose uppercase mapping is more than one character.
    assert_eq!(title("ßeta"), "SSeta");
}

#[test]
fn raw_to_grapheme_at_column_zero_is_zero() {
    assert_eq!(raw_to_grapheme(0, "abc"), 0);
    assert_eq!(raw_to_grapheme(0, ""), 0);
    assert_eq!(raw_to_grapheme(0, "日本"), 0);
}

#[test]
fn raw_to_grapheme_past_the_line_is_the_grapheme_count() {
    assert_eq!(raw_to_grapheme(usize::MAX, "abc"), 3);
    assert_eq!(raw_to_grapheme(1000, "日本"), 2);
    assert_eq!(raw_to_grapheme(7, ""), 0);
}

#[test]
fn raw_to_grapheme_walks_cumulative_widths() {
    // "日x": widths 2 then 1; column 2 is the boundary after the first
    // grapheme.
    assert_eq!(raw_to_grapheme(2, "日x"), 1);
    assert_eq!(raw_to_grapheme(3, "日x"), 2);
    // A column inside a double-width grapheme is never met exactly, so
    // the walk runs to the end of the line.
    assert_eq!(raw_to_grapheme(1, "日x"), 2);
    // Combining marks add no width: "e" plus accent then "x".
    assert_eq!(raw_to_grapheme(1, "e\u{301}x"), 1);
}

#[test]
fn behind_and_ahead_partition_positions() {
    let cursor = Position { x: 2, y: 3 };
    let offset = Position { x: 1, y: 1 };
    // Scrolled cursor sits at (3, 4).
    let boundary = Position { x: 3, y: 4 };
    assert!(!is_behind(&cursor, &offset, &boundary));
    assert!(!is_ahead(&cursor, &offset, &boundary));

    let above = Position { x: 9, y: 3 };
    assert!(is_behind(&cursor, &offset, &above));
    assert!(!is_ahead(&cursor, &offset, &above));

    let left_same_row = Position { x: 2, y: 4 };
    assert!(is_behind(&cursor, &offset, &left_same_row));
    assert!(!is_ahead(&cursor, &offset, &left_same_row));

    let right_same_row = Position { x: 4, y: 4 };
    assert!(!is_behind(&cursor, &offset, &right_same_row));
    assert!(is_ahead(&cursor, &offset, &right_same_row));

    let below = Position { x: 0, y: 5 };
    assert!(!is_behind(&cursor, &offset, &below));
    assert!(is_ahead(&cursor, &offset, &below));
}
