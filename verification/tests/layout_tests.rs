use embedded_graphics::mono_font::{ascii::FONT_5X7, MonoTextStyle};
use embedded_graphics::pixelcolor::BinaryColor;
use embedded_text::style::{HeightMode, TextBoxStyleBuilder};
use matrix_display::layout::{characters, find_row_end, lines, wrap, wrap_chars, Row};

fn row(start: usize, end: usize) -> Row {
    Row { start, end }
}

#[test]
fn empty_body_is_one_empty_row() {
    assert_eq!(wrap("", 25), vec![row(0, 0)]);
    assert_eq!(lines("", 25), vec![String::new()]);
}

#[test]
fn body_of_exactly_one_line_is_one_row() {
    let body = "abcdefghijklmnopqrstuvwxy";
    assert_eq!(body.chars().count(), 25);
    assert_eq!(wrap(body, 25), vec![row(0, 25)]);
    let spaced = "the quick brown fox jumps";
    assert_eq!(spaced.chars().count(), 25);
    assert_eq!(lines(spaced, 25), vec![spaced.to_string()]);
}

#[test]
fn one_character_more_is_cut_at_the_last_blank() {
    let body = "the quick brown fox jumped";
    assert_eq!(body.chars().count(), 26);
    assert_eq!(wrap(body, 25), vec![row(0, 19), row(20, 26)]);
    assert_eq!(lines(body, 25), vec!["the quick brown fox".to_string(), "jumped".to_string()]);
}

#[test]
fn one_character_more_without_blank_is_not_split() {
    let body = "abcdefghijklmnopqrstuvwxyz";
    assert_eq!(body.chars().count(), 26);
    assert_eq!(wrap(body, 25), vec![row(0, 26)]);
    assert_eq!(lines(body, 25), vec![body.to_string()]);
}

#[test]
fn blank_at_the_overflow_point_ends_the_row() {
    let body = "abcdefghijklmnopqrstuvwxy z";
    assert_eq!(wrap(body, 25), vec![row(0, 25), row(26, 27)]);
    let trailing = "abcdefghijklmnopqrstuvwxy ";
    assert_eq!(lines(trailing, 25), vec!["abcdefghijklmnopqrstuvwxy".to_string(), String::new()]);
}

#[test]
fn long_word_gets_a_row_of_its_own() {
    let body = "see https://example.org/a/very/long/path/that/goes/on now";
    assert_eq!(
        lines(body, 25),
        vec![
            "see".to_string(),
            "https://example.org/a/very/long/path/that/goes/on".to_string(),
            "now".to_string(),
        ]
    );
}

#[test]
fn line_feed_always_ends_the_row() {
    assert_eq!(lines("one\ntwo", 25), vec!["one".to_string(), "two".to_string()]);
    assert_eq!(
        lines("one\n\ntwo\n", 25),
        vec!["one".to_string(), String::new(), "two".to_string(), String::new()]
    );
    assert_eq!(wrap("ab\ncd", 25), vec![row(0, 2), row(3, 5)]);
}

#[test]
fn words_fill_each_row_as_far_as_they_fit() {
    let body = "aa bb cc dd ee";
    assert_eq!(
        lines(body, 5),
        vec!["aa bb".to_string(), "cc dd".to_string(), "ee".to_string()]
    );
    assert_eq!(lines(body, 4), vec!["aa", "bb", "cc", "dd", "ee"]);
    assert_eq!(lines(body, 8), vec!["aa bb cc", "dd ee"]);
}

#[test]
fn only_the_blank_at_the_cut_is_left_out() {
    assert_eq!(lines("aaaa   bbbb", 5), vec!["aaaa ", " bbbb"]);
    assert_eq!(lines(" aaaaaaaa", 4), vec!["", "aaaaaaaa"]);
}

#[test]
fn tab_and_carriage_return_are_blanks() {
    assert_eq!(lines("aaaa\tbbbb", 5), vec!["aaaa", "bbbb"]);
    assert_eq!(lines("aaaa\rbbbb", 5), vec!["aaaa", "bbbb"]);
    assert_eq!(lines("aaaa\r\nbbbb", 5), vec!["aaaa\r", "bbbb"]);
}

#[test]
fn rows_count_characters_not_bytes() {
    let body = "äöü äöü äöü";
    assert_eq!(wrap(body, 7), vec![row(0, 7), row(8, 11)]);
    assert_eq!(lines(body, 7), vec!["äöü äöü", "äöü"]);
}

#[test]
fn width_zero_puts_each_word_on_a_row() {
    assert_eq!(lines("a bc d", 0), vec!["a", "bc", "d"]);
    assert_eq!(lines(" a", 0), vec!["", "a"]);
}

#[test]
fn characters_are_those_of_the_text() {
    assert_eq!(characters("aä\n"), vec!['a', 'ä', '\n']);
    assert_eq!(characters(""), Vec::<char>::new());
}

#[test]
fn row_end_is_found_from_any_start() {
    let chars = characters("aa bb cc");
    assert_eq!(find_row_end(&chars, 0, 5), 5);
    assert_eq!(find_row_end(&chars, 6, 5), 8);
    assert_eq!(find_row_end(&chars, 8, 5), 8);
    assert_eq!(find_row_end(&chars, 0, 1), 2);
    assert_eq!(find_row_end(&chars, 0, 100), 8);
    assert_eq!(wrap_chars(&chars, 5), vec![row(0, 5), row(6, 8)]);
}

#[test]
fn nothing_of_the_body_is_lost() {
    let body = "It was the best of times, it was the worst of times,\nit was the age of wisdom, it was the age of foolishness";
    let chars: Vec<char> = body.chars().collect();
    for width in 0..40 {
        let rows = wrap(body, width);
        assert_eq!(rows[0].start, 0);
        assert_eq!(rows[rows.len() - 1].end, chars.len());
        for i in 0..rows.len() {
            let r = rows[i];
            assert!(r.start <= r.end);
            let text = &chars[r.start..r.end];
            assert!(!text.contains(&'\n'));
            assert!(text.len() <= width || !text.iter().any(|c| *c == ' '));
            if i + 1 < rows.len() {
                assert_eq!(rows[i + 1].start, r.end + 1);
                assert!(chars[r.end] == ' ' || chars[r.end] == '\n');
            }
        }
    }
}

#[test]
fn plain_bodies_take_as_many_rows_as_a_text_box_is_high() {
    let glyphs = MonoTextStyle::new(&FONT_5X7, BinaryColor::On);
    let style = TextBoxStyleBuilder::new().height_mode(HeightMode::FitToText).build();
    let bodies = [
        "",
        "hello",
        "abcdefghijklmnopqrstuvwxy",
        "the quick brown fox jumps",
        "the quick brown fox jumped",
        "the quick brown fox jumped over the lazy dog",
        "one\ntwo",
        "one\n\ntwo",
        "It was the best of times, it was the worst of times, it was the age of wisdom",
    ];
    for body in bodies {
        let rows = wrap(body, 25).len() as u32;
        assert_eq!(rows * 7, style.measure_text_height(&glyphs, body, 128), "{:?}", body);
    }
}
