use cookbook::text::{replace_spaces, split_lines};

#[test]
fn replace_spaces_puts_a_hyphen_for_each_space() {
    assert_eq!(replace_spaces("roast leg of lamb"), "roast-leg-of-lamb");
}

#[test]
fn replace_spaces_keeps_a_text_without_spaces() {
    assert_eq!(replace_spaces("ratatouille"), "ratatouille");
    assert_eq!(replace_spaces(""), "");
}

#[test]
fn replace_spaces_handles_spaces_at_the_ends_and_in_a_row() {
    assert_eq!(replace_spaces(" a  b "), "-a--b-");
    assert_eq!(replace_spaces("   "), "---");
}

#[test]
fn replace_spaces_leaves_other_white_space_and_hyphens() {
    assert_eq!(replace_spaces("a\tb\nc-d"), "a\tb\nc-d");
}

#[test]
fn replace_spaces_counts_characters_not_bytes() {
    assert_eq!(replace_spaces("crème brûlée"), "crème-brûlée");
    assert_eq!(replace_spaces("é è"), "é-è");
}

#[test]
fn replace_spaces_result_has_no_space() {
    for name in ["a b", " ", "one two three", "none", "x  y"] {
        let anchor = replace_spaces(name);
        assert!(!anchor.contains(' '));
        assert_eq!(anchor.chars().count(), name.chars().count());
    }
}

#[test]
fn split_lines_cuts_at_each_line_feed() {
    assert_eq!(split_lines("eggs\nflour"), vec!["eggs", "flour"]);
    assert_eq!(split_lines("eggs\nflour\nmilk"), vec!["eggs", "flour", "milk"]);
}

#[test]
fn split_lines_of_a_text_without_line_feed_is_the_text() {
    assert_eq!(split_lines("eggs"), vec!["eggs"]);
}

#[test]
fn split_lines_of_the_empty_text_is_one_empty_piece() {
    assert_eq!(split_lines(""), vec![""]);
}

#[test]
fn split_lines_keeps_empty_pieces() {
    assert_eq!(split_lines("eggs\n"), vec!["eggs", ""]);
    assert_eq!(split_lines("\neggs"), vec!["", "eggs"]);
    assert_eq!(split_lines("a\n\nb"), vec!["a", "", "b"]);
    assert_eq!(split_lines("\n"), vec!["", ""]);
}

#[test]
fn split_lines_leaves_carriage_returns_in_place() {
    assert_eq!(split_lines("eggs\r\nflour"), vec!["eggs\r", "flour"]);
}

#[test]
fn split_lines_counts_characters_not_bytes() {
    assert_eq!(split_lines("œufs\nfarine à pain\nlait"), vec!["œufs", "farine à pain", "lait"]);
}

#[test]
fn split_lines_agrees_with_the_standard_split() {
    for text in ["", "a", "a\nb", "\n\n", "a\n", "\na", "x y\nz\n\nw"] {
        let expected: Vec<String> = text.split('\n').map(String::from).collect();
        assert_eq!(split_lines(text), expected);
        assert_eq!(split_lines(text).join("\n"), text);
    }
}
