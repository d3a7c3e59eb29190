use redaction::layout::layout_text;
use redaction::layout::tokenize;
use redaction::layout::MarkedChar;
use redaction::layout::PlacedChar;
use redaction::text::remove_all_newlines;

fn chars(s: &str) -> Vec<char> {
    s.chars().collect()
}

fn cell(ch: char, to_redact: bool, row: usize, col: usize) -> PlacedChar {
    PlacedChar { ch, to_redact, row, col }
}

#[test]
fn marked_source_yields_single_page_with_budget_five() {
    // Source text "a <b> c" with column budget 5: one page with the
    // characters a, space, b, space, c; only b is marked for redaction.
    let pages = layout_text(&chars("a <b> c"), 5, 26);
    assert_eq!(pages.len(), 1);
    assert_eq!(
        pages[0],
        vec![
            cell('a', false, 0, 0),
            cell(' ', false, 0, 1),
            cell('b', true, 0, 2),
            cell(' ', false, 0, 3),
            cell('c', false, 0, 4),
        ]
    );
}

#[test]
fn marked_source_yields_single_page_with_full_budget() {
    let pages = layout_text(&chars("a <b> c"), 24, 26);
    assert_eq!(pages.len(), 1);
    assert_eq!(
        pages[0],
        vec![
            cell('a', false, 0, 0),
            cell(' ', false, 0, 1),
            cell('b', true, 0, 2),
            cell(' ', false, 0, 3),
            cell('c', false, 0, 4),
        ]
    );
}

#[test]
fn word_wraps_to_next_row_when_budget_exceeded() {
    // "abc de" with 4 columns: "abc" fills columns 0..3, "de" cannot fit
    // after a separator, so it starts row 1.
    let pages = layout_text(&chars("abc de"), 4, 26);
    assert_eq!(pages.len(), 1);
    assert_eq!(
        pages[0],
        vec![
            cell('a', false, 0, 0),
            cell('b', false, 0, 1),
            cell('c', false, 0, 2),
            cell('d', false, 1, 0),
            cell('e', false, 1, 1),
        ]
    );
}

#[test]
fn word_fitting_exactly_stays_on_row() {
    // "ab cd" with 5 columns: "cd" fits exactly after the separator.
    let pages = layout_text(&chars("ab cd"), 5, 26);
    assert_eq!(pages.len(), 1);
    assert_eq!(
        pages[0],
        vec![
            cell('a', false, 0, 0),
            cell('b', false, 0, 1),
            cell(' ', false, 0, 2),
            cell('c', false, 0, 3),
            cell('d', false, 0, 4),
        ]
    );
}

#[test]
fn overlong_word_is_not_split() {
    // A single word longer than the whole row is placed from column 0 and
    // overruns the budget: words are never split mid-word.
    let pages = layout_text(&chars("abcdef"), 4, 26);
    assert_eq!(pages.len(), 1);
    assert_eq!(pages[0].len(), 6);
    for (i, pc) in pages[0].iter().enumerate() {
        assert_eq!(pc.row, 0);
        assert_eq!(pc.col, i);
    }
}

#[test]
fn full_page_starts_a_new_page() {
    // Two columns, one row: "ab" fills the page, "cd" must open page two.
    let pages = layout_text(&chars("ab cd"), 2, 1);
    assert_eq!(pages.len(), 2);
    assert_eq!(pages[0], vec![cell('a', false, 0, 0), cell('b', false, 0, 1)]);
    assert_eq!(pages[1], vec![cell('c', false, 0, 0), cell('d', false, 0, 1)]);
}

#[test]
fn empty_text_yields_one_empty_page() {
    let pages = layout_text(&chars(""), 24, 26);
    assert_eq!(pages.len(), 1);
    assert!(pages[0].is_empty());
}

#[test]
fn markup_spans_several_words() {
    let toks = tokenize(&chars("say <two words> end"));
    let word = |s: &str, marked: bool| -> Vec<MarkedChar> {
        s.chars().map(|ch| MarkedChar { ch, to_redact: marked }).collect()
    };
    assert_eq!(
        toks,
        vec![
            word("say", false),
            word("two", true),
            word("words", true),
            word("end", false),
        ]
    );
}

#[test]
fn consecutive_spaces_yield_empty_words_and_extra_separators() {
    let pages = layout_text(&chars("a  b"), 24, 26);
    assert_eq!(pages.len(), 1);
    assert_eq!(
        pages[0],
        vec![
            cell('a', false, 0, 0),
            cell(' ', false, 0, 1),
            cell(' ', false, 0, 2),
            cell('b', false, 0, 3),
        ]
    );
}

#[test]
fn newlines_become_single_spaces() {
    assert_eq!(remove_all_newlines("a\r\nb"), "a b");
    assert_eq!(remove_all_newlines("a\rb\nc"), "a b c");
    assert_eq!(remove_all_newlines("a\n\nb"), "a  b");
    assert_eq!(remove_all_newlines("tail\r"), "tail ");
    assert_eq!(remove_all_newlines("plain text"), "plain text");
    assert_eq!(remove_all_newlines(""), "");
}
