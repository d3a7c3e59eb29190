use redaction::paper::Character;
use redaction::paper::Page;
use redaction::paper::PageScores;
use redaction::paper::PageText;
use redaction::paper::redact_hit;
use redaction::paper::redaction_counts;
use redaction::paper::summarize;
use redaction::pen::Marker;
use redaction::feedback::Feedbacks;
use redaction::CountdownTimer;

fn drawing_marker() -> Marker {
    Marker { tip_active: true, can_draw: true, off_page: false }
}

#[test]
fn advance_spawns_only_visible_characters() {
    let pt = PageText::from_text("a <b> c".to_string());
    let mut page = Page::new(pt);
    let mut scores = PageScores::default();
    assert_eq!(page.page_num, -1);
    assert!(page.can_advance());

    let cells = page.advance(&mut scores);
    // The page shows a, space, b, space, c; only the three letters become
    // redactable characters.
    assert_eq!(cells.len(), 3);
    assert_eq!(cells[0].ch, 'a');
    assert_eq!(cells[1].ch, 'b');
    assert_eq!(cells[2].ch, 'c');
    assert_eq!((cells[0].row, cells[0].col), (0, 0));
    assert_eq!((cells[1].row, cells[1].col), (0, 2));
    assert_eq!((cells[2].row, cells[2].col), (0, 4));
    for c in &cells {
        assert!(!c.state.is_redacted);
        assert_eq!(c.state.page_num, 0);
    }
    assert!(!cells[0].state.to_redact);
    assert!(cells[1].state.to_redact);
    assert!(!cells[2].state.to_redact);

    assert_eq!(page.page_num, 0);
    assert_eq!(page.total_chars, 3);
    assert_eq!(page.to_redact, 1);
    assert_eq!(scores.total_chars, 3);
    assert_eq!(scores.total_to_redact, 1);
    assert_eq!(scores.correctly_redacted, 0);

    // One page only: nothing left to turn to.
    assert!(!page.can_advance());
}

#[test]
fn advance_walks_every_page() {
    // Four short words all fit on the first row of a single page.
    let pt = PageText::from_text("aa bb cc dd".to_string());
    let mut page = Page::new(pt);
    assert_eq!(page.page_count(), 1);

    let mut scores = PageScores::default();
    let mut turned = 0;
    while page.can_advance() {
        let cells = page.advance(&mut scores);
        assert!(!cells.is_empty());
        turned += 1;
    }
    assert_eq!(turned, 1);
    assert_eq!(scores.total_chars, 11 - 3);
}

#[test]
fn correct_redaction_counts_and_keeps_time() {
    let marker = drawing_marker();
    let mut ch = Character { to_redact: true, is_redacted: false, page_num: 0 };
    let mut scores = PageScores::default();
    let mut timer = CountdownTimer::new(10_000);

    let fb = redact_hit(&mut ch, &marker, &mut scores, &mut timer);
    assert_eq!(fb, Some(Feedbacks::Correct));
    assert!(ch.is_redacted);
    assert_eq!(scores.correctly_redacted, 1);
    assert_eq!(timer.remaining_ms(), 10_000);
}

#[test]
fn wrong_redaction_pays_the_penalty() {
    let marker = drawing_marker();
    let mut ch = Character { to_redact: false, is_redacted: false, page_num: 0 };
    let mut scores = PageScores::default();
    let mut timer = CountdownTimer::new(10_000);

    let fb = redact_hit(&mut ch, &marker, &mut scores, &mut timer);
    assert_eq!(fb, Some(Feedbacks::Wrong));
    assert!(ch.is_redacted);
    assert_eq!(scores.correctly_redacted, 0);
    assert_eq!(timer.remaining_ms(), 9_000);
}

#[test]
fn redaction_never_reverts_and_never_counts_twice() {
    let marker = drawing_marker();
    let mut ch = Character { to_redact: true, is_redacted: false, page_num: 0 };
    let mut scores = PageScores::default();
    let mut timer = CountdownTimer::new(10_000);

    let first = redact_hit(&mut ch, &marker, &mut scores, &mut timer);
    assert_eq!(first, Some(Feedbacks::Correct));
    let second = redact_hit(&mut ch, &marker, &mut scores, &mut timer);
    assert_eq!(second, None);
    assert!(ch.is_redacted);
    assert_eq!(scores.correctly_redacted, 1);
    assert_eq!(timer.remaining_ms(), 10_000);
}

#[test]
fn pen_that_cannot_draw_changes_nothing() {
    let marker = Marker { tip_active: true, can_draw: false, off_page: false };
    let mut ch = Character { to_redact: true, is_redacted: false, page_num: 0 };
    let mut scores = PageScores::default();
    let mut timer = CountdownTimer::new(10_000);

    let fb = redact_hit(&mut ch, &marker, &mut scores, &mut timer);
    assert_eq!(fb, None);
    assert!(!ch.is_redacted);
    assert_eq!(scores.correctly_redacted, 0);
    assert_eq!(timer.remaining_ms(), 10_000);
}

#[test]
fn wrong_redaction_near_the_end_stops_the_clock_at_zero() {
    let marker = drawing_marker();
    let mut ch = Character { to_redact: false, is_redacted: false, page_num: 0 };
    let mut scores = PageScores::default();
    let mut timer = CountdownTimer::new(400);

    redact_hit(&mut ch, &marker, &mut scores, &mut timer);
    assert_eq!(timer.remaining_ms(), 0);
    assert!(timer.is_finished());
}

#[test]
fn counts_over_the_page_characters() {
    let chars = vec![
        Character { to_redact: true, is_redacted: true, page_num: 0 },
        Character { to_redact: true, is_redacted: false, page_num: 0 },
        Character { to_redact: false, is_redacted: true, page_num: 0 },
        Character { to_redact: false, is_redacted: false, page_num: 0 },
    ];
    let (redacted, pending) = redaction_counts(&chars);
    assert_eq!(redacted, 2);
    assert_eq!(pending, 1);
}

#[test]
fn score_summary_matches_the_ledger() {
    let pt = PageText::from_text("x <y>".to_string());
    let mut page = Page::new(pt);
    let mut scores = PageScores::default();
    page.advance(&mut scores);
    scores.correctly_redacted = 1;

    let s = summarize(&page, &scores);
    assert_eq!(s.page_display, 1);
    assert_eq!(s.page_count, 1);
    assert_eq!(s.redacted, 1);
    assert_eq!(s.unredacted, 1);
}

#[test]
fn reset_clears_the_ledger() {
    let mut scores = PageScores { total_chars: 5, total_to_redact: 3, correctly_redacted: 2 };
    scores.reset();
    assert_eq!(scores.total_chars, 0);
    assert_eq!(scores.total_to_redact, 0);
    assert_eq!(scores.correctly_redacted, 0);
}

#[test]
fn document_flows_across_pages() {
    // Each 21-character word takes a whole 24-column row by itself, so
    // 30 words fill the 26 rows of the first page and spill onto a second.
    let word = "abcdefghijklmnopqrstu";
    let words: Vec<String> = (0..30).map(|_| word.to_string()).collect();
    let text = words.join(" ");
    let pt = PageText::from_text(text);
    let mut page = Page::new(pt);
    assert_eq!(page.page_count(), 2);

    let mut scores = PageScores::default();
    let first = page.advance(&mut scores);
    assert_eq!(first.len(), 26 * 21);
    for c in &first {
        assert_eq!(c.state.page_num, 0);
    }
    assert!(page.can_advance());
    let second = page.advance(&mut scores);
    assert_eq!(second.len(), 4 * 21);
    for c in &second {
        assert_eq!(c.state.page_num, 1);
    }
    assert!(!page.can_advance());
    assert_eq!(scores.total_chars, 30 * 21);
}

#[test]
fn newline_normalisation_feeds_the_layout() {
    let raw = "keep\r\n<this secret>\nplease";
    let joined = redaction::text::remove_all_newlines(raw);
    assert_eq!(joined, "keep <this secret> please");

    let pt = PageText::from_text(joined);
    let mut page = Page::new(pt);
    let mut scores = PageScores::default();
    let cells = page.advance(&mut scores);
    let marked: String = cells.iter().filter(|c| c.state.to_redact).map(|c| c.ch).collect();
    assert_eq!(marked, "thissecret");
    assert_eq!(scores.total_to_redact, 10);
    assert_eq!(scores.total_chars, "keepthissecretplease".len() as u32);
}
