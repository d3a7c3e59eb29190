//! Greedy word-wrap of marked-up source text.
//!
//! Source text carries `<...>` markup: characters between `<` and `>` are
//! ground truth "must be redacted". The text is split into space-separated
//! words, the markers are stripped, and the words are placed left to right
//! on a fixed grid of columns and rows, one page after another:
//!
//! * a word that does not fit on the rest of the current row moves to the
//!   start of the next row (words are never split mid-word, so a word longer
//!   than a whole row overruns the column budget — the one exception);
//! * when the rows of a page are used up, the word starts a new page;
//! * words that share a row are separated by a single space character;
//!   separators are never marked for redaction.

use vstd::prelude::*;

verus! {

/// A visible character of the source text together with the ground truth
/// of whether the player must redact it, derived from the `<...>` markup.
#[derive(Clone, Copy, PartialEq, Eq, Structural, Debug)]
pub struct MarkedChar {
    pub ch: char,
    pub to_redact: bool,
}

/// A character placed on a page grid cell.
#[derive(Clone, Copy, PartialEq, Eq, Structural, Debug)]
pub struct PlacedChar {
    pub ch: char,
    pub to_redact: bool,
    pub row: usize,
    pub col: usize,
}

/// The mathematical counterpart of [`PlacedChar`], with unbounded
/// coordinates so that the layout of arbitrary ghost text can be spoken of.
pub ghost struct PlacedCharView {
    pub ch: char,
    pub to_redact: bool,
    pub row: int,
    pub col: int,
}

impl View for PlacedChar {
    type V = PlacedCharView;

    open spec fn view(&self) -> PlacedCharView {
        PlacedCharView {
            ch: self.ch,
            to_redact: self.to_redact,
            row: self.row as int,
            col: self.col as int,
        }
    }
}

/// The word sequences a vector of words stands for.
pub open spec fn word_views(ws: Seq<Vec<MarkedChar>>) -> Seq<Seq<MarkedChar>> {
    Seq::new(ws.len(), |i: int| ws[i]@)
}

/// The placed cells a vector of placed characters stands for.
pub open spec fn cells_view(cs: Seq<PlacedChar>) -> Seq<PlacedCharView> {
    Seq::new(cs.len(), |i: int| cs[i]@)
}

/// The pages a vector of page vectors stands for.
pub open spec fn pages_view(ps: Seq<Vec<PlacedChar>>) -> Seq<Seq<PlacedCharView>> {
    Seq::new(ps.len(), |i: int| cells_view(ps[i]@))
}

/// Splits `text` into words, resolving the `<`/`>` markup as it goes:
/// `armed` is the markup state and `cur` the word read so far. Markers and
/// spaces never enter a word; a space ends the current word (consecutive
/// spaces yield empty words, which occupy a single separator cell each).
pub open spec fn mark_tokens(text: Seq<char>, armed: bool, cur: Seq<MarkedChar>) -> Seq<
    Seq<MarkedChar>,
>
    decreases text.len(),
{
    if text.len() == 0 {
        seq![cur]
    } else {
        let c = text[0];
        let rest = text.drop_first();
        if c == '<' {
            mark_tokens(rest, true, cur)
        } else if c == '>' {
            mark_tokens(rest, false, cur)
        } else if c == ' ' {
            seq![cur] + mark_tokens(rest, armed, Seq::empty())
        } else {
            mark_tokens(rest, armed, cur.push(MarkedChar { ch: c, to_redact: armed }))
        }
    }
}

/// The words of `text` with their redaction ground truth, in order.
pub open spec fn tokens_of(text: Seq<char>) -> Seq<Seq<MarkedChar>> {
    mark_tokens(text, false, Seq::empty())
}

/// The cells taken by word `tok` when it starts at column `col` of row
/// `row`: one cell per character, consecutive columns.
pub open spec fn place_token(tok: Seq<MarkedChar>, row: int, col: int) -> Seq<PlacedCharView> {
    Seq::new(
        tok.len(),
        |i: int|
            PlacedCharView {
                ch: tok[i].ch,
                to_redact: tok[i].to_redact,
                row: row,
                col: col + i,
            },
    )
}

/// One separator cell, never marked for redaction.
pub open spec fn separator_at(row: int, col: int) -> PlacedCharView {
    PlacedCharView { ch: ' ', to_redact: false, row: row, col: col }
}

/// Greedy placement of the remaining words `toks`, given the cursor
/// (`row`, `col`), the page built so far and the pages already finished.
/// `col` is the first free column of the current row; a word placed after
/// others on a row is preceded by one separator cell.
pub open spec fn wrap_go(
    toks: Seq<Seq<MarkedChar>>,
    max_cols: int,
    max_rows: int,
    row: int,
    col: int,
    page: Seq<PlacedCharView>,
    done: Seq<Seq<PlacedCharView>>,
) -> Seq<Seq<PlacedCharView>>
    decreases toks.len(),
{
    if toks.len() == 0 {
        done.push(page)
    } else {
        let w = toks[0];
        let rest = toks.drop_first();
        if col == 0 {
            // Start of a row: no separator, and no wrapping either — a word
            // longer than the whole row overruns the budget here.
            wrap_go(
                rest,
                max_cols,
                max_rows,
                row,
                w.len() as int,
                page + place_token(w, row, 0),
                done,
            )
        } else if col + 1 + w.len() <= max_cols {
            // The word fits after a separator on the current row.
            wrap_go(
                rest,
                max_cols,
                max_rows,
                row,
                col + 1 + w.len(),
                page + seq![separator_at(row, col)] + place_token(w, row, col + 1),
                done,
            )
        } else if row + 1 < max_rows {
            // Move the word to the start of the next row.
            wrap_go(
                rest,
                max_cols,
                max_rows,
                row + 1,
                w.len() as int,
                page + place_token(w, row + 1, 0),
                done,
            )
        } else {
            // The page is full: the word starts the next page.
            wrap_go(rest, max_cols, max_rows, 0, w.len() as int, place_token(w, 0, 0), done.push(page))
        }
    }
}

/// The pages that greedy wrap gives the word list `toks` on a grid of
/// `max_cols` columns and `max_rows` rows.
pub open spec fn wrap_spec(toks: Seq<Seq<MarkedChar>>, max_cols: int, max_rows: int) -> Seq<
    Seq<PlacedCharView>,
> {
    wrap_go(toks, max_cols, max_rows, 0, 0, Seq::empty(), Seq::empty())
}

/// The full pipeline: markup resolution, word split, then greedy wrap.
pub open spec fn layout_spec(text: Seq<char>, max_cols: int, max_rows: int) -> Seq<
    Seq<PlacedCharView>,
> {
    wrap_spec(tokens_of(text), max_cols, max_rows)
}

/// Appending one finished word appends its view to the word view.
proof fn lemma_word_views_push(ws: Seq<Vec<MarkedChar>>, w: Vec<MarkedChar>)
    ensures
        word_views(ws.push(w)) == word_views(ws).push(w@),
{
    assert(word_views(ws.push(w)) =~~= word_views(ws).push(w@));
}

/// Splits the visible characters of `text` into words with their redaction
/// ground truth, resolving and stripping the `<...>` markup.
pub fn tokenize(text: &Vec<char>) -> (toks: Vec<Vec<MarkedChar>>)
    ensures
        word_views(toks@) == tokens_of(text@),
{
    let ghost full: Seq<char> = text@;
    let mut done: Vec<Vec<MarkedChar>> = Vec::new();
    let mut cur: Vec<MarkedChar> = Vec::new();
    let mut armed: bool = false;
    let mut i: usize = 0;
    proof {
        assert(text@.skip(0) =~= text@);
        assert(word_views(done@) + mark_tokens(text@, false, Seq::empty()) =~~= mark_tokens(
            text@,
            false,
            Seq::empty(),
        ));
    }
    while i < text.len()
        invariant
            i <= text@.len(),
            full == text@,
            tokens_of(full) == word_views(done@) + mark_tokens(text@.skip(i as int), armed, cur@),
        decreases text@.len() - i,
    {
        let c = text[i];
        proof {
            assert(text@.skip(i as int)[0] == c);
            assert(text@.skip(i as int).drop_first() =~= text@.skip(i + 1));
        }
        if c == '<' {
            armed = true;
        } else if c == '>' {
            armed = false;
        } else if c == ' ' {
            let ghost dprev = done@;
            let finished = cur;
            cur = Vec::new();
            done.push(finished);
            proof {
                lemma_word_views_push(dprev, done@[done@.len() - 1]);
                assert(word_views(dprev).push(done@[done@.len() - 1]@) + mark_tokens(
                    text@.skip(i + 1),
                    armed,
                    cur@,
                ) =~~= word_views(dprev) + (seq![done@[done@.len() - 1]@] + mark_tokens(
                    text@.skip(i + 1),
                    armed,
                    cur@,
                )));
            }
        } else {
            cur.push(MarkedChar { ch: c, to_redact: armed });
        }
        i = i + 1;
    }
    proof {
        assert(text@.skip(text@.len() as int) =~= Seq::<char>::empty());
    }
    let ghost dprev = done@;
    let ghost last = cur@;
    done.push(cur);
    proof {
        lemma_word_views_push(dprev, done@[done@.len() - 1]);
        assert(word_views(dprev).push(last) =~~= word_views(dprev) + seq![last]);
    }
    done
}

/// Appending one placed character appends its view to the cell view.
proof fn lemma_cells_view_push(cs: Seq<PlacedChar>, pc: PlacedChar)
    ensures
        cells_view(cs.push(pc)) == cells_view(cs).push(pc@),
{
    assert(cells_view(cs.push(pc)) =~= cells_view(cs).push(pc@));
}

/// Appending one finished page appends its cell view to the page view.
proof fn lemma_pages_view_push(ps: Seq<Vec<PlacedChar>>, p: Vec<PlacedChar>)
    ensures
        pages_view(ps.push(p)) == pages_view(ps).push(cells_view(p@)),
{
    assert(pages_view(ps.push(p)) =~~= pages_view(ps).push(cells_view(p@)));
}

/// One more character of a word takes one more consecutive cell.
proof fn lemma_place_token_take_step(tok: Seq<MarkedChar>, j: int, row: int, col: int)
    requires
        0 <= j < tok.len(),
    ensures
        place_token(tok.take(j + 1), row, col) == place_token(tok.take(j), row, col).push(
            PlacedCharView { ch: tok[j].ch, to_redact: tok[j].to_redact, row: row, col: col + j },
        ),
{
    assert(place_token(tok.take(j + 1), row, col) =~= place_token(tok.take(j), row, col).push(
        PlacedCharView { ch: tok[j].ch, to_redact: tok[j].to_redact, row: row, col: col + j },
    ));
}

/// Appends the cells of word `w` starting at column `start` of row `row`.
fn push_token(page: &mut Vec<PlacedChar>, w: &Vec<MarkedChar>, row: usize, start: usize)
    requires
        start + w@.len() <= usize::MAX,
    ensures
        cells_view(final(page)@) == cells_view(old(page)@) + place_token(
            w@,
            row as int,
            start as int,
        ),
{
    let ghost base = cells_view(old(page)@);
    let mut j: usize = 0;
    while j < w.len()
        invariant
            j <= w@.len(),
            start + w@.len() <= usize::MAX,
            cells_view(page@) == base + place_token(w@.take(j as int), row as int, start as int),
        decreases w@.len() - j,
    {
        let ghost prepage = page@;
        let mc = w[j];
        let pc = PlacedChar { ch: mc.ch, to_redact: mc.to_redact, row: row, col: start + j };
        page.push(pc);
        proof {
            lemma_cells_view_push(prepage, pc);
            lemma_place_token_take_step(w@, j as int, row as int, start as int);
            assert((base + place_token(w@.take(j as int), row as int, start as int)).push(pc@)
                =~= base + place_token(w@.take(j + 1), row as int, start as int));
        }
        j = j + 1;
    }
    proof {
        assert(w@.take(w@.len() as int) =~= w@);
    }
}

/// Greedy word-wrap of `toks` onto pages of `max_cols` columns and
/// `max_rows` rows. The result is exactly what [`wrap_spec`] describes.
pub fn wrap_tokens(toks: &Vec<Vec<MarkedChar>>, max_cols: usize, max_rows: usize) -> (pages: Vec<
    Vec<PlacedChar>,
>)
    requires
        1 <= max_cols,
        1 <= max_rows,
    ensures
        pages_view(pages@) == wrap_spec(word_views(toks@), max_cols as int, max_rows as int),
{
    let mut done: Vec<Vec<PlacedChar>> = Vec::new();
    let mut page: Vec<PlacedChar> = Vec::new();
    let mut row: usize = 0;
    let mut col: usize = 0;
    let mut i: usize = 0;
    proof {
        assert(word_views(toks@).skip(0) =~~= word_views(toks@));
        assert(cells_view(page@) =~= Seq::<PlacedCharView>::empty());
        assert(pages_view(done@) =~~= Seq::<Seq<PlacedCharView>>::empty());
    }
    while i < toks.len()
        invariant
            i <= toks@.len(),
            row < max_rows,
            1 <= max_cols,
            1 <= max_rows,
            wrap_spec(word_views(toks@), max_cols as int, max_rows as int) == wrap_go(
                word_views(toks@).skip(i as int),
                max_cols as int,
                max_rows as int,
                row as int,
                col as int,
                cells_view(page@),
                pages_view(done@),
            ),
        decreases toks@.len() - i,
    {
        let w: &Vec<MarkedChar> = &toks[i];
        let wl = w.len();
        proof {
            assert(word_views(toks@).skip(i as int)[0] == w@);
            assert(word_views(toks@).skip(i as int).drop_first() =~~= word_views(toks@).skip(i + 1));
        }
        if col == 0 {
            push_token(&mut page, w, row, 0);
            col = wl;
        } else if col < max_cols && wl <= max_cols - (col + 1) {
            let ghost mid = cells_view(page@);
            let ghost prepage = page@;
            let sep = PlacedChar { ch: ' ', to_redact: false, row: row, col: col };
            page.push(sep);
            proof {
                lemma_cells_view_push(prepage, sep);
                assert(mid.push(sep@) =~= mid + seq![separator_at(row as int, col as int)]);
            }
            push_token(&mut page, w, row, col + 1);
            proof {
                assert(mid + seq![separator_at(row as int, col as int)] + place_token(
                    w@,
                    row as int,
                    col + 1,
                ) =~= cells_view(page@));
            }
            col = col + 1 + wl;
        } else if row < max_rows - 1 {
            row = row + 1;
            push_token(&mut page, w, row, 0);
            col = wl;
        } else {
            let ghost dprev = done@;
            let finished = page;
            page = Vec::new();
            done.push(finished);
            proof {
                lemma_pages_view_push(dprev, finished);
                assert(cells_view(page@) =~= Seq::<PlacedCharView>::empty());
            }
            row = 0;
            push_token(&mut page, w, row, 0);
            proof {
                assert(cells_view(page@) =~= place_token(w@, 0, 0));
            }
            col = wl;
        }
        i = i + 1;
    }
    proof {
        assert(word_views(toks@).skip(toks@.len() as int) =~~= Seq::<Seq<MarkedChar>>::empty());
    }
    let ghost dprev = done@;
    done.push(page);
    proof {
        lemma_pages_view_push(dprev, done@[done@.len() - 1]);
    }
    done
}

/// Induction step for the column-budget law: as long as every remaining
/// word fits on a row, every cell the wrap places stays inside the budget.
proof fn lemma_wrap_go_cols(
    toks: Seq<Seq<MarkedChar>>,
    max_cols: int,
    max_rows: int,
    row: int,
    col: int,
    page: Seq<PlacedCharView>,
    done: Seq<Seq<PlacedCharView>>,
    r: Seq<Seq<PlacedCharView>>,
)
    requires
        r == wrap_go(toks, max_cols, max_rows, row, col, page, done),
        1 <= max_cols,
        0 <= col <= max_cols,
        forall|k: int| 0 <= k < toks.len() ==> (#[trigger] toks[k]).len() <= max_cols,
        forall|j: int| 0 <= j < page.len() ==> 0 <= (#[trigger] page[j]).col < max_cols,
        forall|p: int, j: int|
            0 <= p < done.len() && 0 <= j < done[p].len() ==> 0 <= (#[trigger] done[p][j]).col
                < max_cols,
    ensures
        forall|p: int, j: int|
            0 <= p < r.len() && 0 <= j < r[p].len() ==> 0 <= (#[trigger] r[p][j]).col < max_cols,
    decreases toks.len(),
{
    if toks.len() == 0 {
        assert forall|p: int, j: int|
            0 <= p < r.len() && 0 <= j < r[p].len() implies 0 <= (#[trigger] r[p][j]).col
            < max_cols by {
            if p < done.len() {
                assert(r[p] == done[p]);
            } else {
                assert(r[p] == page);
            }
        }
    } else {
        let w = toks[0];
        let rest = toks.drop_first();
        assert(w.len() <= max_cols);
        assert forall|k: int| 0 <= k < rest.len() implies (#[trigger] rest[k]).len()
            <= max_cols by {
            assert(rest[k] == toks[k + 1]);
        }
        if col == 0 {
            let page2 = page + place_token(w, row, 0);
            assert forall|j: int| 0 <= j < page2.len() implies 0 <= (#[trigger] page2[j]).col
                < max_cols by {
                if j >= page.len() {
                    assert(page2[j] == place_token(w, row, 0)[j - page.len()]);
                }
            }
            lemma_wrap_go_cols(rest, max_cols, max_rows, row, w.len() as int, page2, done, r);
        } else if col + 1 + w.len() <= max_cols {
            let page2 = page + seq![separator_at(row, col)] + place_token(w, row, col + 1);
            assert forall|j: int| 0 <= j < page2.len() implies 0 <= (#[trigger] page2[j]).col
                < max_cols by {
                if j == page.len() {
                    assert(page2[j] == separator_at(row, col));
                } else if j > page.len() {
                    assert(page2[j] == place_token(w, row, col + 1)[j - page.len() - 1]);
                }
            }
            lemma_wrap_go_cols(rest, max_cols, max_rows, row, col + 1 + w.len(), page2, done, r);
        } else if row + 1 < max_rows {
            let page2 = page + place_token(w, row + 1, 0);
            assert forall|j: int| 0 <= j < page2.len() implies 0 <= (#[trigger] page2[j]).col
                < max_cols by {
                if j >= page.len() {
                    assert(page2[j] == place_token(w, row + 1, 0)[j - page.len()]);
                }
            }
            lemma_wrap_go_cols(rest, max_cols, max_rows, row + 1, w.len() as int, page2, done, r);
        } else {
            let page2 = place_token(w, 0, 0);
            let done2 = done.push(page);
            assert forall|p: int, j: int|
                0 <= p < done2.len() && 0 <= j < done2[p].len() implies 0 <= (#[trigger] done2[p][j]).col
                < max_cols by {
                if p < done.len() {
                    assert(done2[p] == done[p]);
                } else {
                    assert(done2[p] == page);
                }
            }
            lemma_wrap_go_cols(rest, max_cols, max_rows, 0, w.len() as int, page2, done2, r);
        }
    }
}

/// LAW: word-wrap never places a character outside the column budget as
/// long as no single word is itself longer than a whole row — words are
/// never split mid-word, so only an over-long word can overrun a row.
pub proof fn lemma_layout_within_budget(text: Seq<char>, max_cols: int, max_rows: int)
    requires
        1 <= max_cols,
        1 <= max_rows,
        forall|k: int|
            0 <= k < tokens_of(text).len() ==> (#[trigger] tokens_of(text)[k]).len() <= max_cols,
    ensures
        forall|p: int, j: int|
            0 <= p < layout_spec(text, max_cols, max_rows).len() && 0 <= j < layout_spec(
                text,
                max_cols,
                max_rows,
            )[p].len() ==> 0 <= (#[trigger] layout_spec(text, max_cols, max_rows)[p][j]).col
                < max_cols,
{
    lemma_wrap_go_cols(
        tokens_of(text),
        max_cols,
        max_rows,
        0,
        0,
        Seq::empty(),
        Seq::empty(),
        layout_spec(text, max_cols, max_rows),
    );
}

/// Induction step for the row-budget law: every cell lands on a row of its
/// page, whatever the words are.
proof fn lemma_wrap_go_rows(
    toks: Seq<Seq<MarkedChar>>,
    max_cols: int,
    max_rows: int,
    row: int,
    col: int,
    page: Seq<PlacedCharView>,
    done: Seq<Seq<PlacedCharView>>,
    r: Seq<Seq<PlacedCharView>>,
)
    requires
        r == wrap_go(toks, max_cols, max_rows, row, col, page, done),
        1 <= max_rows,
        0 <= row < max_rows,
        forall|j: int| 0 <= j < page.len() ==> 0 <= (#[trigger] page[j]).row < max_rows,
        forall|p: int, j: int|
            0 <= p < done.len() && 0 <= j < done[p].len() ==> 0 <= (#[trigger] done[p][j]).row
                < max_rows,
    ensures
        forall|p: int, j: int|
            0 <= p < r.len() && 0 <= j < r[p].len() ==> 0 <= (#[trigger] r[p][j]).row < max_rows,
    decreases toks.len(),
{
    if toks.len() == 0 {
        assert forall|p: int, j: int|
            0 <= p < r.len() && 0 <= j < r[p].len() implies 0 <= (#[trigger] r[p][j]).row
            < max_rows by {
            if p < done.len() {
                assert(r[p] == done[p]);
            } else {
                assert(r[p] == page);
            }
        }
    } else {
        let w = toks[0];
        let rest = toks.drop_first();
        if col == 0 {
            let page2 = page + place_token(w, row, 0);
            assert forall|j: int| 0 <= j < page2.len() implies 0 <= (#[trigger] page2[j]).row
                < max_rows by {
                if j >= page.len() {
                    assert(page2[j] == place_token(w, row, 0)[j - page.len()]);
                }
            }
            lemma_wrap_go_rows(rest, max_cols, max_rows, row, w.len() as int, page2, done, r);
        } else if col + 1 + w.len() <= max_cols {
            let page2 = page + seq![separator_at(row, col)] + place_token(w, row, col + 1);
            assert forall|j: int| 0 <= j < page2.len() implies 0 <= (#[trigger] page2[j]).row
                < max_rows by {
                if j == page.len() {
                    assert(page2[j] == separator_at(row, col));
                } else if j > page.len() {
                    assert(page2[j] == place_token(w, row, col + 1)[j - page.len() - 1]);
                }
            }
            lemma_wrap_go_rows(rest, max_cols, max_rows, row, col + 1 + w.len(), page2, done, r);
        } else if row + 1 < max_rows {
            let page2 = page + place_token(w, row + 1, 0);
            assert forall|j: int| 0 <= j < page2.len() implies 0 <= (#[trigger] page2[j]).row
                < max_rows by {
                if j >= page.len() {
                    assert(page2[j] == place_token(w, row + 1, 0)[j - page.len()]);
                }
            }
            lemma_wrap_go_rows(rest, max_cols, max_rows, row + 1, w.len() as int, page2, done, r);
        } else {
            let page2 = place_token(w, 0, 0);
            let done2 = done.push(page);
            assert forall|p: int, j: int|
                0 <= p < done2.len() && 0 <= j < done2[p].len() implies 0 <= (#[trigger] done2[p][j]).row
                < max_rows by {
                if p < done.len() {
                    assert(done2[p] == done[p]);
                } else {
                    assert(done2[p] == page);
                }
            }
            lemma_wrap_go_rows(rest, max_cols, max_rows, 0, w.len() as int, page2, done2, r);
        }
    }
}

/// LAW: every cell the layout places lands on a row inside the page's row
/// budget, whatever the source text.
pub proof fn lemma_layout_rows_bounded(text: Seq<char>, max_cols: int, max_rows: int)
    requires
        1 <= max_cols,
        1 <= max_rows,
    ensures
        forall|p: int, j: int|
            0 <= p < layout_spec(text, max_cols, max_rows).len() && 0 <= j < layout_spec(
                text,
                max_cols,
                max_rows,
            )[p].len() ==> 0 <= (#[trigger] layout_spec(text, max_cols, max_rows)[p][j]).row
                < max_rows,
{
    lemma_wrap_go_rows(
        tokens_of(text),
        max_cols,
        max_rows,
        0,
        0,
        Seq::empty(),
        Seq::empty(),
        layout_spec(text, max_cols, max_rows),
    );
}

/// The word content of placed cells: the non-separator cells in order,
/// read back as marked characters.
pub open spec fn visible_marks(cells: Seq<PlacedCharView>) -> Seq<MarkedChar>
    decreases cells.len(),
{
    if cells.len() == 0 {
        Seq::empty()
    } else if cells[0].ch == ' ' {
        visible_marks(cells.drop_first())
    } else {
        seq![MarkedChar { ch: cells[0].ch, to_redact: cells[0].to_redact }] + visible_marks(
            cells.drop_first(),
        )
    }
}

/// The word content of a sequence of pages, page after page.
pub open spec fn pages_content(pages: Seq<Seq<PlacedCharView>>) -> Seq<MarkedChar>
    decreases pages.len(),
{
    if pages.len() == 0 {
        Seq::empty()
    } else {
        pages_content(pages.drop_last()) + visible_marks(pages.last())
    }
}

/// All characters of a word list, word after word.
pub open spec fn tokens_content(toks: Seq<Seq<MarkedChar>>) -> Seq<MarkedChar>
    decreases toks.len(),
{
    if toks.len() == 0 {
        Seq::empty()
    } else {
        toks[0] + tokens_content(toks.drop_first())
    }
}

/// Word content distributes over concatenation of cells.
proof fn lemma_visible_marks_add(a: Seq<PlacedCharView>, b: Seq<PlacedCharView>)
    ensures
        visible_marks(a + b) == visible_marks(a) + visible_marks(b),
    decreases a.len(),
{
    if a.len() == 0 {
        assert(a + b =~= b);
        assert(visible_marks(a) + visible_marks(b) =~= visible_marks(b));
    } else {
        assert((a + b).drop_first() =~= a.drop_first() + b);
        lemma_visible_marks_add(a.drop_first(), b);
        if a[0].ch == ' ' {
        } else {
            assert(seq![MarkedChar { ch: a[0].ch, to_redact: a[0].to_redact }] + (visible_marks(
                a.drop_first(),
            ) + visible_marks(b)) =~= (seq![MarkedChar { ch: a[0].ch, to_redact: a[0].to_redact }]
                + visible_marks(a.drop_first())) + visible_marks(b));
        }
    }
}

/// Placing a word on a row reads back as exactly that word, since none of
/// its characters is a space.
proof fn lemma_visible_marks_place(tok: Seq<MarkedChar>, row: int, col: int)
    requires
        forall|k: int| 0 <= k < tok.len() ==> (#[trigger] tok[k]).ch != ' ',
    ensures
        visible_marks(place_token(tok, row, col)) == tok,
    decreases tok.len(),
{
    let cells = place_token(tok, row, col);
    if tok.len() == 0 {
        assert(visible_marks(cells) =~= tok);
    } else {
        assert(cells.drop_first() =~= place_token(tok.drop_first(), row, col + 1));
        lemma_visible_marks_place(tok.drop_first(), row, col + 1);
        assert(cells[0].ch == tok[0].ch);
        assert(seq![MarkedChar { ch: tok[0].ch, to_redact: tok[0].to_redact }] + tok.drop_first()
            =~= tok);
    }
}

/// Induction step for the content law: wrapping appends to the content
/// already placed exactly the characters of the remaining words.
proof fn lemma_wrap_go_content(
    toks: Seq<Seq<MarkedChar>>,
    max_cols: int,
    max_rows: int,
    row: int,
    col: int,
    page: Seq<PlacedCharView>,
    done: Seq<Seq<PlacedCharView>>,
    r: Seq<Seq<PlacedCharView>>,
)
    requires
        r == wrap_go(toks, max_cols, max_rows, row, col, page, done),
        forall|k: int, j: int|
            0 <= k < toks.len() && 0 <= j < toks[k].len() ==> (#[trigger] toks[k][j]).ch != ' ',
    ensures
        pages_content(r) == pages_content(done) + visible_marks(page) + tokens_content(toks),
    decreases toks.len(),
{
    if toks.len() == 0 {
        assert(r.drop_last() =~~= done);
        assert(r.last() =~= page);
        assert(pages_content(done) + visible_marks(page) + tokens_content(toks) =~= pages_content(
            done,
        ) + visible_marks(page));
    } else {
        let w = toks[0];
        let rest = toks.drop_first();
        assert forall|k: int, j: int|
            0 <= k < rest.len() && 0 <= j < rest[k].len() implies (#[trigger] rest[k][j]).ch
            != ' ' by {
            assert(rest[k] == toks[k + 1]);
        }
        assert(forall|j: int| 0 <= j < w.len() ==> (#[trigger] w[j]).ch != ' ');
        assert(tokens_content(toks) == w + tokens_content(rest));
        if col == 0 {
            let page2 = page + place_token(w, row, 0);
            lemma_wrap_go_content(rest, max_cols, max_rows, row, w.len() as int, page2, done, r);
            lemma_visible_marks_add(page, place_token(w, row, 0));
            lemma_visible_marks_place(w, row, 0);
            assert(pages_content(done) + (visible_marks(page) + w) + tokens_content(rest)
                =~= pages_content(done) + visible_marks(page) + (w + tokens_content(rest)));
        } else if col + 1 + w.len() <= max_cols {
            let sep = seq![separator_at(row, col)];
            let page2 = page + sep + place_token(w, row, col + 1);
            lemma_wrap_go_content(
                rest,
                max_cols,
                max_rows,
                row,
                col + 1 + w.len(),
                page2,
                done,
                r,
            );
            lemma_visible_marks_add(page + sep, place_token(w, row, col + 1));
            lemma_visible_marks_add(page, sep);
            lemma_visible_marks_place(w, row, col + 1);
            assert(sep[0].ch == ' ');
            assert(sep.drop_first() =~= Seq::<PlacedCharView>::empty());
            assert(visible_marks(Seq::<PlacedCharView>::empty()) == Seq::<MarkedChar>::empty());
            assert(visible_marks(sep) == visible_marks(sep.drop_first()));
            assert(visible_marks(sep) =~= Seq::<MarkedChar>::empty());
            assert(visible_marks(page) + Seq::<MarkedChar>::empty() =~= visible_marks(page));
            assert(pages_content(done) + (visible_marks(page) + w) + tokens_content(rest)
                =~= pages_content(done) + visible_marks(page) + (w + tokens_content(rest)));
        } else if row + 1 < max_rows {
            let page2 = page + place_token(w, row + 1, 0);
            lemma_wrap_go_content(
                rest,
                max_cols,
                max_rows,
                row + 1,
                w.len() as int,
                page2,
                done,
                r,
            );
            lemma_visible_marks_add(page, place_token(w, row + 1, 0));
            lemma_visible_marks_place(w, row + 1, 0);
            assert(pages_content(done) + (visible_marks(page) + w) + tokens_content(rest)
                =~= pages_content(done) + visible_marks(page) + (w + tokens_content(rest)));
        } else {
            let page2 = place_token(w, 0, 0);
            let done2 = done.push(page);
            lemma_wrap_go_content(rest, max_cols, max_rows, 0, w.len() as int, page2, done2, r);
            lemma_visible_marks_place(w, 0, 0);
            assert(done2.drop_last() =~~= done);
            assert(done2.last() =~= page);
            assert(pages_content(done2) == pages_content(done) + visible_marks(page));
            assert(pages_content(done2) + w + tokens_content(rest) =~= pages_content(done)
                + visible_marks(page) + (w + tokens_content(rest)));
        }
    }
}

/// No word that markup resolution produces contains a space: spaces end
/// words and never enter one.
proof fn lemma_tokens_no_spaces(text: Seq<char>, armed: bool, cur: Seq<MarkedChar>)
    requires
        forall|j: int| 0 <= j < cur.len() ==> (#[trigger] cur[j]).ch != ' ',
    ensures
        forall|k: int, j: int|
            0 <= k < mark_tokens(text, armed, cur).len() && 0 <= j < mark_tokens(
                text,
                armed,
                cur,
            )[k].len() ==> (#[trigger] mark_tokens(text, armed, cur)[k][j]).ch != ' ',
    decreases text.len(),
{
    let r = mark_tokens(text, armed, cur);
    if text.len() == 0 {
        assert forall|k: int, j: int|
            0 <= k < r.len() && 0 <= j < r[k].len() implies (#[trigger] r[k][j]).ch != ' ' by {
            assert(r[0] == cur);
            assert(cur[j].ch != ' ');
        }
    } else {
        let rest = text.drop_first();
        if text[0] == '<' {
            lemma_tokens_no_spaces(rest, true, cur);
            let tail = mark_tokens(rest, true, cur);
            assert forall|k: int, j: int|
                0 <= k < r.len() && 0 <= j < r[k].len() implies (#[trigger] r[k][j]).ch != ' ' by {
                assert(r == tail);
                assert(tail[k][j].ch != ' ');
            }
        } else if text[0] == '>' {
            lemma_tokens_no_spaces(rest, false, cur);
            let tail = mark_tokens(rest, false, cur);
            assert forall|k: int, j: int|
                0 <= k < r.len() && 0 <= j < r[k].len() implies (#[trigger] r[k][j]).ch != ' ' by {
                assert(r == tail);
                assert(tail[k][j].ch != ' ');
            }
        } else if text[0] == ' ' {
            lemma_tokens_no_spaces(rest, armed, Seq::empty());
            let tail = mark_tokens(rest, armed, Seq::empty());
            assert(r == seq![cur] + tail);
            assert forall|k: int, j: int|
                0 <= k < r.len() && 0 <= j < r[k].len() implies (#[trigger] r[k][j]).ch != ' ' by {
                if k == 0 {
                    assert(r[0] == cur);
                } else {
                    assert(r[k] == tail[k - 1]);
                    assert(tail[k - 1][j].ch != ' ');
                }
            }
        } else {
            lemma_no_space_push(text[0], armed, cur);
            lemma_tokens_no_spaces(rest, armed, cur.push(marked(text[0], armed)));
            let tail = mark_tokens(rest, armed, cur.push(marked(text[0], armed)));
            assert forall|k: int, j: int|
                0 <= k < r.len() && 0 <= j < r[k].len() implies (#[trigger] r[k][j]).ch != ' ' by {
                assert(r == tail);
                assert(tail[k][j].ch != ' ');
            }
        }
    }
}

/// One character of a word, with the markup state it was read under.
pub open spec fn marked(c: char, armed: bool) -> MarkedChar {
    MarkedChar { ch: c, to_redact: armed }
}

/// Pushing a non-space character onto a word without spaces leaves a word
/// without spaces.
proof fn lemma_no_space_push(c: char, armed: bool, cur: Seq<MarkedChar>)
    requires
        c != ' ',
        forall|j: int| 0 <= j < cur.len() ==> (#[trigger] cur[j]).ch != ' ',
    ensures
        forall|j: int|
            0 <= j < cur.push(marked(c, armed)).len() ==> (#[trigger] cur.push(
                marked(c, armed),
            )[j]).ch != ' ',
{
    let cur2 = cur.push(marked(c, armed));
    assert forall|j: int| 0 <= j < cur2.len() implies (#[trigger] cur2[j]).ch != ' ' by {
        if j < cur.len() {
            assert(cur2[j] == cur[j]);
        } else {
            assert(cur2[j] == marked(c, armed));
        }
    }
}

/// LAW: the layout loses and invents nothing — reading every page's
/// non-separator cells in order gives back exactly the characters of the
/// words of the source text, with their redaction ground truth.
pub proof fn lemma_layout_preserves_words(text: Seq<char>, max_cols: int, max_rows: int)
    ensures
        pages_content(layout_spec(text, max_cols, max_rows)) == tokens_content(tokens_of(text)),
{
    lemma_tokens_no_spaces(text, false, Seq::empty());
    lemma_wrap_go_content(
        tokens_of(text),
        max_cols,
        max_rows,
        0,
        0,
        Seq::empty(),
        Seq::empty(),
        layout_spec(text, max_cols, max_rows),
    );
    assert(pages_content(Seq::<Seq<PlacedCharView>>::empty()) + visible_marks(
        Seq::<PlacedCharView>::empty(),
    ) + tokens_content(tokens_of(text)) =~= tokens_content(tokens_of(text)));
}

/// Lays out marked-up source text: resolves the markup, splits words, and
/// wraps them onto pages.
pub fn layout_text(text: &Vec<char>, max_cols: usize, max_rows: usize) -> (pages: Vec<
    Vec<PlacedChar>,
>)
    requires
        1 <= max_cols,
        1 <= max_rows,
    ensures
        pages_view(pages@) == layout_spec(text@, max_cols as int, max_rows as int),
{
    let toks = tokenize(text);
    wrap_tokens(&toks, max_cols, max_rows)
}

} // verus!
