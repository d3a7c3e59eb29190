//! The document on the desk: its pages, the per-character redaction
//! state, the score ledger, and the redaction event itself.

use vstd::prelude::*;
use crate::layout::MarkedChar;
use crate::layout::PlacedChar;
use crate::layout::PlacedCharView;
use crate::layout::cells_view;
use crate::layout::layout_spec;
use crate::layout::layout_text;
use crate::layout::marked;
use crate::layout::pages_view;
use crate::layout::visible_marks;
use crate::feedback::Feedbacks;
use crate::pen::Marker;
use crate::text::chars_of_str;
use crate::timer::CountdownTimer;
use crate::timer::PENALTY_MS;

verus! {

/// Columns of one page row.
pub const PAGE_COLUMNS: usize = 24;

/// Rows of one page.
pub const PAGE_ROWS: usize = 26;

/// One character of the active page, as the player sees it: the ground
/// truth of whether it must be redacted, whether it has been, and which
/// page it belongs to.
#[derive(Clone, Copy, PartialEq, Eq, Structural, Debug)]
pub struct Character {
    pub to_redact: bool,
    pub is_redacted: bool,
    pub page_num: u32,
}

/// The running score ledger across all pages.
#[derive(Clone, Copy, PartialEq, Eq, Structural, Debug)]
pub struct PageScores {
    /// Characters shown so far.
    pub total_chars: u32,
    /// Characters that had to be redacted.
    pub total_to_redact: u32,
    /// Characters the player redacted that indeed had to be.
    pub correctly_redacted: u32,
}

impl Default for PageScores {
    fn default() -> (s: Self)
        ensures
            s.total_chars == 0,
            s.total_to_redact == 0,
            s.correctly_redacted == 0,
    {
        PageScores { total_chars: 0, total_to_redact: 0, correctly_redacted: 0 }
    }
}

impl PageScores {
    /// Fresh ledger for a new session.
    pub fn reset(&mut self)
        ensures
            final(self).total_chars == 0,
            final(self).total_to_redact == 0,
            final(self).correctly_redacted == 0,
    {
        self.total_chars = 0;
        self.total_to_redact = 0;
        self.correctly_redacted = 0;
    }
}

/// The source document laid out into pages, ready to be shown one page at
/// a time.
pub struct PageText {
    pages: Vec<Vec<PlacedChar>>,
}

impl View for PageText {
    type V = Seq<Seq<PlacedCharView>>;

    closed spec fn view(&self) -> Seq<Seq<PlacedCharView>> {
        pages_view(self.pages@)
    }
}

impl PageText {
    /// Lays the whole marked-up source text out into pages of
    /// [`PAGE_COLUMNS`] by [`PAGE_ROWS`].
    pub fn from_text(full_text: String) -> (pt: Self)
        ensures
            pt@ == layout_spec(full_text@, PAGE_COLUMNS as int, PAGE_ROWS as int),
    {
        let chars = chars_of_str(full_text.as_str());
        let pages = layout_text(&chars, PAGE_COLUMNS, PAGE_ROWS);
        PageText { pages }
    }

    pub fn page_count(&self) -> (n: usize)
        ensures
            n == self@.len(),
    {
        self.pages.len()
    }
}

/// The cells of a page the player can actually redact: every placed
/// character that is not a separator space, in placement order.
pub open spec fn visible_cells(page: Seq<PlacedCharView>) -> Seq<PlacedCharView>
    decreases page.len(),
{
    if page.len() == 0 {
        Seq::empty()
    } else {
        let rest = visible_cells(page.drop_last());
        if page.last().ch == ' ' {
            rest
        } else {
            rest.push(page.last())
        }
    }
}

/// How many cells of the page must be redacted.
pub open spec fn marked_count(page: Seq<PlacedCharView>) -> nat
    decreases page.len(),
{
    if page.len() == 0 {
        0
    } else {
        marked_count(page.drop_last()) + if page.last().ch != ' ' && page.last().to_redact {
            1nat
        } else {
            0nat
        }
    }
}

/// A prefix of a page shows at most as many cells, and at most as many
/// marked cells, as the whole page.
proof fn lemma_prefix_counts(page: Seq<PlacedCharView>, j: int)
    requires
        0 <= j <= page.len(),
    ensures
        visible_cells(page.take(j)).len() <= visible_cells(page).len(),
        marked_count(page.take(j)) <= marked_count(page),
    decreases page.len() - j,
{
    if j == page.len() {
        assert(page.take(j) =~= page);
    } else {
        assert(page.take(j + 1).drop_last() =~= page.take(j));
        lemma_prefix_counts(page, j + 1);
    }
}

/// A page's word content read one cell later: pushing a cell appends its
/// character unless it is a separator.
proof fn lemma_visible_marks_snoc(cells: Seq<PlacedCharView>, x: PlacedCharView)
    ensures
        visible_marks(cells.push(x)) == visible_marks(cells) + (if x.ch == ' ' {
            Seq::<MarkedChar>::empty()
        } else {
            seq![marked(x.ch, x.to_redact)]
        }),
    decreases cells.len(),
{
    let q = cells.push(x);
    if cells.len() == 0 {
        assert(q.drop_first() =~= Seq::<PlacedCharView>::empty());
        assert(visible_marks(Seq::<PlacedCharView>::empty()) == Seq::<MarkedChar>::empty());
        assert(visible_marks(q) == visible_marks(q.drop_first()) || visible_marks(q) == seq![
            marked(q[0].ch, q[0].to_redact),
        ] + visible_marks(q.drop_first()));
        if x.ch == ' ' {
            assert(visible_marks(q) =~= visible_marks(cells) + Seq::<MarkedChar>::empty());
        } else {
            assert(visible_marks(q) =~= visible_marks(cells) + seq![marked(x.ch, x.to_redact)]);
        }
    } else {
        assert(q[0] == cells[0]);
        assert(q.drop_first() =~= cells.drop_first().push(x));
        lemma_visible_marks_snoc(cells.drop_first(), x);
        if cells[0].ch == ' ' {
        } else {
            assert(seq![marked(cells[0].ch, cells[0].to_redact)] + (visible_marks(
                cells.drop_first(),
            ) + (if x.ch == ' ' {
                Seq::<MarkedChar>::empty()
            } else {
                seq![marked(x.ch, x.to_redact)]
            })) =~= (seq![marked(cells[0].ch, cells[0].to_redact)] + visible_marks(
                cells.drop_first(),
            )) + (if x.ch == ' ' {
                Seq::<MarkedChar>::empty()
            } else {
                seq![marked(x.ch, x.to_redact)]
            }));
        }
    }
}

/// LAW: the characters a page shows the player are exactly the page's
/// word content — same characters, same redaction ground truth, in order.
/// Together with the layout's content law this ties what is spawned on
/// the desk back to the words of the source text.
pub proof fn lemma_visible_cells_match_marks(page: Seq<PlacedCharView>)
    ensures
        visible_marks(page) == visible_cells(page).map_values(
            |pc: PlacedCharView| marked(pc.ch, pc.to_redact),
        ),
    decreases page.len(),
{
    if page.len() == 0 {
        assert(visible_marks(page) =~= visible_cells(page).map_values(
            |pc: PlacedCharView| marked(pc.ch, pc.to_redact),
        ));
    } else {
        let front = page.drop_last();
        let x = page.last();
        lemma_visible_cells_match_marks(front);
        assert(front.push(x) =~= page);
        lemma_visible_marks_snoc(front, x);
        if x.ch == ' ' {
            assert(visible_marks(page) =~= visible_marks(front));
        } else {
            assert(visible_cells(page) == visible_cells(front).push(x));
            assert(visible_marks(page) =~= visible_cells(page).map_values(
                |pc: PlacedCharView| marked(pc.ch, pc.to_redact),
            ));
        }
    }
}

/// One character to spawn on the page: what it reads, where it sits, and
/// its redaction state.
#[derive(Clone, Copy, PartialEq, Eq, Structural, Debug)]
pub struct CharCell {
    pub ch: char,
    pub row: usize,
    pub col: usize,
    pub state: Character,
}

/// The document prop: its laid-out pages, the per-page counters, and
/// which page is showing (`-1` before the first page is turned up).
pub struct Page {
    /// The laid-out document (see [`View`]: the view of the page is the
    /// view of these pages).
    pub pages: PageText,
    pub to_redact: u32,
    pub is_redacted: u32,
    pub total_chars: u32,
    pub page_num: i32,
}

impl View for Page {
    type V = Seq<Seq<PlacedCharView>>;

    closed spec fn view(&self) -> Seq<Seq<PlacedCharView>> {
        self.pages@
    }
}

impl Page {
    pub open spec fn wf(&self) -> bool {
        -1 <= self.page_num && self.page_num + 1 <= self@.len()
    }

    /// Another page is left to turn to.
    pub open spec fn spec_can_advance(&self) -> bool {
        self.page_num + 1 < self@.len() && self.page_num + 1 <= i32::MAX
    }

    /// A fresh document showing no page yet.
    pub fn new(pages: PageText) -> (p: Self)
        ensures
            p.wf(),
            p@ == pages@,
            p.to_redact == 0,
            p.is_redacted == 0,
            p.total_chars == 0,
            p.page_num == -1,
    {
        Page { pages, to_redact: 0, is_redacted: 0, total_chars: 0, page_num: -1 }
    }

    pub fn page_count(&self) -> (n: usize)
        ensures
            n == self@.len(),
    {
        self.pages.page_count()
    }

    /// Whether the next-page interaction has a page left to show; turning
    /// past the last page is not allowed.
    pub fn can_advance(&self) -> (b: bool)
        requires
            self.wf(),
        ensures
            b == self.spec_can_advance(),
    {
        if self.page_num == i32::MAX {
            return false;
        }
        let next = self.page_num + 1;
        (next as usize) < self.pages.page_count()
    }

    /// Turns the next page up: clears the old page's characters (the
    /// caller despawns them), lays the next page's characters out, and
    /// adds the page's counts to the document and to the ledger.
    pub fn advance(&mut self, scores: &mut PageScores) -> (cells: Vec<CharCell>)
        requires
            old(self).wf(),
            old(self).spec_can_advance(),
            old(self).total_chars + visible_cells(
                old(self)@[old(self).page_num + 1],
            ).len() <= u32::MAX,
            old(self).to_redact + marked_count(old(self)@[old(self).page_num + 1]) <= u32::MAX,
            old(scores).total_chars + visible_cells(
                old(self)@[old(self).page_num + 1],
            ).len() <= u32::MAX,
            old(scores).total_to_redact + marked_count(
                old(self)@[old(self).page_num + 1],
            ) <= u32::MAX,
        ensures
            final(self).wf(),
            final(self)@ == old(self)@,
            final(self).page_num == old(self).page_num + 1,
            final(self).is_redacted == old(self).is_redacted,
            final(self).total_chars == old(self).total_chars + visible_cells(
                old(self)@[old(self).page_num + 1],
            ).len(),
            final(self).to_redact == old(self).to_redact + marked_count(
                old(self)@[old(self).page_num + 1],
            ),
            final(scores).total_chars == old(scores).total_chars + visible_cells(
                old(self)@[old(self).page_num + 1],
            ).len(),
            final(scores).total_to_redact == old(scores).total_to_redact + marked_count(
                old(self)@[old(self).page_num + 1],
            ),
            final(scores).correctly_redacted == old(scores).correctly_redacted,
            cells@.len() == visible_cells(old(self)@[old(self).page_num + 1]).len(),
            forall|k: int|
                0 <= k < cells@.len() ==> {
                    let pc = visible_cells(old(self)@[old(self).page_num + 1])[k];
                    &&& (#[trigger] cells@[k]).ch == pc.ch
                    &&& cells@[k].row == pc.row
                    &&& cells@[k].col == pc.col
                    &&& cells@[k].state == (Character {
                        to_redact: pc.to_redact,
                        is_redacted: false,
                        page_num: (old(self).page_num + 1) as u32,
                    })
                },
    {
        let idx = (self.page_num + 1) as usize;
        let num = (self.page_num + 1) as u32;
        let ghost pv: Seq<PlacedCharView> = self@[idx as int];
        let page: &Vec<PlacedChar> = &self.pages.pages[idx];
        proof {
            assert(cells_view(page@) == pv);
        }
        let n = page.len();
        let mut cells: Vec<CharCell> = Vec::new();
        let mut add_total: u32 = 0;
        let mut add_marked: u32 = 0;
        let mut j: usize = 0;
        proof {
            assert(pv.take(0) =~= Seq::<PlacedCharView>::empty());
        }
        while j < n
            invariant
                j <= n,
                n == pv.len(),
                cells_view(page@) == pv,
                add_total == visible_cells(pv.take(j as int)).len(),
                add_marked == marked_count(pv.take(j as int)),
                visible_cells(pv).len() <= u32::MAX,
                marked_count(pv) <= u32::MAX,
                cells@.len() == add_total,
                forall|k: int|
                    0 <= k < cells@.len() ==> {
                        let pc = visible_cells(pv.take(j as int))[k];
                        &&& (#[trigger] cells@[k]).ch == pc.ch
                        &&& cells@[k].row == pc.row
                        &&& cells@[k].col == pc.col
                        &&& cells@[k].state == (Character {
                            to_redact: pc.to_redact,
                            is_redacted: false,
                            page_num: num,
                        })
                    },
            decreases n - j,
        {
            let pc = page[j];
            proof {
                assert(pc@ == pv[j as int]);
                assert(pv.take(j + 1).drop_last() =~= pv.take(j as int));
                assert(pv.take(j + 1).last() == pv[j as int]);
                lemma_prefix_counts(pv, j + 1);
            }
            if pc.ch != ' ' {
                cells.push(
                    CharCell {
                        ch: pc.ch,
                        row: pc.row,
                        col: pc.col,
                        state: Character {
                            to_redact: pc.to_redact,
                            is_redacted: false,
                            page_num: num,
                        },
                    },
                );
                add_total = add_total + 1;
                if pc.to_redact {
                    add_marked = add_marked + 1;
                }
            }
            j = j + 1;
        }
        proof {
            assert(pv.take(n as int) =~= pv);
        }
        self.page_num = self.page_num + 1;
        self.total_chars = self.total_chars + add_total;
        self.to_redact = self.to_redact + add_marked;
        scores.total_chars = scores.total_chars + add_total;
        scores.total_to_redact = scores.total_to_redact + add_marked;
        cells
    }
}

/// The redaction event, the heart of the scoring rules. With the pen able
/// to draw and the character not yet redacted, the character becomes
/// redacted for good: if it was marked, that is a correct redaction and
/// the ledger's correct count grows by one; if not, the countdown pays
/// the fixed penalty. A character already redacted, or a pen that cannot
/// draw, changes nothing.
///
/// The contract carries the session laws: a character's `is_redacted`
/// only ever goes from `false` to `true`; the correct count grows exactly
/// when the hit character was marked and unredacted; and the countdown
/// never gains time — it only loses the penalty here.
pub fn redact_hit(
    ch: &mut Character,
    marker: &Marker,
    scores: &mut PageScores,
    timer: &mut CountdownTimer,
) -> (fb: Option<Feedbacks>)
    requires
        old(timer).well_formed(),
        marker.can_draw && !old(ch).is_redacted && old(ch).to_redact ==> old(
            scores,
        ).correctly_redacted < u32::MAX,
    ensures
        final(timer).well_formed(),
        // is_redacted is monotonic: false to true only, never back.
        old(ch).is_redacted ==> *final(ch) == *old(ch),
        final(ch).is_redacted == (old(ch).is_redacted || marker.can_draw),
        final(ch).to_redact == old(ch).to_redact,
        final(ch).page_num == old(ch).page_num,
        !marker.can_draw ==> *final(ch) == *old(ch) && *final(scores) == *old(scores)
            && *final(timer) == *old(timer) && fb is None,
        // The correct count grows by one exactly when a marked, unredacted
        // character is hit.
        final(scores).correctly_redacted == old(scores).correctly_redacted + (
        if marker.can_draw && !old(ch).is_redacted && old(ch).to_redact {
            1int
        } else {
            0int
        }),
        final(scores).total_chars == old(scores).total_chars,
        final(scores).total_to_redact == old(scores).total_to_redact,
        // The countdown never gains time, and pays the fixed penalty
        // exactly on an incorrect redaction.
        final(timer).spec_remaining_ms() <= old(timer).spec_remaining_ms(),
        final(timer).spec_duration_ms() == old(timer).spec_duration_ms(),
        final(timer).spec_elapsed_ms() == (
        if marker.can_draw && !old(ch).is_redacted && !old(ch).to_redact {
            if old(timer).spec_elapsed_ms() + PENALTY_MS <= old(timer).spec_duration_ms() {
                old(timer).spec_elapsed_ms() + PENALTY_MS
            } else {
                old(timer).spec_duration_ms() as int
            }
        } else {
            old(timer).spec_elapsed_ms() as int
        }),
        fb == (if !marker.can_draw || old(ch).is_redacted {
            None::<Feedbacks>
        } else if old(ch).to_redact {
            Some(Feedbacks::Correct)
        } else {
            Some(Feedbacks::Wrong)
        }),
{
    if !marker.can_draw {
        return None;
    }
    if ch.is_redacted {
        return None;
    }
    ch.is_redacted = true;
    if ch.to_redact {
        scores.correctly_redacted = scores.correctly_redacted + 1;
        Some(Feedbacks::Correct)
    } else {
        timer.penalty();
        Some(Feedbacks::Wrong)
    }
}

/// How many of `chars` are redacted, and how many still wait to be (they
/// are marked but not yet redacted).
pub fn redaction_counts(chars: &Vec<Character>) -> (counts: (usize, usize))
    ensures
        counts.0 == redacted_count(chars@),
        counts.1 == pending_count(chars@),
{
    let mut redacted: usize = 0;
    let mut pending: usize = 0;
    let mut i: usize = 0;
    proof {
        assert(chars@.take(0) =~= Seq::<Character>::empty());
    }
    while i < chars.len()
        invariant
            i <= chars@.len(),
            redacted == redacted_count(chars@.take(i as int)),
            pending == pending_count(chars@.take(i as int)),
            redacted <= i,
            pending <= i,
        decreases chars@.len() - i,
    {
        let c = chars[i];
        proof {
            assert(chars@.take(i + 1).drop_last() =~= chars@.take(i as int));
            assert(chars@.take(i + 1).last() == chars@[i as int]);
        }
        if c.is_redacted {
            redacted = redacted + 1;
        }
        if c.to_redact && !c.is_redacted {
            pending = pending + 1;
        }
        i = i + 1;
    }
    proof {
        assert(chars@.take(chars@.len() as int) =~= chars@);
    }
    (redacted, pending)
}

/// How many of `chars` are redacted.
pub open spec fn redacted_count(chars: Seq<Character>) -> nat
    decreases chars.len(),
{
    if chars.len() == 0 {
        0
    } else {
        redacted_count(chars.drop_last()) + if chars.last().is_redacted {
            1nat
        } else {
            0nat
        }
    }
}

/// How many of `chars` are marked but not yet redacted.
pub open spec fn pending_count(chars: Seq<Character>) -> nat
    decreases chars.len(),
{
    if chars.len() == 0 {
        0
    } else {
        pending_count(chars.drop_last()) + if chars.last().to_redact
            && !chars.last().is_redacted {
            1nat
        } else {
            0nat
        }
    }
}

/// What the score board shows.
#[derive(Clone, Copy, PartialEq, Eq, Structural, Debug)]
pub struct ScoreSummary {
    /// Page number as shown, counting from one.
    pub page_display: i32,
    /// Pages of the whole document.
    pub page_count: usize,
    /// Correct redactions so far.
    pub redacted: u32,
    /// Characters shown that are not correctly redacted.
    pub unredacted: u32,
}

/// The numbers the score board shows for the current ledger and page.
pub fn summarize(page: &Page, scores: &PageScores) -> (s: ScoreSummary)
    requires
        page.page_num < i32::MAX,
        scores.correctly_redacted <= scores.total_chars,
    ensures
        s.page_display == page.page_num + 1,
        s.page_count == page@.len(),
        s.redacted == scores.correctly_redacted,
        s.unredacted == scores.total_chars - scores.correctly_redacted,
{
    ScoreSummary {
        page_display: page.page_num + 1,
        page_count: page.page_count(),
        redacted: scores.correctly_redacted,
        unredacted: scores.total_chars - scores.correctly_redacted,
    }
}

} // verus!
