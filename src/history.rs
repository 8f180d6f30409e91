//! A bounded stack of board snapshots that makes rewinding possible.
use vstd::prelude::*;
use crate::cell::CellState;
use crate::life::any_alive;

verus! {

/// The most snapshots that a history keeps.
pub const HISTORY_CAP: usize = 500;

/// `h` after recording the board `b`: a board without live cells is not
/// recorded; otherwise it goes to the end, and beyond the cap the oldest
/// snapshot is dropped.
pub open spec fn record(h: Seq<Seq<CellState>>, b: Seq<CellState>) -> Seq<Seq<CellState>> {
    if any_alive(b) {
        if h.len() + 1 > HISTORY_CAP {
            h.push(b).drop_first()
        } else {
            h.push(b)
        }
    } else {
        h
    }
}

/// `h` after recording each of `boards` in order.
pub open spec fn record_all(h: Seq<Seq<CellState>>, boards: Seq<Seq<CellState>>) -> Seq<
    Seq<CellState>,
>
    decreases boards.len(),
{
    if boards.len() == 0 {
        h
    } else {
        record(record_all(h, boards.drop_last()), boards.last())
    }
}

/// A history of board snapshots, oldest first.
pub struct History {
    entries: Vec<Vec<CellState>>,
}

impl View for History {
    type V = Seq<Seq<CellState>>;

    closed spec fn view(&self) -> Seq<Seq<CellState>> {
        self.entries@.map_values(|e: Vec<CellState>| e@)
    }
}

impl History {
    pub open spec fn wf(&self) -> bool {
        self@.len() <= HISTORY_CAP
    }

    pub fn new() -> (r: History)
        ensures
            r@ == Seq::<Seq<CellState>>::empty(),
    {
        let r = History { entries: Vec::new() };
        assert(r@ =~= Seq::<Seq<CellState>>::empty());
        r
    }

    /// The number of snapshots held.
    pub fn len(&self) -> (r: usize)
        ensures
            r == self@.len(),
    {
        self.entries.len()
    }

    /// Records a copy of `board` if it holds a live cell, dropping the
    /// oldest snapshot once more than `HISTORY_CAP` are held.
    pub fn record_if_non_empty(&mut self, board: &Vec<CellState>)
        requires
            old(self).wf(),
        ensures
            final(self)@ == record(old(self)@, board@),
            final(self).wf(),
    {
        if has_live_cell(board) {
            let snapshot = copy_board(board);
            self.entries.push(snapshot);
            if self.entries.len() > HISTORY_CAP {
                self.entries.remove(0);
            }
        }
        assert(self@ =~= record(old(self)@, board@));
    }

    /// Removes and returns the most recent snapshot, if any.
    pub fn pop_latest(&mut self) -> (r: Option<Vec<CellState>>)
        requires
            old(self).wf(),
        ensures
            old(self)@.len() == 0 ==> r is None && final(self)@ == old(self)@,
            old(self)@.len() > 0 ==> r is Some && r->0@ == old(self)@.last() && final(self)@
                == old(self)@.drop_last(),
            final(self).wf(),
    {
        let r = self.entries.pop();
        proof {
            if old(self)@.len() > 0 {
                assert(self@ =~= old(self)@.drop_last());
            } else {
                assert(self@ =~= old(self)@);
            }
        }
        r
    }
}

/// Whether some cell of `board` is alive.
pub fn has_live_cell(board: &Vec<CellState>) -> (r: bool)
    ensures
        r == any_alive(board@),
{
    let mut i: usize = 0;
    while i < board.len()
        invariant
            i <= board@.len(),
            forall|j: int| 0 <= j < i ==> board@[j] != CellState::Alive,
        decreases board@.len() - i,
    {
        if board[i] == CellState::Alive {
            return true;
        }
        i = i + 1;
    }
    false
}

/// A copy of `board`.
pub fn copy_board(board: &Vec<CellState>) -> (r: Vec<CellState>)
    ensures
        r@ == board@,
{
    let mut r: Vec<CellState> = Vec::new();
    let mut i: usize = 0;
    while i < board.len()
        invariant
            i <= board@.len(),
            r@ == board@.subrange(0, i as int),
        decreases board@.len() - i,
    {
        r.push(board[i]);
        i = i + 1;
        assert(r@ =~= board@.subrange(0, i as int));
    }
    assert(r@ =~= board@);
    r
}

/// Recording boards that all hold a live cell keeps exactly the most recent
/// `HISTORY_CAP` of the history followed by the boards: the oldest go first.
pub proof fn lemma_record_all_keeps_latest(h: Seq<Seq<CellState>>, boards: Seq<Seq<CellState>>)
    requires
        h.len() <= HISTORY_CAP,
        forall|i: int| 0 <= i < boards.len() ==> any_alive(#[trigger] boards[i]),
    ensures
        record_all(h, boards) == (h + boards).subrange(
            if h.len() + boards.len() > HISTORY_CAP {
                h.len() + boards.len() - HISTORY_CAP as int
            } else {
                0
            },
            (h.len() + boards.len()) as int,
        ),
    decreases boards.len(),
{
    let t = (h.len() + boards.len()) as int;
    if boards.len() == 0 {
        assert((h + boards).subrange(0, t) =~= h);
    } else {
        let p = boards.drop_last();
        assert forall|i: int| 0 <= i < p.len() implies any_alive(#[trigger] p[i]) by {
            assert(p[i] == boards[i]);
        }
        lemma_record_all_keeps_latest(h, p);
        assert(any_alive(boards[boards.len() - 1]));
        let m = if t - 1 > HISTORY_CAP { t - 1 - HISTORY_CAP } else { 0 };
        let r = (h + p).subrange(m, t - 1);
        assert(r.push(boards.last()) =~= (h + boards).subrange(m, t));
        if r.len() + 1 > HISTORY_CAP {
            assert(r.push(boards.last()).drop_first() =~= (h + boards).subrange(
                t - HISTORY_CAP,
                t,
            ));
        }
    }
}

/// Recording a board with a live cell and then taking the latest snapshot
/// gives that board back, and leaves the earlier history, less its oldest
/// entry if the cap was reached.
pub proof fn lemma_record_then_pop(h: Seq<Seq<CellState>>, b: Seq<CellState>)
    requires
        h.len() <= HISTORY_CAP,
        any_alive(b),
    ensures
        record(h, b).len() > 0,
        record(h, b).last() == b,
        h.len() < HISTORY_CAP ==> record(h, b).drop_last() == h,
        h.len() == HISTORY_CAP ==> record(h, b).drop_last() == h.drop_first(),
{
    assert(h.push(b).drop_last() =~= h);
    if h.len() == HISTORY_CAP {
        assert(h.push(b).drop_first().drop_last() =~= h.drop_first());
    }
}

} // verus!
