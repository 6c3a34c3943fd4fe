//! Handing out a scan's rows one at a time.
use vstd::prelude::*;
use crate::materialize::{rows_view, Row, RowV};
use std::collections::VecDeque;

verus! {

/// The rows of one scan that are still to be handed out, front first.
pub struct ResultCursor {
    pub rows: VecDeque<Row>,
}

impl View for ResultCursor {
    type V = Seq<RowV>;

    open spec fn view(&self) -> Seq<RowV> {
        rows_view(self.rows@)
    }
}

impl ResultCursor {
    /// A cursor over `rows`, in their order.
    pub fn new(rows: Vec<Row>) -> (r: ResultCursor)
        ensures
            r@ == rows_view(rows@),
    {
        let mut rows = rows;
        let mut q: VecDeque<Row> = VecDeque::new();
        let ghost all = rows_view(rows@);
        assert(all =~= rows_view(rows@) + rows_view(q@));
        // Moved out from the back, so each row goes in front of the later ones.
        while rows.len() > 0
            invariant
                all == rows_view(rows@) + rows_view(q@),
            decreases rows.len(),
        {
            let ghost before_rows = rows@;
            let ghost before_q = q@;
            let row = rows.pop().unwrap();
            q.push_front(row);
            assert(rows_view(before_rows) =~= rows_view(rows@).push(row@));
            assert(rows_view(q@) =~= seq![row@] + rows_view(before_q));
            assert(all =~= rows_view(rows@) + rows_view(q@));
        }
        assert(all =~= rows_view(q@));
        ResultCursor { rows: q }
    }

    /// A cursor with nothing to hand out.
    pub fn empty() -> (r: ResultCursor)
        ensures
            r@.len() == 0,
    {
        let q: VecDeque<Row> = VecDeque::new();
        assert(rows_view(q@) =~= Seq::<RowV>::empty());
        ResultCursor { rows: q }
    }

    /// Takes the front row; `None`, and nothing changed, once all are out.
    pub fn next_row(&mut self) -> (r: Option<Row>)
        ensures
            match r {
                Some(row) => old(self)@.len() > 0 && row@ == old(self)@[0] && final(self)@
                    == old(self)@.drop_first(),
                None => old(self)@.len() == 0 && final(self)@ == old(self)@,
            },
    {
        let ghost before = self.rows@;
        let r = self.rows.pop_front();
        proof {
            if r is Some {
                assert(rows_view(self.rows@) =~= rows_view(before).drop_first());
            }
        }
        r
    }

    /// Drops every row not yet handed out.
    pub fn close(&mut self)
        ensures
            final(self)@.len() == 0,
    {
        self.rows = VecDeque::new();
        assert(rows_view(self.rows@) =~= Seq::<RowV>::empty());
    }
}

} // verus!
