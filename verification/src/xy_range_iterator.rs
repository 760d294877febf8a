use vstd::prelude::*;

verus! {

/// The coordinates that an iterator at `(x, y)` still yields, where each row
/// runs from `x_start` to `x_end` and the last row is `y_end`: first the rest
/// of the current row, then each following row in full.
pub open spec fn remaining_coords(x_start: int, x_end: int, y_end: int, x: int, y: int) -> Seq<(int, int)>
    decreases y_end - y, x_end - x,
{
    if y > y_end {
        Seq::empty()
    } else if x < x_end {
        seq![(x + 1, y)] + remaining_coords(x_start, x_end, y_end, x + 1, y)
    } else if y + 1 > y_end {
        Seq::empty()
    } else {
        seq![(x_start, y + 1)] + remaining_coords(x_start, x_end, y_end, x_start, y + 1)
    }
}

/// The points `(x1, y), (x1 + 1, y), ..., (x2, y)` of one row.
pub open spec fn row_coords(x1: int, x2: int, y: int) -> Seq<(int, int)>
    decreases x2 + 1 - x1,
{
    if x1 > x2 {
        Seq::empty()
    } else {
        seq![(x1, y)] + row_coords(x1 + 1, x2, y)
    }
}

/// Every point of the rectangle from `(x1, y1)` to `(x2, y2)`, both corners
/// included, row by row from the top and left to right within a row.
pub open spec fn rect_coords(x1: int, y1: int, x2: int, y2: int) -> Seq<(int, int)>
    decreases y2 + 1 - y1,
{
    if y1 > y2 {
        Seq::empty()
    } else {
        row_coords(x1, x2, y1) + rect_coords(x1, y1 + 1, x2, y2)
    }
}

proof fn lemma_remaining_is_rest_of_rect(x_start: int, x_end: int, y_end: int, x: int, y: int)
    requires
        x_start <= x_end,
        x_start - 1 <= x <= x_end,
        y <= y_end,
    ensures
        remaining_coords(x_start, x_end, y_end, x, y) == row_coords(x + 1, x_end, y) + rect_coords(
            x_start,
            y + 1,
            x_end,
            y_end,
        ),
    decreases y_end - y, x_end - x,
{
    if x < x_end {
        lemma_remaining_is_rest_of_rect(x_start, x_end, y_end, x + 1, y);
        assert(row_coords(x + 1, x_end, y) == seq![(x + 1, y)] + row_coords(x + 2, x_end, y));
        assert(seq![(x + 1, y)] + (row_coords(x + 2, x_end, y) + rect_coords(x_start, y + 1, x_end, y_end))
            =~= (seq![(x + 1, y)] + row_coords(x + 2, x_end, y)) + rect_coords(x_start, y + 1, x_end, y_end));
    } else {
        assert(row_coords(x + 1, x_end, y) =~= Seq::<(int, int)>::empty());
        if y + 1 > y_end {
            assert(rect_coords(x_start, y + 1, x_end, y_end) =~= Seq::<(int, int)>::empty());
        } else {
            lemma_remaining_is_rest_of_rect(x_start, x_end, y_end, x_start, y + 1);
            assert(row_coords(x_start, x_end, y + 1) == seq![(x_start, y + 1)] + row_coords(x_start + 1, x_end, y + 1));
            assert(seq![(x_start, y + 1)] + (row_coords(x_start + 1, x_end, y + 1) + rect_coords(x_start, y + 2, x_end, y_end))
                =~= (seq![(x_start, y + 1)] + row_coords(x_start + 1, x_end, y + 1)) + rect_coords(x_start, y + 2, x_end, y_end));
        }
    }
}

/// An iterator made by `XYRangeIterator::new(x1, y1, x2, y2)` with `x1 <= x2`
/// yields exactly the points of the rectangle with corners `(x1, y1)` and
/// `(x2, y2)`, both included, row by row from `y1` down to `y2` and from `x1`
/// to `x2` within each row; with `y1 > y2` it yields nothing.
pub proof fn new_yields_rect_row_by_row(x1: int, y1: int, x2: int, y2: int)
    requires
        x1 <= x2,
    ensures
        remaining_coords(x1, x2, y2, x1 - 1, y1) == rect_coords(x1, y1, x2, y2),
{
    if y1 <= y2 {
        lemma_remaining_is_rest_of_rect(x1, x2, y2, x1 - 1, y1);
    }
}

/// Iterates over the integer points of a rectangle, row by row.
pub struct XYRangeIterator {
    x_start: i64,
    x_end: i64,
    y_end: i64,
    x: i64,
    y: i64,
}

impl XYRangeIterator {
    #[verifier::type_invariant]
    spec fn inv(self) -> bool {
        self.y_end < i64::MAX
    }

    /// The points that the iterator has yet to yield, in order.
    pub closed spec fn view(&self) -> Seq<(int, int)> {
        remaining_coords(
            self.x_start as int,
            self.x_end as int,
            self.y_end as int,
            self.x as int,
            self.y as int,
        )
    }

    /// An iterator over the points from `(x1, y1)` to `(x2, y2)`, both corners
    /// included.
    pub fn new(x1: i64, y1: i64, x2: i64, y2: i64) -> (result: Self)
        requires
            x1 > i64::MIN,
            y2 < i64::MAX,
        ensures
            result@ == remaining_coords(x1 as int, x2 as int, y2 as int, x1 - 1, y1 as int),
    {
        XYRangeIterator { x_start: x1, x_end: x2, y_end: y2, x: x1 - 1, y: y1 }
    }

    /// Yields the next point, or `None` once every point has been yielded.
    pub fn next(&mut self) -> (result: Option<(i64, i64)>)
        ensures
            old(self)@.len() == 0 ==> result is None && final(self)@ == old(self)@,
            old(self)@.len() > 0 ==> {
                &&& result matches Some((x, y))
                &&& (x as int, y as int) == old(self)@[0]
                &&& final(self)@ == old(self)@.drop_first()
            },
    {
        proof {
            use_type_invariant(&*self);
        }
        if self.y > self.y_end {
            return None;
        }
        if self.x < self.x_end {
            self.x = self.x + 1;
        } else {
            self.x = self.x_start;
            self.y = self.y + 1;
            if self.y > self.y_end {
                return None;
            }
        }
        Some((self.x, self.y))
    }

    /// Every point that the iterator has yet to yield, in order.
    pub fn collect_coords(self) -> (result: Vec<(i64, i64)>)
        ensures
            result@.len() == self@.len(),
            forall|i: int|
                0 <= i < result@.len() ==> (#[trigger] result@[i].0 as int, result@[i].1 as int)
                    == self@[i],
    {
        let mut iter = self;
        let mut result: Vec<(i64, i64)> = Vec::new();
        loop
            invariant
                self@ == result@.map_values(|c: (i64, i64)| (c.0 as int, c.1 as int)) + iter@,
            ensures
                self@ == result@.map_values(|c: (i64, i64)| (c.0 as int, c.1 as int)) + iter@,
                iter@.len() == 0,
            decreases iter@.len(),
        {
            let ghost before = iter@;
            match iter.next() {
                Some(c) => {
                    result.push(c);
                    assert(self@ =~= result@.map_values(|c: (i64, i64)| (c.0 as int, c.1 as int)) + iter@) by {
                        assert(before =~= seq![before[0]] + iter@);
                    }
                },
                None => {
                    assert(iter@.len() == 0);
                    break;
                },
            }
        }
        assert(self@ =~= result@.map_values(|c: (i64, i64)| (c.0 as int, c.1 as int)));
        assert forall|i: int| 0 <= i < result@.len() implies (#[trigger] result@[i].0 as int, result@[i].1 as int) == self@[i] by {
            assert(self@[i] == result@.map_values(|c: (i64, i64)| (c.0 as int, c.1 as int))[i]);
        }
        result
    }
}

} // verus!
