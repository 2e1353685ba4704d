//! The result of a relation query: rows of equal width, held as one vector.

use vstd::prelude::*;
use vstd::slice::slice_subrange;

verus! {

/// Rows of `width` values each, one after the other in `values`.
#[derive(Debug, PartialEq, Eq)]
pub struct RelResult<T> {
    pub width: usize,
    pub values: Vec<T>,
}

/// The values of all the rows, one row after the other.
pub open spec fn flattened_rows<T>(rows: Seq<Vec<T>>) -> Seq<T>
    decreases rows.len(),
{
    if rows.len() == 0 {
        seq![]
    } else {
        flattened_rows(rows.drop_last()) + rows.last()@
    }
}

/// The smaller of two numbers.
pub open spec fn least(a: int, b: int) -> int {
    if a <= b {
        a
    } else {
        b
    }
}

impl<T> RelResult<T> {
    /// The row at `index`, where there is a whole one.
    pub open spec fn row_at(&self, index: int) -> Option<Seq<T>> {
        if index >= 0 && self.width * (index + 1) <= self.values@.len() {
            Some(self.values@.subrange(self.width * index, self.width * (index + 1)))
        } else {
            None
        }
    }

    /// The chunk at `index`: the row, or at the end what is left of one.
    pub open spec fn chunk_at(&self, index: int) -> Seq<T> {
        self.values@.subrange(
            self.width * index,
            least(self.width * (index + 1), self.values@.len() as int),
        )
    }

    /// The number of chunks.
    pub open spec fn chunk_count(&self) -> int {
        (self.values@.len() + self.width - 1) / (self.width as int)
    }

    /// No rows, of the given width.
    pub fn empty(width: usize) -> (r: RelResult<T>)
        ensures
            r.width == width,
            r.values@.len() == 0,
    {
        RelResult { width: width, values: Vec::new() }
    }

    /// Whether the result holds no value.
    pub fn is_empty(&self) -> (r: bool)
        ensures
            r == (self.values@.len() == 0),
    {
        self.values.len() == 0
    }

    /// The number of whole rows. The width must not be zero.
    pub fn row_count(&self) -> (r: usize)
        requires
            self.width > 0,
        ensures
            r == self.values@.len() / (self.width as nat),
    {
        self.values.len() / self.width
    }

    /// The rows, in order; if the values do not fill the last row, it is
    /// shorter. The width must not be zero.
    pub fn rows(&self) -> (r: Vec<&[T]>)
        requires
            self.width > 0,
        ensures
            r@.len() == self.chunk_count(),
            forall|i: int| 0 <= i < r@.len() ==> (#[trigger] r@[i])@ == self.chunk_at(i),
    {
        let n = self.values.len();
        let w = self.width;
        let mut out: Vec<&[T]> = Vec::new();
        let mut start: usize = 0;
        proof {
            assert(0 == out@.len() * w) by (nonlinear_arith)
                requires
                    out@.len() == 0,
            ;
        }
        while start < n
            invariant
                w == self.width,
                w > 0,
                n == self.values@.len(),
                start <= n,
                start == out@.len() * w,
                forall|i: int| 0 <= i < out@.len() ==> (#[trigger] out@[i])@ == self.chunk_at(i),
            decreases n - start,
        {
            let ghost k = out@.len() as int;
            let end = if n - start < w {
                n
            } else {
                start + w
            };
            proof {
                assert(w * (k + 1) == start + w && w * k == start) by (nonlinear_arith)
                    requires
                        start == k * w,
                ;
            }
            let chunk = slice_subrange(self.values.as_slice(), start, end);
            out.push(chunk);
            if end == n {
                proof {
                    assert(self.chunk_count() == k + 1) by (nonlinear_arith)
                        requires
                            self.chunk_count() == ((n as int) + (w as int) - 1) / (w as int),
                            start == k * w,
                            start < n,
                            n <= start + w,
                            w > 0,
                    ;
                }
                return out;
            }
            start = end;
            proof {
                assert(start == out@.len() * w) by (nonlinear_arith)
                    requires
                        start == k * w + w,
                        out@.len() == k + 1,
                ;
            }
        }
        proof {
            assert(self.chunk_count() == out@.len()) by (nonlinear_arith)
                requires
                    self.chunk_count() == ((n as int) + (w as int) - 1) / (w as int),
                    n == out@.len() * w,
                    w > 0,
            ;
        }
        out
    }

    /// The row at `index`, or `None` where the values do not reach that far.
    pub fn row(&self, index: usize) -> (r: Option<&[T]>)
        ensures
            match self.row_at(index as int) {
                Some(row) => r is Some && r->0@ == row,
                None => r is None,
            },
    {
        let n = self.values.len();
        let w = self.width;
        if w == 0 {
            proof {
                assert(w * (index + 1) == 0) by (nonlinear_arith)
                    requires
                        w == 0,
                ;
                assert(w * index == 0) by (nonlinear_arith)
                    requires
                        w == 0,
                ;
            }
            return Some(slice_subrange(self.values.as_slice(), 0, 0));
        }
        let count = n / w;
        if index >= count {
            proof {
                assert(w * (index + 1) > n) by (nonlinear_arith)
                    requires
                        index >= (n as int) / (w as int),
                        w > 0,
                        n >= 0,
                ;
            }
            return None;
        }
        proof {
            assert(w * (index + 1) <= n && w * index >= 0 && w * index + w == w * (index + 1))
                by (nonlinear_arith)
                requires
                    index < (n as int) / (w as int),
                    index >= 0,
                    w > 0,
            ;
        }
        let start = w * index;
        let end = start + w;
        Some(slice_subrange(self.values.as_slice(), start, end))
    }

    /// The rows of `src` as one result, of the width of the first row.
    pub fn from_rows(src: Vec<Vec<T>>) -> (r: RelResult<T>)
        ensures
            r.values@ == flattened_rows(src@),
            r.width == if src@.len() == 0 {
                0
            } else {
                src@[0]@.len()
            },
    {
        if src.len() == 0 {
            return RelResult::empty(0);
        }
        let width = src[0].len();
        let n = src.len();
        let mut rows = crate::translate::ConsumableVec::with_vec(src);
        let mut values: Vec<T> = Vec::new();
        let mut i: usize = 0;
        assert(src@.subrange(0, 0) =~= Seq::<Vec<T>>::empty());
        while i < n
            invariant
                i <= n == src@.len(),
                rows@.len() == n,
                forall|j: int| i <= j < n ==> #[trigger] rows@[j] == Some(src@[j]),
                values@ == flattened_rows(src@.subrange(0, i as int)),
            decreases n - i,
        {
            let mut row = rows.take_dangerously(i);
            let ghost next = src@.subrange(0, i + 1);
            assert(next.drop_last() =~= src@.subrange(0, i as int));
            assert(next.last() == src@[i as int]);
            values.append(&mut row);
            i += 1;
        }
        assert(src@.subrange(0, i as int) =~= src@);
        RelResult { width, values }
    }

    /// The rows, to be taken one by one.
    pub fn into_iter(self) -> (r: SubvecIntoIterator<T>)
        ensures
            r.width == self.width,
            r.pending() == self.values@,
    {
        let mut values = self.values;
        let ghost all = values@;
        let mut rev: Vec<T> = Vec::new();
        while values.len() > 0
            invariant
                values@.len() + rev@.len() == all.len(),
                values@ == all.subrange(0, values@.len() as int),
                forall|j: int| 0 <= j < rev@.len() ==> #[trigger] rev@[j] == all[all.len() - 1 - j],
            decreases values@.len(),
        {
            match values.pop() {
                Some(x) => {
                    rev.push(x);
                    assert(values@ =~= all.subrange(0, values@.len() as int));
                },
                None => {},
            }
        }
        let r = SubvecIntoIterator { width: self.width, remaining: rev };
        assert(r.pending() =~= all);
        r
    }
}

/// What is left of a result whose rows are taken one by one.
pub struct SubvecIntoIterator<T> {
    pub width: usize,
    /// The values not yet taken, the next one last.
    pub remaining: Vec<T>,
}

impl<T> SubvecIntoIterator<T> {
    /// The values not yet taken, the next one first.
    pub open spec fn pending(&self) -> Seq<T> {
        Seq::new(self.remaining@.len(), |i: int| self.remaining@[self.remaining@.len() - 1 - i])
    }

    /// The next row: up to `width` values. `None` once nothing is left, and
    /// always where the width is zero.
    pub fn next(&mut self) -> (r: Option<Vec<T>>)
        ensures
            final(self).width == old(self).width,
            ({
                let k = least(old(self).width as int, old(self).pending().len() as int);
                &&& r is Some <==> k > 0
                &&& r is Some ==> r->0@ == old(self).pending().subrange(0, k)
                &&& final(self).pending() == old(self).pending().subrange(k, old(self).pending().len() as int)
            }),
    {
        let ghost before = self.pending();
        let mut result: Vec<T> = Vec::new();
        let mut taken: usize = 0;
        assert(before.subrange(0, 0) =~= Seq::<T>::empty());
        assert(before.subrange(0, before.len() as int) =~= before);
        while taken < self.width && self.remaining.len() > 0
            invariant
                self.width == old(self).width,
                before == old(self).pending(),
                taken <= self.width,
                taken <= before.len(),
                result@ == before.subrange(0, taken as int),
                self.pending() == before.subrange(taken as int, before.len() as int),
            decreases self.remaining@.len(),
        {
            let ghost pend = self.pending();
            match self.remaining.pop() {
                Some(x) => {
                    assert(x == pend[0]);
                    result.push(x);
                    assert(self.pending() =~= pend.subrange(1, pend.len() as int));
                    assert(self.pending() =~= before.subrange(taken + 1, before.len() as int));
                    assert(result@ =~= before.subrange(0, taken + 1));
                },
                None => {},
            }
            taken += 1;
        }
        assert(self.pending().len() == self.remaining@.len());
        if result.len() == 0 {
            None
        } else {
            Some(result)
        }
    }
}

} // verus!
