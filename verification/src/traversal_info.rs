use vstd::prelude::*;

verus! {

/// The rays a path took through the scene, in the order in which they
/// were traced.
pub struct TraversalInfo<I> {
    traversal: Vec<I>,
}

impl<I> View for TraversalInfo<I> {
    type V = Seq<I>;

    closed spec fn view(&self) -> Seq<I> {
        self.traversal@
    }
}

/// The depth, counted from the last ray traced, at which drawing stops:
/// drawing starts at depth `start - 1` and goes on until it reaches
/// depth `end` or runs out of rays. An `end` below the starting depth
/// is never reached.
pub open spec fn drawing_stop(n: int, start: int, end: int) -> int {
    if start - 1 <= end && end < n {
        end
    } else {
        n
    }
}

/// The positions (in tracing order) of the rays drawn for the window
/// from `start` to `end`, in the order in which they are drawn: last
/// ray first.
pub open spec fn drawn_positions(n: int, start: int, end: int) -> Seq<usize> {
    let first = start - 1;
    let count = if drawing_stop(n, start, end) > first {
        drawing_stop(n, start, end) - first
    } else {
        0
    };
    Seq::new(count as nat, |k: int| (n - 1 - (first + k)) as usize)
}

/// The rays drawn for a window of depths: counted from the last ray,
/// drawing starts at depth `start - 1` and takes one ray per depth. When
/// `end` lies between the starting depth and the last depth there is, it
/// takes exactly `end - (start - 1)` rays and never the one at depth
/// `end`; otherwise (`end` beyond the rays there are, or below the
/// starting depth) it takes every ray from the starting depth on.
pub proof fn law_drawn_rays_window(n: int, start: int, end: int)
    requires
        0 <= n <= usize::MAX,
        start >= 1,
        end >= 0,
    ensures
        ({
            let d = drawn_positions(n, start, end);
            &&& forall|k: int| 0 <= k < d.len() ==> #[trigger] d[k] == n - 1 - (start - 1 + k)
            &&& start - 1 <= end < n ==> d.len() == end - (start - 1) && !d.contains(
                (n - 1 - end) as usize,
            )
            &&& !(start - 1 <= end < n) ==> d.len() == (if n > start - 1 {
                n - (start - 1)
            } else {
                0
            })
        }),
{
    let d = drawn_positions(n, start, end);
    assert forall|k: int| 0 <= k < d.len() implies #[trigger] d[k] == n - 1 - (start - 1 + k) by {}
    if start - 1 <= end < n {
        if d.contains((n - 1 - end) as usize) {
            let k = choose|k: int| 0 <= k < d.len() && d[k] == (n - 1 - end) as usize;
            assert(d[k] == n - 1 - (start - 1 + k));
        }
    }
}

impl<I> TraversalInfo<I> {
    pub fn new() -> (res: Self)
        ensures
            res@ == Seq::<I>::empty(),
    {
        Self { traversal: Vec::new() }
    }

    pub fn get_traversal(&self) -> (res: &[I])
        ensures
            res@ == self@,
    {
        self.traversal.as_slice()
    }

    /// Appends the next ray of the path.
    pub fn add_ray(&mut self, info: I)
        ensures
            final(self)@ == old(self)@.push(info),
    {
        self.traversal.push(info);
    }

    /// Appends the rays of `other`, in their order, after those of
    /// `self`.
    pub fn append_traversal(&mut self, other: TraversalInfo<I>)
        ensures
            final(self)@ == old(self)@ + other@,
    {
        let mut other = other;
        self.traversal.append(&mut other.traversal);
    }

    /// The positions of the rays to draw when showing the depths from
    /// `start_ray_depth` (counted from 1, at the last ray traced) up to
    /// `end_ray_depth`, in drawing order.
    pub fn drawn_rays(&self, start_ray_depth: usize, end_ray_depth: usize) -> (res: Vec<usize>)
        requires
            start_ray_depth >= 1,
        ensures
            res@ == drawn_positions(self@.len() as int, start_ray_depth as int, end_ray_depth as int),
            forall|k: int| 0 <= k < res@.len() ==> #[trigger] res@[k] < self@.len(),
            forall|k: int|
                0 <= k < res@.len() ==> #[trigger] res@[k] == self@.len() - 1 - (start_ray_depth
                    - 1 + k),
            start_ray_depth - 1 <= end_ray_depth < self@.len() ==> res@.len() == end_ray_depth - (
            start_ray_depth - 1) && !res@.contains((self@.len() - 1 - end_ray_depth) as usize),
            !(start_ray_depth - 1 <= end_ray_depth < self@.len()) ==> res@.len() == (if self@.len()
                > start_ray_depth - 1 {
                self@.len() - (start_ray_depth - 1)
            } else {
                0
            }),
    {
        let n: usize = self.traversal.len();
        let first: usize = start_ray_depth - 1;
        let stop: usize = if first <= end_ray_depth && end_ray_depth < n {
            end_ray_depth
        } else {
            n
        };
        let mut res: Vec<usize> = Vec::new();
        let mut depth: usize = first;
        while depth < stop
            invariant
                n == self@.len(),
                stop == drawing_stop(n as int, start_ray_depth as int, end_ray_depth as int),
                stop <= n,
                first == start_ray_depth - 1,
                first <= depth,
                depth <= stop || depth == first,
                res@.len() == depth - first,
                forall|k: int|
                    0 <= k < res@.len() ==> #[trigger] res@[k] == (n - 1 - (first + k)) as usize,
            decreases stop - depth,
        {
            res.push(n - 1 - depth);
            depth = depth + 1;
        }
        proof {
            let expected = drawn_positions(n as int, start_ray_depth as int, end_ray_depth as int);
            assert(res@.len() == expected.len());
            assert(res@ =~= expected);
            law_drawn_rays_window(n as int, start_ray_depth as int, end_ray_depth as int);
        }
        res
    }

    /// The positions of the rays whose normals are drawn for the window
    /// from `start_ray_depth` to `end_ray_depth`: the rays drawn, in
    /// drawing order, up to (not including) the first one that hit
    /// nothing. `hits` tells, for each ray in tracing order, whether it
    /// hit something.
    pub fn drawn_normals(&self, start_ray_depth: usize, end_ray_depth: usize, hits: &[bool]) -> (res: Vec<usize>)
        requires
            start_ray_depth >= 1,
            hits@.len() == self@.len(),
        ensures
            ({
                let drawn = drawn_positions(self@.len() as int, start_ray_depth as int, end_ray_depth as int);
                &&& res@.len() <= drawn.len()
                &&& res@ == drawn.take(res@.len() as int)
                &&& forall|k: int| 0 <= k < res@.len() ==> hits@[#[trigger] res@[k] as int]
                &&& res@.len() < drawn.len() ==> !hits@[drawn[res@.len() as int] as int]
            }),
    {
        let drawn = self.drawn_rays(start_ray_depth, end_ray_depth);
        let mut res: Vec<usize> = Vec::new();
        let mut k: usize = 0;
        while k < drawn.len()
            invariant_except_break
                res@ == drawn@.take(k as int),
            invariant
                k <= drawn@.len(),
                hits@.len() == self@.len(),
                forall|m: int| 0 <= m < drawn@.len() ==> #[trigger] drawn@[m] < self@.len(),
                forall|m: int| 0 <= m < res@.len() ==> hits@[#[trigger] res@[m] as int],
                res@.len() <= k,
            ensures
                res@ == drawn@.take(res@.len() as int),
                res@.len() < drawn@.len() ==> !hits@[drawn@[res@.len() as int] as int],
            decreases drawn@.len() - k,
        {
            let position = drawn[k];
            if !hits[position] {
                break;
            }
            res.push(position);
            proof {
                assert(res@ =~= drawn@.take(k + 1));
            }
            k = k + 1;
        }
        res
    }
}

impl<I> Default for TraversalInfo<I> {
    fn default() -> (res: Self)
        ensures
            res@ == Seq::<I>::empty(),
    {
        Self::new()
    }
}

} // verus!
