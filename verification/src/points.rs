use vstd::prelude::*;
use crate::point::{
    Point, MeanPoint, COORD_LIMIT, MAX_POINTS, mean_wf, coords_bounded, all_off_mean, sorted_desc,
    angle_le, angle_gt, lemma_angle_le_trans,
};
use crate::lines::{Line, Lines, line_from_points, is_line_for, line_wf, lines_wf};

verus! {

/// An ordered sequence of points. Before the angular sort the order
/// carries no meaning; after it, consecutive entries (with wrap-around)
/// are the polygon's edges.
#[derive(Clone, Debug)]
pub struct Points {
    pub list: Vec<Point>,
}

/// Sum of the x coordinates of `s`.
pub open spec fn sum_x(s: Seq<Point>) -> int
    decreases s.len(),
{
    if s.len() == 0 {
        0
    } else {
        sum_x(s.drop_last()) + s.last().x
    }
}

/// Sum of the y coordinates of `s`.
pub open spec fn sum_y(s: Seq<Point>) -> int
    decreases s.len(),
{
    if s.len() == 0 {
        0
    } else {
        sum_y(s.drop_last()) + s.last().y
    }
}

/// Removing one point removes exactly its coordinates from the sums.
proof fn lemma_sum_remove(s: Seq<Point>, k: int)
    requires
        0 <= k < s.len(),
    ensures
        sum_x(s.remove(k)) == sum_x(s) - s[k].x,
        sum_y(s.remove(k)) == sum_y(s) - s[k].y,
    decreases s.len(),
{
    if k == s.len() - 1 {
        assert(s.remove(k) =~= s.drop_last());
    } else {
        let t = s.drop_last();
        assert(s.remove(k).drop_last() =~= t.remove(k));
        assert(s.remove(k).last() == s.last());
        lemma_sum_remove(t, k);
    }
}

/// Sequences holding the same points hold the same coordinate sums: the
/// mean of a point set does not depend on the order of its points.
pub proof fn lemma_sum_permutation(s1: Seq<Point>, s2: Seq<Point>)
    requires
        s1.to_multiset() == s2.to_multiset(),
    ensures
        sum_x(s1) == sum_x(s2),
        sum_y(s1) == sum_y(s2),
    decreases s1.len(),
{
    broadcast use vstd::seq_lib::group_to_multiset_ensures;
    broadcast use vstd::multiset::group_multiset_axioms;

    if s1.len() == 0 {
        assert(s2.to_multiset().len() == 0);
        assert(s2.len() == 0);
    } else {
        let v = s1.last();
        assert(s1.contains(v)) by {
            assert(s1[s1.len() - 1] == v);
        }
        assert(s1.to_multiset().count(v) > 0);
        assert(s2.to_multiset().count(v) > 0);
        assert(s2.contains(v));
        let k = choose|k: int| 0 <= k < s2.len() && s2[k] == v;
        let t1 = s1.drop_last();
        let t2 = s2.remove(k);
        assert(s1.remove(s1.len() - 1) =~= t1);
        assert(t1.to_multiset() == s1.to_multiset().remove(v));
        assert(t2.to_multiset() == s2.to_multiset().remove(v));
        lemma_sum_permutation(t1, t2);
        lemma_sum_remove(s2, k);
    }
}

/// Consecutive vertices, the closing wrap-around pair included, are
/// pairwise distinct — no degenerate zero-length edges.
pub open spec fn adjacent_distinct(s: Seq<Point>) -> bool {
    forall|i: int| 0 <= i < s.len() ==> #[trigger] s[i] != s[(i + 1) % (s.len() as int)]
}

impl Points {
    /// The arithmetic mean of the points, kept exact as the pair of
    /// coordinate sums over the count.
    pub fn get_mean_point(&self) -> (m: MeanPoint)
        requires
            1 <= self.list.len() <= MAX_POINTS,
            coords_bounded(self.list@),
        ensures
            m.n == self.list@.len(),
            m.sx == sum_x(self.list@),
            m.sy == sum_y(self.list@),
            mean_wf(m),
    {
        let ghost s = self.list@;
        let n = self.list.len();
        let mut sx: i128 = 0;
        let mut sy: i128 = 0;
        let mut i: usize = 0;
        while i < n
            invariant
                n == self.list.len(),
                s == self.list@,
                1 <= n <= MAX_POINTS,
                coords_bounded(s),
                i <= n,
                sx == sum_x(s.take(i as int)),
                sy == sum_y(s.take(i as int)),
                -(i as int) * (COORD_LIMIT as int) <= sx <= (i as int) * (COORD_LIMIT as int),
                -(i as int) * (COORD_LIMIT as int) <= sy <= (i as int) * (COORD_LIMIT as int),
            decreases n - i,
        {
            let p = self.list[i];
            proof {
                assert(s.take(i + 1).drop_last() =~= s.take(i as int));
                assert(s.take(i + 1).last() == s[i as int]);
            }
            sx = sx + (p.x as i128);
            sy = sy + (p.y as i128);
            i = i + 1;
        }
        proof {
            assert(s.take(n as int) =~= s);
        }
        MeanPoint { sx, sy, n: n as i128 }
    }

    /// Reorders the points in place by descending angle around
    /// `midpoint`, so that consecutive entries trace one consistent
    /// winding. The sort is a stable insertion sort: it moves an entry
    /// past another only on a strict angle inversion, so a sequence that
    /// is already in descending angular order comes back unchanged.
    pub fn sort_points_for_lines(&mut self, midpoint: MeanPoint)
        requires
            mean_wf(midpoint),
            old(self).list@.len() <= MAX_POINTS,
            coords_bounded(old(self).list@),
            all_off_mean(old(self).list@, midpoint),
        ensures
            final(self).list@.len() == old(self).list@.len(),
            final(self).list@.to_multiset() == old(self).list@.to_multiset(),
            coords_bounded(final(self).list@),
            all_off_mean(final(self).list@, midpoint),
            sorted_desc(final(self).list@, midpoint),
            sorted_desc(old(self).list@, midpoint) ==> final(self).list@ == old(self).list@,
    {
        let ghost orig = self.list@;
        let n = self.list.len();
        if n < 2 {
            return;
        }
        let mut i: usize = 1;
        while i < n
            invariant
                n == self.list.len(),
                2 <= n <= MAX_POINTS,
                1 <= i <= n,
                mean_wf(midpoint),
                coords_bounded(self.list@),
                all_off_mean(self.list@, midpoint),
                self.list@.to_multiset() == orig.to_multiset(),
                sorted_desc(self.list@.take(i as int), midpoint),
                sorted_desc(orig, midpoint) ==> self.list@ == orig,
            decreases n - i,
        {
            proof {
                assert forall|a: int, b: int|
                    0 <= a <= b <= i && a != i && b != i implies angle_le(
                    #[trigger] self.list@[b],
                    #[trigger] self.list@[a],
                    midpoint,
                ) by {
                    assert(angle_le(
                        self.list@.take(i as int)[b],
                        self.list@.take(i as int)[a],
                        midpoint,
                    ));
                }
            }
            let mut j: usize = i;
            while j > 0 && angle_gt(&self.list[j - 1], &self.list[j], &midpoint)
                invariant
                    n == self.list.len(),
                    2 <= n <= MAX_POINTS,
                    1 <= i < n,
                    j <= i,
                    mean_wf(midpoint),
                    coords_bounded(self.list@),
                    all_off_mean(self.list@, midpoint),
                    self.list@.to_multiset() == orig.to_multiset(),
                    forall|a: int, b: int|
                        0 <= a <= b <= i && a != j && b != j ==> angle_le(
                            #[trigger] self.list@[b],
                            #[trigger] self.list@[a],
                            midpoint,
                        ),
                    forall|b: int|
                        j < b <= i ==> angle_le(#[trigger] self.list@[b], self.list@[j as int], midpoint),
                    sorted_desc(orig, midpoint) ==> self.list@ == orig,
                decreases j,
            {
                let ghost pre = self.list@;
                let a = self.list[j - 1];
                let b = self.list[j];
                self.list.set(j - 1, b);
                self.list.set(j, a);
                proof {
                    broadcast use vstd::seq_lib::group_to_multiset_ensures;
                    broadcast use vstd::multiset::group_multiset_axioms;

                    let cur = self.list@;
                    assert(pre.contains(a)) by {
                        assert(pre[j - 1] == a);
                    }
                    assert(pre.update(j - 1, b).contains(b)) by {
                        assert(pre.update(j - 1, b)[j - 1] == b);
                    }
                    assert(cur.to_multiset() =~= pre.to_multiset());
                    // the moved-past element is at least as great as the mover
                    assert(angle_le(pre[j - 1], pre[j as int], midpoint));
                    // a sorted input never reaches a strict inversion
                    if sorted_desc(orig, midpoint) {
                        assert(pre == orig);
                        assert(angle_le(pre[j as int], pre[j - 1], midpoint));
                        assert(false);
                    }
                    // restore the two ordering invariants for j - 1
                    assert forall|x: int, y: int|
                        0 <= x <= y <= i && x != j - 1 && y != j - 1 implies angle_le(
                        cur[y],
                        cur[x],
                        midpoint,
                    ) by {
                        if y == j {
                            if x == j {
                            } else {
                                assert(angle_le(pre[j - 1], pre[x], midpoint));
                            }
                        } else if x == j {
                            assert(angle_le(pre[y], pre[j - 1], midpoint));
                        } else {
                            assert(angle_le(pre[y], pre[x], midpoint));
                        }
                    }
                    assert forall|y: int| j - 1 < y <= i implies angle_le(
                        #[trigger] cur[y],
                        cur[j - 1],
                        midpoint,
                    ) by {
                        if y == j {
                            assert(angle_le(pre[j - 1], pre[j as int], midpoint));
                        } else {
                            assert(angle_le(pre[y], pre[j as int], midpoint));
                        }
                    }
                }
                j = j - 1;
            }
            proof {
                let cur = self.list@;
                assert forall|x: int, y: int| 0 <= x <= y <= i implies angle_le(
                    cur[y],
                    cur[x],
                    midpoint,
                ) by {
                    if x == j && y == j {
                    } else if y == j {
                        // x < j, so j > 0 and the loop exited on the order test
                        assert(angle_le(cur[j as int], cur[j - 1], midpoint));
                        assert(angle_le(cur[j - 1], cur[x], midpoint));
                        lemma_angle_le_trans(cur[j as int], cur[j - 1], cur[x], midpoint);
                    } else if x == j {
                    } else {
                    }
                }
                assert(sorted_desc(cur.take(i + 1), midpoint)) by {
                    assert forall|x: int, y: int|
                        0 <= x <= y < cur.take(i + 1).len() implies angle_le(
                        #[trigger] cur.take(i + 1)[y],
                        #[trigger] cur.take(i + 1)[x],
                        midpoint,
                    ) by {
                        assert(angle_le(cur[y], cur[x], midpoint));
                    }
                }
            }
            i = i + 1;
        }
        proof {
            assert(self.list@.take(n as int) =~= self.list@);
        }
    }

    /// Derives one edge descriptor per consecutive vertex pair, the
    /// closing pair included: entry `i` describes the line through
    /// vertex `i` and vertex `(i + 1) mod n`.
    pub fn get_lines(&self) -> (r: Lines)
        requires
            3 <= self.list.len() <= MAX_POINTS,
            coords_bounded(self.list@),
            adjacent_distinct(self.list@),
        ensures
            r.0@.len() == self.list@.len(),
            lines_wf(r.0@),
            forall|i: int|
                0 <= i < self.list@.len() ==> is_line_for(
                    #[trigger] r.0@[i],
                    self.list@[i],
                    self.list@[(i + 1) % (self.list@.len() as int)],
                ),
    {
        let n = self.list.len();
        let mut out: Vec<Line> = Vec::new();
        let mut i: usize = 0;
        while i < n
            invariant
                n == self.list.len(),
                3 <= n <= MAX_POINTS,
                coords_bounded(self.list@),
                adjacent_distinct(self.list@),
                i <= n,
                out@.len() == i,
                forall|k: int| 0 <= k < i ==> line_wf(#[trigger] out@[k]),
                forall|k: int|
                    0 <= k < i ==> is_line_for(
                        #[trigger] out@[k],
                        self.list@[k],
                        self.list@[(k + 1) % (n as int)],
                    ),
            decreases n - i,
        {
            let nj = if i + 1 == n {
                0
            } else {
                i + 1
            };
            proof {
                if i + 1 == n {
                    vstd::arithmetic::div_mod::lemma_mod_self_0(n as int);
                } else {
                    vstd::arithmetic::div_mod::lemma_small_mod((i + 1) as nat, n as nat);
                }
                assert(nj as int == ((i as int) + 1) % (n as int));
                assert(self.list@[i as int] != self.list@[nj as int]);
                assert(-COORD_LIMIT <= self.list@[i as int].x <= COORD_LIMIT);
                assert(-COORD_LIMIT <= self.list@[nj as int].x <= COORD_LIMIT);
            }
            let l = line_from_points(self.list[i], self.list[nj]);
            out.push(l);
            i = i + 1;
        }
        Lines(out)
    }
}

} // verus!
