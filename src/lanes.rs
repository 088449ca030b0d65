//! Scroll lane allocation: each scrolling comment takes one of a fixed
//! number of horizontal lanes, the first one free by the time it would
//! leave, else the one that frees first.
use vstd::prelude::*;

verus! {

/// Number of lanes for scrolling comments.
pub const LANE_COUNT: usize = 11;

/// How long a comment stays on screen, in hundredths of a second.
pub const SCROLL_CS: u64 = 800;

/// Largest time stamp accepted, in hundredths of a second.
pub const MAX_VPOS: u64 = 1000000000000;

/// Mathematical state of the allocator.
pub struct LaneModel {
    /// Time until which each lane is taken.
    pub until: Seq<int>,
    /// Latest time stamp seen.
    pub vpos_now: int,
    /// Comments seen at that time stamp.
    pub count: int,
}

/// When a scrolling comment of `len` characters shown at `vpos` would let a
/// following comment into its lane.
pub open spec fn vacate_estimate(vpos: int, len: int) -> int {
    vpos + 1024000int / (len * 70 + 1280)
}

/// The first lane at or after `i` that is free by `next`.
pub open spec fn first_fit(until: Seq<int>, next: int, i: int) -> Option<int>
    decreases until.len() - i,
{
    if i < 0 || i >= until.len() {
        None
    } else if until[i] <= next {
        Some(i)
    } else {
        first_fit(until, next, i + 1)
    }
}

/// The lowest-numbered among the first `n` lanes that frees first.
pub open spec fn earliest(until: Seq<int>, n: int) -> int
    decreases n,
{
    if n <= 1 {
        0
    } else {
        let b = earliest(until, n - 1);
        if until[n - 1] < until[b] {
            n - 1
        } else {
            b
        }
    }
}

/// The lane that a comment takes.
pub open spec fn chosen_lane(until: Seq<int>, next: int) -> int {
    match first_fit(until, next, 0) {
        Some(j) => j,
        None => earliest(until, until.len() as int),
    }
}

/// The allocator after a scrolling comment of `len` characters at `vpos`,
/// and the lane it takes. Up to the lane count of comments at one time
/// stamp, the lane is chosen by scanning (`chosen_lane`); past it, the lane
/// is the count modulo the lanes, with no scan. Either way that lane is
/// taken until the comment has crossed the screen.
pub open spec fn allot(m: LaneModel, vpos: int, len: int) -> (LaneModel, int) {
    let count0 = if vpos > m.vpos_now {
        0
    } else {
        m.count
    };
    let now = if vpos > m.vpos_now {
        vpos
    } else {
        m.vpos_now
    };
    let count = count0 + 1;
    let lane = if count > LANE_COUNT {
        count % (LANE_COUNT as int)
    } else {
        chosen_lane(m.until, vacate_estimate(vpos, len))
    };
    (LaneModel { until: m.until.update(lane, vpos + SCROLL_CS), vpos_now: now, count }, lane)
}

/// The comment is placed by the scan, not by the crowded-time-stamp rule.
pub open spec fn scanned(m: LaneModel, vpos: int) -> bool {
    (if vpos > m.vpos_now {
        0
    } else {
        m.count
    }) + 1 <= LANE_COUNT
}

/// Every lane choice keeps lanes apart: a scanned comment goes to the first
/// lane whose previous comment has left by the time this one would let
/// another follow; only when every lane is still taken does it share the
/// lane that frees first. Past the lane count of comments at one time stamp
/// the lane is that count modulo the lanes. The lane then stays taken until
/// the comment has crossed the screen, and no other lane changes.
pub proof fn lemma_lane_choice(m: LaneModel, vpos: int, len: int)
    requires
        m.until.len() == LANE_COUNT,
        len >= 0,
        m.count >= 0,
    ensures
        ({
            let (m2, lane) = allot(m, vpos, len);
            let next = vacate_estimate(vpos, len);
            &&& 0 <= lane < LANE_COUNT
            &&& scanned(m, vpos) && (exists|j: int| 0 <= j < LANE_COUNT && m.until[j] <= next)
                ==> {
                &&& m.until[lane] <= next
                &&& forall|j: int| 0 <= j < lane ==> m.until[j] > next
            }
            &&& scanned(m, vpos) && (forall|j: int| 0 <= j < LANE_COUNT ==> m.until[j] > next)
                ==> forall|j: int| 0 <= j < LANE_COUNT ==> m.until[lane] <= m.until[j]
            &&& !scanned(m, vpos) ==> lane == m2.count % (LANE_COUNT as int)
            &&& m2.until.len() == LANE_COUNT
            &&& m2.until[lane] == vpos + SCROLL_CS
            &&& forall|j: int| 0 <= j < LANE_COUNT && j != lane ==> m2.until[j] == m.until[j]
        }),
{
    let next = vacate_estimate(vpos, len);
    lemma_first_fit(m.until, next, 0);
    lemma_earliest(m.until, LANE_COUNT as int);
}

/// The allocator after the scrolling comments `reqs` (time stamp, length),
/// in order, from all lanes free.
pub open spec fn allot_all(reqs: Seq<(int, int)>) -> LaneModel
    decreases reqs.len(),
{
    if reqs.len() == 0 {
        LaneModel { until: Seq::new(LANE_COUNT as nat, |_j: int| 0), vpos_now: 0, count: 0 }
    } else {
        allot(allot_all(reqs.drop_last()), reqs.last().0, reqs.last().1).0
    }
}

/// The lane that comment `i` of `reqs` takes.
pub open spec fn lane_of(reqs: Seq<(int, int)>, i: int) -> int {
    allot(allot_all(reqs.subrange(0, i)), reqs[i].0, reqs[i].1).1
}

pub open spec fn sorted_requests(reqs: Seq<(int, int)>) -> bool {
    &&& forall|i: int| 0 <= i < reqs.len() ==> (#[trigger] reqs[i]).0 >= 0 && reqs[i].1 >= 0
    &&& forall|i: int, j: int| 0 <= i < j < reqs.len() ==> (#[trigger] reqs[i]).0 <= (#[trigger] reqs[j]).0
}

proof fn lemma_allot_all_wf(reqs: Seq<(int, int)>)
    requires
        sorted_requests(reqs),
    ensures
        allot_all(reqs).until.len() == LANE_COUNT,
        allot_all(reqs).count >= 0,
    decreases reqs.len(),
{
    if reqs.len() > 0 {
        let r = reqs.drop_last();
        assert(sorted_requests(r));
        lemma_allot_all_wf(r);
        lemma_lane_choice(allot_all(r), reqs.last().0, reqs.last().1);
    }
}

/// After the first `n` comments, the lane of every earlier comment stays
/// taken at least until that comment has crossed the screen.
proof fn lemma_lanes_cover(reqs: Seq<(int, int)>, n: int)
    requires
        sorted_requests(reqs),
        0 <= n <= reqs.len(),
    ensures
        forall|i: int| 0 <= i < n ==> allot_all(reqs.subrange(0, n)).until[lane_of(reqs, i)]
            >= (#[trigger] reqs[i]).0 + SCROLL_CS,
    decreases n,
{
    if n > 0 {
        lemma_lanes_cover(reqs, n - 1);
        assert forall|i: int| 0 <= i < n implies allot_all(reqs.subrange(0, n)).until[lane_of(reqs, i)]
            >= (#[trigger] reqs[i]).0 + SCROLL_CS by {
            lemma_cover_step(reqs, n, i);
        }
    }
}

proof fn lemma_prefix_wf(reqs: Seq<(int, int)>, k: int)
    requires
        sorted_requests(reqs),
        0 <= k <= reqs.len(),
    ensures
        allot_all(reqs.subrange(0, k)).until.len() == LANE_COUNT,
        allot_all(reqs.subrange(0, k)).count >= 0,
{
    let p = reqs.subrange(0, k);
    assert forall|i: int| 0 <= i < p.len() implies (#[trigger] p[i]).0 >= 0 && p[i].1 >= 0 by {
        assert(p[i] == reqs[i]);
    }
    assert forall|i: int, j: int| 0 <= i < j < p.len() implies (#[trigger] p[i]).0 <= (#[trigger] p[j]).0 by {
        assert(p[i] == reqs[i] && p[j] == reqs[j]);
    }
    lemma_allot_all_wf(p);
}

proof fn lemma_cover_step(reqs: Seq<(int, int)>, n: int, i: int)
    requires
        sorted_requests(reqs),
        0 < n <= reqs.len(),
        0 <= i < n,
        i < n - 1 ==> allot_all(reqs.subrange(0, n - 1)).until[lane_of(reqs, i)] >= reqs[i].0
            + SCROLL_CS,
    ensures
        allot_all(reqs.subrange(0, n)).until[lane_of(reqs, i)] >= reqs[i].0 + SCROLL_CS,
{
    let pre = reqs.subrange(0, n - 1);
    let cur = reqs.subrange(0, n);
    assert(cur.drop_last() =~= pre);
    assert(cur.last() == reqs[n - 1]);
    lemma_prefix_wf(reqs, n - 1);
    lemma_prefix_wf(reqs, i);
    lemma_lane_choice(allot_all(pre), reqs[n - 1].0, reqs[n - 1].1);
    lemma_lane_choice(allot_all(reqs.subrange(0, i)), reqs[i].0, reqs[i].1);
    if i < n - 1 {
        assert(reqs[i].0 <= reqs[n - 1].0);
    }
}

/// Two comments in one lane never overlap: for time-ordered scrolling
/// comments, when comment `b` takes by scan the lane that an earlier
/// comment `a` took, `a` has crossed the screen by the time `b` would let
/// another follow.
pub proof fn lemma_same_lane_apart(reqs: Seq<(int, int)>, a: int, b: int)
    requires
        sorted_requests(reqs),
        0 <= a < b < reqs.len(),
        lane_of(reqs, a) == lane_of(reqs, b),
        scanned(allot_all(reqs.subrange(0, b)), reqs[b].0),
        first_fit(allot_all(reqs.subrange(0, b)).until, vacate_estimate(reqs[b].0, reqs[b].1), 0)
            is Some,
    ensures
        reqs[a].0 + SCROLL_CS <= vacate_estimate(reqs[b].0, reqs[b].1),
{
    let pre = reqs.subrange(0, b);
    lemma_lanes_cover(reqs, b);
    let next = vacate_estimate(reqs[b].0, reqs[b].1);
    lemma_first_fit(allot_all(pre).until, next, 0);
    lemma_prefix_wf(reqs, b);
}

proof fn lemma_first_fit(until: Seq<int>, next: int, i: int)
    requires
        0 <= i <= until.len(),
    ensures
        match first_fit(until, next, i) {
            Some(j) => i <= j < until.len() && until[j] <= next && forall|k: int|
                i <= k < j ==> until[k] > next,
            None => forall|k: int| i <= k < until.len() ==> until[k] > next,
        },
    decreases until.len() - i,
{
    if i < until.len() && until[i] > next {
        lemma_first_fit(until, next, i + 1);
    }
}

proof fn lemma_earliest(until: Seq<int>, n: int)
    requires
        1 <= n <= until.len(),
    ensures
        0 <= earliest(until, n) < n,
        forall|k: int| 0 <= k < n ==> until[earliest(until, n)] <= #[trigger] until[k],
    decreases n,
{
    if n > 1 {
        lemma_earliest(until, n - 1);
    }
}

/// Lane allocator for one conversion.
pub struct Lanes {
    until: Vec<u64>,
    vpos_now: u64,
    count: u64,
}

impl Lanes {
    pub closed spec fn view(&self) -> LaneModel {
        LaneModel {
            until: self.until@.map_values(|u: u64| u as int),
            vpos_now: self.vpos_now as int,
            count: self.count as int,
        }
    }

    /// Lane times stay in range and there are as many as lanes.
    pub closed spec fn wf(&self) -> bool {
        &&& self.until@.len() == LANE_COUNT
        &&& forall|j: int| 0 <= j < LANE_COUNT ==> self.until@[j] <= MAX_VPOS + SCROLL_CS
        &&& self.vpos_now <= MAX_VPOS
    }

    pub closed spec fn count(&self) -> int {
        self.count as int
    }

    /// All lanes free, nothing seen.
    pub fn new() -> (r: Self)
        ensures
            r.wf(),
            r.view() == (LaneModel { until: Seq::new(LANE_COUNT as nat, |_j: int| 0), vpos_now: 0, count: 0 }),
            r.count() == 0,
    {
        let r = Lanes { until: vec![0u64, 0, 0, 0, 0, 0, 0, 0, 0, 0, 0], vpos_now: 0, count: 0 };
        assert(r.view().until =~= Seq::new(LANE_COUNT as nat, |_j: int| 0));
        r
    }

    /// Places a scrolling comment of `len` characters shown at `vpos`;
    /// returns the row it is drawn on.
    /// The lane that the scan picks for a comment that would let another
    /// follow at `next`.
    fn scan(&self, next: u64) -> (lane: usize)
        requires
            self.until@.len() == LANE_COUNT,
        ensures
            lane as int == chosen_lane(self.view().until, next as int),
            lane < LANE_COUNT,
    {
        let ghost m = self.view();
        proof {
            lemma_first_fit(m.until, next as int, 0);
            lemma_earliest(m.until, LANE_COUNT as int);
        }
        let mut lane: usize = 0;
        let mut found = false;
        let mut best: usize = 0;
        let mut i: usize = 0;
        while i < LANE_COUNT
            invariant
                self.until@.len() == LANE_COUNT,
                m.until == self.until@.map_values(|u: u64| u as int),
                i <= LANE_COUNT,
                !found ==> forall|k: int| 0 <= k < i ==> m.until[k] > next,
                found ==> first_fit(m.until, next as int, 0) == Some(lane as int),
                i >= 1 ==> best as int == earliest(m.until, i as int),
                best < LANE_COUNT,
            decreases LANE_COUNT - i,
        {
            assert(m.until[i as int] == self.until@[i as int] as int);
            if !found {
                if self.until[i] <= next {
                    lane = i;
                    found = true;
                    proof {
                        lemma_first_fit(m.until, next as int, 0);
                    }
                }
            }
            if i == 0 || self.until[i] < self.until[best] {
                best = i;
            }
            i = i + 1;
        }
        if !found {
            lane = best;
        }
        lane
    }

    /// Places a scrolling comment of `len` characters shown at `vpos`;
    /// returns the lane it takes, which is also the row it is drawn on.
    pub fn allot(&mut self, vpos: u64, len: usize) -> (lane: usize)
        requires
            old(self).wf(),
            vpos <= MAX_VPOS,
            old(self).count() < u64::MAX,
        ensures
            final(self).wf(),
            final(self).view() == allot(old(self).view(), vpos as int, len as int).0,
            lane as int == allot(old(self).view(), vpos as int, len as int).1,
            lane < LANE_COUNT,
            final(self).count() <= old(self).count() + 1,
    {
        let ghost m = self.view();
        if vpos > self.vpos_now {
            self.vpos_now = vpos;
            self.count = 0;
        }
        self.count = self.count + 1;
        let lane: usize = if self.count > LANE_COUNT as u64 {
            (self.count % (LANE_COUNT as u64)) as usize
        } else {
            let d: u64 = len as u64;
            let next: u64 = if d > 100000000 {
                vpos
            } else {
                vpos + 1024000 / (d * 70 + 1280)
            };
            proof {
                if d > 100000000 {
                    assert(1024000int / (len * 70 + 1280) == 0) by (nonlinear_arith)
                        requires len > 100000000;
                }
                assert(next == vacate_estimate(vpos as int, len as int));
            }
            self.scan(next)
        };
        self.until.set(lane, vpos + SCROLL_CS);
        assert(self.view().until =~= m.until.update(lane as int, vpos + SCROLL_CS));
        lane
    }
}

} // verus!
