//! The race orchestrator: owns a track and a roster, drives ticks to a
//! bounded-time conclusion, and reports standings.

use vstd::prelude::*;
use crate::rng::Prng;
use crate::terrain::{spec_num_segments, Terrain, TRACK_MAX};
use crate::turtle::{physics_step, Turtle, MOVE_MAX};

verus! {

/// Length of one track segment, in milli-units (50.0).
pub const SEGMENT_SIZE: u64 = 50000;

/// Hard cap on ticks per race; guarantees termination even if every
/// turtle rests forever.
pub const MAX_TICKS: u64 = 5000;

/// Index of the segment a turtle at `distance` stands on: its distance
/// divided by the segment size, clamped to the last segment.
pub open spec fn seg_index(distance: u64, n: int) -> int {
    let i = distance as int / (SEGMENT_SIZE as int);
    if i < n - 1 {
        i
    } else {
        n - 1
    }
}

/// A roster turtle stays within the distance bounds that keep the
/// arithmetic in range: any turtle is below `TRACK_MAX + MOVE_MAX`, and
/// one still racing is below `TRACK_MAX`.
pub open spec fn turtle_ok(t: Turtle) -> bool {
    &&& t.wf()
    &&& t.race_distance <= TRACK_MAX + MOVE_MAX
    &&& (!t.finished ==> t.race_distance <= TRACK_MAX)
}

/// What one race tick does to one turtle: finished turtles are left
/// alone; the rest take a physics step on their current segment, add
/// the movement to their distance, and are marked finished when the
/// distance reaches the track length.
pub open spec fn tick_turtle(t: Turtle, track: Seq<Terrain>, track_length: u64) -> Turtle {
    if t.finished {
        t
    } else {
        let terrain = track[seg_index(t.race_distance, track.len() as int)];
        let (p, mv) = physics_step(t, terrain);
        let nd = p.race_distance + mv;
        Turtle { race_distance: nd as u64, finished: nd >= track_length, ..p }
    }
}

/// A turtle put back on the starting line: full energy, no distance,
/// moving, unfinished, everything else kept.
pub open spec fn reset_turtle(t: Turtle) -> Turtle {
    Turtle {
        current_energy: t.stats.max_energy,
        race_distance: 0,
        is_resting: false,
        finished: false,
        ..t
    }
}

/// A whole roster put back on the starting line.
pub open spec fn reset_all(s: Seq<Turtle>) -> Seq<Turtle> {
    Seq::new(s.len(), |i: int| reset_turtle(s[i]))
}

/// One tick applied to a whole roster.
pub open spec fn tick_all(s: Seq<Turtle>, track: Seq<Terrain>, track_length: u64) -> Seq<Turtle> {
    Seq::new(s.len(), |i: int| tick_turtle(s[i], track, track_length))
}

/// The roster after `k` ticks.
pub open spec fn iter_ticks(s: Seq<Turtle>, track: Seq<Terrain>, track_length: u64, k: nat)
    -> Seq<Turtle>
    decreases k,
{
    if k == 0 {
        s
    } else {
        tick_all(iter_ticks(s, track, track_length, (k - 1) as nat), track, track_length)
    }
}

/// The race is over after tick `k`: some turtle has finished, or the
/// tick cap is reached.
pub open spec fn race_over(s: Seq<Turtle>, k: nat) -> bool {
    (exists|i: int| 0 <= i < s.len() && s[i].finished) || k >= MAX_TICKS
}

/// `i` is the position of the roster's first maximum distance.
pub open spec fn is_first_max(s: Seq<Turtle>, i: int) -> bool {
    &&& 0 <= i < s.len()
    &&& forall|j: int| 0 <= j < s.len()
        ==> (#[trigger] s[j]).race_distance <= s[i].race_distance
    &&& forall|j: int| 0 <= j < i ==> (#[trigger] s[j]).race_distance < s[i].race_distance
}

/// `dst` lists the roster's (name, distance) pairs reordered by the
/// permutation `p`, sorted descending by distance, and `p` keeps the
/// original order among equal distances (a stable descending sort).
pub open spec fn stable_desc_perm(s: Seq<Turtle>, dst: Seq<(String, u64)>, p: Seq<int>) -> bool {
    &&& p.len() == s.len()
    &&& dst.len() == s.len()
    &&& forall|k: int| 0 <= k < p.len() ==> 0 <= #[trigger] p[k] < s.len()
    &&& forall|k1: int, k2: int| 0 <= k1 < k2 < p.len() ==> p[k1] != p[k2]
    &&& forall|k: int| 0 <= k < dst.len() ==> (#[trigger] dst[k]).0@ == s[p[k]].name@
        && dst[k].1 == s[p[k]].race_distance
    &&& forall|k1: int, k2: int| 0 <= k1 < k2 < dst.len()
        ==> (#[trigger] dst[k1]).1 >= (#[trigger] dst[k2]).1
    &&& forall|k1: int, k2: int| 0 <= k1 < k2 < dst.len() && (#[trigger] dst[k1]).1
        == (#[trigger] dst[k2]).1 ==> p[k1] < p[k2]
}

/// A race: a fixed track, a roster of turtles, and a tick counter.
#[derive(Debug)]
pub struct Race {
    pub track: Vec<Terrain>,
    pub turtles: Vec<Turtle>,
    pub track_length: u64,
    pub tick_count: u64,
}

impl Race {
    /// Track length in range, track covering it, modifiers and roster
    /// entries within bounds.
    pub open spec fn wf(self) -> bool {
        &&& 1 <= self.track_length <= TRACK_MAX
        &&& self.track@.len() == spec_num_segments(self.track_length, SEGMENT_SIZE)
        &&& forall|i: int| 0 <= i < self.track@.len() ==> (#[trigger] self.track@[i]).wf()
        &&& forall|i: int| 0 <= i < self.turtles@.len() ==> turtle_ok(#[trigger] self.turtles@[i])
    }

    /// A race over a freshly generated random track, with an empty
    /// roster.
    pub fn new(track_length: u64, rng: &mut Prng) -> (race: Race)
        requires
            1 <= track_length <= TRACK_MAX,
        ensures
            race.wf(),
            race.track_length == track_length,
            race.turtles@.len() == 0,
            race.tick_count == 0,
    {
        let track: Vec<Terrain> = Terrain::generate_track(track_length, SEGMENT_SIZE, rng);
        proof {
            assert forall|i: int| 0 <= i < track@.len() implies (#[trigger] track@[i]).wf() by {
                assert(crate::terrain::is_canonical(track@[i]));
            }
        }
        Race { track, turtles: Vec::new(), track_length, tick_count: 0 }
    }

    /// Append a turtle to the roster.
    pub fn add_turtle(&mut self, turtle: Turtle)
        requires
            old(self).wf(),
            turtle.wf(),
            turtle.race_distance <= TRACK_MAX,
        ensures
            final(self).wf(),
            final(self).turtles@ == old(self).turtles@.push(turtle),
            final(self).track == old(self).track,
            final(self).track_length == old(self).track_length,
            final(self).tick_count == old(self).tick_count,
    {
        self.turtles.push(turtle);
    }

    /// Run one tick: each unfinished turtle takes a physics step on its
    /// segment and its movement is added to its distance; the race is
    /// over when some turtle has finished or the tick cap is reached.
    pub fn tick(&mut self) -> (over: bool)
        requires
            old(self).wf(),
            old(self).tick_count < u64::MAX,
        ensures
            final(self).wf(),
            final(self).track == old(self).track,
            final(self).track_length == old(self).track_length,
            final(self).tick_count == old(self).tick_count + 1,
            final(self).turtles@.len() == old(self).turtles@.len(),
            forall|i: int| 0 <= i < old(self).turtles@.len() ==> final(self).turtles@[i]
                == tick_turtle(#[trigger] old(self).turtles@[i], old(self).track@,
                old(self).track_length),
            over == ((exists|i: int| 0 <= i < final(self).turtles@.len()
                && final(self).turtles@[i].finished) || final(self).tick_count >= MAX_TICKS),
    {
        self.tick_count = self.tick_count + 1;
        let n: usize = self.turtles.len();
        let mut i: usize = 0;
        while i < n
            invariant
                self.wf(),
                self.track == old(self).track,
                self.track_length == old(self).track_length,
                self.tick_count == old(self).tick_count + 1,
                n == self.turtles@.len() == old(self).turtles@.len(),
                i <= n,
                forall|j: int| 0 <= j < i ==> self.turtles@[j] == tick_turtle(
                    #[trigger] old(self).turtles@[j], old(self).track@, old(self).track_length),
                forall|j: int| i <= j < n ==> self.turtles@[j] == old(self).turtles@[j],
            decreases n - i,
        {
            if !self.turtles[i].finished {
                let dist: u64 = self.turtles[i].race_distance;
                let last: usize = self.track.len() - 1;
                let mut idx64: u64 = dist / SEGMENT_SIZE;
                if idx64 > last as u64 {
                    idx64 = last as u64;
                }
                let idx: usize = idx64 as usize;
                let terrain: Terrain = self.track[idx];
                proof {
                    assert(idx == seg_index(dist, self.track@.len() as int));
                }
                let ghost pre = self.turtles@;
                let mut t: Turtle = self.turtles.remove(i);
                let mv: u64 = t.update_physics(&terrain);
                t.race_distance = t.race_distance + mv;
                if t.race_distance >= self.track_length {
                    t.finished = true;
                }
                self.turtles.insert(i, t);
                proof {
                    assert(self.turtles@ =~= pre.update(i as int,
                        tick_turtle(pre[i as int], old(self).track@, old(self).track_length)));
                }
            }
            i += 1;
        }
        let mut any_finished: bool = false;
        let mut k: usize = 0;
        while k < n
            invariant
                n == self.turtles@.len(),
                k <= n,
                any_finished == exists|j: int| 0 <= j < k && self.turtles@[j].finished,
            decreases n - k,
        {
            if self.turtles[k].finished {
                any_finished = true;
            }
            k += 1;
        }
        any_finished || self.tick_count >= MAX_TICKS
    }

    /// Reset every turtle and the counter, tick until the race is over,
    /// and name the winner: the greatest distance, ties going to the
    /// earliest roster entry. An empty roster yields the sentinel
    /// "DRAW". The final roster is exactly the reset roster ticked
    /// until the first tick on which the race was over.
    pub fn run(&mut self) -> (winner: String)
        requires
            old(self).wf(),
        ensures
            final(self).wf(),
            final(self).track == old(self).track,
            final(self).track_length == old(self).track_length,
            final(self).tick_count <= MAX_TICKS,
            final(self).turtles@.len() == old(self).turtles@.len(),
            final(self).turtles@ == iter_ticks(reset_all(old(self).turtles@), old(self).track@,
                old(self).track_length, final(self).tick_count as nat),
            race_over(final(self).turtles@, final(self).tick_count as nat),
            forall|j: nat| j < final(self).tick_count ==> !race_over(
                #[trigger] iter_ticks(reset_all(old(self).turtles@), old(self).track@,
                old(self).track_length, j), j),
            forall|i: int| 0 <= i < old(self).turtles@.len()
                ==> (#[trigger] final(self).turtles@[i]).name@ == old(self).turtles@[i].name@,
            old(self).turtles@.len() == 0 ==> winner@ == "DRAW"@,
            old(self).turtles@.len() > 0 ==> exists|i: int|
                #![auto]
                is_first_max(final(self).turtles@, i) && winner@ == final(self).turtles@[i].name@,
    {
        let ghost start = reset_all(self.turtles@);
        let ghost tr = self.track@;
        let ghost tl = self.track_length;
        proof {
            assert(start == reset_all(old(self).turtles@) && tr == old(self).track@ && tl
                == old(self).track_length);
        }
        let n: usize = self.turtles.len();
        let mut i: usize = 0;
        while i < n
            invariant
                self.wf(),
                self.track == old(self).track,
                self.track_length == old(self).track_length,
                n == self.turtles@.len() == old(self).turtles@.len(),
                i <= n,
                forall|j: int| 0 <= j < i ==> self.turtles@[j] == reset_turtle(
                    #[trigger] old(self).turtles@[j]),
                forall|j: int| i <= j < n ==> self.turtles@[j] == old(self).turtles@[j],
            decreases n - i,
        {
            let ghost pre = self.turtles@;
            let mut t: Turtle = self.turtles.remove(i);
            t.reset_for_race();
            self.turtles.insert(i, t);
            proof {
                assert(self.turtles@ =~= pre.update(i as int, reset_turtle(
                    old(self).turtles@[i as int])));
            }
            i += 1;
        }
        self.tick_count = 0;
        proof {
            assert(self.turtles@ =~= start);
            assert(iter_ticks(start, tr, tl, 0) == start);
        }
        let mut over: bool = false;
        while !over
            invariant
                self.wf(),
                self.track == old(self).track,
                self.track_length == old(self).track_length,
                tr == old(self).track@,
                tl == old(self).track_length,
                start == reset_all(old(self).turtles@),
                start.len() == old(self).turtles@.len(),
                self.tick_count <= MAX_TICKS,
                self.turtles@.len() == old(self).turtles@.len(),
                self.turtles@ == iter_ticks(start, tr, tl, self.tick_count as nat),
                over == race_over(self.turtles@, self.tick_count as nat),
                forall|j: nat| j < self.tick_count ==> !race_over(
                    #[trigger] iter_ticks(start, tr, tl, j), j),
                forall|j: int| 0 <= j < self.turtles@.len()
                    ==> (#[trigger] self.turtles@[j]).name@ == old(self).turtles@[j].name@,
            decreases MAX_TICKS - self.tick_count,
        {
            let ghost pre = self.turtles@;
            let ghost pre_count = self.tick_count;
            let ghost ctrack = self.track@;
            let ghost clen = self.track_length;
            over = self.tick();
            proof {
                assert(ctrack == tr && clen == tl);
                assert forall|ii: int| 0 <= ii < self.turtles@.len() implies self.turtles@[ii]
                    == tick_all(pre, tr, tl)[ii] by {
                    assert(self.turtles@[ii] == tick_turtle(pre[ii], ctrack, clen));
                }
                assert(self.turtles@ =~= tick_all(pre, tr, tl));
                assert(self.turtles@ == iter_ticks(start, tr, tl, self.tick_count as nat));
                assert(!race_over(iter_ticks(start, tr, tl, pre_count as nat), pre_count as nat));
                assert forall|j: int| 0 <= j < self.turtles@.len() implies
                    (#[trigger] self.turtles@[j]).name@ == old(self).turtles@[j].name@ by {
                    assert(self.turtles@[j] == tick_turtle(pre[j], tr, tl));
                    assert(tick_turtle(pre[j], tr, tl).name == pre[j].name);
                }
            }
        }
        if self.turtles.len() == 0 {
            return "DRAW".to_owned();
        }
        let m: usize = self.turtles.len();
        let mut best: usize = 0;
        let mut k: usize = 1;
        while k < m
            invariant
                m == self.turtles@.len(),
                best < k <= m,
                forall|j: int| 0 <= j < k ==> (#[trigger] self.turtles@[j]).race_distance
                    <= self.turtles@[best as int].race_distance,
                forall|j: int| 0 <= j < best ==> (#[trigger] self.turtles@[j]).race_distance
                    < self.turtles@[best as int].race_distance,
            decreases m - k,
        {
            if self.turtles[k].race_distance > self.turtles[best].race_distance {
                best = k;
            }
            k += 1;
        }
        proof {
            assert(is_first_max(self.turtles@, best as int));
        }
        self.turtles[best].name.clone()
    }

    /// The roster's (name, distance) pairs, stable-sorted descending by
    /// distance: equal distances keep their roster order.
    pub fn get_positions(&self) -> (positions: Vec<(String, u64)>)
        ensures
            positions@.len() == self.turtles@.len(),
            exists|p: Seq<int>| stable_desc_perm(self.turtles@, positions@, p),
    {
        let ghost src = self.turtles@;
        let n: usize = self.turtles.len();
        let mut arr: Vec<(String, u64, usize)> = Vec::new();
        let mut i: usize = 0;
        while i < n
            invariant
                n == self.turtles@.len(),
                i <= n,
                src == self.turtles@,
                arr@.len() == i,
                forall|k: int| 0 <= k < i ==> (#[trigger] arr@[k]).2 == k,
                forall|k: int| 0 <= k < i ==> entry_of(src, #[trigger] arr@[k]),
            decreases n - i,
        {
            let name: String = self.turtles[i].name.clone();
            arr.push((name, self.turtles[i].race_distance, i));
            i += 1;
        }
        sort_entries(&mut arr, Ghost(src));
        let ghost sorted = arr@;
        let ghost perm = Seq::new(n as nat, |k: int| sorted[k].2 as int);
        let mut positions: Vec<(String, u64)> = Vec::new();
        while arr.len() > 0
            invariant
                positions@.len() + arr@.len() == n,
                sorted.len() == n,
                arr@ == sorted.skip(positions@.len() as int),
                forall|k: int| 0 <= k < positions@.len() ==> (#[trigger] positions@[k]).0@
                    == sorted[k].0@ && positions@[k].1 == sorted[k].1,
            decreases arr@.len(),
        {
            let e: (String, u64, usize) = arr.remove(0);
            proof {
                assert(e == sorted[positions@.len() as int]);
                assert(arr@ =~= sorted.skip(positions@.len() + 1int));
            }
            positions.push((e.0, e.1));
        }
        proof {
            assert forall|k: int| 0 <= k < n implies 0 <= #[trigger] perm[k] < src.len() by {
                assert(entry_of(src, sorted[k]));
            }
            assert forall|k1: int, k2: int| 0 <= k1 < k2 < n implies perm[k1] != perm[k2] by {
                assert(sorted[k1].2 != sorted[k2].2);
            }
            assert forall|k: int| 0 <= k < n implies (#[trigger] positions@[k]).0@
                == src[perm[k]].name@ && positions@[k].1 == src[perm[k]].race_distance by {
                assert(entry_of(src, sorted[k]));
                assert(positions@[k].0@ == sorted[k].0@ && positions@[k].1 == sorted[k].1);
            }
            assert forall|k1: int, k2: int| 0 <= k1 < k2 < n implies (#[trigger]
            positions@[k1]).1 >= (#[trigger] positions@[k2]).1 by {
                assert(entry_before(sorted[k1], sorted[k2]));
            }
            assert forall|k1: int, k2: int| 0 <= k1 < k2 < n && (#[trigger] positions@[k1]).1
                == (#[trigger] positions@[k2]).1 implies perm[k1] < perm[k2] by {
                assert(entry_before(sorted[k1], sorted[k2]));
                assert(positions@[k1].1 == sorted[k1].1 && positions@[k2].1 == sorted[k2].1);
            }
            assert(stable_desc_perm(src, positions@, perm));
        }
        positions
    }
}

/// An entry agrees with the roster slot its index names.
pub open spec fn entry_of(src: Seq<Turtle>, e: (String, u64, usize)) -> bool {
    &&& e.2 < src.len()
    &&& e.0@ == src[e.2 as int].name@
    &&& e.1 == src[e.2 as int].race_distance
}

/// The strict total order of the standings: greater distance first,
/// and among equal distances the smaller roster index first.
pub open spec fn entry_before(x: (String, u64, usize), y: (String, u64, usize)) -> bool {
    x.1 > y.1 || (x.1 == y.1 && x.2 < y.2)
}

/// Insertion sort of the standings entries under `entry_before`.
fn sort_entries(arr: &mut Vec<(String, u64, usize)>, src: Ghost<Seq<Turtle>>)
    requires
        forall|k: int| 0 <= k < old(arr)@.len() ==> (#[trigger] old(arr)@[k]).2 == k,
        forall|k: int| 0 <= k < old(arr)@.len() ==> entry_of(src@, #[trigger] old(arr)@[k]),
    ensures
        final(arr)@.len() == old(arr)@.len(),
        forall|k: int| 0 <= k < final(arr)@.len() ==> entry_of(src@, #[trigger] final(arr)@[k]),
        forall|a: int, b: int| 0 <= a < b < final(arr)@.len()
            ==> entry_before(final(arr)@[a], final(arr)@[b]),
        forall|a: int, b: int| 0 <= a < b < final(arr)@.len()
            ==> final(arr)@[a].2 != final(arr)@[b].2,
{
    let n: usize = arr.len();
    if n == 0 {
        return ;
    }
    let mut i: usize = 1;
    while i < n
        invariant
            n == arr@.len(),
            1 <= i <= n,
            forall|k: int| 0 <= k < n ==> entry_of(src@, #[trigger] arr@[k]),
            forall|k: int| 0 <= k < i ==> (#[trigger] arr@[k]).2 < i,
            forall|k: int| i <= k < n ==> (#[trigger] arr@[k]).2 == k,
            forall|a: int, b: int| 0 <= a < b < i ==> entry_before(arr@[a], arr@[b]),
            forall|a: int, b: int| 0 <= a < b < i ==> arr@[a].2 != arr@[b].2,
        decreases n - i,
    {
        let ghost pre = arr@;
        let x: (String, u64, usize) = arr.remove(i);
        let mut j: usize = 0;
        while j < i && arr[j].1 >= x.1
            invariant
                arr@.len() == n - 1,
                j <= i < n,
                x == pre[i as int],
                forall|k: int| 0 <= k < i ==> arr@[k] == pre[k],
                forall|k: int| 0 <= k < j ==> (#[trigger] arr@[k]).1 >= x.1,
            decreases i - j,
        {
            j += 1;
        }
        arr.insert(j, x);
        proof {
            let cur = arr@;
            assert(cur[j as int] == x);
            assert(forall|k: int| 0 <= k < j ==> cur[k] == pre[k]);
            assert(forall|k: int| j < k <= i ==> cur[k] == pre[k - 1]);
            assert(forall|k: int| i < k < n ==> cur[k] == pre[k]);
            assert(x.2 == i);
            assert forall|a: int, b: int| 0 <= a < b < i + 1 implies entry_before(cur[a], cur[b])
                by {
                if b == j {
                    assert(cur[a] == pre[a] && cur[a].1 >= x.1 && cur[a].2 < i);
                } else if a == j {
                    assert(cur[b] == pre[b - 1]);
                    assert(pre[j as int].1 < x.1);
                    if b - 1 > j {
                        assert(entry_before(pre[j as int], pre[b - 1]));
                    }
                } else if a < j && b > j {
                    assert(cur[a] == pre[a] && cur[b] == pre[b - 1]);
                    if b - 1 > a {
                        assert(entry_before(pre[a], pre[b - 1]));
                    }
                }
            }
            assert forall|a: int, b: int| 0 <= a < b < i + 1 implies cur[a].2 != cur[b].2 by {
                assert(cur[j as int].2 == i);
                if a != j && b != j {
                    let pa: int = if a < j { a } else { a - 1 };
                    let pb: int = if b < j { b } else { b - 1 };
                    assert(cur[a] == pre[pa] && cur[b] == pre[pb]);
                    assert(0 <= pa < pb < i);
                }
            }
        }
        i += 1;
    }
}

} // verus!
