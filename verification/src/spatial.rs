//! Free-form spatial layout of screens in pixel coordinates, and the search
//! for the screen a cursor moves to when it leaves one.
use vstd::prelude::*;

verus! {

/// Pixel-coordinate placement of a screen in the shared workspace.
#[derive(Debug, Clone)]
pub struct ScreenPlacement {
    pub device_id: String,
    pub x: i32,
    pub y: i32,
    pub width: u32,
    pub height: u32,
}

/// Free-form spatial layout: screens placed at arbitrary pixel coordinates.
#[derive(Debug, Clone)]
pub struct SpatialLayout {
    pub screens: Vec<ScreenPlacement>,
}

/// Direction in which a cursor leaves a screen.
#[derive(Debug, Clone, Copy, PartialEq, Eq, Structural)]
pub enum Direction {
    Left,
    Right,
    Up,
    Down,
}

/// Maximum pixel gap between two screens that still allows a cursor transition.
pub const GAP_MAX: i32 = 300;

/// A `u32` extent reinterpreted as `i32` (two's complement), as `as i32` does.
pub open spec fn extent(w: u32) -> int {
    if w <= 0x7fff_ffff {
        w as int
    } else {
        w as int - 0x1_0000_0000
    }
}

pub open spec fn right_edge(p: ScreenPlacement) -> int {
    p.x + extent(p.width)
}

pub open spec fn bottom_edge(p: ScreenPlacement) -> int {
    p.y + extent(p.height)
}

pub open spec fn fits_i32(v: int) -> bool {
    i32::MIN <= v <= i32::MAX
}

/// `i` is the first position of `s` that holds a screen of `id`.
pub open spec fn is_first_match(s: Seq<ScreenPlacement>, id: Seq<char>, i: int) -> bool {
    &&& 0 <= i < s.len()
    &&& s[i].device_id@ == id
    &&& forall|j: int| 0 <= j < i ==> s[j].device_id@ != id
}

/// No position of `s` holds a screen of `id`.
pub open spec fn has_no_match(s: Seq<ScreenPlacement>, id: Seq<char>) -> bool {
    forall|j: int| 0 <= j < s.len() ==> s[j].device_id@ != id
}

/// Whether a screen stays when screens of `id` are removed.
pub open spec fn kept(id: Seq<char>) -> spec_fn(ScreenPlacement) -> bool {
    |p: ScreenPlacement| p.device_id@ != id
}

/// The gap between `from` and `s` in direction `dir` (negative when they overlap
/// or `s` lies on the other side).
pub open spec fn gap(from: ScreenPlacement, s: ScreenPlacement, dir: Direction) -> int {
    match dir {
        Direction::Left => from.x - right_edge(s),
        Direction::Right => s.x - right_edge(from),
        Direction::Up => from.y - bottom_edge(s),
        Direction::Down => s.y - bottom_edge(from),
    }
}

/// `v` held within `lo..=hi` (`lo` when `v` is below, `hi` when above).
pub open spec fn clamp_to(v: int, lo: int, hi: int) -> int {
    if v < lo {
        lo
    } else if v > hi {
        hi
    } else {
        v
    }
}

/// The exit pixel's x, held within the horizontal extent of `from`.
pub open spec fn exit_px(from: ScreenPlacement, exit_x: int) -> int {
    clamp_to(exit_x, from.x as int, right_edge(from))
}

/// The exit pixel's y, held within the vertical extent of `from`.
pub open spec fn exit_py(from: ScreenPlacement, exit_y: int) -> int {
    clamp_to(exit_y, from.y as int, bottom_edge(from))
}

/// The exit pixel `(px, py)` lies within the extent of `s` along the edge the
/// cursor crosses (the axis perpendicular to `dir`), ends included.
pub open spec fn holds_exit(s: ScreenPlacement, dir: Direction, px: int, py: int) -> bool {
    match dir {
        Direction::Left | Direction::Right => s.y <= py <= bottom_edge(s),
        Direction::Up | Direction::Down => s.x <= px <= right_edge(s),
    }
}

/// `s` is a screen a cursor leaving `from` at pixel `(px, py)` in direction
/// `dir` may move to.
pub open spec fn is_candidate(from: ScreenPlacement, s: ScreenPlacement, dir: Direction, px: int, py: int) -> bool {
    &&& s.device_id@ != from.device_id@
    &&& 0 <= gap(from, s, dir) <= GAP_MAX
    &&& holds_exit(s, dir, px, py)
}

/// Position `i` holds the nearest candidate; of several equally near ones, the first.
pub open spec fn is_nearest(s: Seq<ScreenPlacement>, from: ScreenPlacement, dir: Direction, px: int, py: int, i: int) -> bool {
    &&& 0 <= i < s.len()
    &&& is_candidate(from, s[i], dir, px, py)
    &&& forall|j: int| 0 <= j < i && is_candidate(from, s[j], dir, px, py) ==> gap(from, s[j], dir) > gap(from, s[i], dir)
    &&& forall|j: int| i < j < s.len() && is_candidate(from, s[j], dir, px, py) ==> gap(from, s[j], dir) >= gap(from, s[i], dir)
}

/// The integer arithmetic that comparing `s` against `from` in direction `dir`
/// performs stays within `i32`.
pub open spec fn search_step_fits(from: ScreenPlacement, s: ScreenPlacement, dir: Direction) -> bool {
    s.device_id@ != from.device_id@ ==> match dir {
        Direction::Left => {
            &&& fits_i32(right_edge(s))
            &&& fits_i32(gap(from, s, dir))
            &&& fits_i32(bottom_edge(s))
        },
        Direction::Right => {
            &&& fits_i32(right_edge(from))
            &&& fits_i32(gap(from, s, dir))
            &&& fits_i32(bottom_edge(s))
        },
        Direction::Up => {
            &&& fits_i32(bottom_edge(s))
            &&& fits_i32(gap(from, s, dir))
            &&& fits_i32(right_edge(s))
        },
        Direction::Down => {
            &&& fits_i32(bottom_edge(from))
            &&& fits_i32(gap(from, s, dir))
            &&& fits_i32(right_edge(s))
        },
    }
}

/// The search in direction `dir` from `from` over `s` stays within `i32`.
pub open spec fn search_fits(s: Seq<ScreenPlacement>, from: ScreenPlacement, dir: Direction) -> bool {
    forall|j: int| 0 <= j < s.len() ==> search_step_fits(from, #[trigger] s[j], dir)
}

/// The corner direction for a cursor leaving `from` at `(px, py)` in direction
/// `dir`: when the exit pixel lies in the outer quarter of `from` along the
/// edge, the perpendicular direction toward that corner; otherwise none.
pub open spec fn corner_direction(from: ScreenPlacement, dir: Direction, px: int, py: int) -> Option<Direction> {
    match dir {
        Direction::Left | Direction::Right => {
            let off = py - from.y;
            let h = extent(from.height);
            if 4 * off <= h {
                Some(Direction::Up)
            } else if 4 * off >= 3 * h {
                Some(Direction::Down)
            } else {
                None
            }
        },
        Direction::Up | Direction::Down => {
            let off = px - from.x;
            let w = extent(from.width);
            if 4 * off <= w {
                Some(Direction::Left)
            } else if 4 * off >= 3 * w {
                Some(Direction::Right)
            } else {
                None
            }
        },
    }
}

pub open spec fn has_candidate(s: Seq<ScreenPlacement>, from: ScreenPlacement, dir: Direction, px: int, py: int) -> bool {
    exists|j: int| 0 <= j < s.len() && is_candidate(from, s[j], dir, px, py)
}

proof fn lemma_extent(w: u32)
    ensures
        (w as i32) as int == extent(w),
{
    if w <= 0x7fff_ffff {
        assert(w <= 0x7fff_ffff ==> (w as i32) as int == w as int) by (bit_vector);
    } else {
        assert(w > 0x7fff_ffff ==> (w as i32) as int == w as int - 0x1_0000_0000) by (bit_vector);
    }
}

/// The first match is unique.
pub proof fn lemma_first_match_unique(s: Seq<ScreenPlacement>, id: Seq<char>, i: int, k: int)
    requires
        is_first_match(s, id, i),
        is_first_match(s, id, k),
    ensures
        i == k,
{
}

/// The nearest candidate is unique.
pub proof fn lemma_nearest_unique(s: Seq<ScreenPlacement>, from: ScreenPlacement, dir: Direction, px: int, py: int, i: int, k: int)
    requires
        is_nearest(s, from, dir, px, py, i),
        is_nearest(s, from, dir, px, py, k),
    ensures
        i == k,
{
}

/// `after` is `before` with `p` put in: replacing the first screen of the same
/// device, or appended when the device has none.
pub open spec fn placed(before: Seq<ScreenPlacement>, p: ScreenPlacement, after: Seq<ScreenPlacement>) -> bool {
    &&& forall|i: int| is_first_match(before, p.device_id@, i) ==> after == before.update(i, p)
    &&& has_no_match(before, p.device_id@) ==> after == before.push(p)
}

/// No two screens of `s` belong to the same device.
pub open spec fn ids_distinct(s: Seq<ScreenPlacement>) -> bool {
    forall|a: int, b: int| 0 <= a < b < s.len() ==> s[a].device_id@ != s[b].device_id@
}

/// Some screen of `s` belongs to device `id`.
pub open spec fn has_id(s: Seq<ScreenPlacement>, id: Seq<char>) -> bool {
    exists|j: int| 0 <= j < s.len() && s[j].device_id@ == id
}

proof fn lemma_first_or_none(s: Seq<ScreenPlacement>, id: Seq<char>)
    ensures
        has_no_match(s, id) || exists|i: int| is_first_match(s, id, i),
    decreases s.len(),
{
    if s.len() > 0 && !has_no_match(s, id) {
        if s[0].device_id@ == id {
            assert(is_first_match(s, id, 0));
        } else {
            let t = s.drop_first();
            lemma_first_or_none(t, id);
            if has_no_match(t, id) {
                assert forall|j: int| 0 <= j < s.len() implies s[j].device_id@ != id by {
                    if j > 0 {
                        assert(s[j] == t[j - 1]);
                    }
                }
            } else {
                let i = choose|i: int| is_first_match(t, id, i);
                assert forall|j: int| 0 <= j < i + 1 implies s[j].device_id@ != id by {
                    if j > 0 {
                        assert(s[j] == t[j - 1]);
                    }
                }
                assert(is_first_match(s, id, i + 1));
            }
        }
    }
}

/// Placing a screen keeps the devices' screens distinct, the devices being
/// those there were and the placed screen's; placing the same screen again
/// changes nothing.
pub proof fn lemma_place_laws(s0: Seq<ScreenPlacement>, p: ScreenPlacement, s1: Seq<ScreenPlacement>, s2: Seq<ScreenPlacement>)
    requires
        placed(s0, p, s1),
        placed(s1, p, s2),
    ensures
        ids_distinct(s0) ==> ids_distinct(s1),
        forall|k: Seq<char>| has_id(s1, k) <==> (has_id(s0, k) || k == p.device_id@),
        s2 == s1,
{
    let id = p.device_id@;
    lemma_first_or_none(s0, id);
    if has_no_match(s0, id) {
        assert(s1 == s0.push(p));
        let n = s0.len() as int;
        assert(is_first_match(s1, id, n));
        assert(s2 == s1.update(n, p));
        assert(s2 =~= s1);
        assert forall|k: Seq<char>| has_id(s1, k) <==> (has_id(s0, k) || k == id) by {
            if has_id(s0, k) {
                let j = choose|j: int| 0 <= j < s0.len() && s0[j].device_id@ == k;
                assert(s1[j] == s0[j]);
            }
            if k == id {
                assert(s1[n] == p);
            }
            if has_id(s1, k) && k != id {
                let j = choose|j: int| 0 <= j < s1.len() && s1[j].device_id@ == k;
                assert(j < n);
                assert(s0[j] == s1[j]);
            }
        }
    } else {
        let i = choose|i: int| is_first_match(s0, id, i);
        assert(s1 == s0.update(i, p));
        assert(is_first_match(s1, id, i));
        assert(s2 == s1.update(i, p));
        assert(s2 =~= s1);
        assert forall|k: Seq<char>| has_id(s1, k) <==> (has_id(s0, k) || k == id) by {
            if has_id(s0, k) {
                let j = choose|j: int| 0 <= j < s0.len() && s0[j].device_id@ == k;
                if j != i {
                    assert(s1[j] == s0[j]);
                } else {
                    assert(s1[i] == p);
                }
            }
            if k == id {
                assert(s1[i] == p);
            }
            if has_id(s1, k) && k != id {
                let j = choose|j: int| 0 <= j < s1.len() && s1[j].device_id@ == k;
                assert(j != i);
                assert(s0[j] == s1[j]);
            }
        }
    }
}

proof fn lemma_filter_keeps_all(s: Seq<ScreenPlacement>, pred: spec_fn(ScreenPlacement) -> bool)
    requires
        forall|j: int| 0 <= j < s.len() ==> pred(s[j]),
    ensures
        s.filter(pred) == s,
    decreases s.len(),
{
    if s.len() == 0 {
        assert(s.filter(pred) =~= s) by {
            reveal(Seq::filter);
        }
    } else {
        let t = s.drop_last();
        lemma_filter_keeps_all(t, pred);
        t.lemma_filter_push(s.last(), pred);
        assert(t.push(s.last()) =~= s);
    }
}

/// Removing a device's screens twice is the same as once, and placing a screen
/// of a device that had none and then removing that device gives back the
/// layout there was.
pub proof fn lemma_remove_laws(s0: Seq<ScreenPlacement>, id: Seq<char>, p: ScreenPlacement, s1: Seq<ScreenPlacement>)
    ensures
        s0.filter(kept(id)).filter(kept(id)) == s0.filter(kept(id)),
        has_no_match(s0, p.device_id@) && placed(s0, p, s1) ==> s1.filter(kept(p.device_id@)) == s0,
{
    let f = s0.filter(kept(id));
    assert forall|j: int| 0 <= j < f.len() implies kept(id)(f[j]) by {
        s0.lemma_filter_pred(kept(id), j);
    }
    lemma_filter_keeps_all(f, kept(id));
    if has_no_match(s0, p.device_id@) && placed(s0, p, s1) {
        let q = kept(p.device_id@);
        assert(s1 == s0.push(p));
        s0.lemma_filter_push(p, q);
        lemma_filter_keeps_all(s0, q);
    }
}

fn index_of(screens: &Vec<ScreenPlacement>, device_id: &str) -> (r: Option<usize>)
    ensures
        r matches Some(i) ==> is_first_match(screens@, device_id@, i as int),
        r is None ==> has_no_match(screens@, device_id@),
{
    let mut i: usize = 0;
    while i < screens.len()
        invariant
            i <= screens.len(),
            forall|j: int| 0 <= j < i ==> screens@[j].device_id@ != device_id@,
        decreases screens.len() - i,
    {
        if screens[i].device_id.as_str().eq(device_id) {
            return Some(i);
        }
        i += 1;
    }
    None
}

impl SpatialLayout {
    pub fn new() -> (r: Self)
        ensures
            r.screens@.len() == 0,
    {
        SpatialLayout { screens: Vec::new() }
    }

    /// Put `screen` into the layout: it replaces the first screen of the same
    /// device, or is appended when the device has none.
    pub fn place(&mut self, screen: ScreenPlacement)
        ensures
            placed(old(self).screens@, screen, final(self).screens@),
    {
        match index_of(&self.screens, screen.device_id.as_str()) {
            Some(i) => {
                proof {
                    assert forall|k: int| is_first_match(old(self).screens@, screen.device_id@, k)
                        implies k == i by {
                        lemma_first_match_unique(old(self).screens@, screen.device_id@, k, i as int);
                    }
                }
                self.screens.set(i, screen);
            },
            None => {
                self.screens.push(screen);
            },
        }
    }

    /// Remove every screen of `device_id`, keeping the others in order.
    pub fn remove(&mut self, device_id: &str)
        ensures
            final(self).screens@ == old(self).screens@.filter(kept(device_id@)),
    {
        let ghost orig = self.screens@;
        let ghost p = kept(device_id@);
        let mut i: usize = 0;
        let ghost mut k: int = 0;
        assert(orig.take(0).filter(p) =~= Seq::<ScreenPlacement>::empty()) by {
            reveal(Seq::filter);
        }
        while i < self.screens.len()
            invariant
                0 <= i <= k <= orig.len(),
                self.screens@.len() == i + (orig.len() - k),
                self.screens@.take(i as int) == orig.take(k).filter(p),
                self.screens@.skip(i as int) == orig.skip(k),
                p == kept(device_id@),
            decreases self.screens.len() - i,
        {
            let ghost before = self.screens@;
            assert(before[i as int] == orig[k]) by {
                assert(before.skip(i as int)[0] == orig.skip(k)[0]);
            }
            assert(orig.take(k + 1) =~= orig.take(k).push(orig[k]));
            proof {
                orig.take(k).lemma_filter_push(orig[k], p);
                assert(before.skip(i + 1) =~= before.skip(i as int).skip(1));
                assert(orig.skip(k + 1) =~= orig.skip(k).skip(1));
            }
            if self.screens[i].device_id.as_str().eq(device_id) {
                self.screens.remove(i);
                assert(self.screens@.take(i as int) =~= before.take(i as int));
                assert(self.screens@.skip(i as int) =~= orig.skip(k + 1));
            } else {
                assert(self.screens@.take(i + 1) =~= before.take(i as int).push(before[i as int]));
                assert(self.screens@.skip(i + 1) =~= orig.skip(k + 1));
                i += 1;
            }
            proof {
                k = k + 1;
            }
        }
        assert(orig.take(k) =~= orig);
        assert(self.screens@.take(i as int) =~= self.screens@);
    }

    /// The first screen of `device_id`, if any.
    pub fn find(&self, device_id: &str) -> (r: Option<&ScreenPlacement>)
        ensures
            r matches Some(p) ==> exists|i: int| is_first_match(self.screens@, device_id@, i)
                && *p == self.screens@[i],
            r is None ==> has_no_match(self.screens@, device_id@),
    {
        match index_of(&self.screens, device_id) {
            Some(i) => Some(&self.screens[i]),
            None => None,
        }
    }

    /// The first screen of `device_id`, for in-place changes.
    pub fn find_mut(&mut self, device_id: &str) -> (r: Option<&mut ScreenPlacement>)
        ensures
            r is None <==> has_no_match(old(self).screens@, device_id@),
            r is None ==> final(self).screens@ == old(self).screens@,
            r matches Some(p) ==> exists|i: int|
                is_first_match(old(self).screens@, device_id@, i) && *p == old(self).screens@[i]
                    && final(self).screens@ == old(self).screens@.update(i, *final(p)),
    {
        match index_of(&self.screens, device_id) {
            Some(i) => Some(&mut self.screens[i]),
            None => None,
        }
    }

    /// X coordinate of the right edge of the rightmost screen (0 when there is none).
    pub fn rightmost_x(&self) -> (r: i32)
        requires
            forall|i: int| 0 <= i < self.screens@.len() ==> fits_i32(right_edge(#[trigger] self.screens@[i])),
        ensures
            self.screens@.len() == 0 ==> r == 0,
            self.screens@.len() > 0 ==> (exists|i: int| 0 <= i < self.screens@.len() && r == right_edge(self.screens@[i])),
            forall|i: int| 0 <= i < self.screens@.len() ==> right_edge(#[trigger] self.screens@[i]) <= r,
    {
        let mut best: Option<i32> = None;
        let mut i: usize = 0;
        while i < self.screens.len()
            invariant
                i <= self.screens@.len(),
                forall|k: int| 0 <= k < self.screens@.len() ==> fits_i32(right_edge(#[trigger] self.screens@[k])),
                i == 0 ==> best is None,
                best matches Some(b) ==> (exists|k: int| 0 <= k < i && b == right_edge(self.screens@[k])),
                best matches Some(b) ==> forall|k: int| 0 <= k < i ==> right_edge(#[trigger] self.screens@[k]) <= b,
                i > 0 ==> best is Some,
            decreases self.screens.len() - i,
        {
            let s = &self.screens[i];
            proof {
                lemma_extent(s.width);
                assert(fits_i32(right_edge(self.screens@[i as int])));
            }
            let r = s.x + s.width as i32;
            best = match best {
                None => Some(r),
                Some(b) => if r > b { Some(r) } else { Some(b) },
            };
            i += 1;
        }
        match best {
            Some(b) => b,
            None => 0,
        }
    }

    /// Y coordinate of the topmost screen (smallest y; 0 when there is none).
    pub fn top_y(&self) -> (r: i32)
        ensures
            self.screens@.len() == 0 ==> r == 0,
            self.screens@.len() > 0 ==> (exists|i: int| 0 <= i < self.screens@.len() && r == self.screens@[i].y),
            forall|i: int| 0 <= i < self.screens@.len() ==> r <= #[trigger] self.screens@[i].y,
    {
        let mut best: Option<i32> = None;
        let mut i: usize = 0;
        while i < self.screens.len()
            invariant
                i <= self.screens@.len(),
                i == 0 ==> best is None,
                best matches Some(b) ==> (exists|k: int| 0 <= k < i && b == self.screens@[k].y),
                best matches Some(b) ==> forall|k: int| 0 <= k < i ==> b <= #[trigger] self.screens@[k].y,
                i > 0 ==> best is Some,
            decreases self.screens.len() - i,
        {
            let y = self.screens[i].y;
            best = match best {
                None => Some(y),
                Some(b) => if y < b { Some(y) } else { Some(b) },
            };
            i += 1;
        }
        match best {
            Some(b) => b,
            None => 0,
        }
    }

    /// The nearest screen a cursor leaving `from` at pixel `(px, py)` in
    /// direction `dir` can move to: a screen of another device whose facing edge
    /// lies between 0 and `GAP_MAX` pixels away and whose extent along the edge
    /// holds the exit pixel. Of several equally near ones, the first in the
    /// layout is taken.
    pub fn search_direction(&self, from: &ScreenPlacement, dir: Direction, px: i32, py: i32) -> (r: Option<usize>)
        requires
            search_fits(self.screens@, *from, dir),
        ensures
            r matches Some(i) ==> is_nearest(self.screens@, *from, dir, px as int, py as int, i as int),
            r is None ==> !has_candidate(self.screens@, *from, dir, px as int, py as int),
    {
        let ghost s = self.screens@;
        let fw = from.width as i32;
        let fh = from.height as i32;
        proof {
            lemma_extent(from.width);
            lemma_extent(from.height);
        }
        let mut best: Option<(usize, i32)> = None;
        let mut i: usize = 0;
        while i < self.screens.len()
            invariant
                s == self.screens@,
                search_fits(s, *from, dir),
                fw as int == extent(from.width),
                fh as int == extent(from.height),
                i <= s.len(),
                best is None ==> forall|j: int| 0 <= j < i ==> !is_candidate(*from, #[trigger] s[j], dir, px as int, py as int),
                best matches Some((bi, bg)) ==> {
                    &&& bi < i
                    &&& is_candidate(*from, s[bi as int], dir, px as int, py as int)
                    &&& bg == gap(*from, s[bi as int], dir)
                    &&& forall|j: int| 0 <= j < bi && is_candidate(*from, #[trigger] s[j], dir, px as int, py as int) ==> gap(*from, s[j], dir) > bg
                    &&& forall|j: int| bi < j < i && is_candidate(*from, #[trigger] s[j], dir, px as int, py as int) ==> gap(*from, s[j], dir) >= bg
                },
            decreases s.len() - i,
        {
            let screen = &self.screens[i];
            if screen.device_id.as_str().eq(from.device_id.as_str()) {
                i += 1;
                continue;
            }
            assert(search_step_fits(*from, s[i as int], dir));
            let sx = screen.x;
            let sy = screen.y;
            let sw = screen.width as i32;
            let sh = screen.height as i32;
            proof {
                lemma_extent(screen.width);
                lemma_extent(screen.height);
            }
            let (g, ok) = match dir {
                Direction::Left => {
                    let g = from.x - (sx + sw);
                    let ok = sy <= py && py <= sy + sh;
                    (g, ok)
                },
                Direction::Right => {
                    let g = sx - (from.x + fw);
                    let ok = sy <= py && py <= sy + sh;
                    (g, ok)
                },
                Direction::Up => {
                    let g = from.y - (sy + sh);
                    let ok = sx <= px && px <= sx + sw;
                    (g, ok)
                },
                Direction::Down => {
                    let g = sy - (from.y + fh);
                    let ok = sx <= px && px <= sx + sw;
                    (g, ok)
                },
            };
            assert(g == gap(*from, s[i as int], dir));
            assert(ok == holds_exit(s[i as int], dir, px as int, py as int));
            if g >= 0 && g <= GAP_MAX && ok {
                let better = match best {
                    None => true,
                    Some((_, bg)) => g < bg,
                };
                if better {
                    best = Some((i, g));
                }
            }
            i += 1;
        }
        match best {
            Some((bi, _)) => Some(bi),
            None => None,
        }
    }

    /// The screen a cursor moves to when it leaves the first screen of `from_id`
    /// in direction `dir` at pixel `(exit_x, exit_y)`, and the direction in which
    /// it was found. The exit pixel is first held within the screen. When `dir`
    /// finds no neighbour whose extent holds the exit pixel, and the exit pixel
    /// lies in the outer quarter of the screen along the edge, the perpendicular
    /// direction toward that corner is tried (`corner_direction`).
    pub fn edge_transition_target(&self, from_id: &str, dir: Direction, exit_x: i32, exit_y: i32) -> (r: Option<(usize, Direction)>)
        requires
            forall|f: int| #[trigger] is_first_match(self.screens@, from_id@, f) ==> {
                let from = self.screens@[f];
                let px = exit_px(from, exit_x as int);
                let py = exit_py(from, exit_y as int);
                &&& fits_i32(right_edge(from))
                &&& fits_i32(bottom_edge(from))
                &&& search_fits(self.screens@, from, dir)
                &&& !has_candidate(self.screens@, from, dir, px, py) ==> (corner_direction(from, dir, px, py) matches Some(c)
                    ==> search_fits(self.screens@, from, c))
            },
        ensures
            has_no_match(self.screens@, from_id@) ==> r is None,
            forall|f: int| #[trigger] is_first_match(self.screens@, from_id@, f) ==> {
                let s = self.screens@;
                let from = s[f];
                let px = exit_px(from, exit_x as int);
                let py = exit_py(from, exit_y as int);
                &&& r matches Some((i, d)) ==> is_nearest(s, from, d, px, py, i as int) && (d == dir || (
                    !has_candidate(s, from, dir, px, py) && corner_direction(from, dir, px, py) == Some(d)))
                &&& r is None ==> !has_candidate(s, from, dir, px, py)
                    && (corner_direction(from, dir, px, py) matches Some(c) ==> !has_candidate(s, from, c, px, py))
            },
    {
        let f = match index_of(&self.screens, from_id) {
            Some(f) => f,
            None => {
                return None;
            },
        };
        proof {
            assert forall|g: int| is_first_match(self.screens@, from_id@, g) implies g == f by {
                lemma_first_match_unique(self.screens@, from_id@, g, f as int);
            }
        }
        let from = &self.screens[f];
        proof {
            lemma_extent(from.width);
            lemma_extent(from.height);
        }
        let right = from.x + from.width as i32;
        let bottom = from.y + from.height as i32;
        let px: i32 = if exit_x < from.x { from.x } else if exit_x > right { right } else { exit_x };
        let py: i32 = if exit_y < from.y { from.y } else if exit_y > bottom { bottom } else { exit_y };
        assert(px as int == exit_px(*from, exit_x as int));
        assert(py as int == exit_py(*from, exit_y as int));
        if let Some(i) = self.search_direction(from, dir, px, py) {
            return Some((i, dir));
        }
        let corner: Option<Direction> = match dir {
            Direction::Left | Direction::Right => {
                let off: i64 = (py as i64 - from.y as i64) * 4;
                let h: i64 = from.height as i32 as i64;
                if off <= h {
                    Some(Direction::Up)
                } else if off >= 3 * h {
                    Some(Direction::Down)
                } else {
                    None
                }
            },
            Direction::Up | Direction::Down => {
                let off: i64 = (px as i64 - from.x as i64) * 4;
                let w: i64 = from.width as i32 as i64;
                if off <= w {
                    Some(Direction::Left)
                } else if off >= 3 * w {
                    Some(Direction::Right)
                } else {
                    None
                }
            },
        };
        assert(corner == corner_direction(*from, dir, px as int, py as int));
        match corner {
            Some(c) => match self.search_direction(from, c, px, py) {
                Some(i) => Some((i, c)),
                None => None,
            },
            None => None,
        }
    }
}


/// The corner tried after a dead edge depends only on where along the edge the
/// cursor left, not on which of the two opposite edges it crossed: along a top
/// or bottom edge the outer quarter toward the right end gives Right and toward
/// the left end Left; along a left or right edge the lower quarter gives Down
/// and the upper quarter Up; the middle half gives none.
pub proof fn lemma_corner_by_position(f: ScreenPlacement, px: int, py: int)
    ensures
        corner_direction(f, Direction::Up, px, py) == corner_direction(f, Direction::Down, px, py),
        corner_direction(f, Direction::Left, px, py) == corner_direction(f, Direction::Right, px, py),
        extent(f.width) > 0 && 4 * (px - f.x) >= 3 * extent(f.width)
            ==> corner_direction(f, Direction::Up, px, py) == Some(Direction::Right),
        4 * (px - f.x) <= extent(f.width) ==> corner_direction(f, Direction::Up, px, py) == Some(Direction::Left),
        extent(f.width) < 4 * (px - f.x) < 3 * extent(f.width) ==> corner_direction(f, Direction::Up, px, py) is None,
        extent(f.height) > 0 && 4 * (py - f.y) >= 3 * extent(f.height)
            ==> corner_direction(f, Direction::Left, px, py) == Some(Direction::Down),
        4 * (py - f.y) <= extent(f.height) ==> corner_direction(f, Direction::Left, px, py) == Some(Direction::Up),
        extent(f.height) < 4 * (py - f.y) < 3 * extent(f.height) ==> corner_direction(f, Direction::Left, px, py) is None,
{
}

} // verus!
