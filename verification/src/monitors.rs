//! Host monitors: placing them on the grid, and finding the monitor edge the
//! cursor touches.
use vstd::prelude::*;
use crate::grid::{GridPosition, ScreenInfo, VirtualGrid, UNIT_SCALE_BITS, with_screen};
use crate::spatial::Direction;
use crate::text::{decimal, push_char, push_decimal};
use crate::scan::{chars_of, lines, parse_i32, parse_i32_dec, split_lines, split_words, tokens};

verus! {

/// One physical monitor on the host machine.
#[derive(Debug, Clone)]
pub struct HostMonitor {
    /// Absolute X offset on the combined desktop (px).
    pub x: i32,
    pub y: i32,
    pub width: i32,
    pub height: i32,
    /// Cell in the grid that represents this monitor.
    pub grid_pos: GridPosition,
    /// Output name (e.g. "DP-1").
    pub name: String,
    /// Stable id used in the spatial layout (e.g. "__host__0").
    pub device_id: String,
}

/// Geometry of one display as the display server reports it: x, y, width,
/// height and output name.
pub type RawDisplay = (i32, i32, i32, i32, String);

/// Distance in pixels from a monitor edge within which the cursor counts as
/// touching it.
pub const EDGE_THRESHOLD: i32 = 5;

/// Where the first element with x greater than `k` sits (the insertion point
/// that keeps equal keys in their input order).
pub open spec fn insert_pos(t: Seq<RawDisplay>, k: i32) -> int
    decreases t.len(),
{
    if t.len() == 0 {
        0
    } else if t[0].0 > k {
        0
    } else {
        1 + insert_pos(t.drop_first(), k)
    }
}

/// The displays sorted left to right by x; displays with equal x keep their order.
pub open spec fn sort_by_x(s: Seq<RawDisplay>) -> Seq<RawDisplay>
    decreases s.len(),
{
    if s.len() == 0 {
        s
    } else {
        let t = sort_by_x(s.drop_last());
        t.insert(insert_pos(t, s.last().0), s.last())
    }
}

pub open spec fn sorted_by_x(s: Seq<RawDisplay>) -> bool {
    forall|i: int, j: int| 0 <= i < j < s.len() ==> s[i].0 <= s[j].0
}

/// The id of the host monitor at position `i`: "__host__" and `i` in decimal.
pub open spec fn host_monitor_id(i: nat) -> Seq<char> {
    seq!['_', '_', 'h', 'o', 's', 't', '_', '_'] + decimal(i)
}

/// The cell of the host monitor at position `i`: row 1, column `i` (low 8 bits).
pub open spec fn host_monitor_pos(i: int) -> GridPosition {
    GridPosition { row: 1, col: (i % 256) as u8 }
}

/// The cells after each monitor of `ms` is put on the grid at its position,
/// in order.
pub open spec fn with_host_screens(cells: Seq<crate::grid::GridCell>, rows: u8, cols: u8, ms: Seq<HostMonitor>) -> Seq<crate::grid::GridCell>
    decreases ms.len(),
{
    if ms.len() == 0 {
        cells
    } else {
        let m = ms.last();
        with_screen(
            with_host_screens(cells, rows, cols, ms.drop_last()),
            rows,
            cols,
            m.grid_pos,
            ScreenInfo { device_id: m.device_id, width_px: m.width as u32, height_px: m.height as u32, scale_factor_bits: UNIT_SCALE_BITS },
        )
    }
}

/// `v` lies within `i32`.
pub open spec fn fits(v: int) -> bool {
    i32::MIN <= v <= i32::MAX
}

/// The cursor `(rx, ry)` lies on monitor `m`.
pub open spec fn on_monitor(m: HostMonitor, rx: i32, ry: i32) -> bool {
    rx >= m.x && rx < m.x + m.width && ry >= m.y && ry < m.y + m.height
}

/// The containment test for `m` stays within `i32`, in the order it evaluates.
pub open spec fn containment_fits(m: HostMonitor, rx: i32, ry: i32) -> bool {
    rx >= m.x ==> (fits(m.x + m.width) && (rx < m.x + m.width && ry >= m.y ==> fits(m.y + m.height)))
}

/// The edge of `m` the cursor touches, if any, checked left, right, top, bottom.
pub open spec fn edge_touched(m: HostMonitor, rx: i32, ry: i32) -> Option<Direction> {
    if rx <= m.x + EDGE_THRESHOLD {
        Some(Direction::Left)
    } else if rx >= m.x + m.width - EDGE_THRESHOLD - 1 {
        Some(Direction::Right)
    } else if ry <= m.y + EDGE_THRESHOLD {
        Some(Direction::Up)
    } else if ry >= m.y + m.height - EDGE_THRESHOLD - 1 {
        Some(Direction::Down)
    } else {
        None
    }
}

/// The edge test for `m` stays within `i32`, in the order it evaluates.
pub open spec fn edge_fits(m: HostMonitor, rx: i32, ry: i32) -> bool {
    &&& fits(m.x + EDGE_THRESHOLD)
    &&& rx > m.x + EDGE_THRESHOLD ==> {
        &&& fits(m.x + m.width)
        &&& fits(m.x + m.width - EDGE_THRESHOLD)
        &&& fits(m.x + m.width - EDGE_THRESHOLD - 1)
        &&& rx < m.x + m.width - EDGE_THRESHOLD - 1 ==> {
            &&& fits(m.y + EDGE_THRESHOLD)
            &&& ry > m.y + EDGE_THRESHOLD ==> {
                &&& fits(m.y + m.height)
                &&& fits(m.y + m.height - EDGE_THRESHOLD)
                &&& fits(m.y + m.height - EDGE_THRESHOLD - 1)
            }
        }
    }
}

/// `i` is the first monitor the cursor lies on.
pub open spec fn is_first_monitor(ms: Seq<HostMonitor>, rx: i32, ry: i32, i: int) -> bool {
    &&& 0 <= i < ms.len()
    &&& on_monitor(ms[i], rx, ry)
    &&& forall|j: int| 0 <= j < i ==> !on_monitor(#[trigger] ms[j], rx, ry)
}

/// The id of the host monitor at position `i`.
pub fn host_monitor_name(i: usize) -> (r: String)
    ensures
        r@ == host_monitor_id(i as nat),
{
    let mut id = String::new();
    push_char(&mut id, '_');
    push_char(&mut id, '_');
    push_char(&mut id, 'h');
    push_char(&mut id, 'o');
    push_char(&mut id, 's');
    push_char(&mut id, 't');
    push_char(&mut id, '_');
    push_char(&mut id, '_');
    push_decimal(&mut id, i as u64);
    assert(id@ =~= host_monitor_id(i as nat));
    id
}

/// Place the host's displays in row 1 of the grid, sorted left to right by x,
/// one per column, and return their records.
#[verifier::rlimit(50)]
pub fn place_host_monitors(grid: &mut VirtualGrid, raw: Vec<RawDisplay>) -> (r: Vec<HostMonitor>)
    requires
        old(grid).wf(),
    ensures
        final(grid).wf(),
        final(grid).rows == old(grid).rows,
        final(grid).cols == old(grid).cols,
        final(grid).cells@ == with_host_screens(old(grid).cells@, old(grid).rows, old(grid).cols, r@),
        r@.len() == raw@.len(),
        forall|i: int| 0 <= i < r@.len() ==> {
            let d = #[trigger] sort_by_x(raw@)[i];
            &&& r@[i].x == d.0
            &&& r@[i].y == d.1
            &&& r@[i].width == d.2
            &&& r@[i].height == d.3
            &&& r@[i].grid_pos == host_monitor_pos(i)
            &&& r@[i].name@ == d.4@
            &&& r@[i].device_id@ == host_monitor_id(i as nat)
        },
{
    let ghost orig = raw@;
    let mut rest = raw;
    let mut sorted: Vec<RawDisplay> = Vec::new();
    let ghost mut k: int = 0;
    while rest.len() > 0
        invariant
            0 <= k <= orig.len(),
            rest@ == orig.skip(k),
            sorted@ == sort_by_x(orig.take(k)),
            sorted@.len() == k,
        decreases rest@.len(),
    {
        let d = rest.remove(0);
        proof {
            assert(orig.take(k + 1).drop_last() =~= orig.take(k));
            assert(orig.take(k + 1).last() == d);
            assert(orig.skip(k + 1) =~= orig.skip(k).remove(0));
        }
        let mut p: usize = 0;
        assert(sorted@.skip(0) =~= sorted@);
        while p < sorted.len() && sorted[p].0 <= d.0
            invariant
                p <= sorted@.len(),
                insert_pos(sorted@, d.0) == p + insert_pos(sorted@.skip(p as int), d.0),
            decreases sorted@.len() - p,
        {
            assert(sorted@.skip(p as int).drop_first() =~= sorted@.skip(p + 1));
            p += 1;
        }
        proof {
            if p < sorted@.len() {
                assert(sorted@.skip(p as int)[0] == sorted@[p as int]);
            } else {
                assert(sorted@.skip(p as int).len() == 0);
            }
        }
        sorted.insert(p, d);
        proof {
            k = k + 1;
        }
    }
    assert(orig.take(k) =~= orig);
    let ghost s = sorted@;
    let ghost cells0 = grid.cells@;
    let mut out: Vec<HostMonitor> = Vec::new();
    let mut i: usize = 0;
    while i < sorted.len()
        invariant
            s == sorted@,
            s == sort_by_x(orig),
            i <= s.len(),
            grid.wf(),
            grid.rows == old(grid).rows,
            grid.cols == old(grid).cols,
            cells0 == old(grid).cells@,
            grid.cells@ == with_host_screens(cells0, grid.rows, grid.cols, out@),
            out@.len() == i,
            forall|j: int| 0 <= j < i ==> {
                let d = #[trigger] s[j];
                &&& out@[j].x == d.0
                &&& out@[j].y == d.1
                &&& out@[j].width == d.2
                &&& out@[j].height == d.3
                &&& out@[j].grid_pos == host_monitor_pos(j)
                &&& out@[j].name@ == d.4@
                &&& out@[j].device_id@ == host_monitor_id(j as nat)
            },
        decreases s.len() - i,
    {
        let (x, y, w, h) = (sorted[i].0, sorted[i].1, sorted[i].2, sorted[i].3);
        let name = sorted[i].4.clone();
        proof {
            crate::grid::lemma_usize_low_byte(i);
        }
        let pos = GridPosition { row: 1, col: i as u8 };
        let id = host_monitor_name(i);
        grid.place_screen(pos, ScreenInfo { device_id: id.clone(), width_px: w as u32, height_px: h as u32, scale_factor_bits: UNIT_SCALE_BITS });
        let ghost before = out@;
        out.push(HostMonitor { x, y, width: w, height: h, grid_pos: pos, name, device_id: id });
        assert(out@.drop_last() =~= before);
        i += 1;
    }
    out
}

/// The monitor the cursor `(rx, ry)` lies on (the first one, if several
/// overlap) and the monitor edge it touches, if any.
pub fn locate_edge(monitors: &[HostMonitor], rx: i32, ry: i32) -> (r: Option<(usize, Option<Direction>)>)
    requires
        forall|j: int| 0 <= j < monitors@.len() ==> containment_fits(#[trigger] monitors@[j], rx, ry),
        forall|j: int| 0 <= j < monitors@.len() && on_monitor(#[trigger] monitors@[j], rx, ry) ==> edge_fits(monitors@[j], rx, ry),
    ensures
        r is None ==> forall|j: int| 0 <= j < monitors@.len() ==> !on_monitor(#[trigger] monitors@[j], rx, ry),
        r matches Some((i, e)) ==> is_first_monitor(monitors@, rx, ry, i as int) && e == edge_touched(monitors@[i as int], rx, ry),
{
    let mut i: usize = 0;
    while i < monitors.len()
        invariant
            i <= monitors@.len(),
            forall|j: int| 0 <= j < monitors@.len() ==> containment_fits(#[trigger] monitors@[j], rx, ry),
            forall|j: int| 0 <= j < i ==> !on_monitor(#[trigger] monitors@[j], rx, ry),
            forall|j: int| 0 <= j < monitors@.len() && on_monitor(#[trigger] monitors@[j], rx, ry) ==> edge_fits(monitors@[j], rx, ry),
        decreases monitors@.len() - i,
    {
        let m = &monitors[i];
        assert(containment_fits(monitors@[i as int], rx, ry));
        if rx >= m.x && rx < m.x + m.width && ry >= m.y && ry < m.y + m.height {
            assert(edge_fits(monitors@[i as int], rx, ry));
            let edge = if rx <= m.x + EDGE_THRESHOLD {
                Some(Direction::Left)
            } else if rx >= m.x + m.width - EDGE_THRESHOLD - 1 {
                Some(Direction::Right)
            } else if ry <= m.y + EDGE_THRESHOLD {
                Some(Direction::Up)
            } else if ry >= m.y + m.height - EDGE_THRESHOLD - 1 {
                Some(Direction::Down)
            } else {
                None
            };
            return Some((i, edge));
        }
        i += 1;
    }
    None
}

/// The sort keeps every display and orders them left to right.
pub proof fn lemma_sort_by_x_sorted(s: Seq<RawDisplay>)
    ensures
        sort_by_x(s).len() == s.len(),
        sorted_by_x(sort_by_x(s)),
    decreases s.len(),
{
    if s.len() > 0 {
        lemma_sort_by_x_sorted(s.drop_last());
        let t = sort_by_x(s.drop_last());
        let k = s.last().0;
        lemma_insert_pos(t, k);
        let p = insert_pos(t, k);
        let u = t.insert(p, s.last());
        assert forall|i: int, j: int| 0 <= i < j < u.len() implies u[i].0 <= u[j].0 by {
            if j < p {
            } else if j == p {
            } else if i < p {
                assert(u[j] == t[j - 1]);
            } else if i == p {
                assert(u[j] == t[j - 1]);
            } else {
                assert(u[i] == t[i - 1]);
                assert(u[j] == t[j - 1]);
            }
        }
    }
}

proof fn lemma_insert_pos(t: Seq<RawDisplay>, k: i32)
    requires
        sorted_by_x(t),
    ensures
        0 <= insert_pos(t, k) <= t.len(),
        forall|i: int| 0 <= i < insert_pos(t, k) ==> t[i].0 <= k,
        forall|i: int| insert_pos(t, k) <= i < t.len() ==> t[i].0 > k,
    decreases t.len(),
{
    if t.len() > 0 && t[0].0 <= k {
        lemma_insert_pos(t.drop_first(), k);
        assert forall|i: int| 0 <= i < insert_pos(t, k) implies t[i].0 <= k by {
            if i > 0 {
                assert(t[i] == t.drop_first()[i - 1]);
            }
        }
        assert forall|i: int| insert_pos(t, k) <= i < t.len() implies t[i].0 > k by {
            assert(t[i] == t.drop_first()[i - 1]);
        }
    }
}

/// A display line of the desktop's monitor report, "name x y width height"
/// (more words are ignored), when it has at least five words: `Some` of the
/// display when every number parses, or the fact that one does not.
pub open spec fn display_of(words: Seq<Seq<char>>) -> Option<(i32, i32, i32, i32, Seq<char>)> {
    match (parse_i32_dec(words[1]), parse_i32_dec(words[2]), parse_i32_dec(words[3]), parse_i32_dec(words[4])) {
        (Some(x), Some(y), Some(w), Some(h)) => Some((x, y, w, h, words[0])),
        _ => None,
    }
}

/// The displays read from `ls` so far: lines with fewer than five words are
/// skipped, displays without area are left out, and a number that does not
/// parse spoils the whole report (`None`).
pub open spec fn display_scan(ls: Seq<Seq<char>>) -> Option<Seq<(i32, i32, i32, i32, Seq<char>)>>
    decreases ls.len(),
{
    if ls.len() == 0 {
        Some(seq![])
    } else {
        match display_scan(ls.drop_last()) {
            None => None,
            Some(found) => {
                let words = tokens(ls.last());
                if words.len() < 5 {
                    Some(found)
                } else {
                    match display_of(words) {
                        None => None,
                        Some(d) => if d.2 > 0 && d.3 > 0 { Some(found.push(d)) } else { Some(found) },
                    }
                }
            },
        }
    }
}

/// The displays of a monitor report; none when a number does not parse or no
/// display has area.
pub open spec fn display_list(text: Seq<char>) -> Option<Seq<(i32, i32, i32, i32, Seq<char>)>> {
    match display_scan(lines(text)) {
        Some(found) => if found.len() == 0 { None } else { Some(found) },
        None => None,
    }
}

proof fn lemma_scan_none_persists(ls: Seq<Seq<char>>, k: int)
    requires
        0 <= k <= ls.len(),
        display_scan(ls.take(k)) is None,
    ensures
        display_scan(ls) is None,
    decreases ls.len() - k,
{
    if k < ls.len() {
        assert(ls.take(k + 1).drop_last() =~= ls.take(k));
        lemma_scan_none_persists(ls, k + 1);
    } else {
        assert(ls.take(k) =~= ls);
    }
}

pub open spec fn raw_view(d: RawDisplay) -> (i32, i32, i32, i32, Seq<char>) {
    (d.0, d.1, d.2, d.3, d.4@)
}

/// Read the monitor report the desktop gives, one display per line as
/// "name x y width height" in logical pixels.
pub fn parse_display_list(text: &str) -> (r: Option<Vec<RawDisplay>>)
    ensures
        match display_list(text@) {
            None => r is None,
            Some(ds) => r matches Some(v) && v@.len() == ds.len()
                && forall|i: int| 0 <= i < ds.len() ==> raw_view(#[trigger] v@[i]) == ds[i],
        },
{
    let cs = chars_of(text);
    let ls = split_lines(cs.as_slice());
    let ghost all = lines(text@);
    let mut out: Vec<RawDisplay> = Vec::new();
    let mut i: usize = 0;
    assert(all.take(0) =~= Seq::<Seq<char>>::empty());
    while i < ls.len()
        invariant
            all == lines(text@),
            ls@.len() == all.len(),
            forall|k: int| 0 <= k < ls@.len() ==> (#[trigger] ls@[k])@ == all[k],
            i <= all.len(),
            display_scan(all.take(i as int)) matches Some(found) && out@.len() == found.len()
                && forall|k: int| 0 <= k < found.len() ==> raw_view(#[trigger] out@[k]) == found[k],
        decreases all.len() - i,
    {
        let ghost prev = display_scan(all.take(i as int))->0;
        assert(all.take(i + 1).drop_last() =~= all.take(i as int));
        assert(all.take(i + 1).last() == ls@[i as int]@);
        let words = split_words(ls[i].as_slice());
        let ghost ws = tokens(ls@[i as int]@);
        if words.len() >= 5 {
            let w1 = &words[1];
            let w2 = &words[2];
            let w3 = &words[3];
            let w4 = &words[4];
            assert(w1@.subrange(0, w1@.len() as int) =~= w1@);
            assert(w2@.subrange(0, w2@.len() as int) =~= w2@);
            assert(w3@.subrange(0, w3@.len() as int) =~= w3@);
            assert(w4@.subrange(0, w4@.len() as int) =~= w4@);
            let px = parse_i32(w1.as_slice(), 0, w1.len());
            let py = parse_i32(w2.as_slice(), 0, w2.len());
            let pw = parse_i32(w3.as_slice(), 0, w3.len());
            let ph = parse_i32(w4.as_slice(), 0, w4.len());
            let (x, y, w, h) = match (px, py, pw, ph) {
                (Some(x), Some(y), Some(w), Some(h)) => (x, y, w, h),
                _ => {
                    proof {
                        assert(display_scan(all.take(i + 1)) is None);
                        lemma_scan_none_persists(all, i + 1);
                    }
                    return None;
                },
            };
            if w > 0 && h > 0 {
                let mut name = String::new();
                let w0 = &words[0];
                let mut j: usize = 0;
                while j < w0.len()
                    invariant
                        j <= w0@.len(),
                        name@ == w0@.take(j as int),
                    decreases w0@.len() - j,
                {
                    push_char(&mut name, w0[j]);
                    assert(w0@.take(j + 1) =~= w0@.take(j as int).push(w0@[j as int]));
                    j += 1;
                }
                assert(w0@.take(j as int) =~= w0@);
                let ghost before = out@;
                out.push((x, y, w, h, name));
                assert forall|k: int| 0 <= k < prev.len() + 1 implies raw_view(#[trigger] out@[k]) == prev.push((x, y, w, h, ws[0]))[k] by {
                    if k < prev.len() {
                        assert(out@[k] == before[k]);
                    }
                }
            }
        }
        i += 1;
    }
    assert(all.take(i as int) =~= all);
    if out.len() == 0 {
        None
    } else {
        Some(out)
    }
}

/// The displays of the desktop's monitor report when it names any, else one
/// 1920 x 1080 display at the origin.
pub fn query_displays(report: Option<&str>) -> (r: Vec<RawDisplay>)
    ensures
        match report {
            Some(t) => match display_list(t@) {
                Some(ds) => r@.len() == ds.len() && forall|i: int| 0 <= i < ds.len() ==> raw_view(#[trigger] r@[i]) == ds[i],
                None => r@.len() == 1 && raw_view(r@[0]) == (0i32, 0i32, 1920i32, 1080i32, "Display"@),
            },
            None => r@.len() == 1 && raw_view(r@[0]) == (0i32, 0i32, 1920i32, 1080i32, "Display"@),
        },
{
    match report {
        Some(t) => match parse_display_list(t) {
            Some(ds) => {
                return ds;
            },
            None => {},
        },
        None => {},
    }
    let mut v: Vec<RawDisplay> = Vec::new();
    v.push((0, 0, 1920, 1080, "Display".to_owned()));
    v
}

} // verus!
