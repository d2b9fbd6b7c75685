//! NxM virtual display grid.
use vstd::prelude::*;
use crate::spatial::Direction;

verus! {

/// Logical position of a device in the virtual grid.
#[derive(Debug, Clone, Copy, PartialEq, Eq, Hash, Structural)]
pub struct GridPosition {
    pub row: u8,
    pub col: u8,
}

/// Physical screen geometry reported by an agent. The scale factor is kept as
/// the bit pattern of an `f32` (`f32::to_bits`).
#[derive(Debug, Clone)]
pub struct ScreenInfo {
    pub device_id: String,
    pub width_px: u32,
    pub height_px: u32,
    pub scale_factor_bits: u32,
}

/// One cell in the virtual grid — may be occupied or empty.
#[derive(Debug, Clone)]
pub struct GridCell {
    pub position: GridPosition,
    pub screen: Option<ScreenInfo>,
}

/// NxM virtual display grid; cells are stored row by row.
#[derive(Debug, Clone)]
pub struct VirtualGrid {
    pub rows: u8,
    pub cols: u8,
    pub cells: Vec<GridCell>,
}

/// Index of the cell at `(row, col)` in a grid with `cols` columns.
pub open spec fn cell_index(cols: u8, row: u8, col: u8) -> int {
    row as int * cols as int + col as int
}

/// `pos` lies inside a `rows` x `cols` grid.
pub open spec fn in_grid(rows: u8, cols: u8, pos: GridPosition) -> bool {
    pos.row < rows && pos.col < cols
}

/// The cell holds a screen of `id`.
pub open spec fn holds_device(c: GridCell, id: Seq<char>) -> bool {
    c.screen matches Some(s) && s.device_id@ == id
}

/// `k` is the first cell that holds a screen of `id`.
pub open spec fn is_first_device_cell(cells: Seq<GridCell>, id: Seq<char>, k: int) -> bool {
    &&& 0 <= k < cells.len()
    &&& holds_device(cells[k], id)
    &&& forall|j: int| 0 <= j < k ==> !holds_device(cells[j], id)
}

/// No cell holds a screen of `id`.
pub open spec fn device_absent(cells: Seq<GridCell>, id: Seq<char>) -> bool {
    forall|j: int| 0 <= j < cells.len() ==> !holds_device(cells[j], id)
}

/// The cells after the first screen of `id` (if any) is taken off the grid.
pub open spec fn without_device(cells: Seq<GridCell>, id: Seq<char>) -> Seq<GridCell> {
    if exists|k: int| is_first_device_cell(cells, id, k) {
        let k = choose|k: int| is_first_device_cell(cells, id, k);
        cells.update(k, GridCell { position: cells[k].position, screen: None })
    } else {
        cells
    }
}

/// The cells after `screen` is put at `pos` (nothing changes when `pos` lies
/// outside the grid).
pub open spec fn with_screen(cells: Seq<GridCell>, rows: u8, cols: u8, pos: GridPosition, screen: ScreenInfo) -> Seq<GridCell> {
    if in_grid(rows, cols, pos) {
        cells.update(cell_index(cols, pos.row, pos.col), GridCell { position: pos, screen: Some(screen) })
    } else {
        cells
    }
}

/// One step from `v` by `d`; a step below 0 leaves the grid, and a step past 255
/// wraps around as the `u8` cast does.
pub open spec fn step(v: u8, d: int) -> Option<u8> {
    if v + d < 0 {
        None
    } else {
        Some(((v + d) % 256) as u8)
    }
}

/// The row and column offsets of a direction.
pub open spec fn offsets(dir: Direction) -> (int, int) {
    match dir {
        Direction::Left => (0, -1),
        Direction::Right => (0, 1),
        Direction::Up => (-1, 0),
        Direction::Down => (1, 0),
    }
}

/// The position next to `from` in direction `dir`, if it is not off the top or left.
pub open spec fn neighbor(from: GridPosition, dir: Direction) -> Option<GridPosition> {
    let (dr, dc) = offsets(dir);
    match (step(from.row, dr), step(from.col, dc)) {
        (Some(r), Some(c)) => Some(GridPosition { row: r, col: c }),
        _ => None,
    }
}

proof fn lemma_index_bounds(rows: u8, cols: u8, row: u8, col: u8)
    requires
        row < rows,
        col < cols,
    ensures
        0 <= cell_index(cols, row, col) < (rows as int) * (cols as int),
{
    assert((row as int) * (cols as int) + (col as int) < (rows as int) * (cols as int)) by (nonlinear_arith)
        requires
            row < rows,
            col < cols,
    ;
}

impl VirtualGrid {
    /// The grid has `rows * cols` cells, the cell at `(r, c)` stored at
    /// `r * cols + c` and carrying that position.
    pub open spec fn wf(&self) -> bool {
        &&& self.cells@.len() == self.rows as int * self.cols as int
        &&& forall|r: u8, c: u8| r < self.rows && c < self.cols ==>
            #[trigger] self.cells@[cell_index(self.cols, r, c)].position == (GridPosition { row: r, col: c })
    }

    /// An empty `rows` x `cols` grid.
    pub fn new(rows: u8, cols: u8) -> (g: Self)
        requires
            rows as int * cols as int <= 255,
        ensures
            g.wf(),
            g.rows == rows,
            g.cols == cols,
            forall|k: int| 0 <= k < g.cells@.len() ==> (#[trigger] g.cells@[k]).screen is None,
    {
        let mut cells: Vec<GridCell> = Vec::with_capacity((rows * cols) as usize);
        let mut r: u8 = 0;
        while r < rows
            invariant
                r <= rows,
                rows as int * cols as int <= 255,
                cells@.len() == r as int * cols as int,
                forall|k: int| 0 <= k < cells@.len() ==> (#[trigger] cells@[k]).screen is None,
                forall|r1: u8, c1: u8| r1 < r && c1 < cols ==>
                    #[trigger] cells@[cell_index(cols, r1, c1)].position == (GridPosition { row: r1, col: c1 }),
            decreases rows - r,
        {
            let mut c: u8 = 0;
            while c < cols
                invariant
                    r < rows,
                    c <= cols,
                    rows as int * cols as int <= 255,
                    cells@.len() == r as int * cols as int + c,
                    forall|k: int| 0 <= k < cells@.len() ==> (#[trigger] cells@[k]).screen is None,
                    forall|r1: u8, c1: u8| (r1 < r && c1 < cols) || (r1 == r && c1 < c) ==>
                        #[trigger] cells@[cell_index(cols, r1, c1)].position == (GridPosition { row: r1, col: c1 }),
                decreases cols - c,
            {
                let ghost before = cells@;
                proof {
                    assert forall|r1: u8, c1: u8| (r1 < r && c1 < cols) || (r1 == r && c1 < c) implies
                        cell_index(cols, r1, c1) < before.len() by {
                        if r1 < r {
                            assert((r1 as int) * (cols as int) + (c1 as int) < (r as int) * (cols as int)) by (nonlinear_arith)
                                requires r1 < r, c1 < cols;
                        }
                    }
                }
                cells.push(GridCell { position: GridPosition { row: r, col: c }, screen: None });
                c += 1;
            }
            assert(cells@.len() == (r + 1) as int * cols as int) by (nonlinear_arith)
                requires cells@.len() == r as int * cols as int + cols as int;
            r += 1;
        }
        VirtualGrid { rows, cols, cells }
    }

    fn idx(&self, pos: GridPosition) -> (r: Option<usize>)
        requires
            self.wf(),
        ensures
            in_grid(self.rows, self.cols, pos) <==> r is Some,
            r matches Some(i) ==> i == cell_index(self.cols, pos.row, pos.col) && i < self.cells@.len(),
    {
        if pos.row < self.rows && pos.col < self.cols {
            proof {
                lemma_index_bounds(self.rows, self.cols, pos.row, pos.col);
                assert((pos.row as int) * (self.cols as int) <= 65025) by (nonlinear_arith)
                    requires pos.row < 256, self.cols < 256;
            }
            Some(pos.row as usize * self.cols as usize + pos.col as usize)
        } else {
            None
        }
    }

    /// Put `screen` into the cell at `pos`; false (and no change) when `pos` lies
    /// outside the grid.
    pub fn place_screen(&mut self, pos: GridPosition, screen: ScreenInfo) -> (r: bool)
        requires
            old(self).wf(),
        ensures
            final(self).wf(),
            final(self).rows == old(self).rows,
            final(self).cols == old(self).cols,
            r == in_grid(old(self).rows, old(self).cols, pos),
            final(self).cells@ == with_screen(old(self).cells@, old(self).rows, old(self).cols, pos, screen),
    {
        if let Some(i) = self.idx(pos) {
            let ghost before = self.cells@;
            let position = self.cells[i].position;
            self.cells.set(i, GridCell { position, screen: Some(screen) });
            proof {
                assert(position == pos);
                assert forall|r1: u8, c1: u8| r1 < self.rows && c1 < self.cols implies
                    #[trigger] self.cells@[cell_index(self.cols, r1, c1)].position == (GridPosition { row: r1, col: c1 }) by {
                    lemma_index_bounds(self.rows, self.cols, r1, c1);
                    assert(before[cell_index(self.cols, r1, c1)].position == (GridPosition { row: r1, col: c1 }));
                }
            }
            true
        } else {
            false
        }
    }

    /// Take the first screen of `device_id` off the grid.
    pub fn remove_screen(&mut self, device_id: &str)
        requires
            old(self).wf(),
        ensures
            final(self).wf(),
            final(self).rows == old(self).rows,
            final(self).cols == old(self).cols,
            final(self).cells@ == without_device(old(self).cells@, device_id@),
    {
        let ghost before = self.cells@;
        let mut i: usize = 0;
        while i < self.cells.len()
            invariant
                self.cells@ == before,
                before == old(self).cells@,
                old(self).wf(),
                self.rows == old(self).rows,
                self.cols == old(self).cols,
                i <= before.len(),
                forall|j: int| 0 <= j < i ==> !holds_device(before[j], device_id@),
            decreases before.len() - i,
        {
            let hit = match &self.cells[i].screen {
                Some(s) => s.device_id.as_str().eq(device_id),
                None => false,
            };
            if hit {
                let position = self.cells[i].position;
                self.cells.set(i, GridCell { position, screen: None });
                proof {
                    assert(is_first_device_cell(before, device_id@, i as int));
                    assert forall|k: int| is_first_device_cell(before, device_id@, k) implies k == i by {}
                    assert forall|r1: u8, c1: u8| r1 < self.rows && c1 < self.cols implies
                        #[trigger] self.cells@[cell_index(self.cols, r1, c1)].position == (GridPosition { row: r1, col: c1 }) by {
                        lemma_index_bounds(self.rows, self.cols, r1, c1);
                        assert(before[cell_index(self.cols, r1, c1)].position == (GridPosition { row: r1, col: c1 }));
                    }
                }
                return;
            }
            i += 1;
        }
        assert(!exists|k: int| is_first_device_cell(before, device_id@, k));
    }

    /// The cell at `pos`, if `pos` lies inside the grid.
    pub fn get_cell(&self, pos: GridPosition) -> (r: Option<&GridCell>)
        requires
            self.wf(),
        ensures
            in_grid(self.rows, self.cols, pos) <==> r is Some,
            r matches Some(c) ==> *c == self.cells@[cell_index(self.cols, pos.row, pos.col)] && c.position == pos,
    {
        match self.idx(pos) {
            Some(i) => Some(&self.cells[i]),
            None => None,
        }
    }

    /// Position of the first cell that holds a screen of `device_id`.
    pub fn find_device(&self, device_id: &str) -> (r: Option<GridPosition>)
        ensures
            r matches Some(p) ==> exists|k: int| is_first_device_cell(self.cells@, device_id@, k) && p == self.cells@[k].position,
            r is None ==> device_absent(self.cells@, device_id@),
    {
        let mut i: usize = 0;
        while i < self.cells.len()
            invariant
                i <= self.cells@.len(),
                self.cells@ == self.cells@,
                forall|j: int| 0 <= j < i ==> !holds_device(self.cells@[j], device_id@),
            decreases self.cells@.len() - i,
        {
            if let Some(s) = &self.cells[i].screen {
                if s.device_id.as_str().eq(device_id) {
                    assert(is_first_device_cell(self.cells@, device_id@, i as int));
                    return Some(self.cells[i].position);
                }
            }
            i += 1;
        }
        None
    }

    /// The screen next to `from_pos` in direction `dir`, and its position; None
    /// when the step leaves the grid or the neighbouring cell is empty.
    pub fn edge_target(&self, from_pos: GridPosition, dir: Direction) -> (r: Option<(&ScreenInfo, GridPosition)>)
        requires
            self.wf(),
        ensures
            match neighbor(from_pos, dir) {
                Some(p) => if in_grid(self.rows, self.cols, p) && self.cells@[cell_index(self.cols, p.row, p.col)].screen is Some {
                    r matches Some((s, q)) && q == p && Some(*s) == self.cells@[cell_index(self.cols, p.row, p.col)].screen
                } else {
                    r is None
                },
                None => r is None,
            },
    {
        let (dr, dc): (i16, i16) = match dir {
            Direction::Left => (0, -1),
            Direction::Right => (0, 1),
            Direction::Up => (-1, 0),
            Direction::Down => (1, 0),
        };
        let new_row = from_pos.row as i16 + dr;
        let new_col = from_pos.col as i16 + dc;
        if new_row < 0 || new_col < 0 {
            return None;
        }
        proof {
            assert(0 <= new_row <= 256 ==> (new_row as u8) as int == (new_row as int) % 256) by (bit_vector);
            assert(0 <= new_col <= 256 ==> (new_col as u8) as int == (new_col as int) % 256) by (bit_vector);
        }
        let new_pos = GridPosition { row: new_row as u8, col: new_col as u8 };
        let cell = match self.get_cell(new_pos) {
            Some(c) => c,
            None => {
                return None;
            },
        };
        match &cell.screen {
            Some(s) => Some((s, new_pos)),
            None => None,
        }
    }

    /// All cells, row by row.
    pub fn cells(&self) -> (r: &[GridCell])
        ensures
            r@ == self.cells@,
    {
        self.cells.as_slice()
    }
}

/// One occupied grid cell as announced to agents.
#[derive(Debug, Clone)]
pub struct GridCellMsg {
    pub row: u32,
    pub col: u32,
    pub device_id: String,
    pub screen_id: String,
}

/// A grid cell as the layout editor sends it: a device is placed only when
/// both ids are present.
#[derive(Debug, Clone)]
pub struct GridCellPayload {
    pub row: u32,
    pub col: u32,
    pub device_id: Option<String>,
    pub screen_id: Option<String>,
}

/// Bit pattern of the `f32` value 1.0.
pub const UNIT_SCALE_BITS: u32 = 0x3F80_0000;

/// The announcement of one cell, if it is occupied.
pub open spec fn cell_msg(c: GridCell) -> Option<GridCellMsg> {
    match c.screen {
        Some(s) => Some(GridCellMsg {
            row: c.position.row as u32,
            col: c.position.col as u32,
            device_id: s.device_id,
            screen_id: s.device_id,
        }),
        None => None,
    }
}

/// The announcements of the occupied cells, in cell order.
pub open spec fn occupied_cells(cells: Seq<GridCell>) -> Seq<GridCellMsg>
    decreases cells.len(),
{
    if cells.len() == 0 {
        Seq::empty()
    } else {
        let rest = occupied_cells(cells.drop_last());
        match cell_msg(cells.last()) {
            Some(m) => rest.push(m),
            None => rest,
        }
    }
}

/// The cells after the first screen of each id in `ids` is taken off, in order.
pub open spec fn without_devices(cells: Seq<GridCell>, ids: Seq<String>) -> Seq<GridCell>
    decreases ids.len(),
{
    if ids.len() == 0 {
        cells
    } else {
        without_device(without_devices(cells, ids.drop_last()), ids.last()@)
    }
}

/// The cells after each payload that names both a device and a screen has put a
/// default-sized screen of that device at its position, in order. Row and
/// column keep their low 8 bits, as the `u8` cast does.
pub open spec fn with_payloads(cells: Seq<GridCell>, rows: u8, cols: u8, ps: Seq<GridCellPayload>) -> Seq<GridCell>
    decreases ps.len(),
{
    if ps.len() == 0 {
        cells
    } else {
        let before = with_payloads(cells, rows, cols, ps.drop_last());
        let p = ps.last();
        match (p.device_id, p.screen_id) {
            (Some(d), Some(_)) => with_screen(
                before,
                rows,
                cols,
                GridPosition { row: (p.row % 256) as u8, col: (p.col % 256) as u8 },
                ScreenInfo { device_id: d, width_px: 1920, height_px: 1080, scale_factor_bits: UNIT_SCALE_BITS },
            ),
            _ => before,
        }
    }
}

/// `r` is the smallest row of an occupied cell in column `col`.
pub open spec fn is_top_occupied_row(cells: Seq<GridCell>, col: u8, r: u8) -> bool {
    &&& exists|k: int| 0 <= k < cells.len() && cells[k].position.col == col && cells[k].screen is Some
        && cells[k].position.row == r
    &&& forall|k: int| 0 <= k < cells.len() && cells[k].position.col == col && (#[trigger] cells[k]).screen is Some
        ==> r <= cells[k].position.row
}

/// The row agent screens start at: the top occupied row of column `col`, or 0.
pub open spec fn agent_start_row(cells: Seq<GridCell>, col: u8) -> u8 {
    if exists|r: u8| is_top_occupied_row(cells, col, r) {
        choose|r: u8| is_top_occupied_row(cells, col, r)
    } else {
        0
    }
}

/// The largest row offset (`i as u8`) among `n` screens.
pub open spec fn last_offset(n: nat) -> int {
    if n > 256 { 255 } else { n - 1 }
}

/// `v - 1`, or 0 for 0 (`saturating_sub(1)`).
pub open spec fn minus_one(v: u8) -> u8 {
    if v == 0 { 0 } else { (v - 1) as u8 }
}

/// The cells after the agent's screens `dims` (width, height, scale bits) are put
/// in column `col` from row `start` downwards.
pub open spec fn with_agent_screens(cells: Seq<GridCell>, rows: u8, cols: u8, device_id: String, start: u8, col: u8, dims: Seq<(u32, u32, u32)>) -> Seq<GridCell>
    decreases dims.len(),
{
    if dims.len() == 0 {
        cells
    } else {
        let i = dims.len() - 1;
        let (w, h, sc) = dims.last();
        with_screen(
            with_agent_screens(cells, rows, cols, device_id, start, col, dims.drop_last()),
            rows,
            cols,
            GridPosition { row: (start + i % 256) as u8, col },
            ScreenInfo { device_id, width_px: w, height_px: h, scale_factor_bits: sc },
        )
    }
}

proof fn lemma_u32_low_byte(v: u32)
    ensures
        (v as u8) as int == (v as int) % 256,
{
    assert((v as u8) as int == (v as int) % 256) by (bit_vector);
}

pub proof fn lemma_usize_low_byte(v: usize)
    ensures
        (v as u8) as int == (v as int) % 256,
{
    assert((v as u8) as int == (v as int) % 256) by (bit_vector);
}

proof fn lemma_top_row_unique(cells: Seq<GridCell>, col: u8, r1: u8, r2: u8)
    requires
        is_top_occupied_row(cells, col, r1),
        is_top_occupied_row(cells, col, r2),
    ensures
        r1 == r2,
{
    let k1 = choose|k: int| 0 <= k < cells.len() && cells[k].position.col == col && cells[k].screen is Some
        && cells[k].position.row == r1;
    let k2 = choose|k: int| 0 <= k < cells.len() && cells[k].position.col == col && cells[k].screen is Some
        && cells[k].position.row == r2;
    assert(cells[k1].screen is Some);
    assert(cells[k2].screen is Some);
}

/// The occupied cells of `grid`, in cell order, as announced to agents.
pub fn grid_cells(grid: &VirtualGrid) -> (r: Vec<GridCellMsg>)
    ensures
        r@ == occupied_cells(grid.cells@),
{
    let mut out: Vec<GridCellMsg> = Vec::new();
    let mut i: usize = 0;
    while i < grid.cells.len()
        invariant
            i <= grid.cells@.len(),
            out@ == occupied_cells(grid.cells@.take(i as int)),
        decreases grid.cells@.len() - i,
    {
        let c = &grid.cells[i];
        assert(grid.cells@.take(i + 1).drop_last() =~= grid.cells@.take(i as int));
        assert(grid.cells@.take(i + 1).last() == grid.cells@[i as int]);
        if let Some(s) = &c.screen {
            out.push(GridCellMsg {
                row: c.position.row as u32,
                col: c.position.col as u32,
                device_id: s.device_id.clone(),
                screen_id: s.device_id.clone(),
            });
        }
        i += 1;
    }
    assert(grid.cells@.take(i as int) =~= grid.cells@);
    out
}

impl VirtualGrid {
    /// Replace the placement of the connected agents: take each connected
    /// device's screen off the grid, then put a default-sized screen at every
    /// payload position that names both a device and a screen.
    pub fn apply_layout(&mut self, connected: &[String], cells: &[GridCellPayload])
        requires
            old(self).wf(),
        ensures
            final(self).wf(),
            final(self).rows == old(self).rows,
            final(self).cols == old(self).cols,
            final(self).cells@ == with_payloads(
                without_devices(old(self).cells@, connected@),
                old(self).rows,
                old(self).cols,
                cells@,
            ),
    {
        let ghost start = self.cells@;
        let mut i: usize = 0;
        while i < connected.len()
            invariant
                i <= connected@.len(),
                self.wf(),
                self.rows == old(self).rows,
                self.cols == old(self).cols,
                start == old(self).cells@,
                self.cells@ == without_devices(start, connected@.take(i as int)),
            decreases connected@.len() - i,
        {
            assert(connected@.take(i + 1).drop_last() =~= connected@.take(i as int));
            self.remove_screen(connected[i].as_str());
            i += 1;
        }
        assert(connected@.take(i as int) =~= connected@);
        let ghost mid = self.cells@;
        let mut j: usize = 0;
        while j < cells.len()
            invariant
                j <= cells@.len(),
                self.wf(),
                self.rows == old(self).rows,
                self.cols == old(self).cols,
                self.cells@ == with_payloads(mid, self.rows, self.cols, cells@.take(j as int)),
            decreases cells@.len() - j,
        {
            assert(cells@.take(j + 1).drop_last() =~= cells@.take(j as int));
            let p = &cells[j];
            match (&p.device_id, &p.screen_id) {
                (Some(d), Some(_)) => {
                    proof {
                        lemma_u32_low_byte(p.row);
                        lemma_u32_low_byte(p.col);
                    }
                    let pos = GridPosition { row: p.row as u8, col: p.col as u8 };
                    self.place_screen(
                        pos,
                        ScreenInfo {
                            device_id: d.clone(),
                            width_px: 1920,
                            height_px: 1080,
                            scale_factor_bits: UNIT_SCALE_BITS,
                        },
                    );
                },
                _ => {},
            }
            j += 1;
        }
        assert(cells@.take(j as int) =~= cells@);
    }

    /// Put an agent's screens (width, height, scale bits) in the rightmost
    /// column, one per row, starting at the top occupied row of the column next
    /// to it (row 0 when that column is empty).
    pub fn place_agent_screens(&mut self, device_id: &String, dims: &[(u32, u32, u32)])
        requires
            old(self).wf(),
            dims@.len() == 0 || agent_start_row(old(self).cells@, minus_one(minus_one(old(self).cols)))
                + last_offset(dims@.len()) <= 255,
        ensures
            final(self).wf(),
            final(self).rows == old(self).rows,
            final(self).cols == old(self).cols,
            final(self).cells@ == with_agent_screens(
                old(self).cells@,
                old(self).rows,
                old(self).cols,
                *device_id,
                agent_start_row(old(self).cells@, minus_one(minus_one(old(self).cols))),
                minus_one(old(self).cols),
                dims@,
            ),
    {
        let agent_col = self.cols.saturating_sub(1);
        let adj_col = agent_col.saturating_sub(1);
        let ghost start_cells = self.cells@;
        let mut best: Option<u8> = None;
        let mut k: usize = 0;
        while k < self.cells.len()
            invariant
                k <= self.cells@.len(),
                self.cells@ == start_cells,
                best is None ==> forall|q: int| 0 <= q < k ==> !(self.cells@[q].position.col == adj_col
                    && (#[trigger] self.cells@[q]).screen is Some),
                best matches Some(b) ==> (exists|q: int| 0 <= q < k && self.cells@[q].position.col == adj_col
                    && self.cells@[q].screen is Some && self.cells@[q].position.row == b),
                best matches Some(b) ==> forall|q: int| 0 <= q < k && self.cells@[q].position.col == adj_col
                    && (#[trigger] self.cells@[q]).screen is Some ==> b <= self.cells@[q].position.row,
            decreases self.cells@.len() - k,
        {
            let c = &self.cells[k];
            if c.position.col == adj_col && c.screen.is_some() {
                let r = c.position.row;
                best = match best {
                    None => Some(r),
                    Some(b) => if r < b { Some(r) } else { Some(b) },
                };
            }
            k += 1;
        }
        let start_row = match best {
            Some(b) => b,
            None => 0,
        };
        proof {
            match best {
                Some(b) => {
                    assert(is_top_occupied_row(start_cells, adj_col, b));
                    let c = choose|r: u8| is_top_occupied_row(start_cells, adj_col, r);
                    lemma_top_row_unique(start_cells, adj_col, b, c);
                },
                None => {
                    assert(!exists|r: u8| is_top_occupied_row(start_cells, adj_col, r));
                },
            }
            assert(start_row == agent_start_row(start_cells, adj_col));
        }
        let mut i: usize = 0;
        while i < dims.len()
            invariant
                i <= dims@.len(),
                self.wf(),
                self.rows == old(self).rows,
                self.cols == old(self).cols,
                start_row == agent_start_row(start_cells, adj_col),
                adj_col == minus_one(minus_one(old(self).cols)),
                agent_col == minus_one(old(self).cols),
                start_cells == old(self).cells@,
                dims@.len() == 0 || start_row + last_offset(dims@.len()) <= 255,
                self.cells@ == with_agent_screens(start_cells, self.rows, self.cols, *device_id, start_row, agent_col, dims@.take(i as int)),
            decreases dims@.len() - i,
        {
            assert(dims@.take(i + 1).drop_last() =~= dims@.take(i as int));
            let (w, h, sc) = dims[i];
            proof {
                assert(start_row + (i as int) % 256 <= 255);
                lemma_usize_low_byte(i);
            }
            let pos = GridPosition { row: start_row + i as u8, col: agent_col };
            self.place_screen(pos, ScreenInfo { device_id: device_id.clone(), width_px: w, height_px: h, scale_factor_bits: sc });
            i += 1;
        }
        assert(dims@.take(i as int) =~= dims@);
    }
}


/// Grid steps: Up moves one row toward row 0 and Down one row away from it,
/// Left one column toward column 0 and Right one column away from it; a step
/// before row or column 0 leaves the grid, and Up undoes Down, Left undoes Right.
pub proof fn lemma_neighbor_steps(p: GridPosition)
    ensures
        p.row > 0 ==> neighbor(p, Direction::Up) == Some(GridPosition { row: (p.row - 1) as u8, col: p.col }),
        p.row == 0 ==> neighbor(p, Direction::Up) is None,
        p.row < 255 ==> neighbor(p, Direction::Down) == Some(GridPosition { row: (p.row + 1) as u8, col: p.col }),
        p.col > 0 ==> neighbor(p, Direction::Left) == Some(GridPosition { row: p.row, col: (p.col - 1) as u8 }),
        p.col == 0 ==> neighbor(p, Direction::Left) is None,
        p.col < 255 ==> neighbor(p, Direction::Right) == Some(GridPosition { row: p.row, col: (p.col + 1) as u8 }),
        p.row < 255 ==> (neighbor(p, Direction::Down) matches Some(q) && neighbor(q, Direction::Up) == Some(p)),
        p.col < 255 ==> (neighbor(p, Direction::Right) matches Some(q) && neighbor(q, Direction::Left) == Some(p)),
{
}

} // verus!
