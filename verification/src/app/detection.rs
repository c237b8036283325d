use vstd::prelude::*;

verus! {

/// What a grid lookup yields: the stored tile id inside the bounds, the
/// sentinel -1 outside them.
pub open spec fn spec_intersection(x: int, y: int, width: int, height: int, g: Seq<Seq<u32>>) -> int {
    if 0 <= x < width && 0 <= y < height {
        g[y][x] as int
    } else {
        -1
    }
}

/// A well-formed grid for the given dimensions: one row per grid line, each
/// of the configured width, every id small enough for a palette entry.
pub open spec fn grid_wf(g: Seq<Seq<u32>>, width: int, height: int) -> bool {
    &&& g.len() == height
    &&& forall|r: int| 0 <= r < height ==> (#[trigger] g[r]).len() == width
    &&& forall|r: int, c: int| 0 <= r < height && 0 <= c < width ==> #[trigger] g[r][c] < 10
}

/// Get the tile id at a grid intersection: -1 for a coordinate outside
/// `[0, width) x [0, height)`, otherwise exactly the stored id.
pub fn intersection(x: i32, y: i32, width: i32, height: i32, grid: &Vec<Vec<u32>>) -> (r: i32)
    requires
        grid.deep_view().len() == height,
        forall|row: int|
            0 <= row < height ==> (#[trigger] grid.deep_view()[row]).len() == width,
        forall|row: int, col: int|
            0 <= row < height && 0 <= col < width ==> #[trigger] grid.deep_view()[row][col]
                <= i32::MAX,
    ensures
        r as int == spec_intersection(x as int, y as int, width as int, height as int, grid.deep_view()),
{
    if !(x >= 0 && y >= 0 && x < width && y < height) {
        return -1;
    }

    proof {
        let dv = grid.deep_view();
        assert(dv.len() == grid@.len());
        assert(dv[y as int] == grid@[y as int].deep_view());
        assert(dv[y as int].len() == grid@[y as int]@.len());
        assert(dv[y as int][x as int] == grid@[y as int]@[x as int]);
    }

    return grid[y as usize][x as usize] as i32;
}

/// A grid without walls never reports a hit: every lookup yields 0 (an
/// empty tile) or the out-of-bounds sentinel, never a positive wall id, so
/// a ray search over such a grid can only end in the no-hit sentinel.
pub proof fn lemma_open_grid_never_hits(x: int, y: int, width: int, height: int, g: Seq<Seq<u32>>)
    requires
        forall|r: int, c: int|
            0 <= r < height && 0 <= c < width ==> #[trigger] g[r][c] == 0,
    ensures
        spec_intersection(x, y, width, height, g) <= 0,
{
}

} // verus!
