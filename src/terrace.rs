use crate::geometry::Pos;
use vstd::prelude::*;

verus! {

/// Largest number of rows, and of cells in a row, of a height map.
pub const TERRACE_LIMIT: usize = 0x7fff_ffff;

/// Screen center of the diamond of cell (`i`, `j`) raised to height `v`:
/// a diamond 200 pixels wide and 100 high, lifted 20 pixels per level.
pub open spec fn diamond_center(i: int, j: int, v: int) -> Pos {
    Pos { x: (100 * (i + j + 1)) as i64, y: (300 + 50 * (i - j) - 20 * v) as i64 }
}

/// Centers of the cells of row `j` at height `level`, left to right.
pub open spec fn row_centers(row: Seq<i32>, j: int, level: int) -> Seq<Pos>
    decreases row.len(),
{
    if row.len() == 0 {
        Seq::empty()
    } else {
        row_centers(row.drop_last(), j, level) + if row.last() == level {
            seq![diamond_center(row.len() - 1, j, level)]
        } else {
            Seq::empty()
        }
    }
}

/// Centers of all cells at height `level`, row by row.
pub open spec fn level_centers(rows: Seq<Seq<i32>>, level: int) -> Seq<Pos>
    decreases rows.len(),
{
    if rows.len() == 0 {
        Seq::empty()
    } else {
        level_centers(rows.drop_last(), level) + row_centers(
            rows.last(),
            rows.len() - 1,
            level,
        )
    }
}

/// Centers of the cells of the `count` levels from `lowest` up, lowest
/// level first: the order in which they are painted so that higher cells
/// cover lower ones.
pub open spec fn terrace(rows: Seq<Seq<i32>>, lowest: int, count: nat) -> Seq<Pos>
    decreases count,
{
    if count == 0 {
        Seq::empty()
    } else {
        terrace(rows, lowest, (count - 1) as nat) + level_centers(rows, lowest + count - 1)
    }
}

/// The diamond centers of a height map in paint order, for the levels from
/// `lowest` up to but not including `highest`. A cell whose height lies
/// outside that range is not painted.
pub fn terrace_centers(heights: &Vec<Vec<i32>>, lowest: i32, highest: i32) -> (r: Vec<Pos>)
    requires
        heights@.len() <= TERRACE_LIMIT,
        forall|j: int| 0 <= j < heights@.len() ==> #[trigger] heights@[j]@.len() <= TERRACE_LIMIT,
    ensures
        r@ == terrace(
            heights.deep_view(),
            lowest as int,
            if lowest < highest {
                (highest - lowest) as nat
            } else {
                0
            },
        ),
{
    let ghost rows = heights.deep_view();
    let mut out: Vec<Pos> = Vec::new();
    let mut level: i32 = lowest;
    while level < highest
        invariant
            lowest <= level,
            lowest < highest ==> level <= highest,
            lowest >= highest ==> level == lowest,
            rows == heights.deep_view(),
            heights@.len() <= TERRACE_LIMIT,
            forall|j: int| 0 <= j < heights@.len() ==> #[trigger] heights@[j]@.len() <= TERRACE_LIMIT,
            out@ == terrace(rows, lowest as int, (level - lowest) as nat),
        decreases highest - level,
    {
        let mut j: usize = 0;
        while j < heights.len()
            invariant
                lowest <= level < highest,
                0 <= j <= heights@.len(),
                rows == heights.deep_view(),
                heights@.len() <= TERRACE_LIMIT,
                forall|k: int| 0 <= k < heights@.len() ==> #[trigger] heights@[k]@.len() <= TERRACE_LIMIT,
                out@ == terrace(rows, lowest as int, (level - lowest) as nat) + level_centers(
                    rows.take(j as int),
                    level as int,
                ),
            decreases heights@.len() - j,
        {
            let row = &heights[j];
            let ghost before = out@;
            let mut i: usize = 0;
            while i < row.len()
                invariant
                    0 <= i <= row@.len(),
                    row@.len() <= TERRACE_LIMIT,
                    j < heights@.len() <= TERRACE_LIMIT,
                    row@ == rows[j as int],
                    out@ == before + row_centers(row@.take(i as int), j as int, level as int),
                decreases row@.len() - i,
            {
                proof {
                    assert(row@.take(i + 1).drop_last() =~= row@.take(i as int));
                }
                if row[i] == level {
                    let c = Pos {
                        x: 100 * (i as i64 + j as i64 + 1),
                        y: 300 + 50 * (i as i64 - j as i64) - 20 * level as i64,
                    };
                    out.push(c);
                    proof {
                        assert(before + row_centers(row@.take(i + 1), j as int, level as int)
                            =~= (before + row_centers(row@.take(i as int), j as int, level as int)).push(c));
                    }
                } else {
                    proof {
                        assert(before + row_centers(row@.take(i + 1), j as int, level as int)
                            =~= before + row_centers(row@.take(i as int), j as int, level as int));
                    }
                }
                i = i + 1;
            }
            proof {
                assert(row@.take(row@.len() as int) =~= row@);
                assert(rows.take(j + 1).drop_last() =~= rows.take(j as int));
                assert(out@ =~= terrace(rows, lowest as int, (level - lowest) as nat) + level_centers(
                    rows.take(j + 1),
                    level as int,
                ));
            }
            j = j + 1;
        }
        proof {
            assert(rows.take(heights@.len() as int) =~= rows);
        }
        level = level + 1;
    }
    out
}

} // verus!
