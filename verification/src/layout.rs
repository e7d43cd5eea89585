//! How wrapped text falls into the cells of a terminal.

use vstd::prelude::*;

use crate::segmentation::cluster_width;
use crate::text::{byte_len, concat};

verus! {

/// A place on the screen, counted from the top left of its area.
pub struct Cell {
    pub row: int,
    pub column: int,
}

/// Where a cluster is drawn when the text before it ends at `cell`: there, or at
/// the start of the next row where it does not fit.
pub open spec fn drawn_at(cell: Cell, cluster: Seq<char>, width: int) -> Cell {
    if cell.column > 0 && cell.column + cluster_width(cluster) > width {
        Cell { row: cell.row + 1, column: 0 }
    } else {
        cell
    }
}

/// Where the text goes on after a cluster.
pub open spec fn advance(cell: Cell, cluster: Seq<char>, width: int) -> Cell {
    if cluster == seq!['\n'] {
        Cell { row: cell.row + 1, column: 0 }
    } else {
        let drawn = drawn_at(cell, cluster, width);
        let column = drawn.column + cluster_width(cluster);
        if column >= width {
            Cell { row: drawn.row + 1, column: 0 }
        } else {
            Cell { row: drawn.row, column }
        }
    }
}

/// Where the text stands after its first `count` clusters.
pub open spec fn cell_after(start: Cell, clusters: Seq<Seq<char>>, count: int, width: int) -> Cell
    decreases count,
{
    if count <= 0 {
        start
    } else {
        advance(cell_after(start, clusters, count - 1, width), clusters[count - 1], width)
    }
}

/// The byte offset at which the cluster number `index` starts.
pub open spec fn cluster_offset(clusters: Seq<Seq<char>>, index: int) -> int {
    byte_len(concat(clusters.take(index))) as int
}

} // verus!
