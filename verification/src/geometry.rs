//! Tetromino geometry: the starting cells of each piece and the per-cell
//! moves that turn a piece from one orientation to the next.

use vstd::prelude::*;

verus! {

/// Number of distinct tetromino shapes.
pub const NUM_TETROMINOS: usize = 7;

/// Number of orientations every piece cycles through.
pub const NUM_ORIENTATIONS: u8 = 4;

/// Number of cells a tetromino occupies.
pub const PIECE_CELLS: usize = 4;

/// Four `[x, y]` pairs, one per cell of a piece.
pub type Coords = [[i8; 2]; 4];

/// Starting position of each type of tetromino, relative to the spawn
/// column on the top row. Each tetromino is 4 `[x, y]` offsets.
pub const STARTING_POSITIONS: [[[i8; 2]; 4]; NUM_TETROMINOS] = [
    [[-1, 0], [-1, 1], [0, 1], [1, 1]],  // Leftward L piece.
    [[-1, 1], [0, 1], [0, 0], [1, 0]],  // Rightward Z piece.
    [[-2, 0], [-1, 0], [0, 0], [1, 0]],  // Long straight piece.
    [[-1, 1], [0, 1], [0, 0], [1, 1]],  // Bump in middle piece.
    [[-1, 1], [0, 1], [1, 1], [1, 0]],  // L piece.
    [[-1, 0], [0, 0], [0, 1], [1, 1]],  // Z piece.
    [[-1, 0], [-1, 1], [0, 0], [0, 1]],  // Square piece.
];

/// Rotations of each tetromino, indexed `[piece][orientation][cell]`. The
/// entry for orientation `o` holds the `[x, y]` step that takes each cell
/// from orientation `o` to orientation `(o + 1) % 4`. Symmetric pieces
/// repeat their rows.
pub const ROTATIONS: [[[[i8; 2]; 4]; 4]; NUM_TETROMINOS] = [
    // Leftward L piece.
    [
        [[0, 2], [1, 1], [0, 0], [-1, -1]],
        [[2, 0], [1, -1], [0, 0], [-1, 1]],
        [[0, -2], [-1, -1], [0, 0], [1, 1]],
        [[-2, 0], [-1, 1], [0, 0], [1, -1]],
    ],
    // Rightward Z piece. Orientation symmetry: 0==2 and 1==3.
    [
        [[1, 0], [0, 1], [-1, 0], [-2, 1]],
        [[-1, 0], [0, -1], [1, 0], [2, -1]],
        [[1, 0], [0, 1], [-1, 0], [-2, 1]],
        [[-1, 0], [0, -1], [1, 0], [2, -1]],
    ],
    // Long straight piece. Orientation symmetry: 0==2 and 1==3.
    [
        [[2, -2], [1, -1], [0, 0], [-1, 1]],
        [[-2, 2], [-1, 1], [0, 0], [1, -1]],
        [[2, -2], [1, -1], [0, 0], [-1, 1]],
        [[-2, 2], [-1, 1], [0, 0], [1, -1]],
    ],
    // Bump in middle piece.
    [
        [[1, 1], [0, 0], [-1, 1], [-1, -1]],
        [[1, -1], [0, 0], [1, 1], [-1, 1]],
        [[-1, -1], [0, 0], [1, -1], [1, 1]],
        [[-1, 1], [0, 0], [-1, -1], [1, -1]],
    ],
    // L piece.
    [
        [[1, 1], [0, 0], [-1, -1], [-2, 0]],
        [[1, -1], [0, 0], [-1, 1], [0, 2]],
        [[-1, -1], [0, 0], [1, 1], [2, 0]],
        [[-1, 1], [0, 0], [1, -1], [0, -2]],
    ],
    // Z piece. Orientation symmetry: 0==2 and 1==3.
    [
        [[1, 0], [0, 1], [-1, 0], [-2, 1]],
        [[-1, 0], [0, -1], [1, 0], [2, -1]],
        [[1, 0], [0, 1], [-1, 0], [-2, 1]],
        [[-1, 0], [0, -1], [1, 0], [2, -1]],
    ],
    // Square piece. Orientation symmetry: 0==1==2==3.
    [
        [[0, 0], [0, 0], [0, 0], [0, 0]],
        [[0, 0], [0, 0], [0, 0], [0, 0]],
        [[0, 0], [0, 0], [0, 0], [0, 0]],
        [[0, 0], [0, 0], [0, 0], [0, 0]],
    ],
];

/// A grid position or a displacement, in whole cells. `x` grows to the
/// right and `y` grows downwards.
pub struct Point {
    pub x: int,
    pub y: int,
}

impl Point {
    /// Component-wise sum.
    pub open spec fn plus(self, other: Point) -> Point {
        Point { x: self.x + other.x, y: self.y + other.y }
    }

    /// Component-wise difference.
    pub open spec fn minus(self, other: Point) -> Point {
        Point { x: self.x - other.x, y: self.y - other.y }
    }
}

/// A valid piece-type identifier.
pub open spec fn is_piece(piece: int) -> bool {
    0 <= piece < NUM_TETROMINOS
}

/// A valid orientation index.
pub open spec fn is_orientation(orientation: int) -> bool {
    0 <= orientation < NUM_ORIENTATIONS
}

/// A valid index of a cell within a piece.
pub open spec fn is_cell_index(i: int) -> bool {
    0 <= i < PIECE_CELLS
}

/// The four cells held by a `Coords` value.
pub open spec fn points_of(coords: Coords) -> Seq<Point> {
    Seq::new(4, |i: int| Point { x: coords[i][0] as int, y: coords[i][1] as int })
}

/// Starting offset of cell `i` of `piece`, relative to the spawn column.
pub open spec fn starting_offset(piece: int, i: int) -> Point {
    Point {
        x: STARTING_POSITIONS[piece][i][0] as int,
        y: STARTING_POSITIONS[piece][i][1] as int,
    }
}

/// The step that cell `i` of `piece` takes when the piece turns from
/// `orientation` to the next one.
pub open spec fn rotation_delta(piece: int, orientation: int, i: int) -> Point {
    Point {
        x: ROTATIONS[piece][orientation][i][0] as int,
        y: ROTATIONS[piece][orientation][i][1] as int,
    }
}

/// Offset of cell `i` of `piece` after it has been turned `orientation`
/// times from its starting position, relative to the spawn column.
pub open spec fn shape(piece: int, orientation: int, i: int) -> Point {
    let s0 = starting_offset(piece, i);
    let s1 = s0.plus(rotation_delta(piece, 0, i));
    let s2 = s1.plus(rotation_delta(piece, 1, i));
    let s3 = s2.plus(rotation_delta(piece, 2, i));
    if orientation <= 0 {
        s0
    } else if orientation == 1 {
        s1
    } else if orientation == 2 {
        s2
    } else {
        s3
    }
}

/// The orientation that follows `orientation`.
pub open spec fn next_orientation(orientation: int) -> int {
    (orientation + 1) % (NUM_ORIENTATIONS as int)
}

/// Every starting offset lies in the 4-by-2 box around the spawn column.
pub proof fn lemma_starting_offset_bounds(piece: int, i: int)
    requires
        is_piece(piece),
        is_cell_index(i),
    ensures
        -2 <= starting_offset(piece, i).x <= 1,
        0 <= starting_offset(piece, i).y <= 1,
{
}

/// The four rotation steps of any cell of any piece cancel out: turning a
/// piece four times brings every cell back to where it started.
pub proof fn lemma_rotation_closure(piece: int, i: int)
    requires
        is_piece(piece),
        is_cell_index(i),
    ensures
        rotation_delta(piece, 0, i).plus(rotation_delta(piece, 1, i)).plus(
            rotation_delta(piece, 2, i),
        ).plus(rotation_delta(piece, 3, i)) == (Point { x: 0, y: 0 }),
{
}

/// Turning a piece once moves each cell of its shape by the rotation step of
/// the orientation it leaves, for every orientation including the last.
pub proof fn lemma_shape_step(piece: int, orientation: int, i: int)
    requires
        is_piece(piece),
        is_orientation(orientation),
        is_cell_index(i),
    ensures
        shape(piece, next_orientation(orientation), i) == shape(piece, orientation, i).plus(
            rotation_delta(piece, orientation, i),
        ),
{
    lemma_rotation_closure(piece, i);
}

/// In every orientation the four cells of a piece are pairwise distinct.
pub proof fn lemma_shape_distinct(piece: int, orientation: int, i: int, j: int)
    requires
        is_piece(piece),
        is_orientation(orientation),
        is_cell_index(i),
        is_cell_index(j),
        i != j,
    ensures
        shape(piece, orientation, i) != shape(piece, orientation, j),
{
}

/// In every orientation the cells of a piece stay within three columns and
/// three rows of the spawn position.
pub proof fn lemma_shape_bounds(piece: int, orientation: int, i: int)
    requires
        is_piece(piece),
        is_orientation(orientation),
        is_cell_index(i),
    ensures
        -3 <= shape(piece, orientation, i).x <= 3,
        -3 <= shape(piece, orientation, i).y <= 3,
{
}

/// Computes the offset of cell `i` of `piece` after `orientation` turns from
/// its starting position, by walking the rotation table.
pub fn shape_offset(piece: u8, orientation: u8, i: usize) -> (offset: [i8; 2])
    requires
        piece < NUM_TETROMINOS,
        orientation < NUM_ORIENTATIONS,
        i < PIECE_CELLS,
    ensures
        (Point { x: offset[0] as int, y: offset[1] as int }) == shape(
            piece as int,
            orientation as int,
            i as int,
        ),
{
    let mut x = STARTING_POSITIONS[piece as usize][i][0];
    let mut y = STARTING_POSITIONS[piece as usize][i][1];
    let mut turns: u8 = 0;
    while turns < orientation
        invariant
            piece < NUM_TETROMINOS,
            orientation < NUM_ORIENTATIONS,
            i < PIECE_CELLS,
            turns <= orientation,
            (Point { x: x as int, y: y as int }) == shape(piece as int, turns as int, i as int),
        decreases orientation - turns,
    {
        proof {
            lemma_shape_bounds(piece as int, turns as int, i as int);
            lemma_shape_bounds(piece as int, turns + 1, i as int);
            lemma_shape_step(piece as int, turns as int, i as int);
        }
        x += ROTATIONS[piece as usize][turns as usize][i][0];
        y += ROTATIONS[piece as usize][turns as usize][i][1];
        turns += 1;
    }
    [x, y]
}

} // verus!
