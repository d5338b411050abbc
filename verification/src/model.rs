//! The world grid: a flat, fixed-capacity 3D array of material cells with
//! coordinate↔index conversion and neighbour-occupancy queries.
//!
//! The grid is a cube of extent `WORLD_SIZE` stored linearly, indexed by
//! `x + z·S + y·S²`: y is the slowest-varying dimension, so each horizontal
//! (x, z) slab is contiguous per height layer and index order visits the grid
//! bottom layer first.

use vstd::prelude::*;

use crate::material::VoxelMaterial;

verus! {

/// Extent of the cubic world along each axis.
pub const WORLD_SIZE: usize = 30;

/// Number of cells in the world: `WORLD_SIZE` cubed.
pub const WORLD_VOLUME: usize = 27000;

/// The linear index of the cell at (x, y, z).
pub open spec fn index_of(x: int, y: int, z: int) -> int {
    x + z * 30 + y * 900
}

/// Whether (x, y, z) lies inside the world cube.
pub open spec fn valid_coords(x: int, y: int, z: int) -> bool {
    0 <= x < 30 && 0 <= y < 30 && 0 <= z < 30
}

/// The x coordinate of the cell at linear index `i`.
pub open spec fn x_of(i: int) -> int {
    (i % 900) % 30
}

/// The y coordinate of the cell at linear index `i`.
pub open spec fn y_of(i: int) -> int {
    i / 900
}

/// The z coordinate of the cell at linear index `i`.
pub open spec fn z_of(i: int) -> int {
    (i % 900) / 30
}

/// Coordinate→index→coordinate is the identity on valid coordinates, and the
/// index of a valid coordinate triple lies inside the grid. Together with
/// `lemma_index_coords_roundtrip` this makes the mapping a bijection between
/// valid coordinate triples and indices in `[0, WORLD_VOLUME)`.
pub proof fn lemma_coords_index_roundtrip(x: int, y: int, z: int)
    requires
        valid_coords(x, y, z),
    ensures
        0 <= index_of(x, y, z) < WORLD_VOLUME,
        x_of(index_of(x, y, z)) == x,
        y_of(index_of(x, y, z)) == y,
        z_of(index_of(x, y, z)) == z,
{
    let i = index_of(x, y, z);
    assert(i / 900 == y && (i % 900) / 30 == z && (i % 900) % 30 == x) by (nonlinear_arith)
        requires
            0 <= x < 30 && 0 <= y < 30 && 0 <= z < 30,
            i == x + z * 30 + y * 900,
    ;
}

/// Index→coordinate→index is the identity on `[0, WORLD_VOLUME)`, and the
/// recovered coordinates are valid.
pub proof fn lemma_index_coords_roundtrip(i: int)
    requires
        0 <= i < WORLD_VOLUME,
    ensures
        valid_coords(x_of(i), y_of(i), z_of(i)),
        index_of(x_of(i), y_of(i), z_of(i)) == i,
{
    assert(0 <= (i % 900) % 30 < 30 && 0 <= i / 900 < 30 && 0 <= (i % 900) / 30 < 30
        && (i % 900) % 30 + ((i % 900) / 30) * 30 + (i / 900) * 900 == i) by (nonlinear_arith)
        requires
            0 <= i < 27000,
    ;
}

/// Face-adjacency flags of one cell: whether each of the six face-adjacent
/// cells holds a non-Air material. A neighbour beyond the grid boundary
/// counts as absent.
pub struct VoxelNeighbours {
    pub top: bool,
    pub bottom: bool,
    pub left: bool,
    pub right: bool,
    pub front: bool,
    pub back: bool,
}

/// How many of the six face-adjacent cells are occupied.
pub open spec fn neighbours_count_spec(n: VoxelNeighbours) -> int {
    (if n.top { 1int } else { 0int })
    + (if n.bottom { 1int } else { 0int })
    + (if n.left { 1int } else { 0int })
    + (if n.right { 1int } else { 0int })
    + (if n.front { 1int } else { 0int })
    + (if n.back { 1int } else { 0int })
}

impl VoxelNeighbours {
    /// Count the occupied face-adjacent cells.
    pub fn get_neighbours_count(&self) -> (r: u32)
        ensures
            r == neighbours_count_spec(*self),
            r <= 6,
    {
        (if self.top { 1u32 } else { 0u32 })
        + (if self.bottom { 1u32 } else { 0u32 })
        + (if self.left { 1u32 } else { 0u32 })
        + (if self.right { 1u32 } else { 0u32 })
        + (if self.front { 1u32 } else { 0u32 })
        + (if self.back { 1u32 } else { 0u32 })
    }
}

/// The world grid. Created Air-filled, mutated exclusively through `set`,
/// never resized; its view is the sequence of cell materials in linear index
/// order.
pub struct World {
    voxels: Vec<VoxelMaterial>,
}

impl View for World {
    type V = Seq<VoxelMaterial>;

    closed spec fn view(&self) -> Seq<VoxelMaterial> {
        self.voxels@
    }
}

impl World {
    /// The grid always holds exactly one material per cell of the cube.
    pub open spec fn wf(&self) -> bool {
        self@.len() == WORLD_VOLUME
    }

    /// Create an Air-filled world.
    pub fn new() -> (w: World)
        ensures
            w.wf(),
            forall|i: int| 0 <= i < WORLD_VOLUME ==> w@[i] == VoxelMaterial::Air,
    {
        let mut voxels: Vec<VoxelMaterial> = Vec::new();
        let mut i: usize = 0;
        while i < WORLD_VOLUME
            invariant
                i <= WORLD_VOLUME,
                voxels@.len() == i,
                forall|j: int| 0 <= j < i ==> voxels@[j] == VoxelMaterial::Air,
            decreases WORLD_VOLUME - i,
        {
            voxels.push(VoxelMaterial::Air);
            i += 1;
        }
        World { voxels }
    }

    /// The linear index of the cell at (x, y, z).
    pub fn coordiantes_to_index(x: usize, y: usize, z: usize) -> (r: usize)
        requires
            valid_coords(x as int, y as int, z as int),
        ensures
            r == index_of(x as int, y as int, z as int),
            r < WORLD_VOLUME,
    {
        x + z * WORLD_SIZE + y * WORLD_SIZE * WORLD_SIZE
    }

    /// The coordinates (x, y, z) of the cell at linear index `index`.
    pub fn index_to_coordinates(index: usize) -> (r: (usize, usize, usize))
        requires
            index < WORLD_VOLUME,
        ensures
            r.0 == x_of(index as int),
            r.1 == y_of(index as int),
            r.2 == z_of(index as int),
            valid_coords(r.0 as int, r.1 as int, r.2 as int),
            index_of(r.0 as int, r.1 as int, r.2 as int) == index,
    {
        proof {
            lemma_index_coords_roundtrip(index as int);
        }
        let y = index / (WORLD_SIZE * WORLD_SIZE);
        let r = index % (WORLD_SIZE * WORLD_SIZE);
        let z = r / WORLD_SIZE;
        let x = r % WORLD_SIZE;
        (x, y, z)
    }

    /// Read the cell at (x, y, z).
    pub fn get(&self, x: usize, y: usize, z: usize) -> (r: VoxelMaterial)
        requires
            self.wf(),
            valid_coords(x as int, y as int, z as int),
        ensures
            r == self@[index_of(x as int, y as int, z as int)],
    {
        self.voxels[Self::coordiantes_to_index(x, y, z)]
    }

    /// Read the cell at linear index `index`.
    pub fn get_index(&self, index: usize) -> (r: VoxelMaterial)
        requires
            self.wf(),
            index < WORLD_VOLUME,
        ensures
            r == self@[index as int],
    {
        self.voxels[index]
    }

    /// Overwrite the cell at (x, y, z) with `material`.
    pub fn set(&mut self, material: VoxelMaterial, x: usize, y: usize, z: usize)
        requires
            old(self).wf(),
            valid_coords(x as int, y as int, z as int),
        ensures
            final(self).wf(),
            final(self)@ == old(self)@.update(index_of(x as int, y as int, z as int), material),
    {
        let index = Self::coordiantes_to_index(x, y, z);
        self.voxels.set(index, material);
    }

    /// Report which of the six face-adjacent cells of (x, y, z) hold a
    /// non-Air material; a neighbour beyond the boundary counts as absent.
    pub fn get_neighbours(&self, x: usize, y: usize, z: usize) -> (n: VoxelNeighbours)
        requires
            self.wf(),
            valid_coords(x as int, y as int, z as int),
        ensures
            n.left == (x > 0 && self@[index_of(x - 1, y as int, z as int)] != VoxelMaterial::Air),
            n.right == (x + 1 < WORLD_SIZE && self@[index_of(x + 1, y as int, z as int)]
                != VoxelMaterial::Air),
            n.bottom == (y > 0 && self@[index_of(x as int, y - 1, z as int)]
                != VoxelMaterial::Air),
            n.top == (y + 1 < WORLD_SIZE && self@[index_of(x as int, y + 1, z as int)]
                != VoxelMaterial::Air),
            n.back == (z > 0 && self@[index_of(x as int, y as int, z - 1)] != VoxelMaterial::Air),
            n.front == (z + 1 < WORLD_SIZE && self@[index_of(x as int, y as int, z + 1)]
                != VoxelMaterial::Air),
    {
        let mut neighbours = VoxelNeighbours {
            top: false,
            bottom: false,
            left: false,
            right: false,
            front: false,
            back: false,
        };
        if x > 0 && !matches!(self.get(x - 1, y, z), VoxelMaterial::Air) {
            neighbours.left = true;
        }
        if x + 1 < WORLD_SIZE && !matches!(self.get(x + 1, y, z), VoxelMaterial::Air) {
            neighbours.right = true;
        }
        if y > 0 && !matches!(self.get(x, y - 1, z), VoxelMaterial::Air) {
            neighbours.bottom = true;
        }
        if y + 1 < WORLD_SIZE && !matches!(self.get(x, y + 1, z), VoxelMaterial::Air) {
            neighbours.top = true;
        }
        if z > 0 && !matches!(self.get(x, y, z - 1), VoxelMaterial::Air) {
            neighbours.back = true;
        }
        if z + 1 < WORLD_SIZE && !matches!(self.get(x, y, z + 1), VoxelMaterial::Air) {
            neighbours.front = true;
        }
        neighbours
    }
}

} // verus!
