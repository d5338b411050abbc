//! The voxel simulation engine: the tick driver. Each tick iterates the grid
//! bottom layer first, applies per-material movement rules (gravity,
//! randomized lateral spread, buoyancy) through the swap primitive, and runs
//! a reaction pass per cell.
//!
//! The engine has no persistent state beyond its random source and its
//! precomputed neighbour-offset tables. All random choices come from the
//! engine's generator; the contracts state what holds of every outcome.

use vstd::multiset::Multiset;
use vstd::prelude::*;

use crate::material::{
    props_spec, reactions_spec, MaterialProperties, MaterialReactions, MaterialType, VoxelMaterial,
};
use crate::model::{index_of, valid_coords, World, WORLD_SIZE, WORLD_VOLUME};
use crate::rng::{lemma_multiset_eq_contains, rand_below, shuffle_vec};
use crate::tracker::{touched_set, ChangeTracker};

verus! {

/// The 8 (dx, dy, dz) offsets one layer down, diagonal and straight-sideways.
pub open spec fn down_offsets() -> Seq<(i8, i8, i8)> {
    seq![
        (-1i8, -1i8, 1i8),
        (0i8, -1i8, 1i8),
        (1i8, -1i8, 1i8),
        (1i8, -1i8, 0i8),
        (1i8, -1i8, -1i8),
        (0i8, -1i8, -1i8),
        (-1i8, -1i8, -1i8),
        (-1i8, -1i8, 0i8),
    ]
}

/// The 8 (dx, dy, dz) offsets on the same layer.
pub open spec fn side_offsets() -> Seq<(i8, i8, i8)> {
    seq![
        (-1i8, 0i8, 1i8),
        (0i8, 0i8, 1i8),
        (1i8, 0i8, 1i8),
        (1i8, 0i8, 0i8),
        (1i8, 0i8, -1i8),
        (0i8, 0i8, -1i8),
        (-1i8, 0i8, -1i8),
        (-1i8, 0i8, 0i8),
    ]
}

/// The 9 (dx, dy, dz) offsets one layer up, straight-up included.
pub open spec fn up_offsets() -> Seq<(i8, i8, i8)> {
    seq![
        (-1i8, 1i8, 1i8),
        (0i8, 1i8, 1i8),
        (1i8, 1i8, 1i8),
        (1i8, 1i8, 0i8),
        (1i8, 1i8, -1i8),
        (0i8, 1i8, -1i8),
        (-1i8, 1i8, -1i8),
        (-1i8, 1i8, 0i8),
        (0i8, 1i8, 0i8),
    ]
}

/// All 26 neighbour offsets of the 3×3×3 cube around a cell, straight-down
/// first.
pub open spec fn all_offsets() -> Seq<(i8, i8, i8)> {
    seq![(0i8, -1i8, 0i8)] + down_offsets() + side_offsets() + up_offsets()
}

/// Every neighbour offset moves each coordinate by at most one, and no
/// offset is the zero offset: a neighbour is always a different cell.
pub proof fn lemma_all_offsets_shape()
    ensures
        all_offsets().len() == 26,
        forall|k: int| 0 <= k < 26 ==> -1 <= #[trigger] all_offsets()[k].0 <= 1,
        forall|k: int| 0 <= k < 26 ==> -1 <= #[trigger] all_offsets()[k].1 <= 1,
        forall|k: int| 0 <= k < 26 ==> -1 <= #[trigger] all_offsets()[k].2 <= 1,
        forall|k: int|
            0 <= k < 26 ==> !(#[trigger] all_offsets()[k].0 == 0 && all_offsets()[k].1 == 0
                && all_offsets()[k].2 == 0),
{
    assert forall|k: int| 0 <= k < 26 implies -1 <= #[trigger] all_offsets()[k].0 <= 1 && -1
        <= all_offsets()[k].1 <= 1 && -1 <= all_offsets()[k].2 <= 1 && !(all_offsets()[k].0 == 0
        && all_offsets()[k].1 == 0 && all_offsets()[k].2 == 0) by {
        if k < 1 {
            assert(all_offsets()[k] == (0i8, -1i8, 0i8));
        } else if k < 9 {
            assert(all_offsets()[k] == down_offsets()[k - 1]);
        } else if k < 17 {
            assert(all_offsets()[k] == side_offsets()[k - 9]);
        } else {
            assert(all_offsets()[k] == up_offsets()[k - 17]);
        }
    }
}

/// Whether a material moving with weight `props_spec(m).weight` may enter the
/// cell currently holding `dst`: the destination is empty, or it is neither
/// solid nor as heavy as the mover. Weight ties never swap.
pub open spec fn can_enter(m: VoxelMaterial, dst: VoxelMaterial) -> bool {
    dst == VoxelMaterial::Air || (props_spec(dst).material_type != MaterialType::SOLID
        && props_spec(m).weight > props_spec(dst).weight)
}

/// The grid `g1` is `g0` after the cell at `s` moved its material `m` into
/// the cell at `d`, taking the displaced material in exchange.
pub open spec fn moved(
    g0: Seq<VoxelMaterial>,
    g1: Seq<VoxelMaterial>,
    s: int,
    d: int,
    m: VoxelMaterial,
) -> bool {
    g1 == g0.update(d, m).update(s, g0[d])
}

/// Exchanging two distinct cells leaves the multiset of materials in the
/// grid unchanged: movement neither creates nor destroys mass.
pub proof fn lemma_exchange_preserves_multiset(g: Seq<VoxelMaterial>, s: int, d: int, m: VoxelMaterial)
    requires
        0 <= s < g.len(),
        0 <= d < g.len(),
        s != d,
        g[s] == m,
    ensures
        g.update(d, m).update(s, g[d]).to_multiset() == g.to_multiset(),
{
    broadcast use vstd::seq_lib::group_to_multiset_ensures;
    broadcast use vstd::multiset::group_multiset_axioms;

    let g1 = g.update(d, m);
    let g2 = g1.update(s, g[d]);
    assert(g.contains(g[d]));
    assert(g.to_multiset().count(g[d]) > 0);
    assert(g1[s] == m);
    assert(g1.to_multiset() == g.to_multiset().insert(m).remove(g[d]));
    assert(g2.to_multiset() == g1.to_multiset().insert(g[d]).remove(m));
    assert(g2.to_multiset() =~= g.to_multiset());
}

/// Whether some material `other` occupies one of the 26 neighbours of
/// (x, y, z) in grid `g`.
pub open spec fn has_partner(
    g: Seq<VoxelMaterial>,
    x: int,
    y: int,
    z: int,
    other: VoxelMaterial,
) -> bool {
    exists|k: int|
        0 <= k < all_offsets().len() && valid_coords(
            x + all_offsets()[k].0,
            y + all_offsets()[k].1,
            z + all_offsets()[k].2,
        ) && g[index_of(
            x + all_offsets()[k].0,
            y + all_offsets()[k].1,
            z + all_offsets()[k].2,
        )] == other
}

/// A material that no tick can affect: it is solid, so no movement rule
/// applies to it and no mover may displace it; it has no reactions of its
/// own; and no material's reaction has it as partner, so no reaction ever
/// rewrites its cell.
pub open spec fn is_immobile(m: VoxelMaterial) -> bool {
    m != VoxelMaterial::Air && props_spec(m).material_type == MaterialType::SOLID
        && reactions_spec(m).len() == 0 && !is_reaction_partner(m)
}

/// Whether some material's reaction table names `m` as the partner material.
pub open spec fn is_reaction_partner(m: VoxelMaterial) -> bool {
    exists|m2: VoxelMaterial, j: int|
        0 <= j < reactions_spec(m2).len() && #[trigger] reactions_spec(m2)[j].other_material == m
}

/// Metal is immobile: it is solid, has no reactions, and appears in no
/// material's reaction table as partner, so a Metal cell is never changed by
/// a tick.
pub proof fn lemma_metal_immobile()
    ensures
        is_immobile(VoxelMaterial::Metal),
{
    assert forall|m2: VoxelMaterial, j: int| 0 <= j < reactions_spec(m2).len()
        implies #[trigger] reactions_spec(m2)[j].other_material != VoxelMaterial::Metal by {
        match m2 {
            VoxelMaterial::Salt => {},
            VoxelMaterial::Steam => {},
            VoxelMaterial::Lava => {},
            VoxelMaterial::Fire => {},
            VoxelMaterial::Ice => {},
            _ => {},
        }
    }
}

/// Whether `d` is the index of an in-bounds cell reached from (x, y, z) by
/// one of the offsets in `offs`.
pub open spec fn offset_target(x: int, y: int, z: int, offs: Seq<(i8, i8, i8)>, d: int) -> bool {
    exists|k: int|
        0 <= k < offs.len() && valid_coords(
            x + #[trigger] offs[k].0,
            y + offs[k].1,
            z + offs[k].2,
        ) && d == index_of(x + offs[k].0, y + offs[k].1, z + offs[k].2)
}

/// The cells a powder at (x, y, z) may move into this tick: straight down,
/// or one of the 8 diagonal-down neighbours.
pub open spec fn powder_dest(x: int, y: int, z: int, d: int) -> bool {
    (y > 0 && d == index_of(x, y - 1, z)) || offset_target(x, y, z, down_offsets(), d)
}

/// The cells a liquid at (x, y, z) may move into this tick: straight down,
/// one of the 8 diagonal-down neighbours, or one of the 8 same-level lateral
/// neighbours.
pub open spec fn liquid_dest(x: int, y: int, z: int, d: int) -> bool {
    (y > 0 && d == index_of(x, y - 1, z)) || offset_target(x, y, z, down_offsets(), d)
        || offset_target(x, y, z, side_offsets(), d)
}

/// The cells a gas at (x, y, z) may move into this tick: any of the 26
/// neighbours of its 3×3×3 cube.
pub open spec fn gas_dest(x: int, y: int, z: int, d: int) -> bool {
    offset_target(x, y, z, all_offsets(), d)
}

/// Whether some offset in `offs` leads from (x, y, z) to an in-bounds cell
/// that material `m` can enter, with neither the cell nor that neighbour
/// locked: an attempt on such a neighbour is certain to succeed.
pub open spec fn open_path(
    g: Seq<VoxelMaterial>,
    mask: Seq<bool>,
    m: VoxelMaterial,
    x: int,
    y: int,
    z: int,
    offs: Seq<(i8, i8, i8)>,
) -> bool {
    exists|k: int|
        0 <= k < offs.len() && valid_coords(
            x + #[trigger] offs[k].0,
            y + offs[k].1,
            z + offs[k].2,
        ) && can_enter(m, g[index_of(x + offs[k].0, y + offs[k].1, z + offs[k].2)])
            && !mask[index_of(x, y, z)] && !mask[index_of(
            x + offs[k].0,
            y + offs[k].1,
            z + offs[k].2,
        )]
}

/// The grid `g1` is `g0` after exactly one reaction of the cell at
/// (x, y, z) fired: some reaction of that cell's material whose partner
/// material occupies one of the 26 neighbours turned the cell into its first
/// product and that neighbour into its second product, and no other cell
/// changed.
pub open spec fn reaction_fired(
    g0: Seq<VoxelMaterial>,
    g1: Seq<VoxelMaterial>,
    x: int,
    y: int,
    z: int,
) -> bool {
    exists|j: int, k: int|
        0 <= j < reactions_spec(g0[index_of(x, y, z)]).len() && 0 <= k < all_offsets().len()
            && valid_coords(
            x + #[trigger] all_offsets()[k].0,
            y + all_offsets()[k].1,
            z + all_offsets()[k].2,
        ) && g0[index_of(x + all_offsets()[k].0, y + all_offsets()[k].1, z + all_offsets()[k].2)]
            == #[trigger] reactions_spec(g0[index_of(x, y, z)])[j].other_material && g1
            == g0.update(
            index_of(x, y, z),
            reactions_spec(g0[index_of(x, y, z)])[j].first_product,
        ).update(
            index_of(x + all_offsets()[k].0, y + all_offsets()[k].1, z + all_offsets()[k].2),
            reactions_spec(g0[index_of(x, y, z)])[j].second_product,
        )
}

/// Whether the cell at (x, y, z) has a reaction that cannot fail this tick:
/// one with certain probability whose partner material occupies one of the
/// 26 neighbours.
pub open spec fn certain_reaction_available(g: Seq<VoxelMaterial>, x: int, y: int, z: int) -> bool {
    exists|j: int|
        0 <= j < reactions_spec(g[index_of(x, y, z)]).len() && #[trigger] reactions_spec(
            g[index_of(x, y, z)],
        )[j].probability >= 1000 && has_partner(
            g,
            x,
            y,
            z,
            reactions_spec(g[index_of(x, y, z)])[j].other_material,
        )
}

/// Every movement destination of a cell at valid coordinates lies inside
/// the grid.
proof fn lemma_dest_in_bounds(x: int, y: int, z: int, d: int)
    requires
        valid_coords(x, y, z),
        powder_dest(x, y, z, d) || liquid_dest(x, y, z, d) || gas_dest(x, y, z, d),
    ensures
        0 <= d < WORLD_VOLUME,
{
    if y > 0 && d == index_of(x, y - 1, z) {
    } else if offset_target(x, y, z, down_offsets(), d) {
        let k = choose|k: int|
            0 <= k < down_offsets().len() && valid_coords(
                x + #[trigger] down_offsets()[k].0,
                y + down_offsets()[k].1,
                z + down_offsets()[k].2,
            ) && d == index_of(
                x + down_offsets()[k].0,
                y + down_offsets()[k].1,
                z + down_offsets()[k].2,
            );
    } else if offset_target(x, y, z, side_offsets(), d) {
        let k = choose|k: int|
            0 <= k < side_offsets().len() && valid_coords(
                x + #[trigger] side_offsets()[k].0,
                y + side_offsets()[k].1,
                z + side_offsets()[k].2,
            ) && d == index_of(
                x + side_offsets()[k].0,
                y + side_offsets()[k].1,
                z + side_offsets()[k].2,
            );
    } else {
        let k = choose|k: int|
            0 <= k < all_offsets().len() && valid_coords(
                x + #[trigger] all_offsets()[k].0,
                y + all_offsets()[k].1,
                z + all_offsets()[k].2,
            ) && d == index_of(
                x + all_offsets()[k].0,
                y + all_offsets()[k].1,
                z + all_offsets()[k].2,
            );
    }
}

/// A world that holds exactly one non-Air cell, at (x, y, z), and that cell
/// is a powder.
pub open spec fn single_powder(g: Seq<VoxelMaterial>, x: int, y: int, z: int) -> bool {
    valid_coords(x, y, z) && g[index_of(x, y, z)] != VoxelMaterial::Air && props_spec(
        g[index_of(x, y, z)],
    ).material_type == MaterialType::POWDER && (forall|i: int|
        0 <= i < WORLD_VOLUME && i != index_of(x, y, z) ==> g[i] == VoxelMaterial::Air)
}

/// The state of a tick's sweep over a world that held a single powder cell
/// at (x, y, z): before the sweep reaches that cell the grid is untouched
/// and no cell is locked; after it has passed the cell, the powder has
/// fallen exactly one cell (or stayed, on the bottom layer).
spec fn single_powder_progress(
    g0: Seq<VoxelMaterial>,
    g: Seq<VoxelMaterial>,
    mask: Seq<bool>,
    x: int,
    y: int,
    z: int,
    i: int,
) -> bool {
    if i <= index_of(x, y, z) {
        g == g0 && (forall|j: int| 0 <= j < mask.len() ==> !mask[j])
    } else if y > 0 {
        g == g0.update(index_of(x, y - 1, z), g0[index_of(x, y, z)]).update(
            index_of(x, y, z),
            VoxelMaterial::Air,
        )
    } else {
        g == g0
    }
}

/// No powder's reaction has Air as its partner material, so a powder with
/// only Air around it never reacts.
proof fn lemma_powder_reactions_not_air(m: VoxelMaterial)
    requires
        props_spec(m).material_type == MaterialType::POWDER,
    ensures
        forall|j: int|
            0 <= j < reactions_spec(m).len() ==> #[trigger] reactions_spec(m)[j].other_material
                != VoxelMaterial::Air,
{
}

/// Lava adjacent to Water: when a Lava cell has a Water neighbour and none
/// of its other reaction partners (Oil, Ice, SaltWater, Wood) is adjacent,
/// the reaction pass is certain to fire, and whatever fires turns the Lava
/// cell into Stone and a Water neighbour into Steam: exactly one reaction
/// per cell per tick, first match wins.
pub proof fn lemma_lava_water_reaction(
    g0: Seq<VoxelMaterial>,
    g1: Seq<VoxelMaterial>,
    x: int,
    y: int,
    z: int,
)
    requires
        g0.len() == WORLD_VOLUME,
        valid_coords(x, y, z),
        g0[index_of(x, y, z)] == VoxelMaterial::Lava,
        has_partner(g0, x, y, z, VoxelMaterial::Water),
        !has_partner(g0, x, y, z, VoxelMaterial::Oil),
        !has_partner(g0, x, y, z, VoxelMaterial::Ice),
        !has_partner(g0, x, y, z, VoxelMaterial::SaltWater),
        !has_partner(g0, x, y, z, VoxelMaterial::Wood),
    ensures
        certain_reaction_available(g0, x, y, z),
        reaction_fired(g0, g1, x, y, z) ==> exists|k: int|
            0 <= k < all_offsets().len() && valid_coords(
                x + #[trigger] all_offsets()[k].0,
                y + all_offsets()[k].1,
                z + all_offsets()[k].2,
            ) && g0[index_of(x + all_offsets()[k].0, y + all_offsets()[k].1, z + all_offsets()[k].2)]
                == VoxelMaterial::Water && g1 == g0.update(
                index_of(x, y, z),
                VoxelMaterial::Stone,
            ).update(
                index_of(x + all_offsets()[k].0, y + all_offsets()[k].1, z + all_offsets()[k].2),
                VoxelMaterial::Steam,
            ),
{
    let c = index_of(x, y, z);
    assert(reactions_spec(g0[c])[0].probability >= 1000 && has_partner(
        g0,
        x,
        y,
        z,
        reactions_spec(g0[c])[0].other_material,
    ));
    if reaction_fired(g0, g1, x, y, z) {
        let (j, k) = choose|j: int, k: int|
            0 <= j < reactions_spec(g0[c]).len() && 0 <= k < all_offsets().len() && valid_coords(
                x + #[trigger] all_offsets()[k].0,
                y + all_offsets()[k].1,
                z + all_offsets()[k].2,
            ) && g0[index_of(x + all_offsets()[k].0, y + all_offsets()[k].1, z + all_offsets()[k].2)]
                == #[trigger] reactions_spec(g0[c])[j].other_material && g1 == g0.update(
                c,
                reactions_spec(g0[c])[j].first_product,
            ).update(
                index_of(x + all_offsets()[k].0, y + all_offsets()[k].1, z + all_offsets()[k].2),
                reactions_spec(g0[c])[j].second_product,
            );
        if j != 0 {
            assert(has_partner(g0, x, y, z, reactions_spec(g0[c])[j].other_material));
            assert(false);
        }
    }
}

/// The voxel simulation engine: a random source plus the precomputed
/// neighbour-offset tables.
pub struct VoxelSimulator {
    rng: rand::rngs::ThreadRng,
    down_neighbours: Vec<(i8, i8, i8)>,
    side_neighbours: Vec<(i8, i8, i8)>,
    up_neighbours: Vec<(i8, i8, i8)>,
    all_neighbours: Vec<(i8, i8, i8)>,
}

impl VoxelSimulator {
    /// The offset tables hold exactly the offsets they were built from.
    pub closed spec fn wf(&self) -> bool {
        self.down_neighbours@ == down_offsets() && self.side_neighbours@ == side_offsets()
            && self.up_neighbours@ == up_offsets() && self.all_neighbours@ == all_offsets()
    }

    /// Create an engine with a fresh random source and the neighbour-offset
    /// tables.
    pub fn new() -> (s: VoxelSimulator)
        ensures
            s.wf(),
    {
        let mut down_neighbours: Vec<(i8, i8, i8)> = Vec::new();
        down_neighbours.push((-1, -1, 1));
        down_neighbours.push((0, -1, 1));
        down_neighbours.push((1, -1, 1));
        down_neighbours.push((1, -1, 0));
        down_neighbours.push((1, -1, -1));
        down_neighbours.push((0, -1, -1));
        down_neighbours.push((-1, -1, -1));
        down_neighbours.push((-1, -1, 0));
        let mut side_neighbours: Vec<(i8, i8, i8)> = Vec::new();
        side_neighbours.push((-1, 0, 1));
        side_neighbours.push((0, 0, 1));
        side_neighbours.push((1, 0, 1));
        side_neighbours.push((1, 0, 0));
        side_neighbours.push((1, 0, -1));
        side_neighbours.push((0, 0, -1));
        side_neighbours.push((-1, 0, -1));
        side_neighbours.push((-1, 0, 0));
        let mut up_neighbours: Vec<(i8, i8, i8)> = Vec::new();
        up_neighbours.push((-1, 1, 1));
        up_neighbours.push((0, 1, 1));
        up_neighbours.push((1, 1, 1));
        up_neighbours.push((1, 1, 0));
        up_neighbours.push((1, 1, -1));
        up_neighbours.push((0, 1, -1));
        up_neighbours.push((-1, 1, -1));
        up_neighbours.push((-1, 1, 0));
        up_neighbours.push((0, 1, 0));
        let mut all_neighbours: Vec<(i8, i8, i8)> = Vec::new();
        all_neighbours.push((0, -1, 0));
        let mut i: usize = 0;
        while i < down_neighbours.len()
            invariant
                down_neighbours@ == down_offsets(),
                i <= down_neighbours@.len(),
                all_neighbours@ == seq![(0i8, -1i8, 0i8)] + down_offsets().take(i as int),
            decreases down_neighbours@.len() - i,
        {
            all_neighbours.push(down_neighbours[i]);
            proof {
                assert(all_neighbours@ =~= seq![(0i8, -1i8, 0i8)] + down_offsets().take(
                    i + 1,
                ));
            }
            i += 1;
        }
        let mut i: usize = 0;
        while i < side_neighbours.len()
            invariant
                side_neighbours@ == side_offsets(),
                i <= side_neighbours@.len(),
                all_neighbours@ == seq![(0i8, -1i8, 0i8)] + down_offsets() + side_offsets().take(
                    i as int,
                ),
            decreases side_neighbours@.len() - i,
        {
            all_neighbours.push(side_neighbours[i]);
            proof {
                assert(all_neighbours@ =~= seq![(0i8, -1i8, 0i8)] + down_offsets()
                    + side_offsets().take(i + 1));
            }
            i += 1;
        }
        let mut i: usize = 0;
        while i < up_neighbours.len()
            invariant
                up_neighbours@ == up_offsets(),
                i <= up_neighbours@.len(),
                all_neighbours@ == seq![(0i8, -1i8, 0i8)] + down_offsets() + side_offsets()
                    + up_offsets().take(i as int),
            decreases up_neighbours@.len() - i,
        {
            all_neighbours.push(up_neighbours[i]);
            proof {
                assert(all_neighbours@ =~= seq![(0i8, -1i8, 0i8)] + down_offsets()
                    + side_offsets() + up_offsets().take(i + 1));
            }
            i += 1;
        }
        proof {
            assert(down_offsets().take(down_offsets().len() as int) =~= down_offsets());
            assert(side_offsets().take(side_offsets().len() as int) =~= side_offsets());
            assert(up_offsets().take(up_offsets().len() as int) =~= up_offsets());
            assert(all_neighbours@ =~= all_offsets());
        }
        VoxelSimulator {
            rng: rand::thread_rng(),
            down_neighbours,
            side_neighbours,
            up_neighbours,
            all_neighbours,
        }
    }

    /// Roll whether a material attempts movement beyond pure gravity this
    /// tick. An activity of 1000 or more always succeeds; an activity of 0
    /// never does; anything between succeeds with that per-mille chance.
    fn check_activity(&mut self, properties: &MaterialProperties) -> (r: bool)
        requires
            old(self).wf(),
        ensures
            final(self).wf(),
            properties.activity >= 1000 ==> r,
            properties.activity == 0 ==> !r,
    {
        properties.activity >= 1000 || properties.activity > rand_below(&mut self.rng, 1000)
    }

    /// The swap primitive: the sole mutation of movement. Try to move
    /// `material` from (x1, y1, z1) into (x2, y2, z2); it declines (no-op,
    /// returns false) when the destination is out of bounds, either cell is
    /// locked this tick, the destination is solid, or the destination
    /// material is at least as heavy.
    ///
    /// Moving into empty space locks only the destination; displacement of a
    /// lighter material locks both cells. A swap never creates or destroys
    /// material: the two cells exchange their contents, and no other cell
    /// changes.
    pub fn swap(
        world: &mut World,
        tracker: &mut ChangeTracker,
        material: VoxelMaterial,
        properties: &MaterialProperties,
        x1: usize,
        y1: usize,
        z1: usize,
        x2: usize,
        y2: usize,
        z2: usize,
        mask: &mut Vec<bool>,
    ) -> (r: bool)
        requires
            old(world).wf(),
            old(tracker).wf(),
            old(mask)@.len() == WORLD_VOLUME,
            valid_coords(x1 as int, y1 as int, z1 as int),
            material != VoxelMaterial::Air,
            old(world)@[index_of(x1 as int, y1 as int, z1 as int)] == material,
            *properties == props_spec(material),
            props_spec(material).material_type != MaterialType::SOLID,
        ensures
            final(world).wf(),
            final(tracker).wf(),
            final(mask)@.len() == WORLD_VOLUME,
            // when the attempt succeeds, and when it declines
            !valid_coords(x2 as int, y2 as int, z2 as int) ==> !r,
            valid_coords(x2 as int, y2 as int, z2 as int) ==> (r <==> (!old(mask)@[index_of(
                x1 as int,
                y1 as int,
                z1 as int,
            )] && !old(mask)@[index_of(x2 as int, y2 as int, z2 as int)] && can_enter(
                material,
                old(world)@[index_of(x2 as int, y2 as int, z2 as int)],
            ))),
            // a solid destination is never displaced, regardless of weight
            valid_coords(x2 as int, y2 as int, z2 as int) && old(world)@[index_of(
                x2 as int,
                y2 as int,
                z2 as int,
            )] != VoxelMaterial::Air && props_spec(
                old(world)@[index_of(x2 as int, y2 as int, z2 as int)],
            ).material_type == MaterialType::SOLID ==> !r,
            // a declined attempt changes nothing
            !r ==> final(world)@ == old(world)@ && final(mask)@ == old(mask)@ && final(tracker)@
                == old(tracker)@,
            // a successful attempt exchanges exactly the two cells
            r ==> index_of(x1 as int, y1 as int, z1 as int) != index_of(
                x2 as int,
                y2 as int,
                z2 as int,
            ) && moved(
                old(world)@,
                final(world)@,
                index_of(x1 as int, y1 as int, z1 as int),
                index_of(x2 as int, y2 as int, z2 as int),
                material,
            ),
            // the multiset of materials at the two cells is unchanged
            r ==> Multiset::<VoxelMaterial>::empty().insert(
                final(world)@[index_of(x1 as int, y1 as int, z1 as int)],
            ).insert(final(world)@[index_of(x2 as int, y2 as int, z2 as int)])
                == Multiset::<VoxelMaterial>::empty().insert(
                old(world)@[index_of(x1 as int, y1 as int, z1 as int)],
            ).insert(old(world)@[index_of(x2 as int, y2 as int, z2 as int)]),
            // lock discipline: empty space locks the destination only,
            // displacement locks both cells
            r && old(world)@[index_of(x2 as int, y2 as int, z2 as int)] == VoxelMaterial::Air
                ==> final(mask)@ == old(mask)@.update(
                index_of(x2 as int, y2 as int, z2 as int),
                true,
            ),
            r && old(world)@[index_of(x2 as int, y2 as int, z2 as int)] != VoxelMaterial::Air
                ==> final(mask)@ == old(mask)@.update(
                index_of(x1 as int, y1 as int, z1 as int),
                true,
            ).update(index_of(x2 as int, y2 as int, z2 as int), true),
            // both coordinates are recorded as changed
            r ==> final(tracker)@ == old(tracker)@.union(
                touched_set(x1 as int, y1 as int, z1 as int),
            ).union(touched_set(x2 as int, y2 as int, z2 as int)),
    {
        if x2 >= WORLD_SIZE || y2 >= WORLD_SIZE || z2 >= WORLD_SIZE {
            return false;
        }
        let s = World::coordiantes_to_index(x1, y1, z1);
        let d = World::coordiantes_to_index(x2, y2, z2);
        if mask[s] || mask[d] {
            return false;
        }
        let other = world.get(x2, y2, z2);
        if matches!(other, VoxelMaterial::Air) {
            world.set(material, x2, y2, z2);
            world.set(other, x1, y1, z1);
            mask.set(d, true);
            tracker.update(x1, y1, z1);
            tracker.update(x2, y2, z2);
            proof {
                assert(final(tracker)@ =~= old(tracker)@.union(
                    touched_set(x1 as int, y1 as int, z1 as int),
                ).union(touched_set(x2 as int, y2 as int, z2 as int)));
                assert(Multiset::<VoxelMaterial>::empty().insert(final(world)@[s as int]).insert(
                    final(world)@[d as int],
                ) =~= Multiset::<VoxelMaterial>::empty().insert(old(world)@[s as int]).insert(
                    old(world)@[d as int],
                ));
            }
            true
        } else {
            let other_properties = MaterialProperties::new(&other);
            if matches!(other_properties.material_type, MaterialType::SOLID) {
                false
            } else if properties.weight > other_properties.weight {
                world.set(material, x2, y2, z2);
                world.set(other, x1, y1, z1);
                mask.set(s, true);
                mask.set(d, true);
                tracker.update(x1, y1, z1);
                tracker.update(x2, y2, z2);
                proof {
                    assert(final(tracker)@ =~= old(tracker)@.union(
                        touched_set(x1 as int, y1 as int, z1 as int),
                    ).union(touched_set(x2 as int, y2 as int, z2 as int)));
                    assert(Multiset::<VoxelMaterial>::empty().insert(
                        final(world)@[s as int],
                    ).insert(final(world)@[d as int])
                        =~= Multiset::<VoxelMaterial>::empty().insert(
                        old(world)@[s as int],
                    ).insert(old(world)@[d as int]));
                }
                true
            } else {
                false
            }
        }
    }

    /// A scratch copy of one offset table, for the caller to shuffle.
    fn copy_offsets(src: &Vec<(i8, i8, i8)>) -> (v: Vec<(i8, i8, i8)>)
        ensures
            v@ == src@,
    {
        let mut v: Vec<(i8, i8, i8)> = Vec::new();
        let mut i: usize = 0;
        while i < src.len()
            invariant
                i <= src@.len(),
                v@ == src@.take(i as int),
            decreases src@.len() - i,
        {
            v.push(src[i]);
            proof {
                assert(v@ =~= src@.take(i + 1));
            }
            i += 1;
        }
        proof {
            assert(src@.take(src@.len() as int) =~= src@);
        }
        v
    }

    /// Move a powder cell: attempt straight down; if that is declined, and
    /// only if the activity roll succeeds, attempt the 8 diagonal-down
    /// neighbours in a randomized order, stopping at the first success. A
    /// powder on the bottom layer never moves.
    ///
    /// When the cell straight below can be entered and neither cell is
    /// locked, the fall is certain: a strictly lighter non-solid material
    /// below is displaced, and empty space below is filled.
    pub fn simulate_powder(
        &mut self,
        world: &mut World,
        tracker: &mut ChangeTracker,
        material: VoxelMaterial,
        properties: MaterialProperties,
        x: usize,
        y: usize,
        z: usize,
        mask: &mut Vec<bool>,
    )
        requires
            old(self).wf(),
            old(world).wf(),
            old(tracker).wf(),
            old(mask)@.len() == WORLD_VOLUME,
            valid_coords(x as int, y as int, z as int),
            material != VoxelMaterial::Air,
            old(world)@[index_of(x as int, y as int, z as int)] == material,
            properties == props_spec(material),
            props_spec(material).material_type == MaterialType::POWDER,
        ensures
            final(self).wf(),
            final(world).wf(),
            final(tracker).wf(),
            final(mask)@.len() == WORLD_VOLUME,
            old(tracker)@.subset_of(final(tracker)@),
            // every outcome: either nothing moved, or the cell exchanged
            // with one reachable destination it could enter
            (final(world)@ == old(world)@ && final(mask)@ == old(mask)@ && final(tracker)@ == old(tracker)@) || (exists|d: int|
                powder_dest(x as int, y as int, z as int, d) && #[trigger] can_enter(
                    material,
                    old(world)@[d],
                ) && d != index_of(x as int, y as int, z as int) && moved(
                    old(world)@,
                    final(world)@,
                    index_of(x as int, y as int, z as int),
                    d,
                    material,
                )),
            // solid cells are never changed by movement
            forall|i: int|
                0 <= i < WORLD_VOLUME && old(world)@[i] != VoxelMaterial::Air && props_spec(
                    old(world)@[i],
                ).material_type == MaterialType::SOLID ==> final(world)@[i] == old(world)@[i],
            // on the bottom layer nothing happens
            y == 0 ==> final(world)@ == old(world)@ && final(mask)@ == old(mask)@ && final(tracker)@ == old(tracker)@,
            // the certain fall: straight down, when below is enterable and
            // neither cell is locked
            (y > 0 && !old(mask)@[index_of(x as int, y as int, z as int)] && !old(mask)@[index_of(
                x as int,
                y as int - 1,
                z as int,
            )] && can_enter(material, old(world)@[index_of(x as int, y as int - 1, z as int)]))
                ==> final(world)@ == old(world)@.update(
                index_of(x as int, y as int - 1, z as int),
                material,
            ).update(
                index_of(x as int, y as int, z as int),
                old(world)@[index_of(x as int, y as int - 1, z as int)],
            ) && (old(world)@[index_of(x as int, y as int - 1, z as int)] == VoxelMaterial::Air
                ==> final(mask)@ == old(mask)@.update(index_of(x as int, y as int - 1, z as int), true))
                && (old(world)@[index_of(x as int, y as int - 1, z as int)] != VoxelMaterial::Air
                ==> final(mask)@ == old(mask)@.update(
                index_of(x as int, y as int, z as int),
                true,
            ).update(index_of(x as int, y as int - 1, z as int), true)) && final(tracker)@ == old(tracker)@.union(touched_set(x as int, y as int, z as int)).union(
                touched_set(x as int, y as int - 1, z as int),
            ),
            // movement is owed to a fully active powder with an open path
            // straight down or to a diagonal-down neighbour
            (y > 0 && props_spec(material).activity >= 1000 && ((!old(mask)@[index_of(
                x as int,
                y as int,
                z as int,
            )] && !old(mask)@[index_of(x as int, y as int - 1, z as int)] && can_enter(
                material,
                old(world)@[index_of(x as int, y as int - 1, z as int)],
            )) || open_path(
                old(world)@,
                old(mask)@,
                material,
                x as int,
                y as int,
                z as int,
                down_offsets(),
            ))) ==> (exists|d: int|
                powder_dest(x as int, y as int, z as int, d) && #[trigger] can_enter(
                    material,
                    old(world)@[d],
                ) && d != index_of(x as int, y as int, z as int) && moved(
                    old(world)@,
                    final(world)@,
                    index_of(x as int, y as int, z as int),
                    d,
                    material,
                )),
    {
        if y == 0 {
            return ;
        }
        if Self::swap(world, tracker, material, &properties, x, y, z, x, y - 1, z, mask) {
            return ;
        }
        if !self.check_activity(&properties) {
            return ;
        }
        let mut down_neighbours = Self::copy_offsets(&self.down_neighbours);
        shuffle_vec(&mut self.rng, &mut down_neighbours);
        proof {
            lemma_multiset_eq_contains(down_neighbours@, down_offsets());
        }
        let mut k: usize = 0;
        while k < down_neighbours.len()
            invariant
                self.wf(),
                world.wf(),
                tracker.wf(),
                mask@.len() == WORLD_VOLUME,
                k <= down_neighbours@.len(),
                forall|o: (i8, i8, i8)| down_neighbours@.contains(o) <==> down_offsets().contains(o),
                valid_coords(x as int, y as int, z as int),
                y > 0,
                material != VoxelMaterial::Air,
                properties == props_spec(material),
                props_spec(material).material_type == MaterialType::POWDER,
                world@ == old(world)@,
                mask@ == old(mask)@,
                tracker@ == old(tracker)@,
                world@[index_of(x as int, y as int, z as int)] == material,
                !(!old(mask)@[index_of(x as int, y as int, z as int)] && !old(mask)@[index_of(
                    x as int,
                    y as int - 1,
                    z as int,
                )] && can_enter(material, old(world)@[index_of(x as int, y as int - 1, z as int)])),
                forall|t: int|
                    0 <= t < k ==> !(valid_coords(
                        x + #[trigger] down_neighbours@[t].0,
                        y + down_neighbours@[t].1,
                        z + down_neighbours@[t].2,
                    ) && can_enter(
                        material,
                        old(world)@[index_of(
                            x + down_neighbours@[t].0,
                            y + down_neighbours@[t].1,
                            z + down_neighbours@[t].2,
                        )],
                    ) && !old(mask)@[index_of(x as int, y as int, z as int)] && !old(
                        mask,
                    )@[index_of(
                        x + down_neighbours@[t].0,
                        y + down_neighbours@[t].1,
                        z + down_neighbours@[t].2,
                    )]),
            decreases down_neighbours@.len() - k,
        {
            let off = down_neighbours[k];
            let ox = x as isize + off.0 as isize;
            let oy = y as isize + off.1 as isize;
            let oz = z as isize + off.2 as isize;
            if ox >= 0 && oy >= 0 && oz >= 0 {
                if Self::swap(
                    world,
                    tracker,
                    material,
                    &properties,
                    x,
                    y,
                    z,
                    ox as usize,
                    oy as usize,
                    oz as usize,
                    mask,
                ) {
                    proof {
                        assert(down_neighbours@.contains(off));
                        let kd = choose|kd: int|
                            0 <= kd < down_offsets().len() && down_offsets()[kd] == off;
                        assert(offset_target(
                            x as int,
                            y as int,
                            z as int,
                            down_offsets(),
                            index_of(ox as int, oy as int, oz as int),
                        ));
                    }
                    return ;
                }
            }
            k += 1;
        }
        proof {
            assert(!open_path(
                old(world)@,
                old(mask)@,
                material,
                x as int,
                y as int,
                z as int,
                down_offsets(),
            )) by {
                if open_path(
                    old(world)@,
                    old(mask)@,
                    material,
                    x as int,
                    y as int,
                    z as int,
                    down_offsets(),
                ) {
                    let kd = choose|kd: int|
                        0 <= kd < down_offsets().len() && valid_coords(
                            x + #[trigger] down_offsets()[kd].0,
                            y + down_offsets()[kd].1,
                            z + down_offsets()[kd].2,
                        ) && can_enter(
                            material,
                            old(world)@[index_of(
                                x + down_offsets()[kd].0,
                                y + down_offsets()[kd].1,
                                z + down_offsets()[kd].2,
                            )],
                        ) && !old(mask)@[index_of(x as int, y as int, z as int)] && !old(
                            mask,
                        )@[index_of(
                            x + down_offsets()[kd].0,
                            y + down_offsets()[kd].1,
                            z + down_offsets()[kd].2,
                        )];
                    let o = down_offsets()[kd];
                    assert(down_offsets().contains(o));
                    assert(down_neighbours@.contains(o));
                    let t = choose|t: int|
                        0 <= t < down_neighbours@.len() && down_neighbours@[t] == o;
                    assert(false);
                }
            }
        }
    }

    /// Move a liquid cell: attempt straight down, then (always) the 8
    /// diagonal-down neighbours in a randomized order; if none succeeds, and
    /// only if the activity roll succeeds, attempt the 8 same-level lateral
    /// neighbours in a randomized order, stopping at the first success.
    ///
    /// When the cell straight below can be entered and neither cell is
    /// locked, the fall is certain: a strictly lighter non-solid material
    /// below is displaced, and empty space below is filled.
    pub fn simulate_liquid(
        &mut self,
        world: &mut World,
        tracker: &mut ChangeTracker,
        material: VoxelMaterial,
        properties: MaterialProperties,
        x: usize,
        y: usize,
        z: usize,
        mask: &mut Vec<bool>,
    )
        requires
            old(self).wf(),
            old(world).wf(),
            old(tracker).wf(),
            old(mask)@.len() == WORLD_VOLUME,
            valid_coords(x as int, y as int, z as int),
            material != VoxelMaterial::Air,
            old(world)@[index_of(x as int, y as int, z as int)] == material,
            properties == props_spec(material),
            props_spec(material).material_type == MaterialType::LIQUID,
        ensures
            final(self).wf(),
            final(world).wf(),
            final(tracker).wf(),
            final(mask)@.len() == WORLD_VOLUME,
            old(tracker)@.subset_of(final(tracker)@),
            // every outcome: either nothing moved, or the cell exchanged
            // with one reachable destination it could enter
            (final(world)@ == old(world)@ && final(mask)@ == old(mask)@ && final(tracker)@ == old(tracker)@)
                || (exists|d: int|
                liquid_dest(x as int, y as int, z as int, d) && #[trigger] can_enter(
                    material,
                    old(world)@[d],
                ) && d != index_of(x as int, y as int, z as int) && moved(
                    old(world)@,
                    final(world)@,
                    index_of(x as int, y as int, z as int),
                    d,
                    material,
                )),
            // solid cells are never changed by movement
            forall|i: int|
                0 <= i < WORLD_VOLUME && old(world)@[i] != VoxelMaterial::Air && props_spec(
                    old(world)@[i],
                ).material_type == MaterialType::SOLID ==> final(world)@[i] == old(world)@[i],
            // the certain fall: straight down, when below is enterable and
            // neither cell is locked
            (y > 0 && !old(mask)@[index_of(x as int, y as int, z as int)] && !old(mask)@[index_of(
                x as int,
                y as int - 1,
                z as int,
            )] && can_enter(material, old(world)@[index_of(x as int, y as int - 1, z as int)]))
                ==> final(world)@ == old(world)@.update(
                index_of(x as int, y as int - 1, z as int),
                material,
            ).update(
                index_of(x as int, y as int, z as int),
                old(world)@[index_of(x as int, y as int - 1, z as int)],
            ) && final(tracker)@ == old(tracker)@.union(
                touched_set(x as int, y as int, z as int),
            ).union(touched_set(x as int, y as int - 1, z as int)),
            // movement is owed to a liquid with an open downward path, and
            // to a fully active liquid with an open lateral path
            ((y > 0 && ((!old(mask)@[index_of(x as int, y as int, z as int)] && !old(
                mask,
            )@[index_of(x as int, y as int - 1, z as int)] && can_enter(
                material,
                old(world)@[index_of(x as int, y as int - 1, z as int)],
            )) || open_path(
                old(world)@,
                old(mask)@,
                material,
                x as int,
                y as int,
                z as int,
                down_offsets(),
            ))) || (props_spec(material).activity >= 1000 && open_path(
                old(world)@,
                old(mask)@,
                material,
                x as int,
                y as int,
                z as int,
                side_offsets(),
            ))) ==> (exists|d: int|
                liquid_dest(x as int, y as int, z as int, d) && #[trigger] can_enter(
                    material,
                    old(world)@[d],
                ) && d != index_of(x as int, y as int, z as int) && moved(
                    old(world)@,
                    final(world)@,
                    index_of(x as int, y as int, z as int),
                    d,
                    material,
                )),
    {
        if y > 0 {
            if Self::swap(world, tracker, material, &properties, x, y, z, x, y - 1, z, mask) {
                return ;
            }
            let mut down_neighbours = Self::copy_offsets(&self.down_neighbours);
            shuffle_vec(&mut self.rng, &mut down_neighbours);
            proof {
                lemma_multiset_eq_contains(down_neighbours@, down_offsets());
            }
            let mut k: usize = 0;
            while k < down_neighbours.len()
                invariant
                    self.wf(),
                    world.wf(),
                    tracker.wf(),
                    mask@.len() == WORLD_VOLUME,
                    k <= down_neighbours@.len(),
                    forall|o: (i8, i8, i8)|
                        down_neighbours@.contains(o) <==> down_offsets().contains(o),
                    valid_coords(x as int, y as int, z as int),
                    y > 0,
                    material != VoxelMaterial::Air,
                    properties == props_spec(material),
                    props_spec(material).material_type == MaterialType::LIQUID,
                    world@ == old(world)@,
                    mask@ == old(mask)@,
                    tracker@ == old(tracker)@,
                    world@[index_of(x as int, y as int, z as int)] == material,
                    !(!old(mask)@[index_of(x as int, y as int, z as int)] && !old(mask)@[index_of(
                        x as int,
                        y as int - 1,
                        z as int,
                    )] && can_enter(
                        material,
                        old(world)@[index_of(x as int, y as int - 1, z as int)],
                    )),
                    forall|t: int|
                        0 <= t < k ==> !(valid_coords(
                            x + #[trigger] down_neighbours@[t].0,
                            y + down_neighbours@[t].1,
                            z + down_neighbours@[t].2,
                        ) && can_enter(
                            material,
                            old(world)@[index_of(
                                x + down_neighbours@[t].0,
                                y + down_neighbours@[t].1,
                                z + down_neighbours@[t].2,
                            )],
                        ) && !old(mask)@[index_of(x as int, y as int, z as int)] && !old(
                            mask,
                        )@[index_of(
                            x + down_neighbours@[t].0,
                            y + down_neighbours@[t].1,
                            z + down_neighbours@[t].2,
                        )]),
                decreases down_neighbours@.len() - k,
            {
                let off = down_neighbours[k];
                let ox = x as isize + off.0 as isize;
                let oy = y as isize + off.1 as isize;
                let oz = z as isize + off.2 as isize;
                if ox >= 0 && oy >= 0 && oz >= 0 {
                    if Self::swap(
                        world,
                        tracker,
                        material,
                        &properties,
                        x,
                        y,
                        z,
                        ox as usize,
                        oy as usize,
                        oz as usize,
                        mask,
                    ) {
                        proof {
                            assert(down_neighbours@.contains(off));
                            assert(offset_target(
                                x as int,
                                y as int,
                                z as int,
                                down_offsets(),
                                index_of(ox as int, oy as int, oz as int),
                            ));
                        }
                        return ;
                    }
                }
                k += 1;
            }
            proof {
                assert(!open_path(
                    old(world)@,
                    old(mask)@,
                    material,
                    x as int,
                    y as int,
                    z as int,
                    down_offsets(),
                )) by {
                    if open_path(
                        old(world)@,
                        old(mask)@,
                        material,
                        x as int,
                        y as int,
                        z as int,
                        down_offsets(),
                    ) {
                        let kd = choose|kd: int|
                            0 <= kd < down_offsets().len() && valid_coords(
                                x + #[trigger] down_offsets()[kd].0,
                                y + down_offsets()[kd].1,
                                z + down_offsets()[kd].2,
                            ) && can_enter(
                                material,
                                old(world)@[index_of(
                                    x + down_offsets()[kd].0,
                                    y + down_offsets()[kd].1,
                                    z + down_offsets()[kd].2,
                                )],
                            ) && !old(mask)@[index_of(x as int, y as int, z as int)] && !old(
                                mask,
                            )@[index_of(
                                x + down_offsets()[kd].0,
                                y + down_offsets()[kd].1,
                                z + down_offsets()[kd].2,
                            )];
                        let o = down_offsets()[kd];
                        assert(down_offsets().contains(o));
                        assert(down_neighbours@.contains(o));
                        let t = choose|t: int|
                            0 <= t < down_neighbours@.len() && down_neighbours@[t] == o;
                        assert(false);
                    }
                }
            }
        }
        if !self.check_activity(&properties) {
            return ;
        }
        let mut side_neighbours = Self::copy_offsets(&self.side_neighbours);
        shuffle_vec(&mut self.rng, &mut side_neighbours);
        proof {
            lemma_multiset_eq_contains(side_neighbours@, side_offsets());
        }
        let mut k: usize = 0;
        while k < side_neighbours.len()
            invariant
                self.wf(),
                world.wf(),
                tracker.wf(),
                mask@.len() == WORLD_VOLUME,
                k <= side_neighbours@.len(),
                forall|o: (i8, i8, i8)| side_neighbours@.contains(o) <==> side_offsets().contains(o),
                valid_coords(x as int, y as int, z as int),
                material != VoxelMaterial::Air,
                properties == props_spec(material),
                props_spec(material).material_type == MaterialType::LIQUID,
                world@ == old(world)@,
                mask@ == old(mask)@,
                tracker@ == old(tracker)@,
                world@[index_of(x as int, y as int, z as int)] == material,
                y == 0 || !(!old(mask)@[index_of(x as int, y as int, z as int)] && !old(mask)@[index_of(x as int, y as int - 1, z as int)] && can_enter(
                    material,
                    old(world)@[index_of(x as int, y as int - 1, z as int)],
                )),
                forall|t: int|
                    0 <= t < k ==> !(valid_coords(
                        x + #[trigger] side_neighbours@[t].0,
                        y + side_neighbours@[t].1,
                        z + side_neighbours@[t].2,
                    ) && can_enter(
                        material,
                        old(world)@[index_of(
                            x + side_neighbours@[t].0,
                            y + side_neighbours@[t].1,
                            z + side_neighbours@[t].2,
                        )],
                    ) && !old(mask)@[index_of(x as int, y as int, z as int)] && !old(
                        mask,
                    )@[index_of(
                        x + side_neighbours@[t].0,
                        y + side_neighbours@[t].1,
                        z + side_neighbours@[t].2,
                    )]),
            decreases side_neighbours@.len() - k,
        {
            let off = side_neighbours[k];
            let ox = x as isize + off.0 as isize;
            let oy = y as isize + off.1 as isize;
            let oz = z as isize + off.2 as isize;
            if ox >= 0 && oy >= 0 && oz >= 0 {
                if Self::swap(
                    world,
                    tracker,
                    material,
                    &properties,
                    x,
                    y,
                    z,
                    ox as usize,
                    oy as usize,
                    oz as usize,
                    mask,
                ) {
                    proof {
                        assert(side_neighbours@.contains(off));
                        assert(offset_target(
                            x as int,
                            y as int,
                            z as int,
                            side_offsets(),
                            index_of(ox as int, oy as int, oz as int),
                        ));
                    }
                    return ;
                }
            }
            k += 1;
        }
        proof {
            assert(!open_path(
                old(world)@,
                old(mask)@,
                material,
                x as int,
                y as int,
                z as int,
                side_offsets(),
            )) by {
                if open_path(
                    old(world)@,
                    old(mask)@,
                    material,
                    x as int,
                    y as int,
                    z as int,
                    side_offsets(),
                ) {
                    let ks = choose|ks: int|
                        0 <= ks < side_offsets().len() && valid_coords(
                            x + #[trigger] side_offsets()[ks].0,
                            y + side_offsets()[ks].1,
                            z + side_offsets()[ks].2,
                        ) && can_enter(
                            material,
                            old(world)@[index_of(
                                x + side_offsets()[ks].0,
                                y + side_offsets()[ks].1,
                                z + side_offsets()[ks].2,
                            )],
                        ) && !old(mask)@[index_of(x as int, y as int, z as int)] && !old(
                            mask,
                        )@[index_of(
                            x + side_offsets()[ks].0,
                            y + side_offsets()[ks].1,
                            z + side_offsets()[ks].2,
                        )];
                    let o = side_offsets()[ks];
                    assert(side_offsets().contains(o));
                    assert(side_neighbours@.contains(o));
                    let t = choose|t: int|
                        0 <= t < side_neighbours@.len() && side_neighbours@[t] == o;
                    assert(false);
                }
            }
        }
    }

    /// Move a gas cell: with a chance equal to the activity, consider all 26
    /// neighbours; otherwise only the 9 upward and 8 lateral ones. The
    /// candidates are shuffled and attempted until one swap succeeds.
    pub fn simulate_gas(
        &mut self,
        world: &mut World,
        tracker: &mut ChangeTracker,
        material: VoxelMaterial,
        properties: MaterialProperties,
        x: usize,
        y: usize,
        z: usize,
        mask: &mut Vec<bool>,
    )
        requires
            old(self).wf(),
            old(world).wf(),
            old(tracker).wf(),
            old(mask)@.len() == WORLD_VOLUME,
            valid_coords(x as int, y as int, z as int),
            material != VoxelMaterial::Air,
            old(world)@[index_of(x as int, y as int, z as int)] == material,
            properties == props_spec(material),
            props_spec(material).material_type == MaterialType::GAS,
        ensures
            final(self).wf(),
            final(world).wf(),
            final(tracker).wf(),
            final(mask)@.len() == WORLD_VOLUME,
            old(tracker)@.subset_of(final(tracker)@),
            // every outcome: either nothing moved, or the cell exchanged
            // with one of its 26 neighbours it could enter
            (final(world)@ == old(world)@ && final(mask)@ == old(mask)@ && final(tracker)@ == old(tracker)@)
                || (exists|d: int|
                gas_dest(x as int, y as int, z as int, d) && #[trigger] can_enter(
                    material,
                    old(world)@[d],
                ) && d != index_of(x as int, y as int, z as int) && moved(
                    old(world)@,
                    final(world)@,
                    index_of(x as int, y as int, z as int),
                    d,
                    material,
                )),
            // solid cells are never changed by movement
            forall|i: int|
                0 <= i < WORLD_VOLUME && old(world)@[i] != VoxelMaterial::Air && props_spec(
                    old(world)@[i],
                ).material_type == MaterialType::SOLID ==> final(world)@[i] == old(world)@[i],
            // movement is owed when an unlocked, enterable upward or
            // lateral neighbour exists: both candidate sets contain all
            // upward and lateral offsets
            open_path(
                old(world)@,
                old(mask)@,
                material,
                x as int,
                y as int,
                z as int,
                up_offsets() + side_offsets(),
            )
                ==> (exists|d: int|
                gas_dest(x as int, y as int, z as int, d) && #[trigger] can_enter(
                    material,
                    old(world)@[d],
                ) && d != index_of(x as int, y as int, z as int) && moved(
                    old(world)@,
                    final(world)@,
                    index_of(x as int, y as int, z as int),
                    d,
                    material,
                )),
    {
        let roll = rand_below(&mut self.rng, 1000);
        let mut neighbours: Vec<(i8, i8, i8)>;
        if roll < properties.activity {
            neighbours = Self::copy_offsets(&self.all_neighbours);
        } else {
            neighbours = Self::copy_offsets(&self.up_neighbours);
            let mut side_neighbours = Self::copy_offsets(&self.side_neighbours);
            neighbours.append(&mut side_neighbours);
        }
        let ghost pre = neighbours@;
        proof {
            assert forall|o: (i8, i8, i8)| pre.contains(o) implies all_offsets().contains(o) by {
                if pre == up_offsets() + side_offsets() {
                    let k = choose|k: int| 0 <= k < pre.len() && pre[k] == o;
                    if k < up_offsets().len() {
                        assert(all_offsets()[17 + k] == o);
                    } else {
                        assert(all_offsets()[9 + (k - up_offsets().len())] == o);
                    }
                }
            }
        }
        shuffle_vec(&mut self.rng, &mut neighbours);
        proof {
            lemma_multiset_eq_contains(neighbours@, pre);
        }
        let ghost candidates = neighbours@;
        let mut k: usize = 0;
        while k < neighbours.len()
            invariant
                self.wf(),
                world.wf(),
                tracker.wf(),
                mask@.len() == WORLD_VOLUME,
                k <= neighbours@.len(),
                neighbours@ == candidates,
                forall|o: (i8, i8, i8)| candidates.contains(o) ==> all_offsets().contains(o),
                valid_coords(x as int, y as int, z as int),
                material != VoxelMaterial::Air,
                properties == props_spec(material),
                props_spec(material).material_type == MaterialType::GAS,
                world@ == old(world)@,
                mask@ == old(mask)@,
                tracker@ == old(tracker)@,
                world@[index_of(x as int, y as int, z as int)] == material,
                forall|t: int|
                    0 <= t < k ==> !(valid_coords(
                        x + #[trigger] candidates[t].0,
                        y + candidates[t].1,
                        z + candidates[t].2,
                    ) && can_enter(
                        material,
                        old(world)@[index_of(
                            x + candidates[t].0,
                            y + candidates[t].1,
                            z + candidates[t].2,
                        )],
                    ) && !old(mask)@[index_of(x as int, y as int, z as int)] && !old(
                        mask,
                    )@[index_of(x + candidates[t].0, y + candidates[t].1, z + candidates[t].2)]),
            decreases neighbours@.len() - k,
        {
            let off = neighbours[k];
            let ox = x as isize + off.0 as isize;
            let oy = y as isize + off.1 as isize;
            let oz = z as isize + off.2 as isize;
            if ox >= 0 && oy >= 0 && oz >= 0 {
                if Self::swap(
                    world,
                    tracker,
                    material,
                    &properties,
                    x,
                    y,
                    z,
                    ox as usize,
                    oy as usize,
                    oz as usize,
                    mask,
                ) {
                    proof {
                        assert(candidates.contains(off));
                        assert(offset_target(
                            x as int,
                            y as int,
                            z as int,
                            all_offsets(),
                            index_of(ox as int, oy as int, oz as int),
                        ));
                    }
                    return ;
                }
            }
            k += 1;
        }
        proof {
            assert(!open_path(
                old(world)@,
                old(mask)@,
                material,
                x as int,
                y as int,
                z as int,
                up_offsets() + side_offsets(),
            )) by {
                if open_path(
                    old(world)@,
                    old(mask)@,
                    material,
                    x as int,
                    y as int,
                    z as int,
                    up_offsets() + side_offsets(),
                ) {
                    let ups = up_offsets() + side_offsets();
                    let k = choose|k: int|
                        0 <= k < ups.len() && valid_coords(
                            x + #[trigger] ups[k].0,
                            y + ups[k].1,
                            z + ups[k].2,
                        ) && can_enter(
                            material,
                            old(world)@[index_of(x + ups[k].0, y + ups[k].1, z + ups[k].2)],
                        ) && !old(mask)@[index_of(x as int, y as int, z as int)] && !old(
                            mask,
                        )@[index_of(x + ups[k].0, y + ups[k].1, z + ups[k].2)];
                    let o = ups[k];
                    assert(pre.contains(o)) by {
                        if pre == all_offsets() {
                            if k < up_offsets().len() {
                                assert(all_offsets()[17 + k] == o);
                            } else {
                                assert(all_offsets()[9 + (k - up_offsets().len())] == o);
                            }
                            assert(all_offsets().contains(o));
                        } else {
                            assert(ups.contains(o));
                        }
                    }
                    assert(candidates.contains(o));
                    let t = choose|t: int| 0 <= t < candidates.len() && candidates[t] == o;
                    assert(false);
                }
            }
        }
    }

    /// Simulate one non-Air cell: dispatch on the material type. Solids
    /// never move.
    pub fn simulate_voxel(
        &mut self,
        world: &mut World,
        tracker: &mut ChangeTracker,
        x: usize,
        y: usize,
        z: usize,
        mask: &mut Vec<bool>,
    )
        requires
            old(self).wf(),
            old(world).wf(),
            old(tracker).wf(),
            old(mask)@.len() == WORLD_VOLUME,
            valid_coords(x as int, y as int, z as int),
            old(world)@[index_of(x as int, y as int, z as int)] != VoxelMaterial::Air,
        ensures
            final(self).wf(),
            final(world).wf(),
            final(tracker).wf(),
            final(mask)@.len() == WORLD_VOLUME,
            old(tracker)@.subset_of(final(tracker)@),
            // solid cells never change position or material through movement
            forall|i: int|
                0 <= i < WORLD_VOLUME && old(world)@[i] != VoxelMaterial::Air && props_spec(
                    old(world)@[i],
                ).material_type == MaterialType::SOLID ==> final(world)@[i] == old(world)@[i],
            // a solid cell causes no change at all
            props_spec(old(world)@[index_of(x as int, y as int, z as int)]).material_type
                == MaterialType::SOLID ==> final(world)@ == old(world)@ && final(mask)@ == old(mask)@ && final(tracker)@ == old(tracker)@,
            // every outcome: either nothing moved, or the cell exchanged with
            // a destination its movement rule reaches and it could enter
            (final(world)@ == old(world)@ && final(mask)@ == old(mask)@ && final(tracker)@ == old(tracker)@)
                || (exists|d: int|
                (powder_dest(x as int, y as int, z as int, d) || liquid_dest(
                    x as int,
                    y as int,
                    z as int,
                    d,
                ) || gas_dest(x as int, y as int, z as int, d)) && #[trigger] can_enter(
                    old(world)@[index_of(x as int, y as int, z as int)],
                    old(world)@[d],
                ) && d != index_of(x as int, y as int, z as int) && moved(
                    old(world)@,
                    final(world)@,
                    index_of(x as int, y as int, z as int),
                    d,
                    old(world)@[index_of(x as int, y as int, z as int)],
                )),
            // the certain fall of powders and liquids: straight down, when
            // below is enterable and neither cell is locked
            ((props_spec(old(world)@[index_of(x as int, y as int, z as int)]).material_type
                == MaterialType::POWDER || props_spec(
                old(world)@[index_of(x as int, y as int, z as int)],
            ).material_type == MaterialType::LIQUID) && y > 0 && !old(mask)@[index_of(
                x as int,
                y as int,
                z as int,
            )] && !old(mask)@[index_of(x as int, y as int - 1, z as int)] && can_enter(
                old(world)@[index_of(x as int, y as int, z as int)],
                old(world)@[index_of(x as int, y as int - 1, z as int)],
            )) ==> final(world)@ == old(world)@.update(
                index_of(x as int, y as int - 1, z as int),
                old(world)@[index_of(x as int, y as int, z as int)],
            ).update(
                index_of(x as int, y as int, z as int),
                old(world)@[index_of(x as int, y as int - 1, z as int)],
            ),
            // a powder's only change of the lock mask is the certain fall's
            props_spec(old(world)@[index_of(x as int, y as int, z as int)]).material_type
                == MaterialType::POWDER && y > 0 && !old(mask)@[index_of(
                x as int,
                y as int,
                z as int,
            )] && !old(mask)@[index_of(x as int, y as int - 1, z as int)] && old(world)@[index_of(
                x as int,
                y as int - 1,
                z as int,
            )] == VoxelMaterial::Air ==> final(mask)@ == old(mask)@.update(
                index_of(x as int, y as int - 1, z as int),
                true,
            ),
            // a powder on the bottom layer stays put
            props_spec(old(world)@[index_of(x as int, y as int, z as int)]).material_type
                == MaterialType::POWDER && y == 0 ==> final(world)@ == old(world)@ && final(mask)@ == old(mask)@ && final(tracker)@ == old(tracker)@,
    {
        let material = world.get(x, y, z);
        let material_properties = MaterialProperties::new(&material);
        match material_properties.material_type {
            MaterialType::SOLID => {},
            MaterialType::LIQUID => {
                self.simulate_liquid(world, tracker, material, material_properties, x, y, z, mask)
            },
            MaterialType::POWDER => {
                self.simulate_powder(world, tracker, material, material_properties, x, y, z, mask)
            },
            MaterialType::GAS => {
                self.simulate_gas(world, tracker, material, material_properties, x, y, z, mask)
            },
        }
    }

    /// The reaction pass for one cell: fetch the reaction list of the cell's
    /// current material; shuffle it and the shared neighbour-offset list;
    /// for each reaction in shuffled order, roll its probability, and on
    /// success scan the shuffled neighbours for the first cell holding the
    /// partner material. The first match rewrites both cells and ends the
    /// pass: at most one reaction fires per cell per tick.
    ///
    /// A reaction with certain probability whose partner is adjacent
    /// guarantees that some reaction fires this pass.
    pub fn check_reaction(
        &mut self,
        world: &mut World,
        tracker: &mut ChangeTracker,
        x: usize,
        y: usize,
        z: usize,
    )
        requires
            old(self).wf(),
            old(world).wf(),
            old(tracker).wf(),
            valid_coords(x as int, y as int, z as int),
        ensures
            final(self).wf(),
            final(world).wf(),
            final(tracker).wf(),
            old(tracker)@.subset_of(final(tracker)@),
            // every outcome: exactly one reaction fired, or nothing changed
            reaction_fired(old(world)@, final(world)@, x as int, y as int, z as int) || (final(world)@ == old(world)@ && final(tracker)@ == old(tracker)@),
            // a certain reaction with an adjacent partner always fires
            certain_reaction_available(old(world)@, x as int, y as int, z as int)
                ==> reaction_fired(old(world)@, final(world)@, x as int, y as int, z as int),
            // cells of immobile material are never rewritten
            forall|i: int|
                0 <= i < WORLD_VOLUME && is_immobile(old(world)@[i]) ==> final(world)@[i] == old(world)@[i],
    {
        let ghost c = index_of(x as int, y as int, z as int);
        let material = world.get(x, y, z);
        let mut reactions = MaterialReactions::new(&material);
        if reactions.len() == 0 {
            return ;
        }
        let ghost pre_reactions = reactions@;
        shuffle_vec(&mut self.rng, &mut reactions);
        proof {
            lemma_multiset_eq_contains(reactions@, pre_reactions);
        }
        let mut check_neighbours = Self::copy_offsets(&self.all_neighbours);
        let ghost pre_offsets = check_neighbours@;
        shuffle_vec(&mut self.rng, &mut check_neighbours);
        proof {
            lemma_multiset_eq_contains(check_neighbours@, pre_offsets);
            lemma_all_offsets_shape();
        }
        let ghost g0 = world@;
        let mut ri: usize = 0;
        while ri < reactions.len()
            invariant
                self.wf(),
                world.wf(),
                tracker.wf(),
                ri <= reactions@.len(),
                valid_coords(x as int, y as int, z as int),
                c == index_of(x as int, y as int, z as int),
                g0 == old(world)@,
                world@ == g0,
                tracker@ == old(tracker)@,
                material == g0[c],
                forall|r: MaterialReactions|
                    reactions@.contains(r) <==> reactions_spec(material).contains(r),
                forall|o: (i8, i8, i8)|
                    check_neighbours@.contains(o) <==> all_offsets().contains(o),
                forall|t: int|
                    0 <= t < ri ==> (#[trigger] reactions@[t].probability < 1000 || !has_partner(
                        g0,
                        x as int,
                        y as int,
                        z as int,
                        reactions@[t].other_material,
                    )),
            decreases reactions@.len() - ri,
        {
            let reaction = reactions[ri];
            let roll = rand_below(&mut self.rng, 1000);
            if roll < reaction.probability {
                let mut kj: usize = 0;
                while kj < check_neighbours.len()
                    invariant
                        self.wf(),
                        world.wf(),
                        tracker.wf(),
                        kj <= check_neighbours@.len(),
                        valid_coords(x as int, y as int, z as int),
                        c == index_of(x as int, y as int, z as int),
                        g0 == old(world)@,
                        world@ == g0,
                        tracker@ == old(tracker)@,
                        material == g0[c],
                        reaction == reactions@[ri as int],
                        ri < reactions@.len(),
                        forall|r: MaterialReactions|
                            reactions@.contains(r) <==> reactions_spec(material).contains(r),
                        forall|o: (i8, i8, i8)|
                            check_neighbours@.contains(o) <==> all_offsets().contains(o),
                        forall|t: int|
                            0 <= t < kj ==> !(valid_coords(
                                x + #[trigger] check_neighbours@[t].0,
                                y + check_neighbours@[t].1,
                                z + check_neighbours@[t].2,
                            ) && g0[index_of(
                                x + check_neighbours@[t].0,
                                y + check_neighbours@[t].1,
                                z + check_neighbours@[t].2,
                            )] == reaction.other_material),
                    decreases check_neighbours@.len() - kj,
                {
                    let off = check_neighbours[kj];
                    let other_x = x as isize + off.0 as isize;
                    let other_y = y as isize + off.1 as isize;
                    let other_z = z as isize + off.2 as isize;
                    if other_x >= 0 && other_x < WORLD_SIZE as isize && other_y >= 0 && other_y
                        < WORLD_SIZE as isize && other_z >= 0 && other_z < WORLD_SIZE as isize {
                        let ox = other_x as usize;
                        let oy = other_y as usize;
                        let oz = other_z as usize;
                        if world.get(ox, oy, oz).get_id() == reaction.other_material.get_id() {
                            proof {
                                crate::material::lemma_id_injective(
                                    g0[index_of(ox as int, oy as int, oz as int)],
                                    reaction.other_material,
                                );
                            }
                            world.set(reaction.first_product, x, y, z);
                            world.set(reaction.second_product, ox, oy, oz);
                            tracker.update(x, y, z);
                            tracker.update(ox, oy, oz);
                            proof {
                                let p = index_of(ox as int, oy as int, oz as int);
                                assert(reactions@.contains(reaction));
                                let j = choose|j: int|
                                    0 <= j < reactions_spec(material).len() && reactions_spec(
                                        material,
                                    )[j] == reaction;
                                assert(check_neighbours@.contains(off));
                                let k = choose|k: int|
                                    0 <= k < all_offsets().len() && all_offsets()[k] == off;
                                crate::model::lemma_coords_index_roundtrip(
                                    x as int,
                                    y as int,
                                    z as int,
                                );
                                crate::model::lemma_coords_index_roundtrip(
                                    ox as int,
                                    oy as int,
                                    oz as int,
                                );
                                assert(p != c);
                                assert(0 <= j < reactions_spec(g0[index_of(
                                    x as int,
                                    y as int,
                                    z as int,
                                )]).len() && 0 <= k < all_offsets().len() && valid_coords(
                                    x as int + all_offsets()[k].0,
                                    y as int + all_offsets()[k].1,
                                    z as int + all_offsets()[k].2,
                                ) && g0[index_of(
                                    x as int + all_offsets()[k].0,
                                    y as int + all_offsets()[k].1,
                                    z as int + all_offsets()[k].2,
                                )] == reactions_spec(g0[index_of(x as int, y as int, z as int)])[j].other_material && world@ == g0.update(
                                    index_of(x as int, y as int, z as int),
                                    reactions_spec(g0[index_of(x as int, y as int, z as int)])[j].first_product,
                                ).update(
                                    index_of(
                                        x as int + all_offsets()[k].0,
                                        y as int + all_offsets()[k].1,
                                        z as int + all_offsets()[k].2,
                                    ),
                                    reactions_spec(g0[index_of(x as int, y as int, z as int)])[j].second_product,
                                ));
                                assert(reaction_fired(
                                    g0,
                                    world@,
                                    x as int,
                                    y as int,
                                    z as int,
                                ));
                                assert forall|i: int|
                                    0 <= i < WORLD_VOLUME && is_immobile(g0[i]) implies world@[i]
                                    == g0[i] by {
                                    if i == c {
                                        assert(reactions_spec(g0[c]).len() > 0);
                                    } else if i == p {
                                        assert(reactions_spec(material)[j].other_material == g0[p]);
                                        assert(is_reaction_partner(g0[p]));
                                    }
                                }
                            }
                            return ;
                        }
                    }
                    kj += 1;
                }
                proof {
                    assert(!has_partner(
                        g0,
                        x as int,
                        y as int,
                        z as int,
                        reaction.other_material,
                    )) by {
                        if has_partner(g0, x as int, y as int, z as int, reaction.other_material) {
                            let k = choose|k: int|
                                0 <= k < all_offsets().len() && valid_coords(
                                    x + #[trigger] all_offsets()[k].0,
                                    y + all_offsets()[k].1,
                                    z + all_offsets()[k].2,
                                ) && g0[index_of(
                                    x + all_offsets()[k].0,
                                    y + all_offsets()[k].1,
                                    z + all_offsets()[k].2,
                                )] == reaction.other_material;
                            let off = all_offsets()[k];
                            assert(all_offsets().contains(off));
                            assert(check_neighbours@.contains(off));
                            let t = choose|t: int|
                                0 <= t < check_neighbours@.len() && check_neighbours@[t] == off;
                            assert(false);
                        }
                    }
                }
            } else {
                proof {
                    assert(reaction.probability < 1000);
                }
            }
            ri += 1;
        }
        proof {
            assert(!certain_reaction_available(g0, x as int, y as int, z as int)) by {
                if certain_reaction_available(g0, x as int, y as int, z as int) {
                    let j = choose|j: int|
                        0 <= j < reactions_spec(g0[index_of(x as int, y as int, z as int)]).len()
                            && #[trigger] reactions_spec(
                            g0[index_of(x as int, y as int, z as int)],
                        )[j].probability >= 1000 && has_partner(
                            g0,
                            x as int,
                            y as int,
                            z as int,
                            reactions_spec(g0[index_of(x as int, y as int, z as int)])[j].other_material,
                        );
                    let r = reactions_spec(material)[j];
                    assert(reactions_spec(material).contains(r));
                    assert(reactions@.contains(r));
                    let t = choose|t: int| 0 <= t < reactions@.len() && reactions@[t] == r;
                    assert(false);
                }
            }
        }
    }

    /// Run one simulation tick: allocate a fresh lock mask, then sweep the
    /// grid in linear index order (bottom layer first), moving each non-Air
    /// cell by its material's rule and then running its reaction pass.
    ///
    /// Whatever the random choices: a cell of immobile material (solid, no
    /// reactions, never a reaction partner, such as Metal) is unchanged by
    /// the tick; and in a world holding a single powder cell above the
    /// bottom layer, the tick moves that cell exactly one cell straight
    /// down, while on the bottom layer it stays put.
    pub fn next_step(&mut self, world: &mut World, tracker: &mut ChangeTracker)
        requires
            old(self).wf(),
            old(world).wf(),
            old(tracker).wf(),
        ensures
            final(self).wf(),
            final(world).wf(),
            final(tracker).wf(),
            old(tracker)@.subset_of(final(tracker)@),
            // a cell of immobile material never changes
            forall|i: int|
                0 <= i < WORLD_VOLUME && is_immobile(old(world)@[i]) ==> final(world)@[i] == old(
                    world,
                )@[i],
            // in a world whose materials have no reactions, a tick only
            // permutes the grid: mass is neither created nor destroyed
            (forall|i: int|
                0 <= i < WORLD_VOLUME ==> reactions_spec(#[trigger] old(world)@[i]).len() == 0)
                ==> final(world)@.to_multiset() == old(world)@.to_multiset(),
            // a single powder cell falls exactly one cell per tick, and
            // stays once it reaches the bottom layer
            forall|px: int, py: int, pz: int|
                single_powder(old(world)@, px, py, pz) ==> ((py > 0 ==> final(world)@ == old(
                    world,
                )@.update(index_of(px, py - 1, pz), old(world)@[index_of(px, py, pz)]).update(
                    index_of(px, py, pz),
                    VoxelMaterial::Air,
                )) && (py == 0 ==> final(world)@ == old(world)@)),
    {
        let mut mask: Vec<bool> = Vec::new();
        let mut i: usize = 0;
        while i < WORLD_VOLUME
            invariant
                i <= WORLD_VOLUME,
                mask@.len() == i,
                forall|j: int| 0 <= j < i ==> !mask@[j],
            decreases WORLD_VOLUME - i,
        {
            mask.push(false);
            i += 1;
        }
        let mut i: usize = 0;
        while i < WORLD_VOLUME
            invariant
                self.wf(),
                world.wf(),
                tracker.wf(),
                old(world).wf(),
                mask@.len() == WORLD_VOLUME,
                i <= WORLD_VOLUME,
                old(tracker)@.subset_of(tracker@),
                forall|j: int|
                    0 <= j < WORLD_VOLUME && is_immobile(old(world)@[j]) ==> world@[j] == old(
                        world,
                    )@[j],
                (forall|j: int|
                    0 <= j < WORLD_VOLUME ==> reactions_spec(#[trigger] old(world)@[j]).len()
                        == 0) ==> world@.to_multiset() == old(world)@.to_multiset(),
                forall|px: int, py: int, pz: int|
                    single_powder(old(world)@, px, py, pz) ==> single_powder_progress(
                        old(world)@,
                        world@,
                        mask@,
                        px,
                        py,
                        pz,
                        i as int,
                    ),
            decreases WORLD_VOLUME - i,
        {
            let ghost w_pre = world@;
            let ghost mask_pre = mask@;
            let (x, y, z) = World::index_to_coordinates(i);
            let m = world.get_index(i);
            if !matches!(m, VoxelMaterial::Air) {
                self.simulate_voxel(world, tracker, x, y, z, &mut mask);
                let ghost w_mid = world@;
                let ghost mask_mid = mask@;
                self.check_reaction(world, tracker, x, y, z);
                proof {
                    lemma_all_offsets_shape();
                    assert forall|j: int|
                        0 <= j < WORLD_VOLUME && is_immobile(old(world)@[j]) implies world@[j]
                        == old(world)@[j] by {
                        assert(w_mid[j] == w_pre[j]);
                    }
                    broadcast use vstd::seq_lib::group_to_multiset_ensures;

                    if forall|j: int|
                        0 <= j < WORLD_VOLUME ==> reactions_spec(
                            #[trigger] old(world)@[j],
                        ).len() == 0 {
                        let g0 = old(world)@;
                        let c = index_of(x as int, y as int, z as int);
                        assert(w_mid.to_multiset() == w_pre.to_multiset()) by {
                            if w_mid != w_pre {
                                let d = choose|d: int|
                                    (powder_dest(x as int, y as int, z as int, d) || liquid_dest(
                                        x as int,
                                        y as int,
                                        z as int,
                                        d,
                                    ) || gas_dest(x as int, y as int, z as int, d))
                                        && #[trigger] can_enter(w_pre[c], w_pre[d]) && d != c
                                        && moved(w_pre, w_mid, c, d, w_pre[c]);
                                lemma_dest_in_bounds(x as int, y as int, z as int, d);
                                lemma_exchange_preserves_multiset(w_pre, c, d, w_pre[c]);
                            }
                        }
                        assert(world@ == w_mid) by {
                            assert(w_mid.contains(w_mid[c]));
                            assert(w_pre.to_multiset() == g0.to_multiset());
                            assert(g0.to_multiset().count(w_mid[c]) > 0);
                            assert(g0.contains(w_mid[c]));
                            let j = choose|j: int| 0 <= j < g0.len() && g0[j] == w_mid[c];
                            assert(reactions_spec(w_mid[c]).len() == 0);
                        }
                    }
                    assert forall|px: int, py: int, pz: int|
                        single_powder(old(world)@, px, py, pz) implies single_powder_progress(
                        old(world)@,
                        world@,
                        mask@,
                        px,
                        py,
                        pz,
                        i + 1,
                    ) by {
                        let g0 = old(world)@;
                        let p = index_of(px, py, pz);
                        let c = index_of(x as int, y as int, z as int);
                        crate::model::lemma_coords_index_roundtrip(px, py, pz);
                        crate::model::lemma_index_coords_roundtrip(i as int);
                        // the only non-Air cell the sweep can meet is the
                        // powder cell itself
                        assert(i == p) by {
                            if i < p {
                                assert(w_pre[i as int] == g0[i as int]);
                            } else if i > p {
                                if py > 0 {
                                    let b = index_of(px, py - 1, pz);
                                    assert(b < p);
                                    assert(w_pre == g0.update(b, g0[p]).update(
                                        p,
                                        VoxelMaterial::Air,
                                    ));
                                    assert(w_pre[i as int] == g0[i as int]);
                                } else {
                                    assert(w_pre[i as int] == g0[i as int]);
                                }
                            }
                        }
                        assert(x as int == px && y as int == py && z as int == pz);
                        let m0 = g0[p];
                        if py > 0 {
                            let b = index_of(px, py - 1, pz);
                            crate::model::lemma_coords_index_roundtrip(px, py - 1, pz);
                            assert(b != p);
                            assert(g0[b] == VoxelMaterial::Air);
                            assert(can_enter(m0, w_pre[b]));
                            assert(w_mid == g0.update(b, m0).update(p, VoxelMaterial::Air));
                            assert(w_mid[p] == VoxelMaterial::Air);
                            assert(!reaction_fired(
                                w_mid,
                                world@,
                                x as int,
                                y as int,
                                z as int,
                            )) by {
                                assert(reactions_spec(VoxelMaterial::Air).len() == 0);
                            }
                            assert(world@ == w_mid);
                        } else {
                            assert(w_mid == g0 && mask_mid == mask_pre);
                            lemma_powder_reactions_not_air(m0);
                            assert(!reaction_fired(
                                w_mid,
                                world@,
                                x as int,
                                y as int,
                                z as int,
                            )) by {
                                if reaction_fired(w_mid, world@, x as int, y as int, z as int) {
                                    let (j, k) = choose|j: int, k: int|
                                        0 <= j < reactions_spec(w_mid[c]).len() && 0 <= k
                                            < all_offsets().len() && valid_coords(
                                            px + #[trigger] all_offsets()[k].0,
                                            py + all_offsets()[k].1,
                                            pz + all_offsets()[k].2,
                                        ) && w_mid[index_of(
                                            px + all_offsets()[k].0,
                                            py + all_offsets()[k].1,
                                            pz + all_offsets()[k].2,
                                        )] == #[trigger] reactions_spec(
                                            w_mid[c],
                                        )[j].other_material && world@ == w_mid.update(
                                            c,
                                            reactions_spec(w_mid[c])[j].first_product,
                                        ).update(
                                            index_of(
                                                px + all_offsets()[k].0,
                                                py + all_offsets()[k].1,
                                                pz + all_offsets()[k].2,
                                            ),
                                            reactions_spec(w_mid[c])[j].second_product,
                                        );
                                    let pi = index_of(
                                        px + all_offsets()[k].0,
                                        py + all_offsets()[k].1,
                                        pz + all_offsets()[k].2,
                                    );
                                    crate::model::lemma_coords_index_roundtrip(
                                        px + all_offsets()[k].0,
                                        py + all_offsets()[k].1,
                                        pz + all_offsets()[k].2,
                                    );
                                    assert(pi != p);
                                    assert(w_mid[pi] == VoxelMaterial::Air);
                                    assert(false);
                                }
                            }
                            assert(world@ == w_mid);
                        }
                    }
                }
            } else {
                proof {
                    assert forall|px: int, py: int, pz: int|
                        single_powder(old(world)@, px, py, pz) implies single_powder_progress(
                        old(world)@,
                        world@,
                        mask@,
                        px,
                        py,
                        pz,
                        i + 1,
                    ) by {
                        let g0 = old(world)@;
                        let p = index_of(px, py, pz);
                        crate::model::lemma_coords_index_roundtrip(px, py, pz);
                        if i == p {
                            assert(w_pre[p] == g0[p]);
                            assert(false);
                        }
                    }
                }
            }
            i += 1;
        }
        proof {
            assert forall|px: int, py: int, pz: int|
                single_powder(old(world)@, px, py, pz) implies ((py > 0 ==> world@ == old(
                world,
            )@.update(index_of(px, py - 1, pz), old(world)@[index_of(px, py, pz)]).update(
                index_of(px, py, pz),
                VoxelMaterial::Air,
            )) && (py == 0 ==> world@ == old(world)@)) by {
                crate::model::lemma_coords_index_roundtrip(px, py, pz);
            }
        }
    }
}

} // verus!
