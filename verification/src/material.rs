//! Material registry: the static mapping from a material tag to its physical
//! properties (type, weight, activity) and its reaction table.
//!
//! Probabilities are carried as per-mille values (an integer in `[0, 1000]`,
//! `1000` meaning certainty), so that a probability of `1000` or more means
//! "always".

use vstd::prelude::*;

verus! {

/// The substance occupying a grid cell. `Air` is the sentinel "empty" value;
/// it has no physical properties and no reactions.
#[derive(Clone, Copy, Debug, PartialEq, Eq, Structural)]
pub enum VoxelMaterial {
    Air,
    Sand,
    Water,
    Metal,
    Salt,
    SaltWater,
    Steam,
    Lava,
    Stone,
    Wood,
    Fire,
    Oil,
    Ice,
}

/// The broad physical class a material belongs to, deciding which movement
/// rule the simulation applies to it.
#[derive(Clone, Copy, Debug, PartialEq, Eq, Structural)]
pub enum MaterialType {
    LIQUID,
    POWDER,
    SOLID,
    GAS,
}

/// Physical properties of one material: its movement class, its density score
/// used for displacement, and its activity (the per-mille probability per tick
/// that it attempts movement beyond pure gravity).
#[derive(Clone, Copy, Debug, PartialEq, Eq, Structural)]
pub struct MaterialProperties {
    pub material_type: MaterialType,
    pub weight: u32,
    pub activity: u32,
}

/// One reaction rule: when the owning material is adjacent to
/// `other_material`, with chance `probability` (per-mille) per tick, the
/// owning cell becomes `first_product` and the partner cell becomes
/// `second_product`.
#[derive(Clone, Copy, Debug, PartialEq, Eq, Structural)]
pub struct MaterialReactions {
    pub other_material: VoxelMaterial,
    pub first_product: VoxelMaterial,
    pub second_product: VoxelMaterial,
    pub probability: u32,
}

/// The numeric identifier of each material.
pub open spec fn id_spec(m: VoxelMaterial) -> u32 {
    match m {
        VoxelMaterial::Air => 0,
        VoxelMaterial::Sand => 1,
        VoxelMaterial::Water => 2,
        VoxelMaterial::Metal => 3,
        VoxelMaterial::Salt => 4,
        VoxelMaterial::SaltWater => 5,
        VoxelMaterial::Steam => 6,
        VoxelMaterial::Stone => 7,
        VoxelMaterial::Lava => 8,
        VoxelMaterial::Wood => 9,
        VoxelMaterial::Fire => 10,
        VoxelMaterial::Oil => 11,
        VoxelMaterial::Ice => 12,
    }
}

/// Distinct materials have distinct identifiers, so comparing identifiers
/// compares materials.
pub proof fn lemma_id_injective(a: VoxelMaterial, b: VoxelMaterial)
    requires
        id_spec(a) == id_spec(b),
    ensures
        a == b,
{
}

impl VoxelMaterial {
    /// The numeric identifier of this material.
    pub fn get_id(&self) -> (r: u32)
        ensures
            r == id_spec(*self),
    {
        match self {
            Self::Air => 0,
            Self::Sand => 1,
            Self::Water => 2,
            Self::Metal => 3,
            Self::Salt => 4,
            Self::SaltWater => 5,
            Self::Steam => 6,
            Self::Stone => 7,
            Self::Lava => 8,
            Self::Wood => 9,
            Self::Fire => 10,
            Self::Oil => 11,
            Self::Ice => 12,
        }
    }
}

/// The properties of each material. Air is never simulated and has no
/// properties; its entry here is a placeholder that no contract relies on,
/// since every caller excludes Air first.
pub open spec fn props_spec(m: VoxelMaterial) -> MaterialProperties {
    match m {
        VoxelMaterial::Air => MaterialProperties {
            material_type: MaterialType::SOLID,
            weight: 0,
            activity: 0,
        },
        VoxelMaterial::Sand => MaterialProperties {
            material_type: MaterialType::POWDER,
            weight: 10,
            activity: 1000,
        },
        VoxelMaterial::Water => MaterialProperties {
            material_type: MaterialType::LIQUID,
            weight: 5,
            activity: 1000,
        },
        VoxelMaterial::Metal => MaterialProperties {
            material_type: MaterialType::SOLID,
            weight: 100,
            activity: 0,
        },
        VoxelMaterial::Salt => MaterialProperties {
            material_type: MaterialType::POWDER,
            weight: 10,
            activity: 1000,
        },
        VoxelMaterial::SaltWater => MaterialProperties {
            material_type: MaterialType::LIQUID,
            weight: 6,
            activity: 1000,
        },
        VoxelMaterial::Steam => MaterialProperties {
            material_type: MaterialType::GAS,
            weight: 1,
            activity: 900,
        },
        VoxelMaterial::Lava => MaterialProperties {
            material_type: MaterialType::LIQUID,
            weight: 9,
            activity: 200,
        },
        VoxelMaterial::Stone => MaterialProperties {
            material_type: MaterialType::POWDER,
            weight: 10,
            activity: 50,
        },
        VoxelMaterial::Wood => MaterialProperties {
            material_type: MaterialType::SOLID,
            weight: 100,
            activity: 0,
        },
        VoxelMaterial::Fire => MaterialProperties {
            material_type: MaterialType::GAS,
            weight: 1,
            activity: 300,
        },
        VoxelMaterial::Oil => MaterialProperties {
            material_type: MaterialType::LIQUID,
            weight: 4,
            activity: 1000,
        },
        VoxelMaterial::Ice => MaterialProperties {
            material_type: MaterialType::SOLID,
            weight: 100,
            activity: 0,
        },
    }
}

impl MaterialProperties {
    /// Look up the properties of a non-Air material. Air is never simulated,
    /// so it is excluded by the precondition.
    pub fn new(material: &VoxelMaterial) -> (r: MaterialProperties)
        requires
            *material != VoxelMaterial::Air,
        ensures
            r == props_spec(*material),
    {
        match material {
            VoxelMaterial::Air => {
                // excluded by the precondition
                MaterialProperties {
                    material_type: MaterialType::SOLID,
                    weight: 0,
                    activity: 0,
                }
            },
            VoxelMaterial::Sand => MaterialProperties {
                material_type: MaterialType::POWDER,
                weight: 10,
                activity: 1000,
            },
            VoxelMaterial::Water => MaterialProperties {
                material_type: MaterialType::LIQUID,
                weight: 5,
                activity: 1000,
            },
            VoxelMaterial::Metal => MaterialProperties {
                material_type: MaterialType::SOLID,
                weight: 100,
                activity: 0,
            },
            VoxelMaterial::Salt => MaterialProperties {
                material_type: MaterialType::POWDER,
                weight: 10,
                activity: 1000,
            },
            VoxelMaterial::SaltWater => MaterialProperties {
                material_type: MaterialType::LIQUID,
                weight: 6,
                activity: 1000,
            },
            VoxelMaterial::Steam => MaterialProperties {
                material_type: MaterialType::GAS,
                weight: 1,
                activity: 900,
            },
            VoxelMaterial::Lava => MaterialProperties {
                material_type: MaterialType::LIQUID,
                weight: 9,
                activity: 200,
            },
            VoxelMaterial::Stone => MaterialProperties {
                material_type: MaterialType::POWDER,
                weight: 10,
                activity: 50,
            },
            VoxelMaterial::Wood => MaterialProperties {
                material_type: MaterialType::SOLID,
                weight: 100,
                activity: 0,
            },
            VoxelMaterial::Fire => MaterialProperties {
                material_type: MaterialType::GAS,
                weight: 1,
                activity: 300,
            },
            VoxelMaterial::Oil => MaterialProperties {
                material_type: MaterialType::LIQUID,
                weight: 4,
                activity: 1000,
            },
            VoxelMaterial::Ice => MaterialProperties {
                material_type: MaterialType::SOLID,
                weight: 100,
                activity: 0,
            },
        }
    }
}

/// The reaction table of each material: the list of candidate reactions the
/// material attempts against its neighbours. Materials with no reactions,
/// Air included, map to the empty list.
pub open spec fn reactions_spec(m: VoxelMaterial) -> Seq<MaterialReactions> {
    match m {
        VoxelMaterial::Salt => seq![
            MaterialReactions {
                other_material: VoxelMaterial::Water,
                first_product: VoxelMaterial::Air,
                second_product: VoxelMaterial::SaltWater,
                probability: 100,
            },
        ],
        VoxelMaterial::Steam => seq![
            MaterialReactions {
                other_material: VoxelMaterial::Air,
                first_product: VoxelMaterial::Water,
                second_product: VoxelMaterial::Air,
                probability: 10,
            },
        ],
        VoxelMaterial::Lava => seq![
            MaterialReactions {
                other_material: VoxelMaterial::Water,
                first_product: VoxelMaterial::Stone,
                second_product: VoxelMaterial::Steam,
                probability: 1000,
            },
            MaterialReactions {
                other_material: VoxelMaterial::Oil,
                first_product: VoxelMaterial::Lava,
                second_product: VoxelMaterial::Fire,
                probability: 1000,
            },
            MaterialReactions {
                other_material: VoxelMaterial::Ice,
                first_product: VoxelMaterial::Stone,
                second_product: VoxelMaterial::Steam,
                probability: 1000,
            },
            MaterialReactions {
                other_material: VoxelMaterial::SaltWater,
                first_product: VoxelMaterial::Stone,
                second_product: VoxelMaterial::Steam,
                probability: 1000,
            },
            MaterialReactions {
                other_material: VoxelMaterial::Wood,
                first_product: VoxelMaterial::Lava,
                second_product: VoxelMaterial::Fire,
                probability: 900,
            },
        ],
        VoxelMaterial::Fire => seq![
            MaterialReactions {
                other_material: VoxelMaterial::Air,
                first_product: VoxelMaterial::Air,
                second_product: VoxelMaterial::Air,
                probability: 30,
            },
            MaterialReactions {
                other_material: VoxelMaterial::Wood,
                first_product: VoxelMaterial::Fire,
                second_product: VoxelMaterial::Fire,
                probability: 600,
            },
            MaterialReactions {
                other_material: VoxelMaterial::Oil,
                first_product: VoxelMaterial::Fire,
                second_product: VoxelMaterial::Fire,
                probability: 1000,
            },
            MaterialReactions {
                other_material: VoxelMaterial::Water,
                first_product: VoxelMaterial::Air,
                second_product: VoxelMaterial::Steam,
                probability: 1000,
            },
            MaterialReactions {
                other_material: VoxelMaterial::SaltWater,
                first_product: VoxelMaterial::Air,
                second_product: VoxelMaterial::Steam,
                probability: 1000,
            },
            MaterialReactions {
                other_material: VoxelMaterial::Ice,
                first_product: VoxelMaterial::Air,
                second_product: VoxelMaterial::Water,
                probability: 1000,
            },
        ],
        VoxelMaterial::Ice => seq![
            MaterialReactions {
                other_material: VoxelMaterial::Water,
                first_product: VoxelMaterial::Ice,
                second_product: VoxelMaterial::Ice,
                probability: 20,
            },
        ],
        _ => seq![],
    }
}

impl MaterialReactions {
    /// Build the reaction list of a material. Materials with no reactions
    /// yield an empty list; that is not an error.
    pub fn new(material: &VoxelMaterial) -> (r: Vec<MaterialReactions>)
        ensures
            r@ == reactions_spec(*material),
    {
        let mut r: Vec<MaterialReactions> = Vec::new();
        match material {
            VoxelMaterial::Salt => {
                r.push(MaterialReactions {
                    other_material: VoxelMaterial::Water,
                    first_product: VoxelMaterial::Air,
                    second_product: VoxelMaterial::SaltWater,
                    probability: 100,
                });
            },
            VoxelMaterial::Steam => {
                r.push(MaterialReactions {
                    other_material: VoxelMaterial::Air,
                    first_product: VoxelMaterial::Water,
                    second_product: VoxelMaterial::Air,
                    probability: 10,
                });
            },
            VoxelMaterial::Lava => {
                r.push(MaterialReactions {
                    other_material: VoxelMaterial::Water,
                    first_product: VoxelMaterial::Stone,
                    second_product: VoxelMaterial::Steam,
                    probability: 1000,
                });
                r.push(MaterialReactions {
                    other_material: VoxelMaterial::Oil,
                    first_product: VoxelMaterial::Lava,
                    second_product: VoxelMaterial::Fire,
                    probability: 1000,
                });
                r.push(MaterialReactions {
                    other_material: VoxelMaterial::Ice,
                    first_product: VoxelMaterial::Stone,
                    second_product: VoxelMaterial::Steam,
                    probability: 1000,
                });
                r.push(MaterialReactions {
                    other_material: VoxelMaterial::SaltWater,
                    first_product: VoxelMaterial::Stone,
                    second_product: VoxelMaterial::Steam,
                    probability: 1000,
                });
                r.push(MaterialReactions {
                    other_material: VoxelMaterial::Wood,
                    first_product: VoxelMaterial::Lava,
                    second_product: VoxelMaterial::Fire,
                    probability: 900,
                });
            },
            VoxelMaterial::Fire => {
                r.push(MaterialReactions {
                    other_material: VoxelMaterial::Air,
                    first_product: VoxelMaterial::Air,
                    second_product: VoxelMaterial::Air,
                    probability: 30,
                });
                r.push(MaterialReactions {
                    other_material: VoxelMaterial::Wood,
                    first_product: VoxelMaterial::Fire,
                    second_product: VoxelMaterial::Fire,
                    probability: 600,
                });
                r.push(MaterialReactions {
                    other_material: VoxelMaterial::Oil,
                    first_product: VoxelMaterial::Fire,
                    second_product: VoxelMaterial::Fire,
                    probability: 1000,
                });
                r.push(MaterialReactions {
                    other_material: VoxelMaterial::Water,
                    first_product: VoxelMaterial::Air,
                    second_product: VoxelMaterial::Steam,
                    probability: 1000,
                });
                r.push(MaterialReactions {
                    other_material: VoxelMaterial::SaltWater,
                    first_product: VoxelMaterial::Air,
                    second_product: VoxelMaterial::Steam,
                    probability: 1000,
                });
                r.push(MaterialReactions {
                    other_material: VoxelMaterial::Ice,
                    first_product: VoxelMaterial::Air,
                    second_product: VoxelMaterial::Water,
                    probability: 1000,
                });
            },
            VoxelMaterial::Ice => {
                r.push(MaterialReactions {
                    other_material: VoxelMaterial::Water,
                    first_product: VoxelMaterial::Ice,
                    second_product: VoxelMaterial::Ice,
                    probability: 20,
                });
            },
            _ => {},
        }
        proof {
            assert(r@ =~= reactions_spec(*material));
        }
        r
    }
}

} // verus!
