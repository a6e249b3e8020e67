//! Materials and the columnar store of single-sphere entities.
use vstd::prelude::*;
use std::collections::HashMap;
use crate::fixed::{fx_mul, fx_mul_spec, mul_div, mul_div_spec};
use crate::vector::{Mat3, Vec3};

verus! {

/// The physical parameters that entities of one kind share.
#[derive(Debug, Clone, Copy, PartialEq, Eq, Structural)]
pub struct Material {
    pub radius: i64,
    pub mass: i64,
    pub youngs_mod: i64,
    pub poisson_ratio: i64,
    pub density: i64,
    pub id: i32,
}

/// `pi`, as a raw value.
pub const PI: i64 = 3_141_593;

/// The volume of a sphere of radius `r`: `r` cubed, times `pi`, times four
/// thirds.
pub open spec fn sphere_volume_spec(r: int) -> Option<i64> {
    match fx_mul_spec(r, r) {
        Some(square) => match fx_mul_spec(square as int, r) {
            Some(cube) => match fx_mul_spec(cube as int, PI as int) {
                Some(scaled) => mul_div_spec(scaled as int, 4, 3),
                None => None,
            },
            None => None,
        },
        None => None,
    }
}

pub fn sphere_volume(r: i64) -> (v: Option<i64>)
    ensures
        v == sphere_volume_spec(r as int),
{
    let square: i64 = fx_mul(r, r)?;
    let cube: i64 = fx_mul(square, r)?;
    let scaled: i64 = fx_mul(cube, PI)?;
    mul_div(scaled, 4, 3)
}

/// The mass of a sphere of radius `r` and density `density`.
pub open spec fn sphere_mass_spec(r: int, density: int) -> Option<i64> {
    match sphere_volume_spec(r) {
        Some(v) => fx_mul_spec(density, v as int),
        None => None,
    }
}

impl Material {
    /// The material of spheres of radius `radius` and density `density`, with
    /// the mass that follows from the two; `None` where the mass has no `i64`
    /// representation.
    pub fn new(id: i32, radius: i64, density: i64, youngs_mod: i64, poisson_ratio: i64) -> (m: Option<
        Material,
    >)
        ensures
            m == (match sphere_mass_spec(radius as int, density as int) {
                Some(mass) => Some(Material { radius, mass, youngs_mod, poisson_ratio, density, id }),
                None => None,
            }),
    {
        let volume: i64 = sphere_volume(radius)?;
        let mass: i64 = fx_mul(density, volume)?;
        Some(Material { radius, mass, youngs_mod, poisson_ratio, density, id })
    }
}

/// The effective radius and effective Young's modulus of a pair of materials.
#[derive(Debug, Clone, Copy, PartialEq, Eq, Structural)]
pub struct EffectiveMaterialPreCalc {
    pub eff_radius: i64,
    pub eff_youngs_mod: i64,
}

/// The entities, one column per quantity: index `i` is the same entity in
/// every column.
#[derive(Debug, Clone, PartialEq)]
pub struct ParticleData {
    pub radius: Vec<i64>,
    pub max_radius: i64,
    pub mass: Vec<i64>,
    pub youngs_mod: Vec<i64>,
    pub poisson_ratio: Vec<i64>,
    pub density: Vec<i64>,
    pub position: Vec<Vec3>,
    pub velocity: Vec<Vec3>,
    pub force: Vec<Vec3>,
    pub is_collision: Vec<bool>,
    pub materials: Vec<Material>,
    pub sphere_material: Vec<i32>,
    pub sphere_material_map: HashMap<u64, EffectiveMaterialPreCalc>,
    pub restitution_coefficient: i64,
    pub beta: i64,
    pub friction: i64,
    pub volume_fraction: i64,
}

/// What the contacts of one force evaluation contributed: the pairs, the force
/// on the second entity of each, the separation vectors, and the
/// force-times-separation tensors.
#[derive(Debug, Clone, PartialEq)]
pub struct ForceData {
    pub particle_indexes: Vec<(usize, usize)>,
    pub force: Vec<Vec3>,
    pub del: Vec<Vec3>,
    pub forcedata: Vec<Mat3>,
}

/// The store as plain sequences, one per column: what the contracts of the
/// engine speak of.
pub struct ParticleView {
    pub radius: Seq<i64>,
    pub max_radius: i64,
    pub mass: Seq<i64>,
    pub youngs_mod: Seq<i64>,
    pub poisson_ratio: Seq<i64>,
    pub density: Seq<i64>,
    pub position: Seq<Vec3>,
    pub velocity: Seq<Vec3>,
    pub force: Seq<Vec3>,
    pub is_collision: Seq<bool>,
    pub materials: Seq<Material>,
    pub sphere_material: Seq<i32>,
    pub sphere_material_map: Map<u64, EffectiveMaterialPreCalc>,
    pub restitution_coefficient: i64,
    pub beta: i64,
    pub friction: i64,
    pub volume_fraction: i64,
}

impl View for ParticleData {
    type V = ParticleView;

    open spec fn view(&self) -> ParticleView {
        ParticleView {
            radius: self.radius@,
            max_radius: self.max_radius,
            mass: self.mass@,
            youngs_mod: self.youngs_mod@,
            poisson_ratio: self.poisson_ratio@,
            density: self.density@,
            position: self.position@,
            velocity: self.velocity@,
            force: self.force@,
            is_collision: self.is_collision@,
            materials: self.materials@,
            sphere_material: self.sphere_material@,
            sphere_material_map: self.sphere_material_map@,
            restitution_coefficient: self.restitution_coefficient,
            beta: self.beta,
            friction: self.friction,
            volume_fraction: self.volume_fraction,
        }
    }
}

impl ParticleView {
    /// The number of entities.
    pub open spec fn count(self) -> int {
        self.radius.len() as int
    }

    /// Well-formedness: every column has one entry per entity.
    pub open spec fn wf(self) -> bool {
        &&& self.mass.len() == self.count()
        &&& self.youngs_mod.len() == self.count()
        &&& self.poisson_ratio.len() == self.count()
        &&& self.density.len() == self.count()
        &&& self.position.len() == self.count()
        &&& self.velocity.len() == self.count()
        &&& self.force.len() == self.count()
        &&& self.is_collision.len() == self.count()
        &&& self.sphere_material.len() == self.count()
    }
}

impl ParticleData {
    /// The number of entities.
    pub open spec fn count(self) -> int {
        self@.count()
    }

    /// Well-formedness: every column has one entry per entity.
    pub open spec fn wf(self) -> bool {
        self@.wf()
    }

    /// Whether every column has one entry per entity.
    pub fn is_well_formed(&self) -> (r: bool)
        ensures
            r == self.wf(),
    {
        let n: usize = self.radius.len();
        self.mass.len() == n && self.youngs_mod.len() == n && self.poisson_ratio.len() == n
            && self.density.len() == n && self.position.len() == n && self.velocity.len() == n
            && self.force.len() == n && self.is_collision.len() == n && self.sphere_material.len() == n
    }

    /// A store without entities or materials, with the given restitution
    /// coefficient and the damping coefficient that belongs to it.
    pub fn new(restitution_coefficient: i64, beta: i64) -> (p: ParticleData)
        ensures
            p.wf(),
            p.count() == 0,
            p@.materials.len() == 0,
            p@.sphere_material_map == Map::<u64, EffectiveMaterialPreCalc>::empty(),
            p@.max_radius == 0,
            p@.restitution_coefficient == restitution_coefficient,
            p@.beta == beta,
            p@.friction == 0,
            p@.volume_fraction == 0,
    {
        ParticleData {
            radius: Vec::new(),
            max_radius: 0,
            mass: Vec::new(),
            youngs_mod: Vec::new(),
            poisson_ratio: Vec::new(),
            density: Vec::new(),
            position: Vec::new(),
            velocity: Vec::new(),
            force: Vec::new(),
            is_collision: Vec::new(),
            materials: Vec::new(),
            sphere_material: Vec::new(),
            sphere_material_map: HashMap::new(),
            restitution_coefficient,
            beta,
            friction: 0,
            volume_fraction: 0,
        }
    }

    /// Registers a material. The largest radius on record grows to the
    /// material's radius where that is larger.
    pub fn add_material(&mut self, material: Material)
        requires
            old(self).wf(),
        ensures
            final(self).wf(),
            final(self)@ == (ParticleView {
                materials: old(self)@.materials.push(material),
                max_radius: if material.radius > old(self)@.max_radius {
                    material.radius
                } else {
                    old(self)@.max_radius
                },
                ..old(self)@
            }),
    {
        if material.radius > self.max_radius {
            self.max_radius = material.radius;
        }
        self.materials.push(material);
    }

    /// Adds a sphere of the given material at `position`, moving with
    /// `velocity`, with no force on it, and gives its index.
    pub fn add_sphere(&mut self, material: &Material, position: Vec3, velocity: Vec3) -> (index: usize)
        requires
            old(self).wf(),
        ensures
            final(self).wf(),
            index == old(self).count(),
            final(self)@ == (ParticleView {
                radius: old(self)@.radius.push(material.radius),
                mass: old(self)@.mass.push(material.mass),
                youngs_mod: old(self)@.youngs_mod.push(material.youngs_mod),
                poisson_ratio: old(self)@.poisson_ratio.push(material.poisson_ratio),
                density: old(self)@.density.push(material.density),
                position: old(self)@.position.push(position),
                velocity: old(self)@.velocity.push(velocity),
                force: old(self)@.force.push(Vec3::zero_spec()),
                is_collision: old(self)@.is_collision.push(false),
                sphere_material: old(self)@.sphere_material.push(material.id),
                ..old(self)@
            }),
    {
        let index: usize = self.radius.len();
        self.sphere_material.push(material.id);
        self.radius.push(material.radius);
        self.mass.push(material.mass);
        self.density.push(material.density);
        self.youngs_mod.push(material.youngs_mod);
        self.poisson_ratio.push(material.poisson_ratio);
        self.position.push(position);
        self.velocity.push(velocity);
        self.force.push(Vec3::zero());
        self.is_collision.push(false);
        index
    }
}

impl ForceData {
    /// An empty record.
    pub fn new() -> (f: ForceData)
        ensures
            f.particle_indexes@.len() == 0,
            f.force@.len() == 0,
            f.del@.len() == 0,
            f.forcedata@.len() == 0,
    {
        ForceData { particle_indexes: Vec::new(), force: Vec::new(), del: Vec::new(), forcedata: Vec::new() }
    }
}

} // verus!
