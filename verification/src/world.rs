//! The simulation world: the grid, the particle population and the phase
//! scalar, advanced together one tick at a time.
//!
//! A tick is a pure function of the previous state: the phase grows by the
//! given increment, every grid cell is resampled at the new phase, and every
//! particle steps under the clamped force of the cell it stands in. The
//! contract of [`SimulationWorld::tick`] pins each piece of the new state
//! exactly, so two worlds in the same state stay in lockstep forever.

use vstd::prelude::*;

verus! {

use vstd::arithmetic::div_mod::lemma_fundamental_div_mod_converse_mod;
use vstd::arithmetic::div_mod::lemma_fundamental_div_mod_converse_div;
use vstd::pervasive::VecAdditionalExecFns;

use crate::fixed::{BOUND_LIMIT, FORCE_COMP_LIMIT, ONE, PHASE_LIMIT};
use crate::grid::{FlowGrid, spec_cell_col, spec_cell_row, spec_field_vector};
use crate::particle::{Particle, ParticleV, spec_apply_force, spec_update};
use crate::real_vector::{RealVector, V2, spec_bring_to_box, spec_limit};

/// The fixed parameters of a simulation: box size, lattice, population,
/// speed band, force clamp band, field frequency and phase step.
#[derive(Clone, Copy, Debug, PartialEq, Eq, Structural)]
pub struct SimulationConfig {
    /// Box width in whole world units.
    pub width: i64,
    /// Box height in whole world units.
    pub height: i64,
    /// Grid cell side in whole world units; divides both box sides.
    pub cell_size: i64,
    /// Length every cell's field vector is brought to, in fixed point.
    pub cell_length: i64,
    /// Number of particles.
    pub particle_count: usize,
    /// Lower speed bound of every particle, in fixed point.
    pub min_speed: i64,
    /// Upper speed bound of every particle, in fixed point.
    pub max_speed: i64,
    /// Lower magnitude bound of the force clamp, in fixed point.
    pub force_min: i64,
    /// Upper magnitude bound of the force clamp, in fixed point.
    pub force_max: i64,
    /// Spatial frequency of the field: angle per grid index, fixed point.
    pub angle_scale: i64,
    /// Phase increment of one tick, in fixed point.
    pub phase_step: i64,
}

impl SimulationConfig {
    /// A usable configuration: the lattice tiles the box, the bands are
    /// ordered, and every scalar sits in the library's working range.
    pub open spec fn wf(self) -> bool {
        &&& 1 <= self.cell_size <= self.width <= 1_500
        &&& self.cell_size <= self.height <= 1_500
        &&& self.width % self.cell_size == 0
        &&& self.height % self.cell_size == 0
        &&& 0 <= self.cell_length <= BOUND_LIMIT
        &&& 0 <= self.min_speed <= self.max_speed <= BOUND_LIMIT
        &&& 0 <= self.force_min <= self.force_max <= FORCE_COMP_LIMIT
        &&& 0 <= self.angle_scale <= 10_000_000
        &&& 0 <= self.phase_step <= ONE
        &&& self.particle_count <= 1_000_000
    }
}

/// The stock configuration: a 1280 by 720 box, 20-unit cells with arrows
/// 12 units long, five thousand particles with speeds in `[0.3, 2.0]`,
/// forces clamped into `[0.01, 0.10]`, field frequency `0.2` and a phase
/// step of `0.02` per tick.
pub open spec fn spec_default_config() -> SimulationConfig {
    SimulationConfig {
        width: 1_280,
        height: 720,
        cell_size: 20,
        cell_length: 12_000_000,
        particle_count: 5_000,
        min_speed: 300_000,
        max_speed: 2_000_000,
        force_min: 10_000,
        force_max: 100_000,
        angle_scale: 200_000,
        phase_step: 20_000,
    }
}

impl Default for SimulationConfig {
    /// The stock configuration.
    fn default() -> (c: SimulationConfig)
        ensures
            c == spec_default_config(),
            c.wf(),
    {
        SimulationConfig {
            width: 1_280,
            height: 720,
            cell_size: 20,
            cell_length: 12_000_000,
            particle_count: 5_000,
            min_speed: 300_000,
            max_speed: 2_000_000,
            force_min: 10_000,
            force_max: 100_000,
            angle_scale: 200_000,
            phase_step: 20_000,
        }
    }
}

/// Where particle number `k` starts: at `(10 k, 10 k)` world units wrapped
/// into the box, moving straight down the y axis at the speed floor.
pub open spec fn spec_initial_particle(k: int, cfg: SimulationConfig) -> ParticleV {
    ParticleV {
        position: spec_bring_to_box(
            V2 { x: k * 10 * ONE, y: k * 10 * ONE },
            cfg.width as int,
            cfg.height as int,
        ),
        velocity: V2 { x: 0, y: cfg.min_speed as int },
        min_speed: cfg.min_speed as int,
        max_speed: cfg.max_speed as int,
    }
}

/// One particle's step at a given phase: the field vector of the cell under
/// it, clamped into the force band, lands on the velocity, which is clamped
/// back into the speed band; then the position advances and wraps.
pub open spec fn spec_step_particle(p: ParticleV, phase: int, cfg: SimulationConfig) -> ParticleV {
    let col = spec_cell_col(p.position, cfg.cell_size as int);
    let row = spec_cell_row(p.position, cfg.cell_size as int);
    let field = spec_field_vector(
        col,
        row,
        phase,
        cfg.angle_scale as int,
        cfg.cell_length as int,
    );
    let force = spec_limit(field, cfg.force_min as int, cfg.force_max as int);
    spec_update(spec_apply_force(p, force), cfg.width as int, cfg.height as int)
}

/// The whole simulation: configuration, grid, particles and phase.
pub struct SimulationWorld {
    pub config: SimulationConfig,
    pub grid: FlowGrid,
    pub particles: Vec<Particle>,
    pub phase: i64,
}

impl SimulationWorld {
    /// The world's invariant: a usable configuration, a grid that matches
    /// it, and one well-formed particle per head of population, each inside
    /// the box and carrying the configured speed band.
    pub open spec fn wf(self) -> bool {
        &&& self.config.wf()
        &&& self.grid.wf()
        &&& self.grid.width == self.config.width
        &&& self.grid.height == self.config.height
        &&& self.grid.cell_size == self.config.cell_size
        &&& 0 <= self.phase <= PHASE_LIMIT
        &&& self.particles@.len() == self.config.particle_count
        &&& forall|k: int|
            0 <= k < self.particles@.len() ==> {
                let p = (#[trigger] self.particles@[k])@;
                &&& p.wf()
                &&& p.min_speed == self.config.min_speed
                &&& p.max_speed == self.config.max_speed
                &&& 0 <= p.position.x < self.config.width * ONE
                &&& 0 <= p.position.y < self.config.height * ONE
            }
    }

    /// Builds a world: the grid lattice for the configured box, and the
    /// population seeded along the diagonal, ten units apart, wrapped into
    /// the box, all moving at the speed floor.
    pub fn new(config: SimulationConfig) -> (w: SimulationWorld)
        requires
            config.wf(),
        ensures
            w.wf(),
            w.config == config,
            w.phase == 0,
            forall|k: int|
                0 <= k < w.particles@.len() ==> (#[trigger] w.particles@[k])@
                    == spec_initial_particle(k, config),
            forall|j: int|
                0 <= j < w.grid.cells@.len() ==> (#[trigger] w.grid.cells@[j])@.field_vector == (V2 {
                    x: config.cell_length as int,
                    y: 0,
                }),
    {
        let grid = FlowGrid::new(config.width, config.height, config.cell_size, config.cell_length);
        let mut particles: Vec<Particle> = Vec::new();
        let mut k: usize = 0;
        while k < config.particle_count
            invariant
                config.wf(),
                particles@.len() == k,
                k <= config.particle_count,
                forall|j: int|
                    0 <= j < k ==> (#[trigger] particles@[j])@ == spec_initial_particle(j, config),
                forall|j: int|
                    0 <= j < k ==> (#[trigger] particles@[j])@.wf() && 0 <= particles@[j].position.x
                        < config.width * ONE && 0 <= particles@[j].position.y < config.height * ONE,
            decreases config.particle_count - k,
        {
            assert(0 <= (k as int) * 10_000_000 <= 10_000_000_000_000) by (nonlinear_arith)
                requires
                    0 <= k <= 1_000_000,
            ;
            let raw = RealVector { x: (k as i64) * (10 * ONE), y: (k as i64) * (10 * ONE) };
            assert(raw@.x == (k as int) * 10 * ONE) by (nonlinear_arith)
                requires
                    raw@.x == (k as int) * (10 * ONE),
                    ONE == 1_000_000,
            ;
            let position = raw.bring_to_box(config.width, config.height);
            let velocity = RealVector { x: 0, y: config.min_speed };
            let p = Particle::new(position, velocity, config.min_speed, config.max_speed);
            particles.push(p);
            k = k + 1;
        }
        SimulationWorld { config, grid, particles, phase: 0 }
    }

    /// Advances the world one tick: the phase grows by `dt_phase`, the grid
    /// is resampled at the new phase, and every particle steps under its
    /// cell's clamped field vector.
    pub fn tick(&mut self, dt_phase: i64)
        requires
            old(self).wf(),
            0 <= dt_phase <= ONE,
            old(self).phase + dt_phase <= PHASE_LIMIT,
        ensures
            final(self).wf(),
            final(self).config == old(self).config,
            final(self).phase == old(self).phase + dt_phase,
            final(self).grid.cells@.len() == old(self).grid.cells@.len(),
            final(self).grid.rows == old(self).grid.rows,
            final(self).grid.columns == old(self).grid.columns,
            forall|j: int|
                0 <= j < final(self).grid.cells@.len() ==> (#[trigger] final(self).grid.cells@[j])@.anchor
                    == old(self).grid.cells@[j]@.anchor,
            forall|j: int|
                0 <= j < final(self).grid.cells@.len() ==> (#[trigger] final(self).grid.cells@[j])@.field_vector
                    == spec_field_vector(
                    j / final(self).grid.rows as int,
                    j % final(self).grid.rows as int,
                    old(self).phase + dt_phase,
                    old(self).config.angle_scale as int,
                    old(self).config.cell_length as int,
                ),
            final(self).particles@.len() == old(self).particles@.len(),
            forall|k: int|
                0 <= k < final(self).particles@.len() ==> (#[trigger] final(self).particles@[k])@
                    == spec_step_particle(
                    old(self).particles@[k]@,
                    old(self).phase + dt_phase,
                    old(self).config,
                ),
    {
        self.phase = self.phase + dt_phase;
        let phase = self.phase;
        self.grid.regenerate(phase, self.config.angle_scale, self.config.cell_length);
        let width = self.config.width;
        let height = self.config.height;
        let force_min = self.config.force_min;
        let force_max = self.config.force_max;
        let n = self.particles.len();
        let mut i: usize = 0;
        while i < n
            invariant
                self.config == old(self).config,
                self.config.wf(),
                self.phase == old(self).phase + dt_phase,
                phase == self.phase,
                width == self.config.width,
                height == self.config.height,
                force_min == self.config.force_min,
                force_max == self.config.force_max,
                self.grid.wf(),
                self.grid.width == self.config.width,
                self.grid.height == self.config.height,
                self.grid.cell_size == self.config.cell_size,
                self.grid.rows == old(self).grid.rows,
                self.grid.columns == old(self).grid.columns,
                self.grid.cells@.len() == old(self).grid.cells@.len(),
                forall|j: int|
                    0 <= j < self.grid.cells@.len() ==> (#[trigger] self.grid.cells@[j])@.anchor
                        == old(self).grid.cells@[j]@.anchor,
                forall|j: int|
                    0 <= j < self.grid.cells@.len() ==> (#[trigger] self.grid.cells@[j])@.field_vector
                        == spec_field_vector(
                        j / self.grid.rows as int,
                        j % self.grid.rows as int,
                        phase as int,
                        self.config.angle_scale as int,
                        self.config.cell_length as int,
                    ),
                n == self.particles@.len(),
                self.particles@.len() == old(self).particles@.len(),
                i <= n,
                forall|k: int|
                    i <= k < n ==> (#[trigger] self.particles@[k]) == old(self).particles@[k],
                forall|k: int|
                    0 <= k < i ==> (#[trigger] self.particles@[k])@ == spec_step_particle(
                        old(self).particles@[k]@,
                        phase as int,
                        self.config,
                    ),
                forall|k: int|
                    0 <= k < i ==> {
                        let p = (#[trigger] self.particles@[k])@;
                        &&& p.wf()
                        &&& p.min_speed == self.config.min_speed
                        &&& p.max_speed == self.config.max_speed
                        &&& 0 <= p.position.x < self.config.width * ONE
                        &&& 0 <= p.position.y < self.config.height * ONE
                    },
                old(self).wf(),
            decreases n - i,
        {
            let p = self.particles[i];
            let cell = self.grid.cell_at(&p.position);
            let field_vector = cell.field_vector;
            proof {
                let rows = self.grid.rows as int;
                let col = spec_cell_col(p@.position, self.config.cell_size as int);
                let row = spec_cell_row(p@.position, self.config.cell_size as int);
                lemma_fundamental_div_mod_converse_div(col * rows + row, rows, col, row);
                lemma_fundamental_div_mod_converse_mod(col * rows + row, rows, col, row);
            }
            let force = field_vector.limit(force_min, force_max);
            let mut stepped = p;
            stepped.apply_force(&force);
            stepped.update(width, height);
            self.particles.set(i, stepped);
            i = i + 1;
        }
    }

    /// How many particles the world holds.
    pub fn particle_count(&self) -> (n: usize)
        ensures
            n == self.particles@.len(),
    {
        self.particles.len()
    }

    /// A read-only snapshot of one particle's position.
    pub fn particle_position(&self, k: usize) -> (r: RealVector)
        requires
            k < self.particles@.len(),
        ensures
            r@ == self.particles@[k as int]@.position,
    {
        self.particles[k].position
    }

    /// A read-only snapshot of one particle's velocity.
    pub fn particle_velocity(&self, k: usize) -> (r: RealVector)
        requires
            k < self.particles@.len(),
        ensures
            r@ == self.particles@[k as int]@.velocity,
    {
        self.particles[k].velocity
    }
}

} // verus!
