use vstd::prelude::*;
use oorandom::Rand32;
use crate::grid::{Changes, World, dead_cells, lists_births, lists_deaths, next_cells};
use crate::states::AppState;

verus! {

/// Size of one cell in pixels, both on screen and when sizing the grid.
pub const CELL_SCALE: u32 = 10;

/// Grid dimensions for a viewport of the given pixel size: one cell per
/// `CELL_SCALE` pixels in each direction, rounded down.
pub fn grid_dimensions(pixel_width: u32, pixel_height: u32) -> (r: (usize, usize))
    ensures
        r.0 == pixel_width / CELL_SCALE,
        r.1 == pixel_height / CELL_SCALE,
{
    ((pixel_width / CELL_SCALE) as usize, (pixel_height / CELL_SCALE) as usize)
}

/// Whether a change set announces nothing.
pub open spec fn no_changes(c: Changes) -> bool {
    c.births@.len() == 0 && c.deaths@.len() == 0
}

/// A run of the automaton: the phase it is in and the grid it owns.
pub struct Simulation {
    pub phase: AppState,
    pub world: World,
}

impl Simulation {
    /// The grid's size fits in memory, and once playing the grid holds one
    /// cell per coordinate.
    pub open spec fn wf(&self) -> bool {
        &&& self.world.width * self.world.height <= usize::MAX
        &&& self.phase == AppState::Playing ==> self.world.wf()
    }

    /// A run that has not started: no camera yet, an empty grid.
    pub fn new() -> (s: Simulation)
        ensures
            s.phase == AppState::InitialisingCamera,
            s.world.width == 0,
            s.world.height == 0,
            s.world.cells@.len() == 0,
            s.wf(),
    {
        Simulation {
            phase: AppState::InitialisingCamera,
            world: World { cells: Vec::new(), width: 0, height: 0 },
        }
    }

    /// Performs the work of one tick in the current phase and returns the
    /// cells that must appear and disappear on screen.
    ///
    /// `viewport` is the viewport's pixel size once it is known; `rng`
    /// supplies the seeding draws.
    pub fn tick(&mut self, viewport: Option<(u32, u32)>, rng: &mut Rand32) -> (changes: Changes)
        requires
            old(self).wf(),
            old(self).phase == AppState::InitialisingResources ==> match viewport {
                Some(v) => (v.0 / CELL_SCALE) * (v.1 / CELL_SCALE) <= usize::MAX,
                None => true,
            },
        ensures
            final(self).wf(),
            old(self).phase == AppState::InitialisingCamera ==> {
                &&& final(self).phase == AppState::InitialisingResources
                &&& final(self).world == old(self).world
                &&& no_changes(changes)
            },
            old(self).phase == AppState::InitialisingResources ==> match viewport {
                None => {
                    &&& *final(self) == *old(self)
                    &&& no_changes(changes)
                },
                Some(v) => {
                    &&& final(self).phase == AppState::InitialisingWorld
                    &&& final(self).world.width == v.0 / CELL_SCALE
                    &&& final(self).world.height == v.1 / CELL_SCALE
                    &&& final(self).world.cells@.len() == 0
                    &&& no_changes(changes)
                },
            },
            old(self).phase == AppState::InitialisingWorld ==> {
                &&& final(self).phase == AppState::Playing
                &&& final(self).world.width == old(self).world.width
                &&& final(self).world.height == old(self).world.height
                &&& final(self).world.wf()
                &&& lists_births(
                    changes.births@,
                    dead_cells(final(self).world.cells@.len()),
                    final(self).world.cells@,
                )
                &&& changes.deaths@.len() == 0
            },
            old(self).phase == AppState::Playing ==> {
                &&& final(self).phase == AppState::Playing
                &&& final(self).world.width == old(self).world.width
                &&& final(self).world.height == old(self).world.height
                &&& final(self).world.cells@ == next_cells(
                    old(self).world.cells@,
                    old(self).world.width as int,
                    old(self).world.height as int,
                )
                &&& lists_births(changes.births@, old(self).world.cells@, final(self).world.cells@)
                &&& lists_deaths(changes.deaths@, old(self).world.cells@, final(self).world.cells@)
            },
    {
        match self.phase {
            AppState::InitialisingCamera => {
                self.phase = self.phase.next();
                Changes { births: Vec::new(), deaths: Vec::new() }
            },
            AppState::InitialisingResources => {
                match viewport {
                    None => Changes { births: Vec::new(), deaths: Vec::new() },
                    Some((pixel_width, pixel_height)) => {
                        let (width, height) = grid_dimensions(pixel_width, pixel_height);
                        self.world = World { cells: Vec::new(), width, height };
                        self.phase = self.phase.next();
                        Changes { births: Vec::new(), deaths: Vec::new() }
                    },
                }
            },
            AppState::InitialisingWorld => {
                let (world, births) = World::seed(self.world.width, self.world.height, rng);
                self.world = world;
                self.phase = self.phase.next();
                Changes { births, deaths: Vec::new() }
            },
            AppState::Playing => self.world.advance(),
        }
    }
}

} // verus!
