//! Confetti drifting over the terminal.

use rand::RngExt;
use vstd::prelude::*;

use crate::layout::geometry::Rect;
use crate::ui::style::Color;

verus! {

/// Draws a number between zero and a limit by chance.
/// `rand::RngExt::random_range` of the thread's generator gives one in the
/// range; which one, nothing says.
#[verifier::external_body]
fn roll_up_to(max: u16) -> (rolled: u16)
    ensures
        rolled <= max,
{
    rand::rng().random_range(0..=max)
}

/// A piece of confetti: how far it is from the left and from the top, in
/// thousandths, and the character it is drawn as.
pub type Particle = (u16, u16, char);

/// Confetti in some frame of its animation.
#[derive(Debug)]
pub struct Confetti {
    pub frame: u8,
    pub particles: Vec<Particle>,
}

/// How many frames the animation has.
pub const DURATION: u8 = 60;

/// How many pieces fly.
pub const PARTICLES: usize = 128;

/// The furthest place from the left and from the top.
pub const FURTHEST: u16 = 1000;

/// Whether a piece is in its place.
pub open spec fn is_particle(particle: Particle) -> bool {
    &&& particle.0 <= FURTHEST
    &&& particle.1 <= FURTHEST
    &&& particle.2 == '*' || particle.2 == '+' || particle.2 == '·'
}

/// The character that a number between zero and two stands for.
pub open spec fn symbol_of(roll: u16) -> char {
    if roll == 0 {
        '*'
    } else if roll == 1 {
        '+'
    } else {
        '·'
    }
}

/// The piece that three numbers stand for.
pub fn particle_of(x: u16, y: u16, symbol: u16) -> (particle: Particle)
    ensures
        particle == (x, y, symbol_of(symbol)),
{
    (
        x,
        y,
        match symbol {
            0 => '*',
            1 => '+',
            _ => '·',
        },
    )
}

/// Where a piece drifts: one step to the left, one to the right, or nowhere.
/// It does not leave the terminal.
pub open spec fn drifted(x: u16, roll: u16) -> u16 {
    if roll == 0 {
        (if x > 0 {
            x - 1
        } else {
            0
        }) as u16
    } else if roll == 1 {
        (if x < FURTHEST {
            x + 1
        } else {
            FURTHEST as int
        }) as u16
    } else {
        x
    }
}

/// Where a piece drifts.
pub fn drift(x: u16, roll: u16) -> (moved: u16)
    ensures
        moved == drifted(x, roll),
{
    match roll {
        0 => if x > 0 {
            x - 1
        } else {
            0
        },
        1 => if x < FURTHEST {
            x + 1
        } else {
            FURTHEST
        },
        _ => x,
    }
}

/// Whether a piece is where another may have drifted.
pub open spec fn may_drift(from: Particle, to: Particle) -> bool {
    &&& exists|roll: u16| to.0 == #[trigger] drifted(from.0, roll)
    &&& to.1 == from.1
    &&& to.2 == from.2
}

impl Confetti {
    /// How many frames the animation has.
    pub const DURATION: u8 = 60;

    /// How many pieces fly.
    pub const PARTICLES: usize = 128;

    /// Whether every piece is in its place.
    pub open spec fn well_formed(&self) -> bool {
        &&& self.particles@.len() == PARTICLES
        &&& forall|i: int|
            0 <= i < self.particles@.len() ==> is_particle(#[trigger] self.particles@[i])
    }

    /// Throws confetti.
    pub fn new() -> (confetti: Self)
        ensures
            confetti.well_formed(),
            confetti.frame == 0,
    {
        let mut particles: Vec<Particle> = Vec::new();
        while particles.len() < PARTICLES
            invariant
                particles@.len() <= PARTICLES,
                forall|i: int|
                    0 <= i < particles@.len() ==> is_particle(#[trigger] particles@[i]),
            decreases PARTICLES - particles@.len(),
        {
            let x: u16 = roll_up_to(FURTHEST);
            let y: u16 = roll_up_to(FURTHEST);
            let symbol: u16 = roll_up_to(2);
            particles.push(particle_of(x, y, symbol));
        }
        Confetti { frame: 0, particles }
    }

    /// Moves on by a frame, every piece drifting as chance has it. Whether the
    /// animation goes on.
    pub fn tick(&mut self) -> (goes_on: bool)
        requires
            old(self).well_formed(),
        ensures
            final(self).well_formed(),
            final(self).frame == (if old(self).frame < u8::MAX {
                old(self).frame + 1
            } else {
                u8::MAX as int
            }),
            forall|i: int|
                0 <= i < PARTICLES ==> may_drift(
                    old(self).particles@[i],
                    #[trigger] final(self).particles@[i],
                ),
            goes_on == (final(self).frame < DURATION),
    {
        let mut i: usize = 0;
        while i < self.particles.len()
            invariant
                old(self).well_formed(),
                self.well_formed(),
                i <= self.particles@.len(),
                self.frame == old(self).frame,
                forall|k: int|
                    0 <= k < i ==> may_drift(
                        old(self).particles@[k],
                        #[trigger] self.particles@[k],
                    ),
                forall|k: int|
                    i <= k < PARTICLES ==> old(self).particles@[k] == #[trigger] self.particles@[k],
            decreases self.particles@.len() - i,
        {
            let ghost before = self.particles@;
            let particle = self.particles[i];
            assert(is_particle(before[i as int]));
            let roll: u16 = roll_up_to(2);
            let moved: u16 = drift(particle.0, roll);
            self.particles.set(i, (moved, particle.1, particle.2));
            assert(may_drift(before[i as int], self.particles@[i as int]));
            assert forall|k: int| 0 <= k < self.particles@.len() implies is_particle(
                #[trigger] self.particles@[k],
            ) by {
                if k != i {
                    assert(self.particles@[k] == before[k]);
                }
            }
            assert forall|k: int| 0 <= k < i + 1 implies may_drift(
                old(self).particles@[k],
                #[trigger] self.particles@[k],
            ) by {
                if k != i {
                    assert(self.particles@[k] == before[k]);
                }
            }
            i = i + 1;
        }
        if self.frame < u8::MAX {
            self.frame = self.frame + 1;
        }
        self.frame < DURATION
    }
}

/// A cell of the terminal that shows a piece of confetti.
#[derive(Debug, Clone, Copy, PartialEq, Eq, Structural)]
pub struct Cell {
    pub x: u16,
    pub y: u16,
    pub symbol: char,
    pub color: Color,
}

/// The number, or one in place of zero.
pub open spec fn at_least_one(n: u16) -> int {
    if n == 0 {
        1
    } else {
        n as int
    }
}

/// How many rows from the top a piece is. It starts in the upper half and
/// falls a row with every frame.
pub open spec fn fallen(particle: Particle, frame: u8, height: u16) -> int {
    particle.1 * ((at_least_one(height) + 1) / 2) / 1001 + frame
}

/// The color of a piece, from its place among the others.
pub open spec fn color_of(index: int) -> Color {
    if index % 4 == 0 {
        Color::Yellow
    } else if index % 4 == 1 {
        Color::Green
    } else if index % 4 == 2 {
        Color::Cyan
    } else {
        Color::Magenta
    }
}

/// The cell of a piece.
pub open spec fn cell_of(confetti: Confetti, index: int, area: Rect) -> Cell {
    let particle = confetti.particles@[index];
    Cell {
        x: (area.x + particle.0 * at_least_one(area.width) / 1001) as u16,
        y: (area.y + fallen(particle, confetti.frame, area.height)) as u16,
        symbol: particle.2,
        color: color_of(index),
    }
}

/// The cells of the first pieces that are still in an area.
pub open spec fn cells_of(confetti: Confetti, count: int, area: Rect) -> Seq<Cell>
    decreases count,
{
    if count <= 0 {
        Seq::empty()
    } else {
        let before = cells_of(confetti, count - 1, area);
        if fallen(confetti.particles@[count - 1], confetti.frame, area.height) < area.height {
            before.push(cell_of(confetti, count - 1, area))
        } else {
            before
        }
    }
}

/// Whether the cells of an area can be numbered.
pub open spec fn is_on_screen(area: Rect) -> bool {
    area.x + area.width <= u16::MAX && area.y + area.height <= u16::MAX
}

/// Where the confetti is drawn. A piece that has fallen out of the area is
/// not.
pub fn draw_confetti(confetti: &Confetti, area: Rect) -> (cells: Vec<Cell>)
    requires
        confetti.well_formed(),
        is_on_screen(area),
    ensures
        cells@ == cells_of(*confetti, confetti.particles@.len() as int, area),
{
    let mut cells: Vec<Cell> = Vec::new();
    let mut i: usize = 0;
    let width: u32 = if area.width == 0 {
        1
    } else {
        area.width as u32
    };
    let height: u32 = if area.height == 0 {
        1
    } else {
        area.height as u32
    };
    let upper: u32 = (height + 1) / 2;
    while i < confetti.particles.len()
        invariant
            confetti.well_formed(),
            is_on_screen(area),
            width == at_least_one(area.width),
            upper == (at_least_one(area.height) + 1) / 2,
            i <= confetti.particles@.len(),
            cells@ == cells_of(*confetti, i as int, area),
        decreases confetti.particles@.len() - i,
    {
        let particle = confetti.particles[i];
        assert(is_particle(confetti.particles@[i as int]));
        let base_x: u32 = particle.0 as u32;
        let base_y: u32 = particle.1 as u32;
        assert(0 <= base_x * width <= 1000 * width) by (nonlinear_arith)
            requires
                base_x <= 1000,
        ;
        assert(0 <= base_y * upper <= 1000 * upper) by (nonlinear_arith)
            requires
                base_y <= 1000,
        ;
        let x: u32 = base_x * width / 1001;
        let y: u32 = base_y * upper / 1001 + confetti.frame as u32;
        assert(x < width);
        assert(y == fallen(particle, confetti.frame, area.height));
        if y < area.height as u32 {
            let color = match i % 4 {
                0 => Color::Yellow,
                1 => Color::Green,
                2 => Color::Cyan,
                _ => Color::Magenta,
            };
            cells.push(
                Cell { x: area.x + x as u16, y: area.y + y as u16, symbol: particle.2, color },
            );
        }
        i = i + 1;
    }
    cells
}

proof fn lemma_cells_are_in_the_area(confetti: Confetti, count: int, area: Rect, index: int)
    requires
        confetti.well_formed(),
        is_on_screen(area),
        0 <= count <= confetti.particles@.len(),
        0 <= index < cells_of(confetti, count, area).len(),
    ensures
        ({
            let cell = cells_of(confetti, count, area)[index];
            &&& area.x <= cell.x < area.x + at_least_one(area.width)
            &&& area.y <= cell.y < area.y + area.height
        }),
    decreases count,
{
    let before = cells_of(confetti, count - 1, area);
    if index < before.len() {
        lemma_cells_are_in_the_area(confetti, count - 1, area, index);
    } else {
        let particle = confetti.particles@[count - 1];
        assert(is_particle(particle));
        let width = at_least_one(area.width);
        assert(0 <= particle.0 * width <= 1000 * width) by (nonlinear_arith)
            requires
                0 <= particle.0 <= 1000,
                width >= 1,
        ;
        let upper = (at_least_one(area.height) + 1) / 2;
        assert(0 <= particle.1 * upper) by (nonlinear_arith)
            requires
                0 <= particle.1,
                upper >= 1,
        ;
    }
}

/// Confetti is drawn inside the area alone.
pub proof fn confetti_stays_in_the_area(confetti: Confetti, area: Rect, index: int)
    requires
        confetti.well_formed(),
        is_on_screen(area),
        0 <= index < cells_of(confetti, confetti.particles@.len() as int, area).len(),
    ensures
        ({
            let cell = cells_of(confetti, confetti.particles@.len() as int, area)[index];
            &&& area.x <= cell.x < area.x + at_least_one(area.width)
            &&& area.y <= cell.y < area.y + area.height
        }),
{
    lemma_cells_are_in_the_area(confetti, confetti.particles@.len() as int, area, index);
}

/// A piece drifts by one step at most, and stays within the terminal.
pub proof fn pieces_drift_a_step(x: u16, roll: u16)
    requires
        x <= 1000,
    ensures
        drifted(x, roll) <= 1000,
        -1 <= drifted(x, roll) - x <= 1,
        roll == 0 && x > 0 ==> drifted(x, roll) == x - 1,
        roll == 1 && x < 1000 ==> drifted(x, roll) == x + 1,
        roll > 1 ==> drifted(x, roll) == x,
{
}

/// A piece starts in the upper half and falls a row with every frame.
pub proof fn pieces_fall_row_by_row(particle: Particle, frame: u8, height: u16)
    requires
        is_particle(particle),
        frame < u8::MAX,
    ensures
        fallen(particle, (frame + 1) as u8, height) == fallen(particle, frame, height) + 1,
        0 <= fallen(particle, 0, height),
        2 * fallen(particle, 0, height) <= at_least_one(height),
{
    let upper = (at_least_one(height) + 1) / 2;
    assert(0 <= particle.1 * upper <= 1000 * upper) by (nonlinear_arith)
        requires
            0 <= particle.1 <= 1000,
            upper >= 1,
    ;
}

/// Every piece that is still in the area is drawn, as its own character and in
/// one of four colors that take turns.
pub proof fn every_piece_in_the_area_is_drawn(
    confetti: Confetti,
    count: int,
    area: Rect,
    index: int,
)
    requires
        0 <= index < count <= confetti.particles@.len(),
        fallen(confetti.particles@[index], confetti.frame, area.height) < area.height,
    ensures
        exists|k: int|
            0 <= k < cells_of(confetti, count, area).len() && (#[trigger] cells_of(
                confetti,
                count,
                area,
            )[k]) == cell_of(confetti, index, area),
        cell_of(confetti, index, area).symbol == confetti.particles@[index].2,
        color_of(0) == Color::Yellow && color_of(1) == Color::Green && color_of(2) == Color::Cyan
            && color_of(3) == Color::Magenta,
        color_of(index + 4) == color_of(index),
    decreases count,
{
    let all = cells_of(confetti, count, area);
    let before = cells_of(confetti, count - 1, area);
    if index == count - 1 {
        assert(all[before.len() as int] == cell_of(confetti, index, area));
    } else {
        every_piece_in_the_area_is_drawn(confetti, count - 1, area, index);
        let k = choose|k: int|
            0 <= k < before.len() && (#[trigger] before[k]) == cell_of(confetti, index, area);
        assert(all[k] == before[k]);
    }
}

/// The pieces are drawn as three characters.
pub proof fn pieces_have_three_shapes()
    ensures
        symbol_of(0) == '*' && symbol_of(1) == '+' && symbol_of(2) == '·',
{
}

} // verus!
