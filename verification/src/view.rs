//! Where the tower column looks, and what it names.
//!
//! The column shows a fixed window of floors and the player never scrolls it:
//! it follows the frontier with a few rows of headroom, hard-clamped at the
//! lock line, since there is nothing below the line to see and nothing above
//! the frontier to show.

use vstd::prelude::*;
use crate::tower::Floor;
use crate::sweep::{all_kept, keep_all, swept, sweep_floors};

verus! {

/// Floors drawn at once.
pub const FLOORS_IN_VIEW: u32 = 13;

/// Climber sprites the column can show at once.
pub const CLIMBER_SLOTS: usize = 96;

/// Rows of headroom above the frontier.
pub const HEADROOM: Floor = 3;

/// The lowest floor in the window.
pub open spec fn spec_view_bottom(frontier: Floor, line: Floor) -> int {
    let top = frontier + HEADROOM;
    let low = if top >= FLOORS_IN_VIEW - 1 { top - (FLOORS_IN_VIEW - 1) } else { 0 };
    if low >= line { low } else { line as int }
}

/// The lowest floor in the window: the frontier sits three rows from the top
/// unless that would put the lock line out of the bottom.
pub fn view_bottom(frontier: Floor, line: Floor) -> (bottom: Floor)
    requires
        frontier + HEADROOM <= u32::MAX,
    ensures
        bottom == spec_view_bottom(frontier, line),
        bottom >= line,
{
    let top = frontier + HEADROOM;
    let low = top.saturating_sub(FLOORS_IN_VIEW - 1);
    if low >= line { low } else { line }
}

/// The floor row `row` shows; row 0 is the top of the window.
pub fn row_floor(bottom: Floor, row: u32) -> (floor: Floor)
    requires
        row < FLOORS_IN_VIEW,
        bottom + FLOORS_IN_VIEW <= u32::MAX,
    ensures
        floor == bottom + (FLOORS_IN_VIEW - 1 - row),
        bottom <= floor < bottom + FLOORS_IN_VIEW,
{
    bottom + (FLOORS_IN_VIEW - 1 - row)
}

/// Whether `floor` is inside the window starting at `bottom`.
pub fn in_window(bottom: Floor, floor: Floor) -> (b: bool)
    ensures
        b == (bottom <= floor < bottom + FLOORS_IN_VIEW),
{
    floor >= bottom && (floor - bottom) < FLOORS_IN_VIEW
}

/// Every fifth floor is shaded.
pub fn is_fifth(floor: Floor) -> (b: bool)
    ensures
        b == (floor % 5 == 0),
{
    floor % 5 == 0
}

/// Every fifth floor is named. Floor 0 is real to the simulation — the lock
/// line is 0 until the first lock — but floors are numbered from 1, so it is
/// drawn and never named.
pub fn floor_named(floor: Floor) -> (b: bool)
    ensures
        b == (floor > 0 && floor % 5 == 0),
{
    floor > 0 && floor % 5 == 0
}

/// How many floors the climb still has to gain before the next lock may be
/// bought.
pub fn floors_off(next_floor: Floor, margin: u32, peak: Floor) -> (n: u32)
    requires
        next_floor + margin <= u32::MAX,
    ensures
        n == (if next_floor + margin >= peak { next_floor + margin - peak } else { 0 }),
{
    (next_floor + margin).saturating_sub(peak)
}

/// The climbers the column draws, given the floor each stands on: those in
/// the window starting at `bottom`, highest floor first and in list order on
/// one floor, as many as there are sprite slots. The front of the climb is
/// what the player watches, so it is what survives the cut.
pub fn visible_climbers(floors: &Vec<Floor>, bottom: Floor) -> (shown: Vec<usize>)
    requires
        bottom + FLOORS_IN_VIEW <= u32::MAX,
    ensures
        swept(floors@, all_kept(floors.len() as nat), bottom, (bottom + FLOORS_IN_VIEW - 1) as Floor, true,
            Some(CLIMBER_SLOTS), shown@),
{
    let keep = keep_all(floors.len());
    sweep_floors(floors, &keep, bottom, bottom + (FLOORS_IN_VIEW - 1), true, Some(CLIMBER_SLOTS))
}

/// The marks drawn on the column besides its rows.
#[derive(Debug, Clone, Copy, PartialEq, Eq, Structural)]
pub enum Mark {
    /// The lit floors the hero multiplies.
    Aura,
    /// The multiplier written beside the aura.
    AuraCallout,
    /// The hatching where the climb is stuck.
    WallHatch,
    /// The account's record, as a line.
    RecordLine,
    /// The account's record, as a label.
    RecordLabel,
    /// The lock line.
    LockLine,
    /// The chip that buys the next lock.
    LockButton,
    /// The chip's price.
    LockLabel,
    /// The climber in this sprite slot.
    Climber(usize),
    /// The hero.
    Hero,
    /// The hero's health bar.
    HeroHealth,
    /// The hero's respawn countdown.
    HeroCountdown,
}

/// What the column knows when it decides which marks to show.
#[derive(Debug, Clone, Copy, PartialEq, Eq, Structural)]
pub struct Scene {
    /// The lowest floor in the window.
    pub bottom: Floor,
    pub hero_floor: Floor,
    pub hero_alive: bool,
    /// Whether the aura actually multiplies. An inert aura is not lit, since
    /// lighting it would promise a multiplier that is not there.
    pub aura_lit: bool,
    /// Whether the hero has any health left to draw.
    pub hero_health_left: bool,
    /// The account's deepest-ever floor; 0 when it has none.
    pub record: Floor,
    pub lock_line: Floor,
    /// How many climbers the column draws.
    pub climbers_shown: usize,
}

/// Whether `floor` is in the window starting at `bottom`.
pub open spec fn on_screen(bottom: Floor, floor: Floor) -> bool {
    bottom <= floor < bottom + FLOORS_IN_VIEW
}

/// Whether a mark is shown in a scene. The aura and its callout appear
/// together or not at all; the record only once there is one and it is in
/// the window; the lock line once a lock is bought; a climber slot only if
/// the column has a climber for it; the hero and its bar only while it lives
/// and is in the window, and its countdown only while it is dead there.
pub open spec fn spec_mark_shown(mark: Mark, s: Scene) -> bool {
    let hero_here = on_screen(s.bottom, s.hero_floor);
    match mark {
        Mark::Aura | Mark::AuraCallout => s.aura_lit && s.hero_alive && hero_here,
        Mark::RecordLine | Mark::RecordLabel => s.record > 0 && on_screen(s.bottom, s.record),
        Mark::LockLine => s.lock_line > 0,
        Mark::Climber(i) => i < s.climbers_shown,
        Mark::Hero => hero_here && s.hero_alive,
        Mark::HeroHealth => hero_here && s.hero_alive && s.hero_health_left,
        Mark::HeroCountdown => hero_here && !s.hero_alive,
        Mark::WallHatch | Mark::LockButton | Mark::LockLabel => true,
    }
}

/// Whether a mark is shown in a scene.
pub fn mark_shown(mark: Mark, s: &Scene) -> (shown: bool)
    ensures
        shown == spec_mark_shown(mark, *s),
{
    let hero_here = in_window(s.bottom, s.hero_floor);
    match mark {
        Mark::Aura | Mark::AuraCallout => s.aura_lit && s.hero_alive && hero_here,
        Mark::RecordLine | Mark::RecordLabel => s.record > 0 && in_window(s.bottom, s.record),
        Mark::LockLine => s.lock_line > 0,
        Mark::Climber(i) => i < s.climbers_shown,
        Mark::Hero => hero_here && s.hero_alive,
        Mark::HeroHealth => hero_here && s.hero_alive && s.hero_health_left,
        Mark::HeroCountdown => hero_here && !s.hero_alive,
        Mark::WallHatch | Mark::LockButton | Mark::LockLabel => true,
    }
}

} // verus!
