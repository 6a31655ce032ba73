//! Why the world is not ticking, and what waking owes.
//!
//! Away time is paid for, never simulated: losing focus or being suspended
//! puts the world down, and coming back pays for the time away from the
//! moment the world stopped. The prestige ledger also stops the world while
//! it is open, but reading it is not time away and pays nothing.

use vstd::prelude::*;
use crate::slot::Trigger;

verus! {

/// Why the world is not ticking.
#[derive(Debug, Clone, Copy, PartialEq, Eq, Structural)]
pub enum Asleep {
    /// The window lost focus, or the platform suspended the app.
    Away,
    /// The prestige ledger is open.
    Deciding,
}

/// The state after putting the world down for `why` at `now`: unchanged if
/// it was already asleep.
pub open spec fn slept(st: Option<(Asleep, u64)>, why: Asleep, now: u64) -> Option<(Asleep, u64)> {
    if st is None { Some((why, now)) } else { st }
}

/// What waking from `st` owes: the moment an away sleep began, else nothing.
pub open spec fn owed(st: Option<(Asleep, u64)>) -> Option<u64> {
    match st {
        Some((Asleep::Away, at)) => Some(at),
        _ => None,
    }
}

/// What happens to the app that bears on whether the world ticks.
#[derive(Debug, Clone, Copy, PartialEq, Eq, Structural)]
pub enum Happening {
    /// The window lost focus.
    FocusLost,
    /// The window regained focus.
    FocusGained,
    /// The platform suspended the app.
    Suspended,
    /// The platform resumed the app.
    Resumed,
    /// The prestige ledger opened.
    LedgerOpened,
    /// The prestige ledger closed.
    LedgerClosed,
}

/// What the session owes after a happening: a save on a trigger, and the
/// wall clock from which time away is to be paid.
#[derive(Debug, Clone, Copy, PartialEq, Eq, Structural)]
pub struct Owed {
    pub save: Option<Trigger>,
    pub paid_from: Option<u64>,
}

/// The rest state after `h` at `now`.
pub open spec fn after(st: Option<(Asleep, u64)>, h: Happening, now: u64) -> Option<(Asleep, u64)> {
    match h {
        Happening::FocusLost | Happening::Suspended => slept(st, Asleep::Away, now),
        Happening::FocusGained | Happening::Resumed => None,
        Happening::LedgerOpened => slept(st, Asleep::Deciding, now),
        Happening::LedgerClosed => match st {
            Some((Asleep::Deciding, _)) => None,
            other => other,
        },
    }
}

/// What `h` owes from rest state `st`: putting the world down away saves, on
/// the trigger that did it, only when the world was awake; waking pays time
/// away; the ledger owes nothing.
pub open spec fn owed_by(st: Option<(Asleep, u64)>, h: Happening) -> Owed {
    match h {
        Happening::FocusLost => Owed {
            save: if st is None { Some(Trigger::FocusLost) } else { None },
            paid_from: None,
        },
        Happening::Suspended => Owed {
            save: if st is None { Some(Trigger::Suspended) } else { None },
            paid_from: None,
        },
        Happening::FocusGained | Happening::Resumed => Owed { save: None, paid_from: owed(st) },
        _ => Owed { save: None, paid_from: None },
    }
}

/// The rest state after `hs` in order, from `st`.
pub open spec fn after_all(st: Option<(Asleep, u64)>, hs: Seq<(Happening, u64)>) -> Option<(Asleep, u64)>
    decreases hs.len(),
{
    if hs.len() == 0 {
        st
    } else {
        after(after_all(st, hs.drop_last()), hs.last().0, hs.last().1)
    }
}

/// Whether a happening wakes the world from time away.
pub open spec fn wakes_from_away(h: Happening) -> bool {
    h is FocusGained || h is Resumed
}

/// Whether the world is asleep, why, and the wall clock at which it stopped.
#[derive(Debug, Clone, Copy)]
pub struct Rest {
    asleep: Option<(Asleep, u64)>,
}

impl Rest {
    pub closed spec fn state(&self) -> Option<(Asleep, u64)> {
        self.asleep
    }

    /// Awake.
    pub fn awake() -> (r: Self)
        ensures
            r.state() is None,
    {
        Rest { asleep: None }
    }

    /// Why the world is asleep, if it is.
    pub fn asleep(&self) -> (why: Option<Asleep>)
        ensures
            why == (match self.state() {
                Some((w, _)) => Some(w),
                None => None::<Asleep>,
            }),
    {
        match self.asleep {
            Some((why, _)) => Some(why),
            None => None,
        }
    }

    /// Puts the world down at `now`. Idempotent: focus loss and suspend both
    /// arrive and the first one wins, so the clock starts when the player
    /// actually left. Returns whether the world fell asleep just now — only
    /// then is there anything to save.
    pub fn sleep(&mut self, why: Asleep, now: u64) -> (fell: bool)
        ensures
            fell == (old(self).state() is None),
            final(self).state() == slept(old(self).state(), why, now),
    {
        if self.asleep.is_some() {
            return false;
        }
        self.asleep = Some((why, now));
        true
    }

    /// Wakes the world. Returns the wall clock at which it stopped if the
    /// time asleep was time away, which is what the offline grant is measured
    /// from; a closed ledger owes nothing.
    pub fn wake(&mut self) -> (paid_from: Option<u64>)
        ensures
            final(self).state() is None,
            paid_from == owed(old(self).state()),
    {
        let was = self.asleep;
        self.asleep = None;
        match was {
            Some((Asleep::Away, at)) => Some(at),
            _ => None,
        }
    }

    /// Opens or closes the ledger. Opening puts the world down unless it is
    /// already asleep; closing wakes it only if the ledger is what stopped it.
    pub fn set_deciding(&mut self, deciding: bool, now: u64)
        ensures
            deciding ==> final(self).state() == slept(old(self).state(), Asleep::Deciding, now),
            !deciding ==> final(self).state() == (match old(self).state() {
                Some((Asleep::Deciding, _)) => None,
                other => other,
            }),
    {
        if deciding {
            self.sleep(Asleep::Deciding, now);
        } else if let Some((Asleep::Deciding, _)) = self.asleep {
            self.asleep = None;
        }
    }

    /// Whether the world ticks: only while it is awake.
    pub fn ticks(&self) -> (b: bool)
        ensures
            b == (self.state() is None),
    {
        self.asleep.is_none()
    }

    /// Takes one happening at wall clock `now`: puts the world down or picks
    /// it up, and says what the session owes for it.
    pub fn take(&mut self, h: Happening, now: u64) -> (o: Owed)
        ensures
            final(self).state() == after(old(self).state(), h, now),
            o == owed_by(old(self).state(), h),
    {
        match h {
            Happening::FocusLost => {
                let fell = self.sleep(Asleep::Away, now);
                Owed { save: if fell { Some(Trigger::FocusLost) } else { None }, paid_from: None }
            },
            Happening::Suspended => {
                let fell = self.sleep(Asleep::Away, now);
                Owed { save: if fell { Some(Trigger::Suspended) } else { None }, paid_from: None }
            },
            Happening::FocusGained | Happening::Resumed => {
                let paid_from = self.wake();
                Owed { save: None, paid_from }
            },
            Happening::LedgerOpened => {
                self.set_deciding(true, now);
                Owed { save: None, paid_from: None }
            },
            Happening::LedgerClosed => {
                self.set_deciding(false, now);
                Owed { save: None, paid_from: None }
            },
        }
    }
}

} // verus!
