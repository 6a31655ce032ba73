//! The closed set of climber types, and the container that keeps it closed.
//!
//! Three types exist and the set does not grow at runtime. A value per type
//! is held in [`PerType`], which is total by construction: there is no missing
//! key and no lookup that can fail.

use vstd::prelude::*;

verus! {

/// A named behavioural archetype shared by many climbers.
#[derive(Debug, Clone, Copy, PartialEq, Eq, Structural, Hash)]
pub enum ClimberType {
    Melee,
    Ranged,
    Healer,
}

/// The name a climber type is shown and reported under.
pub open spec fn spec_type_label(t: ClimberType) -> Seq<char> {
    match t {
        ClimberType::Melee => "melee"@,
        ClimberType::Ranged => "ranged"@,
        ClimberType::Healer => "healer"@,
    }
}

/// Position of a type in the fixed iteration order.
pub open spec fn type_index(t: ClimberType) -> int {
    match t {
        ClimberType::Melee => 0,
        ClimberType::Ranged => 1,
        ClimberType::Healer => 2,
    }
}

/// The fixed iteration order, as a sequence.
pub open spec fn all_types() -> Seq<ClimberType> {
    seq![ClimberType::Melee, ClimberType::Ranged, ClimberType::Healer]
}

impl ClimberType {
    /// Iteration order for everything that must be reproducible. Fixed
    /// deliberately: several tie-breaks resolve on "first wins".
    pub const ALL: [ClimberType; 3] = [ClimberType::Melee, ClimberType::Ranged, ClimberType::Healer];

    pub fn name(self) -> (s: &'static str)
        ensures
            s@ == spec_type_label(self),
    {
        proof {
            reveal_strlit("melee");
            reveal_strlit("ranged");
            reveal_strlit("healer");
        }
        match self {
            ClimberType::Melee => "melee",
            ClimberType::Ranged => "ranged",
            ClimberType::Healer => "healer",
        }
    }
}

/// One value per climber type.
#[derive(Debug, Clone, Copy, PartialEq, Eq, Structural)]
pub struct PerType<T> {
    pub melee: T,
    pub ranged: T,
    pub healer: T,
}

impl<T> PerType<T> {
    /// The value held for `t`.
    pub open spec fn at(self, t: ClimberType) -> T {
        match t {
            ClimberType::Melee => self.melee,
            ClimberType::Ranged => self.ranged,
            ClimberType::Healer => self.healer,
        }
    }

    /// This with the value for `t` replaced by `v`.
    pub open spec fn with(self, t: ClimberType, v: T) -> Self {
        match t {
            ClimberType::Melee => PerType { melee: v, ..self },
            ClimberType::Ranged => PerType { ranged: v, ..self },
            ClimberType::Healer => PerType { healer: v, ..self },
        }
    }

    pub fn new(melee: T, ranged: T, healer: T) -> (p: Self)
        ensures
            p.melee == melee,
            p.ranged == ranged,
            p.healer == healer,
    {
        PerType { melee, ranged, healer }
    }

    pub fn get(&self, t: ClimberType) -> (v: &T)
        ensures
            *v == self.at(t),
    {
        match t {
            ClimberType::Melee => &self.melee,
            ClimberType::Ranged => &self.ranged,
            ClimberType::Healer => &self.healer,
        }
    }

    pub fn get_mut(&mut self, t: ClimberType) -> (v: &mut T)
        ensures
            *v == old(self).at(t),
            *final(self) == old(self).with(t, *final(v)),
    {
        match t {
            ClimberType::Melee => &mut self.melee,
            ClimberType::Ranged => &mut self.ranged,
            ClimberType::Healer => &mut self.healer,
        }
    }

    /// Pairs in [`ClimberType::ALL`] order.
    pub fn iter(&self) -> (pairs: Vec<(ClimberType, &T)>)
        ensures
            pairs@.len() == 3,
            forall|i: int|
                0 <= i < 3 ==> #[trigger] pairs@[i] == (all_types()[i], &self.at(all_types()[i])),
    {
        let mut pairs = Vec::new();
        pairs.push((ClimberType::Melee, &self.melee));
        pairs.push((ClimberType::Ranged, &self.ranged));
        pairs.push((ClimberType::Healer, &self.healer));
        pairs
    }
}

impl<T: Default> Default for PerType<T> {
    /// Each type holds its own default.
    fn default() -> (p: Self)
        ensures
            call_ensures(T::default, (), p.melee),
            call_ensures(T::default, (), p.ranged),
            call_ensures(T::default, (), p.healer),
    {
        PerType { melee: T::default(), ranged: T::default(), healer: T::default() }
    }
}

impl<T: Copy> PerType<T> {
    pub fn splat(v: T) -> (p: Self)
        ensures
            p.melee == v,
            p.ranged == v,
            p.healer == v,
    {
        PerType { melee: v, ranged: v, healer: v }
    }
}

} // verus!
