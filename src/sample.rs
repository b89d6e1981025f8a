//! Sample specifications: what producing a medicine costs and yields.
use vstd::prelude::*;
use crate::molecules::Molecules;

verus! {

/// The coarse rank of a sample, 1 to 3.
#[derive(Clone, Copy, Debug, PartialEq, Eq, Structural)]
pub enum SampleRank {
    LotsOfHealth,
    SomeHealth,
    LittleHealth,
}

/// Whether a sample has been researched, and its health value once it has.
#[derive(Clone, Copy, Debug, PartialEq, Eq, Structural)]
pub enum SampleHealth {
    Unresearched,
    Researched(u8),
}

/// A production recipe held by a robot or lying in the shared pool.
#[derive(Clone, Copy, Debug, PartialEq, Eq, Structural)]
pub struct Sample {
    id: u8,
    rank: SampleRank,
    health: SampleHealth,
    cost: Molecules,
    expertise_gain: Molecules,
}

/// The research state an input number stands for: unresearched when
/// negative, else researched with that health value.
pub open spec fn health_of(number: int) -> SampleHealth {
    if number < 0 {
        SampleHealth::Unresearched
    } else {
        SampleHealth::Researched(number as u8)
    }
}

/// The rank with a value of 1, 2 or 3.
pub open spec fn rank_of(value: int) -> SampleRank {
    if value == 3 {
        SampleRank::LotsOfHealth
    } else if value == 2 {
        SampleRank::SomeHealth
    } else {
        SampleRank::LittleHealth
    }
}

/// The value a rank stands for.
pub open spec fn rank_value(r: SampleRank) -> u8 {
    match r {
        SampleRank::LotsOfHealth => 3,
        SampleRank::SomeHealth => 2,
        SampleRank::LittleHealth => 1,
    }
}

/// The priority in which held samples are served: the health value of a
/// researched sample, zero for an unresearched one.
pub open spec fn priority(s: Sample) -> int {
    match s.health() {
        SampleHealth::Researched(h) => h as int,
        SampleHealth::Unresearched => 0,
    }
}

impl Sample {
    /// The sample with the given fields.
    pub closed spec fn spec_new(
        id: u8,
        rank: SampleRank,
        health: SampleHealth,
        cost: Molecules,
        expertise_gain: Molecules,
    ) -> Sample {
        Sample { id, rank, health, cost, expertise_gain }
    }

    pub closed spec fn spec_id(self) -> u8 {
        self.id
    }

    pub closed spec fn spec_rank(self) -> SampleRank {
        self.rank
    }

    pub closed spec fn health(self) -> SampleHealth {
        self.health
    }

    pub closed spec fn cost(self) -> Molecules {
        self.cost
    }

    pub closed spec fn gain(self) -> Molecules {
        self.expertise_gain
    }

    pub open spec fn is_researched(self) -> bool {
        self.health() is Researched
    }

    /// Cost and gain carry the values a turn's input can hold (those of an
    /// `i8`), which leaves room for the arithmetic done on them.
    pub open spec fn wf(self) -> bool {
        &&& self.cost()@.in_i8_range()
        &&& self.gain()@.in_i8_range()
    }

    pub fn get_health(&self) -> (r: &SampleHealth)
        ensures
            *r == self.health(),
    {
        &self.health
    }

    pub fn get_cost(&self) -> (r: &Molecules)
        ensures
            *r == self.cost(),
    {
        &self.cost
    }

    pub fn get_expertise_gain(&self) -> (r: &Molecules)
        ensures
            *r == self.gain(),
    {
        &self.expertise_gain
    }

    pub fn get_id(&self) -> (r: u8)
        ensures
            r == self.spec_id(),
    {
        self.id
    }

    pub fn get_rank(&self) -> (r: SampleRank)
        ensures
            r == self.spec_rank(),
    {
        self.rank
    }

    pub fn new(
        id: u8,
        rank: SampleRank,
        health: SampleHealth,
        cost: Molecules,
        expertise_gain: Molecules,
    ) -> (r: Self)
        ensures
            r == Sample::spec_new(id, rank, health, cost, expertise_gain),
            r.spec_id() == id,
            r.spec_rank() == rank,
            r.health() == health,
            r.cost() == cost,
            r.gain() == expertise_gain,
    {
        Sample { id, rank, health, cost, expertise_gain }
    }
}

impl SampleHealth {
    /// A negative number marks an unresearched sample; any other is the
    /// health value of a researched one.
    pub fn from_integer(number: i8) -> (r: Self)
        ensures
            r == health_of(number as int),
    {
        if number < 0 {
            SampleHealth::Unresearched
        } else {
            SampleHealth::Researched(number as u8)
        }
    }
}

impl SampleRank {
    pub fn as_value(&self) -> (r: u8)
        ensures
            r == rank_value(*self),
    {
        match self {
            SampleRank::LotsOfHealth => 3,
            SampleRank::SomeHealth => 2,
            SampleRank::LittleHealth => 1,
        }
    }

    /// The rank with the given value, if it is 1, 2 or 3.
    pub fn from_integer(value: i8) -> (r: Option<Self>)
        ensures
            1 <= value <= 3 ==> r == Some(rank_of(value as int)),
            !(1 <= value <= 3) ==> r is None,
    {
        match value {
            3 => Some(SampleRank::LotsOfHealth),
            2 => Some(SampleRank::SomeHealth),
            1 => Some(SampleRank::LittleHealth),
            _ => None,
        }
    }
}


} // verus!
