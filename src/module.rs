//! The zones of the game board.
use vstd::prelude::*;
use crate::token::str_eq;

verus! {

/// A zone a robot can stand in or travel to.
#[derive(Clone, Copy, Debug, PartialEq, Eq, Structural)]
pub enum Module {
    Sample,
    Diagnosis,
    Molecule,
    Laboratory,
    Spawn,
}

/// The name of each zone on the wire.
pub open spec fn zone_name(m: Module) -> Seq<char> {
    match m {
        Module::Sample => "SAMPLES"@,
        Module::Diagnosis => "DIAGNOSIS"@,
        Module::Molecule => "MOLECULES"@,
        Module::Laboratory => "LABORATORY"@,
        Module::Spawn => "START_POS"@,
    }
}

/// The zone a name denotes, if any.
pub open spec fn zone_of_name(s: Seq<char>) -> Option<Module> {
    if s == zone_name(Module::Sample) {
        Some(Module::Sample)
    } else if s == zone_name(Module::Diagnosis) {
        Some(Module::Diagnosis)
    } else if s == zone_name(Module::Molecule) {
        Some(Module::Molecule)
    } else if s == zone_name(Module::Laboratory) {
        Some(Module::Laboratory)
    } else if s == zone_name(Module::Spawn) {
        Some(Module::Spawn)
    } else {
        None
    }
}

impl Module {
    /// The zone with the given name; an error for any other text.
    pub fn from_str(s: &str) -> (r: Result<Self, &'static str>)
        ensures
            match r {
                Ok(m) => zone_of_name(s@) == Some(m),
                Err(_) => zone_of_name(s@) is None,
            },
    {
        if str_eq(s, "SAMPLES") {
            Ok(Module::Sample)
        } else if str_eq(s, "DIAGNOSIS") {
            Ok(Module::Diagnosis)
        } else if str_eq(s, "MOLECULES") {
            Ok(Module::Molecule)
        } else if str_eq(s, "LABORATORY") {
            Ok(Module::Laboratory)
        } else if str_eq(s, "START_POS") {
            Ok(Module::Spawn)
        } else {
            Err("Invalid module name")
        }
    }

    pub fn as_str(&self) -> (r: &'static str)
        ensures
            r@ == zone_name(*self),
    {
        match self {
            Module::Spawn => "START_POS",
            Module::Sample => "SAMPLES",
            Module::Diagnosis => "DIAGNOSIS",
            Module::Molecule => "MOLECULES",
            Module::Laboratory => "LABORATORY",
        }
    }
}

} // verus!
