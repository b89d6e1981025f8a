//! The single action a robot takes in a turn.
use vstd::prelude::*;
use crate::connect_options::{option_text, ConnectOptions};
use crate::module::{zone_name, Module};

verus! {

/// Travel to a zone, connect to the machine where the robot stands, or wait.
#[derive(Clone, Copy, Debug, PartialEq, Eq, Structural)]
pub enum Command {
    Goto(Module),
    Connect(ConnectOptions),
    Wait,
}

/// The wire text of a command.
pub open spec fn command_text(c: Command) -> Seq<char> {
    match c {
        Command::Goto(m) => "GOTO "@ + zone_name(m),
        Command::Connect(o) => "CONNECT "@ + option_text(o),
        Command::Wait => "WAIT"@,
    }
}

impl Command {
    pub fn to_string(&self) -> (r: String)
        ensures
            r@ == command_text(*self),
    {
        match self {
            Command::Goto(module) => {
                let s = String::from_str("GOTO ");
                s.concat(module.as_str())
            },
            Command::Connect(options) => {
                let s = String::from_str("CONNECT ");
                let text = options.to_string();
                s.concat(text.as_str())
            },
            Command::Wait => String::from_str("WAIT"),
        }
    }
}

} // verus!
