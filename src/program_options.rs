//! The actions offered by the interactive menu.

use vstd::prelude::*;

verus! {

#[derive(Clone, Copy, PartialEq, Eq, Debug, Structural)]
pub enum MainProgramOptions {
    ClockIn,
    ClockOut,
    ClockOutAndEndDay,
    ClockOutAndEndWeek,
    Invalid,
}

/// The action chosen by typing `c`: '0' to '3' in menu order, anything else invalid.
pub open spec fn option_for(c: char) -> MainProgramOptions {
    if c == '0' {
        MainProgramOptions::ClockIn
    } else if c == '1' {
        MainProgramOptions::ClockOut
    } else if c == '2' {
        MainProgramOptions::ClockOutAndEndDay
    } else if c == '3' {
        MainProgramOptions::ClockOutAndEndWeek
    } else {
        MainProgramOptions::Invalid
    }
}

impl MainProgramOptions {
    pub fn from(c: char) -> (r: MainProgramOptions)
        ensures
            r == option_for(c),
    {
        match c {
            '0' => MainProgramOptions::ClockIn,
            '1' => MainProgramOptions::ClockOut,
            '2' => MainProgramOptions::ClockOutAndEndDay,
            '3' => MainProgramOptions::ClockOutAndEndWeek,
            _ => MainProgramOptions::Invalid,
        }
    }
}

} // verus!
