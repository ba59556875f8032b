//! The closed set of device commands and their channel names.

use vstd::prelude::*;

verus! {

/// One request that the device understands.
#[derive(Debug, Clone, Copy, PartialEq, Eq, Structural)]
pub enum Command {
    /// Device identity (serial number).
    Qid,
    /// Protocol id.
    Qpi,
    /// Firmware version.
    Qvfw,
    /// Device mode.
    Qmod,
    /// Warning status.
    Qpiws,
    /// Rating information, full schema.
    Qpiri,
    /// Rating information, reduced schema.
    QpiriReduced,
    /// General status of the device as a whole.
    Qpigs,
    /// General status of the unit with the given index.
    Qpgs(u8),
}

/// The character of a decimal digit.
pub open spec fn digit_char(d: u8) -> char {
    (48 + d) as char
}

impl Command {
    /// A per-unit query addresses a unit from 0 to 9.
    pub open spec fn wf(self) -> bool {
        self matches Command::Qpgs(unit) ==> unit <= 9
    }

    pub open spec fn is_per_unit(self) -> bool {
        self is Qpgs
    }

    /// The command's short name, under which its result is published.
    pub open spec fn short_name(self) -> Seq<char> {
        match self {
            Command::Qid => "qid"@,
            Command::Qpi => "qpi"@,
            Command::Qvfw => "qvfw"@,
            Command::Qmod => "qmod"@,
            Command::Qpiws => "qpiws"@,
            Command::Qpiri => "qpiri"@,
            Command::QpiriReduced => "qpiri"@,
            Command::Qpigs => "qpigs"@,
            Command::Qpgs(unit) => "qpgs"@.push(digit_char(unit)),
        }
    }

    /// The suffix of the channel on which the command's result goes out.
    pub fn suffix(self) -> (name: &'static str)
        requires
            self.wf(),
        ensures
            name@ == self.short_name(),
    {
        proof {
            reveal_strlit("qpgs");
        }
        match self {
            Command::Qid => "qid",
            Command::Qpi => "qpi",
            Command::Qvfw => "qvfw",
            Command::Qmod => "qmod",
            Command::Qpiws => "qpiws",
            Command::Qpiri => "qpiri",
            Command::QpiriReduced => "qpiri",
            Command::Qpigs => "qpigs",
            Command::Qpgs(unit) => {
                if unit == 0 {
                    proof { reveal_strlit("qpgs0"); }
                    assert("qpgs0"@ =~= "qpgs"@.push(digit_char(0)));
                    "qpgs0"
                } else if unit == 1 {
                    proof { reveal_strlit("qpgs1"); }
                    assert("qpgs1"@ =~= "qpgs"@.push(digit_char(1)));
                    "qpgs1"
                } else if unit == 2 {
                    proof { reveal_strlit("qpgs2"); }
                    assert("qpgs2"@ =~= "qpgs"@.push(digit_char(2)));
                    "qpgs2"
                } else if unit == 3 {
                    proof { reveal_strlit("qpgs3"); }
                    assert("qpgs3"@ =~= "qpgs"@.push(digit_char(3)));
                    "qpgs3"
                } else if unit == 4 {
                    proof { reveal_strlit("qpgs4"); }
                    assert("qpgs4"@ =~= "qpgs"@.push(digit_char(4)));
                    "qpgs4"
                } else if unit == 5 {
                    proof { reveal_strlit("qpgs5"); }
                    assert("qpgs5"@ =~= "qpgs"@.push(digit_char(5)));
                    "qpgs5"
                } else if unit == 6 {
                    proof { reveal_strlit("qpgs6"); }
                    assert("qpgs6"@ =~= "qpgs"@.push(digit_char(6)));
                    "qpgs6"
                } else if unit == 7 {
                    proof { reveal_strlit("qpgs7"); }
                    assert("qpgs7"@ =~= "qpgs"@.push(digit_char(7)));
                    "qpgs7"
                } else if unit == 8 {
                    proof { reveal_strlit("qpgs8"); }
                    assert("qpgs8"@ =~= "qpgs"@.push(digit_char(8)));
                    "qpgs8"
                } else {
                    proof { reveal_strlit("qpgs9"); }
                    assert("qpgs9"@ =~= "qpgs"@.push(digit_char(9)));
                    "qpgs9"
                }
            },
        }
    }
}

} // verus!
