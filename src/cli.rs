//! The command line: which flags select which mode.

use vstd::prelude::*;
use crate::session::Mode;

verus! {

/// A recognised command-line flag.
#[derive(Clone, Copy, Debug, PartialEq, Eq, Structural)]
pub enum Flag {
    /// `-s`: a fixed buffer.
    Static,
    /// `-t`: the final summary only.
    TotalsOnly,
    /// `-h`: the usage text.
    Help,
}

/// What the command line asks for.
#[derive(Clone, Copy, Debug, PartialEq, Eq, Structural)]
pub enum Command {
    /// Forward the stream in this mode.
    Run(Mode),
    /// Show the usage text and stop.
    Help,
}

/// The argument at `position` (counted from the first after the program
/// name) is not a flag.
#[derive(Clone, Copy, Debug, PartialEq, Eq, Structural)]
pub struct InvalidArgument {
    pub position: usize,
}

pub open spec fn flag_of(arg: Seq<char>) -> Option<Flag> {
    if arg == "-s"@ {
        Some(Flag::Static)
    } else if arg == "-t"@ {
        Some(Flag::TotalsOnly)
    } else if arg == "-h"@ {
        Some(Flag::Help)
    } else {
        None
    }
}

/// A flag that selects a mode rather than ending the parse.
pub open spec fn is_mode_flag(arg: Seq<char>) -> bool {
    flag_of(arg) == Some(Flag::Static) || flag_of(arg) == Some(Flag::TotalsOnly)
}

/// The mode that a list of mode flags selects: `-t` wins over `-s`, and no
/// flag means adaptive.
pub open spec fn mode_for(args: Seq<String>) -> Mode {
    if exists|i: int| 0 <= i < args.len() && flag_of(#[trigger] args[i]@) == Some(Flag::TotalsOnly) {
        Mode::TotalsOnly
    } else if exists|i: int| 0 <= i < args.len() && flag_of(#[trigger] args[i]@) == Some(Flag::Static) {
        Mode::Static
    } else {
        Mode::Adaptive
    }
}

fn parse_flag(arg: &str) -> (f: Option<Flag>)
    ensures
        f == flag_of(arg@),
{
    proof {
        reveal_strlit("-s");
        reveal_strlit("-t");
        reveal_strlit("-h");
    }
    if arg.unicode_len() != 2 {
        return None;
    }
    let dash = arg.get_char(0);
    let letter = arg.get_char(1);
    if dash != '-' {
        return None;
    }
    if letter == 's' {
        assert(arg@ =~= "-s"@);
        Some(Flag::Static)
    } else if letter == 't' {
        assert(arg@ =~= "-t"@);
        Some(Flag::TotalsOnly)
    } else if letter == 'h' {
        assert(arg@ =~= "-h"@);
        Some(Flag::Help)
    } else {
        None
    }
}

/// Reads the arguments after the program name, left to right: the first
/// `-h` asks for help and the first argument that is no flag is refused,
/// whichever comes first; otherwise the mode flags select the mode.
pub fn parse_args(args: &Vec<String>) -> (r: Result<Command, InvalidArgument>)
    ensures
        match r {
            Ok(Command::Help) => exists|h: int|
                0 <= h < args@.len() && flag_of(args@[h]@) == Some(Flag::Help) && forall|j: int|
                    0 <= j < h ==> is_mode_flag(#[trigger] args@[j]@),
            Ok(Command::Run(mode)) => (forall|j: int|
                0 <= j < args@.len() ==> is_mode_flag(#[trigger] args@[j]@)) && mode == mode_for(
                args@,
            ),
            Err(e) => e.position < args@.len() && flag_of(args@[e.position as int]@) is None
                && forall|j: int| 0 <= j < e.position ==> is_mode_flag(#[trigger] args@[j]@),
        },
{
    let mut totals_only = false;
    let mut fixed = false;
    let mut i: usize = 0;
    while i < args.len()
        invariant
            i <= args@.len(),
            forall|j: int| 0 <= j < i ==> is_mode_flag(#[trigger] args@[j]@),
            totals_only == exists|j: int|
                0 <= j < i && flag_of(#[trigger] args@[j]@) == Some(Flag::TotalsOnly),
            fixed == exists|j: int| 0 <= j < i && flag_of(#[trigger] args@[j]@) == Some(Flag::Static),
        decreases args@.len() - i,
    {
        let flag = parse_flag(args[i].as_str());
        match flag {
            None => {
                return Err(InvalidArgument { position: i });
            },
            Some(Flag::Help) => {
                return Ok(Command::Help);
            },
            Some(Flag::TotalsOnly) => {
                totals_only = true;
            },
            Some(Flag::Static) => {
                fixed = true;
            },
        }
        i = i + 1;
    }
    if totals_only {
        Ok(Command::Run(Mode::TotalsOnly))
    } else if fixed {
        Ok(Command::Run(Mode::Static))
    } else {
        Ok(Command::Run(Mode::Adaptive))
    }
}

} // verus!
