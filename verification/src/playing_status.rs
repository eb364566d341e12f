//! The command line of the tool that checks whether media is reported as playing.
use vstd::prelude::*;

use crate::text::str_eq;

verus! {

/// What the arguments (`args[0]` is the program) ask to check: nothing
/// without arguments, playing or not after `--expect playing` or
/// `--expect not-playing`. `None` for any other arguments (a usage error).
pub open spec fn expectation_spec(args: Seq<Seq<char>>) -> Option<Option<bool>> {
    if args.len() == 1 {
        Some(None)
    } else if args.len() == 3 && args[1] == "--expect"@ && (args[2] == "playing"@ || args[2]
        == "not-playing"@) {
        Some(Some(args[2] == "playing"@))
    } else {
        None
    }
}

/// Reads the arguments of the checker.
pub fn parse_expectation(args: &[String]) -> (r: Option<Option<bool>>)
    ensures
        r == expectation_spec(args@.map_values(|s: String| s@)),
{
    let ghost av = args@.map_values(|s: String| s@);
    if args.len() == 1 {
        return Some(None);
    }
    if args.len() == 3 {
        assert(av[1] == args@[1]@ && av[2] == args@[2]@);
        if str_eq(args[1].as_str(), "--expect") {
            let playing = str_eq(args[2].as_str(), "playing");
            if playing || str_eq(args[2].as_str(), "not-playing") {
                return Some(Some(playing));
            }
        }
    }
    None
}

} // verus!
