use vstd::prelude::*;

verus! {

/// Settings of the console output: compact or verbose, with or without
/// colour.
#[derive(Clone, Copy, Debug)]
pub struct ConsoleOutput {
    pub verbose: bool,
    pub colorized: bool,
}

impl ConsoleOutput {
    pub fn new(verbose: bool, colorized: bool) -> (r: Self)
        ensures
            r.verbose == verbose,
            r.colorized == colorized,
    {
        ConsoleOutput { verbose, colorized }
    }
}

} // verus!
