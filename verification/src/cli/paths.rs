use vstd::prelude::*;

verus! {

/// Shows the paths the tool uses; the lookup and printing live outside.
pub struct Paths {
    pub command: Commands,
}

pub enum Commands {
    Config,
}

} // verus!
