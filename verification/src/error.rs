use vstd::prelude::*;
use vstd::string::StringExecFns;

verus! {

/// An error raised while handling one player's move: either the input
/// text is not a valid column, or the chosen column has no empty cell.
#[derive(Debug, Clone)]
pub struct GameError {
    pub msg: String,
}

impl GameError {
    /// The bare error text.
    pub fn description(&self) -> (r: &str)
        ensures
            r@ == self.msg@,
    {
        self.msg.as_str()
    }
}

/// Makes a new game error carrying the given message.
pub fn game_error(err: &str) -> (e: GameError)
    ensures
        e.msg@ == err@,
{
    GameError { msg: String::from_str(err) }
}

} // verus!
