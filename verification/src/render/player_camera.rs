use vstd::prelude::*;

verus! {

/// Marks the one thing in the world that the camera follows: the player of
/// this client.
#[derive(Clone, Copy, Debug, PartialEq, Eq, Structural, Hash)]
pub struct ClientPlayer;

impl Default for ClientPlayer {
    fn default() -> (player: ClientPlayer)
        ensures
            player == ClientPlayer,
    {
        ClientPlayer
    }
}

} // verus!
