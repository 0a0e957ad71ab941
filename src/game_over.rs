//! The two scenes, playing and game over, and the changes between them.
use vstd::prelude::*;

verus! {

/// What the host should do after a scene's frame.
#[derive(Clone, Copy, Debug, PartialEq, Eq)]
pub enum SceneChange {
    /// Keep running the current scene.
    Stay,
    /// Leave the program.
    Quit,
    /// The player died: show the game-over scene with this final score.
    GameOver(u64),
    /// Start a fresh game.
    NewGame,
}

/// The game-over scene, showing the final score.
#[derive(Clone, Copy, Debug, PartialEq, Eq)]
pub struct GameOver {
    pub score: u64,
}

impl GameOver {
    pub fn new(score: u64) -> (r: GameOver)
        ensures
            r.score == score,
    {
        GameOver { score }
    }

    /// Confirm starts a new game; otherwise quit leaves; otherwise the scene
    /// stays.
    pub fn on_update(&self, confirm: bool, quit: bool) -> (r: SceneChange)
        ensures
            r == (if confirm {
                SceneChange::NewGame
            } else if quit {
                SceneChange::Quit
            } else {
                SceneChange::Stay
            }),
    {
        if confirm {
            SceneChange::NewGame
        } else if quit {
            SceneChange::Quit
        } else {
            SceneChange::Stay
        }
    }
}

} // verus!
