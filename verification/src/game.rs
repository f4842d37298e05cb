use vstd::prelude::*;

verus! {

/// Where a game stands.
#[derive(Debug, Clone, Copy, PartialEq, Eq, Structural)]
pub enum GameStatus {
    Playing,
    Paused,
    GameOver,
    Victory,
}

/// What ended a game.
#[derive(Debug, Clone, Copy, PartialEq, Eq, Structural)]
pub enum DeathReason {
    WallCollision,
    SelfCollision,
}

/// How much food a board holds: `foods_per` pieces for every `cells_per`
/// cells.
#[derive(Debug, Clone, Copy, PartialEq, Eq, Structural)]
pub struct FoodDensity {
    pub foods_per: u16,
    pub cells_per: u16,
}

/// The panel that is drawn over the play area.
#[derive(Debug, Clone, Copy, PartialEq, Eq, Structural)]
pub enum Overlay {
    Nothing,
    StartMenu,
    PauseMenu,
    GameOverMenu,
}

/// The panel that belongs over the play area: the start menu on the start
/// screen, whatever the status, and else the pause menu while the game is
/// paused, the game-over menu once it is lost or won, and nothing while it
/// is played.
pub open spec fn overlay_of(status: GameStatus, on_start_screen: bool) -> Overlay {
    if on_start_screen {
        Overlay::StartMenu
    } else {
        match status {
            GameStatus::Paused => Overlay::PauseMenu,
            GameStatus::GameOver => Overlay::GameOverMenu,
            GameStatus::Victory => Overlay::GameOverMenu,
            GameStatus::Playing => Overlay::Nothing,
        }
    }
}

/// Decides which panel a frame draws over the play area.
pub fn overlay_for(status: GameStatus, on_start_screen: bool) -> (overlay: Overlay)
    ensures
        overlay == overlay_of(status, on_start_screen),
{
    if on_start_screen {
        return Overlay::StartMenu;
    }
    match status {
        GameStatus::Paused => Overlay::PauseMenu,
        GameStatus::GameOver => Overlay::GameOverMenu,
        GameStatus::Victory => Overlay::GameOverMenu,
        _ => Overlay::Nothing,
    }
}

} // verus!
