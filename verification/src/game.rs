//! The game around the world: which screen is shown, and what a change
//! of screen does to the world.

use crate::settings::Settings;
use crate::world::World;
use vstd::prelude::*;

verus! {

/// The screens of the game.
#[derive(Debug, Clone, Copy, PartialEq, Eq, Structural)]
pub enum Screen {
    Home,
    Settings,
    SettingsPaused,
    Paused,
    Running,
    Quit,
}

/// What the player can ask for on the screens.
#[derive(Debug, Clone, Copy, PartialEq, Eq, Structural)]
pub enum Request {
    /// Begin a new world. The world itself is made by the caller.
    NewWorld,
    /// Open the settings.
    OpenSettings,
    /// Go back, by the key or a button: from the settings to where they
    /// were opened, from the pause to the game, from the game to the
    /// pause.
    Back,
    /// Leave the world for the home screen, saving it.
    SaveAndBack,
    /// Leave the game.
    Quit,
}

/// The game: its settings, the screen it shows and, while one is played,
/// its world.
pub struct Game {
    pub settings: Settings,
    pub screen: Screen,
    pub world: Option<World>,
}

/// Whether a change from one screen to another ends the world: leaving
/// the game or its pause for the home screen or for good.
pub open spec fn ends_world(from: Screen, to: Screen) -> bool {
    (from is Running || from is Paused) && (to is Home || to is Quit)
}

/// The screen that a request leads to from a screen; a request that the
/// screen does not offer leads nowhere.
pub open spec fn requested_screen(screen: Screen, request: Request) -> Screen {
    match (screen, request) {
        (Screen::Home, Request::NewWorld) => Screen::Running,
        (Screen::Home, Request::OpenSettings) => Screen::Settings,
        (Screen::Home, Request::Quit) => Screen::Quit,
        (Screen::Settings, Request::Back) => Screen::Home,
        (Screen::SettingsPaused, Request::Back) => Screen::Paused,
        (Screen::Paused, Request::Back) => Screen::Running,
        (Screen::Paused, Request::OpenSettings) => Screen::SettingsPaused,
        (Screen::Paused, Request::SaveAndBack) => Screen::Home,
        (Screen::Running, Request::Back) => Screen::Paused,
        _ => screen,
    }
}

impl Game {
    /// A game on its home screen, with the settings at their defaults and
    /// no world.
    pub fn new() -> (game: Self)
        ensures
            game.screen == Screen::Home,
            game.world is None,
            game.settings.zoom.value == crate::fixed::ONE,
            game.settings.camera_speed.value == 100_000,
            game.settings.ui_scale.value == 3,
            game.settings.fullscreen.value == false,
    {
        Game { settings: Settings::new(), screen: Screen::Home, world: None }
    }

    /// Whether the game is over.
    pub fn quit(&self) -> (over: bool)
        ensures
            over == (self.screen == Screen::Quit),
    {
        match self.screen {
            Screen::Quit => true,
            _ => false,
        }
    }
}

/// Shows another screen. A change that ends the world drops the world;
/// the result says whether it did, so that the world can be saved first.
pub fn change_screen(game: &mut Game, screen: Screen) -> (ended: Option<World>)
    ensures
        final(game).screen == screen,
        final(game).settings == old(game).settings,
        ends_world(old(game).screen, screen) ==> final(game).world is None && ended == old(game).world,
        !ends_world(old(game).screen, screen) ==> final(game).world == old(game).world && ended
            is None,
{
    let ends = match (game.screen, screen) {
        (Screen::Running, Screen::Home) => true,
        (Screen::Running, Screen::Quit) => true,
        (Screen::Paused, Screen::Home) => true,
        (Screen::Paused, Screen::Quit) => true,
        _ => false,
    };
    game.screen = screen;
    if ends {
        game.world.take()
    } else {
        None
    }
}

/// Follows a request of the player's to the screen that it leads to.
pub fn handle_request(game: &mut Game, request: Request) -> (ended: Option<World>)
    ensures
        final(game).screen == requested_screen(old(game).screen, request),
        final(game).settings == old(game).settings,
        ends_world(old(game).screen, final(game).screen) ==> final(game).world is None && ended
            == old(game).world,
        !ends_world(old(game).screen, final(game).screen) ==> final(game).world == old(game).world
            && ended is None,
{
    let next = match (game.screen, request) {
        (Screen::Home, Request::NewWorld) => Screen::Running,
        (Screen::Home, Request::OpenSettings) => Screen::Settings,
        (Screen::Home, Request::Quit) => Screen::Quit,
        (Screen::Settings, Request::Back) => Screen::Home,
        (Screen::SettingsPaused, Request::Back) => Screen::Paused,
        (Screen::Paused, Request::Back) => Screen::Running,
        (Screen::Paused, Request::OpenSettings) => Screen::SettingsPaused,
        (Screen::Paused, Request::SaveAndBack) => Screen::Home,
        (Screen::Running, Request::Back) => Screen::Paused,
        (screen, _) => screen,
    };
    change_screen(game, next)
}

} // verus!
