use rapier2d::dynamics::RigidBodyBuilder;
use rapier2d::geometry::ColliderBuilder;
use rapier2d::math::Vector;
use rolly_polly::fixed::ONE;
use rolly_polly::game::{change_screen, handle_request, Game, Request, Screen};
use rolly_polly::player::RollyParts;
use rolly_polly::settings::{
    constrain_slider, ui_scale, update_zoom, ComboBox, Setting, SettingInfo, SettingKind,
    SettingKindMut, Settings, Slider, Toggle, ZoomKeys,
};
use rolly_polly::world::World;

fn no_zoom_keys() -> ZoomKeys {
    ZoomKeys { zoom_in: false, zoom_out: false, reset: false }
}

fn world() -> World {
    World::new(
        Vector::new(0.0, 9.81),
        RollyParts {
            body: RigidBodyBuilder::dynamic().build(),
            collider: ColliderBuilder::ball(0.075).build(),
        },
    )
}

#[test]
fn toggle_from_tuple() {
    assert!(Toggle::from_tuple(true).default);
    assert!(!Toggle::from_tuple(false).default);
    assert!(Toggle::from_tuple(true).default_value());
}

#[test]
fn combo_box_from_tuple() {
    const OPTIONS: [&str; 3] = ["a", "b", "c"];
    let combo = ComboBox::from_tuple((2, &OPTIONS));
    assert_eq!(combo.default, 2);
    assert_eq!(combo.options, &["a", "b", "c"]);
    assert_eq!(combo.default_value(), 2);
}

#[test]
fn slider_from_tuple() {
    let slider = Slider::from_tuple((ONE, (250_000, 4 * ONE)));
    assert_eq!(slider.default, ONE);
    assert_eq!(slider.min, 250_000);
    assert_eq!(slider.max, 4 * ONE);
    assert_eq!(slider.default_value(), ONE);
}

#[test]
fn a_setting_starts_at_its_default_and_resets_to_it() {
    let mut setting = Setting::new("fullscreen", Toggle::from_tuple(false));
    assert_eq!(setting.name, "fullscreen");
    assert!(!setting.value);
    setting.value = true;
    setting.reset();
    assert!(!setting.value);
}

#[test]
fn the_settings_of_a_new_game() {
    let settings = Settings::new();
    assert_eq!(settings.ui_scale.name, "ui scale");
    assert_eq!(settings.ui_scale.value, 3);
    assert_eq!(settings.ui_scale.info.options, &[".25x", ".5x", "1x", "2x", "4x", "6x"]);
    assert_eq!(settings.zoom.name, "zoom");
    assert_eq!(settings.zoom.value, ONE);
    assert_eq!((settings.zoom.info.min, settings.zoom.info.max), (250_000, 4 * ONE));
    assert_eq!(settings.camera_speed.name, "camera speed");
    assert_eq!(settings.camera_speed.value, 100_000);
    assert_eq!(
        (settings.camera_speed.info.min, settings.camera_speed.info.max),
        (10_000, ONE)
    );
    assert_eq!(settings.fullscreen.name, "fullscreen");
    assert!(!settings.fullscreen.value);
}

#[test]
fn settings_in_their_order() {
    let mut settings = Settings::new();
    {
        let kinds = settings.iter();
        assert_eq!(kinds.len(), 4);
        assert!(matches!(kinds[0], SettingKind::ComboBox(s) if s.name == "ui scale"));
        assert!(matches!(kinds[1], SettingKind::Slider(s) if s.name == "zoom"));
        assert!(matches!(kinds[2], SettingKind::Slider(s) if s.name == "camera speed"));
        assert!(matches!(kinds[3], SettingKind::Toggle(s) if s.name == "fullscreen"));
    }
    for kind in settings.iter_mut() {
        match kind {
            SettingKindMut::ComboBox(s) => s.value = 1,
            SettingKindMut::Slider(s) => s.value = 2 * s.value,
            SettingKindMut::Toggle(s) => s.value = true,
        }
    }
    assert_eq!(settings.ui_scale.value, 1);
    assert_eq!(settings.zoom.value, 2 * ONE);
    assert_eq!(settings.camera_speed.value, 200_000);
    assert!(settings.fullscreen.value);
}

#[test]
fn ui_scales() {
    let mut settings = Settings::new();
    let expected = [250_000, 500_000, ONE, 2 * ONE, 4 * ONE, 6 * ONE, ONE, ONE];
    for (option, want) in expected.iter().enumerate() {
        settings.ui_scale.value = option;
        assert_eq!(ui_scale(&settings), *want);
    }
}

#[test]
fn sliders_are_kept_in_range() {
    let mut settings = Settings::new();
    settings.zoom.value = 5 * ONE;
    constrain_slider(&mut settings.zoom);
    assert_eq!(settings.zoom.value, 4 * ONE);
    settings.zoom.value = 0;
    constrain_slider(&mut settings.zoom);
    assert_eq!(settings.zoom.value, 250_000);
    settings.zoom.value = 3 * ONE;
    constrain_slider(&mut settings.zoom);
    assert_eq!(settings.zoom.value, 3 * ONE);
}

#[test]
fn zoom_keys_change_the_zoom_by_a_hundredth() {
    let mut settings = Settings::new();
    update_zoom(&mut settings.zoom, ZoomKeys { zoom_in: true, ..no_zoom_keys() });
    assert_eq!(settings.zoom.value, 1_010_000);
    update_zoom(&mut settings.zoom, ZoomKeys { zoom_out: true, ..no_zoom_keys() });
    assert_eq!(settings.zoom.value, 999_900);
    update_zoom(&mut settings.zoom, ZoomKeys { zoom_in: true, zoom_out: true, reset: false });
    assert_eq!(settings.zoom.value, 999_800);
    update_zoom(&mut settings.zoom, no_zoom_keys());
    assert_eq!(settings.zoom.value, 999_800);
    update_zoom(&mut settings.zoom, ZoomKeys { zoom_in: true, zoom_out: false, reset: true });
    assert_eq!(settings.zoom.value, ONE);
}

#[test]
fn zoom_stops_at_the_ends_of_its_range() {
    let mut settings = Settings::new();
    settings.zoom.value = 4 * ONE;
    update_zoom(&mut settings.zoom, ZoomKeys { zoom_in: true, ..no_zoom_keys() });
    assert_eq!(settings.zoom.value, 4 * ONE);
    settings.zoom.value = 250_000;
    update_zoom(&mut settings.zoom, ZoomKeys { zoom_out: true, ..no_zoom_keys() });
    assert_eq!(settings.zoom.value, 250_000);
}

#[test]
fn a_new_game_is_at_home() {
    let game = Game::new();
    assert_eq!(game.screen, Screen::Home);
    assert!(game.world.is_none());
    assert!(!game.quit());
    assert_eq!(game.settings.zoom.value, ONE);
}

#[test]
fn quitting() {
    let mut game = Game::new();
    assert!(handle_request(&mut game, Request::Quit).is_none());
    assert_eq!(game.screen, Screen::Quit);
    assert!(game.quit());
}

#[test]
fn leaving_the_game_ends_the_world() {
    for from in [Screen::Running, Screen::Paused] {
        for to in [Screen::Home, Screen::Quit] {
            let mut game = Game::new();
            game.world = Some(world());
            game.screen = from;
            let ended = change_screen(&mut game, to);
            assert!(ended.is_some());
            assert!(game.world.is_none());
            assert_eq!(game.screen, to);
        }
    }
}

#[test]
fn other_changes_of_screen_keep_the_world() {
    let changes = [
        (Screen::Running, Screen::Paused),
        (Screen::Paused, Screen::Running),
        (Screen::Paused, Screen::SettingsPaused),
        (Screen::SettingsPaused, Screen::Paused),
        (Screen::Home, Screen::Quit),
        (Screen::Settings, Screen::Home),
        (Screen::SettingsPaused, Screen::Home),
        (Screen::Running, Screen::Running),
    ];
    for (from, to) in changes {
        let mut game = Game::new();
        game.world = Some(world());
        game.screen = from;
        assert!(change_screen(&mut game, to).is_none());
        assert!(game.world.is_some());
        assert_eq!(game.screen, to);
    }
}

#[test]
fn requests_lead_through_the_screens() {
    let path = [
        (Request::OpenSettings, Screen::Settings),
        (Request::Quit, Screen::Settings),
        (Request::Back, Screen::Home),
        (Request::Back, Screen::Home),
        (Request::NewWorld, Screen::Running),
        (Request::NewWorld, Screen::Running),
        (Request::Back, Screen::Paused),
        (Request::OpenSettings, Screen::SettingsPaused),
        (Request::Back, Screen::Paused),
        (Request::Back, Screen::Running),
        (Request::Back, Screen::Paused),
        (Request::SaveAndBack, Screen::Home),
        (Request::Quit, Screen::Quit),
        (Request::Back, Screen::Quit),
    ];
    let mut game = Game::new();
    for (request, screen) in path {
        if request == Request::NewWorld && game.screen == Screen::Home {
            game.world = Some(world());
        }
        let ended = handle_request(&mut game, request);
        assert_eq!(game.screen, screen);
        assert_eq!(ended.is_some(), request == Request::SaveAndBack);
    }
    assert!(game.world.is_none());
}
