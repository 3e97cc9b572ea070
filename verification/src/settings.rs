//! The player's settings: each one a value beside the description that
//! gives its default and its allowed values.

use crate::fixed::{mul_div, ONE};
use vstd::prelude::*;

verus! {

/// The description of one setting.
pub trait SettingInfo {
    type Value: Clone + PartialEq;

    /// The value that the setting starts with and resets to.
    spec fn spec_default_value(&self) -> Self::Value;

    fn default_value(&self) -> (value: Self::Value)
        ensures
            value == self.spec_default_value(),
    ;
}

/// A setting: its name, its current value and its description.
pub struct Setting<T: SettingInfo> {
    pub name: &'static str,
    pub value: T::Value,
    pub info: T,
}

impl<T: SettingInfo> Setting<T> {
    /// A setting at its default value.
    pub fn new(name: &'static str, info: T) -> (setting: Self)
        ensures
            setting.name == name,
            setting.info == info,
            setting.value == info.spec_default_value(),
    {
        let value = info.default_value();
        Setting { name, value, info }
    }

    /// Puts the setting back to its default value.
    pub fn reset(&mut self)
        ensures
            final(self).value == old(self).info.spec_default_value(),
            final(self).name == old(self).name,
            final(self).info == old(self).info,
    {
        self.value = self.info.default_value();
    }
}

/// A number within a closed range, in millionths.
pub struct Slider {
    pub default: i64,
    pub min: i64,
    pub max: i64,
}

impl Slider {
    pub fn from_tuple(tuple: (i64, (i64, i64))) -> (slider: Self)
        ensures
            slider.default == tuple.0,
            slider.min == tuple.1.0,
            slider.max == tuple.1.1,
    {
        Slider { default: tuple.0, min: tuple.1.0, max: tuple.1.1 }
    }

    /// `value` brought into the range: values below it give `min`, values
    /// above it give `max`. Where the range is empty, `max` wins.
    pub open spec fn constrained(&self, value: i64) -> i64 {
        if value > self.max {
            self.max
        } else if value < self.min {
            self.min
        } else {
            value
        }
    }
}

impl SettingInfo for Slider {
    type Value = i64;

    open spec fn spec_default_value(&self) -> i64 {
        self.default
    }

    fn default_value(&self) -> (value: i64) {
        self.default
    }
}

/// A switch.
pub struct Toggle {
    pub default: bool,
}

impl Toggle {
    pub fn from_tuple(default: bool) -> (toggle: Self)
        ensures
            toggle.default == default,
    {
        Toggle { default }
    }
}

impl SettingInfo for Toggle {
    type Value = bool;

    open spec fn spec_default_value(&self) -> bool {
        self.default
    }

    fn default_value(&self) -> (value: bool) {
        self.default
    }
}

/// A choice among named options; the value is the index of the option.
pub struct ComboBox {
    pub default: usize,
    pub options: &'static [&'static str],
}

impl ComboBox {
    pub fn from_tuple(tuple: (usize, &'static [&'static str])) -> (combo_box: Self)
        ensures
            combo_box.default == tuple.0,
            combo_box.options == tuple.1,
    {
        ComboBox { default: tuple.0, options: tuple.1 }
    }
}

impl SettingInfo for ComboBox {
    type Value = usize;

    open spec fn spec_default_value(&self) -> usize {
        self.default
    }

    fn default_value(&self) -> (value: usize) {
        self.default
    }
}

/// One setting of any kind, to read.
pub enum SettingKind<'a> {
    Slider(&'a Setting<Slider>),
    Toggle(&'a Setting<Toggle>),
    ComboBox(&'a Setting<ComboBox>),
}

/// One setting of any kind, to change.
pub enum SettingKindMut<'a> {
    Slider(&'a mut Setting<Slider>),
    Toggle(&'a mut Setting<Toggle>),
    ComboBox(&'a mut Setting<ComboBox>),
}

/// Keeps a slider's value within its range.
pub fn constrain_slider(setting: &mut Setting<Slider>)
    ensures
        final(setting).value == old(setting).info.constrained(old(setting).value),
        final(setting).name == old(setting).name,
        final(setting).info == old(setting).info,
{
    if setting.value > setting.info.max {
        setting.value = setting.info.max;
    } else if setting.value < setting.info.min {
        setting.value = setting.info.min;
    }
}

/// The zoom keys that are held or pressed in a frame.
#[derive(Clone, Copy, Debug, PartialEq, Eq, Structural)]
pub struct ZoomKeys {
    /// Zoom in, while held.
    pub zoom_in: bool,
    /// Zoom out, while held.
    pub zoom_out: bool,
    /// Back to a zoom of one, when pressed.
    pub reset: bool,
}

/// One frame's step of zooming in, in millionths: one percent more.
pub const ZOOM_IN_FACTOR: i64 = 1_010_000;

/// One frame's step of zooming out, in millionths: one percent less.
pub const ZOOM_OUT_FACTOR: i64 = 990_000;

/// The zoom after one frame of the given keys, before it is constrained:
/// first the step in, then the step out, then the reset.
pub open spec fn zoomed(value: i64, keys: ZoomKeys) -> i64 {
    let after_in = if keys.zoom_in {
        crate::fixed::clamp64(crate::fixed::trunc_div(value * ZOOM_IN_FACTOR, ONE as int))
    } else {
        value
    };
    let after_out = if keys.zoom_out {
        crate::fixed::clamp64(crate::fixed::trunc_div(after_in * ZOOM_OUT_FACTOR, ONE as int))
    } else {
        after_in
    };
    if keys.reset {
        ONE
    } else {
        after_out
    }
}

/// Applies one frame of zoom keys to the zoom setting and keeps it within
/// its range.
pub fn update_zoom(zoom: &mut Setting<Slider>, keys: ZoomKeys)
    ensures
        final(zoom).value == old(zoom).info.constrained(zoomed(old(zoom).value, keys)),
        final(zoom).name == old(zoom).name,
        final(zoom).info == old(zoom).info,
{
    if keys.zoom_in {
        zoom.value = mul_div(zoom.value, ZOOM_IN_FACTOR, ONE);
    }
    if keys.zoom_out {
        zoom.value = mul_div(zoom.value, ZOOM_OUT_FACTOR, ONE);
    }
    if keys.reset {
        zoom.value = ONE;
    }
    constrain_slider(zoom);
}

/// The scale of the user interface for each of the options, in
/// millionths, smallest first.
pub const UI_SCALES: [i64; 6] = [250_000, 500_000, 1_000_000, 2_000_000, 4_000_000, 6_000_000];

/// The scale of the user interface that an option stands for: a quarter,
/// a half, one, two, four and six for the six options, and one for an
/// option that is none of them.
pub open spec fn ui_scale_of(option: usize) -> i64 {
    if option == 0 {
        250_000
    } else if option == 1 {
        500_000
    } else if option == 2 {
        ONE
    } else if option == 3 {
        2_000_000
    } else if option == 4 {
        4_000_000
    } else if option == 5 {
        6_000_000
    } else {
        ONE
    }
}

/// The scale of the user interface that the settings choose.
pub fn ui_scale(settings: &Settings) -> (scale: i64)
    ensures
        scale == ui_scale_of(settings.ui_scale.value),
{
    let option = settings.ui_scale.value;
    if option < 6 {
        UI_SCALES[option]
    } else {
        ONE
    }
}

/// The game's settings.
pub struct Settings {
    pub ui_scale: Setting<ComboBox>,
    pub zoom: Setting<Slider>,
    pub camera_speed: Setting<Slider>,
    pub fullscreen: Setting<Toggle>,
}

/// The names of the user-interface scales, smallest first.
pub const UI_SCALE_OPTIONS: [&'static str; 6] = [".25x", ".5x", "1x", "2x", "4x", "6x"];

impl Settings {
    /// All settings at their defaults: the fourth interface scale, a zoom
    /// of one within a quarter to four, a camera speed of a tenth within a
    /// hundredth to one, and no fullscreen.
    pub fn new() -> (settings: Self)
        ensures
            settings.ui_scale.name@ == "ui scale"@,
            settings.zoom.name@ == "zoom"@,
            settings.camera_speed.name@ == "camera speed"@,
            settings.fullscreen.name@ == "fullscreen"@,
            settings.ui_scale.value == 3,
            settings.ui_scale.info.default == 3,
            settings.ui_scale.info.options@ == UI_SCALE_OPTIONS@,
            settings.zoom.value == ONE,
            settings.zoom.info == (Slider { default: ONE, min: 250_000, max: 4_000_000 }),
            settings.camera_speed.value == 100_000,
            settings.camera_speed.info == (Slider { default: 100_000, min: 10_000, max: ONE }),
            settings.fullscreen.value == false,
            settings.fullscreen.info.default == false,
    {
        Settings {
            ui_scale: Setting::new("ui scale", ComboBox::from_tuple((3, &UI_SCALE_OPTIONS))),
            zoom: Setting::new("zoom", Slider::from_tuple((ONE, (250_000, 4_000_000)))),
            camera_speed: Setting::new(
                "camera speed",
                Slider::from_tuple((100_000, (10_000, ONE))),
            ),
            fullscreen: Setting::new("fullscreen", Toggle::from_tuple(false)),
        }
    }

    /// The settings in their order on screen, to change.
    pub fn iter_mut(&mut self) -> (kinds: Vec<SettingKindMut<'_>>)
        ensures
            kinds@.len() == 4,
            kinds@[0] matches SettingKindMut::ComboBox(setting) && *setting == old(self).ui_scale
                && *final(setting) == final(self).ui_scale,
            kinds@[1] matches SettingKindMut::Slider(setting) && *setting == old(self).zoom
                && *final(setting) == final(self).zoom,
            kinds@[2] matches SettingKindMut::Slider(setting) && *setting == old(self).camera_speed
                && *final(setting) == final(self).camera_speed,
            kinds@[3] matches SettingKindMut::Toggle(setting) && *setting == old(self).fullscreen
                && *final(setting) == final(self).fullscreen,
    {
        let mut kinds: Vec<SettingKindMut<'_>> = Vec::new();
        kinds.push(SettingKindMut::ComboBox(&mut self.ui_scale));
        kinds.push(SettingKindMut::Slider(&mut self.zoom));
        kinds.push(SettingKindMut::Slider(&mut self.camera_speed));
        kinds.push(SettingKindMut::Toggle(&mut self.fullscreen));
        kinds
    }

    /// The settings in their order on screen.
    pub fn iter(&self) -> (kinds: Vec<SettingKind<'_>>)
        ensures
            kinds@.len() == 4,
            kinds@[0] == SettingKind::ComboBox(&self.ui_scale),
            kinds@[1] == SettingKind::Slider(&self.zoom),
            kinds@[2] == SettingKind::Slider(&self.camera_speed),
            kinds@[3] == SettingKind::Toggle(&self.fullscreen),
    {
        let mut kinds: Vec<SettingKind<'_>> = Vec::new();
        kinds.push(SettingKind::ComboBox(&self.ui_scale));
        kinds.push(SettingKind::Slider(&self.zoom));
        kinds.push(SettingKind::Slider(&self.camera_speed));
        kinds.push(SettingKind::Toggle(&self.fullscreen));
        kinds
    }
}

} // verus!
