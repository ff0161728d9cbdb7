//! The controller's configuration.
//!
//! One immutable value, constructed at startup from the configuration
//! file or from the defaults below, and passed into every component;
//! no component looks configuration up ambiently.

use vstd::prelude::*;

verus! {

/// Everything the controller can be configured with.
#[derive(PartialEq, Eq, Structural, Clone, Copy, Debug)]
pub struct Config {
    pub main_enabled: bool,
    pub tdp_control: bool,
    pub gpu_control: bool,
    pub max_tdp: i8,
    pub max_gpu: i16,
    pub mapper: bool,
    pub legacy_tdp: bool,
    pub auto_nkey_recovery: bool,
    pub spoof_glyphs: bool,
    pub nintendo_glyphs: bool,
}

/// The configuration used when no configuration file can be read, and
/// the value every absent field falls back to.
pub open spec fn spec_default_config() -> Config {
    Config {
        main_enabled: false,
        tdp_control: true,
        gpu_control: true,
        max_tdp: 15,
        max_gpu: 2000,
        mapper: true,
        legacy_tdp: true,
        auto_nkey_recovery: false,
        spoof_glyphs: false,
        nintendo_glyphs: false,
    }
}

impl Config {
    /// The default configuration.
    pub fn defaults() -> (c: Config)
        ensures
            c == spec_default_config(),
    {
        Config {
            main_enabled: false,
            tdp_control: true,
            gpu_control: true,
            max_tdp: 15,
            max_gpu: 2000,
            mapper: true,
            legacy_tdp: true,
            auto_nkey_recovery: false,
            spoof_glyphs: false,
            nintendo_glyphs: false,
        }
    }
}

/// The fallback for the field that switches the whole controller on.
pub fn default_main_enabled() -> (b: bool)
    ensures
        b == spec_default_config().main_enabled,
{
    false
}

/// The fallback for the field that allows power-limit control.
pub fn default_tdp_control() -> (b: bool)
    ensures
        b == spec_default_config().tdp_control,
{
    true
}

/// The fallback for the field that allows graphics-clock control.
pub fn default_gpu_control() -> (b: bool)
    ensures
        b == spec_default_config().gpu_control,
{
    true
}

/// The fallback for the highest power limit offered.
pub fn default_max_tdp() -> (v: i8)
    ensures
        v == spec_default_config().max_tdp,
{
    15
}

/// The fallback for the highest graphics clock offered.
pub fn default_max_gpu() -> (v: i16)
    ensures
        v == spec_default_config().max_gpu,
{
    2000
}

/// The fallback for the field that switches the button mapper on.
pub fn default_mapper() -> (b: bool)
    ensures
        b == spec_default_config().mapper,
{
    true
}

/// The fallback for the field that selects the older power-limit tool.
pub fn default_legacy_tdp() -> (b: bool)
    ensures
        b == spec_default_config().legacy_tdp,
{
    true
}

/// The fallback for the field that switches automatic controller-key
/// recovery on.
pub fn default_auto_nkey_recovery() -> (b: bool)
    ensures
        b == spec_default_config().auto_nkey_recovery,
{
    false
}

} // verus!
