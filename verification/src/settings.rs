//! Preferences of the application.  Scales and sampling parameters are kept
//! as the bit patterns of IEEE-754 singles (`f32::to_bits`); the library
//! carries them and never computes with them.

use vstd::prelude::*;

verus! {

/// The address of a local Ollama server on its default port.
pub open spec fn default_ollama_url() -> Seq<char> {
    "http://127.0.0.1:11434"@
}

/// The address of a local Ollama server on its default port.
pub fn default_ollama_url_string() -> (r: String)
    ensures
        r@ == default_ollama_url(),
{
    String::from_str("http://127.0.0.1:11434")
}

/// `1.0f32`, the default zoom factor.
pub const DEFAULT_ZOOM_BITS: u32 = 0x3f80_0000u32;

/// `14.0f32`, the default body font size in points.
pub const DEFAULT_FONT_SIZE_BITS: u32 = 0x4160_0000u32;

/// `0.7f32`, the default sampling temperature.
pub const DEFAULT_TEMPERATURE_BITS: u32 = 0x3f33_3333u32;

/// `0.9f32`, the default nucleus sampling threshold.
pub const DEFAULT_TOP_P_BITS: u32 = 0x3f66_6666u32;

/// The default sampling temperature of a conversation, `0.7`.
pub fn default_temp() -> (r: u32)
    ensures
        r == DEFAULT_TEMPERATURE_BITS,
{
    DEFAULT_TEMPERATURE_BITS
}

/// The default nucleus sampling threshold of a conversation, `0.9`.
pub fn default_top_p() -> (r: u32)
    ensures
        r == DEFAULT_TOP_P_BITS,
{
    DEFAULT_TOP_P_BITS
}

/// The font family of the interface.
#[derive(Clone, Copy, Debug, PartialEq, Eq, Structural)]
pub enum SelectedFont {
    Proportional,
    Monospace,
}

/// The preferences that apply to the whole application.
pub struct AppSettings {
    pub ollama_url: String,
    pub dark_mode: bool,
    pub zoom_factor_bits: u32,
    pub selected_font: SelectedFont,
    pub base_font_size_bits: u32,
    pub default_system_prompt: String,
    pub default_temperature_bits: u32,
    pub default_top_p_bits: u32,
}

/// What the preferences hold, as values.
pub struct SettingsView {
    pub ollama_url: Seq<char>,
    pub dark_mode: bool,
    pub zoom_factor_bits: u32,
    pub selected_font: SelectedFont,
    pub base_font_size_bits: u32,
    pub default_system_prompt: Seq<char>,
    pub default_temperature_bits: u32,
    pub default_top_p_bits: u32,
}

impl View for AppSettings {
    type V = SettingsView;

    open spec fn view(&self) -> SettingsView {
        SettingsView {
            ollama_url: self.ollama_url@,
            dark_mode: self.dark_mode,
            zoom_factor_bits: self.zoom_factor_bits,
            selected_font: self.selected_font,
            base_font_size_bits: self.base_font_size_bits,
            default_system_prompt: self.default_system_prompt@,
            default_temperature_bits: self.default_temperature_bits,
            default_top_p_bits: self.default_top_p_bits,
        }
    }
}

/// The preferences a first start begins with.
pub open spec fn default_settings() -> SettingsView {
    SettingsView {
        ollama_url: default_ollama_url(),
        dark_mode: true,
        zoom_factor_bits: DEFAULT_ZOOM_BITS,
        selected_font: SelectedFont::Proportional,
        base_font_size_bits: DEFAULT_FONT_SIZE_BITS,
        default_system_prompt: Seq::empty(),
        default_temperature_bits: DEFAULT_TEMPERATURE_BITS,
        default_top_p_bits: DEFAULT_TOP_P_BITS,
    }
}

impl Default for AppSettings {
    fn default() -> (r: Self)
        ensures
            r@ == default_settings(),
    {
        AppSettings {
            ollama_url: default_ollama_url_string(),
            dark_mode: true,
            zoom_factor_bits: DEFAULT_ZOOM_BITS,
            selected_font: SelectedFont::Proportional,
            base_font_size_bits: DEFAULT_FONT_SIZE_BITS,
            default_system_prompt: String::new(),
            default_temperature_bits: DEFAULT_TEMPERATURE_BITS,
            default_top_p_bits: DEFAULT_TOP_P_BITS,
        }
    }
}

} // verus!
