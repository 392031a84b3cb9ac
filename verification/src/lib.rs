//! Verified cores of a set of embedded and plugin experiments: a manual
//! two-future join, a flag-driven polling loop, display rotation and layout,
//! WS2812 LED frame encoding, an ESB link test, Typst plugin helpers, a
//! keyboard-hook message classifier and a few small event handlers.
pub mod join;
pub mod polling;
pub mod display;
pub mod ws2812;
pub mod esb;
pub mod text;
pub mod keyhook;
pub mod ble;
pub mod blink;
pub mod ui;
pub mod plugin;
