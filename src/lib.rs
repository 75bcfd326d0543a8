//! Rendering core for an LED array on a rotating bicycle wheel: rotation
//! tracking, the two-sided pixel buffer and its wire encoding, mode
//! scheduling, and the stateful rendering modes.
pub mod bitmap_text;
pub mod buttons;
pub mod cellblobs;
pub mod cellular;
pub mod dither;
pub mod jumble;
pub mod leds;
pub mod modes;
pub mod patterns;
pub mod random;
pub mod rotation;
pub mod schedule;
pub mod speckles;
pub mod stopped;
pub mod tracker_modes;
pub mod trails;
pub mod walks;
pub mod wheel;
