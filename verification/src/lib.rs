//! The logic of a DDC/CI brightness control: reading what `ddcutil`
//! reports, building its command lines, and the decisions of its window.
pub mod brightness;
pub mod controller;
pub mod detect;
pub mod monitor;
pub mod parser;
pub mod roundtrip;
pub mod text;
