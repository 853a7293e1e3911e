//! A DDC/CI monitor as `ddcutil detect` reports it.
use vstd::prelude::*;

verus! {

/// A monitor found by `ddcutil detect`.
#[derive(Debug, Clone)]
pub struct Monitor {
    /// The display number that `ddcutil --display` takes.
    pub display_number: u8,
    /// The I2C bus device, where the report names one.
    pub i2c_bus: Option<String>,
    /// The name shown to the user.
    pub name: String,
}

/// The contents of a `Monitor`, with its strings as character sequences.
pub struct MonitorView {
    pub display_number: u8,
    pub i2c_bus: Option<Seq<char>>,
    pub name: Seq<char>,
}

impl View for Monitor {
    type V = MonitorView;

    open spec fn view(&self) -> MonitorView {
        MonitorView {
            display_number: self.display_number,
            i2c_bus: match self.i2c_bus {
                Some(b) => Some(b@),
                None => None,
            },
            name: self.name@,
        }
    }
}

/// The contents of each monitor of `ms`.
pub open spec fn monitors_view(ms: Seq<Monitor>) -> Seq<MonitorView> {
    ms.map_values(|m: Monitor| m@)
}

} // verus!
