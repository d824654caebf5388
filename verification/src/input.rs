//! Input-source vocabulary: buttons, axes, and the presentation-ready
//! gamepad value, plus the trait an input backend implements.
//!
//! The backend itself (a platform's controller query) is the host's: it
//! does foreign-interface input/output that cannot be verified. What the
//! engine and its callers exchange about a controller is modeled here.

use vstd::prelude::*;

verus! {

/// A controller's buttons, triggers included.
#[derive(Clone, Debug, Eq, Hash, PartialEq, Structural)]
pub enum Buttons {
    A,
    B,
    X,
    Y,
    LeftShoulder,
    RightShoulder,
    Back,
    Start,
    LeftThumb,
    RightThumb,
    DPadUp,
    DPadDown,
    DPadLeft,
    DPadRight,
    LeftTrigger,
    RightTrigger,
}

impl Buttons {
    /// The button's display name.
    pub open spec fn spec_name(self) -> Seq<char> {
        match self {
            Buttons::A => "A"@,
            Buttons::B => "B"@,
            Buttons::X => "X"@,
            Buttons::Y => "Y"@,
            Buttons::LeftShoulder => "LeftShoulder"@,
            Buttons::RightShoulder => "RightShoulder"@,
            Buttons::Back => "Back"@,
            Buttons::Start => "Start"@,
            Buttons::LeftThumb => "LeftThumb"@,
            Buttons::RightThumb => "RightThumb"@,
            Buttons::DPadUp => "DPadUp"@,
            Buttons::DPadDown => "DPadDown"@,
            Buttons::DPadLeft => "DPadLeft"@,
            Buttons::DPadRight => "DPadRight"@,
            Buttons::LeftTrigger => "LeftTrigger"@,
            Buttons::RightTrigger => "RightTrigger"@,
        }
    }

    pub fn name(&self) -> (s: String)
        ensures
            s@ == self.spec_name(),
    {
        match self {
            Buttons::A => String::from_str("A"),
            Buttons::B => String::from_str("B"),
            Buttons::X => String::from_str("X"),
            Buttons::Y => String::from_str("Y"),
            Buttons::LeftShoulder => String::from_str("LeftShoulder"),
            Buttons::RightShoulder => String::from_str("RightShoulder"),
            Buttons::Back => String::from_str("Back"),
            Buttons::Start => String::from_str("Start"),
            Buttons::LeftThumb => String::from_str("LeftThumb"),
            Buttons::RightThumb => String::from_str("RightThumb"),
            Buttons::DPadUp => String::from_str("DPadUp"),
            Buttons::DPadDown => String::from_str("DPadDown"),
            Buttons::DPadLeft => String::from_str("DPadLeft"),
            Buttons::DPadRight => String::from_str("DPadRight"),
            Buttons::LeftTrigger => String::from_str("LeftTrigger"),
            Buttons::RightTrigger => String::from_str("RightTrigger"),
        }
    }
}

/// The four analog axes: both sticks' X/Y pairs.
#[derive(Clone, Debug, Eq, Hash, PartialEq, Structural)]
pub enum Axes {
    LeftThumbX,
    LeftThumbY,
    RightThumbX,
    RightThumbY,
}

impl Axes {
    /// The axis's display name.
    pub open spec fn spec_name(self) -> Seq<char> {
        match self {
            Axes::LeftThumbX => "LeftThumbX"@,
            Axes::LeftThumbY => "LeftThumbY"@,
            Axes::RightThumbX => "RightThumbX"@,
            Axes::RightThumbY => "RightThumbY"@,
        }
    }

    pub fn name(&self) -> (s: String)
        ensures
            s@ == self.spec_name(),
    {
        match self {
            Axes::LeftThumbX => String::from_str("LeftThumbX"),
            Axes::LeftThumbY => String::from_str("LeftThumbY"),
            Axes::RightThumbX => String::from_str("RightThumbX"),
            Axes::RightThumbY => String::from_str("RightThumbY"),
        }
    }
}

/// One axis's raw value.
#[derive(Debug, Clone)]
pub struct Axis {
    pub axis: Axes,
    pub value: i16,
}

/// One button's state; analog triggers carry their raw value.
#[derive(Debug, Clone)]
pub struct Button {
    pub button: Buttons,
    pub is_pressed: bool,
    pub value: u8,
}

/// A controller as an input backend reports it.
#[derive(Debug)]
pub struct Gamepad {
    pub id: u32,
    pub name: String,
    pub vendor_id: Option<u16>,
    pub product_id: Option<u16>,
    pub guid: String,
    pub power_info: String,
    pub axes: Vec<Axis>,
    pub buttons: Vec<Button>,
}

/// What an input backend offers: raw state of type `T`, errors of type
/// `E`, device enumeration, and the current controller and axis values.
/// The host's backend does the platform calls; nothing here is contracted,
/// so nothing is trusted about it.
pub trait RawInput<T, E>: Sized {
    fn new() -> Self;

    fn set_state(&self, state: T);

    fn get_state(&self) -> Result<T, E>;

    fn update(&self, id: u32) -> Result<T, E>;

    fn all_device_id(&self) -> Vec<u32>;

    fn get_controller(&self, id: u32) -> Result<Gamepad, E>;

    fn get_axis_val(&self) -> Option<(i16, i16, i16, i16)>;
}

} // verus!
