//! The messages of the binary protocol between the bridge and the device
//! side: what a device reports, and what it is told to show.

use vstd::prelude::*;

verus! {

/// What a device is: sent once, first, when a device connects.
#[derive(Debug, Clone)]
pub struct RemoteConfig {
    /// The hardware product id of the device.
    pub pid: u16,
    /// The id that the device goes by towards the controller.
    pub device_id: String,
}

/// [`RemoteConfig`] with a borrowed id.
#[derive(Debug, Clone)]
pub struct BorrowedRemoteConfig<'a> {
    /// The hardware product id of the device.
    pub pid: u16,
    /// The id that the device goes by towards the controller.
    pub device_id: &'a str,
}

/// Buttons that changed, each with its index and its new state.
#[derive(Debug, Clone)]
pub struct ButtonChange {
    pub buttons: Vec<(u8, bool)>,
}

/// Encoders that were pressed or released, each with its index and its new
/// state.
#[derive(Debug, Clone)]
pub struct EncoderChange {
    pub encoders: Vec<(u8, bool)>,
}

/// Encoders that were turned, each with its index and the signed number of
/// steps.
#[derive(Debug, Clone)]
pub struct EncoderTwist {
    pub encoders: Vec<(u8, i8)>,
}

/// Everything a device can report.
#[derive(Debug, Clone)]
pub enum Command {
    Config(RemoteConfig),
    ButtonChange(ButtonChange),
    EncoderChange(EncoderChange),
    EncoderTwist(EncoderTwist),
}

/// An image for a region of the LCD strip, in the device's own encoding.
#[derive(Debug, Clone)]
pub struct SetLCDImage {
    /// Horizontal offset of the region on the strip, in pixels.
    pub x_offset: u16,
    /// Width of the image.
    pub x_size: u16,
    /// Height of the image.
    pub y_size: u16,
    pub image: Vec<u8>,
}

/// A brightness for the device, in percent.
#[derive(Debug, Clone)]
pub struct SetBrightness {
    pub brightness: u8,
}

/// An image for a button, in the device's own encoding.
#[derive(Debug, Clone)]
pub struct SetButtonImage {
    pub button: u8,
    pub image: Vec<u8>,
}

/// Everything a device can be told to do.
#[derive(Debug, Clone)]
pub enum DeviceActions {
    SetButtonImage(SetButtonImage),
    SetLCDImage(SetLCDImage),
    SetBrightness(SetBrightness),
}

/// What a [`Command`] says.
pub enum CommandView {
    Config { pid: u16, device_id: Seq<char> },
    ButtonChange(Seq<(u8, bool)>),
    EncoderChange(Seq<(u8, bool)>),
    EncoderTwist(Seq<(u8, i8)>),
}

/// What a [`DeviceActions`] says.
pub enum DeviceActionsView {
    SetButtonImage { button: u8, image: Seq<u8> },
    SetLCDImage { x_offset: u16, x_size: u16, y_size: u16, image: Seq<u8> },
    SetBrightness { brightness: u8 },
}

impl View for Command {
    type V = CommandView;

    open spec fn view(&self) -> CommandView {
        match self {
            Command::Config(c) => CommandView::Config { pid: c.pid, device_id: c.device_id@ },
            Command::ButtonChange(c) => CommandView::ButtonChange(c.buttons@),
            Command::EncoderChange(c) => CommandView::EncoderChange(c.encoders@),
            Command::EncoderTwist(c) => CommandView::EncoderTwist(c.encoders@),
        }
    }
}

impl View for DeviceActions {
    type V = DeviceActionsView;

    open spec fn view(&self) -> DeviceActionsView {
        match self {
            DeviceActions::SetButtonImage(a) => DeviceActionsView::SetButtonImage {
                button: a.button,
                image: a.image@,
            },
            DeviceActions::SetLCDImage(a) => DeviceActionsView::SetLCDImage {
                x_offset: a.x_offset,
                x_size: a.x_size,
                y_size: a.y_size,
                image: a.image@,
            },
            DeviceActions::SetBrightness(a) => DeviceActionsView::SetBrightness {
                brightness: a.brightness,
            },
        }
    }
}

} // verus!
