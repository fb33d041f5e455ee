//! The decisions of the message pump, which relays between a device and the
//! controller.
//!
//! The pump itself neither reads nor writes. Whoever drives it hands it what
//! happened, a message from one side or the failure of a side, and does what
//! it answers. Both directions go through the one pump, so that the failure of
//! one direction stops the other.

use vstd::prelude::*;
use crate::leaf_comm::{ButtonChange, Command, CommandView, DeviceActions, DeviceActionsView,
    EncoderTwist, RemoteConfig, SetBrightness, SetButtonImage, SetLCDImage};
use crate::receiver::DeviceShape;
use crate::streamdeck::{apply_changes, input_count, lemma_repeat_is_silent, transitions, KeyState};

verus! {

/// What happened on one of the two sides.
#[derive(Debug, Clone)]
pub enum PumpEvent {
    /// The device reported this.
    FromDevice(Command),
    /// The controller asked for this.
    FromController(DeviceActions),
    /// Reading from the device or writing to it failed, or its stream ended.
    DeviceFailed,
    /// Reading from the controller or writing to it failed, or its stream
    /// ended.
    ControllerFailed,
}

/// What is to be done about an event.
#[derive(Debug, Clone)]
pub enum PumpAction {
    /// Register the device with the controller.
    AddDevice(RemoteConfig),
    /// Report these buttons to the controller, and flush.
    ButtonChange(ButtonChange),
    /// Report these turns to the controller, and flush.
    EncoderTwist(EncoderTwist),
    /// Show this image on a button of the device.
    SetButtonImage(SetButtonImage),
    /// Show this image on the LCD strip of the device.
    SetLCDImage(SetLCDImage),
    /// Set the brightness of the device.
    SetBrightness(SetBrightness),
    /// Nothing is to be done.
    Nothing,
    /// Stop both directions and close the connection.
    Stop,
}

/// What a [`PumpEvent`] says.
pub enum PumpEventView {
    FromDevice(CommandView),
    FromController(DeviceActionsView),
    DeviceFailed,
    ControllerFailed,
}

/// What a [`PumpAction`] says.
pub enum PumpActionView {
    AddDevice { pid: u16, device_id: Seq<char> },
    ButtonChange(Seq<(u8, bool)>),
    EncoderTwist(Seq<(u8, i8)>),
    ToDevice(DeviceActionsView),
    Nothing,
    Stop,
}

impl View for PumpEvent {
    type V = PumpEventView;

    open spec fn view(&self) -> PumpEventView {
        match self {
            PumpEvent::FromDevice(c) => PumpEventView::FromDevice(c@),
            PumpEvent::FromController(a) => PumpEventView::FromController(a@),
            PumpEvent::DeviceFailed => PumpEventView::DeviceFailed,
            PumpEvent::ControllerFailed => PumpEventView::ControllerFailed,
        }
    }
}

impl View for PumpAction {
    type V = PumpActionView;

    open spec fn view(&self) -> PumpActionView {
        match self {
            PumpAction::AddDevice(c) => PumpActionView::AddDevice {
                pid: c.pid,
                device_id: c.device_id@,
            },
            PumpAction::ButtonChange(c) => PumpActionView::ButtonChange(c.buttons@),
            PumpAction::EncoderTwist(c) => PumpActionView::EncoderTwist(c.encoders@),
            PumpAction::SetButtonImage(a) => PumpActionView::ToDevice(
                DeviceActionsView::SetButtonImage { button: a.button, image: a.image@ },
            ),
            PumpAction::SetLCDImage(a) => PumpActionView::ToDevice(
                DeviceActionsView::SetLCDImage {
                    x_offset: a.x_offset,
                    x_size: a.x_size,
                    y_size: a.y_size,
                    image: a.image@,
                },
            ),
            PumpAction::SetBrightness(a) => PumpActionView::ToDevice(
                DeviceActionsView::SetBrightness { brightness: a.brightness },
            ),
            PumpAction::Nothing => PumpActionView::Nothing,
            PumpAction::Stop => PumpActionView::Stop,
        }
    }
}

/// The state of a pump.
pub struct PumpState {
    /// Whether the connection is still up.
    pub running: bool,
    /// Whether the device was registered.
    pub configured: bool,
    /// The debounced state of the device's inputs.
    pub keys: Seq<bool>,
    /// The logical input of the first encoder.
    pub encoder_offset: int,
}

/// A list of reports with indices of the width that the key state takes.
pub open spec fn widened(changes: Seq<(u8, bool)>) -> Seq<(usize, bool)> {
    Seq::new(changes.len(), |i: int| (changes[i].0 as usize, changes[i].1))
}

/// Whether an event is the failure of a side.
pub open spec fn is_failure(e: PumpEventView) -> bool {
    e is DeviceFailed || e is ControllerFailed
}

/// One step of the pump: the state after the event, and what is to be done.
///
/// A pump that has stopped answers `Stop` to everything. The failure of
/// either side stops it. The first configuration of the device registers it;
/// a later one is dropped. Reports of buttons and of encoder presses go
/// through the debounced state, buttons from input 0 on, encoders from their
/// offset on, and what changed is passed on in ascending order. Turns are
/// passed on as they are. What the controller asks for goes to the device.
pub open spec fn pump_step(s: PumpState, e: PumpEventView) -> (PumpState, PumpActionView) {
    if !s.running {
        (s, PumpActionView::Stop)
    } else {
        match e {
            PumpEventView::DeviceFailed => (PumpState { running: false, ..s }, PumpActionView::Stop),
            PumpEventView::ControllerFailed => (
                PumpState { running: false, ..s },
                PumpActionView::Stop,
            ),
            PumpEventView::FromDevice(CommandView::Config { pid, device_id }) => if s.configured {
                (s, PumpActionView::Nothing)
            } else {
                (PumpState { configured: true, ..s }, PumpActionView::AddDevice { pid, device_id })
            },
            PumpEventView::FromDevice(CommandView::ButtonChange(l)) => {
                let keys = apply_changes(s.keys, 0, widened(l));
                (PumpState { keys, ..s }, PumpActionView::ButtonChange(transitions(s.keys, keys)))
            },
            PumpEventView::FromDevice(CommandView::EncoderChange(l)) => {
                let keys = apply_changes(s.keys, s.encoder_offset, widened(l));
                (PumpState { keys, ..s }, PumpActionView::ButtonChange(transitions(s.keys, keys)))
            },
            PumpEventView::FromDevice(CommandView::EncoderTwist(l)) => (
                s,
                PumpActionView::EncoderTwist(l),
            ),
            PumpEventView::FromController(a) => (s, PumpActionView::ToDevice(a)),
        }
    }
}

/// Fail-fast: once a side has failed the pump answers `Stop`, to that event
/// and to every event after it, whichever side it comes from. Neither
/// direction outlives the other.
pub proof fn lemma_fail_fast(s: PumpState, failure: PumpEventView, later: PumpEventView)
    requires
        is_failure(failure),
    ensures
        pump_step(s, failure).1 == PumpActionView::Stop,
        !pump_step(s, failure).0.running,
        pump_step(pump_step(s, failure).0, later).1 == PumpActionView::Stop,
        !pump_step(pump_step(s, failure).0, later).0.running,
{
}

/// Debounce: a report of buttons that comes twice in a row passes nothing on
/// the second time.
pub proof fn lemma_repeated_report_is_silent(s: PumpState, buttons: Seq<(u8, bool)>)
    requires
        s.running,
    ensures
        ({
            let report = PumpEventView::FromDevice(CommandView::ButtonChange(buttons));
            pump_step(pump_step(s, report).0, report).1 == PumpActionView::ButtonChange(
                Seq::empty(),
            )
        }),
{
    lemma_repeat_is_silent(s.keys, 0, widened(buttons));
}

/// A pump that has stopped stays stopped.
pub proof fn lemma_stopped_stays_stopped(s: PumpState, e: PumpEventView)
    requires
        !s.running,
    ensures
        pump_step(s, e).1 == PumpActionView::Stop,
        !pump_step(s, e).0.running,
{
}

/// The pump of one connection.
pub struct MessagePump {
    running: bool,
    configured: bool,
    keys: KeyState,
    encoder_offset: usize,
}

fn widen(changes: &Vec<(u8, bool)>) -> (r: Vec<(usize, bool)>)
    ensures
        r@ == widened(changes@),
{
    let mut out: Vec<(usize, bool)> = Vec::new();
    let mut i: usize = 0;
    while i < changes.len()
        invariant
            i <= changes@.len(),
            out@.len() == i,
            forall|k: int| 0 <= k < i ==> #[trigger] out@[k] == (changes@[k].0 as usize, changes@[k].1),
        decreases changes@.len() - i,
    {
        out.push((changes[i].0 as usize, changes[i].1));
        i += 1;
    }
    assert(out@ =~= widened(changes@));
    out
}

impl View for MessagePump {
    type V = PumpState;

    closed spec fn view(&self) -> PumpState {
        PumpState {
            running: self.running,
            configured: self.configured,
            keys: self.keys.view(),
            encoder_offset: self.encoder_offset as int,
        }
    }
}

impl MessagePump {
    /// The pump for a device of the given shape: running, with the device not
    /// yet registered and none of its inputs pressed. The encoders follow the
    /// buttons and, where there is an LCD strip, its columns.
    pub fn new(shape: &DeviceShape) -> (r: Self)
        ensures
            r@ == (PumpState {
                running: true,
                configured: false,
                keys: Seq::new(input_count(*shape) as nat, |i: int| false),
                encoder_offset: shape.key_count + (if shape.lcd_strip is Some {
                    shape.columns as int
                } else {
                    0
                }),
            }),
    {
        let strip: usize = if shape.lcd_strip.is_some() {
            shape.columns as usize
        } else {
            0
        };
        MessagePump {
            running: true,
            configured: false,
            keys: KeyState::for_shape(shape),
            encoder_offset: shape.key_count as usize + strip,
        }
    }

    /// Whether the connection is still up.
    pub fn is_running(&self) -> (r: bool)
        ensures
            r == self@.running,
    {
        self.running
    }

    /// Takes an event and says what is to be done: [`pump_step`].
    pub fn step(&mut self, event: PumpEvent) -> (r: PumpAction)
        ensures
            final(self)@ == pump_step(old(self)@, event@).0,
            r@ == pump_step(old(self)@, event@).1,
    {
        if !self.running {
            return PumpAction::Stop;
        }
        match event {
            PumpEvent::DeviceFailed => {
                self.running = false;
                PumpAction::Stop
            },
            PumpEvent::ControllerFailed => {
                self.running = false;
                PumpAction::Stop
            },
            PumpEvent::FromDevice(Command::Config(c)) => {
                if self.configured {
                    PumpAction::Nothing
                } else {
                    self.configured = true;
                    PumpAction::AddDevice(c)
                }
            },
            PumpEvent::FromDevice(Command::ButtonChange(c)) => {
                let changes = widen(&c.buttons);
                let buttons = self.keys.update_state(0, &changes);
                PumpAction::ButtonChange(ButtonChange { buttons })
            },
            PumpEvent::FromDevice(Command::EncoderChange(c)) => {
                let changes = widen(&c.encoders);
                let buttons = self.keys.update_state(self.encoder_offset, &changes);
                PumpAction::ButtonChange(ButtonChange { buttons })
            },
            PumpEvent::FromDevice(Command::EncoderTwist(c)) => PumpAction::EncoderTwist(c),
            PumpEvent::FromController(DeviceActions::SetButtonImage(a)) => PumpAction::SetButtonImage(
                a,
            ),
            PumpEvent::FromController(DeviceActions::SetLCDImage(a)) => PumpAction::SetLCDImage(a),
            PumpEvent::FromController(DeviceActions::SetBrightness(a)) => PumpAction::SetBrightness(
                a,
            ),
        }
    }
}

} // verus!
