//! The way from a line of the controller to the device: the line is read,
//! routed, and what it asks for is done on the device.

use vstd::prelude::*;
use vstd::string::*;
use crate::cache::lru_put;
use crate::companion::parse_line;
use crate::leaf_comm::DeviceActions;
use crate::receiver::{action_of, cache_key, processed, DefaultCommandProcessor, ReceiveError, RouteError, Routed,
    TranscodeJob};

verus! {

/// A device refused what it was told.
#[derive(Debug)]
pub struct DeviceError {}

/// A device that can be told what to show. Whether it does what it is told
/// is the device's own matter: the library says nothing of its answers.
pub trait StreamDeckDevice {
    /// Sets the brightness of the device, in percent.
    fn set_brightness(&mut self, brightness: u8) -> (r: Result<(), DeviceError>);

    /// Puts an image, in the device's own encoding, on a button.
    fn set_button_image(&mut self, button: u8, image: Vec<u8>) -> (r: Result<(), DeviceError>);

    /// Puts an image, in the device's own encoding, on the LCD strip.
    fn set_lcd_image(&mut self, x_offset: u16, x_size: u16, y_size: u16, image: Vec<u8>) -> (r:
        Result<(), DeviceError>);
}

/// Why a line was not carried out.
#[derive(Debug)]
pub enum HandleError {
    /// The line is no command, or its bitmap was refused.
    Receive(ReceiveError),
    /// The device refused.
    Device(DeviceError),
}

/// That the device behind `d`, told what `action` says, may answer `r`:
/// each kind of action goes to the operation of the device that is made for
/// it, with the fields of the action as they are.
pub open spec fn answered<D: StreamDeckDevice>(
    d: &mut D,
    action: DeviceActions,
    r: Result<(), DeviceError>,
) -> bool {
    match action {
        DeviceActions::SetBrightness(b) => call_ensures(D::set_brightness, (d, b.brightness), r),
        DeviceActions::SetButtonImage(b) => call_ensures(
            D::set_button_image,
            (d, b.button, b.image),
            r,
        ),
        DeviceActions::SetLCDImage(l) => call_ensures(
            D::set_lcd_image,
            (d, l.x_offset, l.x_size, l.y_size, l.image),
            r,
        ),
    }
}

/// Tells the device what an action says: [`answered`]. The device is told
/// as it stands, the result is the device's, and so is what becomes of the
/// device.
pub fn send_action<D: StreamDeckDevice>(device: &mut D, action: DeviceActions) -> (r: Result<
    (),
    DeviceError,
>)
    ensures
        exists|d: &mut D|
            {
                &&& *d == *old(device)
                &&& *final(d) == *final(device)
                &&& #[trigger] answered(d, action, r)
            },
{
    let ghost told = action;
    match action {
        DeviceActions::SetBrightness(b) => {
            let r = device.set_brightness(b.brightness);
            proof {
                let d = choose|d: &mut D|
                    *d == *old(device) && *final(d) == *final(device) && #[trigger] call_ensures(
                        D::set_brightness,
                        (d, b.brightness),
                        r,
                    );
                assert(answered(d, told, r));
            }
            r
        },
        DeviceActions::SetButtonImage(b) => {
            let ghost image = b.image;
            let r = device.set_button_image(b.button, b.image);
            proof {
                let d = choose|d: &mut D|
                    *d == *old(device) && *final(d) == *final(device) && #[trigger] call_ensures(
                        D::set_button_image,
                        (d, b.button, image),
                        r,
                    );
                assert(answered(d, told, r));
            }
            r
        },
        DeviceActions::SetLCDImage(l) => {
            let ghost image = l.image;
            let r = device.set_lcd_image(l.x_offset, l.x_size, l.y_size, l.image);
            proof {
                let d = choose|d: &mut D|
                    *d == *old(device) && *final(d) == *final(device) && #[trigger] call_ensures(
                        D::set_lcd_image,
                        (d, l.x_offset, l.x_size, l.y_size, image),
                        r,
                    );
                assert(answered(d, told, r));
            }
            r
        },
    }
}

/// What becomes of a routed command that is no action: a job is handed
/// back, a refusal is passed on, and for an ignored command there is nothing
/// to do.
pub open spec fn handled(
    routed: Result<Routed, RouteError>,
    r: Result<Option<TranscodeJob>, HandleError>,
) -> bool {
    match routed {
        Err(e) => r matches Err(HandleError::Receive(ReceiveError::Route(err))) && err == e,
        Ok(Routed::Ignored) => r matches Ok(None),
        Ok(Routed::Transcode(job)) => r matches Ok(Some(j)) && j == job,
        Ok(Routed::Action(_)) => false,
    }
}

/// The result of handling a line that led to an action, from the device's
/// answer to it.
pub open spec fn acted(outcome: Result<(), DeviceError>) -> Result<Option<TranscodeJob>, HandleError> {
    match outcome {
        Ok(_) => Ok(None),
        Err(e) => Err(HandleError::Device(e)),
    }
}

/// Handles one line of the controller.
///
/// The line is read and routed as [`processed`] says. Where that gives an
/// action, the device is told the action, and the result is the device's
/// answer. In every other case the device is left as it is: an image that
/// is yet to be converted comes back as a job, for
/// [`finish_companion_data`]; a line that is no command, and a bitmap that
/// is refused, are errors; an ignored command gives no job.
pub fn handle_companion_data<D: StreamDeckDevice>(
    line: &str,
    processor: &mut DefaultCommandProcessor,
    device: &mut D,
) -> (r: Result<Option<TranscodeJob>, HandleError>)
    requires
        old(processor).wf(),
    ensures
        final(processor).wf(),
        final(processor).shape() == old(processor).shape(),
        final(processor).capacity() == old(processor).capacity(),
        match parse_line(line.spec_bytes()) {
            Err(e) => {
                &&& final(processor).entries() == old(processor).entries()
                &&& *final(device) == *old(device)
                &&& r matches Err(HandleError::Receive(ReceiveError::Parse(err))) && err == e
            },
            Ok(command) => exists|routed: Result<Routed, RouteError>|
                {
                    &&& #[trigger] processed(
                        old(processor).shape(),
                        old(processor).capacity(),
                        old(processor).entries(),
                        command,
                        routed,
                        final(processor).entries(),
                    )
                    &&& routed matches Ok(Routed::Action(_)) ==> exists|
                        d: &mut D,
                        outcome: Result<(), DeviceError>,
                    |
                        {
                            &&& *d == *old(device)
                            &&& *final(d) == *final(device)
                            &&& #[trigger] answered(d, routed->Ok_0->Action_0, outcome)
                            &&& r == acted(outcome)
                        }
                    &&& !(routed matches Ok(Routed::Action(_))) ==> {
                        &&& *final(device) == *old(device)
                        &&& handled(routed, r)
                    }
                },
        },
{
    let ghost shape = processor.shape();
    let ghost capacity = processor.capacity();
    let ghost before = processor.entries();
    let ghost command = parse_line(line.spec_bytes());
    match processor.handle_line(line) {
        Err(ReceiveError::Parse(e)) => Err(HandleError::Receive(ReceiveError::Parse(e))),
        Err(ReceiveError::Route(e)) => {
            let ghost routed = Err::<Routed, RouteError>(e);
            assert(processed(shape, capacity, before, command->Ok_0, routed, processor.entries()));
            Err(HandleError::Receive(ReceiveError::Route(e)))
        },
        Ok(Routed::Ignored) => {
            let ghost routed = Ok::<Routed, RouteError>(Routed::Ignored);
            assert(processed(shape, capacity, before, command->Ok_0, routed, processor.entries()));
            Ok(None)
        },
        Ok(Routed::Transcode(job)) => {
            let ghost routed = Ok::<Routed, RouteError>(Routed::Transcode(job));
            assert(processed(shape, capacity, before, command->Ok_0, routed, processor.entries()));
            Ok(Some(job))
        },
        Ok(Routed::Action(action)) => {
            let ghost routed = Ok::<Routed, RouteError>(Routed::Action(action));
            assert(processed(shape, capacity, before, command->Ok_0, routed, processor.entries()));
            let outcome = send_action(device, action);
            match outcome {
                Ok(_) => Ok(None),
                Err(e) => Err(HandleError::Device(e)),
            }
        },
    }
}

/// Takes the converted image of a job: caches it, and tells the device the
/// action that shows it. The device is told as it stands, the result is the
/// device's answer, and so is what becomes of the device.
pub fn finish_companion_data<D: StreamDeckDevice>(
    job: TranscodeJob,
    native: Vec<u8>,
    processor: &mut DefaultCommandProcessor,
    device: &mut D,
) -> (r: Result<(), DeviceError>)
    requires
        old(processor).wf(),
    ensures
        final(processor).wf(),
        final(processor).shape() == old(processor).shape(),
        final(processor).capacity() == old(processor).capacity(),
        final(processor).entries() == lru_put(
            old(processor).entries(),
            old(processor).capacity(),
            cache_key(job.target, job.bitmap_base64@),
            (job.x_offset, job.width, job.height, native@),
        ),
        exists|action: DeviceActions, d: &mut D|
            {
                &&& action@ == action_of(job.target, (job.x_offset, job.width, job.height, native@))
                &&& *d == *old(device)
                &&& *final(d) == *final(device)
                &&& #[trigger] answered(d, action, r)
            },
{
    let action = processor.finish(job, native);
    send_action(device, action)
}

} // verus!
