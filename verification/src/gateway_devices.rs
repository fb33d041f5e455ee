//! The two ends of the binary protocol, each bound to its stream.
//!
//! A receiver keeps what has arrived and hands out the messages that have
//! arrived whole; a sender turns a message into the bytes of its frame. The
//! stream itself stays with the caller, who reads from it and writes to it.

use vstd::prelude::*;
use crate::bin_comm::{framed, read_struct, receive_length_prefix, unframed, write_struct, FrameError};
use crate::leaf_comm::{ButtonChange, Command, DeviceActions, EncoderTwist, RemoteConfig,
    SetBrightness, SetButtonImage, SetLCDImage};
use crate::wire::Wire;

verus! {

/// What a receiver that holds the bytes `pending` hands out next, and what
/// it holds afterwards.
///
/// A frame that has arrived whole is taken off and decoded; one whose
/// payload says nothing is an error and is taken off too. As long as the
/// frame is not whole nothing is handed out and nothing taken off.
pub open spec fn received<T: Wire>(pending: Seq<u8>) -> (Result<Option<T::V>, FrameError>, Seq<u8>) {
    match unframed(pending) {
        Err(_) => (Ok(None), pending),
        Ok((payload, taken)) => match T::decoded(payload) {
            Some(v) => (Ok(Some(v)), pending.skip(taken)),
            None => (Err(FrameError::Malformed), pending.skip(taken)),
        },
    }
}

/// What the end of the stream means to a receiver that holds `pending`:
/// nothing where it holds nothing, and otherwise that the stream ended inside
/// a frame.
pub open spec fn ended(pending: Seq<u8>) -> Result<(), FrameError> {
    if pending.len() == 0 {
        Ok(())
    } else {
        match unframed(pending) {
            Err(e) => Err(e),
            Ok(_) => Ok(()),
        }
    }
}

/// The bytes that have arrived on a stream and were not handed out yet.
#[derive(Debug)]
pub struct FrameBuffer {
    bytes: Vec<u8>,
}

impl View for FrameBuffer {
    type V = Seq<u8>;

    closed spec fn view(&self) -> Seq<u8> {
        self.bytes@
    }
}

impl FrameBuffer {
    /// A buffer that holds nothing.
    pub fn new() -> (r: Self)
        ensures
            r@ == Seq::<u8>::empty(),
    {
        FrameBuffer { bytes: Vec::new() }
    }

    /// Takes bytes that were read from the stream.
    pub fn push(&mut self, bytes: &[u8])
        ensures
            final(self)@ == old(self)@ + bytes@,
    {
        self.bytes.extend_from_slice(bytes);
        assert(self.bytes@ =~= old(self).bytes@ + bytes@);
    }

    /// Hands out the next message, where one has arrived whole: [`received`].
    pub fn take<T: Wire>(&mut self) -> (r: Result<Option<T>, FrameError>)
        ensures
            final(self)@ == received::<T>(old(self)@).1,
            match received::<T>(old(self)@).0 {
                Ok(Some(v)) => r matches Ok(Some(m)) && m@ == v,
                Ok(None) => r matches Ok(None),
                Err(e) => r matches Err(err) && err == e,
            },
    {
        match read_struct::<T>(self.bytes.as_slice()) {
            Ok((m, taken)) => {
                let rest = self.bytes.split_off(taken);
                self.bytes = rest;
                assert(self.bytes@ =~= old(self).bytes@.skip(taken as int));
                Ok(Some(m))
            },
            Err(FrameError::Malformed) => {
                let ghost taken = unframed(old(self).bytes@)->Ok_0.1;
                let (_, n) = match receive_length_prefix(self.bytes.as_slice()) {
                    Ok(f) => f,
                    Err(e) => {
                        return Err(e);
                    },
                };
                let rest = self.bytes.split_off(n);
                self.bytes = rest;
                assert(self.bytes@ =~= old(self).bytes@.skip(taken));
                Err(FrameError::Malformed)
            },
            Err(_) => Ok(None),
        }
    }

    /// Says whether the stream may end here: [`ended`].
    pub fn end_of_stream(&self) -> (r: Result<(), FrameError>)
        ensures
            r == ended(self@),
    {
        if self.bytes.len() == 0 {
            return Ok(());
        }
        match receive_length_prefix(self.bytes.as_slice()) {
            Ok(_) => Ok(()),
            Err(e) => Err(e),
        }
    }
}

/// The leaf's end towards the gateway, reading: what the device is told to
/// do.
pub struct GatewayCompanionReceiver<R> {
    /// The stream that the bytes come from.
    pub reader: R,
    /// What has arrived.
    pub buffer: FrameBuffer,
}

impl<R> GatewayCompanionReceiver<R> {
    /// A receiver on `reader`, with nothing arrived yet.
    pub fn new(reader: R) -> (r: Self)
        ensures
            r.reader == reader,
            r.buffer@ == Seq::<u8>::empty(),
    {
        GatewayCompanionReceiver { reader, buffer: FrameBuffer::new() }
    }

    /// Hands out the next action, where one has arrived whole: [`received`].
    pub fn receive(&mut self) -> (r: Result<Option<DeviceActions>, FrameError>)
        ensures
            final(self).reader == old(self).reader,
            final(self).buffer@ == received::<DeviceActions>(old(self).buffer@).1,
            match received::<DeviceActions>(old(self).buffer@).0 {
                Ok(Some(v)) => r matches Ok(Some(m)) && m@ == v,
                Ok(None) => r matches Ok(None),
                Err(e) => r matches Err(err) && err == e,
            },
    {
        self.buffer.take::<DeviceActions>()
    }
}

/// The gateway's end towards a leaf, reading: what the device reports.
pub struct GatewayDeviceReceiver<R> {
    /// The stream that the bytes come from.
    pub reader: R,
    /// What has arrived.
    pub buffer: FrameBuffer,
}

impl<R> GatewayDeviceReceiver<R> {
    /// A receiver on `reader`, with nothing arrived yet.
    pub fn new(reader: R) -> (r: Self)
        ensures
            r.reader == reader,
            r.buffer@ == Seq::<u8>::empty(),
    {
        GatewayDeviceReceiver { reader, buffer: FrameBuffer::new() }
    }

    /// Hands out the next report, where one has arrived whole: [`received`].
    pub fn receive(&mut self) -> (r: Result<Option<Command>, FrameError>)
        ensures
            final(self).reader == old(self).reader,
            final(self).buffer@ == received::<Command>(old(self).buffer@).1,
            match received::<Command>(old(self).buffer@).0 {
                Ok(Some(v)) => r matches Ok(Some(m)) && m@ == v,
                Ok(None) => r matches Ok(None),
                Err(e) => r matches Err(err) && err == e,
            },
    {
        self.buffer.take::<Command>()
    }
}

/// The frame of a message, where its encoding fits one.
pub open spec fn frame_of<T: Wire>(v: T::V) -> Result<Seq<u8>, FrameError> {
    if T::encoded(v).len() <= 0xffff_ffff {
        Ok(framed(T::encoded(v)))
    } else {
        Err(FrameError::TooLong)
    }
}

fn frame<T: Wire>(message: &T) -> (r: Result<Vec<u8>, FrameError>)
    ensures
        match frame_of::<T>(message@) {
            Ok(bytes) => r matches Ok(v) && v@ == bytes,
            Err(e) => r matches Err(err) && err == e,
        },
{
    let mut out: Vec<u8> = Vec::new();
    match write_struct(&mut out, message) {
        Ok(_) => {
            assert(out@ =~= framed(T::encoded(message@)));
            Ok(out)
        },
        Err(e) => Err(e),
    }
}

/// The leaf's end towards the gateway, writing: what the device reports.
pub struct GatewayCompanionSender<W> {
    /// The stream that the frames go to.
    pub writer: W,
}

impl<W> GatewayCompanionSender<W> {
    /// A sender on `writer`.
    pub fn new(writer: W) -> (r: Self)
        ensures
            r.writer == writer,
    {
        GatewayCompanionSender { writer }
    }

    /// The frame that announces the device.
    pub fn config(&self, config: RemoteConfig) -> (r: Result<Vec<u8>, FrameError>)
        ensures
            match frame_of::<Command>(Command::Config(config)@) {
                Ok(bytes) => r matches Ok(v) && v@ == bytes,
                Err(e) => r matches Err(err) && err == e,
            },
    {
        frame(&Command::Config(config))
    }

    /// The frame that reports buttons.
    pub fn button_change(&self, change: ButtonChange) -> (r: Result<Vec<u8>, FrameError>)
        ensures
            match frame_of::<Command>(Command::ButtonChange(change)@) {
                Ok(bytes) => r matches Ok(v) && v@ == bytes,
                Err(e) => r matches Err(err) && err == e,
            },
    {
        frame(&Command::ButtonChange(change))
    }

    /// The frame that reports turns of the encoders.
    pub fn encoder_twist(&self, twist: EncoderTwist) -> (r: Result<Vec<u8>, FrameError>)
        ensures
            match frame_of::<Command>(Command::EncoderTwist(twist)@) {
                Ok(bytes) => r matches Ok(v) && v@ == bytes,
                Err(e) => r matches Err(err) && err == e,
            },
    {
        frame(&Command::EncoderTwist(twist))
    }
}

/// The gateway's end towards a leaf, writing: what the device is told to do.
pub struct GatewayDeviceSender<W> {
    /// The stream that the frames go to.
    pub writer: W,
}

impl<W> GatewayDeviceSender<W> {
    /// A sender on `writer`.
    pub fn new(writer: W) -> (r: Self)
        ensures
            r.writer == writer,
    {
        GatewayDeviceSender { writer }
    }

    /// The frame that sets the brightness.
    pub fn set_brightness(&self, brightness: SetBrightness) -> (r: Result<Vec<u8>, FrameError>)
        ensures
            match frame_of::<DeviceActions>(DeviceActions::SetBrightness(brightness)@) {
                Ok(bytes) => r matches Ok(v) && v@ == bytes,
                Err(e) => r matches Err(err) && err == e,
            },
    {
        frame(&DeviceActions::SetBrightness(brightness))
    }

    /// The frame that puts an image on a button.
    pub fn set_button_image(&self, image: SetButtonImage) -> (r: Result<Vec<u8>, FrameError>)
        ensures
            match frame_of::<DeviceActions>(DeviceActions::SetButtonImage(image)@) {
                Ok(bytes) => r matches Ok(v) && v@ == bytes,
                Err(e) => r matches Err(err) && err == e,
            },
    {
        frame(&DeviceActions::SetButtonImage(image))
    }

    /// The frame that puts an image on the LCD strip.
    pub fn set_lcd_image(&self, image: SetLCDImage) -> (r: Result<Vec<u8>, FrameError>)
        ensures
            match frame_of::<DeviceActions>(DeviceActions::SetLCDImage(image)@) {
                Ok(bytes) => r matches Ok(v) && v@ == bytes,
                Err(e) => r matches Err(err) && err == e,
            },
    {
        frame(&DeviceActions::SetLCDImage(image))
    }
}

} // verus!
