use satellite_bridge::bin_comm::{read_struct, receive_length_prefix, write_length_prefix, write_struct, FrameError};
use satellite_bridge::gateway_devices::{FrameBuffer, GatewayCompanionReceiver, GatewayCompanionSender, GatewayDeviceReceiver, GatewayDeviceSender};
use satellite_bridge::leaf_comm::{ButtonChange, Command, DeviceActions, EncoderChange, EncoderTwist, RemoteConfig, SetBrightness, SetButtonImage, SetLCDImage};
use satellite_bridge::teensy::{frame_write, FrameAccumulator};
use satellite_bridge::wire::Wire;

fn actions() -> Vec<DeviceActions> {
    vec![
        DeviceActions::SetButtonImage(SetButtonImage { button: 7, image: vec![1, 2, 3, 255, 0] }),
        DeviceActions::SetButtonImage(SetButtonImage { button: 0, image: vec![] }),
        DeviceActions::SetLCDImage(SetLCDImage { x_offset: 700, x_size: 100, y_size: 65535, image: vec![9; 300] }),
        DeviceActions::SetBrightness(SetBrightness { brightness: 35 }),
    ]
}

fn events() -> Vec<Command> {
    vec![
        Command::Config(RemoteConfig { pid: 0x0084, device_id: "CL\u{e4}01".to_string() }),
        Command::Config(RemoteConfig { pid: 0, device_id: String::new() }),
        Command::ButtonChange(ButtonChange { buttons: vec![(0, true), (255, false), (3, true)] }),
        Command::ButtonChange(ButtonChange { buttons: vec![] }),
        Command::EncoderChange(EncoderChange { encoders: vec![(1, true)] }),
        Command::EncoderTwist(EncoderTwist { encoders: vec![(0, -128), (1, 127), (2, -1), (3, 0)] }),
    ]
}

fn same_action(a: &DeviceActions, b: &DeviceActions) -> bool {
    format!("{:?}", a) == format!("{:?}", b)
}

fn same_event(a: &Command, b: &Command) -> bool {
    format!("{:?}", a) == format!("{:?}", b)
}

#[test]
fn frame_is_length_then_payload() {
    let mut stream = vec![0xaa];
    write_length_prefix(&mut stream, &[1, 2, 3]).unwrap();
    assert_eq!(stream, vec![0xaa, 0, 0, 0, 3, 1, 2, 3]);
    let mut stream = Vec::new();
    write_length_prefix(&mut stream, &[7u8; 0x01_02_03]).unwrap();
    assert_eq!(&stream[..4], &[0, 1, 2, 3]);
    assert_eq!(stream.len(), 4 + 0x01_02_03);
    let mut stream = Vec::new();
    write_length_prefix(&mut stream, &[]).unwrap();
    assert_eq!(stream, vec![0, 0, 0, 0]);
}

#[test]
fn frame_is_read_back() {
    assert_eq!(receive_length_prefix(&[0, 0, 0, 2, 8, 9, 77]), Ok((vec![8, 9], 6)));
    assert_eq!(receive_length_prefix(&[0, 0, 0, 0]), Ok((vec![], 4)));
}

#[test]
fn short_streams_are_errors() {
    assert_eq!(receive_length_prefix(&[]), Err(FrameError::ShortLength));
    assert_eq!(receive_length_prefix(&[0, 0, 0]), Err(FrameError::ShortLength));
    assert_eq!(receive_length_prefix(&[0, 0, 0, 2, 1]), Err(FrameError::ShortPayload));
    assert_eq!(receive_length_prefix(&[255, 255, 255, 255, 1]), Err(FrameError::ShortPayload));
}

#[test]
fn every_action_survives_the_wire() {
    for action in actions() {
        let mut stream = Vec::new();
        write_struct(&mut stream, &action).unwrap();
        stream.extend_from_slice(&[1, 2, 3]);
        let (back, taken) = read_struct::<DeviceActions>(&stream).unwrap();
        assert!(same_action(&back, &action), "{:?}", action);
        assert_eq!(taken, stream.len() - 3);
    }
}

#[test]
fn every_event_survives_the_wire() {
    for event in events() {
        let mut stream = Vec::new();
        write_struct(&mut stream, &event).unwrap();
        let (back, taken) = read_struct::<Command>(&stream).unwrap();
        assert!(same_event(&back, &event), "{:?}", event);
        assert_eq!(taken, stream.len());
    }
}

#[test]
fn payloads_are_as_described() {
    assert_eq!(DeviceActions::SetBrightness(SetBrightness { brightness: 9 }).encode(), vec![1, 2, 9]);
    assert_eq!(
        DeviceActions::SetButtonImage(SetButtonImage { button: 4, image: vec![5, 6] }).encode(),
        vec![1, 0, 4, 5, 6]
    );
    assert_eq!(
        DeviceActions::SetLCDImage(SetLCDImage { x_offset: 0x0102, x_size: 3, y_size: 0xff00, image: vec![7] }).encode(),
        vec![1, 1, 1, 2, 0, 3, 255, 0, 7]
    );
    assert_eq!(
        Command::Config(RemoteConfig { pid: 0x0080, device_id: "AB".to_string() }).encode(),
        vec![1, 16, 0, 0x80, 65, 66]
    );
    assert_eq!(
        Command::ButtonChange(ButtonChange { buttons: vec![(3, true), (4, false)] }).encode(),
        vec![1, 17, 3, 1, 4, 0]
    );
    assert_eq!(
        Command::EncoderChange(EncoderChange { encoders: vec![(2, true)] }).encode(),
        vec![1, 18, 2, 1]
    );
    assert_eq!(
        Command::EncoderTwist(EncoderTwist { encoders: vec![(1, -1), (2, 5), (3, -128)] }).encode(),
        vec![1, 19, 1, 255, 2, 5, 3, 128]
    );
}

#[test]
fn malformed_payloads_are_refused() {
    assert!(DeviceActions::decode(&[]).is_none());
    assert!(DeviceActions::decode(&[1]).is_none());
    assert!(DeviceActions::decode(&[2, 2, 9]).is_none());
    assert!(DeviceActions::decode(&[1, 2]).is_none());
    assert!(DeviceActions::decode(&[1, 2, 9, 9]).is_none());
    assert!(DeviceActions::decode(&[1, 1, 0, 0, 0, 0, 0]).is_none());
    assert!(DeviceActions::decode(&[1, 3, 0]).is_none());
    assert!(DeviceActions::decode(&[1, 16, 0, 0]).is_none());
    assert!(Command::decode(&[1, 16, 0]).is_none());
    assert!(Command::decode(&[1, 16, 0, 0, 0xff]).is_none());
    assert!(Command::decode(&[1, 17, 3]).is_none());
    assert!(Command::decode(&[1, 17, 3, 2]).is_none());
    assert!(Command::decode(&[1, 19, 3]).is_none());
    assert!(Command::decode(&[1, 0, 3]).is_none());
    assert!(Command::decode(&[1, 17]).is_some());
    assert_eq!(read_struct::<Command>(&[0, 0, 0, 3, 1, 17, 3]).err(), Some(FrameError::Malformed));
    assert_eq!(read_struct::<Command>(&[0, 0, 0, 3, 1, 17]).err(), Some(FrameError::ShortPayload));
    assert_eq!(read_struct::<DeviceActions>(&[0, 0]).err(), Some(FrameError::ShortLength));
}

#[test]
fn receivers_hand_out_whole_messages_only() {
    let sender = GatewayDeviceSender::new(());
    let first = sender.set_brightness(SetBrightness { brightness: 1 }).unwrap();
    let second = sender.set_button_image(SetButtonImage { button: 2, image: vec![3, 4] }).unwrap();
    let third = sender.set_lcd_image(SetLCDImage { x_offset: 1, x_size: 2, y_size: 3, image: vec![] }).unwrap();
    let mut all = first.clone();
    all.extend_from_slice(&second);
    all.extend_from_slice(&third);
    let mut receiver = GatewayCompanionReceiver::new(());
    let mut seen = Vec::new();
    for byte in all {
        receiver.buffer.push(&[byte]);
        while let Some(action) = receiver.receive().unwrap() {
            seen.push(action);
        }
    }
    assert_eq!(seen.len(), 3);
    assert!(same_action(&seen[0], &DeviceActions::SetBrightness(SetBrightness { brightness: 1 })));
    assert!(same_action(&seen[1], &DeviceActions::SetButtonImage(SetButtonImage { button: 2, image: vec![3, 4] })));
    assert!(same_action(&seen[2], &DeviceActions::SetLCDImage(SetLCDImage { x_offset: 1, x_size: 2, y_size: 3, image: vec![] })));
    assert_eq!(receiver.buffer.end_of_stream(), Ok(()));
}

#[test]
fn device_receiver_reads_what_the_companion_sender_writes() {
    let sender = GatewayCompanionSender::new(());
    let mut receiver = GatewayDeviceReceiver::new(());
    receiver.buffer.push(&sender.config(RemoteConfig { pid: 0x0080, device_id: "A1".to_string() }).unwrap());
    receiver.buffer.push(&sender.button_change(ButtonChange { buttons: vec![(1, true)] }).unwrap());
    receiver.buffer.push(&sender.encoder_twist(EncoderTwist { encoders: vec![(0, -2)] }).unwrap());
    let a = receiver.receive().unwrap().unwrap();
    let b = receiver.receive().unwrap().unwrap();
    let c = receiver.receive().unwrap().unwrap();
    assert!(same_event(&a, &Command::Config(RemoteConfig { pid: 0x0080, device_id: "A1".to_string() })));
    assert!(same_event(&b, &Command::ButtonChange(ButtonChange { buttons: vec![(1, true)] })));
    assert!(same_event(&c, &Command::EncoderTwist(EncoderTwist { encoders: vec![(0, -2)] })));
    assert!(receiver.receive().unwrap().is_none());
}

#[test]
fn stream_that_ends_inside_a_frame_is_an_error() {
    let mut buffer = FrameBuffer::new();
    assert_eq!(buffer.end_of_stream(), Ok(()));
    buffer.push(&[0, 0]);
    assert_eq!(buffer.end_of_stream(), Err(FrameError::ShortLength));
    buffer.push(&[0, 3, 1, 2]);
    assert_eq!(buffer.end_of_stream(), Err(FrameError::ShortPayload));
    assert!(buffer.take::<DeviceActions>().unwrap().is_none());
    buffer.push(&[9]);
    assert_eq!(buffer.end_of_stream(), Ok(()));
    assert!(buffer.take::<DeviceActions>().unwrap().is_some());
    assert_eq!(buffer.end_of_stream(), Ok(()));
}

#[test]
fn malformed_frame_is_dropped_with_its_error() {
    let mut buffer = FrameBuffer::new();
    buffer.push(&[0, 0, 0, 1, 77, 0, 0, 0, 3, 1, 2, 50]);
    assert_eq!(buffer.take::<DeviceActions>().err(), Some(FrameError::Malformed));
    let next = buffer.take::<DeviceActions>().unwrap().unwrap();
    assert!(same_action(&next, &DeviceActions::SetBrightness(SetBrightness { brightness: 50 })));
}

#[test]
fn accumulator_puts_a_frame_together() {
    let mut accumulator = FrameAccumulator::new();
    let frame = [0u8, 0, 0, 3, 10, 20, 30];
    for (i, byte) in frame.iter().enumerate() {
        let out = accumulator.add_char(*byte);
        if i + 1 < frame.len() {
            assert_eq!(out, None);
        } else {
            assert_eq!(out, Some(vec![10, 20, 30]));
        }
    }
    accumulator.clear();
    assert_eq!(accumulator.add_char(0), None);
    assert_eq!(accumulator.add_char(0), None);
    assert_eq!(accumulator.add_char(0), None);
    assert_eq!(accumulator.add_char(0), Some(vec![]));
    accumulator.clear();
    assert_eq!(accumulator.add_char(0), None);
    assert_eq!(accumulator.add_char(0), None);
    assert_eq!(accumulator.add_char(1), None);
    assert_eq!(accumulator.add_char(0), None);
    for _ in 0..255 {
        assert_eq!(accumulator.add_char(5), None);
    }
    assert_eq!(accumulator.add_char(6).map(|v| v.len()), Some(256));
}

#[test]
fn leaf_frames_are_short() {
    let config = Command::Config(RemoteConfig { pid: 0x0080, device_id: "CL123".to_string() });
    assert_eq!(frame_write(&config).unwrap(), vec![0, 0, 0, 9, 1, 16, 0, 0x80, 67, 76, 49, 50, 51]);
    let long = Command::Config(RemoteConfig { pid: 0x0080, device_id: "x".repeat(124) });
    assert_eq!(frame_write(&long).unwrap().len(), 4 + 128);
    let too_long = Command::Config(RemoteConfig { pid: 0x0080, device_id: "x".repeat(125) });
    assert_eq!(frame_write(&too_long), Err(FrameError::TooLong));
}
