use satellite_bridge::hid::StreamDeckInput;
use satellite_bridge::leaf_comm::{ButtonChange, Command, DeviceActions, EncoderChange, EncoderTwist, RemoteConfig, SetBrightness, SetButtonImage, SetLCDImage};
use satellite_bridge::pumps::{MessagePump, PumpAction, PumpEvent};
use satellite_bridge::receiver::DeviceShape;
use satellite_bridge::sender::{ping, Sender};
use satellite_bridge::streamdeck::{input_to_command, KeyState};

fn plus() -> DeviceShape {
    DeviceShape {
        key_count: 8,
        columns: 4,
        encoder_count: 4,
        lcd_strip: Some((800, 100)),
        image_width: 120,
        image_height: 120,
    }
}

fn config() -> RemoteConfig {
    RemoteConfig { pid: 0x0084, device_id: "deck1".to_string() }
}

fn buttons(action: PumpAction) -> Vec<(u8, bool)> {
    match action {
        PumpAction::ButtonChange(c) => c.buttons,
        other => panic!("{:?}", other),
    }
}

#[test]
fn debounce() {
    let mut pump = MessagePump::new(&plus());
    let (sender, _) = Sender::new(&config(), &plus(), "Plus");
    let press = || PumpEvent::FromDevice(Command::ButtonChange(ButtonChange { buttons: vec![(3, true)] }));
    let first = buttons(pump.step(press()));
    let second = buttons(pump.step(press()));
    let mut text = sender.button_change(&ButtonChange { buttons: first });
    text.push_str(&sender.button_change(&ButtonChange { buttons: second }));
    assert_eq!(text, "KEY-PRESS DEVICEID=deck1 KEY=3 PRESSED=1\n");
}

#[test]
fn changes_are_passed_on_in_ascending_order() {
    let mut pump = MessagePump::new(&plus());
    let event = PumpEvent::FromDevice(Command::ButtonChange(ButtonChange {
        buttons: vec![(7, true), (2, true), (5, false), (2, false), (0, true), (200, true)],
    }));
    assert_eq!(buttons(pump.step(event)), vec![(0, true), (7, true)]);
    let event = PumpEvent::FromDevice(Command::ButtonChange(ButtonChange { buttons: vec![(7, false), (0, true)] }));
    assert_eq!(buttons(pump.step(event)), vec![(7, false)]);
}

#[test]
fn encoder_presses_follow_buttons_and_strip() {
    let mut pump = MessagePump::new(&plus());
    let event = PumpEvent::FromDevice(Command::EncoderChange(EncoderChange { encoders: vec![(1, true), (3, true), (4, true)] }));
    assert_eq!(buttons(pump.step(event)), vec![(13, true), (15, true)]);
    let event = PumpEvent::FromDevice(Command::EncoderChange(EncoderChange { encoders: vec![(1, true), (3, false)] }));
    assert_eq!(buttons(pump.step(event)), vec![(15, false)]);
}

#[test]
fn device_is_registered_once() {
    let mut pump = MessagePump::new(&plus());
    match pump.step(PumpEvent::FromDevice(Command::Config(config()))) {
        PumpAction::AddDevice(c) => {
            assert_eq!(c.pid, 0x0084);
            assert_eq!(c.device_id, "deck1");
        }
        other => panic!("{:?}", other),
    }
    assert!(matches!(pump.step(PumpEvent::FromDevice(Command::Config(config()))), PumpAction::Nothing));
}

#[test]
fn turns_are_passed_on() {
    let mut pump = MessagePump::new(&plus());
    match pump.step(PumpEvent::FromDevice(Command::EncoderTwist(EncoderTwist { encoders: vec![(2, -3)] }))) {
        PumpAction::EncoderTwist(t) => assert_eq!(t.encoders, vec![(2, -3)]),
        other => panic!("{:?}", other),
    }
}

#[test]
fn controller_actions_go_to_the_device() {
    let mut pump = MessagePump::new(&plus());
    assert!(matches!(
        pump.step(PumpEvent::FromController(DeviceActions::SetBrightness(SetBrightness { brightness: 5 }))),
        PumpAction::SetBrightness(SetBrightness { brightness: 5 })
    ));
    match pump.step(PumpEvent::FromController(DeviceActions::SetButtonImage(SetButtonImage { button: 1, image: vec![2] }))) {
        PumpAction::SetButtonImage(b) => assert_eq!((b.button, b.image), (1, vec![2])),
        other => panic!("{:?}", other),
    }
    match pump.step(PumpEvent::FromController(DeviceActions::SetLCDImage(SetLCDImage { x_offset: 1, x_size: 2, y_size: 3, image: vec![4] }))) {
        PumpAction::SetLCDImage(l) => assert_eq!((l.x_offset, l.x_size, l.y_size, l.image), (1, 2, 3, vec![4])),
        other => panic!("{:?}", other),
    }
    assert!(pump.is_running());
}

#[test]
fn pump_fail_fast() {
    for failure in [PumpEvent::DeviceFailed, PumpEvent::ControllerFailed] {
        let mut pump = MessagePump::new(&plus());
        assert!(pump.is_running());
        assert!(matches!(pump.step(failure), PumpAction::Stop));
        assert!(!pump.is_running());
        assert!(matches!(
            pump.step(PumpEvent::FromController(DeviceActions::SetBrightness(SetBrightness { brightness: 5 }))),
            PumpAction::Stop
        ));
        assert!(matches!(
            pump.step(PumpEvent::FromDevice(Command::ButtonChange(ButtonChange { buttons: vec![(1, true)] }))),
            PumpAction::Stop
        ));
        assert!(matches!(pump.step(PumpEvent::FromDevice(Command::Config(config()))), PumpAction::Stop));
        assert!(!pump.is_running());
    }
}

#[test]
fn registration_line() {
    let (_, line) = Sender::new(&config(), &plus(), "Plus");
    assert_eq!(
        line,
        "ADD-DEVICE DEVICEID=deck1 PRODUCT_NAME=\"RustSatellite StreamDeck: Plus\" KEYS_TOTAL=8, KEYS_PER_ROW=4 BITMAPS=120 COLORS=0 TEXT=0\n"
    );
}

#[test]
fn key_press_lines() {
    let (sender, _) = Sender::new(&config(), &plus(), "Plus");
    assert_eq!(sender.button_change(&ButtonChange { buttons: vec![] }), "");
    assert_eq!(
        sender.button_change(&ButtonChange { buttons: vec![(0, false), (255, true)] }),
        "KEY-PRESS DEVICEID=deck1 KEY=0 PRESSED=0\nKEY-PRESS DEVICEID=deck1 KEY=255 PRESSED=1\n"
    );
}

#[test]
fn key_rotate_lines() {
    let (sender, _) = Sender::new(&config(), &plus(), "Plus");
    assert_eq!(sender.encoder_twist(&EncoderTwist { encoders: vec![(1, 0)] }), "");
    assert_eq!(
        sender.encoder_twist(&EncoderTwist { encoders: vec![(1, 2), (0, -1)] }),
        "KEY-ROTATE DEVICEID=deck1 KEY=1 DIRECTION=1\nKEY-ROTATE DEVICEID=deck1 KEY=1 DIRECTION=1\nKEY-ROTATE DEVICEID=deck1 KEY=0 DIRECTION=0\n"
    );
    let all = sender.encoder_twist(&EncoderTwist { encoders: vec![(9, -128)] });
    assert_eq!(all.lines().count(), 128);
    assert!(all.lines().all(|l| l == "KEY-ROTATE DEVICEID=deck1 KEY=9 DIRECTION=0"));
    assert_eq!(sender.encoder_twist(&EncoderTwist { encoders: vec![(9, 127)] }).lines().count(), 127);
}

#[test]
fn ping_line() {
    assert_eq!(ping(), "PING\n");
}

#[test]
fn key_state_passes_on_what_changed() {
    let mut keys = KeyState::new(4);
    assert_eq!(keys.len(), 4);
    assert_eq!(keys.update_state(0, &vec![(0, false), (1, true), (2, true)]), vec![(1, true), (2, true)]);
    assert_eq!(keys.update_state(0, &vec![(0, false), (1, true), (2, true)]), vec![]);
    assert_eq!(keys.update_state(1, &vec![(0, false), (2, true), (3, true)]), vec![(1, false), (3, true)]);
    assert_eq!(keys.update_state(usize::MAX, &vec![(1, true), (usize::MAX, true)]), vec![]);
    assert_eq!(keys.update_state(0, &vec![(0, true), (0, false)]), vec![]);
    let copy = keys.clone();
    assert_eq!(copy.len(), 4);
}

#[test]
fn key_state_has_one_flag_per_input() {
    assert_eq!(KeyState::for_shape(&plus()).len(), 16);
    assert_eq!(KeyState::for_shape(&DeviceShape { lcd_strip: None, ..plus() }).len(), 12);
    assert_eq!(
        KeyState::for_shape(&DeviceShape { key_count: 255, columns: 255, encoder_count: 255, ..plus() }).len(),
        255
    );
}

#[test]
fn deck_reports_become_messages() {
    let mut keys = KeyState::new(3);
    match input_to_command(&mut keys, 8, StreamDeckInput::ButtonStateChange(vec![false, true, true, true])) {
        Some(Command::ButtonChange(c)) => assert_eq!(c.buttons, vec![(1, true), (2, true)]),
        other => panic!("{:?}", other),
    }
    match input_to_command(&mut keys, 8, StreamDeckInput::ButtonStateChange(vec![false, true, false])) {
        Some(Command::ButtonChange(c)) => assert_eq!(c.buttons, vec![(2, false)]),
        other => panic!("{:?}", other),
    }
    match input_to_command(&mut keys, 3, StreamDeckInput::EncoderTwist(vec![0, -2, 0, 5])) {
        Some(Command::EncoderTwist(t)) => assert_eq!(t.encoders, vec![(1, -2)]),
        other => panic!("{:?}", other),
    }
    match input_to_command(&mut keys, 8, StreamDeckInput::EncoderTwist(vec![1, 0, 0, 5])) {
        Some(Command::EncoderTwist(t)) => assert_eq!(t.encoders, vec![(0, 1), (3, 5)]),
        other => panic!("{:?}", other),
    }
    assert!(input_to_command(&mut keys, 8, StreamDeckInput::NoData).is_none());
    assert!(input_to_command(&mut keys, 8, StreamDeckInput::EncoderStateChange(vec![true])).is_none());
    assert!(input_to_command(&mut keys, 8, StreamDeckInput::TouchScreenPress(1, 2)).is_none());
    assert!(input_to_command(&mut keys, 8, StreamDeckInput::TouchScreenLongPress(1, 2)).is_none());
    assert!(input_to_command(&mut keys, 8, StreamDeckInput::TouchScreenSwipe((1, 2), (3, 4))).is_none());
}
