use base64::Engine;
use satellite_bridge::bitmap::rgb_size;
use satellite_bridge::companion::{Brightness, Command, KeyState};
use satellite_bridge::companion_to_device::{finish_companion_data, handle_companion_data, send_action, DeviceError, HandleError, StreamDeckDevice};
use satellite_bridge::keyvalue::ParseError;
use satellite_bridge::leaf_comm::{DeviceActions, SetBrightness, SetButtonImage};
use satellite_bridge::receiver::{check_bitmap, lcd_job, lcd_x_offset, route, scale_width, DefaultCommandProcessor, DeviceShape, ReceiveError, RouteError, Routed, Target};

fn plus() -> DeviceShape {
    DeviceShape {
        key_count: 8,
        columns: 4,
        encoder_count: 4,
        lcd_strip: Some((800, 100)),
        image_width: 120,
        image_height: 120,
    }
}

fn tiny(lcd: Option<(u16, u16)>) -> DeviceShape {
    DeviceShape { key_count: 8, columns: 4, encoder_count: 0, lcd_strip: lcd, image_width: 2, image_height: 2 }
}

fn encode(bytes: &[u8]) -> String {
    base64::engine::general_purpose::STANDARD_NO_PAD.encode(bytes)
}

fn key_state(key: u8, bitmap: &str) -> Command<'_> {
    Command::KeyState(KeyState {
        device: "deck".into(),
        key,
        button_type: "BUTTON".into(),
        bitmap_base64: bitmap.into(),
        pressed: false,
    })
}

fn job_of(routed: Routed) -> satellite_bridge::receiver::TranscodeJob {
    match routed {
        Routed::Transcode(job) => job,
        other => panic!("{:?}", other),
    }
}

fn button_of(routed: Routed) -> SetButtonImage {
    match routed {
        Routed::Action(DeviceActions::SetButtonImage(b)) => b,
        other => panic!("{:?}", other),
    }
}

#[test]
fn keys_below_the_count_are_buttons() {
    let shape = plus();
    assert_eq!(route(&shape, 0), Some(Target::Button(0)));
    assert_eq!(route(&shape, 7), Some(Target::Button(7)));
}

#[test]
fn routing_boundary() {
    let shape = plus();
    assert_eq!(route(&shape, 8), Some(Target::Lcd(0)));
    assert_eq!(route(&shape, 15), None);
    assert_eq!(route(&shape, 9), None);
    assert_eq!(route(&shape, 255), None);
}

#[test]
fn without_a_strip_there_is_no_lcd_target() {
    let shape = tiny(None);
    assert_eq!(route(&shape, 7), Some(Target::Button(7)));
    assert_eq!(route(&shape, 8), None);
    let no_columns = DeviceShape { columns: 0, ..plus() };
    assert_eq!(route(&no_columns, 8), None);
}

#[test]
fn lcd_offsets() {
    assert_eq!(lcd_x_offset(0, 4, 800, 100), 0);
    assert_eq!(lcd_x_offset(1, 4, 800, 100), 0);
    assert_eq!(lcd_x_offset(2, 4, 800, 100), 233);
    assert_eq!(lcd_x_offset(3, 4, 800, 100), 466);
    assert_eq!(lcd_x_offset(4, 4, 800, 100), 699);
    assert_eq!(lcd_x_offset(5, 4, 800, 100), 700);
    assert_eq!(lcd_x_offset(255, 4, 800, 100), 700);
    assert_eq!(lcd_x_offset(3, 1, 800, 100), 0);
    assert_eq!(lcd_x_offset(3, 0, 800, 100), 0);
    assert_eq!(lcd_x_offset(3, 4, 100, 800), 0);
    assert_eq!(lcd_x_offset(2, 2, 65535, 0), 65535);
    assert_eq!(lcd_x_offset(255, 255, 65535, 0), 65532);
    assert_eq!(lcd_x_offset(255, 2, 65535, 0), 65535);
}

#[test]
fn rgb_sizes() {
    assert_eq!(rgb_size(120, 120), 43200);
    assert_eq!(rgb_size(0, 7), 0);
    assert_eq!(rgb_size(65535, 65535), 12884508675);
}

#[test]
fn bitmaps_are_checked_against_the_image_size() {
    let shape = tiny(None);
    assert_eq!(check_bitmap(&shape, Some(vec![0; 12])), Ok(vec![0; 12]));
    assert_eq!(check_bitmap(&shape, Some(vec![0; 11])), Err(RouteError::BadLength { expected: 12, actual: 11 }));
    assert_eq!(check_bitmap(&shape, Some(vec![])), Err(RouteError::BadLength { expected: 12, actual: 0 }));
    assert_eq!(check_bitmap(&shape, None), Err(RouteError::BadBase64));
}

#[test]
fn shapes_are_checked() {
    assert!(plus().is_valid());
    assert!(!DeviceShape { image_width: 0, ..plus() }.is_valid());
    assert!(!DeviceShape { image_height: 0, ..plus() }.is_valid());
    assert!(!DeviceShape { lcd_strip: Some((0, 100)), ..plus() }.is_valid());
    assert!(!DeviceShape { lcd_strip: Some((800, 0)), ..plus() }.is_valid());
    assert!(DeviceShape { lcd_strip: Some((100, 100)), ..plus() }.is_valid());
    assert!(!DeviceShape { lcd_strip: Some((99, 100)), ..plus() }.is_valid());
    assert!(!DeviceShape { image_width: 120, image_height: 60, lcd_strip: Some((199, 100)), ..plus() }.is_valid());
    assert!(DeviceShape { image_width: 120, image_height: 60, lcd_strip: Some((200, 100)), ..plus() }.is_valid());
    assert!(DeviceShape { image_width: 0, image_height: 0, lcd_strip: None, ..plus() }.is_valid());
    assert!(DefaultCommandProcessor::new(DeviceShape { image_width: 0, ..plus() }).is_none());
    assert!(DefaultCommandProcessor::with_capacity(plus(), 0).is_none());
    assert!(DefaultCommandProcessor::new(plus()).is_some());
}

#[test]
fn scaled_widths() {
    assert_eq!(scale_width(120, 120, 100), 100);
    assert_eq!(scale_width(120, 60, 100), 200);
    assert_eq!(scale_width(72, 72, 100), 100);
    assert_eq!(scale_width(3, 2, 1), 2);
    assert_eq!(scale_width(1, 2, 1), 1);
    assert_eq!(scale_width(1, 3, 1), 1);
    assert_eq!(scale_width(0, 5, 7), 1);
    assert_eq!(scale_width(5, 7, 0), 1);
    assert_eq!(scale_width(10, 4, 1), 3);
    assert_eq!(scale_width(10, 4, 3), 8);
    assert_eq!(scale_width(65535, 1, 65535), 4294836225);
}

#[test]
fn a_deck_without_displays_is_served() {
    let pedal = DeviceShape { key_count: 3, columns: 3, encoder_count: 0, lcd_strip: None, image_width: 0, image_height: 0 };
    let mut processor = DefaultCommandProcessor::new(pedal).unwrap();
    assert!(matches!(
        processor.process(Command::Brightness(Brightness { device: "d".into(), brightness: 7 })),
        Ok(Routed::Action(DeviceActions::SetBrightness(SetBrightness { brightness: 7 })))
    ));
    assert!(matches!(processor.process(Command::Pong), Ok(Routed::Ignored)));
    assert!(matches!(processor.process(key_state(3, "AAAA")), Ok(Routed::Ignored)));
    let job = job_of(processor.process(key_state(0, "")).unwrap());
    assert_eq!((job.width, job.height, job.pixels.len()), (0, 0, 0));
    assert_eq!(
        processor.process(key_state(0, "AAAA")).err(),
        Some(RouteError::BadLength { expected: 0, actual: 3 })
    );
}

#[test]
fn lcd_image_has_the_height_of_the_strip() {
    let shape = DeviceShape { image_width: 4, image_height: 2, lcd_strip: Some((40, 5)), ..plus() };
    let mut processor = DefaultCommandProcessor::new(shape).unwrap();
    let job = job_of(processor.process(key_state(8, &encode(&[9u8; 24]))).unwrap());
    assert_eq!((job.width, job.height), (10, 5));
    assert_eq!(job.pixels.len(), 10 * 5 * 3);
    assert_eq!(job.x_offset, 0);
}

#[test]
fn an_unknown_command_leaves_the_device_alone() {
    let mut device = Recorder { calls: vec![], fail: true };
    let mut processor = DefaultCommandProcessor::new(tiny(None)).unwrap();
    assert!(handle_companion_data("FROB", &mut processor, &mut device).unwrap().is_none());
    assert!(handle_companion_data("FROB X=1", &mut processor, &mut device).unwrap().is_none());
    assert!(device.calls.is_empty());
}

#[test]
fn brightness_becomes_an_action() {
    let mut processor = DefaultCommandProcessor::new(plus()).unwrap();
    let routed = processor.process(Command::Brightness(Brightness { device: "d".into(), brightness: 42 })).unwrap();
    match routed {
        Routed::Action(DeviceActions::SetBrightness(SetBrightness { brightness })) => assert_eq!(brightness, 42),
        other => panic!("{:?}", other),
    }
}

#[test]
fn other_commands_are_ignored() {
    let mut processor = DefaultCommandProcessor::new(plus()).unwrap();
    for command in [Command::Pong, Command::KeyPress("x"), Command::KeyRotate("x"), Command::Unknown("FROB")] {
        assert!(matches!(processor.process(command), Ok(Routed::Ignored)));
    }
    assert!(matches!(processor.process(key_state(200, "AAAA")), Ok(Routed::Ignored)));
}

#[test]
fn button_bitmap_comes_back_as_a_job() {
    let mut processor = DefaultCommandProcessor::new(tiny(None)).unwrap();
    let pixels: Vec<u8> = (1..=12).collect();
    let text = encode(&pixels);
    let job = job_of(processor.process(key_state(3, &text)).unwrap());
    assert_eq!(job.target, Target::Button(3));
    assert_eq!(job.bitmap_base64, text);
    assert_eq!((job.width, job.height, job.x_offset), (2, 2, 0));
    assert_eq!(job.pixels, pixels);
}

#[test]
fn bad_bitmaps_are_errors() {
    let mut processor = DefaultCommandProcessor::new(tiny(Some((8, 2)))).unwrap();
    assert_eq!(processor.process(key_state(3, "***")).err(), Some(RouteError::BadBase64));
    assert_eq!(
        processor.process(key_state(3, &encode(&[0; 13]))).err(),
        Some(RouteError::BadLength { expected: 12, actual: 13 })
    );
    assert_eq!(
        processor.process(key_state(8, &encode(&[0; 3]))).err(),
        Some(RouteError::BadLength { expected: 12, actual: 3 })
    );
    assert_eq!(processor.process(key_state(8, "=")).err(), Some(RouteError::BadBase64));
}

#[test]
fn lcd_bitmap_is_scaled_to_the_strip() {
    let mut processor = DefaultCommandProcessor::new(plus()).unwrap();
    let text = encode(&vec![200u8; 120 * 120 * 3]);
    let job = job_of(processor.process(key_state(8, &text)).unwrap());
    assert_eq!(job.target, Target::Lcd(0));
    assert_eq!((job.width, job.height), (100, 100));
    assert_eq!(job.pixels.len(), 100 * 100 * 3);
    assert_eq!(job.x_offset, 0);
}

#[test]
fn lcd_job_places_the_image() {
    let job = lcd_job(2, 4, 800, "text".to_string(), 100, 50, vec![1, 2, 3]);
    assert_eq!(job.target, Target::Lcd(2));
    assert_eq!(job.bitmap_base64, "text");
    assert_eq!((job.width, job.height, job.x_offset), (100, 50, 233));
    assert_eq!(job.pixels, vec![1, 2, 3]);
}

#[test]
fn cache_determinism() {
    let mut processor = DefaultCommandProcessor::new(tiny(None)).unwrap();
    let text = encode(&[5; 12]);
    let job = job_of(processor.process(key_state(3, &text)).unwrap());
    let first = processor.finish(job, vec![9, 8, 7]);
    match &first {
        DeviceActions::SetButtonImage(b) => {
            assert_eq!(b.button, 3);
            assert_eq!(b.image, vec![9, 8, 7]);
        }
        other => panic!("{:?}", other),
    }
    let again = button_of(processor.process(key_state(3, &text)).unwrap());
    assert_eq!(again.button, 3);
    assert_eq!(again.image, vec![9, 8, 7]);
    let once_more = button_of(processor.process(key_state(3, &text)).unwrap());
    assert_eq!(once_more.image, vec![9, 8, 7]);
}

#[test]
fn same_bitmap_for_another_key_is_not_reused() {
    let mut processor = DefaultCommandProcessor::new(tiny(None)).unwrap();
    let text = encode(&[5; 12]);
    let job = job_of(processor.process(key_state(3, &text)).unwrap());
    processor.finish(job, vec![9, 8, 7]);
    let other = job_of(processor.process(key_state(4, &text)).unwrap());
    assert_eq!(other.target, Target::Button(4));
    let shown = processor.finish(other, vec![1, 1, 1]);
    match shown {
        DeviceActions::SetButtonImage(b) => assert_eq!((b.button, b.image), (4, vec![1, 1, 1])),
        other => panic!("{:?}", other),
    }
    assert_eq!(button_of(processor.process(key_state(3, &text)).unwrap()).image, vec![9, 8, 7]);
    assert_eq!(button_of(processor.process(key_state(4, &text)).unwrap()).image, vec![1, 1, 1]);
}

#[test]
fn brightness_between_does_not_disturb_the_cache() {
    let mut processor = DefaultCommandProcessor::new(tiny(None)).unwrap();
    let text = encode(&[5; 12]);
    let job = job_of(processor.process(key_state(1, &text)).unwrap());
    processor.finish(job, vec![4]);
    processor.process(Command::Brightness(Brightness { device: "d".into(), brightness: 1 })).unwrap();
    assert_eq!(button_of(processor.process(key_state(1, &text)).unwrap()).image, vec![4]);
}

#[test]
fn least_recently_used_image_leaves_a_full_cache() {
    let mut processor = DefaultCommandProcessor::with_capacity(tiny(None), 2).unwrap();
    let a = encode(&[1; 12]);
    let b = encode(&[2; 12]);
    let c = encode(&[3; 12]);
    let job = job_of(processor.process(key_state(0, &a)).unwrap());
    processor.finish(job, vec![1]);
    let job = job_of(processor.process(key_state(0, &b)).unwrap());
    processor.finish(job, vec![2]);
    assert_eq!(button_of(processor.process(key_state(0, &a)).unwrap()).image, vec![1]);
    let job = job_of(processor.process(key_state(0, &c)).unwrap());
    processor.finish(job, vec![3]);
    assert!(matches!(processor.process(key_state(0, &b)), Ok(Routed::Transcode(_))));
    assert_eq!(button_of(processor.process(key_state(0, &a)).unwrap()).image, vec![1]);
    assert_eq!(button_of(processor.process(key_state(0, &c)).unwrap()).image, vec![3]);
}

#[test]
fn storing_again_replaces_the_image() {
    let mut processor = DefaultCommandProcessor::with_capacity(tiny(None), 1).unwrap();
    let a = encode(&[1; 12]);
    let job = job_of(processor.process(key_state(0, &a)).unwrap());
    let copy = job.clone();
    processor.finish(job, vec![1]);
    processor.finish(copy, vec![2]);
    assert_eq!(button_of(processor.process(key_state(0, &a)).unwrap()).image, vec![2]);
}

#[test]
fn lcd_images_are_cached_with_their_place() {
    let mut processor = DefaultCommandProcessor::new(plus()).unwrap();
    let text = encode(&vec![7u8; 120 * 120 * 3]);
    let job = job_of(processor.process(key_state(8, &text)).unwrap());
    processor.finish(job, vec![1, 2]);
    match processor.process(key_state(8, &text)).unwrap() {
        Routed::Action(DeviceActions::SetLCDImage(l)) => {
            assert_eq!((l.x_offset, l.x_size, l.y_size), (0, 100, 100));
            assert_eq!(l.image, vec![1, 2]);
        }
        other => panic!("{:?}", other),
    }
    assert!(matches!(processor.process(key_state(0, &text)), Ok(Routed::Transcode(_))));
}

#[test]
fn lines_are_read_and_routed() {
    let mut processor = DefaultCommandProcessor::new(tiny(None)).unwrap();
    assert!(matches!(processor.handle_line("PONG"), Ok(Routed::Ignored)));
    assert!(matches!(
        processor.handle_line("BRIGHTNESS DEVICEID=d VALUE=10"),
        Ok(Routed::Action(DeviceActions::SetBrightness(_)))
    ));
    assert_eq!(processor.handle_line("").err(), Some(ReceiveError::Parse(ParseError::EmptyCommand)));
    assert_eq!(
        processor.handle_line("KEY-STATE DEVICEID=d KEY=1 TYPE=BUTTON BITMAP=AAAA PRESSED=true").err(),
        Some(ReceiveError::Route(RouteError::BadLength { expected: 12, actual: 3 }))
    );
}

struct Recorder {
    calls: Vec<String>,
    fail: bool,
}

impl StreamDeckDevice for Recorder {
    fn set_brightness(&mut self, brightness: u8) -> Result<(), DeviceError> {
        self.calls.push(format!("brightness {}", brightness));
        if self.fail { Err(DeviceError {}) } else { Ok(()) }
    }
    fn set_button_image(&mut self, button: u8, image: Vec<u8>) -> Result<(), DeviceError> {
        self.calls.push(format!("button {} {:?}", button, image));
        if self.fail { Err(DeviceError {}) } else { Ok(()) }
    }
    fn set_lcd_image(&mut self, x_offset: u16, x_size: u16, y_size: u16, image: Vec<u8>) -> Result<(), DeviceError> {
        self.calls.push(format!("lcd {} {} {} {:?}", x_offset, x_size, y_size, image));
        if self.fail { Err(DeviceError {}) } else { Ok(()) }
    }
}

#[test]
fn actions_reach_the_device() {
    let mut device = Recorder { calls: vec![], fail: false };
    let mut processor = DefaultCommandProcessor::new(tiny(None)).unwrap();
    assert!(handle_companion_data("BRIGHTNESS DEVICEID=d VALUE=10", &mut processor, &mut device).unwrap().is_none());
    let line = format!("KEY-STATE DEVICEID=d KEY=2 TYPE=BUTTON BITMAP={} PRESSED=false", encode(&[0; 12]));
    let job = handle_companion_data(&line, &mut processor, &mut device).unwrap().unwrap();
    finish_companion_data(job, vec![6], &mut processor, &mut device).unwrap();
    assert!(handle_companion_data(&line, &mut processor, &mut device).unwrap().is_none());
    assert!(handle_companion_data("PONG", &mut processor, &mut device).unwrap().is_none());
    assert_eq!(device.calls, vec!["brightness 10", "button 2 [6]", "button 2 [6]"]);
    assert!(matches!(
        handle_companion_data("BEGIN", &mut processor, &mut device),
        Err(HandleError::Receive(ReceiveError::Parse(ParseError::MissingField)))
    ));
    assert_eq!(device.calls.len(), 3);
}

#[test]
fn a_device_that_refuses_is_an_error() {
    let mut device = Recorder { calls: vec![], fail: true };
    let mut processor = DefaultCommandProcessor::new(tiny(None)).unwrap();
    assert!(matches!(
        handle_companion_data("BRIGHTNESS DEVICEID=d VALUE=10", &mut processor, &mut device),
        Err(HandleError::Device(_))
    ));
    assert!(send_action(&mut device, DeviceActions::SetBrightness(SetBrightness { brightness: 1 })).is_err());
}
