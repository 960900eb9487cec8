use weldwm::libinput::{DeviceAxisSource, DeviceEvent, LibinputAdapter};
use weldwm::number::Real64;
use weldwm::raw_input::{
    ButtonState, InputPosition, LinuxButtonCode, LinuxKeycode, RawScrollPhase, RawScrollSource,
    RawSeatEvent, RawSeatEventKind,
};

fn double(value: f64) -> Real64 {
    Real64::new(value.to_bits())
}

fn position(x: f64, y: f64) -> InputPosition {
    InputPosition::new(double(x), double(y))
}

fn adapter(width: f64, height: f64) -> LibinputAdapter {
    LibinputAdapter::new(
        position(width / 2.0, height / 2.0),
        position((width - 1.0).max(0.0), (height - 1.0).max(0.0)),
    )
}

#[test]
fn standalone_pointer_starts_centered_and_stays_inside_the_output() {
    let adapter = adapter(1920.0, 1080.0);
    assert_eq!(
        adapter.initial_event(),
        RawSeatEvent::new(
            RawSeatEventKind::PointerMotion {
                position: position(960.0, 540.0),
            },
            0,
        )
    );
    assert_eq!(
        adapter.clamp(position(-20.0, 5000.0)),
        position(0.0, 1079.0)
    );
}

#[test]
fn standalone_finger_scroll_stops_only_the_reported_axis() {
    let mut adapter = adapter(1920.0, 1080.0);
    let started = adapter.scroll_frame(
        RawScrollSource::Finger,
        Some(double(4.0)),
        Some(double(6.0)),
        None,
        None,
    );
    assert_eq!(started.phase, RawScrollPhase::Started);

    let horizontal_stop =
        adapter.scroll_frame(RawScrollSource::Finger, Some(double(0.0)), None, None, None);
    assert!(horizontal_stop.horizontal_stop);
    assert!(!horizontal_stop.vertical_stop);
    assert_eq!(horizontal_stop.phase, RawScrollPhase::Moved);

    let vertical_stop =
        adapter.scroll_frame(RawScrollSource::Finger, None, Some(double(0.0)), None, None);
    assert!(!vertical_stop.horizontal_stop);
    assert!(vertical_stop.vertical_stop);
    assert_eq!(vertical_stop.phase, RawScrollPhase::Ended);
}

#[test]
fn device_events_become_seat_events() {
    let mut adapter = adapter(100.0, 50.0);
    let key = |code| DeviceEvent::Keyboard { code, state: ButtonState::Pressed, time: 3 };
    assert_eq!(adapter.convert(key(7)), None);
    assert_eq!(
        adapter.convert(key(38)),
        Some(RawSeatEvent::new(
            RawSeatEventKind::Keyboard {
                keycode: LinuxKeycode(30),
                logical_key: None,
                state: ButtonState::Pressed,
            },
            3,
        ))
    );
    let moved = DeviceEvent::PointerMotion { position: position(500.0, -3.0), time: 4 };
    assert_eq!(
        adapter.convert(moved),
        Some(RawSeatEvent::new(
            RawSeatEventKind::PointerMotion { position: position(99.0, 0.0) },
            4,
        ))
    );
    let button = LinuxButtonCode(0x111);
    let pressed = DeviceEvent::PointerButton { button, state: ButtonState::Pressed, time: 5 };
    assert_eq!(
        adapter.convert(pressed),
        Some(RawSeatEvent::new(
            RawSeatEventKind::PointerButton {
                position: Some(position(99.0, 0.0)),
                button,
                state: ButtonState::Pressed,
            },
            5,
        ))
    );
    let tilted = DeviceEvent::PointerAxis {
        source: DeviceAxisSource::WheelTilt,
        horizontal: None,
        vertical: Some(double(0.0)),
        horizontal_v120: Some(120),
        vertical_v120: None,
        time: 6,
    };
    match adapter.convert(tilted).expect("scrolls").event {
        RawSeatEventKind::PointerAxis { position: at, axis } => {
            assert_eq!(at, Some(position(99.0, 0.0)));
            assert_eq!(axis.source, RawScrollSource::Wheel);
            assert_eq!(axis.phase, RawScrollPhase::Moved);
            assert_eq!(axis.horizontal, double(0.0));
            assert_eq!(axis.horizontal_v120, Some(120));
            assert!(!axis.vertical_stop);
        }
        other => panic!("unexpected {other:?}"),
    }
    assert_eq!(adapter.convert(DeviceEvent::Other), None);
    assert_eq!(adapter.pointer, position(99.0, 0.0));
}
