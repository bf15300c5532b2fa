use data_sink::compass::Direction;
use data_sink::format::{reply_to, DeviceToServer, ServerToDevice};
use data_sink::message::{KeepAlive, Mood};

#[test]
fn compass_points_light_the_border() {
    assert_eq!(Direction::North.led_index(), (0, 2));
    assert_eq!(Direction::East.led_index(), (2, 4));
    assert_eq!(Direction::SouthSouthWest.led_index(), (4, 1));
    assert_eq!(Direction::NorthNorthWest.led_index(), (0, 1));
    assert_eq!(Direction::NoDirection.led_index(), (2, 2));
}

#[test]
fn sectors_map_to_compass_points() {
    assert_eq!(Direction::from_sector(12), Direction::North);
    assert_eq!(Direction::from_sector(0), Direction::East);
    assert_eq!(Direction::from_sector(16), Direction::East);
    assert_eq!(Direction::from_sector(8), Direction::West);
    assert_eq!(Direction::from_sector(u32::MAX), Direction::EastNorthEast);
}

#[test]
fn default_messages_are_empty() {
    let m = ServerToDevice::default();
    assert_eq!(m.set_led_status, None);
    assert!(!m.say_hello && !m.send_acc_data);
    let d = DeviceToServer::default();
    assert_eq!(d.led_status, None);
    assert!(!d.said_hello);
}

#[test]
fn moods_compare_by_reason() {
    assert_eq!(Mood::Bad("battery low".to_string()), Mood::Bad("battery low".to_string()));
    assert_ne!(Mood::Bad("a".to_string()), Mood::Bad("b".to_string()));
    assert_ne!(Mood::Good, Mood::Meh);
    assert_eq!(KeepAlive::healthy(), KeepAlive { everything_is_fine: true });
}

#[test]
fn device_answers_a_greeting_only() {

    let hello = ServerToDevice { set_led_status: None, send_acc_data: false, say_hello: true };
    let reply = reply_to(&hello).unwrap();
    assert!(reply.said_hello);
    assert_eq!(reply.led_status, None);
    let led = ServerToDevice { set_led_status: Some((2, true)), send_acc_data: false, say_hello: false };
    assert!(reply_to(&led).is_none());
}
