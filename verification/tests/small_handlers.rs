use embedded_trials::ble::{
    advertising_data, gatt_reply, gatt_step, AdTooLong, GattEvent, GattReply, GattRequest, GattStep,
    INSUFFICIENT_ENCRYPTION,
};
use embedded_trials::blink::{blink_step, BlinkAction};
use embedded_trials::keyhook::{key_transition, virtual_key, KeyTransition};
use embedded_trials::ui::{tick_message, Root};

#[test]
fn gatt_requests_need_encryption() {
    assert_eq!(gatt_reply(GattRequest::Read, true), GattReply::Accept);
    assert_eq!(gatt_reply(GattRequest::Write, true), GattReply::Accept);
    assert_eq!(gatt_reply(GattRequest::Read, false), GattReply::Reject(0x0f));
    assert_eq!(gatt_reply(GattRequest::Write, false), GattReply::Reject(INSUFFICIENT_ENCRYPTION));
}

#[test]
fn blink_panics_on_fifth_round() {
    let mut i = 0;
    for k in 1..=4 {
        assert_eq!(blink_step(&mut i), BlinkAction::Log(k));
    }
    assert_eq!(blink_step(&mut i), BlinkAction::Panic);
    assert_eq!(i, 5);
    assert_eq!(blink_step(&mut i), BlinkAction::Log(6));
}

#[test]
fn key_messages() {
    assert_eq!(key_transition(0, 0x100), Some(KeyTransition::Down));
    assert_eq!(key_transition(0, 0x104), Some(KeyTransition::Down));
    assert_eq!(key_transition(3, 0x101), Some(KeyTransition::Up));
    assert_eq!(key_transition(0, 0x105), Some(KeyTransition::Up));
    assert_eq!(key_transition(0, 0x200), None);
    assert_eq!(key_transition(-1, 0x100), None);
}

#[test]
fn key_message_uses_low_32_bits() {
    assert_eq!(key_transition(0, 0x1_0000_0100), Some(KeyTransition::Down));
}

#[test]
fn virtual_key_keeps_low_16_bits() {
    assert_eq!(virtual_key(0x41), 0x41);
    assert_eq!(virtual_key(0x1_0041), 0x41);
}

#[test]
fn root_shows_last_message() {
    let mut root = Root::new();
    assert_eq!(root.render_text(), "message: ");
    root.receive("from tokio task: 1".to_string());
    assert_eq!(root.render_text(), "message: from tokio task: 1");
    root.receive(tick_message(2));
    assert_eq!(root.render_text(), "message: from tokio task: 2");
}

#[test]
fn tick_messages() {
    assert_eq!(tick_message(0), "from tokio task: 0");
    assert_eq!(tick_message(42), "from tokio task: 42");
    assert_eq!(tick_message(i32::MAX), format!("from tokio task: {}", i32::MAX));
}

#[test]
fn advertising_data_of_the_keyboard() {
    let data = advertising_data(b"Trouble Example").unwrap();
    let mut expected = vec![2u8, 1, 6, 3, 2, 0x0f, 0x18, 16, 9];
    expected.extend_from_slice(b"Trouble Example");
    expected.resize(31, 0);
    assert_eq!(data.to_vec(), expected);
}

#[test]
fn advertising_data_fills_the_buffer_or_fails() {
    let name = [b'k'; 22];
    let data = advertising_data(&name).unwrap();
    assert_eq!(&data[7..9], &[23, 9]);
    assert_eq!(&data[9..], &name[..]);
    assert_eq!(advertising_data(&[b'k'; 23]), Err(AdTooLong));
}

#[test]
fn constants_agree_with_the_ble_host_stack() {
    assert_eq!(
        INSUFFICIENT_ENCRYPTION,
        trouble_host::att::AttErrorCode::INSUFFICIENT_ENCRYPTION.to_u8()
    );
    assert_eq!(
        embedded_trials::ble::LE_GENERAL_DISCOVERABLE,
        trouble_host::advertise::LE_GENERAL_DISCOVERABLE
    );
    assert_eq!(
        embedded_trials::ble::BR_EDR_NOT_SUPPORTED,
        trouble_host::advertise::BR_EDR_NOT_SUPPORTED
    );
}

#[test]
fn gatt_event_steps() {
    assert_eq!(gatt_step(GattEvent::Disconnected, true), GattStep::Stop);
    assert_eq!(gatt_step(GattEvent::Request(GattRequest::Read), true), GattStep::Answer(GattReply::Accept));
    assert_eq!(
        gatt_step(GattEvent::Request(GattRequest::Write), false),
        GattStep::Answer(GattReply::Reject(INSUFFICIENT_ENCRYPTION))
    );
    assert_eq!(gatt_step(GattEvent::Failed, false), GattStep::LogFailure);
    assert_eq!(gatt_step(GattEvent::Other, false), GattStep::Continue);
}

#[test]
fn root_follows_a_stream_of_messages_in_order() {
    let mut root = Root::new();
    for i in 1..=50 {
        root.receive(tick_message(i));
        assert_eq!(root.render_text(), format!("message: from tokio task: {}", i));
    }
}
