use rptemp::device::{
    connect_error, find_device, next_connect_step, read_device_message, ConnectProgress,
    ConnectStep, DeviceId, DeviceMessage, UsbError,
};

fn id(vendor_id: u16, product_id: u16) -> Option<DeviceId> {
    Some(DeviceId {
        vendor_id,
        product_id,
    })
}

#[test]
fn find_device_takes_the_first_match() {
    let devices = vec![id(1, 2), id(1, 3), id(2, 3), id(1, 3)];
    assert_eq!(find_device(Some(&devices), 1, 3), Some(1));
    assert_eq!(find_device(Some(&devices), 2, 3), Some(2));
    assert_eq!(find_device(Some(&devices), 3, 1), None);
    assert_eq!(find_device(Some(&Vec::new()), 1, 3), None);
}

#[test]
fn find_device_stops_at_an_unreadable_descriptor() {
    let devices = vec![id(1, 2), None, id(1, 3)];
    assert_eq!(find_device(Some(&devices), 1, 2), Some(0));
    assert_eq!(find_device(Some(&devices), 1, 3), None);
}

#[test]
fn find_device_needs_a_listing() {
    assert_eq!(find_device(None, 1, 2), None);
}

#[test]
fn connecting_detaches_an_active_driver() {
    let next = |step, active| next_connect_step(step, true, active);
    assert_eq!(
        next(ConnectStep::Find, false),
        ConnectProgress::Next(ConnectStep::Open)
    );
    assert_eq!(
        next(ConnectStep::Open, false),
        ConnectProgress::Next(ConnectStep::CheckDriver)
    );
    assert_eq!(
        next(ConnectStep::CheckDriver, true),
        ConnectProgress::Next(ConnectStep::DetachDriver)
    );
    assert_eq!(
        next(ConnectStep::CheckDriver, false),
        ConnectProgress::Next(ConnectStep::Claim)
    );
    assert_eq!(
        next(ConnectStep::DetachDriver, false),
        ConnectProgress::Next(ConnectStep::Claim)
    );
    assert_eq!(next(ConnectStep::Claim, false), ConnectProgress::Connected);
}

#[test]
fn connecting_fails_with_its_step() {
    let texts = [
        (ConnectStep::Find, "device not found"),
        (ConnectStep::Open, "unable to open device: Busy"),
        (ConnectStep::CheckDriver, "cannot check kernel driver: Busy"),
        (
            ConnectStep::DetachDriver,
            "unable to detach kernel driver: Busy",
        ),
        (ConnectStep::Claim, "unable to claim interface: Busy"),
    ];
    for (step, text) in texts {
        assert_eq!(
            next_connect_step(step, false, true),
            ConnectProgress::Failed
        );
        assert_eq!(connect_error(step, "Busy"), text);
    }
}

fn text_of(bytes: &[u8]) -> Option<String> {
    match read_device_message(Ok(bytes.to_vec())) {
        Ok(DeviceMessage::Text(s)) => Some(s),
        _ => None,
    }
}

#[test]
fn messages_are_trimmed_text() {
    assert_eq!(text_of(b" CONNECTED\r\n"), Some("CONNECTED".to_string()));
    assert_eq!(text_of(b"a b"), Some("a b".to_string()));
    assert_eq!(text_of(b""), Some(String::new()));
    assert_eq!(text_of(b" \t\n"), Some(String::new()));
    assert_eq!(
        text_of("\u{2003}\u{85}fan \u{e9}\u{3000}\u{1680}".as_bytes()),
        Some("fan \u{e9}".to_string())
    );
    assert_eq!(
        text_of("\u{200b}on\u{180e}".as_bytes()),
        Some("\u{200b}on\u{180e}".to_string())
    );
}

#[test]
fn white_space_is_what_unicode_says() {
    let spaces = [
        0x9, 0xa, 0xb, 0xc, 0xd, 0x20, 0x85, 0xa0, 0x1680, 0x2000, 0x2001, 0x2002, 0x2003, 0x2004,
        0x2005, 0x2006, 0x2007, 0x2008, 0x2009, 0x200a, 0x2028, 0x2029, 0x202f, 0x205f, 0x3000,
    ];
    for u in 0..=0x10ffff {
        if let Some(c) = char::from_u32(u) {
            let trimmed = text_of(c.to_string().as_bytes()).unwrap();
            assert_eq!(trimmed.is_empty(), spaces.contains(&u));
        }
    }
}

#[test]
fn messages_that_are_no_text_are_kept_raw() {
    match read_device_message(Ok(vec![0x41, 0xff])) {
        Ok(DeviceMessage::NotText(bytes)) => assert_eq!(bytes, vec![0x41, 0xff]),
        _ => panic!("expected raw bytes"),
    }
}

#[test]
fn a_timeout_is_no_failure() {
    assert!(matches!(
        read_device_message(Err(UsbError::Timeout)),
        Ok(DeviceMessage::Silence)
    ));
}

#[test]
fn any_other_error_is_handed_on() {
    for e in [
        UsbError::Io,
        UsbError::InvalidParam,
        UsbError::Access,
        UsbError::NoDevice,
        UsbError::NotFound,
        UsbError::Busy,
        UsbError::Overflow,
        UsbError::Pipe,
        UsbError::Interrupted,
        UsbError::NoMem,
        UsbError::NotSupported,
        UsbError::BadDescriptor,
        UsbError::Other,
    ] {
        assert_eq!(read_device_message(Err(e)).unwrap_err(), e);
    }
}
