//! Finding the fan controller on the USB bus, opening it, and reading what it
//! sends.

use vstd::prelude::*;

use crate::text;

verus! {

/// The bulk endpoint that temperatures are written to.
pub const ENDPOINT_OUT: u8 = 0x01;

/// The bulk endpoint that messages are read from.
pub const ENDPOINT_IN: u8 = 0x82;

/// The CDC data interface, which owns the bulk endpoints. Interface 0 is the
/// CDC control interface and has no bulk endpoints to claim.
pub const DATA_INTERFACE: u8 = 1;

/// How long a bulk transfer may take, in seconds.
pub const TRANSFER_TIMEOUT_SECS: u64 = 1;

/// The size of the buffer that a message is read into.
pub const MESSAGE_BUFFER_SIZE: usize = 64;

/// What tells one make of USB device from another.
#[derive(Debug, Clone, Copy, PartialEq, Eq, Structural)]
pub struct DeviceId {
    pub vendor_id: u16,
    pub product_id: u16,
}

/// Position `i` holds the wanted device, and every device before it could be
/// read and is another one.
pub open spec fn first_match(devices: Seq<Option<DeviceId>>, wanted: DeviceId, i: int) -> bool {
    &&& 0 <= i < devices.len()
    &&& devices[i] == Some(wanted)
    &&& forall|k: int|
        0 <= k < i ==> (#[trigger] devices[k]) is Some && devices[k] != Some(wanted)
}

/// Scans a listing of the bus for a device by vendor and product. `listing` is
/// `None` if the bus could not be listed, and an entry of it is `None` if that
/// device's descriptor could not be read: the scan ends there.
pub fn find_device(listing: Option<&Vec<Option<DeviceId>>>, vid: u16, pid: u16) -> (r: Option<
    usize,
>)
    ensures
        match (listing, r) {
            (None, _) => r is None,
            (Some(devices), Some(i)) => first_match(
                devices@,
                (DeviceId { vendor_id: vid, product_id: pid }),
                i as int,
            ),
            (Some(devices), None) => forall|i: int|
                !#[trigger] first_match(
                    devices@,
                    (DeviceId { vendor_id: vid, product_id: pid }),
                    i,
                ),
        },
{
    let devices = match listing {
        Some(devices) => devices,
        None => return None,
    };
    let ghost wanted = DeviceId { vendor_id: vid, product_id: pid };
    let mut i: usize = 0;
    while i < devices.len()
        invariant
            listing == Some(devices),
            i <= devices@.len(),
            wanted == (DeviceId { vendor_id: vid, product_id: pid }),
            forall|k: int|
                0 <= k < i ==> (#[trigger] devices@[k]) is Some && devices@[k] != Some(wanted),
        decreases devices@.len() - i,
    {
        match devices[i] {
            None => {
                assert forall|k: int| !#[trigger] first_match(devices@, wanted, k) by {
                    if first_match(devices@, wanted, k) && i < k {
                        assert(devices@[i as int] is Some);
                    }
                }
                return None;
            },
            Some(id) => {
                if id.vendor_id == vid && id.product_id == pid {
                    return Some(i);
                }
            },
        }
        i = i + 1;
    }
    None
}

/// A step of opening the fan controller.
#[derive(Debug, Clone, Copy, PartialEq, Eq, Structural)]
pub enum ConnectStep {
    /// Scan the bus for the device.
    Find,
    /// Open the device.
    Open,
    /// Ask whether a kernel driver holds the interface.
    CheckDriver,
    /// Detach the kernel driver from the interface.
    DetachDriver,
    /// Claim the interface.
    Claim,
}

/// Where opening the fan controller stands after a step.
#[derive(Debug, Clone, Copy, PartialEq, Eq, Structural)]
pub enum ConnectProgress {
    /// This step comes next.
    Next(ConnectStep),
    /// The device is open and its interface claimed.
    Connected,
    /// The step failed.
    Failed,
}

/// What follows a step that went well or not.
pub open spec fn connect_progress(
    step: ConnectStep,
    ok: bool,
    driver_active: bool,
) -> ConnectProgress {
    if !ok {
        ConnectProgress::Failed
    } else {
        match step {
            ConnectStep::Find => ConnectProgress::Next(ConnectStep::Open),
            ConnectStep::Open => ConnectProgress::Next(ConnectStep::CheckDriver),
            ConnectStep::CheckDriver => if driver_active {
                ConnectProgress::Next(ConnectStep::DetachDriver)
            } else {
                ConnectProgress::Next(ConnectStep::Claim)
            },
            ConnectStep::DetachDriver => ConnectProgress::Next(ConnectStep::Claim),
            ConnectStep::Claim => ConnectProgress::Connected,
        }
    }
}

/// Decides what follows `step`. `ok` tells whether the step went well;
/// `driver_active` is the answer of `CheckDriver` and counts at no other step.
pub fn next_connect_step(step: ConnectStep, ok: bool, driver_active: bool) -> (r: ConnectProgress)
    ensures
        r == connect_progress(step, ok, driver_active),
{
    if !ok {
        return ConnectProgress::Failed;
    }
    match step {
        ConnectStep::Find => ConnectProgress::Next(ConnectStep::Open),
        ConnectStep::Open => ConnectProgress::Next(ConnectStep::CheckDriver),
        ConnectStep::CheckDriver => if driver_active {
            ConnectProgress::Next(ConnectStep::DetachDriver)
        } else {
            ConnectProgress::Next(ConnectStep::Claim)
        },
        ConnectStep::DetachDriver => ConnectProgress::Next(ConnectStep::Claim),
        ConnectStep::Claim => ConnectProgress::Connected,
    }
}

/// Why a connection could not be made: the failed step, and for all but the
/// scan what the device reported.
pub open spec fn connect_error_text(step: ConnectStep, detail: Seq<char>) -> Seq<char> {
    match step {
        ConnectStep::Find => "device not found"@,
        ConnectStep::Open => "unable to open device: "@ + detail,
        ConnectStep::CheckDriver => "cannot check kernel driver: "@ + detail,
        ConnectStep::DetachDriver => "unable to detach kernel driver: "@ + detail,
        ConnectStep::Claim => "unable to claim interface: "@ + detail,
    }
}

/// Says why a connection could not be made.
pub fn connect_error(step: ConnectStep, detail: &str) -> (r: String)
    ensures
        r@ == connect_error_text(step, detail@),
{
    let prefix = match step {
        ConnectStep::Find => return String::from_str("device not found"),
        ConnectStep::Open => "unable to open device: ",
        ConnectStep::CheckDriver => "cannot check kernel driver: ",
        ConnectStep::DetachDriver => "unable to detach kernel driver: ",
        ConnectStep::Claim => "unable to claim interface: ",
    };
    String::from_str(prefix).concat(detail)
}

/// Why a USB transfer failed.
#[derive(Debug, Clone, Copy, PartialEq, Eq, Structural)]
pub enum UsbError {
    Io,
    InvalidParam,
    Access,
    NoDevice,
    NotFound,
    Busy,
    Timeout,
    Overflow,
    Pipe,
    Interrupted,
    NoMem,
    NotSupported,
    BadDescriptor,
    Other,
}

/// What a read from the fan controller brought.
#[derive(Debug)]
pub enum DeviceMessage {
    /// A message, without the white space around it.
    Text(String),
    /// Bytes that are no text.
    NotText(Vec<u8>),
    /// No message was waiting.
    Silence,
}

/// `message` is what was sent as `bytes`.
pub open spec fn is_message(bytes: Vec<u8>, message: DeviceMessage) -> bool {
    if vstd::utf8::valid_utf8(bytes@) {
        message matches DeviceMessage::Text(s) && s@ == text::trimmed(
            vstd::utf8::decode_utf8(bytes@),
        )
    } else {
        message == DeviceMessage::NotText(bytes)
    }
}

/// Interprets one read from the fan controller, given the bytes that it brought
/// or the error that it failed with. The device only writes on connect or when
/// the fan's state changes, so a timeout is no failure; any other error is handed
/// on and means that the connection is no longer usable.
pub fn read_device_message(read: Result<Vec<u8>, UsbError>) -> (r: Result<DeviceMessage, UsbError>)
    ensures
        match read {
            Ok(bytes) => r matches Ok(message) && is_message(bytes, message),
            Err(e) => if e == UsbError::Timeout {
                r == Ok::<DeviceMessage, UsbError>(DeviceMessage::Silence)
            } else {
                r == Err::<DeviceMessage, UsbError>(e)
            },
        },
{
    match read {
        Ok(bytes) => {
            let message: Option<String> = match text::utf8_text(bytes.as_slice()) {
                Some(s) => Some(String::from_str(text::trim(s))),
                None => None,
            };
            match message {
                Some(s) => Ok(DeviceMessage::Text(s)),
                None => Ok(DeviceMessage::NotText(bytes)),
            }
        },
        Err(UsbError::Timeout) => Ok(DeviceMessage::Silence),
        Err(e) => Err(e),
    }
}

/// Where opening the fan controller stands after steps with these results, each
/// whether it went well and whether a kernel driver is active.
pub open spec fn connect_run(step: ConnectStep, results: Seq<(bool, bool)>) -> ConnectProgress
    decreases results.len(),
{
    if results.len() == 0 {
        ConnectProgress::Next(step)
    } else {
        match connect_progress(step, results.first().0, results.first().1) {
            ConnectProgress::Next(next) => connect_run(next, results.drop_first()),
            p => p,
        }
    }
}

/// The controller is connected exactly if it was found and opened, its driver
/// could be checked and, if active, detached, and the interface claimed.
pub proof fn connected_means_every_step_went_well(
    find: bool,
    open: bool,
    check: bool,
    active: bool,
    detach: bool,
    claim: bool,
)
    ensures
        active ==> {
            let run = connect_run(
                ConnectStep::Find,
                seq![
                    (find, false),
                    (open, false),
                    (check, active),
                    (detach, false),
                    (claim, false),
                ],
            );
            if find && open && check && detach && claim {
                run is Connected
            } else {
                run is Failed
            }
        },
        !active ==> {
            let run = connect_run(
                ConnectStep::Find,
                seq![(find, false), (open, false), (check, active), (claim, false)],
            );
            if find && open && check && claim {
                run is Connected
            } else {
                run is Failed
            }
        },
{
    reveal_with_fuel(connect_run, 6);
    let a: Seq<(bool, bool)> = seq![
        (find, false),
        (open, false),
        (check, active),
        (detach, false),
        (claim, false),
    ];
    let b: Seq<(bool, bool)> = seq![(find, false), (open, false), (check, active), (claim, false)];
    assert(a.drop_first() =~= seq![(open, false), (check, active), (detach, false), (claim, false)]);
    assert(a.drop_first().drop_first() =~= seq![(check, active), (detach, false), (claim, false)]);
    assert(a.drop_first().drop_first().drop_first() =~= seq![(detach, false), (claim, false)]);
    assert(a.drop_first().drop_first().drop_first().drop_first() =~= seq![(claim, false)]);
    assert(b.drop_first() =~= seq![(open, false), (check, active), (claim, false)]);
    assert(b.drop_first().drop_first() =~= seq![(check, active), (claim, false)]);
    assert(b.drop_first().drop_first().drop_first() =~= seq![(claim, false)]);
}

/// The interface is claimed only once no kernel driver holds it: a run that
/// connects found the driver inactive or detached it.
pub proof fn claim_follows_driver_check(results: Seq<(bool, bool)>)
    requires
        connect_run(ConnectStep::Find, results) is Connected,
    ensures
        results.len() >= 4,
        results[2].0,
        results[2].1 ==> results.len() >= 5 && results[3].0,
{
    reveal_with_fuel(connect_run, 7);
    let r1 = results.drop_first();
    let r2 = r1.drop_first();
    let r3 = r2.drop_first();
    let r4 = r3.drop_first();
    assert(results.len() >= 4);
    assert(r2.first() == results[2]);
    assert(r3.first() == results[3]);
}

/// The scan finds the device with the wanted vendor and product: behind devices
/// that could be read and are others, whatever comes after it.
pub proof fn scan_finds_the_wanted_device(
    others: Seq<Option<DeviceId>>,
    vid: u16,
    pid: u16,
    rest: Seq<Option<DeviceId>>,
)
    requires
        forall|k: int|
            0 <= k < others.len() ==> ((#[trigger] others[k]) matches Some(id) && (id.vendor_id
                != vid || id.product_id != pid)),
    ensures
        ({
            let wanted = DeviceId { vendor_id: vid, product_id: pid };
            let devices = others + seq![Some(wanted)] + rest;
            forall|i: int| #[trigger] first_match(devices, wanted, i) <==> i == others.len()
        }),
{
    let wanted = DeviceId { vendor_id: vid, product_id: pid };
    let devices = others + seq![Some(wanted)] + rest;
    let at = others.len() as int;
    assert(devices[at] == Some(wanted));
    assert forall|k: int| 0 <= k < at implies (#[trigger] devices[k]) is Some && devices[k]
        != Some(wanted) by {
        assert(devices[k] == others[k]);
    }
    assert(first_match(devices, wanted, at));
    assert forall|i: int| #[trigger] first_match(devices, wanted, i) implies i == at by {
        if i > at {
            assert(devices[at] != Some(wanted));
        } else if i < at {
            assert(devices[i] == others[i]);
        }
    }
}

/// A device that the scan finds has the wanted vendor and product, and comes
/// behind none that has, nor behind one that could not be read.
pub proof fn found_device_is_the_first(
    devices: Seq<Option<DeviceId>>,
    wanted: DeviceId,
    i: int,
    k: int,
)
    requires
        first_match(devices, wanted, i),
    ensures
        0 <= i < devices.len(),
        devices[i] matches Some(id) && id.vendor_id == wanted.vendor_id && id.product_id
            == wanted.product_id,
        0 <= k < i ==> (devices[k] matches Some(id) && (id.vendor_id != wanted.vendor_id
            || id.product_id != wanted.product_id)),
{
    if 0 <= k < i {
        assert(devices[k] is Some);
    }
}

/// The steps of connecting, in their order: the device is found, opened, its
/// driver checked and, if active, detached, and last its interface claimed. Only
/// the check's answer counts.
pub proof fn connecting_takes_its_steps(a: bool, b: bool, active: bool, d: bool, e: bool)
    ensures
        connect_run(ConnectStep::Find, seq![(true, a)]) == ConnectProgress::Next(
            ConnectStep::Open,
        ),
        connect_run(ConnectStep::Find, seq![(true, a), (true, b)]) == ConnectProgress::Next(
            ConnectStep::CheckDriver,
        ),
        connect_run(ConnectStep::Find, seq![(true, a), (true, b), (true, active)])
            == ConnectProgress::Next(
            if active {
                ConnectStep::DetachDriver
            } else {
                ConnectStep::Claim
            },
        ),
        active ==> connect_run(
            ConnectStep::Find,
            seq![(true, a), (true, b), (true, active), (true, d)],
        ) == ConnectProgress::Next(ConnectStep::Claim),
        active ==> connect_run(
            ConnectStep::Find,
            seq![(true, a), (true, b), (true, active), (true, d), (true, e)],
        ) == ConnectProgress::Connected,
        !active ==> connect_run(
            ConnectStep::Find,
            seq![(true, a), (true, b), (true, active), (true, d)],
        ) == ConnectProgress::Connected,
{
    reveal_with_fuel(connect_run, 6);
    let s1: Seq<(bool, bool)> = seq![(true, a)];
    let s2: Seq<(bool, bool)> = seq![(true, a), (true, b)];
    let s3: Seq<(bool, bool)> = seq![(true, a), (true, b), (true, active)];
    let s4: Seq<(bool, bool)> = seq![(true, a), (true, b), (true, active), (true, d)];
    let s5: Seq<(bool, bool)> = seq![(true, a), (true, b), (true, active), (true, d), (true, e)];
    assert(s1.drop_first() =~= seq![]);
    assert(s2.drop_first() =~= seq![(true, b)]);
    assert(s2.drop_first().drop_first() =~= seq![]);
    assert(s3.drop_first() =~= seq![(true, b), (true, active)]);
    assert(s3.drop_first().drop_first() =~= seq![(true, active)]);
    assert(s3.drop_first().drop_first().drop_first() =~= seq![]);
    assert(s4.drop_first() =~= seq![(true, b), (true, active), (true, d)]);
    assert(s4.drop_first().drop_first() =~= seq![(true, active), (true, d)]);
    assert(s4.drop_first().drop_first().drop_first() =~= seq![(true, d)]);
    assert(s4.drop_first().drop_first().drop_first().drop_first() =~= seq![]);
    assert(s5.drop_first() =~= seq![(true, b), (true, active), (true, d), (true, e)]);
    assert(s5.drop_first().drop_first() =~= seq![(true, active), (true, d), (true, e)]);
    assert(s5.drop_first().drop_first().drop_first() =~= seq![(true, d), (true, e)]);
    assert(s5.drop_first().drop_first().drop_first().drop_first() =~= seq![(true, e)]);
}

/// Whatever step fails, the attempt ends there.
pub proof fn failed_step_ends_attempt(step: ConnectStep, active: bool, rest: Seq<(bool, bool)>)
    ensures
        connect_run(step, seq![(false, active)] + rest) == ConnectProgress::Failed,
{
    assert((seq![(false, active)] + rest).first() == (false, active));
}

/// Why a connection failed tells the step by its opening words and ends in what
/// the device reported; of a device that was not found there is nothing to report.
pub proof fn connect_error_tells_step_and_detail(step: ConnectStep, detail: Seq<char>)
    ensures
        ({
            let text = connect_error_text(step, detail);
            let n = text.len() - detail.len();
            &&& step is Find ==> text == "device not found"@
            &&& step !is Find ==> 0 <= n && text.subrange(n, text.len() as int) == detail
            &&& step is Open ==> text.subrange(0, n) == "unable to open device: "@
            &&& step is CheckDriver ==> text.subrange(0, n) == "cannot check kernel driver: "@
            &&& step is DetachDriver ==> text.subrange(0, n) == "unable to detach kernel driver: "@
            &&& step is Claim ==> text.subrange(0, n) == "unable to claim interface: "@
        }),
{
    let whole = connect_error_text(step, detail);
    let n = whole.len() - detail.len();
    if step !is Find {
        assert(whole.subrange(n, whole.len() as int) =~= detail);
        assert(step is Open ==> whole.subrange(0, n) =~= "unable to open device: "@);
        assert(step is CheckDriver ==> whole.subrange(0, n) =~= "cannot check kernel driver: "@);
        assert(step is DetachDriver ==> whole.subrange(0, n)
            =~= "unable to detach kernel driver: "@);
        assert(step is Claim ==> whole.subrange(0, n) =~= "unable to claim interface: "@);
    }
}

/// A text that the controller sends comes out as that text, whatever white space
/// it was sent between.
pub proof fn message_is_the_text_sent(
    bytes: Vec<u8>,
    message: DeviceMessage,
    before: Seq<char>,
    s: Seq<char>,
    after: Seq<char>,
)
    requires
        is_message(bytes, message),
        bytes@ == vstd::utf8::encode_utf8(before + s + after),
        forall|k: int| 0 <= k < before.len() ==> text::is_white_space(#[trigger] before[k]),
        forall|k: int| 0 <= k < after.len() ==> text::is_white_space(#[trigger] after[k]),
        s.len() > 0 ==> !text::is_white_space(s[0]) && !text::is_white_space(s[s.len() - 1]),
    ensures
        message matches DeviceMessage::Text(sent) && sent@ == s,
{
    vstd::utf8::encode_utf8_valid_utf8(before + s + after);
    vstd::utf8::encode_utf8_decode_utf8(before + s + after);
    text::trimming_takes_white_space_off(before, s, after);
}

/// Bytes that are no text come out as they were sent.
pub proof fn bytes_that_are_no_text_are_kept(bytes: Vec<u8>, message: DeviceMessage)
    requires
        is_message(bytes, message),
        !vstd::utf8::valid_utf8(bytes@),
    ensures
        message matches DeviceMessage::NotText(sent) && sent@ == bytes@,
{
}

/// The controller's bulk endpoints: temperatures go out on the first and messages
/// come in on the second, both through the data interface, whose transfers may
/// take a second and bring up to 64 bytes.
pub proof fn controller_endpoints()
    ensures
        ENDPOINT_OUT == 0x01,
        ENDPOINT_IN == 0x82,
        DATA_INTERFACE == 1,
        TRANSFER_TIMEOUT_SECS == 1,
        MESSAGE_BUFFER_SIZE == 64,
{
}

} // verus!
