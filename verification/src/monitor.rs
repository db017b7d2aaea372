//! The monitor: its configuration, its HTTP handlers, and the loop that drives
//! the fan controller.

use vstd::prelude::*;

use crate::client;
use crate::clock;
use crate::host::HostTemp;
use crate::level;
use crate::table;
use crate::table::{HostTable, Reading};
use crate::text;

verus! {

/// The HTTP status of a request that was carried out.
pub const STATUS_OK: u16 = 200;

/// The HTTP status of a request that the monitor could not carry out.
pub const STATUS_INTERNAL_SERVER_ERROR: u16 = 500;

/// Seconds between two attempts to connect to the fan controller.
pub const RETRY_SECS: u64 = 5;

/// Seconds between two rounds of the monitor.
pub const ROUND_SECS: u64 = 15;

/// The monitor's configuration.
#[derive(Debug)]
pub struct Configuration {
    pub usb_vendor_id: u16,
    pub usb_product_id: u16,
    pub port: u16,
    /// Reserved; the monitor does not use it.
    pub target_temp: u8,
    pub log_level: String,
}

impl Configuration {
    /// The configuration can be used: its log level is the name of one.
    pub open spec fn valid(self) -> bool {
        level::named_level(self.log_level@) is Some
    }

    /// The configuration that stands in for one that cannot be used.
    pub open spec fn is_fallback(self) -> bool {
        &&& self.usb_vendor_id == 0xffff
        &&& self.usb_product_id == 0xffff
        &&& self.port == 5555
        &&& self.target_temp == 45
        &&& self.log_level@ == "info"@
    }

    /// Whether the configuration can be used.
    pub fn is_valid(&self) -> (r: bool)
        ensures
            r == self.valid(),
    {
        level::is_level_name(self.log_level.as_str())
    }

    /// The configuration to run with, given the one that was read, if one could
    /// be: that one if it can be used, else the default.
    pub fn or_default(read: Option<Configuration>) -> (r: Configuration)
        ensures
            r.valid(),
            match read {
                Some(config) => if config.valid() {
                    r == config
                } else {
                    r.is_fallback()
                },
                None => r.is_fallback(),
            },
    {
        proof {
            level::lemma_info_is_a_level();
        }
        match read {
            Some(config) => if config.is_valid() {
                config
            } else {
                Configuration::default()
            },
            None => Configuration::default(),
        }
    }
}

impl Default for Configuration {
    fn default() -> (r: Configuration)
        ensures
            r.is_fallback(),
    {
        Configuration {
            usb_vendor_id: 0xffff,
            usb_product_id: 0xffff,
            port: 5555,
            target_temp: 45,
            log_level: String::from_str("info"),
        }
    }
}

/// Answers a health check.
pub fn health_check() -> (r: (u16, &'static str))
    ensures
        r.0 == STATUS_OK,
        r.1@ == "OK"@,
{
    (STATUS_OK, "OK")
}

/// Takes in a report that was received at the timestamp `received`: it is
/// recorded under its host's name, stamped with the time of its receipt in place
/// of the sender's. `state` is `None` if the table's lock is poisoned; the
/// report is then refused.
pub fn report_temp(state: Option<&mut HostTable>, payload: HostTemp, received: u64) -> (r: (
    u16,
    &'static str,
))
    requires
        state matches Some(hosts) ==> hosts.wf(),
        received <= clock::MAX_TIMESTAMP,
    ensures
        match state {
            Some(hosts) => {
                &&& final(hosts).wf()
                &&& final(hosts)@ == hosts@.insert(
                    payload.host@,
                    (Reading { temp: payload.temp, time: received }),
                )
                &&& r.0 == STATUS_OK
                &&& r.1@ == "OK"@
            },
            None => {
                &&& r.0 == STATUS_INTERNAL_SERVER_ERROR
                &&& r.1@ == "Error processing request"@
            },
        },
{
    match state {
        Some(hosts) => {
            hosts.insert(HostTemp { host: payload.host, temp: payload.temp, time: received });
            (STATUS_OK, "OK")
        },
        None => (STATUS_INTERNAL_SERVER_ERROR, "Error processing request"),
    }
}

/// What is written to the fan controller to tell it the highest temperature.
pub fn fan_payload(max_temp: u8) -> (r: String)
    ensures
        r@ == text::decimal(max_temp as nat),
{
    let mut r: String = String::new();
    text::push_decimal(&mut r, max_temp as u64);
    r
}

/// What the monitor's loop is about to do. `greeted` tells whether the loop is
/// past the message that the controller sends on the first connection.
#[derive(Debug, Clone, Copy, PartialEq, Eq, Structural)]
pub enum Phase {
    /// Connect to the fan controller.
    Connecting { greeted: bool },
    /// Wait before connecting again.
    Retrying { greeted: bool },
    /// Read the message that the controller sends on connection.
    Greeting,
    /// Wait for the next round.
    Resting,
    /// Sweep the table of hosts.
    Sweeping,
    /// Write the highest temperature to the controller.
    Telling { max_temp: u8 },
    /// Read the controller's answer.
    Listening,
}

/// What is to be done in a phase.
#[derive(Debug, Clone, Copy, PartialEq, Eq, Structural)]
pub enum Action {
    /// Try to connect to the fan controller.
    Connect,
    /// Wait for so many seconds.
    Sleep(u64),
    /// Read a message from the controller.
    Read,
    /// Sweep the table of hosts.
    Sweep,
    /// Write this temperature to the controller.
    Write(u8),
}

/// What came of an action.
#[derive(Debug, Clone, Copy, PartialEq, Eq, Structural)]
pub enum Event {
    /// The controller is connected.
    Connected,
    /// The controller could not be connected.
    ConnectFailed,
    /// The wait is over.
    Slept,
    /// A message was read, or none was waiting.
    ReadOk,
    /// Reading failed.
    ReadFailed,
    /// The table was swept and this is the highest temperature left.
    Swept(u8),
    /// The table's lock is poisoned.
    TableUnavailable,
    /// The temperature was written.
    Written,
    /// Writing failed.
    WriteFailed,
}

/// The phase that the loop starts in.
pub open spec fn initial_phase() -> Phase {
    Phase::Connecting { greeted: false }
}

/// What is done in a phase.
pub open spec fn action_in(phase: Phase) -> Action {
    match phase {
        Phase::Connecting { .. } => Action::Connect,
        Phase::Retrying { .. } => Action::Sleep(RETRY_SECS),
        Phase::Greeting => Action::Read,
        Phase::Resting => Action::Sleep(ROUND_SECS),
        Phase::Sweeping => Action::Sweep,
        Phase::Telling { max_temp } => Action::Write(max_temp),
        Phase::Listening => Action::Read,
    }
}

/// The phase that follows on an event. One that does not answer the phase's
/// action changes nothing.
pub open spec fn phase_after(phase: Phase, event: Event) -> Phase {
    match (phase, event) {
        (Phase::Connecting { greeted }, Event::Connected) => if greeted {
            Phase::Resting
        } else {
            Phase::Greeting
        },
        (Phase::Connecting { greeted }, Event::ConnectFailed) => Phase::Retrying { greeted },
        (Phase::Retrying { greeted }, Event::Slept) => Phase::Connecting { greeted },
        (Phase::Greeting, Event::ReadOk) => Phase::Resting,
        (Phase::Greeting, Event::ReadFailed) => Phase::Connecting { greeted: true },
        (Phase::Resting, Event::Slept) => Phase::Sweeping,
        (Phase::Sweeping, Event::Swept(max_temp)) => Phase::Telling { max_temp },
        (Phase::Sweeping, Event::TableUnavailable) => Phase::Resting,
        (Phase::Telling { .. }, Event::Written) => Phase::Listening,
        (Phase::Telling { .. }, Event::WriteFailed) => Phase::Connecting { greeted: true },
        (Phase::Listening, Event::ReadOk) => Phase::Resting,
        (Phase::Listening, Event::ReadFailed) => Phase::Connecting { greeted: true },
        _ => phase,
    }
}

impl Phase {
    /// The phase that the loop starts in.
    pub fn start() -> (r: Phase)
        ensures
            r == initial_phase(),
    {
        Phase::Connecting { greeted: false }
    }

    /// What is to be done in this phase.
    pub fn action(self) -> (r: Action)
        ensures
            r == action_in(self),
    {
        match self {
            Phase::Connecting { .. } => Action::Connect,
            Phase::Retrying { .. } => Action::Sleep(RETRY_SECS),
            Phase::Greeting => Action::Read,
            Phase::Resting => Action::Sleep(ROUND_SECS),
            Phase::Sweeping => Action::Sweep,
            Phase::Telling { max_temp } => Action::Write(max_temp),
            Phase::Listening => Action::Read,
        }
    }

    /// The phase that follows on `event`.
    pub fn next(self, event: Event) -> (r: Phase)
        ensures
            r == phase_after(self, event),
    {
        match (self, event) {
            (Phase::Connecting { greeted }, Event::Connected) => if greeted {
                Phase::Resting
            } else {
                Phase::Greeting
            },
            (Phase::Connecting { greeted }, Event::ConnectFailed) => Phase::Retrying { greeted },
            (Phase::Retrying { greeted }, Event::Slept) => Phase::Connecting { greeted },
            (Phase::Greeting, Event::ReadOk) => Phase::Resting,
            (Phase::Greeting, Event::ReadFailed) => Phase::Connecting { greeted: true },
            (Phase::Resting, Event::Slept) => Phase::Sweeping,
            (Phase::Sweeping, Event::Swept(max_temp)) => Phase::Telling { max_temp },
            (Phase::Sweeping, Event::TableUnavailable) => Phase::Resting,
            (Phase::Telling { .. }, Event::Written) => Phase::Listening,
            (Phase::Telling { .. }, Event::WriteFailed) => Phase::Connecting { greeted: true },
            (Phase::Listening, Event::ReadOk) => Phase::Resting,
            (Phase::Listening, Event::ReadFailed) => Phase::Connecting { greeted: true },
            _ => self,
        }
    }
}

/// The phase after a run of events.
pub open spec fn run(phase: Phase, events: Seq<Event>) -> Phase
    decreases events.len(),
{
    if events.len() == 0 {
        phase
    } else {
        phase_after(run(phase, events.drop_last()), events.last())
    }
}

/// The loop holds a connection to the controller in this phase.
pub open spec fn has_connection(phase: Phase) -> bool {
    !(phase is Connecting) && !(phase is Retrying)
}

/// Without a usable configuration the monitor logs at `Info`.
pub proof fn fallback_logs_at_info(config: Configuration)
    requires
        config.is_fallback(),
    ensures
        config.valid(),
        level::resolved_level(config.log_level@) == level::LevelFilter::Info,
{
    level::lemma_info_is_a_level();
}

/// The loop is past the message that the controller sends on connection.
pub open spec fn past_greeting(phase: Phase) -> bool {
    match phase {
        Phase::Connecting { greeted } => greeted,
        Phase::Retrying { greeted } => greeted,
        Phase::Greeting => false,
        _ => true,
    }
}

/// The controller's first message is waited for once: after a reconnection the
/// loop goes straight on with its rounds.
pub proof fn greeting_is_read_once(phase: Phase, events: Seq<Event>)
    requires
        past_greeting(phase),
    ensures
        past_greeting(run(phase, events)),
        run(phase, events) !is Greeting,
    decreases events.len(),
{
    if events.len() > 0 {
        greeting_is_read_once(phase, events.drop_last());
    }
}

/// A failed read or write makes the loop connect again.
pub proof fn failure_reconnects(phase: Phase, event: Event)
    requires
        action_in(phase) is Read && event is ReadFailed || action_in(phase) is Write
            && event is WriteFailed,
    ensures
        action_in(phase_after(phase, event)) is Connect,
        !has_connection(phase_after(phase, event)),
{
}

/// Without a connection, nothing is read from or written to the controller until
/// one has been made again, and a phase that holds one holds it since then.
pub proof fn connection_comes_first(phase: Phase, events: Seq<Event>)
    requires
        !has_connection(phase),
        has_connection(run(phase, events)),
    ensures
        exists|i: int|
            0 <= i < events.len() && #[trigger] connected_at(phase, events, i) && connected_between(
                phase,
                events,
                i,
                events.len() as int,
            ),
    decreases events.len(),
{
    let rest = events.drop_last();
    let last = events.len() - 1;
    assert(events.take(events.len() as int) =~= events);
    assert(rest.take(last) =~= rest);
    assert forall|k: int| 0 <= k <= last implies #[trigger] events.take(k) == rest.take(k) by {
        assert(events.take(k) =~= rest.take(k));
    }
    if has_connection(run(phase, rest)) {
        connection_comes_first(phase, rest);
        let i = choose|i: int|
            0 <= i < rest.len() && #[trigger] connected_at(phase, rest, i) && connected_between(
                phase,
                rest,
                i,
                rest.len() as int,
            );
        assert(connected_at(phase, events, i));
        assert forall|k: int| i < k <= events.len() implies has_connection(
            run(phase, #[trigger] events.take(k)),
        ) by {
            if k <= last {
                assert(has_connection(run(phase, rest.take(k))));
            }
        }
    } else {
        assert(connected_at(phase, events, last));
        assert(connected_between(phase, events, last, events.len() as int));
    }
}

/// The loop had no connection and event `i` brought one.
pub open spec fn connected_at(phase: Phase, events: Seq<Event>, i: int) -> bool {
    &&& events[i] is Connected
    &&& !has_connection(run(phase, events.take(i)))
}

/// After event `i`, and until event `j`, the loop holds a connection.
pub open spec fn connected_between(phase: Phase, events: Seq<Event>, i: int, j: int) -> bool {
    forall|k: int| i < k <= j ==> has_connection(run(phase, #[trigger] events.take(k)))
}

/// A temperature is written only right after the sweep that found it, which came
/// right after a full rest: from the rest on the loop did nothing but sweep, and
/// from the sweep on nothing but write.
pub proof fn write_follows_rest_and_sweep(phase: Phase, events: Seq<Event>, max_temp: u8)
    requires
        !(phase is Sweeping),
        !(phase is Telling),
        run(phase, events) == (Phase::Telling { max_temp }),
    ensures
        exists|i: int, j: int|
            0 <= i < j < events.len() && #[trigger] rested_at(phase, events, i)
                && #[trigger] events[j] == Event::Swept(max_temp) && sweeps_between(
                phase,
                events,
                i,
                j,
            ) && tells_between(phase, events, j, events.len() as int, max_temp),
    decreases events.len(),
{
    let rest = events.drop_last();
    let last = events.len() - 1;
    assert(events.take(events.len() as int) =~= events);
    assert(rest.take(last) =~= rest);
    assert forall|k: int| 0 <= k <= last implies #[trigger] events.take(k) == rest.take(k) by {
        assert(events.take(k) =~= rest.take(k));
    }
    if run(phase, rest) is Telling {
        write_follows_rest_and_sweep(phase, rest, max_temp);
        let (i, j) = choose|i: int, j: int|
            0 <= i < j < rest.len() && #[trigger] rested_at(phase, rest, i)
                && #[trigger] rest[j] == Event::Swept(max_temp) && sweeps_between(
                phase,
                rest,
                i,
                j,
            ) && tells_between(phase, rest, j, rest.len() as int, max_temp);
        assert(rested_at(phase, events, i));
        assert(events[j] == Event::Swept(max_temp));
        assert forall|k: int| i < k <= j implies run(
            phase,
            #[trigger] events.take(k),
        ) is Sweeping by {
            assert(run(phase, rest.take(k)) is Sweeping);
        }
        assert forall|k: int| j < k <= events.len() implies run(phase, #[trigger] events.take(k))
            == (Phase::Telling { max_temp }) by {
            if k <= last {
                assert(run(phase, rest.take(k)) == (Phase::Telling { max_temp }));
            }
        }
    } else {
        sweep_follows_rest(phase, rest);
        let i = choose|i: int|
            0 <= i < rest.len() && #[trigger] rested_at(phase, rest, i) && sweeps_between(
                phase,
                rest,
                i,
                rest.len() as int,
            );
        assert(rested_at(phase, events, i));
        assert(events[last] == Event::Swept(max_temp));
        assert forall|k: int| i < k <= last implies run(
            phase,
            #[trigger] events.take(k),
        ) is Sweeping by {
            assert(run(phase, rest.take(k)) is Sweeping);
        }
        assert(tells_between(phase, events, last, events.len() as int, max_temp));
    }
}

/// The wait between rounds ended with event `i`.
pub open spec fn rested_at(phase: Phase, events: Seq<Event>, i: int) -> bool {
    &&& events[i] is Slept
    &&& run(phase, events.take(i)) == Phase::Resting
    &&& action_in(run(phase, events.take(i))) == Action::Sleep(ROUND_SECS)
}

/// After event `i`, and until event `j`, the loop is sweeping.
pub open spec fn sweeps_between(phase: Phase, events: Seq<Event>, i: int, j: int) -> bool {
    forall|k: int| i < k <= j ==> run(phase, #[trigger] events.take(k)) is Sweeping
}

/// After event `i`, and until event `j`, the loop is writing `max_temp`.
pub open spec fn tells_between(
    phase: Phase,
    events: Seq<Event>,
    i: int,
    j: int,
    max_temp: u8,
) -> bool {
    forall|k: int|
        i < k <= j ==> run(phase, #[trigger] events.take(k)) == (Phase::Telling { max_temp })
}

/// The table is swept only right after a full rest: from the rest on the loop did
/// nothing but sweep.
pub proof fn sweep_follows_rest(phase: Phase, events: Seq<Event>)
    requires
        !(phase is Sweeping),
        run(phase, events) is Sweeping,
    ensures
        exists|i: int|
            0 <= i < events.len() && #[trigger] rested_at(phase, events, i) && sweeps_between(
                phase,
                events,
                i,
                events.len() as int,
            ),
    decreases events.len(),
{
    let rest = events.drop_last();
    let last = events.len() - 1;
    assert(events.take(events.len() as int) =~= events);
    assert(rest.take(last) =~= rest);
    assert forall|k: int| 0 <= k <= last implies #[trigger] events.take(k) == rest.take(k) by {
        assert(events.take(k) =~= rest.take(k));
    }
    if run(phase, rest) is Sweeping {
        sweep_follows_rest(phase, rest);
        let i = choose|i: int|
            0 <= i < rest.len() && #[trigger] rested_at(phase, rest, i) && sweeps_between(
                phase,
                rest,
                i,
                rest.len() as int,
            );
        assert(rested_at(phase, events, i));
        assert forall|k: int| i < k <= events.len() implies run(
            phase,
            #[trigger] events.take(k),
        ) is Sweeping by {
            if k <= last {
                assert(run(phase, rest.take(k)) is Sweeping);
            }
        }
    } else {
        assert(rested_at(phase, events, last));
        assert(sweeps_between(phase, events, last, events.len() as int));
    }
}

/// The events of `n` failed attempts to connect, each followed by its wait.
pub open spec fn failed_attempts(n: nat) -> Seq<Event>
    decreases n,
{
    if n == 0 {
        Seq::empty()
    } else {
        failed_attempts((n - 1) as nat).push(Event::ConnectFailed).push(Event::Slept)
    }
}

/// However many attempts fail, the loop keeps trying, waiting between attempts,
/// and goes on where it left off once the controller can be connected.
pub proof fn loop_resumes_on_connection(greeted: bool, n: nat)
    ensures
        run(Phase::Connecting { greeted }, failed_attempts(n)) == (Phase::Connecting { greeted }),
        run(Phase::Connecting { greeted }, failed_attempts(n).push(Event::ConnectFailed)) == (
        Phase::Retrying { greeted }),
        action_in(Phase::Retrying { greeted }) == Action::Sleep(RETRY_SECS),
        run(Phase::Connecting { greeted }, failed_attempts(n).push(Event::Connected)) == (
        if greeted {
            Phase::Resting
        } else {
            Phase::Greeting
        }),
    decreases n,
{
    let start = Phase::Connecting { greeted };
    if n > 0 {
        loop_resumes_on_connection(greeted, (n - 1) as nat);
        let failed = failed_attempts((n - 1) as nat).push(Event::ConnectFailed);
        assert(failed_attempts(n).drop_last() =~= failed);
    }
    assert(failed_attempts(n).push(Event::ConnectFailed).drop_last() =~= failed_attempts(n));
    assert(failed_attempts(n).push(Event::Connected).drop_last() =~= failed_attempts(n));
}

/// A report counts for the fan from its receipt on, and a host that then falls
/// silent is dropped once more than three minutes have passed: `max_temp` is
/// what a sweep at `now` finds after a report that was received at `received`.
pub proof fn report_counts_until_silence(
    m: Map<Seq<char>, Reading>,
    host: Seq<char>,
    temp: u8,
    received: int,
    now: int,
    max_temp: u8,
)
    requires
        0 <= received <= now,
        received < 9_223_372_036_854_775_808_000_000_000,
        table::is_hottest(
            table::online(
                m.insert(host, Reading { temp, time: clock::receipt_at(received) as u64 }),
                now,
            ),
            max_temp,
        ),
    ensures
        now - received <= 179_000_000_000 ==> temp <= max_temp,
        now - received > 180_000_000_000 ==> !table::online(
            m.insert(host, Reading { temp, time: clock::receipt_at(received) as u64 }),
            now,
        ).contains_key(host),
{
    let reading = Reading { temp, time: clock::receipt_at(received) as u64 };
    clock::online_after_receipt(received, now);
    clock::online_means_heard_within_three_minutes(reading.time as int, now);
    if clock::active_at(reading.time as int, now) {
        table::hottest_covers_online_host(m, host, reading, now, max_temp);
    }
}

/// The controller can tell every temperature from what is written to it.
pub proof fn fan_payload_tells_temperature(s: u8, t: u8)
    requires
        text::decimal(s as nat) == text::decimal(t as nat),
    ensures
        s == t,
{
    text::decimal_reads_back(s as nat);
    text::decimal_reads_back(t as nat);
}

/// A configuration can be used exactly if its log level is one of the six names,
/// in whatever case, and nothing else of it matters.
pub proof fn configuration_is_valid_by_its_level(config: Configuration)
    ensures
        ({
            let name = text::ascii_lowercase(config.log_level@);
            config.valid() <==> name == "off"@ || name == "error"@ || name == "warn"@ || name
                == "info"@ || name == "debug"@ || name == "trace"@
        }),
{
    level::levels_have_their_names(config.log_level@);
}

/// The configuration that stands in for one that cannot be used is this one.
pub proof fn fallback_is_the_default(config: Configuration)
    ensures
        config.is_fallback() <==> {
            &&& config.usb_vendor_id == 65535
            &&& config.usb_product_id == 65535
            &&& config.port == 5555
            &&& config.target_temp == 45
            &&& config.log_level@ == "info"@
        },
{
}

/// The temperature that is written to the controller is the one that the sweep
/// before it found, whatever it is.
pub proof fn swept_temperature_is_written(t: u8)
    ensures
        action_in(phase_after(Phase::Sweeping, Event::Swept(t))) == Action::Write(t),
        forall|phase: Phase|
            action_in(phase) == Action::Write(t) <==> phase == (Phase::Telling { max_temp: t }),
{
}

/// A round of the loop: it waits fifteen seconds, sweeps the table, writes the
/// temperature found, reads the answer, and is where it was.
pub proof fn round_goes_full_circle(t: u8)
    ensures
        ({
            let e1 = seq![Event::Slept];
            let e2 = seq![Event::Slept, Event::Swept(t)];
            let e3 = seq![Event::Slept, Event::Swept(t), Event::Written];
            let e4 = seq![Event::Slept, Event::Swept(t), Event::Written, Event::ReadOk];
            &&& action_in(Phase::Resting) == Action::Sleep(15)
            &&& action_in(run(Phase::Resting, e1)) == Action::Sweep
            &&& action_in(run(Phase::Resting, e2)) == Action::Write(t)
            &&& action_in(run(Phase::Resting, e3)) == Action::Read
            &&& run(Phase::Resting, e4) == Phase::Resting
        }),
{
    reveal_with_fuel(run, 5);
    let e1 = seq![Event::Slept];
    let e2 = seq![Event::Slept, Event::Swept(t)];
    let e3 = seq![Event::Slept, Event::Swept(t), Event::Written];
    let e4 = seq![Event::Slept, Event::Swept(t), Event::Written, Event::ReadOk];
    assert(e1.drop_last() =~= seq![]);
    assert(e2.drop_last() =~= e1);
    assert(e3.drop_last() =~= e2);
    assert(e4.drop_last() =~= e3);
}

/// Rounds follow one another for ever: any number of them leaves the loop where
/// it was, whatever temperatures they found.
pub proof fn rounds_repeat(temps: Seq<u8>)
    ensures
        run(Phase::Resting, rounds(temps)) == Phase::Resting,
        forall|t: u8|
            action_in(
                #[trigger] run(Phase::Resting, rounds(temps).push(Event::Slept).push(Event::Swept(t))),
            ) == Action::Write(t),
    decreases temps.len(),
{
    let all = rounds(temps);
    if temps.len() > 0 {
        rounds_repeat(temps.drop_last());
        let before = rounds(temps.drop_last());
        let b1 = before.push(Event::Slept);
        let b2 = b1.push(Event::Swept(temps.last()));
        let b3 = b2.push(Event::Written);
        assert(b1.drop_last() =~= before);
        assert(run(Phase::Resting, b1) == Phase::Sweeping);
        assert(b2.drop_last() =~= b1);
        assert(run(Phase::Resting, b2) is Telling);
        assert(b3.drop_last() =~= b2);
        assert(run(Phase::Resting, b3) == Phase::Listening);
        assert(all.drop_last() =~= b3);
    }
    assert(run(Phase::Resting, all) == Phase::Resting);
    let slept = all.push(Event::Slept);
    assert(slept.drop_last() =~= all);
    assert(run(Phase::Resting, slept) == Phase::Sweeping);
    assert forall|t: u8|
        action_in(#[trigger] run(Phase::Resting, slept.push(Event::Swept(t)))) == Action::Write(
            t,
        ) by {
        assert(slept.push(Event::Swept(t)).drop_last() =~= slept);
    }
}

/// The events of undisturbed rounds that find these temperatures.
pub open spec fn rounds(temps: Seq<u8>) -> Seq<Event>
    decreases temps.len(),
{
    if temps.len() == 0 {
        Seq::empty()
    } else {
        rounds(temps.drop_last()).push(Event::Slept).push(Event::Swept(temps.last())).push(
            Event::Written,
        ).push(Event::ReadOk)
    }
}

/// The loop starts by connecting; the first connection's message is read, and
/// whether that works or not the rounds begin, after another connection if not.
pub proof fn loop_starts_by_connecting()
    ensures
        action_in(initial_phase()) == Action::Connect,
        action_in(phase_after(initial_phase(), Event::Connected)) == Action::Read,
        phase_after(phase_after(initial_phase(), Event::Connected), Event::ReadOk)
            == Phase::Resting,
        action_in(
            phase_after(phase_after(initial_phase(), Event::Connected), Event::ReadFailed),
        ) == Action::Connect,
{
}

/// After any failed read or write the loop connects, every five seconds until it
/// can, and then begins its next round.
pub proof fn loop_recovers_from_failure(phase: Phase, n: nat)
    requires
        action_in(phase) is Read || action_in(phase) is Write,
    ensures
        ({
            let lost = if action_in(phase) is Read {
                phase_after(phase, Event::ReadFailed)
            } else {
                phase_after(phase, Event::WriteFailed)
            };
            let waiting = run(lost, failed_attempts(n).push(Event::ConnectFailed));
            &&& action_in(lost) == Action::Connect
            &&& action_in(waiting) == Action::Sleep(5)
            &&& action_in(phase_after(waiting, Event::Slept)) == Action::Connect
            &&& run(lost, failed_attempts(n).push(Event::Connected)) == Phase::Resting
        }),
{
    loop_resumes_on_connection(true, n);
}

/// Without the table there is nothing to tell: the loop waits for its next round.
pub proof fn round_without_table_is_skipped()
    ensures
        phase_after(Phase::Sweeping, Event::TableUnavailable) == Phase::Resting,
        action_in(phase_after(Phase::Sweeping, Event::TableUnavailable)) == Action::Sleep(15),
{
}

/// `event` is something that can come of `action`.
pub open spec fn answers(event: Event, action: Action) -> bool {
    match action {
        Action::Connect => event is Connected || event is ConnectFailed,
        Action::Sleep(_) => event is Slept,
        Action::Read => event is ReadOk || event is ReadFailed,
        Action::Sweep => event is Swept || event is TableUnavailable,
        Action::Write(_) => event is Written || event is WriteFailed,
    }
}

/// The loop moves on exactly on what can come of what it is doing.
pub proof fn loop_moves_on_answers_alone(phase: Phase, event: Event)
    ensures
        phase_after(phase, event) != phase <==> answers(event, action_in(phase)),
{
}

/// A temperature that was written is followed by a read, and that by a rest.
pub proof fn write_is_followed_by_read(t: u8)
    ensures
        action_in(phase_after(Phase::Telling { max_temp: t }, Event::Written)) == Action::Read,
        phase_after(phase_after(Phase::Telling { max_temp: t }, Event::Written), Event::ReadOk)
            == Phase::Resting,
{
}

/// What is written to the controller is the temperature in decimal digits, which
/// reads back as the temperature.
pub proof fn fan_payload_reads_back(t: u8)
    ensures
        text::decimal_value(text::decimal(t as nat)) == t,
        1 <= text::decimal(t as nat).len() <= 3,
        forall|i: int|
            0 <= i < text::decimal(t as nat).len() ==> '0' <= #[trigger] text::decimal(t as nat)[i]
                && text::decimal(t as nat)[i] <= '9',
{
    text::decimal_reads_back(t as nat);
    text::decimal_is_digits(t as nat);
    reveal_with_fuel(text::decimal, 3);
}

/// The statuses of a report that was taken and of one that was refused, and that
/// the one is success to a client and the other not, whatever follows the number.
pub proof fn reply_tells_client_whether_taken(rest: Seq<char>)
    ensures
        STATUS_OK == 200,
        STATUS_INTERNAL_SERVER_ERROR == 500,
        client::is_success("HTTP/1.1 "@ + text::decimal(STATUS_OK as nat) + rest),
        !client::is_success(
            "HTTP/1.1 "@ + text::decimal(STATUS_INTERNAL_SERVER_ERROR as nat) + rest,
        ),
{
    client::only_ok_is_success(200, rest);
    client::only_ok_is_success(500, rest);
}

} // verus!
