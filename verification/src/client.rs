//! The client: its configuration, what it reports, and the HTTP exchange that
//! carries a report to the monitor.

use vstd::prelude::*;

use crate::host::HostTemp;
use crate::level;
use crate::text;

verus! {

/// The client's configuration.
#[derive(Debug)]
pub struct Configuration {
    pub monitor_host: String,
    pub monitor_port: u16,
    /// Seconds between two reports.
    pub report_freq: u64,
    pub log_level: String,
}

impl Configuration {
    /// The configuration can be used: its log level is the name of one.
    pub open spec fn valid(self) -> bool {
        level::named_level(self.log_level@) is Some
    }

    /// The configuration that stands in for one that cannot be used.
    pub open spec fn is_fallback(self) -> bool {
        &&& self.monitor_host@ == "localhost"@
        &&& self.monitor_port == 5555
        &&& self.report_freq == 30
        &&& self.log_level@ == "info"@
    }

    /// Whether the configuration can be used.
    pub fn is_valid(&self) -> (r: bool)
        ensures
            r == self.valid(),
    {
        level::is_level_name(self.log_level.as_str())
    }

    /// The configuration to run with, given the one that was read, if one could
    /// be: that one if it can be used, else the default.
    pub fn or_default(read: Option<Configuration>) -> (r: Configuration)
        ensures
            r.valid(),
            match read {
                Some(config) => if config.valid() {
                    r == config
                } else {
                    r.is_fallback()
                },
                None => r.is_fallback(),
            },
    {
        proof {
            level::lemma_info_is_a_level();
        }
        match read {
            Some(config) => if config.is_valid() {
                config
            } else {
                Configuration::default()
            },
            None => Configuration::default(),
        }
    }

    /// The monitor's address, `host:port`.
    pub fn monitor_address(&self) -> (r: String)
        ensures
            r@ == address_text(self.monitor_host@, self.monitor_port as nat),
    {
        let mut r: String = self.monitor_host.clone();
        r.append(":");
        text::push_decimal(&mut r, self.monitor_port as u64);
        r
    }
}

impl Default for Configuration {
    fn default() -> (r: Configuration)
        ensures
            r.is_fallback(),
    {
        Configuration {
            monitor_host: String::from_str("localhost"),
            monitor_port: 5555,
            report_freq: 30,
            log_level: String::from_str("info"),
        }
    }
}

/// A host and a port, written `host:port`.
pub open spec fn address_text(host: Seq<char>, port: nat) -> Seq<char> {
    host + ":"@ + text::decimal(port)
}

/// The request line and the headers of a report, with the blank line that ends
/// them. `length` is the size of the body in bytes.
pub open spec fn request_head(host: Seq<char>, port: nat, length: nat) -> Seq<char> {
    "POST /temp HTTP/1.1\r\n"@ + ("Host: "@ + address_text(host, port) + "\r\n"@)
        + "Content-Type: application/json\r\n"@ + ("Content-Length: "@ + text::decimal(length)
        + "\r\n"@) + "Connection: close\r\n"@ + "\r\n"@
}

/// The HTTP request that carries `body` to the monitor.
pub open spec fn request_text(host: Seq<char>, port: nat, body: Seq<char>) -> Seq<char> {
    request_head(host, port, vstd::utf8::encode_utf8(body).len()) + body
}

/// Builds the raw HTTP/1.1 request sent to the monitor's `/temp` endpoint.
pub fn build_http_request(host: &str, port: u16, body: &str) -> (r: String)
    ensures
        r@ == request_text(host@, port as nat, body@),
{
    let length: usize = body.as_bytes().len();
    let mut r: String = String::from_str("POST /temp HTTP/1.1\r\n");
    r.append("Host: ");
    r.append(host);
    r.append(":");
    text::push_decimal(&mut r, port as u64);
    r.append("\r\n");
    r.append("Content-Type: application/json\r\n");
    r.append("Content-Length: ");
    text::push_decimal(&mut r, length as u64);
    r.append("\r\n");
    r.append("Connection: close\r\n");
    r.append("\r\n");
    r.append(body);
    assert(r@ =~= request_text(host@, port as nat, body@));
    r
}

/// A status line says that the monitor took the report.
pub open spec fn is_success(status_line: Seq<char>) -> bool {
    "HTTP/1.1 200"@.is_prefix_of(status_line)
}

/// Whether a response status line indicates the monitor accepted the report.
pub fn is_success_status(status_line: &str) -> (r: bool)
    ensures
        r == is_success(status_line@),
{
    text::starts_with(status_line, "HTTP/1.1 200")
}

/// `whole_degrees` held to the range of a reported temperature.
pub open spec fn saturated(whole_degrees: int) -> u8 {
    if whole_degrees < 0 {
        0
    } else if whole_degrees > 255 {
        255
    } else {
        whole_degrees as u8
    }
}

/// Brings a reading in whole degrees into the range of a reported temperature,
/// saturating rather than wrapping: a negative reading gives 0, not 255.
pub fn saturate_temp(whole_degrees: i32) -> (r: u8)
    ensures
        r == saturated(whole_degrees as int),
{
    if whole_degrees < 0 {
        0
    } else if whole_degrees > 255 {
        255
    } else {
        whole_degrees as u8
    }
}

/// A sensor with this label measures the CPU's temperature: "cpu" stands in it,
/// in capital or small letters.
pub open spec fn cpu_label(label: Seq<char>) -> bool {
    text::occurs_in(text::lowercase(label), "cpu"@)
}

/// Whether a label that is already in lower case mentions the CPU.
pub fn mentions_cpu(lowered: &str) -> (r: bool)
    ensures
        r == text::occurs_in(lowered@, "cpu"@),
{
    text::contains(lowered, "cpu")
}

/// Whether a sensor with this label measures the CPU's temperature.
pub fn is_cpu_label(label: &str) -> (r: bool)
    ensures
        r == cpu_label(label@),
        vstd::utf8::is_ascii_chars(label@) ==> r == text::occurs_in(
            text::ascii_lowercase(label@),
            "cpu"@,
        ),
{
    let lowered: String = text::to_lowercase(label);
    mentions_cpu(lowered.as_str())
}

/// The temperature to report for a sensor, if any: every CPU sensor that gives a
/// reading is reported. `whole_degrees` is the reading rounded to whole degrees.
pub fn reportable_temp(label: &str, whole_degrees: Option<i32>) -> (r: Option<u8>)
    ensures
        r == (match whole_degrees {
            Some(degrees) => if cpu_label(label@) {
                Some(saturated(degrees as int))
            } else {
                None
            },
            None => None,
        }),
        vstd::utf8::is_ascii_chars(label@) && whole_degrees is Some ==> (r is Some
            <==> text::occurs_in(text::ascii_lowercase(label@), "cpu"@)),
{
    if !is_cpu_label(label) {
        return None;
    }
    match whole_degrees {
        Some(degrees) => Some(saturate_temp(degrees)),
        None => None,
    }
}

/// The report to send for a sensor, if any: under the host's name, the
/// temperature to report for the sensor and the time in seconds after the epoch.
pub fn sensor_report(host: &str, label: &str, whole_degrees: Option<i32>, seconds: u64) -> (r:
    Option<HostTemp>)
    ensures
        match whole_degrees {
            Some(degrees) => if cpu_label(label@) {
                &&& r matches Some(report)
                &&& report.host@ == host@
                &&& report.temp == saturated(degrees as int)
                &&& report.time == seconds
            } else {
                r is None
            },
            None => r is None,
        },
        vstd::utf8::is_ascii_chars(label@) && whole_degrees is Some ==> (r is Some
            <==> text::occurs_in(text::ascii_lowercase(label@), "cpu"@)),
{
    match reportable_temp(label, whole_degrees) {
        Some(temp) => Some(HostTemp { host: String::from_str(host), temp, time: seconds }),
        None => None,
    }
}

/// A step of sending a report.
#[derive(Debug, Clone, Copy, PartialEq, Eq, Structural)]
pub enum ReportStep {
    /// Connect to the monitor.
    Connect,
    /// Write the report as JSON.
    Serialize,
    /// Send the request.
    Send,
    /// Read the status line of the response, so that the connection isn't torn
    /// down before the monitor has written it.
    ReadStatus,
}

/// What came of sending a report.
#[derive(Debug, Clone, Copy, PartialEq, Eq, Structural)]
pub enum ReportOutcome {
    /// The monitor took the report.
    Accepted,
    /// The monitor answered, but did not take the report.
    Rejected,
    /// The step failed.
    Failed(ReportStep),
}

/// Where sending a report stands after a step.
#[derive(Debug, Clone, Copy, PartialEq, Eq, Structural)]
pub enum ReportProgress {
    /// This step comes next.
    Next(ReportStep),
    /// The report is done with.
    Finished(ReportOutcome),
}

/// What follows a step that went well or not.
pub open spec fn report_progress(
    step: ReportStep,
    ok: bool,
    status_line: Seq<char>,
) -> ReportProgress {
    if !ok {
        ReportProgress::Finished(ReportOutcome::Failed(step))
    } else {
        match step {
            ReportStep::Connect => ReportProgress::Next(ReportStep::Serialize),
            ReportStep::Serialize => ReportProgress::Next(ReportStep::Send),
            ReportStep::Send => ReportProgress::Next(ReportStep::ReadStatus),
            ReportStep::ReadStatus => ReportProgress::Finished(
                if is_success(status_line) {
                    ReportOutcome::Accepted
                } else {
                    ReportOutcome::Rejected
                },
            ),
        }
    }
}

/// Decides what follows `step`. `ok` tells whether the step went well;
/// `status_line` is what `ReadStatus` read and counts at no other step.
pub fn next_report_step(step: ReportStep, ok: bool, status_line: &str) -> (r: ReportProgress)
    ensures
        r == report_progress(step, ok, status_line@),
{
    if !ok {
        return ReportProgress::Finished(ReportOutcome::Failed(step));
    }
    match step {
        ReportStep::Connect => ReportProgress::Next(ReportStep::Serialize),
        ReportStep::Serialize => ReportProgress::Next(ReportStep::Send),
        ReportStep::Send => ReportProgress::Next(ReportStep::ReadStatus),
        ReportStep::ReadStatus => if is_success_status(status_line) {
            ReportProgress::Finished(ReportOutcome::Accepted)
        } else {
            ReportProgress::Finished(ReportOutcome::Rejected)
        },
    }
}

/// Where sending a report stands after steps with these results, each whether
/// it went well and what was read.
pub open spec fn report_run(step: ReportStep, results: Seq<(bool, Seq<char>)>) -> ReportProgress
    decreases results.len(),
{
    if results.len() == 0 {
        ReportProgress::Next(step)
    } else {
        match report_progress(step, results.first().0, results.first().1) {
            ReportProgress::Next(next) => report_run(next, results.drop_first()),
            p => p,
        }
    }
}

/// A report is accepted exactly if the client connected, wrote the report as
/// JSON, sent it, and read back a status line that says so.
pub proof fn accepted_means_every_step_went_well(results: Seq<(bool, Seq<char>)>)
    requires
        results.len() == 4,
    ensures
        report_run(ReportStep::Connect, results) == ReportProgress::Finished(
            ReportOutcome::Accepted,
        ) <==> results[0].0 && results[1].0 && results[2].0 && results[3].0 && is_success(
            results[3].1,
        ),
        report_run(ReportStep::Connect, results) is Finished,
{
    reveal_with_fuel(report_run, 5);
    let r1 = results.drop_first();
    let r2 = r1.drop_first();
    let r3 = r2.drop_first();
    assert(r1.first() == results[1]);
    assert(r2.first() == results[2]);
    assert(r3.first() == results[3]);
}

/// A request that was sent is not done with until its response has been read.
pub proof fn response_is_read_after_send(status_line: Seq<char>)
    ensures
        report_progress(ReportStep::Send, true, status_line) == ReportProgress::Next(
            ReportStep::ReadStatus,
        ),
{
}

/// Of all three-digit statuses, 200 alone says that the report was taken, with
/// whatever follows the number on the line.
pub proof fn only_ok_is_success(status: nat, rest: Seq<char>)
    requires
        100 <= status <= 999,
    ensures
        is_success("HTTP/1.1 "@ + text::decimal(status) + rest) <==> status == 200,
{
    reveal_with_fuel(text::decimal, 3);
    reveal_strlit("HTTP/1.1 ");
    reveal_strlit("HTTP/1.1 200");
    let line = "HTTP/1.1 "@ + text::decimal(status) + rest;
    let digits = seq![
        text::digit(status / 100),
        text::digit(status / 10 % 10),
        text::digit(status % 10),
    ];
    assert(status / 10 / 10 == status / 100);
    assert(text::decimal(status) =~= digits);
    let start = line.subrange(0, 12);
    assert(start =~= "HTTP/1.1 "@ + digits);
    if status == 200 {
        assert(start =~= "HTTP/1.1 200"@);
    } else if start == "HTTP/1.1 200"@ {
        assert(start[9] == digits[0] && start[10] == digits[1] && start[11] == digits[2]);
        assert(digits[0] == '2' && digits[1] == '0' && digits[2] == '0');
        assert(text::digit(status / 100) as int == 48 + status / 100);
        assert(text::digit(status / 10 % 10) as int == 48 + status / 10 % 10);
        assert(text::digit(status % 10) as int == 48 + status % 10);
    }
}

/// Without a usable configuration the client logs at `Info`.
pub proof fn fallback_logs_at_info(config: Configuration)
    requires
        config.is_fallback(),
    ensures
        config.valid(),
        level::resolved_level(config.log_level@) == level::LevelFilter::Info,
{
    level::lemma_info_is_a_level();
}

/// `s` is empty or ends in CR LF, and no CR in it stands two places after
/// another, as it would around a blank line.
spec fn ends_line_without_blank(s: Seq<char>) -> bool {
    &&& s.len() > 0 ==> s.len() >= 2 && s[s.len() - 2] == '\r' && s[s.len() - 1] == '\n'
    &&& forall|i: int|
        0 <= i < s.len() - 2 && #[trigger] s[i] == '\r' ==> s[i + 2] != '\r'
}

proof fn lemma_line_added(s: Seq<char>, line: Seq<char>)
    requires
        ends_line_without_blank(s),
        line.len() > 0,
        forall|i: int| 0 <= i < line.len() ==> #[trigger] line[i] != '\r',
    ensures
        ends_line_without_blank(s + line + "\r\n"@),
{
    reveal_strlit("\r\n");
    let t = s + line + "\r\n"@;
    assert forall|i: int| 0 <= i < t.len() - 2 && #[trigger] t[i] == '\r' implies t[i + 2]
        != '\r' by {
        if i < s.len() {
            assert(t[i] == s[i]);
            if i < s.len() - 2 {
                assert(t[i + 2] == s[i + 2]);
            } else {
                assert(i == s.len() - 2);
                assert(t[i + 2] == line[0]);
            }
        } else {
            assert(t[i] == line[i - s.len()]);
        }
    }
}

/// A receiver finds the body: the head of a request ends at its first blank
/// line, what follows is the body, and the head gives its size in bytes. The
/// host is taken to hold no CR.
pub proof fn request_frames_body(host: Seq<char>, port: nat, body: Seq<char>)
    requires
        forall|i: int| 0 <= i < host.len() ==> #[trigger] host[i] != '\r',
    ensures
        ({
            let head = request_head(host, port, vstd::utf8::encode_utf8(body).len());
            let request = request_text(host, port, body);
            &&& head.len() >= 4
            &&& text::occurs_at(request, "\r\n\r\n"@, head.len() - 4)
            &&& forall|i: int|
                i < head.len() - 4 ==> !#[trigger] text::occurs_at(request, "\r\n\r\n"@, i)
            &&& request.subrange(head.len() as int, request.len() as int) == body
            &&& text::occurs_in(
                head,
                "Content-Length: "@ + text::decimal(vstd::utf8::encode_utf8(body).len())
                    + "\r\n"@,
            )
        }),
{
    reveal_strlit("\r\n");
    reveal_strlit("\r\n\r\n");
    reveal_strlit(":");
    reveal_strlit("POST /temp HTTP/1.1\r\n");
    reveal_strlit("Host: ");
    reveal_strlit("Content-Type: application/json\r\n");
    reveal_strlit("Content-Length: ");
    reveal_strlit("Connection: close\r\n");
    let length = vstd::utf8::encode_utf8(body).len();
    let crlf = "\r\n"@;
    let head = request_head(host, port, length);
    let request = request_text(host, port, body);
    text::decimal_is_digits(port);
    text::decimal_is_digits(length);
    let l1 = "POST /temp HTTP/1.1\r\n"@;
    let l1c = l1.subrange(0, l1.len() - 2);
    let l2 = "Host: "@ + address_text(host, port);
    let l3 = "Content-Type: application/json\r\n"@;
    let l3c = l3.subrange(0, l3.len() - 2);
    let l4 = "Content-Length: "@ + text::decimal(length);
    let l5 = "Connection: close\r\n"@;
    let l5c = l5.subrange(0, l5.len() - 2);
    let s0 = Seq::<char>::empty();
    let s1 = s0 + l1c + crlf;
    let s2 = s1 + l2 + crlf;
    let s3 = s2 + l3c + crlf;
    let s4 = s3 + l4 + crlf;
    let s5 = s4 + l5c + crlf;
    lemma_line_added(s0, l1c);
    assert forall|i: int| 0 <= i < l2.len() implies #[trigger] l2[i] != '\r' by {
        if 6 <= i < 6 + host.len() {
            assert(l2[i] == host[i - 6]);
        } else if i > 6 + host.len() {
            assert(l2[i] == text::decimal(port)[i - 7 - host.len()]);
        }
    }
    lemma_line_added(s1, l2);
    lemma_line_added(s2, l3c);
    assert forall|i: int| 0 <= i < l4.len() implies #[trigger] l4[i] != '\r' by {
        if i >= 16 {
            assert(l4[i] == text::decimal(length)[i - 16]);
        }
    }
    lemma_line_added(s3, l4);
    lemma_line_added(s4, l5c);
    assert(head =~= s5 + crlf);
    assert(request =~= head + body);
    assert(request.subrange(head.len() - 4, head.len() as int) =~= "\r\n\r\n"@);
    assert forall|i: int| i < head.len() - 4 implies !#[trigger] text::occurs_at(
        request,
        "\r\n\r\n"@,
        i,
    ) by {
        if text::occurs_at(request, "\r\n\r\n"@, i) {
            let w = request.subrange(i, i + 4);
            assert(w[0] == request[i] && w[2] == request[i + 2]);
            assert(request[i] == s5[i] && request[i + 2] == s5[i + 2]);
        }
    }
    assert(request.subrange(head.len() as int, request.len() as int) =~= body);
    let header = "Content-Length: "@ + text::decimal(length) + crlf;
    assert(header =~= l4 + crlf);
    let at = s3.len() as int;
    assert(head.subrange(at, at + header.len()) =~= header);
    assert(text::occurs_at(head, header, at));
}

/// A configuration can be used exactly if its log level is one of the six names,
/// in whatever case, and nothing else of it matters.
pub proof fn configuration_is_valid_by_its_level(config: Configuration)
    ensures
        ({
            let name = text::ascii_lowercase(config.log_level@);
            config.valid() <==> name == "off"@ || name == "error"@ || name == "warn"@ || name
                == "info"@ || name == "debug"@ || name == "trace"@
        }),
{
    level::levels_have_their_names(config.log_level@);
}

/// The configuration that stands in for one that cannot be used is this one.
pub proof fn fallback_is_the_default(config: Configuration)
    ensures
        config.is_fallback() <==> {
            &&& config.monitor_host@ == "localhost"@
            &&& config.monitor_port == 5555
            &&& config.report_freq == 30
            &&& config.log_level@ == "info"@
        },
{
}

/// A reading that a report can hold is reported as it is; a lower one as the
/// lowest that a report can hold and a higher one as the highest.
pub proof fn temperature_is_reported_as_read(whole_degrees: int)
    ensures
        0 <= whole_degrees <= 255 ==> saturated(whole_degrees) == whole_degrees,
        whole_degrees < 0 ==> saturated(whole_degrees) == 0,
        whole_degrees > 255 ==> saturated(whole_degrees) == 255,
{
}

/// A hotter CPU is never reported as cooler, and no reported temperature is
/// further from another than the readings are.
pub proof fn reported_temperatures_keep_order(a: int, b: int)
    requires
        a <= b,
    ensures
        0 <= saturated(b) - saturated(a) <= b - a,
{
}

/// A label is a CPU's exactly if, in lower case, it is something, then "cpu", then
/// something.
pub proof fn cpu_label_holds_cpu(label: Seq<char>)
    ensures
        cpu_label(label) <==> exists|before: Seq<char>, after: Seq<char>|
            text::lowercase(label) == #[trigger] (before + "cpu"@ + after),
{
    text::occurring_means_in_between(text::lowercase(label), "cpu"@);
}

/// The monitor's address is its host, a colon and its port in decimal.
pub proof fn address_gives_host_and_port(host: Seq<char>, port: nat)
    ensures
        ({
            let address = address_text(host, port);
            let n = host.len() as int;
            &&& address.len() > n + 1
            &&& address.subrange(0, n) == host
            &&& address[n] == ':'
            &&& text::decimal_value(address.subrange(n + 1, address.len() as int)) == port
            &&& address.subrange(n + 1, address.len() as int) == text::decimal(port)
        }),
{
    reveal_strlit(":");
    let address = address_text(host, port);
    let n = host.len() as int;
    text::decimal_reads_back(port);
    assert(address.subrange(0, n) =~= host);
    assert(address.subrange(n + 1, address.len() as int) =~= text::decimal(port));
}

/// Every request is a POST to `/temp`, and then line by line the host that it is
/// sent to, the type of its body, the body's size in bytes and that the
/// connection is closed after it; behind a blank line comes the body.
pub proof fn request_posts_the_body_to_temp(host: Seq<char>, port: nat, body: Seq<char>)
    ensures
        ({
            let request = request_text(host, port, body);
            let size = text::decimal(vstd::utf8::encode_utf8(body).len());
            let host_line = "Host: "@ + host + ":"@ + text::decimal(port) + "\r\n"@;
            let size_line = "Content-Length: "@ + size + "\r\n"@;
            let i1: int = 21;
            let i2 = i1 + host_line.len();
            let i3 = i2 + 32;
            let i4 = i3 + size_line.len();
            let i5 = i4 + 19;
            let i6 = i5 + 2;
            &&& request.len() == i6 + body.len()
            &&& request.subrange(0, i1) == "POST /temp HTTP/1.1\r\n"@
            &&& request.subrange(i1, i2) == host_line
            &&& request.subrange(i2, i3) == "Content-Type: application/json\r\n"@
            &&& request.subrange(i3, i4) == size_line
            &&& request.subrange(i4, i5) == "Connection: close\r\n"@
            &&& request.subrange(i5, i6) == "\r\n"@
            &&& request.subrange(i6, request.len() as int) == body
            &&& text::decimal_value(size) == vstd::utf8::encode_utf8(body).len()
        }),
{
    reveal_strlit("\r\n");
    reveal_strlit(":");
    reveal_strlit("POST /temp HTTP/1.1\r\n");
    reveal_strlit("Host: ");
    reveal_strlit("Content-Type: application/json\r\n");
    reveal_strlit("Content-Length: ");
    reveal_strlit("Connection: close\r\n");
    let request = request_text(host, port, body);
    let size = text::decimal(vstd::utf8::encode_utf8(body).len());
    let host_line = "Host: "@ + host + ":"@ + text::decimal(port) + "\r\n"@;
    let size_line = "Content-Length: "@ + size + "\r\n"@;
    let i1: int = 21;
    let i2 = i1 + host_line.len();
    let i3 = i2 + 32;
    let i4 = i3 + size_line.len();
    let i5 = i4 + 19;
    let i6 = i5 + 2;
    text::decimal_reads_back(vstd::utf8::encode_utf8(body).len());
    let lines = "POST /temp HTTP/1.1\r\n"@ + host_line + "Content-Type: application/json\r\n"@
        + size_line + "Connection: close\r\n"@ + "\r\n"@ + body;
    assert(request =~= lines);
    assert(request.subrange(0, i1) =~= "POST /temp HTTP/1.1\r\n"@);
    assert(request.subrange(i1, i2) =~= host_line);
    assert(request.subrange(i2, i3) =~= "Content-Type: application/json\r\n"@);
    assert(request.subrange(i3, i4) =~= size_line);
    assert(request.subrange(i4, i5) =~= "Connection: close\r\n"@);
    assert(request.subrange(i5, i6) =~= "\r\n"@);
    assert(request.subrange(i6, request.len() as int) =~= body);
}

/// A status line says that the report was taken exactly if it is "HTTP/1.1 200"
/// and then something.
pub proof fn success_begins_with_200(status_line: Seq<char>)
    ensures
        is_success(status_line) <==> exists|rest: Seq<char>|
            status_line == #[trigger] ("HTTP/1.1 200"@ + rest),
{
    reveal_strlit("HTTP/1.1 200");
    let start = "HTTP/1.1 200"@;
    if is_success(status_line) {
        let rest = status_line.subrange(12, status_line.len() as int);
        assert(status_line =~= start + rest) by {
            assert(status_line.subrange(0, 12) == start);
            assert forall|k: int| 0 <= k < 12 implies status_line[k] == start[k] by {
                assert(status_line.subrange(0, 12)[k] == status_line[k]);
            }
        }
    }
    if exists|rest: Seq<char>| status_line == #[trigger] (start + rest) {
        let rest = choose|rest: Seq<char>| status_line == #[trigger] (start + rest);
        assert(status_line.subrange(0, 12) =~= start);
    }
}

/// The steps of a report, in their order: the client connects, writes the report
/// as JSON, sends the request and reads the answer, which alone decides.
pub proof fn report_takes_its_steps(a: Seq<char>, b: Seq<char>, c: Seq<char>, line: Seq<char>)
    ensures
        report_run(ReportStep::Connect, seq![(true, a)]) == ReportProgress::Next(
            ReportStep::Serialize,
        ),
        report_run(ReportStep::Connect, seq![(true, a), (true, b)]) == ReportProgress::Next(
            ReportStep::Send,
        ),
        report_run(ReportStep::Connect, seq![(true, a), (true, b), (true, c)])
            == ReportProgress::Next(ReportStep::ReadStatus),
        report_run(ReportStep::Connect, seq![(true, a), (true, b), (true, c), (true, line)])
            == ReportProgress::Finished(
            if is_success(line) {
                ReportOutcome::Accepted
            } else {
                ReportOutcome::Rejected
            },
        ),
{
    reveal_with_fuel(report_run, 5);
    let s1: Seq<(bool, Seq<char>)> = seq![(true, a)];
    let s2: Seq<(bool, Seq<char>)> = seq![(true, a), (true, b)];
    let s3: Seq<(bool, Seq<char>)> = seq![(true, a), (true, b), (true, c)];
    let s4: Seq<(bool, Seq<char>)> = seq![(true, a), (true, b), (true, c), (true, line)];
    assert(s1.drop_first() =~= seq![]);
    assert(s2.drop_first() =~= seq![(true, b)]);
    assert(s2.drop_first().drop_first() =~= seq![]);
    assert(s3.drop_first() =~= seq![(true, b), (true, c)]);
    assert(s3.drop_first().drop_first() =~= seq![(true, c)]);
    assert(s3.drop_first().drop_first().drop_first() =~= seq![]);
    assert(s4.drop_first() =~= seq![(true, b), (true, c), (true, line)]);
    assert(s4.drop_first().drop_first() =~= seq![(true, c), (true, line)]);
    assert(s4.drop_first().drop_first().drop_first() =~= seq![(true, line)]);
}

/// Whatever step fails, the report ends there, and as failed at that step.
pub proof fn failed_step_ends_report(
    step: ReportStep,
    line: Seq<char>,
    rest: Seq<(bool, Seq<char>)>,
)
    ensures
        report_run(step, seq![(false, line)] + rest) == ReportProgress::Finished(
            ReportOutcome::Failed(step),
        ),
{
    assert((seq![(false, line)] + rest).first() == (false, line));
}

} // verus!
