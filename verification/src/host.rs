//! A host's temperature report.

use vstd::prelude::*;

use crate::text;

verus! {

/// What a host reports: its name, its temperature in whole degrees Celsius, and
/// the time in seconds after the Unix epoch.
#[derive(Debug)]
pub struct HostTemp {
    pub host: String,
    pub temp: u8,
    pub time: u64,
}

impl HostTemp {
    /// The text that `to_string` gives.
    pub open spec fn description(self) -> Seq<char> {
        "Host: "@ + self.host@ + " reports temp of "@ + text::decimal(self.temp as nat)
    }

    /// The report as a line of text.
    pub fn to_string(&self) -> (r: String)
        ensures
            r@ == self.description(),
    {
        let mut r: String = String::from_str("Host: ");
        r.append(self.host.as_str());
        r.append(" reports temp of ");
        text::push_decimal(&mut r, self.temp as u64);
        r
    }
}

/// The text of a report names its host and ends in its temperature.
pub proof fn description_names_host_and_temperature(report: HostTemp)
    ensures
        ({
            let text = report.description();
            let name_end: int = 6 + report.host@.len() as int;
            &&& text.len() > name_end + 17
            &&& text.subrange(0, 6) == "Host: "@
            &&& text.subrange(6, name_end) == report.host@
            &&& text.subrange(name_end, name_end + 17) == " reports temp of "@
            &&& text::decimal_value(text.subrange(name_end + 17, text.len() as int)) == report.temp
            &&& text.subrange(name_end + 17, text.len() as int) == text::decimal(
                report.temp as nat,
            )
        }),
{
    reveal_strlit("Host: ");
    reveal_strlit(" reports temp of ");
    let whole = report.description();
    let number = text::decimal(report.temp as nat);
    let name_end: int = 6 + report.host@.len() as int;
    text::decimal_reads_back(report.temp as nat);
    assert(whole.len() == name_end + 17 + number.len());
    assert(whole.subrange(0, 6) =~= "Host: "@);
    assert(whole.subrange(6, name_end) =~= report.host@);
    assert(whole.subrange(name_end, name_end + 17) =~= " reports temp of "@);
    assert(whole.subrange(name_end + 17, whole.len() as int) =~= number);
}

} // verus!
