//! The monitor's record of the hosts that report to it.

use vstd::prelude::*;

use crate::clock;
use crate::host::HostTemp;

verus! {

/// What is recorded of a host: its temperature and when it was heard from.
pub struct Reading {
    pub temp: u8,
    pub time: u64,
}

/// The reading that a report carries.
pub open spec fn reading_of(report: HostTemp) -> Reading {
    Reading { temp: report.temp, time: report.time }
}

/// The hosts that a list of reports is about, each with its last report's reading.
pub open spec fn recorded(reports: Seq<HostTemp>) -> Map<Seq<char>, Reading>
    decreases reports.len(),
{
    if reports.len() == 0 {
        Map::empty()
    } else {
        recorded(reports.drop_last()).insert(reports.last().host@, reading_of(reports.last()))
    }
}

/// No two reports are about the same host.
pub open spec fn distinct_hosts(reports: Seq<HostTemp>) -> bool {
    forall|i: int, j: int|
        0 <= i < j < reports.len() ==> #[trigger] reports[i].host@ != #[trigger] reports[j].host@
}

/// The hosts of `m` that are online at `now`.
pub open spec fn online(m: Map<Seq<char>, Reading>, now: int) -> Map<Seq<char>, Reading> {
    m.filter_keys(|h: Seq<char>| clock::active_at(m[h].time as int, now))
}

/// `t` is the highest temperature in `m`, or zero if `m` is empty.
pub open spec fn is_hottest(m: Map<Seq<char>, Reading>, t: u8) -> bool {
    &&& forall|h: Seq<char>| #[trigger] m.contains_key(h) ==> m[h].temp <= t
    &&& t == 0 || exists|h: Seq<char>| #[trigger] m.contains_key(h) && m[h].temp == t
}

/// `names` lists the hosts of `before` that `after` lacks, each once.
pub open spec fn lists_removed(
    names: Seq<String>,
    before: Map<Seq<char>, Reading>,
    after: Map<Seq<char>, Reading>,
) -> bool {
    &&& forall|i: int|
        0 <= i < names.len() ==> before.contains_key((#[trigger] names[i])@)
            && !after.contains_key(names[i]@)
    &&& forall|h: Seq<char>| #[trigger]
        before.contains_key(h) && !after.contains_key(h) ==> exists|i: int|
            0 <= i < names.len() && (#[trigger] names[i])@ == h
    &&& forall|i: int, j: int|
        0 <= i < j < names.len() ==> (#[trigger] names[i])@ != (#[trigger] names[j])@
}

/// What a sweep of the table found.
pub struct Sweep {
    /// The highest temperature of the hosts that are left, zero if none is.
    pub max_temp: u8,
    /// The names of the hosts that were dropped.
    pub removed: Vec<String>,
}

/// The hosts that reported, each with its last report.
pub struct HostTable {
    hosts: Vec<HostTemp>,
}

proof fn lemma_recorded(reports: Seq<HostTemp>)
    requires
        distinct_hosts(reports),
    ensures
        forall|i: int|
            #![trigger reports[i]]
            0 <= i < reports.len() ==> recorded(reports).contains_key(reports[i].host@)
                && recorded(reports)[reports[i].host@] == reading_of(reports[i]),
        forall|h: Seq<char>| #[trigger]
            recorded(reports).contains_key(h) ==> exists|i: int|
                0 <= i < reports.len() && (#[trigger] reports[i]).host@ == h,
        recorded(reports).dom().finite(),
        recorded(reports).len() == reports.len(),
    decreases reports.len(),
{
    if reports.len() > 0 {
        let rest = reports.drop_last();
        assert forall|i: int, j: int| 0 <= i < j < rest.len() implies #[trigger] rest[i].host@
            != #[trigger] rest[j].host@ by {
            assert(rest[i] == reports[i] && rest[j] == reports[j]);
        }
        lemma_recorded(rest);
        assert forall|i: int|
            #![trigger reports[i]]
            0 <= i < reports.len() implies recorded(reports).contains_key(reports[i].host@)
            && recorded(reports)[reports[i].host@] == reading_of(reports[i]) by {
            if i < rest.len() {
                assert(rest[i] == reports[i]);
                assert(reports[i].host@ != reports[reports.len() - 1].host@);
            }
        }
        assert forall|h: Seq<char>| #[trigger] recorded(reports).contains_key(h) implies exists|
            i: int,
        |
            0 <= i < reports.len() && (#[trigger] reports[i]).host@ == h by {
            if h == reports.last().host@ {
                assert(reports[reports.len() - 1].host@ == h);
            } else {
                let i = choose|i: int| 0 <= i < rest.len() && (#[trigger] rest[i]).host@ == h;
                assert(reports[i] == rest[i]);
            }
        }
        assert(!recorded(rest).contains_key(reports.last().host@)) by {
            if recorded(rest).contains_key(reports.last().host@) {
                let i = choose|i: int|
                    0 <= i < rest.len() && (#[trigger] rest[i]).host@ == reports.last().host@;
                assert(rest[i] == reports[i]);
                assert(reports[i].host@ != reports[reports.len() - 1].host@);
            }
        }
    }
}

/// Some report is about `h`.
spec fn listed(reports: Seq<HostTemp>, h: Seq<char>) -> bool {
    exists|k: int| 0 <= k < reports.len() && (#[trigger] reports[k]).host@ == h
}

/// `h` is one of `names`.
spec fn named(names: Seq<String>, h: Seq<char>) -> bool {
    exists|k: int| 0 <= k < names.len() && (#[trigger] names[k])@ == h
}

proof fn lemma_replaced(before: Seq<HostTemp>, after: Seq<HostTemp>, i: int)
    requires
        0 <= i < before.len(),
        distinct_hosts(before),
        after == before.update(i, after[i]),
        after[i].host@ == before[i].host@,
    ensures
        distinct_hosts(after),
        recorded(after) == recorded(before).insert(after[i].host@, reading_of(after[i])),
{
    assert forall|k: int, l: int| 0 <= k < l < after.len() implies #[trigger] after[k].host@
        != #[trigger] after[l].host@ by {
        assert(before[k].host@ != before[l].host@);
    }
    lemma_recorded(before);
    lemma_recorded(after);
    let wanted = recorded(before).insert(after[i].host@, reading_of(after[i]));
    assert forall|h: Seq<char>| recorded(after).contains_key(h) == wanted.contains_key(h) by {
        if recorded(after).contains_key(h) {
            let k = choose|k: int| 0 <= k < after.len() && (#[trigger] after[k]).host@ == h;
            assert(before[k].host@ == h);
        }
        if wanted.contains_key(h) {
            if h != after[i].host@ {
                let k = choose|k: int| 0 <= k < before.len() && (#[trigger] before[k]).host@ == h;
                assert(after[k].host@ == h);
            } else {
                assert(recorded(after).contains_key(after[i].host@));
            }
        }
    }
    assert forall|h: Seq<char>| recorded(after).contains_key(h) implies recorded(after)[h]
        == wanted[h] by {
        let k = choose|k: int| 0 <= k < after.len() && (#[trigger] after[k]).host@ == h;
        assert(before[k].host@ == h);
        if k != i {
            if k < i {
                assert(after[k].host@ != after[i].host@);
            } else {
                assert(after[i].host@ != after[k].host@);
            }
            assert(after[k] == before[k]);
        }
    }
    assert(recorded(after) =~= wanted);
}

proof fn lemma_moved(
    all: Map<Seq<char>, Reading>,
    hosts: Seq<HostTemp>,
    names: Seq<String>,
    rest: Seq<HostTemp>,
    more: Seq<String>,
    i: int,
)
    requires
        0 <= i < hosts.len(),
        distinct_hosts(hosts),
        rest == hosts.remove(i),
        more == names.push(hosts[i].host),
        forall|h: Seq<char>| #[trigger]
            all.contains_key(h) ==> listed(hosts, h) || named(names, h),
    ensures
        distinct_hosts(rest),
        forall|k: int| 0 <= k < i ==> #[trigger] rest[k] == hosts[k],
        forall|k: int| i <= k < rest.len() ==> #[trigger] rest[k] == hosts[k + 1],
        forall|k: int| 0 <= k < rest.len() ==> (#[trigger] rest[k]).host@ != hosts[i].host@,
        forall|h: Seq<char>| #[trigger]
            all.contains_key(h) ==> listed(rest, h) || named(more, h),
{
    assert forall|k: int, l: int| 0 <= k < l < rest.len() implies #[trigger] rest[k].host@
        != #[trigger] rest[l].host@ by {
        let k2 = if k < i { k } else { k + 1 };
        let l2 = if l < i { l } else { l + 1 };
        assert(hosts[k2].host@ != hosts[l2].host@);
    }
    assert forall|k: int| 0 <= k < rest.len() implies (#[trigger] rest[k]).host@
        != hosts[i].host@ by {
        if k < i {
            assert(hosts[k].host@ != hosts[i].host@);
        } else {
            assert(hosts[i].host@ != hosts[k + 1].host@);
        }
    }
    assert forall|h: Seq<char>| #[trigger] all.contains_key(h) implies listed(rest, h) || named(
        more,
        h,
    ) by {
        if listed(hosts, h) {
            let k = choose|k: int| 0 <= k < hosts.len() && (#[trigger] hosts[k]).host@ == h;
            if k < i {
                assert(rest[k].host@ == h);
            } else if k > i {
                assert(rest[k - 1].host@ == h);
            } else {
                assert(more[names.len() as int]@ == h);
            }
        } else {
            let k = choose|k: int| 0 <= k < names.len() && (#[trigger] names[k])@ == h;
            assert(more[k]@ == h);
        }
    }
}

proof fn lemma_swept(
    before: Map<Seq<char>, Reading>,
    hosts: Seq<HostTemp>,
    names: Seq<String>,
    now: int,
    max_temp: u8,
)
    requires
        distinct_hosts(hosts),
        forall|k: int|
            0 <= k < hosts.len() ==> before.contains_key((#[trigger] hosts[k]).host@)
                && before[hosts[k].host@] == reading_of(hosts[k]),
        forall|k: int|
            0 <= k < hosts.len() ==> clock::active_at((#[trigger] hosts[k]).time as int, now),
        forall|h: Seq<char>| #[trigger]
            before.contains_key(h) ==> listed(hosts, h) || named(names, h),
        forall|k: int|
            0 <= k < names.len() ==> before.contains_key((#[trigger] names[k])@)
                && !clock::active_at(before[names[k]@].time as int, now),
        forall|k: int, l: int|
            0 <= k < l < names.len() ==> (#[trigger] names[k])@ != (#[trigger] names[l])@,
        forall|k: int| 0 <= k < hosts.len() ==> (#[trigger] hosts[k]).temp <= max_temp,
        max_temp == 0 || exists|k: int|
            0 <= k < hosts.len() && (#[trigger] hosts[k]).temp == max_temp,
    ensures
        recorded(hosts) == online(before, now),
        is_hottest(recorded(hosts), max_temp),
        lists_removed(names, before, recorded(hosts)),
{
    lemma_recorded(hosts);
    let after = recorded(hosts);
    assert forall|h: Seq<char>| after.contains_key(h) == online(before, now).contains_key(h) by {
        if after.contains_key(h) {
            let k = choose|k: int| 0 <= k < hosts.len() && (#[trigger] hosts[k]).host@ == h;
            assert(before.contains_key(hosts[k].host@));
        }
        if online(before, now).contains_key(h) {
            assert(before.contains_key(h));
            if named(names, h) {
                let k = choose|k: int| 0 <= k < names.len() && (#[trigger] names[k])@ == h;
                assert(!clock::active_at(before[names[k]@].time as int, now));
            }
            let k = choose|k: int| 0 <= k < hosts.len() && (#[trigger] hosts[k]).host@ == h;
            assert(after.contains_key(hosts[k].host@));
        }
    }
    assert forall|h: Seq<char>| after.contains_key(h) implies after[h] == online(
        before,
        now,
    )[h] by {
        let k = choose|k: int| 0 <= k < hosts.len() && (#[trigger] hosts[k]).host@ == h;
        assert(before.contains_key(hosts[k].host@));
    }
    assert(after =~= online(before, now));
    assert forall|h: Seq<char>| #[trigger] after.contains_key(h) implies after[h].temp
        <= max_temp by {
        let k = choose|k: int| 0 <= k < hosts.len() && (#[trigger] hosts[k]).host@ == h;
        assert(hosts[k].temp <= max_temp);
    }
    if max_temp != 0 {
        let k = choose|k: int| 0 <= k < hosts.len() && (#[trigger] hosts[k]).temp == max_temp;
        assert(after.contains_key(hosts[k].host@));
    }
    assert forall|k: int| 0 <= k < names.len() implies before.contains_key((#[trigger] names[k])@)
        && !after.contains_key(names[k]@) by {
        assert(!online(before, now).contains_key(names[k]@));
    }
    assert forall|h: Seq<char>| #[trigger]
        before.contains_key(h) && !after.contains_key(h) implies exists|i: int|
        0 <= i < names.len() && (#[trigger] names[i])@ == h by {
        if listed(hosts, h) {
            let k = choose|k: int| 0 <= k < hosts.len() && (#[trigger] hosts[k]).host@ == h;
            assert(after.contains_key(hosts[k].host@));
        }
    }
}

impl View for HostTable {
    type V = Map<Seq<char>, Reading>;

    closed spec fn view(&self) -> Map<Seq<char>, Reading> {
        recorded(self.hosts@)
    }
}

impl HostTable {
    /// Each host is recorded once, at a time that the clock can represent.
    pub closed spec fn wf(&self) -> bool {
        &&& distinct_hosts(self.hosts@)
        &&& forall|i: int|
            0 <= i < self.hosts@.len() ==> (#[trigger] self.hosts@[i]).time <= clock::MAX_TIMESTAMP
    }

    /// A table without hosts.
    pub fn new() -> (r: HostTable)
        ensures
            r.wf(),
            r@ == Map::<Seq<char>, Reading>::empty(),
    {
        HostTable { hosts: Vec::new() }
    }

    /// The number of hosts.
    pub fn len(&self) -> (r: usize)
        requires
            self.wf(),
        ensures
            r == self@.len(),
            self@.dom().finite(),
    {
        proof {
            lemma_recorded(self.hosts@);
        }
        self.hosts.len()
    }

    /// Whether no host is recorded.
    pub fn is_empty(&self) -> (r: bool)
        requires
            self.wf(),
        ensures
            r == (self@ == Map::<Seq<char>, Reading>::empty()),
    {
        proof {
            lemma_recorded(self.hosts@);
            if self.hosts@.len() > 0 {
                assert(self@.contains_key(self.hosts@[0].host@));
            }
        }
        self.hosts.len() == 0
    }

    /// The reports, one for each host, in no particular order.
    pub fn reports(&self) -> (r: &Vec<HostTemp>)
        requires
            self.wf(),
        ensures
            distinct_hosts(r@),
            recorded(r@) == self@,
            r@.len() == self@.len(),
            forall|i: int|
                #![trigger r@[i]]
                0 <= i < r@.len() ==> self@.contains_key(r@[i].host@) && self@[r@[i].host@].temp
                    == r@[i].temp && self@[r@[i].host@].time == r@[i].time,
            forall|i: int|
                0 <= i < r@.len() ==> (#[trigger] r@[i]).time <= clock::MAX_TIMESTAMP,
    {
        proof {
            lemma_recorded(self.hosts@);
        }
        &self.hosts
    }

    /// Where `host` stands among the reports.
    fn position(&self, host: &String) -> (r: Option<usize>)
        requires
            self.wf(),
        ensures
            match r {
                Some(i) => i < self.hosts@.len() && self.hosts@[i as int].host@ == host@,
                None => !self@.contains_key(host@),
            },
    {
        let mut i: usize = 0;
        while i < self.hosts.len()
            invariant
                i <= self.hosts@.len(),
                forall|k: int| 0 <= k < i ==> (#[trigger] self.hosts@[k]).host@ != host@,
            decreases self.hosts@.len() - i,
        {
            if self.hosts[i].host == *host {
                return Some(i);
            }
            i = i + 1;
        }
        proof {
            lemma_recorded(self.hosts@);
        }
        None
    }

    /// The last report of `host`, if it has reported.
    pub fn get(&self, host: &str) -> (r: Option<&HostTemp>)
        requires
            self.wf(),
        ensures
            match r {
                Some(report) => report.host@ == host@ && self@.contains_key(host@) && self@[host@]
                    == reading_of(*report) && self@[host@].temp == report.temp
                    && self@[host@].time == report.time,
                None => !self@.contains_key(host@),
            },
    {
        let name: String = String::from_str(host);
        match self.position(&name) {
            Some(i) => {
                proof {
                    lemma_recorded(self.hosts@);
                }
                Some(&self.hosts[i])
            },
            None => None,
        }
    }

    /// Records `report` as the last one of its host.
    pub fn insert(&mut self, report: HostTemp)
        requires
            old(self).wf(),
            report.time <= clock::MAX_TIMESTAMP,
        ensures
            final(self).wf(),
            final(self)@ == old(self)@.insert(report.host@, reading_of(report)),
            final(self)@[report.host@].temp == report.temp,
            final(self)@[report.host@].time == report.time,
    {
        let ghost before = self.hosts@;
        proof {
            lemma_recorded(before);
        }
        match self.position(&report.host) {
            Some(i) => {
                self.hosts.set(i, report);
                proof {
                    assert(self.hosts@ == before.update(i as int, report));
                    lemma_replaced(before, self.hosts@, i as int);
                }
            },
            None => {
                self.hosts.push(report);
                assert(self.hosts@.drop_last() =~= before);
            },
        }
    }

    /// Drops the hosts that are offline at `now` and finds the highest
    /// temperature of those that are left.
    pub fn sweep_at(&mut self, now: i128) -> (r: Sweep)
        requires
            old(self).wf(),
        ensures
            final(self).wf(),
            final(self)@ == online(old(self)@, now as int),
            is_hottest(final(self)@, r.max_temp),
            lists_removed(r.removed@, old(self)@, final(self)@),
    {
        let ghost before = self@;
        let mut removed: Vec<String> = Vec::new();
        let mut max_temp: u8 = 0;
        let mut i: usize = 0;
        proof {
            lemma_recorded(self.hosts@);
        }
        while i < self.hosts.len()
            invariant
                i <= self.hosts@.len(),
                self.wf(),
                forall|k: int|
                    0 <= k < self.hosts@.len() ==> before.contains_key(
                        (#[trigger] self.hosts@[k]).host@,
                    ) && before[self.hosts@[k].host@] == reading_of(self.hosts@[k]),
                forall|k: int|
                    0 <= k < i ==> clock::active_at(
                        (#[trigger] self.hosts@[k]).time as int,
                        now as int,
                    ),
                forall|h: Seq<char>| #[trigger]
                    before.contains_key(h) ==> listed(self.hosts@, h) || named(removed@, h),
                forall|k: int|
                    0 <= k < removed@.len() ==> before.contains_key((#[trigger] removed@[k])@)
                        && !clock::active_at(before[removed@[k]@].time as int, now as int),
                forall|k: int, l: int|
                    0 <= k < l < removed@.len() ==> (#[trigger] removed@[k])@ != (
                    #[trigger] removed@[l])@,
                forall|k: int, l: int|
                    0 <= k < self.hosts@.len() && 0 <= l < removed@.len() ==> (
                    #[trigger] self.hosts@[k]).host@ != (#[trigger] removed@[l])@,
                forall|k: int| 0 <= k < i ==> (#[trigger] self.hosts@[k]).temp <= max_temp,
                max_temp == 0 || exists|k: int|
                    0 <= k < i && (#[trigger] self.hosts@[k]).temp == max_temp,
            decreases self.hosts@.len() - i,
        {
            if clock::is_active_at(self.hosts[i].time, now) {
                if self.hosts[i].temp > max_temp {
                    max_temp = self.hosts[i].temp;
                }
                i = i + 1;
            } else {
                let ghost hosts = self.hosts@;
                let ghost names = removed@;
                let gone = self.hosts.remove(i);
                removed.push(gone.host);
                proof {
                    lemma_moved(before, hosts, names, self.hosts@, removed@, i as int);
                }
            }
        }
        proof {
            lemma_swept(before, self.hosts@, removed@, now as int, max_temp);
        }
        Sweep { max_temp, removed }
    }

    /// Drops the hosts that are offline by the system clock and finds the
    /// highest temperature of those that are left.
    pub fn sweep(&mut self) -> (r: Sweep)
        requires
            old(self).wf(),
        ensures
            final(self).wf(),
            is_hottest(final(self)@, r.max_temp),
            lists_removed(r.removed@, old(self)@, final(self)@),
            exists|now: i128| #[trigger]
                call_ensures(clock::current_instant, (), now) && clock::clock_range(now as int)
                    && final(self)@ == online(old(self)@, now as int),
    {
        let now: i128 = clock::current_instant();
        self.sweep_at(now)
    }
}

/// What is recorded of a host is its latest report, however many it sent.
pub proof fn latest_report_wins(reports: Seq<HostTemp>, i: int)
    requires
        0 <= i < reports.len(),
        forall|j: int| i < j < reports.len() ==> (#[trigger] reports[j]).host@ != reports[i].host@,
    ensures
        recorded(reports).contains_key(reports[i].host@),
        recorded(reports)[reports[i].host@] == reading_of(reports[i]),
        recorded(reports)[reports[i].host@].temp == reports[i].temp,
        recorded(reports)[reports[i].host@].time == reports[i].time,
    decreases reports.len(),
{
    let last = reports.len() - 1;
    if i < last {
        let rest = reports.drop_last();
        assert forall|j: int| i < j < rest.len() implies (#[trigger] rest[j]).host@
            != rest[i].host@ by {
            assert(rest[j] == reports[j]);
        }
        assert(reports[last].host@ != reports[i].host@);
        latest_report_wins(rest, i);
    }
}

/// A host is recorded only if it reported.
pub proof fn recorded_hosts_reported(reports: Seq<HostTemp>, h: Seq<char>)
    requires
        recorded(reports).contains_key(h),
    ensures
        exists|i: int| 0 <= i < reports.len() && (#[trigger] reports[i]).host@ == h,
    decreases reports.len(),
{
    if h == reports.last().host@ {
        assert(reports[reports.len() - 1].host@ == h);
    } else {
        let rest = reports.drop_last();
        recorded_hosts_reported(rest, h);
        let i = choose|i: int| 0 <= i < rest.len() && (#[trigger] rest[i]).host@ == h;
        assert(reports[i].host@ == h);
    }
}

/// A second report of a host replaces the first: the hosts and the readings are
/// those that the second report alone leaves.
pub proof fn report_overwrites(m: Map<Seq<char>, Reading>, h: Seq<char>, a: Reading, b: Reading)
    requires
        m.dom().finite(),
    ensures
        m.insert(h, a).insert(h, b) == m.insert(h, b),
        m.insert(h, a).insert(h, b).len() == m.insert(h, a).len(),
        forall|g: Seq<char>|
            g != h && m.contains_key(g) ==> m.insert(h, a)[g] == #[trigger] m[g],
{
    assert(m.insert(h, a).insert(h, b) =~= m.insert(h, b));
}

/// Sweeping twice at one instant drops no more than sweeping once.
pub proof fn sweep_is_idempotent(m: Map<Seq<char>, Reading>, now: int)
    ensures
        online(online(m, now), now) == online(m, now),
{
    assert(online(online(m, now), now) =~= online(m, now));
}

/// A host that one sweep drops is not there after a later one either: sweeping
/// at `earlier` first changes nothing of what a sweep at `later` leaves.
pub proof fn sweeps_compose(m: Map<Seq<char>, Reading>, earlier: int, later: int)
    requires
        earlier <= later,
        clock::threshold(earlier) is Some,
    ensures
        online(online(m, earlier), later) == online(m, later),
        online(m, later).submap_of(online(m, earlier)),
{
    assert forall|h: Seq<char>| m.contains_key(h) && clock::active_at(
        m[h].time as int,
        later,
    ) implies clock::active_at(m[h].time as int, earlier) by {
        clock::online_is_monotone(m[h].time as int, m[h].time as int, earlier, later);
    }
    assert(online(online(m, earlier), later) =~= online(m, later));
}

/// A sweep keeps a host exactly if it is recorded and its last report is at most
/// three minutes old, and changes no reading of a host that it keeps.
pub proof fn sweep_keeps_online_hosts(m: Map<Seq<char>, Reading>, h: Seq<char>, now: int)
    ensures
        online(m, now).contains_key(h) <==> m.contains_key(h) && clock::active_at(
            m[h].time as int,
            now,
        ),
        now >= -9_223_372_036_854_775_628_000_000_000 ==> (online(m, now).contains_key(h)
            <==> m.contains_key(h) && now - m[h].time * 1_000_000_000 <= 180_000_000_000),
        online(m, now).contains_key(h) ==> online(m, now)[h] == m[h],
{
    if m.contains_key(h) {
        clock::online_means_heard_within_three_minutes(m[h].time as int, now);
    }
}

/// Whether a sweep keeps a host does not depend on what the other hosts report,
/// nor on its own temperature.
pub proof fn sweep_judges_hosts_apart(
    m: Map<Seq<char>, Reading>,
    n: Map<Seq<char>, Reading>,
    h: Seq<char>,
    now: int,
)
    requires
        m.contains_key(h),
        n.contains_key(h),
        m[h].time == n[h].time,
    ensures
        online(m, now).contains_key(h) == online(n, now).contains_key(h),
{
}

/// There is one highest temperature.
pub proof fn hottest_is_unique(m: Map<Seq<char>, Reading>, s: u8, t: u8)
    requires
        is_hottest(m, s),
        is_hottest(m, t),
    ensures
        s == t,
{
}

/// The highest temperature is no host's less, and some host has it; it is zero
/// where there is no host.
pub proof fn hottest_is_the_maximum(m: Map<Seq<char>, Reading>, t: u8)
    requires
        is_hottest(m, t),
    ensures
        forall|h: Seq<char>| #[trigger] m.contains_key(h) ==> m[h].temp <= t,
        m == Map::<Seq<char>, Reading>::empty() ==> t == 0,
        m != Map::<Seq<char>, Reading>::empty() ==> exists|h: Seq<char>| #[trigger]
            m.contains_key(h) && m[h].temp == t,
{
    if m != Map::<Seq<char>, Reading>::empty() && t == 0 {
        if forall|h: Seq<char>| !#[trigger] m.contains_key(h) {
            assert(m =~= Map::<Seq<char>, Reading>::empty());
        }
        let h = choose|h: Seq<char>| #[trigger] m.contains_key(h);
        assert(m[h].temp <= t);
    }
}

/// One more host raises the highest temperature to its own, if that is higher,
/// and else leaves it.
pub proof fn hottest_follows_new_host(
    m: Map<Seq<char>, Reading>,
    h: Seq<char>,
    reading: Reading,
    before: u8,
    after: u8,
)
    requires
        !m.contains_key(h),
        is_hottest(m, before),
        is_hottest(m.insert(h, reading), after),
    ensures
        after == (if reading.temp > before {
            reading.temp
        } else {
            before
        }),
{
    let n = m.insert(h, reading);
    assert(n.contains_key(h));
    assert(n[h] == reading);
    if before != 0 {
        let g = choose|g: Seq<char>| #[trigger] m.contains_key(g) && m[g].temp == before;
        assert(n.contains_key(g) && n[g] == m[g]);
    }
    if after != 0 {
        let g = choose|g: Seq<char>| #[trigger] n.contains_key(g) && n[g].temp == after;
        if g != h {
            assert(m.contains_key(g));
        }
    }
}

/// The names that a sweep lists are those of the hosts that it dropped: a host is
/// listed exactly if it was recorded and is no more, and no host twice.
pub proof fn removed_are_the_dropped_hosts(
    names: Seq<String>,
    before: Map<Seq<char>, Reading>,
    now: int,
    h: Seq<char>,
)
    requires
        lists_removed(names, before, online(before, now)),
        now >= -9_223_372_036_854_775_628_000_000_000,
    ensures
        (exists|i: int| 0 <= i < names.len() && (#[trigger] names[i])@ == h) <==> (
        before.contains_key(h) && now - before[h].time * 1_000_000_000 > 180_000_000_000),
        forall|i: int, j: int|
            0 <= i < j < names.len() ==> (#[trigger] names[i])@ != (#[trigger] names[j])@,
{
    sweep_keeps_online_hosts(before, h, now);
    if exists|i: int| 0 <= i < names.len() && (#[trigger] names[i])@ == h {
        let i = choose|i: int| 0 <= i < names.len() && (#[trigger] names[i])@ == h;
        assert(before.contains_key(names[i]@));
    }
}

/// Where no two reports are about one host, as many hosts are recorded as
/// reported, and each by its own report.
pub proof fn distinct_reports_all_count(reports: Seq<HostTemp>)
    requires
        forall|i: int, j: int|
            0 <= i < j < reports.len() ==> (#[trigger] reports[i]).host@ != (
            #[trigger] reports[j]).host@,
    ensures
        recorded(reports).len() == reports.len(),
        forall|i: int|
            #![trigger reports[i]]
            0 <= i < reports.len() ==> recorded(reports).contains_key(reports[i].host@)
                && recorded(reports)[reports[i].host@].temp == reports[i].temp
                && recorded(reports)[reports[i].host@].time == reports[i].time,
{
    lemma_recorded(reports);
}

/// Dropping hosts never raises the highest temperature.
pub proof fn sweep_never_heats(m: Map<Seq<char>, Reading>, now: int, before: u8, after: u8)
    requires
        is_hottest(m, before),
        is_hottest(online(m, now), after),
    ensures
        after <= before,
{
    if after != 0 {
        let h = choose|h: Seq<char>| #[trigger]
            online(m, now).contains_key(h) && online(m, now)[h].temp == after;
        assert(m.contains_key(h));
    }
}

/// While a host is online the fan controller is told at least its temperature.
pub proof fn hottest_covers_online_host(
    m: Map<Seq<char>, Reading>,
    h: Seq<char>,
    reading: Reading,
    now: int,
    t: u8,
)
    requires
        now >= -9_223_372_036_854_775_628_000_000_000,
        now - reading.time * 1_000_000_000 <= 180_000_000_000,
        is_hottest(online(m.insert(h, reading), now), t),
    ensures
        reading.temp <= t,
{
    sweep_keeps_online_hosts(m.insert(h, reading), h, now);
    assert(online(m.insert(h, reading), now).contains_key(h));
}

} // verus!
