//! Battery charging on ASUS handhelds.

use crate::asus::power_supply;
use crate::charge;
use crate::charge::{ChargeControl, MAX_CHARGE_THRESHOLD, MIN_CHARGE_THRESHOLD};
use crate::error;
use crate::error::{HpdError, SysfsError};
use crate::journal;
use crate::journal::{Entry, Journal};
use crate::sysfs;
use crate::sysfs::SysfsIo;
use crate::text;
use vstd::prelude::*;

verus! {

pub const BATTERY_PATH: &'static str = "/sys/class/power_supply/BAT0";

/// The file of the charge limit.
pub open spec fn threshold_path() -> Seq<char> {
    BATTERY_PATH@ + "/charge_control_end_threshold"@
}

fn make_threshold_path() -> (r: String)
    ensures
        r@ == threshold_path(),
{
    let mut s = BATTERY_PATH.to_owned();
    s.append("/charge_control_end_threshold");
    s
}

/// Whether the supply at `base` was found to be online, or not.
pub open spec fn online_gave<S: SysfsIo>(s: &S, base: Seq<char>, online: bool) -> bool {
    exists|raw: Result<String, SysfsError>| #[trigger]
        sysfs::read_gave(s, base + "/online"@, raw) && online == (text::trimmed(
            sysfs::text_or_empty(raw),
        ) == "1"@)
}

/// Whether one of `nodes` from `from` on was found to be online. The first that
/// is ends the search.
pub open spec fn any_online<S: SysfsIo>(
    s: &S,
    nodes: Seq<Seq<char>>,
    from: int,
    online: bool,
) -> bool
    decreases nodes.len() - from,
{
    if from < 0 || from >= nodes.len() {
        !online
    } else {
        ||| online && online_gave(s, nodes[from], true)
        ||| online_gave(s, nodes[from], false) && any_online(s, nodes, from + 1, online)
    }
}

/// Whether the charger was found to be plugged in, or not: one mains supply that
/// is online is enough.
pub open spec fn mains_gave<S: SysfsIo>(s: &S, online: bool) -> bool {
    exists|nodes: Seq<Seq<char>>| #[trigger]
        power_supply::nodes_gave(s, "Mains"@, nodes) && any_online(s, nodes, 0, online)
}

fn search_online<S: SysfsIo>(s: &S, nodes: &Vec<String>, from: usize) -> (r: bool)
    requires
        from <= nodes.len(),
    ensures
        any_online(s, text::texts(nodes@), from as int, r),
    decreases nodes.len() - from,
{
    if from == nodes.len() {
        return false;
    }
    let mut path = nodes[from].clone();
    path.append("/online");
    let raw = sysfs::read(s, path.as_str());
    let ghost raw_read = raw;
    let online = match raw {
        Ok(t) => text::same(text::trim(t.as_str()), "1"),
        Err(_) => {
            proof {
                reveal_strlit("1");
                assert(text::trimmed(Seq::<char>::empty()) =~= Seq::empty());
            }
            false
        },
    };
    proof {
        assert(sysfs::read_gave(s, nodes@[from as int]@ + "/online"@, raw_read));
        assert(online_gave(s, text::texts(nodes@)[from as int], online));
    }
    if online {
        true
    } else {
        search_online(s, nodes, from + 1)
    }
}

/// Whether `r` is the charge limit that the contents of its file stand for.
pub open spec fn threshold_from(raw: Result<String, SysfsError>, r: Result<u8, HpdError>) -> bool {
    match raw {
        Err(e) => r == Err::<u8, HpdError>(HpdError::Sysfs(e)),
        Ok(t) => match text::bounded_value(t@, u8::MAX as nat) {
            Some(v) => r is Ok && r->Ok_0 == v,
            None => r is Err && sysfs::is_parse_failure(
                r->Err_0,
                "charge_end_threshold"@,
                t@,
                "expected u8 (0-100)"@,
            ),
        },
    }
}

/// The charge limit that the contents of its file stand for.
pub fn parse_threshold(raw: Result<String, SysfsError>) -> (r: Result<u8, HpdError>)
    ensures
        threshold_from(raw, r),
{
    match raw {
        Err(e) => Err(HpdError::Sysfs(e)),
        Ok(t) => match text::parse_unsigned(t.as_str(), u8::MAX as u64) {
            Some(v) => Ok(v as u8),
            None => Err(
                sysfs::parse_error("charge_end_threshold", t.as_str(), "expected u8 (0-100)"),
            ),
        },
    }
}

/// Why a charge limit is refused.
pub open spec fn threshold_refused(threshold: u8) -> Seq<char> {
    "charge threshold must be between "@ + text::dec(MIN_CHARGE_THRESHOLD as nat) + " and "@
        + text::dec(MAX_CHARGE_THRESHOLD as nat) + ", got "@ + text::dec(threshold as nat)
}

/// Whether the requests from `from` up to `to` set the charge limit and ended in
/// `r`. One that may not be set is refused, and nothing is asked of the hardware.
pub open spec fn threshold_set<S: SysfsIo>(
    s: &S,
    log: Seq<Entry>,
    from: int,
    to: int,
    threshold: u8,
    r: Result<(), HpdError>,
) -> bool {
    if charge::chargeable(threshold) {
        &&& journal::write_at(s, log, from, threshold_path(), text::dec(threshold as nat))
        &&& to == from + 1
        &&& r == journal::result_at(log, from)
    } else {
        to == from && r is Err && error::is_violation(r->Err_0, threshold_refused(threshold))
    }
}

/// Set the charge limit.
pub fn program<S: SysfsIo>(files: &mut Journal<S>, threshold: u8) -> (r: Result<(), HpdError>)
    ensures
        final(files).files() == old(files).files(),
        journal::goes_on(old(files).log(), final(files).log()),
        threshold_set(
            old(files).files(),
            final(files).log(),
            old(files).log().len() as int,
            final(files).log().len() as int,
            threshold,
            r,
        ),
{
    if threshold < MIN_CHARGE_THRESHOLD || threshold > MAX_CHARGE_THRESHOLD {
        let mut s = "charge threshold must be between ".to_owned();
        text::push_dec(&mut s, MIN_CHARGE_THRESHOLD as u64);
        s.append(" and ");
        text::push_dec(&mut s, MAX_CHARGE_THRESHOLD as u64);
        s.append(", got ");
        text::push_dec(&mut s, threshold as u64);
        return Err(error::violation(s));
    }
    let path = make_threshold_path();
    let mut value = String::new();
    text::push_dec(&mut value, threshold as u64);
    assert(value@ =~= text::dec(threshold as nat));
    files.write(path.as_str(), value.as_str())
}

/// Battery charging on an ASUS handheld.
pub struct AsusChargeBackend<S: SysfsIo> {
    pub sysfs: S,
}

impl<S: SysfsIo> AsusChargeBackend<S> {
    pub fn new(sysfs: S) -> (r: Self)
        ensures
            r.sysfs == sysfs,
    {
        AsusChargeBackend { sysfs }
    }
}

impl<S: SysfsIo> ChargeControl for AsusChargeBackend<S> {
    fn is_ac_connected(&self) -> (r: Result<bool, HpdError>)
        ensures
            r is Ok && mains_gave(&self.sysfs, r->Ok_0),
    {
        let nodes = power_supply::find_nodes_by_type(&self.sysfs, "Mains");
        assert(power_supply::nodes_gave(&self.sysfs, "Mains"@, text::texts(nodes@)));
        Ok(search_online(&self.sysfs, &nodes, 0))
    }

    fn get_end_threshold(&self) -> (r: Result<u8, HpdError>)
        ensures
            exists|raw: Result<String, SysfsError>| #[trigger]
                sysfs::read_gave(&self.sysfs, threshold_path(), raw) && threshold_from(raw, r),
    {
        let path = make_threshold_path();
        let raw = sysfs::read(&self.sysfs, path.as_str());
        parse_threshold(raw)
    }

    fn set_end_threshold(&self, threshold: u8) -> (r: Result<(), HpdError>)
        ensures
            exists|log: Seq<Entry>| #[trigger]
                threshold_set(&self.sysfs, log, 0, log.len() as int, threshold, r),
    {
        let mut files = Journal::new(&self.sysfs);
        program(&mut files, threshold)
    }
}

// ---------------------------------------------------------------------------
// Laws
// ---------------------------------------------------------------------------

/// The charger is plugged in where some mains supply told that it is online, and not where
/// each of them told that it is not.
pub proof fn one_supply_online_is_enough<S: SysfsIo>(
    backend: AsusChargeBackend<S>,
    r: Result<bool, HpdError>,
)
    requires
        call_ensures(<AsusChargeBackend<S> as ChargeControl>::is_ac_connected, (&backend,), r),
    ensures
        r is Ok && exists|nodes: Seq<Seq<char>>| #[trigger]
            power_supply::nodes_gave(&backend.sysfs, "Mains"@, nodes) && if r->Ok_0 {
                exists|i: int|
                    0 <= i < nodes.len() && supply_said(
                        &backend.sysfs,
                        #[trigger] nodes[i],
                        true,
                    )
            } else {
                forall|i: int|
                    0 <= i < nodes.len() ==> supply_said(
                        &backend.sysfs,
                        #[trigger] nodes[i],
                        false,
                    )
            },
{
    let s = &backend.sysfs;
    let nodes = choose|nodes: Seq<Seq<char>>| #[trigger]
        power_supply::nodes_gave(s, "Mains"@, nodes) && any_online(s, nodes, 0, r->Ok_0);
    lemma_any_online(s, nodes, 0, r->Ok_0);
}

/// Whether the supply at `base` told that it is online, by a `1` in its file, or anything
/// else or nothing at all.
pub open spec fn supply_said<S: SysfsIo>(s: &S, base: Seq<char>, online: bool) -> bool {
    exists|raw: Result<String, SysfsError>| #[trigger]
        sysfs::read_gave(s, base + "/online"@, raw) && (online <==> (raw matches Ok(t)
            && text::trimmed(t@) == "1"@))
}

proof fn lemma_any_online<S: SysfsIo>(s: &S, nodes: Seq<Seq<char>>, from: int, online: bool)
    requires
        any_online(s, nodes, from, online),
        0 <= from,
    ensures
        online ==> exists|i: int|
            from <= i < nodes.len() && supply_said(s, #[trigger] nodes[i], true),
        !online ==> forall|i: int|
            from <= i < nodes.len() ==> supply_said(s, #[trigger] nodes[i], false),
    decreases nodes.len() - from,
{
    if from < nodes.len() {
        if online && online_gave(s, nodes[from], true) {
            lemma_said(s, nodes[from], true);
        } else {
            lemma_said(s, nodes[from], false);
            lemma_any_online(s, nodes, from + 1, online);
        }
    }
}

proof fn lemma_said<S: SysfsIo>(s: &S, base: Seq<char>, online: bool)
    requires
        online_gave(s, base, online),
    ensures
        supply_said(s, base, online),
{
    let raw = choose|raw: Result<String, SysfsError>| #[trigger]
        sysfs::read_gave(s, base + "/online"@, raw) && online == (text::trimmed(
            sysfs::text_or_empty(raw),
        ) == "1"@);
    reveal_strlit("1");
    assert(text::trimmed(Seq::<char>::empty()) =~= Seq::empty());
}

/// A charge limit from 20 to 100 percent goes to the battery as it is, every other one is
/// refused; what was written is read again.
pub proof fn charge_limits_are_kept<S: SysfsIo>(
    backend: AsusChargeBackend<S>,
    threshold: u8,
    r: Result<(), HpdError>,
    t: String,
    read: Result<u8, HpdError>,
)
    requires
        call_ensures(
            <AsusChargeBackend<S> as ChargeControl>::set_end_threshold,
            (&backend, threshold),
            r,
        ),
        t@ == text::dec(threshold as nat),
        call_ensures(parse_threshold, (Ok(t),), read),
    ensures
        20 <= threshold <= 100 ==> exists|log: Seq<Entry>| #[trigger]
            journal::write_at(
                &backend.sysfs,
                log,
                0,
                "/sys/class/power_supply/BAT0"@ + "/charge_control_end_threshold"@,
                t@,
            ) && log.len() == 1 && r == journal::result_at(log, 0),
        !(20 <= threshold <= 100) ==> r is Err,
        read == Ok::<u8, HpdError>(threshold),
{
    text::decimals_are_read_back(threshold as nat);
    let log = choose|log: Seq<Entry>| #[trigger]
        threshold_set(&backend.sysfs, log, 0, log.len() as int, threshold, r);
    if 20 <= threshold <= 100 {
        assert(journal::write_at(&backend.sysfs, log, 0, threshold_path(), t@));
    }
}

} // verus!
