//! The power envelope of ASUS handhelds, through the `asus-armoury` firmware
//! attributes. The firmware counts in whole watts.

use crate::error;
use crate::error::HpdError;
use crate::error::SysfsError;
use crate::journal;
use crate::journal::{Entry, Journal};
use crate::power::{PowerEnvelope, PowerEnvelopeLimits, PowerEnvelopeTarget};
use crate::sysfs;
use crate::sysfs::SysfsIo;
use crate::text;
use crate::units;
use crate::units::PowerMilliwatts;
use vstd::prelude::*;

verus! {

pub const BASE_PATH: &'static str = "/sys/class/firmware-attributes/asus-armoury/attributes";

pub const ATTR_SPL: &'static str = "ppt_pl1_spl";

pub const ATTR_SPPT: &'static str = "ppt_pl2_sppt";

pub const ATTR_FPPT: &'static str = "ppt_pl3_fppt";

/// How long the firmware may need between two writes, in milliseconds.
pub const SETTLE_RETRY_DELAY_MS: u64 = 75;

pub const ASUS_DEFAULT_SPPT_MAX_MW: u32 = 43_000;

pub const ASUS_DEFAULT_FPPT_MAX_MW: u32 = 53_000;

pub const ASUS_DEFAULT_SPPT_MIN_MW: u32 = 13_000;

pub const ASUS_DEFAULT_FPPT_MIN_MW: u32 = 19_000;

/// The file of one value of a firmware attribute.
pub open spec fn value_path(attr: Seq<char>, leaf: Seq<char>) -> Seq<char> {
    BASE_PATH@ + "/"@ + attr + "/"@ + leaf
}

fn make_value_path(attr: &str, leaf: &str) -> (r: String)
    ensures
        r@ == value_path(attr@, leaf@),
{
    let mut s = BASE_PATH.to_owned();
    s.append("/");
    s.append(attr);
    s.append("/");
    s.append(leaf);
    s
}

/// Whether `r` is what the contents of a file of watts stand for.
pub open spec fn watts_from(
    raw: Result<String, SysfsError>,
    path: Seq<char>,
    r: Result<PowerMilliwatts, HpdError>,
) -> bool {
    match raw {
        Err(e) => r == Err::<PowerMilliwatts, HpdError>(HpdError::Sysfs(e)),
        Ok(t) => match text::bounded_value(t@, u32::MAX as nat) {
            None => r is Err && sysfs::is_parse_failure(
                r->Err_0,
                "watts"@,
                t@,
                "expected integer at "@ + path,
            ),
            Some(watts) => if watts * 1000 <= u32::MAX {
                r is Ok && r->Ok_0.0 == watts * 1000
            } else {
                r is Err && error::is_violation(r->Err_0, units::too_many_watts(watts as u32))
            },
        },
    }
}

/// The power that the contents of a file of watts stand for.
pub fn parse_watts(raw: Result<String, SysfsError>, path: &str) -> (r: Result<
    PowerMilliwatts,
    HpdError,
>)
    ensures
        watts_from(raw, path@, r),
{
    match raw {
        Err(e) => Err(HpdError::Sysfs(e)),
        Ok(t) => match text::parse_unsigned(t.as_str(), u32::MAX as u64) {
            Some(watts) => PowerMilliwatts::from_watts(watts as u32),
            None => {
                let mut reason = "expected integer at ".to_owned();
                reason.append(path);
                Err(sysfs::parse_error("watts", t.as_str(), reason.as_str()))
            },
        },
    }
}

/// Whether one value of a firmware attribute was read as `r`.
pub open spec fn watts_gave<S: SysfsIo>(
    s: &S,
    attr: Seq<char>,
    leaf: Seq<char>,
    r: Result<PowerMilliwatts, HpdError>,
) -> bool {
    exists|raw: Result<String, SysfsError>| #[trigger]
        sysfs::read_gave(s, value_path(attr, leaf), raw) && watts_from(
            raw,
            value_path(attr, leaf),
            r,
        )
}

/// Whether request `i` was to write a rail.
pub open spec fn rail_write_at<S: SysfsIo>(
    s: &S,
    log: Seq<Entry>,
    i: int,
    attr: Seq<char>,
    mw: PowerMilliwatts,
) -> bool {
    journal::write_at(s, log, i, value_path(attr, "current_value"@), text::dec(mw.watts()))
}

/// Whether the requests from `from` up to `to` wrote a rail, with a wait and a
/// second try where the first failed, and ended in `r`.
pub open spec fn settled_write_ended<S: SysfsIo>(
    s: &S,
    log: Seq<Entry>,
    from: int,
    to: int,
    attr: Seq<char>,
    mw: PowerMilliwatts,
    r: Result<(), HpdError>,
) -> bool {
    &&& rail_write_at(s, log, from, attr, mw)
    &&& match journal::result_at(log, from) {
        Ok(()) => to == from + 1 && r is Ok,
        Err(_) => {
            &&& journal::wait_at(s, log, from + 1, SETTLE_RETRY_DELAY_MS)
            &&& rail_write_at(s, log, from + 2, attr, mw)
            &&& to == from + 3
            &&& r == journal::result_at(log, from + 2)
        },
    }
}

/// A reading, or the default where it failed.
pub open spec fn reading_or(r: Result<PowerMilliwatts, HpdError>, default: u32) -> PowerMilliwatts {
    match r {
        Ok(mw) => mw,
        Err(_) => PowerMilliwatts(default),
    }
}

fn read_or(r: Result<PowerMilliwatts, HpdError>, default: u32) -> (mw: PowerMilliwatts)
    ensures
        mw == reading_or(r, default),
{
    match r {
        Ok(mw) => mw,
        Err(_) => PowerMilliwatts(default),
    }
}

/// Whether the boost ranges were read, each with its default where the firmware
/// does not tell, and `r` holds them beside the sustained range.
pub open spec fn boost_ranges_read<S: SysfsIo>(
    s: &S,
    spl_min: PowerMilliwatts,
    spl_max: PowerMilliwatts,
    r: PowerEnvelopeLimits,
) -> bool {
    exists|
        a: Result<PowerMilliwatts, HpdError>,
        b: Result<PowerMilliwatts, HpdError>,
        c: Result<PowerMilliwatts, HpdError>,
        d: Result<PowerMilliwatts, HpdError>,
    |
        {
            &&& #[trigger] watts_gave(s, ATTR_SPPT@, "min_value"@, a)
            &&& #[trigger] watts_gave(s, ATTR_SPPT@, "max_value"@, b)
            &&& #[trigger] watts_gave(s, ATTR_FPPT@, "min_value"@, c)
            &&& #[trigger] watts_gave(s, ATTR_FPPT@, "max_value"@, d)
            &&& r == PowerEnvelopeLimits {
                spl_min,
                spl_max,
                sppt_min: reading_or(a, ASUS_DEFAULT_SPPT_MIN_MW),
                sppt_max: reading_or(b, ASUS_DEFAULT_SPPT_MAX_MW),
                fppt_min: reading_or(c, ASUS_DEFAULT_FPPT_MIN_MW),
                fppt_max: reading_or(d, ASUS_DEFAULT_FPPT_MAX_MW),
            }
        }
}

/// Whether the limits of the hardware were read as `r`: the sustained range must
/// be readable, the boost ranges have defaults.
pub open spec fn limits_read<S: SysfsIo>(s: &S, r: Result<PowerEnvelopeLimits, HpdError>) -> bool {
    exists|low: Result<PowerMilliwatts, HpdError>| #[trigger]
        watts_gave(s, ATTR_SPL@, "min_value"@, low) && match low {
            Err(e) => r == Err::<PowerEnvelopeLimits, HpdError>(e),
            Ok(spl_min) => exists|high: Result<PowerMilliwatts, HpdError>| #[trigger]
                watts_gave(s, ATTR_SPL@, "max_value"@, high) && match high {
                    Err(e) => r == Err::<PowerEnvelopeLimits, HpdError>(e),
                    Ok(spl_max) => r is Ok && boost_ranges_read(s, spl_min, spl_max, r->Ok_0),
                },
        }
}

/// Whether the envelope in force was read as `r`, rail by rail.
pub open spec fn target_read<S: SysfsIo>(s: &S, r: Result<PowerEnvelopeTarget, HpdError>) -> bool {
    exists|a: Result<PowerMilliwatts, HpdError>| #[trigger]
        watts_gave(s, ATTR_SPL@, "current_value"@, a) && match a {
            Err(e) => r == Err::<PowerEnvelopeTarget, HpdError>(e),
            Ok(spl) => exists|b: Result<PowerMilliwatts, HpdError>| #[trigger]
                watts_gave(s, ATTR_SPPT@, "current_value"@, b) && match b {
                    Err(e) => r == Err::<PowerEnvelopeTarget, HpdError>(e),
                    Ok(sppt) => exists|c: Result<PowerMilliwatts, HpdError>| #[trigger]
                        watts_gave(s, ATTR_FPPT@, "current_value"@, c) && match c {
                            Err(e) => r == Err::<PowerEnvelopeTarget, HpdError>(e),
                            Ok(fppt) => r == Ok::<PowerEnvelopeTarget, HpdError>(
                                PowerEnvelopeTarget { spl, sppt, fppt: Some(fppt) },
                            ),
                        },
                },
        }
}

/// Whether the requests from `from` up to `to` programmed an envelope and ended
/// in `r`: the sustained limit first, then the boost rails, each of which gets a
/// second try; the first rail that fails for good ends it. There are no other
/// requests.
pub open spec fn target_set<S: SysfsIo>(
    s: &S,
    log: Seq<Entry>,
    from: int,
    to: int,
    target: PowerEnvelopeTarget,
    r: Result<(), HpdError>,
) -> bool {
    &&& rail_write_at(s, log, from, ATTR_SPL@, target.spl)
    &&& match journal::result_at(log, from) {
        Err(_) => to == from + 1 && r == journal::result_at(log, from),
        Ok(()) => exists|at: int, b: Result<(), HpdError>| #[trigger]
            settled_write_ended(s, log, from + 1, at, ATTR_SPPT@, target.sppt, b) && match b {
                Err(_) => to == at && r == b,
                Ok(()) => match target.fppt {
                    Some(fppt) => settled_write_ended(s, log, at, to, ATTR_FPPT@, fppt, r),
                    None => to == at && r is Ok,
                },
            },
    }
}

fn write_watts<S: SysfsIo>(files: &mut Journal<S>, attr: &str, target_mw: PowerMilliwatts) -> (r:
    Result<(), HpdError>)
    ensures
        final(files).files() == old(files).files(),
        journal::goes_on(old(files).log(), final(files).log()),
        final(files).log().len() == old(files).log().len() + 1,
        rail_write_at(
            old(files).files(),
            final(files).log(),
            old(files).log().len() as int,
            attr@,
            target_mw,
        ),
        r == journal::result_at(final(files).log(), old(files).log().len() as int),
{
    let path = make_value_path(attr, "current_value");
    let mut value = String::new();
    text::push_dec(&mut value, target_mw.as_watts() as u64);
    assert(value@ =~= text::dec(target_mw.watts()));
    files.write(path.as_str(), value.as_str())
}

fn write_watts_with_settle_retry<S: SysfsIo>(
    files: &mut Journal<S>,
    attr: &str,
    target_mw: PowerMilliwatts,
) -> (r: Result<(), HpdError>)
    ensures
        final(files).files() == old(files).files(),
        journal::goes_on(old(files).log(), final(files).log()),
        settled_write_ended(
            old(files).files(),
            final(files).log(),
            old(files).log().len() as int,
            final(files).log().len() as int,
            attr@,
            target_mw,
            r,
        ),
{
    match write_watts(files, attr, target_mw) {
        Ok(()) => Ok(()),
        Err(_) => {
            files.wait(SETTLE_RETRY_DELAY_MS);
            write_watts(files, attr, target_mw)
        },
    }
}

/// Program an envelope.
pub fn program<S: SysfsIo>(files: &mut Journal<S>, target: &PowerEnvelopeTarget) -> (r: Result<
    (),
    HpdError,
>)
    ensures
        final(files).files() == old(files).files(),
        journal::goes_on(old(files).log(), final(files).log()),
        target_set(
            old(files).files(),
            final(files).log(),
            old(files).log().len() as int,
            final(files).log().len() as int,
            *target,
            r,
        ),
{
    let ghost s = files.files();
    let ghost from = files.log().len() as int;
    let a = write_watts(files, ATTR_SPL, target.spl);
    if a.is_err() {
        return a;
    }
    let b = write_watts_with_settle_retry(files, ATTR_SPPT, target.sppt);
    let ghost at = files.log().len() as int;
    let r = match b {
        Err(e) => Err(e),
        Ok(()) => match target.fppt {
            Some(fppt) => write_watts_with_settle_retry(files, ATTR_FPPT, fppt),
            None => Ok(()),
        },
    };
    assert(settled_write_ended(s, files.log(), from + 1, at, ATTR_SPPT@, target.sppt, b));
    r
}

/// The power envelope of an ASUS handheld.
pub struct AsusPowerBackend<S: SysfsIo> {
    pub sysfs: S,
}

impl<S: SysfsIo> AsusPowerBackend<S> {
    pub fn new(sysfs: S) -> (r: Self)
        ensures
            r.sysfs == sysfs,
    {
        AsusPowerBackend { sysfs }
    }

    fn read_watts(&self, attr: &str, leaf: &str) -> (r: Result<PowerMilliwatts, HpdError>)
        ensures
            watts_gave(&self.sysfs, attr@, leaf@, r),
    {
        let path = make_value_path(attr, leaf);
        let raw = sysfs::read(&self.sysfs, path.as_str());
        parse_watts(raw, path.as_str())
    }
}

impl<S: SysfsIo> PowerEnvelope for AsusPowerBackend<S> {
    fn get_limits(&self) -> (r: Result<PowerEnvelopeLimits, HpdError>)
        ensures
            limits_read(&self.sysfs, r),
    {
        let low = self.read_watts(ATTR_SPL, "min_value");
        let ghost low_read = low;
        let spl_min = match low {
            Ok(mw) => mw,
            Err(e) => {
                assert(watts_gave(&self.sysfs, ATTR_SPL@, "min_value"@, low_read));
                return Err(e);
            },
        };
        let high = self.read_watts(ATTR_SPL, "max_value");
        let ghost high_read = high;
        let spl_max = match high {
            Ok(mw) => mw,
            Err(e) => {
                assert(watts_gave(&self.sysfs, ATTR_SPL@, "min_value"@, low_read));
                assert(watts_gave(&self.sysfs, ATTR_SPL@, "max_value"@, high_read));
                return Err(e);
            },
        };
        let a = self.read_watts(ATTR_SPPT, "min_value");
        let b = self.read_watts(ATTR_SPPT, "max_value");
        let c = self.read_watts(ATTR_FPPT, "min_value");
        let d = self.read_watts(ATTR_FPPT, "max_value");
        let ghost (ga, gb, gc, gd) = (a, b, c, d);
        let limits = PowerEnvelopeLimits {
            spl_min,
            spl_max,
            sppt_min: read_or(a, ASUS_DEFAULT_SPPT_MIN_MW),
            sppt_max: read_or(b, ASUS_DEFAULT_SPPT_MAX_MW),
            fppt_min: read_or(c, ASUS_DEFAULT_FPPT_MIN_MW),
            fppt_max: read_or(d, ASUS_DEFAULT_FPPT_MAX_MW),
        };
        proof {
            assert(watts_gave(&self.sysfs, ATTR_SPPT@, "min_value"@, ga));
            assert(watts_gave(&self.sysfs, ATTR_SPPT@, "max_value"@, gb));
            assert(watts_gave(&self.sysfs, ATTR_FPPT@, "min_value"@, gc));
            assert(watts_gave(&self.sysfs, ATTR_FPPT@, "max_value"@, gd));
            assert(boost_ranges_read(&self.sysfs, spl_min, spl_max, limits));
            assert(watts_gave(&self.sysfs, ATTR_SPL@, "min_value"@, low_read));
            assert(watts_gave(&self.sysfs, ATTR_SPL@, "max_value"@, high_read));
        }
        Ok(limits)
    }

    fn get_target(&self) -> (r: Result<PowerEnvelopeTarget, HpdError>)
        ensures
            target_read(&self.sysfs, r),
    {
        let a = self.read_watts(ATTR_SPL, "current_value");
        let ghost ga = a;
        assert(watts_gave(&self.sysfs, ATTR_SPL@, "current_value"@, ga));
        let spl = match a {
            Ok(mw) => mw,
            Err(e) => {
                return Err(e);
            },
        };
        let b = self.read_watts(ATTR_SPPT, "current_value");
        let ghost gb = b;
        assert(watts_gave(&self.sysfs, ATTR_SPPT@, "current_value"@, gb));
        let sppt = match b {
            Ok(mw) => mw,
            Err(e) => {
                return Err(e);
            },
        };
        let c = self.read_watts(ATTR_FPPT, "current_value");
        let ghost gc = c;
        assert(watts_gave(&self.sysfs, ATTR_FPPT@, "current_value"@, gc));
        let fppt = match c {
            Ok(mw) => mw,
            Err(e) => {
                return Err(e);
            },
        };
        Ok(PowerEnvelopeTarget { spl, sppt, fppt: Some(fppt) })
    }

    fn set_target(&self, target: &PowerEnvelopeTarget) -> (r: Result<(), HpdError>)
        ensures
            exists|log: Seq<Entry>| #[trigger]
                target_set(&self.sysfs, log, 0, log.len() as int, *target, r),
    {
        let mut files = Journal::new(&self.sysfs);
        program(&mut files, target)
    }
}

// ---------------------------------------------------------------------------
// Laws
// ---------------------------------------------------------------------------

/// The file of one value of a rail.
pub open spec fn rail_file(rail: Seq<char>, leaf: Seq<char>) -> Seq<char> {
    "/sys/class/firmware-attributes/asus-armoury/attributes"@ + "/"@ + rail + "/"@ + leaf
}

/// Whether a file of whole watts told of this power.
pub open spec fn tells<S: SysfsIo>(s: &S, path: Seq<char>, mw: PowerMilliwatts) -> bool {
    exists|t: String| #[trigger]
        sysfs::read_gave(s, path, Ok(t)) && (text::unsigned_value(t@) matches Some(w) && mw.0 == w
            * 1000)
}

/// What is written to a rail is read from it again: the watts of it, and all of it where it
/// is whole watts.
pub proof fn a_written_rail_is_read_again(
    mw: PowerMilliwatts,
    t: String,
    path: &str,
    r: Result<PowerMilliwatts, HpdError>,
)
    requires
        t@ == text::dec(mw.watts()),
        call_ensures(parse_watts, (Ok(t), path), r),
    ensures
        r matches Ok(read) && read.0 <= mw.0 < read.0 + 1000 && (mw.0 % 1000 == 0 ==> read == mw),
{
    text::decimals_are_read_back(mw.watts());
}

/// An envelope in force is read rail by rail, each from its own file.
pub proof fn rails_are_read_from_their_files<S: SysfsIo>(
    backend: AsusPowerBackend<S>,
    r: Result<PowerEnvelopeTarget, HpdError>,
)
    requires
        call_ensures(<AsusPowerBackend<S> as PowerEnvelope>::get_target, (&backend,), r),
    ensures
        r matches Ok(target) ==> {
            &&& tells(&backend.sysfs, rail_file("ppt_pl1_spl"@, "current_value"@), target.spl)
            &&& tells(&backend.sysfs, rail_file("ppt_pl2_sppt"@, "current_value"@), target.sppt)
            &&& target.fppt matches Some(fppt) && tells(
                &backend.sysfs,
                rail_file("ppt_pl3_fppt"@, "current_value"@),
                fppt,
            )
        },
{
    let s = &backend.sysfs;
    if let Ok(target) = r {
        lemma_tells(s, "ppt_pl1_spl"@, "current_value"@, target.spl);
        lemma_tells(s, "ppt_pl2_sppt"@, "current_value"@, target.sppt);
        lemma_tells(s, "ppt_pl3_fppt"@, "current_value"@, target.fppt->0);
    }
}

proof fn lemma_tells<S: SysfsIo>(s: &S, rail: Seq<char>, leaf: Seq<char>, mw: PowerMilliwatts)
    requires
        watts_gave(s, rail, leaf, Ok(mw)),
    ensures
        tells(s, rail_file(rail, leaf), mw),
{
    let path = value_path(rail, leaf);
    let raw = choose|raw: Result<String, SysfsError>| #[trigger]
        sysfs::read_gave(s, path, raw) && watts_from(raw, path, Ok(mw));
    let t = raw->Ok_0;
    assert(raw == Ok::<String, SysfsError>(t));
    assert(rail_file(rail, leaf) == path);
}

/// The limits of the hardware are read limit by limit, each from its own file. Only a boost
/// limit may be missing, and stands at a default then.
pub proof fn limits_are_read_from_their_files<S: SysfsIo>(
    backend: AsusPowerBackend<S>,
    r: Result<PowerEnvelopeLimits, HpdError>,
)
    requires
        call_ensures(<AsusPowerBackend<S> as PowerEnvelope>::get_limits, (&backend,), r),
    ensures
        r matches Ok(limits) ==> {
            let s = &backend.sysfs;
            &&& tells(s, rail_file("ppt_pl1_spl"@, "min_value"@), limits.spl_min)
            &&& tells(s, rail_file("ppt_pl1_spl"@, "max_value"@), limits.spl_max)
            &&& tells(s, rail_file("ppt_pl2_sppt"@, "min_value"@), limits.sppt_min)
                || limits.sppt_min.0 == 13_000
            &&& tells(s, rail_file("ppt_pl2_sppt"@, "max_value"@), limits.sppt_max)
                || limits.sppt_max.0 == 43_000
            &&& tells(s, rail_file("ppt_pl3_fppt"@, "min_value"@), limits.fppt_min)
                || limits.fppt_min.0 == 19_000
            &&& tells(s, rail_file("ppt_pl3_fppt"@, "max_value"@), limits.fppt_max)
                || limits.fppt_max.0 == 53_000
        },
{
    let s = &backend.sysfs;
    if let Ok(limits) = r {
        lemma_tells(s, "ppt_pl1_spl"@, "min_value"@, limits.spl_min);
        lemma_tells(s, "ppt_pl1_spl"@, "max_value"@, limits.spl_max);
        let (a, b, c, d) = choose|
            a: Result<PowerMilliwatts, HpdError>,
            b: Result<PowerMilliwatts, HpdError>,
            c: Result<PowerMilliwatts, HpdError>,
            d: Result<PowerMilliwatts, HpdError>,
        |
            {
                &&& #[trigger] watts_gave(s, ATTR_SPPT@, "min_value"@, a)
                &&& #[trigger] watts_gave(s, ATTR_SPPT@, "max_value"@, b)
                &&& #[trigger] watts_gave(s, ATTR_FPPT@, "min_value"@, c)
                &&& #[trigger] watts_gave(s, ATTR_FPPT@, "max_value"@, d)
                &&& limits == PowerEnvelopeLimits {
                    spl_min: limits.spl_min,
                    spl_max: limits.spl_max,
                    sppt_min: reading_or(a, ASUS_DEFAULT_SPPT_MIN_MW),
                    sppt_max: reading_or(b, ASUS_DEFAULT_SPPT_MAX_MW),
                    fppt_min: reading_or(c, ASUS_DEFAULT_FPPT_MIN_MW),
                    fppt_max: reading_or(d, ASUS_DEFAULT_FPPT_MAX_MW),
                }
            };
        if a is Ok {
            lemma_tells(s, "ppt_pl2_sppt"@, "min_value"@, a->Ok_0);
        }
        if b is Ok {
            lemma_tells(s, "ppt_pl2_sppt"@, "max_value"@, b->Ok_0);
        }
        if c is Ok {
            lemma_tells(s, "ppt_pl3_fppt"@, "min_value"@, c->Ok_0);
        }
        if d is Ok {
            lemma_tells(s, "ppt_pl3_fppt"@, "max_value"@, d->Ok_0);
        }
    }
}

/// Whether some request of a record wrote this to the file at `path`, and it was taken.
pub open spec fn told<S: SysfsIo>(s: &S, log: Seq<Entry>, path: Seq<char>, value: Seq<char>) -> bool {
    exists|i: int| #[trigger] journal::write_at(s, log, i, path, value) && journal::result_at(
        log,
        i,
    ) is Ok
}

/// Programming that succeeds has told every rail of the envelope its own watts.
pub proof fn every_rail_is_told_its_watts<S: SysfsIo>(
    backend: AsusPowerBackend<S>,
    target: PowerEnvelopeTarget,
)
    requires
        call_ensures(
            <AsusPowerBackend<S> as PowerEnvelope>::set_target,
            (&backend, &target),
            Ok(()),
        ),
    ensures
        exists|log: Seq<Entry>| #[trigger]
            journal::goes_on(log, log) && {
                let s = &backend.sysfs;
                &&& told(
                    s,
                    log,
                    rail_file("ppt_pl1_spl"@, "current_value"@),
                    text::dec(target.spl.0 as nat / 1000),
                )
                &&& told(
                    s,
                    log,
                    rail_file("ppt_pl2_sppt"@, "current_value"@),
                    text::dec(target.sppt.0 as nat / 1000),
                )
                &&& target.fppt matches Some(fppt) ==> told(
                    s,
                    log,
                    rail_file("ppt_pl3_fppt"@, "current_value"@),
                    text::dec(fppt.0 as nat / 1000),
                )
            },
{
    let s = &backend.sysfs;
    let log = choose|log: Seq<Entry>| #[trigger]
        target_set(s, log, 0, log.len() as int, target, Ok(()));
    assert(journal::goes_on(log, log));
    assert(rail_write_at(s, log, 0, "ppt_pl1_spl"@, target.spl));
    let (at, b) = choose|at: int, b: Result<(), HpdError>| #[trigger]
        settled_write_ended(s, log, 1, at, ATTR_SPPT@, target.sppt, b) && match b {
            Err(_) => log.len() == at && b is Ok,
            Ok(()) => match target.fppt {
                Some(fppt) => settled_write_ended(
                    s,
                    log,
                    at,
                    log.len() as int,
                    ATTR_FPPT@,
                    fppt,
                    Ok(()),
                ),
                None => log.len() == at,
            },
        };
    lemma_settled_told(s, log, 1, at, "ppt_pl2_sppt"@, target.sppt);
    if let Some(fppt) = target.fppt {
        lemma_settled_told(s, log, at, log.len() as int, "ppt_pl3_fppt"@, fppt);
    }
}

proof fn lemma_settled_told<S: SysfsIo>(
    s: &S,
    log: Seq<Entry>,
    from: int,
    to: int,
    rail: Seq<char>,
    mw: PowerMilliwatts,
)
    requires
        settled_write_ended(s, log, from, to, rail, mw, Ok(())),
    ensures
        told(s, log, rail_file(rail, "current_value"@), text::dec(mw.0 as nat / 1000)),
{
    let path = rail_file(rail, "current_value"@);
    let value = text::dec(mw.0 as nat / 1000);
    assert(journal::write_at(s, log, from, path, value));
    if journal::result_at(log, from) is Err {
        assert(journal::write_at(s, log, from + 2, path, value));
    }
}

} // verus!
