//! The GPU clock range of ASUS handhelds, through the overdrive table of the
//! `amdgpu` driver.

use crate::asus::hwmon;
use crate::asus::hwmon::HwmonCache;
use crate::asus::thermal::GPU_HWMON_NAME;
use crate::error;
use crate::error::{BackendError, HpdError, SysfsError};
use crate::gpu_clock::{GpuClockConstraints, GpuClockRange, GpuClockRangeControl};
use crate::journal;
use crate::journal::{Entry, Journal};
use crate::sysfs;
use crate::sysfs::SysfsIo;
use crate::text;
use vstd::prelude::*;

verus! {

pub const MODE_MANUAL: &'static str = "manual";

pub const MODE_AUTO: &'static str = "auto";

// ---------------------------------------------------------------------------
// The overdrive table
// ---------------------------------------------------------------------------

/// The clock that a word begins with, such as 600 for `600Mhz`.
pub open spec fn mhz_of(word: Seq<char>) -> Option<u32> {
    match text::bounded_value(text::leading_digits(word), u32::MAX as nat) {
        Some(v) => Some(v as u32),
        None => None,
    }
}

/// The clock that a word begins with.
pub fn mhz_value(token: &str) -> (r: Option<u32>)
    ensures
        r == mhz_of(token@),
{
    match text::parse_unsigned(text::take_digits(token), u32::MAX as u64) {
        Some(v) => Some(v as u32),
        None => None,
    }
}

/// The clocks among words, in order.
pub open spec fn clocks_among(words: Seq<Seq<char>>) -> Seq<u32>
    decreases words.len(),
{
    if words.len() == 0 {
        Seq::empty()
    } else {
        let rest = clocks_among(words.drop_last());
        match mhz_of(words.last()) {
            Some(v) => rest.push(v),
            None => rest,
        }
    }
}

fn collect_clocks(words: &Vec<String>) -> (r: Vec<u32>)
    ensures
        r@ == clocks_among(text::texts(words@)),
{
    let ghost all = text::texts(words@);
    let mut out: Vec<u32> = Vec::new();
    let mut i: usize = 0;
    while i < words.len()
        invariant
            i <= words.len(),
            all == text::texts(words@),
            out@ == clocks_among(all.take(i as int)),
        decreases words.len() - i,
    {
        assert(all.take(i + 1).drop_last() =~= all.take(i as int));
        if let Some(v) = mhz_value(words[i].as_str()) {
            out.push(v);
        }
        i = i + 1;
    }
    assert(all.take(i as int) =~= all);
    out
}

/// The range on one line of the table: a line `SCLK:` with exactly two clocks.
pub open spec fn range_on_line(line: Seq<char>) -> Option<GpuClockConstraints> {
    let t = text::trimmed(line);
    let clocks = clocks_among(text::words(t.skip("SCLK:"@.len() as int)));
    if text::has_prefix(t, "SCLK:"@) && clocks.len() == 2 {
        Some(GpuClockConstraints { range_min_mhz: clocks[0], range_max_mhz: clocks[1] })
    } else {
        None
    }
}

/// The first range on the lines from `from` on.
pub open spec fn first_range(lines: Seq<Seq<char>>, from: int) -> Option<GpuClockConstraints>
    decreases lines.len() - from,
{
    if from < 0 || from >= lines.len() {
        None
    } else {
        match range_on_line(lines[from]) {
            Some(range) => Some(range),
            None => first_range(lines, from + 1),
        }
    }
}

/// The clocks that the device accepts, by its overdrive table.
pub open spec fn accepted_range(table: Seq<char>) -> Option<GpuClockConstraints> {
    first_range(text::lines_of(table), 0)
}

/// The clocks that the device accepts, by its overdrive table.
pub fn parse_accepted_range(table: &str) -> (r: Option<GpuClockConstraints>)
    ensures
        r == accepted_range(table@),
{
    let lines = text::lines(table);
    let ghost all = text::texts(lines@);
    let mut i: usize = 0;
    while i < lines.len()
        invariant
            i <= lines.len(),
            all == text::texts(lines@),
            all == text::lines_of(table@),
            first_range(all, i as int) == first_range(all, 0),
        decreases lines.len() - i,
    {
        let line = text::trim(lines[i].as_str());
        if let Some(rest) = text::strip_prefix(line, "SCLK:") {
            let words = text::split_whitespace(rest);
            let clocks = collect_clocks(&words);
            if clocks.len() == 2 {
                return Some(
                    GpuClockConstraints { range_min_mhz: clocks[0], range_max_mhz: clocks[1] },
                );
            }
        }
        i = i + 1;
    }
    None
}

/// The clock that the first word of `rest` begins with.
pub open spec fn first_clock(rest: Seq<char>) -> Option<u32> {
    let words = text::words(rest);
    if words.len() > 0 {
        mhz_of(words[0])
    } else {
        None
    }
}

fn parse_first_clock(rest: &str) -> (r: Option<u32>)
    ensures
        r == first_clock(rest@),
{
    let words = text::split_whitespace(rest);
    proof {
        assert(text::words(rest@) == text::texts(words@));
    }
    if words.len() == 0 {
        None
    } else {
        assert(text::texts(words@)[0] == words@[0]@);
        mhz_value(words[0].as_str())
    }
}

/// The bounds that the lines from `from` on set, given those set so far. Line
/// `0:` sets the lower and `1:` the upper one; the section `OD_RANGE` ends them.
pub open spec fn bounds_set(
    lines: Seq<Seq<char>>,
    from: int,
    low: Option<u32>,
    high: Option<u32>,
) -> (Option<u32>, Option<u32>)
    decreases lines.len() - from,
{
    if from < 0 || from >= lines.len() {
        (low, high)
    } else {
        let line = text::trimmed(lines[from]);
        if text::has_prefix(line, "OD_RANGE"@) {
            (low, high)
        } else if text::has_prefix(line, "0:"@) {
            bounds_set(lines, from + 1, first_clock(line.skip("0:"@.len() as int)), high)
        } else if text::has_prefix(line, "1:"@) {
            bounds_set(lines, from + 1, low, first_clock(line.skip("1:"@.len() as int)))
        } else {
            bounds_set(lines, from + 1, low, high)
        }
    }
}

/// The range that the table holds the clock to.
pub open spec fn committed_range(table: Seq<char>) -> Option<GpuClockRange> {
    match bounds_set(text::lines_of(table), 0, None, None) {
        (Some(min_mhz), Some(max_mhz)) => Some(GpuClockRange { min_mhz, max_mhz }),
        _ => None,
    }
}

/// The range that the table holds the clock to.
pub fn parse_committed_range(table: &str) -> (r: Option<GpuClockRange>)
    ensures
        r == committed_range(table@),
{
    let lines = text::lines(table);
    let ghost all = text::texts(lines@);
    let mut low: Option<u32> = None;
    let mut high: Option<u32> = None;
    let mut i: usize = 0;
    let mut done = false;
    while i < lines.len() && !done
        invariant
            i <= lines.len(),
            all == text::texts(lines@),
            !done ==> bounds_set(all, i as int, low, high) == bounds_set(all, 0, None, None),
            done ==> (low, high) == bounds_set(all, 0, None, None),
        decreases lines.len() - i,
    {
        let line = text::trim(lines[i].as_str());
        if text::strip_prefix(line, "OD_RANGE").is_some() {
            done = true;
        } else if let Some(rest) = text::strip_prefix(line, "0:") {
            low = parse_first_clock(rest);
        } else if let Some(rest) = text::strip_prefix(line, "1:") {
            high = parse_first_clock(rest);
        }
        i = i + 1;
    }
    match (low, high) {
        (Some(min_mhz), Some(max_mhz)) => Some(GpuClockRange { min_mhz, max_mhz }),
        _ => None,
    }
}

// ---------------------------------------------------------------------------
// Files
// ---------------------------------------------------------------------------

/// The file of the performance level.
pub open spec fn force_level_path(base: Seq<char>) -> Seq<char> {
    base + "/device/power_dpm_force_performance_level"@
}

/// The file of the overdrive table.
pub open spec fn od_path(base: Seq<char>) -> Seq<char> {
    base + "/device/pp_od_clk_voltage"@
}

fn make_force_level_path(base: &str) -> (r: String)
    ensures
        r@ == force_level_path(base@),
{
    let mut s = base.to_owned();
    s.append("/device/power_dpm_force_performance_level");
    s
}

fn make_od_path(base: &str) -> (r: String)
    ensures
        r@ == od_path(base@),
{
    let mut s = base.to_owned();
    s.append("/device/pp_od_clk_voltage");
    s
}

/// Whether the node of the GPU was found at `r`.
pub open spec fn gpu_gave<S: SysfsIo>(s: &S, r: Option<String>) -> bool {
    hwmon::hwmon_gave(s, GPU_HWMON_NAME@, r)
}

/// Whether `r` is the accepted range by the contents of the table's file.
pub open spec fn constraints_from(
    raw: Result<String, SysfsError>,
    r: Result<GpuClockConstraints, HpdError>,
) -> bool {
    match raw {
        Err(e) => r == Err::<GpuClockConstraints, HpdError>(HpdError::Sysfs(e)),
        Ok(t) => match accepted_range(t@) {
            Some(range) => r == Ok::<GpuClockConstraints, HpdError>(range),
            None => r is Err && sysfs::is_parse_failure(
                r->Err_0,
                "pp_od_clk_voltage_od_range"@,
                t@,
                "expected a `SCLK:` line inside `OD_RANGE`"@,
            ),
        },
    }
}

/// Whether `r` is the range in force by the contents of the table's file.
pub open spec fn committed_from(
    raw: Result<String, SysfsError>,
    r: Result<GpuClockRange, HpdError>,
) -> bool {
    match raw {
        Err(e) => r == Err::<GpuClockRange, HpdError>(HpdError::Sysfs(e)),
        Ok(t) => match committed_range(t@) {
            Some(range) => r == Ok::<GpuClockRange, HpdError>(range),
            None => r is Err && sysfs::is_parse_failure(
                r->Err_0,
                "pp_od_clk_voltage_od_sclk"@,
                t@,
                "expected `0:`/`1:` lines inside `OD_SCLK`"@,
            ),
        },
    }
}

/// The accepted range by the contents of the table's file.
pub fn parse_constraints(raw: Result<String, SysfsError>) -> (r: Result<
    GpuClockConstraints,
    HpdError,
>)
    ensures
        constraints_from(raw, r),
{
    match raw {
        Err(e) => Err(HpdError::Sysfs(e)),
        Ok(t) => match parse_accepted_range(t.as_str()) {
            Some(range) => Ok(range),
            None => Err(
                sysfs::parse_error(
                    "pp_od_clk_voltage_od_range",
                    t.as_str(),
                    "expected a `SCLK:` line inside `OD_RANGE`",
                ),
            ),
        },
    }
}

/// The range in force by the contents of the table's file.
pub fn parse_committed(raw: Result<String, SysfsError>) -> (r: Result<GpuClockRange, HpdError>)
    ensures
        committed_from(raw, r),
{
    match raw {
        Err(e) => Err(HpdError::Sysfs(e)),
        Ok(t) => match parse_committed_range(t.as_str()) {
            Some(range) => Ok(range),
            None => Err(
                sysfs::parse_error(
                    "pp_od_clk_voltage_od_sclk",
                    t.as_str(),
                    "expected `0:`/`1:` lines inside `OD_SCLK`",
                ),
            ),
        },
    }
}

/// Whether the accepted range was read as `r`.
pub open spec fn constraints_gave<S: SysfsIo>(
    s: &S,
    base: Seq<char>,
    r: Result<GpuClockConstraints, HpdError>,
) -> bool {
    exists|raw: Result<String, SysfsError>| #[trigger]
        sysfs::read_gave(s, od_path(base), raw) && constraints_from(raw, r)
}

/// Whether the range in force was read as `r`.
pub open spec fn committed_gave<S: SysfsIo>(
    s: &S,
    base: Seq<char>,
    r: Result<GpuClockRange, HpdError>,
) -> bool {
    exists|raw: Result<String, SysfsError>| #[trigger]
        sysfs::read_gave(s, od_path(base), raw) && committed_from(raw, r)
}

fn read_constraints<S: SysfsIo>(s: &S, base: &str) -> (r: Result<GpuClockConstraints, HpdError>)
    ensures
        constraints_gave(s, base@, r),
{
    let raw = sysfs::read(s, make_od_path(base).as_str());
    parse_constraints(raw)
}

fn read_committed<S: SysfsIo>(s: &S, base: &str) -> (r: Result<GpuClockRange, HpdError>)
    ensures
        committed_gave(s, base@, r),
{
    let raw = sysfs::read(s, make_od_path(base).as_str());
    parse_committed(raw)
}

// ---------------------------------------------------------------------------
// Programming a range
// ---------------------------------------------------------------------------

/// A range in words.
pub open spec fn range_text(range: GpuClockRange) -> Seq<char> {
    "GpuClockRange { min_mhz: "@ + text::dec(range.min_mhz as nat) + ", max_mhz: "@ + text::dec(
        range.max_mhz as nat,
    ) + " }"@
}

/// Why a range that did not take is refused.
pub open spec fn mismatch_text(range: GpuClockRange, committed: GpuClockRange) -> Seq<char> {
    "gpu clock read-back mismatch: wrote "@ + range_text(range) + ", driver reports "@ + range_text(
        committed,
    )
}

fn range_words(range: &GpuClockRange) -> (r: String)
    ensures
        r@ == range_text(*range),
{
    let mut s = "GpuClockRange { min_mhz: ".to_owned();
    text::push_dec(&mut s, range.min_mhz as u64);
    s.append(", max_mhz: ");
    text::push_dec(&mut s, range.max_mhz as u64);
    s.append(" }");
    s
}

/// Whether `r` is the verdict on a range that was written and read back.
pub open spec fn verdict(
    range: GpuClockRange,
    committed: Result<GpuClockRange, HpdError>,
    r: Result<(), HpdError>,
) -> bool {
    match committed {
        Err(e) => r == Err::<(), HpdError>(e),
        Ok(held) => if held == range {
            r is Ok
        } else {
            r matches Err(HpdError::Backend(BackendError::Other(words))) && words@ == mismatch_text(
                range,
                held,
            )
        },
    }
}

/// Hold what was read back against what was written.
pub fn judge(range: &GpuClockRange, committed: Result<GpuClockRange, HpdError>) -> (r: Result<
    (),
    HpdError,
>)
    ensures
        verdict(*range, committed, r),
{
    match committed {
        Err(e) => Err(e),
        Ok(held) => {
            if held != *range {
                let mut s = "gpu clock read-back mismatch: wrote ".to_owned();
                s.append(range_words(range).as_str());
                s.append(", driver reports ");
                s.append(range_words(&held).as_str());
                return Err(HpdError::Backend(BackendError::Other(s)));
            }
            Ok(())
        },
    }
}

/// What is written to the table to set a bound.
pub open spec fn bound_command(bound: Seq<char>, mhz: u32) -> Seq<char> {
    "s "@ + bound + " "@ + text::dec(mhz as nat)
}

/// The writes that set a range, in order: both bounds, and only then the command
/// that commits them.
pub open spec fn range_commands(base: Seq<char>, range: GpuClockRange) -> Seq<
    (Seq<char>, Seq<char>),
> {
    seq![
        (od_path(base), bound_command("0"@, range.min_mhz)),
        (od_path(base), bound_command("1"@, range.max_mhz)),
        (od_path(base), "c"@),
    ]
}

/// The writes that program a range, in order, where the performance level is
/// `level`: manual control unless that is it already, then the range.
pub open spec fn programming_commands(
    base: Seq<char>,
    level: Seq<char>,
    range: GpuClockRange,
) -> Seq<(Seq<char>, Seq<char>)> {
    if text::trimmed(level) == MODE_MANUAL@ {
        range_commands(base, range)
    } else {
        seq![(force_level_path(base), MODE_MANUAL@)] + range_commands(base, range)
    }
}

/// The writes that hand the clock back to the firmware, in order: the table is
/// reset while the level is still manual.
pub open spec fn release_commands(base: Seq<char>) -> Seq<(Seq<char>, Seq<char>)> {
    seq![(od_path(base), "r"@), (force_level_path(base), MODE_AUTO@)]
}

fn make_bound_command(bound: &str, mhz: u32) -> (r: String)
    ensures
        r@ == bound_command(bound@, mhz),
{
    let mut s = "s ".to_owned();
    s.append(bound);
    s.append(" ");
    text::push_dec(&mut s, mhz as u64);
    s
}

/// The writes that program a range, in order, where the performance level is
/// `level`.
pub fn programming_writes(base: &str, level: &str, range: &GpuClockRange) -> (r: Vec<
    (String, String),
>)
    ensures
        journal::pairs(r@) == programming_commands(base@, level@, *range),
{
    let mut writes: Vec<(String, String)> = Vec::new();
    if !text::same(text::trim(level), MODE_MANUAL) {
        writes.push((make_force_level_path(base), MODE_MANUAL.to_owned()));
    }
    writes.push((make_od_path(base), make_bound_command("0", range.min_mhz)));
    writes.push((make_od_path(base), make_bound_command("1", range.max_mhz)));
    writes.push((make_od_path(base), "c".to_owned()));
    assert(journal::pairs(writes@) =~= programming_commands(base@, level@, *range));
    writes
}

/// The writes that hand the clock back to the firmware, in order.
pub fn release_writes(base: &str) -> (r: Vec<(String, String)>)
    ensures
        journal::pairs(r@) == release_commands(base@),
{
    let mut writes: Vec<(String, String)> = Vec::new();
    writes.push((make_od_path(base), "r".to_owned()));
    writes.push((make_force_level_path(base), MODE_AUTO.to_owned()));
    assert(journal::pairs(writes@) =~= release_commands(base@));
    writes
}

/// Whether the requests from `from` up to `to` programmed a range and ended in
/// `r`: the level is read; the writes are made in order, up to the first that
/// fails; then the range in force is read, and must be the one that was asked
/// for. There are no other requests.
pub open spec fn range_programmed<S: SysfsIo>(
    s: &S,
    log: Seq<Entry>,
    from: int,
    to: int,
    base: Seq<char>,
    range: GpuClockRange,
    r: Result<(), HpdError>,
) -> bool {
    &&& journal::read_at(s, log, from, force_level_path(base))
    &&& match journal::answer_at(log, from) {
        Err(e) => to == from + 1 && r == Err::<(), HpdError>(HpdError::Sysfs(e)),
        Ok(level) => {
            let writes = programming_commands(base, level@, range);
            let written = from + 1 + writes.len();
            ||| r is Err && journal::wrote_in_order(s, log, from + 1, to, writes, r)
            ||| {
                &&& journal::wrote_in_order(s, log, from + 1, written, writes, Ok(()))
                &&& journal::read_at(s, log, written, od_path(base))
                &&& to == written + 1
                &&& exists|held: Result<GpuClockRange, HpdError>| #[trigger]
                    committed_from(journal::answer_at(log, written), held) && verdict(
                        range,
                        held,
                        r,
                    )
            }
        },
    }
}

fn program_range<S: SysfsIo>(files: &mut Journal<S>, base: &str, range: &GpuClockRange) -> (r:
    Result<(), HpdError>)
    ensures
        final(files).files() == old(files).files(),
        journal::goes_on(old(files).log(), final(files).log()),
        range_programmed(
            old(files).files(),
            final(files).log(),
            old(files).log().len() as int,
            final(files).log().len() as int,
            base@,
            *range,
            r,
        ),
{
    let level = match files.read(make_force_level_path(base).as_str()) {
        Ok(level) => level,
        Err(e) => {
            return Err(HpdError::Sysfs(e));
        },
    };
    let writes = programming_writes(base, level.as_str(), range);
    let w = files.write_all(&writes);
    if w.is_err() {
        return w;
    }
    let raw = files.read(make_od_path(base).as_str());
    let ghost answer = raw;
    let held = parse_committed(raw);
    assert(committed_from(answer, held));
    judge(range, held)
}

/// Whether the requests from `from` up to `to` looked for the GPU and found its
/// node at `node`. They are reads.
pub open spec fn gpu_found<S: SysfsIo>(
    s: &S,
    log: Seq<Entry>,
    from: int,
    to: int,
    node: Option<String>,
) -> bool {
    gpu_gave(s, node) && journal::only_reads(log, from, to)
}

/// Whether the requests from `from` up to `to` handed the clock back to the
/// firmware and ended in `r`.
pub open spec fn reset_ended<S: SysfsIo>(
    s: &S,
    log: Seq<Entry>,
    from: int,
    to: int,
    r: Result<(), HpdError>,
) -> bool {
    exists|at: int, node: Option<String>| #[trigger]
        gpu_found(s, log, from, at, node) && match node {
            None => to == at && r == Err::<(), HpdError>(HpdError::FeatureUnsupported),
            Some(base) => journal::wrote_in_order(s, log, at, to, release_commands(base@), r),
        }
}

/// Whether the requests from `from` up to `to` held the clock to a range and
/// ended in `r`. The accepted range is read first. A range that the device does
/// not accept is refused, and nothing is written; where programming fails, the
/// clock is handed back to the firmware.
pub open spec fn range_set<S: SysfsIo>(
    s: &S,
    log: Seq<Entry>,
    from: int,
    to: int,
    range: GpuClockRange,
    r: Result<(), HpdError>,
) -> bool {
    exists|at: int, node: Option<String>| #[trigger]
        gpu_found(s, log, from, at, node) && match node {
            None => to == at && r == Err::<(), HpdError>(HpdError::FeatureUnsupported),
            Some(base) => journal::read_at(s, log, at, od_path(base@)) && exists|
                c: Result<GpuClockConstraints, HpdError>,
            | #[trigger]
                constraints_from(journal::answer_at(log, at), c) && match c {
                    Err(e) => to == at + 1 && r == Err::<(), HpdError>(e),
                    Ok(constraints) => match range.defect(constraints) {
                        Some(words) => to == at + 1 && r is Err && error::is_violation(
                            r->Err_0,
                            words,
                        ),
                        None => exists|done: int| #[trigger]
                            range_programmed(s, log, at + 1, done, base@, range, r) && match r {
                                Ok(()) => to == done,
                                Err(_) => exists|back: Result<(), HpdError>| #[trigger]
                                    reset_ended(s, log, done, to, back),
                            },
                    },
                },
        }
}

/// Hand the clock back to the firmware.
pub fn release<S: SysfsIo>(cache: &HwmonCache, files: &mut Journal<S>) -> (r: Result<(), HpdError>)
    ensures
        final(files).files() == old(files).files(),
        journal::goes_on(old(files).log(), final(files).log()),
        reset_ended(
            old(files).files(),
            final(files).log(),
            old(files).log().len() as int,
            final(files).log().len() as int,
            r,
        ),
{
    let ghost from = files.log().len() as int;
    let node = cache.find(files, GPU_HWMON_NAME);
    let ghost at = files.log().len() as int;
    let ghost found = node;
    let r = match node {
        None => Err(HpdError::FeatureUnsupported),
        Some(base) => files.write_all(&release_writes(base.as_str())),
    };
    assert(gpu_found(files.files(), files.log(), from, at, found));
    r
}

/// Hold the clock to a range.
pub fn hold_to_range<S: SysfsIo>(
    cache: &HwmonCache,
    files: &mut Journal<S>,
    range: &GpuClockRange,
) -> (r: Result<(), HpdError>)
    ensures
        final(files).files() == old(files).files(),
        journal::goes_on(old(files).log(), final(files).log()),
        range_set(
            old(files).files(),
            final(files).log(),
            old(files).log().len() as int,
            final(files).log().len() as int,
            *range,
            r,
        ),
{
    let ghost from = files.log().len() as int;
    let node = cache.find(files, GPU_HWMON_NAME);
    let ghost at = files.log().len() as int;
    let ghost found = node;
    assert(gpu_found(files.files(), files.log(), from, at, found));
    let base = match node {
        Some(base) => base,
        None => {
            return Err(HpdError::FeatureUnsupported);
        },
    };
    let raw = files.read(make_od_path(base.as_str()).as_str());
    let ghost answer = raw;
    let c = parse_constraints(raw);
    let ghost read = c;
    assert(constraints_from(answer, read));
    assert(gpu_found(files.files(), files.log(), from, at, found));
    let constraints = match c {
        Ok(constraints) => constraints,
        Err(e) => {
            return Err(e);
        },
    };
    if let Err(e) = range.validate_against(&constraints) {
        return Err(e);
    }
    let r = program_range(files, base.as_str(), range);
    let ghost done = files.log().len() as int;
    let ghost programmed = files.log();
    if r.is_err() {
        let back = release(cache, files);
        assert(reset_ended(files.files(), files.log(), done, files.log().len() as int, back));
    }
    proof {
        assert(gpu_found(files.files(), files.log(), from, at, found));
        lemma_programming_stays(files.files(), programmed, files.log(), at + 1, done, base@, *range, r);
    }
    r
}

/// What was asked stays asked.
proof fn lemma_programming_stays<S: SysfsIo>(
    s: &S,
    before: Seq<Entry>,
    log: Seq<Entry>,
    from: int,
    to: int,
    base: Seq<char>,
    range: GpuClockRange,
    r: Result<(), HpdError>,
)
    requires
        journal::goes_on(before, log),
        range_programmed(s, before, from, to, base, range, r),
    ensures
        range_programmed(s, log, from, to, base, range, r),
{
}

/// A range that breaks a rule is refused without a write: the requests are reads.
pub proof fn refused_range_writes_nothing<S: SysfsIo>(
    s: &S,
    log: Seq<Entry>,
    from: int,
    to: int,
    range: GpuClockRange,
    r: Result<(), HpdError>,
)
    requires
        range_set(s, log, from, to, range, r),
        r matches Err(HpdError::InvariantViolation(_)),
    ensures
        journal::only_reads(log, from, to),
{
}

/// Whether the range in force was found to be `r`: nothing where the firmware
/// is in charge.
pub open spec fn range_gave<S: SysfsIo>(s: &S, r: Result<Option<GpuClockRange>, HpdError>) -> bool {
    exists|node: Option<String>| #[trigger]
        gpu_gave(s, node) && match node {
            None => r == Err::<Option<GpuClockRange>, HpdError>(HpdError::FeatureUnsupported),
            Some(base) => exists|level: Result<String, SysfsError>| #[trigger]
                sysfs::read_gave(s, force_level_path(base@), level) && match level {
                    Err(e) => r == Err::<Option<GpuClockRange>, HpdError>(HpdError::Sysfs(e)),
                    Ok(t) => if text::trimmed(t@) == MODE_AUTO@ {
                        r == Ok::<Option<GpuClockRange>, HpdError>(None)
                    } else {
                        exists|held: Result<GpuClockRange, HpdError>| #[trigger]
                            committed_gave(s, base@, held) && r == (match held {
                                Ok(range) => Ok::<Option<GpuClockRange>, HpdError>(Some(range)),
                                Err(e) => Err(e),
                            })
                    },
                },
        }
}

/// The GPU clock of an ASUS handheld.
pub struct AsusGpuClockBackend<S: SysfsIo> {
    pub sysfs: S,
    pub hwmon_cache: HwmonCache,
}

impl<S: SysfsIo> AsusGpuClockBackend<S> {
    pub fn new(sysfs: S) -> (r: Self)
        ensures
            r.sysfs == sysfs,
    {
        AsusGpuClockBackend { sysfs, hwmon_cache: HwmonCache::new() }
    }
}

impl<S: SysfsIo> GpuClockRangeControl for AsusGpuClockBackend<S> {
    fn set_range(&self, range: &GpuClockRange) -> (r: Result<(), HpdError>)
        ensures
            exists|log: Seq<Entry>| #[trigger]
                range_set(&self.sysfs, log, 0, log.len() as int, *range, r),
    {
        let mut files = Journal::new(&self.sysfs);
        hold_to_range(&self.hwmon_cache, &mut files, range)
    }

    fn reset_to_auto(&self) -> (r: Result<(), HpdError>)
        ensures
            exists|log: Seq<Entry>| #[trigger]
                reset_ended(&self.sysfs, log, 0, log.len() as int, r),
    {
        let mut files = Journal::new(&self.sysfs);
        release(&self.hwmon_cache, &mut files)
    }

    fn active_range(&self) -> (r: Result<Option<GpuClockRange>, HpdError>)
        ensures
            range_gave(&self.sysfs, r),
    {
        let node = self.hwmon_cache.resolve(&self.sysfs, GPU_HWMON_NAME);
        assert(gpu_gave(&self.sysfs, node));
        match node {
            None => Err(HpdError::FeatureUnsupported),
            Some(base) => {
                let level = sysfs::read(
                    &self.sysfs,
                    make_force_level_path(base.as_str()).as_str(),
                );
                let ghost read = level;
                assert(sysfs::read_gave(&self.sysfs, force_level_path(base@), read));
                match level {
                    Err(e) => Err(HpdError::Sysfs(e)),
                    Ok(t) => {
                        if text::same(text::trim(t.as_str()), MODE_AUTO) {
                            return Ok(None);
                        }
                        let held = read_committed(&self.sysfs, base.as_str());
                        let ghost committed = held;
                        assert(committed_gave(&self.sysfs, base@, committed));
                        match held {
                            Ok(range) => Ok(Some(range)),
                            Err(e) => Err(e),
                        }
                    },
                }
            },
        }
    }

    fn constraints(&self) -> (r: Result<GpuClockConstraints, HpdError>)
        ensures
            exists|node: Option<String>| #[trigger]
                gpu_gave(&self.sysfs, node) && match node {
                    None => r == Err::<GpuClockConstraints, HpdError>(
                        HpdError::FeatureUnsupported,
                    ),
                    Some(base) => constraints_gave(&self.sysfs, base@, r),
                },
    {
        let node = self.hwmon_cache.resolve(&self.sysfs, GPU_HWMON_NAME);
        assert(gpu_gave(&self.sysfs, node));
        match node {
            None => Err(HpdError::FeatureUnsupported),
            Some(base) => read_constraints(&self.sysfs, base.as_str()),
        }
    }
}

// ---------------------------------------------------------------------------
// Laws
// ---------------------------------------------------------------------------

/// A clock as the driver writes it.
pub open spec fn in_megahertz(mhz: u32) -> Seq<char> {
    text::dec(mhz as nat) + "Mhz"@
}

/// A clock with its unit is read as the clock.
pub proof fn clocks_are_read_with_their_unit(mhz: u32)
    ensures
        mhz_of(in_megahertz(mhz)) == Some(mhz),
{
    reveal_strlit("Mhz");
    text::numbers_are_read_before_their_unit(mhz as nat, "Mhz"@);
    text::decimals_are_read_back(mhz as nat);
}

/// The clocks that the device accepts are those on the first line `SCLK:`, the lower one
/// before the higher one.
pub proof fn accepted_clocks_are_those_of_the_table(
    table: &str,
    i: int,
    low: u32,
    high: u32,
    r: Option<GpuClockConstraints>,
)
    requires
        call_ensures(parse_accepted_range, (table,), r),
        0 <= i < text::lines_of(table@).len(),
        text::has_prefix(text::trimmed(text::lines_of(table@)[i]), "SCLK:"@),
        text::words(text::trimmed(text::lines_of(table@)[i]).skip(5)) == seq![
            in_megahertz(low),
            in_megahertz(high),
        ],
        forall|k: int|
            0 <= k < i ==> !text::has_prefix(
                text::trimmed(#[trigger] text::lines_of(table@)[k]),
                "SCLK:"@,
            ),
    ensures
        r matches Some(range) && range.range_min_mhz == low && range.range_max_mhz == high,
{
    reveal_strlit("SCLK:");
    let words = seq![in_megahertz(low), in_megahertz(high)];
    clocks_are_read_with_their_unit(low);
    clocks_are_read_with_their_unit(high);
    reveal_with_fuel(clocks_among, 3);
    assert(words.drop_last() =~= seq![in_megahertz(low)]);
    assert(words.drop_last().drop_last() =~= Seq::<Seq<char>>::empty());
    assert(clocks_among(words) =~= seq![low, high]);
    lemma_first_range(text::lines_of(table@), 0, i);
}

proof fn lemma_first_range(lines: Seq<Seq<char>>, from: int, i: int)
    requires
        0 <= from <= i < lines.len(),
        range_on_line(lines[i]) is Some,
        forall|k: int|
            from <= k < i ==> !text::has_prefix(text::trimmed(#[trigger] lines[k]), "SCLK:"@),
    ensures
        first_range(lines, from) == range_on_line(lines[i]),
    decreases i - from,
{
    if from < i {
        assert(range_on_line(lines[from]) is None);
        lemma_first_range(lines, from + 1, i);
    }
}

/// The range in force is the one on the lines `0:` and `1:`: the first is the lower bound.
pub proof fn committed_range_is_that_of_the_table(
    table: &str,
    i: int,
    j: int,
    end: int,
    low: u32,
    high: u32,
    r: Option<GpuClockRange>,
)
    requires
        call_ensures(parse_committed_range, (table,), r),
        ({
            let lines = text::lines_of(table@);
            &&& 0 <= i < end <= lines.len() && 0 <= j < end
            &&& end < lines.len() ==> text::has_prefix(
                text::trimmed(lines[end]),
                "OD_RANGE"@,
            )
            &&& stands_on(lines[i], "0:"@, low)
            &&& stands_on(lines[j], "1:"@, high)
            &&& forall|k: int|
                0 <= k < end ==> {
                    let line = text::trimmed(#[trigger] lines[k]);
                    &&& !text::has_prefix(line, "OD_RANGE"@)
                    &&& k != i ==> !text::has_prefix(line, "0:"@)
                    &&& k != j ==> !text::has_prefix(line, "1:"@)
                }
        }),
    ensures
        r == Some(GpuClockRange { min_mhz: low, max_mhz: high }),
{
    reveal_strlit("0:");
    reveal_strlit("1:");
    assert("0:"@ =~= seq!['0', ':']);
    assert("1:"@ =~= seq!['1', ':']);
    let lines = text::lines_of(table@);
    clocks_are_read_with_their_unit(low);
    clocks_are_read_with_their_unit(high);
    lemma_bounds(lines, 0, i, j, end, low, high, None, None);
}

/// Whether a line begins with `mark`, and the clock behind it is this one.
pub open spec fn stands_on(line: Seq<char>, mark: Seq<char>, mhz: u32) -> bool {
    let t = text::trimmed(line);
    &&& text::has_prefix(t, mark)
    &&& text::words(t.skip(2)).len() > 0
    &&& text::words(t.skip(2))[0] == in_megahertz(mhz)
}

proof fn lemma_bounds(
    lines: Seq<Seq<char>>,
    from: int,
    i: int,
    j: int,
    end: int,
    low: u32,
    high: u32,
    a: Option<u32>,
    b: Option<u32>,
)
    requires
        0 <= from <= end <= lines.len(),
        0 <= i < end,
        0 <= j < end,
        "0:"@ == seq!['0', ':'],
        "1:"@ == seq!['1', ':'],
        mhz_of(in_megahertz(low)) == Some(low),
        mhz_of(in_megahertz(high)) == Some(high),
        i < from ==> a == Some(low),
        j < from ==> b == Some(high),
        end < lines.len() ==> text::has_prefix(text::trimmed(lines[end]), "OD_RANGE"@),
        stands_on(lines[i], "0:"@, low),
        stands_on(lines[j], "1:"@, high),
        forall|k: int|
            0 <= k < end ==> {
                let line = text::trimmed(#[trigger] lines[k]);
                &&& !text::has_prefix(line, "OD_RANGE"@)
                &&& k != i ==> !text::has_prefix(line, "0:"@)
                &&& k != j ==> !text::has_prefix(line, "1:"@)
            },
    ensures
        bounds_set(lines, from, a, b) == (Some(low), Some(high)),
    decreases end - from,
{
    if from < end {
        let line = text::trimmed(lines[from]);
        assert(!text::has_prefix(line, "OD_RANGE"@));
        if from == i {
            lemma_bounds(lines, from + 1, i, j, end, low, high, Some(low), b);
        } else if from == j {
            assert(!text::has_prefix(line, "0:"@));
            lemma_bounds(lines, from + 1, i, j, end, low, high, a, Some(high));
        } else {
            lemma_bounds(lines, from + 1, i, j, end, low, high, a, b);
        }
    }
}

/// A range goes to the driver bound by bound, the lower one as number 0 and the higher one
/// as number 1, and is committed last; under manual control, which is asked for first
/// unless it is there. Handing back resets the table and then leaves manual control.
pub proof fn ranges_are_spelled_for_the_driver(
    base: &str,
    level: &str,
    range: GpuClockRange,
    writes: Vec<(String, String)>,
    back: Vec<(String, String)>,
)
    requires
        call_ensures(programming_writes, (base, level, &range), writes),
        call_ensures(release_writes, (base,), back),
    ensures
        ({
            let table = base@ + "/device/pp_od_clk_voltage"@;
            let control = base@ + "/device/power_dpm_force_performance_level"@;
            let w = journal::pairs(writes@);
            let n = w.len() as int;
            &&& n == if text::trimmed(level@) == "manual"@ {
                3int
            } else {
                4int
            }
            &&& n == 4 ==> w[0] == (control, "manual"@)
            &&& w[n - 3] == (table, "s "@ + "0"@ + " "@ + text::dec(range.min_mhz as nat))
            &&& w[n - 2] == (table, "s "@ + "1"@ + " "@ + text::dec(range.max_mhz as nat))
            &&& w[n - 1] == (table, "c"@)
            &&& journal::pairs(back@) == seq![(table, "r"@), (control, "auto"@)]
        }),
{
}

/// A range is held only where the driver tells that very range afterwards.
pub proof fn only_the_range_that_was_asked_for_is_taken(
    range: GpuClockRange,
    committed: Result<GpuClockRange, HpdError>,
    r: Result<(), HpdError>,
)
    requires
        call_ensures(judge, (&range, committed), r),
    ensures
        r is Ok <==> (committed matches Ok(held) && held.min_mhz == range.min_mhz && held.max_mhz
            == range.max_mhz),
{
}

/// Asking for a range that the device does not accept is refused; one that it accepts is
/// told to the driver.
pub proof fn ranges_outside_the_device_are_refused<S: SysfsIo>(
    s: &S,
    log: Seq<Entry>,
    to: int,
    range: GpuClockRange,
)
    requires
        range_set(s, log, 0, to, range, Ok(())),
    ensures
        exists|at: int, c: GpuClockConstraints| #[trigger]
            constraints_from(journal::answer_at(log, at), Ok(c)) && c.range_min_mhz
                <= range.min_mhz && range.min_mhz < range.max_mhz && range.max_mhz
                <= c.range_max_mhz,
{
    let (at, node) = choose|at: int, node: Option<String>| #[trigger]
        gpu_found(s, log, 0, at, node) && match node {
            None => false,
            Some(base) => exists|c: Result<GpuClockConstraints, HpdError>| #[trigger]
                constraints_from(journal::answer_at(log, at), c) && match c {
                    Err(e) => false,
                    Ok(constraints) => range.defect(constraints) is None,
                },
        };
    let c = choose|c: Result<GpuClockConstraints, HpdError>| #[trigger]
        constraints_from(journal::answer_at(log, at), c) && match c {
            Err(e) => false,
            Ok(constraints) => range.defect(constraints) is None,
        };
    assert(constraints_from(journal::answer_at(log, at), Ok(c->Ok_0)));
}

} // verus!
