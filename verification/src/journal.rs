//! The kernel's attribute files, with a record of what was asked of them.
//!
//! A journal stands between a backend and the attribute files. Every request goes
//! through it and is put down in the order of the requests, with its answer. A
//! function that has only the journal can ask for nothing behind its back, so a
//! contract over the record says which requests were made, in which order, and
//! that there were no others. What a method that opens a journal might ask beside
//! it is not recorded; such methods only open it and hand it on.

use crate::error::{HpdError, SysfsError};
use crate::sysfs;
use crate::sysfs::SysfsIo;
use vstd::prelude::*;

verus! {

/// One request, with its answer.
pub enum Entry {
    Read { path: Seq<char>, answer: Result<String, SysfsError> },
    Write { path: Seq<char>, value: Seq<char>, result: Result<(), SysfsError> },
    Wait { millis: u64 },
}

/// Whether request `i` was to read the file at `path`.
pub open spec fn read_at<S: SysfsIo>(s: &S, log: Seq<Entry>, i: int, path: Seq<char>) -> bool {
    &&& 0 <= i < log.len()
    &&& log[i] matches Entry::Read { path: p, answer } && p == path && sysfs::read_gave(
        s,
        path,
        answer,
    )
}

/// What the read that was request `i` gave.
pub open spec fn answer_at(log: Seq<Entry>, i: int) -> Result<String, SysfsError> {
    log[i]->answer
}

/// Whether request `i` was to write `value` to the file at `path`.
pub open spec fn write_at<S: SysfsIo>(
    s: &S,
    log: Seq<Entry>,
    i: int,
    path: Seq<char>,
    value: Seq<char>,
) -> bool {
    &&& 0 <= i < log.len()
    &&& log[i] matches Entry::Write { path: p, value: v, result } && p == path && v == value
        && sysfs::write_gave(s, path, value, result)
}

/// How the write that was request `i` ended.
pub open spec fn result_at(log: Seq<Entry>, i: int) -> Result<(), HpdError> {
    sysfs::lifted(log[i]->result)
}

/// Whether request `i` was to wait.
pub open spec fn wait_at<S: SysfsIo>(s: &S, log: Seq<Entry>, i: int, millis: u64) -> bool {
    &&& 0 <= i < log.len()
    &&& log[i] == (Entry::Wait { millis })
    &&& call_ensures(S::settle, (s, millis), ())
}

/// Whether the requests from `from` up to `to` were reads.
pub open spec fn only_reads(log: Seq<Entry>, from: int, to: int) -> bool {
    &&& 0 <= from <= to <= log.len()
    &&& forall|i: int| from <= i < to ==> (#[trigger] log[i]) is Read
}

/// Whether `log` goes on from `before`.
pub open spec fn goes_on(before: Seq<Entry>, log: Seq<Entry>) -> bool {
    &&& before.len() <= log.len()
    &&& forall|i: int| 0 <= i < before.len() ==> #[trigger] log[i] == before[i]
}

/// Files, each with what is to be written to it, as texts.
pub open spec fn pairs(writes: Seq<(String, String)>) -> Seq<(Seq<char>, Seq<char>)> {
    writes.map_values(|w: (String, String)| (w.0@, w.1@))
}

/// Whether the requests from `from` up to `to` were these writes, in order, up to
/// the first that fails, and ended in `r`.
pub open spec fn wrote_in_order<S: SysfsIo>(
    s: &S,
    log: Seq<Entry>,
    from: int,
    to: int,
    writes: Seq<(Seq<char>, Seq<char>)>,
    r: Result<(), HpdError>,
) -> bool {
    &&& 0 <= from <= to <= log.len()
    &&& to - from <= writes.len()
    &&& forall|i: int|
        #![trigger log[i]]
        from <= i < to ==> write_at(s, log, i, writes[i - from].0, writes[i - from].1)
    &&& forall|i: int| #![trigger log[i]] from <= i < to - 1 ==> result_at(log, i) is Ok
    &&& r == (if to == from {
        Ok::<(), HpdError>(())
    } else {
        result_at(log, to - 1)
    })
    &&& r is Ok ==> to - from == writes.len()
}

/// The attribute files, and what was asked of them so far.
pub struct Journal<'a, S: SysfsIo> {
    files: &'a S,
    record: Ghost<Seq<Entry>>,
}

impl<'a, S: SysfsIo> Journal<'a, S> {
    /// The attribute files.
    pub closed spec fn files(self) -> &'a S {
        self.files
    }

    /// What was asked so far, in order.
    pub closed spec fn log(self) -> Seq<Entry> {
        self.record@
    }

    /// A journal in which nothing was asked yet.
    pub fn new(files: &'a S) -> (r: Self)
        ensures
            r.files() == files,
            r.log().len() == 0,
    {
        Journal { files, record: Ghost(Seq::empty()) }
    }

    /// The contents of the file at `path`.
    pub fn read(&mut self, path: &str) -> (r: Result<String, SysfsError>)
        ensures
            final(self).files() == old(self).files(),
            final(self).log() == old(self).log().push(Entry::Read { path: path@, answer: r }),
            sysfs::read_gave(old(self).files(), path@, r),
    {
        let r = sysfs::read(self.files, path);
        self.record = Ghost(self.record@.push(Entry::Read { path: path@, answer: r }));
        r
    }

    /// Write `value` to the file at `path`.
    pub fn write(&mut self, path: &str, value: &str) -> (r: Result<(), HpdError>)
        ensures
            final(self).files() == old(self).files(),
            final(self).log().len() == old(self).log().len() + 1,
            goes_on(old(self).log(), final(self).log()),
            write_at(
                old(self).files(),
                final(self).log(),
                old(self).log().len() as int,
                path@,
                value@,
            ),
            r == result_at(final(self).log(), old(self).log().len() as int),
    {
        let w = sysfs::write(self.files, path, value);
        self.record =
        Ghost(self.record@.push(Entry::Write { path: path@, value: value@, result: w }));
        sysfs::lift(w)
    }

    /// Let the firmware settle for `millis` milliseconds.
    pub fn wait(&mut self, millis: u64)
        ensures
            final(self).files() == old(self).files(),
            final(self).log().len() == old(self).log().len() + 1,
            goes_on(old(self).log(), final(self).log()),
            wait_at(
                old(self).files(),
                final(self).log(),
                old(self).log().len() as int,
                millis,
            ),
    {
        self.files.settle(millis);
        self.record = Ghost(self.record@.push(Entry::Wait { millis }));
    }

    /// Carry out writes in order, up to the first that fails.
    pub fn write_all(&mut self, writes: &Vec<(String, String)>) -> (r: Result<(), HpdError>)
        ensures
            final(self).files() == old(self).files(),
            goes_on(old(self).log(), final(self).log()),
            wrote_in_order(
                old(self).files(),
                final(self).log(),
                old(self).log().len() as int,
                final(self).log().len() as int,
                pairs(writes@),
                r,
            ),
    {
        let ghost from = self.log().len() as int;
        let mut i: usize = 0;
        while i < writes.len()
            invariant
                i <= writes.len(),
                self.files() == old(self).files(),
                goes_on(old(self).log(), self.log()),
                from == old(self).log().len(),
                self.log().len() == from + i,
                forall|k: int|
                    #![trigger self.log()[k]]
                    from <= k < from + i ==> write_at(
                        self.files(),
                        self.log(),
                        k,
                        pairs(writes@)[k - from].0,
                        pairs(writes@)[k - from].1,
                    ) && result_at(self.log(), k) is Ok,
            decreases writes.len() - i,
        {
            let ghost before = self.log();
            let w = self.write(writes[i].0.as_str(), writes[i].1.as_str());
            assert(forall|k: int| 0 <= k < before.len() ==> #[trigger] self.log()[k] == before[k]);
            if w.is_err() {
                return w;
            }
            i = i + 1;
        }
        Ok(())
    }
}

} // verus!
