//! The kernel's hardware-monitor nodes, found by name. Their numbers change
//! from boot to boot.

use crate::error::{HpdError, SysfsError};
use crate::journal;
use crate::journal::Journal;
use crate::sysfs;
use crate::sysfs::SysfsIo;
use crate::text;
use vstd::prelude::*;
use vstd::rwlock::{RwLock, RwLockPredicate, WriteHandle};

verus! {

pub const HWMON_CLASS_DIR: &'static str = "/sys/class/hwmon";

/// How many node numbers are tried.
pub const MAX_HWMON_INDEX: u8 = 24;

/// The directory of node `i`.
pub open spec fn hwmon_base(i: nat) -> Seq<char> {
    HWMON_CLASS_DIR@ + "/hwmon"@ + text::dec(i)
}

/// Whether `base` is the directory of a node that is tried.
pub open spec fn is_hwmon_base(base: Seq<char>) -> bool {
    exists|i: nat| i < MAX_HWMON_INDEX && base == #[trigger] hwmon_base(i)
}

fn make_hwmon_base(i: u8) -> (r: String)
    ensures
        r@ == hwmon_base(i as nat),
{
    let mut s = HWMON_CLASS_DIR.to_owned();
    s.append("/hwmon");
    text::push_dec(&mut s, i as u64);
    s
}

/// Whether the name that was read is `name`.
pub open spec fn is_name(raw: Result<String, SysfsError>, name: Seq<char>) -> bool {
    raw matches Ok(t) && text::trimmed(t@) == name
}

/// Whether the node at `base` was found to have the name, or not.
pub open spec fn name_gave<S: SysfsIo>(s: &S, base: Seq<char>, name: Seq<char>, is: bool) -> bool {
    exists|raw: Result<String, SysfsError>| #[trigger]
        sysfs::read_gave(s, base + "/name"@, raw) && is == is_name(raw, name)
}

/// Whether what was added to `before` is a look for a node: reads alone.
pub open spec fn looked(before: Seq<journal::Entry>, log: Seq<journal::Entry>) -> bool {
    &&& journal::goes_on(before, log)
    &&& journal::only_reads(log, before.len() as int, log.len() as int)
}

fn check_name<S: SysfsIo>(files: &mut Journal<S>, base: &str, name: &str) -> (r: bool)
    ensures
        final(files).files() == old(files).files(),
        looked(old(files).log(), final(files).log()),
        name_gave(old(files).files(), base@, name@, r),
{
    let mut path = base.to_owned();
    path.append("/name");
    let raw = files.read(path.as_str());
    assert(sysfs::read_gave(files.files(), base@ + "/name"@, raw));
    match raw {
        Ok(t) => text::same(text::trim(t.as_str()), name),
        Err(_) => false,
    }
}

/// Whether none of the nodes below `n` was found to have the name.
pub open spec fn none_named<S: SysfsIo>(s: &S, n: nat, name: Seq<char>) -> bool {
    forall|i: nat| i < n ==> #[trigger] name_gave(s, hwmon_base(i), name, false)
}

/// Whether the first node with the name was found at `r`.
pub open spec fn first_hwmon_gave<S: SysfsIo>(
    s: &S,
    name: Seq<char>,
    r: Option<String>,
) -> bool {
    match r {
        Some(base) => exists|i: nat|
            i < MAX_HWMON_INDEX && base@ == #[trigger] hwmon_base(i) && name_gave(
                s,
                hwmon_base(i),
                name,
                true,
            ) && none_named(s, i, name),
        None => none_named(s, MAX_HWMON_INDEX as nat, name),
    }
}

/// Whether a node with the name was found at `r`.
pub open spec fn hwmon_gave<S: SysfsIo>(s: &S, name: Seq<char>, r: Option<String>) -> bool {
    match r {
        Some(base) => exists|i: nat|
            i < MAX_HWMON_INDEX && base@ == #[trigger] hwmon_base(i) && name_gave(
                s,
                hwmon_base(i),
                name,
                true,
            ),
        None => none_named(s, MAX_HWMON_INDEX as nat, name),
    }
}

/// The directory of the first node with the name.
pub fn find_hwmon<S: SysfsIo>(files: &mut Journal<S>, name: &str) -> (r: Option<String>)
    ensures
        final(files).files() == old(files).files(),
        looked(old(files).log(), final(files).log()),
        first_hwmon_gave(old(files).files(), name@, r),
{
    let mut i: u8 = 0;
    while i < MAX_HWMON_INDEX
        invariant
            i <= MAX_HWMON_INDEX,
            files.files() == old(files).files(),
            looked(old(files).log(), files.log()),
            none_named(files.files(), i as nat, name@),
        decreases MAX_HWMON_INDEX - i,
    {
        let base = make_hwmon_base(i);
        if check_name(files, base.as_str(), name) {
            assert(base@ == hwmon_base(i as nat));
            return Some(base);
        }
        i = i + 1;
    }
    None
}

/// The directory of the first node with the name.
pub fn find_hwmon_by_name<S: SysfsIo>(s: &S, name: &str) -> (r: Option<String>)
    ensures
        first_hwmon_gave(s, name@, r),
{
    let mut files = Journal::new(s);
    find_hwmon(&mut files, name)
}

/// What the cache may hold: only directories of nodes, and one for a name at most.
pub struct CachedBases;

impl RwLockPredicate<Vec<(String, String)>> for CachedBases {
    open spec fn inv(self, v: Vec<(String, String)>) -> bool {
        &&& forall|k: int| 0 <= k < v@.len() ==> is_hwmon_base((#[trigger] v@[k]).1@)
        &&& forall|j: int, k: int|
            0 <= j < k < v@.len() ==> (#[trigger] v@[j]).0@ != (#[trigger] v@[k]).0@
    }
}

/// Where nodes were last found, by name. A hit is checked before it is used,
/// since a driver may have moved.
pub struct HwmonCache {
    resolved: RwLock<Vec<(String, String)>, CachedBases>,
}

/// The index of the first entry for `name`; the length where there is none.
fn position(entries: &Vec<(String, String)>, name: &str) -> (r: usize)
    ensures
        r <= entries.len(),
        r < entries.len() ==> entries@[r as int].0@ == name@,
        forall|k: int| 0 <= k < r ==> (#[trigger] entries@[k]).0@ != name@,
{
    let mut i: usize = 0;
    while i < entries.len()
        invariant
            i <= entries.len(),
            forall|k: int| 0 <= k < i ==> (#[trigger] entries@[k]).0@ != name@,
        decreases entries.len() - i,
    {
        if text::same(entries[i].0.as_str(), name) {
            return i;
        }
        i = i + 1;
    }
    i
}

/// The directory in the entry for `name`.
pub open spec fn cached_base(entries: Seq<(String, String)>, name: Seq<char>) -> Option<String>
    decreases entries.len(),
{
    if entries.len() == 0 {
        None
    } else if entries[0].0@ == name {
        Some(entries[0].1)
    } else {
        cached_base(entries.skip(1), name)
    }
}

/// The entries without the one for `name`.
pub open spec fn without_base(entries: Seq<(String, String)>, name: Seq<char>) -> Seq<
    (String, String),
>
    decreases entries.len(),
{
    if entries.len() == 0 {
        entries
    } else if entries[0].0@ == name {
        entries.skip(1)
    } else {
        seq![entries[0]] + without_base(entries.skip(1), name)
    }
}

proof fn lemma_cached_base(entries: Seq<(String, String)>, name: Seq<char>, at: int)
    requires
        0 <= at <= entries.len(),
        at < entries.len() ==> entries[at].0@ == name,
        forall|k: int| 0 <= k < at ==> (#[trigger] entries[k]).0@ != name,
    ensures
        cached_base(entries, name) == (if at < entries.len() {
            Some(entries[at].1)
        } else {
            None
        }),
        without_base(entries, name) == (if at < entries.len() {
            entries.remove(at)
        } else {
            entries
        }),
    decreases entries.len(),
{
    if entries.len() == 0 {
    } else if at == 0 {
        assert(entries.remove(0) =~= entries.skip(1));
    } else {
        assert(entries[0].0@ != name);
        let rest = entries.skip(1);
        assert forall|k: int| 0 <= k < at - 1 implies (#[trigger] rest[k]).0@ != name by {
            assert(rest[k] == entries[k + 1]);
        }
        lemma_cached_base(rest, name, at - 1);
        if at < entries.len() {
            assert(seq![entries[0]] + rest.remove(at - 1) =~= entries.remove(at));
        } else {
            assert(seq![entries[0]] + rest =~= entries);
        }
    }
}

/// Without one of its entries, a cache is still in order, and holds nothing more
/// for that entry's name.
proof fn lemma_entry_removed(found: Vec<(String, String)>, at: int, left: Vec<(String, String)>)
    requires
        CachedBases.inv(found),
        0 <= at < found@.len(),
        left@ == found@.remove(at),
    ensures
        CachedBases.inv(left),
        forall|k: int| 0 <= k < left@.len() ==> (#[trigger] left@[k]).0@ != found@[at].0@,
{
    assert forall|k: int| 0 <= k < left@.len() implies is_hwmon_base((#[trigger] left@[k]).1@) by {
        let was_k = if k < at {
            k
        } else {
            k + 1
        };
        assert(left@[k] == found@[was_k]);
    }
    assert forall|j: int, k: int| 0 <= j < k < left@.len() implies (#[trigger] left@[j]).0@ != (
    #[trigger] left@[k]).0@ by {
        let was_j = if j < at {
            j
        } else {
            j + 1
        };
        assert(left@[j] == found@[was_j]);
        let was_k = if k < at {
            k
        } else {
            k + 1
        };
        assert(left@[k] == found@[was_k]);
    }
    assert forall|k: int| 0 <= k < left@.len() implies (#[trigger] left@[k]).0@ != found@[at].0@ by {
        let was_k = if k < at {
            k
        } else {
            k + 1
        };
        assert(left@[k] == found@[was_k]);
    }
}

/// Whether the lock was made around these entries.
spec fn lock_made(
    entries: Vec<(String, String)>,
    lock: RwLock<Vec<(String, String)>, CachedBases>,
) -> bool {
    call_ensures(
        RwLock::<Vec<(String, String)>, CachedBases>::new,
        (entries, Ghost(CachedBases)),
        lock,
    )
}

impl HwmonCache {
    /// Whether the cache was made without an entry.
    pub closed spec fn made_empty(self) -> bool {
        exists|entries: Vec<(String, String)>|
            entries@.len() == 0 && #[trigger] lock_made(entries, self.resolved)
    }

    /// Whether the cache was found to hold the entries `before`, and left with the
    /// entries `after` in one go.
    pub closed spec fn updated(
        self,
        before: Seq<(String, String)>,
        after: Seq<(String, String)>,
    ) -> bool {
        exists|
            v: Vec<(String, String)>,
            w: Vec<(String, String)>,
            handle: WriteHandle<'_, Vec<(String, String)>, CachedBases>,
        |
            {
                &&& v@ == before
                &&& w@ == after
                &&& #[trigger] call_ensures(
                    RwLock::<Vec<(String, String)>, CachedBases>::acquire_write,
                    (&self.resolved,),
                    (v, handle),
                )
                &&& #[trigger] call_ensures(
                    WriteHandle::<'_, Vec<(String, String)>, CachedBases>::release_write,
                    (handle, w),
                    (),
                )
            }
    }

    /// Whether the cache was left with `base` for `name`, in place of any other.
    pub open spec fn remembered(self, name: Seq<char>, base: Seq<char>) -> bool {
        exists|entries: Seq<(String, String)>, entry: (String, String)| #[trigger]
            self.updated(entries, without_base(entries, name).push(entry)) && entry.0@ == name
                && entry.1@ == base
    }

    /// Whether the node with the name was found at `r`: at the cached directory
    /// where that was found to have the name still, else at the first that has it.
    /// Either way the directory is remembered.
    pub open spec fn resolved_to<S: SysfsIo>(self, s: &S, name: Seq<char>, r: Option<String>) -> bool {
        &&& exists|entries: Seq<(String, String)>| #[trigger]
            self.updated(entries, without_base(entries, name)) && match cached_base(
                entries,
                name,
            ) {
                Some(base) => if name_gave(s, base@, name, true) && r == Some(base) {
                    true
                } else {
                    name_gave(s, base@, name, false) && first_hwmon_gave(s, name, r)
                },
                None => first_hwmon_gave(s, name, r),
            }
        &&& r matches Some(base) ==> self.remembered(name, base@)
    }

    /// An empty cache.
    pub fn new() -> (r: Self)
        ensures
            r.made_empty(),
    {
        let empty: Vec<(String, String)> = Vec::new();
        let ghost entries = empty;
        let resolved = RwLock::new(empty, Ghost(CachedBases));
        let cache = HwmonCache { resolved };
        assert(lock_made(entries, cache.resolved));
        cache
    }

    /// The cached directory for `name`. It is taken out, to be put back once it has
    /// been checked.
    fn take(&self, name: &str) -> (r: Option<String>)
        ensures
            exists|entries: Seq<(String, String)>| #[trigger]
                self.updated(entries, without_base(entries, name@)) && r == cached_base(
                    entries,
                    name@,
                ),
            r matches Some(base) ==> is_hwmon_base(base@),
    {
        let (mut entries, handle) = self.resolved.acquire_write();
        let ghost found = entries;
        let ghost held = handle;
        let at = position(&entries, name);
        proof {
            lemma_cached_base(found@, name@, at as int);
        }
        let hit = if at < entries.len() {
            let (_, base) = entries.remove(at);
            proof {
                lemma_entry_removed(found, at as int, entries);
            }
            Some(base)
        } else {
            None
        };
        let ghost left = entries;
        handle.release_write(entries);
        assert(left@ =~= without_base(found@, name@));
        assert(self.updated(found@, without_base(found@, name@))) by {
            assert(call_ensures(
                RwLock::<Vec<(String, String)>, CachedBases>::acquire_write,
                (&self.resolved,),
                (found, held),
            ));
            assert(call_ensures(
                WriteHandle::<'_, Vec<(String, String)>, CachedBases>::release_write,
                (held, left),
                (),
            ));
        }
        hit
    }

    /// Remember the directory for `name`, in place of any other.
    fn put(&self, name: &str, base: &String)
        requires
            is_hwmon_base(base@),
        ensures
            self.remembered(name@, base@),
    {
        let (mut entries, handle) = self.resolved.acquire_write();
        let ghost found = entries;
        let ghost held = handle;
        let at = position(&entries, name);
        proof {
            lemma_cached_base(found@, name@, at as int);
        }
        if at < entries.len() {
            let _ = entries.remove(at);
            proof {
                lemma_entry_removed(found, at as int, entries);
            }
        }
        let ghost kept = entries@;
        let entry = (name.to_owned(), base.clone());
        let ghost added = entry;
        entries.push(entry);
        proof {
            assert forall|k: int| 0 <= k < entries@.len() implies is_hwmon_base(
                (#[trigger] entries@[k]).1@,
            ) by {
                if k < kept.len() {
                    assert(entries@[k] == kept[k]);
                }
            }
            assert forall|j: int, k: int| 0 <= j < k < entries@.len() implies (
            #[trigger] entries@[j]).0@ != (#[trigger] entries@[k]).0@ by {
                assert(entries@[j] == kept[j]);
                if k < kept.len() {
                    assert(entries@[k] == kept[k]);
                }
            }
        }
        let ghost left = entries;
        handle.release_write(entries);
        assert(self.updated(found@, without_base(found@, name@).push(added))) by {
            assert(call_ensures(
                RwLock::<Vec<(String, String)>, CachedBases>::acquire_write,
                (&self.resolved,),
                (found, held),
            ));
            assert(call_ensures(
                WriteHandle::<'_, Vec<(String, String)>, CachedBases>::release_write,
                (held, left),
                (),
            ));
        }
    }

    /// The directory of a node with the name: the cached one where it still has
    /// it, else the first.
    pub fn find<S: SysfsIo>(&self, files: &mut Journal<S>, name: &str) -> (r: Option<String>)
        ensures
            final(files).files() == old(files).files(),
            looked(old(files).log(), final(files).log()),
            self.resolved_to(old(files).files(), name@, r),
            hwmon_gave(old(files).files(), name@, r),
    {
        if let Some(base) = self.take(name) {
            if check_name(files, base.as_str(), name) {
                self.put(name, &base);
                return Some(base);
            }
        }
        let found = find_hwmon(files, name);
        if let Some(base) = &found {
            self.put(name, base);
        }
        found
    }

    /// The directory of a node with the name: the cached one where it still has
    /// it, else the first.
    pub fn resolve<S: SysfsIo>(&self, s: &S, name: &str) -> (r: Option<String>)
        ensures
            self.resolved_to(s, name@, r),
            hwmon_gave(s, name@, r),
    {
        let mut files = Journal::new(s);
        self.find(&mut files, name)
    }

    /// An optional attribute of the node with the name; nothing where there is no
    /// such node.
    pub fn read_attr<S: SysfsIo>(&self, s: &S, name: &str, attr: &str) -> (r: Result<
        Option<String>,
        HpdError,
    >)
        ensures
            exists|node: Option<String>| #[trigger]
                self.resolved_to(s, name@, node) && match node {
                    None => r == Ok::<Option<String>, HpdError>(None),
                    Some(base) => sysfs::attribute_gave(s, base@ + ("/"@ + attr@), r),
                },
            node_attribute_gave(s, name@, "/"@ + attr@, r),
    {
        let node = self.resolve(s, name);
        assert(hwmon_gave(s, name@, node));
        match node {
            None => Ok(None),
            Some(base) => {
                let mut path = base.clone();
                path.append("/");
                path.append(attr);
                assert(path@ =~= base@ + ("/"@ + attr@));
                sysfs::read_attribute(s, path.as_str())
            },
        }
    }
}

/// Whether the file `below` the node with the name was read as `r`; nothing
/// where there is no such node or no such file.
pub open spec fn node_attribute_gave<S: SysfsIo>(
    s: &S,
    name: Seq<char>,
    below: Seq<char>,
    r: Result<Option<String>, HpdError>,
) -> bool {
    exists|node: Option<String>| #[trigger]
        hwmon_gave(s, name, node) && match node {
            None => r == Ok::<Option<String>, HpdError>(None),
            Some(base) => sysfs::attribute_gave(s, base@ + below, r),
        }
}

/// A node that is found is one of those under the directory of nodes, told that name itself,
/// and is the first of them that did.
pub proof fn found_nodes_told_their_name<S: SysfsIo>(s: &S, name: &str, r: Option<String>)
    requires
        call_ensures(find_hwmon_by_name::<S>, (s, name), r),
    ensures
        r matches Some(base) ==> exists|i: nat, t: String|
            i < 24 && base@ == "/sys/class/hwmon"@ + "/hwmon"@ + text::dec(i)
                && #[trigger] sysfs::read_gave(
                s,
                "/sys/class/hwmon"@ + "/hwmon"@ + text::dec(i) + "/name"@,
                Ok(t),
            ) && text::trimmed(t@) == name@,
{
    if let Some(base) = r {
        let i = choose|i: nat|
            i < MAX_HWMON_INDEX && base@ == #[trigger] hwmon_base(i) && name_gave(
                s,
                hwmon_base(i),
                name@,
                true,
            );
        let raw = choose|raw: Result<String, SysfsError>| #[trigger]
            sysfs::read_gave(s, hwmon_base(i) + "/name"@, raw) && is_name(raw, name@);
        let t = raw->Ok_0;
        assert(raw == Ok::<String, SysfsError>(t));
        assert(sysfs::read_gave(
            s,
            "/sys/class/hwmon"@ + "/hwmon"@ + text::dec(i) + "/name"@,
            Ok(t),
        ));
    }
}

} // verus!
