//! The charger: whether it is plugged in, and when that changes.
//!
//! An event of any power supply is only an occasion to look: on handhelds that
//! charge over USB-C it comes from the port, not from the mains node that tells
//! the truth.

use crate::error::SysfsError;
use crate::sysfs;
use crate::sysfs::SysfsIo;
use crate::text;
use crate::transition::Transition;
use vstd::prelude::*;

verus! {

/// What of the state of the mains nodes is known after some of them: whether
/// there is one, and whether one is online.
pub struct Mains {
    pub found: bool,
    pub online: bool,
}

/// The state of the mains: nothing where there is no mains node.
pub open spec fn mains_state(mains: Mains) -> Option<bool> {
    if mains.found {
        Some(mains.online)
    } else {
        None
    }
}

/// Whether the nodes from `from` on were found to come to `r`, given what those
/// before came to. Only nodes of type `Mains` count.
pub open spec fn mains_gave<S: SysfsIo>(
    s: &S,
    base: Seq<char>,
    names: Seq<Seq<char>>,
    from: int,
    mains: Mains,
    r: Option<bool>,
) -> bool
    decreases names.len() - from,
{
    if from < 0 || from >= names.len() {
        r == mains_state(mains)
    } else {
        let node = base + "/"@ + names[from];
        exists|kind: Result<String, SysfsError>| #[trigger]
            sysfs::read_gave(s, node + "/type"@, kind) && if text::trimmed(
                sysfs::text_or_empty(kind),
            ) == "Mains"@ {
                exists|online: Result<String, SysfsError>| #[trigger]
                    sysfs::read_gave(s, node + "/online"@, online) && mains_gave(
                        s,
                        base,
                        names,
                        from + 1,
                        Mains {
                            found: true,
                            online: mains.online || text::trimmed(sysfs::text_or_empty(online))
                                == "1"@,
                        },
                        r,
                    )
            } else {
                mains_gave(s, base, names, from + 1, mains, r)
            }
    }
}

fn trimmed_is(raw: &Result<String, SysfsError>, word: &str) -> (r: bool)
    ensures
        r == (text::trimmed(sysfs::text_or_empty(*raw)) == word@),
{
    match raw {
        Ok(t) => text::same(text::trim(t.as_str()), word),
        Err(_) => {
            proof {
                reveal_strlit("");
                assert(""@ =~= Seq::<char>::empty());
            }
            text::same(text::trim(""), word)
        },
    }
}

fn scan_mains<S: SysfsIo>(s: &S, base: &str, names: &Vec<String>, from: usize, mains: Mains) -> (r:
    Option<bool>)
    requires
        from <= names.len(),
    ensures
        mains_gave(s, base@, text::texts(names@), from as int, mains, r),
    decreases names.len() - from,
{
    if from == names.len() {
        return if mains.found {
            Some(mains.online)
        } else {
            None
        };
    }
    let ghost all = text::texts(names@);
    let mut node = base.to_owned();
    node.append("/");
    node.append(names[from].as_str());
    let mut path = node.clone();
    path.append("/type");
    let kind = sysfs::read(s, path.as_str());
    assert(sysfs::read_gave(s, base@ + "/"@ + all[from as int] + "/type"@, kind));
    if !trimmed_is(&kind, "Mains") {
        return scan_mains(s, base, names, from + 1, mains);
    }
    let mut path = node;
    path.append("/online");
    let online = sysfs::read(s, path.as_str());
    assert(sysfs::read_gave(s, base@ + "/"@ + all[from as int] + "/online"@, online));
    let is_online = trimmed_is(&online, "1");
    scan_mains(
        s,
        base,
        names,
        from + 1,
        Mains { found: true, online: mains.online || is_online },
    )
}

/// Whether the charger is plugged in, by the mains nodes under `base`; nothing
/// where there is none.
pub fn read_mains_online_at<S: SysfsIo>(s: &S, base: &str) -> (r: Option<bool>)
    ensures
        exists|names: Seq<Seq<char>>| #[trigger]
            sysfs::listing_gave(s, base@, names) && mains_gave(
                s,
                base@,
                names,
                0,
                Mains { found: false, online: false },
                r,
            ),
{
    let names = sysfs::list(s, base);
    scan_mains(s, base, &names, 0, Mains { found: false, online: false })
}

/// The charger was found as `current`. Tells of it where it is known and not as
/// it was last time.
pub fn emit_if_changed(last: &mut Option<bool>, current: Option<bool>) -> (r: Option<Transition>)
    ensures
        r == (match current {
            Some(plugged) => if *old(last) != current {
                Some(Transition::AcPowerChanged(plugged))
            } else {
                None
            },
            None => None,
        }),
        *final(last) == (match current {
            Some(_) => current,
            None => *old(last),
        }),
{
    match current {
        Some(plugged) => {
            if *last != current {
                *last = current;
                return Some(Transition::AcPowerChanged(plugged));
            }
            None
        },
        None => None,
    }
}

/// The events that a run of findings comes to, from what was known before.
pub open spec fn edges(last: Option<bool>, found: Seq<Option<bool>>) -> Seq<bool>
    decreases found.len(),
{
    if found.len() == 0 {
        Seq::empty()
    } else {
        let before = edges(last, found.drop_last());
        let known = known_after(last, found.drop_last());
        match found.last() {
            Some(plugged) => if known != found.last() {
                before.push(plugged)
            } else {
                before
            },
            None => before,
        }
    }
}

/// What is known after a run of findings.
pub open spec fn known_after(last: Option<bool>, found: Seq<Option<bool>>) -> Option<bool>
    decreases found.len(),
{
    if found.len() == 0 {
        last
    } else if found.last() is Some {
        found.last()
    } else {
        known_after(last, found.drop_last())
    }
}

/// Events alternate: plugged in is never told twice in a row, nor unplugged, and
/// the first one is news too.
pub proof fn edges_alternate(last: Option<bool>, found: Seq<Option<bool>>)
    ensures
        forall|i: int|
            0 <= i < edges(last, found).len() - 1 ==> #[trigger] edges(last, found)[i] != edges(
                last,
                found,
            )[i + 1],
        edges(last, found).len() > 0 ==> last != Some(edges(last, found)[0]),
{
    lemma_edges(last, found);
}

proof fn lemma_edges(last: Option<bool>, found: Seq<Option<bool>>)
    ensures
        forall|i: int|
            0 <= i < edges(last, found).len() - 1 ==> #[trigger] edges(last, found)[i] != edges(
                last,
                found,
            )[i + 1],
        edges(last, found).len() > 0 ==> last != Some(edges(last, found)[0]) && known_after(
            last,
            found,
        ) == Some(edges(last, found).last()),
        edges(last, found).len() == 0 ==> known_after(last, found) == last,
    decreases found.len(),
{
    if found.len() > 0 {
        lemma_edges(last, found.drop_last());
        let before = edges(last, found.drop_last());
        let now = edges(last, found);
        assert forall|i: int| 0 <= i < now.len() - 1 implies #[trigger] now[i] != now[i + 1] by {
            if i + 1 < before.len() {
                assert(now[i] == before[i]);
                assert(now[i + 1] == before[i + 1]);
            } else if i + 1 == before.len() {
                assert(now[i] == before.last());
            }
        }
    }
}

// ---------------------------------------------------------------------------
// Laws of the nodes
// ---------------------------------------------------------------------------

/// Whether the node at `node` told that it is no mains, or that it is and whether it is
/// online.
pub open spec fn node_said<S: SysfsIo>(s: &S, node: Seq<char>, mains: Option<bool>) -> bool {
    exists|kind: Result<String, SysfsError>| #[trigger]
        sysfs::read_gave(s, node + "/type"@, kind) && match mains {
            None => text::trimmed(sysfs::text_or_empty(kind)) != "Mains"@,
            Some(online) => text::trimmed(sysfs::text_or_empty(kind)) == "Mains"@ && exists|
                state: Result<String, SysfsError>,
            | #[trigger]
                sysfs::read_gave(s, node + "/online"@, state) && (online <==> text::trimmed(
                    sysfs::text_or_empty(state),
                ) == "1"@),
        }
}

/// Whether this is what a node said, whichever that was: nothing on the mains, or that it is
/// offline.
pub open spec fn not_online<S: SysfsIo>(s: &S, node: Seq<char>) -> bool {
    node_said(s, node, None) || node_said(s, node, Some(false))
}

/// The charger is known of only by mains nodes: it is plugged in where one of them told so,
/// unplugged where there is one and none of them told so, and not known where there is none.
pub proof fn mains_nodes_tell_of_the_charger<S: SysfsIo>(s: &S, base: &str, r: Option<bool>)
    requires
        call_ensures(read_mains_online_at::<S>, (s, base), r),
    ensures
        exists|names: Seq<Seq<char>>| #[trigger]
            sysfs::listing_gave(s, base@, names) && match r {
                Some(true) => exists|i: int|
                    0 <= i < names.len() && node_said(
                        s,
                        base@ + "/"@ + #[trigger] names[i],
                        Some(true),
                    ),
                Some(false) => (exists|i: int|
                    0 <= i < names.len() && node_said(
                        s,
                        base@ + "/"@ + #[trigger] names[i],
                        Some(false),
                    )) && forall|i: int|
                    0 <= i < names.len() ==> not_online(s, base@ + "/"@ + #[trigger] names[i]),
                None => forall|i: int|
                    0 <= i < names.len() ==> node_said(
                        s,
                        base@ + "/"@ + #[trigger] names[i],
                        None,
                    ),
            },
{
    let start = Mains { found: false, online: false };
    let names = choose|names: Seq<Seq<char>>| #[trigger]
        sysfs::listing_gave(s, base@, names) && mains_gave(s, base@, names, 0, start, r);
    lemma_mains(s, base@, names, 0, start, r);
    assert(known_by(s, base@, names, names.len() as int, Mains { found: r is Some, online: r == Some(true) }));
}

/// Whether what is known after the nodes below `to` is what they said.
spec fn known_by<S: SysfsIo>(
    s: &S,
    base: Seq<char>,
    names: Seq<Seq<char>>,
    to: int,
    mains: Mains,
) -> bool {
    &&& mains.online ==> mains.found && exists|i: int|
        0 <= i < to && node_said(s, base + "/"@ + #[trigger] names[i], Some(true))
    &&& mains.found && !mains.online ==> exists|i: int|
        0 <= i < to && node_said(s, base + "/"@ + #[trigger] names[i], Some(false))
    &&& !mains.online ==> forall|i: int|
        0 <= i < to ==> not_online(s, base + "/"@ + #[trigger] names[i])
    &&& !mains.found ==> forall|i: int|
        0 <= i < to ==> node_said(s, base + "/"@ + #[trigger] names[i], None)
}

proof fn lemma_mains<S: SysfsIo>(
    s: &S,
    base: Seq<char>,
    names: Seq<Seq<char>>,
    from: int,
    mains: Mains,
    r: Option<bool>,
)
    requires
        mains_gave(s, base, names, from, mains, r),
        0 <= from <= names.len(),
        known_by(s, base, names, from, mains),
    ensures
        known_by(
            s,
            base,
            names,
            names.len() as int,
            Mains { found: r is Some, online: r == Some(true) },
        ),
    decreases names.len() - from,
{
    if from < names.len() {
        let node = base + "/"@ + names[from];
        let kind = choose|kind: Result<String, SysfsError>| #[trigger]
            sysfs::read_gave(s, node + "/type"@, kind) && if text::trimmed(
                sysfs::text_or_empty(kind),
            ) == "Mains"@ {
                exists|online: Result<String, SysfsError>| #[trigger]
                    sysfs::read_gave(s, node + "/online"@, online) && mains_gave(
                        s,
                        base,
                        names,
                        from + 1,
                        Mains {
                            found: true,
                            online: mains.online || text::trimmed(sysfs::text_or_empty(online))
                                == "1"@,
                        },
                        r,
                    )
            } else {
                mains_gave(s, base, names, from + 1, mains, r)
            };
        if text::trimmed(sysfs::text_or_empty(kind)) == "Mains"@ {
            let state = choose|online: Result<String, SysfsError>| #[trigger]
                sysfs::read_gave(s, node + "/online"@, online) && mains_gave(
                    s,
                    base,
                    names,
                    from + 1,
                    Mains {
                        found: true,
                        online: mains.online || text::trimmed(sysfs::text_or_empty(online))
                            == "1"@,
                    },
                    r,
                );
            let now = text::trimmed(sysfs::text_or_empty(state)) == "1"@;
            let after = Mains { found: true, online: mains.online || now };
            assert(node_said(s, base + "/"@ + names[from], Some(now)));
            assert(known_by(s, base, names, from + 1, after));
            lemma_mains(s, base, names, from + 1, after, r);
        } else {
            assert(node_said(s, base + "/"@ + names[from], None));
            assert(known_by(s, base, names, from + 1, mains));
            lemma_mains(s, base, names, from + 1, mains, r);
        }
    }
}

/// A change of the charger is told of, and only a change: what is found twice is news once,
/// and what cannot be found out is no news and changes nothing.
pub proof fn only_a_change_is_news(last: &mut Option<bool>, current: Option<bool>, r: Option<Transition>)
    requires
        call_ensures(emit_if_changed, (last, current), r),
    ensures
        r is Some <==> current is Some && *old(last) != current,
        r matches Some(event) ==> event == Transition::AcPowerChanged(current->0),
        *final(last) == (if current is Some { current } else { *old(last) }),
{
}

} // verus!
