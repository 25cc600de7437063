//! The kernel's power-supply nodes, found by what they say they are.

use crate::error::SysfsError;
use crate::sysfs;
use crate::sysfs::SysfsIo;
use crate::text;
use vstd::prelude::*;

verus! {

pub const POWER_SUPPLY_ROOT: &'static str = "/sys/class/power_supply";

/// The directory of the node `name`.
pub open spec fn node_base(name: Seq<char>) -> Seq<char> {
    POWER_SUPPLY_ROOT@ + "/"@ + name
}

/// Whether the node at `base` was found to be of the given kind, or not.
pub open spec fn kind_gave<S: SysfsIo>(s: &S, base: Seq<char>, kind: Seq<char>, is: bool) -> bool {
    exists|raw: Result<String, SysfsError>| #[trigger]
        sysfs::read_gave(s, base + "/type"@, raw) && is == (text::trimmed(
            sysfs::text_or_empty(raw),
        ) == kind)
}

/// Whether `found` are the directories of those of the nodes `names` that were
/// found to be of the given kind, in order.
pub open spec fn nodes_sorted_out<S: SysfsIo>(
    s: &S,
    kind: Seq<char>,
    names: Seq<Seq<char>>,
    found: Seq<Seq<char>>,
) -> bool
    decreases names.len(),
{
    if names.len() == 0 {
        found.len() == 0
    } else {
        let base = node_base(names.last());
        ||| kind_gave(s, base, kind, true) && found.len() > 0 && found.last() == base
            && nodes_sorted_out(s, kind, names.drop_last(), found.drop_last())
        ||| kind_gave(s, base, kind, false) && nodes_sorted_out(s, kind, names.drop_last(), found)
    }
}

/// Whether the nodes of the given kind were found to be `found`.
pub open spec fn nodes_gave<S: SysfsIo>(s: &S, kind: Seq<char>, found: Seq<Seq<char>>) -> bool {
    exists|names: Seq<Seq<char>>| #[trigger]
        sysfs::listing_gave(s, POWER_SUPPLY_ROOT@, names) && nodes_sorted_out(
            s,
            kind,
            names,
            found,
        )
}

/// The directories of the nodes of the given kind, in the order of the listing.
pub fn find_nodes_by_type<S: SysfsIo>(s: &S, kind: &str) -> (r: Vec<String>)
    ensures
        nodes_gave(s, kind@, text::texts(r@)),
{
    let names = sysfs::list(s, POWER_SUPPLY_ROOT);
    let ghost all = text::texts(names@);
    let mut found: Vec<String> = Vec::new();
    let mut i: usize = 0;
    assert(text::texts(found@) =~= Seq::empty());
    while i < names.len()
        invariant
            i <= names.len(),
            all == text::texts(names@),
            nodes_sorted_out(s, kind@, all.take(i as int), text::texts(found@)),
        decreases names.len() - i,
    {
        let mut base = POWER_SUPPLY_ROOT.to_owned();
        base.append("/");
        base.append(names[i].as_str());
        let mut path = base.clone();
        path.append("/type");
        let raw = sysfs::read(s, path.as_str());
        let ghost before = text::texts(found@);
        let ghost raw_read = raw;
        let is = match raw {
            Ok(t) => text::same(text::trim(t.as_str()), kind),
            Err(_) => {
                proof {
                    assert(text::trimmed(Seq::<char>::empty()) =~= Seq::empty());
                }
                kind.is_empty()
            },
        };
        proof {
            assert(all.take(i + 1).drop_last() =~= all.take(i as int));
            assert(all.take(i + 1).last() == names@[i as int]@);
            assert(sysfs::read_gave(s, base@ + "/type"@, raw_read));
            if raw_read is Err {
                assert(kind@.len() == 0 <==> kind@ =~= Seq::empty());
            }
            assert(kind_gave(s, base@, kind@, is));
        }
        if is {
            found.push(base);
            proof {
                let now = text::texts(found@);
                assert(now.drop_last() =~= before);
                assert(now.last() == base@);
            }
        }
        i = i + 1;
    }
    assert(all.take(i as int) =~= all);
    found
}

/// The directory of the first node of the given kind.
pub fn find_node_by_type<S: SysfsIo>(s: &S, kind: &str) -> (r: Option<String>)
    ensures
        first_node_gave(s, kind@, r),
{
    let nodes = find_nodes_by_type(s, kind);
    assert(nodes_gave(s, kind@, text::texts(nodes@)));
    if nodes.len() == 0 {
        None
    } else {
        Some(nodes[0].clone())
    }
}

/// Whether the first node of the given kind was found to be `r`.
pub open spec fn first_node_gave<S: SysfsIo>(s: &S, kind: Seq<char>, r: Option<String>) -> bool {
    exists|found: Seq<Seq<char>>| #[trigger]
        nodes_gave(s, kind, found) && match r {
            Some(base) => found.len() > 0 && base@ == found[0],
            None => found.len() == 0,
        }
}

/// A node that is found lies under the directory of supplies and told that it is of the
/// kind that was asked for.
pub proof fn found_nodes_are_of_their_kind<S: SysfsIo>(s: &S, kind: &str, r: Option<String>)
    requires
        call_ensures(find_node_by_type::<S>, (s, kind), r),
    ensures
        r matches Some(base) ==> exists|name: Seq<char>, raw: Result<String, SysfsError>|
            base@ == "/sys/class/power_supply"@ + "/"@ + name && #[trigger] sysfs::read_gave(
                s,
                "/sys/class/power_supply"@ + "/"@ + name + "/type"@,
                raw,
            ) && text::trimmed(sysfs::text_or_empty(raw)) == kind@,
{
    if let Some(base) = r {
        let found = choose|found: Seq<Seq<char>>| #[trigger]
            nodes_gave(s, kind@, found) && found.len() > 0 && base@ == found[0];
        let names = choose|names: Seq<Seq<char>>| #[trigger]
            sysfs::listing_gave(s, POWER_SUPPLY_ROOT@, names) && nodes_sorted_out(
                s,
                kind@,
                names,
                found,
            );
        let name = lemma_sorted_out(s, kind@, names, found);
        let raw = choose|raw: Result<String, SysfsError>| #[trigger]
            sysfs::read_gave(s, node_base(name) + "/type"@, raw) && text::trimmed(
                sysfs::text_or_empty(raw),
            ) == kind@;
        assert(sysfs::read_gave(
            s,
            "/sys/class/power_supply"@ + "/"@ + name + "/type"@,
            raw,
        ));
    }
}

proof fn lemma_sorted_out<S: SysfsIo>(
    s: &S,
    kind: Seq<char>,
    names: Seq<Seq<char>>,
    found: Seq<Seq<char>>,
) -> (name: Seq<char>)
    requires
        nodes_sorted_out(s, kind, names, found),
        found.len() > 0,
    ensures
        found[0] == node_base(name),
        kind_gave(s, node_base(name), kind, true),
    decreases names.len(),
{
    let base = node_base(names.last());
    if kind_gave(s, base, kind, true) && found.last() == base && nodes_sorted_out(
        s,
        kind,
        names.drop_last(),
        found.drop_last(),
    ) {
        if found.len() == 1 {
            names.last()
        } else {
            lemma_sorted_out(s, kind, names.drop_last(), found.drop_last())
        }
    } else {
        lemma_sorted_out(s, kind, names.drop_last(), found)
    }
}

} // verus!
