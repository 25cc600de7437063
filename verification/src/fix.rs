//! Installing the policy of the authority: who does it, and with which right.

use crate::text;
use vstd::prelude::*;

verus! {

/// Where the authority looks for the policy.
pub const POLICY_DEST: &'static str = "/usr/share/polkit-1/actions/dev.cirodev.hpd.policy";

/// Where the authority looks for the rules.
pub const RULES_DEST: &'static str = "/usr/share/polkit-1/rules.d/49-hpd.rules";

/// What follows the first line that begins with `prefix`.
pub open spec fn field(lines: Seq<Seq<char>>, from: int, prefix: Seq<char>) -> Option<Seq<char>>
    decreases lines.len() - from,
{
    if from < 0 || from >= lines.len() {
        None
    } else if text::has_prefix(lines[from], prefix) {
        Some(lines[from].skip(prefix.len() as int))
    } else {
        field(lines, from + 1, prefix)
    }
}

/// The effective user of a process, by its status as the kernel tells it: the
/// second word after `Uid:`.
pub open spec fn effective_user(status: Seq<char>) -> Option<Seq<char>> {
    match field(text::lines_of(status), 0, "Uid:"@) {
        Some(rest) => if text::words(rest).len() > 1 {
            Some(text::words(rest)[1])
        } else {
            None
        },
        None => None,
    }
}

/// Whether a process runs as root, by its status; not where there is none.
pub fn is_root(status: Option<&str>) -> (r: bool)
    ensures
        r <==> (status matches Some(s) && effective_user(s@) == Some("0"@)),
{
    match status {
        Some(status) => tells_of_root(status),
        None => false,
    }
}

fn tells_of_root(status: &str) -> (r: bool)
    ensures
        r <==> effective_user(status@) == Some("0"@),
{
    let lines = text::lines(status);
    let ghost all = text::texts(lines@);
    let mut i: usize = 0;
    while i < lines.len()
        invariant
            i <= lines.len(),
            all == text::texts(lines@),
            all == text::lines_of(status@),
            field(all, i as int, "Uid:"@) == field(all, 0, "Uid:"@),
        decreases lines.len() - i,
    {
        if let Some(rest) = text::strip_prefix(lines[i].as_str(), "Uid:") {
            let words = text::split_whitespace(rest);
            assert(text::texts(words@) == text::words(rest@));
            if words.len() > 1 {
                assert(text::texts(words@)[1] == words@[1]@);
                return text::same(words[1].as_str(), "0");
            }
            return false;
        }
        i = i + 1;
    }
    false
}

/// How a repair is carried out.
#[derive(Debug, Clone, Copy, PartialEq, Eq, Structural)]
pub enum Route {
    /// Here and now.
    Direct,
    /// By running again with the rights of root.
    Elevate,
}

/// How the policy is installed: `apply` is set where the rights are there
/// already.
pub fn run(apply: bool, root: bool) -> (r: Route)
    ensures
        r == (if apply || root {
            Route::Direct
        } else {
            Route::Elevate
        }),
{
    if apply || root {
        Route::Direct
    } else {
        Route::Elevate
    }
}

/// The tool that asks for the rights of root, by what is installed.
pub fn elevation_tool(has_pkexec: bool, has_sudo: bool) -> (r: Option<&'static str>)
    ensures
        match r {
            Some(tool) => if has_pkexec {
                tool@ == "pkexec"@
            } else {
                has_sudo && tool@ == "sudo"@
            },
            None => !has_pkexec && !has_sudo,
        },
{
    if has_pkexec {
        Some("pkexec")
    } else if has_sudo {
        Some("sudo")
    } else {
        None
    }
}

/// The exit code of the run with the rights of root: nothing where it was
/// killed.
pub fn exit_code(success: bool, code: Option<i32>) -> (r: i32)
    ensures
        r == (if success {
            0
        } else {
            match code {
                Some(code) => code,
                None => 1,
            }
        }),
{
    if success {
        0
    } else {
        match code {
            Some(code) => code,
            None => 1,
        }
    }
}

/// Rights are asked for only where they are not there, and a run that did well ends in zero
/// whatever else is told of it; one that did not ends as it told.
pub proof fn rights_are_asked_for_where_they_lack(
    apply: bool,
    root: bool,
    route: Route,
    pkexec: bool,
    sudo: bool,
    tool: Option<&'static str>,
    success: bool,
    code: Option<i32>,
    end: i32,
)
    requires
        call_ensures(run, (apply, root), route),
        call_ensures(elevation_tool, (pkexec, sudo), tool),
        call_ensures(exit_code, (success, code), end),
    ensures
        route is Elevate <==> !apply && !root,
        tool is Some <==> pkexec || sudo,
        tool matches Some(t) ==> (t@ == "pkexec"@ <==> pkexec) && (t@ == "sudo"@ <==> !pkexec),
        success ==> end == 0,
        !success && code is Some ==> end == code->0,
        !success && code is None ==> end == 1,
{
    reveal_strlit("pkexec");
    reveal_strlit("sudo");
    assert("pkexec"@.len() == 6 && "sudo"@.len() == 4);
}

/// A process is root by the second number on its line of users, which is the effective one:
/// the first one does not matter.
pub proof fn the_effective_user_counts(status: &str, i: int, r: bool)
    requires
        call_ensures(is_root, (Some(status),), r),
        0 <= i < text::lines_of(status@).len(),
        text::has_prefix(text::lines_of(status@)[i], "Uid:"@),
        text::words(text::lines_of(status@)[i].skip(4)).len() > 1,
        forall|k: int|
            0 <= k < i ==> !text::has_prefix(#[trigger] text::lines_of(status@)[k], "Uid:"@),
    ensures
        r <==> text::words(text::lines_of(status@)[i].skip(4))[1] == "0"@,
{
    reveal_strlit("Uid:");
    lemma_field(text::lines_of(status@), 0, i);
}

proof fn lemma_field(lines: Seq<Seq<char>>, from: int, i: int)
    requires
        0 <= from <= i < lines.len(),
        text::has_prefix(lines[i], "Uid:"@),
        forall|k: int| from <= k < i ==> !text::has_prefix(#[trigger] lines[k], "Uid:"@),
    ensures
        field(lines, from, "Uid:"@) == Some(lines[i].skip("Uid:"@.len() as int)),
    decreases i - from,
{
    if from < i {
        lemma_field(lines, from + 1, i);
    }
}

} // verus!
