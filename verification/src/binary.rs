//! Finding the OpenClaw program.
use vstd::prelude::*;
use vstd::string::*;

verus! {

/// The names that OpenClaw goes by, in the order in which they are tried.
pub open spec fn binary_names() -> Seq<&'static str> {
    seq!["openclaw", "clawdbot", "openclaw.cmd", "clawdbot.cmd"]
}

/// Whether a path is what looking up the names in order leads to: the path of
/// the first name that is found, or none where no name is.
pub open spec fn first_found<F: Fn(&str) -> Option<String>>(
    lookup: F,
    path: Option<String>,
) -> bool {
    let names = binary_names();
    match path {
        Some(_) => exists|i: int|
            #![trigger names[i]]
            0 <= i < names.len() && call_ensures(lookup, (names[i],), path) && forall|j: int|
                0 <= j < i ==> call_ensures(lookup, (#[trigger] names[j],), None),
        None => forall|j: int|
            0 <= j < names.len() ==> call_ensures(lookup, (#[trigger] names[j],), None),
    }
}

/// Finds OpenClaw under the first of its names that `lookup` knows a path of.
pub fn find_openclaw_binary<F: Fn(&str) -> Option<String>>(lookup: F) -> (path: Option<String>)
    requires
        forall|name: &str| call_requires(lookup, (name,)),
    ensures
        first_found(lookup, path),
{
    let names: [&'static str; 4] = ["openclaw", "clawdbot", "openclaw.cmd", "clawdbot.cmd"];
    let ghost expected = binary_names();
    assert(names@ =~= expected);
    let mut i: usize = 0;
    while i < 4
        invariant
            i <= 4,
            names@ == expected,
            expected == binary_names(),
            forall|name: &str| call_requires(lookup, (name,)),
            forall|j: int| 0 <= j < i ==> call_ensures(lookup, (#[trigger] expected[j],), None),
        decreases 4 - i,
    {
        let name = names[i];
        assert(name == expected[i as int]);
        let path = lookup(name);
        if path.is_some() {
            return path;
        }
        i = i + 1;
    }
    None
}

/// Where OpenClaw is installed, if it is.
pub fn check_openclaw_installed<F: Fn(&str) -> Option<String>>(lookup: F) -> (path: Option<String>)
    requires
        forall|name: &str| call_requires(lookup, (name,)),
    ensures
        first_found(lookup, path),
{
    find_openclaw_binary(lookup)
}

/// The names go by precedence: the first of the four that has a path decides,
/// whatever the others have, and nothing is found exactly if none has one.
pub proof fn law_first_name_with_a_path_decides<F: Fn(&str) -> Option<String>>(
    lookup: F,
    path_of: spec_fn(&str) -> Option<String>,
    path: Option<String>,
    installed: Option<String>,
)
    requires
        forall|name: &str, found: Option<String>| #[trigger]
            call_ensures(lookup, (name,), found) ==> found == path_of(name),
        call_ensures(find_openclaw_binary::<F>, (lookup,), path),
        call_ensures(check_openclaw_installed::<F>, (lookup,), installed),
    ensures
        installed == path,
        path == (if path_of("openclaw") is Some {
            path_of("openclaw")
        } else if path_of("clawdbot") is Some {
            path_of("clawdbot")
        } else if path_of("openclaw.cmd") is Some {
            path_of("openclaw.cmd")
        } else {
            path_of("clawdbot.cmd")
        }),
{
    let names = binary_names();
    assert(names[0] == "openclaw" && names[1] == "clawdbot" && names[2] == "openclaw.cmd"
        && names[3] == "clawdbot.cmd");
}

} // verus!
