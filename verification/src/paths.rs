//! Where the gateway's configuration is kept.
use crate::text;
use crate::text::{no_texts, push_text};
use vstd::prelude::*;
use vstd::string::*;

verus! {

/// A path below a directory: the names to walk down from it, in order.
pub struct PathBelow<H> {
    pub base: H,
    pub names: Vec<String>,
}

/// The user's home directory, which has to be known.
pub fn home_dir<H>(found: Option<H>) -> (home: Result<H, String>)
    ensures
        match (found, home) {
            (Some(f), Ok(h)) => h == f,
            (None, Err(e)) => e@ == "Unable to determine home directory"@,
            _ => false,
        },
{
    match found {
        Some(home) => Ok(home),
        None => Err("Unable to determine home directory".to_owned()),
    }
}

/// The directory of the configuration, given the user's home directory.
pub fn openclaw_config_dir<H>(home: Option<H>) -> (dir: Result<PathBelow<H>, String>)
    ensures
        match (home, dir) {
            (Some(h), Ok(d)) => d.base == h && text::texts(d.names@) == seq![".openclaw"@],
            (None, Err(e)) => e@ == "Unable to determine home directory"@,
            _ => false,
        },
{
    match home_dir(home) {
        Ok(base) => {
            let mut names = no_texts();
            push_text(&mut names, ".openclaw".to_owned());
            Ok(PathBelow { base, names })
        },
        Err(error) => Err(error),
    }
}

/// The configuration file, given the user's home directory.
pub fn openclaw_config_path<H>(home: Option<H>) -> (path: Result<PathBelow<H>, String>)
    ensures
        match (home, path) {
            (Some(h), Ok(p)) => p.base == h && text::texts(p.names@) == seq![
                ".openclaw"@,
                "openclaw.json"@,
            ],
            (None, Err(e)) => e@ == "Unable to determine home directory"@,
            _ => false,
        },
{
    match openclaw_config_dir(home) {
        Ok(dir) => {
            let mut names = dir.names;
            push_text(&mut names, "openclaw.json".to_owned());
            Ok(PathBelow { base: dir.base, names })
        },
        Err(error) => Err(error),
    }
}

/// The configuration is the file `openclaw.json` in the directory `.openclaw`
/// below the home directory, whatever that is; without a home directory there is
/// neither.
pub proof fn law_configuration_is_below_home<H>(
    home: H,
    known: Result<H, String>,
    unknown: Result<H, String>,
    dir: Result<PathBelow<H>, String>,
    path: Result<PathBelow<H>, String>,
    no_dir: Result<PathBelow<H>, String>,
    no_path: Result<PathBelow<H>, String>,
)
    requires
        call_ensures(home_dir::<H>, (Some(home),), known),
        call_ensures(home_dir::<H>, (None,), unknown),
        call_ensures(openclaw_config_dir::<H>, (Some(home),), dir),
        call_ensures(openclaw_config_path::<H>, (Some(home),), path),
        call_ensures(openclaw_config_dir::<H>, (None,), no_dir),
        call_ensures(openclaw_config_path::<H>, (None,), no_path),
    ensures
        dir matches Ok(d) && d.base == home && d.names@.len() == 1 && d.names@[0]@
            == ".openclaw"@,
        path matches Ok(p) && p.base == home && p.names@.len() == 2 && p.names@[0]@
            == ".openclaw"@ && p.names@[1]@ == "openclaw.json"@,
        known matches Ok(h) && h == home,
        unknown matches Err(e) && e@ == "Unable to determine home directory"@,
        no_dir matches Err(e) && e@ == "Unable to determine home directory"@,
        no_path matches Err(e) && e@ == "Unable to determine home directory"@,
{
    let d = dir->Ok_0;
    let p = path->Ok_0;
    assert(dir is Ok && path is Ok);
    assert(text::texts(d.names@).len() == 1);
    assert(text::texts(d.names@)[0] == d.names@[0]@);
    assert(text::texts(p.names@).len() == 2);
    assert(text::texts(p.names@)[0] == p.names@[0]@ && text::texts(p.names@)[1] == p.names@[1]@);
}

} // verus!
