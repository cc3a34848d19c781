//! Where the local cache lives on each kind of system.

use vstd::prelude::*;
use crate::text::{strip_trailing, strip_trailing_exec};

verus! {

/// The kinds of system whose data directories differ.
#[derive(Clone, Copy, Debug, PartialEq, Eq)]
pub enum Platform {
    Windows,
    MacOs,
    Other,
}

/// The directory used when the environment names none.
pub open spec fn fallback_dir() -> Seq<char> {
    "./.scrobblist"@
}

/// The path of the cache database: under `APPDATA` on Windows (without its
/// trailing backslashes), under `HOME` elsewhere, each falling back to
/// `./.scrobblist` when unset.
pub open spec fn database_path(platform: Platform, dir: Option<Seq<char>>) -> Seq<char> {
    let d = match dir {
        Some(s) => s,
        None => fallback_dir(),
    };
    match platform {
        Platform::Windows => strip_trailing(d, '\\') + "/Scrobblist/scrobblist.db"@,
        Platform::MacOs => d + "/Library/Application Support/Scrobblist/scrobblist.db"@,
        Platform::Other => d + "/.local/share/scrobblist/scrobblist.db"@,
    }
}

/// The path of the cache database, given the platform and the value of
/// `APPDATA` (Windows) or `HOME` (elsewhere), if set.
pub fn default_database_path(platform: Platform, dir: Option<&str>) -> (res: String)
    ensures
        res@ == database_path(
            platform,
            match dir {
                Some(s) => Some(s@),
                None => None,
            },
        ),
{
    let d = match dir {
        Some(s) => s,
        None => "./.scrobblist",
    };
    match platform {
        Platform::Windows => {
            let mut p = strip_trailing_exec(d, '\\');
            p.append("/Scrobblist/scrobblist.db");
            p
        },
        Platform::MacOs => {
            let mut p = d.to_owned();
            p.append("/Library/Application Support/Scrobblist/scrobblist.db");
            p
        },
        Platform::Other => {
            let mut p = d.to_owned();
            p.append("/.local/share/scrobblist/scrobblist.db");
            p
        },
    }
}

} // verus!
