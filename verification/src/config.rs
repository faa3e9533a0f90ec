//! Application configuration: the directories to scan for repositories,
//! the editor command, and whether to re-scan when the picker opens.
//! Reading the configuration file is the surrounding application's job;
//! the defaults and the tilde expansion of scan directories live here.

use vstd::prelude::*;
use vstd::string::*;

verus! {

/// Where to scan, what to open, and whether to scan on start.
#[derive(Debug, Clone)]
pub struct Config {
    pub scan_dirs: Vec<String>,
    pub editor: String,
    pub scan_on_open: bool,
}

impl Default for Config {
    /// The built-in defaults: scan `~/Documents`, open `code`, re-scan on
    /// start.  The surrounding application may override the editor from
    /// its environment before use.
    fn default() -> (r: Self)
        ensures
            r.scan_dirs@.len() == 1,
            r.scan_dirs@[0]@ == "~/Documents"@,
            r.editor@ == "code"@,
            r.scan_on_open == true,
    {
        let mut dirs: Vec<String> = Vec::new();
        dirs.push(String::from_str("~/Documents"));
        Config { scan_dirs: dirs, editor: String::from_str("code"), scan_on_open: true }
    }
}

/// Relies on dirs::home_dir: the home directory of the current user as
/// the system environment reports it, when one exists and is valid
/// unicode.  The result depends on the environment, so nothing is assumed
/// about it.
#[verifier::external_body]
fn home_dir_string() -> (r: Option<String>) {
    dirs::home_dir().and_then(|p| p.to_str().map(|s| s.to_string()))
}

/// The home directory as a character sequence, when known.
pub open spec fn home_view(home: Option<String>) -> Option<Seq<char>> {
    match home {
        Some(h) => Some(h@),
        None => None,
    }
}

/// The path starts with the tilde prefix `~/`.
pub open spec fn has_tilde_prefix(path: Seq<char>) -> bool {
    path.len() >= 2 && path[0] == '~' && path[1] == '/'
}

/// What tilde expansion yields for a given home directory: `~/rest`
/// becomes `home/rest` when the home is known, anything else is kept.
pub open spec fn expanded_path(home: Option<Seq<char>>, path: Seq<char>) -> Seq<char> {
    match home {
        Some(h) => {
            if has_tilde_prefix(path) {
                h + "/"@ + path.subrange(2, path.len() as int)
            } else {
                path
            }
        },
        None => path,
    }
}

/// Every result is the matching directory expanded against one home value.
pub open spec fn all_expanded_with(
    r: Seq<String>,
    dirs: Seq<String>,
    home: Option<Seq<char>>,
) -> bool {
    forall|i: int| 0 <= i < r.len() ==> (#[trigger] r[i])@ == expanded_path(home, dirs[i]@)
}

/// Expand a leading `~/` against a given home directory.  Split out from
/// the environment lookup so the expansion itself is checked for every
/// possible home value.
pub fn expand_path_with(home: &Option<String>, path: &str) -> (r: String)
    ensures
        r@ == expanded_path(home_view(*home), path@),
{
    let n = path.unicode_len();
    let tilde = n >= 2 && path.get_char(0) == '~' && path.get_char(1) == '/';
    match home {
        Some(h) => {
            if tilde {
                let mut out = h.clone();
                out.append("/");
                out.append(path.substring_char(2, n));
                out
            } else {
                path.to_owned()
            }
        },
        None => path.to_owned(),
    }
}

impl Config {
    /// Expand a leading `~/` to the home directory the environment
    /// reports.  A path without the tilde prefix comes back unchanged
    /// whatever the environment says.
    pub fn expand_path(path: &str) -> (r: String)
        ensures
            exists|home: Option<Seq<char>>| r@ == expanded_path(home, path@),
            !has_tilde_prefix(path@) ==> r@ == path@,
    {
        let home = home_dir_string();
        let ghost h = home_view(home);
        let r = expand_path_with(&home, path);
        proof {
            assert(r@ == expanded_path(h, path@));
        }
        r
    }

    /// Every scan directory with its tilde prefix expanded, all against
    /// one home directory lookup.
    pub fn expanded_scan_dirs(&self) -> (r: Vec<String>)
        ensures
            r@.len() == self.scan_dirs@.len(),
            exists|home: Option<Seq<char>>| all_expanded_with(r@, self.scan_dirs@, home),
    {
        let home = home_dir_string();
        let ghost h = home_view(home);
        let n = self.scan_dirs.len();
        let mut out: Vec<String> = Vec::new();
        let mut i: usize = 0;
        while i < n
            invariant
                n == self.scan_dirs@.len(),
                h == home_view(home),
                i <= n,
                out@.len() == i,
                forall|j: int|
                    0 <= j < i ==> (#[trigger] out@[j])@ == expanded_path(
                        h,
                        self.scan_dirs@[j]@,
                    ),
            decreases n - i,
        {
            out.push(expand_path_with(&home, self.scan_dirs[i].as_str()));
            i = i + 1;
        }
        proof {
            assert(all_expanded_with(out@, self.scan_dirs@, h));
        }
        out
    }
}

} // verus!
