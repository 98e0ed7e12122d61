//! Where installed profiles live, and the messages about them.

use vstd::prelude::*;
use crate::models::command::{joined, quoted};
use crate::text::owned;

verus! {

/// `dirs::home_dir`, as text. The home directory comes from `$HOME` or the
/// user database (or the profile folder on Windows); nothing is stated of it.
#[verifier::external_body]
fn home_dir() -> (r: Option<String>) {
    dirs::home_dir().map(|p| p.to_string_lossy().into_owned())
}

/// `PathBuf::join` of a relative or absolute file name onto a directory:
/// an absolute name replaces the directory, an empty directory gives the
/// name, otherwise one `/` separates them.
pub open spec fn path_join(dir: Seq<char>, file: Seq<char>) -> Seq<char> {
    if file.len() > 0 && file[0] == '/' {
        file
    } else if dir.len() == 0 {
        file
    } else if dir.last() == '/' {
        dir + file
    } else {
        dir + seq!['/'] + file
    }
}

/// `PathBuf::join`.
pub fn join_path(dir: &str, file: &str) -> (r: String)
    ensures
        r@ == path_join(dir@, file@),
{
    let fv = crate::text::to_chars(file);
    let dv = crate::text::to_chars(dir);
    if fv.len() > 0 && fv[0] == '/' {
        owned(file)
    } else if dv.len() == 0 {
        owned(file)
    } else if dv[dv.len() - 1] == '/' {
        joined(dir, file)
    } else {
        proof {
            reveal_strlit("/");
        }
        quoted(dir, "/", file)
    }
}

/// The profile directory under a home directory: `<home>/.config/ycallr/apis`,
/// or `.config/ycallr/apis` without one.
pub open spec fn apis_dir_path(home: Option<Seq<char>>) -> Seq<char> {
    match home {
        Some(h) => path_join(path_join(path_join(h, ".config"@), "ycallr"@), "apis"@),
        None => ".config/ycallr/apis"@,
    }
}

/// The profile directory for a given home directory.
pub fn apis_dir_in(home: Option<&str>) -> (r: String)
    ensures
        r@ == apis_dir_path(
            match home {
                Some(h) => Some(h@),
                None => None,
            },
        ),
{
    match home {
        Some(h) => {
            let a = join_path(h, ".config");
            let b = join_path(a.as_str(), "ycallr");
            join_path(b.as_str(), "apis")
        },
        None => owned(".config/ycallr/apis"),
    }
}

/// Default profile directory: `~/.config/ycallr/apis`.
pub fn apis_dir() -> (r: String)
    ensures
        exists|home: Option<Seq<char>>| r@ == apis_dir_path(home),
{
    let home = home_dir();
    let r = match &home {
        Some(h) => apis_dir_in(Some(h.as_str())),
        None => apis_dir_in(None),
    };
    proof {
        let h = match home {
            Some(h) => Some(h@),
            None => None,
        };
        assert(r@ == apis_dir_path(h));
    }
    r
}

/// The YAML source of profile `name` in `dir`.
pub fn yaml_profile_path_in(dir: &str, name: &str) -> (r: String)
    ensures
        r@ == path_join(dir@, name@ + ".yaml"@),
{
    let file = joined(name, ".yaml");
    join_path(dir, file.as_str())
}

/// The compiled profile `name` in `dir`.
pub fn compiled_profile_path_in(dir: &str, name: &str) -> (r: String)
    ensures
        r@ == path_join(dir@, name@ + ".pb"@),
{
    let file = joined(name, ".pb");
    join_path(dir, file.as_str())
}

/// `~/.config/ycallr/apis/<name>.yaml`.
pub fn yaml_profile_path(name: &str) -> (r: String)
    ensures
        exists|home: Option<Seq<char>>| r@ == path_join(apis_dir_path(home), name@ + ".yaml"@),
{
    let dir = apis_dir();
    yaml_profile_path_in(dir.as_str(), name)
}

/// `~/.config/ycallr/apis/<name>.pb`.
pub fn compiled_profile_path(name: &str) -> (r: String)
    ensures
        exists|home: Option<Seq<char>>| r@ == path_join(apis_dir_path(home), name@ + ".pb"@),
{
    let dir = apis_dir();
    compiled_profile_path_in(dir.as_str(), name)
}

/// The hint for a missing profile, mentioning the YAML source when one exists.
pub open spec fn not_installed_text(name: Seq<char>, yaml_source: Option<Seq<char>>) -> Seq<char> {
    let base = "API profile '"@ + name + "' is not installed. Install it with: ycallr install "@ + name;
    match yaml_source {
        Some(p) => base + "\nYAML source found at "@ + p + " — run install to compile it."@,
        None => base,
    }
}

/// Human-readable hint when a profile is missing on disk; `yaml_source` is
/// the path of its YAML source when that file exists.
pub fn not_installed_message(name: &str, yaml_source: Option<&str>) -> (r: String)
    ensures
        r@ == not_installed_text(
            name@,
            match yaml_source {
                Some(p) => Some(p@),
                None => None,
            },
        ),
{
    let mut msg = quoted("API profile '", name, "' is not installed. Install it with: ycallr install ");
    msg.append(name);
    match yaml_source {
        Some(p) => {
            msg.append("\nYAML source found at ");
            msg.append(p);
            msg.append(" — run install to compile it.");
        },
        None => {},
    }
    msg
}

} // verus!
