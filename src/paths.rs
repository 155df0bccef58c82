use vstd::prelude::*;
use crate::save::SaveError;
use crate::text::opt_chars;

verus! {

/// Where the game keeps its saves on Windows, under the home directory.
pub const WINDOWS_SAVE_DIR: &'static str = "AppData\\LocalLow\\Cradle Games\\Hellpoint";

/// The default configuration root, under the home directory.
pub const DEFAULT_CONFIG_DIR: &'static str = ".config";

/// Where the engine keeps the saves, under the configuration root.
pub const ENGINE_SAVE_DIR: &'static str = "unity3d/Cradle Games/Hellpoint";

/// Where the sandboxed Steam distribution keeps the saves, under the home directory.
pub const FLATPAK_SAVE_DIR: &'static str = ".var/app/com.valvesoftware.Steam/config/unity3d/Cradle Games/Hellpoint";

/// `rel` appended to `base`, with `sep` between them unless `base` is empty or
/// already ends in `sep`.
pub open spec fn joined(base: Seq<char>, rel: Seq<char>, sep: char) -> Seq<char> {
    if base.len() == 0 || base.last() == sep {
        base + rel
    } else {
        base + seq![sep] + rel
    }
}

/// The configuration root: the override when it is set and not empty, else
/// `.config` under the home directory.
pub open spec fn config_root(home: Seq<char>, config_home: Option<Seq<char>>) -> Seq<char> {
    match config_home {
        Some(c) => if c.len() > 0 {
            c
        } else {
            joined(home, DEFAULT_CONFIG_DIR@, '/')
        },
        None => joined(home, DEFAULT_CONFIG_DIR@, '/'),
    }
}

/// The directories where saves may be, in the order they are tried.
pub open spec fn candidate_dirs(home: Seq<char>, config_home: Option<Seq<char>>, windows: bool) -> Seq<
    Seq<char>,
> {
    if windows {
        seq![joined(home, WINDOWS_SAVE_DIR@, '\\')]
    } else {
        seq![
            joined(config_root(home, config_home), ENGINE_SAVE_DIR@, '/'),
            joined(home, FLATPAK_SAVE_DIR@, '/'),
        ]
    }
}

fn join(base: &str, rel: &str, sep: &str) -> (r: String)
    requires
        sep@.len() == 1,
    ensures
        r@ == joined(base@, rel@, sep@[0]),
{
    let mut s = String::from_str(base);
    let n = base.unicode_len();
    if n > 0 && base.get_char(n - 1) != sep.get_char(0) {
        s.append(sep);
    }
    s.append(rel);
    assert(s@ =~= joined(base@, rel@, sep@[0]));
    s
}

/// The directories where saves may be, in the order they are tried: on Windows
/// one under the home directory; elsewhere the engine's directory under the
/// configuration root (`config_home`, the user's override, when set and not
/// empty), then the sandboxed distribution's under the home directory.
pub fn save_dir_candidates(home: &String, config_home: Option<&String>, windows: bool) -> (r: Vec<String>)
    ensures
        r@.len() == candidate_dirs(home@, opt_chars(config_home), windows).len(),
        forall|k: int|
            0 <= k < r@.len() ==> (#[trigger] r@[k])@ == candidate_dirs(
                home@,
                opt_chars(config_home),
                windows,
            )[k],
{
    proof {
        reveal_strlit("/");
        reveal_strlit("\\");
    }
    let mut r: Vec<String> = Vec::new();
    if windows {
        r.push(join(home.as_str(), WINDOWS_SAVE_DIR, "\\"));
        return r;
    }
    let root = match config_home {
        Some(c) => if c.as_str().unicode_len() > 0 {
            c.clone()
        } else {
            join(home.as_str(), DEFAULT_CONFIG_DIR, "/")
        },
        None => join(home.as_str(), DEFAULT_CONFIG_DIR, "/"),
    };
    r.push(join(root.as_str(), ENGINE_SAVE_DIR, "/"));
    r.push(join(home.as_str(), FLATPAK_SAVE_DIR, "/"));
    r
}

/// The first candidate directory that exists, by index, given for each
/// candidate whether it exists; `NotFound` when none does.
pub fn pick_save_dir(exists: &Vec<bool>) -> (r: Result<usize, SaveError>)
    ensures
        match r {
            Ok(k) => k < exists@.len() && exists@[k as int] && forall|j: int|
                0 <= j < k ==> !exists@[j],
            Err(e) => e == SaveError::NotFound && forall|j: int| 0 <= j < exists@.len() ==> !exists@[j],
        },
{
    let mut i: usize = 0;
    while i < exists.len()
        invariant
            i <= exists@.len(),
            forall|j: int| 0 <= j < i ==> !exists@[j],
        decreases exists@.len() - i,
    {
        if exists[i] {
            return Ok(i);
        }
        i = i + 1;
    }
    Err(SaveError::NotFound)
}

} // verus!
