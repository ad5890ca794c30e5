//! Where files live: the takeover record, and the sing-box binary the tunnel runs.
use vstd::prelude::*;
use crate::command::{owned, strings_view};
use crate::takeover::Platform;

verus! {

/// `shellexpand::tilde` expands this input: a leading `~` alone or followed by a separator.
pub open spec fn tilde_expandable(s: Seq<char>) -> bool {
    s.len() >= 1 && s[0] == '~' && (s.len() == 1 || s[1] == '/' || s[1] == '\\')
}

/// `shellexpand::tilde(s)`: an input that does not start with `~` and a separator (or
/// end there) comes back as it is; otherwise the `~` is replaced by the home directory,
/// or the input comes back as it is where there is no home directory. The home directory
/// comes from the environment, so nothing more is stated of it.
#[verifier::external_body]
fn expand_tilde(s: &str) -> (res: String)
    ensures
        !tilde_expandable(s@) ==> res@ == s@,
        tilde_expandable(s@) ==> res@ == s@ || exists|home: Seq<char>| res@ == home + s@.drop_first(),
{
    shellexpand::tilde(s).to_string()
}

/// Where the takeover record lives: `base`, then `subdir` when there is one, then `file_name`.
#[derive(Debug, Clone)]
pub struct RecordLocation {
    pub base: String,
    pub subdir: Option<String>,
    pub file_name: String,
}

/// The directory of the application's data, as a path with a leading `~`.
pub open spec fn unix_data_dir(platform: Platform) -> Seq<char> {
    if platform == Platform::MacOs {
        "~/Library/Application Support/com.xiaziteam.chatgpt-shell"@
    } else {
        "~/.config/com.xiaziteam.chatgpt-shell"@
    }
}

/// Where the takeover record lives: on Windows `%APPDATA%` (or `.` where it is not set)
/// and the application's directory; on macOS and Linux the application's data directory
/// with `~` expanded. The file is `proxy_takeover.json`.
pub fn takeover_record_location(platform: Platform, appdata: Option<String>) -> (loc: RecordLocation)
    ensures
        loc.file_name@ == "proxy_takeover.json"@,
        platform == Platform::Windows ==> loc.base@ == (match appdata { Some(a) => a@, None => "."@ })
            && (loc.subdir matches Some(d) && d@ == "com.xiaziteam.chatgpt-shell"@),
        platform != Platform::Windows ==> loc.subdir is None
            && (loc.base@ == unix_data_dir(platform)
                || exists|home: Seq<char>| loc.base@ == home + unix_data_dir(platform).drop_first()),
{
    let file_name = owned("proxy_takeover.json");
    match platform {
        Platform::Windows => {
            let base = match appdata {
                Some(a) => a,
                None => owned("."),
            };
            RecordLocation { base, subdir: Some(owned("com.xiaziteam.chatgpt-shell")), file_name }
        },
        Platform::MacOs => {
            let base = expand_tilde("~/Library/Application Support/com.xiaziteam.chatgpt-shell");
            RecordLocation { base, subdir: None, file_name }
        },
        Platform::Linux => {
            let base = expand_tilde("~/.config/com.xiaziteam.chatgpt-shell");
            RecordLocation { base, subdir: None, file_name }
        },
    }
}

/// The names of a sing-box bundled next to the executable, in the order they are tried.
pub fn bundled_singbox_names(platform: Platform) -> (names: Vec<String>)
    ensures
        platform == Platform::Windows ==> strings_view(names@) == seq!["sing-box.exe"@, "singbox.exe"@],
        platform != Platform::Windows ==> strings_view(names@) == seq!["sing-box"@],
{
    let mut names: Vec<String> = Vec::new();
    match platform {
        Platform::Windows => {
            names.push(owned("sing-box.exe"));
            names.push(owned("singbox.exe"));
            assert(strings_view(names@) =~= seq!["sing-box.exe"@, "singbox.exe"@]);
        },
        _ => {
            names.push(owned("sing-box"));
            assert(strings_view(names@) =~= seq!["sing-box"@]);
        },
    }
    names
}

/// The installed locations tried when no sing-box is bundled (outside Windows); each
/// goes through tilde expansion, which leaves them as they are.
pub fn system_singbox_candidates(platform: Platform) -> (paths: Vec<String>)
    ensures
        platform == Platform::Windows ==> paths@.len() == 0,
        platform != Platform::Windows ==> strings_view(paths@) == seq![
            "/usr/local/bin/sing-box"@, "$HOME/bin/sing-box"@, "$HOME/.local/bin/sing-box"@,
        ],
{
    let mut paths: Vec<String> = Vec::new();
    if platform != Platform::Windows {
        proof {
            reveal_strlit("/usr/local/bin/sing-box");
            reveal_strlit("$HOME/bin/sing-box");
            reveal_strlit("$HOME/.local/bin/sing-box");
        }
        paths.push(expand_tilde("/usr/local/bin/sing-box"));
        paths.push(expand_tilde("$HOME/bin/sing-box"));
        paths.push(expand_tilde("$HOME/.local/bin/sing-box"));
        assert(strings_view(paths@) =~= seq![
            "/usr/local/bin/sing-box"@, "$HOME/bin/sing-box"@, "$HOME/.local/bin/sing-box"@,
        ]);
    }
    paths
}

/// The first path that exists.
pub open spec fn first_existing(c: Seq<(String, bool)>) -> Option<Seq<char>>
    decreases c.len(),
{
    if c.len() == 0 {
        None
    } else if c[0].1 {
        Some(c[0].0@)
    } else {
        first_existing(c.drop_first())
    }
}

fn first_existing_exec(c: &Vec<(String, bool)>) -> (r: Option<String>)
    ensures
        match r {
            Some(p) => first_existing(c@) == Some(p@),
            None => first_existing(c@) is None,
        },
{
    let mut i: usize = 0;
    proof {
        assert(c@.skip(0) =~= c@);
    }
    while i < c.len()
        invariant
            i <= c.len(),
            first_existing(c@) == first_existing(c@.skip(i as int)),
        decreases c.len() - i,
    {
        assert(c@.skip(i as int)[0] == c@[i as int]);
        if c[i].1 {
            return Some(c[i].0.clone());
        }
        assert(c@.skip(i as int).drop_first() =~= c@.skip(i + 1));
        i = i + 1;
    }
    None
}

/// The sing-box to run, from the bundled candidates and the installed ones, each with
/// whether it exists: the first bundled one that exists; else, on Windows, `sing-box.exe`
/// from the search path; else the first installed one that exists; else none.
pub fn choose_singbox(platform: Platform, bundled: &Vec<(String, bool)>, installed: &Vec<(String, bool)>) -> (r: Option<String>)
    ensures
        first_existing(bundled@) matches Some(p) ==> (r matches Some(q) && q@ == p),
        first_existing(bundled@) is None && platform == Platform::Windows ==> (r matches Some(q) && q@ == "sing-box.exe"@),
        first_existing(bundled@) is None && platform != Platform::Windows ==> match first_existing(installed@) {
            Some(p) => r matches Some(q) && q@ == p,
            None => r is None,
        },
{
    match first_existing_exec(bundled) {
        Some(p) => Some(p),
        None => {
            if platform == Platform::Windows {
                Some(owned("sing-box.exe"))
            } else {
                first_existing_exec(installed)
            }
        },
    }
}

} // verus!

verus! {

/// The path chosen among candidates is the first one, in order, that exists: where one
/// is chosen, it exists and none before it does; where none is chosen, none exists.
pub proof fn lemma_first_existing_is_first(c: Seq<(String, bool)>)
    ensures
        match first_existing(c) {
            Some(p) => exists|i: int| 0 <= i < c.len() && (#[trigger] c[i]).1 && c[i].0@ == p
                && forall|j: int| 0 <= j < i ==> !(#[trigger] c[j]).1,
            None => forall|j: int| 0 <= j < c.len() ==> !(#[trigger] c[j]).1,
        },
        c.len() > 0 && c[0].1 ==> first_existing(c) == Some(c[0].0@),
    decreases c.len(),
{
    if c.len() > 0 && !c[0].1 {
        let t = c.drop_first();
        lemma_first_existing_is_first(t);
        match first_existing(t) {
            Some(p) => {
                let i = choose|i: int| 0 <= i < t.len() && (#[trigger] t[i]).1 && t[i].0@ == p
                    && forall|j: int| 0 <= j < i ==> !(#[trigger] t[j]).1;
                assert(c[i + 1] == t[i]);
                assert forall|j: int| 0 <= j < i + 1 implies !(#[trigger] c[j]).1 by {
                    if j > 0 {
                        assert(c[j] == t[j - 1]);
                    }
                }
            },
            None => {
                assert forall|j: int| 0 <= j < c.len() implies !(#[trigger] c[j]).1 by {
                    if j > 0 {
                        assert(c[j] == t[j - 1]);
                    }
                }
            },
        }
    } else if c.len() > 0 {
        assert(c[0].1);
    }
}

} // verus!
