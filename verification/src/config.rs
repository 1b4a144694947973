//! Launcher settings and where the launcher keeps its files.
//!
//! Paths are lists of components below the user's data directory (the
//! platform's application data folder, or the current directory when the
//! platform has none); the caller joins them onto that directory.
use vstd::prelude::*;

verus! {

/// The settings the launcher remembers between runs.
#[derive(Debug, Clone)]
pub struct Config {
    pub username: String,
    pub version_id: String,
    pub show_snapshots: bool,
    pub ram_mb: u32,
}

impl Default for Config {
    /// No user or version chosen, snapshots hidden, 2048 MB of memory.
    fn default() -> (r: Self)
        ensures
            r.username@ == Seq::<char>::empty(),
            r.version_id@ == Seq::<char>::empty(),
            !r.show_snapshots,
            r.ram_mb == 2048,
    {
        Config { username: String::new(), version_id: String::new(), show_snapshots: false, ram_mb: 2048 }
    }
}

/// A path of one component.
pub fn path1(a: &str) -> (r: Vec<String>)
    ensures
        r.deep_view() == seq![a@],
{
    let mut r: Vec<String> = Vec::new();
    r.push(a.to_owned());
    assert(r.deep_view() =~= seq![a@]);
    r
}

/// The path extended by one component.
pub fn path_join(base: &Vec<String>, part: &str) -> (r: Vec<String>)
    ensures
        r.deep_view() == base.deep_view().push(part@),
{
    let mut r: Vec<String> = Vec::new();
    let n = base.len();
    for i in 0..n
        invariant
            n == base@.len(),
            r.deep_view() == base.deep_view().take(i as int),
    {
        let ghost before = r.deep_view();
        let c = base[i].clone();
        r.push(c);
        assert(r.deep_view() =~= before.push(base.deep_view()[i as int]));
        assert(base.deep_view().take(i + 1) =~= base.deep_view().take(i as int).push(base.deep_view()[i as int]));
    }
    assert(base.deep_view().take(n as int) =~= base.deep_view());
    let ghost before = r.deep_view();
    r.push(part.to_owned());
    assert(r.deep_view() =~= before.push(part@));
    r
}

/// The launcher's own folder.
pub fn config_dir() -> (r: Vec<String>)
    ensures
        r.deep_view() == seq!["minelts"@],
{
    path1("minelts")
}

/// The settings file.
pub fn config_path() -> (r: Vec<String>)
    ensures
        r.deep_view() == seq!["minelts"@, "config.json"@],
{
    let r = path_join(&config_dir(), "config.json");
    assert(r.deep_view() =~= seq!["minelts"@, "config.json"@]);
    r
}

/// The game's data folder.
pub fn minecraft_dir() -> (r: Vec<String>)
    ensures
        r.deep_view() == seq![".minecraft"@],
{
    path1(".minecraft")
}

} // verus!
