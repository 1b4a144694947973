//! Data of Mojang's version and runtime manifests, and the pure functions
//! that read them: Maven coordinates, Java component fallback and runtime
//! lookup.
//!
//! A JSON object used as a map (`{"key": value, ...}`) is held here as a
//! vector of `(key, value)` pairs in document order; since JSON object keys
//! are unique, no key occurs twice (see [`keys_unique`]).
use vstd::prelude::*;
use crate::text::{
    append_chars, chars_of, concat2, concat3, lacks, lemma_replace_char, lemma_split_around,
    lemma_split_without_separator, parse_u32_chars, parse_u32_spec, replace_all, replace_chars, split,
    split_chars, str_eq, string_from_chars, Separator,
};

verus! {

/// The list of all published game versions.
#[derive(Debug, Clone)]
pub struct VersionManifest {
    pub latest: LatestVersions,
    pub versions: Vec<VersionEntry>,
}

/// Identifiers of the newest release and snapshot.
#[derive(Debug, Clone)]
pub struct LatestVersions {
    pub release: String,
    pub snapshot: String,
}

/// One published game version.
#[derive(Debug, Clone)]
pub struct VersionEntry {
    pub id: String,
    pub version_type: String,
    pub url: String,
    pub time: String,
    pub release_time: String,
}

/// The description of one game version (`<id>.json`).
#[derive(Debug, Clone)]
pub struct VersionJson {
    pub id: String,
    pub version_type: String,
    pub main_class: String,
    pub minecraft_arguments: Option<String>,
    pub arguments: Option<ArgumentsBlock>,
    pub asset_index: AssetIndex,
    pub downloads: VersionDownloads,
    pub libraries: Vec<Library>,
    pub java_version: Option<JavaVersionSpec>,
    pub minimum_launcher_version: Option<u32>,
}

/// Game and JVM arguments of newer version files.
#[derive(Debug, Clone)]
pub struct ArgumentsBlock {
    pub game: Vec<ArgumentValue>,
    pub jvm: Vec<ArgumentValue>,
}

/// An argument, given plainly or under rules.
#[derive(Debug, Clone)]
pub enum ArgumentValue {
    Plain(String),
    Conditional { rules: Vec<Rule>, value: ArgumentList },
}

/// One argument or several.
#[derive(Debug, Clone)]
pub enum ArgumentList {
    Single(String),
    Multiple(Vec<String>),
}

/// The arguments an [`ArgumentList`] stands for.
pub open spec fn argument_list_values(list: ArgumentList) -> Seq<Seq<char>> {
    match list {
        ArgumentList::Single(s) => seq![s@],
        ArgumentList::Multiple(v) => v.deep_view(),
    }
}

impl ArgumentList {
    /// The arguments as a vector.
    pub fn into_vec(self) -> (r: Vec<String>)
        ensures
            r.deep_view() == argument_list_values(self),
    {
        match self {
            ArgumentList::Single(s) => {
                let mut v: Vec<String> = Vec::new();
                v.push(s);
                assert(v.deep_view() =~= argument_list_values(self));
                v
            },
            ArgumentList::Multiple(v) => v,
        }
    }
}

/// Where the asset index of a version is found.
#[derive(Debug, Clone)]
pub struct AssetIndex {
    pub id: String,
    pub sha1: String,
    pub size: u64,
    pub url: String,
    pub total_size: u64,
}

/// Downloads of a version.
#[derive(Debug, Clone)]
pub struct VersionDownloads {
    pub client: DownloadEntry,
}

/// A downloadable file with its checksum and size.
#[derive(Debug, Clone)]
pub struct DownloadEntry {
    pub sha1: String,
    pub size: u64,
    pub url: String,
}

/// A library that a version uses.
#[derive(Debug, Clone)]
pub struct Library {
    pub name: String,
    pub downloads: Option<LibraryDownloads>,
    pub rules: Option<Vec<Rule>>,
    pub natives: Option<Vec<(String, String)>>,
    pub extract: Option<ExtractRules>,
}

/// The main artifact of a library and its classified variants (natives).
#[derive(Debug, Clone)]
pub struct LibraryDownloads {
    pub artifact: Option<DownloadEntry>,
    pub classifiers: Option<Vec<(String, DownloadEntry)>>,
}

/// Entries of a natives jar that are not extracted.
#[derive(Debug, Clone)]
pub struct ExtractRules {
    pub exclude: Vec<String>,
}

/// A rule that allows or disallows a library or argument.
#[derive(Debug, Clone)]
pub struct Rule {
    pub action: String,
    pub os: Option<OsRule>,
    pub features: Option<Vec<(String, bool)>>,
}

/// The operating system a rule is about.
#[derive(Debug, Clone)]
pub struct OsRule {
    pub name: Option<String>,
    pub arch: Option<String>,
    pub version: Option<String>,
}

/// The Java runtime a version asks for.
#[derive(Debug, Clone)]
pub struct JavaVersionSpec {
    pub component: String,
    pub major_version: u32,
}

/// Mojang's runtime manifest: platform, then component, then entries.
pub type JavaRuntimeManifest = Vec<(String, Vec<(String, Vec<JavaRuntimeEntry>)>)>;

/// One runtime build.
#[derive(Debug, Clone)]
pub struct JavaRuntimeEntry {
    pub manifest: JavaRuntimeManifestRef,
}

/// Where the file list of a runtime build is found.
#[derive(Debug, Clone)]
pub struct JavaRuntimeManifestRef {
    pub url: String,
    pub sha1: String,
    pub size: u64,
}

/// The files of a runtime build, by path relative to the runtime root.
#[derive(Debug, Clone)]
pub struct JavaRuntimeDetail {
    pub files: Vec<(String, JavaRuntimeFile)>,
}

/// One entry of a runtime build.
#[derive(Debug, Clone)]
pub struct JavaRuntimeFile {
    pub file_type: String,
    pub downloads: Option<JavaRuntimeDownloads>,
    pub executable: Option<bool>,
}

/// The raw and compressed downloads of a runtime file.
#[derive(Debug, Clone)]
pub struct JavaRuntimeDownloads {
    pub raw: Option<DownloadEntry>,
    pub lzma: Option<DownloadEntry>,
}

/// The asset index of a version: asset name to object.
#[derive(Debug, Clone)]
pub struct AssetIndexJson {
    pub objects: Vec<(String, AssetObject)>,
}

/// An asset object, stored under its hash.
#[derive(Debug, Clone)]
pub struct AssetObject {
    pub hash: String,
    pub size: u64,
}

// ---------------------------------------------------------------------------
// Keyed lookups

/// No key occurs twice, as in the JSON object the entries come from.
pub open spec fn keys_unique<V>(entries: Seq<(String, V)>) -> bool {
    forall|i: int, j: int|
        0 <= i < j < entries.len() ==> #[trigger] entries[i].0@ != #[trigger] entries[j].0@
}

/// The value stored under `key` (the first one, were a key repeated).
pub open spec fn lookup<V>(entries: Seq<(String, V)>, key: Seq<char>) -> Option<V>
    decreases entries.len(),
{
    if entries.len() == 0 {
        None
    } else if entries[0].0@ == key {
        Some(entries[0].1)
    } else {
        lookup(entries.drop_first(), key)
    }
}

/// A key is stored exactly when some entry has it; with unique keys (as
/// the JSON object had) the value found is that entry's, whatever the
/// order of the entries.
pub proof fn lemma_lookup_found<V>(entries: Seq<(String, V)>, key: Seq<char>, i: int)
    requires
        0 <= i < entries.len(),
        entries[i].0@ == key,
    ensures
        lookup(entries, key) is Some,
        keys_unique(entries) ==> lookup(entries, key) == Some(entries[i].1),
    decreases entries.len(),
{
    if entries[0].0@ != key {
        assert(entries.drop_first()[i - 1] == entries[i]);
        lemma_lookup_found(entries.drop_first(), key, i - 1);
        if keys_unique(entries) {
            assert forall|a: int, b: int| 0 <= a < b < entries.drop_first().len() implies
                #[trigger] entries.drop_first()[a].0@ != #[trigger] entries.drop_first()[b].0@ by {
                assert(entries.drop_first()[a] == entries[a + 1]);
                assert(entries.drop_first()[b] == entries[b + 1]);
            }
        }
    } else if keys_unique(entries) && i > 0 {
        assert(entries[0].0@ != entries[i].0@);
    }
}

/// No entry has `key`, so nothing is stored under it.
pub proof fn lemma_lookup_missing<V>(entries: Seq<(String, V)>, key: Seq<char>)
    requires
        forall|i: int| 0 <= i < entries.len() ==> (#[trigger] entries[i]).0@ != key,
    ensures
        lookup(entries, key) is None,
    decreases entries.len(),
{
    if entries.len() > 0 {
        assert forall|i: int| 0 <= i < entries.drop_first().len() implies (#[trigger] entries.drop_first()[i]).0@ != key by {
            assert(entries.drop_first()[i] == entries[i + 1]);
        }
        lemma_lookup_missing(entries.drop_first(), key);
    }
}

/// The value stored under `key`, as `HashMap::get` finds it: with unique
/// keys, the value of the entry that has the key.
pub fn lookup_entry<'a, V>(entries: &'a Vec<(String, V)>, key: &str) -> (r: Option<&'a V>)
    ensures
        match r {
            Some(v) => lookup(entries@, key@) == Some(*v),
            None => lookup(entries@, key@) is None,
        },
        r is Some <==> exists|i: int| 0 <= i < entries@.len() && (#[trigger] entries@[i]).0@ == key@,
        keys_unique(entries@) ==> forall|i: int|
            0 <= i < entries@.len() && (#[trigger] entries@[i]).0@ == key@ ==> (r matches Some(v)
                && *v == entries@[i].1),
{
    proof {
        if exists|i: int| 0 <= i < entries@.len() && (#[trigger] entries@[i]).0@ == key@ {
            let i = choose|i: int| 0 <= i < entries@.len() && (#[trigger] entries@[i]).0@ == key@;
            lemma_lookup_found(entries@, key@, i);
            assert forall|j: int| 0 <= j < entries@.len() && (#[trigger] entries@[j]).0@ == key@ && keys_unique(entries@)
                implies lookup(entries@, key@) == Some(entries@[j].1) by {
                lemma_lookup_found(entries@, key@, j);
            }
        } else {
            lemma_lookup_missing(entries@, key@);
        }
    }
    let n = entries.len();
    let mut i: usize = 0;
    assert(entries@.skip(0) =~= entries@);
    while i < n
        invariant
            i <= n,
            n == entries@.len(),
            lookup(entries@, key@) == lookup(entries@.skip(i as int), key@),
        decreases n - i,
    {
        assert(entries@.skip(i as int)[0] == entries@[i as int]);
        if str_eq(entries[i].0.as_str(), key) {
            return Some(&entries[i].1);
        }
        assert(entries@.skip(i as int).drop_first() =~= entries@.skip(i + 1));
        i = i + 1;
    }
    None
}


// ---------------------------------------------------------------------------
// Maven coordinates

/// The library path of a Maven coordinate `group:artifact:version[:classifier[:ext]]`:
/// `group` with dots as slashes, then `artifact/version/artifact-version[-classifier].ext`,
/// the extension being `jar` when none is given. A name of fewer than three
/// parts only has its colons turned into slashes.
pub open spec fn maven_path(name: Seq<char>) -> Seq<char> {
    let parts = split(name, Separator::Char(':'));
    if parts.len() < 3 {
        replace_all(name, seq![':'], seq!['/'])
    } else {
        let group = replace_all(parts[0], seq!['.'], seq!['/']);
        let artifact = parts[1];
        let version = parts[2];
        let ext = if parts.len() > 4 { parts[4] } else { seq!['j', 'a', 'r'] };
        let stem = group + seq!['/'] + artifact + seq!['/'] + version + seq!['/'] + artifact + seq![
            '-',
        ] + version;
        if parts.len() > 3 {
            stem + seq!['-'] + parts[3] + seq!['.'] + ext
        } else {
            stem + seq!['.'] + ext
        }
    }
}

/// A vector holding one character.
fn single_char(c: char) -> (r: Vec<char>)
    ensures
        r@ == seq![c],
{
    let mut r: Vec<char> = Vec::new();
    r.push(c);
    r
}

/// Converts a library's Maven name to its path below `libraries/`.
pub fn maven_to_path(name: &str) -> (r: String)
    ensures
        r@ == maven_path(name@),
{
    let chars = chars_of(name);
    let parts = split_chars(&chars, &Separator::Char(':'));
    let colon = single_char(':');
    let slash = single_char('/');
    if parts.len() < 3 {
        let out = replace_chars(&chars, &colon, &slash);
        return string_from_chars(&out);
    }
    let ghost pv = parts.deep_view();
    assert(pv[0] == parts@[0]@ && pv[1] == parts@[1]@ && pv[2] == parts@[2]@);
    let dot = single_char('.');
    let group = replace_chars(&parts[0], &dot, &slash);
    let mut out: Vec<char> = Vec::new();
    append_chars(&mut out, &group);
    out.push('/');
    append_chars(&mut out, &parts[1]);
    out.push('/');
    append_chars(&mut out, &parts[2]);
    out.push('/');
    append_chars(&mut out, &parts[1]);
    out.push('-');
    append_chars(&mut out, &parts[2]);
    if parts.len() > 3 {
        assert(pv[3] == parts@[3]@);
        out.push('-');
        append_chars(&mut out, &parts[3]);
    }
    out.push('.');
    if parts.len() > 4 {
        assert(pv[4] == parts@[4]@);
        append_chars(&mut out, &parts[4]);
    } else {
        out.push('j');
        out.push('a');
        out.push('r');
    }
    assert(out@ =~= maven_path(name@));
    string_from_chars(&out)
}

/// For a coordinate `group:artifact:version` whose parts hold no colon, the
/// path starts with every character of the group, each `.` turned into `/`
/// (so no segment of the group is lost), and goes on with
/// `/artifact/version/artifact-version.jar`.
pub proof fn lemma_maven_layout(group: Seq<char>, artifact: Seq<char>, version: Seq<char>)
    requires
        lacks(group, ':'),
        lacks(artifact, ':'),
        lacks(version, ':'),
    ensures
        ({
            let p = maven_path(group + seq![':'] + artifact + seq![':'] + version);
            &&& p.len() == group.len() + 2 * artifact.len() + 2 * version.len() + 8
            &&& forall|i: int|
                0 <= i < group.len() ==> #[trigger] p[i] == (if group[i] == '.' {
                    '/'
                } else {
                    group[i]
                })
            &&& p.subrange(group.len() as int, p.len() as int) == seq!['/'] + artifact + seq!['/']
                + version + seq!['/'] + artifact + seq!['-'] + version + seq!['.', 'j', 'a', 'r']
        }),
{
    let sep = Separator::Char(':');
    let name = group + seq![':'] + artifact + seq![':'] + version;
    lemma_split_around(group + seq![':'] + artifact, version, ':');
    lemma_split_around(group, artifact, ':');
    lemma_split_without_separator(group, ':');
    lemma_split_without_separator(artifact, ':');
    lemma_split_without_separator(version, ':');
    let parts = split(name, sep);
    assert(parts =~= seq![group, artifact, version]);
    lemma_replace_char(group, '.', '/');
    let gp = replace_all(group, seq!['.'], seq!['/']);
    let rest = seq!['/'] + artifact + seq!['/'] + version + seq!['/'] + artifact + seq!['-'] + version
        + seq!['.', 'j', 'a', 'r'];
    let p = maven_path(name);
    assert(p =~= gp + rest);
    assert(p.subrange(group.len() as int, p.len() as int) =~= rest);
    assert forall|i: int| 0 <= i < group.len() implies #[trigger] p[i] == (if group[i] == '.' {
        '/'
    } else {
        group[i]
    }) by {
        assert(p[i] == gp[i]);
    }
}

/// For a coordinate `group:artifact:version:classifier` whose parts hold no
/// colon, the path is the group with dots as slashes, then
/// `/artifact/version/artifact-version-classifier.jar`.
pub proof fn lemma_maven_layout_classifier(
    group: Seq<char>,
    artifact: Seq<char>,
    version: Seq<char>,
    classifier: Seq<char>,
)
    requires
        lacks(group, ':'),
        lacks(artifact, ':'),
        lacks(version, ':'),
        lacks(classifier, ':'),
    ensures
        ({
            let p = maven_path(group + seq![':'] + artifact + seq![':'] + version + seq![':'] + classifier);
            &&& p.len() == group.len() + 2 * artifact.len() + 2 * version.len() + classifier.len() + 9
            &&& forall|i: int|
                0 <= i < group.len() ==> #[trigger] p[i] == (if group[i] == '.' {
                    '/'
                } else {
                    group[i]
                })
            &&& p.subrange(group.len() as int, p.len() as int) == seq!['/'] + artifact + seq!['/']
                + version + seq!['/'] + artifact + seq!['-'] + version + seq!['-'] + classifier + seq![
                '.',
                'j',
                'a',
                'r',
            ]
        }),
{
    let sep = Separator::Char(':');
    let name = group + seq![':'] + artifact + seq![':'] + version + seq![':'] + classifier;
    lemma_split_around(group + seq![':'] + artifact + seq![':'] + version, classifier, ':');
    lemma_split_around(group + seq![':'] + artifact, version, ':');
    lemma_split_around(group, artifact, ':');
    lemma_split_without_separator(group, ':');
    lemma_split_without_separator(artifact, ':');
    lemma_split_without_separator(version, ':');
    lemma_split_without_separator(classifier, ':');
    let parts = split(name, sep);
    assert(parts =~= seq![group, artifact, version, classifier]);
    lemma_replace_char(group, '.', '/');
    let gp = replace_all(group, seq!['.'], seq!['/']);
    let rest = seq!['/'] + artifact + seq!['/'] + version + seq!['/'] + artifact + seq!['-'] + version
        + seq!['-'] + classifier + seq!['.', 'j', 'a', 'r'];
    let p = maven_path(name);
    assert(p =~= gp + rest);
    assert(p.subrange(group.len() as int, p.len() as int) =~= rest);
    assert forall|i: int| 0 <= i < group.len() implies #[trigger] p[i] == (if group[i] == '.' {
        '/'
    } else {
        group[i]
    }) by {
        assert(p[i] == gp[i]);
    }
}

// ---------------------------------------------------------------------------
// Java component fallback

/// The pieces that parse as `u32`, parsed, in order.
pub open spec fn parse_all(pieces: Seq<Seq<char>>) -> Seq<u32>
    decreases pieces.len(),
{
    if pieces.len() == 0 {
        Seq::<u32>::empty()
    } else {
        match parse_u32_spec(pieces.last()) {
            Some(x) => parse_all(pieces.drop_last()).push(x),
            None => parse_all(pieces.drop_last()),
        }
    }
}

/// The numbers of a dotted version id: pieces between dots that parse as `u32`.
pub open spec fn dotted_numbers(id: Seq<char>) -> Seq<u32> {
    parse_all(split(id, Separator::Char('.')))
}

/// The Java runtime (component, major version) that a game version
/// `major.minor.patch` needs when its file names none.
pub open spec fn java_component_for(major: u32, minor: u32, patch: u32) -> (Seq<char>, u32) {
    if major >= 26 {
        ("java-runtime-epsilon"@, 25)
    } else if major == 1 && minor <= 16 {
        ("jre-legacy"@, 8)
    } else if major == 1 && minor == 17 && patch <= 1 {
        ("java-runtime-alpha"@, 16)
    } else if major == 1 && minor <= 20 && (minor < 20 || patch < 5) {
        ("java-runtime-gamma"@, 17)
    } else {
        ("java-runtime-delta"@, 21)
    }
}

/// The `i`-th number of a sequence, or `default` when it is too short.
pub open spec fn nth_or(s: Seq<u32>, i: int, default: u32) -> u32 {
    if i < s.len() { s[i] } else { default }
}

/// The Java runtime of a version id when the version file names none:
/// major, minor and patch are the first three dotted numbers (defaults 1, 0, 0).
pub open spec fn fallback_java(id: Seq<char>) -> (Seq<char>, u32) {
    let n = dotted_numbers(id);
    java_component_for(nth_or(n, 0, 1), nth_or(n, 1, 0), nth_or(n, 2, 0))
}

/// Parses every piece that is a `u32` and keeps the numbers, in order.
pub fn parse_numbers(pieces: &Vec<Vec<char>>) -> (r: Vec<u32>)
    ensures
        r@ == parse_all(pieces.deep_view()),
{
    let ghost dv = pieces.deep_view();
    let n = pieces.len();
    let mut r: Vec<u32> = Vec::new();
    for i in 0..n
        invariant
            n == pieces@.len(),
            dv == pieces.deep_view(),
            r@ == parse_all(dv.take(i as int)),
    {
        assert(dv.take(i + 1).drop_last() =~= dv.take(i as int));
        assert(dv.take(i + 1).last() == pieces@[i as int]@);
        match parse_u32_chars(&pieces[i]) {
            Some(x) => {
                r.push(x);
                assert(r@ =~= parse_all(dv.take(i + 1)));
            },
            None => {
                assert(r@ =~= parse_all(dv.take(i + 1)));
            },
        }
    }
    assert(dv.take(n as int) =~= dv);
    r
}

/// Picks the Java runtime for a version whose file names none.
pub fn fallback_java_component(version_id: &str) -> (r: (&'static str, u32))
    ensures
        (r.0@, r.1) == fallback_java(version_id@),
{
    let chars = chars_of(version_id);
    let pieces = split_chars(&chars, &Separator::Char('.'));
    let parts = parse_numbers(&pieces);
    let major = if parts.len() > 0 { parts[0] } else { 1 };
    let minor = if parts.len() > 1 { parts[1] } else { 0 };
    let patch = if parts.len() > 2 { parts[2] } else { 0 };
    if major >= 26 {
        ("java-runtime-epsilon", 25)
    } else if major == 1 && minor <= 16 {
        ("jre-legacy", 8)
    } else if major == 1 && minor == 17 && patch <= 1 {
        ("java-runtime-alpha", 16)
    } else if major == 1 && minor <= 20 && (minor < 20 || patch < 5) {
        ("java-runtime-gamma", 17)
    } else {
        ("java-runtime-delta", 21)
    }
}


// ---------------------------------------------------------------------------
// Runtime lookup

/// The first runtime build listed for `component` on `platform`, or the
/// message saying what is missing.
pub open spec fn runtime_entry(
    manifest: Seq<(String, Vec<(String, Vec<JavaRuntimeEntry>)>)>,
    platform: Seq<char>,
    component: Seq<char>,
) -> Result<JavaRuntimeEntry, Seq<char>> {
    match lookup(manifest, platform) {
        None => Err("Plataforma "@ + platform + " no encontrada en manifiesto Java"@),
        Some(components) => match lookup(components@, component) {
            None => Err("Componente Java no encontrado: "@ + component),
            Some(entries) => if entries@.len() == 0 {
                Err("Sin runtime disponible para "@ + component + " en "@ + platform)
            } else {
                Ok(entries@[0])
            },
        },
    }
}

/// Finds the runtime build for a component on a platform.
pub fn resolve_java_runtime_entry<'a>(
    manifest: &'a JavaRuntimeManifest,
    platform: &str,
    component: &str,
) -> (r: Result<&'a JavaRuntimeEntry, String>)
    ensures
        match r {
            Ok(e) => runtime_entry(manifest@, platform@, component@) == Ok::<JavaRuntimeEntry, Seq<char>>(*e),
            Err(m) => runtime_entry(manifest@, platform@, component@) == Err::<JavaRuntimeEntry, Seq<char>>(m@),
        },
{
    let components = match lookup_entry(manifest, platform) {
        Some(c) => c,
        None => {
            return Err(concat3("Plataforma ", platform, " no encontrada en manifiesto Java"));
        },
    };
    let entries = match lookup_entry(components, component) {
        Some(e) => e,
        None => {
            return Err(concat2("Componente Java no encontrado: ", component));
        },
    };
    if entries.len() == 0 {
        let m = concat3("Sin runtime disponible para ", component, " en ");
        let mut m2 = m;
        m2.append(platform);
        return Err(m2);
    }
    Ok(&entries[0])
}


/// A version number `major.minor.patch` before another.
pub open spec fn version_before(a: (u32, u32, u32), b: (u32, u32, u32)) -> bool {
    a.0 < b.0 || (a.0 == b.0 && (a.1 < b.1 || (a.1 == b.1 && a.2 <= b.2)))
}

/// For game versions 1.x and later, a newer game never gets an older Java.
pub proof fn lemma_java_fallback_monotonic(a: (u32, u32, u32), b: (u32, u32, u32))
    requires
        a.0 >= 1,
        version_before(a, b),
    ensures
        java_component_for(a.0, a.1, a.2).1 <= java_component_for(b.0, b.1, b.2).1,
{
}

} // verus!
