//! Preparing a launch: which files a version needs, where they go, which
//! native libraries are unpacked, the class path, the placeholder values and
//! the final command line.
//!
//! Disk and network work is done by the caller with the plans made here.
use vstd::prelude::*;
use vstd::utf8::{decode_utf8, encode_utf8, is_char_boundary};
use crate::auth::{hyphenated, offline_access_token, offline_uuid, offline_uuid_spec, uuid_hyphenated};
use crate::config::{minecraft_dir, path_join};
use crate::download::{DownloadTask, TaskView};
use crate::manifest::{
    lookup, lookup_entry, maven_path, maven_to_path, AssetIndexJson, AssetObject, DownloadEntry,
    Library, VersionJson,
};
use crate::rules::{library_applies, library_used, native_classifier_key, native_classifier_key_alt};
use crate::rules::resolved_arguments;
use crate::text::{
    chars_of, lemma_replace_absent, concat2, concat3, decimal, join, join_strings, keep_non_empty, replace_all,
    replace_chars, split_chars, split_whitespace, starts_with, str_starts_with, string_from_chars,
    u64_to_decimal, Separator,
};

verus! {

broadcast use vstd::utf8::encode_utf8_decode_utf8;

/// The classifier key of Windows x64 natives.
pub open spec fn native_key() -> Seq<char> {
    "natives-windows"@
}

/// The classifier key of Windows x64 natives in newer versions.
pub open spec fn native_key_alt() -> Seq<char> {
    "natives-windows-x86_64"@
}

/// A file below `.minecraft/libraries`.
pub open spec fn library_dest(rel: Seq<char>) -> Seq<Seq<char>> {
    seq![".minecraft"@, "libraries"@, rel]
}

/// The task that fetches a library's main artifact, if it has one.
pub open spec fn artifact_tasks(lib: Library) -> Seq<TaskView> {
    match lib.downloads {
        Some(d) => match d.artifact {
            Some(a) => seq![
                TaskView {
                    url: a.url@,
                    dest: library_dest(maven_path(lib.name@)),
                    expected_sha1: Some(a.sha1@),
                    expected_size: Some(a.size),
                    label: lib.name@,
                },
            ],
            None => Seq::<TaskView>::empty(),
        },
        None => Seq::<TaskView>::empty(),
    }
}

/// The task that fetches a library's natives jar of classifier `key`, if it has one.
pub open spec fn native_tasks(lib: Library, key: Seq<char>) -> Seq<TaskView> {
    match lib.downloads {
        Some(d) => match d.classifiers {
            Some(c) => match lookup(c@, key) {
                Some(n) => seq![
                    TaskView {
                        url: n.url@,
                        dest: library_dest(maven_path(lib.name@ + ":"@ + key)),
                        expected_sha1: Some(n.sha1@),
                        expected_size: Some(n.size),
                        label: "Native "@ + lib.name@,
                    },
                ],
                None => Seq::<TaskView>::empty(),
            },
            None => Seq::<TaskView>::empty(),
        },
        None => Seq::<TaskView>::empty(),
    }
}

/// The downloads of one library: none when its rules exclude it or it has
/// no downloads; else its artifact, then its natives for both keys.
pub open spec fn tasks_of_library(lib: Library) -> Seq<TaskView> {
    if library_used(lib) && lib.downloads is Some {
        artifact_tasks(lib) + native_tasks(lib, native_key()) + native_tasks(lib, native_key_alt())
    } else {
        Seq::<TaskView>::empty()
    }
}

/// The downloads of all libraries, in library order.
pub open spec fn library_tasks(libs: Seq<Library>) -> Seq<TaskView>
    decreases libs.len(),
{
    if libs.len() == 0 {
        Seq::<TaskView>::empty()
    } else {
        library_tasks(libs.drop_last()) + tasks_of_library(libs.last())
    }
}

/// The destination of a library file: `.minecraft/libraries/<rel>`.
pub fn library_path(rel: &str) -> (r: Vec<String>)
    ensures
        r.deep_view() == library_dest(rel@),
{
    let a = path_join(&minecraft_dir(), "libraries");
    let r = path_join(&a, rel);
    assert(r.deep_view() =~= library_dest(rel@));
    r
}

/// The task that fetches `entry` for a library file.
fn entry_task(entry: &DownloadEntry, rel: &str, label: String) -> (r: DownloadTask)
    ensures
        r@ == (TaskView {
            url: entry.url@,
            dest: library_dest(rel@),
            expected_sha1: Some(entry.sha1@),
            expected_size: Some(entry.size),
            label: label@,
        }),
{
    DownloadTask {
        url: entry.url.clone(),
        dest: library_path(rel),
        expected_sha1: Some(entry.sha1.clone()),
        expected_size: Some(entry.size),
        label,
    }
}

/// Adds the downloads of every library that applies to `tasks`.
pub fn collect_library_tasks(version: &VersionJson, tasks: &mut Vec<DownloadTask>)
    ensures
        final(tasks).deep_view() == old(tasks).deep_view() + library_tasks(version.libraries@),
{
    let libs = &version.libraries;
    let n = libs.len();
    let ghost start = tasks.deep_view();
    for i in 0..n
        invariant
            n == libs@.len(),
            libs == &version.libraries,
            start == old(tasks).deep_view(),
            tasks.deep_view() == start + library_tasks(libs@.take(i as int)),
    {
        let library = &libs[i];
        assert(libs@.take(i + 1).drop_last() =~= libs@.take(i as int));
        assert(libs@.take(i + 1).last() == *library);
        let ghost before = tasks.deep_view();
        if library_applies(library) {
            if let Some(downloads) = &library.downloads {
                if let Some(artifact) = &downloads.artifact {
                    let rel = maven_to_path(library.name.as_str());
                    let t = entry_task(artifact, rel.as_str(), library.name.clone());
                    tasks.push(t);
                }
                let ghost mid1 = tasks.deep_view();
                assert(mid1 =~= before + artifact_tasks(*library));
                if let Some(classifiers) = &downloads.classifiers {
                    let key = native_classifier_key();
                    if let Some(native) = lookup_entry(classifiers, key) {
                        let name = concat3(library.name.as_str(), ":", key);
                        let rel = maven_to_path(name.as_str());
                        let t = entry_task(native, rel.as_str(), concat2("Native ", library.name.as_str()));
                        tasks.push(t);
                    }
                    let ghost mid2 = tasks.deep_view();
                    assert(mid2 =~= mid1 + native_tasks(*library, native_key()));
                    let key2 = native_classifier_key_alt();
                    if let Some(native) = lookup_entry(classifiers, key2) {
                        let name = concat3(library.name.as_str(), ":", key2);
                        let rel = maven_to_path(name.as_str());
                        let t = entry_task(native, rel.as_str(), concat2("Native ", library.name.as_str()));
                        tasks.push(t);
                    }
                    assert(tasks.deep_view() =~= mid2 + native_tasks(*library, native_key_alt()));
                } else {
                    assert(tasks.deep_view() =~= mid1 + native_tasks(*library, native_key()) + native_tasks(*library, native_key_alt()));
                }
                assert(tasks.deep_view() =~= before + tasks_of_library(*library));
            } else {
                assert(tasks.deep_view() =~= before + tasks_of_library(*library));
            }
        } else {
            assert(tasks.deep_view() =~= before + tasks_of_library(*library));
        }
    }
    assert(libs@.take(n as int) =~= libs@);
}


// ---------------------------------------------------------------------------
// Version layout and the first download batch

/// The folder of a version: `.minecraft/versions/<id>`.
pub open spec fn version_dir_spec(id: Seq<char>) -> Seq<Seq<char>> {
    seq![".minecraft"@, "versions"@, id]
}

/// The folder of a version.
pub fn version_dir(version: &VersionJson) -> (r: Vec<String>)
    ensures
        r.deep_view() == version_dir_spec(version.id@),
{
    let a = path_join(&minecraft_dir(), "versions");
    let r = path_join(&a, version.id.as_str());
    assert(r.deep_view() =~= version_dir_spec(version.id@));
    r
}

/// The client jar of a version: `<version folder>/<id>.jar`.
pub fn client_jar_path(version: &VersionJson) -> (r: Vec<String>)
    ensures
        r.deep_view() == version_dir_spec(version.id@).push(version.id@ + ".jar"@),
{
    let name = concat2(version.id.as_str(), ".jar");
    path_join(&version_dir(version), name.as_str())
}

/// The stored copy of a version file: `<version folder>/<id>.json`.
pub fn version_json_path(version: &VersionJson) -> (r: Vec<String>)
    ensures
        r.deep_view() == version_dir_spec(version.id@).push(version.id@ + ".json"@),
{
    let name = concat2(version.id.as_str(), ".json");
    path_join(&version_dir(version), name.as_str())
}

/// The asset index file: `.minecraft/assets/indexes/<index id>.json`.
pub open spec fn asset_index_path_spec(version: VersionJson) -> Seq<Seq<char>> {
    seq![".minecraft"@, "assets"@, "indexes"@, version.asset_index.id@ + ".json"@]
}

/// Where the asset index of a version is stored.
pub fn asset_index_path(version: &VersionJson) -> (r: Vec<String>)
    ensures
        r.deep_view() == asset_index_path_spec(*version),
{
    let a = path_join(&minecraft_dir(), "assets");
    let b = path_join(&a, "indexes");
    let name = concat2(version.asset_index.id.as_str(), ".json");
    let r = path_join(&b, name.as_str());
    assert(r.deep_view() =~= asset_index_path_spec(*version));
    r
}

/// The folder natives are unpacked to: `.minecraft/natives/<id>`.
pub fn natives_dir(version: &VersionJson) -> (r: Vec<String>)
    ensures
        r.deep_view() == seq![".minecraft"@, "natives"@, version.id@],
{
    let a = path_join(&minecraft_dir(), "natives");
    let r = path_join(&a, version.id.as_str());
    assert(r.deep_view() =~= seq![".minecraft"@, "natives"@, version.id@]);
    r
}

/// The folders made before anything is fetched: the game folder and its
/// `versions`, `libraries`, `assets` and `natives` folders.
pub fn base_dirs() -> (r: Vec<Vec<String>>)
    ensures
        r.deep_view() == seq![
            seq![".minecraft"@],
            seq![".minecraft"@, "versions"@],
            seq![".minecraft"@, "libraries"@],
            seq![".minecraft"@, "assets"@],
            seq![".minecraft"@, "natives"@],
        ],
{
    let mc = minecraft_dir();
    let v = path_join(&mc, "versions");
    let l = path_join(&mc, "libraries");
    let a = path_join(&mc, "assets");
    let n = path_join(&mc, "natives");
    let mut r: Vec<Vec<String>> = Vec::new();
    r.push(mc);
    r.push(v);
    r.push(l);
    r.push(a);
    r.push(n);
    assert(r.deep_view()[0] =~= seq![".minecraft"@]);
    assert(r.deep_view()[1] =~= seq![".minecraft"@, "versions"@]);
    assert(r.deep_view()[2] =~= seq![".minecraft"@, "libraries"@]);
    assert(r.deep_view()[3] =~= seq![".minecraft"@, "assets"@]);
    assert(r.deep_view()[4] =~= seq![".minecraft"@, "natives"@]);
    assert(r.deep_view() =~= seq![
        seq![".minecraft"@],
        seq![".minecraft"@, "versions"@],
        seq![".minecraft"@, "libraries"@],
        seq![".minecraft"@, "assets"@],
        seq![".minecraft"@, "natives"@],
    ]);
    r
}

/// The first download batch of a launch: the client jar (`Cliente <id>`),
/// then every library file, then the asset index (`Assets index <index id>`).
pub open spec fn version_downloads(version: VersionJson) -> Seq<TaskView> {
    let client = version.downloads.client;
    let index = version.asset_index;
    seq![
        TaskView {
            url: client.url@,
            dest: version_dir_spec(version.id@).push(version.id@ + ".jar"@),
            expected_sha1: Some(client.sha1@),
            expected_size: Some(client.size),
            label: "Cliente "@ + version.id@,
        },
    ] + library_tasks(version.libraries@) + seq![
        TaskView {
            url: index.url@,
            dest: asset_index_path_spec(version),
            expected_sha1: Some(index.sha1@),
            expected_size: Some(index.size),
            label: "Assets index "@ + index.id@,
        },
    ]
}

/// Plans the first download batch of a launch.
pub fn plan_version_downloads(version: &VersionJson) -> (r: Vec<DownloadTask>)
    ensures
        r.deep_view() == version_downloads(*version),
{
    let client = &version.downloads.client;
    let mut tasks: Vec<DownloadTask> = Vec::new();
    tasks.push(
        DownloadTask {
            url: client.url.clone(),
            dest: client_jar_path(version),
            expected_sha1: Some(client.sha1.clone()),
            expected_size: Some(client.size),
            label: concat2("Cliente ", version.id.as_str()),
        },
    );
    let ghost first = tasks.deep_view();
    let ghost client_view = version_downloads(*version)[0];
    assert(first =~= seq![client_view]);
    collect_library_tasks(version, &mut tasks);
    let index = &version.asset_index;
    let ghost mid = tasks.deep_view();
    tasks.push(
        DownloadTask {
            url: index.url.clone(),
            dest: asset_index_path(version),
            expected_sha1: Some(index.sha1.clone()),
            expected_size: Some(index.size),
            label: concat2("Assets index ", index.id.as_str()),
        },
    );
    let ghost last_view = version_downloads(*version).last();
    assert(tasks.deep_view() =~= mid.push(last_view));
    assert(tasks.deep_view() =~= version_downloads(*version));
    tasks
}

// ---------------------------------------------------------------------------
// Assets

/// The first `n` bytes of a string's UTF-8 text, read back as characters.
pub open spec fn byte_prefix(s: Seq<char>, n: int) -> Seq<char> {
    decode_utf8(encode_utf8(s).subrange(0, n))
}

/// An asset hash can be cut after its second and eighth byte (as the
/// storage folder and the label need).
pub open spec fn asset_hash_ok(hash: Seq<char>) -> bool {
    is_char_boundary(encode_utf8(hash), 2) && is_char_boundary(encode_utf8(hash), 8)
}

/// The leading `n` bytes of `s`, which end on a character boundary.
fn str_byte_prefix(s: &str, n: usize) -> (r: String)
    requires
        is_char_boundary(encode_utf8(s@), n as int),
    ensures
        r@ == byte_prefix(s@, n as int),
{
    let (head, _) = s.split_at(n);
    assert(encode_utf8(head@) =~= encode_utf8(s@).subrange(0, n as int));
    head.to_owned()
}

/// Where an asset object is stored: `.minecraft/assets/objects/<first two bytes>/<hash>`.
pub open spec fn asset_dest(hash: Seq<char>) -> Seq<Seq<char>> {
    seq![".minecraft"@, "assets"@, "objects"@, byte_prefix(hash, 2), hash]
}

/// The storage location of an asset object.
pub fn asset_object_path(hash: &str) -> (r: Vec<String>)
    requires
        asset_hash_ok(hash@),
    ensures
        r.deep_view() == asset_dest(hash@),
{
    let prefix = str_byte_prefix(hash, 2);
    let a = path_join(&minecraft_dir(), "assets");
    let b = path_join(&a, "objects");
    let c = path_join(&b, prefix.as_str());
    let r = path_join(&c, hash);
    assert(r.deep_view() =~= asset_dest(hash@));
    r
}

/// The task that fetches an asset object from Mojang's resource server.
pub open spec fn asset_task(obj: AssetObject) -> TaskView {
    let h = obj.hash@;
    TaskView {
        url: "https://resources.download.minecraft.net/"@ + byte_prefix(h, 2) + "/"@ + h,
        dest: asset_dest(h),
        expected_sha1: Some(h),
        expected_size: Some(obj.size),
        label: "Asset "@ + byte_prefix(h, 8),
    }
}

/// The asset objects to fetch: every object, in index order, except those
/// whose file already has the object's size (`existing[i]` being the size
/// of object `i`'s file when it exists).
pub open spec fn asset_tasks(objects: Seq<(String, AssetObject)>, existing: Seq<Option<u64>>) -> Seq<
    TaskView,
>
    decreases objects.len(),
{
    if objects.len() == 0 || existing.len() == 0 {
        Seq::<TaskView>::empty()
    } else {
        let rest = asset_tasks(objects.drop_last(), existing.drop_last());
        if existing.last() == Some(objects.last().1.size) {
            rest
        } else {
            rest.push(asset_task(objects.last().1))
        }
    }
}

/// Plans the asset downloads of an index, given the sizes of the files
/// already present.
pub fn collect_asset_tasks(asset_index: &AssetIndexJson, existing: &[Option<u64>]) -> (r: Vec<
    DownloadTask,
>)
    requires
        existing@.len() == asset_index.objects@.len(),
        forall|i: int|
            0 <= i < asset_index.objects@.len() ==> asset_hash_ok(
                (#[trigger] asset_index.objects@[i]).1.hash@,
            ),
    ensures
        r.deep_view() == asset_tasks(asset_index.objects@, existing@),
{
    let objects = &asset_index.objects;
    let n = objects.len();
    let mut tasks: Vec<DownloadTask> = Vec::new();
    for i in 0..n
        invariant
            n == objects@.len(),
            objects == &asset_index.objects,
            existing@.len() == n,
            forall|j: int| 0 <= j < n ==> asset_hash_ok((#[trigger] objects@[j]).1.hash@),
            tasks.deep_view() == asset_tasks(objects@.take(i as int), existing@.take(i as int)),
    {
        assert(objects@.take(i + 1).drop_last() =~= objects@.take(i as int));
        assert(existing@.take(i + 1).drop_last() =~= existing@.take(i as int));
        assert(objects@.take(i + 1).last() == objects@[i as int]);
        assert(existing@.take(i + 1).last() == existing@[i as int]);
        let obj = &objects[i].1;
        let skip = match existing[i] {
            Some(len) => len == obj.size,
            None => false,
        };
        if !skip {
            assert(asset_hash_ok(objects@[i as int].1.hash@));
            let hash = obj.hash.as_str();
            let prefix = str_byte_prefix(hash, 2);
            let mut url = concat3("https://resources.download.minecraft.net/", prefix.as_str(), "/");
            url.append(hash);
            let short = str_byte_prefix(hash, 8);
            let ghost before = tasks.deep_view();
            let t = DownloadTask {
                url,
                dest: asset_object_path(hash),
                expected_sha1: Some(obj.hash.clone()),
                expected_size: Some(obj.size),
                label: concat2("Asset ", short.as_str()),
            };
            assert(t@ == asset_task(*obj));
            tasks.push(t);
            assert(tasks.deep_view() =~= before.push(asset_task(*obj)));
        }
    }
    assert(objects@.take(n as int) =~= objects@);
    assert(existing@.take(n as int) =~= existing@);
    tasks
}

// ---------------------------------------------------------------------------
// Natives

/// A natives jar to unpack and the entry prefixes left out of it.
#[derive(Debug, Clone)]
pub struct NativeJar {
    pub jar: Vec<String>,
    pub exclude: Vec<String>,
}

impl View for NativeJar {
    type V = (Seq<Seq<char>>, Seq<Seq<char>>);

    open spec fn view(&self) -> (Seq<Seq<char>>, Seq<Seq<char>>) {
        (self.jar.deep_view(), self.exclude.deep_view())
    }
}

impl DeepView for NativeJar {
    type V = (Seq<Seq<char>>, Seq<Seq<char>>);

    open spec fn deep_view(&self) -> (Seq<Seq<char>>, Seq<Seq<char>>) {
        self@
    }
}

/// The natives jar of a library, if it applies and has one for this
/// platform (the plain Windows key preferred), with its exclusions.
pub open spec fn native_jar_of(lib: Library) -> Seq<(Seq<Seq<char>>, Seq<Seq<char>>)> {
    if !library_used(lib) {
        Seq::empty()
    } else {
        match lib.downloads {
            None => Seq::empty(),
            Some(d) => match d.classifiers {
                None => Seq::empty(),
                Some(c) => {
                    let key = if lookup(c@, native_key()) is Some {
                        native_key()
                    } else {
                        native_key_alt()
                    };
                    if lookup(c@, native_key()) is None && lookup(c@, native_key_alt()) is None {
                        Seq::empty()
                    } else {
                        seq![
                            (
                                library_dest(maven_path(lib.name@ + ":"@ + key)),
                                match lib.extract {
                                    Some(e) => e.exclude.deep_view(),
                                    None => Seq::<Seq<char>>::empty(),
                                },
                            ),
                        ]
                    }
                },
            },
        }
    }
}

/// The natives jars of all libraries, in library order.
pub open spec fn native_jars(libs: Seq<Library>) -> Seq<(Seq<Seq<char>>, Seq<Seq<char>>)>
    decreases libs.len(),
{
    if libs.len() == 0 {
        Seq::empty()
    } else {
        native_jars(libs.drop_last()) + native_jar_of(libs.last())
    }
}

/// Lists the natives jars a version unpacks (those present on disk are
/// unpacked by the caller).
pub fn native_extractions(version: &VersionJson) -> (r: Vec<NativeJar>)
    ensures
        r.deep_view() == native_jars(version.libraries@),
{
    let libs = &version.libraries;
    let n = libs.len();
    let mut out: Vec<NativeJar> = Vec::new();
    for i in 0..n
        invariant
            n == libs@.len(),
            libs == &version.libraries,
            out.deep_view() == native_jars(libs@.take(i as int)),
    {
        let library = &libs[i];
        assert(libs@.take(i + 1).drop_last() =~= libs@.take(i as int));
        assert(libs@.take(i + 1).last() == *library);
        let ghost before = out.deep_view();
        if library_applies(library) {
            if let Some(downloads) = &library.downloads {
                if let Some(classifiers) = &downloads.classifiers {
                    let k1 = native_classifier_key();
                    let k2 = native_classifier_key_alt();
                    let has1 = lookup_entry(classifiers, k1).is_some();
                    let has2 = lookup_entry(classifiers, k2).is_some();
                    if has1 || has2 {
                        let key = if has1 { k1 } else { k2 };
                        let name = concat3(library.name.as_str(), ":", key);
                        let rel = maven_to_path(name.as_str());
                        let exclude = match &library.extract {
                            Some(e) => crate::rules::clone_strings(&e.exclude),
                            None => Vec::new(),
                        };
                        let item = NativeJar { jar: library_path(rel.as_str()), exclude };
                        assert(item@ == native_jar_of(*library)[0]);
                        out.push(item);
                    }
                }
            }
        }
        assert(out.deep_view() =~= before + native_jar_of(*library));
    }
    assert(libs@.take(n as int) =~= libs@);
    out
}

/// Whether an entry of a natives jar is unpacked: it is not a folder and its
/// name starts with none of the exclusions.
pub open spec fn extracted(name: Seq<char>, is_dir: bool, exclude: Seq<Seq<char>>) -> bool {
    !is_dir && forall|i: int| 0 <= i < exclude.len() ==> !starts_with(name, #[trigger] exclude[i])
}

/// Decides whether an entry of a natives jar is unpacked.
pub fn should_extract(name: &str, is_dir: bool, exclude: &Vec<String>) -> (r: bool)
    ensures
        r == extracted(name@, is_dir, exclude.deep_view()),
{
    if is_dir {
        return false;
    }
    let n = exclude.len();
    for i in 0..n
        invariant
            n == exclude@.len(),
            forall|j: int| 0 <= j < i ==> !starts_with(name@, #[trigger] exclude.deep_view()[j]),
    {
        if str_starts_with(name, exclude[i].as_str()) {
            assert(starts_with(name@, exclude.deep_view()[i as int]));
            return false;
        }
    }
    true
}

// ---------------------------------------------------------------------------
// Class path

/// The library jars that may go on the class path: the artifact of every
/// library that applies and has one, in library order.
pub open spec fn classpath_candidates_spec(libs: Seq<Library>) -> Seq<Seq<Seq<char>>>
    decreases libs.len(),
{
    if libs.len() == 0 {
        Seq::empty()
    } else {
        let lib = libs.last();
        let rest = classpath_candidates_spec(libs.drop_last());
        if library_used(lib) && (lib.downloads matches Some(d) && d.artifact is Some) {
            rest.push(library_dest(maven_path(lib.name@)))
        } else {
            rest
        }
    }
}

/// Lists the library jars that may go on the class path.
pub fn classpath_candidates(version: &VersionJson) -> (r: Vec<Vec<String>>)
    ensures
        r.deep_view() == classpath_candidates_spec(version.libraries@),
{
    let libs = &version.libraries;
    let n = libs.len();
    let mut out: Vec<Vec<String>> = Vec::new();
    for i in 0..n
        invariant
            n == libs@.len(),
            libs == &version.libraries,
            out.deep_view() == classpath_candidates_spec(libs@.take(i as int)),
    {
        let library = &libs[i];
        assert(libs@.take(i + 1).drop_last() =~= libs@.take(i as int));
        assert(libs@.take(i + 1).last() == *library);
        let ghost before = out.deep_view();
        if library_applies(library) {
            if let Some(downloads) = &library.downloads {
                if downloads.artifact.is_some() {
                    let rel = maven_to_path(library.name.as_str());
                    out.push(library_path(rel.as_str()));
                    assert(out.deep_view() =~= before.push(library_dest(maven_path(library.name@))));
                }
            }
        }
    }
    assert(libs@.take(n as int) =~= libs@);
    out
}

/// A library ships a main artifact (whatever classifiers it also has).
pub open spec fn has_main_artifact(lib: Library) -> bool {
    match lib.downloads {
        Some(d) => d.artifact is Some,
        None => false,
    }
}

/// Adding a library at the end of the list adds its jar at the end of the
/// class path exactly when it applies and ships a main artifact; its
/// classifiers play no part.
pub proof fn lemma_classpath_step(libs: Seq<Library>, lib: Library)
    ensures
        classpath_candidates_spec(libs.push(lib)) == if library_used(lib) && has_main_artifact(lib) {
            classpath_candidates_spec(libs).push(seq![".minecraft"@, "libraries"@, maven_path(lib.name@)])
        } else {
            classpath_candidates_spec(libs)
        },
{
    assert(libs.push(lib).drop_last() =~= libs);
}

/// The class path holds the jar of every library that applies and ships a
/// main artifact.
pub proof fn lemma_classpath_has_every_jar(libs: Seq<Library>)
    ensures
        forall|i: int|
            0 <= i < libs.len() && library_used(#[trigger] libs[i]) && has_main_artifact(libs[i]) ==> exists|k: int|
                0 <= k < classpath_candidates_spec(libs).len() && #[trigger] classpath_candidates_spec(libs)[k]
                    == library_dest(maven_path(libs[i].name@)),
    decreases libs.len(),
{
    if libs.len() > 0 {
        let init = libs.drop_last();
        let lib = libs.last();
        let last: int = libs.len() - 1;
        lemma_classpath_has_every_jar(init);
        lemma_classpath_step(init, lib);
        assert(init.push(lib) =~= libs);
        let c = classpath_candidates_spec(libs);
        let ci = classpath_candidates_spec(init);
        assert forall|i: int|
            0 <= i < libs.len() && library_used(#[trigger] libs[i]) && has_main_artifact(libs[i]) implies exists|k: int|
                0 <= k < c.len() && #[trigger] c[k] == library_dest(maven_path(libs[i].name@)) by {
            if i == last {
                assert(c[c.len() - 1] == library_dest(maven_path(libs[i].name@)));
            } else {
                assert(libs[i] == init[i]);
                let k = choose|k: int| 0 <= k < ci.len() && #[trigger] ci[k] == library_dest(maven_path(init[i].name@));
                assert(c[k] == ci[k]);
            }
        }
    }
}

/// Every class path entry is the jar of a library that applies and ships a
/// main artifact, and there is at most one entry per library.
pub proof fn lemma_classpath_only_jars(libs: Seq<Library>)
    ensures
        classpath_candidates_spec(libs).len() <= libs.len(),
        forall|k: int|
            #![trigger classpath_candidates_spec(libs)[k]]
            0 <= k < classpath_candidates_spec(libs).len() ==> exists|i: int|
                0 <= i < libs.len() && library_used(#[trigger] libs[i]) && has_main_artifact(libs[i])
                    && classpath_candidates_spec(libs)[k] == library_dest(maven_path(libs[i].name@)),
    decreases libs.len(),
{
    if libs.len() > 0 {
        let init = libs.drop_last();
        let lib = libs.last();
        let last: int = libs.len() - 1;
        lemma_classpath_only_jars(init);
        lemma_classpath_step(init, lib);
        assert(init.push(lib) =~= libs);
        let c = classpath_candidates_spec(libs);
        let ci = classpath_candidates_spec(init);
        assert forall|k: int| #![trigger c[k]] 0 <= k < c.len() implies exists|i: int|
            0 <= i < libs.len() && library_used(#[trigger] libs[i]) && has_main_artifact(libs[i])
                && c[k] == library_dest(maven_path(libs[i].name@)) by {
            if k < ci.len() {
                assert(c[k] == ci[k]);
                let i = choose|i: int|
                    0 <= i < init.len() && library_used(#[trigger] init[i]) && has_main_artifact(init[i])
                        && ci[k] == library_dest(maven_path(init[i].name@));
                assert(libs[i] == init[i]);
            } else {
                assert(libs[last] == lib);
            }
        }
    }
}

/// The rendered paths of the entries that exist.
pub open spec fn present_paths(entries: Seq<(String, bool)>) -> Seq<Seq<char>>
    decreases entries.len(),
{
    if entries.len() == 0 {
        Seq::empty()
    } else if entries.last().1 {
        present_paths(entries.drop_last()).push(entries.last().0@)
    } else {
        present_paths(entries.drop_last())
    }
}

/// The class path: the library jars that exist, then the client jar,
/// separated by `;`. `entries` holds each candidate's rendered path and
/// whether the file exists.
pub fn build_classpath(entries: &Vec<(String, bool)>, client_jar: &str) -> (r: String)
    ensures
        r@ == join(present_paths(entries@).push(client_jar@), ";"@),
{
    let n = entries.len();
    let mut paths: Vec<String> = Vec::new();
    for i in 0..n
        invariant
            n == entries@.len(),
            paths.deep_view() == present_paths(entries@.take(i as int)),
    {
        assert(entries@.take(i + 1).drop_last() =~= entries@.take(i as int));
        assert(entries@.take(i + 1).last() == entries@[i as int]);
        let ghost before = paths.deep_view();
        if entries[i].1 {
            paths.push(entries[i].0.clone());
            assert(paths.deep_view() =~= before.push(entries@[i as int].0@));
        }
    }
    assert(entries@.take(n as int) =~= entries@);
    let ghost before = paths.deep_view();
    paths.push(client_jar.to_owned());
    assert(paths.deep_view() =~= before.push(client_jar@));
    join_strings(&paths, ";")
}


// ---------------------------------------------------------------------------
// Placeholders and the command line

/// Who plays and how much memory the game gets.
#[derive(Debug, Clone)]
pub struct LaunchOptions {
    pub username: String,
    pub ram_mb: u32,
}

/// The folders and class path of a launch, rendered as text by the caller.
#[derive(Debug, Clone)]
pub struct LaunchDirs {
    pub natives_dir: String,
    pub classpath: String,
    pub library_dir: String,
    pub game_dir: String,
    pub assets_root: String,
}

/// The offline UUID of a player, hyphenated.
pub open spec fn player_uuid_text(username: Seq<char>) -> Seq<char> {
    hyphenated(offline_uuid_spec(username))
}

/// The placeholder values of a launch, in the order they are applied.
pub open spec fn substitution_pairs(
    version: VersionJson,
    dirs: LaunchDirs,
    options: LaunchOptions,
) -> Seq<(Seq<char>, Seq<char>)> {
    seq![
        ("${natives_directory}"@, dirs.natives_dir@),
        ("${launcher_name}"@, "minelts"@),
        ("${launcher_version}"@, "0.1.0"@),
        ("${classpath}"@, dirs.classpath@),
        ("${library_directory}"@, dirs.library_dir@),
        ("${version_name}"@, version.id@),
        ("${game_directory}"@, dirs.game_dir@),
        ("${assets_root}"@, dirs.assets_root@),
        ("${assets_index_name}"@, version.asset_index.id@),
        ("${auth_player_name}"@, options.username@),
        ("${auth_uuid}"@, player_uuid_text(options.username@)),
        ("${auth_access_token}"@, "0"@),
        ("${clientid}"@, Seq::<char>::empty()),
        ("${auth_xuid}"@, Seq::<char>::empty()),
        ("${user_type}"@, "msa"@),
        ("${version_type}"@, version.version_type@),
    ]
}

fn push_pair(map: &mut Vec<(String, String)>, key: &str, value: String)
    ensures
        final(map).deep_view() == old(map).deep_view().push((key@, value@)),
{
    let ghost before = map.deep_view();
    map.push((key.to_owned(), value));
    assert(map.deep_view() =~= before.push((key@, value@)));
}

/// The placeholder values of a launch. (Applied one after another in this
/// order; a value that itself holds a later placeholder would see it
/// replaced too.)
pub fn substitution_map(version: &VersionJson, dirs: &LaunchDirs, options: &LaunchOptions) -> (r: Vec<
    (String, String),
>)
    ensures
        r.deep_view() == substitution_pairs(*version, *dirs, *options),
{
    let uuid = offline_uuid(options.username.as_str());
    let mut map: Vec<(String, String)> = Vec::new();
    push_pair(&mut map, "${natives_directory}", dirs.natives_dir.clone());
    push_pair(&mut map, "${launcher_name}", "minelts".to_owned());
    push_pair(&mut map, "${launcher_version}", "0.1.0".to_owned());
    push_pair(&mut map, "${classpath}", dirs.classpath.clone());
    push_pair(&mut map, "${library_directory}", dirs.library_dir.clone());
    push_pair(&mut map, "${version_name}", version.id.clone());
    push_pair(&mut map, "${game_directory}", dirs.game_dir.clone());
    push_pair(&mut map, "${assets_root}", dirs.assets_root.clone());
    push_pair(&mut map, "${assets_index_name}", version.asset_index.id.clone());
    push_pair(&mut map, "${auth_player_name}", options.username.clone());
    push_pair(&mut map, "${auth_uuid}", uuid_hyphenated(&uuid));
    push_pair(&mut map, "${auth_access_token}", offline_access_token().to_owned());
    push_pair(&mut map, "${clientid}", String::new());
    push_pair(&mut map, "${auth_xuid}", String::new());
    push_pair(&mut map, "${user_type}", "msa".to_owned());
    push_pair(&mut map, "${version_type}", version.version_type.clone());
    assert(map.deep_view() =~= substitution_pairs(*version, *dirs, *options));
    map
}

/// Every placeholder of the list replaced by its value, one placeholder
/// after another in list order.
pub open spec fn substitute_all(template: Seq<char>, pairs: Seq<(Seq<char>, Seq<char>)>) -> Seq<char>
    decreases pairs.len(),
{
    if pairs.len() == 0 {
        template
    } else {
        substitute_all(replace_all(template, pairs[0].0, pairs[0].1), pairs.drop_first())
    }
}

/// No placeholder is empty.
pub open spec fn keys_non_empty(pairs: Seq<(Seq<char>, Seq<char>)>) -> bool {
    forall|i: int| 0 <= i < pairs.len() ==> (#[trigger] pairs[i]).0.len() > 0
}

/// Replaces the placeholders of a template.
pub fn substitute(template: &str, map: &Vec<(String, String)>) -> (r: String)
    requires
        keys_non_empty(map.deep_view()),
    ensures
        r@ == substitute_all(template@, map.deep_view()),
{
    let ghost pairs = map.deep_view();
    let mut cur = chars_of(template);
    let n = map.len();
    assert(pairs.skip(0) =~= pairs);
    for i in 0..n
        invariant
            n == map@.len(),
            pairs == map.deep_view(),
            keys_non_empty(pairs),
            substitute_all(template@, pairs) == substitute_all(cur@, pairs.skip(i as int)),
    {
        let key = chars_of(map[i].0.as_str());
        let value = chars_of(map[i].1.as_str());
        assert(pairs.skip(i as int)[0] == pairs[i as int]);
        assert(pairs[i as int].0.len() > 0);
        assert(pairs.skip(i as int).drop_first() =~= pairs.skip(i + 1));
        cur = replace_chars(&cur, &key, &value);
    }
    assert(pairs.skip(n as int) =~= Seq::<(Seq<char>, Seq<char>)>::empty());
    string_from_chars(&cur)
}

/// The placeholders of a launch are never empty.
proof fn lemma_substitution_keys(version: VersionJson, dirs: LaunchDirs, options: LaunchOptions)
    ensures
        keys_non_empty(substitution_pairs(version, dirs, options)),
{
    reveal_strlit("${natives_directory}");
    reveal_strlit("${launcher_name}");
    reveal_strlit("${launcher_version}");
    reveal_strlit("${classpath}");
    reveal_strlit("${library_directory}");
    reveal_strlit("${version_name}");
    reveal_strlit("${game_directory}");
    reveal_strlit("${assets_root}");
    reveal_strlit("${assets_index_name}");
    reveal_strlit("${auth_player_name}");
    reveal_strlit("${auth_uuid}");
    reveal_strlit("${auth_access_token}");
    reveal_strlit("${clientid}");
    reveal_strlit("${auth_xuid}");
    reveal_strlit("${user_type}");
    reveal_strlit("${version_type}");
}

/// A memory option the launcher sets itself.
pub open spec fn is_memory_flag(arg: Seq<char>) -> bool {
    starts_with(arg, "-Xmx"@) || starts_with(arg, "-Xms"@)
}

/// JVM arguments with placeholders replaced, memory options dropped.
pub open spec fn jvm_args(args: Seq<Seq<char>>, pairs: Seq<(Seq<char>, Seq<char>)>) -> Seq<Seq<char>>
    decreases args.len(),
{
    if args.len() == 0 {
        Seq::empty()
    } else if is_memory_flag(args.last()) {
        jvm_args(args.drop_last(), pairs)
    } else {
        jvm_args(args.drop_last(), pairs).push(substitute_all(args.last(), pairs))
    }
}

/// Arguments with placeholders replaced.
pub open spec fn game_args(args: Seq<Seq<char>>, pairs: Seq<(Seq<char>, Seq<char>)>) -> Seq<Seq<char>>
    decreases args.len(),
{
    if args.len() == 0 {
        Seq::empty()
    } else {
        game_args(args.drop_last(), pairs).push(substitute_all(args.last(), pairs))
    }
}

/// The initial heap size: half the memory, but at least 512 MB.
pub open spec fn min_ram(ram_mb: u32) -> u32 {
    if ram_mb / 2 >= 512 { (ram_mb / 2) as u32 } else { 512 }
}

/// The command line of a launch: the Java executable; `-Xmx<ram>M` and
/// `-Xms<min ram>M`; the version's JVM arguments (without memory options)
/// or, for old versions, `-Djava.library.path=<natives>`; the main class;
/// then the game arguments (the new list, or the old space-separated string).
pub open spec fn launch_command(
    version: VersionJson,
    java_exe: Seq<char>,
    dirs: LaunchDirs,
    options: LaunchOptions,
) -> Seq<Seq<char>> {
    let pairs = substitution_pairs(version, dirs, options);
    let head = seq![
        java_exe,
        "-Xmx"@ + decimal(options.ram_mb as nat) + "M"@,
        "-Xms"@ + decimal(min_ram(options.ram_mb) as nat) + "M"@,
    ];
    head + jvm_section(version, dirs, pairs) + seq![version.main_class@] + game_section(version, pairs)
}

/// The JVM part of the command line.
pub open spec fn jvm_section(
    version: VersionJson,
    dirs: LaunchDirs,
    pairs: Seq<(Seq<char>, Seq<char>)>,
) -> Seq<Seq<char>> {
    match version.arguments {
        Some(b) => jvm_args(resolved_arguments(b.jvm@), pairs),
        None => seq!["-Djava.library.path="@ + dirs.natives_dir@],
    }
}

/// The game part of the command line.
pub open spec fn game_section(version: VersionJson, pairs: Seq<(Seq<char>, Seq<char>)>) -> Seq<
    Seq<char>,
> {
    match version.arguments {
        Some(b) => game_args(resolved_arguments(b.game@), pairs),
        None => match version.minecraft_arguments {
            Some(m) => game_args(split_whitespace(m@), pairs),
            None => Seq::empty(),
        },
    }
}

fn push_substituted_all(
    args: &mut Vec<String>,
    items: &Vec<String>,
    map: &Vec<(String, String)>,
    drop_memory_flags: bool,
)
    requires
        keys_non_empty(map.deep_view()),
    ensures
        final(args).deep_view() == old(args).deep_view() + (if drop_memory_flags {
            jvm_args(items.deep_view(), map.deep_view())
        } else {
            game_args(items.deep_view(), map.deep_view())
        }),
{
    let n = items.len();
    let ghost start = args.deep_view();
    let ghost iv = items.deep_view();
    for i in 0..n
        invariant
            n == items@.len(),
            iv == items.deep_view(),
            keys_non_empty(map.deep_view()),
            start == old(args).deep_view(),
            args.deep_view() == start + (if drop_memory_flags {
                jvm_args(iv.take(i as int), map.deep_view())
            } else {
                game_args(iv.take(i as int), map.deep_view())
            }),
    {
        assert(iv.take(i + 1).drop_last() =~= iv.take(i as int));
        assert(iv.take(i + 1).last() == items@[i as int]@);
        let ghost before = args.deep_view();
        let item = items[i].as_str();
        let skip = drop_memory_flags && (str_starts_with(item, "-Xmx") || str_starts_with(item, "-Xms"));
        if !skip {
            let s = substitute(item, map);
            args.push(s);
            assert(args.deep_view() =~= before.push(s@));
        }
    }
    assert(iv.take(n as int) =~= iv);
}

/// Turns character vectors into strings.
fn strings_of(pieces: &Vec<Vec<char>>) -> (r: Vec<String>)
    ensures
        r.deep_view() == pieces.deep_view(),
{
    let n = pieces.len();
    let mut r: Vec<String> = Vec::new();
    for i in 0..n
        invariant
            n == pieces@.len(),
            r.deep_view() == pieces.deep_view().take(i as int),
    {
        let ghost before = r.deep_view();
        let s = string_from_chars(&pieces[i]);
        assert(s@ == pieces.deep_view()[i as int]);
        r.push(s);
        assert(r.deep_view() =~= before.push(s@));
        assert(pieces.deep_view().take(i + 1) =~= pieces.deep_view().take(i as int).push(pieces.deep_view()[i as int]));
    }
    assert(pieces.deep_view().take(n as int) =~= pieces.deep_view());
    r
}

/// Builds the command line that starts the game.
pub fn build_launch_command(
    version: &VersionJson,
    java_exe: &str,
    dirs: &LaunchDirs,
    options: &LaunchOptions,
) -> (r: Result<Vec<String>, String>)
    ensures
        r matches Ok(args) && args.deep_view() == launch_command(*version, java_exe@, *dirs, *options),
{
    let subs = substitution_map(version, dirs, options);
    proof {
        lemma_substitution_keys(*version, *dirs, *options);
    }
    let mut args: Vec<String> = Vec::new();
    args.push(java_exe.to_owned());
    let max_ram = u64_to_decimal(options.ram_mb as u64);
    let half = options.ram_mb / 2;
    let min = if half >= 512 { half } else { 512 };
    let min_ram_text = u64_to_decimal(min as u64);
    let mut xmx = concat2("-Xmx", max_ram.as_str());
    xmx.append("M");
    let mut xms = concat2("-Xms", min_ram_text.as_str());
    xms.append("M");
    args.push(xmx);
    args.push(xms);
    let ghost head = args.deep_view();
    let ghost pairs = substitution_pairs(*version, *dirs, *options);
    assert(head =~= seq![
        java_exe@,
        "-Xmx"@ + decimal(options.ram_mb as nat) + "M"@,
        "-Xms"@ + decimal(min_ram(options.ram_mb) as nat) + "M"@,
    ]);
    let ghost jvm_part = jvm_section(*version, *dirs, pairs);
    let ghost game_part = game_section(*version, pairs);
    if let Some(arg_block) = &version.arguments {
        let jvm = crate::rules::resolve_argument_values(arg_block.jvm.as_slice());
        push_substituted_all(&mut args, &jvm, &subs, true);
    } else {
        let d = concat2("-Djava.library.path=", dirs.natives_dir.as_str());
        args.push(d);
    }
    assert(args.deep_view() =~= head + jvm_part);
    args.push(version.main_class.clone());
    let ghost mid = args.deep_view();
    assert(mid =~= head + jvm_part + seq![version.main_class@]);
    if let Some(arg_block) = &version.arguments {
        let game = crate::rules::resolve_argument_values(arg_block.game.as_slice());
        push_substituted_all(&mut args, &game, &subs, false);
    } else if let Some(mc_args) = &version.minecraft_arguments {
        let chars = chars_of(mc_args.as_str());
        let pieces = split_chars(&chars, &Separator::Whitespace);
        let words = keep_non_empty(pieces);
        let parts = strings_of(&words);
        assert(parts.deep_view() == split_whitespace(mc_args@));
        push_substituted_all(&mut args, &parts, &subs, false);
    } else {
        assert(args.deep_view() =~= mid + Seq::<Seq<char>>::empty());
    }
    assert(args.deep_view() =~= mid + game_part);
    assert(args.deep_view() =~= launch_command(*version, java_exe@, *dirs, *options));
    Ok(args)
}


/// `pat` occurs nowhere in `s`.
pub open spec fn absent(s: Seq<char>, pat: Seq<char>) -> bool {
    forall|i: int| 0 <= i <= s.len() - pat.len() ==> #[trigger] s.subrange(i, i + pat.len()) != pat
}

/// A template that holds none of the placeholders comes out unchanged.
pub proof fn lemma_substitute_without_placeholders(
    template: Seq<char>,
    pairs: Seq<(Seq<char>, Seq<char>)>,
)
    requires
        forall|i: int| 0 <= i < pairs.len() ==> absent(template, (#[trigger] pairs[i]).0),
    ensures
        substitute_all(template, pairs) == template,
    decreases pairs.len(),
{
    if pairs.len() > 0 {
        assert(absent(template, pairs[0].0));
        lemma_replace_absent(template, pairs[0].0, pairs[0].1);
        assert forall|i: int| 0 <= i < pairs.drop_first().len() implies absent(
            template,
            (#[trigger] pairs.drop_first()[i]).0,
        ) by {
            assert(pairs.drop_first()[i] == pairs[i + 1]);
        }
        lemma_substitute_without_placeholders(template, pairs.drop_first());
    }
}


/// Some planned download writes to `dest`.
pub open spec fn downloaded_to(tasks: Seq<TaskView>, dest: Seq<Seq<char>>) -> bool {
    exists|j: int| 0 <= j < tasks.len() && (#[trigger] tasks[j]).dest == dest
}

proof fn lemma_downloaded_to_extend(a: Seq<TaskView>, b: Seq<TaskView>, dest: Seq<Seq<char>>)
    requires
        downloaded_to(a, dest) || downloaded_to(b, dest),
    ensures
        downloaded_to(a + b, dest),
{
    if downloaded_to(a, dest) {
        let j = choose|j: int| 0 <= j < a.len() && (#[trigger] a[j]).dest == dest;
        assert((a + b)[j] == a[j]);
    } else {
        let j = choose|j: int| 0 <= j < b.len() && (#[trigger] b[j]).dest == dest;
        assert((a + b)[a.len() + j] == b[j]);
    }
}

/// Every jar the class path may list is a file the library downloads
/// write: the class path reads what the downloads fetched.
pub proof fn lemma_classpath_jars_are_downloaded(libs: Seq<Library>)
    ensures
        forall|i: int|
            0 <= i < classpath_candidates_spec(libs).len() ==> downloaded_to(
                library_tasks(libs),
                #[trigger] classpath_candidates_spec(libs)[i],
            ),
    decreases libs.len(),
{
    if libs.len() > 0 {
        let init = libs.drop_last();
        let lib = libs.last();
        lemma_classpath_jars_are_downloaded(init);
        let cands = classpath_candidates_spec(libs);
        assert forall|i: int| 0 <= i < cands.len() implies downloaded_to(library_tasks(libs), #[trigger] cands[i]) by {
            if i < classpath_candidates_spec(init).len() {
                assert(cands[i] == classpath_candidates_spec(init)[i]);
                lemma_downloaded_to_extend(library_tasks(init), tasks_of_library(lib), cands[i]);
            } else {
                let own = tasks_of_library(lib);
                assert(own[0] == artifact_tasks(lib)[0]);
                assert(own[0].dest == cands[i]);
                lemma_downloaded_to_extend(library_tasks(init), own, cands[i]);
            }
        }
    }
}

/// Every natives jar that is unpacked is a file the library downloads
/// write.
pub proof fn lemma_native_jars_are_downloaded(libs: Seq<Library>)
    ensures
        forall|i: int|
            0 <= i < native_jars(libs).len() ==> downloaded_to(
                library_tasks(libs),
                (#[trigger] native_jars(libs)[i]).0,
            ),
    decreases libs.len(),
{
    if libs.len() > 0 {
        let init = libs.drop_last();
        let lib = libs.last();
        lemma_native_jars_are_downloaded(init);
        let jars = native_jars(libs);
        assert forall|i: int| 0 <= i < jars.len() implies downloaded_to(library_tasks(libs), (#[trigger] jars[i]).0) by {
            if i < native_jars(init).len() {
                assert(jars[i] == native_jars(init)[i]);
                lemma_downloaded_to_extend(library_tasks(init), tasks_of_library(lib), jars[i].0);
            } else {
                let a = artifact_tasks(lib);
                let n1 = native_tasks(lib, native_key());
                let n2 = native_tasks(lib, native_key_alt());
                let own = tasks_of_library(lib);
                assert(own == a + n1 + n2);
                if n1.len() > 0 {
                    assert(n1[0].dest == jars[i].0);
                    lemma_downloaded_to_extend(a, n1, jars[i].0);
                    lemma_downloaded_to_extend(a + n1, n2, jars[i].0);
                } else {
                    assert(n2[0].dest == jars[i].0);
                    lemma_downloaded_to_extend(a + n1, n2, jars[i].0);
                }
                lemma_downloaded_to_extend(library_tasks(init), own, jars[i].0);
            }
        }
    }
}


/// Placeholder `key` is paired with `value`, and with nothing else.
pub open spec fn maps_to(
    pairs: Seq<(Seq<char>, Seq<char>)>,
    key: Seq<char>,
    value: Seq<char>,
) -> bool {
    &&& exists|i: int| 0 <= i < pairs.len() && #[trigger] pairs[i] == (key, value)
    &&& forall|i: int| 0 <= i < pairs.len() && (#[trigger] pairs[i]).0 == key ==> pairs[i].1 == value
}

/// Each placeholder of a launch stands for the value it names: the natives,
/// library, game and assets folders and the class path as rendered for this
/// launch, the version id, the version's asset index id, the version type,
/// the player's name, offline UUID and token, and the launcher's fixed
/// name, version and user type; no placeholder is listed twice.

proof fn lemma_placeholder_0(version: VersionJson, dirs: LaunchDirs, options: LaunchOptions)
    ensures
        maps_to(substitution_pairs(version, dirs, options), "${natives_directory}"@, dirs.natives_dir@),
{
    let p = substitution_pairs(version, dirs, options);
    reveal_strlit("${natives_directory}");
    reveal_strlit("${launcher_name}");
    assert("${natives_directory}"@.len() != "${launcher_name}"@.len());
    assert(p[1].0 != "${natives_directory}"@);
    reveal_strlit("${launcher_version}");
    assert("${natives_directory}"@.len() != "${launcher_version}"@.len());
    assert(p[2].0 != "${natives_directory}"@);
    reveal_strlit("${classpath}");
    assert("${natives_directory}"@.len() != "${classpath}"@.len());
    assert(p[3].0 != "${natives_directory}"@);
    reveal_strlit("${library_directory}");
    assert("${natives_directory}"@[2] != "${library_directory}"@[2]);
    assert(p[4].0 != "${natives_directory}"@);
    reveal_strlit("${version_name}");
    assert("${natives_directory}"@.len() != "${version_name}"@.len());
    assert(p[5].0 != "${natives_directory}"@);
    reveal_strlit("${game_directory}");
    assert("${natives_directory}"@.len() != "${game_directory}"@.len());
    assert(p[6].0 != "${natives_directory}"@);
    reveal_strlit("${assets_root}");
    assert("${natives_directory}"@.len() != "${assets_root}"@.len());
    assert(p[7].0 != "${natives_directory}"@);
    reveal_strlit("${assets_index_name}");
    assert("${natives_directory}"@[2] != "${assets_index_name}"@[2]);
    assert(p[8].0 != "${natives_directory}"@);
    reveal_strlit("${auth_player_name}");
    assert("${natives_directory}"@.len() != "${auth_player_name}"@.len());
    assert(p[9].0 != "${natives_directory}"@);
    reveal_strlit("${auth_uuid}");
    assert("${natives_directory}"@.len() != "${auth_uuid}"@.len());
    assert(p[10].0 != "${natives_directory}"@);
    reveal_strlit("${auth_access_token}");
    assert("${natives_directory}"@[2] != "${auth_access_token}"@[2]);
    assert(p[11].0 != "${natives_directory}"@);
    reveal_strlit("${clientid}");
    assert("${natives_directory}"@.len() != "${clientid}"@.len());
    assert(p[12].0 != "${natives_directory}"@);
    reveal_strlit("${auth_xuid}");
    assert("${natives_directory}"@.len() != "${auth_xuid}"@.len());
    assert(p[13].0 != "${natives_directory}"@);
    reveal_strlit("${user_type}");
    assert("${natives_directory}"@.len() != "${user_type}"@.len());
    assert(p[14].0 != "${natives_directory}"@);
    reveal_strlit("${version_type}");
    assert("${natives_directory}"@.len() != "${version_type}"@.len());
    assert(p[15].0 != "${natives_directory}"@);
    assert(p[0] == ("${natives_directory}"@, dirs.natives_dir@));
    assert forall|i: int| 0 <= i < p.len() && (#[trigger] p[i]).0 == "${natives_directory}"@ implies i == 0 by {
        assert(i == 0 || i == 1 || i == 2 || i == 3 || i == 4 || i == 5 || i == 6 || i == 7 || i == 8 || i == 9 || i == 10 || i == 11 || i == 12 || i == 13 || i == 14 || i == 15);
    }
}

proof fn lemma_placeholder_1(version: VersionJson, dirs: LaunchDirs, options: LaunchOptions)
    ensures
        maps_to(substitution_pairs(version, dirs, options), "${launcher_name}"@, "minelts"@),
{
    let p = substitution_pairs(version, dirs, options);
    reveal_strlit("${launcher_name}");
    reveal_strlit("${natives_directory}");
    assert("${launcher_name}"@.len() != "${natives_directory}"@.len());
    assert(p[0].0 != "${launcher_name}"@);
    reveal_strlit("${launcher_version}");
    assert("${launcher_name}"@.len() != "${launcher_version}"@.len());
    assert(p[2].0 != "${launcher_name}"@);
    reveal_strlit("${classpath}");
    assert("${launcher_name}"@.len() != "${classpath}"@.len());
    assert(p[3].0 != "${launcher_name}"@);
    reveal_strlit("${library_directory}");
    assert("${launcher_name}"@.len() != "${library_directory}"@.len());
    assert(p[4].0 != "${launcher_name}"@);
    reveal_strlit("${version_name}");
    assert("${launcher_name}"@.len() != "${version_name}"@.len());
    assert(p[5].0 != "${launcher_name}"@);
    reveal_strlit("${game_directory}");
    assert("${launcher_name}"@.len() != "${game_directory}"@.len());
    assert(p[6].0 != "${launcher_name}"@);
    reveal_strlit("${assets_root}");
    assert("${launcher_name}"@.len() != "${assets_root}"@.len());
    assert(p[7].0 != "${launcher_name}"@);
    reveal_strlit("${assets_index_name}");
    assert("${launcher_name}"@.len() != "${assets_index_name}"@.len());
    assert(p[8].0 != "${launcher_name}"@);
    reveal_strlit("${auth_player_name}");
    assert("${launcher_name}"@.len() != "${auth_player_name}"@.len());
    assert(p[9].0 != "${launcher_name}"@);
    reveal_strlit("${auth_uuid}");
    assert("${launcher_name}"@.len() != "${auth_uuid}"@.len());
    assert(p[10].0 != "${launcher_name}"@);
    reveal_strlit("${auth_access_token}");
    assert("${launcher_name}"@.len() != "${auth_access_token}"@.len());
    assert(p[11].0 != "${launcher_name}"@);
    reveal_strlit("${clientid}");
    assert("${launcher_name}"@.len() != "${clientid}"@.len());
    assert(p[12].0 != "${launcher_name}"@);
    reveal_strlit("${auth_xuid}");
    assert("${launcher_name}"@.len() != "${auth_xuid}"@.len());
    assert(p[13].0 != "${launcher_name}"@);
    reveal_strlit("${user_type}");
    assert("${launcher_name}"@.len() != "${user_type}"@.len());
    assert(p[14].0 != "${launcher_name}"@);
    reveal_strlit("${version_type}");
    assert("${launcher_name}"@.len() != "${version_type}"@.len());
    assert(p[15].0 != "${launcher_name}"@);
    assert(p[1] == ("${launcher_name}"@, "minelts"@));
    assert forall|i: int| 0 <= i < p.len() && (#[trigger] p[i]).0 == "${launcher_name}"@ implies i == 1 by {
        assert(i == 0 || i == 1 || i == 2 || i == 3 || i == 4 || i == 5 || i == 6 || i == 7 || i == 8 || i == 9 || i == 10 || i == 11 || i == 12 || i == 13 || i == 14 || i == 15);
    }
}

proof fn lemma_placeholder_2(version: VersionJson, dirs: LaunchDirs, options: LaunchOptions)
    ensures
        maps_to(substitution_pairs(version, dirs, options), "${launcher_version}"@, "0.1.0"@),
{
    let p = substitution_pairs(version, dirs, options);
    reveal_strlit("${launcher_version}");
    reveal_strlit("${natives_directory}");
    assert("${launcher_version}"@.len() != "${natives_directory}"@.len());
    assert(p[0].0 != "${launcher_version}"@);
    reveal_strlit("${launcher_name}");
    assert("${launcher_version}"@.len() != "${launcher_name}"@.len());
    assert(p[1].0 != "${launcher_version}"@);
    reveal_strlit("${classpath}");
    assert("${launcher_version}"@.len() != "${classpath}"@.len());
    assert(p[3].0 != "${launcher_version}"@);
    reveal_strlit("${library_directory}");
    assert("${launcher_version}"@.len() != "${library_directory}"@.len());
    assert(p[4].0 != "${launcher_version}"@);
    reveal_strlit("${version_name}");
    assert("${launcher_version}"@.len() != "${version_name}"@.len());
    assert(p[5].0 != "${launcher_version}"@);
    reveal_strlit("${game_directory}");
    assert("${launcher_version}"@.len() != "${game_directory}"@.len());
    assert(p[6].0 != "${launcher_version}"@);
    reveal_strlit("${assets_root}");
    assert("${launcher_version}"@.len() != "${assets_root}"@.len());
    assert(p[7].0 != "${launcher_version}"@);
    reveal_strlit("${assets_index_name}");
    assert("${launcher_version}"@.len() != "${assets_index_name}"@.len());
    assert(p[8].0 != "${launcher_version}"@);
    reveal_strlit("${auth_player_name}");
    assert("${launcher_version}"@[2] != "${auth_player_name}"@[2]);
    assert(p[9].0 != "${launcher_version}"@);
    reveal_strlit("${auth_uuid}");
    assert("${launcher_version}"@.len() != "${auth_uuid}"@.len());
    assert(p[10].0 != "${launcher_version}"@);
    reveal_strlit("${auth_access_token}");
    assert("${launcher_version}"@.len() != "${auth_access_token}"@.len());
    assert(p[11].0 != "${launcher_version}"@);
    reveal_strlit("${clientid}");
    assert("${launcher_version}"@.len() != "${clientid}"@.len());
    assert(p[12].0 != "${launcher_version}"@);
    reveal_strlit("${auth_xuid}");
    assert("${launcher_version}"@.len() != "${auth_xuid}"@.len());
    assert(p[13].0 != "${launcher_version}"@);
    reveal_strlit("${user_type}");
    assert("${launcher_version}"@.len() != "${user_type}"@.len());
    assert(p[14].0 != "${launcher_version}"@);
    reveal_strlit("${version_type}");
    assert("${launcher_version}"@.len() != "${version_type}"@.len());
    assert(p[15].0 != "${launcher_version}"@);
    assert(p[2] == ("${launcher_version}"@, "0.1.0"@));
    assert forall|i: int| 0 <= i < p.len() && (#[trigger] p[i]).0 == "${launcher_version}"@ implies i == 2 by {
        assert(i == 0 || i == 1 || i == 2 || i == 3 || i == 4 || i == 5 || i == 6 || i == 7 || i == 8 || i == 9 || i == 10 || i == 11 || i == 12 || i == 13 || i == 14 || i == 15);
    }
}

proof fn lemma_placeholder_3(version: VersionJson, dirs: LaunchDirs, options: LaunchOptions)
    ensures
        maps_to(substitution_pairs(version, dirs, options), "${classpath}"@, dirs.classpath@),
{
    let p = substitution_pairs(version, dirs, options);
    reveal_strlit("${classpath}");
    reveal_strlit("${natives_directory}");
    assert("${classpath}"@.len() != "${natives_directory}"@.len());
    assert(p[0].0 != "${classpath}"@);
    reveal_strlit("${launcher_name}");
    assert("${classpath}"@.len() != "${launcher_name}"@.len());
    assert(p[1].0 != "${classpath}"@);
    reveal_strlit("${launcher_version}");
    assert("${classpath}"@.len() != "${launcher_version}"@.len());
    assert(p[2].0 != "${classpath}"@);
    reveal_strlit("${library_directory}");
    assert("${classpath}"@.len() != "${library_directory}"@.len());
    assert(p[4].0 != "${classpath}"@);
    reveal_strlit("${version_name}");
    assert("${classpath}"@.len() != "${version_name}"@.len());
    assert(p[5].0 != "${classpath}"@);
    reveal_strlit("${game_directory}");
    assert("${classpath}"@.len() != "${game_directory}"@.len());
    assert(p[6].0 != "${classpath}"@);
    reveal_strlit("${assets_root}");
    assert("${classpath}"@.len() != "${assets_root}"@.len());
    assert(p[7].0 != "${classpath}"@);
    reveal_strlit("${assets_index_name}");
    assert("${classpath}"@.len() != "${assets_index_name}"@.len());
    assert(p[8].0 != "${classpath}"@);
    reveal_strlit("${auth_player_name}");
    assert("${classpath}"@.len() != "${auth_player_name}"@.len());
    assert(p[9].0 != "${classpath}"@);
    reveal_strlit("${auth_uuid}");
    assert("${classpath}"@[2] != "${auth_uuid}"@[2]);
    assert(p[10].0 != "${classpath}"@);
    reveal_strlit("${auth_access_token}");
    assert("${classpath}"@.len() != "${auth_access_token}"@.len());
    assert(p[11].0 != "${classpath}"@);
    reveal_strlit("${clientid}");
    assert("${classpath}"@.len() != "${clientid}"@.len());
    assert(p[12].0 != "${classpath}"@);
    reveal_strlit("${auth_xuid}");
    assert("${classpath}"@[2] != "${auth_xuid}"@[2]);
    assert(p[13].0 != "${classpath}"@);
    reveal_strlit("${user_type}");
    assert("${classpath}"@[2] != "${user_type}"@[2]);
    assert(p[14].0 != "${classpath}"@);
    reveal_strlit("${version_type}");
    assert("${classpath}"@.len() != "${version_type}"@.len());
    assert(p[15].0 != "${classpath}"@);
    assert(p[3] == ("${classpath}"@, dirs.classpath@));
    assert forall|i: int| 0 <= i < p.len() && (#[trigger] p[i]).0 == "${classpath}"@ implies i == 3 by {
        assert(i == 0 || i == 1 || i == 2 || i == 3 || i == 4 || i == 5 || i == 6 || i == 7 || i == 8 || i == 9 || i == 10 || i == 11 || i == 12 || i == 13 || i == 14 || i == 15);
    }
}

proof fn lemma_placeholder_4(version: VersionJson, dirs: LaunchDirs, options: LaunchOptions)
    ensures
        maps_to(substitution_pairs(version, dirs, options), "${library_directory}"@, dirs.library_dir@),
{
    let p = substitution_pairs(version, dirs, options);
    reveal_strlit("${library_directory}");
    reveal_strlit("${natives_directory}");
    assert("${library_directory}"@[2] != "${natives_directory}"@[2]);
    assert(p[0].0 != "${library_directory}"@);
    reveal_strlit("${launcher_name}");
    assert("${library_directory}"@.len() != "${launcher_name}"@.len());
    assert(p[1].0 != "${library_directory}"@);
    reveal_strlit("${launcher_version}");
    assert("${library_directory}"@.len() != "${launcher_version}"@.len());
    assert(p[2].0 != "${library_directory}"@);
    reveal_strlit("${classpath}");
    assert("${library_directory}"@.len() != "${classpath}"@.len());
    assert(p[3].0 != "${library_directory}"@);
    reveal_strlit("${version_name}");
    assert("${library_directory}"@.len() != "${version_name}"@.len());
    assert(p[5].0 != "${library_directory}"@);
    reveal_strlit("${game_directory}");
    assert("${library_directory}"@.len() != "${game_directory}"@.len());
    assert(p[6].0 != "${library_directory}"@);
    reveal_strlit("${assets_root}");
    assert("${library_directory}"@.len() != "${assets_root}"@.len());
    assert(p[7].0 != "${library_directory}"@);
    reveal_strlit("${assets_index_name}");
    assert("${library_directory}"@[2] != "${assets_index_name}"@[2]);
    assert(p[8].0 != "${library_directory}"@);
    reveal_strlit("${auth_player_name}");
    assert("${library_directory}"@.len() != "${auth_player_name}"@.len());
    assert(p[9].0 != "${library_directory}"@);
    reveal_strlit("${auth_uuid}");
    assert("${library_directory}"@.len() != "${auth_uuid}"@.len());
    assert(p[10].0 != "${library_directory}"@);
    reveal_strlit("${auth_access_token}");
    assert("${library_directory}"@[2] != "${auth_access_token}"@[2]);
    assert(p[11].0 != "${library_directory}"@);
    reveal_strlit("${clientid}");
    assert("${library_directory}"@.len() != "${clientid}"@.len());
    assert(p[12].0 != "${library_directory}"@);
    reveal_strlit("${auth_xuid}");
    assert("${library_directory}"@.len() != "${auth_xuid}"@.len());
    assert(p[13].0 != "${library_directory}"@);
    reveal_strlit("${user_type}");
    assert("${library_directory}"@.len() != "${user_type}"@.len());
    assert(p[14].0 != "${library_directory}"@);
    reveal_strlit("${version_type}");
    assert("${library_directory}"@.len() != "${version_type}"@.len());
    assert(p[15].0 != "${library_directory}"@);
    assert(p[4] == ("${library_directory}"@, dirs.library_dir@));
    assert forall|i: int| 0 <= i < p.len() && (#[trigger] p[i]).0 == "${library_directory}"@ implies i == 4 by {
        assert(i == 0 || i == 1 || i == 2 || i == 3 || i == 4 || i == 5 || i == 6 || i == 7 || i == 8 || i == 9 || i == 10 || i == 11 || i == 12 || i == 13 || i == 14 || i == 15);
    }
}

proof fn lemma_placeholder_5(version: VersionJson, dirs: LaunchDirs, options: LaunchOptions)
    ensures
        maps_to(substitution_pairs(version, dirs, options), "${version_name}"@, version.id@),
{
    let p = substitution_pairs(version, dirs, options);
    reveal_strlit("${version_name}");
    reveal_strlit("${natives_directory}");
    assert("${version_name}"@.len() != "${natives_directory}"@.len());
    assert(p[0].0 != "${version_name}"@);
    reveal_strlit("${launcher_name}");
    assert("${version_name}"@.len() != "${launcher_name}"@.len());
    assert(p[1].0 != "${version_name}"@);
    reveal_strlit("${launcher_version}");
    assert("${version_name}"@.len() != "${launcher_version}"@.len());
    assert(p[2].0 != "${version_name}"@);
    reveal_strlit("${classpath}");
    assert("${version_name}"@.len() != "${classpath}"@.len());
    assert(p[3].0 != "${version_name}"@);
    reveal_strlit("${library_directory}");
    assert("${version_name}"@.len() != "${library_directory}"@.len());
    assert(p[4].0 != "${version_name}"@);
    reveal_strlit("${game_directory}");
    assert("${version_name}"@.len() != "${game_directory}"@.len());
    assert(p[6].0 != "${version_name}"@);
    reveal_strlit("${assets_root}");
    assert("${version_name}"@.len() != "${assets_root}"@.len());
    assert(p[7].0 != "${version_name}"@);
    reveal_strlit("${assets_index_name}");
    assert("${version_name}"@.len() != "${assets_index_name}"@.len());
    assert(p[8].0 != "${version_name}"@);
    reveal_strlit("${auth_player_name}");
    assert("${version_name}"@.len() != "${auth_player_name}"@.len());
    assert(p[9].0 != "${version_name}"@);
    reveal_strlit("${auth_uuid}");
    assert("${version_name}"@.len() != "${auth_uuid}"@.len());
    assert(p[10].0 != "${version_name}"@);
    reveal_strlit("${auth_access_token}");
    assert("${version_name}"@.len() != "${auth_access_token}"@.len());
    assert(p[11].0 != "${version_name}"@);
    reveal_strlit("${clientid}");
    assert("${version_name}"@.len() != "${clientid}"@.len());
    assert(p[12].0 != "${version_name}"@);
    reveal_strlit("${auth_xuid}");
    assert("${version_name}"@.len() != "${auth_xuid}"@.len());
    assert(p[13].0 != "${version_name}"@);
    reveal_strlit("${user_type}");
    assert("${version_name}"@.len() != "${user_type}"@.len());
    assert(p[14].0 != "${version_name}"@);
    reveal_strlit("${version_type}");
    assert("${version_name}"@[10] != "${version_type}"@[10]);
    assert(p[15].0 != "${version_name}"@);
    assert(p[5] == ("${version_name}"@, version.id@));
    assert forall|i: int| 0 <= i < p.len() && (#[trigger] p[i]).0 == "${version_name}"@ implies i == 5 by {
        assert(i == 0 || i == 1 || i == 2 || i == 3 || i == 4 || i == 5 || i == 6 || i == 7 || i == 8 || i == 9 || i == 10 || i == 11 || i == 12 || i == 13 || i == 14 || i == 15);
    }
}

proof fn lemma_placeholder_6(version: VersionJson, dirs: LaunchDirs, options: LaunchOptions)
    ensures
        maps_to(substitution_pairs(version, dirs, options), "${game_directory}"@, dirs.game_dir@),
{
    let p = substitution_pairs(version, dirs, options);
    reveal_strlit("${game_directory}");
    reveal_strlit("${natives_directory}");
    assert("${game_directory}"@.len() != "${natives_directory}"@.len());
    assert(p[0].0 != "${game_directory}"@);
    reveal_strlit("${launcher_name}");
    assert("${game_directory}"@.len() != "${launcher_name}"@.len());
    assert(p[1].0 != "${game_directory}"@);
    reveal_strlit("${launcher_version}");
    assert("${game_directory}"@.len() != "${launcher_version}"@.len());
    assert(p[2].0 != "${game_directory}"@);
    reveal_strlit("${classpath}");
    assert("${game_directory}"@.len() != "${classpath}"@.len());
    assert(p[3].0 != "${game_directory}"@);
    reveal_strlit("${library_directory}");
    assert("${game_directory}"@.len() != "${library_directory}"@.len());
    assert(p[4].0 != "${game_directory}"@);
    reveal_strlit("${version_name}");
    assert("${game_directory}"@.len() != "${version_name}"@.len());
    assert(p[5].0 != "${game_directory}"@);
    reveal_strlit("${assets_root}");
    assert("${game_directory}"@.len() != "${assets_root}"@.len());
    assert(p[7].0 != "${game_directory}"@);
    reveal_strlit("${assets_index_name}");
    assert("${game_directory}"@.len() != "${assets_index_name}"@.len());
    assert(p[8].0 != "${game_directory}"@);
    reveal_strlit("${auth_player_name}");
    assert("${game_directory}"@.len() != "${auth_player_name}"@.len());
    assert(p[9].0 != "${game_directory}"@);
    reveal_strlit("${auth_uuid}");
    assert("${game_directory}"@.len() != "${auth_uuid}"@.len());
    assert(p[10].0 != "${game_directory}"@);
    reveal_strlit("${auth_access_token}");
    assert("${game_directory}"@.len() != "${auth_access_token}"@.len());
    assert(p[11].0 != "${game_directory}"@);
    reveal_strlit("${clientid}");
    assert("${game_directory}"@.len() != "${clientid}"@.len());
    assert(p[12].0 != "${game_directory}"@);
    reveal_strlit("${auth_xuid}");
    assert("${game_directory}"@.len() != "${auth_xuid}"@.len());
    assert(p[13].0 != "${game_directory}"@);
    reveal_strlit("${user_type}");
    assert("${game_directory}"@.len() != "${user_type}"@.len());
    assert(p[14].0 != "${game_directory}"@);
    reveal_strlit("${version_type}");
    assert("${game_directory}"@.len() != "${version_type}"@.len());
    assert(p[15].0 != "${game_directory}"@);
    assert(p[6] == ("${game_directory}"@, dirs.game_dir@));
    assert forall|i: int| 0 <= i < p.len() && (#[trigger] p[i]).0 == "${game_directory}"@ implies i == 6 by {
        assert(i == 0 || i == 1 || i == 2 || i == 3 || i == 4 || i == 5 || i == 6 || i == 7 || i == 8 || i == 9 || i == 10 || i == 11 || i == 12 || i == 13 || i == 14 || i == 15);
    }
}

proof fn lemma_placeholder_7(version: VersionJson, dirs: LaunchDirs, options: LaunchOptions)
    ensures
        maps_to(substitution_pairs(version, dirs, options), "${assets_root}"@, dirs.assets_root@),
{
    let p = substitution_pairs(version, dirs, options);
    reveal_strlit("${assets_root}");
    reveal_strlit("${natives_directory}");
    assert("${assets_root}"@.len() != "${natives_directory}"@.len());
    assert(p[0].0 != "${assets_root}"@);
    reveal_strlit("${launcher_name}");
    assert("${assets_root}"@.len() != "${launcher_name}"@.len());
    assert(p[1].0 != "${assets_root}"@);
    reveal_strlit("${launcher_version}");
    assert("${assets_root}"@.len() != "${launcher_version}"@.len());
    assert(p[2].0 != "${assets_root}"@);
    reveal_strlit("${classpath}");
    assert("${assets_root}"@.len() != "${classpath}"@.len());
    assert(p[3].0 != "${assets_root}"@);
    reveal_strlit("${library_directory}");
    assert("${assets_root}"@.len() != "${library_directory}"@.len());
    assert(p[4].0 != "${assets_root}"@);
    reveal_strlit("${version_name}");
    assert("${assets_root}"@.len() != "${version_name}"@.len());
    assert(p[5].0 != "${assets_root}"@);
    reveal_strlit("${game_directory}");
    assert("${assets_root}"@.len() != "${game_directory}"@.len());
    assert(p[6].0 != "${assets_root}"@);
    reveal_strlit("${assets_index_name}");
    assert("${assets_root}"@.len() != "${assets_index_name}"@.len());
    assert(p[8].0 != "${assets_root}"@);
    reveal_strlit("${auth_player_name}");
    assert("${assets_root}"@.len() != "${auth_player_name}"@.len());
    assert(p[9].0 != "${assets_root}"@);
    reveal_strlit("${auth_uuid}");
    assert("${assets_root}"@.len() != "${auth_uuid}"@.len());
    assert(p[10].0 != "${assets_root}"@);
    reveal_strlit("${auth_access_token}");
    assert("${assets_root}"@.len() != "${auth_access_token}"@.len());
    assert(p[11].0 != "${assets_root}"@);
    reveal_strlit("${clientid}");
    assert("${assets_root}"@.len() != "${clientid}"@.len());
    assert(p[12].0 != "${assets_root}"@);
    reveal_strlit("${auth_xuid}");
    assert("${assets_root}"@.len() != "${auth_xuid}"@.len());
    assert(p[13].0 != "${assets_root}"@);
    reveal_strlit("${user_type}");
    assert("${assets_root}"@.len() != "${user_type}"@.len());
    assert(p[14].0 != "${assets_root}"@);
    reveal_strlit("${version_type}");
    assert("${assets_root}"@.len() != "${version_type}"@.len());
    assert(p[15].0 != "${assets_root}"@);
    assert(p[7] == ("${assets_root}"@, dirs.assets_root@));
    assert forall|i: int| 0 <= i < p.len() && (#[trigger] p[i]).0 == "${assets_root}"@ implies i == 7 by {
        assert(i == 0 || i == 1 || i == 2 || i == 3 || i == 4 || i == 5 || i == 6 || i == 7 || i == 8 || i == 9 || i == 10 || i == 11 || i == 12 || i == 13 || i == 14 || i == 15);
    }
}

proof fn lemma_placeholder_8(version: VersionJson, dirs: LaunchDirs, options: LaunchOptions)
    ensures
        maps_to(substitution_pairs(version, dirs, options), "${assets_index_name}"@, version.asset_index.id@),
{
    let p = substitution_pairs(version, dirs, options);
    reveal_strlit("${assets_index_name}");
    reveal_strlit("${natives_directory}");
    assert("${assets_index_name}"@[2] != "${natives_directory}"@[2]);
    assert(p[0].0 != "${assets_index_name}"@);
    reveal_strlit("${launcher_name}");
    assert("${assets_index_name}"@.len() != "${launcher_name}"@.len());
    assert(p[1].0 != "${assets_index_name}"@);
    reveal_strlit("${launcher_version}");
    assert("${assets_index_name}"@.len() != "${launcher_version}"@.len());
    assert(p[2].0 != "${assets_index_name}"@);
    reveal_strlit("${classpath}");
    assert("${assets_index_name}"@.len() != "${classpath}"@.len());
    assert(p[3].0 != "${assets_index_name}"@);
    reveal_strlit("${library_directory}");
    assert("${assets_index_name}"@[2] != "${library_directory}"@[2]);
    assert(p[4].0 != "${assets_index_name}"@);
    reveal_strlit("${version_name}");
    assert("${assets_index_name}"@.len() != "${version_name}"@.len());
    assert(p[5].0 != "${assets_index_name}"@);
    reveal_strlit("${game_directory}");
    assert("${assets_index_name}"@.len() != "${game_directory}"@.len());
    assert(p[6].0 != "${assets_index_name}"@);
    reveal_strlit("${assets_root}");
    assert("${assets_index_name}"@.len() != "${assets_root}"@.len());
    assert(p[7].0 != "${assets_index_name}"@);
    reveal_strlit("${auth_player_name}");
    assert("${assets_index_name}"@.len() != "${auth_player_name}"@.len());
    assert(p[9].0 != "${assets_index_name}"@);
    reveal_strlit("${auth_uuid}");
    assert("${assets_index_name}"@.len() != "${auth_uuid}"@.len());
    assert(p[10].0 != "${assets_index_name}"@);
    reveal_strlit("${auth_access_token}");
    assert("${assets_index_name}"@[3] != "${auth_access_token}"@[3]);
    assert(p[11].0 != "${assets_index_name}"@);
    reveal_strlit("${clientid}");
    assert("${assets_index_name}"@.len() != "${clientid}"@.len());
    assert(p[12].0 != "${assets_index_name}"@);
    reveal_strlit("${auth_xuid}");
    assert("${assets_index_name}"@.len() != "${auth_xuid}"@.len());
    assert(p[13].0 != "${assets_index_name}"@);
    reveal_strlit("${user_type}");
    assert("${assets_index_name}"@.len() != "${user_type}"@.len());
    assert(p[14].0 != "${assets_index_name}"@);
    reveal_strlit("${version_type}");
    assert("${assets_index_name}"@.len() != "${version_type}"@.len());
    assert(p[15].0 != "${assets_index_name}"@);
    assert(p[8] == ("${assets_index_name}"@, version.asset_index.id@));
    assert forall|i: int| 0 <= i < p.len() && (#[trigger] p[i]).0 == "${assets_index_name}"@ implies i == 8 by {
        assert(i == 0 || i == 1 || i == 2 || i == 3 || i == 4 || i == 5 || i == 6 || i == 7 || i == 8 || i == 9 || i == 10 || i == 11 || i == 12 || i == 13 || i == 14 || i == 15);
    }
}

proof fn lemma_placeholder_9(version: VersionJson, dirs: LaunchDirs, options: LaunchOptions)
    ensures
        maps_to(substitution_pairs(version, dirs, options), "${auth_player_name}"@, options.username@),
{
    let p = substitution_pairs(version, dirs, options);
    reveal_strlit("${auth_player_name}");
    reveal_strlit("${natives_directory}");
    assert("${auth_player_name}"@.len() != "${natives_directory}"@.len());
    assert(p[0].0 != "${auth_player_name}"@);
    reveal_strlit("${launcher_name}");
    assert("${auth_player_name}"@.len() != "${launcher_name}"@.len());
    assert(p[1].0 != "${auth_player_name}"@);
    reveal_strlit("${launcher_version}");
    assert("${auth_player_name}"@[2] != "${launcher_version}"@[2]);
    assert(p[2].0 != "${auth_player_name}"@);
    reveal_strlit("${classpath}");
    assert("${auth_player_name}"@.len() != "${classpath}"@.len());
    assert(p[3].0 != "${auth_player_name}"@);
    reveal_strlit("${library_directory}");
    assert("${auth_player_name}"@.len() != "${library_directory}"@.len());
    assert(p[4].0 != "${auth_player_name}"@);
    reveal_strlit("${version_name}");
    assert("${auth_player_name}"@.len() != "${version_name}"@.len());
    assert(p[5].0 != "${auth_player_name}"@);
    reveal_strlit("${game_directory}");
    assert("${auth_player_name}"@.len() != "${game_directory}"@.len());
    assert(p[6].0 != "${auth_player_name}"@);
    reveal_strlit("${assets_root}");
    assert("${auth_player_name}"@.len() != "${assets_root}"@.len());
    assert(p[7].0 != "${auth_player_name}"@);
    reveal_strlit("${assets_index_name}");
    assert("${auth_player_name}"@.len() != "${assets_index_name}"@.len());
    assert(p[8].0 != "${auth_player_name}"@);
    reveal_strlit("${auth_uuid}");
    assert("${auth_player_name}"@.len() != "${auth_uuid}"@.len());
    assert(p[10].0 != "${auth_player_name}"@);
    reveal_strlit("${auth_access_token}");
    assert("${auth_player_name}"@.len() != "${auth_access_token}"@.len());
    assert(p[11].0 != "${auth_player_name}"@);
    reveal_strlit("${clientid}");
    assert("${auth_player_name}"@.len() != "${clientid}"@.len());
    assert(p[12].0 != "${auth_player_name}"@);
    reveal_strlit("${auth_xuid}");
    assert("${auth_player_name}"@.len() != "${auth_xuid}"@.len());
    assert(p[13].0 != "${auth_player_name}"@);
    reveal_strlit("${user_type}");
    assert("${auth_player_name}"@.len() != "${user_type}"@.len());
    assert(p[14].0 != "${auth_player_name}"@);
    reveal_strlit("${version_type}");
    assert("${auth_player_name}"@.len() != "${version_type}"@.len());
    assert(p[15].0 != "${auth_player_name}"@);
    assert(p[9] == ("${auth_player_name}"@, options.username@));
    assert forall|i: int| 0 <= i < p.len() && (#[trigger] p[i]).0 == "${auth_player_name}"@ implies i == 9 by {
        assert(i == 0 || i == 1 || i == 2 || i == 3 || i == 4 || i == 5 || i == 6 || i == 7 || i == 8 || i == 9 || i == 10 || i == 11 || i == 12 || i == 13 || i == 14 || i == 15);
    }
}

proof fn lemma_placeholder_10(version: VersionJson, dirs: LaunchDirs, options: LaunchOptions)
    ensures
        maps_to(substitution_pairs(version, dirs, options), "${auth_uuid}"@, player_uuid_text(options.username@)),
{
    let p = substitution_pairs(version, dirs, options);
    reveal_strlit("${auth_uuid}");
    reveal_strlit("${natives_directory}");
    assert("${auth_uuid}"@.len() != "${natives_directory}"@.len());
    assert(p[0].0 != "${auth_uuid}"@);
    reveal_strlit("${launcher_name}");
    assert("${auth_uuid}"@.len() != "${launcher_name}"@.len());
    assert(p[1].0 != "${auth_uuid}"@);
    reveal_strlit("${launcher_version}");
    assert("${auth_uuid}"@.len() != "${launcher_version}"@.len());
    assert(p[2].0 != "${auth_uuid}"@);
    reveal_strlit("${classpath}");
    assert("${auth_uuid}"@[2] != "${classpath}"@[2]);
    assert(p[3].0 != "${auth_uuid}"@);
    reveal_strlit("${library_directory}");
    assert("${auth_uuid}"@.len() != "${library_directory}"@.len());
    assert(p[4].0 != "${auth_uuid}"@);
    reveal_strlit("${version_name}");
    assert("${auth_uuid}"@.len() != "${version_name}"@.len());
    assert(p[5].0 != "${auth_uuid}"@);
    reveal_strlit("${game_directory}");
    assert("${auth_uuid}"@.len() != "${game_directory}"@.len());
    assert(p[6].0 != "${auth_uuid}"@);
    reveal_strlit("${assets_root}");
    assert("${auth_uuid}"@.len() != "${assets_root}"@.len());
    assert(p[7].0 != "${auth_uuid}"@);
    reveal_strlit("${assets_index_name}");
    assert("${auth_uuid}"@.len() != "${assets_index_name}"@.len());
    assert(p[8].0 != "${auth_uuid}"@);
    reveal_strlit("${auth_player_name}");
    assert("${auth_uuid}"@.len() != "${auth_player_name}"@.len());
    assert(p[9].0 != "${auth_uuid}"@);
    reveal_strlit("${auth_access_token}");
    assert("${auth_uuid}"@.len() != "${auth_access_token}"@.len());
    assert(p[11].0 != "${auth_uuid}"@);
    reveal_strlit("${clientid}");
    assert("${auth_uuid}"@.len() != "${clientid}"@.len());
    assert(p[12].0 != "${auth_uuid}"@);
    reveal_strlit("${auth_xuid}");
    assert("${auth_uuid}"@[7] != "${auth_xuid}"@[7]);
    assert(p[13].0 != "${auth_uuid}"@);
    reveal_strlit("${user_type}");
    assert("${auth_uuid}"@[2] != "${user_type}"@[2]);
    assert(p[14].0 != "${auth_uuid}"@);
    reveal_strlit("${version_type}");
    assert("${auth_uuid}"@.len() != "${version_type}"@.len());
    assert(p[15].0 != "${auth_uuid}"@);
    assert(p[10] == ("${auth_uuid}"@, player_uuid_text(options.username@)));
    assert forall|i: int| 0 <= i < p.len() && (#[trigger] p[i]).0 == "${auth_uuid}"@ implies i == 10 by {
        assert(i == 0 || i == 1 || i == 2 || i == 3 || i == 4 || i == 5 || i == 6 || i == 7 || i == 8 || i == 9 || i == 10 || i == 11 || i == 12 || i == 13 || i == 14 || i == 15);
    }
}

proof fn lemma_placeholder_11(version: VersionJson, dirs: LaunchDirs, options: LaunchOptions)
    ensures
        maps_to(substitution_pairs(version, dirs, options), "${auth_access_token}"@, "0"@),
{
    let p = substitution_pairs(version, dirs, options);
    reveal_strlit("${auth_access_token}");
    reveal_strlit("${natives_directory}");
    assert("${auth_access_token}"@[2] != "${natives_directory}"@[2]);
    assert(p[0].0 != "${auth_access_token}"@);
    reveal_strlit("${launcher_name}");
    assert("${auth_access_token}"@.len() != "${launcher_name}"@.len());
    assert(p[1].0 != "${auth_access_token}"@);
    reveal_strlit("${launcher_version}");
    assert("${auth_access_token}"@.len() != "${launcher_version}"@.len());
    assert(p[2].0 != "${auth_access_token}"@);
    reveal_strlit("${classpath}");
    assert("${auth_access_token}"@.len() != "${classpath}"@.len());
    assert(p[3].0 != "${auth_access_token}"@);
    reveal_strlit("${library_directory}");
    assert("${auth_access_token}"@[2] != "${library_directory}"@[2]);
    assert(p[4].0 != "${auth_access_token}"@);
    reveal_strlit("${version_name}");
    assert("${auth_access_token}"@.len() != "${version_name}"@.len());
    assert(p[5].0 != "${auth_access_token}"@);
    reveal_strlit("${game_directory}");
    assert("${auth_access_token}"@.len() != "${game_directory}"@.len());
    assert(p[6].0 != "${auth_access_token}"@);
    reveal_strlit("${assets_root}");
    assert("${auth_access_token}"@.len() != "${assets_root}"@.len());
    assert(p[7].0 != "${auth_access_token}"@);
    reveal_strlit("${assets_index_name}");
    assert("${auth_access_token}"@[3] != "${assets_index_name}"@[3]);
    assert(p[8].0 != "${auth_access_token}"@);
    reveal_strlit("${auth_player_name}");
    assert("${auth_access_token}"@.len() != "${auth_player_name}"@.len());
    assert(p[9].0 != "${auth_access_token}"@);
    reveal_strlit("${auth_uuid}");
    assert("${auth_access_token}"@.len() != "${auth_uuid}"@.len());
    assert(p[10].0 != "${auth_access_token}"@);
    reveal_strlit("${clientid}");
    assert("${auth_access_token}"@.len() != "${clientid}"@.len());
    assert(p[12].0 != "${auth_access_token}"@);
    reveal_strlit("${auth_xuid}");
    assert("${auth_access_token}"@.len() != "${auth_xuid}"@.len());
    assert(p[13].0 != "${auth_access_token}"@);
    reveal_strlit("${user_type}");
    assert("${auth_access_token}"@.len() != "${user_type}"@.len());
    assert(p[14].0 != "${auth_access_token}"@);
    reveal_strlit("${version_type}");
    assert("${auth_access_token}"@.len() != "${version_type}"@.len());
    assert(p[15].0 != "${auth_access_token}"@);
    assert(p[11] == ("${auth_access_token}"@, "0"@));
    assert forall|i: int| 0 <= i < p.len() && (#[trigger] p[i]).0 == "${auth_access_token}"@ implies i == 11 by {
        assert(i == 0 || i == 1 || i == 2 || i == 3 || i == 4 || i == 5 || i == 6 || i == 7 || i == 8 || i == 9 || i == 10 || i == 11 || i == 12 || i == 13 || i == 14 || i == 15);
    }
}

proof fn lemma_placeholder_12(version: VersionJson, dirs: LaunchDirs, options: LaunchOptions)
    ensures
        maps_to(substitution_pairs(version, dirs, options), "${clientid}"@, Seq::<char>::empty()),
{
    let p = substitution_pairs(version, dirs, options);
    reveal_strlit("${clientid}");
    reveal_strlit("${natives_directory}");
    assert("${clientid}"@.len() != "${natives_directory}"@.len());
    assert(p[0].0 != "${clientid}"@);
    reveal_strlit("${launcher_name}");
    assert("${clientid}"@.len() != "${launcher_name}"@.len());
    assert(p[1].0 != "${clientid}"@);
    reveal_strlit("${launcher_version}");
    assert("${clientid}"@.len() != "${launcher_version}"@.len());
    assert(p[2].0 != "${clientid}"@);
    reveal_strlit("${classpath}");
    assert("${clientid}"@.len() != "${classpath}"@.len());
    assert(p[3].0 != "${clientid}"@);
    reveal_strlit("${library_directory}");
    assert("${clientid}"@.len() != "${library_directory}"@.len());
    assert(p[4].0 != "${clientid}"@);
    reveal_strlit("${version_name}");
    assert("${clientid}"@.len() != "${version_name}"@.len());
    assert(p[5].0 != "${clientid}"@);
    reveal_strlit("${game_directory}");
    assert("${clientid}"@.len() != "${game_directory}"@.len());
    assert(p[6].0 != "${clientid}"@);
    reveal_strlit("${assets_root}");
    assert("${clientid}"@.len() != "${assets_root}"@.len());
    assert(p[7].0 != "${clientid}"@);
    reveal_strlit("${assets_index_name}");
    assert("${clientid}"@.len() != "${assets_index_name}"@.len());
    assert(p[8].0 != "${clientid}"@);
    reveal_strlit("${auth_player_name}");
    assert("${clientid}"@.len() != "${auth_player_name}"@.len());
    assert(p[9].0 != "${clientid}"@);
    reveal_strlit("${auth_uuid}");
    assert("${clientid}"@.len() != "${auth_uuid}"@.len());
    assert(p[10].0 != "${clientid}"@);
    reveal_strlit("${auth_access_token}");
    assert("${clientid}"@.len() != "${auth_access_token}"@.len());
    assert(p[11].0 != "${clientid}"@);
    reveal_strlit("${auth_xuid}");
    assert("${clientid}"@.len() != "${auth_xuid}"@.len());
    assert(p[13].0 != "${clientid}"@);
    reveal_strlit("${user_type}");
    assert("${clientid}"@.len() != "${user_type}"@.len());
    assert(p[14].0 != "${clientid}"@);
    reveal_strlit("${version_type}");
    assert("${clientid}"@.len() != "${version_type}"@.len());
    assert(p[15].0 != "${clientid}"@);
    assert(p[12] == ("${clientid}"@, Seq::<char>::empty()));
    assert forall|i: int| 0 <= i < p.len() && (#[trigger] p[i]).0 == "${clientid}"@ implies i == 12 by {
        assert(i == 0 || i == 1 || i == 2 || i == 3 || i == 4 || i == 5 || i == 6 || i == 7 || i == 8 || i == 9 || i == 10 || i == 11 || i == 12 || i == 13 || i == 14 || i == 15);
    }
}

proof fn lemma_placeholder_13(version: VersionJson, dirs: LaunchDirs, options: LaunchOptions)
    ensures
        maps_to(substitution_pairs(version, dirs, options), "${auth_xuid}"@, Seq::<char>::empty()),
{
    let p = substitution_pairs(version, dirs, options);
    reveal_strlit("${auth_xuid}");
    reveal_strlit("${natives_directory}");
    assert("${auth_xuid}"@.len() != "${natives_directory}"@.len());
    assert(p[0].0 != "${auth_xuid}"@);
    reveal_strlit("${launcher_name}");
    assert("${auth_xuid}"@.len() != "${launcher_name}"@.len());
    assert(p[1].0 != "${auth_xuid}"@);
    reveal_strlit("${launcher_version}");
    assert("${auth_xuid}"@.len() != "${launcher_version}"@.len());
    assert(p[2].0 != "${auth_xuid}"@);
    reveal_strlit("${classpath}");
    assert("${auth_xuid}"@[2] != "${classpath}"@[2]);
    assert(p[3].0 != "${auth_xuid}"@);
    reveal_strlit("${library_directory}");
    assert("${auth_xuid}"@.len() != "${library_directory}"@.len());
    assert(p[4].0 != "${auth_xuid}"@);
    reveal_strlit("${version_name}");
    assert("${auth_xuid}"@.len() != "${version_name}"@.len());
    assert(p[5].0 != "${auth_xuid}"@);
    reveal_strlit("${game_directory}");
    assert("${auth_xuid}"@.len() != "${game_directory}"@.len());
    assert(p[6].0 != "${auth_xuid}"@);
    reveal_strlit("${assets_root}");
    assert("${auth_xuid}"@.len() != "${assets_root}"@.len());
    assert(p[7].0 != "${auth_xuid}"@);
    reveal_strlit("${assets_index_name}");
    assert("${auth_xuid}"@.len() != "${assets_index_name}"@.len());
    assert(p[8].0 != "${auth_xuid}"@);
    reveal_strlit("${auth_player_name}");
    assert("${auth_xuid}"@.len() != "${auth_player_name}"@.len());
    assert(p[9].0 != "${auth_xuid}"@);
    reveal_strlit("${auth_uuid}");
    assert("${auth_xuid}"@[7] != "${auth_uuid}"@[7]);
    assert(p[10].0 != "${auth_xuid}"@);
    reveal_strlit("${auth_access_token}");
    assert("${auth_xuid}"@.len() != "${auth_access_token}"@.len());
    assert(p[11].0 != "${auth_xuid}"@);
    reveal_strlit("${clientid}");
    assert("${auth_xuid}"@.len() != "${clientid}"@.len());
    assert(p[12].0 != "${auth_xuid}"@);
    reveal_strlit("${user_type}");
    assert("${auth_xuid}"@[2] != "${user_type}"@[2]);
    assert(p[14].0 != "${auth_xuid}"@);
    reveal_strlit("${version_type}");
    assert("${auth_xuid}"@.len() != "${version_type}"@.len());
    assert(p[15].0 != "${auth_xuid}"@);
    assert(p[13] == ("${auth_xuid}"@, Seq::<char>::empty()));
    assert forall|i: int| 0 <= i < p.len() && (#[trigger] p[i]).0 == "${auth_xuid}"@ implies i == 13 by {
        assert(i == 0 || i == 1 || i == 2 || i == 3 || i == 4 || i == 5 || i == 6 || i == 7 || i == 8 || i == 9 || i == 10 || i == 11 || i == 12 || i == 13 || i == 14 || i == 15);
    }
}

proof fn lemma_placeholder_14(version: VersionJson, dirs: LaunchDirs, options: LaunchOptions)
    ensures
        maps_to(substitution_pairs(version, dirs, options), "${user_type}"@, "msa"@),
{
    let p = substitution_pairs(version, dirs, options);
    reveal_strlit("${user_type}");
    reveal_strlit("${natives_directory}");
    assert("${user_type}"@.len() != "${natives_directory}"@.len());
    assert(p[0].0 != "${user_type}"@);
    reveal_strlit("${launcher_name}");
    assert("${user_type}"@.len() != "${launcher_name}"@.len());
    assert(p[1].0 != "${user_type}"@);
    reveal_strlit("${launcher_version}");
    assert("${user_type}"@.len() != "${launcher_version}"@.len());
    assert(p[2].0 != "${user_type}"@);
    reveal_strlit("${classpath}");
    assert("${user_type}"@[2] != "${classpath}"@[2]);
    assert(p[3].0 != "${user_type}"@);
    reveal_strlit("${library_directory}");
    assert("${user_type}"@.len() != "${library_directory}"@.len());
    assert(p[4].0 != "${user_type}"@);
    reveal_strlit("${version_name}");
    assert("${user_type}"@.len() != "${version_name}"@.len());
    assert(p[5].0 != "${user_type}"@);
    reveal_strlit("${game_directory}");
    assert("${user_type}"@.len() != "${game_directory}"@.len());
    assert(p[6].0 != "${user_type}"@);
    reveal_strlit("${assets_root}");
    assert("${user_type}"@.len() != "${assets_root}"@.len());
    assert(p[7].0 != "${user_type}"@);
    reveal_strlit("${assets_index_name}");
    assert("${user_type}"@.len() != "${assets_index_name}"@.len());
    assert(p[8].0 != "${user_type}"@);
    reveal_strlit("${auth_player_name}");
    assert("${user_type}"@.len() != "${auth_player_name}"@.len());
    assert(p[9].0 != "${user_type}"@);
    reveal_strlit("${auth_uuid}");
    assert("${user_type}"@[2] != "${auth_uuid}"@[2]);
    assert(p[10].0 != "${user_type}"@);
    reveal_strlit("${auth_access_token}");
    assert("${user_type}"@.len() != "${auth_access_token}"@.len());
    assert(p[11].0 != "${user_type}"@);
    reveal_strlit("${clientid}");
    assert("${user_type}"@.len() != "${clientid}"@.len());
    assert(p[12].0 != "${user_type}"@);
    reveal_strlit("${auth_xuid}");
    assert("${user_type}"@[2] != "${auth_xuid}"@[2]);
    assert(p[13].0 != "${user_type}"@);
    reveal_strlit("${version_type}");
    assert("${user_type}"@.len() != "${version_type}"@.len());
    assert(p[15].0 != "${user_type}"@);
    assert(p[14] == ("${user_type}"@, "msa"@));
    assert forall|i: int| 0 <= i < p.len() && (#[trigger] p[i]).0 == "${user_type}"@ implies i == 14 by {
        assert(i == 0 || i == 1 || i == 2 || i == 3 || i == 4 || i == 5 || i == 6 || i == 7 || i == 8 || i == 9 || i == 10 || i == 11 || i == 12 || i == 13 || i == 14 || i == 15);
    }
}

proof fn lemma_placeholder_15(version: VersionJson, dirs: LaunchDirs, options: LaunchOptions)
    ensures
        maps_to(substitution_pairs(version, dirs, options), "${version_type}"@, version.version_type@),
{
    let p = substitution_pairs(version, dirs, options);
    reveal_strlit("${version_type}");
    reveal_strlit("${natives_directory}");
    assert("${version_type}"@.len() != "${natives_directory}"@.len());
    assert(p[0].0 != "${version_type}"@);
    reveal_strlit("${launcher_name}");
    assert("${version_type}"@.len() != "${launcher_name}"@.len());
    assert(p[1].0 != "${version_type}"@);
    reveal_strlit("${launcher_version}");
    assert("${version_type}"@.len() != "${launcher_version}"@.len());
    assert(p[2].0 != "${version_type}"@);
    reveal_strlit("${classpath}");
    assert("${version_type}"@.len() != "${classpath}"@.len());
    assert(p[3].0 != "${version_type}"@);
    reveal_strlit("${library_directory}");
    assert("${version_type}"@.len() != "${library_directory}"@.len());
    assert(p[4].0 != "${version_type}"@);
    reveal_strlit("${version_name}");
    assert("${version_type}"@[10] != "${version_name}"@[10]);
    assert(p[5].0 != "${version_type}"@);
    reveal_strlit("${game_directory}");
    assert("${version_type}"@.len() != "${game_directory}"@.len());
    assert(p[6].0 != "${version_type}"@);
    reveal_strlit("${assets_root}");
    assert("${version_type}"@.len() != "${assets_root}"@.len());
    assert(p[7].0 != "${version_type}"@);
    reveal_strlit("${assets_index_name}");
    assert("${version_type}"@.len() != "${assets_index_name}"@.len());
    assert(p[8].0 != "${version_type}"@);
    reveal_strlit("${auth_player_name}");
    assert("${version_type}"@.len() != "${auth_player_name}"@.len());
    assert(p[9].0 != "${version_type}"@);
    reveal_strlit("${auth_uuid}");
    assert("${version_type}"@.len() != "${auth_uuid}"@.len());
    assert(p[10].0 != "${version_type}"@);
    reveal_strlit("${auth_access_token}");
    assert("${version_type}"@.len() != "${auth_access_token}"@.len());
    assert(p[11].0 != "${version_type}"@);
    reveal_strlit("${clientid}");
    assert("${version_type}"@.len() != "${clientid}"@.len());
    assert(p[12].0 != "${version_type}"@);
    reveal_strlit("${auth_xuid}");
    assert("${version_type}"@.len() != "${auth_xuid}"@.len());
    assert(p[13].0 != "${version_type}"@);
    reveal_strlit("${user_type}");
    assert("${version_type}"@.len() != "${user_type}"@.len());
    assert(p[14].0 != "${version_type}"@);
    assert(p[15] == ("${version_type}"@, version.version_type@));
    assert forall|i: int| 0 <= i < p.len() && (#[trigger] p[i]).0 == "${version_type}"@ implies i == 15 by {
        assert(i == 0 || i == 1 || i == 2 || i == 3 || i == 4 || i == 5 || i == 6 || i == 7 || i == 8 || i == 9 || i == 10 || i == 11 || i == 12 || i == 13 || i == 14 || i == 15);
    }
}

/// Each placeholder of a launch stands for the value it names: the natives,
/// library, game and assets folders and the class path as rendered for this
/// launch, the version id, the version's asset index id, the version type,
/// the player's name, offline UUID and token, and the launcher's fixed
/// name, version and user type; no placeholder is paired with another value.
pub proof fn lemma_placeholder_values(version: VersionJson, dirs: LaunchDirs, options: LaunchOptions)
    ensures
        ({
            let p = substitution_pairs(version, dirs, options);
            &&& p.len() == 16
            &&& maps_to(p, "${natives_directory}"@, dirs.natives_dir@)
            &&& maps_to(p, "${launcher_name}"@, "minelts"@)
            &&& maps_to(p, "${launcher_version}"@, "0.1.0"@)
            &&& maps_to(p, "${classpath}"@, dirs.classpath@)
            &&& maps_to(p, "${library_directory}"@, dirs.library_dir@)
            &&& maps_to(p, "${version_name}"@, version.id@)
            &&& maps_to(p, "${game_directory}"@, dirs.game_dir@)
            &&& maps_to(p, "${assets_root}"@, dirs.assets_root@)
            &&& maps_to(p, "${assets_index_name}"@, version.asset_index.id@)
            &&& maps_to(p, "${auth_player_name}"@, options.username@)
            &&& maps_to(p, "${auth_uuid}"@, player_uuid_text(options.username@))
            &&& maps_to(p, "${auth_access_token}"@, "0"@)
            &&& maps_to(p, "${clientid}"@, Seq::<char>::empty())
            &&& maps_to(p, "${auth_xuid}"@, Seq::<char>::empty())
            &&& maps_to(p, "${user_type}"@, "msa"@)
            &&& maps_to(p, "${version_type}"@, version.version_type@)
        }),
{
    lemma_placeholder_0(version, dirs, options);
    lemma_placeholder_1(version, dirs, options);
    lemma_placeholder_2(version, dirs, options);
    lemma_placeholder_3(version, dirs, options);
    lemma_placeholder_4(version, dirs, options);
    lemma_placeholder_5(version, dirs, options);
    lemma_placeholder_6(version, dirs, options);
    lemma_placeholder_7(version, dirs, options);
    lemma_placeholder_8(version, dirs, options);
    lemma_placeholder_9(version, dirs, options);
    lemma_placeholder_10(version, dirs, options);
    lemma_placeholder_11(version, dirs, options);
    lemma_placeholder_12(version, dirs, options);
    lemma_placeholder_13(version, dirs, options);
    lemma_placeholder_14(version, dirs, options);
    lemma_placeholder_15(version, dirs, options);
}

} // verus!
