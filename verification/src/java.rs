//! Which Java runtime a version needs, where it lives below the game folder,
//! and what must be fetched or created to install it.
use vstd::prelude::*;
use crate::config::{path_join, minecraft_dir};
use crate::download::{DownloadTask, TaskView};
use crate::manifest::{
    fallback_java, fallback_java_component, DownloadEntry, JavaRuntimeDetail, JavaRuntimeFile,
    VersionJson,
};
use crate::text::{concat2, str_eq};

verus! {

/// The platform key of Mojang's runtime manifest for this launcher.
pub const PLATFORM_KEY: &'static str = "windows-x64";

/// The runtime (component, major version) of a version: the one its file
/// names, or else the fallback for its id.
pub open spec fn java_spec(version: VersionJson) -> (Seq<char>, u32) {
    match version.java_version {
        Some(j) => (j.component@, j.major_version),
        None => fallback_java(version.id@),
    }
}

/// The Java runtime component and major version a version needs.
pub fn resolve_java_spec(version: &VersionJson) -> (r: (String, u32))
    ensures
        (r.0@, r.1) == java_spec(*version),
{
    if let Some(j) = &version.java_version {
        return (j.component.clone(), j.major_version);
    }
    let (component, major) = fallback_java_component(version.id.as_str());
    (component.to_owned(), major)
}

/// The folder of a runtime component: `.minecraft/runtime/<component>/windows-x64`.
pub open spec fn runtime_root_spec(component: Seq<char>) -> Seq<Seq<char>> {
    seq![".minecraft"@, "runtime"@, component, PLATFORM_KEY@]
}

/// The folder a runtime component is installed in.
pub fn runtime_root(component: &str) -> (r: Vec<String>)
    ensures
        r.deep_view() == runtime_root_spec(component@),
{
    let a = path_join(&minecraft_dir(), "runtime");
    let b = path_join(&a, component);
    let r = path_join(&b, PLATFORM_KEY);
    assert(r.deep_view() =~= runtime_root_spec(component@));
    r
}

/// Where the Java executable of a component is expected: `bin/java.exe` in its folder.
pub fn java_executable_path(component: &str) -> (r: Vec<String>)
    ensures
        r.deep_view() == runtime_root_spec(component@) + seq!["bin"@, "java.exe"@],
{
    let root = runtime_root(component);
    let a = path_join(&root, "bin");
    let r = path_join(&a, "java.exe");
    assert(r.deep_view() =~= runtime_root_spec(component@) + seq!["bin"@, "java.exe"@]);
    r
}

/// The places a Java executable is looked for in a runtime folder, in order:
/// `bin/java.exe`, `jre/bin/java.exe`, `bin/javaw.exe`.
pub open spec fn java_candidates_spec(component: Seq<char>) -> Seq<Seq<Seq<char>>> {
    let root = runtime_root_spec(component);
    seq![
        root + seq!["bin"@, "java.exe"@],
        root + seq!["jre"@, "bin"@, "java.exe"@],
        root + seq!["bin"@, "javaw.exe"@],
    ]
}

/// The candidate locations of the Java executable of a component.
pub fn java_candidates(component: &str) -> (r: Vec<Vec<String>>)
    ensures
        r.deep_view() == java_candidates_spec(component@),
{
    let root = runtime_root(component);
    let c1 = java_executable_path(component);
    let j = path_join(&root, "jre");
    let jb = path_join(&j, "bin");
    let c2 = path_join(&jb, "java.exe");
    let b = path_join(&root, "bin");
    let c3 = path_join(&b, "javaw.exe");
    let mut r: Vec<Vec<String>> = Vec::new();
    r.push(c1);
    r.push(c2);
    r.push(c3);
    assert(c2.deep_view() =~= runtime_root_spec(component@) + seq!["jre"@, "bin"@, "java.exe"@]);
    assert(c3.deep_view() =~= runtime_root_spec(component@) + seq!["bin"@, "javaw.exe"@]);
    assert(r.deep_view() =~= java_candidates_spec(component@));
    r
}

/// The first candidate that exists, given which of the candidates exist.
pub open spec fn first_present(
    candidates: Seq<Seq<Seq<char>>>,
    present: Seq<bool>,
) -> Option<Seq<Seq<char>>>
    decreases candidates.len(),
{
    if candidates.len() == 0 || present.len() == 0 {
        None
    } else if present[0] {
        Some(candidates[0])
    } else {
        first_present(candidates.drop_first(), present.drop_first())
    }
}

/// The Java executable found in a runtime folder: the first of
/// [`java_candidates`] that exists, `present[i]` telling whether candidate `i` does.
pub fn find_java_in_runtime(component: &str, present: &[bool]) -> (r: Option<Vec<String>>)
    ensures
        match r {
            Some(p) => first_present(java_candidates_spec(component@), present@) == Some(
                p.deep_view(),
            ),
            None => first_present(java_candidates_spec(component@), present@) is None,
        },
{
    let candidates = java_candidates(component);
    let ghost cv = candidates.deep_view();
    let n = candidates.len();
    let mut i: usize = 0;
    assert(cv.skip(0) =~= cv);
    assert(present@.skip(0) =~= present@);
    while i < n && i < present.len()
        invariant
            i <= n,
            i <= present@.len(),
            n == candidates@.len(),
            cv == candidates.deep_view(),
            cv == java_candidates_spec(component@),
            first_present(cv, present@) == first_present(cv.skip(i as int), present@.skip(i as int)),
        decreases n - i,
    {
        assert(cv.skip(i as int)[0] == cv[i as int]);
        assert(present@.skip(i as int)[0] == present@[i as int]);
        if present[i] {
            let mut out = candidates;
            let found = out.swap_remove(i);
            assert(found.deep_view() == cv[i as int]);
            return Some(found);
        }
        assert(cv.skip(i as int).drop_first() =~= cv.skip(i + 1));
        assert(present@.skip(i as int).drop_first() =~= present@.skip(i + 1));
        i = i + 1;
    }
    assert(cv.skip(i as int).len() == 0 || present@.skip(i as int).len() == 0);
    None
}

/// One thing to do when installing a runtime.
#[derive(Debug, Clone)]
pub enum RuntimeStep {
    /// Create this folder.
    CreateDir(Vec<String>),
    /// Fetch this file.
    Fetch(DownloadTask),
}

/// The content of a [`RuntimeStep`].
pub enum RuntimeStepView {
    CreateDir(Seq<Seq<char>>),
    Fetch(TaskView),
}

impl View for RuntimeStep {
    type V = RuntimeStepView;

    open spec fn view(&self) -> RuntimeStepView {
        match self {
            RuntimeStep::CreateDir(p) => RuntimeStepView::CreateDir(p.deep_view()),
            RuntimeStep::Fetch(t) => RuntimeStepView::Fetch(t@),
        }
    }
}

impl DeepView for RuntimeStep {
    type V = RuntimeStepView;

    open spec fn deep_view(&self) -> RuntimeStepView {
        self@
    }
}

/// The download of a runtime file: the raw file, else the compressed one.
pub open spec fn runtime_file_entry(file: JavaRuntimeFile) -> Option<DownloadEntry> {
    match file.downloads {
        None => None,
        Some(d) => match d.raw {
            Some(e) => Some(e),
            None => d.lzma,
        },
    }
}

/// The task that fetches a runtime file to `<root>/<rel>`.
pub open spec fn runtime_fetch(root: Seq<Seq<char>>, rel: Seq<char>, e: DownloadEntry) -> TaskView {
    TaskView {
        url: e.url@,
        dest: root.push(rel),
        expected_sha1: Some(e.sha1@),
        expected_size: Some(e.size),
        label: "Java: "@ + rel,
    }
}

/// The steps that install a runtime's files below `root`, in file order:
/// a folder entry is created, a file entry with a download is fetched (the
/// raw file preferred), other entries are skipped. A file entry with
/// downloads but no URL ends the plan with an error naming it.
pub open spec fn runtime_steps(files: Seq<(String, JavaRuntimeFile)>, root: Seq<Seq<char>>) -> (
    Seq<RuntimeStepView>,
    Option<Seq<char>>,
)
    decreases files.len(),
{
    if files.len() == 0 {
        (Seq::<RuntimeStepView>::empty(), None)
    } else {
        let rel = files[0].0@;
        let file = files[0].1;
        let rest = runtime_steps(files.drop_first(), root);
        if file.file_type@ != "file"@ && file.file_type@ != "directory"@ {
            rest
        } else if file.file_type@ == "directory"@ {
            (seq![RuntimeStepView::CreateDir(root.push(rel))] + rest.0, rest.1)
        } else if file.downloads is None {
            rest
        } else {
            match runtime_file_entry(file) {
                None => (Seq::<RuntimeStepView>::empty(), Some("Sin URL de descarga para "@ + rel)),
                Some(e) => (seq![RuntimeStepView::Fetch(runtime_fetch(root, rel, e))] + rest.0, rest.1),
            }
        }
    }
}

/// A step installs one entry of a runtime's file list below `root`: a
/// folder entry is created at `root/<rel>`; a file entry is fetched from its
/// download (the raw file when there is one) to `root/<rel>`, labelled
/// `Java: <rel>`, checked against the entry's digest and size.
pub open spec fn installs_entry(step: RuntimeStepView, root: Seq<Seq<char>>, entry: (String, JavaRuntimeFile)) -> bool {
    let rel = entry.0@;
    match step {
        RuntimeStepView::CreateDir(d) => entry.1.file_type@ == "directory"@ && d == root.push(rel),
        RuntimeStepView::Fetch(t) => {
            &&& entry.1.file_type@ == "file"@
            &&& runtime_file_entry(entry.1) matches Some(e)
            &&& t.url == e.url@
            &&& t.expected_sha1 == Some(e.sha1@)
            &&& t.expected_size == Some(e.size)
            &&& t.dest == root.push(rel)
            &&& t.label == "Java: "@ + rel
        },
    }
}

/// Every step of a runtime plan below `root` installs one of the listed
/// entries at `root` followed by that entry's relative path.
pub proof fn lemma_runtime_steps_below_root(files: Seq<(String, JavaRuntimeFile)>, root: Seq<Seq<char>>)
    ensures
        forall|k: int|
            0 <= k < runtime_steps(files, root).0.len() ==> exists|j: int|
                0 <= j < files.len() && installs_entry(
                    #[trigger] runtime_steps(files, root).0[k],
                    root,
                    #[trigger] files[j],
                ),
    decreases files.len(),
{
    if files.len() > 0 {
        let rest = files.drop_first();
        lemma_runtime_steps_below_root(rest, root);
        let r = runtime_steps(files, root).0;
        let rr = runtime_steps(rest, root).0;
        assert forall|k: int| 0 <= k < r.len() implies exists|j: int|
            0 <= j < files.len() && installs_entry(#[trigger] r[k], root, #[trigger] files[j]) by {
            if r.len() == rr.len() + 1 {
                if k == 0 {
                    assert(installs_entry(r[0], root, files[0]));
                } else {
                    assert(r[k] == rr[k - 1]);
                    let j = choose|j: int| 0 <= j < rest.len() && installs_entry(rr[k - 1], root, #[trigger] rest[j]);
                    assert(files[j + 1] == rest[j]);
                }
            } else {
                assert(r =~= rr);
                assert(r[k] == rr[k]);
                let j = choose|j: int| 0 <= j < rest.len() && installs_entry(rr[k], root, #[trigger] rest[j]);
                assert(files[j + 1] == rest[j]);
            }
        }
    }
}

/// When a plan has no error, every folder entry is created and every file
/// entry with a download is fetched by one of its steps.
pub proof fn lemma_runtime_steps_cover_entries(files: Seq<(String, JavaRuntimeFile)>, root: Seq<Seq<char>>)
    ensures
        runtime_steps(files, root).1 is None ==> forall|j: int|
            0 <= j < files.len() && ((#[trigger] files[j]).1.file_type@ == "directory"@ || (
            files[j].1.file_type@ == "file"@ && files[j].1.downloads is Some)) ==> exists|k: int|
                0 <= k < runtime_steps(files, root).0.len() && installs_entry(
                    #[trigger] runtime_steps(files, root).0[k],
                    root,
                    files[j],
                ),
    decreases files.len(),
{
    if files.len() > 0 {
        let rest = files.drop_first();
        lemma_runtime_steps_cover_entries(rest, root);
        let r = runtime_steps(files, root);
        let rr = runtime_steps(rest, root);
        if r.1 is None {
            assert(rr.1 is None);
            assert forall|j: int|
                0 <= j < files.len() && ((#[trigger] files[j]).1.file_type@ == "directory"@ || (
                files[j].1.file_type@ == "file"@ && files[j].1.downloads is Some)) implies exists|k: int|
                    0 <= k < r.0.len() && installs_entry(#[trigger] r.0[k], root, files[j]) by {
                if j == 0 {
                    assert(installs_entry(r.0[0], root, files[0]));
                } else {
                    assert(files[j] == rest[j - 1]);
                    let k = choose|k: int| 0 <= k < rr.0.len() && installs_entry(#[trigger] rr.0[k], root, rest[j - 1]);
                    if r.0.len() == rr.0.len() + 1 {
                        assert(r.0[k + 1] == rr.0[k]);
                    } else {
                        assert(r.0 =~= rr.0);
                        assert(r.0[k] == rr.0[k]);
                    }
                }
            }
        }
    }
}

/// Installing a runtime component writes only below its folder
/// `.minecraft/runtime/<component>/windows-x64`: every folder created and
/// every file fetched is that folder followed by an entry's relative path.
pub proof fn lemma_runtime_plan_in_component_folder(files: Seq<(String, JavaRuntimeFile)>, component: Seq<char>)
    ensures
        forall|k: int|
            0 <= k < runtime_steps(files, runtime_root_spec(component)).0.len() ==> exists|j: int|
                0 <= j < files.len() && installs_entry(
                    #[trigger] runtime_steps(files, runtime_root_spec(component)).0[k],
                    seq![".minecraft"@, "runtime"@, component, "windows-x64"@],
                    #[trigger] files[j],
                ),
{
    lemma_runtime_steps_below_root(files, runtime_root_spec(component));
    assert(runtime_root_spec(component) =~= seq![".minecraft"@, "runtime"@, component, "windows-x64"@]);
}

/// A copy of a download entry.
pub fn clone_entry(e: &DownloadEntry) -> (r: DownloadEntry)
    ensures
        r.url@ == e.url@,
        r.sha1@ == e.sha1@,
        r.size == e.size,
{
    DownloadEntry { sha1: e.sha1.clone(), size: e.size, url: e.url.clone() }
}

/// What installing a runtime involves: the steps in order and, when a file
/// has no URL, the error that stops the installation after them.
pub fn plan_runtime(detail: &JavaRuntimeDetail, component: &str) -> (r: (Vec<RuntimeStep>, Option<String>))
    ensures
        (r.0.deep_view(), match r.1 {
            Some(m) => Some(m@),
            None => None::<Seq<char>>,
        }) == runtime_steps(detail.files@, runtime_root_spec(component@)),
{
    let root = runtime_root(component);
    let ghost rv = root.deep_view();
    let files = &detail.files;
    let n = files.len();
    let mut steps: Vec<RuntimeStep> = Vec::new();
    let mut i: usize = 0;
    assert(files@.skip(0) =~= files@);
    while i < n
        invariant
            i <= n,
            n == files@.len(),
            rv == root.deep_view(),
            rv == runtime_root_spec(component@),
            files == &detail.files,
            runtime_steps(files@, rv) == (steps.deep_view() + runtime_steps(files@.skip(i as int), rv).0,
                runtime_steps(files@.skip(i as int), rv).1),
        decreases n - i,
    {
        let ghost rest_files = files@.skip(i as int);
        assert(rest_files[0] == files@[i as int]);
        assert(rest_files.drop_first() =~= files@.skip(i + 1));
        let ghost before = steps.deep_view();
        let rel = &files[i].0;
        let file = &files[i].1;
        let is_file = str_eq(file.file_type.as_str(), "file");
        let is_dir = str_eq(file.file_type.as_str(), "directory");
        if !is_file && !is_dir {
        } else if is_dir {
            let p = path_join(&root, rel.as_str());
            steps.push(RuntimeStep::CreateDir(p));
            assert(steps.deep_view() =~= before + seq![RuntimeStepView::CreateDir(rv.push(rel@))]);
        } else {
            match &file.downloads {
                None => {},
                Some(d) => {
                    let entry = match &d.raw {
                        Some(e) => e,
                        None => match &d.lzma {
                            Some(e) => e,
                            None => {
                                let m = concat2("Sin URL de descarga para ", rel.as_str());
                                assert(runtime_steps(rest_files, rv) == (Seq::<RuntimeStepView>::empty(), Some(m@)));
                                assert(steps.deep_view() + Seq::<RuntimeStepView>::empty() =~= steps.deep_view());
                                return (steps, Some(m));
                            },
                        },
                    };
                    let e = clone_entry(entry);
                    let dest = path_join(&root, rel.as_str());
                    let task = DownloadTask {
                        url: e.url,
                        dest,
                        expected_sha1: Some(e.sha1),
                        expected_size: Some(e.size),
                        label: concat2("Java: ", rel.as_str()),
                    };
                    assert(task@ == runtime_fetch(rv, rel@, *entry));
                    steps.push(RuntimeStep::Fetch(task));
                    assert(steps.deep_view() =~= before + seq![RuntimeStepView::Fetch(runtime_fetch(rv, rel@, *entry))]);
                },
            }
        }
        i = i + 1;
    }
    assert(files@.skip(n as int) =~= Seq::<(String, JavaRuntimeFile)>::empty());
    assert(steps.deep_view() + Seq::<RuntimeStepView>::empty() =~= steps.deep_view());
    (steps, None)
}


/// The Java executable to use after installing a runtime: the first
/// candidate found, else the usual `bin/java.exe`.
pub fn installed_java(component: &str, present: &[bool]) -> (r: Vec<String>)
    ensures
        r.deep_view() == match first_present(java_candidates_spec(component@), present@) {
            Some(p) => p,
            None => runtime_root_spec(component@) + seq!["bin"@, "java.exe"@],
        },
{
    match find_java_in_runtime(component, present) {
        Some(p) => p,
        None => java_executable_path(component),
    }
}

/// The error given when no Java executable is found after installing.
pub fn java_missing_error(path_display: &str) -> (r: String)
    ensures
        r@ == "Java no encontrado tras la descarga: "@ + path_display@,
{
    concat2("Java no encontrado tras la descarga: ", path_display)
}

} // verus!
