//! What the user interface asks of the launcher, minus the window: the
//! checks on a launch request, the folders it may open, and the events it
//! is sent.
use vstd::prelude::*;
use crate::config::{minecraft_dir, path_join};
use crate::download::DownloadProgress;
use crate::installed::InstalledVersion;
use crate::text::{chars_of, concat2, is_whitespace, lemma_trim_idempotent, string_from_chars, trim, trim_chars};

verus! {

/// Download progress as the interface shows it.
#[derive(Debug, Clone)]
pub struct ProgressEvent {
    pub completed: usize,
    pub total: usize,
    pub current: String,
}

/// How a launch ended.
#[derive(Debug, Clone)]
pub struct LaunchDoneEvent {
    pub ok: bool,
    pub error: Option<String>,
}

/// An installed version as the interface lists it.
#[derive(Debug, Clone)]
pub struct InstalledVersionDto {
    pub id: String,
    pub jar_path: String,
}

/// The event shown for a progress report: a start names the task, a
/// failure reads `<label>: <error>`, a count carries completed and total;
/// other fields are zero or empty.
pub open spec fn progress_event(p: DownloadProgress) -> (usize, usize, Seq<char>) {
    match p {
        DownloadProgress::Started { label } => (0, 0, label@),
        DownloadProgress::Progress { completed, total } => (completed, total, Seq::empty()),
        DownloadProgress::Failed { label, error } => (0, 0, label@ + ": "@ + error@),
        DownloadProgress::Completed => (0, 0, Seq::empty()),
    }
}

/// Turns a progress report into the event the interface shows.
pub fn progress_to_event(progress: DownloadProgress) -> (r: ProgressEvent)
    ensures
        (r.completed, r.total, r.current@) == progress_event(progress),
{
    match progress {
        DownloadProgress::Started { label } => ProgressEvent { completed: 0, total: 0, current: label },
        DownloadProgress::Progress { completed, total } => ProgressEvent {
            completed,
            total,
            current: String::new(),
        },
        DownloadProgress::Failed { label, error } => {
            let mut current = concat2(label.as_str(), ": ");
            current.append(error.as_str());
            ProgressEvent { completed: 0, total: 0, current }
        },
        DownloadProgress::Completed => ProgressEvent { completed: 0, total: 0, current: String::new() },
    }
}

/// The event that reports how a launch ended.
pub fn launch_done(result: Result<(), String>) -> (r: LaunchDoneEvent)
    ensures
        r.ok == (result is Ok),
        match result {
            Ok(()) => r.error is None,
            Err(e) => r.error matches Some(m) && m@ == e@,
        },
{
    match result {
        Ok(()) => LaunchDoneEvent { ok: true, error: None },
        Err(e) => LaunchDoneEvent { ok: false, error: Some(e) },
    }
}

/// The longest accepted user name, in characters.
pub const MAX_USERNAME_CHARS: usize = 16;

/// The answer to a launch request: the user name without surrounding
/// whitespace, refused when it is empty or longer than 16 characters,
/// or when no version is chosen.
pub open spec fn launch_request(username: Seq<char>, version_id: Seq<char>) -> Result<
    Seq<char>,
    Seq<char>,
> {
    let name = trim(username);
    if name.len() == 0 {
        Err("Introduce un nombre de usuario"@)
    } else if name.len() > MAX_USERNAME_CHARS {
        Err("El nombre no puede superar 16 caracteres"@)
    } else if version_id.len() == 0 {
        Err("Selecciona una versión"@)
    } else {
        Ok(name)
    }
}

/// Checks a launch request and gives the user name to play with.
pub fn validate_launch_request(username: &str, version_id: &str) -> (r: Result<String, String>)
    ensures
        match r {
            Ok(name) => launch_request(username@, version_id@) == Ok::<Seq<char>, Seq<char>>(name@),
            Err(m) => launch_request(username@, version_id@) == Err::<Seq<char>, Seq<char>>(m@),
        },
{
    let chars = chars_of(username);
    let trimmed = trim_chars(&chars);
    let name = string_from_chars(&trimmed);
    if trimmed.len() == 0 {
        return Err("Introduce un nombre de usuario".to_owned());
    }
    if trimmed.len() > MAX_USERNAME_CHARS {
        return Err("El nombre no puede superar 16 caracteres".to_owned());
    }
    if version_id.is_empty() {
        return Err("Selecciona una versión".to_owned());
    }
    Ok(name)
}

/// The folder the interface may open: `root` is the game folder,
/// `versions` its versions folder; anything else is refused.
pub open spec fn folder_choice(which: Seq<char>) -> Result<Seq<Seq<char>>, Seq<char>> {
    if which == "root"@ {
        Ok(seq![".minecraft"@])
    } else if which == "versions"@ {
        Ok(seq![".minecraft"@, "versions"@])
    } else {
        Err("Carpeta desconocida: "@ + which)
    }
}

/// Resolves the folder the interface asks to open.
pub fn folder_for(which: &str) -> (r: Result<Vec<String>, String>)
    ensures
        match r {
            Ok(p) => folder_choice(which@) == Ok::<Seq<Seq<char>>, Seq<char>>(p.deep_view()),
            Err(m) => folder_choice(which@) == Err::<Seq<Seq<char>>, Seq<char>>(m@),
        },
{
    if crate::text::str_eq(which, "root") {
        Ok(minecraft_dir())
    } else if crate::text::str_eq(which, "versions") {
        let r = path_join(&minecraft_dir(), "versions");
        assert(r.deep_view() =~= seq![".minecraft"@, "versions"@]);
        Ok(r)
    } else {
        Err(concat2("Carpeta desconocida: ", which))
    }
}

/// An installed version as the interface lists it, its jar path rendered
/// by the caller.
pub fn installed_dto(v: InstalledVersion, jar_path: String) -> (r: InstalledVersionDto)
    ensures
        r.id@ == v.id@,
        r.jar_path@ == jar_path@,
{
    InstalledVersionDto { id: v.id, jar_path }
}


/// A launch goes ahead only with a user name of 1 to 16 characters that
/// neither starts nor ends with whitespace, and a chosen version.
pub proof fn lemma_accepted_request(username: Seq<char>, version_id: Seq<char>)
    ensures
        launch_request(username, version_id) matches Ok(name) ==> {
            &&& name.len() > 0
            &&& name.len() <= MAX_USERNAME_CHARS
            &&& trim(name) == name
            &&& !is_whitespace(name[0])
            &&& !is_whitespace(name.last())
            &&& version_id.len() > 0
        },
{
    lemma_trim_idempotent(username);
}

} // verus!
