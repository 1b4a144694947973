use minelts::commands::{folder_for, launch_done, progress_to_event, validate_launch_request};
use minelts::config::{config_dir, config_path, minecraft_dir, Config};
use minelts::download::{
    batch_result, check_download, failure_line, file_matches, retry_outcome, DownloadProgress,
    DownloadTask, ParallelDownloader, MAX_RETRIES,
};
use minelts::launch::{
    asset_object_path, base_dirs, build_classpath, build_launch_command, client_jar_path,
    collect_asset_tasks, collect_library_tasks, native_extractions, plan_version_downloads,
    should_extract, substitute, substitution_map, version_json_path, LaunchDirs, LaunchOptions,
};
use minelts::manifest::{
    ArgumentList, ArgumentValue, ArgumentsBlock, AssetIndex, AssetIndexJson, AssetObject,
    DownloadEntry, ExtractRules, Library, LibraryDownloads, OsRule, Rule, VersionDownloads,
    VersionJson,
};

fn entry(url: &str, sha1: &str, size: u64) -> DownloadEntry {
    DownloadEntry { sha1: sha1.to_string(), size, url: url.to_string() }
}

fn base_version() -> VersionJson {
    VersionJson {
        id: "1.20.1".to_string(),
        version_type: "release".to_string(),
        main_class: "net.minecraft.client.main.Main".to_string(),
        minecraft_arguments: None,
        arguments: None,
        asset_index: AssetIndex {
            id: "5".to_string(),
            sha1: "idx".to_string(),
            size: 10,
            url: "https://x/5.json".to_string(),
            total_size: 100,
        },
        downloads: VersionDownloads { client: entry("https://x/client.jar", "cli", 7) },
        libraries: Vec::new(),
        java_version: None,
        minimum_launcher_version: None,
    }
}

fn osx_only() -> Vec<Rule> {
    vec![Rule {
        action: "allow".to_string(),
        os: Some(OsRule { name: Some("osx".to_string()), arch: None, version: None }),
        features: None,
    }]
}

fn libraries() -> Vec<Library> {
    vec![
        Library {
            name: "org.lwjgl:lwjgl:3.3.1".to_string(),
            downloads: Some(LibraryDownloads {
                artifact: Some(entry("https://l/lwjgl.jar", "l1", 1)),
                classifiers: Some(vec![
                    ("natives-linux".to_string(), entry("https://l/lin.jar", "n0", 2)),
                    ("natives-windows".to_string(), entry("https://l/win.jar", "n1", 3)),
                ]),
            }),
            rules: None,
            natives: None,
            extract: Some(ExtractRules { exclude: vec!["META-INF/".to_string()] }),
        },
        Library {
            name: "com.mac:only:1".to_string(),
            downloads: Some(LibraryDownloads { artifact: Some(entry("https://l/mac.jar", "m", 4)), classifiers: None }),
            rules: Some(osx_only()),
            natives: None,
            extract: None,
        },
        Library { name: "no:downloads:1".to_string(), downloads: None, rules: None, natives: None, extract: None },
        Library {
            name: "x:native:2".to_string(),
            downloads: Some(LibraryDownloads {
                artifact: None,
                classifiers: Some(vec![("natives-windows-x86_64".to_string(), entry("https://l/x64.jar", "n2", 5))]),
            }),
            rules: None,
            natives: None,
            extract: None,
        },
    ]
}

#[test]
fn library_downloads_planned() {
    let mut v = base_version();
    v.libraries = libraries();
    let mut tasks = Vec::new();
    collect_library_tasks(&v, &mut tasks);
    let urls: Vec<&str> = tasks.iter().map(|t| t.url.as_str()).collect();
    assert_eq!(urls, vec!["https://l/lwjgl.jar", "https://l/win.jar", "https://l/x64.jar"]);
    assert_eq!(tasks[0].dest, vec![".minecraft", "libraries", "org/lwjgl/lwjgl/3.3.1/lwjgl-3.3.1.jar"]);
    assert_eq!(tasks[1].dest, vec![".minecraft", "libraries", "org/lwjgl/lwjgl/3.3.1/lwjgl-3.3.1-natives-windows.jar"]);
    assert_eq!(tasks[1].label, "Native org.lwjgl:lwjgl:3.3.1");
    assert_eq!(tasks[2].dest, vec![".minecraft", "libraries", "x/native/2/native-2-natives-windows-x86_64.jar"]);
    assert_eq!(tasks[0].expected_sha1.as_deref(), Some("l1"));
    assert_eq!(tasks[0].expected_size, Some(1));

    let all = plan_version_downloads(&v);
    assert_eq!(all.len(), 5);
    assert_eq!(all[0].label, "Cliente 1.20.1");
    assert_eq!(all[0].dest, vec![".minecraft", "versions", "1.20.1", "1.20.1.jar"]);
    assert_eq!(all[4].label, "Assets index 5");
    assert_eq!(all[4].dest, vec![".minecraft", "assets", "indexes", "5.json"]);
    assert_eq!(client_jar_path(&v), all[0].dest);
    assert_eq!(version_json_path(&v), vec![".minecraft", "versions", "1.20.1", "1.20.1.json"]);
    assert_eq!(base_dirs().len(), 5);
}

#[test]
fn natives_and_extraction() {
    let mut v = base_version();
    v.libraries = libraries();
    let jars = native_extractions(&v);
    assert_eq!(jars.len(), 2);
    assert_eq!(jars[0].jar, vec![".minecraft", "libraries", "org/lwjgl/lwjgl/3.3.1/lwjgl-3.3.1-natives-windows.jar"]);
    assert_eq!(jars[0].exclude, vec!["META-INF/"]);
    assert!(jars[1].exclude.is_empty());
    let ex = vec!["META-INF/".to_string()];
    assert!(should_extract("lwjgl.dll", false, &ex));
    assert!(!should_extract("META-INF/MANIFEST.MF", false, &ex));
    assert!(!should_extract("dir/", true, &ex));
}

#[test]
fn asset_objects_planned() {
    let h1 = "a9993e364706816aba3e25717850c26c9cd0d89d";
    let h2 = "da39a3ee5e6b4b0d3255bfef95601890afd80709";
    let index = AssetIndexJson {
        objects: vec![
            ("sounds/a.ogg".to_string(), AssetObject { hash: h1.to_string(), size: 3 }),
            ("lang/b.json".to_string(), AssetObject { hash: h2.to_string(), size: 0 }),
        ],
    };
    let tasks = collect_asset_tasks(&index, &[Some(3), Some(9)]);
    assert_eq!(tasks.len(), 1);
    assert_eq!(tasks[0].url, format!("https://resources.download.minecraft.net/da/{h2}"));
    assert_eq!(tasks[0].label, "Asset da39a3ee");
    assert_eq!(tasks[0].dest, vec![".minecraft", "assets", "objects", "da", h2]);
    assert_eq!(tasks[0].expected_sha1.as_deref(), Some(h2));
    let all = collect_asset_tasks(&index, &[None, None]);
    assert_eq!(all.len(), 2);
    assert_eq!(asset_object_path(h1), vec![".minecraft", "assets", "objects", "a9", h1]);
}

fn dirs() -> LaunchDirs {
    LaunchDirs {
        natives_dir: "C:\\mc\\natives\\1.20.1".to_string(),
        classpath: "a.jar;b.jar".to_string(),
        library_dir: "C:\\mc\\libraries".to_string(),
        game_dir: "C:\\mc".to_string(),
        assets_root: "C:\\mc\\assets".to_string(),
    }
}

#[test]
fn placeholders_substituted() {
    let v = base_version();
    let opts = LaunchOptions { username: "Notch".to_string(), ram_mb: 2048 };
    let map = substitution_map(&v, &dirs(), &opts);
    assert_eq!(map.len(), 16);
    let get = |k: &str| map.iter().find(|(a, _)| a == k).map(|(_, b)| b.clone()).unwrap();
    assert_eq!(get("${auth_uuid}"), "b50ad385-829d-3141-a216-7e7d7539ba7f");
    assert_eq!(get("${auth_access_token}"), "0");
    assert_eq!(get("${user_type}"), "msa");
    assert_eq!(get("${launcher_name}"), "minelts");
    assert_eq!(substitute("--username ${auth_player_name}", &map), "--username Notch");
    assert_eq!(substitute("${clientid}x${auth_xuid}", &map), "x");
    assert_eq!(substitute("no placeholders", &map), "no placeholders");
}

#[test]
fn launch_command_new_style() {
    let mut v = base_version();
    v.arguments = Some(ArgumentsBlock {
        game: vec![
            ArgumentValue::Plain("--username".to_string()),
            ArgumentValue::Plain("${auth_player_name}".to_string()),
            ArgumentValue::Conditional {
                rules: vec![Rule { action: "allow".to_string(), os: None, features: Some(vec![("is_demo_user".to_string(), true)]) }],
                value: ArgumentList::Single("--demo".to_string()),
            },
        ],
        jvm: vec![
            ArgumentValue::Plain("-Xmx1G".to_string()),
            ArgumentValue::Plain("-Djava.library.path=${natives_directory}".to_string()),
            ArgumentValue::Plain("-cp".to_string()),
            ArgumentValue::Plain("${classpath}".to_string()),
        ],
    });
    let opts = LaunchOptions { username: "Alex".to_string(), ram_mb: 4096 };
    let cmd = build_launch_command(&v, "C:\\java.exe", &dirs(), &opts).unwrap();
    assert_eq!(
        cmd,
        vec![
            "C:\\java.exe",
            "-Xmx4096M",
            "-Xms2048M",
            "-Djava.library.path=C:\\mc\\natives\\1.20.1",
            "-cp",
            "a.jar;b.jar",
            "net.minecraft.client.main.Main",
            "--username",
            "Alex",
        ]
    );
}

#[test]
fn launch_command_old_style() {
    let mut v = base_version();
    v.minecraft_arguments = Some("--username ${auth_player_name}  --version ${version_name}".to_string());
    let opts = LaunchOptions { username: "Alex".to_string(), ram_mb: 700 };
    let cmd = build_launch_command(&v, "java", &dirs(), &opts).unwrap();
    assert_eq!(
        cmd,
        vec![
            "java",
            "-Xmx700M",
            "-Xms512M",
            "-Djava.library.path=C:\\mc\\natives\\1.20.1",
            "net.minecraft.client.main.Main",
            "--username",
            "Alex",
            "--version",
            "1.20.1",
        ]
    );
    let bare = build_launch_command(&base_version(), "java", &dirs(), &opts).unwrap();
    assert_eq!(bare.len(), 5);
}

#[test]
fn classpath_joined() {
    let entries = vec![("a.jar".to_string(), true), ("missing.jar".to_string(), false), ("b.jar".to_string(), true)];
    assert_eq!(build_classpath(&entries, "client.jar"), "a.jar;b.jar;client.jar");
    assert_eq!(build_classpath(&Vec::new(), "client.jar"), "client.jar");
}

fn task(sha1: Option<&str>, size: Option<u64>) -> DownloadTask {
    DownloadTask {
        url: "https://x/f".to_string(),
        dest: vec!["f".to_string()],
        expected_sha1: sha1.map(|s| s.to_string()),
        expected_size: size,
        label: "f".to_string(),
    }
}

#[test]
fn downloads_checked() {
    let t = task(Some("A9993E364706816ABA3E25717850C26C9CD0D89D"), Some(3));
    assert_eq!(check_download(&t, b"abc", "C:\\f"), Ok(()));
    assert_eq!(
        check_download(&t, b"abcd", "C:\\f"),
        Err("Tamaño incorrecto para C:\\f: esperado 3, obtenido 4".to_string())
    );
    assert_eq!(
        check_download(&t, b"abd", "C:\\f"),
        Err("SHA1 incorrecto para C:\\f: esperado A9993E364706816ABA3E25717850C26C9CD0D89D, obtenido cb4cc28df0fdbe0ecf9d9662e294b118092a5735".to_string())
    );
    assert_eq!(check_download(&task(None, None), b"anything", "f"), Ok(()));
}

#[test]
fn accepted_download_is_current() {
    let t = task(Some("a9993e364706816aba3e25717850c26c9cd0d89d"), Some(3));
    assert!(check_download(&t, b"abc", "f").is_ok());
    let digest = minelts::digest::sha1_bytes(b"abc");
    assert!(file_matches(&t, Some(3), Some(&digest)));
    assert!(!file_matches(&t, Some(4), Some(&digest)));
    assert!(!file_matches(&t, None, None));
    assert!(!file_matches(&t, Some(3), None));
    assert!(file_matches(&task(None, None), Some(0), None));
}

#[test]
fn retries_and_batches() {
    assert_eq!(MAX_RETRIES, 3);
    assert_eq!(retry_outcome(1, "boom".to_string()), ("boom (reintento 1/3)".to_string(), Some(500)));
    assert_eq!(retry_outcome(2, "boom".to_string()), ("boom (reintento 2/3)".to_string(), Some(1000)));
    assert_eq!(retry_outcome(3, "boom".to_string()), ("boom".to_string(), None));
    assert_eq!(failure_line("Asset x", "HTTP 404"), "Asset x: HTTP 404");
    assert_eq!(batch_result(&Vec::new()), Ok(()));
    assert_eq!(batch_result(&vec!["a: e".to_string(), "b: f".to_string()]), Err("a: e\nb: f".to_string()));
    assert_eq!(ParallelDownloader::new(0).workers(), 1);
    assert_eq!(ParallelDownloader::new(8).workers(), 8);
}

#[test]
fn launch_requests_checked() {
    assert_eq!(validate_launch_request("  Steve ", "1.20.1"), Ok("Steve".to_string()));
    assert_eq!(validate_launch_request("   ", "1.20.1"), Err("Introduce un nombre de usuario".to_string()));
    assert_eq!(
        validate_launch_request("abcdefghijklmnopq", "1.20.1"),
        Err("El nombre no puede superar 16 caracteres".to_string())
    );
    assert_eq!(validate_launch_request("abcdefghijklmnop", "1.20.1"), Ok("abcdefghijklmnop".to_string()));
    assert_eq!(validate_launch_request("ÑÑÑÑÑÑÑÑÑ", "1.20.1"), Ok("ÑÑÑÑÑÑÑÑÑ".to_string()));
    assert_eq!(validate_launch_request("ÑÑÑÑÑÑÑÑÑÑÑÑÑÑÑÑ", "1.20.1"), Ok("ÑÑÑÑÑÑÑÑÑÑÑÑÑÑÑÑ".to_string()));
    assert_eq!(
        validate_launch_request("ÑÑÑÑÑÑÑÑÑÑÑÑÑÑÑÑÑ", "1.20.1"),
        Err("El nombre no puede superar 16 caracteres".to_string())
    );
    assert_eq!(validate_launch_request("Steve", ""), Err("Selecciona una versión".to_string()));
}

#[test]
fn folders_and_events() {
    assert_eq!(folder_for("root"), Ok(vec![".minecraft".to_string()]));
    assert_eq!(folder_for("versions"), Ok(vec![".minecraft".to_string(), "versions".to_string()]));
    assert_eq!(folder_for("mods"), Err("Carpeta desconocida: mods".to_string()));
    let e = progress_to_event(DownloadProgress::Failed { label: "a".to_string(), error: "b".to_string() });
    assert_eq!((e.completed, e.total, e.current.as_str()), (0, 0, "a: b"));
    let p = progress_to_event(DownloadProgress::Progress { completed: 3, total: 9 });
    assert_eq!((p.completed, p.total, p.current.as_str()), (3, 9, ""));
    let s = progress_to_event(DownloadProgress::Started { label: "x".to_string() });
    assert_eq!(s.current, "x");
    assert_eq!(progress_to_event(DownloadProgress::Completed).current, "");
    let ok = launch_done(Ok(()));
    assert!(ok.ok && ok.error.is_none());
    let bad = launch_done(Err("e".to_string()));
    assert!(!bad.ok && bad.error.as_deref() == Some("e"));
}

#[test]
fn config_defaults_and_paths() {
    let c = Config::default();
    assert_eq!(c.username, "");
    assert_eq!(c.version_id, "");
    assert!(!c.show_snapshots);
    assert_eq!(c.ram_mb, 2048);
    assert_eq!(config_dir(), vec!["minelts"]);
    assert_eq!(config_path(), vec!["minelts", "config.json"]);
    assert_eq!(minecraft_dir(), vec![".minecraft"]);
}

#[test]
fn classpath_and_natives_come_from_downloads() {
    let mut v = base_version();
    v.libraries = libraries();
    let mut tasks = Vec::new();
    collect_library_tasks(&v, &mut tasks);
    for jar in minelts::launch::classpath_candidates(&v) {
        assert!(tasks.iter().any(|t| t.dest == jar));
    }
    for n in native_extractions(&v) {
        assert!(tasks.iter().any(|t| t.dest == n.jar));
    }
}

#[test]
fn accepted_names_are_trimmed() {
    for raw in ["  Steve", "Alex\u{3000}", "\tNotch\n", "a b"] {
        let name = validate_launch_request(raw, "1.20.1").unwrap();
        assert_eq!(name.trim(), name);
        assert!(!name.is_empty() && name.chars().count() <= 16);
    }
}
