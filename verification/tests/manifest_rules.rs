use minelts::installed::{compare_versions, installed_versions, sort_installed, version_parts, InstalledVersion};
use minelts::java::{
    find_java_in_runtime, installed_java, java_candidates, java_executable_path, plan_runtime,
    resolve_java_spec, RuntimeStep,
};
use minelts::manifest::{
    fallback_java_component, maven_to_path, resolve_java_runtime_entry, ArgumentList,
    ArgumentValue, AssetIndex, DownloadEntry, JavaRuntimeDetail, JavaRuntimeDownloads,
    JavaRuntimeEntry, JavaRuntimeFile, JavaRuntimeManifestRef, JavaVersionSpec, Library, OsRule,
    Rule, VersionDownloads, VersionJson,
};
use minelts::rules::{
    library_applies, native_classifier_key, native_classifier_key_alt, resolve_argument_values,
    rule_matches, should_include,
};
use std::cmp::Ordering;

fn rule(action: &str, os: Option<(&str, Option<&str>)>, features: Option<Vec<(&str, bool)>>) -> Rule {
    Rule {
        action: action.to_string(),
        os: os.map(|(n, a)| OsRule {
            name: if n.is_empty() { None } else { Some(n.to_string()) },
            arch: a.map(|x| x.to_string()),
            version: None,
        }),
        features: features.map(|f| f.into_iter().map(|(k, v)| (k.to_string(), v)).collect()),
    }
}

fn entry(url: &str) -> DownloadEntry {
    DownloadEntry { sha1: "00".to_string(), size: 1, url: url.to_string() }
}

fn version(id: &str, java: Option<(&str, u32)>) -> VersionJson {
    VersionJson {
        id: id.to_string(),
        version_type: "release".to_string(),
        main_class: "net.minecraft.client.main.Main".to_string(),
        minecraft_arguments: None,
        arguments: None,
        asset_index: AssetIndex {
            id: "5".to_string(),
            sha1: "aa".to_string(),
            size: 10,
            url: "https://x/5.json".to_string(),
            total_size: 100,
        },
        downloads: VersionDownloads { client: entry("https://x/client.jar") },
        libraries: Vec::new(),
        java_version: java.map(|(c, m)| JavaVersionSpec { component: c.to_string(), major_version: m }),
        minimum_launcher_version: None,
    }
}

#[test]
fn maven_paths() {
    assert_eq!(maven_to_path("org.lwjgl:lwjgl:3.3.1"), "org/lwjgl/lwjgl/3.3.1/lwjgl-3.3.1.jar");
    assert_eq!(
        maven_to_path("org.lwjgl:lwjgl:3.3.1:natives-windows"),
        "org/lwjgl/lwjgl/3.3.1/lwjgl-3.3.1-natives-windows.jar"
    );
    assert_eq!(maven_to_path("a.b:c:1:cls:zip"), "a/b/c/1/c-1-cls.zip");
    assert_eq!(maven_to_path("a.b:c:1:cls:zip:extra"), "a/b/c/1/c-1-cls.zip");
    assert_eq!(maven_to_path("group:artifact"), "group/artifact");
    assert_eq!(maven_to_path("plain"), "plain");
}

#[test]
fn java_fallback_by_version() {
    assert_eq!(fallback_java_component("1.12.2"), ("jre-legacy", 8));
    assert_eq!(fallback_java_component("1.16.5"), ("jre-legacy", 8));
    assert_eq!(fallback_java_component("1.17"), ("java-runtime-alpha", 16));
    assert_eq!(fallback_java_component("1.17.1"), ("java-runtime-alpha", 16));
    assert_eq!(fallback_java_component("1.18.2"), ("java-runtime-gamma", 17));
    assert_eq!(fallback_java_component("1.20.4"), ("java-runtime-gamma", 17));
    assert_eq!(fallback_java_component("1.20.5"), ("java-runtime-delta", 21));
    assert_eq!(fallback_java_component("1.21"), ("java-runtime-delta", 21));
    assert_eq!(fallback_java_component("26.1"), ("java-runtime-epsilon", 25));
    assert_eq!(fallback_java_component("snapshot"), ("jre-legacy", 8));
    assert_eq!(fallback_java_component("1.x.19"), ("java-runtime-gamma", 17));
}

#[test]
fn java_fallback_never_goes_back() {
    let ids = ["1.8.9", "1.16.5", "1.17", "1.17.1", "1.18", "1.20.4", "1.20.5", "1.21.1", "25.4", "26.0"];
    let mut last = 0;
    for id in ids {
        let (_, major) = fallback_java_component(id);
        assert!(major >= last, "{id}");
        last = major;
    }
}

#[test]
fn java_spec_prefers_version_file() {
    let v = version("1.8.9", Some(("java-runtime-gamma", 17)));
    assert_eq!(resolve_java_spec(&v), ("java-runtime-gamma".to_string(), 17));
    let w = version("1.20.1", None);
    assert_eq!(resolve_java_spec(&w), ("java-runtime-gamma".to_string(), 17));
}

#[test]
fn rules_on_windows() {
    assert!(rule_matches(&rule("allow", None, None)));
    assert!(rule_matches(&rule("allow", Some(("windows", Some("x86_64"))), None)));
    assert!(!rule_matches(&rule("allow", Some(("osx", None)), None)));
    assert!(!rule_matches(&rule("allow", Some(("", Some("x86"))), None)));
    assert!(rule_matches(&rule("allow", None, Some(vec![("is_demo_user", false)]))));
    assert!(!rule_matches(&rule("allow", None, Some(vec![("has_custom_resolution", true)]))));
    assert!(should_include(None));
    assert!(!should_include(Some(&[])));
    let rs = vec![rule("allow", None, None), rule("disallow", Some(("osx", None)), None)];
    assert!(should_include(Some(&rs)));
    let rs2 = vec![rule("allow", None, None), rule("disallow", Some(("windows", None)), None)];
    assert!(!should_include(Some(&rs2)));
    let only_osx = vec![rule("allow", Some(("osx", None)), None)];
    assert!(!should_include(Some(&only_osx)));
}

#[test]
fn libraries_follow_rules() {
    let mut lib = Library { name: "a:b:1".to_string(), downloads: None, rules: None, natives: None, extract: None };
    assert!(library_applies(&lib));
    lib.rules = Some(vec![rule("allow", Some(("linux", None)), None)]);
    assert!(!library_applies(&lib));
}

#[test]
fn arguments_resolved_in_order() {
    let args = vec![
        ArgumentValue::Plain("--a".to_string()),
        ArgumentValue::Conditional {
            rules: vec![rule("allow", None, Some(vec![("is_demo_user", true)]))],
            value: ArgumentList::Single("--demo".to_string()),
        },
        ArgumentValue::Conditional {
            rules: vec![rule("allow", Some(("windows", None)), None)],
            value: ArgumentList::Multiple(vec!["-X".to_string(), "-Y".to_string()]),
        },
        ArgumentValue::Plain("--b".to_string()),
    ];
    assert_eq!(resolve_argument_values(&args), vec!["--a", "-X", "-Y", "--b"]);
    assert_eq!(ArgumentList::Single("x".to_string()).into_vec(), vec!["x"]);
    assert_eq!(native_classifier_key(), "natives-windows");
    assert_eq!(native_classifier_key_alt(), "natives-windows-x86_64");
}

fn runtime_manifest() -> Vec<(String, Vec<(String, Vec<JavaRuntimeEntry>)>)> {
    let e = JavaRuntimeEntry {
        manifest: JavaRuntimeManifestRef { url: "https://r/gamma.json".to_string(), sha1: "s".to_string(), size: 3 },
    };
    vec![(
        "windows-x64".to_string(),
        vec![("java-runtime-gamma".to_string(), vec![e]), ("empty".to_string(), Vec::new())],
    )]
}

#[test]
fn runtime_entry_lookup() {
    let m = runtime_manifest();
    let e = resolve_java_runtime_entry(&m, "windows-x64", "java-runtime-gamma").unwrap();
    assert_eq!(e.manifest.url, "https://r/gamma.json");
    assert_eq!(
        resolve_java_runtime_entry(&m, "linux", "java-runtime-gamma").err().unwrap(),
        "Plataforma linux no encontrada en manifiesto Java"
    );
    assert_eq!(
        resolve_java_runtime_entry(&m, "windows-x64", "jre-legacy").err().unwrap(),
        "Componente Java no encontrado: jre-legacy"
    );
    assert_eq!(
        resolve_java_runtime_entry(&m, "windows-x64", "empty").err().unwrap(),
        "Sin runtime disponible para empty en windows-x64"
    );
}

fn file(kind: &str, raw: Option<&str>, lzma: Option<&str>, has_downloads: bool) -> JavaRuntimeFile {
    JavaRuntimeFile {
        file_type: kind.to_string(),
        downloads: if has_downloads {
            Some(JavaRuntimeDownloads { raw: raw.map(entry), lzma: lzma.map(entry) })
        } else {
            None
        },
        executable: None,
    }
}

#[test]
fn runtime_plan_steps() {
    let detail = JavaRuntimeDetail {
        files: vec![
            ("bin".to_string(), file("directory", None, None, false)),
            ("bin/java.exe".to_string(), file("file", Some("https://r/java"), Some("https://r/java.lzma"), true)),
            ("lib/link".to_string(), file("link", None, None, false)),
            ("lib/x".to_string(), file("file", None, Some("https://r/x.lzma"), true)),
            ("lib/none".to_string(), file("file", None, None, false)),
        ],
    };
    let (steps, err) = plan_runtime(&detail, "java-runtime-gamma");
    assert!(err.is_none());
    assert_eq!(steps.len(), 3);
    match &steps[0] {
        RuntimeStep::CreateDir(p) => assert_eq!(p, &vec![".minecraft", "runtime", "java-runtime-gamma", "windows-x64", "bin"]),
        _ => panic!("expected a folder"),
    }
    match &steps[1] {
        RuntimeStep::Fetch(t) => {
            assert_eq!(t.url, "https://r/java");
            assert_eq!(t.label, "Java: bin/java.exe");
            assert_eq!(t.expected_size, Some(1));
        }
        _ => panic!("expected a fetch"),
    }
    match &steps[2] {
        RuntimeStep::Fetch(t) => assert_eq!(t.url, "https://r/x.lzma"),
        _ => panic!("expected a fetch"),
    }
    let bad = JavaRuntimeDetail {
        files: vec![
            ("a".to_string(), file("directory", None, None, false)),
            ("b".to_string(), file("file", None, None, true)),
            ("c".to_string(), file("directory", None, None, false)),
        ],
    };
    let (steps, err) = plan_runtime(&bad, "x");
    assert_eq!(steps.len(), 1);
    assert_eq!(err.unwrap(), "Sin URL de descarga para b");
}

#[test]
fn java_locations() {
    let exe = java_executable_path("jre-legacy");
    assert_eq!(exe, vec![".minecraft", "runtime", "jre-legacy", "windows-x64", "bin", "java.exe"]);
    let c = java_candidates("jre-legacy");
    assert_eq!(c.len(), 3);
    assert_eq!(c[1], vec![".minecraft", "runtime", "jre-legacy", "windows-x64", "jre", "bin", "java.exe"]);
    assert_eq!(find_java_in_runtime("jre-legacy", &[false, true, true]), Some(c[1].clone()));
    assert_eq!(find_java_in_runtime("jre-legacy", &[false, false, false]), None);
    assert_eq!(installed_java("jre-legacy", &[false, false, true]), c[2]);
    assert_eq!(installed_java("jre-legacy", &[false, false, false]), exe);
}

#[test]
fn version_numbers_and_order() {
    assert_eq!(version_parts("1.20.4"), vec![1, 20, 4]);
    assert_eq!(version_parts("23w14a"), vec![23, 14]);
    assert_eq!(version_parts("1.20-pre1"), vec![1, 20, 1]);
    assert_eq!(version_parts("rd-132211"), vec![132211]);
    assert_eq!(version_parts("99999999999.1"), vec![1]);
    assert_eq!(compare_versions("1.20.4", "1.20.10"), Ordering::Less);
    assert_eq!(compare_versions("1.20", "1.20.1"), Ordering::Less);
    assert_eq!(compare_versions("1.21", "1.20.6"), Ordering::Greater);
    assert_eq!(compare_versions("1.20-pre1", "1.20.1"), Ordering::Equal);
    assert_eq!(compare_versions("a", "b"), Ordering::Equal);
}

fn iv(id: &str) -> InstalledVersion {
    InstalledVersion { id: id.to_string(), jar_path: vec![id.to_string()] }
}

#[test]
fn installed_sorted_newest_first_and_stable() {
    let v = vec![iv("1.8.9"), iv("1.20.1"), iv("1.20-pre1"), iv("1.21"), iv("1.12.2")];
    let sorted: Vec<String> = sort_installed(v).into_iter().map(|x| x.id).collect();
    assert_eq!(sorted, vec!["1.21", "1.20.1", "1.20-pre1", "1.12.2", "1.8.9"]);
    let w = vec![iv("1.20-pre1"), iv("1.20.1")];
    let sorted: Vec<String> = sort_installed(w).into_iter().map(|x| x.id).collect();
    assert_eq!(sorted, vec!["1.20-pre1", "1.20.1"]);
    assert!(sort_installed(Vec::new()).is_empty());
}

#[test]
fn installed_versions_have_jar_paths() {
    let r = installed_versions(vec!["1.8.9".to_string(), "1.19".to_string()]);
    assert_eq!(r[0].id, "1.19");
    assert_eq!(r[0].jar_path, vec![".minecraft", "versions", "1.19", "1.19.jar"]);
    assert_eq!(r[1].jar_path, vec![".minecraft", "versions", "1.8.9", "1.8.9.jar"]);
}

#[test]
fn version_order_is_a_total_order() {
    let ids = ["1.8.9", "1.20", "1.20.1", "1.20-pre1", "23w14a", "1.21", "b1.7.3", "rd-132211"];
    for a in ids {
        assert_eq!(compare_versions(a, a), Ordering::Equal);
        for b in ids {
            assert_eq!(compare_versions(a, b), compare_versions(b, a).reverse());
            for c in ids {
                if compare_versions(a, b) != Ordering::Greater && compare_versions(b, c) != Ordering::Greater {
                    assert_ne!(compare_versions(a, c), Ordering::Greater);
                }
            }
        }
    }
}

#[test]
fn keyed_lookup_finds_the_entry() {
    let entries = vec![("b".to_string(), 2), ("a".to_string(), 1), ("c".to_string(), 3)];
    assert_eq!(minelts::manifest::lookup_entry(&entries, "a"), Some(&1));
    assert_eq!(minelts::manifest::lookup_entry(&entries, "c"), Some(&3));
    assert_eq!(minelts::manifest::lookup_entry(&entries, "z"), None);
}
