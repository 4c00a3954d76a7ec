use contract_manifest::error::ManifestError;
use contract_manifest::manifest::{Manifest, Registration};
use contract_manifest::path::ManifestPath;
use contract_manifest::rewrite::PathRewrite;
use contract_manifest::value::{Entry, Value};

fn s(x: &str) -> Value {
    Value::Str(x.to_string())
}

fn e(k: &str, v: Value) -> Entry {
    Entry { key: k.to_string(), value: v }
}

fn get<'a>(t: &'a [Entry], k: &str) -> Option<&'a Value> {
    t.iter().find(|x| x.key == k).map(|x| &x.value)
}

fn table<'a>(t: &'a [Entry], k: &str) -> &'a Vec<Entry> {
    match get(t, k) {
        Some(Value::Table(x)) => x,
        _ => panic!("no table under {}", k),
    }
}

fn array<'a>(t: &'a [Entry], k: &str) -> &'a Vec<Value> {
    match get(t, k) {
        Some(Value::Array(x)) => x,
        _ => panic!("no array under {}", k),
    }
}

fn strs(a: &[Value]) -> Vec<String> {
    a.iter()
        .map(|v| match v {
            Value::Str(x) => x.clone(),
            Value::Int(i) => format!("#{}", i),
            _ => "?".to_string(),
        })
        .collect()
}

fn as_str(v: Option<&Value>) -> Option<String> {
    match v {
        Some(Value::Str(x)) => Some(x.clone()),
        _ => None,
    }
}

fn manifest(doc: Vec<Entry>) -> Manifest {
    Manifest::new(ManifestPath::new("Cargo.toml", false).ok().unwrap(), doc)
}

fn lib_with_kinds(kinds: Vec<Value>) -> Manifest {
    manifest(vec![
        e("package", Value::Table(vec![e("name", s("flipper"))])),
        e("lib", Value::Table(vec![e("name", s("flipper")), e("crate-type", Value::Array(kinds))])),
    ])
}

fn kinds(m: &Manifest) -> Vec<String> {
    strs(array(table(m.document(), "lib"), "crate-type"))
}

#[test]
fn manifest_path_accepts_manifest_file_names() {
    assert!(ManifestPath::new("Cargo.toml", false).is_ok());
    assert!(ManifestPath::new("a/b/Cargo.toml", false).is_ok());
    assert!(ManifestPath::new("/a/Cargo.toml/", false).is_ok());
    assert!(ManifestPath::new("a/..", false).is_ok());
    assert!(ManifestPath::new("/", false).is_ok());
}

#[test]
fn manifest_path_rejects_other_file_names() {
    assert!(matches!(ManifestPath::new("a/Cargo.lock", false), Err(ManifestError::InvalidManifestName)));
    assert!(matches!(ManifestPath::new("cargo.toml", false), Err(ManifestError::InvalidManifestName)));
}

#[test]
fn manifest_path_directory() {
    let p = |x: &str| ManifestPath::new(x, false).ok().unwrap();
    assert_eq!(p("Cargo.toml").directory(), None);
    assert_eq!(p("a/b/Cargo.toml").directory(), Some("a/b".to_string()));
    assert_eq!(p("a//Cargo.toml").directory(), Some("a".to_string()));
    assert_eq!(p("/Cargo.toml").directory(), Some("/".to_string()));
    assert_eq!(p("./Cargo.toml").directory(), Some(".".to_string()));
    assert_eq!(p("Cargo.toml").directory_or_current(), "./".to_string());
    assert_eq!(p("x/Cargo.toml").directory_or_current(), "x".to_string());
}

#[test]
fn cargo_arg_names_the_manifest() {
    assert_eq!(ManifestPath::cargo_arg("/p/Cargo.toml"), "--manifest-path=/p/Cargo.toml".to_string());
}

#[test]
fn add_output_kind_twice_equals_once() {
    let mut m = lib_with_kinds(vec![s("rlib")]);
    m.with_added_crate_type("cdylib").ok().unwrap();
    let once = kinds(&m);
    m.with_added_crate_type("cdylib").ok().unwrap();
    assert_eq!(kinds(&m), once);
    assert_eq!(once, vec!["rlib".to_string(), "cdylib".to_string()]);
}

#[test]
fn add_output_kind_present_is_noop() {
    let mut m = lib_with_kinds(vec![s("cdylib"), Value::Int(3)]);
    m.with_added_crate_type("cdylib").ok().unwrap();
    assert_eq!(kinds(&m), vec!["cdylib".to_string(), "#3".to_string()]);
}

#[test]
fn remove_output_kind_removes_all_duplicates() {
    let mut m = lib_with_kinds(vec![s("rlib"), s("cdylib"), s("rlib"), Value::Int(1), s("rlib")]);
    m.with_removed_crate_type("rlib").ok().unwrap();
    assert_eq!(kinds(&m), vec!["cdylib".to_string(), "#1".to_string()]);
}

#[test]
fn remove_absent_output_kind_is_noop() {
    let mut m = lib_with_kinds(vec![s("rlib"), s("cdylib")]);
    m.with_removed_crate_type("staticlib").ok().unwrap();
    assert_eq!(kinds(&m), vec!["rlib".to_string(), "cdylib".to_string()]);
}

#[test]
fn output_kind_errors() {
    let mut m = manifest(vec![e("package", Value::Table(vec![]))]);
    assert!(matches!(m.with_added_crate_type("rlib"), Err(ManifestError::MissingSection(_))));
    let mut m = manifest(vec![e("lib", Value::Table(vec![]))]);
    assert!(matches!(m.with_added_crate_type("rlib"), Err(ManifestError::MissingField(_))));
    let mut m = manifest(vec![e("lib", s("x"))]);
    assert!(matches!(m.with_removed_crate_type("rlib"), Err(ManifestError::MissingField(_))));
    let mut m = manifest(vec![e("lib", Value::Table(vec![e("crate-type", s("rlib"))]))]);
    assert!(matches!(m.with_removed_crate_type("rlib"), Err(ManifestError::WrongShape(_))));
}

#[test]
fn release_defaults_do_not_overwrite() {
    let mut m = manifest(vec![e(
        "profile",
        Value::Table(vec![e("release", Value::Table(vec![e("opt-level", s("s"))]))]),
    )]);
    m.with_profile_release_defaults(vec![e("opt-level", s("z")), e("lto", Value::Bool(true))])
        .ok()
        .unwrap();
    let rel = table(table(m.document(), "profile"), "release");
    assert_eq!(as_str(get(rel, "opt-level")), Some("s".to_string()));
    assert!(matches!(get(rel, "lto"), Some(Value::Bool(true))));
    assert_eq!(rel.len(), 2);
}

#[test]
fn release_lto_is_set_and_profile_created() {
    let mut m = manifest(vec![]);
    m.with_profile_release_lto(true).ok().unwrap();
    let rel = table(table(m.document(), "profile"), "release");
    assert!(matches!(get(rel, "lto"), Some(Value::Bool(true))));
    m.with_profile_release_lto(false).ok().unwrap();
    let rel = table(table(m.document(), "profile"), "release");
    assert!(matches!(get(rel, "lto"), Some(Value::Bool(false))));
    assert_eq!(rel.len(), 1);
}

#[test]
fn release_profile_of_wrong_shape_is_refused() {
    let mut m = manifest(vec![e("profile", s("x"))]);
    assert!(matches!(m.with_profile_release_lto(true), Err(ManifestError::WrongShape(_))));
    let mut m = manifest(vec![e("profile", Value::Table(vec![e("release", Value::Array(vec![]))]))]);
    assert!(matches!(m.with_profile_release_defaults(vec![]), Err(ManifestError::WrongShape(_))));
}

#[test]
fn workspace_is_added_only_when_absent() {
    let mut m = manifest(vec![]);
    m.with_workspace().ok().unwrap();
    assert!(table(m.document(), "workspace").is_empty());
    let mut m = manifest(vec![e("workspace", Value::Table(vec![e("members", Value::Array(vec![s("x")]))]))]);
    m.with_workspace().ok().unwrap();
    assert_eq!(strs(array(table(m.document(), "workspace"), "members")), vec!["x".to_string()]);
}

#[test]
fn metadata_package_registration_dedups_legacy() {
    let mut m = manifest(vec![e(
        "workspace",
        Value::Table(vec![e("members", Value::Array(vec![s(".ink/abi_gen")]))]),
    )]);
    assert_eq!(m.with_metadata_package().ok(), Some(Registration::SkippedLegacyPresent));
    assert_eq!(array(table(m.document(), "workspace"), "members").len(), 1);
    assert!(m.metadata_package());

    let mut m = manifest(vec![]);
    assert!(!m.metadata_package());
    assert_eq!(m.with_metadata_package().ok(), Some(Registration::Registered));
    assert_eq!(strs(array(table(m.document(), "workspace"), "members")), vec![".ink/metadata_gen".to_string()]);
    assert!(m.metadata_package());
}

#[test]
fn metadata_package_wrong_shape() {
    let mut m = manifest(vec![e("workspace", Value::Table(vec![e("members", s("x"))]))]);
    assert!(matches!(m.with_metadata_package(), Err(ManifestError::WrongShape(_))));
    assert!(!m.metadata_package());
}

#[test]
fn lint_library_is_appended() {
    let mut m = manifest(vec![]);
    m.with_dylint().ok().unwrap();
    let libs = array(
        table(table(table(m.document(), "workspace"), "metadata"), "dylint"),
        "libraries",
    );
    assert_eq!(libs.len(), 1);
    match &libs[0] {
        Value::Table(t) => {
            assert_eq!(as_str(get(t, "git")), Some("https://github.com/paritytech/ink/".to_string()));
            assert_eq!(as_str(get(t, "tag")), Some("v4.0.0-alpha.3".to_string()));
            assert_eq!(as_str(get(t, "pattern")), Some("linting/".to_string()));
        }
        _ => panic!("descriptor is not a table"),
    }
    let mut m = manifest(vec![e("workspace", Value::Table(vec![e("metadata", s("x"))]))]);
    assert!(matches!(m.with_dylint(), Err(ManifestError::WrongShape(_))));
}

#[test]
fn optimization_passes_lookup() {
    let m = manifest(vec![e(
        "package",
        Value::Table(vec![e(
            "metadata",
            Value::Table(vec![e("contract", Value::Table(vec![e("optimization-passes", Value::Int(3))]))]),
        )]),
    )]);
    assert!(matches!(m.get_profile_optimization_passes(), Some(Value::Int(3))));
    let m = manifest(vec![e("package", Value::Table(vec![e("metadata", s("x"))]))]);
    assert!(m.get_profile_optimization_passes().is_none());
}

fn rewriter(exclude: &[&str]) -> PathRewrite {
    PathRewrite {
        exclude_deps: exclude.iter().map(|x| x.to_string()).collect(),
        manifest_dir: "/home/u/proj".to_string(),
        lib_default_exists: true,
        bin_default_exists: false,
        windows: false,
    }
}

#[test]
fn lib_path_is_anchored() {
    let mut m = manifest(vec![e("lib", Value::Table(vec![e("path", s("src/lib.rs"))]))]);
    m.rewrite_relative_paths(&rewriter(&[])).ok().unwrap();
    assert_eq!(as_str(get(table(m.document(), "lib"), "path")), Some("/home/u/proj/src/lib.rs".to_string()));
}

#[test]
fn absolute_path_is_unchanged() {
    let mut m = manifest(vec![e("lib", Value::Table(vec![e("path", s("/abs/lib.rs"))]))]);
    m.rewrite_relative_paths(&rewriter(&[])).ok().unwrap();
    assert_eq!(as_str(get(table(m.document(), "lib"), "path")), Some("/abs/lib.rs".to_string()));
    assert_eq!(rewriter(&[]).absolute("/x/y"), "/x/y".to_string());
    let mut r = rewriter(&[]);
    r.manifest_dir = "/root/".to_string();
    assert_eq!(r.absolute("a"), "/root/a".to_string());
    r.manifest_dir = String::new();
    assert_eq!(r.absolute("a"), "a".to_string());
}

#[test]
fn missing_lib_path_gets_default() {
    let mut m = manifest(vec![e("lib", Value::Table(vec![]))]);
    m.rewrite_relative_paths(&rewriter(&[])).ok().unwrap();
    assert_eq!(as_str(get(table(m.document(), "lib"), "path")), Some("/home/u/proj/src/lib.rs".to_string()));
}

#[test]
fn missing_bin_path_without_default_fails() {
    let doc = vec![
        e("lib", Value::Table(vec![e("path", s("src/lib.rs"))])),
        e("bin", Value::Array(vec![Value::Table(vec![e("name", s("b"))])])),
    ];
    let mut m = manifest(doc);
    assert!(matches!(m.rewrite_relative_paths(&rewriter(&[])), Err(ManifestError::NoDefaultPath(_))));
    assert_eq!(as_str(get(table(m.document(), "lib"), "path")), Some("src/lib.rs".to_string()));
}

#[test]
fn bin_paths_are_anchored() {
    let doc = vec![e(
        "bin",
        Value::Array(vec![
            Value::Table(vec![e("path", s("src/a.rs"))]),
            Value::Table(vec![e("path", s("/b.rs"))]),
        ]),
    )];
    let mut m = manifest(doc);
    m.rewrite_relative_paths(&rewriter(&[])).ok().unwrap();
    let bins = array(m.document(), "bin");
    let paths: Vec<Option<String>> = bins
        .iter()
        .map(|b| match b {
            Value::Table(t) => as_str(get(t, "path")),
            _ => None,
        })
        .collect();
    assert_eq!(paths, vec![Some("/home/u/proj/src/a.rs".to_string()), Some("/b.rs".to_string())]);
}

#[test]
fn excluded_dependency_is_not_rewritten() {
    let doc = vec![e(
        "dependencies",
        Value::Table(vec![
            e("foo", Value::Table(vec![e("path", s("../foo"))])),
            e("bar", Value::Table(vec![e("path", s("../bar"))])),
            e("baz", s("1.0")),
        ]),
    )];
    let mut m = manifest(doc);
    m.rewrite_relative_paths(&rewriter(&["foo"])).ok().unwrap();
    let deps = table(m.document(), "dependencies");
    assert_eq!(as_str(get(table(deps, "foo"), "path")), Some("../foo".to_string()));
    assert_eq!(as_str(get(table(deps, "bar"), "path")), Some("/home/u/proj/../bar".to_string()));
    assert_eq!(as_str(get(deps, "baz")), Some("1.0".to_string()));
}

#[test]
fn exclusion_goes_by_package_name() {
    let doc = vec![e(
        "dev-dependencies",
        Value::Table(vec![e("alias", Value::Table(vec![e("package", s("foo")), e("path", s("p"))]))]),
    )];
    let mut m = manifest(doc);
    m.rewrite_relative_paths(&rewriter(&["alias"])).ok().unwrap();
    let deps = table(m.document(), "dev-dependencies");
    assert_eq!(as_str(get(table(deps, "alias"), "path")), Some("/home/u/proj/p".to_string()));
    let doc = vec![e(
        "dev-dependencies",
        Value::Table(vec![e("alias", Value::Table(vec![e("package", s("foo")), e("path", s("p"))]))]),
    )];
    let mut m = manifest(doc);
    m.rewrite_relative_paths(&rewriter(&["foo"])).ok().unwrap();
    let deps = table(m.document(), "dev-dependencies");
    assert_eq!(as_str(get(table(deps, "alias"), "path")), Some("p".to_string()));
}

#[test]
fn non_string_path_is_refused() {
    let doc = vec![e("dependencies", Value::Table(vec![e("foo", Value::Table(vec![e("path", Value::Int(1))]))]))];
    let mut m = manifest(doc);
    assert!(matches!(m.rewrite_relative_paths(&rewriter(&[])), Err(ManifestError::NotAString(_))));
    let mut m = manifest(vec![e("lib", Value::Table(vec![e("path", Value::Bool(true))]))]);
    assert!(matches!(m.rewrite_relative_paths(&rewriter(&[])), Err(ManifestError::NotAString(_))));
    let mut m = manifest(vec![e("bin", s("x"))]);
    assert!(matches!(m.rewrite_relative_paths(&rewriter(&[])), Err(ManifestError::WrongShape(_))));
}

#[test]
fn metadata_package_inputs() {
    let m = manifest(vec![
        e("package", Value::Table(vec![e("name", s("flipper"))])),
        e("dependencies", Value::Table(vec![e("ink", Value::Table(vec![e("version", s("4"))]))])),
    ]);
    assert_eq!(m.package_name().ok(), Some(&"flipper".to_string()));
    assert_eq!(m.ink_dependency().ok().map(|d| d.len()), Some(1));
    let m = manifest(vec![e("package", Value::Table(vec![e("name", Value::Int(1))]))]);
    assert!(matches!(m.package_name(), Err(ManifestError::MissingField(_))));
    assert!(matches!(m.ink_dependency(), Err(ManifestError::MissingField(_))));
    let m = manifest(vec![e("dependencies", Value::Table(vec![]))]);
    assert!(matches!(m.package_name(), Err(ManifestError::MissingField(_))));
    assert!(matches!(m.ink_dependency(), Err(ManifestError::MissingField(_))));
}

#[test]
fn metadata_package_directory() {
    let p = |x: &str| ManifestPath::new(x, false).ok().unwrap();
    assert_eq!(Manifest::metadata_package_dir(&p("Cargo.toml")), ".ink/metadata_gen".to_string());
    assert_eq!(Manifest::metadata_package_dir(&p("/tmp/x/Cargo.toml")), "/tmp/x/.ink/metadata_gen".to_string());
    assert_eq!(p("a/Cargo.toml").as_str(), "a/Cargo.toml");
}

#[test]
fn default_manifest_path_is_in_working_directory() {
    let p = ManifestPath::default();
    assert_eq!(p.as_str(), "Cargo.toml");
    assert_eq!(p.directory(), None);
}

#[test]
fn directory_of_single_relative_component_is_empty() {
    let p = |x: &str| ManifestPath::new(x, false).ok().unwrap();
    assert_eq!(p(".").directory(), Some(String::new()));
    assert_eq!(p("./").directory(), Some(String::new()));
    assert_eq!(p("..").directory(), Some(String::new()));
    assert_eq!(p("/").directory(), None);
    assert_eq!(p(".").directory_or_current(), String::new());
}

#[test]
fn metadata_package_registration_twice_adds_once() {
    let mut m = manifest(vec![]);
    assert_eq!(m.with_metadata_package().ok(), Some(Registration::Registered));
    assert_eq!(m.with_metadata_package().ok(), Some(Registration::Registered));
    assert_eq!(strs(array(table(m.document(), "workspace"), "members")), vec![".ink/metadata_gen".to_string()]);
    assert!(m.metadata_package());
}

#[test]
fn lint_library_twice_adds_once() {
    let mut m = manifest(vec![]);
    m.with_dylint().ok().unwrap();
    m.with_dylint().ok().unwrap();
    let libs = array(
        table(table(table(m.document(), "workspace"), "metadata"), "dylint"),
        "libraries",
    );
    assert_eq!(libs.len(), 1);
}

#[test]
fn dependencies_of_wrong_shape_are_refused() {
    let mut m = manifest(vec![e("dependencies", Value::Array(vec![]))]);
    assert!(matches!(m.rewrite_relative_paths(&rewriter(&[])), Err(ManifestError::WrongShape(_))));
    let doc = vec![
        e("bin", Value::Array(vec![Value::Table(vec![e("path", s("a"))]), Value::Int(2)])),
        e("dependencies", Value::Table(vec![e("foo", Value::Table(vec![e("path", Value::Int(1))]))])),
    ];
    let mut m = manifest(doc);
    assert!(matches!(m.rewrite_relative_paths(&rewriter(&[])), Err(ManifestError::WrongShape(_))));
    match &array(m.document(), "bin")[0] {
        Value::Table(t) => assert_eq!(as_str(get(t, "path")), Some("a".to_string())),
        _ => panic!("binary section is not a table"),
    }
}

#[test]
fn windows_paths_use_backslashes() {
    let mut r = rewriter(&[]);
    r.windows = true;
    r.manifest_dir = "C:\\proj".to_string();
    assert_eq!(r.absolute("src/lib.rs"), "C:\\proj\\src\\lib.rs".to_string());
    assert_eq!(r.absolute("D:/x/y.rs"), "D:/x/y.rs".to_string());
    assert_eq!(r.absolute("C:\\a"), "C:\\a".to_string());
    let mut m = manifest(vec![e("lib", Value::Table(vec![]))]);
    m.rewrite_relative_paths(&r).ok().unwrap();
    assert_eq!(as_str(get(table(m.document(), "lib"), "path")), Some("C:\\proj\\src/lib.rs".to_string()));
}

#[test]
fn windows_manifest_paths() {
    let p = |x: &str| ManifestPath::new(x, true).ok().unwrap();
    assert!(ManifestPath::new("C:\\proj\\Cargo.toml", true).is_ok());
    assert!(ManifestPath::new("C:\\proj\\Cargo.toml", false).is_err());
    assert!(matches!(ManifestPath::new("C:\\proj\\x.toml", true), Err(ManifestError::InvalidManifestName)));
    assert_eq!(p("C:\\proj\\Cargo.toml").directory(), Some("C:\\proj".to_string()));
    assert_eq!(p("C:\\Cargo.toml").directory(), Some("C:\\".to_string()));
    assert_eq!(p("a\\.\\Cargo.toml").directory(), Some("a".to_string()));
    assert_eq!(
        Manifest::metadata_package_dir(&p("C:\\t\\Cargo.toml")),
        "C:\\t\\.ink/metadata_gen".to_string()
    );
}

#[test]
fn interior_current_directory_is_dropped() {
    let p = |x: &str| ManifestPath::new(x, false).ok().unwrap();
    assert_eq!(p("foo/./Cargo.toml").directory(), Some("foo".to_string()));
    assert_eq!(p("/./Cargo.toml").directory(), Some("/".to_string()));
    assert_eq!(p("foo/../Cargo.toml").directory(), Some("foo/..".to_string()));
}
