use pixi_install::batch::{Action, Batch, Event, Phase};
use pixi_install::entries::Entry;
use pixi_install::exposure::{plan_exposure, plan_package, InstalledPackage};
use pixi_install::manifest::{Environment, Manifest};
use pixi_install::targets::{
    check_env_name, requests_from_specs, resolve_environment_names, select_requests,
    InstallError, PackageRequest, Stage,
};

fn s(v: &str) -> String {
    v.to_string()
}

fn strings(v: &[&str]) -> Vec<String> {
    v.iter().map(|x| x.to_string()).collect()
}

fn request(name: &str, spec: &str) -> PackageRequest {
    PackageRequest { name: s(name), spec: s(spec) }
}

fn package(name: &str, exes: &[&str]) -> InstalledPackage {
    InstalledPackage { name: s(name), executables: strings(exes) }
}

fn entry(key: &str, value: &str) -> Entry {
    Entry { key: s(key), value: s(value) }
}

fn pairs(v: &[Entry]) -> Vec<(String, String)> {
    v.iter().map(|e| (e.key.clone(), e.value.clone())).collect()
}

fn pair(k: &str, v: &str) -> (String, String) {
    (s(k), s(v))
}

fn start(manifest: Manifest, requests: Vec<PackageRequest>, env: Option<&str>, expose: Vec<Entry>) -> (Batch, Action) {
    Batch::start(
        manifest,
        requests,
        env.map(s),
        Vec::new(),
        strings(&["conda-forge"]),
        None,
        expose,
    )
}

fn env<'a>(m: &'a Manifest, name: &str) -> &'a Environment {
    m.environments.iter().find(|e| e.name == name).unwrap()
}

#[test]
fn install_black_exposes_black() {
    let (mut b, a) = start(Manifest::new(), vec![request("black", "black")], None, vec![]);
    assert!(matches!(&a, Action::Install(e) if e == "black"));
    let a = b.step(Event::Succeeded);
    assert!(matches!(&a, Action::Inspect(e) if e == "black"));
    let a = b.step(Event::Inspected(vec![package("python", &["python"]), package("black", &["black"])]));
    assert!(matches!(&a, Action::Publish(e, w) if e == "black" && w.is_empty()));
    let a = b.step(Event::Succeeded);
    assert!(matches!(a, Action::Save));
    assert_eq!(b.manifest.environments.len(), 1);
    let black = env(&b.manifest, "black");
    assert_eq!(black.channels, strings(&["conda-forge"]));
    assert_eq!(pairs(&black.dependencies), vec![pair("black", "black")]);
    assert_eq!(pairs(&black.exposed), vec![pair("black", "black")]);
    let a = b.step(Event::Succeeded);
    assert!(matches!(a, Action::Finish(Ok(()))));
    assert_eq!(b.phase, Phase::Finished);
}

#[test]
fn meta_package_exposes_from_dependency() {
    let prefix = vec![package("jupyter", &[]), package("notebook", &["jupyter", "jupyter-notebook"])];
    let plan = plan_exposure(&vec![request("jupyter", "jupyter")], &prefix).unwrap();
    assert_eq!(pairs(&plan.mappings), vec![pair("jupyter", "jupyter")]);
    assert_eq!(plan.auto_exposed.len(), 1);
    assert_eq!(plan.auto_exposed[0].exposed_name, "jupyter");
    assert_eq!(plan.auto_exposed[0].provider, "notebook");

    let (mut b, _) = start(Manifest::new(), vec![request("jupyter", "jupyter")], None, vec![]);
    b.step(Event::Succeeded);
    let a = b.step(Event::Inspected(prefix));
    match &a {
        Action::Publish(e, warned) => {
            assert_eq!(e, "jupyter");
            assert_eq!(warned.len(), 1);
            assert_eq!(warned[0].provider, "notebook");
        }
        _ => panic!("expected a publish action"),
    }
    assert_eq!(pairs(&env(&b.manifest, "jupyter").exposed), vec![pair("jupyter", "jupyter")]);
}

#[test]
fn no_fallback_match_adds_nothing() {
    let prefix = vec![package("lib", &["helper"]), package("other", &["tool"])];
    let plan = plan_package(&prefix, &s("lib")).unwrap();
    assert_eq!(pairs(&plan.mappings), vec![pair("helper", "helper")]);
    assert!(plan.auto_exposed.is_empty());
    let plan = plan_package(&vec![package("lib", &[])], &s("lib")).unwrap();
    assert!(plan.mappings.is_empty());
    assert!(plan.auto_exposed.is_empty());
}

#[test]
fn missing_designated_package_fails_discovery() {
    assert!(plan_package(&vec![package("other", &["x"])], &s("lib")).is_none());
    let (mut b, _) = start(Manifest::new(), vec![request("lib", "lib")], None, vec![]);
    b.step(Event::Succeeded);
    let a = b.step(Event::Inspected(vec![package("other", &["x"])]));
    assert!(matches!(a, Action::Finish(Err(InstallError::Failed(Stage::Discovery)))));
}

fn manifest_with_b() -> Manifest {
    let mut m = Manifest::new();
    m.define_environment(&s("b"), strings(&["old-channel"]), None, &vec![request("b", "b<1")]);
    m
}

#[test]
fn failure_reverts_preexisting_environment_and_discards_batch() {
    let original = manifest_with_b();
    let (mut b, a) = start(original.clone(), vec![request("a", "a"), request("b", "b")], None, vec![]);
    let mut saved = false;
    assert!(matches!(&a, Action::Install(e) if e == "a"));
    let steps = vec![
        b.step(Event::Succeeded),
        b.step(Event::Inspected(vec![package("a", &["a"])])),
        b.step(Event::Succeeded),
    ];
    assert!(matches!(&steps[0], Action::Inspect(e) if e == "a"));
    assert!(matches!(&steps[1], Action::Publish(e, _) if e == "a"));
    assert!(matches!(&steps[2], Action::Install(e) if e == "b"));
    let a = b.step(Event::Failed);
    assert!(matches!(&a, Action::Revert(e) if e == "b"));
    let a = b.step(Event::Succeeded);
    if let Action::Save = a {
        saved = true;
    }
    assert!(matches!(a, Action::Finish(Err(InstallError::Failed(Stage::Install)))));
    assert!(!saved);
    let kept = env(&b.original, "b");
    assert_eq!(kept.channels, strings(&["old-channel"]));
    assert_eq!(pairs(&kept.dependencies), vec![pair("b", "b<1")]);
    assert!(b.original.environments.iter().all(|e| e.name != "a"));
}

#[test]
fn failed_revert_is_reported() {
    let (mut b, _) = start(manifest_with_b(), vec![request("b", "b")], None, vec![]);
    let a = b.step(Event::Failed);
    assert!(matches!(&a, Action::Revert(e) if e == "b"));
    let a = b.step(Event::Failed);
    assert!(matches!(a, Action::Finish(Err(InstallError::RevertFailed(Stage::Install)))));
}

#[test]
fn failure_of_new_environment_finishes_without_revert() {
    let (mut b, _) = start(Manifest::new(), vec![request("c", "c")], None, vec![]);
    b.step(Event::Succeeded);
    b.step(Event::Inspected(vec![package("c", &["c"])]));
    let a = b.step(Event::Failed);
    assert!(matches!(a, Action::Finish(Err(InstallError::Failed(Stage::Publish)))));
}

#[test]
fn save_failure_is_reported() {
    let (mut b, a) = start(Manifest::new(), vec![], None, vec![]);
    assert!(matches!(a, Action::Save));
    let a = b.step(Event::Failed);
    assert!(matches!(a, Action::Finish(Err(InstallError::Failed(Stage::Save)))));
}

#[test]
fn explicit_mapping_with_several_environments_is_refused() {
    let before = manifest_with_b();
    let (b, a) = start(
        before.clone(),
        vec![request("a", "a"), request("b", "b")],
        None,
        vec![entry("py", "python")],
    );
    assert!(matches!(a, Action::Finish(Err(InstallError::AmbiguousMapping))));
    assert_eq!(b.manifest.environments.len(), before.environments.len());
    let kept = env(&b.manifest, "b");
    assert_eq!(kept.channels, strings(&["old-channel"]));
    assert_eq!(pairs(&kept.dependencies), vec![pair("b", "b<1")]);
}

#[test]
fn explicit_mapping_mode_adds_only_given_mappings() {
    let (mut b, _) = start(
        Manifest::new(),
        vec![request("python", "python 3.10.*")],
        Some("py"),
        vec![entry("python3.10", "python")],
    );
    let a = b.step(Event::Succeeded);
    assert!(matches!(&a, Action::Publish(e, _) if e == "py"));
    let py = env(&b.manifest, "py");
    assert_eq!(pairs(&py.exposed), vec![pair("python3.10", "python")]);
    assert_eq!(pairs(&py.dependencies), vec![pair("python", "python 3.10.*")]);
}

#[test]
fn one_environment_per_distinct_name() {
    let rs = vec![request("a", "a"), request("b", "b"), request("a", "a>1")];
    let names = resolve_environment_names(&rs, &None, false).unwrap();
    assert_eq!(names, strings(&["a", "b"]));
    let for_a = select_requests(&rs, &s("a"), true);
    assert_eq!(for_a.len(), 2);
    assert_eq!(for_a[1].spec, "a>1");
    let for_b = select_requests(&rs, &s("b"), true);
    assert_eq!(for_b.len(), 1);
    assert_eq!(select_requests(&rs, &s("b"), false).len(), 3);
}

#[test]
fn explicit_environment_takes_all_packages() {
    let rs = vec![request("a", "a"), request("b", "b")];
    let names = resolve_environment_names(&rs, &Some(s("tools")), true).unwrap();
    assert_eq!(names, strings(&["tools"]));
    assert_eq!(
        resolve_environment_names(&rs, &Some(s("Bad Name")), false),
        Err(InstallError::InvalidIdentifier)
    );
    assert_eq!(
        resolve_environment_names(&vec![request("ok", "ok"), request("NO", "NO")], &None, false),
        Err(InstallError::InvalidIdentifier)
    );
    assert_eq!(
        resolve_environment_names(&vec![], &None, true),
        Err(InstallError::AmbiguousMapping)
    );
}

#[test]
fn environment_name_grammar() {
    assert!(check_env_name(&s("my-env_1.0")));
    assert!(!check_env_name(&s("")));
    assert!(!check_env_name(&s("Upper")));
    assert!(!check_env_name(&s("with space")));
}

#[test]
fn reinstall_defines_environment_the_same_way() {
    let mut m = manifest_with_b();
    let rs = vec![request("x", "x"), request("y", "y"), request("x", "x>2")];
    m.define_environment(&s("tools"), strings(&["c1"]), Some(s("linux-64")), &rs);
    let first = m.environments.last().unwrap().clone();
    m.define_environment(&s("tools"), strings(&["c1"]), Some(s("linux-64")), &rs);
    assert_eq!(m.environments.len(), 2);
    let second = m.environments.last().unwrap();
    assert_eq!(second.channels, first.channels);
    assert_eq!(second.platform, first.platform);
    assert_eq!(pairs(&second.dependencies), pairs(&first.dependencies));
    assert_eq!(pairs(&second.dependencies), vec![pair("x", "x>2"), pair("y", "y")]);
}

#[test]
fn redefining_drops_old_mappings() {
    let mut m = Manifest::new();
    m.define_environment(&s("e"), strings(&["c"]), None, &vec![request("e", "e")]);
    m.add_exposed_mappings(0, &vec![entry("e", "e"), entry("f", "g"), entry("e", "e2")]);
    assert_eq!(pairs(&m.environments[0].exposed), vec![pair("e", "e2"), pair("f", "g")]);
    assert!(m.has_environment(&s("e")));
    m.remove_environment(&s("e"));
    assert!(!m.has_environment(&s("e")));
    assert_eq!(m.find_environment(&s("e")), None);
}

#[test]
fn requests_from_match_specs() {
    let r = PackageRequest::from_spec(s("Pillow >=10")).unwrap();
    assert_eq!(r.name, "pillow");
    assert_eq!(r.spec, "Pillow >=10");
    let r = PackageRequest::from_spec(s("numpy>=1.0,<2.0")).unwrap();
    assert_eq!(r.name, "numpy");
    assert_eq!(
        PackageRequest::from_spec(s("bad/name")).err(),
        Some(InstallError::InvalidIdentifier)
    );
    let all = requests_from_specs(&strings(&["black", "Ruff==0.1"])).unwrap();
    assert_eq!(all.len(), 2);
    assert_eq!(all[1].name, "ruff");
    assert_eq!(all[1].spec, "Ruff==0.1");
    assert!(requests_from_specs(&strings(&["ok", "n@pe"])).is_err());
}

#[test]
fn mapping_text_is_split_at_first_equals() {
    let m = Entry::parse_mapping(&s("python3.10=python"));
    assert_eq!((m.key.as_str(), m.value.as_str()), ("python3.10", "python"));
    let m = Entry::parse_mapping(&s("rg"));
    assert_eq!((m.key.as_str(), m.value.as_str()), ("rg", "rg"));
    let m = Entry::parse_mapping(&s("a=b=c"));
    assert_eq!((m.key.as_str(), m.value.as_str()), ("a", "b=c"));
}
