use depot::hub::projects_text;
use depot::hub::registry::{Project, Registry};
use depot::hub::store::{
    config_dir_under, config_path, config_path_under, pnpm_store, pnpm_store_under, registry_path,
    registry_path_under, store_root, store_root_under, uv_cache, uv_cache_under,
};
use depot::project::{Eco, ProjectFiles};
use depot::text::PathStyle;

#[test]
fn upsert_refreshes_an_existing_path() {
    let mut reg = Registry::empty();
    reg.upsert_at("/a", "node", 10);
    reg.upsert_at("/b", "python", 11);
    reg.upsert_at("/a", "python", 12);
    assert_eq!(reg.projects.len(), 2);
    assert_eq!(reg.projects[0].path, "/a");
    assert_eq!(reg.projects[0].ecosystem, "python");
    assert_eq!(reg.projects[0].linked_at, 12);
    assert_eq!(reg.projects[1].path, "/b");
}

#[test]
fn upsert_twice_keeps_one_entry() {
    let mut reg = Registry::empty();
    reg.upsert("/x", "node");
    reg.upsert("/x", "node");
    assert_eq!(reg.projects.len(), 1);
    assert_eq!(reg.projects[0].path, "/x");
}

#[test]
fn registry_block_for_one_project() {
    let reg = Registry { projects: vec![Project { path: "/a".to_string(), ecosystem: "node".to_string(), linked_at: 0 }] };
    assert_eq!(projects_text(&reg), "\n  linked projects: 1\n    [node  ] /a");
    assert_eq!(projects_text(&Registry::empty()), "\n  linked projects: 0");
}

#[test]
fn store_layout() {
    let root = store_root();
    assert!(root.ends_with("/.depot/store"));
    assert_eq!(pnpm_store(), format!("{root}/pnpm"));
    assert_eq!(uv_cache(), format!("{root}/uv"));
    assert!(config_path().ends_with("/.depot/config.toml"));
    assert!(registry_path().ends_with("/.depot/registry.json"));
}

#[test]
fn store_paths_under_a_root() {
    assert_eq!(config_dir_under("/home/u", PathStyle::Unix), "/home/u/.depot");
    assert_eq!(store_root_under("/home/u", PathStyle::Unix), "/home/u/.depot/store");
    assert_eq!(pnpm_store_under("/home/u", PathStyle::Unix), "/home/u/.depot/store/pnpm");
    assert_eq!(uv_cache_under(".", PathStyle::Unix), "./.depot/store/uv");
    assert_eq!(config_path_under("/home/u/", PathStyle::Unix), "/home/u/.depot/config.toml");
    assert_eq!(registry_path_under("/r", PathStyle::Unix), "/r/.depot/registry.json");
    assert_eq!(pnpm_store(), pnpm_store_under(&depot::scan::default_root(), depot::text::current_style()));
}

#[test]
fn ecosystem_detection() {
    let f = |a, b, c| ProjectFiles { package_json: a, pyproject_toml: b, requirements_txt: c };
    assert_eq!(Eco::detect(&f(true, true, true)), Some(Eco::Node));
    assert_eq!(Eco::detect(&f(false, true, false)), Some(Eco::Python));
    assert_eq!(Eco::detect(&f(false, false, true)), Some(Eco::Python));
    assert_eq!(Eco::detect(&f(false, false, false)), None);
    assert_eq!(Eco::Node.label(), "node");
    assert_eq!(Eco::Python.label(), "python");
}

#[test]
fn default_root_falls_back_to_dot() {
    assert_eq!(depot::scan::root_from_home(Some("/home/u".to_string())), "/home/u");
    assert_eq!(depot::scan::root_from_home(None), ".");
    assert!(!depot::scan::default_root().is_empty());
}

#[test]
fn store_paths_in_windows_style() {
    assert_eq!(pnpm_store_under("C:\\Users\\u", PathStyle::Windows), "C:\\Users\\u\\.depot\\store\\pnpm");
    assert_eq!(config_path_under("C:", PathStyle::Windows), "C:.depot\\config.toml");
}
