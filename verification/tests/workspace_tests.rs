use isobin::config::{ConfigFileExtensions, IsobinConfig};
use isobin::errors::IsobinConfigError;
use isobin::paths::workspace::{Workspace, WorkspacePathMap, WorkspaceProvider};
use isobin::strops::{extension_of, path_join, str_eq, suffix_after_last};

#[test]
fn workspace_new_works() {
    let actual = Workspace::new(
        "332334".to_string(),
        "/home/user_name/.local/share/332334".to_string(),
        "/home/user_name/.cache/332334".to_string(),
    );
    assert_eq!(actual.id(), "332334");
    assert_eq!(actual.base_dir(), "/home/user_name/.local/share/332334");
    assert_eq!(actual.cache_dir(), "/home/user_name/.cache/332334");
    assert_eq!(actual.home_dir(), "/home/user_name/.local/share/332334/home");
    assert_eq!(actual.bin_dir(), "/home/user_name/.local/share/332334/home/bin");
}

#[test]
fn make_tmp_workspace_uses_a_fresh_name_under_cache() {
    let live = Workspace::new(
        "id-1".to_string(),
        "/data/id-1".to_string(),
        "/cache/id-1".to_string(),
    );
    let staging = live.make_tmp_workspace();
    assert_eq!(staging.id(), "id-1");
    assert_eq!(staging.cache_dir(), "/cache/id-1");
    let base = staging.base_dir();
    assert!(base.starts_with("/cache/id-1/"));
    assert_eq!(base.chars().count(), "/cache/id-1/".chars().count() + 21);
    assert_ne!(base, live.base_dir());
    let other = live.make_tmp_workspace();
    assert_ne!(other.base_dir(), staging.base_dir());
}

#[test]
fn path_join_works() {
    assert_eq!(path_join("/a/b", "c"), "/a/b/c");
    assert_eq!(path_join("/a/b/", "c"), "/a/b/c");
    assert_eq!(path_join("/a/b", "/abs"), "/abs");
    assert_eq!(path_join("", "c"), "/c");
}

#[test]
fn suffix_and_extension_work() {
    assert_eq!(suffix_after_last("/a/b/foo.toml", '/'), "foo.toml");
    assert_eq!(suffix_after_last("foo.toml", '/'), "foo.toml");
    assert_eq!(extension_of("foo.toml"), Some("toml".to_string()));
    assert_eq!(extension_of("foo"), None);
    assert_eq!(extension_of(".gitignore"), None);
    assert_eq!(extension_of("a.b.c"), Some("c".to_string()));
    assert!(str_eq("abc", "abc"));
    assert!(!str_eq("abc", "abd"));
}

#[test]
fn get_config_file_extension_works() {
    assert_eq!(
        IsobinConfig::get_file_extension("foo.yaml"),
        Ok(ConfigFileExtensions::Yaml)
    );
    assert_eq!(
        IsobinConfig::get_file_extension("foo.yml"),
        Ok(ConfigFileExtensions::Yaml)
    );
    assert_eq!(
        IsobinConfig::get_file_extension("foo.toml"),
        Ok(ConfigFileExtensions::Toml)
    );
    assert_eq!(
        IsobinConfig::get_file_extension("/work/project/isobin.toml"),
        Ok(ConfigFileExtensions::Toml)
    );
    assert_eq!(
        IsobinConfig::get_file_extension("foo"),
        Err(IsobinConfigError::NothingFileExtension)
    );
    assert_eq!(
        IsobinConfig::get_file_extension("foo.json"),
        Err(IsobinConfigError::UnknownFileExtension("json".to_string()))
    );
}

#[test]
fn workspace_provider_resolves_and_keeps_ids() {
    let provider = WorkspaceProvider::new("/data".to_string(), "/cache".to_string());
    let mut map = WorkspacePathMap::new();
    let dir = "/work/project".to_string();

    let (workspace, needs_save) =
        provider.base_unique_workspace_dir_from_isobin_manifest_dir(&mut map, &dir);
    assert!(needs_save);
    assert_eq!(workspace.id().chars().count(), 21);
    assert_eq!(workspace.base_dir(), &format!("/data/{}", workspace.id()));
    assert_eq!(workspace.cache_dir(), &format!("/cache/{}", workspace.id()));
    assert_eq!(map.get(&dir), Some(workspace.id()));

    let (again, needs_save_again) =
        provider.base_unique_workspace_dir_from_isobin_manifest_dir(&mut map, &dir);
    assert!(!needs_save_again);
    assert_eq!(again.id(), workspace.id());
    assert_eq!(map.len(), 1);

    let other_dir = "/work/other".to_string();
    let (other, _) = provider.base_unique_workspace_dir_from_isobin_manifest_dir(&mut map, &other_dir);
    assert_ne!(other.id(), workspace.id());
    assert_eq!(map.len(), 2);
}

#[test]
fn workspace_provider_removes_entries() {
    let provider = WorkspaceProvider::new("/data".to_string(), "/cache".to_string());
    let mut map = WorkspacePathMap::new();
    let dir = "/work/project".to_string();
    let (_, _) = provider.base_unique_workspace_dir_from_isobin_manifest_dir(&mut map, &dir);
    assert_eq!(map.len(), 1);
    provider.remove_isobin_manifest_dir_from_workspace_map(&mut map, &dir);
    assert_eq!(map.len(), 0);
    assert!(map.get(&dir).is_none());
    provider.remove_isobin_manifest_dir_from_workspace_map(&mut map, &dir);
    assert_eq!(map.len(), 0);
}

#[test]
fn workspace_path_map_entry_access_works() {
    let mut map = WorkspacePathMap::new();
    map.insert("/work/a".to_string(), "id-a".to_string());
    map.insert("/work/b".to_string(), "id-b".to_string());
    assert_eq!(map.len(), 2);
    let (k0, v0) = map.entry_at(0);
    assert_eq!(k0, "/work/a");
    assert_eq!(v0, "id-a");
    let (k1, v1) = map.entry_at(1);
    assert_eq!(k1, "/work/b");
    assert_eq!(v1, "id-b");
    assert_eq!(map.get("/work/b"), Some(&"id-b".to_string()));
    assert_eq!(map.get("/work/c"), None);
}
