use th_chat::config_manager::{
    ConfigError, ConfigLoadOptions, ConfigManager, ConfigSource, McpConfig, ModelConfig,
};
use th_chat::directory::{
    find_th_chat_dir_from, join_path, json_stem, list_json_names, parent_path, DirEntry, PathProbe,
    ThChatDirectory, TH_CHAT_DIR,
};
use th_chat::text::{sort_names, str_le};

fn probe(dirs: &[&str], files: &[&str]) -> PathProbe {
    PathProbe {
        dirs: dirs.iter().map(|s| s.to_string()).collect(),
        files: files.iter().map(|s| s.to_string()).collect(),
    }
}

fn file(name: &str) -> DirEntry {
    DirEntry { name: name.to_string(), is_file: true }
}

fn dir(name: &str) -> DirEntry {
    DirEntry { name: name.to_string(), is_file: false }
}

#[test]
fn test_th_chat_directory_creation() {
    let th_chat_path = join_path("/tmp/work", TH_CHAT_DIR);
    let directory = ThChatDirectory::new(th_chat_path);
    let mut disk = probe(&["/tmp/work"], &[]);

    assert!(!directory.dir_exists(&disk));
    disk.dirs.extend(directory.create_plan());
    assert!(directory.dir_exists(&disk));
    assert!(disk.is_dir(&directory.sessions_dir));
    assert!(disk.is_dir(&directory.presets_dir));
    assert!(disk.is_dir(&directory.mcp_dir));
    assert!(!directory.has_config(&disk));
    disk.files.push(directory.config_file.clone());
    assert!(directory.has_config(&disk));
}

#[test]
fn test_find_th_chat_dir() {
    let nested_dir = join_path(&join_path("/tmp/t1", "project"), "subdir");
    let th_chat_path = join_path("/tmp/t1", TH_CHAT_DIR);
    let disk = probe(&["/tmp/t1", "/tmp/t1/project", &nested_dir, &th_chat_path], &[]);

    let found = find_th_chat_dir_from(&nested_dir, &disk);
    assert!(found.is_some());
    assert_eq!(found.unwrap().root, th_chat_path);
}

#[test]
fn test_config_manager_fallback() {
    let manager = ConfigManager { local_dir: None, global_dir: None };
    let options = ConfigLoadOptions::default();
    let plan = manager.config_plan(&options, &probe(&[], &[])).unwrap();
    assert_eq!(plan, vec![ConfigSource::Default]);
    assert_eq!(ModelConfig::builtin().provider, "google");
    assert_eq!(manager, ConfigManager::new(None, None));
    assert_eq!(manager.get_sessions_directory(), None);
}

#[test]
fn directory_parts() {
    let directory = ThChatDirectory::new("/home/u/.th-chat".to_string());
    assert_eq!(directory.root, "/home/u/.th-chat");
    assert_eq!(directory.config_file, "/home/u/.th-chat/config.json");
    assert_eq!(directory.sessions_dir, "/home/u/.th-chat/sessions");
    assert_eq!(directory.presets_dir, "/home/u/.th-chat/presets");
    assert_eq!(directory.mcp_dir, "/home/u/.th-chat/mcp");
    assert_eq!(directory.session_file("abc"), "/home/u/.th-chat/sessions/abc.json");
    assert_eq!(directory.preset_file("fast"), "/home/u/.th-chat/presets/fast.json");
    assert_eq!(directory.clone(), directory);
}

#[test]
fn paths_join_and_part() {
    assert_eq!(join_path("a", "b"), "a/b");
    assert_eq!(join_path("a/", "b"), "a/b");
    assert_eq!(join_path("", "b"), "b");
    assert_eq!(join_path("/", "b"), "/b");
    assert_eq!(parent_path("/a/b"), Some("/a".to_string()));
    assert_eq!(parent_path("/a"), Some("/".to_string()));
    assert_eq!(parent_path("/"), None);
    assert_eq!(parent_path("a/b"), Some("a".to_string()));
    assert_eq!(parent_path("a"), Some("".to_string()));
    assert_eq!(parent_path(""), None);
}

#[test]
fn search_stops_at_the_nearest_directory() {
    let disk = probe(&["/a/.th-chat", "/a/b/.th-chat", "/.th-chat"], &[]);
    assert_eq!(find_th_chat_dir_from("/a/b/c", &disk).unwrap().root, "/a/b/.th-chat");
    assert_eq!(find_th_chat_dir_from("/a/b", &disk).unwrap().root, "/a/b/.th-chat");
    assert_eq!(find_th_chat_dir_from("/a", &disk).unwrap().root, "/a/.th-chat");
    assert_eq!(find_th_chat_dir_from("/x/y", &disk).unwrap().root, "/.th-chat");
    assert_eq!(find_th_chat_dir_from("/x/y", &probe(&[], &["/x/.th-chat"])), None);
    assert_eq!(
        find_th_chat_dir_from("rel/dir", &probe(&[".th-chat"], &[])).unwrap().root,
        ".th-chat"
    );
}

#[test]
fn listings_keep_json_files_sorted() {
    assert_eq!(json_stem("a.json"), Some("a".to_string()));
    assert_eq!(json_stem("a.b.json"), Some("a.b".to_string()));
    assert_eq!(json_stem(".json"), None);
    assert_eq!(json_stem("a.txt"), None);
    assert_eq!(json_stem("json"), None);
    let entries = vec![
        file("zeta.json"),
        file("notes.txt"),
        dir("folder.json"),
        file("alpha.json"),
        file(".json"),
        file("Beta.json"),
    ];
    assert_eq!(list_json_names(&entries), vec!["Beta", "alpha", "zeta"]);
    let directory = ThChatDirectory::new("d".to_string());
    assert_eq!(directory.list_presets(&entries), vec!["Beta", "alpha", "zeta"]);
    assert_eq!(directory.list_sessions(&Vec::new()), Vec::<String>::new());
}

#[test]
fn names_sort_as_strings_do() {
    let names: Vec<String> =
        ["b", "a", "ab", "", "B", "é", "a", "10", "9"].iter().map(|s| s.to_string()).collect();
    let mut expected = names.clone();
    expected.sort();
    assert_eq!(sort_names(&names), expected);
    assert!(str_le("a", "a"));
    assert!(str_le("a", "ab"));
    assert!(!str_le("ab", "a"));
    assert!(str_le("Z", "a"));
    assert!(!str_le("é", "z"));
}

#[test]
fn configuration_sources_in_order() {
    let local = ThChatDirectory::new("/p/.th-chat".to_string());
    let global = ThChatDirectory::new("/h/.th-chat".to_string());
    let manager = ConfigManager::new(Some(local.clone()), Some(global.clone()));
    let none = ConfigLoadOptions::default();

    let disk = probe(&[], &["/p/.th-chat/config.json", "/h/.th-chat/config.json"]);
    assert_eq!(
        manager.config_plan(&none, &disk),
        Ok(vec![
            ConfigSource::Local(local.clone()),
            ConfigSource::Global(global.clone()),
            ConfigSource::Default
        ])
    );
    let disk = probe(&[], &["/h/.th-chat/config.json"]);
    assert_eq!(
        manager.config_plan(&none, &disk),
        Ok(vec![ConfigSource::Global(global.clone()), ConfigSource::Default])
    );

    let explicit = ConfigLoadOptions {
        config_file: Some("my.json".to_string()),
        preset: Some("fast".to_string()),
    };
    assert_eq!(
        manager.config_plan(&explicit, &disk),
        Ok(vec![ConfigSource::File("my.json".to_string())])
    );

    let preset = ConfigLoadOptions { config_file: None, preset: Some("fast".to_string()) };
    assert_eq!(
        manager.config_plan(&preset, &disk),
        Err(ConfigError::PresetNotFound { name: "fast".to_string() })
    );
    let disk = probe(&[], &["/h/.th-chat/presets/fast.json"]);
    assert_eq!(
        manager.config_plan(&preset, &disk),
        Ok(vec![ConfigSource::Preset { directory: global.clone(), name: "fast".to_string() }])
    );
    let disk = probe(&[], &["/h/.th-chat/presets/fast.json", "/p/.th-chat/presets/fast.json"]);
    assert_eq!(
        manager.config_plan(&preset, &disk),
        Ok(vec![ConfigSource::Preset { directory: local.clone(), name: "fast".to_string() }])
    );
    assert_eq!(manager.get_sessions_directory(), Some(&local));
    assert_eq!(ConfigManager::new(None, Some(global.clone())).get_sessions_directory(), Some(&global));
}

#[test]
fn presets_of_both_directories() {
    let local = ThChatDirectory::new("/p/.th-chat".to_string());
    let global = ThChatDirectory::new("/h/.th-chat".to_string());
    let manager = ConfigManager::new(Some(local.clone()), Some(global.clone()));
    let local_entries = vec![file("zed.json"), file("both.json")];
    let global_entries = vec![file("both.json"), file("alpha.json"), file("readme.md")];
    assert_eq!(
        manager.list_preset_names(&local_entries, &global_entries),
        vec!["alpha", "both", "zed"]
    );
    let presets = manager.list_presets(&local_entries, &global_entries);
    assert_eq!(
        presets,
        vec![
            (
                "alpha".to_string(),
                ConfigSource::Preset { directory: global.clone(), name: "alpha".to_string() }
            ),
            (
                "both".to_string(),
                ConfigSource::Preset { directory: local.clone(), name: "both".to_string() }
            ),
            (
                "zed".to_string(),
                ConfigSource::Preset { directory: local.clone(), name: "zed".to_string() }
            ),
        ]
    );
    let only_global = ConfigManager::new(None, Some(global.clone()));
    assert_eq!(only_global.list_presets(&Vec::new(), &global_entries).len(), 2);
}

#[test]
fn sources_in_words() {
    let directory = ThChatDirectory::new("/p/.th-chat".to_string());
    assert_eq!(ConfigSource::Default.describe(), "built-in defaults");
    assert_eq!(
        ConfigSource::Global(directory.clone()).describe(),
        "global config (/p/.th-chat/config.json)"
    );
    assert_eq!(
        ConfigSource::Local(directory.clone()).describe(),
        "local config (/p/.th-chat/config.json)"
    );
    assert_eq!(
        ConfigSource::Preset { directory, name: "fast".to_string() }.describe(),
        "preset 'fast' (/p/.th-chat/presets/fast.json)"
    );
    assert_eq!(ConfigSource::File("x.json".to_string()).describe(), "config file (x.json)");
}

#[test]
fn builtin_configuration() {
    let model = ModelConfig::builtin();
    assert_eq!(model.model, "gemini-2.5-flash-preview-04-17");
    assert_eq!(model.clone(), model);
    let mcp = McpConfig::builtin("/work".to_string());
    assert_eq!(mcp.args, vec!["--allowed-dirs", "/work"]);
    assert!(mcp.command.ends_with("simple-fs-mcp-server"));
    assert_eq!(mcp.clone(), mcp);
}
