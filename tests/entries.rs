use corvus::bridge::{
    bridge_plugin, forward_directory_change_request, forward_directory_changed,
    forward_not_a_directory, DirectoryChangeRequest,
};
use corvus::config::icon_config;
use corvus::explorer::{AppCommand, AppTab, ChangeTabExt, ExplorerCommand};
use corvus::fs::{
    loader_finished, resolve_entry, sort_entries, update_directory_entries, EntryType,
    EntryTypeData, FsCommand, FsEvent, LoadedDirectory, NodeInfo, ResolvedEntry,
};
use corvus::preview::{preview_mode, PreviewMode};
use corvus::scene::{path_ends_with, PathChecksExt, ScenePath};
use corvus::ui_events::LocationSelectionUpdated;
use corvus::view_state::{view_state_plugin, ViewState};

fn file(name: &str) -> ResolvedEntry {
    resolve_entry(name.to_string(), format!("/d/{name}"), true, false, None).unwrap()
}

fn dir(name: &str) -> ResolvedEntry {
    resolve_entry(name.to_string(), format!("/d/{name}"), false, true, None).unwrap()
}

fn link(name: &str, target: &str) -> ResolvedEntry {
    resolve_entry(name.to_string(), format!("/d/{name}"), false, false, Some(target.to_string()))
        .unwrap()
}

#[test]
fn entry_kinds_from_file_type() {
    assert_eq!(EntryType::from_file_type(true, false, false), EntryType::Directory);
    assert_eq!(EntryType::from_file_type(false, true, false), EntryType::File);
    assert_eq!(EntryType::from_file_type(false, false, true), EntryType::Symlink);
    assert_eq!(EntryType::from_file_type(false, false, false), EntryType::Unknown);
}

#[test]
fn icons() {
    assert_eq!(EntryType::Directory.get_icon(), "[D]");
    assert_eq!(EntryType::File.get_icon(), "[F]");
    assert_eq!(EntryType::Symlink.get_icon(), "[S]");
    assert_eq!(EntryType::Unknown.get_icon(), "[?]");
    assert_eq!(icon_config().navigation.back, "[B]");
}

#[test]
fn resolving_entries() {
    assert!(matches!(file("a").entry_type_data(), EntryTypeData::File));
    assert_eq!(dir("a").entry_type(), EntryType::Directory);
    let l = link("l", "/target/x.txt");
    assert_eq!(l.entry_type(), EntryType::Symlink);
    match l.entry_type_data() {
        EntryTypeData::Link(NodeInfo { name, path }) => {
            assert_eq!(name, "x.txt");
            assert_eq!(path, "/target/x.txt");
        }
        other => panic!("unexpected {:?}", other),
    }
    assert!(resolve_entry("b".to_string(), "/d/b".to_string(), false, false, None).is_none());
    assert_eq!(NodeInfo::from_path("/".to_string()).name, "Unknown");
}

#[test]
fn listing_order_is_kind_then_name() {
    let sorted = sort_entries(vec![file("b"), link("l", "/t"), dir("z"), file("a"), dir("c")]);
    let names: Vec<&str> = sorted.iter().map(|e| e.info.name.as_str()).collect();
    assert_eq!(names, vec!["c", "z", "a", "b", "l"]);
    assert!(sort_entries(Vec::new()).is_empty());
}

#[test]
fn menu_commands_and_labels() {
    match file("notes.txt").menu_command() {
        Some(ExplorerCommand::SetPreview(Some(p))) => assert_eq!(p, "/d/notes.txt"),
        other => panic!("unexpected {:?}", other),
    }
    match dir("src").menu_command() {
        Some(ExplorerCommand::SetDirectory(p)) => assert_eq!(p, "/d/src"),
        other => panic!("unexpected {:?}", other),
    }
    let f = file("notes.txt");
    assert_eq!(f.stem_label(), Some("notes".to_string()));
    assert_eq!(f.extension_label(), Some("txt".to_string()));
    assert_eq!(dir("src").extension_label(), None);
    assert_eq!(f.path(), "/d/notes.txt");
}

#[test]
fn loader_results() {
    let (loaded, event) = loader_finished("/d".to_string(), 7, Ok(vec![file("a")]));
    let loaded = loaded.unwrap();
    assert_eq!(loaded.id, 7);
    assert_eq!(loaded.entries.len(), 1);
    assert!(matches!(event, FsEvent::DirectoryResolved { ref path, id: 7 } if path == "/d"));
    let (loaded, event) = loader_finished("/d".to_string(), 7, Err("gone".to_string()));
    assert!(loaded.is_none());
    assert!(matches!(event, FsEvent::IoError(ref m) if m == "gone"));
}

#[test]
fn listing_follows_current_directory() {
    let loaded = vec![
        LoadedDirectory { id: 1, path: "/a".to_string(), entries: vec![] },
        LoadedDirectory { id: 2, path: "/b".to_string(), entries: vec![file("x")] },
    ];
    let events = vec![
        FsEvent::DirectoryResolved { path: "/b".to_string(), id: 2 },
        FsEvent::DirectoryResolved { path: "/a".to_string(), id: 1 },
        FsEvent::IoError("e".to_string()),
    ];
    assert_eq!(update_directory_entries(&events, &"/b".to_string(), &loaded), Some(1));
    assert_eq!(update_directory_entries(&events, &"/a".to_string(), &loaded), Some(0));
    assert_eq!(update_directory_entries(&events, &"/c".to_string(), &loaded), None);
    let stale = vec![FsEvent::DirectoryResolved { path: "/a".to_string(), id: 2 }];
    assert_eq!(update_directory_entries(&stale, &"/a".to_string(), &loaded), None);
}

#[test]
fn bridge_forwards_events() {
    let events = vec![
        FsEvent::NotADirectory("/x.txt".to_string()),
        FsEvent::DirectoryChanged("/d".to_string()),
        FsEvent::NotADirectory("/y.txt".to_string()),
    ];
    assert!(forward_directory_changed(&events));
    assert!(!forward_directory_changed(&vec![FsEvent::IoError("e".to_string())]));
    match forward_not_a_directory(&events) {
        Some(ExplorerCommand::SetPreview(Some(p))) => assert_eq!(p, "/y.txt"),
        other => panic!("unexpected {:?}", other),
    }
    assert!(forward_not_a_directory(&Vec::new()).is_none());
    let reqs = vec![DirectoryChangeRequest("a".to_string()), DirectoryChangeRequest("/b".to_string())];
    let cmds = forward_directory_change_request(&reqs);
    let paths: Vec<String> =
        cmds.into_iter().map(|FsCommand::ChangeDirectory(p)| p).collect();
    assert_eq!(paths, vec!["a".to_string(), "/b".to_string()]);
    let out = bridge_plugin(&events, &reqs);
    assert!(out.directory_changed);
    assert_eq!(out.fs_commands.len(), 2);
    assert!(out.preview.is_some());
}

#[test]
fn preview_modes() {
    assert!(matches!(preview_mode("/d/a.png"), PreviewMode::Image(ref e) if e == "png"));
    assert!(matches!(preview_mode("/d/a.webp"), PreviewMode::Image(ref e) if e == "webp"));
    assert!(matches!(preview_mode("/d/a.jpeg"), PreviewMode::Text));
    assert!(matches!(preview_mode("/d/png"), PreviewMode::Text));
    assert!(matches!(preview_mode("/"), PreviewMode::Text));
}

#[test]
fn location_selection() {
    let s = LocationSelectionUpdated::split_at("/home", 2);
    assert_eq!((s.before.as_str(), s.selected.as_str(), s.after.as_str()), ("/h", "o", "me"));
    let s = LocationSelectionUpdated::split_at("/home", 9);
    assert_eq!((s.before.as_str(), s.selected.as_str(), s.after.as_str()), ("/home", "", ""));
    let s = LocationSelectionUpdated::split_at("/hé/x", 2);
    assert_eq!((s.before.as_str(), s.selected.as_str(), s.after.as_str()), ("/h", "é", "/x"));
    let s = LocationSelectionUpdated::new_no_selection("/home".to_string());
    assert_eq!((s.before.as_str(), s.selected.as_str(), s.after.as_str()), ("/home", "", ""));
    let s = LocationSelectionUpdated::new("a".to_string(), "b".to_string(), "c".to_string());
    assert_eq!(s.after, "c");
}

#[test]
fn view_state_returns_to_stable() {
    assert_eq!(view_state_plugin(ViewState::Unstable), Some(ViewState::Stable));
    assert_eq!(view_state_plugin(ViewState::Stable), None);
    assert_eq!(ViewState::default(), ViewState::Unstable);
}

#[test]
fn scene_path_suffix() {
    let p: Vec<String> = vec!["main".into(), "root".into(), "footer".into()];
    assert!(path_ends_with(&p, &vec!["footer".to_string()]));
    assert!(path_ends_with(&p, &vec![]));
    assert!(!path_ends_with(&p, &vec!["root".to_string()]));
    assert!(!path_ends_with(&vec![], &vec!["footer".to_string()]));
}

#[test]
fn scene_path_trait() {
    let p = ScenePath { names: vec!["root".to_string(), "header".to_string()] };
    assert_eq!(p.path_vec(), vec!["root".to_string(), "header".to_string()]);
    assert!(p.path_ends_with(&vec!["header".to_string()]));
    assert!(!p.path_ends_with(&vec!["footer".to_string()]));
}

#[test]
fn change_tab_queues_command() {
    let mut sent: Vec<AppCommand> = vec![AppCommand::RebuildUi];
    sent.change_tab(AppTab::Settings);
    assert_eq!(sent, vec![AppCommand::RebuildUi, AppCommand::ChangeTab(AppTab::Settings)]);
}
