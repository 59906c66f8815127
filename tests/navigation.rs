use corvus::explorer::{
    update_tab_content_on_app_command, AppCommand, AppTab, DirOutcome, Effect, Explorer,
    ExplorerCommand, Request, TabUpdate,
};

fn enter_path(r: Request) -> (String, bool) {
    match r {
        Request::Enter { path, record } => (path, record),
        other => panic!("expected Enter, got {:?}", other),
    }
}

/// Runs one command, taking every path as canonical and every directory as enterable.
fn navigate(e: &mut Explorer, cmd: ExplorerCommand) -> Option<Effect> {
    match e.begin(cmd) {
        Request::Enter { path, record } => {
            if e.needs_change(&path) {
                Some(e.enter(path, DirOutcome::Entered, record))
            } else {
                None
            }
        }
        _ => None,
    }
}

#[test]
fn set_directory_relative_joins_current() {
    let mut e = Explorer::new("/home".to_string());
    let (path, record) = enter_path(e.begin(ExplorerCommand::SetDirectory("user".to_string())));
    assert_eq!(path, "/home/user");
    assert!(record);
    assert_eq!(e.current, "/home");
}

#[test]
fn relative_and_absolute_request_agree() {
    let mut e = Explorer::new("/home".to_string());
    let (rel, _) = enter_path(e.begin(ExplorerCommand::SetDirectory("user".to_string())));
    let (abs, _) = enter_path(e.begin(ExplorerCommand::SetDirectory("/home/user".to_string())));
    assert_eq!(rel, abs);
}

#[test]
fn entering_pushes_history_and_clears_preview() {
    let mut e = Explorer::new("/a".to_string());
    e.set_preview(Some("/a/f.txt".to_string()));
    let eff = navigate(&mut e, ExplorerCommand::SetDirectory("/b".to_string()));
    assert!(matches!(eff, Some(Effect::Changed)));
    assert_eq!(e.current, "/b");
    assert_eq!(e.history.back, vec!["/a".to_string()]);
    assert!(e.history.next.is_empty());
    assert_eq!(e.preview, None);
}

#[test]
fn entering_current_directory_changes_nothing() {
    let mut e = Explorer::new("/a".to_string());
    assert!(!e.needs_change(&"/a".to_string()));
    let eff = e.enter("/a".to_string(), DirOutcome::Entered, true);
    assert!(matches!(eff, Effect::Unchanged));
    assert!(e.history.back.is_empty());
}

#[test]
fn not_a_directory_becomes_preview() {
    let mut e = Explorer::new("/a".to_string());
    let eff = e.enter("/a/notes.txt".to_string(), DirOutcome::NotADirectory, true);
    assert!(matches!(eff, Effect::Previewed));
    assert_eq!(e.current, "/a");
    assert!(e.history.back.is_empty());
    assert_eq!(e.preview, Some("/a/notes.txt".to_string()));
}

#[test]
fn other_failure_leaves_state() {
    let mut e = Explorer::new("/a".to_string());
    let eff = e.enter("/root".to_string(), DirOutcome::Failed("permission denied".to_string()), true);
    match eff {
        Effect::Failed(m) => assert_eq!(m, "permission denied"),
        other => panic!("unexpected {:?}", other),
    }
    assert_eq!(e.current, "/a");
    assert!(e.history.back.is_empty());
    assert_eq!(e.preview, None);
}

#[test]
fn back_then_forward_restores_directory() {
    let mut e = Explorer::new("/d0".to_string());
    for d in ["/d1", "/d2", "/d3"] {
        navigate(&mut e, ExplorerCommand::SetDirectory(d.to_string()));
    }
    assert_eq!(e.current, "/d3");
    let back = e.history.back.clone();
    for _ in 0..3 {
        navigate(&mut e, ExplorerCommand::HistoryBack);
    }
    assert_eq!(e.current, "/d0");
    assert!(e.history.back.is_empty());
    for _ in 0..3 {
        navigate(&mut e, ExplorerCommand::HistoryNext);
    }
    assert_eq!(e.current, "/d3");
    assert_eq!(e.history.back, back);
    assert!(e.history.next.is_empty());
}

#[test]
fn back_steps_one_at_a_time() {
    let mut e = Explorer::new("/d0".to_string());
    navigate(&mut e, ExplorerCommand::SetDirectory("/d1".to_string()));
    navigate(&mut e, ExplorerCommand::SetDirectory("/d2".to_string()));
    navigate(&mut e, ExplorerCommand::HistoryBack);
    assert_eq!(e.current, "/d1");
    navigate(&mut e, ExplorerCommand::HistoryBack);
    assert_eq!(e.current, "/d0");
    navigate(&mut e, ExplorerCommand::HistoryNext);
    assert_eq!(e.current, "/d1");
    navigate(&mut e, ExplorerCommand::HistoryNext);
    assert_eq!(e.current, "/d2");
}

#[test]
fn empty_history_asks_nothing() {
    let mut e = Explorer::new("/a".to_string());
    assert!(matches!(e.begin(ExplorerCommand::HistoryBack), Request::Nothing));
    assert!(matches!(e.begin(ExplorerCommand::HistoryNext), Request::Nothing));
}

#[test]
fn goto_parent_requests_parent() {
    let mut e = Explorer::new("/a/b".to_string());
    let (path, record) = enter_path(e.begin(ExplorerCommand::GotoParent));
    assert_eq!(path, "/a");
    assert!(record);
    let mut root = Explorer::new("/".to_string());
    assert!(matches!(root.begin(ExplorerCommand::GotoParent), Request::Nothing));
}

#[test]
fn reload_shows_main_tab() {
    let mut e = Explorer::new("/a".to_string());
    assert!(matches!(e.begin(ExplorerCommand::Reload), Request::ChangeTab(AppTab::Main)));
}

#[test]
fn set_preview_is_handed_on() {
    let mut e = Explorer::new("/a".to_string());
    match e.begin(ExplorerCommand::SetPreview(Some("x.txt".to_string()))) {
        Request::Preview(p) => assert_eq!(p, Some("x.txt".to_string())),
        other => panic!("unexpected {:?}", other),
    }
    e.set_preview(Some("/a/x.txt".to_string()));
    assert_eq!(e.preview, Some("/a/x.txt".to_string()));
    e.clear_preview();
    assert_eq!(e.preview, None);
}

#[test]
fn app_commands_update_tabs() {
    assert_eq!(update_tab_content_on_app_command(AppCommand::RebuildUi), TabUpdate::Rebuild);
    assert_eq!(
        update_tab_content_on_app_command(AppCommand::ChangeTab(AppTab::Settings)),
        TabUpdate::Show(AppTab::Settings)
    );
    assert_eq!(AppTab::default(), AppTab::Main);
}
