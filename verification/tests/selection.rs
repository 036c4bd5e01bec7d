use pacmap::package_info::PackageInfo;
use pacmap::state::Pacmap;

fn record(name: &str, deps: &str) -> PackageInfo {
    let text = format!(
        "Name : {}\nDepends On : {}\nRequired By : None\nInstalled Size : 1.00 KiB\n",
        name, deps
    );
    PackageInfo::parse(&text).unwrap().1
}

#[test]
fn new_state_has_focus_and_history() {
    let app = Pacmap::new(String::from("pacman"));
    assert_eq!(app.current, "pacman");
    assert_eq!(app.history.len(), 1);
    assert_eq!(app.history[0].0, "pacman");
    assert!(app.pending_selection.is_none());
    assert!(app.package_infos.egui_graph.nodes.is_empty());
}

#[test]
fn pending_selection_mailbox_drains() {
    let mut app = Pacmap::new(String::from("pacman"));
    app.set_pending_selection(String::from("glibc"));
    assert_eq!(app.take_pending_selection(), Some(String::from("glibc")));
    assert_eq!(app.take_pending_selection(), None);
}

#[test]
fn commit_selection_with_record_grows_graph() {
    let mut app = Pacmap::new(String::from("pacman"));
    assert!(app.needs_query(&String::from("glibc")));
    app.commit_selection(String::from("glibc"), Some((String::from("glibc"), record("glibc", "ld"))));
    assert_eq!(app.current, "glibc");
    assert_eq!(app.history.len(), 2);
    assert_eq!(app.history[1].0, "glibc");
    assert_eq!(app.package_infos.egui_graph.nodes.len(), 2);
    assert!(!app.needs_query(&String::from("glibc")));
}

#[test]
fn commit_selection_without_record_only_refocuses() {
    let mut app = Pacmap::new(String::from("pacman"));
    app.commit_selection(String::from("missing"), None);
    assert_eq!(app.current, "missing");
    assert_eq!(app.history.len(), 2);
    assert!(app.package_infos.egui_graph.nodes.is_empty());
}

#[test]
fn lookup_and_node_access() {
    let mut app = Pacmap::new(String::from("root"));
    app.add_package_and_deps(String::from("root"), record("root", "a"));
    assert_eq!(app.lookup(&String::from("root")), Some(0));
    assert_eq!(app.lookup(&String::from("a")), Some(1));
    assert_eq!(app.lookup(&String::from("zzz")), None);
    let nd = app.get_package_node(&String::from("a")).unwrap();
    assert_eq!(nd.label, "a");
    assert!(app.get_package_node(&String::from("zzz")).is_none());
}

#[test]
fn unresolved_dependency_wants_info_query() {
    let mut app = Pacmap::new(String::from("root"));
    app.add_package_and_deps(String::from("root"), record("root", "a"));
    assert!(!app.wants_info_query(&String::from("root")));
    assert!(app.wants_info_query(&String::from("a")));
    assert!(!app.wants_info_query(&String::from("zzz")));
    assert!(app.get_package_info(&String::from("root")).is_some());
    assert!(app.get_package_info(&String::from("a")).is_none());
    // resolving the dependency flips it
    app.add_package_and_deps(String::from("a"), record("a", "x"));
    assert!(!app.wants_info_query(&String::from("a")));
    assert!(app.get_package_info(&String::from("a")).is_some());
}

#[test]
fn payload_can_be_resolved_again() {
    let mut app = Pacmap::new(String::from("root"));
    app.add_package_and_deps(String::from("root"), record("root", "a"));
    app.add_package_and_deps(String::from("root"), record("root", "a b"));
    let pi = app.get_package_info(&String::from("root")).unwrap();
    assert_eq!(pi.depends.len(), 2);
}
