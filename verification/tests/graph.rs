use pacmap::fgraph::{EguiForceGraph, GraphStore, Pos2, SettingsSimulation};
use pacmap::package_info::PackageInfo;
use pacmap::state::Pacmap;

fn record(name: &str, deps: &str) -> PackageInfo {
    let text = format!(
        "Name : {}\nDepends On : {}\nRequired By : None\nInstalled Size : 1.00 KiB\n",
        name, deps
    );
    PackageInfo::parse(&text).unwrap().1
}

#[test]
fn settings_default_values() {
    let s = SettingsSimulation::default();
    assert_eq!(s.dt_milli, 35);
    assert_eq!(s.cooloff_milli, 975);
    assert_eq!(s.scale, 45);
    assert!(!s.active);
    assert!(s.is_valid());
}

#[test]
fn readding_label_keeps_position_and_node_count() {
    let mut app = Pacmap::new(String::from("root"));
    let p = Pos2 { x: 7, y: -3 };
    let gi = app.add_package(String::from("foo"), None, p);
    let gj = app.add_package(String::from("foo"), Some(record("foo", "bar")), Pos2 { x: 99, y: 99 });
    assert_eq!(gi, gj);
    assert_eq!(app.package_infos.egui_graph.nodes.len(), 1);
    let nd = &app.package_infos.egui_graph.nodes[gi];
    assert_eq!(nd.pos, p);
    assert!(nd.payload.is_some());
}

#[test]
fn publish_makes_store_equal_simulator() {
    let mut app = Pacmap::new(String::from("root"));
    app.add_package_and_deps(String::from("root"), record("root", "a b c"));
    app.package_infos.sim_settings.active = true;
    app.update();
    let g = &app.package_infos;
    for i in 0..g.egui_graph.nodes.len() {
        assert_eq!(g.egui_graph.nodes[i].pos, g.sim_graph.nodes[i].point);
    }
}

#[test]
fn inactive_update_keeps_dragged_position() {
    let mut app = Pacmap::new(String::from("root"));
    app.add_package_and_deps(String::from("root"), record("root", "a b"));
    let p = Pos2 { x: 1234, y: -777 };
    // a user drag writes the store position directly
    app.package_infos.egui_graph.nodes[1].pos = p;
    assert!(!app.package_infos.sim_settings.active);
    app.update();
    assert_eq!(app.package_infos.egui_graph.nodes[1].pos, p);
}

#[test]
fn four_deps_make_four_nodes_and_edges() {
    let mut app = Pacmap::new(String::from("root"));
    app.add_package_and_deps(String::from("root"), record("root", "a b c d"));
    // the parent plus four dependency nodes
    assert_eq!(app.package_infos.egui_graph.nodes.len(), 5);
    assert_eq!(app.package_infos.egui_graph.edges.len(), 4);
    for e in app.package_infos.egui_graph.edges.iter() {
        assert_eq!(e.from, 0);
    }
    let labels: Vec<&str> = app
        .package_infos
        .egui_graph
        .nodes
        .iter()
        .map(|n| n.label.as_str())
        .collect();
    assert_eq!(labels, vec!["root", "a", "b", "c", "d"]);
}

#[test]
fn readding_resolved_package_moves_nothing() {
    let mut app = Pacmap::new(String::from("root"));
    app.add_package_and_deps(String::from("root"), record("root", "a b"));
    let before: Vec<Pos2> = app.package_infos.egui_graph.nodes.iter().map(|n| n.pos).collect();
    app.add_package_and_deps(String::from("root"), record("root", "a b"));
    let after: Vec<Pos2> = app.package_infos.egui_graph.nodes.iter().map(|n| n.pos).collect();
    assert_eq!(before, after);
    assert_eq!(app.package_infos.egui_graph.nodes.len(), 3);
}

#[test]
fn unique_edge_variant_never_duplicates() {
    let mut g: EguiForceGraph<(), ()> = EguiForceGraph::empty();
    g.add_node_with_label_and_location((), String::from("a"), Pos2 { x: 0, y: 0 });
    g.add_node_with_label_and_location((), String::from("b"), Pos2 { x: 10, y: 0 });
    g.add_edge_with_label_unique(0, 1, (), String::new());
    g.add_edge_with_label_unique(0, 1, (), String::new());
    assert_eq!(g.egui_graph.edges.len(), 1);
    // the plain variant does duplicate
    g.add_edge_with_label(0, 1, (), String::new());
    assert_eq!(g.egui_graph.edges.len(), 2);
}

#[test]
fn dependency_row_is_centered_under_base() {
    let mut app = Pacmap::new(String::from("root"));
    app.add_package_and_deps(String::from("root"), record("root", "a b"));
    // base is the origin: two dependencies sit at -15 and +15, thirty below
    let a = app.package_infos.egui_graph.nodes[1].pos;
    let b = app.package_infos.egui_graph.nodes[2].pos;
    assert_eq!(a, Pos2 { x: -15, y: 30 });
    assert_eq!(b, Pos2 { x: 15, y: 30 });
}

#[test]
fn repulsion_pushes_unconnected_nodes_apart() {
    let mut g: EguiForceGraph<(), ()> = EguiForceGraph::empty();
    g.add_node_with_label_and_location((), String::from("a"), Pos2 { x: 0, y: 0 });
    g.add_node_with_label_and_location((), String::from("b"), Pos2 { x: 10, y: 0 });
    g.sim_settings.active = true;
    g.update();
    // scale 45: term 10*2025/100 = 202, damped 202*35*975/1000000 = 6
    assert_eq!(g.egui_graph.nodes[0].pos, Pos2 { x: -6, y: 0 });
    assert_eq!(g.egui_graph.nodes[1].pos, Pos2 { x: 16, y: 0 });
}

#[test]
fn attraction_pulls_connected_nodes_together() {
    let mut g: EguiForceGraph<(), ()> = EguiForceGraph::empty();
    g.add_node_with_label_and_location((), String::from("a"), Pos2 { x: 0, y: 0 });
    g.add_node_with_label_and_location((), String::from("b"), Pos2 { x: 100, y: 0 });
    g.add_edge_with_label(0, 1, (), String::new());
    g.sim_settings.active = true;
    g.update();
    // repulsion 100*2025/10000 = 20 out, attraction 100*100/45 = 222 in,
    // net 202 toward the peer, damped to 6
    assert_eq!(g.egui_graph.nodes[0].pos, Pos2 { x: 6, y: 0 });
    assert_eq!(g.egui_graph.nodes[1].pos, Pos2 { x: 94, y: 0 });
}

#[test]
fn initial_perturbation_presettles_and_publishes() {
    let mut g: EguiForceGraph<(), ()> = EguiForceGraph::empty();
    g.add_node_with_label_and_location((), String::from("a"), Pos2 { x: 0, y: 0 });
    g.add_node_with_label_and_location((), String::from("b"), Pos2 { x: 10, y: 0 });
    let store: GraphStore<(), ()> = g.egui_graph;
    let g2: EguiForceGraph<(), ()> = EguiForceGraph::new(store, SettingsSimulation::default(), true);
    assert_eq!(g2.egui_graph.nodes[0].pos, Pos2 { x: -6, y: 0 });
    assert_eq!(g2.egui_graph.nodes[1].pos, Pos2 { x: 16, y: 0 });
    assert_eq!(g2.sim_graph.nodes[0].point, Pos2 { x: -6, y: 0 });
}

#[test]
fn construction_without_perturbation_copies_positions() {
    let mut g: EguiForceGraph<(), ()> = EguiForceGraph::empty();
    g.add_node_with_label_and_location((), String::from("a"), Pos2 { x: 3, y: 4 });
    let g2: EguiForceGraph<(), ()> = EguiForceGraph::new(g.egui_graph, SettingsSimulation::default(), false);
    assert_eq!(g2.egui_graph.nodes[0].pos, Pos2 { x: 3, y: 4 });
    assert_eq!(g2.sim_graph.nodes[0].point, Pos2 { x: 3, y: 4 });
    assert_eq!(g2.sim_graph.nodes[0].id, 0);
}

#[test]
fn absorb_copies_store_positions_into_simulator() {
    let mut g: EguiForceGraph<(), ()> = EguiForceGraph::empty();
    g.add_node_with_label_and_location((), String::from("a"), Pos2 { x: 0, y: 0 });
    g.egui_graph.nodes[0].pos = Pos2 { x: 42, y: 17 };
    g.sync_sim_pos_to_graph();
    assert_eq!(g.sim_graph.nodes[0].point, Pos2 { x: 42, y: 17 });
}

#[test]
fn publish_copies_simulator_points_into_store() {
    let mut g: EguiForceGraph<(), ()> = EguiForceGraph::empty();
    g.add_node_with_label_and_location((), String::from("a"), Pos2 { x: 0, y: 0 });
    g.sim_graph.nodes[0].point = Pos2 { x: -5, y: 8 };
    g.sync_graph_pos_to_sim();
    assert_eq!(g.egui_graph.nodes[0].pos, Pos2 { x: -5, y: 8 });
}

#[test]
fn shared_dependency_keeps_its_record() {
    let mut app = Pacmap::new(String::from("root"));
    app.add_package_and_deps(String::from("a"), record("a", "x"));
    let a_pos = app.package_infos.egui_graph.nodes[0].pos;
    // "root" also depends on the already-resolved "a"
    app.add_package_and_deps(String::from("root"), record("root", "a"));
    let i = app.lookup(&String::from("a")).unwrap();
    assert_eq!(app.package_infos.egui_graph.nodes[i].pos, a_pos);
    let pi = app.get_package_info(&String::from("a")).unwrap();
    assert_eq!(pi.depends[0].0, "x");
    assert!(!app.wants_info_query(&String::from("a")));
}

#[test]
fn self_dependency_keeps_the_record() {
    let mut app = Pacmap::new(String::from("root"));
    app.add_package_and_deps(String::from("root"), record("root", "root"));
    assert_eq!(app.package_infos.egui_graph.nodes.len(), 1);
    assert_eq!(app.package_infos.egui_graph.edges.len(), 1);
    assert_eq!(app.package_infos.egui_graph.edges[0].from, 0);
    assert_eq!(app.package_infos.egui_graph.edges[0].to, 0);
    let pi = app.get_package_info(&String::from("root")).unwrap();
    assert_eq!(pi.depends[0].0, "root");
}
