//! The application state: the dual-representation package graph, the
//! currently focused package, the selection history, and the pending
//! selection mailbox the event-handling step writes and the per-frame
//! update drains.
//!
//! The incremental builder lives here: given a package's record, it adds
//! or updates the package's node and one node and edge per dependency,
//! placing newcomers evenly along a horizontal row under the focus node.

use vstd::prelude::*;

use crate::fgraph::{EguiForceGraph, Node, Pos2};
use crate::force::clamp_spec;
use crate::package_info::{PackageInfo, PackageName};

verus! {

/// Whether some label in the sequence reads `name`.
pub open spec fn has_lbl(labels: Seq<Seq<char>>, name: Seq<char>) -> bool {
    exists|i: int| 0 <= i < labels.len() && #[trigger] labels[i] == name
}

/// The index of the label reading `name`; meaningful when labels are
/// unique and `name` occurs.
pub open spec fn idx_of(labels: Seq<Seq<char>>, name: Seq<char>) -> int {
    choose|i: int| 0 <= i < labels.len() && #[trigger] labels[i] == name
}

/// No two nodes carry the same label.
pub open spec fn labels_unique(labels: Seq<Seq<char>>) -> bool {
    forall|i: int, j: int| 0 <= i < j < labels.len() ==> #[trigger] labels[i] != #[trigger] labels[j]
}

/// The abstract content of the dual graph: labels, payloads and rendered
/// positions of the store, the simulator's points, and the edges as index
/// pairs.
pub ghost struct GraphModel {
    pub labels: Seq<Seq<char>>,
    pub payloads: Seq<Option<PackageInfo>>,
    pub positions: Seq<Pos2>,
    pub sim_points: Seq<Pos2>,
    pub edges: Seq<(int, int)>,
}

/// Where dependency `k` of `n` stands relative to the base position:
/// evenly spaced along a horizontal row centered under the base, with a
/// fixed separation, clamped to the representable range.
pub open spec fn dep_position_spec(base: Pos2, k: int, n: int) -> Pos2 {
    Pos2 {
        x: clamp_spec(base.x + 15 * (2 * k + 1 - n), i64::MIN as int, i64::MAX as int) as i64,
        y: clamp_spec(base.y + 30, i64::MIN as int, i64::MAX as int) as i64,
    }
}

/// How adding one package changes the model: an existing label keeps its
/// node and position and only takes the new payload; a new label appends
/// a node at the given position to both representations. The second
/// component is the node's identity.
pub open spec fn add_package_model(
    m: GraphModel,
    name: Seq<char>,
    pio: Option<PackageInfo>,
    pos: Pos2,
) -> (GraphModel, int) {
    if has_lbl(m.labels, name) {
        let i = idx_of(m.labels, name);
        (
            GraphModel {
                labels: m.labels,
                payloads: m.payloads.update(i, pio),
                positions: m.positions,
                sim_points: m.sim_points,
                edges: m.edges,
            },
            i,
        )
    } else {
        (
            GraphModel {
                labels: m.labels.push(name),
                payloads: m.payloads.push(pio),
                positions: m.positions.push(pos),
                sim_points: m.sim_points.push(pos),
                edges: m.edges,
            },
            m.labels.len() as int,
        )
    }
}

/// How adding one dependency node changes the model: an existing label
/// is left entirely untouched, so a resolved dependency keeps its record
/// and its position; a new label appends an unresolved node at the given
/// position to both representations. The second component is the node's
/// identity.
pub open spec fn add_dep_node_model(m: GraphModel, name: Seq<char>, pos: Pos2) -> (
    GraphModel,
    int,
) {
    if has_lbl(m.labels, name) {
        (m, idx_of(m.labels, name))
    } else {
        (
            GraphModel {
                labels: m.labels.push(name),
                payloads: m.payloads.push(None),
                positions: m.positions.push(pos),
                sim_points: m.sim_points.push(pos),
                edges: m.edges,
            },
            m.labels.len() as int,
        )
    }
}

/// How adding the first `k` dependencies changes the model: each new one
/// is added unresolved at its row position, an existing one is left as it
/// is, and each is joined to the parent by one new edge, in declaration
/// order.
pub open spec fn add_deps_model(
    m: GraphModel,
    ni: int,
    base: Pos2,
    deps: Seq<Seq<char>>,
    k: int,
) -> GraphModel
    decreases k,
{
    if k <= 0 {
        m
    } else {
        let prev = add_deps_model(m, ni, base, deps, k - 1);
        let step = add_dep_node_model(prev, deps[k - 1], dep_position_spec(base, k - 1, deps.len() as int));
        GraphModel {
            labels: step.0.labels,
            payloads: step.0.payloads,
            positions: step.0.positions,
            sim_points: step.0.sim_points,
            edges: step.0.edges.push((ni, step.1)),
        }
    }
}

/// The model's own well-formedness: unique labels, and one payload,
/// position and simulator point per label.
pub open spec fn model_wf(m: GraphModel) -> bool {
    &&& labels_unique(m.labels)
    &&& m.payloads.len() == m.labels.len()
    &&& m.positions.len() == m.labels.len()
    &&& m.sim_points.len() == m.labels.len()
}

/// The base position for new placements: the focused node's position, or
/// the origin when no node carries the focused label.
pub open spec fn base_position_spec(m: GraphModel, cur: Seq<char>) -> Pos2 {
    if has_lbl(m.labels, cur) {
        m.positions[idx_of(m.labels, cur)]
    } else {
        Pos2 { x: 0, y: 0 }
    }
}

/// How resolving one package changes the model: the package's node is
/// added or updated at the base position with its record as payload, then
/// each of its dependencies is added with one edge from the parent. A
/// dependency that already has a node keeps its payload and position: a
/// resolved node never returns to unresolved.
pub open spec fn add_package_and_deps_model(
    m: GraphModel,
    cur: Seq<char>,
    name: Seq<char>,
    pi: PackageInfo,
) -> GraphModel {
    let base = base_position_spec(m, cur);
    let step = add_package_model(m, name, Some(pi), base);
    add_deps_model(step.0, step.1, base, pi@.depends, pi@.depends.len() as int)
}

/// The application state: the focused package, the dual graph of package
/// nodes, the selection history, and the pending selection mailbox.
pub struct Pacmap {
    pub current: String,
    pub package_infos: EguiForceGraph<Option<PackageInfo>, ()>,
    pub history: Vec<PackageName>,
    pub pending_selection: Option<String>,
}

impl Pacmap {
    /// The graph's labels.
    pub open spec fn labels(self) -> Seq<Seq<char>> {
        self.package_infos.labels()
    }

    /// The dual graph is coupled and no label occurs twice.
    pub open spec fn wf(self) -> bool {
        &&& self.package_infos.wf()
        &&& labels_unique(self.labels())
    }

    /// The abstract content of the dual graph.
    pub open spec fn model(self) -> GraphModel {
        GraphModel {
            labels: self.package_infos.labels(),
            payloads: self.package_infos.payloads(),
            positions: self.package_infos.positions(),
            sim_points: self.package_infos.sim_points(),
            edges: self.package_infos.egui_graph.edges@.map_values(
                |e: crate::fgraph::Edge<()>| (e.from as int, e.to as int),
            ),
        }
    }

    /// A fresh state focused on `current`, with an empty graph, that one
    /// name as the whole history, and no pending selection.
    pub fn new(current: String) -> (r: Self)
        ensures
            r.wf(),
            r.current@ == current@,
            r.labels().len() == 0,
            r.model().edges.len() == 0,
            r.history@.map_values(|p: PackageName| p@) == seq![current@],
            r.pending_selection is None,
            r.package_infos.sim_settings == crate::fgraph::SettingsSimulation::default_spec(),
    {
        let first = current.clone();
        let mut history: Vec<PackageName> = Vec::new();
        history.push(PackageName(first));
        let r = Pacmap {
            current,
            package_infos: EguiForceGraph::empty(),
            history,
            pending_selection: None,
        };
        proof {
            assert(r.history@.map_values(|p: PackageName| p@) =~= seq![r.current@]);
            assert(r.model().edges =~= Seq::<(int, int)>::empty());
        }
        r
    }

    /// The identity of the node labelled `name`, if any.
    pub fn lookup(&self, name: &String) -> (r: Option<usize>)
        ensures
            match r {
                Some(i) => i < self.labels().len() && self.labels()[i as int] == name@,
                None => !has_lbl(self.labels(), name@),
            },
    {
        let n: usize = self.package_infos.egui_graph.nodes.len();
        for i in 0..n
            invariant
                n == self.package_infos.egui_graph.nodes@.len(),
                forall|j: int| 0 <= j < i ==> #[trigger] self.labels()[j] != name@,
        {
            if crate::assoc::str_eq(self.package_infos.egui_graph.nodes[i].label.as_str(), name.as_str()) {
                proof {
                    assert(self.labels()[i as int] == self.package_infos.egui_graph.nodes@[i as int].label@);
                }
                return Some(i);
            }
            proof {
                assert(self.labels()[i as int] == self.package_infos.egui_graph.nodes@[i as int].label@);
            }
        }
        None
    }

    /// The node of the package named `name`, if present.
    pub fn get_package_node(&self, name: &String) -> (r: Option<&Node<Option<PackageInfo>>>)
        ensures
            match r {
                Some(nd) => has_lbl(self.labels(), name@) && (exists|i: int|
                    0 <= i < self.labels().len() && #[trigger] self.labels()[i] == name@ && *nd
                        == self.package_infos.egui_graph.nodes@[i]),
                None => !has_lbl(self.labels(), name@),
            },
    {
        match self.lookup(name) {
            Some(i) => self.package_infos.egui_graph.node(i),
            None => None,
        }
    }

    /// The record of the package named `name`, if present and resolved.
    pub fn get_package_info(&self, name: &String) -> (r: Option<&PackageInfo>)
        ensures
            match r {
                Some(pi) => exists|i: int|
                    0 <= i < self.labels().len() && #[trigger] self.labels()[i] == name@
                        && self.model().payloads[i] == Some(*pi),
                None => !has_lbl(self.labels(), name@) || (exists|i: int|
                    0 <= i < self.labels().len() && #[trigger] self.labels()[i] == name@
                        && self.model().payloads[i] is None),
            },
    {
        match self.lookup(name) {
            Some(i) => {
                proof {
                    assert(self.model().payloads[i as int]
                        == self.package_infos.egui_graph.nodes@[i as int].payload);
                }
                match &self.package_infos.egui_graph.nodes[i].payload {
                    Some(pi) => Some(pi),
                    None => None,
                }
            },
            None => None,
        }
    }

    /// Whether a selection of `name` must query the collaborator first:
    /// true exactly when no node carries that label yet.
    pub fn needs_query(&self, name: &String) -> (b: bool)
        ensures
            b == !has_lbl(self.labels(), name@),
    {
        match self.lookup(name) {
            Some(_) => false,
            None => true,
        }
    }

    /// Whether the focus panel needs a query for `name`: the node exists
    /// but its record has not been fetched.
    pub fn wants_info_query(&self, name: &String) -> (b: bool)
        requires
            self.wf(),
        ensures
            b == exists|i: int|
                0 <= i < self.labels().len() && #[trigger] self.labels()[i] == name@
                    && self.model().payloads[i] is None,
    {
        match self.lookup(name) {
            Some(i) => {
                proof {
                    assert(self.model().payloads[i as int]
                        == self.package_infos.egui_graph.nodes@[i as int].payload);
                    if self.model().payloads[i as int] is Some {
                        if exists|j: int|
                            0 <= j < self.labels().len() && #[trigger] self.labels()[j] == name@
                                && self.model().payloads[j] is None {
                            let j = choose|j: int|
                                0 <= j < self.labels().len() && #[trigger] self.labels()[j]
                                    == name@ && self.model().payloads[j] is None;
                            assert(self.labels()[i as int] == name@);
                            assert(j != i);
                            assert(false);
                        }
                    }
                }
                self.package_infos.egui_graph.nodes[i].payload.is_none()
            },
            None => false,
        }
    }

    /// Add or update one package: an existing label keeps its node and
    /// position and only takes the new payload, and never gains a
    /// duplicate node; a new label appends a node at `pos` to both
    /// representations. Returns the node's identity.
    pub fn add_package(&mut self, name: String, pio: Option<PackageInfo>, pos: Pos2) -> (gi: usize)
        requires
            old(self).wf(),
        ensures
            final(self).wf(),
            (final(self).model(), gi as int) == add_package_model(
                old(self).model(),
                name@,
                pio,
                pos,
            ),
            gi < final(self).labels().len(),
            final(self).labels()[gi as int] == name@,
            final(self).current == old(self).current,
            final(self).history == old(self).history,
            final(self).pending_selection == old(self).pending_selection,
            final(self).package_infos.sim_settings == old(self).package_infos.sim_settings,
            final(self).package_infos.force == old(self).package_infos.force,
            final(self).package_infos.egui_graph.edges@ == old(self).package_infos.egui_graph.edges@,
    {
        let ghost m0 = self.model();
        match self.lookup(&name) {
            Some(i) => {
                proof {
                    assert(has_lbl(m0.labels, name@));
                    let w = idx_of(m0.labels, name@);
                    assert(0 <= w < m0.labels.len() && m0.labels[w] == name@);
                    if w != i {
                        assert(m0.labels[i as int] == name@);
                        assert(false);
                    }
                }
                self.package_infos.egui_graph.nodes[i].payload = pio;
                proof {
                    assert(self.labels() =~= m0.labels);
                    assert(self.model().payloads =~= m0.payloads.update(i as int, pio));
                    assert(self.model().positions =~= m0.positions);
                    assert(self.model().sim_points =~= m0.sim_points);
                    assert(self.model().edges =~= m0.edges);
                    assert(self.package_infos.egui_graph.edge_pairs()
                        =~= old(self).package_infos.egui_graph.edge_pairs());
                }
                i
            },
            None => {
                let gi = self.package_infos.add_node_with_label_and_location(pio, name, pos);
                proof {
                    assert(!has_lbl(m0.labels, name@));
                    assert(self.model().edges =~= m0.edges);
                    assert(labels_unique(self.labels()));
                }
                gi
            },
        }
    }

    /// Add a dependency node: an existing label is left entirely
    /// untouched, so a resolved dependency keeps its record and its
    /// position; a new label is appended unresolved at `pos`. Returns the
    /// node's identity.
    pub fn add_dep_node(&mut self, name: String, pos: Pos2) -> (di: usize)
        requires
            old(self).wf(),
        ensures
            final(self).wf(),
            (final(self).model(), di as int) == add_dep_node_model(old(self).model(), name@, pos),
            di < final(self).labels().len(),
            final(self).labels()[di as int] == name@,
            final(self).current == old(self).current,
            final(self).history == old(self).history,
            final(self).pending_selection == old(self).pending_selection,
            final(self).package_infos.sim_settings == old(self).package_infos.sim_settings,
            final(self).package_infos.force == old(self).package_infos.force,
            final(self).package_infos.egui_graph.edges@ == old(self).package_infos.egui_graph.edges@,
    {
        let ghost m0 = self.model();
        match self.lookup(&name) {
            Some(i) => {
                proof {
                    assert(has_lbl(m0.labels, name@));
                    let w = idx_of(m0.labels, name@);
                    assert(0 <= w < m0.labels.len() && m0.labels[w] == name@);
                    if w != i {
                        assert(m0.labels[i as int] == name@);
                        assert(false);
                    }
                }
                i
            },
            None => {
                let di = self.package_infos.add_node_with_label_and_location(None, name, pos);
                proof {
                    assert(!has_lbl(m0.labels, name@));
                    assert(self.model().edges =~= m0.edges);
                    assert(labels_unique(self.labels()));
                }
                di
            },
        }
    }

    /// The position new placements start from: the focused node's
    /// position, or the origin.
    fn base_position(&self) -> (r: Pos2)
        requires
            self.wf(),
        ensures
            r == base_position_spec(self.model(), self.current@),
    {
        match self.lookup(&self.current) {
            Some(i) => {
                proof {
                    let w = idx_of(self.labels(), self.current@);
                    assert(0 <= w < self.labels().len() && self.labels()[w] == self.current@);
                    if w != i {
                        assert(self.labels()[i as int] == self.current@);
                        assert(false);
                    }
                    assert(self.model().positions[i as int]
                        == self.package_infos.egui_graph.nodes@[i as int].pos);
                }
                self.package_infos.egui_graph.nodes[i].pos
            },
            None => Pos2::zero(),
        }
    }

    /// Resolve one package: add or update its node at the base position
    /// with the record as payload, then add each dependency in declaration
    /// order, with one edge from the parent, exactly as
    /// `add_package_and_deps_model` states. A new dependency is placed
    /// unresolved on the row under the base; one that already has a node
    /// keeps its payload and its position, so re-resolving never moves a
    /// node and never sends a resolved node back to unresolved
    /// (`lemma_resolve_touches_only_the_parent`).
    pub fn add_package_and_deps(&mut self, name: String, pi: PackageInfo)
        requires
            old(self).wf(),
        ensures
            final(self).wf(),
            final(self).model() == add_package_and_deps_model(
                old(self).model(),
                old(self).current@,
                name@,
                pi,
            ),
            final(self).current == old(self).current,
            final(self).history == old(self).history,
            final(self).pending_selection == old(self).pending_selection,
            final(self).package_infos.sim_settings == old(self).package_infos.sim_settings,
    {
        let ghost m0 = self.model();
        let base: Pos2 = self.base_position();
        let nd: usize = pi.depends.len();
        let mut dep_names: Vec<String> = Vec::new();
        for k in 0..nd
            invariant
                nd == pi.depends@.len(),
                dep_names@.len() == k,
                forall|j: int| 0 <= j < k ==> #[trigger] dep_names@[j]@ == pi@.depends[j],
        {
            let dn: String = pi.depends[k].0.clone();
            proof {
                assert(pi@.depends[k as int] == pi.depends@[k as int]@);
            }
            dep_names.push(dn);
        }
        let ghost deps_v = pi@.depends;
        let ni: usize = self.add_package(name, Some(pi), base);
        let ghost m1 = self.model();
        proof {
            assert(add_deps_model(m1, ni as int, base, deps_v, 0) == m1);
        }
        for k in 0..nd
            invariant
                self.wf(),
                nd == deps_v.len(),
                dep_names@.len() == nd,
                forall|j: int| 0 <= j < nd ==> #[trigger] dep_names@[j]@ == deps_v[j],
                ni < self.labels().len(),
                self.model() == add_deps_model(m1, ni as int, base, deps_v, k as int),
                self.current == old(self).current,
                self.history == old(self).history,
                self.pending_selection == old(self).pending_selection,
                self.package_infos.sim_settings == old(self).package_infos.sim_settings,
        {
            let dpos: Pos2 = dep_position(base, k, nd);
            let dn: String = dep_names[k].clone();
            let di: usize = self.add_dep_node(dn, dpos);
            let ghost mk2 = self.model();
            self.package_infos.add_edge_with_label(ni, di, (), String::new());
            proof {
                assert(self.model().labels =~= mk2.labels);
                assert(self.model().payloads =~= mk2.payloads);
                assert(self.model().positions =~= mk2.positions);
                assert(self.model().sim_points =~= mk2.sim_points);
                assert(self.model().edges =~= mk2.edges.push((ni as int, di as int)));
                assert(self.model() == add_deps_model(m1, ni as int, base, deps_v, k + 1));
                assert(labels_unique(self.labels()));
            }
        }
    }

    /// Commit a selection: when the collaborator produced a record, grow
    /// the graph with it; then append the selected name to the history
    /// and focus it.
    pub fn commit_selection(&mut self, name: String, queried: Option<(String, PackageInfo)>)
        requires
            old(self).wf(),
        ensures
            final(self).wf(),
            match queried {
                Some((n2, pi)) => final(self).model() == add_package_and_deps_model(
                    old(self).model(),
                    old(self).current@,
                    n2@,
                    pi,
                ),
                None => final(self).model() == old(self).model(),
            },
            final(self).current@ == name@,
            final(self).history@.map_values(|p: PackageName| p@) == old(self).history@.map_values(
                |p: PackageName| p@,
            ).push(name@),
            final(self).pending_selection == old(self).pending_selection,
            final(self).package_infos.sim_settings == old(self).package_infos.sim_settings,
    {
        match queried {
            Some((n2, pi)) => {
                self.add_package_and_deps(n2, pi);
            },
            None => {},
        }
        let ghost hv = self.history@.map_values(|p: PackageName| p@);
        self.history.push(PackageName(name.clone()));
        proof {
            assert(self.history@.map_values(|p: PackageName| p@) =~= hv.push(name@));
        }
        self.current = name;
    }

    /// Drain the pending selection mailbox.
    pub fn take_pending_selection(&mut self) -> (r: Option<String>)
        ensures
            r == old(self).pending_selection,
            final(self).pending_selection is None,
            final(self).current == old(self).current,
            final(self).history == old(self).history,
            final(self).package_infos == old(self).package_infos,
    {
        self.pending_selection.take()
    }

    /// Record a clicked label for the next frame to handle.
    pub fn set_pending_selection(&mut self, name: String)
        ensures
            final(self).pending_selection == Some(name),
            final(self).current == old(self).current,
            final(self).history == old(self).history,
            final(self).package_infos == old(self).package_infos,
    {
        self.pending_selection = Some(name);
    }

    /// One frame of the sync protocol over the package graph: absorb
    /// user-moved positions, step the simulation when active, publish the
    /// computed points. Labels, payloads, edges and the focus never
    /// change; with the simulation inactive every position stays exactly
    /// where the user put it.
    pub fn update(&mut self)
        requires
            old(self).wf(),
        ensures
            final(self).wf(),
            final(self).labels() == old(self).labels(),
            final(self).model().payloads == old(self).model().payloads,
            final(self).model().edges == old(self).model().edges,
            final(self).model().positions == final(self).model().sim_points,
            !old(self).package_infos.sim_settings.active ==> final(self).model().positions == old(
                self,
            ).model().positions,
            final(self).current == old(self).current,
            final(self).history == old(self).history,
            final(self).pending_selection == old(self).pending_selection,
            final(self).package_infos.sim_settings == old(self).package_infos.sim_settings,
    {
        self.package_infos.update();
        proof {
            assert(self.model().payloads =~= old(self).model().payloads);
            assert(self.model().edges =~= old(self).model().edges);
        }
    }
}


/// A well-formed state's model is itself well-formed.
pub proof fn lemma_wf_model(p: Pacmap)
    requires
        p.wf(),
    ensures
        model_wf(p.model()),
{
}

/// Adding dependencies only appends: every pre-existing node keeps its
/// label, payload, position and simulator point; appended nodes are
/// unresolved; exactly `k` edges are appended, each from the parent.
proof fn lemma_add_deps_model_frame(m: GraphModel, ni: int, base: Pos2, deps: Seq<Seq<char>>, k: int)
    requires
        0 <= k,
        model_wf(m),
    ensures
        ({
            let r = add_deps_model(m, ni, base, deps, k);
            &&& model_wf(r)
            &&& m.labels.len() <= r.labels.len()
            &&& forall|j: int| 0 <= j < m.labels.len() ==> #[trigger] r.labels[j] == m.labels[j]
            &&& forall|j: int| 0 <= j < m.labels.len() ==> #[trigger] r.payloads[j] == m.payloads[j]
            &&& forall|j: int|
                0 <= j < m.labels.len() ==> #[trigger] r.positions[j] == m.positions[j]
            &&& forall|j: int|
                0 <= j < m.labels.len() ==> #[trigger] r.sim_points[j] == m.sim_points[j]
            &&& forall|j: int|
                m.labels.len() <= j < r.labels.len() ==> (#[trigger] r.payloads[j]) is None
            &&& r.edges.len() == m.edges.len() + k
            &&& forall|j: int| 0 <= j < m.edges.len() ==> #[trigger] r.edges[j] == m.edges[j]
            &&& forall|j: int|
                m.edges.len() <= j < r.edges.len() ==> (#[trigger] r.edges[j]).0 == ni
        }),
    decreases k,
{
    if k <= 0 {
    } else {
        lemma_add_deps_model_frame(m, ni, base, deps, k - 1);
        let prev = add_deps_model(m, ni, base, deps, k - 1);
        let name = deps[k - 1];
        if has_lbl(prev.labels, name) {
        } else {
            assert forall|i: int, j: int|
                0 <= i < j < prev.labels.len() + 1 implies (#[trigger] prev.labels.push(name)[i])
                    != (#[trigger] prev.labels.push(name)[j]) by {
                if j < prev.labels.len() {
                    assert(prev.labels[i] != prev.labels[j]);
                } else {
                    assert(prev.labels.push(name)[j] == name);
                    assert(prev.labels[i] == prev.labels.push(name)[i]);
                }
            }
        }
    }
}

/// Resolving a package touches only the parent's payload and the edges:
/// afterwards the node for `name` carries `Some(pi)`; every other
/// pre-existing node keeps its payload; every pre-existing node keeps its
/// label and its position in both representations; labels stay unique,
/// so no duplicate node arises;
/// and exactly one edge per dependency is appended, each from the
/// parent's node.
pub proof fn lemma_resolve_touches_only_the_parent(
    m: GraphModel,
    cur: Seq<char>,
    name: Seq<char>,
    pi: PackageInfo,
)
    requires
        model_wf(m),
    ensures
        ({
            let r = add_package_and_deps_model(m, cur, name, pi);
            &&& model_wf(r)
            &&& has_lbl(r.labels, name)
            &&& r.payloads[idx_of(r.labels, name)] == Some(pi)
            &&& forall|j: int|
                0 <= j < m.labels.len() && m.labels[j] != name ==> #[trigger] r.payloads[j]
                    == m.payloads[j]
            &&& forall|j: int| 0 <= j < m.labels.len() ==> #[trigger] r.labels[j] == m.labels[j]
            &&& forall|j: int|
                0 <= j < m.labels.len() ==> #[trigger] r.positions[j] == m.positions[j]
            &&& forall|j: int|
                0 <= j < m.labels.len() ==> #[trigger] r.sim_points[j] == m.sim_points[j]
            &&& r.edges.len() == m.edges.len() + pi@.depends.len()
            &&& forall|j: int| 0 <= j < m.edges.len() ==> #[trigger] r.edges[j] == m.edges[j]
            &&& forall|j: int|
                m.edges.len() <= j < r.edges.len() ==> (#[trigger] r.edges[j]).0 == idx_of(
                    r.labels,
                    name,
                )
        }),
{
    let base = base_position_spec(m, cur);
    let s1 = add_package_model(m, name, Some(pi), base);
    let m1 = s1.0;
    let ni = s1.1;
    let r = add_package_and_deps_model(m, cur, name, pi);
    if has_lbl(m.labels, name) {
        let w = idx_of(m.labels, name);
        assert(0 <= w < m.labels.len() && m.labels[w] == name);
        assert(m1.labels == m.labels);
        assert(m1.payloads[ni] == Some(pi));
    } else {
        assert(m1.labels.last() == name);
        assert(m1.payloads[ni] == Some(pi));
        assert forall|i: int, j: int|
            0 <= i < j < m1.labels.len() implies (#[trigger] m1.labels[i]) != (
        #[trigger] m1.labels[j]) by {
            if j < m.labels.len() {
                assert(m.labels[i] != m.labels[j]);
            } else {
                assert(m1.labels[j] == name);
                assert(m1.labels[i] == m.labels[i]);
            }
        }
    }
    assert(model_wf(m1));
    assert(0 <= ni < m1.labels.len() && m1.labels[ni] == name);
    lemma_add_deps_model_frame(m1, ni, base, pi@.depends, pi@.depends.len() as int);
    assert(r.labels[ni] == name);
    assert(has_lbl(r.labels, name));
    let w2 = idx_of(r.labels, name);
    assert(0 <= w2 < r.labels.len() && r.labels[w2] == name);
    if w2 != ni {
        assert(false);
    }
    assert(r.payloads[ni] == m1.payloads[ni]);
}

/// Where dependency `k` of `n` is placed relative to `base`, exactly as
/// `dep_position_spec` states.
fn dep_position(base: Pos2, k: usize, n: usize) -> (r: Pos2)
    requires
        k < n,
    ensures
        r == dep_position_spec(base, k as int, n as int),
{
    let x: i128 = base.x as i128 + 15 * (2 * (k as i128) + 1 - (n as i128));
    let y: i128 = base.y as i128 + 30;
    Pos2 { x: crate::force::clamp_to_i64(x), y: crate::force::clamp_to_i64(y) }
}

} // verus!
