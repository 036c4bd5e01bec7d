//! The dual-representation force graph.
//!
//! `EguiForceGraph` couples an interactive graph store (labels, payloads and
//! user-movable positions) with a mirror simulation graph advanced by the
//! force-directed layout step. The two topologies stay isomorphic: simulator
//! node `i` always points back to store node `i`. A frame's `update` absorbs
//! user-moved positions into the simulator, steps it when active, and
//! publishes the computed points back to the store.

use vstd::prelude::*;

use crate::force::{step_points_spec, step_points_exec, LayoutForce};

verus! {

/// A two-dimensional position in whole-number coordinates.
#[derive(Clone, Copy, PartialEq, Eq, Structural, Debug)]
pub struct Pos2 {
    pub x: i64,
    pub y: i64,
}

impl Pos2 {
    /// The origin.
    pub fn zero() -> (r: Pos2)
        ensures
            r.x == 0 && r.y == 0,
    {
        Pos2 { x: 0, y: 0 }
    }
}

/// Configuration consumed by the layout simulator. The time-step and the
/// cool-off factor are thousandths; `scale` is the ideal spacing between
/// connected nodes; `active` gates the whole simulation.
#[derive(Clone, Copy, PartialEq, Eq, Structural, Debug)]
pub struct SettingsSimulation {
    pub dt_milli: u32,
    pub cooloff_milli: u32,
    pub scale: u32,
    pub active: bool,
}

impl SettingsSimulation {
    /// The parameter ranges the layout step is defined for.
    pub open spec fn wf(self) -> bool {
        &&& 1 <= self.dt_milli <= 1000
        &&& 1 <= self.cooloff_milli <= 1000
        &&& 1 <= self.scale <= 1000
    }

    /// The layout algorithm's own defaults: a small time-step, mild damping,
    /// moderate spacing, and the simulation switched off.
    pub open spec fn default_spec() -> SettingsSimulation {
        SettingsSimulation { dt_milli: 35, cooloff_milli: 975, scale: 45, active: false }
    }

    /// The force configuration these settings describe.
    pub open spec fn make_force_spec(self) -> LayoutForce {
        LayoutForce {
            dt_milli: self.dt_milli,
            cooloff_milli: self.cooloff_milli,
            scale: self.scale,
        }
    }

    /// Build the force instance the simulator steps with.
    pub fn make_force(&self) -> (f: LayoutForce)
        ensures
            f == self.make_force_spec(),
    {
        LayoutForce { dt_milli: self.dt_milli, cooloff_milli: self.cooloff_milli, scale: self.scale }
    }

    /// Runtime check of `wf`, for callers outside verified code.
    pub fn is_valid(&self) -> (b: bool)
        ensures
            b == self.wf(),
    {
        1 <= self.dt_milli && self.dt_milli <= 1000 && 1 <= self.cooloff_milli
            && self.cooloff_milli <= 1000 && 1 <= self.scale && self.scale <= 1000
    }
}

impl Default for SettingsSimulation {
    fn default() -> (r: Self)
        ensures
            r == Self::default_spec(),
    {
        SettingsSimulation { dt_milli: 35, cooloff_milli: 975, scale: 45, active: false }
    }
}

/// A node of the interactive graph store: a payload, a display label and a
/// position the user or the simulator may move.
pub struct Node<N> {
    pub payload: N,
    pub label: String,
    pub pos: Pos2,
}

/// A directed edge of the interactive graph store.
pub struct Edge<E> {
    pub from: usize,
    pub to: usize,
    pub payload: E,
    pub label: String,
}

/// The interactive graph: the single source of truth for topology, labels
/// and rendered positions. Node identities are indices, never reused.
pub struct GraphStore<N, E> {
    pub nodes: Vec<Node<N>>,
    pub edges: Vec<Edge<E>>,
}

impl<N, E> GraphStore<N, E> {
    /// Every edge endpoint names a live node.
    pub open spec fn wf(self) -> bool {
        forall|k: int|
            0 <= k < self.edges@.len() ==> #[trigger] self.edges@[k].from < self.nodes@.len()
                && self.edges@[k].to < self.nodes@.len()
    }

    /// The node labels, in identity order.
    pub open spec fn labels(self) -> Seq<Seq<char>> {
        self.nodes@.map_values(|nd: Node<N>| nd.label@)
    }

    /// The node positions, in identity order.
    pub open spec fn positions(self) -> Seq<Pos2> {
        self.nodes@.map_values(|nd: Node<N>| nd.pos)
    }

    /// The node payloads, in identity order.
    pub open spec fn payloads(self) -> Seq<N> {
        self.nodes@.map_values(|nd: Node<N>| nd.payload)
    }

    /// The edges as ordered endpoint pairs.
    pub open spec fn edge_pairs(self) -> Seq<(usize, usize)> {
        self.edges@.map_values(|e: Edge<E>| (e.from, e.to))
    }

    /// An empty store.
    pub fn new() -> (r: Self)
        ensures
            r.nodes@.len() == 0,
            r.edges@.len() == 0,
            r.wf(),
    {
        GraphStore { nodes: Vec::new(), edges: Vec::new() }
    }

    /// The node of a given identity, if live.
    pub fn node(&self, i: usize) -> (r: Option<&Node<N>>)
        ensures
            i < self.nodes@.len() ==> r == Some(&self.nodes@[i as int]),
            i >= self.nodes@.len() ==> r is None,
    {
        if i < self.nodes.len() {
            Some(&self.nodes[i])
        } else {
            None
        }
    }
}

/// A node of the simulator's mirror graph: the identity of the store node
/// it originates from, and the point the layout step moves.
pub struct SimNode {
    pub id: usize,
    pub point: Pos2,
}

/// The simulator's private mirror of the topology.
pub struct SimGraph {
    pub nodes: Vec<SimNode>,
    pub edges: Vec<(usize, usize)>,
}

impl SimGraph {
    /// The simulated points, in identity order.
    pub open spec fn points(self) -> Seq<Pos2> {
        self.nodes@.map_values(|sn: SimNode| sn.point)
    }
}

/// What adding an edge through the unique variant does to the edge
/// pairs: nothing when the ordered pair is already present, else one new
/// pair at the end.
pub open spec fn add_unique_pairs(edges: Seq<(usize, usize)>, start: usize, end: usize) -> Seq<
    (usize, usize),
> {
    if exists|k: int| 0 <= k < edges.len() && edges[k] == (start, end) {
        edges
    } else {
        edges.push((start, end))
    }
}

/// The unique-edge variant is idempotent: adding the same ordered pair
/// twice leaves the edges exactly as after the first addition, so no
/// duplicate edge ever arises from repeated identical calls.
pub proof fn lemma_add_edge_unique_idempotent(edges: Seq<(usize, usize)>, start: usize, end: usize)
    ensures
        add_unique_pairs(add_unique_pairs(edges, start, end), start, end) == add_unique_pairs(
            edges,
            start,
            end,
        ),
{
    let e1 = add_unique_pairs(edges, start, end);
    if exists|k: int| 0 <= k < edges.len() && edges[k] == (start, end) {
        assert(e1 == edges);
    } else {
        assert(e1[e1.len() - 1] == (start, end));
    }
}

/// The dual-representation graph: the interactive store, its simulation
/// mirror, the force instance, and the simulation settings.
pub struct EguiForceGraph<N, E> {
    pub egui_graph: GraphStore<N, E>,
    pub sim_graph: SimGraph,
    pub force: LayoutForce,
    pub sim_settings: SettingsSimulation,
}

impl<N, E> EguiForceGraph<N, E> {
    /// The coupling invariant: the mirror is isomorphic to the store with
    /// identity indices, and the settings are in range.
    pub open spec fn wf(self) -> bool {
        &&& self.egui_graph.wf()
        &&& self.sim_graph.nodes@.len() == self.egui_graph.nodes@.len()
        &&& forall|i: int|
            0 <= i < self.sim_graph.nodes@.len() ==> #[trigger] self.sim_graph.nodes@[i].id == i
        &&& self.sim_graph.edges@ == self.egui_graph.edge_pairs()
        &&& self.sim_settings.wf()
        &&& self.force.wf()
    }

    /// The store's labels.
    pub open spec fn labels(self) -> Seq<Seq<char>> {
        self.egui_graph.labels()
    }

    /// The store's rendered positions.
    pub open spec fn positions(self) -> Seq<Pos2> {
        self.egui_graph.positions()
    }

    /// The store's payloads.
    pub open spec fn payloads(self) -> Seq<N> {
        self.egui_graph.payloads()
    }

    /// The simulator's points.
    pub open spec fn sim_points(self) -> Seq<Pos2> {
        self.sim_graph.points()
    }

    /// Wrap a store in a new force graph. The mirror is an identity-
    /// preserving copy of the store's topology at the store's positions.
    /// When `initial_perturbation` is set, one layout step pre-settles the
    /// mirror and is published back to the store before first render.
    pub fn new(egui_graph: GraphStore<N, E>, sim_settings: SettingsSimulation, initial_perturbation: bool) -> (r: Self)
        requires
            egui_graph.wf(),
            sim_settings.wf(),
        ensures
            r.wf(),
            r.egui_graph.nodes@.len() == egui_graph.nodes@.len(),
            r.labels() == egui_graph.labels(),
            r.payloads() == egui_graph.payloads(),
            r.egui_graph.edges@ == egui_graph.edges@,
            r.sim_settings == sim_settings,
            r.force == sim_settings.make_force_spec(),
            !initial_perturbation ==> r.positions() == egui_graph.positions() && r.sim_points()
                == egui_graph.positions(),
            initial_perturbation ==> r.sim_points() == step_points_spec(
                egui_graph.positions(),
                egui_graph.edge_pairs(),
                sim_settings.make_force_spec(),
            ) && r.positions() == r.sim_points(),
    {
        let force = sim_settings.make_force();
        let n: usize = egui_graph.nodes.len();
        let mut sim_nodes: Vec<SimNode> = Vec::new();
        for i in 0..n
            invariant
                n == egui_graph.nodes@.len(),
                sim_nodes@.len() == i,
                forall|j: int|
                    0 <= j < i ==> (#[trigger] sim_nodes@[j]).id == j && sim_nodes@[j].point
                        == egui_graph.nodes@[j].pos,
        {
            let p: Pos2 = egui_graph.nodes[i].pos;
            sim_nodes.push(SimNode { id: i, point: p });
        }
        let m: usize = egui_graph.edges.len();
        let mut sim_edges: Vec<(usize, usize)> = Vec::new();
        for k in 0..m
            invariant
                m == egui_graph.edges@.len(),
                sim_edges@.len() == k,
                forall|j: int|
                    0 <= j < k ==> (#[trigger] sim_edges@[j]) == (
                        egui_graph.edges@[j].from,
                        egui_graph.edges@[j].to,
                    ),
        {
            let from: usize = egui_graph.edges[k].from;
            let to: usize = egui_graph.edges[k].to;
            sim_edges.push((from, to));
        }
        proof {
            assert(sim_edges@ =~= egui_graph.edge_pairs());
        }
        let mut r = EguiForceGraph { egui_graph, sim_graph: SimGraph { nodes: sim_nodes, edges: sim_edges }, force, sim_settings };
        proof {
            assert(r.sim_points() =~= r.egui_graph.positions());
        }
        if initial_perturbation {
            r.perturb_once();
            r.sync_graph_pos_to_sim();
        }
        r
    }

    /// An empty graph with default settings and no pre-settling.
    pub fn empty() -> (r: Self)
        ensures
            r.wf(),
            r.egui_graph.nodes@.len() == 0,
            r.egui_graph.edges@.len() == 0,
            r.sim_settings == SettingsSimulation::default_spec(),
            r.force == SettingsSimulation::default_spec().make_force_spec(),
    {
        Self::new(GraphStore::new(), SettingsSimulation::default(), false)
    }

    /// Add a node to both representations: the store gets the payload,
    /// label and position; the mirror gets an identity-linked point at the
    /// same position. Returns the new node's identity.
    pub fn add_node_with_label_and_location(&mut self, node_data: N, label: String, pos: Pos2) -> (idx: usize)
        requires
            old(self).wf(),
        ensures
            final(self).wf(),
            idx == old(self).egui_graph.nodes@.len(),
            final(self).labels() == old(self).labels().push(label@),
            final(self).payloads() == old(self).payloads().push(node_data),
            final(self).positions() == old(self).positions().push(pos),
            final(self).sim_points() == old(self).sim_points().push(pos),
            final(self).egui_graph.edges@ == old(self).egui_graph.edges@,
            final(self).sim_settings == old(self).sim_settings,
            final(self).force == old(self).force,
    {
        let idx: usize = self.egui_graph.nodes.len();
        self.egui_graph.nodes.push(Node { payload: node_data, label, pos });
        self.sim_graph.nodes.push(SimNode { id: idx, point: pos });
        proof {
            assert(self.labels() =~= old(self).labels().push(label@));
            assert(self.payloads() =~= old(self).payloads().push(node_data));
            assert(self.positions() =~= old(self).positions().push(pos));
            assert(self.sim_points() =~= old(self).sim_points().push(pos));
            assert(self.egui_graph.edge_pairs() =~= old(self).egui_graph.edge_pairs());
        }
        idx
    }

    /// Add a directed edge to both representations.
    pub fn add_edge_with_label(&mut self, start: usize, end: usize, edge_data: E, label: String)
        requires
            old(self).wf(),
            start < old(self).egui_graph.nodes@.len(),
            end < old(self).egui_graph.nodes@.len(),
        ensures
            final(self).wf(),
            final(self).egui_graph.edges@ == old(self).egui_graph.edges@.push(
                (Edge { from: start, to: end, payload: edge_data, label: label }),
            ),
            final(self).egui_graph.nodes == old(self).egui_graph.nodes,
            final(self).sim_graph.nodes == old(self).sim_graph.nodes,
            final(self).sim_settings == old(self).sim_settings,
            final(self).force == old(self).force,
    {
        self.egui_graph.edges.push(Edge { from: start, to: end, payload: edge_data, label });
        self.sim_graph.edges.push((start, end));
        proof {
            assert(self.sim_graph.edges@ =~= self.egui_graph.edge_pairs());
        }
    }

    /// Whether an edge between this ordered pair already exists.
    pub fn has_edge(&self, start: usize, end: usize) -> (b: bool)
        ensures
            b == exists|k: int|
                0 <= k < self.egui_graph.edges@.len() && (#[trigger] self.egui_graph.edges@[k]).from
                    == start && self.egui_graph.edges@[k].to == end,
    {
        let m: usize = self.egui_graph.edges.len();
        for k in 0..m
            invariant
                m == self.egui_graph.edges@.len(),
                forall|j: int|
                    0 <= j < k ==> !((#[trigger] self.egui_graph.edges@[j]).from == start
                        && self.egui_graph.edges@[j].to == end),
        {
            if self.egui_graph.edges[k].from == start && self.egui_graph.edges[k].to == end {
                return true;
            }
        }
        false
    }

    /// Add a directed edge unless one between this ordered pair already
    /// exists; in that case the graph is left untouched.
    pub fn add_edge_with_label_unique(&mut self, start: usize, end: usize, edge_data: E, label: String)
        requires
            old(self).wf(),
            start < old(self).egui_graph.nodes@.len(),
            end < old(self).egui_graph.nodes@.len(),
        ensures
            final(self).wf(),
            (exists|k: int|
                0 <= k < old(self).egui_graph.edges@.len() && (#[trigger] old(
                    self,
                ).egui_graph.edges@[k]).from == start && old(self).egui_graph.edges@[k].to == end)
                ==> *final(self) == *old(self),
            !(exists|k: int|
                0 <= k < old(self).egui_graph.edges@.len() && (#[trigger] old(
                    self,
                ).egui_graph.edges@[k]).from == start && old(self).egui_graph.edges@[k].to == end)
                ==> final(self).egui_graph.edges@ == old(self).egui_graph.edges@.push(
                (Edge { from: start, to: end, payload: edge_data, label: label }),
            ),
            final(self).egui_graph.nodes == old(self).egui_graph.nodes,
            final(self).sim_graph.nodes == old(self).sim_graph.nodes,
            final(self).sim_settings == old(self).sim_settings,
            final(self).force == old(self).force,
            final(self).egui_graph.edge_pairs() == add_unique_pairs(
                old(self).egui_graph.edge_pairs(),
                start,
                end,
            ),
    {
        let ghost pairs0 = self.egui_graph.edge_pairs();
        proof {
            assert forall|k: int| 0 <= k < pairs0.len() implies (#[trigger] pairs0[k] == (
            start,
            end,
            )) == (self.egui_graph.edges@[k].from == start && self.egui_graph.edges@[k].to
                == end) by {
                assert(pairs0[k] == (self.egui_graph.edges@[k].from, self.egui_graph.edges@[k].to));
            }
        }
        if !self.has_edge(start, end) {
            self.add_edge_with_label(start, end, edge_data, label);
            proof {
                assert(self.egui_graph.edge_pairs() =~= pairs0.push((start, end)));
            }
        } else {
            proof {
                let k = choose|k: int|
                    0 <= k < self.egui_graph.edges@.len() && (
                    #[trigger] self.egui_graph.edges@[k]).from == start
                        && self.egui_graph.edges@[k].to == end;
                assert(pairs0[k] == (start, end));
            }
        }
    }

    /// Publish: overwrite every store position with the simulator's point
    /// for the same identity.
    pub fn sync_graph_pos_to_sim(&mut self)
        requires
            old(self).wf(),
        ensures
            final(self).wf(),
            final(self).positions() == old(self).sim_points(),
            final(self).labels() == old(self).labels(),
            final(self).payloads() == old(self).payloads(),
            final(self).egui_graph.edges@ == old(self).egui_graph.edges@,
            final(self).sim_graph == old(self).sim_graph,
            final(self).sim_settings == old(self).sim_settings,
            final(self).force == old(self).force,
    {
        let ghost orig = *old(self);
        let n: usize = self.egui_graph.nodes.len();
        for i in 0..n
            invariant
                self.wf(),
                n == self.egui_graph.nodes@.len(),
                self.sim_graph == orig.sim_graph,
                self.egui_graph.edges@ == orig.egui_graph.edges@,
                self.sim_settings == orig.sim_settings,
                self.force == orig.force,
                self.egui_graph.nodes@.len() == orig.egui_graph.nodes@.len(),
                forall|j: int|
                    i <= j < n ==> #[trigger] self.egui_graph.nodes@[j]
                        == orig.egui_graph.nodes@[j],
                forall|j: int|
                    0 <= j < i ==> (#[trigger] self.egui_graph.nodes@[j]).pos
                        == orig.sim_graph.nodes@[j].point,
                forall|j: int|
                    0 <= j < i ==> (#[trigger] self.egui_graph.nodes@[j]).label
                        == orig.egui_graph.nodes@[j].label && self.egui_graph.nodes@[j].payload
                        == orig.egui_graph.nodes@[j].payload,
        {
            let p: Pos2 = self.sim_graph.nodes[i].point;
            self.egui_graph.nodes[i].pos = p;
        }
        proof {
            assert(self.positions() =~= orig.sim_points());
            assert(self.labels() =~= orig.labels());
            assert(self.payloads() =~= orig.payloads());
        }
    }

    /// Absorb: overwrite every simulator point with the store's current
    /// position for the same identity, capturing user drags.
    pub fn sync_sim_pos_to_graph(&mut self)
        requires
            old(self).wf(),
        ensures
            final(self).wf(),
            final(self).sim_points() == old(self).positions(),
            final(self).egui_graph == old(self).egui_graph,
            final(self).sim_graph.edges@ == old(self).sim_graph.edges@,
            final(self).sim_settings == old(self).sim_settings,
            final(self).force == old(self).force,
    {
        let ghost orig = *old(self);
        let n: usize = self.sim_graph.nodes.len();
        for i in 0..n
            invariant
                self.wf(),
                n == self.sim_graph.nodes@.len(),
                self.egui_graph == orig.egui_graph,
                self.sim_graph.edges@ == orig.sim_graph.edges@,
                self.sim_settings == orig.sim_settings,
                self.force == orig.force,
                self.sim_graph.nodes@.len() == orig.sim_graph.nodes@.len(),
                forall|j: int|
                    i <= j < n ==> #[trigger] self.sim_graph.nodes@[j] == orig.sim_graph.nodes@[j],
                forall|j: int|
                    0 <= j < i ==> (#[trigger] self.sim_graph.nodes@[j]).point
                        == orig.egui_graph.nodes@[j].pos && self.sim_graph.nodes@[j].id == j,
        {
            let p: Pos2 = self.egui_graph.nodes[i].pos;
            self.sim_graph.nodes[i].point = p;
        }
        proof {
            assert(self.sim_points() =~= orig.positions());
        }
    }

    /// Rebuild the force instance from the current settings when the
    /// simulation is active.
    pub fn update_forces(&mut self)
        requires
            old(self).wf(),
        ensures
            final(self).wf(),
            old(self).sim_settings.active ==> final(self).force
                == old(self).sim_settings.make_force_spec(),
            !old(self).sim_settings.active ==> final(self).force == old(self).force,
            final(self).egui_graph == old(self).egui_graph,
            final(self).sim_graph == old(self).sim_graph,
            final(self).sim_settings == old(self).sim_settings,
    {
        if self.sim_settings.active {
            self.force = self.sim_settings.make_force();
        }
    }

    /// One unconditional layout step over the mirror graph.
    fn perturb_once(&mut self)
        requires
            old(self).wf(),
        ensures
            final(self).wf(),
            final(self).sim_points() == step_points_spec(
                old(self).sim_points(),
                old(self).sim_graph.edges@,
                old(self).force,
            ),
            final(self).egui_graph == old(self).egui_graph,
            final(self).sim_graph.edges@ == old(self).sim_graph.edges@,
            final(self).sim_settings == old(self).sim_settings,
            final(self).force == old(self).force,
    {
        let ghost orig = *old(self);
        let n: usize = self.sim_graph.nodes.len();
        let mut points: Vec<Pos2> = Vec::new();
        for i in 0..n
            invariant
                n == self.sim_graph.nodes@.len(),
                points@.len() == i,
                forall|j: int| 0 <= j < i ==> points@[j] == self.sim_graph.nodes@[j].point,
                *self == orig,
        {
            let p: Pos2 = self.sim_graph.nodes[i].point;
            points.push(p);
        }
        proof {
            assert(points@ =~= self.sim_points());
        }
        let stepped: Vec<Pos2> = step_points_exec(&points, &self.sim_graph.edges, &self.force);
        for i in 0..n
            invariant
                n == self.sim_graph.nodes@.len(),
                n == stepped@.len(),
                self.egui_graph == orig.egui_graph,
                self.sim_graph.edges@ == orig.sim_graph.edges@,
                self.sim_settings == orig.sim_settings,
                self.force == orig.force,
                self.sim_graph.nodes@.len() == orig.sim_graph.nodes@.len(),
                stepped@ == step_points_spec(orig.sim_points(), orig.sim_graph.edges@, orig.force),
                forall|j: int|
                    i <= j < n ==> #[trigger] self.sim_graph.nodes@[j] == orig.sim_graph.nodes@[j],
                forall|j: int|
                    0 <= j < i ==> (#[trigger] self.sim_graph.nodes@[j]).point == stepped@[j]
                        && self.sim_graph.nodes@[j].id == orig.sim_graph.nodes@[j].id,
        {
            let q: Pos2 = stepped[i];
            self.sim_graph.nodes[i].point = q;
        }
        proof {
            assert(self.sim_points() =~= stepped@);
            assert(self.wf());
        }
    }

    /// Apply one layout step when the simulation is active; otherwise leave
    /// everything untouched.
    pub fn update_simulation(&mut self)
        requires
            old(self).wf(),
        ensures
            final(self).wf(),
            old(self).sim_settings.active ==> final(self).sim_points() == step_points_spec(
                old(self).sim_points(),
                old(self).sim_graph.edges@,
                old(self).force,
            ),
            !old(self).sim_settings.active ==> *final(self) == *old(self),
            final(self).egui_graph == old(self).egui_graph,
            final(self).sim_graph.edges@ == old(self).sim_graph.edges@,
            final(self).sim_settings == old(self).sim_settings,
            final(self).force == old(self).force,
    {
        if self.sim_settings.active {
            self.perturb_once();
        }
    }

    /// One frame of the sync protocol, in fixed order: absorb user-moved
    /// positions into the simulator, rebuild the force from the settings,
    /// step the simulation if active, and publish the simulator's points
    /// back to the store. A drag made before this call is absorbed first,
    /// so an inactive simulator leaves every position exactly where the
    /// user put it.
    pub fn update(&mut self)
        requires
            old(self).wf(),
        ensures
            final(self).wf(),
            final(self).labels() == old(self).labels(),
            final(self).payloads() == old(self).payloads(),
            final(self).egui_graph.edges@ == old(self).egui_graph.edges@,
            final(self).sim_graph.edges@ == old(self).sim_graph.edges@,
            final(self).sim_settings == old(self).sim_settings,
            old(self).sim_settings.active ==> final(self).sim_points() == step_points_spec(
                old(self).positions(),
                old(self).sim_graph.edges@,
                old(self).sim_settings.make_force_spec(),
            ),
            !old(self).sim_settings.active ==> final(self).sim_points() == old(self).positions(),
            final(self).positions() == final(self).sim_points(),
            !old(self).sim_settings.active ==> final(self).positions() == old(self).positions(),
    {
        self.sync_sim_pos_to_graph();
        self.update_forces();
        self.update_simulation();
        self.sync_graph_pos_to_sim();
    }
}

} // verus!
