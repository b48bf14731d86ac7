//! The construction multigraph. Each key contributes one undirected edge
//! between its two hash projections, labeled with the key's target value.
//! `assign_vertex_values` walks the graph, rejects it when it is cyclic or
//! degenerate, and otherwise produces one potential per vertex such that for
//! every edge `(u, v, val)` the defining equation
//! `(potential[u] + potential[v]) % ng == val % ng` holds.

use vstd::prelude::*;

verus! {

/// The consistency equation of the construction, over the whole edge list:
/// for every edge, the potentials of its two endpoints sum to the edge's
/// value, modulo the table size.
pub open spec fn consistent(edges: Seq<(usize, usize, usize)>, vv: Seq<usize>, ng: int) -> bool {
    forall|k: int|
        0 <= k < edges.len() ==> (vv[(#[trigger] edges[k]).0 as int] + vv[edges[k].1 as int]) % ng
            == edges[k].2 as int % ng
}

/// How many of the first `i` vertices have at least one incident edge.
pub open spec fn count_touched(adjacent: Seq<Vec<(usize, usize)>>, i: int) -> int
    decreases i,
{
    if i <= 0 {
        0
    } else {
        count_touched(adjacent, i - 1) + if adjacent[i - 1]@.len() > 0 {
            1int
        } else {
            0int
        }
    }
}

/// One neighbor scan of the walk: processes the `(neighbor, edge value)`
/// pairs of `vertex` from position `j` on. Exactly one edge back to the
/// immediate parent is skipped while `skip` holds; a visited neighbor is a
/// cycle and stops the whole walk (`None`); an unvisited neighbor receives
/// the potential `(val + ng - potential[vertex]) % ng` and goes on the
/// stack.
pub open spec fn scan_neighbors(
    g: Graph,
    parent: Option<usize>,
    vertex: usize,
    j: int,
    skip: bool,
    vv: Seq<usize>,
    visited: Seq<bool>,
    stack: Seq<(Option<usize>, usize)>,
) -> Option<(Seq<usize>, Seq<(Option<usize>, usize)>)>
    decreases g.adjacent@[vertex as int]@.len() - j,
{
    let neighbors = g.adjacent@[vertex as int]@;
    if j < 0 || j >= neighbors.len() {
        Some((vv, stack))
    } else {
        let (neighbor, edge_value) = neighbors[j];
        if skip && parent == Some(neighbor) {
            scan_neighbors(g, parent, vertex, j + 1, false, vv, visited, stack)
        } else if visited[neighbor as int] {
            None
        } else {
            let ng = g.ng as int;
            let assigned = (((edge_value as int % ng) + ng - vv[vertex as int]) % ng) as usize;
            scan_neighbors(
                g,
                parent,
                vertex,
                j + 1,
                skip,
                vv.update(neighbor as int, assigned),
                visited,
                stack.push((Some(vertex), neighbor)),
            )
        }
    }
}

/// The walk of one connected component: pops the stack, marks the vertex
/// visited, scans its neighbors, and goes on until the stack is empty
/// (`Some`, with the updated state), a cycle is found, or the step budget
/// runs out (`None`).
pub open spec fn walk_component(
    g: Graph,
    vv: Seq<usize>,
    visited: Seq<bool>,
    stack: Seq<(Option<usize>, usize)>,
    steps: int,
    budget: int,
) -> Option<(Seq<usize>, Seq<bool>, int)>
    decreases budget - steps,
{
    if stack.len() == 0 {
        Some((vv, visited, steps))
    } else if steps >= budget {
        None
    } else {
        let (parent, vertex) = stack.last();
        let visited2 = visited.update(vertex as int, true);
        match scan_neighbors(g, parent, vertex, 0, true, vv, visited2, stack.drop_last()) {
            None => None,
            Some((vv2, stack2)) => walk_component(g, vv2, visited2, stack2, steps + 1, budget),
        }
    }
}

/// The whole walk: every still-unvisited vertex from `root` on seeds a new
/// component with potential zero.
pub open spec fn walk_graph(
    g: Graph,
    vv: Seq<usize>,
    visited: Seq<bool>,
    steps: int,
    budget: int,
    root: int,
) -> Option<(Seq<usize>, Seq<bool>, int)>
    decreases g.ng - root,
{
    if root < 0 || root >= g.ng {
        Some((vv, visited, steps))
    } else if visited[root] {
        walk_graph(g, vv, visited, steps, budget, root + 1)
    } else {
        match walk_component(
            g,
            vv.update(root, 0),
            visited,
            seq![(None::<usize>, root as usize)],
            steps,
            budget,
        ) {
            None => None,
            Some((vv2, visited2, steps2)) => walk_graph(g, vv2, visited2, steps2, budget, root + 1),
        }
    }
}

/// What the assignment pass answers, as a function of the graph alone: the
/// pre-filter, then the walk over all components with a step budget of
/// `ng + 1`, then the check of the finished table against every recorded
/// edge. `assign_vertex_values` returns exactly this, which pins the pass
/// down: it is deterministic, and it must do the walk's work — a body that
/// rejects everything does not meet it.
pub open spec fn assign_spec(g: Graph) -> Option<Seq<usize>> {
    let ng = g.ng as int;
    if count_touched(g.adjacent@, ng) <= g.n {
        None
    } else {
        let vv0 = Seq::new(g.ng as nat, |i: int| 0usize);
        let visited0 = Seq::new(g.ng as nat, |i: int| false);
        match walk_graph(g, vv0, visited0, 0, ng + 1, 0) {
            None => None,
            Some((vv, visited, steps)) => if consistent(g.edges@, vv, ng) {
                Some(vv)
            } else {
                None
            },
        }
    }
}

/// Threads a finished component through the remaining roots: what the whole
/// walk answers once the current component ends with state `r`.
spec fn continue_roots(
    g: Graph,
    r: Option<(Seq<usize>, Seq<bool>, int)>,
    budget: int,
    root: int,
) -> Option<(Seq<usize>, Seq<bool>, int)> {
    match r {
        None => None,
        Some((vv, visited, steps)) => walk_graph(g, vv, visited, steps, budget, root),
    }
}

/// Threads a finished neighbor scan through the rest of the walk: what the
/// whole walk answers once the current scan ends with state `s`.
spec fn continue_scan(
    g: Graph,
    s: Option<(Seq<usize>, Seq<(Option<usize>, usize)>)>,
    visited: Seq<bool>,
    steps: int,
    budget: int,
    root: int,
) -> Option<(Seq<usize>, Seq<bool>, int)> {
    match s {
        None => None,
        Some((vv2, stack2)) => continue_roots(
            g,
            walk_component(g, vv2, visited, stack2, steps, budget),
            budget,
            root,
        ),
    }
}

/// How the walk's outcome decides the final answer: a failed walk answers
/// `None`; a finished table answers itself exactly when it satisfies the
/// consistency equation on every recorded edge.
spec fn walk_decides(g: Graph, r: Option<(Seq<usize>, Seq<bool>, int)>, out: Option<Seq<usize>>) -> bool {
    match r {
        None => out is None,
        Some((vv, visited, steps)) => out == if consistent(g.edges@, vv, g.ng as int) {
            Some(vv)
        } else {
            None::<Seq<usize>>
        },
    }
}

/// An undirected multigraph over `ng` vertices, built fresh for one
/// construction attempt and discarded on failure. Besides the adjacency
/// lists it keeps the plain list of edges as they were connected, which the
/// assignment pass checks its result against.
pub struct Graph {
    /// Number of keys the graph was built for.
    pub n: usize,
    /// Number of vertices.
    pub ng: usize,
    /// For each vertex, its `(neighbor, edge value)` pairs.
    pub adjacent: Vec<Vec<(usize, usize)>>,
    /// Every edge in the order it was connected.
    pub edges: Vec<(usize, usize, usize)>,
}

impl Graph {
    /// There is one adjacency list per vertex, every endpoint on record is a
    /// vertex, and the vertex count leaves room for the modular arithmetic of
    /// the assignment pass.
    pub open spec fn wf(self) -> bool {
        &&& 1 <= self.ng <= usize::MAX / 2
        &&& self.adjacent@.len() == self.ng
        &&& forall|u: int, j: int|
            0 <= u < self.ng && 0 <= j < self.adjacent@[u]@.len() ==> (
            #[trigger] self.adjacent@[u]@[j]).0 < self.ng
        &&& forall|k: int|
            0 <= k < self.edges@.len() ==> (#[trigger] self.edges@[k]).0 < self.ng
                && self.edges@[k].1 < self.ng
    }

    /// A fresh graph over `ng` vertices with no edges.
    pub fn new(ng: usize, nkeys: usize) -> (r: Graph)
        requires
            1 <= ng <= usize::MAX / 2,
        ensures
            r.wf(),
            r.ng == ng,
            r.n == nkeys,
            r.edges@.len() == 0,
            forall|u: int| 0 <= u < ng ==> (#[trigger] r.adjacent@[u])@.len() == 0,
    {
        let mut adjacent: Vec<Vec<(usize, usize)>> = Vec::new();
        for i in 0..ng
            invariant
                adjacent@.len() == i,
                forall|u: int| 0 <= u < i ==> (#[trigger] adjacent@[u])@.len() == 0,
        {
            adjacent.push(Vec::new());
        }
        Graph { n: nkeys, ng, adjacent, edges: Vec::new() }
    }

    /// Adds the undirected edge `(vertex1, vertex2)` labeled `edge_value`:
    /// each endpoint gains the other as a neighbor, and the edge goes on
    /// record.
    pub fn connect(&mut self, vertex1: usize, vertex2: usize, edge_value: usize)
        requires
            old(self).wf(),
            vertex1 < old(self).ng,
            vertex2 < old(self).ng,
        ensures
            final(self).wf(),
            final(self).ng == old(self).ng,
            final(self).n == old(self).n,
            final(self).edges@ == old(self).edges@.push((vertex1, vertex2, edge_value)),
            final(self).adjacent@.len() == old(self).adjacent@.len(),
            vertex1 != vertex2 ==> final(self).adjacent@[vertex1 as int]@ == old(
                self).adjacent@[vertex1 as int]@.push((vertex2, edge_value)),
            vertex1 != vertex2 ==> final(self).adjacent@[vertex2 as int]@ == old(
                self).adjacent@[vertex2 as int]@.push((vertex1, edge_value)),
            vertex1 == vertex2 ==> final(self).adjacent@[vertex1 as int]@ == old(
                self).adjacent@[vertex1 as int]@.push((vertex2, edge_value)).push(
                (vertex1, edge_value)),
            forall|u: int|
                0 <= u < old(self).ng && u != vertex1 && u != vertex2 ==> final(
                    self).adjacent@[u] == old(self).adjacent@[u],
    {
        self.adjacent[vertex1].push((vertex2, edge_value));
        self.adjacent[vertex2].push((vertex1, edge_value));
        self.edges.push((vertex1, vertex2, edge_value));
    }

    /// The fused acyclicity check and potential propagation: walks every
    /// connected component from an arbitrary root with potential zero,
    /// assigns `potential[w] = (val + ng - potential[v]) % ng` along each
    /// tree edge, and fails on the first vertex reached twice. A graph whose
    /// incident-vertex count does not exceed the key count is rejected
    /// outright. The returned table is checked against every recorded edge,
    /// so a `Some` answer carries the consistency equation for the whole
    /// graph; and the answer equals [`assign_spec`] of the graph, so the
    /// pass is deterministic and owes an answer wherever the walk succeeds.
    pub fn assign_vertex_values(&self) -> (r: Option<Vec<usize>>)
        requires
            self.wf(),
        ensures
            r matches Some(vv) ==> {
                &&& vv@.len() == self.ng
                &&& forall|i: int| 0 <= i < self.ng ==> vv@[i] < self.ng
                &&& consistent(self.edges@, vv@, self.ng as int)
            },
            count_touched(self.adjacent@, self.ng as int) <= self.n ==> r is None,
            r matches Some(vv) ==> Some(vv@) == assign_spec(*self),
            r is None ==> assign_spec(*self) is None,
    {
        let ng = self.ng;
        let mut vv: Vec<usize> = Vec::new();
        let mut visited: Vec<bool> = Vec::new();
        for i in 0..ng
            invariant
                vv@.len() == i,
                visited@.len() == i,
                forall|j: int| 0 <= j < i ==> vv@[j] == 0,
                forall|j: int| 0 <= j < i ==> visited@[j] == false,
        {
            vv.push(0);
            visited.push(false);
        }
        proof {
            assert(vv@ =~= Seq::new(ng as nat, |i: int| 0usize));
            assert(visited@ =~= Seq::new(ng as nat, |i: int| false));
        }

        // Not enough structural spread to admit an assignment: reject before
        // walking anything.
        let mut touched: usize = 0;
        for i in 0..ng
            invariant
                self.wf(),
                ng == self.ng,
                touched == count_touched(self.adjacent@, i as int),
                touched <= i,
        {
            if self.adjacent[i].len() > 0 {
                touched += 1;
            }
        }
        if touched <= self.n {
            return None;
        }

        // Every iteration that survives the visited checks marks a vertex
        // visited for the first time, so `ng + 1` pops cover any walk; the
        // budget gives the verifier an immediate termination measure, and a
        // walk that ran past it would be reported as a failed attempt, like
        // a cycle.
        let budget = ng + 1;
        let mut steps: usize = 0;
        let ghost run0 = walk_graph(*self, vv@, visited@, 0, budget as int, 0);
        proof {
            assert(walk_decides(*self, run0, assign_spec(*self)));
        }

        for root in 0..ng
            invariant
                self.wf(),
                ng == self.ng,
                budget == ng + 1,
                steps <= budget,
                vv@.len() == ng,
                visited@.len() == ng,
                forall|j: int| 0 <= j < ng ==> vv@[j] < ng,
                count_touched(self.adjacent@, self.ng as int) > self.n,
                walk_decides(*self, run0, assign_spec(*self)),
                walk_graph(*self, vv@, visited@, steps as int, budget as int, root as int)
                    == run0,
        {
            if !visited[root] {
                let ghost vv_seed = vv@;
                vv[root] = 0;
                let mut stack: Vec<(Option<usize>, usize)> = Vec::new();
                stack.push((None, root));
                proof {
                    assert(stack@ =~= seq![(None::<usize>, root as usize)]);
                    assert(vv@ == vv_seed.update(root as int, 0usize));
                }

                while stack.len() > 0
                    invariant
                        self.wf(),
                        ng == self.ng,
                        budget == ng + 1,
                        steps <= budget,
                        root < ng,
                        vv@.len() == ng,
                        visited@.len() == ng,
                        forall|j: int| 0 <= j < ng ==> vv@[j] < ng,
                        forall|k: int| 0 <= k < stack@.len() ==> (#[trigger] stack@[k]).1 < ng,
                        count_touched(self.adjacent@, self.ng as int) > self.n,
                        walk_decides(*self, run0, assign_spec(*self)),
                        continue_roots(
                            *self,
                            walk_component(
                                *self,
                                vv@,
                                visited@,
                                stack@,
                                steps as int,
                                budget as int,
                            ),
                            budget as int,
                            root as int + 1,
                        ) == run0,
                    decreases budget - steps,
                {
                    let ghost vv_head = vv@;
                    let ghost visited_head = visited@;
                    let ghost stack_head = stack@;
                    let ghost steps_head = steps as int;
                    let ghost wc_head = walk_component(
                        *self,
                        vv_head,
                        visited_head,
                        stack_head,
                        steps_head,
                        budget as int,
                    );

                    if steps >= budget {
                        proof {
                            assert(wc_head is None);
                            assert(assign_spec(*self) is None);
                        }
                        return None;
                    }
                    steps += 1;

                    let (parent, vertex) = stack.pop().unwrap();
                    visited[vertex] = true;
                    let ghost scan0 = scan_neighbors(
                        *self,
                        parent,
                        vertex,
                        0,
                        true,
                        vv@,
                        visited@,
                        stack@,
                    );
                    proof {
                        assert(stack_head.last() == (parent, vertex));
                        assert(stack@ == stack_head.drop_last());
                        assert(visited@ == visited_head.update(vertex as int, true));
                        assert(wc_head == (match scan0 {
                            None => None::<(Seq<usize>, Seq<bool>, int)>,
                            Some((vv2, stack2)) => walk_component(
                                *self,
                                vv2,
                                visited@,
                                stack2,
                                steps as int,
                                budget as int,
                            ),
                        }));
                    }

                    let num_neighbors = self.adjacent[vertex].len();
                    // Skip exactly one edge back to the immediate parent: a
                    // second parallel edge to the parent is a real edge and
                    // must count as a cycle.
                    let mut skip = true;
                    for j in 0..num_neighbors
                        invariant
                            self.wf(),
                            ng == self.ng,
                            budget == ng + 1,
                            steps <= budget,
                            root < ng,
                            vertex < ng,
                            num_neighbors == self.adjacent@[vertex as int]@.len(),
                            vv@.len() == ng,
                            visited@.len() == ng,
                            forall|jj: int| 0 <= jj < ng ==> vv@[jj] < ng,
                            forall|k: int| 0 <= k < stack@.len() ==> (#[trigger] stack@[k]).1
                                < ng,
                            count_touched(self.adjacent@, self.ng as int) > self.n,
                            walk_decides(*self, run0, assign_spec(*self)),
                            scan_neighbors(
                                *self,
                                parent,
                                vertex,
                                j as int,
                                skip,
                                vv@,
                                visited@,
                                stack@,
                            ) == scan0,
                            scan0 is None ==> run0 is None,
                            scan0 matches Some(t) ==> continue_roots(
                                *self,
                                walk_component(
                                    *self,
                                    t.0,
                                    visited@,
                                    t.1,
                                    steps as int,
                                    budget as int,
                                ),
                                budget as int,
                                root as int + 1,
                            ) == run0,
                    {
                        let ghost vv_j = vv@;
                        let ghost stack_j = stack@;
                        let (neighbor, edge_value) = self.adjacent[vertex][j];
                        let back_to_parent = match parent {
                            Some(p) => p == neighbor,
                            None => false,
                        };
                        if skip && back_to_parent {
                            skip = false;
                        } else if visited[neighbor] {
                            // The component closes on itself: no consistent
                            // assignment exists along a cycle.
                            proof {
                                assert(scan0 is None);
                                assert(assign_spec(*self) is None);
                            }
                            return None;
                        } else {
                            stack.push((Some(vertex), neighbor));
                            let val_r = edge_value % ng;
                            vv[neighbor] = (val_r + ng - vv[vertex]) % ng;
                            proof {
                                let ngi = ng as int;
                                let assigned = (((edge_value as int % ngi) + ngi - vv_j[vertex as int]) % ngi) as usize;
                                assert(vv@ == vv_j.update(neighbor as int, assigned));
                                assert(stack@ == stack_j.push((Some(vertex), neighbor)));
                            }
                        }
                    }
                    proof {
                        assert(scan_neighbors(
                            *self,
                            parent,
                            vertex,
                            num_neighbors as int,
                            skip,
                            vv@,
                            visited@,
                            stack@,
                        ) == Some((vv@, stack@)));
                        assert(wc_head == walk_component(
                            *self,
                            vv@,
                            visited@,
                            stack@,
                            steps as int,
                            budget as int,
                        ));
                    }
                }
            } else {
                proof {
                    assert(walk_graph(
                        *self,
                        vv@,
                        visited@,
                        steps as int,
                        budget as int,
                        root as int,
                    ) == walk_graph(
                        *self,
                        vv@,
                        visited@,
                        steps as int,
                        budget as int,
                        root as int + 1,
                    ));
                }
            }
        }

        // The walk succeeded; hold the table against every recorded edge, so
        // the consistency equation is carried by the result itself.
        proof {
            assert(run0 == Some((vv@, visited@, steps as int)));
        }
        for k in 0..self.edges.len()
            invariant
                self.wf(),
                ng == self.ng,
                vv@.len() == ng,
                forall|j: int| 0 <= j < ng ==> vv@[j] < ng,
                assign_spec(*self) == (if consistent(self.edges@, vv@, self.ng as int) {
                    Some(vv@)
                } else {
                    None::<Seq<usize>>
                }),
                forall|kk: int|
                    0 <= kk < k ==> (vv@[(#[trigger] self.edges@[kk]).0 as int] + vv@[self.edges@[kk].1 as int])
                        % (ng as int) == self.edges@[kk].2 as int % (ng as int),
        {
            let (u, v, val) = self.edges[k];
            if (vv[u] + vv[v]) % ng != val % ng {
                proof {
                    assert(!consistent(self.edges@, vv@, ng as int)) by {
                        assert((vv@[self.edges@[k as int].0 as int] + vv@[self.edges@[k as int].1 as int])
                            % (ng as int) != self.edges@[k as int].2 as int % (ng as int));
                    }
                }
                return None;
            }
        }
        proof {
            assert(consistent(self.edges@, vv@, ng as int));
        }
        Some(vv)
    }
}

} // verus!
