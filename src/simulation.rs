use vstd::prelude::*;
use crate::topology::{ClothMesh, Spring, SpringKind};

verus! {

/// The far end of a spring, as seen from one of its vertices.
#[derive(Clone, Copy, Debug, PartialEq, Eq, Structural)]
pub struct Neighbor {
    pub index: u32,
    pub kind: SpringKind,
}

/// Why a topology was refused by the simulation.
#[derive(Clone, Copy, Debug, PartialEq, Eq, Structural)]
pub enum SimError {
    /// Fewer than two vertices along a side, or more vertices than a `u32`
    /// can count.
    InvalidConfiguration,
    /// The initial lane states are not one per vertex.
    VertexCountMismatch,
    /// A spring names a vertex outside the grid.
    SpringOutOfRange,
}

/// A spring whose two ends are the same vertex; such springs are dropped.
pub open spec fn is_degenerate(s: Spring) -> bool {
    s.index_a == s.index_b
}

/// The springs that are kept, in their original order.
pub open spec fn kept_springs(s: Seq<Spring>) -> Seq<Spring> {
    s.filter(|x: Spring| !is_degenerate(x))
}

/// The springs of `s` that touch vertex `v`, in order, each seen from `v`.
pub open spec fn incident(s: Seq<Spring>, v: int) -> Seq<Neighbor>
    decreases s.len(),
{
    if s.len() == 0 {
        Seq::empty()
    } else {
        let p = incident(s.drop_last(), v);
        let l = s.last();
        if l.index_a == v {
            p.push(Neighbor { index: l.index_b, kind: l.kind })
        } else if l.index_b == v {
            p.push(Neighbor { index: l.index_a, kind: l.kind })
        } else {
            p
        }
    }
}

/// The grid shape that a simulation accepts.
pub open spec fn layout_ok(rows: u32, cols: u32) -> bool {
    rows >= 2 && cols >= 2 && rows as int * cols as int <= u32::MAX
}

/// Some spring names a vertex at or past `n`.
pub open spec fn has_out_of_range(s: Seq<Spring>, n: int) -> bool {
    exists|k: int| 0 <= k < s.len() && (s[k].index_a >= n || s[k].index_b >= n)
}

/// Per-vertex simulation state of type `T`, held twice: every step reads the
/// current buffer and writes the other one, then the two change places.
pub struct SimulationState<T> {
    springs: Vec<Spring>,
    neighbors: Vec<Vec<Neighbor>>,
    front: Vec<T>,
    back: Vec<T>,
    vertex_count: u32,
}

impl<T> SimulationState<T> {
    /// The current lane states, one per vertex.
    pub closed spec fn lane_buffer(&self) -> Vec<T> {
        self.front
    }

    /// The current lane states as a sequence.
    pub open spec fn lanes(&self) -> Seq<T> {
        self.lane_buffer()@
    }

    /// The springs in use, read-only once uploaded.
    pub closed spec fn spring_seq(&self) -> Seq<Spring> {
        self.springs@
    }

    /// The springs that touch vertex `v`.
    pub closed spec fn neighbor_list(&self, v: int) -> Vec<Neighbor> {
        self.neighbors[v]
    }

    /// Number of vertices, one lane each.
    pub closed spec fn lane_count(&self) -> nat {
        self.vertex_count as nat
    }

    /// Each vertex has one lane and knows its springs; every spring joins
    /// two distinct vertices of the grid.
    pub closed spec fn wf(&self) -> bool {
        &&& self.front@.len() == self.vertex_count
        &&& self.neighbors@.len() == self.vertex_count
        &&& forall|k: int|
            0 <= k < self.springs@.len() ==> {
                &&& !is_degenerate(#[trigger] self.springs@[k])
                &&& self.springs@[k].index_a < self.vertex_count
                &&& self.springs@[k].index_b < self.vertex_count
            }
        &&& forall|v: int|
            0 <= v < self.vertex_count ==> (#[trigger] self.neighbors[v])@ == incident(
                self.springs@,
                v,
            )
    }

    /// Takes over the topology of `mesh` with one initial lane state per
    /// vertex. Springs whose two ends coincide are dropped; the others keep
    /// their order.
    pub fn upload_topology(mesh: &ClothMesh, initial: Vec<T>) -> (r: Result<Self, SimError>)
        ensures
            r matches Err(SimError::InvalidConfiguration) <==> !layout_ok(
                mesh.config.rows,
                mesh.config.cols,
            ),
            r matches Err(SimError::VertexCountMismatch) <==> layout_ok(
                mesh.config.rows,
                mesh.config.cols,
            ) && initial@.len() != mesh.config.rows as int * mesh.config.cols as int,
            r matches Err(SimError::SpringOutOfRange) <==> layout_ok(
                mesh.config.rows,
                mesh.config.cols,
            ) && initial@.len() == mesh.config.rows as int * mesh.config.cols as int
                && has_out_of_range(
                mesh.springs@,
                mesh.config.rows as int * mesh.config.cols as int,
            ),
            r matches Ok(st) ==> {
                &&& st.wf()
                &&& st.lane_count() == mesh.config.rows as int * mesh.config.cols as int
                &&& st.lanes() == initial@
                &&& st.spring_seq() == kept_springs(mesh.springs@)
            },
    {
        let rows = mesh.config.rows;
        let cols = mesh.config.cols;
        proof {
            assert(rows as int * cols as int <= u32::MAX as int * u32::MAX as int)
                by (nonlinear_arith)
                requires
                    rows <= u32::MAX,
                    cols <= u32::MAX,
            ;
        }
        if rows < 2 || cols < 2 || rows as u64 * cols as u64 > u32::MAX as u64 {
            return Err(SimError::InvalidConfiguration);
        }
        let n: u32 = rows * cols;
        if initial.len() != n as usize {
            return Err(SimError::VertexCountMismatch);
        }
        let mut k: usize = 0;
        while k < mesh.springs.len()
            invariant
                layout_ok(rows, cols),
                n == rows as int * cols as int,
                initial@.len() == n,
                (rows, cols) == (mesh.config.rows, mesh.config.cols),
                k <= mesh.springs@.len(),
                forall|t: int|
                    0 <= t < k ==> (#[trigger] mesh.springs@[t]).index_a < n
                        && mesh.springs@[t].index_b < n,
            decreases mesh.springs@.len() - k,
        {
            let s = mesh.springs[k];
            if s.index_a >= n || s.index_b >= n {
                return Err(SimError::SpringOutOfRange);
            }
            k = k + 1;
        }
        let mut neighbors: Vec<Vec<Neighbor>> = Vec::new();
        let mut v: u32 = 0;
        while v < n
            invariant
                v <= n,
                neighbors@.len() == v,
                forall|u: int| 0 <= u < v ==> (#[trigger] neighbors[u])@ == Seq::<Neighbor>::empty(),
            decreases n - v,
        {
            neighbors.push(Vec::new());
            v = v + 1;
        }
        let ghost all = mesh.springs@;
        let ghost keep = |x: Spring| !is_degenerate(x);
        let mut springs: Vec<Spring> = Vec::new();
        let mut k: usize = 0;
        while k < mesh.springs.len()
            invariant
                all == mesh.springs@,
                keep == (|x: Spring| !is_degenerate(x)),
                k <= all.len(),
                forall|t: int| 0 <= t < all.len() ==> (#[trigger] all[t]).index_a < n && all[t].index_b < n,
                springs@ == all.take(k as int).filter(keep),
                forall|t: int|
                    0 <= t < springs@.len() ==> {
                        &&& !is_degenerate(#[trigger] springs@[t])
                        &&& springs@[t].index_a < n
                        &&& springs@[t].index_b < n
                    },
                neighbors@.len() == n,
                forall|u: int| 0 <= u < n ==> (#[trigger] neighbors[u])@ == incident(springs@, u),
            decreases all.len() - k,
        {
            let s = mesh.springs[k];
            proof {
                assert(all.take(k as int + 1).drop_last() =~= all.take(k as int));
                reveal(Seq::filter);
            }
            if s.index_a != s.index_b {
                let ghost before = springs@;
                springs.push(s);
                neighbors[s.index_a as usize].push(Neighbor { index: s.index_b, kind: s.kind });
                neighbors[s.index_b as usize].push(Neighbor { index: s.index_a, kind: s.kind });
                proof {
                    assert(springs@.drop_last() =~= before);
                    assert forall|u: int| 0 <= u < n implies (#[trigger] neighbors[u])@ == incident(
                        springs@,
                        u,
                    ) by {}
                }
            }
            k = k + 1;
        }
        proof {
            assert(all.take(all.len() as int) =~= all);
        }
        let back: Vec<T> = Vec::new();
        Ok(SimulationState { springs, neighbors, front: initial, back, vertex_count: n })
    }

    /// Advances every lane by one step. Lane `i` becomes `f(i, current, springs
    /// of i)`, where `current` is the whole buffer as it stood before the
    /// step: no lane sees another lane's new value.
    pub fn step<F>(&mut self, f: F)
        where
            F: Fn(usize, &Vec<T>, &Vec<Neighbor>) -> T,
        requires
            old(self).wf(),
            forall|i: int|
                0 <= i < old(self).lane_count() ==> f.requires(
                    (i as usize, &old(self).lane_buffer(), &#[trigger] old(self).neighbor_list(i)),
                ),
        ensures
            final(self).wf(),
            final(self).lane_count() == old(self).lane_count(),
            final(self).spring_seq() == old(self).spring_seq(),
            forall|v: int|
                0 <= v < old(self).lane_count() ==> #[trigger] final(self).neighbor_list(v)
                    == old(self).neighbor_list(v),
            final(self).lanes().len() == old(self).lanes().len(),
            forall|i: int|
                0 <= i < old(self).lane_count() ==> f.ensures(
                    (i as usize, &old(self).lane_buffer(), &old(self).neighbor_list(i)),
                    #[trigger] final(self).lanes()[i],
                ),
    {
        let n = self.vertex_count as usize;
        self.back.clear();
        let mut i: usize = 0;
        while i < n
            invariant
                n == old(self).vertex_count,
                self.front == old(self).front,
                self.springs == old(self).springs,
                self.neighbors == old(self).neighbors,
                self.vertex_count == old(self).vertex_count,
                old(self).wf(),
                forall|j: int|
                    0 <= j < old(self).lane_count() ==> f.requires(
                        (j as usize, &old(self).lane_buffer(), &#[trigger] old(self).neighbor_list(j)),
                    ),
                i <= n,
                self.back@.len() == i,
                forall|j: int|
                    0 <= j < i ==> f.ensures(
                        (j as usize, &old(self).lane_buffer(), &old(self).neighbor_list(j)),
                        #[trigger] self.back@[j],
                    ),
            decreases n - i,
        {
            proof {
                let nb = old(self).neighbor_list(i as int);
                assert(f.requires((i, &old(self).lane_buffer(), &nb)));
            }
            let next = f(i, &self.front, &self.neighbors[i]);
            self.back.push(next);
            i = i + 1;
        }
        std::mem::swap(&mut self.front, &mut self.back);
    }

    /// The current lane states, one per vertex.
    pub fn current(&self) -> (r: &Vec<T>)
        ensures
            r@ == self.lanes(),
    {
        &self.front
    }

    /// The springs that touch vertex `v`, each seen from `v`.
    pub fn neighbors(&self, v: usize) -> (r: &Vec<Neighbor>)
        requires
            self.wf(),
            v < self.lane_count(),
        ensures
            r@ == incident(self.spring_seq(), v as int),
    {
        &self.neighbors[v]
    }

    /// The springs in use.
    pub fn springs(&self) -> (r: &Vec<Spring>)
        ensures
            r@ == self.spring_seq(),
    {
        &self.springs
    }

    /// Number of vertices, as sent to the simulation stage each frame.
    pub fn vertex_count(&self) -> (r: u32)
        ensures
            r == self.lane_count(),
    {
        self.vertex_count
    }
}

} // verus!
