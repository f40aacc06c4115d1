use vstd::prelude::*;

use crate::instances::{no_instance, SoftBodyInstanceData};
use crate::soft_body_compute::SoftBodyCompute;
use crate::vertices::{bytes_of, resized, vertex_buffer_size, SoftBodyVertex2dBuffer};

verus! {

/// Registers the node buffer, its shader library and the systems that move the
/// nodes, centre the bodies and upload the buffers each frame.
pub struct SoftBodyNodesPlugin;

/// The nodes of one body that could be resolved, in order: the `Some` entries of `body`.
pub open spec fn resolved<T>(body: Seq<Option<T>>) -> Seq<T>
    decreases body.len(),
{
    if body.len() == 0 {
        Seq::empty()
    } else {
        let prev = resolved(body.drop_last());
        match body.last() {
            Some(n) => prev.push(n),
            None => prev,
        }
    }
}

/// The resolved nodes of all bodies, laid out one body after the other.
pub open spec fn packed<T>(bodies: Seq<Vec<Option<T>>>) -> Seq<T>
    decreases bodies.len(),
{
    if bodies.len() == 0 {
        Seq::empty()
    } else {
        packed(bodies.drop_last()) + resolved(bodies.last()@)
    }
}

/// Where the nodes of body `b` start in the packed node buffer.
pub open spec fn instance_offset<T>(bodies: Seq<Vec<Option<T>>>, b: int) -> int {
    packed(bodies.take(b)).len() as int
}

/// The instance record that body `b` gets.
pub open spec fn instance_of<T>(bodies: Seq<Vec<Option<T>>>, b: int) -> SoftBodyInstanceData {
    SoftBodyInstanceData {
        node_offset: instance_offset(bodies, b) as u32,
        node_length: resolved(bodies[b]@).len() as u32,
    }
}

/// The buffers that one frame uploads: the node buffer and the instance buffer.
pub struct PackedBuffers<T> {
    pub nodes: Vec<T>,
    pub instances: Vec<SoftBodyInstanceData>,
}

/// A soft body: a set of nodes whose positions shape one deformable mesh instance.
pub struct SoftBody;

impl SoftBody {
    pub const MAX_NODES: usize = 1024;

    pub const MAX_INSTANCES: usize = 256;

    /// Whether the bodies fit the fixed-size buffers that `update_buffers` fills.
    pub open spec fn fits<T>(bodies: Seq<Vec<Option<T>>>) -> bool {
        &&& bodies.len() <= Self::MAX_INSTANCES
        &&& packed(bodies).len() <= Self::MAX_NODES
    }

    /// What adding a soft body does to the instance count and to the contents of
    /// the vertex buffer, whose vertices take `element_size` bytes each: one more
    /// instance, and the buffer resized for the new count.
    pub fn on_add(
        compute: &mut SoftBodyCompute,
        vertex_data: &mut Option<Vec<u8>>,
        element_size: usize,
    )
        requires
            old(compute).num_instances < u32::MAX,
            vertex_buffer_size(element_size as int, old(compute).num_instances + 1)
                <= usize::MAX,
        ensures
            final(compute).num_instances == old(compute).num_instances + 1,
            final(compute).num_vertices_per_instance == old(compute).num_vertices_per_instance,
            bytes_of(*final(vertex_data)) == resized(
                bytes_of(*old(vertex_data)),
                vertex_buffer_size(element_size as int, final(compute).num_instances as int) as nat,
            ),
    {
        let num_instances: u32 = compute.add_instance();
        SoftBodyVertex2dBuffer::resize_buffer(num_instances, element_size, vertex_data);
    }

    /// What removing a soft body does to the instance count and to the contents
    /// of the vertex buffer: one instance less, and the buffer resized for the new
    /// count.
    pub fn on_remove(
        compute: &mut SoftBodyCompute,
        vertex_data: &mut Option<Vec<u8>>,
        element_size: usize,
    )
        requires
            old(compute).num_instances > 0,
            vertex_buffer_size(element_size as int, old(compute).num_instances - 1)
                <= usize::MAX,
        ensures
            final(compute).num_instances == old(compute).num_instances - 1,
            final(compute).num_vertices_per_instance == old(compute).num_vertices_per_instance,
            bytes_of(*final(vertex_data)) == resized(
                bytes_of(*old(vertex_data)),
                vertex_buffer_size(element_size as int, final(compute).num_instances as int) as nat,
            ),
    {
        let num_instances: u32 = compute.remove_instance();
        SoftBodyVertex2dBuffer::resize_buffer(num_instances, element_size, vertex_data);
    }

    /// Whether `update_buffers` can take these bodies: at most `MAX_INSTANCES`
    /// bodies with at most `MAX_NODES` resolved nodes among them.
    pub fn fits_buffers<T>(bodies: &Vec<Vec<Option<T>>>) -> (r: bool)
        ensures
            r == Self::fits(bodies@),
            r == (bodies@.len() <= 256 && packed(bodies@).len() <= 1024),
    {
        if bodies.len() > Self::MAX_INSTANCES {
            return false;
        }
        let mut total: usize = 0;
        let mut b: usize = 0;
        while b < bodies.len()
            invariant
                b <= bodies@.len(),
                total == packed(bodies@.take(b as int)).len(),
                total <= Self::MAX_NODES,
            decreases bodies@.len() - b,
        {
            proof {
                lemma_packed_take_step(bodies@, b as int);
            }
            let body = &bodies[b];
            let mut k: usize = 0;
            let mut count: usize = 0;
            while k < body.len()
                invariant
                    k <= body@.len(),
                    count == resolved(body@.take(k as int)).len(),
                    count <= k,
                decreases body@.len() - k,
            {
                proof {
                    lemma_resolved_take_step(body@, k as int);
                }
                if body[k].is_some() {
                    count = count + 1;
                }
                k = k + 1;
            }
            proof {
                assert(body@.take(body@.len() as int) =~= body@);
            }
            if count > Self::MAX_NODES - total {
                proof {
                    lemma_packed_take_len(bodies@, b as int + 1);
                }
                return false;
            }
            total = total + count;
            b = b + 1;
        }
        proof {
            assert(bodies@.take(bodies@.len() as int) =~= bodies@);
        }
        true
    }

    /// Copies the resolved nodes of every body, one body after the other, into a
    /// node buffer of `MAX_NODES` slots, and records for each body the range it
    /// occupies in an instance buffer of `MAX_INSTANCES` slots. A body's entry is
    /// `None` for a node that could not be found; such nodes are skipped. Slots past
    /// the written ones hold `empty_node` and the empty range. The compute pass
    /// is told how many instances are in use: one per body.
    pub fn update_buffers<T: Copy>(
        compute: &mut SoftBodyCompute,
        bodies: &Vec<Vec<Option<T>>>,
        empty_node: T,
    ) -> (r: PackedBuffers<T>)
        requires
            bodies@.len() <= Self::MAX_INSTANCES,
            packed(bodies@).len() <= Self::MAX_NODES,
        ensures
            final(compute).num_instances == bodies@.len(),
            final(compute).num_vertices_per_instance == old(compute).num_vertices_per_instance,
            r.nodes@.len() == Self::MAX_NODES,
            r.instances@.len() == Self::MAX_INSTANCES,
            forall|i: int|
                0 <= i < Self::MAX_NODES ==> #[trigger] r.nodes@[i] == if i < packed(bodies@).len() {
                    packed(bodies@)[i]
                } else {
                    empty_node
                },
            forall|b: int|
                0 <= b < Self::MAX_INSTANCES ==> #[trigger] r.instances@[b] == if b < bodies@.len() {
                    instance_of(bodies@, b)
                } else {
                    no_instance()
                },
    {
        let mut all_nodes: Vec<T> = Vec::new();
        let mut all_instances: Vec<SoftBodyInstanceData> = Vec::new();
        while all_nodes.len() < Self::MAX_NODES
            invariant
                all_nodes@.len() <= Self::MAX_NODES,
                forall|i: int| 0 <= i < all_nodes@.len() ==> #[trigger] all_nodes@[i] == empty_node,
            decreases Self::MAX_NODES - all_nodes@.len(),
        {
            all_nodes.push(empty_node);
        }
        while all_instances.len() < Self::MAX_INSTANCES
            invariant
                all_instances@.len() <= Self::MAX_INSTANCES,
                forall|i: int|
                    0 <= i < all_instances@.len() ==> #[trigger] all_instances@[i]
                        == no_instance(),
            decreases Self::MAX_INSTANCES - all_instances@.len(),
        {
            all_instances.push(SoftBodyInstanceData::default());
        }

        let mut node_i: usize = 0;
        let mut instance_i: usize = 0;
        while instance_i < bodies.len()
            invariant
                Self::fits(bodies@),
                instance_i <= bodies@.len(),
                node_i == packed(bodies@.take(instance_i as int)).len(),
                node_i <= packed(bodies@).len(),
                all_nodes@.len() == Self::MAX_NODES,
                all_instances@.len() == Self::MAX_INSTANCES,
                forall|i: int|
                    0 <= i < Self::MAX_NODES ==> #[trigger] all_nodes@[i] == if i < node_i {
                        packed(bodies@)[i]
                    } else {
                        empty_node
                    },
                forall|b: int|
                    0 <= b < Self::MAX_INSTANCES ==> #[trigger] all_instances@[b] == if b
                        < instance_i {
                        instance_of(bodies@, b)
                    } else {
                        no_instance()
                    },
            decreases bodies@.len() - instance_i,
        {
            let ghost b = instance_i as int;
            proof {
                lemma_packed_take_step(bodies@, b);
                lemma_packed_take_len(bodies@, b + 1);
                lemma_packed_take_len(bodies@, b);
            }
            let ghost whole = packed(bodies@);
            let ghost before = packed(bodies@.take(b));
            let node_offset: usize = node_i;
            let body = &bodies[instance_i];
            let mut k: usize = 0;
            while k < body.len()
                invariant
                    Self::fits(bodies@),
                    0 <= b < bodies@.len(),
                    body@ == bodies@[b]@,
                    before == packed(bodies@.take(b)),
                    whole == packed(bodies@),
                    packed(bodies@.take(b + 1)) == before + resolved(body@),
                    packed(bodies@.take(b + 1)) =~= whole.take(packed(bodies@.take(b + 1)).len() as int),
                    packed(bodies@.take(b + 1)).len() <= whole.len(),
                    node_offset == before.len(),
                    k <= body@.len(),
                    node_i == node_offset + resolved(body@.take(k as int)).len(),
                    resolved(body@.take(k as int)).len() <= resolved(body@).len(),
                    resolved(body@.take(k as int)) =~= resolved(body@).take(resolved(body@.take(k as int)).len() as int),
                    all_nodes@.len() == Self::MAX_NODES,
                    forall|i: int|
                        0 <= i < Self::MAX_NODES ==> #[trigger] all_nodes@[i] == if i < node_i {
                            whole[i]
                        } else {
                            empty_node
                        },
                decreases body@.len() - k,
            {
                proof {
                    lemma_resolved_take_step(body@, k as int);
                    lemma_resolved_take_len(body@, k as int + 1);
                }
                if let Some(n) = &body[k] {
                    proof {
                        let m: int = resolved(body@.take(k as int)).len() as int;
                        assert(resolved(body@.take(k as int + 1))[m] == *n);
                        assert(resolved(body@)[m] == *n);
                        assert(packed(bodies@.take(b + 1))[node_offset + m] == *n);
                        assert(whole[node_i as int] == *n);
                    }
                    all_nodes.set(node_i, *n);
                    node_i = node_i + 1;
                }
                k = k + 1;
            }
            proof {
                assert(body@.take(body@.len() as int) =~= body@);
            }
            all_instances.set(
                instance_i,
                SoftBodyInstanceData {
                    node_offset: node_offset as u32,
                    node_length: (node_i - node_offset) as u32,
                },
            );
            instance_i = instance_i + 1;
        }
        proof {
            assert(bodies@.take(bodies@.len() as int) =~= bodies@);
        }
        compute.num_instances = instance_i as u32;
        PackedBuffers { nodes: all_nodes, instances: all_instances }
    }
}

proof fn lemma_resolved_take_step<T>(body: Seq<Option<T>>, k: int)
    requires
        0 <= k < body.len(),
    ensures
        resolved(body.take(k + 1)) == match body[k] {
            Some(n) => resolved(body.take(k)).push(n),
            None => resolved(body.take(k)),
        },
{
    assert(body.take(k + 1).drop_last() =~= body.take(k));
}

proof fn lemma_resolved_take_len<T>(body: Seq<Option<T>>, k: int)
    requires
        0 <= k <= body.len(),
    ensures
        resolved(body.take(k)).len() <= resolved(body).len(),
        resolved(body.take(k)) =~= resolved(body).take(resolved(body.take(k)).len() as int),
    decreases body.len() - k,
{
    if k == body.len() {
        assert(body.take(k) =~= body);
    } else {
        lemma_resolved_take_step(body, k);
        lemma_resolved_take_len(body, k + 1);
    }
}

proof fn lemma_packed_take_step<T>(bodies: Seq<Vec<Option<T>>>, b: int)
    requires
        0 <= b < bodies.len(),
    ensures
        packed(bodies.take(b + 1)) == packed(bodies.take(b)) + resolved(bodies[b]@),
{
    assert(bodies.take(b + 1).drop_last() =~= bodies.take(b));
}

proof fn lemma_packed_take_len<T>(bodies: Seq<Vec<Option<T>>>, b: int)
    requires
        0 <= b <= bodies.len(),
    ensures
        packed(bodies.take(b)).len() <= packed(bodies).len(),
        packed(bodies.take(b)) =~= packed(bodies).take(packed(bodies.take(b)).len() as int),
    decreases bodies.len() - b,
{
    if b == bodies.len() {
        assert(bodies.take(b) =~= bodies);
    } else {
        lemma_packed_take_step(bodies, b);
        lemma_packed_take_len(bodies, b + 1);
    }
}

/// The instance ranges tile the packed node buffer: the first body starts at
/// offset zero, each body starts where the one before it ends, the last one ends
/// where the packed nodes end, and the nodes in body `b`'s range are exactly the
/// resolved nodes of body `b`, in order. On bodies that fit the buffers, the
/// recorded `u32` offsets and lengths are the exact values.
pub proof fn lemma_instance_ranges_tile<T>(bodies: Seq<Vec<Option<T>>>, b: int)
    requires
        SoftBody::fits(bodies),
        0 <= b < bodies.len(),
    ensures
        instance_of(bodies, 0).node_offset == 0,
        instance_of(bodies, b).node_offset == instance_offset(bodies, b),
        instance_of(bodies, b).node_length == resolved(bodies[b]@).len(),
        instance_of(bodies, b).node_offset + instance_of(bodies, b).node_length <= packed(
            bodies,
        ).len(),
        b + 1 < bodies.len() ==> instance_of(bodies, b + 1).node_offset == instance_of(
            bodies,
            b,
        ).node_offset + instance_of(bodies, b).node_length,
        b + 1 == bodies.len() ==> instance_of(bodies, b).node_offset + instance_of(
            bodies,
            b,
        ).node_length == packed(bodies).len(),
        forall|k: int|
            0 <= k < instance_of(bodies, b).node_length ==> packed(bodies)[instance_of(
                bodies,
                b,
            ).node_offset + k] == #[trigger] resolved(bodies[b]@)[k],
{
    assert(bodies.take(0) =~= Seq::<Vec<Option<T>>>::empty());
    lemma_packed_take_step(bodies, b);
    lemma_packed_take_len(bodies, b);
    lemma_packed_take_len(bodies, b + 1);
    if b + 1 < bodies.len() {
        lemma_packed_take_len(bodies, b + 1);
    } else {
        assert(bodies.take(b + 1) =~= bodies);
    }
    let whole = packed(bodies);
    let next = packed(bodies.take(b + 1));
    let before = packed(bodies.take(b));
    assert forall|k: int| 0 <= k < resolved(bodies[b]@).len() implies whole[before.len() + k]
        == #[trigger] resolved(bodies[b]@)[k] by {
        assert(next[before.len() + k] == resolved(bodies[b]@)[k]);
    }
}

/// A body never contributes more nodes than it names.
pub proof fn lemma_resolved_len<T>(body: Seq<Option<T>>)
    ensures
        resolved(body).len() <= body.len(),
    decreases body.len(),
{
    if body.len() > 0 {
        lemma_resolved_len(body.drop_last());
    }
}

/// The vertex buffer is sized for `num_instances` instances, or holds no contents.
pub open spec fn vertex_buffer_fits(data: Option<Seq<u8>>, element_size: int, num_instances: int) -> bool {
    match data {
        Some(v) => v.len() == vertex_buffer_size(element_size, num_instances),
        None => true,
    }
}

/// Whatever the vertex buffer held before, after a soft body is added or removed
/// it is sized for the new instance count, or still holds no contents.
pub proof fn lemma_resize_keeps_buffer_fitting(data: Option<Seq<u8>>, element_size: nat, n: nat)
    ensures
        vertex_buffer_fits(
            resized(data, vertex_buffer_size(element_size as int, n as int) as nat),
            element_size as int,
            n as int,
        ),
{
    assert(0 <= element_size * n * 64) by (nonlinear_arith);
}

/// Adding a soft body and then removing one gives back the vertex buffer exactly
/// as it was, where it was sized for the old instance count.
pub proof fn lemma_add_then_remove_restores(data: Option<Seq<u8>>, element_size: nat, n: nat)
    requires
        vertex_buffer_fits(data, element_size as int, n as int),
    ensures
        resized(
            resized(data, vertex_buffer_size(element_size as int, (n + 1) as int) as nat),
            vertex_buffer_size(element_size as int, n as int) as nat,
        ) == data,
{
    let small: int = vertex_buffer_size(element_size as int, n as int);
    let big: int = vertex_buffer_size(element_size as int, (n + 1) as int);
    assert(0 <= small <= big) by (nonlinear_arith)
        requires
            small == element_size * n * 64,
            big == element_size * ((n + 1) as int) * 64,
    ;
    match data {
        Some(v) => {
            let grown = v + Seq::new((big - v.len()) as nat, |i: int| 0u8);
            assert(grown.take(small) =~= v);
        },
        None => {},
    }
}

/// Removing a soft body and then adding one gives back a vertex buffer of the old
/// size that keeps the bytes of every remaining instance and holds zero bytes for
/// the instance added.
pub proof fn lemma_remove_then_add_zeroes_last(data: Option<Seq<u8>>, element_size: nat, n: nat)
    requires
        n >= 1,
        vertex_buffer_fits(data, element_size as int, n as int),
    ensures
        resized(
            resized(data, vertex_buffer_size(element_size as int, (n - 1) as int) as nat),
            vertex_buffer_size(element_size as int, n as int) as nat,
        ) == match data {
            Some(v) => Some(
                v.take(vertex_buffer_size(element_size as int, (n - 1) as int)) + Seq::new(
                    (v.len() - vertex_buffer_size(element_size as int, (n - 1) as int)) as nat,
                    |i: int| 0u8,
                ),
            ),
            None => None::<Seq<u8>>,
        },
{
    let small: int = vertex_buffer_size(element_size as int, (n - 1) as int);
    let big: int = vertex_buffer_size(element_size as int, n as int);
    assert(0 <= small <= big) by (nonlinear_arith)
        requires
            small == element_size * ((n - 1) as int) * 64,
            big == element_size * n * 64,
            n >= 1,
    ;
}

/// Bodies fit the buffers exactly when there are at most 256 of them and they
/// have at most 1024 resolved nodes in all, however those nodes are spread over
/// the bodies.
pub proof fn lemma_fits_exactly<T>(bodies: Seq<Vec<Option<T>>>)
    ensures
        SoftBody::fits(bodies) <==> (bodies.len() <= 256 && packed(bodies).len() <= 1024),
{
}

/// The resolved nodes of a body are its `Some` entries, in order: none for no
/// entries, one more for a found node, the same for a node not found.
pub proof fn lemma_resolved_steps<T>(body: Seq<Option<T>>, node: T)
    ensures
        resolved(Seq::<Option<T>>::empty()) == Seq::<T>::empty(),
        resolved(body.push(Some(node))) == resolved(body).push(node),
        resolved(body.push(None)) == resolved(body),
{
    assert(body.push(Some(node)).drop_last() =~= body);
    assert(body.push(None::<T>).drop_last() =~= body);
}

/// The packed nodes of some bodies are those of all but the last body, followed
/// by the resolved nodes of the last one; with no bodies there are none.
pub proof fn lemma_packed_steps<T>(bodies: Seq<Vec<Option<T>>>, body: Vec<Option<T>>)
    ensures
        packed(Seq::<Vec<Option<T>>>::empty()).len() == 0,
        packed(bodies.push(body)) == packed(bodies) + resolved(body@),
{
    assert(bodies.push(body).drop_last() =~= bodies);
}

} // verus!
