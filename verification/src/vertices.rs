use vstd::prelude::*;

verus! {

/// Registers the vertex buffer and its shader libraries with an application.
pub struct SoftBodyVerticesPlugin;

/// The bytes of a buffer's contents, where it holds any.
pub open spec fn bytes_of(data: Option<Vec<u8>>) -> Option<Seq<u8>> {
    match data {
        Some(v) => Some(v@),
        None => None,
    }
}

/// `data` cut or padded with zero bytes to `len` bytes; no contents stay none.
pub open spec fn resized(data: Option<Seq<u8>>, len: nat) -> Option<Seq<u8>> {
    match data {
        Some(v) => Some(
            if len <= v.len() {
                v.take(len as int)
            } else {
                v + Seq::new((len - v.len()) as nat, |i: int| 0u8)
            },
        ),
        None => None,
    }
}

/// The size in bytes of a vertex buffer for `num_instances` instances whose
/// vertices take `element_size` bytes each.
pub open spec fn vertex_buffer_size(element_size: int, num_instances: int) -> int {
    element_size * num_instances * SoftBodyVertex2dBuffer::NUM_VERTICES_PER_INSTANCE
}

/// The storage buffer that holds the vertices of every soft-body instance,
/// `NUM_VERTICES_PER_INSTANCE` per instance.
pub struct SoftBodyVertex2dBuffer;

impl SoftBodyVertex2dBuffer {
    pub const NUM_VERTICES_PER_INSTANCE: u32 = 64;

    /// Resizes the vertex buffer's contents to support the given number of
    /// instances, where a vertex takes `element_size` bytes: cut to the new size,
    /// or padded with zero bytes. A buffer without contents is left as it is.
    pub fn resize_buffer(num_instances: u32, element_size: usize, data: &mut Option<Vec<u8>>)
        requires
            vertex_buffer_size(element_size as int, num_instances as int) <= usize::MAX,
        ensures
            bytes_of(*final(data)) == resized(
                bytes_of(*old(data)),
                vertex_buffer_size(element_size as int, num_instances as int) as nat,
            ),
            old(data).is_none() ==> final(data).is_none(),
            old(data).is_some() ==> final(data).is_some() && final(data).unwrap()@.len()
                == element_size * num_instances * 64,
            old(data).is_some() ==> forall|i: int|
                0 <= i < final(data).unwrap()@.len() ==> #[trigger] final(data).unwrap()@[i] == if i
                    < old(data).unwrap()@.len() {
                    old(data).unwrap()@[i]
                } else {
                    0u8
                },
    {
        proof {
            assert(0 <= element_size * num_instances <= element_size * num_instances * 64)
                by (nonlinear_arith);
        }
        let new_buffer_size: usize = element_size * (num_instances as usize)
            * (SoftBodyVertex2dBuffer::NUM_VERTICES_PER_INSTANCE as usize);
        match data {
            Some(bytes) => {
                let ghost before = bytes@;
                bytes.resize(new_buffer_size, 0u8);
                proof {
                    if new_buffer_size > before.len() {
                        assert(bytes@ =~= before + Seq::new(
                            (new_buffer_size - before.len()) as nat,
                            |i: int| 0u8,
                        )) by {
                            assert forall|i: int|
                                before.len() <= i < new_buffer_size implies bytes@[i] == 0u8 by {
                                assert(cloned::<u8>(0u8, bytes@[i]));
                            }
                            assert(bytes@.subrange(0, before.len() as int) == before);
                            assert forall|i: int| 0 <= i < before.len() implies bytes@[i]
                                == before[i] by {
                                assert(bytes@.subrange(0, before.len() as int)[i] == bytes@[i]);
                            }
                        }
                    }
                }
            },
            None => {},
        }
    }
}

/// A vertex buffer holds `NUM_VERTICES_PER_INSTANCE` (64) vertices per instance.
pub proof fn lemma_vertex_buffer_size(element_size: int, num_instances: int)
    ensures
        vertex_buffer_size(element_size, num_instances) == element_size * num_instances * 64,
{
}

/// Resizing keeps the bytes that fit, fills the rest with zeros, and leaves a
/// buffer without contents as it is.
pub proof fn lemma_resized_plain(data: Option<Seq<u8>>, len: nat)
    ensures
        data is None ==> resized(data, len) is None,
        data is Some ==> resized(data, len) is Some && resized(data, len)->0.len() == len,
        data is Some ==> forall|i: int|
            0 <= i < len ==> #[trigger] resized(data, len)->0[i] == if i < data->0.len() {
                data->0[i]
            } else {
                0u8
            },
{
}

} // verus!
