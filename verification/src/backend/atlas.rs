//! Guest storage of cocos2d texture atlases: the quad buffer on the
//! synthetic heap, grown (keeping its quads) when a larger capacity is
//! asked for, and cleared on request.
use vstd::prelude::*;
use crate::text::{dec_seq, hex_prefixed, push_dec, push_hex_prefixed};
use super::{span_bytes, span_mapped, write_span, MemoryArm32Backend};
use super::heap::{alloc_fill, alloc_outcome, fill_seq, fill_vec, heap_after_alloc, sat_add, sat_sub};
use super::RegionView;
use super::registers::sat_mul;
use super::textures::{BackendTextureState, SyntheticTextureAtlasState};
use super::guest_strings::spec_describe_ptr;

verus! {

/// The size of one quad in the guest buffer.
pub const ATLAS_QUAD_STRIDE: u32 = 96;

/// The state of an atlas that has none yet.
pub open spec fn default_atlas() -> SyntheticTextureAtlasState {
    SyntheticTextureAtlasState {
        texture: 0,
        capacity: 0,
        total_quads: 0,
        quad_buffer_ptr: 0,
        quad_stride: 0,
        update_count: 0,
        invalid_update_count: 0,
        last_index: None,
        max_index_seen: None,
    }
}

/// The state of atlas `atlas` (a fresh one when it has none).
pub open spec fn atlas_of(t: BackendTextureState, atlas: u32) -> SyntheticTextureAtlasState {
    if t.synthetic_texture_atlases@.contains_key(atlas) {
        t.synthetic_texture_atlases@[atlas]
    } else {
        default_atlas()
    }
}

/// The capacity asked for, at least one quad.
pub open spec fn atlas_request(requested: u32) -> u32 {
    if requested == 0 {
        1
    } else {
        requested
    }
}

/// The bytes a buffer of `req` quads takes (saturating, at least one quad).
pub open spec fn atlas_bytes(req: u32) -> u32 {
    if sat_mul(req, ATLAS_QUAD_STRIDE) < ATLAS_QUAD_STRIDE {
        ATLAS_QUAD_STRIDE
    } else {
        sat_mul(req, ATLAS_QUAD_STRIDE)
    }
}

/// How many bytes of the old buffer move to a new one of `bytes` bytes.
pub open spec fn atlas_copy_len(cur: SyntheticTextureAtlasState, bytes: u32) -> u32 {
    let stride = if cur.quad_stride > ATLAS_QUAD_STRIDE {
        cur.quad_stride
    } else {
        ATLAS_QUAD_STRIDE
    };
    let n = sat_mul(cur.capacity, stride);
    if n < bytes {
        n
    } else {
        bytes
    }
}

/// The heap tag of the quad buffer of atlas `atlas`.
pub open spec fn atlas_tag(atlas: u32) -> Seq<char> {
    "TextureAtlas.quads("@ + hex_prefixed(atlas as nat, 8) + ")"@
}

/// `t1` is `t0` with atlas `atlas` in state `st`.
pub open spec fn atlas_set(t0: BackendTextureState, t1: BackendTextureState, atlas: u32, st: SyntheticTextureAtlasState) -> bool {
    &&& t1 == (BackendTextureState { synthetic_texture_atlases: t1.synthetic_texture_atlases, ..t0 })
    &&& t1.synthetic_texture_atlases@ == t0.synthetic_texture_atlases@.insert(atlas, st)
}

/// Only the heap, guest memory, the write log and the texture state differ
/// between `a` and `b`.
pub open spec fn atlas_frame(a: MemoryArm32Backend, b: MemoryArm32Backend) -> bool {
    &&& b.cpu == a.cpu
    &&& b.tuning == a.tuning
    &&& b.execution == a.execution
    &&& b.profile == a.profile
    &&& b.address_space.trampoline_addr == a.address_space.trampoline_addr
    &&& b.address_space.trampoline_size == a.address_space.trampoline_size
    &&& b.diag.symbol_labels == a.diag.symbol_labels
    &&& b.diag.object_labels == a.diag.object_labels
    &&& b.runtime.objc == a.runtime.objc
    &&& b.runtime.ui_network == a.runtime.ui_network
    &&& b.runtime.network_fault_history == a.runtime.network_fault_history
    &&& b.runtime.ui_objects == a.runtime.ui_objects
    &&& b.runtime.ui_runtime == a.runtime.ui_runtime
    &&& b.runtime.openal == a.runtime.openal
    &&& b.runtime.audio_queue == a.runtime.audio_queue
    &&& b.runtime.graphics == a.runtime.graphics
    &&& b.runtime.recent_gl_calls == a.runtime.recent_gl_calls
    &&& b.runtime.gl_call_counts == a.runtime.gl_call_counts
    &&& b.runtime.foundation == a.runtime.foundation
}

/// `b` is `a` after making sure atlas `atlas` has room for `requested`
/// quads, and `r` is its buffer:
/// - a buffer already large enough is kept;
/// - otherwise a zeroed buffer for the request is placed on the heap, the
///   old buffer's quads (as far as they fit) are copied into it, and the
///   atlas takes it with stride 96 and at least the requested capacity;
/// - when the heap cannot hold it (or hands out address 0) the old buffer
///   stays.
pub open spec fn storage_effect(a: MemoryArm32Backend, b: MemoryArm32Backend, atlas: u32, requested: u32, r: u32) -> bool {
    let cur = atlas_of(a.runtime.textures, atlas);
    let req = atlas_request(requested);
    let bytes = atlas_bytes(req);
    if cur.quad_buffer_ptr != 0 && cur.capacity >= req {
        r == cur.quad_buffer_ptr && b == a
    } else {
        match alloc_outcome(a, bytes) {
            None => r == cur.quad_buffer_ptr && b == a,
            Some((start, reserved)) => {
                let m1 = alloc_fill(a.mem(), start, bytes, reserved, true);
                let w1 = a.diag.writes@.push((start, reserved as usize));
                let copy = atlas_copy_len(cur, bytes);
                &&& atlas_frame(a, b)
                &&& heap_after_alloc(a.runtime.heap, b.runtime.heap, start, bytes, reserved, atlas_tag(atlas))
                &&& if start == 0 {
                    &&& r == cur.quad_buffer_ptr
                    &&& b.mem() == m1
                    &&& b.diag.writes@ == w1
                    &&& b.runtime.textures == a.runtime.textures
                    &&& b.runtime.ui_graphics == a.runtime.ui_graphics
                } else {
                    &&& r == start
                    &&& if cur.quad_buffer_ptr != 0 && copy != 0 && span_mapped(m1, cur.quad_buffer_ptr, copy)
                        && span_mapped(m1, start, copy) {
                        &&& b.mem() == write_span(m1, start, span_bytes(m1, cur.quad_buffer_ptr, copy))
                        &&& b.diag.writes@ == w1.push((start, copy as usize))
                    } else {
                        b.mem() == m1 && b.diag.writes@ == w1
                    }
                    &&& atlas_set(
                        a.runtime.textures,
                        b.runtime.textures,
                        atlas,
                        SyntheticTextureAtlasState {
                            capacity: if cur.capacity > req {
                                cur.capacity
                            } else {
                                req
                            },
                            quad_stride: ATLAS_QUAD_STRIDE,
                            quad_buffer_ptr: start,
                            ..cur
                        },
                    )
                }
            },
        }
    }
}

/// Reading `n` bytes at `from` and writing them at `to`: the memory and
/// write log after, and whether the read succeeded (a failed write changes
/// nothing).
pub open spec fn copy_step(mem: Seq<RegionView>, writes: Seq<(u32, usize)>, from: u32, to: u32, n: u32) -> (
    Seq<RegionView>,
    Seq<(u32, usize)>,
    bool,
) {
    if n > 0 && span_mapped(mem, from, n) {
        if span_mapped(mem, to, n) {
            (write_span(mem, to, span_bytes(mem, from, n)), writes.push((to, n as usize)), true)
        } else {
            (mem, writes, true)
        }
    } else {
        (mem, writes, false)
    }
}

/// The capacity asked for when quad `index` of an atlas of `old_capacity`
/// quads is updated: the current capacity (at least one), or enough for
/// `index`.
pub open spec fn quad_request(old_capacity: u32, index: u32) -> u32 {
    let cur = if old_capacity > 1 {
        old_capacity
    } else {
        1
    };
    if index < cur {
        cur
    } else if cur > sat_add(index, 1) {
        cur
    } else {
        sat_add(index, 1)
    }
}

/// The atlas state after quad `index` was updated, asking for `req`
/// quads: an update past the old capacity counts as invalid; capacity and
/// quad count cover `index`; the index is recorded.
pub open spec fn quad_updated(m: SyntheticTextureAtlasState, old_capacity: u32, index: u32, req: u32) -> SyntheticTextureAtlasState {
    let cur = if old_capacity > 1 {
        old_capacity
    } else {
        1
    };
    SyntheticTextureAtlasState {
        invalid_update_count: if index >= cur {
            sat_add(m.invalid_update_count, 1)
        } else {
            m.invalid_update_count
        },
        capacity: if m.capacity > req {
            m.capacity
        } else {
            req
        },
        total_quads: if m.total_quads > sat_add(index, 1) {
            m.total_quads
        } else {
            sat_add(index, 1)
        },
        last_index: Some(index),
        max_index_seen: Some(
            match m.max_index_seen {
                Some(v) => if v > index {
                    v
                } else {
                    index
                },
                None => index,
            },
        ),
        update_count: sat_add(m.update_count, 1),
        ..m
    }
}

impl MemoryArm32Backend {
    /// The state of atlas `atlas` (a fresh one when it has none).
    pub fn atlas_state(&self, atlas: u32) -> (st: SyntheticTextureAtlasState)
        ensures
            st == atlas_of(self.runtime.textures, atlas),
    {
        match self.runtime.textures.synthetic_texture_atlases.get(&atlas) {
            Some(s) => *s,
            None => SyntheticTextureAtlasState {
                texture: 0,
                capacity: 0,
                total_quads: 0,
                quad_buffer_ptr: 0,
                quad_stride: 0,
                update_count: 0,
                invalid_update_count: 0,
                last_index: None,
                max_index_seen: None,
            },
        }
    }

    /// Records `st` as the state of atlas `atlas`.
    fn set_atlas_state(&mut self, atlas: u32, st: SyntheticTextureAtlasState)
        ensures
            atlas_set(old(self).runtime.textures, final(self).runtime.textures, atlas, st),
            *final(self) == (MemoryArm32Backend {
                runtime: super::BackendRuntimeState { textures: final(self).runtime.textures, ..old(self).runtime },
                ..*old(self)
            }),
    {
        self.runtime.textures.synthetic_texture_atlases.insert(atlas, st);
    }

    /// Makes sure atlas `atlas` has a buffer for `requested_capacity` quads
    /// and returns it (see `storage_effect`).
    pub fn ensure_synthetic_texture_atlas_storage(&mut self, atlas: u32, requested_capacity: u32) -> (r: u32)
        requires
            old(self).wf(),
            old(self).runtime.heap.heap_wf(),
        ensures
            final(self).wf(),
            final(self).runtime.heap.heap_wf(),
            storage_effect(*old(self), *final(self), atlas, requested_capacity, r),
    {
        let req = if requested_capacity == 0 { 1 } else { requested_capacity };
        let cur = self.atlas_state(atlas);
        if cur.quad_buffer_ptr != 0 && cur.capacity >= req {
            return cur.quad_buffer_ptr;
        }
        let product = match req.checked_mul(ATLAS_QUAD_STRIDE) {
            Some(p) => p,
            None => u32::MAX,
        };
        let bytes = if product < ATLAS_QUAD_STRIDE { ATLAS_QUAD_STRIDE } else { product };
        let mut tag = String::from_str("TextureAtlas.quads(");
        push_hex_prefixed(&mut tag, atlas as u64, 8);
        tag.append(")");
        let new_ptr = match self.alloc_synthetic_heap_block(bytes, true, tag) {
            Ok(p) => p,
            Err(_) => 0,
        };
        if new_ptr == 0 {
            return cur.quad_buffer_ptr;
        }
        let ghost m1 = self.mem();
        let ghost w1 = self.diag.writes@;
        if cur.quad_buffer_ptr != 0 {
            let stride = if cur.quad_stride > ATLAS_QUAD_STRIDE { cur.quad_stride } else { ATLAS_QUAD_STRIDE };
            let n = match cur.capacity.checked_mul(stride) {
                Some(v) => v,
                None => u32::MAX,
            };
            let copy = if n < bytes { n } else { bytes };
            if copy != 0 {
                match self.read_guest_bytes(cur.quad_buffer_ptr, copy) {
                    Ok(old_quads) => {
                        let _ = self.write_bytes(new_ptr, old_quads.as_slice());
                    },
                    Err(_) => {},
                }
            }
        }
        let st = SyntheticTextureAtlasState {
            capacity: if cur.capacity > req { cur.capacity } else { req },
            quad_stride: ATLAS_QUAD_STRIDE,
            quad_buffer_ptr: new_ptr,
            ..cur
        };
        self.set_atlas_state(atlas, st);
        new_ptr
    }

    /// Grows atlas `atlas` to at least `requested_capacity` quads (see
    /// `storage_effect`; the recorded capacity is raised even when no
    /// buffer could be had) and describes the change.
    pub fn resize_synthetic_texture_atlas(&mut self, atlas: u32, requested_capacity: u32, selector: &str) -> (line: String)
        requires
            old(self).wf(),
            old(self).runtime.heap.heap_wf(),
        ensures
            final(self).wf(),
            final(self).runtime.heap.heap_wf(),
            exists|mid: MemoryArm32Backend, new_buffer: u32|
                #[trigger] storage_effect(*old(self), mid, atlas, requested_capacity, new_buffer) && ({
                    let req = atlas_request(requested_capacity);
                    let m = atlas_of(mid.runtime.textures, atlas);
                    let new_capacity = if m.capacity > req {
                        m.capacity
                    } else {
                        req
                    };
                    &&& atlas_set(
                        mid.runtime.textures,
                        final(self).runtime.textures,
                        atlas,
                        SyntheticTextureAtlasState { capacity: new_capacity, ..m },
                    )
                    &&& *final(self) == (MemoryArm32Backend {
                        runtime: super::BackendRuntimeState { textures: final(self).runtime.textures, ..mid.runtime },
                        ..mid
                    })
                    &&& line@ == "cocos "@ + selector@ + " textureAtlas oldCapacity="@ + dec_seq(
                        atlas_of(old(self).runtime.textures, atlas).capacity as nat,
                    ) + " -> "@ + dec_seq(new_capacity as nat) + " oldBuffer="@ + spec_describe_ptr(
                        *final(self),
                        atlas_of(old(self).runtime.textures, atlas).quad_buffer_ptr,
                    ) + " newBuffer="@ + spec_describe_ptr(*final(self), new_buffer)
                }),
    {
        let req = if requested_capacity == 0 { 1 } else { requested_capacity };
        let before = self.atlas_state(atlas);
        let new_buffer = self.ensure_synthetic_texture_atlas_storage(atlas, requested_capacity);
        let ghost mid = *self;
        let m = self.atlas_state(atlas);
        let new_capacity = if m.capacity > req { m.capacity } else { req };
        self.set_atlas_state(atlas, SyntheticTextureAtlasState { capacity: new_capacity, ..m });
        proof {
            assert(self.wf());
        }
        let mut line = String::from_str("cocos ");
        line.append(selector);
        line.append(" textureAtlas oldCapacity=");
        push_dec(&mut line, before.capacity as u64);
        line.append(" -> ");
        push_dec(&mut line, new_capacity as u64);
        line.append(" oldBuffer=");
        let old_desc = self.describe_ptr(before.quad_buffer_ptr);
        line.append(old_desc.as_str());
        line.append(" newBuffer=");
        let new_desc = self.describe_ptr(new_buffer);
        line.append(new_desc.as_str());
        line
    }

    /// Zeroes the quads of atlas `atlas` (when it has a buffer and a
    /// capacity), marks it empty and describes the reset.
    pub fn reset_synthetic_texture_atlas_quads(&mut self, atlas: u32, selector: &str) -> (line: String)
        requires
            old(self).wf(),
        ensures
            final(self).wf(),
            ({
                let cur = atlas_of(old(self).runtime.textures, atlas);
                let stride = if cur.quad_stride > 1 {
                    cur.quad_stride
                } else {
                    1
                };
                let has = old(self).runtime.textures.synthetic_texture_atlases@.contains_key(atlas);
                let ptr = if has {
                    cur.quad_buffer_ptr
                } else {
                    0
                };
                let cap = if has {
                    cur.capacity
                } else {
                    0
                };
                let n = sat_mul(cap, if has {
                    stride
                } else {
                    ATLAS_QUAD_STRIDE
                });
                let wrote = ptr != 0 && cap != 0 && n > 0 && span_mapped(old(self).mem(), ptr, n);
                &&& final(self).mem() == (if wrote {
                    write_span(old(self).mem(), ptr, fill_seq(n as nat, 0))
                } else {
                    old(self).mem()
                })
                &&& final(self).diag.writes@ == (if wrote {
                    old(self).diag.writes@.push((ptr, n as usize))
                } else {
                    old(self).diag.writes@
                })
                &&& atlas_set(
                    old(self).runtime.textures,
                    final(self).runtime.textures,
                    atlas,
                    SyntheticTextureAtlasState { total_quads: 0, last_index: None, ..cur },
                )
                &&& atlas_frame(*old(self), *final(self))
                &&& final(self).runtime.heap == old(self).runtime.heap
                &&& line@ == "cocos "@ + selector@ + " textureAtlas reset buffer="@ + spec_describe_ptr(*final(self), ptr)
                    + " capacity="@ + dec_seq(cap as nat)
            }),
    {
        let (buffer_ptr, capacity, stride) = match self.runtime.textures.synthetic_texture_atlases.get(&atlas) {
            Some(st) => (st.quad_buffer_ptr, st.capacity, if st.quad_stride > 1 { st.quad_stride } else { 1 }),
            None => (0, 0, ATLAS_QUAD_STRIDE),
        };
        if buffer_ptr != 0 && capacity != 0 {
            let n = match capacity.checked_mul(stride) {
                Some(v) => v,
                None => u32::MAX,
            };
            let zeroes = fill_vec(n, 0);
            let _ = self.write_bytes(buffer_ptr, zeroes.as_slice());
        }
        let cur = self.atlas_state(atlas);
        self.set_atlas_state(atlas, SyntheticTextureAtlasState { total_quads: 0, last_index: None, ..cur });
        let mut line = String::from_str("cocos ");
        line.append(selector);
        line.append(" textureAtlas reset buffer=");
        let desc = self.describe_ptr(buffer_ptr);
        line.append(desc.as_str());
        line.append(" capacity=");
        push_dec(&mut line, capacity as u64);
        line
    }

    /// Reads `n` bytes at `from` and, when that succeeds, writes them at
    /// `to` (see `copy_step`); returns whether the read succeeded.
    fn copy_guest_bytes(&mut self, from: u32, to: u32, n: u32) -> (ok: bool)
        requires
            old(self).wf(),
            n > 0,
        ensures
            final(self).wf(),
            ({
                let c = copy_step(old(self).mem(), old(self).diag.writes@, from, to, n);
                &&& final(self).mem() == c.0
                &&& final(self).diag.writes@ == c.1
                &&& ok == c.2
                &&& *final(self) == (MemoryArm32Backend {
                    address_space: final(self).address_space,
                    diag: super::BackendDiagnosticsState { writes: final(self).diag.writes, ..old(self).diag },
                    ..*old(self)
                })
                &&& final(self).address_space.trampoline_addr == old(self).address_space.trampoline_addr
                &&& final(self).address_space.trampoline_size == old(self).address_space.trampoline_size
            }),
    {
        match self.read_guest_bytes(from, n) {
            Ok(bytes) => {
                let _ = self.write_bytes(to, bytes.as_slice());
                true
            },
            Err(_) => false,
        }
    }

    /// Copies the texture (32 bytes) and vertex (64 bytes) halves of a quad
    /// into slot `index` of atlas `atlas`, growing it when `index` is past
    /// its capacity, records the update, and describes it.
    #[verifier::spinoff_prover]
    #[verifier::rlimit(50)]
    pub fn update_synthetic_texture_atlas_quad(
        &mut self,
        atlas: u32,
        texture_quad_ptr: u32,
        vertex_quad_ptr: u32,
        index: u32,
        selector: &str,
    ) -> (line: String)
        requires
            old(self).wf(),
            old(self).runtime.heap.heap_wf(),
        ensures
            final(self).wf(),
            final(self).runtime.heap.heap_wf(),
            ({
                let old_capacity = atlas_of(old(self).runtime.textures, atlas).capacity;
                let req = quad_request(old_capacity, index);
                exists|mid: MemoryArm32Backend, buffer: u32|
                    #[trigger] storage_effect(*old(self), mid, atlas, req, buffer) && ({
                        let m = atlas_of(mid.runtime.textures, atlas);
                        let stride = if mid.runtime.textures.synthetic_texture_atlases@.contains_key(atlas) {
                            if m.quad_stride > 1 {
                                m.quad_stride
                            } else {
                                1
                            }
                        } else {
                            ATLAS_QUAD_STRIDE
                        };
                        let dst = sat_add(buffer, sat_mul(index, stride));
                        let wt: u32 = if stride < 32 {
                            stride
                        } else {
                            32
                        };
                        let wv: u32 = if stride < 64 {
                            stride
                        } else {
                            64
                        };
                        let t = if dst != 0 && texture_quad_ptr != 0 {
                            copy_step(mid.mem(), mid.diag.writes@, texture_quad_ptr, sat_add(dst, sat_sub(stride, wt)), wt)
                        } else {
                            (mid.mem(), mid.diag.writes@, false)
                        };
                        let v = if dst != 0 && vertex_quad_ptr != 0 {
                            copy_step(t.0, t.1, vertex_quad_ptr, dst, wv)
                        } else {
                            (t.0, t.1, false)
                        };
                        let st = quad_updated(m, old_capacity, index, req);
                        &&& final(self).mem() == v.0
                        &&& final(self).diag.writes@ == v.1
                        &&& atlas_set(mid.runtime.textures, final(self).runtime.textures, atlas, st)
                        &&& *final(self) == (MemoryArm32Backend {
                            address_space: final(self).address_space,
                            diag: super::BackendDiagnosticsState { writes: final(self).diag.writes, ..mid.diag },
                            runtime: super::BackendRuntimeState { textures: final(self).runtime.textures, ..mid.runtime },
                            ..mid
                        })
                        &&& line@ == "cocos "@ + selector@ + " textureAtlas index="@ + dec_seq(index as nat)
                            + " capacity="@ + dec_seq(st.capacity as nat) + " totalQuads="@ + dec_seq(
                            st.total_quads as nat,
                        ) + " texture="@ + spec_describe_ptr(*final(self), st.texture) + " buffer="@
                            + spec_describe_ptr(*final(self), buffer) + " copiedTex="@ + dec_seq(
                            if t.2 {
                                wt as nat
                            } else {
                                0
                            },
                        ) + " copiedVertex="@ + dec_seq(
                            if v.2 {
                                wv as nat
                            } else {
                                0
                            },
                        ) + " invalidUpdates="@ + dec_seq(st.invalid_update_count as nat)
                    })
            }),
    {
        let old_capacity = self.synthetic_texture_atlas_capacity(atlas);
        let cur_cap = if old_capacity > 1 { old_capacity } else { 1 };
        let req = if index < cur_cap {
            cur_cap
        } else {
            let next = index.saturating_add(1);
            if cur_cap > next { cur_cap } else { next }
        };
        assert(old_capacity == atlas_of(old(self).runtime.textures, atlas).capacity);
        let buffer = self.ensure_synthetic_texture_atlas_storage(atlas, req);
        let ghost mid = *self;
        let stride = match self.runtime.textures.synthetic_texture_atlases.get(&atlas) {
            Some(st) => if st.quad_stride > 1 { st.quad_stride } else { 1 },
            None => ATLAS_QUAD_STRIDE,
        };
        let offset = match index.checked_mul(stride) {
            Some(v) => v,
            None => u32::MAX,
        };
        let dst = buffer.saturating_add(offset);
        let wt: u32 = if stride < 32 { stride } else { 32 };
        let wv: u32 = if stride < 64 { stride } else { 64 };
        let (tex_ok, vertex_ok) = self.copy_quad_halves(dst, stride, texture_quad_ptr, vertex_quad_ptr);
        let copied_tex: u32 = if tex_ok { wt } else { 0 };
        let copied_vertex: u32 = if vertex_ok { wv } else { 0 };
        let m = self.atlas_state(atlas);
        let st = Self::quad_updated_exec(m, old_capacity, index, req);
        self.set_atlas_state(atlas, st);
        let line = self.quad_update_line(selector, index, &st, buffer, copied_tex, copied_vertex);
        proof {
            let req_s = quad_request(old_capacity, index);
            assert(req == req_s);
            assert(storage_effect(*old(self), mid, atlas, req, buffer));
            let m_s = atlas_of(mid.runtime.textures, atlas);
            assert(m == m_s);
            let stride_s = if mid.runtime.textures.synthetic_texture_atlases@.contains_key(atlas) {
                if m_s.quad_stride > 1 {
                    m_s.quad_stride
                } else {
                    1
                }
            } else {
                ATLAS_QUAD_STRIDE
            };
            assert(stride == stride_s);
            assert(dst == sat_add(buffer, sat_mul(index, stride_s)));
            assert(atlas_set(mid.runtime.textures, self.runtime.textures, atlas, st));
        }
        line
    }


    /// Copies the texture half (its last `min(stride, 32)` bytes) and the
    /// vertex half (its first `min(stride, 64)` bytes) of a quad into the
    /// slot at `dst` (nothing when `dst` or a source is 0); returns which
    /// reads succeeded.
    fn copy_quad_halves(&mut self, dst: u32, stride: u32, texture_quad_ptr: u32, vertex_quad_ptr: u32) -> (r: (
        bool,
        bool,
    ))
        requires
            old(self).wf(),
            stride >= 1,
        ensures
            final(self).wf(),
            ({
                let wt: u32 = if stride < 32 {
                    stride
                } else {
                    32
                };
                let wv: u32 = if stride < 64 {
                    stride
                } else {
                    64
                };
                let t = if dst != 0 && texture_quad_ptr != 0 {
                    copy_step(old(self).mem(), old(self).diag.writes@, texture_quad_ptr, sat_add(dst, sat_sub(stride, wt)), wt)
                } else {
                    (old(self).mem(), old(self).diag.writes@, false)
                };
                let v = if dst != 0 && vertex_quad_ptr != 0 {
                    copy_step(t.0, t.1, vertex_quad_ptr, dst, wv)
                } else {
                    (t.0, t.1, false)
                };
                &&& final(self).mem() == v.0
                &&& final(self).diag.writes@ == v.1
                &&& r == (t.2, v.2)
                &&& *final(self) == (MemoryArm32Backend {
                    address_space: final(self).address_space,
                    diag: super::BackendDiagnosticsState { writes: final(self).diag.writes, ..old(self).diag },
                    ..*old(self)
                })
            }),
    {
        let wt: u32 = if stride < 32 { stride } else { 32 };
        let wv: u32 = if stride < 64 { stride } else { 64 };
        let mut tex_ok = false;
        let mut vertex_ok = false;
        if dst != 0 && texture_quad_ptr != 0 {
            let to = dst.saturating_add(stride - wt);
            tex_ok = self.copy_guest_bytes(texture_quad_ptr, to, wt);
        }
        if dst != 0 && vertex_quad_ptr != 0 {
            vertex_ok = self.copy_guest_bytes(vertex_quad_ptr, dst, wv);
        }
        (tex_ok, vertex_ok)
    }

    /// The atlas state after a quad update (see `quad_updated`).
    fn quad_updated_exec(m: SyntheticTextureAtlasState, old_capacity: u32, index: u32, req: u32) -> (st:
        SyntheticTextureAtlasState)
        ensures
            st == quad_updated(m, old_capacity, index, req),
    {
        let cur_cap = if old_capacity > 1 { old_capacity } else { 1 };
        let mut st = m;
        if index >= cur_cap {
            st.invalid_update_count = st.invalid_update_count.saturating_add(1);
        }
        st.capacity = if m.capacity > req { m.capacity } else { req };
        let next = index.saturating_add(1);
        st.total_quads = if m.total_quads > next { m.total_quads } else { next };
        st.last_index = Some(index);
        st.max_index_seen = Some(
            match m.max_index_seen {
                Some(v) => if v > index { v } else { index },
                None => index,
            },
        );
        st.update_count = st.update_count.saturating_add(1);
        st
    }

    /// The description of a quad update.
    fn quad_update_line(
        &self,
        selector: &str,
        index: u32,
        st: &SyntheticTextureAtlasState,
        buffer: u32,
        copied_tex: u32,
        copied_vertex: u32,
    ) -> (line: String)
        requires
            self.wf(),
        ensures
            line@ == "cocos "@ + selector@ + " textureAtlas index="@ + dec_seq(index as nat) + " capacity="@ + dec_seq(
                st.capacity as nat,
            ) + " totalQuads="@ + dec_seq(st.total_quads as nat) + " texture="@ + spec_describe_ptr(*self, st.texture)
                + " buffer="@ + spec_describe_ptr(*self, buffer) + " copiedTex="@ + dec_seq(copied_tex as nat)
                + " copiedVertex="@ + dec_seq(copied_vertex as nat) + " invalidUpdates="@ + dec_seq(
                st.invalid_update_count as nat,
            ),
    {
        let mut line = String::from_str("cocos ");
        line.append(selector);
        line.append(" textureAtlas index=");
        push_dec(&mut line, index as u64);
        line.append(" capacity=");
        push_dec(&mut line, st.capacity as u64);
        line.append(" totalQuads=");
        push_dec(&mut line, st.total_quads as u64);
        line.append(" texture=");
        let tex_desc = self.describe_ptr(st.texture);
        line.append(tex_desc.as_str());
        line.append(" buffer=");
        let buf_desc = self.describe_ptr(buffer);
        line.append(buf_desc.as_str());
        line.append(" copiedTex=");
        push_dec(&mut line, copied_tex as u64);
        line.append(" copiedVertex=");
        push_dec(&mut line, copied_vertex as u64);
        line.append(" invalidUpdates=");
        push_dec(&mut line, st.invalid_update_count as u64);
        line
    }

}

/// Updating quad `index` makes the atlas cover it: the capacity and the
/// quad count then exceed `index` and never shrink, the capacity keeps at
/// least the old one, the index is the last one seen and the largest seen
/// so far takes it into account; the update is counted, and counted as
/// invalid exactly when `index` lay past the old capacity (at least one).
pub proof fn lemma_quad_update_covers(m: SyntheticTextureAtlasState, old_capacity: u32, index: u32)
    requires
        index < u32::MAX,
        m.update_count < u32::MAX,
        m.invalid_update_count < u32::MAX,
    ensures
        ({
            let m1 = quad_updated(m, old_capacity, index, quad_request(old_capacity, index));
            let cur: u32 = if old_capacity > 1 { old_capacity } else { 1 };
            &&& m1.capacity > index
            &&& m1.capacity >= m.capacity
            &&& m1.capacity >= cur
            &&& m1.total_quads > index
            &&& m1.total_quads >= m.total_quads
            &&& m1.last_index == Some(index)
            &&& m1.max_index_seen matches Some(v) && v >= index && (m.max_index_seen matches Some(w) ==> v >= w)
            &&& m1.update_count == m.update_count + 1
            &&& m1.invalid_update_count == m.invalid_update_count + (if index >= cur { 1int } else { 0int })
            &&& m1.texture == m.texture
            &&& m1.quad_buffer_ptr == m.quad_buffer_ptr
        }),
{
}

} // verus!
