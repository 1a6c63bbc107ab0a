//! Synthetic textures, images, texture atlases and CoreGraphics bitmap
//! contexts, with the stack of UIKit drawing contexts.
use vstd::prelude::*;
use std::collections::HashMap;
use crate::memory::sat_add_u32;
use super::MemoryArm32Backend;
use super::nodes::sprite_of;
use super::pixels::{clear_rect, fill_rect, sat_add_i32};
use super::guest_strings::labels_view;

verus! {

/// A CoreGraphics bitmap context: an RGBA8 surface and its fill colour.
#[derive(Debug, Clone)]
pub struct SyntheticBitmapContext {
    pub width: u32,
    pub height: u32,
    pub rgba: Vec<u8>,
    pub fill_rgba: [u8; 4],
}

/// A decoded RGBA8 image.
#[derive(Debug, Clone)]
pub struct SyntheticImage {
    pub width: u32,
    pub height: u32,
    pub rgba: Vec<u8>,
}

/// A texture and where it came from.
#[derive(Debug, Clone)]
pub struct SyntheticTexture {
    pub width: u32,
    pub height: u32,
    pub gl_name: u32,
    pub has_premultiplied_alpha: bool,
    pub image: u32,
    pub source_key: String,
    pub source_path: String,
    pub cache_key: String,
}

/// A cocos2d texture atlas: its texture and its guest quad buffer.
#[derive(Debug, Clone, Copy)]
pub struct SyntheticTextureAtlasState {
    pub texture: u32,
    pub capacity: u32,
    pub total_quads: u32,
    pub quad_buffer_ptr: u32,
    pub quad_stride: u32,
    pub update_count: u32,
    pub invalid_update_count: u32,
    pub last_index: Option<u32>,
    pub max_index_seen: Option<u32>,
}

/// A synthetic `NSDictionary`: its keys (each once) and the objects they
/// map to.
#[derive(Debug, Clone)]
pub struct SyntheticDictionary {
    pub entries: Vec<(String, u32)>,
}

/// Textures, images, atlases, dictionaries and drawing contexts.
#[derive(Debug, Clone)]
pub struct BackendTextureState {
    pub synthetic_bitmap_contexts: HashMap<u32, SyntheticBitmapContext>,
    pub synthetic_images: HashMap<u32, SyntheticImage>,
    pub synthetic_textures: HashMap<u32, SyntheticTexture>,
    pub synthetic_texture_atlases: HashMap<u32, SyntheticTextureAtlasState>,
    pub synthetic_dictionaries: HashMap<u32, SyntheticDictionary>,
    pub current_uigraphics_context: u32,
    /// The UIKit drawing contexts pushed so far, innermost last.
    pub uigraphics_stack: Vec<u32>,
    pub cocos_texture_cache_object: u32,
}

impl BackendTextureState {
    /// No textures, images, atlases or contexts.
    pub fn new() -> (t: Self)
        ensures
            t.synthetic_bitmap_contexts@.len() == 0,
            t.synthetic_images@.len() == 0,
            t.synthetic_textures@.len() == 0,
            t.synthetic_texture_atlases@.len() == 0,
            t.synthetic_dictionaries@.len() == 0,
            t.current_uigraphics_context == 0,
            t.uigraphics_stack@.len() == 0,
            t.cocos_texture_cache_object == 0,
    {
        BackendTextureState {
            synthetic_bitmap_contexts: HashMap::new(),
            synthetic_images: HashMap::new(),
            synthetic_textures: HashMap::new(),
            synthetic_texture_atlases: HashMap::new(),
            synthetic_dictionaries: HashMap::new(),
            current_uigraphics_context: 0,
            uigraphics_stack: Vec::new(),
            cocos_texture_cache_object: 0,
        }
    }
}

/// Only the texture state differs between `a` and `b`.
pub open spec fn textures_frame(a: MemoryArm32Backend, b: MemoryArm32Backend) -> bool {
    &&& b.cpu == a.cpu
    &&& b.execution == a.execution
    &&& b.address_space == a.address_space
    &&& b.diag == a.diag
    &&& b.runtime.heap == a.runtime.heap
    &&& b.runtime.objc == a.runtime.objc
    &&& b.runtime.ui_network == a.runtime.ui_network
    &&& b.runtime.network_fault_history == a.runtime.network_fault_history
    &&& b.runtime.ui_objects == a.runtime.ui_objects
    &&& b.runtime.ui_runtime == a.runtime.ui_runtime
    &&& b.runtime.openal == a.runtime.openal
    &&& b.runtime.audio_queue == a.runtime.audio_queue
    &&& b.runtime.graphics == a.runtime.graphics
    &&& b.runtime.ui_graphics == a.runtime.ui_graphics
    &&& b.runtime.recent_gl_calls == a.runtime.recent_gl_calls
    &&& b.runtime.gl_call_counts == a.runtime.gl_call_counts
    &&& b.runtime.foundation == a.runtime.foundation
    &&& b.profile == a.profile
    &&& b.tuning == a.tuning
}

/// The size of texture or image `obj`, if it is one (a texture first).
pub open spec fn texture_dims(t: BackendTextureState, obj: u32) -> Option<(u32, u32)> {
    if t.synthetic_textures@.contains_key(obj) {
        Some((t.synthetic_textures@[obj].width, t.synthetic_textures@[obj].height))
    } else if t.synthetic_images@.contains_key(obj) {
        Some((t.synthetic_images@[obj].width, t.synthetic_images@[obj].height))
    } else {
        None
    }
}

/// The texture an atlas, a texture or a node stands for (0 for none): a
/// texture is itself; an atlas gives its texture; a node its texture.
pub open spec fn texture_like(m: MemoryArm32Backend, obj: u32) -> u32 {
    let t = m.runtime.textures;
    if obj == 0 {
        0
    } else if t.synthetic_textures@.contains_key(obj) {
        obj
    } else if t.synthetic_texture_atlases@.contains_key(obj) && t.synthetic_texture_atlases@[obj].texture != 0 {
        t.synthetic_texture_atlases@[obj].texture
    } else if m.runtime.graphics.synthetic_sprites@.contains_key(obj) && sprite_of(
        m.runtime.graphics,
        obj,
    ).texture != 0 {
        sprite_of(m.runtime.graphics, obj).texture
    } else {
        0
    }
}

/// The key that names texture `obj` in diagnostics: its cache key, else
/// its source key, else its source path; `None` when all are empty or it
/// is no texture.
pub open spec fn texture_debug_key(t: BackendTextureState, obj: u32) -> Option<Seq<char>> {
    if !t.synthetic_textures@.contains_key(obj) {
        None
    } else {
        let tex = t.synthetic_textures@[obj];
        let key = if tex.cache_key@.len() > 0 {
            tex.cache_key@
        } else if tex.source_key@.len() > 0 {
            tex.source_key@
        } else {
            tex.source_path@
        };
        if key.len() == 0 {
            None
        } else {
            Some(key)
        }
    }
}

/// `t1` is `t0` with context `ctx` replaced by `c`.
pub open spec fn context_set(t0: BackendTextureState, t1: BackendTextureState, ctx: u32, c: SyntheticBitmapContext) -> bool {
    &&& t1.synthetic_bitmap_contexts@ == t0.synthetic_bitmap_contexts@.insert(ctx, c)
    &&& t1.synthetic_images == t0.synthetic_images
    &&& t1.synthetic_textures == t0.synthetic_textures
    &&& t1.synthetic_texture_atlases == t0.synthetic_texture_atlases
    &&& t1.synthetic_dictionaries == t0.synthetic_dictionaries
    &&& t1.current_uigraphics_context == t0.current_uigraphics_context
    &&& t1.uigraphics_stack == t0.uigraphics_stack
    &&& t1.cocos_texture_cache_object == t0.cocos_texture_cache_object
}

/// `t1` is `t0` with the pixels of context `ctx` replaced by `pixels`.
pub open spec fn context_drawn(t0: BackendTextureState, t1: BackendTextureState, ctx: u32, pixels: Seq<u8>) -> bool {
    let c0 = t0.synthetic_bitmap_contexts@[ctx];
    let c1 = t1.synthetic_bitmap_contexts@[ctx];
    &&& t1.synthetic_bitmap_contexts@.dom() == t0.synthetic_bitmap_contexts@.dom()
    &&& c1.rgba@ == pixels
    &&& c1.width == c0.width && c1.height == c0.height && c1.fill_rgba == c0.fill_rgba
    &&& forall|k: u32|
        k != ctx && #[trigger] t0.synthetic_bitmap_contexts@.contains_key(k) ==> t1.synthetic_bitmap_contexts@[k]
            == t0.synthetic_bitmap_contexts@[k]
    &&& t1.synthetic_images == t0.synthetic_images
    &&& t1.synthetic_textures == t0.synthetic_textures
    &&& t1.synthetic_texture_atlases == t0.synthetic_texture_atlases
    &&& t1.synthetic_dictionaries == t0.synthetic_dictionaries
    &&& t1.current_uigraphics_context == t0.current_uigraphics_context
    &&& t1.uigraphics_stack == t0.uigraphics_stack
    &&& t1.cocos_texture_cache_object == t0.cocos_texture_cache_object
}

impl MemoryArm32Backend {
    /// The size of texture or image `obj`, if it is one (a texture first).
    pub fn synthetic_texture_dimensions(&self, obj: u32) -> (r: Option<(u32, u32)>)
        ensures
            r == texture_dims(self.runtime.textures, obj),
    {
        match self.runtime.textures.synthetic_textures.get(&obj) {
            Some(tex) => Some((tex.width, tex.height)),
            None => match self.runtime.textures.synthetic_images.get(&obj) {
                Some(img) => Some((img.width, img.height)),
                None => None,
            },
        }
    }

    /// The GL name of texture `obj` (the object itself when it is no
    /// texture).
    pub fn synthetic_texture_gl_name(&self, obj: u32) -> (n: u32)
        ensures
            n == (if self.runtime.textures.synthetic_textures@.contains_key(obj) {
                self.runtime.textures.synthetic_textures@[obj].gl_name
            } else {
                obj
            }),
    {
        match self.runtime.textures.synthetic_textures.get(&obj) {
            Some(tex) => tex.gl_name,
            None => obj,
        }
    }

    /// Whether texture `obj` holds premultiplied alpha (assumed for an
    /// unknown texture).
    pub fn synthetic_texture_has_pma(&self, obj: u32) -> (b: bool)
        ensures
            b == (if self.runtime.textures.synthetic_textures@.contains_key(obj) {
                self.runtime.textures.synthetic_textures@[obj].has_premultiplied_alpha
            } else {
                true
            }),
    {
        match self.runtime.textures.synthetic_textures.get(&obj) {
            Some(tex) => tex.has_premultiplied_alpha,
            None => true,
        }
    }

    /// The key that names texture `obj` in diagnostics (see
    /// `texture_debug_key`).
    pub fn synthetic_texture_debug_key(&self, obj: u32) -> (r: Option<String>)
        ensures
            r matches Some(s) ==> texture_debug_key(self.runtime.textures, obj) == Some(s@),
            r is None ==> texture_debug_key(self.runtime.textures, obj) is None,
    {
        match self.runtime.textures.synthetic_textures.get(&obj) {
            Some(tex) => {
                let key = if !tex.cache_key.as_str().is_empty() {
                    tex.cache_key.clone()
                } else if !tex.source_key.as_str().is_empty() {
                    tex.source_key.clone()
                } else {
                    tex.source_path.clone()
                };
                if key.as_str().is_empty() {
                    None
                } else {
                    Some(key)
                }
            },
            None => None,
        }
    }

    /// The texture an atlas, a texture or a node stands for (see
    /// `texture_like`).
    pub fn synthetic_resolve_texture_like_object(&self, obj: u32) -> (t: u32)
        ensures
            t == texture_like(*self, obj),
    {
        if obj == 0 {
            return 0;
        }
        if self.runtime.textures.synthetic_textures.contains_key(&obj) {
            return obj;
        }
        match self.runtime.textures.synthetic_texture_atlases.get(&obj) {
            Some(atlas) => {
                if atlas.texture != 0 {
                    return atlas.texture;
                }
            },
            None => {},
        }
        match self.runtime.graphics.synthetic_sprites.get(&obj) {
            Some(st) => {
                if st.texture != 0 {
                    return st.texture;
                }
            },
            None => {},
        }
        0
    }

    /// The texture of atlas `atlas`, else the texture of the node of the
    /// same address (0 for none).
    pub fn synthetic_texture_atlas_texture(&self, atlas: u32) -> (t: u32)
        ensures
            t == (if self.runtime.textures.synthetic_texture_atlases@.contains_key(atlas)
                && self.runtime.textures.synthetic_texture_atlases@[atlas].texture != 0 {
                self.runtime.textures.synthetic_texture_atlases@[atlas].texture
            } else {
                sprite_of(self.runtime.graphics, atlas).texture
            }),
    {
        match self.runtime.textures.synthetic_texture_atlases.get(&atlas) {
            Some(st) => {
                if st.texture != 0 {
                    return st.texture;
                }
            },
            None => {},
        }
        self.sprite_or_default(atlas).texture
    }

    /// The quad capacity of atlas `atlas` (0 for an unknown atlas).
    pub fn synthetic_texture_atlas_capacity(&self, atlas: u32) -> (c: u32)
        ensures
            c == (if self.runtime.textures.synthetic_texture_atlases@.contains_key(atlas) {
                self.runtime.textures.synthetic_texture_atlases@[atlas].capacity
            } else {
                0
            }),
    {
        match self.runtime.textures.synthetic_texture_atlases.get(&atlas) {
            Some(st) => st.capacity,
            None => 0,
        }
    }

    /// The number of quads in use in atlas `atlas` (0 for an unknown atlas).
    pub fn synthetic_texture_atlas_total_quads(&self, atlas: u32) -> (c: u32)
        ensures
            c == (if self.runtime.textures.synthetic_texture_atlases@.contains_key(atlas) {
                self.runtime.textures.synthetic_texture_atlases@[atlas].total_quads
            } else {
                0
            }),
    {
        match self.runtime.textures.synthetic_texture_atlases.get(&atlas) {
            Some(st) => st.total_quads,
            None => 0,
        }
    }

    /// Makes bitmap context `ctx` the current drawing context and pushes it;
    /// an unknown context (or 0) is ignored.
    pub fn push_uigraphics_context(&mut self, ctx: u32)
        ensures
            textures_frame(*old(self), *final(self)),
            ({
                let t0 = old(self).runtime.textures;
                let t1 = final(self).runtime.textures;
                if ctx != 0 && t0.synthetic_bitmap_contexts@.contains_key(ctx) {
                    t1 == (BackendTextureState {
                        current_uigraphics_context: ctx,
                        uigraphics_stack: t1.uigraphics_stack,
                        ..t0
                    }) && t1.uigraphics_stack@ == t0.uigraphics_stack@.push(ctx)
                } else {
                    t1 == t0
                }
            }),
    {
        if ctx != 0 && self.runtime.textures.synthetic_bitmap_contexts.contains_key(&ctx) {
            self.runtime.textures.current_uigraphics_context = ctx;
            self.runtime.textures.uigraphics_stack.push(ctx);
        }
    }

    /// Pops the innermost drawing context and returns it (0 when none was
    /// pushed); the one below it, if any, becomes current.
    pub fn pop_uigraphics_context(&mut self) -> (popped: u32)
        ensures
            textures_frame(*old(self), *final(self)),
            ({
                let t0 = old(self).runtime.textures;
                let t1 = final(self).runtime.textures;
                let s0 = t0.uigraphics_stack@;
                let s1 = if s0.len() > 0 {
                    s0.drop_last()
                } else {
                    s0
                };
                &&& popped == (if s0.len() > 0 {
                    s0.last()
                } else {
                    0
                })
                &&& t1.uigraphics_stack@ == s1
                &&& t1.current_uigraphics_context == (if s1.len() > 0 {
                    s1.last()
                } else {
                    0
                })
                &&& t1 == (BackendTextureState {
                    current_uigraphics_context: t1.current_uigraphics_context,
                    uigraphics_stack: t1.uigraphics_stack,
                    ..t0
                })
            }),
    {
        let popped = match self.runtime.textures.uigraphics_stack.pop() {
            Some(c) => c,
            None => 0,
        };
        let n = self.runtime.textures.uigraphics_stack.len();
        self.runtime.textures.current_uigraphics_context = if n > 0 {
            self.runtime.textures.uigraphics_stack[n - 1]
        } else {
            0
        };
        popped
    }

    /// Sets the fill colour of bitmap context `ctx`; false for an unknown
    /// context.
    pub fn set_bitmap_context_fill_rgba(&mut self, ctx: u32, rgba: [u8; 4]) -> (ok: bool)
        ensures
            textures_frame(*old(self), *final(self)),
            ok == old(self).runtime.textures.synthetic_bitmap_contexts@.contains_key(ctx),
            ok ==> context_set(
                old(self).runtime.textures,
                final(self).runtime.textures,
                ctx,
                SyntheticBitmapContext {
                    fill_rgba: rgba,
                    ..old(self).runtime.textures.synthetic_bitmap_contexts@[ctx]
                },
            ),
            !ok ==> final(self).runtime.textures == old(self).runtime.textures,
    {
        if !self.runtime.textures.synthetic_bitmap_contexts.contains_key(&ctx) {
            return false;
        }
        let mut c = self.take_bitmap_context(ctx);
        c.fill_rgba = rgba;
        self.runtime.textures.synthetic_bitmap_contexts.insert(ctx, c);
        proof {
            assert(self.runtime.textures.synthetic_bitmap_contexts@ =~= old(
                self,
            ).runtime.textures.synthetic_bitmap_contexts@.insert(ctx, c));
        }
        true
    }

    /// Takes bitmap context `ctx`, which must exist, out of the table.
    fn take_bitmap_context(&mut self, ctx: u32) -> (c: SyntheticBitmapContext)
        requires
            old(self).runtime.textures.synthetic_bitmap_contexts@.contains_key(ctx),
        ensures
            textures_frame(*old(self), *final(self)),
            c == old(self).runtime.textures.synthetic_bitmap_contexts@[ctx],
            final(self).runtime.textures == (BackendTextureState {
                synthetic_bitmap_contexts: final(self).runtime.textures.synthetic_bitmap_contexts,
                ..old(self).runtime.textures
            }),
            final(self).runtime.textures.synthetic_bitmap_contexts@ == old(
                self,
            ).runtime.textures.synthetic_bitmap_contexts@.remove(ctx),
    {
        match self.runtime.textures.synthetic_bitmap_contexts.remove(&ctx) {
            Some(c) => c,
            None => {
                assert(false);
                SyntheticBitmapContext { width: 0, height: 0, rgba: Vec::new(), fill_rgba: [0u8, 0u8, 0u8, 0u8] }
            },
        }
    }

    /// Blends the fill colour of bitmap context `ctx` over the rectangle
    /// (x, y, width, height); false for an unknown context.
    pub fn fill_bitmap_context_rect(&mut self, ctx: u32, rect: (i32, i32, u32, u32)) -> (ok: bool)
        ensures
            textures_frame(*old(self), *final(self)),
            ok == old(self).runtime.textures.synthetic_bitmap_contexts@.contains_key(ctx),
            ok ==> ({
                let c = old(self).runtime.textures.synthetic_bitmap_contexts@[ctx];
                context_drawn(
                    old(self).runtime.textures,
                    final(self).runtime.textures,
                    ctx,
                    fill_rect(
                        c.rgba@,
                        c.width,
                        c.height,
                        rect.0 as int,
                        sat_add_i32(rect.0, rect.2 as i32) as int,
                        rect.1 as int,
                        sat_add_i32(rect.1, rect.3 as i32) as int,
                        c.fill_rgba,
                    ),
                )
            }),
            !ok ==> final(self).runtime.textures == old(self).runtime.textures,
    {
        if !self.runtime.textures.synthetic_bitmap_contexts.contains_key(&ctx) {
            return false;
        }
        let mut c = self.take_bitmap_context(ctx);
        let fill = c.fill_rgba;
        Self::ui_fill_rect_rgba(&mut c.rgba, c.width, c.height, rect.0, rect.1, rect.2, rect.3, fill);
        self.runtime.textures.synthetic_bitmap_contexts.insert(ctx, c);
        proof {
            assert(self.runtime.textures.synthetic_bitmap_contexts@.dom() =~= old(
                self,
            ).runtime.textures.synthetic_bitmap_contexts@.dom());
        }
        true
    }

    /// Clears the rectangle (x, y, width, height) of bitmap context `ctx`
    /// to transparent black; false for an unknown context.
    pub fn clear_bitmap_context_rect(&mut self, ctx: u32, rect: (i32, i32, u32, u32)) -> (ok: bool)
        ensures
            textures_frame(*old(self), *final(self)),
            ok == old(self).runtime.textures.synthetic_bitmap_contexts@.contains_key(ctx),
            ok ==> ({
                let c = old(self).runtime.textures.synthetic_bitmap_contexts@[ctx];
                context_drawn(
                    old(self).runtime.textures,
                    final(self).runtime.textures,
                    ctx,
                    clear_rect(
                        c.rgba@,
                        c.width,
                        c.height,
                        rect.0 as int,
                        sat_add_i32(rect.0, rect.2 as i32) as int,
                        rect.1 as int,
                        sat_add_i32(rect.1, rect.3 as i32) as int,
                    ),
                )
            }),
            !ok ==> final(self).runtime.textures == old(self).runtime.textures,
    {
        if !self.runtime.textures.synthetic_bitmap_contexts.contains_key(&ctx) {
            return false;
        }
        let mut c = self.take_bitmap_context(ctx);
        Self::ui_clear_rect_rgba(&mut c.rgba, c.width, c.height, rect.0, rect.1, rect.2, rect.3);
        self.runtime.textures.synthetic_bitmap_contexts.insert(ctx, c);
        proof {
            assert(self.runtime.textures.synthetic_bitmap_contexts@.dom() =~= old(
                self,
            ).runtime.textures.synthetic_bitmap_contexts@.dom());
        }
        true
    }

    /// The cocos2d texture cache object, made (and labelled) on first use.
    pub fn ensure_cocos_texture_cache_object(&mut self) -> (obj: u32)
        ensures
            old(self).runtime.textures.cocos_texture_cache_object != 0 ==> obj == old(
                self,
            ).runtime.textures.cocos_texture_cache_object && *final(self) == *old(self),
            old(self).runtime.textures.cocos_texture_cache_object == 0 ==> ({
                let g0 = old(self).runtime.graphics;
                let g1 = final(self).runtime.graphics;
                &&& obj == g0.synthetic_ui_object_cursor
                &&& g1 == (super::nodes::BackendGraphicsState {
                    synthetic_ui_object_cursor: sat_add_u32(obj, 0x20),
                    ..g0
                })
                &&& labels_view(final(self).diag.object_labels@) == labels_view(
                    old(self).diag.object_labels@,
                ).insert(obj, "CCTextureCache.synthetic#0"@)
                &&& final(self).runtime.textures == (BackendTextureState {
                    cocos_texture_cache_object: obj,
                    ..old(self).runtime.textures
                })
                &&& final(self).diag.symbol_labels == old(self).diag.symbol_labels
                &&& final(self).diag.writes == old(self).diag.writes
                &&& final(self).runtime.heap == old(self).runtime.heap
                &&& final(self).address_space == old(self).address_space
                &&& final(self).cpu == old(self).cpu
            }),
    {
        if self.runtime.textures.cocos_texture_cache_object != 0 {
            return self.runtime.textures.cocos_texture_cache_object;
        }
        let label = String::from_str("CCTextureCache.synthetic#0");
        let ghost l0 = self.diag.object_labels@;
        let obj = self.alloc_synthetic_ui_object(label);
        proof {
            super::guest_strings::lemma_labels_view_insert(l0, obj, label);
        }
        self.runtime.textures.cocos_texture_cache_object = obj;
        obj
    }

}

} // verus!
