//! Choosing which variant of a menu item (normal, selected, disabled) is
//! shown, from the visual scores of the variants' sprites, and showing it.
use vstd::prelude::*;
use super::MemoryArm32Backend;
use super::nodes::{default_sprite, graphics_frame, SyntheticSpriteState};

verus! {

/// A variant of a menu item.
#[derive(Debug, Clone, Copy, PartialEq, Eq)]
pub enum MenuVariant {
    Normal,
    Selected,
    Disabled,
}

/// `a + b`, held at `u64::MAX`.
pub open spec fn sat_add_u64(a: u64, b: u64) -> int {
    if a + b > u64::MAX {
        u64::MAX as int
    } else {
        a + b
    }
}

/// The variant an achievements item shows by default instead of the normal
/// one: a present variant that outscores both others by 256 and scores at
/// least 1024, the selected one checked first.
pub open spec fn spec_default_variant(
    selected: u32,
    disabled: u32,
    normal_score: u64,
    selected_score: u64,
    disabled_score: u64,
) -> Option<MenuVariant> {
    if selected != 0 && selected_score >= sat_add_u64(normal_score, 256) && selected_score >= sat_add_u64(
        disabled_score,
        256,
    ) && selected_score >= 1024 {
        Some(MenuVariant::Selected)
    } else if disabled != 0 && disabled_score >= sat_add_u64(normal_score, 256) && disabled_score >= sat_add_u64(
        selected_score,
        256,
    ) && disabled_score >= 1024 {
        Some(MenuVariant::Disabled)
    } else {
        None
    }
}

/// `a + b`, held at `u64::MAX`.
fn saturating_add_u64(a: u64, b: u64) -> (r: u64)
    ensures
        r == sat_add_u64(a, b),
{
    if a > u64::MAX - b {
        u64::MAX
    } else {
        a + b
    }
}

/// The variant an achievements item shows by default, if not the normal
/// one.
pub fn default_variant_choice(
    selected: u32,
    disabled: u32,
    normal_score: u64,
    selected_score: u64,
    disabled_score: u64,
) -> (r: Option<MenuVariant>)
    ensures
        r == spec_default_variant(selected, disabled, normal_score, selected_score, disabled_score),
{
    if selected != 0 && selected_score >= saturating_add_u64(normal_score, 256) && selected_score
        >= saturating_add_u64(disabled_score, 256) && selected_score >= 1024 {
        Some(MenuVariant::Selected)
    } else if disabled != 0 && disabled_score >= saturating_add_u64(normal_score, 256) && disabled_score
        >= saturating_add_u64(selected_score, 256) && disabled_score >= 1024 {
        Some(MenuVariant::Disabled)
    } else {
        None
    }
}

/// The best-scoring present variant: the first of normal, selected,
/// disabled (in that order) with the highest score among those whose
/// pointer is not null.
pub open spec fn spec_best_variant(
    normal: u32,
    selected: u32,
    disabled: u32,
    ns: u64,
    ss: u64,
    ds: u64,
) -> Option<(MenuVariant, u32, u64)> {
    let n = if normal != 0 {
        Some((MenuVariant::Normal, normal, ns))
    } else {
        None::<(MenuVariant, u32, u64)>
    };
    let s = if selected != 0 && (n is None || ss > (n->0).2) {
        Some((MenuVariant::Selected, selected, ss))
    } else {
        n
    };
    if disabled != 0 && (s is None || ds > (s->0).2) {
        Some((MenuVariant::Disabled, disabled, ds))
    } else {
        s
    }
}

/// The best variant is the highest-scoring present one: there is one
/// exactly when some variant is present; it is present, carries its own
/// sprite and score, scores at least every present variant, and on a tie
/// the earlier of normal, selected and disabled wins.
pub proof fn lemma_best_variant_is_max(normal: u32, selected: u32, disabled: u32, ns: u64, ss: u64, ds: u64)
    ensures
        (spec_best_variant(normal, selected, disabled, ns, ss, ds) is None) == (normal == 0 && selected == 0 && disabled
            == 0),
        spec_best_variant(normal, selected, disabled, ns, ss, ds) matches Some((v, p, sc)) ==> {
            &&& p != 0
            &&& v == MenuVariant::Normal ==> p == normal && sc == ns
            &&& v == MenuVariant::Selected ==> p == selected && sc == ss
            &&& v == MenuVariant::Disabled ==> p == disabled && sc == ds
            &&& normal != 0 ==> ns <= sc
            &&& selected != 0 ==> ss <= sc
            &&& disabled != 0 ==> ds <= sc
            &&& normal != 0 && ns == sc ==> v == MenuVariant::Normal
            &&& selected != 0 && ss == sc && v != MenuVariant::Normal ==> v == MenuVariant::Selected
        },
{
}

/// The variant promoted over the normal one: the best-scoring present
/// variant, when it is not the normal sprite, beats the normal score by
/// more than 4096, scores at least 8192, and the normal variant (0 when
/// absent) scores at most 2048.
pub open spec fn spec_promoted_variant(
    normal: u32,
    selected: u32,
    disabled: u32,
    ns: u64,
    ss: u64,
    ds: u64,
) -> Option<(MenuVariant, u32, u64)> {
    let normal_score = if normal != 0 {
        ns
    } else {
        0
    };
    match spec_best_variant(normal, selected, disabled, ns, ss, ds) {
        None => None,
        Some(b) => if b.1 != 0 && b.1 != normal && b.2 > sat_add_u64(normal_score, 4096) && b.2 >= 8192
            && normal_score <= 2048 {
            Some(b)
        } else {
            None
        },
    }
}

/// The variant to promote over the normal one, with its sprite and score.
pub fn promoted_variant_choice(
    normal: u32,
    selected: u32,
    disabled: u32,
    normal_score: u64,
    selected_score: u64,
    disabled_score: u64,
) -> (r: Option<(MenuVariant, u32, u64)>)
    ensures
        r == spec_promoted_variant(normal, selected, disabled, normal_score, selected_score, disabled_score),
{
    let mut best: Option<(MenuVariant, u32, u64)> = None;
    if normal != 0 {
        best = Some((MenuVariant::Normal, normal, normal_score));
    }
    if selected != 0 {
        let beats = match best {
            None => true,
            Some((_, _, s)) => selected_score > s,
        };
        if beats {
            best = Some((MenuVariant::Selected, selected, selected_score));
        }
    }
    if disabled != 0 {
        let beats = match best {
            None => true,
            Some((_, _, s)) => disabled_score > s,
        };
        if beats {
            best = Some((MenuVariant::Disabled, disabled, disabled_score));
        }
    }
    let ns: u64 = if normal != 0 { normal_score } else { 0 };
    match best {
        None => None,
        Some((v, p, s)) => {
            if p != 0 && p != normal && s > saturating_add_u64(ns, 4096) && s >= 8192 && ns <= 2048 {
                Some((v, p, s))
            } else {
                None
            }
        },
    }
}

/// The sprite map after variant `p` is made visible exactly when it is
/// `chosen` (a null pointer is left alone).
pub open spec fn show_variant(
    m: Map<u32, SyntheticSpriteState>,
    p: u32,
    chosen: u32,
) -> Map<u32, SyntheticSpriteState> {
    if p == 0 {
        m
    } else {
        let st = if m.contains_key(p) {
            m[p]
        } else {
            default_sprite()
        };
        m.insert(p, SyntheticSpriteState { visible: p == chosen, ..st })
    }
}

impl MemoryArm32Backend {
    /// Makes `p` visible exactly when it is `chosen`; a null `p` is left
    /// alone.
    #[verifier::spinoff_prover]
    fn show_variant_sprite(&mut self, p: u32, chosen: u32)
        ensures
            graphics_frame(*old(self), *final(self), false),
            final(self).runtime.graphics.synthetic_sprites@ == show_variant(
                old(self).runtime.graphics.synthetic_sprites@,
                p,
                chosen,
            ),
            final(self).runtime.graphics.synthetic_arrays == old(self).runtime.graphics.synthetic_arrays,
            final(self).runtime.graphics.synthetic_ui_object_cursor == old(
                self,
            ).runtime.graphics.synthetic_ui_object_cursor,
    {
        if p != 0 {
            let mut st = self.sprite_or_default(p);
            st.visible = p == chosen;
            self.set_sprite_state(p, st);
        }
    }

    /// Shows the menu item variant `chosen` and hides the other present
    /// variants, in the order normal, selected, disabled.
    pub fn show_only_variant(&mut self, normal: u32, selected: u32, disabled: u32, chosen: u32)
        ensures
            graphics_frame(*old(self), *final(self), false),
            final(self).runtime.graphics.synthetic_arrays == old(self).runtime.graphics.synthetic_arrays,
            final(self).runtime.graphics.synthetic_ui_object_cursor == old(
                self,
            ).runtime.graphics.synthetic_ui_object_cursor,
            final(self).runtime.graphics.synthetic_sprites@ == show_variant(
                show_variant(show_variant(old(self).runtime.graphics.synthetic_sprites@, normal, chosen), selected, chosen),
                disabled,
                chosen,
            ),
    {
        self.show_variant_sprite(normal, chosen);
        self.show_variant_sprite(selected, chosen);
        self.show_variant_sprite(disabled, chosen);
    }
}

} // verus!
