//! The default recipe table every theme starts from, and the neutral
//! recipe every undeclared family resolves through.

use vstd::prelude::*;

use crate::id::Part;
use crate::response::StateFlags;
use crate::theme::glyph::GlyphRole;
use crate::theme::patch::{empty_patch, merged, Modifier, Slot, StateRule, StylePatch};
use crate::theme::recipe::{
    blank_part, families_wf, family_slot, has_key, lemma_family_index, lemma_lookup_insert, lemma_lookup_sorted,
    lemma_lookup_update, lemma_variant_index, lookup, recipe_wf, sorted, variant_index, with_rule, Family, PartMap,
    PartRecipe, Recipe, Recipes, Variant,
};
use crate::theme::resolve::{with_add, with_bg, with_fg, with_glyph, with_remove};
use crate::theme::role::{FgStep, MeterRole, Role, Surface};

verus! {

fn p() -> (s: StylePatch)
    ensures
        s == empty_patch(),
{
    StylePatch::new()
}

/// What a part recipe says: base, state rules, glyph and size.
pub type PartView = (StylePatch, Seq<StateRule>, Slot<GlyphRole>, Slot<u16>);

/// A part recipe's view.
pub open spec fn pview(x: PartRecipe) -> PartView {
    (x.base, x.states@, x.glyph, x.size)
}

/// The view of what the entries hold for `q`, if anything.
pub open spec fn pv_at(es: Seq<(Part, PartRecipe)>, q: Part) -> Option<PartView> {
    match lookup(es, q) {
        Some(x) => Some(pview(x)),
        None => None,
    }
}

/// A part with `base` merged over its base; a part not declared yet
/// starts as the recipe that says nothing.
pub open spec fn grown(pv: Option<PartView>, base: StylePatch) -> PartView {
    match pv {
        Some(v) => (merged(v.0, base), v.1, v.2, v.3),
        None => (merged(empty_patch(), base), Seq::empty(), Slot::Inherit, Slot::Inherit),
    }
}

/// A part with the rule `(when, patch)` inserted by specificity.
pub open spec fn ruled(v: PartView, when: StateFlags, patch: StylePatch) -> PartView {
    (v.0, with_rule(v.1, StateRule { when, patch }), v.2, v.3)
}

/// The recipe of part `which`, its base merged with `base`; every other
/// part is left alone.
fn part(m: &mut PartMap<PartRecipe>, which: Part, base: StylePatch) -> (r: &mut PartRecipe)
    requires
        old(m).wf(),
    ensures
        final(m).wf(),
        pview(*r) == grown(pv_at(old(m).spec_entries(), which), base),
        forall|q: Part| #[trigger] pv_at(final(m).spec_entries(), q) == if q == which {
            Some(pview(*final(r)))
        } else {
            pv_at(old(m).spec_entries(), q)
        },
{
    let ghost before = m.spec_entries();
    let existed = m.get(which).is_some();
    proof {
        lemma_lookup_sorted(before, which);
        assert forall|j: int, x: PartRecipe, q: Part|
            0 <= j < before.len() && before[j].0 == which implies #[trigger] lookup(before.update(j, (which, x)), q) == if q == which {
                Some(x)
            } else {
                lookup(before, q)
            } by {
            lemma_lookup_update(before, j, which, x, q);
        }
        assert forall|j: int, x: PartRecipe, q: Part|
            0 <= j <= before.len() && sorted(before.insert(j, (which, x))) && !has_key(before, which)
            implies #[trigger] lookup(before.insert(j, (which, x)), q) == if q == which {
                Some(x)
            } else {
                lookup(before, q)
            } by {
            lemma_lookup_insert(before, j, which, x, q);
        }
    }
    let r = m.entry(which);
    if !existed {
        *r = blank_part();
    }
    r.base = r.base.merge(base);
    r
}

/// What row-like chrome makes of part `q`.
pub open spec fn row_like_at(pv: Option<PartView>, q: Part) -> Option<PartView> {
    let e = empty_patch();
    let s1 = if q == Part(0) {
        let v = grown(pv, with_bg(with_fg(e, Role::Fg(FgStep::Primary)), Role::CurrentSurface));
        let v = ruled(v, StateFlags::of_bits(4u16), with_bg(e, Role::RaisedSurface));
        let v = ruled(v, StateFlags::of_bits(2048u16), with_fg(e, Role::Fg(FgStep::Secondary)));
        let v = ruled(v, StateFlags::of_bits(512u16), with_fg(e, Role::Danger));
        let v = ruled(v, StateFlags::of_bits(128u16), with_remove(with_fg(e, Role::DisabledFg), 1u16));
        let v = ruled(v, StateFlags::of_bits(1u16), with_add(e, 1u16));
        let v = ruled(v, StateFlags::of_bits((16u16 | 1u16)), with_bg(e, Role::AccentTint));
        Some(ruled(v, StateFlags::of_bits(8u16), with_add(with_bg(with_fg(e, Role::Surface(Surface::Canvas)), Role::Fg(FgStep::Primary)), 1u16)))
    } else {
        pv
    };
    let s2 = if q == Part(2) {
        let v = grown(s1, e);
        Some(ruled(v, StateFlags::of_bits(1u16), with_fg(with_glyph(e, GlyphRole::FocusBar), Role::Focus)))
    } else {
        s1
    };
    let s3 = if q == Part(3) {
        let v = grown(s2, e);
        let v = ruled(v, StateFlags::of_bits(16u16), with_fg(with_glyph(e, GlyphRole::Chosen), Role::Accent));
        let v = ruled(v, StateFlags::of_bits(64u16), with_fg(with_glyph(e, GlyphRole::Checked), Role::Accent));
        Some(ruled(v, StateFlags::of_bits(128u16), with_fg(e, Role::DisabledFg)))
    } else {
        s2
    };
    let s4 = if q == Part(4) {
        let v = grown(s3, e);
        Some(ruled(v, StateFlags::of_bits(128u16), with_fg(e, Role::DisabledFg)))
    } else {
        s3
    };
    let s5 = if q == Part(5) { Some(grown(s4, with_fg(e, Role::Fg(FgStep::Muted)))) } else { s4 };
    let s6 = if q == Part(8) {
        Some(grown(s5, with_add(with_fg(e, Role::Fg(FgStep::Secondary)), 1u16)))
    } else {
        s5
    };
    let s7 = if q == Part(6) {
        Some(grown(s6, with_glyph(with_fg(e, Role::BorderSubtle), GlyphRole::ScrollTrack)))
    } else {
        s6
    };
    let s8 = if q == Part(7) {
        let v = grown(s7, with_glyph(with_fg(e, Role::Fg(FgStep::Muted)), GlyphRole::ScrollThumb));
        let v = ruled(v, StateFlags::of_bits(4u16), with_fg(e, Role::Fg(FgStep::Secondary)));
        Some(ruled(v, StateFlags::of_bits(1u16), with_fg(e, Role::Fg(FgStep::Primary))))
    } else {
        s7
    };
    let s9 = if q == Part(9) { Some(grown(s8, with_fg(e, Role::Fg(FgStep::Muted)))) } else { s8 };
    let s10 = if q == Part(10) { Some(grown(s9, with_fg(e, Role::Fg(FgStep::Secondary)))) } else { s9 };
    s10
}

/// Row-like chrome shared by every collection: container, gutter, marker,
/// label, meta, header, scrollbar parts, the empty slot and icons.
fn row_like(m: &mut PartMap<PartRecipe>)
    requires
        old(m).wf(),
    ensures
        final(m).wf(),
        forall|q: Part| #[trigger] pv_at(final(m).spec_entries(), q) == row_like_at(pv_at(old(m).spec_entries(), q), q),
{
    part(m, Part::container(), p().set_fg(Role::Fg(FgStep::Primary)).set_bg(Role::CurrentSurface))
        .when(StateFlags::hovered(), p().set_bg(Role::RaisedSurface))
        .when(StateFlags::busy(), p().set_fg(Role::Fg(FgStep::Secondary)))
        .when(StateFlags::error(), p().set_fg(Role::Danger))
        .when(StateFlags::disabled(), p().set_fg(Role::DisabledFg).remove(Modifier::bold()))
        .when(StateFlags::focused(), p().add(Modifier::bold()))
        .when(StateFlags::selected().union(StateFlags::focused()), p().set_bg(Role::AccentTint))
        .when(
            StateFlags::pressed(),
            p().set_fg(Role::Surface(Surface::Canvas)).set_bg(Role::Fg(FgStep::Primary)).add(Modifier::bold()),
        );
    part(m, Part::gutter(), p()).when(StateFlags::focused(), p().set_glyph(GlyphRole::FocusBar).set_fg(Role::Focus));
    part(m, Part::marker(), p())
        .when(StateFlags::selected(), p().set_glyph(GlyphRole::Chosen).set_fg(Role::Accent))
        .when(StateFlags::checked(), p().set_glyph(GlyphRole::Checked).set_fg(Role::Accent))
        .when(StateFlags::disabled(), p().set_fg(Role::DisabledFg));
    part(m, Part::label(), p()).when(StateFlags::disabled(), p().set_fg(Role::DisabledFg));
    part(m, Part::meta(), p().set_fg(Role::Fg(FgStep::Muted)));
    part(m, Part::header(), p().set_fg(Role::Fg(FgStep::Secondary)).add(Modifier::bold()));
    part(m, Part::track(), p().set_fg(Role::BorderSubtle).set_glyph(GlyphRole::ScrollTrack));
    part(m, Part::thumb(), p().set_fg(Role::Fg(FgStep::Muted)).set_glyph(GlyphRole::ScrollThumb))
        .when(StateFlags::hovered(), p().set_fg(Role::Fg(FgStep::Secondary)))
        .when(StateFlags::focused(), p().set_fg(Role::Fg(FgStep::Primary)));
    part(m, Part::empty(), p().set_fg(Role::Fg(FgStep::Muted)));
    part(m, Part::icon(), p().set_fg(Role::Fg(FgStep::Secondary)));
}

/// The recipe a family that was never declared resolves through: the
/// neutral row-like set, default variant, no variant deltas.
pub fn neutral_recipe() -> (r: Recipe)
    ensures
        r.default_variant.0 == 0,
        r.parts.wf(),
        r.variants@.len() == 0,
        recipe_wf(r),
        forall|q: Part| #[trigger] pv_at(r.parts.spec_entries(), q) == row_like_at(None, q),
{
    let mut r = Recipe::default();
    proof {
        assert forall|q: Part| #[trigger] pv_at(r.parts.spec_entries(), q) is None by {
            lemma_lookup_sorted(r.parts.spec_entries(), q);
        }
    }
    row_like(&mut r.parts);
    r
}

/// The entries of variant `v`'s delta, none when it has none.
pub open spec fn delta_entries(r: Recipe, v: Variant) -> Seq<(Part, PartRecipe)> {
    let k = variant_index(r.variants@, v, 0);
    if k >= 0 { r.variants@[k].1.spec_entries() } else { Seq::empty() }
}

proof fn lemma_variant_index_update(vs: Seq<(Variant, PartMap<PartRecipe>)>, k: int, x: PartMap<PartRecipe>, w: Variant, i: int)
    requires
        0 <= k < vs.len(),
        0 <= i,
    ensures
        variant_index(vs.update(k, (vs[k].0, x)), w, i) == variant_index(vs, w, i),
    decreases vs.len() - i,
{
    if i < vs.len() && vs[i].0 != w {
        lemma_variant_index_update(vs, k, x, w, i + 1);
    }
}

proof fn lemma_variant_index_push(vs: Seq<(Variant, PartMap<PartRecipe>)>, v: Variant, x: PartMap<PartRecipe>, w: Variant, i: int)
    requires
        0 <= i <= vs.len(),
        variant_index(vs, v, i) == -1,
    ensures
        w != v ==> variant_index(vs.push((v, x)), w, i) == variant_index(vs, w, i),
        variant_index(vs.push((v, x)), v, i) == vs.len(),
    decreases vs.len() - i,
{
    let n = vs.push((v, x));
    if i < vs.len() {
        assert(n[i] == vs[i]);
        lemma_variant_index_push(vs, v, x, w, i + 1);
    } else {
        assert(n[i] == (v, x));
        assert(variant_index(n, w, i + 1) == -1);
    }
}

/// The parts of variant `v`'s delta, created empty when absent; every
/// other delta is left alone.
fn delta(r: &mut Recipe, v: Variant) -> (m: &mut PartMap<PartRecipe>)
    requires
        recipe_wf(*old(r)),
    ensures
        m.wf(),
        m.spec_entries() == delta_entries(*old(r), v),
        final(r).parts == old(r).parts,
        final(r).default_variant == old(r).default_variant,
        final(m).wf() ==> recipe_wf(*final(r)),
        delta_entries(*final(r), v) == final(m).spec_entries(),
        forall|w: Variant| w != v ==> #[trigger] delta_entries(*final(r), w) == delta_entries(*old(r), w),
{
    let ghost vs = r.variants@;
    proof {
        lemma_variant_index(vs, v, 0);
        assert forall|w: Variant| #![trigger variant_index(vs, w, 0)]
            variant_index(vs, w, 0) == -1 || (0 <= variant_index(vs, w, 0) < vs.len() && vs[variant_index(vs, w, 0)].0 == w) by {
            lemma_variant_index(vs, w, 0);
        }
        let k = variant_index(vs, v, 0);
        if k >= 0 {
            assert forall|x: PartMap<PartRecipe>, w: Variant| #[trigger] variant_index(vs.update(k, (v, x)), w, 0) == variant_index(vs, w, 0) by {
                lemma_variant_index_update(vs, k, x, w, 0);
            }
        } else {
            assert forall|x: PartMap<PartRecipe>, w: Variant| #[trigger] variant_index(vs.push((v, x)), w, 0) == if w == v {
                vs.len() as int
            } else {
                variant_index(vs, w, 0)
            } by {
                lemma_variant_index_push(vs, v, x, w, 0);
            }
        }
    }
    let m = r.variant_mut(v);
    proof {
        if variant_index(vs, v, 0) < 0 {
            assert(m.spec_entries() =~= Seq::<(Part, PartRecipe)>::empty());
        }
    }
    m
}

/// A button's container for variant `v`, before the busy rule.
pub open spec fn button_container(pv: Option<PartView>, v: Variant) -> PartView {
    let e = empty_patch();
    if v == Variant(1) {
        let c = grown(pv, with_add(with_bg(with_fg(e, Role::OnAccent), Role::Accent), 1u16));
        let c = ruled(c, StateFlags::of_bits(4u16), with_bg(e, Role::AccentHover));
        let c = ruled(c, StateFlags::of_bits(8u16), with_bg(e, Role::AccentPressed));
        ruled(c, StateFlags::of_bits(128u16), with_remove(with_bg(with_fg(e, Role::DisabledFg), Role::DisabledBg), 1u16))
    } else if v == Variant(4) {
        let c = grown(pv, with_bg(with_fg(e, Role::Danger), Role::Surface(Surface::Overlay)));
        let c = ruled(c, StateFlags::of_bits(4u16), with_bg(e, Role::Surface(Surface::Popover)));
        let c = ruled(c, StateFlags::of_bits(1u16), with_add(e, 1u16));
        let c = ruled(c, StateFlags::of_bits(8u16), with_bg(with_fg(e, Role::OnDanger), Role::Danger));
        ruled(c, StateFlags::of_bits(128u16), with_remove(with_bg(with_fg(e, Role::DisabledFg), Role::DisabledBg), 1u16))
    } else if v == Variant(3) || v == Variant(6) || v == Variant(7) {
        let c = grown(pv, with_bg(with_fg(e, Role::Fg(FgStep::Secondary)), Role::CurrentSurface));
        let c = ruled(c, StateFlags::of_bits(4u16), with_bg(with_fg(e, Role::Fg(FgStep::Primary)), Role::RaisedSurface));
        let c = ruled(c, StateFlags::of_bits(1u16), with_add(with_fg(e, Role::Fg(FgStep::Primary)), 1u16));
        let c = ruled(c, StateFlags::of_bits(8u16), with_bg(with_fg(e, Role::Surface(Surface::Canvas)), Role::Fg(FgStep::Primary)));
        ruled(c, StateFlags::of_bits(128u16), with_remove(with_fg(e, Role::DisabledFg), 1u16))
    } else {
        let c = grown(pv, with_bg(with_fg(e, Role::Fg(FgStep::Primary)), Role::Surface(Surface::Overlay)));
        let c = ruled(c, StateFlags::of_bits(4u16), with_bg(e, Role::Surface(Surface::Popover)));
        let c = ruled(c, StateFlags::of_bits(1u16), with_add(e, 1u16));
        let c = ruled(c, StateFlags::of_bits(8u16), with_bg(with_fg(e, Role::Surface(Surface::Canvas)), Role::Fg(FgStep::Primary)));
        ruled(c, StateFlags::of_bits(128u16), with_remove(with_bg(with_fg(e, Role::DisabledFg), Role::DisabledBg), 1u16))
    }
}

/// What a button's look for variant `v` makes of part `q`.
pub open spec fn button_variant_at(pv: Option<PartView>, v: Variant, q: Part) -> Option<PartView> {
    let e = empty_patch();
    let gutter_fg = if v == Variant(1) { Role::Fg(FgStep::Primary) } else { Role::Focus };
    let s1 = if q == Part(0) {
        let v = button_container(pv, v);
        Some(ruled(v, StateFlags::of_bits(2048u16), with_remove(e, 1u16)))
    } else {
        pv
    };
    let s2 = if q == Part(2) {
        Some(ruled(grown(s1, e), StateFlags::of_bits(1u16), with_fg(with_glyph(e, GlyphRole::FocusBar), gutter_fg)))
    } else {
        s1
    };
    let s3 = if q == Part(4) { Some(grown(s2, e)) } else { s2 };
    let s4 = if q == Part(10) { Some(grown(s3, e)) } else { s3 };
    s4
}

/// A button's parts for one variant.
fn button_variant(m: &mut PartMap<PartRecipe>, v: Variant)
    requires
        old(m).wf(),
    ensures
        final(m).wf(),
        forall|q: Part| #[trigger] pv_at(final(m).spec_entries(), q) == button_variant_at(pv_at(old(m).spec_entries(), q), v, q),
{
    let c = if v == Variant::primary() {
        part(m, Part::container(), p().set_fg(Role::OnAccent).set_bg(Role::Accent).add(Modifier::bold()))
            .when(StateFlags::hovered(), p().set_bg(Role::AccentHover))
            .when(StateFlags::pressed(), p().set_bg(Role::AccentPressed))
            .when(
                StateFlags::disabled(),
                p().set_fg(Role::DisabledFg).set_bg(Role::DisabledBg).remove(Modifier::bold()),
            )
    } else if v == Variant::danger() {
        part(m, Part::container(), p().set_fg(Role::Danger).set_bg(Role::Surface(Surface::Overlay)))
            .when(StateFlags::hovered(), p().set_bg(Role::Surface(Surface::Popover)))
            .when(StateFlags::focused(), p().add(Modifier::bold()))
            .when(StateFlags::pressed(), p().set_fg(Role::OnDanger).set_bg(Role::Danger))
            .when(
                StateFlags::disabled(),
                p().set_fg(Role::DisabledFg).set_bg(Role::DisabledBg).remove(Modifier::bold()),
            )
    } else if v == Variant::subtle() || v == Variant::quiet() || v == Variant::ghost() {
        part(m, Part::container(), p().set_fg(Role::Fg(FgStep::Secondary)).set_bg(Role::CurrentSurface))
            .when(StateFlags::hovered(), p().set_fg(Role::Fg(FgStep::Primary)).set_bg(Role::RaisedSurface))
            .when(StateFlags::focused(), p().set_fg(Role::Fg(FgStep::Primary)).add(Modifier::bold()))
            .when(StateFlags::pressed(), p().set_fg(Role::Surface(Surface::Canvas)).set_bg(Role::Fg(FgStep::Primary)))
            .when(StateFlags::disabled(), p().set_fg(Role::DisabledFg).remove(Modifier::bold()))
    } else {
        part(m, Part::container(), p().set_fg(Role::Fg(FgStep::Primary)).set_bg(Role::Surface(Surface::Overlay)))
            .when(StateFlags::hovered(), p().set_bg(Role::Surface(Surface::Popover)))
            .when(StateFlags::focused(), p().add(Modifier::bold()))
            .when(StateFlags::pressed(), p().set_fg(Role::Surface(Surface::Canvas)).set_bg(Role::Fg(FgStep::Primary)))
            .when(
                StateFlags::disabled(),
                p().set_fg(Role::DisabledFg).set_bg(Role::DisabledBg).remove(Modifier::bold()),
            )
    };
    c.when(StateFlags::busy(), p().remove(Modifier::bold()));
    let gutter_fg = if v == Variant::primary() { Role::Fg(FgStep::Primary) } else { Role::Focus };
    part(m, Part::gutter(), p()).when(StateFlags::focused(), p().set_glyph(GlyphRole::FocusBar).set_fg(gutter_fg));
    part(m, Part::label(), p());
    part(m, Part::icon(), p());
}

/// What the built-in look of text fields makes of part `q`.
pub open spec fn field_like_at(pv: Option<PartView>, q: Part) -> Option<PartView> {
    let e = empty_patch();
    let s1 = if q == Part(11) {
        let v = grown(pv, with_bg(with_fg(e, Role::Fg(FgStep::Primary)), Role::Surface(Surface::Field)));
        let v = ruled(v, StateFlags::of_bits(4u16), with_bg(e, Role::Surface(Surface::FieldHover)));
        let v = ruled(v, StateFlags::of_bits((4u16 | 4096u16)), with_bg(e, Role::Surface(Surface::Field)));
        let v = ruled(v, StateFlags::of_bits(256u16), with_fg(e, Role::ReadOnlyFg));
        Some(ruled(v, StateFlags::of_bits(128u16), with_fg(e, Role::DisabledFg)))
    } else {
        pv
    };
    let s2 = if q == Part(12) { Some(grown(s1, e)) } else { s1 };
    let s3 = if q == Part(17) {
        let v = grown(s2, with_fg(e, Role::Fg(FgStep::Muted)));
        Some(ruled(v, StateFlags::of_bits(128u16), with_fg(e, Role::DisabledFg)))
    } else {
        s2
    };
    let s4 = if q == Part(4) {
        let v = grown(s3, with_fg(e, Role::Fg(FgStep::Secondary)));
        let v = ruled(v, StateFlags::of_bits(1u16), with_add(with_fg(e, Role::Fg(FgStep::Primary)), 1u16));
        Some(ruled(v, StateFlags::of_bits(128u16), with_remove(with_fg(e, Role::DisabledFg), 1u16)))
    } else {
        s3
    };
    let s5 = if q == Part(18) {
        let v = grown(s4, with_fg(e, Role::Fg(FgStep::Muted)));
        Some(ruled(v, StateFlags::of_bits(512u16), with_fg(e, Role::Danger)))
    } else {
        s4
    };
    let s6 = if q == Part(3) {
        let v = grown(s5, e);
        Some(ruled(v, StateFlags::of_bits(512u16), with_add(with_fg(with_glyph(e, GlyphRole::Error), Role::Danger), 1u16)))
    } else {
        s5
    };
    let s7 = if q == Part(2) {
        let v = grown(s6, e);
        Some(ruled(v, StateFlags::of_bits(1u16), with_fg(with_glyph(e, GlyphRole::FocusBar), Role::Focus)))
    } else {
        s6
    };
    let s8 = if q == Part(0) { Some(grown(s7, with_bg(e, Role::CurrentSurface))) } else { s7 };
    let s9 = if q == Part(6) {
        Some(grown(s8, with_glyph(with_fg(e, Role::BorderSubtle), GlyphRole::ScrollTrack)))
    } else {
        s8
    };
    let s10 = if q == Part(7) {
        Some(grown(s9, with_glyph(with_fg(e, Role::Fg(FgStep::Muted)), GlyphRole::ScrollThumb)))
    } else {
        s9
    };
    let s11 = if q == Part(15) {
        let v = grown(s10, e);
        Some(ruled(v, StateFlags::of_bits(16u16), with_fg(with_bg(e, Role::SelectionBg), Role::SelectionFg)))
    } else {
        s10
    };
    s11
}
/// Text fields: the field plane, its text, placeholder, label, help, the
/// error marker and a scrollable list of rows.
fn field_like(m: &mut PartMap<PartRecipe>)
    requires
        old(m).wf(),
    ensures
        final(m).wf(),
        forall|q: Part| #[trigger] pv_at(final(m).spec_entries(), q) == field_like_at(pv_at(old(m).spec_entries(), q), q),
{
    part(m, Part::field(), p().set_fg(Role::Fg(FgStep::Primary)).set_bg(Role::Surface(Surface::Field)))
        .when(StateFlags::hovered(), p().set_bg(Role::Surface(Surface::FieldHover)))
        .when(StateFlags::hovered().union(StateFlags::editing()), p().set_bg(Role::Surface(Surface::Field)))
        .when(StateFlags::read_only(), p().set_fg(Role::ReadOnlyFg))
        .when(StateFlags::disabled(), p().set_fg(Role::DisabledFg));
    part(m, Part::text(), p());
    part(m, Part::placeholder(), p().set_fg(Role::Fg(FgStep::Muted)))
        .when(StateFlags::disabled(), p().set_fg(Role::DisabledFg));
    part(m, Part::label(), p().set_fg(Role::Fg(FgStep::Secondary)))
        .when(StateFlags::focused(), p().set_fg(Role::Fg(FgStep::Primary)).add(Modifier::bold()))
        .when(StateFlags::disabled(), p().set_fg(Role::DisabledFg).remove(Modifier::bold()));
    part(m, Part::help(), p().set_fg(Role::Fg(FgStep::Muted))).when(StateFlags::error(), p().set_fg(Role::Danger));
    part(m, Part::marker(), p()).when(
        StateFlags::error(),
        p().set_glyph(GlyphRole::Error).set_fg(Role::Danger).add(Modifier::bold()),
    );
    part(m, Part::gutter(), p()).when(StateFlags::focused(), p().set_glyph(GlyphRole::FocusBar).set_fg(Role::Focus));
    part(m, Part::container(), p().set_bg(Role::CurrentSurface));
    part(m, Part::track(), p().set_fg(Role::BorderSubtle).set_glyph(GlyphRole::ScrollTrack));
    part(m, Part::thumb(), p().set_fg(Role::Fg(FgStep::Muted)).set_glyph(GlyphRole::ScrollThumb));
    part(m, Part::row(), p()).when(StateFlags::selected(), p().set_bg(Role::SelectionBg).set_fg(Role::SelectionFg));
}

/// What the built-in look of panels, dialogs, overlays, forms and wizards makes of part `q`.
pub open spec fn container_like_at(pv: Option<PartView>, q: Part) -> Option<PartView> {
    let e = empty_patch();
    let s1 = if q == Part(0) {
        Some(grown(pv, with_bg(with_fg(e, Role::Fg(FgStep::Primary)), Role::CurrentSurface)))
    } else {
        pv
    };
    let s2 = if q == Part(1) {
        let v = grown(s1, with_fg(e, Role::BorderSubtle));
        Some(ruled(v, StateFlags::of_bits(1u16), with_fg(e, Role::BorderStrong)))
    } else {
        s1
    };
    let s3 = if q == Part(16) {
        Some(grown(s2, with_add(with_fg(e, Role::Fg(FgStep::Primary)), 1u16)))
    } else {
        s2
    };
    let s4 = if q == Part(19) { Some(grown(s3, with_fg(e, Role::Fg(FgStep::Secondary)))) } else { s3 };
    let s5 = if q == Part(20) { Some(grown(s4, e)) } else { s4 };
    let s6 = if q == Part(21) { Some(grown(s5, e)) } else { s5 };
    let s7 = if q == Part(18) { Some(grown(s6, with_fg(e, Role::Fg(FgStep::Muted)))) } else { s6 };
    let s8 = if q == Part(22) {
        Some(grown(s7, with_bg(with_fg(e, Role::BackdropFg), Role::BackdropBg)))
    } else {
        s7
    };
    let s9 = if q == Part(13) {
        Some(grown(s8, with_glyph(with_fg(e, Role::BorderSubtle), GlyphRole::RuleQuiet)))
    } else {
        s8
    };
    s9
}
/// Panels, dialogs, overlays, forms and wizards.
fn container_like(m: &mut PartMap<PartRecipe>)
    requires
        old(m).wf(),
    ensures
        final(m).wf(),
        forall|q: Part| #[trigger] pv_at(final(m).spec_entries(), q) == container_like_at(pv_at(old(m).spec_entries(), q), q),
{
    part(m, Part::container(), p().set_fg(Role::Fg(FgStep::Primary)).set_bg(Role::CurrentSurface));
    part(m, Part::border(), p().set_fg(Role::BorderSubtle)).when(StateFlags::focused(), p().set_fg(Role::BorderStrong));
    part(m, Part::title(), p().set_fg(Role::Fg(FgStep::Primary)).add(Modifier::bold()));
    part(m, Part::detail(), p().set_fg(Role::Fg(FgStep::Secondary)));
    part(m, Part::body(), p());
    part(m, Part::actions(), p());
    part(m, Part::help(), p().set_fg(Role::Fg(FgStep::Muted)));
    part(m, Part::backdrop(), p().set_fg(Role::BackdropFg).set_bg(Role::BackdropBg));
    part(m, Part::rule(), p().set_fg(Role::BorderSubtle).set_glyph(GlyphRole::RuleQuiet));
}

/// What the built-in look of tab strips makes of part `q`.
pub open spec fn tabs_at(pv: Option<PartView>, q: Part) -> Option<PartView> {
    let e = empty_patch();
    let s1 = row_like_at(pv, q);
    let s2 = if q == Part(23) {
        let v = grown(s1, with_fg(e, Role::Fg(FgStep::Secondary)));
        let v = ruled(v, StateFlags::of_bits(4u16), with_bg(with_fg(e, Role::Fg(FgStep::Primary)), Role::RaisedSurface));
        Some(ruled(v, StateFlags::of_bits(32u16), with_add(with_fg(e, Role::Fg(FgStep::Primary)), 1u16)))
    } else {
        s1
    };
    let s3 = if q == Part(13) {
        let v = grown(s2, with_glyph(with_fg(e, Role::BorderSubtle), GlyphRole::RuleQuiet));
        Some(ruled(v, StateFlags::of_bits(32u16), with_glyph(with_fg(e, Role::Accent), GlyphRole::RuleActive)))
    } else {
        s2
    };
    let s4 = if q == Part(24) {
        let v = grown(s3, with_glyph(with_fg(e, Role::Fg(FgStep::Faint)), GlyphRole::Close));
        Some(ruled(v, StateFlags::of_bits(4u16), with_fg(e, Role::Fg(FgStep::Primary))))
    } else {
        s3
    };
    let s5 = if q == Part(25) { Some(grown(s4, with_fg(e, Role::Fg(FgStep::Muted)))) } else { s4 };
    let s6 = if q == Part(26) {
        Some(grown(s5, with_glyph(with_fg(e, Role::Fg(FgStep::Muted)), GlyphRole::NewTab)))
    } else {
        s5
    };
    let s7 = if q == Part(27) {
        Some(grown(s6, with_add(with_bg(with_fg(e, Role::OnAccent), Role::Accent), 1u16)))
    } else {
        s6
    };
    s7
}
/// Tab strips.
fn tabs(m: &mut PartMap<PartRecipe>)
    requires
        old(m).wf(),
    ensures
        final(m).wf(),
        forall|q: Part| #[trigger] pv_at(final(m).spec_entries(), q) == tabs_at(pv_at(old(m).spec_entries(), q), q),
{
    row_like(m);
    part(m, Part::tab(), p().set_fg(Role::Fg(FgStep::Secondary)))
        .when(StateFlags::hovered(), p().set_fg(Role::Fg(FgStep::Primary)).set_bg(Role::RaisedSurface))
        .when(StateFlags::active(), p().set_fg(Role::Fg(FgStep::Primary)).add(Modifier::bold()));
    part(m, Part::rule(), p().set_fg(Role::BorderSubtle).set_glyph(GlyphRole::RuleQuiet))
        .when(StateFlags::active(), p().set_fg(Role::Accent).set_glyph(GlyphRole::RuleActive));
    part(m, Part::close(), p().set_fg(Role::Fg(FgStep::Faint)).set_glyph(GlyphRole::Close))
        .when(StateFlags::hovered(), p().set_fg(Role::Fg(FgStep::Primary)));
    part(m, Part::overflow(), p().set_fg(Role::Fg(FgStep::Muted)));
    part(m, Part::new_tab(), p().set_fg(Role::Fg(FgStep::Muted)).set_glyph(GlyphRole::NewTab));
    part(m, Part::badge(), p().set_fg(Role::OnAccent).set_bg(Role::Accent).add(Modifier::bold()));
}

/// What a menu's base look makes of part `q`.
pub open spec fn menu_at(pv: Option<PartView>, q: Part) -> Option<PartView> {
    let e = empty_patch();
    let s1 = row_like_at(pv, q);
    let s2 = if q == Part(15) {
        let v = grown(s1, e);
        let v = ruled(v, StateFlags::of_bits(32u16), with_fg(with_bg(e, Role::HighlightBg), Role::HighlightFg));
        let v = ruled(v, StateFlags::of_bits(4u16), with_fg(with_bg(e, Role::HighlightBg), Role::HighlightFg));
        Some(ruled(v, StateFlags::of_bits(8u16), with_add(with_bg(with_fg(e, Role::Surface(Surface::Canvas)), Role::Fg(FgStep::Primary)), 1u16)))
    } else {
        s1
    };
    let s3 = if q == Part(16) {
        let v = grown(s2, e);
        Some(ruled(v, StateFlags::of_bits(8u16), with_add(with_glyph(e, GlyphRole::PressLeft), 1u16)))
    } else {
        s2
    };
    let s4 = if q == Part(28) { Some(grown(s3, with_fg(e, Role::Fg(FgStep::Muted)))) } else { s3 };
    s4
}

/// What a menu's danger variant makes of part `q`.
pub open spec fn menu_danger_at(pv: Option<PartView>, q: Part) -> Option<PartView> {
    let e = empty_patch();
    let s1 = if q == Part(15) {
        let v = grown(pv, with_fg(e, Role::DangerSoft));
        let v = ruled(v, StateFlags::of_bits(32u16), with_fg(with_bg(e, Role::HighlightDangerBg), Role::HighlightDangerFg));
        Some(ruled(v, StateFlags::of_bits(8u16), with_add(with_bg(with_fg(e, Role::Surface(Surface::Canvas)), Role::Fg(FgStep::Primary)), 1u16)))
    } else {
        pv
    };
    s1
}

/// What the help overlay's look makes of part `q`.
pub open spec fn help_at(pv: Option<PartView>, q: Part) -> Option<PartView> {
    let e = empty_patch();
    let s1 = container_like_at(pv, q);
    let s2 = if q == Part(1) {
        let v = grown(s1, with_fg(e, Role::BorderSubtle));
        Some(ruled(v, StateFlags::of_bits(1u16), with_add(with_fg(e, Role::BorderStrong), 1u16)))
    } else {
        s1
    };
    let s3 = if q == Part(16) {
        let v = grown(s2, with_add(with_fg(e, Role::Fg(FgStep::Primary)), 1u16));
        Some(ruled(v, StateFlags::of_bits(1u16), with_add(e, 8u16)))
    } else {
        s2
    };
    s3
}

/// What a menu makes of variant `w`'s delta at part `q`.
pub open spec fn menu_delta_at(w: Variant, pv: Option<PartView>, q: Part) -> Option<PartView> {
    if w == Variant(4) { menu_danger_at(pv, q) } else { pv }
}

/// What a button makes of variant `w`'s delta at part `q`: every library
/// variant but the default gets the look of that variant.
pub open spec fn button_delta_at(w: Variant, pv: Option<PartView>, q: Part) -> Option<PartView> {
    if 1 <= w.0 < 8 { button_variant_at(pv, w, q) } else { pv }
}

/// Menus: rows that highlight, and a danger variant.
fn menu(r: &mut Recipe)
    requires
        recipe_wf(*old(r)),
    ensures
        recipe_wf(*final(r)),
        final(r).default_variant == old(r).default_variant,
        forall|q: Part| #[trigger] pv_at(final(r).parts.spec_entries(), q) == menu_at(pv_at(old(r).parts.spec_entries(), q), q),
        forall|w: Variant, q: Part| #[trigger] pv_at(delta_entries(*final(r), w), q) == menu_delta_at(w, pv_at(delta_entries(*old(r), w), q), q),
{
    {
        let m = &mut r.parts;
        row_like(m);
        part(m, Part::row(), p())
            .when(StateFlags::active(), p().set_bg(Role::HighlightBg).set_fg(Role::HighlightFg))
            .when(StateFlags::hovered(), p().set_bg(Role::HighlightBg).set_fg(Role::HighlightFg))
            .when(
                StateFlags::pressed(),
                p().set_fg(Role::Surface(Surface::Canvas)).set_bg(Role::Fg(FgStep::Primary)).add(Modifier::bold()),
            );
        part(m, Part::title(), p()).when(StateFlags::pressed(), p().set_glyph(GlyphRole::PressLeft).add(Modifier::bold()));
        part(m, Part::key(), p().set_fg(Role::Fg(FgStep::Muted)));
    }
    let d = delta(r, Variant::danger());
    part(d, Part::row(), p().set_fg(Role::DangerSoft))
        .when(StateFlags::active(), p().set_bg(Role::HighlightDangerBg).set_fg(Role::HighlightDangerFg))
        .when(
            StateFlags::pressed(),
            p().set_fg(Role::Surface(Surface::Canvas)).set_bg(Role::Fg(FgStep::Primary)).add(Modifier::bold()),
        );
}

/// The help overlay: a container whose focused border and title stand out.
fn help(r: &mut Recipe)
    requires
        recipe_wf(*old(r)),
    ensures
        recipe_wf(*final(r)),
        final(r).default_variant == old(r).default_variant,
        final(r).variants == old(r).variants,
        forall|q: Part| #[trigger] pv_at(final(r).parts.spec_entries(), q) == help_at(pv_at(old(r).parts.spec_entries(), q), q),
{
    container_like(&mut r.parts);
    part(&mut r.parts, Part::border(), p().set_fg(Role::BorderSubtle))
        .when(StateFlags::focused(), p().set_fg(Role::BorderStrong).add(Modifier::bold()));
    part(&mut r.parts, Part::title(), p().set_fg(Role::Fg(FgStep::Primary)).add(Modifier::bold()))
        .when(StateFlags::focused(), p().add(Modifier::underlined()));
}

/// What the built-in look of scrollbars makes of part `q`.
pub open spec fn scrollbar_at(pv: Option<PartView>, q: Part) -> Option<PartView> {
    let e = empty_patch();
    let s1 = if q == Part(6) {
        Some(grown(pv, with_glyph(with_fg(e, Role::BorderSubtle), GlyphRole::ScrollTrack)))
    } else {
        pv
    };
    let s2 = if q == Part(7) {
        let v = grown(s1, with_glyph(with_fg(e, Role::Fg(FgStep::Muted)), GlyphRole::ScrollThumb));
        let v = ruled(v, StateFlags::of_bits(4u16), with_fg(e, Role::Fg(FgStep::Secondary)));
        let v = ruled(v, StateFlags::of_bits(1u16), with_fg(e, Role::Fg(FgStep::Primary)));
        Some(ruled(v, StateFlags::of_bits(8u16), with_fg(e, Role::Accent)))
    } else {
        s1
    };
    s2
}
/// Scrollbars.
fn scrollbar(m: &mut PartMap<PartRecipe>)
    requires
        old(m).wf(),
    ensures
        final(m).wf(),
        forall|q: Part| #[trigger] pv_at(final(m).spec_entries(), q) == scrollbar_at(pv_at(old(m).spec_entries(), q), q),
{
    part(m, Part::track(), p().set_fg(Role::BorderSubtle).set_glyph(GlyphRole::ScrollTrack));
    part(m, Part::thumb(), p().set_fg(Role::Fg(FgStep::Muted)).set_glyph(GlyphRole::ScrollThumb))
        .when(StateFlags::hovered(), p().set_fg(Role::Fg(FgStep::Secondary)))
        .when(StateFlags::focused(), p().set_fg(Role::Fg(FgStep::Primary)))
        .when(StateFlags::pressed(), p().set_fg(Role::Accent));
}

/// What the built-in look of splits makes of part `q`.
pub open spec fn split_at(pv: Option<PartView>, q: Part) -> Option<PartView> {
    let e = empty_patch();
    let s1 = if q == Part(30) {
        let v = grown(pv, with_fg(e, Role::BorderSubtle));
        let v = ruled(v, StateFlags::of_bits(4u16), with_fg(e, Role::BorderStrong));
        Some(ruled(v, StateFlags::of_bits(8u16), with_fg(e, Role::Accent)))
    } else {
        pv
    };
    let s2 = if q == Part(0) { Some(grown(s1, with_bg(e, Role::CurrentSurface))) } else { s1 };
    s2
}
/// Splits.
fn split(m: &mut PartMap<PartRecipe>)
    requires
        old(m).wf(),
    ensures
        final(m).wf(),
        forall|q: Part| #[trigger] pv_at(final(m).spec_entries(), q) == split_at(pv_at(old(m).spec_entries(), q), q),
{
    part(m, Part::seam(), p().set_fg(Role::BorderSubtle))
        .when(StateFlags::hovered(), p().set_fg(Role::BorderStrong))
        .when(StateFlags::pressed(), p().set_fg(Role::Accent));
    part(m, Part::container(), p().set_bg(Role::CurrentSurface));
}

/// What the built-in look of text viewports and diffs makes of part `q`.
pub open spec fn viewport_at(pv: Option<PartView>, q: Part) -> Option<PartView> {
    let e = empty_patch();
    let s1 = if q == Part(0) {
        Some(grown(pv, with_bg(with_fg(e, Role::Fg(FgStep::Primary)), Role::CurrentSurface)))
    } else {
        pv
    };
    let s2 = if q == Part(12) {
        let v = grown(s1, e);
        Some(ruled(v, StateFlags::of_bits(16u16), with_fg(with_bg(e, Role::SelectionBg), Role::SelectionFg)))
    } else {
        s1
    };
    let s3 = if q == Part(2) { Some(grown(s2, with_fg(e, Role::Fg(FgStep::Faint)))) } else { s2 };
    let s4 = if q == Part(6) {
        Some(grown(s3, with_glyph(with_fg(e, Role::BorderSubtle), GlyphRole::ScrollTrack)))
    } else {
        s3
    };
    let s5 = if q == Part(7) {
        Some(grown(s4, with_glyph(with_fg(e, Role::Fg(FgStep::Muted)), GlyphRole::ScrollThumb)))
    } else {
        s4
    };
    s5
}
/// Text viewports and diffs.
fn viewport(m: &mut PartMap<PartRecipe>)
    requires
        old(m).wf(),
    ensures
        final(m).wf(),
        forall|q: Part| #[trigger] pv_at(final(m).spec_entries(), q) == viewport_at(pv_at(old(m).spec_entries(), q), q),
{
    part(m, Part::container(), p().set_fg(Role::Fg(FgStep::Primary)).set_bg(Role::CurrentSurface));
    part(m, Part::text(), p()).when(StateFlags::selected(), p().set_bg(Role::SelectionBg).set_fg(Role::SelectionFg));
    part(m, Part::gutter(), p().set_fg(Role::Fg(FgStep::Faint)));
    part(m, Part::track(), p().set_fg(Role::BorderSubtle).set_glyph(GlyphRole::ScrollTrack));
    part(m, Part::thumb(), p().set_fg(Role::Fg(FgStep::Muted)).set_glyph(GlyphRole::ScrollThumb));
}

/// What the built-in look of status and hint bars makes of part `q`.
pub open spec fn bars_at(pv: Option<PartView>, q: Part) -> Option<PartView> {
    let e = empty_patch();
    let s1 = if q == Part(0) {
        Some(grown(pv, with_bg(with_fg(e, Role::Fg(FgStep::Secondary)), Role::Surface(Surface::Surface))))
    } else {
        pv
    };
    let s2 = if q == Part(28) {
        Some(grown(s1, with_add(with_fg(e, Role::Fg(FgStep::Primary)), 1u16)))
    } else {
        s1
    };
    let s3 = if q == Part(29) { Some(grown(s2, with_fg(e, Role::Fg(FgStep::Muted)))) } else { s2 };
    let s4 = if q == Part(27) {
        Some(grown(s3, with_add(with_bg(with_fg(e, Role::OnAccent), Role::Accent), 1u16)))
    } else {
        s3
    };
    let s5 = if q == Part(4) {
        let v = grown(s4, e);
        let v = ruled(v, StateFlags::of_bits(512u16), with_fg(e, Role::Danger));
        Some(ruled(v, StateFlags::of_bits(1024u16), with_fg(e, Role::Warning)))
    } else {
        s4
    };
    s5
}
/// Status and hint bars.
fn bars(m: &mut PartMap<PartRecipe>)
    requires
        old(m).wf(),
    ensures
        final(m).wf(),
        forall|q: Part| #[trigger] pv_at(final(m).spec_entries(), q) == bars_at(pv_at(old(m).spec_entries(), q), q),
{
    part(m, Part::container(), p().set_fg(Role::Fg(FgStep::Secondary)).set_bg(Role::Surface(Surface::Surface)));
    part(m, Part::key(), p().set_fg(Role::Fg(FgStep::Primary)).add(Modifier::bold()));
    part(m, Part::action(), p().set_fg(Role::Fg(FgStep::Muted)));
    part(m, Part::badge(), p().set_fg(Role::OnAccent).set_bg(Role::Accent).add(Modifier::bold()));
    part(m, Part::label(), p())
        .when(StateFlags::error(), p().set_fg(Role::Danger))
        .when(StateFlags::warning(), p().set_fg(Role::Warning));
}

/// What the built-in look of key hints makes of part `q`.
pub open spec fn keyhint_at(pv: Option<PartView>, q: Part) -> Option<PartView> {
    let e = empty_patch();
    let s1 = if q == Part(28) {
        Some(grown(pv, with_add(with_fg(e, Role::Fg(FgStep::Primary)), 1u16)))
    } else {
        pv
    };
    let s2 = if q == Part(29) { Some(grown(s1, with_fg(e, Role::Fg(FgStep::Muted)))) } else { s1 };
    s2
}
/// Key hints.
fn keyhint(m: &mut PartMap<PartRecipe>)
    requires
        old(m).wf(),
    ensures
        final(m).wf(),
        forall|q: Part| #[trigger] pv_at(final(m).spec_entries(), q) == keyhint_at(pv_at(old(m).spec_entries(), q), q),
{
    part(m, Part::key(), p().set_fg(Role::Fg(FgStep::Primary)).add(Modifier::bold()));
    part(m, Part::action(), p().set_fg(Role::Fg(FgStep::Muted)));
}

/// What the built-in look of progress and meters makes of part `q`.
pub open spec fn progress_at(pv: Option<PartView>, q: Part) -> Option<PartView> {
    let e = empty_patch();
    let s1 = if q == Part(4) { Some(grown(pv, with_fg(e, Role::Fg(FgStep::Secondary)))) } else { pv };
    let s2 = if q == Part(6) { Some(grown(s1, with_fg(e, Role::Meter(MeterRole::Track)))) } else { s1 };
    let s3 = if q == Part(10) {
        let v = grown(s2, with_fg(e, Role::Accent));
        let v = ruled(v, StateFlags::of_bits(512u16), with_glyph(with_fg(e, Role::Danger), GlyphRole::Error));
        Some(ruled(v, StateFlags::of_bits(64u16), with_glyph(with_fg(e, Role::Fg(FgStep::Secondary)), GlyphRole::ProgressDone)))
    } else {
        s2
    };
    let s4 = if q == Part(5) { Some(grown(s3, with_fg(e, Role::Fg(FgStep::Muted)))) } else { s3 };
    s4
}
/// Progress and meters.
fn progress(m: &mut PartMap<PartRecipe>)
    requires
        old(m).wf(),
    ensures
        final(m).wf(),
        forall|q: Part| #[trigger] pv_at(final(m).spec_entries(), q) == progress_at(pv_at(old(m).spec_entries(), q), q),
{
    part(m, Part::label(), p().set_fg(Role::Fg(FgStep::Secondary)));
    part(m, Part::track(), p().set_fg(Role::Meter(MeterRole::Track)));
    part(m, Part::icon(), p().set_fg(Role::Accent))
        .when(StateFlags::error(), p().set_fg(Role::Danger).set_glyph(GlyphRole::Error))
        .when(StateFlags::checked(), p().set_fg(Role::Fg(FgStep::Secondary)).set_glyph(GlyphRole::ProgressDone));
    part(m, Part::meta(), p().set_fg(Role::Fg(FgStep::Muted)));
}

/// What the built-in look of empty states makes of part `q`.
pub open spec fn empty_state_at(pv: Option<PartView>, q: Part) -> Option<PartView> {
    let e = empty_patch();
    let s1 = if q == Part(16) { Some(grown(pv, with_fg(e, Role::Fg(FgStep::Muted)))) } else { pv };
    let s2 = if q == Part(18) { Some(grown(s1, with_fg(e, Role::Fg(FgStep::Faint)))) } else { s1 };
    let s3 = if q == Part(10) {
        let v = grown(s2, with_fg(e, Role::Accent));
        Some(ruled(v, StateFlags::of_bits(512u16), with_fg(e, Role::Danger)))
    } else {
        s2
    };
    s3
}
/// Empty states.
fn empty_state(m: &mut PartMap<PartRecipe>)
    requires
        old(m).wf(),
    ensures
        final(m).wf(),
        forall|q: Part| #[trigger] pv_at(final(m).spec_entries(), q) == empty_state_at(pv_at(old(m).spec_entries(), q), q),
{
    part(m, Part::title(), p().set_fg(Role::Fg(FgStep::Muted)));
    part(m, Part::help(), p().set_fg(Role::Fg(FgStep::Faint)));
    part(m, Part::icon(), p().set_fg(Role::Accent)).when(StateFlags::error(), p().set_fg(Role::Danger));
}

/// What the built-in look of the brand mark makes of part `q`.
pub open spec fn brand_at(pv: Option<PartView>, q: Part) -> Option<PartView> {
    let e = empty_patch();
    let s1 = if q == Part(4) {
        let v = grown(pv, with_add(with_bg(with_fg(e, Role::OnAccent), Role::Accent), 1u16));
        Some(ruled(v, StateFlags::of_bits(4u16), with_bg(e, Role::AccentHover)))
    } else {
        pv
    };
    let s2 = if q == Part(5) { Some(grown(s1, with_fg(e, Role::Fg(FgStep::Muted)))) } else { s1 };
    s2
}
/// The brand mark: the only control that fills with the accent.
fn brand(m: &mut PartMap<PartRecipe>)
    requires
        old(m).wf(),
    ensures
        final(m).wf(),
        forall|q: Part| #[trigger] pv_at(final(m).spec_entries(), q) == brand_at(pv_at(old(m).spec_entries(), q), q),
{
    part(m, Part::label(), p().set_fg(Role::OnAccent).set_bg(Role::Accent).add(Modifier::bold()))
        .when(StateFlags::hovered(), p().set_bg(Role::AccentHover));
    part(m, Part::meta(), p().set_fg(Role::Fg(FgStep::Muted)));
}

/// What the built-in look of the too-small screen makes of part `q`.
pub open spec fn too_small_at(pv: Option<PartView>, q: Part) -> Option<PartView> {
    let e = empty_patch();
    let s1 = if q == Part(0) {
        Some(grown(pv, with_bg(with_fg(e, Role::Fg(FgStep::Primary)), Role::CurrentSurface)))
    } else {
        pv
    };
    let s2 = if q == Part(16) {
        Some(grown(s1, with_add(with_fg(e, Role::Fg(FgStep::Primary)), 1u16)))
    } else {
        s1
    };
    let s3 = if q == Part(19) { Some(grown(s2, with_fg(e, Role::Fg(FgStep::Secondary)))) } else { s2 };
    let s4 = if q == Part(18) { Some(grown(s3, with_fg(e, Role::Fg(FgStep::Muted)))) } else { s3 };
    let s5 = if q == Part(21) { Some(grown(s4, with_fg(e, Role::Fg(FgStep::Faint)))) } else { s4 };
    s5
}
/// The too-small screen.
fn too_small(m: &mut PartMap<PartRecipe>)
    requires
        old(m).wf(),
    ensures
        final(m).wf(),
        forall|q: Part| #[trigger] pv_at(final(m).spec_entries(), q) == too_small_at(pv_at(old(m).spec_entries(), q), q),
{
    part(m, Part::container(), p().set_fg(Role::Fg(FgStep::Primary)).set_bg(Role::CurrentSurface));
    part(m, Part::title(), p().set_fg(Role::Fg(FgStep::Primary)).add(Modifier::bold()));
    part(m, Part::detail(), p().set_fg(Role::Fg(FgStep::Secondary)));
    part(m, Part::help(), p().set_fg(Role::Fg(FgStep::Muted)));
    part(m, Part::actions(), p().set_fg(Role::Fg(FgStep::Faint)));
}

/// What the built-in look of checkboxes, toggles and radio groups makes of part `q`.
pub open spec fn choice_at(pv: Option<PartView>, q: Part) -> Option<PartView> {
    let e = empty_patch();
    let s1 = row_like_at(pv, q);
    let s2 = if q == Part(3) {
        let v = grown(s1, e);
        let v = ruled(v, StateFlags::of_bits(64u16), with_fg(with_glyph(e, GlyphRole::CheckboxOn), Role::Accent));
        Some(ruled(v, StateFlags::of_bits(32u16), with_fg(with_glyph(e, GlyphRole::Chosen), Role::Accent)))
    } else {
        s1
    };
    let s3 = if q == Part(24) {
        let v = grown(s2, with_glyph(with_fg(e, Role::Fg(FgStep::Faint)), GlyphRole::Close));
        Some(ruled(v, StateFlags::of_bits(4u16), with_fg(e, Role::Fg(FgStep::Primary))))
    } else {
        s2
    };
    s3
}
/// Checkboxes, toggles and radio groups.
fn choice(m: &mut PartMap<PartRecipe>)
    requires
        old(m).wf(),
    ensures
        final(m).wf(),
        forall|q: Part| #[trigger] pv_at(final(m).spec_entries(), q) == choice_at(pv_at(old(m).spec_entries(), q), q),
{
    row_like(m);
    part(m, Part::marker(), p())
        .when(StateFlags::checked(), p().set_glyph(GlyphRole::CheckboxOn).set_fg(Role::Accent))
        .when(StateFlags::active(), p().set_glyph(GlyphRole::Chosen).set_fg(Role::Accent));
    part(m, Part::close(), p().set_fg(Role::Fg(FgStep::Faint)).set_glyph(GlyphRole::Close))
        .when(StateFlags::hovered(), p().set_fg(Role::Fg(FgStep::Primary)));
}

/// What the built-in look of chips makes of part `q`.
pub open spec fn chip_at(pv: Option<PartView>, q: Part) -> Option<PartView> {
    let e = empty_patch();
    let s1 = row_like_at(pv, q);
    let s2 = if q == Part(3) {
        let v = grown(s1, e);
        Some(ruled(v, StateFlags::of_bits(64u16), with_fg(with_glyph(e, GlyphRole::Checked), Role::Accent)))
    } else {
        s1
    };
    let s3 = if q == Part(24) {
        let v = grown(s2, with_glyph(with_fg(e, Role::Fg(FgStep::Faint)), GlyphRole::Close));
        Some(ruled(v, StateFlags::of_bits(4u16), with_fg(e, Role::Fg(FgStep::Primary))))
    } else {
        s2
    };
    s3
}
/// Chips.
fn chip(m: &mut PartMap<PartRecipe>)
    requires
        old(m).wf(),
    ensures
        final(m).wf(),
        forall|q: Part| #[trigger] pv_at(final(m).spec_entries(), q) == chip_at(pv_at(old(m).spec_entries(), q), q),
{
    row_like(m);
    part(m, Part::marker(), p()).when(StateFlags::checked(), p().set_glyph(GlyphRole::Checked).set_fg(Role::Accent));
    part(m, Part::close(), p().set_fg(Role::Fg(FgStep::Faint)).set_glyph(GlyphRole::Close))
        .when(StateFlags::hovered(), p().set_fg(Role::Fg(FgStep::Primary)));
}

/// What the built-in look of grids makes of part `q`.
pub open spec fn grid_at(pv: Option<PartView>, q: Part) -> Option<PartView> {
    let e = empty_patch();
    let s1 = row_like_at(pv, q);
    let s2 = if q == Part(15) { Some(grown(s1, e)) } else { s1 };
    let s3 = if q == Part(14) {
        let v = grown(s2, e);
        let v = ruled(v, StateFlags::of_bits(32u16), with_add(with_bg(e, Role::AccentTint), 1u16));
        let v = ruled(v, StateFlags::of_bits(512u16), with_fg(e, Role::Danger));
        let v = ruled(v, StateFlags::of_bits(8192u16), with_fg(e, Role::Warning));
        Some(ruled(v, StateFlags::of_bits(8u16), with_remove(with_add(with_bg(with_fg(e, Role::Surface(Surface::Canvas)), Role::Fg(FgStep::Primary)), 1u16), 64u16)))
    } else {
        s2
    };
    let s4 = if q == Part(25) { Some(grown(s3, with_fg(e, Role::Fg(FgStep::Muted)))) } else { s3 };
    let s5 = if q == Part(21) { Some(grown(s4, with_fg(e, Role::Fg(FgStep::Secondary)))) } else { s4 };
    s5
}
/// Grids.
fn grid(m: &mut PartMap<PartRecipe>)
    requires
        old(m).wf(),
    ensures
        final(m).wf(),
        forall|q: Part| #[trigger] pv_at(final(m).spec_entries(), q) == grid_at(pv_at(old(m).spec_entries(), q), q),
{
    row_like(m);
    part(m, Part::row(), p());
    part(m, Part::cell(), p())
        .when(StateFlags::active(), p().set_bg(Role::AccentTint).add(Modifier::bold()))
        .when(StateFlags::error(), p().set_fg(Role::Danger))
        .when(StateFlags::dirty(), p().set_fg(Role::Warning))
        .when(
            StateFlags::pressed(),
            p().set_fg(Role::Surface(Surface::Canvas))
                .set_bg(Role::Fg(FgStep::Primary))
                .add(Modifier::bold())
                .remove(Modifier::reversed()),
        );
    part(m, Part::overflow(), p().set_fg(Role::Fg(FgStep::Muted)));
    part(m, Part::actions(), p().set_fg(Role::Fg(FgStep::Secondary)));
}

/// What the built-in look of pickers makes of part `q`.
pub open spec fn picker_at(pv: Option<PartView>, q: Part) -> Option<PartView> {
    let e = empty_patch();
    let s1 = row_like_at(pv, q);
    let s2 = if q == Part(4) {
        let v = grown(s1, e);
        Some(ruled(v, StateFlags::of_bits((32u16 | 1u16)), with_add(with_fg(e, Role::Focus), 8u16)))
    } else {
        s1
    };
    s2
}
/// Pickers: an active, focused label underlines in the focus colour.
fn picker(m: &mut PartMap<PartRecipe>)
    requires
        old(m).wf(),
    ensures
        final(m).wf(),
        forall|q: Part| #[trigger] pv_at(final(m).spec_entries(), q) == picker_at(pv_at(old(m).spec_entries(), q), q),
{
    row_like(m);
    part(m, Part::label(), p()).when(
        StateFlags::active().union(StateFlags::focused()),
        p().set_fg(Role::Focus).add(Modifier::underlined()),
    );
}

/// Buttons: the default look on the base parts, one delta per variant.
fn button(r: &mut Recipe)
    requires
        recipe_wf(*old(r)),
    ensures
        recipe_wf(*final(r)),
        final(r).default_variant == old(r).default_variant,
        forall|q: Part| #[trigger] pv_at(final(r).parts.spec_entries(), q)
            == button_variant_at(pv_at(old(r).parts.spec_entries(), q), Variant(0), q),
        forall|w: Variant, q: Part| #[trigger] pv_at(delta_entries(*final(r), w), q) == button_delta_at(w, pv_at(delta_entries(*old(r), w), q), q),
{
    button_variant(&mut r.parts, Variant::default());
    let ghost r0 = *old(r);
    let ghost parts1 = r.parts.spec_entries();
    let all = Variant::all();
    let mut i: usize = 1;
    while i < all.len()
        invariant
            1 <= i <= all@.len(),
            all@.len() == 8,
            forall|j: int| 0 <= j < 8 ==> (#[trigger] all@[j]).0 == j,
            recipe_wf(*r),
            r.default_variant == r0.default_variant,
            r.parts.spec_entries() == parts1,
            forall|w: Variant, q: Part| #[trigger] pv_at(delta_entries(*r, w), q) == if 1 <= w.0 < i {
                button_variant_at(pv_at(delta_entries(r0, w), q), w, q)
            } else {
                pv_at(delta_entries(r0, w), q)
            },
        decreases all@.len() - i,
    {
        let v = all[i];
        let d = delta(r, v);
        button_variant(d, v);
        i = i + 1;
    }
}

/// What family `f`'s built-in look makes of its base part `q`.
pub open spec fn builtin_parts_at(f: Family, pv: Option<PartView>, q: Part) -> Option<PartView> {
    let k = f.0;
    let e = empty_patch();
    if k == 0 {
        button_variant_at(pv, Variant(0), q)
    } else if k == 21 {
        menu_at(pv, q)
    } else if k == 3 || k == 4 || k == 5 || k == 6 || k == 7 {
        field_like_at(pv, q)
    } else if k == 14 || k == 19 || k == 20 || k == 24 || k == 26 {
        container_like_at(pv, q)
    } else if k == 25 {
        help_at(pv, q)
    } else if k == 13 {
        tabs_at(pv, q)
    } else if k == 16 {
        scrollbar_at(pv, q)
    } else if k == 15 {
        split_at(pv, q)
    } else if k == 17 || k == 18 {
        viewport_at(pv, q)
    } else if k == 27 {
        let s1 = bars_at(pv, q);
        if q == Part(4) { Some(ruled(grown(s1, e), StateFlags::of_bits(4u16), with_bg(e, Role::RaisedSurface))) } else { s1 }
    } else if k == 28 {
        bars_at(pv, q)
    } else if k == 33 {
        keyhint_at(pv, q)
    } else if k == 29 || k == 30 {
        progress_at(pv, q)
    } else if k == 31 {
        empty_state_at(pv, q)
    } else if k == 32 {
        brand_at(pv, q)
    } else if k == 34 {
        too_small_at(pv, q)
    } else if k == 1 {
        choice_at(pv, q)
    } else if k == 2 {
        chip_at(pv, q)
    } else if k == 10 {
        grid_at(pv, q)
    } else if k == 22 {
        picker_at(pv, q)
    } else {
        row_like_at(pv, q)
    }
}

/// What family `f`'s built-in look makes of variant `w`'s delta at part
/// `q`: only buttons and menus declare deltas.
pub open spec fn builtin_delta_at(f: Family, w: Variant, pv: Option<PartView>, q: Part) -> Option<PartView> {
    if f.0 == 0 {
        button_delta_at(w, pv, q)
    } else if f.0 == 21 {
        menu_delta_at(w, pv, q)
    } else {
        pv
    }
}

/// Fill a declared family's recipe with its built-in look.
fn define_builtin(f: Family, r: &mut Recipe)
    requires
        recipe_wf(*old(r)),
    ensures
        recipe_wf(*final(r)),
        final(r).default_variant == old(r).default_variant,
        forall|q: Part| #[trigger] pv_at(final(r).parts.spec_entries(), q) == builtin_parts_at(f, pv_at(old(r).parts.spec_entries(), q), q),
        forall|w: Variant, q: Part| #[trigger] pv_at(delta_entries(*final(r), w), q) == builtin_delta_at(f, w, pv_at(delta_entries(*old(r), w), q), q),
{
    let k = f.0;
    if k == 0 {
        button(r);
    } else if k == 21 {
        menu(r);
    } else if k == 3 || k == 4 || k == 5 || k == 6 || k == 7 {
        field_like(&mut r.parts);
    } else if k == 14 || k == 19 || k == 20 || k == 24 || k == 26 {
        container_like(&mut r.parts);
    } else if k == 25 {
        help(r);
    } else if k == 13 {
        tabs(&mut r.parts);
    } else if k == 16 {
        scrollbar(&mut r.parts);
    } else if k == 15 {
        split(&mut r.parts);
    } else if k == 17 || k == 18 {
        viewport(&mut r.parts);
    } else if k == 27 {
        bars(&mut r.parts);
        part(&mut r.parts, Part::label(), p()).when(StateFlags::hovered(), p().set_bg(Role::RaisedSurface));
    } else if k == 28 {
        bars(&mut r.parts);
    } else if k == 33 {
        keyhint(&mut r.parts);
    } else if k == 29 || k == 30 {
        progress(&mut r.parts);
    } else if k == 31 {
        empty_state(&mut r.parts);
    } else if k == 32 {
        brand(&mut r.parts);
    } else if k == 34 {
        too_small(&mut r.parts);
    } else if k == 1 {
        choice(&mut r.parts);
    } else if k == 2 {
        chip(&mut r.parts);
    } else if k == 10 {
        grid(&mut r.parts);
    } else if k == 22 {
        picker(&mut r.parts);
    } else {
        row_like(&mut r.parts);
    }
}

/// `r` is family `f`'s built-in recipe: the default variant, and the
/// built-in look over no part and no delta.
pub open spec fn builtin_recipe(r: Recipe, f: Family) -> bool {
    &&& r.default_variant == Variant(0)
    &&& forall|q: Part| #[trigger] pv_at(r.parts.spec_entries(), q) == builtin_parts_at(f, None, q)
    &&& forall|w: Variant, q: Part| #[trigger] pv_at(delta_entries(r, w), q) == builtin_delta_at(f, w, None, q)
}

/// The default recipe table every theme starts from: every library family
/// declared, in family order, each with its built-in look; no override and
/// no mono manifest.
pub fn default_recipes() -> (rs: Recipes)
    ensures
        rs.wf(),
        families_wf(rs.spec_families()),
        rs.spec_families().len() == 35,
        forall|k: int| 0 <= k < 35 ==> (#[trigger] rs.spec_families()[k]).0 == Family(k as u16),
        rs.spec_overrides().len() == 0,
        rs.spec_mono().len() == 0,
        recipe_wf(rs.spec_neutral()),
        forall|k: int| 0 <= k < 35 ==> #[trigger] builtin_recipe(rs.spec_families()[k].1, Family(k as u16)),
{
    let mut rs = Recipes::new();
    let all = Family::all();
    let mut i: usize = 0;
    while i < all.len()
        invariant
            i <= all@.len(),
            all@.len() == 35,
            forall|j: int| 0 <= j < 35 ==> (#[trigger] all@[j]).0 == j,
            rs.wf(),
            families_wf(rs.spec_families()),
            rs.spec_families().len() == i,
            forall|k: int| 0 <= k < i ==> (#[trigger] rs.spec_families()[k]).0 == Family(k as u16),
            rs.spec_overrides().len() == 0,
            rs.spec_mono().len() == 0,
            recipe_wf(rs.spec_neutral()),
            forall|k: int| 0 <= k < i ==> #[trigger] builtin_recipe(rs.spec_families()[k].1, Family(k as u16)),
        decreases all@.len() - i,
    {
        let f = all[i];
        let ghost before = rs.spec_families();
        proof {
            assert forall|k: int| 0 <= k < before.len() implies (#[trigger] before[k]).0.0 < f.0 by {
                assert(before[k].0 == Family(k as u16));
            }
            lemma_family_index(before, f, 0);
            lemma_family_slot_end(before, f);
        }
        let r = rs.get_mut(f);
        proof {
            assert forall|q: Part| #[trigger] pv_at(r.parts.spec_entries(), q) is None by {
                lemma_lookup_sorted(r.parts.spec_entries(), q);
            }
            assert forall|w: Variant| #[trigger] delta_entries(*r, w) == Seq::<(Part, PartRecipe)>::empty() by {}
        }
        define_builtin(f, r);
        proof {
            let now = rs.spec_families();
            assert(builtin_recipe(now[i as int].1, f));
            assert forall|k: int| 0 <= k < i implies #[trigger] builtin_recipe(now[k].1, Family(k as u16)) by {
                assert(now[k] == before[k]);
            }
            assert(now.len() == i + 1);
            assert forall|k: int| 0 <= k < i + 1 implies (#[trigger] now[k]).0 == Family(k as u16) by {
                if k < i {
                    assert(now[k] == before[k]);
                }
            }
            assert forall|k: int| 0 <= k < now.len() implies recipe_wf(#[trigger] now[k].1) by {
                if k < i {
                    assert(now[k] == before[k]);
                }
            }
        }
        i = i + 1;
    }
    rs
}

/// A family sorting after every declared one slots in at the end.
proof fn lemma_family_slot_end(fs: Seq<(Family, Recipe)>, f: Family)
    requires
        forall|k: int| 0 <= k < fs.len() ==> (#[trigger] fs[k]).0.0 < f.0,
    ensures
        family_slot(fs, f, 0) == fs.len(),
{
    lemma_family_slot_from(fs, f, 0);
}

proof fn lemma_family_slot_from(fs: Seq<(Family, Recipe)>, f: Family, i: int)
    requires
        0 <= i <= fs.len(),
        forall|k: int| 0 <= k < fs.len() ==> (#[trigger] fs[k]).0.0 < f.0,
    ensures
        family_slot(fs, f, i) == fs.len(),
    decreases fs.len() - i,
{
    if i < fs.len() {
        assert(fs[i].0.0 < f.0);
        lemma_family_slot_from(fs, f, i + 1);
    }
}

} // verus!
