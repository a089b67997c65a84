//! The surface-independent half of style resolution.
//!
//! Precedence, lowest to highest: family base, variant delta, state rules
//! (by specificity), the static mono fallback layer (at `Mono` only),
//! theme-level global overrides, then the scope overlay stack (outermost to
//! innermost). Each level is a patch merged over the levels below it; roles
//! bind to colours only after all of them.

use vstd::prelude::*;

use crate::id::{fnv1a, fnv1a_spec, le_bytes, le_bytes16, u16_le_bytes, u64_le_bytes, Part, FNV_OFFSET};
use crate::response::StateFlags;
use crate::theme::glyph::GlyphRole;
use crate::theme::patch::{
    empty_patch, law_merge_identity, law_merge_is_associative, layered, merged, Modifier, Slot, StateRule, StylePatch,
};
use crate::theme::recipe::{
    apply_rules, authored_mono, base_applied, family_index, lemma_family_index, lemma_variant_index,
    merge_by_specificity, merge_states, overlay_applied, part_in, recipe_wf, rule_matches, variant_index, Family,
    GlobalOverride, MonoRule, Overlay, OverlayRule, PartRecipe, Recipe, Recipes, Variant,
};
use crate::theme::role::{Align, FgStep, Role, Surface};
use crate::theme::tokens::ColorLevel;

verus! {

/// Everything resolution settles before roles bind to colours: the glyph
/// binding (`Set` paints that glyph, `Inherit` leaves the caller's fallback
/// in control, `Clear` suppresses it), the part's size and its alignment.
#[derive(Clone, Copy, PartialEq, Eq, Structural, Debug, Default)]
pub struct PartMetrics {
    /// The glyph binding for the part.
    pub glyph: Slot<GlyphRole>,
    /// The part's size, if the recipe sets one.
    pub size: Option<u16>,
    /// The part's text alignment, if the recipe sets one.
    pub align: Option<Align>,
}

/// The value a slot sets, if it sets one.
pub open spec fn slot_value<T>(s: Slot<T>) -> Option<T> {
    match s {
        Slot::Value(v) => Some(v),
        _ => None,
    }
}

/// The metrics an accumulated patch carries.
pub open spec fn metrics_spec(acc: StylePatch) -> PartMetrics {
    PartMetrics { glyph: acc.glyph, size: slot_value(acc.size), align: slot_value(acc.align) }
}

/// The metrics carried by an accumulated patch: the one place glyph, size
/// and alignment are read, so sizing and painting cannot drift.
pub fn metrics_of(acc: &StylePatch) -> (m: PartMetrics)
    ensures
        m == metrics_spec(*acc),
{
    PartMetrics { glyph: acc.glyph, size: acc.size.get(), align: acc.align.get() }
}

// ---------------------------------------------------------------------------
// Steps 1-3: the recipe.
// ---------------------------------------------------------------------------

/// Every part map the resolver reads is sorted: each declared recipe, the
/// neutral one, and each global override's parts.
pub open spec fn resolvable(rs: Recipes) -> bool {
    &&& forall|i: int| 0 <= i < rs.spec_families().len() ==> recipe_wf(#[trigger] rs.spec_families()[i].1)
    &&& recipe_wf(rs.spec_neutral())
    &&& forall|i: int| 0 <= i < rs.spec_overrides().len() ==> (#[trigger] rs.spec_overrides()[i]).parts.wf()
}

/// The variant a query resolves to: the recipe's default for the default
/// variant, the requested one otherwise.
pub open spec fn chosen_variant(r: Recipe, requested: Variant) -> Variant {
    if requested == Variant(0) { r.default_variant } else { requested }
}

/// The variant delta's recipe for a part, if any.
pub open spec fn variant_part(r: Recipe, v: Variant, p: Part) -> Option<PartRecipe> {
    let k = variant_index(r.variants@, v, 0);
    if k >= 0 { part_in(r.variants@[k].1, p) } else { None }
}

/// A part recipe's state rules, or none.
pub open spec fn states_of(x: Option<PartRecipe>) -> Seq<StateRule> {
    match x {
        Some(r) => r.states@,
        None => Seq::empty(),
    }
}

/// A part recipe's base over `acc`, or `acc`.
pub open spec fn base_of(x: Option<PartRecipe>, acc: StylePatch) -> StylePatch {
    match x {
        Some(r) => base_applied(r, acc),
        None => acc,
    }
}

/// Steps 1-3 over `acc`: the family base, the variant delta's base, then
/// the family's and the variant's state rules as one level ascending by
/// specificity.
pub open spec fn recipe_applied(r: Recipe, requested: Variant, p: Part, live: StateFlags, acc: StylePatch) -> StylePatch {
    let v = chosen_variant(r, requested);
    let family = part_in(r.parts, p);
    let delta = variant_part(r, v, p);
    apply_rules(base_of(delta, base_of(family, acc)), merge_by_specificity(states_of(family), states_of(delta)), live)
}

/// Apply a recipe's levels for `(requested, part)` over `acc`; also give
/// the variant the query resolved to.
pub fn apply_recipe(recipe: &Recipe, requested: Variant, part: Part, live: StateFlags, acc: StylePatch) -> (r: (
    StylePatch,
    Variant,
))
    requires
        recipe_wf(*recipe),
    ensures
        r.0 == recipe_applied(*recipe, requested, part, live, acc),
        r.1 == chosen_variant(*recipe, requested),
{
    let variant = if requested == Variant::default() { recipe.default_variant } else { requested };
    let family = recipe.parts.get(part);
    let delta = match recipe.variant(variant) {
        Some(m) => {
            proof {
                lemma_variant_index(recipe.variants@, variant, 0);
            }
            m.get(part)
        },
        None => None,
    };
    let mut acc = acc;
    let none: Vec<StateRule> = Vec::new();
    let fs: &[StateRule] = match family {
        Some(x) => {
            acc = x.apply_base(acc);
            x.states.as_slice()
        },
        None => none.as_slice(),
    };
    let vs: &[StateRule] = match delta {
        Some(x) => {
            acc = x.apply_base(acc);
            x.states.as_slice()
        },
        None => none.as_slice(),
    };
    proof {
        assert(fs@ == states_of(part_in(recipe.parts, part)));
        assert(vs@ == states_of(variant_part(*recipe, variant, part)));
    }
    (merge_states(acc, fs, vs, live), variant)
}

// ---------------------------------------------------------------------------
// Steps 4-5: global overrides and the overlay stack.
// ---------------------------------------------------------------------------

/// Whether a global override restyles `(f, v)`: its family, and its
/// variant or every variant.
pub open spec fn override_applies(o: GlobalOverride, f: Family, v: Variant) -> bool {
    o.family == f && match o.variant {
        None => true,
        Some(ov) => ov == v,
    }
}

/// Each global override for `(f, v)` that restyles `p` over `acc`, in push
/// order: its base, then its state rules.
pub open spec fn overrides_applied(acc: StylePatch, os: Seq<GlobalOverride>, f: Family, v: Variant, p: Part, live: StateFlags) -> StylePatch
    decreases os.len(),
{
    if os.len() == 0 {
        acc
    } else {
        let next = if override_applies(os[0], f, v) {
            match part_in(os[0].parts, p) {
                Some(x) => apply_rules(base_applied(x, acc), x.states@, live),
                None => acc,
            }
        } else {
            acc
        };
        overrides_applied(next, os.skip(1), f, v, p, live)
    }
}

/// Each overlay over `acc`, outermost first.
pub open spec fn overlays_applied(acc: StylePatch, ovs: Seq<Overlay>, f: Family, v: Variant, p: Part, live: StateFlags) -> StylePatch
    decreases ovs.len(),
{
    if ovs.len() == 0 {
        acc
    } else {
        overlays_applied(overlay_applied(acc, ovs[0].spec_rules(), f, v, p, live), ovs.skip(1), f, v, p, live)
    }
}

/// Apply the explicit levels: global overrides, family-wide and
/// variant-specific in push order, then the overlay stack.
pub fn apply_explicit(
    recipes: &Recipes,
    f: Family,
    variant: Variant,
    p: Part,
    live: StateFlags,
    overlays: &[Overlay],
    acc: StylePatch,
) -> (r: StylePatch)
    requires
        resolvable(*recipes),
    ensures
        r == overlays_applied(overrides_applied(acc, recipes.spec_overrides(), f, variant, p, live), overlays@, f, variant, p, live),
{
    let os = recipes.overrides();
    let ghost all = recipes.spec_overrides();
    let ghost acc0 = acc;
    let mut acc = acc;
    let mut i: usize = 0;
    proof {
        assert(all.skip(0) =~= all);
    }
    while i < os.len()
        invariant
            os@ == all,
            i <= all.len(),
            forall|k: int| 0 <= k < all.len() ==> (#[trigger] all[k]).parts.wf(),
            overrides_applied(acc0, all, f, variant, p, live) == overrides_applied(acc, all.skip(i as int), f, variant, p, live),
        decreases all.len() - i,
    {
        let o = &os[i];
        proof {
            assert(all.skip(i as int)[0] == all[i as int]);
            assert(all.skip(i as int).skip(1) =~= all.skip(i as int + 1));
        }
        let applies = match o.variant {
            None => true,
            Some(ov) => ov == variant,
        };
        if o.family == f && applies {
            match o.parts.get(p) {
                Some(x) => {
                    acc = x.apply(acc, live);
                },
                None => {},
            }
        }
        i = i + 1;
    }
    proof {
        assert(all.skip(i as int).len() == 0);
    }
    let ghost mid = acc;
    let mut j: usize = 0;
    proof {
        assert(overlays@.skip(0) =~= overlays@);
    }
    while j < overlays.len()
        invariant
            j <= overlays@.len(),
            overlays_applied(mid, overlays@, f, variant, p, live) == overlays_applied(acc, overlays@.skip(j as int), f, variant, p, live),
        decreases overlays@.len() - j,
    {
        proof {
            assert(overlays@.skip(j as int)[0] == overlays@[j as int]);
            assert(overlays@.skip(j as int).skip(1) =~= overlays@.skip(j as int + 1));
        }
        acc = overlays[j].apply(acc, f, variant, p, live);
        j = j + 1;
    }
    proof {
        assert(overlays@.skip(j as int).len() == 0);
    }
    acc
}

// ---------------------------------------------------------------------------
// The static mono fallback layer.
// ---------------------------------------------------------------------------

/// A mono rule as plain values: part, the bits of the arming state, patch.
pub type MonoShape = (Part, u16, StylePatch);

/// A mono rule's plain values.
pub open spec fn mono_shape(r: MonoRule) -> MonoShape {
    (r.0, r.1.spec_bits(), r.2)
}

/// `p` with its foreground set.
pub open spec fn with_fg(p: StylePatch, r: Role) -> StylePatch {
    StylePatch { fg: Slot::Value(r), ..p }
}

/// `p` with its background set.
pub open spec fn with_bg(p: StylePatch, r: Role) -> StylePatch {
    StylePatch { bg: Slot::Value(r), ..p }
}

/// `p` with its glyph set.
pub open spec fn with_glyph(p: StylePatch, g: GlyphRole) -> StylePatch {
    StylePatch { glyph: Slot::Value(g), ..p }
}

/// `p` with its glyph cleared.
pub open spec fn without_glyph(p: StylePatch) -> StylePatch {
    StylePatch { glyph: Slot::Clear, ..p }
}

/// `p` adding the modifiers `bits` (and no longer removing them).
pub open spec fn with_add(p: StylePatch, bits: u16) -> StylePatch {
    StylePatch {
        add: Modifier::of(p.add.spec_bits() | bits),
        remove: Modifier::of(p.remove.spec_bits() & !bits),
        ..p
    }
}

/// `p` removing the modifiers `bits` (and no longer adding them).
pub open spec fn with_remove(p: StylePatch, bits: u16) -> StylePatch {
    StylePatch {
        remove: Modifier::of(p.remove.spec_bits() | bits),
        add: Modifier::of(p.add.spec_bits() & !bits),
        ..p
    }
}

/// Primary text on the canvas colour: the inverted fill of a mono press.
pub open spec fn inverted(p: StylePatch) -> StylePatch {
    with_fg(with_bg(p, Role::Fg(FgStep::Primary)), Role::Surface(Surface::Canvas))
}

/// Primary text, no inherited modifier, dimmed: a disabled control.
pub open spec fn dimmed(p: StylePatch) -> StylePatch {
    with_add(with_remove(with_fg(p, Role::Fg(FgStep::Primary)), 511), 2)
}

/// The generic mono manifest, applied to every family.
pub closed spec fn generic_mono() -> Seq<MonoShape> {
    let e = empty_patch();
    seq![
        (Part(2), 1u16, with_glyph(e, GlyphRole::FocusBar)),
        (Part(4), 1u16, with_add(e, 1)),
        (Part(3), 16u16, with_glyph(e, GlyphRole::Chosen)),
        (Part(3), 64u16, with_glyph(e, GlyphRole::Checked)),
        (Part(0), 8u16, with_add(with_fg(with_bg(e, Role::Fg(FgStep::Primary)), Role::Surface(Surface::Canvas)), 1)),
        (Part(4), 8u16, with_add(with_glyph(e, GlyphRole::PressLeft), 1)),
        (Part(2), 128u16, without_glyph(e)),
        (Part(3), 128u16, without_glyph(with_remove(with_fg(e, Role::Fg(FgStep::Primary)), 511))),
        (Part(4), 128u16, dimmed(e)),
        (Part(11), 128u16, dimmed(e)),
        (Part(12), 128u16, dimmed(e)),
        (Part(3), 512u16, with_glyph(e, GlyphRole::Error)),
        (Part(11), 512u16, with_add(e, 8)),
        (Part(3), 1024u16, with_glyph(e, GlyphRole::Dirty)),
        (Part(12), 4096u16, with_add(e, 8)),
    ]
}

/// The generic rules keyed on a second flag, and the scrollbar half of a
/// press.
pub closed spec fn extra_mono() -> Seq<MonoShape> {
    let e = empty_patch();
    seq![
        (Part(3), 8192u16, with_glyph(e, GlyphRole::Dirty)),
        (Part(13), 32u16, with_glyph(e, GlyphRole::RuleActive)),
        (Part(4), 32u16, with_add(e, 1)),
        (Part(10), 32768u16, with_add(e, 8)),
        (Part(7), 8u16, with_add(e, 1)),
    ]
}

/// The built-in targeted manifest of a family.
pub closed spec fn targeted_mono(f: Family) -> Seq<MonoShape> {
    let e = empty_patch();
    if f == Family(17) {
        seq![(Part(12), 16u16, with_add(inverted(e), 8))]
    } else if f == Family(10) {
        seq![(Part(14), 512u16, with_add(e, 8)), (Part(15), 8u16, with_add(inverted(e), 1))]
    } else if f == Family(21) {
        seq![(Part(15), 8u16, with_add(inverted(e), 1)), (Part(16), 8u16, with_add(with_glyph(e, GlyphRole::PressLeft), 1))]
    } else if f == Family(25) {
        seq![(Part(1), 1u16, with_add(e, 1)), (Part(16), 1u16, with_add(e, 8))]
    } else if f == Family(22) {
        seq![
            (Part(2), 512u16, with_glyph(e, GlyphRole::Error)),
            (Part(2), 2048u16, with_glyph(e, GlyphRole::MoreRows)),
            (Part(4), 8u16, with_add(inverted(e), 1u16 | 8u16)),
        ]
    } else if f == Family(7) {
        seq![
            (Part(11), 8u16, with_add(inverted(e), 1)),
            (Part(2), 8u16, with_add(with_glyph(e, GlyphRole::PressLeft), 1)),
            (Part(3), 8u16, with_add(with_glyph(e, GlyphRole::PressRight), 1)),
        ]
    } else {
        Seq::empty()
    }
}

/// The whole manifest a family applies at `Mono`: the generic rules, then
/// the theme's authored set for the family when it declares one, else the
/// built-in targeted set.
pub open spec fn mono_manifest(ms: Seq<(Family, Vec<MonoRule>)>, f: Family) -> Seq<MonoShape> {
    generic_mono() + extra_mono() + match authored_mono(ms, f) {
        Some(rs) => rs.map_values(|r: MonoRule| mono_shape(r)),
        None => targeted_mono(f),
    }
}

/// Whether a mono rule reaches `(f, part)` under `live`. The scrollbar
/// fills its container across its whole area, so the generic pressed
/// container rule does not reach it.
pub open spec fn mono_reaches(r: MonoShape, f: Family, part: Part, live: StateFlags) -> bool {
    &&& (f != Family(16) || r.0 != Part(0) || r.1 != 8)
    &&& r.0 == part
    &&& live.spec_bits() & r.1 == r.1
}

/// Each rule of `rules` that reaches `(f, part)` merged over `acc`, in order.
pub open spec fn mono_applied(acc: StylePatch, rules: Seq<MonoShape>, f: Family, part: Part, live: StateFlags) -> StylePatch
    decreases rules.len(),
{
    if rules.len() == 0 {
        acc
    } else {
        let next = if mono_reaches(rules[0], f, part, live) { merged(acc, rules[0].2) } else { acc };
        mono_applied(next, rules.skip(1), f, part, live)
    }
}

proof fn lemma_mono_applied_append(acc: StylePatch, a: Seq<MonoShape>, b: Seq<MonoShape>, f: Family, part: Part, live: StateFlags)
    ensures
        mono_applied(acc, a + b, f, part, live) == mono_applied(mono_applied(acc, a, f, part, live), b, f, part, live),
    decreases a.len(),
{
    if a.len() > 0 {
        let next = if mono_reaches(a[0], f, part, live) { merged(acc, a[0].2) } else { acc };
        assert((a + b).skip(1) =~= a.skip(1) + b);
        assert((a + b)[0] == a[0]);
        lemma_mono_applied_append(next, a.skip(1), b, f, part, live);
    } else {
        assert(a + b =~= b);
    }
}

/// Whether an exec rule list holds exactly the shapes `t`.
pub open spec fn holds_shapes(v: Seq<MonoRule>, t: Seq<MonoShape>) -> bool {
    v.map_values(|r: MonoRule| mono_shape(r)) == t
}

fn pressed_inverted() -> (p: StylePatch)
    ensures
        p == inverted(empty_patch()),
{
    StylePatch::new().set_bg(Role::Fg(FgStep::Primary)).set_fg(Role::Surface(Surface::Canvas))
}

fn disabled_dim() -> (p: StylePatch)
    ensures
        p == dimmed(empty_patch()),
{
    StylePatch::new().set_fg(Role::Fg(FgStep::Primary)).remove(Modifier::all()).add(Modifier::dim())
}

/// The number of generic entries in the static mono manifest, applied to
/// every family: the generic rules plus the second-flag ones. A family's own
/// total adds its targeted set; the scrollbar answers one fewer.
pub const MONO_RULES_PER_FAMILY: usize = 20;

/// The generic mono manifest.
pub fn mono_rules() -> (v: Vec<MonoRule>)
    ensures
        holds_shapes(v@, generic_mono()),
{
    let p = StylePatch::new();
    let v = vec![
        (Part::gutter(), StateFlags::focused(), p.set_glyph(GlyphRole::FocusBar)),
        (Part::label(), StateFlags::focused(), p.add(Modifier::bold())),
        (Part::marker(), StateFlags::selected(), p.set_glyph(GlyphRole::Chosen)),
        (Part::marker(), StateFlags::checked(), p.set_glyph(GlyphRole::Checked)),
        (
            Part::container(),
            StateFlags::pressed(),
            p.set_bg(Role::Fg(FgStep::Primary)).set_fg(Role::Surface(Surface::Canvas)).add(Modifier::bold()),
        ),
        (Part::label(), StateFlags::pressed(), p.set_glyph(GlyphRole::PressLeft).add(Modifier::bold())),
        (Part::gutter(), StateFlags::disabled(), p.clear_glyph()),
        (
            Part::marker(),
            StateFlags::disabled(),
            p.set_fg(Role::Fg(FgStep::Primary)).remove(Modifier::all()).clear_glyph(),
        ),
        (Part::label(), StateFlags::disabled(), disabled_dim()),
        // Declaration order matters: these removals precede the error
        // underline below, which would otherwise be erased.
        (Part::field(), StateFlags::disabled(), disabled_dim()),
        (Part::text(), StateFlags::disabled(), disabled_dim()),
        (Part::marker(), StateFlags::error(), p.set_glyph(GlyphRole::Error)),
        (Part::field(), StateFlags::error(), p.add(Modifier::underlined())),
        (Part::marker(), StateFlags::warning(), p.set_glyph(GlyphRole::Dirty)),
        (Part::text(), StateFlags::editing(), p.add(Modifier::underlined())),
    ];
    proof {
        Modifier::lemma_from_bits(0);
        assert(v@.map_values(|r: MonoRule| mono_shape(r)) =~= generic_mono());
    }
    v
}

/// The generic rules keyed on a second flag.
pub fn mono_rules_extra() -> (v: Vec<MonoRule>)
    ensures
        holds_shapes(v@, extra_mono()),
{
    let p = StylePatch::new();
    let v = vec![
        (Part::marker(), StateFlags::dirty(), p.set_glyph(GlyphRole::Dirty)),
        (Part::rule(), StateFlags::active(), p.set_glyph(GlyphRole::RuleActive)),
        (Part::label(), StateFlags::active(), p.add(Modifier::bold())),
        (Part::icon(), StateFlags::loading(), p.add(Modifier::underlined())),
        (Part::thumb(), StateFlags::pressed(), p.add(Modifier::bold())),
    ];
    proof {
        Modifier::lemma_from_bits(0);
        assert(v@.map_values(|r: MonoRule| mono_shape(r)) =~= extra_mono());
    }
    v
}

/// The built-in targeted manifest of a family.
pub fn targeted_mono_rules(f: Family) -> (v: Vec<MonoRule>)
    ensures
        holds_shapes(v@, targeted_mono(f)),
{
    let p = StylePatch::new();
    let v = if f == Family::viewport() {
        vec![(Part::text(), StateFlags::selected(), pressed_inverted().add(Modifier::underlined()))]
    } else if f == Family::grid() {
        vec![
            (Part::cell(), StateFlags::error(), p.add(Modifier::underlined())),
            (Part::row(), StateFlags::pressed(), pressed_inverted().add(Modifier::bold())),
        ]
    } else if f == Family::menu() {
        vec![
            (Part::row(), StateFlags::pressed(), pressed_inverted().add(Modifier::bold())),
            (Part::title(), StateFlags::pressed(), p.set_glyph(GlyphRole::PressLeft).add(Modifier::bold())),
        ]
    } else if f == Family::help() {
        vec![
            (Part::border(), StateFlags::focused(), p.add(Modifier::bold())),
            (Part::title(), StateFlags::focused(), p.add(Modifier::underlined())),
        ]
    } else if f == Family::picker() {
        vec![
            (Part::gutter(), StateFlags::error(), p.set_glyph(GlyphRole::Error)),
            (Part::gutter(), StateFlags::busy(), p.set_glyph(GlyphRole::MoreRows)),
            (Part::label(), StateFlags::pressed(), pressed_inverted().add(Modifier::bold().union(Modifier::underlined()))),
        ]
    } else if f == Family::select() {
        vec![
            (Part::field(), StateFlags::pressed(), pressed_inverted().add(Modifier::bold())),
            (Part::gutter(), StateFlags::pressed(), p.set_glyph(GlyphRole::PressLeft).add(Modifier::bold())),
            (Part::marker(), StateFlags::pressed(), p.set_glyph(GlyphRole::PressRight).add(Modifier::bold())),
        ]
    } else {
        Vec::new()
    };
    proof {
        Modifier::lemma_from_bits(0);
        assert(v@.map_values(|r: MonoRule| mono_shape(r)) =~= targeted_mono(f));
    }
    v
}

/// Merge each rule of `rules` that reaches `(f, part)` over `acc`.
fn apply_mono_rules(acc: StylePatch, rules: &[MonoRule], f: Family, part: Part, live: StateFlags) -> (r: StylePatch)
    ensures
        r == mono_applied(acc, rules@.map_values(|x: MonoRule| mono_shape(x)), f, part, live),
{
    let ghost shapes = rules@.map_values(|x: MonoRule| mono_shape(x));
    let mut out = acc;
    let mut i: usize = 0;
    proof {
        assert(shapes.skip(0) =~= shapes);
    }
    while i < rules.len()
        invariant
            i <= rules@.len(),
            shapes == rules@.map_values(|x: MonoRule| mono_shape(x)),
            mono_applied(acc, shapes, f, part, live) == mono_applied(out, shapes.skip(i as int), f, part, live),
        decreases rules@.len() - i,
    {
        let (rp, when, patch) = rules[i];
        proof {
            assert(shapes.skip(i as int)[0] == mono_shape(rules@[i as int]));
            assert(shapes.skip(i as int).skip(1) =~= shapes.skip(i as int + 1));
        }
        let applies = f != Family::scrollbar() || rp != Part::container() || when.bits() != 8;
        if applies && rp == part && live.contains(when) {
            out = out.merge(patch);
        }
        i = i + 1;
    }
    proof {
        assert(shapes.skip(i as int).len() == 0);
    }
    out
}

/// The static mono fallback layer: the generic manifest, then the
/// family's targeted one (the theme's authored set when it declares one),
/// each rule that reaches `(family, part)` merged over `acc` in order. It
/// never writes into recipe storage.
pub fn apply_mono_fallback(acc: StylePatch, recipes: &Recipes, family: Family, part: Part, live: StateFlags) -> (r: StylePatch)
    ensures
        r == mono_applied(acc, mono_manifest(recipes.spec_mono(), family), family, part, live),
{
    let generic = mono_rules();
    let extra = mono_rules_extra();
    let builtin = targeted_mono_rules(family);
    let a1 = apply_mono_rules(acc, generic.as_slice(), family, part, live);
    let a2 = apply_mono_rules(a1, extra.as_slice(), family, part, live);
    let targeted: &[MonoRule] = match recipes.mono_rules(family) {
        Some(rs) => rs,
        None => builtin.as_slice(),
    };
    let a3 = apply_mono_rules(a2, targeted, family, part, live);
    proof {
        let t = match authored_mono(recipes.spec_mono(), family) {
            Some(rs) => rs.map_values(|r: MonoRule| mono_shape(r)),
            None => targeted_mono(family),
        };
        assert(targeted@.map_values(|x: MonoRule| mono_shape(x)) == t);
        lemma_mono_applied_append(acc, generic_mono(), extra_mono(), family, part, live);
        lemma_mono_applied_append(acc, generic_mono() + extra_mono(), t, family, part, live);
    }
    a3
}

// ---------------------------------------------------------------------------
// Steps 1-5 together.
// ---------------------------------------------------------------------------

/// The recipe a family resolves through: its own, or the neutral one.
pub open spec fn recipe_for(rs: Recipes, f: Family) -> Recipe {
    let k = family_index(rs.spec_families(), f, 0);
    if k >= 0 { rs.spec_families()[k].1 } else { rs.spec_neutral() }
}

/// The recipe levels and, at `Mono`, the static fallback layer over them:
/// everything below the explicit levels.
pub open spec fn recipe_levels(rs: Recipes, level: ColorLevel, f: Family, v: Variant, p: Part, live: StateFlags) -> StylePatch {
    let base = recipe_applied(recipe_for(rs, f), v, p, live, empty_patch());
    if level is Mono { mono_applied(base, mono_manifest(rs.spec_mono(), f), f, p, live) } else { base }
}

/// The explicit levels over `acc`: global overrides, then the overlay
/// stack, for the variant the query resolves to.
pub open spec fn explicit_levels(rs: Recipes, f: Family, v: Variant, p: Part, live: StateFlags, ovs: Seq<Overlay>, acc: StylePatch) -> StylePatch {
    let var = chosen_variant(recipe_for(rs, f), v);
    overlays_applied(overrides_applied(acc, rs.spec_overrides(), f, var, p, live), ovs, f, var, p, live)
}

/// Steps 1-5: the role-level patch a part accumulates.
pub open spec fn accumulated(rs: Recipes, level: ColorLevel, f: Family, v: Variant, p: Part, live: StateFlags, ovs: Seq<Overlay>) -> StylePatch {
    explicit_levels(rs, f, v, p, live, ovs, recipe_levels(rs, level, f, v, p, live))
}

/// Accumulate the role-level patch for `(f, v, p)` under `live` with the
/// overlay stack `overlays` (outermost first), for a theme resolved at
/// `level`.
pub fn accumulate(
    recipes: &Recipes,
    level: ColorLevel,
    f: Family,
    v: Variant,
    p: Part,
    live: StateFlags,
    overlays: &[Overlay],
) -> (r: StylePatch)
    requires
        resolvable(*recipes),
    ensures
        r == accumulated(*recipes, level, f, v, p, live, overlays@),
{
    let recipe = recipes.get_or_neutral(f);
    proof {
        lemma_family_index(recipes.spec_families(), f, 0);
    }
    let (mut acc, variant) = apply_recipe(recipe, v, p, live, StylePatch::new());
    if matches!(level, ColorLevel::Mono) {
        acc = apply_mono_fallback(acc, recipes, f, p, live);
    }
    apply_explicit(recipes, f, variant, p, live, overlays, acc)
}

/// Sizes, glyphs and alignment for a part, with no colour binding and no
/// overlay stack. It runs the same accumulation as painting and reads the
/// same slots, so the two cannot disagree about a size.
pub fn metrics(recipes: &Recipes, level: ColorLevel, f: Family, v: Variant, p: Part, s: StateFlags) -> (m: PartMetrics)
    requires
        resolvable(*recipes),
    ensures
        m == metrics_spec(accumulated(*recipes, level, f, v, p, s, Seq::empty())),
{
    let none: Vec<Overlay> = Vec::new();
    let acc = accumulate(recipes, level, f, v, p, s, none.as_slice());
    metrics_of(&acc)
}

// ---------------------------------------------------------------------------
// Laws.
// ---------------------------------------------------------------------------

proof fn lemma_layered_assoc<T>(x: Slot<T>, y: Slot<T>, z: Slot<T>)
    ensures
        layered(x, layered(y, z)) == layered(layered(x, y), z),
        layered(x, Slot::Inherit) == x,
{
}

/// A base level over `merged(a, b)` is `a` under that level over `b`.
proof fn lemma_base_shift(r: PartRecipe, a: StylePatch, b: StylePatch)
    ensures
        base_applied(r, merged(a, b)) == merged(a, base_applied(r, b)),
{
    law_merge_is_associative(a, b, r.base);
    let m = merged(b, r.base);
    lemma_layered_assoc(r.glyph, m.glyph, a.glyph);
    lemma_layered_assoc(r.size, m.size, a.size);
}

proof fn lemma_rules_shift(rs: Seq<StateRule>, a: StylePatch, b: StylePatch, live: StateFlags)
    ensures
        apply_rules(merged(a, b), rs, live) == merged(a, apply_rules(b, rs, live)),
    decreases rs.len(),
{
    if rs.len() > 0 {
        if rule_matches(rs[0], live) {
            law_merge_is_associative(a, b, rs[0].patch);
            lemma_rules_shift(rs.skip(1), a, merged(b, rs[0].patch), live);
        } else {
            lemma_rules_shift(rs.skip(1), a, b, live);
        }
    }
}

proof fn lemma_overlay_shift(rules: Seq<OverlayRule>, a: StylePatch, b: StylePatch, f: Family, v: Variant, p: Part, live: StateFlags)
    ensures
        overlay_applied(merged(a, b), rules, f, v, p, live) == merged(a, overlay_applied(b, rules, f, v, p, live)),
    decreases rules.len(),
{
    if rules.len() > 0 {
        let (rf, rv, rp, when, patch) = rules[0];
        if rf == f && rv == v && rp == p && live.spec_bits() & when.spec_bits() == when.spec_bits() {
            law_merge_is_associative(a, b, patch);
            lemma_overlay_shift(rules.skip(1), a, merged(b, patch), f, v, p, live);
        } else {
            lemma_overlay_shift(rules.skip(1), a, b, f, v, p, live);
        }
    }
}

proof fn lemma_overrides_shift(os: Seq<GlobalOverride>, a: StylePatch, b: StylePatch, f: Family, v: Variant, p: Part, live: StateFlags)
    ensures
        overrides_applied(merged(a, b), os, f, v, p, live) == merged(a, overrides_applied(b, os, f, v, p, live)),
    decreases os.len(),
{
    if os.len() > 0 {
        if override_applies(os[0], f, v) {
            match part_in(os[0].parts, p) {
                Some(x) => {
                    lemma_base_shift(x, a, b);
                    lemma_rules_shift(x.states@, a, base_applied(x, b), live);
                    lemma_overrides_shift(os.skip(1), a, apply_rules(base_applied(x, b), x.states@, live), f, v, p, live);
                },
                None => {
                    lemma_overrides_shift(os.skip(1), a, b, f, v, p, live);
                },
            }
        } else {
            lemma_overrides_shift(os.skip(1), a, b, f, v, p, live);
        }
    }
}

proof fn lemma_overlays_shift(ovs: Seq<Overlay>, a: StylePatch, b: StylePatch, f: Family, v: Variant, p: Part, live: StateFlags)
    ensures
        overlays_applied(merged(a, b), ovs, f, v, p, live) == merged(a, overlays_applied(b, ovs, f, v, p, live)),
    decreases ovs.len(),
{
    if ovs.len() > 0 {
        lemma_overlay_shift(ovs[0].spec_rules(), a, b, f, v, p, live);
        lemma_overlays_shift(ovs.skip(1), a, overlay_applied(b, ovs[0].spec_rules(), f, v, p, live), f, v, p, live);
    }
}

proof fn lemma_overlays_push(ovs: Seq<Overlay>, o: Overlay, acc: StylePatch, f: Family, v: Variant, p: Part, live: StateFlags)
    ensures
        overlays_applied(acc, ovs.push(o), f, v, p, live) == overlay_applied(overlays_applied(acc, ovs, f, v, p, live), o.spec_rules(), f, v, p, live),
    decreases ovs.len(),
{
    if ovs.len() > 0 {
        assert(ovs.push(o).skip(1) =~= ovs.skip(1).push(o));
        assert(ovs.push(o)[0] == ovs[0]);
        lemma_overlays_push(ovs.skip(1), o, overlay_applied(acc, ovs[0].spec_rules(), f, v, p, live), f, v, p, live);
    } else {
        let one = ovs.push(o);
        assert(one.skip(1) =~= Seq::<Overlay>::empty());
        assert(one[0] == o);
        let x = overlay_applied(acc, o.spec_rules(), f, v, p, live);
        assert(overlays_applied(x, one.skip(1), f, v, p, live) == x);
    }
}

/// The explicit levels sit on top: a part's accumulated patch is the
/// recipe levels (and the mono fallback) with one patch, that of the global
/// overrides and the overlay stack alone, merged over them. Where an
/// explicit level speaks, no recipe level and no mono fallback rule can
/// override it.
pub proof fn law_explicit_levels_sit_on_top(
    rs: Recipes,
    level: ColorLevel,
    f: Family,
    v: Variant,
    p: Part,
    live: StateFlags,
    ovs: Seq<Overlay>,
)
    ensures
        accumulated(rs, level, f, v, p, live, ovs) == merged(
            recipe_levels(rs, level, f, v, p, live),
            explicit_levels(rs, f, v, p, live, ovs, empty_patch()),
        ),
{
    let below = recipe_levels(rs, level, f, v, p, live);
    let var = chosen_variant(recipe_for(rs, f), v);
    law_merge_identity(below);
    lemma_overrides_shift(rs.spec_overrides(), below, empty_patch(), f, var, p, live);
    lemma_overlays_shift(ovs, below, overrides_applied(empty_patch(), rs.spec_overrides(), f, var, p, live), f, var, p, live);
}

/// The overlay stack applies outermost to innermost: pushing a scope's
/// overlay applies it last, over everything the outer scopes produced.
pub proof fn law_inner_overlay_applies_last(
    rs: Recipes,
    level: ColorLevel,
    f: Family,
    v: Variant,
    p: Part,
    live: StateFlags,
    ovs: Seq<Overlay>,
    o: Overlay,
)
    ensures
        accumulated(rs, level, f, v, p, live, ovs.push(o)) == overlay_applied(
            accumulated(rs, level, f, v, p, live, ovs),
            o.spec_rules(),
            f,
            chosen_variant(recipe_for(rs, f), v),
            p,
            live,
        ),
{
    let var = chosen_variant(recipe_for(rs, f), v);
    let mid = overrides_applied(recipe_levels(rs, level, f, v, p, live), rs.spec_overrides(), f, var, p, live);
    lemma_overlays_push(ovs, o, mid, f, var, p, live);
}

/// The mono fallback layer exists only at `Mono`: at any other level a
/// theme's mono manifests change nothing.
pub proof fn law_mono_layer_only_at_mono(
    a: Recipes,
    b: Recipes,
    level: ColorLevel,
    f: Family,
    v: Variant,
    p: Part,
    live: StateFlags,
    ovs: Seq<Overlay>,
)
    requires
        !(level is Mono),
        a.spec_families() == b.spec_families(),
        a.spec_overrides() == b.spec_overrides(),
        a.spec_neutral() == b.spec_neutral(),
    ensures
        accumulated(a, level, f, v, p, live, ovs) == accumulated(b, level, f, v, p, live, ovs),
{
}

// ---------------------------------------------------------------------------
// The memo of steps 1-5.
// ---------------------------------------------------------------------------

/// Cache entries: 256, in sets of two ways.
pub const CACHE_SLOTS: usize = 256;

/// Ways per set: a miss needs three hot keys in one set, not two.
pub const CACHE_WAYS: usize = 2;

/// A query the memo answers: family, variant, part, live flags, the
/// overlay stack and the hash the caller gives that stack.
pub type StyleQuery = (Family, Variant, Part, StateFlags, Seq<Overlay>, u64);

/// The 64-bit mix of a query's family, variant, part, flags and stack hash.
pub open spec fn mix_key(f: Family, v: Variant, p: Part, live: u16, stack_hash: u64) -> u64 {
    let h = fnv1a_spec(FNV_OFFSET, le_bytes16(f.0));
    let h = fnv1a_spec(h, le_bytes16(v.0));
    let h = fnv1a_spec(h, le_bytes16(p.0));
    let h = fnv1a_spec(h, le_bytes16(live));
    fnv1a_spec(h, le_bytes(stack_hash))
}

/// A query's slot key: its mix with the low bit set, so `0` stays free as
/// the empty entry.
pub open spec fn query_key(q: StyleQuery) -> u64 {
    mix_key(q.0, q.1, q.2, q.3.spec_bits(), q.5) | 1
}

/// The first slot of the set a key lives in.
pub open spec fn set_base(key: u64) -> int {
    ((key >> 1) % 128) as int * 2
}

/// What a query accumulates to.
pub open spec fn query_result(rs: Recipes, level: ColorLevel, q: StyleQuery) -> StylePatch {
    accumulated(rs, level, q.0, q.1, q.2, q.3, q.4)
}

/// Whether `r` is what some query with slot key `key` accumulates to.
pub open spec fn answers_key(rs: Recipes, level: ColorLevel, key: u64, r: StylePatch) -> bool {
    exists|q: StyleQuery| #[trigger] query_key(q) == key && query_result(rs, level, q) == r
}

/// Whether slot `i` holds `key` under the current generation.
pub open spec fn live_hit(slots: Seq<(u64, u32, StylePatch)>, generation: u32, key: u64, i: int) -> bool {
    slots[i].0 == key && slots[i].1 == generation
}

/// An allocation-free memo of steps 1-5, keyed by a 64-bit mix of the
/// query and cleared by a generation stamp rather than by zeroing.
/// Two-way set-associative with insert-at-most-recent replacement.
pub struct StyleCache {
    slots: Vec<(u64, u32, StylePatch)>,
    queries: Ghost<Seq<StyleQuery>>,
    generation: u32,
    hits: u64,
    misses: u64,
}

impl StyleCache {
    /// The slots: key, generation stamp, patch.
    pub closed spec fn spec_slots(&self) -> Seq<(u64, u32, StylePatch)> {
        self.slots@
    }

    /// The current generation.
    pub closed spec fn spec_generation(&self) -> u32 {
        self.generation
    }

    /// Hits since construction.
    pub closed spec fn spec_hits(&self) -> u64 {
        self.hits
    }

    /// Misses since construction.
    pub closed spec fn spec_misses(&self) -> u64 {
        self.misses
    }

    /// The shape of the memo: 256 slots, each stamped no later than the
    /// current generation, which is never 0.
    pub closed spec fn wf(&self) -> bool {
        &&& self.slots@.len() == CACHE_SLOTS
        &&& self.queries@.len() == CACHE_SLOTS
        &&& self.generation >= 1
        &&& forall|i: int| 0 <= i < CACHE_SLOTS ==> (#[trigger] self.slots@[i]).1 <= self.generation
    }

    /// Every live slot holds what the query it was filled for accumulates
    /// to under `rs` at `level`, keyed by that query's key.
    pub closed spec fn serves(&self, rs: Recipes, level: ColorLevel) -> bool {
        forall|i: int| 0 <= i < CACHE_SLOTS && (#[trigger] self.slots@[i]).1 == self.generation ==> {
            &&& query_key(self.queries@[i]) == self.slots@[i].0
            &&& query_result(rs, level, self.queries@[i]) == self.slots@[i].2
        }
    }

    /// No slot is live.
    pub open spec fn is_cold(&self) -> bool {
        forall|i: int| 0 <= i < CACHE_SLOTS ==> (#[trigger] self.spec_slots()[i]).1 != self.spec_generation()
    }

    proof fn lemma_cold_serves(&self)
        requires
            self.wf(),
            self.is_cold(),
        ensures
            forall|rs: Recipes, level: ColorLevel| #[trigger] self.serves(rs, level),
    {
        assert forall|rs: Recipes, level: ColorLevel| #[trigger] self.serves(rs, level) by {
            assert forall|i: int| 0 <= i < CACHE_SLOTS && (#[trigger] self.slots@[i]).1 == self.generation implies {
                &&& query_key(self.queries@[i]) == self.slots@[i].0
                &&& query_result(rs, level, self.queries@[i]) == self.slots@[i].2
            } by {
                assert(self.spec_slots()[i].1 != self.spec_generation());
            }
        }
    }

    /// An empty memo.
    pub fn new() -> (c: StyleCache)
        ensures
            c.wf(),
            c.spec_slots().len() == CACHE_SLOTS,
            c.is_cold(),
            c.spec_hits() == 0,
            c.spec_misses() == 0,
            forall|rs: Recipes, level: ColorLevel| #[trigger] c.serves(rs, level),
    {
        let mut slots: Vec<(u64, u32, StylePatch)> = Vec::new();
        let mut i: usize = 0;
        while i < CACHE_SLOTS
            invariant
                i <= CACHE_SLOTS,
                slots@.len() == i,
                forall|k: int| 0 <= k < i ==> (#[trigger] slots@[k]).1 == 0,
            decreases CACHE_SLOTS - i,
        {
            slots.push((0, 0, StylePatch::new()));
            i = i + 1;
        }
        let none = StateFlags::empty();
        let c = StyleCache {
            slots,
            queries: Ghost(Seq::new(CACHE_SLOTS as nat, |k: int| (Family(0), Variant(0), Part(0), none, Seq::empty(), 0u64))),
            generation: 1,
            hits: 0,
            misses: 0,
        };
        proof {
            c.lemma_cold_serves();
        }
        c
    }

    /// Invalidate every entry (theme change, new frame). The stamp never
    /// wraps: at `u32::MAX` the slots are emptied and the stamp restarts
    /// at 1, so no slot stamped long ago becomes a false hit.
    pub fn clear(&mut self)
        requires
            old(self).wf(),
        ensures
            final(self).wf(),
            final(self).spec_slots().len() == CACHE_SLOTS,
            final(self).is_cold(),
            forall|rs: Recipes, level: ColorLevel| #[trigger] final(self).serves(rs, level),
            final(self).spec_hits() == old(self).spec_hits(),
            final(self).spec_misses() == old(self).spec_misses(),
            old(self).spec_generation() == u32::MAX ==> final(self).spec_generation() == 1
                && forall|i: int| 0 <= i < CACHE_SLOTS ==> #[trigger] final(self).spec_slots()[i] == (0u64, 0u32, empty_patch()),
            old(self).spec_generation() < u32::MAX ==> final(self).spec_generation() == old(self).spec_generation() + 1
                && final(self).spec_slots() == old(self).spec_slots(),
    {
        if self.generation == u32::MAX {
            let mut i: usize = 0;
            while i < CACHE_SLOTS
                invariant
                    i <= CACHE_SLOTS,
                    self.slots@.len() == CACHE_SLOTS,
                    self.queries@.len() == CACHE_SLOTS,
                    self.hits == old(self).hits,
                    self.misses == old(self).misses,
                    self.generation == u32::MAX,
                    forall|k: int| 0 <= k < i ==> #[trigger] self.slots@[k] == (0u64, 0u32, empty_patch()),
                decreases CACHE_SLOTS - i,
            {
                self.slots.set(i, (0, 0, StylePatch::new()));
                i = i + 1;
            }
            self.generation = 1;
        } else {
            self.generation = self.generation + 1;
        }
        proof {
            self.lemma_cold_serves();
        }
    }

    /// `(hits, misses)` since construction, wrapping.
    pub fn stats(&self) -> (r: (u64, u64))
        ensures
            r == (self.spec_hits(), self.spec_misses()),
    {
        (self.hits, self.misses)
    }

    /// The slot key of a query.
    fn key(f: Family, v: Variant, p: Part, live: StateFlags, stack_hash: u64) -> (k: u64)
        ensures
            k == mix_key(f, v, p, live.spec_bits(), stack_hash),
    {
        let h = fnv1a(FNV_OFFSET, &u16_le_bytes(f.raw()));
        let h = fnv1a(h, &u16_le_bytes(v.raw()));
        let h = fnv1a(h, &u16_le_bytes(p.0));
        let h = fnv1a(h, &u16_le_bytes(live.bits()));
        let bytes = u64_le_bytes(stack_hash);
        fnv1a(h, bytes.as_slice())
    }

    /// Steps 1-5 through the memo. `stack_hash` names the overlay stack:
    /// the caller gives distinct stacks distinct hashes. A hit serves what
    /// an earlier query with the same 64-bit key accumulated; a miss
    /// accumulates, stores the result as the set's most recent way, and
    /// evicts the least recent one.
    pub fn accumulate(
        &mut self,
        recipes: &Recipes,
        level: ColorLevel,
        f: Family,
        v: Variant,
        p: Part,
        live: StateFlags,
        overlays: &[Overlay],
        stack_hash: u64,
    ) -> (r: StylePatch)
        requires
            old(self).wf(),
            old(self).serves(*recipes, level),
            resolvable(*recipes),
        ensures
            final(self).wf(),
            final(self).spec_slots().len() == CACHE_SLOTS,
            final(self).serves(*recipes, level),
            final(self).spec_generation() == old(self).spec_generation(),
            answers_key(*recipes, level, query_key((f, v, p, live, overlays@, stack_hash)), r),
            old(self).is_cold() ==> r == accumulated(*recipes, level, f, v, p, live, overlays@),
            ({
                let key = query_key((f, v, p, live, overlays@, stack_hash));
                final(self).spec_slots()[set_base(key)] == (key, final(self).spec_generation(), r)
            }),
            ({
                let key = query_key((f, v, p, live, overlays@, stack_hash));
                let b = set_base(key);
                let s = old(self).spec_slots();
                let g = old(self).spec_generation();
                if live_hit(s, g, key, b) {
                    &&& r == s[b].2
                    &&& final(self).spec_slots() == s
                    &&& final(self).spec_hits() == old(self).spec_hits().wrapping_add(1)
                    &&& final(self).spec_misses() == old(self).spec_misses()
                } else if live_hit(s, g, key, b + 1) {
                    &&& r == s[b + 1].2
                    &&& final(self).spec_slots() == s.update(b, s[b + 1]).update(b + 1, s[b])
                    &&& final(self).spec_hits() == old(self).spec_hits().wrapping_add(1)
                    &&& final(self).spec_misses() == old(self).spec_misses()
                } else {
                    &&& r == accumulated(*recipes, level, f, v, p, live, overlays@)
                    &&& final(self).spec_slots() == s.update(b + 1, s[b]).update(b, (key, g, r))
                    &&& final(self).spec_hits() == old(self).spec_hits()
                    &&& final(self).spec_misses() == old(self).spec_misses().wrapping_add(1)
                }
            }),
    {
        let ghost q: StyleQuery = (f, v, p, live, overlays@, stack_hash);
        let key = StyleCache::key(f, v, p, live, stack_hash) | 1;
        let set = ((key >> 1) % 128) as usize;
        let base = set * CACHE_WAYS;
        proof {
            assert(key == query_key(q));
            assert(base as int == set_base(key));
        }
        let (k0, g0, p0) = self.slots[base];
        if k0 == key && g0 == self.generation {
            proof {
                assert(self.slots@[base as int].1 == self.generation);
                assert(query_result(*recipes, level, self.queries@[base as int]) == p0);
            }
            self.hits = self.hits.wrapping_add(1);
            return p0;
        }
        let hit1 = self.slots[base + 1];
        if hit1.0 == key && hit1.1 == self.generation {
            let ghost q1 = self.queries@[base + 1];
            let ghost q0 = self.queries@[base as int];
            proof {
                assert(self.slots@[base + 1].1 == self.generation);
                assert(query_result(*recipes, level, q1) == hit1.2);
            }
            let prev = self.slots[base];
            self.slots.set(base + 1, prev);
            self.slots.set(base, hit1);
            self.queries = Ghost(self.queries@.update(base + 1, q0).update(base as int, q1));
            self.hits = self.hits.wrapping_add(1);
            proof {
                assert(self.slots@ =~= old(self).slots@.update(base as int, hit1).update(base + 1, prev));
                assert forall|i: int| 0 <= i < CACHE_SLOTS && (#[trigger] self.slots@[i]).1 == self.generation implies {
                    &&& query_key(self.queries@[i]) == self.slots@[i].0
                    &&& query_result(*recipes, level, self.queries@[i]) == self.slots@[i].2
                } by {
                    if i == base as int {
                        assert(old(self).slots@[base + 1].1 == old(self).generation);
                    } else if i == base + 1 {
                        assert(old(self).slots@[base as int].1 == old(self).generation);
                    } else {
                        assert(old(self).slots@[i].1 == old(self).generation);
                    }
                }
                assert(old(self).spec_slots().update(base as int, old(self).spec_slots()[base + 1]).update(
                    base + 1,
                    old(self).spec_slots()[base as int],
                ) =~= self.slots@);
            }
            return hit1.2;
        }
        let patch = accumulate(recipes, level, f, v, p, live, overlays);
        let ghost q0 = self.queries@[base as int];
        let prev = self.slots[base];
        self.slots.set(base + 1, prev);
        self.slots.set(base, (key, self.generation, patch));
        self.queries = Ghost(self.queries@.update(base + 1, q0).update(base as int, q));
        self.misses = self.misses.wrapping_add(1);
        proof {
            assert forall|i: int| 0 <= i < CACHE_SLOTS && (#[trigger] self.slots@[i]).1 == self.generation implies {
                &&& query_key(self.queries@[i]) == self.slots@[i].0
                &&& query_result(*recipes, level, self.queries@[i]) == self.slots@[i].2
            } by {
                if i == base + 1 {
                    assert(old(self).slots@[base as int].1 == old(self).generation);
                } else if i != base as int {
                    assert(old(self).slots@[i].1 == old(self).generation);
                }
            }
            assert(old(self).spec_slots().update(base + 1, old(self).spec_slots()[base as int]).update(
                base as int,
                (key, old(self).spec_generation(), patch),
            ) =~= self.slots@);
        }
        patch
    }
}

} // verus!
