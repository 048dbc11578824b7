//! Palette post-transforms: color-theory rotation, style HSL filters,
//! practical passes (high-contrast / duotone) and nearest-color remapping,
//! applied in a caller-chosen order.
//!
//! This module decides *which* color operations apply to each palette entry
//! and in what order; the operations themselves (HLS round trips,
//! half-to-even rounding, the red-mean distance) are floating-point kernels run by the
//! application on the plan returned by [`transform_plan`].

use vstd::prelude::*;

use vstd::string::StringSliceAdditionalSpecFns;
use vstd::utf8::encode_utf8;

use crate::palette::{lemma_first_index, lemma_first_index_at};
use crate::render::{distinct_keys, member, JsonMembers};
use crate::color::{hex_to_rgb, rgb_channels, rgb_slice_ok, rgb_slice_ok_exec};
use crate::text::{
    ascii_lower, chars_of, find_from, first_occurrence, has_prefix, is_first_occurrence,
    chars_eq_lit, lemma_first_occurrence_unique, lemma_split_on_nonempty, split_on, string_of_chars, is_ascii_upper, occurs_at, push_char, starts_with, str_eq,
    to_ascii_lower, trim_chars, trim_white,
};

verus! {

// ── names ───────────────────────────────────────────────────────────────

/// Color-theory hue rotations.
#[derive(Debug, Clone, Copy, PartialEq, Eq, Structural)]
pub enum Theory {
    Mono,
    Analogous,
    Complementary,
    Triadic,
    Split,
    Tetradic,
}

/// The theory a name selects (specification).
pub open spec fn theory_named(name: Seq<char>) -> Option<Theory> {
    if name == "mono"@ {
        Some(Theory::Mono)
    } else if name == "analogous"@ {
        Some(Theory::Analogous)
    } else if name == "complementary"@ {
        Some(Theory::Complementary)
    } else if name == "triadic"@ {
        Some(Theory::Triadic)
    } else if name == "split"@ {
        Some(Theory::Split)
    } else if name == "tetradic"@ {
        Some(Theory::Tetradic)
    } else {
        None
    }
}

/// (primary, secondary, tertiary) hue deltas in degrees (specification).
pub open spec fn theory_deltas(t: Theory) -> (int, int, int) {
    match t {
        Theory::Mono => (0, 0, 0),
        Theory::Analogous => (0, 30, -30),
        Theory::Complementary => (0, 180, 180),
        Theory::Triadic => (0, 120, 240),
        Theory::Split => (0, 150, 210),
        Theory::Tetradic => (0, 90, 180),
    }
}

impl Theory {
    /// `"mono"`, `"analogous"`, …; `""`, `"material"` and unknown names give `None` (no-op).
    pub fn from_name(name: &str) -> (r: Option<Theory>)
        ensures
            r == theory_named(name@),
    {
        if str_eq(name, "mono") {
            Some(Theory::Mono)
        } else if str_eq(name, "analogous") {
            Some(Theory::Analogous)
        } else if str_eq(name, "complementary") {
            Some(Theory::Complementary)
        } else if str_eq(name, "triadic") {
            Some(Theory::Triadic)
        } else if str_eq(name, "split") {
            Some(Theory::Split)
        } else if str_eq(name, "tetradic") {
            Some(Theory::Tetradic)
        } else {
            None
        }
    }

    /// (primary, secondary, tertiary) hue deltas in degrees.
    pub fn deltas(self) -> (d: (i32, i32, i32))
        ensures
            (d.0 as int, d.1 as int, d.2 as int) == theory_deltas(self),
    {
        match self {
            Theory::Mono => (0, 0, 0),
            Theory::Analogous => (0, 30, -30),
            Theory::Complementary => (0, 180, 180),
            Theory::Triadic => (0, 120, 240),
            Theory::Split => (0, 150, 210),
            Theory::Tetradic => (0, 90, 180),
        }
    }
}

/// HSL style filters.
#[derive(Debug, Clone, Copy, PartialEq, Eq, Structural)]
pub enum Style {
    Pastel,
    Muted,
    Bright,
    Colorful,
}

/// The style a name selects (specification).
pub open spec fn style_named(name: Seq<char>) -> Option<Style> {
    if name == "pastel"@ {
        Some(Style::Pastel)
    } else if name == "muted"@ {
        Some(Style::Muted)
    } else if name == "bright"@ {
        Some(Style::Bright)
    } else if name == "colorful"@ {
        Some(Style::Colorful)
    } else {
        None
    }
}

impl Style {
    /// `"pastel"`, `"muted"`, `"bright"`, `"colorful"`; anything else gives `None`.
    pub fn from_name(name: &str) -> (r: Option<Style>)
        ensures
            r == style_named(name@),
    {
        if str_eq(name, "pastel") {
            Some(Style::Pastel)
        } else if str_eq(name, "muted") {
            Some(Style::Muted)
        } else if str_eq(name, "bright") {
            Some(Style::Bright)
        } else if str_eq(name, "colorful") {
            Some(Style::Colorful)
        } else {
            None
        }
    }
}

/// Practical passes.
#[derive(Debug, Clone, Copy, PartialEq, Eq, Structural)]
pub enum Practical {
    HighContrast,
    Duotone,
}

/// The practical pass a name selects (specification).
pub open spec fn practical_named(name: Seq<char>) -> Option<Practical> {
    if name == "high_contrast"@ {
        Some(Practical::HighContrast)
    } else if name == "duotone"@ {
        Some(Practical::Duotone)
    } else {
        None
    }
}

impl Practical {
    /// `"high_contrast"`, `"duotone"`; anything else gives `None`.
    pub fn from_name(name: &str) -> (r: Option<Practical>)
        ensures
            r == practical_named(name@),
    {
        if str_eq(name, "high_contrast") {
            Some(Practical::HighContrast)
        } else if str_eq(name, "duotone") {
            Some(Practical::Duotone)
        } else {
            None
        }
    }
}

// ── step order ──────────────────────────────────────────────────────────

/// The four kinds of transform step.
#[derive(Debug, Clone, Copy, PartialEq, Eq, Structural)]
pub enum StepKind {
    Theory,
    Style,
    Practical,
    Remap,
}

/// The canonical step order (specification).
pub open spec fn default_order_spec() -> Seq<StepKind> {
    seq![StepKind::Theory, StepKind::Style, StepKind::Practical, StepKind::Remap]
}

/// The canonical step order: theory, style, practical, remap.
pub fn default_order() -> (v: Vec<StepKind>)
    ensures
        v@ == default_order_spec(),
{
    let v = vec![StepKind::Theory, StepKind::Style, StepKind::Practical, StepKind::Remap];
    assert(v@ =~= default_order_spec());
    v
}

/// The step a trimmed piece names (specification).
pub open spec fn step_named(piece: Seq<char>) -> Option<StepKind> {
    if piece == "theory"@ {
        Some(StepKind::Theory)
    } else if piece == "style"@ {
        Some(StepKind::Style)
    } else if piece == "practical"@ {
        Some(StepKind::Practical)
    } else if piece == "remap"@ {
        Some(StepKind::Remap)
    } else {
        None
    }
}

/// The recognized step names among `pieces` (trimmed), in order.
pub open spec fn named_steps(pieces: Seq<Seq<char>>) -> Seq<StepKind>
    decreases pieces.len(),
{
    if pieces.len() == 0 {
        Seq::empty()
    } else {
        named_steps(pieces.drop_last()) + match step_named(trim_white(pieces.last())) {
            Some(k) => seq![k],
            None => Seq::empty(),
        }
    }
}

/// Append `k` unless it already occurs.
pub open spec fn add_missing(order: Seq<StepKind>, k: StepKind) -> Seq<StepKind> {
    if order.contains(k) {
        order
    } else {
        order.push(k)
    }
}

/// The recognized steps followed by the canonical remainder.
pub open spec fn completed_order(steps: Seq<StepKind>) -> Seq<StepKind> {
    add_missing(
        add_missing(add_missing(add_missing(steps, StepKind::Theory), StepKind::Style), StepKind::Practical),
        StepKind::Remap,
    )
}

fn step_of_piece(piece: &Vec<char>) -> (r: Option<StepKind>)
    ensures
        r == step_named(trim_white(piece@)),
{
    let t = trim_chars(piece);
    if chars_eq_lit(&t, "theory") {
        Some(StepKind::Theory)
    } else if chars_eq_lit(&t, "style") {
        Some(StepKind::Style)
    } else if chars_eq_lit(&t, "practical") {
        Some(StepKind::Practical)
    } else if chars_eq_lit(&t, "remap") {
        Some(StepKind::Remap)
    } else {
        None
    }
}

fn has_step(order: &Vec<StepKind>, k: StepKind) -> (r: bool)
    ensures
        r == order@.contains(k),
{
    let mut i: usize = 0;
    while i < order.len()
        invariant
            0 <= i <= order@.len(),
            forall|j: int| 0 <= j < i ==> order@[j] != k,
        decreases order@.len() - i,
    {
        if order[i] == k {
            return true;
        }
        i = i + 1;
    }
    false
}

fn push_missing(order: &mut Vec<StepKind>, k: StepKind)
    ensures
        final(order)@ == add_missing(old(order)@, k),
{
    if !has_step(order, k) {
        order.push(k);
    }
}

/// Parse a `--mix-order` string ("remap,theory") into a full step order:
/// recognized names first (in the given order, each piece trimmed), then the
/// canonical remainder.
pub fn resolve_order(mix_order: &str) -> (order: Vec<StepKind>)
    ensures
        order@ == completed_order(named_steps(split_on(mix_order@, ','))),
{
    let s = chars_of(mix_order);
    let mut steps: Vec<StepKind> = Vec::new();
    let mut cur: Vec<char> = Vec::new();
    let mut i: usize = 0;
    while i < s.len()
        invariant
            s@ == mix_order@,
            0 <= i <= s@.len(),
            steps@ == named_steps(split_on(s@.take(i as int), ',').drop_last()),
            cur@ == split_on(s@.take(i as int), ',').last(),
        decreases s@.len() - i,
    {
        let ghost prev = split_on(s@.take(i as int), ',');
        proof {
            lemma_split_on_nonempty(s@.take(i as int), ',');
        }
        assert(s@.take(i + 1).drop_last() =~= s@.take(i as int));
        if s[i] == ',' {
            let ghost parts = split_on(s@.take(i + 1), ',');
            assert(parts =~= prev.push(Seq::empty()));
            assert(parts.drop_last() =~= prev);
            assert(prev =~= prev.drop_last().push(prev.last()));
            assert(prev.drop_last().push(prev.last()).drop_last() =~= prev.drop_last());
            match step_of_piece(&cur) {
                Some(k) => steps.push(k),
                None => {},
            }
            cur = Vec::new();
        } else {
            let ghost parts = split_on(s@.take(i + 1), ',');
            assert(parts.drop_last() =~= prev.drop_last());
            cur.push(s[i]);
        }
        i = i + 1;
    }
    let ghost all = split_on(s@.take(i as int), ',');
    proof {
        lemma_split_on_nonempty(s@.take(i as int), ',');
    }
    assert(s@.take(i as int) =~= s@);
    assert(all =~= all.drop_last().push(all.last()));
    assert(all.drop_last().push(all.last()).drop_last() =~= all.drop_last());
    assert(all == split_on(mix_order@, ','));
    match step_of_piece(&cur) {
        Some(k) => steps.push(k),
        None => {},
    }
    assert(steps@ =~= named_steps(all));
    push_missing(&mut steps, StepKind::Theory);
    push_missing(&mut steps, StepKind::Style);
    push_missing(&mut steps, StepKind::Practical);
    push_missing(&mut steps, StepKind::Remap);
    steps
}

/// `resolve_order` always yields every step kind, and it keeps the
/// recognized names, in their given order, as its prefix.
pub proof fn lemma_resolve_order_complete(steps: Seq<StepKind>)
    ensures
        completed_order(steps).contains(StepKind::Theory),
        completed_order(steps).contains(StepKind::Style),
        completed_order(steps).contains(StepKind::Practical),
        completed_order(steps).contains(StepKind::Remap),
        completed_order(steps).take(steps.len() as int) == steps,
        completed_order(steps).len() <= steps.len() + 4,
        forall|k: StepKind| steps.contains(k) ==> completed_order(steps).take(steps.len() as int).contains(k),
{
    let o1 = add_missing(steps, StepKind::Theory);
    let o2 = add_missing(o1, StepKind::Style);
    let o3 = add_missing(o2, StepKind::Practical);
    let o4 = add_missing(o3, StepKind::Remap);
    assert(o1.contains(StepKind::Theory)) by {
        if !steps.contains(StepKind::Theory) {
            assert(o1[o1.len() - 1] == StepKind::Theory);
        }
    }
    assert(o2.contains(StepKind::Style)) by {
        if !o1.contains(StepKind::Style) {
            assert(o2[o2.len() - 1] == StepKind::Style);
        }
    }
    assert(o3.contains(StepKind::Practical)) by {
        if !o2.contains(StepKind::Practical) {
            assert(o3[o3.len() - 1] == StepKind::Practical);
        }
    }
    assert(o4.contains(StepKind::Remap)) by {
        if !o3.contains(StepKind::Remap) {
            assert(o4[o4.len() - 1] == StepKind::Remap);
        }
    }
    assert forall|k: StepKind| o1.contains(k) implies o2.contains(k) by {
        let j = choose|j: int| 0 <= j < o1.len() && o1[j] == k;
        assert(o2[j] == k);
    }
    assert forall|k: StepKind| o2.contains(k) implies o3.contains(k) by {
        let j = choose|j: int| 0 <= j < o2.len() && o2[j] == k;
        assert(o3[j] == k);
    }
    assert forall|k: StepKind| o3.contains(k) implies o4.contains(k) by {
        let j = choose|j: int| 0 <= j < o3.len() && o3[j] == k;
        assert(o4[j] == k);
    }
    assert(o4.take(steps.len() as int) =~= steps);
}

// ── key classification ──────────────────────────────────────────────────

/// One character of a camelCase key in snake_case: uppercase ASCII letters
/// (except at the start) get an underscore before them; everything is ASCII-lowercased.
pub open spec fn snake_piece(c: char, first: bool) -> Seq<char> {
    if is_ascii_upper(c) && !first {
        seq!['_', ascii_lower(c)]
    } else {
        seq![ascii_lower(c)]
    }
}

/// `camelCase` → `camel_case` (specification).
pub open spec fn snake_case(cs: Seq<char>) -> Seq<char>
    decreases cs.len(),
{
    if cs.len() == 0 {
        Seq::empty()
    } else {
        snake_case(cs.drop_last()) + snake_piece(cs.last(), cs.len() == 1)
    }
}

/// `camelCase` → `camel_case`: an underscore before every ASCII uppercase
/// letter but the first character, then ASCII lowercase.
pub fn camel_to_snake(s: &str) -> (out: String)
    ensures
        out@ == snake_case(s@),
{
    let cs = chars_of(s);
    let mut out = String::new();
    let mut i: usize = 0;
    while i < cs.len()
        invariant
            cs@ == s@,
            0 <= i <= cs@.len(),
            out@ == snake_case(cs@.take(i as int)),
        decreases cs@.len() - i,
    {
        let ch = cs[i];
        assert(cs@.take(i + 1).drop_last() =~= cs@.take(i as int));
        if 'A' <= ch && ch <= 'Z' && i != 0 {
            push_char(&mut out, '_');
        }
        push_char(&mut out, to_ascii_lower(ch));
        assert(out@ =~= snake_case(cs@.take(i + 1)));
        i = i + 1;
    }
    assert(cs@.take(i as int) =~= cs@);
    out
}

/// Accent group of a palette key.
#[derive(Debug, Clone, Copy, PartialEq, Eq, Structural)]
pub enum Group {
    Primary,
    Secondary,
    Tertiary,
}

/// The accent group of a snake_case key (specification).
pub open spec fn group_of(key_snake: Seq<char>) -> Option<Group> {
    if has_prefix(key_snake, "primary"@) || has_prefix(key_snake, "inverse_primary"@) {
        Some(Group::Primary)
    } else if has_prefix(key_snake, "secondary"@) {
        Some(Group::Secondary)
    } else if has_prefix(key_snake, "tertiary"@) {
        Some(Group::Tertiary)
    } else {
        None
    }
}

/// Keys starting with `primary`/`inverse_primary`, `secondary` or `tertiary`
/// belong to that accent group.
pub fn classify(key_snake: &str) -> (g: Option<Group>)
    ensures
        g == group_of(key_snake@),
{
    if starts_with(key_snake, "primary") || starts_with(key_snake, "inverse_primary") {
        Some(Group::Primary)
    } else if starts_with(key_snake, "secondary") {
        Some(Group::Secondary)
    } else if starts_with(key_snake, "tertiary") {
        Some(Group::Tertiary)
    } else {
        None
    }
}

// ── configuration ───────────────────────────────────────────────────────

/// Remap palette: target colors as (hex text, (r, g, b) channels).
pub type RemapPalette = Vec<(String, (u8, u8, u8))>;

/// Which transforms apply, and in what order.
#[derive(Debug, Clone)]
pub struct TransformConfig {
    pub theory: Option<Theory>,
    pub style: Option<Style>,
    pub practical: Option<Practical>,
    pub remap: Option<RemapPalette>,
    /// Empty → canonical order.
    pub order: Vec<StepKind>,
}

impl Default for TransformConfig {
    fn default() -> (c: TransformConfig)
        ensures
            c.theory is None,
            c.style is None,
            c.practical is None,
            c.remap is None,
            c.order@.len() == 0,
    {
        TransformConfig { theory: None, style: None, practical: None, remap: None, order: Vec::new() }
    }
}

impl TransformConfig {
    /// No transform is selected.
    pub fn is_noop(&self) -> (r: bool)
        ensures
            r == (self.theory is None && self.style is None && self.practical is None
                && self.remap is None),
    {
        self.theory.is_none() && self.style.is_none() && self.practical.is_none()
            && self.remap.is_none()
    }
}

// ── per-entry plan ──────────────────────────────────────────────────────

/// One color operation on a palette value.
#[derive(Debug, Clone, Copy, PartialEq, Eq, Structural)]
pub enum ColorOp {
    /// Give the color the HLS hue of the palette's (pre-transform) primary.
    SetPrimaryHue,
    /// Rotate the HLS hue by this many degrees.
    ShiftHue(i32),
    /// Apply an HSL style filter.
    Style(Style),
    /// Apply a practical pass; `on_role` for `on_*` keys, `tertiary` for the tertiary group.
    Practical { mode: Practical, on_role: bool, tertiary: bool },
    /// Replace the color by the nearest color of the remap palette.
    Remap,
}

/// The step order in effect: the configured one, or the canonical one when empty.
pub open spec fn effective_order(order: Seq<StepKind>) -> Seq<StepKind> {
    if order.len() == 0 {
        default_order_spec()
    } else {
        order
    }
}

/// The operations one step contributes for a key (specification).
pub open spec fn step_ops(step: StepKind, key_snake: Seq<char>, cfg: TransformConfig) -> Seq<ColorOp> {
    let group = group_of(key_snake);
    match step {
        StepKind::Theory => match (cfg.theory, group) {
            (Some(t), Some(g)) => if theory_deltas(t) == (0int, 0int, 0int) {
                seq![ColorOp::SetPrimaryHue]
            } else {
                let (p, s, t3) = theory_deltas(t);
                seq![
                    ColorOp::ShiftHue(
                        (match g {
                            Group::Primary => p,
                            Group::Secondary => s,
                            Group::Tertiary => t3,
                        }) as i32,
                    ),
                ]
            },
            _ => Seq::empty(),
        },
        StepKind::Style => match (cfg.style, group) {
            (Some(st), Some(_)) => seq![ColorOp::Style(st)],
            _ => Seq::empty(),
        },
        StepKind::Practical => match cfg.practical {
            Some(m) => if group is Some || has_prefix(key_snake, "on_"@) {
                seq![
                    ColorOp::Practical {
                        mode: m,
                        on_role: has_prefix(key_snake, "on_"@),
                        tertiary: group == Some(Group::Tertiary),
                    },
                ]
            } else {
                Seq::empty()
            },
            None => Seq::empty(),
        },
        StepKind::Remap => if cfg.remap is Some {
            seq![ColorOp::Remap]
        } else {
            Seq::empty()
        },
    }
}

/// The operations of all steps, in order.
pub open spec fn plan_ops(order: Seq<StepKind>, key_snake: Seq<char>, cfg: TransformConfig) -> Seq<ColorOp>
    decreases order.len(),
{
    if order.len() == 0 {
        Seq::empty()
    } else {
        plan_ops(order.drop_last(), key_snake, cfg) + step_ops(order.last(), key_snake, cfg)
    }
}

fn push_step_ops(ops: &mut Vec<ColorOp>, step: StepKind, key_snake: &str, group: Option<Group>, cfg: &TransformConfig)
    requires
        group == group_of(key_snake@),
    ensures
        final(ops)@ == old(ops)@ + step_ops(step, key_snake@, *cfg),
{
    let ghost before = ops@;
    match step {
        StepKind::Theory => {
            if let (Some(theory), Some(g)) = (cfg.theory, group) {
                let (p, sec, ter) = theory.deltas();
                if p == 0 && sec == 0 && ter == 0 {
                    ops.push(ColorOp::SetPrimaryHue);
                } else {
                    let delta = match g {
                        Group::Primary => p,
                        Group::Secondary => sec,
                        Group::Tertiary => ter,
                    };
                    ops.push(ColorOp::ShiftHue(delta));
                }
            }
        },
        StepKind::Style => {
            if let (Some(style), Some(_)) = (cfg.style, group) {
                ops.push(ColorOp::Style(style));
            }
        },
        StepKind::Practical => {
            if let Some(mode) = cfg.practical {
                let on_role = starts_with(key_snake, "on_");
                if group.is_some() || on_role {
                    let tertiary = match group {
                        Some(Group::Tertiary) => true,
                        _ => false,
                    };
                    ops.push(ColorOp::Practical { mode, on_role, tertiary });
                }
            }
        },
        StepKind::Remap => {
            if cfg.remap.is_some() {
                ops.push(ColorOp::Remap);
            }
        },
    }
    assert(ops@ =~= before + step_ops(step, key_snake@, *cfg));
}

/// The color operations that transform the palette value under `key`, in
/// order: each step of the configured order (canonical when empty)
/// contributes what applies to the key's accent group and `on_` prefix.
pub fn transform_plan(key: &str, cfg: &TransformConfig) -> (ops: Vec<ColorOp>)
    ensures
        ops@ == plan_ops(effective_order(cfg.order@), snake_case(key@), *cfg),
{
    let key_snake = camel_to_snake(key);
    let group = classify(key_snake.as_str());
    let order = if cfg.order.len() == 0 {
        default_order()
    } else {
        cfg.order.clone()
    };
    assert(order@ == effective_order(cfg.order@));
    let mut ops: Vec<ColorOp> = Vec::new();
    let mut i: usize = 0;
    while i < order.len()
        invariant
            0 <= i <= order@.len(),
            key_snake@ == snake_case(key@),
            group == group_of(key_snake@),
            ops@ == plan_ops(order@.take(i as int), key_snake@, *cfg),
        decreases order@.len() - i,
    {
        assert(order@.take(i + 1).drop_last() =~= order@.take(i as int));
        push_step_ops(&mut ops, order[i], key_snake.as_str(), group, cfg);
        i = i + 1;
    }
    assert(order@.take(i as int) =~= order@);
    ops
}

/// Index of the entry whose key is `primary` in snake_case (specification).
pub open spec fn is_primary_index(es: Seq<(Seq<char>, Seq<char>)>, i: int) -> bool {
    &&& 0 <= i < es.len()
    &&& snake_case(es[i].0) == "primary"@
    &&& forall|j: int| 0 <= j < i ==> snake_case(#[trigger] es[j].0) != "primary"@
}

/// The first entry whose key reads `primary` in snake_case — the entry whose
/// hue the theory and duotone steps rotate toward.
pub fn primary_index(entries: &[(String, String)]) -> (r: Option<usize>)
    ensures
        match r {
            Some(i) => is_primary_index(crate::palette::entries_view(entries@), i as int),
            None => forall|j: int|
                0 <= j < entries@.len() ==> snake_case(#[trigger] entries@[j].0@) != "primary"@,
        },
{
    let ghost es = crate::palette::entries_view(entries@);
    let mut i: usize = 0;
    while i < entries.len()
        invariant
            es == crate::palette::entries_view(entries@),
            0 <= i <= entries@.len(),
            forall|j: int| 0 <= j < i ==> snake_case(#[trigger] entries@[j].0@) != "primary"@,
        decreases entries@.len() - i,
    {
        let k = camel_to_snake(entries[i].0.as_str());
        if str_eq(k.as_str(), "primary") {
            proof {
                assert forall|j: int| 0 <= j < i implies snake_case(#[trigger] es[j].0) != "primary"@ by {
                    assert(es[j].0 == entries@[j].0@);
                }
            }
            return Some(i);
        }
        i = i + 1;
    }
    None
}

/// Only values starting with `#` are colors; others pass through untouched.
pub fn is_color_value(v: &str) -> (r: bool)
    ensures
        r == has_prefix(v@, "#"@),
{
    starts_with(v, "#")
}

// ── command-line selection ──────────────────────────────────────────────

/// The request selects nothing: theory and style empty or `material`,
/// practical empty or `none`, no remap (specification).
pub open spec fn selects_nothing(theory: Seq<char>, style: Seq<char>, practical: Seq<char>, remap: Seq<char>) -> bool {
    &&& (theory.len() == 0 || theory == "material"@)
    &&& (style.len() == 0 || style == "material"@)
    &&& (practical.len() == 0 || practical == "none"@)
    &&& remap.len() == 0
}

/// Whether a `transform` request asks for any work at all; a request that
/// selects nothing leaves the files untouched.
pub fn wants_transform(theory: &str, style: &str, practical: &str, remap: &str) -> (r: bool)
    ensures
        r == !selects_nothing(theory@, style@, practical@, remap@),
{
    let nothing = (theory.is_empty() || str_eq(theory, "material")) && (style.is_empty() || str_eq(
        style,
        "material",
    )) && (practical.is_empty() || str_eq(practical, "none")) && remap.is_empty();
    !nothing
}

// ── named remap palettes ────────────────────────────────────────────────

/// Number of leading `"` characters.
pub open spec fn leading_quotes(s: Seq<char>) -> nat
    decreases s.len(),
{
    if s.len() > 0 && s[0] == '"' {
        1 + leading_quotes(s.drop_first())
    } else {
        0
    }
}

/// Number of trailing `"` characters.
pub open spec fn trailing_quotes(s: Seq<char>) -> nat
    decreases s.len(),
{
    if s.len() > 0 && s.last() == '"' {
        1 + trailing_quotes(s.drop_last())
    } else {
        0
    }
}

/// `str::trim_matches('"')`: quotes removed from both ends.
pub open spec fn strip_quotes(s: Seq<char>) -> Seq<char> {
    let t = s.skip(leading_quotes(s) as int);
    t.take(t.len() - trailing_quotes(t))
}

proof fn lemma_leading_quotes(s: Seq<char>, k: int)
    requires
        0 <= k <= s.len(),
        forall|j: int| 0 <= j < k ==> #[trigger] s[j] == '"',
        k == s.len() || s[k] != '"',
    ensures
        leading_quotes(s) == k,
    decreases k,
{
    if k > 0 {
        lemma_leading_quotes(s.drop_first(), k - 1);
    }
}

proof fn lemma_trailing_quotes(s: Seq<char>, k: int)
    requires
        0 <= k <= s.len(),
        forall|j: int| s.len() - k <= j < s.len() ==> #[trigger] s[j] == '"',
        k == s.len() || s[s.len() - k - 1] != '"',
    ensures
        trailing_quotes(s) == k,
    decreases k,
{
    if k > 0 {
        lemma_trailing_quotes(s.drop_last(), k - 1);
    }
}

fn strip_quote_chars(s: &Vec<char>) -> (t: String)
    ensures
        t@ == strip_quotes(s@),
{
    let n = s.len();
    let mut a: usize = 0;
    while a < n && s[a] == '"'
        invariant
            n == s@.len(),
            0 <= a <= n,
            forall|j: int| 0 <= j < a ==> #[trigger] s@[j] == '"',
        decreases n - a,
    {
        a = a + 1;
    }
    proof {
        lemma_leading_quotes(s@, a as int);
    }
    let mut b: usize = n;
    while b > a && s[b - 1] == '"'
        invariant
            n == s@.len(),
            0 <= a <= b <= n,
            forall|j: int| b <= j < n ==> #[trigger] s@[j] == '"',
        decreases b,
    {
        b = b - 1;
    }
    let ghost u = s@.skip(a as int);
    proof {
        assert forall|j: int| u.len() - (n - b) <= j < u.len() implies #[trigger] u[j] == '"' by {
            assert(u[j] == s@[a + j]);
        }
        if b > a {
            assert(u[u.len() - (n - b) - 1] == s@[b - 1]);
        }
        lemma_trailing_quotes(u, (n - b) as int);
    }
    let mut t = String::new();
    let mut i: usize = a;
    while i < b
        invariant
            n == s@.len(),
            0 <= a <= i <= b <= n,
            t@ == s@.subrange(a as int, i as int),
        decreases b - i,
    {
        push_char(&mut t, s[i]);
        assert(t@ =~= s@.subrange(a as int, i + 1));
        i = i + 1;
    }
    assert(t@ =~= strip_quotes(s@));
    t
}

/// The quoted key under which a palette is listed in the catalog.
pub open spec fn catalog_key(name: Seq<char>) -> Seq<char> {
    seq!['"'] + name + seq!['"']
}

/// The items of the catalog's list for `name`: the text between the first
/// `[` after the first `"name"` and the next `]`, split at commas, each piece
/// trimmed and stripped of quotes.
pub open spec fn catalog_items(raw: Seq<char>, name: Seq<char>) -> Option<Seq<Seq<char>>> {
    match first_occurrence(raw, catalog_key(name), 0) {
        None => None,
        Some(start) => match first_occurrence(raw, seq!['['], start) {
            None => None,
            Some(open) => match first_occurrence(raw, seq![']'], open) {
                None => None,
                Some(close) => Some(
                    split_on(raw.subrange(open + 1, close), ',').map_values(
                        |p: Seq<char>| strip_quotes(trim_white(p)),
                    ),
                ),
            },
        },
    }
}

/// The items that parse as colors, with their channels, in catalog order.
pub open spec fn catalog_colors(items: Seq<Seq<char>>) -> Seq<(Seq<char>, (u8, u8, u8))>
    decreases items.len(),
{
    if items.len() == 0 {
        Seq::empty()
    } else {
        catalog_colors(items.drop_last()) + match rgb_channels(encode_utf8(items.last())) {
            Some(c) => seq![(items.last(), c)],
            None => Seq::empty(),
        }
    }
}

/// Every item of the list can be handed to the lenient color parser.
pub open spec fn catalog_items_ok(raw: Seq<char>, name: Seq<char>) -> bool {
    match catalog_items(raw, name) {
        Some(items) => forall|i: int| 0 <= i < items.len() ==> rgb_slice_ok(encode_utf8(#[trigger] items[i])),
        None => true,
    }
}

/// The remap palette `name` of a catalog (specification): its colors, or
/// `None` when it is missing or holds no color.
pub open spec fn catalog_palette(raw: Seq<char>, name: Seq<char>) -> Option<Seq<(Seq<char>, (u8, u8, u8))>> {
    match catalog_items(raw, name) {
        None => None,
        Some(items) => if catalog_colors(items).len() == 0 {
            None
        } else {
            Some(catalog_colors(items))
        },
    }
}

/// The view of a remap palette.
pub open spec fn remap_view(p: Seq<(String, (u8, u8, u8))>) -> Seq<(Seq<char>, (u8, u8, u8))> {
    p.map_values(|e: (String, (u8, u8, u8))| (e.0@, e.1))
}

fn catalog_item_vecs(raw: &Vec<char>, name: &str) -> (r: Option<Vec<Vec<char>>>)
    ensures
        match r {
            Some(v) => catalog_items(raw@, name@) matches Some(items) && v@.len() == items.len()
                && forall|i: int| 0 <= i < v@.len() ==> #[trigger] v@[i]@ == trim_white(
                split_on(raw@.subrange(
                    first_occurrence(raw@, seq!['['], first_occurrence(raw@, catalog_key(name@), 0)->0)->0 + 1,
                    first_occurrence(raw@, seq![']'], first_occurrence(raw@, seq!['['], first_occurrence(raw@, catalog_key(name@), 0)->0)->0)->0,
                ), ',')[i]),
            None => catalog_items(raw@, name@) is None,
        },
{
    let mut key: Vec<char> = Vec::new();
    key.push('"');
    let nm = chars_of(name);
    let mut i: usize = 0;
    while i < nm.len()
        invariant
            0 <= i <= nm@.len(),
            key@ == seq!['"'] + nm@.take(i as int),
        decreases nm@.len() - i,
    {
        key.push(nm[i]);
        assert(key@ =~= seq!['"'] + nm@.take(i + 1));
        i = i + 1;
    }
    key.push('"');
    assert(nm@.take(i as int) =~= nm@);
    assert(key@ =~= catalog_key(name@));
    let start = match find_from(raw, &key, 0) {
        Some(s) => s,
        None => return None,
    };
    proof {
        let c = choose|i: int| is_first_occurrence(raw@, key@, 0, i);
        assert(is_first_occurrence(raw@, key@, 0, c));
    }
    let open_v = vec!['['];
    assert(open_v@ =~= seq!['[']);
    let open = match find_from(raw, &open_v, start) {
        Some(o) => o,
        None => return None,
    };
    proof {
        let c = choose|i: int| is_first_occurrence(raw@, seq!['['], start as int, i);
        assert(is_first_occurrence(raw@, seq!['['], start as int, c));
    }
    let close_v = vec![']'];
    assert(close_v@ =~= seq![']']);
    let close = match find_from(raw, &close_v, open) {
        Some(c) => c,
        None => return None,
    };
    proof {
        let c = choose|i: int| is_first_occurrence(raw@, seq![']'], open as int, i);
        assert(is_first_occurrence(raw@, seq![']'], open as int, c));
    }
    let ghost body = raw@.subrange(open + 1, close as int);
    // split the body at commas, trimming each piece
    let mut items: Vec<Vec<char>> = Vec::new();
    let mut cur: Vec<char> = Vec::new();
    let mut k: usize = open + 1;
    while k < close
        invariant
            open < close <= raw@.len(),
            open + 1 <= k <= close,
            body == raw@.subrange(open + 1, close as int),
            split_on(body.take(k - open - 1), ',').len() >= 1,
            items@.len() == split_on(body.take(k - open - 1), ',').len() - 1,
            forall|q: int| 0 <= q < items@.len() ==> #[trigger] items@[q]@ == trim_white(split_on(body.take(k - open - 1), ',')[q]),
            cur@ == split_on(body.take(k - open - 1), ',').last(),
        decreases close - k,
    {
        let ghost j = k - open - 1;
        let ghost prev = split_on(body.take(j), ',');
        assert(body.take(j + 1).drop_last() =~= body.take(j));
        assert(body.take(j + 1).last() == raw@[k as int]);
        if raw[k] == ',' {
            let t = trim_chars(&cur);
            items.push(t);
            cur = Vec::new();
            proof {
                let parts = split_on(body.take(j + 1), ',');
                assert(parts =~= prev.push(Seq::empty()));
                assert forall|q: int| 0 <= q < items@.len() implies #[trigger] items@[q]@ == trim_white(parts[q]) by {
                    if q < items@.len() - 1 {
                        assert(parts[q] == prev[q]);
                    }
                }
                lemma_split_on_nonempty(body.take(j + 1), ',');
            }
        } else {
            cur.push(raw[k]);
            proof {
                let parts = split_on(body.take(j + 1), ',');
                assert(parts =~= prev.update(prev.len() - 1, prev.last().push(raw@[k as int])));
                assert forall|q: int| 0 <= q < items@.len() implies #[trigger] items@[q]@ == trim_white(parts[q]) by {
                    assert(parts[q] == prev[q]);
                }
                assert(cur@ =~= parts.last());
                lemma_split_on_nonempty(body.take(j + 1), ',');
            }
        }
        k = k + 1;
    }
    let t = trim_chars(&cur);
    items.push(t);
    proof {
        assert(body.take(close - open - 1) =~= body);
        let parts = split_on(body, ',');
        assert forall|q: int| 0 <= q < items@.len() implies #[trigger] items@[q]@ == trim_white(parts[q]) by {
            if q == items@.len() - 1 {
                assert(parts[q] == parts.last());
            }
        }
        lemma_first_occurrence_unique(raw@, catalog_key(name@), 0, start as int);
    }
    Some(items)
}

/// Whether every item of the catalog list for `name` can be handed to the
/// lenient color parser (the precondition of `builtin_palette`).
pub fn catalog_items_parse(catalog: &str, name: &str) -> (r: bool)
    ensures
        r == catalog_items_ok(catalog@, name@),
{
    let raw = chars_of(catalog);
    let items = match catalog_item_vecs(&raw, name) {
        Some(v) => v,
        None => return true,
    };
    let ghost all = catalog_items(catalog@, name@)->0;
    let mut i: usize = 0;
    while i < items.len()
        invariant
            items@.len() == all.len(),
            catalog_items(catalog@, name@) == Some(all),
            forall|q: int| 0 <= q < all.len() ==> strip_quotes(#[trigger] items@[q]@) == all[q],
            0 <= i <= all.len(),
            forall|q: int| 0 <= q < i ==> rgb_slice_ok(encode_utf8(#[trigger] all[q])),
        decreases all.len() - i,
    {
        let hex = strip_quote_chars(&items[i]);
        assert(hex@ == all[i as int]);
        if !rgb_slice_ok_exec(hex.as_str()) {
            assert(!rgb_slice_ok(encode_utf8(all[i as int])));
            assert(!(forall|q: int| 0 <= q < all.len() ==> rgb_slice_ok(encode_utf8(#[trigger] all[q]))));
            assert(catalog_items(catalog@, name@) matches Some(items) && items == all);
            assert(catalog_items_ok(catalog@, name@) == (forall|q: int| 0 <= q < all.len() ==> rgb_slice_ok(encode_utf8(#[trigger] all[q]))));
            return false;
        }
        i = i + 1;
    }
    true
}

/// The named remap palette of a palettes catalog (a flat
/// `{"name": ["#hex", ...], ...}` JSON text, read without a JSON parser):
/// the list items that parse as colors, with their channels; `None` when the
/// name is missing or its list holds no color.
pub fn builtin_palette(catalog: &str, name: &str) -> (r: Option<RemapPalette>)
    requires
        catalog_items_ok(catalog@, name@),
    ensures
        match r {
            Some(p) => catalog_palette(catalog@, name@) == Some(remap_view(p@)),
            None => catalog_palette(catalog@, name@) is None,
        },
{
    let raw = chars_of(catalog);
    let items = match catalog_item_vecs(&raw, name) {
        Some(v) => v,
        None => return None,
    };
    let ghost all = catalog_items(catalog@, name@)->0;
    assert forall|i: int| 0 <= i < items@.len() implies #[trigger] items@[i]@.len() >= 0 && strip_quotes(items@[i]@) == all[i] by {}
    let mut colors: RemapPalette = Vec::new();
    let mut i: usize = 0;
    while i < items.len()
        invariant
            items@.len() == all.len(),
            forall|q: int| 0 <= q < all.len() ==> strip_quotes(#[trigger] items@[q]@) == all[q],
            forall|q: int| 0 <= q < all.len() ==> rgb_slice_ok(encode_utf8(#[trigger] all[q])),
            0 <= i <= all.len(),
            remap_view(colors@) == catalog_colors(all.take(i as int)),
        decreases all.len() - i,
    {
        assert(all.take(i + 1).drop_last() =~= all.take(i as int));
        assert(all.take(i + 1).last() == all[i as int]);
        let hex = strip_quote_chars(&items[i]);
        assert(hex@ == all[i as int]);
        assert(rgb_slice_ok(encode_utf8(all[i as int])));
        match hex_to_rgb(hex.as_str()) {
            Some(rgb) => {
                let ghost before = colors@;
                colors.push((hex, rgb));
                assert(remap_view(colors@) =~= remap_view(before).push((all[i as int], rgb)));
            },
            None => {},
        }
        i = i + 1;
    }
    assert(all.take(i as int) =~= all);
    if colors.len() == 0 {
        None
    } else {
        Some(colors)
    }
}

/// A `--remap` value names a catalog palette unless it is empty or `matugen`.
pub open spec fn names_catalog_palette(remap: Seq<char>) -> bool {
    remap.len() != 0 && remap != "matugen"@
}

/// The transform configuration of a `transform` request: the named theory,
/// style and practical pass (unknown names select nothing), the catalog
/// palette named by `remap`, and the step order from `mix_order`.
pub fn build_transform_config(
    theory: &str,
    style: &str,
    practical: &str,
    remap: &str,
    mix_order: &str,
    catalog: &str,
) -> (c: TransformConfig)
    requires
        names_catalog_palette(remap@) ==> catalog_items_ok(catalog@, remap@),
    ensures
        c.theory == theory_named(theory@),
        c.style == style_named(style@),
        c.practical == practical_named(practical@),
        match c.remap {
            Some(p) => names_catalog_palette(remap@) && catalog_palette(catalog@, remap@) == Some(
                remap_view(p@),
            ),
            None => !names_catalog_palette(remap@) || catalog_palette(catalog@, remap@) is None,
        },
        c.order@ == completed_order(named_steps(split_on(mix_order@, ','))),
{
    let remap_palette = if !remap.is_empty() && !str_eq(remap, "matugen") {
        builtin_palette(catalog, remap)
    } else {
        None
    };
    TransformConfig {
        theory: Theory::from_name(theory),
        style: Style::from_name(style),
        practical: Practical::from_name(practical),
        remap: remap_palette,
        order: resolve_order(mix_order),
    }
}

// ── the colors.json file ────────────────────────────────────────────────

#[verifier::external_type_specification]
#[verifier::external_body]
pub struct ExJsonValue(serde_json::Value);

#[verifier::external_type_specification]
#[verifier::external_body]
pub struct ExJsonError(serde_json::Error);

/// A member value of a colors.json object: a string, or any other JSON
/// value, carried through untouched.
#[derive(Debug)]
pub enum JsonItem {
    Text(String),
    Other(serde_json::Value),
}

/// A member's string value, if it is one.
pub open spec fn item_text(i: JsonItem) -> Option<Seq<char>> {
    match i {
        JsonItem::Text(s) => Some(s@),
        JsonItem::Other(_) => None,
    }
}

/// The members of parsed items, each with its string value.
pub open spec fn items_view(v: Seq<(String, JsonItem)>) -> JsonMembers {
    v.map_values(|e: (String, JsonItem)| (e.0@, item_text(e.1)))
}

/// The JSON value a text holds: `None` when it is not JSON, `Some(None)`
/// when it is not an object, else the object's members in the parsed map's
/// order with their string values.
pub uninterp spec fn json_object_items(text: Seq<char>) -> Option<Option<JsonMembers>>;

/// serde_json's `from_str` into a `Value`, then its members when it is an
/// object; the map's keys are distinct.
#[verifier::external_body]
fn parse_json_items(text: &str) -> (r: Result<Option<Vec<(String, JsonItem)>>, serde_json::Error>)
    ensures
        match r {
            Ok(Some(v)) => json_object_items(text@) == Some(Some(items_view(v@))) && distinct_keys(items_view(v@)),
            Ok(None) => json_object_items(text@) == Some(None::<JsonMembers>),
            Err(_) => json_object_items(text@) is None,
        },
{
    let v: serde_json::Value = serde_json::from_str(text)?;
    Ok(v.as_object().map(|o| o.iter().map(|(k, x)| (k.clone(), match x {
        serde_json::Value::String(s) => JsonItem::Text(s.clone()),
        other => JsonItem::Other(other.clone()),
    })).collect()))
}

/// What a colors.json text offers the transforms: `None` when it is not
/// an object or has no string `primary`; else that `primary` and the members.
pub open spec fn json_palette_spec(text: Seq<char>) -> Option<Option<(Seq<char>, JsonMembers)>> {
    match json_object_items(text) {
        None => None,
        Some(None) => Some(None),
        Some(Some(m)) => match member(m, "primary"@) {
            Some(Some(p)) => Some(Some((p, m))),
            _ => Some(None),
        },
    }
}

/// Read a colors.json text for the transforms: its `primary` color (read
/// before any change) and its members in order; nothing to do when it is
/// not an object or has no string `primary`; an error when it is not JSON.
pub fn json_palette(text: &str) -> (r: Result<Option<(String, Vec<(String, JsonItem)>)>, serde_json::Error>)
    ensures
        match r {
            Ok(Some((p, items))) => json_palette_spec(text@) == Some(Some((p@, items_view(items@)))),
            Ok(None) => json_palette_spec(text@) == Some(None::<(Seq<char>, JsonMembers)>),
            Err(_) => json_palette_spec(text@) is None,
        },
{
    let items = match parse_json_items(text) {
        Ok(Some(v)) => v,
        Ok(None) => return Ok(None),
        Err(e) => return Err(e),
    };
    let ghost m = items_view(items@);
    let mut i: usize = 0;
    while i < items.len()
        invariant
            m == items_view(items@),
            json_object_items(text@) == Some(Some(m)),
            0 <= i <= items@.len(),
            forall|j: int| 0 <= j < i ==> #[trigger] m[j].0 != "primary"@,
        decreases items@.len() - i,
    {
        if str_eq(items[i].0.as_str(), "primary") {
            proof {
                lemma_first_index_at(m, "primary"@, i as int);
            }
            return match &items[i].1 {
                JsonItem::Text(p) => {
                    assert(m[i as int].1 == Some(p@));
                    Ok(Some((p.clone(), items)))
                },
                JsonItem::Other(_) => {
                    assert(m[i as int].1 is None);
                    Ok(None)
                },
            };
        }
        i = i + 1;
    }
    proof {
        lemma_first_index(m, "primary"@);
    }
    Ok(None)
}

// ── laws ────────────────────────────────────────────────────────────────

/// A configuration that selects no transform gives every key an empty plan,
/// whatever the step order: its values are left as they are.
pub proof fn lemma_noop_plan_empty(order: Seq<StepKind>, key_snake: Seq<char>, cfg: TransformConfig)
    requires
        cfg.theory is None,
        cfg.style is None,
        cfg.practical is None,
        cfg.remap is None,
    ensures
        plan_ops(order, key_snake, cfg).len() == 0,
    decreases order.len(),
{
    if order.len() > 0 {
        lemma_noop_plan_empty(order.drop_last(), key_snake, cfg);
    }
}

/// A request that `wants_transform` turns down names no theory, style,
/// practical pass or catalog palette, so the configuration built from it
/// selects nothing.
pub proof fn lemma_nothing_selected_is_noop(theory: Seq<char>, style: Seq<char>, practical: Seq<char>, remap: Seq<char>)
    requires
        selects_nothing(theory, style, practical, remap),
    ensures
        theory_named(theory) is None,
        style_named(style) is None,
        practical_named(practical) is None,
        !names_catalog_palette(remap),
{
    reveal_strlit("material");
    reveal_strlit("none");
    reveal_strlit("mono");
    reveal_strlit("analogous");
    reveal_strlit("complementary");
    reveal_strlit("triadic");
    reveal_strlit("split");
    reveal_strlit("tetradic");
    reveal_strlit("pastel");
    reveal_strlit("muted");
    reveal_strlit("bright");
    reveal_strlit("colorful");
    reveal_strlit("high_contrast");
    reveal_strlit("duotone");
    if theory.len() != 0 {
        assert(theory[0] != "tetradic"@[0]);
    }
    if style.len() != 0 {
        assert(style[0] != "colorful"@[0]);
    }
}

/// The theories rotate hues as their names say. The primary group never
/// moves. Complementary turns secondary and tertiary to the opposite hue;
/// triadic spaces the three groups a third of the circle apart; split puts
/// secondary and tertiary 30° to either side of the complement; tetradic
/// turns them a quarter and a half turn; analogous 30° to either side of
/// the primary; mono rotates nothing.
pub proof fn lemma_theory_rotations(t: Theory)
    ensures
        theory_deltas(t).0 == 0,
        t == Theory::Complementary ==> theory_deltas(t).1 == 180 && theory_deltas(t).2 == 180,
        t == Theory::Triadic ==> theory_deltas(t).1 == 360int / 3 && theory_deltas(t).2 == 2 * (360int / 3),
        t == Theory::Split ==> theory_deltas(t).1 == 180int - 30 && theory_deltas(t).2 == 180int + 30,
        t == Theory::Tetradic ==> theory_deltas(t).1 == 360int / 4 && theory_deltas(t).2 == 360int / 2,
        t == Theory::Analogous ==> theory_deltas(t).1 == 30 && theory_deltas(t).2 == -30,
        t == Theory::Mono <==> theory_deltas(t) == (0int, 0int, 0int),
{
}

/// Under the complementary theory the theory step turns every secondary and
/// tertiary key by 180° and leaves primary keys where they are (a zero
/// turn); keys of no accent group are not touched.
pub proof fn lemma_complementary_plan(key_snake: Seq<char>, cfg: TransformConfig)
    requires
        cfg.theory == Some(Theory::Complementary),
    ensures
        group_of(key_snake) == Some(Group::Secondary) || group_of(key_snake) == Some(Group::Tertiary)
            ==> step_ops(StepKind::Theory, key_snake, cfg) == seq![ColorOp::ShiftHue(180)],
        group_of(key_snake) == Some(Group::Primary) ==> step_ops(StepKind::Theory, key_snake, cfg) == seq![
            ColorOp::ShiftHue(0),
        ],
        group_of(key_snake) is None ==> step_ops(StepKind::Theory, key_snake, cfg).len() == 0,
{
}

} // verus!
