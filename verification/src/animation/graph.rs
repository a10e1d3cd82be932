//! The jmad's `content/modes[]` tree: which animation plays for each
//! (mode, weapon class, weapon type, action) tuple.
use vstd::prelude::*;

use super::{inst, named_block, named_struct, Instance};
use crate::api::{element_at, read_block_index_spec, read_int_spec, read_string_id_spec, TagBlock, TagStruct};
use crate::data::TagBlockData;
use crate::file::TagFile;
use crate::layout::TagLayout;
use crate::text::str_eq;

verus! {

/// The `content/modes[]` tree with its string ids resolved.
#[derive(Debug)]
pub struct AnimationGraph {
    pub modes: Vec<GraphMode>,
}

/// One `modes[]` entry (e.g. `any`, `stand`).
#[derive(Debug)]
pub struct GraphMode {
    pub label: String,
    pub weapon_classes: Vec<GraphWeaponClass>,
}

/// One `weapon class[]` entry.
#[derive(Debug)]
pub struct GraphWeaponClass {
    pub label: String,
    pub weapon_types: Vec<GraphWeaponType>,
}

/// One `weapon type[]` entry with its state lists.
#[derive(Debug)]
pub struct GraphWeaponType {
    pub label: String,
    pub actions: Vec<GraphAction>,
    pub overlays: Vec<GraphAction>,
    pub transitions: Vec<GraphTransition>,
}

/// One action or overlay: a state name and the animation it plays.
#[derive(Debug)]
pub struct GraphAction {
    pub label: String,
    pub animation: GraphActionAnimation,
}

/// Reference to an animation: local when `graph_index < 0` (an index into
/// this tag's own animations), else an entry of the parent graph chain.
#[derive(Debug, Clone, Copy, PartialEq, Eq, Structural)]
pub struct GraphActionAnimation {
    /// `graph index`; `-1` means local.
    pub graph_index: i16,
    /// `animation` block index; `-1` when no animation is bound.
    pub animation_index: i16,
}

/// A transition to another state.
#[derive(Debug)]
pub struct GraphTransition {
    /// `state name`: the destination state.
    pub destination_state: String,
    pub animation: GraphActionAnimation,
}

//================================================================================
// What the walk reads
//================================================================================

/// A string id of `e`, or the empty text.
pub open spec fn label_of(layout: TagLayout, e: Instance, name: Seq<char>) -> Seq<char> {
    match read_string_id_spec(layout, e.0, name) {
        Some(s) => s,
        None => Seq::empty(),
    }
}

/// The animation reference of an action or transition element: its
/// `animation` struct, or the zero reference when it has none.
pub open spec fn animation_ref_of(layout: TagLayout, e: Instance) -> GraphActionAnimation {
    match named_struct(layout, e, "animation"@) {
        Some(st) => GraphActionAnimation {
            graph_index: (match read_int_spec(layout, st.0, st.1, "graph index"@) {
                Some(v) => v,
                None => -1i64,
            }) as i16,
            animation_index: read_block_index_spec(layout, st.0, st.1, "animation"@),
        },
        None => GraphActionAnimation { graph_index: 0, animation_index: 0 },
    }
}

/// The number of elements a block field contributes (0 when missing).
pub open spec fn count_of(b: Option<TagBlockData>) -> nat {
    match b {
        Some(b) => b.elements@.len(),
        None => 0,
    }
}

/// Action `a` is read from element `e`.
pub open spec fn action_matches(layout: TagLayout, e: Instance, a: GraphAction) -> bool {
    a.label@ == label_of(layout, e, "label"@) && a.animation == animation_ref_of(layout, e)
}

/// Transition `t` is read from element `e`.
pub open spec fn transition_matches(layout: TagLayout, e: Instance, t: GraphTransition) -> bool {
    t.destination_state@ == label_of(layout, e, "state name"@) && t.animation == animation_ref_of(layout, e)
}

/// The actions of block `b` (missing: none) are `xs`.
pub open spec fn actions_match(layout: TagLayout, b: Option<TagBlockData>, xs: Seq<GraphAction>) -> bool {
    &&& xs.len() == count_of(b)
    &&& forall|k: int|
        0 <= k < xs.len() ==> action_matches(layout, element_at(layout, b.unwrap(), k), #[trigger] xs[k])
}

/// The transitions of block `b` (missing: none) are `xs`.
pub open spec fn transitions_match(layout: TagLayout, b: Option<TagBlockData>, xs: Seq<GraphTransition>) -> bool {
    &&& xs.len() == count_of(b)
    &&& forall|k: int|
        0 <= k < xs.len() ==> transition_matches(layout, element_at(layout, b.unwrap(), k), #[trigger] xs[k])
}

/// Weapon type `t` is read from element `e`.
pub open spec fn weapon_type_matches(layout: TagLayout, e: Instance, t: GraphWeaponType) -> bool {
    &&& t.label@ == label_of(layout, e, "label"@)
    &&& actions_match(layout, named_block(layout, e, "actions"@), t.actions@)
    &&& actions_match(layout, named_block(layout, e, "overlays"@), t.overlays@)
    &&& transitions_match(layout, named_block(layout, e, "transitions"@), t.transitions@)
}

/// Weapon class `c` is read from element `e`.
pub open spec fn weapon_class_matches(layout: TagLayout, e: Instance, c: GraphWeaponClass) -> bool {
    let b = named_block(layout, e, "weapon type"@);
    &&& c.label@ == label_of(layout, e, "label"@)
    &&& c.weapon_types@.len() == count_of(b)
    &&& forall|k: int|
        0 <= k < c.weapon_types@.len() ==> weapon_type_matches(
            layout,
            element_at(layout, b.unwrap(), k),
            #[trigger] c.weapon_types@[k],
        )
}

/// Mode `m` is read from element `e`.
pub open spec fn mode_matches(layout: TagLayout, e: Instance, m: GraphMode) -> bool {
    let b = named_block(layout, e, "weapon class"@);
    &&& m.label@ == label_of(layout, e, "label"@)
    &&& m.weapon_classes@.len() == count_of(b)
    &&& forall|k: int|
        0 <= k < m.weapon_classes@.len() ==> weapon_class_matches(
            layout,
            element_at(layout, b.unwrap(), k),
            #[trigger] m.weapon_classes@[k],
        )
}

/// The `content/modes` block of a root instance.
pub open spec fn modes_block(layout: TagLayout, root: Instance) -> Option<TagBlockData> {
    match named_struct(layout, root, "content"@) {
        Some(c) => named_block(layout, c, "modes"@),
        None => None,
    }
}

//================================================================================
// Lookup
//================================================================================

/// Index of the first of `labels[k..]` equal to `name`.
pub open spec fn first_label(labels: Seq<Seq<char>>, name: Seq<char>, k: int) -> Option<int>
    decreases labels.len() - k,
{
    if k < 0 || k >= labels.len() {
        None
    } else if labels[k] == name {
        Some(k)
    } else {
        first_label(labels, name, k + 1)
    }
}

/// The entry labelled `name`, else the one labelled `any`.
pub open spec fn pick(labels: Seq<Seq<char>>, name: Seq<char>) -> Option<int> {
    match first_label(labels, name, 0) {
        Some(k) => Some(k),
        None => first_label(labels, "any"@, 0),
    }
}

pub open spec fn mode_labels(ms: Seq<GraphMode>) -> Seq<Seq<char>> {
    Seq::new(ms.len(), |k: int| ms[k].label@)
}

pub open spec fn class_labels(cs: Seq<GraphWeaponClass>) -> Seq<Seq<char>> {
    Seq::new(cs.len(), |k: int| cs[k].label@)
}

pub open spec fn type_labels(ts: Seq<GraphWeaponType>) -> Seq<Seq<char>> {
    Seq::new(ts.len(), |k: int| ts[k].label@)
}

pub open spec fn action_labels(xs: Seq<GraphAction>) -> Seq<Seq<char>> {
    Seq::new(xs.len(), |k: int| xs[k].label@)
}

/// The animation an action lookup resolves to: mode, weapon class and
/// weapon type each fall back to `any`; the action must match exactly.
pub open spec fn resolve_action(
    ms: Seq<GraphMode>,
    mode: Seq<char>,
    weapon_class: Seq<char>,
    weapon_type: Seq<char>,
    action: Seq<char>,
) -> Option<GraphActionAnimation> {
    match pick(mode_labels(ms), mode) {
        None => None,
        Some(mi) => {
            let cs = ms[mi].weapon_classes@;
            match pick(class_labels(cs), weapon_class) {
                None => None,
                Some(ci) => {
                    let ts = cs[ci].weapon_types@;
                    match pick(type_labels(ts), weapon_type) {
                        None => None,
                        Some(ti) => {
                            let xs = ts[ti].actions@;
                            match first_label(action_labels(xs), action, 0) {
                                Some(ai) => Some(xs[ai].animation),
                                None => None,
                            }
                        },
                    }
                },
            }
        },
    }
}

/// The first action of the first weapon type in `ts[k..]` that has one.
pub open spec fn first_in_types(ts: Seq<GraphWeaponType>, k: int) -> Option<GraphActionAnimation>
    decreases ts.len() - k,
{
    if k < 0 || k >= ts.len() {
        None
    } else if ts[k].actions@.len() > 0 {
        Some(ts[k].actions@[0].animation)
    } else {
        first_in_types(ts, k + 1)
    }
}

/// The first action under the weapon classes `cs[k..]`.
pub open spec fn first_in_classes(cs: Seq<GraphWeaponClass>, k: int) -> Option<GraphActionAnimation>
    decreases cs.len() - k,
{
    if k < 0 || k >= cs.len() {
        None
    } else {
        match first_in_types(cs[k].weapon_types@, 0) {
            Some(a) => Some(a),
            None => first_in_classes(cs, k + 1),
        }
    }
}

/// The first action under the modes `ms[k..]`.
pub open spec fn first_in_modes(ms: Seq<GraphMode>, k: int) -> Option<GraphActionAnimation>
    decreases ms.len() - k,
{
    if k < 0 || k >= ms.len() {
        None
    } else {
        match first_in_classes(ms[k].weapon_classes@, 0) {
            Some(a) => Some(a),
            None => first_in_modes(ms, k + 1),
        }
    }
}

//================================================================================
// Walking
//================================================================================

fn read_label(s: TagStruct, name: &str) -> (r: String)
    ensures
        r@ == label_of(s.spec_layout(), inst(s), name@),
{
    match s.read_string_id(name) {
        Some(t) => t,
        None => String::new(),
    }
}

fn read_animation_ref(s: TagStruct) -> (r: GraphActionAnimation)
    ensures
        r == animation_ref_of(s.spec_layout(), inst(s)),
{
    match super::struct_named(s, "animation") {
        Some(st) => {
            let graph_index: i16 = match st.read_int_any("graph index") {
                Some(v) => v as i16,
                None => -1,
            };
            GraphActionAnimation { graph_index, animation_index: st.read_block_index("animation") }
        },
        None => GraphActionAnimation { graph_index: 0, animation_index: 0 },
    }
}

fn read_actions(s: TagStruct, name: &str) -> (r: Vec<GraphAction>)
    ensures
        actions_match(s.spec_layout(), named_block(s.spec_layout(), inst(s), name@), r@),
{
    let mut out: Vec<GraphAction> = Vec::new();
    let b = match super::block_named(s, name) {
        Some(b) => b,
        None => {
            return out;
        },
    };
    let ghost layout = s.spec_layout();
    let n = b.len();
    let mut i: usize = 0;
    while i < n
        invariant
            i <= n,
            n == b.spec_data().elements@.len(),
            b.spec_layout() == layout,
            out@.len() == i,
            forall|k: int| 0 <= k < i ==> action_matches(layout, element_at(layout, b.spec_data(), k), #[trigger] out@[k]),
        decreases n - i,
    {
        match b.element(i) {
            Some(e) => {
                let label = read_label(e, "label");
                let animation = read_animation_ref(e);
                out.push(GraphAction { label, animation });
            },
            None => {},
        }
        i = i + 1;
    }
    out
}

fn read_transitions(s: TagStruct, name: &str) -> (r: Vec<GraphTransition>)
    ensures
        transitions_match(s.spec_layout(), named_block(s.spec_layout(), inst(s), name@), r@),
{
    let mut out: Vec<GraphTransition> = Vec::new();
    let b = match super::block_named(s, name) {
        Some(b) => b,
        None => {
            return out;
        },
    };
    let ghost layout = s.spec_layout();
    let n = b.len();
    let mut i: usize = 0;
    while i < n
        invariant
            i <= n,
            n == b.spec_data().elements@.len(),
            b.spec_layout() == layout,
            out@.len() == i,
            forall|k: int|
                0 <= k < i ==> transition_matches(layout, element_at(layout, b.spec_data(), k), #[trigger] out@[k]),
        decreases n - i,
    {
        match b.element(i) {
            Some(e) => {
                let destination_state = read_label(e, "state name");
                let animation = read_animation_ref(e);
                out.push(GraphTransition { destination_state, animation });
            },
            None => {},
        }
        i = i + 1;
    }
    out
}

fn read_weapon_types(s: TagStruct) -> (r: Vec<GraphWeaponType>)
    ensures
        ({
            let b = named_block(s.spec_layout(), inst(s), "weapon type"@);
            &&& r@.len() == count_of(b)
            &&& forall|k: int|
                0 <= k < r@.len() ==> weapon_type_matches(
                    s.spec_layout(),
                    element_at(s.spec_layout(), b.unwrap(), k),
                    #[trigger] r@[k],
                )
        }),
{
    let mut out: Vec<GraphWeaponType> = Vec::new();
    let b = match super::block_named(s, "weapon type") {
        Some(b) => b,
        None => {
            return out;
        },
    };
    let ghost layout = s.spec_layout();
    let n = b.len();
    let mut i: usize = 0;
    while i < n
        invariant
            i <= n,
            n == b.spec_data().elements@.len(),
            b.spec_layout() == layout,
            out@.len() == i,
            forall|k: int|
                0 <= k < i ==> weapon_type_matches(layout, element_at(layout, b.spec_data(), k), #[trigger] out@[k]),
        decreases n - i,
    {
        match b.element(i) {
            Some(e) => {
                let label = read_label(e, "label");
                let actions = read_actions(e, "actions");
                let overlays = read_actions(e, "overlays");
                let transitions = read_transitions(e, "transitions");
                out.push(GraphWeaponType { label, actions, overlays, transitions });
            },
            None => {},
        }
        i = i + 1;
    }
    out
}

fn read_weapon_classes(s: TagStruct) -> (r: Vec<GraphWeaponClass>)
    ensures
        ({
            let b = named_block(s.spec_layout(), inst(s), "weapon class"@);
            &&& r@.len() == count_of(b)
            &&& forall|k: int|
                0 <= k < r@.len() ==> weapon_class_matches(
                    s.spec_layout(),
                    element_at(s.spec_layout(), b.unwrap(), k),
                    #[trigger] r@[k],
                )
        }),
{
    let mut out: Vec<GraphWeaponClass> = Vec::new();
    let b = match super::block_named(s, "weapon class") {
        Some(b) => b,
        None => {
            return out;
        },
    };
    let ghost layout = s.spec_layout();
    let n = b.len();
    let mut i: usize = 0;
    while i < n
        invariant
            i <= n,
            n == b.spec_data().elements@.len(),
            b.spec_layout() == layout,
            out@.len() == i,
            forall|k: int|
                0 <= k < i ==> weapon_class_matches(layout, element_at(layout, b.spec_data(), k), #[trigger] out@[k]),
        decreases n - i,
    {
        match b.element(i) {
            Some(e) => {
                let label = read_label(e, "label");
                let weapon_types = read_weapon_types(e);
                out.push(GraphWeaponClass { label, weapon_types });
            },
            None => {},
        }
        i = i + 1;
    }
    out
}

fn read_modes(b: TagBlock) -> (r: Vec<GraphMode>)
    ensures
        r@.len() == b.spec_data().elements@.len(),
        forall|k: int|
            0 <= k < r@.len() ==> mode_matches(b.spec_layout(), element_at(b.spec_layout(), b.spec_data(), k), #[trigger] r@[k]),
{
    let mut out: Vec<GraphMode> = Vec::new();
    let ghost layout = b.spec_layout();
    let n = b.len();
    let mut i: usize = 0;
    while i < n
        invariant
            i <= n,
            n == b.spec_data().elements@.len(),
            b.spec_layout() == layout,
            out@.len() == i,
            forall|k: int| 0 <= k < i ==> mode_matches(layout, element_at(layout, b.spec_data(), k), #[trigger] out@[k]),
        decreases n - i,
    {
        match b.element(i) {
            Some(e) => {
                let label = read_label(e, "label");
                let weapon_classes = read_weapon_classes(e);
                out.push(GraphMode { label, weapon_classes });
            },
            None => {},
        }
        i = i + 1;
    }
    out
}

/// The first entry of `labels` equal to `name`, else the first `any`.
fn pick_index(labels: &Vec<&str>, name: &str) -> (r: Option<usize>)
    ensures
        ({
            let ls = Seq::new(labels@.len(), |k: int| labels@[k]@);
            &&& r is Some <==> pick(ls, name@) is Some
            &&& r matches Some(k) ==> pick(ls, name@) == Some(k as int) && k < labels@.len()
        }),
{
    match find_label(labels, name) {
        Some(k) => Some(k),
        None => find_label(labels, "any"),
    }
}

/// The first entry of `labels` equal to `name`.
fn find_label(labels: &Vec<&str>, name: &str) -> (r: Option<usize>)
    ensures
        ({
            let ls = Seq::new(labels@.len(), |k: int| labels@[k]@);
            &&& r is Some <==> first_label(ls, name@, 0) is Some
            &&& r matches Some(k) ==> first_label(ls, name@, 0) == Some(k as int) && k < labels@.len()
        }),
{
    let ghost ls = Seq::new(labels@.len(), |k: int| labels@[k]@);
    let mut k: usize = 0;
    while k < labels.len()
        invariant
            k <= labels@.len(),
            ls == Seq::new(labels@.len(), |k: int| labels@[k]@),
            first_label(ls, name@, 0) == first_label(ls, name@, k as int),
        decreases labels@.len() - k,
    {
        if str_eq(labels[k], name) {
            return Some(k);
        }
        k = k + 1;
    }
    None
}

impl AnimationGraph {
    /// The graph of a `model_animation_graph` tag.
    pub fn from_tag(tag: &TagFile) -> (r: Self)
        requires
            tag.wf(),
            tag.tag_stream.data.elements@.len() > 0,
        ensures
            ({
                let layout = tag.tag_stream.layout;
                let b = modes_block(layout, super::root_instance(*tag));
                &&& r.modes@.len() == count_of(b)
                &&& forall|k: int|
                    0 <= k < r.modes@.len() ==> mode_matches(layout, element_at(layout, b.unwrap(), k), #[trigger] r.modes@[k])
            }),
    {
        let root = tag.root();
        assert(inst(root) == super::root_instance(*tag));
        Self::from_struct(&root)
    }

    /// The graph under a root struct's `content/modes` block; empty when
    /// the root has none.
    pub fn from_struct(root: &TagStruct) -> (r: Self)
        ensures
            ({
                let layout = root.spec_layout();
                let b = modes_block(layout, inst(*root));
                &&& r.modes@.len() == count_of(b)
                &&& forall|k: int|
                    0 <= k < r.modes@.len() ==> mode_matches(layout, element_at(layout, b.unwrap(), k), #[trigger] r.modes@[k])
            }),
    {
        let content = match super::struct_named(*root, "content") {
            Some(c) => c,
            None => {
                return AnimationGraph { modes: Vec::new() };
            },
        };
        match super::block_named(content, "modes") {
            Some(b) => AnimationGraph { modes: read_modes(b) },
            None => AnimationGraph { modes: Vec::new() },
        }
    }

    /// The animation of `action` under the (mode, weapon class, weapon
    /// type) tuple; each of the three falls back to `any` when no entry
    /// has the exact name, and the action must match exactly.
    pub fn find_action(&self, mode: &str, weapon_class: &str, weapon_type: &str, action: &str) -> (r: Option<
        &GraphActionAnimation,
    >)
        ensures
            match r {
                Some(a) => resolve_action(self.modes@, mode@, weapon_class@, weapon_type@, action@) == Some(*a),
                None => resolve_action(self.modes@, mode@, weapon_class@, weapon_type@, action@) is None,
            },
    {
        let mut labels: Vec<&str> = Vec::new();
        let mut k: usize = 0;
        while k < self.modes.len()
            invariant
                k <= self.modes@.len(),
                labels@.len() == k,
                forall|j: int| 0 <= j < k ==> (#[trigger] labels@[j])@ == self.modes@[j].label@,
            decreases self.modes@.len() - k,
        {
            labels.push(self.modes[k].label.as_str());
            k = k + 1;
        }
        assert(Seq::new(labels@.len(), |j: int| labels@[j]@) =~= mode_labels(self.modes@));
        let mi = match pick_index(&labels, mode) {
            Some(i) => i,
            None => {
                return None;
            },
        };
        let m = &self.modes[mi];
        let mut labels: Vec<&str> = Vec::new();
        let mut k: usize = 0;
        while k < m.weapon_classes.len()
            invariant
                k <= m.weapon_classes@.len(),
                labels@.len() == k,
                forall|j: int| 0 <= j < k ==> (#[trigger] labels@[j])@ == m.weapon_classes@[j].label@,
            decreases m.weapon_classes@.len() - k,
        {
            labels.push(m.weapon_classes[k].label.as_str());
            k = k + 1;
        }
        assert(Seq::new(labels@.len(), |j: int| labels@[j]@) =~= class_labels(m.weapon_classes@));
        let ci = match pick_index(&labels, weapon_class) {
            Some(i) => i,
            None => {
                return None;
            },
        };
        let c = &m.weapon_classes[ci];
        let mut labels: Vec<&str> = Vec::new();
        let mut k: usize = 0;
        while k < c.weapon_types.len()
            invariant
                k <= c.weapon_types@.len(),
                labels@.len() == k,
                forall|j: int| 0 <= j < k ==> (#[trigger] labels@[j])@ == c.weapon_types@[j].label@,
            decreases c.weapon_types@.len() - k,
        {
            labels.push(c.weapon_types[k].label.as_str());
            k = k + 1;
        }
        assert(Seq::new(labels@.len(), |j: int| labels@[j]@) =~= type_labels(c.weapon_types@));
        let ti = match pick_index(&labels, weapon_type) {
            Some(i) => i,
            None => {
                return None;
            },
        };
        let t = &c.weapon_types[ti];
        let mut labels: Vec<&str> = Vec::new();
        let mut k: usize = 0;
        while k < t.actions.len()
            invariant
                k <= t.actions@.len(),
                labels@.len() == k,
                forall|j: int| 0 <= j < k ==> (#[trigger] labels@[j])@ == t.actions@[j].label@,
            decreases t.actions@.len() - k,
        {
            labels.push(t.actions[k].label.as_str());
            k = k + 1;
        }
        assert(Seq::new(labels@.len(), |j: int| labels@[j]@) =~= action_labels(t.actions@));
        match find_label(&labels, action) {
            Some(ai) => Some(&t.actions[ai].animation),
            None => None,
        }
    }

    /// The first action of the first (mode, weapon class, weapon type)
    /// that has one, in declaration order.
    pub fn first_action(&self) -> (r: Option<&GraphActionAnimation>)
        ensures
            match r {
                Some(a) => first_in_modes(self.modes@, 0) == Some(*a),
                None => first_in_modes(self.modes@, 0) is None,
            },
    {
        let mut i: usize = 0;
        while i < self.modes.len()
            invariant
                i <= self.modes@.len(),
                first_in_modes(self.modes@, 0) == first_in_modes(self.modes@, i as int),
            decreases self.modes@.len() - i,
        {
            let cs = &self.modes[i].weapon_classes;
            let mut j: usize = 0;
            while j < cs.len()
                invariant
                    i < self.modes@.len(),
                    cs@ == self.modes@[i as int].weapon_classes@,
                    j <= cs@.len(),
                    first_in_modes(self.modes@, 0) == first_in_modes(self.modes@, i as int),
                    first_in_classes(cs@, 0) == first_in_classes(cs@, j as int),
                decreases cs@.len() - j,
            {
                let ts = &cs[j].weapon_types;
                let mut k: usize = 0;
                while k < ts.len()
                    invariant
                        i < self.modes@.len(),
                        cs@ == self.modes@[i as int].weapon_classes@,
                        j < cs@.len(),
                        ts@ == cs@[j as int].weapon_types@,
                        k <= ts@.len(),
                        first_in_modes(self.modes@, 0) == first_in_modes(self.modes@, i as int),
                        first_in_classes(cs@, 0) == first_in_classes(cs@, j as int),
                        first_in_types(ts@, 0) == first_in_types(ts@, k as int),
                    decreases ts@.len() - k,
                {
                    if ts[k].actions.len() > 0 {
                        return Some(&ts[k].actions[0].animation);
                    }
                    k = k + 1;
                }
                j = j + 1;
            }
            i = i + 1;
        }
        None
    }
}

impl GraphActionAnimation {
    /// Whether the reference resolves in this tag's own animations.
    pub fn is_local(&self) -> (r: bool)
        ensures
            r == (self.graph_index < 0),
    {
        self.graph_index < 0
    }
}

} // verus!
