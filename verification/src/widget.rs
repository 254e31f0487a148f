use vstd::prelude::*;
use vstd::string::StrSliceExecFns;

use crate::flags::{ChangeFlags, PodFlags};
use crate::geometry::{
    add_sat, add_sat_spec, clamp, clamp_spec, sub_sat, sub_sat_spec, BoxConstraints, Point, Size,
};
use crate::ident::NodeId;
use crate::style::{BorderStyle, Style};

verus! {

/// A typed input notification, decoded outside the core and handed in as a
/// plain value.
#[derive(Clone, Copy, PartialEq, Eq, Structural, Debug)]
pub enum Event {
    Start,
    Quit,
    Wake,
    FocusGained,
    FocusLost,
    Resize { width: u16, height: u16 },
    Key { code: u32 },
    Mouse { down: bool, x: u16, y: u16 },
}

/// What an addressed message carries.
#[derive(Clone, Copy, PartialEq, Eq, Structural, Debug)]
pub enum MessageBody {
    /// An asynchronous operation addressed at the path has completed.
    Wake,
    /// The node at the path was clicked.
    Click,
}

/// A message addressed to one node, by its root-to-node identity path.
#[derive(Clone, Debug)]
pub struct Message {
    pub id_path: Vec<NodeId>,
    pub body: MessageBody,
}

/// The variant a view or widget node is of. The retained root widget must
/// keep its kind for the process's lifetime.
#[derive(Clone, Copy, PartialEq, Eq, Structural, Debug)]
pub enum NodeKind {
    Text,
    Margin,
    Border,
    Column,
    OnClick,
    Suspend,
}

/// The mutable metadata of one retained widget node.
#[derive(Clone, Copy, PartialEq, Eq, Structural, Debug)]
pub struct WidgetState {
    pub flags: PodFlags,
    pub size: Size,
    pub origin: Point,
}

impl WidgetState {
    pub fn new() -> (s: WidgetState)
        ensures
            s == (WidgetState {
                flags: PodFlags::init_spec(),
                size: Size { width: 0, height: 0 },
                origin: Point { x: 0, y: 0 },
            }),
    {
        WidgetState {
            flags: PodFlags::init(),
            size: Size { width: 0, height: 0 },
            origin: Point { x: 0, y: 0 },
        }
    }
}

/// A concrete renderable, from the closed set of widget kinds.
pub enum Widget {
    Text { text: String, style: Style },
    Margin { amount: u16, child: Box<Pod> },
    Border { style: BorderStyle, child: Box<Pod> },
    Column { children: Vec<Pod> },
    OnClick { action: u64, id_path: Vec<NodeId>, child: Box<Pod> },
    Suspend { ready: bool, text: String },
}

/// A retained widget node: a renderable plus its node-state record.
pub struct Pod {
    pub state: WidgetState,
    pub widget: Widget,
}

/// One emitted piece of visual content, in absolute cells.
pub enum DrawContent {
    TextRun { text: String, style: Style },
    Frame { style: BorderStyle },
}

pub struct DrawCmd {
    pub origin: Point,
    pub size: Size,
    pub content: DrawContent,
}

pub open spec fn widget_kind(w: Widget) -> NodeKind {
    match w {
        Widget::Text { .. } => NodeKind::Text,
        Widget::Margin { .. } => NodeKind::Margin,
        Widget::Border { .. } => NodeKind::Border,
        Widget::Column { .. } => NodeKind::Column,
        Widget::OnClick { .. } => NodeKind::OnClick,
        Widget::Suspend { .. } => NodeKind::Suspend,
    }
}

impl Pod {
    /// Wrap a freshly built widget; every pass must visit it once.
    pub fn new(widget: Widget) -> (p: Pod)
        ensures
            p.widget == widget,
            p.state == (WidgetState {
                flags: PodFlags::init_spec(),
                size: Size { width: 0, height: 0 },
                origin: Point { x: 0, y: 0 },
            }),
    {
        Pod { state: WidgetState::new(), widget }
    }

    pub fn kind(&self) -> (k: NodeKind)
        ensures
            k == widget_kind(self.widget),
    {
        match &self.widget {
            Widget::Text { .. } => NodeKind::Text,
            Widget::Margin { .. } => NodeKind::Margin,
            Widget::Border { .. } => NodeKind::Border,
            Widget::Column { .. } => NodeKind::Column,
            Widget::OnClick { .. } => NodeKind::OnClick,
            Widget::Suspend { .. } => NodeKind::Suspend,
        }
    }

    /// Raise the flags a rebuild reported on this node, so that they stay
    /// observable here until the owning pass clears them.
    pub fn mark(&mut self, changes: ChangeFlags) -> (r: ChangeFlags)
        ensures
            final(self).widget == old(self).widget,
            final(self).state.size == old(self).state.size,
            final(self).state.origin == old(self).state.origin,
            final(self).state.flags == old(self).state.flags.merge_change_spec(changes),
            r == changes,
    {
        self.state.flags = self.state.flags.merge_change(changes);
        changes
    }
}

/// Every flag raised anywhere below `p` is also raised on `p` itself: the
/// root sees the whole tree's outstanding work.
pub open spec fn flags_cover(p: Pod) -> bool
    decreases p,
{
    match p.widget {
        Widget::Text { .. } => true,
        Widget::Suspend { .. } => true,
        Widget::Margin { child, .. } => flags_cover(*child) && p.state.flags.covers(
            child.state.flags,
        ),
        Widget::Border { child, .. } => flags_cover(*child) && p.state.flags.covers(
            child.state.flags,
        ),
        Widget::OnClick { child, .. } => flags_cover(*child) && p.state.flags.covers(
            child.state.flags,
        ),
        Widget::Column { children } => flags_cover_seq(children@, p.state.flags),
    }
}

pub open spec fn flags_cover_seq(s: Seq<Pod>, f: PodFlags) -> bool
    decreases s,
{
    s.len() == 0 || (flags_cover(s[0]) && f.covers(s[0].state.flags) && flags_cover_seq(
        s.drop_first(),
        f,
    ))
}

/// The union of every flag raised anywhere in the subtree.
pub open spec fn raised_below(p: Pod) -> PodFlags
    decreases p,
{
    p.state.flags.union_spec(
        match p.widget {
            Widget::Text { .. } => PodFlags::clear_spec(),
            Widget::Suspend { .. } => PodFlags::clear_spec(),
            Widget::Margin { child, .. } => raised_below(*child),
            Widget::Border { child, .. } => raised_below(*child),
            Widget::OnClick { child, .. } => raised_below(*child),
            Widget::Column { children } => raised_below_seq(children@),
        },
    )
}

pub open spec fn raised_below_seq(s: Seq<Pod>) -> PodFlags
    decreases s,
{
    if s.len() == 0 {
        PodFlags::clear_spec()
    } else {
        raised_below(s[0]).union_spec(raised_below_seq(s.drop_first()))
    }
}

/// Any flag raised anywhere below a well-propagated root is raised on the
/// root itself: no pass can miss outstanding work by looking only there.
pub proof fn lemma_root_observes_subtree(p: Pod)
    requires
        flags_cover(p),
    ensures
        p.state.flags.covers(raised_below(p)),
    decreases p,
{
    match p.widget {
        Widget::Text { .. } => {},
        Widget::Suspend { .. } => {},
        Widget::Margin { child, .. } => {
            lemma_root_observes_subtree(*child);
        },
        Widget::Border { child, .. } => {
            lemma_root_observes_subtree(*child);
        },
        Widget::OnClick { child, .. } => {
            lemma_root_observes_subtree(*child);
        },
        Widget::Column { children } => {
            lemma_root_observes_seq(children@, p.state.flags);
        },
    }
}

proof fn lemma_root_observes_seq(s: Seq<Pod>, f: PodFlags)
    requires
        flags_cover_seq(s, f),
    ensures
        f.covers(raised_below_seq(s)),
    decreases s,
{
    if s.len() > 0 {
        lemma_root_observes_subtree(s[0]);
        lemma_root_observes_seq(s.drop_first(), f);
    }
}

/// Upward propagation survives raising the root's flags further.
pub proof fn lemma_cover_seq_mono(s: Seq<Pod>, f1: PodFlags, f2: PodFlags)
    requires
        flags_cover_seq(s, f1),
        f2.covers(f1),
    ensures
        flags_cover_seq(s, f2),
    decreases s,
{
    if s.len() > 0 {
        lemma_cover_seq_mono(s.drop_first(), f1, f2);
    }
}

/// Raising flags on the root alone keeps upward propagation intact.
pub proof fn lemma_cover_root_mono(p: Pod, f2: PodFlags)
    requires
        flags_cover(p),
        f2.covers(p.state.flags),
    ensures
        flags_cover(Pod { state: WidgetState { flags: f2, ..p.state }, widget: p.widget }),
{
    let q = Pod { state: WidgetState { flags: f2, ..p.state }, widget: p.widget };
    match p.widget {
        Widget::Column { children } => {
            lemma_cover_seq_mono(children@, p.state.flags, f2);
            assert(flags_cover(q));
        },
        _ => {
            assert(flags_cover(q));
        },
    }
}

/// The size a node answers under constraints `bc`, as a pure function of its
/// content. Layout writes exactly this into the node's state.
pub open spec fn measured(p: Pod, bc: BoxConstraints) -> Size
    decreases p,
{
    match p.widget {
        Widget::Text { text, .. } => text_size_spec(text@.len(), bc),
        Widget::Suspend { ready, text } => if ready {
            text_size_spec(text@.len(), bc)
        } else {
            Size {
                width: clamp_spec(0, bc.min.width, bc.max.width),
                height: clamp_spec(0, bc.min.height, bc.max.height),
            }
        },
        Widget::Margin { amount, child } => grow_clamp(
            measured(*child, shrink_bc(bc, amount)),
            amount,
            bc,
        ),
        Widget::Border { child, .. } => grow_clamp(measured(*child, shrink_bc(bc, 1)), 1, bc),
        Widget::OnClick { child, .. } => measured(*child, bc),
        Widget::Column { children } => {
            let stacked = stacked_measure(children@, column_child_bc(bc));
            Size {
                width: clamp_spec(stacked.width, bc.min.width, bc.max.width),
                height: clamp_spec(stacked.height, bc.min.height, bc.max.height),
            }
        },
    }
}

/// The unclamped extent of a column's children: widest child by saturated
/// sum of heights.
pub open spec fn stacked_measure(s: Seq<Pod>, bc: BoxConstraints) -> Size
    decreases s,
{
    if s.len() == 0 {
        Size { width: 0, height: 0 }
    } else {
        let first = measured(s[0], bc);
        let rest = stacked_measure(s.drop_first(), bc);
        Size {
            width: if first.width > rest.width {
                first.width
            } else {
                rest.width
            },
            height: add_sat_spec(first.height, rest.height),
        }
    }
}

pub open spec fn text_size_spec(chars: nat, bc: BoxConstraints) -> Size {
    Size {
        width: clamp_spec(len16(chars), bc.min.width, bc.max.width),
        height: clamp_spec(1, bc.min.height, bc.max.height),
    }
}

/// `n` forced into a cell count.
pub open spec fn len16(n: nat) -> u16 {
    if n > u16::MAX {
        u16::MAX
    } else {
        n as u16
    }
}

/// The constraints a margin of `amount` cells hands its child.
pub open spec fn shrink_bc(bc: BoxConstraints, amount: u16) -> BoxConstraints {
    BoxConstraints {
        min: Size { width: 0, height: 0 },
        max: Size {
            width: sub_sat_spec(bc.max.width, add_sat_spec(amount, amount)),
            height: sub_sat_spec(bc.max.height, add_sat_spec(amount, amount)),
        },
    }
}

pub open spec fn grow_clamp(inner: Size, amount: u16, bc: BoxConstraints) -> Size {
    Size {
        width: clamp_spec(
            add_sat_spec(inner.width, add_sat_spec(amount, amount)),
            bc.min.width,
            bc.max.width,
        ),
        height: clamp_spec(
            add_sat_spec(inner.height, add_sat_spec(amount, amount)),
            bc.min.height,
            bc.max.height,
        ),
    }
}

/// `f` with the bits the layout pass owns cleared.
pub open spec fn clear_layout_bits(f: PodFlags) -> PodFlags {
    PodFlags { request_layout: false, tree_changed: false, ..f }
}

/// The constraints a column hands each of its children.
pub open spec fn column_child_bc(bc: BoxConstraints) -> BoxConstraints {
    BoxConstraints { min: Size { width: 0, height: 0 }, max: bc.max }
}

/// How a layout pass under `bc` relates the tree before (`p`) to the tree
/// after (`q`): content and origins are untouched, every node's size is
/// recomputed from content alone, and the layout-owned flags are cleared in
/// the whole subtree while the others are kept.
pub open spec fn layout_rel(p: Pod, q: Pod, bc: BoxConstraints) -> bool
    decreases p,
{
    q.state.size == measured(p, bc) && q.state.origin == p.state.origin && q.state.flags
        == clear_layout_bits(p.state.flags) && match (p.widget, q.widget) {
        (Widget::Text { text: t1, style: s1 }, Widget::Text { text: t2, style: s2 }) => t1 == t2
            && s1 == s2,
        (
            Widget::Suspend { ready: r1, text: t1 },
            Widget::Suspend { ready: r2, text: t2 },
        ) => r1 == r2 && t1 == t2,
        (
            Widget::Margin { amount: a1, child: c1 },
            Widget::Margin { amount: a2, child: c2 },
        ) => a1 == a2 && layout_rel(*c1, *c2, shrink_bc(bc, a1)),
        (
            Widget::Border { style: s1, child: c1 },
            Widget::Border { style: s2, child: c2 },
        ) => s1 == s2 && layout_rel(*c1, *c2, shrink_bc(bc, 1)),
        (
            Widget::OnClick { action: a1, id_path: i1, child: c1 },
            Widget::OnClick { action: a2, id_path: i2, child: c2 },
        ) => a1 == a2 && i1@ == i2@ && layout_rel(*c1, *c2, bc),
        (
            Widget::Column { children: k1 },
            Widget::Column { children: k2 },
        ) => layout_rel_seq(k1@, k2@, column_child_bc(bc)),
        _ => false,
    }
}

pub open spec fn layout_rel_seq(s1: Seq<Pod>, s2: Seq<Pod>, bc: BoxConstraints) -> bool
    decreases s1,
{
    s1.len() == s2.len() && (s1.len() == 0 || (layout_rel(s1[0], s2[0], bc) && layout_rel_seq(
        s1.drop_first(),
        s2.drop_first(),
        bc,
    )))
}

/// Layout leaves content in place, so a second pass under any constraints
/// measures the same sizes as the first.
pub proof fn lemma_layout_preserves_measure(p: Pod, q: Pod, bc: BoxConstraints, bc2: BoxConstraints)
    requires
        layout_rel(p, q, bc),
    ensures
        measured(q, bc2) == measured(p, bc2),
    decreases p,
{
    match (p.widget, q.widget) {
        (Widget::Margin { amount: a1, child: c1 }, Widget::Margin { amount: a2, child: c2 }) => {
            lemma_layout_preserves_measure(*c1, *c2, shrink_bc(bc, a1), shrink_bc(bc2, a2));
        },
        (Widget::Border { child: c1, .. }, Widget::Border { child: c2, .. }) => {
            lemma_layout_preserves_measure(*c1, *c2, shrink_bc(bc, 1), shrink_bc(bc2, 1));
        },
        (Widget::OnClick { child: c1, .. }, Widget::OnClick { child: c2, .. }) => {
            lemma_layout_preserves_measure(*c1, *c2, bc, bc2);
        },
        (Widget::Column { children: k1 }, Widget::Column { children: k2 }) => {
            lemma_layout_preserves_stacked(
                k1@,
                k2@,
                column_child_bc(bc),
                column_child_bc(bc2),
            );
        },
        _ => {},
    }
}

proof fn lemma_layout_preserves_stacked(
    s1: Seq<Pod>,
    s2: Seq<Pod>,
    bc: BoxConstraints,
    bc2: BoxConstraints,
)
    requires
        layout_rel_seq(s1, s2, bc),
    ensures
        stacked_measure(s2, bc2) == stacked_measure(s1, bc2),
    decreases s1,
{
    if s1.len() > 0 {
        lemma_layout_preserves_measure(s1[0], s2[0], bc, bc2);
        lemma_layout_preserves_stacked(s1.drop_first(), s2.drop_first(), bc, bc2);
    }
}

/// Layout is idempotent: a second pass under the same constraints answers
/// the same size and leaves every layout-owned flag clear.
pub proof fn lemma_layout_idempotent(p: Pod, q: Pod, r: Pod, bc: BoxConstraints)
    requires
        layout_rel(p, q, bc),
        layout_rel(q, r, bc),
    ensures
        r.state.size == q.state.size,
        r.state.origin == q.state.origin,
        r.state.flags == q.state.flags,
        !q.state.flags.request_layout && !q.state.flags.tree_changed,
{
    lemma_layout_preserves_measure(p, q, bc, bc);
}

/// A layout pass leaves the layout-owned flags clear in the whole subtree.
pub proof fn lemma_layout_clears_subtree(p: Pod, q: Pod, bc: BoxConstraints)
    requires
        layout_rel(p, q, bc),
    ensures
        !raised_below(q).request_layout,
        !raised_below(q).tree_changed,
        raised_below(q).request_paint == raised_below(p).request_paint,
        raised_below(q).view_context_changed == raised_below(p).view_context_changed,
    decreases p,
{
    reveal_with_fuel(raised_below, 2);
    match (p.widget, q.widget) {
        (Widget::Margin { amount: a1, child: c1 }, Widget::Margin { child: c2, .. }) => {
            lemma_layout_clears_subtree(*c1, *c2, shrink_bc(bc, a1));
        },
        (Widget::Border { child: c1, .. }, Widget::Border { child: c2, .. }) => {
            lemma_layout_clears_subtree(*c1, *c2, shrink_bc(bc, 1));
        },
        (Widget::OnClick { child: c1, .. }, Widget::OnClick { child: c2, .. }) => {
            lemma_layout_clears_subtree(*c1, *c2, bc);
        },
        (Widget::Column { children: k1 }, Widget::Column { children: k2 }) => {
            lemma_layout_clears_subtree_seq(k1@, k2@, column_child_bc(bc));
        },
        _ => {},
    }
}

proof fn lemma_layout_clears_subtree_seq(s1: Seq<Pod>, s2: Seq<Pod>, bc: BoxConstraints)
    requires
        layout_rel_seq(s1, s2, bc),
    ensures
        !raised_below_seq(s2).request_layout,
        !raised_below_seq(s2).tree_changed,
        raised_below_seq(s2).request_paint == raised_below_seq(s1).request_paint,
        raised_below_seq(s2).view_context_changed == raised_below_seq(s1).view_context_changed,
    decreases s1,
{
    reveal_with_fuel(raised_below_seq, 2);
    if s1.len() > 0 {
        lemma_layout_clears_subtree(s1[0], s2[0], bc);
        lemma_layout_clears_subtree_seq(s1.drop_first(), s2.drop_first(), bc);
    }
}

/// A layout pass keeps upward flag propagation intact.
pub proof fn lemma_layout_keeps_cover(p: Pod, q: Pod, bc: BoxConstraints)
    requires
        layout_rel(p, q, bc),
        flags_cover(p),
    ensures
        flags_cover(q),
    decreases p,
{
    reveal_with_fuel(layout_rel, 2);
    reveal_with_fuel(flags_cover, 2);
    match (p.widget, q.widget) {
        (Widget::Margin { amount: a1, child: c1 }, Widget::Margin { child: c2, .. }) => {
            lemma_layout_keeps_cover(*c1, *c2, shrink_bc(bc, a1));
        },
        (Widget::Border { child: c1, .. }, Widget::Border { child: c2, .. }) => {
            lemma_layout_keeps_cover(*c1, *c2, shrink_bc(bc, 1));
        },
        (Widget::OnClick { child: c1, .. }, Widget::OnClick { child: c2, .. }) => {
            lemma_layout_keeps_cover(*c1, *c2, bc);
        },
        (Widget::Column { children: k1 }, Widget::Column { children: k2 }) => {
            lemma_layout_keeps_cover_seq(
                k1@,
                k2@,
                column_child_bc(bc),
                p.state.flags,
                q.state.flags,
            );
        },
        _ => {},
    }
}

proof fn lemma_layout_keeps_cover_seq(
    s1: Seq<Pod>,
    s2: Seq<Pod>,
    bc: BoxConstraints,
    f1: PodFlags,
    f2: PodFlags,
)
    requires
        layout_rel_seq(s1, s2, bc),
        flags_cover_seq(s1, f1),
        f2 == clear_layout_bits(f1),
    ensures
        flags_cover_seq(s2, f2),
    decreases s1,
{
    reveal_with_fuel(layout_rel, 2);
    reveal_with_fuel(layout_rel_seq, 2);
    reveal_with_fuel(flags_cover_seq, 2);
    if s1.len() > 0 {
        lemma_layout_keeps_cover(s1[0], s2[0], bc);
        lemma_layout_keeps_cover_seq(s1.drop_first(), s2.drop_first(), bc, f1, f2);
    }
}

impl Pod {
    /// Recompute this subtree's sizes under `bc`. Pure in the content:
    /// the answered size is `measured(self, bc)`, a function of constraints
    /// and content alone, and the layout-owned flags come back cleared.
    pub fn layout(self, bc: &BoxConstraints) -> (r: Pod)
        ensures
            layout_rel(self, r, *bc),
        decreases self,
    {
        let st = self.state;
        match self.widget {
            Widget::Text { text, style } => {
                let size = text_measure(&text, bc);
                Pod {
                    state: WidgetState {
                        flags: clear_layout_exec(st.flags),
                        size,
                        origin: st.origin,
                    },
                    widget: Widget::Text { text, style },
                }
            },
            Widget::Suspend { ready, text } => {
                let size = if ready {
                    text_measure(&text, bc)
                } else {
                    Size {
                        width: clamp(0, bc.min.width, bc.max.width),
                        height: clamp(0, bc.min.height, bc.max.height),
                    }
                };
                Pod {
                    state: WidgetState {
                        flags: clear_layout_exec(st.flags),
                        size,
                        origin: st.origin,
                    },
                    widget: Widget::Suspend { ready, text },
                }
            },
            Widget::Margin { amount, child } => {
                let c = (*child).layout(&shrink_exec(bc, amount));
                let size = grow_exec(c.state.size, amount, bc);
                Pod {
                    state: WidgetState {
                        flags: clear_layout_exec(st.flags),
                        size,
                        origin: st.origin,
                    },
                    widget: Widget::Margin { amount, child: Box::new(c) },
                }
            },
            Widget::Border { style, child } => {
                let c = (*child).layout(&shrink_exec(bc, 1));
                let size = grow_exec(c.state.size, 1, bc);
                Pod {
                    state: WidgetState {
                        flags: clear_layout_exec(st.flags),
                        size,
                        origin: st.origin,
                    },
                    widget: Widget::Border { style, child: Box::new(c) },
                }
            },
            Widget::OnClick { action, id_path, child } => {
                let c = (*child).layout(bc);
                let size = c.state.size;
                Pod {
                    state: WidgetState {
                        flags: clear_layout_exec(st.flags),
                        size,
                        origin: st.origin,
                    },
                    widget: Widget::OnClick { action, id_path, child: Box::new(c) },
                }
            },
            Widget::Column { children } => {
                let cbc = BoxConstraints {
                    min: Size { width: 0, height: 0 },
                    max: bc.max,
                };
                let (kids, stacked) = layout_children(children, &cbc);
                let size = Size {
                    width: clamp(stacked.width, bc.min.width, bc.max.width),
                    height: clamp(stacked.height, bc.min.height, bc.max.height),
                };
                Pod {
                    state: WidgetState {
                        flags: clear_layout_exec(st.flags),
                        size,
                        origin: st.origin,
                    },
                    widget: Widget::Column { children: kids },
                }
            },
        }
    }
}

fn text_measure(text: &String, bc: &BoxConstraints) -> (s: Size)
    ensures
        s == text_size_spec(text@.len(), *bc),
{
    let n = text.as_str().unicode_len();
    let w: u16 = if n > u16::MAX as usize {
        u16::MAX
    } else {
        n as u16
    };
    Size {
        width: clamp(w, bc.min.width, bc.max.width),
        height: clamp(1, bc.min.height, bc.max.height),
    }
}

fn clear_layout_exec(f: PodFlags) -> (r: PodFlags)
    ensures
        r == clear_layout_bits(f),
{
    PodFlags { request_layout: false, tree_changed: false, ..f }
}

fn shrink_exec(bc: &BoxConstraints, amount: u16) -> (r: BoxConstraints)
    ensures
        r == shrink_bc(*bc, amount),
{
    let twice = add_sat(amount, amount);
    BoxConstraints {
        min: Size { width: 0, height: 0 },
        max: Size {
            width: sub_sat(bc.max.width, twice),
            height: sub_sat(bc.max.height, twice),
        },
    }
}

fn grow_exec(inner: Size, amount: u16, bc: &BoxConstraints) -> (r: Size)
    ensures
        r == grow_clamp(inner, amount, *bc),
{
    let twice = add_sat(amount, amount);
    Size {
        width: clamp(add_sat(inner.width, twice), bc.min.width, bc.max.width),
        height: clamp(add_sat(inner.height, twice), bc.min.height, bc.max.height),
    }
}

/// How a positioning pass relates the tree before (`p`) to the tree after
/// (`q`): content, sizes and the other flags are untouched, every node's
/// origin is assigned from its parent, and `view-context-changed` is raised
/// on every node whose origin moved and on its ancestors.
pub open spec fn origin_rel(p: Pod, q: Pod, o: Point) -> bool
    decreases p,
{
    q.state.origin == o && q.state.size == p.state.size && match (p.widget, q.widget) {
        (Widget::Text { text: t1, style: s1 }, Widget::Text { text: t2, style: s2 }) => t1 == t2
            && s1 == s2 && q.state.flags == vc_raised(p.state.flags, moved(p, o)),
        (
            Widget::Suspend { ready: r1, text: t1 },
            Widget::Suspend { ready: r2, text: t2 },
        ) => r1 == r2 && t1 == t2 && q.state.flags == vc_raised(p.state.flags, moved(p, o)),
        (
            Widget::Margin { amount: a1, child: c1 },
            Widget::Margin { amount: a2, child: c2 },
        ) => a1 == a2 && origin_rel(
            *c1,
            *c2,
            Point { x: add_sat_spec(o.x, a1), y: add_sat_spec(o.y, a1) },
        ) && q.state.flags == vc_raised(
            p.state.flags,
            moved(p, o) || c2.state.flags.view_context_changed,
        ),
        (
            Widget::Border { style: s1, child: c1 },
            Widget::Border { style: s2, child: c2 },
        ) => s1 == s2 && origin_rel(
            *c1,
            *c2,
            Point { x: add_sat_spec(o.x, 1), y: add_sat_spec(o.y, 1) },
        ) && q.state.flags == vc_raised(
            p.state.flags,
            moved(p, o) || c2.state.flags.view_context_changed,
        ),
        (
            Widget::OnClick { action: a1, id_path: i1, child: c1 },
            Widget::OnClick { action: a2, id_path: i2, child: c2 },
        ) => a1 == a2 && i1@ == i2@ && origin_rel(*c1, *c2, o) && q.state.flags == vc_raised(
            p.state.flags,
            moved(p, o) || c2.state.flags.view_context_changed,
        ),
        (
            Widget::Column { children: k1 },
            Widget::Column { children: k2 },
        ) => origin_rel_seq(k1@, k2@, o) && q.state.flags == vc_raised(
            p.state.flags,
            moved(p, o) || any_vc(k2@),
        ),
        _ => false,
    }
}

/// Whether assigning origin `o` moves the node.
pub open spec fn moved(p: Pod, o: Point) -> bool {
    o != p.state.origin
}

pub open spec fn vc_raised(f: PodFlags, raise: bool) -> PodFlags {
    PodFlags { view_context_changed: f.view_context_changed || raise, ..f }
}

/// Column children are stacked top to bottom at their laid-out heights.
pub open spec fn origin_rel_seq(s1: Seq<Pod>, s2: Seq<Pod>, o: Point) -> bool
    decreases s1,
{
    s1.len() == s2.len() && (s1.len() == 0 || (origin_rel(s1[0], s2[0], o) && origin_rel_seq(
        s1.drop_first(),
        s2.drop_first(),
        Point { x: o.x, y: add_sat_spec(o.y, s1[0].state.size.height) },
    )))
}

pub open spec fn any_vc(s: Seq<Pod>) -> bool
    decreases s,
{
    s.len() > 0 && (s[0].state.flags.view_context_changed || any_vc(s.drop_first()))
}

/// A positioning pass keeps upward flag propagation intact.
pub proof fn lemma_origin_keeps_cover(p: Pod, q: Pod, o: Point)
    requires
        origin_rel(p, q, o),
        flags_cover(p),
    ensures
        flags_cover(q),
        q.state.flags.covers(p.state.flags),
        raised_below(q).request_layout == raised_below(p).request_layout,
        raised_below(q).request_paint == raised_below(p).request_paint,
        raised_below(q).tree_changed == raised_below(p).tree_changed,
    decreases p,
{
    reveal_with_fuel(origin_rel, 2);
    reveal_with_fuel(flags_cover, 2);
    reveal_with_fuel(raised_below, 2);
    match (p.widget, q.widget) {
        (Widget::Margin { amount: a1, child: c1 }, Widget::Margin { child: c2, .. }) => {
            lemma_origin_keeps_cover(
                *c1,
                *c2,
                Point { x: add_sat_spec(o.x, a1), y: add_sat_spec(o.y, a1) },
            );
        },
        (Widget::Border { child: c1, .. }, Widget::Border { child: c2, .. }) => {
            lemma_origin_keeps_cover(
                *c1,
                *c2,
                Point { x: add_sat_spec(o.x, 1), y: add_sat_spec(o.y, 1) },
            );
        },
        (Widget::OnClick { child: c1, .. }, Widget::OnClick { child: c2, .. }) => {
            lemma_origin_keeps_cover(*c1, *c2, o);
        },
        (Widget::Column { children: k1 }, Widget::Column { children: k2 }) => {
            lemma_origin_keeps_cover_seq(k1@, k2@, o, p.state.flags, q.state.flags);
        },
        _ => {},
    }
}

proof fn lemma_origin_keeps_cover_seq(s1: Seq<Pod>, s2: Seq<Pod>, o: Point, f1: PodFlags, f2: PodFlags)
    requires
        origin_rel_seq(s1, s2, o),
        flags_cover_seq(s1, f1),
        f2.covers(f1),
        any_vc(s2) ==> f2.view_context_changed,
    ensures
        flags_cover_seq(s2, f2),
        raised_below_seq(s2).request_layout == raised_below_seq(s1).request_layout,
        raised_below_seq(s2).request_paint == raised_below_seq(s1).request_paint,
        raised_below_seq(s2).tree_changed == raised_below_seq(s1).tree_changed,
    decreases s1,
{
    reveal_with_fuel(origin_rel, 2);
    reveal_with_fuel(origin_rel_seq, 2);
    reveal_with_fuel(flags_cover_seq, 2);
    reveal_with_fuel(any_vc, 2);
    reveal_with_fuel(raised_below_seq, 2);
    if s1.len() > 0 {
        lemma_origin_keeps_cover(s1[0], s2[0], o);
        lemma_origin_keeps_cover_seq(
            s1.drop_first(),
            s2.drop_first(),
            Point { x: o.x, y: add_sat_spec(o.y, s1[0].state.size.height) },
            f1,
            f2,
        );
        assert(s2[0].state.flags.view_context_changed ==> any_vc(s2));
        assert(forall|i: int| 0 <= i < s2.drop_first().len() ==> s2.drop_first()[i] == s2[i + 1]);
        assert(any_vc(s2.drop_first()) ==> any_vc(s2));
    }
}

/// A ghost image of one emitted draw command.
pub enum CmdModel {
    TextRun { origin: Point, size: Size, text: Seq<char>, style: Style },
    Frame { origin: Point, size: Size, style: BorderStyle },
}

pub open spec fn cmd_model(c: DrawCmd) -> CmdModel {
    match c.content {
        DrawContent::TextRun { text, style } => CmdModel::TextRun {
            origin: c.origin,
            size: c.size,
            text: text@,
            style,
        },
        DrawContent::Frame { style } => CmdModel::Frame {
            origin: c.origin,
            size: c.size,
            style,
        },
    }
}

pub open spec fn cmd_models(s: Seq<DrawCmd>) -> Seq<CmdModel> {
    Seq::new(s.len(), |i: int| cmd_model(s[i]))
}

/// Everything the subtree draws, in painter's order: a node first, its
/// children above it.
pub open spec fn paint_cmds(p: Pod) -> Seq<CmdModel>
    decreases p,
{
    match p.widget {
        Widget::Text { text, style } => seq![
            CmdModel::TextRun {
                origin: p.state.origin,
                size: p.state.size,
                text: text@,
                style,
            },
        ],
        Widget::Suspend { ready, text } => if ready {
            seq![
                CmdModel::TextRun {
                    origin: p.state.origin,
                    size: p.state.size,
                    text: text@,
                    style: Style { fg: crate::style::Color::Reset, bg: crate::style::Color::Reset },
                },
            ]
        } else {
            Seq::empty()
        },
        Widget::Margin { child, .. } => paint_cmds(*child),
        Widget::Border { style, child } => seq![
            CmdModel::Frame { origin: p.state.origin, size: p.state.size, style },
        ] + paint_cmds(*child),
        Widget::OnClick { child, .. } => paint_cmds(*child),
        Widget::Column { children } => paint_cmds_seq(children@),
    }
}

pub open spec fn paint_cmds_seq(s: Seq<Pod>) -> Seq<CmdModel>
    decreases s,
{
    if s.len() == 0 {
        Seq::empty()
    } else {
        paint_cmds(s[0]) + paint_cmds_seq(s.drop_first())
    }
}

/// How a paint pass relates the tree before to the tree after: everything is
/// kept except that `needs-paint` is cleared in the whole subtree.
pub open spec fn painted_rel(p: Pod, q: Pod) -> bool
    decreases p,
{
    q.state.size == p.state.size && q.state.origin == p.state.origin && q.state.flags
        == clear_paint_bit(p.state.flags) && match (p.widget, q.widget) {
        (Widget::Text { text: t1, style: s1 }, Widget::Text { text: t2, style: s2 }) => t1 == t2
            && s1 == s2,
        (
            Widget::Suspend { ready: r1, text: t1 },
            Widget::Suspend { ready: r2, text: t2 },
        ) => r1 == r2 && t1 == t2,
        (
            Widget::Margin { amount: a1, child: c1 },
            Widget::Margin { amount: a2, child: c2 },
        ) => a1 == a2 && painted_rel(*c1, *c2),
        (
            Widget::Border { style: s1, child: c1 },
            Widget::Border { style: s2, child: c2 },
        ) => s1 == s2 && painted_rel(*c1, *c2),
        (
            Widget::OnClick { action: a1, id_path: i1, child: c1 },
            Widget::OnClick { action: a2, id_path: i2, child: c2 },
        ) => a1 == a2 && i1@ == i2@ && painted_rel(*c1, *c2),
        (Widget::Column { children: k1 }, Widget::Column { children: k2 }) => painted_rel_seq(
            k1@,
            k2@,
        ),
        _ => false,
    }
}

pub open spec fn clear_paint_bit(f: PodFlags) -> PodFlags {
    PodFlags { request_paint: false, ..f }
}

pub open spec fn painted_rel_seq(s1: Seq<Pod>, s2: Seq<Pod>) -> bool
    decreases s1,
{
    s1.len() == s2.len() && (s1.len() == 0 || (painted_rel(s1[0], s2[0]) && painted_rel_seq(
        s1.drop_first(),
        s2.drop_first(),
    )))
}

/// A paint pass leaves `needs-paint` clear in the whole subtree and keeps
/// upward flag propagation intact.
pub proof fn lemma_paint_clears_and_keeps_cover(p: Pod, q: Pod)
    requires
        painted_rel(p, q),
    ensures
        !raised_below(q).request_paint,
        flags_cover(p) ==> flags_cover(q),
        raised_below(q).request_layout == raised_below(p).request_layout,
        raised_below(q).tree_changed == raised_below(p).tree_changed,
        raised_below(q).view_context_changed == raised_below(p).view_context_changed,
    decreases p,
{
    reveal_with_fuel(painted_rel, 2);
    reveal_with_fuel(flags_cover, 2);
    reveal_with_fuel(raised_below, 2);
    match (p.widget, q.widget) {
        (Widget::Margin { child: c1, .. }, Widget::Margin { child: c2, .. }) => {
            lemma_paint_clears_and_keeps_cover(*c1, *c2);
        },
        (Widget::Border { child: c1, .. }, Widget::Border { child: c2, .. }) => {
            lemma_paint_clears_and_keeps_cover(*c1, *c2);
        },
        (Widget::OnClick { child: c1, .. }, Widget::OnClick { child: c2, .. }) => {
            lemma_paint_clears_and_keeps_cover(*c1, *c2);
        },
        (Widget::Column { children: k1 }, Widget::Column { children: k2 }) => {
            lemma_paint_seq(k1@, k2@, p.state.flags, q.state.flags);
        },
        _ => {},
    }
}

proof fn lemma_paint_seq(s1: Seq<Pod>, s2: Seq<Pod>, f1: PodFlags, f2: PodFlags)
    requires
        painted_rel_seq(s1, s2),
        f2 == clear_paint_bit(f1),
    ensures
        !raised_below_seq(s2).request_paint,
        flags_cover_seq(s1, f1) ==> flags_cover_seq(s2, f2),
        raised_below_seq(s2).request_layout == raised_below_seq(s1).request_layout,
        raised_below_seq(s2).tree_changed == raised_below_seq(s1).tree_changed,
        raised_below_seq(s2).view_context_changed == raised_below_seq(s1).view_context_changed,
    decreases s1,
{
    reveal_with_fuel(painted_rel, 2);
    reveal_with_fuel(painted_rel_seq, 2);
    reveal_with_fuel(flags_cover_seq, 2);
    reveal_with_fuel(raised_below_seq, 2);
    if s1.len() > 0 {
        lemma_paint_clears_and_keeps_cover(s1[0], s2[0]);
        lemma_paint_seq(s1.drop_first(), s2.drop_first(), f1, f2);
    }
}

/// How the context-changed lifecycle pass relates the tree before to the
/// tree after: everything is kept except that `view-context-changed` is
/// cleared in the whole subtree.
pub open spec fn vc_cleared_rel(p: Pod, q: Pod) -> bool
    decreases p,
{
    q.state.size == p.state.size && q.state.origin == p.state.origin && q.state.flags
        == clear_vc_bit(p.state.flags) && match (p.widget, q.widget) {
        (Widget::Text { text: t1, style: s1 }, Widget::Text { text: t2, style: s2 }) => t1 == t2
            && s1 == s2,
        (
            Widget::Suspend { ready: r1, text: t1 },
            Widget::Suspend { ready: r2, text: t2 },
        ) => r1 == r2 && t1 == t2,
        (
            Widget::Margin { amount: a1, child: c1 },
            Widget::Margin { amount: a2, child: c2 },
        ) => a1 == a2 && vc_cleared_rel(*c1, *c2),
        (
            Widget::Border { style: s1, child: c1 },
            Widget::Border { style: s2, child: c2 },
        ) => s1 == s2 && vc_cleared_rel(*c1, *c2),
        (
            Widget::OnClick { action: a1, id_path: i1, child: c1 },
            Widget::OnClick { action: a2, id_path: i2, child: c2 },
        ) => a1 == a2 && i1@ == i2@ && vc_cleared_rel(*c1, *c2),
        (Widget::Column { children: k1 }, Widget::Column { children: k2 }) => vc_cleared_rel_seq(
            k1@,
            k2@,
        ),
        _ => false,
    }
}

pub open spec fn clear_vc_bit(f: PodFlags) -> PodFlags {
    PodFlags { view_context_changed: false, ..f }
}

pub open spec fn vc_cleared_rel_seq(s1: Seq<Pod>, s2: Seq<Pod>) -> bool
    decreases s1,
{
    s1.len() == s2.len() && (s1.len() == 0 || (vc_cleared_rel(s1[0], s2[0]) && vc_cleared_rel_seq(
        s1.drop_first(),
        s2.drop_first(),
    )))
}

/// The lifecycle pass leaves `view-context-changed` clear in the whole
/// subtree and keeps upward flag propagation intact.
pub proof fn lemma_lifecycle_clears_and_keeps_cover(p: Pod, q: Pod)
    requires
        vc_cleared_rel(p, q),
    ensures
        !raised_below(q).view_context_changed,
        flags_cover(p) ==> flags_cover(q),
        raised_below(q).request_layout == raised_below(p).request_layout,
        raised_below(q).request_paint == raised_below(p).request_paint,
        raised_below(q).tree_changed == raised_below(p).tree_changed,
    decreases p,
{
    reveal_with_fuel(vc_cleared_rel, 2);
    reveal_with_fuel(flags_cover, 2);
    reveal_with_fuel(raised_below, 2);
    match (p.widget, q.widget) {
        (Widget::Margin { child: c1, .. }, Widget::Margin { child: c2, .. }) => {
            lemma_lifecycle_clears_and_keeps_cover(*c1, *c2);
        },
        (Widget::Border { child: c1, .. }, Widget::Border { child: c2, .. }) => {
            lemma_lifecycle_clears_and_keeps_cover(*c1, *c2);
        },
        (Widget::OnClick { child: c1, .. }, Widget::OnClick { child: c2, .. }) => {
            lemma_lifecycle_clears_and_keeps_cover(*c1, *c2);
        },
        (Widget::Column { children: k1 }, Widget::Column { children: k2 }) => {
            lemma_lifecycle_seq(k1@, k2@, p.state.flags, q.state.flags);
        },
        _ => {},
    }
}

proof fn lemma_lifecycle_seq(s1: Seq<Pod>, s2: Seq<Pod>, f1: PodFlags, f2: PodFlags)
    requires
        vc_cleared_rel_seq(s1, s2),
        f2 == clear_vc_bit(f1),
    ensures
        !raised_below_seq(s2).view_context_changed,
        flags_cover_seq(s1, f1) ==> flags_cover_seq(s2, f2),
        raised_below_seq(s2).request_layout == raised_below_seq(s1).request_layout,
        raised_below_seq(s2).request_paint == raised_below_seq(s1).request_paint,
        raised_below_seq(s2).tree_changed == raised_below_seq(s1).tree_changed,
    decreases s1,
{
    reveal_with_fuel(vc_cleared_rel, 2);
    reveal_with_fuel(vc_cleared_rel_seq, 2);
    reveal_with_fuel(flags_cover_seq, 2);
    reveal_with_fuel(raised_below_seq, 2);
    if s1.len() > 0 {
        lemma_lifecycle_clears_and_keeps_cover(s1[0], s2[0]);
        lemma_lifecycle_seq(s1.drop_first(), s2.drop_first(), f1, f2);
    }
}

/// A ghost image of one addressed message.
pub struct MsgModel {
    pub path: Seq<NodeId>,
    pub body: MessageBody,
}

pub open spec fn msg_model(m: Message) -> MsgModel {
    MsgModel { path: m.id_path@, body: m.body }
}

pub open spec fn msg_models(s: Seq<Message>) -> Seq<MsgModel> {
    Seq::new(s.len(), |i: int| msg_model(s[i]))
}

/// Whether the point lies inside the node's last computed bounds.
pub open spec fn contains_spec(st: WidgetState, x: u16, y: u16) -> bool {
    st.origin.x <= x && x < st.origin.x + st.size.width && st.origin.y <= y && y < st.origin.y
        + st.size.height
}

/// The messages a click at `(x, y)` produces: the deepest click handler
/// whose bounds contain the point wins; unhandled clicks bubble past.
pub open spec fn click_msgs(p: Pod, x: u16, y: u16) -> Seq<MsgModel>
    decreases p,
{
    match p.widget {
        Widget::Text { .. } => Seq::empty(),
        Widget::Suspend { .. } => Seq::empty(),
        Widget::Margin { child, .. } => click_msgs(*child, x, y),
        Widget::Border { child, .. } => click_msgs(*child, x, y),
        Widget::Column { children } => click_msgs_seq(children@, x, y),
        Widget::OnClick { id_path, child, .. } => {
            let inner = click_msgs(*child, x, y);
            if inner.len() > 0 {
                inner
            } else if contains_spec(p.state, x, y) {
                seq![MsgModel { path: id_path@, body: MessageBody::Click }]
            } else {
                Seq::empty()
            }
        },
    }
}

pub open spec fn click_msgs_seq(s: Seq<Pod>, x: u16, y: u16) -> Seq<MsgModel>
    decreases s,
{
    if s.len() == 0 {
        Seq::empty()
    } else {
        let h = click_msgs(s[0], x, y);
        if h.len() > 0 {
            h
        } else {
            click_msgs_seq(s.drop_first(), x, y)
        }
    }
}

impl Pod {
    /// Assign this subtree's absolute origins, raising the context-changed
    /// flag on every node that moved and on its ancestors.
    pub fn set_origin(self, origin: Point) -> (r: Pod)
        ensures
            origin_rel(self, r, origin),
        decreases self,
    {
        let st = self.state;
        let did_move: bool = origin.x != st.origin.x || origin.y != st.origin.y;
        match self.widget {
            Widget::Text { text, style } => Pod {
                state: WidgetState {
                    flags: vc_raise_exec(st.flags, did_move),
                    size: st.size,
                    origin,
                },
                widget: Widget::Text { text, style },
            },
            Widget::Suspend { ready, text } => Pod {
                state: WidgetState {
                    flags: vc_raise_exec(st.flags, did_move),
                    size: st.size,
                    origin,
                },
                widget: Widget::Suspend { ready, text },
            },
            Widget::Margin { amount, child } => {
                let c = (*child).set_origin(
                    Point { x: add_sat(origin.x, amount), y: add_sat(origin.y, amount) },
                );
                let raise = did_move || c.state.flags.view_context_changed;
                Pod {
                    state: WidgetState {
                        flags: vc_raise_exec(st.flags, raise),
                        size: st.size,
                        origin,
                    },
                    widget: Widget::Margin { amount, child: Box::new(c) },
                }
            },
            Widget::Border { style, child } => {
                let c = (*child).set_origin(
                    Point { x: add_sat(origin.x, 1), y: add_sat(origin.y, 1) },
                );
                let raise = did_move || c.state.flags.view_context_changed;
                Pod {
                    state: WidgetState {
                        flags: vc_raise_exec(st.flags, raise),
                        size: st.size,
                        origin,
                    },
                    widget: Widget::Border { style, child: Box::new(c) },
                }
            },
            Widget::OnClick { action, id_path, child } => {
                let c = (*child).set_origin(origin);
                let raise = did_move || c.state.flags.view_context_changed;
                Pod {
                    state: WidgetState {
                        flags: vc_raise_exec(st.flags, raise),
                        size: st.size,
                        origin,
                    },
                    widget: Widget::OnClick { action, id_path, child: Box::new(c) },
                }
            },
            Widget::Column { children } => {
                let (kids, kids_vc) = origin_children(children, origin);
                let raise = did_move || kids_vc;
                Pod {
                    state: WidgetState {
                        flags: vc_raise_exec(st.flags, raise),
                        size: st.size,
                        origin,
                    },
                    widget: Widget::Column { children: kids },
                }
            },
        }
    }

    /// Emit this subtree's visual content onto the command list and clear
    /// `needs-paint` throughout. Read-only with respect to layout state.
    pub fn paint(self, cmds: &mut Vec<DrawCmd>) -> (r: Pod)
        ensures
            painted_rel(self, r),
            cmd_models(final(cmds)@) == cmd_models(old(cmds)@) + paint_cmds(self),
        decreases self,
    {
        let st = self.state;
        match self.widget {
            Widget::Text { text, style } => {
                let shown = clone_string(&text);
                cmds.push(
                    DrawCmd {
                        origin: st.origin,
                        size: st.size,
                        content: DrawContent::TextRun { text: shown, style },
                    },
                );
                proof {
                    assert(cmd_models(cmds@) =~= cmd_models(old(cmds)@) + paint_cmds(self));
                }
                Pod {
                    state: WidgetState { flags: clear_paint_exec(st.flags), ..st },
                    widget: Widget::Text { text, style },
                }
            },
            Widget::Suspend { ready, text } => {
                if ready {
                    let shown = clone_string(&text);
                    cmds.push(
                        DrawCmd {
                            origin: st.origin,
                            size: st.size,
                            content: DrawContent::TextRun {
                                text: shown,
                                style: Style {
                                    fg: crate::style::Color::Reset,
                                    bg: crate::style::Color::Reset,
                                },
                            },
                        },
                    );
                }
                proof {
                    assert(cmd_models(cmds@) =~= cmd_models(old(cmds)@) + paint_cmds(self));
                }
                Pod {
                    state: WidgetState { flags: clear_paint_exec(st.flags), ..st },
                    widget: Widget::Suspend { ready, text },
                }
            },
            Widget::Margin { amount, child } => {
                let c = (*child).paint(cmds);
                Pod {
                    state: WidgetState { flags: clear_paint_exec(st.flags), ..st },
                    widget: Widget::Margin { amount, child: Box::new(c) },
                }
            },
            Widget::Border { style, child } => {
                cmds.push(
                    DrawCmd {
                        origin: st.origin,
                        size: st.size,
                        content: DrawContent::Frame { style },
                    },
                );
                let ghost mid = cmds@;
                let c = (*child).paint(cmds);
                proof {
                    assert(cmd_models(mid) =~= cmd_models(old(cmds)@) + seq![
                        CmdModel::Frame { origin: st.origin, size: st.size, style },
                    ]);
                    assert(cmd_models(cmds@) =~= cmd_models(old(cmds)@) + paint_cmds(self));
                }
                Pod {
                    state: WidgetState { flags: clear_paint_exec(st.flags), ..st },
                    widget: Widget::Border { style, child: Box::new(c) },
                }
            },
            Widget::OnClick { action, id_path, child } => {
                let c = (*child).paint(cmds);
                Pod {
                    state: WidgetState { flags: clear_paint_exec(st.flags), ..st },
                    widget: Widget::OnClick { action, id_path, child: Box::new(c) },
                }
            },
            Widget::Column { children } => {
                let kids = paint_children(children, cmds);
                Pod {
                    state: WidgetState { flags: clear_paint_exec(st.flags), ..st },
                    widget: Widget::Column { children: kids },
                }
            },
        }
    }

    /// Deliver the view-context-changed notice: the pass that consumes the
    /// `view-context-changed` flag, clearing it throughout the subtree.
    pub fn lifecycle(self) -> (r: Pod)
        ensures
            vc_cleared_rel(self, r),
        decreases self,
    {
        let st = self.state;
        match self.widget {
            Widget::Text { text, style } => Pod {
                state: WidgetState { flags: clear_vc_exec(st.flags), ..st },
                widget: Widget::Text { text, style },
            },
            Widget::Suspend { ready, text } => Pod {
                state: WidgetState { flags: clear_vc_exec(st.flags), ..st },
                widget: Widget::Suspend { ready, text },
            },
            Widget::Margin { amount, child } => {
                let c = (*child).lifecycle();
                Pod {
                    state: WidgetState { flags: clear_vc_exec(st.flags), ..st },
                    widget: Widget::Margin { amount, child: Box::new(c) },
                }
            },
            Widget::Border { style, child } => {
                let c = (*child).lifecycle();
                Pod {
                    state: WidgetState { flags: clear_vc_exec(st.flags), ..st },
                    widget: Widget::Border { style, child: Box::new(c) },
                }
            },
            Widget::OnClick { action, id_path, child } => {
                let c = (*child).lifecycle();
                Pod {
                    state: WidgetState { flags: clear_vc_exec(st.flags), ..st },
                    widget: Widget::OnClick { action, id_path, child: Box::new(c) },
                }
            },
            Widget::Column { children } => {
                let kids = lifecycle_children(children);
                Pod {
                    state: WidgetState { flags: clear_vc_exec(st.flags), ..st },
                    widget: Widget::Column { children: kids },
                }
            },
        }
    }

    /// Dispatch an input event. A primary button press goes to the deepest
    /// click handler whose bounds contain the point; everything else bubbles
    /// through unhandled.
    pub fn event(&self, ev: &Event, msgs: &mut Vec<Message>) -> (handled: bool)
        ensures
            (ev matches Event::Mouse { down: true, x, y }) ==> (msg_models(final(msgs)@)
                == msg_models(old(msgs)@) + click_msgs(*self, ev->x, ev->y) && handled == (
            click_msgs(*self, ev->x, ev->y).len() > 0)),
            !(ev matches Event::Mouse { down: true, .. }) ==> (final(msgs)@ == old(msgs)@
                && !handled),
    {
        match ev {
            Event::Mouse { down: true, x, y } => {
                let n0 = msgs.len();
                let h = click_dispatch(self, *x, *y, msgs);
                h
            },
            _ => false,
        }
    }
}

fn vc_raise_exec(f: PodFlags, raise: bool) -> (r: PodFlags)
    ensures
        r == vc_raised(f, raise),
{
    PodFlags { view_context_changed: f.view_context_changed || raise, ..f }
}

fn clear_paint_exec(f: PodFlags) -> (r: PodFlags)
    ensures
        r == clear_paint_bit(f),
{
    PodFlags { request_paint: false, ..f }
}

fn clear_vc_exec(f: PodFlags) -> (r: PodFlags)
    ensures
        r == clear_vc_bit(f),
{
    PodFlags { view_context_changed: false, ..f }
}

fn clone_string(s: &String) -> (r: String)
    ensures
        r@ == s@,
{
    s.clone()
}

fn origin_children(v: Vec<Pod>, o: Point) -> (r: (Vec<Pod>, bool))
    ensures
        origin_rel_seq(v@, r.0@, o),
        r.1 == any_vc(r.0@),
    decreases v@,
{
    let ghost v0 = v@;
    let mut v = v;
    if v.len() == 0 {
        (v, false)
    } else {
        let first = v.remove(0);
        proof {
            assert(first == v0[0]);
            assert(v@ =~= v0.drop_first());
        }
        let h = first.state.size.height;
        let first_o = first.set_origin(o);
        let next = Point { x: o.x, y: add_sat(o.y, h) };
        let (mut rest, rest_vc) = origin_children(v, next);
        let ghost rest0 = rest@;
        let vc = first_o.state.flags.view_context_changed || rest_vc;
        rest.insert(0, first_o);
        proof {
            assert(rest@ =~= seq![first_o] + rest0);
            assert(rest@.drop_first() =~= rest0);
            assert(origin_rel_seq(v0, rest@, o));
            assert(vc == any_vc(rest@));
        }
        (rest, vc)
    }
}

fn paint_children(v: Vec<Pod>, cmds: &mut Vec<DrawCmd>) -> (r: Vec<Pod>)
    ensures
        painted_rel_seq(v@, r@),
        cmd_models(final(cmds)@) == cmd_models(old(cmds)@) + paint_cmds_seq(v@),
    decreases v@,
{
    let ghost v0 = v@;
    let mut v = v;
    if v.len() == 0 {
        proof {
            assert(cmd_models(cmds@) =~= cmd_models(old(cmds)@) + paint_cmds_seq(v0));
        }
        v
    } else {
        let first = v.remove(0);
        proof {
            assert(first == v0[0]);
            assert(v@ =~= v0.drop_first());
        }
        let first_p = first.paint(cmds);
        let mut rest = paint_children(v, cmds);
        let ghost rest0 = rest@;
        rest.insert(0, first_p);
        proof {
            assert(rest@ =~= seq![first_p] + rest0);
            assert(rest@.drop_first() =~= rest0);
            assert(painted_rel_seq(v0, rest@));
            assert(cmd_models(cmds@) =~= cmd_models(old(cmds)@) + paint_cmds_seq(v0));
        }
        rest
    }
}

fn lifecycle_children(v: Vec<Pod>) -> (r: Vec<Pod>)
    ensures
        vc_cleared_rel_seq(v@, r@),
    decreases v@,
{
    let ghost v0 = v@;
    let mut v = v;
    if v.len() == 0 {
        v
    } else {
        let first = v.remove(0);
        proof {
            assert(first == v0[0]);
            assert(v@ =~= v0.drop_first());
        }
        let first_l = first.lifecycle();
        let mut rest = lifecycle_children(v);
        let ghost rest0 = rest@;
        rest.insert(0, first_l);
        proof {
            assert(rest@ =~= seq![first_l] + rest0);
            assert(rest@.drop_first() =~= rest0);
            assert(vc_cleared_rel_seq(v0, rest@));
        }
        rest
    }
}

fn click_dispatch(p: &Pod, x: u16, y: u16, msgs: &mut Vec<Message>) -> (handled: bool)
    ensures
        msg_models(final(msgs)@) == msg_models(old(msgs)@) + click_msgs(*p, x, y),
        handled == (click_msgs(*p, x, y).len() > 0),
    decreases *p,
{
    match &p.widget {
        Widget::Text { .. } => {
            proof {
                assert(msg_models(msgs@) =~= msg_models(old(msgs)@) + click_msgs(*p, x, y));
            }
            false
        },
        Widget::Suspend { .. } => {
            proof {
                assert(msg_models(msgs@) =~= msg_models(old(msgs)@) + click_msgs(*p, x, y));
            }
            false
        },
        Widget::Margin { child, .. } => click_dispatch(child, x, y, msgs),
        Widget::Border { child, .. } => click_dispatch(child, x, y, msgs),
        Widget::Column { children } => click_dispatch_children(children.as_slice(), x, y, msgs),
        Widget::OnClick { id_path, child, .. } => {
            let inner = click_dispatch(child, x, y, msgs);
            if inner {
                true
            } else {
                let st = p.state;
                let inside = st.origin.x <= x && (x as u32) < (st.origin.x as u32) + (
                st.size.width as u32) && st.origin.y <= y && (y as u32) < (st.origin.y as u32) + (
                st.size.height as u32);
                if inside {
                    let path = copy_ids(id_path);
                    msgs.push(Message { id_path: path, body: MessageBody::Click });
                    proof {
                        assert(msg_models(msgs@) =~= msg_models(old(msgs)@) + click_msgs(
                            *p,
                            x,
                            y,
                        ));
                    }
                    true
                } else {
                    false
                }
            }
        },
    }
}

fn click_dispatch_children(children: &[Pod], x: u16, y: u16, msgs: &mut Vec<Message>) -> (handled:
    bool)
    ensures
        msg_models(final(msgs)@) == msg_models(old(msgs)@) + click_msgs_seq(children@, x, y),
        handled == (click_msgs_seq(children@, x, y).len() > 0),
    decreases children@,
{
    if children.len() == 0 {
        proof {
            assert(msg_models(msgs@) =~= msg_models(old(msgs)@) + click_msgs_seq(
                children@,
                x,
                y,
            ));
        }
        false
    } else {
        let first = &children[0];
        let h = click_dispatch(first, x, y, msgs);
        if h {
            true
        } else {
            let rest = &children[1..children.len()];
            proof {
                assert(rest@ =~= children@.drop_first());
            }
            click_dispatch_children(rest, x, y, msgs)
        }
    }
}

fn copy_ids(v: &Vec<NodeId>) -> (r: Vec<NodeId>)
    ensures
        r@ == v@,
{
    let mut r: Vec<NodeId> = Vec::new();
    let mut i: usize = 0;
    while i < v.len()
        invariant
            i <= v@.len(),
            r@ == v@.subrange(0, i as int),
        decreases v@.len() - i,
    {
        r.push(v[i]);
        i = i + 1;
        proof {
            assert(r@ =~= v@.subrange(0, i as int));
        }
    }
    proof {
        assert(r@ =~= v@);
    }
    r
}

fn layout_children(v: Vec<Pod>, bc: &BoxConstraints) -> (r: (Vec<Pod>, Size))
    ensures
        layout_rel_seq(v@, r.0@, *bc),
        r.1 == stacked_measure(v@, *bc),
    decreases v@,
{
    let ghost v0 = v@;
    let mut v = v;
    if v.len() == 0 {
        (v, Size { width: 0, height: 0 })
    } else {
        let first = v.remove(0);
        proof {
            assert(first == v0[0]);
            assert(v@ =~= v0.drop_first());
        }
        let first_l = first.layout(bc);
        let fs = first_l.state.size;
        let (mut rest, rest_sz) = layout_children(v, bc);
        let ghost rest0 = rest@;
        rest.insert(0, first_l);
        let sz = Size {
            width: if fs.width > rest_sz.width {
                fs.width
            } else {
                rest_sz.width
            },
            height: add_sat(fs.height, rest_sz.height),
        };
        proof {
            assert(rest@ =~= seq![first_l] + rest0);
            assert(rest@.drop_first() =~= rest0);
            assert(layout_rel_seq(v0, rest@, *bc));
            assert(fs == measured(v0[0], *bc));
            assert(sz == stacked_measure(v0, *bc));
        }
        (rest, sz)
    }
}

} // verus!
