use vstd::prelude::*;
use vstd::view::View as _;

use crate::flags::{ChangeFlags, PodFlags};
use crate::geometry::{Point, Size};
use crate::ident::{Cx, NodeId};
use crate::style::{BorderStyle, Style};
use crate::widget::{
    flags_cover, flags_cover_seq, lemma_cover_seq_mono, MessageBody, NodeKind, Pod, Widget,
    WidgetState,
};

verus! {

/// An immutable description of one subtree: what to show and how to react,
/// from the closed set of view kinds. Building one materializes a widget;
/// rebuilding against the previous description updates the retained widget
/// in place.
pub enum View {
    Text { text: String, style: Style },
    Margin { amount: u16, child: Box<View> },
    Border { style: BorderStyle, child: Box<View> },
    Column { children: Vec<View> },
    OnClick { action: u64, child: Box<View> },
    Suspend { ready: bool, text: String },
}

/// The private per-node state a build creates and every later rebuild of the
/// same node is handed back: the identities of the node's children, by which
/// messages are routed.
pub enum ViewState {
    Leaf,
    Wrap { child_id: NodeId, child: Box<ViewState> },
    Many { children: Box<StateList> },
}

/// The children of a composite node: identity and private state of each.
pub enum StateList {
    Nil,
    Cons { id: NodeId, state: Box<ViewState>, rest: Box<StateList> },
}

/// What handling an addressed message came to.
#[derive(Clone, Copy, PartialEq, Eq, Structural, Debug)]
pub enum MessageResult {
    /// Consumed; nothing further to do.
    Nop,
    /// Consumed; a future render must re-run the view function.
    RequestRebuild,
    /// An application-level action, bubbled to the embedding program.
    Action(u64),
    /// The addressed node is no longer in the tree; silently absorbed.
    Stale,
}

pub open spec fn view_kind(v: View) -> NodeKind {
    match v {
        View::Text { .. } => NodeKind::Text,
        View::Margin { .. } => NodeKind::Margin,
        View::Border { .. } => NodeKind::Border,
        View::Column { .. } => NodeKind::Column,
        View::OnClick { .. } => NodeKind::OnClick,
        View::Suspend { .. } => NodeKind::Suspend,
    }
}

/// How many nodes the subtree has: one identity is allocated per node.
pub open spec fn node_count(v: View) -> nat
    decreases v,
{
    match v {
        View::Text { .. } => 1,
        View::Suspend { .. } => 1,
        View::Margin { child, .. } => 1 + node_count(*child),
        View::Border { child, .. } => 1 + node_count(*child),
        View::OnClick { child, .. } => 1 + node_count(*child),
        View::Column { children } => 1 + node_count_seq(children@),
    }
}

pub open spec fn node_count_seq(vs: Seq<View>) -> nat
    decreases vs,
{
    if vs.len() == 0 {
        0
    } else {
        node_count(vs[0]) + node_count_seq(vs.drop_first())
    }
}

/// Structural compatibility: the same kind of node at every position, with
/// the same child count. Configuration (texts, styles, amounts) may differ.
pub open spec fn same_shape(a: View, b: View) -> bool
    decreases a,
{
    match (a, b) {
        (View::Text { .. }, View::Text { .. }) => true,
        (View::Suspend { .. }, View::Suspend { .. }) => true,
        (View::Margin { child: c1, .. }, View::Margin { child: c2, .. }) => same_shape(*c1, *c2),
        (View::Border { child: c1, .. }, View::Border { child: c2, .. }) => same_shape(*c1, *c2),
        (View::OnClick { child: c1, .. }, View::OnClick { child: c2, .. }) => same_shape(*c1, *c2),
        (View::Column { children: k1 }, View::Column { children: k2 }) => same_shape_seq(k1@, k2@),
        _ => false,
    }
}

pub open spec fn same_shape_seq(s1: Seq<View>, s2: Seq<View>) -> bool
    decreases s1,
{
    s1.len() == s2.len() && (s1.len() == 0 || (same_shape(s1[0], s2[0]) && same_shape_seq(
        s1.drop_first(),
        s2.drop_first(),
    )))
}

/// Every view is structurally compatible with itself, so re-rendering
/// unchanged data never tears a node down.
pub proof fn lemma_same_shape_reflexive(a: View)
    ensures
        same_shape(a, a),
    decreases a,
{
    match a {
        View::Margin { child, .. } => lemma_same_shape_reflexive(*child),
        View::Border { child, .. } => lemma_same_shape_reflexive(*child),
        View::OnClick { child, .. } => lemma_same_shape_reflexive(*child),
        View::Column { children } => lemma_same_shape_reflexive_seq(children@),
        _ => {},
    }
}

proof fn lemma_same_shape_reflexive_seq(s: Seq<View>)
    ensures
        same_shape_seq(s, s),
    decreases s,
{
    if s.len() > 0 {
        lemma_same_shape_reflexive(s[0]);
        lemma_same_shape_reflexive_seq(s.drop_first());
    }
}

/// Structural compatibility chains: across any sequence of rebuilds in
/// which each description is compatible with the one before, the last is
/// compatible with the first — so identity and private state survive the
/// whole sequence, not only one step.
pub proof fn lemma_same_shape_transitive(a: View, b: View, c: View)
    requires
        same_shape(a, b),
        same_shape(b, c),
    ensures
        same_shape(a, c),
    decreases a,
{
    match (a, b, c) {
        (View::Margin { child: c1, .. }, View::Margin { child: c2, .. }, View::Margin { child: c3, .. }) => {
            lemma_same_shape_transitive(*c1, *c2, *c3);
        },
        (View::Border { child: c1, .. }, View::Border { child: c2, .. }, View::Border { child: c3, .. }) => {
            lemma_same_shape_transitive(*c1, *c2, *c3);
        },
        (View::OnClick { child: c1, .. }, View::OnClick { child: c2, .. }, View::OnClick { child: c3, .. }) => {
            lemma_same_shape_transitive(*c1, *c2, *c3);
        },
        (View::Column { children: k1 }, View::Column { children: k2 }, View::Column { children: k3 }) => {
            lemma_same_shape_transitive_seq(k1@, k2@, k3@);
        },
        _ => {},
    }
}

proof fn lemma_same_shape_transitive_seq(s1: Seq<View>, s2: Seq<View>, s3: Seq<View>)
    requires
        same_shape_seq(s1, s2),
        same_shape_seq(s2, s3),
    ensures
        same_shape_seq(s1, s3),
    decreases s1,
{
    if s1.len() > 0 {
        lemma_same_shape_transitive(s1[0], s2[0], s3[0]);
        lemma_same_shape_transitive_seq(s1.drop_first(), s2.drop_first(), s3.drop_first());
    }
}

/// The private state has the shape the view asks for.
pub open spec fn state_matches(v: View, s: ViewState) -> bool
    decreases v,
{
    match v {
        View::Text { .. } => s is Leaf,
        View::Suspend { .. } => s is Leaf,
        View::Margin { child, .. } => s matches ViewState::Wrap { child: sc, .. }
            && state_matches(*child, *sc),
        View::Border { child, .. } => s matches ViewState::Wrap { child: sc, .. }
            && state_matches(*child, *sc),
        View::OnClick { child, .. } => s matches ViewState::Wrap { child: sc, .. }
            && state_matches(*child, *sc),
        View::Column { children } => s matches ViewState::Many { children: l } && state_matches_seq(
            children@,
            *l,
        ),
    }
}

pub open spec fn state_matches_seq(vs: Seq<View>, l: StateList) -> bool
    decreases vs,
{
    if vs.len() == 0 {
        l is Nil
    } else {
        l matches StateList::Cons { state, rest, .. } && state_matches(vs[0], *state)
            && state_matches_seq(vs.drop_first(), *rest)
    }
}

/// The retained widget carries exactly the view's content, and every click
/// handler in it is addressed by the true root-to-node identity path.
/// `path` is the path to the node's parent, `own` the node's identity.
pub open spec fn pod_matches(v: View, s: ViewState, p: Pod, path: Seq<NodeId>, own: NodeId) -> bool
    decreases v,
{
    match v {
        View::Text { text, style } => s is Leaf && (p.widget matches Widget::Text {
            text: t2,
            style: s2,
        } && t2@ == text@ && s2 == style),
        View::Suspend { ready, text } => s is Leaf && (p.widget matches Widget::Suspend {
            ready: r2,
            text: t2,
        } && r2 == ready && t2@ == text@),
        View::Margin { amount, child } => s matches ViewState::Wrap { child_id, child: sc }
            && p.widget matches Widget::Margin { amount: a2, child: pc } && a2 == amount
            && pod_matches(*child, *sc, *pc, path.push(own), child_id),
        View::Border { style, child } => s matches ViewState::Wrap { child_id, child: sc }
            && p.widget matches Widget::Border { style: s2, child: pc } && s2 == style
            && pod_matches(*child, *sc, *pc, path.push(own), child_id),
        View::OnClick { action, child } => s matches ViewState::Wrap { child_id, child: sc }
            && p.widget matches Widget::OnClick { action: a2, id_path, child: pc } && a2 == action
            && id_path@ == path.push(own) && pod_matches(
            *child,
            *sc,
            *pc,
            path.push(own),
            child_id,
        ),
        View::Column { children } => s matches ViewState::Many { children: l }
            && p.widget matches Widget::Column { children: pods } && pod_matches_seq(
            children@,
            *l,
            pods@,
            path.push(own),
        ),
    }
}

pub open spec fn pod_matches_seq(
    vs: Seq<View>,
    l: StateList,
    pods: Seq<Pod>,
    path: Seq<NodeId>,
) -> bool
    decreases vs,
{
    if vs.len() == 0 {
        l is Nil && pods.len() == 0
    } else {
        &&& pods.len() == vs.len()
        &&& l matches StateList::Cons { id, state, rest } && pod_matches(
            vs[0],
            *state,
            pods[0],
            path,
            id,
        ) && pod_matches_seq(vs.drop_first(), *rest, pods.drop_first(), path)
    }
}

/// The identities the subtree registers as awaiting asynchronous work:
/// every deferred node whose content has not arrived yet.
pub open spec fn pending_spec(v: View, s: ViewState, own: NodeId) -> Seq<NodeId>
    decreases v,
{
    match v {
        View::Text { .. } => Seq::empty(),
        View::Suspend { ready, .. } => if ready {
            Seq::empty()
        } else {
            seq![own]
        },
        View::Margin { child, .. } => match s {
            ViewState::Wrap { child_id, child: sc } => pending_spec(*child, *sc, child_id),
            _ => Seq::empty(),
        },
        View::Border { child, .. } => match s {
            ViewState::Wrap { child_id, child: sc } => pending_spec(*child, *sc, child_id),
            _ => Seq::empty(),
        },
        View::OnClick { child, .. } => match s {
            ViewState::Wrap { child_id, child: sc } => pending_spec(*child, *sc, child_id),
            _ => Seq::empty(),
        },
        View::Column { children } => match s {
            ViewState::Many { children: l } => pending_seq(children@, *l),
            _ => Seq::empty(),
        },
    }
}

pub open spec fn pending_seq(vs: Seq<View>, l: StateList) -> Seq<NodeId>
    decreases vs,
{
    if vs.len() == 0 {
        Seq::empty()
    } else {
        match l {
            StateList::Cons { id, state, rest } => pending_spec(vs[0], *state, id) + pending_seq(
                vs.drop_first(),
                *rest,
            ),
            StateList::Nil => Seq::empty(),
        }
    }
}

/// Which flag categories moving from description `a` to description `b`
/// changes: layout-affecting, paint-only, or structural.
pub open spec fn diff_flags(a: View, b: View) -> ChangeFlags
    decreases b,
{
    match (a, b) {
        (View::Text { text: t1, style: s1 }, View::Text { text: t2, style: s2 }) => ChangeFlags {
            layout: t1@ != t2@,
            paint: t1@ != t2@ || s1 != s2,
            tree: false,
            view_ctx: false,
        },
        (
            View::Suspend { ready: r1, text: t1 },
            View::Suspend { ready: r2, text: t2 },
        ) => ChangeFlags {
            layout: r1 != r2 || t1@ != t2@,
            paint: r1 != r2 || t1@ != t2@,
            tree: false,
            view_ctx: false,
        },
        (
            View::Margin { amount: a1, child: c1 },
            View::Margin { amount: a2, child: c2 },
        ) => ChangeFlags {
            layout: a1 != a2,
            paint: a1 != a2,
            tree: false,
            view_ctx: false,
        }.union_spec(diff_flags(*c1, *c2)),
        (
            View::Border { style: s1, child: c1 },
            View::Border { style: s2, child: c2 },
        ) => ChangeFlags {
            layout: false,
            paint: s1 != s2,
            tree: false,
            view_ctx: false,
        }.union_spec(diff_flags(*c1, *c2)),
        (
            View::OnClick { child: c1, .. },
            View::OnClick { child: c2, .. },
        ) => diff_flags(*c1, *c2),
        (View::Column { children: k1 }, View::Column { children: k2 }) => diff_flags_seq(
            k1@,
            k2@,
        ),
        _ => all_changed(),
    }
}

/// The flags a torn-down and freshly rebuilt subtree reports.
pub open spec fn all_changed() -> ChangeFlags {
    ChangeFlags { layout: true, paint: true, tree: true, view_ctx: false }
}

pub open spec fn diff_flags_seq(s1: Seq<View>, s2: Seq<View>) -> ChangeFlags
    decreases s2,
{
    if s1.len() == 0 && s2.len() == 0 {
        ChangeFlags::none_spec()
    } else if s1.len() == 0 || s2.len() == 0 {
        all_changed()
    } else {
        diff_flags(s1[0], s2[0]).union_spec(diff_flags_seq(s1.drop_first(), s2.drop_first()))
    }
}

/// Where a message addressed by `rest` (the path with the prefix down to
/// this node already stripped) is delivered, and what comes of it. An empty
/// remainder addresses this node itself; otherwise the matching child
/// consumes one element; a remainder matching no child is stale.
pub open spec fn route_spec(v: View, rest: Seq<NodeId>, s: ViewState, body: MessageBody) -> MessageResult
    decreases v,
{
    if rest.len() == 0 {
        match v {
            View::OnClick { action, .. } => if body is Click {
                MessageResult::Action(action)
            } else {
                MessageResult::Nop
            },
            View::Suspend { .. } => if body is Wake {
                MessageResult::RequestRebuild
            } else {
                MessageResult::Nop
            },
            _ => MessageResult::Nop,
        }
    } else {
        match v {
            View::Text { .. } => MessageResult::Stale,
            View::Suspend { .. } => MessageResult::Stale,
            View::Margin { child, .. } => match s {
                ViewState::Wrap { child_id, child: sc } => if child_id == rest[0] {
                    route_spec(*child, rest.drop_first(), *sc, body)
                } else {
                    MessageResult::Stale
                },
                _ => MessageResult::Stale,
            },
            View::Border { child, .. } => match s {
                ViewState::Wrap { child_id, child: sc } => if child_id == rest[0] {
                    route_spec(*child, rest.drop_first(), *sc, body)
                } else {
                    MessageResult::Stale
                },
                _ => MessageResult::Stale,
            },
            View::OnClick { child, .. } => match s {
                ViewState::Wrap { child_id, child: sc } => if child_id == rest[0] {
                    route_spec(*child, rest.drop_first(), *sc, body)
                } else {
                    MessageResult::Stale
                },
                _ => MessageResult::Stale,
            },
            View::Column { children } => match s {
                ViewState::Many { children: l } => route_seq(children@, *l, rest, body),
                _ => MessageResult::Stale,
            },
        }
    }
}

pub open spec fn route_seq(vs: Seq<View>, l: StateList, rest: Seq<NodeId>, body: MessageBody) -> MessageResult
    decreases vs,
{
    if vs.len() == 0 {
        MessageResult::Stale
    } else {
        match l {
            StateList::Cons { id, state, rest: tail } => if id == rest[0] {
                route_spec(vs[0], rest.drop_first(), *state, body)
            } else {
                route_seq(vs.drop_first(), *tail, rest, body)
            },
            StateList::Nil => MessageResult::Stale,
        }
    }
}

/// Whether `rest` addresses a node that exists in the tree, child identity
/// by child identity.
pub open spec fn valid_path(v: View, s: ViewState, rest: Seq<NodeId>) -> bool
    decreases v,
{
    rest.len() == 0 || match v {
        View::Text { .. } => false,
        View::Suspend { .. } => false,
        View::Margin { child, .. } => s matches ViewState::Wrap { child_id, child: sc } && child_id
            == rest[0] && valid_path(*child, *sc, rest.drop_first()),
        View::Border { child, .. } => s matches ViewState::Wrap { child_id, child: sc } && child_id
            == rest[0] && valid_path(*child, *sc, rest.drop_first()),
        View::OnClick { child, .. } => s matches ViewState::Wrap { child_id, child: sc } && child_id
            == rest[0] && valid_path(*child, *sc, rest.drop_first()),
        View::Column { children } => s matches ViewState::Many { children: l } && valid_seq(
            children@,
            *l,
            rest,
        ),
    }
}

pub open spec fn valid_seq(vs: Seq<View>, l: StateList, rest: Seq<NodeId>) -> bool
    decreases vs,
{
    vs.len() > 0 && match l {
        StateList::Cons { id, state, rest: tail } => if id == rest[0] {
            valid_path(vs[0], *state, rest.drop_first())
        } else {
            valid_seq(vs.drop_first(), *tail, rest)
        },
        StateList::Nil => false,
    }
}

/// Stale routing is exactly routing along a path that no longer exists:
/// a message whose path resolves is always consumed, and one whose path
/// does not is silently absorbed as `Stale`, never an error.
pub proof fn lemma_stale_iff_gone(v: View, s: ViewState, rest: Seq<NodeId>, body: MessageBody)
    ensures
        (route_spec(v, rest, s, body) == MessageResult::Stale) <==> !valid_path(v, s, rest),
    decreases v,
{
    if rest.len() == 0 {
    } else {
        match (v, s) {
            (View::Margin { child, .. }, ViewState::Wrap { child_id, child: sc }) => {
                if child_id == rest[0] {
                    lemma_stale_iff_gone(*child, *sc, rest.drop_first(), body);
                }
            },
            (View::Border { child, .. }, ViewState::Wrap { child_id, child: sc }) => {
                if child_id == rest[0] {
                    lemma_stale_iff_gone(*child, *sc, rest.drop_first(), body);
                }
            },
            (View::OnClick { child, .. }, ViewState::Wrap { child_id, child: sc }) => {
                if child_id == rest[0] {
                    lemma_stale_iff_gone(*child, *sc, rest.drop_first(), body);
                }
            },
            (View::Column { children }, ViewState::Many { children: l }) => {
                lemma_stale_iff_gone_seq(children@, *l, rest, body);
            },
            _ => {},
        }
    }
}

proof fn lemma_stale_iff_gone_seq(vs: Seq<View>, l: StateList, rest: Seq<NodeId>, body: MessageBody)
    requires
        rest.len() > 0,
    ensures
        (route_seq(vs, l, rest, body) == MessageResult::Stale) <==> !valid_seq(vs, l, rest),
    decreases vs,
{
    if vs.len() > 0 {
        match l {
            StateList::Cons { id, state, rest: tail } => {
                if id == rest[0] {
                    lemma_stale_iff_gone(vs[0], *state, rest.drop_first(), body);
                } else {
                    lemma_stale_iff_gone_seq(vs.drop_first(), *tail, rest, body);
                }
            },
            StateList::Nil => {},
        }
    }
}

/// Every node of a freshly built subtree starts from the initial node-state:
/// all passes owe it a visit.
pub open spec fn all_init(p: Pod) -> bool
    decreases p,
{
    p.state == (WidgetState {
        flags: PodFlags::init_spec(),
        size: Size { width: 0, height: 0 },
        origin: Point { x: 0, y: 0 },
    }) && match p.widget {
        Widget::Text { .. } => true,
        Widget::Suspend { .. } => true,
        Widget::Margin { child, .. } => all_init(*child),
        Widget::Border { child, .. } => all_init(*child),
        Widget::OnClick { child, .. } => all_init(*child),
        Widget::Column { children } => all_init_seq(children@),
    }
}

pub open spec fn all_init_seq(s: Seq<Pod>) -> bool
    decreases s,
{
    s.len() == 0 || (all_init(s[0]) && all_init_seq(s.drop_first()))
}

/// A freshly built subtree propagates its flags correctly: every node holds
/// the same initial flags.
pub proof fn lemma_all_init_cover(p: Pod)
    requires
        all_init(p),
    ensures
        flags_cover(p),
    decreases p,
{
    reveal_with_fuel(all_init, 2);
    reveal_with_fuel(flags_cover, 2);
    match p.widget {
        Widget::Margin { child, .. } => lemma_all_init_cover(*child),
        Widget::Border { child, .. } => lemma_all_init_cover(*child),
        Widget::OnClick { child, .. } => lemma_all_init_cover(*child),
        Widget::Column { children } => lemma_all_init_cover_seq(children@, p.state.flags),
        _ => {},
    }
}

proof fn lemma_all_init_cover_seq(s: Seq<Pod>, f: PodFlags)
    requires
        all_init_seq(s),
        f.request_layout,
        f.request_paint,
        f.tree_changed,
    ensures
        flags_cover_seq(s, f),
    decreases s,
{
    reveal_with_fuel(all_init, 2);
    reveal_with_fuel(all_init_seq, 2);
    reveal_with_fuel(flags_cover_seq, 2);
    if s.len() > 0 {
        lemma_all_init_cover(s[0]);
        lemma_all_init_cover_seq(s.drop_first(), f);
    }
}

/// The widget has the shape the view asks for: the same kind of node at
/// every position, with the same child count. Content and flags are free.
pub open spec fn pod_shape(v: View, p: Pod) -> bool
    decreases v,
{
    match v {
        View::Text { .. } => p.widget is Text,
        View::Suspend { .. } => p.widget is Suspend,
        View::Margin { child, .. } => p.widget matches Widget::Margin { child: pc, .. }
            && pod_shape(*child, *pc),
        View::Border { child, .. } => p.widget matches Widget::Border { child: pc, .. }
            && pod_shape(*child, *pc),
        View::OnClick { child, .. } => p.widget matches Widget::OnClick { child: pc, .. }
            && pod_shape(*child, *pc),
        View::Column { children } => p.widget matches Widget::Column { children: pods }
            && pod_shape_seq(children@, pods@),
    }
}

pub open spec fn pod_shape_seq(vs: Seq<View>, pods: Seq<Pod>) -> bool
    decreases vs,
{
    vs.len() == pods.len() && (vs.len() == 0 || (pod_shape(vs[0], pods[0]) && pod_shape_seq(
        vs.drop_first(),
        pods.drop_first(),
    )))
}

/// Layout does not change which widgets make the tree up.
pub proof fn lemma_layout_keeps_shape(v: View, p: Pod, q: Pod, bc: crate::geometry::BoxConstraints)
    requires
        crate::widget::layout_rel(p, q, bc),
        pod_shape(v, p),
    ensures
        pod_shape(v, q),
    decreases v,
{
    reveal_with_fuel(crate::widget::layout_rel, 2);
    reveal_with_fuel(pod_shape, 2);
    match (v, p.widget, q.widget) {
        (View::Margin { child, .. }, Widget::Margin { child: pc, amount: a1, .. }, Widget::Margin { child: qc, .. }) => {
            lemma_layout_keeps_shape(*child, *pc, *qc, crate::widget::shrink_bc(bc, a1));
        },
        (View::Border { child, .. }, Widget::Border { child: pc, .. }, Widget::Border { child: qc, .. }) => {
            lemma_layout_keeps_shape(*child, *pc, *qc, crate::widget::shrink_bc(bc, 1));
        },
        (View::OnClick { child, .. }, Widget::OnClick { child: pc, .. }, Widget::OnClick { child: qc, .. }) => {
            lemma_layout_keeps_shape(*child, *pc, *qc, bc);
        },
        (View::Column { children }, Widget::Column { children: k1 }, Widget::Column { children: k2 }) => {
            lemma_layout_keeps_shape_seq(children@, k1@, k2@, crate::widget::column_child_bc(bc));
        },
        _ => {},
    }
}

proof fn lemma_layout_keeps_shape_seq(
    vs: Seq<View>,
    s1: Seq<Pod>,
    s2: Seq<Pod>,
    bc: crate::geometry::BoxConstraints,
)
    requires
        crate::widget::layout_rel_seq(s1, s2, bc),
        pod_shape_seq(vs, s1),
    ensures
        pod_shape_seq(vs, s2),
    decreases vs,
{
    if vs.len() > 0 {
        lemma_layout_keeps_shape(vs[0], s1[0], s2[0], bc);
        lemma_layout_keeps_shape_seq(vs.drop_first(), s1.drop_first(), s2.drop_first(), bc);
    }
}

/// Positioning does not change which widgets make the tree up.
pub proof fn lemma_origin_keeps_shape(v: View, p: Pod, q: Pod, o: Point)
    requires
        crate::widget::origin_rel(p, q, o),
        pod_shape(v, p),
    ensures
        pod_shape(v, q),
    decreases v,
{
    reveal_with_fuel(crate::widget::origin_rel, 2);
    reveal_with_fuel(pod_shape, 2);
    match (v, p.widget, q.widget) {
        (View::Margin { child, .. }, Widget::Margin { child: pc, amount: a1, .. }, Widget::Margin { child: qc, .. }) => {
            lemma_origin_keeps_shape(
                *child,
                *pc,
                *qc,
                Point {
                    x: crate::geometry::add_sat_spec(o.x, a1),
                    y: crate::geometry::add_sat_spec(o.y, a1),
                },
            );
        },
        (View::Border { child, .. }, Widget::Border { child: pc, .. }, Widget::Border { child: qc, .. }) => {
            lemma_origin_keeps_shape(
                *child,
                *pc,
                *qc,
                Point {
                    x: crate::geometry::add_sat_spec(o.x, 1),
                    y: crate::geometry::add_sat_spec(o.y, 1),
                },
            );
        },
        (View::OnClick { child, .. }, Widget::OnClick { child: pc, .. }, Widget::OnClick { child: qc, .. }) => {
            lemma_origin_keeps_shape(*child, *pc, *qc, o);
        },
        (View::Column { children }, Widget::Column { children: k1 }, Widget::Column { children: k2 }) => {
            lemma_origin_keeps_shape_seq(children@, k1@, k2@, o);
        },
        _ => {},
    }
}

proof fn lemma_origin_keeps_shape_seq(vs: Seq<View>, s1: Seq<Pod>, s2: Seq<Pod>, o: Point)
    requires
        crate::widget::origin_rel_seq(s1, s2, o),
        pod_shape_seq(vs, s1),
    ensures
        pod_shape_seq(vs, s2),
    decreases vs,
{
    if vs.len() > 0 {
        lemma_origin_keeps_shape(vs[0], s1[0], s2[0], o);
        lemma_origin_keeps_shape_seq(
            vs.drop_first(),
            s1.drop_first(),
            s2.drop_first(),
            Point { x: o.x, y: crate::geometry::add_sat_spec(o.y, s1[0].state.size.height) },
        );
    }
}

/// Painting does not change which widgets make the tree up.
pub proof fn lemma_paint_keeps_shape(v: View, p: Pod, q: Pod)
    requires
        crate::widget::painted_rel(p, q),
        pod_shape(v, p),
    ensures
        pod_shape(v, q),
    decreases v,
{
    reveal_with_fuel(crate::widget::painted_rel, 2);
    reveal_with_fuel(pod_shape, 2);
    match (v, p.widget, q.widget) {
        (View::Margin { child, .. }, Widget::Margin { child: pc, .. }, Widget::Margin { child: qc, .. }) => {
            lemma_paint_keeps_shape(*child, *pc, *qc);
        },
        (View::Border { child, .. }, Widget::Border { child: pc, .. }, Widget::Border { child: qc, .. }) => {
            lemma_paint_keeps_shape(*child, *pc, *qc);
        },
        (View::OnClick { child, .. }, Widget::OnClick { child: pc, .. }, Widget::OnClick { child: qc, .. }) => {
            lemma_paint_keeps_shape(*child, *pc, *qc);
        },
        (View::Column { children }, Widget::Column { children: k1 }, Widget::Column { children: k2 }) => {
            lemma_paint_keeps_shape_seq(children@, k1@, k2@);
        },
        _ => {},
    }
}

proof fn lemma_paint_keeps_shape_seq(vs: Seq<View>, s1: Seq<Pod>, s2: Seq<Pod>)
    requires
        crate::widget::painted_rel_seq(s1, s2),
        pod_shape_seq(vs, s1),
    ensures
        pod_shape_seq(vs, s2),
    decreases vs,
{
    if vs.len() > 0 {
        lemma_paint_keeps_shape(vs[0], s1[0], s2[0]);
        lemma_paint_keeps_shape_seq(vs.drop_first(), s1.drop_first(), s2.drop_first());
    }
}

/// The lifecycle pass does not change which widgets make the tree up.
pub proof fn lemma_lifecycle_keeps_shape(v: View, p: Pod, q: Pod)
    requires
        crate::widget::vc_cleared_rel(p, q),
        pod_shape(v, p),
    ensures
        pod_shape(v, q),
    decreases v,
{
    reveal_with_fuel(crate::widget::vc_cleared_rel, 2);
    reveal_with_fuel(pod_shape, 2);
    match (v, p.widget, q.widget) {
        (View::Margin { child, .. }, Widget::Margin { child: pc, .. }, Widget::Margin { child: qc, .. }) => {
            lemma_lifecycle_keeps_shape(*child, *pc, *qc);
        },
        (View::Border { child, .. }, Widget::Border { child: pc, .. }, Widget::Border { child: qc, .. }) => {
            lemma_lifecycle_keeps_shape(*child, *pc, *qc);
        },
        (View::OnClick { child, .. }, Widget::OnClick { child: pc, .. }, Widget::OnClick { child: qc, .. }) => {
            lemma_lifecycle_keeps_shape(*child, *pc, *qc);
        },
        (View::Column { children }, Widget::Column { children: k1 }, Widget::Column { children: k2 }) => {
            lemma_lifecycle_keeps_shape_seq(children@, k1@, k2@);
        },
        _ => {},
    }
}

proof fn lemma_lifecycle_keeps_shape_seq(vs: Seq<View>, s1: Seq<Pod>, s2: Seq<Pod>)
    requires
        crate::widget::vc_cleared_rel_seq(s1, s2),
        pod_shape_seq(vs, s1),
    ensures
        pod_shape_seq(vs, s2),
    decreases vs,
{
    if vs.len() > 0 {
        lemma_lifecycle_keeps_shape(vs[0], s1[0], s2[0]);
        lemma_lifecycle_keeps_shape_seq(vs.drop_first(), s1.drop_first(), s2.drop_first());
    }
}

proof fn lemma_to_set_add(a: Seq<NodeId>, b: Seq<NodeId>)
    ensures
        (a + b).to_set() == a.to_set().union(b.to_set()),
{
    assert forall|x: NodeId| (a + b).contains(x) <==> (a.contains(x) || b.contains(x)) by {
        if (a + b).contains(x) {
            let i = choose|i: int| 0 <= i < (a + b).len() && (a + b)[i] == x;
            if i < a.len() {
                assert(a[i] == x);
            } else {
                assert(b[i - a.len()] == x);
            }
        }
        if a.contains(x) {
            let i = choose|i: int| 0 <= i < a.len() && a[i] == x;
            assert((a + b)[i] == x);
        }
        if b.contains(x) {
            let i = choose|i: int| 0 <= i < b.len() && b[i] == x;
            assert((a + b)[a.len() + i] == x);
        }
    };
    assert((a + b).to_set() =~= a.to_set().union(b.to_set()));
}

proof fn lemma_to_set_single(id: NodeId)
    ensures
        seq![id].to_set() == Set::<NodeId>::empty().insert(id),
{
    assert(seq![id][0] == id);
    assert(seq![id].contains(id));
    assert(forall|x: NodeId| #[trigger] seq![id].contains(x) ==> x == id);
    assert(seq![id].to_set() =~= Set::<NodeId>::empty().insert(id));
}

proof fn lemma_to_set_empty()
    ensures
        Seq::<NodeId>::empty().to_set() == Set::<NodeId>::empty(),
{
    assert(Seq::<NodeId>::empty().to_set() =~= Set::<NodeId>::empty());
}

fn clone_str(s: &String) -> (r: String)
    ensures
        r@ == s@,
{
    s.clone()
}

impl View {
    pub fn kind(&self) -> (k: NodeKind)
        ensures
            k == view_kind(*self),
    {
        match self {
            View::Text { .. } => NodeKind::Text,
            View::Margin { .. } => NodeKind::Margin,
            View::Border { .. } => NodeKind::Border,
            View::Column { .. } => NodeKind::Column,
            View::OnClick { .. } => NodeKind::OnClick,
            View::Suspend { .. } => NodeKind::Suspend,
        }
    }

    /// Materialize this description: allocate a fresh identity for every
    /// node, push the path one element per entered node and pop it on exit,
    /// register deferred nodes as pending, and return the node's identity,
    /// its private state and its widget.
    pub fn build(&self, cx: &mut Cx) -> (r: (NodeId, ViewState, Pod))
        requires
            old(cx).wf(),
            old(cx).next() + node_count(*self) <= u64::MAX,
        ensures
            final(cx).path() == old(cx).path(),
            final(cx).next() == old(cx).next() + node_count(*self),
            final(cx).wf(),
            r.0.raw == old(cx).next(),
            state_matches(*self, r.1),
            pod_matches(*self, r.1, r.2, old(cx).path(), r.0),
            all_init(r.2),
            final(cx).pending_set() == old(cx).pending_set().union(
                pending_spec(*self, r.1, r.0).to_set(),
            ),
        decreases *self,
    {
        match self {
            View::Text { text, style } => {
                let id = cx.fresh_id();
                let pod = Pod::new(Widget::Text { text: clone_str(text), style: *style });
                proof {
                    lemma_to_set_empty();
                    assert(cx.pending_set() =~= old(cx).pending_set().union(
                        Seq::<NodeId>::empty().to_set(),
                    ));
                }
                (id, ViewState::Leaf, pod)
            },
            View::Suspend { ready, text } => {
                let id = cx.fresh_id();
                if !*ready {
                    cx.add_pending_async(id);
                    proof {
                        lemma_to_set_single(id);
                        assert(cx.pending_set() =~= old(cx).pending_set().union(
                            seq![id].to_set(),
                        ));
                    }
                } else {
                    proof {
                        lemma_to_set_empty();
                        assert(cx.pending_set() =~= old(cx).pending_set().union(
                            Seq::<NodeId>::empty().to_set(),
                        ));
                    }
                }
                let pod = Pod::new(Widget::Suspend { ready: *ready, text: clone_str(text) });
                (id, ViewState::Leaf, pod)
            },
            View::Margin { amount, child } => {
                let id = cx.fresh_id();
                cx.push_id(id);
                let c = child.build(cx);
                cx.pop_id();
                proof {
                    assert(cx.path() =~= old(cx).path());
                }
                let pod = Pod::new(Widget::Margin { amount: *amount, child: Box::new(c.2) });
                (id, ViewState::Wrap { child_id: c.0, child: Box::new(c.1) }, pod)
            },
            View::Border { style, child } => {
                let id = cx.fresh_id();
                cx.push_id(id);
                let c = child.build(cx);
                cx.pop_id();
                proof {
                    assert(cx.path() =~= old(cx).path());
                }
                let pod = Pod::new(Widget::Border { style: *style, child: Box::new(c.2) });
                (id, ViewState::Wrap { child_id: c.0, child: Box::new(c.1) }, pod)
            },
            View::OnClick { action, child } => {
                let id = cx.fresh_id();
                cx.push_id(id);
                let own_path = cx.current_path();
                let c = child.build(cx);
                cx.pop_id();
                proof {
                    assert(cx.path() =~= old(cx).path());
                    assert(own_path@ =~= old(cx).path().push(id));
                }
                let pod = Pod::new(
                    Widget::OnClick { action: *action, id_path: own_path, child: Box::new(c.2) },
                );
                (id, ViewState::Wrap { child_id: c.0, child: Box::new(c.1) }, pod)
            },
            View::Column { children } => {
                let id = cx.fresh_id();
                cx.push_id(id);
                let (list, pods) = build_children(children.as_slice(), cx);
                cx.pop_id();
                proof {
                    assert(cx.path() =~= old(cx).path());
                }
                let pod = Pod::new(Widget::Column { children: pods });
                (id, ViewState::Many { children: Box::new(list) }, pod)
            },
        }
    }

    /// Deliver an addressed message. `pos` elements of `path` are already
    /// consumed by the callers above this node; an empty remainder addresses
    /// this node itself, otherwise the child whose identity matches the next
    /// element consumes it. A remainder matching no child is stale and
    /// absorbed as a no-op.
    pub fn message(
        &self,
        path: &Vec<NodeId>,
        pos: usize,
        state: &ViewState,
        body: MessageBody,
    ) -> (r: MessageResult)
        requires
            pos <= path@.len(),
        ensures
            r == route_spec(*self, path@.skip(pos as int), *state, body),
        decreases *self,
    {
        let ghost rest = path@.skip(pos as int);
        if pos == path.len() {
            match self {
                View::OnClick { action, .. } => {
                    if matches!(body, MessageBody::Click) {
                        MessageResult::Action(*action)
                    } else {
                        MessageResult::Nop
                    }
                },
                View::Suspend { .. } => {
                    if matches!(body, MessageBody::Wake) {
                        MessageResult::RequestRebuild
                    } else {
                        MessageResult::Nop
                    }
                },
                _ => MessageResult::Nop,
            }
        } else {
            proof {
                assert(rest.len() > 0);
                assert(rest[0] == path@[pos as int]);
                assert(rest.drop_first() =~= path@.skip(pos as int + 1));
            }
            match (self, state) {
                (View::Margin { child, .. }, ViewState::Wrap { child_id, child: sc }) => {
                    if *child_id == path[pos] {
                        child.message(path, pos + 1, sc, body)
                    } else {
                        MessageResult::Stale
                    }
                },
                (View::Border { child, .. }, ViewState::Wrap { child_id, child: sc }) => {
                    if *child_id == path[pos] {
                        child.message(path, pos + 1, sc, body)
                    } else {
                        MessageResult::Stale
                    }
                },
                (View::OnClick { child, .. }, ViewState::Wrap { child_id, child: sc }) => {
                    if *child_id == path[pos] {
                        child.message(path, pos + 1, sc, body)
                    } else {
                        MessageResult::Stale
                    }
                },
                (View::Column { children }, ViewState::Many { children: l }) => {
                    route_children(children.as_slice(), l, path, pos, body)
                },
                _ => MessageResult::Stale,
            }
        }
    }
}

fn build_children(vs: &[View], cx: &mut Cx) -> (r: (StateList, Vec<Pod>))
    requires
        old(cx).wf(),
        old(cx).next() + node_count_seq(vs@) <= u64::MAX,
    ensures
        final(cx).path() == old(cx).path(),
        final(cx).next() == old(cx).next() + node_count_seq(vs@),
        final(cx).wf(),
        state_matches_seq(vs@, r.0),
        pod_matches_seq(vs@, r.0, r.1@, old(cx).path()),
        all_init_seq(r.1@),
        final(cx).pending_set() == old(cx).pending_set().union(pending_seq(vs@, r.0).to_set()),
    decreases vs@,
{
    if vs.len() == 0 {
        let pods: Vec<Pod> = Vec::new();
        proof {
            lemma_to_set_empty();
            assert(cx.pending_set() =~= old(cx).pending_set().union(
                pending_seq(vs@, StateList::Nil).to_set(),
            ));
        }
        (StateList::Nil, pods)
    } else {
        let first = &vs[0];
        let c = first.build(cx);
        let rest_slice = &vs[1..vs.len()];
        proof {
            assert(rest_slice@ =~= vs@.drop_first());
        }
        let (tail, mut pods) = build_children(rest_slice, cx);
        let ghost pods0 = pods@;
        pods.insert(0, c.2);
        let list = StateList::Cons { id: c.0, state: Box::new(c.1), rest: Box::new(tail) };
        proof {
            assert(pods@ =~= seq![c.2] + pods0);
            assert(pods@.drop_first() =~= pods0);
            lemma_to_set_add(pending_spec(vs@[0], c.1, c.0), pending_seq(vs@.drop_first(), tail));
            assert(cx.pending_set() =~= old(cx).pending_set().union(
                pending_seq(vs@, list).to_set(),
            ));
        }
        (list, pods)
    }
}

impl View {
    /// Wrap this view in a margin of `amount` cells on every side.
    pub fn margin(self, amount: u16) -> (r: View)
        ensures
            r == (View::Margin { amount, child: Box::new(self) }),
    {
        View::Margin { amount, child: Box::new(self) }
    }

    /// Wrap this view in a drawn border.
    pub fn border(self, style: BorderStyle) -> (r: View)
        ensures
            r == (View::Border { style, child: Box::new(self) }),
    {
        View::Border { style, child: Box::new(self) }
    }

    /// Bubble `action` to the application when this view's bounds are
    /// clicked.
    pub fn on_click(self, action: u64) -> (r: View)
        ensures
            r == (View::OnClick { action, child: Box::new(self) }),
    {
        View::OnClick { action, child: Box::new(self) }
    }
}

fn all_changed_exec() -> (r: ChangeFlags)
    ensures
        r == all_changed(),
{
    ChangeFlags { layout: true, paint: true, tree: true, view_ctx: false }
}

/// Tear a structurally incompatible subtree down and build the new
/// description in its place: old private state and widgets are discarded.
fn teardown(v: &View, cx: &mut Cx) -> (r: (NodeId, ViewState, Pod, ChangeFlags))
    requires
        old(cx).wf(),
        old(cx).next() + node_count(*v) <= u64::MAX,
    ensures
        final(cx).path() == old(cx).path(),
        final(cx).next() == old(cx).next() + node_count(*v),
        final(cx).wf(),
        state_matches(*v, r.1),
        pod_matches(*v, r.1, r.2, old(cx).path(), r.0),
        pod_shape(*v, r.2),
        all_init(r.2),
        flags_cover(r.2),
        final(cx).pending_set() == old(cx).pending_set().union(
            pending_spec(*v, r.1, r.0).to_set(),
        ),
        r.3 == all_changed(),
{
    let b = v.build(cx);
    proof {
        lemma_all_init_cover(b.2);
        lemma_matches_implies_shape(*v, b.1, b.2, old(cx).path(), b.0);
    }
    (b.0, b.1, b.2, all_changed_exec())
}

/// Content agreement is in particular shape agreement.
pub proof fn lemma_matches_implies_shape(v: View, s: ViewState, p: Pod, path: Seq<NodeId>, own: NodeId)
    requires
        pod_matches(v, s, p, path, own),
    ensures
        pod_shape(v, p),
    decreases v,
{
    match v {
        View::Margin { child, .. } => {
            if let ViewState::Wrap { child_id, child: sc } = s {
                if let Widget::Margin { child: pc, .. } = p.widget {
                    lemma_matches_implies_shape(*child, *sc, *pc, path.push(own), child_id);
                }
            }
        },
        View::Border { child, .. } => {
            if let ViewState::Wrap { child_id, child: sc } = s {
                if let Widget::Border { child: pc, .. } = p.widget {
                    lemma_matches_implies_shape(*child, *sc, *pc, path.push(own), child_id);
                }
            }
        },
        View::OnClick { child, .. } => {
            if let ViewState::Wrap { child_id, child: sc } = s {
                if let Widget::OnClick { child: pc, .. } = p.widget {
                    lemma_matches_implies_shape(*child, *sc, *pc, path.push(own), child_id);
                }
            }
        },
        View::Column { children } => {
            if let ViewState::Many { children: l } = s {
                if let Widget::Column { children: pods } = p.widget {
                    lemma_matches_implies_shape_seq(children@, *l, pods@, path.push(own));
                }
            }
        },
        _ => {},
    }
}

proof fn lemma_matches_implies_shape_seq(
    vs: Seq<View>,
    l: StateList,
    pods: Seq<Pod>,
    path: Seq<NodeId>,
)
    requires
        pod_matches_seq(vs, l, pods, path),
    ensures
        pod_shape_seq(vs, pods),
    decreases vs,
{
    if vs.len() > 0 {
        if let StateList::Cons { id, state, rest } = l {
            lemma_matches_implies_shape(vs[0], *state, pods[0], path, id);
            lemma_matches_implies_shape_seq(vs.drop_first(), *rest, pods.drop_first(), path);
        }
    }
}

impl View {
    /// Reconcile this description against the previous one. A node that is
    /// structurally compatible with its predecessor keeps its identity,
    /// its private state and its retained widget, which is updated in
    /// place; an incompatible one is torn down and rebuilt, its old state
    /// and pending work discarded. Returns the node's identity, state,
    /// widget and which flag categories changed.
    pub fn rebuild(
        &self,
        cx: &mut Cx,
        prev: &View,
        id: NodeId,
        state: ViewState,
        pod: Pod,
    ) -> (r: (NodeId, ViewState, Pod, ChangeFlags))
        requires
            old(cx).wf(),
            old(cx).next() + node_count(*self) <= u64::MAX,
        ensures
            final(cx).path() == old(cx).path(),
            final(cx).next() >= old(cx).next(),
            final(cx).next() <= old(cx).next() + node_count(*self),
            final(cx).wf(),
            state_matches(*self, r.1),
            pod_matches(*self, r.1, r.2, old(cx).path(), r.0),
            pod_shape(*self, r.2),
            final(cx).pending_set() == old(cx).pending_set().union(
                pending_spec(*self, r.1, r.0).to_set(),
            ),
            state_matches(*prev, state) && pod_shape(*prev, pod) ==> r.3 == diff_flags(
                *prev,
                *self,
            ),
            same_shape(*prev, *self) && state_matches(*prev, state) && pod_shape(*prev, pod)
                ==> (r.0 == id && r.1 == state),
            pod.state.flags.merge_change_spec(r.3).covers(r.2.state.flags),
            view_kind(*self) == view_kind(*prev) && state_matches(*prev, state) && pod_shape(
                *prev,
                pod,
            ) ==> r.2.state.flags == pod.state.flags.merge_change_spec(r.3),
            flags_cover(pod) ==> flags_cover(r.2),
        decreases *self,
    {
        let pst = pod.state;
        match (self, prev) {
            (View::Text { text, style }, View::Text { text: pt, style: ps }) => {
                match (state, pod.widget) {
                    (ViewState::Leaf, Widget::Text { .. }) => {
                        let text_changed = !(*text == *pt);
                        let cf = ChangeFlags {
                            layout: text_changed,
                            paint: text_changed || *style != *ps,
                            tree: false,
                            view_ctx: false,
                        };
                        let npod = Pod {
                            state: WidgetState { flags: pst.flags.merge_change(cf), ..pst },
                            widget: Widget::Text { text: clone_str(text), style: *style },
                        };
                        proof {
                            lemma_to_set_empty();
                            assert(cx.pending_set() =~= old(cx).pending_set().union(
                                pending_spec(*self, ViewState::Leaf, id).to_set(),
                            ));
                        }
                        (id, ViewState::Leaf, npod, cf)
                    },
                    (s2, w2) => {
                        let pod2 = Pod { state: pst, widget: w2 };
                        let t = teardown(self, cx);
                        proof {
                            assert(!(state_matches(*prev, s2) && pod_shape(*prev, pod2)));
                        }
                        t
                    },
                }
            },
            (View::Suspend { ready, text }, View::Suspend { ready: pr, text: pt }) => {
                match (state, pod.widget) {
                    (ViewState::Leaf, Widget::Suspend { .. }) => {
                        if !*ready {
                            cx.add_pending_async(id);
                            proof {
                                lemma_to_set_single(id);
                            }
                        } else {
                            proof {
                                lemma_to_set_empty();
                            }
                        }
                        proof {
                            assert(cx.pending_set() =~= old(cx).pending_set().union(
                                pending_spec(*self, ViewState::Leaf, id).to_set(),
                            ));
                        }
                        let changed = *ready != *pr || !(*text == *pt);
                        let cf = ChangeFlags {
                            layout: changed,
                            paint: changed,
                            tree: false,
                            view_ctx: false,
                        };
                        let npod = Pod {
                            state: WidgetState { flags: pst.flags.merge_change(cf), ..pst },
                            widget: Widget::Suspend { ready: *ready, text: clone_str(text) },
                        };
                        (id, ViewState::Leaf, npod, cf)
                    },
                    (s2, w2) => {
                        let pod2 = Pod { state: pst, widget: w2 };
                        let t = teardown(self, cx);
                        proof {
                            assert(!(state_matches(*prev, s2) && pod_shape(*prev, pod2)));
                        }
                        t
                    },
                }
            },
            (View::Margin { amount, child }, View::Margin { amount: pa, child: pchild }) => {
                match (state, pod.widget) {
                    (ViewState::Wrap { child_id, child: sc }, Widget::Margin { child: wpod, .. }) => {
                        cx.push_id(id);
                        let c = child.rebuild(cx, pchild, child_id, *sc, *wpod);
                        cx.pop_id();
                        proof {
                            assert(cx.path() =~= old(cx).path());
                        }
                        let own = ChangeFlags {
                            layout: *amount != *pa,
                            paint: *amount != *pa,
                            tree: false,
                            view_ctx: false,
                        };
                        let cf = own.union(c.3);
                        let npod = Pod {
                            state: WidgetState { flags: pst.flags.merge_change(cf), ..pst },
                            widget: Widget::Margin { amount: *amount, child: Box::new(c.2) },
                        };
                        (id, ViewState::Wrap { child_id: c.0, child: Box::new(c.1) }, npod, cf)
                    },
                    (s2, w2) => {
                        let pod2 = Pod { state: pst, widget: w2 };
                        let t = teardown(self, cx);
                        proof {
                            assert(!(state_matches(*prev, s2) && pod_shape(*prev, pod2)));
                        }
                        t
                    },
                }
            },
            (View::Border { style, child }, View::Border { style: ps, child: pchild }) => {
                match (state, pod.widget) {
                    (ViewState::Wrap { child_id, child: sc }, Widget::Border { child: wpod, .. }) => {
                        cx.push_id(id);
                        let c = child.rebuild(cx, pchild, child_id, *sc, *wpod);
                        cx.pop_id();
                        proof {
                            assert(cx.path() =~= old(cx).path());
                        }
                        let own = ChangeFlags {
                            layout: false,
                            paint: *style != *ps,
                            tree: false,
                            view_ctx: false,
                        };
                        let cf = own.union(c.3);
                        let npod = Pod {
                            state: WidgetState { flags: pst.flags.merge_change(cf), ..pst },
                            widget: Widget::Border { style: *style, child: Box::new(c.2) },
                        };
                        (id, ViewState::Wrap { child_id: c.0, child: Box::new(c.1) }, npod, cf)
                    },
                    (s2, w2) => {
                        let pod2 = Pod { state: pst, widget: w2 };
                        let t = teardown(self, cx);
                        proof {
                            assert(!(state_matches(*prev, s2) && pod_shape(*prev, pod2)));
                        }
                        t
                    },
                }
            },
            (View::OnClick { action, child }, View::OnClick { child: pchild, .. }) => {
                match (state, pod.widget) {
                    (ViewState::Wrap { child_id, child: sc }, Widget::OnClick { child: wpod, .. }) => {
                        cx.push_id(id);
                        let own_path = cx.current_path();
                        let c = child.rebuild(cx, pchild, child_id, *sc, *wpod);
                        cx.pop_id();
                        proof {
                            assert(cx.path() =~= old(cx).path());
                            assert(own_path@ =~= old(cx).path().push(id));
                        }
                        let cf = c.3;
                        let npod = Pod {
                            state: WidgetState { flags: pst.flags.merge_change(cf), ..pst },
                            widget: Widget::OnClick {
                                action: *action,
                                id_path: own_path,
                                child: Box::new(c.2),
                            },
                        };
                        (id, ViewState::Wrap { child_id: c.0, child: Box::new(c.1) }, npod, cf)
                    },
                    (s2, w2) => {
                        let pod2 = Pod { state: pst, widget: w2 };
                        let t = teardown(self, cx);
                        proof {
                            assert(!(state_matches(*prev, s2) && pod_shape(*prev, pod2)));
                        }
                        t
                    },
                }
            },
            (View::Column { children }, View::Column { children: pchildren }) => {
                match (state, pod.widget) {
                    (ViewState::Many { children: l }, Widget::Column { children: wpods }) => {
                        let ghost wpods0 = wpods@;
                        cx.push_id(id);
                        let rc = rebuild_children(
                            children.as_slice(),
                            pchildren.as_slice(),
                            *l,
                            wpods,
                            cx,
                        );
                        cx.pop_id();
                        proof {
                            assert(cx.path() =~= old(cx).path());
                        }
                        let cf = rc.2;
                        let npod = Pod {
                            state: WidgetState { flags: pst.flags.merge_change(cf), ..pst },
                            widget: Widget::Column { children: rc.1 },
                        };
                        proof {
                            if flags_cover(pod) {
                                assert(flags_cover_seq(wpods0, pst.flags));
                                assert(flags_cover_seq(rc.1@, pst.flags.merge_change_spec(cf)));
                                assert(flags_cover(npod));
                            }
                        }
                        (id, ViewState::Many { children: Box::new(rc.0) }, npod, cf)
                    },
                    (s2, w2) => {
                        let pod2 = Pod { state: pst, widget: w2 };
                        let t = teardown(self, cx);
                        proof {
                            assert(!(state_matches(*prev, s2) && pod_shape(*prev, pod2)));
                        }
                        t
                    },
                }
            },
            _ => {
                let t = teardown(self, cx);
                proof {
                    assert(!same_shape(*prev, *self));
                    assert(state_matches(*prev, state) && pod_shape(*prev, pod) ==> t.3
                        == diff_flags(*prev, *self));
                }
                t
            },
        }
    }
}

fn rebuild_children(
    vs: &[View],
    prevs: &[View],
    l: StateList,
    pods: Vec<Pod>,
    cx: &mut Cx,
) -> (r: (StateList, Vec<Pod>, ChangeFlags))
    requires
        old(cx).wf(),
        old(cx).next() + node_count_seq(vs@) <= u64::MAX,
    ensures
        final(cx).path() == old(cx).path(),
        final(cx).next() >= old(cx).next(),
        final(cx).next() <= old(cx).next() + node_count_seq(vs@),
        final(cx).wf(),
        state_matches_seq(vs@, r.0),
        pod_matches_seq(vs@, r.0, r.1@, old(cx).path()),
        pod_shape_seq(vs@, r.1@),
        final(cx).pending_set() == old(cx).pending_set().union(pending_seq(vs@, r.0).to_set()),
        state_matches_seq(prevs@, l) && pod_shape_seq(prevs@, pods@) ==> r.2 == diff_flags_seq(
            prevs@,
            vs@,
        ),
        same_shape_seq(prevs@, vs@) && state_matches_seq(prevs@, l) && pod_shape_seq(
            prevs@,
            pods@,
        ) ==> r.0 == l,
        forall|f: PodFlags|
            flags_cover_seq(pods@, f) ==> flags_cover_seq(r.1@, f.merge_change_spec(r.2)),
    decreases vs@,
{
    let ghost pods_in = pods@;
    if vs.len() == 0 {
        let out: Vec<Pod> = Vec::new();
        let cf = if prevs.len() == 0 {
            ChangeFlags::none()
        } else {
            all_changed_exec()
        };
        proof {
            lemma_to_set_empty();
            assert(cx.pending_set() =~= old(cx).pending_set().union(
                pending_seq(vs@, StateList::Nil).to_set(),
            ));
        }
        (StateList::Nil, out, cf)
    } else {
        let mut pods = pods;
        let keep = prevs.len() > 0 && pods.len() > 0;
        let ghost l_in = l;
        match l {
            StateList::Cons { id: cid, state: cstate, rest: ltail } => {
                if keep {
                    let wpod = pods.remove(0);
                    proof {
                        assert(wpod == pods_in[0]);
                        assert(pods@ =~= pods_in.drop_first());
                    }
                    let c = (&vs[0]).rebuild(cx, &prevs[0], cid, *cstate, wpod);
                    let vs_rest = &vs[1..vs.len()];
                    let prevs_rest = &prevs[1..prevs.len()];
                    proof {
                        assert(vs_rest@ =~= vs@.drop_first());
                        assert(prevs_rest@ =~= prevs@.drop_first());
                    }
                    let rest = rebuild_children(vs_rest, prevs_rest, *ltail, pods, cx);
                    let mut out = rest.1;
                    let ghost out0 = out@;
                    out.insert(0, c.2);
                    let cf = c.3.union(rest.2);
                    let list = StateList::Cons {
                        id: c.0,
                        state: Box::new(c.1),
                        rest: Box::new(rest.0),
                    };
                    proof {
                        assert(out@ =~= seq![c.2] + out0);
                        assert(out@.drop_first() =~= out0);
                        lemma_to_set_add(
                            pending_spec(vs@[0], c.1, c.0),
                            pending_seq(vs@.drop_first(), rest.0),
                        );
                        assert(cx.pending_set() =~= old(cx).pending_set().union(
                            pending_seq(vs@, list).to_set(),
                        ));
                        assert forall|f: PodFlags| flags_cover_seq(pods_in, f) implies
                            flags_cover_seq(out@, f.merge_change_spec(cf)) by {
                            assert(flags_cover(pods_in[0]));
                            assert(f.covers(pods_in[0].state.flags));
                            assert(flags_cover_seq(pods_in.drop_first(), f));
                            assert(flags_cover_seq(out0, f.merge_change_spec(rest.2)));
                            lemma_cover_seq_mono(
                                out0,
                                f.merge_change_spec(rest.2),
                                f.merge_change_spec(cf),
                            );
                            assert(f.merge_change_spec(cf).covers(c.2.state.flags));
                        };
                    }
                    (list, out, cf)
                } else {
                    let b = build_children(vs, cx);
                    let cf = all_changed_exec();
                    proof {
                        lemma_matches_implies_shape_seq(vs@, b.0, b.1@, old(cx).path());
                        assert(!(state_matches_seq(prevs@, l_in) && pod_shape_seq(
                            prevs@,
                            pods_in,
                        )));
                        assert(!(same_shape_seq(prevs@, vs@) && state_matches_seq(prevs@, l_in)
                            && pod_shape_seq(prevs@, pods_in)));
                        assert forall|f: PodFlags| flags_cover_seq(pods_in, f) implies
                            flags_cover_seq(b.1@, f.merge_change_spec(cf)) by {
                            lemma_all_init_cover_seq(b.1@, f.merge_change_spec(cf));
                        };
                    }
                    (b.0, b.1, cf)
                }
            },
            StateList::Nil => {
                let b = build_children(vs, cx);
                let cf = all_changed_exec();
                proof {
                    lemma_matches_implies_shape_seq(vs@, b.0, b.1@, old(cx).path());
                    assert forall|f: PodFlags| flags_cover_seq(pods_in, f) implies
                        flags_cover_seq(b.1@, f.merge_change_spec(cf)) by {
                        lemma_all_init_cover_seq(b.1@, f.merge_change_spec(cf));
                    };
                }
                (b.0, b.1, cf)
            },
        }
    }
}

fn route_children(
    vs: &[View],
    l: &StateList,
    path: &Vec<NodeId>,
    pos: usize,
    body: MessageBody,
) -> (r: MessageResult)
    requires
        pos < path@.len(),
    ensures
        r == route_seq(vs@, *l, path@.skip(pos as int), body),
    decreases vs@,
{
    proof {
        assert(path@.skip(pos as int)[0] == path@[pos as int]);
        assert(path@.skip(pos as int).drop_first() =~= path@.skip(pos as int + 1));
    }
    let n = path.len();
    if vs.len() == 0 {
        MessageResult::Stale
    } else {
        match l {
            StateList::Cons { id, state, rest } => {
                if *id == path[pos] {
                    assert(pos < n);
                    vs[0].message(path, pos + 1, state, body)
                } else {
                    let rest_slice = &vs[1..vs.len()];
                    proof {
                        assert(rest_slice@ =~= vs@.drop_first());
                    }
                    route_children(rest_slice, rest, path, pos, body)
                }
            },
            StateList::Nil => MessageResult::Stale,
        }
    }
}

} // verus!
