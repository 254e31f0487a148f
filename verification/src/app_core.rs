use vstd::prelude::*;
use vstd::view::View as _;

use crate::flags::PodFlags;
use crate::geometry::{BoxConstraints, Point, Size};
use crate::ident::{Cx, NodeId};
use crate::view::{
    lemma_all_init_cover, lemma_layout_keeps_shape, lemma_lifecycle_keeps_shape,
    lemma_matches_implies_shape, lemma_origin_keeps_shape, lemma_paint_keeps_shape, node_count,
    diff_flags, pending_spec, pod_matches, pod_shape, route_spec, same_shape, state_matches,
    view_kind,
    MessageResult, View, ViewState,
};
use crate::widget::{
    click_msgs, cmd_models, flags_cover, layout_rel, lemma_layout_clears_subtree,
    lemma_layout_keeps_cover, lemma_lifecycle_clears_and_keeps_cover, lemma_origin_keeps_cover,
    lemma_paint_clears_and_keeps_cover, lemma_root_observes_subtree, msg_models, origin_rel,
    paint_cmds, painted_rel, raised_below, vc_cleared_rel, widget_kind, CmdModel, DrawCmd, Event,
    Message, MessageBody, Pod,
};

verus! {

/// The synchronization state of the logic task. The render loop follows a
/// strict cycle, but requests reach the logic task in any order; this
/// records what earlier requests left outstanding.
#[derive(Clone, Copy, PartialEq, Eq, Structural, Debug)]
pub enum UiState {
    /// Ready for events and render requests.
    Start,
    /// A render request is being delayed for outstanding asynchronous work.
    Delayed,
    /// An asynchronous completion woke the render loop; its render request
    /// has not arrived yet.
    WokeUI,
}

/// A request sent from the render loop to the logic task.
pub enum AppMessage {
    /// Batched input messages, addressed by identity path.
    Events(Vec<Message>),
    /// An asynchronous completion for the node at the path.
    Wake(Vec<NodeId>),
    /// Produce a view; `true` allows delaying for outstanding async work.
    Render(bool),
}

/// The logic task's answer to a render request: the previous view and state
/// to reconcile against, and the freshly produced view.
pub struct RenderResponse {
    pub prev: Option<View>,
    pub view: View,
    pub state: Option<ViewState>,
}

/// What the logic task asks its runner to do after one asynchronous
/// completion was handled.
#[derive(Clone, Copy, PartialEq, Eq, Structural, Debug)]
pub struct WakeOutcome {
    /// Notify the render loop that fresh content is coming.
    pub send_wake: bool,
    /// Run the render handshake now.
    pub render: bool,
}

pub open spec fn no_dup_ids(s: Seq<NodeId>) -> bool {
    forall|i: int, j: int| 0 <= i < j < s.len() ==> s[i] != s[j]
}

/// The logic task's own state: the current view value and its private
/// state, the set of identities with outstanding asynchronous work, and the
/// synchronization state machine. The runner around it owns the application
/// data, the view-producing function and the queues.
pub struct AppTask {
    pub view: Option<View>,
    pub state: Option<ViewState>,
    pub pending_async: Vec<NodeId>,
    pub ui_state: UiState,
    pub deadline_armed: bool,
}

/// Whether a completion for `path` asks for a rebuild: the addressed node
/// still exists and answers the wake with a rebuild request.
pub open spec fn wake_rebuilds(t: AppTask, path: Seq<NodeId>) -> bool {
    match (t.view, t.state) {
        (Some(v), Some(s)) => path.len() > 0 && route_spec(
            v,
            path.skip(1),
            s,
            MessageBody::Wake,
        ) == MessageResult::RequestRebuild,
        _ => false,
    }
}

/// The application actions that routing `msgs` through the tree produces,
/// in arrival order. Each message's path has its root element stripped
/// before delivery.
pub open spec fn actions_spec(v: View, s: ViewState, msgs: Seq<Message>) -> Seq<u64>
    decreases msgs.len(),
{
    if msgs.len() == 0 {
        Seq::empty()
    } else {
        let head: Seq<u64> = if msgs[0].id_path@.len() > 0 {
            match route_spec(v, msgs[0].id_path@.skip(1), s, msgs[0].body) {
                MessageResult::Action(a) => seq![a],
                _ => Seq::empty(),
            }
        } else {
            Seq::empty()
        };
        head + actions_spec(v, s, msgs.drop_first())
    }
}

impl AppTask {
    pub open spec fn pending_set(&self) -> Set<NodeId> {
        self.pending_async@.to_set()
    }

    pub open spec fn wf(&self) -> bool {
        &&& no_dup_ids(self.pending_async@)
        &&& (self.view is Some <==> self.state is Some)
        &&& match (self.view, self.state) {
            (Some(v), Some(s)) => state_matches(v, s),
            _ => true,
        }
    }

    pub fn new() -> (t: AppTask)
        ensures
            t.view is None,
            t.state is None,
            t.pending_async@ == Seq::<NodeId>::empty(),
            t.ui_state == UiState::Start,
            !t.deadline_armed,
            t.wf(),
    {
        let t = AppTask {
            view: None,
            state: None,
            pending_async: Vec::new(),
            ui_state: UiState::Start,
            deadline_armed: false,
        };
        proof {
            assert(t.pending_async@ =~= Seq::<NodeId>::empty());
        }
        t
    }

    /// Route one batch of input messages through the current view, root
    /// element stripped, and hand the bubbled application actions back for
    /// the embedding program to apply. Before the first render there is no
    /// view to route into and the batch is dropped.
    pub fn handle_events(&self, events: &Vec<Message>) -> (actions: Vec<u64>)
        ensures
            match (self.view, self.state) {
                (Some(v), Some(s)) => actions@ == actions_spec(v, s, events@),
                _ => actions@ == Seq::<u64>::empty(),
            },
    {
        match (&self.view, &self.state) {
            (Some(v), Some(s)) => route_events(v, s, events.as_slice()),
            _ => {
                let r: Vec<u64> = Vec::new();
                proof {
                    assert(r@ =~= Seq::<u64>::empty());
                }
                r
            },
        }
    }

    /// Handle one asynchronous completion. If the addressed node asks for a
    /// rebuild: wake the render loop unless it was already woken or a render
    /// is being delayed, drop the node from the pending set, and — when the
    /// last pending completion arrives while a render is being delayed —
    /// render immediately instead of waiting for the deadline. An action
    /// bubbled during wake handling is absorbed here. A completion for a
    /// node no longer in the tree is silently ignored.
    pub fn handle_wake(&mut self, path: &Vec<NodeId>) -> (o: WakeOutcome)
        requires
            old(self).wf(),
        ensures
            final(self).wf(),
            final(self).view == old(self).view,
            final(self).state == old(self).state,
            final(self).deadline_armed == old(self).deadline_armed,
            !wake_rebuilds(*old(self), path@) ==> (*final(self) == *old(self) && o
                == (WakeOutcome { send_wake: false, render: false })),
            wake_rebuilds(*old(self), path@) ==> ({
                &&& o.send_wake == (old(self).ui_state == UiState::Start)
                &&& final(self).ui_state == (if old(self).ui_state == UiState::Start {
                    UiState::WokeUI
                } else {
                    old(self).ui_state
                })
                &&& final(self).pending_set() == old(self).pending_set().remove(
                    path@.last(),
                )
                &&& o.render == (final(self).pending_async@.len() == 0 && old(self).ui_state
                    == UiState::Delayed)
            }),
    {
        let needs_rebuild: bool = match (&self.view, &self.state) {
            (Some(v), Some(s)) => {
                if path.len() > 0 {
                    let r = v.message(path, 1, s, MessageBody::Wake);
                    matches!(r, MessageResult::RequestRebuild)
                } else {
                    false
                }
            },
            _ => false,
        };
        if needs_rebuild {
            let send_wake = matches!(self.ui_state, UiState::Start);
            if send_wake {
                self.ui_state = UiState::WokeUI;
            }
            let target = path[path.len() - 1];
            proof {
                assert(target == path@.last());
            }
            remove_id(&mut self.pending_async, target);
            let render = self.pending_async.len() == 0 && matches!(
                self.ui_state,
                UiState::Delayed,
            );
            WakeOutcome { send_wake, render }
        } else {
            WakeOutcome { send_wake: false, render: false }
        }
    }

    /// Handle a render request. Without permission to delay, or with no
    /// asynchronous work outstanding, the render runs immediately; otherwise
    /// a debounce deadline is armed so that several near-simultaneous
    /// completions coalesce into one visual update.
    pub fn handle_render_request(&mut self, delay: bool) -> (render: bool)
        requires
            old(self).wf(),
        ensures
            final(self).wf(),
            render == (!delay || old(self).pending_async@.len() == 0),
            render ==> *final(self) == *old(self),
            !render ==> *final(self) == (AppTask {
                ui_state: UiState::Delayed,
                deadline_armed: true,
                ..*old(self)
            }),
    {
        if !delay || self.pending_async.len() == 0 {
            true
        } else {
            self.ui_state = UiState::Delayed;
            self.deadline_armed = true;
            false
        }
    }

    /// The armed debounce deadline elapsed with no further request: render
    /// now regardless of outstanding asynchronous work, bounding worst-case
    /// latency under continuous churn.
    pub fn handle_deadline(&mut self) -> (render: bool)
        requires
            old(self).wf(),
            old(self).deadline_armed,
        ensures
            final(self).wf(),
            *final(self) == *old(self),
            render,
    {
        true
    }

    /// Begin the render handshake: hand the previous view and state out
    /// together with the freshly produced view.
    pub fn begin_render(&mut self, view: View) -> (resp: RenderResponse)
        requires
            old(self).wf(),
        ensures
            resp.prev == old(self).view,
            resp.state == old(self).state,
            resp.view == view,
            final(self).view is None,
            final(self).state is None,
            final(self).pending_async == old(self).pending_async,
            final(self).ui_state == old(self).ui_state,
            final(self).deadline_armed == old(self).deadline_armed,
            final(self).wf(),
    {
        let prev = self.view.take();
        let state = self.state.take();
        RenderResponse { prev, view, state }
    }

    /// Complete the render handshake: adopt the reconciled view, its state
    /// and the refreshed pending-async set, cancel any armed deadline and
    /// return to the idle state.
    pub fn finish_render(&mut self, view: View, state: ViewState, pending: Vec<NodeId>)
        requires
            old(self).wf(),
            no_dup_ids(pending@),
            state_matches(view, state),
        ensures
            final(self).view == Some(view),
            final(self).state == Some(state),
            final(self).pending_async == pending,
            final(self).ui_state == UiState::Start,
            !final(self).deadline_armed,
            final(self).wf(),
    {
        self.view = Some(view);
        self.state = Some(state);
        self.pending_async = pending;
        self.ui_state = UiState::Start;
        self.deadline_armed = false;
    }
}

/// Why a reconcile pass cannot proceed.
#[derive(Clone, Copy, PartialEq, Eq, Structural, Debug)]
pub enum RootError {
    /// The new view builds a root widget of a different kind than the
    /// retained one: a defect in the embedding program, fatal by design.
    RootKindMismatch,
}

/// Whether the layout pass must run this cycle: outstanding layout work, a
/// structural change, or a terminal size change.
pub open spec fn needs_layout_spec(p: Pod, old_size: Size, term: Size) -> bool {
    p.state.flags.request_layout || p.state.flags.tree_changed || term != old_size
}

/// How one cycle's conditional passes relate the retained tree before
/// (`p0`) to the tree after (`p1`), and the command list before (`cmds0`)
/// to the command list after (`cmds1`). `pl` is the tree after the layout
/// pass under tight terminal constraints, `po` after positioning from the
/// top-left corner, `pv` after the context-changed lifecycle notice — each
/// equal to its predecessor where that pass did not run. When paint runs,
/// what the cycle appends is exactly the paint output of the tree the paint
/// pass walked.
pub open spec fn render_stages(
    p0: Pod,
    pl: Pod,
    po: Pod,
    pv: Pod,
    p1: Pod,
    cmds0: Seq<CmdModel>,
    cmds1: Seq<CmdModel>,
    old_size: Size,
    term: Size,
) -> bool {
    let nl = needs_layout_spec(p0, old_size, term);
    &&& (if nl {
        layout_rel(p0, pl, BoxConstraints { min: term, max: term }) && origin_rel(
            pl,
            po,
            Point { x: 0, y: 0 },
        )
    } else {
        pl == p0 && po == p0
    })
    &&& (if po.state.flags.view_context_changed {
        vc_cleared_rel(po, pv)
    } else {
        pv == po
    })
    &&& (if pv.state.flags.request_paint || nl {
        painted_rel(pv, p1) && cmds1 == cmds0 + paint_cmds(pv)
    } else {
        p1 == pv && cmds1 == cmds0
    })
}

/// The subtree is structurally a Quit notification somewhere in the batch.
pub open spec fn any_quit(evs: Seq<Event>) -> bool
    decreases evs.len(),
{
    evs.len() > 0 && (evs[0] is Quit || any_quit(evs.drop_first()))
}

/// The messages one cycle's event dispatch emits, in arrival order.
pub open spec fn events_msgs(p: Pod, evs: Seq<Event>) -> Seq<crate::widget::MsgModel>
    decreases evs.len(),
{
    if evs.len() == 0 {
        Seq::empty()
    } else {
        (match evs[0] {
            Event::Mouse { down: true, x, y } => click_msgs(p, x, y),
            _ => Seq::empty(),
        }) + events_msgs(p, evs.drop_first())
    }
}

/// The pointer position after the batch: the last mouse notification wins.
pub open spec fn cursor_after(evs: Seq<Event>, c: Option<Point>) -> Option<Point>
    decreases evs.len(),
{
    if evs.len() == 0 {
        c
    } else {
        cursor_after(
            evs.drop_first(),
            match evs[0] {
                Event::Mouse { x, y, .. } => Some(Point { x, y }),
                _ => c,
            },
        )
    }
}

/// The render loop's retained state: the widget tree, the build context,
/// the last known terminal size and pointer position, and the outbound
/// messages collected while dispatching events. The runner around it owns
/// the terminal and the queues.
pub struct RenderRoot {
    pub size: Size,
    pub cursor_pos: Option<Point>,
    pub events: Vec<Message>,
    pub root_pod: Option<Pod>,
    pub cx: Cx,
    pub root_id: Option<NodeId>,
    /// The view the retained tree was last reconciled against.
    pub shown: Ghost<View>,
}

impl RenderRoot {
    pub open spec fn wf(&self) -> bool {
        &&& self.cx.wf()
        &&& self.cx.path().len() == 0
        &&& (self.root_pod is Some <==> self.root_id is Some)
        &&& match self.root_pod {
            Some(p) => flags_cover(p) && pod_shape(self.shown@, p),
            None => true,
        }
    }

    pub fn new() -> (r: RenderRoot)
        ensures
            r.wf(),
            r.root_pod is None,
            r.root_id is None,
            r.events@ == Seq::<Message>::empty(),
            r.size == (Size { width: 0, height: 0 }),
            r.cursor_pos is None,
            r.cx.next() == 1,
            r.cx.pending() == Seq::<NodeId>::empty(),
    {
        let r = RenderRoot {
            size: Size { width: 0, height: 0 },
            cursor_pos: None,
            events: Vec::new(),
            root_pod: None,
            cx: Cx::new(),
            root_id: None,
            shown: Ghost(arbitrary()),
        };
        proof {
            assert(r.events@ =~= Seq::<Message>::empty());
        }
        r
    }

    /// Reconcile the logic task's response into the retained tree: a first
    /// response builds the tree, every later one rebuilds it against the
    /// previous view. The identity path is balanced around either pass. A
    /// response whose view would change the retained root widget's kind is
    /// refused — and only such a response is. On a rebuild, the reported
    /// change flags are raised on the retained root, so every change stays
    /// observable there until the owning pass clears it. On success, the
    /// now-current view, its state and the refreshed pending-async
    /// registrations are handed back for the logic task.
    pub fn reconcile(&mut self, response: RenderResponse) -> (r: Result<
        (View, ViewState, Vec<NodeId>),
        RootError,
    >)
        requires
            old(self).wf(),
            old(self).cx.next() + node_count(response.view) <= u64::MAX,
            old(self).root_pod is Some ==> response.prev is Some && response.state is Some,
        ensures
            final(self).wf(),
            final(self).cx.path().len() == 0,
            (r is Err) == (old(self).root_pod matches Some(p) && widget_kind(p.widget)
                != view_kind(response.view)),
            r is Err ==> *final(self) == *old(self),
            r matches Ok(ok) ==> ({
                &&& final(self).root_pod is Some
                &&& final(self).root_id is Some
                &&& final(self).shown@ == response.view
                &&& ok.0 == response.view
                &&& state_matches(response.view, ok.1)
                &&& no_dup_ids(ok.2@)
                &&& (final(self).root_id matches Some(rid) && ok.2@.to_set() == pending_spec(
                    response.view,
                    ok.1,
                    rid,
                ).to_set())
                &&& (final(self).root_pod matches Some(p2) && final(self).root_id matches Some(
                    rid,
                ) && pod_matches(response.view, ok.1, p2, Seq::<NodeId>::empty(), rid))
                &&& (old(self).root_pod is None ==> (final(self).root_id matches Some(rid)
                    && rid.raw == old(self).cx.next()))
                &&& (old(self).root_pod matches Some(p) ==> response.prev matches Some(pv)
                    ==> response.state matches Some(ps) ==> ((same_shape(pv, response.view)
                    && state_matches(pv, ps) && pod_shape(pv, p)) ==> (final(self).root_id
                    == old(self).root_id && ok.1 == ps)))
                &&& (old(self).root_pod matches Some(p) ==> response.prev matches Some(pv)
                    ==> response.state matches Some(ps) ==> ((state_matches(pv, ps)
                    && pod_shape(pv, p)) ==> (final(self).root_pod matches Some(p2)
                    && p2.state.flags == p.state.flags.merge_change_spec(
                        diff_flags(pv, response.view),
                    ))))
            }),
    {
        let mismatch: bool = match &self.root_pod {
            Some(p) => {
                let k = p.kind();
                let vk = response.view.kind();
                k != vk
            },
            None => false,
        };
        if mismatch {
            return Err(RootError::RootKindMismatch);
        }
        self.cx.clear_pending();
        let RenderResponse { prev, view, state } = response;
        let pod_opt = self.root_pod.take();
        let id_opt = self.root_id.take();
        match (pod_opt, id_opt, prev, state) {
            (Some(pod), Some(id), Some(pv), Some(ps)) => {
                let ghost pod0 = pod;
                let ghost ps0 = ps;
                let c = view.rebuild(&mut self.cx, &pv, id, ps, pod);
                let mut npod = c.2;
                let _ = npod.mark(c.3);
                proof {
                    crate::widget::lemma_cover_root_mono(
                        c.2,
                        c.2.state.flags.merge_change_spec(c.3),
                    );
                    assert(flags_cover(npod));
                    assert(pod_shape(view, npod));
                    if state_matches(pv, ps0) && pod_shape(pv, pod0) {
                        assert(widget_kind(pod0.widget) == view_kind(pv));
                        assert(view_kind(view) == view_kind(pv));
                        assert(c.2.state.flags == pod0.state.flags.merge_change_spec(c.3));
                        assert(c.3 == diff_flags(pv, view));
                        assert(npod.state.flags == pod0.state.flags.merge_change_spec(
                            diff_flags(pv, view),
                        ));
                    }
                }
                self.root_pod = Some(npod);
                self.root_id = Some(c.0);
                proof {
                    self.shown@ = view;
                }
                let pending = self.cx.take_pending();
                proof {
                    assert(pending@.to_set() =~= pending_spec(view, c.1, c.0).to_set());
                    assert(old(self).cx.path() =~= Seq::<NodeId>::empty());
                    assert(pod_matches(view, c.1, npod, Seq::<NodeId>::empty(), c.0));
                }
                Ok((view, c.1, pending))
            },
            (None, None, _, _) => {
                let b = view.build(&mut self.cx);
                proof {
                    lemma_all_init_cover(b.2);
                    lemma_matches_implies_shape(view, b.1, b.2, old(self).cx.path(), b.0);
                }
                self.root_pod = Some(b.2);
                self.root_id = Some(b.0);
                proof {
                    self.shown@ = view;
                }
                let pending = self.cx.take_pending();
                proof {
                    assert(pending@.to_set() =~= pending_spec(view, b.1, b.0).to_set());
                    assert(old(self).cx.path() =~= Seq::<NodeId>::empty());
                    assert(pod_matches(view, b.1, b.2, Seq::<NodeId>::empty(), b.0));
                }
                Ok((view, b.1, pending))
            },
            _ => {
                proof {
                    assert(false);
                }
                Err(RootError::RootKindMismatch)
            },
        }
    }

    /// Run the conditional layout, lifecycle and paint passes of one cycle.
    /// Layout runs only when flags or the terminal size demand it; the
    /// lifecycle notice is delivered only when a view context changed;
    /// paint runs only when content is stale or was just laid out. After
    /// the passes, no flag is left raised anywhere in the tree, what was
    /// appended to `cmds` is exactly the paint output of the tree the paint
    /// pass walked after layout under tight terminal constraints (see
    /// `render_stages`), and a cycle with nothing to do hands the retained
    /// tree back untouched.
    pub fn render_passes(&mut self, term_size: Size, cmds: &mut Vec<DrawCmd>) -> (painted: bool)
        requires
            old(self).wf(),
            old(self).root_pod is Some,
        ensures
            final(self).wf(),
            final(self).root_pod is Some,
            final(self).shown == old(self).shown,
            final(self).cx == old(self).cx,
            final(self).events == old(self).events,
            final(self).root_id == old(self).root_id,
            final(self).cursor_pos == old(self).cursor_pos,
            old(self).root_pod matches Some(p0) ==> ({
                &&& painted == (needs_layout_spec(p0, old(self).size, term_size)
                    || p0.state.flags.request_paint)
                &&& final(self).size == (if needs_layout_spec(p0, old(self).size, term_size) {
                    term_size
                } else {
                    old(self).size
                })
                &&& (final(self).root_pod matches Some(p1) && raised_below(p1)
                    == PodFlags::clear_spec())
                &&& (final(self).root_pod matches Some(p1) && exists|pl: Pod, po: Pod, pv: Pod|
                    render_stages(
                        p0,
                        pl,
                        po,
                        pv,
                        p1,
                        cmd_models(old(cmds)@),
                        cmd_models(final(cmds)@),
                        old(self).size,
                        term_size,
                    ))
                &&& (!painted ==> final(cmds)@ == old(cmds)@)
                &&& (!painted && !p0.state.flags.view_context_changed ==> final(self).root_pod
                    == old(self).root_pod)
            }),
    {
        let pod = match self.root_pod.take() {
            Some(p) => p,
            None => {
                proof {
                    assert(false);
                }
                return false;
            },
        };
        let ghost p0 = pod;
        let ghost v0 = self.shown@;
        let ghost mut w_pl = pod;
        let ghost mut w_po = pod;
        let needs_layout: bool = pod.state.flags.request_layout || pod.state.flags.tree_changed
            || !(term_size == self.size);
        let mut cur = pod;
        if needs_layout {
            self.size = term_size;
            let bc = BoxConstraints::tight(term_size);
            let ghost before = cur;
            let p1 = cur.layout(&bc);
            proof {
                lemma_layout_keeps_cover(before, p1, bc);
                lemma_layout_clears_subtree(before, p1, bc);
                lemma_layout_keeps_shape(v0, before, p1, bc);
                w_pl = p1;
            }
            let ghost mid = p1;
            let p2 = p1.set_origin(Point { x: 0, y: 0 });
            proof {
                lemma_origin_keeps_cover(mid, p2, Point { x: 0, y: 0 });
                lemma_origin_keeps_shape(v0, mid, p2, Point { x: 0, y: 0 });
                w_po = p2;
            }
            cur = p2;
        }
        proof {
            assert(flags_cover(cur));
            assert(!raised_below(cur).request_layout && !raised_below(cur).tree_changed) by {
                if !needs_layout_spec(p0, old(self).size, term_size) {
                    lemma_root_observes_subtree(p0);
                }
            };
        }
        let ghost mut w_pv = cur;
        if cur.state.flags.view_context_changed {
            let ghost before = cur;
            let p3 = cur.lifecycle();
            proof {
                lemma_lifecycle_clears_and_keeps_cover(before, p3);
                lemma_lifecycle_keeps_shape(v0, before, p3);
                w_pv = p3;
            }
            cur = p3;
        }
        proof {
            assert(!raised_below(cur).view_context_changed) by {
                lemma_root_observes_subtree(cur);
            };
        }
        let do_paint: bool = cur.state.flags.request_paint || needs_layout;
        if do_paint {
            let ghost before = cur;
            let p4 = cur.paint(cmds);
            proof {
                lemma_paint_clears_and_keeps_cover(before, p4);
                lemma_paint_keeps_shape(v0, before, p4);
            }
            cur = p4;
        }
        proof {
            assert(!raised_below(cur).request_paint) by {
                lemma_root_observes_subtree(cur);
            };
            assert(raised_below(cur) == PodFlags::clear_spec());
        }
        let ghost p_final = cur;
        self.root_pod = Some(cur);
        proof {
            assert(render_stages(
                p0,
                w_pl,
                w_po,
                w_pv,
                p_final,
                cmd_models(old(cmds)@),
                cmd_models(cmds@),
                old(self).size,
                term_size,
            ));
        }
        do_paint
    }

    /// Dispatch one cycle's batch of input notifications into the widget
    /// tree, in arrival order, collecting the messages that handlers emit
    /// and tracking the pointer position. Reports whether the batch asks
    /// the loop to shut down after this cycle.
    pub fn handle_events(&mut self, events: &Vec<Event>) -> (quit: bool)
        requires
            old(self).wf(),
        ensures
            final(self).wf(),
            final(self).root_pod == old(self).root_pod,
            final(self).root_id == old(self).root_id,
            final(self).cx == old(self).cx,
            final(self).size == old(self).size,
            final(self).shown == old(self).shown,
            quit == any_quit(events@),
            final(self).cursor_pos == cursor_after(events@, old(self).cursor_pos),
            old(self).root_pod matches Some(p) ==> msg_models(final(self).events@) == msg_models(
                old(self).events@,
            ) + events_msgs(p, events@),
            old(self).root_pod is None ==> final(self).events == old(self).events,
    {
        match &self.root_pod {
            Some(p) => {
                let r = dispatch_all(p, events.as_slice(), self.cursor_pos, &mut self.events);
                self.cursor_pos = r.1;
                r.0
            },
            None => {
                let r = scan_events(events.as_slice(), self.cursor_pos);
                self.cursor_pos = r.1;
                r.0
            },
        }
    }

    /// Hand this cycle's collected outbound messages over for the logic
    /// task and start the next cycle empty.
    pub fn take_messages(&mut self) -> (msgs: Vec<Message>)
        requires
            old(self).wf(),
        ensures
            final(self).wf(),
            msgs == old(self).events,
            final(self).events@ == Seq::<Message>::empty(),
            final(self).root_pod == old(self).root_pod,
            final(self).root_id == old(self).root_id,
            final(self).cx == old(self).cx,
            final(self).size == old(self).size,
            final(self).cursor_pos == old(self).cursor_pos,
            final(self).shown == old(self).shown,
    {
        let mut msgs: Vec<Message> = Vec::new();
        core::mem::swap(&mut msgs, &mut self.events);
        proof {
            assert(self.events@ =~= Seq::<Message>::empty());
        }
        msgs
    }
}

fn dispatch_all(p: &Pod, evs: &[Event], cursor: Option<Point>, msgs: &mut Vec<Message>) -> (r: (
    bool,
    Option<Point>,
))
    ensures
        msg_models(final(msgs)@) == msg_models(old(msgs)@) + events_msgs(*p, evs@),
        r.0 == any_quit(evs@),
        r.1 == cursor_after(evs@, cursor),
    decreases evs@.len(),
{
    if evs.len() == 0 {
        proof {
            assert(msg_models(msgs@) =~= msg_models(old(msgs)@) + events_msgs(*p, evs@));
        }
        (false, cursor)
    } else {
        let ev = &evs[0];
        let _ = p.event(ev, msgs);
        let is_quit = matches!(ev, Event::Quit);
        let c1: Option<Point> = match ev {
            Event::Mouse { x, y, .. } => Some(Point { x: *x, y: *y }),
            _ => cursor,
        };
        let rest_slice = &evs[1..evs.len()];
        proof {
            assert(rest_slice@ =~= evs@.drop_first());
        }
        let rest = dispatch_all(p, rest_slice, c1, msgs);
        proof {
            assert(msg_models(msgs@) =~= msg_models(old(msgs)@) + events_msgs(*p, evs@));
        }
        (is_quit || rest.0, rest.1)
    }
}

fn scan_events(evs: &[Event], cursor: Option<Point>) -> (r: (bool, Option<Point>))
    ensures
        r.0 == any_quit(evs@),
        r.1 == cursor_after(evs@, cursor),
    decreases evs@.len(),
{
    if evs.len() == 0 {
        (false, cursor)
    } else {
        let ev = &evs[0];
        let is_quit = matches!(ev, Event::Quit);
        let c1: Option<Point> = match ev {
            Event::Mouse { x, y, .. } => Some(Point { x: *x, y: *y }),
            _ => cursor,
        };
        let rest_slice = &evs[1..evs.len()];
        proof {
            assert(rest_slice@ =~= evs@.drop_first());
        }
        let rest = scan_events(rest_slice, c1);
        (is_quit || rest.0, rest.1)
    }
}

/// One completion's effect on the logic task, as `handle_wake` promises it
/// for a completion whose node still asks for a rebuild.
pub open spec fn wake_transition(
    t1: AppTask,
    t2: AppTask,
    path: Seq<NodeId>,
    o: WakeOutcome,
) -> bool {
    &&& t2.view == t1.view
    &&& t2.state == t1.state
    &&& t2.deadline_armed == t1.deadline_armed
    &&& no_dup_ids(t1.pending_async@)
    &&& no_dup_ids(t2.pending_async@)
    &&& o.send_wake == (t1.ui_state == UiState::Start)
    &&& t2.ui_state == (if t1.ui_state == UiState::Start {
        UiState::WokeUI
    } else {
        t1.ui_state
    })
    &&& t2.pending_set() == t1.pending_set().remove(path.last())
    &&& o.render == (t2.pending_async@.len() == 0 && t1.ui_state == UiState::Delayed)
}

/// Debouncing coalesces a burst: three asynchronous completions for three
/// distinct pending identities, arriving while one render is being delayed,
/// produce exactly one render — the two earlier completions only shrink the
/// pending set, and the last one triggers the single coalesced render.
pub proof fn lemma_debounce_coalesces(
    t0: AppTask,
    t1: AppTask,
    t2: AppTask,
    t3: AppTask,
    p1: Seq<NodeId>,
    p2: Seq<NodeId>,
    p3: Seq<NodeId>,
    o1: WakeOutcome,
    o2: WakeOutcome,
    o3: WakeOutcome,
    x: NodeId,
    y: NodeId,
    z: NodeId,
)
    requires
        t0.ui_state == UiState::Delayed,
        x != y && y != z && x != z,
        t0.pending_set() == Set::<NodeId>::empty().insert(x).insert(y).insert(z),
        p1.len() > 0 && p1.last() == x,
        p2.len() > 0 && p2.last() == y,
        p3.len() > 0 && p3.last() == z,
        wake_transition(t0, t1, p1, o1),
        wake_transition(t1, t2, p2, o2),
        wake_transition(t2, t3, p3, o3),
    ensures
        !o1.render,
        !o2.render,
        o3.render,
        !o1.send_wake && !o2.send_wake && !o3.send_wake,
{
    broadcast use vstd::set::group_set_axioms;

    t1.pending_async@.unique_seq_to_set();
    t2.pending_async@.unique_seq_to_set();
    t3.pending_async@.unique_seq_to_set();
    assert(t1.pending_set() =~= Set::<NodeId>::empty().insert(y).insert(z));
    assert(t2.pending_set() =~= Set::<NodeId>::empty().insert(z));
    assert(t3.pending_set() =~= Set::<NodeId>::empty());
    assert(t1.pending_set().contains(y));
    assert(t2.pending_set().contains(z));
    assert(Set::<NodeId>::empty().insert(y).insert(z).len() == 2);
    assert(Set::<NodeId>::empty().insert(z).len() == 1);
    assert(t1.pending_async@.len() == 2);
    assert(t2.pending_async@.len() == 1);
    assert(t3.pending_async@.len() == 0);
}

fn route_events(v: &View, s: &ViewState, events: &[Message]) -> (actions: Vec<u64>)
    ensures
        actions@ == actions_spec(*v, *s, events@),
    decreases events@.len(),
{
    if events.len() == 0 {
        let r: Vec<u64> = Vec::new();
        proof {
            assert(r@ =~= Seq::<u64>::empty());
        }
        r
    } else {
        let m = &events[0];
        let mut head: Vec<u64> = Vec::new();
        if m.id_path.len() > 0 {
            let r = v.message(&m.id_path, 1, s, m.body);
            if let MessageResult::Action(a) = r {
                head.push(a);
            }
        }
        let rest_slice = &events[1..events.len()];
        proof {
            assert(rest_slice@ =~= events@.drop_first());
        }
        let rest = route_events(v, s, rest_slice);
        let ghost head0 = head@;
        let mut out = head;
        append_u64(&mut out, &rest);
        proof {
            assert(out@ =~= head0 + rest@);
        }
        out
    }
}

fn append_u64(out: &mut Vec<u64>, more: &Vec<u64>)
    ensures
        final(out)@ == old(out)@ + more@,
{
    let mut i: usize = 0;
    while i < more.len()
        invariant
            i <= more@.len(),
            out@ == old(out)@ + more@.subrange(0, i as int),
        decreases more@.len() - i,
    {
        out.push(more[i]);
        i = i + 1;
        proof {
            assert(out@ =~= old(out)@ + more@.subrange(0, i as int));
        }
    }
    proof {
        assert(out@ =~= old(out)@ + more@);
    }
}

/// Drop `id` from a duplicate-free list of identities. Only `id` leaves:
/// every other identity stays pending.
fn remove_id(v: &mut Vec<NodeId>, id: NodeId)
    requires
        no_dup_ids(old(v)@),
    ensures
        no_dup_ids(final(v)@),
        final(v)@.to_set() == old(v)@.to_set().remove(id),
        final(v)@.len() == (if old(v)@.contains(id) {
            old(v)@.len() - 1
        } else {
            old(v)@.len() as int
        }),
{
    let mut i: usize = 0;
    while i < v.len()
        invariant
            i <= v@.len(),
            v@ == old(v)@,
            no_dup_ids(v@),
            forall|k: int| 0 <= k < i ==> v@[k] != id,
        decreases v@.len() - i,
    {
        if v[i] == id {
            let _ = v.remove(i);
            proof {
                assert(forall|k: int|
                    0 <= k < v@.len() ==> v@[k] == (if k < i {
                        old(v)@[k]
                    } else {
                        old(v)@[k + 1]
                    }));
                assert(no_dup_ids(v@));
                assert forall|x: NodeId| v@.contains(x) <==> (old(v)@.contains(x) && x != id) by {
                    if v@.contains(x) {
                        let k = choose|k: int| 0 <= k < v@.len() && v@[k] == x;
                        if k < i {
                            assert(old(v)@[k] == x);
                        } else {
                            assert(old(v)@[k + 1] == x);
                        }
                    }
                    if old(v)@.contains(x) && x != id {
                        let k = choose|k: int| 0 <= k < old(v)@.len() && old(v)@[k] == x;
                        if k < i {
                            assert(v@[k] == x);
                        } else {
                            assert(k != i);
                            assert(v@[k - 1] == x);
                        }
                    }
                };
                assert(v@.to_set() =~= old(v)@.to_set().remove(id));
                assert(old(v)@.contains(id));
            }
            return ;
        }
        i = i + 1;
    }
    proof {
        assert(!old(v)@.contains(id));
        assert(v@.to_set() =~= old(v)@.to_set().remove(id));
    }
}

} // verus!
