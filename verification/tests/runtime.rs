use trui::{
    AppTask, BorderKind, BorderStyle, BorderStyles, BoxConstraints, ChangeFlags, Color, Colors,
    Cx, Event, Message, MessageBody, MessageResult, NodeKind, Point, RenderResponse, RenderRoot,
    RootError, Size, Style, TextStyles, Theme, View, DrawCmd, DrawContent,
};

fn text(s: &str) -> View {
    View::Text { text: s.to_string(), style: Style::default() }
}

fn column(children: Vec<View>) -> View {
    View::Column { children }
}

fn suspend(ready: bool, s: &str) -> View {
    View::Suspend { ready, text: s.to_string() }
}

#[test]
fn hex_color_parses_rgb() {
    assert_eq!(
        Color::from_hex("#263238"),
        Some(Color::Rgb { r: 0x26, g: 0x32, b: 0x38 })
    );
    assert_eq!(
        Color::from_hex("#c3e88d"),
        Some(Color::Rgb { r: 0xc3, g: 0xe8, b: 0x8d })
    );
    assert_eq!(
        Color::from_hex("#FFFFFF"),
        Some(Color::Rgb { r: 255, g: 255, b: 255 })
    );
}

#[test]
fn hex_color_rejects_malformed() {
    assert_eq!(Color::from_hex(""), None);
    assert_eq!(Color::from_hex("#26323"), None);
    assert_eq!(Color::from_hex("#2632380"), None);
    assert_eq!(Color::from_hex("263238x"), None);
    assert_eq!(Color::from_hex("#26323g"), None);
    assert_eq!(Color::from_hex_or_reset("#nope12"), Color::Reset);
}

#[test]
fn material_oceanic_palette() {
    let c = Colors::material_oceanic();
    assert_eq!(c.background, Color::Rgb { r: 0x26, g: 0x32, b: 0x38 });
    assert_eq!(c.foreground, Color::Rgb { r: 0xB0, g: 0xBE, b: 0xC5 });
    assert_eq!(c.selection_foreground, Color::Rgb { r: 0xFF, g: 0xFF, b: 0xFF });
    assert_eq!(c.green_color, Color::Rgb { r: 0xc3, g: 0xe8, b: 0x8d });
    let d = Colors::default();
    assert_eq!(d.accent_color, Color::Rgb { r: 0x00, g: 0x96, b: 0x88 });
}

#[test]
fn text_styles_follow_palette() {
    let c = Colors::material_oceanic();
    let t = TextStyles::with_colors(c);
    assert_eq!(t.default.fg, c.text);
    assert_eq!(t.default.bg, c.background);
    assert_eq!(t.hover, t.default);
    assert_eq!(t.selected.fg, c.selection_foreground);
    assert_eq!(t.selected.bg, c.selection_background);
}

#[test]
fn border_styles_follow_palette() {
    let c = Colors::material_oceanic();
    let b = BorderStyles::with_colors(c);
    assert_eq!(b.default.style.fg, c.border);
    assert_eq!(b.hover.style.fg, c.highlight);
    assert_eq!(b.focus.style.fg, c.active);
    assert_eq!(b.default.kind, BorderKind::Straight);
}

#[test]
fn theme_composes_styles() {
    let theme = Theme::material_oceanic();
    assert_eq!(theme.text_styles.default.bg, theme.colors.background);
    assert_eq!(theme.border_styles.default.style.fg, theme.colors.border);
}

#[test]
fn context_allocates_monotonic_identities() {
    let mut cx = Cx::new();
    let a = cx.fresh_id();
    let b = cx.fresh_id();
    let c = cx.fresh_id();
    assert_ne!(a, b);
    assert_ne!(b, c);
    assert!(a.raw < b.raw && b.raw < c.raw);
    assert!(cx.is_empty());
    cx.push_id(a);
    cx.push_id(b);
    assert!(!cx.is_empty());
    assert_eq!(cx.current_path(), vec![a, b]);
    cx.pop_id();
    cx.pop_id();
    assert!(cx.is_empty());
}

#[test]
fn build_balances_the_path() {
    let mut cx = Cx::new();
    let view = column(vec![
        text("hello").margin(1),
        text("world").on_click(7),
        suspend(false, "later"),
    ]);
    let (_id, _state, pod) = view.build(&mut cx);
    assert!(cx.is_empty(), "id path imbalance on build");
    assert_eq!(pod.kind(), NodeKind::Column);
    let pending = cx.take_pending();
    assert_eq!(pending.len(), 1, "one deferred node is pending");
}

#[test]
fn rebuild_keeps_identity_on_same_shape() {
    let mut cx = Cx::new();
    let v1 = column(vec![text("a"), text("b").on_click(3)]);
    let (id1, s1, p1) = v1.build(&mut cx);
    assert!(cx.is_empty());

    // Same shape, different content: the identity survives.
    let v2 = column(vec![text("a changed"), text("b").on_click(3)]);
    let (id2, s2, p2, changes) = v2.rebuild(&mut cx, &v1, id1, s1, p1);
    assert!(cx.is_empty(), "id path imbalance on rebuild");
    assert_eq!(id2, id1);
    assert!(changes.layout && changes.paint);
    assert!(!changes.tree);

    // Different shape at the second child: a structural change is reported.
    let v3 = column(vec![text("a changed"), text("plain now")]);
    let (id3, _s3, _p3, changes) = v3.rebuild(&mut cx, &v2, id2, s2, p2);
    assert_eq!(id3, id2, "the column itself is still compatible");
    assert!(changes.tree);
}

#[test]
fn identity_stable_over_rebuild_chain() {
    let mut cx = Cx::new();
    let mut view = column(vec![text("tick 0"), suspend(true, "x")]);
    let (mut id, mut state, mut pod) = view.build(&mut cx);
    let first_id = id;
    for i in 1..6 {
        let next = column(vec![text(&format!("tick {i}")), suspend(true, "x")]);
        let (nid, nstate, npod, _changes) = next.rebuild(&mut cx, &view, id, state, pod);
        assert!(cx.is_empty());
        id = nid;
        state = nstate;
        pod = npod;
        view = next;
    }
    assert_eq!(id, first_id, "identities are stable across rebuilds");
}

#[test]
fn rebuild_discards_state_on_shape_change() {
    let mut cx = Cx::new();
    let v1 = text("leaf");
    let (id1, s1, p1) = v1.build(&mut cx);
    let v2 = text("leaf").margin(2);
    let (id2, _s2, p2, changes) = v2.rebuild(&mut cx, &v1, id1, s1, p1);
    assert_ne!(id2, id1, "a torn-down node gets a fresh identity");
    assert!(changes.layout && changes.paint && changes.tree);
    assert_eq!(p2.kind(), NodeKind::Margin);
}

#[test]
fn layout_is_idempotent() {
    let mut cx = Cx::new();
    let view = column(vec![text("hi"), text("there")]).margin(1);
    let (_id, _state, pod) = view.build(&mut cx);
    let bc = BoxConstraints {
        min: Size { width: 0, height: 0 },
        max: Size { width: 20, height: 10 },
    };
    let pod = pod.layout(&bc);
    let size1 = pod.state.size;
    assert!(!pod.state.flags.request_layout && !pod.state.flags.tree_changed);
    let pod = pod.layout(&bc);
    assert_eq!(pod.state.size, size1);
    assert!(!pod.state.flags.request_layout && !pod.state.flags.tree_changed);
    // "hi"/"there" stacked inside a margin of one cell on each side.
    assert_eq!(size1, Size { width: 7, height: 4 });
}

#[test]
fn mark_raises_flags_until_a_pass_clears_them() {
    let mut cx = Cx::new();
    let (_id, _state, mut pod) = text("x").build(&mut cx);
    let bc = BoxConstraints {
        min: Size { width: 0, height: 0 },
        max: Size { width: 5, height: 1 },
    };
    pod = pod.layout(&bc);
    let mut cmds: Vec<DrawCmd> = Vec::new();
    pod = pod.paint(&mut cmds);
    assert!(!pod.state.flags.request_layout && !pod.state.flags.request_paint);

    pod.mark(ChangeFlags { layout: true, paint: false, tree: false, view_ctx: false });
    assert!(pod.state.flags.request_layout, "the raised flag is observable at the root");
    assert!(pod.state.flags.request_paint, "layout work implies repaint work");
    pod = pod.layout(&bc);
    assert!(!pod.state.flags.request_layout, "the layout pass clears its flag");
}

#[test]
fn click_routes_to_exactly_the_addressed_node() {
    let mut cx = Cx::new();
    let view = column(vec![text("header"), text("button").on_click(42)]);
    let (_root_id, state, pod) = view.build(&mut cx);
    let bc = BoxConstraints {
        min: Size { width: 10, height: 4 },
        max: Size { width: 10, height: 4 },
    };
    let pod = pod.layout(&bc);
    let pod = pod.set_origin(Point { x: 0, y: 0 });

    // The header occupies row 0, the click handler row 1.
    let mut msgs: Vec<Message> = Vec::new();
    let handled = pod.event(&Event::Mouse { down: true, x: 2, y: 1 }, &mut msgs);
    assert!(handled);
    assert_eq!(msgs.len(), 1);
    assert_eq!(msgs[0].body, MessageBody::Click);

    // Delivery along that very path, root element stripped, reaches the
    // handler and bubbles its action.
    let r = view.message(&msgs[0].id_path, 1, &state, MessageBody::Click);
    assert_eq!(r, MessageResult::Action(42));

    // A click outside every handler is not handled.
    let mut none: Vec<Message> = Vec::new();
    let handled = pod.event(&Event::Mouse { down: true, x: 2, y: 0 }, &mut none);
    assert!(!handled);
    assert!(none.is_empty());
}

#[test]
fn stale_path_is_silently_absorbed() {
    let mut cx = Cx::new();
    let view = column(vec![text("a").on_click(1)]);
    let (root_id, state, _pod) = view.build(&mut cx);
    let bogus = vec![root_id, trui::NodeId { raw: 999_999 }];
    let r = view.message(&bogus, 1, &state, MessageBody::Click);
    assert_eq!(r, MessageResult::Stale);
}

#[test]
fn wake_requests_rebuild_on_pending_node() {
    let mut cx = Cx::new();
    let view = column(vec![suspend(false, "...")]);
    let (root_id, state, _pod) = view.build(&mut cx);
    let pending = cx.take_pending();
    assert_eq!(pending.len(), 1);
    let path = vec![root_id, pending[0]];
    let r = view.message(&path, 1, &state, MessageBody::Wake);
    assert_eq!(r, MessageResult::RequestRebuild);
}

#[test]
fn reconcile_refuses_root_kind_change() {
    let mut root = RenderRoot::new();
    let v1 = text("first");
    let r = root.reconcile(RenderResponse { prev: None, view: v1, state: None });
    let (v1, s1, pending) = r.expect("initial build succeeds");
    assert!(pending.is_empty());

    // A view of a different root kind must be detected, not silently taken.
    let v2 = column(vec![text("first")]);
    let r = root.reconcile(RenderResponse { prev: Some(v1), view: v2, state: Some(s1) });
    assert_eq!(r.err(), Some(RootError::RootKindMismatch));
}

#[test]
fn reconcile_accepts_same_root_kind() {
    let mut root = RenderRoot::new();
    let v1 = text("first");
    let r = root.reconcile(RenderResponse { prev: None, view: v1, state: None });
    let (v1, s1, _pending) = r.expect("initial build succeeds");
    let v2 = text("second");
    let r = root.reconcile(RenderResponse { prev: Some(v1), view: v2, state: Some(s1) });
    assert!(r.is_ok());
}

#[test]
fn render_passes_run_only_when_needed() {
    let mut root = RenderRoot::new();
    let view = column(vec![text("hello")]);
    let r = root.reconcile(RenderResponse { prev: None, view, state: None });
    let (view, state, _pending) = r.expect("initial build succeeds");

    let term = Size { width: 20, height: 5 };
    let mut cmds: Vec<DrawCmd> = Vec::new();
    let painted = root.render_passes(term, &mut cmds);
    assert!(painted, "a fresh tree paints");
    assert_eq!(cmds.len(), 1);
    match &cmds[0].content {
        DrawContent::TextRun { text, .. } => assert_eq!(text, "hello"),
        _ => panic!("expected a text run"),
    }

    // Nothing changed: the next cycle skips layout and paint entirely.
    let mut cmds2: Vec<DrawCmd> = Vec::new();
    let painted = root.render_passes(term, &mut cmds2);
    assert!(!painted);
    assert!(cmds2.is_empty());

    // An idle cycle leaves the retained tree untouched, sizes and origins
    // included.
    let before = root.root_pod.as_ref().unwrap().state;
    let mut cmds_idle: Vec<DrawCmd> = Vec::new();
    assert!(!root.render_passes(term, &mut cmds_idle));
    assert_eq!(root.root_pod.as_ref().unwrap().state, before);

    // A content-only change raises the reported flags on the retained root
    // before the next pass.
    let v2 = column(vec![text("hello!")]);
    let r = root.reconcile(RenderResponse { prev: Some(view), view: v2, state: Some(state) });
    assert!(r.is_ok());
    let flags = root.root_pod.as_ref().unwrap().state.flags;
    assert!(flags.request_layout && flags.request_paint);
    let mut cmds3: Vec<DrawCmd> = Vec::new();
    let painted = root.render_passes(term, &mut cmds3);
    assert!(painted);
    match &cmds3[0].content {
        DrawContent::TextRun { text, .. } => assert_eq!(text, "hello!"),
        _ => panic!("expected a text run"),
    }

    // A terminal resize alone forces a relayout and repaint.
    let mut cmds4: Vec<DrawCmd> = Vec::new();
    let painted = root.render_passes(Size { width: 30, height: 6 }, &mut cmds4);
    assert!(painted);
}

#[test]
fn event_dispatch_collects_quit_and_messages() {
    let mut root = RenderRoot::new();
    let view = column(vec![text("top"), text("press").on_click(5)]);
    let r = root.reconcile(RenderResponse { prev: None, view, state: None });
    assert!(r.is_ok());
    let term = Size { width: 10, height: 4 };
    let mut cmds: Vec<DrawCmd> = Vec::new();
    root.render_passes(term, &mut cmds);

    let events = vec![
        Event::Mouse { down: true, x: 1, y: 1 },
        Event::Key { code: 13 },
        Event::Quit,
    ];
    let quit = root.handle_events(&events);
    assert!(quit, "a quit notification finishes the cycle then stops");
    assert_eq!(root.cursor_pos, Some(Point { x: 1, y: 1 }));
    let msgs = root.take_messages();
    assert_eq!(msgs.len(), 1);
    assert_eq!(msgs[0].body, MessageBody::Click);
    assert!(root.take_messages().is_empty());
}

#[test]
fn pending_bookkeeping_removes_only_the_woken_identity() {
    let mut cx = Cx::new();
    let view = column(vec![suspend(false, "x"), suspend(false, "y")]);
    let (root_id, state, _pod) = view.build(&mut cx);
    let pending = cx.take_pending();
    assert_eq!(pending.len(), 2);
    let (x, y) = (pending[0], pending[1]);

    let mut task = AppTask::new();
    task.finish_render(view, state, pending);
    let o = task.handle_wake(&vec![root_id, x]);
    assert!(!o.render, "one of two pending completions does not render");
    assert_eq!(task.pending_async, vec![y], "only the woken identity leaves");
}

#[test]
fn debounce_coalesces_three_completions_into_one_render() {
    let mut cx = Cx::new();
    let view = column(vec![
        suspend(false, "a"),
        suspend(false, "b"),
        suspend(false, "c"),
    ]);
    let (root_id, state, _pod) = view.build(&mut cx);
    let pending = cx.take_pending();
    assert_eq!(pending.len(), 3);
    let (a, b, c) = (pending[0], pending[1], pending[2]);

    let mut task = AppTask::new();
    task.finish_render(view, state, pending);

    // A render request that may delay arms the debounce deadline.
    let render_now = task.handle_render_request(true);
    assert!(!render_now);
    assert!(task.deadline_armed);

    // Three completions inside the window: exactly one render, on the last.
    let o1 = task.handle_wake(&vec![root_id, a]);
    let o2 = task.handle_wake(&vec![root_id, b]);
    let o3 = task.handle_wake(&vec![root_id, c]);
    assert!(!o1.render && !o2.render);
    assert!(o3.render, "the last completion triggers the coalesced render");
    assert_eq!(
        (o1.send_wake, o2.send_wake, o3.send_wake),
        (false, false, false),
        "no extra wake while a render is already delayed"
    );
}

#[test]
fn completion_after_deadline_produces_second_render() {
    let mut cx = Cx::new();
    let view = column(vec![suspend(false, "a"), suspend(false, "b")]);
    let (root_id, state, _pod) = view.build(&mut cx);
    let pending = cx.take_pending();
    let (a, b) = (pending[0], pending[1]);

    let mut task = AppTask::new();
    task.finish_render(view, state, pending);
    assert!(!task.handle_render_request(true));

    let o = task.handle_wake(&vec![root_id, a]);
    assert!(!o.render);

    // The deadline elapses first: render despite `b` still pending.
    assert!(task.handle_deadline(), "the deadline bounds worst-case latency");

    // The handshake completes; the late completion for `b` then wakes the
    // render loop for a second, separate render.
    let mut cx2 = Cx::new();
    let view2 = column(vec![suspend(true, "a"), suspend(false, "b")]);
    let (root2, state2, _pod2) = view2.build(&mut cx2);
    let _ = root2;
    task.finish_render(view2, state2, vec![b]);
    assert_eq!(task.ui_state, trui::UiState::Start);

    let o = task.handle_wake(&vec![root_id, b]);
    assert!(o.send_wake, "an idle logic task wakes the render loop");
    assert!(task.handle_render_request(true), "no other work pending: immediate");
}

#[test]
fn immediate_render_without_pending_work() {
    let mut task = AppTask::new();
    // Initial render: nothing pending, no debounce.
    assert!(task.handle_render_request(true));
    assert!(!task.deadline_armed);
    // An explicit no-delay request renders even with work outstanding.
    let mut cx = Cx::new();
    let view = column(vec![suspend(false, "x")]);
    let (_rid, state, _pod) = view.build(&mut cx);
    let pending = cx.take_pending();
    task.finish_render(view, state, pending);
    assert!(task.handle_render_request(false));
}

#[test]
fn events_route_actions_to_the_application() {
    let mut cx = Cx::new();
    let view = column(vec![text("b").on_click(9)]);
    let (root_id, state, pod) = view.build(&mut cx);
    let bc = BoxConstraints { min: Size { width: 4, height: 1 }, max: Size { width: 4, height: 1 } };
    let pod = pod.layout(&bc).set_origin(Point { x: 0, y: 0 });
    let mut msgs: Vec<Message> = Vec::new();
    pod.event(&Event::Mouse { down: true, x: 0, y: 0 }, &mut msgs);
    assert_eq!(msgs.len(), 1);
    assert_eq!(msgs[0].id_path[0], root_id);

    let mut task = AppTask::new();
    task.finish_render(view, state, Vec::new());
    let actions = task.handle_events(&msgs);
    assert_eq!(actions, vec![9]);
}

#[test]
fn suspended_content_appears_after_completion() {
    // End to end: a deferred node paints nothing until its wake-driven
    // rebuild replaces it with ready content.
    let mut root = RenderRoot::new();
    let v1 = column(vec![suspend(false, "loading")]);
    let r = root.reconcile(RenderResponse { prev: None, view: v1, state: None });
    let (v1, s1, pending) = r.expect("initial build succeeds");
    assert_eq!(pending.len(), 1);
    let term = Size { width: 20, height: 3 };
    let mut cmds: Vec<DrawCmd> = Vec::new();
    assert!(root.render_passes(term, &mut cmds));
    assert!(cmds.is_empty(), "nothing to draw while suspended");

    let v2 = column(vec![suspend(true, "loaded")]);
    let r = root.reconcile(RenderResponse { prev: Some(v1), view: v2, state: Some(s1) });
    let (_v2, _s2, pending) = r.expect("rebuild succeeds");
    assert!(pending.is_empty(), "the completed node is no longer pending");
    let mut cmds2: Vec<DrawCmd> = Vec::new();
    assert!(root.render_passes(term, &mut cmds2));
    assert_eq!(cmds2.len(), 1);
    match &cmds2[0].content {
        DrawContent::TextRun { text, .. } => assert_eq!(text, "loaded"),
        _ => panic!("expected a text run"),
    }
}

#[test]
fn empty_column_occupies_nothing() {
    let mut cx = Cx::new();
    let (_id, _state, pod) = column(vec![]).build(&mut cx);
    assert!(cx.is_empty());
    let bc = BoxConstraints {
        min: Size { width: 0, height: 0 },
        max: Size { width: 9, height: 9 },
    };
    let pod = pod.layout(&bc);
    assert_eq!(pod.state.size, Size { width: 0, height: 0 });
}

#[test]
fn zero_constraints_force_zero_size() {
    let mut cx = Cx::new();
    let (_id, _state, pod) = text("wide text").build(&mut cx);
    let bc = BoxConstraints {
        min: Size { width: 0, height: 0 },
        max: Size { width: 0, height: 0 },
    };
    let pod = pod.layout(&bc);
    assert_eq!(pod.state.size, Size { width: 0, height: 0 });
}

#[test]
fn deepest_click_handler_wins() {
    let mut cx = Cx::new();
    let view = text("inner").on_click(2).on_click(1);
    let (_id, state, pod) = view.build(&mut cx);
    let bc = BoxConstraints { min: Size { width: 5, height: 1 }, max: Size { width: 5, height: 1 } };
    let pod = pod.layout(&bc).set_origin(Point { x: 0, y: 0 });
    let mut msgs: Vec<Message> = Vec::new();
    assert!(pod.event(&Event::Mouse { down: true, x: 0, y: 0 }, &mut msgs));
    assert_eq!(msgs.len(), 1, "exactly one handler consumes the click");
    let r = view.message(&msgs[0].id_path, 1, &state, MessageBody::Click);
    assert_eq!(r, MessageResult::Action(2), "the inner handler owns the click");
}

#[test]
fn non_pointer_events_emit_no_messages() {
    let mut cx = Cx::new();
    let (_id, _state, pod) = text("x").on_click(1).build(&mut cx);
    let mut msgs: Vec<Message> = Vec::new();
    assert!(!pod.event(&Event::Key { code: 65 }, &mut msgs));
    assert!(!pod.event(&Event::Resize { width: 3, height: 3 }, &mut msgs));
    assert!(!pod.event(&Event::Mouse { down: false, x: 0, y: 0 }, &mut msgs));
    assert!(msgs.is_empty());
}

#[test]
fn wake_for_unknown_identity_changes_nothing() {
    let mut cx = Cx::new();
    let view = column(vec![suspend(false, "x")]);
    let (root_id, state, _pod) = view.build(&mut cx);
    let pending = cx.take_pending();
    let mut task = AppTask::new();
    task.finish_render(view, state, pending.clone());
    let o = task.handle_wake(&vec![root_id, trui::NodeId { raw: 424_242 }]);
    assert!(!o.send_wake && !o.render);
    assert_eq!(task.pending_async, pending, "a stale completion is ignored");
}

#[test]
fn overlong_text_width_saturates_at_the_constraint() {
    let mut cx = Cx::new();
    let long = "x".repeat(70_000);
    let (_id, _state, pod) = text(&long).build(&mut cx);
    let bc = BoxConstraints {
        min: Size { width: 0, height: 0 },
        max: Size { width: u16::MAX, height: 1 },
    };
    let pod = pod.layout(&bc);
    assert_eq!(pod.state.size.width, u16::MAX, "cell counts saturate");
    let bc = BoxConstraints {
        min: Size { width: 0, height: 0 },
        max: Size { width: 80, height: 1 },
    };
    let pod = pod.layout(&bc);
    assert_eq!(pod.state.size.width, 80);
}

#[test]
fn border_paints_frame_before_content() {
    let mut cx = Cx::new();
    let view = text("in").border(BorderStyle::default());
    let (_id, _state, pod) = view.build(&mut cx);
    let bc = BoxConstraints { min: Size { width: 6, height: 3 }, max: Size { width: 6, height: 3 } };
    let pod = pod.layout(&bc).set_origin(Point { x: 0, y: 0 });
    let mut cmds: Vec<DrawCmd> = Vec::new();
    let _ = pod.paint(&mut cmds);
    assert_eq!(cmds.len(), 2);
    assert!(matches!(cmds[0].content, DrawContent::Frame { .. }));
    assert!(matches!(cmds[1].content, DrawContent::TextRun { .. }));
    assert_eq!(cmds[1].origin, Point { x: 1, y: 1 });
}
