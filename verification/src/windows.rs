//! The main window and the mini player: what is done to them, in which order, when a command or
//! the user asks for it.
//!
//! A plan is a list of parts. The operations of a part are done one after the other until one
//! fails; a part that must succeed then ends the plan with that error, any other is passed over.
use vstd::prelude::*;

use crate::mini_position::MiniPlayerPosition;

verus! {

/// The windows that there are.
#[derive(PartialEq, Eq, Structural, Clone, Copy, Debug)]
pub enum WindowLabel {
    Main,
    Mini,
}

/// Something done to a window.
#[derive(PartialEq, Eq, Structural, Clone, Copy, Debug)]
pub enum WindowOp {
    /// Have the page stop its animations; a hidden page may go on drawing otherwise.
    PauseRendering,
    ResumeRendering,
    Show,
    Hide,
    Minimize,
    Unminimize,
    Focus,
    /// Take the next moves for the application's own, not for the user's.
    ExpectMove,
    MoveTo(MiniPlayerPosition),
    AlwaysOnTop(bool),
    Decorations(bool),
    /// Set the smallest size that came with the request.
    SetMinSize,
    /// Set the size that came with the request.
    SetSize,
    /// Tell the page that the user wants to close the window.
    TellCloseRequested,
}

/// A part of a plan.
pub struct WindowPart {
    pub window: WindowLabel,
    pub ops: Vec<WindowOp>,
    pub must: bool,
}

/// A part of a plan, in the abstract.
#[verifier::ext_equal]
pub ghost struct Part {
    pub window: WindowLabel,
    pub ops: Seq<WindowOp>,
    pub must: bool,
}

impl View for WindowPart {
    type V = Part;

    open spec fn view(&self) -> Part {
        Part { window: self.window, ops: self.ops@, must: self.must }
    }
}

/// A plan, in the abstract.
pub open spec fn plan_of(parts: Seq<WindowPart>) -> Seq<Part> {
    parts.map_values(|p: WindowPart| p@)
}

/// One operation that may fail.
pub open spec fn attempt(window: WindowLabel, op: WindowOp) -> Part {
    Part { window, ops: seq![op], must: false }
}

/// One operation that must succeed.
pub open spec fn demand(window: WindowLabel, op: WindowOp) -> Part {
    Part { window, ops: seq![op], must: true }
}

/// What brings a window back to the front. There is nothing to bring back on a phone.
pub open spec fn restore_ops(mobile: bool) -> Seq<WindowOp> {
    if mobile {
        Seq::empty()
    } else {
        seq![WindowOp::ResumeRendering, WindowOp::Unminimize, WindowOp::Show, WindowOp::Focus]
    }
}

/// Bringing the main window back, where there is one.
pub open spec fn restore_part(mobile: bool, has_main: bool, must: bool) -> Seq<Part> {
    if has_main {
        seq![Part { window: WindowLabel::Main, ops: restore_ops(mobile), must }]
    } else {
        Seq::empty()
    }
}

fn push_one(plan: &mut Vec<WindowPart>, window: WindowLabel, op: WindowOp, must: bool)
    ensures
        plan_of(final(plan)@) == plan_of(old(plan)@).push(Part { window, ops: seq![op], must }),
{
    let ops: Vec<WindowOp> = vec![op];
    assert(ops@ =~= seq![op]);
    let part = WindowPart { window, ops, must };
    let ghost added = part@;
    plan.push(part);
    assert(plan_of(plan@) =~= plan_of(old(plan)@).push(added));
}

/// What brings the main window back to the front.
pub fn restore_main_window(mobile: bool) -> (r: Vec<WindowOp>)
    ensures
        r@ == restore_ops(mobile),
{
    if mobile {
        Vec::new()
    } else {
        vec![WindowOp::ResumeRendering, WindowOp::Unminimize, WindowOp::Show, WindowOp::Focus]
    }
}

fn push_restore(plan: &mut Vec<WindowPart>, mobile: bool, has_main: bool, must: bool)
    ensures
        plan_of(final(plan)@) == plan_of(old(plan)@) + restore_part(mobile, has_main, must),
{
    if has_main {
        let part = WindowPart { window: WindowLabel::Main, ops: restore_main_window(mobile), must };
        let ghost added = part@;
        plan.push(part);
        assert(plan_of(plan@) =~= plan_of(old(plan)@) + seq![added]);
    } else {
        assert(plan_of(plan@) =~= plan_of(old(plan)@) + Seq::<Part>::empty());
    }
}

fn no_parts() -> (r: Vec<WindowPart>)
    ensures
        plan_of(r@) == Seq::<Part>::empty(),
{
    let r: Vec<WindowPart> = Vec::new();
    assert(plan_of(r@) =~= Seq::<Part>::empty());
    r
}

// ── The mini player ─────────────────────────────────────────────────────────
/// Opening the mini player, or putting it away where it shows. Only one of the two windows is in
/// front: the main window is minimized when the mini player opens, and restored when it goes.
pub open spec fn open_plan(
    mobile: bool,
    visible: bool,
    target: Option<MiniPlayerPosition>,
    has_main: bool,
) -> Seq<Part> {
    if mobile {
        Seq::empty()
    } else if visible {
        seq![
            attempt(WindowLabel::Mini, WindowOp::PauseRendering),
            demand(WindowLabel::Mini, WindowOp::Hide),
        ] + restore_part(mobile, has_main, false)
    } else {
        seq![
            attempt(WindowLabel::Mini, WindowOp::ResumeRendering),
            attempt(WindowLabel::Mini, WindowOp::ExpectMove),
            demand(WindowLabel::Mini, WindowOp::Show),
            attempt(WindowLabel::Mini, WindowOp::Focus),
        ] + (match target {
            Some(p) => seq![attempt(WindowLabel::Mini, WindowOp::MoveTo(p))],
            None => Seq::empty(),
        }) + (if has_main {
            seq![attempt(WindowLabel::Main, WindowOp::Minimize)]
        } else {
            Seq::empty()
        })
    }
}

/// Opens the mini player, or puts it away where it shows. `target` is where it belongs.
pub fn open_mini_player(
    mobile: bool,
    visible: bool,
    target: Option<MiniPlayerPosition>,
    has_main: bool,
) -> (plan: Vec<WindowPart>)
    ensures
        plan_of(plan@) == open_plan(mobile, visible, target, has_main),
{
    let mut plan = no_parts();
    if mobile {
        return plan;
    }
    if visible {
        push_one(&mut plan, WindowLabel::Mini, WindowOp::PauseRendering, false);
        push_one(&mut plan, WindowLabel::Mini, WindowOp::Hide, true);
        push_restore(&mut plan, mobile, has_main, false);
    } else {
        push_one(&mut plan, WindowLabel::Mini, WindowOp::ResumeRendering, false);
        push_one(&mut plan, WindowLabel::Mini, WindowOp::ExpectMove, false);
        push_one(&mut plan, WindowLabel::Mini, WindowOp::Show, true);
        push_one(&mut plan, WindowLabel::Mini, WindowOp::Focus, false);
        match target {
            Some(p) => {
                push_one(&mut plan, WindowLabel::Mini, WindowOp::MoveTo(p), false);
            },
            None => {},
        }
        if has_main {
            push_one(&mut plan, WindowLabel::Main, WindowOp::Minimize, false);
        }
    }
    assert(plan_of(plan@) =~= open_plan(mobile, visible, target, has_main));
    plan
}

/// Putting the mini player away and coming back to the main window.
pub open spec fn leave_plan(
    mobile: bool,
    has_mini: bool,
    has_main: bool,
    hide_must: bool,
    restore_must: bool,
) -> Seq<Part> {
    if mobile {
        Seq::empty()
    } else {
        (if has_mini {
            seq![
                attempt(WindowLabel::Mini, WindowOp::PauseRendering),
                Part { window: WindowLabel::Mini, ops: seq![WindowOp::Hide], must: hide_must },
            ]
        } else {
            Seq::empty()
        }) + restore_part(mobile, has_main, restore_must)
    }
}

fn leave(
    mobile: bool,
    has_mini: bool,
    has_main: bool,
    hide_must: bool,
    restore_must: bool,
) -> (plan: Vec<WindowPart>)
    ensures
        plan_of(plan@) == leave_plan(mobile, has_mini, has_main, hide_must, restore_must),
{
    let mut plan = no_parts();
    if mobile {
        return plan;
    }
    if has_mini {
        push_one(&mut plan, WindowLabel::Mini, WindowOp::PauseRendering, false);
        push_one(&mut plan, WindowLabel::Mini, WindowOp::Hide, hide_must);
    }
    push_restore(&mut plan, mobile, has_main, restore_must);
    assert(plan_of(plan@) =~= leave_plan(mobile, has_mini, has_main, hide_must, restore_must));
    plan
}

/// Puts the mini player away, keeping it for the next time, and comes back to the main window.
pub fn close_mini_player(mobile: bool, has_mini: bool, has_main: bool) -> (plan: Vec<WindowPart>)
    ensures
        plan_of(plan@) == leave_plan(mobile, has_mini, has_main, true, true),
{
    leave(mobile, has_mini, has_main, true, true)
}

/// Comes back to the main window; the mini player goes if it can.
pub fn show_main_window(mobile: bool, has_mini: bool, has_main: bool) -> (plan: Vec<WindowPart>)
    ensures
        plan_of(plan@) == leave_plan(mobile, has_mini, has_main, false, true),
{
    leave(mobile, has_mini, has_main, false, true)
}

/// Whether a hidden mini player has to be built in advance: never twice, and never on a phone.
pub fn preload_mini_player(mobile: bool, has_mini: bool) -> (r: bool)
    ensures
        r == (!mobile && !has_mini),
{
    !mobile && !has_mini
}

/// Keeping the mini player above the other windows, or not. Some window managers ignore the wish
/// when they believe it fulfilled already, so it is always withdrawn first.
pub open spec fn on_top_plan(mobile: bool, has_mini: bool, on_top: bool) -> Seq<Part> {
    if mobile || !has_mini {
        Seq::empty()
    } else if on_top {
        seq![
            attempt(WindowLabel::Mini, WindowOp::AlwaysOnTop(false)),
            demand(WindowLabel::Mini, WindowOp::AlwaysOnTop(true)),
        ]
    } else {
        seq![demand(WindowLabel::Mini, WindowOp::AlwaysOnTop(false))]
    }
}

/// Keeps the mini player above the other windows, or not.
pub fn set_mini_player_always_on_top(mobile: bool, has_mini: bool, on_top: bool) -> (plan: Vec<
    WindowPart,
>)
    ensures
        plan_of(plan@) == on_top_plan(mobile, has_mini, on_top),
{
    let mut plan = no_parts();
    if mobile || !has_mini {
        return plan;
    }
    if on_top {
        push_one(&mut plan, WindowLabel::Mini, WindowOp::AlwaysOnTop(false), false);
    }
    push_one(&mut plan, WindowLabel::Mini, WindowOp::AlwaysOnTop(on_top), true);
    assert(plan_of(plan@) =~= on_top_plan(mobile, has_mini, on_top));
    plan
}

/// Resizing the mini player. A new smallest size is set first: it would hold the new size up.
pub open spec fn resize_plan(mobile: bool, has_mini: bool, has_min: bool) -> Seq<Part> {
    if mobile || !has_mini {
        Seq::empty()
    } else if has_min {
        seq![
            demand(WindowLabel::Mini, WindowOp::SetMinSize),
            demand(WindowLabel::Mini, WindowOp::SetSize),
        ]
    } else {
        seq![demand(WindowLabel::Mini, WindowOp::SetSize)]
    }
}

/// Resizes the mini player. A smallest size counts only where both of its numbers are given.
pub fn resize_mini_player(
    mobile: bool,
    has_mini: bool,
    has_min_width: bool,
    has_min_height: bool,
) -> (plan: Vec<WindowPart>)
    ensures
        plan_of(plan@) == resize_plan(mobile, has_mini, has_min_width && has_min_height),
{
    let mut plan = no_parts();
    if mobile || !has_mini {
        return plan;
    }
    if has_min_width && has_min_height {
        push_one(&mut plan, WindowLabel::Mini, WindowOp::SetMinSize, true);
    }
    push_one(&mut plan, WindowLabel::Mini, WindowOp::SetSize, true);
    assert(plan_of(plan@) =~= resize_plan(mobile, has_mini, has_min_width && has_min_height));
    plan
}

// ── The main window ─────────────────────────────────────────────────────────
/// Giving the main window its frame, or taking it away. A frame that comes back costs the window
/// the focus, which is taken again.
pub open spec fn decorations_plan(mobile: bool, has_main: bool, enabled: bool) -> Seq<Part> {
    if mobile || !has_main {
        Seq::empty()
    } else if enabled {
        seq![
            attempt(WindowLabel::Main, WindowOp::Decorations(true)),
            attempt(WindowLabel::Main, WindowOp::Focus),
        ]
    } else {
        seq![attempt(WindowLabel::Main, WindowOp::Decorations(false))]
    }
}

/// Gives the main window its frame, or takes it away.
pub fn set_window_decorations(mobile: bool, has_main: bool, enabled: bool) -> (plan: Vec<
    WindowPart,
>)
    ensures
        plan_of(plan@) == decorations_plan(mobile, has_main, enabled),
{
    let mut plan = no_parts();
    if mobile || !has_main {
        return plan;
    }
    push_one(&mut plan, WindowLabel::Main, WindowOp::Decorations(enabled), false);
    if enabled {
        push_one(&mut plan, WindowLabel::Main, WindowOp::Focus, false);
    }
    assert(plan_of(plan@) =~= decorations_plan(mobile, has_main, enabled));
    plan
}

/// Coming forward when the application is launched a second time. The page may have been paused
/// when the window was put away, so it is resumed first.
pub open spec fn second_launch_plan(cli_handled: bool) -> Seq<Part> {
    if cli_handled {
        Seq::empty()
    } else {
        seq![
            attempt(WindowLabel::Main, WindowOp::ResumeRendering),
            attempt(WindowLabel::Main, WindowOp::Show),
            attempt(WindowLabel::Main, WindowOp::Unminimize),
            attempt(WindowLabel::Main, WindowOp::Focus),
        ]
    }
}

/// Comes forward when the application is launched a second time, unless the command line was for
/// the running one. There is a main window.
pub fn on_second_instance(cli_handled: bool) -> (plan: Vec<WindowPart>)
    ensures
        plan_of(plan@) == second_launch_plan(cli_handled),
{
    let mut plan = no_parts();
    if cli_handled {
        return plan;
    }
    push_one(&mut plan, WindowLabel::Main, WindowOp::ResumeRendering, false);
    push_one(&mut plan, WindowLabel::Main, WindowOp::Show, false);
    push_one(&mut plan, WindowLabel::Main, WindowOp::Unminimize, false);
    push_one(&mut plan, WindowLabel::Main, WindowOp::Focus, false);
    assert(plan_of(plan@) =~= second_launch_plan(cli_handled));
    plan
}

// ── What happens to windows ─────────────────────────────────────────────────
/// Something that happened to a window.
#[derive(PartialEq, Eq, Structural, Clone, Copy, Debug)]
pub enum WindowEvent {
    Moved(MiniPlayerPosition),
    CloseRequested,
    Other,
}

/// What is done about it.
pub struct WindowReaction {
    /// The window stays.
    pub prevent_close: bool,
    /// The position to remember, unless it is the application's own doing.
    pub moved_to: Option<MiniPlayerPosition>,
    pub plan: Vec<WindowPart>,
}

/// A window that is asked to close stays: the main window's page decides what becomes of it, the
/// mini player is put away.
pub open spec fn close_plan(window: WindowLabel, mobile: bool, has_main: bool) -> Seq<Part> {
    match window {
        WindowLabel::Main => seq![
            attempt(WindowLabel::Main, WindowOp::PauseRendering),
            attempt(WindowLabel::Main, WindowOp::TellCloseRequested),
        ],
        WindowLabel::Mini => seq![
            attempt(WindowLabel::Mini, WindowOp::PauseRendering),
            attempt(WindowLabel::Mini, WindowOp::Hide),
        ] + restore_part(mobile, has_main, false),
    }
}

/// What is done when something happens to a window.
pub fn on_window_event(
    window: WindowLabel,
    event: WindowEvent,
    mobile: bool,
    has_main: bool,
) -> (r: WindowReaction)
    ensures
        r.prevent_close == (event is CloseRequested),
        r.moved_to == (match event {
            WindowEvent::Moved(p) => if window == WindowLabel::Mini {
                Some(p)
            } else {
                None
            },
            _ => None,
        }),
        plan_of(r.plan@) == (if event is CloseRequested {
            close_plan(window, mobile, has_main)
        } else {
            Seq::empty()
        }),
{
    let mut plan = no_parts();
    match event {
        WindowEvent::Moved(p) => {
            let moved_to = if window == WindowLabel::Mini {
                Some(p)
            } else {
                None
            };
            WindowReaction { prevent_close: false, moved_to, plan }
        },
        WindowEvent::CloseRequested => {
            match window {
                WindowLabel::Main => {
                    push_one(&mut plan, WindowLabel::Main, WindowOp::PauseRendering, false);
                    push_one(&mut plan, WindowLabel::Main, WindowOp::TellCloseRequested, false);
                },
                WindowLabel::Mini => {
                    push_one(&mut plan, WindowLabel::Mini, WindowOp::PauseRendering, false);
                    push_one(&mut plan, WindowLabel::Mini, WindowOp::Hide, false);
                    push_restore(&mut plan, mobile, has_main, false);
                },
            }
            assert(plan_of(plan@) =~= close_plan(window, mobile, has_main));
            WindowReaction { prevent_close: true, moved_to: None, plan }
        },
        WindowEvent::Other => WindowReaction { prevent_close: false, moved_to: None, plan },
    }
}

// ── What holds of every plan ────────────────────────────────────────────────
/// A part does this to the window.
pub open spec fn does(part: Part, window: WindowLabel, op: WindowOp) -> bool {
    part.window == window && part.ops.contains(op)
}

/// A window is hidden only after its page was paused.
pub open spec fn paused_before_hidden(plan: Seq<Part>) -> bool {
    forall|i: int, w: WindowLabel|
        0 <= i < plan.len() && #[trigger] does(plan[i], w, WindowOp::Hide) ==> exists|j: int|
            0 <= j < i && #[trigger] does(plan[j], w, WindowOp::PauseRendering)
}

proof fn lemma_does_one(window: WindowLabel, op: WindowOp, must: bool, w: WindowLabel, o: WindowOp)
    ensures
        does(Part { window, ops: seq![op], must }, w, o) <==> w == window && o == op,
{
    assert(seq![op].contains(o) <==> o == op) by {
        assert(seq![op][0] == op);
    }
}

proof fn lemma_restore_does_not_hide(mobile: bool, w: WindowLabel, must: bool)
    ensures
        !does(
            Part { window: WindowLabel::Main, ops: restore_ops(mobile), must },
            w,
            WindowOp::Hide,
        ),
{
}

/// Every window that a plan puts away has its page paused first, so that it never goes on drawing
/// unseen.
pub proof fn law_windows_are_paused_before_they_are_hidden(
    mobile: bool,
    visible: bool,
    target: Option<MiniPlayerPosition>,
    has_mini: bool,
    has_main: bool,
    hide_must: bool,
    window: WindowLabel,
)
    ensures
        paused_before_hidden(open_plan(mobile, visible, target, has_main)),
        paused_before_hidden(leave_plan(mobile, has_mini, has_main, hide_must, true)),
        paused_before_hidden(close_plan(window, mobile, has_main)),
{
    let plans = seq![
        open_plan(mobile, visible, target, has_main),
        leave_plan(mobile, has_mini, has_main, hide_must, true),
        close_plan(window, mobile, has_main),
    ];
    assert forall|k: int| 0 <= k < 3 implies paused_before_hidden(#[trigger] plans[k]) by {
        let plan = plans[k];
        assert forall|i: int, w: WindowLabel|
            0 <= i < plan.len() && #[trigger] does(plan[i], w, WindowOp::Hide) implies exists|j: int|
            0 <= j < i && #[trigger] does(plan[j], w, WindowOp::PauseRendering) by {
            lemma_restore_does_not_hide(mobile, w, false);
            lemma_restore_does_not_hide(mobile, w, true);
            if plan[i].ops.len() == 1 {
                lemma_does_one(plan[i].window, plan[i].ops[0], plan[i].must, w, WindowOp::Hide);
                assert(plan[i].ops =~= seq![plan[i].ops[0]]);
                assert(plan[i].window == WindowLabel::Mini && plan[i].ops[0] == WindowOp::Hide);
                assert(i == 1);
                lemma_does_one(
                    WindowLabel::Mini,
                    WindowOp::PauseRendering,
                    false,
                    w,
                    WindowOp::PauseRendering,
                );
                assert(plan[0] == attempt(WindowLabel::Mini, WindowOp::PauseRendering));
                assert(does(plan[0], w, WindowOp::PauseRendering));
            } else {
                assert(plan[i].ops == restore_ops(mobile));
                assert(false);
            }
        }
    }
    assert(paused_before_hidden(plans[0]));
    assert(paused_before_hidden(plans[1]));
    assert(paused_before_hidden(plans[2]));
}

/// A plan has a part that does this to the window.
pub open spec fn plan_does(plan: Seq<Part>, window: WindowLabel, op: WindowOp) -> bool {
    exists|i: int| 0 <= i < plan.len() && #[trigger] does(plan[i], window, op)
}

/// Asking for the mini player twice, once when it is away and once when it shows, brings it and
/// puts it away again; the main window makes room and comes back.
pub proof fn law_opening_the_mini_player_toggles_it(target: Option<MiniPlayerPosition>)
    ensures
        plan_does(open_plan(false, false, target, true), WindowLabel::Mini, WindowOp::Show),
        plan_does(open_plan(false, false, target, true), WindowLabel::Main, WindowOp::Minimize),
        plan_does(open_plan(false, true, target, true), WindowLabel::Mini, WindowOp::Hide),
        plan_does(open_plan(false, true, target, true), WindowLabel::Main, WindowOp::Show),
        plan_does(open_plan(false, true, target, true), WindowLabel::Main, WindowOp::Unminimize),
{
    let opened = open_plan(false, false, target, true);
    let last = opened.len() - 1;
    assert(opened[2] == demand(WindowLabel::Mini, WindowOp::Show));
    assert(opened[last] == attempt(WindowLabel::Main, WindowOp::Minimize));
    lemma_does_one(WindowLabel::Mini, WindowOp::Show, true, WindowLabel::Mini, WindowOp::Show);
    lemma_does_one(
        WindowLabel::Main,
        WindowOp::Minimize,
        false,
        WindowLabel::Main,
        WindowOp::Minimize,
    );
    assert(does(opened[2], WindowLabel::Mini, WindowOp::Show));
    assert(does(opened[last], WindowLabel::Main, WindowOp::Minimize));
    let away = open_plan(false, true, target, true);
    assert(away[1] == demand(WindowLabel::Mini, WindowOp::Hide));
    lemma_does_one(WindowLabel::Mini, WindowOp::Hide, true, WindowLabel::Mini, WindowOp::Hide);
    assert(does(away[1], WindowLabel::Mini, WindowOp::Hide));
    let ops = restore_ops(false);
    assert(away[2] == (Part { window: WindowLabel::Main, ops, must: false }));
    assert(ops[2] == WindowOp::Show && ops[1] == WindowOp::Unminimize);
    assert(does(away[2], WindowLabel::Main, WindowOp::Show));
    assert(does(away[2], WindowLabel::Main, WindowOp::Unminimize));
}

/// On a phone no command does anything to a window.
pub proof fn law_phones_have_no_window_commands(
    visible: bool,
    target: Option<MiniPlayerPosition>,
    has_mini: bool,
    has_main: bool,
    flag: bool,
)
    ensures
        open_plan(true, visible, target, has_main) == Seq::<Part>::empty(),
        leave_plan(true, has_mini, has_main, flag, true) == Seq::<Part>::empty(),
        on_top_plan(true, has_mini, flag) == Seq::<Part>::empty(),
        resize_plan(true, has_mini, flag) == Seq::<Part>::empty(),
        decorations_plan(true, has_main, flag) == Seq::<Part>::empty(),
        restore_ops(true) == Seq::<WindowOp>::empty(),
{
}

// ── What each window goes through ───────────────────────────────────────────
/// What a plan does to one window, in order.
pub open spec fn done_to(plan: Seq<Part>, window: WindowLabel) -> Seq<WindowOp>
    decreases plan.len(),
{
    if plan.len() == 0 {
        Seq::empty()
    } else {
        done_to(plan.drop_last(), window) + (if plan.last().window == window {
            plan.last().ops
        } else {
            Seq::empty()
        })
    }
}

/// What a plan does must succeed only where it says so of `op`.
pub open spec fn insists_on(plan: Seq<Part>, op: WindowOp) -> bool {
    forall|i: int|
        0 <= i < plan.len() ==> ((#[trigger] plan[i]).must <==> plan[i].ops == seq![op])
}

proof fn lemma_done_to(a: Seq<Part>, b: Seq<Part>, window: WindowLabel)
    ensures
        done_to(a + b, window) == done_to(a, window) + done_to(b, window),
    decreases b.len(),
{
    if b.len() == 0 {
        assert(a + b =~= a);
        assert(done_to(a, window) + done_to(b, window) =~= done_to(a, window));
    } else {
        assert((a + b).drop_last() =~= a + b.drop_last());
        lemma_done_to(a, b.drop_last(), window);
        let more = if b.last().window == window {
            b.last().ops
        } else {
            Seq::empty()
        };
        assert((done_to(a, window) + done_to(b.drop_last(), window)) + more =~= done_to(a, window)
            + (done_to(b.drop_last(), window) + more));
    }
}

proof fn lemma_done_by_one(p: Part, window: WindowLabel)
    ensures
        done_to(seq![p], window) == if p.window == window {
            p.ops
        } else {
            Seq::empty()
        },
{
    assert(seq![p].drop_last() =~= Seq::<Part>::empty());
    assert(done_to(Seq::empty(), window) =~= Seq::empty());
    assert(Seq::<WindowOp>::empty() + p.ops =~= p.ops);
    assert(Seq::<WindowOp>::empty() + Seq::<WindowOp>::empty() =~= Seq::<WindowOp>::empty());
}

proof fn lemma_done_by_two(p: Part, q: Part, window: WindowLabel)
    ensures
        done_to(seq![p, q], window) == done_to(seq![p], window) + done_to(seq![q], window),
{
    assert(seq![p, q] =~= seq![p] + seq![q]);
    lemma_done_to(seq![p], seq![q], window);
}

proof fn lemma_restored(has_main: bool, must: bool, window: WindowLabel)
    ensures
        done_to(restore_part(false, has_main, must), window) == if has_main && window
            == WindowLabel::Main {
            seq![WindowOp::ResumeRendering, WindowOp::Unminimize, WindowOp::Show, WindowOp::Focus]
        } else {
            Seq::empty()
        },
{
    let p = Part { window: WindowLabel::Main, ops: restore_ops(false), must };
    lemma_done_by_one(p, window);
    assert(done_to(Seq::empty(), window) =~= Seq::empty());
}

/// Opening a hidden mini player has it draw again, takes its next moves for the application's own,
/// shows and focuses it, and puts it where it is to stand; the main window is minimised. Opening one
/// that is shown pauses and hides it, and brings the main window back.
pub proof fn law_mini_player_and_main_window_change_places(
    visible: bool,
    target: Option<MiniPlayerPosition>,
    has_main: bool,
)
    ensures
        ({
            let plan = open_plan(false, visible, target, has_main);
            &&& done_to(plan, WindowLabel::Mini) == if visible {
                seq![WindowOp::PauseRendering, WindowOp::Hide]
            } else {
                seq![
                    WindowOp::ResumeRendering,
                    WindowOp::ExpectMove,
                    WindowOp::Show,
                    WindowOp::Focus,
                ] + (match target {
                    Some(p) => seq![WindowOp::MoveTo(p)],
                    None => Seq::empty(),
                })
            }
            &&& done_to(plan, WindowLabel::Main) == if !has_main {
                Seq::empty()
            } else if visible {
                seq![
                    WindowOp::ResumeRendering,
                    WindowOp::Unminimize,
                    WindowOp::Show,
                    WindowOp::Focus,
                ]
            } else {
                seq![WindowOp::Minimize]
            }
            &&& visible ==> insists_on(plan, WindowOp::Hide)
            &&& !visible ==> insists_on(plan, WindowOp::Show)
        }),
{
    let mini = WindowLabel::Mini;
    let main = WindowLabel::Main;
    let plan = open_plan(false, visible, target, has_main);
    if visible {
        let p = attempt(mini, WindowOp::PauseRendering);
        let q = demand(mini, WindowOp::Hide);
        let first = seq![p, q];
        let last = restore_part(false, has_main, false);
        assert(plan =~= first + last);
        lemma_done_to(first, last, mini);
        lemma_done_to(first, last, main);
        lemma_done_by_two(p, q, mini);
        lemma_done_by_two(p, q, main);
        lemma_done_by_one(p, mini);
        lemma_done_by_one(q, mini);
        lemma_done_by_one(p, main);
        lemma_done_by_one(q, main);
        lemma_restored(has_main, false, mini);
        lemma_restored(has_main, false, main);
        assert(done_to(plan, mini) =~= seq![WindowOp::PauseRendering, WindowOp::Hide]);
        assert(done_to(plan, main) =~= done_to(last, main));
        assert(seq![WindowOp::PauseRendering][0] != seq![WindowOp::Hide][0]);
        assert(restore_ops(false).len() != seq![WindowOp::Hide].len());
    } else {
        let a = attempt(mini, WindowOp::ResumeRendering);
        let b = attempt(mini, WindowOp::ExpectMove);
        let c = demand(mini, WindowOp::Show);
        let d = attempt(mini, WindowOp::Focus);
        let moved = match target {
            Some(p) => seq![attempt(mini, WindowOp::MoveTo(p))],
            None => Seq::<Part>::empty(),
        };
        let rest = if has_main {
            seq![attempt(main, WindowOp::Minimize)]
        } else {
            Seq::<Part>::empty()
        };
        let first = seq![a, b, c, d];
        assert(plan =~= (first + moved) + rest);
        lemma_done_to(first + moved, rest, mini);
        lemma_done_to(first + moved, rest, main);
        lemma_done_to(first, moved, mini);
        lemma_done_to(first, moved, main);
        assert(first =~= seq![a, b] + seq![c, d]);
        lemma_done_to(seq![a, b], seq![c, d], mini);
        lemma_done_to(seq![a, b], seq![c, d], main);
        lemma_done_by_two(a, b, mini);
        lemma_done_by_two(a, b, main);
        lemma_done_by_two(c, d, mini);
        lemma_done_by_two(c, d, main);
        lemma_done_by_one(a, mini);
        lemma_done_by_one(b, mini);
        lemma_done_by_one(c, mini);
        lemma_done_by_one(d, mini);
        lemma_done_by_one(a, main);
        lemma_done_by_one(b, main);
        lemma_done_by_one(c, main);
        lemma_done_by_one(d, main);
        if target is Some {
            lemma_done_by_one(attempt(mini, WindowOp::MoveTo(target->0)), mini);
            lemma_done_by_one(attempt(mini, WindowOp::MoveTo(target->0)), main);
        }
        lemma_done_by_one(attempt(main, WindowOp::Minimize), mini);
        lemma_done_by_one(attempt(main, WindowOp::Minimize), main);
        assert(done_to(Seq::empty(), mini) =~= Seq::empty());
        assert(done_to(Seq::empty(), main) =~= Seq::empty());
        assert(done_to(first, mini) =~= seq![
            WindowOp::ResumeRendering,
            WindowOp::ExpectMove,
            WindowOp::Show,
            WindowOp::Focus,
        ]);
        assert(done_to(first, main) =~= Seq::empty());
        assert(done_to(plan, mini) =~= done_to(first, mini) + done_to(moved, mini));
        assert(done_to(plan, main) =~= done_to(rest, main));
        assert forall|i: int| 0 <= i < plan.len() implies ((#[trigger] plan[i]).must <==> plan[i].ops
            == seq![WindowOp::Show]) by {
            assert(plan[i].ops.len() == 1);
            assert(seq![WindowOp::Show][0] == WindowOp::Show);
            if i == 2 {
                assert(plan[i] == c);
            } else {
                assert(plan[i].ops[0] != WindowOp::Show);
            }
        }
    }
}

/// Leaving the mini player pauses and hides it, where it is, and brings the main window back, where
/// there is one. What must succeed is what the request says.
pub proof fn law_leaving_the_mini_player_brings_the_main_window_back(
    has_mini: bool,
    has_main: bool,
    hide_must: bool,
    restore_must: bool,
)
    ensures
        ({
            let plan = leave_plan(false, has_mini, has_main, hide_must, restore_must);
            &&& done_to(plan, WindowLabel::Mini) == if has_mini {
                seq![WindowOp::PauseRendering, WindowOp::Hide]
            } else {
                Seq::empty()
            }
            &&& done_to(plan, WindowLabel::Main) == if has_main {
                seq![
                    WindowOp::ResumeRendering,
                    WindowOp::Unminimize,
                    WindowOp::Show,
                    WindowOp::Focus,
                ]
            } else {
                Seq::empty()
            }
            &&& forall|i: int|
                0 <= i < plan.len() ==> (#[trigger] plan[i]).must == if plan[i].window
                    == WindowLabel::Main {
                    restore_must
                } else {
                    hide_must && plan[i].ops == seq![WindowOp::Hide]
                }
        }),
{
    let mini = WindowLabel::Mini;
    let main = WindowLabel::Main;
    let p = attempt(mini, WindowOp::PauseRendering);
    let q = Part { window: mini, ops: seq![WindowOp::Hide], must: hide_must };
    let first = if has_mini {
        seq![p, q]
    } else {
        Seq::<Part>::empty()
    };
    let last = restore_part(false, has_main, restore_must);
    lemma_done_to(first, last, mini);
    lemma_done_to(first, last, main);
    lemma_done_by_two(p, q, mini);
    lemma_done_by_two(p, q, main);
    lemma_done_by_one(p, mini);
    lemma_done_by_one(q, mini);
    lemma_done_by_one(p, main);
    lemma_done_by_one(q, main);
    lemma_restored(has_main, restore_must, mini);
    lemma_restored(has_main, restore_must, main);
    assert(done_to(Seq::empty(), mini) =~= Seq::empty());
    assert(done_to(Seq::empty(), main) =~= Seq::empty());
    let plan = leave_plan(false, has_mini, has_main, hide_must, restore_must);
    assert(plan =~= first + last);
    assert(done_to(plan, mini) =~= done_to(first, mini));
    assert(done_to(plan, main) =~= done_to(last, main));
    assert(seq![WindowOp::PauseRendering][0] != seq![WindowOp::Hide][0]);
}

/// A window that is closed is never destroyed: the main one pauses and tells the application, the
/// mini player pauses, hides and brings the main window back. Nothing of it has to succeed.
pub proof fn law_closed_window_is_kept(window: WindowLabel, has_main: bool)
    ensures
        ({
            let plan = close_plan(window, false, has_main);
            let back = seq![
                WindowOp::ResumeRendering,
                WindowOp::Unminimize,
                WindowOp::Show,
                WindowOp::Focus,
            ];
            &&& done_to(plan, WindowLabel::Mini) == match window {
                WindowLabel::Main => Seq::<WindowOp>::empty(),
                WindowLabel::Mini => seq![WindowOp::PauseRendering, WindowOp::Hide],
            }
            &&& done_to(plan, WindowLabel::Main) == match window {
                WindowLabel::Main => seq![WindowOp::PauseRendering, WindowOp::TellCloseRequested],
                WindowLabel::Mini => if has_main {
                    back
                } else {
                    Seq::empty()
                },
            }
            &&& forall|i: int| 0 <= i < plan.len() ==> !(#[trigger] plan[i]).must
        }),
{
    let mini = WindowLabel::Mini;
    let main = WindowLabel::Main;
    let plan = close_plan(window, false, has_main);
    let p = attempt(window, WindowOp::PauseRendering);
    let q = attempt(
        window,
        if window == main {
            WindowOp::TellCloseRequested
        } else {
            WindowOp::Hide
        },
    );
    let first = seq![p, q];
    let last = if window == main {
        Seq::<Part>::empty()
    } else {
        restore_part(false, has_main, false)
    };
    assert(plan =~= first + last);
    lemma_done_to(first, last, mini);
    lemma_done_to(first, last, main);
    lemma_done_by_two(p, q, mini);
    lemma_done_by_two(p, q, main);
    lemma_done_by_one(p, mini);
    lemma_done_by_one(q, mini);
    lemma_done_by_one(p, main);
    lemma_done_by_one(q, main);
    lemma_restored(has_main, false, mini);
    lemma_restored(has_main, false, main);
    assert(done_to(Seq::empty(), mini) =~= Seq::empty());
    assert(done_to(Seq::empty(), main) =~= Seq::empty());
    match window {
        WindowLabel::Main => {
            assert(done_to(plan, mini) =~= Seq::empty());
            assert(done_to(plan, main) =~= seq![
                WindowOp::PauseRendering,
                WindowOp::TellCloseRequested,
            ]);
        },
        WindowLabel::Mini => {
            assert(done_to(plan, mini) =~= seq![WindowOp::PauseRendering, WindowOp::Hide]);
            assert(done_to(plan, main) =~= done_to(last, main));
        },
    }
}

/// Whatever is asked of the mini player's place above the others, its last word is the request; a
/// raise first lowers it, so that the system takes note. The request itself has to succeed.
pub proof fn law_last_word_on_top_is_the_request(on_top: bool)
    ensures
        ({
            let plan = on_top_plan(false, true, on_top);
            &&& done_to(plan, WindowLabel::Mini) == if on_top {
                seq![WindowOp::AlwaysOnTop(false), WindowOp::AlwaysOnTop(true)]
            } else {
                seq![WindowOp::AlwaysOnTop(false)]
            }
            &&& done_to(plan, WindowLabel::Main) == Seq::<WindowOp>::empty()
            &&& insists_on(plan, WindowOp::AlwaysOnTop(on_top))
        }),
{
    let mini = WindowLabel::Mini;
    let main = WindowLabel::Main;
    let p = attempt(mini, WindowOp::AlwaysOnTop(false));
    let q = demand(mini, WindowOp::AlwaysOnTop(on_top));
    let plan = on_top_plan(false, true, on_top);
    lemma_done_by_two(p, q, mini);
    lemma_done_by_two(p, q, main);
    lemma_done_by_one(p, mini);
    lemma_done_by_one(q, mini);
    lemma_done_by_one(p, main);
    lemma_done_by_one(q, main);
    assert(seq![WindowOp::AlwaysOnTop(false)][0] != seq![WindowOp::AlwaysOnTop(true)][0]);
    if on_top {
        assert(plan =~= seq![p, q]);
        assert(done_to(plan, mini) =~= seq![
            WindowOp::AlwaysOnTop(false),
            WindowOp::AlwaysOnTop(true),
        ]);
        assert(done_to(plan, main) =~= Seq::empty());
    } else {
        assert(plan =~= seq![q]);
    }
}

/// A new size is set behind the smallest one, where that comes with it, and both have to succeed.
pub proof fn law_smallest_size_is_set_first(has_min: bool)
    ensures
        ({
            let plan = resize_plan(false, true, has_min);
            &&& done_to(plan, WindowLabel::Mini) == if has_min {
                seq![WindowOp::SetMinSize, WindowOp::SetSize]
            } else {
                seq![WindowOp::SetSize]
            }
            &&& done_to(plan, WindowLabel::Main) == Seq::<WindowOp>::empty()
            &&& forall|i: int| 0 <= i < plan.len() ==> (#[trigger] plan[i]).must
        }),
{
    let mini = WindowLabel::Mini;
    let main = WindowLabel::Main;
    let p = demand(mini, WindowOp::SetMinSize);
    let q = demand(mini, WindowOp::SetSize);
    let plan = resize_plan(false, true, has_min);
    lemma_done_by_two(p, q, mini);
    lemma_done_by_two(p, q, main);
    lemma_done_by_one(p, mini);
    lemma_done_by_one(q, mini);
    lemma_done_by_one(p, main);
    lemma_done_by_one(q, main);
    if has_min {
        assert(plan =~= seq![p, q]);
        assert(done_to(plan, mini) =~= seq![WindowOp::SetMinSize, WindowOp::SetSize]);
        assert(done_to(plan, main) =~= Seq::empty());
    } else {
        assert(plan =~= seq![q]);
    }
}

/// The main window's frame comes and goes as it is asked to, and a window that gets one back is
/// focused; nothing of it has to succeed.
pub proof fn law_frame_follows_the_request(enabled: bool)
    ensures
        ({
            let plan = decorations_plan(false, true, enabled);
            &&& done_to(plan, WindowLabel::Main) == if enabled {
                seq![WindowOp::Decorations(true), WindowOp::Focus]
            } else {
                seq![WindowOp::Decorations(false)]
            }
            &&& done_to(plan, WindowLabel::Mini) == Seq::<WindowOp>::empty()
            &&& forall|i: int| 0 <= i < plan.len() ==> !(#[trigger] plan[i]).must
        }),
{
    let mini = WindowLabel::Mini;
    let main = WindowLabel::Main;
    let p = attempt(main, WindowOp::Decorations(enabled));
    let q = attempt(main, WindowOp::Focus);
    let plan = decorations_plan(false, true, enabled);
    lemma_done_by_two(p, q, mini);
    lemma_done_by_two(p, q, main);
    lemma_done_by_one(p, mini);
    lemma_done_by_one(q, mini);
    lemma_done_by_one(p, main);
    lemma_done_by_one(q, main);
    if enabled {
        assert(plan =~= seq![p, q]);
        assert(done_to(plan, main) =~= seq![WindowOp::Decorations(true), WindowOp::Focus]);
        assert(done_to(plan, mini) =~= Seq::empty());
    } else {
        assert(plan =~= seq![p]);
    }
}

/// A second launch brings the main window to the front, unless it was a command that the first one
/// has taken; nothing of it has to succeed.
pub proof fn law_second_launch_shows_the_first(cli_handled: bool)
    ensures
        ({
            let plan = second_launch_plan(cli_handled);
            &&& done_to(plan, WindowLabel::Main) == if cli_handled {
                Seq::empty()
            } else {
                seq![
                    WindowOp::ResumeRendering,
                    WindowOp::Show,
                    WindowOp::Unminimize,
                    WindowOp::Focus,
                ]
            }
            &&& done_to(plan, WindowLabel::Mini) == Seq::<WindowOp>::empty()
            &&& forall|i: int| 0 <= i < plan.len() ==> !(#[trigger] plan[i]).must
        }),
{
    let mini = WindowLabel::Mini;
    let main = WindowLabel::Main;
    let a = attempt(main, WindowOp::ResumeRendering);
    let b = attempt(main, WindowOp::Show);
    let c = attempt(main, WindowOp::Unminimize);
    let d = attempt(main, WindowOp::Focus);
    let plan = second_launch_plan(cli_handled);
    if !cli_handled {
        assert(plan =~= seq![a, b] + seq![c, d]);
        lemma_done_to(seq![a, b], seq![c, d], mini);
        lemma_done_to(seq![a, b], seq![c, d], main);
        lemma_done_by_two(a, b, mini);
        lemma_done_by_two(a, b, main);
        lemma_done_by_two(c, d, mini);
        lemma_done_by_two(c, d, main);
        lemma_done_by_one(a, mini);
        lemma_done_by_one(b, mini);
        lemma_done_by_one(c, mini);
        lemma_done_by_one(d, mini);
        lemma_done_by_one(a, main);
        lemma_done_by_one(b, main);
        lemma_done_by_one(c, main);
        lemma_done_by_one(d, main);
        assert(done_to(plan, main) =~= seq![
            WindowOp::ResumeRendering,
            WindowOp::Show,
            WindowOp::Unminimize,
            WindowOp::Focus,
        ]);
        assert(done_to(plan, mini) =~= Seq::empty());
    }
}

} // verus!
