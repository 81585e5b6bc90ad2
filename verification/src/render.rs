//! The decisions of the window's event loop: for each event, what the loop
//! does and what it keeps. The windowing, the GL context and the drawing
//! are performed by whoever runs the loop.
use vstd::prelude::*;

verus! {

/// What the loop holds between events.
#[derive(Clone, Copy, Debug, PartialEq, Eq, Structural)]
pub struct LoopState {
    /// A window was created with the display and waits to be used.
    pub has_window: bool,
    /// The drawing environment (window, surface, current GL context) is live.
    pub has_env: bool,
    /// The GL context is parked, not current on any surface.
    pub has_gl_context: bool,
    /// The cursor's last position is known.
    pub has_cursor: bool,
    /// The loop was told to exit.
    pub exit: bool,
}

/// The input events that reach the semantics handlers.
#[derive(Clone, Copy, Debug, PartialEq, Eq, Structural)]
pub enum InputKind {
    MouseInput,
    Touch,
    KeyboardInput,
}

/// The events of the loop, with what the decisions read of them.
#[derive(Clone, Copy, Debug, PartialEq, Eq, Structural)]
pub enum LoopEvent {
    Resumed,
    Suspended,
    LoopDestroyed,
    /// The window's inner size changed to `width` by `height` pixels.
    Resized { width: u32, height: u32 },
    CloseRequested,
    CursorMoved,
    /// A mouse button changed state; `has_handlers` tells whether any
    /// handler is attached to a semantics node.
    MouseInput { has_handlers: bool },
    Touch,
    /// A key changed state; `has_key_code` tells whether the key is known.
    KeyboardInput { has_key_code: bool },
    RedrawRequested,
    MainEventsCleared,
    /// An accessibility action was requested.
    ActionRequest,
    /// A task sent its result back.
    Task,
    /// Any other event.
    Other,
}

/// What the loop does, in order.
#[derive(Clone, Copy, Debug, PartialEq, Eq, Structural)]
pub enum LoopAction {
    /// Use the waiting window, or create one when `create_window` holds; set
    /// the scale factor, build the views, start the accessibility adapter,
    /// make the GL context current and create the drawing surface.
    Resume { create_window: bool },
    /// Drop the drawing environment and park its GL context.
    Suspend,
    /// Resize the drawing surface to `width` by `height` pixels.
    ResizeSurface { width: u32, height: u32 },
    /// Stop the loop.
    Exit,
    /// Remember the cursor's position.
    RecordCursor,
    /// Hand the event to every handler attached to a semantics node.
    Dispatch(InputKind),
    /// Recompose the views.
    Recompose,
    /// Ask the window for a redraw.
    RequestRedraw,
    /// Lay out, build the semantics and paint, then present the frame.
    Redraw,
    /// Report the accessibility action.
    LogActionRequest,
    /// Hand the result to the task that waits for it.
    RunTask,
}

/// The state before the first event: a window may have been created with
/// the display, and the GL context is parked.
pub open spec fn initial(has_window: bool) -> LoopState {
    LoopState { has_window, has_env: false, has_gl_context: true, has_cursor: false, exit: false }
}

/// The events on which the loop does not fail: a resume needs the parked
/// context; a suspension needs the live environment and no parked context;
/// the input events need the environment to ask for a redraw, and a mouse
/// event the cursor's position when a handler receives it.
pub open spec fn accepts(s: LoopState, e: LoopEvent) -> bool {
    match e {
        LoopEvent::Resumed => s.has_gl_context,
        LoopEvent::Suspended => s.has_env && !s.has_gl_context,
        LoopEvent::MouseInput { has_handlers } => s.has_env && (s.has_cursor || !has_handlers),
        LoopEvent::Touch => s.has_env,
        LoopEvent::KeyboardInput { .. } => s.has_env,
        _ => true,
    }
}

/// The state after the event `e`.
pub open spec fn next_state(s: LoopState, e: LoopEvent) -> LoopState {
    match e {
        LoopEvent::Resumed => LoopState { has_window: false, has_env: true, has_gl_context: false, ..s },
        LoopEvent::Suspended => LoopState { has_env: false, has_gl_context: true, ..s },
        LoopEvent::CloseRequested => LoopState { exit: true, ..s },
        LoopEvent::CursorMoved => LoopState { has_cursor: true, ..s },
        _ => s,
    }
}

/// What the loop does on the event `e`. A resize gives the surface the new
/// width in both dimensions.
pub open spec fn reaction(s: LoopState, e: LoopEvent) -> Seq<LoopAction> {
    match e {
        LoopEvent::Resumed => seq![LoopAction::Resume { create_window: !s.has_window }],
        LoopEvent::Suspended => seq![LoopAction::Suspend],
        LoopEvent::Resized { width, .. } => if s.has_env {
            seq![LoopAction::ResizeSurface { width, height: width }]
        } else {
            seq![]
        },
        LoopEvent::CloseRequested => seq![LoopAction::Exit],
        LoopEvent::CursorMoved => seq![LoopAction::RecordCursor],
        LoopEvent::MouseInput { .. } => seq![
            LoopAction::Dispatch(InputKind::MouseInput),
            LoopAction::Recompose,
            LoopAction::RequestRedraw,
        ],
        LoopEvent::Touch => seq![
            LoopAction::Dispatch(InputKind::Touch),
            LoopAction::Recompose,
            LoopAction::RequestRedraw,
        ],
        LoopEvent::KeyboardInput { has_key_code } => if has_key_code {
            seq![
                LoopAction::Dispatch(InputKind::KeyboardInput),
                LoopAction::Recompose,
                LoopAction::RequestRedraw,
            ]
        } else {
            seq![LoopAction::Recompose, LoopAction::RequestRedraw]
        },
        LoopEvent::RedrawRequested => if s.has_env {
            seq![LoopAction::Redraw]
        } else {
            seq![]
        },
        LoopEvent::ActionRequest => seq![LoopAction::LogActionRequest],
        LoopEvent::Task => seq![LoopAction::RunTask],
        _ => seq![],
    }
}

/// Exactly one of the drawing environment and the parked GL context exists.
pub open spec fn holds_one_context(s: LoopState) -> bool {
    s.has_env != s.has_gl_context
}

impl LoopState {
    /// The state before the first event.
    pub fn new(has_window: bool) -> (r: LoopState)
        ensures
            r == initial(has_window),
    {
        LoopState { has_window, has_env: false, has_gl_context: true, has_cursor: false, exit: false }
    }

    /// Whether the loop can take the event `e` without failing.
    pub fn accepts(&self, e: LoopEvent) -> (r: bool)
        ensures
            r == accepts(*self, e),
    {
        match e {
            LoopEvent::Resumed => self.has_gl_context,
            LoopEvent::Suspended => self.has_env && !self.has_gl_context,
            LoopEvent::MouseInput { has_handlers } => self.has_env && (self.has_cursor || !has_handlers),
            LoopEvent::Touch => self.has_env,
            LoopEvent::KeyboardInput { .. } => self.has_env,
            _ => true,
        }
    }

    /// Takes the event `e`: returns what to do, in order, and keeps what the
    /// event leaves.
    pub fn step(&mut self, e: LoopEvent) -> (r: Vec<LoopAction>)
        requires
            accepts(*old(self), e),
        ensures
            *final(self) == next_state(*old(self), e),
            r@ == reaction(*old(self), e),
    {
        let mut r: Vec<LoopAction> = Vec::new();
        match e {
            LoopEvent::Resumed => {
                r.push(LoopAction::Resume { create_window: !self.has_window });
                self.has_window = false;
                self.has_env = true;
                self.has_gl_context = false;
            },
            LoopEvent::Suspended => {
                r.push(LoopAction::Suspend);
                self.has_env = false;
                self.has_gl_context = true;
            },
            LoopEvent::Resized { width, .. } => {
                if self.has_env {
                    r.push(LoopAction::ResizeSurface { width, height: width });
                }
            },
            LoopEvent::CloseRequested => {
                r.push(LoopAction::Exit);
                self.exit = true;
            },
            LoopEvent::CursorMoved => {
                r.push(LoopAction::RecordCursor);
                self.has_cursor = true;
            },
            LoopEvent::MouseInput { .. } => {
                r.push(LoopAction::Dispatch(InputKind::MouseInput));
                r.push(LoopAction::Recompose);
                r.push(LoopAction::RequestRedraw);
            },
            LoopEvent::Touch => {
                r.push(LoopAction::Dispatch(InputKind::Touch));
                r.push(LoopAction::Recompose);
                r.push(LoopAction::RequestRedraw);
            },
            LoopEvent::KeyboardInput { has_key_code } => {
                if has_key_code {
                    r.push(LoopAction::Dispatch(InputKind::KeyboardInput));
                }
                r.push(LoopAction::Recompose);
                r.push(LoopAction::RequestRedraw);
            },
            LoopEvent::RedrawRequested => {
                if self.has_env {
                    r.push(LoopAction::Redraw);
                }
            },
            LoopEvent::ActionRequest => {
                r.push(LoopAction::LogActionRequest);
            },
            LoopEvent::Task => {
                r.push(LoopAction::RunTask);
            },
            _ => {},
        }
        assert(r@ =~= reaction(*old(self), e));
        r
    }
}

/// The loop starts with the GL context parked and no environment.
pub proof fn law_loop_starts_with_one_context(has_window: bool)
    ensures
        holds_one_context(initial(has_window)),
{
}

/// Every event the loop takes keeps exactly one of the drawing environment
/// and the parked GL context.
pub proof fn law_one_context_at_a_time(s: LoopState, e: LoopEvent)
    requires
        holds_one_context(s),
        accepts(s, e),
    ensures
        holds_one_context(next_state(s, e)),
{
}

/// Under that invariant a resume is refused exactly when the environment is
/// live already, and a suspension exactly when it is not.
pub proof fn law_resume_and_suspend_alternate(s: LoopState)
    requires
        holds_one_context(s),
    ensures
        accepts(s, LoopEvent::Resumed) <==> !s.has_env,
        accepts(s, LoopEvent::Suspended) <==> s.has_env,
        next_state(next_state(s, LoopEvent::Resumed), LoopEvent::Suspended).has_gl_context,
        !next_state(next_state(s, LoopEvent::Resumed), LoopEvent::Suspended).has_env,
{
}

/// Input reaches the handlers and is followed by a recomposition and a
/// redraw request, in that order.
pub proof fn law_input_recomposes_then_redraws(s: LoopState, e: LoopEvent)
    requires
        e matches LoopEvent::MouseInput { .. } || e == LoopEvent::Touch || e matches LoopEvent::KeyboardInput { .. },
    ensures
        reaction(s, e).len() >= 2,
        reaction(s, e)[reaction(s, e).len() - 2] == LoopAction::Recompose,
        reaction(s, e).last() == LoopAction::RequestRedraw,
{
}

/// Of the layouts met in visiting order, given as the drawing order of
/// those that hold the point (`None` for the others), the one on top: the
/// highest drawing order, and of equal orders the one met last.
pub open spec fn is_topmost(hits: Seq<Option<u32>>, i: int) -> bool {
    &&& 0 <= i < hits.len()
    &&& hits[i] is Some
    &&& forall|j: int| 0 <= j < hits.len() && #[trigger] hits[j] is Some ==> hits[j]->0 <= hits[i]->0
    &&& forall|j: int| i < j < hits.len() && #[trigger] hits[j] is Some ==> hits[j]->0 < hits[i]->0
}

/// The layout on top at a point, from what each visited layout says of it:
/// a later layout takes the place of the one found so far when its drawing
/// order is at least as high.
pub fn topmost(hits: &Vec<Option<u32>>) -> (r: Option<usize>)
    ensures
        match r {
            Some(i) => is_topmost(hits@, i as int),
            None => forall|j: int| 0 <= j < hits@.len() ==> #[trigger] hits@[j] is None,
        },
{
    let mut target: Option<(usize, u32)> = None;
    let mut k: usize = 0;
    while k < hits.len()
        invariant
            0 <= k <= hits@.len(),
            match target {
                Some((i, o)) => {
                    &&& i < k
                    &&& hits@[i as int] == Some(o)
                    &&& forall|j: int| 0 <= j < k && #[trigger] hits@[j] is Some ==> hits@[j]->0 <= o
                    &&& forall|j: int| i < j < k && #[trigger] hits@[j] is Some ==> hits@[j]->0 < o
                },
                None => forall|j: int| 0 <= j < k ==> #[trigger] hits@[j] is None,
            },
        decreases hits.len() - k,
    {
        if let Some(order) = hits[k] {
            match target {
                Some((_, o)) => {
                    if order >= o {
                        target = Some((k, order));
                    }
                },
                None => {
                    target = Some((k, order));
                },
            }
        }
        k = k + 1;
    }
    match target {
        Some((i, _)) => Some(i),
        None => None,
    }
}

/// Input that names its target reaches the node handlers before the views
/// are recomposed: a mouse or touch event, or a key event with a known key
/// code, is dispatched first, as input of its own kind, and recomposition
/// follows right after; a key event without a key code is dispatched to no
/// handler.
pub proof fn law_input_is_dispatched_before_recomposing(s: LoopState, e: LoopEvent)
    ensures
        e matches LoopEvent::MouseInput { .. } ==> reaction(s, e)[0] == LoopAction::Dispatch(
            InputKind::MouseInput,
        ) && reaction(s, e)[1] == LoopAction::Recompose,
        e == LoopEvent::Touch ==> reaction(s, e)[0] == LoopAction::Dispatch(InputKind::Touch)
            && reaction(s, e)[1] == LoopAction::Recompose,
        e == (LoopEvent::KeyboardInput { has_key_code: true }) ==> reaction(s, e)[0]
            == LoopAction::Dispatch(InputKind::KeyboardInput) && reaction(s, e)[1]
            == LoopAction::Recompose,
        e == (LoopEvent::KeyboardInput { has_key_code: false }) ==> forall|i: int|
            0 <= i < reaction(s, e).len() ==> !(#[trigger] reaction(s, e)[i] is Dispatch),
{
}

} // verus!
