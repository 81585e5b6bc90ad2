//! Views backed by a native web view.
use vstd::prelude::*;

verus! {

/// The platform whose views are nodes of a native web view.
pub struct NativeView;

/// A view of web content.
#[derive(PartialEq, Eq, Structural)]
pub struct WebView {}

impl WebView {
    /// A web view; its content is not kept.
    pub fn new<C>(content: C) -> (r: Self)
        ensures
            r == (WebView {}),
    {
        let _ = content;
        Self {}
    }
}

/// The events of the web view's window loop, with what the loop reads.
#[derive(Clone, Copy, Debug, PartialEq, Eq, Structural)]
pub enum WebEvent {
    /// The window's inner size changed to `width` by `height`.
    Resized { width: u32, height: u32 },
    CloseRequested,
    /// Any other event.
    Other,
}

/// What the web view's loop does.
#[derive(Clone, Copy, Debug, PartialEq, Eq, Structural)]
pub enum WebAction {
    /// Build the composition of the content.
    BuildViews,
    /// Keep polling for events.
    Poll,
    /// Place the web view at `(x, y)` with the given size.
    SetBounds { x: i32, y: i32, width: u32, height: u32 },
    /// Stop the loop.
    Exit,
}

/// What the loop does on an event: it polls again, then a resize makes the
/// web view fill the window where GTK hosts the web view, and a close
/// request ends the loop.
pub open spec fn web_reaction(event: WebEvent, gtk_hosts_view: bool) -> Seq<WebAction> {
    seq![WebAction::Poll] + match event {
        WebEvent::Resized { width, height } => if gtk_hosts_view {
            seq![WebAction::SetBounds { x: 0, y: 0, width, height }]
        } else {
            seq![]
        },
        WebEvent::CloseRequested => seq![WebAction::Exit],
        WebEvent::Other => seq![],
    }
}

/// The web view's loop: the composition is built once, before any event.
pub struct WebViewLoop {
    pub built: bool,
}

impl WebViewLoop {
    /// A loop whose composition is not built yet.
    pub fn new() -> (r: WebViewLoop)
        ensures
            !r.built,
    {
        WebViewLoop { built: false }
    }

    /// Starts the loop: the composition is built, once.
    pub fn start(&mut self) -> (r: WebAction)
        requires
            !old(self).built,
        ensures
            final(self).built,
            r == WebAction::BuildViews,
    {
        self.built = true;
        WebAction::BuildViews
    }

    /// Takes an event of the started loop.
    pub fn step(&self, event: WebEvent, gtk_hosts_view: bool) -> (r: Vec<WebAction>)
        requires
            self.built,
        ensures
            r@ == web_reaction(event, gtk_hosts_view),
    {
        web_view_step(event, gtk_hosts_view)
    }
}

/// What the loop does on an event, in order.
pub fn web_view_step(event: WebEvent, gtk_hosts_view: bool) -> (r: Vec<WebAction>)
    ensures
        r@ == web_reaction(event, gtk_hosts_view),
{
    let mut r: Vec<WebAction> = Vec::new();
    r.push(WebAction::Poll);
    match event {
        WebEvent::Resized { width, height } => {
            if gtk_hosts_view {
                r.push(WebAction::SetBounds { x: 0, y: 0, width, height });
            }
        },
        WebEvent::CloseRequested => {
            r.push(WebAction::Exit);
        },
        WebEvent::Other => {},
    }
    assert(r@ =~= web_reaction(event, gtk_hosts_view));
    r
}

/// Every event keeps the loop polling, and only a close request ends it.
pub proof fn law_every_event_polls_and_only_close_exits(event: WebEvent, gtk_hosts_view: bool)
    ensures
        web_reaction(event, gtk_hosts_view)[0] == WebAction::Poll,
        web_reaction(event, gtk_hosts_view).contains(WebAction::Exit) <==> event
            == WebEvent::CloseRequested,
{
    let r = web_reaction(event, gtk_hosts_view);
    if event == WebEvent::CloseRequested {
        assert(r[1] == WebAction::Exit);
    }
}

} // verus!
