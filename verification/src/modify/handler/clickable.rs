//! Clicks: a press inside an element followed by a release inside it.
use vstd::prelude::*;

verus! {

/// The interactions a click handler reports.
#[derive(Clone, Copy, Debug, PartialEq, Eq, Structural)]
pub enum ClickInteration {
    Press,
    Release,
    Cancel,
}

/// The phase of a touch.
#[derive(Clone, Copy, Debug, PartialEq, Eq, Structural)]
pub enum TouchPhase {
    Started,
    Moved,
    Ended,
    Cancelled,
}

/// Whether a key or button went down or up.
#[derive(Clone, Copy, Debug, PartialEq, Eq, Structural)]
pub enum ElementState {
    Pressed,
    Released,
}

/// An event as the handlers of semantics nodes see it: for pointer events,
/// whether the pointer lies inside the element's bounds has been decided
/// already.
#[derive(Clone, Copy, Debug, PartialEq, Eq, Structural)]
pub enum Event {
    /// An accessibility action on the element.
    Action,
    /// A mouse button changed state.
    MouseInput { pressed: bool, inside: bool },
    /// A touch changed phase.
    Touch { phase: TouchPhase, inside: bool },
    /// A key changed state; the key is given by its key code.
    KeyboardInput { state: ElementState, key_code: u32 },
    /// Any other event.
    Other,
}

/// What a click handler does in answer to an event: an interaction to
/// report, and whether the click fires.
#[derive(Clone, Copy, Debug, PartialEq, Eq, Structural)]
pub struct ClickOutcome {
    pub interaction: Option<ClickInteration>,
    pub click: bool,
}

/// One thing a click handler does.
#[derive(Clone, Copy, Debug, PartialEq, Eq, Structural)]
pub enum ClickStep {
    /// Run the click.
    Click,
    /// Report the interaction to the interaction source.
    Report(ClickInteration),
}

/// The steps of an outcome in the order they are taken: the click runs
/// before the interaction is reported.
pub open spec fn outcome_steps(o: ClickOutcome) -> Seq<ClickStep> {
    (if o.click {
        seq![ClickStep::Click]
    } else {
        seq![]
    }) + match o.interaction {
        Some(i) => seq![ClickStep::Report(i)],
        None => seq![],
    }
}

impl ClickOutcome {
    /// The steps to take, in order.
    pub fn steps(&self) -> (r: Vec<ClickStep>)
        ensures
            r@ == outcome_steps(*self),
    {
        let mut r: Vec<ClickStep> = Vec::new();
        if self.click {
            r.push(ClickStep::Click);
        }
        if let Some(i) = self.interaction {
            r.push(ClickStep::Report(i));
        }
        assert(r@ =~= outcome_steps(*self));
        r
    }
}

/// A press: inside the bounds it starts a click and reports `Press`.
pub open spec fn press_step(is_pressed: bool, inside: bool) -> (bool, Option<ClickInteration>) {
    if inside {
        (true, Some(ClickInteration::Press))
    } else {
        (is_pressed, None)
    }
}

/// A release: after a press it ends the click, reporting `Release` inside
/// the bounds and `Cancel` outside; without a press it does nothing.
pub open spec fn release_step(is_pressed: bool, inside: bool) -> (bool, Option<ClickInteration>) {
    if is_pressed {
        (false, Some(if inside {
            ClickInteration::Release
        } else {
            ClickInteration::Cancel
        }))
    } else {
        (false, None)
    }
}

/// The state after an event and what the handler does.
pub open spec fn handle_step(is_pressed: bool, event: Event) -> (bool, ClickOutcome) {
    match event {
        Event::Action => (is_pressed, ClickOutcome { interaction: None, click: true }),
        Event::MouseInput { pressed, inside } => {
            let (p, i) = if pressed {
                press_step(is_pressed, inside)
            } else {
                release_step(is_pressed, inside)
            };
            (p, ClickOutcome { interaction: i, click: i == Some(ClickInteration::Release) })
        },
        Event::Touch { phase, inside } => {
            let (p, i) = if phase == TouchPhase::Started {
                press_step(is_pressed, inside)
            } else {
                release_step(is_pressed, inside)
            };
            (p, ClickOutcome { interaction: i, click: i == Some(ClickInteration::Release) })
        },
        Event::KeyboardInput { .. } | Event::Other => (
            is_pressed,
            ClickOutcome { interaction: None, click: false },
        ),
    }
}

/// A handler that fires `on_click` when the element is pressed and released
/// inside its bounds, reporting each interaction to `interaction_source`.
pub struct ClickHandler<I, F> {
    pub interaction_source: I,
    pub on_click: F,
    pub is_pressed: bool,
}

impl<I, F> ClickHandler<I, F> {
    pub fn new(interaction_source: I, on_click: F) -> (r: Self)
        ensures
            r.interaction_source == interaction_source,
            r.on_click == on_click,
            !r.is_pressed,
    {
        Self { interaction_source, on_click, is_pressed: false }
    }

    /// A press, `inside` the bounds or not; returns the interaction to
    /// report.
    pub fn press(&mut self, inside: bool) -> (r: Option<ClickInteration>)
        ensures
            (final(self).is_pressed, r) == press_step(old(self).is_pressed, inside),
            final(self).interaction_source == old(self).interaction_source,
            final(self).on_click == old(self).on_click,
    {
        if inside {
            self.is_pressed = true;
            Some(ClickInteration::Press)
        } else {
            None
        }
    }

    /// A release, `inside` the bounds or not; returns the interaction to
    /// report. The click fires when it is `Release`.
    pub fn release(&mut self, inside: bool) -> (r: Option<ClickInteration>)
        ensures
            (final(self).is_pressed, r) == release_step(old(self).is_pressed, inside),
            final(self).interaction_source == old(self).interaction_source,
            final(self).on_click == old(self).on_click,
    {
        if self.is_pressed {
            let r = if inside {
                ClickInteration::Release
            } else {
                ClickInteration::Cancel
            };
            self.is_pressed = false;
            Some(r)
        } else {
            None
        }
    }

    /// Answers an event: an action fires the click; a mouse press or the
    /// start of a touch presses; a mouse release or any later touch phase
    /// releases.
    pub fn handle(&mut self, event: Event) -> (r: ClickOutcome)
        ensures
            (final(self).is_pressed, r) == handle_step(old(self).is_pressed, event),
            final(self).interaction_source == old(self).interaction_source,
            final(self).on_click == old(self).on_click,
    {
        match event {
            Event::Action => ClickOutcome { interaction: None, click: true },
            Event::MouseInput { pressed, inside } => {
                let i = if pressed {
                    self.press(inside)
                } else {
                    self.release(inside)
                };
                ClickOutcome { interaction: i, click: i == Some(ClickInteration::Release) }
            },
            Event::Touch { phase, inside } => {
                let i = match phase {
                    TouchPhase::Started => self.press(inside),
                    TouchPhase::Moved | TouchPhase::Ended | TouchPhase::Cancelled => self.release(
                        inside,
                    ),
                };
                ClickOutcome { interaction: i, click: i == Some(ClickInteration::Release) }
            },
            Event::KeyboardInput { .. } | Event::Other => ClickOutcome {
                interaction: None,
                click: false,
            },
        }
    }
}

/// Starting from rest, a press followed by a release completes a click
/// exactly when both happen inside the element; the handler is at rest
/// again afterwards.
pub proof fn law_click_needs_press_and_release_inside(press_inside: bool, release_inside: bool)
    ensures
        ({
            let (p, _) = press_step(false, press_inside);
            let (q, i) = release_step(p, release_inside);
            &&& (i == Some(ClickInteration::Release)) == (press_inside && release_inside)
            &&& !q
        }),
{
}

/// A release never leaves the handler pressed, and reports an interaction
/// only after a press.
pub proof fn law_release_ends_press(is_pressed: bool, inside: bool)
    ensures
        !release_step(is_pressed, inside).0,
        release_step(is_pressed, inside).1.is_some() == is_pressed,
{
}

/// A release inside the element after a press runs the click first and
/// reports `Release` after it.
pub proof fn law_click_runs_before_release_is_reported()
    ensures
        outcome_steps(handle_step(true, Event::MouseInput { pressed: false, inside: true }).1)
            == seq![ClickStep::Click, ClickStep::Report(ClickInteration::Release)],
        outcome_steps(
            handle_step(true, Event::Touch { phase: TouchPhase::Ended, inside: true }).1,
        ) == seq![ClickStep::Click, ClickStep::Report(ClickInteration::Release)],
{
    assert(outcome_steps(handle_step(true, Event::MouseInput { pressed: false, inside: true }).1)
        =~= seq![ClickStep::Click, ClickStep::Report(ClickInteration::Release)]);
    assert(outcome_steps(
        handle_step(true, Event::Touch { phase: TouchPhase::Ended, inside: true }).1,
    ) =~= seq![ClickStep::Click, ClickStep::Report(ClickInteration::Release)]);
}

/// Only a completed click fires: apart from an accessibility action, the
/// click fires exactly when the interaction reported is `Release`, for mouse
/// and touch input alike; a `Cancel` never fires it, and a release without
/// a press fires nothing.
pub proof fn law_click_fires_only_on_release(is_pressed: bool, event: Event)
    ensures
        event != Event::Action ==> (handle_step(is_pressed, event).1.click <==> handle_step(
            is_pressed,
            event,
        ).1.interaction == Some(ClickInteration::Release)),
        handle_step(is_pressed, event).1.interaction == Some(ClickInteration::Cancel)
            ==> !handle_step(is_pressed, event).1.click,
        handle_step(is_pressed, event).1.interaction == Some(ClickInteration::Release)
            ==> is_pressed,
        event == Event::Action ==> handle_step(is_pressed, event).1.click,
{
}

} // verus!
