use concoct::modify::container::{ContainerConfig, MergeDescendants};
use concoct::modify::handler::clickable::{
    ClickHandler, ClickInteration, ClickOutcome, Event, TouchPhase,
};
use concoct::modify::handler::clickable::ElementState;
use concoct::modify::handler::keyboard_input::{KeyLog, KeyboardInputHandler};
use concoct::modify::handler::ModifierHandler;
use concoct::modify::keyboard_input::KeyboardInput;
use concoct::modify::modifier::Modifier;
use concoct::modify::Modify;
use concoct::semantics::Semantics;

#[test]
fn merge_descendants_sets_the_flag() {
    let mut config = ContainerConfig::default();
    assert!(!config.merge_descendants);
    MergeDescendants.modify(&mut config);
    assert!(config.merge_descendants);
    assert_eq!(config.role, accesskit::Role::Unknown);
}

#[test]
fn modifier_changes_nothing() {
    let mut value = 5u8;
    Modifier.modify(&mut value);
    assert_eq!(value, 5);
}

#[test]
fn click_fires_after_press_and_release_inside() {
    let mut h = ClickHandler::new((), 0u8);
    assert!(!h.is_pressed);
    assert_eq!(h.press(true), Some(ClickInteration::Press));
    assert!(h.is_pressed);
    assert_eq!(h.release(true), Some(ClickInteration::Release));
    assert!(!h.is_pressed);
    assert_eq!(h.release(true), None);
}

#[test]
fn release_outside_cancels() {
    let mut h = ClickHandler::new((), ());
    assert_eq!(h.press(false), None);
    assert_eq!(h.release(false), None);
    assert_eq!(h.press(true), Some(ClickInteration::Press));
    assert_eq!(h.release(false), Some(ClickInteration::Cancel));
}

#[test]
fn handle_dispatches_events() {
    let mut h = ClickHandler::new((), ());
    assert_eq!(
        h.handle(Event::Action),
        ClickOutcome { interaction: None, click: true }
    );
    assert_eq!(
        h.handle(Event::Touch { phase: TouchPhase::Started, inside: true }),
        ClickOutcome { interaction: Some(ClickInteration::Press), click: false }
    );
    assert_eq!(
        h.handle(Event::Touch { phase: TouchPhase::Moved, inside: true }),
        ClickOutcome { interaction: Some(ClickInteration::Release), click: true }
    );
    assert_eq!(
        h.handle(Event::MouseInput { pressed: true, inside: true }),
        ClickOutcome { interaction: Some(ClickInteration::Press), click: false }
    );
    assert_eq!(
        h.handle(Event::Other),
        ClickOutcome { interaction: None, click: false }
    );
    assert_eq!(
        h.handle(Event::MouseInput { pressed: false, inside: false }),
        ClickOutcome { interaction: Some(ClickInteration::Cancel), click: false }
    );
}

#[test]
fn modifier_handler_keeps_an_existing_handler() {
    let mut s: Semantics<u8> = Semantics::default();
    let mut first = ModifierHandler::new(1u8);
    first.semantics(5, &mut s);
    let mut second = ModifierHandler::new(2u8);
    second.semantics(5, &mut s);
    assert_eq!(s.handlers.get(&5), Some(&1));
    second.remove(5, &mut s);
    assert!(s.handlers.is_empty());
}

#[test]
fn keyboard_input_replaces_the_handler_once() {
    let mut s: Semantics<KeyboardInputHandler<KeyLog>> = Semantics::default();
    s.insert_handler(5, KeyboardInputHandler::new(KeyLog { entries: vec![(ElementState::Pressed, 9)] }));
    let mut k = KeyboardInput::new(KeyLog::new());
    let mut unit = ();
    k.modify(&mut unit);
    k.semantics(5, &mut s);
    let h = s.handlers.get_mut(&5).unwrap();
    h.handle(Event::KeyboardInput { state: ElementState::Released, key_code: 4 });
    assert_eq!(h.inner().entries, vec![(ElementState::Released, 4)]);
    s.insert_handler(6, KeyboardInputHandler::new(KeyLog::new()));
    k.semantics(6, &mut s);
    assert_eq!(s.handlers.len(), 2);
}

#[test]
fn keyboard_handler_receives_only_keyboard_input() {
    let mut h = KeyboardInputHandler::new(KeyLog::new());
    h.handle(Event::Action);
    h.handle(Event::MouseInput { pressed: true, inside: true });
    h.handle(Event::KeyboardInput { state: ElementState::Pressed, key_code: 30 });
    h.handle(Event::Other);
    h.handle(Event::KeyboardInput { state: ElementState::Released, key_code: 30 });
    assert_eq!(
        h.inner().entries,
        vec![(ElementState::Pressed, 30), (ElementState::Released, 30)]
    );
    let mut s: Semantics<KeyboardInputHandler<KeyLog>> = Semantics::default();
    s.insert_handler(1, h);
    let mut k = KeyboardInput::new(KeyLog::new());
    k.semantics(1, &mut s);
    let replaced = s.handlers.remove(&1).unwrap();
    assert!(replaced.inner().entries.is_empty());
}
