use shortcut_bindings::AppEvent;
use shortcut_bindings::BindingManager;
use shortcut_bindings::BindingRole;
use shortcut_bindings::KeyTransition;
use shortcut_bindings::ParsedShortcut;
use shortcut_bindings::ShortcutError;
use shortcut_bindings::event_for;
use shortcut_bindings::parse_shortcut;
use std::str::FromStr;

fn id_of(descriptor: &str) -> ParsedShortcut {
    parse_shortcut(descriptor).expect("descriptor should parse")
}

#[test]
fn parse_accepts_valid_descriptors() {
    assert!(parse_shortcut("Control+Space").is_ok());
    assert!(parse_shortcut("shift+alt+KeyQ").is_ok());
    assert!(parse_shortcut("F5").is_ok());
}

#[test]
fn parse_is_a_function_of_the_descriptor() {
    let a = id_of("Control+Space");
    let b = id_of("Control+Space");
    assert_eq!(a.id, b.id);
    // The parser is case-insensitive about modifier spelling.
    let c = id_of("control+space");
    assert_eq!(a.id, c.id);
    // A different combination gets a different identifier.
    let d = id_of("Alt+KeyQ");
    assert_ne!(a.id, d.id);
}

#[test]
fn parse_agrees_with_the_facility() {
    let ours = id_of("Control+Shift+KeyM");
    let theirs = global_hotkey::hotkey::HotKey::from_str("Control+Shift+KeyM").unwrap();
    assert_eq!(ours.id, theirs.id());

    let our_err = parse_shortcut("Control+KeyC+Shift").unwrap_err();
    let their_err = global_hotkey::hotkey::HotKey::from_str("Control+KeyC+Shift").unwrap_err();
    assert_eq!(our_err.message(), format!("{}", their_err));
}

#[test]
fn parse_rejects_malformed_descriptors() {
    // A trailing separator leaves an empty token.
    assert!(matches!(parse_shortcut("Control+"), Err(ShortcutError::Parse(_))));
    // The main key must come last.
    assert!(matches!(parse_shortcut("Control+KeyC+Shift"), Err(ShortcutError::Parse(_))));
    // An unknown key name.
    assert!(matches!(parse_shortcut("NotAKey"), Err(ShortcutError::Parse(_))));
}

#[test]
fn push_to_talk_scenario() {
    let mut manager = BindingManager::new();
    assert!(manager.bind_push_to_talk("Control+Space").is_ok());

    let shortcut = id_of("Control+Space");
    assert_eq!(
        manager.on_transition(shortcut, KeyTransition::Pressed),
        Some(AppEvent::PttPressed)
    );
    assert_eq!(
        manager.on_transition(shortcut, KeyTransition::Released),
        Some(AppEvent::PttReleased)
    );

    assert!(manager.unbind("Control+Space").is_ok());
    assert_eq!(manager.on_transition(shortcut, KeyTransition::Pressed), None);
}

#[test]
fn mute_toggle_scenario() {
    let mut manager = BindingManager::new();
    assert!(manager.bind_mute_toggle("Control+M").is_ok());

    let shortcut = id_of("Control+M");
    // A release with no prior press publishes nothing.
    assert_eq!(manager.on_transition(shortcut, KeyTransition::Released), None);
    assert_eq!(
        manager.on_transition(shortcut, KeyTransition::Pressed),
        Some(AppEvent::ToggleMute)
    );
}

#[test]
fn deafen_toggle_fires_on_press_only() {
    let mut manager = BindingManager::new();
    assert!(manager.bind_deafen_toggle("Control+D").is_ok());

    let shortcut = id_of("Control+D");
    assert_eq!(manager.on_transition(shortcut, KeyTransition::Released), None);
    assert_eq!(
        manager.on_transition(shortcut, KeyTransition::Pressed),
        Some(AppEvent::ToggleDeafen)
    );
}

#[test]
fn malformed_descriptor_fails_every_operation_without_side_effect() {
    let mut manager = BindingManager::new();
    assert!(manager.bind_push_to_talk("Control+Space").is_ok());

    let malformed = "Control+KeyC+Shift";
    assert!(matches!(manager.bind_push_to_talk(malformed), Err(ShortcutError::Parse(_))));
    assert!(matches!(manager.bind_mute_toggle(malformed), Err(ShortcutError::Parse(_))));
    assert!(matches!(manager.bind_deafen_toggle(malformed), Err(ShortcutError::Parse(_))));
    assert!(matches!(manager.unbind(malformed), Err(ShortcutError::Parse(_))));

    // The earlier registration is untouched.
    let shortcut = id_of("Control+Space");
    assert!(manager.is_bound(shortcut));
    assert_eq!(
        manager.on_transition(shortcut, KeyTransition::Pressed),
        Some(AppEvent::PttPressed)
    );
}

#[test]
fn rebinding_a_bound_combination_is_refused() {
    let mut manager = BindingManager::new();
    assert!(manager.bind_push_to_talk("Control+Space").is_ok());

    let second = manager.bind_mute_toggle("Control+Space");
    match second {
        Err(ShortcutError::Registration(message)) => {
            assert_eq!(message, "shortcut is already registered");
        }
        other => panic!("expected a registration failure, got {:?}", other),
    }

    // The combination keeps its original role.
    let shortcut = id_of("Control+Space");
    assert_eq!(
        manager.on_transition(shortcut, KeyTransition::Released),
        Some(AppEvent::PttReleased)
    );
}

#[test]
fn unbinding_an_unbound_combination_is_refused() {
    let mut manager = BindingManager::new();
    let r = manager.unbind("Control+Space");
    match r {
        Err(ShortcutError::Unregistration(message)) => {
            assert_eq!(message, "shortcut is not registered");
        }
        other => panic!("expected an unregistration failure, got {:?}", other),
    }
}

#[test]
fn unbind_all_silences_every_binding() {
    let mut manager = BindingManager::new();
    assert!(manager.bind_push_to_talk("Control+Space").is_ok());
    assert!(manager.bind_mute_toggle("Control+M").is_ok());
    assert!(manager.bind_deafen_toggle("Control+D").is_ok());

    assert!(manager.unbind_all().is_ok());

    for descriptor in ["Control+Space", "Control+M", "Control+D"] {
        let shortcut = id_of(descriptor);
        assert!(!manager.is_bound(shortcut));
        assert_eq!(manager.on_transition(shortcut, KeyTransition::Pressed), None);
        assert_eq!(manager.on_transition(shortcut, KeyTransition::Released), None);
    }
}

#[test]
fn roles_map_to_their_events() {
    assert_eq!(
        event_for(BindingRole::PushToTalk, KeyTransition::Pressed),
        Some(AppEvent::PttPressed)
    );
    assert_eq!(
        event_for(BindingRole::PushToTalk, KeyTransition::Released),
        Some(AppEvent::PttReleased)
    );
    assert_eq!(
        event_for(BindingRole::MuteToggle, KeyTransition::Pressed),
        Some(AppEvent::ToggleMute)
    );
    assert_eq!(event_for(BindingRole::MuteToggle, KeyTransition::Released), None);
    assert_eq!(
        event_for(BindingRole::DeafenToggle, KeyTransition::Pressed),
        Some(AppEvent::ToggleDeafen)
    );
    assert_eq!(event_for(BindingRole::DeafenToggle, KeyTransition::Released), None);
}

#[test]
fn events_carry_their_wire_names() {
    assert_eq!(AppEvent::PttPressed.name(), "ptt-pressed");
    assert_eq!(AppEvent::PttReleased.name(), "ptt-released");
    assert_eq!(AppEvent::ToggleMute.name(), "toggle-mute");
    assert_eq!(AppEvent::ToggleDeafen.name(), "toggle-deafen");
}

#[test]
fn parse_errors_carry_the_parser_message() {
    let err = parse_shortcut("Control+").unwrap_err();
    match err {
        ShortcutError::Parse(ref message) => {
            assert!(!message.is_empty());
        }
        ref other => panic!("expected a parse failure, got {:?}", other),
    }
    assert!(!err.message().is_empty());
}
