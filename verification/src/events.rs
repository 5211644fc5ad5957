//! Key transitions, binding roles, and the events each role publishes.

use vstd::prelude::*;

verus! {

/// A state transition of a bound key combination, as the hotkey
/// facility reports it.
#[derive(Clone, Copy, Debug, PartialEq, Eq, Structural)]
pub enum KeyTransition {
    Pressed,
    Released,
}

/// The semantic role a shortcut is bound to.
#[derive(Clone, Copy, Debug, PartialEq, Eq, Structural)]
pub enum BindingRole {
    PushToTalk,
    MuteToggle,
    DeafenToggle,
}

/// A named application event published when a bound shortcut fires.
#[derive(Clone, Copy, Debug, PartialEq, Eq, Structural)]
pub enum AppEvent {
    PttPressed,
    PttReleased,
    ToggleMute,
    ToggleDeafen,
}

/// The fixed role-to-event mapping: which event, if any, a binding of
/// the given role publishes on the given transition. Push-to-talk
/// reacts to both transitions; the two toggles react to a press only.
pub open spec fn spec_event_for(role: BindingRole, transition: KeyTransition) -> Option<AppEvent> {
    match role {
        BindingRole::PushToTalk => match transition {
            KeyTransition::Pressed => Some(AppEvent::PttPressed),
            KeyTransition::Released => Some(AppEvent::PttReleased),
        },
        BindingRole::MuteToggle => match transition {
            KeyTransition::Pressed => Some(AppEvent::ToggleMute),
            KeyTransition::Released => None,
        },
        BindingRole::DeafenToggle => match transition {
            KeyTransition::Pressed => Some(AppEvent::ToggleDeafen),
            KeyTransition::Released => None,
        },
    }
}

/// Executable form of the role-to-event mapping.
pub fn event_for(role: BindingRole, transition: KeyTransition) -> (r: Option<AppEvent>)
    ensures
        r == spec_event_for(role, transition),
{
    match role {
        BindingRole::PushToTalk => match transition {
            KeyTransition::Pressed => Some(AppEvent::PttPressed),
            KeyTransition::Released => Some(AppEvent::PttReleased),
        },
        BindingRole::MuteToggle => match transition {
            KeyTransition::Pressed => Some(AppEvent::ToggleMute),
            KeyTransition::Released => None,
        },
        BindingRole::DeafenToggle => match transition {
            KeyTransition::Pressed => Some(AppEvent::ToggleDeafen),
            KeyTransition::Released => None,
        },
    }
}

impl AppEvent {
    /// The event's wire name, as the application's listeners subscribe to it.
    pub open spec fn spec_name(self) -> Seq<char> {
        match self {
            AppEvent::PttPressed => "ptt-pressed"@,
            AppEvent::PttReleased => "ptt-released"@,
            AppEvent::ToggleMute => "toggle-mute"@,
            AppEvent::ToggleDeafen => "toggle-deafen"@,
        }
    }

    /// Returns the event's wire name.
    pub fn name(&self) -> (r: &'static str)
        ensures
            r@ == self.spec_name(),
    {
        match self {
            AppEvent::PttPressed => "ptt-pressed",
            AppEvent::PttReleased => "ptt-released",
            AppEvent::ToggleMute => "toggle-mute",
            AppEvent::ToggleDeafen => "toggle-deafen",
        }
    }
}

} // verus!
