//! Global-shortcut binding manager.
//!
//! A binding associates a parsed key combination with a semantic role
//! (push-to-talk, mute toggle, deafen toggle). On each press/release
//! transition of a bound combination the manager names the application
//! event to publish; the surrounding program performs the actual
//! registration with the operating system and the event emission.

pub mod errors;
pub mod events;
pub mod manager;
pub mod parse;

pub use errors::ShortcutError;
pub use events::AppEvent;
pub use events::BindingRole;
pub use events::KeyTransition;
pub use events::event_for;
pub use events::spec_event_for;
pub use manager::BindingManager;
pub use manager::spec_bind_outcome;
pub use manager::spec_dispatch;
pub use manager::spec_unbind_outcome;
pub use parse::ParsedShortcut;
pub use parse::parse_shortcut;
pub use parse::spec_parse_shortcut;
