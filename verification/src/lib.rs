//! Verified core logic of a KDE Connect client: packet types, contact cards,
//! phone-number matching and the state machines behind the panel applet and
//! the settings window.

pub mod text;
pub mod clock;
pub mod json;
pub mod strmap;
pub mod sms_utils;
pub mod contacts;
pub mod protocol;
pub mod notification;
pub mod hidden_conversations;
pub mod device;
pub mod settings;
pub mod settings_panel;
pub mod applet;
pub mod popup;
pub mod sms_views;
