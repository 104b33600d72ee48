//! Verified core of a clipboard-history manager: clippings with previews and
//! compressed payloads, the history kept by the background daemon, the menu
//! it shows, the sealed history file and the preference fields.

pub mod clipping;
pub mod compression;
pub mod config;
pub mod crypto;
pub mod history;
pub mod json;
pub mod menu;
pub mod prefs;
pub mod storage;
pub mod text;
