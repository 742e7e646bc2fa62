//! Verified logic of the desktop system scripts: the install wizard's config
//! rewriting, the sidebar's media and system-information cards, and the
//! Waybar weather module.

pub mod text;
pub mod wizard;
pub mod weather;
pub mod media;
pub mod sysinfo;
