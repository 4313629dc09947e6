//! Opens links in the most recently used browser.
//!
//! The program stands in for a browser: it watches which browser has the focus, remembers it,
//! and hands the links that it is asked to open to that browser. This library holds what it
//! decides and computes, for Linux ([`linux`]) and for Windows ([`windows`] and its companions).
//! Files, the registry, windows and processes belong to the program around it.
pub mod desktop;
pub mod desktop_laws;
pub mod encoding;
pub mod linux;
pub mod linux_laws;
pub mod linux_rules;
pub mod menu;
pub mod messages;
pub mod numbers;
pub mod paths;
pub mod text;
pub mod text_laws;
pub mod windows;
pub mod windows_history;
pub mod windows_laws;
pub mod windows_messages;
pub mod windows_open;
pub mod windows_registration;
pub mod windows_rules;
