//! A manager for transient notifications ("toasts"): a list of live,
//! dismissible items with identity-based replacement, a bounded render
//! window, autohide timers armed once per item, and click handling.
//!
//! The list is a state machine: the owner feeds it pushes, renders, timer
//! expiries, close and click events, and performs what comes back (drawing
//! the descriptions, starting timers, running click callbacks).

pub mod notification;
pub mod render;
pub mod list;
pub mod laws;

pub use notification::{Notification, NotificationModel, NotificationType};
pub use render::{IconName, ItemIcon, ItemRender, Tone, default_icon, render_item, slide_offset};
pub use list::{ListRender, NotificationList, AUTOHIDE_DELAY_MS, WINDOW};
