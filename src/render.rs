use vstd::prelude::*;
use crate::notification::{Notification, NotificationModel, NotificationType};

verus! {

/// Distance, in logical pixels, that a notification slides in from.
pub const SLIDE_DISTANCE: u32 = 120;

/// Duration of the entry transition, in milliseconds.
pub const SLIDE_DURATION_MS: u64 = 100;

/// Progress of an animation, in thousandths.
pub const PROGRESS_SCALE: u32 = 1000;

/// Inset of the icon from the top edge, in pixels, when a title is shown.
pub const ICON_TOP_WITH_TITLE: u32 = 12;

/// Inset of the icon from the top edge, in pixels, without a title.
pub const ICON_TOP_WITHOUT_TITLE: u32 = 10;

/// Built-in icons that stand for a severity.
#[derive(Clone, Copy, Debug, PartialEq, Eq, Structural)]
pub enum IconName {
    Info,
    CircleCheck,
    TriangleAlert,
    CircleX,
}

/// Colour role of a built-in icon.
#[derive(Clone, Copy, Debug, PartialEq, Eq, Structural)]
pub enum Tone {
    Blue,
    Green,
    Yellow,
    Red,
}

/// The icon a notification shows.
pub enum ItemIcon {
    /// An explicitly configured icon, by name.
    Custom(String),
    /// The icon of the severity, with its tone.
    Builtin(IconName, Tone),
}

/// What one notification looks like: the description handed to the
/// rendering engine.
pub struct ItemRender {
    /// Handle of the live item, to route its close and click events back.
    pub key: u64,
    /// Id of the notification, the identity of its element.
    pub id: String,
    pub icon: ItemIcon,
    pub icon_top: u32,
    pub title: Option<String>,
    pub content: String,
    /// Whether a close button is shown (on hover).
    pub closable: bool,
    /// Whether the body is a click region.
    pub clickable: bool,
}

pub open spec fn spec_default_icon(kind: NotificationType) -> (IconName, Tone) {
    match kind {
        NotificationType::Info => (IconName::Info, Tone::Blue),
        NotificationType::Success => (IconName::CircleCheck, Tone::Green),
        NotificationType::Warning => (IconName::TriangleAlert, Tone::Yellow),
        NotificationType::Error => (IconName::CircleX, Tone::Red),
    }
}

/// The icon and tone that stand for a severity.
pub fn default_icon(kind: NotificationType) -> (r: (IconName, Tone))
    ensures
        r == spec_default_icon(kind),
{
    match kind {
        NotificationType::Info => (IconName::Info, Tone::Blue),
        NotificationType::Success => (IconName::CircleCheck, Tone::Green),
        NotificationType::Warning => (IconName::TriangleAlert, Tone::Yellow),
        NotificationType::Error => (IconName::CircleX, Tone::Red),
    }
}

/// Whether `r` is the description of the notification `n` held under `key`.
pub open spec fn describes(r: ItemRender, key: u64, n: NotificationModel) -> bool {
    &&& r.key == key
    &&& r.id@ == n.id
    &&& match n.icon {
        Some(name) => r.icon matches ItemIcon::Custom(s) && s@ == name,
        None => r.icon matches ItemIcon::Builtin(i, t) && (i, t) == spec_default_icon(n.kind),
    }
    &&& r.icon_top == if n.title is Some { ICON_TOP_WITH_TITLE } else { ICON_TOP_WITHOUT_TITLE }
    &&& match n.title {
        Some(t) => r.title matches Some(s) && s@ == t,
        None => r.title is None,
    }
    &&& r.content@ == n.content
    &&& r.closable == !n.autohide
    &&& r.clickable == (n.on_click is Some)
}

/// Describes one notification: the explicit icon or that of its severity,
/// the title line if any, the body, a close button when it does not hide
/// itself, and a click region when it has a click handler.
pub fn render_item(key: u64, n: &Notification) -> (r: ItemRender)
    ensures
        describes(r, key, n@),
{
    let icon = match &n.icon {
        Some(name) => ItemIcon::Custom(name.clone()),
        None => {
            let (i, t) = default_icon(n.kind);
            ItemIcon::Builtin(i, t)
        },
    };
    let (title, icon_top) = match &n.title {
        Some(t) => (Some(t.clone()), ICON_TOP_WITH_TITLE),
        None => (None, ICON_TOP_WITHOUT_TITLE),
    };
    ItemRender {
        key,
        id: n.id.clone(),
        icon,
        icon_top,
        title,
        content: n.content.clone(),
        closable: !n.autohide,
        clickable: n.on_click.is_some(),
    }
}

pub open spec fn spec_slide_offset(progress: int) -> int {
    SLIDE_DISTANCE * (PROGRESS_SCALE - progress) / PROGRESS_SCALE as int
}

/// Horizontal offset, in pixels, of an entering notification when the
/// transition has run for `progress` thousandths of its duration: fully
/// offset at the start, at rest at the end, linear in between.
pub fn slide_offset(progress: u32) -> (r: u32)
    requires
        progress <= PROGRESS_SCALE,
    ensures
        r == spec_slide_offset(progress as int),
        r <= SLIDE_DISTANCE,
{
    assert(SLIDE_DISTANCE * (PROGRESS_SCALE - progress) <= 120_000) by (nonlinear_arith)
        requires progress <= 1000;
    assert(SLIDE_DISTANCE * (PROGRESS_SCALE - progress) / PROGRESS_SCALE as int <= SLIDE_DISTANCE)
        by (nonlinear_arith) requires progress <= 1000;
    SLIDE_DISTANCE * (PROGRESS_SCALE - progress) / PROGRESS_SCALE
}

/// The transition starts fully offset, ends at rest, and never moves
/// backwards: a later point of it is never further from rest.
pub proof fn law_slide_monotonic(p: int, q: int)
    requires
        0 <= p <= q <= PROGRESS_SCALE,
    ensures
        spec_slide_offset(0) == SLIDE_DISTANCE,
        spec_slide_offset(PROGRESS_SCALE as int) == 0,
        spec_slide_offset(q) <= spec_slide_offset(p),
{
    assert(SLIDE_DISTANCE * (PROGRESS_SCALE - q) <= SLIDE_DISTANCE * (PROGRESS_SCALE - p))
        by (nonlinear_arith) requires p <= q;
    vstd::arithmetic::div_mod::lemma_div_is_ordered(
        SLIDE_DISTANCE * (PROGRESS_SCALE - q),
        SLIDE_DISTANCE * (PROGRESS_SCALE - p),
        PROGRESS_SCALE as int,
    );
}

} // verus!
