use vstd::prelude::*;

verus! {

/// Severity class of a notification; it picks the default icon and its tone.
#[derive(Clone, Copy, Debug, PartialEq, Eq, Structural)]
pub enum NotificationType {
    Info,
    Success,
    Warning,
    Error,
}

/// Mathematical model of a [`Notification`]: every field as a plain value.
pub struct NotificationModel {
    pub id: Seq<char>,
    pub kind: NotificationType,
    pub title: Option<Seq<char>>,
    pub content: Seq<char>,
    pub icon: Option<Seq<char>>,
    pub autohide: bool,
    pub on_click: Option<u64>,
}

/// The model of an optional text.
pub open spec fn opt_text(o: Option<String>) -> Option<Seq<char>> {
    match o {
        Some(s) => Some(s@),
        None => None,
    }
}

/// One transient message.
///
/// A plain configuration value: the fields may be set directly or through
/// the fluent builder methods. `on_click` holds a handler token; the owner of
/// the list keeps the callback under that token and runs it when a click on
/// the notification hands the token back.
pub struct Notification {
    /// Identity within a list: pushing a notification whose id is already
    /// present replaces the earlier one.
    pub id: String,
    pub kind: NotificationType,
    pub title: Option<String>,
    pub content: String,
    /// Name of an explicit icon; without one the icon follows `kind`.
    pub icon: Option<String>,
    pub autohide: bool,
    pub on_click: Option<u64>,
}

impl View for Notification {
    type V = NotificationModel;

    open spec fn view(&self) -> NotificationModel {
        NotificationModel {
            id: self.id@,
            kind: self.kind,
            title: opt_text(self.title),
            content: self.content@,
            icon: opt_text(self.icon),
            autohide: self.autohide,
            on_click: self.on_click,
        }
    }
}

/// Relies on uuid's `Uuid::new_v4` and its `Display`, which writes the
/// hyphenated form of 36 characters (`fmt::Hyphenated::LENGTH`).
#[verifier::external_body]
fn fresh_id() -> (r: String)
    ensures
        r@.len() == 36,
{
    uuid::Uuid::new_v4().to_string()
}

impl Notification {
    /// A notification with the given content, of type `Info`, hidden
    /// automatically, without title, icon or click handler, and with a fresh
    /// random id.
    pub fn new(content: String) -> (r: Notification)
        ensures
            r@.id.len() == 36,
            r@.kind == NotificationType::Info,
            r@.title == None::<Seq<char>>,
            r@.content == content@,
            r@.icon == None::<Seq<char>>,
            r@.autohide,
            r@.on_click == None::<u64>,
    {
        let id = fresh_id();
        Notification {
            id,
            kind: NotificationType::Info,
            title: None,
            content,
            icon: None,
            autohide: true,
            on_click: None,
        }
    }

    /// Replaces the id, so that a later push with the same id replaces this one.
    pub fn with_id(self, id: String) -> (r: Notification)
        ensures
            r@ == (NotificationModel { id: id@, ..self@ }),
    {
        Notification { id, ..self }
    }

    /// Sets the title line.
    pub fn title(self, title: String) -> (r: Notification)
        ensures
            r@ == (NotificationModel { title: Some(title@), ..self@ }),
    {
        Notification { title: Some(title), ..self }
    }

    /// Sets an explicit icon, shown in place of the one of the type.
    pub fn icon(self, icon: String) -> (r: Notification)
        ensures
            r@ == (NotificationModel { icon: Some(icon@), ..self@ }),
    {
        Notification { icon: Some(icon), ..self }
    }

    pub fn with_type(self, kind: NotificationType) -> (r: Notification)
        ensures
            r@ == (NotificationModel { kind, ..self@ }),
    {
        Notification { kind, ..self }
    }

    pub fn info(self) -> (r: Notification)
        ensures
            r@ == (NotificationModel { kind: NotificationType::Info, ..self@ }),
    {
        self.with_type(NotificationType::Info)
    }

    pub fn success(self) -> (r: Notification)
        ensures
            r@ == (NotificationModel { kind: NotificationType::Success, ..self@ }),
    {
        self.with_type(NotificationType::Success)
    }

    pub fn warning(self) -> (r: Notification)
        ensures
            r@ == (NotificationModel { kind: NotificationType::Warning, ..self@ }),
    {
        self.with_type(NotificationType::Warning)
    }

    pub fn error(self) -> (r: Notification)
        ensures
            r@ == (NotificationModel { kind: NotificationType::Error, ..self@ }),
    {
        self.with_type(NotificationType::Error)
    }

    /// Sets whether the notification hides itself after the autohide delay.
    pub fn autohide(self, autohide: bool) -> (r: Notification)
        ensures
            r@ == (NotificationModel { autohide, ..self@ }),
    {
        Notification { autohide, ..self }
    }

    /// Makes the notification clickable: a click dismisses it and hands
    /// `handler` back to the owner, which runs the callback kept under it.
    pub fn on_click(self, handler: u64) -> (r: Notification)
        ensures
            r@ == (NotificationModel { on_click: Some(handler), ..self@ }),
    {
        Notification { on_click: Some(handler), ..self }
    }
}

} // verus!
