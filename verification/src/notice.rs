//! What the user is told, outside the state of a tunnel.
use vstd::prelude::*;

use crate::text::join;

verus! {

/// A desktop notification.
#[derive(Debug)]
pub struct Notification {
    pub title: String,
    pub body: String,
}

/// The mathematical value of a [`Notification`].
pub struct NotificationView {
    pub title: Seq<char>,
    pub body: Seq<char>,
}

impl View for Notification {
    type V = NotificationView;

    open spec fn view(&self) -> NotificationView {
        NotificationView { title: self.title@, body: self.body@ }
    }
}

/// A notification about what is called `name`.
pub open spec fn notification_about(name: Seq<char>, body: Seq<char>) -> NotificationView {
    NotificationView { title: "Tunnelhunt: "@ + name, body }
}

/// A notification about what is called `name`.
pub fn notification(name: &str, body: &str) -> (r: Notification)
    ensures
        r@ == notification_about(name@, body@),
{
    Notification { title: join("Tunnelhunt: ", name), body: body.to_string() }
}

/// Greets someone by name.
pub fn greet(name: &str) -> (r: String)
    ensures
        r@ == "Hello, "@ + name@ + "! You've been greeted from Rust!"@,
{
    join("Hello, ", name).concat("! You've been greeted from Rust!")
}

/// What the user is told when an address cannot be opened, with the system's own words.
pub fn open_url_error(why: &str) -> (r: String)
    ensures
        r@ == "Ошибка открытия ссылки: "@ + why@,
{
    join("Ошибка открытия ссылки: ", why)
}

/// A notification names the program and what it is about, and says what it was given to say.
pub proof fn lemma_notification(name: Seq<char>, body: Seq<char>, shown: Notification)
    ensures
        notification_about(name, body).title == "Tunnelhunt: "@ + name,
        notification_about(name, body).body == body,
        shown@.title == shown.title@,
        shown@.body == shown.body@,
{
}

} // verus!
