//! The system tray: whether there is one, its icon, and what a click on it does.
use vstd::prelude::*;

use crate::text;

verus! {

/// The text that `String::from_utf8_lossy` makes of bytes.
pub uninterp spec fn lossy_text(bytes: Seq<u8>) -> Seq<char>;

/// Calls `String::from_utf8_lossy`. Claimed of it: the text depends on the bytes alone, and bytes
/// that are UTF-8 are decoded as such. What stands for bytes that are not is left open.
#[verifier::external_body]
fn decode_lossy(bytes: &[u8]) -> (r: String)
    ensures
        r@ == lossy_text(bytes@),
        vstd::utf8::valid_utf8(bytes@) ==> r@ == vstd::utf8::decode_utf8(bytes@),
{
    String::from_utf8_lossy(bytes).into_owned()
}

/// The program that is asked first whether a tray is there.
pub const GDBUS_PROGRAM: &'static str = "gdbus";

/// The program that is asked next.
pub const DBUS_SEND_PROGRAM: &'static str = "dbus-send";

/// The answer of `gdbus` that means yes holds this.
pub const GDBUS_YES: &'static str = "true";

/// The answer of `dbus-send` that means yes holds this.
pub const DBUS_SEND_YES: &'static str = "boolean true";

/// The arguments that ask `gdbus` whether a tray is there.
pub fn gdbus_arguments() -> (r: Vec<String>)
    ensures
        text::texts(r@) == seq![
            "call"@,
            "--session"@,
            "--dest"@,
            "org.freedesktop.DBus"@,
            "--object-path"@,
            "/org/freedesktop/DBus"@,
            "--method"@,
            "org.freedesktop.DBus.NameHasOwner"@,
            "org.kde.StatusNotifierWatcher"@,
        ],
{
    let mut r: Vec<String> = Vec::new();
    r.push("call".to_string());
    r.push("--session".to_string());
    r.push("--dest".to_string());
    r.push("org.freedesktop.DBus".to_string());
    r.push("--object-path".to_string());
    r.push("/org/freedesktop/DBus".to_string());
    r.push("--method".to_string());
    r.push("org.freedesktop.DBus.NameHasOwner".to_string());
    r.push("org.kde.StatusNotifierWatcher".to_string());
    assert(text::texts(r@) =~= seq![
        "call"@,
        "--session"@,
        "--dest"@,
        "org.freedesktop.DBus"@,
        "--object-path"@,
        "/org/freedesktop/DBus"@,
        "--method"@,
        "org.freedesktop.DBus.NameHasOwner"@,
        "org.kde.StatusNotifierWatcher"@,
    ]);
    r
}

/// The arguments that ask `dbus-send` whether a tray is there.
pub fn dbus_send_arguments() -> (r: Vec<String>)
    ensures
        text::texts(r@) == seq![
            "--print-reply"@,
            "--dest=org.freedesktop.DBus"@,
            "/org/freedesktop/DBus"@,
            "org.freedesktop.DBus.NameHasOwner"@,
            "string:org.kde.StatusNotifierWatcher"@,
        ],
{
    let mut r: Vec<String> = Vec::new();
    r.push("--print-reply".to_string());
    r.push("--dest=org.freedesktop.DBus".to_string());
    r.push("/org/freedesktop/DBus".to_string());
    r.push("org.freedesktop.DBus.NameHasOwner".to_string());
    r.push("string:org.kde.StatusNotifierWatcher".to_string());
    assert(text::texts(r@) =~= seq![
        "--print-reply"@,
        "--dest=org.freedesktop.DBus"@,
        "/org/freedesktop/DBus"@,
        "org.freedesktop.DBus.NameHasOwner"@,
        "string:org.kde.StatusNotifierWatcher"@,
    ]);
    r
}

/// The answer of a program: what it printed, read as UTF-8 as far as it is that, or nothing where
/// it could not be run.
pub open spec fn answer_of(output: Option<Vec<u8>>) -> Option<Seq<char>> {
    match output {
        Some(bytes) => Some(
            if vstd::utf8::valid_utf8(bytes@) {
                vstd::utf8::decode_utf8(bytes@)
            } else {
                lossy_text(bytes@)
            },
        ),
        None => None,
    }
}

/// An answer holds the words that mean yes.
pub open spec fn says(answer: Option<Seq<char>>, yes: Seq<char>) -> bool {
    answer matches Some(text) && text::occurs_in(text, yes)
}

/// A tray is there as far as the two programs can tell: one of them says so, or neither could be
/// asked.
pub open spec fn supported(gdbus: Option<Seq<char>>, dbus_send: Option<Seq<char>>) -> bool {
    ||| says(gdbus, GDBUS_YES@)
    ||| says(dbus_send, DBUS_SEND_YES@)
    ||| gdbus is None && dbus_send is None
}

/// Where the question stands when `gdbus` was asked.
#[derive(Debug, Clone, Copy, PartialEq, Eq, Structural)]
pub enum TrayCheck {
    /// A tray is there.
    Supported,
    /// `dbus-send` is to be asked; `gdbus` did not say yes.
    AskDbusSend,
    /// `dbus-send` is to be asked; `gdbus` could not be run.
    AskDbusSendOnly,
}

/// Where the question stands after an answer of `gdbus`.
pub open spec fn check_after_gdbus(gdbus: Option<Seq<char>>) -> TrayCheck {
    if says(gdbus, GDBUS_YES@) {
        TrayCheck::Supported
    } else if gdbus is Some {
        TrayCheck::AskDbusSend
    } else {
        TrayCheck::AskDbusSendOnly
    }
}

/// How the question is settled after an answer of `dbus-send`, where it is asked at all.
pub open spec fn check_after_dbus_send(check: TrayCheck, dbus_send: Option<Seq<char>>) -> bool {
    match check {
        TrayCheck::Supported => true,
        TrayCheck::AskDbusSend => says(dbus_send, DBUS_SEND_YES@),
        TrayCheck::AskDbusSendOnly => says(dbus_send, DBUS_SEND_YES@) || dbus_send is None,
    }
}

/// Asking one program after the other, and the second only where it is needed, settles the
/// question as both answers together do.
pub proof fn lemma_check_in_turn(gdbus: Option<Seq<char>>, dbus_send: Option<Seq<char>>)
    ensures
        check_after_dbus_send(check_after_gdbus(gdbus), dbus_send) == supported(gdbus, dbus_send),
{
}

fn answer(output: &Option<Vec<u8>>) -> (r: Option<String>)
    ensures
        text::opt_text(r) == answer_of(*output),
{
    match output {
        Some(bytes) => Some(decode_lossy(bytes.as_slice())),
        None => None,
    }
}

fn holds(answer: &Option<String>, yes: &str) -> (r: bool)
    ensures
        r == says(text::opt_text(*answer), yes@),
{
    match answer {
        Some(text) => text::contains(text, yes),
        None => false,
    }
}

/// Takes in the text that `gdbus` answered with.
pub fn after_gdbus_text(gdbus: &Option<String>) -> (r: TrayCheck)
    ensures
        r == check_after_gdbus(text::opt_text(*gdbus)),
{
    if holds(gdbus, GDBUS_YES) {
        TrayCheck::Supported
    } else if gdbus.is_some() {
        TrayCheck::AskDbusSend
    } else {
        TrayCheck::AskDbusSendOnly
    }
}

/// Takes in the text that `dbus-send` answered with.
pub fn after_dbus_send_text(check: TrayCheck, dbus_send: &Option<String>) -> (r: bool)
    ensures
        r == check_after_dbus_send(check, text::opt_text(*dbus_send)),
{
    match check {
        TrayCheck::Supported => true,
        TrayCheck::AskDbusSend => holds(dbus_send, DBUS_SEND_YES),
        TrayCheck::AskDbusSendOnly => holds(dbus_send, DBUS_SEND_YES) || dbus_send.is_none(),
    }
}

/// Takes in what `gdbus` printed, or that it could not be run.
pub fn after_gdbus(output: &Option<Vec<u8>>) -> (r: TrayCheck)
    ensures
        r == check_after_gdbus(answer_of(*output)),
{
    after_gdbus_text(&answer(output))
}

/// Takes in what `dbus-send` printed, or that it could not be run.
pub fn after_dbus_send(check: TrayCheck, output: &Option<Vec<u8>>) -> (r: bool)
    ensures
        r == check_after_dbus_send(check, answer_of(*output)),
{
    after_dbus_send_text(check, &answer(output))
}

/// Tells whether the program may start: not where it is known that there is no tray.
pub fn may_start(tray_support: &Result<bool, String>) -> (r: bool)
    ensures
        r == !(*tray_support matches Ok(there) && !there),
{
    match tray_support {
        Ok(there) => *there,
        Err(_) => true,
    }
}

/// The icon in the tray.
#[derive(Debug, Clone, Copy, PartialEq, Eq, Structural)]
pub enum TrayIcon {
    /// Some tunnel is open.
    Active,
    /// No tunnel is open.
    Idle,
}

/// A click on the tray icon does nothing for so many milliseconds after the window lost focus,
/// for the same click has then just hidden the window.
pub const COOLDOWN_MILLIS: u128 = 250;

/// Tells whether a click on the tray icon counts: the left button is let go, and the window has
/// not lost focus just before. `since_blur` is the time in milliseconds since it did, if ever.
pub fn click_counts(left_button: bool, released: bool, since_blur: Option<u128>) -> (r: bool)
    ensures
        r == (left_button && released && !(since_blur matches Some(millis) && millis
            < 250)),
{
    let cooldown = match since_blur {
        Some(millis) => millis < COOLDOWN_MILLIS,
        None => false,
    };
    left_button && released && !cooldown
}

/// What a click that counts does to the window.
#[derive(Debug, Clone, Copy, PartialEq, Eq, Structural)]
pub enum WindowAction {
    Hide,
    /// Place the window below the tray icon, show it and give it the focus.
    Show,
}

/// What a click that counts does: a window that is known to be visible is hidden, any other is
/// shown.
pub fn toggle(visible: Option<bool>) -> (r: WindowAction)
    ensures
        r == WindowAction::Hide <==> visible == Some(true),
        r == WindowAction::Show <==> visible != Some(true),
{
    match visible {
        Some(true) => WindowAction::Hide,
        _ => WindowAction::Show,
    }
}

/// Whatever stands around it, `true` in the answer of `gdbus` means that a tray is there.
pub proof fn lemma_gdbus_says_yes(before: Seq<char>, after: Seq<char>)
    ensures
        check_after_gdbus(Some(before + "true"@ + after)) == TrayCheck::Supported,
{
    text::lemma_joined_text_holds(before, "true"@, after);
}

/// An answer of `gdbus` in which `true` stands nowhere, or none at all, leaves the question to
/// `dbus-send`.
pub proof fn lemma_gdbus_does_not_say_yes(answer: Seq<char>)
    requires
        forall|i: int|
            0 <= i <= answer.len() - 4 ==> #[trigger] answer.subrange(i, i + 4) != "true"@,
    ensures
        check_after_gdbus(Some(answer)) == TrayCheck::AskDbusSend,
        check_after_gdbus(None) == TrayCheck::AskDbusSendOnly,
{
    reveal_strlit("true");
    if text::occurs_in(answer, "true"@) {
        let i = choose|i: int| text::occurs_at(answer, "true"@, i);
        assert(answer.subrange(i, i + 4) == "true"@);
    }
}

/// Whatever stands around it, `boolean true` in the answer of `dbus-send` means that a tray is
/// there.
pub proof fn lemma_dbus_send_says_yes(check: TrayCheck, before: Seq<char>, after: Seq<char>)
    ensures
        check_after_dbus_send(check, Some(before + "boolean true"@ + after)),
{
    text::lemma_joined_text_holds(before, "boolean true"@, after);
}

/// An answer of `dbus-send` in which `boolean true` stands nowhere means that no tray is there,
/// unless `gdbus` said otherwise; no answer means so just where `gdbus` could be asked.
pub proof fn lemma_dbus_send_does_not_say_yes(check: TrayCheck, answer: Seq<char>)
    requires
        forall|i: int|
            0 <= i <= answer.len() - 12 ==> #[trigger] answer.subrange(i, i + 12)
                != "boolean true"@,
    ensures
        check_after_dbus_send(check, Some(answer)) <==> check == TrayCheck::Supported,
        check_after_dbus_send(check, None) <==> check != TrayCheck::AskDbusSend,
{
    reveal_strlit("boolean true");
    if text::occurs_in(answer, "boolean true"@) {
        let i = choose|i: int| text::occurs_at(answer, "boolean true"@, i);
        assert(answer.subrange(i, i + 12) == "boolean true"@);
    }
}

/// A program that prints a text in UTF-8 has answered with that text; one that could not be run
/// has not answered.
pub proof fn lemma_answer_is_what_was_printed(printed: Seq<char>, output: Vec<u8>)
    requires
        output@ == vstd::utf8::encode_utf8(printed),
    ensures
        answer_of(Some(output)) == Some(printed),
        answer_of(None) is None,
{
    vstd::utf8::encode_utf8_valid_utf8(printed);
    vstd::utf8::encode_utf8_decode_utf8(printed);
}

/// A program that prints what is not UTF-8 has answered all the same, with what the lossy reading
/// makes of it.
pub proof fn lemma_unreadable_answer_counts(output: Vec<u8>)
    requires
        !vstd::utf8::valid_utf8(output@),
    ensures
        answer_of(Some(output)) == Some(lossy_text(output@)),
{
}

/// The programs go by the names that the system knows them under.
pub proof fn lemma_tray_names()
    ensures
        GDBUS_PROGRAM@ == "gdbus"@,
        DBUS_SEND_PROGRAM@ == "dbus-send"@,
{
}

} // verus!
