use tunnelhunt::tray::{
    after_dbus_send, after_dbus_send_text, after_gdbus, after_gdbus_text, click_counts, dbus_send_arguments,
    gdbus_arguments, may_start, toggle, TrayCheck, WindowAction,
};

fn bytes(s: &str) -> Option<Vec<u8>> {
    Some(s.as_bytes().to_vec())
}

#[test]
fn gdbus_says_yes() {
    assert_eq!(after_gdbus(&bytes("(true,)\n")), TrayCheck::Supported);
    assert_eq!(after_gdbus_text(&Some("(true,)".to_string())), TrayCheck::Supported);
}

#[test]
fn gdbus_says_no() {
    assert_eq!(after_gdbus(&bytes("(false,)\n")), TrayCheck::AskDbusSend);
    assert_eq!(after_gdbus(&bytes("")), TrayCheck::AskDbusSend);
    assert_eq!(after_gdbus(&None), TrayCheck::AskDbusSendOnly);
}

#[test]
fn bytes_that_are_no_text_are_still_searched() {
    let mut output = vec![0xff, 0xfe];
    output.extend_from_slice(b"true");
    output.push(0xc3);
    assert_eq!(after_gdbus(&Some(output)), TrayCheck::Supported);
    assert_eq!(after_gdbus(&Some(vec![b't', 0xff, b'r', b'u', b'e'])), TrayCheck::AskDbusSend);
}

#[test]
fn dbus_send_settles_it() {
    let yes = bytes("method return\n   boolean true\n");
    let no = bytes("method return\n   boolean false\n");
    assert!(after_dbus_send(TrayCheck::AskDbusSend, &yes));
    assert!(!after_dbus_send(TrayCheck::AskDbusSend, &no));
    assert!(after_dbus_send(TrayCheck::AskDbusSendOnly, &yes));
    assert!(!after_dbus_send(TrayCheck::AskDbusSendOnly, &no));
    assert!(!after_dbus_send(TrayCheck::AskDbusSend, &bytes("true")));
    assert!(after_dbus_send(TrayCheck::Supported, &no));
}

#[test]
fn two_missing_programs_count_as_yes() {
    assert!(after_dbus_send(TrayCheck::AskDbusSendOnly, &None));
    assert!(!after_dbus_send(TrayCheck::AskDbusSend, &None));
    assert!(after_dbus_send_text(TrayCheck::AskDbusSendOnly, &None));
}

#[test]
fn arguments_of_the_probes() {
    assert_eq!(
        gdbus_arguments(),
        vec![
            "call", "--session", "--dest", "org.freedesktop.DBus", "--object-path", "/org/freedesktop/DBus", "--method",
            "org.freedesktop.DBus.NameHasOwner", "org.kde.StatusNotifierWatcher",
        ]
    );
    assert_eq!(
        dbus_send_arguments(),
        vec![
            "--print-reply", "--dest=org.freedesktop.DBus", "/org/freedesktop/DBus",
            "org.freedesktop.DBus.NameHasOwner", "string:org.kde.StatusNotifierWatcher",
        ]
    );
}

#[test]
fn only_a_known_lack_of_a_tray_prevents_the_start() {
    assert!(!may_start(&Ok(false)));
    assert!(may_start(&Ok(true)));
    assert!(may_start(&Err("unknown".to_string())));
}

#[test]
fn clicks_right_after_a_blur_are_ignored() {
    assert!(click_counts(true, true, None));
    assert!(!click_counts(true, true, Some(0)));
    assert!(!click_counts(true, true, Some(249)));
    assert!(click_counts(true, true, Some(250)));
    assert!(!click_counts(false, true, None));
    assert!(!click_counts(true, false, None));
}

#[test]
fn click_toggles_the_window() {
    assert_eq!(toggle(Some(true)), WindowAction::Hide);
    assert_eq!(toggle(Some(false)), WindowAction::Show);
    assert_eq!(toggle(None), WindowAction::Show);
}
