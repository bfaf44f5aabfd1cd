use platform_core::auto_launch::{
    desktop_entry_content, desktop_file_path, is_autostart_content_enabled, validate_app_id,
    AutoLaunchError,
};
use platform_core::power::parse_dbus_uint32;

#[test]
fn dbus_reply_with_uint32_line() {
    let reply = b"method return time=1.0 sender=:1.5\n   uint32 42\n";
    assert_eq!(parse_dbus_uint32(reply), Some(42));
}

#[test]
fn dbus_reply_without_uint32_line() {
    assert_eq!(parse_dbus_uint32(b"method return\n  boolean true\n"), None);
    assert_eq!(parse_dbus_uint32(b""), None);
}

#[test]
fn dbus_uint32_line_with_surrounding_spaces() {
    assert_eq!(parse_dbus_uint32(b"\t uint32   7  \n"), Some(7));
}

#[test]
fn dbus_first_uint32_line_decides() {
    // the first line carrying the word is taken, malformed or not
    assert_eq!(parse_dbus_uint32(b"uint32 oops\nuint32 5\n"), None);
    assert_eq!(parse_dbus_uint32(b"uint32 5\nuint32 9\n"), Some(5));
}

#[test]
fn dbus_uint32_value_must_fit() {
    assert_eq!(parse_dbus_uint32(b"uint32 4294967295\n"), Some(4294967295));
    assert_eq!(parse_dbus_uint32(b"uint32 4294967296\n"), None);
    assert_eq!(parse_dbus_uint32(b"uint32 99999999999999\n"), None);
}

#[test]
fn dbus_reply_must_be_utf8() {
    // a reply that is not valid UTF-8 yields nothing, wherever the bad
    // bytes sit
    assert_eq!(parse_dbus_uint32(b"uint32 5\n\xff\xfe"), None);
    assert_eq!(parse_dbus_uint32(b"\xc3\nuint32 5\n"), None);
    // valid non-ASCII text elsewhere in the reply does not get in the way
    assert_eq!(parse_dbus_uint32("\u{e9}\nuint32 42\n".as_bytes()), Some(42));
}

#[test]
fn dbus_uint32_needs_digits() {
    assert_eq!(parse_dbus_uint32(b"uint32\n"), None);
    assert_eq!(parse_dbus_uint32(b"uint32 12a\n"), None);
}

#[test]
fn app_id_with_separator_or_parent_run_is_refused() {
    assert_eq!(validate_app_id("my-app"), Ok(()));
    assert_eq!(validate_app_id("dir/app"), Err(AutoLaunchError::InvalidAppId));
    assert_eq!(validate_app_id("app.."), Err(AutoLaunchError::InvalidAppId));
    assert_eq!(validate_app_id("..app"), Err(AutoLaunchError::InvalidAppId));
    assert_eq!(validate_app_id("my.app"), Ok(()));
}

#[test]
fn desktop_file_path_is_under_autostart() {
    assert_eq!(
        desktop_file_path("/home/me/.config", "myapp"),
        "/home/me/.config/autostart/myapp.desktop"
    );
}

#[test]
fn desktop_entry_contents() {
    let content = desktop_entry_content("myapp", "/usr/bin/myapp");
    assert_eq!(
        content,
        "[Desktop Entry]\nType=Application\nName=myapp\nExec=\"/usr/bin/myapp\"\nX-GNOME-Autostart-enabled=true\n"
    );
}

#[test]
fn written_entry_reads_back_enabled() {
    let content = desktop_entry_content("myapp", "/usr/bin/myapp");
    assert!(is_autostart_content_enabled(&content));
}

#[test]
fn autostart_marker_decides_enabled() {
    assert!(is_autostart_content_enabled("[Desktop Entry]\nX-GNOME-Autostart-enabled=true\n"));
    assert!(is_autostart_content_enabled("[Desktop Entry]\n"));
    assert!(!is_autostart_content_enabled("[Desktop Entry]\nX-GNOME-Autostart-enabled=false\n"));
}
