use active_window_stream::model::AppError;
use active_window_stream::window_info::hyprland_window_info::{
    decode_socket_reply, get_hypr_active_window_info, get_hyprctl_instance_signature,
    get_hyprctl_runtime_dir, get_hyprctl_socket_path, resolve_hyprctl_socket_path,
    rewrite_hex_escapes, string_to_window,
};

#[test]
fn reply_text_decodes_all_four_fields() {
    let w =
        string_to_window("class: foo\n  title: bar\n  initialClass: foo\n  initialTitle: bar\n ")
            .unwrap();
    assert_eq!(w.class, "foo");
    assert_eq!(w.title, "bar");
    assert_eq!(w.initial_class, "foo");
    assert_eq!(w.initial_title, "bar");
}

#[test]
fn reply_text_without_leading_whitespace() {
    let w = string_to_window("class: foo\ntitle: bar\ninitialClass: x\ninitialTitle: y\n\n")
        .unwrap();
    assert_eq!(w.class, "foo");
    assert_eq!(w.title, "bar");
    assert_eq!(w.initial_class, "x");
    assert_eq!(w.initial_title, "y");
}

#[test]
fn reply_text_with_preamble_lines() {
    let text = "Window 55bf1e5e1a10 -> kitty:\n\tmapped: 1\nclass: kitty\n  title: ~\n  initialClass: kitty\n  initialTitle: kitty\n  pid: 4242\n";
    let w = string_to_window(text).unwrap();
    assert_eq!(w.class, "kitty");
    assert_eq!(w.title, "~");
}

#[test]
fn reply_text_missing_label_is_parse_error() {
    assert_eq!(
        string_to_window("class: foo\n  title: bar\n  initialTitle: bar\n "),
        Err(AppError::Parse("Could not parse input.".to_string()))
    );
}

#[test]
fn reply_text_missing_trailing_whitespace_is_parse_error() {
    assert_eq!(
        string_to_window("class: foo\n  title: bar\n  initialClass: foo\n  initialTitle: bar"),
        Err(AppError::Parse("Could not parse input.".to_string()))
    );
}

#[test]
fn reply_text_empty_field_is_parse_error() {
    assert_eq!(
        string_to_window("class: \n  title: bar\n  initialClass: foo\n  initialTitle: bar\n "),
        Err(AppError::Parse("Could not parse input.".to_string()))
    );
}

#[test]
fn hex_escapes_are_rewritten() {
    assert_eq!(rewrite_hex_escapes("a\\xe9b"), "a\\u00e9b");
    assert_eq!(rewrite_hex_escapes("\\x\\x"), "\\u00\\u00");
    assert_eq!(rewrite_hex_escapes("plain"), "plain");
    assert_eq!(rewrite_hex_escapes(""), "");
    assert_eq!(rewrite_hex_escapes("end\\"), "end\\");
}

#[test]
fn hex_escape_in_field_survives_verbatim() {
    let text = "class: a\\xe9b\n  title: t\n  initialClass: a\n  initialTitle: t\n ";
    let w = string_to_window(text).unwrap();
    assert_eq!(w.class, "a\\u00e9b");
    assert_eq!(w.title, "t");
}

#[test]
fn compositor_reply_scenario() {
    let reply = b"class: foo\n  title: bar\n  initialClass: foo\n  initialTitle: bar\n ".to_vec();
    let w = get_hypr_active_window_info(reply).unwrap();
    assert_eq!(w.class, "foo");
    assert_eq!(w.title, "bar");
}

#[test]
fn invalid_utf8_reply_is_parse_error() {
    match get_hypr_active_window_info(vec![0xffu8, 0xffu8]) {
        Err(AppError::Parse(_)) => {}
        other => panic!("expected Parse error, got {:?}", other),
    }
}

#[test]
fn decode_socket_reply_decodes_utf8() {
    assert_eq!(
        decode_socket_reply(vec![0xc3u8, 0xa9u8]),
        Ok("\u{e9}".to_string())
    );
}

#[test]
fn runtime_dir_prefers_environment() {
    assert_eq!(
        get_hyprctl_runtime_dir(&Some("/run/user/1000".to_string()), 55),
        "/run/user/1000/hypr"
    );
}

#[test]
fn runtime_dir_falls_back_to_uid() {
    assert_eq!(get_hyprctl_runtime_dir(&None, 1234), "/run/user/1234/hypr");
    assert_eq!(get_hyprctl_runtime_dir(&None, 0), "/run/user/0/hypr");
    assert_eq!(
        get_hyprctl_runtime_dir(&None, u32::MAX),
        "/run/user/4294967295/hypr"
    );
}

#[test]
fn instance_signature_is_required() {
    assert_eq!(
        get_hyprctl_instance_signature(&Some("sig".to_string())),
        Ok("sig".to_string())
    );
    assert_eq!(
        get_hyprctl_instance_signature(&None),
        Err(AppError::EnvVarNotSet(
            "HYPRLAND_INSTANCE_SIGNATURE not set! (is hyprland running?)".to_string()
        ))
    );
}

#[test]
fn socket_path_is_composed() {
    assert_eq!(
        get_hyprctl_socket_path(&Some("/rt".to_string()), 9, &Some("sig".to_string())),
        Ok("/rt/hypr/sig/.socket.sock".to_string())
    );
    assert_eq!(
        get_hyprctl_socket_path(&None, 9, &Some("sig".to_string())),
        Ok("/run/user/9/hypr/sig/.socket.sock".to_string())
    );
}

#[test]
fn resolve_socket_path_uses_current_uid() {
    // With the runtime directory set, the path does not depend on the uid.
    assert_eq!(
        resolve_hyprctl_socket_path(&Some("/rt".to_string()), &Some("sig".to_string())),
        Ok("/rt/hypr/sig/.socket.sock".to_string())
    );
    match resolve_hyprctl_socket_path(&None, &None) {
        Err(AppError::EnvVarNotSet(_)) => {}
        other => panic!("expected EnvVarNotSet, got {:?}", other),
    }
    // Without the runtime directory, the fallback component is the calling
    // process's own uid.
    let uid = nix::unistd::Uid::current().as_raw();
    let expected = format!("/run/user/{}/hypr/sig/.socket.sock", uid);
    assert_eq!(
        resolve_hyprctl_socket_path(&None, &Some("sig".to_string())),
        Ok(expected)
    );
}
