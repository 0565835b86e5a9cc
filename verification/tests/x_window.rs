use active_window_stream::model::{ActiveWindow, XError};
use active_window_stream::stream::x_window_or_none;
use active_window_stream::window_info::x_window_info::{
    find_active_window, get_x_active_window_info, parse_string_property, parse_wm_class,
    FocusLookup, PropertyReply,
};

#[test]
fn wm_class_with_trailing_nul() {
    let value = b"xterm\0XTerm\0".to_vec();
    assert_eq!(parse_wm_class(8, &value), Ok("XTerm".to_string()));
}

#[test]
fn wm_class_without_trailing_nul() {
    let value = b"xterm\0XTerm".to_vec();
    assert_eq!(parse_wm_class(8, &value), Ok("XTerm".to_string()));
}

#[test]
fn wm_class_without_nul_is_malformed() {
    let value = b"xtermXTerm".to_vec();
    assert_eq!(parse_wm_class(8, &value), Err(XError::MalformedWMClass));
}

#[test]
fn wm_class_empty_value_is_malformed() {
    let value: Vec<u8> = Vec::new();
    assert_eq!(parse_wm_class(8, &value), Err(XError::MalformedWMClass));
}

#[test]
fn wm_class_wrong_format() {
    let value = b"xterm\0XTerm\0".to_vec();
    assert_eq!(
        parse_wm_class(32, &value),
        Err(XError::InvalidFormat(
            "WM_CLASS property must be 8-bit format".to_string()
        ))
    );
}

#[test]
fn wm_class_invalid_utf8() {
    let value = vec![b'a', 0u8, 0xffu8, 0xfeu8];
    match parse_wm_class(8, &value) {
        Err(XError::InvalidUtf8(_)) => {}
        other => panic!("expected InvalidUtf8, got {:?}", other),
    }
}

#[test]
fn wm_class_decodes_multibyte_utf8() {
    // 0xC3 0xA9 is the two-byte encoding of 'é': a byte-identity decode
    // would not produce this string.
    let value = vec![b'a', 0u8, 0xc3u8, 0xa9u8, 0u8];
    assert_eq!(parse_wm_class(8, &value), Ok("\u{e9}".to_string()));
}

#[test]
fn string_property_decodes_utf8() {
    assert_eq!(
        parse_string_property(b"bash".to_vec()),
        Ok("bash".to_string())
    );
    assert_eq!(
        parse_string_property(vec![0xc3u8, 0xa9u8]),
        Ok("\u{e9}".to_string())
    );
}

#[test]
fn string_property_rejects_bad_utf8() {
    match parse_string_property(vec![0xffu8]) {
        Err(XError::InvalidUtf8(_)) => {}
        other => panic!("expected InvalidUtf8, got {:?}", other),
    }
}

#[test]
fn active_window_property_names_window() {
    let prop = PropertyReply {
        format: 32,
        length: 1,
        value: vec![0x2a, 0x00, 0x01, 0x00],
    };
    assert_eq!(
        find_active_window(&prop),
        Ok(FocusLookup::Window(0x1002a))
    );
}

#[test]
fn absent_property_falls_back_to_input_focus() {
    let prop = PropertyReply {
        format: 0,
        length: 0,
        value: Vec::new(),
    };
    assert_eq!(find_active_window(&prop), Ok(FocusLookup::QueryInputFocus));
}

#[test]
fn empty_32bit_property_is_no_active_window() {
    let prop = PropertyReply {
        format: 32,
        length: 1,
        value: Vec::new(),
    };
    assert_eq!(find_active_window(&prop), Err(XError::NoActiveWindow));
}

#[test]
fn x_active_window_info_assembles_fields() {
    let name = PropertyReply {
        format: 8,
        length: 4,
        value: b"bash".to_vec(),
    };
    let class = PropertyReply {
        format: 8,
        length: 12,
        value: b"xterm\0XTerm\0".to_vec(),
    };
    let info = get_x_active_window_info(name, &class).unwrap();
    assert_eq!(info.class, "XTerm");
    assert_eq!(info.title, "bash");
}

#[test]
fn x_class_error_takes_precedence() {
    let name = PropertyReply {
        format: 8,
        length: 1,
        value: vec![0xffu8],
    };
    let class = PropertyReply {
        format: 8,
        length: 2,
        value: b"ab".to_vec(),
    };
    assert_eq!(
        get_x_active_window_info(name, &class),
        Err(XError::MalformedWMClass)
    );
}

#[test]
fn x11_session_absent_property_scenario() {
    // Session type "x11"; the active-window property is absent, so the
    // lookup falls back to the input focus, which names window 7; that
    // window's class is `xterm\0XTerm\0` and its name is `bash`.
    let absent = PropertyReply {
        format: 0,
        length: 0,
        value: Vec::new(),
    };
    assert_eq!(find_active_window(&absent), Ok(FocusLookup::QueryInputFocus));
    let focus: u32 = 7;
    assert_eq!(focus, 7);
    let name = PropertyReply {
        format: 8,
        length: 4,
        value: b"bash".to_vec(),
    };
    let class = PropertyReply {
        format: 8,
        length: 12,
        value: b"xterm\0XTerm\0".to_vec(),
    };
    let emitted = x_window_or_none(get_x_active_window_info(name, &class));
    assert_eq!(
        emitted,
        ActiveWindow {
            class: "XTerm".to_string(),
            title: "bash".to_string(),
        }
    );
}
