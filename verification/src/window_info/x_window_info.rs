//! Decoding of X11 property replies: the focused-window lookup decision,
//! WM_CLASS parsing, and UTF-8 title decoding.
//!
//! The protocol round trips themselves are performed by the caller, which
//! hands the raw reply data in as [`PropertyReply`] values.

use vstd::prelude::*;
use vstd::string::StringExecFns;
use vstd::utf8::decode_utf8;
use vstd::utf8::valid_utf8;

use crate::model::ActiveWindow;
use crate::model::XError;
use crate::text::utf8_decode_vec;

verus! {

/// The data of one get-property round trip: the reply's format, its number
/// of items, and its raw value bytes.
#[derive(Debug, Clone, PartialEq, Eq)]
pub struct PropertyReply {
    pub format: u8,
    pub length: u32,
    pub value: Vec<u8>,
}

/// The index of the first zero byte at or after `i`, or the length if none.
pub open spec fn scan_nul(bytes: Seq<u8>, i: int) -> int
    decreases bytes.len() - i,
{
    if i < 0 || i >= bytes.len() {
        bytes.len() as int
    } else if bytes[i] == 0 {
        i
    } else {
        scan_nul(bytes, i + 1)
    }
}

/// Holds exactly when the bytes contain a zero byte.
pub open spec fn has_nul(bytes: Seq<u8>) -> bool {
    scan_nul(bytes, 0) < bytes.len()
}

/// The class segment of a WM_CLASS value: everything after the first zero
/// byte, with one trailing zero byte stripped if present.
pub open spec fn wm_class_bytes(bytes: Seq<u8>) -> Seq<u8> {
    let rest = bytes.subrange(scan_nul(bytes, 0) + 1, bytes.len() as int);
    if rest.len() > 0 && rest.last() == 0 {
        rest.drop_last()
    } else {
        rest
    }
}

/// A WM_CLASS value parses exactly when it is 8-bit, contains a separating
/// zero byte, and its class segment is valid UTF-8.
pub open spec fn wm_class_ok(format: u8, bytes: Seq<u8>) -> bool {
    format == 8 && has_nul(bytes) && valid_utf8(wm_class_bytes(bytes))
}

/// Extracts the class name from a WM_CLASS property value.
///
/// The value holds two null-terminated strings, instance then class; the
/// class is the segment after the first zero byte, with a single trailing
/// zero byte stripped before UTF-8 decoding.
pub fn parse_wm_class(format: u8, value: &Vec<u8>) -> (r: Result<String, XError>)
    ensures
        format != 8 ==> (r matches Err(e) && e matches XError::InvalidFormat(m) && m@
            == "WM_CLASS property must be 8-bit format"@),
        format == 8 && !has_nul(value@) ==> r == Err::<String, XError>(XError::MalformedWMClass),
        format == 8 && has_nul(value@) && valid_utf8(wm_class_bytes(value@)) ==> (r matches Ok(s)
            && s@ == decode_utf8(wm_class_bytes(value@))),
        format == 8 && has_nul(value@) && !valid_utf8(wm_class_bytes(value@)) ==> (r matches Err(e)
            && e matches XError::InvalidUtf8(_)),
{
    if format != 8 {
        return Err(XError::InvalidFormat(String::from_str("WM_CLASS property must be 8-bit format")));
    }
    let n: usize = value.len();
    let mut middle: usize = 0;
    while middle < n && value[middle] != 0
        invariant
            0 <= middle <= n,
            n == value@.len(),
            scan_nul(value@, 0) == scan_nul(value@, middle as int),
        decreases n - middle,
    {
        middle = middle + 1;
    }
    if middle == n {
        proof {
            assert(!has_nul(value@));
        }
        return Err(XError::MalformedWMClass);
    }
    proof {
        assert(scan_nul(value@, 0) == middle as int);
    }
    let mut class: Vec<u8> = Vec::new();
    let mut i: usize = middle + 1;
    while i < n
        invariant
            middle + 1 <= i <= n,
            n == value@.len(),
            class@ == value@.subrange(middle + 1, i as int),
        decreases n - i,
    {
        class.push(value[i]);
        i = i + 1;
    }
    proof {
        assert(class@ =~= value@.subrange(middle + 1, n as int));
    }
    if class.len() > 0 && class[class.len() - 1] == 0 {
        let _popped: Option<u8> = class.pop();
    }
    proof {
        assert(class@ =~= wm_class_bytes(value@));
    }
    match utf8_decode_vec(class) {
        Ok(s) => Ok(s),
        Err(m) => Err(XError::InvalidUtf8(m)),
    }
}

proof fn lemma_scan_nul_finds(bytes: Seq<u8>, i: int, k: int)
    requires
        0 <= i <= k < bytes.len(),
        forall|j: int| i <= j < k ==> bytes[j] != 0,
        bytes[k] == 0,
    ensures
        scan_nul(bytes, i) == k,
    decreases k - i,
{
    if i < k {
        lemma_scan_nul_finds(bytes, i + 1, k);
    }
}

/// The well-formed WM_CLASS layouts: an instance string, a separating null
/// byte, and a class string, with or without one trailing null byte. In
/// both, the decoded class segment is the class string exactly. (A value
/// with no null byte at all is the malformed-property error, as
/// [`parse_wm_class`] ensures.)
pub proof fn lemma_wm_class_layout(instance: Seq<u8>, class: Seq<u8>, trailing: bool)
    requires
        !instance.contains(0),
        !class.contains(0),
    ensures
        has_nul(
            instance + seq![0u8] + class + (if trailing {
                seq![0u8]
            } else {
                Seq::<u8>::empty()
            }),
        ),
        wm_class_bytes(
            instance + seq![0u8] + class + (if trailing {
                seq![0u8]
            } else {
                Seq::<u8>::empty()
            }),
        ) == class,
{
    let tail: Seq<u8> = if trailing {
        seq![0u8]
    } else {
        Seq::<u8>::empty()
    };
    let bytes = instance + seq![0u8] + class + tail;
    let ilen = instance.len() as int;
    assert(bytes.len() == instance.len() + 1 + class.len() + tail.len());
    assert(bytes[ilen] == 0);
    assert forall|j: int| 0 <= j < ilen implies bytes[j] != 0 by {
        assert(bytes[j] == instance[j]);
        assert(instance[j] != 0) by {
            assert(!instance.contains(0));
        }
    }
    lemma_scan_nul_finds(bytes, 0, ilen);
    assert(has_nul(bytes));
    let rest = bytes.subrange(ilen + 1, bytes.len() as int);
    assert(rest =~= class + tail);
    if trailing {
        assert(rest.len() == class.len() + 1);
        assert(rest.last() == 0);
        assert(rest.drop_last() =~= class);
        assert(wm_class_bytes(bytes) == class);
    } else {
        assert(rest =~= class);
        if class.len() > 0 {
            assert(class.last() != 0) by {
                assert(!class.contains(0));
            }
            assert(wm_class_bytes(bytes) == class);
        } else {
            assert(wm_class_bytes(bytes) =~= class);
        }
    }
}

/// Decodes a string property's bytes strictly as UTF-8.
pub fn parse_string_property(value: Vec<u8>) -> (r: Result<String, XError>)
    ensures
        valid_utf8(value@) ==> (r matches Ok(s) && s@ == decode_utf8(value@)),
        !valid_utf8(value@) ==> (r matches Err(e) && e matches XError::InvalidUtf8(_)),
{
    match utf8_decode_vec(value) {
        Ok(s) => Ok(s),
        Err(m) => Err(XError::InvalidUtf8(m)),
    }
}

/// What the per-tick lookup should do after reading the root window's
/// active-window property.
#[derive(Debug, Clone, Copy, PartialEq, Eq, Structural)]
pub enum FocusLookup {
    /// The property named this window.
    Window(u32),
    /// The property was absent or malformed: query the input focus instead.
    QueryInputFocus,
}

/// The first 32-bit item of a property value, read least significant byte
/// first.
pub open spec fn first_value32(bytes: Seq<u8>) -> u32
    recommends
        bytes.len() >= 4,
{
    (bytes[0] + bytes[1] * 256 + bytes[2] * 65536 + bytes[3] * 16777216) as u32
}

/// Decides how to resolve the focused window from the active-window
/// property reply.
///
/// A well-formed reply (32-bit format, one item) names the window directly;
/// a 32-bit one-item reply without a value is a hard failure; anything else
/// falls back to querying the input focus, which is mandatory because not
/// all window managers set the property.
pub fn find_active_window(prop: &PropertyReply) -> (r: Result<FocusLookup, XError>)
    ensures
        prop.format == 32 && prop.length == 1 && prop.value@.len() >= 4 ==> r == Ok::<
            FocusLookup,
            XError,
        >(FocusLookup::Window(first_value32(prop.value@))),
        prop.format == 32 && prop.length == 1 && prop.value@.len() < 4 ==> r == Err::<
            FocusLookup,
            XError,
        >(XError::NoActiveWindow),
        !(prop.format == 32 && prop.length == 1) ==> r == Ok::<FocusLookup, XError>(
            FocusLookup::QueryInputFocus,
        ),
{
    if prop.format == 32 && prop.length == 1 {
        if prop.value.len() >= 4 {
            let b0: u32 = prop.value[0] as u32;
            let b1: u32 = prop.value[1] as u32;
            let b2: u32 = prop.value[2] as u32;
            let b3: u32 = prop.value[3] as u32;
            Ok(FocusLookup::Window(b0 + b1 * 256 + b2 * 65536 + b3 * 16777216))
        } else {
            Err(XError::NoActiveWindow)
        }
    } else {
        Ok(FocusLookup::QueryInputFocus)
    }
}

/// Assembles the focused window's info from its name and class property
/// replies: the class from WM_CLASS, the title decoded strictly as UTF-8.
/// A class failure takes precedence over a title failure.
pub fn get_x_active_window_info(name: PropertyReply, class: &PropertyReply) -> (r: Result<
    ActiveWindow,
    XError,
>)
    ensures
        r is Ok <==> wm_class_ok(class.format, class.value@) && valid_utf8(name.value@),
        r matches Ok(w) ==> w.class@ == decode_utf8(wm_class_bytes(class.value@)) && w.title@
            == decode_utf8(name.value@),
        class.format == 8 && !has_nul(class.value@) ==> r == Err::<ActiveWindow, XError>(
            XError::MalformedWMClass,
        ),
        wm_class_ok(class.format, class.value@) && !valid_utf8(name.value@) ==> (r matches Err(e)
            && e matches XError::InvalidUtf8(_)),
{
    let class_name: String = match parse_wm_class(class.format, &class.value) {
        Ok(s) => s,
        Err(e) => {
            return Err(e);
        },
    };
    let title: String = match parse_string_property(name.value) {
        Ok(s) => s,
        Err(e) => {
            return Err(e);
        },
    };
    Ok(ActiveWindow { class: class_name, title })
}

} // verus!
