//! The compositor IPC backend's pure logic: control-socket path resolution,
//! UTF-8 decoding of the reply, the `\x` to `\u00` escape rewrite, and the
//! four-field reply grammar.
//!
//! The reply text must contain, in order: a `class: ` line, then whitespace,
//! a `title: ` line, whitespace, an `initialClass: ` line, whitespace, an
//! `initialTitle: ` line, and one further whitespace character after that
//! line's newline. Each field runs from its label to the end of its line and
//! must be non-empty. The leftmost such block wins.

use vstd::prelude::*;
use vstd::string::StrSliceExecFns;
use vstd::string::StringExecFns;
use vstd::utf8::decode_utf8;
use vstd::utf8::valid_utf8;

use crate::model::ActiveWindow;
use crate::model::AppError;
use crate::model::Window;
use crate::text::dec_of;
use crate::text::is_space;
use crate::text::is_space_char;
use crate::text::u32_to_decimal;
use crate::text::utf8_decode_vec;

verus! {

/// The index of the first newline at or after `i`, or the length if none.
pub open spec fn line_end(s: Seq<char>, i: int) -> int
    decreases s.len() - i,
{
    if i < 0 || i >= s.len() {
        s.len() as int
    } else if s[i] == '\n' {
        i
    } else {
        line_end(s, i + 1)
    }
}

/// The index of the first non-whitespace character at or after `i`, or the
/// length if none.
pub open spec fn ws_end(s: Seq<char>, i: int) -> int
    decreases s.len() - i,
{
    if i < 0 || i >= s.len() {
        s.len() as int
    } else if !is_space_char(s[i]) {
        i
    } else {
        ws_end(s, i + 1)
    }
}

/// Holds when `lit` occurs in `s` starting at `i`.
pub open spec fn lit_at(s: Seq<char>, i: int, lit: Seq<char>) -> bool {
    0 <= i && i + lit.len() <= s.len() && s.subrange(i, i + lit.len()) == lit
}

pub open spec fn class_label() -> Seq<char> {
    seq!['c', 'l', 'a', 's', 's', ':', ' ']
}

pub open spec fn title_label() -> Seq<char> {
    seq!['t', 'i', 't', 'l', 'e', ':', ' ']
}

pub open spec fn initial_class_label() -> Seq<char> {
    seq!['i', 'n', 'i', 't', 'i', 'a', 'l', 'C', 'l', 'a', 's', 's', ':', ' ']
}

pub open spec fn initial_title_label() -> Seq<char> {
    seq!['i', 'n', 'i', 't', 'i', 'a', 'l', 'T', 'i', 't', 'l', 'e', ':', ' ']
}

/// End of the class field of a block starting at `p`.
pub open spec fn pos_e1(s: Seq<char>, p: int) -> int {
    line_end(s, p + 7)
}

/// Start of the title field.
pub open spec fn pos_a2(s: Seq<char>, p: int) -> int {
    ws_end(s, pos_e1(s, p) + 1) + 7
}

/// End of the title field.
pub open spec fn pos_e2(s: Seq<char>, p: int) -> int {
    line_end(s, pos_a2(s, p))
}

/// Start of the initialClass field.
pub open spec fn pos_a3(s: Seq<char>, p: int) -> int {
    ws_end(s, pos_e2(s, p) + 1) + 14
}

/// End of the initialClass field.
pub open spec fn pos_e3(s: Seq<char>, p: int) -> int {
    line_end(s, pos_a3(s, p))
}

/// Start of the initialTitle field.
pub open spec fn pos_a4(s: Seq<char>, p: int) -> int {
    ws_end(s, pos_e3(s, p) + 1) + 14
}

/// End of the initialTitle field.
pub open spec fn pos_e4(s: Seq<char>, p: int) -> int {
    line_end(s, pos_a4(s, p))
}

/// Holds when a complete four-field block starts at `p`: each label in
/// order, each field non-empty and ended by a newline, and one whitespace
/// character after the last field's newline.
pub open spec fn match_at(s: Seq<char>, p: int) -> bool {
    &&& lit_at(s, p, class_label())
    &&& p + 7 < pos_e1(s, p) && pos_e1(s, p) < s.len()
    &&& lit_at(s, pos_a2(s, p) - 7, title_label())
    &&& pos_a2(s, p) < pos_e2(s, p) && pos_e2(s, p) < s.len()
    &&& lit_at(s, pos_a3(s, p) - 14, initial_class_label())
    &&& pos_a3(s, p) < pos_e3(s, p) && pos_e3(s, p) < s.len()
    &&& lit_at(s, pos_a4(s, p) - 14, initial_title_label())
    &&& pos_a4(s, p) < pos_e4(s, p) && pos_e4(s, p) < s.len()
    &&& pos_e4(s, p) + 1 < s.len()
    &&& is_space_char(s[pos_e4(s, p) + 1])
}

/// Holds when some block in `s` matches the grammar.
pub open spec fn has_window_match(s: Seq<char>) -> bool {
    exists|p: int| 0 <= p && #[trigger] match_at(s, p)
}

/// Holds when `p` starts the leftmost matching block.
pub open spec fn leftmost_match(s: Seq<char>, p: int) -> bool {
    &&& 0 <= p
    &&& match_at(s, p)
    &&& forall|q: int| 0 <= q < p ==> !match_at(s, q)
}

pub open spec fn cap_class(s: Seq<char>, p: int) -> Seq<char> {
    s.subrange(p + 7, pos_e1(s, p))
}

pub open spec fn cap_title(s: Seq<char>, p: int) -> Seq<char> {
    s.subrange(pos_a2(s, p), pos_e2(s, p))
}

pub open spec fn cap_initial_class(s: Seq<char>, p: int) -> Seq<char> {
    s.subrange(pos_a3(s, p), pos_e3(s, p))
}

pub open spec fn cap_initial_title(s: Seq<char>, p: int) -> Seq<char> {
    s.subrange(pos_a4(s, p), pos_e4(s, p))
}

/// The reply text with every `\x` escape rewritten to `\u00`, left to
/// right, non-overlapping.
pub open spec fn hex_rewrite(s: Seq<char>) -> Seq<char>
    decreases s.len(),
{
    if s.len() >= 2 && s[0] == '\\' && s[1] == 'x' {
        seq!['\\', 'u', '0', '0'] + hex_rewrite(s.skip(2))
    } else if s.len() == 0 {
        s
    } else {
        seq![s[0]] + hex_rewrite(s.skip(1))
    }
}

/// Rewrites every `\x` escape in the input to `\u00`.
pub fn rewrite_hex_escapes(input: &str) -> (out: String)
    ensures
        out@ == hex_rewrite(input@),
{
    let n: usize = input.unicode_len();
    let mut out: String = String::new();
    let mut i: usize = 0;
    proof {
        assert(input@.skip(0) =~= input@);
        assert(out@ + hex_rewrite(input@.skip(0)) =~= hex_rewrite(input@));
    }
    while i < n
        invariant
            i <= n,
            n == input@.len(),
            hex_rewrite(input@) == out@ + hex_rewrite(input@.skip(i as int)),
        decreases n - i,
    {
        let c: char = input.get_char(i);
        if c == '\\' && i + 1 < n && input.get_char(i + 1) == 'x' {
            proof {
                reveal_strlit("\\u00");
                let rest = input@.skip(i as int);
                assert(rest.len() >= 2 && rest[0] == '\\' && rest[1] == 'x');
                assert(rest.skip(2) =~= input@.skip(i + 2));
                assert(hex_rewrite(rest) == seq!['\\', 'u', '0', '0'] + hex_rewrite(
                    input@.skip(i + 2),
                ));
                assert("\\u00"@ =~= seq!['\\', 'u', '0', '0']);
                assert(hex_rewrite(input@) =~= (out@ + "\\u00"@) + hex_rewrite(input@.skip(i + 2)));
            }
            out.append("\\u00");
            i = i + 2;
        } else {
            let piece: &str = input.substring_char(i, i + 1);
            proof {
                let rest = input@.skip(i as int);
                assert(rest.len() >= 1);
                assert(rest[0] == input@[i as int]);
                assert(!(rest.len() >= 2 && rest[0] == '\\' && rest[1] == 'x'));
                assert(rest.skip(1) =~= input@.skip(i + 1));
                assert(hex_rewrite(rest) == seq![input@[i as int]] + hex_rewrite(
                    input@.skip(i + 1),
                ));
                assert(piece@ =~= seq![input@[i as int]]);
                assert(hex_rewrite(input@) =~= (out@ + piece@) + hex_rewrite(input@.skip(i + 1)));
            }
            out.append(piece);
            i = i + 1;
        }
    }
    proof {
        assert(input@.skip(n as int) =~= Seq::<char>::empty());
        assert(hex_rewrite(input@.skip(n as int)) =~= Seq::<char>::empty());
        assert(out@ =~= hex_rewrite(input@));
    }
    out
}

/// Scans to the first newline at or after `i`.
fn scan_line_end(s: &str, i: usize) -> (j: usize)
    requires
        i <= s@.len(),
    ensures
        i <= j <= s@.len(),
        j == line_end(s@, i as int),
{
    let n: usize = s.unicode_len();
    let mut j: usize = i;
    while j < n && s.get_char(j) != '\n'
        invariant
            i <= j <= n,
            n == s@.len(),
            line_end(s@, i as int) == line_end(s@, j as int),
        decreases n - j,
    {
        j = j + 1;
    }
    proof {
        assert(line_end(s@, j as int) == j);
    }
    j
}

/// Scans to the first non-whitespace character at or after `i`.
fn scan_ws_end(s: &str, i: usize) -> (j: usize)
    requires
        i <= s@.len(),
    ensures
        i <= j <= s@.len(),
        j == ws_end(s@, i as int),
{
    let n: usize = s.unicode_len();
    let mut j: usize = i;
    while j < n && is_space(s.get_char(j))
        invariant
            i <= j <= n,
            n == s@.len(),
            ws_end(s@, i as int) == ws_end(s@, j as int),
        decreases n - j,
    {
        j = j + 1;
    }
    proof {
        assert(ws_end(s@, j as int) == j);
    }
    j
}

/// Compares the characters of `s` at `p` against `lit`.
fn lit_match(s: &str, p: usize, lit: &Vec<char>) -> (r: bool)
    requires
        p <= s@.len(),
    ensures
        r == lit_at(s@, p as int, lit@),
{
    let n: usize = s.unicode_len();
    let m: usize = lit.len();
    if n - p < m {
        return false;
    }
    let mut k: usize = 0;
    while k < m
        invariant
            k <= m,
            p + m <= n,
            n == s@.len(),
            m == lit@.len(),
            forall|t: int| 0 <= t < k ==> s@[p + t] == lit@[t],
        decreases m - k,
    {
        if s.get_char(p + k) != lit[k] {
            proof {
                assert(s@.subrange(p as int, p + m) != lit@) by {
                    assert(s@.subrange(p as int, p + m)[k as int] != lit@[k as int]);
                }
            }
            return false;
        }
        k = k + 1;
    }
    proof {
        assert(s@.subrange(p as int, p + m) =~= lit@);
    }
    true
}

/// Tries to match the four-field block starting exactly at `p`, returning
/// the decoded fields on success.
fn try_match_at(s: &str, p: usize) -> (r: Option<Window>)
    requires
        p <= s@.len(),
    ensures
        r is Some <==> match_at(s@, p as int),
        r matches Some(w) ==> w.class@ == cap_class(s@, p as int) && w.title@ == cap_title(
            s@,
            p as int,
        ) && w.initial_class@ == cap_initial_class(s@, p as int) && w.initial_title@
            == cap_initial_title(s@, p as int),
{
    let n: usize = s.unicode_len();
    let lit1: Vec<char> = vec!['c', 'l', 'a', 's', 's', ':', ' '];
    let lit2: Vec<char> = vec!['t', 'i', 't', 'l', 'e', ':', ' '];
    let lit3: Vec<char> = vec![
        'i',
        'n',
        'i',
        't',
        'i',
        'a',
        'l',
        'C',
        'l',
        'a',
        's',
        's',
        ':',
        ' ',
    ];
    let lit4: Vec<char> = vec![
        'i',
        'n',
        'i',
        't',
        'i',
        'a',
        'l',
        'T',
        'i',
        't',
        'l',
        'e',
        ':',
        ' ',
    ];
    proof {
        assert(lit1@ =~= class_label());
        assert(lit2@ =~= title_label());
        assert(lit3@ =~= initial_class_label());
        assert(lit4@ =~= initial_title_label());
    }
    if !lit_match(s, p, &lit1) {
        return None;
    }
    let a1: usize = p + 7;
    let e1: usize = scan_line_end(s, a1);
    if !(a1 < e1 && e1 < n) {
        return None;
    }
    let j2: usize = scan_ws_end(s, e1 + 1);
    if !lit_match(s, j2, &lit2) {
        return None;
    }
    let a2: usize = j2 + 7;
    let e2: usize = scan_line_end(s, a2);
    if !(a2 < e2 && e2 < n) {
        return None;
    }
    let j3: usize = scan_ws_end(s, e2 + 1);
    if !lit_match(s, j3, &lit3) {
        return None;
    }
    let a3: usize = j3 + 14;
    let e3: usize = scan_line_end(s, a3);
    if !(a3 < e3 && e3 < n) {
        return None;
    }
    let j4: usize = scan_ws_end(s, e3 + 1);
    if !lit_match(s, j4, &lit4) {
        return None;
    }
    let a4: usize = j4 + 14;
    let e4: usize = scan_line_end(s, a4);
    if !(a4 < e4 && e4 < n) {
        return None;
    }
    if !(e4 + 1 < n && is_space(s.get_char(e4 + 1))) {
        return None;
    }
    let w = Window {
        class: s.substring_char(a1, e1).to_owned(),
        title: s.substring_char(a2, e2).to_owned(),
        initial_class: s.substring_char(a3, e3).to_owned(),
        initial_title: s.substring_char(a4, e4).to_owned(),
    };
    proof {
        assert(match_at(s@, p as int));
    }
    Some(w)
}

/// Decodes the four window fields from the rewritten reply text.
///
/// Succeeds exactly when some block matches the grammar, and then returns
/// the four fields of the leftmost matching block verbatim; otherwise a
/// parse error, with no partial result.
pub fn string_to_window(input: &str) -> (r: Result<Window, AppError>)
    ensures
        r is Ok <==> has_window_match(hex_rewrite(input@)),
        r matches Ok(w) ==> exists|p: int|
            {
                &&& #[trigger] leftmost_match(hex_rewrite(input@), p)
                &&& w.class@ == cap_class(hex_rewrite(input@), p)
                &&& w.title@ == cap_title(hex_rewrite(input@), p)
                &&& w.initial_class@ == cap_initial_class(hex_rewrite(input@), p)
                &&& w.initial_title@ == cap_initial_title(hex_rewrite(input@), p)
            },
        r matches Err(e) ==> (e matches AppError::Parse(m) && m@ == "Could not parse input."@),
{
    let t: String = rewrite_hex_escapes(input);
    let s: &str = t.as_str();
    let n: usize = s.unicode_len();
    let mut p: usize = 0;
    while p < n
        invariant
            p <= n,
            n == s@.len(),
            s@ == hex_rewrite(input@),
            forall|q: int| 0 <= q < p ==> !match_at(s@, q),
        decreases n - p,
    {
        let found: Option<Window> = try_match_at(s, p);
        match found {
            Some(w) => {
                proof {
                    assert(leftmost_match(hex_rewrite(input@), p as int));
                }
                return Ok(w);
            },
            None => {
                p = p + 1;
            },
        }
    }
    proof {
        assert forall|q: int| 0 <= q implies !match_at(s@, q) by {
            if q >= n {
                assert(!lit_at(s@, q, class_label()));
            }
        }
        assert(!has_window_match(hex_rewrite(input@)));
    }
    Err(AppError::Parse(String::from_str("Could not parse input.")))
}

proof fn lemma_line_end_finds(s: Seq<char>, i: int, k: int)
    requires
        0 <= i <= k < s.len(),
        forall|j: int| i <= j < k ==> s[j] != '\n',
        s[k] == '\n',
    ensures
        line_end(s, i) == k,
    decreases k - i,
{
    if i < k {
        lemma_line_end_finds(s, i + 1, k);
    }
}

proof fn lemma_ws_end_finds(s: Seq<char>, i: int, k: int)
    requires
        0 <= i <= k < s.len(),
        forall|j: int| i <= j < k ==> is_space_char(s[j]),
        !is_space_char(s[k]),
    ensures
        ws_end(s, i) == k,
    decreases k - i,
{
    if i < k {
        lemma_ws_end_finds(s, i + 1, k);
    }
}

/// The documented reply layout: the four labelled lines in order, with a
/// whitespace run (possibly empty) before each continuation line and one
/// whitespace character after the last line's newline.
pub open spec fn reply_layout(
    c1: Seq<char>,
    w2: Seq<char>,
    c2: Seq<char>,
    w3: Seq<char>,
    c3: Seq<char>,
    w4: Seq<char>,
    c4: Seq<char>,
    tail_ws: char,
) -> Seq<char> {
    class_label() + c1 + seq!['\n'] + w2 + title_label() + c2 + seq!['\n'] + w3
        + initial_class_label() + c3 + seq!['\n'] + w4 + initial_title_label() + c4 + seq!['\n']
        + seq![tail_ws]
}

/// Every text of the documented layout matches the grammar at its start,
/// that start is the leftmost match, and all four fields are extracted
/// verbatim.
#[verifier::rlimit(50)]
pub proof fn lemma_reply_layout_fields(
    c1: Seq<char>,
    w2: Seq<char>,
    c2: Seq<char>,
    w3: Seq<char>,
    c3: Seq<char>,
    w4: Seq<char>,
    c4: Seq<char>,
    tail_ws: char,
)
    requires
        c1.len() > 0 && !c1.contains('\n'),
        c2.len() > 0 && !c2.contains('\n'),
        c3.len() > 0 && !c3.contains('\n'),
        c4.len() > 0 && !c4.contains('\n'),
        forall|j: int| 0 <= j < w2.len() ==> is_space_char(#[trigger] w2[j]),
        forall|j: int| 0 <= j < w3.len() ==> is_space_char(#[trigger] w3[j]),
        forall|j: int| 0 <= j < w4.len() ==> is_space_char(#[trigger] w4[j]),
        is_space_char(tail_ws),
    ensures
        leftmost_match(reply_layout(c1, w2, c2, w3, c3, w4, c4, tail_ws), 0),
        cap_class(reply_layout(c1, w2, c2, w3, c3, w4, c4, tail_ws), 0) == c1,
        cap_title(reply_layout(c1, w2, c2, w3, c3, w4, c4, tail_ws), 0) == c2,
        cap_initial_class(reply_layout(c1, w2, c2, w3, c3, w4, c4, tail_ws), 0) == c3,
        cap_initial_title(reply_layout(c1, w2, c2, w3, c3, w4, c4, tail_ws), 0) == c4,
        forall|p: int|
            #[trigger] leftmost_match(reply_layout(c1, w2, c2, w3, c3, w4, c4, tail_ws), p) ==> p
                == 0,
{
    let s = reply_layout(c1, w2, c2, w3, c3, w4, c4, tail_ws);
    let a1 = 7int;
    let e1 = a1 + c1.len();
    let j2 = e1 + 1 + w2.len();
    let a2 = j2 + 7;
    let e2 = a2 + c2.len();
    let j3 = e2 + 1 + w3.len();
    let a3 = j3 + 14;
    let e3 = a3 + c3.len();
    let j4 = e3 + 1 + w4.len();
    let a4 = j4 + 14;
    let e4 = a4 + c4.len();
    assert(s.len() == e4 + 2);
    assert(s.subrange(0, a1) =~= class_label());
    assert(s.subrange(a1, e1) =~= c1);
    assert(s[e1] == '\n');
    assert(s.subrange(e1 + 1, j2) =~= w2);
    assert(s.subrange(j2, a2) =~= title_label());
    assert(s.subrange(a2, e2) =~= c2);
    assert(s[e2] == '\n');
    assert(s.subrange(e2 + 1, j3) =~= w3);
    assert(s.subrange(j3, a3) =~= initial_class_label());
    assert(s.subrange(a3, e3) =~= c3);
    assert(s[e3] == '\n');
    assert(s.subrange(e3 + 1, j4) =~= w4);
    assert(s.subrange(j4, a4) =~= initial_title_label());
    assert(s.subrange(a4, e4) =~= c4);
    assert(s[e4] == '\n');
    assert(s[e4 + 1] == tail_ws);
    assert forall|j: int| a1 <= j < e1 implies s[j] != '\n' by {
        assert(s[j] == s.subrange(a1, e1)[j - a1]);
        assert(!c1.contains('\n'));
    }
    lemma_line_end_finds(s, a1, e1);
    assert(pos_e1(s, 0) == e1);
    assert forall|j: int| e1 + 1 <= j < j2 implies is_space_char(s[j]) by {
        assert(s[j] == s.subrange(e1 + 1, j2)[j - (e1 + 1)]);
    }
    assert(s[j2] == 't');
    assert(!is_space_char('t'));
    lemma_ws_end_finds(s, e1 + 1, j2);
    assert(pos_a2(s, 0) == a2);
    assert forall|j: int| a2 <= j < e2 implies s[j] != '\n' by {
        assert(s[j] == s.subrange(a2, e2)[j - a2]);
        assert(!c2.contains('\n'));
    }
    lemma_line_end_finds(s, a2, e2);
    assert(pos_e2(s, 0) == e2);
    assert forall|j: int| e2 + 1 <= j < j3 implies is_space_char(s[j]) by {
        assert(s[j] == s.subrange(e2 + 1, j3)[j - (e2 + 1)]);
    }
    assert(s[j3] == 'i');
    assert(!is_space_char('i'));
    lemma_ws_end_finds(s, e2 + 1, j3);
    assert(pos_a3(s, 0) == a3);
    assert forall|j: int| a3 <= j < e3 implies s[j] != '\n' by {
        assert(s[j] == s.subrange(a3, e3)[j - a3]);
        assert(!c3.contains('\n'));
    }
    lemma_line_end_finds(s, a3, e3);
    assert(pos_e3(s, 0) == e3);
    assert forall|j: int| e3 + 1 <= j < j4 implies is_space_char(s[j]) by {
        assert(s[j] == s.subrange(e3 + 1, j4)[j - (e3 + 1)]);
    }
    assert(s[j4] == 'i');
    lemma_ws_end_finds(s, e3 + 1, j4);
    assert(pos_a4(s, 0) == a4);
    assert forall|j: int| a4 <= j < e4 implies s[j] != '\n' by {
        assert(s[j] == s.subrange(a4, e4)[j - a4]);
        assert(!c4.contains('\n'));
    }
    lemma_line_end_finds(s, a4, e4);
    assert(pos_e4(s, 0) == e4);
    assert(lit_at(s, 0, class_label()));
    assert(lit_at(s, j2, title_label()));
    assert(lit_at(s, j3, initial_class_label()));
    assert(lit_at(s, j4, initial_title_label()));
    assert(match_at(s, 0));
    assert(cap_class(s, 0) == c1);
    assert(cap_title(s, 0) == c2);
    assert(cap_initial_class(s, 0) == c3);
    assert(cap_initial_title(s, 0) == c4);
    assert forall|p: int| #[trigger] leftmost_match(s, p) implies p == 0 by {
        if p > 0 {
            assert(!match_at(s, 0));
        }
    }
}

/// A matching block contains each of the four labels, so a text missing
/// any labelled line cannot match and is rejected as a parse error with no
/// partial result.
pub proof fn lemma_match_has_labels(s: Seq<char>, p: int)
    requires
        match_at(s, p),
    ensures
        exists|j: int| #[trigger] lit_at(s, j, class_label()),
        exists|j: int| #[trigger] lit_at(s, j, title_label()),
        exists|j: int| #[trigger] lit_at(s, j, initial_class_label()),
        exists|j: int| #[trigger] lit_at(s, j, initial_title_label()),
{
    assert(lit_at(s, p, class_label()));
    assert(lit_at(s, pos_a2(s, p) - 7, title_label()));
    assert(lit_at(s, pos_a3(s, p) - 14, initial_class_label()));
    assert(lit_at(s, pos_a4(s, p) - 14, initial_title_label()));
}

/// The runtime directory for the compositor's control sockets: the runtime
/// directory variable's value if set, else the default root with the
/// caller's numeric user id, each joined with the fixed subdirectory.
pub open spec fn spec_runtime_dir(runtime_dir_env: Option<String>, uid: u32) -> Seq<char> {
    match runtime_dir_env {
        Some(p) => p@ + "/hypr"@,
        None => "/run/user/"@ + dec_of(uid as nat) + "/hypr"@,
    }
}

/// Resolves the compositor's runtime directory from the runtime-directory
/// environment value, falling back to the default root and the user id.
pub fn get_hyprctl_runtime_dir(runtime_dir_env: &Option<String>, uid: u32) -> (s: String)
    ensures
        s@ == spec_runtime_dir(*runtime_dir_env, uid),
{
    match runtime_dir_env {
        Some(p) => p.clone().concat("/hypr"),
        None => String::from_str("/run/user/").concat(u32_to_decimal(uid).as_str()).concat("/hypr"),
    }
}

/// Requires the instance-signature environment value; its absence is the
/// user-facing configuration error.
pub fn get_hyprctl_instance_signature(instance_env: &Option<String>) -> (r: Result<String, AppError>)
    ensures
        instance_env matches Some(v) ==> (r matches Ok(s) && s@ == v@),
        instance_env is None ==> (r matches Err(e) && e matches AppError::EnvVarNotSet(m) && m@
            == "HYPRLAND_INSTANCE_SIGNATURE not set! (is hyprland running?)"@),
{
    match instance_env {
        Some(v) => Ok(v.clone()),
        None => Err(
            AppError::EnvVarNotSet(
                String::from_str("HYPRLAND_INSTANCE_SIGNATURE not set! (is hyprland running?)"),
            ),
        ),
    }
}

/// The full control-socket path for one compositor instance.
pub open spec fn spec_socket_path(
    runtime_dir_env: Option<String>,
    uid: u32,
    instance: Seq<char>,
) -> Seq<char> {
    spec_runtime_dir(runtime_dir_env, uid) + "/"@ + instance + "/.socket.sock"@
}

/// Resolves the control-socket path from the two environment values and the
/// user id. Fails exactly when the instance signature is absent.
pub fn get_hyprctl_socket_path(
    runtime_dir_env: &Option<String>,
    uid: u32,
    instance_env: &Option<String>,
) -> (r: Result<String, AppError>)
    ensures
        instance_env matches Some(v) ==> (r matches Ok(s) && s@ == spec_socket_path(
            *runtime_dir_env,
            uid,
            v@,
        )),
        instance_env is None ==> (r matches Err(e) && e matches AppError::EnvVarNotSet(_)),
{
    let runtime_dir: String = get_hyprctl_runtime_dir(runtime_dir_env, uid);
    let instance: String = match get_hyprctl_instance_signature(instance_env) {
        Ok(v) => v,
        Err(e) => {
            return Err(e);
        },
    };
    Ok(runtime_dir.concat("/").concat(instance.as_str()).concat("/.socket.sock"))
}

/// Relies on nix::unistd::Uid::current (getuid) and Uid::as_raw: the
/// calling process's numeric user id. Nothing is promised of the value.
#[verifier::external_body]
fn get_current_uid() -> u32 {
    nix::unistd::Uid::current().as_raw()
}

/// Resolves the control-socket path with the calling process's user id as
/// the fallback path component. Fails exactly when the instance signature
/// is absent.
pub fn resolve_hyprctl_socket_path(
    runtime_dir_env: &Option<String>,
    instance_env: &Option<String>,
) -> (r: Result<String, AppError>)
    ensures
        instance_env matches Some(v) ==> (r matches Ok(s) && exists|uid: u32|
            s@ == #[trigger] spec_socket_path(*runtime_dir_env, uid, v@)),
        instance_env is None ==> (r matches Err(e) && e matches AppError::EnvVarNotSet(_)),
{
    let uid: u32 = get_current_uid();
    get_hyprctl_socket_path(runtime_dir_env, uid, instance_env)
}

/// Decodes the accumulated socket bytes strictly as UTF-8.
pub fn decode_socket_reply(bytes: Vec<u8>) -> (r: Result<String, AppError>)
    ensures
        valid_utf8(bytes@) ==> (r matches Ok(s) && s@ == decode_utf8(bytes@)),
        !valid_utf8(bytes@) ==> (r matches Err(e) && e matches AppError::Parse(_)),
{
    match utf8_decode_vec(bytes) {
        Ok(s) => Ok(s),
        Err(m) => Err(AppError::Parse(m)),
    }
}

/// Projects a raw IPC reply down to the focused window's class and title:
/// decode as UTF-8, rewrite escapes, match the grammar, and keep the two
/// current fields.
pub fn get_hypr_active_window_info(reply: Vec<u8>) -> (r: Result<ActiveWindow, AppError>)
    ensures
        !valid_utf8(reply@) ==> (r matches Err(e) && e matches AppError::Parse(_)),
        valid_utf8(reply@) ==> (r is Ok <==> has_window_match(
            hex_rewrite(decode_utf8(reply@)),
        )),
        valid_utf8(reply@) ==> (r matches Ok(w) ==> exists|p: int|
            {
                &&& #[trigger] leftmost_match(hex_rewrite(decode_utf8(reply@)), p)
                &&& w.class@ == cap_class(hex_rewrite(decode_utf8(reply@)), p)
                &&& w.title@ == cap_title(hex_rewrite(decode_utf8(reply@)), p)
            }),
        valid_utf8(reply@) && !has_window_match(hex_rewrite(decode_utf8(reply@))) ==> (r matches Err(
            e,
        ) && e matches AppError::Parse(_)),
{
    let text: String = match decode_socket_reply(reply) {
        Ok(s) => s,
        Err(e) => {
            return Err(e);
        },
    };
    let window: Window = match string_to_window(text.as_str()) {
        Ok(w) => w,
        Err(e) => {
            return Err(e);
        },
    };
    Ok(ActiveWindow { title: window.title, class: window.class })
}

} // verus!
