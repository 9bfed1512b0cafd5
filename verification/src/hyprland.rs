//! Hyprland IPC: where its socket lives and how its `cursorpos` reply
//! is read.

use vstd::prelude::*;
use crate::text::{
    all_white_space, chars_of, first_index_of, is_white_space, lemma_first_index_of,
    lemma_parse_render_i32, lemma_trim_padded, parse_i32, parse_i32_range, render_i32, trim,
    trim_bounds,
};

verus! {

/// What a `cursorpos` reply means: after trimming, the text up to the
/// first comma and the text after it, each trimmed again, parse as `i32`
/// coordinates `x` and `y`.
pub open spec fn spec_parse_cursor_pos(s: Seq<char>) -> Option<(i32, i32)> {
    let t = trim(s);
    let k = first_index_of(t, ',');
    if k >= t.len() {
        None
    } else {
        match (parse_i32(trim(t.take(k as int))), parse_i32(trim(t.skip((k + 1) as int)))) {
            (Some(x), Some(y)) => Some((x, y)),
            _ => None,
        }
    }
}

/// Reads Hyprland's `cursorpos` reply, such as `"1280, 720\n"`, into the
/// global cursor position; `None` when it is not of that form.
pub fn parse_cursor_pos(response: &str) -> (r: Option<(i32, i32)>)
    ensures
        r == spec_parse_cursor_pos(response@),
{
    let v = chars_of(response);
    let (a, b) = trim_bounds(&v, 0, v.len());
    let ghost t = v@.subrange(a as int, b as int);
    assert(v@.subrange(0, v@.len() as int) =~= v@);
    let mut k = a;
    while k < b && v[k] != ','
        invariant
            a <= k <= b <= v.len(),
            t == v@.subrange(a as int, b as int),
            forall|i: int| 0 <= i < k - a ==> t[i] != ',',
        decreases b - k,
    {
        k = k + 1;
    }
    proof {
        lemma_first_index_of(t, ',', k - a);
    }
    if k == b {
        return None;
    }
    assert(t.take(k - a) =~= v@.subrange(a as int, k as int));
    assert(t.skip(k - a + 1) =~= v@.subrange(k + 1, b as int));
    let (xa, xb) = trim_bounds(&v, a, k);
    let x = match parse_i32_range(&v, xa, xb) {
        Some(x) => x,
        None => return None,
    };
    let (ya, yb) = trim_bounds(&v, k + 1, b);
    let y = match parse_i32_range(&v, ya, yb) {
        Some(y) => y,
        None => return None,
    };
    Some((x, y))
}

/// A position written as Hyprland writes it, `x`, a comma, then `y`, with
/// any white space around either number, reads back as that position.
pub proof fn lemma_cursor_pos_round_trip(
    x: i32,
    y: i32,
    w1: Seq<char>,
    w2: Seq<char>,
    w3: Seq<char>,
    w4: Seq<char>,
)
    requires
        all_white_space(w1),
        all_white_space(w2),
        all_white_space(w3),
        all_white_space(w4),
    ensures
        spec_parse_cursor_pos(
            w1 + render_i32(x) + w2 + seq![','] + w3 + render_i32(y) + w4,
        ) == Some((x, y)),
{
    let rx = render_i32(x);
    let ry = render_i32(y);
    lemma_parse_render_i32(x);
    lemma_parse_render_i32(y);
    let left = rx + w2;
    let right = w3 + ry;
    let core = left + seq![','] + right;
    let s = w1 + rx + w2 + seq![','] + w3 + ry + w4;
    assert(s =~= w1 + core + w4);
    assert(core[0] == rx[0]);
    assert(core.last() == ry.last());
    assert(!is_white_space(ry.last()));
    lemma_trim_padded(w1, core, w4);
    let k = left.len() as int;
    assert forall|i: int| 0 <= i < k implies core[i] != ',' by {
        if i < rx.len() {
            assert(core[i] == rx[i]);
        } else {
            assert(core[i] == w2[i - rx.len()]);
            assert(is_white_space(w2[i - rx.len()]));
        }
    }
    assert(core[k] == ',');
    lemma_first_index_of(core, ',', k);
    assert(core.take(k) =~= Seq::<char>::empty() + rx + w2);
    assert(core.skip(k + 1) =~= w3 + ry + Seq::<char>::empty());
    assert(all_white_space(Seq::<char>::empty()));
    lemma_trim_padded(Seq::<char>::empty(), rx, w2);
    lemma_trim_padded(w3, ry, Seq::<char>::empty());
}

/// Hyprland's IPC socket for an instance:
/// `<runtime dir>/hypr/<instance signature>/.socket.sock`.
pub open spec fn spec_socket_path(runtime_dir: Seq<char>, signature: Seq<char>) -> Seq<char> {
    runtime_dir + seq!['/', 'h', 'y', 'p', 'r', '/'] + signature + seq![
        '/',
        '.',
        's',
        'o',
        'c',
        'k',
        'e',
        't',
        '.',
        's',
        'o',
        'c',
        'k',
    ]
}

/// The path of Hyprland's IPC socket, from the values of `XDG_RUNTIME_DIR`
/// and `HYPRLAND_INSTANCE_SIGNATURE`.
pub fn hyprland_socket_path(runtime_dir: &str, signature: &str) -> (r: String)
    ensures
        r@ == spec_socket_path(runtime_dir@, signature@),
{
    proof {
        reveal_strlit("/hypr/");
        reveal_strlit("/.socket.sock");
    }
    let mut r = String::from_str(runtime_dir);
    r.append("/hypr/");
    r.append(signature);
    r.append("/.socket.sock");
    r
}

} // verus!
