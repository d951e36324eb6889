//! The subaction path resolver.
//!
//! A subaction path is a string of the form `/<device>/<leaf>` requested by a
//! consumer against one action.  On creation it is resolved once into a
//! device-scoped tag; an unresolvable path is left untagged and is then
//! silently ignored by every evaluator — intentionally non-fatal, so a bad
//! path never blocks input processing.

use crate::gamepad::GamepadSubactionPath;
use crate::keyboard::KeyboardSubactionPath;
use crate::mouse::MouseSubactionPath;
use crate::DeviceClass;
use vstd::prelude::*;
use vstd::string::StrSliceExecFns;

verus! {




/// The device-scoped tag a subaction path resolves to.
#[derive(Clone, Copy, Debug, PartialEq, Eq, Structural)]
pub enum PathTag {
    Mouse(MouseSubactionPath),
    Keyboard(KeyboardSubactionPath),
    Gamepad(GamepadSubactionPath),
}

/// Whether `p` is a prefix of `s`.
pub open spec fn has_prefix(s: Seq<char>, p: Seq<char>) -> bool {
    p.len() <= s.len() && s.subrange(0, p.len() as int) == p
}

/// The characters of `s` from position `n` on.
pub open spec fn tail_from(s: Seq<char>, n: int) -> Seq<char> {
    s.subrange(n, s.len() as int)
}

/// The tag for what remains of a mouse path after its device prefix.
pub open spec fn resolve_mouse_leaf(r: Seq<char>) -> Option<PathTag> {
    if r.len() == 0 || r == "/*"@ {
        Some(PathTag::Mouse(MouseSubactionPath::All))
    } else if r == "/motion"@ {
        Some(PathTag::Mouse(MouseSubactionPath::DeltaMotion))
    } else if r == "/button"@ {
        Some(PathTag::Mouse(MouseSubactionPath::Button))
    } else {
        None
    }
}

/// The tag for what remains of a keyboard path after its device prefix.
pub open spec fn resolve_keyboard_leaf(r: Seq<char>) -> Option<PathTag> {
    if r.len() == 0 || r == "/*"@ {
        Some(PathTag::Keyboard(KeyboardSubactionPath::All))
    } else if r == "/button"@ {
        Some(PathTag::Keyboard(KeyboardSubactionPath::Button))
    } else {
        None
    }
}

/// The tag for what remains of a gamepad path after its device prefix.
pub open spec fn resolve_gamepad_leaf(r: Seq<char>) -> Option<PathTag> {
    if r.len() == 0 || r == "/*"@ {
        Some(PathTag::Gamepad(GamepadSubactionPath::All))
    } else if r == "/button"@ {
        Some(PathTag::Gamepad(GamepadSubactionPath::Button))
    } else {
        None
    }
}

/// The tag a raw path string resolves to: strip a known device prefix, then
/// match the remainder against that device's leaf table.  Anything else
/// resolves to nothing.
pub open spec fn spec_resolve(s: Seq<char>) -> Option<PathTag> {
    if has_prefix(s, "/mouse"@) {
        resolve_mouse_leaf(tail_from(s, "/mouse"@.len() as int))
    } else if has_prefix(s, "/keyboard"@) {
        resolve_keyboard_leaf(tail_from(s, "/keyboard"@.len() as int))
    } else if has_prefix(s, "/gamepad"@) {
        resolve_gamepad_leaf(tail_from(s, "/gamepad"@.len() as int))
    } else {
        None
    }
}

/// Whether `p` is a prefix of `s`, by characters.
fn str_has_prefix(s: &str, p: &str) -> (r: bool)
    ensures
        r == has_prefix(s@, p@),
{
    let sn = s.unicode_len();
    let pn = p.unicode_len();
    if pn > sn {
        return false;
    }
    let mut i: usize = 0;
    while i < pn
        invariant
            pn == p@.len(),
            sn == s@.len(),
            pn <= sn,
            i <= pn,
            forall|j: int| 0 <= j < i ==> s@[j] == p@[j],
        decreases pn - i,
    {
        if s.get_char(i) != p.get_char(i) {
            proof {
                assert(s@.subrange(0, p@.len() as int)[i as int] != p@[i as int]);
            }
            return false;
        }
        i += 1;
    }
    proof {
        assert(s@.subrange(0, p@.len() as int) =~= p@);
    }
    true
}

/// Whether the characters of `s` from `from` on are exactly `p`.
fn str_tail_is(s: &str, from: usize, p: &str) -> (r: bool)
    requires
        from <= s@.len(),
    ensures
        r == (tail_from(s@, from as int) == p@),
{
    let sn = s.unicode_len();
    let pn = p.unicode_len();
    if sn - from != pn {
        proof {
            assert(tail_from(s@, from as int).len() != p@.len());
        }
        return false;
    }
    let mut i: usize = 0;
    while i < pn
        invariant
            pn == p@.len(),
            sn == s@.len(),
            from + pn == sn,
            i <= pn,
            forall|j: int| 0 <= j < i ==> s@[from + j] == p@[j],
        decreases pn - i,
    {
        if s.get_char(from + i) != p.get_char(i) {
            proof {
                assert(tail_from(s@, from as int)[i as int] != p@[i as int]);
            }
            return false;
        }
        i += 1;
    }
    proof {
        assert(tail_from(s@, from as int) =~= p@);
    }
    true
}

/// A character sequence is the empty literal exactly when it has no
/// characters.
proof fn lemma_empty_iff(r: Seq<char>)
    ensures
        (r == ""@) <==> r.len() == 0,
{
    reveal_strlit("");
    if r.len() == 0 {
        assert(r =~= ""@);
    }
}

/// Resolve a raw subaction path string into its device-scoped tag, if any.
pub fn resolve_path(s: &str) -> (t: Option<PathTag>)
    ensures
        t == spec_resolve(s@),
{
    if str_has_prefix(s, "/mouse") {
        let from = "/mouse".unicode_len();
        proof {
            lemma_empty_iff(tail_from(s@, from as int));
        }
        if str_tail_is(s, from, "") || str_tail_is(s, from, "/*") {
            Some(PathTag::Mouse(MouseSubactionPath::All))
        } else if str_tail_is(s, from, "/motion") {
            Some(PathTag::Mouse(MouseSubactionPath::DeltaMotion))
        } else if str_tail_is(s, from, "/button") {
            Some(PathTag::Mouse(MouseSubactionPath::Button))
        } else {
            None
        }
    } else if str_has_prefix(s, "/keyboard") {
        let from = "/keyboard".unicode_len();
        proof {
            lemma_empty_iff(tail_from(s@, from as int));
        }
        if str_tail_is(s, from, "") || str_tail_is(s, from, "/*") {
            Some(PathTag::Keyboard(KeyboardSubactionPath::All))
        } else if str_tail_is(s, from, "/button") {
            Some(PathTag::Keyboard(KeyboardSubactionPath::Button))
        } else {
            None
        }
    } else if str_has_prefix(s, "/gamepad") {
        let from = "/gamepad".unicode_len();
        proof {
            lemma_empty_iff(tail_from(s@, from as int));
        }
        if str_tail_is(s, from, "") || str_tail_is(s, from, "/*") {
            Some(PathTag::Gamepad(GamepadSubactionPath::All))
        } else if str_tail_is(s, from, "/button") {
            Some(PathTag::Gamepad(GamepadSubactionPath::Button))
        } else {
            None
        }
    } else {
        None
    }
}

/// One subaction path entity: the raw string it was requested with and the
/// tag it resolved to, cached once at creation.
#[derive(Clone, Debug)]
pub struct SubactionPath {
    /// The raw path string, as requested.
    pub raw: String,
    /// The cached resolution; nothing for an unresolvable path.
    pub tag: Option<PathTag>,
}

impl SubactionPath {
    /// Create a path entity, resolving its tag once.
    pub fn new(raw: &str) -> (p: SubactionPath)
        ensures
            p.raw@ == raw@,
            p.tag == spec_resolve(raw@),
    {
        SubactionPath { raw: raw.to_owned(), tag: resolve_path(raw) }
    }
}

/// Whether a path with this tag receives discrete (button-like)
/// contributions from bindings of device class `d`.
pub open spec fn tag_matches_button(tag: Option<PathTag>, d: DeviceClass) -> bool {
    match (tag, d) {
        (Some(PathTag::Mouse(m)), DeviceClass::Mouse) => m == MouseSubactionPath::Button || m
            == MouseSubactionPath::All,
        (Some(PathTag::Keyboard(k)), DeviceClass::Keyboard) => k == KeyboardSubactionPath::Button
            || k == KeyboardSubactionPath::All,
        (Some(PathTag::Gamepad(g)), DeviceClass::Gamepad) => g == GamepadSubactionPath::Button || g
            == GamepadSubactionPath::All,
        _ => false,
    }
}

/// Whether a path with this tag receives motion contributions from bindings
/// of device class `d`.  Only the mouse produces motion.
pub open spec fn tag_matches_motion(tag: Option<PathTag>, d: DeviceClass) -> bool {
    match (tag, d) {
        (Some(PathTag::Mouse(m)), DeviceClass::Mouse) => m == MouseSubactionPath::DeltaMotion || m
            == MouseSubactionPath::All,
        _ => false,
    }
}

/// Evaluate `tag_matches_button` on a path's cached tag.
pub fn path_matches_button(tag: Option<PathTag>, d: DeviceClass) -> (r: bool)
    ensures
        r == tag_matches_button(tag, d),
{
    match (tag, d) {
        (Some(PathTag::Mouse(m)), DeviceClass::Mouse) => matches!(
            m,
            MouseSubactionPath::Button | MouseSubactionPath::All
        ),
        (Some(PathTag::Keyboard(_)), DeviceClass::Keyboard) => true,
        (Some(PathTag::Gamepad(_)), DeviceClass::Gamepad) => true,
        _ => false,
    }
}

/// Evaluate `tag_matches_motion` on a path's cached tag.
pub fn path_matches_motion(tag: Option<PathTag>, d: DeviceClass) -> (r: bool)
    ensures
        r == tag_matches_motion(tag, d),
{
    match (tag, d) {
        (Some(PathTag::Mouse(m)), DeviceClass::Mouse) => matches!(
            m,
            MouseSubactionPath::DeltaMotion | MouseSubactionPath::All
        ),
        _ => false,
    }
}


} // verus!
