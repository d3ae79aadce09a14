use vstd::prelude::*;
use crate::text::{
    ascii_lower, ascii_upper, from_chars, push_char, str_eq, to_ascii_lower, to_ascii_upper, to_chars, trim, trim_seq,
    upper_char, lower_char,
};

verus! {

/// Characters that `SendKeys` treats as commands rather than text.
pub open spec fn sendkeys_special(c: char) -> bool {
    c == '+' || c == '^' || c == '%' || c == '~' || c == '(' || c == ')' || c == '{' || c == '}' || c == '[' || c == ']'
}

/// One character of text as `SendKeys` must receive it.
pub open spec fn escape_char(c: char) -> Seq<char> {
    if sendkeys_special(c) {
        seq!['{', c, '}']
    } else {
        seq![c]
    }
}

/// Text as `SendKeys` must receive it to type it literally: every special
/// character enclosed in braces.
pub open spec fn escape_spec(s: Seq<char>) -> Seq<char>
    decreases s.len(),
{
    if s.len() == 0 {
        Seq::empty()
    } else {
        escape_spec(s.drop_last()) + escape_char(s.last())
    }
}

pub fn escape_sendkeys_text(text: &str) -> (r: String)
    ensures
        r@ == escape_spec(text@),
{
    let chars = to_chars(text);
    let mut out = String::new();
    let mut i: usize = 0;
    while i < chars.len()
        invariant
            chars@ == text@,
            i <= chars@.len(),
            out@ == escape_spec(text@.take(i as int)),
        decreases chars@.len() - i,
    {
        let c = chars[i];
        assert(text@.take(i + 1).drop_last() =~= text@.take(i as int));
        if c == '+' || c == '^' || c == '%' || c == '~' || c == '(' || c == ')' || c == '{' || c == '}' || c == '['
            || c == ']' {
            push_char(&mut out, '{');
            push_char(&mut out, c);
            push_char(&mut out, '}');
        } else {
            push_char(&mut out, c);
        }
        i = i + 1;
        assert(out@ =~= escape_spec(text@.take(i as int)));
    }
    assert(text@.take(i as int) =~= text@);
    out
}

/// `str::split` on one separator character: the pieces between separators,
/// always at least one.
pub open spec fn split_char(s: Seq<char>, sep: char) -> Seq<Seq<char>>
    decreases s.len(),
{
    if s.len() == 0 {
        seq![Seq::empty()]
    } else {
        let p = split_char(s.drop_last(), sep);
        if s.last() == sep {
            p.push(Seq::empty())
        } else {
            p.update(p.len() - 1, p.last().push(s.last()))
        }
    }
}

pub proof fn lemma_split_char_nonempty(s: Seq<char>, sep: char)
    ensures
        split_char(s, sep).len() >= 1,
    decreases s.len(),
{
    if s.len() > 0 {
        lemma_split_char_nonempty(s.drop_last(), sep);
    }
}

/// The views of a list of character vectors.
pub open spec fn views(v: Seq<Vec<char>>) -> Seq<Seq<char>> {
    v.map_values(|x: Vec<char>| x@)
}

/// Splits on `sep`, as `str::split` does, and trims each piece.
fn split_trimmed(s: &str, sep: char) -> (r: Vec<String>)
    ensures
        r@.len() == split_char(s@, sep).len(),
        forall|i: int| 0 <= i < r@.len() ==> #[trigger] r@[i]@ == trim_seq(split_char(s@, sep)[i]),
{
    let chars = to_chars(s);
    let mut done: Vec<Vec<char>> = Vec::new();
    let mut cur: Vec<char> = Vec::new();
    let mut i: usize = 0;
    assert(views(done@).push(cur@) =~= split_char(s@.take(0), sep));
    while i < chars.len()
        invariant
            chars@ == s@,
            i <= chars@.len(),
            views(done@).push(cur@) == split_char(s@.take(i as int), sep),
        decreases chars@.len() - i,
    {
        let c = chars[i];
        assert(s@.take(i + 1).drop_last() =~= s@.take(i as int));
        let ghost before = views(done@).push(cur@);
        if c == sep {
            let piece = cur;
            done.push(piece);
            cur = Vec::new();
            assert(views(done@).push(cur@) =~= before.push(Seq::empty()));
        } else {
            cur.push(c);
            assert(views(done@).push(cur@) =~= before.update(before.len() - 1, before.last().push(c)));
        }
        i = i + 1;
    }
    assert(s@.take(i as int) =~= s@);
    done.push(cur);
    let ghost all = views(done@);
    let mut out: Vec<String> = Vec::new();
    let mut k: usize = 0;
    while k < done.len()
        invariant
            all == views(done@),
            all == split_char(s@, sep),
            k <= done@.len(),
            out@.len() == k,
            forall|j: int| 0 <= j < k ==> #[trigger] out@[j]@ == trim_seq(all[j]),
        decreases done@.len() - k,
    {
        let piece = from_chars(done[k].as_slice());
        assert(all[k as int] == done@[k as int]@);
        out.push(trim(piece.as_str()));
        k = k + 1;
    }
    out
}

/// A single character of one UTF-8 byte.
pub open spec fn single_byte(s: Seq<char>) -> bool {
    s.len() == 1 && (s[0] as u32) < 0x80
}

/// The `SendKeys` prefix of a modifier name (`ctrl`/`control`, `alt`,
/// `shift`, any case); other names add nothing.
pub open spec fn modifier_prefix(m: Seq<char>) -> Seq<char> {
    let l = ascii_lower(m);
    if l == "ctrl"@ || l == "control"@ {
        "^"@
    } else if l == "alt"@ {
        "%"@
    } else if l == "shift"@ {
        "+"@
    } else {
        Seq::empty()
    }
}

pub open spec fn modifiers_prefix(ms: Seq<Seq<char>>) -> Seq<char>
    decreases ms.len(),
{
    if ms.len() == 0 {
        Seq::empty()
    } else {
        modifiers_prefix(ms.drop_last()) + modifier_prefix(ms.last())
    }
}

/// The `SendKeys` form of a key name: the usual names in braces, a single
/// one-byte character as itself (lower-cased), anything else upper-cased in braces.
pub open spec fn mapped_key(k: Seq<char>) -> Seq<char> {
    let l = ascii_lower(k);
    if l == "enter"@ {
        "{ENTER}"@
    } else if l == "tab"@ {
        "{TAB}"@
    } else if l == "escape"@ || l == "esc"@ {
        "{ESC}"@
    } else if l == "backspace"@ {
        "{BACKSPACE}"@
    } else if l == "delete"@ || l == "del"@ {
        "{DELETE}"@
    } else if l == "up"@ {
        "{UP}"@
    } else if l == "down"@ {
        "{DOWN}"@
    } else if l == "left"@ {
        "{LEFT}"@
    } else if l == "right"@ {
        "{RIGHT}"@
    } else if single_byte(l) {
        l
    } else {
        "{"@ + ascii_upper(l) + "}"@
    }
}

/// The trimmed pieces of a key combination such as `ctrl + shift + t`.
pub open spec fn key_parts(key: Seq<char>) -> Seq<Seq<char>> {
    split_char(key, '+').map_values(|p: Seq<char>| trim_seq(p))
}

/// The `SendKeys` expression for a key combination: the modifiers' prefixes,
/// then the key.
pub open spec fn key_expression_spec(key: Seq<char>) -> Seq<char> {
    let parts = key_parts(key);
    modifiers_prefix(parts.drop_last()) + mapped_key(parts.last())
}

fn lower_text(s: &str) -> (r: String)
    ensures
        r@ == ascii_lower(s@),
{
    let v = to_ascii_lower(&to_chars(s));
    from_chars(v.as_slice())
}

fn modifier_prefix_exec(m: &str) -> (r: &'static str)
    ensures
        r@ == modifier_prefix(m@),
{
    let l = lower_text(m);
    if str_eq(l.as_str(), "ctrl") || str_eq(l.as_str(), "control") {
        "^"
    } else if str_eq(l.as_str(), "alt") {
        "%"
    } else if str_eq(l.as_str(), "shift") {
        "+"
    } else {
        proof {
            reveal_strlit("");
        }
        ""
    }
}

fn is_single_byte(s: &str) -> (r: bool)
    ensures
        r == single_byte(s@),
{
    let v = to_chars(s);
    v.len() == 1 && (v[0] as u32) < 0x80
}

fn mapped_key_exec(k: &str) -> (r: String)
    ensures
        r@ == mapped_key(k@),
{
    let l = lower_text(k);
    let t = l.as_str();
    if str_eq(t, "enter") {
        "{ENTER}".to_owned()
    } else if str_eq(t, "tab") {
        "{TAB}".to_owned()
    } else if str_eq(t, "escape") || str_eq(t, "esc") {
        "{ESC}".to_owned()
    } else if str_eq(t, "backspace") {
        "{BACKSPACE}".to_owned()
    } else if str_eq(t, "delete") || str_eq(t, "del") {
        "{DELETE}".to_owned()
    } else if str_eq(t, "up") {
        "{UP}".to_owned()
    } else if str_eq(t, "down") {
        "{DOWN}".to_owned()
    } else if str_eq(t, "left") {
        "{LEFT}".to_owned()
    } else if str_eq(t, "right") {
        "{RIGHT}".to_owned()
    } else if is_single_byte(t) {
        l.clone()
    } else {
        let upper = to_ascii_upper(&to_chars(t));
        let mut out = "{".to_owned();
        out.append(from_chars(upper.as_slice()).as_str());
        out.append("}");
        out
    }
}

/// The `SendKeys` expression that presses a key combination such as
/// `Ctrl+Shift+T`.
pub fn sendkeys_key_expression(key: &str) -> (r: String)
    ensures
        r@ == key_expression_spec(key@),
{
    let parts = split_trimmed(key, '+');
    proof {
        lemma_split_char_nonempty(key@, '+');
    }
    let ghost ps = key_parts(key@);
    assert(ps.len() == parts@.len());
    let n = parts.len();
    let mut out = String::new();
    let mut i: usize = 0;
    while i + 1 < n
        invariant
            n == parts@.len(),
            n >= 1,
            i + 1 <= n,
            ps == key_parts(key@),
            ps.len() == n,
            forall|j: int| 0 <= j < n ==> #[trigger] parts@[j]@ == ps[j],
            out@ == modifiers_prefix(ps.take(i as int)),
        decreases n - i,
    {
        assert(ps.take(i + 1).drop_last() =~= ps.take(i as int));
        out.append(modifier_prefix_exec(parts[i].as_str()));
        i = i + 1;
    }
    assert(ps.take(i as int) =~= ps.drop_last());
    let last = mapped_key_exec(parts[n - 1].as_str());
    out.append(last.as_str());
    out
}


/// The virtual-key code of a modifier name (`ctrl`/`control`, `alt`,
/// `shift`, any case).
pub open spec fn modifier_vk(m: Seq<char>) -> Option<u16> {
    let l = ascii_lower(m);
    if l == "ctrl"@ || l == "control"@ {
        Some(0x11u16)
    } else if l == "alt"@ {
        Some(0x12u16)
    } else if l == "shift"@ {
        Some(0x10u16)
    } else {
        None
    }
}

/// The virtual-key code of a key name: the usual named keys, or a single
/// one-byte character (its upper-case code).
pub open spec fn named_vk(k: Seq<char>) -> Option<u16> {
    let l = ascii_lower(k);
    if l == "enter"@ {
        Some(0x0Du16)
    } else if l == "tab"@ {
        Some(0x09u16)
    } else if l == "escape"@ || l == "esc"@ {
        Some(0x1Bu16)
    } else if l == "backspace"@ {
        Some(0x08u16)
    } else if l == "delete"@ || l == "del"@ {
        Some(0x2Eu16)
    } else if l == "insert"@ || l == "ins"@ {
        Some(0x2Du16)
    } else if l == "home"@ {
        Some(0x24u16)
    } else if l == "end"@ {
        Some(0x23u16)
    } else if l == "pageup"@ || l == "page_up"@ || l == "page-up"@ || l == "pgup"@ {
        Some(0x21u16)
    } else if l == "pagedown"@ || l == "page_down"@ || l == "page-down"@ || l == "pgdn"@ {
        Some(0x22u16)
    } else if l == "up"@ {
        Some(0x26u16)
    } else if l == "down"@ {
        Some(0x28u16)
    } else if l == "left"@ {
        Some(0x25u16)
    } else if l == "right"@ {
        Some(0x27u16)
    } else if single_byte(l) {
        Some(upper_char(l[0]) as u16)
    } else {
        None
    }
}

/// Two lower-case key names that name the same key: equal, or spellings of
/// Escape, Delete, Insert, Page Up or Page Down.
pub open spec fn same_key_name(a: Seq<char>, b: Seq<char>) -> bool {
    ||| a == b
    ||| (a == "escape"@ || a == "esc"@) && (b == "escape"@ || b == "esc"@)
    ||| (a == "delete"@ || a == "del"@) && (b == "delete"@ || b == "del"@)
    ||| (a == "insert"@ || a == "ins"@) && (b == "insert"@ || b == "ins"@)
    ||| (a == "pageup"@ || a == "page_up"@ || a == "page-up"@ || a == "pgup"@) && (b == "pageup"@ || b == "page_up"@
        || b == "page-up"@ || b == "pgup"@)
    ||| (a == "pagedown"@ || a == "page_down"@ || a == "page-down"@ || a == "pgdn"@) && (b == "pagedown"@
        || b == "page_down"@ || b == "page-down"@ || b == "pgdn"@)
}

/// Key names, in any case, press the Windows virtual key they name: Enter
/// 0x0D, Tab 0x09, Escape 0x1B, Backspace 0x08, Delete 0x2E, Insert 0x2D,
/// Home 0x24, End 0x23, Page Up 0x21, Page Down 0x22, and the arrows Left
/// 0x25, Up 0x26, Right 0x27, Down 0x28; a single letter presses its
/// upper-case code and a single digit its own. Two names longer than one
/// character press the same key only when they name the same key.
pub proof fn lemma_named_keys_press_their_virtual_keys()
    ensures
        forall|k: Seq<char>| #[trigger] ascii_lower(k) == "enter"@ ==> named_vk(k) == Some(0x0Du16),
        forall|k: Seq<char>| #[trigger] ascii_lower(k) == "tab"@ ==> named_vk(k) == Some(0x09u16),
        forall|k: Seq<char>| #[trigger] ascii_lower(k) == "escape"@ ==> named_vk(k) == Some(0x1Bu16),
        forall|k: Seq<char>| #[trigger] ascii_lower(k) == "backspace"@ ==> named_vk(k) == Some(0x08u16),
        forall|k: Seq<char>| #[trigger] ascii_lower(k) == "delete"@ ==> named_vk(k) == Some(0x2Eu16),
        forall|k: Seq<char>| #[trigger] ascii_lower(k) == "insert"@ ==> named_vk(k) == Some(0x2Du16),
        forall|k: Seq<char>| #[trigger] ascii_lower(k) == "home"@ ==> named_vk(k) == Some(0x24u16),
        forall|k: Seq<char>| #[trigger] ascii_lower(k) == "end"@ ==> named_vk(k) == Some(0x23u16),
        forall|k: Seq<char>| #[trigger] ascii_lower(k) == "pageup"@ ==> named_vk(k) == Some(0x21u16),
        forall|k: Seq<char>| #[trigger] ascii_lower(k) == "pagedown"@ ==> named_vk(k) == Some(0x22u16),
        forall|k: Seq<char>| #[trigger] ascii_lower(k) == "left"@ ==> named_vk(k) == Some(0x25u16),
        forall|k: Seq<char>| #[trigger] ascii_lower(k) == "up"@ ==> named_vk(k) == Some(0x26u16),
        forall|k: Seq<char>| #[trigger] ascii_lower(k) == "right"@ ==> named_vk(k) == Some(0x27u16),
        forall|k: Seq<char>| #[trigger] ascii_lower(k) == "down"@ ==> named_vk(k) == Some(0x28u16),
        forall|c: char| 'a' <= c <= 'z' ==> #[trigger] named_vk(seq![c]) == Some(((c as u32) - 32) as u16),
        forall|c: char| 'A' <= c <= 'Z' ==> #[trigger] named_vk(seq![c]) == Some(c as u16),
        forall|c: char| '0' <= c <= '9' ==> #[trigger] named_vk(seq![c]) == Some(c as u16),
        forall|a: Seq<char>, b: Seq<char>|
            a.len() >= 2 && b.len() >= 2 && #[trigger] named_vk(a) is Some && named_vk(a) == #[trigger] named_vk(b)
                ==> same_key_name(ascii_lower(a), ascii_lower(b)),
{
    reveal_strlit("enter");
    reveal_strlit("tab");
    reveal_strlit("escape");
    reveal_strlit("esc");
    reveal_strlit("backspace");
    reveal_strlit("delete");
    reveal_strlit("del");
    reveal_strlit("insert");
    reveal_strlit("ins");
    reveal_strlit("home");
    reveal_strlit("end");
    reveal_strlit("pageup");
    reveal_strlit("page_up");
    reveal_strlit("page-up");
    reveal_strlit("pgup");
    reveal_strlit("pagedown");
    reveal_strlit("page_down");
    reveal_strlit("page-down");
    reveal_strlit("pgdn");
    reveal_strlit("up");
    reveal_strlit("down");
    reveal_strlit("left");
    reveal_strlit("right");
    assert("enter"@.len() == 5);
    assert("tab"@.len() == 3);
    assert("escape"@.len() == 6);
    assert("esc"@.len() == 3);
    assert("backspace"@.len() == 9);
    assert("delete"@.len() == 6);
    assert("del"@.len() == 3);
    assert("insert"@.len() == 6);
    assert("ins"@.len() == 3);
    assert("home"@.len() == 4);
    assert("end"@.len() == 3);
    assert("pageup"@.len() == 6);
    assert("page_up"@.len() == 7);
    assert("page-up"@.len() == 7);
    assert("pgup"@.len() == 4);
    assert("pagedown"@.len() == 8);
    assert("page_down"@.len() == 9);
    assert("page-down"@.len() == 9);
    assert("pgdn"@.len() == 4);
    assert("up"@.len() == 2);
    assert("down"@.len() == 4);
    assert("left"@.len() == 4);
    assert("right"@.len() == 5);
    assert("enter"@[0] != "right"@[0]);
    assert("tab"@[0] != "esc"@[0]);
    assert("tab"@[0] != "del"@[0]);
    assert("tab"@[0] != "ins"@[0]);
    assert("tab"@[0] != "end"@[0]);
    assert("escape"@[0] != "delete"@[0]);
    assert("escape"@[0] != "insert"@[0]);
    assert("escape"@[0] != "pageup"@[0]);
    assert("esc"@[0] != "del"@[0]);
    assert("esc"@[0] != "ins"@[0]);
    assert("esc"@[1] != "end"@[1]);
    assert("backspace"@[0] != "page_down"@[0]);
    assert("backspace"@[0] != "page-down"@[0]);
    assert("delete"@[0] != "insert"@[0]);
    assert("delete"@[0] != "pageup"@[0]);
    assert("del"@[0] != "ins"@[0]);
    assert("del"@[0] != "end"@[0]);
    assert("insert"@[0] != "pageup"@[0]);
    assert("ins"@[0] != "end"@[0]);
    assert("home"@[0] != "pgup"@[0]);
    assert("home"@[0] != "pgdn"@[0]);
    assert("home"@[0] != "down"@[0]);
    assert("home"@[0] != "left"@[0]);
    assert("page_up"@[4] != "page-up"@[4]);
    assert("pgup"@[2] != "pgdn"@[2]);
    assert("pgup"@[0] != "down"@[0]);
    assert("pgup"@[0] != "left"@[0]);
    assert("page_down"@[4] != "page-down"@[4]);
    assert("pgdn"@[0] != "down"@[0]);
    assert("pgdn"@[0] != "left"@[0]);
    assert("down"@[0] != "left"@[0]);
    assert forall|c: char| 'a' <= c <= 'z' implies #[trigger] named_vk(seq![c]) == Some(((c as u32) - 32) as u16) by {
        let l = ascii_lower(seq![c]);
        assert(l.len() == 1 && l[0] == c);
    }
    assert forall|c: char| 'A' <= c <= 'Z' implies #[trigger] named_vk(seq![c]) == Some(c as u16) by {
        let l = ascii_lower(seq![c]);
        assert(l.len() == 1 && l[0] == lower_char(c));
    }
    assert forall|c: char| '0' <= c <= '9' implies #[trigger] named_vk(seq![c]) == Some(c as u16) by {
        let l = ascii_lower(seq![c]);
        assert(l.len() == 1 && l[0] == c);
    }
    assert forall|a: Seq<char>, b: Seq<char>|
        a.len() >= 2 && b.len() >= 2 && #[trigger] named_vk(a) is Some && named_vk(a) == #[trigger] named_vk(b)
            implies same_key_name(ascii_lower(a), ascii_lower(b)) by {
        assert(ascii_lower(a).len() == a.len());
        assert(ascii_lower(b).len() == b.len());
    }
}

/// Modifier names, in any case, press their Windows virtual keys: Ctrl (or
/// Control) 0x11, Alt 0x12, Shift 0x10; no other name is a modifier.
pub proof fn lemma_modifiers_press_their_virtual_keys()
    ensures
        forall|m: Seq<char>| #[trigger] ascii_lower(m) == "ctrl"@ ==> modifier_vk(m) == Some(0x11u16),
        forall|m: Seq<char>| #[trigger] ascii_lower(m) == "control"@ ==> modifier_vk(m) == Some(0x11u16),
        forall|m: Seq<char>| #[trigger] ascii_lower(m) == "alt"@ ==> modifier_vk(m) == Some(0x12u16),
        forall|m: Seq<char>| #[trigger] ascii_lower(m) == "shift"@ ==> modifier_vk(m) == Some(0x10u16),
        forall|m: Seq<char>|
            #[trigger] modifier_vk(m) is Some ==> ascii_lower(m) == "ctrl"@ || ascii_lower(m) == "control"@
                || ascii_lower(m) == "alt"@ || ascii_lower(m) == "shift"@,
{
    reveal_strlit("ctrl");
    reveal_strlit("control");
    reveal_strlit("alt");
    reveal_strlit("shift");
    assert("ctrl"@.len() == 4);
    assert("control"@.len() == 7);
    assert("alt"@.len() == 3);
    assert("shift"@.len() == 5);
}

/// The pair of input flags (button down, button up) that clicks a mouse
/// button: left, right and middle, named exactly.
pub open spec fn mouse_button_spec(button: Seq<char>) -> Option<(u32, u32)> {
    if button == "left"@ {
        Some((0x0002u32, 0x0004u32))
    } else if button == "right"@ {
        Some((0x0008u32, 0x0010u32))
    } else if button == "middle"@ {
        Some((0x0020u32, 0x0040u32))
    } else {
        None
    }
}

/// The down and up input flags of a mouse button, or why there are none.
pub fn mouse_button_flags(button: &str) -> (r: Result<(u32, u32), String>)
    ensures
        match mouse_button_spec(button@) {
            Some(flags) => r == Ok::<(u32, u32), String>(flags),
            None => r matches Err(e) && e@ == "unsupported mouse button: "@ + button@,
        },
{
    if str_eq(button, "left") {
        Ok((0x0002, 0x0004))
    } else if str_eq(button, "right") {
        Ok((0x0008, 0x0010))
    } else if str_eq(button, "middle") {
        Ok((0x0020, 0x0040))
    } else {
        let mut e = "unsupported mouse button: ".to_owned();
        e.append(button);
        Err(e)
    }
}

/// The virtual-key code of a modifier, or why there is none.
pub fn modifier_key(name: &str) -> (r: Result<u16, String>)
    ensures
        match modifier_vk(name@) {
            Some(vk) => r == Ok::<u16, String>(vk),
            None => r matches Err(e) && e@ == "unsupported modifier key: "@ + ascii_lower(name@),
        },
{
    let l = lower_text(name);
    let t = l.as_str();
    if str_eq(t, "ctrl") || str_eq(t, "control") {
        Ok(0x11)
    } else if str_eq(t, "alt") {
        Ok(0x12)
    } else if str_eq(t, "shift") {
        Ok(0x10)
    } else {
        let mut e = "unsupported modifier key: ".to_owned();
        e.append(t);
        Err(e)
    }
}

/// The virtual-key code of a key, or why there is none.
pub fn named_key(name: &str) -> (r: Result<u16, String>)
    ensures
        match named_vk(name@) {
            Some(vk) => r == Ok::<u16, String>(vk),
            None => r matches Err(e) && e@ == "unsupported key: "@ + ascii_lower(name@),
        },
{
    let l = lower_text(name);
    let t = l.as_str();
    if str_eq(t, "enter") {
        Ok(0x0D)
    } else if str_eq(t, "tab") {
        Ok(0x09)
    } else if str_eq(t, "escape") || str_eq(t, "esc") {
        Ok(0x1B)
    } else if str_eq(t, "backspace") {
        Ok(0x08)
    } else if str_eq(t, "delete") || str_eq(t, "del") {
        Ok(0x2E)
    } else if str_eq(t, "insert") || str_eq(t, "ins") {
        Ok(0x2D)
    } else if str_eq(t, "home") {
        Ok(0x24)
    } else if str_eq(t, "end") {
        Ok(0x23)
    } else if str_eq(t, "pageup") || str_eq(t, "page_up") || str_eq(t, "page-up") || str_eq(t, "pgup") {
        Ok(0x21)
    } else if str_eq(t, "pagedown") || str_eq(t, "page_down") || str_eq(t, "page-down") || str_eq(t, "pgdn") {
        Ok(0x22)
    } else if str_eq(t, "up") {
        Ok(0x26)
    } else if str_eq(t, "down") {
        Ok(0x28)
    } else if str_eq(t, "left") {
        Ok(0x25)
    } else if str_eq(t, "right") {
        Ok(0x27)
    } else {
        let v = to_chars(t);
        if v.len() == 1 && (v[0] as u32) < 0x80 {
            let c = crate::text::upper_char_exec(v[0]);
            Ok(c as u32 as u16)
        } else {
            let mut e = "unsupported key: ".to_owned();
            e.append(t);
            Err(e)
        }
    }
}

/// One keyboard event: a virtual key going down or up.
#[derive(Debug, Clone, Copy, PartialEq, Eq, Structural)]
pub struct KeyInput {
    pub vk: u16,
    pub key_up: bool,
}

/// The modifiers pressed, in order.
pub open spec fn modifier_downs(ms: Seq<Seq<char>>) -> Seq<KeyInput> {
    Seq::new(ms.len(), |i: int| KeyInput { vk: modifier_vk(ms[i])->0, key_up: false })
}

/// The modifiers released, in reverse order.
pub open spec fn modifier_ups(ms: Seq<Seq<char>>) -> Seq<KeyInput> {
    Seq::new(ms.len(), |i: int| KeyInput { vk: modifier_vk(ms[ms.len() - 1 - i])->0, key_up: true })
}

/// `j` is the first modifier without a key code.
pub open spec fn first_bad_modifier(ms: Seq<Seq<char>>, j: int) -> bool {
    &&& 0 <= j < ms.len()
    &&& modifier_vk(ms[j]) is None
    &&& forall|i: int| 0 <= i < j ==> modifier_vk(#[trigger] ms[i]) is Some
}

/// The events that press a key combination, and the error that stops them:
/// each modifier goes down in order (stopping at the first unknown one),
/// then the key goes down and up (unless it is unknown), then the modifiers
/// go up in reverse order.
pub open spec fn key_plan_ok(key: Seq<char>, events: Seq<KeyInput>, error: Option<Seq<char>>) -> bool {
    let parts = key_parts(key);
    let ms = parts.drop_last();
    let k = parts.last();
    if exists|j: int| 0 <= j < ms.len() && modifier_vk(#[trigger] ms[j]) is None {
        exists|j: int|
            first_bad_modifier(ms, j) && events == modifier_downs(#[trigger] ms.take(j)) && error == Some(
                "unsupported modifier key: "@ + ascii_lower(ms[j]),
            )
    } else {
        match named_vk(k) {
            None => events == modifier_downs(ms) && error == Some("unsupported key: "@ + ascii_lower(k)),
            Some(vk) => events == modifier_downs(ms) + seq![
                KeyInput { vk, key_up: false },
                KeyInput { vk, key_up: true },
            ] + modifier_ups(ms) && error is None,
        }
    }
}

/// The keyboard events that press a key combination such as `Ctrl+Shift+T`,
/// and the error that stops them part way, if a name is unknown.
pub fn key_press_events(key: &str) -> (r: (Vec<KeyInput>, Option<String>))
    ensures
        key_plan_ok(key@, r.0@, match r.1 {
            Some(e) => Some(e@),
            None => None,
        }),
{
    let parts = split_trimmed(key, '+');
    proof {
        lemma_split_char_nonempty(key@, '+');
    }
    let ghost ps = key_parts(key@);
    let ghost ms = ps.drop_last();
    let n = parts.len();
    let mut events: Vec<KeyInput> = Vec::new();
    let mut vks: Vec<u16> = Vec::new();
    let mut i: usize = 0;
    while i + 1 < n
        invariant
            n == parts@.len(),
            n >= 1,
            i + 1 <= n,
            ps == key_parts(key@),
            ms == ps.drop_last(),
            ps.len() == n,
            forall|j: int| 0 <= j < n ==> #[trigger] parts@[j]@ == ps[j],
            forall|j: int| 0 <= j < i ==> modifier_vk(#[trigger] ms[j]) is Some,
            events@ == modifier_downs(ms.take(i as int)),
            vks@.len() == i,
            forall|j: int| 0 <= j < i ==> modifier_vk(ms[j]) == Some(#[trigger] vks@[j]),
        decreases n - i,
    {
        match modifier_key(parts[i].as_str()) {
            Ok(vk) => {
                events.push(KeyInput { vk, key_up: false });
                vks.push(vk);
                i = i + 1;
                assert(events@ =~= modifier_downs(ms.take(i as int)));
            },
            Err(e) => {
                proof {
                    assert(parts@[i as int]@ == ms[i as int]);
                    assert(modifier_vk(ms[i as int]) is None);
                    assert(first_bad_modifier(ms, i as int));
                    assert(events@ == modifier_downs(ms.take(i as int)));
                    assert(key_plan_ok(key@, events@, Some(e@)));
                }
                return (events, Some(e));
            },
        }
    }
    assert(ms.take(i as int) =~= ms);
    let last = parts[n - 1].as_str();
    match named_key(last) {
        Err(e) => {
            proof {
                assert(!exists|j: int| 0 <= j < ms.len() && modifier_vk(#[trigger] ms[j]) is None);
                assert(last@ == ps.last());
                assert(key_plan_ok(key@, events@, Some(e@)));
            }
            return (events, Some(e));
        },
        Ok(vk) => {
            assert(last@ == ps.last());
            events.push(KeyInput { vk, key_up: false });
            events.push(KeyInput { vk, key_up: true });
            assert(named_vk(ps.last()) == Some(vk));
            assert(events@ =~= modifier_downs(ms) + seq![KeyInput { vk, key_up: false }, KeyInput { vk, key_up: true }]);
        },
    }
    let ghost pressed = events@;
    let mut k: usize = vks.len();
    while k > 0
        invariant
            k <= vks@.len(),
            vks@.len() == ms.len(),
            forall|j: int| 0 <= j < ms.len() ==> modifier_vk(ms[j]) == Some(#[trigger] vks@[j]),
            events@ == pressed + modifier_ups(ms).take(ms.len() - k),
        decreases k,
    {
        k = k - 1;
        events.push(KeyInput { vk: vks[k], key_up: true });
        assert(modifier_ups(ms)[ms.len() - 1 - k] == KeyInput { vk: vks@[k as int], key_up: true });
        assert(events@ =~= pressed + modifier_ups(ms).take(ms.len() - k));
    }
    assert(modifier_ups(ms).take(ms.len() as int) =~= modifier_ups(ms));
    assert(!exists|j: int| 0 <= j < ms.len() && modifier_vk(#[trigger] ms[j]) is None);
    assert(key_plan_ok(key@, events@, None));
    (events, None)
}

/// A key combination that is pressed in full releases every modifier it
/// pressed, in the reverse order, after pressing and releasing the key.
pub proof fn lemma_modifiers_released_in_reverse(key: Seq<char>, events: Seq<KeyInput>)
    requires
        key_plan_ok(key, events, None),
    ensures
        ({
            let ms = key_parts(key).drop_last();
            &&& events.len() == 2 * ms.len() + 2
            &&& forall|i: int|
                0 <= i < ms.len() ==> #[trigger] events[i].vk == events[events.len() - 1 - i].vk && !events[i].key_up
                    && events[events.len() - 1 - i].key_up
            &&& events[ms.len() as int].vk == events[ms.len() as int + 1].vk
            &&& !events[ms.len() as int].key_up && events[ms.len() as int + 1].key_up
        }),
{
    let ms = key_parts(key).drop_last();
    if exists|j: int| 0 <= j < ms.len() && modifier_vk(#[trigger] ms[j]) is None {
        let j = choose|j: int| first_bad_modifier(ms, j) && events == modifier_downs(#[trigger] ms.take(j)) && Some::<Seq<char>>(
            "unsupported modifier key: "@ + ascii_lower(ms[j]),
        ) == None::<Seq<char>>;
        assert(false);
    }
}


/// The UTF-16 code units of one character: itself below `0x10000`, else a
/// surrogate pair.
pub open spec fn utf16_of(c: char) -> Seq<u16> {
    let v = c as u32;
    if v < 0x10000 {
        seq![v as u16]
    } else {
        let w = v - 0x10000;
        seq![(0xD800 + w / 0x400) as u16, (0xDC00 + w % 0x400) as u16]
    }
}

/// `str::encode_utf16`.
pub open spec fn utf16_spec(s: Seq<char>) -> Seq<u16>
    decreases s.len(),
{
    if s.len() == 0 {
        Seq::empty()
    } else {
        utf16_spec(s.drop_last()) + utf16_of(s.last())
    }
}

/// The UTF-16 code units typed, one key press each, to enter `text`.
pub fn utf16_units(text: &str) -> (r: Vec<u16>)
    ensures
        r@ == utf16_spec(text@),
{
    let chars = to_chars(text);
    let mut out: Vec<u16> = Vec::new();
    let mut i: usize = 0;
    while i < chars.len()
        invariant
            chars@ == text@,
            i <= chars@.len(),
            out@ == utf16_spec(text@.take(i as int)),
        decreases chars@.len() - i,
    {
        let c = chars[i];
        assert(text@.take(i + 1).drop_last() =~= text@.take(i as int));
        let v = c as u32;
        proof {
            vstd::utf8::char_is_scalar(c);
        }
        if v < 0x10000 {
            out.push(v as u16);
        } else {
            let w = v - 0x10000;
            out.push((0xD800 + w / 0x400) as u16);
            out.push((0xDC00 + w % 0x400) as u16);
        }
        i = i + 1;
        assert(out@ =~= utf16_spec(text@.take(i as int)));
    }
    assert(text@.take(i as int) =~= text@);
    out
}

} // verus!
