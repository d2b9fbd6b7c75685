//! Finding the keyboards and pointing devices listed in the kernel's input
//! device table (the text of `/proc/bus/input/devices`).
//!
//! The table holds one block per device, blocks separated by an empty line.
//! Within a block, `H: Handlers=` lists the device's handlers (its event node
//! among them), `B: EV=` gives its event-type bitmap in hexadecimal, and
//! `B: KEY=` its key bitmap as hexadecimal words, highest keys first.
use vstd::prelude::*;
use crate::scan::{chars_of, copy_range, has_prefix, lines, parse_hex, parse_hex_u64, split_lines, split_words, starts_with, tokens, trim, trim_bounds};
use crate::text::push_char;

verus! {

pub open spec fn handlers_tag() -> Seq<char> {
    "H: Handlers="@
}

pub open spec fn ev_tag() -> Seq<char> {
    "B: EV="@
}

pub open spec fn key_tag() -> Seq<char> {
    "B: KEY="@
}

/// The first word of `ws` that begins with `p`.
pub open spec fn first_with_prefix(ws: Seq<Seq<char>>, p: Seq<char>) -> Option<Seq<char>>
    decreases ws.len(),
{
    if ws.len() == 0 {
        None
    } else if starts_with(ws[0], p) {
        Some(ws[0])
    } else {
        first_with_prefix(ws.drop_first(), p)
    }
}

/// The device node of a block whose handler list is `handlers`: `/dev/input/`
/// followed by its first handler named `event...`.
pub open spec fn event_node(handlers: Seq<char>) -> Option<Seq<char>> {
    match first_with_prefix(tokens(handlers), "event"@) {
        Some(w) => Some("/dev/input/"@ + w),
        None => None,
    }
}

/// The event-type bitmap of a block, 0 when it does not parse.
pub open spec fn ev_value(ev_bits: Seq<char>) -> u64 {
    match parse_hex_u64(trim(ev_bits)) {
        Some(v) => v,
        None => 0,
    }
}

/// A block is a keyboard when it reports key events (bit 1), no relative axes
/// (bit 2, which every mouse has), and has the Escape key (bit 1 of the lowest
/// key word).
pub open spec fn is_keyboard(ev: u64, key_low: u64) -> bool {
    ev & 2 != 0 && ev & 4 == 0 && key_low & 2 != 0
}

/// A block is a pointing device when it reports relative axes (bit 2).
pub open spec fn is_pointer(ev: u64) -> bool {
    ev & 4 != 0
}

/// `found` with the block's device node added, when it has one.
pub open spec fn with_node(found: Seq<Seq<char>>, handlers: Seq<char>) -> Seq<Seq<char>> {
    match event_node(handlers) {
        Some(n) => found.push(n),
        None => found,
    }
}

/// What the keyboard scan keeps: the current block's handler list, its
/// event-type text, the lowest word of its key bitmap, and the nodes found.
pub open spec fn keyboard_step(
    st: (Seq<char>, Seq<char>, u64, Seq<Seq<char>>),
    line: Seq<char>,
) -> (Seq<char>, Seq<char>, u64, Seq<Seq<char>>) {
    if starts_with(line, handlers_tag()) {
        (line.skip(handlers_tag().len() as int), st.1, st.2, st.3)
    } else if starts_with(line, ev_tag()) {
        (st.0, line.skip(ev_tag().len() as int), st.2, st.3)
    } else if starts_with(line, key_tag()) {
        // The last word covers key codes 0 to 63.
        let words = tokens(line.skip(key_tag().len() as int));
        if words.len() > 0 {
            let low = match parse_hex_u64(words.last()) {
                Some(v) => v,
                None => 0,
            };
            (st.0, st.1, low, st.3)
        } else {
            st
        }
    } else if line.len() == 0 {
        let found = if is_keyboard(ev_value(st.1), st.2) {
            with_node(st.3, st.0)
        } else {
            st.3
        };
        (seq![], seq![], 0, found)
    } else {
        st
    }
}

pub open spec fn keyboard_scan(ls: Seq<Seq<char>>) -> (Seq<char>, Seq<char>, u64, Seq<Seq<char>>)
    decreases ls.len(),
{
    if ls.len() == 0 {
        (seq![], seq![], 0, seq![])
    } else {
        keyboard_step(keyboard_scan(ls.drop_last()), ls.last())
    }
}

/// The device nodes of all keyboards in the table `content`, in table order.
pub open spec fn keyboards(content: Seq<char>) -> Seq<Seq<char>> {
    keyboard_scan(lines(content)).3
}

/// What the pointer scan keeps: the current block's handler list, its
/// event-type text, and the nodes found.
pub open spec fn pointer_step(
    st: (Seq<char>, Seq<char>, Seq<Seq<char>>),
    line: Seq<char>,
) -> (Seq<char>, Seq<char>, Seq<Seq<char>>) {
    if starts_with(line, handlers_tag()) {
        (line.skip(handlers_tag().len() as int), st.1, st.2)
    } else if starts_with(line, ev_tag()) {
        (st.0, line.skip(ev_tag().len() as int), st.2)
    } else if line.len() == 0 {
        let found = if is_pointer(ev_value(st.1)) {
            with_node(st.2, st.0)
        } else {
            st.2
        };
        (seq![], seq![], found)
    } else {
        st
    }
}

pub open spec fn pointer_scan(ls: Seq<Seq<char>>) -> (Seq<char>, Seq<char>, Seq<Seq<char>>)
    decreases ls.len(),
{
    if ls.len() == 0 {
        (seq![], seq![], seq![])
    } else {
        pointer_step(pointer_scan(ls.drop_last()), ls.last())
    }
}

/// The device nodes of all pointing devices in the table `content`, in table order.
pub open spec fn pointers(content: Seq<char>) -> Seq<Seq<char>> {
    pointer_scan(lines(content)).2
}

/// The strings of `v` are the character sequences `s`.
pub open spec fn strings_are(v: Seq<String>, s: Seq<Seq<char>>) -> bool {
    v.len() == s.len() && forall|k: int| 0 <= k < v.len() ==> (#[trigger] v[k])@ == s[k]
}

/// The device node of the handler list `handlers`, if it names an event handler.
fn find_event_node(handlers: &[char]) -> (r: Option<String>)
    ensures
        match event_node(handlers@) {
            Some(n) => r matches Some(s) && s@ == n,
            None => r is None,
        },
{
    let words = split_words(handlers);
    let ghost ws = tokens(handlers@);
    let event = chars_of("event");
    let mut i: usize = 0;
    assert(ws.skip(0) =~= ws);
    while i < words.len()
        invariant
            ws == tokens(handlers@),
            words@.len() == ws.len(),
            forall|k: int| 0 <= k < words@.len() ==> (#[trigger] words@[k])@ == ws[k],
            event@ == "event"@,
            i <= ws.len(),
            first_with_prefix(ws, "event"@) == first_with_prefix(ws.skip(i as int), "event"@),
        decreases ws.len() - i,
    {
        assert(ws.skip(i as int)[0] == ws[i as int]);
        if has_prefix(words[i].as_slice(), event.as_slice()) {
            let mut node: String = "/dev/input/".to_owned();
            let w = &words[i];
            let mut j: usize = 0;
            while j < w.len()
                invariant
                    j <= w@.len(),
                    node@ == "/dev/input/"@ + w@.take(j as int),
                decreases w@.len() - j,
            {
                push_char(&mut node, w[j]);
                assert(w@.take(j + 1) =~= w@.take(j as int).push(w@[j as int]));
                j += 1;
            }
            assert(w@.take(j as int) =~= w@);
            assert(starts_with(ws.skip(i as int)[0], "event"@));
            assert(first_with_prefix(ws.skip(i as int), "event"@) == Some(ws[i as int]));
            return Some(node);
        }
        assert(ws.skip(i as int).drop_first() =~= ws.skip(i + 1));
        i += 1;
    }
    assert(ws.skip(i as int) =~= Seq::<Seq<char>>::empty());
    None
}

/// Keyboards (devices with key events and the Escape key, and no relative
/// axes) in the input device table `content`, as `/dev/input/eventN` paths.
pub fn find_keyboards(content: &str) -> (r: Vec<String>)
    ensures
        strings_are(r@, keyboards(content@)),
{
    let cs = chars_of(content);
    let ls = split_lines(cs.as_slice());
    let ghost all = lines(content@);
    let h_tag = chars_of("H: Handlers=");
    let e_tag = chars_of("B: EV=");
    let k_tag = chars_of("B: KEY=");
    let mut handlers: Vec<char> = Vec::new();
    let mut ev_bits: Vec<char> = Vec::new();
    let mut key_low: u64 = 0;
    let mut found: Vec<String> = Vec::new();
    let mut i: usize = 0;
    assert(all.take(0) =~= Seq::<Seq<char>>::empty());
    while i < ls.len()
        invariant
            ls@.len() == all.len(),
            forall|k: int| 0 <= k < ls@.len() ==> (#[trigger] ls@[k])@ == all[k],
            h_tag@ == handlers_tag(),
            e_tag@ == ev_tag(),
            k_tag@ == key_tag(),
            i <= all.len(),
            keyboard_scan(all.take(i as int)).0 == handlers@,
            keyboard_scan(all.take(i as int)).1 == ev_bits@,
            keyboard_scan(all.take(i as int)).2 == key_low,
            strings_are(found@, keyboard_scan(all.take(i as int)).3),
        decreases all.len() - i,
    {
        let line = &ls[i];
        let ghost before = keyboard_scan(all.take(i as int));
        assert(all.take(i + 1).drop_last() =~= all.take(i as int));
        assert(all.take(i + 1).last() == line@);
        if has_prefix(line.as_slice(), h_tag.as_slice()) {
            handlers = copy_range(line.as_slice(), h_tag.len(), line.len());
            assert(handlers@ =~= line@.skip(h_tag@.len() as int));
        } else if has_prefix(line.as_slice(), e_tag.as_slice()) {
            ev_bits = copy_range(line.as_slice(), e_tag.len(), line.len());
            assert(ev_bits@ =~= line@.skip(e_tag@.len() as int));
        } else if has_prefix(line.as_slice(), k_tag.as_slice()) {
            let rest = copy_range(line.as_slice(), k_tag.len(), line.len());
            assert(rest@ =~= line@.skip(k_tag@.len() as int));
            let words = split_words(rest.as_slice());
            if words.len() > 0 {
                let last = &words[words.len() - 1];
                key_low = match parse_hex(last.as_slice(), 0, last.len()) {
                    Some(v) => v,
                    None => 0,
                };
                assert(last@.subrange(0, last@.len() as int) =~= last@);
            }
        } else if line.len() == 0 {
            let (a, b) = trim_bounds(ev_bits.as_slice());
            let ev: u64 = match parse_hex(ev_bits.as_slice(), a, b) {
                Some(v) => v,
                None => 0,
            };
            if ev & 2 != 0 && ev & 4 == 0 && key_low & 2 != 0 {
                match find_event_node(handlers.as_slice()) {
                    Some(node) => {
                        found.push(node);
                    },
                    None => {},
                }
            }
            handlers = Vec::new();
            ev_bits = Vec::new();
            key_low = 0;
        }
        proof {
            let after = keyboard_step(before, line@);
            assert(handlers@ =~= after.0);
            assert(ev_bits@ =~= after.1);
            assert(strings_are(found@, after.3));
        }
        i += 1;
    }
    assert(all.take(i as int) =~= all);
    found
}

/// Pointing devices (devices with relative axes: mice and touchpads) in the
/// input device table `content`, as `/dev/input/eventN` paths.
pub fn find_mice(content: &str) -> (r: Vec<String>)
    ensures
        strings_are(r@, pointers(content@)),
{
    let cs = chars_of(content);
    let ls = split_lines(cs.as_slice());
    let ghost all = lines(content@);
    let h_tag = chars_of("H: Handlers=");
    let e_tag = chars_of("B: EV=");
    let mut handlers: Vec<char> = Vec::new();
    let mut ev_bits: Vec<char> = Vec::new();
    let mut found: Vec<String> = Vec::new();
    let mut i: usize = 0;
    assert(all.take(0) =~= Seq::<Seq<char>>::empty());
    while i < ls.len()
        invariant
            ls@.len() == all.len(),
            forall|k: int| 0 <= k < ls@.len() ==> (#[trigger] ls@[k])@ == all[k],
            h_tag@ == handlers_tag(),
            e_tag@ == ev_tag(),
            i <= all.len(),
            pointer_scan(all.take(i as int)).0 == handlers@,
            pointer_scan(all.take(i as int)).1 == ev_bits@,
            strings_are(found@, pointer_scan(all.take(i as int)).2),
        decreases all.len() - i,
    {
        let line = &ls[i];
        let ghost before = pointer_scan(all.take(i as int));
        assert(all.take(i + 1).drop_last() =~= all.take(i as int));
        assert(all.take(i + 1).last() == line@);
        if has_prefix(line.as_slice(), h_tag.as_slice()) {
            handlers = copy_range(line.as_slice(), h_tag.len(), line.len());
            assert(handlers@ =~= line@.skip(h_tag@.len() as int));
        } else if has_prefix(line.as_slice(), e_tag.as_slice()) {
            ev_bits = copy_range(line.as_slice(), e_tag.len(), line.len());
            assert(ev_bits@ =~= line@.skip(e_tag@.len() as int));
        } else if line.len() == 0 {
            let (a, b) = trim_bounds(ev_bits.as_slice());
            let ev: u64 = match parse_hex(ev_bits.as_slice(), a, b) {
                Some(v) => v,
                None => 0,
            };
            if ev & 4 != 0 {
                match find_event_node(handlers.as_slice()) {
                    Some(node) => {
                        found.push(node);
                    },
                    None => {},
                }
            }
            handlers = Vec::new();
            ev_bits = Vec::new();
        }
        proof {
            let after = pointer_step(before, line@);
            assert(handlers@ =~= after.0);
            assert(ev_bits@ =~= after.1);
            assert(strings_are(found@, after.2));
        }
        i += 1;
    }
    assert(all.take(i as int) =~= all);
    found
}

} // verus!
