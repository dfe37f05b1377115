//! COSMIC's custom-shortcut file (a RON map): finding its entries, reading
//! their modifiers, key and spawned command, and rewriting chosen entries in
//! place while every other byte stays as it was.
//!
//! Positions are character indices into the file's text.

use vstd::prelude::*;
use crate::runner::CmdResult;
use crate::text::{
    chars_of, chars_of_string, eq, eq_str, extend, extend_str, find, find_char, is_ws,
    lemma_deep_view_chars, push_piece, split_char, string_of, subseq, to_string, trim, trim_start,
    trim_start_exec,
};

verus! {

// ---------------------------------------------------------------- the map's braces

/// Where the map that starts at the first `{` closes: a `}` outside quoted
/// strings that brings the brace depth back to zero.
pub open spec fn close_from(s: Seq<char>, i: int, depth: nat, quoted: bool, escaped: bool) -> Option<int>
    decreases s.len() - i,
{
    if i < 0 || i >= s.len() {
        None
    } else {
        let ch = s[i];
        if quoted {
            if escaped {
                close_from(s, i + 1, depth, true, false)
            } else if ch == '\\' {
                close_from(s, i + 1, depth, true, true)
            } else if ch == '"' {
                close_from(s, i + 1, depth, false, false)
            } else {
                close_from(s, i + 1, depth, true, false)
            }
        } else if ch == '"' {
            close_from(s, i + 1, depth, true, false)
        } else if ch == '{' {
            close_from(s, i + 1, depth + 1, false, false)
        } else if ch == '}' {
            if depth == 0 {
                None
            } else if depth == 1 {
                Some(i)
            } else {
                close_from(s, i + 1, (depth - 1) as nat, false, false)
            }
        } else {
            close_from(s, i + 1, depth, false, false)
        }
    }
}

pub open spec fn spec_shortcut_map_bounds(s: Seq<char>) -> Option<(int, int)> {
    match find_char(s, '{') {
        None => None,
        Some(open) => match close_from(s, open, 0, false, false) {
            Some(close) => Some((open, close)),
            None => None,
        },
    }
}

/// The positions of the map's opening and closing braces.
pub fn shortcut_map_bounds(s: &[char]) -> (r: Option<(usize, usize)>)
    ensures
        (match r { Some((a, b)) => Some((a as int, b as int)), None => None }) == spec_shortcut_map_bounds(s@),
        r matches Some((a, b)) ==> a < b < s.len(),
{
    let open = match crate::text::find_char_exec(s, '{') {
        None => return None,
        Some(o) => o,
    };
    proof { crate::text::lemma_find_char(s@, '{'); }
    let mut i: usize = open;
    let mut depth: usize = 0;
    let mut quoted = false;
    let mut escaped = false;
    while i < s.len()
        invariant
            open <= i <= s.len(),
            depth <= i - open,
            escaped ==> quoted,
            close_from(s@, i as int, depth as nat, quoted, escaped) == close_from(s@, open as int, 0, false, false),
            find_char(s@, '{') == Some(open as int),
        decreases s.len() - i,
    {
        let ch = s[i];
        if quoted {
            if escaped {
                escaped = false;
            } else if ch == '\\' {
                escaped = true;
            } else if ch == '"' {
                quoted = false;
            }
        } else if ch == '"' {
            quoted = true;
        } else if ch == '{' {
            depth += 1;
        } else if ch == '}' {
            if depth == 0 {
                return None;
            } else if depth == 1 {
                return Some((open, i));
            }
            depth -= 1;
        }
        i += 1;
    }
    None
}

// ---------------------------------------------------------------- entry segments

/// The segments of the map's body: cut after every comma at nesting depth
/// zero outside quoted strings; the last one ends at the closing brace.
pub open spec fn cuts_from(
    s: Seq<char>, i: int, close: int, start: int,
    parens: nat, brackets: nat, braces: nat, quoted: bool, escaped: bool,
) -> Seq<(int, int)>
    decreases close - i,
{
    if i >= close {
        seq![(start, close)]
    } else {
        let ch = s[i];
        if quoted {
            if escaped {
                cuts_from(s, i + 1, close, start, parens, brackets, braces, true, false)
            } else if ch == '\\' {
                cuts_from(s, i + 1, close, start, parens, brackets, braces, true, true)
            } else if ch == '"' {
                cuts_from(s, i + 1, close, start, parens, brackets, braces, false, false)
            } else {
                cuts_from(s, i + 1, close, start, parens, brackets, braces, true, false)
            }
        } else if ch == '"' {
            cuts_from(s, i + 1, close, start, parens, brackets, braces, true, false)
        } else if ch == '(' {
            cuts_from(s, i + 1, close, start, parens + 1, brackets, braces, false, false)
        } else if ch == ')' {
            cuts_from(s, i + 1, close, start, sat_dec(parens), brackets, braces, false, false)
        } else if ch == '[' {
            cuts_from(s, i + 1, close, start, parens, brackets + 1, braces, false, false)
        } else if ch == ']' {
            cuts_from(s, i + 1, close, start, parens, sat_dec(brackets), braces, false, false)
        } else if ch == '{' {
            cuts_from(s, i + 1, close, start, parens, brackets, braces + 1, false, false)
        } else if ch == '}' {
            cuts_from(s, i + 1, close, start, parens, brackets, sat_dec(braces), false, false)
        } else if ch == ',' && parens == 0 && brackets == 0 && braces == 0 {
            seq![(start, i + 1)] + cuts_from(s, i + 1, close, i + 1, 0, 0, 0, false, false)
        } else {
            cuts_from(s, i + 1, close, start, parens, brackets, braces, false, false)
        }
    }
}

pub open spec fn sat_dec(n: nat) -> nat {
    if n == 0 { 0 } else { (n - 1) as nat }
}

pub open spec fn entry_ranges(s: Seq<char>, open: int, close: int) -> Seq<(int, int)> {
    cuts_from(s, open + 1, close, open + 1, 0, 0, 0, false, false)
}

fn sat_dec_exec(n: usize) -> (r: usize)
    ensures
        r == sat_dec(n as nat),
{
    if n == 0 { 0 } else { n - 1 }
}

pub open spec fn ranges_view(v: Seq<(usize, usize)>) -> Seq<(int, int)> {
    v.map_values(|p: (usize, usize)| (p.0 as int, p.1 as int))
}

/// The segments between the braces at `open` and `close`.
fn entry_ranges_exec(s: &[char], open: usize, close: usize) -> (r: Vec<(usize, usize)>)
    requires
        open < close <= s.len(),
    ensures
        ranges_view(r@) == entry_ranges(s@, open as int, close as int),
        forall|k: int| 0 <= k < r@.len() ==> open < #[trigger] r@[k].0 <= r@[k].1 <= close,
        forall|j: int, k: int| 0 <= j < k < r@.len() ==> #[trigger] r@[j].1 <= #[trigger] r@[k].0,
{
    let mut acc: Vec<(usize, usize)> = Vec::new();
    let mut i: usize = open + 1;
    let mut start: usize = open + 1;
    let mut parens: usize = 0;
    let mut brackets: usize = 0;
    let mut braces: usize = 0;
    let mut quoted = false;
    let mut escaped = false;
    while i < close
        invariant
            open < start <= i <= close <= s.len(),
            parens <= i && brackets <= i && braces <= i,
            escaped ==> quoted,
            ranges_view(acc@) + cuts_from(s@, i as int, close as int, start as int,
                parens as nat, brackets as nat, braces as nat, quoted, escaped)
                == entry_ranges(s@, open as int, close as int),
            forall|k: int| 0 <= k < acc@.len() ==> open < #[trigger] acc@[k].0 <= acc@[k].1 <= start,
            forall|j: int, k: int| 0 <= j < k < acc@.len() ==> #[trigger] acc@[j].1 <= #[trigger] acc@[k].0,
        decreases close - i,
    {
        let ch = s[i];
        if quoted {
            if escaped {
                escaped = false;
            } else if ch == '\\' {
                escaped = true;
            } else if ch == '"' {
                quoted = false;
            }
        } else if ch == '"' {
            quoted = true;
        } else if ch == '(' {
            parens += 1;
        } else if ch == ')' {
            parens = sat_dec_exec(parens);
        } else if ch == '[' {
            brackets += 1;
        } else if ch == ']' {
            brackets = sat_dec_exec(brackets);
        } else if ch == '{' {
            braces += 1;
        } else if ch == '}' {
            braces = sat_dec_exec(braces);
        } else if ch == ',' && parens == 0 && brackets == 0 && braces == 0 {
            let ghost before = acc@;
            acc.push((start, i + 1));
            assert forall|j: int, k: int| 0 <= j < k < acc@.len() implies #[trigger] acc@[j].1 <= #[trigger] acc@[k].0 by {
                if k < before.len() {
                    assert(before[j].1 <= before[k].0);
                } else {
                    assert(open < before[j].0 <= before[j].1 <= start);
                }
            }
            assert forall|k: int| 0 <= k < acc@.len() implies open < #[trigger] acc@[k].0 <= acc@[k].1 <= i + 1 by {
                if k < before.len() {
                    assert(open < before[k].0 <= before[k].1 <= start);
                }
            }
            assert(ranges_view(acc@) =~= ranges_view(before).push((start as int, i + 1)));
            assert(ranges_view(acc@) + cuts_from(s@, i + 1, close as int, i + 1, 0, 0, 0, false, false)
                =~= ranges_view(before) + (seq![(start as int, i + 1)] + cuts_from(s@, i + 1, close as int, i + 1, 0, 0, 0, false, false)));
            start = i + 1;
        }
        i += 1;
    }
    let ghost before = acc@;
    acc.push((start, close));
    assert forall|j: int, k: int| 0 <= j < k < acc@.len() implies #[trigger] acc@[j].1 <= #[trigger] acc@[k].0 by {
        if k < before.len() {
            assert(before[j].1 <= before[k].0);
        } else {
            assert(open < before[j].0 <= before[j].1 <= start);
        }
    }
    assert forall|k: int| 0 <= k < acc@.len() implies open < #[trigger] acc@[k].0 <= acc@[k].1 <= close by {
        if k < before.len() {
            assert(open < before[k].0 <= before[k].1 <= start);
        }
    }
    assert(ranges_view(acc@) =~= ranges_view(before) + seq![(start as int, close as int)]);
    acc
}

// ---------------------------------------------------------------- one entry

/// A RON string's contents after its opening quote, up to the closing quote,
/// with backslash escapes resolved; `None` when it never closes.
pub open spec fn quoted_from(v: Seq<char>, i: int, escaped: bool) -> Option<Seq<char>>
    decreases v.len() - i,
{
    if i < 0 || i >= v.len() {
        None
    } else {
        let ch = v[i];
        if escaped {
            prepend(ch, quoted_from(v, i + 1, false))
        } else if ch == '\\' {
            quoted_from(v, i + 1, true)
        } else if ch == '"' {
            Some(seq![])
        } else {
            prepend(ch, quoted_from(v, i + 1, false))
        }
    }
}

pub open spec fn prepend(c: char, o: Option<Seq<char>>) -> Option<Seq<char>> {
    match o {
        Some(r) => Some(seq![c] + r),
        None => None,
    }
}

pub open spec fn prefix_opt(a: Seq<char>, o: Option<Seq<char>>) -> Option<Seq<char>> {
    match o {
        Some(r) => Some(a + r),
        None => None,
    }
}

pub open spec fn spec_parse_quoted(v: Seq<char>) -> Option<Seq<char>> {
    if v.len() > 0 && v[0] == '"' {
        quoted_from(v, 1, false)
    } else {
        None
    }
}

/// The string that `value` starts with, quotes removed and escapes resolved.
pub fn parse_quoted(v: &[char]) -> (r: Option<Vec<char>>)
    ensures
        (match r { Some(x) => Some(x@), None => None }) == spec_parse_quoted(v@),
{
    if v.len() == 0 || v[0] != '"' {
        return None;
    }
    let mut acc: Vec<char> = Vec::new();
    let mut escaped = false;
    let mut i: usize = 1;
    while i < v.len()
        invariant
            1 <= i <= v.len(),
            v@[0] == '"',
            prefix_opt(acc@, quoted_from(v@, i as int, escaped)) == quoted_from(v@, 1, false),
        decreases v.len() - i,
    {
        let ch = v[i];
        if escaped {
            let ghost a0 = acc@;
            acc.push(ch);
            assert(prefix_opt(acc@, quoted_from(v@, i + 1, false)) =~= prefix_opt(a0, prepend(ch, quoted_from(v@, i + 1, false))));
            escaped = false;
        } else if ch == '\\' {
            escaped = true;
        } else if ch == '"' {
            assert(acc@ + Seq::<char>::empty() =~= acc@);
            return Some(acc);
        } else {
            let ghost a0 = acc@;
            acc.push(ch);
            assert(prefix_opt(acc@, quoted_from(v@, i + 1, false)) =~= prefix_opt(a0, prepend(ch, quoted_from(v@, i + 1, false))));
        }
        i += 1;
    }
    None
}

/// What follows the first occurrence of `field` in `segment`, white space trimmed.
pub open spec fn after_field(segment: Seq<char>, field: Seq<char>) -> Option<Seq<char>> {
    match find(segment, field) {
        None => None,
        Some(i) => Some(trim_start(segment.skip(i + field.len()))),
    }
}

/// The non-empty, trimmed pieces between commas.
pub open spec fn list_items(parts: Seq<Seq<char>>) -> Seq<Seq<char>>
    decreases parts.len(),
{
    if parts.len() == 0 {
        seq![]
    } else if trim(parts.last()).len() == 0 {
        list_items(parts.drop_last())
    } else {
        list_items(parts.drop_last()).push(trim(parts.last()))
    }
}

/// A `[a, b]` list after `field`.  Its body starts one byte in, so a first
/// character of more than one byte gives no list.
pub open spec fn spec_field_list(segment: Seq<char>, field: Seq<char>) -> Option<Seq<Seq<char>>> {
    match after_field(segment, field) {
        None => None,
        Some(after) => match find_char(after, ']') {
            None => None,
            Some(end) => {
                if end >= 1 && (after[0] as u32) < 0x80 {
                    Some(list_items(split_char(after.subrange(1, end), ',')))
                } else {
                    None
                }
            },
        },
    }
}

pub open spec fn spec_field_string(segment: Seq<char>, field: Seq<char>) -> Option<Seq<char>> {
    match after_field(segment, field) {
        None => None,
        Some(after) => spec_parse_quoted(after),
    }
}

pub open spec fn spec_spawn_command(segment: Seq<char>) -> Option<Seq<char>> {
    spec_field_string(segment, "Spawn("@)
}

fn after_field_exec(segment: &[char], field: &str) -> (r: Option<Vec<char>>)
    ensures
        (match r { Some(x) => Some(x@), None => None }) == after_field(segment@, field@),
{
    let f = chars_of(field);
    match crate::text::find_exec(segment, f.as_slice()) {
        None => None,
        Some(i) => {
            proof { crate::text::lemma_find(segment@, f@); }
            assert(i + f.len() <= segment.len());
            let rest = subseq(segment, i + f.len(), segment.len());
            assert(rest@ =~= segment@.skip(i + field@.len()));
            Some(trim_start_exec(rest.as_slice()))
        },
    }
}

/// The items of the list after `field`.
pub fn field_list(segment: &[char], field: &str) -> (r: Option<Vec<Vec<char>>>)
    ensures
        (match r { Some(x) => Some(x.deep_view()), None => None }) == spec_field_list(segment@, field@),
{
    let after = match after_field_exec(segment, field) {
        None => return None,
        Some(a) => a,
    };
    let end = match crate::text::find_char_exec(after.as_slice(), ']') {
        None => return None,
        Some(e) => e,
    };
    proof { crate::text::lemma_find_char(after@, ']'); }
    if end < 1 || (after[0] as u32) >= 0x80 {
        return None;
    }
    let inner = subseq(after.as_slice(), 1, end);
    let parts = crate::text::split_char_exec(inner.as_slice(), ',');
    let ghost pv = parts.deep_view();
    let mut items: Vec<Vec<char>> = Vec::new();
    let mut i: usize = 0;
    assert(pv.take(0) =~= Seq::<Seq<char>>::empty());
    while i < parts.len()
        invariant
            i <= parts.len(),
            pv == parts.deep_view(),
            items.deep_view() == list_items(pv.take(i as int)),
        decreases parts.len() - i,
    {
        proof { lemma_deep_view_chars(&parts[i as int]); }
        assert(pv.take(i + 1).drop_last() =~= pv.take(i as int));
        assert(pv.take(i + 1).last() == parts@[i as int]@);
        let t = crate::text::trim_exec(parts[i].as_slice());
        if t.len() > 0 {
            push_piece(&mut items, t);
        }
        i += 1;
    }
    assert(pv.take(parts.len() as int) =~= pv);
    Some(items)
}

/// The string after `field`.
pub fn field_string(segment: &[char], field: &str) -> (r: Option<Vec<char>>)
    ensures
        (match r { Some(x) => Some(x@), None => None }) == spec_field_string(segment@, field@),
{
    match after_field_exec(segment, field) {
        None => None,
        Some(a) => parse_quoted(a.as_slice()),
    }
}

/// The command of a `Spawn("...")` action.
pub fn spawn_command(segment: &[char]) -> (r: Option<Vec<char>>)
    ensures
        (match r { Some(x) => Some(x@), None => None }) == spec_spawn_command(segment@),
{
    field_string(segment, "Spawn(")
}

/// One entry of the shortcut map: `(modifiers: [..], key: "..", ..): Action`.
#[derive(Debug)]
pub struct ShortcutEntry {
    pub modifiers: Vec<String>,
    pub key: String,
    pub spawn: Option<String>,
    /// The entry's segment of the file, as character positions.
    pub range: std::ops::Range<usize>,
}

/// An entry as the contracts see it: modifiers, key, command and segment.
pub struct EntryView {
    pub modifiers: Seq<Seq<char>>,
    pub key: Seq<char>,
    pub spawn: Option<Seq<char>>,
    pub start: int,
    pub end: int,
}

impl ShortcutEntry {
    pub open spec fn view_entry(&self) -> EntryView {
        EntryView {
            modifiers: self.modifiers@.map_values(|m: String| m@),
            key: self.key@,
            spawn: crate::text::opt_view(self.spawn),
            start: self.range.start as int,
            end: self.range.end as int,
        }
    }
}

pub open spec fn entries_view(v: Seq<ShortcutEntry>) -> Seq<EntryView> {
    v.map_values(|e: ShortcutEntry| e.view_entry())
}

pub open spec fn spec_parse_shortcut_entry(s: Seq<char>, start: int, end: int) -> Option<EntryView> {
    let segment = s.subrange(start, end);
    match spec_field_list(segment, "modifiers:"@) {
        None => None,
        Some(modifiers) => match spec_field_string(segment, "key:"@) {
            None => None,
            Some(key) => Some(EntryView {
                modifiers,
                key,
                spawn: spec_spawn_command(segment),
                start,
                end,
            }),
        },
    }
}

fn strings_of(v: Vec<Vec<char>>) -> (r: Vec<String>)
    ensures
        r@.map_values(|m: String| m@) == v.deep_view(),
{
    let mut r: Vec<String> = Vec::new();
    let mut i: usize = 0;
    while i < v.len()
        invariant
            i <= v.len(),
            r@.map_values(|m: String| m@) == v.deep_view().take(i as int),
        decreases v.len() - i,
    {
        let ghost before = r@;
        r.push(to_string(v[i].as_slice()));
        proof { lemma_deep_view_chars(&v[i as int]); }
        assert(v.deep_view()[i as int] == v@[i as int]@);
        assert(v.deep_view().take(i + 1) =~= v.deep_view().take(i as int).push(v@[i as int]@));
        assert(r@.map_values(|m: String| m@) =~= before.map_values(|m: String| m@).push(v@[i as int]@));
        i += 1;
    }
    assert(v.deep_view().take(v.len() as int) =~= v.deep_view());
    r
}

/// The entry in the segment `start..end`, when it has a modifier list and a key.
pub fn parse_shortcut_entry(s: &[char], start: usize, end: usize) -> (r: Option<ShortcutEntry>)
    requires
        start <= end <= s.len(),
    ensures
        (match r { Some(e) => Some(e.view_entry()), None => None }) == spec_parse_shortcut_entry(s@, start as int, end as int),
        r matches Some(e) ==> e.range.start == start && e.range.end == end,
{
    let segment = subseq(s, start, end);
    let modifiers = match field_list(segment.as_slice(), "modifiers:") {
        None => return None,
        Some(m) => m,
    };
    let key = match field_string(segment.as_slice(), "key:") {
        None => return None,
        Some(k) => k,
    };
    let spawn = match spawn_command(segment.as_slice()) {
        None => None,
        Some(c) => Some(string_of(c)),
    };
    let e = ShortcutEntry { modifiers: strings_of(modifiers), key: string_of(key), spawn, range: start..end };
    assert(e.range.start == start && e.range.end == end);
    assert(e.view_entry().modifiers == spec_field_list(segment@, "modifiers:"@).unwrap());
    Some(e)
}

/// The entries that parse, in file order.
pub open spec fn entries_of(s: Seq<char>, rs: Seq<(int, int)>) -> Seq<EntryView>
    decreases rs.len(),
{
    if rs.len() == 0 {
        seq![]
    } else {
        match spec_parse_shortcut_entry(s, rs.last().0, rs.last().1) {
            Some(e) => entries_of(s, rs.drop_last()).push(e),
            None => entries_of(s, rs.drop_last()),
        }
    }
}

pub open spec fn spec_parse_shortcut_entries(s: Seq<char>) -> Seq<EntryView> {
    match spec_shortcut_map_bounds(s) {
        None => seq![],
        Some((open, close)) => entries_of(s, entry_ranges(s, open, close)),
    }
}

/// The entries of the shortcut map, in file order.
pub fn parse_shortcut_entries(content: &str) -> (r: Vec<ShortcutEntry>)
    ensures
        entries_view(r@) == spec_parse_shortcut_entries(content@),
{
    let s = chars_of(content);
    parse_entries_chars(s.as_slice())
}

pub fn parse_entries_chars(s: &[char]) -> (r: Vec<ShortcutEntry>)
    ensures
        entries_view(r@) == spec_parse_shortcut_entries(s@),
{
    match shortcut_map_bounds(s) {
        None => Vec::new(),
        Some((open, close)) => parse_in_bounds(s, open, close),
    }
}

/// The entries between the braces at `open` and `close`, in order and
/// without overlap.
fn parse_in_bounds(s: &[char], open: usize, close: usize) -> (r: Vec<ShortcutEntry>)
    requires
        open < close < s.len(),
    ensures
        entries_view(r@) == entries_of(s@, entry_ranges(s@, open as int, close as int)),
        forall|k: int| 0 <= k < r@.len() ==> open < #[trigger] r@[k].range.start <= r@[k].range.end <= close,
        forall|j: int, k: int| 0 <= j < k < r@.len() ==> #[trigger] r@[j].range.end <= #[trigger] r@[k].range.start,
{
    let rs = entry_ranges_exec(s, open, close);
    let ghost rv = ranges_view(rs@);
    let mut out: Vec<ShortcutEntry> = Vec::new();
    let mut i: usize = 0;
    let mut bound: usize = open + 1;
    assert(rv.take(0) =~= Seq::<(int, int)>::empty());
    while i < rs.len()
        invariant
            i <= rs.len(),
            open < bound <= close < s.len(),
            rv == ranges_view(rs@),
            rv == entry_ranges(s@, open as int, close as int),
            forall|k: int| 0 <= k < rs@.len() ==> open < #[trigger] rs@[k].0 <= rs@[k].1 <= close,
            forall|j: int, k: int| 0 <= j < k < rs@.len() ==> #[trigger] rs@[j].1 <= #[trigger] rs@[k].0,
            i < rs@.len() ==> bound <= rs@[i as int].0,
            entries_view(out@) == entries_of(s@, rv.take(i as int)),
            forall|k: int| 0 <= k < out@.len() ==> open < #[trigger] out@[k].range.start <= out@[k].range.end <= bound,
            forall|j: int, k: int| 0 <= j < k < out@.len() ==> #[trigger] out@[j].range.end <= #[trigger] out@[k].range.start,
        decreases rs.len() - i,
    {
        let (a, b) = rs[i];
        assert(rv.take(i + 1).drop_last() =~= rv.take(i as int));
        assert(rv.take(i + 1).last() == (a as int, b as int));
        let ghost before = out@;
        match parse_shortcut_entry(s, a, b) {
            Some(e) => {
                out.push(e);
                assert forall|j: int, k: int| 0 <= j < k < out@.len() implies #[trigger] out@[j].range.end <= #[trigger] out@[k].range.start by {
                    if k < before.len() {
                        assert(before[j].range.end <= before[k].range.start);
                    } else {
                        assert(open < before[j].range.start <= before[j].range.end <= bound);
                    }
                }
                assert(entries_view(out@) =~= entries_view(before).push(out@.last().view_entry()));
            },
            None => {},
        }
        bound = b;
        if i + 1 < rs.len() {
            assert(rs@[i as int].1 <= rs@[i + 1].0);
        }
        i += 1;
    }
    assert(rv.take(rs.len() as int) =~= rv);
    out
}

pub open spec fn spec_is_target_shortcut(e: EntryView, key: Seq<char>) -> bool {
    &&& e.key == key
    &&& e.modifiers.len() == 2
    &&& (exists|i: int| 0 <= i < 2 && (#[trigger] e.modifiers[i] == "Ctrl"@ || e.modifiers[i] == "Control"@))
    &&& (exists|i: int| 0 <= i < 2 && #[trigger] e.modifiers[i] == "Shift"@)
}

/// Whether an entry is the Ctrl+Shift+`key` shortcut (Ctrl may be spelled
/// Control; no other modifier).
pub fn is_target_shortcut(entry: &ShortcutEntry, key: &str) -> (r: bool)
    ensures
        r == spec_is_target_shortcut(entry.view_entry(), key@),
{
    let k = chars_of_string(&entry.key);
    if !eq_str(k.as_slice(), key) || entry.modifiers.len() != 2 {
        return false;
    }
    let m0 = chars_of_string(&entry.modifiers[0]);
    let m1 = chars_of_string(&entry.modifiers[1]);
    let ghost mv = entry.view_entry().modifiers;
    assert(mv[0] == m0@ && mv[1] == m1@);
    let ctrl = eq_str(m0.as_slice(), "Ctrl") || eq_str(m0.as_slice(), "Control")
        || eq_str(m1.as_slice(), "Ctrl") || eq_str(m1.as_slice(), "Control");
    let shift = eq_str(m0.as_slice(), "Shift") || eq_str(m1.as_slice(), "Shift");
    proof {
        if ctrl {
            if mv[0] == "Ctrl"@ || mv[0] == "Control"@ {
                assert(0 <= 0int < 2 && (mv[0] == "Ctrl"@ || mv[0] == "Control"@));
            } else {
                assert(0 <= 1int < 2 && (mv[1] == "Ctrl"@ || mv[1] == "Control"@));
            }
        }
        if shift {
            if mv[0] == "Shift"@ {
                assert(mv[0int] == "Shift"@);
            } else {
                assert(mv[1int] == "Shift"@);
            }
        }
    }
    ctrl && shift
}

// ---------------------------------------------------------------- rewriting entries

pub open spec fn spec_render_shortcut_entry(key: Seq<char>, command: Seq<char>) -> Seq<char> {
    "(modifiers: [Ctrl, Shift], key: \""@ + key + "\"): Spawn(\""@ + command + "\")"@
}

/// The Ctrl+Shift+`key` entry that spawns `command`.
pub fn render_shortcut_entry(key: &str, command: &str) -> (r: String)
    ensures
        r@ == spec_render_shortcut_entry(key@, command@),
{
    let mut out = chars_of("(modifiers: [Ctrl, Shift], key: \"");
    extend_str(&mut out, key);
    extend_str(&mut out, "\"): Spawn(\"");
    extend_str(&mut out, command);
    extend_str(&mut out, "\")");
    string_of(out)
}

pub open spec fn updates_view(u: Seq<(&str, String)>) -> Seq<(Seq<char>, Seq<char>)> {
    u.map_values(|p: (&str, String)| (p.0@, p.1@))
}

/// The rendering of the first update that targets the entry.
pub open spec fn replacement_for(e: EntryView, ups: Seq<(Seq<char>, Seq<char>)>) -> Option<Seq<char>>
    decreases ups.len(),
{
    if ups.len() == 0 {
        None
    } else if spec_is_target_shortcut(e, ups[0].0) {
        Some(spec_render_shortcut_entry(ups[0].0, ups[0].1))
    } else {
        replacement_for(e, ups.drop_first())
    }
}

/// The renderings of the updates that no entry answers, in update order.
pub open spec fn missing_entries(es: Seq<EntryView>, ups: Seq<(Seq<char>, Seq<char>)>) -> Seq<Seq<char>>
    decreases ups.len(),
{
    if ups.len() == 0 {
        seq![]
    } else if exists|k: int| 0 <= k < es.len() && spec_is_target_shortcut(#[trigger] es[k], ups.last().0) {
        missing_entries(es, ups.drop_last())
    } else {
        missing_entries(es, ups.drop_last()).push(spec_render_shortcut_entry(ups.last().0, ups.last().1))
    }
}

/// `s` without trailing white space and commas.
pub open spec fn trim_end_ws_comma(s: Seq<char>) -> Seq<char>
    decreases s.len(),
{
    if s.len() > 0 && (is_ws(s.last()) || s.last() == ',') {
        trim_end_ws_comma(s.drop_last())
    } else {
        s
    }
}

/// What stands in an entry's segment: the text before its `(`, the new
/// entry, and the white space and commas that ended it.
pub open spec fn spliced_piece(seg: Seq<char>, r: Seq<char>) -> Seq<char> {
    let lead = match find_char(seg, '(') {
        Some(j) => j,
        None => 0,
    };
    seg.take(lead) + r + seg.skip(trim_end_ws_comma(seg).len() as int)
}

/// The map's text from `cursor` to `close`, each targeted entry replaced.
pub open spec fn splice(
    s: Seq<char>, cursor: int, es: Seq<EntryView>, ups: Seq<(Seq<char>, Seq<char>)>, close: int,
) -> Seq<char>
    decreases es.len(),
{
    if es.len() == 0 {
        s.subrange(cursor, close)
    } else {
        match replacement_for(es[0], ups) {
            Some(r) => s.subrange(cursor, es[0].start)
                + spliced_piece(s.subrange(es[0].start, es[0].end), r)
                + splice(s, es[0].end, es.drop_first(), ups, close),
            None => splice(s, cursor, es.drop_first(), ups, close),
        }
    }
}

pub open spec fn missing_text(miss: Seq<Seq<char>>) -> Seq<char>
    decreases miss.len(),
{
    if miss.len() == 0 {
        seq![]
    } else {
        missing_text(miss.drop_last()) + "\n    "@ + miss.last() + ","@
    }
}

pub open spec fn spec_replace_shortcut_entries(s: Seq<char>, ups: Seq<(Seq<char>, Seq<char>)>) -> Seq<char> {
    match spec_shortcut_map_bounds(s) {
        None => s,
        Some((open, close)) => {
            let es = entries_of(s, entry_ranges(s, open, close));
            let body = splice(s, 0, es, ups, close);
            let miss = missing_entries(es, ups);
            let tail = if miss.len() == 0 {
                seq![]
            } else {
                (if es.len() > 0 && !crate::text::ends_with(crate::text::trim_end(body), ","@) { ","@ } else { seq![] })
                    + missing_text(miss) + "\n"@
            };
            body + tail + s.skip(close)
        },
    }
}

/// Whether no two updates name the same key.
pub open spec fn distinct_keys(ups: Seq<(Seq<char>, Seq<char>)>) -> bool {
    forall|i: int, j: int| 0 <= i < j < ups.len() ==> #[trigger] ups[i].0 != #[trigger] ups[j].0
}

fn replacement_for_exec(e: &ShortcutEntry, updates: &[(&str, String)]) -> (r: Option<Vec<char>>)
    ensures
        (match r { Some(x) => Some(x@), None => None }) == replacement_for(e.view_entry(), updates_view(updates@)),
{
    let ghost uv = updates_view(updates@);
    let mut i: usize = 0;
    assert(uv.skip(0) =~= uv);
    while i < updates.len()
        invariant
            i <= updates.len(),
            uv == updates_view(updates@),
            replacement_for(e.view_entry(), uv.skip(i as int)) == replacement_for(e.view_entry(), uv),
        decreases updates.len() - i,
    {
        assert(uv.skip(i as int).drop_first() =~= uv.skip(i + 1));
        assert(uv.skip(i as int)[0] == (updates@[i as int].0@, updates@[i as int].1@));
        let (key, command) = &updates[i];
        if is_target_shortcut(e, key) {
            let r = render_shortcut_entry(key, command.as_str());
            return Some(chars_of_string(&r));
        }
        i += 1;
    }
    None
}

fn any_target(es: &Vec<ShortcutEntry>, key: &str) -> (r: bool)
    ensures
        r == exists|k: int| 0 <= k < es@.len() && spec_is_target_shortcut(#[trigger] entries_view(es@)[k], key@),
{
    let ghost ev = entries_view(es@);
    let mut i: usize = 0;
    while i < es.len()
        invariant
            i <= es.len(),
            ev == entries_view(es@),
            forall|k: int| 0 <= k < i ==> !spec_is_target_shortcut(#[trigger] ev[k], key@),
        decreases es.len() - i,
    {
        if is_target_shortcut(&es[i], key) {
            assert(spec_is_target_shortcut(ev[i as int], key@));
            return true;
        }
        i += 1;
    }
    false
}

fn trim_end_ws_comma_len(s: &[char]) -> (n: usize)
    ensures
        n == trim_end_ws_comma(s@).len(),
        n <= s.len(),
        trim_end_ws_comma(s@) == s@.take(n as int),
{
    let mut j: usize = s.len();
    assert(s@.take(s.len() as int) =~= s@);
    while j > 0 && (crate::text::is_ws_exec(s[j - 1]) || s[j - 1] == ',')
        invariant
            j <= s.len(),
            trim_end_ws_comma(s@) == trim_end_ws_comma(s@.take(j as int)),
        decreases j,
    {
        assert(s@.take(j as int).drop_last() =~= s@.take(j - 1));
        j -= 1;
    }
    j
}

/// Rewrites the Ctrl+Shift shortcuts named in `updates`: an entry that
/// already exists keeps its place and surrounding text and gets the new
/// command; a missing one is appended before the closing brace.  Everything
/// else stays as it was.  Without a map the text is returned unchanged.
pub fn replace_shortcut_entries(content: &str, updates: &[(&str, String)]) -> (r: String)
    requires
        distinct_keys(updates_view(updates@)),
    ensures
        r@ == spec_replace_shortcut_entries(content@, updates_view(updates@)),
{
    let s = chars_of(content);
    let (open, close) = match shortcut_map_bounds(s.as_slice()) {
        None => return string_of(s),
        Some(b) => b,
    };
    let es = parse_in_bounds(s.as_slice(), open, close);
    let ghost ev = entries_view(es@);
    let ghost uv = updates_view(updates@);
    let mut out: Vec<char> = Vec::new();
    let mut cursor: usize = 0;
    let mut i: usize = 0;
    assert(ev.skip(0) =~= ev);
    while i < es.len()
        invariant
            i <= es.len(),
            close < s@.len(),
            ev == entries_view(es@),
            uv == updates_view(updates@),
            forall|k: int| 0 <= k < es@.len() ==> open < #[trigger] es@[k].range.start <= es@[k].range.end <= close,
            forall|j: int, k: int| 0 <= j < k < es@.len() ==> #[trigger] es@[j].range.end <= #[trigger] es@[k].range.start,
            cursor <= close,
            forall|k: int| i <= k < es@.len() ==> cursor <= #[trigger] es@[k].range.start,
            out@ + splice(s@, cursor as int, ev.skip(i as int), uv, close as int) == splice(s@, 0, ev, uv, close as int),
        decreases es.len() - i,
    {
        let e = &es[i];
        assert(ev.skip(i as int).drop_first() =~= ev.skip(i + 1));
        assert(ev.skip(i as int)[0] == e.view_entry());
        match replacement_for_exec(e, updates) {
            Some(r) => {
                let a = e.range.start;
                let b = e.range.end;
                let before_text = subseq(s.as_slice(), cursor, a);
                let seg = subseq(s.as_slice(), a, b);
                let lead = match crate::text::find_char_exec(seg.as_slice(), '(') {
                    Some(j) => {
                        proof { crate::text::lemma_find_char(seg@, '('); }
                        j
                    },
                    None => 0,
                };
                let core = trim_end_ws_comma_len(seg.as_slice());
                let ghost o0 = out@;
                extend(&mut out, before_text.as_slice());
                extend(&mut out, subseq(seg.as_slice(), 0, lead).as_slice());
                extend(&mut out, r.as_slice());
                extend(&mut out, subseq(seg.as_slice(), core, seg.len()).as_slice());
                assert(seg@.subrange(0, lead as int) =~= seg@.take(lead as int));
                assert(seg@.subrange(core as int, seg@.len() as int) =~= seg@.skip(core as int));
                assert(out@ =~= o0 + (s@.subrange(cursor as int, a as int) + spliced_piece(s@.subrange(a as int, b as int), r@)));
                cursor = b;
                assert forall|k: int| i + 1 <= k < es@.len() implies cursor <= #[trigger] es@[k].range.start by {
                    assert(es@[i as int].range.end <= es@[k].range.start);
                }
            },
            None => {},
        }
        i += 1;
    }
    let ghost body = splice(s@, 0, ev, uv, close as int);
    extend(&mut out, subseq(s.as_slice(), cursor, close).as_slice());
    assert(ev.skip(es.len() as int) =~= Seq::<EntryView>::empty());
    assert(out@ == body);
    assert(ev == entries_of(s@, entry_ranges(s@, open as int, close as int)));
    // the updates that no entry answers
    let mut miss: Vec<Vec<char>> = Vec::new();
    let mut u: usize = 0;
    assert(uv.take(0) =~= Seq::<(Seq<char>, Seq<char>)>::empty());
    while u < updates.len()
        invariant
            u <= updates.len(),
            ev == entries_view(es@),
            uv == updates_view(updates@),
            miss.deep_view() == missing_entries(ev, uv.take(u as int)),
        decreases updates.len() - u,
    {
        let (key, command) = &updates[u];
        assert(uv.take(u + 1).drop_last() =~= uv.take(u as int));
        assert(uv.take(u + 1).last() == (key@, command@));
        if !any_target(&es, key) {
            let r = render_shortcut_entry(key, command.as_str());
            push_piece(&mut miss, chars_of_string(&r));
        }
        u += 1;
    }
    assert(uv.take(updates.len() as int) =~= uv);
    if miss.len() > 0 {
        let t = crate::text::trim_end_exec(out.as_slice());
        let ghost comma: Seq<char> = if ev.len() > 0 && !crate::text::ends_with(crate::text::trim_end(body), ","@) { ","@ } else { seq![] };
        proof { reveal_strlit(","); }
        assert(ev.len() == es@.len());
        if es.len() > 0 && !crate::text::ends_with_str(t.as_slice(), ",") {
            out.push(',');
        }
        assert(out@ =~= body + comma);
        let ghost mv = miss.deep_view();
        let ghost o1 = out@;
        let mut k: usize = 0;
        assert(mv.take(0) =~= Seq::<Seq<char>>::empty());
        assert(o1 + missing_text(mv.take(0)) =~= o1);
        while k < miss.len()
            invariant
                k <= miss.len(),
                mv == miss.deep_view(),
                out@ == o1 + missing_text(mv.take(k as int)),
            decreases miss.len() - k,
        {
            proof { lemma_deep_view_chars(&miss[k as int]); }
            extend_str(&mut out, "\n    ");
            extend(&mut out, miss[k].as_slice());
            extend_str(&mut out, ",");
            assert(mv.take(k + 1).drop_last() =~= mv.take(k as int));
            assert(out@ =~= o1 + missing_text(mv.take(k + 1)));
            k += 1;
        }
        assert(mv.take(miss.len() as int) =~= mv);
        out.push('\n');
        proof { reveal_strlit("\n"); }
        assert(out@ =~= body + (comma + missing_text(mv) + "\n"@));
    }
    let ghost o2 = out@;
    extend(&mut out, subseq(s.as_slice(), close, s.len()).as_slice());
    assert(s@.subrange(close as int, s@.len() as int) =~= s@.skip(close as int));
    string_of(out)
}

// ---------------------------------------------------------------- screenshot shortcuts

/// The commands bound to Ctrl+Shift+3/4/5: shotbox's when its release binary
/// exists (the caller passes its path only then), COSMIC's screenshot tool
/// for 3 and 4 otherwise.
pub open spec fn spec_shortcut_updates(binary: Option<Seq<char>>) -> Seq<(Seq<char>, Seq<char>)> {
    match binary {
        Some(b) => seq![
            ("3"@, b + " capture full"@),
            ("4"@, b + " capture region"@),
            ("5"@, b + " options"@),
        ],
        None => seq![
            ("3"@, "cosmic-screenshot --interactive=false"@),
            ("4"@, "cosmic-screenshot --interactive"@),
        ],
    }
}

pub fn shortcut_updates(binary: Option<&str>) -> (r: Vec<(&'static str, String)>)
    ensures
        updates_view(r@) == spec_shortcut_updates(match binary { Some(b) => Some(b@), None => None }),
        distinct_keys(updates_view(r@)),
{
    proof { reveal_strlit("3"); reveal_strlit("4"); reveal_strlit("5"); }
    let r = match binary {
        Some(b) => {
            let mut full = chars_of(b);
            extend_str(&mut full, " capture full");
            let mut region = chars_of(b);
            extend_str(&mut region, " capture region");
            let mut opts = chars_of(b);
            extend_str(&mut opts, " options");
            vec![("3", string_of(full)), ("4", string_of(region)), ("5", string_of(opts))]
        },
        None => vec![
            ("3", string_of(chars_of("cosmic-screenshot --interactive=false"))),
            ("4", string_of(chars_of("cosmic-screenshot --interactive"))),
        ],
    };
    assert(updates_view(r@) =~= spec_shortcut_updates(match binary { Some(b) => Some(b@), None => None }));
    assert("3"@[0] != "4"@[0] && "3"@[0] != "5"@[0] && "4"@[0] != "5"@[0]);
    assert("3"@ != "4"@ && "3"@ != "5"@ && "4"@ != "5"@);
    r
}

/// How a screenshot shortcut stands.
#[derive(Debug, Clone, Copy, PartialEq, Eq, Structural)]
pub enum ShortcutState {
    Missing,
    ExecutableMissing,
    Healthy,
}

#[derive(Debug, Clone)]
pub struct ShortcutHealth {
    pub key: String,
    pub state: ShortcutState,
}

/// The first Ctrl+Shift+`key` entry's command: `None` when there is no such
/// entry, `Some(None)` when it spawns nothing.
pub open spec fn spec_target_spawn(es: Seq<EntryView>, key: Seq<char>) -> Option<Option<Seq<char>>>
    decreases es.len(),
{
    if es.len() == 0 {
        None
    } else if spec_is_target_shortcut(es[0], key) {
        Some(es[0].spawn)
    } else {
        spec_target_spawn(es.drop_first(), key)
    }
}

pub fn target_spawn(entries: &Vec<ShortcutEntry>, key: &str) -> (r: Option<Option<String>>)
    ensures
        (match r {
            Some(Some(c)) => Some(Some(c@)),
            Some(None) => Some(None),
            None => None,
        }) == spec_target_spawn(entries_view(entries@), key@),
{
    let ghost ev = entries_view(entries@);
    let mut i: usize = 0;
    assert(ev.skip(0) =~= ev);
    while i < entries.len()
        invariant
            i <= entries.len(),
            ev == entries_view(entries@),
            spec_target_spawn(ev.skip(i as int), key@) == spec_target_spawn(ev, key@),
        decreases entries.len() - i,
    {
        assert(ev.skip(i as int).drop_first() =~= ev.skip(i + 1));
        assert(ev.skip(i as int)[0] == entries@[i as int].view_entry());
        if is_target_shortcut(&entries[i], key) {
            return match &entries[i].spawn {
                Some(c) => Some(Some(string_of(chars_of_string(c)))),
                None => Some(None),
            };
        }
        i += 1;
    }
    None
}

pub open spec fn spec_shortcut_state(found: Option<Option<Seq<char>>>, executable_exists: bool) -> ShortcutState {
    match found {
        None => ShortcutState::Missing,
        Some(Some(_)) => if executable_exists { ShortcutState::Healthy } else { ShortcutState::ExecutableMissing },
        Some(None) => ShortcutState::ExecutableMissing,
    }
}

/// A shortcut is healthy exactly when it exists, spawns a command, and the
/// command's program exists; it is missing exactly when there is no entry.
pub proof fn law_shortcut_healthy_only_when_runnable(found: Option<Option<Seq<char>>>, executable_exists: bool)
    ensures
        (spec_shortcut_state(found, executable_exists) is Healthy) == ((found matches Some(Some(_))) && executable_exists),
        (spec_shortcut_state(found, executable_exists) is Missing) == (found is None),
        !executable_exists ==> !(spec_shortcut_state(found, executable_exists) is Healthy),
{
}

/// A shortcut is healthy when it exists and spawns a command whose program
/// exists (the caller checks the program).
pub fn shortcut_state(found: &Option<Option<String>>, executable_exists: bool) -> (r: ShortcutState)
    ensures
        r == spec_shortcut_state(
            match found { Some(Some(c)) => Some(Some(c@)), Some(None) => Some(None), None => None },
            executable_exists,
        ),
{
    match found {
        None => ShortcutState::Missing,
        Some(Some(_)) => if executable_exists { ShortcutState::Healthy } else { ShortcutState::ExecutableMissing },
        Some(None) => ShortcutState::ExecutableMissing,
    }
}

/// The program of a spawned command: its first white-space separated word.
pub fn command_program(command: &str) -> (r: Option<String>)
    ensures
        crate::text::opt_view(r) == (if crate::text::words(command@).len() > 0 {
            Some(crate::text::words(command@)[0])
        } else {
            None
        }),
{
    let c = chars_of(command);
    let ws = crate::text::words_exec(c.as_slice());
    if ws.len() == 0 {
        None
    } else {
        proof { lemma_deep_view_chars(&ws[0]); }
        Some(to_string(ws[0].as_slice()))
    }
}

pub open spec fn spec_shortcut_label(key: Seq<char>) -> Seq<char> {
    "Ctrl+Shift+"@ + key
}

/// The health of the Ctrl+Shift+`key` screenshot shortcut.
pub fn shortcut_health(key: &str, state: ShortcutState) -> (r: ShortcutHealth)
    ensures
        r.key@ == spec_shortcut_label(key@),
        r.state == state,
{
    let mut k = chars_of("Ctrl+Shift+");
    extend_str(&mut k, key);
    ShortcutHealth { key: string_of(k), state }
}

// ---------------------------------------------------------------- scripts

pub open spec fn spec_build_shotbox_script(manifest: Seq<char>) -> Seq<char> {
    "CARGO_BUILD_JOBS=4 cargo build --release --manifest-path "@ + crate::ui::ime_shell::spec_shell_quote(manifest)
}

/// Builds shotbox's release binary from its manifest.
pub fn build_shotbox_script(manifest: &str) -> (r: String)
    ensures
        r@ == spec_build_shotbox_script(manifest@),
{
    let mut out = chars_of("CARGO_BUILD_JOBS=4 cargo build --release --manifest-path ");
    let q = crate::ui::ime_shell::shell_quote(manifest);
    extend(&mut out, chars_of_string(&q).as_slice());
    string_of(out)
}

pub open spec fn spec_binary_patched_script(pkg: Seq<char>, bin: Seq<char>) -> Seq<char> {
    "dpkg -V "@ + pkg + " 2>/dev/null | grep -qE '[[:space:]]"@ + bin + "$' && echo yes || echo no"@
}

/// Prints `yes` when dpkg finds the package's binary changed: only the
/// tool's own build differs from the package's checksums, so a stock
/// reinstall reads as unpatched again.
pub fn binary_patched_script(pkg: &str, bin: &str) -> (r: String)
    ensures
        r@ == spec_binary_patched_script(pkg@, bin@),
{
    let mut out = chars_of("dpkg -V ");
    extend_str(&mut out, pkg);
    extend_str(&mut out, " 2>/dev/null | grep -qE '[[:space:]]");
    extend_str(&mut out, bin);
    extend_str(&mut out, "$' && echo yes || echo no");
    string_of(out)
}

/// Whether the check printed `yes`.
pub fn binary_patched_answer(output: &str) -> (r: bool)
    ensures
        r == (crate::text::trim(output@) == "yes"@),
{
    let c = chars_of(output);
    let t = crate::text::trim_exec(c.as_slice());
    eq_str(t.as_slice(), "yes")
}

/// Builds cosmic-files from the installed version's source with the
/// copy-path patch and installs it over the packaged binary.
pub const COPY_PATH_PATCH_SCRIPT: &'static str = r#"set -e
rm -rf /tmp/popmgr-cosmic-files-src

echo "=== 설치된 버전 커밋 확인 ==="
CF_COMMIT=$(dpkg -l cosmic-files 2>/dev/null | grep '^ii' | awk '{print $3}' | rev | cut -d'~' -f1 | rev)
echo "cosmic-files 커밋: $CF_COMMIT"

echo "=== 소스 타르볼 다운로드 ==="
curl -fL "https://github.com/pop-os/cosmic-files/archive/${CF_COMMIT}.tar.gz" \
    -o /tmp/cosmic-files-src.tar.gz
tar xzf /tmp/cosmic-files-src.tar.gz -C /tmp/
SRCDIR=$(ls -d /tmp/cosmic-files-${CF_COMMIT}* 2>/dev/null | head -1)
mv "$SRCDIR" /tmp/popmgr-cosmic-files-src

echo "=== 패치 파일 다운로드 ==="
curl -fL https://raw.githubusercontent.com/eondcom/cosmic-files-copy-path/main/cosmic-files-copy-path.patch \
    -o /tmp/cosmic-files-copy-path.patch

echo "=== 패치 적용 ==="
cd /tmp/popmgr-cosmic-files-src
patch -p1 --fuzz 5 < /tmp/cosmic-files-copy-path.patch

echo "=== 빌드 ==="
LIBCLANG_PATH=$(ls -d /usr/lib/llvm-*/lib 2>/dev/null | sort -V | tail -1)
LIBCLANG_PATH=${LIBCLANG_PATH:-/usr/lib}
export LIBCLANG_PATH
echo "LIBCLANG_PATH=$LIBCLANG_PATH"
cargo build --release 2>&1

echo "=== 설치 ==="
pkexec bash -c 'cp -a /usr/bin/cosmic-files /usr/bin/cosmic-files.bak 2>/dev/null || true; install -Dm0755 /tmp/popmgr-cosmic-files-src/target/release/cosmic-files /usr/bin/cosmic-files'
echo "copy-path 패치 설치 완료"
"#;

pub const REMOVE_COPY_PATH_SCRIPT: &'static str = "pkexec bash -c 'apt-get install --reinstall -y cosmic-files 2>&1'";

/// Builds cosmic-comp from the installed version's source with the
/// three-finger gesture patch and installs it over the packaged binary.
pub const THREE_FINGER_PATCH_SCRIPT: &'static str = r#"set -e
rm -rf /tmp/popmgr-cosmic-comp-src

echo "=== 설치된 버전 커밋 확인 ==="
CC_COMMIT=$(dpkg -l cosmic-comp 2>/dev/null | grep '^ii' | awk '{print $3}' | rev | cut -d'~' -f1 | rev)
echo "cosmic-comp 커밋: $CC_COMMIT"

echo "=== 소스 타르볼 다운로드 ==="
curl -fL "https://github.com/pop-os/cosmic-comp/archive/${CC_COMMIT}.tar.gz" \
    -o /tmp/cosmic-comp-src.tar.gz
tar xzf /tmp/cosmic-comp-src.tar.gz -C /tmp/
SRCDIR=$(ls -d /tmp/cosmic-comp-${CC_COMMIT}* 2>/dev/null | head -1)
mv "$SRCDIR" /tmp/popmgr-cosmic-comp-src

echo "=== 패치 파일 다운로드 ==="
curl -fL https://raw.githubusercontent.com/eondcom/cosmic-three-finger-gesture/main/three-finger-gesture.patch \
    -o /tmp/three-finger-gesture.patch

echo "=== 패치 적용 ==="
cd /tmp/popmgr-cosmic-comp-src
patch -p1 --fuzz 5 < /tmp/three-finger-gesture.patch

echo "=== 빌드 (10~20분 소요) ==="
cargo build --release 2>&1

echo "=== 설치 ==="
pkexec bash -c 'cp -a /usr/bin/cosmic-comp /usr/bin/cosmic-comp.bak 2>/dev/null || true; install -Dm0755 /tmp/popmgr-cosmic-comp-src/target/release/cosmic-comp /usr/bin/cosmic-comp'
echo "3-finger 패치 설치 완료 — 로그아웃 후 재로그인 필요"
"#;

pub const REMOVE_THREE_FINGER_SCRIPT: &'static str = "pkexec bash -c 'apt-get install --reinstall -y cosmic-comp 2>&1'";

// ---------------------------------------------------------------- the tab

#[derive(Debug, Clone)]
pub struct CosmicStatus {
    pub copy_path_patched: bool,
    pub three_finger_patched: bool,
    pub cosmic_files_ver: String,
    pub cosmic_comp_ver: String,
    pub screenshot_shortcuts: Vec<ShortcutHealth>,
    pub shotbox_source_exists: bool,
    pub shotbox_binary_exists: bool,
}

#[derive(Debug, Clone)]
pub enum CosmicMsg {
    Refresh,
    Refreshed(CosmicStatus),
    ApplyCopyPath,
    RemoveCopyPath,
    ApplyThreeFinger,
    RemoveThreeFinger,
    BuildShotbox,
    RegisterScreenshotShortcuts,
    Done(CmdResult),
}

/// The outside work that an event asks for; each but `Idle` and `Scan` is
/// answered with `Done`.
#[derive(Debug, Clone, Copy, PartialEq, Eq, Structural)]
pub enum CosmicAction {
    Idle,
    /// Scan versions, patch state and shortcuts; answer `Refreshed`.
    Scan,
    ApplyCopyPath,
    RemoveCopyPath,
    ApplyThreeFinger,
    RemoveThreeFinger,
    BuildShotbox,
    RegisterScreenshotShortcuts,
}

pub struct CosmicState {
    pub status: Option<CosmicStatus>,
    pub running: Option<String>,
}

impl CosmicState {
    pub fn new() -> (s: Self)
        ensures
            s.status is None,
            s.running is None,
    {
        CosmicState { status: None, running: None }
    }

    /// The next state and the work to do for an event: a request marks the tab
    /// busy with its label; a finished task clears it, rescans and hands its
    /// result on to the log.
    pub fn update(&mut self, msg: CosmicMsg) -> (r: (CosmicAction, Option<CmdResult>))
        ensures
            match msg {
                CosmicMsg::Refresh => r == (CosmicAction::Scan, None::<CmdResult>) && *final(self) == *old(self),
                CosmicMsg::Refreshed(st) => {
                    &&& r.0 == CosmicAction::Idle && r.1 is None
                    &&& final(self).status == Some(st) && final(self).running == old(self).running
                },
                CosmicMsg::ApplyCopyPath => r.0 == CosmicAction::ApplyCopyPath && r.1 is None
                    && final(self).status == old(self).status
                    && crate::text::opt_view(final(self).running) == Some("copy-path 패치 빌드 중 (수 분 소요)..."@),
                CosmicMsg::RemoveCopyPath => r.0 == CosmicAction::RemoveCopyPath && r.1 is None
                    && final(self).status == old(self).status
                    && crate::text::opt_view(final(self).running) == Some("copy-path 패치 제거 중..."@),
                CosmicMsg::ApplyThreeFinger => r.0 == CosmicAction::ApplyThreeFinger && r.1 is None
                    && final(self).status == old(self).status
                    && crate::text::opt_view(final(self).running) == Some("3-finger 패치 빌드 중 (수 분 소요)..."@),
                CosmicMsg::RemoveThreeFinger => r.0 == CosmicAction::RemoveThreeFinger && r.1 is None
                    && final(self).status == old(self).status
                    && crate::text::opt_view(final(self).running) == Some("3-finger 패치 제거 중..."@),
                CosmicMsg::BuildShotbox => r.0 == CosmicAction::BuildShotbox && r.1 is None
                    && final(self).status == old(self).status
                    && crate::text::opt_view(final(self).running) == Some("shotbox 빌드 중..."@),
                CosmicMsg::RegisterScreenshotShortcuts => r.0 == CosmicAction::RegisterScreenshotShortcuts && r.1 is None
                    && final(self).status == old(self).status
                    && crate::text::opt_view(final(self).running) == Some("스크린샷 단축키 등록/갱신 중..."@),
                CosmicMsg::Done(res) => r.0 == CosmicAction::Scan && r.1 == Some(res)
                    && final(self).status == old(self).status && final(self).running is None,
            },
    {
        match msg {
            CosmicMsg::Refresh => (CosmicAction::Scan, None),
            CosmicMsg::Refreshed(st) => {
                self.status = Some(st);
                (CosmicAction::Idle, None)
            },
            CosmicMsg::ApplyCopyPath => {
                self.running = Some(string_of(chars_of("copy-path 패치 빌드 중 (수 분 소요)...")));
                (CosmicAction::ApplyCopyPath, None)
            },
            CosmicMsg::RemoveCopyPath => {
                self.running = Some(string_of(chars_of("copy-path 패치 제거 중...")));
                (CosmicAction::RemoveCopyPath, None)
            },
            CosmicMsg::ApplyThreeFinger => {
                self.running = Some(string_of(chars_of("3-finger 패치 빌드 중 (수 분 소요)...")));
                (CosmicAction::ApplyThreeFinger, None)
            },
            CosmicMsg::RemoveThreeFinger => {
                self.running = Some(string_of(chars_of("3-finger 패치 제거 중...")));
                (CosmicAction::RemoveThreeFinger, None)
            },
            CosmicMsg::BuildShotbox => {
                self.running = Some(string_of(chars_of("shotbox 빌드 중...")));
                (CosmicAction::BuildShotbox, None)
            },
            CosmicMsg::RegisterScreenshotShortcuts => {
                self.running = Some(string_of(chars_of("스크린샷 단축키 등록/갱신 중...")));
                (CosmicAction::RegisterScreenshotShortcuts, None)
            },
            CosmicMsg::Done(res) => {
                self.running = None;
                (CosmicAction::Scan, Some(res))
            },
        }
    }
}

} // verus!
