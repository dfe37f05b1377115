//! Korean input-method management: the fcitx5 global configuration policy
//! (reading and rewriting it), desktop-entry and launcher checks, the resume
//! hook, the LibreOffice compatibility launcher and the GTK module bug
//! diagnosis.

use vstd::prelude::*;
use crate::runner::CmdResult;
use crate::text::{
    chars_of, chars_of_string, decimal, ends_with, eq, eq_str, extend, extend_str, find_char,
    lemma_deep_view_chars, lemma_find_char, lines, lines_of, parse_nat, parse_usize,
    parse_usize_exec, push_decimal, push_piece, split_once, split_once_exec, starts_with,
    string_of, subseq, to_string, trim, trim_exec,
};

verus! {

// ---------------------------------------------------------------- fcitx5 policy

/// The input-state policy of fcitx5's global configuration.
#[derive(Debug, Clone, PartialEq)]
pub struct Fcitx5Behavior {
    /// "All" makes every window share one input state.
    pub share_input_state: String,
    /// true starts new windows in Korean.
    pub active_by_default: bool,
    /// AltTriggerKeys=Shift_L: a lone tap of the left Shift switches to English.
    pub shift_alt_trigger: bool,
}

impl Fcitx5Behavior {
    pub open spec fn spec_is_ok(&self) -> bool {
        self.share_input_state@ == "All"@ && self.active_by_default && !self.shift_alt_trigger
    }

    /// Whether the policy keeps the input state across windows and restarts.
    pub fn is_ok(&self) -> (r: bool)
        ensures
            r == self.spec_is_ok(),
    {
        let s = chars_of_string(&self.share_input_state);
        eq_str(s.as_slice(), "All") && self.active_by_default && !self.shift_alt_trigger
    }
}

pub open spec fn ascii_lower_char(c: char) -> char {
    crate::text::ascii_lower_char(c)
}

/// `str::eq_ignore_ascii_case`.
pub open spec fn eq_ignore_ascii_case(a: Seq<char>, b: Seq<char>) -> bool {
    a.len() == b.len() && forall|i: int| 0 <= i < a.len() ==> ascii_lower_char(#[trigger] a[i]) == ascii_lower_char(b[i])
}

pub fn eq_ignore_ascii_case_exec(a: &[char], b: &[char]) -> (r: bool)
    ensures
        r == eq_ignore_ascii_case(a@, b@),
{
    if a.len() != b.len() {
        return false;
    }
    let mut i: usize = 0;
    while i < a.len()
        invariant
            a.len() == b.len(),
            i <= a.len(),
            forall|j: int| 0 <= j < i ==> ascii_lower_char(#[trigger] a@[j]) == ascii_lower_char(b@[j]),
        decreases a.len() - i,
    {
        let x = a[i];
        let y = b[i];
        let lx = if 'A' <= x && x <= 'Z' { (x as u8 + 32) as char } else { x };
        let ly = if 'A' <= y && y <= 'Z' { (y as u8 + 32) as char } else { y };
        if lx != ly {
            return false;
        }
        i += 1;
    }
    true
}

/// Whether a trimmed line is a `[section]` header.
pub open spec fn is_header_line(t: Seq<char>) -> bool {
    t.len() > 0 && t[0] == '[' && t.last() == ']'
}

pub open spec fn header_name(t: Seq<char>) -> Seq<char> {
    t.subrange(1, t.len() - 1)
}

/// What reading the configuration has found so far.
pub struct BehaviorScan {
    pub share: Seq<char>,
    pub active: bool,
    pub has_alt_trigger_keys: bool,
    pub shift_alt_trigger: bool,
    pub section: Seq<char>,
}

/// Reading one line of the configuration.
pub open spec fn behavior_step(st: BehaviorScan, raw: Seq<char>) -> BehaviorScan {
    let line = trim(raw);
    if line.len() == 0 || line[0] == '#' {
        st
    } else if is_header_line(line) {
        let section = header_name(line);
        BehaviorScan {
            section,
            has_alt_trigger_keys: st.has_alt_trigger_keys || section == "Hotkey/AltTriggerKeys"@,
            ..st
        }
    } else {
        match split_once(line, '=') {
            None => st,
            Some((k0, v0)) => {
                let k = trim(k0);
                let v = trim(v0);
                if st.section == "Behavior"@ {
                    if k == "ShareInputState"@ {
                        BehaviorScan { share: v, ..st }
                    } else if k == "ActiveByDefault"@ {
                        BehaviorScan { active: eq_ignore_ascii_case(v, "true"@), ..st }
                    } else {
                        st
                    }
                } else if st.section == "Hotkey"@ && k == "AltTriggerKeys"@ {
                    BehaviorScan {
                        has_alt_trigger_keys: true,
                        shift_alt_trigger: st.shift_alt_trigger || v == "Shift_L"@,
                        ..st
                    }
                } else if st.section == "Hotkey/AltTriggerKeys"@ {
                    BehaviorScan { shift_alt_trigger: st.shift_alt_trigger || v == "Shift_L"@, ..st }
                } else {
                    st
                }
            },
        }
    }
}

pub open spec fn behavior_scan(ls: Seq<Seq<char>>) -> BehaviorScan
    decreases ls.len(),
{
    if ls.len() == 0 {
        BehaviorScan {
            share: "No"@,
            active: false,
            has_alt_trigger_keys: false,
            shift_alt_trigger: false,
            section: seq![],
        }
    } else {
        behavior_step(behavior_scan(ls.drop_last()), ls.last())
    }
}

/// The policy that a configuration file sets; keys it does not set take
/// fcitx5's defaults (ShareInputState=No, ActiveByDefault=False,
/// AltTriggerKeys=Shift_L).
pub open spec fn spec_parse_fcitx5_behavior(content: Seq<char>) -> (Seq<char>, bool, bool) {
    let st = behavior_scan(lines(content));
    (st.share, st.active, st.shift_alt_trigger || !st.has_alt_trigger_keys)
}

/// Reads the input-state policy from fcitx5's configuration file.
pub fn parse_fcitx5_behavior(content: &str) -> (r: Fcitx5Behavior)
    ensures
        (r.share_input_state@, r.active_by_default, r.shift_alt_trigger)
            == spec_parse_fcitx5_behavior(content@),
{
    let ls = lines_of(content);
    let ghost lv = ls.deep_view();
    let mut share = chars_of("No");
    let mut active = false;
    let mut has_alt = false;
    let mut shift = false;
    let mut section: Vec<char> = Vec::new();
    let mut i: usize = 0;
    assert(lv.take(0) =~= Seq::<Seq<char>>::empty());
    while i < ls.len()
        invariant
            i <= ls.len(),
            lv == ls.deep_view(),
            lv == lines(content@),
            behavior_scan(lv.take(i as int)) == (BehaviorScan {
                share: share@,
                active,
                has_alt_trigger_keys: has_alt,
                shift_alt_trigger: shift,
                section: section@,
            }),
        decreases ls.len() - i,
    {
        proof { lemma_deep_view_chars(&ls[i as int]); }
        assert(lv.take(i + 1).drop_last() =~= lv.take(i as int));
        assert(lv.take(i + 1).last() == ls@[i as int]@);
        let line = trim_exec(ls[i].as_slice());
        if line.len() == 0 || line[0] == '#' {
        } else if line[0] == '[' && line[line.len() - 1] == ']' {
            section = subseq(line.as_slice(), 1, line.len() - 1);
            if eq_str(section.as_slice(), "Hotkey/AltTriggerKeys") {
                has_alt = true;
            }
        } else {
            match split_once_exec(line.as_slice(), '=') {
                None => {},
                Some((k0, v0)) => {
                    let k = trim_exec(k0.as_slice());
                    let v = trim_exec(v0.as_slice());
                    if eq_str(section.as_slice(), "Behavior") {
                        if eq_str(k.as_slice(), "ShareInputState") {
                            share = v;
                        } else if eq_str(k.as_slice(), "ActiveByDefault") {
                            let t = chars_of("true");
                            active = eq_ignore_ascii_case_exec(v.as_slice(), t.as_slice());
                        }
                    } else if eq_str(section.as_slice(), "Hotkey") && eq_str(k.as_slice(), "AltTriggerKeys") {
                        has_alt = true;
                        shift = shift || eq_str(v.as_slice(), "Shift_L");
                    } else if eq_str(section.as_slice(), "Hotkey/AltTriggerKeys") {
                        shift = shift || eq_str(v.as_slice(), "Shift_L");
                    }
                },
            }
        }
        i += 1;
    }
    assert(lv.take(ls.len() as int) =~= lv);
    if !has_alt {
        shift = true;
    }
    Fcitx5Behavior { share_input_state: string_of(share), active_by_default: active, shift_alt_trigger: shift }
}


// ---------------------------------------------------------------- fcitx5 rewrite

/// A section of an INI file: its header (none before the first header) and
/// its lines as written.
pub struct IniSection {
    pub header: Option<Vec<char>>,
    pub lines: Vec<Vec<char>>,
}

pub struct SectionView {
    pub header: Option<Seq<char>>,
    pub lines: Seq<Seq<char>>,
}

pub open spec fn opt_chars(o: Option<Vec<char>>) -> Option<Seq<char>> {
    match o {
        Some(v) => Some(v@),
        None => None,
    }
}

impl View for IniSection {
    type V = SectionView;

    open spec fn view(&self) -> SectionView {
        SectionView { header: opt_chars(self.header), lines: self.lines.deep_view() }
    }
}

pub open spec fn sections_view(v: Seq<IniSection>) -> Seq<SectionView> {
    v.map_values(|s: IniSection| s@)
}

/// Whether `line` assigns `key` (`key = value`, spaces around either ignored).
pub open spec fn is_key_line(line: Seq<char>, key: Seq<char>) -> bool {
    match split_once(trim(line), '=') {
        Some((k, _)) => trim(k) == key,
        None => false,
    }
}

pub open spec fn has_key(lines: Seq<Seq<char>>, key: Seq<char>) -> bool {
    exists|i: int| 0 <= i < lines.len() && is_key_line(#[trigger] lines[i], key)
}

/// The lines with the first assignment of `key` replaced by `new_line` and
/// every later assignment of `key` removed.
pub open spec fn replace_key_lines(lines: Seq<Seq<char>>, key: Seq<char>, new_line: Seq<char>, found: bool) -> Seq<Seq<char>>
    decreases lines.len(),
{
    if lines.len() == 0 {
        seq![]
    } else if is_key_line(lines[0], key) {
        if found {
            replace_key_lines(lines.drop_first(), key, new_line, true)
        } else {
            seq![new_line] + replace_key_lines(lines.drop_first(), key, new_line, true)
        }
    } else {
        seq![lines[0]] + replace_key_lines(lines.drop_first(), key, new_line, found)
    }
}

/// Where the blank lines that end a section begin.
pub open spec fn content_end(lines: Seq<Seq<char>>) -> int
    decreases lines.len(),
{
    if lines.len() > 0 && trim(lines.last()).len() == 0 {
        content_end(lines.drop_last())
    } else {
        lines.len() as int
    }
}

/// A section's lines with `key` set to the given line: in place of its first
/// assignment, or else before the blank lines that end the section.
pub open spec fn set_key_lines(lines: Seq<Seq<char>>, key: Seq<char>, new_line: Seq<char>) -> Seq<Seq<char>> {
    if has_key(lines, key) {
        replace_key_lines(lines, key, new_line, false)
    } else {
        let at = content_end(lines);
        lines.take(at) + seq![new_line] + lines.skip(at)
    }
}

/// Index of the first section with the given header.
pub open spec fn section_index(secs: Seq<SectionView>, name: Seq<char>) -> Option<int>
    decreases secs.len(),
{
    if secs.len() == 0 {
        None
    } else if secs[0].header == Some(name) {
        Some(0)
    } else {
        match section_index(secs.drop_first(), name) {
            Some(i) => Some(i + 1),
            None => None,
        }
    }
}

/// `key=value` set in the named section; a missing section is added at the
/// end of the file, after a blank line when the file does not end in one.
pub open spec fn spec_set_ini_key(secs: Seq<SectionView>, section: Seq<char>, key: Seq<char>, value: Seq<char>) -> Seq<SectionView> {
    let new_line = key + "="@ + value;
    match section_index(secs, section) {
        Some(i) => secs.update(i, SectionView { header: secs[i].header, lines: set_key_lines(secs[i].lines, key, new_line) }),
        None => {
            let base = if secs.len() > 0 && secs.last().lines.len() > 0 && trim(secs.last().lines.last()).len() > 0 {
                secs.update(secs.len() - 1, SectionView { header: secs.last().header, lines: secs.last().lines.push(seq![]) })
            } else {
                secs
            };
            base.push(SectionView { header: Some(section), lines: seq![new_line] })
        },
    }
}

pub proof fn lemma_section_index(secs: Seq<SectionView>, name: Seq<char>)
    ensures
        match section_index(secs, name) {
            Some(i) => 0 <= i < secs.len() && secs[i].header == Some(name)
                && forall|j: int| 0 <= j < i ==> secs[j].header != Some(name),
            None => forall|j: int| 0 <= j < secs.len() ==> secs[j].header != Some(name),
        },
    decreases secs.len(),
{
    if secs.len() > 0 && secs[0].header != Some(name) {
        lemma_section_index(secs.drop_first(), name);
        assert forall|j: int| 0 < j < secs.len() implies secs[j] == secs.drop_first()[j - 1] by {}
    }
}

fn is_key_line_exec(line: &[char], key: &[char]) -> (r: bool)
    ensures
        r == is_key_line(line@, key@),
{
    let t = trim_exec(line);
    match split_once_exec(t.as_slice(), '=') {
        Some((k, _)) => {
            let kt = trim_exec(k.as_slice());
            eq(kt.as_slice(), key)
        },
        None => false,
    }
}

fn has_key_exec(lines: &Vec<Vec<char>>, key: &[char]) -> (r: bool)
    ensures
        r == has_key(lines.deep_view(), key@),
{
    let ghost lv = lines.deep_view();
    let mut i: usize = 0;
    while i < lines.len()
        invariant
            i <= lines.len(),
            lv == lines.deep_view(),
            forall|j: int| 0 <= j < i ==> !is_key_line(#[trigger] lv[j], key@),
        decreases lines.len() - i,
    {
        proof { lemma_deep_view_chars(&lines[i as int]); }
        if is_key_line_exec(lines[i].as_slice(), key) {
            assert(is_key_line(lv[i as int], key@));
            return true;
        }
        i += 1;
    }
    false
}

fn section_index_exec(sections: &Vec<IniSection>, name: &[char]) -> (r: Option<usize>)
    ensures
        r matches Some(i) ==> section_index(sections_view(sections@), name@) == Some(i as int),
        r is None ==> section_index(sections_view(sections@), name@) is None,
{
    let ghost sv = sections_view(sections@);
    proof { lemma_section_index(sv, name@); }
    let mut idx: usize = 0;
    while idx < sections.len()
        invariant
            idx <= sections.len(),
            sv == sections_view(sections@),
            forall|j: int| 0 <= j < idx ==> sv[j].header != Some(name@),
        decreases sections.len() - idx,
    {
        if header_is(&sections[idx].header, name) {
            assert(sv[idx as int] == sections@[idx as int]@);
            assert(sv[idx as int].header == Some(name@));
            proof { lemma_section_index(sv, name@); }
            return Some(idx);
        }
        assert(sv[idx as int] == sections@[idx as int]@);
        idx += 1;
    }
    proof { lemma_section_index(sv, name@); }
    None
}

fn set_key_lines_exec(lines: &Vec<Vec<char>>, key: &[char], new_line: &Vec<char>) -> (r: Vec<Vec<char>>)
    ensures
        r.deep_view() == set_key_lines(lines.deep_view(), key@, new_line@),
{
    let ghost lv = lines.deep_view();
    let found_any = has_key_exec(lines, key);
    let mut out: Vec<Vec<char>> = Vec::new();
    if found_any {
        assert(has_key(lv, key@));
        let mut found = false;
        let mut i: usize = 0;
        assert(lv.skip(0) =~= lv);
        assert(out.deep_view() =~= Seq::<Seq<char>>::empty());
        while i < lines.len()
            invariant
                i <= lines.len(),
                lv == lines.deep_view(),
                replace_key_lines(lv, key@, new_line@, false)
                    == out.deep_view() + replace_key_lines(lv.skip(i as int), key@, new_line@, found),
            decreases lines.len() - i,
        {
            proof { lemma_deep_view_chars(&lines[i as int]); }
            assert(lv.skip(i as int)[0] == lines@[i as int]@);
            assert(lv.skip(i as int).drop_first() =~= lv.skip(i + 1));
            if is_key_line_exec(lines[i].as_slice(), key) {
                if !found {
                    push_piece(&mut out, new_line.clone());
                    found = true;
                }
            } else {
                push_piece(&mut out, lines[i].clone());
            }
            i += 1;
        }
        assert(lv.skip(lines.len() as int) =~= Seq::<Seq<char>>::empty());
        assert(out.deep_view() =~= out.deep_view() + Seq::<Seq<char>>::empty());
        out
    } else {
        assert(!has_key(lv, key@));
        let mut at: usize = lines.len();
        assert(lv.take(lines.len() as int) =~= lv);
        while at > 0 && is_blank(lines[at - 1].as_slice())
            invariant
                at <= lines.len(),
                lv == lines.deep_view(),
                content_end(lv) == content_end(lv.take(at as int)),
            decreases at,
        {
            proof { lemma_deep_view_chars(&lines[at - 1]); }
            assert(lv.take(at as int).drop_last() =~= lv.take(at - 1));
            at -= 1;
        }
        proof {
            if at > 0 {
                lemma_deep_view_chars(&lines[at - 1]);
            }
        }
        assert(content_end(lv) == at);
        let mut k: usize = 0;
        assert(out.deep_view() =~= lv.take(0));
        while k < at
            invariant
                k <= at <= lines.len(),
                lv == lines.deep_view(),
                out.deep_view() == lv.take(k as int),
            decreases at - k,
        {
            proof { lemma_deep_view_chars(&lines[k as int]); }
            push_piece(&mut out, lines[k].clone());
            assert(lv.take(k + 1) =~= lv.take(k as int).push(lv[k as int]));
            k += 1;
        }
        push_piece(&mut out, new_line.clone());
        let ghost mid = out.deep_view();
        let mut k: usize = at;
        while k < lines.len()
            invariant
                at <= k <= lines.len(),
                lv == lines.deep_view(),
                out.deep_view() == mid + lv.subrange(at as int, k as int),
            decreases lines.len() - k,
        {
            proof { lemma_deep_view_chars(&lines[k as int]); }
            push_piece(&mut out, lines[k].clone());
            assert(lv.subrange(at as int, k + 1) =~= lv.subrange(at as int, k as int).push(lv[k as int]));
            k += 1;
        }
        assert(lv.subrange(at as int, lines.len() as int) =~= lv.skip(at as int));
        out
    }
}

fn is_blank(line: &[char]) -> (r: bool)
    ensures
        r == (trim(line@).len() == 0),
{
    let t = trim_exec(line);
    t.len() == 0
}

fn clone_section(s: &IniSection) -> (r: IniSection)
    ensures
        r@ == s@,
{
    let header = match &s.header {
        Some(h) => Some(h.clone()),
        None => None,
    };
    let mut lines: Vec<Vec<char>> = Vec::new();
    let mut i: usize = 0;
    assert(lines.deep_view() =~= s.lines.deep_view().take(0));
    while i < s.lines.len()
        invariant
            i <= s.lines.len(),
            lines.deep_view() == s.lines.deep_view().take(i as int),
        decreases s.lines.len() - i,
    {
        proof { lemma_deep_view_chars(&s.lines[i as int]); }
        push_piece(&mut lines, s.lines[i].clone());
        assert(s.lines.deep_view().take(i + 1) =~= s.lines.deep_view().take(i as int).push(s.lines.deep_view()[i as int]));
        i += 1;
    }
    assert(s.lines.deep_view().take(s.lines.len() as int) =~= s.lines.deep_view());
    IniSection { header, lines }
}

fn push_section(v: &mut Vec<IniSection>, s: IniSection)
    ensures
        sections_view(final(v)@) == sections_view(old(v)@).push(s@),
{
    let ghost sv = s@;
    v.push(s);
    assert(sections_view(v@) =~= sections_view(old(v)@).push(sv));
}

fn header_is(h: &Option<Vec<char>>, name: &[char]) -> (r: bool)
    ensures
        r == (opt_chars(*h) == Some(name@)),
{
    match h {
        Some(x) => eq(x.as_slice(), name),
        None => false,
    }
}

/// Sets `key=value` in the named section (see `spec_set_ini_key`).
fn set_ini_key(sections: &mut Vec<IniSection>, section: &[char], key: &[char], value: &[char])
    ensures
        sections_view(final(sections)@) == spec_set_ini_key(sections_view(old(sections)@), section@, key@, value@),
{
    let ghost sv = sections_view(sections@);
    proof { lemma_section_index(sv, section@); }
    let mut new_line: Vec<char> = Vec::new();
    extend(&mut new_line, key);
    new_line.push('=');
    extend(&mut new_line, value);
    assert(new_line@ =~= key@ + "="@ + value@) by { reveal_strlit("="); }
    let found_idx = section_index_exec(sections, section);
    let mut out: Vec<IniSection> = Vec::new();
    if let Some(idx) = found_idx {
        let mut j: usize = 0;
        assert(sections_view(out@) =~= Seq::<SectionView>::empty());
        while j < sections.len()
            invariant
                j <= sections.len(),
                idx < sections.len(),
                sv == sections_view(sections@),
                sections_view(out@) == sv.update(idx as int, SectionView {
                    header: sv[idx as int].header,
                    lines: set_key_lines(sv[idx as int].lines, key@, new_line@),
                }).take(j as int),
            decreases sections.len() - j,
        {
            let ghost want = sv.update(idx as int, SectionView {
                header: sv[idx as int].header,
                lines: set_key_lines(sv[idx as int].lines, key@, new_line@),
            });
            if j == idx {
                let lines = set_key_lines_exec(&sections[j].lines, key, &new_line);
                let header = match &sections[j].header {
                    Some(h) => Some(h.clone()),
                    None => None,
                };
                push_section(&mut out, IniSection { header, lines });
            } else {
                let c = clone_section(&sections[j]);
                push_section(&mut out, c);
            }
            assert(want.take(j + 1) =~= want.take(j as int).push(want[j as int]));
            j += 1;
        }
        let ghost want = sv.update(idx as int, SectionView {
            header: sv[idx as int].header,
            lines: set_key_lines(sv[idx as int].lines, key@, new_line@),
        });
        assert(want.take(sections.len() as int) =~= want);
    } else {
        let n = sections.len();
        let mut j: usize = 0;
        let pad = n > 0 && sections[n - 1].lines.len() > 0
            && !is_blank(sections[n - 1].lines[sections[n - 1].lines.len() - 1].as_slice());
        proof {
            if n > 0 && sections@[n - 1].lines.len() > 0 {
                lemma_deep_view_chars(&sections@[n - 1].lines@[sections@[n - 1].lines.len() - 1]);
            }
        }
        let ghost base = if pad {
            sv.update(n - 1, SectionView { header: sv.last().header, lines: sv.last().lines.push(seq![]) })
        } else {
            sv
        };
        assert(sections_view(out@) =~= Seq::<SectionView>::empty());
        while j < n
            invariant
                j <= n,
                n == sections.len(),
                sv == sections_view(sections@),
                base == (if pad {
                    sv.update(n - 1, SectionView { header: sv.last().header, lines: sv.last().lines.push(seq![]) })
                } else {
                    sv
                }),
                pad ==> n > 0,
                sections_view(out@) == base.take(j as int),
            decreases n - j,
        {
            let mut c = clone_section(&sections[j]);
            if pad && j == n - 1 {
                let e: Vec<char> = Vec::new();
                push_piece(&mut c.lines, e);
                assert(c@ == base[j as int]);
            }
            push_section(&mut out, c);
            assert(base.take(j + 1) =~= base.take(j as int).push(base[j as int]));
            j += 1;
        }
        assert(base.take(n as int) =~= base);
        let mut nl: Vec<Vec<char>> = Vec::new();
        push_piece(&mut nl, new_line);
        let hv = subseq(section, 0, section.len());
        assert(hv@ =~= section@);
        push_section(&mut out, IniSection { header: Some(hv), lines: nl });
        assert(nl.deep_view() =~= seq![new_line@]);
    }
    *sections = out;
}


pub open spec fn alt_header() -> Seq<char> {
    "Hotkey/AltTriggerKeys"@
}

/// The sections with one more line in the last of them.
pub open spec fn add_line(secs: Seq<SectionView>, raw: Seq<char>) -> Seq<SectionView> {
    secs.update(secs.len() - 1, SectionView { header: secs.last().header, lines: secs.last().lines.push(raw) })
}

/// The sections of an INI file: a headerless one for what precedes the first
/// header, then one per header; lines keep their original spacing.
pub open spec fn split_sections(ls: Seq<Seq<char>>) -> Seq<SectionView>
    decreases ls.len(),
{
    if ls.len() == 0 {
        seq![SectionView { header: None, lines: seq![] }]
    } else {
        let secs = split_sections(ls.drop_last());
        let t = trim(ls.last());
        if is_header_line(t) {
            secs.push(SectionView { header: Some(header_name(t)), lines: seq![] })
        } else {
            add_line(secs, ls.last())
        }
    }
}

pub proof fn lemma_split_sections_len(ls: Seq<Seq<char>>)
    ensures
        split_sections(ls).len() >= 1,
    decreases ls.len(),
{
    if ls.len() > 0 {
        lemma_split_sections_len(ls.drop_last());
    }
}

/// The value of a numbered list entry (`N=value`), if the line is one.
pub open spec fn alt_entry(line: Seq<char>) -> Option<Seq<char>> {
    match split_once(trim(line), '=') {
        Some((k, v)) => if parse_usize(trim(k)) is Some { Some(trim(v)) } else { None },
        None => None,
    }
}

/// A key list without its `Shift_L` entries, renumbered from `idx`; other
/// lines stay as they are.
pub open spec fn renumber_from(lines: Seq<Seq<char>>, idx: nat) -> Seq<Seq<char>>
    decreases lines.len(),
{
    if lines.len() == 0 {
        seq![]
    } else {
        match alt_entry(lines[0]) {
            None => seq![lines[0]] + renumber_from(lines.drop_first(), idx),
            Some(v) => if v == "Shift_L"@ {
                renumber_from(lines.drop_first(), idx)
            } else {
                seq![decimal(idx) + "="@ + v] + renumber_from(lines.drop_first(), idx + 1)
            },
        }
    }
}

/// The number of entries other than `Shift_L` in a key list.
pub open spec fn kept_entries(lines: Seq<Seq<char>>) -> nat
    decreases lines.len(),
{
    if lines.len() == 0 {
        0
    } else {
        match alt_entry(lines[0]) {
            Some(v) => if v != "Shift_L"@ { 1 + kept_entries(lines.drop_first()) } else { kept_entries(lines.drop_first()) },
            None => kept_entries(lines.drop_first()),
        }
    }
}

pub open spec fn renumber_section(s: SectionView) -> SectionView {
    if s.header == Some(alt_header()) {
        SectionView { header: s.header, lines: renumber_from(s.lines, 0) }
    } else {
        s
    }
}

/// Whether some AltTriggerKeys list keeps an entry other than `Shift_L`.
pub open spec fn alt_keys_retained(secs: Seq<SectionView>) -> bool {
    exists|i: int| 0 <= i < secs.len() && (#[trigger] secs[i]).header == Some(alt_header())
        && kept_entries(secs[i].lines) > 0
}

/// The sections without the AltTriggerKeys ones (only the empty ones, when
/// `only_empty`).
pub open spec fn drop_alt(secs: Seq<SectionView>, only_empty: bool) -> Seq<SectionView>
    decreases secs.len(),
{
    if secs.len() == 0 {
        seq![]
    } else {
        let r = drop_alt(secs.drop_last(), only_empty);
        let s = secs.last();
        if s.header == Some(alt_header()) && (!only_empty || s.lines.len() == 0) {
            r
        } else {
            r.push(s)
        }
    }
}

/// The sections of the patched configuration: the left-Shift English toggle
/// removed (an explicitly empty `AltTriggerKeys=` when no other trigger key
/// remains, since a missing list means the default `Shift_L`), and
/// `ShareInputState=All`, `ActiveByDefault=True` in `[Behavior]`.
pub open spec fn patched_sections(content: Seq<char>) -> Seq<SectionView> {
    let secs0 = split_sections(lines(content));
    let secs1 = secs0.map_values(|s: SectionView| renumber_section(s));
    let secs2 = if alt_keys_retained(secs0) {
        drop_alt(secs1, true)
    } else {
        spec_set_ini_key(drop_alt(secs1, false), "Hotkey"@, "AltTriggerKeys"@, ""@)
    };
    let secs3 = spec_set_ini_key(secs2, "Behavior"@, "ShareInputState"@, "All"@);
    spec_set_ini_key(secs3, "Behavior"@, "ActiveByDefault"@, "True"@)
}

pub open spec fn render_lines(ls: Seq<Seq<char>>) -> Seq<char>
    decreases ls.len(),
{
    if ls.len() == 0 {
        seq![]
    } else {
        render_lines(ls.drop_last()) + ls.last() + "\n"@
    }
}

pub open spec fn render_section(s: SectionView) -> Seq<char> {
    (match s.header {
        Some(h) => "["@ + h + "]\n"@,
        None => seq![],
    }) + render_lines(s.lines)
}

/// An INI file written back from its sections, every line ending in `\n`.
pub open spec fn render(secs: Seq<SectionView>) -> Seq<char>
    decreases secs.len(),
{
    if secs.len() == 0 {
        seq![]
    } else {
        render(secs.drop_last()) + render_section(secs.last())
    }
}

/// The patched configuration text; a file that did not end in a newline
/// still does not.
pub open spec fn spec_patch_fcitx5_behavior(content: Seq<char>) -> Seq<char> {
    let out = render(patched_sections(content));
    if content.len() > 0 && content.last() != '\n' && out.len() > 0 {
        out.drop_last()
    } else {
        out
    }
}

fn split_sections_exec(ls: &Vec<Vec<char>>) -> (r: Vec<IniSection>)
    ensures
        sections_view(r@) == split_sections(ls.deep_view()),
{
    let ghost lv = ls.deep_view();
    let mut secs: Vec<IniSection> = Vec::new();
    let e0: Vec<Vec<char>> = Vec::new();
    assert(e0.deep_view() =~= Seq::<Seq<char>>::empty());
    push_section(&mut secs, IniSection { header: None, lines: e0 });
    assert(lv.take(0) =~= Seq::<Seq<char>>::empty());
    assert(sections_view(secs@) =~= split_sections(lv.take(0)));
    let mut i: usize = 0;
    while i < ls.len()
        invariant
            i <= ls.len(),
            lv == ls.deep_view(),
            sections_view(secs@) == split_sections(lv.take(i as int)),
            secs.len() >= 1,
        decreases ls.len() - i,
    {
        proof { lemma_deep_view_chars(&ls[i as int]); }
        assert(lv.take(i + 1).drop_last() =~= lv.take(i as int));
        assert(lv.take(i + 1).last() == ls@[i as int]@);
        let t = trim_exec(ls[i].as_slice());
        if t.len() > 0 && t[0] == '[' && t[t.len() - 1] == ']' {
            let h = subseq(t.as_slice(), 1, t.len() - 1);
            let e: Vec<Vec<char>> = Vec::new();
            assert(e.deep_view() =~= Seq::<Seq<char>>::empty());
            push_section(&mut secs, IniSection { header: Some(h), lines: e });
        } else {
            let ghost before = sections_view(secs@);
            let mut last = match secs.pop() {
                Some(x) => x,
                None => IniSection { header: None, lines: Vec::new() },
            };
            assert(before.last() == last@);
            push_piece(&mut last.lines, ls[i].clone());
            push_section(&mut secs, last);
            assert(sections_view(secs@) =~= add_line(before, lv[i as int]));
        }
        i += 1;
    }
    assert(lv.take(ls.len() as int) =~= lv);
    secs
}

fn renumber_exec(lines: &Vec<Vec<char>>) -> (r: (Vec<Vec<char>>, usize))
    ensures
        r.0.deep_view() == renumber_from(lines.deep_view(), 0),
        r.1 == kept_entries(lines.deep_view()),
{
    let ghost lv = lines.deep_view();
    let mut out: Vec<Vec<char>> = Vec::new();
    let mut entry: usize = 0;
    let mut i: usize = 0;
    assert(lv.skip(0) =~= lv);
    assert(out.deep_view() =~= Seq::<Seq<char>>::empty());
    while i < lines.len()
        invariant
            i <= lines.len(),
            entry <= i,
            lv == lines.deep_view(),
            renumber_from(lv, 0) == out.deep_view() + renumber_from(lv.skip(i as int), entry as nat),
            kept_entries(lv) == entry + kept_entries(lv.skip(i as int)),
        decreases lines.len() - i,
    {
        proof { lemma_deep_view_chars(&lines[i as int]); }
        assert(lv.skip(i as int)[0] == lines@[i as int]@);
        assert(lv.skip(i as int).drop_first() =~= lv.skip(i + 1));
        let t = trim_exec(lines[i].as_slice());
        match split_once_exec(t.as_slice(), '=') {
            Some((k, v)) => {
                let kt = trim_exec(k.as_slice());
                let vt = trim_exec(v.as_slice());
                if parse_usize_exec(kt.as_slice()).is_some() {
                    if !eq_str(vt.as_slice(), "Shift_L") {
                        let mut nl: Vec<char> = Vec::new();
                        push_decimal(&mut nl, entry as u64);
                        nl.push('=');
                        extend(&mut nl, vt.as_slice());
                        assert(nl@ =~= decimal(entry as nat) + "="@ + vt@) by { reveal_strlit("="); }
                        push_piece(&mut out, nl);
                        entry += 1;
                    }
                } else {
                    push_piece(&mut out, lines[i].clone());
                }
            },
            None => {
                push_piece(&mut out, lines[i].clone());
            },
        }
        i += 1;
    }
    assert(lv.skip(lines.len() as int) =~= Seq::<Seq<char>>::empty());
    assert(out.deep_view() =~= out.deep_view() + Seq::<Seq<char>>::empty());
    (out, entry)
}

fn render_exec(secs: &Vec<IniSection>) -> (r: Vec<char>)
    ensures
        r@ == render(sections_view(secs@)),
{
    let ghost sv = sections_view(secs@);
    let mut out: Vec<char> = Vec::new();
    let mut i: usize = 0;
    assert(sv.take(0) =~= Seq::<SectionView>::empty());
    while i < secs.len()
        invariant
            i <= secs.len(),
            sv == sections_view(secs@),
            out@ == render(sv.take(i as int)),
        decreases secs.len() - i,
    {
        let ghost start = out@;
        let s = &secs[i];
        match &s.header {
            Some(h) => {
                out.push('[');
                extend(&mut out, h.as_slice());
                extend_str(&mut out, "]\n");
                assert(out@ =~= start + ("["@ + h@ + "]\n"@)) by { reveal_strlit("["); }
            },
            None => {},
        }
        let ghost mid = out@;
        let ghost lv = s.lines.deep_view();
        let mut j: usize = 0;
        assert(lv.take(0) =~= Seq::<Seq<char>>::empty());
        while j < s.lines.len()
            invariant
                j <= s.lines.len(),
                lv == s.lines.deep_view(),
                out@ == mid + render_lines(lv.take(j as int)),
            decreases s.lines.len() - j,
        {
            proof { lemma_deep_view_chars(&s.lines[j as int]); }
            extend(&mut out, s.lines[j].as_slice());
            out.push('\n');
            assert(lv.take(j + 1).drop_last() =~= lv.take(j as int));
            assert(out@ =~= mid + render_lines(lv.take(j + 1))) by { reveal_strlit("\n"); }
            j += 1;
        }
        assert(lv.take(s.lines.len() as int) =~= lv);
        assert(sv.take(i + 1).drop_last() =~= sv.take(i as int));
        assert(sv[i as int] == s@);
        assert(out@ =~= render(sv.take(i + 1)));
        i += 1;
    }
    assert(sv.take(secs.len() as int) =~= sv);
    out
}

/// The configuration rewritten to the input-state policy that keeps the
/// Korean/English state (see `spec_patch_fcitx5_behavior`): only the policy
/// keys change, every other line (comments, other hotkeys) stays.
pub fn patch_fcitx5_behavior(content: &str) -> (r: String)
    ensures
        r@ == spec_patch_fcitx5_behavior(content@),
{
    let ls = lines_of(content);
    let secs0 = split_sections_exec(&ls);
    let ghost s0 = sections_view(secs0@);
    let ghost s1 = s0.map_values(|s: SectionView| renumber_section(s));
    let alt = chars_of("Hotkey/AltTriggerKeys");
    let mut secs1: Vec<IniSection> = Vec::new();
    let mut retained = false;
    let mut i: usize = 0;
    assert(sections_view(secs1@) =~= s1.take(0));
    while i < secs0.len()
        invariant
            i <= secs0.len(),
            s0 == sections_view(secs0@),
            s1 == s0.map_values(|s: SectionView| renumber_section(s)),
            alt@ == alt_header(),
            sections_view(secs1@) == s1.take(i as int),
            retained == exists|j: int| 0 <= j < i && (#[trigger] s0[j]).header == Some(alt_header())
                && kept_entries(s0[j].lines) > 0,
        decreases secs0.len() - i,
    {
        assert(s0[i as int] == secs0@[i as int]@);
        if header_is(&secs0[i].header, alt.as_slice()) {
            let (nl, kept) = renumber_exec(&secs0[i].lines);
            if kept > 0 {
                retained = true;
            }
            let header = match &secs0[i].header {
                Some(h) => Some(h.clone()),
                None => None,
            };
            push_section(&mut secs1, IniSection { header, lines: nl });
        } else {
            let c = clone_section(&secs0[i]);
            push_section(&mut secs1, c);
        }
        assert(s1.take(i + 1) =~= s1.take(i as int).push(s1[i as int]));
        i += 1;
    }
    assert(s1.take(secs0.len() as int) =~= s1);
    assert(retained == alt_keys_retained(s0));
    // drop AltTriggerKeys sections
    let mut secs2: Vec<IniSection> = Vec::new();
    let mut j: usize = 0;
    assert(s1.take(0) =~= Seq::<SectionView>::empty());
    assert(sections_view(secs2@) =~= Seq::<SectionView>::empty());
    while j < secs1.len()
        invariant
            j <= secs1.len(),
            s1 == sections_view(secs1@),
            alt@ == alt_header(),
            sections_view(secs2@) == drop_alt(s1.take(j as int), retained),
        decreases secs1.len() - j,
    {
        assert(s1.take(j + 1).drop_last() =~= s1.take(j as int));
        assert(s1.take(j + 1).last() == secs1@[j as int]@);
        let is_alt = header_is(&secs1[j].header, alt.as_slice());
        if is_alt && (!retained || secs1[j].lines.len() == 0) {
        } else {
            let c = clone_section(&secs1[j]);
            push_section(&mut secs2, c);
        }
        j += 1;
    }
    assert(s1.take(secs1.len() as int) =~= s1);
    if !retained {
        let h = chars_of("Hotkey");
        let k = chars_of("AltTriggerKeys");
        let v = chars_of("");
        set_ini_key(&mut secs2, h.as_slice(), k.as_slice(), v.as_slice());
    }
    let b = chars_of("Behavior");
    let k1 = chars_of("ShareInputState");
    let v1 = chars_of("All");
    set_ini_key(&mut secs2, b.as_slice(), k1.as_slice(), v1.as_slice());
    let k2 = chars_of("ActiveByDefault");
    let v2 = chars_of("True");
    set_ini_key(&mut secs2, b.as_slice(), k2.as_slice(), v2.as_slice());
    let mut out = render_exec(&secs2);
    let cc = chars_of(content);
    if cc.len() > 0 && cc[cc.len() - 1] != '\n' && out.len() > 0 {
        out.pop();
        assert(out@ =~= render(sections_view(secs2@)).drop_last());
    }
    string_of(out)
}


// ---------------------------------------------------------------- daemons

/// Restarts fcitx5 through its unit when there is one (no duplicate start),
/// else once the old process has exited.  `--replace` would let two instances
/// race for the one Wayland input method of the seat.  Holds no single quote:
/// the resume hook embeds it in '...'.
pub const FCITX5_RESTART_SH: &'static str = "pkill -x fcitx5 2>/dev/null; \
    for i in 1 2 3 4 5 6 7 8 9 10; do pgrep -x fcitx5 >/dev/null || break; sleep 0.3; done; \
    if systemctl --user cat fcitx5-korean.service >/dev/null 2>&1; then \
    systemctl --user restart fcitx5-korean.service; \
    else setsid fcitx5 -d </dev/null >/dev/null 2>&1 & fi";

/// Where the resume hook is installed.
pub const RESUME_HOOK_PATH: &'static str = "/etc/systemd/system-sleep/zz-popmgr-ime-restart";
/// The marker line of the current resume hook.
pub const RESUME_HOOK_MARKER: &'static str = "# popmgr-resume-ime-hook: v3";

/// Whether an installed hook is the current one: it holds the marker.
pub fn resume_hook_installed(content: &str) -> (r: bool)
    ensures
        r == crate::text::contains(content@, RESUME_HOOK_MARKER@),
{
    crate::text::contains_str(chars_of(content).as_slice(), RESUME_HOOK_MARKER)
}

/// The system-sleep hook; `__FCITX5_RESTART__` stands for the fcitx5 restart.
pub const RESUME_HOOK_TEMPLATE: &'static str = r#"#!/bin/sh
# popmgr-resume-ime-hook: v3
# 절전 복귀 후 활성 IME 데몬을 재시작해 한글 입력을 복구한다.

[ "$1" = "post" ] || exit 0
case "$2" in
  suspend|hibernate|hybrid-sleep|suspend-then-hibernate) ;;
  *) exit 0 ;;
esac

for d in /run/user/[0-9]*; do
  uid="${d##*/}"
  [ "$uid" -ge 1000 ] 2>/dev/null || continue
  [ -S "$d/bus" ] || continue
  user="$(getent passwd "$uid" | cut -d: -f1)"
  [ -n "$user" ] || continue

  for daemon in fcitx5 ibus-daemon kime; do
    pgrep -x -u "$uid" "$daemon" >/dev/null 2>&1 || continue
    case "$daemon" in
      fcitx5)      cmd='__FCITX5_RESTART__' ;;
      ibus-daemon) cmd='ibus-daemon -drxR' ;;
      kime)        cmd='pkill -x kime; sleep 0.3; kime' ;;
    esac

    # 2초 뒤(컴포지터 안정화) 사용자 매니저에서 실행. KillMode=process: 데몬화한 자식이 유닛 종료 때 죽지 않게.
    if runuser -u "$user" -- env XDG_RUNTIME_DIR="$d" DBUS_SESSION_BUS_ADDRESS="unix:path=$d/bus" \
        systemd-run --user --collect --quiet --on-active=2 -p KillMode=process /bin/sh -c "$cmd" \
        >/dev/null 2>&1; then
      logger -t popmgr-ime "resume: $daemon restart scheduled for $user"
    else
      logger -t popmgr-ime "resume: systemd-run failed for $user"
    fi
    break
  done
done
"#;

/// The resume hook with the fcitx5 restart command filled in.
pub open spec fn spec_resume_hook_script() -> Seq<char> {
    crate::text::replace(RESUME_HOOK_TEMPLATE@, "__FCITX5_RESTART__"@, FCITX5_RESTART_SH@)
}

pub fn resume_hook_script() -> (r: String)
    ensures
        r@ == spec_resume_hook_script(),
{
    let t = chars_of(RESUME_HOOK_TEMPLATE);
    proof { reveal_strlit("__FCITX5_RESTART__"); }
    let v = crate::text::replace_str(t.as_slice(), "__FCITX5_RESTART__", FCITX5_RESTART_SH);
    string_of(v)
}


/// The input methods the tool manages.
#[derive(Debug, Clone, Copy, PartialEq, Eq, Structural)]
pub enum ImeKind {
    Ibus,
    Fcitx5,
    Kime,
}

pub open spec fn spec_label(k: ImeKind) -> Seq<char> {
    match k {
        ImeKind::Ibus => "ibus"@,
        ImeKind::Fcitx5 => "fcitx5"@,
        ImeKind::Kime => "kime"@,
    }
}

pub open spec fn spec_pkgs(k: ImeKind) -> Seq<Seq<char>> {
    match k {
        ImeKind::Ibus => seq!["ibus"@, "ibus-hangul"@],
        ImeKind::Fcitx5 => seq!["fcitx5"@, "fcitx5-hangul"@, "fcitx5-frontend-gtk3"@, "fcitx5-frontend-gtk4"@],
        ImeKind::Kime => seq![],
    }
}

/// The `/etc/environment` assignments that select an input method.
pub open spec fn spec_env_lines(k: ImeKind) -> Seq<(Seq<char>, Seq<char>)> {
    match k {
        ImeKind::Ibus => seq![
            ("GTK_IM_MODULE"@, "ibus"@), ("QT_IM_MODULE"@, "ibus"@),
            ("XMODIFIERS"@, "@im=ibus"@), ("INPUT_METHOD"@, "ibus"@)],
        ImeKind::Fcitx5 => seq![
            ("GTK_IM_MODULE"@, "fcitx"@), ("QT_IM_MODULE"@, "fcitx"@),
            ("XMODIFIERS"@, "@im=fcitx"@), ("INPUT_METHOD"@, "fcitx5"@)],
        ImeKind::Kime => seq![
            ("GTK_IM_MODULE"@, "kime"@), ("QT_IM_MODULE"@, "kime"@),
            ("XMODIFIERS"@, "@im=kime"@), ("INPUT_METHOD"@, "kime"@)],
    }
}

/// The value an environment assignment gives `key`, the first one that sets it.
pub open spec fn env_value(ls: Seq<(Seq<char>, Seq<char>)>, key: Seq<char>) -> Option<Seq<char>>
    decreases ls.len(),
{
    if ls.len() == 0 {
        None
    } else if ls[0].0 == key {
        Some(ls[0].1)
    } else {
        env_value(ls.drop_first(), key)
    }
}

/// The environment an input method writes names that input method only: GTK
/// and Qt load the same module, whose name begins the method's own name;
/// XIM is `@im=` and that module; INPUT_METHOD is the method's own name.
/// So no value names another input method.
pub proof fn law_env_lines_name_one_method(k: ImeKind)
    ensures
        ({
            let ls = spec_env_lines(k);
            let label = spec_label(k);
            &&& env_value(ls, "GTK_IM_MODULE"@) matches Some(g)
            &&& env_value(ls, "QT_IM_MODULE"@) == Some(g)
            &&& env_value(ls, "XMODIFIERS"@) == Some("@im="@ + g)
            &&& env_value(ls, "INPUT_METHOD"@) == Some(label)
            &&& 4 <= g.len() <= label.len() && label.take(g.len() as int) == g
        }),
{
    reveal_strlit("GTK_IM_MODULE");
    reveal_strlit("QT_IM_MODULE");
    reveal_strlit("XMODIFIERS");
    reveal_strlit("INPUT_METHOD");
    reveal_strlit("@im=");
    reveal_strlit("@im=ibus");
    reveal_strlit("@im=fcitx");
    reveal_strlit("@im=kime");
    reveal_strlit("ibus");
    reveal_strlit("fcitx");
    reveal_strlit("fcitx5");
    reveal_strlit("kime");
    reveal_with_fuel(env_value, 5);
    let ls = spec_env_lines(k);
    assert("GTK_IM_MODULE"@[0] == 'G' && "QT_IM_MODULE"@[0] == 'Q' && "XMODIFIERS"@[0] == 'X' && "INPUT_METHOD"@[0] == 'I');
    assert("GTK_IM_MODULE"@ != "QT_IM_MODULE"@ && "GTK_IM_MODULE"@ != "XMODIFIERS"@ && "GTK_IM_MODULE"@ != "INPUT_METHOD"@);
    assert("QT_IM_MODULE"@ != "INPUT_METHOD"@ && "QT_IM_MODULE"@ != "XMODIFIERS"@ && "XMODIFIERS"@ != "INPUT_METHOD"@);
    match k {
        ImeKind::Ibus => {
            assert("@im="@ + "ibus"@ =~= "@im=ibus"@);
            assert("ibus"@.take(4) =~= "ibus"@);
        },
        ImeKind::Fcitx5 => {
            assert("@im="@ + "fcitx"@ =~= "@im=fcitx"@);
            assert("fcitx5"@.take(5) =~= "fcitx"@);
        },
        ImeKind::Kime => {
            assert("@im="@ + "kime"@ =~= "@im=kime"@);
            assert("kime"@.take(4) =~= "kime"@);
        },
    }
}

pub open spec fn strs_view(v: Seq<&str>) -> Seq<Seq<char>> {
    v.map_values(|s: &str| s@)
}

pub open spec fn pairs_view(v: Seq<(&str, &str)>) -> Seq<(Seq<char>, Seq<char>)> {
    v.map_values(|p: (&str, &str)| (p.0@, p.1@))
}

impl ImeKind {
    pub fn label(&self) -> (r: &'static str)
        ensures
            r@ == spec_label(*self),
    {
        match self {
            ImeKind::Ibus => "ibus",
            ImeKind::Fcitx5 => "fcitx5",
            ImeKind::Kime => "kime",
        }
    }

    /// The apt packages that install it (kime comes from GitHub releases).
    /// The Qt modules are left to the frontend check: where Qt ABIs are mixed
    /// apt would refuse the whole install.
    pub fn pkg(&self) -> (r: Vec<&'static str>)
        ensures
            strs_view(r@) == spec_pkgs(*self),
    {
        let r: Vec<&'static str> = match self {
            ImeKind::Ibus => vec!["ibus", "ibus-hangul"],
            ImeKind::Fcitx5 => vec!["fcitx5", "fcitx5-hangul", "fcitx5-frontend-gtk3", "fcitx5-frontend-gtk4"],
            ImeKind::Kime => vec![],
        };
        assert(strs_view(r@) =~= spec_pkgs(*self));
        r
    }

    pub fn env_lines(&self) -> (r: Vec<(&'static str, &'static str)>)
        ensures
            pairs_view(r@) == spec_env_lines(*self),
    {
        let r: Vec<(&'static str, &'static str)> = match self {
            ImeKind::Ibus => vec![
                ("GTK_IM_MODULE", "ibus"), ("QT_IM_MODULE", "ibus"),
                ("XMODIFIERS", "@im=ibus"), ("INPUT_METHOD", "ibus")],
            ImeKind::Fcitx5 => vec![
                ("GTK_IM_MODULE", "fcitx"), ("QT_IM_MODULE", "fcitx"),
                ("XMODIFIERS", "@im=fcitx"), ("INPUT_METHOD", "fcitx5")],
            ImeKind::Kime => vec![
                ("GTK_IM_MODULE", "kime"), ("QT_IM_MODULE", "kime"),
                ("XMODIFIERS", "@im=kime"), ("INPUT_METHOD", "kime")],
        };
        assert(pairs_view(r@) =~= spec_env_lines(*self));
        r
    }
}

/// At start-up the active input method's daemon is started only when no
/// daemon runs: restarting a running one would cut the input contexts of
/// existing X11/XIM clients.
pub fn startup_daemon_to_start(active: Option<&ImeKind>, daemon_running: Option<&ImeKind>) -> (r: Option<ImeKind>)
    ensures
        r == (if daemon_running is None {
            match active { Some(k) => Some(*k), None => None }
        } else {
            None
        }),
{
    if daemon_running.is_none() {
        match active {
            Some(k) => Some(*k),
            None => None,
        }
    } else {
        None
    }
}

pub open spec fn spec_daemon_bin(k: ImeKind) -> Seq<char> {
    match k {
        ImeKind::Kime => "kime"@,
        ImeKind::Ibus => "ibus-daemon"@,
        ImeKind::Fcitx5 => "fcitx5"@,
    }
}

/// The daemon process of an input method.
pub fn daemon_bin(kind: &ImeKind) -> (r: &'static str)
    ensures
        r@ == spec_daemon_bin(*kind),
{
    match kind {
        ImeKind::Kime => "kime",
        ImeKind::Ibus => "ibus-daemon",
        ImeKind::Fcitx5 => "fcitx5",
    }
}

pub open spec fn spec_daemon_restart_cmd(k: ImeKind) -> Seq<char> {
    match k {
        ImeKind::Kime => "pkill -x kime 2>/dev/null; sleep 0.3; setsid kime </dev/null >/dev/null 2>&1 &"@,
        ImeKind::Ibus => "pkill -x ibus-daemon 2>/dev/null; sleep 0.3; setsid ibus-daemon -drxR </dev/null >/dev/null 2>&1 &"@,
        ImeKind::Fcitx5 => FCITX5_RESTART_SH@,
    }
}

/// Restarts the daemon detached with setsid, so that it outlives the tool.
pub fn daemon_restart_cmd(kind: &ImeKind) -> (r: &'static str)
    ensures
        r@ == spec_daemon_restart_cmd(*kind),
{
    match kind {
        ImeKind::Kime => "pkill -x kime 2>/dev/null; sleep 0.3; setsid kime </dev/null >/dev/null 2>&1 &",
        ImeKind::Ibus => "pkill -x ibus-daemon 2>/dev/null; sleep 0.3; setsid ibus-daemon -drxR </dev/null >/dev/null 2>&1 &",
        ImeKind::Fcitx5 => FCITX5_RESTART_SH,
    }
}

// ---------------------------------------------------------------- switching the input method

/// The user unit that runs fcitx5.
pub const FCITX5_UNIT: &'static str = "fcitx5-korean.service";
/// The user unit that runs ibus.
pub const IBUS_UNIT: &'static str = "ibus.service";

/// The daemons of the other input methods, which are stopped on a switch.
pub open spec fn spec_other_daemons(k: ImeKind) -> Seq<Seq<char>> {
    match k {
        ImeKind::Ibus => seq![spec_daemon_bin(ImeKind::Fcitx5), spec_daemon_bin(ImeKind::Kime)],
        ImeKind::Fcitx5 => seq![spec_daemon_bin(ImeKind::Ibus), spec_daemon_bin(ImeKind::Kime)],
        ImeKind::Kime => seq![spec_daemon_bin(ImeKind::Ibus), spec_daemon_bin(ImeKind::Fcitx5)],
    }
}

pub fn other_daemons(kind: &ImeKind) -> (r: Vec<&'static str>)
    ensures
        r@.map_values(|s: &str| s@) == spec_other_daemons(*kind),
{
    let r = match kind {
        ImeKind::Ibus => vec![daemon_bin(&ImeKind::Fcitx5), daemon_bin(&ImeKind::Kime)],
        ImeKind::Fcitx5 => vec![daemon_bin(&ImeKind::Ibus), daemon_bin(&ImeKind::Kime)],
        ImeKind::Kime => vec![daemon_bin(&ImeKind::Ibus), daemon_bin(&ImeKind::Fcitx5)],
    };
    assert(r@.map_values(|s: &str| s@) =~= spec_other_daemons(*kind));
    r
}

/// The user units to enable and to disable for an input method: its own
/// unit on, the other's off (kime has no unit, so both go off).
pub open spec fn spec_user_units(k: ImeKind) -> (Seq<Seq<char>>, Seq<Seq<char>>) {
    match k {
        ImeKind::Ibus => (seq![IBUS_UNIT@], seq![FCITX5_UNIT@]),
        ImeKind::Fcitx5 => (seq![FCITX5_UNIT@], seq![IBUS_UNIT@]),
        ImeKind::Kime => (seq![], seq![IBUS_UNIT@, FCITX5_UNIT@]),
    }
}

pub fn user_units(kind: &ImeKind) -> (r: (Vec<&'static str>, Vec<&'static str>))
    ensures
        (r.0@.map_values(|s: &str| s@), r.1@.map_values(|s: &str| s@)) == spec_user_units(*kind),
{
    let r: (Vec<&'static str>, Vec<&'static str>) = match kind {
        ImeKind::Ibus => (vec![IBUS_UNIT], vec![FCITX5_UNIT]),
        ImeKind::Fcitx5 => (vec![FCITX5_UNIT], vec![IBUS_UNIT]),
        ImeKind::Kime => (Vec::new(), vec![IBUS_UNIT, FCITX5_UNIT]),
    };
    assert(r.0@.map_values(|s: &str| s@) =~= spec_user_units(*kind).0);
    assert(r.1@.map_values(|s: &str| s@) =~= spec_user_units(*kind).1);
    r
}

pub open spec fn spec_missing_daemon(k: ImeKind, on_apply: bool) -> Seq<char> {
    spec_label(k) + " 미설치: '"@ + spec_daemon_bin(k) + "' 바이너리를 찾을 수 없습니다."@
        + (if on_apply { "\n먼저 설치 버튼을 눌러주세요."@ } else { seq![] })
}

/// The refusal when the input method's daemon is not installed; on a switch
/// it also points to the install button.
pub fn missing_daemon_result(kind: &ImeKind, on_apply: bool) -> (r: CmdResult)
    ensures
        !r.success && r.output@ == spec_missing_daemon(*kind, on_apply),
{
    let mut o = chars_of(kind.label());
    extend_str(&mut o, " 미설치: '");
    extend_str(&mut o, daemon_bin(kind));
    extend_str(&mut o, "' 바이너리를 찾을 수 없습니다.");
    let ghost before = o@;
    if on_apply {
        extend_str(&mut o, "\n먼저 설치 버튼을 눌러주세요.");
    } else {
        assert(before + seq![] =~= before);
    }
    CmdResult { success: false, output: string_of(o) }
}

pub open spec fn spec_daemon_down(k: ImeKind) -> Seq<char> {
    spec_label(k) + " 데몬이 시작되지 않았습니다.\n터미널에서 직접 `"@ + spec_daemon_bin(k) + "` 실행 후 에러 메시지를 확인해주세요."@
}

pub open spec fn spec_restart_result(k: ImeKind, alive: bool) -> (bool, Seq<char>) {
    if alive {
        (true, spec_label(k) + " 데몬 재시작 완료.\n주의: X11(XIM) 앱(Wine, Java 등)은 입력 컨텍스트가 끊기므로 창을 다시 포커스하거나 재실행해야 할 수 있습니다."@)
    } else {
        (false, spec_daemon_down(k))
    }
}

fn daemon_down_chars(kind: &ImeKind) -> (r: Vec<char>)
    ensures
        r@ == spec_daemon_down(*kind),
{
    let mut o = chars_of(kind.label());
    extend_str(&mut o, " 데몬이 시작되지 않았습니다.\n터미널에서 직접 `");
    extend_str(&mut o, daemon_bin(kind));
    extend_str(&mut o, "` 실행 후 에러 메시지를 확인해주세요.");
    o
}

/// The report of a daemon restart, by whether the daemon runs afterwards.
pub fn restart_result(kind: &ImeKind, alive: bool) -> (r: CmdResult)
    ensures
        (r.success, r.output@) == spec_restart_result(*kind, alive),
{
    if alive {
        let mut o = chars_of(kind.label());
        extend_str(&mut o, " 데몬 재시작 완료.\n주의: X11(XIM) 앱(Wine, Java 등)은 입력 컨텍스트가 끊기므로 창을 다시 포커스하거나 재실행해야 할 수 있습니다.");
        CmdResult { success: true, output: string_of(o) }
    } else {
        CmdResult { success: false, output: string_of(daemon_down_chars(kind)) }
    }
}

pub open spec fn first_line(s: Seq<char>) -> Seq<char> {
    if lines(s).len() > 0 { lines(s)[0] } else { seq![] }
}

pub open spec fn spec_behavior_note(success: bool, output: Seq<char>) -> Seq<char> {
    if success {
        "\n- fcitx5 한/영 상태 유지 설정 (ShareInputState=All, ActiveByDefault=True)"@
    } else {
        "\n- [!] fcitx5 설정 갱신 실패: "@ + first_line(output)
    }
}

/// The line a switch to fcitx5 adds about its configuration fix.
pub fn behavior_note(fix: &CmdResult) -> (r: String)
    ensures
        r@ == spec_behavior_note(fix.success, fix.output@),
{
    if fix.success {
        string_of(chars_of("\n- fcitx5 한/영 상태 유지 설정 (ShareInputState=All, ActiveByDefault=True)"))
    } else {
        let ls = lines_of(fix.output.as_str());
        let mut o = chars_of("\n- [!] fcitx5 설정 갱신 실패: ");
        if ls.len() > 0 {
            proof { lemma_deep_view_chars(&ls[0]); }
            extend(&mut o, ls[0].as_slice());
        }
        string_of(o)
    }
}

pub open spec fn spec_apply_result(k: ImeKind, alive: bool, note: Seq<char>) -> (bool, Seq<char>) {
    if alive {
        (true, spec_label(k) + " 적용 완료.\n- /etc/environment 업데이트\n- 데몬 시작 확인됨"@ + note
            + "\n\n[중요] /etc/environment는 로그인 시점에 한 번만 읽힙니다.\n현재 실행 중인 COSMIC 세션의 앱들에 완전히 적용하려면 로그아웃 후 다시 로그인하세요.\n(D-Bus 활성화로 띄우는 앱에는 부분적으로 즉시 반영됨)"@)
    } else {
        (false, "/etc/environment는 업데이트했지만 "@ + spec_daemon_down(k))
    }
}

/// The report of a switch, by whether the daemon runs afterwards; `note` is
/// what the fcitx5 configuration fix added.
pub fn apply_result(kind: &ImeKind, alive: bool, note: &str) -> (r: CmdResult)
    ensures
        (r.success, r.output@) == spec_apply_result(*kind, alive, note@),
{
    if alive {
        let mut o = chars_of(kind.label());
        extend_str(&mut o, " 적용 완료.\n- /etc/environment 업데이트\n- 데몬 시작 확인됨");
        extend_str(&mut o, note);
        extend_str(&mut o, "\n\n[중요] /etc/environment는 로그인 시점에 한 번만 읽힙니다.\n현재 실행 중인 COSMIC 세션의 앱들에 완전히 적용하려면 로그아웃 후 다시 로그인하세요.\n(D-Bus 활성화로 띄우는 앱에는 부분적으로 즉시 반영됨)");
        CmdResult { success: true, output: string_of(o) }
    } else {
        let mut o = chars_of("/etc/environment는 업데이트했지만 ");
        extend(&mut o, daemon_down_chars(kind).as_slice());
        CmdResult { success: false, output: string_of(o) }
    }
}

// ---------------------------------------------------------------- autostart entries

/// What follows the last `c` in `s` (all of `s` when there is none).
pub open spec fn after_last(s: Seq<char>, c: char) -> Seq<char> {
    match crate::text::rfind_char(s, c) {
        Some(i) => s.skip(i + 1),
        None => s,
    }
}

/// Whether a desktop-entry line is an `Exec=` whose program is fcitx5.
pub open spec fn exec_launches_fcitx5(line: Seq<char>) -> bool {
    let t = trim(line);
    starts_with(t, "Exec="@) && {
        let ws = crate::text::words(t.skip(5));
        ws.len() > 0 && after_last(ws[0], '/') == "fcitx5"@
    }
}

pub open spec fn spec_desktop_launches_fcitx5(content: Seq<char>) -> bool {
    exists|i: int| 0 <= i < lines(content).len() && exec_launches_fcitx5(#[trigger] lines(content)[i])
}

fn exec_launches_fcitx5_exec(line: &[char]) -> (r: bool)
    ensures
        r == exec_launches_fcitx5(line@),
{
    let t = trim_exec(line);
    match crate::text::strip_prefix_str(t.as_slice(), "Exec=") {
        None => false,
        Some(cmd) => {
            proof { reveal_strlit("Exec="); }
            let ws = crate::text::words_exec(cmd.as_slice());
            if ws.len() == 0 {
                return false;
            }
            proof { lemma_deep_view_chars(&ws[0]); }
            let w = &ws[0];
            proof { crate::text::lemma_rfind_char(w@, '/'); }
            let slash = crate::text::rfind_char_exec(w.as_slice(), '/');
            let tail = match slash {
                Some(i) => {
                    assert(i < w.len());
                    subseq(w.as_slice(), i + 1, w.len())
                },
                None => subseq(w.as_slice(), 0, w.len()),
            };
            assert(tail@ =~= after_last(w@, '/'));
            eq_str(tail.as_slice(), "fcitx5")
        },
    }
}

/// Whether a desktop entry starts fcitx5.
pub fn desktop_launches_fcitx5(content: &str) -> (r: bool)
    ensures
        r == spec_desktop_launches_fcitx5(content@),
{
    let ls = lines_of(content);
    let ghost lv = ls.deep_view();
    let mut i: usize = 0;
    while i < ls.len()
        invariant
            i <= ls.len(),
            lv == ls.deep_view(),
            lv == lines(content@),
            forall|j: int| 0 <= j < i ==> !exec_launches_fcitx5(#[trigger] lv[j]),
        decreases ls.len() - i,
    {
        proof { lemma_deep_view_chars(&ls[i as int]); }
        if exec_launches_fcitx5_exec(ls[i].as_slice()) {
            assert(exec_launches_fcitx5(lv[i as int]));
            return true;
        }
        i += 1;
    }
    false
}

pub open spec fn hides_entry(line: Seq<char>) -> bool {
    let l = trim(line);
    eq_ignore_ascii_case(l, "Hidden=true"@) || eq_ignore_ascii_case(l, "X-GNOME-Autostart-enabled=false"@)
}

pub open spec fn spec_desktop_hidden(content: Seq<char>) -> bool {
    exists|i: int| 0 <= i < lines(content).len() && hides_entry(#[trigger] lines(content)[i])
}

/// Whether a desktop entry is switched off (`Hidden=true` or
/// `X-GNOME-Autostart-enabled=false`, in any letter case).
pub fn desktop_hidden(content: &str) -> (r: bool)
    ensures
        r == spec_desktop_hidden(content@),
{
    let ls = lines_of(content);
    let ghost lv = ls.deep_view();
    let h = chars_of("Hidden=true");
    let g = chars_of("X-GNOME-Autostart-enabled=false");
    let mut i: usize = 0;
    while i < ls.len()
        invariant
            i <= ls.len(),
            lv == ls.deep_view(),
            lv == lines(content@),
            h@ == "Hidden=true"@,
            g@ == "X-GNOME-Autostart-enabled=false"@,
            forall|j: int| 0 <= j < i ==> !hides_entry(#[trigger] lv[j]),
        decreases ls.len() - i,
    {
        proof { lemma_deep_view_chars(&ls[i as int]); }
        let l = trim_exec(ls[i].as_slice());
        if eq_ignore_ascii_case_exec(l.as_slice(), h.as_slice()) || eq_ignore_ascii_case_exec(l.as_slice(), g.as_slice()) {
            assert(hides_entry(lv[i as int]));
            return true;
        }
        i += 1;
    }
    false
}

// ---------------------------------------------------------------- LibreOffice

pub const LO_COMPAT_MARKER_PREFIX: &'static str = "# popmgr-libreoffice-ime-compat:";
pub const LO_COMPAT_MARKER: &'static str = "# popmgr-libreoffice-ime-compat: v2";
pub const LO_COMPAT_EXEC_PREFIX: &'static str = "env -u WAYLAND_DISPLAY GDK_BACKEND=x11 GTK_IM_MODULE=xim ";

pub open spec fn spec_is_popmgr_libreoffice_desktop(content: Seq<char>) -> bool {
    exists|i: int| 0 <= i < lines(content).len() && starts_with(#[trigger] lines(content)[i], LO_COMPAT_MARKER_PREFIX@)
}

/// Whether a desktop file is one this tool wrote.
pub fn is_popmgr_libreoffice_desktop(content: &str) -> (r: bool)
    ensures
        r == spec_is_popmgr_libreoffice_desktop(content@),
{
    let ls = lines_of(content);
    let ghost lv = ls.deep_view();
    let mut i: usize = 0;
    while i < ls.len()
        invariant
            i <= ls.len(),
            lv == ls.deep_view(),
            lv == lines(content@),
            forall|j: int| 0 <= j < i ==> !starts_with(#[trigger] lv[j], LO_COMPAT_MARKER_PREFIX@),
        decreases ls.len() - i,
    {
        proof { lemma_deep_view_chars(&ls[i as int]); }
        if crate::text::starts_with_str(ls[i].as_slice(), LO_COMPAT_MARKER_PREFIX) {
            assert(starts_with(lv[i as int], LO_COMPAT_MARKER_PREFIX@));
            return true;
        }
        i += 1;
    }
    false
}

pub open spec fn spec_lo_compat_installed(content: Seq<char>) -> bool {
    exists|i: int| 0 <= i < lines(content).len() && #[trigger] lines(content)[i] == LO_COMPAT_MARKER@
}

/// Whether the user's Writer launcher is the current compatibility launcher:
/// one of its lines is exactly the current marker.
pub fn lo_compat_installed(content: &str) -> (r: bool)
    ensures
        r == spec_lo_compat_installed(content@),
{
    let ls = lines_of(content);
    let ghost lv = ls.deep_view();
    let mut i: usize = 0;
    while i < ls.len()
        invariant
            i <= ls.len(),
            lv == ls.deep_view(),
            lv == lines(content@),
            forall|j: int| 0 <= j < i ==> #[trigger] lv[j] != LO_COMPAT_MARKER@,
        decreases ls.len() - i,
    {
        proof { lemma_deep_view_chars(&ls[i as int]); }
        if eq_str(ls[i].as_slice(), LO_COMPAT_MARKER) {
            assert(lv[i as int] == LO_COMPAT_MARKER@);
            return true;
        }
        i += 1;
    }
    false
}

/// Whether a process's `comm` names LibreOffice's main binary.
pub fn is_soffice_comm(comm: &str) -> (r: bool)
    ensures
        r == (trim(comm@) == "soffice.bin"@),
{
    eq_str(trim_exec(chars_of(comm).as_slice()).as_slice(), "soffice.bin")
}

/// The bytes of `WAYLAND_DISPLAY=`.
pub open spec fn wayland_key() -> Seq<u8> {
    seq![87u8, 65u8, 89u8, 76u8, 65u8, 78u8, 68u8, 95u8, 68u8, 73u8, 83u8, 80u8, 76u8, 65u8, 89u8, 61u8]
}

/// An entry of a NUL-separated environment starts at `i` with
/// `WAYLAND_DISPLAY=` and holds more than that.
pub open spec fn wayland_entry_at(env: Seq<u8>, i: int) -> bool {
    &&& 0 <= i
    &&& i == 0 || env[i - 1] == 0
    &&& i + 16 < env.len()
    &&& env.subrange(i, i + 16) == wayland_key()
    &&& env[i + 16] != 0
}

pub open spec fn has_wayland_display(env: Seq<u8>) -> bool {
    exists|i: int| #[trigger] wayland_entry_at(env, i)
}

fn wayland_key_at(env: &[u8], i: usize) -> (r: bool)
    requires
        i + 16 <= env@.len(),
    ensures
        r == (env@.subrange(i as int, i + 16) == wayland_key()),
{
    let key: [u8; 16] = [87, 65, 89, 76, 65, 78, 68, 95, 68, 73, 83, 80, 76, 65, 89, 61];
    assert(key@ =~= wayland_key());
    let mut k: usize = 0;
    while k < 16
        invariant
            k <= 16,
            i + 16 <= env.len(),
            key@ == wayland_key(),
            forall|j: int| 0 <= j < k ==> env@[i + j] == key@[j],
        decreases 16 - k,
    {
        if env[i + k] != key[k] {
            assert(env@.subrange(i as int, i + 16)[k as int] != wayland_key()[k as int]);
            return false;
        }
        k += 1;
    }
    assert(env@.subrange(i as int, i + 16) =~= wayland_key());
    true
}

/// What a running LibreOffice shows: whether its environment (NUL-separated
/// `environ`) sets a non-empty WAYLAND_DISPLAY, and whether its memory maps
/// hold the fcitx5 GTK module.
pub fn libreoffice_ime_state(environ: &[u8], maps: &str) -> (r: (bool, bool))
    ensures
        r.0 == has_wayland_display(environ@),
        r.1 == crate::text::contains(maps@, "im-fcitx5.so"@),
{
    let loaded = crate::text::contains_str(chars_of(maps).as_slice(), "im-fcitx5.so");
    let n = environ.len();
    let mut i: usize = 0;
    while i < n
        invariant
            i <= n,
            n == environ@.len(),
            loaded == crate::text::contains(maps@, "im-fcitx5.so"@),
            forall|j: int| 0 <= j < i ==> !#[trigger] wayland_entry_at(environ@, j),
        decreases n - i,
    {
        let start = i == 0 || environ[i - 1] == 0;
        if start && n - i > 16 && wayland_key_at(environ, i) && environ[i + 16] != 0 {
            assert(wayland_entry_at(environ@, i as int));
            return (true, loaded);
        }
        i += 1;
    }
    assert forall|j: int| !#[trigger] wayland_entry_at(environ@, j) by {
        if 0 <= j < i {
        }
    }
    (false, loaded)
}

/// A desktop-file line in the compatibility launcher: every `Exec=` runs the
/// program without WAYLAND_DISPLAY, on X11 with the XIM input module, unless
/// it already does.
pub open spec fn lo_patch_line(line: Seq<char>) -> Seq<char> {
    if starts_with(line, "Exec="@) {
        let cmd = line.skip(5);
        if starts_with(cmd, LO_COMPAT_EXEC_PREFIX@) {
            line
        } else {
            "Exec="@ + LO_COMPAT_EXEC_PREFIX@ + cmd
        }
    } else {
        line
    }
}

pub open spec fn lo_patch_lines(ls: Seq<Seq<char>>) -> Seq<char>
    decreases ls.len(),
{
    if ls.len() == 0 {
        seq![]
    } else {
        lo_patch_lines(ls.drop_last()) + lo_patch_line(ls.last()) + "\n"@
    }
}

pub open spec fn spec_patch_libreoffice_desktop(original: Seq<char>) -> Seq<char> {
    LO_COMPAT_MARKER@ + "\n"@ + lo_patch_lines(lines(original))
}

/// The user-scope copy of a LibreOffice desktop file that forces the X11/XIM
/// input path, headed by the tool's marker.
pub fn patch_libreoffice_desktop(original: &str) -> (r: String)
    ensures
        r@ == spec_patch_libreoffice_desktop(original@),
{
    let mut out = chars_of(LO_COMPAT_MARKER);
    extend_str(&mut out, "\n");
    let ghost head = out@;
    let ls = lines_of(original);
    let ghost lv = ls.deep_view();
    let mut i: usize = 0;
    assert(lv.take(0) =~= Seq::<Seq<char>>::empty());
    assert(out@ =~= head + lo_patch_lines(lv.take(0)));
    while i < ls.len()
        invariant
            i <= ls.len(),
            lv == ls.deep_view(),
            lv == lines(original@),
            out@ == head + lo_patch_lines(lv.take(i as int)),
        decreases ls.len() - i,
    {
        proof { lemma_deep_view_chars(&ls[i as int]); reveal_strlit("Exec="); }
        let line = &ls[i];
        let ghost before = out@;
        match crate::text::strip_prefix_str(line.as_slice(), "Exec=") {
            Some(cmd) => {
                if crate::text::starts_with_str(cmd.as_slice(), LO_COMPAT_EXEC_PREFIX) {
                    extend(&mut out, line.as_slice());
                } else {
                    extend_str(&mut out, "Exec=");
                    extend_str(&mut out, LO_COMPAT_EXEC_PREFIX);
                    extend(&mut out, cmd.as_slice());
                }
            },
            None => {
                extend(&mut out, line.as_slice());
            },
        }
        extend_str(&mut out, "\n");
        assert(lv.take(i + 1).drop_last() =~= lv.take(i as int));
        assert(lv.take(i + 1).last() == line@);
        assert(out@ =~= head + lo_patch_lines(lv.take(i + 1)));
        i += 1;
    }
    assert(lv.take(ls.len() as int) =~= lv);
    string_of(out)
}

/// The launcher rewrite never doubles its prefix: a rewritten line is left
/// as it is by a second rewrite, and every rewritten `Exec=` line runs the
/// original command behind the prefix.
pub proof fn law_lo_patch_line_idempotent(line: Seq<char>)
    ensures
        lo_patch_line(lo_patch_line(line)) == lo_patch_line(line),
        starts_with(line, "Exec="@) ==> starts_with(lo_patch_line(line).skip(5), LO_COMPAT_EXEC_PREFIX@),
{
    reveal_strlit("Exec=");
    let e = "Exec="@;
    let p = LO_COMPAT_EXEC_PREFIX@;
    if starts_with(line, e) {
        let cmd = line.skip(5);
        if !starts_with(cmd, p) {
            let out = e + p + cmd;
            assert(out.take(5) =~= e);
            assert(out.skip(5) =~= p + cmd);
            assert((p + cmd).take(p.len() as int) =~= p);
        }
    }
}

} // verus!
