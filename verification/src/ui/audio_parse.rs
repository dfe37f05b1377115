//! Audio: reading the text that `pactl list sinks|sources`, `amixer contents`
//! and `pactl list short modules` print.

use vstd::prelude::*;
use crate::runner::CmdResult;
use crate::text::{
    chars_of, chars_of_string, contains, contains_str, ends_with, ends_with_str, eq_str, find,
    find_char, find_char_exec, find_str, is_digit, lines, lines_of, matches_at, opt_view, parse_u32,
    parse_u32_exec, rfind, rfind_str, rfind_upto, split_once, split_once_exec, starts_with,
    starts_with_str, string_of, subseq, trim, trim_exec, words, words_exec,
};
use crate::ui::audio::{strip_suffixes, strip_suffixes_exec, DeviceInfo, PortInfo, VrefInfo, AudioScan};

verus! {

pub ghost struct PortView {
    pub name: Seq<char>,
    pub desc: Seq<char>,
    pub available: Option<bool>,
}

pub ghost struct DeviceView {
    pub name: Seq<char>,
    pub desc: Seq<char>,
    pub ports: Seq<PortView>,
    pub active_port: Option<Seq<char>>,
    pub volume_pct: Option<u32>,
    pub muted: bool,
}

impl View for PortInfo {
    type V = PortView;

    open spec fn view(&self) -> PortView {
        PortView { name: self.name@, desc: self.desc@, available: self.available }
    }
}

pub open spec fn ports_view(ps: Seq<PortInfo>) -> Seq<PortView> {
    ps.map_values(|p: PortInfo| p@)
}

impl View for DeviceInfo {
    type V = DeviceView;

    open spec fn view(&self) -> DeviceView {
        DeviceView {
            name: self.name@,
            desc: self.desc@,
            ports: ports_view(self.ports@),
            active_port: opt_view(self.active_port),
            volume_pct: self.volume_pct,
            muted: self.muted,
        }
    }
}

pub open spec fn devices_view(ds: Seq<DeviceInfo>) -> Seq<DeviceView> {
    ds.map_values(|d: DeviceInfo| d@)
}

// ---------------------------------------------------------------- port lines

pub proof fn lemma_rfind_upto(s: Seq<char>, p: Seq<char>, i: int)
    ensures
        rfind_upto(s, p, i) matches Some(k) ==> matches_at(s, p, k) && k <= i,
    decreases i + 1,
{
    if i >= 0 && !matches_at(s, p, i) {
        lemma_rfind_upto(s, p, i - 1);
    }
}

/// A port's availability from the bracketed part of its line.
pub open spec fn port_availability(meta: Seq<char>) -> Option<bool> {
    if contains(meta, "not available"@) {
        Some(false)
    } else if contains(meta, "availability unknown"@) {
        None
    } else if contains(meta, "available"@) {
        Some(true)
    } else {
        None
    }
}

fn port_availability_exec(meta: &[char]) -> (r: Option<bool>)
    ensures
        r == port_availability(meta@),
{
    if contains_str(meta, "not available") {
        Some(false)
    } else if contains_str(meta, "availability unknown") {
        None
    } else if contains_str(meta, "available") {
        Some(true)
    } else {
        None
    }
}

/// A port line's description and availability: the text before the last
/// `(type:`, trimmed, and what the bracketed rest says of availability.
pub open spec fn spec_split_port_desc(rest: Seq<char>) -> (Seq<char>, Option<bool>) {
    match rfind(rest, "(type:"@) {
        Some(i) => (trim(rest.take(i)), port_availability(rest.skip(i))),
        None => (trim(rest), None),
    }
}

pub fn split_port_desc(rest: &str) -> (r: (String, Option<bool>))
    ensures
        (r.0@, r.1) == spec_split_port_desc(rest@),
{
    let s = chars_of(rest);
    match rfind_str(s.as_slice(), "(type:") {
        Some(i) => {
            proof { lemma_rfind_upto(s@, "(type:"@, s@.len() - "(type:"@.len()); }
            let head = subseq(s.as_slice(), 0, i);
            let meta = subseq(s.as_slice(), i, s.len());
            assert(head@ =~= s@.take(i as int));
            assert(meta@ =~= s@.skip(i as int));
            let d = trim_exec(head.as_slice());
            (string_of(d), port_availability_exec(meta.as_slice()))
        },
        None => (string_of(trim_exec(s.as_slice())), None),
    }
}

// ---------------------------------------------------------------- percentages

/// Where the run of ASCII digits that ends just before index `j` begins.
pub open spec fn digit_run_start(s: Seq<char>, j: int) -> int
    decreases j,
{
    if j <= 0 {
        0
    } else if is_digit(s[j - 1]) {
        digit_run_start(s, j - 1)
    } else {
        j
    }
}

/// The number written just before a `%` at index `j`, when it fits in `u32`.
pub open spec fn percent_value_at(s: Seq<char>, j: int) -> Option<u32> {
    let st = digit_run_start(s, j);
    if s[j] == '%' && st < j {
        parse_u32(s.subrange(st, j))
    } else {
        None
    }
}

/// The first percentage in `s` from index `j` on.
pub open spec fn first_percent_from(s: Seq<char>, j: int) -> Option<u32>
    decreases s.len() - j,
{
    if j < 0 || j >= s.len() {
        None
    } else {
        match percent_value_at(s, j) {
            Some(v) => Some(v),
            None => first_percent_from(s, j + 1),
        }
    }
}

/// The scan for a percentage from index `j` on looks only at number starts
/// that follow an ASCII character: the positions at which it cuts the text.
pub open spec fn percent_scan_safe_from(s: Seq<char>, j: int) -> bool
    decreases s.len() - j,
{
    if j < 0 || j >= s.len() {
        true
    } else if s[j] == '%' {
        let st = digit_run_start(s, j);
        &&& (st == 0 || (s[st - 1] as u32) < 128)
        &&& (percent_value_at(s, j) is Some || percent_scan_safe_from(s, j + 1))
    } else {
        percent_scan_safe_from(s, j + 1)
    }
}

fn digit_run_start_exec(s: &[char], j: usize) -> (r: usize)
    requires
        j <= s.len(),
    ensures
        r as int == digit_run_start(s@, j as int),
        r <= j,
{
    let mut k = j;
    while k > 0 && '0' <= s[k - 1] && s[k - 1] <= '9'
        invariant
            k <= j <= s.len(),
            digit_run_start(s@, j as int) == digit_run_start(s@, k as int),
        decreases k,
    {
        k -= 1;
    }
    k
}

/// The first percentage in a line, e.g. the volume in
/// `Volume: front-left: 65536 / 100% / 0.00 dB`.
pub fn parse_first_percent(s: &str) -> (r: Option<u32>)
    requires
        percent_scan_safe_from(s@, 0),
    ensures
        r == first_percent_from(s@, 0),
{
    let c = chars_of(s);
    let mut j: usize = 0;
    while j < c.len()
        invariant
            j <= c.len(),
            c@ == s@,
            first_percent_from(s@, 0) == first_percent_from(s@, j as int),
        decreases c.len() - j,
    {
        if c[j] == '%' {
            let st = digit_run_start_exec(c.as_slice(), j);
            if st < j {
                let d = subseq(c.as_slice(), st, j);
                let v = parse_u32_exec(d.as_slice());
                if v.is_some() {
                    return v;
                }
            }
        }
        j += 1;
    }
    None
}

// ---------------------------------------------------------------- amixer

/// The control name between `name='` and the next `'` on a `numid=` line.
pub open spec fn quoted_name(t: Seq<char>) -> Option<Seq<char>> {
    match find(t, "name='"@) {
        Some(i) => {
            let rest = t.skip(i + 6);
            match find_char(rest, '\'') {
                Some(j) => Some(rest.take(j)),
                None => None,
            }
        },
        None => None,
    }
}

fn quoted_name_exec(t: &[char]) -> (r: Option<Vec<char>>)
    ensures
        opt_chars(r) == quoted_name(t@),
{
    proof {
        reveal_strlit("name='");
        crate::text::lemma_find(t@, "name='"@);
    }
    match find_str(t, "name='") {
        Some(i) => {
            assert(matches_at(t@, "name='"@, i as int));
            assert(i + 6 <= t.len());
            let rest = subseq(t, i + 6, t.len());
            assert(rest@ =~= t@.skip(i + 6));
            proof { crate::text::lemma_find_char(rest@, '\''); }
            match find_char_exec(rest.as_slice(), '\'') {
                Some(j) => {
                    let n = subseq(rest.as_slice(), 0, j);
                    assert(n@ =~= rest@.take(j as int));
                    Some(n)
                },
                None => None,
            }
        },
        None => None,
    }
}

pub open spec fn opt_chars(o: Option<Vec<char>>) -> Option<Seq<char>> {
    match o {
        Some(v) => Some(v@),
        None => None,
    }
}

/// The jack a `numid=` line names: a card-interface control ending in `Jack`
/// that is neither a phantom jack nor HDMI.
pub open spec fn jack_name(t: Seq<char>) -> Option<Seq<char>> {
    if !contains(t, "iface=CARD"@) {
        None
    } else {
        match quoted_name(t) {
            Some(n) => if ends_with(n, "Jack"@) && !contains(n, "Phantom"@) && !contains(n, "HDMI"@) {
                Some(n)
            } else {
                None
            },
            None => None,
        }
    }
}

/// One line of `amixer contents` read for jacks: the state is the jacks
/// found so far and the jack whose value line is awaited.
pub open spec fn jack_step(st: (Seq<(Seq<char>, bool)>, Option<Seq<char>>), line: Seq<char>)
    -> (Seq<(Seq<char>, bool)>, Option<Seq<char>>)
{
    let t = trim(line);
    if starts_with(t, "numid="@) {
        (st.0, jack_name(t))
    } else {
        match st.1 {
            Some(name) => if starts_with(t, ": values="@) {
                (st.0.push((name, trim(t.skip(9)) == "on"@)), None)
            } else {
                st
            },
            None => st,
        }
    }
}

pub open spec fn jacks_fold(ls: Seq<Seq<char>>) -> (Seq<(Seq<char>, bool)>, Option<Seq<char>>)
    decreases ls.len(),
{
    if ls.len() == 0 {
        (seq![], None)
    } else {
        jack_step(jacks_fold(ls.drop_last()), ls.last())
    }
}

/// The 3.5 mm jacks and whether each is plugged.
pub open spec fn spec_parse_jacks(out: Seq<char>) -> Seq<(Seq<char>, bool)> {
    jacks_fold(lines(out)).0
}

pub open spec fn named_flags_view(v: Seq<(String, bool)>) -> Seq<(Seq<char>, bool)> {
    v.map_values(|e: (String, bool)| (e.0@, e.1))
}

pub open spec fn named_values_view(v: Seq<(String, u32)>) -> Seq<(Seq<char>, u32)> {
    v.map_values(|e: (String, u32)| (e.0@, e.1))
}

pub fn parse_jacks(out: &str) -> (r: Vec<(String, bool)>)
    ensures
        named_flags_view(r@) == spec_parse_jacks(out@),
{
    let ls = lines_of(out);
    let ghost lv = ls.deep_view();
    let mut jacks: Vec<(String, bool)> = Vec::new();
    let mut cur: Option<Vec<char>> = None;
    let mut i: usize = 0;
    assert(lv.take(0) =~= Seq::<Seq<char>>::empty());
    assert(named_flags_view(jacks@) =~= Seq::<(Seq<char>, bool)>::empty());
    while i < ls.len()
        invariant
            i <= ls.len(),
            lv == ls.deep_view(),
            lv == lines(out@),
            (named_flags_view(jacks@), opt_chars(cur)) == jacks_fold(lv.take(i as int)),
        decreases ls.len() - i,
    {
        proof { crate::text::lemma_deep_view_chars(&ls[i as int]); }
        assert(lv.take(i + 1).drop_last() =~= lv.take(i as int));
        assert(lv.take(i + 1).last() == ls@[i as int]@);
        let t = trim_exec(ls[i].as_slice());
        proof { reveal_strlit(": values="); }
        if starts_with_str(t.as_slice(), "numid=") {
            if !contains_str(t.as_slice(), "iface=CARD") {
                cur = None;
            } else {
                match quoted_name_exec(t.as_slice()) {
                    Some(n) => {
                        if ends_with_str(n.as_slice(), "Jack") && !contains_str(n.as_slice(), "Phantom")
                            && !contains_str(n.as_slice(), "HDMI") {
                            cur = Some(n);
                        } else {
                            cur = None;
                        }
                    },
                    None => {
                        cur = None;
                    },
                }
            }
        } else if cur.is_some() && starts_with_str(t.as_slice(), ": values=") {
            let mut taken: Option<Vec<char>> = None;
            std::mem::swap(&mut taken, &mut cur);
            let name = taken.unwrap();
            let v = subseq(t.as_slice(), 9, t.len());
            assert(v@ =~= t@.skip(9));
            let on = eq_str(trim_exec(v.as_slice()).as_slice(), "on");
            let ghost before = jacks@;
            jacks.push((string_of(name), on));
            assert(named_flags_view(jacks@) =~= named_flags_view(before).push((name@, on)));
        }
        i += 1;
    }
    assert(lv.take(ls.len() as int) =~= lv);
    jacks
}

/// The boost control a `numid=` line names: one ending in `Mic Boost Volume`,
/// without its ` Volume` suffix.
pub open spec fn boost_name(t: Seq<char>) -> Option<Seq<char>> {
    match quoted_name(t) {
        Some(n) => if ends_with(n, "Mic Boost Volume"@) { Some(strip_suffixes(n, " Volume"@)) } else { None },
        None => None,
    }
}

/// The first comma-separated piece of a value list.
pub open spec fn first_piece(v: Seq<char>) -> Seq<char> {
    match find_char(v, ',') {
        Some(k) => v.take(k),
        None => v,
    }
}

pub open spec fn boost_step(st: (Seq<(Seq<char>, u32)>, Option<Seq<char>>), line: Seq<char>)
    -> (Seq<(Seq<char>, u32)>, Option<Seq<char>>)
{
    let t = trim(line);
    if starts_with(t, "numid="@) {
        (st.0, boost_name(t))
    } else {
        match st.1 {
            Some(name) => if starts_with(t, ": values="@) {
                match parse_u32(trim(first_piece(t.skip(9)))) {
                    Some(x) => (st.0.push((name, x)), None),
                    None => (st.0, None),
                }
            } else {
                st
            },
            None => st,
        }
    }
}

pub open spec fn boosts_fold(ls: Seq<Seq<char>>) -> (Seq<(Seq<char>, u32)>, Option<Seq<char>>)
    decreases ls.len(),
{
    if ls.len() == 0 {
        (seq![], None)
    } else {
        boost_step(boosts_fold(ls.drop_last()), ls.last())
    }
}

/// The current level of each microphone boost control.
pub open spec fn spec_parse_boosts(out: Seq<char>) -> Seq<(Seq<char>, u32)> {
    boosts_fold(lines(out)).0
}

pub fn parse_boosts(out: &str) -> (r: Vec<(String, u32)>)
    ensures
        named_values_view(r@) == spec_parse_boosts(out@),
{
    let ls = lines_of(out);
    let ghost lv = ls.deep_view();
    let mut res: Vec<(String, u32)> = Vec::new();
    let mut cur: Option<Vec<char>> = None;
    let mut i: usize = 0;
    assert(lv.take(0) =~= Seq::<Seq<char>>::empty());
    assert(named_values_view(res@) =~= Seq::<(Seq<char>, u32)>::empty());
    while i < ls.len()
        invariant
            i <= ls.len(),
            lv == ls.deep_view(),
            lv == lines(out@),
            (named_values_view(res@), opt_chars(cur)) == boosts_fold(lv.take(i as int)),
        decreases ls.len() - i,
    {
        proof { crate::text::lemma_deep_view_chars(&ls[i as int]); }
        assert(lv.take(i + 1).drop_last() =~= lv.take(i as int));
        assert(lv.take(i + 1).last() == ls@[i as int]@);
        let t = trim_exec(ls[i].as_slice());
        proof { reveal_strlit(": values="); reveal_strlit(" Volume"); }
        if starts_with_str(t.as_slice(), "numid=") {
            match quoted_name_exec(t.as_slice()) {
                Some(n) => {
                    if ends_with_str(n.as_slice(), "Mic Boost Volume") {
                        cur = Some(strip_suffixes_exec(n.as_slice(), " Volume"));
                    } else {
                        cur = None;
                    }
                },
                None => {
                    cur = None;
                },
            }
        } else if cur.is_some() && starts_with_str(t.as_slice(), ": values=") {
            let mut taken: Option<Vec<char>> = None;
            std::mem::swap(&mut taken, &mut cur);
            let name = taken.unwrap();
            let v = subseq(t.as_slice(), 9, t.len());
            assert(v@ =~= t@.skip(9));
            proof { crate::text::lemma_find_char(v@, ','); }
            let first = match find_char_exec(v.as_slice(), ',') {
                Some(k) => subseq(v.as_slice(), 0, k),
                None => v,
            };
            assert(first@ =~= first_piece(t@.skip(9)));
            match parse_u32_exec(trim_exec(first.as_slice()).as_slice()) {
                Some(x) => {
                    let ghost before = res@;
                    res.push((string_of(name), x));
                    assert(named_values_view(res@) =~= named_values_view(before).push((name@, x)));
                },
                None => {},
            }
        }
        i += 1;
    }
    assert(lv.take(ls.len() as int) =~= lv);
    res
}


// ---------------------------------------------------------------- pactl list

/// The state of the reading of `pactl list sinks|sources`: the devices
/// finished, the device being read and whether its port list is being read.
pub ghost struct DevScan {
    pub devs: Seq<DeviceView>,
    pub cur: Option<DeviceView>,
    pub in_ports: bool,
}

pub open spec fn new_device(name: Seq<char>) -> DeviceView {
    DeviceView { name, desc: seq![], ports: seq![], active_port: None, volume_pct: None, muted: false }
}

/// A line that ends a port list.
pub open spec fn ends_port_list(t: Seq<char>) -> bool {
    starts_with(t, "Active Port:"@) || starts_with(t, "Formats:"@) || starts_with(t, "Properties:"@)
}

/// A device line outside a port list: the device after it, and whether a
/// port list begins.
pub open spec fn dev_general(d: DeviceView, t: Seq<char>) -> (DeviceView, bool) {
    if starts_with(t, "Description:"@) {
        (DeviceView { desc: trim(t.skip(12)), ..d }, false)
    } else if starts_with(t, "Mute:"@) {
        (DeviceView { muted: trim(t.skip(5)) == "yes"@, ..d }, false)
    } else if starts_with(t, "Volume:"@) && d.volume_pct is None {
        (DeviceView { volume_pct: first_percent_from(t, 0), ..d }, false)
    } else if t == "Ports:"@ {
        (d, true)
    } else if starts_with(t, "Active Port:"@) {
        (DeviceView { active_port: Some(trim(t.skip(12))), ..d }, false)
    } else {
        (d, false)
    }
}

/// One trimmed line of `pactl list sinks|sources`.
pub open spec fn dev_step(st: DevScan, t: Seq<char>) -> DevScan {
    if starts_with(t, "Name:"@) {
        DevScan {
            devs: match st.cur {
                Some(d) => st.devs.push(d),
                None => st.devs,
            },
            cur: Some(new_device(trim(t.skip(5)))),
            in_ports: false,
        }
    } else {
        match st.cur {
            None => st,
            Some(d) => if st.in_ports && !ends_port_list(t) {
                match split_once(t, ':') {
                    Some((pn, rest)) => {
                        let sp = spec_split_port_desc(trim(rest));
                        let port = PortView { name: trim(pn), desc: sp.0, available: sp.1 };
                        DevScan { devs: st.devs, cur: Some(DeviceView { ports: d.ports.push(port), ..d }), in_ports: true }
                    },
                    None => st,
                }
            } else {
                let g = dev_general(d, t);
                DevScan { devs: st.devs, cur: Some(g.0), in_ports: g.1 }
            },
        }
    }
}

/// Whether reading the line looks for a volume, and so scans it for a percentage.
pub open spec fn dev_step_scans_volume(st: DevScan, t: Seq<char>) -> bool {
    &&& !starts_with(t, "Name:"@)
    &&& st.cur is Some
    &&& !(st.in_ports && !ends_port_list(t))
    &&& !starts_with(t, "Description:"@)
    &&& !starts_with(t, "Mute:"@)
    &&& starts_with(t, "Volume:"@)
    &&& st.cur->0.volume_pct is None
}

pub open spec fn dev_fold(ls: Seq<Seq<char>>) -> DevScan
    decreases ls.len(),
{
    if ls.len() == 0 {
        DevScan { devs: seq![], cur: None, in_ports: false }
    } else {
        dev_step(dev_fold(ls.drop_last()), trim(ls.last()))
    }
}

/// Every volume line that the reading scans is safe to scan.
pub open spec fn dev_fold_safe(ls: Seq<Seq<char>>) -> bool
    decreases ls.len(),
{
    if ls.len() == 0 {
        true
    } else {
        &&& dev_fold_safe(ls.drop_last())
        &&& (dev_step_scans_volume(dev_fold(ls.drop_last()), trim(ls.last()))
            ==> percent_scan_safe_from(trim(ls.last()), 0))
    }
}

pub open spec fn devices_readable(out: Seq<char>) -> bool {
    dev_fold_safe(lines(out))
}

/// The devices that `pactl list sinks|sources` describes, in order.
pub open spec fn spec_parse_devices(out: Seq<char>) -> Seq<DeviceView> {
    let st = dev_fold(lines(out));
    match st.cur {
        Some(d) => st.devs.push(d),
        None => st.devs,
    }
}

pub open spec fn opt_device_view(o: Option<DeviceInfo>) -> Option<DeviceView> {
    match o {
        Some(d) => Some(d@),
        None => None,
    }
}

pub open spec fn scan_state(devs: Seq<DeviceInfo>, cur: Option<DeviceInfo>, in_ports: bool) -> DevScan {
    DevScan { devs: devices_view(devs), cur: opt_device_view(cur), in_ports }
}

fn dev_general_exec(d: &mut DeviceInfo, t: &[char]) -> (ip: bool)
    requires
        starts_with(t@, "Volume:"@) && old(d)@.volume_pct is None && !starts_with(t@, "Description:"@)
            && !starts_with(t@, "Mute:"@) ==> percent_scan_safe_from(t@, 0),
    ensures
        (final(d)@, ip) == dev_general(old(d)@, t@),
{
    proof { reveal_strlit("Description:"); reveal_strlit("Mute:"); reveal_strlit("Active Port:"); }
    if starts_with_str(t, "Description:") {
        let v = subseq(t, 12, t.len());
        assert(v@ =~= t@.skip(12));
        d.desc = string_of(trim_exec(v.as_slice()));
        false
    } else if starts_with_str(t, "Mute:") {
        let v = subseq(t, 5, t.len());
        assert(v@ =~= t@.skip(5));
        d.muted = eq_str(trim_exec(v.as_slice()).as_slice(), "yes");
        false
    } else if starts_with_str(t, "Volume:") && d.volume_pct.is_none() {
        let ts = string_of(subseq(t, 0, t.len()));
        assert(t@.subrange(0, t@.len() as int) =~= t@);
        d.volume_pct = parse_first_percent(ts.as_str());
        false
    } else if eq_str(t, "Ports:") {
        true
    } else if starts_with_str(t, "Active Port:") {
        let v = subseq(t, 12, t.len());
        assert(v@ =~= t@.skip(12));
        d.active_port = Some(string_of(trim_exec(v.as_slice())));
        false
    } else {
        false
    }
}

fn ends_port_list_exec(t: &[char]) -> (r: bool)
    ensures
        r == ends_port_list(t@),
{
    starts_with_str(t, "Active Port:") || starts_with_str(t, "Formats:") || starts_with_str(t, "Properties:")
}

fn dev_step_exec(devs: &mut Vec<DeviceInfo>, cur: &mut Option<DeviceInfo>, in_ports: &mut bool, t: &[char])
    requires
        dev_step_scans_volume(scan_state(old(devs)@, *old(cur), *old(in_ports)), t@)
            ==> percent_scan_safe_from(t@, 0),
    ensures
        scan_state(final(devs)@, *final(cur), *final(in_ports))
            == dev_step(scan_state(old(devs)@, *old(cur), *old(in_ports)), t@),
{
    proof { reveal_strlit("Name:"); }
    if starts_with_str(t, "Name:") {
        let mut taken: Option<DeviceInfo> = None;
        std::mem::swap(&mut taken, cur);
        match taken {
            Some(d) => {
                let ghost before = devs@;
                devs.push(d);
                assert(devices_view(devs@) =~= devices_view(before).push(d@));
            },
            None => {},
        }
        let v = subseq(t, 5, t.len());
        assert(v@ =~= t@.skip(5));
        let nd = DeviceInfo {
            name: string_of(trim_exec(v.as_slice())),
            desc: String::new(),
            ports: Vec::new(),
            active_port: None,
            volume_pct: None,
            muted: false,
        };
        assert(nd@.ports =~= Seq::<PortView>::empty());
        assert(nd@.desc =~= Seq::<char>::empty());
        *cur = Some(nd);
        *in_ports = false;
        return;
    }
    if cur.is_none() {
        return;
    }
    let mut taken: Option<DeviceInfo> = None;
    std::mem::swap(&mut taken, cur);
    let mut d = taken.unwrap();
    let ghost d0 = d@;
    if *in_ports && !ends_port_list_exec(t) {
        match split_once_exec(t, ':') {
            Some((pn, rest)) => {
                let rs = string_of(trim_exec(rest.as_slice()));
                let (desc, available) = split_port_desc(rs.as_str());
                let port = PortInfo { name: string_of(trim_exec(pn.as_slice())), desc, available };
                let ghost ps0 = d.ports@;
                d.ports.push(port);
                assert(ports_view(d.ports@) =~= ports_view(ps0).push(port@));
                *cur = Some(d);
            },
            None => {
                *cur = Some(d);
            },
        }
    } else {
        let ip = dev_general_exec(&mut d, t);
        *cur = Some(d);
        *in_ports = ip;
    }
}

/// Reads the devices that `pactl list sinks|sources` describes.
pub fn parse_devices(out: &str) -> (r: Vec<DeviceInfo>)
    requires
        devices_readable(out@),
    ensures
        devices_view(r@) == spec_parse_devices(out@),
{
    let ls = lines_of(out);
    let ghost lv = ls.deep_view();
    let mut devs: Vec<DeviceInfo> = Vec::new();
    let mut cur: Option<DeviceInfo> = None;
    let mut in_ports = false;
    let mut i: usize = 0;
    assert(lv.take(0) =~= Seq::<Seq<char>>::empty());
    assert(devices_view(devs@) =~= Seq::<DeviceView>::empty());
    while i < ls.len()
        invariant
            i <= ls.len(),
            lv == ls.deep_view(),
            lv == lines(out@),
            dev_fold_safe(lv),
            scan_state(devs@, cur, in_ports) == dev_fold(lv.take(i as int)),
        decreases ls.len() - i,
    {
        proof {
            crate::text::lemma_deep_view_chars(&ls[i as int]);
            lemma_dev_fold_safe_prefix(lv, i + 1);
        }
        assert(lv.take(i + 1).drop_last() =~= lv.take(i as int));
        assert(lv.take(i + 1).last() == ls@[i as int]@);
        let t = trim_exec(ls[i].as_slice());
        dev_step_exec(&mut devs, &mut cur, &mut in_ports, t.as_slice());
        i += 1;
    }
    assert(lv.take(ls.len() as int) =~= lv);
    match cur {
        Some(d) => {
            let ghost before = devs@;
            devs.push(d);
            assert(devices_view(devs@) =~= devices_view(before).push(d@));
        },
        None => {},
    }
    devs
}

pub proof fn lemma_dev_fold_safe_prefix(ls: Seq<Seq<char>>, k: int)
    requires
        0 <= k <= ls.len(),
        dev_fold_safe(ls),
    ensures
        dev_fold_safe(ls.take(k)),
    decreases ls.len() - k,
{
    if k < ls.len() {
        lemma_dev_fold_safe_prefix(ls, k + 1);
        assert(ls.take(k + 1).drop_last() =~= ls.take(k));
    } else {
        assert(ls.take(k) =~= ls);
    }
}


// ---------------------------------------------------------------- the scan

/// The first line that contains `p`.
pub open spec fn first_line_with(ls: Seq<Seq<char>>, p: Seq<char>) -> Option<Seq<char>>
    decreases ls.len(),
{
    if ls.len() == 0 {
        None
    } else if contains(ls[0], p) {
        Some(ls[0])
    } else {
        first_line_with(ls.drop_first(), p)
    }
}

/// The id of the loaded noise-suppression module: the first word of the
/// first line of `pactl list short modules` that names `module-echo-cancel`.
pub open spec fn spec_denoise_module(out: Seq<char>) -> Option<Seq<char>> {
    match first_line_with(lines(out), "module-echo-cancel"@) {
        Some(l) => if words(l).len() > 0 { Some(words(l)[0]) } else { None },
        None => None,
    }
}

pub fn denoise_module(out: &str) -> (r: Option<String>)
    ensures
        opt_view(r) == spec_denoise_module(out@),
{
    let ls = lines_of(out);
    let ghost lv = ls.deep_view();
    let mut i: usize = 0;
    assert(lv.skip(0) =~= lv);
    while i < ls.len()
        invariant
            i <= ls.len(),
            lv == ls.deep_view(),
            lv == lines(out@),
            first_line_with(lv, "module-echo-cancel"@) == first_line_with(lv.skip(i as int), "module-echo-cancel"@),
        decreases ls.len() - i,
    {
        proof { crate::text::lemma_deep_view_chars(&ls[i as int]); }
        assert(lv.skip(i as int)[0] == ls@[i as int]@);
        assert(lv.skip(i as int).drop_first() =~= lv.skip(i + 1));
        if contains_str(ls[i].as_slice(), "module-echo-cancel") {
            let ws = words_exec(ls[i].as_slice());
            if ws.len() > 0 {
                proof { crate::text::lemma_deep_view_chars(&ws[0]); }
                return Some(string_of(subseq(ws[0].as_slice(), 0, ws[0].len())));
            } else {
                return None;
            }
        }
        i += 1;
    }
    None
}

/// The name a `pactl get-default-*` command reported: its trimmed output,
/// when it succeeded and printed something.
pub open spec fn reported_name(r: CmdResult) -> Option<Seq<char>> {
    if r.success && trim(r.output@).len() > 0 {
        Some(trim(r.output@))
    } else {
        None
    }
}

pub fn trim_name(r: &CmdResult) -> (n: Option<String>)
    ensures
        opt_view(n) == reported_name(*r),
{
    if !r.success {
        return None;
    }
    let t = trim_exec(chars_of_string(&r.output).as_slice());
    if t.len() == 0 {
        None
    } else {
        Some(string_of(t))
    }
}

/// The devices that are not monitors of an output (`.monitor`), in order.
pub open spec fn without_monitors(ds: Seq<DeviceView>) -> Seq<DeviceView>
    decreases ds.len(),
{
    if ds.len() == 0 {
        seq![]
    } else if ends_with(ds.last().name, ".monitor"@) {
        without_monitors(ds.drop_last())
    } else {
        without_monitors(ds.drop_last()).push(ds.last())
    }
}

pub fn drop_monitors(ds: Vec<DeviceInfo>) -> (r: Vec<DeviceInfo>)
    ensures
        devices_view(r@) == without_monitors(devices_view(ds@)),
{
    let mut out: Vec<DeviceInfo> = Vec::new();
    let ghost dv = devices_view(ds@);
    let mut rest = ds;
    let n = rest.len();
    let mut i: usize = 0;
    assert(dv.take(0) =~= Seq::<DeviceView>::empty());
    assert(devices_view(out@) =~= without_monitors(dv.take(0)));
    assert(devices_view(rest@) =~= dv.skip(0));
    while i < n
        invariant
            i <= n,
            n == dv.len(),
            devices_view(rest@) == dv.skip(i as int),
            devices_view(out@) == without_monitors(dv.take(i as int)),
        decreases n - i,
    {
        assert(devices_view(rest@).len() == n - i);
        let ghost r0 = rest@;
        let d = rest.remove(0);
        assert(d@ == devices_view(r0)[0]);
        assert(devices_view(rest@) =~= devices_view(r0).drop_first());
        assert(dv.skip(i as int).drop_first() =~= dv.skip(i + 1));
        assert(dv.take(i + 1).drop_last() =~= dv.take(i as int));
        assert(dv.take(i + 1).last() == d@);
        let name = chars_of_string(&d.name);
        if !ends_with_str(name.as_slice(), ".monitor") {
            let ghost before = out@;
            out.push(d);
            assert(devices_view(out@) =~= devices_view(before).push(d@));
        }
        i += 1;
    }
    assert(dv.take(n as int) =~= dv);
    out
}


// ---------------------------------------------------------------- codec dump

pub open spec fn is_hex(c: char) -> bool {
    ('0' <= c && c <= '9') || ('a' <= c && c <= 'f') || ('A' <= c && c <= 'F')
}

pub open spec fn hex_value(c: char) -> nat {
    if '0' <= c && c <= '9' {
        ((c as u32) - ('0' as u32)) as nat
    } else if 'a' <= c && c <= 'f' {
        ((c as u32) - ('a' as u32) + 10) as nat
    } else {
        ((c as u32) - ('A' as u32) + 10) as nat
    }
}

pub open spec fn all_hex(s: Seq<char>) -> bool {
    forall|i: int| 0 <= i < s.len() ==> is_hex(#[trigger] s[i])
}

pub open spec fn hex_digits_value(s: Seq<char>) -> nat
    decreases s.len(),
{
    if s.len() == 0 {
        0
    } else {
        hex_digits_value(s.drop_last()) * 16 + hex_value(s.last())
    }
}

/// What `u32::from_str_radix(s, 16)` gives: an optional `+`, then one or more
/// hexadecimal digits, within range.
pub open spec fn parse_hex_u32(s: Seq<char>) -> Option<u32> {
    let d = if s.len() > 0 && s[0] == '+' { s.drop_first() } else { s };
    if d.len() > 0 && all_hex(d) && hex_digits_value(d) <= u32::MAX {
        Some(hex_digits_value(d) as u32)
    } else {
        None
    }
}

pub proof fn lemma_hex_prefix(s: Seq<char>, k: int)
    requires
        0 <= k <= s.len(),
        all_hex(s),
    ensures
        hex_digits_value(s.take(k)) <= hex_digits_value(s),
    decreases s.len(),
{
    if k < s.len() {
        let t = s.drop_last();
        assert(t.take(k) =~= s.take(k));
        assert(all_hex(t)) by {
            assert forall|i: int| 0 <= i < t.len() implies is_hex(t[i]) by {
                assert(t[i] == s[i]);
            }
        }
        lemma_hex_prefix(t, k);
    } else {
        assert(s.take(k) =~= s);
    }
}

pub fn parse_hex_u32_exec(s: &[char]) -> (r: Option<u32>)
    ensures
        r == parse_hex_u32(s@),
{
    let mut i: usize = 0;
    if s.len() > 0 && s[0] == '+' {
        i = 1;
    }
    let ghost d = if s@.len() > 0 && s@[0] == '+' { s@.drop_first() } else { s@ };
    assert(d =~= s@.skip(i as int));
    if i >= s.len() {
        return None;
    }
    let start = i;
    let mut v: u64 = 0;
    while i < s.len()
        invariant
            start <= i <= s.len(),
            start <= 1,
            start < s.len(),
            d == s@.skip(start as int),
            d == (if s@.len() > 0 && s@[0] == '+' { s@.drop_first() } else { s@ }),
            v <= u32::MAX,
            forall|k: int| start <= k < i ==> is_hex(s@[k]),
            v == hex_digits_value(s@.subrange(start as int, i as int)),
        decreases s.len() - i,
    {
        let c = s[i];
        let h: u64 = if '0' <= c && c <= '9' {
            (c as u32 - '0' as u32) as u64
        } else if 'a' <= c && c <= 'f' {
            (c as u32 - 'a' as u32 + 10) as u64
        } else if 'A' <= c && c <= 'F' {
            (c as u32 - 'A' as u32 + 10) as u64
        } else {
            assert(!is_hex(d[i - start]));
            return None;
        };
        let nv: u64 = v * 16 + h;
        proof {
            let p = s@.subrange(start as int, i + 1);
            assert(p.drop_last() =~= s@.subrange(start as int, i as int));
            assert(hex_digits_value(p) == nv);
        }
        if nv > 0xffff_ffff {
            proof {
                if all_hex(d) {
                    let p = s@.subrange(start as int, i + 1);
                    assert(p =~= d.take(i + 1 - start));
                    lemma_hex_prefix(d, i + 1 - start);
                }
            }
            return None;
        }
        v = nv;
        i += 1;
    }
    assert(d =~= s@.subrange(start as int, s.len() as int));
    Some(v as u32)
}

/// What the reading of a codec dump has gathered so far.
pub ghost struct CodecScan {
    pub vendor_id: Seq<char>,
    pub subsys_id: Seq<char>,
    pub codec_addr: u32,
    pub cur_nid: Option<u32>,
    pub target_nid: Option<u32>,
    pub target_pinctl: Seq<char>,
}

/// One trimmed line of `/proc/asound/cardN/codec#M`: the codec's ids and
/// address, the node being described, the node of the Headphone Mic boost
/// control and that node's pin controls.
pub open spec fn codec_step(st: CodecScan, t: Seq<char>) -> CodecScan {
    if starts_with(t, "Vendor Id:"@) {
        CodecScan { vendor_id: trim(t.skip(10)), ..st }
    } else if starts_with(t, "Subsystem Id:"@) {
        CodecScan { subsys_id: trim(t.skip(13)), ..st }
    } else if starts_with(t, "Address:"@) {
        CodecScan {
            codec_addr: match parse_u32(trim(t.skip(8))) {
                Some(v) => v,
                None => 0,
            },
            ..st
        }
    } else if starts_with(t, "Node 0x"@) {
        CodecScan {
            cur_nid: if words(t.skip(7)).len() > 0 { parse_hex_u32(words(t.skip(7))[0]) } else { None },
            ..st
        }
    } else if contains(t, "name=\"Headphone Mic Boost Volume\""@) {
        CodecScan { target_nid: st.cur_nid, ..st }
    } else if starts_with(t, "Pin-ctls:"@) {
        if st.cur_nid is Some && st.cur_nid == st.target_nid {
            CodecScan { target_pinctl: trim(t.skip(9)), ..st }
        } else {
            st
        }
    } else {
        st
    }
}

pub open spec fn codec_fold(ls: Seq<Seq<char>>) -> CodecScan
    decreases ls.len(),
{
    if ls.len() == 0 {
        CodecScan { vendor_id: seq![], subsys_id: seq![], codec_addr: 0, cur_nid: None, target_nid: None, target_pinctl: seq![] }
    } else {
        codec_step(codec_fold(ls.drop_last()), trim(ls.last()))
    }
}

/// Whether the pin controls switch the mic bias on.
pub open spec fn bias_on_of(pinctl: Seq<char>) -> bool {
    contains(pinctl, "VREF_80"@) || contains(pinctl, "VREF_100"@) || contains(pinctl, "VREF_50"@)
}

pub open spec fn hwdev_of(card: u32, codec_addr: u32) -> Seq<char> {
    "/dev/snd/hwC"@ + crate::text::decimal(card as nat) + "D"@ + crate::text::decimal(codec_addr as nat)
}

/// What one codec dump says of the headphone-mic bias.
pub enum CodecVref {
    /// The codec has no Headphone Mic boost: look at the next one.
    Skip,
    /// It has one, but no node carries the control: give up.
    NoPin,
    Found(VrefInfo),
}

fn codec_step_exec(st: &mut (Vec<char>, Vec<char>, u32, Option<u32>, Option<u32>, Vec<char>), t: &[char])
    ensures
        codec_state(*final(st)) == codec_step(codec_state(*old(st)), t@),
{
    proof {
        reveal_strlit("Vendor Id:");
        reveal_strlit("Subsystem Id:");
        reveal_strlit("Address:");
        reveal_strlit("Node 0x");
        reveal_strlit("Pin-ctls:");
    }
    if starts_with_str(t, "Vendor Id:") {
        let v = subseq(t, 10, t.len());
        assert(v@ =~= t@.skip(10));
        st.0 = trim_exec(v.as_slice());
    } else if starts_with_str(t, "Subsystem Id:") {
        let v = subseq(t, 13, t.len());
        assert(v@ =~= t@.skip(13));
        st.1 = trim_exec(v.as_slice());
    } else if starts_with_str(t, "Address:") {
        let v = subseq(t, 8, t.len());
        assert(v@ =~= t@.skip(8));
        st.2 = match parse_u32_exec(trim_exec(v.as_slice()).as_slice()) {
            Some(a) => a,
            None => 0,
        };
    } else if starts_with_str(t, "Node 0x") {
        let v = subseq(t, 7, t.len());
        assert(v@ =~= t@.skip(7));
        let ws = words_exec(v.as_slice());
        if ws.len() > 0 {
            proof { crate::text::lemma_deep_view_chars(&ws[0]); }
            st.3 = parse_hex_u32_exec(ws[0].as_slice());
        } else {
            st.3 = None;
        }
    } else if contains_str(t, "name=\"Headphone Mic Boost Volume\"") {
        st.4 = st.3;
    } else if starts_with_str(t, "Pin-ctls:") {
        if st.3.is_some() && st.3 == st.4 {
            let v = subseq(t, 9, t.len());
            assert(v@ =~= t@.skip(9));
            st.5 = trim_exec(v.as_slice());
        }
    }
}

pub open spec fn codec_state(st: (Vec<char>, Vec<char>, u32, Option<u32>, Option<u32>, Vec<char>)) -> CodecScan {
    CodecScan {
        vendor_id: st.0@,
        subsys_id: st.1@,
        codec_addr: st.2,
        cur_nid: st.3,
        target_nid: st.4,
        target_pinctl: st.5@,
    }
}

/// Reads the headphone-mic bias state from the dump of codec `M` of card
/// `card`; `boot_patch` and `nopass` say whether the boot-time patch and the
/// password-less helper are installed.
pub fn codec_vref(txt: &str, card: u32, boot_patch: bool, nopass: bool) -> (r: CodecVref)
    ensures
        match r {
            CodecVref::Skip => !contains(txt@, "Headphone Mic Boost"@),
            CodecVref::NoPin => contains(txt@, "Headphone Mic Boost"@)
                && codec_fold(lines(txt@)).target_nid is None,
            CodecVref::Found(v) => {
                let st = codec_fold(lines(txt@));
                &&& contains(txt@, "Headphone Mic Boost"@)
                &&& st.target_nid == Some(v.nid)
                &&& v.hwdev@ == hwdev_of(card, st.codec_addr)
                &&& v.bias_on == bias_on_of(st.target_pinctl)
                &&& v.vendor_id@ == st.vendor_id
                &&& v.subsys_id@ == st.subsys_id
                &&& v.codec_addr == st.codec_addr
                &&& v.boot_patch == boot_patch
                &&& v.nopass == nopass
            },
        },
{
    let c = chars_of(txt);
    if !contains_str(c.as_slice(), "Headphone Mic Boost") {
        return CodecVref::Skip;
    }
    let ls = lines_of(txt);
    let ghost lv = ls.deep_view();
    let mut st: (Vec<char>, Vec<char>, u32, Option<u32>, Option<u32>, Vec<char>) =
        (Vec::new(), Vec::new(), 0, None, None, Vec::new());
    let mut i: usize = 0;
    assert(lv.take(0) =~= Seq::<Seq<char>>::empty());
    assert(codec_state(st) =~= codec_fold(lv.take(0)));
    while i < ls.len()
        invariant
            i <= ls.len(),
            lv == ls.deep_view(),
            lv == lines(txt@),
            codec_state(st) == codec_fold(lv.take(i as int)),
        decreases ls.len() - i,
    {
        proof { crate::text::lemma_deep_view_chars(&ls[i as int]); }
        assert(lv.take(i + 1).drop_last() =~= lv.take(i as int));
        assert(lv.take(i + 1).last() == ls@[i as int]@);
        let t = trim_exec(ls[i].as_slice());
        codec_step_exec(&mut st, t.as_slice());
        i += 1;
    }
    assert(lv.take(ls.len() as int) =~= lv);
    let nid = match st.4 {
        Some(n) => n,
        None => return CodecVref::NoPin,
    };
    let bias_on = contains_str(st.5.as_slice(), "VREF_80") || contains_str(st.5.as_slice(), "VREF_100")
        || contains_str(st.5.as_slice(), "VREF_50");
    let mut hw: Vec<char> = Vec::new();
    crate::text::extend_str(&mut hw, "/dev/snd/hwC");
    crate::text::push_decimal(&mut hw, card as u64);
    crate::text::extend_str(&mut hw, "D");
    crate::text::push_decimal(&mut hw, st.2 as u64);
    assert(hw@ =~= hwdev_of(card, st.2));
    let (vendor, subsys, addr) = (st.0, st.1, st.2);
    CodecVref::Found(VrefInfo {
        hwdev: string_of(hw),
        nid,
        bias_on,
        vendor_id: string_of(vendor),
        subsys_id: string_of(subsys),
        codec_addr: addr,
        boot_patch,
        nopass,
    })
}

/// Whether scanning `s` for its first percentage is safe (see `percent_scan_safe_from`).
pub fn percent_scan_safe(s: &[char]) -> (r: bool)
    ensures
        r == percent_scan_safe_from(s@, 0),
{
    let mut j: usize = 0;
    while j < s.len()
        invariant
            j <= s.len(),
            percent_scan_safe_from(s@, 0) == percent_scan_safe_from(s@, j as int),
        decreases s.len() - j,
    {
        if s[j] == '%' {
            let st = digit_run_start_exec(s, j);
            if !(st == 0 || (s[st - 1] as u32) < 128) {
                return false;
            }
            if st < j {
                let d = subseq(s, st, j);
                if parse_u32_exec(d.as_slice()).is_some() {
                    return true;
                }
            }
        }
        j += 1;
    }
    true
}

/// Whether `pactl list` output can be read without cutting a character
/// apart (see `devices_readable`).
pub fn devices_readable_text(out: &str) -> (r: bool)
    ensures
        r == devices_readable(out@),
{
    let ls = lines_of(out);
    let ghost lv = ls.deep_view();
    let mut devs: Vec<DeviceInfo> = Vec::new();
    let mut cur: Option<DeviceInfo> = None;
    let mut in_ports = false;
    let mut i: usize = 0;
    assert(lv.take(0) =~= Seq::<Seq<char>>::empty());
    assert(devices_view(devs@) =~= Seq::<DeviceView>::empty());
    while i < ls.len()
        invariant
            i <= ls.len(),
            lv == ls.deep_view(),
            lv == lines(out@),
            dev_fold_safe(lv.take(i as int)),
            scan_state(devs@, cur, in_ports) == dev_fold(lv.take(i as int)),
        decreases ls.len() - i,
    {
        proof { crate::text::lemma_deep_view_chars(&ls[i as int]); }
        assert(lv.take(i + 1).drop_last() =~= lv.take(i as int));
        assert(lv.take(i + 1).last() == ls@[i as int]@);
        let t = trim_exec(ls[i].as_slice());
        proof { reveal_strlit("Name:"); reveal_strlit("Description:"); reveal_strlit("Mute:"); reveal_strlit("Volume:"); }
        let scans = !starts_with_str(t.as_slice(), "Name:") && cur.is_some()
            && !(in_ports && !ends_port_list_exec(t.as_slice()))
            && !starts_with_str(t.as_slice(), "Description:") && !starts_with_str(t.as_slice(), "Mute:")
            && starts_with_str(t.as_slice(), "Volume:")
            && cur.as_ref().unwrap().volume_pct.is_none();
        if scans && !percent_scan_safe(t.as_slice()) {
            proof {
                if dev_fold_safe(lv) {
                    lemma_dev_fold_safe_prefix(lv, i + 1);
                }
            }
            return false;
        }
        dev_step_exec(&mut devs, &mut cur, &mut in_ports, t.as_slice());
        i += 1;
    }
    assert(lv.take(ls.len() as int) =~= lv);
    true
}

} // verus!
