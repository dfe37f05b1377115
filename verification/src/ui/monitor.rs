//! Hardware monitor: counters read from /proc, disk names, the turbo-boost
//! helper and its installation.

use vstd::prelude::*;
use crate::text::{
    chars_of, eq_str, extend, extend_str, lemma_deep_view_chars, lines, lines_of, parse_u64,
    string_of, subseq, words,
};

verus! {

pub const TURBO_HELPER: &'static str = "/usr/local/bin/popmgr-turbo";

/// The root helper that switches turbo boost: only `on` or `off`, and only
/// the two sysfs switches.
pub const TURBO_HELPER_SCRIPT: &'static str = r#"#!/bin/bash
set -euo pipefail
case "${1:-}" in
  on) v_pstate=0; v_boost=1 ;;
  off) v_pstate=1; v_boost=0 ;;
  *) echo "usage: popmgr-turbo on|off" >&2; exit 2 ;;
esac
if [ -w /sys/devices/system/cpu/intel_pstate/no_turbo ]; then echo "$v_pstate" > /sys/devices/system/cpu/intel_pstate/no_turbo
elif [ -w /sys/devices/system/cpu/cpufreq/boost ]; then echo "$v_boost" > /sys/devices/system/cpu/cpufreq/boost
else echo "turbo control not available" >&2; exit 1; fi
if [ -r /sys/devices/system/cpu/intel_pstate/no_turbo ]; then cat /sys/devices/system/cpu/intel_pstate/no_turbo
else cat /sys/devices/system/cpu/cpufreq/boost; fi
"#;

/// What the overheat protection does about turbo boost.
#[derive(Debug, Clone, Copy, PartialEq, Eq, Structural)]
pub enum TurboAction {
    Hold,
    TurnOff,
    TurnOn,
}

/// The total and idle jiffies of the `cpu` line of /proc/stat.
#[derive(Debug, Clone, Copy, PartialEq, Eq, Structural)]
pub struct CpuCounters {
    pub total: u64,
    pub idle: u64,
}

/// A field as a number, 0 when it is missing or not one.
pub open spec fn field_num(ws: Seq<Seq<char>>, i: int) -> nat {
    if 0 <= i < ws.len() {
        match parse_u64(ws[i]) {
            Some(v) => v as nat,
            None => 0,
        }
    } else {
        0
    }
}

/// The sum of the numeric fields from index `from` on.
pub open spec fn fields_sum(ws: Seq<Seq<char>>, from: int) -> nat
    decreases ws.len() - from,
{
    if from < 0 || from >= ws.len() {
        0
    } else {
        field_num(ws, from) + fields_sum(ws, from + 1)
    }
}

pub open spec fn proc_stat_words(s: Seq<char>) -> Seq<Seq<char>> {
    if lines(s).len() > 0 { words(lines(s)[0]) } else { seq![] }
}

/// Whether the counters of the `cpu` line fit in 64 bits.
pub open spec fn proc_stat_fits(s: Seq<char>) -> bool {
    let ws = proc_stat_words(s);
    fields_sum(ws, 1) <= u64::MAX && field_num(ws, 4) + field_num(ws, 5) <= u64::MAX
}

pub open spec fn spec_parse_proc_stat(s: Seq<char>) -> Option<CpuCounters> {
    let ws = proc_stat_words(s);
    if lines(s).len() == 0 || ws.len() == 0 || ws[0] != "cpu"@ {
        None
    } else {
        Some(CpuCounters {
            total: fields_sum(ws, 1) as u64,
            idle: (field_num(ws, 4) + field_num(ws, 5)) as u64,
        })
    }
}

fn field_num_exec(ws: &Vec<Vec<char>>, i: usize) -> (r: u64)
    ensures
        r == field_num(ws.deep_view(), i as int),
{
    if i < ws.len() {
        proof { lemma_deep_view_chars(&ws[i as int]); }
        match crate::text::parse_u64_exec(ws[i].as_slice()) {
            Some(v) => v,
            None => 0,
        }
    } else {
        0
    }
}

/// The CPU counters of /proc/stat: the sum of the `cpu` line's fields, and
/// idle plus iowait.
pub fn parse_proc_stat(s: &str) -> (r: Option<CpuCounters>)
    requires
        proc_stat_fits(s@),
    ensures
        r == spec_parse_proc_stat(s@),
{
    let ls = lines_of(s);
    if ls.len() == 0 {
        return None;
    }
    proof { lemma_deep_view_chars(&ls[0]); }
    let ws = crate::text::words_exec(ls[0].as_slice());
    let ghost wv = ws.deep_view();
    if ws.len() == 0 {
        return None;
    }
    proof { lemma_deep_view_chars(&ws[0]); }
    if !eq_str(ws[0].as_slice(), "cpu") {
        return None;
    }
    let mut total: u64 = 0;
    let mut i: usize = ws.len();
    while i > 1
        invariant
            1 <= i <= ws.len(),
            wv == ws.deep_view(),
            fields_sum(wv, 1) <= u64::MAX,
            total == fields_sum(wv, i as int),
            fields_sum(wv, 1) == fields_sum(wv, i as int) + (fields_sum(wv, 1) - fields_sum(wv, i as int)),
            fields_sum(wv, i as int) <= fields_sum(wv, 1),
        decreases i,
    {
        i -= 1;
        let v = field_num_exec(&ws, i);
        proof { lemma_fields_sum_mono(wv, 1, i as int); }
        total = total + v;
    }
    let idle = field_num_exec(&ws, 4) + field_num_exec(&ws, 5);
    Some(CpuCounters { total, idle })
}

/// Later starting points sum no more.
proof fn lemma_fields_sum_mono(ws: Seq<Seq<char>>, a: int, b: int)
    requires
        0 <= a <= b,
    ensures
        fields_sum(ws, b) <= fields_sum(ws, a),
    decreases b - a,
{
    if a < b {
        lemma_fields_sum_mono(ws, a + 1, b);
    }
}

/// The milliseconds spent doing I/O (field 13) of the first diskstats line
/// of `disk` that has a number there.
pub open spec fn disk_io_of(ls: Seq<Seq<char>>, disk: Seq<char>) -> Option<u64>
    decreases ls.len(),
{
    if ls.len() == 0 {
        None
    } else {
        let ws = words(ls[0]);
        if ws.len() > 2 && ws[2] == disk && ws.len() > 12 && parse_u64(ws[12]) is Some {
            parse_u64(ws[12])
        } else {
            disk_io_of(ls.drop_first(), disk)
        }
    }
}

pub fn disk_io_ms(s: &str, disk: &str) -> (r: Option<u64>)
    ensures
        r == disk_io_of(lines(s@), disk@),
{
    let ls = lines_of(s);
    let ghost lv = ls.deep_view();
    let mut i: usize = 0;
    assert(lv.skip(0) =~= lv);
    while i < ls.len()
        invariant
            i <= ls.len(),
            lv == ls.deep_view(),
            lv == lines(s@),
            disk_io_of(lv.skip(i as int), disk@) == disk_io_of(lv, disk@),
        decreases ls.len() - i,
    {
        proof { lemma_deep_view_chars(&ls[i as int]); }
        assert(lv.skip(i as int).drop_first() =~= lv.skip(i + 1));
        assert(lv.skip(i as int)[0] == ls@[i as int]@);
        let ws = crate::text::words_exec(ls[i].as_slice());
        if ws.len() > 12 {
            proof { lemma_deep_view_chars(&ws[2]); lemma_deep_view_chars(&ws[12]); }
            if eq_str(ws[2].as_slice(), disk) {
                match crate::text::parse_u64_exec(ws[12].as_slice()) {
                    Some(v) => { return Some(v); },
                    None => {},
                }
            }
        }
        i += 1;
    }
    None
}

pub open spec fn all_ascii_digits(s: Seq<char>) -> bool {
    forall|k: int| 0 <= k < s.len() ==> '0' <= #[trigger] s[k] <= '9'
}

/// `s` without its trailing ASCII digits.
pub open spec fn trim_end_digits(s: Seq<char>) -> Seq<char>
    decreases s.len(),
{
    if s.len() > 0 && '0' <= s.last() <= '9' {
        trim_end_digits(s.drop_last())
    } else {
        s
    }
}

/// The disk of a partition: `nvme0n1p3` and `mmcblk0p1` drop the `p` and
/// its number, `sda2` drops the number.
pub open spec fn spec_disk_name(part: Seq<char>) -> Seq<char> {
    match crate::text::rfind_char(part, 'p') {
        Some(i) => {
            if i > 0 && '0' <= part[i - 1] <= '9' && all_ascii_digits(part.skip(i + 1)) {
                part.take(i)
            } else {
                trim_end_digits(part)
            }
        },
        None => trim_end_digits(part),
    }
}

pub fn disk_name(part: &str) -> (r: String)
    ensures
        r@ == spec_disk_name(part@),
{
    let p = chars_of(part);
    match crate::text::rfind_char_exec(p.as_slice(), 'p') {
        Some(i) => {
            proof { crate::text::lemma_rfind_char(p@, 'p'); }
            if i > 0 && '0' <= p[i - 1] && p[i - 1] <= '9' {
                assert(i < p.len());
                let mut k: usize = i + 1;
                while k < p.len()
                    invariant
                        i + 1 <= k <= p.len(),
                        i > 0 && '0' <= p@[i - 1] <= '9',
                        crate::text::rfind_char(p@, 'p') == Some(i as int),
                        0 <= i < p@.len(),
                        p@ == part@,
                        forall|j: int| i + 1 <= j < k ==> '0' <= #[trigger] p@[j] <= '9',
                    decreases p.len() - k,
                {
                    if !('0' <= p[k] && p[k] <= '9') {
                        assert(!all_ascii_digits(p@.skip(i + 1))) by {
                            assert(p@.skip(i + 1)[k - i - 1] == p@[k as int]);
                        }
                        return trim_end_digits_exec(p.as_slice());
                    }
                    k += 1;
                }
                assert(all_ascii_digits(p@.skip(i + 1))) by {
                    assert forall|j: int| 0 <= j < p@.skip(i + 1).len() implies '0' <= #[trigger] p@.skip(i + 1)[j] <= '9' by {
                        assert(p@.skip(i + 1)[j] == p@[i + 1 + j]);
                    }
                }
                let r = subseq(p.as_slice(), 0, i);
                assert(r@ =~= p@.take(i as int));
                return string_of(r);
            }
            trim_end_digits_exec(p.as_slice())
        },
        None => trim_end_digits_exec(p.as_slice()),
    }
}

fn trim_end_digits_exec(s: &[char]) -> (r: String)
    ensures
        r@ == trim_end_digits(s@),
{
    let mut j: usize = s.len();
    assert(s@.take(s.len() as int) =~= s@);
    while j > 0 && '0' <= s[j - 1] && s[j - 1] <= '9'
        invariant
            j <= s.len(),
            trim_end_digits(s@) == trim_end_digits(s@.take(j as int)),
        decreases j,
    {
        assert(s@.take(j as int).drop_last() =~= s@.take(j - 1));
        j -= 1;
    }
    let r = subseq(s, 0, j);
    assert(r@ =~= s@.take(j as int));
    string_of(r)
}

// ---------------------------------------------------------------- base64

pub open spec fn b64_char(i: int) -> char {
    if 0 <= i < 26 {
        ('A' as int + i) as char
    } else if 26 <= i < 52 {
        ('a' as int + (i - 26)) as char
    } else if 52 <= i < 62 {
        ('0' as int + (i - 52)) as char
    } else if i == 62 {
        '+'
    } else {
        '/'
    }
}

/// Standard base64 with `=` padding.
pub open spec fn base64(data: Seq<u8>) -> Seq<char>
    decreases data.len(),
{
    if data.len() == 0 {
        seq![]
    } else {
        let b0 = data[0] as int;
        let b1 = if data.len() > 1 { data[1] as int } else { 0 };
        let b2 = if data.len() > 2 { data[2] as int } else { 0 };
        let quad = seq![
            b64_char(b0 / 4),
            b64_char((b0 % 4) * 16 + b1 / 16),
            if data.len() > 1 { b64_char((b1 % 16) * 4 + b2 / 64) } else { '=' },
            if data.len() > 2 { b64_char(b2 % 64) } else { '=' },
        ];
        if data.len() <= 3 { quad } else { quad + base64(data.skip(3)) }
    }
}

fn b64_char_exec(i: u32) -> (c: char)
    requires
        i < 64,
    ensures
        c == b64_char(i as int),
{
    if i < 26 {
        let v = 65 + i as u8;
        v as char
    } else if i < 52 {
        let v = 97 + (i - 26) as u8;
        v as char
    } else if i < 62 {
        let v = 48 + (i - 52) as u8;
        v as char
    } else if i == 62 {
        '+'
    } else {
        '/'
    }
}

/// Base64 of `data`, padded.
pub fn base64_encode(data: &[u8]) -> (r: String)
    ensures
        r@ == base64(data@),
{
    let mut out: Vec<char> = Vec::new();
    let mut i: usize = 0;
    assert(data@.skip(0) =~= data@);
    while i < data.len()
        invariant
            i <= data.len(),
            out@ + base64(data@.skip(i as int)) == base64(data@),
        decreases data.len() - i,
    {
        let rest = data.len() - i;
        let b0 = data[i] as u32;
        let b1 = if rest > 1 { data[i + 1] as u32 } else { 0 };
        let b2 = if rest > 2 { data[i + 2] as u32 } else { 0 };
        let ghost d = data@.skip(i as int);
        assert(d[0] == data@[i as int]);
        assert(rest > 1 ==> d[1] == data@[i + 1]);
        assert(rest > 2 ==> d[2] == data@[i + 2]);
        let ghost o0 = out@;
        out.push(b64_char_exec(b0 / 4));
        out.push(b64_char_exec((b0 % 4) * 16 + b1 / 16));
        out.push(if rest > 1 { b64_char_exec((b1 % 16) * 4 + b2 / 64) } else { '=' });
        out.push(if rest > 2 { b64_char_exec(b2 % 64) } else { '=' });
        let ghost quad = out@.skip(o0.len() as int);
        assert(out@ =~= o0 + quad);
        if rest <= 3 {
            assert(data@.skip((i + rest) as int) =~= Seq::<u8>::empty());
            assert(base64(d) =~= quad);
            i = data.len();
        } else {
            assert(d.skip(3) =~= data@.skip(i + 3));
            assert(base64(d) =~= quad + base64(d.skip(3)));
            i = i + 3;
        }
    }
    assert(data@.skip(data.len() as int) =~= Seq::<u8>::empty());
    string_of(out)
}

/// The length of base64 output: four characters for every started group of three bytes.
pub proof fn lemma_base64_len(data: Seq<u8>)
    ensures
        base64(data).len() == 4 * ((data.len() + 2) / 3),
    decreases data.len(),
{
    if data.len() > 3 {
        lemma_base64_len(data.skip(3));
    }
}

// ---------------------------------------------------------------- UTF-8

/// The UTF-8 encoding of one character.
pub open spec fn utf8_char(c: char) -> Seq<u8> {
    let u = (c as u32) as int;
    if u < 0x80 {
        seq![u as u8]
    } else if u < 0x800 {
        seq![(0xc0 + u / 64) as u8, (0x80 + u % 64) as u8]
    } else if u < 0x10000 {
        seq![(0xe0 + u / 4096) as u8, (0x80 + (u / 64) % 64) as u8, (0x80 + u % 64) as u8]
    } else {
        seq![(0xf0 + u / 262144) as u8, (0x80 + (u / 4096) % 64) as u8, (0x80 + (u / 64) % 64) as u8, (0x80 + u % 64) as u8]
    }
}

pub open spec fn utf8(s: Seq<char>) -> Seq<u8>
    decreases s.len(),
{
    if s.len() == 0 { seq![] } else { utf8(s.drop_last()) + utf8_char(s.last()) }
}

/// The UTF-8 bytes of `s`.
pub fn utf8_bytes(s: &str) -> (r: Vec<u8>)
    ensures
        r@ == utf8(s@),
{
    let c = chars_of(s);
    let mut out: Vec<u8> = Vec::new();
    let mut i: usize = 0;
    while i < c.len()
        invariant
            i <= c.len(),
            c@ == s@,
            out@ == utf8(c@.take(i as int)),
        decreases c.len() - i,
    {
        let u = c[i] as u32;
        let ghost o0 = out@;
        if u < 0x80 {
            out.push(u as u8);
        } else if u < 0x800 {
            out.push((0xc0 + u / 64) as u8);
            out.push((0x80 + u % 64) as u8);
        } else if u < 0x10000 {
            out.push((0xe0 + u / 4096) as u8);
            out.push((0x80 + (u / 64) % 64) as u8);
            out.push((0x80 + u % 64) as u8);
        } else {
            out.push((0xf0 + u / 262144) as u8);
            out.push((0x80 + (u / 4096) % 64) as u8);
            out.push((0x80 + (u / 64) % 64) as u8);
            out.push((0x80 + u % 64) as u8);
        }
        assert(c@.take(i + 1).drop_last() =~= c@.take(i as int));
        assert(out@ =~= o0 + utf8_char(c@[i as int]));
        i += 1;
    }
    assert(c@.take(c.len() as int) =~= c@);
    out
}

pub open spec fn spec_helper_install_script(user: Seq<char>) -> Seq<char> {
    "pkexec bash -c 'set -e; echo "@ + base64(utf8(TURBO_HELPER_SCRIPT@)) + " | base64 -d > "@ + TURBO_HELPER@
        + "; chown root:root "@ + TURBO_HELPER@ + "; chmod 0755 "@ + TURBO_HELPER@
        + "; printf \"%s ALL=(root) NOPASSWD: "@ + TURBO_HELPER@ + "\\n\" "@ + user
        + " > /etc/sudoers.d/popmgr-turbo; chmod 0440 /etc/sudoers.d/popmgr-turbo; visudo -cf /etc/sudoers.d/popmgr-turbo'"@
}

/// Installs the turbo helper as root (shipped base64-encoded, so that no
/// quoting can change it) and lets `user` run it without a password.
pub fn helper_install_script(user: &str) -> (r: String)
    ensures
        r@ == spec_helper_install_script(user@),
{
    let b = utf8_bytes(TURBO_HELPER_SCRIPT);
    let b64 = base64_encode(b.as_slice());
    let mut o = chars_of("pkexec bash -c 'set -e; echo ");
    extend(&mut o, crate::text::chars_of_string(&b64).as_slice());
    extend_str(&mut o, " | base64 -d > ");
    extend_str(&mut o, TURBO_HELPER);
    extend_str(&mut o, "; chown root:root ");
    extend_str(&mut o, TURBO_HELPER);
    extend_str(&mut o, "; chmod 0755 ");
    extend_str(&mut o, TURBO_HELPER);
    extend_str(&mut o, "; printf \"%s ALL=(root) NOPASSWD: ");
    extend_str(&mut o, TURBO_HELPER);
    extend_str(&mut o, "\\n\" ");
    extend_str(&mut o, user);
    extend_str(&mut o, " > /etc/sudoers.d/popmgr-turbo; chmod 0440 /etc/sudoers.d/popmgr-turbo; visudo -cf /etc/sudoers.d/popmgr-turbo'");
    string_of(o)
}

pub open spec fn spec_turbo_command(on: bool) -> Seq<char> {
    if on { "sudo -n /usr/local/bin/popmgr-turbo on 2>&1"@ } else { "sudo -n /usr/local/bin/popmgr-turbo off 2>&1"@ }
}

/// Switches turbo through the helper without a password prompt.
pub fn turbo_command(action: TurboAction) -> (r: &'static str)
    ensures
        r@ == spec_turbo_command(action != TurboAction::TurnOff),
{
    if action == TurboAction::TurnOff {
        "sudo -n /usr/local/bin/popmgr-turbo off 2>&1"
    } else {
        "sudo -n /usr/local/bin/popmgr-turbo on 2>&1"
    }
}

} // verus!
