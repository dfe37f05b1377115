//! The input-method environment: `/etc/environment` and shell start-up files,
//! the scripts that rewrite them, and the timestamps that mark what the tool
//! disabled.

use vstd::prelude::*;
use crate::text::{
    chars_of, chars_of_string, decimal_padded, eq, eq_str, extend, extend_str, find_char,
    join, join_str, lemma_deep_view_chars, lines, lines_of, push_decimal_padded, push_piece,
    replace, starts_with, string_of, strip_prefix_str, subseq, to_string, trim, trim_exec,
    trim_matches_char, trim_matches_exec, trim_start, trim_start_exec,
};
use crate::ui::ime::{spec_env_lines, spec_label, ImeKind};

verus! {

// ---------------------------------------------------------------- quoting

pub open spec fn spec_shell_quote(s: Seq<char>) -> Seq<char> {
    "'"@ + replace(s, "'"@, "'\\''"@) + "'"@
}

/// `s` as one single-quoted shell word.
pub fn shell_quote(s: &str) -> (r: String)
    ensures
        r@ == spec_shell_quote(s@),
{
    proof { reveal_strlit("'"); }
    let c = chars_of(s);
    let mut out = chars_of("'");
    let q = crate::text::replace_str(c.as_slice(), "'", "'\\''");
    extend(&mut out, q.as_slice());
    extend_str(&mut out, "'");
    string_of(out)
}

// ---------------------------------------------------------------- timestamps

pub open spec fn is_leap(y: int) -> bool {
    (y % 4 == 0 && y % 100 != 0) || y % 400 == 0
}

pub open spec fn year_len(y: int) -> int {
    if is_leap(y) { 366 } else { 365 }
}

/// The year that day `d` (counted from the start of year `y`) falls in, and
/// the day within it.
pub open spec fn civil_year(y: int, d: int) -> (int, int)
    decreases d,
{
    if d < 0 || d < year_len(y) {
        (y, d)
    } else {
        civil_year(y + 1, d - year_len(y))
    }
}

pub open spec fn month_len(mo: int, leap: bool) -> int {
    if mo == 1 {
        if leap { 29 } else { 28 }
    } else if mo == 3 || mo == 5 || mo == 8 || mo == 10 {
        30
    } else {
        31
    }
}

/// The month (from 0) and the day of the month (from 1) of day `day` (from 1)
/// counted from the start of month `mo`.
pub open spec fn month_day(mo: int, day: int, leap: bool) -> (int, int)
    decreases 12 - mo,
{
    if mo >= 12 || day <= month_len(mo, leap) {
        (mo, day)
    } else {
        month_day(mo + 1, day - month_len(mo, leap), leap)
    }
}

/// `YYYY-MM-DD HH:MM` in UTC for seconds since the epoch; the day count is
/// taken modulo 2^32 as the computation holds it in 32 bits.
pub open spec fn spec_chrono_like_now(secs: nat) -> Seq<char> {
    let days = (secs / 86400) % 0x1_0000_0000;
    let rem = secs % 86400;
    let h = rem / 3600;
    let m = (rem % 3600) / 60;
    let (y, d) = civil_year(1970, days as int);
    let (mo, day) = month_day(0, d + 1, is_leap(y));
    decimal_padded(y as nat, 4) + "-"@ + decimal_padded((mo + 1) as nat, 2) + "-"@
        + decimal_padded(day as nat, 2) + " "@ + decimal_padded(h as nat, 2) + ":"@
        + decimal_padded(m as nat, 2)
}

fn month_len_exec(mo: u32, leap: bool) -> (r: u32)
    ensures
        r == month_len(mo as int, leap),
{
    if mo == 1 {
        if leap { 29 } else { 28 }
    } else if mo == 3 || mo == 5 || mo == 8 || mo == 10 {
        30
    } else {
        31
    }
}

fn year_len_exec(y: u32) -> (r: u32)
    ensures
        r == year_len(y as int),
{
    if is_leap_exec(y) { 366 } else { 365 }
}

fn is_leap_exec(y: u32) -> (r: bool)
    ensures
        r == is_leap(y as int),
{
    (y % 4 == 0 && y % 100 != 0) || y % 400 == 0
}

/// A UTC `YYYY-MM-DD HH:MM` stamp for backup and marker names.
pub fn chrono_like_now(secs: u64) -> (r: String)
    ensures
        r@ == spec_chrono_like_now(secs as nat),
{
    let days = secs / 86400;
    let rem = secs % 86400;
    let h = rem / 3600;
    let m = (rem % 3600) / 60;
    let mut y: u32 = 1970;
    let d0: u32 = days as u32;
    assert(d0 == days % 0x1_0000_0000) by (bit_vector)
        requires
            d0 == days as u32;
    let mut d: u32 = d0;
    while d >= year_len_exec(y)
        invariant
            1970 <= y,
            d <= d0,
            365 * (y - 1970) <= d0 - d,
            civil_year(y as int, d as int) == civil_year(1970, d0 as int),
        decreases d,
    {
        d -= year_len_exec(y);
        y += 1;
    }
    let leap = is_leap_exec(y);
    let mut mo: u32 = 0;
    let mut day: u32 = d + 1;
    while mo < 12 && day > month_len_exec(mo, leap)
        invariant
            mo <= 12,
            1 <= day <= 366,
            month_day(mo as int, day as int, leap) == month_day(0, d + 1, leap),
        decreases 12 - mo,
    {
        day -= month_len_exec(mo, leap);
        mo += 1;
    }
    let mut out: Vec<char> = Vec::new();
    push_decimal_padded(&mut out, y as u64, 4);
    extend_str(&mut out, "-");
    push_decimal_padded(&mut out, (mo + 1) as u64, 2);
    extend_str(&mut out, "-");
    push_decimal_padded(&mut out, day as u64, 2);
    extend_str(&mut out, " ");
    push_decimal_padded(&mut out, h, 2);
    extend_str(&mut out, ":");
    push_decimal_padded(&mut out, m, 2);
    string_of(out)
}

// ---------------------------------------------------------------- shell start-up files

/// The variables that select an input method.
pub open spec fn spec_ime_keys() -> Seq<Seq<char>> {
    seq!["GTK_IM_MODULE"@, "QT_IM_MODULE"@, "XMODIFIERS"@, "SDL_IM_MODULE"@, "GLFW_IM_MODULE"@, "INPUT_METHOD"@]
}

pub fn ime_keys() -> (r: Vec<&'static str>)
    ensures
        r@.map_values(|s: &str| s@) == spec_ime_keys(),
{
    let r = vec!["GTK_IM_MODULE", "QT_IM_MODULE", "XMODIFIERS", "SDL_IM_MODULE", "GLFW_IM_MODULE", "INPUT_METHOD"];
    assert(r@.map_values(|s: &str| s@) =~= spec_ime_keys());
    r
}

/// The value that an assignment list gives `key`.
pub open spec fn lookup(ps: Seq<(Seq<char>, Seq<char>)>, key: Seq<char>) -> Option<Seq<char>>
    decreases ps.len(),
{
    if ps.len() == 0 {
        None
    } else if ps[0].0 == key {
        Some(ps[0].1)
    } else {
        lookup(ps.drop_first(), key)
    }
}

/// The key and value of an `export KEY=VAL` or `KEY=VAL` line (not a comment),
/// the value trimmed and stripped of surrounding quotes.
pub open spec fn assignment_of(raw: Seq<char>) -> Option<(Seq<char>, Seq<char>)> {
    let line = trim_start(raw);
    if starts_with(line, "#"@) {
        None
    } else {
        let body = if starts_with(line, "export "@) { line.skip(7) } else { line };
        match find_char(body, '=') {
            None => None,
            Some(eq) => Some((
                body.take(eq),
                trim_matches_char(trim_matches_char(trim(body.skip(eq + 1)), '"'), '\''),
            )),
        }
    }
}

/// Whether a start-up file line sets an input-method variable to another
/// value than the active input method expects.
pub open spec fn conflicting_line(raw: Seq<char>, active: ImeKind) -> bool {
    match assignment_of(raw) {
        None => false,
        Some((key, val)) => {
            spec_ime_keys().contains(key) && match lookup(spec_env_lines(active), key) {
                Some(e) => e != val,
                None => false,
            }
        },
    }
}

pub open spec fn conflict_lines(ls: Seq<Seq<char>>, active: ImeKind) -> Seq<Seq<char>>
    decreases ls.len(),
{
    if ls.len() == 0 {
        seq![]
    } else if conflicting_line(ls.last(), active) {
        conflict_lines(ls.drop_last(), active).push(ls.last())
    } else {
        conflict_lines(ls.drop_last(), active)
    }
}

fn assignment_of_exec(raw: &[char]) -> (r: Option<(Vec<char>, Vec<char>)>)
    ensures
        (match r { Some((k, v)) => Some((k@, v@)), None => None }) == assignment_of(raw@),
{
    proof { reveal_strlit("#"); reveal_strlit("export "); }
    let line = trim_start_exec(raw);
    if crate::text::starts_with_str(line.as_slice(), "#") {
        return None;
    }
    let body = match strip_prefix_str(line.as_slice(), "export ") {
        Some(b) => b,
        None => line,
    };
    match crate::text::find_char_exec(body.as_slice(), '=') {
        None => None,
        Some(eq) => {
            proof { crate::text::lemma_find_char(body@, '='); }
            let key = subseq(body.as_slice(), 0, eq);
            let rest = subseq(body.as_slice(), eq + 1, body.len());
            let t = trim_exec(rest.as_slice());
            let a = trim_matches_exec(t.as_slice(), '"');
            let v = trim_matches_exec(a.as_slice(), '\'');
            assert(key@ =~= body@.take(eq as int));
            assert(rest@ =~= body@.skip(eq + 1));
            Some((key, v))
        },
    }
}

fn lookup_exec(ps: &Vec<(&'static str, &'static str)>, key: &[char]) -> (r: Option<&'static str>)
    ensures
        (match r { Some(v) => Some(v@), None => None })
            == lookup(ps@.map_values(|p: (&str, &str)| (p.0@, p.1@)), key@),
{
    let ghost pv = ps@.map_values(|p: (&str, &str)| (p.0@, p.1@));
    let mut i: usize = 0;
    assert(pv.skip(0) =~= pv);
    while i < ps.len()
        invariant
            i <= ps.len(),
            pv == ps@.map_values(|p: (&str, &str)| (p.0@, p.1@)),
            lookup(pv.skip(i as int), key@) == lookup(pv, key@),
        decreases ps.len() - i,
    {
        assert(pv.skip(i as int).drop_first() =~= pv.skip(i + 1));
        let (k, v) = ps[i];
        if eq_str(key, k) {
            return Some(v);
        }
        i += 1;
    }
    None
}

fn is_ime_key(key: &[char]) -> (r: bool)
    ensures
        r == spec_ime_keys().contains(key@),
{
    let keys = ime_keys();
    let ghost kv = keys@.map_values(|s: &str| s@);
    let mut i: usize = 0;
    while i < keys.len()
        invariant
            i <= keys.len(),
            kv == keys@.map_values(|s: &str| s@),
            kv == spec_ime_keys(),
            forall|j: int| 0 <= j < i ==> kv[j] != key@,
        decreases keys.len() - i,
    {
        if eq_str(key, keys[i]) {
            assert(kv[i as int] == key@);
            return true;
        }
        i += 1;
    }
    false
}

pub open spec fn spec_shell_init_conflicts(content: Seq<char>, active: ImeKind) -> Seq<Seq<char>> {
    conflict_lines(lines(content), active)
}

/// The lines of a shell start-up file that set an input-method variable
/// against the active input method, as written in the file.
pub fn shell_init_conflict_lines(content: &str, active: &ImeKind) -> (r: Vec<String>)
    ensures
        r@.map_values(|s: String| s@) == spec_shell_init_conflicts(content@, *active),
{
    let env = active.env_lines();
    let ls = lines_of(content);
    let ghost lv = ls.deep_view();
    let mut out: Vec<String> = Vec::new();
    let mut i: usize = 0;
    assert(lv.take(0) =~= Seq::<Seq<char>>::empty());
    assert(out@.map_values(|s: String| s@) =~= conflict_lines(lv.take(0), *active));
    while i < ls.len()
        invariant
            i <= ls.len(),
            lv == ls.deep_view(),
            lv == lines(content@),
            env@.map_values(|p: (&str, &str)| (p.0@, p.1@)) == spec_env_lines(*active),
            out@.map_values(|s: String| s@) == conflict_lines(lv.take(i as int), *active),
        decreases ls.len() - i,
    {
        proof { lemma_deep_view_chars(&ls[i as int]); }
        assert(lv.take(i + 1).drop_last() =~= lv.take(i as int));
        assert(lv.take(i + 1).last() == ls@[i as int]@);
        let mut bad = false;
        match assignment_of_exec(ls[i].as_slice()) {
            None => {},
            Some((key, val)) => {
                if is_ime_key(key.as_slice()) {
                    match lookup_exec(&env, key.as_slice()) {
                        Some(e) => {
                            if !eq_str(val.as_slice(), e) {
                                bad = true;
                            }
                        },
                        None => {},
                    }
                }
            },
        }
        assert(bad == conflicting_line(lv[i as int], *active));
        if bad {
            let ghost before = out@;
            out.push(to_string(ls[i].as_slice()));
            assert(out@.map_values(|s: String| s@) =~= before.map_values(|s: String| s@).push(lv[i as int]));
        }
        i += 1;
    }
    assert(lv.take(ls.len() as int) =~= lv);
    out
}

pub open spec fn disable_lines(ls: Seq<Seq<char>>, bad: Seq<Seq<char>>, marker: Seq<char>) -> Seq<char>
    decreases ls.len(),
{
    if ls.len() == 0 {
        seq![]
    } else if bad.contains(ls.last()) {
        disable_lines(ls.drop_last(), bad, marker) + marker + "\n# "@ + ls.last() + "\n"@
    } else {
        disable_lines(ls.drop_last(), bad, marker) + ls.last() + "\n"@
    }
}

/// The file with each conflicting line commented out under the marker line.
pub fn disable_conflict_lines(original: &str, bad: &Vec<String>, marker: &str) -> (r: String)
    ensures
        r@ == disable_lines(lines(original@), bad@.map_values(|s: String| s@), marker@),
{
    let ghost bv = bad@.map_values(|s: String| s@);
    let badc = crate::text::strings_chars(bad);
    let ls = lines_of(original);
    let ghost lv = ls.deep_view();
    let mut out: Vec<char> = Vec::new();
    let mut i: usize = 0;
    assert(lv.take(0) =~= Seq::<Seq<char>>::empty());
    while i < ls.len()
        invariant
            i <= ls.len(),
            lv == ls.deep_view(),
            lv == lines(original@),
            badc.deep_view() == bv,
            bv == bad@.map_values(|s: String| s@),
            out@ == disable_lines(lv.take(i as int), bv, marker@),
        decreases ls.len() - i,
    {
        proof { lemma_deep_view_chars(&ls[i as int]); }
        assert(lv.take(i + 1).drop_last() =~= lv.take(i as int));
        assert(lv.take(i + 1).last() == ls@[i as int]@);
        let line = &ls[i];
        if contains_line(&badc, line.as_slice()) {
            extend_str(&mut out, marker);
            extend_str(&mut out, "\n# ");
            extend(&mut out, line.as_slice());
            extend_str(&mut out, "\n");
        } else {
            extend(&mut out, line.as_slice());
            extend_str(&mut out, "\n");
        }
        i += 1;
    }
    assert(lv.take(ls.len() as int) =~= lv);
    string_of(out)
}

fn contains_line(set: &Vec<Vec<char>>, line: &[char]) -> (r: bool)
    ensures
        r == set.deep_view().contains(line@),
{
    let ghost sv = set.deep_view();
    let mut i: usize = 0;
    while i < set.len()
        invariant
            i <= set.len(),
            sv == set.deep_view(),
            forall|j: int| 0 <= j < i ==> sv[j] != line@,
        decreases set.len() - i,
    {
        proof { lemma_deep_view_chars(&set[i as int]); }
        if eq(set[i].as_slice(), line) {
            assert(sv[i as int] == line@);
            return true;
        }
        i += 1;
    }
    false
}

pub open spec fn spec_conflict_marker(secs: nat, active: ImeKind) -> Seq<char> {
    "# popmgr-disabled ("@ + spec_chrono_like_now(secs) + "): conflict with active IME = "@ + spec_label(active)
}

/// The comment placed above each disabled line.
pub fn conflict_marker(secs: u64, active: &ImeKind) -> (r: String)
    ensures
        r@ == spec_conflict_marker(secs as nat, *active),
{
    let mut out = chars_of("# popmgr-disabled (");
    let t = chrono_like_now(secs);
    extend(&mut out, chars_of_string(&t).as_slice());
    extend_str(&mut out, "): conflict with active IME = ");
    extend_str(&mut out, active.label());
    string_of(out)
}

// ---------------------------------------------------------------- /etc/environment

pub open spec fn gtk_value(line: Seq<char>) -> Seq<char> {
    let rest = line.skip(14);
    let seg = match find_char(rest, '=') {
        Some(j) => rest.take(j),
        None => rest,
    };
    trim_matches_char(seg, '"')
}

pub open spec fn kind_of_value(v: Seq<char>) -> Option<ImeKind> {
    if v == "ibus"@ {
        Some(ImeKind::Ibus)
    } else if v == "fcitx"@ {
        Some(ImeKind::Fcitx5)
    } else if v == "kime"@ {
        Some(ImeKind::Kime)
    } else {
        None
    }
}

/// The first `GTK_IM_MODULE=` line decides the active input method.
pub open spec fn active_ime_of(ls: Seq<Seq<char>>) -> Option<ImeKind>
    decreases ls.len(),
{
    if ls.len() == 0 {
        None
    } else if starts_with(ls[0], "GTK_IM_MODULE="@) {
        kind_of_value(gtk_value(ls[0]))
    } else {
        active_ime_of(ls.drop_first())
    }
}

/// The input method that `/etc/environment` selects through GTK_IM_MODULE.
pub fn parse_active_ime(env: &str) -> (r: Option<ImeKind>)
    ensures
        r == active_ime_of(lines(env@)),
{
    proof { reveal_strlit("GTK_IM_MODULE="); }
    let ls = lines_of(env);
    let ghost lv = ls.deep_view();
    let mut i: usize = 0;
    assert(lv.skip(0) =~= lv);
    while i < ls.len()
        invariant
            i <= ls.len(),
            lv == ls.deep_view(),
            lv == lines(env@),
            active_ime_of(lv.skip(i as int)) == active_ime_of(lv),
        decreases ls.len() - i,
    {
        proof { lemma_deep_view_chars(&ls[i as int]); }
        assert(lv.skip(i as int).drop_first() =~= lv.skip(i + 1));
        assert(lv.skip(i as int)[0] == ls@[i as int]@);
        match strip_prefix_str(ls[i].as_slice(), "GTK_IM_MODULE=") {
            Some(rest) => {
                proof { reveal_strlit("GTK_IM_MODULE="); }
                assert(rest@ == ls@[i as int]@.skip(14));
                let seg = match crate::text::find_char_exec(rest.as_slice(), '=') {
                    Some(j) => {
                        proof { crate::text::lemma_find_char(rest@, '='); }
                        subseq(rest.as_slice(), 0, j)
                    },
                    None => rest,
                };
                assert(seg@ =~= (match find_char(rest@, '=') { Some(j) => rest@.take(j), None => rest@ }));
                let v = trim_matches_exec(seg.as_slice(), '"');
                assert(v@ == gtk_value(ls@[i as int]@));
                if eq_str(v.as_slice(), "ibus") {
                    return Some(ImeKind::Ibus);
                } else if eq_str(v.as_slice(), "fcitx") {
                    return Some(ImeKind::Fcitx5);
                } else if eq_str(v.as_slice(), "kime") {
                    return Some(ImeKind::Kime);
                } else {
                    return None;
                }
            },
            None => {},
        }
        i += 1;
    }
    None
}

/// Whether some line of the environment file, trimmed, assigns `k=v` or `k="v"`.
pub open spec fn env_has(ls: Seq<Seq<char>>, k: Seq<char>, v: Seq<char>) -> bool {
    exists|j: int| 0 <= j < ls.len() && (trim(#[trigger] ls[j]) == k + "="@ + v || trim(ls[j]) == k + "=\""@ + v + "\""@)
}

pub open spec fn spec_env_matches(env: Seq<char>, kind: ImeKind) -> bool {
    forall|i: int| 0 <= i < spec_env_lines(kind).len()
        ==> env_has(lines(env), #[trigger] spec_env_lines(kind)[i].0, spec_env_lines(kind)[i].1)
}

fn env_has_exec(ls: &Vec<Vec<char>>, k: &str, v: &str) -> (r: bool)
    ensures
        r == env_has(ls.deep_view(), k@, v@),
{
    let mut plain = chars_of(k);
    extend_str(&mut plain, "=");
    extend_str(&mut plain, v);
    let mut quoted = chars_of(k);
    extend_str(&mut quoted, "=\"");
    extend_str(&mut quoted, v);
    extend_str(&mut quoted, "\"");
    let ghost lv = ls.deep_view();
    let mut i: usize = 0;
    while i < ls.len()
        invariant
            i <= ls.len(),
            lv == ls.deep_view(),
            plain@ == k@ + "="@ + v@,
            quoted@ == k@ + "=\""@ + v@ + "\""@,
            forall|j: int| 0 <= j < i ==> !(trim(#[trigger] lv[j]) == plain@ || trim(lv[j]) == quoted@),
        decreases ls.len() - i,
    {
        proof { lemma_deep_view_chars(&ls[i as int]); }
        let t = trim_exec(ls[i].as_slice());
        if eq(t.as_slice(), plain.as_slice()) || eq(t.as_slice(), quoted.as_slice()) {
            assert(trim(lv[i as int]) == plain@ || trim(lv[i as int]) == quoted@);
            return true;
        }
        i += 1;
    }
    false
}

/// Whether `/etc/environment` holds every assignment of the input method.
pub fn env_matches(env: &str, kind: &ImeKind) -> (r: bool)
    ensures
        r == spec_env_matches(env@, *kind),
{
    let ls = lines_of(env);
    let pairs = kind.env_lines();
    let ghost pv = pairs@.map_values(|p: (&str, &str)| (p.0@, p.1@));
    let mut i: usize = 0;
    while i < pairs.len()
        invariant
            i <= pairs.len(),
            pv == pairs@.map_values(|p: (&str, &str)| (p.0@, p.1@)),
            pv == spec_env_lines(*kind),
            ls.deep_view() == lines(env@),
            forall|j: int| 0 <= j < i ==> env_has(lines(env@), #[trigger] pv[j].0, pv[j].1),
        decreases pairs.len() - i,
    {
        let (k, v) = pairs[i];
        if !env_has_exec(&ls, k, v) {
            assert(!env_has(lines(env@), pv[i as int].0, pv[i as int].1));
            return false;
        }
        i += 1;
    }
    true
}

/// The input-method variables, space-separated.
pub open spec fn spec_env_keys(kind: ImeKind) -> Seq<char> {
    join(spec_env_lines(kind).map_values(|p: (Seq<char>, Seq<char>)| p.0), " "@)
}

/// `^KEY=` alternatives for awk.
pub open spec fn spec_env_pattern(kind: ImeKind) -> Seq<char> {
    join(spec_env_lines(kind).map_values(|p: (Seq<char>, Seq<char>)| "^"@ + p.0 + "="@), "|"@)
}

/// The `KEY=VALUE` lines, newline-separated.
pub open spec fn spec_env_assignments(kind: ImeKind) -> Seq<char> {
    join(spec_env_lines(kind).map_values(|p: (Seq<char>, Seq<char>)| p.0 + "="@ + p.1), "\n"@)
}

/// The three renderings of an input method's assignments.
fn env_parts(kind: &ImeKind) -> (r: (Vec<Vec<char>>, Vec<Vec<char>>, Vec<Vec<char>>))
    ensures
        r.0.deep_view() == spec_env_lines(*kind).map_values(|p: (Seq<char>, Seq<char>)| p.0),
        r.1.deep_view() == spec_env_lines(*kind).map_values(|p: (Seq<char>, Seq<char>)| "^"@ + p.0 + "="@),
        r.2.deep_view() == spec_env_lines(*kind).map_values(|p: (Seq<char>, Seq<char>)| p.0 + "="@ + p.1),
{
    let pairs = kind.env_lines();
    let ghost pv = pairs@.map_values(|p: (&str, &str)| (p.0@, p.1@));
    let mut keys: Vec<Vec<char>> = Vec::new();
    let mut pats: Vec<Vec<char>> = Vec::new();
    let mut asg: Vec<Vec<char>> = Vec::new();
    let mut i: usize = 0;
    while i < pairs.len()
        invariant
            i <= pairs.len(),
            pv == pairs@.map_values(|p: (&str, &str)| (p.0@, p.1@)),
            pv == spec_env_lines(*kind),
            keys.deep_view() == pv.take(i as int).map_values(|p: (Seq<char>, Seq<char>)| p.0),
            pats.deep_view() == pv.take(i as int).map_values(|p: (Seq<char>, Seq<char>)| "^"@ + p.0 + "="@),
            asg.deep_view() == pv.take(i as int).map_values(|p: (Seq<char>, Seq<char>)| p.0 + "="@ + p.1),
        decreases pairs.len() - i,
    {
        let (k, v) = pairs[i];
        let ghost (k0, p0, a0) = (keys.deep_view(), pats.deep_view(), asg.deep_view());
        push_piece(&mut keys, chars_of(k));
        let mut p = chars_of("^");
        extend_str(&mut p, k);
        extend_str(&mut p, "=");
        push_piece(&mut pats, p);
        let mut a = chars_of(k);
        extend_str(&mut a, "=");
        extend_str(&mut a, v);
        push_piece(&mut asg, a);
        assert(pv.take(i + 1) =~= pv.take(i as int).push(pv[i as int]));
        assert(keys.deep_view() =~= pv.take(i + 1).map_values(|p: (Seq<char>, Seq<char>)| p.0));
        assert(pats.deep_view() =~= pv.take(i + 1).map_values(|p: (Seq<char>, Seq<char>)| "^"@ + p.0 + "="@));
        assert(asg.deep_view() =~= pv.take(i + 1).map_values(|p: (Seq<char>, Seq<char>)| p.0 + "="@ + p.1));
        i += 1;
    }
    assert(pv.take(pairs.len() as int) =~= pv);
    (keys, pats, asg)
}

pub open spec fn spec_env_apply_script(kind: ImeKind) -> Seq<char> {
    "pkexec bash -c \"awk '!/^("@ + spec_env_pattern(kind) + ")/' /etc/environment > /tmp/env.tmp && echo "@
        + spec_shell_quote(spec_env_assignments(kind))
        + " >> /tmp/env.tmp && cp /tmp/env.tmp /etc/environment\""@
}

/// Rewrites `/etc/environment`: drops the input-method variables and appends
/// the chosen input method's assignments.
pub fn env_apply_script(kind: &ImeKind) -> (r: String)
    ensures
        r@ == spec_env_apply_script(*kind),
{
    let (_keys, pats, asg) = env_parts(kind);
    let pattern = join_str(&pats, "|");
    let lines_v = join_str(&asg, "\n");
    let quoted = shell_quote(to_string(lines_v.as_slice()).as_str());
    let mut out = chars_of("pkexec bash -c \"awk '!/^(");
    extend(&mut out, pattern.as_slice());
    extend_str(&mut out, ")/' /etc/environment > /tmp/env.tmp && echo ");
    extend(&mut out, chars_of_string(&quoted).as_slice());
    extend_str(&mut out, " >> /tmp/env.tmp && cp /tmp/env.tmp /etc/environment\"");
    string_of(out)
}

pub open spec fn spec_session_import_script(kind: ImeKind) -> Seq<char> {
    "dbus-update-activation-environment --systemd --all 2>/dev/null; systemctl --user import-environment "@
        + spec_env_keys(kind) + " 2>/dev/null"@
}

/// Hands the new variables to D-Bus activation and the user systemd manager.
pub fn session_import_script(kind: &ImeKind) -> (r: String)
    ensures
        r@ == spec_session_import_script(*kind),
{
    let (keys, _pats, _asg) = env_parts(kind);
    let mut out = chars_of("dbus-update-activation-environment --systemd --all 2>/dev/null; systemctl --user import-environment ");
    let k = join_str(&keys, " ");
    extend(&mut out, k.as_slice());
    extend_str(&mut out, " 2>/dev/null");
    string_of(out)
}

pub open spec fn spec_auto_reconnect_script(kind: ImeKind) -> Seq<char> {
    crate::ui::ime::spec_daemon_restart_cmd(kind) + "; dbus-update-activation-environment --systemd "@
        + spec_env_keys(kind) + " 2>/dev/null"@
}

/// Restarts the daemon and refreshes the activation environment.
pub fn auto_reconnect_script(kind: &ImeKind) -> (r: String)
    ensures
        r@ == spec_auto_reconnect_script(*kind),
{
    let (keys, _pats, _asg) = env_parts(kind);
    let mut out = chars_of(crate::ui::ime::daemon_restart_cmd(kind));
    extend_str(&mut out, "; dbus-update-activation-environment --systemd ");
    let k = join_str(&keys, " ");
    extend(&mut out, k.as_slice());
    extend_str(&mut out, " 2>/dev/null");
    string_of(out)
}

pub open spec fn spec_ime_snapshot(procs: Seq<char>, state: Seq<char>, unit: Seq<char>, debug: Seq<char>) -> Seq<char> {
    "  프로세스: "@ + procs + "\n  상태(2=한글): "@ + state + " · 유닛: "@ + unit + "\n  입력 컨텍스트:\n"@ + debug
}

/// The input-method state recorded before and after a repair: the fcitx5
/// processes, its state, its unit and the input contexts.
pub fn ime_snapshot(procs: &str, state: &str, unit: &str, debug: &str) -> (r: String)
    ensures
        r@ == spec_ime_snapshot(procs@, state@, unit@, debug@),
{
    let mut out = chars_of("  프로세스: ");
    extend_str(&mut out, procs);
    extend_str(&mut out, "\n  상태(2=한글): ");
    extend_str(&mut out, state);
    extend_str(&mut out, " · 유닛: ");
    extend_str(&mut out, unit);
    extend_str(&mut out, "\n  입력 컨텍스트:\n");
    extend_str(&mut out, debug);
    string_of(out)
}

pub open spec fn spec_snap_im_leak(module_file: Option<Seq<char>>) -> Option<Seq<char>> {
    match module_file {
        Some(v) => if crate::text::contains(v, "/snap/"@) || crate::text::contains(v, "/.snap/"@) {
            Some(v)
        } else {
            None
        },
        None => None,
    }
}

/// A GTK_IM_MODULE_FILE inherited from a snap: a module cache under `/snap/`
/// or `~/snap/` hides the system's GTK modules and breaks Korean input.
/// Gives the path when it is one.
pub fn snap_im_leak(module_file: Option<&str>) -> (r: Option<String>)
    ensures
        crate::text::opt_view(r) == spec_snap_im_leak(match module_file { Some(v) => Some(v@), None => None }),
{
    match module_file {
        None => None,
        Some(v) => {
            let c = chars_of(v);
            if crate::text::contains_str(c.as_slice(), "/snap/") || crate::text::contains_str(c.as_slice(), "/.snap/") {
                Some(string_of(c))
            } else {
                None
            }
        },
    }
}

} // verus!
