//! Why a rewritten fcitx5 configuration reads back as the fixed input-state
//! policy: the text written from the sections gives back their lines, reading
//! them goes section by section, and the rewrite leaves every section in a
//! shape whose reading yields `ShareInputState=All`, `ActiveByDefault=True`
//! and no left-Shift English toggle.

use vstd::prelude::*;
use crate::text::{
    is_ws, trim, trim_start, trim_end, strip_cr, lines, split_once, find_char,
    lemma_find_char_none,
};
use crate::runner::{no_newline, lemma_lines_append, lemma_lines_of_line};
use crate::ui::ime::{
    BehaviorScan, behavior_step, behavior_scan, SectionView, render_lines, render_section,
    render, is_header_line, header_name,
};

verus! {

// ------------------------------------------------------------ trimming

/// Where the white space at the start of `s` ends.
proof fn lemma_trim_start_shape(s: Seq<char>) -> (i: int)
    ensures
        0 <= i <= s.len(),
        trim_start(s) == s.skip(i),
        forall|j: int| 0 <= j < i ==> is_ws(#[trigger] s[j]),
        i < s.len() ==> !is_ws(s[i]),
    decreases s.len(),
{
    if s.len() > 0 && is_ws(s[0]) {
        let k = lemma_trim_start_shape(s.drop_first());
        assert(s.drop_first().skip(k) =~= s.skip(k + 1));
        assert forall|j: int| 0 <= j < k + 1 implies is_ws(#[trigger] s[j]) by {
            if j > 0 {
                assert(s[j] == s.drop_first()[j - 1]);
            }
        }
        k + 1
    } else {
        assert(s.skip(0) =~= s);
        0
    }
}

/// Where the white space at the end of `s` begins.
proof fn lemma_trim_end_shape(s: Seq<char>) -> (j: int)
    ensures
        0 <= j <= s.len(),
        trim_end(s) == s.take(j),
        forall|k: int| j <= k < s.len() ==> is_ws(#[trigger] s[k]),
        j > 0 ==> !is_ws(s[j - 1]),
    decreases s.len(),
{
    if s.len() > 0 && is_ws(s.last()) {
        let m = lemma_trim_end_shape(s.drop_last());
        assert(s.drop_last().take(m) =~= s.take(m));
        assert forall|k: int| m <= k < s.len() implies is_ws(#[trigger] s[k]) by {
            if k < s.len() - 1 {
                assert(s[k] == s.drop_last()[k]);
            }
        }
        m
    } else {
        assert(s.take(s.len() as int) =~= s);
        s.len() as int
    }
}

/// Text that neither starts nor ends with white space is its own trim.
proof fn lemma_trim_fixed(s: Seq<char>)
    requires
        s.len() > 0,
        !is_ws(s[0]),
        !is_ws(s.last()),
    ensures
        trim(s) == s,
{
    let i = lemma_trim_start_shape(s);
    assert(i == 0);
    assert(s.skip(0) =~= s);
    let j = lemma_trim_end_shape(s);
    assert(j == s.len());
    assert(s.take(j) =~= s);
}

/// Trimmed text that is not empty starts and ends with other than white space,
/// and is a piece of the text.
proof fn lemma_trim_ends(s: Seq<char>) -> (ij: (int, int))
    ensures
        0 <= ij.0 <= ij.1 <= s.len(),
        trim(s) == s.subrange(ij.0, ij.1),
        trim(s).len() > 0 ==> !is_ws(trim(s)[0]) && !is_ws(trim(s).last()),
{
    let i = lemma_trim_start_shape(s);
    let t = trim_start(s);
    let j = lemma_trim_end_shape(t);
    assert(t.take(j) =~= s.subrange(i, i + j));
    if j > 0 {
        assert(t.take(j)[0] == s[i]);
    }
    (i, i + j)
}

/// A trailing `\r` is white space, so dropping it does not change the trim.
proof fn lemma_trim_strip_cr(l: Seq<char>)
    ensures
        trim(strip_cr(l)) == trim(l),
{
    if l.len() > 0 && l.last() == '\r' {
        let d = l.drop_last();
        assert(is_ws('\r'));
        let i = lemma_trim_start_shape(l);
        let i2 = lemma_trim_start_shape(d);
        if i2 == d.len() {
            // all white space
            assert forall|j: int| 0 <= j < l.len() implies is_ws(#[trigger] l[j]) by {
                if j < d.len() {
                    assert(l[j] == d[j]);
                }
            }
            assert(i == l.len()) by {
                if i < l.len() {
                    assert(!is_ws(l[i]));
                }
            }
            assert(trim_start(l) =~= Seq::<char>::empty());
            assert(trim_start(d) =~= Seq::<char>::empty());
        } else {
            assert(i == i2) by {
                if i < i2 {
                    assert(l[i] == d[i]);
                }
                if i2 < i {
                    assert(l[i2] == d[i2]);
                }
            }
            let t = trim_start(l);
            assert(t =~= trim_start(d).push('\r'));
            assert(t.drop_last() =~= trim_start(d));
        }
    }
}

// ------------------------------------------------------------ written text

/// The lines a section is written as: its header, if any, then its lines.
pub open spec fn section_lines(s: SectionView) -> Seq<Seq<char>> {
    (match s.header {
        Some(h) => seq!["["@ + h + "]"@],
        None => seq![],
    }) + s.lines
}

/// The lines of all the sections, in order.
pub open spec fn all_lines(secs: Seq<SectionView>) -> Seq<Seq<char>>
    decreases secs.len(),
{
    if secs.len() == 0 {
        seq![]
    } else {
        all_lines(secs.drop_last()) + section_lines(secs.last())
    }
}

pub open spec fn strip_all(ls: Seq<Seq<char>>) -> Seq<Seq<char>> {
    ls.map_values(|l: Seq<char>| strip_cr(l))
}

/// A written line ends in a line break.
proof fn lemma_render_lines_step(ls: Seq<Seq<char>>)
    requires
        ls.len() > 0,
    ensures
        render_lines(ls) == render_lines(ls.drop_last()) + (ls.last() + seq!['\n']),
        render_lines(ls).last() == '\n',
        render_lines(ls).drop_last() == render_lines(ls.drop_last()) + ls.last(),
{
    reveal_strlit("\n");
    assert(render_lines(ls) =~= render_lines(ls.drop_last()) + (ls.last() + seq!['\n']));
    assert(render_lines(ls).drop_last() =~= render_lines(ls.drop_last()) + ls.last());
}

proof fn lemma_render_lines_append(a: Seq<Seq<char>>, b: Seq<Seq<char>>)
    ensures
        render_lines(a + b) == render_lines(a) + render_lines(b),
    decreases b.len(),
{
    if b.len() == 0 {
        assert(a + b =~= a);
        assert(render_lines(a) + render_lines(b) =~= render_lines(a));
    } else {
        assert((a + b).drop_last() =~= a + b.drop_last());
        assert((a + b).last() == b.last());
        lemma_render_lines_append(a, b.drop_last());
        assert(render_lines(a + b) =~= render_lines(a) + render_lines(b));
    }
}

proof fn lemma_render_section(s: SectionView)
    ensures
        render_section(s) == render_lines(section_lines(s)),
{
    let head: Seq<Seq<char>> = match s.header {
        Some(h) => seq!["["@ + h + "]"@],
        None => seq![],
    };
    lemma_render_lines_append(head, s.lines);
    match s.header {
        Some(h) => {
            assert(head.drop_last() =~= Seq::<Seq<char>>::empty());
            lemma_render_lines_step(head);
            reveal_strlit("]\n");
            reveal_strlit("]");
            assert(render_lines(head) =~= "["@ + h + "]\n"@);
        },
        None => {
            assert(render_lines(head) =~= Seq::<char>::empty());
        },
    }
    assert(render_section(s) =~= render_lines(section_lines(s)));
}

proof fn lemma_render_all(secs: Seq<SectionView>)
    ensures
        render(secs) == render_lines(all_lines(secs)),
    decreases secs.len(),
{
    if secs.len() > 0 {
        lemma_render_all(secs.drop_last());
        lemma_render_section(secs.last());
        lemma_render_lines_append(all_lines(secs.drop_last()), section_lines(secs.last()));
    }
}

/// Written lines read back as themselves, less a `\r` before each break.
proof fn lemma_lines_render(ls: Seq<Seq<char>>)
    requires
        forall|k: int| 0 <= k < ls.len() ==> no_newline(#[trigger] ls[k]),
    ensures
        lines(render_lines(ls)) == strip_all(ls),
    decreases ls.len(),
{
    if ls.len() == 0 {
        assert(lines(render_lines(ls)) =~= strip_all(ls));
    } else {
        let init = ls.drop_last();
        assert forall|k: int| 0 <= k < init.len() implies no_newline(#[trigger] init[k]) by {
            assert(init[k] == ls[k]);
        }
        lemma_lines_render(init);
        let a = render_lines(init);
        if init.len() > 0 {
            lemma_render_lines_step(init);
        }
        lemma_render_lines_step(ls);
        lemma_lines_append(a, ls.last() + seq!['\n']);
        assert(no_newline(ls[ls.len() - 1]));
        lemma_lines_of_line(ls.last());
        assert(lines(render_lines(ls)) =~= strip_all(ls));
    }
}

/// Written lines, less the final line break, read back the same way, but for
/// the last line: kept whole, and gone when it was empty.
proof fn lemma_lines_render_cut(ls: Seq<Seq<char>>)
    requires
        ls.len() > 0,
        forall|k: int| 0 <= k < ls.len() ==> no_newline(#[trigger] ls[k]),
    ensures
        lines(render_lines(ls).drop_last()) == strip_all(ls.drop_last())
            + (if ls.last().len() == 0 { Seq::<Seq<char>>::empty() } else { seq![ls.last()] }),
{
    let init = ls.drop_last();
    assert forall|k: int| 0 <= k < init.len() implies no_newline(#[trigger] init[k]) by {
        assert(init[k] == ls[k]);
    }
    lemma_lines_render(init);
    let a = render_lines(init);
    let l = ls.last();
    if init.len() > 0 {
        lemma_render_lines_step(init);
    }
    lemma_render_lines_step(ls);
    lemma_lines_append(a, l);
    assert(no_newline(ls[ls.len() - 1]));
    if l.len() == 0 {
        assert(lines(l) =~= Seq::<Seq<char>>::empty());
    } else {
        lemma_find_char_none(l, '\n');
        assert(lines(l) == seq![l]);
    }
}

// ------------------------------------------------------------ reading

/// Reading more lines after a state.
pub open spec fn scan_from(st: BehaviorScan, ls: Seq<Seq<char>>) -> BehaviorScan
    decreases ls.len(),
{
    if ls.len() == 0 {
        st
    } else {
        behavior_step(scan_from(st, ls.drop_last()), ls.last())
    }
}

pub open spec fn initial_scan() -> BehaviorScan {
    behavior_scan(seq![])
}

proof fn lemma_scan_append(st: BehaviorScan, a: Seq<Seq<char>>, b: Seq<Seq<char>>)
    ensures
        scan_from(st, a + b) == scan_from(scan_from(st, a), b),
    decreases b.len(),
{
    if b.len() == 0 {
        assert(a + b =~= a);
    } else {
        assert((a + b).drop_last() =~= a + b.drop_last());
        assert((a + b).last() == b.last());
        lemma_scan_append(st, a, b.drop_last());
    }
}

proof fn lemma_behavior_scan_is_scan(ls: Seq<Seq<char>>)
    ensures
        behavior_scan(ls) == scan_from(initial_scan(), ls),
    decreases ls.len(),
{
    if ls.len() > 0 {
        lemma_behavior_scan_is_scan(ls.drop_last());
    }
}

/// Reading ignores a `\r` that ends a line.
proof fn lemma_scan_strip(st: BehaviorScan, ls: Seq<Seq<char>>)
    ensures
        scan_from(st, strip_all(ls)) == scan_from(st, ls),
    decreases ls.len(),
{
    if ls.len() > 0 {
        assert(strip_all(ls).drop_last() =~= strip_all(ls.drop_last()));
        lemma_scan_strip(st, ls.drop_last());
        lemma_trim_strip_cr(ls.last());
    }
}

/// What the rewritten text reads as is what its sections read as.
proof fn lemma_read_written(secs: Seq<SectionView>, cut: bool)
    requires
        forall|k: int| 0 <= k < all_lines(secs).len() ==> no_newline(#[trigger] all_lines(secs)[k]),
        cut ==> render(secs).len() > 0,
    ensures
        behavior_scan(lines(if cut { render(secs).drop_last() } else { render(secs) }))
            == scan_from(initial_scan(), all_lines(secs)),
{
    let ls = all_lines(secs);
    lemma_render_all(secs);
    if cut {
        assert(ls.len() > 0) by {
            if ls.len() == 0 {
                assert(render_lines(ls) =~= Seq::<char>::empty());
            }
        }
        lemma_lines_render_cut(ls);
        let tail: Seq<Seq<char>> = if ls.last().len() == 0 { Seq::<Seq<char>>::empty() } else { seq![ls.last()] };
        let got = strip_all(ls.drop_last()) + tail;
        lemma_behavior_scan_is_scan(got);
        lemma_scan_append(initial_scan(), strip_all(ls.drop_last()), tail);
        lemma_scan_strip(initial_scan(), ls.drop_last());
        let mid = scan_from(initial_scan(), ls.drop_last());
        if ls.last().len() == 0 {
            assert(tail =~= Seq::<Seq<char>>::empty());
            assert(trim(ls.last()) =~= Seq::<char>::empty()) by {
                assert(trim_start(ls.last()) == ls.last());
                assert(trim_end(ls.last()) == ls.last());
            }
            assert(behavior_step(mid, ls.last()) == mid);
            assert(got =~= strip_all(ls.drop_last()));
        } else {
            assert(tail.drop_last() =~= Seq::<Seq<char>>::empty());
            assert(scan_from(mid, tail) == behavior_step(scan_from(mid, tail.drop_last()), tail.last()));
        }
        assert(lines(render(secs).drop_last()) == got);
        assert(scan_from(initial_scan(), ls) == behavior_step(mid, ls.last()));
    } else {
        lemma_lines_render(ls);
        lemma_behavior_scan_is_scan(strip_all(ls));
        lemma_scan_strip(initial_scan(), ls);
    }
}


// ------------------------------------------------------------ assignments

pub open spec fn behavior_name() -> Seq<char> { "Behavior"@ }
pub open spec fn hotkey_name() -> Seq<char> { "Hotkey"@ }
pub open spec fn share_key() -> Seq<char> { "ShareInputState"@ }
pub open spec fn active_key() -> Seq<char> { "ActiveByDefault"@ }
pub open spec fn alt_key() -> Seq<char> { "AltTriggerKeys"@ }
pub open spec fn shift_l() -> Seq<char> { "Shift_L"@ }

/// What reading a line assigns, key and value trimmed: nothing for blank
/// lines, comments, section headers and lines without `=`.
pub open spec fn assignment(l: Seq<char>) -> Option<(Seq<char>, Seq<char>)> {
    let t = trim(l);
    if t.len() == 0 || t[0] == '#' || is_header_line(t) {
        None
    } else {
        match split_once(t, '=') {
            Some((k, v)) => Some((trim(k), trim(v))),
            None => None,
        }
    }
}

/// The value of the last assignment of `key` among `ls`.
pub open spec fn last_value(ls: Seq<Seq<char>>, key: Seq<char>) -> Option<Seq<char>>
    decreases ls.len(),
{
    if ls.len() == 0 {
        None
    } else {
        let a = assignment(ls.last());
        if a is Some && a.unwrap().0 == key {
            Some(a.unwrap().1)
        } else {
            last_value(ls.drop_last(), key)
        }
    }
}

/// Whether a line assigns `Shift_L` (to `key`, when one is given).
pub open spec fn shift_l_line(l: Seq<char>, key: Option<Seq<char>>) -> bool {
    match assignment(l) {
        Some((k, v)) => v == shift_l() && (key is None || key == Some(k)),
        None => false,
    }
}

pub open spec fn assigns_shift_l(ls: Seq<Seq<char>>, key: Option<Seq<char>>) -> bool {
    exists|i: int| 0 <= i < ls.len() && shift_l_line(#[trigger] ls[i], key)
}

proof fn lemma_names_distinct()
    ensures
        behavior_name() != hotkey_name(),
        behavior_name() != crate::ui::ime::alt_header(),
        hotkey_name() != crate::ui::ime::alt_header(),
        behavior_name() != Seq::<char>::empty(),
        hotkey_name() != Seq::<char>::empty(),
        crate::ui::ime::alt_header() != Seq::<char>::empty(),
{
    reveal_strlit("Behavior");
    reveal_strlit("Hotkey");
    reveal_strlit("Hotkey/AltTriggerKeys");
    assert(behavior_name().len() != hotkey_name().len());
    assert(behavior_name().len() != crate::ui::ime::alt_header().len());
    assert(hotkey_name().len() != crate::ui::ime::alt_header().len());
}

proof fn lemma_last_value_append(a: Seq<Seq<char>>, b: Seq<Seq<char>>, key: Seq<char>)
    ensures
        last_value(a + b, key) == (if last_value(b, key) is Some { last_value(b, key) } else { last_value(a, key) }),
    decreases b.len(),
{
    if b.len() == 0 {
        assert(a + b =~= a);
    } else {
        assert((a + b).drop_last() =~= a + b.drop_last());
        assert((a + b).last() == b.last());
        lemma_last_value_append(a, b.drop_last(), key);
    }
}

proof fn lemma_last_value_one(l: Seq<char>, key: Seq<char>)
    ensures
        last_value(seq![l], key) == (if assignment(l) is Some && assignment(l).unwrap().0 == key {
            Some(assignment(l).unwrap().1)
        } else {
            None::<Seq<char>>
        }),
{
    assert(seq![l].drop_last() =~= Seq::<Seq<char>>::empty());
    assert(seq![l].last() == l);
    assert(last_value(seq![l].drop_last(), key) is None);
}

/// Reading one line that is not a section header.
proof fn lemma_step_line(st: BehaviorScan, l: Seq<char>)
    requires
        !is_header_line(trim(l)),
    ensures
        ({
            let r = behavior_step(st, l);
            let a = assignment(l);
            &&& r.section == st.section
            &&& r.share == (if st.section == behavior_name() && a is Some && a.unwrap().0 == share_key() {
                a.unwrap().1
            } else {
                st.share
            })
            &&& r.active == (if st.section == behavior_name() && a is Some && a.unwrap().0 == active_key() {
                crate::ui::ime::eq_ignore_ascii_case(a.unwrap().1, "true"@)
            } else {
                st.active
            })
            &&& r.has_alt_trigger_keys == (st.has_alt_trigger_keys
                || (st.section == hotkey_name() && a is Some && a.unwrap().0 == alt_key()))
            &&& r.shift_alt_trigger == (st.shift_alt_trigger
                || (st.section == hotkey_name() && shift_l_line(l, Some(alt_key())))
                || (st.section == crate::ui::ime::alt_header() && shift_l_line(l, None)))
        }),
{
    lemma_names_distinct();
    reveal_strlit("ShareInputState");
    reveal_strlit("ActiveByDefault");
    reveal_strlit("AltTriggerKeys");
    assert(share_key() != active_key()) by {
        assert(share_key()[0] != active_key()[0]);
    }
}

/// The last assignment of a key is found at some line, after which none
/// follows; with none, no line assigns it.
proof fn lemma_last_value_at(ls: Seq<Seq<char>>, key: Seq<char>)
    ensures
        match last_value(ls, key) {
            Some(v) => exists|i: int| 0 <= i < ls.len() && #[trigger] assignment(ls[i]) == Some((key, v)),
            None => forall|i: int| 0 <= i < ls.len() ==> !(#[trigger] assignment(ls[i]) is Some && assignment(ls[i]).unwrap().0 == key),
        },
    decreases ls.len(),
{
    if ls.len() > 0 {
        let dl = ls.drop_last();
        lemma_last_value_at(dl, key);
        let a = assignment(ls.last());
        if a is Some && a.unwrap().0 == key {
            assert(assignment(ls[ls.len() - 1]) == Some((key, a.unwrap().1)));
        } else {
            match last_value(dl, key) {
                Some(v) => {
                    let i = choose|i: int| 0 <= i < dl.len() && #[trigger] assignment(dl[i]) == Some((key, v));
                    assert(ls[i] == dl[i]);
                },
                None => {
                    assert forall|i: int| 0 <= i < ls.len() implies !(#[trigger] assignment(ls[i]) is Some && assignment(ls[i]).unwrap().0 == key) by {
                        if i < dl.len() {
                            assert(ls[i] == dl[i]);
                        }
                    }
                },
            }
        }
    }
}

/// When every line that assigns a key assigns it the same value, and one
/// does, that is the last value.
proof fn lemma_last_value_only(ls: Seq<Seq<char>>, key: Seq<char>, v: Seq<char>)
    requires
        exists|i: int| 0 <= i < ls.len() && #[trigger] assignment(ls[i]) == Some((key, v)),
        forall|i: int| 0 <= i < ls.len() && #[trigger] assignment(ls[i]) is Some && assignment(ls[i]).unwrap().0 == key
            ==> assignment(ls[i]).unwrap().1 == v,
    ensures
        last_value(ls, key) == Some(v),
{
    lemma_last_value_at(ls, key);
    match last_value(ls, key) {
        Some(w) => {
            let i = choose|i: int| 0 <= i < ls.len() && #[trigger] assignment(ls[i]) == Some((key, w));
        },
        None => {
            let i = choose|i: int| 0 <= i < ls.len() && #[trigger] assignment(ls[i]) == Some((key, v));
        },
    }
}

/// Reading the lines of one section, with no header among them.
proof fn lemma_scan_section_lines(st: BehaviorScan, ls: Seq<Seq<char>>)
    requires
        forall|k: int| 0 <= k < ls.len() ==> !is_header_line(trim(#[trigger] ls[k])),
    ensures
        ({
            let r = scan_from(st, ls);
            &&& r.section == st.section
            &&& r.share == (if st.section == behavior_name() && last_value(ls, share_key()) is Some {
                last_value(ls, share_key())->0
            } else {
                st.share
            })
            &&& r.active == (if st.section == behavior_name() && last_value(ls, active_key()) is Some {
                crate::ui::ime::eq_ignore_ascii_case(last_value(ls, active_key())->0, "true"@)
            } else {
                st.active
            })
            &&& r.has_alt_trigger_keys == (st.has_alt_trigger_keys
                || (st.section == hotkey_name() && last_value(ls, alt_key()) is Some))
            &&& r.shift_alt_trigger == (st.shift_alt_trigger
                || (st.section == hotkey_name() && assigns_shift_l(ls, Some(alt_key())))
                || (st.section == crate::ui::ime::alt_header() && assigns_shift_l(ls, None)))
        }),
    decreases ls.len(),
{
    lemma_names_distinct();
    if ls.len() > 0 {
        let dl = ls.drop_last();
        let l = ls.last();
        assert forall|k: int| 0 <= k < dl.len() implies !is_header_line(trim(#[trigger] dl[k])) by {
            assert(dl[k] == ls[k]);
        }
        lemma_scan_section_lines(st, dl);
        assert(!is_header_line(trim(ls[ls.len() - 1])));
        lemma_step_line(scan_from(st, dl), l);
        assert forall|key: Option<Seq<char>>| #![trigger assigns_shift_l(ls, key)]
            assigns_shift_l(ls, key) == (assigns_shift_l(dl, key) || shift_l_line(l, key)) by {
            if assigns_shift_l(ls, key) {
                let i = choose|i: int| 0 <= i < ls.len() && shift_l_line(#[trigger] ls[i], key);
                if i < dl.len() {
                    assert(dl[i] == ls[i]);
                }
            }
            if assigns_shift_l(dl, key) {
                let i = choose|i: int| 0 <= i < dl.len() && shift_l_line(#[trigger] dl[i], key);
                assert(dl[i] == ls[i]);
            }
            if shift_l_line(l, key) {
                assert(ls[ls.len() - 1] == l);
            }
        }
        assert(assigns_shift_l(ls, Some(alt_key())) == (assigns_shift_l(dl, Some(alt_key())) || shift_l_line(l, Some(alt_key()))));
        assert(assigns_shift_l(ls, None) == (assigns_shift_l(dl, None) || shift_l_line(l, None)));
    }
}


// ------------------------------------------------------------ reading sections

/// No line of the section is a header or holds a line break, nor does its
/// header.
pub open spec fn plain_section(s: SectionView) -> bool {
    &&& forall|k: int| 0 <= k < s.lines.len() ==> !is_header_line(trim(#[trigger] s.lines[k])) && no_newline(s.lines[k])
    &&& (s.header matches Some(h) ==> no_newline(h))
}

/// A headerless section first, then only headed ones, all plain.
pub open spec fn well_shaped(secs: Seq<SectionView>) -> bool {
    &&& secs.len() > 0
    &&& secs[0].header is None
    &&& forall|i: int| 0 < i < secs.len() ==> (#[trigger] secs[i]).header is Some
    &&& forall|i: int| 0 <= i < secs.len() ==> plain_section(#[trigger] secs[i])
}

/// A `[Behavior]` section that ends up with the fixed policy.
pub open spec fn policy_section(s: SectionView) -> bool {
    &&& s.header == Some(behavior_name())
    &&& last_value(s.lines, share_key()) == Some("All"@)
    &&& last_value(s.lines, active_key()) == Some("True"@)
}

/// A section that assigns neither policy key.
pub open spec fn policy_silent(s: SectionView) -> bool {
    &&& last_value(s.lines, share_key()) is None
    &&& last_value(s.lines, active_key()) is None
}

/// A section that tells fcitx5 which alternative trigger keys to use.
pub open spec fn declares_alt_keys(s: SectionView) -> bool {
    ||| s.header == Some(crate::ui::ime::alt_header())
    ||| (s.header == Some(hotkey_name()) && last_value(s.lines, alt_key()) is Some)
}

/// A section that does not make the left Shift an alternative trigger key.
pub open spec fn no_shift_l(s: SectionView) -> bool {
    &&& (s.header == Some(crate::ui::ime::alt_header()) ==> !assigns_shift_l(s.lines, None))
    &&& (s.header == Some(hotkey_name()) ==> !assigns_shift_l(s.lines, Some(alt_key())))
}

pub open spec fn behavior_settled(s: SectionView) -> bool {
    s.header == Some(behavior_name()) ==> policy_section(s) || policy_silent(s)
}

/// Sections whose reading gives the fixed policy.
pub open spec fn fixed_sections(secs: Seq<SectionView>) -> bool {
    &&& well_shaped(secs)
    &&& exists|i: int| 0 <= i < secs.len() && policy_section(#[trigger] secs[i])
    &&& exists|i: int| 0 <= i < secs.len() && declares_alt_keys(#[trigger] secs[i])
    &&& forall|i: int| 0 <= i < secs.len() ==> no_shift_l(#[trigger] secs[i]) && behavior_settled(secs[i])
}

proof fn lemma_true_is_true()
    ensures
        crate::ui::ime::eq_ignore_ascii_case("True"@, "true"@),
{
    reveal_strlit("True");
    reveal_strlit("true");
    assert(crate::ui::ime::ascii_lower_char('T') == 't');
}

/// A written header line reads as that header.
proof fn lemma_header_line(h: Seq<char>)
    ensures
        trim("["@ + h + "]"@) == "["@ + h + "]"@,
        is_header_line("["@ + h + "]"@),
        header_name("["@ + h + "]"@) == h,
{
    reveal_strlit("[");
    reveal_strlit("]");
    let hl = "["@ + h + "]"@;
    assert(hl[0] == '[');
    assert(hl.last() == ']');
    lemma_trim_fixed(hl);
    assert(header_name(hl) =~= h);
}

proof fn lemma_scan_sections(secs: Seq<SectionView>)
    requires
        well_shaped(secs),
        forall|i: int| 0 <= i < secs.len() ==> no_shift_l(#[trigger] secs[i]) && behavior_settled(secs[i]),
    ensures
        ({
            let r = scan_from(initial_scan(), all_lines(secs));
            &&& r.section == (match secs.last().header { Some(h) => h, None => Seq::<char>::empty() })
            &&& (exists|i: int| 0 <= i < secs.len() && policy_section(#[trigger] secs[i]))
                ==> r.share == "All"@ && r.active
            &&& (exists|i: int| 0 <= i < secs.len() && declares_alt_keys(#[trigger] secs[i]))
                ==> r.has_alt_trigger_keys
            &&& !r.shift_alt_trigger
        }),
    decreases secs.len(),
{
    lemma_names_distinct();
    lemma_true_is_true();
    let init = initial_scan();
    assert(init.section == Seq::<char>::empty());
    if secs.len() == 1 {
        let s0 = secs[0];
        assert(secs.drop_last() =~= Seq::<SectionView>::empty());
        assert(secs.last() == s0);
        assert(all_lines(secs.drop_last()) =~= Seq::<Seq<char>>::empty());
        assert(section_lines(s0) =~= s0.lines);
        assert(all_lines(secs) =~= s0.lines);
        assert(plain_section(secs[0]));
        lemma_scan_section_lines(init, s0.lines);
        assert(!(exists|i: int| 0 <= i < secs.len() && policy_section(#[trigger] secs[i])));
        assert(!(exists|i: int| 0 <= i < secs.len() && declares_alt_keys(#[trigger] secs[i])));
    } else {
        let dl = secs.drop_last();
        let s = secs.last();
        assert(dl[0] == secs[0]);
        assert forall|i: int| 0 < i < dl.len() implies (#[trigger] dl[i]).header is Some by {
            assert(dl[i] == secs[i]);
        }
        assert forall|i: int| 0 <= i < dl.len() implies plain_section(#[trigger] dl[i]) by {
            assert(dl[i] == secs[i]);
        }
        assert forall|i: int| 0 <= i < dl.len() implies no_shift_l(#[trigger] dl[i]) && behavior_settled(dl[i]) by {
            assert(dl[i] == secs[i]);
        }
        lemma_scan_sections(dl);
        let r1 = scan_from(init, all_lines(dl));
        assert(secs[secs.len() - 1] == s);
        assert(s.header is Some);
        let h = s.header.unwrap();
        let hl = "["@ + h + "]"@;
        assert(section_lines(s) == seq![hl] + s.lines);
        lemma_scan_append(init, all_lines(dl), section_lines(s));
        lemma_scan_append(r1, seq![hl], s.lines);
        lemma_header_line(h);
        assert(seq![hl].drop_last() =~= Seq::<Seq<char>>::empty());
        let r2 = behavior_step(r1, hl);
        assert(seq![hl].last() == hl);
        assert(scan_from(r1, seq![hl].drop_last()) == r1);
        assert(scan_from(r1, seq![hl]) == r2);
        assert(r2.section == h);
        assert(plain_section(secs[secs.len() - 1]));
        lemma_scan_section_lines(r2, s.lines);
        let r = scan_from(init, all_lines(secs));
        assert(r == scan_from(r2, s.lines));
        assert(no_shift_l(secs[secs.len() - 1]) && behavior_settled(secs[secs.len() - 1]));
        if exists|i: int| 0 <= i < secs.len() && policy_section(#[trigger] secs[i]) {
            let i = choose|i: int| 0 <= i < secs.len() && policy_section(#[trigger] secs[i]);
            if i < dl.len() {
                assert(dl[i] == secs[i]);
                assert(policy_section(dl[i]));
            }
        }
        if exists|i: int| 0 <= i < secs.len() && declares_alt_keys(#[trigger] secs[i]) {
            let i = choose|i: int| 0 <= i < secs.len() && declares_alt_keys(#[trigger] secs[i]);
            if i < dl.len() {
                assert(dl[i] == secs[i]);
                assert(declares_alt_keys(dl[i]));
            }
        }
    }
}

/// Sections in the fixed shape read as the fixed policy.
proof fn lemma_fixed_sections_read(secs: Seq<SectionView>)
    requires
        fixed_sections(secs),
    ensures
        ({
            let r = scan_from(initial_scan(), all_lines(secs));
            r.share == "All"@ && r.active && r.has_alt_trigger_keys && !r.shift_alt_trigger
        }),
{
    lemma_scan_sections(secs);
}


// ------------------------------------------------------------ setting a key

/// A key that a reading cannot take for a comment or a header.
pub open spec fn key_like(key: Seq<char>) -> bool {
    &&& key.len() > 0
    &&& !is_ws(key[0])
    &&& key[0] != '#'
    &&& key[0] != '['
}

/// A `key=value` line that reads back as exactly that assignment.
pub open spec fn clean_setting(key: Seq<char>, value: Seq<char>) -> bool {
    &&& key_like(key)
    &&& !is_ws(key.last())
    &&& (forall|j: int| 0 <= j < key.len() ==> key[j] != '=' && key[j] != '\n')
    &&& no_newline(value)
    &&& (value.len() > 0 ==> !is_ws(value[0]) && !is_ws(value.last()))
}

pub open spec fn plain_line(l: Seq<char>) -> bool {
    !is_header_line(trim(l)) && no_newline(l)
}

proof fn lemma_setting_line(key: Seq<char>, value: Seq<char>)
    requires
        clean_setting(key, value),
    ensures
        assignment(key + "="@ + value) == Some((key, value)),
        plain_line(key + "="@ + value),
        trim(key + "="@ + value) == key + "="@ + value,
        split_once(key + "="@ + value, '=') == Some((key, value)),
        trim(key) == key,
        trim(value) == value,
        (key + "="@ + value).last() != '\r',
{
    reveal_strlit("=");
    let nl = key + "="@ + value;
    assert(nl[0] == key[0]);
    assert(!is_ws('='));
    if value.len() > 0 {
        assert(nl.last() == value.last());
    } else {
        assert(nl.last() == '=');
    }
    lemma_trim_fixed(nl);
    assert(nl[key.len() as int] == '=');
    assert forall|j: int| 0 <= j < key.len() implies nl[j] != '=' by {
        assert(nl[j] == key[j]);
    }
    crate::text::lemma_find_char_first(nl, '=', key.len() as int);
    assert(nl.take(key.len() as int) =~= key);
    assert(nl.skip(key.len() as int + 1) =~= value);
    lemma_trim_fixed(key);
    if value.len() > 0 {
        lemma_trim_fixed(value);
    } else {
        assert(trim_start(value) == value);
        assert(trim_end(value) == value);
    }
    assert forall|j: int| 0 <= j < nl.len() implies nl[j] != '\n' by {
        if j < key.len() {
            assert(nl[j] == key[j]);
        } else if j > key.len() {
            assert(nl[j] == value[j - key.len() - 1]);
        }
    }
}

/// Lines that `set_ini_key` takes for assignments of a key are those that
/// read as assigning it.
proof fn lemma_key_line(l: Seq<char>, key: Seq<char>)
    requires
        key_like(key),
    ensures
        crate::ui::ime::is_key_line(l, key) == (assignment(l) is Some && assignment(l).unwrap().0 == key),
{
    let t = trim(l);
    if crate::ui::ime::is_key_line(l, key) {
        crate::text::lemma_find_char(t, '=');
        let i = find_char(t, '=').unwrap();
        let k0 = t.take(i);
        crate::text::lemma_trim_len(k0);
        assert(k0.len() > 0);
        lemma_trim_ends(l);
        assert(t[0] == k0[0]);
        let s0 = lemma_trim_start_shape(k0);
        assert(s0 == 0) by {
            if s0 > 0 {
                assert(is_ws(k0[0]));
            }
        }
        assert(k0.skip(0) =~= k0);
        let e0 = lemma_trim_end_shape(k0);
        assert(e0 > 0);
        assert(trim(k0)[0] == k0[0]);
    }
}

pub open spec fn has_key_line(ls: Seq<Seq<char>>, key: Seq<char>) -> bool {
    crate::ui::ime::has_key(ls, key)
}

/// How many lines `set_ini_key` takes for assignments of `key`.
pub open spec fn key_count(ls: Seq<Seq<char>>, key: Seq<char>) -> nat
    decreases ls.len(),
{
    if ls.len() == 0 {
        0
    } else {
        (if crate::ui::ime::is_key_line(ls[0], key) { 1nat } else { 0nat }) + key_count(ls.drop_first(), key)
    }
}

proof fn lemma_key_count_append(a: Seq<Seq<char>>, b: Seq<Seq<char>>, key: Seq<char>)
    ensures
        key_count(a + b, key) == key_count(a, key) + key_count(b, key),
    decreases a.len(),
{
    if a.len() == 0 {
        assert(a + b =~= b);
    } else {
        assert((a + b).drop_first() =~= a.drop_first() + b);
        assert((a + b)[0] == a[0]);
        lemma_key_count_append(a.drop_first(), b, key);
    }
}

proof fn lemma_key_count_single(nl: Seq<char>, key: Seq<char>, key2: Seq<char>)
    requires
        key_like(key),
        key_like(key2),
        key != key2,
        assignment(nl) is Some && assignment(nl).unwrap().0 == key,
    ensures
        key_count(seq![nl], key) == 1,
        key_count(seq![nl], key2) == 0,
{
    lemma_key_line(nl, key);
    lemma_key_line(nl, key2);
    let one = seq![nl];
    assert(one.drop_first() =~= Seq::<Seq<char>>::empty());
    assert(key_count(one.drop_first(), key) == 0);
    assert(key_count(one.drop_first(), key2) == 0);
    assert(one[0] == nl);
    assert(crate::ui::ime::is_key_line(nl, key));
    assert(!crate::ui::ime::is_key_line(nl, key2));
}

/// With no line taken for `key`, no line is.
proof fn lemma_key_count_zero(ls: Seq<Seq<char>>, key: Seq<char>)
    ensures
        (key_count(ls, key) == 0) == !has_key_line(ls, key),
    decreases ls.len(),
{
    if ls.len() > 0 {
        lemma_key_count_zero(ls.drop_first(), key);
        if has_key_line(ls, key) && !crate::ui::ime::is_key_line(ls[0], key) {
            let j = choose|j: int| 0 <= j < ls.len() && crate::ui::ime::is_key_line(#[trigger] ls[j], key);
            assert(ls.drop_first()[j - 1] == ls[j]);
        }
        if has_key_line(ls.drop_first(), key) {
            let j = choose|j: int| 0 <= j < ls.drop_first().len() && crate::ui::ime::is_key_line(#[trigger] ls.drop_first()[j], key);
            assert(ls[j + 1] == ls.drop_first()[j]);
        }
    }
}

/// Replacing the assignments of a key: every line that results is the new
/// line or one of the old ones, the only assignment of the key is the new
/// line, and the other keys keep their last values.
proof fn lemma_replace_key_lines(ls: Seq<Seq<char>>, key: Seq<char>, nl: Seq<char>, found: bool, key2: Seq<char>)
    requires
        key_like(key),
        key_like(key2),
        key2 != key,
        assignment(nl) is Some && assignment(nl).unwrap().0 == key,
    ensures
        ({
            let r = crate::ui::ime::replace_key_lines(ls, key, nl, found);
            &&& forall|i: int| 0 <= i < r.len() ==> #[trigger] r[i] == nl || exists|k: int| 0 <= k < ls.len() && r[i] == ls[k]
            &&& forall|i: int| 0 <= i < r.len() && #[trigger] assignment(r[i]) is Some && assignment(r[i]).unwrap().0 == key ==> r[i] == nl
            &&& last_value(r, key2) == last_value(ls, key2)
            &&& (!found && has_key_line(ls, key) ==> exists|i: int| 0 <= i < r.len() && #[trigger] r[i] == nl)
            &&& key_count(r, key) == (if !found && has_key_line(ls, key) { 1nat } else { 0nat })
            &&& key_count(r, key2) == key_count(ls, key2)
        }),
    decreases ls.len(),
{
    if ls.len() > 0 {
        let rest = ls.drop_first();
        let x = ls[0];
        assert(ls =~= seq![x] + rest);
        lemma_key_line(x, key);
        let is_k = crate::ui::ime::is_key_line(x, key);
        let f2 = found || is_k;
        lemma_replace_key_lines(rest, key, nl, f2, key2);
        let rr = crate::ui::ime::replace_key_lines(rest, key, nl, f2);
        let r = crate::ui::ime::replace_key_lines(ls, key, nl, found);
        lemma_last_value_append(seq![x], rest, key2);
        lemma_last_value_one(x, key2);
        lemma_key_line(x, key2);
        lemma_key_line(nl, key);
        lemma_key_line(nl, key2);
        lemma_key_count_zero(rest, key);
        if is_k && found {
            assert(r == rr);
        } else {
            let head = if is_k { nl } else { x };
            assert(r == seq![head] + rr);
            lemma_last_value_append(seq![head], rr, key2);
            lemma_last_value_one(head, key2);
            lemma_key_line(head, key);
            assert(r.drop_first() =~= rr);
            assert(r[0] == head);
        }
        if has_key_line(rest, key) {
            let j = choose|j: int| 0 <= j < rest.len() && crate::ui::ime::is_key_line(#[trigger] rest[j], key);
            assert(ls[j + 1] == rest[j]);
        }
        lemma_key_count_zero(ls, key);
        assert forall|i: int| 0 <= i < r.len() implies #[trigger] r[i] == nl || exists|k: int| 0 <= k < ls.len() && r[i] == ls[k] by {
            if r.len() == rr.len() {
                if !(rr[i] == nl) {
                    let k = choose|k: int| 0 <= k < rest.len() && rr[i] == rest[k];
                    assert(r[i] == ls[k + 1]);
                }
            } else if i == 0 {
                if !is_k {
                    assert(r[0] == ls[0]);
                }
            } else {
                assert(r[i] == rr[i - 1]);
                if !(rr[i - 1] == nl) {
                    let k = choose|k: int| 0 <= k < rest.len() && rr[i - 1] == rest[k];
                    assert(r[i] == ls[k + 1]);
                }
            }
        }
        assert forall|i: int| 0 <= i < r.len() && #[trigger] assignment(r[i]) is Some && assignment(r[i]).unwrap().0 == key implies r[i] == nl by {
            if r.len() == rr.len() {
                assert(r[i] == rr[i]);
            } else if i > 0 {
                assert(r[i] == rr[i - 1]);
            }
        }
        if !found && has_key_line(ls, key) {
            if is_k {
                assert(r[0] == nl);
            } else {
                let j = choose|j: int| 0 <= j < ls.len() && crate::ui::ime::is_key_line(#[trigger] ls[j], key);
                assert(j > 0);
                assert(rest[j - 1] == ls[j]);
                assert(has_key_line(rest, key));
                let i = choose|i: int| 0 <= i < rr.len() && #[trigger] rr[i] == nl;
                assert(r[i + 1] == nl);
            }
        }
    } else {
        assert(crate::ui::ime::replace_key_lines(ls, key, nl, found) =~= Seq::<Seq<char>>::empty());
        lemma_key_count_zero(ls, key);
    }
}

proof fn lemma_content_end(ls: Seq<Seq<char>>)
    ensures
        0 <= crate::ui::ime::content_end(ls) <= ls.len(),
    decreases ls.len(),
{
    if ls.len() > 0 && trim(ls.last()).len() == 0 {
        lemma_content_end(ls.drop_last());
    }
}

/// Setting a key in a section's lines.
proof fn lemma_set_key_lines(ls: Seq<Seq<char>>, key: Seq<char>, value: Seq<char>, key2: Seq<char>)
    requires
        clean_setting(key, value),
        key_like(key2),
        key2 != key,
    ensures
        ({
            let nl = key + "="@ + value;
            let r = crate::ui::ime::set_key_lines(ls, key, nl);
            &&& last_value(r, key) == Some(value)
            &&& last_value(r, key2) == last_value(ls, key2)
            &&& forall|i: int| 0 <= i < r.len() ==> #[trigger] r[i] == nl || exists|k: int| 0 <= k < ls.len() && r[i] == ls[k]
            &&& forall|i: int| 0 <= i < r.len() && #[trigger] assignment(r[i]) is Some && assignment(r[i]).unwrap().0 == key ==> r[i] == nl
            &&& key_count(r, key) == 1
            &&& key_count(r, key2) == key_count(ls, key2)
        }),
{
    let nl = key + "="@ + value;
    lemma_setting_line(key, value);
    let r = crate::ui::ime::set_key_lines(ls, key, nl);
    if has_key_line(ls, key) {
        lemma_replace_key_lines(ls, key, nl, false, key2);
        let i = choose|i: int| 0 <= i < r.len() && #[trigger] r[i] == nl;
        lemma_last_value_only(r, key, value);
    } else {
        let at = crate::ui::ime::content_end(ls);
        lemma_content_end(ls);
        let a = ls.take(at);
        let b = ls.skip(at);
        assert(r == a + seq![nl] + b);
        assert(ls =~= a + b);
        lemma_last_value_append(a + seq![nl], b, key2);
        lemma_last_value_append(a, seq![nl], key2);
        lemma_last_value_one(nl, key2);
        lemma_last_value_append(a, b, key2);
        lemma_key_count_append(a + seq![nl], b, key);
        lemma_key_count_append(a, seq![nl], key);
        lemma_key_count_append(a, b, key);
        lemma_key_count_append(a + seq![nl], b, key2);
        lemma_key_count_append(a, seq![nl], key2);
        lemma_key_count_append(a, b, key2);
        lemma_key_count_zero(ls, key);
        lemma_key_line(nl, key);
        lemma_key_line(nl, key2);
        lemma_key_count_single(nl, key, key2);
        assert forall|i: int| 0 <= i < r.len() implies #[trigger] r[i] == nl || exists|k: int| 0 <= k < ls.len() && r[i] == ls[k] by {
            if i < at {
                assert(r[i] == ls[i]);
            } else if i > at {
                assert(r[i] == ls[i - 1]);
            }
        }
        assert forall|i: int| 0 <= i < r.len() && #[trigger] assignment(r[i]) is Some && assignment(r[i]).unwrap().0 == key implies r[i] == nl by {
            if i != at {
                let k = if i < at { i } else { i - 1 };
                assert(r[i] == ls[k]);
                lemma_key_line(ls[k], key);
            }
        }
        assert(r[at] == nl);
        lemma_last_value_only(r, key, value);
    }
}


/// A section with a blank line added at its end.
pub open spec fn push_blank(s: SectionView) -> SectionView {
    SectionView { header: s.header, lines: s.lines.push(seq![]) }
}

/// A blank line changes nothing that reading the section finds.
proof fn lemma_push_blank(s: SectionView)
    ensures
        forall|key: Seq<char>| #[trigger] last_value(push_blank(s).lines, key) == last_value(s.lines, key),
        forall|key: Option<Seq<char>>| #[trigger] assigns_shift_l(push_blank(s).lines, key) == assigns_shift_l(s.lines, key),
        plain_section(s) ==> plain_section(push_blank(s)),
        policy_section(s) ==> policy_section(push_blank(s)),
        policy_silent(s) ==> policy_silent(push_blank(s)),
        declares_alt_keys(s) ==> declares_alt_keys(push_blank(s)),
        no_shift_l(s) ==> no_shift_l(push_blank(s)),
        behavior_settled(s) ==> behavior_settled(push_blank(s)),
{
    let ls = push_blank(s).lines;
    let e = Seq::<char>::empty();
    assert(trim(e) =~= e) by {
        assert(trim_start(e) == e);
        assert(trim_end(e) == e);
    }
    assert(assignment(e) is None);
    assert(ls.drop_last() == s.lines);
    assert(ls.last() == e);
    assert forall|key: Option<Seq<char>>| #[trigger] assigns_shift_l(ls, key) == assigns_shift_l(s.lines, key) by {
        if assigns_shift_l(ls, key) {
            let i = choose|i: int| 0 <= i < ls.len() && shift_l_line(#[trigger] ls[i], key);
            if i < s.lines.len() {
                assert(ls[i] == s.lines[i]);
            }
        }
        if assigns_shift_l(s.lines, key) {
            let i = choose|i: int| 0 <= i < s.lines.len() && shift_l_line(#[trigger] s.lines[i], key);
            assert(ls[i] == s.lines[i]);
        }
    }
    if plain_section(s) {
        assert forall|k: int| 0 <= k < ls.len() implies !is_header_line(trim(#[trigger] ls[k])) && no_newline(ls[k]) by {
            if k < s.lines.len() {
                assert(ls[k] == s.lines[k]);
            }
        }
    }
}

/// Where `set_ini_key` puts the key, and what becomes of the other sections.
proof fn lemma_set_ini_key_shape(secs: Seq<SectionView>, name: Seq<char>, key: Seq<char>, value: Seq<char>)
    requires
        secs.len() > 0,
    ensures
        ({
            let r = crate::ui::ime::spec_set_ini_key(secs, name, key, value);
            let nl = key + "="@ + value;
            let found = crate::ui::ime::section_index(secs, name);
            let t = match found { Some(i) => i, None => secs.len() as int };
            &&& r.len() == (if found is Some { secs.len() as int } else { secs.len() as int + 1 })
            &&& 0 <= t < r.len()
            &&& r[t].header == Some(name)
            &&& r[t].lines == (match found { Some(i) => crate::ui::ime::set_key_lines(secs[i].lines, key, nl), None => seq![nl] })
            &&& forall|j: int| 0 <= j < r.len() && j != t ==> (#[trigger] r[j] == secs[j] || r[j] == push_blank(secs[j]))
            &&& forall|j: int| 0 <= j < r.len() && j != t ==> (#[trigger] r[j]).header == secs[j].header
            &&& forall|j: int| 0 <= j < t && j < secs.len() ==> secs[j].header != Some(name)
            &&& found matches Some(i) ==> secs[i].header == Some(name)
            &&& forall|j: int| 0 <= j < secs.len() && secs[j].header != Some(name)
                ==> #[trigger] same_or_blank(secs[j], r[j])
        }),
{
    crate::ui::ime::lemma_section_index(secs, name);
}

/// Whether a section's last line is not blank.
pub open spec fn ends_nonblank(s: SectionView) -> bool {
    s.lines.len() > 0 && trim(s.lines.last()).len() > 0
}

/// The section as it was, or with a blank line added after a last line that
/// was not blank.
pub open spec fn same_or_blank(a: SectionView, b: SectionView) -> bool {
    b == a || (ends_nonblank(a) && b == push_blank(a))
}

proof fn lemma_same_or_blank_twice(a: SectionView, b: SectionView, c: SectionView)
    requires
        same_or_blank(a, b),
        same_or_blank(b, c),
    ensures
        same_or_blank(a, c),
{
    if b != a && c != b {
        let e = Seq::<char>::empty();
        assert(b.lines.last() == e);
        assert(trim(e) =~= e) by {
            assert(trim_start(e) == e);
            assert(trim_end(e) == e);
        }
    }
}


// ------------------------------------------------------------ the policy keys

proof fn lemma_clean_settings()
    ensures
        clean_setting(share_key(), "All"@),
        clean_setting(active_key(), "True"@),
        clean_setting(alt_key(), ""@),
        share_key() != active_key(),
        no_newline(behavior_name()),
        no_newline(hotkey_name()),
        !("All"@ == shift_l()),
        !("True"@ == shift_l()),
        !(""@ == shift_l()),
{
    reveal_strlit("ShareInputState");
    reveal_strlit("ActiveByDefault");
    reveal_strlit("AltTriggerKeys");
    reveal_strlit("All");
    reveal_strlit("True");
    reveal_strlit("");
    reveal_strlit("Behavior");
    reveal_strlit("Hotkey");
    reveal_strlit("Shift_L");
    assert(share_key()[0] != active_key()[0]);
    assert(""@.len() != shift_l().len());
    assert("All"@.len() != shift_l().len());
    assert("True"@.len() != shift_l().len());
}

/// Every `[Behavior]` section that follows another assigns neither policy key.
pub open spec fn later_behavior_silent(secs: Seq<SectionView>) -> bool {
    forall|i: int, j: int|
        0 <= i < j < secs.len() && (#[trigger] secs[i]).header == Some(behavior_name())
            && (#[trigger] secs[j]).header == Some(behavior_name()) ==> policy_silent(secs[j])
}

/// Sections that need only the two policy keys set to read as the fixed
/// policy.
pub open spec fn ready_for_policy(secs: Seq<SectionView>) -> bool {
    &&& well_shaped(secs)
    &&& exists|i: int| 0 <= i < secs.len() && declares_alt_keys(#[trigger] secs[i])
    &&& forall|i: int| 0 <= i < secs.len() ==> no_shift_l(#[trigger] secs[i])
    &&& later_behavior_silent(secs)
}

proof fn lemma_section_index_at(secs: Seq<SectionView>, name: Seq<char>, t: int)
    requires
        0 <= t < secs.len(),
        secs[t].header == Some(name),
        forall|j: int| 0 <= j < t ==> secs[j].header != Some(name),
    ensures
        crate::ui::ime::section_index(secs, name) == Some(t),
{
    crate::ui::ime::lemma_section_index(secs, name);
}

/// A section whose lines are the new line or lines of a plain section is
/// plain.
proof fn lemma_plain_from(s: SectionView, old: Seq<Seq<char>>, nl: Seq<char>)
    requires
        plain_line(nl),
        forall|k: int| 0 <= k < old.len() ==> plain_line(#[trigger] old[k]),
        forall|i: int| 0 <= i < s.lines.len() ==> #[trigger] s.lines[i] == nl || exists|k: int| 0 <= k < old.len() && s.lines[i] == old[k],
        s.header matches Some(h) ==> no_newline(h),
    ensures
        plain_section(s),
{
    assert forall|k: int| 0 <= k < s.lines.len() implies !is_header_line(trim(#[trigger] s.lines[k])) && no_newline(s.lines[k]) by {
        if s.lines[k] != nl {
            let m = choose|m: int| 0 <= m < old.len() && s.lines[k] == old[m];
            assert(plain_line(old[m]));
        }
    }
}

/// Setting `key=value` in the named section: the result is in shape, and
/// the first section of that name, at `t`, has the key set, by the new line
/// alone.
proof fn lemma_set_section_key(secs: Seq<SectionView>, name: Seq<char>, key: Seq<char>, value: Seq<char>, key2: Seq<char>) -> (t: int)
    requires
        well_shaped(secs),
        clean_setting(key, value),
        key_like(key2),
        key2 != key,
        no_newline(name),
    ensures
        ({
            let r = crate::ui::ime::spec_set_ini_key(secs, name, key, value);
            &&& well_shaped(r)
            &&& 0 <= t < r.len()
            &&& r[t].header == Some(name)
            &&& crate::ui::ime::section_index(r, name) == Some(t)
            &&& last_value(r[t].lines, key) == Some(value)
            &&& last_value(r[t].lines, key2) == (match crate::ui::ime::section_index(secs, name) {
                Some(i) => last_value(secs[i].lines, key2),
                None => None,
            })
            &&& forall|i: int| 0 <= i < r[t].lines.len() && #[trigger] assignment(r[t].lines[i]) is Some
                && assignment(r[t].lines[i]).unwrap().0 == key ==> r[t].lines[i] == key + "="@ + value
            &&& key_count(r[t].lines, key) == 1
            &&& key_count(r[t].lines, key2) == (match crate::ui::ime::section_index(secs, name) {
                Some(i) => key_count(secs[i].lines, key2),
                None => 0,
            })
            &&& forall|i: int| 0 <= i < r[t].lines.len() ==> #[trigger] r[t].lines[i] == key + "="@ + value
                || (crate::ui::ime::section_index(secs, name) matches Some(m)
                    && exists|k: int| 0 <= k < secs[m].lines.len() && r[t].lines[i] == secs[m].lines[k])
            &&& (crate::ui::ime::section_index(secs, name) matches Some(i) ==> i == t)
            &&& (crate::ui::ime::section_index(secs, name) is None ==> t == secs.len())
            &&& forall|j: int| 0 <= j < r.len() && j != t ==> (#[trigger] r[j] == secs[j] || r[j] == push_blank(secs[j]))
            &&& forall|j: int| 0 <= j < r.len() && j != t ==> (#[trigger] r[j]).header == secs[j].header
        }),
{
    lemma_set_ini_key_shape(secs, name, key, value);
    lemma_setting_line(key, value);
    let r = crate::ui::ime::spec_set_ini_key(secs, name, key, value);
    let nl = key + "="@ + value;
    let found = crate::ui::ime::section_index(secs, name);
    let t = match found { Some(i) => i, None => secs.len() as int };
    crate::ui::ime::lemma_section_index(secs, name);
    match found {
        Some(i) => {
            lemma_set_key_lines(secs[i].lines, key, value, key2);
            assert(plain_section(secs[i]));
            lemma_plain_from(r[t], secs[i].lines, nl);
        },
        None => {
            lemma_last_value_one(nl, key);
            lemma_last_value_one(nl, key2);
            lemma_plain_from(r[t], Seq::<Seq<char>>::empty(), nl);
            lemma_key_count_single(nl, key, key2);
        },
    }
    assert forall|j: int| 0 <= j < r.len() implies plain_section(#[trigger] r[j]) by {
        if j != t {
            assert(plain_section(secs[j]));
            lemma_push_blank(secs[j]);
        }
    }
    assert(t != 0) by {
        if t == 0 {
            assert(secs[0].header is None);
        }
    }
    assert(r[0].header is None);
    assert forall|j: int| 0 < j < r.len() implies (#[trigger] r[j]).header is Some by {
        if j != t {
            assert(r[j].header == secs[j].header);
        }
    }
    lemma_section_index_at(r, name, t);
    t
}

/// Setting both policy keys makes sections that are ready read as fixed.
proof fn lemma_policy_steps(secs: Seq<SectionView>)
    requires
        ready_for_policy(secs),
    ensures
        fixed_sections(crate::ui::ime::spec_set_ini_key(
            crate::ui::ime::spec_set_ini_key(secs, behavior_name(), share_key(), "All"@),
            behavior_name(), active_key(), "True"@)),
{
    lemma_clean_settings();
    lemma_names_distinct();
    let v = crate::ui::ime::spec_set_ini_key(secs, behavior_name(), share_key(), "All"@);
    let t = lemma_set_section_key(secs, behavior_name(), share_key(), "All"@, active_key());
    let p = crate::ui::ime::spec_set_ini_key(v, behavior_name(), active_key(), "True"@);
    let t2 = lemma_set_section_key(v, behavior_name(), active_key(), "True"@, share_key());
    assert(t2 == t);
    crate::ui::ime::lemma_section_index(secs, behavior_name());
    assert(policy_section(p[t]));
    // every other [Behavior] section is silent, the first being at t
    assert forall|j: int| 0 <= j < p.len() implies no_shift_l(#[trigger] p[j]) && behavior_settled(p[j]) by {
        if j != t {
            assert(p[j] == v[j] || p[j] == push_blank(v[j]));
            assert(v[j] == secs[j] || v[j] == push_blank(secs[j]));
            assert(no_shift_l(secs[j]));
            lemma_push_blank(secs[j]);
            lemma_push_blank(v[j]);
            if p[j].header == Some(behavior_name()) {
                assert(secs[j].header == Some(behavior_name()));
                let i = crate::ui::ime::section_index(secs, behavior_name()).unwrap();
                assert(i == t);
                assert(i < j);
                assert(policy_silent(secs[j]));
            }
        }
    }
    let w = choose|w: int| 0 <= w < secs.len() && declares_alt_keys(#[trigger] secs[w]);
    assert(w != t);
    lemma_push_blank(secs[w]);
    lemma_push_blank(v[w]);
    assert(declares_alt_keys(v[w]));
    assert(declares_alt_keys(p[w]));
}


// ------------------------------------------------------------ the rewrite's steps

/// Whether `drop_alt` leaves a section out.
pub open spec fn dropped(s: SectionView, only_empty: bool) -> bool {
    s.header == Some(crate::ui::ime::alt_header()) && (!only_empty || s.lines.len() == 0)
}

/// Dropping sections keeps the others, in order: `f` tells where each kept
/// one was.
proof fn lemma_drop_alt(secs: Seq<SectionView>, only_empty: bool) -> (f: spec_fn(int) -> int)
    ensures
        ({
            let r = crate::ui::ime::drop_alt(secs, only_empty);
            &&& forall|i: int| 0 <= i < r.len() ==> 0 <= #[trigger] f(i) < secs.len() && r[i] == secs[f(i)]
                && !dropped(secs[f(i)], only_empty)
            &&& forall|i: int, i2: int| 0 <= i < i2 < r.len() ==> #[trigger] f(i) < #[trigger] f(i2)
            &&& forall|j: int| 0 <= j < secs.len() && !dropped(#[trigger] secs[j], only_empty)
                ==> exists|i: int| 0 <= i < r.len() && #[trigger] f(i) == j
        }),
    decreases secs.len(),
{
    if secs.len() == 0 {
        |i: int| 0int
    } else {
        let dl = secs.drop_last();
        let g = lemma_drop_alt(dl, only_empty);
        let rd = crate::ui::ime::drop_alt(dl, only_empty);
        let r = crate::ui::ime::drop_alt(secs, only_empty);
        let last = secs.len() - 1;
        let f = |i: int| if i < rd.len() { g(i) } else { last };
        assert forall|i: int| 0 <= i < r.len() implies 0 <= #[trigger] f(i) < secs.len() && r[i] == secs[f(i)]
            && !dropped(secs[f(i)], only_empty) by {
            if i < rd.len() {
                assert(r[i] == rd[i]);
                assert(dl[g(i)] == secs[g(i)]);
            }
        }
        assert forall|j: int| 0 <= j < secs.len() && !dropped(#[trigger] secs[j], only_empty)
            implies exists|i: int| 0 <= i < r.len() && #[trigger] f(i) == j by {
            if j < dl.len() {
                assert(dl[j] == secs[j]);
                assert(!dropped(dl[j], only_empty));
                let i = choose|i: int| 0 <= i < rd.len() && #[trigger] g(i) == j;
                assert(f(i) == j);
            } else {
                assert(r.len() == rd.len() + 1);
                assert(f(rd.len() as int) == j);
            }
        }
        f
    }
}

/// Dropping sections keeps the shape.
proof fn lemma_drop_alt_shape(secs: Seq<SectionView>, only_empty: bool)
    requires
        well_shaped(secs),
    ensures
        well_shaped(crate::ui::ime::drop_alt(secs, only_empty)),
{
    lemma_names_distinct();
    let f = lemma_drop_alt(secs, only_empty);
    let r = crate::ui::ime::drop_alt(secs, only_empty);
    assert(!dropped(secs[0], only_empty));
    let i0 = choose|i: int| 0 <= i < r.len() && #[trigger] f(i) == 0;
    assert(i0 == 0) by {
        if i0 > 0 {
            assert(f(0) < f(i0));
        }
    }
    assert forall|i: int| 0 < i < r.len() implies (#[trigger] r[i]).header is Some by {
        assert(f(0) < f(i));
    }
    assert forall|i: int| 0 <= i < r.len() implies plain_section(#[trigger] r[i]) by {
        assert(r[i] == secs[f(i)]);
    }
}

proof fn lemma_split_sections_shape(ls: Seq<Seq<char>>)
    requires
        forall|k: int| 0 <= k < ls.len() ==> no_newline(#[trigger] ls[k]),
    ensures
        well_shaped(crate::ui::ime::split_sections(ls)),
    decreases ls.len(),
{
    if ls.len() > 0 {
        let dl = ls.drop_last();
        assert forall|k: int| 0 <= k < dl.len() implies no_newline(#[trigger] dl[k]) by {
            assert(dl[k] == ls[k]);
        }
        lemma_split_sections_shape(dl);
        let secs = crate::ui::ime::split_sections(dl);
        let r = crate::ui::ime::split_sections(ls);
        let l = ls.last();
        assert(no_newline(ls[ls.len() - 1]));
        let t = trim(l);
        if is_header_line(t) {
            let ij = lemma_trim_ends(l);
            let h = header_name(t);
            assert forall|k: int| 0 <= k < h.len() implies h[k] != '\n' by {
                assert(h[k] == l[ij.0 + 1 + k]);
            }
            assert(r == secs.push(SectionView { header: Some(h), lines: seq![] }));
            assert forall|i: int| 0 <= i < r.len() implies plain_section(#[trigger] r[i]) by {
                if i < secs.len() {
                    assert(r[i] == secs[i]);
                }
            }
            assert forall|i: int| 0 < i < r.len() implies (#[trigger] r[i]).header is Some by {
                if i < secs.len() {
                    assert(r[i] == secs[i]);
                }
            }
        } else {
            let n = secs.len() - 1;
            assert(plain_section(secs[n]));
            assert forall|i: int| 0 <= i < r.len() implies plain_section(#[trigger] r[i]) by {
                if i == n {
                    let ln = secs[n].lines.push(l);
                    assert(r[i].lines == ln);
                    assert forall|k: int| 0 <= k < ln.len() implies !is_header_line(trim(#[trigger] ln[k])) && no_newline(ln[k]) by {
                        if k < secs[n].lines.len() {
                            assert(ln[k] == secs[n].lines[k]);
                        }
                    }
                } else {
                    assert(r[i] == secs[i]);
                }
            }
            assert forall|i: int| 0 < i < r.len() implies (#[trigger] r[i]).header is Some by {
                assert(r[i].header == secs[i].header);
            }
        }
    } else {
        let r = crate::ui::ime::split_sections(ls);
        assert(plain_section(r[0]));
    }
}


proof fn lemma_decimal_digits(n: nat)
    ensures
        crate::text::decimal(n).len() >= 1,
        forall|j: int| 0 <= j < crate::text::decimal(n).len() ==> '0' <= #[trigger] crate::text::decimal(n)[j] <= '9',
    decreases n,
{
    if n >= 10 {
        lemma_decimal_digits(n / 10);
        let d = crate::text::decimal(n / 10);
        assert forall|j: int| 0 <= j < crate::text::decimal(n).len() implies '0' <= #[trigger] crate::text::decimal(n)[j] <= '9' by {
            if j < d.len() {
                assert(crate::text::decimal(n)[j] == d[j]);
            }
        }
    }
}

/// Trimmed text: its ends are not white space, and it holds no line break
/// when the text did not.
proof fn lemma_trimmed_clean(x: Seq<char>)
    requires
        no_newline(x),
    ensures
        no_newline(trim(x)),
        trim(x).len() > 0 ==> !is_ws(trim(x)[0]) && !is_ws(trim(x).last()),
{
    let ij = lemma_trim_ends(x);
    assert forall|k: int| 0 <= k < trim(x).len() implies trim(x)[k] != '\n' by {
        assert(trim(x)[k] == x[ij.0 + k]);
    }
}

/// The value of a numbered entry, renumbered, makes a clean setting.
proof fn lemma_entry_clean(l: Seq<char>, n: nat)
    requires
        no_newline(l),
        crate::ui::ime::alt_entry(l) is Some,
    ensures
        clean_setting(crate::text::decimal(n), crate::ui::ime::alt_entry(l).unwrap()),
{
    let t = trim(l);
    lemma_trimmed_clean(l);
    crate::text::lemma_find_char(t, '=');
    let i = find_char(t, '=').unwrap();
    let v0 = t.skip(i + 1);
    assert forall|k: int| 0 <= k < v0.len() implies v0[k] != '\n' by {
        assert(v0[k] == t[i + 1 + k]);
    }
    lemma_trimmed_clean(v0);
    lemma_decimal_digits(n);
    let d = crate::text::decimal(n);
    assert(d.last() == d[d.len() - 1]);
}

/// Renumbering a key list keeps its lines plain, and leaves no `Shift_L`
/// when every `Shift_L` was a numbered entry.
proof fn lemma_renumber(lines: Seq<Seq<char>>, idx: nat)
    requires
        forall|k: int| 0 <= k < lines.len() ==> plain_line(#[trigger] lines[k]),
    ensures
        ({
            let r = crate::ui::ime::renumber_from(lines, idx);
            &&& forall|i: int| 0 <= i < r.len() ==> plain_line(#[trigger] r[i])
            &&& (forall|k: int| 0 <= k < lines.len() && shift_l_line(#[trigger] lines[k], None)
                    ==> crate::ui::ime::alt_entry(lines[k]) is Some)
                ==> !assigns_shift_l(r, None)
            &&& crate::ui::ime::kept_entries(lines) > 0 ==> r.len() > 0
        }),
    decreases lines.len(),
{
    if lines.len() > 0 {
        let l0 = lines[0];
        let rest = lines.drop_first();
        assert forall|k: int| 0 <= k < rest.len() implies plain_line(#[trigger] rest[k]) by {
            assert(rest[k] == lines[k + 1]);
        }
        let r = crate::ui::ime::renumber_from(lines, idx);
        let e = crate::ui::ime::alt_entry(l0);
        assert(plain_line(lines[0]));
        let hyp = forall|k: int| 0 <= k < lines.len() && shift_l_line(#[trigger] lines[k], None)
            ==> crate::ui::ime::alt_entry(lines[k]) is Some;
        if hyp {
            assert forall|k: int| 0 <= k < rest.len() && shift_l_line(#[trigger] rest[k], None)
                implies crate::ui::ime::alt_entry(rest[k]) is Some by {
                assert(rest[k] == lines[k + 1]);
            }
        }
        match e {
            None => {
                lemma_renumber(rest, idx);
                let rr = crate::ui::ime::renumber_from(rest, idx);
                assert(r == seq![l0] + rr);
                assert forall|i: int| 0 <= i < r.len() implies plain_line(#[trigger] r[i]) by {
                    if i > 0 {
                        assert(r[i] == rr[i - 1]);
                    }
                }
                if hyp {
                    assert(!shift_l_line(lines[0], None));
                    if assigns_shift_l(r, None) {
                        let i = choose|i: int| 0 <= i < r.len() && shift_l_line(#[trigger] r[i], None);
                        assert(i > 0);
                        assert(r[i] == rr[i - 1]);
                    }
                }
            },
            Some(v) => {
                if v == shift_l() {
                    lemma_renumber(rest, idx);
                    assert(r == crate::ui::ime::renumber_from(rest, idx));
                } else {
                    lemma_renumber(rest, idx + 1);
                    let rr = crate::ui::ime::renumber_from(rest, idx + 1);
                    let nl = crate::text::decimal(idx) + "="@ + v;
                    assert(r == seq![nl] + rr);
                    lemma_entry_clean(l0, idx);
                    lemma_setting_line(crate::text::decimal(idx), v);
                    assert forall|i: int| 0 <= i < r.len() implies plain_line(#[trigger] r[i]) by {
                        if i > 0 {
                            assert(r[i] == rr[i - 1]);
                        }
                    }
                    if hyp {
                        assert(!shift_l_line(nl, None));
                        if assigns_shift_l(r, None) {
                            let i = choose|i: int| 0 <= i < r.len() && shift_l_line(#[trigger] r[i], None);
                            assert(i > 0);
                            assert(r[i] == rr[i - 1]);
                        }
                    }
                }
            },
        }
    }
}


// ------------------------------------------------------------ the law

/// What the rewrite needs of a configuration, read as sections, for its
/// result to read as the fixed policy: no `[Behavior]` section after the
/// first assigns a policy key; no `[Hotkey]` section after the first assigns
/// `AltTriggerKeys=Shift_L`; and when some alternative trigger key other than
/// `Shift_L` is kept, no `[Hotkey]` section assigns `AltTriggerKeys=Shift_L`
/// and every `Shift_L` in an `[Hotkey/AltTriggerKeys]` list is a numbered
/// entry.
pub open spec fn rewritable(secs: Seq<SectionView>) -> bool {
    let retained = crate::ui::ime::alt_keys_retained(secs);
    &&& later_behavior_silent(secs)
    &&& forall|i: int, j: int|
        0 <= i < j < secs.len() && (#[trigger] secs[i]).header == Some(hotkey_name())
            && (#[trigger] secs[j]).header == Some(hotkey_name())
            ==> !assigns_shift_l(secs[j].lines, Some(alt_key()))
    &&& retained ==> forall|i: int|
        0 <= i < secs.len() && (#[trigger] secs[i]).header == Some(hotkey_name())
            ==> !assigns_shift_l(secs[i].lines, Some(alt_key()))
    &&& retained ==> forall|i: int, k: int|
        0 <= i < secs.len() && secs[i].header == Some(crate::ui::ime::alt_header())
            && 0 <= k < secs[i].lines.len() && #[trigger] shift_l_line(secs[i].lines[k], None)
            ==> crate::ui::ime::alt_entry(secs[i].lines[k]) is Some
}

proof fn lemma_all_lines_no_newline(secs: Seq<SectionView>)
    requires
        forall|i: int| 0 <= i < secs.len() ==> plain_section(#[trigger] secs[i]),
    ensures
        forall|k: int| 0 <= k < all_lines(secs).len() ==> no_newline(#[trigger] all_lines(secs)[k]),
    decreases secs.len(),
{
    if secs.len() > 0 {
        let dl = secs.drop_last();
        assert forall|i: int| 0 <= i < dl.len() implies plain_section(#[trigger] dl[i]) by {
            assert(dl[i] == secs[i]);
        }
        lemma_all_lines_no_newline(dl);
        let s = secs.last();
        assert(plain_section(secs[secs.len() - 1]));
        let a = all_lines(dl);
        let b = section_lines(s);
        reveal_strlit("[");
        reveal_strlit("]");
        assert forall|k: int| 0 <= k < b.len() implies no_newline(#[trigger] b[k]) by {
            match s.header {
                Some(h) => {
                    if k == 0 {
                        let hl = "["@ + h + "]"@;
                        assert forall|m: int| 0 <= m < hl.len() implies hl[m] != '\n' by {
                            if 0 < m < hl.len() - 1 {
                                assert(hl[m] == h[m - 1]);
                            }
                        }
                    } else {
                        assert(b[k] == s.lines[k - 1]);
                    }
                },
                None => {
                    assert(b[k] == s.lines[k]);
                },
            }
        }
        assert forall|k: int| 0 <= k < all_lines(secs).len() implies no_newline(#[trigger] all_lines(secs)[k]) by {
            if k < a.len() {
                assert(all_lines(secs)[k] == a[k]);
            } else {
                assert(all_lines(secs)[k] == b[k - a.len()]);
            }
        }
    }
}

/// Renumbering the key lists keeps the shape, and leaves each list with no
/// `Shift_L` when every `Shift_L` was a numbered entry.
proof fn lemma_renumbered(secs: Seq<SectionView>)
    requires
        well_shaped(secs),
    ensures
        ({
            let r = secs.map_values(|s: SectionView| crate::ui::ime::renumber_section(s));
            &&& well_shaped(r)
            &&& r.len() == secs.len()
            &&& forall|i: int| 0 <= i < secs.len() ==> (#[trigger] r[i]).header == secs[i].header
            &&& forall|i: int| 0 <= i < secs.len() && secs[i].header != Some(crate::ui::ime::alt_header()) ==> #[trigger] r[i] == secs[i]
            &&& forall|i: int| 0 <= i < secs.len() && secs[i].header == Some(crate::ui::ime::alt_header())
                && crate::ui::ime::kept_entries(secs[i].lines) > 0 ==> (#[trigger] r[i]).lines.len() > 0
            &&& forall|i: int| 0 <= i < secs.len() && secs[i].header == Some(crate::ui::ime::alt_header())
                && (forall|k: int| 0 <= k < secs[i].lines.len() && #[trigger] shift_l_line(secs[i].lines[k], None)
                    ==> crate::ui::ime::alt_entry(secs[i].lines[k]) is Some)
                ==> !assigns_shift_l((#[trigger] r[i]).lines, None)
        }),
{
    let r = secs.map_values(|s: SectionView| crate::ui::ime::renumber_section(s));
    assert forall|i: int| 0 <= i < secs.len() implies plain_section(#[trigger] r[i])
        && (secs[i].header == Some(crate::ui::ime::alt_header())
            && (forall|k: int| 0 <= k < secs[i].lines.len() && #[trigger] shift_l_line(secs[i].lines[k], None)
                ==> crate::ui::ime::alt_entry(secs[i].lines[k]) is Some)
            ==> !assigns_shift_l(r[i].lines, None))
        && (secs[i].header == Some(crate::ui::ime::alt_header())
            && crate::ui::ime::kept_entries(secs[i].lines) > 0 ==> r[i].lines.len() > 0) by {
        let s = secs[i];
        assert(plain_section(s));
        if s.header == Some(crate::ui::ime::alt_header()) {
            assert forall|k: int| 0 <= k < s.lines.len() implies plain_line(#[trigger] s.lines[k]) by {}
            lemma_renumber(s.lines, 0);
            let rl = crate::ui::ime::renumber_from(s.lines, 0);
            assert(r[i].lines == rl);
            assert forall|k: int| 0 <= k < rl.len() implies !is_header_line(trim(#[trigger] rl[k])) && no_newline(rl[k]) by {
                assert(plain_line(rl[k]));
            }
        }
    }
}

/// With no alternative trigger key other than `Shift_L` kept, the key lists
/// go and `[Hotkey]` gets an empty `AltTriggerKeys=`; the result is ready
/// for the policy keys.
proof fn lemma_hotkey_step(secs0: Seq<SectionView>)
    requires
        well_shaped(secs0),
        rewritable(secs0),
        !crate::ui::ime::alt_keys_retained(secs0),
    ensures
        ready_for_policy(crate::ui::ime::spec_set_ini_key(
            crate::ui::ime::drop_alt(secs0.map_values(|s: SectionView| crate::ui::ime::renumber_section(s)), false),
            hotkey_name(), alt_key(), ""@)),
{
    lemma_names_distinct();
    lemma_clean_settings();
    let secs1 = secs0.map_values(|s: SectionView| crate::ui::ime::renumber_section(s));
    lemma_renumbered(secs0);
    let t0 = crate::ui::ime::drop_alt(secs1, false);
    let f = lemma_drop_alt(secs1, false);
    lemma_drop_alt_shape(secs1, false);
    reveal_strlit("ShareInputState");
    reveal_strlit("AltTriggerKeys");
    assert(share_key() != alt_key()) by {
        assert(share_key().len() != alt_key().len());
    }
    let u = crate::ui::ime::spec_set_ini_key(t0, hotkey_name(), alt_key(), ""@);
    let t = lemma_set_section_key(t0, hotkey_name(), alt_key(), ""@, share_key());
    let nl = alt_key() + "="@ + ""@;
    lemma_setting_line(alt_key(), ""@);
    crate::ui::ime::lemma_section_index(t0, hotkey_name());
    // no key list survives
    assert forall|j: int| 0 <= j < t0.len() implies (#[trigger] t0[j]).header != Some(crate::ui::ime::alt_header()) by {
        assert(t0[j] == secs1[f(j)]);
    }
    // the [Hotkey] section at t declares an empty list
    assert(declares_alt_keys(u[t]));
    assert(!assigns_shift_l(u[t].lines, Some(alt_key()))) by {
        if assigns_shift_l(u[t].lines, Some(alt_key())) {
            let i = choose|i: int| 0 <= i < u[t].lines.len() && shift_l_line(#[trigger] u[t].lines[i], Some(alt_key()));
            assert(u[t].lines[i] == nl);
        }
    }
    assert forall|j: int| 0 <= j < u.len() implies no_shift_l(#[trigger] u[j]) by {
        if j != t {
            lemma_push_blank(t0[j]);
            assert(u[j].header == t0[j].header);
            if u[j].header == Some(hotkey_name()) {
                let i = crate::ui::ime::section_index(t0, hotkey_name()).unwrap();
                assert(i == t);
                assert(i < j);
                assert(f(i) < f(j));
                assert(secs1[f(i)] == secs0[f(i)]);
                assert(secs1[f(j)] == secs0[f(j)]);
                assert(!assigns_shift_l(secs0[f(j)].lines, Some(alt_key())));
            }
        }
    }
    assert forall|i: int, j: int|
        0 <= i < j < u.len() && (#[trigger] u[i]).header == Some(behavior_name())
            && (#[trigger] u[j]).header == Some(behavior_name()) implies policy_silent(u[j]) by {
        assert(i != t && j != t);
        lemma_push_blank(t0[j]);
        assert(f(i) < f(j));
        assert(secs1[f(i)] == secs0[f(i)]);
        assert(secs1[f(j)] == secs0[f(j)]);
        assert(secs0[f(i)].header == Some(behavior_name()));
        assert(policy_silent(secs0[f(j)]));
    }
}

/// With some alternative trigger key other than `Shift_L` kept, the emptied
/// key lists go; the result is ready for the policy keys.
proof fn lemma_kept_keys_step(secs0: Seq<SectionView>)
    requires
        well_shaped(secs0),
        rewritable(secs0),
        crate::ui::ime::alt_keys_retained(secs0),
    ensures
        ready_for_policy(
            crate::ui::ime::drop_alt(secs0.map_values(|s: SectionView| crate::ui::ime::renumber_section(s)), true)),
{
    lemma_names_distinct();
    let secs1 = secs0.map_values(|s: SectionView| crate::ui::ime::renumber_section(s));
    lemma_renumbered(secs0);
    let t0 = crate::ui::ime::drop_alt(secs1, true);
    let f = lemma_drop_alt(secs1, true);
    lemma_drop_alt_shape(secs1, true);
    let a = choose|i: int| 0 <= i < secs0.len() && (#[trigger] secs0[i]).header == Some(crate::ui::ime::alt_header())
        && crate::ui::ime::kept_entries(secs0[i].lines) > 0;
    assert(secs1[a].lines.len() > 0);
    assert(!dropped(secs1[a], true));
    let ia = choose|i: int| 0 <= i < t0.len() && #[trigger] f(i) == a;
    assert(declares_alt_keys(t0[ia]));
    assert forall|j: int| 0 <= j < t0.len() implies no_shift_l(#[trigger] t0[j]) by {
        let k = f(j);
        assert(t0[j] == secs1[k]);
        if secs0[k].header == Some(crate::ui::ime::alt_header()) {
            assert forall|m: int| 0 <= m < secs0[k].lines.len() && #[trigger] shift_l_line(secs0[k].lines[m], None)
                implies crate::ui::ime::alt_entry(secs0[k].lines[m]) is Some by {}
        } else {
            assert(secs1[k] == secs0[k]);
        }
    }
    assert forall|i: int, j: int|
        0 <= i < j < t0.len() && (#[trigger] t0[i]).header == Some(behavior_name())
            && (#[trigger] t0[j]).header == Some(behavior_name()) implies policy_silent(t0[j]) by {
        assert(f(i) < f(j));
        assert(secs1[f(i)] == secs0[f(i)]);
        assert(secs1[f(j)] == secs0[f(j)]);
        assert(secs0[f(i)].header == Some(behavior_name()));
    }
}

/// The rewrite fixes the input-state policy: its result reads as
/// `ShareInputState=All`, `ActiveByDefault=True` and no left-Shift English
/// toggle, for every configuration that `rewritable` admits.
pub proof fn law_patch_fixes_policy(content: Seq<char>)
    requires
        rewritable(crate::ui::ime::split_sections(lines(content))),
    ensures
        crate::ui::ime::spec_parse_fcitx5_behavior(crate::ui::ime::spec_patch_fcitx5_behavior(content))
            == ("All"@, true, false),
{
    let secs0 = crate::ui::ime::split_sections(lines(content));
    crate::runner::lemma_lines_have_no_newline(content);
    lemma_split_sections_shape(lines(content));
    let secs1 = secs0.map_values(|s: SectionView| crate::ui::ime::renumber_section(s));
    let retained = crate::ui::ime::alt_keys_retained(secs0);
    let secs2 = if retained {
        crate::ui::ime::drop_alt(secs1, true)
    } else {
        crate::ui::ime::spec_set_ini_key(crate::ui::ime::drop_alt(secs1, false), "Hotkey"@, "AltTriggerKeys"@, ""@)
    };
    if retained {
        lemma_kept_keys_step(secs0);
    } else {
        lemma_hotkey_step(secs0);
    }
    lemma_policy_steps(secs2);
    let p = crate::ui::ime::patched_sections(content);
    assert(p == crate::ui::ime::spec_set_ini_key(
        crate::ui::ime::spec_set_ini_key(secs2, behavior_name(), share_key(), "All"@),
        behavior_name(), active_key(), "True"@));
    lemma_fixed_sections_read(p);
    lemma_all_lines_no_newline(p);
    let out = render(p);
    let cut = content.len() > 0 && content.last() != '\n' && out.len() > 0;
    lemma_read_written(p, cut);
}


// ------------------------------------------------------------ reading back

proof fn lemma_lines_len(s: Seq<char>)
    ensures
        lines(s).len() <= s.len(),
    decreases s.len(),
{
    if s.len() > 0 {
        crate::text::lemma_find_char(s, '\n');
        if let Some(i) = find_char(s, '\n') {
            lemma_lines_len(s.skip(i + 1));
        }
    }
}

/// Lines that are not headers go to the last section.
proof fn lemma_split_append_plain(x: Seq<Seq<char>>, ls: Seq<Seq<char>>)
    requires
        forall|k: int| 0 <= k < ls.len() ==> !is_header_line(trim(#[trigger] ls[k])),
    ensures
        ({
            let sx = crate::ui::ime::split_sections(x);
            let n = sx.len() - 1;
            crate::ui::ime::split_sections(x + ls)
                == sx.update(n, SectionView { header: sx[n].header, lines: sx[n].lines + ls })
        }),
    decreases ls.len(),
{
    crate::ui::ime::lemma_split_sections_len(x);
    let sx = crate::ui::ime::split_sections(x);
    let n = sx.len() - 1;
    if ls.len() == 0 {
        assert(x + ls =~= x);
        assert(sx[n].lines + ls =~= sx[n].lines);
        assert(sx.update(n, SectionView { header: sx[n].header, lines: sx[n].lines + ls }) =~= sx);
    } else {
        let dl = ls.drop_last();
        assert forall|k: int| 0 <= k < dl.len() implies !is_header_line(trim(#[trigger] dl[k])) by {
            assert(dl[k] == ls[k]);
        }
        lemma_split_append_plain(x, dl);
        assert((x + ls).drop_last() =~= x + dl);
        assert((x + ls).last() == ls.last());
        assert(!is_header_line(trim(ls[ls.len() - 1])));
        let prev = sx.update(n, SectionView { header: sx[n].header, lines: sx[n].lines + dl });
        assert(crate::ui::ime::split_sections(x + ls) == crate::ui::ime::add_line(prev, ls.last()));
        assert((sx[n].lines + dl).push(ls.last()) =~= sx[n].lines + ls);
        assert(crate::ui::ime::add_line(prev, ls.last())
            =~= sx.update(n, SectionView { header: sx[n].header, lines: sx[n].lines + ls }));
    }
}

/// Written sections read back as themselves.
proof fn lemma_resplit(secs: Seq<SectionView>)
    requires
        well_shaped(secs),
    ensures
        crate::ui::ime::split_sections(all_lines(secs)) == secs,
    decreases secs.len(),
{
    let e = Seq::<Seq<char>>::empty();
    if secs.len() == 1 {
        let s0 = secs[0];
        assert(plain_section(secs[0]));
        assert(all_lines(secs.drop_last()) =~= e);
        assert(section_lines(s0) =~= s0.lines);
        assert(all_lines(secs) =~= e + s0.lines);
        lemma_split_append_plain(e, s0.lines);
        let sx = crate::ui::ime::split_sections(e);
        assert(sx[0].lines + s0.lines =~= s0.lines);
        assert(secs =~= sx.update(0, SectionView { header: sx[0].header, lines: sx[0].lines + s0.lines }));
    } else {
        let dl = secs.drop_last();
        let s = secs.last();
        assert(dl[0] == secs[0]);
        assert forall|i: int| 0 < i < dl.len() implies (#[trigger] dl[i]).header is Some by {
            assert(dl[i] == secs[i]);
        }
        assert forall|i: int| 0 <= i < dl.len() implies plain_section(#[trigger] dl[i]) by {
            assert(dl[i] == secs[i]);
        }
        lemma_resplit(dl);
        assert(secs[secs.len() - 1] == s);
        assert(plain_section(secs[secs.len() - 1]));
        let h = s.header.unwrap();
        let hl = "["@ + h + "]"@;
        lemma_header_line(h);
        let a = all_lines(dl);
        assert(all_lines(secs) =~= (a + seq![hl]) + s.lines);
        // the header
        assert((a + seq![hl]).drop_last() =~= a);
        assert((a + seq![hl]).last() == hl);
        let withh = dl.push(SectionView { header: Some(h), lines: e });
        assert(crate::ui::ime::split_sections(a + seq![hl]) == withh);
        lemma_split_append_plain(a + seq![hl], s.lines);
        let n = withh.len() - 1;
        assert(withh[n].lines + s.lines =~= s.lines);
        assert(withh.update(n, SectionView { header: withh[n].header, lines: withh[n].lines + s.lines }) =~= secs);
    }
}

proof fn lemma_digit_value_char(d: nat)
    requires
        d < 10,
    ensures
        crate::text::digit_value(crate::text::digit_char(d)) == d,
        crate::text::is_digit(crate::text::digit_char(d)),
{
}

proof fn lemma_decimal_value(n: nat)
    ensures
        crate::text::all_digits(crate::text::decimal(n)),
        crate::text::digits_value(crate::text::decimal(n)) == n,
    decreases n,
{
    lemma_digit_value_char(n % 10);
    if n >= 10 {
        lemma_decimal_value(n / 10);
        let d = crate::text::decimal(n / 10);
        let dn = crate::text::decimal(n);
        assert(dn.drop_last() =~= d);
        assert(dn.last() == crate::text::digit_char(n % 10));
        assert(n / 10 * 10 + n % 10 == n) by (nonlinear_arith);
        assert(crate::text::digits_value(dn) == crate::text::digits_value(dn.drop_last()) * 10
            + crate::text::digit_value(dn.last()));
        assert(crate::text::digits_value(dn.drop_last()) == n / 10);
        assert(crate::text::digit_value(dn.last()) == n % 10);
        assert forall|i: int| 0 <= i < dn.len() implies crate::text::is_digit(#[trigger] dn[i]) by {
            if i < d.len() {
                assert(dn[i] == d[i]);
            }
        }
    } else {
        let dn = crate::text::decimal(n);
        assert(dn.drop_last() =~= Seq::<char>::empty());
        assert(n % 10 == n);
        assert(dn.last() == crate::text::digit_char(n));
        assert(crate::text::digits_value(dn) == crate::text::digits_value(dn.drop_last()) * 10
            + crate::text::digit_value(dn.last()));
        assert(crate::text::digits_value(dn.drop_last()) == 0);
    }
}

proof fn lemma_parse_decimal(n: nat)
    requires
        n <= usize::MAX,
    ensures
        crate::text::parse_usize(crate::text::decimal(n)) == Some(n as usize),
{
    lemma_decimal_value(n);
    lemma_decimal_digits(n);
}

/// A renumbered entry is an entry with the same value.
proof fn lemma_entry_line(i: nat, v: Seq<char>)
    requires
        i <= usize::MAX,
        clean_setting(crate::text::decimal(i), v),
    ensures
        crate::ui::ime::alt_entry(crate::text::decimal(i) + "="@ + v) == Some(v),
{
    lemma_setting_line(crate::text::decimal(i), v);
    lemma_parse_decimal(i);
}

/// Renumbering a renumbered list changes nothing.
proof fn lemma_renumber_twice(ls: Seq<Seq<char>>, i: nat)
    requires
        forall|k: int| 0 <= k < ls.len() ==> plain_line(#[trigger] ls[k]),
        i + ls.len() <= usize::MAX + 1,
    ensures
        crate::ui::ime::renumber_from(crate::ui::ime::renumber_from(ls, i), i) == crate::ui::ime::renumber_from(ls, i),
    decreases ls.len(),
{
    if ls.len() > 0 {
        let l0 = ls[0];
        let rest = ls.drop_first();
        assert forall|k: int| 0 <= k < rest.len() implies plain_line(#[trigger] rest[k]) by {
            assert(rest[k] == ls[k + 1]);
        }
        assert(plain_line(ls[0]));
        let r = crate::ui::ime::renumber_from(ls, i);
        match crate::ui::ime::alt_entry(l0) {
            None => {
                lemma_renumber_twice(rest, i);
                let x = crate::ui::ime::renumber_from(rest, i);
                assert(r == seq![l0] + x);
                assert(r[0] == l0);
                assert(r.drop_first() =~= x);
            },
            Some(v) => {
                if v == shift_l() {
                    lemma_renumber_twice(rest, i);
                } else {
                    lemma_renumber_twice(rest, i + 1);
                    let x = crate::ui::ime::renumber_from(rest, i + 1);
                    let nl = crate::text::decimal(i) + "="@ + v;
                    assert(r == seq![nl] + x);
                    assert(r[0] == nl);
                    assert(r.drop_first() =~= x);
                    lemma_entry_clean(l0, i);
                    lemma_entry_line(i, v);
                }
            },
        }
    }
}

/// A line that is no entry, at the end of a list, stays at its end.
proof fn lemma_renumber_trailing(ls: Seq<Seq<char>>, x: Seq<char>, i: nat)
    requires
        crate::ui::ime::alt_entry(x) is None,
    ensures
        crate::ui::ime::renumber_from(ls + seq![x], i) == crate::ui::ime::renumber_from(ls, i) + seq![x],
    decreases ls.len(),
{
    if ls.len() == 0 {
        let one = seq![x];
        assert(ls + one =~= one);
        assert(one[0] == x);
        assert(one.drop_first() =~= Seq::<Seq<char>>::empty());
        assert(crate::ui::ime::renumber_from(one, i) =~= seq![x] + crate::ui::ime::renumber_from(Seq::<Seq<char>>::empty(), i));
        assert(crate::ui::ime::renumber_from(ls, i) =~= Seq::<Seq<char>>::empty());
        assert(crate::ui::ime::renumber_from(ls + one, i) =~= crate::ui::ime::renumber_from(ls, i) + one);
    } else {
        let lx = ls + seq![x];
        assert(lx[0] == ls[0]);
        assert(lx.drop_first() =~= ls.drop_first() + seq![x]);
        lemma_renumber_trailing(ls.drop_first(), x, i);
        lemma_renumber_trailing(ls.drop_first(), x, i + 1);
        let r = crate::ui::ime::renumber_from(lx, i);
        match crate::ui::ime::alt_entry(ls[0]) {
            None => {
                assert(r =~= crate::ui::ime::renumber_from(ls, i) + seq![x]);
            },
            Some(v) => {
                assert(r =~= crate::ui::ime::renumber_from(ls, i) + seq![x]);
            },
        }
    }
}


// ------------------------------------------------------------ settled configurations

pub open spec fn no_cr_end(l: Seq<char>) -> bool {
    !(l.len() > 0 && l.last() == '\r')
}

/// No line of any section ends with a carriage return.
pub open spec fn cr_free(secs: Seq<SectionView>) -> bool {
    forall|i: int, k: int| 0 <= i < secs.len() && 0 <= k < secs[i].lines.len() ==> no_cr_end(#[trigger] secs[i].lines[k])
}

proof fn lemma_split_sections_extra(ls: Seq<Seq<char>>)
    ensures
        forall|i: int| 0 <= i < crate::ui::ime::split_sections(ls).len()
            ==> (#[trigger] crate::ui::ime::split_sections(ls)[i]).lines.len() <= ls.len(),
        (forall|k: int| 0 <= k < ls.len() ==> no_cr_end(#[trigger] ls[k])) ==> cr_free(crate::ui::ime::split_sections(ls)),
    decreases ls.len(),
{
    crate::ui::ime::lemma_split_sections_len(ls);
    if ls.len() > 0 {
        let dl = ls.drop_last();
        lemma_split_sections_extra(dl);
        crate::ui::ime::lemma_split_sections_len(dl);
        let secs = crate::ui::ime::split_sections(dl);
        let r = crate::ui::ime::split_sections(ls);
        let l = ls.last();
        let t = trim(l);
        if (forall|k: int| 0 <= k < ls.len() ==> no_cr_end(#[trigger] ls[k])) {
            assert forall|k: int| 0 <= k < dl.len() implies no_cr_end(#[trigger] dl[k]) by {
                assert(dl[k] == ls[k]);
            }
            assert(no_cr_end(ls[ls.len() - 1]));
        }
        if is_header_line(t) {
            assert forall|i: int| 0 <= i < r.len() implies (#[trigger] r[i]).lines.len() <= ls.len() by {
                if i < secs.len() {
                    assert(r[i] == secs[i]);
                }
            }
            if (forall|k: int| 0 <= k < ls.len() ==> no_cr_end(#[trigger] ls[k])) {
                assert forall|i: int, k: int| 0 <= i < r.len() && 0 <= k < r[i].lines.len() implies no_cr_end(#[trigger] r[i].lines[k]) by {
                    if i < secs.len() {
                        assert(r[i] == secs[i]);
                    }
                }
            }
        } else {
            let n = secs.len() - 1;
            assert forall|i: int| 0 <= i < r.len() implies (#[trigger] r[i]).lines.len() <= ls.len() by {
                if i != n {
                    assert(r[i] == secs[i]);
                }
            }
            if (forall|k: int| 0 <= k < ls.len() ==> no_cr_end(#[trigger] ls[k])) {
                assert forall|i: int, k: int| 0 <= i < r.len() && 0 <= k < r[i].lines.len() implies no_cr_end(#[trigger] r[i].lines[k]) by {
                    if i != n {
                        assert(r[i] == secs[i]);
                    } else if k < secs[n].lines.len() {
                        assert(r[i].lines[k] == secs[n].lines[k]);
                    }
                }
            }
        }
    }
}

/// Renumbering keeps lines free of a final `\r`, and keeps the count of
/// kept entries.
proof fn lemma_renumber_extra(ls: Seq<Seq<char>>, idx: nat)
    requires
        forall|k: int| 0 <= k < ls.len() ==> plain_line(#[trigger] ls[k]),
    ensures
        ({
            let r = crate::ui::ime::renumber_from(ls, idx);
            &&& (forall|k: int| 0 <= k < ls.len() ==> no_cr_end(#[trigger] ls[k]))
                ==> forall|i: int| 0 <= i < r.len() ==> no_cr_end(#[trigger] r[i])
            &&& idx + ls.len() <= usize::MAX + 1
                ==> crate::ui::ime::kept_entries(r) == crate::ui::ime::kept_entries(ls)
        }),
    decreases ls.len(),
{
    if ls.len() > 0 {
        let l0 = ls[0];
        let rest = ls.drop_first();
        assert forall|k: int| 0 <= k < rest.len() implies plain_line(#[trigger] rest[k]) by {
            assert(rest[k] == ls[k + 1]);
        }
        assert(plain_line(ls[0]));
        let r = crate::ui::ime::renumber_from(ls, idx);
        if (forall|k: int| 0 <= k < ls.len() ==> no_cr_end(#[trigger] ls[k])) {
            assert forall|k: int| 0 <= k < rest.len() implies no_cr_end(#[trigger] rest[k]) by {
                assert(rest[k] == ls[k + 1]);
            }
            assert(no_cr_end(ls[0]));
        }
        match crate::ui::ime::alt_entry(l0) {
            None => {
                lemma_renumber_extra(rest, idx);
                let x = crate::ui::ime::renumber_from(rest, idx);
                assert(r == seq![l0] + x);
                assert(r[0] == l0);
                assert(r.drop_first() =~= x);
                assert forall|i: int| 0 < i < r.len() implies r[i] == x[i - 1] by {}
            },
            Some(v) => {
                if v == shift_l() {
                    lemma_renumber_extra(rest, idx);
                } else {
                    lemma_renumber_extra(rest, idx + 1);
                    let x = crate::ui::ime::renumber_from(rest, idx + 1);
                    let nl = crate::text::decimal(idx) + "="@ + v;
                    assert(r == seq![nl] + x);
                    assert(r[0] == nl);
                    assert(r.drop_first() =~= x);
                    assert forall|i: int| 0 < i < r.len() implies r[i] == x[i - 1] by {}
                    lemma_entry_clean(l0, idx);
                    lemma_setting_line(crate::text::decimal(idx), v);
                    if idx + ls.len() <= usize::MAX + 1 {
                        lemma_entry_line(idx, v);
                    }
                }
            },
        }
    }
}

proof fn lemma_kept_trailing(ls: Seq<Seq<char>>, x: Seq<char>)
    requires
        crate::ui::ime::alt_entry(x) is None,
    ensures
        crate::ui::ime::kept_entries(ls.push(x)) == crate::ui::ime::kept_entries(ls),
    decreases ls.len(),
{
    let lx = ls.push(x);
    if ls.len() == 0 {
        assert(lx.drop_first() =~= Seq::<Seq<char>>::empty());
        assert(lx[0] == x);
        assert(crate::ui::ime::kept_entries(lx.drop_first()) == 0);
        assert(crate::ui::ime::kept_entries(ls) == 0);
    } else {
        assert(lx[0] == ls[0]);
        assert(lx.drop_first() =~= ls.drop_first().push(x));
        lemma_kept_trailing(ls.drop_first(), x);
    }
}

/// A section's key set to `key=value`, by exactly one line.
pub open spec fn key_settled(s: SectionView, key: Seq<char>, value: Seq<char>) -> bool {
    &&& key_count(s.lines, key) == 1
    &&& forall|k: int| 0 <= k < s.lines.len() && crate::ui::ime::is_key_line(#[trigger] s.lines[k], key)
        ==> s.lines[k] == key + "="@ + value
}

/// A key list that renumbering leaves as it is, and that is not empty.
pub open spec fn list_settled(s: SectionView) -> bool {
    s.header == Some(crate::ui::ime::alt_header())
        ==> s.lines.len() > 0 && crate::ui::ime::renumber_from(s.lines, 0) == s.lines
}

proof fn lemma_push_blank_settled(s: SectionView, key: Seq<char>, value: Seq<char>)
    ensures
        key_count(push_blank(s).lines, key) == key_count(s.lines, key),
        key_settled(s, key, value) ==> key_settled(push_blank(s), key, value),
        list_settled(s) ==> list_settled(push_blank(s)),
        crate::ui::ime::kept_entries(push_blank(s).lines) == crate::ui::ime::kept_entries(s.lines),
{
    let e = Seq::<char>::empty();
    let ls = push_blank(s).lines;
    assert(trim(e) =~= e) by {
        assert(trim_start(e) == e);
        assert(trim_end(e) == e);
    }
    assert(split_once(e, '=') is None);
    assert(!crate::ui::ime::is_key_line(e, key));
    assert(crate::ui::ime::alt_entry(e) is None);
    assert(ls =~= s.lines + seq![e]);
    lemma_key_count_append(s.lines, seq![e], key);
    let one = seq![e];
    assert(one.drop_first() =~= Seq::<Seq<char>>::empty());
    assert(key_count(one.drop_first(), key) == 0);
    assert(one[0] == e);
    assert(key_count(one, key) == 0);
    lemma_kept_trailing(s.lines, e);
    if key_settled(s, key, value) {
        assert forall|k: int| 0 <= k < ls.len() && crate::ui::ime::is_key_line(#[trigger] ls[k], key)
            implies ls[k] == key + "="@ + value by {
            if k < s.lines.len() {
                assert(ls[k] == s.lines[k]);
            }
        }
    }
    if list_settled(s) && s.header == Some(crate::ui::ime::alt_header()) {
        lemma_renumber_trailing(s.lines, e, 0);
    }
}

/// Replacing the one line of a key by itself changes nothing.
proof fn lemma_replace_settled(ls: Seq<Seq<char>>, key: Seq<char>, nl: Seq<char>, found: bool)
    requires
        key_count(ls, key) == (if found { 0nat } else { 1nat }),
        forall|k: int| 0 <= k < ls.len() && crate::ui::ime::is_key_line(#[trigger] ls[k], key) ==> ls[k] == nl,
    ensures
        crate::ui::ime::replace_key_lines(ls, key, nl, found) == ls,
    decreases ls.len(),
{
    if ls.len() > 0 {
        let rest = ls.drop_first();
        assert forall|k: int| 0 <= k < rest.len() && crate::ui::ime::is_key_line(#[trigger] rest[k], key) implies rest[k] == nl by {
            assert(rest[k] == ls[k + 1]);
        }
        let is_k = crate::ui::ime::is_key_line(ls[0], key);
        lemma_replace_settled(rest, key, nl, found || is_k);
        if is_k {
            assert(ls[0] == nl);
        }
        assert(crate::ui::ime::replace_key_lines(ls, key, nl, found) =~= ls);
    } else {
        assert(crate::ui::ime::replace_key_lines(ls, key, nl, found) =~= ls);
    }
}

/// Setting a key that is already set, by one line, changes nothing.
proof fn lemma_set_settled(secs: Seq<SectionView>, name: Seq<char>, key: Seq<char>, value: Seq<char>)
    requires
        crate::ui::ime::section_index(secs, name) is Some,
        key_settled(secs[crate::ui::ime::section_index(secs, name).unwrap()], key, value),
    ensures
        crate::ui::ime::spec_set_ini_key(secs, name, key, value) == secs,
{
    crate::ui::ime::lemma_section_index(secs, name);
    let i = crate::ui::ime::section_index(secs, name).unwrap();
    let ls = secs[i].lines;
    let nl = key + "="@ + value;
    lemma_key_count_zero(ls, key);
    lemma_replace_settled(ls, key, nl, false);
    assert(crate::ui::ime::set_key_lines(ls, key, nl) == ls);
    assert(crate::ui::ime::spec_set_ini_key(secs, name, key, value) =~= secs);
}

proof fn lemma_drop_alt_none(secs: Seq<SectionView>, only_empty: bool)
    requires
        forall|i: int| 0 <= i < secs.len() ==> !dropped(#[trigger] secs[i], only_empty),
    ensures
        crate::ui::ime::drop_alt(secs, only_empty) == secs,
    decreases secs.len(),
{
    if secs.len() > 0 {
        let dl = secs.drop_last();
        assert forall|i: int| 0 <= i < dl.len() implies !dropped(#[trigger] dl[i], only_empty) by {
            assert(dl[i] == secs[i]);
        }
        lemma_drop_alt_none(dl, only_empty);
        assert(!dropped(secs[secs.len() - 1], only_empty));
        assert(crate::ui::ime::drop_alt(secs, only_empty) =~= secs);
    }
}

/// A configuration that the rewrite leaves as it is.
pub open spec fn settled(secs: Seq<SectionView>) -> bool {
    let retained = crate::ui::ime::alt_keys_retained(secs);
    &&& well_shaped(secs)
    &&& forall|i: int| 0 <= i < secs.len() ==> list_settled(#[trigger] secs[i])
    &&& (forall|i: int| 0 <= i < secs.len() ==> (#[trigger] secs[i]).header != Some(crate::ui::ime::alt_header())) || retained
    &&& !retained ==> (crate::ui::ime::section_index(secs, hotkey_name()) matches Some(h)
        && key_settled(secs[h], alt_key(), ""@))
    &&& crate::ui::ime::section_index(secs, behavior_name()) matches Some(b)
        && key_settled(secs[b], share_key(), "All"@) && key_settled(secs[b], active_key(), "True"@)
}

/// The rewrite leaves a settled configuration as it is.
proof fn lemma_patch_settled(content: Seq<char>)
    requires
        settled(crate::ui::ime::split_sections(lines(content))),
    ensures
        crate::ui::ime::patched_sections(content) == crate::ui::ime::split_sections(lines(content)),
{
    let secs = crate::ui::ime::split_sections(lines(content));
    let retained = crate::ui::ime::alt_keys_retained(secs);
    let secs1 = secs.map_values(|s: SectionView| crate::ui::ime::renumber_section(s));
    assert(secs1 =~= secs) by {
        assert forall|i: int| 0 <= i < secs.len() implies secs1[i] == secs[i] by {
            assert(list_settled(secs[i]));
        }
    }
    let secs2 = if retained {
        crate::ui::ime::drop_alt(secs1, true)
    } else {
        crate::ui::ime::spec_set_ini_key(crate::ui::ime::drop_alt(secs1, false), "Hotkey"@, "AltTriggerKeys"@, ""@)
    };
    if retained {
        assert forall|i: int| 0 <= i < secs.len() implies !dropped(#[trigger] secs[i], true) by {
            assert(list_settled(secs[i]));
        }
        lemma_drop_alt_none(secs, true);
    } else {
        assert forall|i: int| 0 <= i < secs.len() implies !dropped(#[trigger] secs[i], false) by {}
        lemma_drop_alt_none(secs, false);
        lemma_set_settled(secs, hotkey_name(), alt_key(), ""@);
    }
    assert(secs2 == secs);
    lemma_set_settled(secs, behavior_name(), share_key(), "All"@);
    lemma_set_settled(secs, behavior_name(), active_key(), "True"@);
}


/// Setting a key in a section keeps, in every section, what renumbering,
/// a later setting of another key and reading back need.
proof fn lemma_set_keeps(secs: Seq<SectionView>, name: Seq<char>, key: Seq<char>, value: Seq<char>, key2: Seq<char>) -> (t: int)
    requires
        well_shaped(secs),
        clean_setting(key, value),
        key_like(key2),
        key2 != key,
        no_newline(name),
        name != crate::ui::ime::alt_header(),
    ensures
        ({
            let r = crate::ui::ime::spec_set_ini_key(secs, name, key, value);
            &&& well_shaped(r)
            &&& 0 <= t < r.len()
            &&& r[t].header == Some(name)
            &&& crate::ui::ime::section_index(r, name) == Some(t)
            &&& key_settled(r[t], key, value)
            &&& (crate::ui::ime::section_index(secs, name) matches Some(i) ==> i == t
                && forall|k: Seq<char>, v: Seq<char>| key_like(k) && k != key && key_settled(secs[i], k, v)
                    ==> #[trigger] key_settled(r[t], k, v))
            &&& (crate::ui::ime::section_index(secs, name) is None ==> t == secs.len())
            &&& r.len() <= secs.len() + 1
            &&& (r.len() == secs.len() + 1 ==> t == secs.len())
            &&& forall|j: int| 0 <= j < r.len() && j != t ==> (#[trigger] r[j]).header == secs[j].header
            &&& forall|j: int| 0 <= j < r.len() ==> list_settled(#[trigger] r[j])
                || (j < secs.len() && j != t && !list_settled(secs[j]))
            &&& forall|j: int| 0 <= j < r.len() && j != t ==> crate::ui::ime::kept_entries((#[trigger] r[j]).lines)
                == crate::ui::ime::kept_entries(secs[j].lines)
            &&& forall|j: int, k: Seq<char>, v: Seq<char>| 0 <= j < r.len() && j != t && key_settled(secs[j], k, v)
                ==> #[trigger] key_settled(r[j], k, v)
            &&& cr_free(secs) ==> cr_free(r)
        }),
{
    let t = lemma_set_section_key(secs, name, key, value, key2);
    lemma_set_ini_key_shape(secs, name, key, value);
    crate::ui::ime::lemma_section_index(secs, name);
    let r = crate::ui::ime::spec_set_ini_key(secs, name, key, value);
    let nl = key + "="@ + value;
    lemma_setting_line(key, value);
    let found = crate::ui::ime::section_index(secs, name);
    assert forall|i: int| 0 <= i < r[t].lines.len() && crate::ui::ime::is_key_line(#[trigger] r[t].lines[i], key)
        implies r[t].lines[i] == nl by {
        lemma_key_line(r[t].lines[i], key);
    }
    if let Some(m) = found {
        assert forall|k2: Seq<char>, v2: Seq<char>| key_like(k2) && k2 != key && key_settled(secs[m], k2, v2)
            implies #[trigger] key_settled(r[t], k2, v2) by {
            lemma_set_key_lines(secs[m].lines, key, value, k2);
            assert forall|i: int| 0 <= i < r[t].lines.len() && crate::ui::ime::is_key_line(#[trigger] r[t].lines[i], k2)
                implies r[t].lines[i] == k2 + "="@ + v2 by {
                lemma_key_line(nl, k2);
                if r[t].lines[i] != nl {
                    let q = choose|q: int| 0 <= q < secs[m].lines.len() && r[t].lines[i] == secs[m].lines[q];
                }
            }
        }
    }
    assert forall|j: int| 0 <= j < r.len() implies list_settled(#[trigger] r[j])
        || (j < secs.len() && j != t && !list_settled(secs[j])) by {
        if j != t {
            lemma_push_blank_settled(secs[j], key, value);
        }
    }
    assert forall|j: int| 0 <= j < r.len() && j != t implies crate::ui::ime::kept_entries((#[trigger] r[j]).lines)
        == crate::ui::ime::kept_entries(secs[j].lines) by {
        lemma_push_blank_settled(secs[j], key, value);
    }
    assert forall|j: int, k: Seq<char>, v: Seq<char>| 0 <= j < r.len() && j != t && key_settled(secs[j], k, v)
        implies #[trigger] key_settled(r[j], k, v) by {
        lemma_push_blank_settled(secs[j], k, v);
    }
    if cr_free(secs) {
        assert forall|j: int, k: int| 0 <= j < r.len() && 0 <= k < r[j].lines.len() implies no_cr_end(#[trigger] r[j].lines[k]) by {
            if j == t {
                if r[t].lines[k] != nl {
                    let m = found.unwrap();
                    let q = choose|q: int| 0 <= q < secs[m].lines.len() && r[t].lines[k] == secs[m].lines[q];
                    assert(no_cr_end(secs[m].lines[q]));
                }
            } else if r[j] != secs[j] {
                assert(r[j] == push_blank(secs[j]));
                if k < secs[j].lines.len() {
                    assert(r[j].lines[k] == secs[j].lines[k]);
                }
            }
        }
    }
    t
}


/// What the rewrite makes of any configuration is settled.
proof fn lemma_first_pass(content: Seq<char>)
    requires
        content.len() <= usize::MAX,
        forall|k: int| 0 <= k < lines(content).len() ==> no_cr_end(#[trigger] lines(content)[k]),
    ensures
        settled(crate::ui::ime::patched_sections(content)),
        cr_free(crate::ui::ime::patched_sections(content)),
{
    lemma_names_distinct();
    lemma_clean_settings();
    reveal_strlit("ShareInputState");
    reveal_strlit("ActiveByDefault");
    reveal_strlit("AltTriggerKeys");
    assert(share_key() != alt_key()) by {
        assert(share_key().len() != alt_key().len());
    }
    let ls = lines(content);
    crate::runner::lemma_lines_have_no_newline(content);
    lemma_lines_len(content);
    lemma_split_sections_shape(ls);
    lemma_split_sections_extra(ls);
    let secs0 = crate::ui::ime::split_sections(ls);
    let secs1 = secs0.map_values(|s: SectionView| crate::ui::ime::renumber_section(s));
    lemma_renumbered(secs0);
    let retained = crate::ui::ime::alt_keys_retained(secs0);
    // the renumbered lists
    assert forall|i: int| 0 <= i < secs1.len() && (#[trigger] secs1[i]).header == Some(crate::ui::ime::alt_header())
        implies crate::ui::ime::renumber_from(secs1[i].lines, 0) == secs1[i].lines
                && crate::ui::ime::kept_entries(secs1[i].lines) == crate::ui::ime::kept_entries(secs0[i].lines) by {
        let l0 = secs0[i].lines;
        assert(plain_section(secs0[i]));
        assert forall|k: int| 0 <= k < l0.len() implies plain_line(#[trigger] l0[k]) by {}
        lemma_renumber_twice(l0, 0);
        lemma_renumber_extra(l0, 0);
    }
    assert(cr_free(secs1)) by {
        assert forall|i: int, k: int| 0 <= i < secs1.len() && 0 <= k < secs1[i].lines.len() implies no_cr_end(#[trigger] secs1[i].lines[k]) by {
            if secs0[i].header == Some(crate::ui::ime::alt_header()) {
                let l0 = secs0[i].lines;
                assert(plain_section(secs0[i]));
                assert forall|q: int| 0 <= q < l0.len() implies plain_line(#[trigger] l0[q]) by {}
                lemma_renumber_extra(l0, 0);
                assert forall|q: int| 0 <= q < l0.len() implies no_cr_end(#[trigger] l0[q]) by {
                    assert(no_cr_end(secs0[i].lines[q]));
                }
            } else {
                assert(secs1[i] == secs0[i]);
            }
        }
    }
    let t0 = crate::ui::ime::drop_alt(secs1, retained);
    let f = lemma_drop_alt(secs1, retained);
    lemma_drop_alt_shape(secs1, retained);
    assert forall|j: int| 0 <= j < t0.len() implies list_settled(#[trigger] t0[j]) by {
        assert(t0[j] == secs1[f(j)]);
    }
    assert(cr_free(t0)) by {
        assert forall|j: int, k: int| 0 <= j < t0.len() && 0 <= k < t0[j].lines.len() implies no_cr_end(#[trigger] t0[j].lines[k]) by {
            assert(t0[j] == secs1[f(j)]);
            assert(no_cr_end(secs1[f(j)].lines[k]));
        }
    }
    // without kept keys, no list is left
    if !retained {
        assert forall|j: int| 0 <= j < t0.len() implies (#[trigger] t0[j]).header != Some(crate::ui::ime::alt_header()) by {
            assert(t0[j] == secs1[f(j)]);
        }
    }
    // with kept keys, one list keeps them
    let mut w: int = 0;
    if retained {
        let a = choose|i: int| 0 <= i < secs0.len() && (#[trigger] secs0[i]).header == Some(crate::ui::ime::alt_header())
            && crate::ui::ime::kept_entries(secs0[i].lines) > 0;
        assert(secs1[a].lines.len() > 0);
        assert(!dropped(secs1[a], true));
        let ia = choose|i: int| 0 <= i < t0.len() && #[trigger] f(i) == a;
        w = ia;
        assert(t0[w].header == Some(crate::ui::ime::alt_header()));
        assert(crate::ui::ime::kept_entries(t0[w].lines) > 0);
    }
    let x = if retained { t0 } else { crate::ui::ime::spec_set_ini_key(t0, hotkey_name(), alt_key(), ""@) };
    let mut th: int = 0;
    if !retained {
        th = lemma_set_keeps(t0, hotkey_name(), alt_key(), ""@, share_key());
        assert forall|j: int| 0 <= j < x.len() implies (#[trigger] x[j]).header != Some(crate::ui::ime::alt_header()) by {
            if j != th {
                assert(x[j].header == t0[j].header);
            }
        }
    } else {
        assert(x[w].header == Some(crate::ui::ime::alt_header()));
    }
    assert forall|j: int| 0 <= j < x.len() implies list_settled(#[trigger] x[j]) by {
        if !retained {
            assert(list_settled(x[j]) || (j < t0.len() && !list_settled(t0[j])));
        }
    }
    // the policy keys
    let v = crate::ui::ime::spec_set_ini_key(x, behavior_name(), share_key(), "All"@);
    let tb = lemma_set_keeps(x, behavior_name(), share_key(), "All"@, active_key());
    let p = crate::ui::ime::spec_set_ini_key(v, behavior_name(), active_key(), "True"@);
    let tb2 = lemma_set_keeps(v, behavior_name(), active_key(), "True"@, share_key());
    assert(tb2 == tb);
    assert(p == crate::ui::ime::patched_sections(content));
    assert(key_settled(v[tb], share_key(), "All"@));
    assert(key_settled(p[tb], share_key(), "All"@));
    assert(key_settled(p[tb], active_key(), "True"@));
    assert forall|j: int| 0 <= j < p.len() implies list_settled(#[trigger] p[j]) by {
        assert(list_settled(p[j]) || (j < v.len() && j != tb && !list_settled(v[j])));
        if j < v.len() && j != tb {
            assert(list_settled(v[j]) || (j < x.len() && j != tb && !list_settled(x[j])));
        }
    }
    if retained {
        assert(w != tb);
        assert(p[w].header == Some(crate::ui::ime::alt_header()));
        assert(crate::ui::ime::kept_entries(p[w].lines) > 0);
        assert(crate::ui::ime::alt_keys_retained(p));
    } else {
        assert forall|j: int| 0 <= j < p.len() implies (#[trigger] p[j]).header != Some(crate::ui::ime::alt_header()) by {
            if j != tb {
                assert(p[j].header == v[j].header);
                assert(v[j].header == x[j].header);
            }
        }
        assert(!crate::ui::ime::alt_keys_retained(p));
        assert(th != tb);
        assert(key_settled(x[th], alt_key(), ""@));
        assert(key_settled(v[th], alt_key(), ""@));
        assert(key_settled(p[th], alt_key(), ""@));
        crate::ui::ime::lemma_section_index(x, hotkey_name());
        assert forall|j: int| 0 <= j < th implies p[j].header != Some(hotkey_name()) by {
            if j != tb {
                assert(p[j].header == v[j].header);
                assert(v[j].header == x[j].header);
            }
        }
        assert(p[th].header == Some(hotkey_name())) by {
            assert(p[th].header == v[th].header);
            assert(v[th].header == x[th].header);
        }
        lemma_section_index_at(p, hotkey_name(), th);
    }
}


proof fn lemma_section_index_same(a: Seq<SectionView>, b: Seq<SectionView>, name: Seq<char>)
    requires
        a.len() == b.len(),
        forall|j: int| 0 <= j < a.len() ==> (#[trigger] a[j]).header == b[j].header,
    ensures
        crate::ui::ime::section_index(a, name) == crate::ui::ime::section_index(b, name),
{
    crate::ui::ime::lemma_section_index(a, name);
    crate::ui::ime::lemma_section_index(b, name);
    match crate::ui::ime::section_index(a, name) {
        Some(i) => {
            assert forall|j: int| 0 <= j < i implies b[j].header != Some(name) by {
                assert(a[j].header == b[j].header);
            }
            lemma_section_index_at(b, name, i);
        },
        None => {
            if let Some(j) = crate::ui::ime::section_index(b, name) {
                assert(a[j].header == b[j].header);
            }
        },
    }
}

proof fn lemma_all_lines_no_cr(secs: Seq<SectionView>)
    requires
        cr_free(secs),
    ensures
        forall|k: int| 0 <= k < all_lines(secs).len() ==> no_cr_end(#[trigger] all_lines(secs)[k]),
    decreases secs.len(),
{
    if secs.len() > 0 {
        let dl = secs.drop_last();
        assert forall|i: int, k: int| 0 <= i < dl.len() && 0 <= k < dl[i].lines.len() implies no_cr_end(#[trigger] dl[i].lines[k]) by {
            assert(dl[i] == secs[i]);
            assert(no_cr_end(secs[i].lines[k]));
        }
        lemma_all_lines_no_cr(dl);
        let s = secs.last();
        let a = all_lines(dl);
        let b = section_lines(s);
        reveal_strlit("]");
        assert forall|k: int| 0 <= k < b.len() implies no_cr_end(#[trigger] b[k]) by {
            match s.header {
                Some(h) => {
                    if k == 0 {
                        let hl = "["@ + h + "]"@;
                        assert(hl.last() == ']');
                    } else {
                        assert(b[k] == s.lines[k - 1]);
                        assert(no_cr_end(secs[secs.len() - 1].lines[k - 1]));
                    }
                },
                None => {
                    assert(b[k] == s.lines[k]);
                    assert(no_cr_end(secs[secs.len() - 1].lines[k]));
                },
            }
        }
        assert forall|k: int| 0 <= k < all_lines(secs).len() implies no_cr_end(#[trigger] all_lines(secs)[k]) by {
            if k < a.len() {
                assert(all_lines(secs)[k] == a[k]);
            } else {
                assert(all_lines(secs)[k] == b[k - a.len()]);
            }
        }
    }
}

proof fn lemma_strip_none(ls: Seq<Seq<char>>)
    requires
        forall|k: int| 0 <= k < ls.len() ==> no_cr_end(#[trigger] ls[k]),
    ensures
        strip_all(ls) == ls,
{
    assert forall|k: int| 0 <= k < ls.len() implies strip_all(ls)[k] == ls[k] by {
        assert(no_cr_end(ls[k]));
    }
    assert(strip_all(ls) =~= ls);
}

/// The sections without the blank line that ends the last of them.
pub open spec fn without_final_blank(secs: Seq<SectionView>) -> Seq<SectionView> {
    let n = secs.len() - 1;
    secs.update(n, SectionView { header: secs[n].header, lines: secs[n].lines.drop_last() })
}

/// Taking away a final blank line keeps a configuration settled, unless it
/// empties a key list.
proof fn lemma_without_final_blank(secs: Seq<SectionView>)
    requires
        settled(secs),
        cr_free(secs),
        secs.last().lines.len() > 0,
        secs.last().lines.last() == Seq::<char>::empty(),
        !(secs.last().header == Some(crate::ui::ime::alt_header()) && secs.last().lines.len() == 1),
    ensures
        settled(without_final_blank(secs)),
        cr_free(without_final_blank(secs)),
        all_lines(without_final_blank(secs)) == all_lines(secs).drop_last(),
{
    lemma_names_distinct();
    let n = secs.len() - 1;
    let s = secs[n];
    let l2 = s.lines.drop_last();
    let s2 = SectionView { header: s.header, lines: l2 };
    let w = without_final_blank(secs);
    let e = Seq::<char>::empty();
    assert(s.lines =~= l2.push(e));
    assert(push_blank(s2) == s);
    lemma_push_blank_settled(s2, alt_key(), ""@);
    assert(crate::ui::ime::alt_entry(e) is None) by {
        assert(trim(e) =~= e) by {
            assert(trim_start(e) == e);
            assert(trim_end(e) == e);
        }
    }
    assert forall|k: Seq<char>, v: Seq<char>| key_settled(s, k, v) implies #[trigger] key_settled(s2, k, v) by {
        lemma_push_blank_settled(s2, k, v);
    }
    // shape
    assert(plain_section(secs[n]));
    assert forall|i: int| 0 <= i < w.len() implies plain_section(#[trigger] w[i]) by {
        if i != n {
            assert(w[i] == secs[i]);
        } else {
            assert forall|k: int| 0 <= k < l2.len() implies !is_header_line(trim(#[trigger] l2[k])) && no_newline(l2[k]) by {
                assert(l2[k] == s.lines[k]);
            }
        }
    }
    assert(w[0].header is None);
    assert forall|i: int| 0 < i < w.len() implies (#[trigger] w[i]).header is Some by {
        assert(w[i].header == secs[i].header);
    }
    assert forall|j: int| 0 <= j < w.len() implies (#[trigger] w[j]).header == secs[j].header by {}
    // the key list that ends the file keeps its entries
    assert(list_settled(secs[n]));
    if s.header == Some(crate::ui::ime::alt_header()) {
        lemma_renumber_trailing(l2, e, 0);
        assert(l2.push(e) =~= l2 + seq![e]);
        assert((crate::ui::ime::renumber_from(l2, 0) + seq![e]).drop_last() =~= crate::ui::ime::renumber_from(l2, 0));
        assert(list_settled(s2));
    }
    assert forall|j: int| 0 <= j < w.len() implies list_settled(#[trigger] w[j]) by {
        if j != n {
            assert(w[j] == secs[j]);
        }
    }
    lemma_kept_trailing(l2, e);
    if crate::ui::ime::alt_keys_retained(secs) {
        let j = choose|j: int| 0 <= j < secs.len() && (#[trigger] secs[j]).header == Some(crate::ui::ime::alt_header())
            && crate::ui::ime::kept_entries(secs[j].lines) > 0;
        if j != n {
            assert(w[j] == secs[j]);
        }
        assert(w[j].header == Some(crate::ui::ime::alt_header()));
        assert(crate::ui::ime::kept_entries(w[j].lines) > 0);
        assert(crate::ui::ime::alt_keys_retained(w));
    } else {
        assert forall|j: int| 0 <= j < w.len() implies (#[trigger] w[j]).header != Some(crate::ui::ime::alt_header()) by {
            assert(secs[j].header != Some(crate::ui::ime::alt_header()));
        }
        assert(!crate::ui::ime::alt_keys_retained(w));
        lemma_section_index_same(w, secs, hotkey_name());
        let h = crate::ui::ime::section_index(secs, hotkey_name()).unwrap();
        crate::ui::ime::lemma_section_index(secs, hotkey_name());
        if h != n {
            assert(w[h] == secs[h]);
        }
        assert(key_settled(w[h], alt_key(), ""@));
    }
    lemma_section_index_same(w, secs, behavior_name());
    crate::ui::ime::lemma_section_index(secs, behavior_name());
    let b = crate::ui::ime::section_index(secs, behavior_name()).unwrap();
    if b != n {
        assert(w[b] == secs[b]);
    }
    assert(key_settled(w[b], share_key(), "All"@));
    assert(key_settled(w[b], active_key(), "True"@));
    // no carriage returns
    assert forall|i: int, k: int| 0 <= i < w.len() && 0 <= k < w[i].lines.len() implies no_cr_end(#[trigger] w[i].lines[k]) by {
        if i != n {
            assert(w[i] == secs[i]);
        } else {
            assert(w[i].lines[k] == secs[n].lines[k]);
        }
        assert(no_cr_end(secs[i].lines[k]));
    }
    // the lines
    assert(w.drop_last() =~= secs.drop_last());
    assert(w.last() == s2);
    assert(secs.last() == s);
    match s.header {
        Some(h) => {
            assert(section_lines(s2) =~= section_lines(s).drop_last());
        },
        None => {
            assert(section_lines(s2) =~= section_lines(s).drop_last());
        },
    }
    assert(all_lines(w) =~= all_lines(secs).drop_last());
}

/// Whether the rewrite of a file that does not end its last line ends in an
/// `[Hotkey/AltTriggerKeys]` list whose only line is blank: reading the
/// rewrite back loses that line, and the emptied list then goes.
pub open spec fn ends_in_blank_list(content: Seq<char>) -> bool {
    let p = crate::ui::ime::patched_sections(content);
    &&& content.len() > 0
    &&& content.last() != '\n'
    &&& p.last().header == Some(crate::ui::ime::alt_header())
    &&& p.last().lines == seq![Seq::<char>::empty()]
}

/// Rewriting a rewritten configuration changes nothing, for a file whose
/// lines do not end in a carriage return, and but for a final key list that
/// holds only a blank line.
pub proof fn law_patch_idempotent(content: Seq<char>)
    requires
        content.len() <= usize::MAX,
        forall|k: int| 0 <= k < lines(content).len() ==> no_cr_end(#[trigger] lines(content)[k]),
        !ends_in_blank_list(content),
    ensures
        crate::ui::ime::spec_patch_fcitx5_behavior(crate::ui::ime::spec_patch_fcitx5_behavior(content))
            == crate::ui::ime::spec_patch_fcitx5_behavior(content),
{
    lemma_first_pass(content);
    let p1 = crate::ui::ime::patched_sections(content);
    let a = all_lines(p1);
    assert(well_shaped(p1));
    lemma_all_lines_no_newline(p1);
    lemma_all_lines_no_cr(p1);
    lemma_render_all(p1);
    crate::ui::ime::lemma_section_index(p1, behavior_name());
    let b = crate::ui::ime::section_index(p1, behavior_name()).unwrap();
    // the file has lines: at least the [Behavior] header
    assert(a.len() > 0) by {
        if a.len() == 0 {
            assert(p1.len() > 1) by {
                lemma_names_distinct();
                assert(p1[b].header is Some);
                if p1.len() == 1 {
                    assert(b == 0);
                }
            }
            assert(p1.drop_last().len() < p1.len());
            assert(a == all_lines(p1.drop_last()) + section_lines(p1.last()));
            assert(p1[p1.len() - 1].header is Some);
            assert(section_lines(p1.last()).len() > 0);
        }
    }
    let out = render(p1);
    lemma_render_lines_step(a);
    let cut = content.len() > 0 && content.last() != '\n' && out.len() > 0;
    let o1 = crate::ui::ime::spec_patch_fcitx5_behavior(content);
    if !cut {
        assert(o1 == out);
        lemma_lines_render(a);
        lemma_strip_none(a);
        lemma_resplit(p1);
        lemma_patch_settled(o1);
        assert(o1.last() == '\n');
    } else if a.last().len() > 0 {
        assert(o1 == out.drop_last());
        lemma_lines_render_cut(a);
        lemma_strip_none(a.drop_last());
        assert(lines(o1) =~= a);
        lemma_resplit(p1);
        lemma_patch_settled(o1);
        assert(o1 == render_lines(a.drop_last()) + a.last());
        assert(o1.last() == a.last().last());
        assert(no_newline(a[a.len() - 1]));
        assert(o1.len() > 0);
    } else {
        assert(o1 == out.drop_last());
        // the empty last line is the last line of the last section
        let n = p1.len() - 1;
        assert(a == all_lines(p1.drop_last()) + section_lines(p1.last()));
        assert(p1[n].header is Some) by {
            if n == 0 {
                assert(b == 0);
            }
        }
        let h = p1[n].header.unwrap();
        reveal_strlit("[");
        assert(("["@ + h + "]"@).len() > 0);
        assert(p1.last().lines.len() > 0) by {
            if p1.last().lines.len() == 0 {
                assert(section_lines(p1.last()) =~= seq!["["@ + h + "]"@]);
            }
        }
        assert(a.last() == p1.last().lines.last());
        assert(a.last() =~= Seq::<char>::empty());
        lemma_without_final_blank(p1);
        let w = without_final_blank(p1);
        lemma_lines_render_cut(a);
        lemma_strip_none(a.drop_last());
        assert(lines(o1) =~= all_lines(w));
        assert(well_shaped(w));
        lemma_resplit(w);
        lemma_patch_settled(o1);
        lemma_render_all(w);
        assert(o1 =~= render_lines(a.drop_last()));
        assert(a.drop_last().len() > 0) by {
            assert(all_lines(p1.drop_last()).len() > 0 || section_lines(p1.last()).len() > 1);
        }
        lemma_render_lines_step(a.drop_last());
        assert(o1.last() == '\n');
    }
}


/// The rewrite leaves the other sections alone: a section of the file other
/// than `[Behavior]`, `[Hotkey]` and the `[Hotkey/AltTriggerKeys]` lists comes
/// out with the same header and lines, but for a blank line that may be added
/// after its last line when a new section follows it.
pub proof fn law_patch_keeps_other_sections(content: Seq<char>, i: int)
    requires
        0 <= i < crate::ui::ime::split_sections(lines(content)).len(),
        crate::ui::ime::split_sections(lines(content))[i].header != Some(behavior_name()),
        crate::ui::ime::split_sections(lines(content))[i].header != Some(hotkey_name()),
        crate::ui::ime::split_sections(lines(content))[i].header != Some(crate::ui::ime::alt_header()),
    ensures
        exists|j: int| 0 <= j < crate::ui::ime::patched_sections(content).len()
            && same_or_blank(crate::ui::ime::split_sections(lines(content))[i],
                #[trigger] crate::ui::ime::patched_sections(content)[j]),
{
    lemma_names_distinct();
    let secs0 = crate::ui::ime::split_sections(lines(content));
    crate::ui::ime::lemma_split_sections_len(lines(content));
    let secs1 = secs0.map_values(|s: SectionView| crate::ui::ime::renumber_section(s));
    let retained = crate::ui::ime::alt_keys_retained(secs0);
    let t0 = crate::ui::ime::drop_alt(secs1, retained);
    let f = lemma_drop_alt(secs1, retained);
    assert(secs1[i] == secs0[i]);
    assert(!dropped(secs1[i], retained));
    let k = choose|k: int| 0 <= k < t0.len() && #[trigger] f(k) == i;
    assert(t0[k] == secs0[i]);
    assert(same_or_blank(secs0[i], t0[k]));
    assert(t0.len() > 0);
    let x = if retained { t0 } else { crate::ui::ime::spec_set_ini_key(t0, "Hotkey"@, "AltTriggerKeys"@, ""@) };
    if !retained {
        lemma_set_ini_key_shape(t0, hotkey_name(), alt_key(), ""@);
        lemma_same_or_blank_twice(secs0[i], t0[k], x[k]);
    }
    assert(same_or_blank(secs0[i], x[k]));
    assert(x.len() > 0);
    let v = crate::ui::ime::spec_set_ini_key(x, behavior_name(), share_key(), "All"@);
    lemma_set_ini_key_shape(x, behavior_name(), share_key(), "All"@);
    lemma_same_or_blank_twice(secs0[i], x[k], v[k]);
    let p = crate::ui::ime::spec_set_ini_key(v, behavior_name(), active_key(), "True"@);
    lemma_set_ini_key_shape(v, behavior_name(), active_key(), "True"@);
    lemma_same_or_blank_twice(secs0[i], v[k], p[k]);
    assert(p == crate::ui::ime::patched_sections(content));
}


/// Whether the line assigns one of the keys, as `set_ini_key` sees it.
pub open spec fn assigns_any(l: Seq<char>, keys: Seq<Seq<char>>) -> bool {
    exists|k: int| 0 <= k < keys.len() && crate::ui::ime::is_key_line(l, #[trigger] keys[k])
}

/// The lines that assign none of the keys, in order.
pub open spec fn other_lines(ls: Seq<Seq<char>>, keys: Seq<Seq<char>>) -> Seq<Seq<char>>
    decreases ls.len(),
{
    if ls.len() == 0 {
        seq![]
    } else {
        (if assigns_any(ls[0], keys) { Seq::<Seq<char>>::empty() } else { seq![ls[0]] })
            + other_lines(ls.drop_first(), keys)
    }
}

proof fn lemma_other_lines_append(a: Seq<Seq<char>>, b: Seq<Seq<char>>, keys: Seq<Seq<char>>)
    ensures
        other_lines(a + b, keys) == other_lines(a, keys) + other_lines(b, keys),
    decreases a.len(),
{
    if a.len() == 0 {
        assert(a + b =~= b);
        assert(other_lines(a, keys) + other_lines(b, keys) =~= other_lines(b, keys));
    } else {
        assert((a + b).drop_first() =~= a.drop_first() + b);
        assert((a + b)[0] == a[0]);
        lemma_other_lines_append(a.drop_first(), b, keys);
        assert(other_lines(a + b, keys) =~= other_lines(a, keys) + other_lines(b, keys));
    }
}

proof fn lemma_other_lines_one(l: Seq<char>, keys: Seq<Seq<char>>)
    ensures
        other_lines(seq![l], keys) == (if assigns_any(l, keys) { Seq::<Seq<char>>::empty() } else { seq![l] }),
{
    let one = seq![l];
    assert(one.drop_first() =~= Seq::<Seq<char>>::empty());
    assert(one[0] == l);
    assert(other_lines(one.drop_first(), keys) == Seq::<Seq<char>>::empty());
    let head = if assigns_any(l, keys) { Seq::<Seq<char>>::empty() } else { seq![l] };
    assert(other_lines(one, keys) == head + other_lines(one.drop_first(), keys));
    assert(head + Seq::<Seq<char>>::empty() =~= head);
}

/// Replacing the assignments of one of the keys keeps the other lines.
proof fn lemma_other_lines_replace(ls: Seq<Seq<char>>, key: Seq<char>, nl: Seq<char>, found: bool, keys: Seq<Seq<char>>, m: int)
    requires
        0 <= m < keys.len(),
        keys[m] == key,
        crate::ui::ime::is_key_line(nl, key),
    ensures
        other_lines(crate::ui::ime::replace_key_lines(ls, key, nl, found), keys) == other_lines(ls, keys),
    decreases ls.len(),
{
    if ls.len() > 0 {
        let x = ls[0];
        let rest = ls.drop_first();
        let is_k = crate::ui::ime::is_key_line(x, key);
        lemma_other_lines_replace(rest, key, nl, found || is_k, keys, m);
        let rr = crate::ui::ime::replace_key_lines(rest, key, nl, found || is_k);
        if is_k {
            assert(assigns_any(x, keys));
            assert(assigns_any(nl, keys));
            if !found {
                lemma_other_lines_append(seq![nl], rr, keys);
                lemma_other_lines_one(nl, keys);
                assert(seq![nl] + rr =~= crate::ui::ime::replace_key_lines(ls, key, nl, found));
            }
        } else {
            lemma_other_lines_append(seq![x], rr, keys);
            assert(seq![x] + rr =~= crate::ui::ime::replace_key_lines(ls, key, nl, found));
            lemma_other_lines_one(x, keys);
        }
        lemma_other_lines_append(seq![x], rest, keys);
        lemma_other_lines_one(x, keys);
        assert(ls =~= seq![x] + rest);
    } else {
        assert(crate::ui::ime::replace_key_lines(ls, key, nl, found) =~= ls);
    }
}

/// Setting one of the keys keeps the other lines.
proof fn lemma_other_lines_set(ls: Seq<Seq<char>>, key: Seq<char>, value: Seq<char>, keys: Seq<Seq<char>>, m: int)
    requires
        0 <= m < keys.len(),
        keys[m] == key,
        clean_setting(key, value),
    ensures
        other_lines(crate::ui::ime::set_key_lines(ls, key, key + "="@ + value), keys) == other_lines(ls, keys),
{
    let nl = key + "="@ + value;
    lemma_setting_line(key, value);
    lemma_key_line(nl, key);
    if has_key_line(ls, key) {
        lemma_other_lines_replace(ls, key, nl, false, keys, m);
    } else {
        let at = crate::ui::ime::content_end(ls);
        lemma_content_end(ls);
        let a = ls.take(at);
        let b = ls.skip(at);
        assert(crate::ui::ime::set_key_lines(ls, key, nl) == a + seq![nl] + b);
        assert(ls =~= a + b);
        lemma_other_lines_append(a + seq![nl], b, keys);
        lemma_other_lines_append(a, seq![nl], keys);
        lemma_other_lines_append(a, b, keys);
        lemma_other_lines_one(nl, keys);
        assert(assigns_any(nl, keys));
        assert(other_lines(a, keys) + Seq::<Seq<char>>::empty() =~= other_lines(a, keys));
    }
}

/// A blank line added at the end is another line kept.
proof fn lemma_other_lines_blank(s: SectionView, keys: Seq<Seq<char>>)
    ensures
        other_lines(push_blank(s).lines, keys) == other_lines(s.lines, keys).push(seq![]),
{
    let e = Seq::<char>::empty();
    assert(trim(e) =~= e) by {
        assert(trim_start(e) == e);
        assert(trim_end(e) == e);
    }
    assert(split_once(e, '=') is None);
    assert(!assigns_any(e, keys));
    assert(push_blank(s).lines =~= s.lines + seq![e]);
    lemma_other_lines_append(s.lines, seq![e], keys);
    lemma_other_lines_one(e, keys);
}

/// The lines that assign none of the keys, as they were or with a blank
/// line added.
pub open spec fn kept_or_blank(a: Seq<Seq<char>>, b: Seq<Seq<char>>) -> bool {
    b == a || b == a.push(seq![])
}


proof fn lemma_other_lines_same_or_blank(a: SectionView, b: SectionView, keys: Seq<Seq<char>>)
    requires
        same_or_blank(a, b),
    ensures
        kept_or_blank(other_lines(a.lines, keys), other_lines(b.lines, keys)),
{
    if b != a {
        lemma_other_lines_blank(a, keys);
    }
}

/// Where the first section of a name, other than a key list, goes when the
/// key lists are dropped.
proof fn lemma_first_kept(secs0: Seq<SectionView>, retained: bool, name: Seq<char>) -> (k: int)
    requires
        crate::ui::ime::section_index(secs0, name) is Some,
        name != crate::ui::ime::alt_header(),
    ensures
        ({
            let secs1 = secs0.map_values(|s: SectionView| crate::ui::ime::renumber_section(s));
            let t0 = crate::ui::ime::drop_alt(secs1, retained);
            &&& 0 <= k < t0.len()
            &&& t0[k] == secs0[crate::ui::ime::section_index(secs0, name).unwrap()]
            &&& crate::ui::ime::section_index(t0, name) == Some(k)
        }),
{
    let secs1 = secs0.map_values(|s: SectionView| crate::ui::ime::renumber_section(s));
    let t0 = crate::ui::ime::drop_alt(secs1, retained);
    let f = lemma_drop_alt(secs1, retained);
    crate::ui::ime::lemma_section_index(secs0, name);
    let b0 = crate::ui::ime::section_index(secs0, name).unwrap();
    assert(secs1[b0] == secs0[b0]);
    assert(!dropped(secs1[b0], retained));
    let k = choose|k: int| 0 <= k < t0.len() && #[trigger] f(k) == b0;
    assert forall|j: int| 0 <= j < k implies t0[j].header != Some(name) by {
        assert(f(j) < f(k));
        assert(t0[j] == secs1[f(j)]);
        assert(secs1[f(j)].header == secs0[f(j)].header);
    }
    lemma_section_index_at(t0, name, k);
    k
}

/// The rewrite keeps the other lines of the sections it rewrites: the first
/// `[Behavior]` section keeps, in order, every line that assigns neither
/// policy key, and the first `[Hotkey]` section every line that does not
/// assign `AltTriggerKeys`, with at most a blank line added at the end.
pub proof fn law_patch_keeps_other_lines(content: Seq<char>)
    ensures
        crate::ui::ime::section_index(crate::ui::ime::split_sections(lines(content)), behavior_name()) matches Some(b0)
            ==> exists|j: int| 0 <= j < crate::ui::ime::patched_sections(content).len()
                && (#[trigger] crate::ui::ime::patched_sections(content)[j]).header == Some(behavior_name())
                && kept_or_blank(
                    other_lines(crate::ui::ime::split_sections(lines(content))[b0].lines, seq![share_key(), active_key()]),
                    other_lines(crate::ui::ime::patched_sections(content)[j].lines, seq![share_key(), active_key()])),
        crate::ui::ime::section_index(crate::ui::ime::split_sections(lines(content)), hotkey_name()) matches Some(h0)
            ==> exists|j: int| 0 <= j < crate::ui::ime::patched_sections(content).len()
                && (#[trigger] crate::ui::ime::patched_sections(content)[j]).header == Some(hotkey_name())
                && kept_or_blank(
                    other_lines(crate::ui::ime::split_sections(lines(content))[h0].lines, seq![alt_key()]),
                    other_lines(crate::ui::ime::patched_sections(content)[j].lines, seq![alt_key()])),
{
    lemma_names_distinct();
    lemma_clean_settings();
    reveal_strlit("ShareInputState");
    reveal_strlit("AltTriggerKeys");
    assert(share_key() != alt_key()) by {
        assert(share_key().len() != alt_key().len());
    }
    let secs0 = crate::ui::ime::split_sections(lines(content));
    let ls = lines(content);
    crate::runner::lemma_lines_have_no_newline(content);
    lemma_split_sections_shape(ls);
    let secs1 = secs0.map_values(|s: SectionView| crate::ui::ime::renumber_section(s));
    lemma_renumbered(secs0);
    let retained = crate::ui::ime::alt_keys_retained(secs0);
    let t0 = crate::ui::ime::drop_alt(secs1, retained);
    lemma_drop_alt_shape(secs1, retained);
    let x = if retained { t0 } else { crate::ui::ime::spec_set_ini_key(t0, "Hotkey"@, "AltTriggerKeys"@, ""@) };
    let mut th: int = -1;
    if !retained {
        th = lemma_set_section_key(t0, hotkey_name(), alt_key(), ""@, share_key());
        lemma_set_ini_key_shape(t0, hotkey_name(), alt_key(), ""@);
    }
    let v = crate::ui::ime::spec_set_ini_key(x, behavior_name(), share_key(), "All"@);
    let tb = lemma_set_section_key(x, behavior_name(), share_key(), "All"@, active_key());
    lemma_set_ini_key_shape(x, behavior_name(), share_key(), "All"@);
    let p = crate::ui::ime::spec_set_ini_key(v, behavior_name(), active_key(), "True"@);
    let tb2 = lemma_set_section_key(v, behavior_name(), active_key(), "True"@, share_key());
    lemma_set_ini_key_shape(v, behavior_name(), active_key(), "True"@);
    assert(tb2 == tb);
    assert(p == crate::ui::ime::patched_sections(content));
    let bkeys = seq![share_key(), active_key()];
    let hkeys = seq![alt_key()];
    crate::ui::ime::lemma_section_index(secs0, behavior_name());
    crate::ui::ime::lemma_section_index(secs0, hotkey_name());
    if let Some(b0) = crate::ui::ime::section_index(secs0, behavior_name()) {
        let k = lemma_first_kept(secs0, retained, behavior_name());
        assert(t0[k].header == Some(behavior_name()));
        // through the [Hotkey] step
        if !retained {
            crate::ui::ime::lemma_section_index(t0, hotkey_name());
            assert(k != th);
            assert(x[k].header == t0[k].header);
            assert forall|j: int| 0 <= j < k implies x[j].header != Some(behavior_name()) by {
                crate::ui::ime::lemma_section_index(t0, behavior_name());
                if j != th {
                    assert(x[j].header == t0[j].header);
                }
            }
            lemma_section_index_at(x, behavior_name(), k);
        }
        assert(same_or_blank(t0[k], x[k]));
        lemma_other_lines_same_or_blank(t0[k], x[k], bkeys);
        assert(crate::ui::ime::section_index(x, behavior_name()) == Some(k));
        assert(tb == k);
        lemma_other_lines_set(x[k].lines, share_key(), "All"@, bkeys, 0);
        assert(v[k].lines == crate::ui::ime::set_key_lines(x[k].lines, share_key(), share_key() + "="@ + "All"@));
        lemma_other_lines_set(v[k].lines, active_key(), "True"@, bkeys, 1);
        assert(p[k].lines == crate::ui::ime::set_key_lines(v[k].lines, active_key(), active_key() + "="@ + "True"@));
        assert(p[k].header == Some(behavior_name()));
    }
    if let Some(h0) = crate::ui::ime::section_index(secs0, hotkey_name()) {
        let k = lemma_first_kept(secs0, retained, hotkey_name());
        assert(t0[k].header == Some(hotkey_name()));
        crate::ui::ime::lemma_section_index(x, behavior_name());
        if !retained {
            assert(th == k);
            lemma_other_lines_set(t0[k].lines, alt_key(), ""@, hkeys, 0);
            assert(x[k].lines == crate::ui::ime::set_key_lines(t0[k].lines, alt_key(), alt_key() + "="@ + ""@));
            assert(x[k].header == Some(hotkey_name()));
            assert(v[k].header == Some(hotkey_name()) || k == tb);
            assert(k != tb);
            assert(same_or_blank(x[k], v[k]));
            assert(same_or_blank(v[k], p[k]));
            lemma_same_or_blank_twice(x[k], v[k], p[k]);
            lemma_other_lines_same_or_blank(x[k], p[k], hkeys);
        } else {
            assert(k != tb);
            assert(same_or_blank(x[k], v[k]));
            assert(same_or_blank(v[k], p[k]));
            lemma_same_or_blank_twice(x[k], v[k], p[k]);
            lemma_other_lines_same_or_blank(x[k], p[k], hkeys);
        }
        assert(p[k].header == Some(hotkey_name()));
    }
}

} // verus!
