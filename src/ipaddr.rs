//! Recognizes the textual IP addresses that the standard library's
//! `IpAddr` parser accepts: dotted-quad IPv4, and IPv6 in full form, with
//! one `::` elision, and with a trailing dotted-quad.

use vstd::prelude::*;
use crate::text::{Sep, fields, split_fields, chars_of};

verus! {

pub open spec fn is_dec_digit(c: char) -> bool {
    '0' <= c && c <= '9'
}

pub open spec fn is_hex_digit(c: char) -> bool {
    ('0' <= c && c <= '9') || ('a' <= c && c <= 'f') || ('A' <= c && c <= 'F')
}

/// The value of a string of decimal digits.
pub open spec fn dec_value(f: Seq<char>) -> int
    decreases f.len(),
{
    if f.len() == 0 {
        0
    } else {
        dec_value(f.drop_last()) * 10 + (f.last() as int - '0' as int)
    }
}

/// One to three decimal digits, no leading zero, at most 255.
pub open spec fn is_dec_octet(f: Seq<char>) -> bool {
    &&& 1 <= f.len() <= 3
    &&& forall|i: int| 0 <= i < f.len() ==> is_dec_digit(#[trigger] f[i])
    &&& (f.len() == 1 || f[0] != '0')
    &&& dec_value(f) <= 255
}

/// One to four hex digits.
pub open spec fn is_hex_group(f: Seq<char>) -> bool {
    &&& 1 <= f.len() <= 4
    &&& forall|i: int| 0 <= i < f.len() ==> is_hex_digit(#[trigger] f[i])
}

pub open spec fn is_ipv4_text(s: Seq<char>) -> bool {
    let f = fields(s, Sep::Char('.'));
    f.len() == 4 && forall|i: int| 0 <= i < 4 ==> is_dec_octet(#[trigger] f[i])
}

/// All of `f` are hex groups.
pub open spec fn all_hex(f: Seq<Seq<char>>) -> bool {
    forall|i: int| 0 <= i < f.len() ==> is_hex_group(#[trigger] f[i])
}

/// The number of 16-bit groups that the colon-separated text `t` stands
/// for, when it is a run of hex groups, optionally ending in a dotted quad
/// (which stands for two); `-1` otherwise. Empty text stands for none.
pub open spec fn group_count(t: Seq<char>) -> int {
    let f = fields(t, Sep::Char(':'));
    if t.len() == 0 {
        0
    } else if all_hex(f) {
        f.len() as int
    } else if all_hex(f.drop_last()) && is_ipv4_text(f.last()) {
        f.len() as int + 1
    } else {
        -1
    }
}

/// Position of the first `::` in `s`, or -1.
pub open spec fn elision_pos(s: Seq<char>) -> int
    decreases s.len(),
{
    if s.len() < 2 {
        -1
    } else if s[0] == ':' && s[1] == ':' {
        0
    } else {
        let p = elision_pos(s.drop_first());
        if p < 0 {
            -1
        } else {
            p + 1
        }
    }
}

pub open spec fn is_ipv6_text(s: Seq<char>) -> bool {
    let p = elision_pos(s);
    if p < 0 {
        let f = fields(s, Sep::Char(':'));
        (f.len() == 8 && all_hex(f)) || (f.len() == 7 && all_hex(f.drop_last()) && is_ipv4_text(f.last()))
    } else {
        let head = s.subrange(0, p);
        let tail = s.subrange(p + 2, s.len() as int);
        let h = fields(head, Sep::Char(':'));
        let hn = if head.len() == 0 {
            0
        } else if all_hex(h) {
            h.len() as int
        } else {
            -1
        };
        let tn = group_count(tail);
        0 <= hn <= 7 && 0 <= tn && tn <= 7 - hn
    }
}

/// Text that `IpAddr`'s parser accepts.
pub open spec fn is_ip_text(s: Seq<char>) -> bool {
    is_ipv4_text(s) || is_ipv6_text(s)
}

fn dec_octet(f: &str) -> (r: bool)
    ensures
        r == is_dec_octet(f@),
{
    let cs = chars_of(f);
    let n = cs.len();
    if n < 1 || n > 3 {
        return false;
    }
    let mut v: u32 = 0;
    let mut i: usize = 0;
    while i < n
        invariant
            cs@ == f@,
            n == cs.len(),
            1 <= n <= 3,
            i <= n,
            forall|k: int| 0 <= k < i ==> is_dec_digit(#[trigger] cs@[k]),
            v == dec_value(cs@.subrange(0, i as int)),
            v <= 999,
        decreases n - i,
    {
        let c = cs[i];
        if !('0' <= c && c <= '9') {
            return false;
        }
        assert(cs@.subrange(0, i + 1).drop_last() =~= cs@.subrange(0, i as int));
        assert(v * 10 + 9 <= 999) by {
            assert(i <= 2);
            lemma_dec_value_bound(cs@.subrange(0, i as int));
        }
        v = v * 10 + (c as u32 - '0' as u32);
        i = i + 1;
    }
    assert(cs@.subrange(0, n as int) =~= cs@);
    (n == 1 || cs[0] != '0') && v <= 255
}

proof fn lemma_dec_value_bound(f: Seq<char>)
    requires
        f.len() <= 2,
        forall|k: int| 0 <= k < f.len() ==> is_dec_digit(#[trigger] f[k]),
    ensures
        0 <= dec_value(f),
        f.len() == 0 ==> dec_value(f) == 0,
        f.len() == 1 ==> dec_value(f) <= 9,
        f.len() == 2 ==> dec_value(f) <= 99,
    decreases f.len(),
{
    if f.len() > 0 {
        lemma_dec_value_bound(f.drop_last());
    }
}

fn hex_group(f: &str) -> (r: bool)
    ensures
        r == is_hex_group(f@),
{
    let cs = chars_of(f);
    let n = cs.len();
    if n < 1 || n > 4 {
        return false;
    }
    let mut i: usize = 0;
    while i < n
        invariant
            cs@ == f@,
            n == cs.len(),
            i <= n,
            forall|k: int| 0 <= k < i ==> is_hex_digit(#[trigger] cs@[k]),
        decreases n - i,
    {
        let c = cs[i];
        if !(('0' <= c && c <= '9') || ('a' <= c && c <= 'f') || ('A' <= c && c <= 'F')) {
            return false;
        }
        i = i + 1;
    }
    true
}

/// Whether `s` is a dotted-quad IPv4 address.
pub fn is_ipv4(s: &str) -> (r: bool)
    ensures
        r == is_ipv4_text(s@),
{
    let f = split_fields(s, Sep::Char('.'));
    if f.len() != 4 {
        return false;
    }
    let mut i: usize = 0;
    while i < 4
        invariant
            f.len() == 4,
            crate::text::views(f@) == fields(s@, Sep::Char('.')),
            i <= 4,
            forall|k: int| 0 <= k < i ==> is_dec_octet(#[trigger] fields(s@, Sep::Char('.'))[k]),
        decreases 4 - i,
    {
        assert(crate::text::views(f@)[i as int] == f@[i as int]@);
        if !dec_octet(f[i].as_str()) {
            return false;
        }
        i = i + 1;
    }
    true
}

/// Whether every string of `f` from index `from` up to `to` is a hex group.
fn hex_groups(f: &Vec<String>, from: usize, to: usize) -> (r: bool)
    requires
        from <= to <= f.len(),
    ensures
        r == all_hex(crate::text::views(f@).subrange(from as int, to as int)),
{
    let ghost g = crate::text::views(f@).subrange(from as int, to as int);
    let mut i: usize = from;
    while i < to
        invariant
            from <= i <= to <= f.len(),
            g == crate::text::views(f@).subrange(from as int, to as int),
            forall|k: int| 0 <= k < i - from ==> is_hex_group(#[trigger] g[k]),
        decreases to - i,
    {
        assert(g[i - from] == f@[i as int]@);
        if !hex_group(f[i].as_str()) {
            return false;
        }
        i = i + 1;
    }
    true
}

/// The number of groups that `t` stands for; see `group_count`.
fn count_groups(t: &str) -> (r: i128)
    ensures
        r == group_count(t@),
{
    if t.unicode_len() == 0 {
        return 0;
    }
    let f = split_fields(t, Sep::Char(':'));
    let ghost fv = crate::text::views(f@);
    let n = f.len();
    proof {
        crate::text::lemma_fields_nonempty(t@, Sep::Char(':'));
    }
    assert(fv.subrange(0, n as int) =~= fv);
    assert(fv.subrange(0, n - 1) =~= fv.drop_last());
    if hex_groups(&f, 0, n) {
        n as i128
    } else if hex_groups(&f, 0, n - 1) && is_ipv4(f[n - 1].as_str()) {
        n as i128 + 1
    } else {
        -1
    }
}

proof fn lemma_elision_pos(s: Seq<char>)
    ensures
        -1 <= elision_pos(s) <= s.len() - 2 || elision_pos(s) == -1,
        elision_pos(s) >= 0 ==> s[elision_pos(s)] == ':' && s[elision_pos(s) + 1] == ':',
        elision_pos(s) >= 0 ==> forall|k: int| 0 <= k < elision_pos(s) ==> !(#[trigger] s[k] == ':' && s[k + 1] == ':'),
        elision_pos(s) < 0 ==> forall|k: int| 0 <= k < s.len() - 1 ==> !(#[trigger] s[k] == ':' && s[k + 1] == ':'),
    decreases s.len(),
{
    if s.len() >= 2 && !(s[0] == ':' && s[1] == ':') {
        let t = s.drop_first();
        lemma_elision_pos(t);
        assert forall|k: int| 0 < k < s.len() implies s[k] == t[k - 1] by {}
    }
}

fn find_elision(cs: &Vec<char>) -> (r: Option<usize>)
    ensures
        match r {
            Some(p) => p + 1 < cs.len() && elision_pos(cs@) == p,
            None => elision_pos(cs@) < 0,
        },
{
    proof {
        lemma_elision_pos(cs@);
    }
    let mut i: usize = 0;
    while cs.len() > 1 && i < cs.len() - 1
        invariant
            i <= cs.len(),
            forall|k: int| 0 <= k < i ==> !(#[trigger] cs@[k] == ':' && cs@[k + 1] == ':'),
        decreases cs.len() - i,
    {
        if cs[i] == ':' && cs[i + 1] == ':' {
            proof {
                lemma_elision_pos(cs@);
            }
            return Some(i);
        }
        i = i + 1;
    }
    proof {
        lemma_elision_pos(cs@);
    }
    None
}

/// Whether `s` is an IPv6 address in one of the accepted forms.
pub fn is_ipv6(s: &str) -> (r: bool)
    ensures
        r == is_ipv6_text(s@),
{
    let cs = chars_of(s);
    let n = cs.len();
    match find_elision(&cs) {
        None => {
            let f = split_fields(s, Sep::Char(':'));
            let m = f.len();
            let ghost fv = crate::text::views(f@);
            proof {
                crate::text::lemma_fields_nonempty(s@, Sep::Char(':'));
            }
            assert(fv.subrange(0, m as int) =~= fv);
            assert(fv.subrange(0, m - 1) =~= fv.drop_last());
            if m == 8 {
                hex_groups(&f, 0, 8)
            } else if m == 7 {
                hex_groups(&f, 0, 6) && is_ipv4(f[6].as_str())
            } else {
                false
            }
        },
        Some(p) => {
            let head = s.substring_char(0, p);
            let tail = s.substring_char(p + 2, n);
            let hn: i128 = if p == 0 {
                0
            } else {
                let h = split_fields(head, Sep::Char(':'));
                let ghost hv = crate::text::views(h@);
                assert(hv.subrange(0, h.len() as int) =~= hv);
                if hex_groups(&h, 0, h.len()) {
                    if h.len() > 8 {
                        -1
                    } else {
                        h.len() as i128
                    }
                } else {
                    -1
                }
            };
            let tn = count_groups(tail);
            0 <= hn && hn <= 7 && 0 <= tn && tn <= 7 - hn
        },
    }
}

/// Whether `s` is text that `IpAddr`'s parser accepts.
pub fn is_ip(s: &str) -> (r: bool)
    ensures
        r == is_ip_text(s@),
{
    is_ipv4(s) || is_ipv6(s)
}

} // verus!
