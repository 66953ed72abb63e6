//! The `list` command's output: the account's devices as a devices file,
//! one TOML section per device under a unique kebab-case key.
use vstd::prelude::*;
use crate::api::Device;
use crate::text::{chars_of, decimal, push_char, push_decimal, split_on, string_from_chars};

verus! {

// ------------------------------------------------------------- section keys

/// An ASCII letter or digit.
pub open spec fn is_ascii_alnum(c: char) -> bool {
    ('0' <= c <= '9') || ('a' <= c <= 'z') || ('A' <= c <= 'Z')
}

/// `char::to_ascii_lowercase`.
pub open spec fn ascii_lower(c: char) -> char {
    if 'A' <= c <= 'Z' {
        ((c as u32) + 32) as char
    } else {
        c
    }
}

/// Reading `s` from the left: letters and digits are kept in lowercase, and
/// each run of other characters after kept text becomes one `-`. The flag
/// says whether nothing has been written yet or the last character written
/// is `-`.
pub open spec fn kebab_scan(s: Seq<char>) -> (Seq<char>, bool)
    decreases s.len(),
{
    if s.len() == 0 {
        (seq![], true)
    } else {
        let (out, dash) = kebab_scan(s.drop_last());
        let c = s.last();
        if is_ascii_alnum(c) {
            (out.push(ascii_lower(c)), false)
        } else if !dash {
            (out.push('-'), true)
        } else {
            (out, dash)
        }
    }
}

/// `s` without trailing `-` characters (`trim_end_matches('-')`).
pub open spec fn trim_trailing_dashes(s: Seq<char>) -> Seq<char>
    decreases s.len(),
{
    if s.len() > 0 && s.last() == '-' {
        trim_trailing_dashes(s.drop_last())
    } else {
        s
    }
}

/// The section key for a device name: its ASCII letters and digits in
/// lowercase, runs of anything else joined as one `-`, no `-` at either end;
/// `device` when nothing is left.
pub open spec fn section_key_text(name: Seq<char>) -> Seq<char> {
    let t = trim_trailing_dashes(kebab_scan(name).0);
    if t.len() == 0 {
        "device"@
    } else {
        t
    }
}

/// Turns a device name into a kebab-case section key (`Living Bulb` →
/// `living-bulb`); `device` when the name has no ASCII letter or digit.
pub fn sanitize_section_key(name: &str) -> (key: String)
    ensures
        key@ == section_key_text(name@),
{
    let v = chars_of(name);
    let mut out: Vec<char> = Vec::new();
    let mut prev_dash = true;
    for i in 0..v.len()
        invariant
            v@ == name@,
            kebab_scan(name@.take(i as int)) == (out@, prev_dash),
    {
        let c = v[i];
        assert(name@.take(i + 1).drop_last() == name@.take(i as int));
        if ('0' <= c && c <= '9') || ('a' <= c && c <= 'z') || ('A' <= c && c <= 'Z') {
            let l = if 'A' <= c && c <= 'Z' {
                ((c as u32) + 32) as u8 as char
            } else {
                c
            };
            assert(l == ascii_lower(c)) by {
                if 'A' <= c && c <= 'Z' {
                    assert((((c as u32) + 32) as u8 as char) == (((c as u32) + 32) as char));
                }
            }
            out.push(l);
            prev_dash = false;
        } else if !prev_dash {
            out.push('-');
            prev_dash = true;
        }
    }
    assert(name@.take(v.len() as int) == name@);
    let ghost scanned = out@;
    let mut n = out.len();
    assert(scanned.take(n as int) == scanned);
    while n > 0 && out[n - 1] == '-'
        invariant
            n <= out.len(),
            out@ == scanned,
            trim_trailing_dashes(scanned) == trim_trailing_dashes(scanned.take(n as int)),
        decreases n,
    {
        assert(scanned.take(n as int).drop_last() == scanned.take(n - 1));
        n = n - 1;
    }
    assert(trim_trailing_dashes(scanned.take(n as int)) == scanned.take(n as int)) by {
        if n > 0 {
            assert(scanned.take(n as int).last() == out@[n - 1]);
        }
    }
    if n == 0 {
        String::from_str("device")
    } else {
        let t = crate::text::sub_chars(&out, 0, n);
        string_from_chars(t.as_slice())
    }
}

/// A character of a section key: a lowercase ASCII letter, a digit, or `-`.
pub open spec fn is_key_char(c: char) -> bool {
    ('0' <= c <= '9') || ('a' <= c <= 'z') || c == '-'
}

/// Kebab-case text: key characters only, no `-` first, no `--`.
pub open spec fn kebab_shape(s: Seq<char>) -> bool {
    &&& forall|i: int| 0 <= i < s.len() ==> is_key_char(#[trigger] s[i])
    &&& (s.len() > 0 ==> s[0] != '-')
    &&& forall|i: int| 0 <= i < s.len() - 1 ==> !(#[trigger] s[i] == '-' && s[i + 1] == '-')
}

proof fn lemma_kebab_scan_shape(s: Seq<char>)
    ensures
        kebab_shape(kebab_scan(s).0),
        kebab_scan(s).1 <==> (kebab_scan(s).0.len() == 0 || kebab_scan(s).0.last() == '-'),
    decreases s.len(),
{
    if s.len() > 0 {
        lemma_kebab_scan_shape(s.drop_last());
        let (out, dash) = kebab_scan(s.drop_last());
        let (o2, d2) = kebab_scan(s);
        let c = s.last();
        if is_ascii_alnum(c) {
            assert(o2 == out.push(ascii_lower(c)));
            assert forall|i: int| 0 <= i < o2.len() implies is_key_char(#[trigger] o2[i]) by {
                if i < out.len() {
                    assert(o2[i] == out[i]);
                }
            }
            assert forall|i: int| 0 <= i < o2.len() - 1 implies !(#[trigger] o2[i] == '-' && o2[i
                + 1] == '-') by {
                if i < out.len() - 1 {
                    assert(o2[i] == out[i] && o2[i + 1] == out[i + 1]);
                }
            }
        } else if !dash {
            assert(o2 == out.push('-'));
            assert forall|i: int| 0 <= i < o2.len() implies is_key_char(#[trigger] o2[i]) by {
                if i < out.len() {
                    assert(o2[i] == out[i]);
                }
            }
            assert forall|i: int| 0 <= i < o2.len() - 1 implies !(#[trigger] o2[i] == '-' && o2[i
                + 1] == '-') by {
                if i < out.len() - 1 {
                    assert(o2[i] == out[i] && o2[i + 1] == out[i + 1]);
                } else {
                    assert(o2[i] == out.last());
                }
            }
        }
    }
}

proof fn lemma_trim_trailing_dashes(s: Seq<char>)
    requires
        kebab_shape(s),
    ensures
        kebab_shape(trim_trailing_dashes(s)),
        trim_trailing_dashes(s).len() > 0 ==> trim_trailing_dashes(s).last() != '-',
    decreases s.len(),
{
    if s.len() > 0 && s.last() == '-' {
        let d = s.drop_last();
        assert forall|i: int| 0 <= i < d.len() implies is_key_char(#[trigger] d[i]) by {
            assert(d[i] == s[i]);
        }
        assert forall|i: int| 0 <= i < d.len() - 1 implies !(#[trigger] d[i] == '-' && d[i + 1]
            == '-') by {
            assert(d[i] == s[i] && d[i + 1] == s[i + 1]);
        }
        lemma_trim_trailing_dashes(d);
    }
}

/// A section key is kebab-case: non-empty, lowercase ASCII letters, digits
/// and single `-` between them, never `-` at either end.
pub proof fn law_section_key_is_kebab_case(name: Seq<char>)
    ensures
        section_key_text(name).len() > 0,
        kebab_shape(section_key_text(name)),
        section_key_text(name).last() != '-',
{
    lemma_kebab_scan_shape(name);
    lemma_trim_trailing_dashes(kebab_scan(name).0);
    if trim_trailing_dashes(kebab_scan(name).0).len() == 0 {
        reveal_strlit("device");
    }
}


/// Some character of `s` is an ASCII letter or digit.
pub open spec fn has_ascii_alnum(s: Seq<char>) -> bool {
    exists|i: int| 0 <= i < s.len() && is_ascii_alnum(#[trigger] s[i])
}

/// The ASCII letters and digits of `s`, in order, in lowercase.
pub open spec fn alnum_lowered(s: Seq<char>) -> Seq<char>
    decreases s.len(),
{
    if s.len() == 0 {
        seq![]
    } else if is_ascii_alnum(s.last()) {
        alnum_lowered(s.drop_last()).push(ascii_lower(s.last()))
    } else {
        alnum_lowered(s.drop_last())
    }
}

/// `s` without its `-` characters.
pub open spec fn without_dashes(s: Seq<char>) -> Seq<char>
    decreases s.len(),
{
    if s.len() == 0 {
        seq![]
    } else if s.last() == '-' {
        without_dashes(s.drop_last())
    } else {
        without_dashes(s.drop_last()).push(s.last())
    }
}

proof fn lemma_scan_without_dashes(s: Seq<char>)
    ensures
        without_dashes(kebab_scan(s).0) == alnum_lowered(s),
    decreases s.len(),
{
    if s.len() > 0 {
        lemma_scan_without_dashes(s.drop_last());
        let (out, dash) = kebab_scan(s.drop_last());
        let c = s.last();
        if is_ascii_alnum(c) {
            assert(out.push(ascii_lower(c)).drop_last() == out);
            assert(ascii_lower(c) != '-');
        } else if !dash {
            assert(out.push('-').drop_last() == out);
        }
    }
}

proof fn lemma_trim_without_dashes(x: Seq<char>)
    ensures
        without_dashes(trim_trailing_dashes(x)) == without_dashes(x),
    decreases x.len(),
{
    if x.len() > 0 && x.last() == '-' {
        lemma_trim_without_dashes(x.drop_last());
    }
}

proof fn lemma_alnum_lowered_len(s: Seq<char>)
    ensures
        has_ascii_alnum(s) <==> alnum_lowered(s).len() > 0,
    decreases s.len(),
{
    if s.len() > 0 {
        lemma_alnum_lowered_len(s.drop_last());
        if has_ascii_alnum(s) && !is_ascii_alnum(s.last()) {
            let i = choose|i: int| 0 <= i < s.len() && is_ascii_alnum(#[trigger] s[i]);
            assert(s.drop_last()[i] == s[i]);
        }
        if has_ascii_alnum(s.drop_last()) {
            let i = choose|i: int|
                0 <= i < s.drop_last().len() && is_ascii_alnum(#[trigger] s.drop_last()[i]);
            assert(s[i] == s.drop_last()[i]);
        }
        if is_ascii_alnum(s.last()) {
            assert(is_ascii_alnum(s[s.len() - 1]));
        }
    }
}

proof fn lemma_without_dashes_empty(x: Seq<char>)
    requires
        without_dashes(x).len() == 0,
    ensures
        forall|i: int| 0 <= i < x.len() ==> #[trigger] x[i] == '-',
    decreases x.len(),
{
    if x.len() > 0 {
        lemma_without_dashes_empty(x.drop_last());
        assert forall|i: int| 0 <= i < x.len() implies #[trigger] x[i] == '-' by {
            if i < x.len() - 1 {
                assert(x[i] == x.drop_last()[i]);
            }
        }
    }
}

/// Kebab-case text reads as itself: scanning keeps it as it is.
proof fn lemma_kebab_scan_fixed(s: Seq<char>)
    requires
        kebab_shape(s),
    ensures
        kebab_scan(s) == (s, s.len() == 0 || s.last() == '-'),
    decreases s.len(),
{
    if s.len() > 0 {
        let d = s.drop_last();
        assert forall|i: int| 0 <= i < d.len() implies is_key_char(#[trigger] d[i]) by {
            assert(d[i] == s[i]);
        }
        assert forall|i: int| 0 <= i < d.len() - 1 implies !(#[trigger] d[i] == '-' && d[i + 1]
            == '-') by {
            assert(d[i] == s[i] && d[i + 1] == s[i + 1]);
        }
        lemma_kebab_scan_fixed(d);
        let c = s.last();
        assert(is_key_char(s[s.len() - 1]));
        if c == '-' {
            assert(s.len() >= 2);
            assert(!(s[s.len() - 2] == '-' && s[s.len() - 1] == '-'));
            assert(d.last() == s[s.len() - 2]);
        } else {
            assert(is_ascii_alnum(c));
            assert(ascii_lower(c) == c);
        }
        assert(d.push(c) == s);
    }
}

/// What a section key keeps of a name, and that keys are fixed points:
/// - a name without an ASCII letter or digit gives `device`;
/// - otherwise the key holds, apart from its `-` separators, exactly the
///   name's ASCII letters and digits in order and in lowercase;
/// - turning a key into a key again changes nothing.
pub proof fn law_section_key_keeps_alnum(name: Seq<char>)
    ensures
        !has_ascii_alnum(name) ==> section_key_text(name) == "device"@,
        has_ascii_alnum(name) ==> section_key_text(name) == trim_trailing_dashes(
            kebab_scan(name).0,
        ),
        has_ascii_alnum(name) ==> without_dashes(section_key_text(name)) == alnum_lowered(name),
        section_key_text(section_key_text(name)) == section_key_text(name),
{
    let scanned = kebab_scan(name).0;
    let t = trim_trailing_dashes(scanned);
    lemma_scan_without_dashes(name);
    lemma_trim_without_dashes(scanned);
    lemma_alnum_lowered_len(name);
    lemma_kebab_scan_shape(name);
    lemma_trim_trailing_dashes(scanned);
    if !has_ascii_alnum(name) && t.len() > 0 {
        lemma_without_dashes_empty(t);
        assert(t[0] == '-');
    }
    if has_ascii_alnum(name) {
        assert(t.len() > 0);
    }
    law_section_key_is_kebab_case(name);
    let k = section_key_text(name);
    lemma_kebab_scan_fixed(k);
    assert(trim_trailing_dashes(k) == k);
}

/// A character of a name as the key sees it: an ASCII letter or digit in
/// lowercase, anything else as a separator `-`.
pub open spec fn dash_char(c: char) -> char {
    if is_ascii_alnum(c) {
        ascii_lower(c)
    } else {
        '-'
    }
}

/// A name with every character as the key sees it.
pub open spec fn dashed(name: Seq<char>) -> Seq<char> {
    name.map_values(|c: char| dash_char(c))
}

/// The pieces of `ps` that are not empty, in order.
pub open spec fn nonempty_pieces(ps: Seq<Seq<char>>) -> Seq<Seq<char>>
    decreases ps.len(),
{
    if ps.len() == 0 {
        seq![]
    } else if ps.last().len() > 0 {
        nonempty_pieces(ps.drop_last()).push(ps.last())
    } else {
        nonempty_pieces(ps.drop_last())
    }
}

/// The maximal runs of ASCII letters and digits of a name, in lowercase.
pub open spec fn alnum_runs(name: Seq<char>) -> Seq<Seq<char>> {
    nonempty_pieces(split_on(dashed(name), '-'))
}

/// Pieces joined with `-` between each two.
pub open spec fn join_dash(ps: Seq<Seq<char>>) -> Seq<char>
    decreases ps.len(),
{
    if ps.len() == 0 {
        seq![]
    } else if ps.len() == 1 {
        ps[0]
    } else {
        join_dash(ps.drop_last()) + seq!['-'] + ps.last()
    }
}

proof fn lemma_join_dash_push(m: Seq<Seq<char>>, x: Seq<char>)
    ensures
        join_dash(m.push(x)) == if m.len() == 0 {
            x
        } else {
            join_dash(m) + seq!['-'] + x
        },
{
    assert(m.push(x).drop_last() == m);
    if m.len() == 0 {
        assert(m.push(x)[0] == x);
    }
}

proof fn lemma_nonempty_pieces_free(ps: Seq<Seq<char>>)
    requires
        forall|j: int, k: int|
            0 <= j < ps.len() && 0 <= k < ps[j].len() ==> #[trigger] ps[j][k] != '-',
    ensures
        forall|j: int| 0 <= j < nonempty_pieces(ps).len() ==> #[trigger] nonempty_pieces(ps)[j].len() > 0,
        forall|j: int, k: int|
            0 <= j < nonempty_pieces(ps).len() && 0 <= k < nonempty_pieces(ps)[j].len()
                ==> #[trigger] nonempty_pieces(ps)[j][k] != '-',
    decreases ps.len(),
{
    if ps.len() > 0 {
        let d = ps.drop_last();
        assert forall|j: int, k: int| 0 <= j < d.len() && 0 <= k < d[j].len() implies #[trigger] d[j][k]
            != '-' by {
            assert(d[j] == ps[j]);
        }
        lemma_nonempty_pieces_free(d);
        let n = nonempty_pieces(ps);
        let nd = nonempty_pieces(d);
        if ps.last().len() > 0 {
            assert forall|j: int| 0 <= j < n.len() implies #[trigger] n[j].len() > 0 by {
                if j < nd.len() {
                    assert(n[j] == nd[j]);
                }
            }
            assert forall|j: int, k: int| 0 <= j < n.len() && 0 <= k < n[j].len() implies #[trigger] n[j][k]
                != '-' by {
                if j < nd.len() {
                    assert(n[j] == nd[j]);
                } else {
                    assert(n[j] == ps[ps.len() - 1]);
                }
            }
        }
    }
}

/// How scanning relates to the runs so far: the scan holds the runs joined
/// by `-`, followed by one `-` when a separator came after the last run.
proof fn lemma_scan_runs(s: Seq<char>)
    ensures
        ({
            let p = split_on(dashed(s), '-');
            let n = nonempty_pieces(p);
            let (out, flag) = kebab_scan(s);
            &&& p.len() >= 1
            &&& p.last().len() > 0 ==> out == join_dash(n) && !flag && n.len() > 0
            &&& p.last().len() == 0 && n.len() == 0 ==> out == Seq::<char>::empty() && flag
            &&& p.last().len() == 0 && n.len() > 0 ==> out == join_dash(n) + seq!['-'] && flag
        }),
    decreases s.len(),
{
    let ds = dashed(s);
    crate::text::lemma_split_on_nonempty(ds, '-');
    if s.len() == 0 {
        assert(ds =~= Seq::<char>::empty());
        let p = split_on(ds, '-');
        let e = Seq::<Seq<char>>::empty();
        assert(p.drop_last() =~= e);
        assert(p.last().len() == 0);
        assert(nonempty_pieces(e).len() == 0);
        assert(nonempty_pieces(p) == nonempty_pieces(p.drop_last()));
    } else {
        let s0 = s.drop_last();
        let c = s.last();
        lemma_scan_runs(s0);
        let d0 = dashed(s0);
        assert(ds.drop_last() =~= d0);
        assert(ds.last() == dash_char(c));
        let p0 = split_on(d0, '-');
        let n0 = nonempty_pieces(p0);
        let p = split_on(ds, '-');
        let m = nonempty_pieces(p0.drop_last());
        let lc = ascii_lower(c);
        if is_ascii_alnum(c) {
            assert(lc != '-');
            let l = p0.last();
            assert(p == p0.update(p0.len() - 1, l.push(lc)));
            assert(p =~= p0.drop_last().push(l.push(lc)));
            assert(p.drop_last() == p0.drop_last());
            assert(nonempty_pieces(p) == m.push(l.push(lc)));
            lemma_join_dash_push(m, l.push(lc));
            if l.len() > 0 {
                assert(n0 == m.push(l));
                lemma_join_dash_push(m, l);
            } else {
                assert(n0 == m);
            }
        } else {
            assert(p == p0.push(Seq::<char>::empty()));
            assert(p.drop_last() == p0);
            assert(nonempty_pieces(p) == n0);
            let (out0, flag0) = kebab_scan(s0);
            assert(s.drop_last() == s0);
            if !flag0 {
                assert(kebab_scan(s) == (out0.push('-'), true));
                assert(out0.push('-') =~= join_dash(n0) + seq!['-']);
            } else {
                assert(kebab_scan(s) == (out0, flag0));
                assert(p0.last().len() == 0);
                if n0.len() > 0 {
                    assert(out0 == join_dash(n0) + seq!['-']);
                }
            }
        }
    }
}

/// A section key is the name's maximal runs of ASCII letters and digits,
/// in lowercase, joined by single `-`; `device` when there are none.
pub proof fn law_section_key_is_joined_runs(name: Seq<char>)
    ensures
        alnum_runs(name).len() == 0 <==> !has_ascii_alnum(name),
        section_key_text(name) == if alnum_runs(name).len() == 0 {
            "device"@
        } else {
            join_dash(alnum_runs(name))
        },
{
    let ds = dashed(name);
    let p = split_on(ds, '-');
    let n = alnum_runs(name);
    let (out, flag) = kebab_scan(name);
    lemma_scan_runs(name);
    law_section_key_keeps_alnum(name);
    crate::text::lemma_split_pieces_free(ds, '-');
    lemma_nonempty_pieces_free(p);
    if n.len() > 0 {
        let nd = n.drop_last();
        let l = n.last();
        assert(l == n[n.len() - 1]);
        assert(l.len() > 0);
        assert(l[l.len() - 1] != '-');
        lemma_join_dash_push(nd, l);
        assert(nd.push(l) == n);
        let j = join_dash(n);
        if nd.len() > 0 {
            let h = join_dash(nd) + seq!['-'];
            assert((h + l).last() == l.last());
        }
        assert(j.len() > 0 && j.last() == l.last());
        assert(j.last() != '-');
        assert(trim_trailing_dashes(j) == j);
        if p.last().len() == 0 {
            assert((j + seq!['-']).drop_last() == j);
            assert((j + seq!['-']).last() == '-');
        }
        assert(trim_trailing_dashes(out) == j);
        lemma_scan_without_dashes(name);
        lemma_trim_without_dashes(out);
        lemma_alnum_lowered_len(name);
        assert(without_dashes(j).len() > 0);
        assert(has_ascii_alnum(name));
        assert(section_key_text(name) == j);
    } else {
        assert(trim_trailing_dashes(out).len() == 0);
        lemma_scan_without_dashes(name);
        lemma_trim_without_dashes(out);
        lemma_alnum_lowered_len(name);
        assert(without_dashes(trim_trailing_dashes(out)).len() == 0);
        assert(!has_ascii_alnum(name));
    }
}

// ------------------------------------------------------------- unique keys

/// The texts of a list of strings.
pub open spec fn texts(v: Seq<String>) -> Seq<Seq<char>> {
    v.map_values(|s: String| s@)
}

/// `base-k`.
pub open spec fn key_candidate(base: Seq<char>, k: nat) -> Seq<char> {
    base + seq!['-'] + decimal(k)
}

/// The least `j` from `k` below `u32::MAX` whose `base-j` is not taken.
pub open spec fn free_suffix_from(base: Seq<char>, seen: Seq<Seq<char>>, k: nat) -> Option<nat>
    decreases u32::MAX - k,
{
    if k >= u32::MAX {
        None
    } else if !seen.contains(key_candidate(base, k)) {
        Some(k)
    } else {
        free_suffix_from(base, seen, k + 1)
    }
}

/// The key that `unique_key` picks when the search does not run out: `base`
/// itself when free, else `base-k` for the least free `k` from 2.
pub open spec fn unique_key_choice(base: Seq<char>, seen: Seq<Seq<char>>) -> Option<Seq<char>> {
    if !seen.contains(base) {
        Some(base)
    } else {
        match free_suffix_from(base, seen, 2) {
            Some(k) => Some(key_candidate(base, k)),
            None => None,
        }
    }
}

/// Calls `uuid::Uuid::new_v4()` and formats it with `to_string` (crate
/// uuid). Random: nothing is claimed of the text.
#[verifier::external_body]
fn random_uuid_text() -> String {
    uuid::Uuid::new_v4().to_string()
}

fn contains_text(seen: &Vec<String>, s: &String) -> (b: bool)
    ensures
        b == texts(seen@).contains(s@),
{
    for i in 0..seen.len()
        invariant
            forall|k: int| 0 <= k < i ==> seen@[k]@ != s@,
    {
        if seen[i] == *s {
            assert(texts(seen@)[i as int] == s@);
            return true;
        }
    }
    proof {
        if texts(seen@).contains(s@) {
            let k = choose|k: int| 0 <= k < texts(seen@).len() && texts(seen@)[k] == s@;
            assert(seen@[k]@ == s@);
        }
    }
    false
}

fn candidate_string(base: &str, k: u32) -> (s: String)
    ensures
        s@ == key_candidate(base@, k as nat),
{
    let mut s = String::from_str(base);
    push_char(&mut s, '-');
    push_decimal(&mut s, k as u64);
    s
}

proof fn lemma_free_suffix_skip(base: Seq<char>, seen: Seq<Seq<char>>, k: nat)
    requires
        k < u32::MAX,
        seen.contains(key_candidate(base, k)),
    ensures
        free_suffix_from(base, seen, k) == free_suffix_from(base, seen, k + 1),
{
}

/// The key that `unique_key_choice` picks is not yet taken.
proof fn lemma_choice_fresh(base: Seq<char>, seen: Seq<Seq<char>>)
    ensures
        unique_key_choice(base, seen) matches Some(k) ==> !seen.contains(k),
{
    if seen.contains(base) && free_suffix_from(base, seen, 2) is Some {
        lemma_free_suffix_found(base, seen, 2);
    }
}

proof fn lemma_push_fresh_no_duplicates(seen: Seq<Seq<char>>, choice: Option<Seq<char>>)
    requires
        choice matches Some(k) ==> !seen.contains(k),
    ensures
        choice matches Some(k) ==> (seen.no_duplicates() ==> seen.push(k).no_duplicates()),
{
    if let Some(k) = choice {
        if seen.no_duplicates() {
            let s = seen.push(k);
            assert forall|i: int, j: int| 0 <= i < s.len() && 0 <= j < s.len() && i != j implies s[i]
                != s[j] by {
                if i == seen.len() as int {
                    assert(seen[j] == s[j]);
                } else if j == seen.len() as int {
                    assert(seen[i] == s[i]);
                } else {
                    assert(seen[i] == s[i] && seen[j] == s[j]);
                }
            }
        }
    }
}

/// A key not yet in `seen`, recorded there: `base` when free, else `base-2`,
/// `base-3`, ... (the first free one). Should every suffix up to `u32::MAX`
/// be taken, the key is `base-` and a random UUID, and `seen` is left as it was.
pub fn unique_key(base: &str, seen: &mut Vec<String>) -> (key: String)
    ensures
        match unique_key_choice(base@, texts(old(seen)@)) {
            Some(k) => key@ == k && texts(final(seen)@) == texts(old(seen)@).push(k),
            None => final(seen)@ == old(seen)@ && key@.len() > base@.len() && key@.take(
                base@.len() + 1 as int,
            ) == base@ + seq!['-'],
        },
        unique_key_choice(base@, texts(old(seen)@)) matches Some(k) ==> !texts(
            old(seen)@,
        ).contains(k),
        texts(old(seen)@).no_duplicates() ==> texts(final(seen)@).no_duplicates(),
{
    proof {
        lemma_choice_fresh(base@, texts(seen@));
        lemma_push_fresh_no_duplicates(texts(seen@), unique_key_choice(base@, texts(seen@)));
    }
    let b = String::from_str(base);
    if !contains_text(seen, &b) {
        seen.push(b.clone());
        assert(texts(seen@) =~= texts(old(seen)@).push(base@));
        return b;
    }
    let ghost seen0 = texts(seen@);
    let mut counter: u32 = 2;
    loop
        invariant
            2 <= counter < u32::MAX,
            texts(seen@) == seen0,
            seen@ == old(seen)@,
            seen0 == texts(old(seen)@),
            seen0.contains(base@),
            free_suffix_from(base@, seen0, 2) == free_suffix_from(base@, seen0, counter as nat),
        decreases u32::MAX - counter,
    {
        let candidate = candidate_string(base, counter);
        if !contains_text(seen, &candidate) {
            seen.push(candidate.clone());
            assert(texts(seen@) =~= seen0.push(candidate@));
            return candidate;
        }
        proof {
            lemma_free_suffix_skip(base@, seen0, counter as nat);
        }
        counter = counter + 1;
        if counter == u32::MAX {
            let mut k = String::from_str(base);
            push_char(&mut k, '-');
            let u = random_uuid_text();
            k.append(u.as_str());
            assert(k@.take(base@.len() + 1 as int) =~= base@ + seq!['-']);
            return k;
        }
    }
}

proof fn lemma_decimal_len(n: nat)
    ensures
        decimal(n).len() >= 1,
        n < 10 <==> decimal(n).len() == 1,
    decreases n,
{
    if n >= 10 {
        lemma_decimal_len(n / 10);
    }
}

proof fn lemma_digit_char_injective(x: int, y: int)
    requires
        0 <= x < 10,
        0 <= y < 10,
        crate::text::digit_char(x) == crate::text::digit_char(y),
    ensures
        x == y,
{
    assert((crate::text::digit_char(x) as u32) == 48 + x);
    assert((crate::text::digit_char(y) as u32) == 48 + y);
}

/// Decimal numerals of different numbers differ.
proof fn lemma_decimal_injective(a: nat, b: nat)
    requires
        decimal(a) == decimal(b),
    ensures
        a == b,
    decreases a + b,
{
    lemma_decimal_len(a);
    lemma_decimal_len(b);
    if a >= 10 && b >= 10 {
        assert(decimal(a / 10) == decimal(a).drop_last());
        assert(decimal(b / 10) == decimal(b).drop_last());
        lemma_decimal_injective(a / 10, b / 10);
        assert(decimal(a).last() == decimal(b).last());
        assert(decimal(a).last() == crate::text::digit_char((a % 10) as int));
        assert(decimal(b).last() == crate::text::digit_char((b % 10) as int));
        lemma_digit_char_injective((a % 10) as int, (b % 10) as int);
    } else {
        assert(a < 10 && b < 10);
        assert(decimal(a)[0] == crate::text::digit_char(a as int));
        assert(decimal(b)[0] == crate::text::digit_char(b as int));
        lemma_digit_char_injective(a as int, b as int);
    }
}

proof fn lemma_candidate_injective(base: Seq<char>, a: nat, b: nat)
    requires
        key_candidate(base, a) == key_candidate(base, b),
    ensures
        a == b,
{
    let n = base.len() + 1 as int;
    assert(key_candidate(base, a).skip(n) =~= decimal(a));
    assert(key_candidate(base, b).skip(n) =~= decimal(b));
    lemma_decimal_injective(a, b);
}

proof fn lemma_free_suffix_none(base: Seq<char>, seen: Seq<Seq<char>>, k: nat, j: nat)
    requires
        free_suffix_from(base, seen, k) is None,
        k <= j < u32::MAX,
    ensures
        seen.contains(key_candidate(base, j)),
    decreases j - k,
{
    if j > k {
        lemma_free_suffix_none(base, seen, k + 1, j);
    }
}

/// While fewer than `u32::MAX - 2` keys are taken, some `base-k` with
/// `2 <= k <= seen.len() + 2` is free: there are more candidates than keys.
pub proof fn lemma_free_suffix_exists(base: Seq<char>, seen: Seq<Seq<char>>)
    requires
        seen.len() + 3 <= u32::MAX,
    ensures
        free_suffix_from(base, seen, 2) is Some,
{
    if free_suffix_from(base, seen, 2) is None {
        let n = seen.len() as int;
        let range = vstd::set_lib::set_int_range(2, n + 3);
        vstd::set_lib::lemma_int_range(2, n + 3);
        let f = |k: int| key_candidate(base, k as nat);
        let c = range.map(f);
        assert(vstd::relations::injective_on(f, range)) by {
            assert forall|x1: int, x2: int|
                range.contains(x1) && range.contains(x2) && #[trigger] f(x1) == #[trigger] f(
                    x2,
                ) implies x1 == x2 by {
                lemma_candidate_injective(base, x1 as nat, x2 as nat);
            }
        }
        vstd::set_lib::lemma_map_size(range, c, f);
        assert(c.subset_of(seen.to_set())) by {
            assert forall|x: Seq<char>| c.contains(x) implies seen.to_set().contains(x) by {
                let k = choose|k: int| range.contains(k) && f(k) == x;
                lemma_free_suffix_none(base, seen, 2, k as nat);
            }
        }
        seen.lemma_cardinality_of_set();
        vstd::set_lib::lemma_len_subset(c, seen.to_set());
        assert(false);
    }
}


// ---------------------------------------------------------- devices listing

/// The base of the key of device `i`: `default` when there is one device,
/// else the section key of its name.
pub open spec fn key_base(devices: Seq<Device>, i: int) -> Seq<char> {
    if devices.len() == 1 {
        "default"@
    } else {
        section_key_text(devices[i].name@)
    }
}

/// The keys of the first `n` devices, each made unique against the earlier ones.
pub open spec fn assigned_keys(devices: Seq<Device>, n: int) -> Seq<Seq<char>>
    decreases n,
{
    if n <= 0 {
        seq![]
    } else {
        let prev = assigned_keys(devices, n - 1);
        prev.push(unique_key_choice(key_base(devices, n - 1), prev).unwrap())
    }
}

proof fn lemma_assigned_keys_len(devices: Seq<Device>, n: int)
    requires
        n >= 0,
    ensures
        assigned_keys(devices, n).len() == n,
    decreases n,
{
    if n > 0 {
        lemma_assigned_keys_len(devices, n - 1);
    }
}

/// The section keys of a device list, in order (see `assigned_keys`).
pub fn section_keys(devices: &[Device]) -> (keys: Vec<String>)
    ensures
        keys@.len() == devices@.len(),
        devices@.len() + 2 <= u32::MAX ==> texts(keys@) == assigned_keys(
            devices@,
            devices@.len() as int,
        ),
{
    let single = devices.len() == 1;
    let mut seen: Vec<String> = Vec::new();
    let mut keys: Vec<String> = Vec::new();
    for i in 0..devices.len()
        invariant
            single == (devices@.len() == 1),
            keys@.len() == i,
            devices@.len() + 2 <= u32::MAX ==> texts(keys@) == assigned_keys(devices@, i as int)
                && texts(seen@) == texts(keys@),
    {
        let base = if single {
            String::from_str("default")
        } else {
            sanitize_section_key(devices[i].name.as_str())
        };
        assert(base@ == key_base(devices@, i as int));
        proof {
            if devices@.len() + 2 <= u32::MAX {
                lemma_assigned_keys_len(devices@, i as int);
                lemma_free_suffix_exists(base@, texts(seen@));
            }
        }
        let ghost keys_before = texts(keys@);
        let key = unique_key(base.as_str(), &mut seen);
        keys.push(key);
        proof {
            if devices@.len() + 2 <= u32::MAX {
                assert(texts(keys@) =~= keys_before.push(key@));
                assert(texts(keys@) == assigned_keys(devices@, i + 1));
            }
        }
    }
    keys
}

/// Once fewer than `u32::MAX - 1` devices are listed, every device gets its
/// own key: the keys are pairwise different.
pub proof fn law_section_keys_distinct(devices: Seq<Device>, n: int)
    requires
        0 <= n <= devices.len(),
        devices.len() + 2 <= u32::MAX,
    ensures
        forall|i: int, j: int|
            0 <= i < j < n ==> assigned_keys(devices, n)[i] != assigned_keys(devices, n)[j],
    decreases n,
{
    if n > 0 {
        law_section_keys_distinct(devices, n - 1);
        let prev = assigned_keys(devices, n - 1);
        lemma_assigned_keys_len(devices, n - 1);
        let base = key_base(devices, n - 1);
        lemma_free_suffix_exists(base, prev);
        let k = unique_key_choice(base, prev).unwrap();
        assert(!prev.contains(k)) by {
            if prev.contains(base) {
                let m = free_suffix_from(base, prev, 2).unwrap();
                lemma_free_suffix_found(base, prev, 2);
            }
        }
        let all = assigned_keys(devices, n);
        assert forall|i: int, j: int| 0 <= i < j < n implies all[i] != all[j] by {
            if j == n - 1 {
                assert(all[i] == prev[i]);
            } else {
                assert(all[i] == prev[i] && all[j] == prev[j]);
            }
        }
    }
}

proof fn lemma_free_suffix_found(base: Seq<char>, seen: Seq<Seq<char>>, k: nat)
    requires
        free_suffix_from(base, seen, k) is Some,
    ensures
        !seen.contains(key_candidate(base, free_suffix_from(base, seen, k).unwrap())),
    decreases u32::MAX - k,
{
    if k < u32::MAX && seen.contains(key_candidate(base, k)) {
        lemma_free_suffix_found(base, seen, k + 1);
    }
}

/// A single device is listed under `[default]`.
pub proof fn law_single_device_is_default(devices: Seq<Device>)
    requires
        devices.len() == 1,
    ensures
        assigned_keys(devices, 1) == seq!["default"@],
{
    assert(assigned_keys(devices, 0) =~= Seq::<Seq<char>>::empty());
    assert(assigned_keys(devices, 1) =~= seq!["default"@]);
}

/// A name for the TOML text (crate toml, `to_string`) of a table holding one
/// sub-table `section` with three string entries.
pub uninterp spec fn toml_section_text(
    section: Seq<char>,
    k1: Seq<char>,
    v1: Seq<char>,
    k2: Seq<char>,
    v2: Seq<char>,
    k3: Seq<char>,
    v3: Seq<char>,
) -> Seq<char>;

/// Builds a `toml::value::Table` holding the sub-table `section` with the
/// three string entries and calls `toml::to_string` on it (crate toml).
/// Claimed: the text is a function of the arguments alone. The serializer
/// fails only on unsupported types, `None`, non-string keys and invalid
/// dates, none of which a table of strings holds, so the default of
/// `unwrap_or_default` is never taken.
#[verifier::external_body]
fn toml_section(
    section: &str,
    k1: &str,
    v1: &str,
    k2: &str,
    v2: &str,
    k3: &str,
    v3: &str,
) -> (s: String)
    ensures
        s@ == toml_section_text(section@, k1@, v1@, k2@, v2@, k3@, v3@),
{
    let mut table = toml::value::Table::new();
    table.insert(k1.to_string(), toml::Value::String(v1.to_string()));
    table.insert(k2.to_string(), toml::Value::String(v2.to_string()));
    table.insert(k3.to_string(), toml::Value::String(v3.to_string()));
    let mut outer = toml::value::Table::new();
    outer.insert(section.to_string(), toml::Value::Table(table));
    toml::to_string(&toml::Value::Table(outer)).unwrap_or_default()
}

/// The TOML section of one device under `key`.
pub open spec fn device_section(key: Seq<char>, d: Device) -> Seq<char> {
    toml_section_text(key, "id"@, d.id@, "type"@, d.kind@, "name"@, d.name@)
}

/// Texts joined by newlines: the sections of a devices file, each of which
/// ends with its own newline, so that a blank line separates them.
pub open spec fn joined_sections(parts: Seq<Seq<char>>) -> Seq<char>
    decreases parts.len(),
{
    if parts.len() == 0 {
        seq![]
    } else if parts.len() == 1 {
        parts[0]
    } else {
        joined_sections(parts.drop_last()) + seq!['\n'] + parts.last()
    }
}

/// The sections of the first `n` devices under their keys, separated by
/// blank lines.
pub open spec fn devices_text(devices: Seq<Device>, keys: Seq<Seq<char>>, n: int) -> Seq<char> {
    joined_sections(Seq::new(n as nat, |i: int| device_section(keys[i], devices[i])))
}

/// Joins TOML sections with a newline between each two.
pub fn join_sections(sections: &Vec<String>) -> (out: String)
    ensures
        out@ == joined_sections(texts(sections@)),
{
    let mut out = String::new();
    for i in 0..sections.len()
        invariant
            out@ == joined_sections(texts(sections@).take(i as int)),
    {
        let ghost t = texts(sections@);
        assert(t.take(i + 1).drop_last() == t.take(i as int));
        if i > 0 {
            push_char(&mut out, '\n');
        }
        out.append(sections[i].as_str());
        proof {
            if i == 0 {
                assert(t.take(1) == seq![t[0]]);
            }
        }
    }
    assert(texts(sections@).take(sections@.len() as int) == texts(sections@));
    out
}

/// The devices as a devices file: one TOML section per device, separated by
/// blank lines; `[default]` for a single device, otherwise kebab-case keys of
/// the names, made unique with `-2`, `-3`, ... (see `section_keys`).
pub fn format_devices_toml(devices: &[Device]) -> (out: String)
    ensures
        devices@.len() + 2 <= u32::MAX ==> out@ == devices_text(
            devices@,
            assigned_keys(devices@, devices@.len() as int),
            devices@.len() as int,
        ),
{
    let keys = section_keys(devices);
    let ghost ks = texts(keys@);
    let mut sections: Vec<String> = Vec::new();
    for i in 0..devices.len()
        invariant
            keys@.len() == devices@.len(),
            ks == texts(keys@),
            sections@.len() == i,
            forall|k: int|
                0 <= k < i ==> (#[trigger] sections@[k])@ == device_section(ks[k], devices@[k]),
    {
        let d = &devices[i];
        let sec = toml_section(
            keys[i].as_str(),
            "id",
            d.id.as_str(),
            "type",
            d.kind.as_str(),
            "name",
            d.name.as_str(),
        );
        assert(ks[i as int] == keys@[i as int]@);
        sections.push(sec);
    }
    let out = join_sections(&sections);
    assert(texts(sections@) =~= Seq::new(
        devices@.len() as nat,
        |i: int| device_section(ks[i], devices@[i]),
    ));
    out
}

/// The listing puts each device under its own key: the first section is
/// device 0's id, type and name under key 0, and each further section, after
/// a blank line, is device `i`'s entries under key `i`.
pub proof fn law_devices_text_pairs_keys_with_devices(
    devices: Seq<Device>,
    keys: Seq<Seq<char>>,
    n: int,
)
    requires
        1 <= n <= devices.len(),
        n <= keys.len(),
    ensures
        n == 1 ==> devices_text(devices, keys, n) == toml_section_text(
            keys[0],
            "id"@,
            devices[0].id@,
            "type"@,
            devices[0].kind@,
            "name"@,
            devices[0].name@,
        ),
        n >= 2 ==> devices_text(devices, keys, n) == devices_text(devices, keys, n - 1) + seq![
            '\n',
        ] + toml_section_text(
            keys[n - 1],
            "id"@,
            devices[n - 1].id@,
            "type"@,
            devices[n - 1].kind@,
            "name"@,
            devices[n - 1].name@,
        ),
{
    let s = Seq::new(n as nat, |i: int| device_section(keys[i], devices[i]));
    if n >= 2 {
        let s1 = Seq::new((n - 1) as nat, |i: int| device_section(keys[i], devices[i]));
        assert(s.drop_last() =~= s1);
    }
}

proof fn lemma_free_suffix_at_least(base: Seq<char>, seen: Seq<Seq<char>>, k: nat)
    ensures
        free_suffix_from(base, seen, k) matches Some(j) ==> j >= k,
    decreases u32::MAX - k,
{
    if k < u32::MAX && seen.contains(key_candidate(base, k)) {
        lemma_free_suffix_at_least(base, seen, k + 1);
    }
}

proof fn lemma_assigned_keys_prefix(devices: Seq<Device>, n: int, i: int)
    requires
        0 <= i < n,
    ensures
        assigned_keys(devices, n)[i] == assigned_keys(devices, i + 1)[i],
    decreases n,
{
    if n > i + 1 {
        lemma_assigned_keys_prefix(devices, n - 1, i);
        lemma_assigned_keys_len(devices, n - 1);
    }
}

/// The key of each device is made from that device's own name: with several
/// devices, device `i`'s key is the section key of its name, or that key
/// followed by `-2`, `-3`, ...; a single device is listed as `default`.
pub proof fn law_key_is_made_from_own_name(devices: Seq<Device>, i: int)
    requires
        0 <= i < devices.len(),
        devices.len() + 2 <= u32::MAX,
    ensures
        devices.len() == 1 ==> assigned_keys(devices, devices.len() as int)[i] == "default"@,
        devices.len() >= 2 ==> ({
            let key = assigned_keys(devices, devices.len() as int)[i];
            let base = section_key_text(devices[i].name@);
            key == base || exists|k: nat| k >= 2 && key == base + seq!['-'] + decimal(k)
        }),
{
    let n = devices.len() as int;
    lemma_assigned_keys_prefix(devices, n, i);
    lemma_assigned_keys_len(devices, i);
    let prev = assigned_keys(devices, i);
    let base = key_base(devices, i);
    lemma_free_suffix_exists(base, prev);
    lemma_free_suffix_at_least(base, prev, 2);
    if devices.len() == 1 {
        assert(assigned_keys(devices, 0) =~= Seq::<Seq<char>>::empty());
    }
    if prev.contains(base) {
        let k = free_suffix_from(base, prev, 2)->0;
        assert(assigned_keys(devices, i + 1)[i] == key_candidate(base, k));
    }
}

} // verus!
