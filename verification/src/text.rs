//! Small verified text utilities: character access, equality, splitting
//! comma-separated lists, joining, and decimal formatting.

use vstd::prelude::*;
use vstd::string::StrSliceExecFns;
use vstd::string::StringExecFns;
use vstd::string::StringSliceAdditionalSpecFns;

verus! {

/// Relies on `String::push`: appends exactly one character.
#[verifier::external_body]
pub fn push_char(s: &mut String, c: char)
    ensures
        final(s)@ == old(s)@.push(c),
{
    s.push(c);
}

/// The characters of `s`, as a vector.
pub fn chars_vec(s: &str) -> (v: Vec<char>)
    ensures
        v@ == s@,
{
    let n = s.unicode_len();
    let mut v: Vec<char> = Vec::new();
    let mut i: usize = 0;
    while i < n
        invariant
            n == s@.len(),
            i <= n,
            v@ == s@.take(i as int),
        decreases n - i,
    {
        v.push(s.get_char(i));
        proof {
            assert(v@ =~= s@.take(i + 1));
        }
        i = i + 1;
    }
    proof {
        assert(s@.take(n as int) =~= s@);
    }
    v
}

/// The string whose characters are `v[from..to]`.
pub fn chars_to_string(v: &Vec<char>, from: usize, to: usize) -> (s: String)
    requires
        from <= to <= v@.len(),
    ensures
        s@ == v@.subrange(from as int, to as int),
{
    let mut s = String::new();
    let mut i: usize = from;
    while i < to
        invariant
            from <= i <= to <= v@.len(),
            s@ == v@.subrange(from as int, i as int),
        decreases to - i,
    {
        push_char(&mut s, v[i]);
        proof {
            assert(s@ =~= v@.subrange(from as int, i + 1));
        }
        i = i + 1;
    }
    s
}

/// Whether two string slices hold the same characters.
pub fn str_eq(a: &str, b: &str) -> (r: bool)
    ensures
        r == (a@ == b@),
{
    let ab = a.as_bytes();
    let bb = b.as_bytes();
    if ab.len() != bb.len() {
        return false;
    }
    let n = ab.len();
    let mut i: usize = 0;
    while i < n
        invariant
            n == ab@.len() == bb@.len(),
            ab@ == a.spec_bytes(),
            bb@ == b.spec_bytes(),
            i <= n,
            forall|j: int| 0 <= j < i ==> ab@[j] == bb@[j],
        decreases n - i,
    {
        if ab[i] != bb[i] {
            proof {
                if a@ == b@ {
                    assert(ab@[i as int] == bb@[i as int]);
                }
            }
            return false;
        }
        i = i + 1;
    }
    proof {
        assert(ab@ =~= bb@);
        vstd::utf8::encode_utf8_decode_utf8(a@);
        vstd::utf8::encode_utf8_decode_utf8(b@);
    }
    true
}

/// ASCII whitespace, as trimmed from list entries.
pub open spec fn spec_is_ws(c: char) -> bool {
    c == ' ' || c == '\t' || c == '\n' || c == '\r'
}

/// `s` without leading whitespace.
pub open spec fn spec_trim_front(s: Seq<char>) -> Seq<char>
    decreases s.len(),
{
    if s.len() > 0 && spec_is_ws(s[0]) {
        spec_trim_front(s.drop_first())
    } else {
        s
    }
}

/// `s` without trailing whitespace.
pub open spec fn spec_trim_back(s: Seq<char>) -> Seq<char>
    decreases s.len(),
{
    if s.len() > 0 && spec_is_ws(s[s.len() - 1]) {
        spec_trim_back(s.drop_last())
    } else {
        s
    }
}

/// `s` without leading or trailing whitespace.
pub open spec fn spec_trim(s: Seq<char>) -> Seq<char> {
    spec_trim_back(spec_trim_front(s))
}

/// Index of the first occurrence of `c` in `s`, or `-1`.
pub open spec fn spec_find(s: Seq<char>, c: char) -> int
    decreases s.len(),
{
    if s.len() == 0 {
        -1
    } else if s[0] == c {
        0
    } else {
        let r = spec_find(s.drop_first(), c);
        if r < 0 {
            -1
        } else {
            r + 1
        }
    }
}

pub(crate) proof fn lemma_find(s: Seq<char>, c: char)
    ensures
        -1 <= spec_find(s, c) < s.len(),
        spec_find(s, c) >= 0 ==> s[spec_find(s, c)] == c,
        forall|j: int| 0 <= j < spec_find(s, c) ==> s[j] != c,
        spec_find(s, c) == -1 ==> forall|j: int| 0 <= j < s.len() ==> s[j] != c,
    decreases s.len(),
{
    if s.len() > 0 && s[0] != c {
        lemma_find(s.drop_first(), c);
        assert forall|j: int| 0 <= j < spec_find(s, c) implies s[j] != c by {
            if j > 0 {
                assert(s.drop_first()[j - 1] == s[j]);
            }
        }
        if spec_find(s, c) == -1 {
            assert forall|j: int| 0 <= j < s.len() implies s[j] != c by {
                if j > 0 {
                    assert(s.drop_first()[j - 1] == s[j]);
                }
            }
        }
    }
}

/// The entries of the comma-separated list `s`: the segments between commas,
/// trimmed of surrounding whitespace, with empty entries dropped.
pub open spec fn spec_clean_list(s: Seq<char>) -> Seq<Seq<char>>
    decreases s.len(),
    via spec_clean_list_decreases
{
    let i = spec_find(s, ',');
    if i < 0 {
        let t = spec_trim(s);
        if t.len() == 0 {
            Seq::empty()
        } else {
            seq![t]
        }
    } else {
        let t = spec_trim(s.take(i));
        let rest = spec_clean_list(s.skip(i + 1));
        if t.len() == 0 {
            rest
        } else {
            seq![t] + rest
        }
    }
}

#[via_fn]
proof fn spec_clean_list_decreases(s: Seq<char>) {
    lemma_find(s, ',');
}

/// Whether `c` is ASCII whitespace.
pub fn is_ws(c: char) -> (r: bool)
    ensures
        r == spec_is_ws(c),
{
    c == ' ' || c == '\t' || c == '\n' || c == '\r'
}

/// Trimmed bounds of `v[from..to]`: the subrange with surrounding whitespace
/// dropped is `v[a..b]`.
fn trim_bounds(v: &Vec<char>, from: usize, to: usize) -> (r: (usize, usize))
    requires
        from <= to <= v@.len(),
    ensures
        from <= r.0 <= r.1 <= to,
        v@.subrange(r.0 as int, r.1 as int) == spec_trim(v@.subrange(from as int, to as int)),
{
    let mut a: usize = from;
    while a < to && is_ws(v[a])
        invariant
            from <= a <= to <= v@.len(),
            spec_trim_front(v@.subrange(from as int, to as int)) == spec_trim_front(
                v@.subrange(a as int, to as int),
            ),
        decreases to - a,
    {
        proof {
            assert(v@.subrange(a as int, to as int).drop_first() =~= v@.subrange(
                a + 1,
                to as int,
            ));
        }
        a = a + 1;
    }
    proof {
        assert(spec_trim_front(v@.subrange(a as int, to as int)) == v@.subrange(
            a as int,
            to as int,
        ));
    }
    let mut b: usize = to;
    while b > a && is_ws(v[b - 1])
        invariant
            a <= b <= to <= v@.len(),
            spec_trim_back(v@.subrange(a as int, to as int)) == spec_trim_back(
                v@.subrange(a as int, b as int),
            ),
        decreases b,
    {
        proof {
            assert(v@.subrange(a as int, b as int).drop_last() =~= v@.subrange(a as int, b - 1));
        }
        b = b - 1;
    }
    proof {
        assert(spec_trim_back(v@.subrange(a as int, b as int)) == v@.subrange(a as int, b as int));
    }
    (a, b)
}

/// First index of `c` in `v[from..]`, if any.
fn find_char(v: &Vec<char>, from: usize, c: char) -> (r: Option<usize>)
    requires
        from <= v@.len(),
    ensures
        match r {
            Some(j) => from <= j < v@.len() && spec_find(v@.skip(from as int), c) == j - from,
            None => spec_find(v@.skip(from as int), c) == -1,
        },
{
    let n = v.len();
    let mut i: usize = from;
    while i < n
        invariant
            from <= i <= n == v@.len(),
            forall|j: int| from <= j < i ==> v@[j] != c,
        decreases n - i,
    {
        if v[i] == c {
            proof {
                lemma_find(v@.skip(from as int), c);
                assert(v@.skip(from as int)[i - from] == c);
            }
            return Some(i);
        }
        i = i + 1;
    }
    proof {
        lemma_find(v@.skip(from as int), c);
        let f = spec_find(v@.skip(from as int), c);
        if f >= 0 {
            assert(v@[f + from] == c);
        }
    }
    None
}

/// The cleaned entries of the comma-separated list `v[from..]`.
fn clean_list_from(v: &Vec<char>, from: usize) -> (r: Vec<String>)
    requires
        from <= v@.len(),
    ensures
        r.deep_view() == spec_clean_list(v@.skip(from as int)),
    decreases v@.len() - from,
{
    let ghost s = v@.skip(from as int);
    let mut out: Vec<String> = Vec::new();
    match find_char(v, from, ',') {
        None => {
            let (a, b) = trim_bounds(v, from, v.len());
            proof {
                assert(v@.subrange(from as int, v@.len() as int) =~= s);
            }
            if a < b {
                out.push(chars_to_string(v, a, b));
            }
            proof {
                assert(out.deep_view() =~= spec_clean_list(s));
            }
        },
        Some(j) => {
            let (a, b) = trim_bounds(v, from, j);
            proof {
                assert(v@.subrange(from as int, j as int) =~= s.take(j - from));
            }
            let n = v.len();
            assert(j < n);
            let mut rest = clean_list_from(v, j + 1);
            proof {
                assert(v@.skip(j + 1) =~= s.skip(j - from + 1));
            }
            if a < b {
                out.push(chars_to_string(v, a, b));
            }
            out.append(&mut rest);
            proof {
                assert(out.deep_view() =~= spec_clean_list(s));
            }
        },
    }
    out
}

/// Split a comma-separated list into its entries, trimming whitespace around
/// each entry and dropping empty entries.
pub fn parse_comma_list(s: &str) -> (r: Vec<String>)
    ensures
        r.deep_view() == spec_clean_list(s@),
{
    let v = chars_vec(s);
    let r = clean_list_from(&v, 0);
    proof {
        assert(v@.skip(0) =~= s@);
    }
    r
}

/// The decimal digit character for `d`.
pub open spec fn spec_digit(d: int) -> char
    recommends
        0 <= d < 10,
{
    ((48 + d) as u8) as char
}

/// The decimal representation of `n`, without sign or padding.
pub open spec fn spec_dec(n: nat) -> Seq<char>
    decreases n,
{
    if n < 10 {
        seq![spec_digit(n as int)]
    } else {
        spec_dec(n / 10).push(spec_digit((n % 10) as int))
    }
}

/// The decimal representation of `v`, with a leading `-` when negative.
pub open spec fn spec_int_dec(v: int) -> Seq<char> {
    if v < 0 {
        seq!['-'] + spec_dec((-v) as nat)
    } else {
        spec_dec(v as nat)
    }
}

/// Format `n` in decimal.
pub fn u64_to_string(n: u64) -> (s: String)
    ensures
        s@ == spec_dec(n as nat),
    decreases n,
{
    if n < 10 {
        let mut s = String::new();
        push_char(&mut s, (48u8 + n as u8) as char);
        proof {
            assert(s@ =~= seq![spec_digit(n as int)]);
        }
        s
    } else {
        let mut s = u64_to_string(n / 10);
        push_char(&mut s, (48u8 + (n % 10) as u8) as char);
        s
    }
}

/// Format `v` in decimal, with a leading `-` when negative.
pub fn i64_to_string(v: i64) -> (s: String)
    ensures
        s@ == spec_int_dec(v as int),
{
    if v >= 0 {
        u64_to_string(v as u64)
    } else {
        let m: u64 = (-(v as i128)) as u64;
        proof {
            assert(m as nat == -(v as int));
        }
        let mut s = String::new();
        push_char(&mut s, '-');
        let d = u64_to_string(m);
        s.append(d.as_str());
        proof {
            assert(s@ =~= seq!['-'] + spec_dec(m as nat));
        }
        s
    }
}

/// The entries of `parts` joined by `sep`.
pub open spec fn spec_join(parts: Seq<Seq<char>>, sep: Seq<char>) -> Seq<char>
    decreases parts.len(),
{
    if parts.len() == 0 {
        Seq::empty()
    } else if parts.len() == 1 {
        parts[0]
    } else {
        spec_join(parts.drop_last(), sep) + sep + parts.last()
    }
}

/// Join the strings of `v` with `sep` between them.
pub fn join_strings(v: &Vec<String>, sep: &str) -> (s: String)
    ensures
        s@ == spec_join(v.deep_view(), sep@),
{
    let n = v.len();
    let mut s = String::new();
    let mut i: usize = 0;
    while i < n
        invariant
            n == v@.len(),
            i <= n,
            s@ == spec_join(v.deep_view().take(i as int), sep@),
        decreases n - i,
    {
        if i > 0 {
            s.append(sep);
        }
        s.append(v[i].as_str());
        proof {
            let dv = v.deep_view();
            assert(dv.take(i + 1).drop_last() =~= dv.take(i as int));
            assert(dv.take(i + 1).last() == v@[i as int]@);
        }
        i = i + 1;
    }
    proof {
        assert(v.deep_view().take(n as int) =~= v.deep_view());
    }
    s
}

/// Join the string slices of `v` with `sep` between them.
pub fn join_strs(v: &Vec<&str>, sep: &str) -> (s: String)
    ensures
        s@ == spec_join(v.deep_view(), sep@),
{
    let n = v.len();
    let mut s = String::new();
    let mut i: usize = 0;
    while i < n
        invariant
            n == v@.len(),
            i <= n,
            s@ == spec_join(v.deep_view().take(i as int), sep@),
        decreases n - i,
    {
        if i > 0 {
            s.append(sep);
        }
        s.append(v[i]);
        proof {
            let dv = v.deep_view();
            assert(dv.take(i + 1).drop_last() =~= dv.take(i as int));
            assert(dv.take(i + 1).last() == v@[i as int]@);
        }
        i = i + 1;
    }
    proof {
        assert(v.deep_view().take(n as int) =~= v.deep_view());
    }
    s
}

/// Numeric value of the decimal digit string `t` (recommends all digits).
pub open spec fn spec_dec_val(t: Seq<char>) -> int
    decreases t.len(),
{
    if t.len() == 0 {
        0
    } else {
        spec_dec_val(t.drop_last()) * 10 + (t.last() as int - 48)
    }
}

/// Whether every character of `t` is a decimal digit.
pub open spec fn spec_all_digits(t: Seq<char>) -> bool {
    forall|i: int| 0 <= i < t.len() ==> '0' <= #[trigger] t[i] <= '9'
}

/// The value of one list entry: a non-empty, all-digit string whose value
/// fits in `i64`; anything else has no value.
pub open spec fn spec_item_val(t: Seq<char>) -> Option<int> {
    if t.len() > 0 && spec_all_digits(t) && spec_dec_val(t) <= i64::MAX {
        Some(spec_dec_val(t))
    } else {
        None
    }
}

/// The values of all entries, or `None` if any entry has no value.
pub open spec fn spec_item_vals(items: Seq<Seq<char>>) -> Option<Seq<int>>
    decreases items.len(),
{
    if items.len() == 0 {
        Some(Seq::empty())
    } else {
        match spec_item_val(items[0]) {
            Option::None => None,
            Option::Some(v) => match spec_item_vals(items.drop_first()) {
                Option::None => None,
                Option::Some(rest) => Some(seq![v] + rest),
            },
        }
    }
}

/// The integers held by the bracketed, comma-separated list `s` (as the
/// level-up path column stores them), or `None` if `s` is not such a list.
/// Surrounding whitespace is ignored and empty entries are dropped.
pub open spec fn spec_parse_int_list(s: Seq<char>) -> Option<Seq<int>> {
    let t = spec_trim(s);
    if t.len() < 2 || t[0] != '[' || t[t.len() - 1] != ']' {
        None
    } else {
        spec_item_vals(spec_clean_list(t.subrange(1, t.len() - 1)))
    }
}

/// A digit string's value is never negative.
proof fn lemma_dec_val_nonneg(t: Seq<char>, i: int)
    requires
        0 <= i <= t.len(),
        spec_all_digits(t),
    ensures
        spec_dec_val(t.take(i)) >= 0,
    decreases i,
{
    if i == 0 {
        assert(t.take(0) =~= Seq::empty());
    } else {
        lemma_dec_val_nonneg(t, i - 1);
        assert(t.take(i).drop_last() =~= t.take(i - 1));
    }
}

/// A longer digit prefix never has a smaller value.
proof fn lemma_dec_val_mono(t: Seq<char>, i: int, j: int)
    requires
        0 <= i <= j <= t.len(),
        spec_all_digits(t),
    ensures
        spec_dec_val(t.take(i)) <= spec_dec_val(t.take(j)),
    decreases j - i,
{
    if i < j {
        lemma_dec_val_mono(t, i, j - 1);
        lemma_dec_val_nonneg(t, j - 1);
        assert(t.take(j).drop_last() =~= t.take(j - 1));
    }
}

/// Value of the non-empty all-digit string `t`, or `None` when it is empty,
/// holds a non-digit, or exceeds `i64::MAX`.
fn parse_digits(t: &Vec<char>) -> (r: Option<i64>)
    ensures
        match r {
            Some(v) => spec_item_val(t@) == Some(v as int),
            None => spec_item_val(t@) is None,
        },
{
    let n = t.len();
    if n == 0 {
        return None;
    }
    let mut acc: i64 = 0;
    let mut i: usize = 0;
    while i < n
        invariant
            n == t@.len(),
            i <= n,
            0 <= acc,
            forall|j: int| 0 <= j < i ==> '0' <= #[trigger] t@[j] <= '9',
            acc as int == spec_dec_val(t@.take(i as int)),
        decreases n - i,
    {
        let c = t[i];
        if c < '0' || c > '9' {
            return None;
        }
        let d: i64 = (c as u32 as i64) - 48;
        if acc > (i64::MAX - d) / 10 {
            proof {
                if spec_all_digits(t@) {
                    lemma_dec_val_mono(t@, i + 1, t@.len() as int);
                    assert(t@.take(i + 1).drop_last() =~= t@.take(i as int));
                    assert(t@.take(t@.len() as int) =~= t@);
                }
            }
            return None;
        }
        acc = acc * 10 + d;
        proof {
            assert(t@.take(i + 1).drop_last() =~= t@.take(i as int));
        }
        i = i + 1;
    }
    proof {
        assert(t@.take(n as int) =~= t@);
    }
    Some(acc)
}

/// Parse a bracketed, comma-separated list of non-negative integers,
/// per [`spec_parse_int_list`].
pub fn parse_int_list(s: &str) -> (r: Option<Vec<i64>>)
    ensures
        match r {
            Some(v) => spec_parse_int_list(s@) == Some(v@.map_values(|x: i64| x as int)),
            None => spec_parse_int_list(s@) is None,
        },
{
    let v = chars_vec(s);
    let (a, b) = trim_bounds(&v, 0, v.len());
    proof {
        assert(v@.subrange(0, v@.len() as int) =~= v@);
    }
    let ghost t = spec_trim(v@);
    if b - a < 2 || v[a] != '[' || v[b - 1] != ']' {
        return None;
    }
    let inner = clean_list_from_to(&v, a + 1, b - 1);
    proof {
        assert(v@.subrange(a + 1, b - 1) =~= t.subrange(1, t.len() - 1));
    }
    let mut out: Vec<i64> = Vec::new();
    let n = inner.len();
    let ghost items = spec_clean_list(t.subrange(1, t.len() - 1));
    proof {
        assert(t[0] == v@[a as int]);
        assert(t[t.len() - 1] == v@[b - 1]);
        lemma_item_vals_all(items);
        assert(items.len() == inner@.len());
    }
    let mut i: usize = 0;
    while i < n
        invariant
            n == inner@.len(),
            i <= n,
            inner.deep_view() == items,
            items.len() == n,
            spec_parse_int_list(s@) == spec_item_vals(items),
            out@.len() == i,
            spec_item_vals(items) matches Some(vals) ==> vals.len() == items.len() && forall|
                j: int,
            | 0 <= j < i ==> out@[j] as int == vals[j],
            forall|j: int| 0 <= j < i ==> spec_item_val(#[trigger] items[j]) is Some,
        decreases n - i,
    {
        let cs = chars_vec(inner[i].as_str());
        match parse_digits(&cs) {
            None => {
                proof {
                    lemma_item_vals_at(items, i as int);
                }
                return None;
            },
            Some(x) => {
                proof {
                    lemma_item_vals_at(items, i as int);
                }
                out.push(x);
            },
        }
        i = i + 1;
    }
    proof {
        lemma_item_vals_all(items);
        if spec_item_vals(items) is Some {
            assert(out@.map_values(|x: i64| x as int) =~= spec_item_vals(items).unwrap());
        }
    }
    Some(out)
}

/// If every entry has a value, `spec_item_vals` lists them in order.
proof fn lemma_item_vals_at(items: Seq<Seq<char>>, i: int)
    requires
        0 <= i < items.len(),
        forall|j: int| 0 <= j < i ==> spec_item_val(#[trigger] items[j]) is Some,
    ensures
        spec_item_val(items[i]) is None ==> spec_item_vals(items) is None,
        spec_item_vals(items) matches Some(vals) ==> vals.len() == items.len() && vals[i]
            == spec_item_val(items[i]).unwrap(),
    decreases items.len(),
{
    lemma_item_vals_all(items);
    if items.len() > 0 && spec_item_val(items[0]) is Some {
        if i > 0 {
            assert(forall|j: int|
                0 <= j < i - 1 ==> items.drop_first()[j] == #[trigger] items[j + 1]);
            lemma_item_vals_at(items.drop_first(), i - 1);
        }
    }
}

/// `spec_item_vals` yields a value exactly when every entry has one, and
/// then one value per entry.
proof fn lemma_item_vals_all(items: Seq<Seq<char>>)
    ensures
        spec_item_vals(items) is Some <==> forall|j: int|
            0 <= j < items.len() ==> spec_item_val(#[trigger] items[j]) is Some,
        spec_item_vals(items) matches Some(vals) ==> vals.len() == items.len(),
    decreases items.len(),
{
    if items.len() > 0 {
        lemma_item_vals_all(items.drop_first());
        if spec_item_vals(items) is Some {
            assert forall|j: int|
                0 <= j < items.len() implies spec_item_val(#[trigger] items[j]) is Some by {
                if j > 0 {
                    assert(items.drop_first()[j - 1] == items[j]);
                }
            }
        } else {
            if forall|j: int| 0 <= j < items.len() ==> spec_item_val(#[trigger] items[j]) is Some {
                assert forall|j: int|
                    0 <= j < items.drop_first().len() implies spec_item_val(
                    #[trigger] items.drop_first()[j],
                ) is Some by {
                    assert(items.drop_first()[j] == items[j + 1]);
                }
                assert(spec_item_val(items[0]) is Some);
                assert(spec_item_vals(items.drop_first()) is Some);
                assert(false);
            }
        }
    }
}

/// The cleaned entries of the comma-separated list `v[from..to]`.
fn clean_list_from_to(v: &Vec<char>, from: usize, to: usize) -> (r: Vec<String>)
    requires
        from <= to <= v@.len(),
    ensures
        r.deep_view() == spec_clean_list(v@.subrange(from as int, to as int)),
{
    let sub = slice_chars(v, from, to);
    let r = clean_list_from(&sub, 0);
    proof {
        assert(sub@.skip(0) =~= sub@);
    }
    r
}

/// The characters `v[from..to]`, as their own vector.
fn slice_chars(v: &Vec<char>, from: usize, to: usize) -> (r: Vec<char>)
    requires
        from <= to <= v@.len(),
    ensures
        r@ == v@.subrange(from as int, to as int),
{
    let mut r: Vec<char> = Vec::new();
    let mut i: usize = from;
    while i < to
        invariant
            from <= i <= to <= v@.len(),
            r@ == v@.subrange(from as int, i as int),
        decreases to - i,
    {
        r.push(v[i]);
        proof {
            assert(r@ =~= v@.subrange(from as int, i + 1));
        }
        i = i + 1;
    }
    r
}


/// Index of the first occurrence of `t` as a substring of `s`, or `-1`;
/// the empty string occurs at the start.
pub open spec fn spec_find_sub(s: Seq<char>, t: Seq<char>) -> int
    decreases s.len(),
{
    if t.len() == 0 {
        0
    } else if s.len() < t.len() {
        -1
    } else if s.take(t.len() as int) == t {
        0
    } else {
        let r = spec_find_sub(s.drop_first(), t);
        if r < 0 {
            -1
        } else {
            r + 1
        }
    }
}

/// With no match starting before `i` and a match starting at `i`, the
/// first occurrence is at `i`.
pub(crate) proof fn lemma_find_sub_at(s: Seq<char>, t: Seq<char>, i: int)
    requires
        0 <= i,
        i + t.len() <= s.len(),
        s.subrange(i, i + t.len()) == t,
        forall|j: int| 0 <= j < i ==> #[trigger] s.subrange(j, j + t.len()) != t,
    ensures
        spec_find_sub(s, t) == i,
    decreases i,
{
    if t.len() == 0 {
        if i > 0 {
            let j0: int = 0;
            assert(s.subrange(j0, j0 + t.len()) != t);
            assert(s.subrange(0, 0) =~= t);
        }
    } else if i == 0 {
        assert(s.take(t.len() as int) =~= s.subrange(0, t.len() as int));
    } else {
        let j0: int = 0;
        assert(s.subrange(j0, j0 + t.len()) != t);
        assert(s.take(t.len() as int) =~= s.subrange(j0, j0 + t.len()));
        assert forall|j: int|
            0 <= j < i - 1 implies #[trigger] s.drop_first().subrange(j, j + t.len()) != t by {
            assert(s.subrange(j + 1, j + 1 + t.len()) != t);
            assert(s.drop_first().subrange(j, j + t.len()) =~= s.subrange(j + 1, j + 1 + t.len()));
        }
        assert(s.drop_first().subrange(i - 1, i - 1 + t.len()) =~= s.subrange(i, i + t.len()));
        lemma_find_sub_at(s.drop_first(), t, i - 1);
    }
}

/// With no match starting anywhere, there is no occurrence.
pub(crate) proof fn lemma_find_sub_none(s: Seq<char>, t: Seq<char>)
    requires
        forall|j: int|
            0 <= j && j + t.len() <= s.len() ==> #[trigger] s.subrange(j, j + t.len()) != t,
    ensures
        spec_find_sub(s, t) == -1,
    decreases s.len(),
{
    if t.len() == 0 {
        let j0: int = 0;
        assert(s.subrange(j0, j0 + t.len()) != t);
        assert(s.subrange(0, 0) =~= t);
    } else if s.len() >= t.len() {
        let j0: int = 0;
        assert(s.subrange(j0, j0 + t.len()) != t);
        assert(s.take(t.len() as int) =~= s.subrange(j0, j0 + t.len()));
        assert forall|j: int|
            0 <= j && j + t.len() <= s.drop_first().len() implies #[trigger] s.drop_first()
                .subrange(j, j + t.len()) != t by {
            assert(s.subrange(j + 1, j + 1 + t.len()) != t);
            assert(s.drop_first().subrange(j, j + t.len()) =~= s.subrange(j + 1, j + 1 + t.len()));
        }
        lemma_find_sub_none(s.drop_first(), t);
    }
}

/// Whether `v[at..]` starts with `t`.
fn window_matches(v: &Vec<char>, at: usize, t: &Vec<char>) -> (b: bool)
    requires
        at + t@.len() <= v@.len(),
    ensures
        b == (v@.subrange(at as int, at as int + t@.len() as int) == t@),
{
    let n = v.len();
    let m = t.len();
    let mut k: usize = 0;
    while k < m
        invariant
            n == v@.len(),
            m == t@.len(),
            at + m <= n,
            k <= m,
            forall|x: int| 0 <= x < k ==> v@[at + x] == t@[x],
        decreases m - k,
    {
        if v[at + k] != t[k] {
            proof {
                assert(v@.subrange(at as int, at as int + m as int)[k as int] != t@[k as int]);
            }
            return false;
        }
        k = k + 1;
    }
    proof {
        assert(v@.subrange(at as int, at as int + m as int) =~= t@);
    }
    true
}

/// First index where `t` occurs as a substring of `v`, if any.
pub fn find_sub(v: &Vec<char>, t: &Vec<char>) -> (r: Option<usize>)
    ensures
        match r {
            Some(i) => i + t@.len() <= v@.len() && spec_find_sub(v@, t@) == i,
            None => spec_find_sub(v@, t@) == -1,
        },
{
    let n = v.len();
    let m = t.len();
    if m == 0 {
        return Some(0);
    }
    if m > n {
        proof {
            assert forall|j: int|
                0 <= j && j + t@.len() <= v@.len() implies #[trigger] v@.subrange(
                j,
                j + t@.len(),
            ) != t@ by {}
            lemma_find_sub_none(v@, t@);
        }
        return None;
    }
    let mut i: usize = 0;
    while i <= n - m
        invariant
            n == v@.len(),
            m == t@.len(),
            m <= n,
            m >= 1,
            i <= n - m + 1,
            forall|j: int| 0 <= j < i ==> #[trigger] v@.subrange(j, j + t@.len()) != t@,
        decreases n - m - i + 1,
    {
        if window_matches(v, i, t) {
            proof {
                lemma_find_sub_at(v@, t@, i as int);
            }
            return Some(i);
        }
        i = i + 1;
    }
    proof {
        assert forall|j: int|
            0 <= j && j + t@.len() <= v@.len() implies #[trigger] v@.subrange(j, j + t@.len())
            != t@ by {}
        lemma_find_sub_none(v@, t@);
    }
    None
}

} // verus!
