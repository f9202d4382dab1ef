//! The review report: HTML escaping, media-URL handling, the level
//! histogram, and the report page itself.

use vstd::prelude::*;
use vstd::string::StrSliceExecFns;
use vstd::string::StringExecFns;

use crate::text::{
    chars_vec, push_char, spec_dec, spec_find, spec_int_dec, spec_join, u64_to_string,
};

verus! {

/// What HTML escaping turns one character into.
pub open spec fn spec_escape_html_char(c: char) -> Seq<char> {
    if c == '&' {
        "&amp;"@
    } else if c == '<' {
        "&lt;"@
    } else if c == '>' {
        "&gt;"@
    } else if c == '"' {
        "&quot;"@
    } else if c == '\'' {
        "&#39;"@
    } else {
        seq![c]
    }
}

/// The HTML-escaped form of `s`: every markup character becomes its
/// entity, every other character passes through.
pub open spec fn spec_escape_html(s: Seq<char>) -> Seq<char>
    decreases s.len(),
{
    if s.len() == 0 {
        Seq::empty()
    } else {
        spec_escape_html_char(s[0]) + spec_escape_html(s.drop_first())
    }
}

/// What JSON string escaping turns one character into.
pub open spec fn spec_escape_json_char(c: char) -> Seq<char> {
    if c == '\\' {
        "\\\\"@
    } else if c == '"' {
        "\\\""@
    } else {
        seq![c]
    }
}

/// The form of `s` safe inside a JSON string literal: backslashes and
/// double quotes are escaped, everything else passes through.
pub open spec fn spec_escape_json(s: Seq<char>) -> Seq<char>
    decreases s.len(),
{
    if s.len() == 0 {
        Seq::empty()
    } else {
        spec_escape_json_char(s[0]) + spec_escape_json(s.drop_first())
    }
}

/// Append [`spec_escape_html_char`] of `c`.
fn append_html_escaped(out: &mut String, c: char)
    ensures
        final(out)@ == old(out)@ + spec_escape_html_char(c),
{
    if c == '&' {
        out.append("&amp;");
    } else if c == '<' {
        out.append("&lt;");
    } else if c == '>' {
        out.append("&gt;");
    } else if c == '"' {
        out.append("&quot;");
    } else if c == '\'' {
        out.append("&#39;");
    } else {
        push_char(out, c);
        proof {
            assert(old(out)@.push(c) =~= old(out)@ + seq![c]);
        }
    }
}

/// Escape `s` for embedding in HTML text.
pub fn escape_html(s: &str) -> (r: String)
    ensures
        r@ == spec_escape_html(s@),
{
    let v = chars_vec(s);
    let n = v.len();
    let mut out = String::new();
    let mut i: usize = 0;
    proof {
        assert(s@.skip(0) =~= s@);
    }
    while i < n
        invariant
            n == v@.len(),
            v@ == s@,
            i <= n,
            spec_escape_html(s@) == out@ + spec_escape_html(s@.skip(i as int)),
        decreases n - i,
    {
        let ghost prev = out@;
        append_html_escaped(&mut out, v[i]);
        proof {
            assert(s@.skip(i as int)[0] == s@[i as int]);
            assert(s@.skip(i as int).drop_first() =~= s@.skip(i + 1));
            let ec = spec_escape_html_char(s@[i as int]);
            let rest = spec_escape_html(s@.skip(i + 1));
            assert(prev + (ec + rest) =~= (prev + ec) + rest);
        }
        i = i + 1;
    }
    proof {
        assert(s@.skip(n as int) =~= Seq::<char>::empty());
        assert(out@ + Seq::<char>::empty() =~= out@);
    }
    out
}

/// Append [`spec_escape_json_char`] of `c`.
fn append_json_escaped(out: &mut String, c: char)
    ensures
        final(out)@ == old(out)@ + spec_escape_json_char(c),
{
    if c == '\\' {
        out.append("\\\\");
    } else if c == '"' {
        out.append("\\\"");
    } else {
        push_char(out, c);
        proof {
            assert(old(out)@.push(c) =~= old(out)@ + seq![c]);
        }
    }
}

/// Escape `s` for embedding inside a JSON string literal.
pub fn escape_json_string(s: &str) -> (r: String)
    ensures
        r@ == spec_escape_json(s@),
{
    let v = chars_vec(s);
    let n = v.len();
    let mut out = String::new();
    let mut i: usize = 0;
    proof {
        assert(s@.skip(0) =~= s@);
    }
    while i < n
        invariant
            n == v@.len(),
            v@ == s@,
            i <= n,
            spec_escape_json(s@) == out@ + spec_escape_json(s@.skip(i as int)),
        decreases n - i,
    {
        let ghost prev = out@;
        append_json_escaped(&mut out, v[i]);
        proof {
            assert(s@.skip(i as int)[0] == s@[i as int]);
            assert(s@.skip(i as int).drop_first() =~= s@.skip(i + 1));
            let ec = spec_escape_json_char(s@[i as int]);
            let rest = spec_escape_json(s@.skip(i + 1));
            assert(prev + (ec + rest) =~= (prev + ec) + rest);
        }
        i = i + 1;
    }
    proof {
        assert(s@.skip(n as int) =~= Seq::<char>::empty());
        assert(out@ + Seq::<char>::empty() =~= out@);
    }
    out
}

/// The ASCII-lowercased form of a character.
pub open spec fn spec_lower_char(c: char) -> char {
    if 'A' <= c <= 'Z' {
        (((c as u32) + 32) as u8) as char
    } else {
        c
    }
}

/// Lowercase an ASCII letter; other characters pass through.
fn lower_char(c: char) -> (r: char)
    ensures
        r == spec_lower_char(c),
{
    if 'A' <= c && c <= 'Z' {
        (((c as u32) + 32) as u8) as char
    } else {
        c
    }
}

/// Index of the last occurrence of `c` in `s`, or `-1`.
pub open spec fn spec_find_last(s: Seq<char>, c: char) -> int
    decreases s.len(),
{
    if s.len() == 0 {
        -1
    } else if s.last() == c {
        s.len() - 1
    } else {
        spec_find_last(s.drop_last(), c)
    }
}

proof fn lemma_find_last(s: Seq<char>, c: char)
    ensures
        -1 <= spec_find_last(s, c) < s.len(),
        spec_find_last(s, c) >= 0 ==> s[spec_find_last(s, c)] == c,
        forall|j: int| spec_find_last(s, c) < j < s.len() ==> s[j] != c,
    decreases s.len(),
{
    if s.len() > 0 && s.last() != c {
        lemma_find_last(s.drop_last(), c);
        assert forall|j: int| spec_find_last(s, c) < j < s.len() implies s[j] != c by {
            if j < s.len() - 1 {
                assert(s.drop_last()[j] == s[j]);
            }
        }
    }
}

/// First index of `c` in `v[from..to]`, reported against the subrange.
pub(crate) fn find_char_range(v: &Vec<char>, from: usize, to: usize, c: char) -> (r: Option<usize>)
    requires
        from <= to <= v@.len(),
    ensures
        match r {
            Some(j) => from <= j < to && spec_find(v@.subrange(from as int, to as int), c) == j
                - from,
            None => spec_find(v@.subrange(from as int, to as int), c) == -1,
        },
{
    let ghost sub = v@.subrange(from as int, to as int);
    let mut i: usize = from;
    while i < to
        invariant
            from <= i <= to <= v@.len(),
            sub == v@.subrange(from as int, to as int),
            forall|j: int| from <= j < i ==> v@[j] != c,
        decreases to - i,
    {
        if v[i] == c {
            proof {
                crate::text::lemma_find(sub, c);
                assert(sub[i - from] == c);
            }
            return Some(i);
        }
        i = i + 1;
    }
    proof {
        crate::text::lemma_find(sub, c);
        let f = spec_find(sub, c);
        if f >= 0 {
            assert(v@[f + from] == c);
        }
    }
    None
}

/// Last index of `c` in `v[from..to]`, reported against the subrange.
fn find_last_range(v: &Vec<char>, from: usize, to: usize, c: char) -> (r: Option<usize>)
    requires
        from <= to <= v@.len(),
    ensures
        match r {
            Some(j) => from <= j < to && spec_find_last(v@.subrange(from as int, to as int), c)
                == j - from,
            None => spec_find_last(v@.subrange(from as int, to as int), c) == -1,
        },
{
    let ghost sub = v@.subrange(from as int, to as int);
    let mut i: usize = to;
    while i > from
        invariant
            from <= i <= to <= v@.len(),
            sub == v@.subrange(from as int, to as int),
            forall|j: int| i <= j < to ==> v@[j] != c,
        decreases i,
    {
        i = i - 1;
        if v[i] == c {
            proof {
                lemma_find_last(sub, c);
                assert(sub[i - from] == c);
            }
            return Some(i);
        }
    }
    proof {
        lemma_find_last(sub, c);
        let f = spec_find_last(sub, c);
        if f >= 0 {
            assert(v@[f + from] == c);
        }
    }
    None
}

/// The file extension of a media URL: any query string or fragment is cut
/// off, the last path segment is taken, and everything from its last dot on
/// is kept, ASCII-lowercased.  A segment without a dot has no extension.
pub open spec fn spec_extract_url_extension(s: Seq<char>) -> Seq<char> {
    let q = spec_find(s, '?');
    let s1 = if q >= 0 {
        s.take(q)
    } else {
        s
    };
    let h = spec_find(s1, '#');
    let s2 = if h >= 0 {
        s1.take(h)
    } else {
        s1
    };
    let sl = spec_find_last(s2, '/');
    let seg = if sl >= 0 {
        s2.skip(sl + 1)
    } else {
        s2
    };
    let d = spec_find_last(seg, '.');
    if d >= 0 {
        seg.skip(d).map_values(|c: char| spec_lower_char(c))
    } else {
        Seq::empty()
    }
}

/// Extract the lowercased file extension of a URL, per
/// [`spec_extract_url_extension`]; the empty string when there is none.
pub fn extract_url_extension(url: &str) -> (r: String)
    ensures
        r@ == spec_extract_url_extension(url@),
{
    let v = chars_vec(url);
    let n = v.len();
    proof {
        assert(v@.subrange(0, n as int) =~= url@);
    }
    let end1: usize = match find_char_range(&v, 0, n, '?') {
        Some(j) => j,
        None => n,
    };
    proof {
        if spec_find(url@, '?') >= 0 {
            assert(v@.subrange(0, end1 as int) =~= url@.take(spec_find(url@, '?')));
        } else {
            assert(v@.subrange(0, end1 as int) =~= url@);
        }
    }
    let ghost s1 = v@.subrange(0, end1 as int);
    let end2: usize = match find_char_range(&v, 0, end1, '#') {
        Some(j) => j,
        None => end1,
    };
    proof {
        if spec_find(s1, '#') >= 0 {
            assert(v@.subrange(0, end2 as int) =~= s1.take(spec_find(s1, '#')));
        } else {
            assert(v@.subrange(0, end2 as int) =~= s1);
        }
    }
    let ghost s2 = v@.subrange(0, end2 as int);
    let start: usize = match find_last_range(&v, 0, end2, '/') {
        Some(j) => j + 1,
        None => 0,
    };
    proof {
        if spec_find_last(s2, '/') >= 0 {
            assert(v@.subrange(start as int, end2 as int) =~= s2.skip(spec_find_last(s2, '/') + 1));
        } else {
            assert(v@.subrange(start as int, end2 as int) =~= s2);
        }
    }
    let ghost seg = v@.subrange(start as int, end2 as int);
    let dot: usize = match find_last_range(&v, start, end2, '.') {
        Some(j) => j,
        None => {
            proof {
                assert(spec_find_last(seg, '.') == -1);
            }
            return String::new();
        },
    };
    proof {
        assert(v@.subrange(dot as int, end2 as int) =~= seg.skip(spec_find_last(seg, '.')));
    }
    let mut out = String::new();
    let mut i: usize = dot;
    while i < end2
        invariant
            dot <= i <= end2 <= v@.len(),
            out@ == v@.subrange(dot as int, i as int).map_values(|c: char| spec_lower_char(c)),
        decreases end2 - i,
    {
        push_char(&mut out, lower_char(v[i]));
        proof {
            assert(out@ =~= v@.subrange(dot as int, i + 1).map_values(
                |c: char| spec_lower_char(c),
            ));
        }
        i = i + 1;
    }
    proof {
        assert(out@ =~= seg.skip(spec_find_last(seg, '.')).map_values(
            |c: char| spec_lower_char(c),
        ));
    }
    out
}

/// One due song, enriched with display data for the report.
#[derive(Debug)]
pub struct EnrichedSong {
    pub song_name: String,
    pub level: i64,
    pub wait_days: i64,
    pub artist_name: String,
    pub show_names: Vec<String>,
    pub media_urls: Vec<String>,
}

/// Mathematical model of an [`EnrichedSong`].
#[verifier::ext_equal]
pub ghost struct EnrichedSongV {
    pub song_name: Seq<char>,
    pub level: int,
    pub wait_days: int,
    pub artist_name: Seq<char>,
    pub show_names: Seq<Seq<char>>,
    pub media_urls: Seq<Seq<char>>,
}

impl View for EnrichedSong {
    type V = EnrichedSongV;

    open spec fn view(&self) -> EnrichedSongV {
        EnrichedSongV {
            song_name: self.song_name@,
            level: self.level as int,
            wait_days: self.wait_days as int,
            artist_name: self.artist_name@,
            show_names: self.show_names.deep_view(),
            media_urls: self.media_urls.deep_view(),
        }
    }
}

impl DeepView for EnrichedSong {
    type V = EnrichedSongV;

    open spec fn deep_view(&self) -> EnrichedSongV {
        self.view()
    }
}

/// `l` with `x` appended, unless `l` already holds it.
pub open spec fn spec_push_unique(l: Seq<Seq<char>>, x: Seq<char>) -> Seq<Seq<char>> {
    if crate::engine::spec_contains(l, x) {
        l
    } else {
        l.push(x)
    }
}

/// Append `s` unless `dst` already holds it: first occurrence wins, later
/// duplicates are dropped.
pub fn push_unique(dst: &mut Vec<String>, s: &str)
    ensures
        final(dst).deep_view() == spec_push_unique(old(dst).deep_view(), s@),
{
    if !crate::engine::contains_string_list(dst, s) {
        dst.push(s.to_owned());
        proof {
            assert(dst.deep_view() =~= old(dst).deep_view().push(s@));
        }
    }
}

/// The histogram with one more observation of `x`: the count of `x` grows
/// by one, or a fresh entry for `x` is inserted at its place in the
/// ascending key order.
pub open spec fn spec_hist_insert(h: Seq<(i64, u64)>, x: i64) -> Seq<(i64, u64)>
    decreases h.len(),
{
    if h.len() == 0 {
        seq![(x, 1u64)]
    } else if h[0].0 == x {
        seq![(x, ((h[0].1 + 1) as u64))] + h.drop_first()
    } else if h[0].0 > x {
        seq![(x, 1u64)] + h
    } else {
        seq![h[0]] + spec_hist_insert(h.drop_first(), x)
    }
}

/// The level histogram of `levels`: how often each distinct level occurs,
/// in ascending level order.
pub open spec fn spec_hist(levels: Seq<i64>) -> Seq<(i64, u64)>
    decreases levels.len(),
{
    if levels.len() == 0 {
        Seq::empty()
    } else {
        spec_hist_insert(spec_hist(levels.drop_last()), levels.last())
    }
}

/// Inserting at the first position whose key is not below `x` is what
/// [`spec_hist_insert`] does.
proof fn lemma_hist_insert_at(h: Seq<(i64, u64)>, x: i64, idx: int)
    requires
        0 <= idx <= h.len(),
        forall|j: int| 0 <= j < idx ==> (#[trigger] h[j]).0 < x,
        idx < h.len() ==> h[idx].0 >= x,
    ensures
        idx < h.len() && h[idx].0 == x ==> spec_hist_insert(h, x) == h.update(
            idx,
            (x, ((h[idx].1 + 1) as u64)),
        ),
        !(idx < h.len() && h[idx].0 == x) ==> spec_hist_insert(h, x) == h.take(idx) + seq![
            (x, 1u64),
        ] + h.skip(idx),
    decreases idx,
{
    if idx == 0 {
        if h.len() == 0 {
            assert(spec_hist_insert(h, x) =~= h.take(0) + seq![(x, 1u64)] + h.skip(0));
        } else if h[0].0 == x {
            assert(spec_hist_insert(h, x) =~= h.update(0, (x, ((h[0].1 + 1) as u64))));
        } else {
            assert(spec_hist_insert(h, x) =~= h.take(0) + seq![(x, 1u64)] + h.skip(0));
        }
    } else {
        assert(h[0].0 < x);
        assert forall|j: int| 0 <= j < idx - 1 implies (#[trigger] h.drop_first()[j]).0 < x by {
            assert(h.drop_first()[j] == h[j + 1]);
        }
        if idx < h.len() {
            assert(h.drop_first()[idx - 1] == h[idx]);
        }
        lemma_hist_insert_at(h.drop_first(), x, idx - 1);
        if idx < h.len() && h[idx].0 == x {
            assert(spec_hist_insert(h, x) =~= h.update(idx, (x, ((h[idx].1 + 1) as u64))));
        } else {
            assert(h.drop_first().take(idx - 1) =~= h.take(idx).drop_first());
            assert(h.drop_first().skip(idx - 1) =~= h.skip(idx));
            assert(spec_hist_insert(h, x) =~= h.take(idx) + seq![(x, 1u64)] + h.skip(idx));
        }
    }
}


/// Every entry of an insertion result carries the inserted key or one of
/// the original keys.
proof fn lemma_hist_insert_member(h: Seq<(i64, u64)>, x: i64, i: int)
    requires
        0 <= i < spec_hist_insert(h, x).len(),
    ensures
        spec_hist_insert(h, x)[i].0 == x || (exists|j: int|
            0 <= j < h.len() && spec_hist_insert(h, x)[i].0 == (#[trigger] h[j]).0),
    decreases h.len(),
{
    if h.len() == 0 {
    } else if h[0].0 == x {
        if i > 0 {
            assert(spec_hist_insert(h, x)[i] == h.drop_first()[i - 1]);
            assert(spec_hist_insert(h, x)[i].0 == h[i].0);
        }
    } else if h[0].0 > x {
        if i > 0 {
            assert(spec_hist_insert(h, x)[i].0 == h[i - 1].0);
        }
    } else {
        if i > 0 {
            lemma_hist_insert_member(h.drop_first(), x, i - 1);
            let r = spec_hist_insert(h, x);
            assert(r[i] == spec_hist_insert(h.drop_first(), x)[i - 1]);
            if r[i].0 != x {
                let j = choose|j: int|
                    0 <= j < h.drop_first().len() && spec_hist_insert(h.drop_first(), x)[i - 1].0
                        == (#[trigger] h.drop_first()[j]).0;
                assert(r[i].0 == h[j + 1].0);
            }
        } else {
            assert(spec_hist_insert(h, x)[0] == h[0]);
        }
    }
}

/// Inserting an observation keeps the histogram strictly ascending.
proof fn lemma_hist_insert_sorted(h: Seq<(i64, u64)>, x: i64)
    requires
        forall|i: int, j: int| 0 <= i < j < h.len() ==> (#[trigger] h[i]).0 < (#[trigger] h[j]).0,
    ensures
        ({
            let r = spec_hist_insert(h, x);
            forall|i: int, j: int|
                0 <= i < j < r.len() ==> (#[trigger] r[i]).0 < (#[trigger] r[j]).0
        }),
    decreases h.len(),
{
    let r = spec_hist_insert(h, x);
    if h.len() == 0 {
    } else if h[0].0 == x {
        assert forall|i: int, j: int|
            0 <= i < j < r.len() implies (#[trigger] r[i]).0 < (#[trigger] r[j]).0 by {
            assert(r[j] == h.drop_first()[j - 1]);
            assert(r[j].0 == h[j].0);
            if i > 0 {
                assert(r[i].0 == h[i].0);
            }
        }
    } else if h[0].0 > x {
        assert forall|i: int, j: int|
            0 <= i < j < r.len() implies (#[trigger] r[i]).0 < (#[trigger] r[j]).0 by {
            assert(r[j].0 == h[j - 1].0);
            if i > 0 {
                assert(r[i].0 == h[i - 1].0);
            } else {
                if j - 1 > 0 {
                    assert(h[0].0 < h[j - 1].0);
                }
            }
        }
    } else {
        assert forall|i: int, j: int|
            0 <= i < j < h.drop_first().len() implies (#[trigger] h.drop_first()[i]).0
            < (#[trigger] h.drop_first()[j]).0 by {
            assert(h.drop_first()[i] == h[i + 1]);
            assert(h.drop_first()[j] == h[j + 1]);
        }
        lemma_hist_insert_sorted(h.drop_first(), x);
        let rr = spec_hist_insert(h.drop_first(), x);
        assert forall|i: int, j: int|
            0 <= i < j < r.len() implies (#[trigger] r[i]).0 < (#[trigger] r[j]).0 by {
            if i == 0 {
                assert(r[j] == rr[j - 1]);
                lemma_hist_insert_member(h.drop_first(), x, j - 1);
                if rr[j - 1].0 != x {
                    let k = choose|k: int|
                        0 <= k < h.drop_first().len() && rr[j - 1].0
                            == (#[trigger] h.drop_first()[k]).0;
                    assert(h.drop_first()[k] == h[k + 1]);
                    assert(h[0].0 < h[k + 1].0);
                }
            } else {
                assert(r[i] == rr[i - 1]);
                assert(r[j] == rr[j - 1]);
            }
        }
    }
}

/// The level histogram lists each level at most once, in strictly
/// ascending order.
pub proof fn lemma_hist_sorted(levels: Seq<i64>)
    ensures
        ({
            let h = spec_hist(levels);
            forall|i: int, j: int|
                0 <= i < j < h.len() ==> (#[trigger] h[i]).0 < (#[trigger] h[j]).0
        }),
    decreases levels.len(),
{
    if levels.len() > 0 {
        lemma_hist_sorted(levels.drop_last());
        lemma_hist_insert_sorted(spec_hist(levels.drop_last()), levels.last());
    }
}

/// Compute [`spec_hist`] of the levels, per [`spec_hist_insert`].
pub fn level_histogram(levels: &Vec<i64>) -> (h: Vec<(i64, u64)>)
    ensures
        h@ == spec_hist(levels@),
{
    let n = levels.len();
    let mut h: Vec<(i64, u64)> = Vec::new();
    let mut i: usize = 0;
    proof {
        assert(levels@.take(0) =~= Seq::<i64>::empty());
    }
    while i < n
        invariant
            n == levels@.len(),
            i <= n,
            h@ == spec_hist(levels@.take(i as int)),
            forall|j: int| 0 <= j < h@.len() ==> (#[trigger] h@[j]).1 <= i,
        decreases n - i,
    {
        let x = levels[i];
        let m = h.len();
        let mut idx: usize = 0;
        while idx < m && h[idx].0 < x
            invariant
                m == h@.len(),
                idx <= m,
                forall|j: int| 0 <= j < idx ==> (#[trigger] h@[j]).0 < x,
            decreases m - idx,
        {
            idx = idx + 1;
        }
        proof {
            lemma_hist_insert_at(h@, x, idx as int);
            assert(levels@.take(i + 1).drop_last() =~= levels@.take(i as int));
            assert(levels@.take(i + 1).last() == levels@[i as int]);
        }
        let ghost prev = h@;
        if idx < m && h[idx].0 == x {
            let c = h[idx].1;
            vstd::pervasive::VecAdditionalExecFns::set(&mut h, idx, (x, c + 1));
            proof {
                assert(h@ =~= prev.update(idx as int, (x, ((prev[idx as int].1 + 1) as u64))));
            }
        } else {
            h.insert(idx, (x, 1));
            proof {
                assert(h@ =~= prev.take(idx as int) + seq![(x, 1u64)] + prev.skip(idx as int));
            }
        }
        i = i + 1;
    }
    proof {
        assert(levels@.take(n as int) =~= levels@);
    }
    h
}

/// Opening of the report page, up to the due-count figure.
pub const REPORT_HEAD: &'static str = "<!DOCTYPE html>\n<html>\n<head>\n<meta charset=\"utf-8\">\n<title>Learning song review</title>\n</head>\n<body>\n<h1>Learning song review</h1>\n<p>Total due: ";

/// Between the due-count figure and the song data.
pub const REPORT_AFTER_TOTAL: &'static str =
    " songs</p>\n<div id=\"app\"></div>\n<script>\nconst SONGS = ";

/// Between the song data and the level distribution.
pub const REPORT_AFTER_SONGS: &'static str = ";\nconst LEVEL_DIST = ";

/// Closing of the report page.
pub const REPORT_TAIL: &'static str = ";\n</script>\n</body>\n</html>\n";

/// The JSON object for one media URL: the escaped URL and its extension.
pub open spec fn spec_media_json(u: Seq<char>) -> Seq<char> {
    "{\"url\":\""@ + spec_escape_json(spec_escape_html(u)) + "\",\"ext\":\""@ + spec_escape_json(
        spec_extract_url_extension(u),
    ) + "\"}"@
}

/// The JSON array of a song's media URLs.
pub open spec fn spec_media_list_json(urls: Seq<Seq<char>>) -> Seq<char> {
    "["@ + spec_join(urls.map_values(|u: Seq<char>| spec_media_json(u)), ","@) + "]"@
}

/// The JSON object for one due song, as the report page's script reads it.
/// Names are HTML-escaped before they are embedded; the displayed level is
/// one above the stored level, so the lowest reads as level one.
pub open spec fn spec_song_json(s: EnrichedSongV) -> Seq<char> {
    "{\"name\":\""@ + spec_escape_json(spec_escape_html(s.song_name)) + "\",\"artist\":\""@
        + spec_escape_json(spec_escape_html(s.artist_name)) + "\",\"level\":"@ + spec_int_dec(
        s.level + 1,
    ) + ",\"waitDays\":"@ + spec_int_dec(s.wait_days) + ",\"shows\":\""@ + spec_escape_json(
        spec_join(s.show_names.map_values(|n: Seq<char>| spec_escape_html(n)), " | "@),
    ) + "\",\"mediaUrls\":"@ + spec_media_list_json(s.media_urls) + "}"@
}

/// The JSON array of all due songs.
pub open spec fn spec_songs_json(songs: Seq<EnrichedSongV>) -> Seq<char> {
    "["@ + spec_join(songs.map_values(|s: EnrichedSongV| spec_song_json(s)), ","@) + "]"@
}

/// The JSON object for one histogram entry, with the same displayed-level
/// shift as the songs.
pub open spec fn spec_dist_entry_json(p: (i64, u64)) -> Seq<char> {
    "{\"level\":"@ + spec_int_dec(p.0 as int + 1) + ",\"count\":"@ + spec_dec(p.1 as nat) + "}"@
}

/// The JSON array of the level distribution.
pub open spec fn spec_dist_json(d: Seq<(i64, u64)>) -> Seq<char> {
    "["@ + spec_join(d.map_values(|p: (i64, u64)| spec_dist_entry_json(p)), ","@) + "]"@
}

/// The whole report page.
pub open spec fn spec_review_html(songs: Seq<EnrichedSongV>, dist: Seq<(i64, u64)>) -> Seq<char> {
    REPORT_HEAD@ + spec_dec(songs.len()) + REPORT_AFTER_TOTAL@ + spec_songs_json(songs)
        + REPORT_AFTER_SONGS@ + spec_dist_json(dist) + REPORT_TAIL@
}

/// Decimal of `v + 1`, total even at the numeric edge.
fn plus_one_string(v: i64) -> (s: String)
    ensures
        s@ == spec_int_dec(v as int + 1),
{
    if v >= 0 {
        u64_to_string(v as u64 + 1)
    } else {
        crate::text::i64_to_string(v + 1)
    }
}

/// Render [`spec_media_json`].
fn media_json(u: &str) -> (r: String)
    ensures
        r@ == spec_media_json(u@),
{
    let mut out = "{\"url\":\"".to_owned();
    let eh = escape_html(u);
    out.append(escape_json_string(eh.as_str()).as_str());
    out.append("\",\"ext\":\"");
    let ext = extract_url_extension(u);
    out.append(escape_json_string(ext.as_str()).as_str());
    out.append("\"}");
    proof {
        assert(out@ =~= spec_media_json(u@));
    }
    out
}

/// Render [`spec_media_list_json`].
fn media_list_json(urls: &Vec<String>) -> (r: String)
    ensures
        r@ == spec_media_list_json(urls.deep_view()),
{
    let ghost parts = urls.deep_view().map_values(|u: Seq<char>| spec_media_json(u));
    let n = urls.len();
    let mut out = "[".to_owned();
    let mut i: usize = 0;
    proof {
        assert(parts.take(0) =~= Seq::<Seq<char>>::empty());
    }
    while i < n
        invariant
            n == urls@.len(),
            parts == urls.deep_view().map_values(|u: Seq<char>| spec_media_json(u)),
            i <= n,
            out@ == "["@ + spec_join(parts.take(i as int), ","@),
        decreases n - i,
    {
        if i > 0 {
            out.append(",");
        }
        out.append(media_json(urls[i].as_str()).as_str());
        proof {
            assert(parts.take(i + 1).drop_last() =~= parts.take(i as int));
            assert(parts.take(i + 1).last() == parts[i as int]);
            assert(parts[i as int] == spec_media_json(urls@[i as int]@));
        }
        i = i + 1;
    }
    out.append("]");
    proof {
        assert(parts.take(n as int) =~= parts);
        assert(out@ =~= "["@ + spec_join(parts, ","@) + "]"@);
    }
    out
}

/// Render [`spec_song_json`].
fn song_json(s: &EnrichedSong) -> (r: String)
    ensures
        r@ == spec_song_json(s@),
{
    let mut out = "{\"name\":\"".to_owned();
    let ehn = escape_html(s.song_name.as_str());
    out.append(escape_json_string(ehn.as_str()).as_str());
    out.append("\",\"artist\":\"");
    let eha = escape_html(s.artist_name.as_str());
    out.append(escape_json_string(eha.as_str()).as_str());
    out.append("\",\"level\":");
    out.append(plus_one_string(s.level).as_str());
    out.append(",\"waitDays\":");
    out.append(crate::text::i64_to_string(s.wait_days).as_str());
    out.append(",\"shows\":\"");

    let ghost shown = s.show_names.deep_view().map_values(|n: Seq<char>| spec_escape_html(n));
    let mut esc_names: Vec<String> = Vec::new();
    let m = s.show_names.len();
    let mut i: usize = 0;
    proof {
        assert(esc_names.deep_view() =~~= shown.take(0));
    }
    while i < m
        invariant
            m == s.show_names@.len(),
            shown == s.show_names.deep_view().map_values(|n: Seq<char>| spec_escape_html(n)),
            i <= m,
            esc_names@.len() == i,
            esc_names.deep_view() == shown.take(i as int),
        decreases m - i,
    {
        esc_names.push(escape_html(s.show_names[i].as_str()));
        proof {
            assert(s.show_names.deep_view()[i as int] == s.show_names@[i as int]@);
            assert(shown[i as int] == spec_escape_html(s.show_names@[i as int]@));
            assert(esc_names.deep_view() =~~= shown.take(i + 1));
        }
        i = i + 1;
    }
    proof {
        assert(shown.take(m as int) =~= shown);
    }
    let joined = crate::text::join_strings(&esc_names, " | ");
    out.append(escape_json_string(joined.as_str()).as_str());
    out.append("\",\"mediaUrls\":");
    out.append(media_list_json(&s.media_urls).as_str());
    out.append("}");
    proof {
        assert(out@ =~= spec_song_json(s@));
    }
    out
}

/// Render [`spec_dist_json`].
fn dist_json(d: &Vec<(i64, u64)>) -> (r: String)
    ensures
        r@ == spec_dist_json(d@),
{
    let ghost parts = d@.map_values(|p: (i64, u64)| spec_dist_entry_json(p));
    let n = d.len();
    let mut out = "[".to_owned();
    let mut i: usize = 0;
    proof {
        assert(parts.take(0) =~= Seq::<Seq<char>>::empty());
    }
    while i < n
        invariant
            n == d@.len(),
            parts == d@.map_values(|p: (i64, u64)| spec_dist_entry_json(p)),
            i <= n,
            out@ == "["@ + spec_join(parts.take(i as int), ","@),
        decreases n - i,
    {
        if i > 0 {
            out.append(",");
        }
        let (level, count) = d[i];
        out.append("{\"level\":");
        out.append(plus_one_string(level).as_str());
        out.append(",\"count\":");
        out.append(u64_to_string(count).as_str());
        out.append("}");
        proof {
            assert(parts.take(i + 1).drop_last() =~= parts.take(i as int));
            assert(parts.take(i + 1).last() == parts[i as int]);
            assert(out@ =~= "["@ + spec_join(parts.take(i + 1), ","@));
        }
        i = i + 1;
    }
    out.append("]");
    proof {
        assert(parts.take(n as int) =~= parts);
        assert(out@ =~= "["@ + spec_join(parts, ","@) + "]"@);
    }
    out
}

/// Build the report page: the due count, the song data and the level
/// distribution, embedded in the page per [`spec_review_html`].
pub fn build_review_html(songs: &Vec<EnrichedSong>, level_dist: &Vec<(i64, u64)>) -> (html: String)
    ensures
        html@ == spec_review_html(songs.deep_view(), level_dist@),
{
    let ghost parts = songs.deep_view().map_values(|s: EnrichedSongV| spec_song_json(s));
    let mut out = REPORT_HEAD.to_owned();
    out.append(u64_to_string(songs.len() as u64).as_str());
    out.append(REPORT_AFTER_TOTAL);
    out.append("[");
    let n = songs.len();
    let mut i: usize = 0;
    let ghost mid = out@;
    proof {
        assert(parts.take(0) =~= Seq::<Seq<char>>::empty());
    }
    while i < n
        invariant
            n == songs@.len(),
            parts == songs.deep_view().map_values(|s: EnrichedSongV| spec_song_json(s)),
            i <= n,
            out@ == mid + spec_join(parts.take(i as int), ","@),
        decreases n - i,
    {
        if i > 0 {
            out.append(",");
        }
        out.append(song_json(&songs[i]).as_str());
        proof {
            assert(parts.take(i + 1).drop_last() =~= parts.take(i as int));
            assert(parts.take(i + 1).last() == parts[i as int]);
            assert(parts[i as int] == spec_song_json(songs@[i as int]@));
            assert(out@ =~= mid + spec_join(parts.take(i + 1), ","@));
        }
        i = i + 1;
    }
    out.append("]");
    out.append(REPORT_AFTER_SONGS);
    out.append(dist_json(level_dist).as_str());
    out.append(REPORT_TAIL);
    proof {
        assert(parts.take(n as int) =~= parts);
        assert(out@ =~= spec_review_html(songs.deep_view(), level_dist@));
    }
    out
}

} // verus!
