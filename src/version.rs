//! Release version strings: decimal parsing and "is newer" comparison.

use vstd::prelude::*;

verus! {

pub open spec fn is_digit(c: char) -> bool {
    '0' <= c && c <= '9'
}

pub open spec fn digit_value(c: char) -> int {
    (c as int) - ('0' as int)
}

/// The value of a string of decimal digits, most significant first.
pub open spec fn digits_value(s: Seq<char>) -> nat
    decreases s.len(),
{
    if s.len() == 0 {
        0
    } else {
        (digits_value(s.drop_last()) * 10 + digit_value(s.last())) as nat
    }
}

pub open spec fn all_digits(s: Seq<char>) -> bool {
    forall|i: int| 0 <= i < s.len() ==> is_digit(#[trigger] s[i])
}

/// What `u32::from_str` accepts: an optional `+` followed by at least one
/// decimal digit, with a value that fits in 32 bits.
pub open spec fn parse_u32_spec(s: Seq<char>) -> Option<u32> {
    let d = if s.len() > 0 && s[0] == '+' { s.drop_first() } else { s };
    if d.len() > 0 && all_digits(d) && digits_value(d) <= u32::MAX {
        Some(digits_value(d) as u32)
    } else {
        None
    }
}

/// The pieces of `s` between dots, `""` giving one empty piece.
pub open spec fn split_dots(s: Seq<char>) -> Seq<Seq<char>>
    decreases s.len(),
{
    if s.len() == 0 {
        seq![Seq::<char>::empty()]
    } else {
        let prev = split_dots(s.drop_last());
        if s.last() == '.' {
            prev.push(Seq::<char>::empty())
        } else {
            prev.update(prev.len() - 1, prev.last().push(s.last()))
        }
    }
}

/// The numbers of those pieces that parse, in order.
pub open spec fn parsed_pieces(pieces: Seq<Seq<char>>) -> Seq<u32>
    decreases pieces.len(),
{
    if pieces.len() == 0 {
        Seq::empty()
    } else {
        let prev = parsed_pieces(pieces.drop_last());
        match parse_u32_spec(pieces.last()) {
            Some(v) => prev.push(v),
            None => prev,
        }
    }
}

pub open spec fn version_numbers(s: Seq<char>) -> Seq<u32> {
    parsed_pieces(split_dots(s))
}

/// Component `i` of a version, 0 where the version has fewer components.
pub open spec fn component(v: Seq<u32>, i: int) -> u32 {
    if 0 <= i < v.len() { v[i] } else { 0 }
}

/// `latest` is newer than `current` when its first three components are
/// greater in lexicographic order.
pub open spec fn is_newer(latest: Seq<u32>, current: Seq<u32>) -> bool {
    let (l0, l1, l2) = (component(latest, 0), component(latest, 1), component(latest, 2));
    let (c0, c1, c2) = (component(current, 0), component(current, 1), component(current, 2));
    l0 > c0 || (l0 == c0 && (l1 > c1 || (l1 == c1 && l2 > c2)))
}

proof fn lemma_split_dots_nonempty(s: Seq<char>)
    ensures
        split_dots(s).len() >= 1,
    decreases s.len(),
{
    if s.len() > 0 {
        lemma_split_dots_nonempty(s.drop_last());
    }
}

proof fn lemma_digits_grow(s: Seq<char>, c: char)
    requires
        is_digit(c),
    ensures
        digits_value(s.push(c)) >= digits_value(s) * 10,
        digits_value(s.push(c)) == digits_value(s) * 10 + digit_value(c),
{
    assert(s.push(c).drop_last() =~= s);
}

/// Parses `s[start..end]` as `u32::from_str` would.
pub(crate) fn parse_u32_range(s: &str, start: usize, end: usize) -> (r: Option<u32>)
    requires
        start <= end <= s@.len(),
    ensures
        r == parse_u32_spec(s@.subrange(start as int, end as int)),
{
    let ghost piece = s@.subrange(start as int, end as int);
    let mut first = start;
    if start < end && s.get_char(start) == '+' {
        first = start + 1;
    }
    let ghost d = s@.subrange(first as int, end as int);
    assert(d =~= (if piece.len() > 0 && piece[0] == '+' { piece.drop_first() } else { piece }));
    let mut value: u64 = 0;
    let mut over = false;
    let mut digits = true;
    let mut i = first;
    while i < end
        invariant
            first <= i <= end <= s@.len(),
            digits == all_digits(s@.subrange(first as int, i as int)),
            digits && !over ==> value == digits_value(s@.subrange(first as int, i as int)),
            digits && !over ==> value <= u32::MAX,
            digits && over ==> digits_value(s@.subrange(first as int, i as int)) > u32::MAX,
        decreases end - i,
    {
        let c = s.get_char(i);
        let ghost pre = s@.subrange(first as int, i as int);
        assert(s@.subrange(first as int, i + 1) =~= pre.push(c));
        if !('0' <= c && c <= '9') {
            digits = false;
            assert(!is_digit(pre.push(c)[pre.len() as int]));
        } else if digits {
            proof {
                lemma_digits_grow(pre, c);
            }
            if !over {
                let dv = (c as u64) - ('0' as u64);
                value = value * 10 + dv;
                if value > u32::MAX as u64 {
                    over = true;
                }
            }
        }
        i = i + 1;
    }
    if digits && !over && first < end {
        Some(value as u32)
    } else {
        None
    }
}

/// Parses the dot-separated numbers of a version, skipping pieces that are
/// not numbers.
pub fn parse_version(s: &str) -> (r: Vec<u32>)
    ensures
        r@ == version_numbers(s@),
{
    let n = s.unicode_len();
    let mut out: Vec<u32> = Vec::new();
    let mut start: usize = 0;
    let mut i: usize = 0;
    proof {
        lemma_split_dots_nonempty(s@.subrange(0, 0));
        assert(s@.subrange(0, 0) =~= Seq::<char>::empty());
    }
    while i < n
        invariant
            n == s@.len(),
            start <= i <= n,
            split_dots(s@.subrange(0, i as int)).len() >= 1,
            split_dots(s@.subrange(0, i as int)).last() == s@.subrange(start as int, i as int),
            out@ == parsed_pieces(split_dots(s@.subrange(0, i as int)).drop_last()),
        decreases n - i,
    {
        let c = s.get_char(i);
        let ghost pre = s@.subrange(0, i as int);
        let ghost prev = split_dots(pre);
        assert(s@.subrange(0, i + 1).drop_last() =~= pre);
        if c == '.' {
            let p = parse_u32_range(s, start, i);
            if let Some(v) = p {
                out.push(v);
            }
            proof {
                let next = split_dots(s@.subrange(0, i + 1));
                assert(next == prev.push(Seq::<char>::empty()));
                assert(next.drop_last() =~= prev);
                assert(prev.drop_last().push(prev.last()) =~= prev);
                assert(s@.subrange(i + 1, i + 1) =~= Seq::<char>::empty());
            }
            start = i + 1;
        } else {
            proof {
                let next = split_dots(s@.subrange(0, i + 1));
                assert(next == prev.update(prev.len() - 1, prev.last().push(c)));
                assert(next.drop_last() =~= prev.drop_last());
                assert(s@.subrange(start as int, i + 1) =~= prev.last().push(c));
            }
        }
        i = i + 1;
    }
    let last = parse_u32_range(s, start, n);
    if let Some(v) = last {
        out.push(v);
    }
    proof {
        let all = split_dots(s@.subrange(0, n as int));
        assert(s@.subrange(0, n as int) =~= s@);
        assert(all.drop_last().push(all.last()) =~= all);
    }
    out
}

fn component_at(v: &Vec<u32>, i: usize) -> (r: u32)
    ensures
        r == component(v@, i as int),
{
    if i < v.len() {
        v[i]
    } else {
        0
    }
}

/// Whether release `latest` is newer than `current`, comparing the first
/// three numeric components.
pub fn compare_versions(latest: &str, current: &str) -> (r: bool)
    ensures
        r == is_newer(version_numbers(latest@), version_numbers(current@)),
{
    let l = parse_version(latest);
    let c = parse_version(current);
    let mut i: usize = 0;
    while i < 3
        invariant
            i <= 3,
            l@ == version_numbers(latest@),
            c@ == version_numbers(current@),
            forall|j: int| 0 <= j < i ==> component(l@, j) == component(c@, j),
        decreases 3 - i,
    {
        let a = component_at(&l, i);
        let b = component_at(&c, i);
        if a > b {
            return true;
        } else if a < b {
            return false;
        }
        i = i + 1;
    }
    false
}

/// The version text of a release tag: leading `v` characters removed.
pub open spec fn strip_v(s: Seq<char>) -> Seq<char>
    decreases s.len(),
{
    if s.len() > 0 && s[0] == 'v' {
        strip_v(s.drop_first())
    } else {
        s
    }
}

/// Removes every leading `v` from a release tag.
pub fn release_version_text(tag: &str) -> (r: &str)
    ensures
        r@ == strip_v(tag@),
{
    let n = tag.unicode_len();
    let mut i: usize = 0;
    assert(tag@.subrange(0, n as int) =~= tag@);
    while i < n && tag.get_char(i) == 'v'
        invariant
            n == tag@.len(),
            i <= n,
            strip_v(tag@.subrange(i as int, n as int)) == strip_v(tag@),
        decreases n - i,
    {
        assert(tag@.subrange(i as int, n as int).drop_first() =~= tag@.subrange(i + 1, n as int));
        i = i + 1;
    }
    tag.substring_char(i, n)
}


/// What a release check reports.
pub struct UpdateInfo {
    pub has_update: bool,
    pub latest_version: String,
    pub current_version: String,
    pub download_url: String,
}

pub open spec fn releases_page() -> Seq<char> {
    "https://github.com/lbjlaq/Antigravity-Manager/releases"@
}

/// Compares release tag `tag` with the running version `current`; versions
/// are shown with a `v` prefix, and the release page stands in for a
/// missing download link.
pub fn update_info(tag: &str, current: &str, html_url: Option<String>) -> (r: UpdateInfo)
    ensures
        r.has_update == is_newer(version_numbers(strip_v(tag@)), version_numbers(current@)),
        r.latest_version@ == "v"@ + strip_v(tag@),
        r.current_version@ == "v"@ + current@,
        r.download_url@ == match html_url {
            Some(u) => u@,
            None => releases_page(),
        },
{
    let latest = release_version_text(tag);
    let has_update = compare_versions(latest, current);
    let mut latest_version = String::from_str("v");
    latest_version.append(latest);
    let mut current_version = String::from_str("v");
    current_version.append(current);
    let download_url = match html_url {
        Some(u) => u,
        None => String::from_str("https://github.com/lbjlaq/Antigravity-Manager/releases"),
    };
    UpdateInfo { has_update, latest_version, current_version, download_url }
}

} // verus!
