//! Character-level text primitives: whitespace trimming, prefix and suffix
//! tests, substring search and bracket-aware splitting, each stated over
//! `Seq<char>` and implemented over `&str`.
use vstd::prelude::*;

verus! {

/// Unicode `White_Space`, the property that `char::is_whitespace` tests.
pub open spec fn is_ws(c: char) -> bool {
    ||| ('\u{9}' <= c && c <= '\u{d}')
    ||| c == ' '
    ||| c == '\u{85}'
    ||| c == '\u{a0}'
    ||| c == '\u{1680}'
    ||| ('\u{2000}' <= c && c <= '\u{200a}')
    ||| c == '\u{2028}'
    ||| c == '\u{2029}'
    ||| c == '\u{202f}'
    ||| c == '\u{205f}'
    ||| c == '\u{3000}'
}

pub fn is_ws_exec(c: char) -> (r: bool)
    ensures
        r == is_ws(c),
{
    ('\u{9}' <= c && c <= '\u{d}') || c == ' ' || c == '\u{85}' || c == '\u{a0}' || c
        == '\u{1680}' || ('\u{2000}' <= c && c <= '\u{200a}') || c == '\u{2028}' || c
        == '\u{2029}' || c == '\u{202f}' || c == '\u{205f}' || c == '\u{3000}'
}

pub open spec fn trim_start(s: Seq<char>) -> Seq<char>
    decreases s.len(),
{
    if s.len() > 0 && is_ws(s[0]) {
        trim_start(s.drop_first())
    } else {
        s
    }
}

pub open spec fn trim_end(s: Seq<char>) -> Seq<char>
    decreases s.len(),
{
    if s.len() > 0 && is_ws(s.last()) {
        trim_end(s.drop_last())
    } else {
        s
    }
}

/// What `str::trim` leaves of `s`.
pub open spec fn trim(s: Seq<char>) -> Seq<char> {
    trim_end(trim_start(s))
}

pub open spec fn starts_with(s: Seq<char>, p: Seq<char>) -> bool {
    p.len() <= s.len() && s.subrange(0, p.len() as int) == p
}

pub open spec fn ends_with(s: Seq<char>, p: Seq<char>) -> bool {
    p.len() <= s.len() && s.subrange(s.len() - p.len(), s.len() as int) == p
}

pub open spec fn matches_at(s: Seq<char>, p: Seq<char>, i: int) -> bool {
    0 <= i && i + p.len() <= s.len() && s.subrange(i, i + p.len()) == p
}

pub open spec fn find_from(s: Seq<char>, p: Seq<char>, i: int) -> Option<int>
    decreases s.len() + 1 - i,
{
    if i < 0 || i + p.len() > s.len() {
        None
    } else if matches_at(s, p, i) {
        Some(i)
    } else {
        find_from(s, p, i + 1)
    }
}

/// The first position at which `p` occurs in `s` (`str::find`).
pub open spec fn find(s: Seq<char>, p: Seq<char>) -> Option<int> {
    find_from(s, p, 0)
}

pub open spec fn rfind_upto(s: Seq<char>, p: Seq<char>, i: int) -> Option<int>
    decreases i + 1,
{
    if i < 0 {
        None
    } else if matches_at(s, p, i) {
        Some(i)
    } else {
        rfind_upto(s, p, i - 1)
    }
}

/// The last position at which `p` occurs in `s` (`str::rfind`).
pub open spec fn rfind(s: Seq<char>, p: Seq<char>) -> Option<int> {
    rfind_upto(s, p, s.len() - p.len())
}

pub open spec fn contains(s: Seq<char>, p: Seq<char>) -> bool {
    find(s, p) is Some
}

/// The text after the last `sep` in `s` (the first item of `str::rsplit`).
pub open spec fn after_last(s: Seq<char>, sep: Seq<char>) -> Seq<char> {
    match rfind(s, sep) {
        Some(i) => s.subrange(i + sep.len(), s.len() as int),
        None => s,
    }
}

/// The text before the first `sep` in `s` (the first item of `str::split`).
pub open spec fn before_first(s: Seq<char>, sep: Seq<char>) -> Seq<char> {
    match find(s, sep) {
        Some(i) => s.subrange(0, i),
        None => s,
    }
}

// ── lemmas ────────────────────────────────────────────────────────────

pub(crate) proof fn lemma_trim_start_at(s: Seq<char>, k: int)
    requires
        0 <= k <= s.len(),
        forall|j: int| 0 <= j < k ==> is_ws(#[trigger] s[j]),
        k == s.len() || !is_ws(s[k]),
    ensures
        trim_start(s) == s.subrange(k, s.len() as int),
    decreases k,
{
    if k == 0 {
        assert(s.subrange(0, s.len() as int) =~= s);
    } else {
        let t = s.drop_first();
        assert forall|j: int| 0 <= j < k - 1 implies is_ws(#[trigger] t[j]) by {
            assert(t[j] == s[j + 1]);
        }
        if k - 1 < t.len() {
            assert(t[k - 1] == s[k]);
        }
        lemma_trim_start_at(t, k - 1);
        assert(t.subrange(k - 1, t.len() as int) =~= s.subrange(k, s.len() as int));
    }
}

pub(crate) proof fn lemma_trim_end_at(s: Seq<char>, k: int)
    requires
        0 <= k <= s.len(),
        forall|j: int| k <= j < s.len() ==> is_ws(#[trigger] s[j]),
        k == 0 || !is_ws(s[k - 1]),
    ensures
        trim_end(s) == s.subrange(0, k),
    decreases s.len() - k,
{
    if k == s.len() {
        assert(s.subrange(0, k) =~= s);
    } else {
        let t = s.drop_last();
        assert forall|j: int| k <= j < t.len() implies is_ws(#[trigger] t[j]) by {
            assert(t[j] == s[j]);
        }
        if k > 0 {
            assert(t[k - 1] == s[k - 1]);
        }
        lemma_trim_end_at(t, k);
        assert(t.subrange(0, k) =~= s.subrange(0, k));
    }
}

/// `trim` removes only whitespace and leaves a shorter or equal text.
pub proof fn lemma_trim_len(s: Seq<char>)
    ensures
        trim(s).len() <= s.len(),
        trim_start(s).len() <= s.len(),
{
    lemma_trim_start_len(s);
    lemma_trim_end_len(trim_start(s));
}

proof fn lemma_trim_start_len(s: Seq<char>)
    ensures
        trim_start(s).len() <= s.len(),
    decreases s.len(),
{
    if s.len() > 0 && is_ws(s[0]) {
        lemma_trim_start_len(s.drop_first());
    }
}

proof fn lemma_trim_end_len(s: Seq<char>)
    ensures
        trim_end(s).len() <= s.len(),
    decreases s.len(),
{
    if s.len() > 0 && is_ws(s.last()) {
        lemma_trim_end_len(s.drop_last());
    }
}

proof fn lemma_find_from_none(s: Seq<char>, p: Seq<char>, i: int)
    requires
        0 <= i,
        forall|j: int| i <= j && j + p.len() <= s.len() ==> !matches_at(s, p, j),
    ensures
        find_from(s, p, i) is None,
    decreases s.len() + 1 - i,
{
    if i + p.len() <= s.len() {
        lemma_find_from_none(s, p, i + 1);
    }
}

proof fn lemma_find_from_some(s: Seq<char>, p: Seq<char>, i: int, k: int)
    requires
        0 <= i <= k,
        matches_at(s, p, k),
        forall|j: int| i <= j < k ==> !matches_at(s, p, j),
    ensures
        find_from(s, p, i) == Some(k),
    decreases k - i,
{
    if i < k {
        lemma_find_from_some(s, p, i + 1, k);
    }
}

pub(crate) proof fn lemma_rfind_upto_none(s: Seq<char>, p: Seq<char>, i: int)
    requires
        forall|j: int| 0 <= j <= i ==> !matches_at(s, p, j),
    ensures
        rfind_upto(s, p, i) is None,
    decreases i + 1,
{
    if i >= 0 {
        lemma_rfind_upto_none(s, p, i - 1);
    }
}

pub(crate) proof fn lemma_rfind_upto_some(s: Seq<char>, p: Seq<char>, i: int, k: int)
    requires
        0 <= k <= i,
        matches_at(s, p, k),
        forall|j: int| k < j <= i ==> !matches_at(s, p, j),
    ensures
        rfind_upto(s, p, i) == Some(k),
    decreases i - k,
{
    if k < i {
        lemma_rfind_upto_some(s, p, i - 1, k);
    }
}

/// A position found by `find` or `rfind` is a genuine occurrence.
pub proof fn lemma_find_sound(s: Seq<char>, p: Seq<char>)
    ensures
        find(s, p) matches Some(i) ==> matches_at(s, p, i),
        rfind(s, p) matches Some(i) ==> matches_at(s, p, i),
{
    lemma_find_from_sound(s, p, 0);
    lemma_rfind_upto_sound(s, p, s.len() - p.len());
}

proof fn lemma_find_from_sound(s: Seq<char>, p: Seq<char>, i: int)
    ensures
        find_from(s, p, i) matches Some(k) ==> matches_at(s, p, k) && i <= k,
    decreases s.len() + 1 - i,
{
    if !(i < 0 || i + p.len() > s.len()) && !matches_at(s, p, i) {
        lemma_find_from_sound(s, p, i + 1);
    }
}

proof fn lemma_rfind_upto_sound(s: Seq<char>, p: Seq<char>, i: int)
    ensures
        rfind_upto(s, p, i) matches Some(k) ==> matches_at(s, p, k) && k <= i,
    decreases i + 1,
{
    if i >= 0 && !matches_at(s, p, i) {
        lemma_rfind_upto_sound(s, p, i - 1);
    }
}

// ── executable counterparts over `&str` ───────────────────────────────

/// Whether `a` and `b` hold the same characters.
pub fn str_eq(a: &str, b: &str) -> (r: bool)
    ensures
        r == (a@ == b@),
{
    let n = a.unicode_len();
    if n != b.unicode_len() {
        return false;
    }
    let mut i: usize = 0;
    while i < n
        invariant
            n == a@.len(),
            n == b@.len(),
            i <= n,
            forall|j: int| 0 <= j < i ==> a@[j] == b@[j],
        decreases n - i,
    {
        if a.get_char(i) != b.get_char(i) {
            return false;
        }
        i += 1;
    }
    assert(a@ =~= b@);
    true
}

/// Whether `p` occurs in `s` starting at character `i`.
pub fn matches_at_exec(s: &str, p: &str, i: usize) -> (r: bool)
    ensures
        r == matches_at(s@, p@, i as int),
{
    let n = s.unicode_len();
    let m = p.unicode_len();
    if i > n || m > n - i {
        return false;
    }
    let mut j: usize = 0;
    while j < m
        invariant
            n == s@.len(),
            m == p@.len(),
            i + m <= n,
            j <= m,
            forall|k: int| 0 <= k < j ==> s@[i + k] == p@[k],
        decreases m - j,
    {
        if s.get_char(i + j) != p.get_char(j) {
            assert(s@.subrange(i as int, i + m)[j as int] == s@[i + j]);
            return false;
        }
        j += 1;
    }
    assert(s@.subrange(i as int, i + m) =~= p@);
    true
}

pub fn starts_with_exec(s: &str, p: &str) -> (r: bool)
    ensures
        r == starts_with(s@, p@),
{
    matches_at_exec(s, p, 0)
}

pub fn ends_with_exec(s: &str, p: &str) -> (r: bool)
    ensures
        r == ends_with(s@, p@),
{
    let n = s.unicode_len();
    let m = p.unicode_len();
    if m > n {
        false
    } else {
        matches_at_exec(s, p, n - m)
    }
}

/// `str::find` by characters.
pub fn find_exec(s: &str, p: &str) -> (r: Option<usize>)
    ensures
        s@.len() <= usize::MAX,
        match r {
            Some(i) => find(s@, p@) == Some(i as int) && i + p@.len() <= s@.len(),
            None => find(s@, p@) is None,
        },
{
    let n = s.unicode_len();
    let m = p.unicode_len();
    if m > n {
        proof {
            lemma_find_from_none(s@, p@, 0);
        }
        return None;
    }
    let last = n - m;
    let mut i: usize = 0;
    loop
        invariant
            n == s@.len(),
            m == p@.len(),
            m <= n,
            last == n - m,
            i <= last,
            forall|j: int| 0 <= j < i ==> !matches_at(s@, p@, j),
        ensures
            forall|j: int| 0 <= j <= last ==> !matches_at(s@, p@, j),
        decreases last - i,
    {
        if matches_at_exec(s, p, i) {
            proof {
                lemma_find_from_some(s@, p@, 0, i as int);
            }
            return Some(i);
        }
        if i == last {
            break;
        }
        i += 1;
    }
    proof {
        lemma_find_from_none(s@, p@, 0);
    }
    None
}

/// `str::rfind` by characters.
pub fn rfind_exec(s: &str, p: &str) -> (r: Option<usize>)
    ensures
        match r {
            Some(i) => rfind(s@, p@) == Some(i as int),
            None => rfind(s@, p@) is None,
        },
{
    let n = s.unicode_len();
    let m = p.unicode_len();
    if m > n {
        proof {
            lemma_rfind_upto_none(s@, p@, s@.len() - p@.len());
        }
        return None;
    }
    let mut i: usize = n - m;
    loop
        invariant
            n == s@.len(),
            m == p@.len(),
            m <= n,
            i <= n - m,
            forall|j: int| i < j <= n - m ==> !matches_at(s@, p@, j),
        ensures
            forall|j: int| 0 <= j <= n - m ==> !matches_at(s@, p@, j),
        decreases i,
    {
        if matches_at_exec(s, p, i) {
            proof {
                lemma_rfind_upto_some(s@, p@, n - m, i as int);
            }
            return Some(i);
        }
        if i == 0 {
            break;
        }
        i -= 1;
    }
    proof {
        lemma_rfind_upto_none(s@, p@, s@.len() - p@.len());
    }
    None
}

pub fn contains_exec(s: &str, p: &str) -> (r: bool)
    ensures
        r == contains(s@, p@),
{
    find_exec(s, p).is_some()
}

/// `str::trim`.
pub fn trim_exec<'a>(s: &'a str) -> (r: &'a str)
    ensures
        r@ == trim(s@),
{
    let n = s.unicode_len();
    let mut a: usize = 0;
    while a < n && is_ws_exec(s.get_char(a))
        invariant
            n == s@.len(),
            a <= n,
            forall|j: int| 0 <= j < a ==> is_ws(#[trigger] s@[j]),
        decreases n - a,
    {
        a += 1;
    }
    proof {
        lemma_trim_start_at(s@, a as int);
    }
    let ghost t = s@.subrange(a as int, n as int);
    let mut b: usize = n;
    while b > a && is_ws_exec(s.get_char(b - 1))
        invariant
            n == s@.len(),
            a <= b <= n,
            t == s@.subrange(a as int, n as int),
            forall|j: int| b <= j < n ==> is_ws(#[trigger] s@[j]),
        decreases b,
    {
        b -= 1;
    }
    proof {
        assert forall|j: int| b - a <= j < t.len() implies is_ws(#[trigger] t[j]) by {
            assert(t[j] == s@[j + a]);
        }
        if b > a {
            assert(t[b - a - 1] == s@[b - 1]);
        }
        lemma_trim_end_at(t, b - a);
        assert(t.subrange(0, b - a) =~= s@.subrange(a as int, b as int));
    }
    s.substring_char(a, b)
}

/// `str::trim_end`.
pub fn trim_end_exec<'a>(s: &'a str) -> (r: &'a str)
    ensures
        r@ == trim_end(s@),
{
    let n = s.unicode_len();
    let mut b: usize = n;
    while b > 0 && is_ws_exec(s.get_char(b - 1))
        invariant
            n == s@.len(),
            b <= n,
            forall|j: int| b <= j < n ==> is_ws(#[trigger] s@[j]),
        decreases b,
    {
        b -= 1;
    }
    proof {
        lemma_trim_end_at(s@, b as int);
    }
    s.substring_char(0, b)
}

/// The rest of `s` after character `i`.
pub fn suffix_from<'a>(s: &'a str, i: usize) -> (r: &'a str)
    requires
        i <= s@.len(),
    ensures
        r@ == s@.subrange(i as int, s@.len() as int),
{
    let n = s.unicode_len();
    s.substring_char(i, n)
}

/// The first `i` characters of `s`.
pub fn prefix_to<'a>(s: &'a str, i: usize) -> (r: &'a str)
    requires
        i <= s@.len(),
    ensures
        r@ == s@.subrange(0, i as int),
{
    s.substring_char(0, i)
}

/// The text after the last `sep` (`s.rsplit(sep).next()`).
pub fn after_last_exec<'a>(s: &'a str, sep: &str) -> (r: &'a str)
    ensures
        r@ == after_last(s@, sep@),
{
    let n = s.unicode_len();
    let m = sep.unicode_len();
    match rfind_exec(s, sep) {
        Some(i) => {
            proof {
                lemma_find_sound(s@, sep@);
            }
            suffix_from(s, i + m)
        },
        None => s,
    }
}

/// The text before the first `sep` (`s.split(sep).next()`).
pub fn before_first_exec<'a>(s: &'a str, sep: &str) -> (r: &'a str)
    ensures
        r@ == before_first(s@, sep@),
{
    match find_exec(s, sep) {
        Some(i) => {
            proof {
                lemma_find_sound(s@, sep@);
            }
            prefix_to(s, i)
        },
        None => s,
    }
}

// ── bracket-aware splitting ───────────────────────────────────────────

/// Nesting depths of `<>`, `()` and `[]`; a closer never goes below zero.
pub open spec fn depth_step(d: (nat, nat, nat), c: char) -> (nat, nat, nat) {
    if c == '<' {
        (d.0 + 1, d.1, d.2)
    } else if c == '>' {
        (if d.0 == 0 { 0 } else { (d.0 - 1) as nat }, d.1, d.2)
    } else if c == '(' {
        (d.0, d.1 + 1, d.2)
    } else if c == ')' {
        (d.0, if d.1 == 0 { 0 } else { (d.1 - 1) as nat }, d.2)
    } else if c == '[' {
        (d.0, d.1, d.2 + 1)
    } else if c == ']' {
        (d.0, d.1, if d.2 == 0 { 0 } else { (d.2 - 1) as nat })
    } else {
        d
    }
}

/// The depths after the first `n` characters of `s`.
pub open spec fn depth_after(s: Seq<char>, n: nat) -> (nat, nat, nat)
    decreases n,
{
    if n == 0 || n > s.len() {
        (0, 0, 0)
    } else {
        depth_step(depth_after(s, (n - 1) as nat), s[n - 1])
    }
}

pub open spec fn is_split_at(s: Seq<char>, sep: char, i: int) -> bool {
    0 <= i < s.len() && s[i] == sep && depth_after(s, (i + 1) as nat) == (0nat, 0nat, 0nat)
}

/// The parts completed and the start of the current part after scanning
/// the first `n` characters.
pub open spec fn split_scan(s: Seq<char>, sep: char, n: nat) -> (Seq<Seq<char>>, int)
    decreases n,
{
    if n == 0 {
        (Seq::empty(), 0)
    } else {
        let (parts, start) = split_scan(s, sep, (n - 1) as nat);
        if is_split_at(s, sep, n - 1) {
            (parts.push(trim(s.subrange(start, n - 1))), n as int)
        } else {
            (parts, start)
        }
    }
}

/// `s` split at every `sep` outside `<>`, `()` and `[]`, each part trimmed.
pub open spec fn split_top_level(s: Seq<char>, sep: char) -> Seq<Seq<char>> {
    let (parts, start) = split_scan(s, sep, s.len());
    if start == 0 {
        seq![trim(s)]
    } else {
        parts.push(trim(s.subrange(start, s.len() as int)))
    }
}

pub proof fn lemma_depth_bound(s: Seq<char>, n: nat)
    ensures
        depth_after(s, n).0 <= n,
        depth_after(s, n).1 <= n,
        depth_after(s, n).2 <= n,
    decreases n,
{
    if n > 0 && n <= s.len() {
        lemma_depth_bound(s, (n - 1) as nat);
    }
}

proof fn lemma_split_scan(s: Seq<char>, sep: char, n: nat)
    requires
        n <= s.len(),
    ensures
        0 <= split_scan(s, sep, n).1 <= n,
        (split_scan(s, sep, n).1 == 0) <==> (split_scan(s, sep, n).0.len() == 0),
        forall|i: int|
            0 <= i < split_scan(s, sep, n).0.len() ==> (#[trigger] split_scan(
                s,
                sep,
                n,
            ).0[i]).len() < s.len(),
    decreases n,
{
    if n > 0 {
        lemma_split_scan(s, sep, (n - 1) as nat);
        let (parts, start) = split_scan(s, sep, (n - 1) as nat);
        if is_split_at(s, sep, n - 1) {
            lemma_trim_len(s.subrange(start, n - 1));
            let np = parts.push(trim(s.subrange(start, n - 1)));
            assert forall|i: int| 0 <= i < np.len() implies (#[trigger] np[i]).len() < s.len() by {
                if i < parts.len() {
                    assert(np[i] == parts[i]);
                }
            }
        }
    }
}

/// Splitting yields at least one part, and when it yields several each is
/// shorter than the text.
pub proof fn lemma_split_parts(s: Seq<char>, sep: char)
    ensures
        split_top_level(s, sep).len() >= 1,
        split_top_level(s, sep).len() > 1 ==> forall|i: int|
            0 <= i < split_top_level(s, sep).len() ==> (#[trigger] split_top_level(s, sep)[i]).len()
                < s.len(),
{
    lemma_split_scan(s, sep, s.len());
    let (parts, start) = split_scan(s, sep, s.len());
    if start != 0 {
        lemma_trim_len(s.subrange(start, s.len() as int));
        let r = parts.push(trim(s.subrange(start, s.len() as int)));
        assert forall|i: int| 0 <= i < r.len() implies (#[trigger] r[i]).len() < s.len() by {
            if i < parts.len() {
                assert(r[i] == parts[i]);
            }
        }
    }
}

pub open spec fn slices_view(v: Seq<&str>) -> Seq<Seq<char>> {
    Seq::new(v.len(), |i: int| v[i]@)
}

/// Split `text` at every `separator` that stands outside `<>`, `()` and
/// `[]`, trimming each part; a text without such a separator is one part.
pub fn split_top_level_exec<'a>(text: &'a str, separator: char) -> (r: Vec<&'a str>)
    ensures
        slices_view(r@) == split_top_level(text@, separator),
{
    let n = text.unicode_len();
    let mut parts: Vec<&'a str> = Vec::new();
    let mut start: usize = 0;
    let mut angle: usize = 0;
    let mut paren: usize = 0;
    let mut bracket: usize = 0;
    let mut i: usize = 0;
    while i < n
        invariant
            n == text@.len(),
            i <= n,
            start <= i,
            (angle as nat, paren as nat, bracket as nat) == depth_after(text@, i as nat),
            (slices_view(parts@), start as int) == split_scan(text@, separator, i as nat),
        decreases n - i,
    {
        proof {
            lemma_depth_bound(text@, i as nat);
        }
        let ch = text.get_char(i);
        if ch == '<' {
            angle = angle + 1;
        } else if ch == '>' {
            angle = if angle > 0 { angle - 1 } else { 0 };
        } else if ch == '(' {
            paren = paren + 1;
        } else if ch == ')' {
            paren = if paren > 0 { paren - 1 } else { 0 };
        } else if ch == '[' {
            bracket = bracket + 1;
        } else if ch == ']' {
            bracket = if bracket > 0 { bracket - 1 } else { 0 };
        }
        if ch == separator && angle == 0 && paren == 0 && bracket == 0 {
            let ghost before = slices_view(parts@);
            parts.push(trim_exec(text.substring_char(start, i)));
            assert(slices_view(parts@) =~= before.push(trim(text@.subrange(start as int, i as int))));
            start = i + 1;
        }
        i += 1;
    }
    if start == 0 {
        let mut one: Vec<&'a str> = Vec::new();
        one.push(trim_exec(text));
        assert(slices_view(one@) =~= seq![trim(text@)]);
        return one;
    }
    let ghost before = slices_view(parts@);
    parts.push(trim_exec(suffix_from(text, start)));
    assert(slices_view(parts@) =~= before.push(trim(text@.subrange(start as int, n as int))));
    parts
}

pub open spec fn find_char_from(s: Seq<char>, c: char, i: int) -> Option<int>
    decreases s.len() - i,
{
    if i < 0 || i >= s.len() {
        None
    } else if s[i] == c {
        Some(i)
    } else {
        find_char_from(s, c, i + 1)
    }
}

/// The first position of `c` in `s`.
pub open spec fn find_char(s: Seq<char>, c: char) -> Option<int> {
    find_char_from(s, c, 0)
}

pub proof fn lemma_find_char_sound(s: Seq<char>, c: char, i: int)
    requires
        0 <= i,
    ensures
        find_char_from(s, c, i) matches Some(k) ==> i <= k < s.len() && s[k] == c,
    decreases s.len() - i,
{
    if i < s.len() && s[i] != c {
        lemma_find_char_sound(s, c, i + 1);
    }
}

/// The first position of `c` in `s`, by characters.
pub fn find_char_exec(s: &str, c: char) -> (r: Option<usize>)
    ensures
        match r {
            Some(i) => find_char(s@, c) == Some(i as int) && i < s@.len(),
            None => find_char(s@, c) is None,
        },
        s@.len() <= usize::MAX,
{
    let n = s.unicode_len();
    let mut i: usize = 0;
    while i < n
        invariant
            n == s@.len(),
            i <= n,
            find_char_from(s@, c, 0) == find_char_from(s@, c, i as int),
        decreases n - i,
    {
        if s.get_char(i) == c {
            return Some(i);
        }
        i += 1;
    }
    None
}

/// A fresh `String` holding the characters of `s`.
pub fn owned(s: &str) -> (r: String)
    ensures
        r@ == s@,
{
    String::from_str(s)
}

} // verus!
