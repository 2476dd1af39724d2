//! Reading back the annotation text of a type: the facts about bracket
//! depths and splitting that show `parse_embedded` undoes `ty_text`.
use vstd::prelude::*;

use crate::display::{keyword_ty, parse_atom, parse_embedded, paren_depth, strip_parens, ty_text};
use crate::text::{
    depth_after, depth_step, is_split_at, is_ws, lemma_trim_end_at, lemma_trim_start_at, split_scan,
    split_top_level, trim, trim_end, trim_start,
};
use crate::LuaTy;

verus! {

// ── parenthesis depth from any start ──────────────────────────────────

/// Parenthesis depth after the first `n` characters of `s`, starting at `d`.
pub open spec fn parens_from(d: Option<nat>, s: Seq<char>, n: nat) -> Option<nat>
    decreases n,
{
    if n == 0 || n > s.len() {
        d
    } else {
        match parens_from(d, s, (n - 1) as nat) {
            None => None,
            Some(e) => if s[n - 1] == '(' {
                Some(e + 1)
            } else if s[n - 1] == ')' {
                if e == 0 {
                    None
                } else {
                    Some((e - 1) as nat)
                }
            } else {
                Some(e)
            },
        }
    }
}

pub proof fn lemma_paren_depth_from(s: Seq<char>, n: nat)
    requires
        n <= s.len(),
    ensures
        paren_depth(s, n) == parens_from(Some(0), s, n),
    decreases n,
{
    if n > 0 {
        lemma_paren_depth_from(s, (n - 1) as nat);
    }
}

proof fn lemma_parens_prefix(d: Option<nat>, a: Seq<char>, b: Seq<char>, j: nat)
    requires
        j <= a.len(),
    ensures
        parens_from(d, a + b, j) == parens_from(d, a, j),
    decreases j,
{
    if j > 0 {
        lemma_parens_prefix(d, a, b, (j - 1) as nat);
        assert((a + b)[j - 1] == a[j - 1]);
    }
}

proof fn lemma_parens_concat(d: Option<nat>, a: Seq<char>, b: Seq<char>, j: nat)
    requires
        j <= b.len(),
    ensures
        parens_from(d, a + b, a.len() + j) == parens_from(parens_from(d, a, a.len()), b, j),
    decreases j,
{
    if j == 0 {
        lemma_parens_prefix(d, a, b, a.len());
    } else {
        lemma_parens_concat(d, a, b, (j - 1) as nat);
        assert((a + b)[a.len() + j - 1] == b[j - 1]);
    }
}

/// `s` holds no parenthesis.
pub open spec fn no_parens(s: Seq<char>) -> bool {
    forall|i: int| 0 <= i < s.len() ==> #[trigger] s[i] != '(' && s[i] != ')'
}

proof fn lemma_parens_neutral(d: Option<nat>, s: Seq<char>, n: nat)
    requires
        no_parens(s),
        n <= s.len(),
    ensures
        parens_from(d, s, n) == d,
    decreases n,
{
    if n > 0 {
        lemma_parens_neutral(d, s, (n - 1) as nat);
        assert(s[n - 1] != '(' && s[n - 1] != ')');
    }
}

/// Parentheses balance in `s`, whatever the depth it starts at.
pub open spec fn parens_balanced(s: Seq<char>) -> bool {
    forall|k: nat| #[trigger] parens_from(Some(k), s, s.len()) == Some(k)
}

proof fn lemma_parens_balanced_plain(s: Seq<char>)
    requires
        no_parens(s),
    ensures
        parens_balanced(s),
{
    assert forall|k: nat| #[trigger] parens_from(Some(k), s, s.len()) == Some(k) by {
        lemma_parens_neutral(Some(k), s, s.len());
    }
}

proof fn lemma_parens_balanced_concat(a: Seq<char>, b: Seq<char>)
    requires
        parens_balanced(a),
        parens_balanced(b),
    ensures
        parens_balanced(a + b),
{
    assert forall|k: nat| #[trigger] parens_from(Some(k), a + b, (a + b).len()) == Some(k) by {
        lemma_parens_concat(Some(k), a, b, b.len());
        assert(parens_from(Some(k), a, a.len()) == Some(k));
    }
}

proof fn lemma_parens_wrapped(x: Seq<char>)
    requires
        parens_balanced(x),
    ensures
        parens_balanced(seq!['('] + x + seq![')']),
{
    let o = seq!['('];
    let c = seq![')'];
    assert forall|k: nat| #[trigger] parens_from(Some(k), o + x + c, (o + x + c).len()) == Some(k) by {
        lemma_parens_concat(Some(k), o + x, c, 1);
        lemma_parens_concat(Some(k), o, x, x.len());
        assert(parens_from(Some(k), o, 1) == Some(k + 1)) by {
            assert(parens_from(Some(k), o, 0) == Some(k));
        }
        assert(parens_from(Some(k + 1), x, x.len()) == Some(k + 1));
        assert(parens_from(Some(k + 1), c, 1) == Some(k)) by {
            assert(parens_from(Some(k + 1), c, 0) == Some(k + 1));
        }
    }
}

// ── bracket depths from any start ─────────────────────────────────────

/// The depths of `<>`, `()` and `[]` after the first `n` characters of
/// `s`, starting at `d`.
pub open spec fn depths_from(d: (nat, nat, nat), s: Seq<char>, n: nat) -> (nat, nat, nat)
    decreases n,
{
    if n == 0 || n > s.len() {
        d
    } else {
        depth_step(depths_from(d, s, (n - 1) as nat), s[n - 1])
    }
}

proof fn lemma_depth_after_from(s: Seq<char>, n: nat)
    requires
        n <= s.len(),
    ensures
        depth_after(s, n) == depths_from((0, 0, 0), s, n),
    decreases n,
{
    if n > 0 {
        lemma_depth_after_from(s, (n - 1) as nat);
    }
}

proof fn lemma_depths_prefix(d: (nat, nat, nat), a: Seq<char>, b: Seq<char>, j: nat)
    requires
        j <= a.len(),
    ensures
        depths_from(d, a + b, j) == depths_from(d, a, j),
    decreases j,
{
    if j > 0 {
        lemma_depths_prefix(d, a, b, (j - 1) as nat);
        assert((a + b)[j - 1] == a[j - 1]);
    }
}

proof fn lemma_depths_concat(d: (nat, nat, nat), a: Seq<char>, b: Seq<char>, j: nat)
    requires
        j <= b.len(),
    ensures
        depths_from(d, a + b, a.len() + j) == depths_from(depths_from(d, a, a.len()), b, j),
    decreases j,
{
    if j == 0 {
        lemma_depths_prefix(d, a, b, a.len());
    } else {
        lemma_depths_concat(d, a, b, (j - 1) as nat);
        assert((a + b)[a.len() + j - 1] == b[j - 1]);
    }
}

/// `s` holds no bracket of any kind.
pub open spec fn no_brackets(s: Seq<char>) -> bool {
    forall|i: int|
        0 <= i < s.len() ==> #[trigger] s[i] != '(' && s[i] != ')' && s[i] != '<' && s[i] != '>'
            && s[i] != '[' && s[i] != ']'
}

proof fn lemma_depths_neutral(d: (nat, nat, nat), s: Seq<char>, n: nat)
    requires
        no_brackets(s),
        n <= s.len(),
    ensures
        depths_from(d, s, n) == d,
    decreases n,
{
    if n > 0 {
        lemma_depths_neutral(d, s, (n - 1) as nat);
        assert(s[n - 1] != '(' && s[n - 1] != '<' && s[n - 1] != '[');
    }
}

/// Brackets balance in `s`, whatever depths it starts at.
pub open spec fn brackets_balanced(s: Seq<char>) -> bool {
    forall|d: (nat, nat, nat)| #[trigger] depths_from(d, s, s.len()) == d
}

/// Every comma of `s` stands inside a `<>` that `s` opens.
pub open spec fn commas_nested(s: Seq<char>) -> bool {
    forall|n: nat, d: (nat, nat, nat)|
        1 <= n <= s.len() && s[n - 1] == ',' ==> #[trigger] depths_from(d, s, n).0 >= d.0 + 1
}

proof fn lemma_brackets_balanced_plain(s: Seq<char>)
    requires
        no_brackets(s),
    ensures
        brackets_balanced(s),
{
    assert forall|d: (nat, nat, nat)| #[trigger] depths_from(d, s, s.len()) == d by {
        lemma_depths_neutral(d, s, s.len());
    }
}

proof fn lemma_brackets_balanced_concat(a: Seq<char>, b: Seq<char>)
    requires
        brackets_balanced(a),
        brackets_balanced(b),
    ensures
        brackets_balanced(a + b),
{
    assert forall|d: (nat, nat, nat)| #[trigger] depths_from(d, a + b, (a + b).len()) == d by {
        lemma_depths_concat(d, a, b, b.len());
        assert(depths_from(d, a, a.len()) == d);
    }
}

/// `s` holds no comma.
pub open spec fn no_commas(s: Seq<char>) -> bool {
    forall|i: int| 0 <= i < s.len() ==> #[trigger] s[i] != ','
}

/// Every comma of `s` stands at least `c` levels of `<>` deeper than
/// where `s` starts.
pub open spec fn commas_at_least(s: Seq<char>, c: nat) -> bool {
    forall|n: nat, d: (nat, nat, nat)|
        1 <= n <= s.len() && s[n - 1] == ',' ==> #[trigger] depths_from(d, s, n).0 >= d.0 + c
}

proof fn lemma_commas_plain(s: Seq<char>, c: nat)
    requires
        no_commas(s),
    ensures
        commas_at_least(s, c),
{
    assert forall|n: nat, d: (nat, nat, nat)|
        1 <= n <= s.len() && s[n - 1] == ',' implies #[trigger] depths_from(d, s, n).0 >= d.0 + c by {
        assert(s[n - 1] != ',');
    }
}

/// Commas keep their depth when text that keeps the `<>` depth from
/// dropping comes before them.
proof fn lemma_commas_concat(a: Seq<char>, b: Seq<char>, c: nat)
    requires
        commas_at_least(a, c),
        commas_at_least(b, c),
        forall|d: (nat, nat, nat)| #[trigger] depths_from(d, a, a.len()).0 >= d.0,
    ensures
        commas_at_least(a + b, c),
{
    let s = a + b;
    assert forall|n: nat, d: (nat, nat, nat)|
        1 <= n <= s.len() && s[n - 1] == ',' implies #[trigger] depths_from(d, s, n).0 >= d.0 + c by {
        if n <= a.len() {
            lemma_depths_prefix(d, a, b, n);
            assert(a[n - 1] == s[n - 1]);
        } else {
            let j = (n - a.len()) as nat;
            lemma_depths_concat(d, a, b, j);
            assert(b[j - 1] == s[n - 1]);
            let e = depths_from(d, a, a.len());
            assert(depths_from(e, b, j).0 >= e.0 + c);
        }
    }
}

/// A text without `|` is one part when split at `|`.
pub open spec fn no_bar(s: Seq<char>) -> bool {
    forall|i: int| 0 <= i < s.len() ==> #[trigger] s[i] != '|'
}

proof fn lemma_scan_no_sep(s: Seq<char>, n: nat)
    requires
        no_bar(s),
        n <= s.len(),
    ensures
        split_scan(s, '|', n) == (Seq::<Seq<char>>::empty(), 0int),
    decreases n,
{
    if n > 0 {
        lemma_scan_no_sep(s, (n - 1) as nat);
        assert(s[n - 1] != '|');
        assert(!is_split_at(s, '|', n - 1));
    }
}

proof fn lemma_split_no_bar(s: Seq<char>)
    requires
        no_bar(s),
    ensures
        split_top_level(s, '|') == seq![trim(s)],
{
    lemma_scan_no_sep(s, s.len());
}

/// A text that neither starts nor ends with whitespace is its own trim.
proof fn lemma_trim_id(s: Seq<char>)
    requires
        s.len() > 0,
        !is_ws(s[0]),
        !is_ws(s.last()),
    ensures
        trim(s) == s,
{
    lemma_trim_start_at(s, 0);
    assert(s.subrange(0, s.len() as int) =~= s);
    lemma_trim_end_at(s, s.len() as int);
}

proof fn lemma_trim_space(v: Seq<char>)
    requires
        v.len() > 0,
        !is_ws(v[0]),
        !is_ws(v.last()),
    ensures
        trim(seq![' '] + v) == v,
{
    let s = seq![' '] + v;
    assert(s[0] == ' ');
    assert(s[1] == v[0]);
    lemma_trim_start_at(s, 1);
    assert(s.subrange(1, s.len() as int) =~= v);
    lemma_trim_end_at(v, v.len() as int);
    assert(v.subrange(0, v.len() as int) =~= v);
}

/// Splitting `k, v` at top-level commas gives `k` and `v`.
proof fn lemma_split_pair(k: Seq<char>, v: Seq<char>)
    requires
        k.len() > 0,
        !is_ws(k[0]),
        !is_ws(k.last()),
        v.len() > 0,
        !is_ws(v[0]),
        !is_ws(v.last()),
        brackets_balanced(k),
        commas_at_least(k, 1),
        commas_at_least(v, 1),
    ensures
        split_top_level(k + seq![',', ' '] + v, ',') == seq![k, v],
{
    let c = seq![',', ' '];
    let s = k + c + v;
    let z = (0nat, 0nat, 0nat);
    // no split inside `k`
    assert forall|n: nat| n <= k.len() implies #[trigger] split_scan(s, ',', n) == (
        Seq::<Seq<char>>::empty(),
        0int,
    ) by {
        lemma_scan_k(k, c, v, n);
    }
    // the split after `k`
    let m = (k.len() + 1) as nat;
    assert(s[k.len() as int] == ',');
    lemma_depth_after_from(s, m);
    lemma_depths_prefix(z, k + c, v, m);
    lemma_depths_concat(z, k, c, 1);
    assert(depths_from(z, k, k.len()) == z);
    assert(c[0] == ',');
    assert(depths_from(z, c, 1) == depth_step(depths_from(z, c, 0), c[0]));
    assert(is_split_at(s, ',', k.len() as int));
    assert(split_scan(s, ',', k.len()) == (Seq::<Seq<char>>::empty(), 0int));
    assert(Seq::<Seq<char>>::empty().push(trim(s.subrange(0, k.len() as int))) =~= seq![
        trim(s.subrange(0, k.len() as int)),
    ]);
    assert(split_scan(s, ',', m) == (seq![trim(s.subrange(0, k.len() as int))], m as int));
    assert(s.subrange(0, k.len() as int) =~= k);
    lemma_trim_id(k);
    // no split after it
    assert forall|n: nat| m <= n <= s.len() implies #[trigger] split_scan(s, ',', n) == (
        seq![k],
        m as int,
    ) by {
        lemma_scan_v(k, c, v, n);
    }
    assert(s.subrange(m as int, s.len() as int) =~= seq![' '] + v);
    lemma_trim_space(v);
}

proof fn lemma_scan_k(k: Seq<char>, c: Seq<char>, v: Seq<char>, n: nat)
    requires
        c == seq![',', ' '],
        n <= k.len(),
        commas_at_least(k, 1),
    ensures
        split_scan(k + c + v, ',', n) == (Seq::<Seq<char>>::empty(), 0int),
    decreases n,
{
    if n > 0 {
        let s = k + c + v;
        lemma_scan_k(k, c, v, (n - 1) as nat);
        if s[n - 1] == ',' {
            let z = (0nat, 0nat, 0nat);
            lemma_depth_after_from(s, n);
            lemma_depths_prefix(z, k, c + v, n);
            assert(s =~= k + (c + v));
            assert(k[n - 1] == ',');
            assert(depths_from(z, k, n).0 >= 1);
        }
        assert(!is_split_at(s, ',', n - 1));
    }
}

proof fn lemma_scan_v(k: Seq<char>, c: Seq<char>, v: Seq<char>, n: nat)
    requires
        c == seq![',', ' '],
        k.len() + 1 <= n <= k.len() + 2 + v.len(),
        brackets_balanced(k),
        commas_at_least(v, 1),
        split_scan(k + c + v, ',', (k.len() + 1) as nat) == (seq![k], (k.len() + 1) as int),
    ensures
        split_scan(k + c + v, ',', n) == (seq![k], (k.len() + 1) as int),
    decreases n,
{
    if n > k.len() + 1 {
        let s = k + c + v;
        lemma_scan_v(k, c, v, (n - 1) as nat);
        if n == k.len() + 2 {
            assert(s[n - 1] == ' ');
        } else if s[n - 1] == ',' {
            let z = (0nat, 0nat, 0nat);
            let j = (n - k.len() - 2) as nat;
            lemma_depth_after_from(s, n);
            lemma_depths_concat(z, k + c, v, j);
            lemma_depths_concat(z, k, c, 2);
            assert(depths_from(z, k, k.len()) == z);
            assert(depths_from(z, c, 2) == z) by {
                assert(c[0] == ',' && c[1] == ' ');
                assert(depths_from(z, c, 0) == z);
                assert(depths_from(z, c, 1) == z);
            }
            assert(v[j - 1] == s[n - 1]);
            assert(depths_from(z, v, j).0 >= 1);
        }
        assert(!is_split_at(s, ',', n - 1));
    }
}

// ── types whose text reads back ───────────────────────────────────────

pub open spec fn name_char(c: char) -> bool {
    ('a' <= c && c <= 'z') || ('A' <= c && c <= 'Z') || ('0' <= c && c <= '9') || c == '_'
}

/// An identifier that names no built-in type.
pub open spec fn plain_name(n: Seq<char>) -> bool {
    &&& n.len() > 0
    &&& forall|i: int| 0 <= i < n.len() ==> name_char(#[trigger] n[i])
    &&& keyword_ty(n) == LuaTy::Class(n)
}

/// A type built from the built-in types and classes with plain names by
/// arrays, optionals, typed tables and variadics.
pub open spec fn simple_ty(t: LuaTy) -> bool
    decreases t,
{
    match t {
        LuaTy::Nil | LuaTy::Boolean | LuaTy::Integer | LuaTy::Number | LuaTy::String | LuaTy::Table
        | LuaTy::Function | LuaTy::Any | LuaTy::Thread => true,
        LuaTy::Class(n) => plain_name(n),
        LuaTy::Array(x) => simple_ty(*x),
        LuaTy::Optional(x) => simple_ty(*x),
        LuaTy::Variadic(x) => simple_ty(*x),
        LuaTy::TypedTable(k, v) => simple_ty(*k) && simple_ty(*v),
        _ => false,
    }
}

/// A built-in type or a class: written as one word.
pub open spec fn word_ty(t: LuaTy) -> bool {
    match t {
        LuaTy::Array(_) | LuaTy::Optional(_) | LuaTy::Variadic(_) | LuaTy::TypedTable(_, _) => false,
        _ => true,
    }
}

/// What the proof keeps of the text of a simple type.
pub open spec fn good_text(s: Seq<char>) -> bool {
    &&& s.len() > 0
    &&& !is_ws(s[0])
    &&& !is_ws(s.last())
    &&& s.last() != ')'
    &&& s.last() != '['
    &&& no_bar(s)
    &&& parens_balanced(s)
    &&& brackets_balanced(s)
    &&& commas_at_least(s, 1)
}

proof fn lemma_word(w: Seq<char>)
    requires
        w.len() > 0,
        forall|i: int| 0 <= i < w.len() ==> name_char(#[trigger] w[i]),
    ensures
        good_text(w),
        parse_embedded(w) is None,
        parse_atom(w) == keyword_ty(w),
{
    assert(no_bar(w)) by {
        assert forall|i: int| 0 <= i < w.len() implies #[trigger] w[i] != '|' by {
            assert(name_char(w[i]));
        }
    }
    assert(no_parens(w)) by {
        assert forall|i: int| 0 <= i < w.len() implies #[trigger] w[i] != '(' && w[i] != ')' by {
            assert(name_char(w[i]));
        }
    }
    assert(no_brackets(w)) by {
        assert forall|i: int| 0 <= i < w.len() implies #[trigger] w[i] != '(' && w[i] != ')' && w[i] != '<'
            && w[i] != '>' && w[i] != '[' && w[i] != ']' by {
            assert(name_char(w[i]));
        }
    }
    assert(no_commas(w)) by {
        assert forall|i: int| 0 <= i < w.len() implies #[trigger] w[i] != ',' by {
            assert(name_char(w[i]));
        }
    }
    lemma_parens_balanced_plain(w);
    lemma_brackets_balanced_plain(w);
    lemma_commas_plain(w, 1);
    assert(name_char(w[0]));
    assert(name_char(w[w.len() - 1]));
    lemma_trim_id(w);
    lemma_split_no_bar(w);
    if w.len() >= 2 {
        assert(name_char(w[w.len() - 2]));
    }
    if w.len() >= 3 {
        assert(name_char(w[w.len() - 3]));
    }
}

proof fn lemma_commas_weaker(s: Seq<char>)
    requires
        commas_at_least(s, 1),
    ensures
        commas_at_least(s, 0),
{
    assert forall|n: nat, d: (nat, nat, nat)|
        1 <= n <= s.len() && s[n - 1] == ',' implies #[trigger] depths_from(d, s, n).0 >= d.0 + 0 by {
        assert(depths_from(d, s, n).0 >= d.0 + 1);
    }
}

/// The facts of `good_text` for `x` followed by a suffix without bars,
/// brackets that do not balance, or commas.
proof fn lemma_good_suffix(xs: Seq<char>, q: Seq<char>)
    requires
        good_text(xs),
        q.len() > 0,
        no_bar(q),
        no_brackets(q),
        no_commas(q),
        !is_ws(q.last()),
        q.last() != ')',
        q.last() != '[',
    ensures
        good_text(xs + q),
        trim(xs + q) == xs + q,
        split_top_level(xs + q, '|') == seq![xs + q],
        (xs + q).subrange(0, xs.len() as int) == xs,
{
    let s = xs + q;
    assert(s[0] == xs[0]);
    assert(s.last() == q.last());
    assert forall|i: int| 0 <= i < s.len() implies #[trigger] s[i] != '|' by {
        if i < xs.len() {
            assert(s[i] == xs[i]);
        } else {
            assert(s[i] == q[i - xs.len()]);
        }
    }
    assert(no_parens(q)) by {
        assert forall|i: int| 0 <= i < q.len() implies #[trigger] q[i] != '(' && q[i] != ')' by {
            assert(q[i] != '(');
        }
    }
    lemma_parens_balanced_plain(q);
    lemma_parens_balanced_concat(xs, q);
    lemma_brackets_balanced_plain(q);
    lemma_brackets_balanced_concat(xs, q);
    lemma_commas_plain(q, 1);
    lemma_commas_concat(xs, q, 1);
    lemma_trim_id(s);
    lemma_split_no_bar(s);
    assert(s.subrange(0, xs.len() as int) =~= xs);
    lemma_trim_id(xs);
}

proof fn lemma_optional(xs: Seq<char>, x: LuaTy)
    requires
        good_text(xs),
        parse_atom(xs) == x,
    ensures
        good_text(xs + "?"@),
        parse_embedded(xs + "?"@) == Some(LuaTy::Optional(Box::new(x))),
{
    reveal_strlit("?");
    let q = "?"@;
    assert(q[0] == '?');
    assert(no_bar(q) && no_brackets(q) && no_commas(q));
    lemma_good_suffix(xs, q);
    let s = xs + q;
    assert(s.last() == '?');
    assert(s.subrange(0, s.len() - 1) == xs);
}

proof fn lemma_array_plain(xs: Seq<char>, x: LuaTy)
    requires
        good_text(xs),
        parse_atom(xs) == x,
    ensures
        good_text(xs + "[]"@),
        parse_embedded(xs + "[]"@) == Some(LuaTy::Array(Box::new(x))),
{
    reveal_strlit("[]");
    let q = "[]"@;
    assert(q[0] == '[' && q[1] == ']');
    assert(no_bar(q) && no_commas(q));
    let s = xs + q;
    assert(s.last() == ']');
    assert(s[s.len() - 2] == '[');
    assert(no_parens(q));
    lemma_parens_balanced_plain(q);
    lemma_parens_balanced_concat(xs, q);
    assert(brackets_balanced(q)) by {
        assert forall|d: (nat, nat, nat)| #[trigger] depths_from(d, q, q.len()) == d by {
            assert(depths_from(d, q, 0) == d);
            assert(depths_from(d, q, 1) == (d.0, d.1, d.2 + 1));
        }
    }
    lemma_brackets_balanced_concat(xs, q);
    lemma_commas_plain(q, 1);
    lemma_commas_concat(xs, q, 1);
    assert(s[0] == xs[0]);
    assert forall|i: int| 0 <= i < s.len() implies #[trigger] s[i] != '|' by {
        if i < xs.len() {
            assert(s[i] == xs[i]);
        } else {
            assert(s[i] == q[i - xs.len()]);
        }
    }
    lemma_trim_id(s);
    lemma_split_no_bar(s);
    assert(s.subrange(0, s.len() - 2) =~= xs);
    lemma_trim_id(xs);
}

proof fn lemma_variadic(xs: Seq<char>, x: LuaTy)
    requires
        good_text(xs),
        parse_atom(xs) == x,
    ensures
        good_text(xs + "..."@),
        parse_embedded(xs + "..."@) == Some(LuaTy::Variadic(Box::new(x))),
{
    reveal_strlit("...");
    let q = "..."@;
    assert(q[0] == '.' && q[1] == '.' && q[2] == '.');
    assert(no_bar(q) && no_brackets(q) && no_commas(q));
    lemma_good_suffix(xs, q);
    let s = xs + q;
    assert(s.last() == '.');
    assert(s[s.len() - 2] == '.');
    assert(s[s.len() - 3] == '.');
    assert(s.subrange(0, s.len() - 3) =~= xs);
}

proof fn lemma_brackets_wrapped(xs: Seq<char>)
    requires
        brackets_balanced(xs),
    ensures
        brackets_balanced(seq!['('] + xs + seq![')']),
        forall|d: (nat, nat, nat)| #[trigger] depths_from(d, seq!['('], 1).0 >= d.0,
        forall|d: (nat, nat, nat)| #[trigger] depths_from(d, seq!['('] + xs, (seq!['('] + xs).len()).0 >= d.0,
{
    let o = seq!['('];
    let c = seq![')'];
    assert forall|d: (nat, nat, nat)| #[trigger] depths_from(d, o, 1) == (d.0, d.1 + 1, d.2) by {
        assert(depths_from(d, o, 0) == d);
    }
    assert forall|d: (nat, nat, nat)| #[trigger] depths_from(d, o + xs, (o + xs).len()) == (d.0, d.1 + 1, d.2) by {
        lemma_depths_concat(d, o, xs, xs.len());
        assert(depths_from(d, o, 1) == (d.0, d.1 + 1, d.2));
        assert((o + xs).len() == o.len() + xs.len());
    }
    assert forall|d: (nat, nat, nat)| #[trigger] depths_from(d, o + xs + c, (o + xs + c).len()) == d by {
        lemma_depths_concat(d, o + xs, c, 1);
        let e = depths_from(d, o + xs, (o + xs).len());
        assert(e == (d.0, d.1 + 1, d.2));
        assert(depths_from(e, c, 0) == e);
    }
}

proof fn lemma_array_paren(xs: Seq<char>, x: LuaTy)
    requires
        good_text(xs),
        parse_embedded(xs) == Some(x),
    ensures
        good_text("("@ + xs + ")[]"@),
        parse_embedded("("@ + xs + ")[]"@) == Some(LuaTy::Array(Box::new(x))),
{
    reveal_strlit("(");
    reveal_strlit(")[]");
    let o = seq!['('];
    let c = seq![')'];
    let q = "[]"@;
    reveal_strlit("[]");
    assert("("@ =~= o);
    let w = o + xs + c;
    let s = "("@ + xs + ")[]"@;
    assert(s =~= w + q);
    // the wrapped text reads back as `x`
    assert(w[0] == '(' && w.last() == ')');
    lemma_trim_id(w);
    assert(w.subrange(1, w.len() - 1) =~= xs);
    lemma_paren_depth_from(xs, xs.len());
    assert(parens_from(Some(0nat), xs, xs.len()) == Some(0nat));
    lemma_trim_id(xs);
    assert(strip_parens(w) == Some(xs));
    assert(parse_embedded(w) == Some(x));
    assert(parse_atom(w) == x);
    // the facts of good text
    lemma_parens_wrapped(xs);
    lemma_brackets_wrapped(xs);
    assert(no_commas(o) && no_commas(c));
    lemma_commas_plain(o, 1);
    lemma_commas_plain(c, 1);
    lemma_commas_concat(o, xs, 1);
    lemma_commas_concat(o + xs, c, 1);
    assert(no_bar(w)) by {
        assert forall|i: int| 0 <= i < w.len() implies #[trigger] w[i] != '|' by {
            if 1 <= i < w.len() - 1 {
                assert(w[i] == xs[i - 1]);
            }
        }
    }
    // `w` is then followed by `[]`
    assert(q[0] == '[' && q[1] == ']');
    assert(no_parens(q));
    lemma_parens_balanced_plain(q);
    lemma_parens_balanced_concat(w, q);
    assert(brackets_balanced(q)) by {
        assert forall|d: (nat, nat, nat)| #[trigger] depths_from(d, q, q.len()) == d by {
            assert(depths_from(d, q, 0) == d);
            assert(depths_from(d, q, 1) == (d.0, d.1, d.2 + 1));
        }
    }
    lemma_brackets_balanced_concat(w, q);
    assert(no_commas(q));
    lemma_commas_plain(q, 1);
    lemma_commas_concat(w, q, 1);
    let t = w + q;
    assert(t[0] == '(');
    assert(t.last() == ']');
    assert(t[t.len() - 2] == '[');
    assert forall|i: int| 0 <= i < t.len() implies #[trigger] t[i] != '|' by {
        if i < w.len() {
            assert(t[i] == w[i]);
        } else {
            assert(t[i] == q[i - w.len()]);
        }
    }
    lemma_trim_id(t);
    lemma_split_no_bar(t);
    assert(t.subrange(0, t.len() - 2) =~= w);
}

proof fn lemma_table(ks: Seq<char>, vs: Seq<char>, k: LuaTy, v: LuaTy)
    requires
        good_text(ks),
        good_text(vs),
        parse_atom(ks) == k,
        parse_atom(vs) == v,
    ensures
        good_text("table<"@ + ks + ", "@ + vs + ">"@),
        parse_embedded("table<"@ + ks + ", "@ + vs + ">"@) == Some(
            LuaTy::TypedTable(Box::new(k), Box::new(v)),
        ),
{
    reveal_strlit("table<");
    reveal_strlit(", ");
    reveal_strlit(">");
    let p = "table<"@;
    let c = ", "@;
    let q = ">"@;
    assert(c =~= seq![',', ' ']);
    assert(p.len() == 6 && p[0] == 't' && p[5] == '<');
    assert(q.len() == 1 && q[0] == '>');
    let m = ks + c + vs;
    let s = "table<"@ + ks + ", "@ + vs + ">"@;
    assert(s =~= p + m + q);
    // bars and parentheses
    assert forall|i: int| 0 <= i < s.len() implies #[trigger] s[i] != '|' by {
        if i < 6 {
            assert(s[i] == p[i]);
        } else if i < 6 + ks.len() {
            assert(s[i] == ks[i - 6]);
            assert(ks[i - 6] != '|');
        } else if i < 8 + ks.len() {
            assert(s[i] == c[i - 6 - ks.len()]);
        } else if i < 8 + ks.len() + vs.len() {
            assert(s[i] == vs[i - 8 - ks.len()]);
            assert(vs[i - 8 - ks.len()] != '|');
        } else {
            assert(s[i] == '>');
        }
    }
    assert(no_parens(p) && no_parens(c) && no_parens(q));
    lemma_parens_balanced_plain(p);
    lemma_parens_balanced_plain(c);
    lemma_parens_balanced_plain(q);
    lemma_parens_balanced_concat(ks, c);
    lemma_parens_balanced_concat(ks + c, vs);
    lemma_parens_balanced_concat(p, m);
    lemma_parens_balanced_concat(p + m, q);
    // brackets
    assert(no_brackets(c));
    lemma_brackets_balanced_plain(c);
    lemma_brackets_balanced_concat(ks, c);
    lemma_brackets_balanced_concat(ks + c, vs);
    let word = p.subrange(0, 5);
    assert(no_brackets(word));
    assert forall|d: (nat, nat, nat)| #[trigger] depths_from(d, p, 6) == (d.0 + 1, d.1, d.2) by {
        assert(p =~= word + seq!['<']);
        lemma_depths_concat(d, word, seq!['<'], 1);
        lemma_depths_neutral(d, word, 5);
        assert(depths_from(d, seq!['<'], 0) == d);
    }
    assert forall|d: (nat, nat, nat)| #[trigger] depths_from(d, s, s.len()) == d by {
        lemma_depths_concat(d, p + m, q, 1);
        lemma_depths_concat(d, p, m, m.len());
        assert(depths_from(d, p, p.len()) == (d.0 + 1, d.1, d.2));
        let e = (d.0 + 1, d.1, d.2);
        assert(depths_from(e, m, m.len()) == e);
        assert(depths_from(e, q, 0) == e);
    }
    // commas: `m` keeps them at or below its start, `table<` adds a level
    lemma_commas_weaker(ks);
    lemma_commas_weaker(vs);
    assert(commas_at_least(c, 0)) by {
        assert forall|n: nat, d: (nat, nat, nat)|
            1 <= n <= c.len() && c[n - 1] == ',' implies #[trigger] depths_from(d, c, n).0 >= d.0 + 0 by {
            assert(n == 1);
            assert(depths_from(d, c, 0) == d);
        }
    }
    lemma_commas_concat(ks, c, 0);
    assert forall|d: (nat, nat, nat)| #[trigger] depths_from(d, ks + c, (ks + c).len()).0 >= d.0 by {
        lemma_depths_concat(d, ks, c, 2);
    }
    lemma_commas_concat(ks + c, vs, 0);
    assert(commas_at_least(s, 1)) by {
        assert forall|n: nat, d: (nat, nat, nat)|
            1 <= n <= s.len() && s[n - 1] == ',' implies #[trigger] depths_from(d, s, n).0 >= d.0 + 1 by {
            assert(n > 6 && n <= 6 + m.len()) by {
                if n <= 6 {
                    assert(s[n - 1] == p[n - 1]);
                }
                if n > 6 + m.len() {
                    assert(s[n - 1] == '>');
                }
            }
            let j = (n - 6) as nat;
            lemma_depths_prefix(d, p + m, q, n);
            lemma_depths_concat(d, p, m, j);
            assert(m[j - 1] == s[n - 1]);
            let e = (d.0 + 1, d.1, d.2);
            assert(depths_from(e, m, j).0 >= e.0 + 0);
        }
    }
    // reading it back
    assert(s[0] == 't');
    assert(s.last() == '>');
    assert(s[s.len() - 2] == vs.last());
    lemma_trim_id(s);
    lemma_split_no_bar(s);
    assert(s.subrange(0, 6) =~= p);
    assert(s.subrange(6, s.len() - 1) =~= ks + seq![',', ' '] + vs);
    lemma_split_pair(ks, vs);
}

proof fn lemma_keyword(w: Seq<char>, t: LuaTy)
    requires
        w.len() > 0,
        forall|i: int| 0 <= i < w.len() ==> name_char(#[trigger] w[i]),
        keyword_ty(w) == t,
    ensures
        good_text(w),
        parse_atom(w) == t,
{
    lemma_word(w);
}

proof fn lemma_keyword_texts(t: LuaTy)
    requires
        word_ty(t),
        !(t is Class),
        simple_ty(t),
    ensures
        good_text(ty_text(t)),
        parse_atom(ty_text(t)) == t,
{
    reveal(ty_text);
    reveal_strlit("nil");
    reveal_strlit("boolean");
    reveal_strlit("integer");
    reveal_strlit("number");
    reveal_strlit("string");
    reveal_strlit("table");
    reveal_strlit("function");
    reveal_strlit("any");
    reveal_strlit("thread");
    match t {
        LuaTy::Nil => lemma_keyword("nil"@, t),
        LuaTy::Boolean => lemma_keyword("boolean"@, t),
        LuaTy::Integer => lemma_keyword("integer"@, t),
        LuaTy::Number => lemma_keyword("number"@, t),
        LuaTy::String => lemma_keyword("string"@, t),
        LuaTy::Table => lemma_keyword("table"@, t),
        LuaTy::Function => lemma_keyword("function"@, t),
        LuaTy::Any => lemma_keyword("any"@, t),
        LuaTy::Thread => lemma_keyword("thread"@, t),
        _ => {},
    }
}

proof fn lemma_class_text(n: Seq<char>)
    requires
        plain_name(n),
    ensures
        ty_text(LuaTy::Class(n)) == n,
        good_text(n),
        parse_atom(n) == LuaTy::Class(n),
{
    reveal(ty_text);
    lemma_word(n);
}

proof fn lemma_wrapper_texts(x: LuaTy)
    requires
        simple_ty(x),
    ensures
        ty_text(LuaTy::Optional(Box::new(x))) == ty_text(x) + "?"@,
        ty_text(LuaTy::Variadic(Box::new(x))) == ty_text(x) + "..."@,
        ty_text(LuaTy::Array(Box::new(x))) == if (x is Optional) || (x is TypedTable) {
            "("@ + ty_text(x) + ")[]"@
        } else {
            ty_text(x) + "[]"@
        },
{
    reveal(ty_text);
}

proof fn lemma_table_text(k: LuaTy, v: LuaTy)
    ensures
        ty_text(LuaTy::TypedTable(Box::new(k), Box::new(v))) == "table<"@ + ty_text(k) + ", "@ + ty_text(v)
            + ">"@,
{
    reveal(ty_text);
}

/// The annotation text of a simple type reads back as that type.
pub proof fn lemma_reparse(t: LuaTy)
    requires
        simple_ty(t),
    ensures
        good_text(ty_text(t)),
        parse_atom(ty_text(t)) == t,
        !word_ty(t) ==> parse_embedded(ty_text(t)) == Some(t),
    decreases t,
{
    match t {
        LuaTy::Class(n) => {
            lemma_class_text(n);
        },
        LuaTy::Optional(x) => {
            lemma_reparse(*x);
            lemma_wrapper_texts(*x);
            lemma_optional(ty_text(*x), *x);
        },
        LuaTy::Variadic(x) => {
            lemma_reparse(*x);
            lemma_wrapper_texts(*x);
            lemma_variadic(ty_text(*x), *x);
        },
        LuaTy::Array(x) => {
            lemma_reparse(*x);
            lemma_wrapper_texts(*x);
            if (*x is Optional) || (*x is TypedTable) {
                lemma_array_paren(ty_text(*x), *x);
            } else {
                lemma_array_plain(ty_text(*x), *x);
            }
        },
        LuaTy::TypedTable(k, v) => {
            lemma_reparse(*k);
            lemma_reparse(*v);
            lemma_table_text(*k, *v);
            lemma_table(ty_text(*k), ty_text(*v), *k, *v);
        },
        _ => {
            lemma_keyword_texts(t);
        },
    }
}

} // verus!
