//! What holds of the rewriting of generated lines.

use vstd::prelude::*;

use crate::codegen::scan::{
    digit_value, digits_end, digits_value, edge_at, edges_from, edges_rewritten, ident_continue,
    ident_end, ident_start, is_digit, lemma_digits_end, lemma_ident_end, lemma_literal_end,
    literal_end, mapped, names_a_state, pc_targets, returns_from, returns_wrapped, state_refs_from,
    state_refs_rewritten, state_value, targets_from, word_at,
};
use crate::text::{dec, digit_char};

verus! {

// ---------------------------------------------------------------------------
// Numbers
// ---------------------------------------------------------------------------
/// A number that is written out in decimal digits reads back as itself.
pub proof fn law_numbers_read_back(n: nat)
    ensures
        dec(n).len() > 0,
        forall|i: int| 0 <= i < dec(n).len() ==> is_digit(#[trigger] dec(n)[i]),
        digits_value(dec(n)) == n,
    decreases n,
{
    if n < 10 {
        let d = dec(n);
        assert(d.drop_last() =~= Seq::<char>::empty());
        assert(digits_value(d.drop_last()) == 0);
        assert(digits_value(d) == digit_value(d.last()));
        assert(digit_value(digit_char(n)) == n);
    } else {
        law_numbers_read_back(n / 10);
        assert(dec(n).drop_last() =~= dec(n / 10));
        assert(digit_value(digit_char(n % 10)) == n % 10);
    }
}

// ---------------------------------------------------------------------------
// Edges
// ---------------------------------------------------------------------------
/// Where nothing but what stands from a position on is looked at, the texts in
/// front do not matter.
proof fn lemma_digits_suffix(s: Seq<char>, p: int, t: Seq<char>, i: int)
    requires
        0 <= p <= s.len(),
        0 <= i <= t.len(),
        s.skip(p) == t.skip(i),
    ensures
        digits_end(s, p) - p == digits_end(t, i) - i,
    decreases t.len() - i,
{
    assert(s.skip(p).len() == s.len() - p && t.skip(i).len() == t.len() - i);
    if i < t.len() {
        assert(s.skip(p)[0] == s[p] && t.skip(i)[0] == t[i]);
        assert(s.skip(p + 1) =~= s.skip(p).skip(1));
        assert(t.skip(i + 1) =~= t.skip(i).skip(1));
        if is_digit(t[i]) {
            lemma_digits_suffix(s, p + 1, t, i + 1);
        }
    }
}

proof fn lemma_edge_suffix(s: Seq<char>, p: int, t: Seq<char>, i: int)
    requires
        0 <= p <= s.len(),
        0 <= i <= t.len(),
        s.skip(p) == t.skip(i),
    ensures
        edge_at(s, p) == edge_at(t, i),
{
    reveal_strlit("pc = ");
    assert(s.skip(p).len() == s.len() - p && t.skip(i).len() == t.len() - i);
    if p + 5 <= s.len() {
        assert(s.subrange(p, p + 5) =~= s.skip(p).take(5));
        assert(t.subrange(i, i + 5) =~= t.skip(i).take(5));
        assert(s.skip(p + 5) =~= s.skip(p).skip(5));
        assert(t.skip(i + 5) =~= t.skip(i).skip(5));
        lemma_digits_suffix(s, p + 5, t, i + 5);
    }
}

proof fn lemma_targets_suffix(s: Seq<char>, p: int, t: Seq<char>, i: int)
    requires
        0 <= p <= s.len(),
        0 <= i <= t.len(),
        s.skip(p) == t.skip(i),
    ensures
        targets_from(s, p) == targets_from(t, i),
    decreases t.len() - i,
{
    assert(s.skip(p).len() == s.len() - p && t.skip(i).len() == t.len() - i);
    if i < t.len() {
        lemma_edge_suffix(s, p, t, i);
        if edge_at(t, i) {
            reveal_strlit("pc = ");
            let e = digits_end(t, i + 5);
            let f = digits_end(s, p + 5);
            assert(s.skip(p + 5) =~= s.skip(p).skip(5));
            assert(t.skip(i + 5) =~= t.skip(i).skip(5));
            lemma_digits_suffix(s, p + 5, t, i + 5);
            lemma_digits_end(t, i + 5);
            assert(s.subrange(p + 5, f) =~= s.skip(p).subrange(5, f - p));
            assert(t.subrange(i + 5, e) =~= t.skip(i).subrange(5, e - i));
            assert(s.skip(f) =~= s.skip(p).skip(f - p));
            assert(t.skip(e) =~= t.skip(i).skip(e - i));
            lemma_targets_suffix(s, f, t, e);
        } else {
            assert(s.skip(p + 1) =~= s.skip(p).skip(1));
            assert(t.skip(i + 1) =~= t.skip(i).skip(1));
            lemma_targets_suffix(s, p + 1, t, i + 1);
        }
    }
}

/// A digit run ends where its digits do.
pub proof fn lemma_digit_run(s: Seq<char>, p: int, n: int)
    requires
        0 <= p,
        0 <= n,
        p + n <= s.len(),
        forall|k: int| p <= k < p + n ==> is_digit(#[trigger] s[k]),
        p + n == s.len() || !is_digit(s[p + n]),
    ensures
        digits_end(s, p) == p + n,
    decreases n,
{
    if n > 0 {
        lemma_digit_run(s, p + 1, n - 1);
    }
}

/// The first character of a rewritten text is that of the text, or the `p` of an
/// edge.
proof fn lemma_rewritten_head(t: Seq<char>, i: int, r: Map<usize, usize>)
    requires
        0 <= i < t.len(),
    ensures
        edges_from(t, i, r).len() > 0,
        edge_at(t, i) ==> edges_from(t, i, r)[0] == 'p' && t[i] == 'p',
        !edge_at(t, i) ==> edges_from(t, i, r)[0] == t[i] && edges_from(t, i, r)
            == seq![t[i]] + edges_from(t, i + 1, r),
{
    reveal_strlit("pc = ");
    if edge_at(t, i) {
        lemma_digits_end(t, i + 5);
        assert(t.subrange(i, i + 5)[0] == 'p');
    }
}

/// The rewritten text spells an edge at its start only where the text does.
proof fn lemma_no_new_edge(t: Seq<char>, i: int, r: Map<usize, usize>)
    requires
        0 <= i < t.len(),
        edge_at(edges_from(t, i, r), 0),
    ensures
        edge_at(t, i),
{
    reveal_strlit("pc = ");
    if !edge_at(t, i) {
        let u0 = edges_from(t, i, r);
        assert(u0.subrange(0, 5) == "pc = "@);
        assert(u0[0] == 'p' && u0[1] == 'c' && u0[2] == ' ' && u0[3] == '=' && u0[4] == ' ') by {
            assert(u0.subrange(0, 5)[0] == u0[0]);
            assert(u0.subrange(0, 5)[1] == u0[1]);
            assert(u0.subrange(0, 5)[2] == u0[2]);
            assert(u0.subrange(0, 5)[3] == u0[3]);
            assert(u0.subrange(0, 5)[4] == u0[4]);
        }
        lemma_digits_end(u0, 5);
        assert(is_digit(u0[5]));
        lemma_rewritten_head(t, i, r);
        let u1 = edges_from(t, i + 1, r);
        assert(u1.len() > 0 && u1[0] == 'c');
        lemma_rewritten_head(t, i + 1, r);
        let u2 = edges_from(t, i + 2, r);
        assert(u2.len() > 0 && u2[0] == ' ');
        lemma_rewritten_head(t, i + 2, r);
        let u3 = edges_from(t, i + 3, r);
        assert(u3.len() > 0 && u3[0] == '=');
        lemma_rewritten_head(t, i + 3, r);
        let u4 = edges_from(t, i + 4, r);
        assert(u4.len() > 0 && u4[0] == ' ');
        lemma_rewritten_head(t, i + 4, r);
        let u5 = edges_from(t, i + 5, r);
        assert(u5.len() > 0 && is_digit(u5[0]));
        lemma_rewritten_head(t, i + 5, r);
        assert(t.subrange(i, i + 5) =~= "pc = "@);
        assert(is_digit(t[i + 5]));
        lemma_digits_end(t, i + 5);
        assert(digits_end(t, i + 5) > i + 5) by {
            lemma_digits_end(t, i + 6);
        }
    }
}

/// A list of states taken through `r`.
pub open spec fn all_mapped(s: Seq<usize>, r: Map<usize, usize>) -> Seq<usize> {
    Seq::new(s.len(), |i: int| mapped(r, s[i]))
}

proof fn lemma_redirected(t: Seq<char>, i: int, r: Map<usize, usize>)
    requires
        0 <= i <= t.len(),
    ensures
        targets_from(edges_from(t, i, r), 0) == all_mapped(targets_from(t, i), r),
    decreases t.len() - i,
{
    let u = edges_from(t, i, r);
    if i == t.len() {
        assert(all_mapped(targets_from(t, i), r) =~= Seq::<usize>::empty());
    } else if edge_at(t, i) {
        reveal_strlit("pc = ");
        let e = digits_end(t, i + 5);
        lemma_digits_end(t, i + 5);
        let from = state_value(t.subrange(i + 5, e));
        let n = mapped(r, from) as nat;
        let rest = edges_from(t, e, r);
        assert(u == "pc = "@ + dec(n) + rest);
        law_numbers_read_back(n);
        let k = 5 + dec(n).len();
        assert(u.subrange(0, 5) =~= "pc = "@);
        assert forall|j: int| 5 <= j < k implies is_digit(#[trigger] u[j]) by {
            assert(u[j] == dec(n)[j - 5]);
        }
        if e < t.len() {
            lemma_rewritten_head(t, e, r);
            assert(u[k as int] == rest[0]);
            assert(!is_digit(t[e]));
        }
        lemma_digit_run(u, 5, dec(n).len() as int);
        assert(u.subrange(5, k as int) =~= dec(n));
        assert(u.skip(k as int) =~= rest.skip(0));
        lemma_targets_suffix(u, k as int, rest, 0);
        lemma_redirected(t, e, r);
        assert(all_mapped(targets_from(t, i), r) =~= seq![n as usize] + all_mapped(
            targets_from(t, e),
            r,
        ));
    } else {
        if edge_at(u, 0) {
            lemma_no_new_edge(t, i, r);
        }
        lemma_rewritten_head(t, i, r);
        let rest = edges_from(t, i + 1, r);
        assert(u.skip(1) =~= rest.skip(0));
        lemma_targets_suffix(u, 1, rest, 0);
        lemma_redirected(t, i + 1, r);
    }
}

/// Redirecting a line redirects the edges that are read off it: the rewritten line
/// goes to where `r` leads from each target of the line, in the same order, and
/// nowhere else.
pub proof fn law_redirecting_maps_targets(line: Seq<char>, r: Map<usize, usize>)
    ensures
        pc_targets(edges_rewritten(line, r)) == all_mapped(pc_targets(line), r),
{
    lemma_redirected(line, 0, r);
}

/// The text of `t` from `i` on without the numbers of its edges.
pub open spec fn blanked_from(t: Seq<char>, i: int) -> Seq<char>
    decreases t.len() - i,
{
    if i < 0 || i >= t.len() {
        Seq::empty()
    } else if edge_at(t, i) {
        let e = digits_end(t, i + 5);
        if i < e <= t.len() {
            "pc = "@ + blanked_from(t, e)
        } else {
            Seq::empty()
        }
    } else {
        seq![t[i]] + blanked_from(t, i + 1)
    }
}

/// What stands in a line beside the targets of its edges.
pub open spec fn beside_targets(line: Seq<char>) -> Seq<char> {
    blanked_from(line, 0)
}

proof fn lemma_rewriting_suffix(
    s: Seq<char>,
    p: int,
    t: Seq<char>,
    i: int,
    g: Map<usize, usize>,
)
    requires
        0 <= p <= s.len(),
        0 <= i <= t.len(),
        s.skip(p) == t.skip(i),
    ensures
        edges_from(s, p, g) == edges_from(t, i, g),
        blanked_from(s, p) == blanked_from(t, i),
    decreases t.len() - i,
{
    assert(s.skip(p).len() == s.len() - p && t.skip(i).len() == t.len() - i);
    if i < t.len() {
        lemma_edge_suffix(s, p, t, i);
        assert(s.skip(p)[0] == s[p] && t.skip(i)[0] == t[i]);
        if edge_at(t, i) {
            reveal_strlit("pc = ");
            let e = digits_end(t, i + 5);
            let f = digits_end(s, p + 5);
            assert(s.skip(p + 5) =~= s.skip(p).skip(5));
            assert(t.skip(i + 5) =~= t.skip(i).skip(5));
            lemma_digits_suffix(s, p + 5, t, i + 5);
            lemma_digits_end(t, i + 5);
            assert(s.subrange(p + 5, f) =~= s.skip(p).subrange(5, f - p));
            assert(t.subrange(i + 5, e) =~= t.skip(i).subrange(5, e - i));
            assert(s.skip(f) =~= s.skip(p).skip(f - p));
            assert(t.skip(e) =~= t.skip(i).skip(e - i));
            lemma_rewriting_suffix(s, f, t, e, g);
        } else {
            assert(s.skip(p + 1) =~= s.skip(p).skip(1));
            assert(t.skip(i + 1) =~= t.skip(i).skip(1));
            lemma_rewriting_suffix(s, p + 1, t, i + 1, g);
        }
    }
}

/// Whether `h` is `f` and then `g`.
pub open spec fn composed(
    f: Map<usize, usize>,
    g: Map<usize, usize>,
    h: Map<usize, usize>,
) -> bool {
    forall|n: usize| #[trigger] mapped(h, n) == mapped(g, mapped(f, n))
}

proof fn lemma_rewritten_twice(
    t: Seq<char>,
    i: int,
    f: Map<usize, usize>,
    g: Map<usize, usize>,
    h: Map<usize, usize>,
)
    requires
        0 <= i <= t.len(),
        composed(f, g, h),
    ensures
        edges_from(edges_from(t, i, f), 0, g) == edges_from(t, i, h),
        blanked_from(edges_from(t, i, f), 0) == blanked_from(t, i),
    decreases t.len() - i,
{
    let u = edges_from(t, i, f);
    if i < t.len() {
        if edge_at(t, i) {
            reveal_strlit("pc = ");
            let e = digits_end(t, i + 5);
            lemma_digits_end(t, i + 5);
            let from = state_value(t.subrange(i + 5, e));
            let n = mapped(f, from) as nat;
            let rest = edges_from(t, e, f);
            assert(u == "pc = "@ + dec(n) + rest);
            law_numbers_read_back(n);
            let k = 5 + dec(n).len();
            assert(u.subrange(0, 5) =~= "pc = "@);
            assert forall|j: int| 5 <= j < k implies is_digit(#[trigger] u[j]) by {
                assert(u[j] == dec(n)[j - 5]);
            }
            if e < t.len() {
                lemma_rewritten_head(t, e, f);
                assert(u[k as int] == rest[0]);
                assert(!is_digit(t[e]));
            }
            lemma_digit_run(u, 5, dec(n).len() as int);
            assert(u.subrange(5, k as int) =~= dec(n));
            assert(u.skip(k as int) =~= rest.skip(0));
            assert(edge_at(u, 0));
            assert(mapped(h, from) == mapped(g, mapped(f, from)));
            lemma_rewriting_suffix(u, k as int, rest, 0, g);
            lemma_rewritten_twice(t, e, f, g, h);
        } else {
            if edge_at(u, 0) {
                lemma_no_new_edge(t, i, f);
            }
            lemma_rewritten_head(t, i, f);
            let rest = edges_from(t, i + 1, f);
            assert(u.skip(1) =~= rest.skip(0));
            lemma_rewriting_suffix(u, 1, rest, 0, g);
            lemma_rewritten_twice(t, i + 1, f, g, h);
        }
    }
}

/// Redirecting by one map and then by another is redirecting by both at once.
pub proof fn law_redirecting_composes(
    line: Seq<char>,
    f: Map<usize, usize>,
    g: Map<usize, usize>,
    h: Map<usize, usize>,
)
    requires
        composed(f, g, h),
    ensures
        edges_rewritten(edges_rewritten(line, f), g) == edges_rewritten(line, h),
{
    lemma_rewritten_twice(line, 0, f, g, h);
}

/// Redirecting changes targets only: all that stands beside them stays.
pub proof fn law_redirecting_keeps_the_rest(line: Seq<char>, f: Map<usize, usize>)
    ensures
        beside_targets(edges_rewritten(line, f)) == beside_targets(line),
{
    lemma_rewritten_twice(line, 0, f, Map::empty(), f);
}

// ---------------------------------------------------------------------------
// Returns
// ---------------------------------------------------------------------------
proof fn lemma_no_return(t: Seq<char>, i: int)
    requires
        0 <= i <= t.len(),
        forall|k: int| 0 <= k < t.len() ==> !#[trigger] word_at(t, k, "return"@),
    ensures
        returns_from(t, i) == t.skip(i),
    decreases t.len() - i,
{
    if i < t.len() {
        if t[i] == '"' {
            lemma_literal_end(t, i + 1);
            let e = literal_end(t, i + 1);
            lemma_no_return(t, e);
            assert(t.subrange(i, e) + t.skip(e) =~= t.skip(i));
        } else {
            lemma_no_return(t, i + 1);
            assert(seq![t[i]] + t.skip(i + 1) =~= t.skip(i));
        }
    } else {
        assert(t.skip(i) =~= Seq::<char>::empty());
    }
}

/// A line without the keyword `return` is left as it is; an identifier that merely
/// contains it is not the keyword.
pub proof fn law_lines_without_return_stay(line: Seq<char>)
    requires
        forall|k: int| 0 <= k < line.len() ==> !#[trigger] word_at(line, k, "return"@),
    ensures
        returns_wrapped(line) == line,
{
    lemma_no_return(line, 0);
    assert(line.skip(0) =~= line);
}

// ---------------------------------------------------------------------------
// State names
// ---------------------------------------------------------------------------
/// Whether a text accesses the shared state: `st.` and a field, behind which
/// nothing but an index stands.
pub open spec fn is_access(v: Seq<char>) -> bool {
    &&& v.len() > 3
    &&& v[0] == 's' && v[1] == 't' && v[2] == '.'
    &&& ident_start(v[3])
    &&& forall|k: int|
        ident_end(v, 4) <= k < v.len() ==> !ident_start(#[trigger] v[k]) && v[k] != '"'
}

/// Whether every state name stands for an access to the shared state, which is no
/// state name itself.
pub open spec fn accesses(repl: Map<Seq<char>, Seq<char>>) -> bool {
    &&& forall|k: Seq<char>| #[trigger] repl.contains_key(k) ==> is_access(repl[k])
    &&& !repl.contains_key("st"@)
}

/// An identifier ends where its characters do.
proof fn lemma_ident_run(s: Seq<char>, p: int, n: int)
    requires
        0 <= p,
        0 <= n,
        p + n <= s.len(),
        forall|k: int| p <= k < p + n ==> ident_continue(#[trigger] s[k]),
        p + n == s.len() || !ident_continue(s[p + n]),
    ensures
        ident_end(s, p) == p + n,
    decreases n,
{
    if n > 0 {
        lemma_ident_run(s, p + 1, n - 1);
    }
}

/// A string literal ends alike wherever it stands.
proof fn lemma_literal_moved(t: Seq<char>, i: int, s: Seq<char>, p: int)
    requires
        0 <= i <= t.len(),
        0 <= p <= s.len(),
        p + (literal_end(t, i) - i) <= s.len(),
        forall|k: int| 0 <= k < literal_end(t, i) - i ==> #[trigger] s[p + k] == t[i + k],
        literal_end(t, i) < t.len() || s.len() - p == t.len() - i,
    ensures
        literal_end(s, p) - p == literal_end(t, i) - i,
    decreases t.len() - i,
{
    lemma_literal_end(t, i);
    let e = literal_end(t, i);
    if i < t.len() {
        if t[i] == '\\' {
            if i + 2 < t.len() {
                lemma_literal_end(t, i + 2);
                assert(s[p + 0] == t[i + 0]);
                assert forall|k: int| 0 <= k < e - (i + 2) implies #[trigger] s[p + 2 + k] == t[i
                    + 2 + k] by {
                    assert(s[p + (2 + k)] == t[i + (2 + k)]);
                }
                lemma_literal_moved(t, i + 2, s, p + 2);
            } else {
                assert(s[p + 0] == t[i + 0]);
            }
        } else {
            if t[i] != '"' {
                lemma_literal_end(t, i + 1);
            }
            assert(s[p + 0] == t[i + 0]);
            if t[i] != '"' {
                assert forall|k: int| 0 <= k < e - (i + 1) implies #[trigger] s[p + 1 + k] == t[i
                    + 1 + k] by {
                    assert(s[p + (1 + k)] == t[i + (1 + k)]);
                }
                lemma_literal_moved(t, i + 1, s, p + 1);
            }
        }
    }
}

/// The rewritten text begins like the text, where no name begins.
proof fn lemma_refs_head(t: Seq<char>, i: int, m: Map<Seq<char>, Seq<char>>)
    requires
        0 <= i < t.len(),
        !ident_start(t[i]),
    ensures
        state_refs_from(t, i, m).len() > 0,
        state_refs_from(t, i, m)[0] == t[i],
{
    if t[i] == '"' {
        lemma_literal_end(t, i + 1);
    }
}

/// Characters that begin neither a name nor a literal are left as they are.
proof fn lemma_singles(s: Seq<char>, p: int, q: int, m: Map<Seq<char>, Seq<char>>)
    requires
        0 <= p <= q <= s.len(),
        forall|k: int| p <= k < q ==> !ident_start(#[trigger] s[k]) && s[k] != '"',
    ensures
        state_refs_from(s, p, m) == s.subrange(p, q) + state_refs_from(s, q, m),
    decreases q - p,
{
    if p < q {
        lemma_singles(s, p + 1, q, m);
        assert(s.subrange(p, q) =~= seq![s[p]] + s.subrange(p + 1, q));
        assert(seq![s[p]] + (s.subrange(p + 1, q) + state_refs_from(s, q, m)) =~= s.subrange(p, q)
            + state_refs_from(s, q, m));
    } else {
        assert(s.subrange(p, q) + state_refs_from(s, q, m) =~= state_refs_from(s, q, m));
    }
}

/// An access is left as it is.
proof fn lemma_access_stays(
    a: Seq<char>,
    v: Seq<char>,
    rest: Seq<char>,
    m: Map<Seq<char>, Seq<char>>,
)
    requires
        is_access(v),
        !m.contains_key("st"@),
        rest.len() == 0 || !ident_continue(rest[0]),
    ensures
        state_refs_from(a + (v + rest), a.len() as int, m) == v + state_refs_from(
            a + (v + rest),
            (a.len() + v.len()) as int,
            m,
        ),
{
    let s = a + (v + rest);
    let n = a.len() as int;
    assert forall|k: int| 0 <= k < v.len() implies s[n + k] == #[trigger] v[k] by {}
    // `st`
    assert(s[n] == v[0] && s[n + 1] == v[1] && s[n + 2] == v[2] && s[n + 3] == v[3]);
    lemma_ident_run(s, n + 1, 1);
    reveal_strlit("st");
    assert(s.subrange(n, n + 2) =~= "st"@);
    // the dot
    assert(state_refs_from(s, n + 2, m) == seq!['.'] + state_refs_from(s, n + 3, m));
    // the field
    lemma_ident_end(v, 4);
    let e = ident_end(v, 4);
    assert forall|k: int| n + 4 <= k < n + e implies ident_continue(#[trigger] s[k]) by {
        assert(s[k] == v[k - n]);
    }
    if e < v.len() {
        assert(s[n + e] == v[e]);
    } else if rest.len() > 0 {
        assert(s[n + e] == rest[0]);
    }
    lemma_ident_run(s, n + 4, e - 4);
    assert(ident_end(s, n + 4) == n + e);
    assert(!names_a_state(s, n + 3));
    assert(state_refs_from(s, n + 3, m) == s.subrange(n + 3, n + e) + state_refs_from(
        s,
        n + e,
        m,
    ));
    // the index
    let q = n + v.len();
    assert forall|k: int| n + e <= k < q implies !ident_start(#[trigger] s[k]) && s[k] != '"' by {
        assert(s[k] == v[k - n]);
    }
    lemma_singles(s, n + e, q, m);
    assert(s.subrange(n, n + 2) + (seq!['.'] + (s.subrange(n + 3, n + e) + (s.subrange(n + e, q)
        + state_refs_from(s, q, m)))) =~= v + state_refs_from(s, q, m));
}

/// Rewriting what was rewritten from `i` on, behind the text `a`, changes nothing.
proof fn lemma_rewritten_again(
    t: Seq<char>,
    i: int,
    m: Map<Seq<char>, Seq<char>>,
    a: Seq<char>,
)
    requires
        0 <= i <= t.len(),
        accesses(m),
        i < t.len() && ident_start(t[i]) ==> (a.len() == 0 && i == 0) || (a.len() > 0 && i > 0
            && a.last() == t[i - 1]),
    ensures
        state_refs_from(a + state_refs_from(t, i, m), a.len() as int, m) == state_refs_from(
            t,
            i,
            m,
        ),
    decreases t.len() - i,
{
    let u = state_refs_from(t, i, m);
    let s = a + u;
    let n = a.len() as int;
    if i == t.len() {
    } else if t[i] == '"' {
        lemma_literal_end(t, i + 1);
        let e = literal_end(t, i + 1);
        let lit = t.subrange(i, e);
        let rest = state_refs_from(t, e, m);
        assert(s[n] == '"');
        assert forall|k: int| 0 <= k < e - (i + 1) implies #[trigger] s[n + 1 + k] == t[i + 1
            + k] by {
            assert(s[n + 1 + k] == lit[1 + k]);
        }
        lemma_literal_moved(t, i + 1, s, n + 1);
        assert(s.subrange(n, n + (e - i)) =~= lit);
        assert(s =~= (a + lit) + rest);
        assert((a + lit).last() == t[e - 1]);
        lemma_rewritten_again(t, e, m, a + lit);
    } else if ident_start(t[i]) {
        lemma_ident_end(t, i + 1);
        let e = ident_end(t, i + 1);
        let word = t.subrange(i, e);
        let rest = state_refs_from(t, e, m);
        if e < t.len() {
            lemma_refs_head(t, e, m);
            assert(rest[0] == t[e]);
        }
        if names_a_state(t, i) && m.contains_key(word) {
            let v = m[word];
            lemma_access_stays(a, v, rest, m);
            assert(s =~= (a + v) + rest);
            lemma_rewritten_again(t, e, m, a + v);
        } else {
            assert(s[n] == word[0]);
            assert forall|k: int| n + 1 <= k < n + (e - i) implies ident_continue(
                #[trigger] s[k],
            ) by {
                assert(s[k] == word[k - n]);
                assert(word[k - n] == t[i + (k - n)]);
            }
            if rest.len() > 0 {
                assert(s[n + (e - i)] == rest[0]);
            }
            lemma_ident_run(s, n + 1, e - i - 1);
            assert(s.subrange(n, n + (e - i)) =~= word);
            if n > 0 {
                assert(s[n - 1] == a.last());
            }
            assert(names_a_state(s, n) == names_a_state(t, i));
            assert(s =~= (a + word) + rest);
            lemma_rewritten_again(t, e, m, a + word);
        }
    } else {
        let rest = state_refs_from(t, i + 1, m);
        assert(s[n] == t[i]);
        assert(s =~= (a + seq![t[i]]) + rest);
        lemma_rewritten_again(t, i + 1, m, a + seq![t[i]]);
    }
}

/// Rewriting state names is idempotent: what was rewritten once is left as it is.
pub proof fn law_rewriting_states_is_idempotent(line: Seq<char>, repl: Map<Seq<char>, Seq<char>>)
    requires
        accesses(repl),
    ensures
        state_refs_rewritten(state_refs_rewritten(line, repl), repl) == state_refs_rewritten(
            line,
            repl,
        ),
{
    lemma_rewritten_again(line, 0, repl, Seq::empty());
    assert(Seq::<char>::empty() + state_refs_from(line, 0, repl) =~= state_refs_from(
        line,
        0,
        repl,
    ));
}

} // verus!
