//! A hoisted declaration binds what the line bound.

use vstd::prelude::*;

use crate::codegen::scan::{
    after_let, bound_name, bound_names, bracketed, comma_parts, declared, default_text, find_char,
    hoisted, is_white, lemma_find_char, occurs_at, split_let, top_level_from, top_level_index,
    trimmed, trimmed_end, trimmed_start, unbracketed, without_mut,
};
use crate::text::joined;

verus! {

/// Whether `c` is a bracket.
pub open spec fn is_bracket(c: char) -> bool {
    c == '(' || c == '[' || c == '{' || c == ')' || c == ']' || c == '}'
}

/// Whether `t` is a type without comma or bracket, and without white space at its
/// ends.
pub open spec fn plain_type(t: Seq<char>) -> bool {
    &&& t.len() > 0
    &&& !is_white(t[0])
    &&& !is_white(t.last())
    &&& forall|k: int| 0 <= k < t.len() ==> #[trigger] t[k] != ',' && !is_bracket(t[k])
}

/// Whether no ` = ` stands in a type, nor at its ends where spaces surround it.
pub open spec fn without_equals(t: Seq<char>) -> bool {
    forall|k: int| !#[trigger] occurs_at(" "@ + t + " "@, k, " = "@)
}

/// Whether `t` is a name: without white space, colon or equals sign as well.
pub open spec fn plain_name(t: Seq<char>) -> bool {
    plain_type(t) && forall|k: int|
        0 <= k < t.len() ==> !is_white(#[trigger] t[k]) && t[k] != ':' && t[k] != '='
}

/// What stands in front of a name that is bound, mutably or not.
pub open spec fn mut_text(mutable: bool) -> Seq<char> {
    if mutable {
        "mut "@
    } else {
        ""@
    }
}

/// A line that binds one name.
pub open spec fn let_one(mutable: bool, x: Seq<char>, ty: Seq<char>, init: Seq<char>) -> Seq<char> {
    "let "@ + mut_text(mutable) + x + ": "@ + ty + " = "@ + init
}

/// The names of a tuple pattern, each mutable or not.
pub open spec fn bindings(mutable: Seq<bool>, names: Seq<Seq<char>>) -> Seq<Seq<char>> {
    Seq::new(names.len(), |i: int| mut_text(mutable[i]) + names[i])
}

/// A line that binds several names.
pub open spec fn let_many(
    mutable: Seq<bool>,
    names: Seq<Seq<char>>,
    types: Seq<Seq<char>>,
    init: Seq<char>,
) -> Seq<char> {
    "let ("@ + joined(bindings(mutable, names), ", "@) + "): ("@ + joined(types, ", "@) + ") = "@
        + init
}

// ---------------------------------------------------------------------------
// Text
// ---------------------------------------------------------------------------
proof fn lemma_trimmed_whole(t: Seq<char>)
    requires
        t.len() > 0,
        !is_white(t[0]),
        !is_white(t.last()),
    ensures
        trimmed(t) == t,
        trimmed_end(t) == t,
        trimmed_start(t) == t,
{
}

proof fn lemma_trimmed_spaced(t: Seq<char>)
    requires
        t.len() > 0,
        !is_white(t[0]),
        !is_white(t.last()),
    ensures
        trimmed(" "@ + t) == t,
{
    reveal_strlit(" ");
    let s = " "@ + t;
    assert(s[0] == ' ');
    assert(s.skip(1) =~= t);
    assert(trimmed_start(s) == trimmed_start(t));
    lemma_trimmed_whole(t);
}

/// A binding without its `mut` is the name.
proof fn lemma_binding(mutable: bool, x: Seq<char>)
    requires
        plain_name(x),
    ensures
        without_mut(mut_text(mutable) + x) == x,
        (mut_text(mutable) + x).len() > 0,
        !is_white((mut_text(mutable) + x)[0]),
        !is_white((mut_text(mutable) + x).last()),
{
    reveal_strlit("mut ");
    reveal_strlit("");
    let t = mut_text(mutable) + x;
    assert(t.last() == x.last());
    assert(x.last() == x[x.len() - 1]);
    if mutable {
        assert(t.subrange(0, 4) =~= "mut "@);
        assert(t.skip(4) =~= x);
        assert(t[0] == 'm');
    } else {
        assert(t =~= x);
        if occurs_at(t, 0, "mut "@) {
            assert(t.subrange(0, 4)[3] == t[3]);
            assert(is_white(x[3]));
        }
        assert(x[0] == t[0]);
    }
}

spec fn bracket_free(t: Seq<char>) -> bool {
    forall|k: int| 0 <= k < t.len() ==> !is_bracket(#[trigger] t[k])
}

spec fn comma_free(t: Seq<char>) -> bool {
    forall|k: int| 0 <= k < t.len() ==> #[trigger] t[k] != ','
}

proof fn lemma_joined_flat(parts: Seq<Seq<char>>)
    requires
        forall|i: int| 0 <= i < parts.len() ==> bracket_free(#[trigger] parts[i]),
    ensures
        bracket_free(joined(parts, ", "@)),
    decreases parts.len(),
{
    reveal_strlit(", ");
    if parts.len() > 1 {
        let front = parts.drop_last();
        assert forall|i: int| 0 <= i < front.len() implies bracket_free(#[trigger] front[i]) by {
            assert(front[i] == parts[i]);
        }
        lemma_joined_flat(front);
        assert(bracket_free(parts[parts.len() - 1]));
    }
}

proof fn lemma_joined_front(parts: Seq<Seq<char>>)
    requires
        parts.len() >= 2,
    ensures
        joined(parts, ", "@) == parts[0] + ", "@ + joined(parts.skip(1), ", "@),
    decreases parts.len(),
{
    let front = parts.drop_last();
    let rest = parts.skip(1);
    if parts.len() == 2 {
        assert(joined(front, ", "@) == parts[0]);
        assert(joined(rest, ", "@) == parts[1]);
    } else {
        lemma_joined_front(front);
        assert(front.skip(1) =~= rest.drop_last());
        assert(rest.last() == parts.last());
        assert(joined(parts, ", "@) =~= parts[0] + ", "@ + joined(rest, ", "@));
    }
}

/// The parts of a list that was joined: the first as it was, the others behind a
/// space.
proof fn lemma_joined_parts(parts: Seq<Seq<char>>, i: int)
    requires
        parts.len() > 0,
        forall|k: int| 0 <= k < parts.len() ==> comma_free(#[trigger] parts[k]),
        0 <= i < parts.len(),
    ensures
        comma_parts(joined(parts, ", "@)).len() == parts.len(),
        comma_parts(joined(parts, ", "@))[i] == if i == 0 {
            parts[0]
        } else {
            " "@ + parts[i]
        },
    decreases parts.len(),
{
    let t = joined(parts, ", "@);
    reveal_strlit(", ");
    reveal_strlit(" ");
    assert(comma_free(parts[0]));
    lemma_find_char(t, 0, ',');
    if parts.len() == 1 {
        assert(t == parts[0]);
    } else {
        lemma_joined_front(parts);
        let rest = parts.skip(1);
        let n = parts[0].len() as int;
        assert(t[n] == ',');
        assert forall|k: int| 0 <= k < n implies t[k] != ',' by {
            assert(t[k] == parts[0][k]);
        }
        assert(find_char(t, 0, ',') == Some(n));
        assert(t.take(n) =~= parts[0]);
        let spaced = Seq::new(
            rest.len(),
            |k: int|
                if k == 0 {
                    " "@ + rest[0]
                } else {
                    rest[k]
                },
        );
        assert(spaced.len() > 0);
        assert forall|k: int| 0 <= k < spaced.len() implies comma_free(#[trigger] spaced[k]) by {
            assert(comma_free(parts[k + 1]));
        }
        lemma_spaced(rest);
        assert(t.skip(n + 1) =~= " "@ + joined(rest, ", "@));
        assert(t.skip(n + 1) == joined(spaced, ", "@));
        let k = if i == 0 {
            0
        } else {
            i - 1
        };
        lemma_joined_parts(spaced, k);
        let tail = comma_parts(t.skip(n + 1));
        assert(comma_parts(t) == seq![t.take(n)] + tail);
        if i > 0 {
            assert(comma_parts(t)[i] == tail[i - 1]);
        }
    }
}

proof fn lemma_spaced(rest: Seq<Seq<char>>)
    requires
        rest.len() > 0,
    ensures
        " "@ + joined(rest, ", "@) == joined(
            Seq::new(
                rest.len(),
                |k: int|
                    if k == 0 {
                        " "@ + rest[0]
                    } else {
                        rest[k]
                    },
            ),
            ", "@,
        ),
{
    let spaced = Seq::new(
        rest.len(),
        |k: int|
            if k == 0 {
                " "@ + rest[0]
            } else {
                rest[k]
            },
    );
    if rest.len() > 1 {
        lemma_joined_front(rest);
        lemma_joined_front(spaced);
        assert(spaced.skip(1) =~= rest.skip(1));
        assert(" "@ + joined(rest, ", "@) =~= joined(spaced, ", "@));
    }
}

/// Nothing is found in a stretch without brackets, where `pat` does not stand or
/// brackets are open.
proof fn lemma_passes(t: Seq<char>, pat: Seq<char>, i: int, j: int, depth: int)
    requires
        0 <= i <= j <= t.len(),
        forall|k: int| i <= k < j ==> !is_bracket(#[trigger] t[k]),
        depth != 0 || forall|k: int| i <= k < j ==> !#[trigger] occurs_at(t, k, pat),
    ensures
        top_level_from(t, pat, i, depth) == top_level_from(t, pat, j, depth),
    decreases j - i,
{
    if i < j {
        assert(!is_bracket(t[i]));
        if depth == 0 {
            assert(!occurs_at(t, i, pat));
        }
        lemma_passes(t, pat, i + 1, j, depth);
    }
}

// ---------------------------------------------------------------------------
// One name
// ---------------------------------------------------------------------------
proof fn lemma_split_one(head: Seq<char>, ty: Seq<char>, init: Seq<char>)
    requires
        bracket_free(head),
        head.len() > 0,
        !is_white(head.last()),
        forall|k: int| 0 <= k < head.len() ==> #[trigger] head[k] != ':' && head[k] != '=',
        plain_type(ty),
        without_equals(ty),
    ensures
        split_let(head + ": "@ + ty + " = "@ + init) matches Some(l) && l.binding == head && l.ty
            == " "@ + ty && l.init == init,
{
    reveal_strlit(": ");
    reveal_strlit(" = ");
    reveal_strlit(":");
    reveal_strlit(" ");
    let t = head + ": "@ + ty + " = "@ + init;
    let h = head.len() as int;
    let eq = h + 2 + ty.len();
    assert forall|k: int| 0 <= k < eq implies !is_bracket(#[trigger] t[k]) by {
        if k < h {
            assert(t[k] == head[k]);
        } else if k >= h + 2 {
            assert(t[k] == ty[k - h - 2]);
        }
    }
    assert forall|k: int| 0 <= k < eq implies !#[trigger] occurs_at(t, k, " = "@) by {
        if occurs_at(t, k, " = "@) {
            let found = t.subrange(k, k + 3);
            assert(found[0] == t[k] && found[1] == t[k + 1]);
            assert(is_white(' '));
            if k + 1 < h {
                assert(t[k + 1] == head[k + 1]);
            } else if k + 1 == h {
                assert(t[k + 1] == ':');
            } else if k == h {
                assert(t[k] == ':');
            } else if k == eq - 1 {
                assert(t[k] == ty.last());
            } else {
                let spaced = " "@ + ty + " "@;
                assert(spaced =~= t.subrange(h + 1, eq + 1));
                assert(spaced.subrange(k - h - 1, k - h + 2) =~= found);
                assert(occurs_at(spaced, k - h - 1, " = "@));
            }
        }
    }
    lemma_passes(t, " = "@, 0, eq, 0);
    assert(t.subrange(eq, eq + 3) =~= " = "@);
    assert(top_level_index(t, " = "@) == Some(eq));
    let lhs = t.take(eq);
    assert forall|k: int| 0 <= k < h implies !is_bracket(#[trigger] lhs[k]) by {
        assert(lhs[k] == head[k]);
    }
    assert forall|k: int| 0 <= k < h implies !#[trigger] occurs_at(lhs, k, ":"@) by {
        if occurs_at(lhs, k, ":"@) {
            assert(lhs.subrange(k, k + 1)[0] == head[k]);
        }
    }
    lemma_passes(lhs, ":"@, 0, h, 0);
    assert(lhs.subrange(h, h + 1) =~= ":"@);
    assert(top_level_index(lhs, ":"@) == Some(h));
    assert(t.take(h) =~= head);
    assert(t.subrange(h + 1, eq) =~= " "@ + ty);
    assert(t.skip(eq + 3) =~= init);
}

proof fn lemma_one(mutable: bool, x: Seq<char>, ty: Seq<char>, init: Seq<char>)
    requires
        plain_name(x),
        plain_type(ty),
        without_equals(ty),
    ensures
        hoisted(let_one(mutable, x, ty, init)) == Some(
            (let_one(true, x, ty, default_text(ty) + ";"@), x + " = "@ + init),
        ),
        declared(let_one(mutable, x, ty, init)) == seq![(x, ty)],
{
    reveal_strlit("let ");
    reveal_strlit("mut ");
    reveal_strlit("let mut ");
    reveal_strlit("");
    reveal_strlit(" ");
    let line = let_one(mutable, x, ty, init);
    let bound = mut_text(mutable) + x;
    let rest = bound + ": "@ + ty + " = "@ + init;
    lemma_binding(mutable, x);
    assert(line.subrange(0, 4) =~= "let "@);
    assert(line.skip(4) =~= rest);
    assert(after_let(line) == Some(rest));
    // What is behind the `mut`.
    let plain = x + ": "@ + ty + " = "@ + init;
    assert(without_mut(rest) == plain) by {
        if mutable {
            assert(rest.subrange(0, 4) =~= "mut "@);
            assert(rest.skip(4) =~= plain);
        } else {
            assert(rest =~= plain);
            if occurs_at(rest, 0, "mut "@) {
                reveal_strlit(": ");
                let found = rest.subrange(0, 4);
                assert(found[0] == rest[0] && found[1] == rest[1] && found[2] == rest[2] && found[3]
                    == rest[3]);
                assert(is_white(' '));
                if x.len() > 3 {
                    assert(rest[3] == x[3]);
                } else if x.len() == 3 {
                    assert(rest[3] == ':');
                } else {
                    assert(rest[x.len() as int] == ':');
                }
            }
        }
    }
    assert(x.last() == x[x.len() - 1] && ty.last() == ty[ty.len() - 1]);
    assert(!is_white(x[0]) && !is_white(ty[0]));
    lemma_split_one(x, ty, init);
    lemma_trimmed_whole(x);
    lemma_trimmed_spaced(ty);
    assert(!bracketed(x)) by {
        assert(!is_bracket(x[0]));
    }
    let decl = let_one(true, x, ty, default_text(ty) + ";"@);
    assert("let mut "@ =~= "let "@ + "mut "@);
    assert("let mut "@ + x + ": "@ + ty + " = "@ + default_text(ty) + ";"@ =~= decl);
    // The names that the line binds.
    assert(bracket_free(bound)) by {
        assert forall|k: int| 0 <= k < bound.len() implies !is_bracket(#[trigger] bound[k]) by {
            let n = mut_text(mutable).len();
            if k >= n {
                assert(bound[k] == x[k - n]);
            }
        }
    }
    assert forall|k: int| 0 <= k < bound.len() implies #[trigger] bound[k] != ':' && bound[k]
        != '=' by {
        let n = mut_text(mutable).len();
        if k >= n {
            assert(bound[k] == x[k - n]);
        }
    }
    lemma_split_one(bound, ty, init);
    lemma_trimmed_whole(bound);
    assert(!bracketed(bound)) by {
        assert(!is_bracket(bound[0]));
    }
    assert(declared(line) =~= seq![(x, ty)]);
}

/// The declaration that is hoisted out of a line that binds one name binds that
/// name with its type, and hoisting it again gives it back.
pub proof fn law_hoisting_one_name(
    mutable: bool,
    x: Seq<char>,
    ty: Seq<char>,
    init: Seq<char>,
)
    requires
        plain_name(x),
        plain_type(ty),
        without_equals(ty),
    ensures
        hoisted(let_one(mutable, x, ty, init)) matches Some((decl, assign)) && declared(decl)
            == seq![(x, ty)] && assign == x + " = "@ + init && (hoisted(decl) matches Some(
            (again, _),
        ) && again == decl),
{
    lemma_one(mutable, x, ty, init);
    lemma_one(true, x, ty, default_text(ty) + ";"@);
}

// ---------------------------------------------------------------------------
// Several names
// ---------------------------------------------------------------------------
proof fn lemma_split_many(names: Seq<char>, types: Seq<char>, init: Seq<char>)
    requires
        bracket_free(names),
        bracket_free(types),
    ensures
        split_let("("@ + names + "): ("@ + types + ") = "@ + init) matches Some(l) && l.binding
            == "("@ + names + ")"@ && l.ty == " "@ + ("("@ + types + ")"@) && l.init == init,
{
    reveal_strlit("(");
    reveal_strlit(")");
    reveal_strlit("): (");
    reveal_strlit(") = ");
    reveal_strlit(" = ");
    reveal_strlit(":");
    reveal_strlit(" ");
    let t = "("@ + names + "): ("@ + types + ") = "@ + init;
    let a = 1 + names.len() as int;
    let b = a + 4 + types.len();
    let eq = b + 1;
    let pat = " = "@;
    assert(t[0] == '(' && t[a] == ')' && t[a + 1] == ':' && t[a + 2] == ' ' && t[a + 3] == '('
        && t[b] == ')');
    assert forall|k: int| 1 <= k < a implies !is_bracket(#[trigger] t[k]) by {
        assert(t[k] == names[k - 1]);
    }
    assert forall|k: int| a + 4 <= k < b implies !is_bracket(#[trigger] t[k]) by {
        assert(t[k] == types[k - a - 4]);
    }
    assert forall|k: int| a <= k < a + 3 implies !#[trigger] occurs_at(t, k, pat) by {
        if occurs_at(t, k, pat) {
            assert(t.subrange(k, k + 3)[0] == t[k]);
            assert(t.subrange(k, k + 3)[1] == t[k + 1]);
        }
    }
    assert(!occurs_at(t, b, pat)) by {
        if occurs_at(t, b, pat) {
            assert(t.subrange(b, b + 3)[0] == t[b]);
        }
    }
    assert(top_level_from(t, pat, 0, 0) == top_level_from(t, pat, 1, 1));
    lemma_passes(t, pat, 1, a, 1);
    assert(top_level_from(t, pat, a, 1) == top_level_from(t, pat, a + 1, 0));
    lemma_passes(t, pat, a + 1, a + 3, 0);
    assert(top_level_from(t, pat, a + 3, 0) == top_level_from(t, pat, a + 4, 1));
    lemma_passes(t, pat, a + 4, b, 1);
    assert(top_level_from(t, pat, b, 1) == top_level_from(t, pat, eq, 0));
    assert(t.subrange(eq, eq + 3) =~= pat);
    assert(t[eq] == ' ');
    assert(top_level_index(t, pat) == Some(eq));
    let lhs = t.take(eq);
    assert(lhs[0] == '(' && lhs[a] == ')' && lhs[a + 1] == ':');
    assert forall|k: int| 1 <= k < a implies !is_bracket(#[trigger] lhs[k]) by {
        assert(lhs[k] == t[k]);
    }
    assert(!occurs_at(lhs, a, ":"@)) by {
        if occurs_at(lhs, a, ":"@) {
            assert(lhs.subrange(a, a + 1)[0] == lhs[a]);
        }
    }
    assert(top_level_from(lhs, ":"@, 0, 0) == top_level_from(lhs, ":"@, 1, 1));
    lemma_passes(lhs, ":"@, 1, a, 1);
    assert(top_level_from(lhs, ":"@, a, 1) == top_level_from(lhs, ":"@, a + 1, 0));
    assert(lhs.subrange(a + 1, a + 2) =~= ":"@);
    assert(top_level_index(lhs, ":"@) == Some(a + 1));
    assert(t.take(a + 1) =~= "("@ + names + ")"@);
    assert(t.subrange(a + 2, eq) =~= " "@ + ("("@ + types + ")"@));
    assert(t.skip(eq + 3) =~= init);
}

proof fn lemma_wrapped(t: Seq<char>)
    ensures
        bracketed("("@ + t + ")"@),
        unbracketed("("@ + t + ")"@) == t,
        trimmed("("@ + t + ")"@) == "("@ + t + ")"@,
        trimmed_end("("@ + t + ")"@) == "("@ + t + ")"@,
        trimmed(" "@ + ("("@ + t + ")"@)) == "("@ + t + ")"@,
{
    reveal_strlit("(");
    reveal_strlit(")");
    let w = "("@ + t + ")"@;
    assert(w[0] == '(' && w.last() == ')');
    assert(unbracketed(w) =~= t);
    lemma_trimmed_whole(w);
    lemma_trimmed_spaced(w);
}

spec fn all_names(names: Seq<Seq<char>>) -> bool {
    forall|i: int| 0 <= i < names.len() ==> plain_name(#[trigger] names[i])
}

spec fn all_types(types: Seq<Seq<char>>) -> bool {
    forall|i: int| 0 <= i < types.len() ==> plain_type(#[trigger] types[i])
}

/// The names of a tuple pattern come out of it again.
proof fn lemma_bindings(mutable: Seq<bool>, names: Seq<Seq<char>>)
    requires
        names.len() > 0,
        mutable.len() == names.len(),
        all_names(names),
    ensures
        bracket_free(joined(bindings(mutable, names), ", "@)),
        bound_names(joined(bindings(mutable, names), ", "@)) == names,
{
    reveal_strlit("mut ");
    reveal_strlit("");
    let parts = bindings(mutable, names);
    assert forall|i: int| 0 <= i < parts.len() implies bracket_free(#[trigger] parts[i])
        && comma_free(parts[i]) by {
        let n = mut_text(mutable[i]).len();
        let x = names[i];
        assert(plain_name(x));
        assert forall|k: int| 0 <= k < parts[i].len() implies !is_bracket(#[trigger] parts[i][k])
            && parts[i][k] != ',' by {
            if k >= n {
                assert(parts[i][k] == x[k - n]);
            }
        }
    }
    lemma_joined_flat(parts);
    let all = bound_names(joined(parts, ", "@));
    lemma_joined_parts(parts, 0);
    assert forall|i: int| 0 <= i < names.len() implies all[i] == names[i] by {
        lemma_joined_parts(parts, i);
        assert(plain_name(names[i]));
        lemma_binding(mutable[i], names[i]);
        lemma_trimmed_whole(parts[i]);
        lemma_trimmed_spaced(parts[i]);
    }
    assert(all =~= names);
}

proof fn lemma_types(types: Seq<Seq<char>>, i: int)
    requires
        types.len() > 0,
        all_types(types),
        0 <= i < types.len(),
    ensures
        bracket_free(joined(types, ", "@)),
        comma_parts(joined(types, ", "@)).len() == types.len(),
        trimmed(comma_parts(joined(types, ", "@))[i]) == types[i],
{
    assert forall|k: int| 0 <= k < types.len() implies bracket_free(#[trigger] types[k])
        && comma_free(types[k]) by {
        assert(plain_type(types[k]));
    }
    lemma_joined_flat(types);
    lemma_joined_parts(types, i);
    let ty = types[i];
    assert(plain_type(ty));
    assert(ty.last() == ty[ty.len() - 1]);
    assert(!is_white(ty[0]));
    lemma_trimmed_whole(ty);
    lemma_trimmed_spaced(ty);
}

/// Pairs of names and types.
pub open spec fn paired_texts(
    names: Seq<Seq<char>>,
    types: Seq<Seq<char>>,
) -> Seq<(Seq<char>, Seq<char>)> {
    Seq::new(names.len(), |i: int| (names[i], types[i]))
}

spec fn tuple_type(types: Seq<Seq<char>>) -> Seq<char> {
    "("@ + joined(types, ", "@) + ")"@
}

proof fn lemma_many(
    mutable: Seq<bool>,
    names: Seq<Seq<char>>,
    types: Seq<Seq<char>>,
    init: Seq<char>,
)
    requires
        names.len() > 0,
        mutable.len() == names.len(),
        types.len() == names.len(),
        all_names(names),
        all_types(types),
    ensures
        hoisted(let_many(mutable, names, types, init)) == Some(
            (
                let_many(
                    Seq::new(names.len(), |i: int| true),
                    names,
                    types,
                    default_text(tuple_type(types)) + ";"@,
                ),
                "("@ + joined(names, ", "@) + ") = "@ + init,
            ),
        ),
        declared(let_many(mutable, names, types, init)) == paired_texts(names, types),
{
    reveal_strlit("let (");
    reveal_strlit("let ");
    reveal_strlit("(");
    reveal_strlit(")");
    reveal_strlit("mut ");
    reveal_strlit("): (");
    reveal_strlit("): ");
    reveal_strlit(") = ");
    reveal_strlit(" = ");
    let line = let_many(mutable, names, types, init);
    let list = joined(bindings(mutable, names), ", "@);
    let tys = joined(types, ", "@);
    let rest = "("@ + list + "): ("@ + tys + ") = "@ + init;
    assert(line.subrange(0, 4) =~= "let "@);
    assert(line.skip(4) =~= rest);
    assert(after_let(line) == Some(rest));
    assert(rest[0] == '(');
    assert(without_mut(rest) == rest) by {
        if occurs_at(rest, 0, "mut "@) {
            assert(rest.subrange(0, 4)[0] == rest[0]);
        }
    }
    lemma_bindings(mutable, names);
    lemma_types(types, 0);
    lemma_split_many(list, tys, init);
    lemma_wrapped(list);
    lemma_wrapped(tys);
    let muts = names.map_values(|n: Seq<char>| "mut "@ + n);
    let all = Seq::new(names.len(), |i: int| true);
    assert(muts =~= bindings(all, names));
    let ty = tuple_type(types);
    let decl = let_many(all, names, types, default_text(ty) + ";"@);
    assert("let ("@ + joined(muts, ", "@) + "): "@ + ty + " = "@ + default_text(ty) + ";"@
        =~= decl);
    let found = declared(line);
    let parts = comma_parts(list);
    assert(bound_names(list).len() == parts.len());
    assert forall|i: int| 0 <= i < names.len() implies found[i] == (names[i], types[i]) by {
        lemma_types(types, i);
        assert(bound_names(list)[i] == bound_name(parts[i]));
    }
    assert(found =~= paired_texts(names, types));
}

/// The declaration that is hoisted out of a line that binds several names binds
/// those names with their types, in order and bare of `mut`, and hoisting it again
/// gives it back.
pub proof fn law_hoisting_several_names(
    mutable: Seq<bool>,
    names: Seq<Seq<char>>,
    types: Seq<Seq<char>>,
    init: Seq<char>,
)
    requires
        names.len() > 0,
        mutable.len() == names.len(),
        types.len() == names.len(),
        forall|i: int| 0 <= i < names.len() ==> plain_name(#[trigger] names[i]),
        forall|i: int| 0 <= i < types.len() ==> plain_type(#[trigger] types[i]),
    ensures
        hoisted(let_many(mutable, names, types, init)) matches Some((decl, assign)) && declared(
            decl,
        ) == paired_texts(names, types) && assign == "("@ + joined(names, ", "@) + ") = "@ + init
            && (hoisted(decl) matches Some((again, _)) && again == decl),
{
    let all = Seq::new(names.len(), |i: int| true);
    let rest = default_text(tuple_type(types)) + ";"@;
    lemma_many(mutable, names, types, init);
    lemma_many(all, names, types, rest);
}

} // verus!
