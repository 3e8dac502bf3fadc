//! Reading back and rewriting single lines of generated code.
//!
//! A flattened function is a list of dispatch arms whose statements are plain
//! text. The functions here find and rewrite the few shapes the flattener cares
//! about: state names, `return` statements, `pc = N` edges and typed `let`s.

use std::collections::HashMap;
use vstd::hash_map::StringHashMap;
use vstd::prelude::*;


use crate::text::{byte_len, chars_of, dec, join, joined, lit, same, string_of, texts, Buf};

verus! {

// ---------------------------------------------------------------------------
// Characters
// ---------------------------------------------------------------------------
pub open spec fn is_digit(c: char) -> bool {
    '0' <= c <= '9'
}

pub open spec fn is_letter(c: char) -> bool {
    ('a' <= c <= 'z') || ('A' <= c <= 'Z')
}

pub open spec fn ident_start(c: char) -> bool {
    c == '_' || is_letter(c)
}

pub open spec fn ident_continue(c: char) -> bool {
    c == '_' || is_letter(c) || is_digit(c)
}

/// Whether `c` is one of the characters with the Unicode property `White_Space`.
pub open spec fn is_white(c: char) -> bool {
    ||| 0x09 <= c as u32 <= 0x0d
    ||| c as u32 == 0x20
    ||| c as u32 == 0x85
    ||| c as u32 == 0xa0
    ||| c as u32 == 0x1680
    ||| 0x2000 <= c as u32 <= 0x200a
    ||| c as u32 == 0x2028
    ||| c as u32 == 0x2029
    ||| c as u32 == 0x202f
    ||| c as u32 == 0x205f
    ||| c as u32 == 0x3000
}

/// Whether `c` can start a Rust identifier.
pub fn is_ident_start(c: char) -> (r: bool)
    ensures
        r == ident_start(c),
{
    c == '_' || ('a' <= c && c <= 'z') || ('A' <= c && c <= 'Z')
}

/// Whether `c` can continue a Rust identifier.
pub fn is_ident_continue(c: char) -> (r: bool)
    ensures
        r == ident_continue(c),
{
    c == '_' || ('a' <= c && c <= 'z') || ('A' <= c && c <= 'Z') || ('0' <= c && c <= '9')
}

/// The byte length of a UTF-8 code point from its leading byte.
pub fn utf8_len(lead: u8) -> (r: usize)
    ensures
        r == if lead <= 0x7f {
            1int
        } else if 0xc0 <= lead <= 0xdf {
            2
        } else if 0xe0 <= lead <= 0xef {
            3
        } else {
            4
        },
{
    if lead <= 0x7f {
        1
    } else if 0xc0 <= lead && lead <= 0xdf {
        2
    } else if 0xe0 <= lead && lead <= 0xef {
        3
    } else {
        4
    }
}

fn white(c: char) -> (r: bool)
    ensures
        r == is_white(c),
{
    let u: u32 = c as u32;
    (0x09 <= u && u <= 0x0d) || u == 0x20 || u == 0x85 || u == 0xa0 || u == 0x1680 || (0x2000 <= u
        && u <= 0x200a) || u == 0x2028 || u == 0x2029 || u == 0x202f || u == 0x205f || u == 0x3000
}

// ---------------------------------------------------------------------------
// Positions in a text
// ---------------------------------------------------------------------------
/// Whether `pat` is found in `t` at position `i`.
pub open spec fn occurs_at(t: Seq<char>, i: int, pat: Seq<char>) -> bool {
    0 <= i && i + pat.len() <= t.len() && t.subrange(i, i + pat.len()) == pat
}

/// The first position from `i` on that holds `c`.
pub open spec fn find_char(t: Seq<char>, i: int, c: char) -> Option<int>
    decreases t.len() - i,
{
    if i < 0 || i >= t.len() {
        None
    } else if t[i] == c {
        Some(i)
    } else {
        find_char(t, i + 1, c)
    }
}

/// The first position from `i` on at which no identifier character stands.
pub open spec fn ident_end(t: Seq<char>, i: int) -> int
    decreases t.len() - i,
{
    if 0 <= i < t.len() && ident_continue(t[i]) {
        ident_end(t, i + 1)
    } else {
        i
    }
}

/// The first position from `i` on at which no digit stands.
pub open spec fn digits_end(t: Seq<char>, i: int) -> int
    decreases t.len() - i,
{
    if 0 <= i < t.len() && is_digit(t[i]) {
        digits_end(t, i + 1)
    } else {
        i
    }
}

/// The position just behind the string literal whose contents start at `i`: a
/// backslash takes the character behind it along, and a literal that is never
/// closed goes to the end of the text.
pub open spec fn literal_end(t: Seq<char>, i: int) -> int
    decreases t.len() - i,
{
    if i < 0 || i >= t.len() {
        t.len() as int
    } else if t[i] == '\\' {
        if i + 2 < t.len() {
            literal_end(t, i + 2)
        } else {
            t.len() as int
        }
    } else if t[i] == '"' {
        i + 1
    } else {
        literal_end(t, i + 1)
    }
}

/// Whether an identifier character stands just before position `i`.
pub open spec fn ident_before(t: Seq<char>, i: int) -> bool {
    0 < i <= t.len() && ident_continue(t[i - 1])
}

/// Whether `word` is found at `i` with no identifier character on either side.
pub open spec fn word_at(t: Seq<char>, i: int, word: Seq<char>) -> bool {
    &&& occurs_at(t, i, word)
    &&& !ident_before(t, i)
    &&& !(i + word.len() < t.len() && ident_continue(t[i + word.len()]))
}

pub proof fn lemma_ident_end(t: Seq<char>, i: int)
    requires
        0 <= i <= t.len(),
    ensures
        i <= ident_end(t, i) <= t.len(),
        forall|k: int| i <= k < ident_end(t, i) ==> ident_continue(#[trigger] t[k]),
        ident_end(t, i) < t.len() ==> !ident_continue(t[ident_end(t, i)]),
    decreases t.len() - i,
{
    if i < t.len() && ident_continue(t[i]) {
        lemma_ident_end(t, i + 1);
    }
}

pub proof fn lemma_digits_end(t: Seq<char>, i: int)
    requires
        0 <= i <= t.len(),
    ensures
        i <= digits_end(t, i) <= t.len(),
        forall|k: int| i <= k < digits_end(t, i) ==> is_digit(#[trigger] t[k]),
        digits_end(t, i) < t.len() ==> !is_digit(t[digits_end(t, i)]),
    decreases t.len() - i,
{
    if i < t.len() && is_digit(t[i]) {
        lemma_digits_end(t, i + 1);
    }
}

pub proof fn lemma_literal_end(t: Seq<char>, i: int)
    requires
        0 <= i <= t.len(),
    ensures
        i <= literal_end(t, i) <= t.len(),
    decreases t.len() - i,
{
    if i < t.len() && t[i] != '"' {
        if t[i] == '\\' {
            if i + 2 < t.len() {
                lemma_literal_end(t, i + 2);
            }
        } else {
            lemma_literal_end(t, i + 1);
        }
    }
}

pub proof fn lemma_find_char(t: Seq<char>, i: int, c: char)
    requires
        0 <= i <= t.len(),
    ensures
        match find_char(t, i, c) {
            Some(k) => i <= k < t.len() && t[k] == c && (forall|j: int| i <= j < k ==> t[j] != c),
            None => forall|j: int| i <= j < t.len() ==> t[j] != c,
        },
    decreases t.len() - i,
{
    if i < t.len() && t[i] != c {
        lemma_find_char(t, i + 1, c);
    }
}

fn skip_ident(t: &Vec<char>, i: usize) -> (r: usize)
    requires
        i <= t@.len(),
    ensures
        r == ident_end(t@, i as int),
        i <= r <= t@.len(),
{
    proof {
        lemma_ident_end(t@, i as int);
    }
    let mut k: usize = i;
    while k < t.len() && is_ident_continue(t[k])
        invariant
            i <= k <= t@.len(),
            ident_end(t@, k as int) == ident_end(t@, i as int),
        decreases t@.len() - k,
    {
        k += 1;
    }
    k
}

fn skip_digits(t: &Vec<char>, i: usize) -> (r: usize)
    requires
        i <= t@.len(),
    ensures
        r == digits_end(t@, i as int),
        i <= r <= t@.len(),
        forall|k: int| i <= k < r ==> is_digit(#[trigger] t@[k]),
{
    proof {
        lemma_digits_end(t@, i as int);
    }
    let mut k: usize = i;
    while k < t.len() && '0' <= t[k] && t[k] <= '9'
        invariant
            i <= k <= t@.len(),
            digits_end(t@, k as int) == digits_end(t@, i as int),
        decreases t@.len() - k,
    {
        k += 1;
    }
    k
}

fn skip_literal(t: &Vec<char>, i: usize) -> (r: usize)
    requires
        i <= t@.len(),
    ensures
        r == literal_end(t@, i as int),
        i <= r <= t@.len(),
{
    proof {
        lemma_literal_end(t@, i as int);
    }
    let mut k: usize = i;
    while k < t.len()
        invariant
            i <= k <= t@.len(),
            i <= literal_end(t@, i as int) <= t@.len(),
            literal_end(t@, k as int) == literal_end(t@, i as int),
        decreases t@.len() - k,
    {
        if t[k] == '\\' {
            if t.len() - k > 2 {
                k += 2;
            } else {
                return t.len();
            }
        } else if t[k] == '"' {
            return k + 1;
        } else {
            k += 1;
        }
    }
    k
}

fn char_from(t: &Vec<char>, i: usize, c: char) -> (r: Option<usize>)
    requires
        i <= t@.len(),
    ensures
        match find_char(t@, i as int, c) {
            Some(k) => r is Some && r->0 as int == k && i <= k < t@.len(),
            None => r is None,
        },
{
    let mut k: usize = i;
    while k < t.len()
        invariant
            i <= k <= t@.len(),
            find_char(t@, k as int, c) == find_char(t@, i as int, c),
        decreases t@.len() - k,
    {
        if t[k] == c {
            return Some(k);
        }
        k += 1;
    }
    None
}

/// Whether `pat` is found in `t` at position `i`.
pub fn found_at(t: &Vec<char>, i: usize, pat: &Vec<char>) -> (r: bool)
    ensures
        r == occurs_at(t@, i as int, pat@),
{
    if i > t.len() || pat.len() > t.len() - i {
        return false;
    }
    let mut k: usize = 0;
    while k < pat.len()
        invariant
            k <= pat@.len(),
            i + pat@.len() <= t.len(),
            forall|j: int| 0 <= j < k ==> t@[i + j] == pat@[j],
        decreases pat@.len() - k,
    {
        if t[i + k] != pat[k] {
            assert(t@.subrange(i as int, i + pat@.len())[k as int] != pat@[k as int]);
            return false;
        }
        k += 1;
    }
    assert(t@.subrange(i as int, i + pat@.len()) =~= pat@);
    true
}

/// Whether `needle` occurs in `b` at `i` as a whole word (not preceded or
/// followed by an identifier character).
pub fn matches_word(b: &Vec<char>, i: usize, needle: &Vec<char>) -> (r: bool)
    ensures
        r == word_at(b@, i as int, needle@),
{
    if !found_at(b, i, needle) {
        return false;
    }
    if i > 0 && is_ident_continue(b[i - 1]) {
        return false;
    }
    assert(i + needle@.len() <= b.len());
    let after: usize = i + needle.len();
    !(after < b.len() && is_ident_continue(b[after]))
}

/// A part of a text as a string.
pub fn part(t: &Vec<char>, from: usize, to: usize) -> (r: String)
    requires
        from <= to <= t@.len(),
    ensures
        r@ == t@.subrange(from as int, to as int),
{
    let mut v: Vec<char> = Vec::new();
    push_part(&mut v, t, from, to);
    assert(v@ =~= t@.subrange(from as int, to as int));
    string_of(&v)
}

fn push_part(out: &mut Vec<char>, t: &Vec<char>, from: usize, to: usize)
    requires
        from <= to <= t@.len(),
    ensures
        final(out)@ == old(out)@ + t@.subrange(from as int, to as int),
{
    let mut k: usize = from;
    while k < to
        invariant
            from <= k <= to <= t@.len(),
            out@ == old(out)@ + t@.subrange(from as int, k as int),
        decreases to - k,
    {
        out.push(t[k]);
        k += 1;
        assert(out@ =~= old(out)@ + t@.subrange(from as int, k as int));
    }
    assert(out@ =~= old(out)@ + t@.subrange(from as int, to as int));
}

fn push_all(out: &mut Vec<char>, s: &str)
    ensures
        final(out)@ == old(out)@ + s@,
{
    let t = chars_of(s);
    push_part(out, &t, 0, t.len());
    assert(t@.subrange(0, t@.len() as int) =~= t@);
}

// ---------------------------------------------------------------------------
// State names
// ---------------------------------------------------------------------------
/// A finite map from names to the text that replaces them.
pub struct NameMap {
    m: StringHashMap<String>,
}

impl View for NameMap {
    type V = Map<Seq<char>, Seq<char>>;

    closed spec fn view(&self) -> Map<Seq<char>, Seq<char>> {
        Map::new(|k: Seq<char>| self.m@.contains_key(k), |k: Seq<char>| self.m@[k]@)
    }
}

impl NameMap {
    /// The empty map.
    pub fn new() -> (r: NameMap)
        ensures
            r@ == Map::<Seq<char>, Seq<char>>::empty(),
    {
        let r = NameMap { m: StringHashMap::new() };
        assert(r@ =~= Map::<Seq<char>, Seq<char>>::empty());
        r
    }

    /// Maps `name` to `text`, whatever it was mapped to before.
    pub fn insert(&mut self, name: String, text: String)
        ensures
            final(self)@ == old(self)@.insert(name@, text@),
    {
        self.m.insert(name, text);
        assert(self@ =~= old(self)@.insert(name@, text@));
    }

    /// Whether `name` is mapped.
    pub fn contains_key(&self, name: &str) -> (r: bool)
        ensures
            r == self@.contains_key(name@),
    {
        self.m.contains_key(name)
    }

    /// The text `name` is mapped to.
    pub fn get(&self, name: &str) -> (r: Option<&String>)
        ensures
            match r {
                Some(t) => self@.contains_key(name@) && t@ == self@[name@],
                None => !self@.contains_key(name@),
            },
    {
        self.m.get(name)
    }
}

/// Whether a word at position `i` can name a state: it is no field access, no
/// label, and does not continue a longer token.
pub open spec fn names_a_state(t: Seq<char>, i: int) -> bool {
    i == 0 || (t[i - 1] != '.' && t[i - 1] != '\'' && !ident_continue(t[i - 1]))
}

/// The text of `t` from `i` on with every state name replaced.
pub open spec fn state_refs_from(
    t: Seq<char>,
    i: int,
    repl: Map<Seq<char>, Seq<char>>,
) -> Seq<char>
    decreases t.len() - i,
{
    if i < 0 || i >= t.len() {
        Seq::empty()
    } else if t[i] == '"' {
        let e = literal_end(t, i + 1);
        if i < e <= t.len() {
            t.subrange(i, e) + state_refs_from(t, e, repl)
        } else {
            Seq::empty()
        }
    } else if ident_start(t[i]) {
        let e = ident_end(t, i + 1);
        if i < e <= t.len() {
            let word = t.subrange(i, e);
            (if names_a_state(t, i) && repl.contains_key(word) {
                repl[word]
            } else {
                word
            }) + state_refs_from(t, e, repl)
        } else {
            Seq::empty()
        }
    } else {
        seq![t[i]] + state_refs_from(t, i + 1, repl)
    }
}

/// `line` with every free-standing state name replaced by `repl` of it.
pub open spec fn state_refs_rewritten(
    line: Seq<char>,
    repl: Map<Seq<char>, Seq<char>>,
) -> Seq<char> {
    state_refs_from(line, 0, repl)
}

/// Rewrite every whole-identifier occurrence of a state name in `line` to its
/// shared-state expression (`repl[name]`, e.g. `st.pc` or `st.bank_i32[7]`) so a
/// relocated arm reads and writes the shared struct. Only tokens whose exact text
/// is a key in `repl` are touched (never a substring, a field access after `.`, a
/// `'label`, or anything inside a string literal), so lookalikes like the SIMD
/// helper token `v128` are safe.
pub fn rewrite_state_refs(line: &str, repl: &NameMap) -> (r: String)
    ensures
        r@ == state_refs_rewritten(line@, repl@),
{
    let t = chars_of(line);
    let mut out: Vec<char> = Vec::new();
    let mut i: usize = 0;
    proof {
        assert(Seq::<char>::empty() + state_refs_from(t@, 0, repl@) =~= state_refs_from(
            t@,
            0,
            repl@,
        ));
    }
    while i < t.len()
        invariant
            t@ == line@,
            i <= t@.len(),
            out@ + state_refs_from(t@, i as int, repl@) == state_refs_from(t@, 0, repl@),
        decreases t@.len() - i,
    {
        let ghost before = out@;
        let start: usize = i;
        if t[i] == '"' {
            i = skip_literal(&t, i + 1);
            push_part(&mut out, &t, start, i);
        } else if is_ident_start(t[i]) {
            i = skip_ident(&t, i + 1);
            let word = part(&t, start, i);
            let free = start == 0 || (t[start - 1] != '.' && t[start - 1] != '\''
                && !is_ident_continue(t[start - 1]));
            match repl.get(word.as_str()) {
                Some(expr) if free => {
                    push_all(&mut out, expr.as_str());
                },
                _ => {
                    push_part(&mut out, &t, start, i);
                },
            }
        } else {
            out.push(t[i]);
            i += 1;
            assert(out@ =~= before + seq![t@[start as int]]);
        }
        proof {
            let piece = out@.subrange(before.len() as int, out@.len() as int);
            assert(out@ =~= before + piece);
            assert(before + state_refs_from(t@, start as int, repl@) =~= (before + piece)
                + state_refs_from(t@, i as int, repl@));
        }
    }
    assert(out@ + state_refs_from(t@, i as int, repl@) =~= out@);
    string_of(&out)
}

// ---------------------------------------------------------------------------
// Returns
// ---------------------------------------------------------------------------
/// The text of `t` from `i` on with every returned value wrapped.
pub open spec fn returns_from(t: Seq<char>, i: int) -> Seq<char>
    decreases t.len() - i,
{
    if i < 0 || i >= t.len() {
        Seq::empty()
    } else if t[i] == '"' {
        let e = literal_end(t, i + 1);
        if i < e <= t.len() {
            t.subrange(i, e) + returns_from(t, e)
        } else {
            Seq::empty()
        }
    } else if word_at(t, i, "return"@) && i + 6 < t.len() && t[i + 6] == ';' {
        "return Some(());"@ + returns_from(t, i + 7)
    } else if word_at(t, i, "return"@) && i + 6 < t.len() && t[i + 6] == ' ' && return_end(
        t,
        i + 7,
        0,
    ) is Some {
        let e = return_end(t, i + 7, 0)->0;
        if i + 7 <= e < t.len() {
            "return Some("@ + t.subrange(i + 7, e) + ");"@ + returns_from(t, e + 1)
        } else {
            Seq::empty()
        }
    } else {
        seq![t[i]] + returns_from(t, i + 1)
    }
}

pub open spec fn opens(c: char) -> bool {
    c == '(' || c == '[' || c == '{'
}

pub open spec fn closes(c: char) -> bool {
    c == ')' || c == ']' || c == '}'
}

/// Where an expression that goes on at `i` inside `depth` brackets ends: at the
/// next semicolon outside string literals and brackets.
pub open spec fn return_end(t: Seq<char>, i: int, depth: nat) -> Option<int>
    decreases t.len() - i,
{
    if i < 0 || i >= t.len() {
        None
    } else if t[i] == '"' {
        let e = literal_end(t, i + 1);
        if i < e <= t.len() {
            return_end(t, e, depth)
        } else {
            None
        }
    } else if t[i] == ';' && depth == 0 {
        Some(i)
    } else if opens(t[i]) {
        return_end(t, i + 1, depth + 1)
    } else if closes(t[i]) && depth > 0 {
        return_end(t, i + 1, (depth - 1) as nat)
    } else {
        return_end(t, i + 1, depth)
    }
}

fn skip_returned(t: &Vec<char>, i: usize) -> (r: Option<usize>)
    requires
        i <= t@.len(),
    ensures
        match return_end(t@, i as int, 0) {
            Some(e) => r == Some(e as usize) && i <= e < t@.len(),
            None => r is None,
        },
{
    let mut k: usize = i;
    let mut depth: usize = 0;
    while k < t.len()
        invariant
            i <= k <= t@.len(),
            depth <= k,
            return_end(t@, k as int, depth as nat) == return_end(t@, i as int, 0),
        decreases t@.len() - k,
    {
        let c = t[k];
        if c == '"' {
            proof {
                lemma_literal_end(t@, k + 1);
            }
            k = skip_literal(t, k + 1);
        } else if c == ';' && depth == 0 {
            return Some(k);
        } else {
            if c == '(' || c == '[' || c == '{' {
                depth += 1;
            } else if (c == ')' || c == ']' || c == '}') && depth > 0 {
                depth -= 1;
            }
            k += 1;
        }
    }
    None
}

/// `line` with every returned value wrapped in `Some`.
pub open spec fn returns_wrapped(line: Seq<char>) -> Seq<char> {
    returns_from(line, 0)
}

/// Wrap each `return <expr>;` (or bare `return;`) in `line` as `return
/// Some(<expr>);` (or `return Some(());`), so a part function that reaches the
/// original function's exit yields the value to the trampoline driver. Matches
/// only a whole `return` keyword outside string literals, so `__returning` and a
/// quoted `"return"` are left alone. The expression goes up to its terminator: a
/// semicolon in a string literal or inside brackets does not end it.
pub fn wrap_returns(line: &str) -> (r: String)
    ensures
        r@ == returns_wrapped(line@),
{
    let t = chars_of(line);
    let needle = chars_of("return");
    let mut out: Vec<char> = Vec::new();
    let mut i: usize = 0;
    proof {
        reveal_strlit("return");
        assert(Seq::<char>::empty() + returns_from(t@, 0) =~= returns_from(t@, 0));
    }
    while i < t.len()
        invariant
            t@ == line@,
            needle@ == "return"@,
            needle@.len() == 6,
            i <= t@.len(),
            out@ + returns_from(t@, i as int) == returns_from(t@, 0),
        decreases t@.len() - i,
    {
        let ghost before = out@;
        let start: usize = i;
        if t[i] == '"' {
            i = skip_literal(&t, i + 1);
            push_part(&mut out, &t, start, i);
        } else if matches_word(&t, i, &needle) && t.len() - i > 6 && t[i + 6] == ';' {
            push_all(&mut out, "return Some(());");
            i += 7;
        } else {
            let end = if matches_word(&t, i, &needle) && t.len() - i > 6 && t[i + 6] == ' ' {
                skip_returned(&t, i + 7)
            } else {
                None
            };
            match end {
                Some(e) => {
                    push_all(&mut out, "return Some(");
                    push_part(&mut out, &t, i + 7, e);
                    push_all(&mut out, ");");
                    i = e + 1;
                    assert(out@ =~= before + ("return Some("@ + t@.subrange(start + 7, e as int)
                        + ");"@));
                },
                None => {
                    out.push(t[i]);
                    i += 1;
                    assert(out@ =~= before + seq![t@[start as int]]);
                },
            }
        }
        proof {
            let piece = out@.subrange(before.len() as int, out@.len() as int);
            assert(out@ =~= before + piece);
            assert(before + returns_from(t@, start as int) =~= (before + piece) + returns_from(
                t@,
                i as int,
            ));
        }
    }
    assert(out@ + returns_from(t@, i as int) =~= out@);
    string_of(&out)
}

// ---------------------------------------------------------------------------
// Program-counter edges
// ---------------------------------------------------------------------------
pub open spec fn digit_value(c: char) -> nat {
    (c as u32 - '0' as u32) as nat
}

/// The number that a run of decimal digits spells.
pub open spec fn digits_value(d: Seq<char>) -> nat
    decreases d.len(),
{
    if d.len() == 0 {
        0
    } else {
        digits_value(d.drop_last()) * 10 + digit_value(d.last())
    }
}

/// The state that a run of digits names: a number beyond the machine word reads
/// as the largest one.
pub open spec fn state_value(d: Seq<char>) -> usize {
    if digits_value(d) <= usize::MAX {
        digits_value(d) as usize
    } else {
        usize::MAX
    }
}

/// Whether an edge `pc = N` is written at position `i`.
pub open spec fn edge_at(t: Seq<char>, i: int) -> bool {
    occurs_at(t, i, "pc = "@) && digits_end(t, i + 5) > i + 5
}

/// `map` of `s`, or `s` itself where it is not mapped.
pub open spec fn mapped(map: Map<usize, usize>, s: usize) -> usize {
    if map.contains_key(s) {
        map[s]
    } else {
        s
    }
}

/// The text of `t` from `i` on with the target of every edge taken through `map`.
pub open spec fn edges_from(t: Seq<char>, i: int, map: Map<usize, usize>) -> Seq<char>
    decreases t.len() - i,
{
    if i < 0 || i >= t.len() {
        Seq::empty()
    } else if edge_at(t, i) {
        let e = digits_end(t, i + 5);
        if i < e <= t.len() {
            "pc = "@ + dec(mapped(map, state_value(t.subrange(i + 5, e))) as nat) + edges_from(
                t,
                e,
                map,
            )
        } else {
            Seq::empty()
        }
    } else {
        seq![t[i]] + edges_from(t, i + 1, map)
    }
}

/// `s` with the target of every edge taken through `map`.
pub open spec fn edges_rewritten(s: Seq<char>, map: Map<usize, usize>) -> Seq<char> {
    edges_from(s, 0, map)
}

/// The targets of the edges written in `t` from `i` on, in order.
pub open spec fn targets_from(t: Seq<char>, i: int) -> Seq<usize>
    decreases t.len() - i,
{
    if i < 0 || i >= t.len() {
        Seq::empty()
    } else if edge_at(t, i) {
        let e = digits_end(t, i + 5);
        if i < e <= t.len() {
            seq![state_value(t.subrange(i + 5, e))] + targets_from(t, e)
        } else {
            Seq::empty()
        }
    } else {
        targets_from(t, i + 1)
    }
}

/// The targets of the edges written in `line`, in order.
pub open spec fn pc_targets(line: Seq<char>) -> Seq<usize> {
    targets_from(line, 0)
}

/// `t` without a leading `+`.
pub open spec fn without_plus(t: Seq<char>) -> Seq<char> {
    if t.len() > 0 && t[0] == '+' {
        t.skip(1)
    } else {
        t
    }
}

pub open spec fn all_digits(d: Seq<char>) -> bool {
    forall|i: int| 0 <= i < d.len() ==> is_digit(#[trigger] d[i])
}

/// The machine word that `t` spells: decimal digits behind an optional `+`.
pub open spec fn word_value(t: Seq<char>) -> Option<usize> {
    let d = without_plus(t);
    if d.len() > 0 && all_digits(d) && digits_value(d) <= usize::MAX {
        Some(digits_value(d) as usize)
    } else {
        None
    }
}

/// The target of a line that is nothing but `pc = N;`.
pub open spec fn lone_edge(line: Seq<char>) -> Option<usize> {
    if line.len() >= 6 && occurs_at(line, 0, "pc = "@) && line.last() == ';' {
        word_value(line.subrange(5, line.len() - 1))
    } else {
        None
    }
}

/// Reads the digits of `t` between `from` and `to`.
fn state_number(t: &Vec<char>, from: usize, to: usize) -> (r: usize)
    requires
        from <= to <= t@.len(),
        forall|k: int| from <= k < to ==> is_digit(#[trigger] t@[k]),
    ensures
        r == state_value(t@.subrange(from as int, to as int)),
{
    let mut v: usize = 0;
    let mut k: usize = from;
    while k < to
        invariant
            from <= k <= to <= t@.len(),
            forall|k: int| from <= k < to ==> is_digit(#[trigger] t@[k]),
            v == state_value(t@.subrange(from as int, k as int)),
        decreases to - k,
    {
        let ghost prev = t@.subrange(from as int, k as int);
        let ghost now = t@.subrange(from as int, k + 1);
        let d: usize = (t[k] as u32 - '0' as u32) as usize;
        assert(now.drop_last() =~= prev);
        assert(now.last() == t@[k as int]);
        assert(digits_value(now) == digits_value(prev) * 10 + d);
        if v <= (usize::MAX - d) / 10 {
            v = v * 10 + d;
        } else {
            v = usize::MAX;
        }
        k += 1;
    }
    v
}

/// The characters of `pc = `.
fn pc_prefix() -> (r: Vec<char>)
    ensures
        r@ == "pc = "@,
        r@.len() == 5,
{
    proof {
        reveal_strlit("pc = ");
    }
    chars_of("pc = ")
}

/// Where the digits of the edge at `i` end, if an edge is written there.
fn edge_end(t: &Vec<char>, i: usize, pc: &Vec<char>) -> (r: Option<usize>)
    requires
        pc@ == "pc = "@,
        pc@.len() == 5,
        i < t@.len(),
    ensures
        match r {
            Some(e) => edge_at(t@, i as int) && e == digits_end(t@, i + 5) && i + 5 < e <= t@.len()
                && (forall|k: int| i + 5 <= k < e ==> is_digit(#[trigger] t@[k])),
            None => !edge_at(t@, i as int),
        },
{
    if !found_at(t, i, pc) {
        return None;
    }
    assert(i + 5 <= t.len());
    let e = skip_digits(t, i + 5);
    if e > i + 5 {
        Some(e)
    } else {
        None
    }
}

/// The state `s` goes to under `map`; an unmapped state stays.
pub fn redirect(map: &HashMap<usize, usize>, s: usize) -> (r: usize)
    ensures
        r == mapped(map@, s),
{
    broadcast use vstd::std_specs::hash::group_hash_axioms;

    match map.get(&s) {
        Some(t) => *t,
        None => s,
    }
}

/// Rewrite every `pc = <state>` target in `s` through `map` (leaving all other
/// text untouched).
pub fn rewrite_pc_targets(s: &str, map: &HashMap<usize, usize>) -> (r: String)
    ensures
        r@ == edges_rewritten(s@, map@),
{
    let t = chars_of(s);
    let pc = pc_prefix();
    let mut out: Vec<char> = Vec::new();
    let mut i: usize = 0;
    proof {
        assert(Seq::<char>::empty() + edges_from(t@, 0, map@) =~= edges_from(t@, 0, map@));
    }
    while i < t.len()
        invariant
            t@ == s@,
            pc@ == "pc = "@,
            pc@.len() == 5,
            i <= t@.len(),
            out@ + edges_from(t@, i as int, map@) == edges_from(t@, 0, map@),
        decreases t@.len() - i,
    {
        let ghost before = out@;
        let start: usize = i;
        match edge_end(&t, i, &pc) {
            Some(e) => {
                let target: usize = redirect(map, state_number(&t, i + 5, e));
                push_all(&mut out, "pc = ");
                let number = Buf::num(target as u64).end();
                push_all(&mut out, number.as_str());
                i = e;
                assert(out@ =~= before + ("pc = "@ + dec(target as nat)));
            },
            None => {
                out.push(t[i]);
                i += 1;
                assert(out@ =~= before + seq![t@[start as int]]);
            },
        }
        proof {
            let piece = out@.subrange(before.len() as int, out@.len() as int);
            assert(out@ =~= before + piece);
            assert(before + edges_from(t@, start as int, map@) =~= (before + piece) + edges_from(
                t@,
                i as int,
                map@,
            ));
        }
    }
    assert(out@ + edges_from(t@, i as int, map@) =~= out@);
    string_of(&out)
}

/// Append each `pc = <state>` target found in `line` to `out`.
pub fn collect_pc_targets(line: &str, out: &mut Vec<usize>)
    ensures
        final(out)@ == old(out)@ + pc_targets(line@),
{
    let t = chars_of(line);
    let pc = pc_prefix();
    let mut i: usize = 0;
    while i < t.len()
        invariant
            t@ == line@,
            pc@ == "pc = "@,
            pc@.len() == 5,
            i <= t@.len(),
            out@ + targets_from(t@, i as int) == old(out)@ + targets_from(t@, 0),
        decreases t@.len() - i,
    {
        let ghost before = out@;
        match edge_end(&t, i, &pc) {
            Some(e) => {
                let target: usize = state_number(&t, i + 5, e);
                out.push(target);
                assert(out@ =~= before + seq![target]);
                assert(before + targets_from(t@, i as int) =~= (before + seq![target])
                    + targets_from(t@, e as int));
                i = e;
            },
            None => {
                i += 1;
            },
        }
    }
    assert(out@ + targets_from(t@, i as int) =~= out@);
}

/// Parses a machine word out of `t` between `from` and `to`.
fn parse_word(t: &Vec<char>, from: usize, to: usize) -> (r: Option<usize>)
    requires
        from <= to <= t@.len(),
    ensures
        r == word_value(t@.subrange(from as int, to as int)),
{
    let ghost whole = t@.subrange(from as int, to as int);
    let start: usize = if from < to && t[from] == '+' {
        from + 1
    } else {
        from
    };
    let ghost d = t@.subrange(start as int, to as int);
    proof {
        if start > from {
            assert(whole.skip(1) =~= d);
        }
        assert(d == without_plus(whole));
    }
    if start == to {
        return None;
    }
    let mut v: usize = 0;
    let mut k: usize = start;
    while k < to
        invariant
            from <= start <= k <= to <= t@.len(),
            start < to,
            d == t@.subrange(start as int, to as int),
            whole == t@.subrange(from as int, to as int),
            d == without_plus(whole),
            forall|j: int| start <= j < k ==> is_digit(#[trigger] t@[j]),
            v == digits_value(d.take(k - start)),
        decreases to - k,
    {
        let ghost prev = d.take(k - start);
        let ghost now = d.take(k - start + 1);
        assert(now.drop_last() =~= prev);
        assert(now.last() == t@[k as int]);
        if !('0' <= t[k] && t[k] <= '9') {
            assert(!is_digit(d[k - start]));
            return None;
        }
        let digit: usize = (t[k] as u32 - '0' as u32) as usize;
        assert(digits_value(now) == v * 10 + digit);
        if v > (usize::MAX - digit) / 10 {
            proof {
                assert(v * 10 + digit > usize::MAX);
                lemma_digits_value_grows(d, k - start + 1);
                assert(digits_value(d) > usize::MAX);
            }
            return None;
        }
        v = v * 10 + digit;
        k += 1;
    }
    assert(d.take(to - start) =~= d);
    assert forall|i: int| 0 <= i < d.len() implies is_digit(#[trigger] d[i]) by {
        assert(is_digit(t@[start + i]));
    }
    Some(v)
}

/// More digits never spell a smaller number.
proof fn lemma_digits_value_grows(d: Seq<char>, k: int)
    requires
        0 <= k <= d.len(),
    ensures
        digits_value(d.take(k)) <= digits_value(d),
    decreases d.len() - k,
{
    if k < d.len() {
        lemma_digits_value_grows(d, k + 1);
        assert(d.take(k + 1).drop_last() =~= d.take(k));
    } else {
        assert(d.take(k) =~= d);
    }
}

/// The target of `line` when it is nothing but `pc = N;`.
pub fn lone_edge_target(line: &str) -> (r: Option<usize>)
    ensures
        r == lone_edge(line@),
{
    let t = chars_of(line);
    let pc = pc_prefix();
    if t.len() < 6 || !found_at(&t, 0, &pc) || t[t.len() - 1] != ';' {
        return None;
    }
    parse_word(&t, 5, t.len() - 1)
}

// ---------------------------------------------------------------------------
// Typed declarations
// ---------------------------------------------------------------------------
/// The nesting depth behind the character `c` when it was `depth` before it.
pub open spec fn depth_after(c: char, depth: int) -> int {
    if c == '(' || c == '[' || c == '{' {
        depth + 1
    } else if c == ')' || c == ']' || c == '}' {
        depth - 1
    } else {
        depth
    }
}

/// The first position from `i` on, reached at nesting depth `depth`, at which
/// `pat` stands outside all brackets.
pub open spec fn top_level_from(t: Seq<char>, pat: Seq<char>, i: int, depth: int) -> Option<int>
    decreases t.len() - i,
{
    if i < 0 || i >= t.len() {
        None
    } else if depth_after(t[i], depth) == 0 && occurs_at(t, i, pat) {
        Some(i)
    } else {
        top_level_from(t, pat, i + 1, depth_after(t[i], depth))
    }
}

/// The first position at which `pat` stands in `t` outside all brackets.
pub open spec fn top_level_index(t: Seq<char>, pat: Seq<char>) -> Option<int> {
    top_level_from(t, pat, 0, 0)
}

/// `t` without the white space in front.
pub open spec fn trimmed_start(t: Seq<char>) -> Seq<char>
    decreases t.len(),
{
    if t.len() > 0 && is_white(t[0]) {
        trimmed_start(t.skip(1))
    } else {
        t
    }
}

/// `t` without the white space at its end.
pub open spec fn trimmed_end(t: Seq<char>) -> Seq<char>
    decreases t.len(),
{
    if t.len() > 0 && is_white(t.last()) {
        trimmed_end(t.drop_last())
    } else {
        t
    }
}

/// `t` without the white space around it.
pub open spec fn trimmed(t: Seq<char>) -> Seq<char> {
    trimmed_end(trimmed_start(t))
}

/// The parts of `t` between its commas.
pub open spec fn comma_parts(t: Seq<char>) -> Seq<Seq<char>>
    decreases t.len(),
{
    match find_char(t, 0, ',') {
        Some(k) => if 0 <= k < t.len() {
            seq![t.take(k)] + comma_parts(t.skip(k + 1))
        } else {
            Seq::empty()
        },
        None => seq![t],
    }
}

/// Whether `t` is wrapped in a pair of round brackets.
pub open spec fn bracketed(t: Seq<char>) -> bool {
    t.len() >= 2 && t[0] == '(' && t.last() == ')'
}

/// `t` without the brackets around it.
pub open spec fn unbracketed(t: Seq<char>) -> Seq<char> {
    t.subrange(1, t.len() - 1)
}

/// `t` without `mut ` in front.
pub open spec fn without_mut(t: Seq<char>) -> Seq<char> {
    if occurs_at(t, 0, "mut "@) {
        t.skip(4)
    } else {
        t
    }
}

/// The name that one element of a tuple pattern binds.
pub open spec fn bound_name(t: Seq<char>) -> Seq<char> {
    without_mut(trimmed(t))
}

/// The last position that holds `c`.
pub open spec fn last_char(t: Seq<char>, c: char) -> Option<int>
    decreases t.len(),
{
    if t.len() == 0 {
        None
    } else if t.last() == c {
        Some(t.len() - 1)
    } else {
        last_char(t.drop_last(), c)
    }
}

/// Where the length of an array type `[T; N]` begins, with the semicolon.
pub open spec fn array_length_at(ty: Seq<char>) -> Option<int> {
    if ty.len() >= 2 && ty[0] == '[' && ty.last() == ']' {
        match last_char(ty, ';') {
            Some(k) if k >= 1 => Some(k),
            _ => None,
        }
    } else {
        None
    }
}

/// A value of the type `ty` to declare a variable with.
pub open spec fn default_text(ty: Seq<char>) -> Seq<char>
    decreases ty.len(), 1nat, 0nat,
{
    if bracketed(ty) {
        "("@ + joined(default_parts(comma_parts(unbracketed(ty)), ty.len()), ", "@) + ")"@
    } else if array_length_at(ty) is Some {
        let k = array_length_at(ty)->0;
        if 1 <= k < ty.len() {
            "["@ + default_text(ty.subrange(1, k)) + ty.skip(k)
        } else {
            Seq::empty()
        }
    } else if occurs_at(ty, 0, "Vec<"@) {
        "Vec::new()"@
    } else if ty == "bool"@ {
        "false"@
    } else if ty == "f32"@ || ty == "f64"@ {
        "0.0"@
    } else if ty == "GcRef"@ {
        "GcRef::Null"@
    } else {
        "0"@
    }
}

/// A value for every type in `parts`, all of them shorter than `limit`.
pub open spec fn default_parts(parts: Seq<Seq<char>>, limit: nat) -> Seq<Seq<char>>
    decreases limit, 0nat, parts.len(),
{
    if parts.len() == 0 {
        Seq::empty()
    } else {
        default_parts(parts.drop_last(), limit).push(
            if trimmed(parts.last()).len() < limit {
                default_text(trimmed(parts.last()))
            } else {
                Seq::empty()
            },
        )
    }
}

/// A typed `let` taken apart: its binding, type and initialiser.
pub struct TypedLet {
    pub binding: Seq<char>,
    pub ty: Seq<char>,
    pub init: Seq<char>,
}

/// What stands behind `let ` in `line`.
pub open spec fn after_let(line: Seq<char>) -> Option<Seq<char>> {
    if occurs_at(line, 0, "let "@) {
        Some(line.skip(4))
    } else {
        None
    }
}

/// `BINDING: TYPE = INIT`, split at the first top-level ` = ` and the first
/// top-level `:` before it. Neither side is trimmed.
pub open spec fn split_let(rest: Seq<char>) -> Option<TypedLet> {
    match top_level_index(rest, " = "@) {
        Some(eq) => match top_level_index(rest.take(eq), ":"@) {
            Some(colon) => Some(
                TypedLet {
                    binding: rest.take(colon),
                    ty: rest.subrange(colon + 1, eq),
                    init: rest.skip(eq + 3),
                },
            ),
            None => None,
        },
        None => None,
    }
}

pub open spec fn bound_names(list: Seq<char>) -> Seq<Seq<char>> {
    comma_parts(list).map_values(|n: Seq<char>| bound_name(n))
}

/// The declaration to hoist and the assignment to leave behind for `line`, when
/// it is a typed `let`.
pub open spec fn hoisted(line: Seq<char>) -> Option<(Seq<char>, Seq<char>)> {
    match after_let(line) {
        Some(rest) => match split_let(without_mut(rest)) {
            Some(l) => Some(hoisted_parts(trimmed_end(l.binding), trimmed(l.ty), l.init)),
            None => None,
        },
        None => None,
    }
}

pub open spec fn hoisted_parts(binding: Seq<char>, ty: Seq<char>, init: Seq<char>) -> (
    Seq<char>,
    Seq<char>,
) {
    if bracketed(binding) {
        let names = bound_names(unbracketed(binding));
        (
            "let ("@ + joined(names.map_values(|n: Seq<char>| "mut "@ + n), ", "@) + "): "@ + ty
                + " = "@ + default_text(ty) + ";"@,
            "("@ + joined(names, ", "@) + ") = "@ + init,
        )
    } else {
        ("let mut "@ + binding + ": "@ + ty + " = "@ + default_text(ty) + ";"@, binding + " = "@
            + init)
    }
}

/// The names and types that a hoisted declaration binds.
pub open spec fn declared(decl: Seq<char>) -> Seq<(Seq<char>, Seq<char>)> {
    match after_let(decl) {
        Some(rest) => match split_let(rest) {
            Some(l) => declared_parts(trimmed(l.binding), trimmed(l.ty)),
            None => Seq::empty(),
        },
        None => Seq::empty(),
    }
}

pub open spec fn declared_parts(binding: Seq<char>, ty: Seq<char>) -> Seq<(Seq<char>, Seq<char>)> {
    if bracketed(binding) && bracketed(ty) {
        let names = comma_parts(unbracketed(binding));
        let types = comma_parts(unbracketed(ty));
        Seq::new(
            if names.len() < types.len() {
                names.len()
            } else {
                types.len()
            },
            |i: int| (bound_name(names[i]), trimmed(types[i])),
        )
    } else {
        seq![(trimmed(without_mut(binding)), ty)]
    }
}

/// The texts of name and type pairs.
pub open spec fn pair_texts(v: Seq<(String, String)>) -> Seq<(Seq<char>, Seq<char>)> {
    Seq::new(v.len(), |i: int| (v[i].0@, v[i].1@))
}

/// The Rust types whose values can ride an array bank.
pub open spec fn bankable(ty: Seq<char>) -> bool {
    ty == "i32"@ || ty == "i64"@ || ty == "f32"@ || ty == "f64"@ || ty == "u32"@ || ty == "u128"@
}

pub proof fn lemma_trimmed_len(t: Seq<char>)
    ensures
        trimmed_start(t).len() <= t.len(),
        trimmed_end(t).len() <= t.len(),
        trimmed(t).len() <= t.len(),
    decreases t.len(),
{
    lemma_trimmed_end_len(t);
    if t.len() > 0 && is_white(t[0]) {
        lemma_trimmed_len(t.skip(1));
    }
    lemma_trimmed_end_len(trimmed_start(t));
}

proof fn lemma_trimmed_end_len(t: Seq<char>)
    ensures
        trimmed_end(t).len() <= t.len(),
    decreases t.len(),
{
    if t.len() > 0 && is_white(t.last()) {
        lemma_trimmed_end_len(t.drop_last());
    }
}

/// No part of a text is longer than the text.
pub proof fn lemma_comma_parts_len(t: Seq<char>)
    ensures
        forall|i: int| 0 <= i < comma_parts(t).len() ==> (#[trigger] comma_parts(t)[i]).len()
            <= t.len(),
    decreases t.len(),
{
    lemma_find_char(t, 0, ',');
    match find_char(t, 0, ',') {
        Some(k) => {
            let rest = comma_parts(t.skip(k + 1));
            lemma_comma_parts_len(t.skip(k + 1));
            assert forall|i: int| 0 <= i < comma_parts(t).len() implies (#[trigger] comma_parts(
                t,
            )[i]).len() <= t.len() by {
                if i > 0 {
                    assert(comma_parts(t)[i] == rest[i - 1]);
                }
            }
        },
        None => {},
    }
}

pub proof fn lemma_top_level_from(t: Seq<char>, pat: Seq<char>, i: int, depth: int)
    requires
        0 <= i,
    ensures
        match top_level_from(t, pat, i, depth) {
            Some(k) => i <= k < t.len() && occurs_at(t, k, pat),
            None => true,
        },
    decreases t.len() - i,
{
    if i < t.len() && !(depth_after(t[i], depth) == 0 && occurs_at(t, i, pat)) {
        lemma_top_level_from(t, pat, i + 1, depth_after(t[i], depth));
    }
}

fn cut(t: &Vec<char>, from: usize, to: usize) -> (r: Vec<char>)
    requires
        from <= to <= t@.len(),
    ensures
        r@ == t@.subrange(from as int, to as int),
{
    let mut v: Vec<char> = Vec::new();
    push_part(&mut v, t, from, to);
    assert(v@ =~= t@.subrange(from as int, to as int));
    v
}

fn top_level(t: &Vec<char>, pat: &Vec<char>) -> (r: Option<usize>)
    ensures
        match top_level_index(t@, pat@) {
            Some(k) => r is Some && r->0 as int == k && k + pat@.len() <= t@.len() && 0 <= k
                < t@.len(),
            None => r is None,
        },
{
    let mut depth: i128 = 0;
    let mut i: usize = 0;
    proof {
        lemma_top_level_from(t@, pat@, 0, 0);
    }
    while i < t.len()
        invariant
            i <= t.len(),
            -(i as int) <= depth <= i,
            top_level_from(t@, pat@, i as int, depth as int) == top_level_index(t@, pat@),
            match top_level_index(t@, pat@) {
                Some(k) => 0 <= k < t@.len() && occurs_at(t@, k, pat@),
                None => true,
            },
        decreases t@.len() - i,
    {
        let c = t[i];
        if c == '(' || c == '[' || c == '{' {
            depth = depth + 1;
        } else if c == ')' || c == ']' || c == '}' {
            depth = depth - 1;
        }
        if depth == 0 && found_at(t, i, pat) {
            return Some(i);
        }
        i += 1;
    }
    None
}

/// The byte index of the first occurrence of `pat` in `s` at bracket-nesting
/// depth zero (ignoring matches inside `()`/`[]`/`{}`), if any.
pub fn top_level_find(s: &str, pat: &str) -> (r: Option<usize>)
    ensures
        match top_level_index(s@, pat@) {
            Some(k) => r == Some(byte_len(s@.take(k))),
            None => r is None,
        },
{
    let t = chars_of(s);
    let p = chars_of(pat);
    match top_level(&t, &p) {
        Some(k) => {
            assert(s@.subrange(0, k as int) =~= s@.take(k as int));
            Some(s.substring_char(0, k).len())
        },
        None => None,
    }
}

fn trim_start(t: &Vec<char>) -> (r: Vec<char>)
    ensures
        r@ == trimmed_start(t@),
{
    let mut i: usize = 0;
    assert(t@.skip(0) =~= t@);
    while i < t.len() && white(t[i])
        invariant
            i <= t@.len(),
            trimmed_start(t@.skip(i as int)) == trimmed_start(t@),
        decreases t@.len() - i,
    {
        assert(t@.skip(i as int).skip(1) =~= t@.skip(i + 1));
        i += 1;
    }
    assert(t@.subrange(i as int, t@.len() as int) =~= t@.skip(i as int));
    cut(t, i, t.len())
}

fn trim_end(t: &Vec<char>) -> (r: Vec<char>)
    ensures
        r@ == trimmed_end(t@),
{
    let mut i: usize = t.len();
    assert(t@.take(t@.len() as int) =~= t@);
    while i > 0 && white(t[i - 1])
        invariant
            i <= t@.len(),
            trimmed_end(t@.take(i as int)) == trimmed_end(t@),
        decreases i,
    {
        assert(t@.take(i as int).drop_last() =~= t@.take(i - 1));
        i -= 1;
    }
    assert(t@.subrange(0, i as int) =~= t@.take(i as int));
    cut(t, 0, i)
}

/// `s` without the white space at its end.
pub fn without_trailing_space(s: &str) -> (r: String)
    ensures
        r@ == trimmed_end(s@),
{
    string_of(&trim_end(&chars_of(s)))
}

fn trim(t: &Vec<char>) -> (r: Vec<char>)
    ensures
        r@ == trimmed(t@),
{
    trim_end(&trim_start(t))
}

pub open spec fn rows(v: Seq<Vec<char>>) -> Seq<Seq<char>> {
    Seq::new(v.len(), |i: int| v[i]@)
}

fn split_commas(t: &Vec<char>) -> (r: Vec<Vec<char>>)
    ensures
        rows(r@) == comma_parts(t@),
{
    let mut r: Vec<Vec<char>> = Vec::new();
    let mut from: usize = 0;
    assert(t@.skip(0) =~= t@);
    assert(rows(r@) + comma_parts(t@) =~= comma_parts(t@));
    loop
        invariant
            from <= t@.len(),
            rows(r@) + comma_parts(t@.skip(from as int)) == comma_parts(t@),
        decreases t@.len() - from,
    {
        let ghost rest = t@.skip(from as int);
        proof {
            lemma_find_char_skip(t@, from as int, ',');
            lemma_find_char(t@, from as int, ',');
        }
        match char_from(t, from, ',') {
            Some(k) => {
                let piece = cut(t, from, k);
                let ghost before = rows(r@);
                proof {
                    assert(piece@ =~= rest.take(k - from));
                    assert(rest.skip(k - from + 1) =~= t@.skip(k + 1));
                }
                r.push(piece);
                assert(rows(r@) =~= before + seq![piece@]);
                assert(before + comma_parts(rest) =~= (before + seq![piece@]) + comma_parts(
                    t@.skip(k + 1),
                ));
                assert(k < t.len());
                from = k + 1;
            },
            None => {
                let piece = cut(t, from, t.len());
                let ghost before = rows(r@);
                assert(piece@ =~= rest);
                r.push(piece);
                assert(rows(r@) =~= before + seq![rest]);
                return r;
            },
        }
    }
}

proof fn lemma_find_char_skip(t: Seq<char>, from: int, c: char)
    requires
        0 <= from <= t.len(),
    ensures
        find_char(t.skip(from), 0, c) == match find_char(t, from, c) {
            Some(k) => Some(k - from),
            None => None,
        },
{
    lemma_find_char_shift(t, from, 0, c);
}

proof fn lemma_find_char_shift(t: Seq<char>, from: int, i: int, c: char)
    requires
        0 <= from <= t.len(),
        0 <= i <= t.len() - from,
    ensures
        find_char(t.skip(from), i, c) == match find_char(t, from + i, c) {
            Some(k) => Some(k - from),
            None => None,
        },
    decreases t.len() - from - i,
{
    if i < t.len() - from {
        lemma_find_char_shift(t, from, i + 1, c);
    }
}

fn is_bracketed(t: &Vec<char>) -> (r: bool)
    ensures
        r == bracketed(t@),
{
    t.len() >= 2 && t[0] == '(' && t[t.len() - 1] == ')'
}

fn strip_mut(t: &Vec<char>) -> (r: Vec<char>)
    ensures
        r@ == without_mut(t@),
{
    proof {
        reveal_strlit("mut ");
    }
    let pat = chars_of("mut ");
    if found_at(t, 0, &pat) {
        assert(t@.subrange(4, t@.len() as int) =~= t@.skip(4));
        cut(t, 4, t.len())
    } else {
        assert(t@.subrange(0, t@.len() as int) =~= t@);
        cut(t, 0, t.len())
    }
}

fn strip_let(line: &str) -> (r: Option<Vec<char>>)
    ensures
        match after_let(line@) {
            Some(rest) => r is Some && r->0@ == rest,
            None => r is None,
        },
{
    proof {
        reveal_strlit("let ");
    }
    let t = chars_of(line);
    let pat = chars_of("let ");
    if found_at(&t, 0, &pat) {
        assert(t@.subrange(4, t@.len() as int) =~= t@.skip(4));
        Some(cut(&t, 4, t.len()))
    } else {
        None
    }
}

/// The binding, the type and the initialiser of a typed `let`.
fn let_parts(rest: &Vec<char>) -> (r: Option<(Vec<char>, Vec<char>, Vec<char>)>)
    ensures
        match split_let(rest@) {
            Some(l) => r matches Some((b, t, i)) && b@ == l.binding && t@ == l.ty && i@ == l.init,
            None => r is None,
        },
{
    proof {
        reveal_strlit(" = ");
        reveal_strlit(":");
    }
    let eq_pat = chars_of(" = ");
    let colon_pat = chars_of(":");
    match top_level(rest, &eq_pat) {
        Some(eq) => {
            let lhs = cut(rest, 0, eq);
            assert(lhs@ =~= rest@.take(eq as int));
            match top_level(&lhs, &colon_pat) {
                Some(colon) => {
                    let binding = cut(rest, 0, colon);
                    let ty = cut(rest, colon + 1, eq);
                    assert(eq + 3 <= rest.len());
                    let init = cut(rest, eq + 3, rest.len());
                    assert(binding@ =~= rest@.take(colon as int));
                    assert(init@ =~= rest@.skip(eq + 3));
                    Some((binding, ty, init))
                },
                None => None,
            }
        },
        None => None,
    }
}

/// Whether `ty` is an array type with its length.
pub fn is_array(ty: &str) -> (r: bool)
    ensures
        r == (array_length_at(ty@) is Some),
{
    find_array_length(&chars_of(ty)).is_some()
}

/// A placeholder default value for `ty`, valid to bind before the real
/// initialising assignment overwrites it. Any value of the type works, since the
/// assignment dominates every read.
pub fn type_default(ty: &str) -> (r: String)
    ensures
        r@ == default_text(ty@),
{
    default_of(&chars_of(ty))
}

fn find_array_length(ty: &Vec<char>) -> (r: Option<usize>)
    ensures
        match array_length_at(ty@) {
            Some(k) => r is Some && r->0 == k && 1 <= k < ty@.len(),
            None => r is None,
        },
{
    if ty.len() < 2 || ty[0] != '[' || ty[ty.len() - 1] != ']' {
        return None;
    }
    let mut k: usize = ty.len();
    assert(ty@.take(k as int) =~= ty@);
    while k > 0
        invariant
            k <= ty@.len(),
            ty@.len() >= 2,
            ty@[0] == '[',
            ty@.last() == ']',
            last_char(ty@, ';') == last_char(ty@.take(k as int), ';'),
        decreases k,
    {
        let ghost front = ty@.take(k as int);
        assert(front.drop_last() =~= ty@.take(k - 1));
        assert(front.last() == ty@[k - 1]);
        if ty[k - 1] == ';' {
            return if k >= 2 {
                Some(k - 1)
            } else {
                None
            };
        }
        k -= 1;
    }
    None
}

fn default_of(ty: &Vec<char>) -> (r: String)
    ensures
        r@ == default_text(ty@),
    decreases ty@.len(),
{
    if is_bracketed(ty) {
        let inner = cut(ty, 1, ty.len() - 1);
        let pieces = split_commas(&inner);
        let ghost parts = comma_parts(inner@);
        let mut out: Vec<String> = Vec::new();
        proof {
            lemma_comma_parts_len(inner@);
            assert(texts(out@) =~= default_parts(parts.take(0), ty@.len()));
        }
        let mut i: usize = 0;
        while i < pieces.len()
            invariant
                i <= pieces@.len(),
                inner@.len() < ty@.len(),
                rows(pieces@) == parts,
                forall|k: int| 0 <= k < parts.len() ==> (#[trigger] parts[k]).len() <= inner@.len(),
                texts(out@) == default_parts(parts.take(i as int), ty@.len()),
            decreases pieces@.len() - i,
        {
            let piece = trim(&pieces[i]);
            let ghost before = texts(out@);
            proof {
                assert(parts[i as int] == pieces@[i as int]@);
                lemma_trimmed_len(parts[i as int]);
                assert(parts.take(i + 1).drop_last() =~= parts.take(i as int));
            }
            let text = default_of(&piece);
            out.push(text);
            assert(texts(out@) =~= before.push(text@));
            i += 1;
        }
        assert(parts.take(parts.len() as int) =~= parts);
        Buf::lit("(").s(&join(&out, ", ")).s(")").end()
    } else if let Some(k) = find_array_length(ty) {
        let element = default_of(&cut(ty, 1, k));
        let rest = string_of(&cut(ty, k, ty.len()));
        assert(rest@ =~= ty@.skip(k as int));
        Buf::lit("[").s(&element).s(&rest).end()
    } else if found_at(ty, 0, &chars_of("Vec<")) {
        lit("Vec::new()")
    } else {
        let name = string_of(ty);
        if same(name.as_str(), "bool") {
            lit("false")
        } else if same(name.as_str(), "f32") || same(name.as_str(), "f64") {
            lit("0.0")
        } else if same(name.as_str(), "GcRef") {
            lit("GcRef::Null")
        } else {
            lit("0")
        }
    }
}

/// If `line` is a typed `let` binding, return `(hoisted declaration, in-arm
/// assignment)`: the declaration is placed above the dispatch loop so it stays
/// in scope for every arm, while the assignment (carrying any side effects)
/// stays at the original program point. A typeless `let` — whose binding never
/// crosses an arm boundary — returns `None` and is left in place.
pub fn hoist_decl(line: &str) -> (r: Option<(String, String)>)
    ensures
        match hoisted(line@) {
            Some(h) => r matches Some((d, a)) && d@ == h.0 && a@ == h.1,
            None => r is None,
        },
{
    let rest = match strip_let(line) {
        Some(rest) => strip_mut(&rest),
        None => {
            return None;
        },
    };
    let (binding, ty, init) = match let_parts(&rest) {
        Some(parts) => parts,
        None => {
            return None;
        },
    };
    let binding = trim_end(&binding);
    let ty = string_of(&trim(&ty));
    let init = string_of(&init);
    let default = type_default(ty.as_str());
    if is_bracketed(&binding) {
        let inner = cut(&binding, 1, binding.len() - 1);
        let pieces = split_commas(&inner);
        let ghost names = bound_names(unbracketed(binding@));
        let mut bare: Vec<String> = Vec::new();
        let mut muts: Vec<String> = Vec::new();
        let mut i: usize = 0;
        while i < pieces.len()
            invariant
                i <= pieces@.len(),
                names.len() == pieces@.len(),
                forall|k: int|
                    0 <= k < names.len() ==> #[trigger] names[k] == bound_name(pieces@[k]@),
                bare@.len() == i,
                muts@.len() == i,
                forall|k: int| 0 <= k < i ==> (#[trigger] bare@[k])@ == names[k],
                forall|k: int| 0 <= k < i ==> (#[trigger] muts@[k])@ == "mut "@ + names[k],
            decreases pieces@.len() - i,
        {
            let name = string_of(&strip_mut(&trim(&pieces[i])));
            muts.push(Buf::lit("mut ").s(&name).end());
            bare.push(name);
            i += 1;
        }
        assert(texts(bare@) =~= names);
        assert(texts(muts@) =~= names.map_values(|n: Seq<char>| "mut "@ + n));
        let decl = Buf::lit("let (").s(&join(&muts, ", ")).s("): ").s(&ty).s(" = ").s(&default)
            .s(";").end();
        let assign = Buf::lit("(").s(&join(&bare, ", ")).s(") = ").s(&init).end();
        Some((decl, assign))
    } else {
        let binding = string_of(&binding);
        let decl = Buf::lit("let mut ").s(&binding).s(": ").s(&ty).s(" = ").s(&default).s(";")
            .end();
        let assign = Buf::lit(&binding).s(" = ").s(&init).end();
        Some((decl, assign))
    }
}

/// Parse a hoisted declaration into the `(name, type)` of every local it binds.
/// [`hoist_decl`] emits two shapes: a single `let mut <name>: <type> = <default>;`
/// (one pair) and a batched tuple `let (mut a, mut b): (T, U) = <default>;` (one
/// pair per element, so that no element of a tuple is left without a state slot).
/// Returns an empty list for any other line, so only real hoisted state becomes
/// struct fields.
pub fn parse_hoisted_decl(decl: &str) -> (r: Vec<(String, String)>)
    ensures
        pair_texts(r@) == declared(decl@),
{
    let mut r: Vec<(String, String)> = Vec::new();
    let rest = match strip_let(decl) {
        Some(rest) => rest,
        None => {
            assert(pair_texts(r@) =~= declared(decl@));
            return r;
        },
    };
    let (binding, ty, _init) = match let_parts(&rest) {
        Some(parts) => parts,
        None => {
            assert(pair_texts(r@) =~= declared(decl@));
            return r;
        },
    };
    let binding = trim(&binding);
    let ty = trim(&ty);
    if is_bracketed(&binding) && is_bracketed(&ty) {
        let names = split_commas(&cut(&binding, 1, binding.len() - 1));
        let types = split_commas(&cut(&ty, 1, ty.len() - 1));
        let ghost all = declared_parts(binding@, ty@);
        let ghost ns = comma_parts(unbracketed(binding@));
        let ghost ts = comma_parts(unbracketed(ty@));
        let mut i: usize = 0;
        while i < names.len() && i < types.len()
            invariant
                i <= names@.len(),
                i <= types@.len(),
                rows(names@) == ns,
                rows(types@) == ts,
                r@.len() == i,
                forall|k: int|
                    0 <= k < i ==> (#[trigger] r@[k]).0@ == bound_name(ns[k]) && r@[k].1@
                        == trimmed(ts[k]),
            decreases names@.len() - i,
        {
            let name = string_of(&strip_mut(&trim(&names[i])));
            let ty = string_of(&trim(&types[i]));
            assert(ns[i as int] == names@[i as int]@);
            assert(ts[i as int] == types@[i as int]@);
            r.push((name, ty));
            i += 1;
        }
        assert(pair_texts(r@) =~= all);
        return r;
    }
    let name = string_of(&trim(&strip_mut(&binding)));
    let ty = string_of(&ty);
    r.push((name, ty));
    assert(pair_texts(r@) =~= declared(decl@));
    r
}

/// Whether a hoisted temp of Rust type `ty` can ride a Copy array bank. Only the
/// scalar value-type lowerings qualify (`[x; N]` array-repeat needs `Copy`); a
/// non-Copy `GcRef` handle falls back to an individual struct field.
pub fn is_bankable(ty: &str) -> (r: bool)
    ensures
        r == bankable(ty@),
{
    same(ty, "i32") || same(ty, "i64") || same(ty, "f32")
        || same(ty, "f64") || same(ty, "u32") || same(
        ty,
        "u128",
    )
}

// ---------------------------------------------------------------------------
// Finding and replacing
// ---------------------------------------------------------------------------
/// Whether `pat` stands somewhere in `t`.
pub open spec fn holds_text(t: Seq<char>, pat: Seq<char>) -> bool {
    exists|i: int| 0 <= i <= t.len() && #[trigger] occurs_at(t, i, pat)
}

/// The text of `t` from `i` on with every `pat`, found from left to right,
/// replaced by `to`.
pub open spec fn replaced_from(t: Seq<char>, i: int, pat: Seq<char>, to: Seq<char>) -> Seq<char>
    decreases t.len() - i,
{
    if i < 0 || i >= t.len() {
        Seq::empty()
    } else if pat.len() > 0 && occurs_at(t, i, pat) {
        to + replaced_from(t, i + pat.len(), pat, to)
    } else {
        seq![t[i]] + replaced_from(t, i + 1, pat, to)
    }
}

/// `t` with every `pat` replaced by `to`.
pub open spec fn replaced_all(t: Seq<char>, pat: Seq<char>, to: Seq<char>) -> Seq<char> {
    replaced_from(t, 0, pat, to)
}

/// The text of `t` from `i` on with its first `pat` replaced by `to`.
pub open spec fn replaced_once_from(
    t: Seq<char>,
    i: int,
    pat: Seq<char>,
    to: Seq<char>,
) -> Seq<char>
    decreases t.len() - i,
{
    if i < 0 || i >= t.len() {
        Seq::empty()
    } else if occurs_at(t, i, pat) {
        to + t.skip(i + pat.len())
    } else {
        seq![t[i]] + replaced_once_from(t, i + 1, pat, to)
    }
}

/// `t` with its first `pat` replaced by `to`.
pub open spec fn replaced_first(t: Seq<char>, pat: Seq<char>, to: Seq<char>) -> Seq<char> {
    replaced_once_from(t, 0, pat, to)
}

/// Whether `pat` stands somewhere in `s`.
pub fn has_text(s: &str, pat: &str) -> (r: bool)
    ensures
        r == holds_text(s@, pat@),
{
    let t = chars_of(s);
    let p = chars_of(pat);
    let mut i: usize = 0;
    while i < t.len()
        invariant
            t@ == s@,
            p@ == pat@,
            i <= t@.len(),
            forall|k: int| 0 <= k < i ==> !#[trigger] occurs_at(t@, k, p@),
        decreases t@.len() - i,
    {
        if found_at(&t, i, &p) {
            return true;
        }
        i += 1;
    }
    found_at(&t, i, &p)
}

/// `s` with every `pat` replaced by `to`.
pub fn replace_all(s: &str, pat: &str, to: &str) -> (r: String)
    requires
        pat@.len() > 0,
    ensures
        r@ == replaced_all(s@, pat@, to@),
{
    let t = chars_of(s);
    let p = chars_of(pat);
    let mut out: Vec<char> = Vec::new();
    let mut i: usize = 0;
    assert(Seq::<char>::empty() + replaced_from(t@, 0, p@, to@) =~= replaced_from(t@, 0, p@, to@));
    while i < t.len()
        invariant
            t@ == s@,
            p@ == pat@,
            p@.len() > 0,
            i <= t@.len(),
            out@ + replaced_from(t@, i as int, p@, to@) == replaced_from(t@, 0, p@, to@),
        decreases t@.len() - i,
    {
        let ghost before = out@;
        let start: usize = i;
        if found_at(&t, i, &p) {
            push_all(&mut out, to);
            assert(i + p@.len() <= t.len());
            i += p.len();
        } else {
            out.push(t[i]);
            i += 1;
            assert(out@ =~= before + seq![t@[start as int]]);
        }
        proof {
            let piece = out@.subrange(before.len() as int, out@.len() as int);
            assert(out@ =~= before + piece);
            assert(before + replaced_from(t@, start as int, p@, to@) =~= (before + piece)
                + replaced_from(t@, i as int, p@, to@));
        }
    }
    assert(out@ + replaced_from(t@, i as int, p@, to@) =~= out@);
    string_of(&out)
}

/// `s` with its first `pat` replaced by `to`.
pub fn replace_first(s: &str, pat: &str, to: &str) -> (r: String)
    requires
        pat@.len() > 0,
    ensures
        r@ == replaced_first(s@, pat@, to@),
{
    let t = chars_of(s);
    let p = chars_of(pat);
    let mut out: Vec<char> = Vec::new();
    let mut i: usize = 0;
    assert(Seq::<char>::empty() + replaced_once_from(t@, 0, p@, to@) =~= replaced_once_from(
        t@,
        0,
        p@,
        to@,
    ));
    while i < t.len()
        invariant
            t@ == s@,
            p@ == pat@,
            p@.len() > 0,
            i <= t@.len(),
            out@ + replaced_once_from(t@, i as int, p@, to@) == replaced_once_from(
                t@,
                0,
                p@,
                to@,
            ),
        decreases t@.len() - i,
    {
        let ghost before = out@;
        if found_at(&t, i, &p) {
            push_all(&mut out, to);
            assert(i + p@.len() <= t.len());
            let rest: usize = i + p.len();
            push_part(&mut out, &t, rest, t.len());
            proof {
                assert(t@.subrange(rest as int, t@.len() as int) =~= t@.skip(rest as int));
                assert(out@ =~= before + (to@ + t@.skip(rest as int)));
            }
            return string_of(&out);
        }
        out.push(t[i]);
        assert(before + replaced_once_from(t@, i as int, p@, to@) =~= out@ + replaced_once_from(
            t@,
            i + 1,
            p@,
            to@,
        ));
        i += 1;
    }
    assert(out@ + replaced_once_from(t@, i as int, p@, to@) =~= out@);
    string_of(&out)
}

} // verus!
