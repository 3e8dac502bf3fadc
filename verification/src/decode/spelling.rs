//! Reading values out of the spelling of an instruction, such as
//! `LocalGet { local_index: 0 }`.

use vstd::prelude::*;

use crate::codegen::scan::{digits_end, digits_value, found_at, is_digit, is_letter, occurs_at};
use crate::text::chars_of;

verus! {

/// The position just behind the first `key` from `i` on.
pub open spec fn behind_from(t: Seq<char>, key: Seq<char>, i: int) -> Option<int>
    decreases t.len() - i,
{
    if i < 0 || i > t.len() {
        None
    } else if occurs_at(t, i, key) {
        Some(i + key.len())
    } else if i == t.len() {
        None
    } else {
        behind_from(t, key, i + 1)
    }
}

/// The position just behind the first `key`.
pub open spec fn behind(t: Seq<char>, key: Seq<char>) -> Option<int> {
    behind_from(t, key, 0)
}

/// The end of the run of letters and digits that begins at `i`.
pub open spec fn word_end(t: Seq<char>, i: int) -> int
    decreases t.len() - i,
{
    if 0 <= i < t.len() && (is_letter(t[i]) || is_digit(t[i])) {
        word_end(t, i + 1)
    } else {
        i
    }
}

/// The run of letters and digits that begins at `i`.
pub open spec fn word_at(t: Seq<char>, i: int) -> Seq<char> {
    t.subrange(i, word_end(t, i))
}

/// The word just behind the first `key`; nothing where there is none.
pub open spec fn word_behind(t: Seq<char>, key: Seq<char>) -> Seq<char> {
    match behind(t, key) {
        Some(i) => word_at(t, i),
        None => Seq::empty(),
    }
}

/// The number that begins at `i`, where it is at most `max`.
pub open spec fn number_at(t: Seq<char>, i: int, max: nat) -> Option<nat> {
    let e = digits_end(t, i);
    if e <= i {
        None
    } else if digits_value(t.subrange(i, e)) <= max {
        Some(digits_value(t.subrange(i, e)))
    } else {
        None
    }
}

/// The number just behind the first `key`, where it is at most `max`.
pub open spec fn number_behind(t: Seq<char>, key: Seq<char>, max: nat) -> Option<nat> {
    match behind(t, key) {
        Some(i) => number_at(t, i, max),
        None => None,
    }
}

/// The 32-bit number just behind the first `key`.
pub open spec fn index_behind(t: Seq<char>, key: Seq<char>) -> Option<u32> {
    match number_behind(t, key, u32::MAX as nat) {
        Some(n) => Some(n as u32),
        None => None,
    }
}

/// The signed number just behind the first `key`, where it has at most 64 bits.
pub open spec fn signed_behind(t: Seq<char>, key: Seq<char>) -> Option<int> {
    match behind(t, key) {
        Some(i) => if i < t.len() && t[i] == '-' {
            match number_at(t, i + 1, 0x8000_0000_0000_0000) {
                Some(n) => Some(-(n as int)),
                None => None,
            }
        } else {
            match number_at(t, i, 0x7fff_ffff_ffff_ffff) {
                Some(n) => Some(n as int),
                None => None,
            }
        },
        None => None,
    }
}

/// The numbers from `i` on, separated by commas, behind `acc`.
pub open spec fn numbers_from(t: Seq<char>, i: int, acc: Seq<u32>) -> Seq<u32>
    decreases t.len() - i,
{
    match number_at(t, i, u32::MAX as nat) {
        None => acc,
        Some(n) => {
            let e = digits_end(t, i);
            if 0 <= i < e && e + 2 <= t.len() && occurs_at(t, e, ", "@) {
                numbers_from(t, e + 2, acc.push(n as u32))
            } else {
                acc.push(n as u32)
            }
        },
    }
}

/// The numbers just behind the first `key`, separated by commas.
pub open spec fn numbers_behind(t: Seq<char>, key: Seq<char>) -> Option<Seq<u32>> {
    match behind(t, key) {
        Some(i) => Some(numbers_from(t, i, Seq::empty())),
        None => None,
    }
}

pub proof fn lemma_behind_bounds(t: Seq<char>, key: Seq<char>, i: int)
    requires
        0 <= i,
    ensures
        behind_from(t, key, i) matches Some(p) ==> i <= p <= t.len(),
    decreases t.len() - i,
{
    if i <= t.len() && !occurs_at(t, i, key) && i < t.len() {
        lemma_behind_bounds(t, key, i + 1);
    }
}

proof fn lemma_digits_end(t: Seq<char>, i: int)
    requires
        0 <= i <= t.len(),
    ensures
        i <= digits_end(t, i) <= t.len(),
        forall|k: int| i <= k < digits_end(t, i) ==> is_digit(#[trigger] t[k]),
    decreases t.len() - i,
{
    if i < t.len() && is_digit(t[i]) {
        lemma_digits_end(t, i + 1);
    }
}

/// Whether a character is an ASCII digit.
fn digit(c: char) -> (r: bool)
    ensures
        r == is_digit(c),
{
    '0' <= c && c <= '9'
}

/// The position just behind the first `key`.
pub fn find_behind(t: &Vec<char>, key: &str) -> (r: Option<usize>)
    ensures
        match behind(t@, key@) {
            Some(p) => r is Some && r->0 as int == p && r->0 <= t@.len(),
            None => r is None,
        },
{
    let k = chars_of(key);
    let n: usize = t.len();
    let mut i: usize = 0;
    loop
        invariant
            k@ == key@,
            n == t@.len(),
            i <= n,
            behind(t@, key@) == behind_from(t@, key@, i as int),
        decreases n - i,
    {
        if found_at(t, i, &k) {
            return Some(i + k.len());
        }
        if i == n {
            return None;
        }
        i += 1;
    }
}

/// The run of letters and digits that begins at `i`.
pub fn read_word(t: &Vec<char>, i: usize) -> (r: Vec<char>)
    requires
        i <= t@.len(),
    ensures
        r@ == word_at(t@, i as int),
{
    let mut out: Vec<char> = Vec::new();
    let mut k: usize = i;
    assert(t@.subrange(i as int, i as int) =~= Seq::<char>::empty());
    while k < t.len() && (digit(t[k]) || ('a' <= t[k] && t[k] <= 'z') || ('A' <= t[k] && t[k]
        <= 'Z'))
        invariant
            i <= k <= t@.len(),
            out@ =~= t@.subrange(i as int, k as int),
            word_end(t@, i as int) == word_end(t@, k as int),
        decreases t@.len() - k,
    {
        out.push(t[k]);
        k += 1;
    }
    out
}

/// The word just behind the first `key`; nothing where there is none.
pub fn find_word(t: &Vec<char>, key: &str) -> (r: Vec<char>)
    ensures
        r@ == word_behind(t@, key@),
{
    match find_behind(t, key) {
        Some(i) => read_word(t, i),
        None => {
            let r: Vec<char> = Vec::new();
            assert(r@ =~= Seq::<char>::empty());
            r
        },
    }
}

/// Digits only raise a number.
proof fn lemma_digits_grow(t: Seq<char>, i: int, j: int, e: int)
    requires
        0 <= i <= j <= e <= t.len(),
    ensures
        digits_value(t.subrange(i, j)) <= digits_value(t.subrange(i, e)),
    decreases e - j,
{
    if j < e {
        lemma_digits_grow(t, i, j, e - 1);
        assert(t.subrange(i, e).drop_last() =~= t.subrange(i, e - 1));
    }
}

/// The number that begins at `i`, where it is at most `max`, and its end.
pub fn read_number(t: &Vec<char>, i: usize, max: u64) -> (r: Option<(u64, usize)>)
    requires
        i <= t@.len(),
    ensures
        match number_at(t@, i as int, max as nat) {
            Some(n) => r matches Some((v, e)) && v as nat == n && e as int == digits_end(
                t@,
                i as int,
            ) && i < e <= t@.len(),
            None => r is None,
        },
{
    proof {
        lemma_digits_end(t@, i as int);
    }
    let ghost end = digits_end(t@, i as int);
    let mut value: u64 = 0;
    let mut k: usize = i;
    assert(t@.subrange(i as int, i as int) =~= Seq::<char>::empty());
    while k < t.len() && digit(t[k])
        invariant
            i <= k <= end <= t@.len(),
            end == digits_end(t@, k as int),
            end == digits_end(t@, i as int),
            value <= max,
            value as nat == digits_value(t@.subrange(i as int, k as int)),
        decreases t@.len() - k,
    {
        let d: u64 = (t[k] as u32 - '0' as u32) as u64;
        proof {
            assert(t@.subrange(i as int, k + 1).drop_last() =~= t@.subrange(i as int, k as int));
            lemma_digits_end(t@, k + 1);
            lemma_digits_grow(t@, i as int, k + 1, end);
        }
        let wide: u128 = value as u128 * 10 + d as u128;
        if wide > max as u128 {
            return None;
        }
        value = wide as u64;
        k += 1;
    }
    if k == i {
        None
    } else {
        Some((value, k))
    }
}

/// The number just behind the first `key`, where it is at most `max`.
pub fn find_number(t: &Vec<char>, key: &str, max: u64) -> (r: Option<u64>)
    ensures
        match number_behind(t@, key@, max as nat) {
            Some(n) => r is Some && r->0 as nat == n,
            None => r is None,
        },
{
    match find_behind(t, key) {
        Some(i) => match read_number(t, i, max) {
            Some((n, _)) => Some(n),
            None => None,
        },
        None => None,
    }
}

/// The 32-bit number just behind the first `key`.
pub fn find_index(t: &Vec<char>, key: &str) -> (r: Option<u32>)
    ensures
        r == index_behind(t@, key@),
{
    match find_number(t, key, u32::MAX as u64) {
        Some(n) => Some(n as u32),
        None => None,
    }
}

/// The signed number just behind the first `key`, where it has at most 64 bits.
pub fn find_signed(t: &Vec<char>, key: &str) -> (r: Option<i64>)
    ensures
        match signed_behind(t@, key@) {
            Some(n) => r is Some && r->0 as int == n,
            None => r is None,
        },
{
    match find_behind(t, key) {
        Some(i) => if i < t.len() && t[i] == '-' {
            match read_number(t, i + 1, 0x8000_0000_0000_0000) {
                Some((n, _)) => if n == 0x8000_0000_0000_0000 {
                    Some(i64::MIN)
                } else {
                    Some(-(n as i64))
                },
                None => None,
            }
        } else {
            match read_number(t, i, 0x7fff_ffff_ffff_ffff) {
                Some((n, _)) => Some(n as i64),
                None => None,
            }
        },
        None => None,
    }
}

/// The numbers just behind the first `key`, separated by commas.
pub fn find_numbers(t: &Vec<char>, key: &str) -> (r: Option<Vec<u32>>)
    ensures
        match numbers_behind(t@, key@) {
            Some(l) => r is Some && r->0@ == l,
            None => r is None,
        },
{
    let start: usize = match find_behind(t, key) {
        Some(i) => i,
        None => return None,
    };
    let comma = chars_of(", ");
    let mut out: Vec<u32> = Vec::new();
    let mut i: usize = start;
    assert(out@ =~= Seq::<u32>::empty());
    loop
        invariant
            i <= t@.len(),
            comma@ == ", "@,
            behind(t@, key@) == Some(start as int),
            numbers_from(t@, start as int, Seq::empty()) == numbers_from(t@, i as int, out@),
        decreases t@.len() - i,
    {
        match read_number(t, i, u32::MAX as u64) {
            None => {
                return Some(out);
            },
            Some((n, e)) => {
                out.push(n as u32);
                if t.len() - e < 2 || !found_at(t, e, &comma) {
                    return Some(out);
                }
                i = e + 2;
            },
        }
    }
}

/// Whether characters spell a text.
pub fn spells(word: &Vec<char>, text: &str) -> (r: bool)
    ensures
        r == (word@ == text@),
{
    let t = chars_of(text);
    if word.len() != t.len() {
        return false;
    }
    let mut i: usize = 0;
    while i < t.len()
        invariant
            i <= t@.len(),
            word@.len() == t@.len(),
            t@ == text@,
            forall|k: int| 0 <= k < i ==> word@[k] == t@[k],
        decreases t@.len() - i,
    {
        if word[i] != t[i] {
            return false;
        }
        i += 1;
    }
    assert(word@ =~= text@);
    true
}

} // verus!
