//! Building and inspecting text.
//!
//! A piece of text is modelled by its characters, a `Seq<char>`. Everything the
//! generator prints is put together from string literals, other text and
//! decimal numbers by a [`Buf`], and everything it reads back is scanned
//! character by character.

use vstd::prelude::*;
use vstd::utf8::{encode_utf8, encode_utf8_decode_utf8};

verus! {

/// The character of the decimal digit `d`.
pub open spec fn digit_char(d: nat) -> char {
    if d == 0 {
        '0'
    } else if d == 1 {
        '1'
    } else if d == 2 {
        '2'
    } else if d == 3 {
        '3'
    } else if d == 4 {
        '4'
    } else if d == 5 {
        '5'
    } else if d == 6 {
        '6'
    } else if d == 7 {
        '7'
    } else if d == 8 {
        '8'
    } else {
        '9'
    }
}

/// The shortest decimal spelling of `n`.
pub open spec fn dec(n: nat) -> Seq<char>
    decreases n,
{
    if n < 10 {
        seq![digit_char(n)]
    } else {
        dec(n / 10).push(digit_char(n % 10))
    }
}

/// The shortest decimal spelling of a 32-bit number.
pub open spec fn dec32(n: u32) -> Seq<char> {
    dec(n as nat)
}

/// The decimal spelling of an integer, with a `-` in front of a negative one.
pub open spec fn signed_dec(n: int) -> Seq<char> {
    if n < 0 {
        "-"@ + dec((-n) as nat)
    } else {
        dec(n as nat)
    }
}

/// Appending a concatenation appends its two halves in turn.
pub broadcast proof fn lemma_cat_assoc(a: Seq<char>, b: Seq<char>, c: Seq<char>)
    ensures
        #[trigger] (a + (b + c)) == (a + b) + c,
{
    assert(a + (b + c) =~= (a + b) + c);
}

/// Appending the empty text changes nothing.
pub broadcast proof fn lemma_cat_empty(a: Seq<char>)
    ensures
        #[trigger] (a + Seq::<char>::empty()) == a,
{
    assert(a + Seq::<char>::empty() =~= a);
}

pub broadcast group group_text {
    lemma_cat_assoc,
    lemma_cat_empty,
}

/// The items of a list with one more item.
pub proof fn lemma_push_to_set<T>(s: Seq<T>, x: T)
    ensures
        s.push(x).to_set() == s.to_set().insert(x),
{
    assert forall|y: T| #[trigger]
        s.push(x).to_set().contains(y) <==> s.to_set().insert(x).contains(y) by {
        if s.contains(y) {
            let k = choose|k: int| 0 <= k < s.len() && s[k] == y;
            assert(s.push(x)[k] == y);
        }
        assert(s.push(x)[s.len() as int] == x);
        if s.push(x).contains(y) && y != x {
            let k = choose|k: int| 0 <= k < s.push(x).len() && s.push(x)[k] == y;
            assert(s[k] == y);
        }
    }
    assert(s.push(x).to_set() =~= s.to_set().insert(x));
}

/// The texts of a list of strings.
pub open spec fn texts(v: Seq<String>) -> Seq<Seq<char>> {
    Seq::new(v.len(), |i: int| v[i]@)
}

/// The text of an optional string.
pub open spec fn opt_text(o: Option<String>) -> Option<Seq<char>> {
    match o {
        Some(s) => Some(s@),
        None => None,
    }
}

/// `unit` written `n` times.
pub open spec fn repeated(unit: Seq<char>, n: nat) -> Seq<char>
    decreases n,
{
    if n == 0 {
        Seq::empty()
    } else {
        repeated(unit, (n - 1) as nat) + unit
    }
}

/// The texts of `parts` one after another, with `sep` between neighbours.
pub open spec fn joined(parts: Seq<Seq<char>>, sep: Seq<char>) -> Seq<char>
    decreases parts.len(),
{
    if parts.len() == 0 {
        Seq::empty()
    } else if parts.len() == 1 {
        parts[0]
    } else {
        joined(parts.drop_last(), sep) + sep + parts.last()
    }
}

/// The texts of `parts` one after another.
pub open spec fn concatenated(parts: Seq<Seq<char>>) -> Seq<char>
    decreases parts.len(),
{
    if parts.len() == 0 {
        Seq::empty()
    } else {
        concatenated(parts.drop_last()) + parts.last()
    }
}

/// The number of bytes `t` takes in UTF-8, as a machine word.
pub open spec fn byte_len(t: Seq<char>) -> usize {
    encode_utf8(t).len() as usize
}

/// `n + 1`, staying at the largest machine word once it is reached.
pub open spec fn inc(n: usize) -> usize {
    if n < usize::MAX {
        (n + 1) as usize
    } else {
        n
    }
}

/// The next counter value; see the specification function of the same meaning.
pub fn next_of(n: usize) -> (r: usize)
    ensures
        r == inc(n),
{
    if n < usize::MAX {
        n + 1
    } else {
        n
    }
}

/// `n`, or the largest machine word where `n` is beyond it.
pub open spec fn clamp(n: nat) -> usize {
    if n <= usize::MAX {
        n as usize
    } else {
        usize::MAX
    }
}

/// The sum of two counts, or the largest machine word where it does not fit.
pub fn sat_sum(a: usize, b: usize) -> (r: usize)
    ensures
        r == clamp((a + b) as nat),
{
    if b <= usize::MAX - a {
        a + b
    } else {
        usize::MAX
    }
}

/// The string literal for one decimal digit.
fn digit_str(d: u128) -> (r: &'static str)
    requires
        d < 10,
    ensures
        r@ == seq![digit_char(d as nat)],
{
    proof {
        reveal_strlit("0");
        reveal_strlit("1");
        reveal_strlit("2");
        reveal_strlit("3");
        reveal_strlit("4");
        reveal_strlit("5");
        reveal_strlit("6");
        reveal_strlit("7");
        reveal_strlit("8");
        reveal_strlit("9");
    }
    let r = match d {
        0 => "0",
        1 => "1",
        2 => "2",
        3 => "3",
        4 => "4",
        5 => "5",
        6 => "6",
        7 => "7",
        8 => "8",
        _ => "9",
    };
    assert(r@ =~= seq![digit_char(d as nat)]);
    r
}

/// Appends the decimal spelling of `n` to `out`.
pub fn push_dec(out: &mut String, n: u128)
    ensures
        final(out)@ == old(out)@ + dec(n as nat),
    decreases n,
{
    if n < 10 {
        out.append(digit_str(n));
    } else {
        push_dec(out, n / 10);
        let ghost mid = out@;
        out.append(digit_str(n % 10));
        proof {
            assert(dec(n as nat) =~= dec((n / 10) as nat) + seq![digit_char((n % 10) as nat)]);
            assert(out@ =~= old(out)@ + dec(n as nat));
        }
    }
}

/// An owned copy of `s`.
pub fn lit(s: &str) -> (r: String)
    ensures
        r@ == s@,
{
    String::from_str(s)
}

/// A line of text under construction.
pub struct Buf {
    text: String,
}

impl View for Buf {
    type V = Seq<char>;

    closed spec fn view(&self) -> Seq<char> {
        self.text@
    }
}

impl Buf {
    /// Starts with a copy of `s`.
    pub fn lit(s: &str) -> (r: Buf)
        ensures
            r@ == s@,
    {
        Buf { text: String::from_str(s) }
    }

    /// Starts with the decimal spelling of `n`.
    pub fn num(n: u64) -> (r: Buf)
        ensures
            r@ == dec(n as nat),
    {
        let mut text = String::new();
        push_dec(&mut text, n as u128);
        proof {
            assert(Seq::<char>::empty() + dec(n as nat) =~= dec(n as nat));
        }
        Buf { text }
    }

    /// Appends `t`.
    pub fn s(self, t: &str) -> (r: Buf)
        ensures
            r@ == self@ + t@,
    {
        let mut text = self.text;
        text.append(t);
        Buf { text }
    }

    /// Appends the decimal spelling of `n`.
    pub fn n(self, n: u64) -> (r: Buf)
        ensures
            r@ == self@ + dec(n as nat),
    {
        let mut text = self.text;
        push_dec(&mut text, n as u128);
        Buf { text }
    }

    /// Appends the decimal spelling of a 32-bit number.
    pub fn n32(self, n: u32) -> (r: Buf)
        ensures
            r@ == self@ + dec32(n),
    {
        self.n(n as u64)
    }

    /// Appends the decimal spelling of a wide number.
    pub fn wide(self, n: u128) -> (r: Buf)
        ensures
            r@ == self@ + dec(n as nat),
    {
        let mut text = self.text;
        push_dec(&mut text, n);
        Buf { text }
    }

    /// The finished text.
    pub fn end(self) -> (r: String)
        ensures
            r@ == self@,
    {
        self.text
    }
}

/// The decimal spelling of a signed number.
pub fn signed(n: i64) -> (r: String)
    ensures
        r@ == signed_dec(n as int),
{
    if n < 0 {
        if n == i64::MIN {
            Buf::lit("-").n(9223372036854775808u64 as u64).end()
        } else {
            Buf::lit("-").n((-n) as u64).end()
        }
    } else {
        Buf::num(n as u64).end()
    }
}

/// A list of text lines under construction.
pub struct Lines {
    pub v: Vec<String>,
}

impl View for Lines {
    type V = Seq<Seq<char>>;

    open spec fn view(&self) -> Seq<Seq<char>> {
        texts(self.v@)
    }
}

impl Lines {
    /// No lines.
    pub fn new() -> (r: Lines)
        ensures
            r@ == Seq::<Seq<char>>::empty(),
    {
        let r = Lines { v: Vec::new() };
        assert(r@ =~= Seq::<Seq<char>>::empty());
        r
    }

    /// Appends the line `s`.
    pub fn add(&mut self, s: String)
        ensures
            final(self)@ == old(self)@.push(s@),
    {
        self.v.push(s);
        assert(self@ =~= old(self)@.push(s@));
    }

    /// Appends a copy of the line `s`.
    pub fn lit(&mut self, s: &str)
        ensures
            final(self)@ == old(self)@.push(s@),
    {
        self.add(lit(s));
    }

    /// Appends every line of `other`.
    pub fn extend(&mut self, other: Lines)
        ensures
            final(self)@ == old(self)@ + other@,
    {
        let mut v = other.v;
        self.v.append(&mut v);
        assert(self@ =~= old(self)@ + other@);
    }
}

/// The characters of `s`.
pub fn chars_of(s: &str) -> (r: Vec<char>)
    ensures
        r@ == s@,
{
    let mut r: Vec<char> = Vec::new();
    for c in it: s.chars()
        invariant
            it.seq() == s@,
            r@ == s@.take(it.index() as int),
    {
        assert(s@.take(it.index() as int + 1) =~= s@.take(it.index() as int).push(c));
        r.push(c);
    }
    assert(s@.take(s@.len() as int) =~= s@);
    r
}

/// Collects characters into a string with `String::from_iter`: the result holds
/// exactly the given characters, in order.
#[verifier::external_body]
pub(crate) fn string_of(chars: &Vec<char>) -> (r: String)
    ensures
        r@ == chars@,
{
    String::from_iter(chars)
}

/// Whether two texts are the same.
pub fn same(a: &str, b: &str) -> (r: bool)
    ensures
        r == (a@ == b@),
{
    let x = a.as_bytes();
    let y = b.as_bytes();
    proof {
        encode_utf8_decode_utf8(a@);
        encode_utf8_decode_utf8(b@);
    }
    if x.len() != y.len() {
        return false;
    }
    let mut i: usize = 0;
    while i < x.len()
        invariant
            x@.len() == y@.len(),
            i <= x@.len(),
            x@ == encode_utf8(a@),
            y@ == encode_utf8(b@),
            forall|j: int| 0 <= j < i ==> x@[j] == y@[j],
        decreases x@.len() - i,
    {
        if x[i] != y[i] {
            return false;
        }
        i += 1;
    }
    assert(x@ =~= y@);
    true
}

/// `unit` written `n` times.
pub fn repeat(unit: &str, n: usize) -> (r: String)
    ensures
        r@ == repeated(unit@, n as nat),
{
    let mut r = String::new();
    let mut i: usize = 0;
    while i < n
        invariant
            i <= n,
            r@ == repeated(unit@, i as nat),
        decreases n - i,
    {
        r.append(unit);
        i += 1;
    }
    r
}

/// The parts one after another with `sep` between them.
pub fn join(parts: &Vec<String>, sep: &str) -> (r: String)
    ensures
        r@ == joined(texts(parts@), sep@),
{
    let mut r = String::new();
    let mut i: usize = 0;
    assert(texts(parts@).take(0) =~= Seq::<Seq<char>>::empty());
    while i < parts.len()
        invariant
            i <= parts@.len(),
            r@ == joined(texts(parts@).take(i as int), sep@),
        decreases parts@.len() - i,
    {
        let ghost now = texts(parts@).take(i + 1);
        assert(now.drop_last() =~= texts(parts@).take(i as int));
        assert(now.last() == parts@[i as int]@);
        if i > 0 {
            r.append(sep);
        }
        r.append(parts[i].as_str());
        proof {
            if i == 0 {
                assert(r@ =~= now[0]);
            }
        }
        i += 1;
    }
    assert(texts(parts@).take(parts@.len() as int) =~= texts(parts@));
    r
}

// ---------------------------------------------------------------------------
// Lines of a text
// ---------------------------------------------------------------------------
/// The position of the first line feed from `i` on, the end where there is none.
pub open spec fn line_end(t: Seq<char>, i: int) -> int
    decreases t.len() - i,
{
    if i >= t.len() || t[i] == '\n' {
        i
    } else {
        line_end(t, i + 1)
    }
}

/// The line from `i` to `k`. A carriage return in front of the line feed belongs
/// to the line ending.
pub open spec fn line_at(t: Seq<char>, i: int, k: int) -> Seq<char> {
    if k < t.len() && k > i && t[k - 1] == '\r' {
        t.subrange(i, k - 1)
    } else {
        t.subrange(i, k)
    }
}

/// The lines of a text from `i` on. The last line ending is optional.
pub open spec fn lines_from(t: Seq<char>, i: int) -> Seq<Seq<char>>
    decreases t.len() - i,
{
    if i < 0 || i >= t.len() {
        Seq::empty()
    } else {
        let k = line_end(t, i);
        let line = Seq::empty().push(line_at(t, i, k));
        if i <= k < t.len() {
            line + lines_from(t, k + 1)
        } else {
            line
        }
    }
}

/// The lines of a text.
pub open spec fn text_lines(t: Seq<char>) -> Seq<Seq<char>> {
    lines_from(t, 0)
}

/// The lines of a text.
pub fn split_lines(text: &str) -> (r: Lines)
    ensures
        r@ == text_lines(text@),
{
    let t = chars_of(text);
    let ghost all = text_lines(text@);
    let mut out = Lines::new();
    let mut i: usize = 0;
    let n: usize = t.len();
    assert(out@ + lines_from(t@, 0) =~= all);
    while i < n
        invariant
            n == t@.len(),
            t@ == text@,
            all == text_lines(text@),
            out@ + lines_from(t@, i as int) =~= all,
        decreases n - i,
    {
        let mut k: usize = i;
        while k < n && t[k] != '\n'
            invariant
                i <= k <= n,
                n == t@.len(),
                line_end(t@, i as int) == line_end(t@, k as int),
            decreases n - k,
        {
            k += 1;
        }
        let end: usize = if k < n && k > i && t[k - 1] == '\r' {
            k - 1
        } else {
            k
        };
        let mut line: Vec<char> = Vec::new();
        let mut j: usize = i;
        while j < end
            invariant
                i <= j <= end <= n,
                n == t@.len(),
                line@ =~= t@.subrange(i as int, j as int),
            decreases end - j,
        {
            line.push(t[j]);
            j += 1;
        }
        let ghost before = out@;
        let text_line = string_of(&line);
        out.add(text_line);
        proof {
            assert(lines_from(t@, i as int) =~= Seq::empty().push(text_line@) + lines_from(
                t@,
                k + 1,
            ));
            assert(before + (Seq::empty().push(text_line@) + lines_from(t@, k + 1))
                =~= before.push(text_line@) + lines_from(t@, k + 1));
        }
        if k == n {
            assert(out@ =~= all);
            return out;
        }
        i = k + 1;
    }
    assert(out@ =~= all);
    out
}

// ---------------------------------------------------------------------------
// Sets of names
// ---------------------------------------------------------------------------
/// A set of names that can be gone through.
pub struct NameSet {
    pub v: Vec<String>,
}

impl View for NameSet {
    type V = Set<Seq<char>>;

    open spec fn view(&self) -> Set<Seq<char>> {
        texts(self.v@).to_set()
    }
}

impl NameSet {
    /// No names.
    pub fn new() -> (r: NameSet)
        ensures
            r@ == Set::<Seq<char>>::empty(),
    {
        let r = NameSet { v: Vec::new() };
        assert(r@ =~= Set::<Seq<char>>::empty());
        r
    }

    /// Whether `name` is among the names.
    pub fn contains(&self, name: &str) -> (r: bool)
        ensures
            r == self@.contains(name@),
    {
        let ghost all = texts(self.v@);
        let mut i: usize = 0;
        while i < self.v.len()
            invariant
                i <= self.v@.len(),
                all == texts(self.v@),
                forall|k: int| 0 <= k < i ==> #[trigger] all[k] != name@,
            decreases self.v@.len() - i,
        {
            if same(self.v[i].as_str(), name) {
                assert(all[i as int] == name@);
                assert(all.contains(name@));
                return true;
            }
            i += 1;
        }
        false
    }

    /// Adds a name.
    pub fn insert(&mut self, name: &str)
        ensures
            final(self)@ == old(self)@.insert(name@),
    {
        if self.contains(name) {
            assert(self@.insert(name@) =~= self@);
            return;
        }
        let ghost before = texts(self.v@);
        let copy = lit(name);
        self.v.push(copy);
        proof {
            assert(texts(self.v@) =~= before.push(name@));
            lemma_push_to_set(before, name@);
        }
    }

    /// Adds all names of another set.
    pub fn extend(&mut self, other: &NameSet)
        ensures
            final(self)@ == old(self)@.union(other@),
    {
        let ghost start = self@;
        let ghost all = texts(other.v@);
        let mut i: usize = 0;
        assert(self@ =~= start.union(all.take(0).to_set()));
        while i < other.v.len()
            invariant
                i <= other.v@.len(),
                all == texts(other.v@),
                self@ == start.union(all.take(i as int).to_set()),
            decreases other.v@.len() - i,
        {
            self.insert(other.v[i].as_str());
            proof {
                assert(all.take(i + 1) =~= all.take(i as int).push(all[i as int]));
                lemma_push_to_set(all.take(i as int), all[i as int]);
                assert(self@ =~= start.union(all.take(i + 1).to_set()));
            }
            i += 1;
        }
        assert(all.take(all.len() as int) =~= all);
    }
}

} // verus!
