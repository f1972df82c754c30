//! Text as sequences of characters: the operations the other modules use, each stated over
//! `Seq<char>`.
use vstd::prelude::*;
use vstd::utf8::*;

verus! {

/// `String::push` appends one character.
pub assume_specification[ String::push ](s: &mut String, c: char)
    ensures
        final(s)@ == old(s)@.push(c),
;

/// `String::push_str` appends a whole string.
pub assume_specification[ String::push_str ](s: &mut String, other: &str)
    ensures
        final(s)@ == old(s)@ + other@,
;

/// The characters of `s`, in order.
pub fn chars_of(s: &str) -> (r: Vec<char>)
    ensures
        r@ == s@,
{
    let mut r: Vec<char> = Vec::new();
    for c in it: s.chars()
        invariant
            r@ == it.seq().take(it.index() as int),
            it.seq() == s@,
    {
        proof {
            assert(it.seq().take(it.index() as int).push(c) =~= it.seq().take(it.index() + 1));
        }
        r.push(c);
    }
    assert(r@ =~= s@);
    r
}

/// The string made of the characters of `v` from `from` up to, not with, `to`.
pub fn string_of(v: &Vec<char>, from: usize, to: usize) -> (r: String)
    requires
        from <= to <= v@.len(),
    ensures
        r@ == v@.subrange(from as int, to as int),
{
    let mut r = String::new();
    let mut i: usize = from;
    while i < to
        invariant
            from <= i <= to <= v@.len(),
            r@ == v@.subrange(from as int, i as int),
        decreases to - i,
    {
        r.push(v[i]);
        i += 1;
        assert(r@ =~= v@.subrange(from as int, i as int));
    }
    r
}

/// Whether two strings hold the same characters.
pub fn same(a: &str, b: &str) -> (r: bool)
    ensures
        r == (a@ == b@),
{
    let x = chars_of(a);
    let y = chars_of(b);
    if x.len() != y.len() {
        return false;
    }
    let mut i: usize = 0;
    while i < x.len()
        invariant
            i <= x@.len(),
            x@.len() == y@.len(),
            x@ == a@,
            y@ == b@,
            forall|k: int| 0 <= k < i ==> x@[k] == y@[k],
        decreases x@.len() - i,
    {
        if x[i] != y[i] {
            return false;
        }
        i += 1;
    }
    assert(a@ =~= b@);
    true
}

/// Unicode's `White_Space` characters, which is what `char::is_whitespace` accepts.
pub open spec fn is_space(c: char) -> bool {
    let u = c as u32;
    ||| 0x9 <= u <= 0xD
    ||| u == 0x20
    ||| u == 0x85
    ||| u == 0xA0
    ||| u == 0x1680
    ||| 0x2000 <= u <= 0x200A
    ||| u == 0x2028
    ||| u == 0x2029
    ||| u == 0x202F
    ||| u == 0x205F
    ||| u == 0x3000
}

pub open spec fn is_digit(c: char) -> bool {
    '0' <= c <= '9'
}

/// The classes of characters that text is stripped of.
#[derive(Clone, Copy)]
pub enum CharClass {
    /// White space.
    Space,
    /// One given character.
    Only(char),
    /// What opens a line of a list: digits, dots, dashes, stars and blanks.
    ListMark,
    /// Quotation marks and backticks.
    Quote,
    /// Quotation marks, backticks and full stops.
    QuoteOrDot,
}

impl CharClass {
    /// Whether the class has `c`.
    pub open spec fn has(self, c: char) -> bool {
        match self {
            CharClass::Space => is_space(c),
            CharClass::Only(x) => c == x,
            CharClass::ListMark => is_digit(c) || c == '.' || c == '-' || c == '*' || c == ' ',
            CharClass::Quote => c == '"' || c == '\'' || c == '`',
            CharClass::QuoteOrDot => c == '"' || c == '\'' || c == '`' || c == '.',
        }
    }

    /// Whether the class has `c`.
    pub fn holds(self, c: char) -> (r: bool)
        ensures
            r == self.has(c),
    {
        match self {
            CharClass::Space => char_is_space(c),
            CharClass::Only(x) => c == x,
            CharClass::ListMark => ('0' <= c && c <= '9') || c == '.' || c == '-' || c == '*' || c
                == ' ',
            CharClass::Quote => c == '"' || c == '\'' || c == '`',
            CharClass::QuoteOrDot => c == '"' || c == '\'' || c == '`' || c == '.',
        }
    }
}

/// Whether `c` is white space.
pub fn char_is_space(c: char) -> (r: bool)
    ensures
        r == is_space(c),
{
    let u: u32 = c as u32;
    (0x9 <= u && u <= 0xD) || u == 0x20 || u == 0x85 || u == 0xA0 || u == 0x1680 || (0x2000 <= u
        && u <= 0x200A) || u == 0x2028 || u == 0x2029 || u == 0x202F || u == 0x205F || u == 0x3000
}

/// `s` without the characters of `class` that it begins with.
pub open spec fn strip_start(s: Seq<char>, class: CharClass) -> Seq<char>
    decreases s.len(),
{
    if s.len() > 0 && class.has(s[0]) {
        strip_start(s.drop_first(), class)
    } else {
        s
    }
}

/// `s` without the characters of `class` that it ends with.
pub open spec fn strip_end(s: Seq<char>, class: CharClass) -> Seq<char>
    decreases s.len(),
{
    if s.len() > 0 && class.has(s.last()) {
        strip_end(s.drop_last(), class)
    } else {
        s
    }
}

/// `s` without the white space at its two ends.
pub open spec fn trim(s: Seq<char>) -> Seq<char> {
    strip_end(strip_start(s, CharClass::Space), CharClass::Space)
}

/// How many characters of `v` to skip so that what is left does not begin with one of `class`.
fn start_without(v: &Vec<char>, class: CharClass) -> (r: usize)
    ensures
        r <= v@.len(),
        v@.subrange(r as int, v@.len() as int) == strip_start(v@, class),
{
    let mut i: usize = 0;
    assert(v@.subrange(0, v@.len() as int) =~= v@);
    while i < v.len() && class.holds(v[i])
        invariant
            i <= v@.len(),
            strip_start(v@.subrange(i as int, v@.len() as int), class) == strip_start(v@, class),
        decreases v@.len() - i,
    {
        assert(v@.subrange(i as int, v@.len() as int).drop_first() =~= v@.subrange(
            i + 1,
            v@.len() as int,
        ));
        i += 1;
    }
    i
}

/// How far `v` reaches from `from` on when it is not to end with a character of `class`.
fn end_without(v: &Vec<char>, from: usize, class: CharClass) -> (r: usize)
    requires
        from <= v@.len(),
    ensures
        from <= r <= v@.len(),
        v@.subrange(from as int, r as int) == strip_end(
            v@.subrange(from as int, v@.len() as int),
            class,
        ),
{
    let mut i: usize = v.len();
    while from < i && class.holds(v[i - 1])
        invariant
            from <= i <= v@.len(),
            strip_end(v@.subrange(from as int, i as int), class) == strip_end(
                v@.subrange(from as int, v@.len() as int),
                class,
            ),
        decreases i,
    {
        assert(v@.subrange(from as int, i as int).drop_last() =~= v@.subrange(
            from as int,
            i - 1,
        ));
        i -= 1;
    }
    i
}

/// `s` without the white space at its two ends.
pub fn trim_text(s: &str) -> (r: String)
    ensures
        r@ == trim(s@),
{
    strip_both(s, CharClass::Space)
}

/// `s` without the characters of `class` at its two ends.
pub fn strip_both(s: &str, class: CharClass) -> (r: String)
    ensures
        r@ == strip_end(strip_start(s@, class), class),
{
    let v = chars_of(s);
    let from: usize = start_without(&v, class);
    let to: usize = end_without(&v, from, class);
    string_of(&v, from, to)
}

/// `s` without the characters of `class` that it begins with.
pub fn strip_start_text(s: &str, class: CharClass) -> (r: String)
    ensures
        r@ == strip_start(s@, class),
{
    let v = chars_of(s);
    let from: usize = start_without(&v, class);
    let to: usize = v.len();
    string_of(&v, from, to)
}

/// `s` without the characters of `class` that it ends with.
pub fn strip_end_text(s: &str, class: CharClass) -> (r: String)
    ensures
        r@ == strip_end(s@, class),
{
    let v = chars_of(s);
    assert(v@.subrange(0, v@.len() as int) =~= v@);
    let to: usize = end_without(&v, 0, class);
    string_of(&v, 0, to)
}

/// Whether `p` stands in `s` at position `i`.
pub open spec fn occurs_at(s: Seq<char>, p: Seq<char>, i: int) -> bool {
    0 <= i && i + p.len() <= s.len() && s.subrange(i, i + p.len()) == p
}

/// The first position in `s`, from `i` on, at which `p` stands.
pub open spec fn find_from(s: Seq<char>, p: Seq<char>, i: int) -> Option<int>
    decreases s.len() + 1 - i,
{
    if i < 0 || i + p.len() > s.len() {
        None
    } else if occurs_at(s, p, i) {
        Some(i)
    } else {
        find_from(s, p, i + 1)
    }
}

/// The first position at which `p` stands in `s`.
pub open spec fn find(s: Seq<char>, p: Seq<char>) -> Option<int> {
    find_from(s, p, 0)
}

/// Whether `p` stands somewhere in `s`.
pub open spec fn contains(s: Seq<char>, p: Seq<char>) -> bool {
    exists|i: int| occurs_at(s, p, i)
}

/// What `find_from` gives: the least position from `i` on, if there is one.
pub proof fn lemma_find_from(s: Seq<char>, p: Seq<char>, i: int)
    requires
        0 <= i,
    ensures
        match find_from(s, p, i) {
            Some(k) => i <= k && occurs_at(s, p, k) && forall|j: int|
                i <= j < k ==> !occurs_at(s, p, j),
            None => forall|j: int| i <= j ==> !occurs_at(s, p, j),
        },
    decreases s.len() + 1 - i,
{
    if i + p.len() <= s.len() && !occurs_at(s, p, i) {
        lemma_find_from(s, p, i + 1);
    }
}

/// Whether `p` stands in `v` at position `i`.
pub fn occurs(v: &Vec<char>, p: &Vec<char>, i: usize) -> (r: bool)
    ensures
        r == occurs_at(v@, p@, i as int),
{
    if i > v.len() || p.len() > v.len() - i {
        return false;
    }
    let mut k: usize = 0;
    while k < p.len()
        invariant
            k <= p@.len(),
            i + p.len() <= v.len(),
            forall|j: int| 0 <= j < k ==> v@[i + j] == p@[j],
        decreases p@.len() - k,
    {
        if v[i + k] != p[k] {
            assert(v@.subrange(i as int, i + p@.len())[k as int] != p@[k as int]);
            return false;
        }
        k += 1;
    }
    assert(v@.subrange(i as int, i + p@.len()) =~= p@);
    true
}

/// The first position in `v`, from `from` on, at which `p` stands.
pub fn find_chars(v: &Vec<char>, p: &Vec<char>, from: usize) -> (r: Option<usize>)
    ensures
        match r {
            Some(k) => find_from(v@, p@, from as int) == Some(k as int) && k + p@.len() <= v.len(),
            None => find_from(v@, p@, from as int) is None,
        },
{
    let mut i: usize = from;
    while i <= v.len() && p.len() <= v.len() - i
        invariant
            from <= i,
            find_from(v@, p@, i as int) == find_from(v@, p@, from as int),
        decreases v@.len() + 1 - i,
    {
        if occurs(v, p, i) {
            return Some(i);
        }
        if i == v.len() {
            assert(find_from(v@, p@, i + 1) is None);
            return None;
        }
        i += 1;
    }
    None
}

/// Whether `p` stands somewhere in `s`.
pub fn contains_text(s: &str, p: &str) -> (r: bool)
    ensures
        r == contains(s@, p@),
{
    let v = chars_of(s);
    let q = chars_of(p);
    proof {
        lemma_find_from(s@, p@, 0);
    }
    find_chars(&v, &q, 0).is_some()
}

/// Whether `s` begins with `p`.
pub fn starts_with(s: &str, p: &str) -> (r: bool)
    ensures
        r == p@.is_prefix_of(s@),
{
    let v = chars_of(s);
    let q = chars_of(p);
    occurs(&v, &q, 0)
}

/// Whether `s` ends with `p`.
pub fn ends_with(s: &str, p: &str) -> (r: bool)
    ensures
        r == p@.is_suffix_of(s@),
{
    let v = chars_of(s);
    let q = chars_of(p);
    if q.len() > v.len() {
        return false;
    }
    occurs(&v, &q, v.len() - q.len())
}

/// What follows `p` in `s`, where `s` begins with `p`.
pub fn after_prefix(s: &str, p: &str) -> (r: Option<String>)
    ensures
        match r {
            Some(t) => p@.is_prefix_of(s@) && t@ == s@.skip(p@.len() as int),
            None => !p@.is_prefix_of(s@),
        },
{
    let v = chars_of(s);
    let q = chars_of(p);
    if occurs(&v, &q, 0) {
        Some(string_of(&v, q.len(), v.len()))
    } else {
        None
    }
}

/// `s` with `r` in the place of every `p`, read from the left; `p` is not empty.
pub open spec fn replace(s: Seq<char>, p: Seq<char>, r: Seq<char>) -> Seq<char>
    decreases s.len(),
{
    if p.len() == 0 || s.len() < p.len() {
        s
    } else if p.is_prefix_of(s) {
        r + replace(s.skip(p.len() as int), p, r)
    } else {
        seq![s[0]] + replace(s.skip(1), p, r)
    }
}

/// Text that does not hold `p` is left as it is by `replace`.
pub proof fn lemma_replace_absent(s: Seq<char>, p: Seq<char>, r: Seq<char>)
    requires
        !contains(s, p),
    ensures
        replace(s, p, r) == s,
    decreases s.len(),
{
    if p.len() > 0 && s.len() >= p.len() {
        assert(!occurs_at(s, p, 0));
        assert forall|i: int| !occurs_at(s.skip(1), p, i) by {
            if occurs_at(s.skip(1), p, i) {
                assert(s.subrange(i + 1, i + 1 + p.len()) =~= s.skip(1).subrange(i, i + p.len()));
                assert(occurs_at(s, p, i + 1));
            }
        }
        lemma_replace_absent(s.skip(1), p, r);
        assert(seq![s[0]] + s.skip(1) =~= s);
    }
}

/// `s` with `to` in the place of every `p`.
pub fn replace_text(s: &str, p: &str, to: &str) -> (out: String)
    requires
        p@.len() > 0,
    ensures
        out@ == replace(s@, p@, to@),
{
    let v = chars_of(s);
    let q = chars_of(p);
    let mut out = String::new();
    let mut i: usize = 0;
    assert(v@.skip(0) =~= s@);
    assert(out@ + replace(v@.skip(0), p@, to@) =~= replace(s@, p@, to@));
    while i < v.len()
        invariant
            i <= v@.len(),
            v@ == s@,
            q@ == p@,
            p@.len() > 0,
            out@ + replace(v@.skip(i as int), p@, to@) == replace(s@, p@, to@),
        decreases v@.len() - i,
    {
        let ghost rest = v@.skip(i as int);
        let ghost before = out@;
        if occurs(&v, &q, i) {
            assert(rest.take(p@.len() as int) =~= v@.subrange(i as int, i + p@.len()));
            assert(p@.is_prefix_of(rest));
            out.push_str(to);
            assert(rest.skip(p@.len() as int) =~= v@.skip(i + p@.len()));
            assert(out@ + replace(v@.skip(i + p@.len()), p@, to@) =~= before + replace(
                rest,
                p@,
                to@,
            ));
            i += q.len();
        } else {
            proof {
                if p@.is_prefix_of(rest) {
                    assert(v@.subrange(i as int, i + p@.len()) =~= p@);
                }
                if rest.len() < p@.len() {
                    assert(rest =~= seq![rest[0]] + rest.skip(1));
                }
            }
            out.push(v[i]);
            assert(rest.skip(1) =~= v@.skip(i + 1));
            assert(out@ + replace(v@.skip(i + 1), p@, to@) =~= before + replace(rest, p@, to@));
            i += 1;
        }
    }
    assert(v@.skip(i as int) =~= Seq::<char>::empty());
    assert(out@ + Seq::<char>::empty() =~= out@);
    out
}

/// The parts, with `sep` between each two.
pub open spec fn join(parts: Seq<Seq<char>>, sep: Seq<char>) -> Seq<char>
    decreases parts.len(),
{
    if parts.len() == 0 {
        Seq::empty()
    } else if parts.len() == 1 {
        parts[0]
    } else {
        join(parts.drop_last(), sep) + sep + parts.last()
    }
}

/// The views of the strings of `v`.
pub open spec fn texts(v: Seq<String>) -> Seq<Seq<char>> {
    v.map_values(|s: String| s@)
}

/// The parts, with `sep` between each two.
pub fn join_texts(parts: &Vec<String>, sep: &str) -> (r: String)
    ensures
        r@ == join(texts(parts@), sep@),
{
    let mut r = String::new();
    let mut i: usize = 0;
    while i < parts.len()
        invariant
            i <= parts@.len(),
            r@ == join(texts(parts@).take(i as int), sep@),
        decreases parts@.len() - i,
    {
        let ghost now = texts(parts@).take(i + 1);
        assert(now.drop_last() =~= texts(parts@).take(i as int));
        if i > 0 {
            r.push_str(sep);
        }
        r.push_str(parts[i].as_str());
        assert(i == 0 ==> r@ =~= parts@[0]@);
        i += 1;
    }
    assert(texts(parts@).take(i as int) =~= texts(parts@));
    r
}

/// The decimal digit for `d`, which is below ten.
pub open spec fn digit(d: nat) -> char {
    (48 + d) as char
}

/// `n` in decimal.
pub open spec fn decimal(n: nat) -> Seq<char>
    decreases n,
{
    if n < 10 {
        seq![digit(n)]
    } else {
        decimal(n / 10).push(digit(n % 10))
    }
}

/// `n` in decimal.
pub fn decimal_text(n: u64) -> (r: String)
    ensures
        r@ == decimal(n as nat),
    decreases n,
{
    let d: u8 = 48u8 + (n % 10) as u8;
    if n < 10 {
        let mut r = String::new();
        r.push(d as char);
        assert(r@ =~= decimal(n as nat));
        r
    } else {
        let mut r = decimal_text(n / 10);
        r.push(d as char);
        r
    }
}

/// The number that the decimal digits of `s` write.
pub open spec fn decimal_value(s: Seq<char>) -> nat
    decreases s.len(),
{
    if s.len() == 0 {
        0
    } else {
        (decimal_value(s.drop_last()) * 10 + (s.last() as u32 - 48)) as nat
    }
}

pub open spec fn all_digits(s: Seq<char>) -> bool {
    forall|i: int| 0 <= i < s.len() ==> is_digit(#[trigger] s[i])
}

/// `s` without one plus sign at its front.
pub open spec fn without_plus(s: Seq<char>) -> Seq<char> {
    if s.len() > 0 && s[0] == '+' {
        s.skip(1)
    } else {
        s
    }
}

/// A number in decimal is made of digits, and is the value of these.
pub proof fn lemma_decimal(n: nat)
    ensures
        decimal(n).len() > 0,
        forall|i: int| 0 <= i < decimal(n).len() ==> '0' <= (#[trigger] decimal(n)[i]) <= '9',
        decimal_value(decimal(n)) == n,
    decreases n,
{
    let d = decimal(n);
    if n < 10 {
        assert(d.drop_last() =~= Seq::empty());
        assert(decimal_value(d.drop_last()) == 0);
    } else {
        lemma_decimal(n / 10);
        assert(d.drop_last() =~= decimal(n / 10));
    }
}

/// What `s` is as a `usize`: decimal digits, with a plus sign in front or not, in range.
pub open spec fn parsed_usize(s: Seq<char>) -> Option<usize> {
    let t = without_plus(s);
    if t.len() > 0 && all_digits(t) && decimal_value(t) <= usize::MAX {
        Some(decimal_value(t) as usize)
    } else {
        None
    }
}

proof fn lemma_decimal_value_grows(s: Seq<char>, k: int)
    requires
        0 <= k <= s.len(),
        all_digits(s),
    ensures
        decimal_value(s.take(k)) <= decimal_value(s),
    decreases s.len() - k,
{
    if k == s.len() {
        assert(s.take(k) =~= s);
    } else {
        assert(s.take(k + 1).drop_last() =~= s.take(k));
        assert(s.take(k + 1).last() == s[k]);
        assert(is_digit(s[k]));
        lemma_decimal_value_grows(s, k + 1);
    }
}

/// `s` read as a `usize`.
pub fn parse_usize(s: &str) -> (r: Option<usize>)
    ensures
        r == parsed_usize(s@),
{
    let v = chars_of(s);
    let from: usize = if v.len() > 0 && v[0] == '+' { 1 } else { 0 };
    let ghost t = without_plus(s@);
    assert(t =~= v@.skip(from as int));
    if v.len() == from {
        return None;
    }
    let mut i: usize = from;
    while i < v.len()
        invariant
            from <= i <= v@.len(),
            t == v@.skip(from as int),
            t == without_plus(s@),
            forall|k: int| from <= k < i ==> is_digit(#[trigger] v@[k]),
        decreases v@.len() - i,
    {
        if !('0' <= v[i] && v[i] <= '9') {
            assert(!is_digit(t[i - from]));
            return None;
        }
        i += 1;
    }
    let mut n: usize = 0;
    i = from;
    assert(all_digits(t));
    assert(t.take(0) =~= Seq::<char>::empty());
    while i < v.len()
        invariant
            from <= i <= v@.len(),
            t == v@.skip(from as int),
            t == without_plus(s@),
            t.len() > 0,
            all_digits(t),
            n == decimal_value(t.take(i - from)),
        decreases v@.len() - i,
    {
        let ghost k = i - from;
        assert(t[k] == v@[i as int]);
        assert(is_digit(t[k]));
        assert(t.take(k + 1).drop_last() =~= t.take(k));
        assert(t.take(k + 1).last() == t[k]);
        proof {
            lemma_decimal_value_grows(t, k + 1);
        }
        let d: usize = (v[i] as u32 - 48) as usize;
        match n.checked_mul(10) {
            None => {
                return None;
            },
            Some(m) => match m.checked_add(d) {
                None => {
                    return None;
                },
                Some(next) => {
                    n = next;
                },
            },
        }
        i += 1;
    }
    assert(t.take(i - from) =~= t);
    Some(n)
}

/// How many bytes `s` takes in UTF-8.
pub open spec fn byte_len(s: Seq<char>) -> nat {
    encode_utf8(s).len()
}

/// How many bytes `s` takes in UTF-8.
pub fn byte_len_of(s: &str) -> (r: usize)
    ensures
        r == byte_len(s@),
{
    s.as_bytes().len()
}

/// The bytes of two texts put together are the bytes of the one and then of the other.
pub proof fn lemma_encode_add(a: Seq<char>, b: Seq<char>)
    ensures
        encode_utf8(a + b) == encode_utf8(a) + encode_utf8(b),
    decreases a.len(),
{
    if a.len() == 0 {
        assert(a + b =~= b);
        assert(encode_utf8(a) + encode_utf8(b) =~= encode_utf8(b));
    } else {
        assert((a + b).drop_first() =~= a.drop_first() + b);
        lemma_encode_add(a.drop_first(), b);
        assert(encode_utf8(a + b) =~= encode_utf8(a) + encode_utf8(b));
    }
}

/// The text that `String::from_utf8_lossy` makes of some bytes: what is not UTF-8 in them becomes
/// the replacement character.
pub uninterp spec fn lossy_utf8(bytes: Seq<u8>) -> Seq<char>;

/// The text of some bytes, by `String::from_utf8_lossy`. Bytes that are UTF-8 throughout give just
/// the text they encode.
#[verifier::external_body]
pub(crate) fn lossy_text(bytes: &Vec<u8>) -> (r: String)
    ensures
        r@ == lossy_utf8(bytes@),
        valid_utf8(bytes@) ==> r@ == decode_utf8(bytes@),
{
    String::from_utf8_lossy(bytes).into_owned()
}

/// How many bytes a character takes in UTF-8.
pub open spec fn width(c: char) -> nat {
    encode_scalar(c as u32).len()
}

/// How many bytes a character takes in UTF-8.
pub fn width_of(c: char) -> (r: usize)
    ensures
        r == width(c),
        1 <= r <= 4,
{
    let u: u32 = c as u32;
    if u <= 0x7F {
        1
    } else if u <= 0x7FF {
        2
    } else if u <= 0xFFFF {
        3
    } else {
        4
    }
}

/// How many characters `s` can begin with when these take at most `n` bytes.
pub open spec fn fit_front(s: Seq<char>, n: int) -> nat
    decreases s.len(),
{
    if s.len() == 0 || width(s[0]) > n {
        0
    } else {
        1 + fit_front(s.drop_first(), n - width(s[0]))
    }
}

/// How many characters `s` can end with when these take at most `n` bytes.
pub open spec fn fit_back(s: Seq<char>, n: int) -> nat
    decreases s.len(),
{
    if s.len() == 0 || width(s.last()) > n {
        0
    } else {
        1 + fit_back(s.drop_last(), n - width(s.last()))
    }
}

/// The longest beginning of `s` that takes at most `n` bytes.
pub open spec fn front_within(s: Seq<char>, n: int) -> Seq<char> {
    s.take(fit_front(s, n) as int)
}

/// The longest end of `s` that takes at most `n` bytes.
pub open spec fn back_within(s: Seq<char>, n: int) -> Seq<char> {
    s.skip(s.len() - fit_back(s, n))
}

/// The beginning within a number of bytes is no longer than that, and no longer one would fit.
pub proof fn lemma_front_within(s: Seq<char>, n: int)
    requires
        0 <= n,
    ensures
        fit_front(s, n) <= s.len(),
        byte_len(front_within(s, n)) <= n,
        fit_front(s, n) < s.len() ==> byte_len(s.take(fit_front(s, n) as int + 1)) > n,
    decreases s.len(),
{
    if s.len() > 0 {
        let k = fit_front(s, n) as int;
        if width(s[0]) <= n {
            let rest = s.drop_first();
            let m = n - width(s[0]);
            lemma_front_within(rest, m);
            let j = fit_front(rest, m) as int;
            assert(s.take(k).drop_first() =~= rest.take(j));
            assert(encode_utf8(s.take(k)) == encode_scalar(s[0] as u32) + encode_utf8(
                rest.take(j),
            ));
            if k < s.len() {
                assert(s.take(k + 1).drop_first() =~= rest.take(j + 1));
                assert(encode_utf8(s.take(k + 1)) == encode_scalar(s[0] as u32) + encode_utf8(
                    rest.take(j + 1),
                ));
            }
        } else {
            assert(s.take(0) =~= Seq::<char>::empty());
            assert(s.take(1).drop_first() =~= Seq::<char>::empty());
            assert(encode_utf8(s.take(1)) == encode_scalar(s[0] as u32) + encode_utf8(
                Seq::<char>::empty(),
            ));
        }
    } else {
        assert(s.take(0) =~= Seq::<char>::empty());
    }
}

/// The end within a number of bytes is no longer than that.
pub proof fn lemma_back_within(s: Seq<char>, n: int)
    requires
        0 <= n,
    ensures
        fit_back(s, n) <= s.len(),
        byte_len(back_within(s, n)) <= n,
    decreases s.len(),
{
    if s.len() > 0 && width(s.last()) <= n {
        let rest = s.drop_last();
        let m = n - width(s.last());
        lemma_back_within(rest, m);
        let tail = rest.skip(rest.len() - fit_back(rest, m));
        assert(back_within(s, n) =~= tail + seq![s.last()]);
        let one = seq![s.last()];
        lemma_encode_add(tail, one);
        assert(one.drop_first() =~= Seq::<char>::empty());
        assert(encode_utf8(one) == encode_scalar(one[0] as u32) + encode_utf8(one.drop_first()));
        assert(encode_utf8(one.drop_first()) =~= Seq::<u8>::empty());
        assert(encode_utf8(one).len() == width(s.last()));
    } else {
        assert(back_within(s, n) =~= Seq::<char>::empty());
    }
}

/// The longest beginning of `s` that takes at most `n` bytes.
pub fn front_text(s: &str, n: usize) -> (r: String)
    ensures
        r@ == front_within(s@, n as int),
{
    let v = chars_of(s);
    let mut left: usize = n;
    let mut i: usize = 0;
    assert(v@.skip(0) =~= v@);
    while i < v.len() && width_of(v[i]) <= left
        invariant
            i <= v@.len(),
            v@ == s@,
            fit_front(s@, n as int) == i + fit_front(v@.skip(i as int), left as int),
        decreases v@.len() - i,
    {
        assert(v@.skip(i as int).drop_first() =~= v@.skip(i + 1));
        left = left - width_of(v[i]);
        i += 1;
    }
    string_of(&v, 0, i)
}

/// The longest end of `s` that takes at most `n` bytes.
pub fn back_text(s: &str, n: usize) -> (r: String)
    ensures
        r@ == back_within(s@, n as int),
{
    let v = chars_of(s);
    let mut left: usize = n;
    let mut i: usize = v.len();
    assert(v@.take(v@.len() as int) =~= v@);
    while i > 0 && width_of(v[i - 1]) <= left
        invariant
            i <= v@.len(),
            v@ == s@,
            fit_back(s@, n as int) == v@.len() - i + fit_back(v@.take(i as int), left as int),
        decreases i,
    {
        assert(v@.take(i as int).drop_last() =~= v@.take(i - 1));
        left = left - width_of(v[i - 1]);
        i -= 1;
    }
    string_of(&v, i, v.len())
}

/// A letter A to Z as its small letter; any other character as it is.
pub open spec fn ascii_small(c: char) -> char {
    if 'A' <= c <= 'Z' {
        ((c as u32) + 32) as char
    } else {
        c
    }
}

/// A letter a to z as its capital; any other character as it is.
pub open spec fn ascii_capital(c: char) -> char {
    if 'a' <= c <= 'z' {
        ((c as u32) - 32) as char
    } else {
        c
    }
}

/// The text that `str::to_lowercase` makes of a text.
pub uninterp spec fn lowercase(s: Seq<char>) -> Seq<char>;

/// The text that `str::to_uppercase` makes of a text.
pub uninterp spec fn uppercase(s: Seq<char>) -> Seq<char>;

/// Whether `char::is_alphanumeric` says that a character is a letter or a digit.
pub uninterp spec fn alphanumeric(c: char) -> bool;

/// A text in small letters, by `str::to_lowercase`. In ASCII text that changes just A to Z.
#[verifier::external_body]
pub(crate) fn lower_text(s: &str) -> (r: String)
    ensures
        r@ == lowercase(s@),
        is_ascii_chars(s@) ==> r@ == s@.map_values(|c: char| ascii_small(c)),
{
    s.to_lowercase()
}

/// A text in capitals, by `str::to_uppercase`. In ASCII text that changes just a to z.
#[verifier::external_body]
pub(crate) fn upper_text(s: &str) -> (r: String)
    ensures
        r@ == uppercase(s@),
        is_ascii_chars(s@) ==> r@ == s@.map_values(|c: char| ascii_capital(c)),
{
    s.to_uppercase()
}

/// Whether a character is a letter or a digit, by `char::is_alphanumeric`. In ASCII these are
/// A to Z, a to z and 0 to 9.
#[verifier::external_body]
pub(crate) fn char_is_alphanumeric(c: char) -> (r: bool)
    ensures
        r == alphanumeric(c),
        (c as u32) < 128 ==> r == ('A' <= c <= 'Z' || 'a' <= c <= 'z' || is_digit(c)),
{
    c.is_alphanumeric()
}

/// The hexadecimal digit for `d`, which is below sixteen.
pub open spec fn hex_digit(d: nat) -> char {
    if d < 10 {
        (48 + d) as char
    } else {
        (87 + d) as char
    }
}

/// `n` in hexadecimal.
pub open spec fn hex(n: nat) -> Seq<char>
    decreases n,
{
    if n < 16 {
        seq![hex_digit(n)]
    } else {
        hex(n / 16).push(hex_digit(n % 16))
    }
}

/// `s` with zeros in front, so that it has at least `n` characters.
pub open spec fn zero_padded(s: Seq<char>, n: nat) -> Seq<char> {
    if s.len() >= n {
        s
    } else {
        Seq::new((n - s.len()) as nat, |i: int| '0') + s
    }
}

/// `n` in hexadecimal.
pub fn hex_text(n: u64) -> (r: String)
    ensures
        r@ == hex(n as nat),
    decreases n,
{
    let d: u8 = (n % 16) as u8;
    let c: u8 = if d < 10 { 48u8 + d } else { 87u8 + d };
    if n < 16 {
        let mut r = String::new();
        r.push(c as char);
        assert(r@ =~= hex(n as nat));
        r
    } else {
        let mut r = hex_text(n / 16);
        r.push(c as char);
        r
    }
}

/// `n` in hexadecimal, with at least four digits.
pub fn hex4_text(n: u64) -> (r: String)
    ensures
        r@ == zero_padded(hex(n as nat), 4),
{
    let h = hex_text(n);
    let len: usize = chars_of(h.as_str()).len();
    let mut r = String::new();
    let mut i: usize = len;
    while i < 4
        invariant
            len <= i,
            len < 4 ==> i <= 4,
            len >= 4 ==> i == len,
            r@ == Seq::new((i - len) as nat, |i: int| '0'),
        decreases 4 - i,
    {
        r.push('0');
        i += 1;
        assert(r@ =~= Seq::new((i - len) as nat, |i: int| '0'));
    }
    r.push_str(h.as_str());
    assert(r@ =~= zero_padded(hex(n as nat), 4));
    r
}

/// A line without the carriage return that it ends in, if it does.
pub open spec fn unreturned(line: Seq<char>) -> Seq<char> {
    if line.len() > 0 && line.last() == '\r' {
        line.drop_last()
    } else {
        line
    }
}

/// The lines of a text: what line feeds part, without a carriage return before the line feed. What
/// follows the last line feed is a line unless it is empty.
pub open spec fn lines(s: Seq<char>) -> Seq<Seq<char>>
    decreases s.len(),
{
    match find(s, "\n"@) {
        Some(i) => {
            proof {
                reveal_strlit("\n");
                lemma_find_from(s, "\n"@, 0);
            }
            seq![unreturned(s.take(i))] + lines(s.skip(i + 1))
        },
        None => if s.len() == 0 {
            Seq::empty()
        } else {
            seq![s]
        },
    }
}

/// The lines of a text.
pub fn lines_of(s: &str) -> (r: Vec<String>)
    ensures
        texts(r@) == lines(s@),
{
    let v = chars_of(s);
    let mark = chars_of("\n");
    proof {
        reveal_strlit("\n");
    }
    let mut r: Vec<String> = Vec::new();
    let mut i: usize = 0;
    let ghost all = lines(s@);
    assert(v@.skip(0) =~= s@);
    assert(texts(r@) + lines(v@.skip(0)) =~= all);
    while i < v.len()
        invariant
            i <= v@.len(),
            mark@ == "\n"@,
            mark@.len() == 1,
            texts(r@) + lines(v@.skip(i as int)) == all,
        decreases v@.len() - i,
    {
        let ghost rest = v@.skip(i as int);
        let ghost before = texts(r@);
        let tail = string_of(&v, i, v.len());
        assert(tail@ =~= rest);
        let t = chars_of(tail.as_str());
        match find_chars(&t, &mark, 0) {
            Some(at) => {
                proof {
                    lemma_find_from(t@, mark@, 0);
                }
                let end: usize = if at > 0 && v[i + at - 1] == '\r' {
                    i + at - 1
                } else {
                    i + at
                };
                let line = string_of(&v, i, end);
                assert(line@ =~= unreturned(rest.take(at as int)));
                let ghost lv = line@;
                r.push(line);
                assert(texts(r@) =~= before.push(lv));
                assert(rest.skip(at + 1) =~= v@.skip(i + at + 1));
                assert(before + (seq![lv] + lines(v@.skip(i + at + 1))) =~= before.push(lv) + lines(
                    v@.skip(i + at + 1),
                ));
                i = i + at + 1;
            },
            None => {
                let ghost lv = tail@;
                r.push(tail);
                assert(texts(r@) =~= before + seq![lv]);
                i = v.len();
                assert(lines(v@.skip(i as int)) =~= Seq::empty()) by {
                    let e = v@.skip(i as int);
                    lemma_find_from(e, mark@, 0);
                }
                assert(texts(r@) + lines(v@.skip(i as int)) =~= texts(r@));
            },
        }
    }
    assert(lines(v@.skip(i as int)) =~= Seq::empty()) by {
        lemma_find_from(v@.skip(i as int), mark@, 0);
    }
    assert(texts(r@) + Seq::<Seq<char>>::empty() =~= texts(r@));
    r
}

/// A character as it is written inside a JSON string.
pub open spec fn escape(c: char) -> Seq<char> {
    if c == '\\' {
        seq!['\\', '\\']
    } else if c == '"' {
        seq!['\\', '"']
    } else if c == '\n' {
        seq!['\\', 'n']
    } else if c == '\r' {
        seq!['\\', 'r']
    } else if c == '\t' {
        seq!['\\', 't']
    } else {
        seq![c]
    }
}

/// A text as it is written inside a JSON string.
pub open spec fn escaped(s: Seq<char>) -> Seq<char>
    decreases s.len(),
{
    if s.len() == 0 {
        Seq::empty()
    } else {
        escape(s[0]) + escaped(s.drop_first())
    }
}

/// The character that a backslash and `c` stand for.
pub open spec fn unescape(c: char) -> char {
    if c == 'n' {
        '\n'
    } else if c == 'r' {
        '\r'
    } else if c == 't' {
        '\t'
    } else {
        c
    }
}

/// The text that is written as `s` inside a JSON string.
pub open spec fn unescaped(s: Seq<char>) -> Seq<char>
    decreases s.len(),
{
    if s.len() == 0 {
        Seq::empty()
    } else if s[0] == '\\' && s.len() > 1 {
        seq![unescape(s[1])] + unescaped(s.skip(2))
    } else {
        seq![s[0]] + unescaped(s.drop_first())
    }
}

/// A text as it is written inside a JSON string.
pub fn escape_json(s: &str) -> (r: String)
    ensures
        r@ == escaped(s@),
{
    let v = chars_of(s);
    let mut r = String::new();
    let mut i: usize = 0;
    assert(v@.skip(0) =~= s@);
    assert(r@ + escaped(v@.skip(0)) =~= escaped(s@));
    while i < v.len()
        invariant
            i <= v@.len(),
            r@ + escaped(v@.skip(i as int)) == escaped(s@),
        decreases v@.len() - i,
    {
        let c = v[i];
        let ghost before = r@;
        let ghost rest = escaped(v@.skip(i + 1));
        assert(v@.skip(i as int)[0] == c);
        assert(v@.skip(i as int).drop_first() =~= v@.skip(i + 1));
        if c == '\\' {
            r.push('\\');
            r.push('\\');
        } else if c == '"' {
            r.push('\\');
            r.push('"');
        } else if c == '\n' {
            r.push('\\');
            r.push('n');
        } else if c == '\r' {
            r.push('\\');
            r.push('r');
        } else if c == '\t' {
            r.push('\\');
            r.push('t');
        } else {
            r.push(c);
        }
        assert(r@ =~= before + escape(c));
        assert(r@ + rest =~= before + (escape(c) + rest));
        i += 1;
    }
    assert(v@.skip(i as int) =~= Seq::empty());
    assert(r@ + Seq::<char>::empty() =~= r@);
    r
}

/// Nothing is lost in a text that is written inside a JSON string, and no line ends there.
pub proof fn law_escaping_is_reversible(s: Seq<char>)
    ensures
        unescaped(escaped(s)) == s,
        !escaped(s).contains('\n'),
        !escaped(s).contains('\r'),
        !escaped(s).contains('\t'),
    decreases s.len(),
{
    let e = escaped(s);
    if s.len() == 0 {
        assert(unescaped(e) =~= s);
    } else {
        let rest = s.drop_first();
        law_escaping_is_reversible(rest);
        let head = escape(s[0]);
        assert(e == head + escaped(rest));
        if head.len() == 2 {
            assert(e.skip(2) =~= escaped(rest));
        } else {
            assert(e.drop_first() =~= escaped(rest));
        }
        assert(s =~= seq![s[0]] + rest);
        assert forall|i: int| 0 <= i < e.len() implies e[i] != '\n' && e[i] != '\r' && e[i] != '\t' by {
            if i >= head.len() {
                assert(e[i] == escaped(rest)[i - head.len()]);
                assert(escaped(rest).contains(e[i]));
            }
        }
    }
}

/// Whether a text is in a list.
pub fn listed(list: &Vec<String>, name: &str) -> (r: bool)
    ensures
        r == texts(list@).contains(name@),
{
    let mut i: usize = 0;
    while i < list.len()
        invariant
            i <= list@.len(),
            forall|j: int| 0 <= j < i ==> texts(list@)[j] != name@,
        decreases list@.len() - i,
    {
        if same(list[i].as_str(), name) {
            assert(texts(list@)[i as int] == name@);
            return true;
        }
        i += 1;
    }
    false
}

/// White space is the blank, the tab and the ends of lines, among others, and no digit, no letter
/// and no mark of punctuation of ASCII.
pub proof fn law_white_space_is_blank(c: char)
    ensures
        is_space(' ') && is_space('\t') && is_space('\n') && is_space('\r'),
        '!' <= c <= '~' ==> !is_space(c),
{
}

/// What stripping takes off the front is of the class, and what it leaves does not begin with the
/// class: no more and no less is taken.
pub proof fn law_strip_start(a: Seq<char>, s: Seq<char>, class: CharClass)
    requires
        forall|i: int| 0 <= i < a.len() ==> class.has(#[trigger] a[i]),
        s.len() > 0 ==> !class.has(s[0]),
    ensures
        strip_start(a + s, class) == s,
    decreases a.len(),
{
    if a.len() > 0 {
        assert((a + s).drop_first() =~= a.drop_first() + s);
        assert forall|i: int| 0 <= i < a.drop_first().len() implies class.has(
            #[trigger] a.drop_first()[i],
        ) by {
            assert(a.drop_first()[i] == a[i + 1]);
        }
        law_strip_start(a.drop_first(), s, class);
    } else {
        assert(a + s =~= s);
    }
}

/// What stripping takes off the end is of the class, and what it leaves does not end with the
/// class.
pub proof fn law_strip_end(s: Seq<char>, b: Seq<char>, class: CharClass)
    requires
        forall|i: int| 0 <= i < b.len() ==> class.has(#[trigger] b[i]),
        s.len() > 0 ==> !class.has(s.last()),
    ensures
        strip_end(s + b, class) == s,
    decreases b.len(),
{
    if b.len() > 0 {
        assert((s + b).drop_last() =~= s + b.drop_last());
        assert((s + b).last() == b[b.len() - 1]);
        assert forall|i: int| 0 <= i < b.drop_last().len() implies class.has(
            #[trigger] b.drop_last()[i],
        ) by {
            assert(b.drop_last()[i] == b[i]);
        }
        law_strip_end(s, b.drop_last(), class);
    } else {
        assert(s + b =~= s);
    }
}

/// Trimming takes the white space off both ends of a text and leaves what is between as it is; a
/// text of white space alone becomes empty.
pub proof fn law_trim(a: Seq<char>, s: Seq<char>, b: Seq<char>)
    requires
        forall|i: int| 0 <= i < a.len() ==> is_space(#[trigger] a[i]),
        forall|i: int| 0 <= i < b.len() ==> is_space(#[trigger] b[i]),
        s.len() > 0 ==> !is_space(s[0]) && !is_space(s.last()),
    ensures
        trim(a + s + b) == s,
{
    if s.len() > 0 {
        assert(a + s + b =~= a + (s + b));
        law_strip_start(a, s + b, CharClass::Space);
        law_strip_end(s, b, CharClass::Space);
    } else {
        let all = a + s + b;
        assert forall|i: int| 0 <= i < all.len() implies is_space(#[trigger] all[i]) by {
            if i < a.len() {
                assert(all[i] == a[i]);
            } else {
                assert(all[i] == b[i - a.len()]);
            }
        }
        assert(all =~= all + Seq::<char>::empty());
        law_strip_start(all, Seq::empty(), CharClass::Space);
        assert(trim(all) =~= s);
    }
}

/// A text is found where it first occurs: it stands there, and at no place before. Where it is not
/// found it stands nowhere.
pub proof fn law_find(s: Seq<char>, p: Seq<char>)
    ensures
        match find(s, p) {
            Some(k) => 0 <= k && k + p.len() <= s.len() && s == s.take(k) + p + s.skip(k + p.len())
                && forall|j: int| 0 <= j < k ==> #[trigger] s.subrange(j, j + p.len()) != p,
            None => forall|j: int|
                0 <= j && j + p.len() <= s.len() ==> #[trigger] s.subrange(j, j + p.len()) != p,
        },
{
    lemma_find_from(s, p, 0);
    match find(s, p) {
        Some(k) => {
            assert(s =~= s.take(k) + s.subrange(k, k + p.len()) + s.skip(k + p.len()));
            assert forall|j: int| 0 <= j < k implies #[trigger] s.subrange(j, j + p.len()) != p by {
                assert(!occurs_at(s, p, j));
            }
        },
        None => {
            assert forall|j: int| 0 <= j && j + p.len() <= s.len() implies #[trigger] s.subrange(
                j,
                j + p.len(),
            ) != p by {
                assert(!occurs_at(s, p, j));
            }
        },
    }
}

/// A text that stands in another is found in it, at that place where it stands at none before.
pub proof fn law_what_stands_there_is_found(a: Seq<char>, p: Seq<char>, b: Seq<char>)
    ensures
        contains(a + p + b, p),
        (forall|j: int| 0 <= j < a.len() ==> !#[trigger] occurs_at(a + p, p, j)) ==> find(
            a + p + b,
            p,
        ) == Some(a.len() as int),
{
    let s = a + p + b;
    let n = a.len() as int;
    lemma_find_from(s, p, 0);
    assert(s.subrange(n, n + p.len()) =~= p);
    assert(occurs_at(s, p, n));
    if forall|j: int| 0 <= j < a.len() ==> !#[trigger] occurs_at(a + p, p, j) {
        let k = find(s, p)->0;
        if k < n {
            assert(s.subrange(k, k + p.len()) =~= (a + p).subrange(k, k + p.len()));
            assert(occurs_at(a + p, p, k));
        }
    }
}

/// Replacing puts the new text in the place of the first occurrence, leaves what is before it as it
/// is and goes on behind it; a text without an occurrence stays as it is.
pub proof fn law_replace(a: Seq<char>, p: Seq<char>, b: Seq<char>, r: Seq<char>)
    requires
        p.len() > 0,
        forall|j: int| 0 <= j < a.len() ==> !#[trigger] occurs_at(a + p, p, j),
    ensures
        replace(a + p + b, p, r) == a + r + replace(b, p, r),
        !contains(b, p) ==> replace(b, p, r) == b,
    decreases a.len(),
{
    let s = a + p + b;
    if !contains(b, p) {
        lemma_replace_absent(b, p, r);
    }
    if a.len() == 0 {
        assert(s =~= p + b);
        assert(s.skip(p.len() as int) =~= b);
        assert(a + r + replace(b, p, r) =~= r + replace(b, p, r));
    } else {
        assert(!occurs_at(a + p, p, 0));
        assert((a + p).subrange(0, p.len() as int) =~= s.take(p.len() as int));
        assert(!p.is_prefix_of(s)) by {
            if p.is_prefix_of(s) {
                assert(s.take(p.len() as int) =~= p);
            }
        }
        let c = a.skip(1);
        assert(s.skip(1) =~= c + p + b);
        assert forall|j: int| 0 <= j < c.len() implies !#[trigger] occurs_at(c + p, p, j) by {
            assert(!occurs_at(a + p, p, j + 1));
            assert((c + p).subrange(j, j + p.len()) =~= (a + p).subrange(j + 1, j + 1 + p.len()));
        }
        law_replace(c, p, b, r);
        assert(replace(s, p, r) =~= a + r + replace(b, p, r));
    }
}

/// Joined parts stand one after the other, with the separator between each two and nowhere else.
pub proof fn law_join(a: Seq<Seq<char>>, b: Seq<Seq<char>>, part: Seq<char>, sep: Seq<char>)
    ensures
        join(Seq::empty(), sep).len() == 0,
        join(seq![part], sep) == part,
        a.len() > 0 && b.len() > 0 ==> join(a + b, sep) == join(a, sep) + sep + join(b, sep),
    decreases b.len(),
{
    if a.len() > 0 && b.len() == 1 {
        assert((a + b).drop_last() =~= a);
        assert(join(b, sep) == b[0]);
    } else if a.len() > 0 && b.len() > 1 {
        assert((a + b).drop_last() =~= a + b.drop_last());
        law_join(a, b.drop_last(), part, sep);
        assert(join(a + b, sep) =~= join(a, sep) + sep + join(b, sep));
    }
}

/// A number that is written in decimal is read as that number, with a plus sign before it or not,
/// and is written with nothing but digits and without a zero in front.
pub proof fn law_numbers_are_read_as_written(n: usize)
    ensures
        parsed_usize(decimal(n as nat)) == Some(n),
        parsed_usize(seq!['+'] + decimal(n as nat)) == Some(n),
        all_digits(decimal(n as nat)),
        n > 0 ==> decimal(n as nat)[0] != '0',
        n < 10 ==> decimal(n as nat).len() == 1,
{
    lemma_decimal(n as nat);
    let d = decimal(n as nat);
    assert((seq!['+'] + d).skip(1) =~= d);
    assert(is_digit(d[0]));
    lemma_decimal_front(n as nat);
}

proof fn lemma_decimal_front(n: nat)
    ensures
        n > 0 ==> decimal(n)[0] != '0',
    decreases n,
{
    lemma_decimal(n);
    if n >= 10 {
        lemma_decimal(n / 10);
        lemma_decimal_front(n / 10);
    }
}

/// A text that holds anything but digits, apart from one plus sign in front, is no number; nor is an
/// empty one.
pub proof fn law_other_texts_are_no_numbers(s: Seq<char>, i: int)
    requires
        0 <= i < s.len(),
        !is_digit(s[i]),
        i > 0 || s[0] != '+' || s.len() == 1,
    ensures
        parsed_usize(s) is None,
        parsed_usize(Seq::empty()) is None,
{
    let t = without_plus(s);
    if t.len() > 0 {
        if s[0] == '+' {
            assert(t[i - 1] == s[i]);
        } else {
            assert(t[i] == s[i]);
        }
        assert(!all_digits(t));
    }
}

/// The beginning and the end of a text within a number of bytes are a beginning and an end of it;
/// they take at most so many bytes, one more character would not fit, and a text that fits is taken
/// whole.
pub proof fn law_cut_text_fits(s: Seq<char>, n: int)
    requires
        0 <= n,
    ensures
        front_within(s, n).is_prefix_of(s),
        byte_len(front_within(s, n)) <= n,
        front_within(s, n).len() < s.len() ==> byte_len(
            s.take(front_within(s, n).len() as int + 1),
        ) > n,
        back_within(s, n).is_suffix_of(s),
        byte_len(back_within(s, n)) <= n,
        back_within(s, n).len() < s.len() ==> byte_len(
            s.skip(s.len() - back_within(s, n).len() - 1),
        ) > n,
{
    lemma_front_within(s, n);
    lemma_back_within(s, n);
    lemma_back_within_longest(s, n);
}

proof fn lemma_back_within_longest(s: Seq<char>, n: int)
    requires
        0 <= n,
    ensures
        fit_back(s, n) <= s.len(),
        fit_back(s, n) < s.len() ==> byte_len(s.skip(s.len() - fit_back(s, n) - 1)) > n,
    decreases s.len(),
{
    if s.len() > 0 {
        let one = seq![s.last()];
        assert(one.drop_first() =~= Seq::<char>::empty());
        assert(encode_utf8(one) == encode_scalar(one[0] as u32) + encode_utf8(one.drop_first()));
        assert(encode_utf8(one.drop_first()) =~= Seq::<u8>::empty());
        if width(s.last()) <= n {
            let rest = s.drop_last();
            let m = n - width(s.last());
            lemma_back_within_longest(rest, m);
            if fit_back(s, n) < s.len() {
                let tail = rest.skip(rest.len() - fit_back(rest, m) - 1);
                assert(s.skip(s.len() - fit_back(s, n) - 1) =~= tail + one);
                lemma_encode_add(tail, one);
            }
        } else {
            assert(s.skip(s.len() - 1) =~= one);
        }
    }
}

/// A text padded with zeros has at least the length that was asked for and ends in the text, and
/// only zeros stand before it.
pub proof fn law_padding_adds_zeros(s: Seq<char>, n: nat)
    ensures
        zero_padded(s, n).len() >= n,
        s.is_suffix_of(zero_padded(s, n)),
        forall|i: int|
            0 <= i < zero_padded(s, n).len() - s.len() ==> #[trigger] zero_padded(s, n)[i] == '0',
        s.len() >= n ==> zero_padded(s, n) == s,
        s.len() < n ==> zero_padded(s, n).len() == n,
{
    let z = zero_padded(s, n);
    assert(z.skip(z.len() - s.len()) =~= s);
}

/// A line feed ends a line, which is what stands before it, without a carriage return at its end;
/// what follows is lines of its own, and a last line needs no line feed.
pub proof fn law_lines(line: Seq<char>, rest: Seq<char>)
    requires
        !line.contains('\n'),
        line.len() > 0 ==> line.last() != '\r',
    ensures
        lines(line + seq!['\n'] + rest) == seq![line] + lines(rest),
        lines(line + seq!['\r', '\n'] + rest) == seq![line] + lines(rest),
        line.len() > 0 ==> lines(line) == seq![line],
        lines(Seq::empty()).len() == 0,
{
    reveal_strlit("\n");
    let nl = seq!['\n'];
    assert("\n"@ =~= nl);
    lemma_no_line_feed(line);
    let crlf = line.push('\r');
    assert(!crlf.contains('\n')) by {
        if crlf.contains('\n') {
            let i = choose|i: int| 0 <= i < crlf.len() && crlf[i] == '\n';
            assert(line[i] == '\n');
        }
    }
    lemma_no_line_feed(crlf);
    law_what_stands_there_is_found(line, nl, rest);
    law_what_stands_there_is_found(crlf, nl, rest);
    let a = line + nl + rest;
    let b = line + seq!['\r', '\n'] + rest;
    assert(b =~= crlf + nl + rest);
    assert(a.take(line.len() as int) =~= line);
    assert(a.skip(line.len() as int + 1) =~= rest);
    assert(b.take(crlf.len() as int) =~= crlf);
    assert(b.skip(crlf.len() as int + 1) =~= rest);
    assert(crlf.drop_last() =~= line);
    lemma_find_from(line, nl, 0);
    if find(line, nl) is Some {
        let k = find(line, nl)->0;
        assert(line.subrange(k, k + 1)[0] == line[k]);
        assert(line.contains('\n'));
    }
    lemma_find_from(Seq::empty(), nl, 0);
    assert(find(Seq::empty(), nl) is None);
}

proof fn lemma_no_line_feed(line: Seq<char>)
    requires
        !line.contains('\n'),
    ensures
        forall|j: int|
            0 <= j < line.len() ==> !#[trigger] occurs_at(line + seq!['\n'], seq!['\n'], j),
{
    assert forall|j: int| 0 <= j < line.len() implies !#[trigger] occurs_at(
        line + seq!['\n'],
        seq!['\n'],
        j,
    ) by {
        if occurs_at(line + seq!['\n'], seq!['\n'], j) {
            assert((line + seq!['\n']).subrange(j, j + 1)[0] == line[j]);
            assert(line.contains('\n'));
        }
    }
}

/// The marks that a JSON string cannot hold as they are, and how they are written; every other
/// character stays, and texts are written character by character.
pub proof fn law_marks_are_escaped(a: Seq<char>, c: char)
    ensures
        escaped(seq!['\\']) == seq!['\\', '\\'],
        escaped(seq!['"']) == seq!['\\', '"'],
        escaped(seq!['\n']) == seq!['\\', 'n'],
        escaped(seq!['\r']) == seq!['\\', 'r'],
        escaped(seq!['\t']) == seq!['\\', 't'],
        c != '\\' && c != '"' && c != '\n' && c != '\r' && c != '\t' ==> escaped(seq![c])
            == seq![c],
        escaped(seq![c] + a) == escaped(seq![c]) + escaped(a),
        escaped(Seq::empty()).len() == 0,
{
    lemma_escaped_one('\\');
    lemma_escaped_one('"');
    lemma_escaped_one('\n');
    lemma_escaped_one('\r');
    lemma_escaped_one('\t');
    lemma_escaped_one(c);
    assert((seq![c] + a).drop_first() =~= a);
}

proof fn lemma_escaped_one(c: char)
    ensures
        escaped(seq![c]) == escape(c),
{
    assert(seq![c].drop_first() =~= Seq::empty());
    assert(escaped(Seq::<char>::empty()) =~= Seq::empty());
    assert(escaped(seq![c]) =~= escape(c));
}

/// A number in hexadecimal has a digit for each sixteenth power: its last digit is the rest, and
/// what is before it writes the quotient; digits are the decimal ones and the first six letters.
pub proof fn law_hexadecimal(n: nat)
    ensures
        n < 10 ==> hex(n) == seq![('0' as nat + n) as char],
        10 <= n < 16 ==> hex(n) == seq![('a' as nat + n - 10) as char],
        n >= 16 ==> hex(n) == hex(n / 16) + hex(n % 16),
{
    if n >= 16 {
        assert(hex(n) =~= hex(n / 16) + hex(n % 16));
    }
}

} // verus!
