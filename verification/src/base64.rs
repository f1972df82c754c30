//! Bytes as text, four characters for three bytes.
use crate::text::{decimal, decimal_text, lemma_encode_add};
use vstd::prelude::*;
use vstd::utf8::{encode_utf8, is_ascii_chars, is_ascii_chars_encode_utf8};

verus! {

/// The character for a number below 64.
pub open spec fn symbol(n: u8) -> char {
    if n < 26 {
        (65 + n) as char
    } else if n < 52 {
        (71 + n) as char
    } else if n < 62 {
        (n - 4) as char
    } else if n == 62 {
        '+'
    } else {
        '/'
    }
}

/// What a byte of the text counts for: the number that its character stands for, 0 for padding, and
/// 255 for what is no character of the alphabet.
pub open spec fn value(b: u8) -> u8 {
    if 65 <= b <= 90 {
        (b - 65) as u8
    } else if 97 <= b <= 122 {
        (b - 71) as u8
    } else if 48 <= b <= 57 {
        (b + 4) as u8
    } else if b == 43 {
        62
    } else if b == 47 {
        63
    } else if b == 61 {
        0
    } else {
        255
    }
}

/// The byte that is padding.
pub const PAD: u8 = 61;

/// The four characters for one, two or three bytes.
pub open spec fn quad(d: Seq<u8>) -> Seq<char> {
    let a = d[0];
    let b = if d.len() > 1 {
        d[1]
    } else {
        0u8
    };
    let c = if d.len() > 2 {
        d[2]
    } else {
        0u8
    };
    seq![
        symbol(a >> 2),
        symbol(((a & 0x03) << 4) | (b >> 4)),
        if d.len() > 1 {
            symbol(((b & 0x0f) << 2) | (c >> 6))
        } else {
            '='
        },
        if d.len() > 2 {
            symbol(c & 0x3f)
        } else {
            '='
        },
    ]
}

/// How many bytes the next four characters stand for.
pub open spec fn step(d: Seq<u8>) -> int {
    if d.len() < 3 {
        d.len() as int
    } else {
        3
    }
}

/// The text for some bytes.
pub open spec fn encoded(d: Seq<u8>) -> Seq<char>
    decreases d.len(),
{
    if d.len() == 0 {
        Seq::empty()
    } else {
        quad(d) + encoded(d.skip(step(d)))
    }
}

/// Whether a byte of the text counts: line ends and blanks do not.
pub open spec fn counts(b: u8) -> bool {
    b != 10 && b != 13 && b != 32
}

/// The bytes that count.
pub open spec fn counting(s: Seq<u8>) -> Seq<u8>
    decreases s.len(),
{
    if s.len() == 0 {
        Seq::empty()
    } else if counts(s.last()) {
        counting(s.drop_last()).push(s.last())
    } else {
        counting(s.drop_last())
    }
}

/// The bytes that four bytes of the text stand for. Only the first two of the four are checked.
pub open spec fn triple(f: Seq<u8>) -> Option<Seq<u8>> {
    let a = value(f[0]);
    let b = value(f[1]);
    let c = value(f[2]);
    let d = value(f[3]);
    if a == 255 || b == 255 {
        None
    } else {
        let one = seq![(a << 2) | (b >> 4)];
        if f[2] == PAD {
            Some(one)
        } else {
            let two = one.push((b << 4) | (c >> 2));
            if f[3] == PAD {
                Some(two)
            } else {
                Some(two.push((c << 6) | d))
            }
        }
    }
}

/// The bytes that a text stands for, four of its bytes at a time; none where one of these does not
/// belong there.
pub open spec fn unpacked(f: Seq<u8>) -> Option<Seq<u8>>
    decreases f.len(),
{
    if f.len() < 4 {
        Some(Seq::empty())
    } else {
        match (triple(f), unpacked(f.skip(4))) {
            (Some(head), Some(rest)) => Some(head + rest),
            _ => None,
        }
    }
}

/// The bytes that a text stands for, or what is wrong with it.
pub open spec fn decoded(text: Seq<char>) -> Result<Seq<u8>, Seq<char>> {
    let f = counting(encode_utf8(text));
    if f.len() % 4 != 0 {
        Err("invalid base64 length: "@ + decimal(f.len()))
    } else {
        match unpacked(f) {
            Some(bytes) => Ok(bytes),
            None => Err("invalid base64 character"@),
        }
    }
}

/// The character for a number below 64.
fn symbol_of(n: u8) -> (r: char)
    requires
        n < 64,
    ensures
        r == symbol(n),
{
    if n < 26 {
        (65 + n) as char
    } else if n < 52 {
        (71 + n) as char
    } else if n < 62 {
        (n - 4) as char
    } else if n == 62 {
        '+'
    } else {
        '/'
    }
}

/// What a byte of the text counts for.
fn value_of(b: u8) -> (r: u8)
    ensures
        r == value(b),
{
    if 65 <= b && b <= 90 {
        b - 65
    } else if 97 <= b && b <= 122 {
        b - 71
    } else if 48 <= b && b <= 57 {
        b + 4
    } else if b == 43 {
        62
    } else if b == 47 {
        63
    } else if b == PAD {
        0
    } else {
        255
    }
}

/// The text for some bytes.
pub fn base64_encode(data: &Vec<u8>) -> (r: String)
    ensures
        r@ == encoded(data@),
{
    let mut r = String::new();
    let mut i: usize = 0;
    let n: usize = data.len();
    assert(data@.skip(0) =~= data@);
    assert(r@ + encoded(data@.skip(0)) =~= encoded(data@));
    while i < n
        invariant
            i <= n,
            n == data@.len(),
            r@ + encoded(data@.skip(i as int)) == encoded(data@),
        decreases n - i,
    {
        let ghost d = data@.skip(i as int);
        let ghost before = r@;
        let left: usize = n - i;
        let a: u8 = data[i];
        let b: u8 = if left > 1 {
            data[i + 1]
        } else {
            0
        };
        let c: u8 = if left > 2 {
            data[i + 2]
        } else {
            0
        };
        proof {
            lemma_sextets(a, b, c);
        }
        r.push(symbol_of(a >> 2));
        r.push(symbol_of(((a & 0x03) << 4) | (b >> 4)));
        if left > 1 {
            r.push(symbol_of(((b & 0x0f) << 2) | (c >> 6)));
        } else {
            r.push('=');
        }
        if left > 2 {
            r.push(symbol_of(c & 0x3f));
        } else {
            r.push('=');
        }
        let s: usize = if left < 3 {
            left
        } else {
            3
        };
        proof {
            assert(r@ =~= before + quad(d));
            let rest = encoded(data@.skip(i + s));
            assert(d.skip(s as int) =~= data@.skip(i + s));
            assert(r@ + rest =~= before + (quad(d) + rest));
        }
        i += s;
    }
    assert(data@.skip(i as int) =~= Seq::empty());
    assert(r@ + Seq::<char>::empty() =~= r@);
    r
}

/// The bytes of a text that count.
fn counting_bytes(text: &str) -> (r: Vec<u8>)
    ensures
        r@ == counting(encode_utf8(text@)),
{
    let bytes = text.as_bytes();
    let ghost all = encode_utf8(text@);
    let mut r: Vec<u8> = Vec::new();
    let mut i: usize = 0;
    let n: usize = bytes.len();
    assert(all.take(0) =~= Seq::empty());
    while i < n
        invariant
            i <= n,
            n == bytes@.len(),
            all == bytes@,
            r@ == counting(all.take(i as int)),
        decreases n - i,
    {
        assert(all.take(i + 1).drop_last() =~= all.take(i as int));
        let b: u8 = bytes[i];
        if b != 10 && b != 13 && b != 32 {
            r.push(b);
        }
        i += 1;
    }
    assert(all.take(i as int) =~= all);
    r
}

/// The bytes that a text stands for, or what is wrong with it.
pub fn base64_decode(text: &str) -> (r: Result<Vec<u8>, String>)
    ensures
        match r {
            Ok(bytes) => decoded(text@) == Ok::<Seq<u8>, Seq<char>>(bytes@),
            Err(e) => decoded(text@) == Err::<Seq<u8>, Seq<char>>(e@),
        },
{
    let f = counting_bytes(text);
    let n: usize = f.len();
    if n % 4 != 0 {
        let mut m = "invalid base64 length: ".to_owned();
        m.push_str(decimal_text(n as u64).as_str());
        return Err(m);
    }
    let mut r: Vec<u8> = Vec::new();
    let mut i: usize = 0;
    assert(f@.skip(0) =~= f@);
    while i < n
        invariant
            i <= n,
            n == f@.len(),
            (n - i) % 4 == 0,
            f@ == counting(encode_utf8(text@)),
            n % 4 == 0,
            match unpacked(f@.skip(i as int)) {
                Some(rest) => unpacked(f@) == Some(r@ + rest),
                None => unpacked(f@) is None,
            },
        decreases n - i,
    {
        let ghost g = f@.skip(i as int);
        let ghost before = r@;
        assert(g.len() >= 4);
        assert(g[0] == f@[i as int] && g[1] == f@[i + 1] && g[2] == f@[i + 2] && g[3] == f@[i + 3]);
        assert(g.skip(4) =~= f@.skip(i + 4));
        let a: u8 = value_of(f[i]);
        let b: u8 = value_of(f[i + 1]);
        let c: u8 = value_of(f[i + 2]);
        let d: u8 = value_of(f[i + 3]);
        if a == 255 || b == 255 {
            return Err("invalid base64 character".to_owned());
        }
        r.push((a << 2) | (b >> 4));
        if f[i + 2] != PAD {
            r.push((b << 4) | (c >> 2));
            if f[i + 3] != PAD {
                r.push((c << 6) | d);
            }
        }
        proof {
            let head = triple(g)->0;
            assert(r@ =~= before + head);
            match unpacked(g.skip(4)) {
                Some(rest) => {
                    assert(before + (head + rest) =~= r@ + rest);
                },
                None => {},
            }
        }
        i += 4;
    }
    assert(f@.skip(i as int) =~= Seq::empty());
    assert(r@ + Seq::<u8>::empty() =~= r@);
    Ok(r)
}

/// What three bytes are cut into is below 64, and can be put together again.
proof fn lemma_sextets(a: u8, b: u8, c: u8)
    ensures
        a >> 2 < 64,
        ((a & 0x03) << 4) | (b >> 4) < 64,
        ((b & 0x0f) << 2) | (c >> 6) < 64,
        c & 0x3f < 64,
        ((a >> 2) << 2) | ((((a & 0x03) << 4) | (b >> 4)) >> 4) == a,
        ((((a & 0x03) << 4) | (b >> 4)) << 4) | ((((b & 0x0f) << 2) | (c >> 6)) >> 2) == b,
        ((((b & 0x0f) << 2) | (c >> 6)) << 6) | (c & 0x3f) == c,
{
    assert(a >> 2 < 64) by (bit_vector);
    assert(((a & 0x03) << 4) | (b >> 4) < 64) by (bit_vector);
    assert(((b & 0x0f) << 2) | (c >> 6) < 64) by (bit_vector);
    assert(c & 0x3f < 64) by (bit_vector);
    assert(((a >> 2) << 2) | ((((a & 0x03) << 4) | (b >> 4)) >> 4) == a) by (bit_vector);
    assert(((((a & 0x03) << 4) | (b >> 4)) << 4) | ((((b & 0x0f) << 2) | (c >> 6)) >> 2) == b)
        by (bit_vector);
    assert(((((b & 0x0f) << 2) | (c >> 6)) << 6) | (c & 0x3f) == c) by (bit_vector);
}

/// A character of the alphabet is one byte, which counts for its number.
proof fn lemma_symbol(n: u8)
    requires
        n < 64,
    ensures
        symbol(n) <= '\u{7f}',
        value(symbol(n) as u8) == n,
        symbol(n) as u8 != PAD,
        counts(symbol(n) as u8),
{
}

/// Four ASCII characters are four bytes.
proof fn lemma_quad_bytes(q: Seq<char>)
    requires
        q.len() == 4,
        is_ascii_chars(q),
    ensures
        encode_utf8(q) == seq![q[0] as u8, q[1] as u8, q[2] as u8, q[3] as u8],
{
    is_ascii_chars_encode_utf8(q);
    assert(encode_utf8(q) =~= seq![q[0] as u8, q[1] as u8, q[2] as u8, q[3] as u8]);
}

/// What counts of two texts put together is what counts of the one and then of the other.
proof fn lemma_counting_add(a: Seq<u8>, b: Seq<u8>)
    ensures
        counting(a + b) == counting(a) + counting(b),
    decreases b.len(),
{
    if b.len() == 0 {
        assert(a + b =~= a);
        assert(counting(a) + counting(b) =~= counting(a));
    } else {
        lemma_counting_add(a, b.drop_last());
        assert((a + b).drop_last() =~= a + b.drop_last());
        assert((a + b).last() == b.last());
        if counts(b.last()) {
            assert((counting(a) + counting(b.drop_last())).push(b.last()) =~= counting(a)
                + counting(b));
        }
    }
}

/// Four bytes that count are all that counts of them.
proof fn lemma_counting_four(s: Seq<u8>)
    requires
        s.len() == 4,
        counts(s[0]),
        counts(s[1]),
        counts(s[2]),
        counts(s[3]),
    ensures
        counting(s) == s,
{
    reveal_with_fuel(counting, 5);
    assert(s.drop_last().drop_last().drop_last().drop_last() =~= Seq::empty());
    assert(counting(s) =~= s);
}

/// The bytes of the text for some bytes are unpacked into these.
proof fn lemma_encoded_unpacks(d: Seq<u8>)
    ensures
        counting(encode_utf8(encoded(d))) == encode_utf8(encoded(d)),
        encode_utf8(encoded(d)).len() % 4 == 0,
        unpacked(encode_utf8(encoded(d))) == Some(d),
    decreases d.len(),
{
    let e = encode_utf8(encoded(d));
    if d.len() == 0 {
        assert(encode_utf8(encoded(d)) =~= Seq::empty());
        assert(counting(e) =~= e);
        assert(unpacked(e) == Some(Seq::<u8>::empty()));
        assert(d =~= Seq::empty());
    } else {
        let n = step(d);
        let rest = d.skip(n);
        lemma_encoded_unpacks(rest);
        let q = quad(d);
        let a = d[0];
        let b = if d.len() > 1 {
            d[1]
        } else {
            0u8
        };
        let c = if d.len() > 2 {
            d[2]
        } else {
            0u8
        };
        lemma_sextets(a, b, c);
        let s0 = a >> 2;
        let s1 = ((a & 0x03) << 4) | (b >> 4);
        let s2 = ((b & 0x0f) << 2) | (c >> 6);
        let s3 = c & 0x3f;
        lemma_symbol(s0);
        lemma_symbol(s1);
        lemma_symbol(s2);
        lemma_symbol(s3);
        assert('=' as u8 == PAD);
        assert(counts(PAD));
        lemma_quad_bytes(q);
        let head = encode_utf8(q);
        let tail = encode_utf8(encoded(rest));
        lemma_encode_add(q, encoded(rest));
        assert(e == head + tail);
        lemma_counting_add(head, tail);
        lemma_counting_four(head);
        assert(e.skip(4) =~= tail);
        assert(e[0] == head[0] && e[1] == head[1] && e[2] == head[2] && e[3] == head[3]);
        assert(triple(e) == Some(d.take(n))) by {
            if d.len() == 1 {
                assert(triple(e)->0 =~= d.take(n));
            } else if d.len() == 2 {
                assert(triple(e)->0 =~= d.take(n));
            } else {
                assert(triple(e)->0 =~= d.take(n));
            }
        }
        assert(d.take(n) + rest =~= d);
    }
}

/// Whether a character is a line end or a blank.
pub open spec fn is_blank(c: char) -> bool {
    c == '\n' || c == '\r' || c == ' '
}

/// A text without its line ends and blanks.
pub open spec fn unspaced(text: Seq<char>) -> Seq<char>
    decreases text.len(),
{
    if text.len() == 0 {
        Seq::empty()
    } else if is_blank(text.last()) {
        unspaced(text.drop_last())
    } else {
        unspaced(text.drop_last()).push(text.last())
    }
}

/// What counts of a text is what counts of it without its line ends and blanks.
proof fn lemma_counting_unspaced(text: Seq<char>)
    ensures
        counting(encode_utf8(text)) == counting(encode_utf8(unspaced(text))),
    decreases text.len(),
{
    if text.len() > 0 {
        let front = text.drop_last();
        let c = text.last();
        let one = seq![c];
        lemma_counting_unspaced(front);
        assert(text =~= front + one);
        lemma_encode_add(front, one);
        lemma_counting_add(encode_utf8(front), encode_utf8(one));
        if is_blank(c) {
            assert(is_ascii_chars(one));
            is_ascii_chars_encode_utf8(one);
            assert(encode_utf8(one) =~= seq![c as u8]);
            assert(encode_utf8(one).drop_last() =~= Seq::empty());
            assert(!counts(encode_utf8(one).last()));
            assert(counting(encode_utf8(one)) =~= Seq::empty()) by {
                reveal_with_fuel(counting, 2);
            }
            assert(counting(encode_utf8(front)) + Seq::<u8>::empty() =~= counting(
                encode_utf8(front),
            ));
        } else {
            let short = unspaced(front);
            assert(short.push(c) =~= short + one);
            lemma_encode_add(short, one);
            lemma_counting_add(encode_utf8(short), encode_utf8(one));
        }
    }
}

/// Line ends and blanks change nothing, wherever they stand in a text: it is read, or refused, as it
/// is without them. So what is written as text and then spaced out is read back as the same bytes.
pub proof fn law_spacing_does_not_count(text: Seq<char>, d: Seq<u8>)
    ensures
        decoded(text) == decoded(unspaced(text)),
        unspaced(text) == encoded(d) ==> decoded(text) == Ok::<Seq<u8>, Seq<char>>(d),
{
    lemma_counting_unspaced(text);
    law_base64_round_trip(d);
}

/// What is written as text is read back as the same bytes.
pub proof fn law_base64_round_trip(d: Seq<u8>)
    ensures
        decoded(encoded(d)) == Ok::<Seq<u8>, Seq<char>>(d),
{
    lemma_encoded_unpacks(d);
}

/// Three bytes are written as four symbols, six bits for each; two bytes as three symbols and one as
/// two, with padding in the place of the others.
pub proof fn law_three_bytes_are_four_symbols(a: u8, b: u8, c: u8)
    ensures
        quad(seq![a, b, c]) == seq![
            symbol((a / 4) as u8),
            symbol((a % 4 * 16 + b / 16) as u8),
            symbol((b % 16 * 4 + c / 64) as u8),
            symbol((c % 64) as u8),
        ],
        quad(seq![a, b]) == seq![
            symbol((a / 4) as u8),
            symbol((a % 4 * 16 + b / 16) as u8),
            symbol((b % 16 * 4) as u8),
            '=',
        ],
        quad(seq![a]) == seq![symbol((a / 4) as u8), symbol((a % 4 * 16) as u8), '=', '='],
{
    assert(a >> 2 == a / 4) by (bit_vector);
    assert(((a & 0x03) << 4) | (b >> 4) == (a % 4 * 16 + b / 16) as u8) by (bit_vector);
    assert(((b & 0x0f) << 2) | (c >> 6) == (b % 16 * 4 + c / 64) as u8) by (bit_vector);
    assert(c & 0x3f == c % 64) by (bit_vector);
    assert(((a & 0x03) << 4) | (0u8 >> 4) == (a % 4 * 16) as u8) by (bit_vector);
    assert(((b & 0x0f) << 2) | (0u8 >> 6) == (b % 16 * 4) as u8) by (bit_vector);
}

/// The symbols are the capitals, the small letters, the digits, the plus sign and the slash, in this
/// order.
pub proof fn law_symbols_in_order(n: u8)
    ensures
        n < 26 ==> symbol(n) as int == 'A' as int + n,
        26 <= n < 52 ==> symbol(n) as int == 'a' as int + (n - 26),
        52 <= n < 62 ==> symbol(n) as int == '0' as int + (n - 52),
        symbol(62) == '+',
        symbol(63) == '/',
{
}

/// Bytes are written three at a time: what is written of the whole is what is written of the first
/// three and then of the rest, and every group takes four characters.
pub proof fn law_bytes_are_written_three_at_a_time(a: u8, b: u8, c: u8, rest: Seq<u8>)
    ensures
        encoded(seq![a, b, c] + rest) == encoded(seq![a, b, c]) + encoded(rest),
        encoded(seq![a, b, c]) == quad(seq![a, b, c]),
        encoded(seq![a, b]) == quad(seq![a, b]),
        encoded(seq![a]) == quad(seq![a]),
        encoded(Seq::empty()).len() == 0,
        encoded(seq![a, b, c] + rest).len() == 4 + encoded(rest).len(),
{
    let three = seq![a, b, c];
    let d = three + rest;
    assert(d.skip(3) =~= rest);
    assert(quad(d) =~= quad(three));
    assert(three.skip(3) =~= Seq::empty());
    assert(seq![a, b].skip(2) =~= Seq::empty());
    assert(seq![a].skip(1) =~= Seq::empty());
    assert(encoded(Seq::<u8>::empty()) =~= Seq::empty());
    assert(encoded(three) =~= quad(three));
    assert(encoded(seq![a, b]) =~= quad(seq![a, b]));
    assert(encoded(seq![a]) =~= quad(seq![a]));
}

} // verus!
