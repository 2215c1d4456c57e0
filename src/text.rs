//! Text helpers: decimal numbers and percent-encoding of object paths.
use vstd::prelude::*;

verus! {

/// Relies on `String::push`: appends one character at the end.
#[verifier::external_body]
pub(crate) fn push_char(s: &mut String, c: char)
    ensures
        final(s)@ == old(s)@.push(c),
{
    s.push(c);
}

/// The character of a decimal digit.
pub open spec fn digit_char(d: nat) -> char {
    if d == 0 { '0' }
    else if d == 1 { '1' }
    else if d == 2 { '2' }
    else if d == 3 { '3' }
    else if d == 4 { '4' }
    else if d == 5 { '5' }
    else if d == 6 { '6' }
    else if d == 7 { '7' }
    else if d == 8 { '8' }
    else { '9' }
}

/// The shortest decimal representation of `n`.
pub open spec fn decimal(n: nat) -> Seq<char>
    decreases n,
{
    if n < 10 {
        seq![digit_char(n)]
    } else {
        decimal(n / 10).push(digit_char(n % 10))
    }
}

fn digit_to_char(d: u64) -> (c: char)
    requires
        d < 10,
    ensures
        c == digit_char(d as nat),
{
    if d == 0 { '0' }
    else if d == 1 { '1' }
    else if d == 2 { '2' }
    else if d == 3 { '3' }
    else if d == 4 { '4' }
    else if d == 5 { '5' }
    else if d == 6 { '6' }
    else if d == 7 { '7' }
    else if d == 8 { '8' }
    else { '9' }
}

/// Appends the decimal representation of `n` to `out`.
pub fn push_decimal(out: &mut String, n: u64)
    ensures
        final(out)@ == old(out)@ + decimal(n as nat),
    decreases n,
{
    if n >= 10 {
        push_decimal(out, n / 10);
    }
    push_char(out, digit_to_char(n % 10));
    proof {
        if n >= 10 {
            assert(old(out)@ + decimal(n as nat) =~= old(out)@ + decimal((n / 10) as nat) + seq![digit_char((n % 10) as nat)]);
        }
    }
}

/// The decimal representation of `n` as a new string.
pub fn to_decimal(n: u64) -> (r: String)
    ensures
        r@ == decimal(n as nat),
{
    let mut s = String::new();
    push_decimal(&mut s, n);
    proof {
        assert(seq![] + decimal(n as nat) =~= decimal(n as nat));
    }
    s
}

/// Whether every character of `s` is a decimal digit.
pub open spec fn all_digits(s: Seq<char>) -> bool {
    forall|i: int| 0 <= i < s.len() ==> '0' <= #[trigger] s[i] <= '9'
}

/// The number that the decimal digits `s` denote.
pub open spec fn digits_value(s: Seq<char>) -> nat
    decreases s.len(),
{
    if s.len() == 0 {
        0
    } else {
        digits_value(s.drop_last()) * 10 + ((s.last() as u32 - '0' as u32) as nat)
    }
}

/// The digits of an unsigned decimal number, after an optional leading `+`.
pub open spec fn unsigned_digits(s: Seq<char>) -> Seq<char> {
    if s.len() > 0 && s[0] == '+' {
        s.drop_first()
    } else {
        s
    }
}

/// What an unsigned decimal number `s` denotes, when it is one and fits in `u64`.
pub open spec fn parse_u64_spec(s: Seq<char>) -> Option<u64> {
    let d = unsigned_digits(s);
    if d.len() > 0 && all_digits(d) && digits_value(d) <= u64::MAX {
        Some(digits_value(d) as u64)
    } else {
        None
    }
}

proof fn lemma_digits_value_grows(s: Seq<char>, i: int, j: int)
    requires
        0 <= i <= j <= s.len(),
        all_digits(s),
    ensures
        digits_value(s.subrange(0, i)) <= digits_value(s.subrange(0, j)),
    decreases j - i,
{
    if i < j {
        lemma_digits_value_grows(s, i, j - 1);
        assert(s.subrange(0, j).drop_last() =~= s.subrange(0, j - 1));
        assert('0' <= s[j - 1] <= '9');
    }
}

proof fn lemma_digit_char(d: nat)
    requires
        d < 10,
    ensures
        '0' <= digit_char(d) <= '9',
        (digit_char(d) as u32 - '0' as u32) as nat == d,
{
}

/// The decimal representation of a number consists of digits, denotes the
/// number, and does not begin with `+`.
pub proof fn lemma_decimal_digits(n: nat)
    ensures
        decimal(n).len() > 0,
        all_digits(decimal(n)),
        digits_value(decimal(n)) == n,
        decimal(n)[0] != '+',
    decreases n,
{
    lemma_digit_char(n % 10);
    if n >= 10 {
        lemma_decimal_digits(n / 10);
        let d = decimal(n);
        assert(d.drop_last() =~= decimal(n / 10));
        assert(d[0] == decimal(n / 10)[0]);
        assert(d.last() == digit_char(n % 10));
        assert((n / 10) * 10 + n % 10 == n) by (nonlinear_arith);
        assert(digits_value(d) == digits_value(decimal(n / 10)) * 10 + ((d.last() as u32 - '0' as u32) as nat));
    } else {
        let d = decimal(n);
        assert(d.drop_last() =~= Seq::<char>::empty());
        assert(digits_value(Seq::<char>::empty()) == 0);
        assert(d.last() == digit_char(n));
        assert(digits_value(d) == digits_value(d.drop_last()) * 10 + ((d.last() as u32 - '0' as u32) as nat));
    }
}

/// Parsing the decimal representation of a number gives the number back.
pub proof fn lemma_parse_decimal(n: u64)
    ensures
        parse_u64_spec(decimal(n as nat)) == Some(n),
{
    lemma_decimal_digits(n as nat);
}

/// Parses an unsigned decimal number that fits in `u64`, with an optional
/// leading `+`.
pub fn parse_u64(s: &str) -> (r: Option<u64>)
    ensures
        r == parse_u64_spec(s@),
{
    let n = s.unicode_len();
    let mut start: usize = 0;
    if n > 0 && s.get_char(0) == '+' {
        start = 1;
    }
    let ghost d = unsigned_digits(s@);
    proof {
        assert(d =~= s@.subrange(start as int, n as int));
    }
    if start == n {
        return None;
    }
    let mut acc: u64 = 0;
    let mut i: usize = start;
    while i < n
        invariant
            start <= i <= n,
            n == s@.len(),
            d =~= s@.subrange(start as int, n as int),
            d == unsigned_digits(s@),
            all_digits(d.subrange(0, i - start)),
            acc as nat == digits_value(d.subrange(0, i - start)),
        decreases n - i,
    {
        let c = s.get_char(i);
        if !('0' <= c && c <= '9') {
            proof {
                assert(d[i - start] == c);
                assert(!all_digits(d));
            }
            return None;
        }
        let v = (c as u32 - '0' as u32) as u64;
        let ghost k = i - start;
        proof {
            assert(d.subrange(0, k + 1).drop_last() =~= d.subrange(0, k));
            assert(d.subrange(0, k + 1).last() == c);
            assert(digits_value(d.subrange(0, k + 1)) == acc * 10 + v);
        }
        if acc > (u64::MAX - v) / 10 {
            proof {
                assert(all_digits(d.subrange(0, k + 1)));
                assert(digits_value(d.subrange(0, k + 1)) > u64::MAX) by (nonlinear_arith)
                    requires
                        acc > (u64::MAX - v) / 10,
                        digits_value(d.subrange(0, k + 1)) == acc * 10 + v,
                        v <= 9,
                ;
                if all_digits(d) {
                    lemma_digits_value_grows(d, k + 1, d.len() as int);
                    assert(d.subrange(0, d.len() as int) =~= d);
                    assert(digits_value(d) > u64::MAX);
                }
                assert(parse_u64_spec(s@).is_none());
            }
            return None;
        }
        acc = acc * 10 + v;
        i = i + 1;
        proof {
            assert(all_digits(d.subrange(0, k + 1)));
        }
    }
    proof {
        assert(d.subrange(0, n - start) =~= d);
    }
    Some(acc)
}

/// Whether a path keeps `c` as it is when percent-encoded: ASCII letters and
/// digits and `/ - _ . ~`.
pub open spec fn keeps_char(c: char) -> bool {
    ('a' <= c <= 'z') || ('A' <= c <= 'Z') || ('0' <= c <= '9') || c == '/' || c == '-'
        || c == '_' || c == '.' || c == '~'
}

/// The UTF-8 encoding of a character.
pub open spec fn utf8_of(c: char) -> Seq<u8> {
    let v = c as u32;
    if v < 0x80 {
        seq![v as u8]
    } else if v < 0x800 {
        seq![(0xC0 + v / 64) as u8, (0x80 + v % 64) as u8]
    } else if v < 0x10000 {
        seq![(0xE0 + v / 4096) as u8, (0x80 + (v / 64) % 64) as u8, (0x80 + v % 64) as u8]
    } else {
        seq![
            (0xF0 + v / 262144) as u8,
            (0x80 + (v / 4096) % 64) as u8,
            (0x80 + (v / 64) % 64) as u8,
            (0x80 + v % 64) as u8,
        ]
    }
}

/// The upper-case hexadecimal digit of `d`.
pub open spec fn hex_char(d: nat) -> char {
    if d < 10 {
        digit_char(d)
    } else if d == 10 { 'A' }
    else if d == 11 { 'B' }
    else if d == 12 { 'C' }
    else if d == 13 { 'D' }
    else if d == 14 { 'E' }
    else { 'F' }
}

/// `%XX` for each byte.
pub open spec fn escaped_bytes(b: Seq<u8>) -> Seq<char>
    decreases b.len(),
{
    if b.len() == 0 {
        seq![]
    } else {
        escaped_bytes(b.drop_last()) + seq!['%', hex_char((b.last() / 16) as nat), hex_char((b.last() % 16) as nat)]
    }
}

/// The percent-encoding of one character of a path.
pub open spec fn encode_char(c: char) -> Seq<char> {
    if keeps_char(c) {
        seq![c]
    } else {
        escaped_bytes(utf8_of(c))
    }
}

/// The percent-encoding of a path, character by character.
pub open spec fn percent_encoded(s: Seq<char>) -> Seq<char>
    decreases s.len(),
{
    if s.len() == 0 {
        seq![]
    } else {
        percent_encoded(s.drop_last()) + encode_char(s.last())
    }
}

fn hex_to_char(d: u8) -> (c: char)
    requires
        d < 16,
    ensures
        c == hex_char(d as nat),
{
    if d < 10 {
        digit_to_char(d as u64)
    } else if d == 10 { 'A' }
    else if d == 11 { 'B' }
    else if d == 12 { 'C' }
    else if d == 13 { 'D' }
    else if d == 14 { 'E' }
    else { 'F' }
}

fn push_escaped(out: &mut String, b: u8)
    ensures
        final(out)@ == old(out)@ + seq!['%', hex_char((b / 16) as nat), hex_char((b % 16) as nat)],
{
    push_char(out, '%');
    push_char(out, hex_to_char(b / 16));
    push_char(out, hex_to_char(b % 16));
    proof {
        assert(final(out)@ =~= old(out)@ + seq!['%', hex_char((b / 16) as nat), hex_char((b % 16) as nat)]);
    }
}

proof fn lemma_escaped_bytes_push(b: Seq<u8>, x: u8)
    ensures
        escaped_bytes(b.push(x)) == escaped_bytes(b) + seq!['%', hex_char((x / 16) as nat), hex_char((x % 16) as nat)],
{
    assert(b.push(x).drop_last() =~= b);
}

fn push_encoded_char(out: &mut String, c: char)
    ensures
        final(out)@ == old(out)@ + encode_char(c),
{
    if ('a' <= c && c <= 'z') || ('A' <= c && c <= 'Z') || ('0' <= c && c <= '9') || c == '/'
        || c == '-' || c == '_' || c == '.' || c == '~' {
        push_char(out, c);
        return;
    }
    let v = c as u32;
    let ghost bytes = utf8_of(c);
    if v < 0x80 {
        push_escaped(out, v as u8);
        proof {
            lemma_escaped_bytes_push(seq![], v as u8);
            assert(bytes =~= seq![].push(v as u8));
        }
    } else if v < 0x800 {
        let ghost o = old(out)@;
        push_escaped(out, (0xC0 + v / 64) as u8);
        push_escaped(out, (0x80 + v % 64) as u8);
        proof {
            let b0 = (0xC0 + v / 64) as u8;
            let b1 = (0x80 + v % 64) as u8;
            lemma_escaped_bytes_push(seq![], b0);
            lemma_escaped_bytes_push(seq![b0], b1);
            assert(bytes =~= seq![b0].push(b1));
            assert(seq![].push(b0) =~= seq![b0]);
        }
    } else if v < 0x10000 {
        push_escaped(out, (0xE0 + v / 4096) as u8);
        push_escaped(out, (0x80 + (v / 64) % 64) as u8);
        push_escaped(out, (0x80 + v % 64) as u8);
        proof {
            let b0 = (0xE0 + v / 4096) as u8;
            let b1 = (0x80 + (v / 64) % 64) as u8;
            let b2 = (0x80 + v % 64) as u8;
            lemma_escaped_bytes_push(seq![], b0);
            lemma_escaped_bytes_push(seq![b0], b1);
            lemma_escaped_bytes_push(seq![b0, b1], b2);
            assert(seq![].push(b0) =~= seq![b0]);
            assert(seq![b0].push(b1) =~= seq![b0, b1]);
            assert(bytes =~= seq![b0, b1].push(b2));
        }
    } else {
        push_escaped(out, (0xF0 + v / 262144) as u8);
        push_escaped(out, (0x80 + (v / 4096) % 64) as u8);
        push_escaped(out, (0x80 + (v / 64) % 64) as u8);
        push_escaped(out, (0x80 + v % 64) as u8);
        proof {
            let b0 = (0xF0 + v / 262144) as u8;
            let b1 = (0x80 + (v / 4096) % 64) as u8;
            let b2 = (0x80 + (v / 64) % 64) as u8;
            let b3 = (0x80 + v % 64) as u8;
            lemma_escaped_bytes_push(seq![], b0);
            lemma_escaped_bytes_push(seq![b0], b1);
            lemma_escaped_bytes_push(seq![b0, b1], b2);
            lemma_escaped_bytes_push(seq![b0, b1, b2], b3);
            assert(seq![].push(b0) =~= seq![b0]);
            assert(seq![b0].push(b1) =~= seq![b0, b1]);
            assert(seq![b0, b1].push(b2) =~= seq![b0, b1, b2]);
            assert(bytes =~= seq![b0, b1, b2].push(b3));
        }
    }
}

/// Appends the percent-encoding of the path `s` to `out`.
pub fn push_percent_encoded(out: &mut String, s: &str)
    ensures
        final(out)@ == old(out)@ + percent_encoded(s@),
{
    let n = s.unicode_len();
    let mut i: usize = 0;
    while i < n
        invariant
            i <= n,
            n == s@.len(),
            out@ == old(out)@ + percent_encoded(s@.subrange(0, i as int)),
        decreases n - i,
    {
        let c = s.get_char(i);
        push_encoded_char(out, c);
        proof {
            let p = s@.subrange(0, i + 1);
            assert(p.drop_last() =~= s@.subrange(0, i as int));
            assert(p.last() == c);
        }
        i = i + 1;
    }
    proof {
        assert(s@.subrange(0, n as int) =~= s@);
    }
}

} // verus!
