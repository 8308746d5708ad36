//! Percent-encoding of paths, as the `Path=` key of a `.trashinfo` file
//! uses it.
use vstd::prelude::*;
use crate::text::{chars_of, hex_char, push_char};

verus! {

/// Why `percent_decode` refused its input; the message is the one the
/// tool shows.
#[derive(Debug, Clone, PartialEq)]
pub struct PercentDecodeError(pub &'static str);

impl PercentDecodeError {
    /// The message, as a `String`.
    pub fn message(&self) -> (s: String)
        ensures
            s@ == self.0@,
    {
        self.0.to_string()
    }
}

/// The two ways in which a percent-encoded string can be malformed.
pub enum DecodeFailure {
    /// A `%` is followed by fewer than two characters.
    MissingChar,
    /// The two characters after a `%` are not a hexadecimal number.
    BadHex,
}

/// Characters that stay as they are when encoded: all of Unicode beyond
/// ASCII, ASCII letters and digits, and `-`, `_`, `~`, `.`, `/`.
pub open spec fn unreserved(c: char) -> bool {
    ||| c > '\x7f'
    ||| ('A' <= c && c <= 'Z')
    ||| ('a' <= c && c <= 'z')
    ||| ('0' <= c && c <= '9')
    ||| c == '-' || c == '_' || c == '~' || c == '.' || c == '/'
}

/// The lower-case hexadecimal digit for `d < 16`.
pub open spec fn hex_digit(d: nat) -> char {
    if d < 10 { (d + 48) as char } else { (d + 87) as char }
}

/// The lower-case hexadecimal numeral of `n`, without leading zeros.
pub open spec fn hex_numeral(n: nat) -> Seq<char>
    decreases n,
{
    if n < 16 {
        seq![hex_digit(n)]
    } else {
        hex_numeral(n / 16).push(hex_digit(n % 16))
    }
}

/// `%` and the code point of `c` in lower-case hex, at least two digits.
pub open spec fn escape(c: char) -> Seq<char> {
    if (c as nat) < 16 {
        seq!['%', '0'] + hex_numeral(c as nat)
    } else {
        seq!['%'] + hex_numeral(c as nat)
    }
}

/// One character as `percent_encode` writes it.
pub open spec fn encode_one(c: char) -> Seq<char> {
    if unreserved(c) { seq![c] } else { escape(c) }
}

/// A whole string as `percent_encode` writes it: each character in turn.
pub open spec fn encoded(s: Seq<char>) -> Seq<char>
    decreases s.len(),
{
    if s.len() == 0 {
        seq![]
    } else {
        encode_one(s[0]) + encoded(s.skip(1))
    }
}

/// The value of a hexadecimal digit of either case.
pub open spec fn hex_value(c: char) -> Option<nat> {
    if '0' <= c && c <= '9' {
        Some((c as nat - 48) as nat)
    } else if 'a' <= c && c <= 'f' {
        Some((c as nat - 87) as nat)
    } else if 'A' <= c && c <= 'F' {
        Some((c as nat - 55) as nat)
    } else {
        None
    }
}

/// The number that two characters read as in base sixteen, the way an
/// unsigned parse reads them: two digits, or a `+` sign and one digit.
pub open spec fn hex_pair(a: char, b: char) -> Option<nat> {
    if a == '+' {
        hex_value(b)
    } else {
        match (hex_value(a), hex_value(b)) {
            (Some(x), Some(y)) => Some(16 * x + y),
            _ => None,
        }
    }
}

/// `r` with `p` in front, if it is a success.
pub open spec fn prefixed(p: Seq<char>, r: Result<Seq<char>, DecodeFailure>) -> Result<
    Seq<char>,
    DecodeFailure,
> {
    match r {
        Ok(t) => Ok(p + t),
        Err(e) => Err(e),
    }
}

/// What `percent_decode` makes of `s`: each `%` and the two characters
/// after it become the character with that code point, the rest stays;
/// the first malformed escape decides the failure.
pub open spec fn decoded(s: Seq<char>) -> Result<Seq<char>, DecodeFailure>
    decreases s.len(),
{
    if s.len() == 0 {
        Ok(seq![])
    } else if s[0] != '%' {
        prefixed(seq![s[0]], decoded(s.skip(1)))
    } else if s.len() < 3 {
        Err(DecodeFailure::MissingChar)
    } else {
        match hex_pair(s[1], s[2]) {
            Some(v) => prefixed(seq![v as char], decoded(s.skip(3))),
            None => Err(DecodeFailure::BadHex),
        }
    }
}

/// Whether a character needs no escape.
pub fn is_unreserved(check_reserved: char) -> (b: bool)
    ensures
        b == unreserved(check_reserved),
{
    if check_reserved <= '\x7f' {
        ('A' <= check_reserved && check_reserved <= 'Z')
            || ('a' <= check_reserved && check_reserved <= 'z')
            || ('0' <= check_reserved && check_reserved <= '9')
            || check_reserved == '-' || check_reserved == '_' || check_reserved == '~'
            || check_reserved == '.' || check_reserved == '/'
    } else {
        true
    }
}

/// Appends the hex numeral of `n`.
fn push_hex(s: &mut String, n: u32)
    ensures
        final(s)@ == old(s)@ + hex_numeral(n as nat),
    decreases n,
{
    if n >= 16 {
        push_hex(s, n / 16);
    }
    let c = hex_char(n % 16);
    push_char(s, c);
    proof {
        assert(c == hex_digit((n % 16) as nat));
    }
}

/// `%` and the character's code point in lower-case hex, zero-padded to
/// two digits.
pub fn percent_encode_char(to_encode: char) -> (s: String)
    ensures
        s@ == escape(to_encode),
{
    let mut s = String::new();
    push_char(&mut s, '%');
    let n = to_encode as u32;
    if n < 16 {
        push_char(&mut s, '0');
    }
    push_hex(&mut s, n);
    s
}

/// One character, escaped if it is reserved.
pub fn percent_encode_reserved(to_encode: char) -> (s: String)
    ensures
        s@ == encode_one(to_encode),
{
    if is_unreserved(to_encode) {
        let mut s = String::new();
        push_char(&mut s, to_encode);
        s
    } else {
        percent_encode_char(to_encode)
    }
}


/// Encoding a concatenation gives the concatenation of the encodings.
pub proof fn lemma_encoded_concat(a: Seq<char>, b: Seq<char>)
    ensures
        encoded(a + b) == encoded(a) + encoded(b),
    decreases a.len(),
{
    if a.len() == 0 {
        assert(a + b =~= b);
        assert(encoded(a) + encoded(b) =~= encoded(b));
    } else {
        assert((a + b).skip(1) =~= a.skip(1) + b);
        lemma_encoded_concat(a.skip(1), b);
        assert(encoded(a + b) =~= encode_one(a[0]) + (encoded(a.skip(1)) + encoded(b)));
    }
}

/// A one-character string encodes as that character does.
proof fn lemma_encoded_single(c: char)
    ensures
        encoded(seq![c]) == encode_one(c),
{
    let e = Seq::<char>::empty();
    assert(seq![c].skip(1) =~= e);
    assert(encoded(e) == e);
    assert(encode_one(c) + e =~= encode_one(c));
}

/// Nothing in front changes nothing.
proof fn lemma_prefixed_empty(r: Result<Seq<char>, DecodeFailure>)
    ensures
        prefixed(Seq::<char>::empty(), r) == r,
{
    if let Ok(t) = r {
        assert(Seq::<char>::empty() + t =~= t);
    }
}

/// Encodes every reserved character of a string.
pub fn percent_encode(to_encode: &str) -> (s: String)
    ensures
        s@ == encoded(to_encode@),
{
    let chars = chars_of(to_encode);
    let mut s = String::new();
    let mut i: usize = 0;
    while i < chars.len()
        invariant
            chars@ == to_encode@,
            i <= chars.len(),
            s@ == encoded(to_encode@.take(i as int)),
        decreases chars.len() - i,
    {
        let piece = percent_encode_reserved(chars[i]);
        proof {
            let t = to_encode@;
            assert(t.take(i + 1) =~= t.take(i as int) + seq![t[i as int]]);
            lemma_encoded_concat(t.take(i as int), seq![t[i as int]]);
            lemma_encoded_single(t[i as int]);
        }
        s.append(piece.as_str());
        i = i + 1;
    }
    assert(to_encode@.take(chars.len() as int) =~= to_encode@);
    s
}

/// Reads two characters as a hexadecimal number.
fn parse_hex_pair(a: char, b: char) -> (r: Option<u8>)
    ensures
        match hex_pair(a, b) {
            Some(v) => r == Some(v as u8) && v < 256,
            None => r is None,
        },
{
    let hb = hex_digit_value(b);
    if a == '+' {
        hb
    } else {
        match (hex_digit_value(a), hb) {
            (Some(x), Some(y)) => Some(16 * x + y),
            _ => None,
        }
    }
}

/// The value of one hexadecimal digit.
fn hex_digit_value(c: char) -> (r: Option<u8>)
    ensures
        match hex_value(c) {
            Some(v) => r == Some(v as u8) && v < 16,
            None => r is None,
        },
{
    if '0' <= c && c <= '9' {
        Some(((c as u32) - 48) as u8)
    } else if 'a' <= c && c <= 'f' {
        Some(((c as u32) - 87) as u8)
    } else if 'A' <= c && c <= 'F' {
        Some(((c as u32) - 55) as u8)
    } else {
        None
    }
}

/// Turns each `%xx` escape back into the character with code point `xx`.
pub fn percent_decode(to_decode: &str) -> (r: Result<String, PercentDecodeError>)
    ensures
        match decoded(to_decode@) {
            Ok(t) => r matches Ok(s) && s@ == t,
            Err(DecodeFailure::MissingChar) => r matches Err(e) && e.0@
                == "Char missing in encoding."@,
            Err(DecodeFailure::BadHex) => r matches Err(e) && e.0@ == "Error parsing hex to char."@,
        },
{
    let chars = chars_of(to_decode);
    let n = chars.len();
    let mut result = String::new();
    let mut i: usize = 0;
    proof {
        assert(to_decode@.skip(0) =~= to_decode@);
        lemma_prefixed_empty(decoded(to_decode@));
    }
    while i < n
        invariant
            chars@ == to_decode@,
            n == chars.len(),
            i <= n,
            decoded(to_decode@) == prefixed(result@, decoded(to_decode@.skip(i as int))),
        decreases n - i,
    {
        let ghost rest = to_decode@.skip(i as int);
        let c = chars[i];
        if c == '%' {
            if n - i < 3 {
                return Err(PercentDecodeError("Char missing in encoding."));
            }
            match parse_hex_pair(chars[i + 1], chars[i + 2]) {
                Some(v) => {
                    let d = v as char;
                    proof {
                        assert(rest.skip(3) =~= to_decode@.skip(i + 3));
                        assert(result@.push(d) + decoded(rest.skip(3))->Ok_0 =~= result@ + (seq![d] + decoded(rest.skip(3))->Ok_0));
                    }
                    push_char(&mut result, d);
                    i = i + 3;
                },
                None => {
                    return Err(PercentDecodeError("Error parsing hex to char."));
                },
            }
        } else {
            proof {
                assert(rest.skip(1) =~= to_decode@.skip(i + 1));
                assert(result@.push(c) + decoded(rest.skip(1))->Ok_0 =~= result@ + (seq![c] + decoded(rest.skip(1))->Ok_0));
            }
            push_char(&mut result, c);
            i = i + 1;
        }
    }
    assert(to_decode@.skip(n as int) =~= Seq::<char>::empty());
    assert(result@ + Seq::<char>::empty() =~= result@);
    Ok(result)
}


/// Reading back a hex digit gives its value.
proof fn lemma_hex_digit_value(d: nat)
    requires
        d < 16,
    ensures
        hex_value(hex_digit(d)) == Some(d),
{
}

/// Decoding one encoded character in front of more text.
proof fn lemma_decode_one(c: char, rest: Seq<char>)
    ensures
        decoded(encode_one(c) + rest) == prefixed(seq![c], decoded(rest)),
{
    let x = encode_one(c) + rest;
    if unreserved(c) {
        assert(x.skip(1) =~= rest);
        assert(x[0] == c);
    } else {
        let n = c as nat;
        reveal_with_fuel(hex_numeral, 2);
        lemma_hex_digit_value(n % 16);
        lemma_hex_digit_value(n / 16);
        assert(n < 128);
        if n < 16 {
            assert(x[1] == '0' && x[2] == hex_digit(n));
        } else {
            assert(hex_numeral(n) =~= seq![hex_digit(n / 16), hex_digit(n % 16)]);
            assert(x[1] == hex_digit(n / 16) && x[2] == hex_digit(n % 16));
        }
        assert(hex_pair(x[1], x[2]) == Some(n));
        assert(x.skip(3) =~= rest);
        assert((n as char) == c);
    }
}

/// Decoding undoes encoding: every string comes back from
/// `percent_decode(percent_encode(s))` unchanged.
pub proof fn lemma_decode_encode(s: Seq<char>)
    ensures
        decoded(encoded(s)) == Ok::<Seq<char>, DecodeFailure>(s),
    decreases s.len(),
{
    if s.len() == 0 {
        assert(encoded(s) == Seq::<char>::empty());
        assert(s =~= Seq::<char>::empty());
    } else {
        lemma_decode_encode(s.skip(1));
        lemma_decode_one(s[0], encoded(s.skip(1)));
        assert(encoded(s) == encode_one(s[0]) + encoded(s.skip(1)));
        assert(seq![s[0]] + s.skip(1) =~= s);
    }
}


/// A character that may stand in encoded text: `%` or an unreserved one.
pub open spec fn safe(c: char) -> bool {
    c == '%' || unreserved(c)
}

/// Hex numerals use only digits and `a` to `f`.
proof fn lemma_hex_numeral_safe(n: nat)
    ensures
        forall|i: int| 0 <= i < hex_numeral(n).len() ==> safe(#[trigger] hex_numeral(n)[i]),
    decreases n,
{
    assert(safe(hex_digit(n % 16)));
    if n >= 16 {
        lemma_hex_numeral_safe(n / 16);
        let h = hex_numeral(n / 16);
        assert forall|i: int| 0 <= i < hex_numeral(n).len() implies safe(
            #[trigger] hex_numeral(n)[i],
        ) by {
            if i < h.len() {
                assert(hex_numeral(n)[i] == h[i]);
            }
        }
    } else {
        assert(safe(hex_digit(n)));
    }
}

/// Encoded text holds only `%` and unreserved characters.
pub proof fn lemma_encoded_safe(s: Seq<char>)
    ensures
        forall|i: int| 0 <= i < encoded(s).len() ==> safe(#[trigger] encoded(s)[i]),
    decreases s.len(),
{
    if s.len() > 0 {
        lemma_encoded_safe(s.skip(1));
        lemma_hex_numeral_safe(s[0] as nat);
        let e = encode_one(s[0]);
        let r = encoded(s.skip(1));
        assert forall|i: int| 0 <= i < encoded(s).len() implies safe(#[trigger] encoded(s)[i]) by {
            if i < e.len() {
                assert(encoded(s)[i] == e[i]);
                if !unreserved(s[0]) && (s[0] as nat) >= 16 && i >= 1 {
                    assert(e[i] == hex_numeral(s[0] as nat)[i - 1]);
                } else if !unreserved(s[0]) && i >= 2 {
                    assert(e[i] == hex_numeral(s[0] as nat)[i - 2]);
                }
            } else {
                assert(encoded(s)[i] == r[i - e.len()]);
            }
        }
    }
}

/// Text made only of unreserved characters is its own encoding.
pub proof fn lemma_encoded_plain(s: Seq<char>)
    requires
        forall|i: int| 0 <= i < s.len() ==> unreserved(#[trigger] s[i]),
    ensures
        encoded(s) == s,
    decreases s.len(),
{
    if s.len() == 0 {
        assert(encoded(s) =~= s);
    } else {
        assert(forall|i: int| 0 <= i < s.skip(1).len() ==> s.skip(1)[i] == s[i + 1]);
        lemma_encoded_plain(s.skip(1));
        assert(seq![s[0]] + s.skip(1) =~= s);
    }
}

/// Text without `%` decodes to itself.
pub proof fn lemma_decoded_plain(s: Seq<char>)
    requires
        forall|i: int| 0 <= i < s.len() ==> #[trigger] s[i] != '%',
    ensures
        decoded(s) == Ok::<Seq<char>, DecodeFailure>(s),
    decreases s.len(),
{
    if s.len() == 0 {
        assert(s =~= Seq::<char>::empty());
    } else {
        assert(forall|i: int| 0 <= i < s.skip(1).len() ==> s.skip(1)[i] == s[i + 1]);
        lemma_decoded_plain(s.skip(1));
        assert(seq![s[0]] + s.skip(1) =~= s);
    }
}


/// The ASCII characters that a path keeps as they are: letters A to Z
/// and a to z, digits, and `-`, `_`, `~`, `.`, `/`.
pub open spec fn kept_ascii(c: char) -> bool {
    ||| ('A' <= c && c <= 'Z')
    ||| ('a' <= c && c <= 'z')
    ||| ('0' <= c && c <= '9')
    ||| c == '-'
    ||| c == '_'
    ||| c == '~'
    ||| c == '.'
    ||| c == '/'
}

/// The lower-case hexadecimal digits, in order of value.
pub open spec fn lower_hex() -> Seq<char> {
    seq!['0', '1', '2', '3', '4', '5', '6', '7', '8', '9', 'a', 'b', 'c', 'd', 'e', 'f']
}

/// The upper-case hexadecimal digits, in order of value.
pub open spec fn upper_hex() -> Seq<char> {
    seq!['0', '1', '2', '3', '4', '5', '6', '7', '8', '9', 'A', 'B', 'C', 'D', 'E', 'F']
}

/// The digit tables read back as their values.
proof fn lemma_hex_tables(d: int)
    requires
        0 <= d < 16,
    ensures
        lower_hex()[d] == hex_digit(d as nat),
        hex_value(lower_hex()[d]) == Some(d as nat),
        hex_value(upper_hex()[d]) == Some(d as nat),
        lower_hex()[d] != '+',
        upper_hex()[d] != '+',
{
    if d == 0 {
    } else if d == 1 {
    } else if d == 2 {
    } else if d == 3 {
    } else if d == 4 {
    } else if d == 5 {
    } else if d == 6 {
    } else if d == 7 {
    } else if d == 8 {
    } else if d == 9 {
    } else if d == 10 {
    } else if d == 11 {
    } else if d == 12 {
    } else if d == 13 {
    } else if d == 14 {
    } else {
    }
}

/// An ASCII character in a path stays as it is exactly when it is a
/// letter, a digit, or one of `-`, `_`, `~`, `.`, `/`; any other ASCII
/// character becomes `%` and the two lower-case hex digits of its code.
pub proof fn lemma_ascii_encoding(c: char)
    requires
        c <= '\x7f',
    ensures
        kept_ascii(c) ==> encoded(seq![c]) == seq![c],
        !kept_ascii(c) ==> encoded(seq![c]) == seq!['%', lower_hex()[c as int / 16], lower_hex()[c as int % 16]],
{
    lemma_encoded_single(c);
    let n = c as nat;
    if !kept_ascii(c) {
        reveal_with_fuel(hex_numeral, 2);
        lemma_hex_tables(n as int / 16);
        lemma_hex_tables(n as int % 16);
        if n < 16 {
            assert(escape(c) =~= seq!['%', '0', hex_digit(n)]);
        } else {
            assert(escape(c) =~= seq!['%', hex_digit(n / 16), hex_digit(n % 16)]);
        }
    }
}

/// An escape decodes to the character with that code, whichever case
/// its hex digits are written in.
pub proof fn lemma_decode_escape_any_case(x: int, y: int)
    requires
        0 <= x < 16,
        0 <= y < 16,
    ensures
        decoded(seq!['%', upper_hex()[x], upper_hex()[y]]) == Ok::<Seq<char>, DecodeFailure>(
            seq![(16 * x + y) as char],
        ),
        decoded(seq!['%', lower_hex()[x], lower_hex()[y]]) == Ok::<Seq<char>, DecodeFailure>(
            seq![(16 * x + y) as char],
        ),
{
    lemma_hex_tables(x);
    lemma_hex_tables(y);
    let e = Seq::<char>::empty();
    let u = seq!['%', upper_hex()[x], upper_hex()[y]];
    let l = seq!['%', lower_hex()[x], lower_hex()[y]];
    assert(u.skip(3) =~= e);
    assert(l.skip(3) =~= e);
    assert(decoded(e) == Ok::<Seq<char>, DecodeFailure>(e));
    assert(seq![(16 * x + y) as char] + e =~= seq![(16 * x + y) as char]);
}

} // verus!
