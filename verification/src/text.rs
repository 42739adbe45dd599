//! Bytes, digits and strings: the small conversions that replies, OSC
//! parameters and key sequences are made of.
use vstd::prelude::*;
use vstd::utf8::*;

verus! {

// ---------------------------------------------------------------------------
// Trusted items: std string functions
// ---------------------------------------------------------------------------

/// `String::push` appends one character.
pub assume_specification[ String::push ](s: &mut String, ch: char)
    ensures
        final(s)@ == old(s)@.push(ch),
;

/// `String::pop` removes the last character and returns it, or returns `None`
/// and leaves an empty string as it is.
pub assume_specification[ String::pop ](s: &mut String) -> (r: Option<char>)
    ensures
        old(s)@.len() == 0 ==> r is None && final(s)@ == old(s)@,
        old(s)@.len() > 0 ==> r == Some(old(s)@.last()) && final(s)@ == old(s)@.drop_last(),
;

/// `String::from_utf8` on a copy of `bytes`: the decoded text when the bytes
/// are valid UTF-8, an error (here `None`) exactly when they are not.
#[verifier::external_body]
pub(crate) fn utf8_text(bytes: &[u8]) -> (r: Option<String>)
    ensures
        r is Some <==> valid_utf8(bytes@),
        r matches Some(s) ==> s@ == decode_utf8(bytes@),
{
    String::from_utf8(bytes.to_vec()).ok()
}

/// What `String::from_utf8_lossy` makes of a byte string: its text, with
/// U+FFFD in place of what is not UTF-8.
pub uninterp spec fn lossy_text(bytes: Seq<u8>) -> Seq<char>;

/// `String::from_utf8_lossy`: valid UTF-8 decodes to its text; what the
/// replacement of malformed input looks like is left to the name.
#[verifier::external_body]
pub(crate) fn utf8_lossy(bytes: &[u8]) -> (r: String)
    ensures
        r@ == lossy_text(bytes@),
        valid_utf8(bytes@) ==> r@ == decode_utf8(bytes@),
{
    String::from_utf8_lossy(bytes).into_owned()
}

// ---------------------------------------------------------------------------
// Byte strings
// ---------------------------------------------------------------------------

/// The UTF-8 bytes of a string.
pub open spec fn lit(s: &str) -> Seq<u8> {
    encode_utf8(s@)
}

/// Append the UTF-8 bytes of `s`.
pub fn put_str(out: &mut Vec<u8>, s: &str)
    ensures
        final(out)@ == old(out)@ + lit(s),
{
    put_bytes(out, s.as_bytes());
}

/// Append `bytes`.
pub fn put_bytes(out: &mut Vec<u8>, bytes: &[u8])
    ensures
        final(out)@ == old(out)@ + bytes@,
{
    let ghost before = out@;
    let mut i: usize = 0;
    while i < bytes.len()
        invariant
            i <= bytes.len(),
            out@ == before + bytes@.take(i as int),
        decreases bytes.len() - i,
    {
        out.push(bytes[i]);
        i += 1;
        proof {
            assert(before + bytes@.take(i as int) =~= (before + bytes@.take(i - 1)).push(
                bytes@[i - 1],
            ));
        }
    }
    proof {
        assert(bytes@.take(bytes@.len() as int) =~= bytes@);
    }
}

/// A fresh copy of `bytes`.
pub fn copy_bytes(bytes: &[u8]) -> (r: Vec<u8>)
    ensures
        r@ == bytes@,
{
    let mut r: Vec<u8> = Vec::new();
    put_bytes(&mut r, bytes);
    proof {
        assert(Seq::<u8>::empty() + bytes@ =~= bytes@);
    }
    r
}

/// The part of `bytes` from `from` up to, not including, `to`.
pub fn copy_range(bytes: &[u8], from: usize, to: usize) -> (r: Vec<u8>)
    requires
        from <= to <= bytes@.len(),
    ensures
        r@ == bytes@.subrange(from as int, to as int),
{
    let mut r: Vec<u8> = Vec::new();
    let mut i: usize = from;
    while i < to
        invariant
            from <= i <= to <= bytes@.len(),
            r@ == bytes@.subrange(from as int, i as int),
        decreases to - i,
    {
        r.push(bytes[i]);
        i += 1;
        proof {
            assert(bytes@.subrange(from as int, i as int) =~= bytes@.subrange(
                from as int,
                i - 1,
            ).push(bytes@[i - 1]));
        }
    }
    r
}

/// True when `bytes` is the one byte `b`.
pub open spec fn is_byte(bytes: Seq<u8>, b: u8) -> bool {
    bytes.len() == 1 && bytes[0] == b
}

/// Position of the first `b` in `s` at or after `from`, or the length of `s`.
pub open spec fn find_byte(s: Seq<u8>, b: u8, from: int) -> int
    decreases s.len() - from,
{
    if from < 0 || from >= s.len() || s[from] == b {
        from
    } else {
        find_byte(s, b, from + 1)
    }
}

/// `find_byte` stays within the string and passes over no `b`.
pub proof fn find_byte_bounds(s: Seq<u8>, b: u8, from: int)
    requires
        0 <= from <= s.len(),
    ensures
        from <= find_byte(s, b, from) <= s.len(),
        find_byte(s, b, from) < s.len() ==> s[find_byte(s, b, from)] == b,
        forall|i: int| from <= i < find_byte(s, b, from) ==> s[i] != b,
    decreases s.len() - from,
{
    if from < s.len() && s[from] != b {
        find_byte_bounds(s, b, from + 1);
    }
}

/// Position of the first `b` at or after `from`; the length when there is none.
pub fn position_from(bytes: &[u8], b: u8, from: usize) -> (r: usize)
    requires
        from <= bytes@.len(),
    ensures
        r == find_byte(bytes@, b, from as int),
        from <= r <= bytes@.len(),
        r < bytes@.len() ==> bytes@[r as int] == b,
{
    let mut i: usize = from;
    while i < bytes.len() && bytes[i] != b
        invariant
            from <= i <= bytes@.len(),
            find_byte(bytes@, b, from as int) == find_byte(bytes@, b, i as int),
        decreases bytes@.len() - i,
    {
        i += 1;
    }
    i
}

/// The pieces of `s` between the separators `sep`: always at least one.
pub open spec fn split(s: Seq<u8>, sep: u8) -> Seq<Seq<u8>> {
    split_from(s, sep, 0)
}

/// The pieces of `s` from position `from` on.
pub open spec fn split_from(s: Seq<u8>, sep: u8, from: int) -> Seq<Seq<u8>>
    decreases s.len() - from,
{
    let end = find_byte(s, sep, from);
    if from < 0 || from > s.len() || end >= s.len() || end < from {
        seq![s.subrange(from, s.len() as int)]
    } else {
        seq![s.subrange(from, end)] + split_from(s, sep, end + 1)
    }
}

/// The views of a vector of byte strings.
pub open spec fn views(v: Seq<Vec<u8>>) -> Seq<Seq<u8>> {
    Seq::new(v.len(), |i: int| v[i]@)
}

/// Split `bytes` at every `sep`.
pub fn split_bytes(bytes: &[u8], sep: u8) -> (r: Vec<Vec<u8>>)
    ensures
        views(r@) == split(bytes@, sep),
        r@.len() >= 1,
{
    let mut r: Vec<Vec<u8>> = Vec::new();
    let mut from: usize = 0;
    proof {
        assert(views(r@) + split_from(bytes@, sep, 0) =~= split(bytes@, sep));
    }
    loop
        invariant
            from <= bytes@.len(),
            views(r@) + split_from(bytes@, sep, from as int) == split(bytes@, sep),
        decreases bytes@.len() - from,
    {
        let end = position_from(bytes, sep, from);
        let ghost before = r@;
        if end >= bytes.len() {
            r.push(copy_range(bytes, from, bytes.len()));
            proof {
                assert(views(r@) =~= views(before) + seq![
                    bytes@.subrange(from as int, bytes@.len() as int),
                ]);
            }
            return r;
        }
        r.push(copy_range(bytes, from, end));
        proof {
            assert(views(r@) =~= views(before).push(bytes@.subrange(from as int, end as int)));
            assert(views(r@) + split_from(bytes@, sep, end + 1) =~= views(before) + (seq![
                bytes@.subrange(from as int, end as int),
            ] + split_from(bytes@, sep, end + 1)));
        }
        from = end + 1;
    }
}

/// `parts` from index `from` on, joined by `sep`.
pub open spec fn join_from(parts: Seq<Seq<u8>>, sep: u8, from: int) -> Seq<u8>
    decreases parts.len() - from,
{
    if from < 0 || from >= parts.len() {
        Seq::<u8>::empty()
    } else if from + 1 == parts.len() {
        parts[from]
    } else {
        parts[from] + seq![sep] + join_from(parts, sep, from + 1)
    }
}

/// Join the byte strings from index `from` on with `sep` between them.
pub fn join_bytes(parts: &Vec<Vec<u8>>, sep: u8, from: usize) -> (r: Vec<u8>)
    requires
        from < parts@.len(),
    ensures
        r@ == join_from(views(parts@), sep, from as int),
{
    let mut r: Vec<u8> = Vec::new();
    let mut i: usize = from;
    let ghost vs = views(parts@);
    proof {
        assert(r@ + join_from(vs, sep, from as int) =~= join_from(vs, sep, from as int));
    }
    while parts.len() - i > 1
        invariant
            from <= i < parts@.len(),
            vs == views(parts@),
            r@ + join_from(vs, sep, i as int) == join_from(vs, sep, from as int),
        decreases parts@.len() - i,
    {
        let ghost before = r@;
        put_bytes(&mut r, parts[i].as_slice());
        r.push(sep);
        proof {
            assert(r@ =~= before + vs[i as int] + seq![sep]);
            assert(before + (vs[i as int] + seq![sep] + join_from(vs, sep, i + 1)) =~= r@
                + join_from(vs, sep, i + 1));
        }
        i += 1;
    }
    put_bytes(&mut r, parts[i].as_slice());
    r
}

// ---------------------------------------------------------------------------
// Numbers
// ---------------------------------------------------------------------------

/// The decimal digits of `n`, most significant first, without leading zeros.
pub open spec fn decimal(n: nat) -> Seq<u8>
    decreases n,
{
    if n < 10 {
        seq![(48 + n) as u8]
    } else {
        decimal(n / 10).push((48 + n % 10) as u8)
    }
}

/// Append the decimal digits of `n`.
pub fn put_decimal(out: &mut Vec<u8>, n: u64)
    ensures
        final(out)@ == old(out)@ + decimal(n as nat),
    decreases n,
{
    if n < 10 {
        out.push(48 + n as u8);
    } else {
        let ghost before = out@;
        put_decimal(out, n / 10);
        out.push(48 + (n % 10) as u8);
        proof {
            assert(out@ =~= before + decimal(n as nat));
        }
    }
}

/// The decimal digits of `n` as characters.
pub open spec fn decimal_text(n: nat) -> Seq<char>
    decreases n,
{
    if n < 10 {
        seq![(48 + n) as char]
    } else {
        decimal_text(n / 10).push((48 + n % 10) as char)
    }
}

/// Append the decimal digits of `n`.
pub fn put_number(out: &mut String, n: u64)
    ensures
        final(out)@ == old(out)@ + decimal_text(n as nat),
    decreases n,
{
    if n < 10 {
        out.push((48 + n as u8) as char);
    } else {
        let ghost before = out@;
        put_number(out, n / 10);
        out.push((48 + (n % 10) as u8) as char);
        proof {
            assert(out@ =~= before + decimal_text(n as nat));
        }
    }
}

/// The lower-case hexadecimal digit of `d`, for `d < 16`.
pub open spec fn hex_digit(d: int) -> u8 {
    if d < 10 {
        (48 + d) as u8
    } else {
        (87 + d) as u8
    }
}

/// The value of an ASCII digit in a radix up to 36, or `None`.
pub open spec fn digit_value(b: u8, radix: int) -> Option<int> {
    let v = if 48 <= b <= 57 {
        b - 48
    } else if 97 <= b <= 122 {
        b - 87
    } else if 65 <= b <= 90 {
        b - 55
    } else {
        radix
    };
    if v < radix {
        Some(v)
    } else {
        None
    }
}

/// True when every byte is a digit in `radix`.
pub open spec fn all_digits(s: Seq<u8>, radix: int) -> bool {
    forall|i: int| 0 <= i < s.len() ==> #[trigger] digit_value(s[i], radix) is Some
}

/// The number that the digits `s` write in `radix`.
pub open spec fn digits_value(s: Seq<u8>, radix: int) -> int
    decreases s.len(),
{
    if s.len() == 0 {
        0
    } else {
        digits_value(s.drop_last(), radix) * radix + digit_value(s.last(), radix)->0
    }
}

/// The digits that follow an optional leading `+`.
pub open spec fn unsigned_digits(s: Seq<u8>) -> Seq<u8> {
    if s.len() > 0 && s[0] == 43 {
        s.subrange(1, s.len() as int)
    } else {
        s
    }
}

/// An unsigned number written in `radix`: an optional `+`, then at least one
/// digit and nothing else, no larger than `max`.
pub open spec fn unsigned_number(s: Seq<u8>, radix: int, max: int) -> Option<int> {
    let d = unsigned_digits(s);
    if d.len() > 0 && all_digits(d, radix) && digits_value(d, radix) <= max {
        Some(digits_value(d, radix))
    } else {
        None
    }
}

fn digit_of(b: u8, radix: u8) -> (r: Option<u8>)
    requires
        2 <= radix <= 36,
    ensures
        r is Some <==> digit_value(b, radix as int) is Some,
        r matches Some(d) ==> digit_value(b, radix as int) == Some(d as int) && d < radix,
{
    let v: u8 = if 48 <= b && b <= 57 {
        b - 48
    } else if 97 <= b && b <= 122 {
        b - 87
    } else if 65 <= b && b <= 90 {
        b - 55
    } else {
        radix
    };
    if v < radix {
        Some(v)
    } else {
        None
    }
}

proof fn digits_value_grows(s: Seq<u8>, radix: int, i: int)
    requires
        2 <= radix <= 36,
        all_digits(s, radix),
        0 <= i <= s.len(),
    ensures
        0 <= digits_value(s.take(i), radix) <= digits_value(s, radix),
    decreases s.len(),
{
    if s.len() == 0 {
        assert(s.take(i) =~= s);
    } else {
        let t = s.drop_last();
        assert forall|k: int| 0 <= k < t.len() implies #[trigger] digit_value(t[k], radix) is Some by {
            assert(t[k] == s[k]);
        }
        digits_value_grows(t, radix, if i < s.len() {
            i
        } else {
            t.len() as int
        });
        digits_value_grows(t, radix, t.len() as int);
        assert(t.take(t.len() as int) =~= t);
        assert(digit_value(s[s.len() - 1], radix) is Some);
        assert(digits_value(t, radix) <= digits_value(t, radix) * radix) by (nonlinear_arith)
            requires
                digits_value(t, radix) >= 0,
                radix >= 2,
        ;
        if i < s.len() {
            assert(s.take(i) =~= t.take(i));
        } else {
            assert(s.take(i) =~= s);
        }
    }
}

/// Read an unsigned number written in `radix`, at most `max`.
pub fn parse_large(bytes: &[u8], radix: u8, max: u64) -> (r: Option<u64>)
    requires
        2 <= radix <= 36,
    ensures
        r is Some <==> unsigned_number(bytes@, radix as int, max as int) is Some,
        r matches Some(v) ==> unsigned_number(bytes@, radix as int, max as int) == Some(v as int)
            && v <= max,
{
    let start: usize = if bytes.len() > 0 && bytes[0] == 43 {
        1
    } else {
        0
    };
    let ghost d = unsigned_digits(bytes@);
    proof {
        assert(d =~= bytes@.subrange(start as int, bytes@.len() as int));
    }
    if start == bytes.len() {
        return None;
    }
    let mut i: usize = start;
    let mut acc: u128 = 0;
    proof {
        assert(d.take(0) =~= Seq::<u8>::empty());
    }
    while i < bytes.len()
        invariant
            start <= i <= bytes@.len(),
            d == bytes@.subrange(start as int, bytes@.len() as int),
            d == unsigned_digits(bytes@),
            2 <= radix <= 36,
            0 <= acc <= max,
            acc == digits_value(d.take(i - start), radix as int),
            all_digits(d.take(i - start), radix as int),
        decreases bytes@.len() - i,
    {
        let ghost k = i - start;
        let digit = digit_of(bytes[i], radix);
        proof {
            assert(d[k] == bytes@[i as int]);
            assert(d.take(k + 1).drop_last() =~= d.take(k));
            assert(d.take(k + 1).last() == d[k]);
        }
        match digit {
            None => {
                proof {
                    assert(digit_value(d[k], radix as int) is None);
                }
                return None;
            },
            Some(v) => {
                assert(acc * radix <= 0xffff_ffff_ffff_ffff * 36) by (nonlinear_arith)
                    requires
                        0 <= acc <= 0xffff_ffff_ffff_ffff,
                        2 <= radix <= 36,
                ;
                acc = acc * (radix as u128) + v as u128;
                proof {
                    assert forall|j: int| 0 <= j < k + 1 implies #[trigger] digit_value(
                        d.take(k + 1)[j],
                        radix as int,
                    ) is Some by {
                        if j < k {
                            assert(d.take(k + 1)[j] == d.take(k)[j]);
                        }
                    }
                }
                if acc > max as u128 {
                    proof {
                        if all_digits(d, radix as int) {
                            digits_value_grows(d, radix as int, k + 1);
                        }
                    }
                    return None;
                }
            },
        }
        i += 1;
    }
    proof {
        assert(d.take(d.len() as int) =~= d);
    }
    Some(acc as u64)
}

/// Read an unsigned number written in `radix`, at most `max`.
pub fn parse_unsigned(bytes: &[u8], radix: u8, max: u32) -> (r: Option<u32>)
    requires
        2 <= radix <= 36,
    ensures
        r is Some <==> unsigned_number(bytes@, radix as int, max as int) is Some,
        r matches Some(v) ==> unsigned_number(bytes@, radix as int, max as int) == Some(v as int)
            && v <= max,
{
    match parse_large(bytes, radix, max as u64) {
        Some(v) => Some(v as u32),
        None => None,
    }
}

// ---------------------------------------------------------------------------
// Characters
// ---------------------------------------------------------------------------

/// `char::from_u32`: the character of a Unicode scalar value, `None` for any
/// other number.
pub assume_specification[ char::from_u32 ](i: u32) -> (r: Option<char>)
    ensures
        r is Some <==> (i < 0xd800 || 0xdfff < i <= 0x10ffff),
        r matches Some(c) ==> c as int == i,
;

/// The character with this code; a space where there is none.
pub open spec fn coded_char(code: u16) -> char {
    if code < 0xd800 || code > 0xdfff {
        code as char
    } else {
        ' '
    }
}

/// The character with this code; a space where there is none.
pub fn char_of_code(code: u16) -> (r: char)
    ensures
        r == coded_char(code),
{
    match char::from_u32(code as u32) {
        Some(c) => c,
        None => ' ',
    }
}

/// The characters of `s` as a vector.
pub fn chars_of(s: &str) -> (r: Vec<char>)
    ensures
        r@ == s@,
{
    let mut r: Vec<char> = Vec::new();
    for c in it: s.chars()
        invariant
            r@ == it.seq().take(it.index() as int),
    {
        r.push(c);
        proof {
            assert(it.seq().take(it.index() + 1) =~= it.seq().take(it.index() as int).push(c));
        }
    }
    proof {
        assert(r@ =~= s@);
    }
    r
}

/// The string made of the characters `chars[from..to]`.
pub fn string_of(chars: &[char], from: usize, to: usize) -> (r: String)
    requires
        from <= to <= chars@.len(),
    ensures
        r@ == chars@.subrange(from as int, to as int),
{
    let mut r = String::new();
    let mut i: usize = from;
    while i < to
        invariant
            from <= i <= to <= chars@.len(),
            r@ == chars@.subrange(from as int, i as int),
        decreases to - i,
    {
        r.push(chars[i]);
        i += 1;
        proof {
            assert(chars@.subrange(from as int, i as int) =~= chars@.subrange(
                from as int,
                i - 1,
            ).push(chars@[i - 1]));
        }
    }
    r
}

// ---------------------------------------------------------------------------
// Pieces of text
// ---------------------------------------------------------------------------

/// Position of the first `c` in `s` at or after `from`, or the length of `s`.
pub open spec fn find_char(s: Seq<char>, c: char, from: int) -> int
    decreases s.len() - from,
{
    if from < 0 || from >= s.len() || s[from] == c {
        from
    } else {
        find_char(s, c, from + 1)
    }
}

/// `find_char` stays within the text.
pub proof fn find_char_bounds(s: Seq<char>, c: char, from: int)
    requires
        0 <= from <= s.len(),
    ensures
        from <= find_char(s, c, from) <= s.len(),
    decreases s.len() - from,
{
    if from < s.len() && s[from] != c {
        find_char_bounds(s, c, from + 1);
    }
}

/// Position of the first `c` at or after `from`; the length when there is none.
pub fn char_from(chars: &Vec<char>, c: char, from: usize) -> (r: usize)
    requires
        from <= chars@.len(),
    ensures
        r == find_char(chars@, c, from as int),
        from <= r <= chars@.len(),
{
    let mut i: usize = from;
    while i < chars.len() && chars[i] != c
        invariant
            from <= i <= chars@.len(),
            find_char(chars@, c, from as int) == find_char(chars@, c, i as int),
        decreases chars@.len() - i,
    {
        i += 1;
    }
    i
}

/// True when `part` stands in `s` at position `pos`.
pub open spec fn stands_at(s: Seq<char>, pos: int, part: Seq<char>) -> bool {
    0 <= pos && pos + part.len() <= s.len() && s.subrange(pos, pos + part.len()) == part
}

/// True when `part` stands in `chars` at position `pos`.
pub fn text_at(chars: &[char], pos: usize, part: &str) -> (r: bool)
    requires
        pos <= chars@.len(),
    ensures
        r == stands_at(chars@, pos as int, part@),
{
    let p = chars_of(part);
    let len: usize = chars.len();
    if p.len() > len - pos {
        return false;
    }
    let mut i: usize = 0;
    while i < p.len()
        invariant
            i <= p@.len(),
            pos + p@.len() <= len == chars@.len(),
            p@ == part@,
            forall|j: int| 0 <= j < i ==> p@[j] == chars@[pos + j],
        decreases p@.len() - i,
    {
        if p[i] != chars[pos + i] {
            proof {
                if stands_at(chars@, pos as int, part@) {
                    assert(chars@.subrange(pos as int, pos + part@.len())[i as int] == chars@[pos
                        + i]);
                }
            }
            return false;
        }
        i += 1;
    }
    proof {
        assert(chars@.subrange(pos as int, pos + part@.len()) =~= part@);
    }
    true
}

/// True when the two texts are the same.
pub fn same_text(a: &str, b: &str) -> (r: bool)
    ensures
        r == (a@ == b@),
{
    let x = chars_of(a);
    let y = chars_of(b);
    if x.len() != y.len() {
        return false;
    }
    let n: usize = x.len();
    let mut i: usize = 0;
    while i < n
        invariant
            i <= n,
            n == x@.len(),
            n == y@.len(),
            x@ == a@,
            y@ == b@,
            forall|j: int| 0 <= j < i ==> x@[j] == y@[j],
        decreases n - i,
    {
        if x[i] != y[i] {
            return false;
        }
        i += 1;
    }
    proof {
        assert(x@ =~= y@);
    }
    true
}

/// Splitting at a separator and joining with it gives the text back.
pub proof fn joined_as_split(s: Seq<u8>, sep: u8)
    ensures
        split(s, sep).len() >= 1,
        join_from(split(s, sep), sep, 0) == s,
{
    joined_from(s, sep, 0);
    assert(s.skip(0) =~= s);
}

proof fn joined_from(s: Seq<u8>, sep: u8, from: int)
    requires
        0 <= from <= s.len(),
    ensures
        split_from(s, sep, from).len() >= 1,
        join_from(split_from(s, sep, from), sep, 0) == s.skip(from),
    decreases s.len() - from,
{
    find_byte_bounds(s, sep, from);
    let e = find_byte(s, sep, from);
    let parts = split_from(s, sep, from);
    if e < s.len() {
        let rest = split_from(s, sep, e + 1);
        joined_from(s, sep, e + 1);
        assert(parts =~= seq![s.subrange(from, e)] + rest);
        join_shift(parts, rest, sep, 0);
        assert(s.subrange(from, e).push(sep) + s.skip(e + 1) =~= s.skip(from));
        assert(join_from(parts, sep, 0) =~= s.skip(from));
    } else {
        assert(s.subrange(from, s.len() as int) =~= s.skip(from));
        assert(join_from(parts, sep, 0) =~= s.skip(from));
    }
}

proof fn join_shift(parts: Seq<Seq<u8>>, rest: Seq<Seq<u8>>, sep: u8, i: int)
    requires
        0 <= i <= rest.len(),
        parts.len() == rest.len() + 1,
        forall|j: int| 0 <= j < rest.len() ==> parts[j + 1] == #[trigger] rest[j],
    ensures
        join_from(parts, sep, i + 1) == join_from(rest, sep, i),
    decreases rest.len() - i,
{
    if i < rest.len() {
        assert(parts[i + 1] == rest[i]);
        join_shift(parts, rest, sep, i + 1);
    }
}

/// Numbers are written in decimal digits that read back as the number, without
/// leading zeros.
pub proof fn numbers_read_back(n: nat)
    ensures
        decimal(n).len() > 0,
        forall|i: int| 0 <= i < decimal(n).len() ==> 0x30 <= #[trigger] decimal(n)[i] <= 0x39,
        n > 0 ==> decimal(n)[0] != 0x30,
        digits_value(decimal(n), 10) == n,
        decimal(n).len() == decimal_text(n).len(),
        forall|i: int|
            0 <= i < decimal(n).len() ==> #[trigger] decimal_text(n)[i] as int == decimal(n)[i],
    decreases n,
{
    let d = decimal(n);
    if n >= 10 {
        numbers_read_back(n / 10);
        assert(d.drop_last() =~= decimal(n / 10));
        let t = decimal_text(n);
        assert(t.drop_last() =~= decimal_text(n / 10));
        assert forall|i: int| 0 <= i < d.len() implies 0x30 <= #[trigger] d[i] <= 0x39 && t[i] as int
            == d[i] by {
            if i < d.len() - 1 {
                assert(d[i] == decimal(n / 10)[i]);
                assert(t[i] == decimal_text(n / 10)[i]);
            }
        }
    } else {
        assert(d.drop_last() =~= Seq::<u8>::empty());
        assert(d.last() == 48 + n);
        reveal_with_fuel(digits_value, 2);
    }
    assert(digit_value(d.last(), 10) == Some((d.last() - 48) as int));
}

proof fn joined_later(parts: Seq<Seq<u8>>, sep: u8, from: int, k: int)
    requires
        0 <= k <= from,
        k <= parts.len(),
    ensures
        join_from(parts, sep, from) == join_from(parts.skip(k), sep, from - k),
    decreases parts.len() - from,
{
    if from < parts.len() {
        assert(parts.skip(k)[from - k] == parts[from]);
        if from + 1 < parts.len() {
            joined_later(parts, sep, from + 1, k);
        }
    }
}

proof fn split_joins(s: Seq<u8>, sep: u8, from: int)
    requires
        0 <= from <= s.len(),
    ensures
        split_from(s, sep, from).len() > 0,
        join_from(split_from(s, sep, from), sep, 0) == s.skip(from),
    decreases s.len() - from,
{
    find_byte_bounds(s, sep, from);
    let end = find_byte(s, sep, from);
    let parts = split_from(s, sep, from);
    if end < s.len() {
        let rest = split_from(s, sep, end + 1);
        split_joins(s, sep, end + 1);
        assert(parts.skip(1) =~= rest);
        joined_later(parts, sep, 1, 1);
        assert(parts[0] == s.subrange(from, end));
        assert(join_from(parts, sep, 0) == parts[0] + seq![sep] + join_from(parts, sep, 1));
        assert(s.subrange(from, end) + seq![sep] + s.skip(end + 1) =~= s.skip(from));
    } else {
        assert(parts[0] =~= s.skip(from));
    }
}

/// Splitting a string and joining the pieces gives the string back.
pub proof fn joining_undoes_splitting(s: Seq<u8>, sep: u8)
    ensures
        join_from(split(s, sep), sep, 0) == s,
{
    split_joins(s, sep, 0);
    assert(s.skip(0) =~= s);
}

/// No piece of a split string holds the separator.
pub proof fn pieces_hold_no_separator(s: Seq<u8>, sep: u8, from: int, i: int, j: int)
    requires
        0 <= from <= s.len(),
        0 <= i < split_from(s, sep, from).len(),
        0 <= j < split_from(s, sep, from)[i].len(),
    ensures
        split_from(s, sep, from)[i][j] != sep,
    decreases s.len() - from,
{
    find_byte_bounds(s, sep, from);
    let end = find_byte(s, sep, from);
    if end < s.len() && i > 0 {
        let rest = split_from(s, sep, end + 1);
        assert(split_from(s, sep, from)[i] == rest[i - 1]);
        pieces_hold_no_separator(s, sep, end + 1, i - 1, j);
    }
}

} // verus!
