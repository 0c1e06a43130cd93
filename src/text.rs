//! Byte- and text-level helpers shared by the wire formats: decimal
//! numbers, ASCII case folding and UTF-8 decoding.
use vstd::prelude::*;
use vstd::string::*;
use vstd::utf8::{
    char_is_scalar, decode_utf8, encode_scalar, encode_utf8, has_width_1_encoding, is_scalar,
    valid_utf8,
};

verus! {

/// The ASCII digit for `d`.
pub open spec fn digit_byte(d: nat) -> u8 {
    (d + 48) as u8
}

/// Decimal digits of `n`, most significant first, without leading zeros.
pub open spec fn decimal(n: nat) -> Seq<u8>
    decreases n,
{
    if n < 10 {
        seq![digit_byte(n)]
    } else {
        decimal(n / 10).push(digit_byte(n % 10))
    }
}

pub open spec fn is_digit(b: u8) -> bool {
    48 <= b && b <= 57
}

pub open spec fn all_digits(s: Seq<u8>) -> bool {
    forall|i: int| 0 <= i < s.len() ==> is_digit(#[trigger] s[i])
}

/// The value of a string of decimal digits (0 for the empty string).
pub open spec fn digits_value(s: Seq<u8>) -> nat
    decreases s.len(),
{
    if s.len() == 0 {
        0
    } else {
        digits_value(s.drop_last()) * 10 + (s.last() - 48) as nat
    }
}

/// The text of an unsigned number without its optional leading `+`.
pub open spec fn unsigned_digits(s: Seq<u8>) -> Seq<u8> {
    if s.len() > 0 && s[0] == 43 {
        s.drop_first()
    } else {
        s
    }
}

/// An unsigned decimal number as Rust's `FromStr` for unsigned integers
/// reads it: an optional `+`, then one digit or more, and a value that
/// fits under `max`.
pub open spec fn parse_unsigned(s: Seq<u8>, max: nat) -> Option<nat> {
    let d = unsigned_digits(s);
    if d.len() > 0 && all_digits(d) && digits_value(d) <= max {
        Some(digits_value(d))
    } else {
        None
    }
}

proof fn lemma_digits_value_prefix(s: Seq<u8>, i: int)
    requires
        all_digits(s),
        0 <= i <= s.len(),
    ensures
        digits_value(s.take(i)) <= digits_value(s),
    decreases s.len() - i,
{
    if i < s.len() {
        lemma_digits_value_prefix(s, i + 1);
        assert(s.take(i + 1).drop_last() =~= s.take(i));
    } else {
        assert(s.take(i) =~= s);
    }
}

/// Appends `b` to `out`.
pub fn push_bytes(out: &mut Vec<u8>, b: &[u8])
    ensures
        final(out)@ == old(out)@ + b@,
{
    let mut i: usize = 0;
    while i < b.len()
        invariant
            0 <= i <= b.len(),
            out@ == old(out)@ + b@.take(i as int),
        decreases b.len() - i,
    {
        out.push(b[i]);
        i = i + 1;
        assert(out@ =~= old(out)@ + b@.take(i as int));
    }
    assert(b@.take(i as int) =~= b@);
}

/// Appends the decimal digits of `n` to `out`.
pub fn push_decimal(out: &mut Vec<u8>, n: u64)
    ensures
        final(out)@ == old(out)@ + decimal(n as nat),
    decreases n,
{
    if n >= 10 {
        push_decimal(out, n / 10);
    }
    out.push((n % 10) as u8 + 48);
    assert(final(out)@ =~= old(out)@ + decimal(n as nat));
}

/// Reads an unsigned decimal number not above `max`, as Rust's `FromStr`
/// for unsigned integers does.
pub fn parse_unsigned_bytes(s: &[u8], max: u64) -> (r: Option<u64>)
    ensures
        r.is_some() == parse_unsigned(s@, max as nat).is_some(),
        r matches Some(v) ==> parse_unsigned(s@, max as nat) == Some(v as nat),
{
    let start: usize = if s.len() > 0 && s[0] == 43 { 1 } else { 0 };
    let ghost d = unsigned_digits(s@);
    assert(d =~= s@.subrange(start as int, s@.len() as int));
    if start >= s.len() {
        return None;
    }
    let mut value: u64 = 0;
    let mut i: usize = start;
    while i < s.len()
        invariant
            start <= i <= s.len(),
            d == unsigned_digits(s@),
            d =~= s@.subrange(start as int, s@.len() as int),
            all_digits(d.take(i - start)),
            value as nat == digits_value(d.take(i - start)),
            value <= max,
        decreases s.len() - i,
    {
        let b = s[i];
        if b < 48 || b > 57 {
            assert(d[i - start] == b && !is_digit(d[i - start]));
            return None;
        }
        let digit = (b - 48) as u64;
        assert(d.take(i + 1 - start).drop_last() =~= d.take(i - start));
        assert(d.take(i + 1 - start).last() == b);
        assert(digits_value(d.take(i + 1 - start)) == value * 10 + digit);
        if digit > max || value > (max - digit) / 10 {
            proof {
                assert(value * 10 + digit > max) by (nonlinear_arith)
                    requires digit > max || value > (max - digit) / 10, value >= 0;
                if all_digits(d) {
                    lemma_digits_value_prefix(d, i + 1 - start);
                }
            }
            return None;
        }
        proof {
            assert(value * 10 + digit <= max) by (nonlinear_arith)
                requires value <= (max - digit) / 10, digit <= max;
        }
        value = value * 10 + digit;
        i = i + 1;
    }
    assert(d.take(i - start) =~= d);
    Some(value)
}

/// Index of the first `b` in `s` at or after `from`, or `s.len()` if none.
pub open spec fn find_item<T>(s: Seq<T>, b: T, from: int) -> int
    decreases s.len() - from,
{
    if from >= s.len() {
        s.len() as int
    } else if s[from] == b {
        from
    } else {
        find_item(s, b, from + 1)
    }
}

pub proof fn lemma_find_item_bounds<T>(s: Seq<T>, b: T, from: int)
    requires
        0 <= from <= s.len(),
    ensures
        from <= find_item(s, b, from) <= s.len(),
        find_item(s, b, from) < s.len() ==> s[find_item(s, b, from)] == b,
        forall|j: int| from <= j < find_item(s, b, from) ==> s[j] != b,
    decreases s.len() - from,
{
    if from < s.len() && s[from] != b {
        lemma_find_item_bounds(s, b, from + 1);
    }
}

/// Finds the first `b` in `s` at or after `from`.
pub fn find_byte_from(s: &[u8], b: u8, from: usize) -> (r: usize)
    requires
        from <= s.len(),
    ensures
        r == find_item(s@, b, from as int),
{
    let mut i = from;
    while i < s.len()
        invariant
            from <= i <= s.len(),
            find_item(s@, b, from as int) == find_item(s@, b, i as int),
        decreases s.len() - i,
    {
        if s[i] == b {
            return i;
        }
        i = i + 1;
    }
    i
}

/// The pieces of `s` between the separators `sep`, starting at `from`.
pub open spec fn fields_from<T>(s: Seq<T>, sep: T, from: int) -> Seq<Seq<T>>
    decreases s.len() - from,
{
    let e = find_item(s, sep, from);
    if from < 0 || from > s.len() || e >= s.len() || e < from {
        seq![s.subrange(from, s.len() as int)]
    } else {
        seq![s.subrange(from, e)] + fields_from(s, sep, e + 1)
    }
}

/// The pieces of `s` between the separators `sep` (one piece more than
/// there are separators).
pub open spec fn fields<T>(s: Seq<T>, sep: T) -> Seq<Seq<T>> {
    fields_from(s, sep, 0)
}

pub open spec fn views(v: Seq<Vec<u8>>) -> Seq<Seq<u8>> {
    v.map_values(|x: Vec<u8>| x@)
}

/// A copy of `s[a..b]`.
pub fn copy_range(s: &[u8], a: usize, b: usize) -> (r: Vec<u8>)
    requires
        a <= b <= s.len(),
    ensures
        r@ == s@.subrange(a as int, b as int),
{
    let mut r: Vec<u8> = Vec::new();
    let mut i = a;
    while i < b
        invariant
            a <= i <= b <= s.len(),
            r@ == s@.subrange(a as int, i as int),
        decreases b - i,
    {
        r.push(s[i]);
        i = i + 1;
        assert(r@ =~= s@.subrange(a as int, i as int));
    }
    r
}

/// Splits `s` at every `sep`.
pub fn split_fields(s: &[u8], sep: u8) -> (r: Vec<Vec<u8>>)
    ensures
        views(r@) == fields(s@, sep),
{
    let mut out: Vec<Vec<u8>> = Vec::new();
    let mut from: usize = 0;
    loop
        invariant
            from <= s.len(),
            views(out@) + fields_from(s@, sep, from as int) == fields(s@, sep),
        decreases s.len() - from,
    {
        let e = find_byte_from(s, sep, from);
        proof {
            lemma_find_item_bounds(s@, sep, from as int);
        }
        let piece = copy_range(s, from, e);
        let ghost before = views(out@);
        out.push(piece);
        assert(views(out@) =~= before.push(piece@));
        if e >= s.len() {
            assert(views(out@) =~= before + fields_from(s@, sep, from as int));
            return out;
        }
        assert(views(out@) + fields_from(s@, sep, (e + 1) as int) =~= before + fields_from(
            s@,
            sep,
            from as int,
        ));
        from = e + 1;
    }
}

/// Whether two byte strings are equal.
pub fn same_bytes(a: &[u8], b: &[u8]) -> (r: bool)
    ensures
        r == (a@ == b@),
{
    if a.len() != b.len() {
        return false;
    }
    let mut i: usize = 0;
    while i < a.len()
        invariant
            a.len() == b.len(),
            0 <= i <= a.len(),
            forall|j: int| 0 <= j < i ==> a@[j] == b@[j],
        decreases a.len() - i,
    {
        if a[i] != b[i] {
            return false;
        }
        i = i + 1;
    }
    assert(a@ =~= b@);
    true
}

/// `b` with an ASCII lower-case letter turned upper-case.
pub open spec fn upper_byte(b: u8) -> u8 {
    if 97 <= b && b <= 122 {
        (b - 32) as u8
    } else {
        b
    }
}

pub open spec fn upper_bytes(s: Seq<u8>) -> Seq<u8> {
    s.map_values(|b: u8| upper_byte(b))
}

/// Turns every ASCII lower-case letter of `data` upper-case, in place.
pub fn to_uppercase(data: &mut Vec<u8>)
    ensures
        final(data)@ == upper_bytes(old(data)@),
{
    let mut i: usize = 0;
    while i < data.len()
        invariant
            0 <= i <= data.len(),
            data@.len() == old(data)@.len(),
            forall|j: int| 0 <= j < i ==> data@[j] == upper_byte(#[trigger] old(data)@[j]),
            forall|j: int| i <= j < data@.len() ==> data@[j] == old(data)@[j],
        decreases data.len() - i,
    {
        let b = data[i];
        if b >= 97 && b <= 122 {
            data.set(i, b - 32);
        }
        i = i + 1;
    }
    assert(data@ =~= upper_bytes(old(data)@));
}

pub proof fn lemma_find_at<T>(s: Seq<T>, x: T, from: int, m: int)
    requires
        0 <= from <= m <= s.len(),
        forall|j: int| from <= j < m ==> s[j] != x,
        m == s.len() || s[m] == x,
    ensures
        find_item(s, x, from) == m,
    decreases m - from,
{
    if from < m {
        lemma_find_at(s, x, from + 1, m);
    }
}

proof fn lemma_find_shift<T>(p: Seq<T>, b: Seq<T>, x: T, k: int)
    requires
        0 <= k <= b.len(),
    ensures
        find_item(p + b, x, p.len() + k) == p.len() + find_item(b, x, k),
    decreases b.len() - k,
{
    if k < b.len() {
        assert((p + b)[p.len() + k] == b[k]);
        if b[k] != x {
            lemma_find_shift(p, b, x, k + 1);
        }
    }
}

proof fn lemma_fields_shift<T>(p: Seq<T>, b: Seq<T>, x: T, k: int)
    requires
        0 <= k <= b.len(),
    ensures
        fields_from(p + b, x, p.len() + k) == fields_from(b, x, k),
    decreases b.len() - k,
{
    lemma_find_shift(p, b, x, k);
    lemma_find_item_bounds(b, x, k);
    let e = find_item(b, x, k);
    assert((p + b).subrange(p.len() + k, p.len() + e) =~= b.subrange(k, e));
    assert((p + b).subrange(p.len() + k, (p + b).len() as int) =~= b.subrange(k, b.len() as int));
    if e < b.len() {
        lemma_fields_shift(p, b, x, e + 1);
    }
}

/// A sequence without the separator is one piece.
pub proof fn lemma_fields_single<T>(a: Seq<T>, x: T)
    requires
        forall|j: int| 0 <= j < a.len() ==> a[j] != x,
    ensures
        fields(a, x) == seq![a],
{
    lemma_find_at(a, x, 0, a.len() as int);
    assert(a.subrange(0, a.len() as int) =~= a);
}

/// Splitting `a`, a separator and `b` gives `a` and then the pieces of `b`.
pub proof fn lemma_fields_cons<T>(a: Seq<T>, b: Seq<T>, x: T)
    requires
        forall|j: int| 0 <= j < a.len() ==> a[j] != x,
    ensures
        fields(a + seq![x] + b, x) == seq![a] + fields(b, x),
{
    let s = a + seq![x] + b;
    let p = a + seq![x];
    assert(s =~= p + b);
    assert(forall|j: int| 0 <= j < a.len() ==> s[j] == a[j]);
    assert(s[a.len() as int] == x);
    lemma_find_at(s, x, 0, a.len() as int);
    assert(s.subrange(0, a.len() as int) =~= a);
    lemma_fields_shift(p, b, x, 0);
}

/// The decimal digits of `n` are digits, at least one, and read back as `n`.
pub proof fn lemma_decimal_digits(n: nat)
    ensures
        all_digits(decimal(n)),
        decimal(n).len() > 0,
        digits_value(decimal(n)) == n,
        parse_unsigned(decimal(n), n) == Some(n),
    decreases n,
{
    if n >= 10 {
        lemma_decimal_digits(n / 10);
        assert(decimal(n).drop_last() =~= decimal(n / 10));
        assert(decimal(n).last() == digit_byte(n % 10));
        assert(digit_byte(n % 10) == n % 10 + 48);
        assert(digits_value(decimal(n)) == digits_value(decimal(n / 10)) * 10 + (n % 10));
        assert((n / 10) * 10 + n % 10 == n) by (nonlinear_arith);
        assert(all_digits(decimal(n))) by {
            assert forall|i: int| 0 <= i < decimal(n).len() implies is_digit(#[trigger] decimal(n)[i]) by {
                if i < decimal(n).len() - 1 {
                    assert(decimal(n)[i] == decimal(n / 10)[i]);
                }
            }
        }
    } else {
        assert(decimal(n).drop_last() =~= Seq::<u8>::empty());
        assert(digit_byte(n) == n + 48);
        assert(digits_value(decimal(n)) == digits_value(Seq::<u8>::empty()) * 10 + n);
    }
    assert(is_digit(decimal(n)[0]));
    assert(unsigned_digits(decimal(n)) == decimal(n));
}

proof fn lemma_scalar_bytes(c: u32)
    requires
        is_scalar(c),
    ensures
        forall|i: int|
            0 <= i < encode_scalar(c).len() ==> (#[trigger] encode_scalar(c)[i] < 128 ==> (
            encode_scalar(c)[i] as u32 == c)),
{
    if has_width_1_encoding(c) {
        assert((c & 0x7f) == c) by (bit_vector)
            requires
                c <= 0x7f,
        ;
    } else {
        let e = encode_scalar(c);
        assert forall|i: int| 0 <= i < e.len() implies #[trigger] e[i] >= 128 by {
            let y1 = ((c >> 6) & 0x1F) as u8;
            let y2 = ((c >> 12) & 0x0F) as u8;
            let y3 = ((c >> 18) & 0x7) as u8;
            let z1 = (c & 0x3F) as u8;
            let z2 = ((c >> 6) & 0x3F) as u8;
            let z3 = ((c >> 12) & 0x3F) as u8;
            assert((0xC0u8 | y1) >= 128u8) by (bit_vector);
            assert((0xE0u8 | y2) >= 128u8) by (bit_vector);
            assert((0xF0u8 | y3) >= 128u8) by (bit_vector);
            assert((0x80u8 | z1) >= 128u8) by (bit_vector);
            assert((0x80u8 | z2) >= 128u8) by (bit_vector);
            assert((0x80u8 | z3) >= 128u8) by (bit_vector);
        }
    }
}

/// The UTF-8 encoding of characters other than the ASCII character `k`
/// holds no byte `k`.
pub proof fn lemma_encoding_avoids(chars: Seq<char>, k: u8)
    requires
        k < 128,
        forall|i: int| 0 <= i < chars.len() ==> (#[trigger] chars[i]) as u32 != k as u32,
    ensures
        forall|j: int| 0 <= j < encode_utf8(chars).len() ==> #[trigger] encode_utf8(chars)[j] != k,
    decreases chars.len(),
{
    if chars.len() > 0 {
        let c = chars[0] as u32;
        char_is_scalar(chars[0]);
        lemma_scalar_bytes(c);
        let rest = chars.drop_first();
        assert forall|i: int| 0 <= i < rest.len() implies (#[trigger] rest[i]) as u32 != k as u32 by {
            assert(rest[i] == chars[i + 1]);
        }
        lemma_encoding_avoids(rest, k);
        let head = encode_scalar(c);
        assert(encode_utf8(chars) == head + encode_utf8(rest));
        assert forall|j: int| 0 <= j < encode_utf8(chars).len() implies #[trigger] encode_utf8(chars)[j] != k by {
            if j < head.len() {
                assert(encode_utf8(chars)[j] == head[j]);
            } else {
                assert(encode_utf8(chars)[j] == encode_utf8(rest)[j - head.len()]);
            }
        }
    }
}

/// Relies on `std::str::from_utf8`: it accepts exactly the valid UTF-8
/// byte strings and reads them as their characters.
#[verifier::external_body]
pub(crate) fn utf8_text(b: &[u8]) -> (r: Option<String>)
    ensures
        r.is_some() == valid_utf8(b@),
        r matches Some(s) ==> s@ == decode_utf8(b@),
{
    std::str::from_utf8(b).ok().map(|s| s.to_string())
}

/// Decimal digits of `n` as characters.
pub open spec fn decimal_text(n: nat) -> Seq<char> {
    decimal(n).map_values(|b: u8| b as char)
}

fn digit_str(d: u64) -> (r: &'static str)
    requires
        d < 10,
    ensures
        r@ == seq![digit_byte(d as nat) as char],
{
    proof {
        reveal_strlit("0");
        reveal_strlit("1");
        reveal_strlit("2");
        reveal_strlit("3");
        reveal_strlit("4");
        reveal_strlit("5");
        reveal_strlit("6");
        reveal_strlit("7");
        reveal_strlit("8");
        reveal_strlit("9");
    }
    let r = if d == 0 {
        "0"
    } else if d == 1 {
        "1"
    } else if d == 2 {
        "2"
    } else if d == 3 {
        "3"
    } else if d == 4 {
        "4"
    } else if d == 5 {
        "5"
    } else if d == 6 {
        "6"
    } else if d == 7 {
        "7"
    } else if d == 8 {
        "8"
    } else {
        "9"
    };
    assert(r@ =~= seq![digit_byte(d as nat) as char]);
    r
}

/// Appends the decimal digits of `n` to `out`.
pub fn push_decimal_text(out: &mut String, n: u64)
    ensures
        final(out)@ == old(out)@ + decimal_text(n as nat),
    decreases n,
{
    if n >= 10 {
        push_decimal_text(out, n / 10);
    }
    out.append(digit_str(n % 10));
    assert(final(out)@ =~= old(out)@ + decimal_text(n as nat));
}

/// The six decimal octets of an address argument `h1,h2,h3,h4,hi,lo`.
pub open spec fn octets(a: Seq<u8>) -> Option<Seq<nat>> {
    let f = fields(a, 44u8);
    if f.len() == 6 && (forall|i: int| 0 <= i < 6 ==> #[trigger] parse_unsigned(f[i], 255).is_some()) {
        Some(Seq::new(6, |i: int| parse_unsigned(f[i], 255).unwrap()))
    } else {
        None
    }
}

/// Reads the six decimal octets of an address argument.
pub fn parse_octets(a: &[u8]) -> (r: Option<Vec<u8>>)
    ensures
        r.is_some() == octets(a@).is_some(),
        r matches Some(v) ==> v@.len() == 6 && forall|i: int|
            0 <= i < 6 ==> octets(a@).unwrap()[i] == #[trigger] v@[i] as nat,
{
    let f = split_fields(a, 44);
    let ghost fs = fields(a@, 44u8);
    if f.len() != 6 {
        return None;
    }
    let mut vals: Vec<u8> = Vec::new();
    let mut i: usize = 0;
    while i < 6
        invariant
            f@.len() == 6,
            views(f@) == fs,
            fs == fields(a@, 44u8),
            i <= 6,
            vals@.len() == i,
            forall|j: int|
                0 <= j < i ==> parse_unsigned(#[trigger] fs[j], 255) == Some(vals@[j] as nat),
        decreases 6 - i,
    {
        assert(f@[i as int]@ == fs[i as int]);
        match parse_unsigned_bytes(f[i].as_slice(), 255) {
            None => {
                return None;
            },
            Some(v) => {
                vals.push(v as u8);
            },
        }
        i = i + 1;
    }
    assert(forall|j: int| 0 <= j < 6 ==> #[trigger] parse_unsigned(fs[j], 255).is_some());
    Some(vals)
}

} // verus!
