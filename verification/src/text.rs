//! Character-level helpers shared by the formatting and parsing code:
//! decimal rendering, padding, and conversions between `str`, `String`
//! and vectors of `char`.
use vstd::prelude::*;

verus! {

/// Appends `c` to `s` (`String::push`).
#[verifier::external_body]
pub(crate) fn push_char(s: &mut String, c: char)
    ensures
        final(s)@ == old(s)@.push(c),
{
    s.push(c);
}

/// The characters of `s`, in order.
pub fn str_chars(s: &str) -> (r: Vec<char>)
    ensures
        r@ == s@,
{
    let mut r: Vec<char> = Vec::new();
    for c in iter: s.chars()
        invariant
            r@ == iter.seq().take(iter.index() as int),
            iter.seq() == s@,
    {
        r.push(c);
    }
    r
}

/// A `String` holding exactly the characters of `v`.
pub fn chars_to_string(v: &[char]) -> (r: String)
    ensures
        r@ == v@,
{
    let mut r = String::new();
    let n = v.len();
    let mut i: usize = 0;
    while i < n
        invariant
            n == v@.len(),
            i <= n,
            r@ == v@.take(i as int),
        decreases n - i,
    {
        push_char(&mut r, v[i]);
        i = i + 1;
        assert(r@ =~= v@.take(i as int));
    }
    assert(v@.take(n as int) =~= v@);
    r
}

/// The ASCII digit for `d`, for `d` below ten.
pub open spec fn digit_char(d: nat) -> char {
    (d + 48) as char
}

/// The decimal representation of `n`, without sign or leading zeros.
pub open spec fn decimal(n: nat) -> Seq<char>
    decreases n,
{
    if n < 10 {
        seq![digit_char(n)]
    } else {
        decimal(n / 10).push(digit_char(n % 10))
    }
}

/// `s` right-aligned in a field of `width` characters filled with `fill`
/// (the field never truncates `s`).
pub open spec fn pad_left(s: Seq<char>, width: nat, fill: char) -> Seq<char> {
    if s.len() >= width {
        s
    } else {
        Seq::new((width - s.len()) as nat, |_i: int| fill) + s
    }
}

/// The digit character of `d`.
pub fn digit(d: u64) -> (c: char)
    requires
        d < 10,
    ensures
        c == digit_char(d as nat),
{
    let b: u8 = (d as u8) + 48;
    b as char
}

/// Appends the decimal representation of `n` to `out`.
pub fn push_decimal(out: &mut Vec<char>, n: u64)
    ensures
        final(out)@ == old(out)@ + decimal(n as nat),
    decreases n,
{
    if n >= 10 {
        push_decimal(out, n / 10);
    }
    out.push(digit(n % 10));
    assert(final(out)@ =~= old(out)@ + decimal(n as nat));
}

/// The decimal representation of `n`.
pub fn decimal_chars(n: u64) -> (r: Vec<char>)
    ensures
        r@ == decimal(n as nat),
{
    let mut r = Vec::new();
    push_decimal(&mut r, n);
    assert(r@ =~= decimal(n as nat));
    r
}

/// The lower-case hexadecimal digit for `d`, for `d` below sixteen.
pub open spec fn hex_char(d: nat) -> char {
    if d < 10 {
        (d + 48) as char
    } else {
        (d + 87) as char
    }
}

/// The lower-case hexadecimal representation of `n`, without leading zeros.
pub open spec fn hex(n: nat) -> Seq<char>
    decreases n,
{
    if n < 16 {
        seq![hex_char(n)]
    } else {
        hex(n / 16).push(hex_char(n % 16))
    }
}

/// Appends the lower-case hexadecimal representation of `n` to `out`.
pub fn push_hex(out: &mut Vec<char>, n: u64)
    ensures
        final(out)@ == old(out)@ + hex(n as nat),
    decreases n,
{
    if n >= 16 {
        push_hex(out, n / 16);
    }
    let d: u64 = n % 16;
    let c: char = if d < 10 {
        ((d as u8) + 48) as char
    } else {
        ((d as u8) + 87) as char
    };
    out.push(c);
    assert(final(out)@ =~= old(out)@ + hex(n as nat));
}

/// Appends `fill` to `out` `count` times.
pub fn push_repeat(out: &mut Vec<char>, fill: char, count: usize)
    ensures
        final(out)@ == old(out)@ + Seq::new(count as nat, |_i: int| fill),
{
    let mut i: usize = 0;
    while i < count
        invariant
            i <= count,
            out@ == old(out)@ + Seq::new(i as nat, |_i: int| fill),
        decreases count - i,
    {
        out.push(fill);
        i = i + 1;
        assert(out@ =~= old(out)@ + Seq::new(i as nat, |_i: int| fill));
    }
}

/// Appends `s` right-aligned in a field of `width` characters filled with `fill`.
pub fn push_padded(out: &mut Vec<char>, s: &Vec<char>, width: usize, fill: char)
    ensures
        final(out)@ == old(out)@ + pad_left(s@, width as nat, fill),
{
    if s.len() < width {
        push_repeat(out, fill, width - s.len());
    }
    let n = s.len();
    let mut i: usize = 0;
    let ghost start = out@;
    while i < n
        invariant
            n == s@.len(),
            i <= n,
            out@ == start + s@.take(i as int),
        decreases n - i,
    {
        out.push(s[i]);
        i = i + 1;
        assert(out@ =~= start + s@.take(i as int));
    }
    assert(s@.take(n as int) =~= s@);
    assert(final(out)@ =~= old(out)@ + pad_left(s@, width as nat, fill));
}

/// Appends all of `s` to `out`.
pub fn push_all(out: &mut Vec<char>, s: &[char])
    ensures
        final(out)@ == old(out)@ + s@,
{
    let n = s.len();
    let mut i: usize = 0;
    while i < n
        invariant
            n == s@.len(),
            i <= n,
            out@ == old(out)@ + s@.take(i as int),
        decreases n - i,
    {
        out.push(s[i]);
        i = i + 1;
        assert(out@ =~= old(out)@ + s@.take(i as int));
    }
    assert(s@.take(n as int) =~= s@);
}

/// Appends the characters of `s` to `out`.
pub fn push_str(out: &mut Vec<char>, s: &str)
    ensures
        final(out)@ == old(out)@ + s@,
{
    let v = str_chars(s);
    push_all(out, v.as_slice());
}

/// Whether every character of `s` is an ASCII digit (and `s` is not empty).
pub open spec fn all_digits(s: Seq<char>) -> bool {
    &&& s.len() > 0
    &&& forall|i: int| 0 <= i < s.len() ==> '0' <= #[trigger] s[i] <= '9'
}

/// The number written by the decimal digits `s`.
pub open spec fn digits_value(s: Seq<char>) -> nat
    decreases s.len(),
{
    if s.len() == 0 {
        0
    } else {
        digits_value(s.drop_last()) * 10 + ((s.last() as int - 48) as nat)
    }
}

/// What `u32::from_str` gives for `s`: an optional leading `+`, then one or more
/// ASCII digits whose value fits in 32 bits; `None` for anything else.
pub open spec fn parse_u32_spec(s: Seq<char>) -> Option<u32> {
    let d = if s.len() > 0 && s[0] == '+' { s.drop_first() } else { s };
    if all_digits(d) && digits_value(d) <= u32::MAX {
        Some(digits_value(d) as u32)
    } else {
        None
    }
}

proof fn lemma_digits_value_monotone(s: Seq<char>, i: int)
    requires
        0 <= i <= s.len(),
        forall|k: int| 0 <= k < s.len() ==> '0' <= #[trigger] s[k] <= '9',
    ensures
        digits_value(s.take(i)) <= digits_value(s),
    decreases s.len() - i,
{
    if i < s.len() {
        lemma_digits_value_monotone(s, i + 1);
        assert(s.take(i + 1).drop_last() =~= s.take(i));
    } else {
        assert(s.take(i) =~= s);
    }
}

/// Parses `s` as a decimal `u32` following `u32::from_str`.
pub fn parse_u32_chars(s: &[char]) -> (r: Option<u32>)
    ensures
        r == parse_u32_spec(s@),
{
    let n = s.len();
    let mut i: usize = 0;
    if n > 0 && s[0] == '+' {
        i = 1;
    }
    let ghost d = if s@.len() > 0 && s@[0] == '+' { s@.drop_first() } else { s@ };
    let start = i;
    assert(d =~= s@.subrange(start as int, n as int));
    if start == n {
        assert(d.len() == 0);
        return None;
    }
    let mut v: u64 = 0;
    while i < n
        invariant
            n == s@.len(),
            start <= i <= n,
            start == 0 || start == 1,
            (start == 1) == (s@.len() > 0 && s@[0] == '+'),
            d == s@.subrange(start as int, n as int),
            d == (if s@.len() > 0 && s@[0] == '+' { s@.drop_first() } else { s@ }),
            forall|k: int| 0 <= k < i - start ==> '0' <= #[trigger] d[k] <= '9',
            v == digits_value(d.take(i - start)),
            v <= u32::MAX,
        decreases n - i,
    {
        let c = s[i];
        if c < '0' || c > '9' {
            assert(d[i - start] == c);
            return None;
        }
        let dv: u64 = ((c as u32) - 48) as u64;
        assert(d.take(i + 1 - start).drop_last() =~= d.take(i - start));
        if v > 429496729 || (v == 429496729 && dv > 5) {
            proof {
                let t = d.take(i + 1 - start);
                assert(t.last() == c);
                assert(digits_value(t) == digits_value(t.drop_last()) * 10 + dv);
                assert(digits_value(t) > u32::MAX);
                if all_digits(d) {
                    lemma_digits_value_monotone(d, i + 1 - start);
                    assert(digits_value(d) > u32::MAX);
                }
            }
            return None;
        }
        v = v * 10 + dv;
        i = i + 1;
    }
    assert(d.take(n - start) =~= d);
    Some(v as u32)
}

/// Parses `s` as a decimal `u32` following `u32::from_str`.
pub fn parse_u32(s: &str) -> (r: Option<u32>)
    ensures
        r == parse_u32_spec(s@),
{
    let v = str_chars(s);
    parse_u32_chars(v.as_slice())
}

} // verus!

verus! {

/// `std::str::from_utf8` on `b`, copied into a `String`: present exactly when `b`
/// is valid UTF-8, and then the string's UTF-8 encoding is `b` itself.
#[verifier::external_body]
pub(crate) fn utf8_to_string(b: &[u8]) -> (r: Option<String>)
    ensures
        r is Some <==> vstd::utf8::valid_utf8(b@),
        r matches Some(s) ==> vstd::utf8::encode_utf8(s@) == b@,
{
    match std::str::from_utf8(b) {
        Ok(s) => Some(s.to_string()),
        Err(_) => None,
    }
}

} // verus!

verus! {

/// What `String::from_utf8_lossy` makes of the bytes `b`.
pub uninterp spec fn lossy_utf8(b: Seq<u8>) -> Seq<char>;

/// `String::from_utf8_lossy` on `b`, as an owned `String`: the text of `b`,
/// each invalid sequence replaced by U+FFFD. For valid UTF-8 that is exactly
/// the decoded text; what replaces invalid input is left to the name.
#[verifier::external_body]
pub(crate) fn utf8_lossy(b: &[u8]) -> (r: String)
    ensures
        r@ == lossy_utf8(b@),
        vstd::utf8::valid_utf8(b@) ==> r@ == vstd::utf8::decode_utf8(b@),
{
    String::from_utf8_lossy(b).into_owned()
}

} // verus!

verus! {

/// What `format!("{:?}", s)` gives for the string `s`.
pub uninterp spec fn debug_text(s: Seq<char>) -> Seq<char>;

/// Whether `c` is printable ASCII other than the double quote and the
/// backslash: `Debug` shows such a character as itself.
pub open spec fn plain_char(c: char) -> bool {
    ' ' <= c <= '~' && c != '"' && c != '\\'
}

/// `format!("{:?}", s)`: the string in double quotes with special characters
/// escaped. A string of plain characters (see `plain_char`) is shown as itself
/// between double quotes; what other characters become is left to the name.
#[verifier::external_body]
pub(crate) fn debug_quoted(s: &str) -> (r: String)
    ensures
        r@ == debug_text(s@),
        (forall|i: int| 0 <= i < s@.len() ==> plain_char(#[trigger] s@[i])) ==> r@ == seq!['"']
            + s@ + seq!['"'],
{
    format!("{:?}", s)
}

} // verus!

verus! {

/// What `str::to_lowercase` gives for `s`.
pub uninterp spec fn lower_text(s: Seq<char>) -> Seq<char>;

/// `str::to_lowercase`: the lowercase equivalent of `s`, by the Unicode
/// Lowercase property; the mapping itself is left to the name.
#[verifier::external_body]
pub(crate) fn to_lowercase(s: &str) -> (r: String)
    ensures
        r@ == lower_text(s@),
{
    s.to_lowercase()
}

/// Whether `prefix` is the start of `text` (the empty text starts everything).
pub open spec fn text_starts_with(text: Seq<char>, prefix: Seq<char>) -> bool {
    prefix.len() <= text.len() && text.take(prefix.len() as int) == prefix
}

/// Whether `text` starts with `prefix`.
pub fn starts_with_text(text: &[char], prefix: &[char]) -> (r: bool)
    ensures
        r == text_starts_with(text@, prefix@),
{
    let m = prefix.len();
    if m > text.len() {
        return false;
    }
    let mut i: usize = 0;
    while i < m
        invariant
            m == prefix@.len(),
            m <= text@.len(),
            i <= m,
            forall|q: int| 0 <= q < i ==> text@[q] == prefix@[q],
        decreases m - i,
    {
        if text[i] != prefix[i] {
            assert(text@.take(m as int)[i as int] != prefix@[i as int]);
            return false;
        }
        i = i + 1;
    }
    assert(text@.take(m as int) =~= prefix@);
    true
}

} // verus!

verus! {

/// The digits `d` grouped in threes from the right, the groups separated by
/// commas (as in 1,234,567).
pub open spec fn group_thousands(d: Seq<char>) -> Seq<char>
    decreases d.len(),
{
    if d.len() <= 3 {
        d
    } else {
        group_thousands(d.take(d.len() - 3)) + seq![','] + d.skip(d.len() - 3)
    }
}

/// `num_format::ToFormattedString::to_formatted_string` of `n` with
/// `Locale::en`: the decimal digits grouped in threes by commas (the English
/// locale uses the standard grouping and the separator ",").
#[verifier::external_body]
pub(crate) fn thousands(n: u64) -> (r: String)
    ensures
        r@ == group_thousands(decimal(n as nat)),
{
    num_format::ToFormattedString::to_formatted_string(&n, &num_format::Locale::en)
}

/// The digits of `f`, a number of thousandths below 1000, as decimals after
/// the point: three digits with trailing zeros dropped.
pub open spec fn thousandths(f: nat) -> Seq<char> {
    if f % 100 == 0 {
        seq![digit_char(f / 100)]
    } else if f % 10 == 0 {
        seq![digit_char(f / 100), digit_char((f / 10) % 10)]
    } else {
        seq![digit_char(f / 100), digit_char((f / 10) % 10), digit_char(f % 10)]
    }
}

/// `n / 1000` as the shortest decimal that gives it back: the whole part,
/// and a point and the thousandths (without trailing zeros) when there are any.
pub open spec fn per_thousand(n: nat) -> Seq<char> {
    if n % 1000 == 0 {
        decimal(n / 1000)
    } else {
        decimal(n / 1000) + seq!['.'] + thousandths(n % 1000)
    }
}

/// Appends `n / 1000` in decimal (see `per_thousand`).
pub fn push_per_thousand(out: &mut Vec<char>, n: u64)
    ensures
        final(out)@ == old(out)@ + per_thousand(n as nat),
{
    push_decimal(out, n / 1000);
    let f = n % 1000;
    if f != 0 {
        out.push('.');
        out.push(digit(f / 100));
        if f % 100 != 0 {
            out.push(digit((f / 10) % 10));
            if f % 10 != 0 {
                out.push(digit(f % 10));
            }
        }
    }
    assert(final(out)@ =~= old(out)@ + per_thousand(n as nat));
}

} // verus!

verus! {

/// The strings `v` joined, `sep` between each two.
pub open spec fn join_with(v: Seq<String>, sep: char) -> Seq<char>
    decreases v.len(),
{
    if v.len() == 0 {
        Seq::empty()
    } else if v.len() == 1 {
        v[0]@
    } else {
        join_with(v.drop_last(), sep) + seq![sep] + v.last()@
    }
}

/// Joins the strings `v` with `sep` between each two (`[String]::join`).
pub fn join_strings(v: &Vec<String>, sep: char) -> (r: String)
    ensures
        r@ == join_with(v@, sep),
{
    let mut s: Vec<char> = Vec::new();
    let n = v.len();
    let mut i: usize = 0;
    while i < n
        invariant
            n == v@.len(),
            i <= n,
            s@ == join_with(v@.take(i as int), sep),
        decreases n - i,
    {
        if i > 0 {
            s.push(sep);
        }
        push_str(&mut s, v[i].as_str());
        proof {
            let t = v@.take(i + 1);
            assert(t.drop_last() =~= v@.take(i as int));
            assert(t.last() == v@[i as int]);
            assert(s@ =~= join_with(t, sep));
        }
        i = i + 1;
    }
    assert(v@.take(n as int) =~= v@);
    chars_to_string(s.as_slice())
}

} // verus!

verus! {

proof fn lemma_decimal_digits(n: nat)
    ensures
        all_digits(decimal(n)),
        digits_value(decimal(n)) == n,
        decimal(n)[0] != '+',
    decreases n,
{
    let d = decimal(n);
    if n < 10 {
        assert(d == seq![digit_char(n)]);
        assert(d.drop_last() =~= Seq::<char>::empty());
        assert(digits_value(d.drop_last()) == 0);
        assert(d.last() as int == n + 48);
        assert(digits_value(d) == digits_value(d.drop_last()) * 10 + ((d.last() as int - 48) as nat));
    } else {
        lemma_decimal_digits(n / 10);
        assert(d.drop_last() =~= decimal(n / 10));
        assert(d.last() == digit_char(n % 10));
        assert(d.last() as int == n % 10 + 48);
        assert(d[0] == decimal(n / 10)[0]);
        assert(digits_value(d) == digits_value(d.drop_last()) * 10 + ((d.last() as int - 48) as nat));
        assert((n / 10) * 10 + n % 10 == n);
    }
}

/// Reading back a number written in decimal gives the number.
pub proof fn lemma_parse_decimal(n: u32)
    ensures
        parse_u32_spec(decimal(n as nat)) == Some(n),
{
    lemma_decimal_digits(n as nat);
}

} // verus!

verus! {

/// The items of a list of bytes in hex, separated by ", ".
pub open spec fn hex_items(s: Seq<u8>) -> Seq<char>
    decreases s.len(),
{
    if s.len() == 0 {
        Seq::empty()
    } else if s.len() == 1 {
        hex(s[0] as nat)
    } else {
        hex_items(s.drop_last()) + ", "@ + hex(s.last() as nat)
    }
}

/// A list of bytes as `{:x?}` shows it: the bytes in hex between brackets.
pub open spec fn hex_list(s: Seq<u8>) -> Seq<char> {
    "["@ + hex_items(s) + "]"@
}

/// Appends the bytes `s` as a hex list (see `hex_list`).
pub fn push_hex_list(out: &mut Vec<char>, s: &[u8])
    ensures
        final(out)@ == old(out)@ + hex_list(s@),
{
    proof {
        reveal_strlit("[");
        reveal_strlit("]");
        reveal_strlit(", ");
    }
    out.push('[');
    let ghost start = out@;
    let n = s.len();
    let mut i: usize = 0;
    while i < n
        invariant
            n == s@.len(),
            i <= n,
            out@ == start + hex_items(s@.take(i as int)),
        decreases n - i,
    {
        proof {
            reveal_strlit(", ");
        }
        if i > 0 {
            out.push(',');
            out.push(' ');
        }
        push_hex(out, s[i] as u64);
        proof {
            let t = s@.take(i + 1);
            assert(t.drop_last() =~= s@.take(i as int));
            assert(t.last() == s@[i as int]);
            assert(out@ =~= start + hex_items(t));
        }
        i = i + 1;
    }
    assert(s@.take(n as int) =~= s@);
    out.push(']');
    assert(final(out)@ =~= old(out)@ + hex_list(s@));
}

} // verus!
