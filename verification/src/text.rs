//! Text as sequences of characters: the small vocabulary the other modules
//! state their results in (decimal and hexadecimal numerals, trimming,
//! splitting, joining) and the functions that compute it.
use vstd::prelude::*;
use vstd::utf8::{decode_utf8, valid_utf8};

verus! {

/// `String::push` appends one character at the end.
pub assume_specification[ String::push ](s: &mut String, c: char)
    ensures
        final(s)@ == old(s)@.push(c),
;

/// What `{:?}` prints for a piece of text: the text in double quotes with
/// the characters that need it escaped.
pub uninterp spec fn debug_text(s: Seq<char>) -> Seq<char>;

/// Formats `s` with the `Debug` implementation of `str`. Only that the
/// result is determined by the text is claimed.
#[verifier::external_body]
pub(crate) fn debug_str(s: &str) -> (r: String)
    ensures
        r@ == debug_text(s@),
{
    format!("{:?}", s)
}

/// What is said of bytes that are not UTF-8.
pub uninterp spec fn utf8_error_text(bytes: Seq<u8>) -> Seq<char>;

/// `std::str::from_utf8`: succeeds on exactly the valid encodings and gives
/// the text they encode. The words of the error depend on the bytes alone.
#[verifier::external_body]
pub(crate) fn text_from_utf8(bytes: &[u8]) -> (r: Result<String, String>)
    ensures
        match r {
            Ok(s) => valid_utf8(bytes@) && s@ == decode_utf8(bytes@),
            Err(e) => !valid_utf8(bytes@) && e@ == utf8_error_text(bytes@),
        },
{
    std::str::from_utf8(bytes).map(|s| s.to_owned()).map_err(|e| e.to_string())
}

/// The text that `String::from_utf8_lossy` reads from arbitrary bytes.
pub uninterp spec fn lossy_text(bytes: Seq<u8>) -> Seq<char>;

/// `String::from_utf8_lossy`: bytes that are valid UTF-8 give the text they
/// encode; what replaces the invalid parts of other bytes is left open.
#[verifier::external_body]
pub(crate) fn text_from_utf8_lossy(bytes: &[u8]) -> (r: String)
    ensures
        r@ == lossy_text(bytes@),
        valid_utf8(bytes@) ==> r@ == decode_utf8(bytes@),
{
    String::from_utf8_lossy(bytes).into_owned()
}

// ---------------------------------------------------------------- equality

/// Whether two pieces of text hold the same characters.
pub fn same(a: &str, b: &str) -> (r: bool)
    ensures
        r == (a@ == b@),
{
    a.to_owned() == b.to_owned()
}

/// The text of each string of a list.
pub open spec fn texts(v: Seq<String>) -> Seq<Seq<char>> {
    v.map_values(|s: String| s@)
}

/// The text of an optional string.
pub open spec fn opt_text(o: Option<String>) -> Option<Seq<char>> {
    match o {
        Some(s) => Some(s@),
        None => None,
    }
}

/// Whether `name` occurs in `list`.
pub fn list_has(list: &Vec<String>, name: &str) -> (r: bool)
    ensures
        r == texts(list@).contains(name@),
{
    for i in 0..list.len()
        invariant
            forall|j: int| 0 <= j < i ==> texts(list@)[j] != name@,
    {
        if same(list[i].as_str(), name) {
            assert(texts(list@)[i as int] == name@);
            return true;
        }
    }
    false
}

// ----------------------------------------------------------- concatenation

/// `a` followed by `b`.
pub fn cat2(a: &str, b: &str) -> (r: String)
    ensures
        r@ == a@ + b@,
{
    let mut s: String = a.to_owned();
    s.append(b);
    s
}

/// Three pieces in a row.
pub fn cat3(a: &str, b: &str, c: &str) -> (r: String)
    ensures
        r@ == a@ + b@ + c@,
{
    let mut s: String = cat2(a, b);
    s.append(c);
    s
}

/// Four pieces in a row.
pub fn cat4(a: &str, b: &str, c: &str, d: &str) -> (r: String)
    ensures
        r@ == a@ + b@ + c@ + d@,
{
    let mut s: String = cat3(a, b, c);
    s.append(d);
    s
}

/// Five pieces in a row.
pub fn cat5(a: &str, b: &str, c: &str, d: &str, e: &str) -> (r: String)
    ensures
        r@ == a@ + b@ + c@ + d@ + e@,
{
    let mut s: String = cat4(a, b, c, d);
    s.append(e);
    s
}

/// The pieces of `parts` with `sep` between neighbours.
pub open spec fn joined(parts: Seq<Seq<char>>, sep: Seq<char>) -> Seq<char>
    decreases parts.len(),
{
    if parts.len() == 0 {
        seq![]
    } else if parts.len() == 1 {
        parts[0]
    } else {
        joined(parts.drop_last(), sep) + sep + parts.last()
    }
}

/// Joins `parts` with `sep` between neighbours.
pub fn join(parts: &Vec<String>, sep: &str) -> (r: String)
    ensures
        r@ == joined(texts(parts@), sep@),
{
    let mut out: String = String::new();
    for i in 0..parts.len()
        invariant
            out@ == joined(texts(parts@).take(i as int), sep@),
    {
        if i > 0 {
            out.append(sep);
        }
        out.append(parts[i].as_str());
        proof {
            let before = texts(parts@).take(i as int);
            let after = texts(parts@).take(i + 1);
            assert(after.drop_last() =~= before);
            assert(after.last() == parts@[i as int]@);
            assert(Seq::<char>::empty() + parts@[i as int]@ =~= parts@[i as int]@);
        }
    }
    assert(texts(parts@).take(parts@.len() as int) =~= texts(parts@));
    out
}

// ------------------------------------------------------------- conversions

/// The characters of `s`.
pub fn chars_of(s: &str) -> (r: Vec<char>)
    ensures
        r@ == s@,
{
    let mut out: Vec<char> = Vec::new();
    for c in it: s.chars()
        invariant
            out@ == it.seq().take(it.index() as int),
    {
        out.push(c);
    }
    out
}

/// The text made of the characters `v`.
pub fn string_of(v: &[char]) -> (r: String)
    ensures
        r@ == v@,
{
    let mut out: String = String::new();
    for i in 0..v.len()
        invariant
            out@ == v@.take(i as int),
    {
        out.push(v[i]);
    }
    out
}

/// The characters of `v` from `from` up to `to`.
pub fn string_between(v: &[char], from: usize, to: usize) -> (r: String)
    requires
        from <= to <= v@.len(),
    ensures
        r@ == v@.subrange(from as int, to as int),
{
    let mut out: String = String::new();
    for i in from..to
        invariant
            from <= to <= v@.len(),
            out@ == v@.subrange(from as int, i as int),
    {
        out.push(v[i]);
    }
    out
}

// ---------------------------------------------------------------- numerals

/// The decimal numeral of `n`, without leading zeros.
pub open spec fn dec(n: nat) -> Seq<char>
    decreases n,
{
    if n < 10 {
        seq![(48 + n) as char]
    } else {
        dec(n / 10).push((48 + n % 10) as char)
    }
}

/// The decimal numeral of an unsigned number.
pub fn dec_u64(n: u64) -> (r: String)
    ensures
        r@ == dec(n as nat),
    decreases n,
{
    if n < 10 {
        let mut s: String = String::new();
        s.push((48 + n as u8) as char);
        s
    } else {
        let mut s: String = dec_u64(n / 10);
        s.push((48 + (n % 10) as u8) as char);
        s
    }
}

/// The decimal numeral of a size.
pub fn dec_usize(n: usize) -> (r: String)
    ensures
        r@ == dec(n as nat),
{
    dec_u64(n as u64)
}

/// The decimal numeral of a signed number, with a minus sign below zero.
pub open spec fn dec_int(n: int) -> Seq<char> {
    if n < 0 {
        seq!['-'] + dec((-n) as nat)
    } else {
        dec(n as nat)
    }
}

/// The decimal numeral of a signed number.
pub fn dec_i64(n: i64) -> (r: String)
    ensures
        r@ == dec_int(n as int),
{
    if n < 0 {
        let mut s: String = String::new();
        s.push('-');
        let magnitude: u64 = (-(n as i128)) as u64;
        s.append(dec_u64(magnitude).as_str());
        s
    } else {
        dec_u64(n as u64)
    }
}

/// The hexadecimal digit of `d`.
pub open spec fn hex_digit(d: int, upper: bool) -> char {
    if d < 10 {
        (48 + d) as char
    } else if upper {
        (55 + d) as char
    } else {
        (87 + d) as char
    }
}

/// The two hexadecimal digits of a byte.
pub open spec fn hex2(b: u8, upper: bool) -> Seq<char> {
    seq![hex_digit(b as int / 16, upper), hex_digit(b as int % 16, upper)]
}

/// One hexadecimal digit.
fn hex_digit_char(d: u8, upper: bool) -> (r: char)
    requires
        d < 16,
    ensures
        r == hex_digit(d as int, upper),
{
    if d < 10 {
        (48 + d) as char
    } else if upper {
        (55 + d) as char
    } else {
        (87 + d) as char
    }
}

/// The two hexadecimal digits of a byte.
pub fn hex2_str(b: u8, upper: bool) -> (r: String)
    ensures
        r@ == hex2(b, upper),
{
    let mut s: String = String::new();
    s.push(hex_digit_char(b / 16, upper));
    s.push(hex_digit_char(b % 16, upper));
    s
}

/// The shortest lower-case hexadecimal numeral of `n`.
pub open spec fn hex_numeral(n: nat) -> Seq<char>
    decreases n,
{
    if n < 16 {
        seq![hex_digit(n as int, false)]
    } else {
        hex_numeral(n / 16).push(hex_digit(n as int % 16, false))
    }
}

/// The shortest lower-case hexadecimal numeral of a number.
pub fn hex_u32(n: u32) -> (r: String)
    ensures
        r@ == hex_numeral(n as nat),
    decreases n,
{
    if n < 16 {
        let mut s: String = String::new();
        s.push(hex_digit_char(n as u8, false));
        s
    } else {
        let mut s: String = hex_u32(n / 16);
        s.push(hex_digit_char((n % 16) as u8, false));
        s
    }
}

/// The value of a hexadecimal digit in either case.
pub open spec fn hex_value(c: char) -> Option<int> {
    if '0' <= c <= '9' {
        Some(c as int - 48)
    } else if 'a' <= c <= 'f' {
        Some(c as int - 87)
    } else if 'A' <= c <= 'F' {
        Some(c as int - 55)
    } else {
        None
    }
}

/// The value of a hexadecimal digit in either case.
pub fn hex_value_of(c: char) -> (r: Option<u8>)
    ensures
        r is Some <==> hex_value(c) is Some,
        r is Some ==> r->0 == hex_value(c)->0 && r->0 < 16,
{
    if '0' <= c && c <= '9' {
        Some((c as u32 - 48) as u8)
    } else if 'a' <= c && c <= 'f' {
        Some((c as u32 - 87) as u8)
    } else if 'A' <= c && c <= 'F' {
        Some((c as u32 - 55) as u8)
    } else {
        None
    }
}

/// Whether every character is a hexadecimal digit.
pub open spec fn all_hex(s: Seq<char>) -> bool {
    forall|i: int| 0 <= i < s.len() ==> hex_value(#[trigger] s[i]) is Some
}

/// The number that a row of hexadecimal digits stands for.
pub open spec fn hex_number(s: Seq<char>) -> nat
    decreases s.len(),
{
    if s.len() == 0 {
        0
    } else {
        (hex_number(s.drop_last()) * 16 + hex_value(s.last())->0) as nat
    }
}

/// The digits of a numeral behind its optional plus sign.
pub open spec fn unsigned_digits(s: Seq<char>) -> Seq<char> {
    if s.len() > 0 && s[0] == '+' {
        s.subrange(1, s.len() as int)
    } else {
        s
    }
}

/// The byte that a hexadecimal numeral denotes: an optional plus sign and
/// at least one digit, with a value that fits in a byte.
pub open spec fn hex_byte(s: Seq<char>) -> Option<u8> {
    let d = unsigned_digits(s);
    if d.len() > 0 && all_hex(d) && hex_number(d) < 256 {
        Some(hex_number(d) as u8)
    } else {
        None
    }
}

proof fn lemma_hex_number_prefix(s: Seq<char>, k: int)
    requires
        0 <= k <= s.len(),
        all_hex(s),
    ensures
        hex_number(s.take(k)) <= hex_number(s),
    decreases s.len() - k,
{
    if k < s.len() {
        lemma_hex_number_prefix(s, k + 1);
        assert(s.take(k + 1).drop_last() =~= s.take(k));
        assert(s.take(k + 1).last() == s[k]);
        assert(hex_value(s[k]) is Some);
    } else {
        assert(s.take(k) =~= s);
    }
}

/// Reads a byte written in hexadecimal.
pub fn parse_hex_byte(s: &str) -> (r: Option<u8>)
    ensures
        r == hex_byte(s@),
{
    let v: Vec<char> = chars_of(s);
    let start: usize = if v.len() > 0 && v[0] == '+' {
        1
    } else {
        0
    };
    let ghost d = unsigned_digits(s@);
    assert(d =~= s@.subrange(start as int, s@.len() as int));
    if start == v.len() {
        return None;
    }
    let mut n: u32 = 0;
    let mut i: usize = start;
    while i < v.len()
        invariant
            v@ == s@,
            start <= i <= v.len(),
            d == s@.subrange(start as int, s@.len() as int),
            d == unsigned_digits(s@),
            d.len() > 0,
            all_hex(d.take(i - start)),
            n == hex_number(d.take(i - start)),
            n < 256,
        decreases v.len() - i,
    {
        assert(d[i - start] == v@[i as int]);
        match hex_value_of(v[i]) {
            None => {
                assert(!all_hex(d));
                return None;
            },
            Some(x) => {
                proof {
                    let k = i - start;
                    assert(d.take(k + 1).drop_last() =~= d.take(k));
                    assert(d.take(k + 1).last() == d[k]);
                    assert forall|j: int| 0 <= j < d.take(k + 1).len() implies hex_value(
                        #[trigger] d.take(k + 1)[j],
                    ) is Some by {
                        if j < k {
                            assert(d.take(k + 1)[j] == d.take(k)[j]);
                        }
                    }
                }
                n = n * 16 + x as u32;
                if n >= 256 {
                    proof {
                        if all_hex(d) {
                            lemma_hex_number_prefix(d, i - start + 1);
                        }
                    }
                    return None;
                }
            },
        }
        i = i + 1;
    }
    assert(d.take(d.len() as int) =~= d);
    Some(n as u8)
}

/// Whether a character is a decimal digit.
pub open spec fn is_digit(c: char) -> bool {
    '0' <= c <= '9'
}

/// Whether every character is a decimal digit.
pub open spec fn all_digits(s: Seq<char>) -> bool {
    forall|i: int| 0 <= i < s.len() ==> is_digit(#[trigger] s[i])
}

/// The number that a row of decimal digits stands for.
pub open spec fn dec_number(s: Seq<char>) -> nat
    decreases s.len(),
{
    if s.len() == 0 {
        0
    } else {
        (dec_number(s.drop_last()) * 10 + (s.last() as int - 48)) as nat
    }
}

proof fn lemma_dec_number_prefix(s: Seq<char>, k: int)
    requires
        0 <= k <= s.len(),
        all_digits(s),
    ensures
        dec_number(s.take(k)) <= dec_number(s),
    decreases s.len() - k,
{
    if k < s.len() {
        lemma_dec_number_prefix(s, k + 1);
        assert(s.take(k + 1).drop_last() =~= s.take(k));
        assert(s.take(k + 1).last() == s[k]);
        assert(is_digit(s[k]));
    } else {
        assert(s.take(k) =~= s);
    }
}

/// The number of a row of at least one digit that does not exceed `limit`.
fn digits_up_to(v: &[char], start: usize, limit: u64) -> (r: Option<u64>)
    requires
        start <= v@.len(),
        limit < 0x1000_0000_0000_0000,
    ensures
        ({
            let d = v@.subrange(start as int, v@.len() as int);
            if d.len() > 0 && all_digits(d) && dec_number(d) <= limit {
                r == Some(dec_number(d) as u64)
            } else {
                r is None
            }
        }),
{
    let ghost d = v@.subrange(start as int, v@.len() as int);
    if start == v.len() {
        return None;
    }
    let mut n: u64 = 0;
    let mut i: usize = start;
    while i < v.len()
        invariant
            start <= i <= v@.len(),
            d == v@.subrange(start as int, v@.len() as int),
            d.len() > 0,
            limit < 0x1000_0000_0000_0000,
            all_digits(d.take(i - start)),
            n == dec_number(d.take(i - start)),
            n <= limit,
        decreases v@.len() - i,
    {
        let c: char = v[i];
        assert(d[i - start] == c);
        if !('0' <= c && c <= '9') {
            assert(!all_digits(d));
            return None;
        }
        proof {
            let k = i - start;
            assert(d.take(k + 1).drop_last() =~= d.take(k));
            assert(d.take(k + 1).last() == c);
            assert forall|j: int| 0 <= j < d.take(k + 1).len() implies is_digit(
                #[trigger] d.take(k + 1)[j],
            ) by {
                if j < k {
                    assert(d.take(k + 1)[j] == d.take(k)[j]);
                }
            }
        }
        n = n * 10 + (c as u32 - 48) as u64;
        if n > limit {
            proof {
                if all_digits(d) {
                    lemma_dec_number_prefix(d, i - start + 1);
                }
            }
            return None;
        }
        i = i + 1;
    }
    assert(d.take(d.len() as int) =~= d);
    Some(n)
}

/// The signed number that a numeral denotes: an optional sign and at least
/// one digit, with a value of thirty-two bits.
pub open spec fn int32_of(s: Seq<char>) -> Option<int> {
    let negative = s.len() > 0 && s[0] == '-';
    let d = if s.len() > 0 && (s[0] == '-' || s[0] == '+') {
        s.subrange(1, s.len() as int)
    } else {
        s
    };
    let limit: nat = if negative {
        0x8000_0000
    } else {
        0x7FFF_FFFF
    };
    if d.len() > 0 && all_digits(d) && dec_number(d) <= limit {
        Some(
            if negative {
                -(dec_number(d) as int)
            } else {
                dec_number(d) as int
            },
        )
    } else {
        None
    }
}

/// Reads a signed number of thirty-two bits.
pub fn parse_i32(s: &str) -> (r: Option<i32>)
    ensures
        match r {
            Some(n) => int32_of(s@) == Some(n as int),
            None => int32_of(s@) is None,
        },
{
    let v: Vec<char> = chars_of(s);
    let negative: bool = v.len() > 0 && v[0] == '-';
    let start: usize = if v.len() > 0 && (v[0] == '-' || v[0] == '+') {
        1
    } else {
        0
    };
    assert(v@.subrange(0, v@.len() as int) =~= v@);
    let limit: u64 = if negative {
        0x8000_0000
    } else {
        0x7FFF_FFFF
    };
    match digits_up_to(v.as_slice(), start, limit) {
        None => None,
        Some(n) => {
            if negative {
                Some((0 - n as i64) as i32)
            } else {
                Some(n as i32)
            }
        },
    }
}

/// Different numbers have different decimal numerals.
pub proof fn lemma_dec_injective(a: nat, b: nat)
    requires
        dec(a) == dec(b),
    ensures
        a == b,
    decreases a,
{
    assert(dec(a).last() == (48 + a % 10) as char) by {
        if a < 10 {
            assert(a % 10 == a);
        }
    }
    assert(dec(b).last() == (48 + b % 10) as char) by {
        if b < 10 {
            assert(b % 10 == b);
        }
    }
    assert(((48 + a % 10) as char) as int == 48 + a % 10);
    assert(((48 + b % 10) as char) as int == 48 + b % 10);
    if a >= 10 && b >= 10 {
        assert(dec(a).drop_last() =~= dec(a / 10));
        assert(dec(b).drop_last() =~= dec(b / 10));
        lemma_dec_injective(a / 10, b / 10);
    } else if a >= 10 {
        lemma_dec_len(a / 10);
        assert(dec(a).len() == dec(a / 10).len() + 1);
    } else if b >= 10 {
        lemma_dec_len(b / 10);
        assert(dec(b).len() == dec(b / 10).len() + 1);
    }
}

/// A numeral has at least one digit.
pub proof fn lemma_dec_len(n: nat)
    ensures
        dec(n).len() > 0,
    decreases n,
{
    if n >= 10 {
        lemma_dec_len(n / 10);
    }
}

// --------------------------------------------------------------- searching

/// The first position at or after `i` that holds `c`, or the length.
pub open spec fn find_from(s: Seq<char>, c: char, i: int) -> int
    decreases s.len() - i,
{
    if i >= s.len() {
        s.len() as int
    } else if s[i] == c {
        i
    } else {
        find_from(s, c, i + 1)
    }
}

/// `find_from` lands inside the text exactly on the first occurrence.
pub proof fn lemma_find_from(s: Seq<char>, c: char, i: int)
    requires
        0 <= i <= s.len(),
    ensures
        i <= find_from(s, c, i) <= s.len(),
        find_from(s, c, i) < s.len() ==> s[find_from(s, c, i)] == c,
        forall|j: int| i <= j < find_from(s, c, i) ==> s[j] != c,
    decreases s.len() - i,
{
    if i < s.len() && s[i] != c {
        lemma_find_from(s, c, i + 1);
    }
}

/// Finds the first `c` at or after `from`.
pub fn find_char(v: &[char], c: char, from: usize) -> (r: usize)
    requires
        from <= v@.len(),
    ensures
        r == find_from(v@, c, from as int),
        from <= r <= v@.len(),
        r < v@.len() ==> v@[r as int] == c,
        forall|j: int| from <= j < r ==> v@[j] != c,
{
    let mut i: usize = from;
    while i < v.len() && v[i] != c
        invariant
            from <= i <= v@.len(),
            find_from(v@, c, from as int) == find_from(v@, c, i as int),
            forall|j: int| from <= j < i ==> v@[j] != c,
        decreases v@.len() - i,
    {
        i = i + 1;
    }
    i
}

/// One past the last position below `end` that holds `c`, or zero.
pub open spec fn rfind_below(s: Seq<char>, c: char, end: int) -> int
    decreases end,
{
    if end <= 0 {
        0
    } else if s[end - 1] == c {
        end
    } else {
        rfind_below(s, c, end - 1)
    }
}

/// Finds the position just behind the last `c`, or zero without one.
pub fn rfind_char(v: &[char], c: char) -> (r: usize)
    ensures
        r == rfind_below(v@, c, v@.len() as int),
        r <= v@.len(),
        r > 0 ==> v@[r - 1] == c,
        forall|j: int| r <= j < v@.len() ==> v@[j] != c,
{
    let mut i: usize = v.len();
    while i > 0 && v[i - 1] != c
        invariant
            0 <= i <= v@.len(),
            rfind_below(v@, c, v@.len() as int) == rfind_below(v@, c, i as int),
            forall|j: int| i <= j < v@.len() ==> v@[j] != c,
        decreases i,
    {
        i = i - 1;
    }
    i
}

/// Whether `s` begins with `prefix`.
pub fn starts_with(s: &str, prefix: &str) -> (r: bool)
    ensures
        r == prefix@.is_prefix_of(s@),
{
    let n: usize = prefix.unicode_len();
    if s.unicode_len() < n {
        return false;
    }
    let head: &str = s.substring_char(0, n);
    same(head, prefix)
}

/// Whether `s` ends with `suffix`.
pub fn ends_with(s: &str, suffix: &str) -> (r: bool)
    ensures
        r == suffix@.is_suffix_of(s@),
{
    let n: usize = suffix.unicode_len();
    let m: usize = s.unicode_len();
    if m < n {
        return false;
    }
    let tail: &str = s.substring_char(m - n, m);
    same(tail, suffix)
}

/// `s` without the given suffix where it has it.
pub open spec fn without_suffix(s: Seq<char>, suffix: Seq<char>) -> Seq<char> {
    if suffix.is_suffix_of(s) {
        s.take(s.len() - suffix.len())
    } else {
        s
    }
}

/// Drops the given suffix where it is there.
pub fn strip_suffix(s: &str, suffix: &str) -> (r: String)
    ensures
        r@ == without_suffix(s@, suffix@),
{
    if ends_with(s, suffix) {
        let n: usize = s.unicode_len() - suffix.unicode_len();
        s.substring_char(0, n).to_owned()
    } else {
        s.to_owned()
    }
}

/// Whether `needle` occurs in `s` at position `i`.
pub open spec fn occurs_at(s: Seq<char>, needle: Seq<char>, i: int) -> bool {
    0 <= i && i + needle.len() <= s.len() && s.subrange(i, i + needle.len()) == needle
}

/// Whether `needle` occurs anywhere in `s`.
pub open spec fn has_text(s: Seq<char>, needle: Seq<char>) -> bool {
    exists|i: int| occurs_at(s, needle, i)
}

/// Whether `needle` occurs anywhere in `s`.
pub fn contains_text(s: &str, needle: &str) -> (r: bool)
    ensures
        r == has_text(s@, needle@),
{
    let n: usize = s.unicode_len();
    let m: usize = needle.unicode_len();
    if n < m {
        return false;
    }
    let mut i: usize = 0;
    loop
        invariant
            n == s@.len(),
            m == needle@.len(),
            i + m <= n,
            forall|j: int| 0 <= j < i ==> !occurs_at(s@, needle@, j),
        decreases n - i,
    {
        if same(s.substring_char(i, i + m), needle) {
            assert(occurs_at(s@, needle@, i as int));
            return true;
        }
        assert(!occurs_at(s@, needle@, i as int));
        if i == n - m {
            return false;
        }
        i = i + 1;
    }
}

// ---------------------------------------------------------------- trimming

/// The characters with the Unicode property `White_Space`.
pub open spec fn is_white(c: char) -> bool {
    let n = c as int;
    ||| 0x09 <= n <= 0x0d
    ||| n == 0x20
    ||| n == 0x85
    ||| n == 0xa0
    ||| n == 0x1680
    ||| 0x2000 <= n <= 0x200a
    ||| n == 0x2028
    ||| n == 0x2029
    ||| n == 0x202f
    ||| n == 0x205f
    ||| n == 0x3000
}

/// Whether `c` is white space.
pub fn is_white_char(c: char) -> (r: bool)
    ensures
        r == is_white(c),
{
    let n: u32 = c as u32;
    (0x09 <= n && n <= 0x0d) || n == 0x20 || n == 0x85 || n == 0xa0 || n == 0x1680 || (0x2000 <= n
        && n <= 0x200a) || n == 0x2028 || n == 0x2029 || n == 0x202f || n == 0x205f || n == 0x3000
}

/// `s` without the leading characters that satisfy `p`.
pub open spec fn trim_start_by(s: Seq<char>, p: spec_fn(char) -> bool) -> Seq<char>
    decreases s.len(),
{
    if s.len() > 0 && p(s[0]) {
        trim_start_by(s.subrange(1, s.len() as int), p)
    } else {
        s
    }
}

/// `s` without the trailing characters that satisfy `p`.
pub open spec fn trim_end_by(s: Seq<char>, p: spec_fn(char) -> bool) -> Seq<char>
    decreases s.len(),
{
    if s.len() > 0 && p(s.last()) {
        trim_end_by(s.drop_last(), p)
    } else {
        s
    }
}

/// `s` without white space at either end.
pub open spec fn trimmed(s: Seq<char>) -> Seq<char> {
    trim_end_by(trim_start_by(s, |c: char| is_white(c)), |c: char| is_white(c))
}

/// Drops white space at both ends.
pub fn trim(s: &str) -> (r: String)
    ensures
        r@ == trimmed(s@),
{
    let v: Vec<char> = chars_of(s);
    let ghost w = |c: char| is_white(c);
    let mut i: usize = 0;
    assert(v@.subrange(0, v@.len() as int) =~= v@);
    while i < v.len() && is_white_char(v[i])
        invariant
            i <= v@.len(),
            w == (|c: char| is_white(c)),
            trim_start_by(v@, w) == trim_start_by(v@.subrange(i as int, v@.len() as int), w),
        decreases v@.len() - i,
    {
        proof {
            let t = v@.subrange(i as int, v@.len() as int);
            assert(t.subrange(1, t.len() as int) =~= v@.subrange(i + 1, v@.len() as int));
            assert(w(t[0]));
        }
        i = i + 1;
    }
    let ghost body = v@.subrange(i as int, v@.len() as int);
    assert(trim_start_by(v@, w) == body) by {
        if body.len() > 0 {
            assert(!w(body[0]));
        }
    }
    let mut j: usize = v.len();
    while j > i && is_white_char(v[j - 1])
        invariant
            i <= j <= v@.len(),
            w == (|c: char| is_white(c)),
            trim_end_by(body, w) == trim_end_by(v@.subrange(i as int, j as int), w),
        decreases j,
    {
        proof {
            let t = v@.subrange(i as int, j as int);
            assert(t.drop_last() =~= v@.subrange(i as int, j - 1));
            assert(w(t.last()));
        }
        j = j - 1;
    }
    proof {
        let t = v@.subrange(i as int, j as int);
        if t.len() > 0 {
            assert(!w(t.last()));
        }
    }
    string_between(v.as_slice(), i, j)
}

/// The predicate of being `a` or `b`.
pub open spec fn either(a: char, b: char) -> spec_fn(char) -> bool {
    |c: char| c == a || c == b
}

/// `s` without trailing characters that equal `a` or `b`.
pub open spec fn trim_end_two(s: Seq<char>, a: char, b: char) -> Seq<char> {
    trim_end_by(s, either(a, b))
}

/// Drops trailing characters that equal `a` or `b`.
pub fn trim_end_chars(s: &str, a: char, b: char) -> (r: String)
    ensures
        r@ == trim_end_two(s@, a, b),
{
    let v: Vec<char> = chars_of(s);
    let ghost w = either(a, b);
    let mut j: usize = v.len();
    assert(v@.subrange(0, v@.len() as int) =~= v@);
    while j > 0 && (v[j - 1] == a || v[j - 1] == b)
        invariant
            j <= v@.len(),
            w == either(a, b),
            trim_end_by(v@, w) == trim_end_by(v@.subrange(0, j as int), w),
        decreases j,
    {
        proof {
            let t = v@.subrange(0, j as int);
            assert(t.drop_last() =~= v@.subrange(0, j - 1));
            assert(w(t.last()));
        }
        j = j - 1;
    }
    proof {
        let t = v@.subrange(0, j as int);
        if t.len() > 0 {
            assert(!w(t.last()));
        }
    }
    string_between(v.as_slice(), 0, j)
}

/// The predicate of being white space.
pub open spec fn white() -> spec_fn(char) -> bool {
    |c: char| is_white(c)
}

/// Drops white space at the start.
pub fn trim_start(s: &str) -> (r: String)
    ensures
        r@ == trim_start_by(s@, white()),
{
    let v: Vec<char> = chars_of(s);
    let mut i: usize = 0;
    assert(v@.subrange(0, v@.len() as int) =~= v@);
    while i < v.len() && is_white_char(v[i])
        invariant
            i <= v@.len(),
            trim_start_by(v@, white()) == trim_start_by(
                v@.subrange(i as int, v@.len() as int),
                white(),
            ),
        decreases v@.len() - i,
    {
        proof {
            let t = v@.subrange(i as int, v@.len() as int);
            assert(t.subrange(1, t.len() as int) =~= v@.subrange(i + 1, v@.len() as int));
            assert(white()(t[0]));
        }
        i = i + 1;
    }
    proof {
        let t = v@.subrange(i as int, v@.len() as int);
        if t.len() > 0 {
            assert(!white()(t[0]));
        }
    }
    string_between(v.as_slice(), i, v.len())
}

/// Drops leading characters that equal `a` or `b`.
pub fn trim_start_chars(s: &str, a: char, b: char) -> (r: String)
    ensures
        r@ == trim_start_by(s@, either(a, b)),
{
    let v: Vec<char> = chars_of(s);
    let mut i: usize = 0;
    assert(v@.subrange(0, v@.len() as int) =~= v@);
    while i < v.len() && (v[i] == a || v[i] == b)
        invariant
            i <= v@.len(),
            trim_start_by(v@, either(a, b)) == trim_start_by(
                v@.subrange(i as int, v@.len() as int),
                either(a, b),
            ),
        decreases v@.len() - i,
    {
        proof {
            let t = v@.subrange(i as int, v@.len() as int);
            assert(t.subrange(1, t.len() as int) =~= v@.subrange(i + 1, v@.len() as int));
            assert(either(a, b)(t[0]));
        }
        i = i + 1;
    }
    proof {
        let t = v@.subrange(i as int, v@.len() as int);
        if t.len() > 0 {
            assert(!either(a, b)(t[0]));
        }
    }
    string_between(v.as_slice(), i, v.len())
}

// --------------------------------------------------------------- splitting

/// The pieces of `s` between the occurrences of `c`, from position `i`.
pub open spec fn split_from(s: Seq<char>, c: char, i: int) -> Seq<Seq<char>>
    decreases s.len() - i,
    when 0 <= i <= s.len()
    via split_from_decreases
{
    let j = find_from(s, c, i);
    if j >= s.len() {
        seq![s.subrange(i, s.len() as int)]
    } else {
        seq![s.subrange(i, j)] + split_from(s, c, j + 1)
    }
}

#[via_fn]
proof fn split_from_decreases(s: Seq<char>, c: char, i: int) {
    lemma_find_from(s, c, i);
}

/// The pieces of `s` between the occurrences of `c`; there is always one
/// more piece than there are separators.
pub open spec fn split_on(s: Seq<char>, c: char) -> Seq<Seq<char>> {
    split_from(s, c, 0)
}

/// Splits `s` at every `c`.
pub fn split(s: &str, c: char) -> (r: Vec<String>)
    ensures
        texts(r@) == split_on(s@, c),
{
    let v: Vec<char> = chars_of(s);
    let mut out: Vec<String> = Vec::new();
    let mut i: usize = 0;
    loop
        invariant_except_break
            v@ == s@,
            0 <= i <= v@.len(),
            split_on(s@, c) == texts(out@) + split_from(s@, c, i as int),
        ensures
            texts(out@) == split_on(s@, c),
        decreases v@.len() - i,
    {
        let j: usize = find_char(v.as_slice(), c, i);
        let ghost done = texts(out@);
        out.push(string_between(v.as_slice(), i, j));
        assert(texts(out@) =~= done.push(s@.subrange(i as int, j as int)));
        if j >= v.len() {
            assert(texts(out@) =~= done + split_from(s@, c, i as int));
            break;
        }
        assert(texts(out@) + split_from(s@, c, j + 1) =~= done + split_from(s@, c, i as int));
        i = j + 1;
    }
    out
}

/// The text before and after the first `c`, where there is one.
pub open spec fn cut(s: Seq<char>, c: char) -> Option<(Seq<char>, Seq<char>)> {
    let j = find_from(s, c, 0);
    if j < s.len() {
        Some((s.subrange(0, j), s.subrange(j + 1, s.len() as int)))
    } else {
        None
    }
}

/// Cuts `s` in two at the first `c`.
pub fn split_once(s: &str, c: char) -> (r: Option<(String, String)>)
    ensures
        r is Some <==> cut(s@, c) is Some,
        r is Some ==> ((r->0).0@, (r->0).1@) == cut(s@, c)->0,
{
    let v: Vec<char> = chars_of(s);
    let j: usize = find_char(v.as_slice(), c, 0);
    if j < v.len() {
        Some((string_between(v.as_slice(), 0, j), string_between(v.as_slice(), j + 1, v.len())))
    } else {
        None
    }
}

/// A line without the carriage return before its line feed.
pub open spec fn without_cr(line: Seq<char>) -> Seq<char> {
    if line.len() > 0 && line.last() == '\r' {
        line.drop_last()
    } else {
        line
    }
}

/// The lines of `s`: the pieces that end in a line feed, each without it
/// and without the carriage return before it, then the rest where there is
/// any.
pub open spec fn lines_from(s: Seq<char>, i: int) -> Seq<Seq<char>>
    decreases s.len() - i,
    when 0 <= i <= s.len()
    via lines_from_decreases
{
    if i >= s.len() {
        seq![]
    } else {
        let j = find_from(s, '\n', i);
        if j >= s.len() {
            seq![s.subrange(i, s.len() as int)]
        } else {
            seq![without_cr(s.subrange(i, j))] + lines_from(s, j + 1)
        }
    }
}

#[via_fn]
proof fn lines_from_decreases(s: Seq<char>, i: int) {
    lemma_find_from(s, '\n', i);
}

/// The lines of a text.
pub open spec fn lines_of(s: Seq<char>) -> Seq<Seq<char>> {
    lines_from(s, 0)
}

/// Splits `s` into its lines.
pub fn lines(s: &str) -> (r: Vec<String>)
    ensures
        texts(r@) == lines_of(s@),
{
    let v: Vec<char> = chars_of(s);
    let mut out: Vec<String> = Vec::new();
    let mut i: usize = 0;
    while i < v.len()
        invariant
            v@ == s@,
            0 <= i <= v@.len(),
            lines_of(s@) == texts(out@) + lines_from(s@, i as int),
        decreases v@.len() - i,
    {
        let j: usize = find_char(v.as_slice(), '\n', i);
        let ghost done = texts(out@);
        if j >= v.len() {
            out.push(string_between(v.as_slice(), i, j));
            assert(texts(out@) =~= done + lines_from(s@, i as int));
            assert(lines_from(s@, j as int) =~= seq![]);
            i = j;
        } else {
            let end: usize = if j > i && v[j - 1] == '\r' {
                j - 1
            } else {
                j
            };
            out.push(string_between(v.as_slice(), i, end));
            assert(s@.subrange(i as int, end as int) =~= without_cr(
                s@.subrange(i as int, j as int),
            ));
            assert(texts(out@) + lines_from(s@, j + 1) =~= done + lines_from(s@, i as int));
            i = j + 1;
        }
    }
    assert(texts(out@) + lines_from(s@, i as int) =~= texts(out@));
    out
}

// ------------------------------------------------------------------- case

/// A letter of ASCII in lower case; other characters as they are.
pub open spec fn lowered_char(c: char) -> char {
    if 'A' <= c && c <= 'Z' {
        ((c as u8) + 32) as u8 as char
    } else {
        c
    }
}

/// A text with the letters of ASCII in lower case.
pub open spec fn lowered(s: Seq<char>) -> Seq<char> {
    s.map_values(|c: char| lowered_char(c))
}

/// The text with the letters of ASCII in lower case.
pub fn lower(s: &str) -> (r: String)
    ensures
        r@ == lowered(s@),
{
    let mut out: String = String::new();
    assert(out@ =~= lowered(s@.take(0)));
    for c in it: s.chars()
        invariant
            it.seq() == s@,
            out@ == lowered(s@.take(it.index() as int)),
    {
        proof {
            assert(s@.take(it.index() + 1) =~= s@.take(it.index() as int).push(c));
            assert(lowered(s@.take(it.index() + 1)) =~= lowered(s@.take(it.index() as int)).push(
                lowered_char(c),
            ));
        }
        if 'A' <= c && c <= 'Z' {
            out.push(((c as u8) + 32) as char);
        } else {
            out.push(c);
        }
    }
    assert(s@.take(s@.len() as int) =~= s@);
    out
}

// -------------------------------------------------------------------- laws

proof fn lemma_trim_start(a: Seq<char>, t: Seq<char>, p: spec_fn(char) -> bool)
    requires
        forall|i: int| 0 <= i < a.len() ==> p(#[trigger] a[i]),
        t.len() > 0 ==> !p(t[0]),
    ensures
        trim_start_by(a + t, p) == t,
    decreases a.len(),
{
    if a.len() > 0 {
        let b = a.subrange(1, a.len() as int);
        assert((a + t).subrange(1, (a + t).len() as int) =~= b + t);
        assert forall|i: int| 0 <= i < b.len() implies p(#[trigger] b[i]) by {
            assert(b[i] == a[i + 1]);
        }
        assert(p(a[0]));
        assert((a + t)[0] == a[0]);
        lemma_trim_start(b, t, p);
    } else {
        assert(a + t =~= t);
    }
}

proof fn lemma_trim_end(t: Seq<char>, a: Seq<char>, p: spec_fn(char) -> bool)
    requires
        forall|i: int| 0 <= i < a.len() ==> p(#[trigger] a[i]),
        t.len() > 0 ==> !p(t.last()),
    ensures
        trim_end_by(t + a, p) == t,
    decreases a.len(),
{
    if a.len() > 0 {
        let b = a.drop_last();
        assert((t + a).drop_last() =~= t + b);
        assert forall|i: int| 0 <= i < b.len() implies p(#[trigger] b[i]) by {
            assert(b[i] == a[i]);
        }
        assert(p(a[a.len() - 1]));
        assert((t + a).last() == a.last());
        lemma_trim_end(t, b, p);
    } else {
        assert(t + a =~= t);
    }
}

/// Trimming takes away exactly the white space around a text.
pub proof fn law_trim_takes_white_space_around(
    before: Seq<char>,
    text: Seq<char>,
    after: Seq<char>,
)
    requires
        forall|i: int| 0 <= i < before.len() ==> is_white(#[trigger] before[i]),
        forall|i: int| 0 <= i < after.len() ==> is_white(#[trigger] after[i]),
        text.len() > 0 ==> !is_white(text[0]) && !is_white(text.last()),
    ensures
        trimmed(before + text + after) == text,
{
    let w = |c: char| is_white(c);
    if text.len() > 0 {
        lemma_trim_start(before, text + after, w);
        assert(before + (text + after) =~= before + text + after);
        lemma_trim_end(text, after, w);
    } else {
        let all = before + text + after;
        assert forall|i: int| 0 <= i < all.len() implies w(#[trigger] all[i]) by {
            if i >= before.len() {
                assert(all[i] == after[i - before.len()]);
            } else {
                assert(all[i] == before[i]);
            }
        }
        lemma_trim_start(all, seq![], w);
        assert(all + Seq::<char>::empty() =~= all);
        assert(text =~= seq![]);
    }
}

/// Dropping two kinds of characters at the end takes away exactly those.
pub proof fn law_trim_end_takes_only_these(text: Seq<char>, after: Seq<char>, a: char, b: char)
    requires
        forall|i: int| 0 <= i < after.len() ==> #[trigger] after[i] == a || after[i] == b,
        text.len() > 0 ==> text.last() != a && text.last() != b,
    ensures
        trim_end_two(text + after, a, b) == text,
{
    lemma_trim_end(text, after, either(a, b));
}

/// A numeral is read back as the number that it was written for.
pub proof fn law_decimal_round_trip(n: nat)
    ensures
        all_digits(dec(n)),
        dec_number(dec(n)) == n,
        dec(n).len() > 0,
        n >= 10 ==> dec(n)[0] != '0',
    decreases n,
{
    let s = dec(n);
    if n < 10 {
        assert(s.drop_last() =~= seq![]);
        assert(dec_number(s.drop_last()) == 0);
    } else {
        law_decimal_round_trip(n / 10);
        assert(s.drop_last() =~= dec(n / 10));
        assert forall|i: int| 0 <= i < s.len() implies is_digit(#[trigger] s[i]) by {
            if i < s.len() - 1 {
                assert(s[i] == dec(n / 10)[i]);
            }
        }
        assert(s[0] == dec(n / 10)[0]);
        if n / 10 < 10 {
            assert(dec(n / 10)[0] == (48 + n / 10) as char);
        }
    }
}

/// A signed number that fits is read back from its numeral.
pub proof fn law_signed_round_trip(n: int)
    requires
        -0x8000_0000 <= n <= 0x7FFF_FFFF,
    ensures
        int32_of(dec_int(n)) == Some(n),
{
    let s = dec_int(n);
    if n < 0 {
        law_decimal_round_trip((-n) as nat);
        assert(s.subrange(1, s.len() as int) =~= dec((-n) as nat));
    } else {
        law_decimal_round_trip(n as nat);
        assert(is_digit(s[0]));
    }
}

/// Two hexadecimal digits are read back as the byte that they were written
/// for.
pub proof fn law_hex_byte_round_trip(b: u8, upper: bool)
    ensures
        hex2(b, upper).len() == 2,
        hex_byte(hex2(b, upper)) == Some(b),
{
    let s = hex2(b, upper);
    let (h, l) = (b as int / 16, b as int % 16);
    assert(hex_value(hex_digit(h, upper)) == Some(h));
    assert(hex_value(hex_digit(l, upper)) == Some(l));
    assert(s.drop_last() =~= seq![hex_digit(h, upper)]);
    assert(s.drop_last().drop_last() =~= seq![]);
    assert(hex_number(s.drop_last().drop_last()) == 0);
    assert(hex_number(s.drop_last()) == h);
    assert(hex_number(s) == h * 16 + l);
}

/// A text is cut at the first separator and at no other: what is before has
/// none, and both parts put together are the text.
pub proof fn law_cut_is_at_the_first(s: Seq<char>, c: char)
    ensures
        match cut(s, c) {
            Some((a, b)) => s == a.push(c) + b && forall|i: int|
                0 <= i < a.len() ==> #[trigger] a[i] != c,
            None => forall|i: int| 0 <= i < s.len() ==> #[trigger] s[i] != c,
        },
{
    lemma_find_from(s, c, 0);
    if let Some((a, b)) = cut(s, c) {
        assert(s =~= a.push(c) + b);
    }
}

proof fn lemma_split_from_whole(s: Seq<char>, c: char, i: int)
    requires
        0 <= i <= s.len(),
    ensures
        ({
            let r = split_from(s, c, i);
            &&& r.len() > 0
            &&& glued(r, c) == s.subrange(i, s.len() as int)
            &&& forall|k: int, m: int|
                0 <= k < r.len() && 0 <= m < r[k].len() ==> #[trigger] r[k][m] != c
        }),
    decreases s.len() - i,
{
    lemma_find_from(s, c, i);
    let j = find_from(s, c, i);
    let r = split_from(s, c, i);
    if j >= s.len() {
        assert(r.skip(1) =~= seq![]);
        assert(glued(r, c) =~= s.subrange(i, s.len() as int));
    } else {
        lemma_split_from_whole(s, c, j + 1);
        let rest = split_from(s, c, j + 1);
        assert(r.skip(1) =~= rest);
        assert(glued(r, c) =~= s.subrange(i, s.len() as int));
        assert forall|k: int, m: int|
            0 <= k < r.len() && 0 <= m < r[k].len() implies #[trigger] r[k][m] != c by {
            if k > 0 {
                assert(r[k] == rest[k - 1]);
                assert(rest[k - 1][m] != c);
            } else {
                assert(r[0][m] == s[i + m]);
            }
        }
    }
}

/// Pieces with a separator between neighbours.
pub open spec fn glued(pieces: Seq<Seq<char>>, c: char) -> Seq<char>
    decreases pieces.len(),
{
    if pieces.len() == 0 {
        seq![]
    } else if pieces.len() == 1 {
        pieces[0]
    } else {
        pieces[0].push(c) + glued(pieces.skip(1), c)
    }
}

/// A text is split at every separator: no piece holds one, and the pieces
/// with separators between them are the text.
pub proof fn law_split_loses_nothing(s: Seq<char>, c: char)
    ensures
        ({
            let r = split_on(s, c);
            &&& r.len() > 0
            &&& glued(r, c) == s
            &&& forall|k: int, m: int|
                0 <= k < r.len() && 0 <= m < r[k].len() ==> #[trigger] r[k][m] != c
        }),
{
    lemma_split_from_whole(s, c, 0);
    assert(s.subrange(0, s.len() as int) =~= s);
}

/// Lines, each with a line feed behind it.
pub open spec fn as_lines(rows: Seq<Seq<char>>) -> Seq<char>
    decreases rows.len(),
{
    if rows.len() == 0 {
        seq![]
    } else {
        rows[0].push('\n') + as_lines(rows.skip(1))
    }
}

proof fn lemma_lines_from(before: Seq<char>, rows: Seq<Seq<char>>)
    requires
        forall|k: int, m: int|
            0 <= k < rows.len() && 0 <= m < rows[k].len() ==> #[trigger] rows[k][m] != '\n',
        forall|k: int|
            0 <= k < rows.len() ==> (#[trigger] rows[k]).len() == 0 || rows[k].last() != '\r',
    ensures
        lines_from(before + as_lines(rows), before.len() as int) == rows,
    decreases rows.len(),
{
    let s = before + as_lines(rows);
    let i = before.len() as int;
    if rows.len() == 0 {
        assert(s =~= before);
        assert(lines_from(s, i) =~= rows);
    } else {
        let rest = rows.skip(1);
        let row = rows[0];
        let next = before + row.push('\n');
        assert(s =~= next + as_lines(rest));
        lemma_find_from(s, '\n', i);
        let j = i + row.len();
        assert(s[j] == '\n');
        assert forall|m: int| i <= m < j implies s[m] != '\n' by {
            assert(s[m] == rows[0][m - i]);
        }
        assert(find_from(s, '\n', i) == j);
        assert forall|k: int, m: int|
            0 <= k < rest.len() && 0 <= m < rest[k].len() implies #[trigger] rest[k][m]
            != '\n' by {
            assert(rest[k] == rows[k + 1]);
            assert(rows[k + 1][m] != '\n');
        }
        assert forall|k: int| 0 <= k < rest.len() implies (#[trigger] rest[k]).len() == 0
            || rest[k].last() != '\r' by {
            assert(rest[k] == rows[k + 1]);
        }
        lemma_lines_from(next, rest);
        assert(s.subrange(i, j) =~= row);
        assert(lines_from(s, i) =~= rows);
    }
}

/// Lines that were written one after another are read back.
pub proof fn law_lines_are_read_back(rows: Seq<Seq<char>>)
    requires
        forall|k: int, m: int|
            0 <= k < rows.len() && 0 <= m < rows[k].len() ==> #[trigger] rows[k][m] != '\n',
        forall|k: int|
            0 <= k < rows.len() ==> (#[trigger] rows[k]).len() == 0 || rows[k].last() != '\r',
    ensures
        lines_of(as_lines(rows)) == rows,
{
    lemma_lines_from(seq![], rows);
    assert(Seq::<char>::empty() + as_lines(rows) =~= as_lines(rows));
}

/// No character that can be seen on a plain keyboard is white space; the
/// space, the tab and the ends of lines are.
pub proof fn law_white_space_cannot_be_seen(c: char)
    ensures
        is_white(' ') && is_white('\t') && is_white('\n') && is_white('\r'),
        '!' <= c <= '~' ==> !is_white(c),
        is_white(c) ==> c != '/' && c != '\0',
{
}

/// The sixteen digits stand in order for the numbers from zero, in either
/// case, and no other character is one.
pub proof fn law_hexadecimal_digits_count_up(d: int, upper: bool, c: char)
    ensures
        0 <= d < 16 ==> hex_value(hex_digit(d, upper)) == Some(d),
        0 <= d < 10 ==> hex_digit(d, upper) as int == 0x30 + d,
        10 <= d < 16 && upper ==> hex_digit(d, upper) as int == 0x41 + d - 10,
        10 <= d < 16 && !upper ==> hex_digit(d, upper) as int == 0x61 + d - 10,
        hex_value(c) matches Some(v) ==> 0 <= v < 16 && (c == hex_digit(v, true) || c == hex_digit(
            v,
            false,
        )),
{
}

} // verus!
