//! Character-level text rules: trailing-slash trimming, decimal numbers and
//! the small ASCII predicates the service relies on.
use vstd::prelude::*;

verus! {

/// `s` with every trailing `'/'` removed.
pub open spec fn trim_trailing_slashes(s: Seq<char>) -> Seq<char>
    decreases s.len(),
{
    if s.len() > 0 && s.last() == '/' {
        trim_trailing_slashes(s.drop_last())
    } else {
        s
    }
}

/// Whether `s` ends with a `'/'`.
pub open spec fn ends_with_slash(s: Seq<char>) -> bool {
    s.len() > 0 && s.last() == '/'
}

/// Trimming leaves no trailing slash and only removes slashes from the end.
pub proof fn lemma_trim_shape(s: Seq<char>)
    ensures
        !ends_with_slash(trim_trailing_slashes(s)),
        trim_trailing_slashes(s).len() <= s.len(),
        trim_trailing_slashes(s) =~= s.subrange(0, trim_trailing_slashes(s).len() as int),
        forall|i: int|
            trim_trailing_slashes(s).len() <= i < s.len() ==> #[trigger] s[i] == '/',
    decreases s.len(),
{
    if s.len() > 0 && s.last() == '/' {
        lemma_trim_shape(s.drop_last());
        let t = trim_trailing_slashes(s);
        assert forall|i: int| t.len() <= i < s.len() implies #[trigger] s[i] == '/' by {
            if i < s.len() - 1 {
                assert(s.drop_last()[i] == s[i]);
            }
        }
    }
}

/// Trimming twice trims no more than trimming once.
pub proof fn lemma_trim_idempotent(s: Seq<char>)
    ensures
        trim_trailing_slashes(trim_trailing_slashes(s)) == trim_trailing_slashes(s),
{
    lemma_trim_shape(s);
}

/// A slash appended to a text is trimmed away again.
pub proof fn lemma_trim_ignores_appended_slash(s: Seq<char>)
    ensures
        trim_trailing_slashes(s.push('/')) == trim_trailing_slashes(s),
{
    assert(s.push('/').drop_last() =~= s);
}

/// The copy of `s` without its trailing slashes.
pub fn trim_end_slashes(s: &str) -> (r: String)
    ensures
        r@ == trim_trailing_slashes(s@),
{
    let n = s.unicode_len();
    let mut k: usize = n;
    assert(s@.subrange(0, n as int) =~= s@);
    while k > 0 && s.get_char(k - 1) == '/'
        invariant
            k <= n,
            n == s@.len(),
            trim_trailing_slashes(s@) == trim_trailing_slashes(s@.subrange(0, k as int)),
        decreases k,
    {
        assert(s@.subrange(0, k as int).drop_last() =~= s@.subrange(0, k - 1));
        k = k - 1;
    }
    let kept = s.substring_char(0, k);
    String::from_str(kept)
}


/// The ASCII digit character for `d < 10`.
pub open spec fn digit_char(d: nat) -> char {
    (d + 48) as char
}

/// Whether `c` is one of the ASCII digits `'0'..='9'`.
pub open spec fn is_ascii_digit(c: char) -> bool {
    '0' <= c && c <= '9'
}

/// The number that the ASCII digit `c` stands for.
pub open spec fn digit_value(c: char) -> nat {
    (c as int - 48) as nat
}

/// The decimal representation of `n`, most significant digit first,
/// without sign or leading zeros.
pub open spec fn decimal(n: nat) -> Seq<char>
    decreases n,
{
    if n < 10 {
        seq![digit_char(n)]
    } else {
        decimal(n / 10).push(digit_char(n % 10))
    }
}

/// Whether every character of `s` is an ASCII digit.
pub open spec fn all_ascii_digits(s: Seq<char>) -> bool {
    forall|i: int| 0 <= i < s.len() ==> is_ascii_digit(#[trigger] s[i])
}

/// The number written by the digit string `s` (0 for the empty string).
pub open spec fn digits_value(s: Seq<char>) -> nat
    decreases s.len(),
{
    if s.len() == 0 {
        0
    } else {
        digits_value(s.drop_last()) * 10 + digit_value(s.last())
    }
}

/// The digits of an unsigned number text: an optional leading `'+'` is dropped.
pub open spec fn unsigned_digits(s: Seq<char>) -> Seq<char> {
    if s.len() > 0 && s[0] == '+' {
        s.drop_first()
    } else {
        s
    }
}

/// What parsing `s` as a `u16` gives: an optional `'+'`, then at least one
/// ASCII digit and nothing else, with a value that fits in 16 bits.
pub open spec fn parse_u16_text(s: Seq<char>) -> Option<u16> {
    let d = unsigned_digits(s);
    if d.len() > 0 && all_ascii_digits(d) && digits_value(d) <= 65535 {
        Some(digits_value(d) as u16)
    } else {
        None
    }
}

proof fn lemma_digit_char(k: nat)
    requires
        k < 10,
    ensures
        is_ascii_digit(digit_char(k)),
        digit_value(digit_char(k)) == k,
{
    assert(digit_char(k) as int == k + 48);
}

proof fn lemma_decimal_digits(n: nat)
    ensures
        decimal(n).len() > 0,
        all_ascii_digits(decimal(n)),
        digits_value(decimal(n)) == n,
    decreases n,
{
    lemma_digit_char(n % 10);
    if n >= 10 {
        lemma_decimal_digits(n / 10);
        let d = decimal(n);
        assert(d.drop_last() =~= decimal(n / 10));
        assert forall|i: int| 0 <= i < d.len() implies is_ascii_digit(#[trigger] d[i]) by {
            if i < d.len() - 1 {
                assert(d[i] == decimal(n / 10)[i]);
            }
        }
        assert(d.last() == digit_char(n % 10));
        assert(digits_value(d) == digits_value(decimal(n / 10)) * 10 + digit_value(d.last()));
        assert(n == (n / 10) * 10 + n % 10);
    } else {
        let d = decimal(n);
        assert(d.drop_last() =~= Seq::<char>::empty());
        assert(digits_value(d.drop_last()) == 0);
        assert(digits_value(d) == digits_value(d.drop_last()) * 10 + digit_value(d.last()));
    }
}

/// Reading the decimal text of a 16-bit number gives the number back.
pub proof fn lemma_parse_decimal_roundtrip(n: u16)
    ensures
        parse_u16_text(decimal(n as nat)) == Some(n),
{
    lemma_decimal_digits(n as nat);
    assert(is_ascii_digit(decimal(n as nat)[0]));
    assert(unsigned_digits(decimal(n as nat)) == decimal(n as nat));
}

/// The `u16` written by `s`, or `None` where the text is no such number.
pub fn parse_u16(s: &str) -> (r: Option<u16>)
    ensures
        r == parse_u16_text(s@),
{
    let n = s.unicode_len();
    let mut start: usize = 0;
    if n > 0 && s.get_char(0) == '+' {
        start = 1;
    }
    let ghost d = unsigned_digits(s@);
    assert(d =~= s@.subrange(start as int, n as int));
    if start == n {
        return None;
    }
    let mut acc: u32 = 0;
    let mut i: usize = start;
    while i < n
        invariant
            start <= i <= n,
            n == s@.len(),
            d =~= s@.subrange(start as int, n as int),
            d == unsigned_digits(s@),
            all_ascii_digits(s@.subrange(start as int, i as int)),
            acc == if digits_value(s@.subrange(start as int, i as int)) > 65535 {
                65536
            } else {
                digits_value(s@.subrange(start as int, i as int))
            },
        decreases n - i,
    {
        let c = s.get_char(i);
        let ghost prefix = s@.subrange(start as int, i as int);
        let ghost next = s@.subrange(start as int, i + 1);
        assert(next.drop_last() =~= prefix);
        assert(next.last() == c);
        if !('0' <= c && c <= '9') {
            assert(d[i - start] == c);
            assert(!is_ascii_digit(c));
            return None;
        }
        let v: u32 = (c as u32) - 48;
        if acc > 65535 {
            acc = 65536;
        } else {
            acc = acc * 10 + v;
            if acc > 65535 {
                acc = 65536;
            }
        }
        assert forall|j: int| 0 <= j < next.len() implies is_ascii_digit(#[trigger] next[j]) by {
            if j < prefix.len() {
                assert(next[j] == prefix[j]);
            }
        }
        i = i + 1;
    }
    assert(s@.subrange(start as int, n as int) =~= d);
    if acc > 65535 {
        None
    } else {
        Some(acc as u16)
    }
}

/// Pushes the character `c` onto `s` (`String::push`).
#[verifier::external_body]
fn push_char(s: &mut String, c: char)
    ensures
        final(s)@ == old(s)@.push(c),
{
    s.push(c);
}

/// The decimal text of `n`, as `u16`'s `Display` writes it.
pub fn decimal_text(n: u16) -> (r: String)
    ensures
        r@ == decimal(n as nat),
{
    // digits are collected least significant first
    let mut digits: Vec<char> = Vec::new();
    let mut m: u16 = n;
    while m >= 10
        invariant
            decimal(n as nat) =~= decimal(m as nat) + digits@.reverse(),
        decreases m,
    {
        let d: u16 = m % 10;
        let c: char = ((d as u8) + 48) as char;
        assert(c == digit_char(d as nat));
        assert(decimal(m as nat) =~= decimal((m / 10) as nat).push(c));
        assert(digits@.push(c).reverse() =~= seq![c] + digits@.reverse());
        digits.push(c);
        m = m / 10;
    }
    let c: char = ((m as u8) + 48) as char;
    assert(c == digit_char(m as nat));
    assert(decimal(m as nat) =~= seq![c]);
    assert(digits@.push(c).reverse() =~= seq![c] + digits@.reverse());
    digits.push(c);
    let mut r = String::new();
    let mut k: usize = digits.len();
    while k > 0
        invariant
            k <= digits.len(),
            r@ =~= digits@.reverse().subrange(0, (digits.len() - k) as int),
        decreases k,
    {
        k = k - 1;
        push_char(&mut r, digits[k]);
    }
    assert(digits@.reverse().subrange(0, digits.len() as int) =~= digits@.reverse());
    r
}


/// The ASCII lowercase of `c`; every other character is left as it is.
pub open spec fn ascii_lower(c: char) -> char {
    if 'A' <= c && c <= 'Z' {
        (c as int + 32) as char
    } else {
        c
    }
}

/// Whether `s` is the word `http` in any mix of ASCII letter cases.
///
/// Unicode lowercasing maps no character other than the ASCII ones to `h`,
/// `t` or `p`, so this is also the set of texts whose lowercase is `http`.
pub open spec fn is_http_word(s: Seq<char>) -> bool {
    &&& s.len() == 4
    &&& ascii_lower(s[0]) == 'h'
    &&& ascii_lower(s[1]) == 't'
    &&& ascii_lower(s[2]) == 't'
    &&& ascii_lower(s[3]) == 'p'
}

fn lower_char(c: char) -> (r: char)
    ensures
        r == ascii_lower(c),
{
    if 'A' <= c && c <= 'Z' {
        ((c as u8) + 32) as char
    } else {
        c
    }
}

/// Whether `s` names the HTTP transport, whatever the case of its letters.
pub fn is_http_transport_name(s: &str) -> (r: bool)
    ensures
        r == is_http_word(s@),
{
    if s.unicode_len() != 4 {
        return false;
    }
    lower_char(s.get_char(0)) == 'h' && lower_char(s.get_char(1)) == 't'
        && lower_char(s.get_char(2)) == 't' && lower_char(s.get_char(3)) == 'p'
}

/// Whether `c` may stand in a memory id: an ASCII letter or digit, or `'-'`.
pub open spec fn is_memory_id_char(c: char) -> bool {
    ||| 'a' <= c && c <= 'z'
    ||| 'A' <= c && c <= 'Z'
    ||| '0' <= c && c <= '9'
    ||| c == '-'
}

/// Whether every character of `s` may stand in a memory id.
pub open spec fn is_memory_id(s: Seq<char>) -> bool {
    forall|i: int| 0 <= i < s.len() ==> is_memory_id_char(#[trigger] s[i])
}

/// A text that passes as a memory id holds no character that could lead a
/// URL path out of the directory it is appended to, nor start a query or a
/// fragment: no `'/'`, `'.'`, `'\\'`, `'%'`, `'?'` or `'#'`.
pub proof fn lemma_memory_id_cannot_leave_its_path(s: Seq<char>)
    requires
        is_memory_id(s),
    ensures
        forall|i: int|
            0 <= i < s.len() ==> {
                let c = #[trigger] s[i];
                c != '/' && c != '.' && c != '\\' && c != '%' && c != '?' && c != '#'
            },
{
    assert forall|i: int| 0 <= i < s.len() implies {
        let c = #[trigger] s[i];
        c != '/' && c != '.' && c != '\\' && c != '%' && c != '?' && c != '#'
    } by {
        assert(is_memory_id_char(s[i]));
    }
}

/// A text passes as a memory id exactly when each of its characters is an
/// ASCII lowercase letter, an ASCII uppercase letter, one of the ten ASCII
/// digits or `'-'`; so every hyphenated hexadecimal id (a UUID) passes.
pub proof fn lemma_memory_id_is_alphanumeric_or_dash(s: Seq<char>)
    ensures
        is_memory_id(s) <==> forall|i: int|
            0 <= i < s.len() ==> {
                let c = #[trigger] s[i];
                ||| ('a' <= c && c <= 'z')
                ||| ('A' <= c && c <= 'Z')
                ||| c == '0' || c == '1' || c == '2' || c == '3' || c == '4'
                ||| c == '5' || c == '6' || c == '7' || c == '8' || c == '9'
                ||| c == '-'
            },
{
    assert forall|c: char| is_memory_id_char(c) <==> {
        ||| ('a' <= c && c <= 'z')
        ||| ('A' <= c && c <= 'Z')
        ||| c == '0' || c == '1' || c == '2' || c == '3' || c == '4'
        ||| c == '5' || c == '6' || c == '7' || c == '8' || c == '9'
        ||| c == '-'
    } by {
        if '0' <= c && c <= '9' {
            assert(c as u32 >= 48 && c as u32 <= 57);
        }
    }
}

/// Whether every character of `s` may stand in a memory id.
pub fn is_valid_memory_id(s: &str) -> (r: bool)
    ensures
        r == is_memory_id(s@),
{
    let n = s.unicode_len();
    let mut i: usize = 0;
    while i < n
        invariant
            i <= n,
            n == s@.len(),
            forall|j: int| 0 <= j < i ==> is_memory_id_char(#[trigger] s@[j]),
        decreases n - i,
    {
        let c = s.get_char(i);
        let ok = ('a' <= c && c <= 'z') || ('A' <= c && c <= 'Z') || ('0' <= c && c <= '9')
            || c == '-';
        if !ok {
            return false;
        }
        i = i + 1;
    }
    true
}

/// Whether the strings `a` and `b` hold the same characters (`str == str`).
#[verifier::external_body]
pub(crate) fn str_eq(a: &str, b: &str) -> (r: bool)
    ensures
        r == (a@ == b@),
{
    a == b
}

} // verus!
