//! Character-level string helpers shared by the plugin, presence and
//! metadata rules: whitespace trimming, prefix tests, UTF-8 byte
//! accounting, digit parsing, and the one case mapping that std computes.

use vstd::prelude::*;

verus! {

/// What `str::to_lowercase` returns for a given character sequence. The
/// Unicode case mapping is a fixed function of the characters alone, so
/// it is named here rather than spelled out.
pub uninterp spec fn lower_of(s: Seq<char>) -> Seq<char>;

/// Relies on str::to_lowercase: the result depends only on the input
/// characters, and an empty string stays empty.
#[verifier::external_body]
pub(crate) fn to_lowercase_str(s: &str) -> (r: String)
    ensures
        r@ == lower_of(s@),
        s@.len() == 0 ==> r@.len() == 0,
{
    s.to_lowercase()
}

/// Copy the characters of `s` into a vector.
pub fn str_to_chars(s: &str) -> (r: Vec<char>)
    ensures
        r@ == s@,
{
    let n = s.unicode_len();
    let mut r: Vec<char> = Vec::new();
    let mut i: usize = 0;
    while i < n
        invariant
            n == s@.len(),
            i <= n,
            r@ == s@.subrange(0, i as int),
        decreases n - i,
    {
        r.push(s.get_char(i));
        i = i + 1;
        proof {
            assert(r@ =~= s@.subrange(0, i as int));
        }
    }
    proof {
        assert(s@.subrange(0, n as int) =~= s@);
    }
    r
}

/// Whether `s` begins with the characters `prefix`.
pub open spec fn spec_starts_with(s: Seq<char>, prefix: Seq<char>) -> bool {
    prefix.len() <= s.len() && s.subrange(0, prefix.len() as int) == prefix
}

/// Whether `s` starts with the characters of `prefix`.
pub fn str_starts_with(s: &str, prefix: &str) -> (r: bool)
    ensures
        r == spec_starts_with(s@, prefix@),
{
    let np = prefix.unicode_len();
    let ns = s.unicode_len();
    if np > ns {
        return false;
    }
    let mut i: usize = 0;
    while i < np
        invariant
            np == prefix@.len(),
            ns == s@.len(),
            np <= ns,
            i <= np,
            forall|j: int| 0 <= j < i ==> s@[j] == prefix@[j],
        decreases np - i,
    {
        if s.get_char(i) != prefix.get_char(i) {
            proof {
                assert(s@.subrange(0, np as int)[i as int] != prefix@[i as int]);
            }
            return false;
        }
        i = i + 1;
    }
    proof {
        assert(s@.subrange(0, np as int) =~= prefix@);
    }
    true
}

/// Whether two string slices hold the same characters.
pub fn str_eq(a: &str, b: &str) -> (r: bool)
    ensures
        r == (a@ == b@),
{
    let na = a.unicode_len();
    let nb = b.unicode_len();
    if na != nb {
        return false;
    }
    let mut i: usize = 0;
    while i < na
        invariant
            na == a@.len(),
            na == b@.len(),
            i <= na,
            forall|j: int| 0 <= j < i ==> a@[j] == b@[j],
        decreases na - i,
    {
        if a.get_char(i) != b.get_char(i) {
            return false;
        }
        i = i + 1;
    }
    proof {
        assert(a@ =~= b@);
    }
    true
}

/// Whether `s` contains the characters of `sub` as a contiguous run.
pub open spec fn spec_str_contains(s: Seq<char>, sub: Seq<char>) -> bool {
    exists|i: int|
        0 <= i <= s.len() - sub.len() && (#[trigger] s.subrange(i, i + sub.len() as int)) == sub
}

/// Whether `s` contains `sub` as a substring.
pub fn str_contains(s: &str, sub: &str) -> (r: bool)
    ensures
        r == spec_str_contains(s@, sub@),
{
    let n = s.unicode_len();
    let m = sub.unicode_len();
    if m > n {
        return false;
    }
    if m == 0 {
        proof {
            let w: int = 0;
            assert(s@.subrange(w, w + sub@.len() as int) =~= sub@);
        }
        return true;
    }
    let mut i: usize = 0;
    while i <= n - m
        invariant
            n == s@.len(),
            m == sub@.len(),
            1 <= m <= n,
            i <= n - m + 1,
            forall|p: int| 0 <= p < i ==> (#[trigger] s@.subrange(p, p + m as int)) != sub@,
        decreases n - m + 1 - i,
    {
        let mut j: usize = 0;
        let mut matched = true;
        while j < m
            invariant
                n == s@.len(),
                m == sub@.len(),
                m <= n,
                i <= n - m,
                j <= m,
                matched ==> forall|q: int| 0 <= q < j ==> s@[i + q] == sub@[q],
                !matched ==> s@.subrange(i as int, i as int + m as int) != sub@,
            decreases m - j,
        {
            if s.get_char(i + j) != sub.get_char(j) {
                proof {
                    assert(s@.subrange(i as int, i as int + m as int)[j as int] == s@[i + j]);
                }
                matched = false;
                j = m;
            } else {
                j = j + 1;
            }
        }
        if matched {
            proof {
                assert(s@.subrange(i as int, i as int + m as int) =~= sub@);
            }
            return true;
        }
        i = i + 1;
    }
    false
}

/// The index of the first occurrence of `c` in `s`, or the length of
/// `s` when it does not occur.
pub open spec fn index_of_char(s: Seq<char>, c: char) -> nat
    decreases s.len(),
{
    if s.len() == 0 {
        0
    } else if s[0] == c {
        0
    } else {
        1 + index_of_char(s.subrange(1, s.len() as int), c)
    }
}

/// The first occurrence is at `k` exactly when `s[k]` is `c` and
/// nothing before it is.
pub proof fn lemma_index_of_char_at(s: Seq<char>, c: char, k: int)
    requires
        0 <= k <= s.len(),
        k < s.len() ==> s[k] == c,
        forall|j: int| 0 <= j < k ==> s[j] != c,
    ensures
        index_of_char(s, c) == k,
    decreases s.len(),
{
    if s.len() > 0 && s[0] != c {
        let t = s.subrange(1, s.len() as int);
        assert(forall|j: int| 0 <= j < k - 1 ==> t[j] == s[j + 1]);
        lemma_index_of_char_at(t, c, k - 1);
    }
}

/// The index of the last occurrence of `c` in `s`, or `-1` when it
/// does not occur.
pub open spec fn last_index_of(s: Seq<char>, c: char) -> int
    decreases s.len(),
{
    if s.len() == 0 {
        -1
    } else if s.last() == c {
        s.len() - 1
    } else {
        last_index_of(s.drop_last(), c)
    }
}

/// The last occurrence is at `k` exactly when `s[k]` is `c` and
/// nothing after it is; `k == -1` says there is none at all.
pub proof fn lemma_last_index_of_at(s: Seq<char>, c: char, k: int)
    requires
        -1 <= k < s.len(),
        k >= 0 ==> s[k] == c,
        forall|j: int| k < j < s.len() ==> s[j] != c,
    ensures
        last_index_of(s, c) == k,
    decreases s.len(),
{
    if s.len() > 0 && s.last() != c {
        lemma_last_index_of_at(s.drop_last(), c, k);
    }
}

/// The Unicode white-space characters, as `char::is_whitespace` lists
/// them.
pub open spec fn is_space(c: char) -> bool {
    c == ' ' || c == '\t' || c == '\n' || c == '\u{b}' || c == '\u{c}' || c == '\r'
        || c == '\u{85}' || c == '\u{a0}' || c == '\u{1680}' || ('\u{2000}' <= c && c
        <= '\u{200a}') || c == '\u{2028}' || c == '\u{2029}' || c == '\u{202f}' || c == '\u{205f}'
        || c == '\u{3000}'
}

/// Decide `is_space` for one character.
pub fn char_is_space(c: char) -> (r: bool)
    ensures
        r == is_space(c),
{
    c == ' ' || c == '\t' || c == '\n' || c == '\u{b}' || c == '\u{c}' || c == '\r'
        || c == '\u{85}' || c == '\u{a0}' || c == '\u{1680}' || ('\u{2000}' <= c && c
        <= '\u{200a}') || c == '\u{2028}' || c == '\u{2029}' || c == '\u{202f}' || c == '\u{205f}'
        || c == '\u{3000}'
}

/// `s` with its leading and trailing white space removed.
pub open spec fn trimmed(s: Seq<char>) -> Seq<char>
    decreases s.len(),
{
    if s.len() == 0 {
        s
    } else if is_space(s[0]) {
        trimmed(s.subrange(1, s.len() as int))
    } else if is_space(s.last()) {
        trimmed(s.drop_last())
    } else {
        s
    }
}

/// Remove leading and trailing white space from `s`.
pub fn trim_str(s: &str) -> (r: String)
    ensures
        r@ == trimmed(s@),
{
    let n = s.unicode_len();
    let mut a: usize = 0;
    let mut b: usize = n;
    proof {
        assert(s@.subrange(0, n as int) =~= s@);
    }
    while a < b && char_is_space(s.get_char(a))
        invariant
            n == s@.len(),
            a <= b <= n,
            trimmed(s@) == trimmed(s@.subrange(a as int, b as int)),
        decreases b - a,
    {
        proof {
            let cur = s@.subrange(a as int, b as int);
            assert(cur.subrange(1, cur.len() as int) =~= s@.subrange(a as int + 1, b as int));
        }
        a = a + 1;
    }
    while b > a && char_is_space(s.get_char(b - 1))
        invariant
            n == s@.len(),
            a <= b <= n,
            trimmed(s@) == trimmed(s@.subrange(a as int, b as int)),
            a < b ==> !is_space(s@[a as int]),
        decreases b - a,
    {
        proof {
            let cur = s@.subrange(a as int, b as int);
            assert(cur.drop_last() =~= s@.subrange(a as int, b as int - 1));
        }
        b = b - 1;
    }
    let out = s.substring_char(a, b);
    proof {
        let cur = s@.subrange(a as int, b as int);
        if a < b {
            assert(!is_space(cur[0]));
            assert(!is_space(cur.last()));
        }
        assert(trimmed(cur) == cur);
    }
    out.to_owned()
}

/// The UTF-8 encoded length of one character, in bytes.
pub open spec fn char_utf8_len(c: char) -> int {
    if (c as u32) < 0x80 {
        1
    } else if (c as u32) < 0x800 {
        2
    } else if (c as u32) < 0x10000 {
        3
    } else {
        4
    }
}

/// The UTF-8 encoded length of a character sequence, in bytes.
pub open spec fn str_byte_len(s: Seq<char>) -> int
    decreases s.len(),
{
    if s.len() == 0 {
        0
    } else {
        str_byte_len(s.drop_last()) + char_utf8_len(s.last())
    }
}

pub proof fn lemma_str_byte_len_nonneg(s: Seq<char>)
    ensures
        str_byte_len(s) >= s.len(),
    decreases s.len(),
{
    if s.len() > 0 {
        lemma_str_byte_len_nonneg(s.drop_last());
    }
}

pub proof fn lemma_str_byte_len_take_le(s: Seq<char>, i: int)
    requires
        0 <= i <= s.len(),
    ensures
        str_byte_len(s.take(i)) <= str_byte_len(s),
    decreases s.len(),
{
    if i == s.len() {
        assert(s.take(i) =~= s);
    } else {
        assert(s.drop_last().take(i) =~= s.take(i));
        lemma_str_byte_len_take_le(s.drop_last(), i);
        lemma_str_byte_len_nonneg(s.take(i));
    }
}

/// The UTF-8 encoded length of one character, in bytes.
pub fn char_byte_len(c: char) -> (r: usize)
    ensures
        r == char_utf8_len(c),
{
    let v = c as u32;
    if v < 0x80 {
        1
    } else if v < 0x800 {
        2
    } else if v < 0x10000 {
        3
    } else {
        4
    }
}

/// Whether the UTF-8 encoding of `s` takes more than `limit` bytes.
/// The count stops as soon as the limit is passed, so it never
/// overflows.
pub fn byte_len_exceeds(s: &str, limit: usize) -> (r: bool)
    ensures
        r == (str_byte_len(s@) > limit),
{
    let n = s.unicode_len();
    let mut acc: usize = 0;
    let mut i: usize = 0;
    while i < n
        invariant
            n == s@.len(),
            i <= n,
            acc == str_byte_len(s@.take(i as int)),
            acc <= limit,
        decreases n - i,
    {
        proof {
            assert(s@.take(i as int + 1).drop_last() =~= s@.take(i as int));
            assert(s@.take(i as int + 1).last() == s@[i as int]);
        }
        let cl = char_byte_len(s.get_char(i));
        if limit - acc < cl {
            proof {
                lemma_str_byte_len_take_le(s@, i as int + 1);
            }
            return true;
        }
        acc = acc + cl;
        i = i + 1;
    }
    proof {
        assert(s@.take(n as int) =~= s@);
    }
    false
}

/// The longest prefix of `s` whose UTF-8 encoding fits in `limit`
/// bytes.
pub open spec fn truncated_to_bytes(s: Seq<char>, limit: int) -> Seq<char>
    decreases s.len(),
{
    if str_byte_len(s) <= limit {
        s
    } else if s.len() == 0 {
        s
    } else {
        truncated_to_bytes(s.drop_last(), limit)
    }
}

/// The truncation of `s` is exactly its longest fitting prefix.
proof fn lemma_truncated_is_max_prefix(s: Seq<char>, limit: int, k: int)
    requires
        0 <= k <= s.len(),
        str_byte_len(s.take(k)) <= limit,
        k < s.len() ==> str_byte_len(s.take(k + 1)) > limit,
    ensures
        truncated_to_bytes(s, limit) == s.take(k),
    decreases s.len(),
{
    if str_byte_len(s) <= limit {
        if k < s.len() {
            lemma_str_byte_len_take_le(s, k + 1);
            assert(false);
        }
        assert(s.take(k) =~= s);
    } else {
        assert(s.take(s.len() as int) =~= s);
        assert(k < s.len());
        let d = s.drop_last();
        assert(d.take(k) =~= s.take(k));
        if k < d.len() {
            assert(d.take(k + 1) =~= s.take(k + 1));
        }
        lemma_truncated_is_max_prefix(d, limit, k);
    }
}

/// Cut `s` down to the longest prefix that fits in `limit` UTF-8 bytes.
pub fn truncate_to_bytes(s: &str, limit: usize) -> (r: String)
    ensures
        r@ == truncated_to_bytes(s@, limit as int),
{
    let n = s.unicode_len();
    let mut acc: usize = 0;
    let mut k: usize = 0;
    let mut fits = true;
    while k < n && fits
        invariant
            n == s@.len(),
            k <= n,
            acc == str_byte_len(s@.take(k as int)),
            acc <= limit,
            !fits ==> k < n && str_byte_len(s@.take(k as int + 1)) > limit,
        decreases n - k + (if fits {
            1int
        } else {
            0int
        }),
    {
        proof {
            assert(s@.take(k as int + 1).drop_last() =~= s@.take(k as int));
            assert(s@.take(k as int + 1).last() == s@[k as int]);
        }
        let cl = char_byte_len(s.get_char(k));
        if limit - acc < cl {
            fits = false;
        } else {
            acc = acc + cl;
            k = k + 1;
        }
    }
    proof {
        lemma_truncated_is_max_prefix(s@, limit as int, k as int);
        assert(s@.subrange(0, k as int) =~= s@.take(k as int));
    }
    let out = s.substring_char(0, k);
    out.to_owned()
}

/// Whether `c` is an ASCII decimal digit.
pub open spec fn is_digit(c: char) -> bool {
    '0' <= c && c <= '9'
}

/// The numeric value of a digit sequence, most significant first.
pub open spec fn digits_value(s: Seq<char>) -> int
    decreases s.len(),
{
    if s.len() == 0 {
        0
    } else {
        digits_value(s.drop_last()) * 10 + (s.last() as u32 - '0' as u32)
    }
}

/// `s` without an optional single leading plus sign, which unsigned
/// parsing accepts.
pub open spec fn without_plus(s: Seq<char>) -> Seq<char> {
    if s.len() > 0 && s[0] == '+' {
        s.subrange(1, s.len() as int)
    } else {
        s
    }
}

/// Whether `s` parses as a `u32`: after an optional plus sign, at least
/// one digit, nothing but digits, and a value in range.
pub open spec fn parseable_u32(s: Seq<char>) -> bool {
    let t = without_plus(s);
    &&& t.len() > 0
    &&& (forall|i: int| 0 <= i < t.len() ==> is_digit(#[trigger] t[i]))
    &&& digits_value(t) <= u32::MAX
}

/// The value `s` parses to, when `parseable_u32(s)` holds.
pub open spec fn parsed_u32(s: Seq<char>) -> int {
    digits_value(without_plus(s))
}

/// Parse the characters `v[from..to]` as a `u32`, accepting an optional
/// leading plus sign, as unsigned integer parsing does.
pub fn parse_u32_in(v: &Vec<char>, from: usize, to: usize) -> (r: Option<u32>)
    requires
        from <= to <= v@.len(),
    ensures
        r is Some <==> parseable_u32(v@.subrange(from as int, to as int)),
        r matches Some(x) ==> x as int == parsed_u32(v@.subrange(from as int, to as int)),
{
    let ghost s = v@.subrange(from as int, to as int);
    let mut i: usize = from;
    if i < to && v[i] == '+' {
        i = i + 1;
    }
    let ghost t = without_plus(s);
    proof {
        assert(v@.subrange(i as int, to as int) =~= t);
    }
    if i == to {
        return None;
    }
    let start = i;
    let mut acc: u32 = 0;
    while i < to
        invariant
            from <= start <= i <= to <= v@.len(),
            start < to,
            s == v@.subrange(from as int, to as int),
            t == without_plus(s),
            t == v@.subrange(start as int, to as int),
            forall|j: int| start <= j < i ==> is_digit(#[trigger] v@[j]),
            acc as int == digits_value(v@.subrange(start as int, i as int)),
        decreases to - i,
    {
        let c = v[i];
        if c < '0' || c > '9' {
            proof {
                assert(t[i - start] == v@[i as int]);
            }
            return None;
        }
        let d: u32 = (c as u32) - ('0' as u32);
        proof {
            assert(v@.subrange(start as int, i as int + 1).drop_last() =~= v@.subrange(
                start as int, i as int));
            assert(v@.subrange(start as int, i as int + 1).last() == v@[i as int]);
        }
        if acc > (u32::MAX - d) / 10 {
            proof {
                let ghost pre = v@.subrange(start as int, i as int + 1);
                assert(digits_value(pre) > u32::MAX) by (nonlinear_arith)
                    requires
                        digits_value(pre) == digits_value(pre.drop_last()) * 10 + (pre.last() as u32
                            - '0' as u32),
                        digits_value(pre.drop_last()) == acc as int,
                        pre.last() as u32 - '0' as u32 == d as int,
                        acc > (u32::MAX - d) / 10,
                        0 <= d <= 9,
                ;
                if forall|j: int| 0 <= j < t.len() ==> is_digit(#[trigger] t[j]) {
                    lemma_digits_value_grows(t, i as int + 1 - start);
                    assert(t.take(i as int + 1 - start) =~= pre);
                }
            }
            return None;
        }
        acc = acc * 10 + d;
        i = i + 1;
    }
    proof {
        assert(v@.subrange(start as int, to as int) =~= t);
    }
    Some(acc)
}

/// The character for one decimal digit.
pub open spec fn digit_char(d: int) -> char {
    if d == 0 {
        '0'
    } else if d == 1 {
        '1'
    } else if d == 2 {
        '2'
    } else if d == 3 {
        '3'
    } else if d == 4 {
        '4'
    } else if d == 5 {
        '5'
    } else if d == 6 {
        '6'
    } else if d == 7 {
        '7'
    } else if d == 8 {
        '8'
    } else {
        '9'
    }
}

/// The decimal digits of a nonnegative number, most significant first.
pub open spec fn dec_digits(n: int) -> Seq<char>
    decreases n,
{
    if n < 10 {
        seq![digit_char(n)]
    } else {
        dec_digits(n / 10).push(digit_char(n % 10))
    }
}

/// The decimal rendering of a signed number: a minus sign before the
/// digits of its magnitude when it is negative.
pub open spec fn spec_i32_string(v: int) -> Seq<char> {
    if v < 0 {
        seq!['-'] + dec_digits(-v)
    } else {
        dec_digits(v)
    }
}

/// One decimal digit as a string.
fn digit_str(d: u32) -> (r: String)
    requires
        d <= 9,
    ensures
        r@ =~= seq![digit_char(d as int)],
{
    proof {
        reveal_strlit("0");
        reveal_strlit("1");
        reveal_strlit("2");
        reveal_strlit("3");
        reveal_strlit("4");
        reveal_strlit("5");
        reveal_strlit("6");
        reveal_strlit("7");
        reveal_strlit("8");
        reveal_strlit("9");
    }
    if d == 0 {
        "0".to_owned()
    } else if d == 1 {
        "1".to_owned()
    } else if d == 2 {
        "2".to_owned()
    } else if d == 3 {
        "3".to_owned()
    } else if d == 4 {
        "4".to_owned()
    } else if d == 5 {
        "5".to_owned()
    } else if d == 6 {
        "6".to_owned()
    } else if d == 7 {
        "7".to_owned()
    } else if d == 8 {
        "8".to_owned()
    } else {
        "9".to_owned()
    }
}

/// Render a nonnegative number in decimal.
pub fn u32_to_decimal(n: u32) -> (r: String)
    ensures
        r@ == dec_digits(n as int),
{
    let mut acc = digit_str(n % 10);
    let mut cur: u32 = n / 10;
    proof {
        if n >= 10 {
            assert(dec_digits(n as int) == dec_digits(n as int / 10).push(
                digit_char(n as int % 10),
            ));
            assert(dec_digits(cur as int) + acc@ =~= dec_digits(cur as int).push(
                digit_char(n as int % 10),
            ));
        }
    }
    while cur > 0
        invariant
            dec_digits(n as int) == (if cur > 0 {
                dec_digits(cur as int) + acc@
            } else {
                acc@
            }),
        decreases cur,
    {
        let d = cur % 10;
        let next: u32 = cur / 10;
        let ds = digit_str(d);
        let ghost acc_pre = acc@;
        let new_acc = ds.concat(acc.as_str());
        proof {
            if cur >= 10 {
                assert(dec_digits(cur as int) == dec_digits(next as int).push(
                    digit_char(d as int),
                ));
                assert(dec_digits(next as int) + new_acc@ =~= dec_digits(cur as int) + acc_pre);
            } else {
                assert(dec_digits(cur as int) =~= seq![digit_char(d as int)]);
                assert(new_acc@ =~= dec_digits(cur as int) + acc_pre);
            }
        }
        acc = new_acc;
        cur = next;
    }
    acc
}

/// Render a signed number in decimal, with a minus sign when it is
/// negative.
pub fn i32_to_decimal(v: i32) -> (r: String)
    ensures
        r@ == spec_i32_string(v as int),
{
    if v < 0 {
        let mag: u32 = (-(v as i64)) as u32;
        let digits = u32_to_decimal(mag);
        let r = "-".to_owned().concat(digits.as_str());
        proof {
            reveal_strlit("-");
            assert("-"@ =~= seq!['-']);
        }
        r
    } else {
        u32_to_decimal(v as u32)
    }
}

/// `s` without an optional single leading plus or minus sign, which
/// signed parsing accepts.
pub open spec fn without_sign(s: Seq<char>) -> Seq<char> {
    if s.len() > 0 && (s[0] == '+' || s[0] == '-') {
        s.subrange(1, s.len() as int)
    } else {
        s
    }
}

/// Whether `s` carries a leading minus sign.
pub open spec fn is_negative(s: Seq<char>) -> bool {
    s.len() > 0 && s[0] == '-'
}

/// Whether `s` parses as an `i32`: after an optional sign, at least
/// one digit, nothing but digits, and a value in range.
pub open spec fn parseable_i32(s: Seq<char>) -> bool {
    let t = without_sign(s);
    &&& t.len() > 0
    &&& (forall|i: int| 0 <= i < t.len() ==> is_digit(#[trigger] t[i]))
    &&& (if is_negative(s) {
        digits_value(t) <= 0x8000_0000int
    } else {
        digits_value(t) <= i32::MAX as int
    })
}

/// The value `s` parses to, when `parseable_i32(s)` holds.
pub open spec fn parsed_i32(s: Seq<char>) -> int {
    if is_negative(s) {
        -digits_value(without_sign(s))
    } else {
        digits_value(without_sign(s))
    }
}

/// Parse the characters `v[from..to]` as an `i32`, accepting an
/// optional leading sign, as signed integer parsing does.
pub fn parse_i32_in(v: &Vec<char>, from: usize, to: usize) -> (r: Option<i32>)
    requires
        from <= to <= v@.len(),
    ensures
        r is Some <==> parseable_i32(v@.subrange(from as int, to as int)),
        r matches Some(x) ==> x as int == parsed_i32(v@.subrange(from as int, to as int)),
{
    let ghost s = v@.subrange(from as int, to as int);
    let mut i: usize = from;
    let mut neg = false;
    if i < to && (v[i] == '+' || v[i] == '-') {
        neg = v[i] == '-';
        i = i + 1;
    }
    let ghost t = without_sign(s);
    proof {
        assert(v@.subrange(i as int, to as int) =~= t);
    }
    if i == to {
        return None;
    }
    let start = i;
    let max_mag: u32 = if neg {
        0x8000_0000
    } else {
        0x7fff_ffff
    };
    let mut acc: u32 = 0;
    while i < to
        invariant
            from <= start <= i <= to <= v@.len(),
            start < to,
            s == v@.subrange(from as int, to as int),
            t == without_sign(s),
            t == v@.subrange(start as int, to as int),
            neg == is_negative(s),
            max_mag as int == (if neg {
                0x8000_0000int
            } else {
                0x7fff_ffffint
            }),
            forall|j: int| start <= j < i ==> is_digit(#[trigger] v@[j]),
            acc as int == digits_value(v@.subrange(start as int, i as int)),
            acc <= max_mag,
        decreases to - i,
    {
        let c = v[i];
        if c < '0' || c > '9' {
            proof {
                assert(t[i - start] == v@[i as int]);
            }
            return None;
        }
        let d: u32 = (c as u32) - ('0' as u32);
        proof {
            assert(v@.subrange(start as int, i as int + 1).drop_last() =~= v@.subrange(
                start as int, i as int));
            assert(v@.subrange(start as int, i as int + 1).last() == v@[i as int]);
        }
        if acc > (max_mag - d) / 10 {
            proof {
                let ghost pre = v@.subrange(start as int, i as int + 1);
                assert(digits_value(pre) > max_mag) by (nonlinear_arith)
                    requires
                        digits_value(pre) == digits_value(pre.drop_last()) * 10 + (pre.last() as u32
                            - '0' as u32),
                        digits_value(pre.drop_last()) == acc as int,
                        pre.last() as u32 - '0' as u32 == d as int,
                        acc > (max_mag - d) / 10,
                        0 <= d <= 9,
                        0 < max_mag,
                ;
                if forall|j: int| 0 <= j < t.len() ==> is_digit(#[trigger] t[j]) {
                    lemma_digits_value_grows(t, i as int + 1 - start);
                    assert(t.take(i as int + 1 - start) =~= pre);
                }
            }
            return None;
        }
        acc = acc * 10 + d;
        i = i + 1;
    }
    proof {
        assert(v@.subrange(start as int, to as int) =~= t);
    }
    if neg {
        Some((-(acc as i64)) as i32)
    } else {
        Some(acc as i32)
    }
}

/// A digit sequence is worth at least any of its prefixes.
proof fn lemma_digits_value_grows(t: Seq<char>, i: int)
    requires
        0 <= i <= t.len(),
        forall|j: int| 0 <= j < t.len() ==> is_digit(#[trigger] t[j]),
    ensures
        digits_value(t) >= digits_value(t.take(i)),
        digits_value(t) >= 0,
    decreases t.len(),
{
    if t.len() == 0 {
    } else if i == t.len() {
        assert(t.take(i) =~= t);
        lemma_digits_value_grows(t.drop_last(), t.len() - 1);
        assert(digits_value(t) == digits_value(t.drop_last()) * 10 + (t.last() as u32
            - '0' as u32));
        assert(digits_value(t.drop_last()) * 10 >= digits_value(t.drop_last())) by (nonlinear_arith)
            requires
                digits_value(t.drop_last()) >= 0,
        ;
    } else {
        lemma_digits_value_grows(t.drop_last(), i);
        assert(t.drop_last().take(i) =~= t.take(i));
        lemma_digits_value_grows(t.drop_last(), t.len() - 1);
        assert(digits_value(t) == digits_value(t.drop_last()) * 10 + (t.last() as u32
            - '0' as u32));
        assert(digits_value(t.drop_last()) * 10 >= digits_value(t.drop_last())) by (nonlinear_arith)
            requires
                digits_value(t.drop_last()) >= 0,
        ;
    }
}

} // verus!
