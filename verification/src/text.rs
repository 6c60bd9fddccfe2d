//! Text helpers over the character view of strings: trimming, case
//! mapping, decimal numbers and field splitting.

use vstd::prelude::*;

verus! {

/// Whether `c` has the Unicode White_Space property, the set that
/// `char::is_whitespace` and `str::trim` use.
pub open spec fn is_white_space(c: char) -> bool {
    let u = c as u32;
    (0x9 <= u <= 0xd) || u == 0x20 || u == 0x85 || u == 0xa0 || u == 0x1680 || (0x2000 <= u
        <= 0x200a) || u == 0x2028 || u == 0x2029 || u == 0x202f || u == 0x205f || u == 0x3000
}

/// `s` without its leading white space.
pub open spec fn trim_start_spec(s: Seq<char>) -> Seq<char>
    decreases s.len(),
{
    if s.len() > 0 && is_white_space(s[0]) {
        trim_start_spec(s.drop_first())
    } else {
        s
    }
}

/// `s` without its trailing white space.
pub open spec fn trim_end_spec(s: Seq<char>) -> Seq<char>
    decreases s.len(),
{
    if s.len() > 0 && is_white_space(s.last()) {
        trim_end_spec(s.drop_last())
    } else {
        s
    }
}

/// `s` without its leading and trailing white space.
pub open spec fn trim_spec(s: Seq<char>) -> Seq<char> {
    trim_end_spec(trim_start_spec(s))
}

/// What `str::to_uppercase` returns for a string: each character mapped by
/// the Unicode upper-case mapping, which may turn one character into
/// several.
pub uninterp spec fn spec_to_uppercase(s: Seq<char>) -> Seq<char>;

/// What `str::to_lowercase` returns for a string: each character mapped by
/// the Unicode lower-case mapping, with the final-sigma rule.
pub uninterp spec fn spec_to_lowercase(s: Seq<char>) -> Seq<char>;

/// Trimming text that neither starts nor ends with white space changes
/// nothing.
pub proof fn lemma_trim_unchanged(s: Seq<char>)
    requires
        s.len() > 0 ==> !is_white_space(s[0]) && !is_white_space(s.last()),
    ensures
        trim_spec(s) == s,
{
    assert(trim_start_spec(s) == s);
    assert(trim_end_spec(s) == s);
}

/// Whether every character of `s` is ASCII.
pub open spec fn is_ascii_text(s: Seq<char>) -> bool {
    forall|i: int| 0 <= i < s.len() ==> (#[trigger] s[i] as u32) < 128
}

/// `c` with an ASCII lower-case letter turned into its capital.
pub open spec fn ascii_upper_char(c: char) -> char {
    if 'a' <= c && c <= 'z' {
        ((c as u32) - 32) as char
    } else {
        c
    }
}

/// `c` with an ASCII capital turned into its lower-case letter.
pub open spec fn ascii_lower_char(c: char) -> char {
    if 'A' <= c && c <= 'Z' {
        ((c as u32) + 32) as char
    } else {
        c
    }
}

/// `s` with each ASCII lower-case letter turned into its capital.
pub open spec fn ascii_upper_text(s: Seq<char>) -> Seq<char> {
    s.map_values(|c: char| ascii_upper_char(c))
}

/// `s` with each ASCII capital turned into its lower-case letter.
pub open spec fn ascii_lower_text(s: Seq<char>) -> Seq<char> {
    s.map_values(|c: char| ascii_lower_char(c))
}

/// What `str::to_uppercase` gives for `s`: on ASCII text the ASCII
/// capitals, elsewhere the named Unicode mapping.
pub open spec fn upper_text(s: Seq<char>) -> Seq<char> {
    if is_ascii_text(s) {
        ascii_upper_text(s)
    } else {
        spec_to_uppercase(s)
    }
}

/// What `str::to_lowercase` gives for `s`: on ASCII text the ASCII
/// lower-case letters, elsewhere the named Unicode mapping.
pub open spec fn lower_text(s: Seq<char>) -> Seq<char> {
    if is_ascii_text(s) {
        ascii_lower_text(s)
    } else {
        spec_to_lowercase(s)
    }
}

/// Whether `c` has the White_Space property.
fn white_space_char(c: char) -> (r: bool)
    ensures
        r == is_white_space(c),
{
    let u = c as u32;
    (0x9 <= u && u <= 0xd) || u == 0x20 || u == 0x85 || u == 0xa0 || u == 0x1680 || (0x2000 <= u
        && u <= 0x200a) || u == 0x2028 || u == 0x2029 || u == 0x202f || u == 0x205f || u == 0x3000
}

/// `s` without its leading and trailing white space, as `str::trim`
/// returns it.
pub(crate) fn str_trim(s: &str) -> (r: &str)
    ensures
        r@ == trim_spec(s@),
{
    let n = s.unicode_len();
    let mut a: usize = 0;
    assert(s@.subrange(0, n as int) =~= s@);
    while a < n && white_space_char(s.get_char(a))
        invariant
            n == s@.len(),
            a <= n,
            trim_start_spec(s@) == trim_start_spec(s@.subrange(a as int, n as int)),
        decreases n - a,
    {
        assert(s@.subrange(a as int, n as int).drop_first() =~= s@.subrange(a + 1, n as int));
        a = a + 1;
    }
    let ghost u = s@.subrange(a as int, n as int);
    assert(trim_start_spec(s@) == u);
    let mut b: usize = n;
    while b > a && white_space_char(s.get_char(b - 1))
        invariant
            n == s@.len(),
            a <= b <= n,
            u == s@.subrange(a as int, n as int),
            trim_end_spec(u) == trim_end_spec(s@.subrange(a as int, b as int)),
        decreases b - a,
    {
        assert(s@.subrange(a as int, b as int).drop_last() =~= s@.subrange(a as int, b - 1));
        b = b - 1;
    }
    assert(trim_end_spec(s@.subrange(a as int, b as int)) == s@.subrange(a as int, b as int));
    s.substring_char(a, b)
}

/// Calls `str::to_uppercase`; its result is named, as the Unicode case
/// tables it follows take pages to state. Of ASCII text it is stated: the
/// Unicode mapping takes `a` to `z` to their capitals and leaves every
/// other ASCII character as it is, as `str::to_ascii_uppercase` does.
#[verifier::external_body]
pub(crate) fn str_to_uppercase(s: &str) -> (r: String)
    ensures
        r@ == spec_to_uppercase(s@),
        is_ascii_text(s@) ==> r@ == ascii_upper_text(s@),
{
    s.to_uppercase()
}

/// Calls `str::to_lowercase`; its result is named, as the Unicode case
/// tables it follows take pages to state. Of ASCII text it is stated: the
/// Unicode mapping takes `A` to `Z` to their lower-case letters and leaves
/// every other ASCII character as it is, as `str::to_ascii_lowercase` does.
#[verifier::external_body]
pub(crate) fn str_to_lowercase(s: &str) -> (r: String)
    ensures
        r@ == spec_to_lowercase(s@),
        is_ascii_text(s@) ==> r@ == ascii_lower_text(s@),
{
    s.to_lowercase()
}

/// Calls `String::push`, which appends one character.
#[verifier::external_body]
pub(crate) fn push_char(s: &mut String, c: char)
    ensures
        final(s)@ == old(s)@.push(c),
{
    s.push(c)
}

/// The characters of `s`, in order.
pub fn str_chars(s: &str) -> (r: Vec<char>)
    ensures
        r@ == s@,
{
    let n = s.unicode_len();
    let mut v: Vec<char> = Vec::new();
    let mut i: usize = 0;
    while i < n
        invariant
            n == s@.len(),
            i <= n,
            v@ =~= s@.take(i as int),
        decreases n - i,
    {
        v.push(s.get_char(i));
        i = i + 1;
    }
    assert(s@.take(n as int) =~= s@);
    v
}

/// A string holding the characters of `cs`.
pub fn string_from_chars(cs: &[char]) -> (r: String)
    ensures
        r@ == cs@,
{
    let mut r = String::new();
    let mut i: usize = 0;
    while i < cs.len()
        invariant
            i <= cs@.len(),
            r@ =~= cs@.take(i as int),
        decreases cs@.len() - i,
    {
        push_char(&mut r, cs[i]);
        i = i + 1;
    }
    assert(cs@.take(cs@.len() as int) =~= cs@);
    r
}

/// Whether `c` is an ASCII decimal digit.
pub open spec fn is_digit(c: char) -> bool {
    '0' <= c <= '9'
}

/// The value of an ASCII decimal digit.
pub open spec fn digit_value(c: char) -> nat {
    (c as u32 - '0' as u32) as nat
}

/// The value of a string of decimal digits, most significant first.
pub open spec fn digits_value(s: Seq<char>) -> nat
    decreases s.len(),
{
    if s.len() == 0 {
        0
    } else {
        digits_value(s.drop_last()) * 10 + digit_value(s.last())
    }
}

/// The digits of an unsigned number in text, after an optional `+`.
pub open spec fn unsigned_digits(s: Seq<char>) -> Seq<char> {
    if s.len() > 0 && s[0] == '+' {
        s.drop_first()
    } else {
        s
    }
}

/// What `str::parse` gives for an unsigned integer type whose largest
/// value is `max`: an optional `+`, then at least one ASCII digit and
/// nothing else, of value at most `max`.
pub open spec fn parse_unsigned_spec(s: Seq<char>, max: nat) -> Option<nat> {
    let d = unsigned_digits(s);
    if d.len() > 0 && (forall|i: int| 0 <= i < d.len() ==> is_digit(#[trigger] d[i]))
        && digits_value(d) <= max {
        Some(digits_value(d))
    } else {
        None
    }
}

/// A longer string of digits is worth at least as much as its prefix.
proof fn lemma_digits_value_prefix(s: Seq<char>, k: int)
    requires
        0 <= k <= s.len(),
        forall|i: int| 0 <= i < s.len() ==> is_digit(#[trigger] s[i]),
    ensures
        digits_value(s.take(k)) <= digits_value(s),
    decreases s.len(),
{
    if k < s.len() {
        let t = s.drop_last();
        assert forall|i: int| 0 <= i < t.len() implies is_digit(#[trigger] t[i]) by {
            assert(t[i] == s[i]);
        }
        lemma_digits_value_prefix(t, k);
        assert(t.take(k) =~= s.take(k));
    } else {
        assert(s.take(k) =~= s);
    }
}

/// Parses an unsigned decimal number of value at most `max`.
fn parse_unsigned(s: &[char], max: u32) -> (r: Option<u32>)
    ensures
        match r {
            Some(v) => parse_unsigned_spec(s@, max as nat) == Some(v as nat),
            None => parse_unsigned_spec(s@, max as nat) is None,
        },
{
    let n = s.len();
    let start: usize = if n > 0 && s[0] == '+' {
        1
    } else {
        0
    };
    let ghost d = unsigned_digits(s@);
    assert(d =~= s@.skip(start as int));
    if start >= n {
        return None;
    }
    let mut acc: u64 = 0;
    let mut i: usize = start;
    while i < n
        invariant
            start <= i <= n,
            n == s@.len(),
            d == s@.skip(start as int),
            d == unsigned_digits(s@),
            forall|j: int| 0 <= j < i - start ==> is_digit(#[trigger] d[j]),
            acc == digits_value(d.take(i - start)),
            acc <= max,
        decreases n - i,
    {
        let c = s[i];
        if !('0' <= c && c <= '9') {
            assert(d[i - start] == c);
            assert(!is_digit(d[i - start]));
            return None;
        }
        let dv = (c as u32 - '0' as u32) as u64;
        assert(d.take(i - start + 1).drop_last() =~= d.take(i - start));
        assert(d.take(i - start + 1).last() == c);
        let next = acc * 10 + dv;
        assert(next == digits_value(d.take(i - start + 1)));
        if next > max as u64 {
            proof {
                let k = i - start + 1;
                let dk = d.take(k);
                assert(digits_value(dk) == digits_value(dk.drop_last()) * 10 + digit_value(
                    dk.last(),
                ));
                assert(digits_value(dk) > max);
                if forall|j: int| 0 <= j < d.len() ==> is_digit(#[trigger] d[j]) {
                    lemma_digits_value_prefix(d, k);
                }
            }
            return None;
        }
        acc = next;
        i = i + 1;
    }
    assert(d.take(n - start) =~= d);
    Some(acc as u32)
}

/// What `str::parse::<u16>` gives for `s`.
pub fn parse_u16(s: &str) -> (r: Option<u16>)
    ensures
        match r {
            Some(v) => parse_unsigned_spec(s@, 0xffff) == Some(v as nat),
            None => parse_unsigned_spec(s@, 0xffff) is None,
        },
{
    let cs = str_chars(s);
    match parse_unsigned(cs.as_slice(), 0xffff) {
        Some(v) => Some(v as u16),
        None => None,
    }
}

/// What `str::parse::<u32>` gives for `s`.
pub fn parse_u32(s: &str) -> (r: Option<u32>)
    ensures
        match r {
            Some(v) => parse_unsigned_spec(s@, 0xffff_ffff) == Some(v as nat),
            None => parse_unsigned_spec(s@, 0xffff_ffff) is None,
        },
{
    let cs = str_chars(s);
    parse_unsigned(cs.as_slice(), 0xffff_ffff)
}

/// The ASCII digit of a value below ten.
pub open spec fn digit_char(d: nat) -> char
    recommends
        d < 10,
{
    (('0' as u32) + d) as char
}

/// The decimal text of `n`, with no leading zeros.
pub open spec fn decimal_text(n: nat) -> Seq<char>
    decreases n,
{
    if n < 10 {
        seq![digit_char(n)]
    } else {
        decimal_text(n / 10).push(digit_char(n % 10))
    }
}

/// The decimal text of `n`, as `format!("{}", n)` writes it.
pub fn decimal_string(n: usize) -> (r: String)
    ensures
        r@ == decimal_text(n as nat),
{
    let mut rev: Vec<char> = Vec::new();
    let mut m: usize = n;
    let ghost mut acc: Seq<char> = Seq::empty();
    while m >= 10
        invariant
            m <= n,
            decimal_text(n as nat) == decimal_text(m as nat) + acc,
            rev@.len() == acc.len(),
            forall|j: int| 0 <= j < acc.len() ==> rev@[j] == acc[acc.len() - 1 - j],
        decreases m,
    {
        let d = m % 10;
        let c = ((d as u32) + ('0' as u32)) as u8 as char;
        assert(c == digit_char(d as nat));
        rev.push(c);
        proof {
            assert(decimal_text(m as nat) == decimal_text((m / 10) as nat).push(c));
            assert(decimal_text(n as nat) =~= decimal_text((m / 10) as nat) + (seq![c] + acc));
            acc = seq![c] + acc;
        }
        m = m / 10;
    }
    let c = ((m as u32) + ('0' as u32)) as u8 as char;
    assert(c == digit_char(m as nat));
    rev.push(c);
    proof {
        assert(decimal_text(m as nat) == seq![c]);
        acc = seq![c] + acc;
    }
    let mut r = String::new();
    let mut k: usize = rev.len();
    while k > 0
        invariant
            k <= rev@.len(),
            rev@.len() == acc.len(),
            forall|j: int| 0 <= j < acc.len() ==> rev@[j] == acc[acc.len() - 1 - j],
            r@ =~= acc.take(acc.len() - k),
        decreases k,
    {
        k = k - 1;
        push_char(&mut r, rev[k]);
        assert(acc.take(acc.len() - k) =~= acc.take(acc.len() - k - 1).push(rev@[k as int]));
    }
    assert(acc.take(acc.len() as int) =~= acc);
    assert(decimal_text(n as nat) =~= acc);
    r
}

/// The index of the first `sep` in `s`, or the length of `s` when there is
/// none.
pub open spec fn first_index_of(s: Seq<char>, sep: char) -> nat
    decreases s.len(),
{
    if s.len() == 0 {
        0
    } else if s[0] == sep {
        0
    } else {
        1 + first_index_of(s.drop_first(), sep)
    }
}

/// `first_index_of` is the position before which no `sep` occurs and at
/// which one does, or the end.
pub proof fn lemma_first_index_of(s: Seq<char>, sep: char, i: int)
    requires
        0 <= i <= s.len(),
        forall|j: int| 0 <= j < i ==> s[j] != sep,
        i == s.len() || s[i] == sep,
    ensures
        first_index_of(s, sep) == i,
    decreases s.len(),
{
    if s.len() > 0 && s[0] != sep {
        let t = s.drop_first();
        assert forall|j: int| 0 <= j < i - 1 implies t[j] != sep by {
            assert(t[j] == s[j + 1]);
        }
        lemma_first_index_of(t, sep, i - 1);
    }
}

/// The first field of `s` when split at `sep`, as
/// `s.split(sep).next()` gives it.
pub open spec fn first_field(s: Seq<char>, sep: char) -> Seq<char> {
    s.take(first_index_of(s, sep) as int)
}

/// The second field of `s` when split at `sep`, as
/// `s.split(sep).nth(1)` gives it: `None` when `sep` does not occur.
pub open spec fn second_field(s: Seq<char>, sep: char) -> Option<Seq<char>> {
    let i = first_index_of(s, sep);
    if i < s.len() {
        let rest = s.skip(i as int + 1);
        Some(rest.take(first_index_of(rest, sep) as int))
    } else {
        None
    }
}

/// The position of the first `sep` in `s` at or after `from`, or the
/// length of `s`.
fn find_char(s: &[char], sep: char, from: usize) -> (r: usize)
    requires
        from <= s@.len(),
    ensures
        r == from + first_index_of(s@.skip(from as int), sep),
        r <= s@.len(),
{
    let mut i = from;
    while i < s.len() && s[i] != sep
        invariant
            from <= i <= s@.len(),
            forall|j: int| from <= j < i ==> s@[j] != sep,
        decreases s@.len() - i,
    {
        i = i + 1;
    }
    proof {
        let t = s@.skip(from as int);
        assert forall|j: int| 0 <= j < i - from implies t[j] != sep by {
            assert(t[j] == s@[from + j]);
        }
        if i < s@.len() {
            assert(t[i - from] == s@[i as int]);
        }
        lemma_first_index_of(t, sep, i - from);
    }
    i
}

/// The first field of `s` split at `sep`.
pub fn split_first(s: &[char], sep: char) -> (r: Vec<char>)
    ensures
        r@ == first_field(s@, sep),
{
    let e = find_char(s, sep, 0);
    assert(s@.skip(0) =~= s@);
    let v = vstd::slice::slice_to_vec(vstd::slice::slice_subrange(s, 0, e));
    assert(v@ =~= first_field(s@, sep));
    v
}

/// The second field of `s` split at `sep`, if `sep` occurs in `s`.
pub fn split_second(s: &[char], sep: char) -> (r: Option<Vec<char>>)
    ensures
        match r {
            Some(v) => second_field(s@, sep) == Some(v@),
            None => second_field(s@, sep) is None,
        },
{
    let e = find_char(s, sep, 0);
    assert(s@.skip(0) =~= s@);
    if e >= s.len() {
        return None;
    }
    let e2 = find_char(s, sep, e + 1);
    let v = vstd::slice::slice_to_vec(vstd::slice::slice_subrange(s, e + 1, e2));
    assert(v@ =~= s@.skip(e + 1).take(first_index_of(s@.skip(e + 1), sep) as int));
    Some(v)
}

/// Whether `t` occurs in `s` as a contiguous run.
pub open spec fn contains_spec(s: Seq<char>, t: Seq<char>) -> bool {
    exists|i: int| 0 <= i && i + t.len() <= s.len() && #[trigger] s.subrange(i, i + t.len()) == t
}

/// Whether `s` begins with `t`.
pub open spec fn starts_with_spec(s: Seq<char>, t: Seq<char>) -> bool {
    t.len() <= s.len() && s.take(t.len() as int) == t
}

/// Whether `t` occurs in `s` at position `i`.
fn matches_at(s: &[char], t: &[char], i: usize) -> (r: bool)
    requires
        i + t@.len() <= s@.len(),
    ensures
        r == (s@.subrange(i as int, i + t@.len()) == t@),
{
    let mut k: usize = 0;
    while k < t.len()
        invariant
            k <= t@.len(),
            i + t@.len() <= s@.len(),
            forall|j: int| 0 <= j < k ==> s@[i + j] == t@[j],
        decreases t@.len() - k,
    {
        assert(i + k < s.len());
        if s[i + k] != t[k] {
            assert(s@.subrange(i as int, i + t@.len())[k as int] != t@[k as int]);
            return false;
        }
        k = k + 1;
    }
    assert(s@.subrange(i as int, i + t@.len()) =~= t@);
    true
}

/// Whether `t` occurs in `s`, as `str::contains` answers.
pub fn contains_chars(s: &[char], t: &[char]) -> (r: bool)
    ensures
        r == contains_spec(s@, t@),
{
    if t.len() > s.len() {
        return false;
    }
    let last = s.len() - t.len();
    let mut i: usize = 0;
    loop
        invariant
            last == s@.len() - t@.len(),
            t@.len() <= s@.len(),
            i <= last,
            forall|j: int| 0 <= j < i ==> #[trigger] s@.subrange(j, j + t@.len()) != t@,
        decreases last - i,
    {
        if matches_at(s, t, i) {
            return true;
        }
        if i == last {
            return false;
        }
        i = i + 1;
    }
}

/// Whether `s` begins with `t`, as `str::starts_with` answers.
pub fn starts_with_text(s: &str, t: &str) -> (r: bool)
    ensures
        r == starts_with_spec(s@, t@),
{
    let sc = str_chars(s);
    let tc = str_chars(t);
    if tc.len() > sc.len() {
        return false;
    }
    let r = matches_at(sc.as_slice(), tc.as_slice(), 0);
    assert(sc@.subrange(0, tc@.len() as int) =~= sc@.take(tc@.len() as int));
    r
}

/// Whether two character sequences are equal.
pub fn chars_eq(a: &[char], b: &[char]) -> (r: bool)
    ensures
        r == (a@ == b@),
{
    if a.len() != b.len() {
        return false;
    }
    let mut i: usize = 0;
    while i < a.len()
        invariant
            a@.len() == b@.len(),
            i <= a@.len(),
            forall|j: int| 0 <= j < i ==> a@[j] == b@[j],
        decreases a@.len() - i,
    {
        if a[i] != b[i] {
            return false;
        }
        i = i + 1;
    }
    assert(a@ =~= b@);
    true
}

/// Whether two strings hold the same characters.
pub fn text_eq(a: &str, b: &str) -> (r: bool)
    ensures
        r == (a@ == b@),
{
    let x = str_chars(a);
    let y = str_chars(b);
    chars_eq(x.as_slice(), y.as_slice())
}

/// Whether every character of `s` is white space.
pub open spec fn all_white_space(s: Seq<char>) -> bool {
    forall|i: int| 0 <= i < s.len() ==> is_white_space(#[trigger] s[i])
}

/// Leading white space before `x` is trimmed away.
proof fn lemma_trim_start_prefix(pre: Seq<char>, x: Seq<char>)
    requires
        all_white_space(pre),
    ensures
        trim_start_spec(pre + x) == trim_start_spec(x),
    decreases pre.len(),
{
    if pre.len() > 0 {
        assert(is_white_space(pre[0]));
        assert((pre + x)[0] == pre[0]);
        assert((pre + x).drop_first() =~= pre.drop_first() + x);
        assert forall|i: int| 0 <= i < pre.drop_first().len() implies is_white_space(
            #[trigger] pre.drop_first()[i],
        ) by {
            assert(pre.drop_first()[i] == pre[i + 1]);
        }
        lemma_trim_start_prefix(pre.drop_first(), x);
    } else {
        assert(pre + x =~= x);
    }
}

/// Trailing white space after `x` is trimmed away.
proof fn lemma_trim_end_suffix(x: Seq<char>, post: Seq<char>)
    requires
        all_white_space(post),
    ensures
        trim_end_spec(x + post) == trim_end_spec(x),
    decreases post.len(),
{
    if post.len() > 0 {
        assert(is_white_space(post[post.len() - 1]));
        assert((x + post).last() == post.last());
        assert((x + post).drop_last() =~= x + post.drop_last());
        assert forall|i: int| 0 <= i < post.drop_last().len() implies is_white_space(
            #[trigger] post.drop_last()[i],
        ) by {
            assert(post.drop_last()[i] == post[i]);
        }
        lemma_trim_end_suffix(x, post.drop_last());
    } else {
        assert(x + post =~= x);
    }
}

/// Trimming the start of `s` followed by white space: the trimmed start of
/// `s` followed by it, unless `s` is all white space, when nothing is left
/// of `s`.
proof fn lemma_trim_start_suffix(s: Seq<char>, post: Seq<char>)
    requires
        all_white_space(post),
    ensures
        trim_start_spec(s).len() > 0 ==> trim_start_spec(s + post) == trim_start_spec(s) + post,
        trim_start_spec(s).len() == 0 ==> trim_start_spec(s + post).len() == 0,
    decreases s.len(),
{
    if s.len() == 0 {
        assert(s + post =~= post);
        lemma_trim_start_prefix(post, Seq::<char>::empty());
        assert(post + Seq::<char>::empty() =~= post);
    } else {
        assert((s + post)[0] == s[0]);
        if is_white_space(s[0]) {
            assert((s + post).drop_first() =~= s.drop_first() + post);
            lemma_trim_start_suffix(s.drop_first(), post);
        }
    }
}

/// White space around `s` does not change what trimming gives.
pub proof fn lemma_trim_padded(pre: Seq<char>, s: Seq<char>, post: Seq<char>)
    requires
        all_white_space(pre),
        all_white_space(post),
    ensures
        trim_spec(pre + s + post) == trim_spec(s),
{
    assert(pre + s + post =~= pre + (s + post));
    lemma_trim_start_prefix(pre, s + post);
    lemma_trim_start_suffix(s, post);
    if trim_start_spec(s).len() > 0 {
        lemma_trim_end_suffix(trim_start_spec(s), post);
    } else {
        assert(trim_start_spec(s + post) =~= trim_start_spec(s));
    }
}

/// Lower-casing ASCII letters commutes with trimming, and trimming keeps
/// ASCII text ASCII.
pub proof fn lemma_trim_ascii_lower(s: Seq<char>)
    requires
        is_ascii_text(s),
    ensures
        trim_spec(ascii_lower_text(s)) == ascii_lower_text(trim_spec(s)),
        is_ascii_text(trim_spec(s)),
{
    lemma_trim_start_lower(s);
    lemma_trim_end_lower(trim_start_spec(s));
}

proof fn lemma_trim_start_lower(s: Seq<char>)
    requires
        is_ascii_text(s),
    ensures
        trim_start_spec(ascii_lower_text(s)) == ascii_lower_text(trim_start_spec(s)),
        is_ascii_text(trim_start_spec(s)),
    decreases s.len(),
{
    let l = ascii_lower_text(s);
    if s.len() > 0 {
        assert(l[0] == ascii_lower_char(s[0]));
        assert((s[0] as u32) < 128);
        assert(is_white_space(l[0]) == is_white_space(s[0]));
        let d = s.drop_first();
        assert forall|i: int| 0 <= i < d.len() implies (#[trigger] d[i] as u32) < 128 by {
            assert(d[i] == s[i + 1]);
        }
        assert(l.drop_first() =~= ascii_lower_text(d));
        if is_white_space(s[0]) {
            lemma_trim_start_lower(d);
        }
    }
}

proof fn lemma_trim_end_lower(s: Seq<char>)
    requires
        is_ascii_text(s),
    ensures
        trim_end_spec(ascii_lower_text(s)) == ascii_lower_text(trim_end_spec(s)),
        is_ascii_text(trim_end_spec(s)),
    decreases s.len(),
{
    let l = ascii_lower_text(s);
    if s.len() > 0 {
        let k = s.len() - 1;
        assert(l.last() == ascii_lower_char(s[k]));
        assert((s[k] as u32) < 128);
        assert(is_white_space(l.last()) == is_white_space(s.last()));
        let d = s.drop_last();
        assert forall|i: int| 0 <= i < d.len() implies (#[trigger] d[i] as u32) < 128 by {
            assert(d[i] == s[i]);
        }
        assert(l.drop_last() =~= ascii_lower_text(d));
        if is_white_space(s.last()) {
            lemma_trim_end_lower(d);
        }
    }
}

} // verus!
