//! Text primitives shared by the parsers: trimming, equality, splitting and
//! number formatting over the characters of a string.

use vstd::prelude::*;

verus! {

// ── What the standard library decides about characters ───────────────────────

/// Whether `c` is an ASCII character.
pub open spec fn ascii(c: char) -> bool {
    (c as u32) < 128
}

/// Whether `c` is an ASCII letter or digit.
pub open spec fn ascii_alnum(c: char) -> bool {
    'a' <= c <= 'z' || 'A' <= c <= 'Z' || '0' <= c <= '9'
}

/// Whether `c` is alphabetic or numeric by Unicode's tables.
pub uninterp spec fn unicode_alnum(c: char) -> bool;

/// The Unicode lowercase form of `s`.
pub uninterp spec fn unicode_lowercase(s: Seq<char>) -> Seq<char>;

/// Whether `c` is a letter or a digit.
pub open spec fn is_alnum(c: char) -> bool {
    if ascii(c) {
        ascii_alnum(c)
    } else {
        unicode_alnum(c)
    }
}

/// `s` in small letters.
pub open spec fn lowercase(s: Seq<char>) -> Seq<char> {
    if forall|i: int| 0 <= i < s.len() ==> ascii(#[trigger] s[i]) {
        Seq::new(s.len(), |i: int| ascii_lower(s[i]))
    } else {
        unicode_lowercase(s)
    }
}

/// Whether `c` carries Unicode's `White_Space` property.
pub open spec fn is_space(c: char) -> bool {
    let n = c as u32;
    ||| 0x9 <= n <= 0xd
    ||| n == 0x20
    ||| n == 0x85
    ||| n == 0xa0
    ||| n == 0x1680
    ||| 0x2000 <= n <= 0x200a
    ||| n == 0x2028
    ||| n == 0x2029
    ||| n == 0x202f
    ||| n == 0x205f
    ||| n == 0x3000
}

/// [`char::is_whitespace`] says whether the character has the `White_Space` property of
/// the Unicode character database, whose members [`is_space`] lists.
pub assume_specification[ char::is_whitespace ](c: char) -> (b: bool)
    ensures
        b == is_space(c),
;

/// [`char::is_alphanumeric`]: a fixed property of the character, here called
/// [`unicode_alnum`]; among the ASCII characters the letters and digits have it.
pub assume_specification[ char::is_alphanumeric ](c: char) -> (b: bool)
    ensures
        b == (if ascii(c) {
            ascii_alnum(c)
        } else {
            unicode_alnum(c)
        }),
;

/// [`str::to_lowercase`]: a function of the characters alone, here called
/// [`unicode_lowercase`]; of a text in ASCII it makes each capital letter small and leaves
/// the other characters as they are.
pub assume_specification[ str::to_lowercase ](s: &str) -> (r: String)
    ensures
        r@ == (if forall|i: int| 0 <= i < s@.len() ==> ascii(#[trigger] s@[i]) {
            Seq::new(s@.len(), |i: int| ascii_lower(s@[i]))
        } else {
            unicode_lowercase(s@)
        }),
;

/// [`String::push`] appends one character at the end.
pub assume_specification[ String::push ](s: &mut String, c: char)
    ensures
        final(s)@ == old(s)@.push(c),
;

/// `s` between quotation marks, with what Rust's `Debug` escapes escaped.
pub uninterp spec fn debug_quoted(s: Seq<char>) -> Seq<char>;

/// `Debug` formatting of a string (`{:?}`): a function of its characters, here called
/// [`debug_quoted`].
#[verifier::external_body]
pub(crate) fn quoted(s: &str) -> (r: String)
    ensures
        r@ == debug_quoted(s@),
{
    format!("{s:?}")
}

// ── Views of optional text ───────────────────────────────────────────────────

/// The characters of an optional string.
pub open spec fn text_opt(s: Option<String>) -> Option<Seq<char>> {
    match s {
        Some(t) => Some(t@),
        None => None,
    }
}

/// The characters of an optional string slice.
pub open spec fn str_opt(s: Option<&str>) -> Option<Seq<char>> {
    match s {
        Some(t) => Some(t@),
        None => None,
    }
}

/// The characters of each string of a list, in order.
pub open spec fn texts(v: Seq<String>) -> Seq<Seq<char>> {
    Seq::new(v.len(), |i: int| v[i]@)
}

// ── Whole strings ────────────────────────────────────────────────────────────

/// Whether two strings hold the same characters.
pub fn same_text(a: &str, b: &str) -> (r: bool)
    ensures
        r == (a@ == b@),
{
    a.to_owned() == b.to_owned()
}

/// Whether two optional strings are both absent, or hold the same characters.
pub fn same_text_opt(a: Option<&str>, b: Option<&str>) -> (r: bool)
    ensures
        r == (str_opt(a) == str_opt(b)),
{
    match (a, b) {
        (None, None) => true,
        (Some(x), Some(y)) => same_text(x, y),
        _ => false,
    }
}

/// A borrowed look at an optional string.
pub fn as_text(s: &Option<String>) -> (r: Option<&str>)
    ensures
        str_opt(r) == text_opt(*s),
{
    match s {
        Some(t) => Some(t.as_str()),
        None => None,
    }
}

/// A copy of an optional string.
pub fn copy_opt(s: &Option<String>) -> (r: Option<String>)
    ensures
        text_opt(r) == text_opt(*s),
{
    match s {
        Some(t) => Some(t.as_str().to_owned()),
        None => None,
    }
}

/// Whether `v` holds a string with the characters of `s`.
pub fn contains_text(v: &Vec<String>, s: &str) -> (r: bool)
    ensures
        r == texts(v@).contains(s@),
{
    let mut i: usize = 0;
    while i < v.len()
        invariant
            i <= v.len(),
            forall|j: int| 0 <= j < i ==> v@[j]@ != s@,
        decreases v.len() - i,
    {
        if same_text(v[i].as_str(), s) {
            assert(texts(v@)[i as int] == s@);
            return true;
        }
        i += 1;
    }
    assert forall|j: int| 0 <= j < texts(v@).len() implies texts(v@)[j] != s@ by {}
    false
}

/// The characters of a string, as a vector.
pub fn chars_of(s: &str) -> (r: Vec<char>)
    ensures
        r@ == s@,
{
    let mut out: Vec<char> = Vec::new();
    for c in it: s.chars()
        invariant
            it.seq() == s@,
            out@ == s@.take(it.index()),
    {
        out.push(c);
        assert(out@ =~= s@.take(it.index() + 1));
    }
    assert(s@.take(s@.len() as int) =~= s@);
    out
}

/// The string holding the characters `v[from..to]`.
pub fn text_of(v: &Vec<char>, from: usize, to: usize) -> (r: String)
    requires
        from <= to <= v.len(),
    ensures
        r@ == v@.subrange(from as int, to as int),
{
    let mut out = String::new();
    let mut i: usize = from;
    while i < to
        invariant
            from <= i <= to <= v.len(),
            out@ == v@.subrange(from as int, i as int),
        decreases to - i,
    {
        out.push(v[i]);
        i += 1;
        assert(out@ =~= v@.subrange(from as int, i as int));
    }
    out
}

/// `a` followed by `b`.
pub fn join(a: &str, b: &str) -> (r: String)
    ensures
        r@ == a@ + b@,
{
    let mut out = a.to_owned();
    out.append(b);
    out
}

/// `a`, `b` and `c`, one after the other.
pub fn join3(a: &str, b: &str, c: &str) -> (r: String)
    ensures
        r@ == a@ + b@ + c@,
{
    let mut out = a.to_owned();
    out.append(b);
    out.append(c);
    out
}

// ── Trimming ─────────────────────────────────────────────────────────────────

/// `s` without its leading white space.
pub open spec fn trim_start(s: Seq<char>) -> Seq<char>
    decreases s.len(),
{
    if s.len() > 0 && is_space(s[0]) {
        trim_start(s.drop_first())
    } else {
        s
    }
}

/// `s` without its trailing white space.
pub open spec fn trim_end(s: Seq<char>) -> Seq<char>
    decreases s.len(),
{
    if s.len() > 0 && is_space(s.last()) {
        trim_end(s.drop_last())
    } else {
        s
    }
}

/// `s` without white space at either end.
pub open spec fn trim(s: Seq<char>) -> Seq<char> {
    trim_end(trim_start(s))
}

/// Text that is trimmed at its beginning is empty, or begins with no white space.
pub proof fn lemma_trim_start(s: Seq<char>)
    ensures
        trim_start(s).len() == 0 || !is_space(trim_start(s)[0]),
        trim_start(s).len() <= s.len(),
        trim_start(s) == s.skip(s.len() - trim_start(s).len()),
    decreases s.len(),
{
    if s.len() > 0 && is_space(s[0]) {
        lemma_trim_start(s.drop_first());
    }
    assert(trim_start(s) =~= s.skip(s.len() - trim_start(s).len()));
}

/// Text that is trimmed at its end is empty, or ends with no white space.
pub proof fn lemma_trim_end(s: Seq<char>)
    ensures
        trim_end(s).len() == 0 || !is_space(trim_end(s).last()),
        trim_end(s).len() <= s.len(),
        trim_end(s) == s.take(trim_end(s).len() as int),
    decreases s.len(),
{
    if s.len() > 0 && is_space(s.last()) {
        lemma_trim_end(s.drop_last());
    }
    assert(trim_end(s) =~= s.take(trim_end(s).len() as int));
}

/// Trimmed text neither begins nor ends with white space, and is not trimmed further.
pub proof fn lemma_trim(s: Seq<char>)
    ensures
        trim(s).len() == 0 || (!is_space(trim(s)[0]) && !is_space(trim(s).last())),
        trim(trim(s)) == trim(s),
{
    lemma_trim_start(s);
    lemma_trim_end(trim_start(s));
}

/// Text that does not begin with white space ends the white space in front of it.
pub proof fn lemma_trim_start_before(x: Seq<char>, t: Seq<char>)
    requires
        t.len() > 0,
        !is_space(t[0]),
    ensures
        trim_start(x + t) == trim_start(x) + t,
    decreases x.len(),
{
    if x.len() > 0 {
        assert((x + t).drop_first() =~= x.drop_first() + t);
        if is_space(x[0]) {
            lemma_trim_start_before(x.drop_first(), t);
        }
    } else {
        assert(x + t =~= t);
        assert(trim_start(x) + t =~= t);
    }
}

/// White space at the end is that of the last piece, where that piece holds anything else.
pub proof fn lemma_trim_end_after(x: Seq<char>, t: Seq<char>)
    ensures
        trim_end(x + t) == (if trim_end(t).len() > 0 {
            x + trim_end(t)
        } else {
            trim_end(x)
        }),
    decreases t.len(),
{
    if t.len() > 0 {
        assert((x + t).drop_last() =~= x + t.drop_last());
        assert((x + t).last() == t.last());
        if is_space(t.last()) {
            lemma_trim_end_after(x, t.drop_last());
        }
    } else {
        assert(x + t =~= x);
    }
}

/// Where the leading white space of `v[from..]` ends.
fn skip_spaces(v: &Vec<char>) -> (i: usize)
    ensures
        i <= v.len(),
        trim_start(v@) == v@.subrange(i as int, v.len() as int),
{
    let mut i: usize = 0;
    assert(v@.subrange(0, v.len() as int) =~= v@);
    while i < v.len() && v[i].is_whitespace()
        invariant
            i <= v.len(),
            trim_start(v@) == trim_start(v@.subrange(i as int, v.len() as int)),
        decreases v.len() - i,
    {
        assert(v@.subrange(i as int, v.len() as int).drop_first() =~= v@.subrange(
            i + 1,
            v.len() as int,
        ));
        i += 1;
    }
    i
}

/// Where the trailing white space of `v[from..]` begins.
fn drop_spaces(v: &Vec<char>, from: usize) -> (j: usize)
    requires
        from <= v.len(),
    ensures
        from <= j <= v.len(),
        trim_end(v@.subrange(from as int, v.len() as int)) == v@.subrange(from as int, j as int),
{
    let mut j: usize = v.len();
    while j > from && v[j - 1].is_whitespace()
        invariant
            from <= j <= v.len(),
            trim_end(v@.subrange(from as int, v.len() as int)) == trim_end(
                v@.subrange(from as int, j as int),
            ),
        decreases j - from,
    {
        assert(v@.subrange(from as int, j as int).drop_last() =~= v@.subrange(
            from as int,
            j - 1,
        ));
        j -= 1;
    }
    j
}

/// A copy of `s` without white space at either end.
pub fn trimmed(s: &str) -> (r: String)
    ensures
        r@ == trim(s@),
{
    let v = chars_of(s);
    let i: usize = skip_spaces(&v);
    let j: usize = drop_spaces(&v, i);
    text_of(&v, i, j)
}

/// A copy of `s` without its leading white space.
pub fn trimmed_start(s: &str) -> (r: String)
    ensures
        r@ == trim_start(s@),
{
    let v = chars_of(s);
    let i: usize = skip_spaces(&v);
    text_of(&v, i, v.len())
}

/// A copy of `s` without its trailing white space.
pub fn trimmed_end(s: &str) -> (r: String)
    ensures
        r@ == trim_end(s@),
{
    let v = chars_of(s);
    let j: usize = drop_spaces(&v, 0);
    assert(v@.subrange(0, v.len() as int) =~= v@);
    text_of(&v, 0, j)
}

/// Whether nothing is left of `s` once it is trimmed.
pub fn is_blank(s: &str) -> (r: bool)
    ensures
        r == (trim(s@).len() == 0),
{
    trimmed(s).as_str().is_empty()
}

// ── Prefixes and suffixes ────────────────────────────────────────────────────

/// Whether `s` begins with `p`.
pub open spec fn starts_with(s: Seq<char>, p: Seq<char>) -> bool {
    p.len() <= s.len() && s.take(p.len() as int) == p
}

/// Whether `s` ends with `p`.
pub open spec fn ends_with(s: Seq<char>, p: Seq<char>) -> bool {
    p.len() <= s.len() && s.skip(s.len() - p.len()) == p
}

/// What follows the prefix `p` of `s`, where `s` begins with it.
pub fn after_prefix(s: &str, p: &str) -> (r: Option<String>)
    ensures
        r is Some <==> starts_with(s@, p@),
        r is Some ==> r->0@ == s@.skip(p@.len() as int),
{
    let v = chars_of(s);
    let q = chars_of(p);
    if q.len() > v.len() {
        return None;
    }
    let mut i: usize = 0;
    while i < q.len()
        invariant
            i <= q.len() <= v.len(),
            v@ == s@,
            q@ == p@,
            forall|k: int| 0 <= k < i ==> v@[k] == q@[k],
        decreases q.len() - i,
    {
        if v[i] != q[i] {
            assert(s@.take(p@.len() as int)[i as int] != p@[i as int]);
            return None;
        }
        i += 1;
    }
    assert(s@.take(p@.len() as int) =~= p@);
    let rest = text_of(&v, q.len(), v.len());
    assert(v@.subrange(q.len() as int, v.len() as int) =~= s@.skip(p@.len() as int));
    Some(rest)
}

/// Whether `s` begins with `p`.
pub fn has_prefix(s: &str, p: &str) -> (r: bool)
    ensures
        r == starts_with(s@, p@),
{
    after_prefix(s, p).is_some()
}

/// Whether `s` ends with `p`.
pub fn has_suffix(s: &str, p: &str) -> (r: bool)
    ensures
        r == ends_with(s@, p@),
{
    let v = chars_of(s);
    let q = chars_of(p);
    if q.len() > v.len() {
        return false;
    }
    let base: usize = v.len() - q.len();
    let mut i: usize = 0;
    while i < q.len()
        invariant
            i <= q.len() <= v.len(),
            base == v.len() - q.len(),
            v@ == s@,
            q@ == p@,
            forall|k: int| 0 <= k < i ==> v@[base + k] == q@[k],
        decreases q.len() - i,
    {
        if v[base + i] != q[i] {
            assert(s@.skip(s@.len() - p@.len())[i as int] != p@[i as int]);
            return false;
        }
        i += 1;
    }
    assert(s@.skip(s@.len() - p@.len()) =~= p@);
    true
}

/// Whether `s` holds the character `c`.
pub fn has_char(s: &str, c: char) -> (r: bool)
    ensures
        r == s@.contains(c),
{
    let v = chars_of(s);
    let mut i: usize = 0;
    while i < v.len()
        invariant
            i <= v.len(),
            v@ == s@,
            forall|k: int| 0 <= k < i ==> v@[k] != c,
        decreases v.len() - i,
    {
        if v[i] == c {
            assert(s@[i as int] == c);
            return true;
        }
        i += 1;
    }
    false
}

/// The position of the first `c` in `s`, or its length.
pub open spec fn first_of(s: Seq<char>, c: char) -> int
    decreases s.len(),
{
    if s.len() == 0 || s[0] == c {
        0
    } else {
        1 + first_of(s.drop_first(), c)
    }
}

/// [`first_of`] is the least position that holds `c`.
pub proof fn lemma_first_of(s: Seq<char>, c: char)
    ensures
        0 <= first_of(s, c) <= s.len(),
        forall|k: int| 0 <= k < first_of(s, c) ==> s[k] != c,
        first_of(s, c) < s.len() ==> s[first_of(s, c)] == c,
        s.contains(c) <==> first_of(s, c) < s.len(),
    decreases s.len(),
{
    if s.len() == 0 || s[0] == c {
        if s.len() > 0 {
            assert(s.contains(c));
        }
    } else {
        lemma_first_of(s.drop_first(), c);
        let n = first_of(s.drop_first(), c);
        assert forall|k: int| 0 <= k < n + 1 implies s[k] != c by {
            if k > 0 {
                assert(s.drop_first()[k - 1] == s[k]);
            }
        }
        if n < s.len() - 1 {
            assert(s.drop_first()[n] == s[n + 1]);
        }
    }
}

/// The position of the first `c` among the characters `v`, or their number.
pub fn position_of(v: &Vec<char>, c: char) -> (r: usize)
    ensures
        r == first_of(v@, c),
        r <= v.len(),
{
    let mut i: usize = 0;
    assert(v@.skip(0) =~= v@);
    while i < v.len() && v[i] != c
        invariant
            i <= v.len(),
            first_of(v@, c) == i + first_of(v@.skip(i as int), c),
        decreases v.len() - i,
    {
        assert(v@.skip(i as int).drop_first() =~= v@.skip(i + 1));
        i += 1;
    }
    if i < v.len() {
        assert(v@.skip(i as int)[0] == c);
    }
    i
}

/// The position of the last `c` in `s`, or -1.
pub open spec fn last_of(s: Seq<char>, c: char) -> int
    decreases s.len(),
{
    if s.len() == 0 {
        -1
    } else if s.last() == c {
        s.len() - 1
    } else {
        last_of(s.drop_last(), c)
    }
}

/// The position of the last `c` among the characters `v`.
pub fn last_position_of(v: &Vec<char>, c: char) -> (r: Option<usize>)
    ensures
        r is None <==> last_of(v@, c) == -1,
        r is Some ==> r->0 == last_of(v@, c) && r->0 < v.len(),
{
    let mut n: usize = v.len();
    assert(v@.take(n as int) =~= v@);
    while n > 0 && v[n - 1] != c
        invariant
            n <= v.len(),
            last_of(v@, c) == last_of(v@.take(n as int), c),
        decreases n,
    {
        assert(v@.take(n as int).drop_last() =~= v@.take(n - 1));
        n -= 1;
    }
    if n == 0 {
        None
    } else {
        assert(v@.take(n as int).last() == c);
        Some(n - 1)
    }
}

// ── Numbers ──────────────────────────────────────────────────────────────────

/// The value of a hexadecimal digit, upper or lower case.
pub open spec fn hex_value(c: char) -> Option<int> {
    if '0' <= c <= '9' {
        Some(c as int - '0' as int)
    } else if 'a' <= c <= 'f' {
        Some(c as int - 'a' as int + 10)
    } else if 'A' <= c <= 'F' {
        Some(c as int - 'A' as int + 10)
    } else {
        None
    }
}

/// Whether `s` is made of digits below `radix` alone.
pub open spec fn all_digits(s: Seq<char>, radix: int) -> bool {
    forall|i: int| 0 <= i < s.len() ==> (#[trigger] hex_value(s[i]) matches Some(d) && d < radix)
}

/// The number that the digits `s` write in `radix`, most significant first.
pub open spec fn digits_value(s: Seq<char>, radix: int) -> int
    decreases s.len(),
{
    if s.len() == 0 {
        0
    } else {
        digits_value(s.drop_last(), radix) * radix + hex_value(s.last()).unwrap_or(0)
    }
}

/// The digits of a written number: `s` without one leading plus sign.
pub open spec fn unsigned_digits(s: Seq<char>) -> Seq<char> {
    if s.len() > 0 && s[0] == '+' {
        s.drop_first()
    } else {
        s
    }
}

/// The number that `s` writes in `radix`, where it does and is at most `max`: one
/// optional plus sign and at least one digit, nothing else.
pub open spec fn parsed_number(s: Seq<char>, radix: int, max: int) -> Option<int> {
    let d = unsigned_digits(s);
    if d.len() > 0 && all_digits(d, radix) && digits_value(d, radix) <= max {
        Some(digits_value(d, radix))
    } else {
        None
    }
}

/// The value of a hexadecimal digit.
fn digit(c: char) -> (r: Option<u64>)
    ensures
        r is Some <==> hex_value(c) is Some,
        r is Some ==> r->0 == hex_value(c)->0 && r->0 < 16,
{
    if '0' <= c && c <= '9' {
        Some(c as u64 - '0' as u64)
    } else if 'a' <= c && c <= 'f' {
        Some(c as u64 - 'a' as u64 + 10)
    } else if 'A' <= c && c <= 'F' {
        Some(c as u64 - 'A' as u64 + 10)
    } else {
        None
    }
}

/// A number written with digits is no smaller than what its first digits write.
proof fn lemma_prefix_value(s: Seq<char>, n: int, radix: int)
    requires
        0 <= n <= s.len(),
        1 <= radix,
        all_digits(s, radix),
    ensures
        0 <= digits_value(s.take(n), radix) <= digits_value(s, radix),
    decreases s.len() - n, n,
{
    if n == s.len() {
        assert(s.take(n) =~= s);
        if n > 0 {
            lemma_prefix_value(s.take(n - 1), n - 1, radix);
            assert(s.take(n - 1).take(n - 1) =~= s.take(n - 1));
            assert(s.drop_last() =~= s.take(n - 1));
            assert(digits_value(s.take(n - 1), radix) * radix >= 0) by (nonlinear_arith)
                requires
                    digits_value(s.take(n - 1), radix) >= 0,
                    radix >= 1,
            ;
            assert(hex_value(s[n - 1]) is Some);
        }
    } else {
        lemma_prefix_value(s, n + 1, radix);
        let v = digits_value(s.take(n), radix);
        assert(s.take(n + 1).drop_last() =~= s.take(n));
        assert(hex_value(s[n]) is Some);
        let t = s.take(n);
        assert(all_digits(t, radix));
        lemma_prefix_value(t, n, radix);
        assert(t.take(n) =~= t);
        assert(v * radix >= v) by (nonlinear_arith)
            requires
                v >= 0,
                radix >= 1,
        ;
    }
}

/// Reads the number that `s` writes in `radix`, refusing what exceeds `max`.
pub fn parse_number(s: &str, radix: u64, max: u64) -> (r: Option<u64>)
    requires
        2 <= radix <= 16,
    ensures
        r is Some <==> parsed_number(s@, radix as int, max as int) is Some,
        r is Some ==> r->0 == parsed_number(s@, radix as int, max as int)->0,
{
    let v = chars_of(s);
    let from: usize = if v.len() > 0 && v[0] == '+' {
        1
    } else {
        0
    };
    let ghost d = unsigned_digits(s@);
    assert(d =~= v@.subrange(from as int, v.len() as int));
    if from == v.len() {
        return None;
    }
    let mut value: u64 = 0;
    let mut i: usize = from;
    while i < v.len()
        invariant
            from <= i <= v.len(),
            2 <= radix <= 16,
            d == v@.subrange(from as int, v.len() as int),
            d == unsigned_digits(s@),
            all_digits(d.take(i - from), radix as int),
            value == digits_value(d.take(i - from), radix as int),
            value <= max,
        decreases v.len() - i,
    {
        let ghost n = i - from;
        assert(d[n] == v@[i as int]);
        let x: u64 = match digit(v[i]) {
            Some(x) => x,
            None => {
                return None;
            },
        };
        if x >= radix {
            return None;
        }
        assert(d.take(n + 1).drop_last() =~= d.take(n));
        assert(all_digits(d.take(n + 1), radix as int)) by {
            assert forall|k: int| 0 <= k < n + 1 implies (#[trigger] hex_value(d.take(n + 1)[k])
                matches Some(y) && y < radix as int) by {
                if k < n {
                    assert(d.take(n)[k] == d.take(n + 1)[k]);
                }
            }
        }
        assert(value * radix <= 0xffff_ffff_ffff_ffff * 16) by (nonlinear_arith)
            requires
                value <= 0xffff_ffff_ffff_ffff,
                radix <= 16,
        ;
        let next: u128 = (value as u128) * (radix as u128) + (x as u128);
        assert(next == digits_value(d.take(n + 1), radix as int)) by {
            assert((value as u128) * (radix as u128) == value * radix) by (nonlinear_arith)
                requires
                    value <= 0xffff_ffff_ffff_ffff,
                    radix <= 16,
            ;
        }
        if next > max as u128 {
            proof {
                if all_digits(d, radix as int) {
                    lemma_prefix_value(d, n + 1, radix as int);
                }
            }
            return None;
        }
        value = next as u64;
        i += 1;
    }
    assert(d.take(d.len() as int) =~= d);
    Some(value)
}

/// The hexadecimal digit for a value below sixteen, in lower case.
pub open spec fn hex_digit(n: int) -> char {
    if n < 10 {
        ('0' as int + n) as char
    } else {
        ('a' as int + n - 10) as char
    }
}

/// The last `width` hexadecimal digits of `n`, most significant first.
pub open spec fn hex_digits(n: int, width: nat) -> Seq<char>
    decreases width,
{
    if width == 0 {
        Seq::empty()
    } else {
        hex_digits(n / 16, (width - 1) as nat).push(hex_digit(n % 16))
    }
}

/// The lower-case hexadecimal digit for a value below sixteen.
fn hex_char(n: u8) -> (c: char)
    requires
        n < 16,
    ensures
        c == hex_digit(n as int),
{
    if n < 10 {
        ('0' as u8 + n) as char
    } else {
        ('a' as u8 + (n - 10)) as char
    }
}

/// The lower sixteen hexadecimal digits of `n`, padded with zeros.
pub fn hex16(n: u64) -> (r: String)
    ensures
        r@ == hex_digits(n as int, 16),
{
    hex_padded(n, 16)
}

/// The lower `width` hexadecimal digits of `n`, padded with zeros.
fn hex_padded(n: u64, width: u64) -> (r: String)
    ensures
        r@ == hex_digits(n as int, width as nat),
    decreases width,
{
    if width == 0 {
        return String::new();
    }
    let mut out = hex_padded(n / 16, width - 1);
    out.push(hex_char((n % 16) as u8));
    out
}

/// The two hexadecimal digits of each byte, in order.
pub open spec fn hex_bytes(v: Seq<u8>) -> Seq<char>
    decreases v.len(),
{
    if v.len() == 0 {
        Seq::empty()
    } else {
        hex_bytes(v.drop_last()).push(hex_digit(v.last() as int / 16)).push(
            hex_digit(v.last() as int % 16),
        )
    }
}

/// The two lower-case hexadecimal digits of each byte, in order.
pub fn hex_text(v: &Vec<u8>) -> (r: String)
    ensures
        r@ == hex_bytes(v@),
{
    let mut out = String::new();
    let mut i: usize = 0;
    assert(v@.take(0) =~= Seq::empty());
    while i < v.len()
        invariant
            i <= v.len(),
            out@ == hex_bytes(v@.take(i as int)),
        decreases v.len() - i,
    {
        out.push(hex_char(v[i] / 16));
        out.push(hex_char(v[i] % 16));
        assert(v@.take(i + 1).drop_last() =~= v@.take(i as int));
        i += 1;
    }
    assert(v@.take(i as int) =~= v@);
    out
}

/// The decimal digits of `n`, without leading zeros.
pub open spec fn decimal_digits(n: nat) -> Seq<char>
    decreases n,
{
    if n < 10 {
        seq![hex_digit(n as int)]
    } else {
        decimal_digits(n / 10).push(hex_digit((n % 10) as int))
    }
}

/// `n` written in decimal.
pub fn decimal(n: u64) -> (r: String)
    ensures
        r@ == decimal_digits(n as nat),
    decreases n,
{
    if n < 10 {
        let mut out = String::new();
        out.push(hex_char(n as u8));
        assert(out@ =~= seq![hex_digit(n as int)]);
        out
    } else {
        let mut out = decimal(n / 10);
        out.push(hex_char((n % 10) as u8));
        out
    }
}

/// Reading back a written number gives the number: decimal text parses to the
/// value it was made from.
pub proof fn lemma_decimal_parses(n: nat, max: int)
    requires
        n <= max,
    ensures
        parsed_number(decimal_digits(n), 10, max) == Some(n as int),
{
    lemma_decimal_value(n);
    let s = decimal_digits(n);
    assert(hex_value(s[0]) is Some);
    assert(unsigned_digits(s) == s);
}

proof fn lemma_decimal_value(n: nat)
    ensures
        decimal_digits(n).len() > 0,
        all_digits(decimal_digits(n), 10),
        digits_value(decimal_digits(n), 10) == n,
    decreases n,
{
    let s = decimal_digits(n);
    if n < 10 {
        assert(s.drop_last() =~= Seq::empty());
        assert(digits_value(s.drop_last(), 10) == 0);
    } else {
        lemma_decimal_value(n / 10);
        assert(s.drop_last() =~= decimal_digits(n / 10));
        assert forall|k: int| 0 <= k < s.len() implies (#[trigger] hex_value(s[k]) matches Some(y)
            && y < 10) by {
            if k < s.len() - 1 {
                assert(s[k] == decimal_digits(n / 10)[k]);
            }
        }
    }
}

/// Padded hexadecimal text parses to the value it was made from, where the value
/// fits its width.
pub proof fn lemma_hex_parses(n: int, width: nat, max: int)
    requires
        0 < width,
        0 <= n <= max,
        n < pow16(width),
    ensures
        hex_digits(n, width).len() == width,
        parsed_number(hex_digits(n, width), 16, max) == Some(n),
{
    lemma_hex_value(n, width);
    let s = hex_digits(n, width);
    assert(hex_value(s[0]) is Some);
    assert(unsigned_digits(s) == s);
}

/// Sixteen to the power of `width`.
pub open spec fn pow16(width: nat) -> int
    decreases width,
{
    if width == 0 {
        1
    } else {
        16 * pow16((width - 1) as nat)
    }
}

proof fn lemma_hex_value(n: int, width: nat)
    requires
        0 <= n < pow16(width),
    ensures
        hex_digits(n, width).len() == width,
        all_digits(hex_digits(n, width), 16),
        digits_value(hex_digits(n, width), 16) == n,
    decreases width,
{
    if width > 0 {
        let w = (width - 1) as nat;
        lemma_hex_value(n / 16, w);
        let s = hex_digits(n, width);
        assert(s.drop_last() =~= hex_digits(n / 16, w));
        assert forall|k: int| 0 <= k < s.len() implies (#[trigger] hex_value(s[k]) matches Some(y)
            && y < 16) by {
            if k < s.len() - 1 {
                assert(s[k] == hex_digits(n / 16, w)[k]);
            }
        }
    }
}

// ── ASCII case ───────────────────────────────────────────────────────────────

/// An ASCII capital's small letter; any other character itself.
pub open spec fn ascii_lower(c: char) -> char {
    if 'A' <= c <= 'Z' {
        (c as u8 + 32) as char
    } else {
        c
    }
}

/// Whether two texts differ at most in the case of ASCII letters.
pub open spec fn same_ascii(a: Seq<char>, b: Seq<char>) -> bool {
    a.len() == b.len() && forall|i: int|
        0 <= i < a.len() ==> ascii_lower(#[trigger] a[i]) == ascii_lower(b[i])
}

/// An ASCII capital's small letter; any other character itself.
fn lower(c: char) -> (r: char)
    ensures
        r == ascii_lower(c),
{
    if 'A' <= c && c <= 'Z' {
        ((c as u8) + 32) as char
    } else {
        c
    }
}

/// Whether two texts differ at most in the case of ASCII letters.
pub fn same_ignoring_ascii_case(a: &str, b: &str) -> (r: bool)
    ensures
        r == same_ascii(a@, b@),
{
    let x = chars_of(a);
    let y = chars_of(b);
    if x.len() != y.len() {
        return false;
    }
    let mut i: usize = 0;
    while i < x.len()
        invariant
            i <= x.len(),
            x.len() == y.len(),
            x@ == a@,
            y@ == b@,
            forall|k: int| 0 <= k < i ==> ascii_lower(#[trigger] a@[k]) == ascii_lower(b@[k]),
        decreases x.len() - i,
    {
        if lower(x[i]) != lower(y[i]) {
            assert(ascii_lower(a@[i as int]) != ascii_lower(b@[i as int]));
            return false;
        }
        i += 1;
    }
    true
}

// ── Paths ────────────────────────────────────────────────────────────────────

/// The path of `name` in the directory `dir`.
pub open spec fn path_join(dir: Seq<char>, name: Seq<char>) -> Seq<char> {
    if dir.len() == 0 || dir.last() == '/' {
        dir + name
    } else {
        dir.push('/') + name
    }
}

/// The path of `name`, a relative path, in the directory `dir`.
pub fn join_path(dir: &str, name: &str) -> (r: String)
    ensures
        r@ == path_join(dir@, name@),
{
    let v = chars_of(dir);
    let mut out = dir.to_owned();
    if v.len() > 0 && v[v.len() - 1] != '/' {
        out.push('/');
    }
    out.append(name);
    out
}

/// Where the piece of a path that begins at `i` ends: at the next slash, or at the end.
pub open spec fn slash_end(p: Seq<char>, i: int) -> int
    decreases p.len() - i,
    when 0 <= i <= p.len()
{
    if i < p.len() && p[i] != '/' {
        slash_end(p, i + 1)
    } else {
        i
    }
}

/// A piece lies within its path.
pub proof fn lemma_slash_end(p: Seq<char>, i: int)
    requires
        0 <= i <= p.len(),
    ensures
        i <= slash_end(p, i) <= p.len(),
    decreases p.len() - i,
{
    if i < p.len() && p[i] != '/' {
        lemma_slash_end(p, i + 1);
    }
}

/// The names in a path from `from` on. Slashes in a row count as one, and a dot that
/// stands for the directory that it is in is left out.
pub open spec fn path_names(p: Seq<char>, from: int) -> Seq<Seq<char>>
    decreases p.len() + 1 - from,
    when 0 <= from
{
    if from >= p.len() {
        Seq::empty()
    } else {
        proof {
            lemma_slash_end(p, from);
        }
        let end = slash_end(p, from);
        let piece = p.subrange(from, end);
        if piece.len() == 0 || piece == "."@ {
            path_names(p, end + 1)
        } else {
            seq![piece] + path_names(p, end + 1)
        }
    }
}

/// Whether a path begins at the root.
pub open spec fn rooted(p: Seq<char>) -> bool {
    p.len() > 0 && p[0] == '/'
}

/// Whether a path begins with a dot for the directory that it is relative to.
pub open spec fn dotted(p: Seq<char>) -> bool {
    p.len() > 0 && p[0] == '.' && slash_end(p, 0) == 1
}

/// Whether two paths are the same, name by name.
pub open spec fn same_names(a: Seq<char>, b: Seq<char>) -> bool {
    rooted(a) == rooted(b) && dotted(a) == dotted(b) && path_names(a, 0) == path_names(b, 0)
}

/// The names in a path.
fn names_of(v: &Vec<char>) -> (r: Vec<String>)
    ensures
        texts(r@) == path_names(v@, 0),
{
    let mut out: Vec<String> = Vec::new();
    let mut i: usize = 0;
    assert(texts(out@) + path_names(v@, 0) =~= path_names(v@, 0));
    proof {
        reveal_strlit(".");
    }
    while i < v.len()
        invariant
            i <= v.len(),
            path_names(v@, 0) == texts(out@) + path_names(v@, i as int),
            "."@ == seq!['.'],
        decreases v.len() - i,
    {
        let start: usize = i;
        while i < v.len() && v[i] != '/'
            invariant
                start <= i <= v.len(),
                slash_end(v@, start as int) == slash_end(v@, i as int),
            decreases v.len() - i,
        {
            i += 1;
        }
        let ghost piece = v@.subrange(start as int, i as int);
        let ghost before = texts(out@);
        if start < i && !(i - start == 1 && v[start] == '.') {
            out.push(text_of(v, start, i));
            proof {
                if piece.len() == 1 {
                    assert(piece[0] != '.');
                }
                assert(texts(out@) =~= before.push(piece));
                assert(before + (seq![piece] + path_names(v@, i + 1)) =~= texts(out@) + path_names(
                    v@,
                    i + 1,
                ));
            }
        } else {
            assert(piece.len() == 0 || piece =~= "."@);
        }
        if i < v.len() {
            i += 1;
        } else {
            assert(path_names(v@, i + 1) =~= path_names(v@, i as int));
        }
    }
    assert(texts(out@) + path_names(v@, i as int) =~= texts(out@));
    out
}

/// Whether a path begins with a dot for the directory that it is relative to.
fn begins_with_dot(v: &Vec<char>) -> (r: bool)
    ensures
        r == dotted(v@),
{
    proof {
        reveal_with_fuel(slash_end, 3);
        if v@.len() > 1 {
            lemma_slash_end(v@, 1);
            if v@[1] != '/' {
                lemma_slash_end(v@, 2);
            }
        }
    }
    v.len() > 0 && v[0] == '.' && (v.len() == 1 || v[1] == '/')
}

/// Whether two paths are the same, name by name: a doubled slash, a slash at the end and
/// a dot between two slashes make no difference.
pub fn same_path(a: &str, b: &str) -> (r: bool)
    ensures
        r == same_names(a@, b@),
{
    let x = chars_of(a);
    let y = chars_of(b);
    let x_rooted = x.len() > 0 && x[0] == '/';
    let y_rooted = y.len() > 0 && y[0] == '/';
    if x_rooted != y_rooted || begins_with_dot(&x) != begins_with_dot(&y) {
        return false;
    }
    let p = names_of(&x);
    let q = names_of(&y);
    if p.len() != q.len() {
        assert(texts(p@).len() != texts(q@).len());
        return false;
    }
    let mut i: usize = 0;
    while i < p.len()
        invariant
            i <= p.len() == q.len(),
            texts(p@) == path_names(a@, 0),
            texts(q@) == path_names(b@, 0),
            forall|k: int| 0 <= k < i ==> (#[trigger] p@[k])@ == q@[k]@,
        decreases p.len() - i,
    {
        if !same_text(p[i].as_str(), q[i].as_str()) {
            assert(texts(p@)[i as int] != texts(q@)[i as int]);
            return false;
        }
        i += 1;
    }
    assert(texts(p@) =~= texts(q@));
    true
}

// ── Laws ─────────────────────────────────────────────────────────────────────

/// Trimming takes white space away, and nothing else: what it leaves stands in the text
/// between two stretches of white space.
pub proof fn law_trim_takes_space_away(s: Seq<char>)
    ensures
        exists|a: Seq<char>, b: Seq<char>|
            {
                &&& s == #[trigger] (a + trim(s) + b)
                &&& forall|i: int| 0 <= i < a.len() ==> is_space(#[trigger] a[i])
                &&& forall|i: int| 0 <= i < b.len() ==> is_space(#[trigger] b[i])
            },
{
    let (a, b) = lemma_trim_parts(s);
    assert(s == a + trim(s) + b);
}

pub proof fn lemma_trim_parts(s: Seq<char>) -> (r: (Seq<char>, Seq<char>))
    ensures
        s == r.0 + trim(s) + r.1,
        forall|i: int| 0 <= i < r.0.len() ==> is_space(#[trigger] r.0[i]),
        forall|i: int| 0 <= i < r.1.len() ==> is_space(#[trigger] r.1[i]),
{
    lemma_trim_start(s);
    let t = trim_start(s);
    let n = s.len() - t.len();
    lemma_trim_end(t);
    lemma_start_is_space(s);
    lemma_end_is_space(t);
    let a = s.take(n);
    let b = t.skip(trim(s).len() as int);
    assert(s =~= a + trim(s) + b);
    (a, b)
}

proof fn lemma_start_is_space(s: Seq<char>)
    ensures
        forall|i: int| 0 <= i < s.len() - trim_start(s).len() ==> is_space(#[trigger] s[i]),
    decreases s.len(),
{
    if s.len() > 0 && is_space(s[0]) {
        lemma_start_is_space(s.drop_first());
        assert forall|i: int| 0 <= i < s.len() - trim_start(s).len() implies is_space(
            #[trigger] s[i],
        ) by {
            if i > 0 {
                assert(s.drop_first()[i - 1] == s[i]);
            }
        }
    }
}

proof fn lemma_end_is_space(s: Seq<char>)
    ensures
        forall|i: int| trim_end(s).len() <= i < s.len() ==> is_space(#[trigger] s[i]),
    decreases s.len(),
{
    if s.len() > 0 && is_space(s.last()) {
        lemma_end_is_space(s.drop_last());
        assert forall|i: int| trim_end(s).len() <= i < s.len() implies is_space(
            #[trigger] s[i],
        ) by {
            if i < s.len() - 1 {
                assert(s.drop_last()[i] == s[i]);
            }
        }
    }
}

/// Text that neither begins nor ends with white space is what trimming gives back,
/// whatever white space stands around it.
pub proof fn law_trim_gives_back_the_text(a: Seq<char>, t: Seq<char>, b: Seq<char>)
    requires
        forall|i: int| 0 <= i < a.len() ==> is_space(#[trigger] a[i]),
        forall|i: int| 0 <= i < b.len() ==> is_space(#[trigger] b[i]),
        t.len() == 0 || (!is_space(t[0]) && !is_space(t.last())),
    ensures
        trim(a + t + b) == t,
        trim_start(a + t + b) == (if t.len() > 0 {
            t + b
        } else {
            Seq::empty()
        }),
        trim_end(a + t + b) == (if t.len() > 0 {
            a + t
        } else {
            Seq::empty()
        }),
{
    lemma_all_space(a);
    lemma_all_space(b);
    if t.len() > 0 {
        assert(a + t + b =~= a + (t + b));
        lemma_trim_start_before(a, t + b);
        assert(trim_start(a) + (t + b) =~= t + b);
        lemma_trim_end_after(t, b);
        assert(trim_end(t) == t);
        lemma_trim_end_after(a + t, b);
        lemma_trim_end_after(a, t);
    } else {
        assert(a + t + b =~= a + b);
        assert forall|i: int| 0 <= i < (a + b).len() implies is_space(#[trigger] (a + b)[i]) by {
            if i < a.len() {
                assert((a + b)[i] == a[i]);
            } else {
                assert((a + b)[i] == b[i - a.len()]);
            }
        }
        lemma_all_space(a + b);
    }
}

proof fn lemma_all_space(a: Seq<char>)
    requires
        forall|i: int| 0 <= i < a.len() ==> is_space(#[trigger] a[i]),
    ensures
        trim_start(a) == Seq::<char>::empty(),
        trim_end(a) == Seq::<char>::empty(),
    decreases a.len(),
{
    if a.len() > 0 {
        assert forall|i: int| 0 <= i < a.drop_first().len() implies is_space(
            #[trigger] a.drop_first()[i],
        ) by {
            assert(a.drop_first()[i] == a[i + 1]);
        }
        lemma_all_space(a.drop_first());
        lemma_all_space(a.drop_last());
    } else {
        assert(a =~= Seq::<char>::empty());
    }
}

/// A number in decimal has no leading zero, and is read back as the number that it is.
pub proof fn law_decimal_text(n: nat, max: int)
    requires
        n <= max,
    ensures
        n > 0 ==> decimal_digits(n)[0] != '0',
        decimal_digits(0) == seq!['0'],
        forall|i: int| 0 <= i < decimal_digits(n).len() ==> '0' <= #[trigger] decimal_digits(n)[i]
            <= '9',
        parsed_number(decimal_digits(n), 10, max) == Some(n as int),
    decreases n,
{
    lemma_decimal_parses(n, max);
    let last = (n % 10) as int;
    assert(('0' as int + last) as char as int == '0' as int + last);
    if n >= 10 {
        law_decimal_text(n / 10, max);
        let head = decimal_digits(n / 10);
        lemma_decimal_value(n / 10);
        assert forall|i: int| 0 <= i < decimal_digits(n).len() implies '0'
            <= #[trigger] decimal_digits(n)[i] <= '9' by {
            if i < head.len() {
                assert(decimal_digits(n)[i] == head[i]);
            }
        }
        assert(decimal_digits(n)[0] == head[0]);
    }
}

/// A written number is read digit by digit, the first the most significant: one more digit
/// multiplies by the radix and adds. Anything but digits below the radix, after one plus
/// sign at most, is no number, and neither is one above the bound.
pub proof fn law_number_is_read_by_its_digits(s: Seq<char>, c: char, radix: int, max: int)
    ensures
        parsed_number(Seq::empty(), radix, max) is None,
        hex_value(c) is Some && hex_value(c)->0 < radix && parsed_number(s, radix, max) is Some
            && parsed_number(s, radix, max)->0 * radix + hex_value(c)->0 <= max ==> parsed_number(
            s.push(c),
            radix,
            max,
        ) == Some(parsed_number(s, radix, max)->0 * radix + hex_value(c)->0),
        parsed_number(s, radix, max) matches Some(n) ==> n <= max,
        !(hex_value(c) matches Some(d) && d < radix) ==> parsed_number(s.push(c), radix, max)
            is None,
        '0' <= c <= '9' ==> hex_value(c) == Some(c as int - 48),
        'a' <= c <= 'f' ==> hex_value(c) == Some(c as int - 87),
        'A' <= c <= 'F' ==> hex_value(c) == Some(c as int - 55),
        hex_value(c) is Some <==> '0' <= c <= '9' || 'a' <= c <= 'f' || 'A' <= c <= 'F',
{
    let d = unsigned_digits(s);
    let t = s.push(c);
    if parsed_number(s, radix, max) is Some {
        assert(unsigned_digits(t) =~= d.push(c));
        assert(d.push(c).drop_last() =~= d);
        if hex_value(c) is Some && hex_value(c)->0 < radix {
            assert forall|i: int| 0 <= i < d.push(c).len() implies (
            #[trigger] hex_value(d.push(c)[i]) matches Some(x) && x < radix) by {
                if i < d.len() {
                    assert(d.push(c)[i] == d[i]);
                }
            }
        }
    }
    if !(hex_value(c) matches Some(x) && x < radix) {
        let u = unsigned_digits(t);
        if u.len() > 0 {
            assert(u.last() == c);
            assert(!(hex_value(u[u.len() - 1]) matches Some(x) && x < radix));
        }
    }
}

/// Every byte is written with two digits, which are read back as that byte; the bytes keep
/// their order.
pub proof fn law_bytes_are_written_in_hex(v: Seq<u8>, b: u8)
    ensures
        hex_bytes(Seq::empty()) == Seq::<char>::empty(),
        hex_bytes(v).len() == 2 * v.len(),
        hex_bytes(v.push(b)).take(2 * v.len() as int) == hex_bytes(v),
        parsed_number(hex_bytes(v.push(b)).skip(2 * v.len() as int), 16, 255) == Some(b as int),
    decreases v.len(),
{
    let n = 2 * v.len() as int;
    if v.len() > 0 {
        law_bytes_are_written_in_hex(v.drop_last(), v.last());
        assert(v.drop_last().push(v.last()) =~= v);
        assert(hex_bytes(v) == hex_bytes(v.drop_last()).push(hex_digit(v.last() as int / 16)).push(
            hex_digit(v.last() as int % 16),
        ));
    }
    assert(v.push(b).drop_last() =~= v);
    let all = hex_bytes(v.push(b));
    let hi = hex_digit(b as int / 16);
    let lo = hex_digit(b as int % 16);
    assert(all == hex_bytes(v).push(hi).push(lo));
    assert(all.take(n) =~= hex_bytes(v));
    let two = all.skip(n);
    assert(two =~= seq![hi, lo]);
    assert(two.drop_last() =~= seq![hi]);
    assert(seq![hi].drop_last() =~= Seq::<char>::empty());
    assert(digits_value(Seq::<char>::empty(), 16) == 0);
    assert(digits_value(seq![hi], 16) == b as int / 16);
    assert(digits_value(two, 16) == b as int / 16 * 16 + b as int % 16);
    assert(unsigned_digits(two) == two);
    assert(all_digits(two, 16));
}

/// Texts count as the same without regard to ASCII case if and only if their letters do,
/// one by one; other characters must be the same.
pub proof fn law_ascii_case(a: Seq<char>, b: Seq<char>, c: Seq<char>)
    ensures
        same_ascii(a, a),
        same_ascii(a, b) == same_ascii(b, a),
        same_ascii(a, b) && same_ascii(b, c) ==> same_ascii(a, c),
        same_ascii(a, b) ==> a.len() == b.len(),
        forall|x: char|
            'a' <= x <= 'z' ==> #[trigger] ascii_lower(x) == x && ascii_lower(
                ((x as int) - 32) as char,
            ) == x,
        forall|x: char| !('A' <= x <= 'Z') ==> #[trigger] ascii_lower(x) == x,
{
    assert forall|x: char| 'a' <= x <= 'z' implies #[trigger] ascii_lower(x) == x && ascii_lower(
        ((x as int) - 32) as char,
    ) == x by {
        let u = ((x as int) - 32) as char;
        assert(u as int == x as int - 32);
        assert((u as u8 + 32) as char == x);
    }
}

/// Text that was put together begins with its first piece and ends with its last.
pub proof fn law_pieces_at_the_ends(a: Seq<char>, b: Seq<char>)
    ensures
        starts_with(a + b, a),
        ends_with(a + b, b),
        starts_with(a, b) ==> a == b + a.skip(b.len() as int),
        ends_with(a, b) ==> a == a.take(a.len() - b.len()) + b,
{
    assert((a + b).take(a.len() as int) =~= a);
    assert((a + b).skip((a + b).len() - b.len()) =~= b);
    if starts_with(a, b) {
        assert(a =~= b + a.skip(b.len() as int));
    }
    if ends_with(a, b) {
        assert(a =~= a.take(a.len() - b.len()) + b);
    }
}

/// The last place of a character holds it, and no later one does; a text without it has
/// none.
pub proof fn law_last_place(s: Seq<char>, c: char)
    ensures
        -1 <= last_of(s, c) < s.len(),
        last_of(s, c) >= 0 ==> s[last_of(s, c)] == c,
        forall|k: int| last_of(s, c) < k < s.len() ==> s[k] != c,
    decreases s.len(),
{
    if s.len() > 0 && s.last() != c {
        law_last_place(s.drop_last(), c);
        let n = last_of(s, c);
        assert forall|k: int| n < k < s.len() implies s[k] != c by {
            if k < s.len() - 1 {
                assert(s.drop_last()[k] == s[k]);
            }
        }
        if n >= 0 {
            assert(s.drop_last()[n] == s[n]);
        }
    }
}

/// One slash stands between a directory and a name in it.
pub proof fn law_path_of_a_name(dir: Seq<char>, name: Seq<char>)
    ensures
        path_join(dir.push('/'), name) == dir.push('/') + name,
        dir.len() > 0 && dir.last() != '/' ==> path_join(dir, name) == dir + seq!['/'] + name,
        path_join(Seq::empty(), name) == name,
{
    assert(dir.push('/') + name =~= dir + seq!['/'] + name);
    assert(Seq::<char>::empty() + name =~= name);
}

proof fn lemma_slash_end_moved(x: Seq<char>, t: Seq<char>, i: int)
    requires
        0 <= i <= t.len(),
    ensures
        slash_end(x + t, x.len() + i) == x.len() + slash_end(t, i),
    decreases t.len() - i,
{
    if i < t.len() {
        assert((x + t)[x.len() + i] == t[i]);
        if t[i] != '/' {
            lemma_slash_end_moved(x, t, i + 1);
        }
    }
}

/// The names of a path stay its names when something is put in front of it.
proof fn lemma_path_names_moved(x: Seq<char>, t: Seq<char>, i: int)
    requires
        0 <= i,
    ensures
        path_names(x + t, x.len() + i) == path_names(t, i),
    decreases t.len() + 1 - i,
{
    if i < t.len() {
        lemma_slash_end_moved(x, t, i);
        lemma_slash_end(t, i);
        let end = slash_end(t, i);
        assert((x + t).subrange(x.len() + i, x.len() + end) =~= t.subrange(i, end));
        lemma_path_names_moved(x, t, end + 1);
    }
}

proof fn lemma_slash_end_before(p: Seq<char>, rest: Seq<char>, i: int)
    requires
        0 <= i <= p.len(),
        !p.contains('/'),
    ensures
        slash_end(p.push('/') + rest, i) == p.len(),
        slash_end(p, i) == p.len(),
    decreases p.len() - i,
{
    let s = p.push('/') + rest;
    if i < p.len() {
        assert(s[i] == p[i]);
        assert(p.contains(p[i]));
        lemma_slash_end_before(p, rest, i + 1);
    } else {
        assert(s[i] == '/');
    }
}

/// A path is its names, one after the other: a name in front of a slash comes first, and a
/// slash at the beginning, another slash, and a dot that stands for the directory itself
/// add none.
pub proof fn law_path_is_its_names(name: Seq<char>, rest: Seq<char>)
    requires
        name.len() > 0,
        !name.contains('/'),
        name != "."@,
    ensures
        path_names(name.push('/') + rest, 0) == seq![name] + path_names(rest, 0),
        path_names(name, 0) == seq![name],
        path_names(seq!['/'] + rest, 0) == path_names(rest, 0),
        path_names("."@.push('/') + rest, 0) == path_names(rest, 0),
        path_names(Seq::empty(), 0) == Seq::<Seq<char>>::empty(),
{
    reveal_strlit(".");
    lemma_slash_end_before(name, rest, 0);
    let s = name.push('/') + rest;
    assert(s.subrange(0, name.len() as int) =~= name);
    lemma_path_names_moved(name.push('/'), rest, 0);
    assert(name.subrange(0, name.len() as int) =~= name);
    assert(path_names(name, name.len() as int + 1) == Seq::<Seq<char>>::empty());
    assert(path_names(name, 0) =~= seq![name]);
    let slashed = seq!['/'] + rest;
    assert(slashed[0] == '/');
    assert(slash_end(slashed, 0) == 0);
    assert(slashed.subrange(0, 0).len() == 0);
    lemma_path_names_moved(seq!['/'], rest, 0);
    let dot = "."@;
    assert(!dot.contains('/'));
    lemma_slash_end_before(dot, rest, 0);
    assert((dot.push('/') + rest).subrange(0, 1) =~= dot);
    lemma_path_names_moved(dot.push('/'), rest, 0);
}

/// Two paths are the same where their names are and both begin at the root or neither does,
/// and both begin with a dot or neither does; and only there.
pub proof fn law_when_paths_are_the_same(a: Seq<char>, b: Seq<char>)
    ensures
        same_names(a, a),
        same_names(a, b) == same_names(b, a),
        same_names(a, b) ==> path_names(a, 0) == path_names(b, 0),
        (a.len() > 0 && a[0] == '/') != (b.len() > 0 && b[0] == '/') ==> !same_names(a, b),
        (a.len() > 0 && a[0] == '/') && (b.len() > 0 && b[0] == '/') && path_names(a, 0)
            == path_names(b, 0) ==> same_names(a, b),
        (a.len() > 0 && a[0] != '.' && a[0] != '/') && (b.len() > 0 && b[0] != '.' && b[0] != '/')
            && path_names(a, 0) == path_names(b, 0) ==> same_names(a, b),
        dotted("."@.push('/') + a) && !dotted(seq!['/'] + a),
{
    reveal_strlit(".");
    lemma_slash_end_before("."@, a, 0);
    assert(("."@.push('/') + a)[0] == '.');
    assert((seq!['/'] + a)[0] == '/');
}

} // verus!
