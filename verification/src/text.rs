//! Text as sequences of characters: the operations on strings that the
//! installer's rules are stated in.

use vstd::prelude::*;
use vstd::utf8::{decode_utf8, valid_utf8};

verus! {

/// `String::push` appends one character to the end of the string.
pub assume_specification[ String::push ](s: &mut String, ch: char)
    ensures
        final(s)@ == old(s)@.push(ch),
;

/// The text that `String::from_utf8_lossy` reads from bytes: their UTF-8
/// decoding, with U+FFFD in place of each invalid sequence.
pub uninterp spec fn utf8_lossy(bytes: Seq<u8>) -> Seq<char>;

/// The lower-case form that `str::to_lowercase` gives a text, by Unicode's rules.
pub uninterp spec fn lowercase(s: Seq<char>) -> Seq<char>;

/// Decodes bytes with `String::from_utf8_lossy`. The result depends on the
/// bytes alone, and bytes that are valid UTF-8 come back as the text they encode.
#[verifier::external_body]
pub(crate) fn from_utf8_lossy(bytes: &Vec<u8>) -> (s: String)
    ensures
        s@ == utf8_lossy(bytes@),
        valid_utf8(bytes@) ==> s@ == decode_utf8(bytes@),
{
    String::from_utf8_lossy(bytes).into_owned()
}

/// Lower-cases a text with `str::to_lowercase`. The result depends on the
/// text alone; nothing more is claimed of it here.
#[verifier::external_body]
pub(crate) fn to_lowercase(s: &str) -> (r: String)
    ensures
        r@ == lowercase(s@),
{
    s.to_lowercase()
}

/// The characters of a string, in order.
pub fn chars_of(s: &str) -> (v: Vec<char>)
    ensures
        v@ == s@,
{
    let mut v: Vec<char> = Vec::new();
    for c in it: s.chars()
        invariant
            it.seq() == s@,
            v@ == s@.take(it.index()),
    {
        v.push(c);
    }
    v
}

/// Whether a character is white space, as Unicode's `White_Space` property lists it.
pub open spec fn is_whitespace(c: char) -> bool {
    let n = c as u32;
    ||| 0x09 <= n <= 0x0D
    ||| n == 0x20
    ||| n == 0x85
    ||| n == 0xA0
    ||| n == 0x1680
    ||| 0x2000 <= n <= 0x200A
    ||| n == 0x2028
    ||| n == 0x2029
    ||| n == 0x202F
    ||| n == 0x205F
    ||| n == 0x3000
}

/// Whether a character separates the parts of a path: `/` or `\`.
pub open spec fn is_separator(c: char) -> bool {
    c == '/' || c == '\\'
}

/// A set of characters that a scan runs over.
#[derive(Clone, Copy, Debug)]
pub enum CharSet {
    /// White space.
    Whitespace,
    /// The one character given.
    Only(char),
    /// Every character but the one given.
    Except(char),
    /// Every character but the path separators.
    NonSeparators,
}

impl CharSet {
    /// Whether the set holds the character.
    pub open spec fn has(self, c: char) -> bool {
        match self {
            CharSet::Whitespace => is_whitespace(c),
            CharSet::Only(x) => c == x,
            CharSet::Except(x) => c != x,
            CharSet::NonSeparators => !is_separator(c),
        }
    }

    /// Tests whether the set holds the character.
    pub fn contains(&self, c: char) -> (b: bool)
        ensures
            b == self.has(c),
    {
        match self {
            CharSet::Whitespace => {
                let n: u32 = c as u32;
                (0x09 <= n && n <= 0x0D) || n == 0x20 || n == 0x85 || n == 0xA0 || n == 0x1680
                    || (0x2000 <= n && n <= 0x200A) || n == 0x2028 || n == 0x2029 || n == 0x202F
                    || n == 0x205F || n == 0x3000
            },
            CharSet::Only(x) => c == *x,
            CharSet::Except(x) => c != *x,
            CharSet::NonSeparators => !(c == '/' || c == '\\'),
        }
    }
}

/// How many characters at the start of `s` lie in `set`, up to the first that does not.
pub open spec fn leading_run(s: Seq<char>, set: CharSet) -> nat
    decreases s.len(),
{
    if s.len() > 0 && set.has(s[0]) {
        1 + leading_run(s.skip(1), set)
    } else {
        0
    }
}

/// How many characters at the end of `s` lie in `set`, back to the last that does not.
pub open spec fn trailing_run(s: Seq<char>, set: CharSet) -> nat
    decreases s.len(),
{
    if s.len() > 0 && set.has(s.last()) {
        1 + trailing_run(s.drop_last(), set)
    } else {
        0
    }
}

/// A leading run is the one prefix of members that ends the text or stops at a non-member.
pub proof fn lemma_leading_run(s: Seq<char>, set: CharSet, k: int)
    requires
        0 <= k <= s.len(),
        forall|j: int| 0 <= j < k ==> set.has(#[trigger] s[j]),
        k < s.len() ==> !set.has(s[k]),
    ensures
        leading_run(s, set) == k,
    decreases k,
{
    if k > 0 {
        let rest = s.skip(1);
        assert forall|j: int| 0 <= j < k - 1 implies set.has(#[trigger] rest[j]) by {
            assert(rest[j] == s[j + 1]);
        }
        lemma_leading_run(rest, set, k - 1);
    }
}

/// A trailing run is the one suffix of members that reaches the start or stops at a non-member.
pub proof fn lemma_trailing_run(s: Seq<char>, set: CharSet, k: int)
    requires
        0 <= k <= s.len(),
        forall|j: int| s.len() - k <= j < s.len() ==> set.has(#[trigger] s[j]),
        k < s.len() ==> !set.has(s[s.len() - k - 1]),
    ensures
        trailing_run(s, set) == k,
    decreases k,
{
    if k > 0 {
        let rest = s.drop_last();
        assert forall|j: int| rest.len() - (k - 1) <= j < rest.len() implies set.has(
            #[trigger] rest[j],
        ) by {
            assert(rest[j] == s[j]);
        }
        lemma_trailing_run(rest, set, k - 1);
    }
}

/// A leading run fits in the text, holds members only, and ends the text or
/// stops at a non-member.
pub proof fn lemma_leading_run_is_maximal(s: Seq<char>, set: CharSet)
    ensures
        leading_run(s, set) <= s.len(),
        forall|j: int| 0 <= j < leading_run(s, set) ==> set.has(#[trigger] s[j]),
        leading_run(s, set) < s.len() ==> !set.has(s[leading_run(s, set) as int]),
    decreases s.len(),
{
    if s.len() > 0 && set.has(s[0]) {
        let rest = s.skip(1);
        lemma_leading_run_is_maximal(rest, set);
        assert forall|j: int| 0 <= j < leading_run(s, set) implies set.has(#[trigger] s[j]) by {
            if j > 0 {
                assert(s[j] == rest[j - 1]);
            }
        }
        if leading_run(s, set) < s.len() {
            assert(s[leading_run(s, set) as int] == rest[leading_run(rest, set) as int]);
        }
    }
}

/// A trailing run fits in the text, holds members only, and reaches the start
/// or stops at a non-member.
pub proof fn lemma_trailing_run_is_maximal(s: Seq<char>, set: CharSet)
    ensures
        trailing_run(s, set) <= s.len(),
        forall|j: int| s.len() - trailing_run(s, set) <= j < s.len() ==> set.has(#[trigger] s[j]),
        trailing_run(s, set) < s.len() ==> !set.has(s[s.len() - trailing_run(s, set) - 1]),
    decreases s.len(),
{
    if s.len() > 0 && set.has(s.last()) {
        let rest = s.drop_last();
        lemma_trailing_run_is_maximal(rest, set);
        assert forall|j: int| s.len() - trailing_run(s, set) <= j < s.len() implies set.has(
            #[trigger] s[j],
        ) by {
            if j < s.len() - 1 {
                assert(s[j] == rest[j]);
            }
        }
        if trailing_run(s, set) < s.len() {
            assert(s[s.len() - trailing_run(s, set) - 1] == rest[rest.len() - trailing_run(rest, set)
                - 1]);
        }
    }
}

/// Counts the characters of `v[from..to]` that lie in `set` before the first that does not.
pub fn leading(v: &Vec<char>, from: usize, to: usize, set: CharSet) -> (n: usize)
    requires
        from <= to <= v.len(),
    ensures
        n == leading_run(v@.subrange(from as int, to as int), set),
        n <= to - from,
{
    let mut i: usize = from;
    while i < to && set.contains(v[i])
        invariant
            from <= i <= to <= v.len(),
            forall|j: int| from <= j < i ==> set.has(#[trigger] v@[j]),
        decreases to - i,
    {
        i += 1;
    }
    proof {
        lemma_leading_run(v@.subrange(from as int, to as int), set, i - from);
    }
    i - from
}

/// Counts the characters of `v[from..to]` that lie in `set` after the last that does not.
pub fn trailing(v: &Vec<char>, from: usize, to: usize, set: CharSet) -> (n: usize)
    requires
        from <= to <= v.len(),
    ensures
        n == trailing_run(v@.subrange(from as int, to as int), set),
        n <= to - from,
{
    let mut i: usize = to;
    while i > from && set.contains(v[i - 1])
        invariant
            from <= i <= to <= v.len(),
            forall|j: int| i <= j < to ==> set.has(#[trigger] v@[j]),
        decreases i,
    {
        i -= 1;
    }
    proof {
        lemma_trailing_run(v@.subrange(from as int, to as int), set, to - i);
    }
    to - i
}

/// The part `v[from..to]` as a string.
pub fn substring(v: &Vec<char>, from: usize, to: usize) -> (s: String)
    requires
        from <= to <= v.len(),
    ensures
        s@ == v@.subrange(from as int, to as int),
{
    let mut s = String::new();
    let mut i: usize = from;
    while i < to
        invariant
            from <= i <= to <= v.len(),
            s@ == v@.subrange(from as int, i as int),
        decreases to - i,
    {
        s.push(v[i]);
        i += 1;
    }
    s
}

/// `s` without the characters of `set` at its start.
pub open spec fn strip_start(s: Seq<char>, set: CharSet) -> Seq<char> {
    s.skip(leading_run(s, set) as int)
}

/// `s` without the characters of `set` at its end.
pub open spec fn strip_end(s: Seq<char>, set: CharSet) -> Seq<char> {
    s.take(s.len() - trailing_run(s, set))
}

/// `s` without the characters of `set` at either end.
pub open spec fn strip(s: Seq<char>, set: CharSet) -> Seq<char> {
    strip_end(strip_start(s, set), set)
}

/// `s` without white space at either end.
pub open spec fn trimmed(s: Seq<char>) -> Seq<char> {
    strip(s, CharSet::Whitespace)
}

/// Whether a text is empty or holds white space only.
pub open spec fn is_blank(s: Seq<char>) -> bool {
    forall|i: int| 0 <= i < s.len() ==> is_whitespace(#[trigger] s[i])
}

/// A text trims to nothing exactly where it is blank.
pub proof fn lemma_blank_trims_to_nothing(s: Seq<char>)
    ensures
        trimmed(s).len() == 0 <==> is_blank(s),
{
    let set = CharSet::Whitespace;
    let front = strip_start(s, set);
    lemma_leading_run_is_maximal(s, set);
    lemma_trailing_run_is_maximal(front, set);
    if is_blank(s) {
        lemma_leading_run(s, set, s.len() as int);
    }
    if trimmed(s).len() == 0 {
        assert forall|i: int| 0 <= i < s.len() implies is_whitespace(#[trigger] s[i]) by {
            if i >= leading_run(s, set) {
                assert(s[i] == front[i - leading_run(s, set)]);
            }
        }
    }
}

/// Removes the characters of `start` from the front of `s`, then those of `end` from its back.
pub fn strip_both(s: &str, start: Option<CharSet>, end: Option<CharSet>) -> (r: String)
    ensures
        r@ == ({
            let front = match start {
                Some(set) => strip_start(s@, set),
                None => s@,
            };
            match end {
                Some(set) => strip_end(front, set),
                None => front,
            }
        }),
{
    let v = chars_of(s);
    let n = v.len();
    let lead = match start {
        Some(set) => leading(&v, 0, n, set),
        None => 0,
    };
    assert(v@.subrange(0, n as int) == v@);
    let trail = match end {
        Some(set) => trailing(&v, lead, n, set),
        None => 0,
    };
    assert(v@.subrange(lead as int, n as int) == v@.skip(lead as int));
    assert(v@.skip(lead as int).take(n - lead - trail) == v@.subrange(lead as int, n - trail));
    substring(&v, lead, n - trail)
}

/// Removes white space from both ends of a text.
pub fn trim(s: &str) -> (r: String)
    ensures
        r@ == trimmed(s@),
{
    strip_both(s, Some(CharSet::Whitespace), Some(CharSet::Whitespace))
}

/// `s` with every `from` replaced by `to`.
pub open spec fn replaced(s: Seq<char>, from: char, to: char) -> Seq<char> {
    Seq::new(s.len(), |i: int| if s[i] == from { to } else { s[i] })
}

/// Replaces every `from` in a text by `to`.
pub fn replace_char(s: &str, from: char, to: char) -> (r: String)
    ensures
        r@ == replaced(s@, from, to),
{
    let v = chars_of(s);
    let mut r = String::new();
    let mut i: usize = 0;
    while i < v.len()
        invariant
            i <= v.len(),
            r@ == replaced(v@, from, to).take(i as int),
        decreases v.len() - i,
    {
        let c = v[i];
        r.push(if c == from { to } else { c });
        i += 1;
    }
    r
}

/// Whether `needle` occurs in `hay` as a run of consecutive characters.
pub open spec fn contains_text(hay: Seq<char>, needle: Seq<char>) -> bool {
    exists|i: int| occurs_at(hay, needle, i)
}

/// Whether `needle` occurs in `hay` at position `i`.
pub open spec fn occurs_at(hay: Seq<char>, needle: Seq<char>, i: int) -> bool {
    0 <= i && i + needle.len() <= hay.len() && hay.subrange(i, i + needle.len()) == needle
}

/// Tests whether `needle` stands in `hay` at position `at`.
fn matches_at(hay: &Vec<char>, needle: &Vec<char>, at: usize) -> (b: bool)
    requires
        at + needle.len() <= hay.len(),
    ensures
        b == occurs_at(hay@, needle@, at as int),
{
    let mut k: usize = 0;
    while k < needle.len()
        invariant
            k <= needle.len(),
            at + needle.len() <= hay.len(),
            forall|j: int| 0 <= j < k ==> hay@[at + j] == needle@[j],
        decreases needle.len() - k,
    {
        if hay[at + k] != needle[k] {
            proof {
                assert(hay@.subrange(at as int, at + needle.len())[k as int] == hay@[at + k]);
            }
            return false;
        }
        k += 1;
    }
    assert(hay@.subrange(at as int, at + needle.len()) =~= needle@);
    true
}

/// Tests whether `needle` occurs in `hay`.
pub fn contains(hay: &str, needle: &str) -> (b: bool)
    ensures
        b == contains_text(hay@, needle@),
{
    let h = chars_of(hay);
    let n = chars_of(needle);
    if n.len() > h.len() {
        return false;
    }
    let last: usize = h.len() - n.len();
    let mut i: usize = 0;
    while i < last
        invariant
            i <= last,
            last == h.len() - n.len(),
            n.len() <= h.len(),
            h@ == hay@,
            n@ == needle@,
            forall|j: int| 0 <= j < i ==> !occurs_at(h@, n@, j),
        decreases last - i,
    {
        if matches_at(&h, &n, i) {
            return true;
        }
        i += 1;
    }
    matches_at(&h, &n, last)
}

/// The character that writes the digit `d`.
pub open spec fn digit_char(d: nat) -> char
    recommends
        d < 10,
{
    (('0' as u8 + d) as u8) as char
}

/// The decimal numeral of `n`, without leading zeros.
pub open spec fn decimal(n: nat) -> Seq<char>
    decreases n,
{
    if n < 10 {
        seq![digit_char(n)]
    } else {
        decimal(n / 10).push(digit_char(n % 10))
    }
}

/// Writes `n` in decimal.
pub fn decimal_string(n: u64) -> (s: String)
    ensures
        s@ == decimal(n as nat),
    decreases n,
{
    if n < 10 {
        let mut s = String::new();
        s.push(('0' as u8 + (n as u8)) as char);
        s
    } else {
        let mut s = decimal_string(n / 10);
        s.push(('0' as u8 + ((n % 10) as u8)) as char);
        s
    }
}

/// Whether a character is one of the digits `0` to `9`.
pub open spec fn is_digit(c: char) -> bool {
    '0' as u32 <= c as u32 <= '9' as u32
}

/// The number that a string of digits writes in decimal.
pub open spec fn digits_value(s: Seq<char>) -> nat
    decreases s.len(),
{
    if s.len() == 0 {
        0
    } else {
        digits_value(s.drop_last()) * 10 + (s.last() as u32 - '0' as u32) as nat
    }
}

/// Whether every character of `s` is a digit.
pub open spec fn all_digits(s: Seq<char>) -> bool {
    forall|i: int| 0 <= i < s.len() ==> is_digit(#[trigger] s[i])
}

/// The digits of an unsigned numeral: the text itself, or what follows one leading `+`.
pub open spec fn unsigned_digits(s: Seq<char>) -> Seq<char> {
    if s.len() > 0 && s[0] == '+' {
        s.skip(1)
    } else {
        s
    }
}

/// The `u32` that a text writes in decimal: an optional `+`, then at least one
/// digit and nothing else, with a value that fits. No other text writes one.
pub open spec fn parsed_u32(s: Seq<char>) -> Option<u32> {
    let d = unsigned_digits(s);
    if d.len() > 0 && all_digits(d) && digits_value(d) <= u32::MAX {
        Some(digits_value(d) as u32)
    } else {
        None
    }
}

/// The value of a digit string is at least that of each of its prefixes.
pub proof fn lemma_digits_value_prefix(s: Seq<char>, k: int)
    requires
        0 <= k <= s.len(),
        all_digits(s),
    ensures
        digits_value(s.take(k)) <= digits_value(s),
    decreases s.len(),
{
    if k == s.len() {
        assert(s.take(k) == s);
    } else {
        assert(s.drop_last().take(k) == s.take(k));
        assert(is_digit(s.last()));
        lemma_digits_value_prefix(s.drop_last(), k);
    }
}

/// Reads a `u32` from its decimal numeral.
pub fn parse_u32(s: &str) -> (r: Option<u32>)
    ensures
        r == parsed_u32(s@),
{
    let v = chars_of(s);
    let start: usize = if v.len() > 0 && v[0] == '+' { 1 } else { 0 };
    if start == v.len() {
        return None;
    }
    let ghost d = unsigned_digits(v@);
    assert(d == v@.skip(start as int));
    let mut acc: u64 = 0;
    let mut i: usize = start;
    while i < v.len()
        invariant
            start <= i <= v.len(),
            v@ == s@,
            d == unsigned_digits(v@),
            d == v@.skip(start as int),
            all_digits(d.take(i - start)),
            acc == digits_value(d.take(i - start)),
            acc <= u32::MAX,
        decreases v.len() - i,
    {
        let n: u32 = v[i] as u32;
        assert(d[i - start] == v@[i as int]);
        if n < '0' as u32 || n > '9' as u32 {
            assert(!is_digit(d[i - start]));
            return None;
        }
        let ghost next = d.take(i - start + 1);
        assert(next.drop_last() == d.take(i - start));
        assert(next.last() == v@[i as int]);
        assert forall|j: int| 0 <= j < next.len() implies is_digit(#[trigger] next[j]) by {
            if j < i - start {
                assert(d.take(i - start)[j] == next[j]);
            }
        }
        let value: u64 = acc * 10 + (n - '0' as u32) as u64;
        if value > u32::MAX as u64 {
            proof {
                if all_digits(d) {
                    lemma_digits_value_prefix(d, i - start + 1);
                }
            }
            return None;
        }
        acc = value;
        i += 1;
    }
    assert(d.take(i - start) == d);
    Some(acc as u32)
}

/// A letter `A` to `Z` as its lower-case letter; every other character as itself.
pub open spec fn ascii_lower(c: char) -> char {
    if 'A' as u32 <= c as u32 <= 'Z' as u32 {
        ((c as u32 - 'A' as u32 + 'a' as u32) as u8) as char
    } else {
        c
    }
}

/// Whether two texts are the same but for the case of their ASCII letters.
pub open spec fn same_ignoring_ascii_case(a: Seq<char>, b: Seq<char>) -> bool {
    a.len() == b.len() && forall|i: int| 0 <= i < a.len() ==> ascii_lower(#[trigger] a[i]) == ascii_lower(b[i])
}

/// Lower-cases one character where it is an ASCII letter.
pub fn to_ascii_lower(c: char) -> (r: char)
    ensures
        r == ascii_lower(c),
{
    let n: u32 = c as u32;
    if 'A' as u32 <= n && n <= 'Z' as u32 {
        ((n - 'A' as u32 + 'a' as u32) as u8) as char
    } else {
        c
    }
}

/// Compares `v[from..]` with `word`, ignoring the case of ASCII letters.
pub fn eq_ignore_ascii_case(v: &Vec<char>, from: usize, word: &str) -> (b: bool)
    requires
        from <= v.len(),
    ensures
        b == same_ignoring_ascii_case(v@.skip(from as int), word@),
{
    let w = chars_of(word);
    if v.len() - from != w.len() {
        return false;
    }
    let ghost tail = v@.skip(from as int);
    let mut i: usize = 0;
    while i < w.len()
        invariant
            i <= w.len(),
            from <= v.len(),
            v.len() - from == w.len(),
            tail == v@.skip(from as int),
            w@ == word@,
            forall|j: int| 0 <= j < i ==> ascii_lower(#[trigger] tail[j]) == ascii_lower(w@[j]),
        decreases w.len() - i,
    {
        assert(tail[i as int] == v@[from + i]);
        if to_ascii_lower(v[from + i]) != to_ascii_lower(w[i]) {
            return false;
        }
        i += 1;
    }
    true
}

/// The decimal numeral of an integer: a `-` before that of its size where it is negative.
pub open spec fn signed_decimal(n: int) -> Seq<char> {
    if n < 0 {
        "-"@ + decimal((-n) as nat)
    } else {
        decimal(n as nat)
    }
}

/// An optional integer as Rust's debug format writes it: `Some(..)` round the
/// numeral, or `None`.
pub open spec fn debug_number(n: Option<int>) -> Seq<char> {
    match n {
        Some(v) => "Some("@ + signed_decimal(v) + ")"@,
        None => "None"@,
    }
}

/// Writes an optional integer in debug format.
pub fn debug_number_string(n: Option<i64>) -> (s: String)
    ensures
        s@ == debug_number(
            match n {
                Some(v) => Some(v as int),
                None => None,
            },
        ),
{
    match n {
        Some(v) => {
            let mut s = "Some(".to_owned();
            if v < 0 {
                s.append("-");
                let size: i128 = -(v as i128);
                s.append(decimal_string(size as u64).as_str());
            } else {
                s.append(decimal_string(v as u64).as_str());
            }
            s.append(")");
            s
        },
        None => "None".to_owned(),
    }
}

/// The view of a text or an error text.
pub open spec fn text_result(r: Result<String, String>) -> Result<Seq<char>, Seq<char>> {
    match r {
        Ok(s) => Ok(s@),
        Err(e) => Err(e@),
    }
}

/// Success with a text where the flag is set, failure with it where not.
pub open spec fn flagged(pair: (bool, Seq<char>)) -> Result<Seq<char>, Seq<char>> {
    if pair.0 {
        Ok(pair.1)
    } else {
        Err(pair.1)
    }
}

} // verus!
