use vstd::prelude::*;

verus! {

broadcast use vstd::seq_lib::group_seq_properties;

/// ASCII whitespace, the class this library trims and skips.
pub open spec fn is_space(c: char) -> bool {
    c == ' ' || c == '\t' || c == '\n' || c == '\r' || c == '\u{c}'
}

/// ASCII decimal digit.
pub open spec fn is_digit(c: char) -> bool {
    48 <= c as u32 <= 57
}

/// Numeric value of a digit; zero for anything else.
pub open spec fn digit_val(c: char) -> nat {
    if is_digit(c) {
        (c as u32 - 48) as nat
    } else {
        0
    }
}

/// Value of a digit string read in base ten.
pub open spec fn digits_val(s: Seq<char>) -> nat
    decreases s.len(),
{
    if s.len() == 0 {
        0
    } else {
        digits_val(s.drop_last()) * 10 + digit_val(s.last())
    }
}

pub open spec fn all_digits(s: Seq<char>) -> bool {
    forall|i: int| 0 <= i < s.len() ==> is_digit(s[i])
}

/// Appending characters never lowers the value of a digit string.
pub proof fn lemma_digits_val_prefix(s: Seq<char>, i: int)
    requires
        0 <= i <= s.len(),
    ensures
        digits_val(s) >= digits_val(s.take(i)),
    decreases s.len() - i,
{
    if i < s.len() {
        lemma_digits_val_prefix(s, i + 1);
        assert(s.take(i + 1).drop_last() =~= s.take(i));
        assert(s.take(i + 1).last() == s[i]);
        assert(digits_val(s.take(i + 1)) == digits_val(s.take(i)) * 10 + digit_val(s[i]));
    } else {
        assert(s.take(i) =~= s);
    }
}

/// The digit part of a decimal number: everything after an optional
/// leading `'+'`.
pub open spec fn dec_digits(s: Seq<char>) -> Seq<char> {
    if s.len() > 0 && s[0] == '+' {
        s.subrange(1, s.len() as int)
    } else {
        s
    }
}

/// What parsing an unsigned decimal number returns: an optional leading
/// `'+'`, then at least one digit and nothing else; anything else is
/// rejected.
pub open spec fn spec_parse_dec(s: Seq<char>) -> Option<nat> {
    if dec_digits(s).len() > 0 && all_digits(dec_digits(s)) {
        Some(digits_val(dec_digits(s)))
    } else {
        None
    }
}

pub open spec fn spec_parse_u32(s: Seq<char>) -> Option<u32> {
    match spec_parse_dec(s) {
        Some(v) => if v <= u32::MAX { Some(v as u32) } else { None },
        None => None,
    }
}

pub open spec fn spec_parse_u8(s: Seq<char>) -> Option<u8> {
    match spec_parse_dec(s) {
        Some(v) => if v <= u8::MAX { Some(v as u8) } else { None },
        None => None,
    }
}

/// The characters of a string as a vector, for random access.
pub fn chars_of(s: &str) -> (r: Vec<char>)
    ensures
        r@ == s@,
{
    let n = s.unicode_len();
    let mut v: Vec<char> = Vec::new();
    let mut i: usize = 0;
    while i < n
        invariant
            i <= n,
            n == s@.len(),
            v@ == s@.take(i as int),
        decreases n - i,
    {
        let c = s.get_char(i);
        v.push(c);
        proof {
            assert(s@.take(i as int).push(s@[i as int]) =~= s@.take(i + 1));
        }
        i += 1;
    }
    proof {
        assert(s@.take(n as int) =~= s@);
    }
    v
}

/// Value of the digit run `s[a..b]`, or `None` when it exceeds `u32::MAX`.
pub fn digits_run_val(s: &Vec<char>, a: usize, b: usize) -> (r: Option<u32>)
    requires
        a <= b <= s@.len(),
        forall|i: int| a <= i < b ==> is_digit(s@[i]),
    ensures
        match r {
            Some(x) => digits_val(s@.subrange(a as int, b as int)) == x,
            None => digits_val(s@.subrange(a as int, b as int)) > u32::MAX,
        },
{
    let ghost digs = s@.subrange(a as int, b as int);
    let mut i = a;
    let mut acc: u64 = 0;
    while i < b
        invariant
            a <= i <= b <= s@.len(),
            digs == s@.subrange(a as int, b as int),
            forall|j: int| a <= j < b ==> is_digit(s@[j]),
            acc <= u32::MAX,
            acc == digits_val(digs.take(i - a)),
        decreases b - i,
    {
        let c = s[i];
        let d = (c as u32) - 48;
        proof {
            assert(digs.take(i - a + 1).drop_last() =~= digs.take(i - a));
            assert(digs.take(i - a + 1).last() == s@[i as int]);
        }
        let next: u64 = acc * 10 + (d as u64);
        if next > u32::MAX as u64 {
            proof {
                lemma_digits_val_prefix(digs, i - a + 1);
            }
            return None;
        }
        acc = next;
        i += 1;
    }
    proof {
        assert(digs.take(b - a) =~= digs);
    }
    Some(acc as u32)
}

/// Parses an unsigned decimal number out of a character vector, exactly as
/// `spec_parse_u32` describes.
pub fn parse_u32_chars(s: &Vec<char>) -> (r: Option<u32>)
    ensures
        r == spec_parse_u32(s@),
{
    let start: usize = if s.len() > 0 && s[0] == '+' {
        1
    } else {
        0
    };
    let ghost digs = dec_digits(s@);
    proof {
        assert(digs =~= s@.subrange(start as int, s@.len() as int));
    }
    if s.len() == start {
        return None;
    }
    let mut i = start;
    while i < s.len()
        invariant
            start <= i <= s@.len(),
            digs == dec_digits(s@),
            digs == s@.subrange(start as int, s@.len() as int),
            forall|j: int| start <= j < i ==> is_digit(s@[j]),
        decreases s@.len() - i,
    {
        let u = s[i] as u32;
        if u < 48 || u > 57 {
            proof {
                assert(!is_digit(s@[i as int]));
                assert(digs[i - start] == s@[i as int]);
                assert(!all_digits(digs));
                assert(spec_parse_dec(s@) is None);
            }
            return None;
        }
        i += 1;
    }
    assert(all_digits(digs)) by {
        assert(forall|j: int| 0 <= j < digs.len() ==> digs[j] == s@[j + start] && is_digit(s@[j + start]));
    }
    digits_run_val(s, start, s.len())
}

/// Parses an unsigned decimal number out of a string.
pub fn parse_u32_str(s: &str) -> (r: Option<u32>)
    ensures
        r == spec_parse_u32(s@),
{
    let v = chars_of(s);
    parse_u32_chars(&v)
}

/// Parses a small unsigned decimal number out of a string.
pub fn parse_u8_str(s: &str) -> (r: Option<u8>)
    ensures
        r == spec_parse_u8(s@),
{
    let v = chars_of(s);
    match parse_u32_chars(&v) {
        Some(x) => {
            if x <= u8::MAX as u32 {
                Some(x as u8)
            } else {
                None
            }
        },
        None => None,
    }
}

/// The pattern `pat` stands at position `p` of `s`.
pub open spec fn match_at(s: Seq<char>, pat: Seq<char>, p: int) -> bool {
    &&& 0 <= p
    &&& p + pat.len() <= s.len()
    &&& forall|k: int| 0 <= k < pat.len() ==> s[p + k] == pat[k]
}

/// First position at or after `i` where `pat` stands in `s`.
pub open spec fn find_first_from(s: Seq<char>, pat: Seq<char>, i: int) -> Option<int>
    decreases s.len() - i + 1,
{
    if i < 0 || i + pat.len() > s.len() {
        None
    } else if match_at(s, pat, i) {
        Some(i)
    } else {
        find_first_from(s, pat, i + 1)
    }
}

/// Last position at or before `i` where `pat` stands in `s`.
pub open spec fn find_last_before(s: Seq<char>, pat: Seq<char>, i: int) -> Option<int>
    decreases i + 1,
{
    if i < 0 {
        None
    } else if i + pat.len() <= s.len() && match_at(s, pat, i) {
        Some(i)
    } else {
        find_last_before(s, pat, i - 1)
    }
}

pub open spec fn spec_find_first(s: Seq<char>, pat: Seq<char>) -> Option<int> {
    find_first_from(s, pat, 0)
}

pub open spec fn spec_find_last(s: Seq<char>, pat: Seq<char>) -> Option<int> {
    find_last_before(s, pat, s.len() - pat.len())
}

pub open spec fn spec_contains(s: Seq<char>, pat: Seq<char>) -> bool {
    spec_find_first(s, pat) is Some
}

/// Checks whether `pat` stands at `p`.
pub fn check_match_at(s: &Vec<char>, pat: &Vec<char>, p: usize) -> (r: bool)
    requires
        p + pat@.len() <= s@.len(),
    ensures
        r == match_at(s@, pat@, p as int),
{
    let n = s.len();
    let m = pat.len();
    let mut k: usize = 0;
    while k < m
        invariant
            k <= m,
            m == pat@.len(),
            n == s@.len(),
            p + m <= n,
            forall|j: int| 0 <= j < k ==> s@[p + j] == pat@[j],
        decreases m - k,
    {
        if s[p + k] != pat[k] {
            assert(!match_at(s@, pat@, p as int));
            return false;
        }
        k += 1;
    }
    true
}

/// A successful forward scan really stands at its reported position.
proof fn lemma_first_from_some(s: Seq<char>, pat: Seq<char>, i: int, p: int)
    requires
        find_first_from(s, pat, i) == Some(p),
    ensures
        match_at(s, pat, p),
        i <= p,
    decreases s.len() - i + 1,
{
    if i < 0 || i + pat.len() > s.len() {
    } else if match_at(s, pat, i) {
    } else {
        lemma_first_from_some(s, pat, i + 1, p);
    }
}

/// A successful backward scan really stands at its reported position.
proof fn lemma_last_before_some(s: Seq<char>, pat: Seq<char>, i: int, p: int)
    requires
        find_last_before(s, pat, i) == Some(p),
    ensures
        match_at(s, pat, p),
        p + pat.len() <= s.len(),
        p <= i,
    decreases i + 1,
{
    if i < 0 {
    } else if i + pat.len() <= s.len() && match_at(s, pat, i) {
    } else {
        lemma_last_before_some(s, pat, i - 1, p);
    }
}

/// Finds the first occurrence of `pat` in `s`, scanning left to right.
pub fn find_first_sub(s: &Vec<char>, pat: &Vec<char>) -> (r: Option<usize>)
    requires
        pat@.len() >= 1,
    ensures
        match r {
            Some(p) => spec_find_first(s@, pat@) == Some(p as int),
            None => spec_find_first(s@, pat@) is None,
        },
{
    if pat.len() > s.len() {
        return None;
    }
    let n = s.len();
    let m = pat.len();
    let hi = n - m;
    let mut p: usize = 0;
    while p <= hi
        invariant
            m == pat@.len(),
            n == s@.len(),
            1 <= m <= n,
            hi == n - m,
            p <= hi + 1,
            spec_find_first(s@, pat@) == find_first_from(s@, pat@, p as int),
        decreases hi + 1 - p,
    {
        if check_match_at(s, pat, p) {
            return Some(p);
        }
        p += 1;
    }
    None
}

/// Finds the last occurrence of `pat` in `s`, scanning right to left.
pub fn find_last_sub(s: &Vec<char>, pat: &Vec<char>) -> (r: Option<usize>)
    requires
        pat@.len() >= 1,
    ensures
        match r {
            Some(p) => spec_find_last(s@, pat@) == Some(p as int),
            None => spec_find_last(s@, pat@) is None,
        },
{
    if pat.len() > s.len() {
        return None;
    }
    let mut p: usize = s.len() - pat.len();
    loop
        invariant
            pat@.len() >= 1,
            pat@.len() <= s@.len(),
            p + pat@.len() <= s@.len(),
            spec_find_last(s@, pat@) == find_last_before(s@, pat@, p as int),
        decreases p,
    {
        if check_match_at(s, pat, p) {
            return Some(p);
        }
        if p == 0 {
            proof {
                assert(find_last_before(s@, pat@, -1) is None);
                assert(find_last_before(s@, pat@, 0) is None);
            }
            return None;
        }
        p -= 1;
    }
}

/// Whether `s` holds `pat` anywhere.
pub fn contains_sub(s: &str, pat: &str) -> (r: bool)
    requires
        pat@.len() >= 1,
    ensures
        r == spec_contains(s@, pat@),
{
    let sv = chars_of(s);
    let pv = chars_of(pat);
    find_first_sub(&sv, &pv).is_some()
}

/// Whether `s` begins with `pat`.
pub fn has_prefix(s: &str, pat: &str) -> (r: bool)
    ensures
        r == match_at(s@, pat@, 0),
{
    let sv = chars_of(s);
    let pv = chars_of(pat);
    if pv.len() > sv.len() {
        return false;
    }
    check_match_at(&sv, &pv, 0)
}

/// Whether `s` ends with `pat`.
pub fn has_suffix(s: &str, pat: &str) -> (r: bool)
    ensures
        r == (s@.len() >= pat@.len() && match_at(s@, pat@, s@.len() - pat@.len())),
{
    let sv = chars_of(s);
    let pv = chars_of(pat);
    if pv.len() > sv.len() {
        return false;
    }
    check_match_at(&sv, &pv, sv.len() - pv.len())
}

/// Index of the first character at or after `i` that is not a space.
pub open spec fn skip_spaces(s: Seq<char>, i: int) -> int
    decreases s.len() - i + 1,
{
    if i < 0 || i >= s.len() || !is_space(s[i]) {
        i
    } else {
        skip_spaces(s, i + 1)
    }
}

/// Index just after the last character before `i` that is not a space.
pub open spec fn rskip_spaces(s: Seq<char>, i: int) -> int
    decreases i + 1,
{
    if i <= 0 || i > s.len() || !is_space(s[i - 1]) {
        i
    } else {
        rskip_spaces(s, i - 1)
    }
}

/// What trimming a string returns: the text between the leading and the
/// trailing run of spaces, empty when there is nothing else.
pub open spec fn spec_trim(s: Seq<char>) -> Seq<char> {
    let a = skip_spaces(s, 0);
    let b = rskip_spaces(s, s.len() as int);
    if a <= b {
        s.subrange(a, b)
    } else {
        Seq::empty()
    }
}

pub fn is_space_char(c: char) -> (r: bool)
    ensures
        r == is_space(c),
{
    c == ' ' || c == '\t' || c == '\n' || c == '\r' || c == '\u{c}'
}

/// Trims leading and trailing spaces off a string.
pub fn trim_str(s: &str) -> (r: String)
    ensures
        r@ == spec_trim(s@),
{
    let v = chars_of(s);
    let n = v.len();
    let mut a: usize = 0;
    while a < n && is_space_char(v[a])
        invariant
            a <= n,
            n == s@.len(),
            v@ == s@,
            skip_spaces(s@, 0) == skip_spaces(s@, a as int),
        decreases n - a,
    {
        a += 1;
    }
    assert(skip_spaces(s@, a as int) == a as int);
    let mut b: usize = n;
    while b > 0 && is_space_char(v[b - 1])
        invariant
            b <= n,
            n == s@.len(),
            v@ == s@,
            rskip_spaces(s@, n as int) == rskip_spaces(s@, b as int),
        decreases b,
    {
        b -= 1;
    }
    assert(rskip_spaces(s@, b as int) == b as int);
    if a <= b {
        String::from_str(s.substring_char(a, b))
    } else {
        String::new()
    }
}

/// The text before the first occurrence of `sep`; the whole string when
/// `sep` does not occur.
pub open spec fn spec_before_first(s: Seq<char>, sep: Seq<char>) -> Seq<char> {
    match spec_find_first(s, sep) {
        Some(p) => s.take(p),
        None => s,
    }
}

/// The text after the last occurrence of `sep`; the whole string when
/// `sep` does not occur.
pub open spec fn spec_after_last(s: Seq<char>, sep: Seq<char>) -> Seq<char> {
    match spec_find_last(s, sep) {
        Some(p) => s.subrange(p + sep.len(), s.len() as int),
        None => s,
    }
}

/// Splits a string at an outer separator: the piece before the first
/// occurrence, the piece after the last occurrence, and whether the
/// separator occurred at all.
pub fn split_outer(s: &str, sep: &str) -> (r: (String, String, bool))
    requires
        sep@.len() >= 1,
    ensures
        r.0@ == spec_before_first(s@, sep@),
        r.1@ == spec_after_last(s@, sep@),
        r.2 == spec_contains(s@, sep@),
{
    let sv = chars_of(s);
    let pv = chars_of(sep);
    let first = find_first_sub(&sv, &pv);
    match first {
        None => {
            proof {
                lemma_first_none_implies_last_none(s@, sep@);
            }
            (String::from_str(s), String::from_str(s), false)
        },
        Some(p) => {
            proof {
                lemma_first_from_some(s@, sep@, 0, p as int);
                lemma_last_some(s@, sep@, s@.len() - sep@.len(), p as int);
            }
            let last = find_last_sub(&sv, &pv);
            let q = last.unwrap();
            proof {
                lemma_last_before_some(s@, sep@, s@.len() - sep@.len(), q as int);
            }
            let n = sv.len();
            let head = String::from_str(s.substring_char(0, p));
            let tail = String::from_str(s.substring_char(q + pv.len(), n));
            proof {
                assert(s@.take(p as int) =~= s@.subrange(0, p as int));
            }
            (head, tail, true)
        },
    }
}

/// If nothing matches scanning forward, nothing matches anywhere.
proof fn lemma_first_none_implies_last_none(s: Seq<char>, pat: Seq<char>)
    requires
        spec_find_first(s, pat) is None,
    ensures
        spec_find_last(s, pat) is None,
{
    lemma_first_from_none(s, pat, 0);
    lemma_last_none(s, pat, s.len() - pat.len());
}

proof fn lemma_first_from_none(s: Seq<char>, pat: Seq<char>, i: int)
    requires
        find_first_from(s, pat, i) is None,
        i >= 0,
    ensures
        forall|p: int| i <= p ==> !match_at(s, pat, p),
    decreases s.len() - i + 1,
{
    if i + pat.len() <= s.len() {
        lemma_first_from_none(s, pat, i + 1);
    } else {
        assert forall|p: int| i <= p implies !match_at(s, pat, p) by {}
    }
}

proof fn lemma_last_none(s: Seq<char>, pat: Seq<char>, i: int)
    requires
        forall|p: int| 0 <= p ==> !match_at(s, pat, p),
    ensures
        find_last_before(s, pat, i) is None,
    decreases i + 1,
{
    if i >= 0 {
        lemma_last_none(s, pat, i - 1);
    }
}

/// A match anywhere at or before `i` makes the backward scan succeed.
proof fn lemma_last_some(s: Seq<char>, pat: Seq<char>, i: int, p: int)
    requires
        match_at(s, pat, p),
        p + pat.len() <= s.len(),
        p <= i,
    ensures
        find_last_before(s, pat, i) is Some,
    decreases i + 1,
{
    if i > p && !(i + pat.len() <= s.len() && match_at(s, pat, i)) {
        lemma_last_some(s, pat, i - 1, p);
    }
}


/// End of the run of digits starting at `i`.
pub open spec fn digit_run_end(s: Seq<char>, i: int) -> int
    decreases s.len() - i + 1,
{
    if i < 0 || i >= s.len() || !is_digit(s[i]) {
        i
    } else {
        digit_run_end(s, i + 1)
    }
}

/// A fullness pattern `<digits>/<digits>` begins at `p`.
pub open spec fn fullness_at(s: Seq<char>, p: int) -> bool {
    &&& 0 <= p < s.len()
    &&& is_digit(s[p])
    &&& digit_run_end(s, p) < s.len()
    &&& s[digit_run_end(s, p)] == '/'
    &&& digit_run_end(s, p) + 1 < s.len()
    &&& is_digit(s[digit_run_end(s, p) + 1])
}

/// First position at or after `i` where a fullness pattern begins.
pub open spec fn first_fullness_from(s: Seq<char>, i: int) -> Option<int>
    decreases s.len() - i + 1,
{
    if i < 0 || i >= s.len() {
        None
    } else if fullness_at(s, i) {
        Some(i)
    } else {
        first_fullness_from(s, i + 1)
    }
}

/// The waitlist count after the capacity run ending at `e2`: a
/// parenthesized digit run after optional spaces; zero when it is absent
/// or does not fit.
pub open spec fn spec_waitlist(s: Seq<char>, e2: int) -> nat {
    let w = skip_spaces(s, e2);
    if w < s.len() && s[w] == '(' && w + 1 < s.len() && is_digit(s[w + 1]) && digit_run_end(
        s,
        w + 1,
    ) < s.len() && s[digit_run_end(s, w + 1)] == ')' {
        let v = digits_val(s.subrange(w + 1, digit_run_end(s, w + 1)));
        if v <= u32::MAX {
            v
        } else {
            0
        }
    } else {
        0
    }
}

/// What scanning an availability fullness string returns: at the first
/// position where `<enrolled>/<capacity>` stands, the two runs read as
/// numbers, and the optional parenthesized waitlist count after them;
/// no such position, or a run that exceeds `u32::MAX`, rejects the text.
pub open spec fn spec_fullness(s: Seq<char>) -> Option<(u32, u32, u32)> {
    match first_fullness_from(s, 0) {
        None => None,
        Some(p) => {
            let e1 = digit_run_end(s, p);
            let e2 = digit_run_end(s, e1 + 1);
            let ev = digits_val(s.subrange(p, e1));
            let cv = digits_val(s.subrange(e1 + 1, e2));
            if ev <= u32::MAX && cv <= u32::MAX {
                Some((ev as u32, cv as u32, spec_waitlist(s, e2) as u32))
            } else {
                None
            }
        },
    }
}

/// Everything in the digit run is a digit, and the run is bounded.
pub proof fn lemma_digit_run(s: Seq<char>, i: int)
    requires
        0 <= i <= s.len(),
    ensures
        i <= digit_run_end(s, i) <= s.len(),
        forall|j: int| i <= j < digit_run_end(s, i) ==> is_digit(s[j]),
    decreases s.len() - i,
{
    if i < s.len() && is_digit(s[i]) {
        lemma_digit_run(s, i + 1);
    }
}

fn is_digit_char(c: char) -> (r: bool)
    ensures
        r == is_digit(c),
{
    let u = c as u32;
    48 <= u && u <= 57
}

/// End of the digit run starting at `i`, scanned forward.
fn digit_run_end_x(v: &Vec<char>, i: usize) -> (r: usize)
    requires
        i <= v@.len(),
    ensures
        r as int == digit_run_end(v@, i as int),
        i <= r <= v@.len(),
{
    let n = v.len();
    let mut j = i;
    while j < n && is_digit_char(v[j])
        invariant
            i <= j <= n,
            n == v@.len(),
            digit_run_end(v@, i as int) == digit_run_end(v@, j as int),
        decreases n - j,
    {
        j += 1;
    }
    proof {
        lemma_digit_run(v@, i as int);
    }
    j
}

/// First non-space position at or after `i`, scanned forward.
fn skip_spaces_x(v: &Vec<char>, i: usize) -> (r: usize)
    requires
        i <= v@.len(),
    ensures
        r as int == skip_spaces(v@, i as int),
        i <= r <= v@.len(),
{
    let n = v.len();
    let mut j = i;
    while j < n && is_space_char(v[j])
        invariant
            i <= j <= n,
            n == v@.len(),
            skip_spaces(v@, i as int) == skip_spaces(v@, j as int),
        decreases n - j,
    {
        j += 1;
    }
    proof {
        lemma_skip_spaces(v@, i as int);
    }
    j
}

proof fn lemma_skip_spaces(s: Seq<char>, i: int)
    requires
        0 <= i <= s.len(),
    ensures
        i <= skip_spaces(s, i) <= s.len(),
    decreases s.len() - i,
{
    if i < s.len() && is_space(s[i]) {
        lemma_skip_spaces(s, i + 1);
    }
}

/// Scans a fullness string, exactly as `spec_fullness` describes.
pub fn scan_fullness(s: &str) -> (r: Option<(u32, u32, u32)>)
    ensures
        r == spec_fullness(s@),
{
    let v = chars_of(s);
    let n = v.len();
    let mut p: usize = 0;
    while p < n
        invariant
            p <= n,
            n == v@.len(),
            v@ == s@,
            first_fullness_from(s@, 0) == first_fullness_from(s@, p as int),
        decreases n - p,
    {
        if is_digit_char(v[p]) {
            let e1 = digit_run_end_x(&v, p);
            if e1 < n && v[e1] == '/' && e1 + 1 < n && is_digit_char(v[e1 + 1]) {
                assert(fullness_at(s@, p as int));
                let e2 = digit_run_end_x(&v, e1 + 1);
                proof {
                    lemma_digit_run(s@, p as int);
                    lemma_digit_run(s@, e1 + 1);
                }
                let enrolled = match digits_run_val(&v, p, e1) {
                    Some(x) => x,
                    None => {
                        return None;
                    },
                };
                let capacity = match digits_run_val(&v, e1 + 1, e2) {
                    Some(x) => x,
                    None => {
                        return None;
                    },
                };
                let w = skip_spaces_x(&v, e2);
                let mut waitlisted: u32 = 0;
                if w < n && v[w] == '(' && w + 1 < n && is_digit_char(v[w + 1]) {
                    let e3 = digit_run_end_x(&v, w + 1);
                    if e3 < n && v[e3] == ')' {
                        proof {
                            lemma_digit_run(s@, w + 1);
                        }
                        match digits_run_val(&v, w + 1, e3) {
                            Some(x) => {
                                waitlisted = x;
                            },
                            None => {},
                        }
                    }
                }
                return Some((enrolled, capacity, waitlisted));
            }
        }
        assert(!fullness_at(s@, p as int));
        p += 1;
    }
    None
}


} // verus!
