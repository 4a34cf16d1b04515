//! Text as sequences of characters: trimming, splitting, case folding,
//! decimal and hexadecimal notation, ordering.

use vstd::prelude::*;

verus! {

/// `String::push` appends one character.
pub assume_specification[ String::push ](s: &mut String, c: char)
    ensures
        final(s)@ == old(s)@.push(c),
;

/// The Unicode `White_Space` property.
pub open spec fn is_space(c: char) -> bool {
    ||| 0x9 <= c as u32 <= 0xd
    ||| c as u32 == 0x20
    ||| c as u32 == 0x85
    ||| c as u32 == 0xa0
    ||| c as u32 == 0x1680
    ||| 0x2000 <= c as u32 <= 0x200a
    ||| c as u32 == 0x2028
    ||| c as u32 == 0x2029
    ||| c as u32 == 0x202f
    ||| c as u32 == 0x205f
    ||| c as u32 == 0x3000
}

/// A set of characters that text is trimmed of or split at.
#[derive(Debug, Clone, Copy, PartialEq, Eq)]
pub enum CharClass {
    /// Every white-space character.
    Space,
    /// White space, and the marks that may stand between pulse items.
    PulseGap,
    /// One character.
    Only(char),
}

impl CharClass {
    pub open spec fn has(self, c: char) -> bool {
        match self {
            CharClass::Space => is_space(c),
            CharClass::PulseGap => is_space(c) || c == ',' || c == ';' || c == '|',
            CharClass::Only(d) => c == d,
        }
    }

    pub fn contains(self, c: char) -> (r: bool)
        ensures
            r == self.has(c),
    {
        match self {
            CharClass::Space => space(c),
            CharClass::PulseGap => space(c) || c == ',' || c == ';' || c == '|',
            CharClass::Only(d) => c == d,
        }
    }
}

/// Whether `c` is a white-space character.
pub fn space(c: char) -> (r: bool)
    ensures
        r == is_space(c),
{
    let n: u32 = c as u32;
    (0x9 <= n && n <= 0xd) || n == 0x20 || n == 0x85 || n == 0xa0 || n == 0x1680 || (0x2000 <= n && n
        <= 0x200a) || n == 0x2028 || n == 0x2029 || n == 0x202f || n == 0x205f || n == 0x3000
}

/// `s` without its leading characters of `k`.
pub open spec fn trim_start(s: Seq<char>, k: CharClass) -> Seq<char>
    decreases s.len(),
{
    if s.len() > 0 && k.has(s[0]) {
        trim_start(s.drop_first(), k)
    } else {
        s
    }
}

/// `s` without its trailing characters of `k`.
pub open spec fn trim_end(s: Seq<char>, k: CharClass) -> Seq<char>
    decreases s.len(),
{
    if s.len() > 0 && k.has(s.last()) {
        trim_end(s.drop_last(), k)
    } else {
        s
    }
}

/// `s` without its leading and trailing characters of `k`.
pub open spec fn trim(s: Seq<char>, k: CharClass) -> Seq<char> {
    trim_end(trim_start(s, k), k)
}

/// Trimming the start leaves an end of the text, which does not begin with a
/// character of the class.
pub proof fn lemma_trim_start_facts(s: Seq<char>, k: CharClass)
    ensures
        trim_start(s, k).len() <= s.len(),
        trim_start(s, k) == s.skip(s.len() - trim_start(s, k).len()),
        trim_start(s, k).len() > 0 ==> !k.has(trim_start(s, k)[0]),
    decreases s.len(),
{
    if s.len() > 0 && k.has(s[0]) {
        let t = s.drop_first();
        lemma_trim_start_facts(t, k);
        let n = trim_start(t, k).len();
        assert(t.skip(t.len() - n) =~= s.skip(s.len() - n));
    } else {
        assert(s.skip(0) =~= s);
    }
}

/// Trimming the end leaves a start of the text, which does not end with a
/// character of the class.
pub proof fn lemma_trim_end_facts(s: Seq<char>, k: CharClass)
    ensures
        trim_end(s, k).len() <= s.len(),
        trim_end(s, k) == s.take(trim_end(s, k).len() as int),
        trim_end(s, k).len() > 0 ==> !k.has(trim_end(s, k).last()),
    decreases s.len(),
{
    if s.len() > 0 && k.has(s.last()) {
        let t = s.drop_last();
        lemma_trim_end_facts(t, k);
        let n = trim_end(t, k).len() as int;
        assert(t.take(n) =~= s.take(n));
    } else {
        assert(s.take(s.len() as int) =~= s);
    }
}

/// A trimmed text neither begins nor ends with a character of the class.
pub proof fn lemma_trim_facts(s: Seq<char>, k: CharClass)
    ensures
        trim(s, k).len() > 0 ==> !k.has(trim(s, k)[0]) && !k.has(trim(s, k).last()),
{
    lemma_trim_start_facts(s, k);
    lemma_trim_end_facts(trim_start(s, k), k);
}

/// The characters of a string.
pub fn chars_of(s: &str) -> (r: Vec<char>)
    ensures
        r@ == s@,
{
    let mut r: Vec<char> = Vec::new();
    for c in it: s.chars()
        invariant
            r@ == it.seq().take(it.index() as int),
            it.seq() == s@,
    {
        proof {
            assert(it.seq().take(it.index() as int + 1) =~= it.seq().take(it.index() as int).push(c));
        }
        r.push(c);
    }
    assert(s@.take(s@.len() as int) =~= s@);
    r
}

/// The string that `v[from..to]` spells.
pub fn string_of(v: &Vec<char>, from: usize, to: usize) -> (r: String)
    requires
        from <= to <= v@.len(),
    ensures
        r@ == v@.subrange(from as int, to as int),
{
    let mut r = String::new();
    let mut i: usize = from;
    while i < to
        invariant
            from <= i <= to <= v@.len(),
            r@ == v@.subrange(from as int, i as int),
        decreases to - i,
    {
        r.push(v[i]);
        assert(v@.subrange(from as int, i as int + 1) =~= v@.subrange(from as int, i as int).push(v@[i as int]));
        i += 1;
    }
    r
}

proof fn lemma_trim_start_window(s: Seq<char>, k: CharClass, i: int)
    requires
        0 <= i <= s.len(),
        forall|j: int| 0 <= j < i ==> k.has(s[j]),
        i < s.len() ==> !k.has(s[i]),
    ensures
        trim_start(s, k) == s.subrange(i, s.len() as int),
    decreases i,
{
    if i == 0 {
        assert(s.subrange(0, s.len() as int) =~= s);
    } else {
        let t = s.drop_first();
        assert forall|j: int| 0 <= j < i - 1 implies k.has(t[j]) by {
            assert(t[j] == s[j + 1]);
        }
        lemma_trim_start_window(t, k, i - 1);
        assert(t.subrange(i - 1, t.len() as int) =~= s.subrange(i, s.len() as int));
    }
}

proof fn lemma_trim_end_window(s: Seq<char>, k: CharClass, i: int)
    requires
        0 <= i <= s.len(),
        forall|j: int| i <= j < s.len() ==> k.has(s[j]),
        i > 0 ==> !k.has(s[i - 1]),
    ensures
        trim_end(s, k) == s.subrange(0, i),
    decreases s.len() - i,
{
    if i == s.len() {
        assert(s.subrange(0, i) =~= s);
    } else {
        assert(k.has(s[s.len() - 1]));
        let t = s.drop_last();
        lemma_trim_end_window(t, k, i);
        assert(t.subrange(0, i) =~= s.subrange(0, i));
    }
}

/// Trims the end of `s` of characters of `k`.
pub fn trim_end_matches<'a>(s: &'a str, k: CharClass) -> (r: &'a str)
    ensures
        r@ == trim_end(s@, k),
{
    let v = chars_of(s);
    let mut to: usize = v.len();
    while to > 0 && k.contains(v[to - 1])
        invariant
            to <= v@.len(),
            v@ == s@,
            forall|j: int| to <= j < v@.len() ==> k.has(v@[j]),
        decreases to,
    {
        to -= 1;
    }
    proof {
        lemma_trim_end_window(s@, k, to as int);
    }
    s.substring_char(0, to)
}

/// Trims the start of `s` of characters of `k`.
pub fn trim_start_matches<'a>(s: &'a str, k: CharClass) -> (r: &'a str)
    ensures
        r@ == trim_start(s@, k),
{
    let v = chars_of(s);
    let mut from: usize = 0;
    while from < v.len() && k.contains(v[from])
        invariant
            from <= v@.len(),
            v@ == s@,
            forall|j: int| 0 <= j < from ==> k.has(v@[j]),
        decreases v@.len() - from,
    {
        from += 1;
    }
    proof {
        lemma_trim_start_window(s@, k, from as int);
    }
    s.substring_char(from, v.len())
}

/// Trims both ends of `s` of characters of `k`.
pub fn trim_matches<'a>(s: &'a str, k: CharClass) -> (r: &'a str)
    ensures
        r@ == trim(s@, k),
{
    trim_end_matches(trim_start_matches(s, k), k)
}

/// `s` without leading and trailing white space.
pub open spec fn trimmed(s: Seq<char>) -> Seq<char> {
    trim(s, CharClass::Space)
}

/// Trims white space off both ends of `s`.
pub fn trim_text<'a>(s: &'a str) -> (r: &'a str)
    ensures
        r@ == trimmed(s@),
{
    trim_matches(s, CharClass::Space)
}

/// Whether two strings hold the same characters.
pub fn same_text(a: &str, b: &str) -> (r: bool)
    ensures
        r == (a@ == b@),
{
    let v = chars_of(a);
    let w = chars_of(b);
    if v.len() != w.len() {
        return false;
    }
    let mut i: usize = 0;
    while i < v.len()
        invariant
            v@ == a@,
            w@ == b@,
            v@.len() == w@.len(),
            i <= v@.len(),
            forall|j: int| 0 <= j < i ==> v@[j] == w@[j],
        decreases v@.len() - i,
    {
        if v[i] != w[i] {
            assert(a@[i as int] != b@[i as int]);
            return false;
        }
        i += 1;
    }
    assert(a@ =~= b@);
    true
}

/// The lower-case form of an ASCII letter, and every other character itself.
pub open spec fn lower_char(c: char) -> char {
    if 'A' <= c <= 'Z' {
        ((c as u32 + 32) as u32) as char
    } else {
        c
    }
}

/// The upper-case form of an ASCII letter, and every other character itself.
pub open spec fn upper_char(c: char) -> char {
    if 'a' <= c <= 'z' {
        ((c as u32 - 32) as u32) as char
    } else {
        c
    }
}

/// `s` with its ASCII letters in lower case.
pub open spec fn lower(s: Seq<char>) -> Seq<char> {
    Seq::new(s.len(), |i: int| lower_char(s[i]))
}

/// `s` with its ASCII letters in upper case.
pub open spec fn upper(s: Seq<char>) -> Seq<char> {
    Seq::new(s.len(), |i: int| upper_char(s[i]))
}

/// Whether two texts are the same up to the case of their ASCII letters.
pub open spec fn alike(a: Seq<char>, b: Seq<char>) -> bool {
    lower(a) == lower(b)
}

/// Texts that are alike have the same upper-case form, and no others.
pub proof fn lemma_alike(a: Seq<char>, b: Seq<char>)
    ensures
        alike(a, b) <==> upper(a) == upper(b),
{
    if alike(a, b) {
        assert(lower(a).len() == lower(b).len());
        assert forall|i: int| 0 <= i < a.len() implies upper(a)[i] == upper(b)[i] by {
            assert(lower(a)[i] == lower(b)[i]);
        }
        assert(upper(a) =~= upper(b));
    }
    if upper(a) == upper(b) {
        assert(upper(a).len() == upper(b).len());
        assert forall|i: int| 0 <= i < a.len() implies lower(a)[i] == lower(b)[i] by {
            assert(upper(a)[i] == upper(b)[i]);
        }
        assert(lower(a) =~= lower(b));
    }
}

pub fn to_lower_char(c: char) -> (r: char)
    ensures
        r == lower_char(c),
{
    if 'A' <= c && c <= 'Z' {
        (c as u8 + 32) as char
    } else {
        c
    }
}

pub fn to_upper_char(c: char) -> (r: char)
    ensures
        r == upper_char(c),
{
    if 'a' <= c && c <= 'z' {
        (c as u8 - 32) as char
    } else {
        c
    }
}

/// Folds the ASCII letters of `s` to lower case.
pub fn to_lower(s: &str) -> (r: String)
    ensures
        r@ == lower(s@),
{
    let v = chars_of(s);
    let mut r = String::new();
    let mut i: usize = 0;
    while i < v.len()
        invariant
            v@ == s@,
            i <= v@.len(),
            r@ == lower(s@).take(i as int),
        decreases v@.len() - i,
    {
        r.push(to_lower_char(v[i]));
        assert(lower(s@).take(i + 1) =~= lower(s@).take(i as int).push(lower_char(s@[i as int])));
        i += 1;
    }
    assert(lower(s@).take(s@.len() as int) =~= lower(s@));
    r
}

/// Folds the ASCII letters of `s` to upper case.
pub fn to_upper(s: &str) -> (r: String)
    ensures
        r@ == upper(s@),
{
    let v = chars_of(s);
    let mut r = String::new();
    let mut i: usize = 0;
    while i < v.len()
        invariant
            v@ == s@,
            i <= v@.len(),
            r@ == upper(s@).take(i as int),
        decreases v@.len() - i,
    {
        r.push(to_upper_char(v[i]));
        assert(upper(s@).take(i + 1) =~= upper(s@).take(i as int).push(upper_char(s@[i as int])));
        i += 1;
    }
    assert(upper(s@).take(s@.len() as int) =~= upper(s@));
    r
}

/// Whether `s` begins with `p`.
pub open spec fn has_prefix(s: Seq<char>, p: Seq<char>) -> bool {
    p.len() <= s.len() && s.take(p.len() as int) == p
}

pub fn starts_with(s: &str, p: &str) -> (r: bool)
    ensures
        r == has_prefix(s@, p@),
{
    let n: usize = s.unicode_len();
    let m: usize = p.unicode_len();
    m <= n && same_text(s.substring_char(0, m), p)
}

/// Whether `p` stands in `s` at position `i`.
pub open spec fn stands_at(s: Seq<char>, p: Seq<char>, i: int) -> bool {
    0 <= i && i + p.len() <= s.len() && s.subrange(i, i + p.len()) == p
}

/// Whether `p` occurs in `s`.
pub open spec fn occurs(s: Seq<char>, p: Seq<char>) -> bool {
    exists|i: int| stands_at(s, p, i)
}

/// The first position at which `p` stands in `s`.
pub fn find_text(s: &str, p: &str) -> (r: Option<usize>)
    ensures
        match r {
            Some(i) => stands_at(s@, p@, i as int) && forall|j: int| 0 <= j < i ==> !stands_at(s@, p@, j),
            None => !occurs(s@, p@),
        },
{
    let n: usize = s.unicode_len();
    let m: usize = p.unicode_len();
    if m > n {
        return None;
    }
    let mut i: usize = 0;
    while i <= n - m
        invariant
            n == s@.len(),
            m == p@.len(),
            m <= n,
            i <= n - m + 1,
            forall|j: int| 0 <= j < i ==> !stands_at(s@, p@, j),
        decreases n - m + 1 - i,
    {
        if same_text(s.substring_char(i, i + m), p) {
            return Some(i);
        }
        if i == n - m {
            return None;
        }
        i += 1;
    }
    None
}

pub fn contains_text(s: &str, p: &str) -> (r: bool)
    ensures
        r == occurs(s@, p@),
{
    find_text(s, p).is_some()
}

/// The first position of `c` in `s`, or the length of `s`.
pub open spec fn first_at(s: Seq<char>, c: char) -> int
    decreases s.len(),
{
    if s.len() == 0 || s[0] == c {
        0
    } else {
        1 + first_at(s.drop_first(), c)
    }
}

/// The last position of `c` in `s`, or -1.
pub open spec fn last_at(s: Seq<char>, c: char) -> int
    decreases s.len(),
{
    if s.len() == 0 || s.last() == c {
        s.len() - 1
    } else {
        last_at(s.drop_last(), c)
    }
}

/// `first_at` is the least position that holds `c`.
pub proof fn lemma_first_at(s: Seq<char>, c: char, i: int)
    requires
        0 <= i <= s.len(),
        forall|j: int| 0 <= j < i ==> s[j] != c,
        i < s.len() ==> s[i] == c,
    ensures
        first_at(s, c) == i,
    decreases i,
{
    if i > 0 {
        let t = s.drop_first();
        assert forall|j: int| 0 <= j < i - 1 implies t[j] != c by {
            assert(t[j] == s[j + 1]);
        }
        assert(s[0] != c);
        lemma_first_at(t, c, i - 1);
    }
}

/// `last_at` is the greatest position that holds `c`.
pub proof fn lemma_last_at(s: Seq<char>, c: char, i: int)
    requires
        -1 <= i < s.len(),
        forall|j: int| i < j < s.len() ==> s[j] != c,
        i >= 0 ==> s[i] == c,
    ensures
        last_at(s, c) == i,
    decreases s.len() - i,
{
    if i < s.len() - 1 {
        assert(s[s.len() - 1] != c);
        lemma_last_at(s.drop_last(), c, i);
    }
}

/// What `first_at` says of the characters before it and at it.
pub proof fn lemma_first_at_facts(s: Seq<char>, c: char)
    ensures
        0 <= first_at(s, c) <= s.len(),
        forall|j: int| 0 <= j < first_at(s, c) ==> s[j] != c,
        first_at(s, c) < s.len() ==> s[first_at(s, c)] == c,
    decreases s.len(),
{
    if s.len() > 0 && s[0] != c {
        let t = s.drop_first();
        lemma_first_at_facts(t, c);
        assert forall|j: int| 0 <= j < first_at(s, c) implies s[j] != c by {
            if j > 0 {
                assert(t[j - 1] == s[j]);
            }
        }
        assert(first_at(t, c) < t.len() ==> t[first_at(t, c)] == s[first_at(t, c) + 1]);
    }
}

/// What `last_at` says of the characters after it and at it.
pub proof fn lemma_last_at_facts(s: Seq<char>, c: char)
    ensures
        -1 <= last_at(s, c) < s.len(),
        forall|j: int| last_at(s, c) < j < s.len() ==> s[j] != c,
        last_at(s, c) >= 0 ==> s[last_at(s, c)] == c,
    decreases s.len(),
{
    if s.len() > 0 && s.last() != c {
        let t = s.drop_last();
        lemma_last_at_facts(t, c);
        assert forall|j: int| last_at(s, c) < j < s.len() implies s[j] != c by {
            if j < s.len() - 1 {
                assert(t[j] == s[j]);
            }
        }
    }
}

pub fn find_char(s: &str, c: char) -> (r: usize)
    ensures
        r == first_at(s@, c),
        r <= s@.len(),
{
    let v = chars_of(s);
    let mut i: usize = 0;
    while i < v.len() && v[i] != c
        invariant
            v@ == s@,
            i <= v@.len(),
            forall|j: int| 0 <= j < i ==> v@[j] != c,
        decreases v@.len() - i,
    {
        i += 1;
    }
    proof {
        lemma_first_at(s@, c, i as int);
    }
    i
}

pub fn find_last_char(s: &str, c: char) -> (r: Option<usize>)
    ensures
        match r {
            Some(i) => i == last_at(s@, c) && i < s@.len(),
            None => last_at(s@, c) == -1,
        },
{
    let v = chars_of(s);
    let mut n: usize = v.len();
    while n > 0 && v[n - 1] != c
        invariant
            v@ == s@,
            n <= v@.len(),
            forall|j: int| n <= j < v@.len() ==> v@[j] != c,
        decreases n,
    {
        n -= 1;
    }
    proof {
        lemma_last_at(s@, c, n - 1);
    }
    if n == 0 {
        None
    } else {
        Some(n - 1)
    }
}

/// The pieces of `s` between occurrences of `c`.
pub open spec fn split(s: Seq<char>, c: char) -> Seq<Seq<char>>
    decreases s.len(),
{
    let at = first_at(s, c);
    if 0 <= at < s.len() {
        seq![s.take(at)] + split(s.skip(at + 1), c)
    } else {
        seq![s]
    }
}

/// How often `c` occurs in `s`.
pub open spec fn count(s: Seq<char>, c: char) -> nat
    decreases s.len(),
{
    if s.len() == 0 {
        0
    } else {
        count(s.drop_first(), c) + if s[0] == c {
            1nat
        } else {
            0
        }
    }
}

/// What stands before the first `c` does not count.
pub proof fn lemma_count_from(s: Seq<char>, c: char, k: int)
    requires
        0 <= k <= s.len(),
        forall|j: int| 0 <= j < k ==> s[j] != c,
    ensures
        count(s, c) == count(s.skip(k), c),
    decreases k,
{
    if k == 0 {
        assert(s.skip(0) =~= s);
    } else {
        let t = s.drop_first();
        assert(s[0] != c);
        assert forall|j: int| 0 <= j < k - 1 implies t[j] != c by {
            assert(t[j] == s[j + 1]);
        }
        lemma_count_from(t, c, k - 1);
        assert(t.skip(k - 1) =~= s.skip(k));
    }
}

/// There is one piece more than there are separators.
pub proof fn lemma_split_count(s: Seq<char>, c: char)
    ensures
        split(s, c).len() == count(s, c) + 1,
    decreases s.len(),
{
    let at = first_at(s, c);
    lemma_first_at_facts(s, c);
    lemma_count_from(s, c, at);
    let rest = s.skip(at);
    if at < s.len() {
        assert(rest[0] == c);
        assert(rest.drop_first() =~= s.skip(at + 1));
        lemma_split_count(s.skip(at + 1), c);
    } else {
        assert(rest.len() == 0);
    }
}

/// What stands before the first `c`, or all of `s`.
pub open spec fn head(s: Seq<char>, c: char) -> Seq<char> {
    s.take(first_at(s, c))
}

/// What follows the first `c`; nothing where there is none.
pub open spec fn tail(s: Seq<char>, c: char) -> Seq<char> {
    if first_at(s, c) < s.len() {
        s.skip(first_at(s, c) + 1)
    } else {
        seq![]
    }
}

/// Cuts `s` at the first `c`.
pub fn cut_text<'a>(s: &'a str, c: char) -> (r: (&'a str, &'a str))
    ensures
        r.0@ == head(s@, c),
        r.1@ == tail(s@, c),
{
    let n: usize = s.unicode_len();
    let at: usize = find_char(s, c);
    let before = s.substring_char(0, at);
    assert(before@ =~= s@.take(at as int));
    let after = if at < n {
        s.substring_char(at + 1, n)
    } else {
        s.substring_char(n, n)
    };
    assert(after@ =~= tail(s@, c));
    (before, after)
}

/// The first position at which `p` stands in `s`.
pub open spec fn found_at(s: Seq<char>, p: Seq<char>) -> Option<int>
    decreases s.len(),
{
    if stands_at(s, p, 0) {
        Some(0)
    } else if s.len() == 0 {
        None
    } else {
        match found_at(s.drop_first(), p) {
            Some(i) => Some(i + 1),
            None => None,
        }
    }
}

/// `found_at` is the least position at which `p` stands.
pub proof fn lemma_found_at(s: Seq<char>, p: Seq<char>, i: int)
    requires
        stands_at(s, p, i),
        forall|j: int| 0 <= j < i ==> !stands_at(s, p, j),
    ensures
        found_at(s, p) == Some(i),
    decreases i,
{
    if i > 0 {
        let t = s.drop_first();
        assert(!stands_at(s, p, 0));
        assert(t.subrange(i - 1, i - 1 + p.len()) =~= s.subrange(i, i + p.len()));
        assert forall|j: int| 0 <= j < i - 1 implies !stands_at(t, p, j) by {
            if stands_at(t, p, j) {
                assert(t.subrange(j, j + p.len()) =~= s.subrange(j + 1, j + 1 + p.len()));
                assert(stands_at(s, p, j + 1));
            }
        }
        lemma_found_at(t, p, i - 1);
    }
}

/// A text that does not occur is not found.
pub proof fn lemma_not_found(s: Seq<char>, p: Seq<char>)
    requires
        !occurs(s, p),
    ensures
        found_at(s, p) is None,
    decreases s.len(),
{
    assert(!stands_at(s, p, 0));
    if s.len() > 0 {
        let t = s.drop_first();
        if occurs(t, p) {
            let j = choose|j: int| stands_at(t, p, j);
            assert(t.subrange(j, j + p.len()) =~= s.subrange(j + 1, j + 1 + p.len()));
            assert(stands_at(s, p, j + 1));
        }
        lemma_not_found(t, p);
    }
}

/// The views of a list of strings.
pub open spec fn views(v: Seq<String>) -> Seq<Seq<char>> {
    Seq::new(v.len(), |i: int| v[i]@)
}

/// The text that an optional reference holds.
pub open spec fn some_text(s: Option<&str>) -> Option<Seq<char>> {
    match s {
        Some(t) => Some(t@),
        None => None,
    }
}

/// The text that an optional string holds.
pub open spec fn optional_text(s: Option<String>) -> Option<Seq<char>> {
    match s {
        Some(t) => Some(t@),
        None => None,
    }
}

/// A copy of an optional string.
pub fn copy_optional(s: &Option<String>) -> (r: Option<String>)
    ensures
        optional_text(r) == optional_text(*s),
{
    match s {
        Some(t) => Some(t.clone()),
        None => None,
    }
}

/// An optional string from an optional reference.
pub fn own_optional(s: Option<&str>) -> (r: Option<String>)
    ensures
        optional_text(r) == some_text(s),
{
    match s {
        Some(t) => Some(t.to_owned()),
        None => None,
    }
}

/// Whether two optional strings hold the same text.
pub fn same_optional(a: &Option<String>, b: &Option<String>) -> (r: bool)
    ensures
        r == (optional_text(*a) == optional_text(*b)),
{
    match (a, b) {
        (Some(x), Some(y)) => same_text(x.as_str(), y.as_str()),
        (None, None) => true,
        _ => false,
    }
}

/// Splits `s` at every `c`.
pub fn split_text(s: &str, c: char) -> (r: Vec<String>)
    ensures
        views(r@) == split(s@, c),
{
    let mut r: Vec<String> = Vec::new();
    let n: usize = s.unicode_len();
    let mut from: usize = 0;
    assert(s@.skip(0) =~= s@);
    assert(views(r@) =~= Seq::<Seq<char>>::empty());
    assert(Seq::<Seq<char>>::empty() + split(s@, c) =~= split(s@, c));
    loop
        invariant
            n == s@.len(),
            from <= n,
            views(r@) + split(s@.skip(from as int), c) == split(s@, c),
        decreases n - from,
    {
        let rest = s.substring_char(from, n);
        assert(rest@ =~= s@.skip(from as int));
        let at: usize = find_char(rest, c);
        let piece = rest.substring_char(0, at);
        let ghost before = views(r@);
        proof {
            lemma_first_at_facts(rest@, c);
        }
        r.push(piece.to_owned());
        assert(views(r@) =~= before.push(piece@));
        if at >= n - from {
            assert(piece@ =~= rest@);
            assert(before + seq![rest@] =~= before.push(rest@));
            return r;
        }
        proof {
            assert(piece@ =~= rest@.take(at as int));
            assert(rest@.skip(at + 1) =~= s@.skip(from + at + 1));
            let tail = split(rest@.skip(at + 1), c);
            assert(before + (seq![rest@.take(at as int)] + tail) =~= before.push(piece@) + tail);
        }
        from = from + at + 1;
    }
}

/// A first piece without `c` is split off whole.
pub proof fn lemma_split_first(a: Seq<char>, c: char, rest: Seq<char>)
    requires
        !a.contains(c),
    ensures
        split(a, c) == seq![a],
        split(a + seq![c] + rest, c) == seq![a] + split(rest, c),
{
    lemma_first_at_facts(a, c);
    let s = a + seq![c] + rest;
    assert forall|j: int| 0 <= j < a.len() implies s[j] != c by {
        assert(a.contains(a[j]));
        assert(s[j] == a[j]);
    }
    lemma_first_at(s, c, a.len() as int);
    assert(s.take(a.len() as int) =~= a);
    assert(s.skip(a.len() as int + 1) =~= rest);
}

/// How many characters at the start of `s` are outside `k`.
pub open spec fn run(s: Seq<char>, k: CharClass) -> nat
    decreases s.len(),
{
    if s.len() == 0 || k.has(s[0]) {
        0
    } else {
        1 + run(s.drop_first(), k)
    }
}

/// A stretch does not reach past its text.
pub proof fn lemma_run_bound(s: Seq<char>, k: CharClass)
    ensures
        run(s, k) <= s.len(),
    decreases s.len(),
{
    if s.len() > 0 && !k.has(s[0]) {
        lemma_run_bound(s.drop_first(), k);
    }
}

proof fn lemma_run(s: Seq<char>, k: CharClass, n: int)
    requires
        0 <= n <= s.len(),
        forall|i: int| 0 <= i < n ==> !k.has(#[trigger] s[i]),
        n < s.len() ==> k.has(s[n]),
    ensures
        run(s, k) == n,
    decreases n,
{
    if n > 0 {
        let t = s.drop_first();
        assert(!k.has(s[0]));
        assert forall|i: int| 0 <= i < n - 1 implies !k.has(#[trigger] t[i]) by {
            assert(t[i] == s[i + 1]);
        }
        lemma_run(t, k, n - 1);
    }
}

/// The longest stretches of `s` without a character of `k`, in order.
pub open spec fn words(s: Seq<char>, k: CharClass) -> Seq<Seq<char>>
    decreases s.len(),
{
    if s.len() == 0 {
        seq![]
    } else if k.has(s[0]) {
        words(s.drop_first(), k)
    } else {
        let n = run(s, k);
        proof {
            lemma_run_bound(s, k);
        }
        seq![s.take(n as int)] + words(s.skip(n as int), k)
    }
}

/// Takes `s` apart at the characters of `k`, without the empty pieces.
pub fn split_words(s: &str, k: CharClass) -> (r: Vec<String>)
    ensures
        views(r@) == words(s@, k),
{
    let v = chars_of(s);
    let mut r: Vec<String> = Vec::new();
    let mut i: usize = 0;
    assert(v@.skip(0) =~= v@);
    assert(views(r@) + words(v@, k) =~= words(v@, k));
    while i < v.len()
        invariant
            i <= v@.len(),
            views(r@) + words(v@.skip(i as int), k) == words(v@, k),
        decreases v@.len() - i,
    {
        let ghost rest = v@.skip(i as int);
        assert(rest[0] == v@[i as int]);
        if k.contains(v[i]) {
            assert(rest.drop_first() =~= v@.skip(i as int + 1));
            i += 1;
        } else {
            let mut j: usize = i + 1;
            while j < v.len() && !k.contains(v[j])
                invariant
                    i < j <= v@.len(),
                    forall|m: int| i <= m < j ==> !k.has(#[trigger] v@[m]),
                decreases v@.len() - j,
            {
                j += 1;
            }
            let ghost before = views(r@);
            r.push(string_of(&v, i, j));
            proof {
                let n = j - i;
                lemma_run(rest, k, n);
                assert(v@.subrange(i as int, j as int) =~= rest.take(n));
                assert(views(r@) =~= before.push(rest.take(n)));
                assert(rest.skip(n) =~= v@.skip(j as int));
                let tail = words(rest.skip(n), k);
                assert(before + (seq![rest.take(n)] + tail) =~= before.push(rest.take(n)) + tail);
            }
            i = j;
        }
    }
    assert(v@.skip(i as int) =~= Seq::<char>::empty());
    assert(views(r@) + Seq::<Seq<char>>::empty() =~= views(r@));
    r
}

/// The decimal digit of `d`, for `d` below ten.
pub open spec fn digit_char(d: nat) -> char {
    (0x30 + d) as char
}

/// The decimal notation of `n`, without leading zeros.
pub open spec fn decimal(n: nat) -> Seq<char>
    decreases n,
{
    if n < 10 {
        seq![digit_char(n)]
    } else {
        decimal(n / 10).push(digit_char(n % 10))
    }
}

/// Appends the decimal notation of `n` to `r`.
pub fn push_decimal(r: &mut String, n: u64)
    ensures
        final(r)@ == old(r)@ + decimal(n as nat),
    decreases n,
{
    if n >= 10 {
        push_decimal(r, n / 10);
    }
    let ghost before = r@;
    r.push((0x30 + (n % 10) as u8) as char);
    assert(r@ =~= before.push(digit_char(n as nat % 10)));
    assert(r@ =~= old(r)@ + decimal(n as nat));
}

pub open spec fn is_digit(c: char) -> bool {
    '0' <= c <= '9'
}

pub open spec fn all_digits(s: Seq<char>) -> bool {
    forall|i: int| 0 <= i < s.len() ==> is_digit(#[trigger] s[i])
}

/// The number that a sequence of decimal digits stands for.
pub open spec fn number(s: Seq<char>) -> nat
    decreases s.len(),
{
    if s.len() == 0 {
        0
    } else {
        number(s.drop_last()) * 10 + ((s.last() as int - 0x30) as nat)
    }
}

/// `s` without one leading plus sign.
pub open spec fn unsigned_part(s: Seq<char>) -> Seq<char> {
    if s.len() > 0 && s[0] == '+' {
        s.skip(1)
    } else {
        s
    }
}

/// Reads an unsigned number of at most `max`: digits, with one plus sign
/// allowed in front.
pub open spec fn read_decimal(s: Seq<char>, max: nat) -> Option<nat> {
    let body = unsigned_part(s);
    if body.len() > 0 && all_digits(body) && number(body) <= max {
        Some(number(body))
    } else {
        None
    }
}

proof fn lemma_number_grows(s: Seq<char>, i: int)
    requires
        0 <= i <= s.len(),
    ensures
        number(s.take(i)) <= number(s),
    decreases s.len() - i,
{
    if i == s.len() {
        assert(s.take(i) =~= s);
    } else {
        let t = s.drop_last();
        lemma_number_grows(t, i);
        assert(t.take(i) =~= s.take(i));
    }
}

/// Reads `s` as an unsigned 16-bit number.
pub fn parse_u16(s: &str) -> (r: Option<u16>)
    ensures
        match r {
            Some(n) => read_decimal(s@, 65535) == Some(n as nat),
            None => read_decimal(s@, 65535) is None,
        },
{
    let v = chars_of(s);
    let from: usize = if v.len() > 0 && v[0] == '+' {
        1
    } else {
        0
    };
    let ghost body = unsigned_part(s@);
    if v.len() == from {
        return None;
    }
    let mut n: u32 = 0;
    let mut i: usize = from;
    assert(body.take(0) =~= Seq::<char>::empty());
    while i < v.len()
        invariant
            v@ == s@,
            body == unsigned_part(s@),
            from <= i <= v@.len(),
            from == v@.len() - body.len(),
            body.len() > 0,
            forall|j: int| 0 <= j < body.len() ==> body[j] == v@[from + j],
            all_digits(body.take(i - from)),
            n == number(body.take(i - from)),
            n <= 65535,
        decreases v@.len() - i,
    {
        let c = v[i];
        assert(body[i - from] == c);
        if !('0' <= c && c <= '9') {
            assert(!all_digits(body));
            return None;
        }
        n = n * 10 + (c as u32 - 0x30);
        proof {
            let t = body.take(i - from + 1);
            assert(t.drop_last() =~= body.take(i - from));
            assert(t.last() == c);
            assert forall|j: int| 0 <= j < t.len() implies is_digit(#[trigger] t[j]) by {
                if j < i - from {
                    assert(body.take(i - from)[j] == t[j]);
                }
            }
            assert(n == number(t));
            lemma_number_grows(body, i - from + 1);
        }
        if n > 65535 {
            return None;
        }
        i += 1;
    }
    assert(body.take(body.len() as int) =~= body);
    Some(n as u16)
}

/// Decimal notation is made of digits and stands for its number.
pub proof fn lemma_decimal_number(n: nat)
    ensures
        decimal(n).len() > 0,
        all_digits(decimal(n)),
        number(decimal(n)) == n,
    decreases n,
{
    if n < 10 {
        let s = decimal(n);
        assert(s.drop_last() =~= Seq::<char>::empty());
        assert(number(s.drop_last()) == 0);
        assert(s.last() == digit_char(n));
    } else {
        lemma_decimal_number(n / 10);
        let s = decimal(n);
        assert(s.drop_last() =~= decimal(n / 10));
        assert(s.last() == digit_char(n % 10));
        assert forall|i: int| 0 <= i < s.len() implies is_digit(#[trigger] s[i]) by {
            if i < s.len() - 1 {
                assert(s[i] == decimal(n / 10)[i]);
            }
        }
    }
}

/// A number is read back from its decimal notation.
pub proof fn lemma_read_decimal(n: nat, max: nat)
    requires
        n <= max,
    ensures
        read_decimal(decimal(n), max) == Some(n),
{
    lemma_decimal_number(n);
    assert(is_digit(decimal(n)[0]));
}

/// The upper-case hexadecimal digit of `d`, for `d` below sixteen.
pub open spec fn hex_char(d: int) -> char {
    if d < 10 {
        (0x30 + d) as char
    } else {
        (0x37 + d) as char
    }
}

/// The two upper-case hexadecimal digits of a byte.
pub open spec fn hex_byte(b: u8) -> Seq<char> {
    seq![hex_char(b as int / 16), hex_char(b as int % 16)]
}

pub fn push_hex_byte(r: &mut String, b: u8)
    ensures
        final(r)@ == old(r)@ + hex_byte(b),
{
    r.push(hex_digit(b / 16));
    r.push(hex_digit(b % 16));
    assert(r@ =~= old(r)@ + hex_byte(b));
}

fn hex_digit(d: u8) -> (r: char)
    requires
        d < 16,
    ensures
        r == hex_char(d as int),
{
    if d < 10 {
        (0x30 + d) as char
    } else {
        (0x37 + d) as char
    }
}

/// A hexadecimal digit in either case.
pub open spec fn is_hex(c: char) -> bool {
    ('0' <= c <= '9') || ('a' <= c <= 'f') || ('A' <= c <= 'F')
}

pub open spec fn all_hex(s: Seq<char>) -> bool {
    forall|i: int| 0 <= i < s.len() ==> is_hex(#[trigger] s[i])
}

/// Whether every character of `s` is a hexadecimal digit.
pub fn only_hex(s: &str) -> (r: bool)
    ensures
        r == all_hex(s@),
{
    let v = chars_of(s);
    let mut i: usize = 0;
    while i < v.len()
        invariant
            v@ == s@,
            i <= v@.len(),
            forall|j: int| 0 <= j < i ==> is_hex(#[trigger] v@[j]),
        decreases v@.len() - i,
    {
        let c = v[i];
        if !(('0' <= c && c <= '9') || ('a' <= c && c <= 'f') || ('A' <= c && c <= 'F')) {
            assert(!is_hex(s@[i as int]));
            return false;
        }
        i += 1;
    }
    true
}

/// Whether `a` stands before `b`, or equals it, in code-point order.
pub open spec fn text_le(a: Seq<char>, b: Seq<char>) -> bool
    decreases a.len(),
{
    if a.len() == 0 {
        true
    } else if b.len() == 0 {
        false
    } else if a[0] != b[0] {
        a[0] < b[0]
    } else {
        text_le(a.drop_first(), b.drop_first())
    }
}

pub proof fn lemma_text_le_total(a: Seq<char>, b: Seq<char>)
    ensures
        text_le(a, b) || text_le(b, a),
        a == b ==> text_le(a, b),
        text_le(a, b) && text_le(b, a) ==> a == b,
    decreases a.len(),
{
    if a.len() > 0 && b.len() > 0 {
        lemma_text_le_total(a.drop_first(), b.drop_first());
        if a[0] == b[0] && a.drop_first() == b.drop_first() {
            assert(a =~= seq![a[0]] + a.drop_first());
            assert(b =~= seq![b[0]] + b.drop_first());
        }
    } else if a.len() == 0 && b.len() == 0 {
        assert(a =~= b);
    }
}

pub proof fn lemma_text_le_trans(a: Seq<char>, b: Seq<char>, c: Seq<char>)
    requires
        text_le(a, b),
        text_le(b, c),
    ensures
        text_le(a, c),
    decreases a.len(),
{
    if a.len() > 0 && a[0] == b[0] && b[0] == c[0] {
        lemma_text_le_trans(a.drop_first(), b.drop_first(), c.drop_first());
    }
}

/// Whether `a` does not stand after `b` in code-point order.
pub fn not_after(a: &str, b: &str) -> (r: bool)
    ensures
        r == text_le(a@, b@),
{
    let v = chars_of(a);
    let w = chars_of(b);
    let mut i: usize = 0;
    assert(a@.skip(0) =~= a@);
    assert(b@.skip(0) =~= b@);
    while i < v.len()
        invariant
            v@ == a@,
            w@ == b@,
            i <= v@.len(),
            i <= w@.len(),
            text_le(a@, b@) == text_le(a@.skip(i as int), b@.skip(i as int)),
        decreases v@.len() - i,
    {
        if i >= w.len() {
            return false;
        }
        if v[i] != w[i] {
            return v[i] < w[i];
        }
        assert(a@.skip(i as int).drop_first() =~= a@.skip(i + 1));
        assert(b@.skip(i as int).drop_first() =~= b@.skip(i + 1));
        i += 1;
    }
    true
}

/// The classes hold the white space of Unicode, the same with the marks between
/// pulse items, or a single character.
pub proof fn law_classes_hold_their_characters(c: char, d: char)
    ensures
        ({
            let n = c as u32;
            let space = n == 9 || n == 10 || n == 11 || n == 12 || n == 13 || n == 32 || n == 133
                || n == 160 || n == 5760 || 8192 <= n <= 8202 || n == 8232 || n == 8233 || n == 8239
                || n == 8287 || n == 12288;
            &&& CharClass::Space.has(c) <==> space
            &&& CharClass::PulseGap.has(c) <==> space || c == ',' || c == ';' || c == '|'
            &&& CharClass::Only(d).has(c) <==> c == d
        }),
{
}

/// Trimming leaves what stands between the first and the last character that is
/// not of the class.
pub proof fn law_trim_leaves_the_middle(s: Seq<char>, k: CharClass, from: int, to: int)
    requires
        0 <= from <= to <= s.len(),
        forall|i: int| 0 <= i < from ==> k.has(#[trigger] s[i]),
        forall|i: int| to <= i < s.len() ==> k.has(#[trigger] s[i]),
        from < to ==> !k.has(s[from]) && !k.has(s[to - 1]),
    ensures
        trim(s, k) == s.subrange(from, to),
        from < to ==> trim_start(s, k) == s.skip(from),
        from < to ==> trim_end(s, k) == s.take(to),
{
    if from < to {
        lemma_trim_start_at(s, k, from);
        lemma_trim_end_at(s, k, to);
        let t = s.skip(from);
        assert forall|i: int| to - from <= i < t.len() implies k.has(#[trigger] t[i]) by {
            assert(t[i] == s[i + from]);
        }
        assert(t[to - from - 1] == s[to - 1]);
        lemma_trim_end_at(t, k, to - from);
        assert(t.take(to - from) =~= s.subrange(from, to));
    } else {
        assert forall|i: int| 0 <= i < s.len() implies k.has(#[trigger] s[i]) by {
            assert(i < from || to <= i);
        }
        lemma_trim_start_all(s, k);
        assert(s.subrange(from, to) =~= Seq::<char>::empty());
        assert(trim(s, k) =~= Seq::<char>::empty());
    }
}

proof fn lemma_trim_start_all(s: Seq<char>, k: CharClass)
    requires
        forall|i: int| 0 <= i < s.len() ==> k.has(#[trigger] s[i]),
    ensures
        trim_start(s, k).len() == 0,
    decreases s.len(),
{
    if s.len() > 0 {
        let t = s.drop_first();
        assert(k.has(s[0]));
        assert forall|i: int| 0 <= i < t.len() implies k.has(#[trigger] t[i]) by {
            assert(t[i] == s[i + 1]);
        }
        lemma_trim_start_all(t, k);
    }
}

proof fn lemma_trim_start_at(s: Seq<char>, k: CharClass, from: int)
    requires
        0 <= from < s.len(),
        forall|i: int| 0 <= i < from ==> k.has(#[trigger] s[i]),
        !k.has(s[from]),
    ensures
        trim_start(s, k) == s.skip(from),
    decreases from,
{
    if from > 0 {
        let t = s.drop_first();
        assert(k.has(s[0]));
        assert forall|i: int| 0 <= i < from - 1 implies k.has(#[trigger] t[i]) by {
            assert(t[i] == s[i + 1]);
        }
        lemma_trim_start_at(t, k, from - 1);
        assert(t.skip(from - 1) =~= s.skip(from));
    } else {
        assert(s.skip(0) =~= s);
    }
}

proof fn lemma_trim_end_at(s: Seq<char>, k: CharClass, to: int)
    requires
        0 < to <= s.len(),
        forall|i: int| to <= i < s.len() ==> k.has(#[trigger] s[i]),
        !k.has(s[to - 1]),
    ensures
        trim_end(s, k) == s.take(to),
    decreases s.len(),
{
    if to < s.len() {
        let t = s.drop_last();
        assert(k.has(s[s.len() - 1]));
        assert forall|i: int| to <= i < t.len() implies k.has(#[trigger] t[i]) by {
            assert(t[i] == s[i]);
        }
        assert(t[to - 1] == s[to - 1]);
        lemma_trim_end_at(t, k, to);
        assert(t.take(to) =~= s.take(to));
    } else {
        assert(s.take(to) =~= s);
    }
}

/// A text is blank exactly where it has no character but white space.
pub proof fn law_blank_texts_have_white_space_only(s: Seq<char>)
    ensures
        trimmed(s).len() == 0 <==> forall|i: int| 0 <= i < s.len() ==> is_space(#[trigger] s[i]),
{
    let k = CharClass::Space;
    if forall|i: int| 0 <= i < s.len() ==> is_space(#[trigger] s[i]) {
        assert forall|i: int| 0 <= i < s.len() implies k.has(#[trigger] s[i]) by {
            assert(is_space(s[i]));
        }
        law_trim_leaves_the_middle(s, k, 0, 0);
    } else {
        let i = choose|i: int| 0 <= i < s.len() && !is_space(#[trigger] s[i]);
        lemma_trim_start_keeps(s, k, i);
        let t = trim_start(s, k);
        lemma_trim_start_facts(s, k);
        assert(t.contains(s[i]));
        let j = choose|j: int| 0 <= j < t.len() && t[j] == s[i];
        lemma_trim_end_keeps(t, k, j);
    }
}

proof fn lemma_trim_start_keeps(s: Seq<char>, k: CharClass, i: int)
    requires
        0 <= i < s.len(),
        !k.has(s[i]),
    ensures
        trim_start(s, k).contains(s[i]),
    decreases s.len(),
{
    if k.has(s[0]) {
        let t = s.drop_first();
        assert(t[i - 1] == s[i]);
        lemma_trim_start_keeps(t, k, i - 1);
    } else {
        assert(s[i] == trim_start(s, k)[i]);
    }
}

proof fn lemma_trim_end_keeps(s: Seq<char>, k: CharClass, i: int)
    requires
        0 <= i < s.len(),
        !k.has(s[i]),
    ensures
        trim_end(s, k).len() > 0,
    decreases s.len(),
{
    if k.has(s.last()) {
        let t = s.drop_last();
        assert(t[i] == s[i]);
        lemma_trim_end_keeps(t, k, i);
    }
}

/// Folding the case changes the twenty-six letters and nothing else.
pub proof fn law_case_folds_letters_only(s: Seq<char>, i: int)
    requires
        0 <= i < s.len(),
    ensures
        lower(s).len() == s.len(),
        upper(s).len() == s.len(),
        ({
            let n = s[i] as u32;
            &&& 65 <= n <= 90 ==> lower(s)[i] as u32 == n + 32 && upper(s)[i] == s[i]
            &&& 97 <= n <= 122 ==> upper(s)[i] as u32 == n - 32 && lower(s)[i] == s[i]
            &&& !(65 <= n <= 90) && !(97 <= n <= 122) ==> lower(s)[i] == s[i] && upper(s)[i] == s[i]
        }),
{
}

/// Words are what stands between characters of the class: such characters are
/// passed over, and a stretch without any is one word.
pub proof fn law_words_stand_between_gaps(word: Seq<char>, gap: char, rest: Seq<char>, k: CharClass)
    requires
        word.len() > 0,
        forall|i: int| 0 <= i < word.len() ==> !k.has(#[trigger] word[i]),
        k.has(gap),
    ensures
        words(Seq::empty(), k).len() == 0,
        words(word, k) == seq![word],
        words(seq![gap] + rest, k) == words(rest, k),
        words(word + seq![gap] + rest, k) == seq![word] + words(rest, k),
{
    let n = word.len() as int;
    lemma_run(word, k, n);
    assert(!k.has(word[0]));
    assert(word.take(n) =~= word);
    assert(word.skip(n) =~= Seq::<char>::empty());
    assert(words(Seq::<char>::empty(), k) =~= Seq::<Seq<char>>::empty());
    assert(words(word, k) =~= seq![word]);
    let t = seq![gap] + rest;
    assert(t[0] == gap);
    assert(t.drop_first() =~= rest);
    let s = word + seq![gap] + rest;
    assert forall|i: int| 0 <= i < n implies !k.has(#[trigger] s[i]) by {
        assert(s[i] == word[i]);
    }
    assert(s[n] == gap);
    lemma_run(s, k, n);
    assert(s.take(n) =~= word);
    assert(s.skip(n) =~= t);
}

/// The decimal notation of a number goes on from that of its tens, begins with no
/// zero unless it is the number 0, and stands for the number.
pub proof fn law_decimal_notation(n: nat, d: nat)
    requires
        d < 10,
    ensures
        decimal(d) == seq![(48 + d) as char],
        n > 0 ==> decimal((10 * n + d) as nat) == decimal(n) + seq![(48 + d) as char],
        n > 0 ==> decimal(n)[0] != '0',
        number(decimal(n)) == n,
    decreases n,
{
    lemma_decimal_number(n);
    if n > 0 {
        let m = (10 * n + d) as nat;
        assert(m / 10 == n && m % 10 == d);
        assert(decimal(m) =~= decimal(n) + seq![(48 + d) as char]);
        if n >= 10 {
            law_decimal_notation(n / 10, 0);
            lemma_decimal_number(n / 10);
            assert(decimal(n)[0] == decimal(n / 10)[0]);
        }
    }
}

/// A number is read from digits alone, with any zeros and one plus sign in front,
/// where it is not above the maximum; nothing else is read.
pub proof fn law_numbers_are_read(n: nat, max: nat, s: Seq<char>, i: int)
    requires
        0 <= i < s.len(),
    ensures
        n <= max ==> read_decimal(decimal(n), max) == Some(n),
        n <= max ==> read_decimal(seq!['+'] + decimal(n), max) == Some(n),
        n > max ==> read_decimal(decimal(n), max) is None,
        read_decimal(Seq::empty(), max) is None,
        !('0' <= s[i] <= '9') && !(i == 0 && s[i] == '+') ==> read_decimal(s, max) is None,
        '0' <= s[0] <= '9' ==> read_decimal(seq!['0'] + s, max) == read_decimal(s, max),
{
    lemma_decimal_number(n);
    assert(is_digit(decimal(n)[0]));
    let plus = seq!['+'] + decimal(n);
    assert(plus.skip(1) =~= decimal(n));
    if !('0' <= s[i] <= '9') && !(i == 0 && s[i] == '+') {
        let body = unsigned_part(s);
        if s[0] == '+' {
            assert(body[i - 1] == s[i]);
        } else {
            assert(body[i] == s[i]);
        }
    }
    if '0' <= s[0] <= '9' {
        let t = seq!['0'] + s;
        lemma_leading_zero(s);
        if all_digits(s) {
            assert forall|j: int| 0 <= j < t.len() implies is_digit(#[trigger] t[j]) by {
                if j > 0 {
                    assert(t[j] == s[j - 1]);
                }
            }
        }
        if all_digits(t) {
            assert forall|j: int| 0 <= j < s.len() implies is_digit(#[trigger] s[j]) by {
                assert(t[j + 1] == s[j]);
            }
        }
    }
}

proof fn lemma_leading_zero(s: Seq<char>)
    ensures
        number(seq!['0'] + s) == number(s),
    decreases s.len(),
{
    let t = seq!['0'] + s;
    if s.len() > 0 {
        assert(t.drop_last() =~= seq!['0'] + s.drop_last());
        assert(t.last() == s.last());
        lemma_leading_zero(s.drop_last());
    } else {
        assert(t.drop_last() =~= Seq::<char>::empty());
        assert(number(t.drop_last()) == 0);
        assert(t.last() == '0');
    }
}

/// A byte is spelled by two digits, the sixteens first, with the letters A to F.
pub proof fn law_bytes_are_spelled_in_hexadecimal(b: u8)
    ensures
        hex_byte(b).len() == 2,
        b < 160 ==> hex_byte(b)[0] as u32 == 48 + b / 16,
        b >= 160 ==> hex_byte(b)[0] as u32 == 55 + b / 16,
        b % 16 < 10 ==> hex_byte(b)[1] as u32 == 48 + b % 16,
        b % 16 >= 10 ==> hex_byte(b)[1] as u32 == 55 + b % 16,
{
}

/// Texts are in the order of their first difference; a text comes before those
/// that go on from it.
pub proof fn law_texts_are_in_code_point_order(
    shared: Seq<char>,
    x: char,
    y: char,
    a: Seq<char>,
    b: Seq<char>,
)
    ensures
        x < y ==> text_le(shared + seq![x] + a, shared + seq![y] + b) && !text_le(
            shared + seq![y] + b,
            shared + seq![x] + a,
        ),
        text_le(shared, shared + a),
        a.len() > 0 ==> !text_le(shared + a, shared),
    decreases shared.len(),
{
    let p = shared + seq![x] + a;
    let q = shared + seq![y] + b;
    let r = shared + a;
    if shared.len() > 0 {
        let t = shared.drop_first();
        law_texts_are_in_code_point_order(t, x, y, a, b);
        assert(p.drop_first() =~= t + seq![x] + a);
        assert(q.drop_first() =~= t + seq![y] + b);
        assert(r.drop_first() =~= t + a);
    } else {
        assert(p[0] == x && q[0] == y);
    }
}

/// A text begins with another exactly if it is that one with something behind it.
pub proof fn law_prefixes_stand_at_the_start(s: Seq<char>, p: Seq<char>, rest: Seq<char>)
    ensures
        has_prefix(p + rest, p),
        has_prefix(s, p) ==> p.len() <= s.len() && s == p + s.skip(p.len() as int),
{
    assert((p + rest).take(p.len() as int) =~= p);
    if has_prefix(s, p) {
        assert(s =~= s.take(p.len() as int) + s.skip(p.len() as int));
    }
}

/// A text occurs in another exactly if that one is it with something before it
/// and behind it.
pub proof fn law_occurrences_have_both_sides(
    before: Seq<char>,
    p: Seq<char>,
    after: Seq<char>,
    s: Seq<char>,
)
    ensures
        occurs(before + p + after, p),
        occurs(s, p) ==> exists|i: int|
            0 <= i <= s.len() - p.len() && s == #[trigger] s.take(i) + p + s.skip(i + p.len()),
{
    let all = before + p + after;
    let n = before.len() as int;
    assert(all.subrange(n, n + p.len()) =~= p);
    assert(stands_at(all, p, n));
    if occurs(s, p) {
        let i = choose|i: int| stands_at(s, p, i);
        assert(s =~= s.take(i) + s.subrange(i, i + p.len()) + s.skip(i + p.len()));
    }
}

/// What is found of a text is its first place, and nothing where it has none.
pub proof fn law_the_first_place_is_found(s: Seq<char>, p: Seq<char>, i: int)
    requires
        0 <= i,
        p.len() > 0,
        forall|j: int|
            0 <= j < i && j + p.len() <= s.len() ==> #[trigger] s.subrange(j, j + p.len()) != p,
    ensures
        i + p.len() <= s.len() && s.subrange(i, i + p.len()) == p ==> found_at(s, p) == Some(i),
        i + p.len() > s.len() ==> found_at(s, p) is None,
{
    assert forall|j: int| 0 <= j < i implies !stands_at(s, p, j) by {
        if j + p.len() <= s.len() {
            assert(s.subrange(j, j + p.len()) != p);
        }
    }
    if i + p.len() <= s.len() && s.subrange(i, i + p.len()) == p {
        lemma_found_at(s, p, i);
    }
    if i + p.len() > s.len() {
        assert forall|j: int| !stands_at(s, p, j) by {}
        lemma_not_found(s, p);
    }
}

/// A character is found at its first place, or its last; a text without it has
/// neither. Cut at the first place, the text falls into what stands before the
/// character and what follows it.
pub proof fn law_characters_are_found(before: Seq<char>, c: char, after: Seq<char>)
    ensures
        !before.contains(c) ==> {
            &&& first_at(before + seq![c] + after, c) == before.len()
            &&& head(before + seq![c] + after, c) == before
            &&& tail(before + seq![c] + after, c) == after
            &&& first_at(before, c) == before.len()
            &&& head(before, c) == before
            &&& tail(before, c).len() == 0
            &&& last_at(before, c) == -1
        },
        !after.contains(c) ==> last_at(before + seq![c] + after, c) == before.len(),
{
    let s = before + seq![c] + after;
    let n = before.len() as int;
    if !before.contains(c) {
        assert forall|j: int| 0 <= j < n implies s[j] != c && before[j] != c by {
            assert(before.contains(before[j]));
        }
        lemma_first_at(s, c, n);
        assert(s.take(n) =~= before);
        assert(s.skip(n + 1) =~= after);
        lemma_first_at(before, c, n);
        assert(before.take(n) =~= before);
        lemma_last_at(before, c, -1);
    }
    if !after.contains(c) {
        assert forall|j: int| n < j < s.len() implies s[j] != c by {
            assert(s[j] == after[j - n - 1]);
            assert(after.contains(after[j - n - 1]));
        }
        lemma_last_at(s, c, n);
    }
}

/// A text is split at every occurrence of the character: the first piece is what
/// stands before the first, the others are the pieces of what follows it, and
/// each occurrence counts once.
pub proof fn law_pieces_stand_between_the_separators(
    first: Seq<char>,
    c: char,
    rest: Seq<char>,
)
    requires
        !first.contains(c),
    ensures
        split(first, c) == seq![first],
        split(first + seq![c] + rest, c) == seq![first] + split(rest, c),
        count(first, c) == 0,
        count(first + seq![c] + rest, c) == count(rest, c) + 1,
{
    lemma_split_first(first, c, rest);
    lemma_split_count(first, c);
    lemma_split_count(rest, c);
    lemma_split_count(first + seq![c] + rest, c);
}

} // verus!
