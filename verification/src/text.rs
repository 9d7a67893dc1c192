//! Character-level text primitives shared by every module: collecting the
//! characters of a string, building strings back, substring search, ASCII
//! case folding and Unicode whitespace trimming. Every operation is stated
//! over the `Seq<char>` view of its inputs.
use vstd::prelude::*;

verus! {

/// Appends one character to a `String` (`String::push`).
///
/// Trusted: `String::push` appends exactly the given character to the end of
/// the string, as its documentation states.
#[verifier::external_body]
fn push_char(s: &mut String, c: char)
    ensures
        final(s)@ == old(s)@.push(c),
{
    s.push(c);
}

/// Collect the characters of a string slice into a vector.
pub fn chars_of(s: &str) -> (out: Vec<char>)
    ensures
        out@ == s@,
{
    let mut out: Vec<char> = Vec::new();
    for c in it: s.chars()
        invariant
            out@ == it.seq().take(it.index() as int),
    {
        out.push(c);
    }
    out
}

/// Build a `String` from a slice of characters.
pub fn string_from_chars(chars: &[char]) -> (out: String)
    ensures
        out@ == chars@,
{
    let mut out = String::new();
    let mut i: usize = 0;
    while i < chars.len()
        invariant
            i <= chars@.len(),
            out@ == chars@.take(i as int),
        decreases chars@.len() - i,
    {
        push_char(&mut out, chars[i]);
        assert(chars@.take(i as int + 1) =~= chars@.take(i as int).push(chars@[i as int]));
        i = i + 1;
    }
    assert(chars@.take(chars@.len() as int) =~= chars@);
    out
}

/// Copy a string slice into an owned `String`.
pub fn owned(s: &str) -> (out: String)
    ensures
        out@ == s@,
{
    let v = chars_of(s);
    string_from_chars(v.as_slice())
}

/// `s` concatenated with `t`, as a new string.
pub fn concat(s: &str, t: &str) -> (out: String)
    ensures
        out@ == s@ + t@,
{
    let mut v = chars_of(s);
    let w = chars_of(t);
    let mut i: usize = 0;
    while i < w.len()
        invariant
            i <= w@.len(),
            v@ == s@ + w@.take(i as int),
            w@ == t@,
        decreases w@.len() - i,
    {
        v.push(w[i]);
        assert(w@.take(i as int + 1) =~= w@.take(i as int).push(w@[i as int]));
        i = i + 1;
    }
    assert(w@.take(w@.len() as int) =~= w@);
    string_from_chars(v.as_slice())
}

/// Append the characters of `t` to the vector `v`.
pub fn extend_chars(v: &mut Vec<char>, t: &[char])
    ensures
        final(v)@ == old(v)@ + t@,
{
    let mut i: usize = 0;
    while i < t.len()
        invariant
            i <= t@.len(),
            v@ == old(v)@ + t@.take(i as int),
        decreases t@.len() - i,
    {
        v.push(t[i]);
        assert(t@.take(i as int + 1) =~= t@.take(i as int).push(t@[i as int]));
        i = i + 1;
    }
    assert(t@.take(t@.len() as int) =~= t@);
}

/// `needle` occurs in `hay` starting at index `i`.
pub open spec fn occurs_at(hay: Seq<char>, needle: Seq<char>, i: int) -> bool {
    &&& 0 <= i
    &&& i + needle.len() <= hay.len()
    &&& hay.subrange(i, i + needle.len()) == needle
}

/// `needle` occurs somewhere in `hay` (the empty needle occurs in every text).
pub open spec fn seq_contains(hay: Seq<char>, needle: Seq<char>) -> bool {
    exists|i: int| occurs_at(hay, needle, i)
}

/// `hay` begins with `prefix`.
pub open spec fn seq_starts_with(hay: Seq<char>, prefix: Seq<char>) -> bool {
    prefix.len() <= hay.len() && hay.subrange(0, prefix.len() as int) == prefix
}

/// `hay` ends with `suffix`.
pub open spec fn seq_ends_with(hay: Seq<char>, suffix: Seq<char>) -> bool {
    suffix.len() <= hay.len() && hay.subrange(hay.len() - suffix.len(), hay.len() as int)
        == suffix
}

fn matches_at(hay: &[char], needle: &[char], i: usize) -> (r: bool)
    requires
        i + needle@.len() <= hay@.len(),
    ensures
        r == (hay@.subrange(i as int, i + needle@.len()) == needle@),
{
    let _hay_len = hay.len();
    let mut j: usize = 0;
    while j < needle.len()
        invariant
            i + needle@.len() <= hay@.len(),
            hay@.len() <= usize::MAX,
            j <= needle@.len(),
            forall|k: int| 0 <= k < j ==> hay@[i + k] == needle@[k],
        decreases needle@.len() - j,
    {
        if hay[i + j] != needle[j] {
            assert(hay@.subrange(i as int, i + needle@.len())[j as int] != needle@[j as int]);
            return false;
        }
        j = j + 1;
    }
    assert(hay@.subrange(i as int, i + needle@.len()) =~= needle@);
    true
}

/// Substring search over character vectors.
pub fn chars_contain(hay: &[char], needle: &[char]) -> (r: bool)
    ensures
        r == seq_contains(hay@, needle@),
{
    if needle.len() > hay.len() {
        return false;
    }
    let last = hay.len() - needle.len();
    let mut i: usize = 0;
    loop
        invariant
            last + needle@.len() == hay@.len(),
            i <= last,
            forall|k: int| 0 <= k < i ==> !occurs_at(hay@, needle@, k),
        decreases last - i,
    {
        if matches_at(hay, needle, i) {
            assert(occurs_at(hay@, needle@, i as int));
            return true;
        }
        if i == last {
            return false;
        }
        i = i + 1;
    }
}

/// The first index at or after `i` where `needle` occurs in `hay`.
pub open spec fn first_from(hay: Seq<char>, needle: Seq<char>, i: nat) -> Option<nat>
    decreases hay.len() + 1 - i,
{
    if i + needle.len() > hay.len() {
        None
    } else if occurs_at(hay, needle, i as int) {
        Some(i)
    } else {
        first_from(hay, needle, i + 1)
    }
}

/// The text before and the text after the first occurrence of `pat`
/// (`str::split_once` with a string pattern).
pub open spec fn split_once(s: Seq<char>, pat: Seq<char>) -> Option<(Seq<char>, Seq<char>)> {
    match first_from(s, pat, 0) {
        Some(i) => Some((s.take(i as int), s.skip((i + pat.len()) as int))),
        None => None,
    }
}

/// The first index where `needle` occurs in `hay`.
pub fn find_chars(hay: &[char], needle: &[char]) -> (r: Option<usize>)
    ensures
        match r {
            Some(i) => first_from(hay@, needle@, 0) == Some(i as nat) && i + needle@.len()
                <= hay@.len(),
            None => first_from(hay@, needle@, 0) is None,
        },
{
    if needle.len() > hay.len() {
        return None;
    }
    let last = hay.len() - needle.len();
    let mut i: usize = 0;
    loop
        invariant
            last + needle@.len() == hay@.len(),
            i <= last,
            first_from(hay@, needle@, 0) == first_from(hay@, needle@, i as nat),
        decreases last - i,
    {
        if matches_at(hay, needle, i) {
            return Some(i);
        }
        if i == last {
            assert(first_from(hay@, needle@, (i + 1) as nat) is None);
            return None;
        }
        i = i + 1;
    }
}

/// `needle` occurs in `hay`, as `str::contains` with a string pattern.
pub fn str_contains(hay: &str, needle: &str) -> (r: bool)
    ensures
        r == seq_contains(hay@, needle@),
{
    let h = chars_of(hay);
    let n = chars_of(needle);
    chars_contain(h.as_slice(), n.as_slice())
}

/// Character-wise equality of two slices.
pub fn chars_equal(a: &[char], b: &[char]) -> (r: bool)
    ensures
        r == (a@ == b@),
{
    if a.len() != b.len() {
        return false;
    }
    let mut i: usize = 0;
    while i < a.len()
        invariant
            a@.len() == b@.len(),
            i <= a@.len(),
            forall|k: int| 0 <= k < i ==> a@[k] == b@[k],
        decreases a@.len() - i,
    {
        if a[i] != b[i] {
            return false;
        }
        i = i + 1;
    }
    assert(a@ =~= b@);
    true
}

/// Equality of two string slices.
pub fn str_eq(a: &str, b: &str) -> (r: bool)
    ensures
        r == (a@ == b@),
{
    let x = chars_of(a);
    let y = chars_of(b);
    chars_equal(x.as_slice(), y.as_slice())
}

/// `hay` begins with `prefix`.
pub fn chars_start_with(hay: &[char], prefix: &[char]) -> (r: bool)
    ensures
        r == seq_starts_with(hay@, prefix@),
{
    if prefix.len() > hay.len() {
        return false;
    }
    matches_at(hay, prefix, 0)
}

/// `hay` ends with `suffix`.
pub fn chars_end_with(hay: &[char], suffix: &[char]) -> (r: bool)
    ensures
        r == seq_ends_with(hay@, suffix@),
{
    if suffix.len() > hay.len() {
        return false;
    }
    matches_at(hay, suffix, hay.len() - suffix.len())
}

/// `s` begins with `prefix`.
pub fn str_starts_with(s: &str, prefix: &str) -> (r: bool)
    ensures
        r == seq_starts_with(s@, prefix@),
{
    let a = chars_of(s);
    let b = chars_of(prefix);
    chars_start_with(a.as_slice(), b.as_slice())
}

/// The sub-slice `v[from..to]` as a new vector.
pub fn slice_range(v: &[char], from: usize, to: usize) -> (out: Vec<char>)
    requires
        from <= to <= v@.len(),
    ensures
        out@ == v@.subrange(from as int, to as int),
{
    let mut out: Vec<char> = Vec::new();
    let mut i: usize = from;
    while i < to
        invariant
            from <= i <= to <= v@.len(),
            out@ == v@.subrange(from as int, i as int),
        decreases to - i,
    {
        out.push(v[i]);
        assert(v@.subrange(from as int, i as int + 1) =~= v@.subrange(from as int, i as int).push(
            v@[i as int],
        ));
        i = i + 1;
    }
    out
}

/// ASCII lower-casing of one character (`char::to_ascii_lowercase`).
pub open spec fn lower_char(c: char) -> char {
    if 'A' <= c && c <= 'Z' {
        ((c as u32) + 32) as char
    } else {
        c
    }
}

/// ASCII upper-casing of one character (`char::to_ascii_uppercase`).
pub open spec fn upper_char(c: char) -> char {
    if 'a' <= c && c <= 'z' {
        ((c as u32) - 32) as char
    } else {
        c
    }
}

/// ASCII lower-casing of a text (`str::to_ascii_lowercase`).
pub open spec fn ascii_lower(s: Seq<char>) -> Seq<char> {
    s.map_values(|c: char| lower_char(c))
}

/// ASCII upper-casing of a text (`str::to_ascii_uppercase`).
pub open spec fn ascii_upper(s: Seq<char>) -> Seq<char> {
    s.map_values(|c: char| upper_char(c))
}

pub fn lower_char_exec(c: char) -> (r: char)
    ensures
        r == lower_char(c),
{
    if 'A' <= c && c <= 'Z' {
        let u: u8 = c as u8;
        assert(u == c as u32);
        let r = (u + 32) as char;
        r
    } else {
        c
    }
}

pub fn upper_char_exec(c: char) -> (r: char)
    ensures
        r == upper_char(c),
{
    if 'a' <= c && c <= 'z' {
        let u: u8 = c as u8;
        assert(u == c as u32);
        let r = (u - 32) as char;
        r
    } else {
        c
    }
}

/// ASCII lower-casing of a character vector.
pub fn lower_chars(v: &[char]) -> (out: Vec<char>)
    ensures
        out@ == ascii_lower(v@),
{
    let mut out: Vec<char> = Vec::new();
    let mut i: usize = 0;
    while i < v.len()
        invariant
            i <= v@.len(),
            out@ == ascii_lower(v@.take(i as int)),
        decreases v@.len() - i,
    {
        let c = lower_char_exec(v[i]);
        out.push(c);
        assert(ascii_lower(v@.take(i as int + 1)) =~= ascii_lower(v@.take(i as int)).push(
            lower_char(v@[i as int]),
        ));
        i = i + 1;
    }
    assert(v@.take(v@.len() as int) =~= v@);
    out
}

/// ASCII upper-casing of a character vector.
pub fn upper_chars(v: &[char]) -> (out: Vec<char>)
    ensures
        out@ == ascii_upper(v@),
{
    let mut out: Vec<char> = Vec::new();
    let mut i: usize = 0;
    while i < v.len()
        invariant
            i <= v@.len(),
            out@ == ascii_upper(v@.take(i as int)),
        decreases v@.len() - i,
    {
        let c = upper_char_exec(v[i]);
        out.push(c);
        assert(ascii_upper(v@.take(i as int + 1)) =~= ascii_upper(v@.take(i as int)).push(
            upper_char(v@[i as int]),
        ));
        i = i + 1;
    }
    assert(v@.take(v@.len() as int) =~= v@);
    out
}

/// `str::to_ascii_lowercase`.
pub fn to_ascii_lowercase(s: &str) -> (out: String)
    ensures
        out@ == ascii_lower(s@),
{
    let v = chars_of(s);
    let l = lower_chars(v.as_slice());
    string_from_chars(l.as_slice())
}

/// `str::to_ascii_uppercase`.
pub fn to_ascii_uppercase(s: &str) -> (out: String)
    ensures
        out@ == ascii_upper(s@),
{
    let v = chars_of(s);
    let l = upper_chars(v.as_slice());
    string_from_chars(l.as_slice())
}

/// The Unicode `White_Space` property, which `char::is_whitespace` tests.
pub open spec fn is_ws(c: char) -> bool {
    let u = c as u32;
    ||| 0x9 <= u && u <= 0xD
    ||| u == 0x20
    ||| u == 0x85
    ||| u == 0xA0
    ||| u == 0x1680
    ||| 0x2000 <= u && u <= 0x200A
    ||| u == 0x2028
    ||| u == 0x2029
    ||| u == 0x202F
    ||| u == 0x205F
    ||| u == 0x3000
}

pub fn is_ws_exec(c: char) -> (r: bool)
    ensures
        r == is_ws(c),
{
    let u = c as u32;
    (0x9 <= u && u <= 0xD) || u == 0x20 || u == 0x85 || u == 0xA0 || u == 0x1680 || (0x2000
        <= u && u <= 0x200A) || u == 0x2028 || u == 0x2029 || u == 0x202F || u == 0x205F || u
        == 0x3000
}

/// Leading whitespace removed (`str::trim_start`).
pub open spec fn trim_start(s: Seq<char>) -> Seq<char>
    decreases s.len(),
{
    if s.len() > 0 && is_ws(s[0]) {
        trim_start(s.drop_first())
    } else {
        s
    }
}

/// Trailing whitespace removed (`str::trim_end`).
pub open spec fn trim_end(s: Seq<char>) -> Seq<char>
    decreases s.len(),
{
    if s.len() > 0 && is_ws(s.last()) {
        trim_end(s.drop_last())
    } else {
        s
    }
}

/// Leading and trailing whitespace removed (`str::trim`).
pub open spec fn trim(s: Seq<char>) -> Seq<char> {
    trim_end(trim_start(s))
}

proof fn lemma_trim_start_skip(s: Seq<char>, i: int)
    requires
        0 <= i < s.len(),
        forall|k: int| 0 <= k < i ==> is_ws(s[k]),
        is_ws(s[i]),
    ensures
        trim_start(s.subrange(i, s.len() as int)) == trim_start(s.subrange(i + 1, s.len() as int)),
{
    assert(s.subrange(i, s.len() as int).drop_first() =~= s.subrange(i + 1, s.len() as int));
}

proof fn lemma_trim_end_skip(s: Seq<char>, j: int)
    requires
        0 < j <= s.len(),
        is_ws(s[j - 1]),
    ensures
        trim_end(s.subrange(0, j)) == trim_end(s.subrange(0, j - 1)),
{
    assert(s.subrange(0, j).drop_last() =~= s.subrange(0, j - 1));
}

/// What `trim_start` leaves is empty or begins with a non-whitespace
/// character.
proof fn lemma_trim_start_edge(s: Seq<char>)
    ensures
        trim_start(s).len() > 0 ==> !is_ws(trim_start(s)[0]),
    decreases s.len(),
{
    if s.len() > 0 && is_ws(s[0]) {
        lemma_trim_start_edge(s.drop_first());
    }
}

/// What `trim_end` leaves is a prefix of the text, empty or ending with a
/// non-whitespace character.
proof fn lemma_trim_end_edge(s: Seq<char>)
    ensures
        trim_end(s).len() <= s.len(),
        trim_end(s) == s.subrange(0, trim_end(s).len() as int),
        trim_end(s).len() > 0 ==> !is_ws(trim_end(s).last()),
    decreases s.len(),
{
    if s.len() > 0 && is_ws(s.last()) {
        lemma_trim_end_edge(s.drop_last());
        assert(s.drop_last().subrange(0, trim_end(s).len() as int) =~= s.subrange(0, trim_end(s).len() as int));
    } else {
        assert(s.subrange(0, s.len() as int) =~= s);
    }
}

/// A trimmed text is empty or has non-whitespace characters at both ends.
pub proof fn lemma_trim_edges(s: Seq<char>)
    ensures
        trim(s).len() > 0 ==> !is_ws(trim(s)[0]) && !is_ws(trim(s).last()),
{
    lemma_trim_start_edge(s);
    lemma_trim_end_edge(trim_start(s));
    if trim(s).len() > 0 {
        assert(trim(s)[0] == trim_start(s)[0]);
    }
}

/// Trimming a trimmed text changes nothing.
pub proof fn lemma_trim_idempotent(s: Seq<char>)
    ensures
        trim(trim(s)) == trim(s),
{
    let t = trim(s);
    lemma_trim_edges(s);
    if t.len() > 0 {
        assert(trim_start(t) == t);
        assert(trim_end(t) == t);
    } else {
        assert(trim_start(t) == t);
    }
}

/// `str::trim` over characters.
pub fn trim_chars(v: &[char]) -> (out: Vec<char>)
    ensures
        out@ == trim(v@),
{
    let n = v.len();
    let mut start: usize = 0;
    assert(v@.subrange(0, n as int) =~= v@);
    while start < n && is_ws_exec(v[start])
        invariant
            n == v@.len(),
            start <= n,
            forall|k: int| 0 <= k < start ==> is_ws(v@[k]),
            trim_start(v@) == trim_start(v@.subrange(start as int, n as int)),
        decreases n - start,
    {
        proof {
            lemma_trim_start_skip(v@, start as int);
        }
        start = start + 1;
    }
    let ghost rest = v@.subrange(start as int, n as int);
    assert(trim_start(v@) == rest) by {
        if start < n {
            assert(rest[0] == v@[start as int]);
        }
    }
    let mut end: usize = n;
    assert(rest.subrange(0, (n - start) as int) =~= rest);
    while end > start && is_ws_exec(v[end - 1])
        invariant
            n == v@.len(),
            start <= end <= n,
            rest == v@.subrange(start as int, n as int),
            trim_end(rest) == trim_end(rest.subrange(0, end - start)),
        decreases end,
    {
        proof {
            assert(rest[end - start - 1] == v@[end - 1]);
            lemma_trim_end_skip(rest, end - start);
        }
        end = end - 1;
    }
    let ghost kept = rest.subrange(0, end - start);
    assert(trim_end(kept) == kept) by {
        if end > start {
            assert(kept.last() == v@[end - 1]);
        }
    }
    assert(kept =~= v@.subrange(start as int, end as int));
    slice_range(v, start, end)
}

/// `str::trim`, as an owned string.
pub fn trim_str(s: &str) -> (out: String)
    ensures
        out@ == trim(s@),
{
    let v = chars_of(s);
    let t = trim_chars(v.as_slice());
    string_from_chars(t.as_slice())
}

/// `needle` occurs in at least one element of `needles`.
pub open spec fn contains_any(hay: Seq<char>, needles: Seq<Seq<char>>) -> bool {
    exists|i: int| 0 <= i < needles.len() && seq_contains(hay, #[trigger] needles[i])
}

/// Some element of `needles` occurs in `hay`.
pub fn chars_contain_any(hay: &[char], needles: &[&str]) -> (r: bool)
    ensures
        r == contains_any(hay@, needles@.map_values(|s: &str| s@)),
{
    let ghost ns = needles@.map_values(|s: &str| s@);
    let mut i: usize = 0;
    while i < needles.len()
        invariant
            i <= needles@.len(),
            ns == needles@.map_values(|s: &str| s@),
            forall|k: int| 0 <= k < i ==> !seq_contains(hay@, #[trigger] ns[k]),
        decreases needles@.len() - i,
    {
        let n = chars_of(needles[i]);
        if chars_contain(hay, n.as_slice()) {
            assert(seq_contains(hay@, ns[i as int]));
            return true;
        }
        i = i + 1;
    }
    false
}


/// The pieces of `s` between occurrences of `sep` (`str::split` with a `char`
/// pattern); the empty text gives one empty piece.
pub open spec fn split_char(s: Seq<char>, sep: char) -> Seq<Seq<char>>
    decreases s.len(),
{
    if s.len() == 0 {
        seq![Seq::empty()]
    } else {
        let prev = split_char(s.drop_last(), sep);
        if s.last() == sep {
            prev.push(Seq::empty())
        } else {
            prev.update(prev.len() - 1, prev.last().push(s.last()))
        }
    }
}

pub proof fn lemma_split_char_nonempty(s: Seq<char>, sep: char)
    ensures
        split_char(s, sep).len() >= 1,
    decreases s.len(),
{
    if s.len() > 0 {
        lemma_split_char_nonempty(s.drop_last(), sep);
    }
}

/// Splitting text with no separator gives the text itself as the only piece.
pub proof fn lemma_split_char_single(a: Seq<char>, sep: char)
    requires
        !a.contains(sep),
    ensures
        split_char(a, sep) == seq![a],
    decreases a.len(),
{
    if a.len() > 0 {
        assert(!a.drop_last().contains(sep)) by {
            if a.drop_last().contains(sep) {
                let k = choose|k: int| 0 <= k < a.drop_last().len() && a.drop_last()[k] == sep;
                assert(a[k] == sep);
            }
        }
        lemma_split_char_single(a.drop_last(), sep);
        assert(a.last() != sep) by {
            assert(a[a.len() - 1] == a.last());
        }
        assert(a.drop_last().push(a.last()) =~= a);
        let prev = split_char(a.drop_last(), sep);
        assert(prev.last() == a.drop_last());
        assert(prev.last().push(a.last()) == a);
        assert(split_char(a, sep) =~= seq![a]);
    } else {
        assert(a =~= Seq::<char>::empty());
    }
}

/// Splitting `a`, a separator, then `b` gives the pieces of `a` followed by
/// the pieces of `b`.
pub proof fn lemma_split_char_join(a: Seq<char>, b: Seq<char>, sep: char)
    ensures
        split_char(a + seq![sep] + b, sep) == split_char(a, sep) + split_char(b, sep),
    decreases b.len(),
{
    let whole = a + seq![sep] + b;
    if b.len() == 0 {
        assert(whole.drop_last() =~= a);
        assert(whole.last() == sep);
        assert(split_char(whole, sep) =~= split_char(a, sep) + split_char(b, sep));
    } else {
        let b1 = b.drop_last();
        let c = b.last();
        lemma_split_char_join(a, b1, sep);
        lemma_split_char_nonempty(b1, sep);
        lemma_split_char_nonempty(a, sep);
        assert(whole.drop_last() =~= a + seq![sep] + b1);
        assert(whole.last() == c);
        let p = split_char(a, sep) + split_char(b1, sep);
        if c == sep {
            assert(split_char(whole, sep) =~= split_char(a, sep) + split_char(b, sep));
        } else {
            let q = split_char(b1, sep);
            assert(p.update(p.len() - 1, p.last().push(c)) =~= split_char(a, sep) + q.update(
                q.len() - 1,
                q.last().push(c),
            ));
            assert(split_char(whole, sep) =~= split_char(a, sep) + split_char(b, sep));
        }
    }
}

/// The pieces of `v` between occurrences of `sep`.
pub fn split_chars(v: &[char], sep: char) -> (out: Vec<Vec<char>>)
    ensures
        out@.map_values(|p: Vec<char>| p@) == split_char(v@, sep),
{
    let mut done: Vec<Vec<char>> = Vec::new();
    let mut cur: Vec<char> = Vec::new();
    let mut i: usize = 0;
    while i < v.len()
        invariant
            i <= v@.len(),
            done@.map_values(|p: Vec<char>| p@).push(cur@) == split_char(v@.take(i as int), sep),
        decreases v@.len() - i,
    {
        let c = v[i];
        let ghost prev = split_char(v@.take(i as int), sep);
        proof {
            lemma_split_char_nonempty(v@.take(i as int), sep);
            assert(v@.take(i as int + 1).drop_last() =~= v@.take(i as int));
        }
        if c == sep {
            let finished = cur;
            cur = Vec::new();
            done.push(finished);
            assert(done@.map_values(|p: Vec<char>| p@).push(cur@) =~= prev.push(Seq::empty()));
        } else {
            cur.push(c);
            assert(done@.map_values(|p: Vec<char>| p@).push(cur@) =~= prev.update(
                prev.len() - 1,
                prev.last().push(c),
            ));
        }
        i = i + 1;
    }
    done.push(cur);
    assert(v@.take(v@.len() as int) =~= v@);
    done
}

/// The trimmed pieces that are not empty, in order.
pub open spec fn nonempty_trimmed(parts: Seq<Seq<char>>) -> Seq<Seq<char>>
    decreases parts.len(),
{
    if parts.len() == 0 {
        Seq::empty()
    } else {
        let prev = nonempty_trimmed(parts.drop_last());
        if trim(parts.last()).len() == 0 {
            prev
        } else {
            prev.push(trim(parts.last()))
        }
    }
}

/// `s.split(sep).map(str::trim).filter(|p| !p.is_empty())`, as owned strings.
pub fn split_trimmed_nonempty(s: &str, sep: char) -> (out: Vec<String>)
    ensures
        out@.map_values(|p: String| p@) == nonempty_trimmed(split_char(s@, sep)),
{
    let v = chars_of(s);
    let parts = split_chars(v.as_slice(), sep);
    let ghost pv = parts@.map_values(|p: Vec<char>| p@);
    let mut out: Vec<String> = Vec::new();
    let mut i: usize = 0;
    while i < parts.len()
        invariant
            i <= parts@.len(),
            pv == parts@.map_values(|p: Vec<char>| p@),
            pv == split_char(s@, sep),
            out@.map_values(|p: String| p@) == nonempty_trimmed(pv.take(i as int)),
        decreases parts@.len() - i,
    {
        let t = trim_chars(parts[i].as_slice());
        assert(pv.take(i as int + 1).drop_last() =~= pv.take(i as int));
        assert(pv.take(i as int + 1).last() == parts@[i as int]@);
        if t.len() > 0 {
            let piece = string_from_chars(t.as_slice());
            out.push(piece);
            assert(out@.map_values(|p: String| p@) =~= nonempty_trimmed(pv.take(i as int)).push(
                t@,
            ));
        }
        i = i + 1;
    }
    assert(pv.take(parts@.len() as int) =~= pv);
    out
}

} // verus!
