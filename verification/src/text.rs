//! Character-level text handling: the trimming, searching and joining that
//! the prompts, replies and input lines of this tool need, each stated over
//! the `Seq<char>` view of a string.
use vstd::prelude::*;

verus! {

// ---------------------------------------------------------------------------
// Specifications
// ---------------------------------------------------------------------------

/// The Unicode `White_Space` property, which `char::is_whitespace` and
/// therefore `str::trim` go by.
pub open spec fn is_white_space(c: char) -> bool {
    let u = c as u32;
    ||| 0x09 <= u <= 0x0d
    ||| u == 0x20
    ||| u == 0x85
    ||| u == 0xa0
    ||| u == 0x1680
    ||| 0x2000 <= u <= 0x200a
    ||| u == 0x2028
    ||| u == 0x2029
    ||| u == 0x202f
    ||| u == 0x205f
    ||| u == 0x3000
}

/// A class of characters that trimming removes.
pub enum CharClass {
    WhiteSpace,
    Exactly(char),
}

impl CharClass {
    pub open spec fn holds(self, c: char) -> bool {
        match self {
            CharClass::WhiteSpace => is_white_space(c),
            CharClass::Exactly(x) => c == x,
        }
    }
}

/// `s` without its longest prefix of characters of class `k`.
pub open spec fn drop_front_while(s: Seq<char>, k: CharClass) -> Seq<char>
    decreases s.len(),
{
    if s.len() > 0 && k.holds(s[0]) {
        drop_front_while(s.drop_first(), k)
    } else {
        s
    }
}

/// `s` without its longest suffix of characters of class `k`.
pub open spec fn drop_back_while(s: Seq<char>, k: CharClass) -> Seq<char>
    decreases s.len(),
{
    if s.len() > 0 && k.holds(s.last()) {
        drop_back_while(s.drop_last(), k)
    } else {
        s
    }
}

/// What `str::trim` gives back.
pub open spec fn trim_spec(s: Seq<char>) -> Seq<char> {
    drop_back_while(drop_front_while(s, CharClass::WhiteSpace), CharClass::WhiteSpace)
}

/// What `str::trim_matches(c)` gives back for a single character `c`.
pub open spec fn trim_char_spec(s: Seq<char>, c: char) -> Seq<char> {
    drop_back_while(drop_front_while(s, CharClass::Exactly(c)), CharClass::Exactly(c))
}

/// Whether `p` occurs in `s` starting at position `i`.
pub open spec fn occurs_at(s: Seq<char>, p: Seq<char>, i: int) -> bool {
    0 <= i && i + p.len() <= s.len() && s.subrange(i, i + p.len()) == p
}

/// Whether `p` is a substring of `s` (`str::contains`).
pub open spec fn contains_spec(s: Seq<char>, p: Seq<char>) -> bool {
    exists|i: int| occurs_at(s, p, i)
}

/// What `str::trim_start_matches(p)` gives back: `s` without all
/// repetitions of `p` at its front.
pub open spec fn strip_prefixes(s: Seq<char>, p: Seq<char>) -> Seq<char>
    decreases s.len(),
{
    if p.len() > 0 && occurs_at(s, p, 0) {
        strip_prefixes(s.skip(p.len() as int), p)
    } else {
        s
    }
}

/// What `str::trim_end_matches(p)` gives back: `s` without all
/// repetitions of `p` at its end.
pub open spec fn strip_suffixes(s: Seq<char>, p: Seq<char>) -> Seq<char>
    decreases s.len(),
{
    if p.len() > 0 && occurs_at(s, p, s.len() - p.len()) {
        strip_suffixes(s.take(s.len() - p.len()), p)
    } else {
        s
    }
}

/// Whether `i` is the first position of `c` in `s`.
pub open spec fn is_first_pos(s: Seq<char>, c: char, i: int) -> bool {
    0 <= i < s.len() && s[i] == c && forall|j: int| 0 <= j < i ==> s[j] != c
}

/// Whether `i` is the last position of `c` in `s`.
pub open spec fn is_last_pos(s: Seq<char>, c: char, i: int) -> bool {
    0 <= i < s.len() && s[i] == c && forall|j: int| i < j < s.len() ==> s[j] != c
}

/// Whether `c` occurs in `s`.
pub open spec fn has_char(s: Seq<char>, c: char) -> bool {
    exists|i: int| 0 <= i < s.len() && s[i] == c
}

/// The first position of `c` in `s` (meaningful when `has_char(s, c)`).
pub open spec fn first_pos(s: Seq<char>, c: char) -> int {
    choose|i: int| is_first_pos(s, c, i)
}

/// The last position of `c` in `s` (meaningful when `has_char(s, c)`).
pub open spec fn last_pos(s: Seq<char>, c: char) -> int {
    choose|i: int| is_last_pos(s, c, i)
}

/// The code of `c` after ASCII lower-casing (`u8::to_ascii_lowercase` on
/// ASCII letters; every other character is left as it is).
pub open spec fn ascii_lower_code(c: char) -> u32 {
    let u = c as u32;
    if 0x41 <= u <= 0x5a {
        (u + 0x20) as u32
    } else {
        u
    }
}

/// `str::eq_ignore_ascii_case`, stated over characters: UTF-8 leaves every
/// non-ASCII byte out of the ASCII range, so comparing the bytes with ASCII
/// letters folded is comparing the characters with ASCII letters folded.
pub open spec fn eq_ignore_ascii_case_spec(a: Seq<char>, b: Seq<char>) -> bool {
    a.len() == b.len() && forall|i: int|
        0 <= i < a.len() ==> ascii_lower_code(#[trigger] a[i]) == ascii_lower_code(b[i])
}

/// The character views of a sequence of strings.
pub open spec fn views(v: Seq<String>) -> Seq<Seq<char>> {
    v.map_values(|s: String| s@)
}

/// `[s0, s1, .., sn].join(sep)`.
pub open spec fn join_spec(list: Seq<Seq<char>>, sep: Seq<char>) -> Seq<char>
    decreases list.len(),
{
    if list.len() == 0 {
        Seq::empty()
    } else if list.len() == 1 {
        list[0]
    } else {
        join_spec(list.drop_last(), sep) + sep + list.last()
    }
}

// ---------------------------------------------------------------------------
// Lemmas
// ---------------------------------------------------------------------------

/// `first_pos` names the one first position of `c`.
pub proof fn lemma_first_pos(s: Seq<char>, c: char, i: int)
    requires
        is_first_pos(s, c, i),
    ensures
        has_char(s, c),
        first_pos(s, c) == i,
{
    let k = first_pos(s, c);
    assert(is_first_pos(s, c, k));
    if k < i {
        assert(s[k] != c);
    }
    if i < k {
        assert(s[i] != c);
    }
}

/// `last_pos` names the one last position of `c`.
pub proof fn lemma_last_pos(s: Seq<char>, c: char, i: int)
    requires
        is_last_pos(s, c, i),
    ensures
        has_char(s, c),
        last_pos(s, c) == i,
{
    let k = last_pos(s, c);
    assert(is_last_pos(s, c, k));
    if k < i {
        assert(s[i] != c);
    }
    if i < k {
        assert(s[k] != c);
    }
}

/// Trimming twice trims no more than trimming once.
pub proof fn lemma_drop_front_idempotent(s: Seq<char>, k: CharClass)
    ensures
        drop_front_while(drop_front_while(s, k), k) == drop_front_while(s, k),
        drop_front_while(s, k).len() > 0 ==> !k.holds(drop_front_while(s, k)[0]),
    decreases s.len(),
{
    if s.len() > 0 && k.holds(s[0]) {
        lemma_drop_front_idempotent(s.drop_first(), k);
    }
}

/// Trimming twice trims no more than trimming once.
pub proof fn lemma_drop_back_idempotent(s: Seq<char>, k: CharClass)
    ensures
        drop_back_while(drop_back_while(s, k), k) == drop_back_while(s, k),
        drop_back_while(s, k).len() > 0 ==> !k.holds(drop_back_while(s, k).last()),
    decreases s.len(),
{
    if s.len() > 0 && k.holds(s.last()) {
        lemma_drop_back_idempotent(s.drop_last(), k);
    }
}

/// Dropping a suffix keeps what is left a prefix of `s`, and keeps the
/// first character when it is outside the class.
pub proof fn lemma_drop_back_prefix(s: Seq<char>, k: CharClass)
    ensures
        drop_back_while(s, k).len() <= s.len(),
        drop_back_while(s, k) == s.take(drop_back_while(s, k).len() as int),
    decreases s.len(),
{
    if s.len() > 0 && k.holds(s.last()) {
        lemma_drop_back_prefix(s.drop_last(), k);
        assert(s.drop_last().take(drop_back_while(s, k).len() as int) == s.take(
            drop_back_while(s, k).len() as int,
        ));
    } else {
        assert(s.take(s.len() as int) == s);
    }
}

/// `trim_spec` gives back a string that neither starts nor ends with white space.
pub proof fn lemma_trim_edges(s: Seq<char>)
    ensures
        trim_spec(s).len() > 0 ==> !is_white_space(trim_spec(s)[0]) && !is_white_space(
            trim_spec(s).last(),
        ),
{
    let f = drop_front_while(s, CharClass::WhiteSpace);
    lemma_drop_front_idempotent(s, CharClass::WhiteSpace);
    lemma_drop_back_idempotent(f, CharClass::WhiteSpace);
    lemma_drop_back_prefix(f, CharClass::WhiteSpace);
    let t = drop_back_while(f, CharClass::WhiteSpace);
    if t.len() > 0 {
        assert(t[0] == f[0]);
    }
}

/// Trimming is idempotent.
pub proof fn lemma_trim_idempotent(s: Seq<char>)
    ensures
        trim_spec(trim_spec(s)) == trim_spec(s),
{
    let t = trim_spec(s);
    lemma_trim_edges(s);
    if t.len() > 0 {
        assert(drop_front_while(t, CharClass::WhiteSpace) == t);
        assert(drop_back_while(t, CharClass::WhiteSpace) == t);
    } else {
        assert(drop_front_while(t, CharClass::WhiteSpace) == t);
        assert(drop_back_while(t, CharClass::WhiteSpace) == t);
    }
}

// ---------------------------------------------------------------------------
// Conversions between strings and characters
// ---------------------------------------------------------------------------

/// Appends one character to a string (`String::push`).
#[verifier::external_body]
fn push_char(s: &mut String, c: char)
    ensures
        final(s)@ == old(s)@.push(c),
{
    s.push(c);
}

/// The characters of a string, in order.
pub fn chars_of(s: &str) -> (v: Vec<char>)
    ensures
        v@ == s@,
{
    let mut v: Vec<char> = Vec::new();
    for c in it: s.chars()
        invariant
            v@ == it.seq().take(it.index() as int),
            it.seq() == s@,
    {
        v.push(c);
    }
    v
}

/// A string made of the given characters.
pub fn string_of(v: &[char]) -> (s: String)
    ensures
        s@ == v@,
{
    let mut s = String::new();
    let mut i: usize = 0;
    while i < v.len()
        invariant
            i <= v@.len(),
            s@ == v@.take(i as int),
        decreases v@.len() - i,
    {
        push_char(&mut s, v[i]);
        assert(v@.take(i + 1) == v@.take(i as int).push(v@[i as int]));
        i = i + 1;
    }
    assert(v@.take(v@.len() as int) == v@);
    s
}

/// The characters of `v` from `lo` up to `hi`.
pub fn sub_chars(v: &[char], lo: usize, hi: usize) -> (r: Vec<char>)
    requires
        lo <= hi <= v@.len(),
    ensures
        r@ == v@.subrange(lo as int, hi as int),
{
    let mut r: Vec<char> = Vec::new();
    let mut i = lo;
    while i < hi
        invariant
            lo <= i <= hi <= v@.len(),
            r@ == v@.subrange(lo as int, i as int),
        decreases hi - i,
    {
        r.push(v[i]);
        assert(v@.subrange(lo as int, i + 1) == v@.subrange(lo as int, i as int).push(
            v@[i as int],
        ));
        i = i + 1;
    }
    r
}

/// A copy of a string.
pub fn copy_string(s: &String) -> (r: String)
    ensures
        r@ == s@,
{
    s.clone()
}

/// Whether two strings hold the same characters.
pub fn chars_eq(a: &[char], b: &[char]) -> (r: bool)
    ensures
        r == (a@ == b@),
{
    if a.len() != b.len() {
        return false;
    }
    let mut i: usize = 0;
    while i < a.len()
        invariant
            a@.len() == b@.len(),
            i <= a@.len(),
            forall|j: int| 0 <= j < i ==> a@[j] == b@[j],
        decreases a@.len() - i,
    {
        if a[i] != b[i] {
            return false;
        }
        i = i + 1;
    }
    assert(a@ == b@);
    true
}

/// Whether two strings are equal.
pub fn str_eq(a: &str, b: &str) -> (r: bool)
    ensures
        r == (a@ == b@),
{
    let x = chars_of(a);
    let y = chars_of(b);
    chars_eq(x.as_slice(), y.as_slice())
}

// ---------------------------------------------------------------------------
// Trimming
// ---------------------------------------------------------------------------

/// Whether `c` has the Unicode `White_Space` property (`char::is_whitespace`).
pub fn is_white_space_char(c: char) -> (b: bool)
    ensures
        b == is_white_space(c),
{
    let u = c as u32;
    (0x09 <= u && u <= 0x0d) || u == 0x20 || u == 0x85 || u == 0xa0 || u == 0x1680 || (0x2000
        <= u && u <= 0x200a) || u == 0x2028 || u == 0x2029 || u == 0x202f || u == 0x205f || u
        == 0x3000
}

/// Whether `c` belongs to class `k`.
pub fn class_holds(k: &CharClass, c: char) -> (b: bool)
    ensures
        b == k.holds(c),
{
    match k {
        CharClass::WhiteSpace => is_white_space_char(c),
        CharClass::Exactly(x) => c == *x,
    }
}

/// The number of leading characters of class `k`.
fn front_run(v: &[char], k: &CharClass) -> (i: usize)
    ensures
        i <= v@.len(),
        drop_front_while(v@, *k) == v@.skip(i as int),
{
    let mut i: usize = 0;
    assert(v@.skip(0) == v@);
    while i < v.len() && class_holds(k, v[i])
        invariant
            i <= v@.len(),
            drop_front_while(v@, *k) == drop_front_while(v@.skip(i as int), *k),
        decreases v@.len() - i,
    {
        assert(v@.skip(i as int).drop_first() == v@.skip(i + 1));
        i = i + 1;
    }
    i
}

/// The length that is left after dropping the trailing characters of class `k`.
fn back_run(v: &[char], k: &CharClass) -> (j: usize)
    ensures
        j <= v@.len(),
        drop_back_while(v@, *k) == v@.take(j as int),
{
    let mut j: usize = v.len();
    assert(v@.take(v@.len() as int) == v@);
    while j > 0 && class_holds(k, v[j - 1])
        invariant
            j <= v@.len(),
            drop_back_while(v@, *k) == drop_back_while(v@.take(j as int), *k),
        decreases j,
    {
        assert(v@.take(j as int).drop_last() == v@.take(j - 1));
        j = j - 1;
    }
    j
}

/// `v` without the leading characters of class `k`.
pub fn drop_front(v: &[char], k: CharClass) -> (r: Vec<char>)
    ensures
        r@ == drop_front_while(v@, k),
{
    let i = front_run(v, &k);
    sub_chars(v, i, v.len())
}

/// `v` without the trailing characters of class `k`.
pub fn drop_back(v: &[char], k: CharClass) -> (r: Vec<char>)
    ensures
        r@ == drop_back_while(v@, k),
{
    let j = back_run(v, &k);
    sub_chars(v, 0, j)
}

/// `str::trim`, on characters.
pub fn trim_chars(v: &[char]) -> (r: Vec<char>)
    ensures
        r@ == trim_spec(v@),
{
    let f = drop_front(v, CharClass::WhiteSpace);
    drop_back(f.as_slice(), CharClass::WhiteSpace)
}

/// `str::trim`.
pub fn trim(s: &str) -> (r: String)
    ensures
        r@ == trim_spec(s@),
{
    let v = chars_of(s);
    let t = trim_chars(v.as_slice());
    string_of(t.as_slice())
}

/// `str::trim_matches(c)` for one character `c`, on characters.
pub fn trim_char(v: &[char], c: char) -> (r: Vec<char>)
    ensures
        r@ == trim_char_spec(v@, c),
{
    let f = drop_front(v, CharClass::Exactly(c));
    drop_back(f.as_slice(), CharClass::Exactly(c))
}

// ---------------------------------------------------------------------------
// Searching
// ---------------------------------------------------------------------------

/// Whether `p` occurs in `s` at position `i`.
pub fn occurs_at_exec(s: &[char], p: &[char], i: usize) -> (b: bool)
    ensures
        b == occurs_at(s@, p@, i as int),
{
    if i > s.len() || p.len() > s.len() - i {
        return false;
    }
    let n = s.len();
    let mut j: usize = 0;
    while j < p.len()
        invariant
            n == s@.len(),
            i + p@.len() <= s@.len(),
            j <= p@.len(),
            forall|m: int| 0 <= m < j ==> s@[i + m] == p@[m],
        decreases p@.len() - j,
    {
        if s[i + j] != p[j] {
            assert(s@.subrange(i as int, i + p@.len())[j as int] != p@[j as int]);
            return false;
        }
        j = j + 1;
    }
    assert(s@.subrange(i as int, i + p@.len()) == p@);
    true
}

/// Whether `p` is a substring of `s` (`str::contains`).
pub fn contains_chars(s: &[char], p: &[char]) -> (b: bool)
    ensures
        b == contains_spec(s@, p@),
{
    if p.len() > s.len() {
        assert forall|i: int| !occurs_at(s@, p@, i) by {}
        return false;
    }
    let limit = s.len() - p.len();
    let mut i: usize = 0;
    while i < limit
        invariant
            limit == s@.len() - p@.len(),
            i <= limit,
            forall|m: int| 0 <= m < i ==> !occurs_at(s@, p@, m),
        decreases limit - i,
    {
        if occurs_at_exec(s, p, i) {
            return true;
        }
        i = i + 1;
    }
    if occurs_at_exec(s, p, limit) {
        return true;
    }
    assert forall|m: int| !occurs_at(s@, p@, m) by {
        if 0 <= m && m < i {
        }
    }
    false
}

/// `s` without all repetitions of `p` at its front (`str::trim_start_matches`).
pub fn strip_prefixes_chars(s: &[char], p: &[char]) -> (r: Vec<char>)
    ensures
        r@ == strip_prefixes(s@, p@),
{
    if p.len() == 0 {
        return sub_chars(s, 0, s.len());
    }
    let n = s.len();
    let mut i: usize = 0;
    assert(s@.skip(0) == s@);
    while occurs_at_exec(s, p, i)
        invariant
            n == s@.len(),
            p@.len() > 0,
            i <= s@.len(),
            strip_prefixes(s@, p@) == strip_prefixes(s@.skip(i as int), p@),
        decreases s@.len() - i,
    {
        let ghost t = s@.skip(i as int);
        assert(t.subrange(0, p@.len() as int) == s@.subrange(i as int, i + p@.len()));
        assert(t.skip(p@.len() as int) == s@.skip(i + p@.len()));
        i = i + p.len();
    }
    proof {
        let t = s@.skip(i as int);
        if p@.len() <= t.len() {
            assert(t.subrange(0, p@.len() as int) == s@.subrange(i as int, i + p@.len()));
        }
    }
    sub_chars(s, i, s.len())
}

/// `s` without all repetitions of `p` at its end (`str::trim_end_matches`).
pub fn strip_suffixes_chars(s: &[char], p: &[char]) -> (r: Vec<char>)
    ensures
        r@ == strip_suffixes(s@, p@),
{
    if p.len() == 0 {
        return sub_chars(s, 0, s.len());
    }
    let mut j: usize = s.len();
    assert(s@.take(s@.len() as int) == s@);
    while j >= p.len() && occurs_at_exec(s, p, j - p.len())
        invariant
            p@.len() > 0,
            j <= s@.len(),
            strip_suffixes(s@, p@) == strip_suffixes(s@.take(j as int), p@),
        decreases j,
    {
        let ghost t = s@.take(j as int);
        assert(t.subrange(j - p@.len(), j as int) == s@.subrange(j - p@.len(), j as int));
        assert(t.take(j - p@.len()) == s@.take(j - p@.len()));
        j = j - p.len();
    }
    proof {
        let t = s@.take(j as int);
        if p@.len() <= j {
            assert(t.subrange(j - p@.len(), j as int) == s@.subrange(j - p@.len(), j as int));
        }
    }
    sub_chars(s, 0, j)
}

/// The first position of `c` in `s` (`str::find` with a character).
pub fn find_char(s: &[char], c: char) -> (r: Option<usize>)
    ensures
        r is Some <==> has_char(s@, c),
        r matches Some(i) ==> i == first_pos(s@, c) && is_first_pos(s@, c, i as int),
{
    let mut i: usize = 0;
    while i < s.len()
        invariant
            i <= s@.len(),
            forall|j: int| 0 <= j < i ==> s@[j] != c,
        decreases s@.len() - i,
    {
        if s[i] == c {
            proof {
                lemma_first_pos(s@, c, i as int);
            }
            return Some(i);
        }
        i = i + 1;
    }
    None
}

/// The last position of `c` in `s` (`str::rfind` with a character).
pub fn rfind_char(s: &[char], c: char) -> (r: Option<usize>)
    ensures
        r is Some <==> has_char(s@, c),
        r matches Some(i) ==> i == last_pos(s@, c) && is_last_pos(s@, c, i as int),
{
    let mut j: usize = s.len();
    while j > 0
        invariant
            j <= s@.len(),
            forall|m: int| j <= m < s@.len() ==> s@[m] != c,
        decreases j,
    {
        if s[j - 1] == c {
            proof {
                lemma_last_pos(s@, c, j - 1);
            }
            return Some(j - 1);
        }
        j = j - 1;
    }
    None
}

/// `str::eq_ignore_ascii_case`, on characters.
pub fn eq_ignore_ascii_case(a: &[char], b: &[char]) -> (r: bool)
    ensures
        r == eq_ignore_ascii_case_spec(a@, b@),
{
    if a.len() != b.len() {
        return false;
    }
    let mut i: usize = 0;
    while i < a.len()
        invariant
            a@.len() == b@.len(),
            i <= a@.len(),
            forall|j: int| 0 <= j < i ==> ascii_lower_code(#[trigger] a@[j]) == ascii_lower_code(b@[j]),
        decreases a@.len() - i,
    {
        let x = a[i] as u32;
        let y = b[i] as u32;
        let lx = if 0x41 <= x && x <= 0x5a { x + 0x20 } else { x };
        let ly = if 0x41 <= y && y <= 0x5a { y + 0x20 } else { y };
        if lx != ly {
            assert(ascii_lower_code(a@[i as int]) != ascii_lower_code(b@[i as int]));
            return false;
        }
        i = i + 1;
    }
    true
}

// ---------------------------------------------------------------------------
// Joining and splitting
// ---------------------------------------------------------------------------

/// `items.join(sep)`.
pub fn join(items: &[String], sep: &str) -> (r: String)
    ensures
        r@ == join_spec(views(items@), sep@),
{
    let mut r = String::new();
    let ghost all = views(items@);
    let mut i: usize = 0;
    while i < items.len()
        invariant
            i <= items@.len(),
            all == views(items@),
            r@ == join_spec(all.take(i as int), sep@),
        decreases items@.len() - i,
    {
        proof {
            assert(all.take(i + 1).drop_last() == all.take(i as int));
            assert(all.take(i + 1).last() == items@[i as int]@);
        }
        if i > 0 {
            r.append(sep);
        }
        r.append(items[i].as_str());
        i = i + 1;
    }
    assert(all.take(items@.len() as int) == all);
    r
}

} // verus!
