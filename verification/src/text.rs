//! Character-level text utilities.
//!
//! Text is handled as `Seq<char>` in specifications (the view of `str` and
//! `String`) and as `Vec<char>` in executable code.

use vstd::prelude::*;

verus! {

// ---------------------------------------------------------------------------
// Specifications
// ---------------------------------------------------------------------------

/// Unicode `White_Space`, the property that `char::is_whitespace` tests.
pub open spec fn is_ws(c: char) -> bool {
    let u = c as u32;
    (9 <= u && u <= 13) || u == 32 || u == 0x85 || u == 0xA0 || u == 0x1680 || (0x2000 <= u
        && u <= 0x200A) || u == 0x2028 || u == 0x2029 || u == 0x202F || u == 0x205F || u == 0x3000
}

/// A text is blank when trimming whitespace leaves nothing.
pub open spec fn is_blank(s: Seq<char>) -> bool {
    forall|i: int| 0 <= i < s.len() ==> #[trigger] is_ws(s[i])
}

/// `p` occurs in `s` at index `i`.
pub open spec fn occurs_at(s: Seq<char>, p: Seq<char>, i: int) -> bool {
    0 <= i && i + p.len() <= s.len() && s.subrange(i, i + p.len()) == p
}

pub open spec fn starts_with(s: Seq<char>, p: Seq<char>) -> bool {
    occurs_at(s, p, 0)
}

pub open spec fn ends_with(s: Seq<char>, p: Seq<char>) -> bool {
    p.len() <= s.len() && occurs_at(s, p, s.len() - p.len())
}

pub open spec fn contains(s: Seq<char>, p: Seq<char>) -> bool {
    exists|i: int| occurs_at(s, p, i)
}

/// First index at or after `i` where `p` occurs in `s`.
pub open spec fn first_occ_from(s: Seq<char>, p: Seq<char>, i: int) -> Option<int>
    decreases s.len() + 1 - i,
{
    if i < 0 || i + p.len() > s.len() {
        None
    } else if occurs_at(s, p, i) {
        Some(i)
    } else {
        first_occ_from(s, p, i + 1)
    }
}

/// Index of the first occurrence of `p` in `s` (`str::find`).
pub open spec fn first_occ(s: Seq<char>, p: Seq<char>) -> Option<int> {
    first_occ_from(s, p, 0)
}

/// What the search from `i` finds: the least occurrence at or after `i`.
pub proof fn lemma_first_occ_from(s: Seq<char>, p: Seq<char>, i: int)
    requires
        0 <= i,
    ensures
        first_occ_from(s, p, i) matches Some(k) ==> i <= k && occurs_at(s, p, k) && forall|j: int|
            i <= j < k ==> !occurs_at(s, p, j),
        first_occ_from(s, p, i) is None ==> forall|j: int| i <= j ==> !occurs_at(s, p, j),
    decreases s.len() + 1 - i,
{
    if i + p.len() > s.len() {
    } else if occurs_at(s, p, i) {
    } else {
        lemma_first_occ_from(s, p, i + 1);
    }
}

/// The least occurrence at or after `i` is what the search from `i` finds.
pub proof fn lemma_first_occ_intro(s: Seq<char>, p: Seq<char>, i: int, k: int)
    requires
        0 <= i <= k,
        occurs_at(s, p, k),
        forall|j: int| i <= j < k ==> !occurs_at(s, p, j),
    ensures
        first_occ_from(s, p, i) == Some(k),
    decreases k - i,
{
    if i < k {
        lemma_first_occ_intro(s, p, i + 1, k);
    }
}

/// With no occurrence at or after `i`, the search from `i` finds nothing.
pub proof fn lemma_first_occ_none_intro(s: Seq<char>, p: Seq<char>, i: int)
    requires
        0 <= i,
        forall|j: int| i <= j ==> !occurs_at(s, p, j),
    ensures
        first_occ_from(s, p, i) is None,
    decreases s.len() + 1 - i,
{
    if i + p.len() <= s.len() {
        lemma_first_occ_none_intro(s, p, i + 1);
    }
}

pub open spec fn is_ascii_alnum(c: char) -> bool {
    ('0' <= c && c <= '9') || ('a' <= c && c <= 'z') || ('A' <= c && c <= 'Z')
}

pub open spec fn ascii_lower_char(c: char) -> char {
    if 'A' <= c && c <= 'Z' {
        ((c as u32) + 32) as char
    } else {
        c
    }
}

pub open spec fn ascii_lower(s: Seq<char>) -> Seq<char> {
    s.map_values(|c: char| ascii_lower_char(c))
}

/// Decimal digits of a natural number, as `format!("{}", n)` writes them.
pub open spec fn decimal(n: nat) -> Seq<char>
    decreases n,
{
    if n < 10 {
        seq![digit_char(n)]
    } else {
        decimal(n / 10).push(digit_char(n % 10))
    }
}

pub open spec fn digit_char(d: nat) -> char {
    ((d + 48) as u32) as char
}

/// Index of the first character at or after `i` that is not whitespace
/// (`s.len()` when there is none).
pub open spec fn skip_ws_from(s: Seq<char>, i: int) -> int
    decreases s.len() - i,
{
    if 0 <= i < s.len() && is_ws(s[i]) {
        skip_ws_from(s, i + 1)
    } else {
        i
    }
}

/// End of `s[..j]` once trailing whitespace is removed.
pub open spec fn trim_ws_end_to(s: Seq<char>, j: int) -> int
    decreases j,
{
    if 0 < j <= s.len() && is_ws(s[j - 1]) {
        trim_ws_end_to(s, j - 1)
    } else {
        j
    }
}

/// `str::trim`: leading and trailing whitespace removed.
pub open spec fn trim(s: Seq<char>) -> Seq<char> {
    let a = skip_ws_from(s, 0);
    let b = trim_ws_end_to(s, s.len() as int);
    if a < b {
        s.subrange(a, b)
    } else {
        Seq::empty()
    }
}

// ---------------------------------------------------------------------------
// Conversions between `str`/`String` and `Vec<char>`
// ---------------------------------------------------------------------------

/// Collects the characters of a string slice into a vector.
pub fn str_chars(s: &str) -> (v: Vec<char>)
    ensures
        v@ == s@,
{
    let mut v: Vec<char> = Vec::new();
    for c in it: s.chars()
        invariant
            v@ == it.seq().take(it.index() as int),
            it.seq() == s@,
    {
        v.push(c);
    }
    v
}

/// Appends one character to a string (`String::push`).
#[verifier::external_body]
fn string_push(s: &mut String, c: char)
    ensures
        final(s)@ == old(s)@.push(c),
{
    s.push(c);
}

/// Builds a string from characters.
pub fn chars_to_string(v: &[char]) -> (s: String)
    ensures
        s@ == v@,
{
    let mut s = String::new();
    let mut i: usize = 0;
    while i < v.len()
        invariant
            i <= v.len(),
            s@ == v@.take(i as int),
        decreases v.len() - i,
    {
        string_push(&mut s, v[i]);
        i += 1;
        assert(v@.take(i as int) == v@.take((i - 1) as int).push(v@[i - 1]));
    }
    assert(v@.take(v.len() as int) == v@);
    s
}

/// Concatenation of two character sequences into a string.
pub fn concat_string(a: &[char], b: &[char]) -> (s: String)
    ensures
        s@ == a@ + b@,
{
    let mut v: Vec<char> = Vec::new();
    extend_chars(&mut v, a);
    extend_chars(&mut v, b);
    chars_to_string(&v)
}

/// `format!("{}{}", a, b)`.
pub fn join_str(a: &str, b: &str) -> (s: String)
    ensures
        s@ == a@ + b@,
{
    concat_string(&str_chars(a), &str_chars(b))
}

/// Appends characters to a vector.
pub fn extend_chars(v: &mut Vec<char>, more: &[char])
    ensures
        final(v)@ == old(v)@ + more@,
{
    let ghost start = v@;
    let mut i: usize = 0;
    while i < more.len()
        invariant
            i <= more.len(),
            v@ == start + more@.take(i as int),
        decreases more.len() - i,
    {
        v.push(more[i]);
        i += 1;
        assert(more@.take(i as int) == more@.take((i - 1) as int).push(more@[i - 1]));
    }
    assert(more@.take(more.len() as int) == more@);
}

/// Copies `v[a..b]`.
pub fn sub_chars(v: &[char], a: usize, b: usize) -> (r: Vec<char>)
    requires
        a <= b <= v.len(),
    ensures
        r@ == v@.subrange(a as int, b as int),
{
    let mut r: Vec<char> = Vec::new();
    let mut i = a;
    while i < b
        invariant
            a <= i <= b <= v.len(),
            r@ == v@.subrange(a as int, i as int),
        decreases b - i,
    {
        r.push(v[i]);
        i += 1;
    }
    r
}

/// Text equality of two string slices.
pub fn str_eq(a: &str, b: &str) -> (r: bool)
    ensures
        r == (a@ == b@),
{
    let va = str_chars(a);
    let vb = str_chars(b);
    seq_eq(&va, &vb)
}

/// Equality of two character slices.
pub fn seq_eq(a: &[char], b: &[char]) -> (r: bool)
    ensures
        r == (a@ == b@),
{
    if a.len() != b.len() {
        return false;
    }
    let mut i: usize = 0;
    while i < a.len()
        invariant
            i <= a.len(),
            a.len() == b.len(),
            forall|k: int| 0 <= k < i ==> a@[k] == b@[k],
        decreases a.len() - i,
    {
        if a[i] != b[i] {
            return false;
        }
        i += 1;
    }
    assert(a@ =~= b@);
    true
}

// ---------------------------------------------------------------------------
// Predicates
// ---------------------------------------------------------------------------

/// `char::is_whitespace`.
pub fn is_whitespace(c: char) -> (r: bool)
    ensures
        r == is_ws(c),
{
    let u = c as u32;
    (9 <= u && u <= 13) || u == 32 || u == 0x85 || u == 0xA0 || u == 0x1680 || (0x2000 <= u
        && u <= 0x200A) || u == 0x2028 || u == 0x2029 || u == 0x202F || u == 0x205F || u == 0x3000
}

/// `s.trim().is_empty()`.
pub fn blank(s: &[char]) -> (r: bool)
    ensures
        r == is_blank(s@),
{
    let mut i: usize = 0;
    while i < s.len()
        invariant
            i <= s.len(),
            forall|k: int| 0 <= k < i ==> is_ws(#[trigger] s@[k]),
        decreases s.len() - i,
    {
        if !is_whitespace(s[i]) {
            assert(!is_ws(s@[i as int]));
            return false;
        }
        i += 1;
    }
    true
}

/// `s.trim().is_empty()` on a string slice.
pub fn str_blank(s: &str) -> (r: bool)
    ensures
        r == is_blank(s@),
{
    let v = str_chars(s);
    blank(&v)
}

/// Whether `p` occurs in `s` at index `i`.
pub fn matches_at(s: &[char], p: &[char], i: usize) -> (r: bool)
    ensures
        r == occurs_at(s@, p@, i as int),
{
    if i > s.len() || p.len() > s.len() - i {
        return false;
    }
    let mut k: usize = 0;
    while k < p.len()
        invariant
            k <= p.len(),
            i + p.len() <= s.len(),
            forall|j: int| 0 <= j < k ==> s@[i + j] == p@[j],
        decreases p.len() - k,
    {
        if s[i + k] != p[k] {
            assert(s@.subrange(i as int, i + p.len())[k as int] != p@[k as int]);
            return false;
        }
        k += 1;
    }
    assert(s@.subrange(i as int, i + p.len()) =~= p@);
    true
}

pub fn has_prefix(s: &[char], p: &[char]) -> (r: bool)
    ensures
        r == starts_with(s@, p@),
{
    matches_at(s, p, 0)
}

pub fn has_suffix(s: &[char], p: &[char]) -> (r: bool)
    ensures
        r == ends_with(s@, p@),
{
    if p.len() > s.len() {
        false
    } else {
        matches_at(s, p, s.len() - p.len())
    }
}

/// Index of the first occurrence of `p` in `s`.
pub fn find(s: &[char], p: &[char]) -> (r: Option<usize>)
    ensures
        r matches Some(i) ==> first_occ(s@, p@) == Some(i as int),
        r is None ==> first_occ(s@, p@) is None,
        r matches Some(i) ==> occurs_at(s@, p@, i as int) && forall|j: int|
            0 <= j < i ==> !occurs_at(s@, p@, j),
        r is None ==> forall|j: int| !occurs_at(s@, p@, j),
{
    if p.len() > s.len() {
        proof {
            lemma_first_occ_none_intro(s@, p@, 0);
        }
        return None;
    }
    let last = s.len() - p.len();
    let mut i: usize = 0;
    while i <= last
        invariant
            last + p.len() == s.len(),
            i <= last + 1,
            forall|j: int| 0 <= j < i ==> !occurs_at(s@, p@, j),
        decreases last + 1 - i,
    {
        if matches_at(s, p, i) {
            proof {
                lemma_first_occ_intro(s@, p@, 0, i as int);
            }
            return Some(i);
        }
        if i == last {
            proof {
                lemma_first_occ_none_intro(s@, p@, 0);
            }
            return None;
        }
        i += 1;
    }
    proof {
        lemma_first_occ_none_intro(s@, p@, 0);
    }
    None
}

/// The first occurrence of `p` in `s` at or after `i`.
pub fn find_from(s: &[char], p: &[char], i: usize) -> (r: Option<usize>)
    requires
        i <= s.len(),
    ensures
        match r {
            Some(k) => first_occ_from(s@, p@, i as int) == Some(k as int),
            None => first_occ_from(s@, p@, i as int) is None,
        },
{
    if p.len() == 0 {
        assert(s@.subrange(i as int, i as int) =~= p@);
        assert(occurs_at(s@, p@, i as int));
        return Some(i);
    }
    let mut k = i;
    while p.len() <= s.len() - k
        invariant
            i <= k <= s.len(),
            p.len() > 0,
            first_occ_from(s@, p@, i as int) == first_occ_from(s@, p@, k as int),
        decreases s.len() - k,
    {
        if matches_at(s, p, k) {
            return Some(k);
        }
        k += 1;
    }
    None
}

/// `s.contains(p)`.
pub fn contains_seq(s: &[char], p: &[char]) -> (r: bool)
    ensures
        r == contains(s@, p@),
{
    match find(s, p) {
        Some(i) => true,
        None => false,
    }
}

/// `char::is_ascii_alphanumeric`.
pub fn ascii_alnum(c: char) -> (r: bool)
    ensures
        r == is_ascii_alnum(c),
{
    ('0' <= c && c <= '9') || ('a' <= c && c <= 'z') || ('A' <= c && c <= 'Z')
}

/// `char::to_ascii_lowercase`.
pub fn lower_ascii_char(c: char) -> (r: char)
    ensures
        r == ascii_lower_char(c),
{
    if 'A' <= c && c <= 'Z' {
        let u = (c as u8) + 32;
        u as char
    } else {
        c
    }
}

/// `str::to_ascii_lowercase`.
pub fn lower_ascii(s: &[char]) -> (r: Vec<char>)
    ensures
        r@ == ascii_lower(s@),
{
    let mut r: Vec<char> = Vec::new();
    let mut i: usize = 0;
    while i < s.len()
        invariant
            i <= s.len(),
            r@ == ascii_lower(s@.take(i as int)),
        decreases s.len() - i,
    {
        r.push(lower_ascii_char(s[i]));
        i += 1;
        assert(ascii_lower(s@.take(i as int)) =~= ascii_lower(s@.take((i - 1) as int)).push(
            ascii_lower_char(s@[i - 1]),
        ));
    }
    assert(s@.take(s.len() as int) == s@);
    r
}

// ---------------------------------------------------------------------------
// Trimming
// ---------------------------------------------------------------------------

/// `str::trim`.
pub fn trim_chars(s: &[char]) -> (r: Vec<char>)
    ensures
        r@ == trim(s@),
{
    let mut a: usize = 0;
    while a < s.len() && is_whitespace(s[a])
        invariant
            a <= s.len(),
            skip_ws_from(s@, 0) == skip_ws_from(s@, a as int),
        decreases s.len() - a,
    {
        a += 1;
    }
    let mut b: usize = s.len();
    while b > 0 && is_whitespace(s[b - 1])
        invariant
            b <= s.len(),
            trim_ws_end_to(s@, s.len() as int) == trim_ws_end_to(s@, b as int),
        decreases b,
    {
        b -= 1;
    }
    if a < b {
        let mut r: Vec<char> = Vec::new();
        let mut i = a;
        while i < b
            invariant
                a <= i <= b <= s.len(),
                r@ == s@.subrange(a as int, i as int),
            decreases b - i,
        {
            r.push(s[i]);
            i += 1;
        }
        r
    } else {
        Vec::new()
    }
}

// ---------------------------------------------------------------------------
// Numbers
// ---------------------------------------------------------------------------

/// `format!("{}", n)` for an unsigned number.
pub fn usize_decimal(n: usize) -> (r: Vec<char>)
    ensures
        r@ == decimal(n as nat),
    decreases n,
{
    if n < 10 {
        let mut r: Vec<char> = Vec::new();
        r.push(digit(n));
        r
    } else {
        let mut r = usize_decimal(n / 10);
        r.push(digit(n % 10));
        r
    }
}

fn digit(d: usize) -> (c: char)
    requires
        d < 10,
    ensures
        c == digit_char(d as nat),
{
    let u = (d as u8) + 48;
    u as char
}


// ---------------------------------------------------------------------------
// Case-insensitive equality and ordering
// ---------------------------------------------------------------------------

/// `str::eq_ignore_ascii_case`.
pub open spec fn eq_ignore_ascii_case(a: Seq<char>, b: Seq<char>) -> bool {
    ascii_lower(a) == ascii_lower(b)
}

/// `a.eq_ignore_ascii_case(b)`.
pub fn eq_ignore_case(a: &str, b: &str) -> (r: bool)
    ensures
        r == eq_ignore_ascii_case(a@, b@),
{
    let la = lower_ascii(&str_chars(a));
    let lb = lower_ascii(&str_chars(b));
    seq_eq(&la, &lb)
}

/// The order of strings: lexicographic by character.
pub open spec fn lex_lt(a: Seq<char>, b: Seq<char>) -> bool
    decreases a.len(),
{
    if a.len() == 0 {
        b.len() > 0
    } else if b.len() == 0 {
        false
    } else if a[0] != b[0] {
        a[0] < b[0]
    } else {
        lex_lt(a.drop_first(), b.drop_first())
    }
}

pub proof fn lemma_lex_irreflexive(a: Seq<char>)
    ensures
        !lex_lt(a, a),
    decreases a.len(),
{
    if a.len() > 0 {
        lemma_lex_irreflexive(a.drop_first());
    }
}

pub proof fn lemma_lex_total(a: Seq<char>, b: Seq<char>)
    ensures
        a == b || lex_lt(a, b) || lex_lt(b, a),
    decreases a.len(),
{
    if a.len() > 0 && b.len() > 0 && a[0] == b[0] {
        lemma_lex_total(a.drop_first(), b.drop_first());
        if a.drop_first() == b.drop_first() {
            assert(a =~= seq![a[0]] + a.drop_first());
            assert(b =~= seq![b[0]] + b.drop_first());
        }
    } else if a.len() == 0 && b.len() == 0 {
        assert(a =~= b);
    }
}

pub proof fn lemma_lex_asymmetric(a: Seq<char>, b: Seq<char>)
    ensures
        !(lex_lt(a, b) && lex_lt(b, a)),
    decreases a.len(),
{
    if a.len() > 0 && b.len() > 0 && a[0] == b[0] {
        lemma_lex_asymmetric(a.drop_first(), b.drop_first());
    }
}

pub proof fn lemma_lex_transitive(a: Seq<char>, b: Seq<char>, c: Seq<char>)
    requires
        lex_lt(a, b),
        lex_lt(b, c),
    ensures
        lex_lt(a, c),
    decreases a.len(),
{
    if a.len() > 0 && b.len() > 0 && c.len() > 0 && a[0] == b[0] && b[0] == c[0] {
        lemma_lex_transitive(a.drop_first(), b.drop_first(), c.drop_first());
    }
}

/// `a < b` on strings.
pub fn str_lt(a: &str, b: &str) -> (r: bool)
    ensures
        r == lex_lt(a@, b@),
{
    let va = str_chars(a);
    let vb = str_chars(b);
    let mut i: usize = 0;
    assert(va@.skip(0) =~= va@);
    assert(vb@.skip(0) =~= vb@);
    while i < va.len() && i < vb.len() && va[i] == vb[i]
        invariant
            i <= va.len(),
            i <= vb.len(),
            lex_lt(va@, vb@) == lex_lt(va@.skip(i as int), vb@.skip(i as int)),
        decreases va.len() - i,
    {
        assert(va@.skip(i as int).drop_first() =~= va@.skip(i + 1));
        assert(vb@.skip(i as int).drop_first() =~= vb@.skip(i + 1));
        i += 1;
    }
    if i == va.len() {
        i < vb.len()
    } else if i == vb.len() {
        false
    } else {
        va[i] < vb[i]
    }
}


// ---------------------------------------------------------------------------
// Sorted sets of strings
// ---------------------------------------------------------------------------

pub open spec fn strings_view(s: Seq<String>) -> Seq<Seq<char>> {
    s.map_values(|x: String| x@)
}

/// Each string comes before the next: sorted, with no string twice.
pub open spec fn strictly_sorted(s: Seq<Seq<char>>) -> bool {
    forall|i: int, j: int| 0 <= i < j < s.len() ==> lex_lt(#[trigger] s[i], #[trigger] s[j])
}

/// The strings of `s` in order, each once (`sort` then `dedup`).
pub open spec fn sorted_set_of(s: Seq<Seq<char>>) -> Seq<Seq<char>> {
    choose|t: Seq<Seq<char>>| strictly_sorted(t) && t.to_set() == s.to_set()
}

proof fn lemma_drop_first_set(a: Seq<Seq<char>>)
    requires
        a.len() > 0,
        strictly_sorted(a),
    ensures
        a.drop_first().to_set() == a.to_set().remove(a[0]),
        strictly_sorted(a.drop_first()),
{
    let d = a.drop_first();
    assert forall|x: Seq<char>| d.to_set().contains(x) <==> a.to_set().remove(a[0]).contains(x) by {
        if d.to_set().contains(x) {
            let i = choose|i: int| 0 <= i < d.len() && d[i] == x;
            assert(a[i + 1] == x);
            assert(lex_lt(a[0], a[i + 1]));
            lemma_lex_irreflexive(a[0]);
            assert(a.contains(x));
        }
        if a.to_set().remove(a[0]).contains(x) {
            let i = choose|i: int| 0 <= i < a.len() && a[i] == x;
            assert(i != 0);
            assert(d[i - 1] == x);
            assert(d.contains(x));
        }
    }
    assert(d.to_set() =~= a.to_set().remove(a[0]));
    assert forall|i: int, j: int| 0 <= i < j < d.len() implies lex_lt(#[trigger] d[i], #[trigger] d[j]) by {
        assert(d[i] == a[i + 1] && d[j] == a[j + 1]);
    }
}

/// A set of strings has one strictly sorted sequence.
pub proof fn lemma_sorted_unique(a: Seq<Seq<char>>, b: Seq<Seq<char>>)
    requires
        strictly_sorted(a),
        strictly_sorted(b),
        a.to_set() == b.to_set(),
    ensures
        a == b,
    decreases a.len(),
{
    if a.len() == 0 {
        if b.len() > 0 {
            assert(b.to_set().contains(b[0]));
            assert(!a.to_set().contains(b[0]));
        }
        assert(a =~= b);
    } else {
        assert(a.to_set().contains(a[0]));
        assert(b.to_set().contains(a[0]));
        let j = choose|j: int| 0 <= j < b.len() && b[j] == a[0];
        assert(b.to_set().contains(b[0]));
        assert(a.to_set().contains(b[0]));
        let k = choose|k: int| 0 <= k < a.len() && a[k] == b[0];
        if j > 0 && k > 0 {
            assert(lex_lt(b[0], b[j]));
            assert(lex_lt(a[0], a[k]));
            lemma_lex_asymmetric(a[0], b[0]);
        }
        assert(a[0] == b[0]);
        lemma_drop_first_set(a);
        lemma_drop_first_set(b);
        lemma_sorted_unique(a.drop_first(), b.drop_first());
        assert(a =~= seq![a[0]] + a.drop_first());
        assert(b =~= seq![b[0]] + b.drop_first());
    }
}

/// The strings of `v` in order, each once.
pub fn sort_dedup(v: &Vec<String>) -> (r: Vec<String>)
    ensures
        strings_view(r@) == sorted_set_of(strings_view(v@)),
{
    let mut out: Vec<String> = Vec::new();
    let mut i: usize = 0;
    while i < v.len()
        invariant
            i <= v.len(),
            strictly_sorted(strings_view(out@)),
            strings_view(out@).to_set() == strings_view(v@.take(i as int)).to_set(),
        decreases v.len() - i,
    {
        let ghost before = strings_view(out@);
        insert_sorted(&mut out, &v[i]);
        assert(strings_view(v@.take((i + 1) as int)) =~= strings_view(v@.take(i as int)).push(v@[i as int]@));
        assert(strings_view(v@.take((i + 1) as int)).to_set() =~= strings_view(v@.take(i as int)).to_set().insert(v@[i as int]@)) by {
            let p = strings_view(v@.take(i as int));
            let q = strings_view(v@.take((i + 1) as int));
            assert forall|x: Seq<char>| q.to_set().contains(x) <==> p.to_set().insert(v@[i as int]@).contains(x) by {
                if q.contains(x) {
                    let k = choose|k: int| 0 <= k < q.len() && q[k] == x;
                    if k < p.len() {
                        assert(p[k] == x);
                    }
                }
                if p.contains(x) {
                    let k = choose|k: int| 0 <= k < p.len() && p[k] == x;
                    assert(q[k] == x);
                }
                if x == v@[i as int]@ {
                    assert(q[i as int] == x);
                }
            }
        }
        i += 1;
    }
    assert(v@.take(v.len() as int) =~= v@);
    let ghost t = strings_view(out@);
    proof {
        assert(strictly_sorted(t) && t.to_set() == strings_view(v@).to_set());
        lemma_sorted_unique(t, sorted_set_of(strings_view(v@)));
    }
    out
}

/// Inserts `x` at its place in a strictly sorted vector, unless it is there.
fn insert_sorted(out: &mut Vec<String>, x: &String)
    requires
        strictly_sorted(strings_view(old(out)@)),
    ensures
        strictly_sorted(strings_view(final(out)@)),
        strings_view(final(out)@).to_set() == strings_view(old(out)@).to_set().insert(x@),
{
    let ghost s = strings_view(out@);
    let mut k: usize = 0;
    while k < out.len() && str_lt(out[k].as_str(), x.as_str())
        invariant
            k <= out.len(),
            s == strings_view(out@),
            strictly_sorted(s),
            forall|j: int| 0 <= j < k ==> lex_lt(#[trigger] s[j], x@),
        decreases out.len() - k,
    {
        k += 1;
    }
    if k < out.len() && str_eq(out[k].as_str(), x.as_str()) {
        assert(s[k as int] == x@);
        assert(s.to_set().insert(x@) =~= s.to_set());
        return;
    }
    proof {
        if k < s.len() {
            lemma_lex_total(s[k as int], x@);
        }
    }
    out.insert(k, x.clone());
    let ghost t = strings_view(out@);
    assert(t =~= s.take(k as int).push(x@) + s.skip(k as int));
    assert forall|i: int, j: int| 0 <= i < j < t.len() implies lex_lt(#[trigger] t[i], #[trigger] t[j]) by {
        if j < k {
            assert(t[i] == s[i] && t[j] == s[j]);
        } else if j == k {
            assert(t[i] == s[i]);
        } else if i == k {
            assert(t[j] == s[j - 1]);
            if j - 1 > k {
                assert(lex_lt(s[k as int], s[j - 1]));
                lemma_lex_transitive(x@, s[k as int], s[j - 1]);
            }
        } else if i < k {
            assert(t[i] == s[i] && t[j] == s[j - 1]);
        } else {
            assert(t[i] == s[i - 1] && t[j] == s[j - 1]);
        }
    }
    assert forall|y: Seq<char>| t.to_set().contains(y) <==> s.to_set().insert(x@).contains(y) by {
        if t.contains(y) {
            let i = choose|i: int| 0 <= i < t.len() && t[i] == y;
            if i < k {
                assert(s[i] == y);
            } else if i > k {
                assert(s[i - 1] == y);
            }
        }
        if s.contains(y) {
            let i = choose|i: int| 0 <= i < s.len() && s[i] == y;
            if i < k {
                assert(t[i] == y);
            } else {
                assert(t[i + 1] == y);
            }
        }
        if y == x@ {
            assert(t[k as int] == y);
        }
    }
    assert(t.to_set() =~= s.to_set().insert(x@));
}

// ---------------------------------------------------------------------------
// Joining
// ---------------------------------------------------------------------------

/// `parts.join(sep)`.
pub open spec fn join_with(parts: Seq<Seq<char>>, sep: Seq<char>) -> Seq<char>
    decreases parts.len(),
{
    if parts.len() == 0 {
        Seq::empty()
    } else if parts.len() == 1 {
        parts[0]
    } else {
        join_with(parts.drop_last(), sep) + sep + parts.last()
    }
}

/// `parts.join(sep)`.
pub fn join_strings(parts: &Vec<String>, sep: &str) -> (r: String)
    ensures
        r@ == join_with(strings_view(parts@), sep@),
{
    let sc = str_chars(sep);
    let mut out: Vec<char> = Vec::new();
    let mut i: usize = 0;
    while i < parts.len()
        invariant
            i <= parts.len(),
            sc@ == sep@,
            out@ == join_with(strings_view(parts@.take(i as int)), sep@),
        decreases parts.len() - i,
    {
        let ghost before = out@;
        assert(strings_view(parts@.take((i + 1) as int)).drop_last() =~= strings_view(
            parts@.take(i as int),
        ));
        if i > 0 {
            extend_chars(&mut out, &sc);
        }
        let p = str_chars(parts[i].as_str());
        extend_chars(&mut out, &p);
        proof {
            let t = strings_view(parts@.take((i + 1) as int));
            if i == 0 {
                assert(out@ =~= t[0]);
            } else {
                assert(out@ =~= before + sep@ + t.last());
            }
        }
        i += 1;
    }
    assert(parts@.take(parts.len() as int) =~= parts@);
    chars_to_string(&out)
}

} // verus!
