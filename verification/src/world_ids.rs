//! World identifiers: path-component checks, name slugs and unique ids.

use vstd::prelude::*;
use crate::text::{chars_to_string, concat_string, extend_chars, str_chars, usize_decimal, decimal};

verus! {

// ---------------------------------------------------------------------------
// Path components
// ---------------------------------------------------------------------------

/// A name that can stand as one component of a path below the data root:
/// not empty, not `.` or `..`, and free of path separators and NUL.
pub open spec fn is_safe_component(s: Seq<char>) -> bool {
    &&& s.len() > 0
    &&& s != seq!['.']
    &&& s != seq!['.', '.']
    &&& forall|i: int| 0 <= i < s.len() ==> !is_separator(#[trigger] s[i])
}

pub open spec fn is_separator(c: char) -> bool {
    c == '/' || c == '\\' || c == '\0'
}

pub open spec fn invalid_component_message(s: Seq<char>) -> Seq<char> {
    "Invalid path component: "@ + s
}

/// Checks that `value` can be used as a single path component.
pub fn validate_path_component(value: &str) -> (r: Result<(), String>)
    ensures
        r is Ok <==> is_safe_component(value@),
        r matches Err(msg) ==> msg@ == invalid_component_message(value@),
{
    let v = str_chars(value);
    let dot = v.len() == 1 && v[0] == '.';
    let dot_dot = v.len() == 2 && v[0] == '.' && v[1] == '.';
    assert(dot <==> v@ == seq!['.']) by {
        if v@ == seq!['.'] {
            assert(v@[0] == seq!['.'][0]);
        }
        if dot {
            assert(v@ =~= seq!['.']);
        }
    }
    assert(dot_dot <==> v@ == seq!['.', '.']) by {
        if v@ == seq!['.', '.'] {
            assert(v@[0] == seq!['.', '.'][0] && v@[1] == seq!['.', '.'][1]);
        }
        if dot_dot {
            assert(v@ =~= seq!['.', '.']);
        }
    }
    let mut has_separator = false;
    let mut i: usize = 0;
    while i < v.len()
        invariant
            i <= v.len(),
            has_separator <==> exists|k: int| 0 <= k < i && is_separator(#[trigger] v@[k]),
        decreases v.len() - i,
    {
        let c = v[i];
        if c == '/' || c == '\\' || c == '\0' {
            has_separator = true;
            assert(is_separator(v@[i as int]));
        }
        i += 1;
    }
    let ok = v.len() > 0 && !dot && !dot_dot && !has_separator;
    if ok {
        Ok(())
    } else {
        let prefix = str_chars("Invalid path component: ");
        Err(concat_string(&prefix, &v))
    }
}

// ---------------------------------------------------------------------------
// Slugs
// ---------------------------------------------------------------------------

/// `char::is_ascii_whitespace`.
pub open spec fn is_ascii_ws(c: char) -> bool {
    c == ' ' || c == '\t' || c == '\n' || c == '\x0C' || c == '\r'
}

/// What one character of a world name becomes in its slug.
pub open spec fn slug_char(c: char) -> Option<char> {
    if crate::text::is_ascii_alnum(c) {
        Some(crate::text::ascii_lower_char(c))
    } else if is_ascii_ws(c) || c == '-' || c == '_' {
        Some('_')
    } else if (c as u32) >= 128 {
        Some('_')
    } else {
        None
    }
}

/// The slug so far and whether its last character is a separator.
pub open spec fn slug_state(s: Seq<char>) -> (Seq<char>, bool)
    decreases s.len(),
{
    if s.len() == 0 {
        (Seq::empty(), false)
    } else {
        let (out, last_sep) = slug_state(s.drop_last());
        match slug_char(s.last()) {
            Some(m) => if m == '_' {
                if !last_sep && out.len() > 0 {
                    (out.push('_'), true)
                } else {
                    (out, last_sep)
                }
            } else {
                (out.push(m), false)
            },
            None => (out, last_sep),
        }
    }
}

/// `s` with trailing `'_'` removed.
pub open spec fn trim_end_underscores(s: Seq<char>) -> Seq<char>
    decreases s.len(),
{
    if s.len() > 0 && s.last() == '_' {
        trim_end_underscores(s.drop_last())
    } else {
        s
    }
}

/// `s` with leading `'_'` removed.
pub open spec fn trim_start_underscores(s: Seq<char>) -> Seq<char>
    decreases s.len(),
{
    if s.len() > 0 && s[0] == '_' {
        trim_start_underscores(s.drop_first())
    } else {
        s
    }
}

/// The slug of a world name: ASCII letters and digits lowercased, runs of
/// separators (whitespace, `-`, `_`, non-ASCII) collapsed to one `'_'`,
/// other characters dropped, and no `'_'` at either end.
pub open spec fn slug(s: Seq<char>) -> Seq<char> {
    trim_end_underscores(trim_start_underscores(slug_state(s).0))
}

fn is_ascii_whitespace(c: char) -> (r: bool)
    ensures
        r == is_ascii_ws(c),
{
    c == ' ' || c == '\t' || c == '\n' || c == '\x0C' || c == '\r'
}

/// Turns a display name into an identifier suffix.
pub fn slugify_world_name(name: &str) -> (r: String)
    ensures
        r@ == slug(name@),
{
    let chars = str_chars(name);
    let mut output: Vec<char> = Vec::new();
    let mut last_was_sep = false;
    let mut i: usize = 0;
    while i < chars.len()
        invariant
            i <= chars.len(),
            slug_state(chars@.take(i as int)) == (output@, last_was_sep),
        decreases chars.len() - i,
    {
        let ch = chars[i];
        let mapped: Option<char> = if crate::text::ascii_alnum(ch) {
            Some(crate::text::lower_ascii_char(ch))
        } else if is_ascii_whitespace(ch) || ch == '-' || ch == '_' {
            Some('_')
        } else if (ch as u32) >= 128 {
            Some('_')
        } else {
            None
        };
        assert(mapped == slug_char(ch));
        match mapped {
            Some(m) => {
                if m == '_' {
                    if !last_was_sep && output.len() > 0 {
                        output.push('_');
                        last_was_sep = true;
                    }
                } else {
                    output.push(m);
                    last_was_sep = false;
                }
            },
            None => {},
        }
        assert(chars@.take((i + 1) as int).drop_last() =~= chars@.take(i as int));
        i += 1;
    }
    assert(chars@.take(chars.len() as int) == chars@);
    // trim '_' at both ends
    let mut a: usize = 0;
    assert(output@.skip(0) == output@);
    while a < output.len() && output[a] == '_'
        invariant
            a <= output.len(),
            trim_start_underscores(output@) == trim_start_underscores(output@.skip(a as int)),
        decreases output.len() - a,
    {
        assert(output@.skip(a as int).drop_first() =~= output@.skip(a + 1));
        a += 1;
    }
    let ghost started = output@.skip(a as int);
    assert(trim_start_underscores(started) == started);
    let mut b: usize = output.len();
    assert(started.take((b - a) as int) == started);
    while b > a && output[b - 1] == '_'
        invariant
            a <= b <= output.len(),
            started == output@.skip(a as int),
            trim_end_underscores(started) == trim_end_underscores(
                started.take((b - a) as int),
            ),
        decreases b,
    {
        assert(started.take((b - a) as int).drop_last() =~= started.take((b - 1 - a) as int));
        b -= 1;
    }
    let trimmed = crate::text::sub_chars(&output, a, b);
    assert(trimmed@ =~= started.take((b - a) as int));
    chars_to_string(&trimmed)
}

/// The characters a slug is made of: lowercase ASCII letters, digits and `'_'`.
pub open spec fn is_slug_char(c: char) -> bool {
    ('0' <= c && c <= '9') || ('a' <= c && c <= 'z') || c == '_'
}

/// Only slug characters, never two `'_'` in a row, and no leading `'_'`.
pub open spec fn slug_body_shape(t: Seq<char>) -> bool {
    &&& forall|k: int| 0 <= k < t.len() ==> is_slug_char(#[trigger] t[k])
    &&& forall|k: int| 0 <= k < t.len() - 1 ==> !(#[trigger] t[k] == '_' && t[k + 1] == '_')
    &&& t.len() > 0 ==> t[0] != '_'
}

/// The ASCII letters and digits of `s`, lowercased, in order.
pub open spec fn alnum_lowered(s: Seq<char>) -> Seq<char>
    decreases s.len(),
{
    if s.len() == 0 {
        Seq::empty()
    } else if crate::text::is_ascii_alnum(s.last()) {
        alnum_lowered(s.drop_last()).push(crate::text::ascii_lower_char(s.last()))
    } else {
        alnum_lowered(s.drop_last())
    }
}

/// `t` with every `'_'` left out.
pub open spec fn without_underscores(t: Seq<char>) -> Seq<char>
    decreases t.len(),
{
    if t.len() == 0 {
        Seq::empty()
    } else if t.last() == '_' {
        without_underscores(t.drop_last())
    } else {
        without_underscores(t.drop_last()).push(t.last())
    }
}

proof fn lemma_slug_char_shape(c: char)
    ensures
        slug_char(c) matches Some(m) ==> is_slug_char(m),
        slug_char(c) matches Some(m) ==> (m == '_' <==> !crate::text::is_ascii_alnum(c)),
        crate::text::is_ascii_alnum(c) ==> slug_char(c) == Some(crate::text::ascii_lower_char(c)),
{
}

proof fn lemma_slug_state_shape(s: Seq<char>)
    ensures
        slug_body_shape(slug_state(s).0),
        slug_state(s).1 == (slug_state(s).0.len() > 0 && slug_state(s).0.last() == '_'),
        without_underscores(slug_state(s).0) == alnum_lowered(s),
    decreases s.len(),
{
    if s.len() > 0 {
        lemma_slug_state_shape(s.drop_last());
        lemma_slug_char_shape(s.last());
        let out = slug_state(s.drop_last()).0;
        match slug_char(s.last()) {
            Some(m) => {
                assert(out.push(m).drop_last() =~= out);
                if m != '_' {
                    let t = out.push(m);
                    assert forall|k: int| 0 <= k < t.len() - 1 implies !(#[trigger] t[k] == '_'
                        && t[k + 1] == '_') by {
                        if k + 1 < out.len() {
                            assert(out[k] == t[k]);
                        }
                    }
                }
            },
            None => {},
        }
    }
}

proof fn lemma_trim_end(s: Seq<char>) -> (n: int)
    ensures
        0 <= n <= s.len(),
        trim_end_underscores(s) == s.take(n),
        n > 0 ==> s[n - 1] != '_',
        forall|k: int| n <= k < s.len() ==> s[k] == '_',
    decreases s.len(),
{
    if s.len() > 0 && s.last() == '_' {
        let n = lemma_trim_end(s.drop_last());
        assert(s.drop_last().take(n) =~= s.take(n));
        assert forall|k: int| n <= k < s.len() implies s[k] == '_' by {
            if k < s.len() - 1 {
                assert(s.drop_last()[k] == s[k]);
            }
        }
        n
    } else {
        assert(s.take(s.len() as int) =~= s);
        s.len() as int
    }
}

proof fn lemma_without_trailing_underscores(s: Seq<char>, n: int)
    requires
        0 <= n <= s.len(),
        forall|k: int| n <= k < s.len() ==> s[k] == '_',
    ensures
        without_underscores(s.take(n)) == without_underscores(s),
    decreases s.len(),
{
    if s.len() > n {
        assert(s.drop_last().take(n) =~= s.take(n));
        lemma_without_trailing_underscores(s.drop_last(), n);
    } else {
        assert(s.take(n) =~= s);
    }
}

proof fn lemma_slug_state_fixed(t: Seq<char>)
    requires
        slug_body_shape(t),
    ensures
        slug_state(t) == (t, t.len() > 0 && t.last() == '_'),
    decreases t.len(),
{
    if t.len() > 0 {
        let p = t.drop_last();
        assert forall|k: int| 0 <= k < p.len() - 1 implies !(#[trigger] p[k] == '_' && p[k + 1]
            == '_') by {
            assert(t[k] == p[k]);
        }
        assert(slug_body_shape(p));
        lemma_slug_state_fixed(p);
        let c = t.last();
        assert(is_slug_char(t[t.len() - 1]));
        if c == '_' {
            assert(t.len() >= 2);
            assert(!(t[t.len() - 2] == '_' && t[t.len() - 1] == '_'));
        }
        assert(p.push(c) =~= t);
    }
}

proof fn lemma_slug_state_without_alnum(s: Seq<char>)
    requires
        forall|k: int| 0 <= k < s.len() ==> !crate::text::is_ascii_alnum(#[trigger] s[k]),
    ensures
        slug_state(s) == (Seq::<char>::empty(), false),
    decreases s.len(),
{
    if s.len() > 0 {
        lemma_slug_state_without_alnum(s.drop_last());
        assert(!crate::text::is_ascii_alnum(s[s.len() - 1]));
        lemma_slug_char_shape(s.last());
    }
}

/// A slug holds only lowercase ASCII letters, digits and `'_'`, never two
/// `'_'` in a row, and neither begins nor ends with `'_'`; leaving its `'_'`
/// out gives the ASCII letters and digits of the name, lowercased, in order.
pub proof fn law_slug_shape(name: Seq<char>)
    ensures
        slug_body_shape(slug(name)),
        slug(name).len() > 0 ==> slug(name).last() != '_',
        without_underscores(slug(name)) == alnum_lowered(name),
{
    lemma_slug_state_shape(name);
    let out = slug_state(name).0;
    assert(trim_start_underscores(out) == out);
    let n = lemma_trim_end(out);
    let t = out.take(n);
    assert forall|k: int| 0 <= k < t.len() - 1 implies !(#[trigger] t[k] == '_' && t[k + 1]
        == '_') by {
        assert(t[k] == out[k] && t[k + 1] == out[k + 1]);
    }
    assert forall|k: int| 0 <= k < t.len() implies is_slug_char(#[trigger] t[k]) by {
        assert(t[k] == out[k]);
    }
    lemma_without_trailing_underscores(out, n);
}

/// Slugging a slug gives it back unchanged.
pub proof fn law_slug_idempotent(name: Seq<char>)
    ensures
        slug(slug(name)) == slug(name),
{
    let t = slug(name);
    law_slug_shape(name);
    lemma_slug_state_fixed(t);
    assert(trim_start_underscores(t) == t);
    assert(trim_end_underscores(t) == t);
}

/// A name with no ASCII letter or digit has an empty slug.
pub proof fn law_slug_empty_without_alnum(name: Seq<char>)
    requires
        forall|k: int| 0 <= k < name.len() ==> !crate::text::is_ascii_alnum(#[trigger] name[k]),
    ensures
        slug(name).len() == 0,
{
    lemma_slug_state_without_alnum(name);
    assert(trim_start_underscores(Seq::<char>::empty()) == Seq::<char>::empty());
    assert(trim_end_underscores(Seq::<char>::empty()) == Seq::<char>::empty());
}

// ---------------------------------------------------------------------------
// Unique ids
// ---------------------------------------------------------------------------

/// The first id tried for a world name.
pub open spec fn base_world_id(name: Seq<char>) -> Seq<char> {
    if slug(name).len() == 0 {
        "world"@
    } else {
        "world_"@ + slug(name)
    }
}

/// The `i`-th id tried (from 1): the base id, then `base_2`, `base_3`, ...
pub open spec fn world_id_candidate(name: Seq<char>, i: int) -> Seq<char> {
    if i <= 1 {
        base_world_id(name)
    } else {
        base_world_id(name) + "_"@ + decimal(i as nat)
    }
}

/// How many ids are tried before giving up.
pub const MAX_WORLD_ID_ATTEMPTS: usize = 10_000;

pub open spec fn views(v: Seq<String>) -> Seq<Seq<char>> {
    v.map_values(|s: String| s@)
}

/// Whether a list of strings holds `s`.
pub fn contains_string(list: &[String], s: &String) -> (r: bool)
    ensures
        r == views(list@).contains(s@),
{
    let mut i: usize = 0;
    while i < list.len()
        invariant
            i <= list.len(),
            forall|k: int| 0 <= k < i ==> list@[k]@ != s@,
        decreases list.len() - i,
    {
        if list[i] == *s {
            assert(views(list@)[i as int] == s@);
            return true;
        }
        i += 1;
    }
    assert forall|k: int| 0 <= k < views(list@).len() implies views(list@)[k] != s@ by {}
    false
}

/// A world id for `name` that none of `existing` holds: the base id, or
/// the first of `base_2`, `base_3`, ... below `base_10000` that is free.
pub fn allocate_world_id(name: &str, existing: &[String]) -> (r: Result<String, String>)
    ensures
        r matches Ok(id) ==> exists|i: int|
            1 <= i < MAX_WORLD_ID_ATTEMPTS && id@ == world_id_candidate(name@, i) && !views(
                existing@,
            ).contains(world_id_candidate(name@, i)) && forall|j: int|
                1 <= j < i ==> views(existing@).contains(world_id_candidate(name@, j)),
        r matches Err(msg) ==> forall|i: int|
            1 <= i < MAX_WORLD_ID_ATTEMPTS ==> views(existing@).contains(
                world_id_candidate(name@, i),
            ),
        r matches Err(msg) ==> msg@ == "Failed to allocate a unique world_id"@,
{
    let base = slugify_world_name(name);
    let base_chars = str_chars(base.as_str());
    let mut candidate: Vec<char>;
    if base_chars.len() == 0 {
        candidate = str_chars("world");
    } else {
        candidate = str_chars("world_");
        extend_chars(&mut candidate, &base_chars);
    }
    assert(candidate@ == base_world_id(name@));
    let first = chars_to_string(&candidate);
    if !contains_string(existing, &first) {
        assert(first@ == world_id_candidate(name@, 1));
        return Ok(first);
    }
    proof {
        reveal_strlit("_");
    }
    let mut index: usize = 2;
    while index < MAX_WORLD_ID_ATTEMPTS
        invariant
            2 <= index <= MAX_WORLD_ID_ATTEMPTS,
            candidate@ == base_world_id(name@),
            forall|j: int| 1 <= j < index ==> views(existing@).contains(world_id_candidate(name@, j)),
        decreases MAX_WORLD_ID_ATTEMPTS - index,
    {
        let mut next = candidate.clone();
        next.push('_');
        let digits = usize_decimal(index);
        extend_chars(&mut next, &digits);
        proof {
            reveal_strlit("_");
        }
        assert(next@ =~= world_id_candidate(name@, index as int));
        let next_string = chars_to_string(&next);
        if !contains_string(existing, &next_string) {
            return Ok(next_string);
        }
        index += 1;
    }
    Err(chars_to_string(&str_chars("Failed to allocate a unique world_id")))
}

proof fn lemma_decimal_digits(n: nat)
    ensures
        decimal(n).len() > 0,
        forall|k: int| 0 <= k < decimal(n).len() ==> '0' <= #[trigger] decimal(n)[k] <= '9',
    decreases n,
{
    if n >= 10 {
        lemma_decimal_digits(n / 10);
        let d = decimal(n / 10);
        assert forall|k: int| 0 <= k < decimal(n).len() implies '0' <= #[trigger] decimal(n)[k] <= '9' by {
            if k < d.len() {
                assert(decimal(n)[k] == d[k]);
            }
        }
    }
}

/// Every id tried for a world, the base id and each numbered one, can
/// stand as a single path component.
pub proof fn law_world_id_candidates_are_safe(name: Seq<char>, i: int)
    requires
        1 <= i,
    ensures
        is_safe_component(world_id_candidate(name, i)),
{
    reveal_strlit("world");
    reveal_strlit("world_");
    reveal_strlit("_");
    law_slug_shape(name);
    let b = base_world_id(name);
    let sl = slug(name);
    assert forall|k: int| 0 <= k < b.len() implies !is_separator(#[trigger] b[k]) by {
        if sl.len() > 0 && k >= 6 {
            assert(b[k] == sl[k - 6]);
            assert(is_slug_char(sl[k - 6]));
        }
    }
    assert(b[0] == 'w');
    if i > 1 {
        lemma_decimal_digits(i as nat);
        let c = world_id_candidate(name, i);
        let dec = decimal(i as nat);
        assert(c == b + "_"@ + dec);
        assert forall|k: int| 0 <= k < c.len() implies !is_separator(#[trigger] c[k]) by {
            if k < b.len() {
                assert(c[k] == b[k]);
            } else if k == b.len() {
                assert(c[k] == '_');
            } else {
                assert(c[k] == dec[k - b.len() - 1]);
            }
        }
        assert(c[0] == 'w');
        assert(c != seq!['.']);
        assert(c != seq!['.', '.']);
    } else {
        assert(b != seq!['.']);
        assert(b != seq!['.', '.']);
    }
}

} // verus!
