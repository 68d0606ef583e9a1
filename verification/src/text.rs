//! Text primitives the flat-name codec and the CLI parsers are built on.
//!
//! The flat backup names use a double-underscore field separator, splitting
//! leftmost-first and non-overlapping.  `split_sep` is the mathematical
//! splitter; `split_sep_str` the executable one.  The lemmas tie the two
//! together with concatenation, which carries the codec's round-trip law.

use vstd::prelude::*;

verus! {

// --------------------------------------------------------------------------
// ASCII whitespace and trimming
// --------------------------------------------------------------------------
/// The ASCII whitespace characters, as configuration values carry them.
pub open spec fn ws(c: char) -> bool {
    c == ' ' || c == '\t' || c == '\n' || c == '\r' || c == '\u{b}' || c == '\u{c}'
}

/// Executable form of `ws`.
pub fn is_ws(c: char) -> (r: bool)
    ensures
        r == ws(c),
{
    c == ' ' || c == '\t' || c == '\n' || c == '\r' || c == '\u{b}' || c == '\u{c}'
}

/// `s` without leading ASCII whitespace.
pub open spec fn trim_front(s: Seq<char>) -> Seq<char>
    decreases s.len(),
{
    if s.len() > 0 && ws(s[0]) {
        trim_front(s.subrange(1, s.len() as int))
    } else {
        s
    }
}

/// `s` without trailing ASCII whitespace.
pub open spec fn trim_back(s: Seq<char>) -> Seq<char>
    decreases s.len(),
{
    if s.len() > 0 && ws(s[s.len() - 1]) {
        trim_back(s.subrange(0, s.len() - 1))
    } else {
        s
    }
}

/// `s` without leading and trailing ASCII whitespace.
pub open spec fn trim_spec(s: Seq<char>) -> Seq<char> {
    trim_back(trim_front(s))
}

/// `s` neither starts nor ends with whitespace; trimming it changes nothing.
pub open spec fn trimmed(s: Seq<char>) -> bool {
    s.len() > 0 ==> !ws(s[0]) && !ws(s[s.len() - 1])
}

pub proof fn lemma_trim_of_trimmed(s: Seq<char>)
    requires
        trimmed(s),
    ensures
        trim_spec(s) == s,
{
}

/// `trim_front` drops exactly the longest whitespace prefix.
proof fn lemma_trim_front_skip(s: Seq<char>, k: int)
    requires
        0 <= k <= s.len(),
        forall|j: int| 0 <= j < k ==> ws(s[j]),
        k < s.len() ==> !ws(s[k]),
    ensures
        trim_front(s) == s.subrange(k, s.len() as int),
    decreases k,
{
    if k == 0 {
        assert(s.subrange(0, s.len() as int) =~= s);
    } else {
        let t = s.subrange(1, s.len() as int);
        assert(forall|j: int| 0 <= j < k - 1 ==> ws(t[j]));
        lemma_trim_front_skip(t, k - 1);
        assert(t.subrange(k - 1, t.len() as int) =~= s.subrange(k, s.len() as int));
    }
}

/// `trim_back` drops exactly the longest whitespace suffix.
proof fn lemma_trim_back_take(s: Seq<char>, k: int)
    requires
        0 <= k <= s.len(),
        forall|j: int| k <= j < s.len() ==> ws(s[j]),
        k > 0 ==> !ws(s[k - 1]),
    ensures
        trim_back(s) == s.subrange(0, k),
    decreases s.len() - k,
{
    if k == s.len() {
        assert(s.subrange(0, k) =~= s);
    } else {
        let t = s.subrange(0, s.len() - 1);
        assert(forall|j: int| k <= j < t.len() ==> ws(t[j]));
        lemma_trim_back_take(t, k);
        assert(t.subrange(0, k) =~= s.subrange(0, k));
    }
}

/// Both ends of `s` without its ASCII whitespace margins, as `str::trim`
/// gives them for ASCII text.
pub fn trim_str<'a>(s: &'a str) -> (r: &'a str)
    ensures
        r@ == trim_spec(s@),
        trimmed(r@),
{
    let len = s.unicode_len();
    let mut a: usize = 0;
    while a < len && is_ws(s.get_char(a))
        invariant
            0 <= a <= len,
            len == s@.len(),
            forall|j: int| 0 <= j < a ==> ws(s@[j]),
        decreases len - a,
    {
        a = a + 1;
    }
    proof {
        lemma_trim_front_skip(s@, a as int);
    }
    let mut b: usize = len;
    while b > a && is_ws(s.get_char(b - 1))
        invariant
            a <= b <= len,
            len == s@.len(),
            forall|j: int| b <= j < len ==> ws(s@[j]),
            a < len ==> !ws(s@[a as int]),
            forall|j: int| 0 <= j < a ==> ws(s@[j]),
        decreases b,
    {
        b = b - 1;
    }
    let r = s.substring_char(a, b);
    proof {
        let f = s@.subrange(a as int, s@.len() as int);
        if b == a {
            assert(forall|j: int| a <= j < s@.len() ==> ws(s@[j]));
        }
        assert(forall|j: int| (b - a) <= j < f.len() ==> ws(f[j]));
        lemma_trim_back_take(f, b - a);
        assert(f.subrange(0, b - a) =~= s@.subrange(a as int, b as int));
    }
    r
}

// --------------------------------------------------------------------------
// Character-level string building
// --------------------------------------------------------------------------
/// Relies on `String::push`: appends the one character to the end.
#[verifier::external_body]
pub fn push_char(s: &mut String, c: char)
    ensures
        final(s)@ == old(s)@.push(c),
{
    s.push(c);
}

// --------------------------------------------------------------------------
// The double-underscore field separator
// --------------------------------------------------------------------------
/// The field separator of flat backup names.
pub open spec fn sep_seq() -> Seq<char> {
    seq!['_', '_']
}

/// A separator occurrence starts at index `i` of `s`.
pub open spec fn sep_at(s: Seq<char>, i: int) -> bool {
    0 <= i && i + 2 <= s.len() && s[i] == '_' && s[i + 1] == '_'
}

/// No separator occurs anywhere in `s`.
pub open spec fn sep_free(s: Seq<char>) -> bool {
    forall|i: int| !sep_at(s, i)
}

/// `s` can stand as a non-final field of a flat name: it holds no separator
/// and does not end with an underscore, so gluing `__` behind it creates a
/// separator occurrence exactly at its end and none earlier.
pub open spec fn field_ok(s: Seq<char>) -> bool {
    sep_free(s) && (s.len() > 0 ==> s[s.len() - 1] != '_')
}

/// Leftmost-first, non-overlapping split of `s` on the separator; the result
/// always holds one field more than there are separator occurrences consumed.
pub open spec fn split_sep(s: Seq<char>) -> Seq<Seq<char>>
    decreases s.len(),
{
    if s.len() < 2 {
        seq![s]
    } else if s[0] == '_' && s[1] == '_' {
        seq![Seq::<char>::empty()] + split_sep(s.subrange(2, s.len() as int))
    } else {
        let rest = split_sep(s.subrange(1, s.len() as int));
        seq![seq![s[0]] + rest[0]] + rest.subrange(1, rest.len() as int)
    }
}

/// A separator-free text splits into just itself.
pub proof fn lemma_split_whole(s: Seq<char>)
    requires
        sep_free(s),
    ensures
        split_sep(s) == seq![s],
    decreases s.len(),
{
    if s.len() < 2 {
    } else {
        assert(!sep_at(s, 0));
        let t = s.subrange(1, s.len() as int);
        assert(forall|i: int| sep_at(t, i) ==> sep_at(s, i + 1));
        lemma_split_whole(t);
        assert(seq![s[0]] + t =~= s);
        let single: Seq<Seq<char>> = seq![t];
        assert(single.subrange(1, 1) =~= Seq::<Seq<char>>::empty());
        assert(seq![seq![s[0]] + t] + Seq::<Seq<char>>::empty() =~= seq![s]);
    }
}

/// Splitting `field __ rest` yields the field and then the split of the
/// rest, for any field that may stand in a non-final position.
pub proof fn lemma_split_prepend(a: Seq<char>, r: Seq<char>)
    requires
        field_ok(a),
    ensures
        split_sep(a + sep_seq() + r) == seq![a] + split_sep(r),
    decreases a.len(),
{
    let s = a + sep_seq() + r;
    assert(s.len() == a.len() + 2 + r.len());
    if a.len() == 0 {
        assert(s[0] == '_' && s[1] == '_');
        assert(s.subrange(2, s.len() as int) =~= r);
        assert(a =~= Seq::<char>::empty());
        assert(seq![Seq::<char>::empty()] + split_sep(r) =~= seq![a] + split_sep(r));
    } else {
        assert(s[0] == a[0]);
        if a.len() == 1 {
            assert(s[0] == a[0] && a[0] != '_');
        } else {
            assert(s[1] == a[1]);
            assert(!sep_at(a, 0));
        }
        assert(!(s[0] == '_' && s[1] == '_'));
        let a1 = a.subrange(1, a.len() as int);
        let s1 = s.subrange(1, s.len() as int);
        assert(s1 =~= a1 + sep_seq() + r);
        assert(forall|i: int| sep_at(a1, i) ==> sep_at(a, i + 1));
        if a1.len() > 0 {
            assert(a1[a1.len() - 1] == a[a.len() - 1]);
        }
        lemma_split_prepend(a1, r);
        let rest = split_sep(s1);
        assert(rest == seq![a1] + split_sep(r));
        assert(rest[0] == a1);
        assert(seq![s[0]] + rest[0] =~= a);
        assert(rest.subrange(1, rest.len() as int) =~= split_sep(r));
        assert(seq![seq![s[0]] + rest[0]] + rest.subrange(1, rest.len() as int) =~= seq![a]
            + split_sep(r));
    }
}

/// Executable split on the double-underscore separator; same fields, same
/// order as `split_sep`.
pub fn split_sep_str(s: &str) -> (r: Vec<String>)
    ensures
        r.deep_view() == split_sep(s@),
{
    let len = s.unicode_len();
    let mut parts: Vec<String> = Vec::new();
    let mut start: usize = 0;
    let mut i: usize = 0;
    proof {
        assert(s@.subrange(0, len as int) =~= s@);
        assert(parts.deep_view() + split_sep(s@) =~= split_sep(s@));
    }
    while i < len && i + 1 < len
        invariant
            start <= i,
            i <= len,
            len == s@.len(),
            split_sep(s@) == parts.deep_view() + split_sep(
                s@.subrange(start as int, len as int),
            ),
            forall|j: int|
                start <= j && j + 1 < i + 1 ==> !(#[trigger] s@[j] == '_' && s@[j + 1] == '_'),
        decreases len - i,
    {
        if s.get_char(i) == '_' && s.get_char(i + 1) == '_' {
            let field = s.substring_char(start, i);
            proof {
                let a = s@.subrange(start as int, i as int);
                let rest = s@.subrange(i + 2, len as int);
                assert(forall|k: int| sep_at(a, k) ==> (s@[start + k] == '_' && s@[start + k + 1]
                    == '_' && start <= start + k && start + k + 1 < i + 1)) by {
                    assert(forall|k: int| 0 <= k && k + 2 <= a.len() ==> #[trigger] a[k] == s@[
                        start + k
                    ] && a[k + 1] == s@[start + k + 1]);
                }
                assert(sep_free(a));
                if a.len() > 0 {
                    assert(a[a.len() - 1] == s@[i - 1]);
                    if s@[i - 1] == '_' {
                        assert(s@[i - 1] == '_' && s@[i - 1 + 1] == '_');
                        assert(false);
                    }
                }
                assert(field_ok(a));
                lemma_split_prepend(a, rest);
                assert(a + sep_seq() + rest =~= s@.subrange(start as int, len as int));
            }
            let ghost old_parts = parts.deep_view();
            parts.push(field.to_owned());
            proof {
                assert(parts.deep_view() =~= old_parts + seq![s@.subrange(
                    start as int,
                    i as int,
                )]);
                assert(parts.deep_view() + split_sep(s@.subrange(i + 2, len as int))
                    =~= old_parts + (seq![s@.subrange(start as int, i as int)] + split_sep(
                    s@.subrange(i + 2, len as int),
                )));
            }
            start = i + 2;
            i = i + 2;
        } else {
            i = i + 1;
        }
    }
    let field = s.substring_char(start, len);
    proof {
        let a = s@.subrange(start as int, len as int);
        assert(forall|k: int| sep_at(a, k) ==> (s@[start + k] == '_' && s@[start + k + 1] == '_'
            && start <= start + k && start + k + 1 < i + 1)) by {
            assert(forall|k: int| 0 <= k && k + 2 <= a.len() ==> #[trigger] a[k] == s@[start + k]
                && a[k + 1] == s@[start + k + 1]);
        }
        assert(sep_free(a));
        lemma_split_whole(a);
    }
    let ghost old_parts = parts.deep_view();
    parts.push(field.to_owned());
    proof {
        assert(parts.deep_view() =~= old_parts + seq![s@.subrange(start as int, len as int)]);
        assert(split_sep(s@) =~= parts.deep_view());
    }
    parts
}

/// Executable check of `field_ok`.
pub fn check_field_ok(s: &str) -> (r: bool)
    ensures
        r == field_ok(s@),
{
    let len = s.unicode_len();
    if len > 0 && s.get_char(len - 1) == '_' {
        return false;
    }
    let mut i: usize = 0;
    while i < len && i + 1 < len
        invariant
            i <= len,
            len == s@.len(),
            len > 0 ==> s@[len - 1] != '_',
            forall|j: int|
                0 <= j && j + 1 < i + 1 ==> !(#[trigger] s@[j] == '_' && s@[j + 1] == '_'),
        decreases len - i,
    {
        if s.get_char(i) == '_' && s.get_char(i + 1) == '_' {
            assert(sep_at(s@, i as int));
            return false;
        }
        i = i + 1;
    }
    assert(forall|j: int| sep_at(s@, j) ==> (0 <= j && j + 1 < i + 1)) by {
        assert(forall|j: int| sep_at(s@, j) ==> 0 <= j && j + 2 <= len);
    }
    true
}

// --------------------------------------------------------------------------
// First and last occurrence of a marker character
// --------------------------------------------------------------------------
/// The prefix of `s` before the first occurrence of `c`; all of `s` if `c`
/// does not occur.
pub open spec fn before_char(s: Seq<char>, c: char) -> Seq<char>
    decreases s.len(),
{
    if s.len() == 0 {
        s
    } else if s[0] == c {
        Seq::empty()
    } else {
        seq![s[0]] + before_char(s.subrange(1, s.len() as int), c)
    }
}

/// The suffix of `s` after the last occurrence of `c`; all of `s` if `c`
/// does not occur.
pub open spec fn after_last_char(s: Seq<char>, c: char) -> Seq<char>
    decreases s.len(),
{
    if s.len() == 0 {
        s
    } else if s[s.len() - 1] == c {
        Seq::empty()
    } else {
        after_last_char(s.subrange(0, s.len() - 1), c) + seq![s[s.len() - 1]]
    }
}

proof fn lemma_before_char_at(s: Seq<char>, c: char, k: int)
    requires
        0 <= k <= s.len(),
        forall|j: int| 0 <= j < k ==> s[j] != c,
        k < s.len() ==> s[k] == c,
    ensures
        before_char(s, c) == s.subrange(0, k),
    decreases k,
{
    if s.len() == 0 {
        assert(s.subrange(0, 0) =~= s);
    } else if k == 0 {
        assert(s.subrange(0, 0) =~= Seq::<char>::empty());
    } else {
        let t = s.subrange(1, s.len() as int);
        lemma_before_char_at(t, c, k - 1);
        assert(t.subrange(0, k - 1) =~= s.subrange(1, k));
        assert(seq![s[0]] + s.subrange(1, k) =~= s.subrange(0, k));
    }
}

proof fn lemma_after_last_at(s: Seq<char>, c: char, k: int)
    requires
        0 <= k <= s.len(),
        forall|j: int| k <= j < s.len() ==> s[j] != c,
        k > 0 ==> s[k - 1] == c,
    ensures
        after_last_char(s, c) == s.subrange(k, s.len() as int),
    decreases s.len() - k,
{
    if s.len() == 0 {
        assert(s.subrange(0, 0) =~= s);
    } else if k == s.len() {
        assert(s[s.len() - 1] == c);
        assert(s.subrange(k, s.len() as int) =~= Seq::<char>::empty());
    } else {
        assert(s[s.len() - 1] != c);
        let t = s.subrange(0, s.len() - 1);
        assert(forall|j: int| k <= j < t.len() ==> t[j] == s[j]);
        lemma_after_last_at(t, c, k);
        assert(t.subrange(k, t.len() as int) =~= s.subrange(k, s.len() - 1));
        assert(s.subrange(k, s.len() - 1) + seq![s[s.len() - 1]] =~= s.subrange(
            k,
            s.len() as int,
        ));
    }
}

/// Where `c` does not occur, the prefix before it is the whole text.
pub proof fn lemma_before_char_whole(s: Seq<char>, c: char)
    requires
        forall|j: int| 0 <= j < s.len() ==> s[j] != c,
    ensures
        before_char(s, c) == s,
{
    lemma_before_char_at(s, c, s.len() as int);
    assert(s.subrange(0, s.len() as int) =~= s);
}

/// Where `c` first occurs at `k`, the prefix before it is `s` up to `k`.
pub proof fn lemma_before_char_prefix(s: Seq<char>, c: char, k: int)
    requires
        0 <= k < s.len(),
        s[k] == c,
        forall|j: int| 0 <= j < k ==> s[j] != c,
    ensures
        before_char(s, c) == s.subrange(0, k),
{
    lemma_before_char_at(s, c, k);
}

/// Where `c` does not occur, the suffix after it is the whole text.
pub proof fn lemma_after_last_whole(s: Seq<char>, c: char)
    requires
        forall|j: int| 0 <= j < s.len() ==> s[j] != c,
    ensures
        after_last_char(s, c) == s,
{
    lemma_after_last_at(s, c, 0);
    assert(s.subrange(0, s.len() as int) =~= s);
}

/// Where `c` last occurs at `k - 1`, the suffix after it is `s` from `k`.
pub proof fn lemma_after_last_suffix(s: Seq<char>, c: char, k: int)
    requires
        0 < k <= s.len(),
        s[k - 1] == c,
        forall|j: int| k <= j < s.len() ==> s[j] != c,
    ensures
        after_last_char(s, c) == s.subrange(k, s.len() as int),
{
    lemma_after_last_at(s, c, k);
}

/// The text before the first occurrence of `c`, as `s.split(c).next()` gives
/// it.
pub fn before_char_str<'a>(s: &'a str, c: char) -> (r: &'a str)
    ensures
        r@ == before_char(s@, c),
{
    let len = s.unicode_len();
    let mut i: usize = 0;
    while i < len && s.get_char(i) != c
        invariant
            0 <= i <= len,
            len == s@.len(),
            forall|j: int| 0 <= j < i ==> s@[j] != c,
        decreases len - i,
    {
        i = i + 1;
    }
    proof {
        lemma_before_char_at(s@, c, i as int);
    }
    s.substring_char(0, i)
}

/// The text after the last occurrence of `c`, as `s.split(c).last()` gives
/// it.
pub fn after_last_char_str<'a>(s: &'a str, c: char) -> (r: &'a str)
    ensures
        r@ == after_last_char(s@, c),
{
    let len = s.unicode_len();
    let mut k: usize = len;
    while k > 0 && s.get_char(k - 1) != c
        invariant
            0 <= k <= len,
            len == s@.len(),
            forall|j: int| k <= j < len ==> s@[j] != c,
        decreases k,
    {
        k = k - 1;
    }
    proof {
        lemma_after_last_at(s@, c, k as int);
    }
    s.substring_char(k, len)
}

// --------------------------------------------------------------------------
// Splitting on a single marker character
// --------------------------------------------------------------------------
/// Split of `s` on the character `c`, leftmost-first.
pub open spec fn split_char(s: Seq<char>, c: char) -> Seq<Seq<char>>
    decreases s.len(),
{
    if s.len() == 0 {
        seq![s]
    } else if s[0] == c {
        seq![Seq::<char>::empty()] + split_char(s.subrange(1, s.len() as int), c)
    } else {
        let rest = split_char(s.subrange(1, s.len() as int), c);
        seq![seq![s[0]] + rest[0]] + rest.subrange(1, rest.len() as int)
    }
}

/// A text without the marker splits into just itself.
pub proof fn lemma_split_char_whole(s: Seq<char>, c: char)
    requires
        forall|i: int| 0 <= i < s.len() ==> s[i] != c,
    ensures
        split_char(s, c) == seq![s],
    decreases s.len(),
{
    if s.len() == 0 {
    } else {
        let t = s.subrange(1, s.len() as int);
        lemma_split_char_whole(t, c);
        assert(seq![s[0]] + t =~= s);
        let single: Seq<Seq<char>> = seq![t];
        assert(single.subrange(1, 1) =~= Seq::<Seq<char>>::empty());
        assert(seq![seq![s[0]] + t] + Seq::<Seq<char>>::empty() =~= seq![s]);
    }
}

/// Splitting `field c rest` yields the field and then the split of the
/// rest, for any marker-free field.
pub proof fn lemma_split_char_prepend(a: Seq<char>, c: char, r: Seq<char>)
    requires
        forall|i: int| 0 <= i < a.len() ==> a[i] != c,
    ensures
        split_char(a + seq![c] + r, c) == seq![a] + split_char(r, c),
    decreases a.len(),
{
    let s = a + seq![c] + r;
    if a.len() == 0 {
        assert(s[0] == c);
        assert(s.subrange(1, s.len() as int) =~= r);
        assert(a =~= Seq::<char>::empty());
        assert(seq![Seq::<char>::empty()] + split_char(r, c) =~= seq![a] + split_char(r, c));
    } else {
        assert(s[0] == a[0] && a[0] != c);
        let a1 = a.subrange(1, a.len() as int);
        let s1 = s.subrange(1, s.len() as int);
        assert(s1 =~= a1 + seq![c] + r);
        lemma_split_char_prepend(a1, c, r);
        let rest = split_char(s1, c);
        assert(rest == seq![a1] + split_char(r, c));
        assert(rest[0] == a1);
        assert(seq![s[0]] + rest[0] =~= a);
        assert(rest.subrange(1, rest.len() as int) =~= split_char(r, c));
        assert(seq![seq![s[0]] + rest[0]] + rest.subrange(1, rest.len() as int) =~= seq![a]
            + split_char(r, c));
    }
}

/// Executable split on the character `c`; same fields, same order as
/// `split_char`.
pub fn split_char_str(s: &str, c: char) -> (r: Vec<String>)
    ensures
        r.deep_view() == split_char(s@, c),
{
    let len = s.unicode_len();
    let mut parts: Vec<String> = Vec::new();
    let mut start: usize = 0;
    let mut i: usize = 0;
    proof {
        assert(s@.subrange(0, len as int) =~= s@);
        assert(parts.deep_view() + split_char(s@, c) =~= split_char(s@, c));
    }
    while i < len
        invariant
            start <= i,
            i <= len,
            len == s@.len(),
            split_char(s@, c) == parts.deep_view() + split_char(
                s@.subrange(start as int, len as int),
                c,
            ),
            forall|j: int| start <= j < i ==> s@[j] != c,
        decreases len - i,
    {
        if s.get_char(i) == c {
            let field = s.substring_char(start, i);
            proof {
                let a = s@.subrange(start as int, i as int);
                let rest = s@.subrange(i + 1, len as int);
                assert(forall|k: int| 0 <= k < a.len() ==> a[k] == s@[start + k]);
                lemma_split_char_prepend(a, c, rest);
                assert(a + seq![c] + rest =~= s@.subrange(start as int, len as int));
            }
            let ghost old_parts = parts.deep_view();
            parts.push(field.to_owned());
            proof {
                assert(parts.deep_view() =~= old_parts + seq![s@.subrange(
                    start as int,
                    i as int,
                )]);
                assert(parts.deep_view() + split_char(s@.subrange(i + 1, len as int), c)
                    =~= old_parts + (seq![s@.subrange(start as int, i as int)] + split_char(
                    s@.subrange(i + 1, len as int),
                    c,
                )));
            }
            start = i + 1;
        }
        i = i + 1;
    }
    let field = s.substring_char(start, len);
    proof {
        let a = s@.subrange(start as int, len as int);
        assert(forall|k: int| 0 <= k < a.len() ==> a[k] == s@[start + k]);
        lemma_split_char_whole(a, c);
    }
    let ghost old_parts = parts.deep_view();
    parts.push(field.to_owned());
    proof {
        assert(parts.deep_view() =~= old_parts + seq![s@.subrange(start as int, len as int)]);
        assert(split_char(s@, c) =~= parts.deep_view());
    }
    parts
}

/// How often `c` occurs in `s`.
pub open spec fn count_char(s: Seq<char>, c: char) -> nat
    decreases s.len(),
{
    if s.len() == 0 {
        0
    } else {
        count_char(s.subrange(0, s.len() - 1), c) + (if s[s.len() - 1] == c {
            1nat
        } else {
            0nat
        })
    }
}

/// Executable occurrence count.
pub fn count_char_str(s: &str, c: char) -> (r: usize)
    ensures
        r as nat == count_char(s@, c),
{
    let len = s.unicode_len();
    let mut count: usize = 0;
    let mut i: usize = 0;
    while i < len
        invariant
            i <= len,
            count <= i,
            len == s@.len(),
            count as nat == count_char(s@.subrange(0, i as int), c),
        decreases len - i,
    {
        let ghost pre = s@.subrange(0, i as int);
        if s.get_char(i) == c {
            count = count + 1;
        }
        proof {
            let cur = s@.subrange(0, i + 1);
            assert(cur.subrange(0, cur.len() - 1) =~= pre);
            assert(cur[cur.len() - 1] == s@[i as int]);
        }
        i = i + 1;
    }
    proof {
        assert(s@.subrange(0, s@.len() as int) =~= s@);
    }
    count
}

/// Whether `c` occurs in `s`.
pub open spec fn has_char(s: Seq<char>, c: char) -> bool {
    exists|i: int| 0 <= i < s.len() && s[i] == c
}

/// Executable occurrence test.
pub fn has_char_str(s: &str, c: char) -> (r: bool)
    ensures
        r == has_char(s@, c),
{
    let len = s.unicode_len();
    let mut i: usize = 0;
    while i < len
        invariant
            i <= len,
            len == s@.len(),
            forall|j: int| 0 <= j < i ==> s@[j] != c,
        decreases len - i,
    {
        if s.get_char(i) == c {
            return true;
        }
        i = i + 1;
    }
    false
}

/// The suffix of `s` after the first occurrence of `c`; empty if `c` does
/// not occur.
pub open spec fn after_first_char(s: Seq<char>, c: char) -> Seq<char>
    decreases s.len(),
{
    if s.len() == 0 {
        s
    } else if s[0] == c {
        s.subrange(1, s.len() as int)
    } else {
        after_first_char(s.subrange(1, s.len() as int), c)
    }
}

proof fn lemma_after_first_at(s: Seq<char>, c: char, k: int)
    requires
        0 <= k < s.len(),
        s[k] == c,
        forall|j: int| 0 <= j < k ==> s[j] != c,
    ensures
        after_first_char(s, c) == s.subrange(k + 1, s.len() as int),
    decreases k,
{
    if k == 0 {
    } else {
        let t = s.subrange(1, s.len() as int);
        lemma_after_first_at(t, c, k - 1);
        assert(t.subrange(k, t.len() as int) =~= s.subrange(k + 1, s.len() as int));
    }
}

/// The text after the first occurrence of `c`, as the remainder of
/// `s.splitn(2, c)` gives it; empty where `c` does not occur.
pub fn after_first_char_str<'a>(s: &'a str, c: char) -> (r: &'a str)
    ensures
        r@ == after_first_char(s@, c),
{
    let len = s.unicode_len();
    let mut i: usize = 0;
    while i < len && s.get_char(i) != c
        invariant
            i <= len,
            len == s@.len(),
            forall|j: int| 0 <= j < i ==> s@[j] != c,
        decreases len - i,
    {
        i = i + 1;
    }
    if i < len {
        proof {
            lemma_after_first_at(s@, c, i as int);
        }
        s.substring_char(i + 1, len)
    } else {
        proof {
            lemma_after_first_empty(s@, c);
            assert(s@.subrange(len as int, len as int) =~= after_first_char(s@, c));
        }
        s.substring_char(len, len)
    }
}

proof fn lemma_after_first_empty(s: Seq<char>, c: char)
    requires
        forall|j: int| 0 <= j < s.len() ==> s[j] != c,
    ensures
        after_first_char(s, c).len() == 0,
    decreases s.len(),
{
    if s.len() > 0 {
        lemma_after_first_empty(s.subrange(1, s.len() as int), c);
    }
}

// --------------------------------------------------------------------------
// Joining
// --------------------------------------------------------------------------
/// The texts of `parts` glued with `sep` between neighbours.
pub open spec fn joined(parts: Seq<Seq<char>>, sep: char) -> Seq<char>
    decreases parts.len(),
{
    if parts.len() == 0 {
        Seq::empty()
    } else if parts.len() == 1 {
        parts[0]
    } else {
        joined(parts.drop_last(), sep) + seq![sep] + parts.last()
    }
}

/// Glue the texts of `v` with `sep`, as `v.join(sep)` gives it.
pub fn join_char(v: &Vec<String>, sep: char) -> (r: String)
    ensures
        r@ == joined(v.deep_view(), sep),
{
    let mut r = String::new();
    let mut i: usize = 0;
    proof {
        assert(v.deep_view().take(0) =~= Seq::<Seq<char>>::empty());
    }
    while i < v.len()
        invariant
            i <= v.len(),
            r@ == joined(v.deep_view().take(i as int), sep),
        decreases v.len() - i,
    {
        let ghost pre = v.deep_view().take(i as int);
        if i > 0 {
            push_char(&mut r, sep);
        }
        r.append(v[i].as_str());
        proof {
            let cur = v.deep_view().take(i + 1);
            assert(cur.drop_last() =~= pre);
            assert(cur.last() == v.deep_view()[i as int]);
            assert(v.deep_view()[i as int] == v@[i as int]@);
            if i == 0 {
                assert(r@ =~= joined(cur, sep));
            } else {
                assert(r@ =~= joined(cur, sep));
            }
        }
        i = i + 1;
    }
    proof {
        assert(v.deep_view().take(v.deep_view().len() as int) =~= v.deep_view());
    }
    r
}

// --------------------------------------------------------------------------
// Substring search
// --------------------------------------------------------------------------
/// `sub` occurs contiguously inside `s`.
pub open spec fn contains_seq(s: Seq<char>, sub: Seq<char>) -> bool {
    exists|i: int|
        0 <= i && i + sub.len() <= s.len() && #[trigger] s.subrange(i, i + sub.len() as int)
            == sub
}

/// Whether `sub` occurs inside `s`, as `s.contains(sub)` gives it.
pub fn contains_str(s: &str, sub: &str) -> (r: bool)
    ensures
        r == contains_seq(s@, sub@),
{
    let n = s.unicode_len();
    let m = sub.unicode_len();
    if m > n {
        return false;
    }
    if m == 0 {
        proof {
            assert(s@.subrange(0, 0 + sub@.len() as int) =~= sub@);
            assert(contains_seq(s@, sub@));
        }
        return true;
    }
    let mut i: usize = 0;
    while i <= n - m
        invariant
            1 <= m <= n,
            n == s@.len(),
            m == sub@.len(),
            i <= n - m + 1,
            forall|j: int|
                0 <= j < i ==> #[trigger] s@.subrange(j, j + sub@.len() as int) != sub@,
        decreases n - i,
    {
        let piece = s.substring_char(i, i + m);
        if piece.to_owned() == sub.to_owned() {
            proof {
                assert(s@.subrange(i as int, i as int + sub@.len() as int) == sub@);
                assert(contains_seq(s@, sub@));
            }
            return true;
        }
        i = i + 1;
    }
    proof {
        assert(forall|j: int|
            0 <= j && j + sub@.len() <= s@.len() ==> #[trigger] s@.subrange(
                j,
                j + sub@.len() as int,
            ) != sub@);
    }
    false
}

/// The texts of `parts` glued with the separator text `sep` between
/// neighbours.
pub open spec fn joined_sep(parts: Seq<Seq<char>>, sep: Seq<char>) -> Seq<char>
    decreases parts.len(),
{
    if parts.len() == 0 {
        Seq::empty()
    } else if parts.len() == 1 {
        parts[0]
    } else {
        joined_sep(parts.drop_last(), sep) + sep + parts.last()
    }
}

/// Glue the texts of `v` with `sep`, as `v.join(sep)` gives it.
pub fn join_str(v: &Vec<String>, sep: &str) -> (r: String)
    ensures
        r@ == joined_sep(v.deep_view(), sep@),
{
    let mut r = String::new();
    let mut i: usize = 0;
    proof {
        assert(v.deep_view().take(0) =~= Seq::<Seq<char>>::empty());
    }
    while i < v.len()
        invariant
            i <= v.len(),
            r@ == joined_sep(v.deep_view().take(i as int), sep@),
        decreases v.len() - i,
    {
        let ghost pre = v.deep_view().take(i as int);
        if i > 0 {
            r.append(sep);
        }
        r.append(v[i].as_str());
        proof {
            let cur = v.deep_view().take(i + 1);
            assert(cur.drop_last() =~= pre);
            assert(cur.last() == v.deep_view()[i as int]);
            assert(v.deep_view()[i as int] == v@[i as int]@);
            assert(r@ =~= joined_sep(cur, sep@));
        }
        i = i + 1;
    }
    proof {
        assert(v.deep_view().take(v.deep_view().len() as int) =~= v.deep_view());
    }
    r
}

} // verus!
