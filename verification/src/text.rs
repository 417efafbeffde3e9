//! Character-sequence helpers shared by the rest of the library: the
//! mathematical meaning of the string operations the library performs, and
//! verified executable versions of them.

use vstd::prelude::*;

verus! {

// ---------------------------------------------------------------------------
// Mathematical meaning
// ---------------------------------------------------------------------------

/// The views of a sequence of strings.
pub open spec fn views(v: Seq<String>) -> Seq<Seq<char>> {
    v.map_values(|s: String| s@)
}

/// `c` is one of the ASCII digits `0`..=`9`.
pub open spec fn is_digit(c: char) -> bool {
    '0' <= c && c <= '9'
}

/// `c` is an ASCII letter.
pub open spec fn is_ascii_letter(c: char) -> bool {
    ('a' <= c && c <= 'z') || ('A' <= c && c <= 'Z')
}

/// Every occurrence of `from` in `s` replaced by `to`.
pub open spec fn replace_char(s: Seq<char>, from: char, to: Seq<char>) -> Seq<char>
    decreases s.len(),
{
    if s.len() == 0 {
        Seq::empty()
    } else {
        replace_char(s.drop_last(), from, to) + (if s.last() == from {
            to
        } else {
            seq![s.last()]
        })
    }
}

/// `s` without its ASCII digits.
pub open spec fn strip_digits(s: Seq<char>) -> Seq<char>
    decreases s.len(),
{
    if s.len() == 0 {
        Seq::empty()
    } else {
        strip_digits(s.drop_last()) + (if is_digit(s.last()) {
            Seq::empty()
        } else {
            seq![s.last()]
        })
    }
}

/// The number of ASCII digits in `s`.
pub open spec fn digit_count(s: Seq<char>) -> nat
    decreases s.len(),
{
    if s.len() == 0 {
        0
    } else {
        digit_count(s.drop_last()) + (if is_digit(s.last()) { 1nat } else { 0nat })
    }
}

/// The number of ASCII letters in `s`.
pub open spec fn letter_count(s: Seq<char>) -> nat
    decreases s.len(),
{
    if s.len() == 0 {
        0
    } else {
        letter_count(s.drop_last()) + (if is_ascii_letter(s.last()) { 1nat } else { 0nat })
    }
}

/// The elements of `s` in order of first occurrence, each once, leaving out
/// every element equal to `skip`.
pub open spec fn distinct_without<A>(s: Seq<A>, skip: Option<A>) -> Seq<A>
    decreases s.len(),
{
    if s.len() == 0 {
        Seq::empty()
    } else {
        let d = distinct_without(s.drop_last(), skip);
        if skip == Some(s.last()) || d.contains(s.last()) {
            d
        } else {
            d.push(s.last())
        }
    }
}

/// The elements of `s` in order of first occurrence, each once.
pub open spec fn distinct<A>(s: Seq<A>) -> Seq<A> {
    distinct_without(s, None)
}

/// `n` occurs in `h` starting at index `i`.
pub open spec fn occurs_at(h: Seq<char>, n: Seq<char>, i: int) -> bool {
    0 <= i && i + n.len() <= h.len() && h.subrange(i, i + n.len()) == n
}

/// `n` occurs somewhere in `h` (as `str::contains` decides).
pub open spec fn contains_seq(h: Seq<char>, n: Seq<char>) -> bool {
    exists|i: int| occurs_at(h, n, i)
}

/// `h` begins with `p`.
pub open spec fn starts_with(h: Seq<char>, p: Seq<char>) -> bool {
    p.len() <= h.len() && h.take(p.len() as int) == p
}

/// The first index at or after `from` where `n` occurs in `h`.
pub open spec fn find_from(h: Seq<char>, n: Seq<char>, from: nat) -> Option<nat>
    decreases h.len() + 1 - from,
{
    if from + n.len() > h.len() {
        None
    } else if h.subrange(from as int, (from + n.len()) as int) == n {
        Some(from)
    } else {
        find_from(h, n, from + 1)
    }
}

/// The first index where `n` occurs in `h` (as `str::find` decides, counted
/// in characters).
pub open spec fn find(h: Seq<char>, n: Seq<char>) -> Option<nat> {
    find_from(h, n, 0)
}

/// The last index `i` with `i + n.len() <= end` where `n` occurs in `h`.
pub open spec fn rfind_before(h: Seq<char>, n: Seq<char>, end: int) -> Option<nat>
    decreases end,
{
    if end < n.len() || end > h.len() {
        None
    } else if h.subrange(end - n.len(), end) == n {
        Some((end - n.len()) as nat)
    } else if end == 0 {
        None
    } else {
        rfind_before(h, n, end - 1)
    }
}

/// The first index at or after `from` holding `c`.
pub open spec fn find_char_from(h: Seq<char>, c: char, from: nat) -> Option<nat>
    decreases h.len() - from,
{
    if from >= h.len() {
        None
    } else if h[from as int] == c {
        Some(from)
    } else {
        find_char_from(h, c, from + 1)
    }
}

// ---------------------------------------------------------------------------
// Lemmas
// ---------------------------------------------------------------------------

pub proof fn lemma_views_push(v: Seq<String>, s: String)
    ensures
        views(v.push(s)) == views(v).push(s@),
{
    assert(views(v.push(s)) =~= views(v).push(s@));
}

pub proof fn lemma_distinct_without(s: Seq<Seq<char>>, skip: Option<Seq<char>>)
    ensures
        distinct_without(s, skip).no_duplicates(),
        forall|x: Seq<char>|
            #[trigger] distinct_without(s, skip).contains(x) <==> (s.contains(x) && skip != Some(x)),
    decreases s.len(),
{
    if s.len() > 0 {
        let t = s.drop_last();
        lemma_distinct_without(t, skip);
        let d = distinct_without(t, skip);
        let l = s.last();
        assert(s == t.push(l));
        assert forall|x: Seq<char>| s.contains(x) <==> (t.contains(x) || x == l) by {
            if s.contains(x) {
                let k = choose|k: int| 0 <= k < s.len() && s[k] == x;
                if k < s.len() - 1 {
                    assert(t[k] == x);
                }
            }
            if t.contains(x) {
                let k = choose|k: int| 0 <= k < t.len() && t[k] == x;
                assert(s[k] == x);
            }
            if x == l {
                assert(s[s.len() - 1] == x);
            }
        }
        if !(skip == Some(l) || d.contains(l)) {
            let e = d.push(l);
            assert forall|x: Seq<char>| e.contains(x) <==> (d.contains(x) || x == l) by {
                if e.contains(x) {
                    let k = choose|k: int| 0 <= k < e.len() && e[k] == x;
                    if k < e.len() - 1 {
                        assert(d[k] == x);
                    }
                }
                if d.contains(x) {
                    let k = choose|k: int| 0 <= k < d.len() && d[k] == x;
                    assert(e[k] == x);
                }
                if x == l {
                    assert(e[e.len() - 1] == x);
                }
            }
            assert forall|i: int, j: int| 0 <= i < e.len() && 0 <= j < e.len() && i != j implies e[i] != e[j] by {
                if i < d.len() && j < d.len() {
                    assert(e[i] == d[i] && e[j] == d[j]);
                } else if i == d.len() {
                    assert(e[j] == d[j]);
                    assert(d.contains(d[j]));
                } else {
                    assert(e[i] == d[i]);
                    assert(d.contains(d[i]));
                }
            }
        }
    }
}

pub proof fn lemma_find_from(h: Seq<char>, n: Seq<char>, from: nat)
    ensures
        match find_from(h, n, from) {
            Some(i) => from <= i && occurs_at(h, n, i as int) && forall|j: int|
                from <= j < i ==> !occurs_at(h, n, j),
            None => forall|j: int| from <= j ==> !occurs_at(h, n, j),
        },
    decreases h.len() + 1 - from,
{
    if from + n.len() > h.len() {
    } else if h.subrange(from as int, (from + n.len()) as int) == n {
    } else {
        lemma_find_from(h, n, from + 1);
    }
}

pub proof fn lemma_find_char_from(h: Seq<char>, c: char, from: nat)
    ensures
        match find_char_from(h, c, from) {
            Some(i) => from <= i < h.len() && h[i as int] == c && forall|j: int|
                from <= j < i ==> h[j] != c,
            None => forall|j: int| from <= j < h.len() ==> h[j] != c,
        },
    decreases h.len() - from,
{
    if from < h.len() && h[from as int] != c {
        lemma_find_char_from(h, c, from + 1);
    }
}

// ---------------------------------------------------------------------------
// Executable versions
// ---------------------------------------------------------------------------

/// The characters of a string slice, in order.
pub fn chars_of(s: &str) -> (v: Vec<char>)
    ensures
        v@ == s@,
{
    let mut v: Vec<char> = Vec::new();
    for c in it: s.chars()
        invariant
            it.seq() == s@,
            v@ == it.seq().take(it.index() as int),
    {
        v.push(c);
    }
    v
}

/// Appends one character to a string.
///
/// Trusted: wraps `String::push`, which std documents as appending the given
/// `char` to the end of the string.
#[verifier::external_body]
pub(crate) fn push_char(s: &mut String, c: char)
    ensures
        final(s)@ == old(s)@.push(c),
{
    s.push(c);
}

/// Appends characters to a string.
pub fn push_chars(s: &mut String, cs: &[char])
    ensures
        final(s)@ == old(s)@ + cs@,
{
    let mut i: usize = 0;
    while i < cs.len()
        invariant
            i <= cs@.len(),
            s@ == old(s)@ + cs@.take(i as int),
        decreases cs@.len() - i,
    {
        push_char(s, cs[i]);
        assert(cs@.take(i + 1) == cs@.take(i as int).push(cs@[i as int]));
        i += 1;
    }
    assert(cs@.take(cs@.len() as int) == cs@);
}

/// A string holding exactly the given characters.
pub fn string_of(cs: &[char]) -> (s: String)
    ensures
        s@ == cs@,
{
    let mut s = String::new();
    push_chars(&mut s, cs);
    s
}

/// Concatenation of two string slices.
pub fn concat(a: &str, b: &str) -> (r: String)
    ensures
        r@ == a@ + b@,
{
    let mut s = String::from_str(a);
    s.append(b);
    s
}

/// Equality of two strings.
pub fn str_eq(a: &str, b: &str) -> (r: bool)
    ensures
        r == (a@ == b@),
{
    let x = chars_of(a);
    let y = chars_of(b);
    chars_eq(x.as_slice(), y.as_slice())
}

/// Equality of two character slices.
pub fn chars_eq(a: &[char], b: &[char]) -> (r: bool)
    ensures
        r == (a@ == b@),
{
    if a.len() != b.len() {
        return false;
    }
    let mut i: usize = 0;
    while i < a.len()
        invariant
            a@.len() == b@.len(),
            i <= a@.len(),
            forall|j: int| 0 <= j < i ==> a@[j] == b@[j],
        decreases a@.len() - i,
    {
        if a[i] != b[i] {
            return false;
        }
        i += 1;
    }
    assert(a@ =~= b@);
    true
}

/// Whether `n` occurs in `h` at index `i`.
pub fn occurs_at_exec(h: &[char], n: &[char], i: usize) -> (r: bool)
    ensures
        r == occurs_at(h@, n@, i as int),
{
    let hl = h.len();
    if i > hl || n.len() > hl - i {
        return false;
    }
    let mut k: usize = 0;
    while k < n.len()
        invariant
            hl == h@.len(),
            i + n@.len() <= h@.len(),
            k <= n@.len(),
            forall|j: int| 0 <= j < k ==> h@[i + j] == n@[j],
        decreases n@.len() - k,
    {
        if h[i + k] != n[k] {
            assert(h@.subrange(i as int, i + n@.len())[k as int] != n@[k as int]);
            return false;
        }
        k += 1;
    }
    assert(h@.subrange(i as int, i + n@.len()) =~= n@);
    true
}

/// The first index at or after `from` where `n` occurs in `h`.
pub fn find_from_exec(h: &[char], n: &[char], from: usize) -> (r: Option<usize>)
    ensures
        match r {
            Some(i) => find_from(h@, n@, from as nat) == Some(i as nat),
            None => find_from(h@, n@, from as nat) is None,
        },
{
    let hl = h.len();
    if n.len() == 0 {
        if from <= hl {
            assert(h@.subrange(from as int, from as int) =~= n@);
            return Some(from);
        } else {
            return None;
        }
    }
    let mut i = from;
    while i <= hl && n.len() <= hl - i
        invariant
            hl == h@.len(),
            n@.len() > 0,
            from <= i,
            find_from(h@, n@, from as nat) == find_from(h@, n@, i as nat),
        decreases h@.len() + 1 - i,
    {
        if occurs_at_exec(h, n, i) {
            return Some(i);
        }
        i += 1;
    }
    None
}

/// Whether `n` occurs anywhere in `h`.
pub fn contains_exec(h: &[char], n: &[char]) -> (r: bool)
    ensures
        r == contains_seq(h@, n@),
{
    let r = find_from_exec(h, n, 0);
    proof {
        lemma_find_from(h@, n@, 0);
    }
    r.is_some()
}

/// Whether `h` begins with `p`.
pub fn starts_with_exec(h: &[char], p: &[char]) -> (r: bool)
    ensures
        r == starts_with(h@, p@),
{
    let r = occurs_at_exec(h, p, 0);
    proof {
        if p@.len() <= h@.len() {
            assert(h@.subrange(0, p@.len() as int) == h@.take(p@.len() as int));
        }
    }
    r
}

/// The first index at or after `from` holding `c`.
pub fn find_char_from_exec(h: &[char], c: char, from: usize) -> (r: Option<usize>)
    ensures
        match r {
            Some(i) => find_char_from(h@, c, from as nat) == Some(i as nat),
            None => find_char_from(h@, c, from as nat) is None,
        },
{
    let mut i = from;
    while i < h.len()
        invariant
            from <= i,
            find_char_from(h@, c, from as nat) == find_char_from(h@, c, i as nat),
        decreases h@.len() - i,
    {
        if h[i] == c {
            return Some(i);
        }
        i += 1;
    }
    None
}

/// The last index `i` with `i + n.len() <= end` where `n` occurs in `h`.
pub fn rfind_before_exec(h: &[char], n: &[char], end: usize) -> (r: Option<usize>)
    requires
        end <= h@.len(),
    ensures
        match r {
            Some(i) => rfind_before(h@, n@, end as int) == Some(i as nat),
            None => rfind_before(h@, n@, end as int) is None,
        },
{
    if n.len() == 0 {
        assert(h@.subrange(end as int, end as int) =~= n@);
        return Some(end);
    }
    let mut e = end;
    while e >= n.len()
        invariant
            n@.len() > 0,
            e <= end <= h@.len(),
            rfind_before(h@, n@, end as int) == rfind_before(h@, n@, e as int),
        decreases e,
    {
        let i = e - n.len();
        if occurs_at_exec(h, n, i) {
            return Some(i);
        }
        e -= 1;
    }
    None
}

/// Every occurrence of `from` in `s` replaced by `to`.
pub fn replace_char_exec(s: &[char], from: char, to: &[char]) -> (r: Vec<char>)
    ensures
        r@ == replace_char(s@, from, to@),
{
    let mut r: Vec<char> = Vec::new();
    let mut i: usize = 0;
    while i < s.len()
        invariant
            i <= s@.len(),
            r@ == replace_char(s@.take(i as int), from, to@),
        decreases s@.len() - i,
    {
        assert(s@.take(i + 1).drop_last() == s@.take(i as int));
        if s[i] == from {
            let mut k: usize = 0;
            let ghost r0 = r@;
            while k < to.len()
                invariant
                    k <= to@.len(),
                    r@ == r0 + to@.take(k as int),
                decreases to@.len() - k,
            {
                r.push(to[k]);
                assert(to@.take(k + 1) == to@.take(k as int).push(to@[k as int]));
                k += 1;
            }
            assert(to@.take(to@.len() as int) == to@);
        } else {
            r.push(s[i]);
        }
        i += 1;
    }
    assert(s@.take(s@.len() as int) == s@);
    r
}

} // verus!

verus! {

/// What `str::to_lowercase` returns for a string with these characters.
pub uninterp spec fn spec_lowercase(s: Seq<char>) -> Seq<char>;

/// What `str::to_uppercase` returns for a string with these characters.
pub uninterp spec fn spec_uppercase(s: Seq<char>) -> Seq<char>;

/// Every character of `s` is ASCII.
pub open spec fn all_ascii(s: Seq<char>) -> bool {
    forall|i: int| 0 <= i < s.len() ==> (s[i] as u32) < 128
}

/// The ASCII lower-case form of a character: `A`..=`Z` become `a`..=`z`,
/// every other character stays.
pub open spec fn ascii_lower(c: char) -> char {
    if 'A' <= c && c <= 'Z' {
        ((c as u32) + 32) as char
    } else {
        c
    }
}

/// The ASCII upper-case form of a character: `a`..=`z` become `A`..=`Z`,
/// every other character stays.
pub open spec fn ascii_upper(c: char) -> char {
    if 'a' <= c && c <= 'z' {
        ((c as u32) - 32) as char
    } else {
        c
    }
}

/// Unicode lower-case form of a string.
///
/// Trusted: wraps `str::to_lowercase`. Its result depends on the characters
/// of the argument alone (through Unicode's case tables, which take pages to
/// state), so the contract names it; of ASCII text it states what the tables
/// give: each upper-case letter becomes its lower-case letter and every
/// other character stays.
#[verifier::external_body]
pub(crate) fn lowercase(s: &str) -> (r: String)
    ensures
        r@ == spec_lowercase(s@),
        all_ascii(s@) ==> r@ == s@.map_values(|c: char| ascii_lower(c)),
{
    s.to_lowercase()
}

/// Unicode upper-case form of a string.
///
/// Trusted: wraps `str::to_uppercase`; as for `lowercase`, the contract names
/// the result as a function of the characters of the argument, and of ASCII
/// text states that each lower-case letter becomes its upper-case letter and
/// every other character stays.
#[verifier::external_body]
pub(crate) fn uppercase(s: &str) -> (r: String)
    ensures
        r@ == spec_uppercase(s@),
        all_ascii(s@) ==> r@ == s@.map_values(|c: char| ascii_upper(c)),
{
    s.to_uppercase()
}

/// `s` without its ASCII digits.
pub fn strip_digits_exec(s: &[char]) -> (r: Vec<char>)
    ensures
        r@ == strip_digits(s@),
{
    let mut r: Vec<char> = Vec::new();
    let mut i: usize = 0;
    while i < s.len()
        invariant
            i <= s@.len(),
            r@ == strip_digits(s@.take(i as int)),
        decreases s@.len() - i,
    {
        assert(s@.take(i + 1).drop_last() == s@.take(i as int));
        let c = s[i];
        if !('0' <= c && c <= '9') {
            r.push(c);
        }
        proof {
            if is_digit(c) {
                assert(r@ =~= strip_digits(s@.take(i as int)) + Seq::<char>::empty());
            }
        }
        i += 1;
    }
    assert(s@.take(s@.len() as int) == s@);
    r
}

} // verus!

verus! {

/// Adds `cand` to `out` unless it equals `skip` or is already in `out`.
pub fn push_distinct(
    out: &mut Vec<String>,
    cand: String,
    skip: Option<&String>,
    Ghost(cands): Ghost<Seq<Seq<char>>>,
)
    requires
        views(old(out)@) == distinct_without(cands, opt_ref_view(skip)),
    ensures
        views(final(out)@) == distinct_without(cands.push(cand@), opt_ref_view(skip)),
{
    assert(cands.push(cand@).drop_last() == cands);
    match skip {
        Some(sk) => {
            if cand == *sk {
                return;
            }
        },
        None => {},
    }
    let mut i: usize = 0;
    while i < out.len()
        invariant
            i <= out@.len(),
            views(out@) == distinct_without(cands, opt_ref_view(skip)),
            forall|j: int| 0 <= j < i ==> out@[j]@ != cand@,
        decreases out@.len() - i,
    {
        if out[i] == cand {
            assert(views(out@)[i as int] == cand@);
            assert(views(out@).contains(cand@));
            assert(cands.push(cand@).drop_last() == cands);
            return;
        }
        i += 1;
    }
    assert(!views(out@).contains(cand@)) by {
        if views(out@).contains(cand@) {
            let k = choose|k: int| 0 <= k < views(out@).len() && views(out@)[k] == cand@;
            assert(out@[k]@ == cand@);
        }
    }
    proof {
        lemma_views_push(out@, cand);
    }
    out.push(cand);
}

/// The view of an optional string reference.
pub open spec fn opt_ref_view(o: Option<&String>) -> Option<Seq<char>> {
    match o {
        Some(s) => Some(s@),
        None => None,
    }
}

} // verus!

verus! {

/// What `char::is_alphanumeric` returns for `c`.
pub uninterp spec fn spec_is_alphanumeric(c: char) -> bool;

/// Whether `c` is alphabetic or numeric in Unicode's sense.
///
/// Trusted: wraps `char::is_alphanumeric`, whose answer depends on `c` alone
/// (through Unicode's Alphabetic and Numeric properties, which take pages to
/// state), so the contract only names it.
#[verifier::external_body]
pub(crate) fn is_alphanumeric(c: char) -> (r: bool)
    ensures
        r == spec_is_alphanumeric(c),
{
    c.is_alphanumeric()
}

/// The number of bytes of the UTF-8 encoding of `c`.
pub open spec fn char_utf8_len(c: char) -> nat {
    if (c as u32) < 0x80 {
        1
    } else if (c as u32) < 0x800 {
        2
    } else if (c as u32) < 0x10000 {
        3
    } else {
        4
    }
}

/// The number of bytes of the UTF-8 encoding of `s` (what `str::len` returns).
pub open spec fn utf8_len(s: Seq<char>) -> nat
    decreases s.len(),
{
    if s.len() == 0 {
        0
    } else {
        utf8_len(s.drop_last()) + char_utf8_len(s.last())
    }
}

/// The number of bytes of the UTF-8 encoding of `c`.
pub fn char_utf8_len_exec(c: char) -> (n: usize)
    ensures
        n == char_utf8_len(c),
{
    let cp = c as u32;
    if cp < 0x80 {
        1
    } else if cp < 0x800 {
        2
    } else if cp < 0x10000 {
        3
    } else {
        4
    }
}

proof fn lemma_utf8_len_take(s: Seq<char>, i: int)
    requires
        0 <= i < s.len(),
    ensures
        utf8_len(s.take(i + 1)) == utf8_len(s.take(i)) + char_utf8_len(s[i]),
{
    assert(s.take(i + 1).drop_last() == s.take(i));
}

/// Whether the UTF-8 encoding of `s` is longer than `k` bytes.
pub fn utf8_len_exceeds(s: &[char], k: usize) -> (r: bool)
    requires
        k <= usize::MAX - 4,
    ensures
        r == (utf8_len(s@) > k),
{
    let mut acc: usize = 0;
    let mut i: usize = 0;
    while i < s.len()
        invariant
            i <= s@.len(),
            k <= usize::MAX - 4,
            acc == utf8_len(s@.take(i as int)),
            acc <= k,
        decreases s@.len() - i,
    {
        proof {
            lemma_utf8_len_take(s@, i as int);
        }
        acc = acc + char_utf8_len_exec(s[i]);
        if acc > k {
            proof {
                lemma_utf8_len_prefix(s@, i + 1);
            }
            return true;
        }
        i += 1;
    }
    assert(s@.take(s@.len() as int) == s@);
    false
}

proof fn lemma_utf8_len_prefix(s: Seq<char>, i: int)
    requires
        0 <= i <= s.len(),
    ensures
        utf8_len(s.take(i)) <= utf8_len(s),
    decreases s.len(),
{
    if i < s.len() {
        assert(s.drop_last().take(i) == s.take(i));
        lemma_utf8_len_prefix(s.drop_last(), i);
    } else {
        assert(s.take(i) == s);
    }
}

/// Whether the UTF-8 encoding of `s` is shorter than `k` bytes.
pub fn utf8_len_below(s: &[char], k: usize) -> (r: bool)
    requires
        1 <= k <= usize::MAX - 4,
    ensures
        r == (utf8_len(s@) < k),
{
    !utf8_len_exceeds(s, k - 1)
}

} // verus!

verus! {

// ---------------------------------------------------------------------------
// Trimming and lines
// ---------------------------------------------------------------------------

/// `c` has Unicode's White_Space property (what `char::is_whitespace`
/// decides).
pub open spec fn is_whitespace(c: char) -> bool {
    let v = c as u32;
    (0x9 <= v && v <= 0xd) || v == 0x20 || v == 0x85 || v == 0xa0 || v == 0x1680 || (0x2000 <= v
        && v <= 0x200a) || v == 0x2028 || v == 0x2029 || v == 0x202f || v == 0x205f || v == 0x3000
}

/// Whether `c` is whitespace in Unicode's sense.
pub fn is_whitespace_exec(c: char) -> (r: bool)
    ensures
        r == is_whitespace(c),
{
    let v = c as u32;
    (0x9 <= v && v <= 0xd) || v == 0x20 || v == 0x85 || v == 0xa0 || v == 0x1680 || (0x2000 <= v
        && v <= 0x200a) || v == 0x2028 || v == 0x2029 || v == 0x202f || v == 0x205f || v == 0x3000
}

/// `c` belongs to the class: whitespace for `None`, one of the listed
/// characters for `Some`.
pub open spec fn in_class(c: char, cls: Option<Seq<char>>) -> bool {
    match cls {
        None => is_whitespace(c),
        Some(set) => set.contains(c),
    }
}

/// `s` without its leading characters of the class.
pub open spec fn trim_start_class(s: Seq<char>, cls: Option<Seq<char>>) -> Seq<char>
    decreases s.len(),
{
    if s.len() > 0 && in_class(s[0], cls) {
        trim_start_class(s.drop_first(), cls)
    } else {
        s
    }
}

/// `s` without its trailing characters of the class.
pub open spec fn trim_end_class(s: Seq<char>, cls: Option<Seq<char>>) -> Seq<char>
    decreases s.len(),
{
    if s.len() > 0 && in_class(s.last(), cls) {
        trim_end_class(s.drop_last(), cls)
    } else {
        s
    }
}

/// `s` without leading and trailing whitespace (what `str::trim` returns).
pub open spec fn trim(s: Seq<char>) -> Seq<char> {
    trim_end_class(trim_start_class(s, None), None)
}

/// `s` with every leading copy of `p` removed (what `str::trim_start_matches`
/// returns for a string pattern).
pub open spec fn strip_prefixes(s: Seq<char>, p: Seq<char>) -> Seq<char>
    decreases s.len(),
{
    if p.len() > 0 && starts_with(s, p) {
        strip_prefixes(s.skip(p.len() as int), p)
    } else {
        s
    }
}

/// The class of `c` as the executable test sees it.
pub open spec fn class_view(cls: Option<&[char]>) -> Option<Seq<char>> {
    match cls {
        Some(set) => Some(set@),
        None => None,
    }
}

fn in_class_exec(c: char, cls: Option<&[char]>) -> (r: bool)
    ensures
        r == in_class(c, class_view(cls)),
{
    match cls {
        None => is_whitespace_exec(c),
        Some(set) => {
            let mut i: usize = 0;
            while i < set.len()
                invariant
                    cls == Some(set),
                    i <= set@.len(),
                    forall|k: int| 0 <= k < i ==> set@[k] != c,
                decreases set@.len() - i,
            {
                if set[i] == c {
                    assert(set@[i as int] == c);
                    return true;
                }
                i += 1;
            }
            assert(!set@.contains(c)) by {
                if set@.contains(c) {
                    let k = choose|k: int| 0 <= k < set@.len() && set@[k] == c;
                }
            }
            false
        },
    }
}

/// A copy of `s[from..to]`.
pub fn slice_chars(s: &[char], from: usize, to: usize) -> (r: Vec<char>)
    requires
        from <= to <= s@.len(),
    ensures
        r@ == s@.subrange(from as int, to as int),
{
    let mut r: Vec<char> = Vec::new();
    let mut i = from;
    while i < to
        invariant
            from <= i <= to <= s@.len(),
            r@ == s@.subrange(from as int, i as int),
        decreases to - i,
    {
        r.push(s[i]);
        assert(s@.subrange(from as int, i + 1) == s@.subrange(from as int, i as int).push(s@[i as int]));
        i += 1;
    }
    r
}

proof fn lemma_trim_start_skip(s: Seq<char>, cls: Option<Seq<char>>, i: int)
    requires
        0 <= i <= s.len(),
        forall|k: int| 0 <= k < i ==> in_class(s[k], cls),
    ensures
        trim_start_class(s, cls) == trim_start_class(s.skip(i), cls),
    decreases i,
{
    if i > 0 {
        assert(s.skip(1) == s.drop_first());
        lemma_trim_start_skip(s.drop_first(), cls, i - 1);
        assert(s.drop_first().skip(i - 1) == s.skip(i));
    } else {
        assert(s.skip(0) == s);
    }
}

proof fn lemma_trim_end_take(s: Seq<char>, cls: Option<Seq<char>>, j: int)
    requires
        0 <= j <= s.len(),
        forall|k: int| j <= k < s.len() ==> in_class(s[k], cls),
    ensures
        trim_end_class(s, cls) == trim_end_class(s.take(j), cls),
    decreases s.len() - j,
{
    if j < s.len() {
        assert(s.take(s.len() - 1) == s.drop_last());
        lemma_trim_end_take(s.drop_last(), cls, j);
        assert(s.drop_last().take(j) == s.take(j));
    } else {
        assert(s.take(j) == s);
    }
}

/// `s` without its leading characters of the class.
pub fn trim_start_class_exec(s: &[char], cls: Option<&[char]>) -> (r: Vec<char>)
    ensures
        r@ == trim_start_class(s@, class_view(cls)),
{
    let mut i: usize = 0;
    while i < s.len() && in_class_exec(s[i], cls)
        invariant
            i <= s@.len(),
            forall|k: int| 0 <= k < i ==> in_class(s@[k], class_view(cls)),
        decreases s@.len() - i,
    {
        i += 1;
    }
    proof {
        lemma_trim_start_skip(s@, class_view(cls), i as int);
    }
    assert(s@.skip(i as int) == s@.subrange(i as int, s@.len() as int));
    slice_chars(s, i, s.len())
}

/// `s` without its trailing characters of the class.
pub fn trim_end_class_exec(s: &[char], cls: Option<&[char]>) -> (r: Vec<char>)
    ensures
        r@ == trim_end_class(s@, class_view(cls)),
{
    let mut j: usize = s.len();
    while j > 0 && in_class_exec(s[j - 1], cls)
        invariant
            j <= s@.len(),
            forall|k: int| j <= k < s@.len() ==> in_class(s@[k], class_view(cls)),
        decreases j,
    {
        j -= 1;
    }
    proof {
        lemma_trim_end_take(s@, class_view(cls), j as int);
    }
    assert(s@.take(j as int) == s@.subrange(0, j as int));
    slice_chars(s, 0, j)
}

/// `s` without leading and trailing whitespace.
pub fn trim_exec(s: &[char]) -> (r: Vec<char>)
    ensures
        r@ == trim(s@),
{
    let a = trim_start_class_exec(s, None);
    trim_end_class_exec(&a, None)
}

/// `s` with every leading copy of `p` removed.
pub fn strip_prefixes_exec(s: &[char], p: &[char]) -> (r: Vec<char>)
    ensures
        r@ == strip_prefixes(s@, p@),
{
    if p.len() == 0 {
        return slice_chars(s, 0, s.len());
    }
    let mut i: usize = 0;
    assert(s@.skip(0) == s@);
    while i <= s.len() && starts_with_at(s, p, i)
        invariant
            p@.len() > 0,
            i <= s@.len(),
            strip_prefixes(s@, p@) == strip_prefixes(s@.skip(i as int), p@),
        decreases s@.len() - i,
    {
        proof {
            assert(s@.skip(i as int).skip(p@.len() as int) == s@.skip(i + p@.len()));
            assert(starts_with(s@.skip(i as int), p@));
        }
        i += p.len();
    }
    proof {
        assert(s@.skip(i as int) == s@.subrange(i as int, s@.len() as int));
    }
    slice_chars(s, i, s.len())
}

/// Whether `s[i..]` begins with `p`.
fn starts_with_at(s: &[char], p: &[char], i: usize) -> (r: bool)
    requires
        i <= s@.len(),
    ensures
        r == starts_with(s@.skip(i as int), p@),
        r ==> i + p@.len() <= s@.len(),
{
    let r = occurs_at_exec(s, p, i);
    proof {
        if i + p@.len() <= s@.len() {
            assert(s@.skip(i as int).take(p@.len() as int) == s@.subrange(i as int, i + p@.len()));
        }
    }
    r
}

/// The lines of `s` (what `str::lines` yields): split after each `\n`, a
/// final piece without `\n` kept when not empty, and from each piece the
/// `\n` and then a `\r` before it removed.
pub open spec fn spec_lines(s: Seq<char>) -> Seq<Seq<char>> {
    let (done, cur) = lines_state(s);
    if cur.len() > 0 {
        done.push(cur)
    } else {
        done
    }
}

/// The lines finished so far and the piece in progress.
pub open spec fn lines_state(s: Seq<char>) -> (Seq<Seq<char>>, Seq<char>)
    decreases s.len(),
{
    if s.len() == 0 {
        (Seq::empty(), Seq::empty())
    } else {
        let (done, cur) = lines_state(s.drop_last());
        if s.last() == '\n' {
            (done.push(strip_cr(cur)), Seq::empty())
        } else {
            (done, cur.push(s.last()))
        }
    }
}

/// `s` without one trailing `\r`.
pub open spec fn strip_cr(s: Seq<char>) -> Seq<char> {
    if s.len() > 0 && s.last() == '\r' {
        s.drop_last()
    } else {
        s
    }
}

/// The lines of `s`.
pub fn lines_exec(s: &[char]) -> (r: Vec<Vec<char>>)
    ensures
        r@.map_values(|l: Vec<char>| l@) == spec_lines(s@),
{
    let mut done: Vec<Vec<char>> = Vec::new();
    let mut cur: Vec<char> = Vec::new();
    let mut i: usize = 0;
    while i < s.len()
        invariant
            i <= s@.len(),
            done@.map_values(|l: Vec<char>| l@) == lines_state(s@.take(i as int)).0,
            cur@ == lines_state(s@.take(i as int)).1,
        decreases s@.len() - i,
    {
        assert(s@.take(i + 1).drop_last() == s@.take(i as int));
        if s[i] == '\n' {
            let mut line = cur;
            if line.len() > 0 && line[line.len() - 1] == '\r' {
                line.pop();
            }
            let ghost dv = done@;
            done.push(line);
            assert(done@.map_values(|l: Vec<char>| l@) =~= dv.map_values(|l: Vec<char>| l@).push(line@));
            cur = Vec::new();
        } else {
            cur.push(s[i]);
        }
        i += 1;
    }
    assert(s@.take(s@.len() as int) == s@);
    if cur.len() > 0 {
        let ghost dv = done@;
        done.push(cur);
        assert(done@.map_values(|l: Vec<char>| l@) =~= dv.map_values(|l: Vec<char>| l@).push(cur@));
    }
    done
}

} // verus!

verus! {

/// The strings of `parts` joined with `sep` between neighbours (what
/// `[T]::join` returns).
pub open spec fn join(parts: Seq<Seq<char>>, sep: Seq<char>) -> Seq<char>
    decreases parts.len(),
{
    if parts.len() == 0 {
        Seq::empty()
    } else if parts.len() == 1 {
        parts[0]
    } else {
        join(parts.drop_last(), sep) + sep + parts.last()
    }
}

/// The strings of `parts` joined with `sep` between neighbours.
pub fn join_exec(parts: &Vec<Vec<char>>, sep: &[char]) -> (r: Vec<char>)
    ensures
        r@ == join(parts@.map_values(|p: Vec<char>| p@), sep@),
{
    let ghost pv = parts@.map_values(|p: Vec<char>| p@);
    let mut r: Vec<char> = Vec::new();
    let mut i: usize = 0;
    while i < parts.len()
        invariant
            pv == parts@.map_values(|p: Vec<char>| p@),
            i <= parts@.len(),
            r@ == join(pv.take(i as int), sep@),
        decreases parts@.len() - i,
    {
        assert(pv.take(i + 1).drop_last() == pv.take(i as int));
        let ghost before = r@;
        if i > 0 {
            let mut k: usize = 0;
            while k < sep.len()
                invariant
                    k <= sep@.len(),
                    r@ == before + sep@.take(k as int),
                decreases sep@.len() - k,
            {
                r.push(sep[k]);
                assert(sep@.take(k + 1) == sep@.take(k as int).push(sep@[k as int]));
                k += 1;
            }
            assert(sep@.take(sep@.len() as int) == sep@);
        }
        let ghost mid = r@;
        let part = &parts[i];
        let mut k: usize = 0;
        while k < part.len()
            invariant
                k <= part@.len(),
                r@ == mid + part@.take(k as int),
            decreases part@.len() - k,
        {
            r.push(part[k]);
            assert(part@.take(k + 1) == part@.take(k as int).push(part@[k as int]));
            k += 1;
        }
        assert(part@.take(part@.len() as int) == part@);
        if i == 0 {
            assert(r@ =~= pv.take(1)[0]);
        }
        i += 1;
    }
    assert(pv.take(parts@.len() as int) == pv);
    r
}

/// The views of a list of character vectors.
pub open spec fn cviews(v: Seq<Vec<char>>) -> Seq<Seq<char>> {
    v.map_values(|p: Vec<char>| p@)
}

/// The characters of each string of a list.
pub fn chars_of_all(v: &Vec<String>) -> (r: Vec<Vec<char>>)
    ensures
        cviews(r@) == views(v@),
{
    let mut r: Vec<Vec<char>> = Vec::new();
    let mut i: usize = 0;
    while i < v.len()
        invariant
            i <= v@.len(),
            cviews(r@) == views(v@).take(i as int),
        decreases v@.len() - i,
    {
        let c = chars_of(v[i].as_str());
        let ghost before = r@;
        r.push(c);
        assert(cviews(r@) =~= cviews(before).push(c@));
        assert(views(v@).take(i + 1) =~= views(v@).take(i as int).push(v@[i as int]@));
        i += 1;
    }
    assert(views(v@).take(v@.len() as int) == views(v@));
    r
}

} // verus!

verus! {

proof fn lemma_find_from_skip(s: Seq<char>, n: Seq<char>, i: int, k: nat)
    requires
        0 <= i <= s.len(),
    ensures
        match (find_from(s.skip(i), n, k), find_from(s, n, (i + k) as nat)) {
            (Some(a), Some(b)) => b == a + i,
            (None, None) => true,
            _ => false,
        },
    decreases s.len() + 1 - (i + k),
{
    let t = s.skip(i);
    if k + n.len() > t.len() {
    } else {
        assert(t.subrange(k as int, (k + n.len()) as int) =~= s.subrange(i + k, i + k + n.len()));
        if t.subrange(k as int, (k + n.len()) as int) == n {
        } else {
            lemma_find_from_skip(s, n, i, k + 1);
            assert((i + k) as nat + 1 == (i + (k + 1)) as nat);
        }
    }
}

/// `s` with each non-overlapping occurrence of the non-empty `from`, taken
/// left to right, replaced by `to` (what `str::replace` returns for a string
/// pattern).
pub open spec fn replace_str(s: Seq<char>, from: Seq<char>, to: Seq<char>) -> Seq<char>
    decreases s.len(),
{
    if from.len() == 0 {
        s
    } else {
        match find(s, from) {
            Some(j) => {
                proof {
                    lemma_find_from(s, from, 0);
                }
                s.take(j as int) + to + replace_str(s.skip((j + from.len()) as int), from, to)
            },
            None => s,
        }
    }
}

/// `s` with each non-overlapping occurrence of the non-empty `from` replaced
/// by `to`.
pub fn replace_str_exec(s: &[char], from: &[char], to: &[char]) -> (r: Vec<char>)
    ensures
        r@ == replace_str(s@, from@, to@),
{
    if from.len() == 0 {
        return slice_chars(s, 0, s.len());
    }
    let mut out: Vec<char> = Vec::new();
    let mut i: usize = 0;
    let sl = s.len();
    assert(s@.skip(0) == s@);
    loop
        invariant
            sl == s@.len(),
            from@.len() > 0,
            i <= s@.len(),
            out@ + replace_str(s@.skip(i as int), from@, to@) == replace_str(s@, from@, to@),
        decreases s@.len() - i,
    {
        let f = find_from_exec(s, from, i);
        proof {
            lemma_find_from_skip(s@, from@, i as int, 0);
            lemma_find_from(s@, from@, i as nat);
        }
        match f {
            Some(j) => {
                let ghost t = s@.skip(i as int);
                let piece = slice_chars(s, i, j);
                assert(piece@ == t.take(j - i));
                assert(t.skip(j - i + from@.len()) == s@.skip(j + from@.len()));
                let ghost before = out@;
                let mut k: usize = 0;
                while k < piece.len()
                    invariant
                        k <= piece@.len(),
                        out@ == before + piece@.take(k as int),
                    decreases piece@.len() - k,
                {
                    out.push(piece[k]);
                    assert(piece@.take(k + 1) == piece@.take(k as int).push(piece@[k as int]));
                    k += 1;
                }
                assert(piece@.take(piece@.len() as int) == piece@);
                let ghost mid = out@;
                let mut k: usize = 0;
                while k < to.len()
                    invariant
                        k <= to@.len(),
                        out@ == mid + to@.take(k as int),
                    decreases to@.len() - k,
                {
                    out.push(to[k]);
                    assert(to@.take(k + 1) == to@.take(k as int).push(to@[k as int]));
                    k += 1;
                }
                assert(to@.take(to@.len() as int) == to@);
                assert(before + replace_str(t, from@, to@) == before + (piece@ + to@ + replace_str(s@.skip(j + from@.len()), from@, to@)));
                assert(out@ + replace_str(s@.skip(j + from@.len()), from@, to@) =~= before + (piece@ + to@ + replace_str(s@.skip(j + from@.len()), from@, to@)));
                i = j + from.len();
            },
            None => {
                let rest = slice_chars(s, i, s.len());
                assert(rest@ == s@.skip(i as int));
                let ghost before = out@;
                let mut k: usize = 0;
                while k < rest.len()
                    invariant
                        k <= rest@.len(),
                        out@ == before + rest@.take(k as int),
                    decreases rest@.len() - k,
                {
                    out.push(rest[k]);
                    assert(rest@.take(k + 1) == rest@.take(k as int).push(rest@[k as int]));
                    k += 1;
                }
                assert(rest@.take(rest@.len() as int) == rest@);
                return out;
            },
        }
    }
}


// ---------------------------------------------------------------------------
// Lexicographic order of texts (the order of `str`'s `<`)
// ---------------------------------------------------------------------------

/// `a` comes strictly before `b` in lexicographic order by character (the
/// order std gives `str`, since UTF-8 keeps the order of code points).
pub open spec fn lex_less(a: Seq<char>, b: Seq<char>) -> bool
    decreases a.len(),
{
    if a.len() == 0 {
        b.len() > 0
    } else if b.len() == 0 {
        false
    } else if a[0] != b[0] {
        a[0] < b[0]
    } else {
        lex_less(a.drop_first(), b.drop_first())
    }
}

/// No text comes before itself.
pub proof fn lemma_lex_irreflexive(a: Seq<char>)
    ensures
        !lex_less(a, a),
    decreases a.len(),
{
    if a.len() > 0 {
        lemma_lex_irreflexive(a.drop_first());
    }
}

/// The order is transitive.
pub proof fn lemma_lex_transitive(a: Seq<char>, b: Seq<char>, c: Seq<char>)
    requires
        lex_less(a, b),
        lex_less(b, c),
    ensures
        lex_less(a, c),
    decreases a.len(),
{
    if a.len() > 0 && b.len() > 0 && c.len() > 0 && a[0] == b[0] && b[0] == c[0] {
        lemma_lex_transitive(a.drop_first(), b.drop_first(), c.drop_first());
    }
}

/// Of two different texts, one comes before the other.
pub proof fn lemma_lex_total(a: Seq<char>, b: Seq<char>)
    requires
        a != b,
    ensures
        lex_less(a, b) || lex_less(b, a),
    decreases a.len(),
{
    if a.len() > 0 && b.len() > 0 && a[0] == b[0] {
        if a.drop_first() == b.drop_first() {
            assert(a =~= seq![a[0]] + a.drop_first());
            assert(b =~= seq![b[0]] + b.drop_first());
        }
        lemma_lex_total(a.drop_first(), b.drop_first());
    } else if a.len() == 0 && b.len() == 0 {
        assert(a =~= b);
    }
}

/// `a` comes strictly before `b` in lexicographic order.
pub fn lex_less_exec(a: &str, b: &str) -> (r: bool)
    ensures
        r == lex_less(a@, b@),
{
    let x = chars_of(a);
    let y = chars_of(b);
    let mut i: usize = 0;
    assert(a@.skip(0) =~= a@ && b@.skip(0) =~= b@);
    while i < x.len() && i < y.len() && x[i] == y[i]
        invariant
            x@ == a@,
            y@ == b@,
            i <= x@.len(),
            i <= y@.len(),
            lex_less(a@, b@) == lex_less(a@.skip(i as int), b@.skip(i as int)),
        decreases x@.len() - i,
    {
        assert(a@.skip(i as int).drop_first() =~= a@.skip(i + 1));
        assert(b@.skip(i as int).drop_first() =~= b@.skip(i + 1));
        i += 1;
    }
    if i == x.len() {
        i < y.len()
    } else if i == y.len() {
        false
    } else {
        x[i] < y[i]
    }
}


// ---------------------------------------------------------------------------
// Decimal numerals (what `to_string` writes for an integer)
// ---------------------------------------------------------------------------

/// The character of a decimal digit.
pub open spec fn digit_char(d: nat) -> char {
    seq!['0', '1', '2', '3', '4', '5', '6', '7', '8', '9'][d as int]
}

/// The decimal numeral of a natural number, without leading zeros.
pub open spec fn decimal(n: nat) -> Seq<char>
    decreases n,
{
    if n < 10 {
        seq![digit_char(n)]
    } else {
        decimal(n / 10).push(digit_char(n % 10))
    }
}

/// The decimal numeral of an integer, with a `-` before a negative one.
pub open spec fn signed_decimal(i: int) -> Seq<char> {
    if i < 0 {
        seq!['-'] + decimal((-i) as nat)
    } else {
        decimal(i as nat)
    }
}

fn digit_char_exec(d: u64) -> (c: char)
    requires
        d < 10,
    ensures
        c == digit_char(d as nat),
{
    let ds = ['0', '1', '2', '3', '4', '5', '6', '7', '8', '9'];
    let c = ds[d as usize];
    assert(ds@ =~= seq!['0', '1', '2', '3', '4', '5', '6', '7', '8', '9']);
    c
}

/// Appends the decimal numeral of `n`.
fn push_decimal(s: &mut String, n: u64)
    ensures
        final(s)@ == old(s)@ + decimal(n as nat),
    decreases n,
{
    if n >= 10 {
        push_decimal(s, n / 10);
    }
    let c = digit_char_exec(n % 10);
    push_char(s, c);
    assert(decimal(n as nat) == if n < 10 { seq![digit_char(n as nat)] } else { decimal((n / 10) as nat).push(digit_char((n % 10) as nat)) });
}

/// The decimal numeral of an unsigned integer (what `u64::to_string` gives).
pub fn u64_to_decimal(n: u64) -> (s: String)
    ensures
        s@ == decimal(n as nat),
{
    let mut s = String::new();
    push_decimal(&mut s, n);
    s
}

/// The decimal numeral of a signed integer (what `i64::to_string` gives).
pub fn i64_to_decimal(n: i64) -> (s: String)
    ensures
        s@ == signed_decimal(n as int),
{
    let mut s = String::new();
    if n < 0 {
        push_char(&mut s, '-');
        let m: u64 = (0 - (n as i128)) as u64;
        push_decimal(&mut s, m);
    } else {
        push_decimal(&mut s, n as u64);
    }
    s
}

} // verus!
