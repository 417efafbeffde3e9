//! Username variants: spellings of a username that the same person is likely
//! to have registered elsewhere.

use vstd::prelude::*;
use crate::text::{
    chars_eq, chars_of, concat, distinct_without, lemma_distinct_without, lowercase, push_distinct,
    replace_char, replace_char_exec, spec_lowercase, spec_uppercase, string_of, strip_digits,
    strip_digits_exec, uppercase, views,
};

verus! {

/// The separator variants: each of `_`, `.` and `-` replaced in turn by
/// nothing, `_`, `.` and `-`.
pub open spec fn separator_variants(u: Seq<char>) -> Seq<Seq<char>> {
    seq![
        replace_char(u, '_', ""@), replace_char(u, '.', ""@), replace_char(u, '-', ""@),
        replace_char(u, '_', "_"@), replace_char(u, '.', "_"@), replace_char(u, '-', "_"@),
        replace_char(u, '_', "."@), replace_char(u, '.', "."@), replace_char(u, '-', "."@),
        replace_char(u, '_', "-"@), replace_char(u, '.', "-"@), replace_char(u, '-', "-"@),
    ]
}

/// The variants with a suffix appended and the same text prepended, for each
/// of the usual suffixes.
pub open spec fn suffix_variants(u: Seq<char>) -> Seq<Seq<char>> {
    seq![
        u + "1"@, "1"@ + u, u + "2"@, "2"@ + u, u + "01"@, "01"@ + u, u + "99"@, "99"@ + u,
        u + "123"@, "123"@ + u, u + "007"@, "007"@ + u, u + "x"@, "x"@ + u,
        u + "real"@, "real"@ + u, u + "official"@, "official"@ + u, u + "0"@, "0"@ + u,
    ]
}

/// The variants with one of the usual prefixes, joined directly and with `_`.
pub open spec fn prefix_variants(u: Seq<char>) -> Seq<Seq<char>> {
    seq![
        "the"@ + u, "the_"@ + u, "its"@ + u, "its_"@ + u, "im"@ + u, "im_"@ + u,
        "i_am"@ + u, "i_am_"@ + u, "real"@ + u, "real_"@ + u,
    ]
}

/// The leet spelling: lower case, then `a`, `e`, `i`, `o`, `s`, `t` written as
/// `4`, `3`, `1`, `0`, `5`, `7`.
pub open spec fn leet(u: Seq<char>) -> Seq<char> {
    replace_char(
        replace_char(
            replace_char(
                replace_char(
                    replace_char(replace_char(spec_lowercase(u), 'a', "4"@), 'e', "3"@),
                    'i',
                    "1"@,
                ),
                'o',
                "0"@,
            ),
            's',
            "5"@,
        ),
        't',
        "7"@,
    )
}

/// The spelling without digits, when it is neither empty nor the username.
pub open spec fn digitless_variants(u: Seq<char>) -> Seq<Seq<char>> {
    if strip_digits(u).len() > 0 && strip_digits(u) != u {
        seq![strip_digits(u)]
    } else {
        Seq::empty()
    }
}

/// Every candidate spelling of `u`, in the order they are produced.
pub open spec fn variant_candidates(u: Seq<char>) -> Seq<Seq<char>> {
    separator_variants(u) + suffix_variants(u) + prefix_variants(u) + seq![
        leet(u),
        spec_lowercase(u),
        spec_uppercase(u),
    ] + digitless_variants(u)
}

/// The variants of `u`: each candidate once, in order of first appearance,
/// the username itself left out.
pub open spec fn spec_variants(u: Seq<char>) -> Seq<Seq<char>> {
    distinct_without(variant_candidates(u), Some(u))
}

/// Replaces every `from` in `s` by `to`.
fn replaced(s: &[char], from: char, to: &str) -> (r: String)
    ensures
        r@ == replace_char(s@, from, to@),
{
    let t = chars_of(to);
    let v = replace_char_exec(s, from, &t);
    string_of(&v)
}

/// Generates the likely spellings of `username` on other sites: separators
/// swapped or removed, common suffixes and prefixes added, a leet spelling,
/// lower and upper case, and the spelling without digits. Each spelling
/// appears once and `username` itself is never among them.
pub fn generate_variants(username: &str) -> (r: Vec<String>)
    ensures
        views(r@) == spec_variants(username@),
{
    let u = chars_of(username);
    let skip = string_of(&u);
    let mut out: Vec<String> = Vec::new();
    let ghost mut cands: Seq<Seq<char>> = Seq::empty();

    let separators: [&str; 4] = ["", "_", ".", "-"];
    let mut si: usize = 0;
    while si < 4
        invariant
            0 <= si <= 4,
            skip@ == username@,
            u@ == username@,
            separators@ == seq!["", "_", ".", "-"],
            cands == separator_variants(username@).take(3 * si),
            views(out@) == distinct_without(cands, Some(username@)),
        decreases 4 - si,
    {
        let sep = separators[si];
        let a = replaced(&u, '_', sep);
        push_distinct(&mut out, a, Some(&skip), Ghost(cands));
        proof { cands = cands.push(replace_char(username@, '_', sep@)); }
        let b = replaced(&u, '.', sep);
        push_distinct(&mut out, b, Some(&skip), Ghost(cands));
        proof { cands = cands.push(replace_char(username@, '.', sep@)); }
        let c = replaced(&u, '-', sep);
        push_distinct(&mut out, c, Some(&skip), Ghost(cands));
        proof { cands = cands.push(replace_char(username@, '-', sep@)); }
        assert(cands =~= separator_variants(username@).take(3 * si + 3));
        si += 1;
    }
    assert(cands =~= separator_variants(username@));

    let suffixes: [&str; 10] = ["1", "2", "01", "99", "123", "007", "x", "real", "official", "0"];
    let mut xi: usize = 0;
    while xi < 10
        invariant
            0 <= xi <= 10,
            skip@ == username@,
            suffixes@ == seq!["1", "2", "01", "99", "123", "007", "x", "real", "official", "0"],
            cands == separator_variants(username@) + suffix_variants(username@).take(2 * xi),
            views(out@) == distinct_without(cands, Some(username@)),
        decreases 10 - xi,
    {
        let sfx = suffixes[xi];
        let a = concat(username, sfx);
        push_distinct(&mut out, a, Some(&skip), Ghost(cands));
        proof { cands = cands.push(username@ + sfx@); }
        let b = concat(sfx, username);
        push_distinct(&mut out, b, Some(&skip), Ghost(cands));
        proof { cands = cands.push(sfx@ + username@); }
        assert(cands =~= separator_variants(username@) + suffix_variants(username@).take(2 * xi + 2));
        xi += 1;
    }
    assert(suffix_variants(username@).take(20) =~= suffix_variants(username@));

    let prefixes: [&str; 5] = ["the", "its", "im", "i_am", "real"];
    let joined: [&str; 5] = ["the_", "its_", "im_", "i_am_", "real_"];
    let mut pi: usize = 0;
    while pi < 5
        invariant
            0 <= pi <= 5,
            skip@ == username@,
            prefixes@ == seq!["the", "its", "im", "i_am", "real"],
            joined@ == seq!["the_", "its_", "im_", "i_am_", "real_"],
            cands == separator_variants(username@) + suffix_variants(username@)
                + prefix_variants(username@).take(2 * pi),
            views(out@) == distinct_without(cands, Some(username@)),
        decreases 5 - pi,
    {
        let a = concat(prefixes[pi], username);
        push_distinct(&mut out, a, Some(&skip), Ghost(cands));
        proof { cands = cands.push(prefixes@[pi as int]@ + username@); }
        let b = concat(joined[pi], username);
        push_distinct(&mut out, b, Some(&skip), Ghost(cands));
        proof { cands = cands.push(joined@[pi as int]@ + username@); }
        assert(cands =~= separator_variants(username@) + suffix_variants(username@)
            + prefix_variants(username@).take(2 * pi + 2));
        pi += 1;
    }
    assert(prefix_variants(username@).take(10) =~= prefix_variants(username@));

    let lower = lowercase(username);
    let lower_chars = chars_of(lower.as_str());
    let l1 = replace_char_exec(&lower_chars, 'a', &chars_of("4"));
    let l2 = replace_char_exec(&l1, 'e', &chars_of("3"));
    let l3 = replace_char_exec(&l2, 'i', &chars_of("1"));
    let l4 = replace_char_exec(&l3, 'o', &chars_of("0"));
    let l5 = replace_char_exec(&l4, 's', &chars_of("5"));
    let l6 = replace_char_exec(&l5, 't', &chars_of("7"));
    assert(l6@ == leet(username@));
    let leet_s = string_of(&l6);
    push_distinct(&mut out, leet_s, Some(&skip), Ghost(cands));
    proof { cands = cands.push(leet(username@)); }
    push_distinct(&mut out, lower, Some(&skip), Ghost(cands));
    proof { cands = cands.push(spec_lowercase(username@)); }
    let upper = uppercase(username);
    push_distinct(&mut out, upper, Some(&skip), Ghost(cands));
    proof { cands = cands.push(spec_uppercase(username@)); }

    let digitless = strip_digits_exec(&u);
    if digitless.len() > 0 && !chars_eq(&digitless, &u) {
        let d = string_of(&digitless);
        push_distinct(&mut out, d, Some(&skip), Ghost(cands));
        proof { cands = cands.push(strip_digits(username@)); }
    }
    assert(cands =~= variant_candidates(username@));
    out
}

/// No variant appears twice, `username` is never a variant, and the variants
/// are exactly the candidate spellings other than `username`.
pub proof fn variants_are_distinct_candidates(username: Seq<char>)
    ensures
        spec_variants(username).no_duplicates(),
        !spec_variants(username).contains(username),
        forall|v: Seq<char>|
            spec_variants(username).contains(v) <==> (variant_candidates(username).contains(v)
                && v != username),
{
    lemma_distinct_without(variant_candidates(username), Some(username));
}


/// The leet form of a lower-case character: `a`, `e`, `i`, `o`, `s`, `t`
/// become `4`, `3`, `1`, `0`, `5`, `7`; every other character stays.
pub open spec fn leet_char(c: char) -> char {
    if c == 'a' {
        '4'
    } else if c == 'e' {
        '3'
    } else if c == 'i' {
        '1'
    } else if c == 'o' {
        '0'
    } else if c == 's' {
        '5'
    } else if c == 't' {
        '7'
    } else {
        c
    }
}

proof fn lemma_replace_by_one(s: Seq<char>, from: char, to: char)
    ensures
        replace_char(s, from, seq![to]).len() == s.len(),
        forall|i: int|
            0 <= i < s.len() ==> #[trigger] replace_char(s, from, seq![to])[i] == if s[i] == from {
                to
            } else {
                s[i]
            },
    decreases s.len(),
{
    if s.len() > 0 {
        let t = s.drop_last();
        lemma_replace_by_one(t, from, to);
        let r = replace_char(s, from, seq![to]);
        let p = replace_char(t, from, seq![to]);
        assert forall|i: int| 0 <= i < s.len() implies #[trigger] r[i] == if s[i] == from {
            to
        } else {
            s[i]
        } by {
            if i < s.len() - 1 {
                assert(r[i] == p[i]);
                assert(s[i] == t[i]);
            }
        }
    }
}

/// The leet spelling is the lower-cased username with each `a`, `e`, `i`,
/// `o`, `s`, `t` written as `4`, `3`, `1`, `0`, `5`, `7`, character by
/// character, so none of those six letters is left in it; and it is among
/// the variants unless it is the username itself.
pub proof fn leet_variant_law(u: Seq<char>)
    ensures
        leet(u).len() == spec_lowercase(u).len(),
        forall|i: int| 0 <= i < leet(u).len() ==> #[trigger] leet(u)[i] == leet_char(spec_lowercase(u)[i]),
        forall|i: int|
            0 <= i < leet(u).len() ==> {
                let c = #[trigger] leet(u)[i];
                c != 'a' && c != 'e' && c != 'i' && c != 'o' && c != 's' && c != 't'
            },
        leet(u) != u ==> spec_variants(u).contains(leet(u)),
{
    reveal_strlit("4");
    reveal_strlit("3");
    reveal_strlit("1");
    reveal_strlit("0");
    reveal_strlit("5");
    reveal_strlit("7");
    assert("4"@ =~= seq!['4']);
    assert("3"@ =~= seq!['3']);
    assert("1"@ =~= seq!['1']);
    assert("0"@ =~= seq!['0']);
    assert("5"@ =~= seq!['5']);
    assert("7"@ =~= seq!['7']);
    let l0 = spec_lowercase(u);
    let l1 = replace_char(l0, 'a', seq!['4']);
    let l2 = replace_char(l1, 'e', seq!['3']);
    let l3 = replace_char(l2, 'i', seq!['1']);
    let l4 = replace_char(l3, 'o', seq!['0']);
    let l5 = replace_char(l4, 's', seq!['5']);
    let l6 = replace_char(l5, 't', seq!['7']);
    lemma_replace_by_one(l0, 'a', '4');
    lemma_replace_by_one(l1, 'e', '3');
    lemma_replace_by_one(l2, 'i', '1');
    lemma_replace_by_one(l3, 'o', '0');
    lemma_replace_by_one(l4, 's', '5');
    lemma_replace_by_one(l5, 't', '7');
    assert(leet(u) == l6);
    assert forall|i: int| 0 <= i < l6.len() implies #[trigger] l6[i] == leet_char(l0[i]) by {
        assert(l1[i] == if l0[i] == 'a' { '4' } else { l0[i] });
        assert(l2[i] == if l1[i] == 'e' { '3' } else { l1[i] });
        assert(l3[i] == if l2[i] == 'i' { '1' } else { l2[i] });
        assert(l4[i] == if l3[i] == 'o' { '0' } else { l3[i] });
        assert(l5[i] == if l4[i] == 's' { '5' } else { l4[i] });
        assert(l6[i] == if l5[i] == 't' { '7' } else { l5[i] });
    }
    let cands = variant_candidates(u);
    assert(cands[42] == leet(u));
    lemma_distinct_without(cands, Some(u));
}


/// Every spelling the variants are made of is among them unless it is the
/// username itself: each of `_`, `.`, `-` swapped for nothing, `_`, `.` or
/// `-`; each usual suffix appended and prepended; each usual prefix; the
/// lower- and upper-case spellings; and the spelling without digits when
/// something is left of it.
pub proof fn variant_spellings_law(u: Seq<char>)
    ensures
        forall|c: char, t: Seq<char>|
            (c == '_' || c == '.' || c == '-') && (t == ""@ || t == "_"@ || t == "."@ || t == "-"@) && #[trigger] replace_char(u, c, t) != u
                ==> spec_variants(u).contains(replace_char(u, c, t)),
        forall|s: Seq<char>|
            #![trigger u + s]
            s == "1"@ || s == "2"@ || s == "01"@ || s == "99"@ || s == "123"@ || s == "007"@ || s == "x"@ || s == "real"@ || s == "official"@ || s == "0"@ ==> spec_variants(u).contains(u + s) && (s + u != u ==> spec_variants(u).contains(s + u)),
        forall|p: Seq<char>| #![trigger p + u] p == "the"@ || p == "the_"@ || p == "its"@ || p == "its_"@ || p == "im"@ || p == "im_"@ || p == "i_am"@ || p == "i_am_"@ || p == "real"@ || p == "real_"@ ==> spec_variants(u).contains(p + u),
        spec_lowercase(u) != u ==> spec_variants(u).contains(spec_lowercase(u)),
        spec_uppercase(u) != u ==> spec_variants(u).contains(spec_uppercase(u)),
        strip_digits(u).len() > 0 && strip_digits(u) != u ==> spec_variants(u).contains(strip_digits(u)),
{
    reveal_strlit("");
    reveal_strlit("-");
    reveal_strlit(".");
    reveal_strlit("0");
    reveal_strlit("007");
    reveal_strlit("01");
    reveal_strlit("1");
    reveal_strlit("123");
    reveal_strlit("2");
    reveal_strlit("99");
    reveal_strlit("_");
    reveal_strlit("i_am");
    reveal_strlit("i_am_");
    reveal_strlit("im");
    reveal_strlit("im_");
    reveal_strlit("its");
    reveal_strlit("its_");
    reveal_strlit("official");
    reveal_strlit("real");
    reveal_strlit("real_");
    reveal_strlit("the");
    reveal_strlit("the_");
    reveal_strlit("x");
    let cands = variant_candidates(u);
    lemma_distinct_without(cands, Some(u));
    assert forall|c: char, t: Seq<char>|
        (c == '_' || c == '.' || c == '-') && (t == ""@ || t == "_"@ || t == "."@ || t == "-"@) && #[trigger] replace_char(u, c, t) != u
            implies spec_variants(u).contains(replace_char(u, c, t)) by {
        if c == '_' && t == ""@ {
            assert(cands[0] == replace_char(u, c, t));
        }
        if c == '.' && t == ""@ {
            assert(cands[1] == replace_char(u, c, t));
        }
        if c == '-' && t == ""@ {
            assert(cands[2] == replace_char(u, c, t));
        }
        if c == '_' && t == "_"@ {
            assert(cands[3] == replace_char(u, c, t));
        }
        if c == '.' && t == "_"@ {
            assert(cands[4] == replace_char(u, c, t));
        }
        if c == '-' && t == "_"@ {
            assert(cands[5] == replace_char(u, c, t));
        }
        if c == '_' && t == "."@ {
            assert(cands[6] == replace_char(u, c, t));
        }
        if c == '.' && t == "."@ {
            assert(cands[7] == replace_char(u, c, t));
        }
        if c == '-' && t == "."@ {
            assert(cands[8] == replace_char(u, c, t));
        }
        if c == '_' && t == "-"@ {
            assert(cands[9] == replace_char(u, c, t));
        }
        if c == '.' && t == "-"@ {
            assert(cands[10] == replace_char(u, c, t));
        }
        if c == '-' && t == "-"@ {
            assert(cands[11] == replace_char(u, c, t));
        }
    }
    assert forall|s: Seq<char>| #![trigger u + s] s == "1"@ || s == "2"@ || s == "01"@ || s == "99"@ || s == "123"@ || s == "007"@ || s == "x"@ || s == "real"@ || s == "official"@ || s == "0"@ implies spec_variants(u).contains(u + s) && (s + u != u
        ==> spec_variants(u).contains(s + u)) by {
        assert((u + s).len() > u.len());
        if s == "1"@ {
            assert(cands[12] == u + s);
            assert(cands[13] == s + u);
        }
        if s == "2"@ {
            assert(cands[14] == u + s);
            assert(cands[15] == s + u);
        }
        if s == "01"@ {
            assert(cands[16] == u + s);
            assert(cands[17] == s + u);
        }
        if s == "99"@ {
            assert(cands[18] == u + s);
            assert(cands[19] == s + u);
        }
        if s == "123"@ {
            assert(cands[20] == u + s);
            assert(cands[21] == s + u);
        }
        if s == "007"@ {
            assert(cands[22] == u + s);
            assert(cands[23] == s + u);
        }
        if s == "x"@ {
            assert(cands[24] == u + s);
            assert(cands[25] == s + u);
        }
        if s == "real"@ {
            assert(cands[26] == u + s);
            assert(cands[27] == s + u);
        }
        if s == "official"@ {
            assert(cands[28] == u + s);
            assert(cands[29] == s + u);
        }
        if s == "0"@ {
            assert(cands[30] == u + s);
            assert(cands[31] == s + u);
        }
    }
    assert forall|p: Seq<char>| #![trigger p + u] p == "the"@ || p == "the_"@ || p == "its"@ || p == "its_"@ || p == "im"@ || p == "im_"@ || p == "i_am"@ || p == "i_am_"@ || p == "real"@ || p == "real_"@ implies spec_variants(u).contains(p + u) by {
        assert((p + u).len() > u.len());
        if p == "the"@ {
            assert(cands[32] == p + u);
        }
        if p == "the_"@ {
            assert(cands[33] == p + u);
        }
        if p == "its"@ {
            assert(cands[34] == p + u);
        }
        if p == "its_"@ {
            assert(cands[35] == p + u);
        }
        if p == "im"@ {
            assert(cands[36] == p + u);
        }
        if p == "im_"@ {
            assert(cands[37] == p + u);
        }
        if p == "i_am"@ {
            assert(cands[38] == p + u);
        }
        if p == "i_am_"@ {
            assert(cands[39] == p + u);
        }
        if p == "real"@ {
            assert(cands[40] == p + u);
        }
        if p == "real_"@ {
            assert(cands[41] == p + u);
        }
    }
    assert(cands[43] == spec_lowercase(u));
    assert(cands[44] == spec_uppercase(u));
    if strip_digits(u).len() > 0 && strip_digits(u) != u {
        assert(cands[45] == strip_digits(u));
    }
}

} // verus!
