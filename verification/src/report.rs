//! Pieces of the HTML report that do not depend on its layout: escaping of
//! text, and the collected material the report is written from.

use vstd::prelude::*;
use crate::text::{chars_of, replace_char, replace_char_exec, string_of};

verus! {

/// `s` with the five HTML-special characters replaced by entities, `&`
/// first.
pub open spec fn spec_html_escape(s: Seq<char>) -> Seq<char> {
    replace_char(
        replace_char(
            replace_char(
                replace_char(replace_char(s, '&', "&amp;"@), '<', "&lt;"@),
                '>',
                "&gt;"@,
            ),
            '"',
            "&quot;"@,
        ),
        '\'',
        "&#39;"@,
    )
}

/// Escapes `&`, `<`, `>`, `"` and `'` so that the text can stand in HTML
/// content and attribute values.
pub fn html_escape(s: &str) -> (r: String)
    ensures
        r@ == spec_html_escape(s@),
{
    let c0 = chars_of(s);
    let c1 = replace_char_exec(&c0, '&', &chars_of("&amp;"));
    let c2 = replace_char_exec(&c1, '<', &chars_of("&lt;"));
    let c3 = replace_char_exec(&c2, '>', &chars_of("&gt;"));
    let c4 = replace_char_exec(&c3, '"', &chars_of("&quot;"));
    let c5 = replace_char_exec(&c4, '\'', &chars_of("&#39;"));
    string_of(&c5)
}

/// Which characters a replacement leaves.
proof fn lemma_replace_char_contains(s: Seq<char>, c: char, to: Seq<char>, x: char)
    ensures
        replace_char(s, c, to).contains(x) <==> ((s.contains(x) && x != c) || (s.contains(c)
            && to.contains(x))),
    decreases s.len(),
{
    if s.len() > 0 {
        let t = s.drop_last();
        let l = s.last();
        lemma_replace_char_contains(t, c, to, x);
        let piece = if l == c { to } else { seq![l] };
        let r = replace_char(t, c, to);
        assert(replace_char(s, c, to) == r + piece);
        assert((r + piece).contains(x) <==> (r.contains(x) || piece.contains(x))) by {
            if (r + piece).contains(x) {
                let k = choose|k: int| 0 <= k < (r + piece).len() && (r + piece)[k] == x;
                if k < r.len() {
                    assert(r[k] == x);
                } else {
                    assert(piece[k - r.len()] == x);
                }
            }
            if r.contains(x) {
                let k = choose|k: int| 0 <= k < r.len() && r[k] == x;
                assert((r + piece)[k] == x);
            }
            if piece.contains(x) {
                let k = choose|k: int| 0 <= k < piece.len() && piece[k] == x;
                assert((r + piece)[r.len() + k] == x);
            }
        }
        assert(s.contains(x) <==> (t.contains(x) || l == x)) by {
            if s.contains(x) {
                let k = choose|k: int| 0 <= k < s.len() && s[k] == x;
                if k < t.len() {
                    assert(t[k] == x);
                }
            }
            if t.contains(x) {
                let k = choose|k: int| 0 <= k < t.len() && t[k] == x;
                assert(s[k] == x);
            }
            assert(s[s.len() - 1] == l);
        }
        assert(s.contains(c) <==> (t.contains(c) || l == c)) by {
            if s.contains(c) {
                let k = choose|k: int| 0 <= k < s.len() && s[k] == c;
                if k < t.len() {
                    assert(t[k] == c);
                }
            }
            if t.contains(c) {
                let k = choose|k: int| 0 <= k < t.len() && t[k] == c;
                assert(s[k] == c);
            }
            assert(s[s.len() - 1] == l);
        }
        if l != c {
            assert(piece.contains(x) <==> x == l) by {
                if x == l {
                    assert(piece[0] == x);
                }
            }
        }
    }
}

/// Escaped text holds none of `<`, `>`, `"` and `'`: it cannot open or close
/// a tag or leave an attribute value.
pub proof fn html_escape_removes_markup(s: Seq<char>)
    ensures
        !spec_html_escape(s).contains('<'),
        !spec_html_escape(s).contains('>'),
        !spec_html_escape(s).contains('"'),
        !spec_html_escape(s).contains('\''),
{
    reveal_strlit("&amp;");
    reveal_strlit("&lt;");
    reveal_strlit("&gt;");
    reveal_strlit("&quot;");
    reveal_strlit("&#39;");
    let s1 = replace_char(s, '&', "&amp;"@);
    let s2 = replace_char(s1, '<', "&lt;"@);
    let s3 = replace_char(s2, '>', "&gt;"@);
    let s4 = replace_char(s3, '"', "&quot;"@);
    let s5 = replace_char(s4, '\'', "&#39;"@);
    let xs = seq!['<', '>', '"', '\''];
    assert forall|i: int| 0 <= i < 4 implies !s5.contains(#[trigger] xs[i]) by {
        let x = xs[i];
        lemma_replace_char_contains(s, '&', "&amp;"@, x);
        lemma_replace_char_contains(s1, '<', "&lt;"@, x);
        lemma_replace_char_contains(s2, '>', "&gt;"@, x);
        lemma_replace_char_contains(s3, '"', "&quot;"@, x);
        lemma_replace_char_contains(s4, '\'', "&#39;"@, x);
        assert(!"&amp;"@.contains(x)) by {
            if "&amp;"@.contains(x) {
                let k = choose|k: int| 0 <= k < "&amp;"@.len() && "&amp;"@[k] == x;
            }
        }
        assert(!"&lt;"@.contains(x)) by {
            if "&lt;"@.contains(x) {
                let k = choose|k: int| 0 <= k < "&lt;"@.len() && "&lt;"@[k] == x;
            }
        }
        assert(!"&gt;"@.contains(x)) by {
            if "&gt;"@.contains(x) {
                let k = choose|k: int| 0 <= k < "&gt;"@.len() && "&gt;"@[k] == x;
            }
        }
        assert(!"&quot;"@.contains(x)) by {
            if "&quot;"@.contains(x) {
                let k = choose|k: int| 0 <= k < "&quot;"@.len() && "&quot;"@[k] == x;
            }
        }
        assert(!"&#39;"@.contains(x)) by {
            if "&#39;"@.contains(x) {
                let k = choose|k: int| 0 <= k < "&#39;"@.len() && "&#39;"@[k] == x;
            }
        }
    }
    assert(xs[0] == '<' && xs[1] == '>' && xs[2] == '"' && xs[3] == '\'');
}

} // verus!
