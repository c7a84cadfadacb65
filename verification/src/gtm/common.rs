//! Helpers shared by the go-to-market agents.

use vstd::prelude::*;
use crate::text::{is_alnum, lower, strip};

verus! {

/// ASCII whitespace (`char::is_ascii_whitespace`).
pub open spec fn is_ascii_ws(c: char) -> bool {
    c == ' ' || c == '\t' || c == '\n' || c == '\u{0C}' || c == '\r'
}

/// Letters and digits lower-cased, whitespace and `-` turned into `_`,
/// everything else dropped.
pub open spec fn slug_chars(s: Seq<char>) -> Seq<char>
    decreases s.len(),
{
    if s.len() == 0 {
        Seq::empty()
    } else {
        let r = slug_chars(s.drop_last());
        let c = s.last();
        if is_alnum(c) {
            r.push(lower(c))
        } else if is_ascii_ws(c) || c == '-' {
            r.push('_')
        } else {
            r
        }
    }
}

/// The text with each run of `_` reduced to one.
pub open spec fn collapse_underscores(s: Seq<char>) -> Seq<char>
    decreases s.len(),
{
    if s.len() == 0 {
        Seq::empty()
    } else {
        let r = collapse_underscores(s.drop_last());
        if s.last() == '_' && r.len() > 0 && r.last() == '_' {
            r
        } else {
            r.push(s.last())
        }
    }
}

/// A slug: the slug characters with runs of `_` collapsed and no `_` at
/// either end.
pub open spec fn slug(s: Seq<char>) -> Seq<char> {
    strip(collapse_underscores(slug_chars(s)), '_')
}

/// The slug of a text.
pub fn slugify(value: &str) -> (r: String)
    ensures
        r@ == slug(value@),
{
    let v = crate::text::to_chars(value);
    let mut out: Vec<char> = Vec::new();
    let mut i: usize = 0;
    proof {
        assert(v@.take(0) =~= Seq::<char>::empty());
    }
    while i < v.len()
        invariant
            i <= v@.len(),
            out@ == slug_chars(v@.take(i as int)),
        decreases v@.len() - i,
    {
        let ch = v[i];
        proof {
            let t = v@.take(i + 1);
            assert(t.drop_last() =~= v@.take(i as int));
            assert(t.last() == ch);
        }
        if crate::text::is_alnum_char(ch) {
            out.push(crate::text::lower_char(ch));
        } else if ch == ' ' || ch == '\t' || ch == '\n' || ch == '\u{0C}' || ch == '\r' || ch == '-' {
            out.push('_');
        }
        i = i + 1;
    }
    proof {
        assert(v@.take(v@.len() as int) =~= v@);
    }
    let mut collapsed: Vec<char> = Vec::new();
    let mut j: usize = 0;
    proof {
        assert(out@.take(0) =~= Seq::<char>::empty());
    }
    while j < out.len()
        invariant
            j <= out@.len(),
            collapsed@ == collapse_underscores(out@.take(j as int)),
        decreases out@.len() - j,
    {
        proof {
            let t = out@.take(j + 1);
            assert(t.drop_last() =~= out@.take(j as int));
            assert(t.last() == out@[j as int]);
        }
        let c = out[j];
        let n = collapsed.len();
        if !(c == '_' && n > 0 && collapsed[n - 1] == '_') {
            collapsed.push(c);
        }
        j = j + 1;
    }
    proof {
        assert(out@.take(out@.len() as int) =~= out@);
    }
    let stripped = crate::text::strip_chars(collapsed.as_slice(), '_');
    crate::text::from_chars(stripped.as_slice())
}

} // verus!
