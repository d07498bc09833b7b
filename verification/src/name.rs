//! Name formatting: turns a kebab- or snake-case icon identifier into a
//! PascalCase component name.

use vstd::prelude::*;
use crate::text::chars_to_string;

verus! {

/// A word separator in an icon identifier.
pub open spec fn is_separator(c: char) -> bool {
    c == '-' || c == '_' || c == ' '
}

/// The Unicode uppercase mapping of a character, one or more characters.
pub uninterp spec fn upper_of(c: char) -> Seq<char>;

/// Relies on `char::to_uppercase`: yields the Unicode uppercase mapping of
/// the character as one or more characters, depending on the character alone.
#[verifier::external_body]
fn char_to_upper(c: char) -> (r: Vec<char>)
    ensures
        r@ == upper_of(c),
        r@.len() >= 1,
{
    c.to_uppercase().collect()
}

/// PascalCase text of the identifier characters still to be read. `at_start`
/// says whether the next non-separator character begins a word: separators
/// are dropped, the first character of each word is uppercased, and the rest
/// are kept unchanged.
pub open spec fn pascal_rec(s: Seq<char>, at_start: bool) -> Seq<char>
    decreases s.len(),
{
    if s.len() == 0 {
        Seq::empty()
    } else if is_separator(s[0]) {
        pascal_rec(s.skip(1), true)
    } else if at_start {
        upper_of(s[0]) + pascal_rec(s.skip(1), false)
    } else {
        seq![s[0]] + pascal_rec(s.skip(1), false)
    }
}

/// PascalCase form of an identifier: split on `-`, `_` and space, drop empty
/// segments, uppercase the first character of each segment, concatenate.
pub open spec fn pascal_str(s: Seq<char>) -> Seq<char> {
    pascal_rec(s, true)
}

/// Converts an identifier such as `a-arrow-down` or `arrow_left_right` into
/// PascalCase (`AArrowDown`, `ArrowLeftRight`).
pub fn to_pascal_case(s: &str) -> (r: String)
    ensures
        r@ == pascal_str(s@),
{
    let n = s.unicode_len();
    let mut out: Vec<char> = Vec::new();
    let mut at_start = true;
    let mut i: usize = 0;
    proof {
        assert(s@.skip(0) =~= s@);
    }
    while i < n
        invariant
            i <= n,
            n == s@.len(),
            pascal_str(s@) == out@ + pascal_rec(s@.skip(i as int), at_start),
        decreases n - i,
    {
        let c = s.get_char(i);
        proof {
            assert(s@.skip(i as int)[0] == s@[i as int]);
            assert(s@.skip(i as int).skip(1) =~= s@.skip(i + 1));
        }
        if c == '-' || c == '_' || c == ' ' {
            at_start = true;
        } else if at_start {
            let mut u = char_to_upper(c);
            out.append(&mut u);
            at_start = false;
        } else {
            out.push(c);
            at_start = false;
        }
        i = i + 1;
        proof {
            assert(pascal_str(s@) =~= out@ + pascal_rec(s@.skip(i as int), at_start));
        }
    }
    proof {
        assert(pascal_rec(s@.skip(n as int), at_start) =~= Seq::<char>::empty());
        assert(out@ =~= out@ + Seq::<char>::empty());
    }
    chars_to_string(&out)
}

/// The component name of an icon: the PascalCase identifier with the fixed
/// `Icon` suffix.
pub open spec fn component_name(s: Seq<char>) -> Seq<char> {
    pascal_str(s) + "Icon"@
}

/// Builds the component name of the icon identifier.
pub fn icon_component_name(s: &str) -> (r: String)
    ensures
        r@ == component_name(s@),
{
    let mut r = to_pascal_case(s);
    r.append("Icon");
    r
}

} // verus!
