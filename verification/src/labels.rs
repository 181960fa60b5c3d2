//! Stage labels and their mechanical derivation from declaration
//! identifiers.
//!
//! A stage's label is its sole identity inside a sub-graph.  When a stage
//! declaration gives no explicit label, one is derived from the
//! declaration's identifier by normalizing camel case to lower snake case:
//! `"MainPass"` becomes `"main_pass"`.

use vstd::prelude::*;
use vstd::string::StrSliceExecFns;

verus! {

/// Relies on String::push: appends the given character to the end of the
/// string.
pub assume_specification[ String::push ](s: &mut String, c: char)
    ensures
        final(s)@ == old(s)@.push(c),
;

/// The views of a sequence of strings.
pub open spec fn strs_view(s: Seq<String>) -> Seq<Seq<char>> {
    s.map_values(|x: String| x@)
}

/// True of the ASCII upper-case letters.
pub open spec fn is_upper(c: char) -> bool {
    65 <= c as u32 <= 90
}

/// The lower-case form of an ASCII upper-case letter; any other character
/// is unchanged.
pub open spec fn to_lower(c: char) -> char {
    if is_upper(c) {
        (((c as u32) + 32) as u8) as char
    } else {
        c
    }
}

/// The output produced for one input character: an upper-case letter is
/// lowered, and additionally prefixed with an underscore unless it starts
/// the identifier.
pub open spec fn snake_piece(c: char, first: bool) -> Seq<char> {
    if is_upper(c) {
        if first {
            seq![to_lower(c)]
        } else {
            seq!['_', to_lower(c)]
        }
    } else {
        seq![c]
    }
}

/// The label mechanically derived from a declaration identifier: camel
/// case normalized to lower snake case.
pub open spec fn derived_label(s: Seq<char>) -> Seq<char>
    decreases s.len(),
{
    if s.len() == 0 {
        Seq::empty()
    } else {
        derived_label(s.drop_last()) + snake_piece(s.last(), s.len() == 1)
    }
}

/// Derives the default label for a stage declared under `identifier`.
pub fn derive_label(identifier: &str) -> (label: String)
    ensures
        label@ == derived_label(identifier@),
{
    let n: usize = identifier.unicode_len();
    let mut label: String = String::new();
    let mut i: usize = 0;
    while i < n
        invariant
            n == identifier@.len(),
            0 <= i <= n,
            label@ == derived_label(identifier@.subrange(0, i as int)),
        decreases n - i,
    {
        let c: char = identifier.get_char(i);
        let code: u32 = c as u32;
        if 65 <= code && code <= 90 {
            if i > 0 {
                label.push('_');
            }
            let lowered: char = ((code + 32) as u8) as char;
            label.push(lowered);
        } else {
            label.push(c);
        }
        proof {
            let pre = identifier@.subrange(0, i as int);
            let ext = identifier@.subrange(0, i + 1);
            assert(ext.drop_last() =~= pre);
            assert(ext.last() == c);
            if 65 <= code && code <= 90 {
                if i > 0 {
                    assert(label@ =~= derived_label(pre) + snake_piece(c, false));
                } else {
                    assert(label@ =~= derived_label(pre) + snake_piece(c, true));
                }
            } else {
                assert(label@ =~= derived_label(pre) + snake_piece(c, i == 0));
            }
        }
        i = i + 1;
    }
    proof {
        assert(identifier@.subrange(0, n as int) =~= identifier@);
    }
    label
}

/// Deriving a label twice from the same identifier yields the same label
/// both times: the derivation is a function of the identifier alone.
pub proof fn lemma_derived_label_deterministic(a: Seq<char>, b: Seq<char>)
    requires
        a == b,
    ensures
        derived_label(a) == derived_label(b),
{
}

/// Character-wise equality of two string slices.
pub fn str_eq(a: &str, b: &str) -> (r: bool)
    ensures
        r == (a@ == b@),
{
    let n: usize = a.unicode_len();
    let m: usize = b.unicode_len();
    if n != m {
        return false;
    }
    let mut i: usize = 0;
    while i < n
        invariant
            n == a@.len(),
            n == b@.len(),
            0 <= i <= n,
            forall|j: int| 0 <= j < i ==> a@[j] == b@[j],
        decreases n - i,
    {
        if a.get_char(i) != b.get_char(i) {
            return false;
        }
        i = i + 1;
    }
    proof {
        assert(a@ =~= b@);
    }
    true
}

} // verus!
