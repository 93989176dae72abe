//! Translation phase 2: a backslash immediately followed by a newline is
//! deleted, joining the two lines, and the text is made to end in a newline.
use vstd::prelude::*;

use crate::text::{chars_of, string_of};

verus! {

/// `s` with every backslash-newline pair removed, scanning from the left
/// (as `str::replace` does: a pair formed by a removal is kept).
pub open spec fn remove_line_splices(s: Seq<char>) -> Seq<char>
    decreases s.len(),
{
    if s.len() == 0 {
        s
    } else if s.len() >= 2 && s[0] == '\\' && s[1] == '\n' {
        remove_line_splices(s.skip(2))
    } else {
        seq![s[0]] + remove_line_splices(s.skip(1))
    }
}

/// The result of phase 2 on `s`.
pub open spec fn phase2_spec(s: Seq<char>) -> Seq<char> {
    let r = remove_line_splices(s);
    if r.len() > 0 && r.last() == '\n' {
        r
    } else {
        r.push('\n')
    }
}

/// Phase 2 always leaves the text ending in a newline.
pub proof fn law_phase2_ends_in_newline(s: Seq<char>)
    ensures
        phase2_spec(s).len() > 0,
        phase2_spec(s).last() == '\n',
{
}

proof fn lemma_no_splices(s: Seq<char>)
    requires
        forall|i: int| 0 <= i < s.len() ==> s[i] != '\\',
    ensures
        remove_line_splices(s) == s,
    decreases s.len(),
{
    if s.len() > 0 {
        assert forall|i: int| 0 <= i < s.skip(1).len() implies s.skip(1)[i] != '\\' by {
            assert(s.skip(1)[i] == s[i + 1]);
        }
        lemma_no_splices(s.skip(1));
        assert(seq![s[0]] + s.skip(1) =~= s);
    }
}

/// A text without backslashes that ends in a newline passes phase 2
/// unchanged.
pub proof fn law_phase2_keeps_plain_text(s: Seq<char>)
    requires
        s.len() > 0,
        s.last() == '\n',
        forall|i: int| 0 <= i < s.len() ==> s[i] != '\\',
    ensures
        phase2_spec(s) == s,
{
    lemma_no_splices(s);
}

/// Joins lines continued with a backslash and makes the text end in a newline.
pub fn phase2(code: &str) -> (r: String)
    ensures
        r@ == phase2_spec(code@),
{
    let chars = chars_of(code);
    let mut out: Vec<char> = Vec::new();
    let mut i: usize = 0;
    assert(chars@.skip(0) =~= chars@);
    while i < chars.len()
        invariant
            i <= chars@.len(),
            chars@ == code@,
            remove_line_splices(code@) == out@ + remove_line_splices(chars@.skip(i as int)),
        decreases chars@.len() - i,
    {
        let ghost rest = chars@.skip(i as int);
        if i + 1 < chars.len() && chars[i] == '\\' && chars[i + 1] == '\n' {
            assert(rest.skip(2) =~= chars@.skip(i + 2));
            i = i + 2;
        } else {
            assert(rest.skip(1) =~= chars@.skip(i + 1));
            let ghost before = out@;
            out.push(chars[i]);
            i = i + 1;
            assert(before + (seq![rest[0]] + remove_line_splices(rest.skip(1))) =~= out@
                + remove_line_splices(chars@.skip(i as int)));
        }
    }
    assert(chars@.skip(i as int) =~= Seq::<char>::empty());
    assert(out@ + remove_line_splices(chars@.skip(i as int)) =~= out@);
    let n = out.len();
    if !(n > 0 && out[n - 1] == '\n') {
        out.push('\n');
    }
    string_of(&out)
}

} // verus!
