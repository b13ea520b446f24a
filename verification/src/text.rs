//! Character-level text utilities: organization-name cleaning and blank-line
//! detection, over Unicode character classes supplied by std.

use vstd::prelude::*;
use vstd::string::StrSliceExecFns;

verus! {

/// What `char::is_alphanumeric` returns for a character; the Unicode tables
/// behind it are not restated here.
pub uninterp spec fn is_alnum_char(c: char) -> bool;

/// What `char::is_whitespace` returns for a character; the Unicode tables
/// behind it are not restated here.
pub uninterp spec fn is_space_char(c: char) -> bool;

/// Relies on `char::is_alphanumeric`: the result is a function of the
/// character alone.
pub assume_specification[ char::is_alphanumeric ](c: char) -> (r: bool)
    ensures
        r == is_alnum_char(c),
;

/// Relies on `char::is_whitespace`: the result is a function of the
/// character alone.
pub assume_specification[ char::is_whitespace ](c: char) -> (r: bool)
    ensures
        r == is_space_char(c),
;

/// Relies on `String::push`: appends the given character to the end of the
/// string.
pub assume_specification[ String::push ](s: &mut String, c: char)
    ensures
        final(s)@ == old(s)@.push(c),
;

/// Relies on `str`'s equality: two string slices are equal exactly when
/// their character sequences are.
#[verifier::external_body]
pub(crate) fn str_eq(a: &str, b: &str) -> (r: bool)
    ensures
        r == (a@ == b@),
{
    a == b
}

/// A character that organization-name cleaning keeps: alphanumeric or
/// whitespace.
pub open spec fn keeps_char(c: char) -> bool {
    is_alnum_char(c) || is_space_char(c)
}

/// The cleaned form of an organization name: every character that is neither
/// alphanumeric nor whitespace is removed; the kept characters stay in their
/// original order.
pub open spec fn clean_spec(s: Seq<char>) -> Seq<char>
    decreases s.len(),
{
    if s.len() == 0 {
        Seq::empty()
    } else if keeps_char(s.last()) {
        clean_spec(s.drop_last()).push(s.last())
    } else {
        clean_spec(s.drop_last())
    }
}

/// Every character of a cleaned organization name is alphanumeric or
/// whitespace: the invariant of the organization field of an output entry.
pub proof fn lemma_clean_all_kept(s: Seq<char>)
    ensures
        forall|i: int| 0 <= i < clean_spec(s).len() ==> keeps_char(#[trigger] clean_spec(s)[i]),
    decreases s.len(),
{
    if s.len() > 0 {
        lemma_clean_all_kept(s.drop_last());
        assert forall|i: int| 0 <= i < clean_spec(s).len() implies keeps_char(
            #[trigger] clean_spec(s)[i],
        ) by {
            if keeps_char(s.last()) {
                assert(clean_spec(s) == clean_spec(s.drop_last()).push(s.last()));
                if i < clean_spec(s.drop_last()).len() {
                    assert(clean_spec(s)[i] == clean_spec(s.drop_last())[i]);
                }
            } else {
                assert(clean_spec(s) == clean_spec(s.drop_last()));
            }
        }
    }
}

proof fn lemma_clean_of_kept(s: Seq<char>)
    requires
        forall|i: int| 0 <= i < s.len() ==> keeps_char(#[trigger] s[i]),
    ensures
        clean_spec(s) == s,
    decreases s.len(),
{
    if s.len() > 0 {
        assert forall|i: int| 0 <= i < s.drop_last().len() implies keeps_char(
            #[trigger] s.drop_last()[i],
        ) by {
            assert(s.drop_last()[i] == s[i]);
        }
        lemma_clean_of_kept(s.drop_last());
        assert(clean_spec(s) =~= s);
    } else {
        assert(clean_spec(s) =~= s);
    }
}

/// Cleaning an organization name is idempotent: cleaning an already cleaned
/// name changes nothing.
pub proof fn lemma_clean_idempotent(s: Seq<char>)
    ensures
        clean_spec(clean_spec(s)) == clean_spec(s),
{
    lemma_clean_all_kept(s);
    lemma_clean_of_kept(clean_spec(s));
}

/// Removes from an organization name every character that is not alphanumeric
/// or whitespace, preserving the order of the rest.
pub fn clean_org_name(org_name: &str) -> (r: String)
    ensures
        r@ == clean_spec(org_name@),
{
    let n = org_name.unicode_len();
    let mut out = String::new();
    let mut i: usize = 0;
    while i < n
        invariant
            n == org_name@.len(),
            i <= n,
            out@ == clean_spec(org_name@.take(i as int)),
        decreases n - i,
    {
        let c = org_name.get_char(i);
        proof {
            assert(org_name@.take(i + 1).drop_last() =~= org_name@.take(i as int));
            assert(org_name@.take(i + 1).last() == c);
        }
        if c.is_alphanumeric() || c.is_whitespace() {
            out.push(c);
        }
        i = i + 1;
    }
    proof {
        assert(org_name@.take(n as int) =~= org_name@);
    }
    out
}

/// A line with no content: every character is whitespace (an empty line is
/// blank).
pub open spec fn is_blank(s: Seq<char>) -> bool {
    forall|i: int| 0 <= i < s.len() ==> is_space_char(#[trigger] s[i])
}

/// Whether a line is blank: empty or whitespace only.
pub fn is_blank_line(line: &str) -> (r: bool)
    ensures
        r == is_blank(line@),
{
    let n = line.unicode_len();
    let mut i: usize = 0;
    while i < n
        invariant
            i <= n,
            n == line@.len(),
            forall|j: int| 0 <= j < i ==> is_space_char(#[trigger] line@[j]),
        decreases n - i,
    {
        let c = line.get_char(i);
        if !c.is_whitespace() {
            return false;
        }
        i = i + 1;
    }
    true
}

/// The lines that are not blank, in their original order.
pub open spec fn nonblank_of(lines: Seq<Seq<char>>) -> Seq<Seq<char>>
    decreases lines.len(),
{
    if lines.len() == 0 {
        Seq::empty()
    } else if !is_blank(lines.last()) {
        nonblank_of(lines.drop_last()).push(lines.last())
    } else {
        nonblank_of(lines.drop_last())
    }
}

/// Drops every blank line of the input list, keeping the rest in order.
pub fn filter_nonblank(lines: &Vec<String>) -> (r: Vec<String>)
    ensures
        r.deep_view() == nonblank_of(lines.deep_view()),
{
    let mut out: Vec<String> = Vec::new();
    let mut i: usize = 0;
    while i < lines.len()
        invariant
            i <= lines@.len(),
            out.deep_view() == nonblank_of(lines.deep_view().take(i as int)),
        decreases lines@.len() - i,
    {
        proof {
            assert(lines.deep_view().take(i + 1).drop_last() =~= lines.deep_view().take(i as int));
            assert(lines.deep_view().take(i + 1).last() == lines@[i as int]@);
        }
        if !is_blank_line(lines[i].as_str()) {
            let kept = lines[i].clone();
            out.push(kept);
            proof {
                assert(out.deep_view() =~= nonblank_of(lines.deep_view().take(i + 1)));
            }
        }
        i = i + 1;
    }
    proof {
        assert(lines.deep_view().take(lines@.len() as int) =~= lines.deep_view());
    }
    out
}

} // verus!
