//! The rule that a username must meet before a birthday is stored under it.

use vstd::prelude::*;

verus! {

/// Whether `c` has the Unicode property Alphabetic, as `char::is_alphabetic`
/// tells it.
pub uninterp spec fn is_alphabetic(c: char) -> bool;

/// Calls `char::is_alphabetic`, which tells whether a character has the
/// Unicode property Alphabetic.
#[verifier::external_body]
fn char_is_alphabetic(c: char) -> (alphabetic: bool)
    ensures
        alphabetic == is_alphabetic(c),
{
    c.is_alphabetic()
}

/// Whether a name is made of letters alone, where `letters` tells of each of
/// its characters in turn whether it is one: the name must not be empty, and
/// every character must be a letter.
pub open spec fn is_made_of_letters(letters: Seq<bool>) -> bool {
    letters.len() > 0 && forall|i: int| 0 <= i < letters.len() ==> letters[i]
}

/// Of each character of `name` in turn, whether it is alphabetic.
pub open spec fn alphabetic_marks(name: Seq<char>) -> Seq<bool> {
    Seq::new(name.len(), |i: int| is_alphabetic(name[i]))
}

/// A username is valid when it is not empty and each of its characters is
/// alphabetic: no digit, no punctuation, no white space.
pub open spec fn is_valid_username(name: Seq<char>) -> bool {
    name.len() > 0 && forall|i: int| 0 <= i < name.len() ==> is_alphabetic(#[trigger] name[i])
}

/// A name is a valid username exactly when the marks of its characters show
/// letters alone.
pub proof fn lemma_valid_by_marks(name: Seq<char>)
    ensures
        is_valid_username(name) <==> is_made_of_letters(alphabetic_marks(name)),
{
    let marks = alphabetic_marks(name);
    if is_made_of_letters(marks) {
        assert forall|i: int| 0 <= i < name.len() implies is_alphabetic(#[trigger] name[i]) by {
            assert(marks[i]);
        }
    }
}

/// Whether a name is made of letters alone, where `letters` tells of each of
/// its characters in turn whether it is one.
pub fn made_of_letters(letters: &[bool]) -> (valid: bool)
    ensures
        valid == is_made_of_letters(letters@),
{
    let mut i: usize = 0;
    while i < letters.len()
        invariant
            i <= letters@.len(),
            forall|j: int| 0 <= j < i ==> letters@[j],
        decreases letters@.len() - i,
    {
        if !letters[i] {
            return false;
        }
        i += 1;
    }
    i > 0
}

/// Of each character of `name` in turn, whether it is alphabetic.
pub fn mark_alphabetic(name: &str) -> (marks: Vec<bool>)
    ensures
        marks@ == alphabetic_marks(name@),
{
    broadcast use vstd::string::group_string_axioms;

    let mut marks: Vec<bool> = Vec::new();
    for c in it: name.chars()
        invariant
            it.seq() == name@,
            marks@.len() == it.index(),
            forall|j: int| 0 <= j < it.index() ==> marks@[j] == is_alphabetic(name@[j]),
    {
        marks.push(char_is_alphabetic(c));
    }
    assert(marks@ =~= alphabetic_marks(name@));
    marks
}

/// Whether `name` may be used as a username.
pub fn valid_username(name: &str) -> (valid: bool)
    ensures
        valid == is_valid_username(name@),
{
    let marks = mark_alphabetic(name);
    proof {
        lemma_valid_by_marks(name@);
    }
    made_of_letters(marks.as_slice())
}

} // verus!
