//! Operations on strings, seen as sequences of characters.

use vstd::prelude::*;
use vstd::string::*;

verus! {

/// Splits `prefix` off the front of `input`.
///
/// `input_length` is the number of characters of `input`; the caller counts
/// them once and may then try many prefixes.
pub(crate) fn strip_prefix<'a>(input: &'a str, input_length: usize, prefix: &str) -> (rest: Option<
    &'a str,
>)
    requires
        input_length == input@.len(),
    ensures
        match rest {
            Some(rest) => prefix@.is_prefix_of(input@) && rest@ == input@.skip(
                prefix@.len() as int,
            ),
            None => !prefix@.is_prefix_of(input@),
        },
{
    let prefix_length = prefix.unicode_len();
    if prefix_length > input_length {
        return None;
    }
    let mut index: usize = 0;
    while index < prefix_length
        invariant
            index <= prefix_length <= input_length,
            prefix_length == prefix@.len(),
            input_length == input@.len(),
            forall|i: int| 0 <= i < index ==> input@[i] == prefix@[i],
        decreases prefix_length - index,
    {
        if input.get_char(index) != prefix.get_char(index) {
            return None;
        }
        index += 1;
    }
    Some(input.substring_char(prefix_length, input_length))
}

/// The string `prefix` followed by `name`.
pub(crate) fn prefixed(prefix: &str, name: &str) -> (joined: String)
    ensures
        joined@ == prefix@ + name@,
{
    String::from_str(prefix).concat(name)
}

/// A name of the form `spelling + name` determines `spelling`.
pub(crate) proof fn lemma_prefixed_is_injective(first: Seq<char>, second: Seq<char>, name: Seq<char>)
    requires
        first + name == second + name,
    ensures
        first == second,
{
    assert((second + name).len() == second.len() + name.len());
    assert forall|i: int| 0 <= i < first.len() implies first[i] == second[i] by {
        assert((second + name)[i] == second[i]);
    }
}

/// Stripping `spelling` from `spelling + name` leaves `name`.
pub(crate) proof fn lemma_prefixed_splits(spelling: Seq<char>, name: Seq<char>)
    ensures
        spelling.is_prefix_of(spelling + name),
        (spelling + name).skip(spelling.len() as int) == name,
{
}

/// A sequence with the prefix `spelling` is `spelling` followed by the rest.
pub(crate) proof fn lemma_prefix_joins(spelling: Seq<char>, input: Seq<char>)
    requires
        spelling.is_prefix_of(input),
    ensures
        input == spelling + input.skip(spelling.len() as int),
{
}

} // verus!
