use vstd::prelude::*;
use fake::Fake;
use fake::faker::address::en::{StreetName, ZipCode};
use fake::faker::internet::en::Username;
use fake::faker::lorem::en::Sentence;
use fake::faker::name::en::{FirstName, LastName};

verus! {

/// Relies on fake's `Sentence` (English lorem): a word count drawn from
/// `min_words..max_words` (it panics on an empty range), the words joined by
/// spaces, then ".".
#[verifier::external_body]
pub(crate) fn sentence(min_words: usize, max_words: usize) -> (r: String)
    requires
        min_words < max_words,
    ensures
        r@.len() >= 1,
        r@.last() == '.',
{
    Sentence(min_words..max_words).fake()
}

/// Relies on fake's English `Username`: a random user name.
#[verifier::external_body]
pub(crate) fn username() -> String {
    Username().fake()
}

/// Relies on fake's English `FirstName`: a random given name.
#[verifier::external_body]
pub(crate) fn first_name() -> String {
    FirstName().fake()
}

/// Relies on fake's English `LastName`: a random family name.
#[verifier::external_body]
pub(crate) fn last_name() -> String {
    LastName().fake()
}

/// Relies on fake's English `StreetName`: a random street name.
#[verifier::external_body]
pub(crate) fn street_name() -> String {
    StreetName().fake()
}

/// Relies on fake's English `ZipCode`: a random postal code.
#[verifier::external_body]
pub(crate) fn zip_code() -> String {
    ZipCode().fake()
}

} // verus!
