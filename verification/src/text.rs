use vstd::prelude::*;

verus! {

/// Relies on `Iterator::collect` for `String` over a char iterator:
/// the collected string holds exactly the iterated characters in order.
#[verifier::external_body]
pub fn string_of_chars(v: &Vec<char>) -> (r: String)
    ensures
        r@ == v@,
{
    v.iter().collect()
}

/// Relies on `str::chars`: the iterator yields exactly the string's
/// characters in order.
#[verifier::external_body]
pub fn chars_of_str(s: &str) -> (r: Vec<char>)
    ensures
        r@ == s@,
{
    s.chars().collect()
}

/// Relies on `std::str::from_utf8`: it succeeds exactly on valid UTF-8
/// and returns its decoding, as vstd's UTF-8 model states it.
#[verifier::external_body]
pub fn utf8_to_string(b: &Vec<u8>) -> (r: Option<String>)
    ensures
        r is Some <==> vstd::utf8::valid_utf8(b@),
        r is Some ==> r->Some_0@ == vstd::utf8::decode_utf8(b@),
{
    std::str::from_utf8(b).ok().map(|s| s.to_string())
}

} // verus!
