//! The address that the traffic for a service goes to.

use vstd::prelude::*;

verus! {

/// Why there is no telling the address of a service.
#[derive(Debug, PartialEq)]
pub enum AddressError<E> {
    /// The database failed.
    Persistence(E),
    /// The stored text is no address.
    Convert { from: String, to: String, message: String },
}

/// The text that is read of a stored address: nothing where none is stored.
pub open spec fn address_text(address: Option<String>) -> Seq<char> {
    match address {
        Some(text) => text@,
        None => Seq::empty(),
    }
}

pub fn to_address_text(address: Option<String>) -> (text: String)
    ensures
        text@ == address_text(address),
        match address {
            Some(stored) => text@ == stored@,
            None => text@.len() == 0,
        },
{
    match address {
        Some(text) => text,
        None => String::new(),
    }
}

/// What follows the search for an address.
pub enum AfterFetch {
    /// No deployment of the service is running.
    Unknown,
    /// A deployment is running: the text of its address is read as one. A deployment without
    /// an address has an empty text, which is none.
    Parse(String),
}

/// What follows a search for an address that came back with `fetched`.
pub fn after_fetch<E>(fetched: Result<Option<String>, E>) -> (next: Result<
    AfterFetch,
    AddressError<E>,
>)
    ensures
        match fetched {
            Ok(Some(text)) => next == Ok::<AfterFetch, AddressError<E>>(AfterFetch::Parse(text)),
            Ok(None) => next == Ok::<AfterFetch, AddressError<E>>(AfterFetch::Unknown),
            Err(error) => next == Err::<AfterFetch, AddressError<E>>(
                AddressError::Persistence(error),
            ),
        },
{
    match fetched {
        Ok(Some(text)) => Ok(AfterFetch::Parse(text)),
        Ok(None) => Ok(AfterFetch::Unknown),
        Err(error) => Err(AddressError::Persistence(error)),
    }
}

/// Whether `result` is what comes of reading a text as an address: the address, or why it is
/// none.
pub open spec fn is_parsed<A, E>(
    parsed: Result<A, String>,
    result: Result<Option<A>, AddressError<E>>,
) -> bool {
    match parsed {
        Ok(address) => result == Ok::<Option<A>, AddressError<E>>(Some(address)),
        Err(reason) => result matches Err(AddressError::Convert { from, to, message }) && from@
            == "String"@ && to@ == "SocketAddr"@ && message == reason,
    }
}

/// The outcome, once the text was read as an address.
pub fn after_parse<A, E>(parsed: Result<A, String>) -> (result: Result<
    Option<A>,
    AddressError<E>,
>)
    ensures
        is_parsed(parsed, result),
{
    match parsed {
        Ok(address) => Ok(Some(address)),
        Err(reason) => Err(
            AddressError::Convert {
                from: "String".to_owned(),
                to: "SocketAddr".to_owned(),
                message: reason,
            },
        ),
    }
}

/// What comes out for a search that came back with `fetched`, where `parsed` is what reading the
/// text as an address gives: nothing exactly where no deployment is running, the error of the
/// database exactly where it failed, and else the address or why the text is none.
pub fn outcome<A, E>(fetched: Result<Option<String>, E>, parsed: Result<A, String>) -> (result:
    Result<Option<A>, AddressError<E>>)
    ensures
        match fetched {
            Ok(None) => result == Ok::<Option<A>, AddressError<E>>(None),
            Ok(Some(_)) => is_parsed(parsed, result),
            Err(error) => result == Err::<Option<A>, AddressError<E>>(
                AddressError::Persistence(error),
            ),
        },
{
    match after_fetch(fetched) {
        Ok(AfterFetch::Unknown) => Ok(None),
        Ok(AfterFetch::Parse(_)) => after_parse(parsed),
        Err(error) => Err(error),
    }
}

} // verus!
