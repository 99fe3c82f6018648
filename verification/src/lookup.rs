//! Finding a service by its name, or creating it.

use crate::ids::Ulid;
use crate::rows::Service;
use vstd::prelude::*;

verus! {

/// What is to be done once the services were searched for a name.
pub enum Lookup<E> {
    /// Nothing: the search is over.
    Done(Result<Service, E>),
    /// The service is added.
    Create(Service),
}

/// What follows a search for `name` that came back with `found`, where `fresh` identifies a
/// service that is created.
pub fn after_search_with<E>(
    name: &str,
    found: Result<Option<Service>, E>,
    fresh: Ulid,
) -> (lookup: Lookup<E>)
    ensures
        match found {
            Ok(Some(service)) => lookup == Lookup::<E>::Done(Ok(service)),
            Ok(None) => lookup matches Lookup::Create(service) && service.id == fresh
                && service.name@ == name@,
            Err(error) => lookup == Lookup::<E>::Done(Err(error)),
        },
{
    match found {
        Ok(Some(service)) => Lookup::Done(Ok(service)),
        Ok(None) => Lookup::Create(Service { id: fresh, name: name.to_owned() }),
        Err(error) => Lookup::Done(Err(error)),
    }
}

/// What follows a search for `name` that came back with `found`.
pub fn after_search<E>(name: &str, found: Result<Option<Service>, E>) -> (lookup: Lookup<E>)
    ensures
        match found {
            Ok(Some(service)) => lookup == Lookup::<E>::Done(Ok(service)),
            Ok(None) => lookup matches Lookup::Create(service) && service.name@ == name@,
            Err(error) => lookup == Lookup::<E>::Done(Err(error)),
        },
{
    match found {
        Ok(Some(service)) => Lookup::Done(Ok(service)),
        Ok(None) => after_search_with(name, Ok(None), Ulid::new()),
        Err(error) => Lookup::Done(Err(error)),
    }
}

/// The outcome, once the database has answered whether it added `service`.
pub fn after_insert<E>(service: Service, added: Result<(), E>) -> (result: Result<Service, E>)
    ensures
        match added {
            Ok(()) => result == Ok::<Service, E>(service),
            Err(error) => result == Err::<Service, E>(error),
        },
{
    match added {
        Ok(()) => Ok(service),
        Err(error) => Err(error),
    }
}

} // verus!
