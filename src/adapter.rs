//! The request-time side: a request-scoped child of the process-wide
//! container, and the outcome of extracting an injected service from it.
use vstd::prelude::*;
use crate::Injected;
use coi::Error as ContainerError;

verus! {

#[verifier::external_type_specification]
#[verifier::external_body]
pub struct ExContainer(coi::Container);

#[verifier::external_type_specification]
#[verifier::external_body]
pub struct ExContainerError(ContainerError);

/// The status code of every failed extraction.
pub const INTERNAL_SERVER_ERROR: u16 = 500;

/// The container of one request, derived from the process-wide container.
pub struct ScopedContainer(pub coi::Container);

/// Why an injected parameter could not be extracted.
#[derive(Debug)]
pub enum Error {
    /// The container could not resolve the service.
    Coi(ContainerError),
    /// No process-wide container was registered with the framework.
    MissingContainer,
}

/// The three ways an extraction from a request can end.
pub enum Outcome<S> {
    Success(S),
    /// Failure, with its status code and cause.
    Error(u16, Error),
    /// Pass the request on to the next candidate, with a status code.
    Forward(u16),
}

/// The scoped container of a request, from the child that was derived from
/// the process-wide container (by coi's `Container::scoped`) where one is
/// registered: that child itself, and none when no container is registered.
pub fn scoped_container(child: Option<coi::Container>) -> (r: Option<ScopedContainer>)
    ensures
        match child {
            Some(c) => r matches Some(s) && s.0 == c,
            None => r is None,
        },
{
    match child {
        Some(c) => Some(ScopedContainer(c)),
        None => None,
    }
}

/// The outcome of extracting the scoped container that the request has
/// cached: success with it, or an internal server error for a missing container.
pub fn scoped_outcome(cached: Option<&ScopedContainer>) -> (r: Outcome<&ScopedContainer>)
    ensures
        match cached {
            Some(c) => r == Outcome::Success(c),
            None => r == Outcome::<&ScopedContainer>::Error(
                INTERNAL_SERVER_ERROR,
                Error::MissingContainer,
            ),
        },
{
    match cached {
        Some(c) => Outcome::Success(c),
        None => Outcome::Error(INTERNAL_SERVER_ERROR, Error::MissingContainer),
    }
}

/// Takes the value out of a prerequisite's success; a failure or a forward
/// is passed on unchanged as the outcome of the dependent extraction.
pub fn prerequisite<S, U>(o: Outcome<S>) -> (r: Result<S, Outcome<U>>)
    ensures
        match o {
            Outcome::Success(s) => r == Ok::<S, Outcome<U>>(s),
            Outcome::Error(code, e) => r == Err::<S, Outcome<U>>(Outcome::Error(code, e)),
            Outcome::Forward(code) => r == Err::<S, Outcome<U>>(Outcome::Forward(code)),
        },
{
    match o {
        Outcome::Success(s) => Ok(s),
        Outcome::Error(code, e) => Err(Outcome::Error(code, e)),
        Outcome::Forward(code) => Err(Outcome::Forward(code)),
    }
}

/// The outcome of an injected parameter from what the scoped container
/// resolved: success with the service, or an internal server error that
/// carries the container's error.
pub fn injected_outcome<T, K>(resolved: Result<T, ContainerError>) -> (r: Outcome<Injected<T, K>>)
    ensures
        match resolved {
            Ok(v) => r matches Outcome::Success(i) && i.0 == v,
            Err(e) => r == Outcome::<Injected<T, K>>::Error(INTERNAL_SERVER_ERROR, Error::Coi(e)),
        },
{
    match resolved {
        Ok(v) => Outcome::Success(Injected::new(v)),
        Err(e) => Outcome::Error(INTERNAL_SERVER_ERROR, Error::Coi(e)),
    }
}

} // verus!
