use coi_rocket::adapter::{
    injected_outcome, prerequisite, scoped_container, scoped_outcome, Error, Outcome,
    ScopedContainer, INTERNAL_SERVER_ERROR,
};
use coi_rocket::Injected;
use std::sync::Arc;

struct Marker;

#[test]
fn missing_container_is_internal_server_error() {
    let cached = scoped_container(None);
    assert!(cached.is_none());
    let outcome = scoped_outcome(cached.as_ref());
    assert!(matches!(outcome, Outcome::Error(500, Error::MissingContainer)));
    let next = prerequisite::<&ScopedContainer, Injected<Arc<u32>, Marker>>(outcome);
    assert!(matches!(next, Err(Outcome::Error(500, Error::MissingContainer))));
}

#[test]
fn registered_container_gives_a_scope() {
    let container = coi::ContainerBuilder::new().build();
    let cached = scoped_container(Some(container.scoped()));
    assert!(cached.is_some());
    match scoped_outcome(cached.as_ref()) {
        Outcome::Success(c) => assert!(std::ptr::eq(c, cached.as_ref().unwrap())),
        _ => panic!("expected the cached scope"),
    }
}

#[test]
fn prerequisite_passes_failures_on() {
    assert!(matches!(prerequisite::<u8, ()>(Outcome::Success(7)), Ok(7)));
    assert!(matches!(prerequisite::<u8, ()>(Outcome::Forward(404)), Err(Outcome::Forward(404))));
}

#[test]
fn resolved_service_is_injected() {
    let r = injected_outcome::<Arc<u32>, Marker>(Ok(Arc::new(5)));
    match r {
        Outcome::Success(Injected(v, _)) => assert_eq!(*v, 5),
        _ => panic!("expected success"),
    }
    assert_eq!(*Injected::<Arc<u32>, Marker>::new(Arc::new(9)).0, 9);
}

#[test]
fn resolution_failure_carries_container_error() {
    let r = injected_outcome::<Arc<u32>, Marker>(Err(coi::Error::KeyNotFound("svc".to_string())));
    match r {
        Outcome::Error(code, Error::Coi(coi::Error::KeyNotFound(k))) => {
            assert_eq!(code, INTERNAL_SERVER_ERROR);
            assert_eq!(k, "svc");
        }
        _ => panic!("expected the container error"),
    }
}
