use syrette::caster::{CastArc, CastError};
use syrette::di_container::asynchronous::AsyncDIContainer;
use syrette::errors::AsyncDIContainerError;
use syrette::injectable::Injectable;
use syrette::key::InterfaceKey;
use syrette::ptr::SomePtr;

#[derive(Debug, PartialEq)]
enum Payload {
    UserManager,
    Number(i32),
    Unknown,
}

impl Injectable for Payload {
    fn construct(implementation: &str, _dependencies: Vec<SomePtr>) -> Self {
        match implementation {
            "UserManager" => Payload::UserManager,
            "Number" => Payload::Number(0),
            _ => Payload::Unknown,
        }
    }
}

#[test]
fn scope_configurator_in_transient_scope_works() {
    let mut di_container: AsyncDIContainer<Payload> = AsyncDIContainer::new();

    let binding_builder = di_container.bind("dyn IUserManager");
    let binding_scope_configurator = binding_builder
        .to(&mut di_container, "UserManager", Vec::new())
        .unwrap();

    binding_scope_configurator.in_transient_scope(&mut di_container);

    assert!(di_container.has_binding(&InterfaceKey::unnamed("dyn IUserManager")));
}

#[test]
fn scope_configurator_in_singleton_scope_works() {
    let mut di_container: AsyncDIContainer<Payload> = AsyncDIContainer::new();

    let binding_builder = di_container.bind("dyn IUserManager");
    let binding_scope_configurator = binding_builder
        .to(&mut di_container, "UserManager", Vec::new())
        .unwrap();

    assert!(binding_scope_configurator
        .in_singleton_scope(&mut di_container)
        .is_ok());
}

#[test]
fn when_named_works() {
    let mut di_container: AsyncDIContainer<Payload> = AsyncDIContainer::new();

    let binding_builder = di_container.bind("dyn INumber");
    let configurator = binding_builder
        .to(&mut di_container, "Number", Vec::new())
        .unwrap();
    let when_configurator = configurator.in_transient_scope(&mut di_container);

    assert!(when_configurator
        .when_named(&mut di_container, "awesome")
        .is_ok());

    assert!(di_container.has_binding(&InterfaceKey::new("dyn INumber", Some("awesome"))));
    assert!(!di_container.has_binding(&InterfaceKey::unnamed("dyn INumber")));
}

#[test]
fn interface_not_marked_threadsafe_fails_resolution() {
    let mut di_container: AsyncDIContainer<Payload> = AsyncDIContainer::new();
    di_container.declare_interface("Number", "dyn INumber", false);

    let binding_builder = di_container.bind("dyn INumber");
    binding_builder
        .to(&mut di_container, "Number", Vec::new())
        .unwrap();

    let error = di_container.get("dyn INumber", None).unwrap_err();
    match error.root_cause() {
        AsyncDIContainerError::InterfaceNotAsync { interface } => {
            assert_eq!(interface, "dyn INumber");
        }
        other => panic!("expected a not-async interface, found {:?}", other),
    }
}

#[test]
fn threadsafe_declaration_resolves() {
    let mut di_container: AsyncDIContainer<Payload> = AsyncDIContainer::new();
    di_container.declare_interface("Number", "dyn INumber", true);

    let binding_builder = di_container.bind("dyn INumber");
    binding_builder
        .to(&mut di_container, "Number", Vec::new())
        .unwrap();

    let ptr = di_container
        .get("dyn INumber", None)
        .unwrap()
        .transient()
        .unwrap();

    assert_eq!(di_container.instance(&ptr), Some(&Payload::Number(0)));
}

#[test]
fn cast_arc_requires_a_threadsafe_declaration() {
    let mut di_container: AsyncDIContainer<Payload> = AsyncDIContainer::new();
    di_container.declare_interface("Number", "Number", true);
    di_container.declare_interface("Number", "dyn INumber", false);

    let binding_builder = di_container.bind("Number");
    let configurator = binding_builder
        .to(&mut di_container, "Number", Vec::new())
        .unwrap();
    configurator.in_singleton_scope(&mut di_container).unwrap();

    let ptr = di_container.get("Number", None).unwrap().singleton().unwrap();
    let slot = ptr.slot();

    let error =
        CastArc::cast(ptr, di_container.caster_registry(), "dyn INumber").unwrap_err();
    match error {
        CastError::NotArcCastable(to) => assert_eq!(to, "dyn INumber"),
        other => panic!("expected a not-thread-safe cast, found {:?}", other),
    }

    // Declared thread-safe, the same cast goes through and keeps the slot.
    di_container.declare_interface("Number", "dyn INumber", true);
    let ptr = di_container.get("Number", None).unwrap().singleton().unwrap();
    let cast = CastArc::cast(ptr, di_container.caster_registry(), "dyn INumber").unwrap();
    assert_eq!(cast.slot(), slot);
}
