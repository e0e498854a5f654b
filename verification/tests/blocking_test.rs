use syrette::caster::{CastError, CastRc};
use syrette::di_container::blocking::DIContainer;
use syrette::errors::{
    BindingBuilderError, BindingScopeConfiguratorError, DIContainerError,
};
use syrette::injectable::Injectable;
use syrette::key::InterfaceKey;
use syrette::ptr::{InstancePtr, SomePtr, SomePtrError};

#[derive(Debug, PartialEq)]
enum Payload {
    UserManager,
    Dog { barks: u32 },
    Armor,
    Knight { armor_slot: usize },
    MakeBacon,
    Unknown,
}

impl Injectable for Payload {
    fn construct(implementation: &str, dependencies: Vec<SomePtr>) -> Self {
        match implementation {
            "UserManager" => Payload::UserManager,
            "Dog" => Payload::Dog { barks: 0 },
            "Armor" => Payload::Armor,
            "Knight" => Payload::Knight {
                armor_slot: dependencies[0].ptr().slot(),
            },
            _ => Payload::Unknown,
        }
    }
}

#[test]
fn in_transient_scope_works() {
    let mut di_container: DIContainer<Payload> = DIContainer::new();

    let binding_builder = di_container.bind("dyn IUserManager");
    let binding_scope_configurator = binding_builder
        .to(&mut di_container, "UserManager", Vec::new())
        .unwrap();

    binding_scope_configurator.in_transient_scope(&mut di_container);

    assert!(di_container.has_binding(&InterfaceKey::unnamed("dyn IUserManager")));
}

#[test]
fn in_singleton_scope_works() {
    let mut di_container: DIContainer<Payload> = DIContainer::new();

    let binding_builder = di_container.bind("dyn IUserManager");
    let binding_scope_configurator = binding_builder
        .to(&mut di_container, "UserManager", Vec::new())
        .unwrap();

    assert!(binding_scope_configurator
        .in_singleton_scope(&mut di_container)
        .is_ok());
}

#[test]
fn transient_gets_are_distinct() {
    let mut di_container: DIContainer<Payload> = DIContainer::new();
    di_container.declare_interface("Dog", "dyn IDog");

    let binding_builder = di_container.bind("dyn IDog");
    binding_builder
        .to(&mut di_container, "Dog", Vec::new())
        .unwrap();

    let first = di_container
        .get("dyn IDog", None)
        .unwrap()
        .transient()
        .unwrap();
    let second = di_container
        .get("dyn IDog", None)
        .unwrap()
        .transient()
        .unwrap();

    assert_ne!(first.slot(), second.slot());
    assert_eq!(di_container.instance_count(), 2);
}

#[test]
fn singleton_gets_share_one_instance() {
    let mut di_container: DIContainer<Payload> = DIContainer::new();
    di_container.declare_interface("Dog", "dyn IDog");

    let binding_builder = di_container.bind("dyn IDog");
    let configurator = binding_builder
        .to(&mut di_container, "Dog", Vec::new())
        .unwrap();
    configurator.in_singleton_scope(&mut di_container).unwrap();

    let first = di_container
        .get("dyn IDog", None)
        .unwrap()
        .singleton()
        .unwrap();
    let second = di_container
        .get("dyn IDog", None)
        .unwrap()
        .singleton()
        .unwrap();

    assert_eq!(first.slot(), second.slot());

    // Mutating through one handle is observable through the other.
    assert!(di_container.set_instance(&first, Payload::Dog { barks: 5 }));
    match di_container.instance(&second) {
        Some(Payload::Dog { barks }) => assert_eq!(*barks, 5),
        other => panic!("expected the shared dog instance, found {:?}", other),
    }
}

#[test]
fn direct_cycle_is_detected() {
    let mut di_container: DIContainer<Payload> = DIContainer::new();
    di_container.declare_interface("Armor", "dyn IArmor");
    di_container.declare_interface("Knight", "dyn IKnight");

    let binding_builder = di_container.bind("dyn IArmor");
    binding_builder
        .to(
            &mut di_container,
            "Armor",
            vec![InterfaceKey::unnamed("dyn IKnight")],
        )
        .unwrap();
    let binding_builder = di_container.bind("dyn IKnight");
    binding_builder
        .to(
            &mut di_container,
            "Knight",
            vec![InterfaceKey::unnamed("dyn IArmor")],
        )
        .unwrap();

    let error = di_container.get("dyn IArmor", None).unwrap_err();

    match error.root_cause() {
        DIContainerError::CycleDetected { dependency_history } => {
            assert_eq!(dependency_history.len(), 3);
            assert!(dependency_history.contains("dyn IArmor"));
            assert!(dependency_history.contains("dyn IKnight"));
            let rendered = dependency_history.format();
            assert_eq!(
                rendered,
                format!(
                    "{bold}dyn IArmor{reset} -> dyn IKnight -> {bold}dyn IArmor{reset} -> ...",
                    bold = "\x1b[1m",
                    reset = "\x1b[22m"
                )
            );
        }
        other => panic!("expected a detected cycle, found {:?}", other),
    }
}

#[test]
fn when_named_unbinds_default() {
    let mut di_container: DIContainer<Payload> = DIContainer::new();
    di_container.declare_interface("Dog", "dyn IDog");

    let binding_builder = di_container.bind("dyn IDog");
    let configurator = binding_builder
        .to(&mut di_container, "Dog", Vec::new())
        .unwrap();
    let when_configurator = configurator.in_transient_scope(&mut di_container);
    when_configurator
        .when_named(&mut di_container, "hound")
        .unwrap();

    let error = di_container.get("dyn IDog", None).unwrap_err();
    match error {
        DIContainerError::BindingNotFound { interface, name } => {
            assert_eq!(interface, "dyn IDog");
            assert_eq!(name, None);
        }
        other => panic!("expected a missing binding, found {:?}", other),
    }

    assert!(di_container.get("dyn IDog", Some("hound")).is_ok());
}

#[test]
fn singleton_from_existing_transient_fails() {
    let mut di_container: DIContainer<Payload> = DIContainer::new();
    di_container.declare_interface("Dog", "Dog");

    // The implementation is bound to itself, in (default) transient scope.
    let binding_builder = di_container.bind("Dog");
    binding_builder
        .to(&mut di_container, "Dog", Vec::new())
        .unwrap();

    let binding_builder = di_container.bind("dyn IDog");
    let configurator = binding_builder
        .to(&mut di_container, "Dog", Vec::new())
        .unwrap();
    // `to` installs a default transient binding for dyn IDog; take it out
    // again to observe that a failing singleton configuration installs none.
    di_container.remove_binding(&InterfaceKey::unnamed("dyn IDog"));

    let result = configurator.in_singleton_scope_from_existing(&mut di_container);

    assert!(result.is_err());
    assert!(!di_container.has_binding(&InterfaceKey::unnamed("dyn IDog")));
}

#[test]
fn singleton_from_existing_shares_the_instance() {
    let mut di_container: DIContainer<Payload> = DIContainer::new();
    di_container.declare_interface("Dog", "Dog");
    di_container.declare_interface("Dog", "dyn IDog");

    let binding_builder = di_container.bind("Dog");
    let configurator = binding_builder
        .to(&mut di_container, "Dog", Vec::new())
        .unwrap();
    configurator.in_singleton_scope(&mut di_container).unwrap();

    let binding_builder = di_container.bind("dyn IDog");
    let configurator = binding_builder
        .to(&mut di_container, "Dog", Vec::new())
        .unwrap();
    configurator
        .in_singleton_scope_from_existing(&mut di_container)
        .unwrap();

    let as_concrete = di_container.get("Dog", None).unwrap().singleton().unwrap();
    let as_interface = di_container
        .get("dyn IDog", None)
        .unwrap()
        .singleton()
        .unwrap();

    assert_eq!(as_concrete.slot(), as_interface.slot());
}

#[test]
fn binding_twice_is_refused() {
    let mut di_container: DIContainer<Payload> = DIContainer::new();

    let binding_builder = di_container.bind("dyn IDog");
    binding_builder
        .to(&mut di_container, "Dog", Vec::new())
        .unwrap();

    let binding_builder = di_container.bind("dyn IDog");
    let error = binding_builder
        .to(&mut di_container, "Dog", Vec::new())
        .unwrap_err();

    match error {
        BindingBuilderError::BindingAlreadyExists(interface) => {
            assert_eq!(interface, "dyn IDog");
        }
    }
}

#[test]
fn missing_cast_declaration_fails_resolution() {
    let mut di_container: DIContainer<Payload> = DIContainer::new();

    let binding_builder = di_container.bind("dyn IDog");
    binding_builder
        .to(&mut di_container, "Dog", Vec::new())
        .unwrap();

    let error = di_container.get("dyn IDog", None).unwrap_err();
    match error {
        DIContainerError::CastFailed { from, to } => {
            assert_eq!(from, "Dog");
            assert_eq!(to, "dyn IDog");
        }
        other => panic!("expected a failed cast, found {:?}", other),
    }
}

#[test]
fn factory_binding_returns_the_callable() {
    let mut di_container: DIContainer<Payload> = DIContainer::new();
    di_container.declare_interface("MakeBacon", "dyn IBaconFactory");

    let binding_builder = di_container.bind("dyn IBaconFactory");
    binding_builder
        .to_factory(&mut di_container, "MakeBacon", Payload::MakeBacon)
        .unwrap();

    let first = di_container
        .get("dyn IBaconFactory", None)
        .unwrap()
        .factory()
        .unwrap();
    let second = di_container
        .get("dyn IBaconFactory", None)
        .unwrap()
        .factory()
        .unwrap();

    // Resolving a factory binding retrieves the stored callable itself.
    assert_eq!(first.slot(), second.slot());
    assert_eq!(di_container.instance(&first), Some(&Payload::MakeBacon));
}

#[test]
fn dynamic_value_gives_fresh_instances() {
    let mut di_container: DIContainer<Payload> = DIContainer::new();
    di_container.declare_interface("UserManager", "dyn IUserManager");

    let binding_builder = di_container.bind("dyn IUserManager");
    binding_builder
        .to_dynamic_value(&mut di_container, "UserManager")
        .unwrap();

    let first = di_container
        .get("dyn IUserManager", None)
        .unwrap()
        .transient()
        .unwrap();
    let second = di_container
        .get("dyn IUserManager", None)
        .unwrap()
        .transient()
        .unwrap();

    assert_ne!(first.slot(), second.slot());
    assert_eq!(di_container.instance(&first), Some(&Payload::UserManager));
}

#[test]
fn scope_kind_accessors_refuse_mismatches() {
    let mut di_container: DIContainer<Payload> = DIContainer::new();
    di_container.declare_interface("Dog", "dyn IDog");

    let binding_builder = di_container.bind("dyn IDog");
    binding_builder
        .to(&mut di_container, "Dog", Vec::new())
        .unwrap();

    let resolved = di_container.get("dyn IDog", None).unwrap();
    let error = resolved.singleton().unwrap_err();

    match error {
        SomePtrError::WrongPtrType { expected, found } => {
            assert_eq!(expected, "singleton");
            assert_eq!(found, "transient");
        }
    }
}

#[test]
fn cast_rc_keeps_the_slot() {
    let mut di_container: DIContainer<Payload> = DIContainer::new();
    di_container.declare_interface("Dog", "Dog");
    di_container.declare_interface("Dog", "dyn IDog");

    let binding_builder = di_container.bind("Dog");
    let configurator = binding_builder
        .to(&mut di_container, "Dog", Vec::new())
        .unwrap();
    configurator.in_singleton_scope(&mut di_container).unwrap();

    let as_concrete = di_container.get("Dog", None).unwrap().singleton().unwrap();
    let slot_before = as_concrete.slot();

    let as_interface = CastRc::cast(as_concrete, di_container.caster_registry(), "dyn IDog")
        .unwrap();

    assert_eq!(as_interface.slot(), slot_before);
    assert_eq!(as_interface.interface(), "dyn IDog");

    // Mutating through the original handle is observable through the cast
    // handle: both designate the same slot.
    assert!(di_container.set_instance(&as_interface, Payload::Dog { barks: 9 }));
    match di_container.instance(&as_interface) {
        Some(Payload::Dog { barks }) => assert_eq!(*barks, 9),
        other => panic!("expected the shared dog instance, found {:?}", other),
    }
}

#[test]
fn singleton_builds_its_dependency_subgraph_eagerly() {
    let mut di_container: DIContainer<Payload> = DIContainer::new();
    di_container.declare_interface("Armor", "dyn IArmor");
    di_container.declare_interface("Knight", "dyn IKnight");

    let binding_builder = di_container.bind("dyn IArmor");
    binding_builder
        .to(&mut di_container, "Armor", Vec::new())
        .unwrap();

    let binding_builder = di_container.bind("dyn IKnight");
    let configurator = binding_builder
        .to(
            &mut di_container,
            "Knight",
            vec![InterfaceKey::unnamed("dyn IArmor")],
        )
        .unwrap();
    configurator.in_singleton_scope(&mut di_container).unwrap();

    // The armor and the knight were both constructed at bind time.
    assert_eq!(di_container.instance_count(), 2);

    let first = di_container
        .get("dyn IKnight", None)
        .unwrap()
        .singleton()
        .unwrap();
    let second = di_container
        .get("dyn IKnight", None)
        .unwrap()
        .singleton()
        .unwrap();

    assert_eq!(first.slot(), second.slot());
    assert_eq!(di_container.instance_count(), 2);

    // The knight holds the armor instance it was constructed with.
    match di_container.instance(&first) {
        Some(Payload::Knight { armor_slot }) => {
            assert_eq!(
                di_container.instance(&InstancePtr::new(*armor_slot, "dyn IArmor")),
                Some(&Payload::Armor)
            );
        }
        other => panic!("expected the knight instance, found {:?}", other),
    }
}

#[test]
fn self_referential_singleton_is_refused() {
    let mut di_container: DIContainer<Payload> = DIContainer::new();
    di_container.declare_interface("Armor", "dyn IArmor");

    let binding_builder = di_container.bind("dyn IArmor");
    let configurator = binding_builder
        .to(
            &mut di_container,
            "Armor",
            vec![InterfaceKey::unnamed("dyn IArmor")],
        )
        .unwrap();

    let error = configurator
        .in_singleton_scope(&mut di_container)
        .unwrap_err();

    let BindingScopeConfiguratorError::SingletonResolveFailed(inner) = error;
    match inner.root_cause() {
        DIContainerError::CycleDetected { dependency_history } => {
            assert_eq!(dependency_history.len(), 2);
            assert!(dependency_history.contains("dyn IArmor"));
        }
        other => panic!("expected a detected cycle, found {:?}", other),
    }
}

#[test]
fn handles_outside_the_store_read_and_write_nothing() {
    let mut di_container: DIContainer<Payload> = DIContainer::new();

    let stray = InstancePtr::new(3, "dyn IDog");

    assert_eq!(di_container.instance(&stray), None);
    assert!(!di_container.set_instance(&stray, Payload::Unknown));
    assert_eq!(di_container.instance_count(), 0);
}

#[test]
fn cast_rc_without_declaration_fails() {
    let di_container: DIContainer<Payload> = DIContainer::new();

    let mut other: DIContainer<Payload> = DIContainer::new();
    other.declare_interface("Dog", "Dog");
    let binding_builder = other.bind("Dog");
    let configurator = binding_builder.to(&mut other, "Dog", Vec::new()).unwrap();
    configurator.in_singleton_scope(&mut other).unwrap();
    let ptr = other.get("Dog", None).unwrap().singleton().unwrap();

    let error = CastRc::cast(ptr, di_container.caster_registry(), "dyn IDog").unwrap_err();
    match error {
        CastError::CastFailed { from, to } => {
            assert_eq!(from, "Dog");
            assert_eq!(to, "dyn IDog");
        }
        other => panic!("expected a failed cast, found {:?}", other),
    }
}
