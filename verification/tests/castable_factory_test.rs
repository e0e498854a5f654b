use syrette::castable_factory::ThreadsafeCastableFactory;

#[derive(Debug, PartialEq, Eq)]
struct Bacon {
    heal_amount: u32,
}

#[test]
fn can_call() {
    let castable_factory =
        ThreadsafeCastableFactory::new(|args: (u32,)| Box::new(Bacon { heal_amount: args.0 }));

    let output = castable_factory.call((27,));

    assert_eq!(output, Box::new(Bacon { heal_amount: 27 }));
}

#[test]
fn can_call_mut() {
    let mut castable_factory =
        ThreadsafeCastableFactory::new(|args: (u32,)| Box::new(Bacon { heal_amount: args.0 }));

    let output = castable_factory.call_mut((1092,));

    assert_eq!(output, Box::new(Bacon { heal_amount: 1092 }));
}

#[test]
fn can_call_once() {
    let castable_factory =
        ThreadsafeCastableFactory::new(|args: (u32,)| Box::new(Bacon { heal_amount: args.0 }));

    let output = castable_factory.call_once((547,));

    assert_eq!(output, Box::new(Bacon { heal_amount: 547 }));
}
