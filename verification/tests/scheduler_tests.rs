use arcade_core::scheduler::{ConfigError, Dispatcher};

#[test]
fn registration_order_is_the_execution_order() {
    let mut d = Dispatcher::new();
    assert_eq!(d.register(10, String::from("alpha"), Vec::new()), Ok(()));
    assert_eq!(d.register(20, String::from("beta"), vec![String::from("alpha")]), Ok(()));
    assert_eq!(
        d.register(30, String::from("gamma"), vec![String::from("alpha"), String::from("beta")]),
        Ok(())
    );
    assert_eq!(d.len(), 3);
    assert_eq!(d.tag_at(0), 10);
    assert_eq!(d.tag_at(1), 20);
    assert_eq!(d.tag_at(2), 30);
}

#[test]
fn rebuilding_gives_the_same_order() {
    // determinism: equal registration sequences dispatch equal tag sequences
    let mut first: Vec<u32> = Vec::new();
    let mut second: Vec<u32> = Vec::new();
    for out in [&mut first, &mut second] {
        let mut d = Dispatcher::new();
        let _ = d.register(4, String::from("move"), Vec::new());
        let _ = d.register(2, String::from("collide"), vec![String::from("move")]);
        let _ = d.register(9, String::from("score"), vec![String::from("collide")]);
        for k in 0..d.len() {
            out.push(d.tag_at(k));
        }
    }
    assert_eq!(first, second);
    assert_eq!(first, vec![4, 2, 9]);
}

#[test]
fn duplicate_name_is_a_fatal_configuration_error() {
    let mut d = Dispatcher::new();
    assert_eq!(d.register(0, String::from("physics"), Vec::new()), Ok(()));
    assert_eq!(
        d.register(1, String::from("physics"), Vec::new()),
        Err(ConfigError::DuplicateSystem)
    );
    // the failed registration left the scheduler unchanged
    assert_eq!(d.len(), 1);
}

#[test]
fn unknown_dependency_is_a_fatal_configuration_error() {
    let mut d = Dispatcher::new();
    assert_eq!(d.register(0, String::from("physics"), Vec::new()), Ok(()));
    assert_eq!(
        d.register(1, String::from("collide"), vec![String::from("missing")]),
        Err(ConfigError::UnknownDependency)
    );
    assert_eq!(d.len(), 1);
}
