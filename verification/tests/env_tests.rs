use minilisp::env::Environment;

#[test]
fn lookup_finds_most_recent_binding() {
    let mut env = Environment::new();
    assert_eq!(env.lookup("x"), None);
    env.bind("x".to_string(), -8);
    env.bind("y".to_string(), -16);
    assert_eq!(env.lookup("x"), Some(-8));
    env.bind("x".to_string(), -24);
    assert_eq!(env.lookup("x"), Some(-24));
    assert_eq!(env.lookup("y"), Some(-16));
    assert_eq!(env.lookup("z"), None);
}
