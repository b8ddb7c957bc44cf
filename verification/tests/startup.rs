use webbie::server::{announce, Startup, Step};

#[test]
fn ports_are_bound_in_order_and_then_served() {
    let mut startup = Startup::new(vec![8080, 8081]);
    assert_eq!(startup.step(), Step::Bind(8080));
    startup.report(true);
    assert_eq!(startup.step(), Step::Bind(8081));
    startup.report(true);
    assert_eq!(startup.step(), Step::Serve);
    assert_eq!(startup.ports(), &vec![8080, 8081]);
}

#[test]
fn one_port_is_no_special_case() {
    let mut startup = Startup::new(vec![3000]);
    assert_eq!(startup.step(), Step::Bind(3000));
    startup.report(true);
    assert_eq!(startup.step(), Step::Serve);
}

#[test]
fn a_failed_bind_aborts_the_start() {
    let mut startup = Startup::new(vec![8080, 80, 8081]);
    startup.report(true);
    assert_eq!(startup.step(), Step::Bind(80));
    startup.report(false);
    assert_eq!(startup.step(), Step::Abort(80));
    startup.report(true);
    assert_eq!(startup.step(), Step::Abort(80));
    startup.report(false);
    assert_eq!(startup.step(), Step::Abort(80));
}

#[test]
fn a_duplicate_port_is_bound_twice() {
    let mut startup = Startup::new(vec![8080, 8080]);
    assert_eq!(startup.step(), Step::Bind(8080));
    startup.report(true);
    assert_eq!(startup.step(), Step::Bind(8080));
    startup.report(false);
    assert_eq!(startup.step(), Step::Abort(8080));
}

#[test]
fn reports_after_the_end_change_nothing() {
    let mut startup = Startup::new(vec![1]);
    startup.report(true);
    startup.report(false);
    startup.report(true);
    assert_eq!(startup.step(), Step::Serve);
}

#[test]
fn no_ports_are_served_at_once() {
    let startup = Startup::new(Vec::new());
    assert_eq!(startup.step(), Step::Serve);
}

#[test]
fn the_announcement_lists_the_ports() {
    assert_eq!(announce(&vec![8080, 8081]), "Server started on ports: [8080, 8081]");
    assert_eq!(announce(&vec![80]), "Server started on ports: [80]");
    assert_eq!(announce(&Vec::new()), "Server started on ports: []");
    assert_eq!(
        announce(&vec![0, 9, 10, 65535, 1000]),
        "Server started on ports: [0, 9, 10, 65535, 1000]"
    );
}
