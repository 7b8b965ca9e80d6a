use stereograph::listener::Listerner;

#[test]
fn new_listener_has_seen_no_change() {
    let listener = Listerner::new();
    assert!(!listener.changed());
}

#[test]
fn listener_ignores_unchanged_inputs() {
    let mut listener = Listerner::new();
    listener += false;
    listener += false;
    assert!(!listener.changed());
}

#[test]
fn listener_latches_on_first_change() {
    let mut listener = Listerner::new();
    listener += false;
    listener += true;
    assert!(listener.changed());
    listener += false;
    assert!(listener.changed());
}
