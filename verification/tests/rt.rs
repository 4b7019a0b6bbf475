use vanadinite::rt::{parent_entry, startup_step, Startup};

#[test]
fn a_name_is_registered() {
    assert_eq!(startup_step(b"stdio"), Startup::Register("stdio".to_string()));
    assert_eq!(startup_step("caf\u{e9}".as_bytes()), Startup::Register("caf\u{e9}".to_string()));
    assert_eq!(startup_step(b""), Startup::Register(String::new()));
}

#[test]
fn done_ends_the_messages() {
    assert_eq!(startup_step(b"done"), Startup::Done);
    assert_eq!(startup_step(b"done "), Startup::Register("done ".to_string()));
    assert_eq!(startup_step(b"don"), Startup::Register("don".to_string()));
}

#[test]
fn bytes_that_are_no_text_end_the_messages() {
    assert_eq!(startup_step(&[0xff, 0xfe]), Startup::Done);
    assert_eq!(startup_step(&[b'a', 0xc3]), Startup::Done);
}

#[test]
fn the_parent_is_capability_zero() {
    let (name, cptr) = parent_entry();
    assert_eq!(name, "parent");
    assert_eq!(cptr.value(), 0);
}
