use room_authz::text::{server_name, str_eq};

#[test]
fn server_name_is_the_text_after_the_first_colon() {
    assert_eq!(server_name("@alice:example.org"), Some("example.org"));
    assert_eq!(server_name("#room:example.org:8448"), Some("example.org:8448"));
    assert_eq!(server_name("no-colon"), None);
    assert_eq!(server_name("@ümlaut:example.org"), Some("example.org"));
    assert_eq!(server_name("trailing:"), Some(""));
}

#[test]
fn str_eq_compares_text() {
    assert!(str_eq("m.room.create", "m.room.create"));
    assert!(!str_eq("m.room.create", "m.room.creat"));
    assert!(!str_eq("a", "b"));
    assert!(str_eq("", ""));
}
