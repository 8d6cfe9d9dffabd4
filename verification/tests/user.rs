use music_catalog::dropbox::Dropbox;
use music_catalog::user::User;

#[test]
fn location_is_the_tag_and_the_name_in_hex() {
    let user = User { name: "alice".into(), email: None, backends: None };
    assert_eq!(user.db_name(), "userdb-616c696365");
    assert_eq!(user.db_name(), user.db_name());
}

#[test]
fn location_ignores_all_but_the_name() {
    let bare = User { name: "alice".into(), email: None, backends: None };
    let full = User {
        name: "alice".into(),
        email: Some("alice@example.com".into()),
        backends: Some(Vec::new()),
    };
    assert_eq!(bare.db_name(), full.db_name());
}

#[test]
fn location_of_other_names() {
    let user = User { name: "".into(), email: None, backends: None };
    assert_eq!(user.db_name(), "userdb-");
    let user = User { name: "é:/".into(), email: None, backends: None };
    assert_eq!(user.db_name(), "userdb-c3a93a2f");
}

#[test]
fn dropbox_is_called_dropbox() {
    assert_eq!(Dropbox::new().name(), "dropbox");
}
