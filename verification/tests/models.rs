use notes_store::error::Error;
use notes_store::models::{find_field, hash_password, User};

fn pair(name: &str, value: &str) -> (String, String) {
    (name.to_string(), value.to_string())
}

#[test]
fn assign_keeps_the_three_fields() {
    let user = User::assign("Ada".to_string(), "ada@x.com".to_string(), "h".to_string());
    assert_eq!(user.get_forename(), "Ada");
    assert_eq!(user.get_email(), "ada@x.com");
    assert_eq!(user.get_password(), "h");
}

#[test]
fn to_record_lists_forename_email_password() {
    let user = User::assign("Ada".to_string(), "ada@x.com".to_string(), "h".to_string());
    assert_eq!(
        user.to_record(),
        vec![
            pair("forename", "Ada"),
            pair("email", "ada@x.com"),
            pair("password", "h")
        ]
    );
}

#[test]
fn from_record_reads_back_to_record() {
    let user = User::assign("Ada".to_string(), "ada@x.com".to_string(), "h".to_string());
    assert_eq!(User::from_record(&user.to_record()), Ok(user));
}

#[test]
fn from_record_ignores_order_and_other_fields() {
    let fields = vec![
        pair("password", "p"),
        pair("age", "36"),
        pair("email", "e"),
        pair("forename", "f"),
    ];
    let user = User::from_record(&fields).unwrap();
    assert_eq!(user.get_forename(), "f");
    assert_eq!(user.get_email(), "e");
    assert_eq!(user.get_password(), "p");
}

#[test]
fn from_record_fails_on_each_missing_field() {
    let whole = vec![
        pair("forename", "f"),
        pair("email", "e"),
        pair("password", "p"),
    ];
    for skip in 0..3 {
        let mut fields = whole.clone();
        fields.remove(skip);
        assert_eq!(User::from_record(&fields), Err(Error::MissingField));
    }
    assert_eq!(User::from_record(&Vec::new()), Err(Error::MissingField));
}

#[test]
fn from_record_takes_an_empty_value_as_present() {
    let fields = vec![pair("forename", ""), pair("email", ""), pair("password", "")];
    let user = User::from_record(&fields).unwrap();
    assert_eq!(user.get_forename(), "");
}

#[test]
fn find_field_takes_the_later_value() {
    let fields = vec![pair("a", "1"), pair("b", "2"), pair("a", "3")];
    assert_eq!(find_field(&fields, "a"), Some("3".to_string()));
    assert_eq!(find_field(&fields, "b"), Some("2".to_string()));
    assert_eq!(find_field(&fields, "c"), None);
}

#[test]
fn verify_password_accepts_the_hashed_password_only() {
    let hash = bcrypt::hash("secret", 4).unwrap();
    let user = User::assign("Ada".to_string(), "ada@x.com".to_string(), hash);
    assert!(user.verify_password("secret"));
    assert!(!user.verify_password("wrong"));
    assert!(!user.verify_password(""));
}

#[test]
fn verify_password_accepts_a_known_hash() {
    let hash = "$2a$04$UuTkLRZZ6QofpDOlMz32MuuxEHA43WOemOYHPz6.SjsVsyO1tDU96";
    let user = User::assign("a".to_string(), "b".to_string(), hash.to_string());
    assert!(user.verify_password("password"));
    assert!(!user.verify_password("Password"));
}

#[test]
fn verify_password_is_false_for_a_malformed_hash() {
    let user = User::assign("Ada".to_string(), "ada@x.com".to_string(), "secret".to_string());
    assert!(!user.verify_password("secret"));
    let empty = User::assign("Ada".to_string(), "ada@x.com".to_string(), String::new());
    assert!(!empty.verify_password(""));
}

#[test]
fn hash_password_gives_a_hash_that_the_password_matches() {
    let hash = hash_password("secret").unwrap();
    assert_eq!(hash.chars().count(), 60);
    assert_ne!(hash, "secret");
    assert!(hash.starts_with("$2b$12$"));
    let user = User::assign("Ada".to_string(), "ada@x.com".to_string(), hash);
    assert!(user.verify_password("secret"));
}

#[test]
fn error_messages() {
    assert_eq!(Error::InvalidCredentials.message(), "Invalid Credentials");
    assert_eq!(Error::NotFound.message(), "Not Found");
    assert_eq!(Error::MissingField.message(), "Missing Field");
    assert_eq!(Error::Connection.message(), "Connection Failed");
    assert_eq!(Error::Store.message(), "Store Error");
    assert_eq!(Error::Hashing.message(), "Hashing Failed");
}
