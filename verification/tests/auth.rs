use az::auth::{
    accept_new_password, accept_password, check_salt, derive_key, plan_authentication,
    salt_path, AuthError, Authenticator, PasswordSource, SaltSource, KEY_SIZE, SALT_SIZE,
};

#[test]
fn derive_is_deterministic() {
    let salt = [7u8; SALT_SIZE];
    let k1 = derive_key("hello", &salt).unwrap();
    let k2 = derive_key("hello", &salt).unwrap();
    assert_eq!(k1, k2);
}

#[test]
fn derive_differs_with_salt() {
    let k1 = derive_key("hello", &[1u8; SALT_SIZE]).unwrap();
    let k2 = derive_key("hello", &[2u8; SALT_SIZE]).unwrap();
    assert_ne!(k1, k2);
}

#[test]
fn derive_differs_with_password() {
    let salt = [3u8; SALT_SIZE];
    let k1 = derive_key("alpha", &salt).unwrap();
    let k2 = derive_key("beta", &salt).unwrap();
    assert_ne!(k1, k2);
}

#[test]
fn salt_path_appends_extension() {
    let p = salt_path("/tmp/foo.sqlite");
    assert_eq!(p, "/tmp/foo.sqlite.salt");
}

#[test]
fn derive_key_refuses_short_salt() {
    assert!(matches!(derive_key("hello", &[1u8; 7]), Err(AuthError::Argon2(_))));
    assert!(derive_key("hello", &[1u8; 8]).is_ok());
    assert!(derive_key("", &[1u8; SALT_SIZE]).is_ok());
}

#[test]
fn derive_key_is_not_the_password() {
    let k = derive_key("hello", &[9u8; SALT_SIZE]).unwrap();
    assert_eq!(k.len(), KEY_SIZE);
    assert_ne!(&k[..5], b"hello");
    assert_ne!(k, [0u8; KEY_SIZE]);
}

#[test]
fn authenticator_holds_derived_key() {
    let salt = [5u8; SALT_SIZE];
    let a = Authenticator::from_password("secret", &salt).unwrap();
    assert_eq!(*a.key(), derive_key("secret", &salt).unwrap());
    assert!(matches!(
        Authenticator::from_password("secret", &[1u8; 3]),
        Err(AuthError::Argon2(_))
    ));
}

#[test]
fn check_salt_accepts_exact_size() {
    let bytes: Vec<u8> = (0u8..16).collect();
    let s = check_salt(&bytes).unwrap();
    assert_eq!(s.to_vec(), bytes);
}

#[test]
fn check_salt_reports_corrupt_size() {
    match check_salt(&[1u8; 15]) {
        Err(AuthError::SaltCorrupt { expected, got }) => {
            assert_eq!(expected, 16);
            assert_eq!(got, 15);
        }
        other => panic!("unexpected {other:?}"),
    }
    assert!(matches!(
        check_salt(&[]),
        Err(AuthError::SaltCorrupt { expected: 16, got: 0 })
    ));
}

#[test]
fn plan_prefers_environment_password() {
    let p = plan_authentication(Some("pw".to_string()), true);
    assert_eq!(p.password, PasswordSource::Environment("pw".to_string()));
    assert_eq!(p.salt, SaltSource::Stored);
    let p = plan_authentication(Some("pw".to_string()), false);
    assert_eq!(p.password, PasswordSource::Environment("pw".to_string()));
    assert_eq!(p.salt, SaltSource::Fresh);
}

#[test]
fn plan_prompts_twice_for_new_database() {
    let p = plan_authentication(None, false);
    assert_eq!(p.password, PasswordSource::PromptTwice);
    assert_eq!(p.salt, SaltSource::Fresh);
    let p = plan_authentication(None, true);
    assert_eq!(p.password, PasswordSource::Prompt);
    assert_eq!(p.salt, SaltSource::Stored);
}

#[test]
fn prompted_passwords_are_checked() {
    assert!(matches!(accept_password(String::new()), Err(AuthError::EmptyPassword)));
    assert_eq!(accept_password("x".to_string()).unwrap(), "x");
    assert!(matches!(
        accept_new_password(String::new(), ""),
        Err(AuthError::EmptyPassword)
    ));
    assert!(matches!(
        accept_new_password("a".to_string(), "b"),
        Err(AuthError::PasswordMismatch)
    ));
    assert_eq!(accept_new_password("abc".to_string(), "abc").unwrap(), "abc");
}

#[test]
fn new_salt_has_salt_size() {
    let s = az::auth::new_salt();
    assert_eq!(s.len(), SALT_SIZE);
}
