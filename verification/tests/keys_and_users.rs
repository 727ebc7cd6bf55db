use shorturl::config::AppConfig;
use shorturl::dtos::CustomError;
use shorturl::errors::UrlError;
use shorturl::keygen::{
    create_api_key, create_random_key, create_unique_random_key, generate_candidate_key,
};
use shorturl::mappers::map_url_to_dto;
use shorturl::schema::URL;
use shorturl::text::{find_underscore, split_public_key, str_lt, u64_to_dec_string};
use shorturl::user::UserDtoCreate;
use shorturl::user_repository::UserRepository;
use shorturl::user_service::UserService;

fn alphanumeric(s: &str) -> bool {
    s.chars().all(|c| c.is_ascii_alphanumeric())
}

#[test]
fn random_keys_have_requested_shape() {
    let k = create_random_key(12);
    assert_eq!(k.len(), 12);
    assert!(alphanumeric(&k));

    let api = create_api_key();
    assert_eq!(api.len(), 32);
    assert!(alphanumeric(&api));

    let num = create_unique_random_key();
    assert!(!num.is_empty());
    assert!(num.chars().all(|c| c.is_ascii_digit()));
}

#[test]
fn candidate_keys_are_two_segments() {
    let k = generate_candidate_key(8);
    assert_eq!(k.len(), 17);
    assert_eq!(k.chars().nth(8), Some('_'));
    assert!(alphanumeric(&k[..8]));
    assert!(alphanumeric(&k[9..]));
}

#[test]
fn splitting_takes_the_left_segment() {
    assert_eq!(split_public_key(&"k1_s1".to_string()), "k1");
    assert_eq!(split_public_key(&"key_ABC".to_string()), "key");
    // the first separator wins
    assert_eq!(split_public_key(&"a_b_c".to_string()), "a");
    // a value without a separator is its own public part
    assert_eq!(split_public_key(&"plain".to_string()), "plain");
    assert_eq!(find_underscore("plain"), 5);
    assert_eq!(find_underscore("_x"), 0);
}

#[test]
fn string_order_is_lexicographic() {
    assert!(str_lt(&"aa".to_string(), &"ab".to_string()));
    assert!(str_lt(&"a".to_string(), &"aa".to_string()));
    assert!(!str_lt(&"b".to_string(), &"ab".to_string()));
    assert!(!str_lt(&"same".to_string(), &"same".to_string()));
    // upper-case letters precede lower-case ones by code point
    assert!(str_lt(&"Z".to_string(), &"a".to_string()));
}

#[test]
fn decimal_rendering_is_exact() {
    assert_eq!(u64_to_dec_string(0), "0");
    assert_eq!(u64_to_dec_string(7), "7");
    assert_eq!(u64_to_dec_string(12345), "12345");
    assert_eq!(u64_to_dec_string(u64::MAX), "18446744073709551615");
}

#[test]
fn mapping_renders_full_links() {
    let config = AppConfig {
        base_url: "short.example".to_string(),
        server_port: "443".to_string(),
        protocol: "https".to_string(),
    };
    let url = URL {
        key: "abc".to_string(),
        secret_key: "abc_def".to_string(),
        target_url: "http://t".to_string(),
        is_active: true,
        clicks: 3,
        user_id: 7,
    };
    let dto = map_url_to_dto(&url, config);
    assert_eq!(dto.target_url, "http://t");
    assert_eq!(dto.clicks, 3);
    assert!(dto.is_active);
    assert_eq!(dto.url, "https://short.example:443/abc");
    assert_eq!(dto.admin_url, "https://short.example:443/admin/abc_def");
}

#[test]
fn custom_error_holds_code_and_message() {
    let e = CustomError::new(400, "No valid API_KEY");
    assert_eq!(e.code, 400);
    assert_eq!(e.message, "No valid API_KEY");
}

#[test]
fn create_get_and_delete_user_integration() {
    let mut repo = UserRepository::new();
    let dto = UserDtoCreate {
        username: "bob".to_string(),
        email: "bob@example.com".to_string(),
    };
    let resp = repo
        .create_user(dto.clone(), "apikey-integ".to_string())
        .unwrap();
    assert_eq!(resp.user.username, dto.username);

    let users = repo.get_users().unwrap();
    assert!(users.iter().any(|u| u.username == dto.username));

    let id = users
        .into_iter()
        .find(|u| u.username == dto.username)
        .unwrap()
        .id as i32;
    repo.delete_user(id).unwrap();
    let users_after = repo.get_users().unwrap();
    assert!(users_after.iter().all(|u| u.id != id as i64));
}

#[test]
fn duplicate_credentials_are_rejected() {
    let mut repo = UserRepository::new();
    repo.create_user(
        UserDtoCreate {
            username: "one".to_string(),
            email: "same@example.com".to_string(),
        },
        "key-1".to_string(),
    )
    .unwrap();

    let same_email = repo.create_user(
        UserDtoCreate {
            username: "two".to_string(),
            email: "same@example.com".to_string(),
        },
        "key-2".to_string(),
    );
    assert!(matches!(same_email, Err(UrlError::DuplicateKey)));

    let same_key = repo.create_user(
        UserDtoCreate {
            username: "three".to_string(),
            email: "other@example.com".to_string(),
        },
        "key-1".to_string(),
    );
    assert!(matches!(same_key, Err(UrlError::DuplicateKey)));
}

#[test]
fn user_service_mints_api_keys() {
    let mut service = UserService::new(UserRepository::new());
    let resp = service
        .create_user(UserDtoCreate {
            username: "carol".to_string(),
            email: "carol@example.com".to_string(),
        })
        .unwrap();
    assert_eq!(resp.user.email, "carol@example.com");
    assert_eq!(resp.api_key.len(), 32);
    assert!(alphanumeric(&resp.api_key));

    let users = service.get_users().unwrap();
    assert_eq!(users.len(), 1);
    assert_eq!(users[0].id, 1);

    service.delete_user(1).unwrap();
    assert_eq!(service.get_users().unwrap().len(), 0);
}
