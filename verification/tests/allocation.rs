use shorturl::config::AppConfig;
use shorturl::errors::UrlError;
use shorturl::url_repository::URLRepository;

fn test_config() -> AppConfig {
    AppConfig {
        base_url: "localhost".to_string(),
        server_port: "8080".to_string(),
        protocol: "https".to_string(),
    }
}

fn seeded_repo(keys: &[&str]) -> URLRepository {
    let mut repo = URLRepository::new(test_config());
    for k in keys {
        assert!(repo.insert_generated_key(k.to_string()));
    }
    repo
}

#[test]
fn concrete_scenario_two_keys() {
    let mut repo = seeded_repo(&["k1_s1", "k2_s2"]);

    let dto = repo.create_url("http://a".to_string(), 1).unwrap();
    assert_eq!(dto.target_url, "http://a");
    assert!(dto.is_active);
    assert_eq!(dto.clicks, 0);
    assert_eq!(dto.url, "https://localhost:8080/k1");
    assert_eq!(dto.admin_url, "https://localhost:8080/admin/k1_s1");

    let row = repo
        .get_db_url_by_user_and_target_url(1, "http://a".to_string())
        .unwrap();
    assert_eq!(row.key, "k1");
    assert_eq!(row.secret_key, "k1_s1");

    // the same request again returns the identical mapping
    let again = repo.create_url("http://a".to_string(), 1).unwrap();
    assert_eq!(again.url, dto.url);
    assert_eq!(again.admin_url, dto.admin_url);
    assert_eq!(again.clicks, 0);

    let second = repo.create_url("http://b".to_string(), 2).unwrap();
    assert_eq!(second.url, "https://localhost:8080/k2");
    assert_eq!(second.admin_url, "https://localhost:8080/admin/k2_s2");

    let exhausted = repo.create_url("http://c".to_string(), 3);
    assert!(matches!(exhausted, Err(UrlError::PoolExhausted)));
}

#[test]
fn allocation_draws_smallest_key_first() {
    let mut repo = seeded_repo(&["zz_1", "aa_2", "mm_3"]);
    let first = repo.create_url("http://one".to_string(), 1).unwrap();
    assert_eq!(first.url, "https://localhost:8080/aa");
    let second = repo.create_url("http://two".to_string(), 1).unwrap();
    assert_eq!(second.url, "https://localhost:8080/mm");
    let third = repo.create_url("http://three".to_string(), 1).unwrap();
    assert_eq!(third.url, "https://localhost:8080/zz");
}

#[test]
fn allocated_keys_are_pairwise_distinct() {
    let mut repo = seeded_repo(&["aa_1", "bb_2", "cc_3", "dd_4"]);
    let mut keys: Vec<String> = Vec::new();
    let mut secrets: Vec<String> = Vec::new();
    for (i, target) in ["http://w", "http://x", "http://y", "http://z"].iter().enumerate() {
        repo.create_url(target.to_string(), i as i32).unwrap();
        let row = repo
            .get_db_url_by_user_and_target_url(i as i32, target.to_string())
            .unwrap();
        assert!(!keys.contains(&row.key));
        assert!(!secrets.contains(&row.secret_key));
        keys.push(row.key);
        secrets.push(row.secret_key);
    }
}

#[test]
fn pool_conservation_counts() {
    let mut repo = seeded_repo(&["aa_1", "bb_2", "cc_3"]);
    assert_eq!(repo.generated_keys.len(), 3);
    assert_eq!(repo.used_keys.len(), 0);

    repo.create_url("http://a".to_string(), 1).unwrap();
    repo.create_url("http://b".to_string(), 2).unwrap();

    assert_eq!(repo.generated_keys.len(), 1);
    assert_eq!(repo.used_keys.len(), 2);
    assert_eq!(repo.urls.len(), 2);
    assert_eq!(repo.used_keys[0].key_value, "aa");
    assert_eq!(repo.used_keys[0].user_id, 1);
    assert_eq!(repo.used_keys[1].key_value, "bb");
    assert_eq!(repo.used_keys[1].user_id, 2);
}

#[test]
fn exhaustion_leaves_store_untouched() {
    let mut repo = URLRepository::new(test_config());
    let r = repo.create_url("http://nothing".to_string(), 9);
    assert!(matches!(r, Err(UrlError::PoolExhausted)));
    assert_eq!(repo.urls.len(), 0);
    assert_eq!(repo.used_keys.len(), 0);
    assert_eq!(repo.generated_keys.len(), 0);
}

#[test]
fn distinct_pairs_drain_the_pool() {
    let mut repo = seeded_repo(&["aa_1", "bb_2"]);
    let one = repo.create_url("http://p".to_string(), 1);
    let two = repo.create_url("http://q".to_string(), 2);
    assert!(one.is_ok());
    assert!(two.is_ok());
    assert_eq!(repo.generated_keys.len(), 0);
    let k1 = repo
        .get_db_url_by_user_and_target_url(1, "http://p".to_string())
        .unwrap()
        .key;
    let k2 = repo
        .get_db_url_by_user_and_target_url(2, "http://q".to_string())
        .unwrap()
        .key;
    assert_ne!(k1, k2);
}

#[test]
fn create_url_returns_existing_if_present() {
    let mut repo = URLRepository::new(test_config());
    let seeded = shorturl::url_repository::get_response_url(
        "http://same".to_string(),
        "K1",
        &"SK1".to_string(),
        1,
    );
    repo.insert_url(seeded).unwrap();

    let res = repo.create_url("http://same".to_string(), 1).unwrap();
    assert_eq!(res.url, "https://localhost:8080/K1");
    assert_eq!(res.admin_url, "https://localhost:8080/admin/SK1");
}

#[test]
fn create_url_errors_when_no_generated_key() {
    let mut repo = URLRepository::new(test_config());
    let err = repo
        .create_url("http://no-key".to_string(), 1)
        .expect_err("expected error when no generated key");
    assert!(matches!(err, UrlError::PoolExhausted));
}

#[test]
fn url_repository_create_get_and_increment() {
    let mut repo = URLRepository::new(test_config());
    assert!(repo.insert_generated_key("key_ABC".to_string()));

    let created = repo.create_url("http://ex".to_string(), 1).unwrap();
    assert_eq!(created.target_url, "http://ex");

    let row = repo
        .get_db_url_by_user_and_target_url(1, "http://ex".to_string())
        .unwrap();
    let fetched = repo.get_db_url_by_key(row.key.clone()).unwrap();
    assert_eq!(fetched.key, row.key);

    repo.increment_clicks(row.key.clone()).unwrap();
    let fetched2 = repo.get_db_url_by_key(row.key.clone()).unwrap();
    assert_eq!(fetched2.clicks, 1);
}

#[test]
fn insert_generated_key_rejects_collisions() {
    let mut repo = seeded_repo(&["aa_1"]);
    // same value
    assert!(!repo.insert_generated_key("aa_1".to_string()));
    // same public part, different secret
    assert!(!repo.insert_generated_key("aa_2".to_string()));
    // no separator
    assert!(!repo.insert_generated_key("plainvalue".to_string()));
    // fresh two-segment key
    assert!(repo.insert_generated_key("bb_1".to_string()));

    // a consumed public key never re-enters the pool
    repo.create_url("http://t".to_string(), 1).unwrap();
    assert!(!repo.insert_generated_key("aa_9".to_string()));
}

#[test]
fn insert_url_rejects_duplicate_keys() {
    let mut repo = seeded_repo(&["pp_1"]);
    let row = shorturl::url_repository::get_response_url_local(
        "http://d".to_string(),
        "dd",
        &"dd_7".to_string(),
        4,
    );
    repo.insert_url(row).unwrap();

    let same_key = shorturl::url_repository::get_response_url_local(
        "http://d2".to_string(),
        "dd",
        &"other_7".to_string(),
        4,
    );
    assert!(matches!(repo.insert_url(same_key), Err(UrlError::DuplicateKey)));

    let same_secret = shorturl::url_repository::get_response_url_local(
        "http://d3".to_string(),
        "ee",
        &"dd_7".to_string(),
        4,
    );
    assert!(matches!(repo.insert_url(same_secret), Err(UrlError::DuplicateKey)));

    // colliding with a pool candidate's public part is refused too
    let pool_pub = shorturl::url_repository::get_response_url_local(
        "http://d4".to_string(),
        "pp",
        &"qq_9".to_string(),
        4,
    );
    assert!(matches!(repo.insert_url(pool_pub), Err(UrlError::DuplicateKey)));
}

#[test]
fn unknown_api_key_is_an_invalid_credential() {
    let mut repo = URLRepository::new(test_config());
    repo.insert_user(
        "dora".to_string(),
        "dora@example.com".to_string(),
        "real-key".to_string(),
    )
    .unwrap();
    assert_eq!(repo.get_user_by_apy_key("real-key".to_string()), Ok(1));
    let missing = repo.get_user_by_apy_key("fake-key".to_string());
    assert!(matches!(missing, Err(UrlError::InvalidCredential)));
}

#[test]
fn replenish_fills_pool_to_target() {
    let mut repo = URLRepository::new(test_config());
    repo.replenish(5);
    assert_eq!(repo.generated_keys.len(), 5);
    for g in &repo.generated_keys {
        assert_eq!(g.key_value.len(), 17);
        assert_eq!(g.key_value.chars().nth(8), Some('_'));
    }
    // already at target: nothing changes
    repo.replenish(3);
    assert_eq!(repo.generated_keys.len(), 5);
}
