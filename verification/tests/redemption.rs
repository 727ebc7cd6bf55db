use shorturl::config::AppConfig;
use shorturl::dtos::URLBaseDto;
use shorturl::errors::UrlError;
use shorturl::url_repository::{get_response_url, URLRepository};
use shorturl::url_service::URLService;

fn test_config() -> AppConfig {
    AppConfig {
        base_url: "localhost".to_string(),
        server_port: "8080".to_string(),
        protocol: "https".to_string(),
    }
}

fn service_with_one_url() -> URLService {
    let mut repo = URLRepository::new(test_config());
    repo.insert_user(
        "ada".to_string(),
        "ada@example.com".to_string(),
        "key-of-ada".to_string(),
    )
    .unwrap();
    assert!(repo.insert_generated_key("go_abc".to_string()));
    let mut service = URLService::new(repo);
    let dto = service
        .create_url(URLBaseDto {
            target_url: "http://target".to_string(),
            api_key: "key-of-ada".to_string(),
        })
        .unwrap();
    assert_eq!(dto.url, "https://localhost:8080/go");
    service
}

#[test]
fn one_redemption_counts_one_click() {
    let mut service = service_with_one_url();
    let target = service.forward_to_target_url("go".to_string()).unwrap();
    assert_eq!(target, "http://target");
    let row = service
        .url_repository
        .get_db_url_by_key("go".to_string())
        .unwrap();
    assert_eq!(row.clicks, 1);
}

#[test]
fn five_redemptions_count_five_clicks() {
    let mut service = service_with_one_url();
    for _ in 0..5 {
        service.forward_to_target_url("go".to_string()).unwrap();
    }
    let row = service
        .url_repository
        .get_db_url_by_key("go".to_string())
        .unwrap();
    assert_eq!(row.clicks, 5);
}

#[test]
fn inactive_and_unknown_keys_fail_identically() {
    let mut repo = URLRepository::new(test_config());
    let mut inactive = get_response_url("http://off".to_string(), "off", &"off_x".to_string(), 1);
    inactive.is_active = false;
    repo.insert_url(inactive).unwrap();
    let mut service = URLService::new(repo);

    let on_inactive = service.forward_to_target_url("off".to_string());
    let on_unknown = service.forward_to_target_url("nope".to_string());
    assert!(matches!(on_inactive, Err(UrlError::NotFound)));
    assert!(matches!(on_unknown, Err(UrlError::NotFound)));
    // the error shape does not reveal whether the key ever existed
    assert_eq!(on_inactive.unwrap_err(), on_unknown.unwrap_err());

    // the failed redemptions did not touch the click counter
    let row = service
        .url_repository
        .get_db_url_by_secret_key("off_x".to_string())
        .unwrap();
    assert_eq!(row.clicks, 0);
}

#[test]
fn invalid_api_key_is_rejected() {
    let mut service = service_with_one_url();
    let err = service
        .create_url(URLBaseDto {
            target_url: "http://any".to_string(),
            api_key: "wrong".to_string(),
        })
        .unwrap_err();
    assert_eq!(err.code, 400);
    assert_eq!(err.message, "No valid API_KEY");
}

#[test]
fn allocation_through_service_is_idempotent() {
    let mut service = service_with_one_url();
    let again = service
        .create_url(URLBaseDto {
            target_url: "http://target".to_string(),
            api_key: "key-of-ada".to_string(),
        })
        .unwrap();
    assert_eq!(again.url, "https://localhost:8080/go");
    assert_eq!(again.admin_url, "https://localhost:8080/admin/go_abc");
    // no second key was consumed
    assert_eq!(service.url_repository.used_keys.len(), 1);
}

#[test]
fn exhausted_pool_surfaces_as_server_error() {
    let mut service = service_with_one_url();
    let err = service
        .create_url(URLBaseDto {
            target_url: "http://another".to_string(),
            api_key: "key-of-ada".to_string(),
        })
        .unwrap_err();
    assert_eq!(err.code, 500);
    assert_eq!(err.message, "Error creating URL");
}

#[test]
fn admin_info_works_on_inactive_rows() {
    let mut repo = URLRepository::new(test_config());
    let mut inactive = get_response_url("http://off".to_string(), "off", &"off_x".to_string(), 1);
    inactive.is_active = false;
    repo.insert_url(inactive).unwrap();
    let service = URLService::new(repo);

    let dto = service.get_url_info("off_x".to_string()).unwrap();
    assert_eq!(dto.target_url, "http://off");
    assert!(!dto.is_active);
    assert_eq!(dto.admin_url, "https://localhost:8080/admin/off_x");

    let missing = service.get_url_info("zzz".to_string());
    assert!(matches!(missing, Err(UrlError::NotFound)));
}

#[test]
fn admin_delete_removes_the_row() {
    let mut service = service_with_one_url();
    let dto = service.delete_url("go_abc".to_string()).unwrap();
    assert_eq!(dto.target_url, "http://target");
    assert_eq!(service.url_repository.urls.len(), 0);

    let again = service.delete_url("go_abc".to_string());
    assert!(matches!(again, Err(UrlError::NotFound)));
}

#[test]
fn increment_clicks_unknown_key_is_not_found() {
    let mut repo = URLRepository::new(test_config());
    let r = repo.increment_clicks("ghost".to_string());
    assert!(matches!(r, Err(UrlError::NotFound)));
}
