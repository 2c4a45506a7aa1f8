use ytpodcast::api::{AuthUser, MaybeAuthUser, YTPError};
use ytpodcast::config::Configuration;
use ytpodcast::error::Error;
use ytpodcast::role::Role;
use ytpodcast::rss::RSS;
use ytpodcast::youtube::{Video, YouTube};
use ytpodcast::ytinfo::{get_image, get_metadata, YTInfo};

#[test]
fn configuration_round_trip() {
    let config = Configuration::from_values(
        true,
        "debug".to_string(),
        "sqlite:ytpodcast.db".to_string(),
        8080,
        3600,
        "https://podcast.example".to_string(),
        10,
        "cookies.txt".to_string(),
        "a long signing secret".to_string(),
        "60m".to_string(),
        60,
    );
    assert!(config.get_dev());
    assert_eq!(config.get_log_level(), "debug");
    assert_eq!(config.get_db_url(), "sqlite:ytpodcast.db");
    assert_eq!(config.get_port(), 8080);
    assert_eq!(config.get_sleep_time(), 3600);
    assert_eq!(config.get_url(), "https://podcast.example");
    assert_eq!(config.get_page(), 10);
    assert_eq!(config.get_cookies(), "cookies.txt");
    assert_eq!(config.get_secret(), "a long signing secret");
    assert_eq!(config.get_expires(), "60m");
    assert_eq!(*config.get_maxage(), 60);
}

#[test]
fn error_codes_and_messages() {
    let response = YTPError::ReadError.get();
    assert_eq!(response.code(), 500);
    assert_eq!(response.message(), "Internal error");
    let response = YTPError::NotFound.get();
    assert_eq!(response.code(), 404);
    assert_eq!(response.message(), "Not found");
    let response = YTPError::Unauthorized.get();
    assert_eq!(response.code(), 401);
    assert_eq!(response.message(), "Unauthorized");
    let response = YTPError::Sqlx("no such table".to_string()).get();
    assert_eq!(response.code(), 500);
    assert_eq!(response.message(), "no such table");
}

#[test]
fn worker_error_defaults_to_internal() {
    let error = Error::default("something broke");
    assert_eq!(error.details(), "something broke");
    assert_eq!(error.status_code(), 500);
    let error = Error::new_with_status_code("missing", 404);
    assert_eq!(error.details(), "missing");
    assert_eq!(error.status_code(), 404);
}

#[test]
fn maybe_auth_user_id() {
    let user = MaybeAuthUser(Some(AuthUser { id: 42 }));
    assert_eq!(user.user_id(), Some(42));
    let nobody = MaybeAuthUser(None);
    assert_eq!(nobody.user_id(), None);
}

#[test]
fn roles_in_declaration_order() {
    assert_eq!(Role::get_roles(), vec!["User".to_string(), "Admin".to_string()]);
    assert_eq!(Role::User.name(), "User");
    assert_eq!(Role::Admin.name(), "Admin");
}

#[test]
fn rss_metadata_round_trip() {
    let feed = RSS::new("My podcast", "All the episodes", "https://podcast.example");
    assert_eq!(feed.title(), "My podcast");
    assert_eq!(feed.description(), "All the episodes");
    assert_eq!(feed.url(), "https://podcast.example");
}

#[test]
fn youtube_client_values() {
    let client = YouTube::new("an-api-key");
    assert_eq!(client.key(), "an-api-key");
    let _video = Video::new(
        "a title",
        "a description",
        "vid01",
        "https://www.youtube.com/watch?v=vid01",
        "2022-10-19T20:20:03Z",
        "https://img.example/vid01.jpg",
        "a channel",
    );
}

#[test]
fn ytinfo_default_is_empty() {
    let info = YTInfo::default();
    assert_eq!(info.title, "");
    assert_eq!(info.description, "");
    assert_eq!(info.image, "");
}

#[test]
fn metadata_is_extracted_from_the_page() {
    let html = "<html><head>\
        <meta property=\"og:title\" content=\"A channel\" />\
        <meta property=\"og:description\" content=\"What it is about\" />\
        <meta property=\"og:image\" content=\"https://img.example/c.jpg?size=big\" />\
        </head></html>";
    assert_eq!(get_metadata(html, "og:title"), "A channel");
    assert_eq!(get_metadata(html, "og:description"), "What it is about");
    assert_eq!(get_metadata(html, "og:nothing"), "");
    // The image URL is cut at its query string.
    assert_eq!(get_image(html), "https://img.example/c.jpg");
    let info = YTInfo::from_html(html);
    assert_eq!(info.title, "A channel");
    assert_eq!(info.description, "What it is about");
    assert_eq!(info.image, "https://img.example/c.jpg");
}

#[test]
fn missing_tags_scrape_as_empty() {
    let info = YTInfo::from_html("<html></html>");
    assert_eq!(info.title, "");
    assert_eq!(info.description, "");
    assert_eq!(info.image, "");
}
