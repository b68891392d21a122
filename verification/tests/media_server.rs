use autofilm::media::{ImageKind, User};
use autofilm::media_server::{
    create_media_server_clients, first_user_id, ClientRegistry, image_path, image_query, items_path, items_query,
    libraries_path, upload_path, users_path, Config, Kind, MediaServerClient, MediaServerError,
};

fn config(base_url: &str) -> Config {
    Config {
        id: "server".to_string(),
        kind: Kind::Jellyfin,
        base_url: base_url.to_string(),
        api_key: "secret".to_string(),
        user_id: Some("user".to_string()),
        timeout: 30,
    }
}

#[test]
fn normalizes_base_url() {
    let client = MediaServerClient::new(config("http://localhost:8096/")).unwrap();

    assert_eq!(client.base_url().as_str(), "http://localhost:8096/");
    assert_eq!(client.id(), "server");
}

#[test]
fn uses_configured_user_id_without_request() {
    let client = MediaServerClient::new(config("http://localhost:8096")).unwrap();

    assert_eq!(client.configured_user_id().unwrap(), "user");
}

#[test]
fn blank_user_id_is_not_used() {
    let mut blank = config("http://localhost:8096");
    blank.user_id = Some("  ".to_string());
    let client = MediaServerClient::new(blank).unwrap();
    assert!(client.configured_user_id().is_none());
}

#[test]
fn invalid_base_url_is_refused() {
    let result = MediaServerClient::new(config("not a url"));
    assert!(matches!(result, Err(MediaServerError::InvalidUrl(_))));
}

#[test]
fn first_listed_user_is_chosen() {
    let users = vec![User { id: "a".to_string() }, User { id: "b".to_string() }];
    assert_eq!(first_user_id(users).unwrap(), "a");
    assert!(matches!(first_user_id(Vec::new()), Err(MediaServerError::MissingUser)));
}

#[test]
fn creates_unique_media_server_clients() {
    let configs = vec![
        Config {
            id: "server".to_string(),
            kind: Kind::Jellyfin,
            base_url: "http://localhost:8096".to_string(),
            api_key: "secret".to_string(),
            user_id: None,
            timeout: 30,
        },
        Config {
            id: "server".to_string(),
            kind: Kind::Emby,
            base_url: "http://localhost:8097".to_string(),
            api_key: "secret".to_string(),
            user_id: None,
            timeout: 30,
        },
    ];

    let clients = create_media_server_clients(&configs);

    assert_eq!(clients.len(), 1);
    assert_eq!(clients.get("server").unwrap().kind(), Kind::Jellyfin);
}

#[test]
fn failed_client_leaves_room_for_a_later_one_with_the_same_id() {
    let mut broken = config("::broken::");
    broken.kind = Kind::Emby;
    let working = config("http://localhost:8096");
    let clients = create_media_server_clients(&[broken, working]);
    assert_eq!(clients.len(), 1);
    assert_eq!(clients.get("server").unwrap().kind(), Kind::Jellyfin);
    assert!(clients.get("other").is_none());
}

#[test]
fn request_paths_and_queries() {
    assert_eq!(items_path("user"), "Users/user/Items");
    let query = items_query("library", "DateCreated", None, 50);
    assert_eq!(query[0], ("ParentId".to_string(), "library".to_string()));
    assert_eq!(query[2], ("SortBy".to_string(), "DateCreated".to_string()));
    assert_eq!(query[5], ("Limit".to_string(), "50".to_string()));
    assert_eq!(query.len(), 7);
    let seeded = items_query("library", "Random", Some(42), 50);
    assert_eq!(seeded[7], ("RandomSeed".to_string(), "42".to_string()));
    assert_eq!(image_path("movie", ImageKind::Primary), "Items/movie/Images/Primary");
    assert_eq!(image_path("show", ImageKind::Backdrop), "Items/show/Images/Backdrop/0");
    assert_eq!(
        image_query(&Some("tag".to_string())),
        vec![("tag".to_string(), "tag".to_string())]
    );
    assert!(image_query(&None).is_empty());
    assert_eq!(upload_path("library"), "Items/library/Images/Primary");
}

#[test]
fn registry_adds_created_clients_once_per_id() {
    let mut registry = ClientRegistry::new();
    assert!(!registry.add(Err(MediaServerError::MissingUser)));
    assert_eq!(registry.len(), 0);
    assert!(registry.add(MediaServerClient::new(config("http://localhost:8096"))));
    let mut emby = config("http://localhost:8097");
    emby.kind = Kind::Emby;
    assert!(!registry.add(MediaServerClient::new(emby)));
    assert_eq!(registry.len(), 1);
    assert_eq!(registry.get("server").unwrap().kind(), Kind::Jellyfin);
}

#[test]
fn client_keeps_parsed_base_url_with_one_slash() {
    let client = MediaServerClient::new(config("http://localhost:8096///")).unwrap();
    assert_eq!(client.base_url().as_str(), "http://localhost:8096/");
    assert_eq!(
        client.base_url().join("Users").unwrap().as_str(),
        "http://localhost:8096/Users"
    );
}

#[test]
fn listing_paths() {
    assert_eq!(users_path(), "Users");
    assert_eq!(libraries_path(), "Library/MediaFolders");
}
