use jeek::config::Config;
use jeek::menu::{AppState, MenuItem, MENU_LEN};
use jeek::weather::{
    error_card, failed_board, failure_message, weather_locations, FetchFailure, WeatherCard,
    LOCATION_COUNT,
};

#[test]
fn menu_lists_three_entries_in_order() {
    assert_eq!(MenuItem::all(), [MenuItem::Todo, MenuItem::Bill, MenuItem::Cyber]);
    assert_eq!(MenuItem::all().len(), MENU_LEN);
}

#[test]
fn menu_titles() {
    assert_eq!(MenuItem::Todo.title(), "TODO");
    assert_eq!(MenuItem::Bill.title(), "BILL");
    assert_eq!(MenuItem::Cyber.title(), "CYBER RESOURCE");
}

#[test]
fn menu_entries_lead_to_their_views() {
    assert_eq!(MenuItem::Todo.view_state(), AppState::TodoView);
    assert_eq!(MenuItem::Bill.view_state(), AppState::BillView);
    assert_eq!(MenuItem::Cyber.view_state(), AppState::CyberView);
}

#[test]
fn config_defaults() {
    let cfg = Config::default();
    assert_eq!(cfg.todo_file_path, "md/TODO.md");
    assert_eq!(cfg.cyber_resource_file_path, "md/CyberResource.md");
    assert_eq!(cfg.bill_dir_path, "tmp");
    assert_eq!(cfg.weather_api_key, "");
    assert!(!cfg.has_weather_key());
}

#[test]
fn config_weather_key_must_be_more_than_white_space() {
    let mut cfg = Config::default();
    cfg.weather_api_key = "  \t".to_string();
    assert!(!cfg.has_weather_key());
    cfg.weather_api_key = " abc ".to_string();
    assert!(cfg.has_weather_key());
}

#[test]
fn config_source_paths() {
    let cfg = Config::default();
    assert_eq!(cfg.source_path(MenuItem::Todo), "md/TODO.md");
    assert_eq!(cfg.source_path(MenuItem::Cyber), "md/CyberResource.md");
    assert_eq!(cfg.source_path(MenuItem::Bill), "tmp");
}

#[test]
fn weather_places() {
    let places = weather_locations();
    assert_eq!(places.len(), LOCATION_COUNT);
    assert_eq!(places[0].query, "beijing");
    assert_eq!(places[0].label, "北京");
    assert_eq!(places[1].query, "shijiazhuang");
    assert_eq!(places[1].label, "石家庄");
}

#[test]
fn weather_failure_messages() {
    assert_eq!(failure_message(FetchFailure::MissingKey), "set weather_api_key in config.toml");
    assert_eq!(failure_message(FetchFailure::Network), "the request failed");
    assert_eq!(failure_message(FetchFailure::Body), "cannot read the answer");
    assert_eq!(failure_message(FetchFailure::Parse), "cannot parse the weather data");
    assert_eq!(failure_message(FetchFailure::NoForecast), "no forecast in the answer");
    assert_eq!(failure_message(FetchFailure::Status(400)), "bad request");
    assert_eq!(
        failure_message(FetchFailure::Status(401)),
        "the API key is invalid or has expired"
    );
    assert_eq!(
        failure_message(FetchFailure::Status(403)),
        "access denied, check what the key permits"
    );
    assert_eq!(failure_message(FetchFailure::Status(404)), "place not found");
    assert_eq!(failure_message(FetchFailure::Status(429)), "too many requests");
    assert_eq!(failure_message(FetchFailure::Status(500)), "the weather server failed");
    assert_eq!(failure_message(FetchFailure::Status(599)), "the weather server failed");
    assert_eq!(failure_message(FetchFailure::Status(600)), "weather API error (HTTP 600)");
    assert_eq!(failure_message(FetchFailure::Status(418)), "weather API error (HTTP 418)");
    assert_eq!(failure_message(FetchFailure::Status(0)), "weather API error (HTTP 0)");
}

#[test]
fn weather_cards_for_failures() {
    let places = weather_locations();
    assert_eq!(
        error_card(&places[1], FetchFailure::Network),
        WeatherCard::Error { label: "石家庄".to_string(), message: "the request failed".to_string() }
    );
    let board = failed_board(FetchFailure::MissingKey);
    assert_eq!(
        board,
        vec![
            WeatherCard::Error {
                label: "北京".to_string(),
                message: "set weather_api_key in config.toml".to_string()
            },
            WeatherCard::Error {
                label: "石家庄".to_string(),
                message: "set weather_api_key in config.toml".to_string()
            },
        ]
    );
}
