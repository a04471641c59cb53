//! The weather panel: the places it shows, and the card that stands for
//! each place, whether the forecast came or not.

use crate::amount::{decimal_string, decimal_text};
use vstd::prelude::*;
use vstd::string::StringExecFns;

verus! {

/// A place on the weather panel: the name the service is asked for, and the
/// label shown when no forecast came.
#[derive(Debug, Clone, Copy, PartialEq, Eq)]
pub struct WeatherLocation {
    pub query: &'static str,
    pub label: &'static str,
}

/// What the panel shows for one place.
#[derive(Debug, Clone, PartialEq, Eq)]
pub enum WeatherCard {
    Success { name: String, condition: String, temperature: String },
    Error { label: String, message: String },
}

/// Why no forecast came for a place.
#[derive(Debug, Clone, Copy, PartialEq, Eq, Structural)]
pub enum FetchFailure {
    /// No key for the service is set.
    MissingKey,
    /// The request did not get through.
    Network,
    /// The service answered with this status, which is no success.
    Status(u16),
    /// The answer could not be read to its end.
    Body,
    /// The answer is not the document that was expected.
    Parse,
    /// The answer holds no forecast for the day.
    NoForecast,
}

/// The number of places on the panel.
pub const LOCATION_COUNT: usize = 2;

/// The places on the panel, in the order in which they are shown.
pub fn weather_locations() -> (places: [WeatherLocation; 2])
    ensures
        places[0].query@ == "beijing"@,
        places[0].label@ == "北京"@,
        places[1].query@ == "shijiazhuang"@,
        places[1].label@ == "石家庄"@,
{
    [
        WeatherLocation { query: "beijing", label: "北京" },
        WeatherLocation { query: "shijiazhuang", label: "石家庄" },
    ]
}

/// What a failure says on the card.
pub open spec fn failure_text(failure: FetchFailure) -> Seq<char> {
    match failure {
        FetchFailure::MissingKey => "set weather_api_key in config.toml"@,
        FetchFailure::Network => "the request failed"@,
        FetchFailure::Body => "cannot read the answer"@,
        FetchFailure::Parse => "cannot parse the weather data"@,
        FetchFailure::NoForecast => "no forecast in the answer"@,
        FetchFailure::Status(code) => if code == 400 {
            "bad request"@
        } else if code == 401 {
            "the API key is invalid or has expired"@
        } else if code == 403 {
            "access denied, check what the key permits"@
        } else if code == 404 {
            "place not found"@
        } else if code == 429 {
            "too many requests"@
        } else if 500 <= code <= 599 {
            "the weather server failed"@
        } else {
            "weather API error (HTTP "@ + decimal_text(code as nat) + ")"@
        },
    }
}

/// What a failure says on the card.
pub fn failure_message(failure: FetchFailure) -> (message: String)
    ensures
        message@ == failure_text(failure),
{
    match failure {
        FetchFailure::MissingKey => "set weather_api_key in config.toml".to_owned(),
        FetchFailure::Network => "the request failed".to_owned(),
        FetchFailure::Body => "cannot read the answer".to_owned(),
        FetchFailure::Parse => "cannot parse the weather data".to_owned(),
        FetchFailure::NoForecast => "no forecast in the answer".to_owned(),
        FetchFailure::Status(code) => if code == 400 {
            "bad request".to_owned()
        } else if code == 401 {
            "the API key is invalid or has expired".to_owned()
        } else if code == 403 {
            "access denied, check what the key permits".to_owned()
        } else if code == 404 {
            "place not found".to_owned()
        } else if code == 429 {
            "too many requests".to_owned()
        } else if 500 <= code && code <= 599 {
            "the weather server failed".to_owned()
        } else {
            let number = decimal_string(code as usize);
            let mut message = "weather API error (HTTP ".to_owned();
            message.append(number.as_str());
            message.append(")");
            message
        },
    }
}

/// The card of a place for which no forecast came.
pub fn error_card(place: &WeatherLocation, failure: FetchFailure) -> (card: WeatherCard)
    ensures
        card matches WeatherCard::Error { label, message } && label@ == place.label@ && message@
            == failure_text(failure),
{
    WeatherCard::Error { label: place.label.to_owned(), message: failure_message(failure) }
}

/// The cards of the panel when every place failed in the same way, as all
/// do when no key is set.
pub fn failed_board(failure: FetchFailure) -> (cards: Vec<WeatherCard>)
    ensures
        cards.len() == LOCATION_COUNT,
        forall|i: int|
            0 <= i < cards.len() ==> (#[trigger] cards[i] matches WeatherCard::Error {
                label,
                message,
            } && message@ == failure_text(failure)),
        cards[0] matches WeatherCard::Error { label, .. } && label@ == "北京"@,
        cards[1] matches WeatherCard::Error { label, .. } && label@ == "石家庄"@,
{
    let places = weather_locations();
    let mut cards: Vec<WeatherCard> = Vec::new();
    cards.push(error_card(&places[0], failure));
    cards.push(error_card(&places[1], failure));
    cards
}

} // verus!
