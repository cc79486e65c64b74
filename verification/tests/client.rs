use strasbourgpark::api::{LocationOpenData, StatusOpenData, LOCATION_URL, STATUS_URL};
use strasbourgpark::client::{
    decimal_text, page_url, read_page, status_is_success, Client, Transport, PAGE_SIZE, USER_AGENT,
};
use strasbourgpark::error::{ClientError, DecodeError};
use strasbourgpark::paginator::{Action, Event};

const STATUS_PAGE: &str = "{\"nhits\": 1, \"parameters\": {\"timezone\": \"UTC\", \"rows\": 10}, \
    \"records\": [{\"recordid\": \"r\", \"fields\": {\"idsurfs\": \"a\", \"nom_parking\": \"b\", \
    \"etat\": 1, \"libre\": 2, \"total\": 3}}]}";

#[test]
fn numbers_are_written_in_decimal() {
    assert_eq!(decimal_text(0), "0");
    assert_eq!(decimal_text(7), "7");
    assert_eq!(decimal_text(10), "10");
    assert_eq!(decimal_text(1234567890), "1234567890");
    assert_eq!(decimal_text(u32::MAX), "4294967295");
    for n in [9u32, 11, 99, 100, 101, 9999, 65536] {
        assert_eq!(decimal_text(n), n.to_string());
    }
}

#[test]
fn page_address_names_start_and_rows() {
    assert_eq!(page_url("http://host/?dataset=d", 20, 9), "http://host/?dataset=d&start=20&rows=9");
    assert_eq!(page_url("", 0, 0), "&start=0&rows=0");
}

#[test]
fn constants() {
    assert_eq!(PAGE_SIZE, 10);
    assert_eq!(USER_AGENT, "strasbourgpark-rs");
    assert_eq!(LOCATION_URL, "https://data.strasbourg.eu/api/records/1.0/search/?dataset=parkings");
    assert_eq!(
        STATUS_URL,
        "https://data.strasbourg.eu/api/records/1.0/search/?dataset=occupation-parkings-temps-reel"
    );
}

#[test]
fn success_is_a_status_in_the_two_hundreds() {
    assert!(status_is_success(200));
    assert!(status_is_success(204));
    assert!(status_is_success(299));
    assert!(!status_is_success(199));
    assert!(!status_is_success(300));
    assert!(!status_is_success(404));
    assert!(!status_is_success(500));
    assert!(!status_is_success(0));
}

#[test]
fn answer_with_another_status_is_an_api_error() {
    let outcome = read_page::<StatusOpenData>(404, STATUS_PAGE.as_bytes());
    assert!(matches!(outcome, Err(ClientError::APIError)));
    let outcome = read_page::<StatusOpenData>(500, b"");
    assert!(matches!(outcome, Err(ClientError::APIError)));
}

#[test]
fn answer_is_decoded() {
    let page = read_page::<StatusOpenData>(200, STATUS_PAGE.as_bytes()).expect("a page");
    assert_eq!(page.pagination.total, 1);
    assert_eq!(page.records[0].id, "r");
    let outcome = read_page::<StatusOpenData>(200, b"<html>");
    assert!(matches!(outcome, Err(ClientError::Serde(DecodeError::Syntax))));
    let outcome = read_page::<LocationOpenData>(200, STATUS_PAGE.as_bytes());
    assert!(matches!(outcome, Err(ClientError::Serde(DecodeError::MissingField))));
}

#[test]
fn client_goes_through_the_proxy_it_is_given() {
    let client = Client::new(None);
    assert!(matches!(client.transport(), Transport::Direct));
    let client = Client::new(Some("http://proxy:3128".to_string()));
    assert!(matches!(client.transport(), Transport::Proxy(address) if address == "http://proxy:3128"));
}

#[test]
fn client_names_the_pages_of_both_datasets() {
    let client = Client::new(None);
    assert_eq!(client.fetch_locations(0, 10), format!("{}&start=0&rows=10", LOCATION_URL));
    assert_eq!(client.fetch_status(30, 5), format!("{}&start=30&rows=5", STATUS_URL));
}

#[test]
fn client_fetches_whole_datasets_in_pages_of_ten() {
    let client = Client::new(None);
    let (_, action) = client.fetch_all_locations().step(Event::Start);
    assert!(matches!(action, Action::Fetch(requests) if requests.len() == 1
        && requests[0].offset == 0 && requests[0].size == 10));
    let (fetch, action) = client.fetch_all_status().step(Event::Start);
    assert!(matches!(action, Action::Fetch(requests) if requests.len() == 1
        && requests[0].offset == 0 && requests[0].size == 10));
    let page = read_page::<StatusOpenData>(200, STATUS_PAGE.as_bytes()).expect("a page");
    let (_, action) = fetch.step(Event::Page(Ok(page)));
    assert!(matches!(action, Action::Finish(Ok(items)) if items.len() == 1 && items[0].free == 2));
}

#[test]
fn whole_fetch_of_status_holds_named_records_only() {
    let record = |id: &str, name: &str| {
        format!(
            "{{\"recordid\": \"r{}{}\", \"fields\": {{\"idsurfs\": \"{}\", \
             \"nom_parking\": \"{}\", \"etat\": 1, \"libre\": 2, \"total\": 3}}}}",
            id, name, id, name
        )
    };
    let body = |records: Vec<String>| {
        format!(
            "{{\"nhits\": 25, \"parameters\": {{\"timezone\": \"UTC\", \"rows\": 10}}, \
             \"records\": [{}]}}",
            records.join(", ")
        )
    };
    let bodies = [
        body(vec![record("a", "A"), record("", "B"), record("c", "")]),
        body(vec![record("", ""), record("d", "D"), "null".to_string()]),
        body(vec![record("e", "E")]),
    ];
    let client = Client::new(None);
    let (mut fetch, _) = client.fetch_all_status().step(Event::Start);
    let mut result = None;
    for text in bodies.iter() {
        let page = read_page::<StatusOpenData>(200, text.as_bytes());
        let (next, action) = fetch.step(Event::Page(page));
        fetch = next;
        if let Action::Finish(outcome) = action {
            result = Some(outcome);
        }
    }
    let items = result.expect("three pages end the fetch").expect("no page failed");
    let names: Vec<&str> = items.iter().map(|s| s.name.as_str()).collect();
    assert_eq!(names, vec!["A", "D", "E"]);
    assert!(items.iter().all(|s| !s.id.is_empty() && !s.name.is_empty()));
}
