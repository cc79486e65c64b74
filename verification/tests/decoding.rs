use strasbourgpark::api::{LocationOpenData, StatusOpenData, TestableRecord};
use strasbourgpark::decode::{
    decode_document, decode_parameters, decode_record, decode_records, deserialize_record,
    decode_response,
};
use strasbourgpark::deserialize::{
    flag_at, int_to_bool, integer_at, integer_or_zero_at, location_at, optional_text_at_key,
    position_to_location, read_coordinate, read_integer, read_text, text_at, text_or_empty_at,
    OpenData,
};
use strasbourgpark::error::DecodeError;
use strasbourgpark::json::{parse, Json, JsonNumber};

fn document(text: &str) -> Json {
    parse(text.as_bytes()).expect("the text is JSON")
}

const LOCATION: &str = "{\"idsurfs\": \"1_50\", \"city\": \"Strasbourg\", \"zipcode\": \"67000\", \
    \"street\": \"Rue des Halles\", \"address\": \"Place des Halles\", \
    \"position\": [48.5839, 7.7455], \"friendlyurl\": \"https://example.org/halles\", \
    \"name\": \"Halles\", \"description\": \"Ouvert\", \"accessfordeaf\": 0, \
    \"accessfordeficient\": -1, \"accessforelder\": 1, \"accessforwheelchair\": 2, \
    \"accessforblind\": 0, \"unknown\": [1, 2, 3]}";

fn location_without(member: &str) -> Json {
    match document(LOCATION) {
        Json::Object(entries) => {
            Json::Object(entries.into_iter().filter(|(name, _)| name != member).collect())
        }
        _ => unreachable!(),
    }
}

fn location_with(member: &str, value: Json) -> Json {
    match location_without(member) {
        Json::Object(mut entries) => {
            entries.push((member.to_string(), value));
            Json::Object(entries)
        }
        _ => unreachable!(),
    }
}

#[test]
fn positive_flag_is_true() {
    assert!(int_to_bool(1));
    assert!(int_to_bool(127));
    assert!(!int_to_bool(0));
    assert!(!int_to_bool(-1));
    assert!(!int_to_bool(-128));
    assert!(int_to_bool(200));
    assert!(int_to_bool(i64::MAX));
    assert!(!int_to_bool(i64::MIN));
}

#[test]
fn flags_of_any_size_are_read() {
    let doc = document(
        "{\"a\": 200, \"b\": 9223372036854775807, \"c\": -9223372036854775808, \"d\": -200, \
         \"e\": 1.0, \"f\": 18446744073709551615}",
    );
    assert_eq!(flag_at(&doc, "a"), Ok(true));
    assert_eq!(flag_at(&doc, "b"), Ok(true));
    assert_eq!(flag_at(&doc, "c"), Ok(false));
    assert_eq!(flag_at(&doc, "d"), Ok(false));
    assert_eq!(flag_at(&doc, "e"), Err(DecodeError::InvalidType));
    assert_eq!(flag_at(&doc, "f"), Err(DecodeError::InvalidType));
}

#[test]
fn parse_builds_the_tree() {
    let doc = document("{\"b\": [1, -2, 2.5, null, true], \"a\": \"x\"}");
    let items = match doc.get("b") {
        Some(Json::Array(items)) => items,
        _ => panic!("b is an array"),
    };
    assert_eq!(items.len(), 5);
    assert!(matches!(
        items[0],
        Json::Number(JsonNumber { integer: Some(1), float_bits: Some(bits) }) if f64::from_bits(bits) == 1.0
    ));
    assert!(matches!(
        items[1],
        Json::Number(JsonNumber { integer: Some(-2), float_bits: Some(bits) }) if f64::from_bits(bits) == -2.0
    ));
    assert!(matches!(
        items[2],
        Json::Number(JsonNumber { integer: None, float_bits: Some(bits) }) if f64::from_bits(bits) == 2.5
    ));
    assert!(matches!(items[3], Json::Null));
    assert!(matches!(items[4], Json::Bool(true)));
    assert!(matches!(doc.get("a"), Some(Json::Text(s)) if s == "x"));
    assert!(doc.get("c").is_none());
    assert!(items[0].get("a").is_none());
}

#[test]
fn parse_refuses_what_is_not_json() {
    assert!(parse(b"{\"a\": ").is_none());
    assert!(parse(b"").is_none());
    assert!(parse(b"[1, 2] trailing").is_none());
    assert!(parse(b"[1, 2]").is_some());
}

#[test]
fn get_takes_the_first_of_two_members() {
    let doc = Json::Object(vec![
        ("a".to_string(), Json::Bool(true)),
        ("a".to_string(), Json::Bool(false)),
    ]);
    assert!(matches!(doc.get("a"), Some(Json::Bool(true))));
}

#[test]
fn scalars_are_read_by_type() {
    assert_eq!(read_text(&Json::Text("abc".to_string())), Ok("abc".to_string()));
    assert_eq!(read_text(&Json::Null), Err(DecodeError::InvalidType));
    let seven = Json::Number(JsonNumber { integer: Some(7), float_bits: Some(7.0f64.to_bits()) });
    assert_eq!(read_integer(&seven, 0, 7), Ok(7));
    assert_eq!(read_integer(&seven, 0, 6), Err(DecodeError::InvalidType));
    assert_eq!(read_integer(&seven, 8, 9), Err(DecodeError::InvalidType));
    assert_eq!(read_integer(&Json::Text("7".to_string()), 0, 9), Err(DecodeError::InvalidType));
    let half = Json::Number(JsonNumber { integer: None, float_bits: Some(0.5f64.to_bits()) });
    assert_eq!(read_integer(&half, 0, 9), Err(DecodeError::InvalidType));
    assert_eq!(read_coordinate(&half), Ok(0.5f64.to_bits()));
    assert_eq!(read_coordinate(&Json::Bool(true)), Err(DecodeError::InvalidType));
    let blank = Json::Number(JsonNumber { integer: Some(1), float_bits: None });
    assert_eq!(read_coordinate(&blank), Err(DecodeError::InvalidType));
}

#[test]
fn members_are_read_by_name() {
    let doc = document("{\"t\": \"text\", \"n\": 300, \"z\": null, \"f\": 1, \"g\": 0, \"p\": [1, 2.5]}");
    assert_eq!(text_at(&doc, "t"), Ok("text".to_string()));
    assert_eq!(text_at(&doc, "missing"), Err(DecodeError::MissingField));
    assert_eq!(text_at(&doc, "n"), Err(DecodeError::InvalidType));
    assert_eq!(text_at(&doc, "z"), Err(DecodeError::InvalidType));
    assert_eq!(text_or_empty_at(&doc, "t"), Ok("text".to_string()));
    assert_eq!(text_or_empty_at(&doc, "missing"), Ok(String::new()));
    assert_eq!(text_or_empty_at(&doc, "z"), Err(DecodeError::InvalidType));
    assert_eq!(optional_text_at_key(&doc, "t"), Ok(Some("text".to_string())));
    assert_eq!(optional_text_at_key(&doc, "missing"), Ok(None));
    assert_eq!(optional_text_at_key(&doc, "z"), Ok(None));
    assert_eq!(optional_text_at_key(&doc, "n"), Err(DecodeError::InvalidType));
    assert_eq!(integer_at(&doc, "n", 0, 65535), Ok(300));
    assert_eq!(integer_at(&doc, "n", -128, 127), Err(DecodeError::InvalidType));
    assert_eq!(integer_at(&doc, "missing", 0, 1), Err(DecodeError::MissingField));
    assert_eq!(integer_or_zero_at(&doc, "missing", -5, 5), Ok(0));
    assert_eq!(integer_or_zero_at(&doc, "n", 0, 1000), Ok(300));
    assert_eq!(integer_or_zero_at(&doc, "t", 0, 1000), Err(DecodeError::InvalidType));
    assert_eq!(flag_at(&doc, "f"), Ok(true));
    assert_eq!(flag_at(&doc, "g"), Ok(false));
    assert_eq!(flag_at(&doc, "n"), Ok(true));
    assert_eq!(flag_at(&doc, "t"), Err(DecodeError::InvalidType));
    assert_eq!(flag_at(&doc, "z"), Err(DecodeError::InvalidType));
    assert_eq!(flag_at(&doc, "missing"), Err(DecodeError::MissingField));
    let location = location_at(&doc, "p").expect("p is a position");
    assert_eq!(f64::from_bits(location.latitude), 1.0);
    assert_eq!(f64::from_bits(location.longitude), 2.5);
    assert_eq!(location_at(&doc, "missing"), Err(DecodeError::MissingField));
    assert_eq!(text_at(&Json::Null, "t"), Err(DecodeError::MissingField));
}

#[test]
fn position_gives_latitude_then_longitude() {
    let location = position_to_location(&document("[48.5839, 7.7455]")).expect("two numbers");
    assert_eq!(f64::from_bits(location.latitude), 48.5839);
    assert_eq!(f64::from_bits(location.longitude), 7.7455);
    let location = position_to_location(&document("[48, -7]")).expect("two numbers");
    assert_eq!(f64::from_bits(location.latitude), 48.0);
    assert_eq!(f64::from_bits(location.longitude), -7.0);
}

#[test]
fn position_errors() {
    assert_eq!(position_to_location(&document("[]")), Err(DecodeError::NoLatitude));
    assert_eq!(position_to_location(&document("[48.5]")), Err(DecodeError::NoLongitude));
    assert_eq!(position_to_location(&document("[1, 2, 3]")), Err(DecodeError::TrailingElements));
    assert_eq!(position_to_location(&document("[\"a\"]")), Err(DecodeError::InvalidType));
    assert_eq!(position_to_location(&document("[1, null]")), Err(DecodeError::InvalidType));
    assert_eq!(position_to_location(&document("{\"lat\": 1}")), Err(DecodeError::InvalidType));
    assert_eq!(position_to_location(&document("\"48.5,7.7\"")), Err(DecodeError::InvalidType));
}

#[test]
fn location_fields_are_mapped() {
    let location = LocationOpenData::from_fields(&document(LOCATION)).expect("a location");
    assert_eq!(location.id, Some("1_50".to_string()));
    assert_eq!(location.city, "Strasbourg");
    assert_eq!(location.zipcode, "67000");
    assert_eq!(location.street, "Rue des Halles");
    assert_eq!(location.address, "Place des Halles");
    assert_eq!(f64::from_bits(location.location.latitude), 48.5839);
    assert_eq!(f64::from_bits(location.location.longitude), 7.7455);
    assert_eq!(location.url, "https://example.org/halles");
    assert_eq!(location.name, "Halles");
    assert_eq!(location.description, Some("Ouvert".to_string()));
    assert!(!location.deaf_access);
    assert!(!location.deficient_access);
    assert!(location.elder_access);
    assert!(location.wheelchair_access);
    assert!(!location.blind_access);
    assert!(location.is_valid());
}

#[test]
fn location_optional_members_may_be_absent() {
    let location = LocationOpenData::from_fields(&location_without("idsurfs")).expect("a location");
    assert_eq!(location.id, None);
    let location =
        LocationOpenData::from_fields(&location_with("description", Json::Null)).expect("a location");
    assert_eq!(location.description, None);
}

#[test]
fn location_required_members_are_asked_for() {
    for member in [
        "city",
        "zipcode",
        "street",
        "address",
        "position",
        "friendlyurl",
        "name",
        "accessfordeaf",
        "accessfordeficient",
        "accessforelder",
        "accessforwheelchair",
        "accessforblind",
    ] {
        let outcome = LocationOpenData::from_fields(&location_without(member));
        assert!(matches!(outcome, Err(DecodeError::MissingField)), "{}", member);
    }
    let outcome = LocationOpenData::from_fields(&location_with("position", document("[1]")));
    assert!(matches!(outcome, Err(DecodeError::NoLongitude)));
    let location = LocationOpenData::from_fields(&location_with("accessforblind", document("300")))
        .expect("a flag above one byte is a flag");
    assert!(location.blind_access);
    let location = LocationOpenData::from_fields(&location_with("accessforelder", document("-300")))
        .expect("a flag below one byte is a flag");
    assert!(!location.elder_access);
    let outcome = LocationOpenData::from_fields(&location_with("accessforblind", document("\"1\"")));
    assert!(matches!(outcome, Err(DecodeError::InvalidType)));
    let outcome = LocationOpenData::from_fields(&document("[1, 2]"));
    assert!(matches!(outcome, Err(DecodeError::InvalidType)));
}

#[test]
fn status_fields_are_mapped() {
    let status = StatusOpenData::from_fields(&document(
        "{\"idsurfs\": \"1_50\", \"nom_parking\": \"Halles\", \"etat\": -1, \"libre\": 65535, \
         \"total\": 0, \"etat_descriptif\": \"Ouvert\"}",
    ))
    .expect("a status");
    assert_eq!(status.id, "1_50");
    assert_eq!(status.name, "Halles");
    assert_eq!(status.status, -1);
    assert_eq!(status.free, 65535);
    assert_eq!(status.total, 0);
    assert_eq!(status.users_info, Some("Ouvert".to_string()));
    assert!(status.is_valid());
}

#[test]
fn status_defaults_make_it_invalid() {
    let status = StatusOpenData::from_fields(&document("{\"etat\": 1, \"libre\": 2, \"total\": 3}"))
        .expect("a status");
    assert_eq!(status.id, "");
    assert_eq!(status.name, "");
    assert_eq!(status.users_info, None);
    assert!(!status.is_valid());
    let status = StatusOpenData::from_fields(&document(
        "{\"idsurfs\": \"x\", \"etat\": 1, \"libre\": 2, \"total\": 3}",
    ))
    .expect("a status");
    assert!(!status.is_valid());
    let status = StatusOpenData::from_fields(&document(
        "{\"nom_parking\": \"x\", \"etat\": 1, \"libre\": 2, \"total\": 3}",
    ))
    .expect("a status");
    assert!(!status.is_valid());
}

#[test]
fn status_errors() {
    let missing = StatusOpenData::from_fields(&document("{\"idsurfs\": \"x\", \"libre\": 2, \"total\": 3}"));
    assert!(matches!(missing, Err(DecodeError::MissingField)));
    let range = StatusOpenData::from_fields(&document("{\"etat\": 128, \"libre\": 2, \"total\": 3}"));
    assert!(matches!(range, Err(DecodeError::InvalidType)));
    let negative = StatusOpenData::from_fields(&document("{\"etat\": 1, \"libre\": -1, \"total\": 3}"));
    assert!(matches!(negative, Err(DecodeError::InvalidType)));
    let large = StatusOpenData::from_fields(&document("{\"etat\": 1, \"libre\": 1, \"total\": 65536}"));
    assert!(matches!(large, Err(DecodeError::InvalidType)));
    let null_id = StatusOpenData::from_fields(&document(
        "{\"idsurfs\": null, \"etat\": 1, \"libre\": 1, \"total\": 1}",
    ));
    assert!(matches!(null_id, Err(DecodeError::InvalidType)));
    let float = StatusOpenData::from_fields(&document("{\"etat\": 1.0, \"libre\": 1, \"total\": 1}"));
    assert!(matches!(float, Err(DecodeError::InvalidType)));
    assert!(matches!(StatusOpenData::from_fields(&Json::Null), Err(DecodeError::InvalidType)));
}

#[test]
fn records_keep_their_identifier() {
    let item = document("{\"recordid\": \"r1\", \"fields\": {\"idsurfs\": \"a\", \"nom_parking\": \"b\", \"etat\": 1, \"libre\": 2, \"total\": 3}}");
    let record = decode_record::<StatusOpenData>(&item).expect("decodes").expect("a record");
    assert_eq!(record.id, "r1");
    assert_eq!(record.inner.free, 2);
    assert!(matches!(decode_record::<StatusOpenData>(&Json::Null), Ok(None)));
    assert!(matches!(
        decode_record::<StatusOpenData>(&document("7")),
        Err(DecodeError::InvalidType)
    ));
    assert!(matches!(
        decode_record::<StatusOpenData>(&document("{\"fields\": {}}")),
        Err(DecodeError::MissingField)
    ));
    assert!(matches!(
        decode_record::<StatusOpenData>(&document("{\"recordid\": \"r\"}")),
        Err(DecodeError::MissingField)
    ));
    assert!(matches!(
        decode_record::<StatusOpenData>(&document("{\"recordid\": 5, \"fields\": {}}")),
        Err(DecodeError::InvalidType)
    ));
}

#[test]
fn null_records_are_dropped_and_bad_ones_fail() {
    let good = "{\"recordid\": \"r\", \"fields\": {\"idsurfs\": \"a\", \"nom_parking\": \"b\", \"etat\": 1, \"libre\": 2, \"total\": 3}}";
    let invalid = "{\"recordid\": \"s\", \"fields\": {\"etat\": 1, \"libre\": 2, \"total\": 3}}";
    let items = match document(&format!("[{}, null, {}, null, {}]", good, invalid, good)) {
        Json::Array(items) => items,
        _ => unreachable!(),
    };
    let all = decode_records::<StatusOpenData>(&items).expect("all decode");
    assert_eq!(all.len(), 3);
    assert_eq!(all[1].id, "s");
    let kept = deserialize_record(all);
    assert_eq!(kept.len(), 2);
    assert_eq!(kept[0].id, "r");
    assert_eq!(kept[1].id, "r");
    let broken = match document(&format!("[{}, {{\"recordid\": \"t\", \"fields\": {{}}}}, 5]", good)) {
        Json::Array(items) => items,
        _ => unreachable!(),
    };
    assert!(matches!(
        decode_records::<StatusOpenData>(&broken),
        Err(DecodeError::MissingField)
    ));
    assert!(decode_records::<StatusOpenData>(&Vec::new()).expect("nothing to decode").is_empty());
}

#[test]
fn parameters_are_decoded() {
    let parameters =
        decode_parameters(&document("{\"timezone\": \"UTC\", \"rows\": 10, \"format\": \"json\"}"))
            .expect("parameters");
    assert_eq!(parameters.timezone, "UTC");
    assert_eq!(parameters.count, 10);
    assert!(matches!(
        decode_parameters(&document("{\"rows\": 10}")),
        Err(DecodeError::MissingField)
    ));
    assert!(matches!(
        decode_parameters(&document("{\"timezone\": \"UTC\", \"rows\": 2147483648}")),
        Err(DecodeError::InvalidType)
    ));
    assert!(matches!(decode_parameters(&document("[]")), Err(DecodeError::InvalidType)));
}

#[test]
fn page_is_decoded_with_its_pagination() {
    let body = "{\"nhits\": 42, \"start\": 10, \"parameters\": {\"timezone\": \"UTC\", \"rows\": 10}, \
                \"records\": [{\"recordid\": \"r\", \"fields\": {\"idsurfs\": \"a\", \
                \"nom_parking\": \"b\", \"etat\": 1, \"libre\": 2, \"total\": 3}}]}";
    let page = decode_response::<StatusOpenData>(body.as_bytes()).expect("a page");
    assert_eq!(page.pagination.total, 42);
    assert_eq!(page.pagination.start, 10);
    assert_eq!(page.parameters.timezone, "UTC");
    assert_eq!(page.parameters.count, 10);
    assert_eq!(page.records.len(), 1);
    assert_eq!(page.records[0].inner.name, "b");
    let page = decode_document::<StatusOpenData>(&document(
        "{\"nhits\": 0, \"parameters\": {\"timezone\": \"UTC\", \"rows\": 10}, \"records\": []}",
    ))
    .expect("a page");
    assert_eq!(page.pagination.total, 0);
    assert_eq!(page.pagination.start, 0);
    assert!(page.records.is_empty());
}

#[test]
fn page_errors() {
    let decode = |text: &str| decode_response::<StatusOpenData>(text.as_bytes());
    assert!(matches!(decode("not json"), Err(DecodeError::Syntax)));
    assert!(matches!(decode("[]"), Err(DecodeError::InvalidType)));
    assert!(matches!(
        decode("{\"nhits\": 1, \"records\": []}"),
        Err(DecodeError::MissingField)
    ));
    assert!(matches!(
        decode("{\"parameters\": {\"timezone\": \"UTC\", \"rows\": 10}, \"records\": []}"),
        Err(DecodeError::MissingField)
    ));
    assert!(matches!(
        decode("{\"nhits\": 1, \"parameters\": {\"timezone\": \"UTC\", \"rows\": 10}}"),
        Err(DecodeError::MissingField)
    ));
    assert!(matches!(
        decode("{\"nhits\": 1, \"parameters\": {\"timezone\": \"UTC\", \"rows\": 10}, \"records\": {}}"),
        Err(DecodeError::InvalidType)
    ));
    assert!(matches!(
        decode("{\"nhits\": \"1\", \"parameters\": {\"timezone\": \"UTC\", \"rows\": 10}, \"records\": []}"),
        Err(DecodeError::InvalidType)
    ));
    assert!(matches!(
        decode("{\"nhits\": 1, \"start\": 1.5, \"parameters\": {\"timezone\": \"UTC\", \"rows\": 10}, \"records\": []}"),
        Err(DecodeError::InvalidType)
    ));
    assert!(matches!(
        decode("{\"nhits\": 1, \"parameters\": {\"timezone\": \"UTC\", \"rows\": 10}, \"records\": [{\"recordid\": \"r\", \"fields\": {\"etat\": 1}}]}"),
        Err(DecodeError::MissingField)
    ));
}

#[test]
fn invalid_records_never_reach_the_page() {
    let body = "{\"nhits\": 3, \"parameters\": {\"timezone\": \"UTC\", \"rows\": 10}, \"records\": [\
                {\"recordid\": \"a\", \"fields\": {\"idsurfs\": \"\", \"nom_parking\": \"n\", \"etat\": 1, \"libre\": 2, \"total\": 3}}, \
                null, \
                {\"recordid\": \"b\", \"fields\": {\"idsurfs\": \"i\", \"nom_parking\": \"n\", \"etat\": 4, \"libre\": 5, \"total\": 6, \"etat_descriptif\": \"d\"}}, \
                {\"recordid\": \"c\", \"fields\": {\"idsurfs\": \"i\", \"nom_parking\": \"\", \"etat\": 1, \"libre\": 2, \"total\": 3}}]}";
    let page = decode_response::<StatusOpenData>(body.as_bytes()).expect("a page");
    assert_eq!(page.pagination.total, 3);
    assert_eq!(page.records.len(), 1);
    let record = &page.records[0];
    assert_eq!(record.id, "b");
    assert_eq!(record.inner.id, "i");
    assert_eq!(record.inner.name, "n");
    assert_eq!(record.inner.status, 4);
    assert_eq!(record.inner.free, 5);
    assert_eq!(record.inner.total, 6);
    assert_eq!(record.inner.users_info, Some("d".to_string()));
    assert!(page.records.iter().all(|r| r.inner.is_valid()));
}
