//! Decoding: from a JSON document to a page of records.
//!
//! Each reader comes as a pair: a spec function that says what a JSON value
//! decodes to, and an executable function that computes it.

use crate::api::{
    optional_text, Location, LocationModel, LocationOpenData, StatusModel, StatusOpenData,
    TestableRecord,
};
use crate::error::DecodeError;
use crate::json::Json;
use vstd::prelude::*;

verus! {

/// Whether `outcome` is what `model` says: the same error, or a value with
/// the model's value as its view.
pub open spec fn decoded<A: View>(outcome: Result<A, DecodeError>, model: Result<A::V, DecodeError>) -> bool {
    match outcome {
        Ok(value) => model == Ok::<A::V, DecodeError>(value@),
        Err(e) => model == Err::<A::V, DecodeError>(e),
    }
}

/// The characters of a JSON string.
pub open spec fn text_of(value: Json) -> Result<Seq<char>, DecodeError> {
    match value {
        Json::Text(s) => Ok(s@),
        _ => Err(DecodeError::InvalidType),
    }
}

/// The value of a JSON number that is an integer from `low` to `high`.
pub open spec fn integer_of(value: Json, low: int, high: int) -> Result<int, DecodeError> {
    match value {
        Json::Number(n) => match n.integer {
            Some(v) => if low <= v <= high {
                Ok(v as int)
            } else {
                Err(DecodeError::InvalidType)
            },
            None => Err(DecodeError::InvalidType),
        },
        _ => Err(DecodeError::InvalidType),
    }
}

/// The bits of a JSON number read as a float.
pub open spec fn coordinate_of(value: Json) -> Result<u64, DecodeError> {
    match value {
        Json::Number(n) => match n.float_bits {
            Some(bits) => Ok(bits),
            None => Err(DecodeError::InvalidType),
        },
        _ => Err(DecodeError::InvalidType),
    }
}

/// A text member that must be present.
pub open spec fn required_text(object: Json, key: Seq<char>) -> Result<Seq<char>, DecodeError> {
    match object.member(key) {
        None => Err(DecodeError::MissingField),
        Some(value) => text_of(value),
    }
}

/// A text member that is empty where it is absent.
pub open spec fn defaulted_text(object: Json, key: Seq<char>) -> Result<Seq<char>, DecodeError> {
    match object.member(key) {
        None => Ok(Seq::empty()),
        Some(value) => text_of(value),
    }
}

/// A text member that may be absent or `null`.
pub open spec fn optional_text_at(object: Json, key: Seq<char>) -> Result<Option<Seq<char>>, DecodeError> {
    match object.member(key) {
        None => Ok(None),
        Some(Json::Null) => Ok(None),
        Some(Json::Text(s)) => Ok(Some(s@)),
        Some(_) => Err(DecodeError::InvalidType),
    }
}

/// An integer member that must be present.
pub open spec fn required_integer(object: Json, key: Seq<char>, low: int, high: int) -> Result<int, DecodeError> {
    match object.member(key) {
        None => Err(DecodeError::MissingField),
        Some(value) => integer_of(value, low, high),
    }
}

/// An integer member that is 0 where it is absent.
pub open spec fn defaulted_integer(object: Json, key: Seq<char>, low: int, high: int) -> Result<int, DecodeError> {
    match object.member(key) {
        None => Ok(0),
        Some(value) => integer_of(value, low, high),
    }
}

/// A flag: an integer member that must be present, and that means `true`
/// where it is positive and `false` where it is not, whatever its size.
pub open spec fn required_flag(object: Json, key: Seq<char>) -> Result<bool, DecodeError> {
    match required_integer(object, key, i64::MIN as int, i64::MAX as int) {
        Ok(v) => Ok(v > 0),
        Err(e) => Err(e),
    }
}

/// The location that a position stands for: an array of two numbers, the
/// latitude before the longitude.
pub open spec fn location_of(position: Json) -> Result<Location, DecodeError> {
    match position {
        Json::Array(items) => {
            if items@.len() == 0 {
                Err(DecodeError::NoLatitude)
            } else if coordinate_of(items@[0]) is Err {
                Err(DecodeError::InvalidType)
            } else if items@.len() == 1 {
                Err(DecodeError::NoLongitude)
            } else if coordinate_of(items@[1]) is Err {
                Err(DecodeError::InvalidType)
            } else if items@.len() > 2 {
                Err(DecodeError::TrailingElements)
            } else {
                Ok(
                    Location {
                        latitude: coordinate_of(items@[0])->Ok_0,
                        longitude: coordinate_of(items@[1])->Ok_0,
                    },
                )
            }
        },
        _ => Err(DecodeError::InvalidType),
    }
}

/// A location member that must be present.
pub open spec fn required_location(object: Json, key: Seq<char>) -> Result<Location, DecodeError> {
    match object.member(key) {
        None => Err(DecodeError::MissingField),
        Some(position) => location_of(position),
    }
}

/// Turns the integer that the API gives for a flag into a `bool`.
pub fn int_to_bool(value: i64) -> (flag: bool)
    ensures
        flag == (value > 0),
{
    value > 0
}

/// Reads a JSON string.
pub fn read_text(value: &Json) -> (outcome: Result<String, DecodeError>)
    ensures
        decoded(outcome, text_of(*value)),
{
    match value {
        Json::Text(s) => Ok(s.clone()),
        _ => Err(DecodeError::InvalidType),
    }
}

/// Reads a JSON number as an integer from `low` to `high`.
pub fn read_integer(value: &Json, low: i64, high: i64) -> (outcome: Result<i64, DecodeError>)
    ensures
        match outcome {
            Ok(v) => integer_of(*value, low as int, high as int) == Ok::<int, DecodeError>(v as int),
            Err(e) => integer_of(*value, low as int, high as int) == Err::<int, DecodeError>(e),
        },
{
    match value {
        Json::Number(n) => match n.integer {
            Some(v) => if low <= v && v <= high {
                Ok(v)
            } else {
                Err(DecodeError::InvalidType)
            },
            None => Err(DecodeError::InvalidType),
        },
        _ => Err(DecodeError::InvalidType),
    }
}

/// Reads a text member that must be present.
pub fn text_at(object: &Json, key: &str) -> (outcome: Result<String, DecodeError>)
    ensures
        decoded(outcome, required_text(*object, key@)),
{
    match object.get(key) {
        None => Err(DecodeError::MissingField),
        Some(value) => read_text(value),
    }
}

/// Reads a text member that is empty where it is absent.
pub fn text_or_empty_at(object: &Json, key: &str) -> (outcome: Result<String, DecodeError>)
    ensures
        decoded(outcome, defaulted_text(*object, key@)),
{
    match object.get(key) {
        None => Ok(String::new()),
        Some(value) => read_text(value),
    }
}

/// Reads a text member that may be absent or `null`.
pub fn optional_text_at_key(object: &Json, key: &str) -> (outcome: Result<Option<String>, DecodeError>)
    ensures
        match outcome {
            Ok(text) => optional_text_at(*object, key@) == Ok::<Option<Seq<char>>, DecodeError>(
                optional_text(text),
            ),
            Err(e) => optional_text_at(*object, key@) == Err::<Option<Seq<char>>, DecodeError>(e),
        },
{
    match object.get(key) {
        None => Ok(None),
        Some(Json::Null) => Ok(None),
        Some(Json::Text(s)) => Ok(Some(s.clone())),
        Some(_) => Err(DecodeError::InvalidType),
    }
}

/// Reads an integer member that must be present.
pub fn integer_at(object: &Json, key: &str, low: i64, high: i64) -> (outcome: Result<i64, DecodeError>)
    ensures
        match outcome {
            Ok(v) => required_integer(*object, key@, low as int, high as int) == Ok::<int, DecodeError>(
                v as int,
            ),
            Err(e) => required_integer(*object, key@, low as int, high as int) == Err::<int, DecodeError>(e),
        },
{
    match object.get(key) {
        None => Err(DecodeError::MissingField),
        Some(value) => read_integer(value, low, high),
    }
}

/// Reads an integer member that is 0 where it is absent.
pub fn integer_or_zero_at(object: &Json, key: &str, low: i64, high: i64) -> (outcome: Result<i64, DecodeError>)
    ensures
        match outcome {
            Ok(v) => defaulted_integer(*object, key@, low as int, high as int) == Ok::<int, DecodeError>(
                v as int,
            ),
            Err(e) => defaulted_integer(*object, key@, low as int, high as int) == Err::<int, DecodeError>(
                e,
            ),
        },
{
    match object.get(key) {
        None => Ok(0),
        Some(value) => read_integer(value, low, high),
    }
}

/// Reads a flag.
pub fn flag_at(object: &Json, key: &str) -> (outcome: Result<bool, DecodeError>)
    ensures
        outcome == required_flag(*object, key@),
{
    match integer_at(object, key, i64::MIN, i64::MAX) {
        Ok(v) => Ok(int_to_bool(v)),
        Err(e) => Err(e),
    }
}

/// Reads the bits of a JSON number as a float.
pub fn read_coordinate(value: &Json) -> (outcome: Result<u64, DecodeError>)
    ensures
        outcome == coordinate_of(*value),
{
    match value {
        Json::Number(n) => match n.float_bits {
            Some(bits) => Ok(bits),
            None => Err(DecodeError::InvalidType),
        },
        _ => Err(DecodeError::InvalidType),
    }
}

/// Turns the position of a parking, an array of latitude and longitude,
/// into a [`Location`].
pub fn position_to_location(position: &Json) -> (outcome: Result<Location, DecodeError>)
    ensures
        outcome == location_of(*position),
{
    match position {
        Json::Array(items) => {
            if items.len() == 0 {
                return Err(DecodeError::NoLatitude);
            }
            let latitude = match read_coordinate(&items[0]) {
                Ok(bits) => bits,
                Err(_) => {
                    return Err(DecodeError::InvalidType);
                },
            };
            if items.len() == 1 {
                return Err(DecodeError::NoLongitude);
            }
            let longitude = match read_coordinate(&items[1]) {
                Ok(bits) => bits,
                Err(_) => {
                    return Err(DecodeError::InvalidType);
                },
            };
            if items.len() > 2 {
                return Err(DecodeError::TrailingElements);
            }
            Ok(Location { latitude, longitude })
        },
        _ => Err(DecodeError::InvalidType),
    }
}

/// Reads a location member that must be present.
pub fn location_at(object: &Json, key: &str) -> (outcome: Result<Location, DecodeError>)
    ensures
        outcome == required_location(*object, key@),
{
    match object.get(key) {
        None => Err(DecodeError::MissingField),
        Some(position) => position_to_location(position),
    }
}

/// A record type that can be decoded from the `fields` of a record.
pub trait OpenData: TestableRecord {
    /// What the `fields` of a record decode to.
    spec fn fields_model(fields: Json) -> Result<Self::V, DecodeError>;

    /// Decodes the `fields` of a record.
    fn from_fields(fields: &Json) -> (outcome: Result<Self, DecodeError>)
        ensures
            decoded(outcome, Self::fields_model(*fields)),
    ;
}

/// What the fields of a status record decode to. The identifier and the
/// name are empty where they are absent, the description may be absent; the
/// first member that cannot be read, in the order below, gives the error.
pub open spec fn status_fields(fields: Json) -> Result<StatusModel, DecodeError> {
    let id = defaulted_text(fields, "idsurfs"@);
    let name = defaulted_text(fields, "nom_parking"@);
    let status = required_integer(fields, "etat"@, i8::MIN as int, i8::MAX as int);
    let free = required_integer(fields, "libre"@, 0, u16::MAX as int);
    let total = required_integer(fields, "total"@, 0, u16::MAX as int);
    let users_info = optional_text_at(fields, "etat_descriptif"@);
    if !(fields is Object) {
        Err(DecodeError::InvalidType)
    } else if id is Err {
        Err(id->Err_0)
    } else if name is Err {
        Err(name->Err_0)
    } else if status is Err {
        Err(status->Err_0)
    } else if free is Err {
        Err(free->Err_0)
    } else if total is Err {
        Err(total->Err_0)
    } else if users_info is Err {
        Err(users_info->Err_0)
    } else {
        Ok(
            StatusModel {
                id: id->Ok_0,
                name: name->Ok_0,
                status: status->Ok_0 as i8,
                free: free->Ok_0 as u16,
                total: total->Ok_0 as u16,
                users_info: users_info->Ok_0,
            },
        )
    }
}

impl OpenData for StatusOpenData {
    open spec fn fields_model(fields: Json) -> Result<StatusModel, DecodeError> {
        status_fields(fields)
    }

    fn from_fields(fields: &Json) -> (outcome: Result<Self, DecodeError>) {
        match fields {
            Json::Object(_) => {},
            _ => {
                return Err(DecodeError::InvalidType);
            },
        }
        let id = text_or_empty_at(fields, "idsurfs")?;
        let name = text_or_empty_at(fields, "nom_parking")?;
        let status = integer_at(fields, "etat", -128, 127)?;
        let free = integer_at(fields, "libre", 0, 65535)?;
        let total = integer_at(fields, "total", 0, 65535)?;
        let users_info = optional_text_at_key(fields, "etat_descriptif")?;
        Ok(
            StatusOpenData {
                id,
                name,
                status: status as i8,
                free: free as u16,
                total: total as u16,
                users_info,
            },
        )
    }
}

/// What the fields of a location record decode to. The identifier and the
/// description may be absent; the first member that cannot be read, in the
/// order below, gives the error.
pub open spec fn location_fields(fields: Json) -> Result<LocationModel, DecodeError> {
    let id = optional_text_at(fields, "idsurfs"@);
    let city = required_text(fields, "city"@);
    let zipcode = required_text(fields, "zipcode"@);
    let street = required_text(fields, "street"@);
    let address = required_text(fields, "address"@);
    let location = required_location(fields, "position"@);
    let url = required_text(fields, "friendlyurl"@);
    let name = required_text(fields, "name"@);
    let description = optional_text_at(fields, "description"@);
    let deaf_access = required_flag(fields, "accessfordeaf"@);
    let deficient_access = required_flag(fields, "accessfordeficient"@);
    let elder_access = required_flag(fields, "accessforelder"@);
    let wheelchair_access = required_flag(fields, "accessforwheelchair"@);
    let blind_access = required_flag(fields, "accessforblind"@);
    if !(fields is Object) {
        Err(DecodeError::InvalidType)
    } else if id is Err {
        Err(id->Err_0)
    } else if city is Err {
        Err(city->Err_0)
    } else if zipcode is Err {
        Err(zipcode->Err_0)
    } else if street is Err {
        Err(street->Err_0)
    } else if address is Err {
        Err(address->Err_0)
    } else if location is Err {
        Err(location->Err_0)
    } else if url is Err {
        Err(url->Err_0)
    } else if name is Err {
        Err(name->Err_0)
    } else if description is Err {
        Err(description->Err_0)
    } else if deaf_access is Err {
        Err(deaf_access->Err_0)
    } else if deficient_access is Err {
        Err(deficient_access->Err_0)
    } else if elder_access is Err {
        Err(elder_access->Err_0)
    } else if wheelchair_access is Err {
        Err(wheelchair_access->Err_0)
    } else if blind_access is Err {
        Err(blind_access->Err_0)
    } else {
        Ok(
            LocationModel {
                id: id->Ok_0,
                city: city->Ok_0,
                zipcode: zipcode->Ok_0,
                street: street->Ok_0,
                address: address->Ok_0,
                location: location->Ok_0,
                url: url->Ok_0,
                name: name->Ok_0,
                description: description->Ok_0,
                deaf_access: deaf_access->Ok_0,
                deficient_access: deficient_access->Ok_0,
                elder_access: elder_access->Ok_0,
                wheelchair_access: wheelchair_access->Ok_0,
                blind_access: blind_access->Ok_0,
            },
        )
    }
}

impl OpenData for LocationOpenData {
    open spec fn fields_model(fields: Json) -> Result<LocationModel, DecodeError> {
        location_fields(fields)
    }

    fn from_fields(fields: &Json) -> (outcome: Result<Self, DecodeError>) {
        match fields {
            Json::Object(_) => {},
            _ => {
                return Err(DecodeError::InvalidType);
            },
        }
        let id = optional_text_at_key(fields, "idsurfs")?;
        let city = text_at(fields, "city")?;
        let zipcode = text_at(fields, "zipcode")?;
        let street = text_at(fields, "street")?;
        let address = text_at(fields, "address")?;
        let location = location_at(fields, "position")?;
        let url = text_at(fields, "friendlyurl")?;
        let name = text_at(fields, "name")?;
        let description = optional_text_at_key(fields, "description")?;
        let deaf_access = flag_at(fields, "accessfordeaf")?;
        let deficient_access = flag_at(fields, "accessfordeficient")?;
        let elder_access = flag_at(fields, "accessforelder")?;
        let wheelchair_access = flag_at(fields, "accessforwheelchair")?;
        let blind_access = flag_at(fields, "accessforblind")?;
        Ok(
            LocationOpenData {
                id,
                city,
                zipcode,
                street,
                address,
                location,
                url,
                name,
                description,
                deaf_access,
                deficient_access,
                elder_access,
                wheelchair_access,
                blind_access,
            },
        )
    }
}

} // verus!
