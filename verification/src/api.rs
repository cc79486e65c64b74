//! The objects of the API.

use vstd::prelude::*;

verus! {

/// The url of the location endpoint.
pub const LOCATION_URL: &'static str = "https://data.strasbourg.eu/api/records/1.0/search/?dataset=parkings";

/// The url of the status endpoint.
pub const STATUS_URL: &'static str =
    "https://data.strasbourg.eu/api/records/1.0/search/?dataset=occupation-parkings-temps-reel";

/// The characters of an optional text.
pub open spec fn optional_text(text: Option<String>) -> Option<Seq<char>> {
    match text {
        Some(s) => Some(s@),
        None => None,
    }
}

/// A record type that can tell whether one of its values is usable.
///
/// Validity is read off the record's model, so that it is known of a record
/// before the record is built.
pub trait TestableRecord: View + Sized {
    /// Whether a record with this model is valid.
    spec fn valid(model: Self::V) -> bool;

    /// Whether this record is valid.
    fn is_valid(&self) -> (ok: bool)
        ensures
            ok == Self::valid(self@),
    ;
}

/// A record represents an item of some data with a specific id.
#[derive(Debug)]
pub struct Record<T> {
    /// The identifier of the record.
    pub id: String,
    /// The item itself.
    pub inner: T,
}

/// The model of a [`Record`].
pub struct RecordModel<V> {
    pub id: Seq<char>,
    pub inner: V,
}

impl<T: View> View for Record<T> {
    type V = RecordModel<T::V>;

    open spec fn view(&self) -> RecordModel<T::V> {
        RecordModel { id: self.id@, inner: self.inner@ }
    }
}

/// The models of `records`, in order.
pub open spec fn record_views<T: View>(records: Seq<Record<T>>) -> Seq<RecordModel<T::V>> {
    records.map_values(|record: Record<T>| record@)
}

/// A struct holding the information relative to the pagination.
#[derive(Debug, Clone, Copy)]
pub struct Pagination {
    /// The number of records the dataset holds on the server.
    pub total: i32,
    /// The number of the first record of the page.
    pub start: i32,
}

/// The parameters a response was computed with.
#[derive(Debug)]
pub struct Parameters {
    /// The time zone of the dates in the response.
    pub timezone: String,
    /// The number of records that was asked for.
    pub count: i32,
}

/// The model of [`Parameters`].
pub struct ParametersModel {
    pub timezone: Seq<char>,
    pub count: i32,
}

impl View for Parameters {
    type V = ParametersModel;

    open spec fn view(&self) -> ParametersModel {
        ParametersModel { timezone: self.timezone@, count: self.count }
    }
}

/// The container for the API response: one page of a dataset.
#[derive(Debug)]
pub struct OpenDataResponse<T> {
    /// The parameters relative to the response.
    pub parameters: Parameters,
    /// The parameters relative to the pagination.
    pub pagination: Pagination,
    /// The valid records of the page, in the order of the response.
    pub records: Vec<Record<T>>,
}

/// The model of an [`OpenDataResponse`].
pub struct ResponseModel<V> {
    pub parameters: ParametersModel,
    pub pagination: Pagination,
    pub records: Seq<RecordModel<V>>,
}

impl<T: View> View for OpenDataResponse<T> {
    type V = ResponseModel<T::V>;

    open spec fn view(&self) -> ResponseModel<T::V> {
        ResponseModel {
            parameters: self.parameters@,
            pagination: self.pagination,
            records: record_views(self.records@),
        }
    }
}

impl<T> OpenDataResponse<T> {
    /// The items of the page without their identifiers, in order.
    pub open spec fn payloads(self) -> Seq<T> {
        self.records@.map_values(|r: Record<T>| r.inner)
    }
}

/// A point on the globe. Each coordinate is held as the bit pattern of the
/// IEEE 754 double-precision number that the API gives.
#[derive(Debug, Clone, Copy, PartialEq, Eq, Structural)]
pub struct Location {
    /// The bit pattern of the latitude.
    pub latitude: u64,
    /// The bit pattern of the longitude.
    pub longitude: u64,
}

/// A parking, as the location dataset describes it.
#[derive(Debug)]
pub struct LocationOpenData {
    /// The identifier of the parking, `idsurfs` in the dataset.
    pub id: Option<String>,
    pub city: String,
    pub zipcode: String,
    pub street: String,
    pub address: String,
    /// Where the parking lies, `position` in the dataset.
    pub location: Location,
    /// The page of the parking, `friendlyurl` in the dataset.
    pub url: String,
    pub name: String,
    pub description: Option<String>,
    /// Whether the parking is fit for the deaf, `accessfordeaf` in the
    /// dataset; the four flags below are named alike there.
    pub deaf_access: bool,
    pub deficient_access: bool,
    pub elder_access: bool,
    pub wheelchair_access: bool,
    pub blind_access: bool,
}

/// The model of a [`LocationOpenData`].
pub struct LocationModel {
    pub id: Option<Seq<char>>,
    pub city: Seq<char>,
    pub zipcode: Seq<char>,
    pub street: Seq<char>,
    pub address: Seq<char>,
    pub location: Location,
    pub url: Seq<char>,
    pub name: Seq<char>,
    pub description: Option<Seq<char>>,
    pub deaf_access: bool,
    pub deficient_access: bool,
    pub elder_access: bool,
    pub wheelchair_access: bool,
    pub blind_access: bool,
}

impl View for LocationOpenData {
    type V = LocationModel;

    open spec fn view(&self) -> LocationModel {
        LocationModel {
            id: optional_text(self.id),
            city: self.city@,
            zipcode: self.zipcode@,
            street: self.street@,
            address: self.address@,
            location: self.location,
            url: self.url@,
            name: self.name@,
            description: optional_text(self.description),
            deaf_access: self.deaf_access,
            deficient_access: self.deficient_access,
            elder_access: self.elder_access,
            wheelchair_access: self.wheelchair_access,
            blind_access: self.blind_access,
        }
    }
}

impl TestableRecord for LocationOpenData {
    /// Every location is valid.
    open spec fn valid(model: LocationModel) -> bool {
        true
    }

    fn is_valid(&self) -> (ok: bool) {
        true
    }
}

/// The occupation of a parking, as the status dataset describes it.
#[derive(Debug)]
pub struct StatusOpenData {
    /// The identifier of the parking, `idsurfs` in the dataset.
    pub id: String,
    /// The name of the parking, `nom_parking` in the dataset.
    pub name: String,
    /// The state of the parking as a code, `etat` in the dataset.
    pub status: i8,
    /// The number of free places, `libre` in the dataset.
    pub free: u16,
    /// The number of places.
    pub total: u16,
    /// The state of the parking in words, `etat_descriptif` in the dataset.
    pub users_info: Option<String>,
}

/// The model of a [`StatusOpenData`].
pub struct StatusModel {
    pub id: Seq<char>,
    pub name: Seq<char>,
    pub status: i8,
    pub free: u16,
    pub total: u16,
    pub users_info: Option<Seq<char>>,
}

impl View for StatusOpenData {
    type V = StatusModel;

    open spec fn view(&self) -> StatusModel {
        StatusModel {
            id: self.id@,
            name: self.name@,
            status: self.status,
            free: self.free,
            total: self.total,
            users_info: optional_text(self.users_info),
        }
    }
}

impl TestableRecord for StatusOpenData {
    /// A status is valid if it names its parking: neither its identifier nor
    /// its name is empty.
    open spec fn valid(model: StatusModel) -> bool {
        model.id.len() > 0 && model.name.len() > 0
    }

    fn is_valid(&self) -> (ok: bool) {
        !self.id.as_str().is_empty() && !self.name.as_str().is_empty()
    }
}

} // verus!
