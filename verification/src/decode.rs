//! Decoding the body of a response into a page.

use crate::api::{
    record_views, OpenDataResponse, Pagination, Parameters, ParametersModel, Record, RecordModel,
    ResponseModel, TestableRecord,
};
use crate::deserialize::{
    decoded, defaulted_integer, integer_at, integer_or_zero_at, required_integer, required_text,
    text_at, OpenData,
};
use crate::error::DecodeError;
use crate::json::{json_document, parse, Json};
use vstd::prelude::*;

verus! {

/// What one element of `records` decodes to: nothing where it is `null`,
/// else a record with its identifier and its fields.
pub open spec fn record_model<T: OpenData>(item: Json) -> Result<Option<RecordModel<T::V>>, DecodeError> {
    let id = required_text(item, "recordid"@);
    let inner = match item.member("fields"@) {
        None => Err(DecodeError::MissingField),
        Some(fields) => T::fields_model(fields),
    };
    if item is Null {
        Ok(None)
    } else if !(item is Object) {
        Err(DecodeError::InvalidType)
    } else if id is Err {
        Err(id->Err_0)
    } else if inner is Err {
        Err(inner->Err_0)
    } else {
        Ok(Some(RecordModel { id: id->Ok_0, inner: inner->Ok_0 }))
    }
}

/// What the elements of `records` decode to, in order and without those
/// that are `null`. The first element that cannot be decoded gives the
/// error.
pub open spec fn records_model<T: OpenData>(items: Seq<Json>) -> Result<Seq<RecordModel<T::V>>, DecodeError>
    decreases items.len(),
{
    if items.len() == 0 {
        Ok(Seq::empty())
    } else {
        match records_model::<T>(items.drop_last()) {
            Err(e) => Err(e),
            Ok(before) => match record_model::<T>(items.last()) {
                Err(e) => Err(e),
                Ok(None) => Ok(before),
                Ok(Some(record)) => Ok(before.push(record)),
            },
        }
    }
}

/// The test that a record passes if its item is valid.
pub open spec fn is_valid_record<T: TestableRecord>() -> spec_fn(RecordModel<T::V>) -> bool {
    |record: RecordModel<T::V>| T::valid(record.inner)
}

/// Those of `records` whose item is valid, in order.
pub open spec fn valid_records<T: TestableRecord>(records: Seq<RecordModel<T::V>>) -> Seq<RecordModel<T::V>> {
    records.filter(is_valid_record::<T>())
}

/// What the `parameters` of a response decode to.
pub open spec fn parameters_model(value: Json) -> Result<ParametersModel, DecodeError> {
    let timezone = required_text(value, "timezone"@);
    let count = required_integer(value, "rows"@, i32::MIN as int, i32::MAX as int);
    if !(value is Object) {
        Err(DecodeError::InvalidType)
    } else if timezone is Err {
        Err(timezone->Err_0)
    } else if count is Err {
        Err(count->Err_0)
    } else {
        Ok(ParametersModel { timezone: timezone->Ok_0, count: count->Ok_0 as i32 })
    }
}

/// What a JSON document decodes to as a page of records of type `T`.
///
/// The document is an object with the members `parameters`, `nhits` and
/// `records`, and with `start` where the page does not begin the dataset.
/// The records of the page are the valid ones among those that `records`
/// holds. The first member that cannot be read, in the order above with
/// `start` behind `nhits`, gives the error.
pub open spec fn response_model<T: OpenData>(document: Json) -> Result<ResponseModel<T::V>, DecodeError> {
    let parameters = match document.member("parameters"@) {
        None => Err(DecodeError::MissingField),
        Some(value) => parameters_model(value),
    };
    let total = required_integer(document, "nhits"@, i32::MIN as int, i32::MAX as int);
    let start = defaulted_integer(document, "start"@, i32::MIN as int, i32::MAX as int);
    let records = match document.member("records"@) {
        None => Err(DecodeError::MissingField),
        Some(Json::Array(items)) => records_model::<T>(items@),
        Some(_) => Err(DecodeError::InvalidType),
    };
    if !(document is Object) {
        Err(DecodeError::InvalidType)
    } else if parameters is Err {
        Err(parameters->Err_0)
    } else if total is Err {
        Err(total->Err_0)
    } else if start is Err {
        Err(start->Err_0)
    } else if records is Err {
        Err(records->Err_0)
    } else {
        Ok(
            ResponseModel {
                parameters: parameters->Ok_0,
                pagination: Pagination { total: total->Ok_0 as i32, start: start->Ok_0 as i32 },
                records: valid_records::<T>(records->Ok_0),
            },
        )
    }
}

/// What the body of a response decodes to as a page of records of type `T`.
pub open spec fn body_model<T: OpenData>(body: Seq<u8>) -> Result<ResponseModel<T::V>, DecodeError> {
    match json_document(body) {
        None => Err(DecodeError::Syntax),
        Some(document) => response_model::<T>(document),
    }
}

/// Decodes one element of `records`.
pub fn decode_record<T: OpenData>(item: &Json) -> (outcome: Result<Option<Record<T>>, DecodeError>)
    ensures
        match outcome {
            Ok(Some(record)) => record_model::<T>(*item) == Ok::<Option<RecordModel<T::V>>, DecodeError>(
                Some(record@),
            ),
            Ok(None) => record_model::<T>(*item) == Ok::<Option<RecordModel<T::V>>, DecodeError>(None),
            Err(e) => record_model::<T>(*item) == Err::<Option<RecordModel<T::V>>, DecodeError>(e),
        },
{
    match item {
        Json::Null => {
            return Ok(None);
        },
        Json::Object(_) => {},
        _ => {
            return Err(DecodeError::InvalidType);
        },
    }
    let id = text_at(item, "recordid")?;
    let inner = match item.get("fields") {
        None => {
            return Err(DecodeError::MissingField);
        },
        Some(fields) => T::from_fields(fields)?,
    };
    Ok(Some(Record { id, inner }))
}

/// Decodes the elements of `records`, valid or not.
pub fn decode_records<T: OpenData>(items: &Vec<Json>) -> (outcome: Result<Vec<Record<T>>, DecodeError>)
    ensures
        match outcome {
            Ok(records) => records_model::<T>(items@) == Ok::<Seq<RecordModel<T::V>>, DecodeError>(
                record_views(records@),
            ),
            Err(e) => records_model::<T>(items@) == Err::<Seq<RecordModel<T::V>>, DecodeError>(e),
        },
{
    let mut records: Vec<Record<T>> = Vec::new();
    let mut i: usize = 0;
    assert(items@.take(0) =~= Seq::empty());
    assert(record_views(records@) =~= Seq::empty());
    while i < items.len()
        invariant
            i <= items.len(),
            records_model::<T>(items@.take(i as int)) == Ok::<Seq<RecordModel<T::V>>, DecodeError>(
                record_views(records@),
            ),
        decreases items.len() - i,
    {
        let ghost before = records@;
        assert(items@.take(i + 1).drop_last() =~= items@.take(i as int));
        assert(items@.take(i + 1).last() == items@[i as int]);
        match decode_record::<T>(&items[i]) {
            Err(e) => {
                proof {
                    lemma_error_stays::<T>(items@, i + 1);
                }
                return Err(e);
            },
            Ok(None) => {},
            Ok(Some(record)) => {
                records.push(record);
                assert(record_views(records@) =~= record_views(before).push(record@));
            },
        }
        i = i + 1;
    }
    assert(items@.take(i as int) =~= items@);
    Ok(records)
}

/// Once the elements up to `n` cannot be decoded, no longer sequence can.
proof fn lemma_error_stays<T: OpenData>(items: Seq<Json>, n: int)
    requires
        0 <= n <= items.len(),
        records_model::<T>(items.take(n)) is Err,
    ensures
        records_model::<T>(items) == records_model::<T>(items.take(n)),
    decreases items.len(),
{
    if n == items.len() {
        assert(items.take(n) =~= items);
    } else {
        assert(items.drop_last().take(n) =~= items.take(n));
        lemma_error_stays::<T>(items.drop_last(), n);
    }
}

/// Keeps the records whose item is valid, in order, and drops the others.
pub fn deserialize_record<T: TestableRecord>(elements: Vec<Record<T>>) -> (kept: Vec<Record<T>>)
    ensures
        record_views(kept@) == valid_records::<T>(record_views(elements@)),
{
    let mut kept: Vec<Record<T>> = Vec::new();
    let ghost all = elements@;
    assert(record_views(all.take(0)) =~= Seq::empty());
    assert(record_views(kept@) =~= Seq::empty());
    proof {
        reveal(Seq::filter);
    }
    assert(valid_records::<T>(Seq::empty()) =~= Seq::empty());
    for record in it: elements.into_iter()
        invariant
            it.seq() == all,
            record_views(kept@) == valid_records::<T>(record_views(all.take(it.index() as int))),
    {
        let ghost before = kept@;
        let ghost seen = record_views(all.take(it.index() as int));
        proof {
            assert(all.take(it.index() + 1) =~= all.take(it.index() as int).push(record));
            assert(record_views(all.take(it.index() + 1)) =~= seen.push(record@));
            seen.lemma_filter_push(record@, is_valid_record::<T>());
        }
        if record.inner.is_valid() {
            kept.push(record);
            assert(record_views(kept@) =~= record_views(before).push(record@));
        }
    }
    assert(all.take(all.len() as int) =~= all);
    kept
}

/// Decodes the `parameters` of a response.
pub fn decode_parameters(value: &Json) -> (outcome: Result<Parameters, DecodeError>)
    ensures
        decoded(outcome, parameters_model(*value)),
{
    match value {
        Json::Object(_) => {},
        _ => {
            return Err(DecodeError::InvalidType);
        },
    }
    let timezone = text_at(value, "timezone")?;
    let count = integer_at(value, "rows", -2147483648, 2147483647)?;
    Ok(Parameters { timezone, count: count as i32 })
}

/// Decodes a JSON document into a page of records of type `T`.
pub fn decode_document<T: OpenData>(document: &Json) -> (outcome: Result<OpenDataResponse<T>, DecodeError>)
    ensures
        decoded(outcome, response_model::<T>(*document)),
{
    match document {
        Json::Object(_) => {},
        _ => {
            return Err(DecodeError::InvalidType);
        },
    }
    let parameters = match document.get("parameters") {
        None => {
            return Err(DecodeError::MissingField);
        },
        Some(value) => decode_parameters(value)?,
    };
    let total = integer_at(document, "nhits", -2147483648, 2147483647)?;
    let start = integer_or_zero_at(document, "start", -2147483648, 2147483647)?;
    let all = match document.get("records") {
        None => {
            return Err(DecodeError::MissingField);
        },
        Some(Json::Array(items)) => decode_records::<T>(items)?,
        Some(_) => {
            return Err(DecodeError::InvalidType);
        },
    };
    let records = deserialize_record(all);
    Ok(
        OpenDataResponse {
            parameters,
            pagination: Pagination { total: total as i32, start: start as i32 },
            records,
        },
    )
}

/// Decodes the body of a response into a page of records of type `T`.
pub fn decode_response<T: OpenData>(body: &[u8]) -> (outcome: Result<OpenDataResponse<T>, DecodeError>)
    ensures
        decoded(outcome, body_model::<T>(body@)),
{
    match parse(body) {
        None => Err(DecodeError::Syntax),
        Some(document) => decode_document(&document),
    }
}

/// Whether `record` is what one of `items` decodes to.
pub open spec fn decodes_to<T: OpenData>(items: Seq<Json>, record: RecordModel<T::V>) -> bool {
    exists|j: int|
        0 <= j < items.len() && record_model::<T>(#[trigger] items[j]) == Ok::<
            Option<RecordModel<T::V>>,
            DecodeError,
        >(Some(record))
}

/// Where all of `items` can be decoded, the records are those that the
/// items decode to, and no others.
proof fn lemma_records_model<T: OpenData>(items: Seq<Json>)
    requires
        records_model::<T>(items) is Ok,
    ensures
        forall|record: RecordModel<T::V>| #[trigger]
            (records_model::<T>(items)->Ok_0).contains(record) <==> decodes_to::<T>(items, record),
        forall|j: int| 0 <= j < items.len() ==> record_model::<T>(#[trigger] items[j]) is Ok,
    decreases items.len(),
{
    let all = records_model::<T>(items)->Ok_0;
    if items.len() == 0 {
        assert forall|record: RecordModel<T::V>| #[trigger]
            all.contains(record) <==> decodes_to::<T>(items, record) by {}
    } else {
        let front = items.drop_last();
        let before = records_model::<T>(front)->Ok_0;
        lemma_records_model::<T>(front);
        assert forall|j: int| 0 <= j < items.len() implies record_model::<T>(#[trigger] items[j]) is Ok by {
            if j < front.len() {
                assert(front[j] == items[j]);
            }
        }
        assert forall|record: RecordModel<T::V>| #[trigger]
            all.contains(record) <==> decodes_to::<T>(items, record) by {
            if all.contains(record) {
                let i = choose|i: int| 0 <= i < all.len() && all[i] == record;
                if i < before.len() {
                    assert(before[i] == record);
                    assert(before.contains(record));
                    let j = choose|j: int|
                        0 <= j < front.len() && record_model::<T>(#[trigger] front[j]) == Ok::<
                            Option<RecordModel<T::V>>,
                            DecodeError,
                        >(Some(record));
                    assert(items[j] == front[j]);
                } else {
                    assert(record_model::<T>(items[items.len() - 1]) == Ok::<
                        Option<RecordModel<T::V>>,
                        DecodeError,
                    >(Some(record)));
                }
            }
            if decodes_to::<T>(items, record) {
                let j = choose|j: int|
                    0 <= j < items.len() && record_model::<T>(#[trigger] items[j]) == Ok::<
                        Option<RecordModel<T::V>>,
                        DecodeError,
                    >(Some(record));
                if j < front.len() {
                    assert(front[j] == items[j]);
                    assert(decodes_to::<T>(front, record));
                    assert(before.contains(record));
                    let i = choose|i: int| 0 <= i < before.len() && before[i] == record;
                    assert(all[i] == record);
                } else {
                    assert(all[all.len() - 1] == record);
                }
            }
        }
    }
}

/// Decoding keeps every valid record as it is and drops every other one.
///
/// Of a document that decodes to `page`: each record of the page is valid,
/// and is what one element of `records` decodes to, with its identifier and
/// its item unchanged; and each record that an element of `records` decodes
/// to is among the records of the page if its item is valid.
pub proof fn page_keeps_the_valid_records<T: OpenData>(document: Json, page: ResponseModel<T::V>)
    requires
        response_model::<T>(document) == Ok::<ResponseModel<T::V>, DecodeError>(page),
    ensures
        document.member("records"@) matches Some(Json::Array(items)) && {
            &&& forall|i: int| 0 <= i < page.records.len() ==> T::valid((#[trigger] page.records[i]).inner)
            &&& forall|i: int|
                0 <= i < page.records.len() ==> decodes_to::<T>(items@, #[trigger] page.records[i])
            &&& forall|record: RecordModel<T::V>| #[trigger]
                decodes_to::<T>(items@, record) && T::valid(record.inner) ==> page.records.contains(
                    record,
                )
        },
{
    let items = document.member("records"@)->Some_0->Array_0;
    let all = records_model::<T>(items@)->Ok_0;
    let valid = is_valid_record::<T>();
    lemma_records_model::<T>(items@);
    assert(page.records == all.filter(valid));
    assert forall|i: int| 0 <= i < page.records.len() implies T::valid((#[trigger] page.records[i]).inner)
        && decodes_to::<T>(items@, page.records[i]) by {
        all.lemma_filter_pred(valid, i);
        assert(all.filter(valid).contains(page.records[i]));
        all.lemma_filter_contains_rev(valid, page.records[i]);
        assert(all.contains(page.records[i]));
    }
    assert forall|record: RecordModel<T::V>| #[trigger]
        decodes_to::<T>(items@, record) && T::valid(record.inner) implies page.records.contains(
        record,
    ) by {
        assert(all.contains(record));
        let i = choose|i: int| 0 <= i < all.len() && all[i] == record;
        all.lemma_filter_contains(valid, i);
    }
}

} // verus!
