//! The client: which request to send, and what to make of the answer.
//!
//! Nothing here touches the network. The caller sends the requests that the
//! client names and hands back the status and the body of each answer.

use crate::api::{
    LocationOpenData, OpenDataResponse, ResponseModel, StatusOpenData, TestableRecord,
    LOCATION_URL, STATUS_URL,
};
use crate::decode::{body_model, decode_response, page_keeps_the_valid_records, response_model};
use crate::deserialize::OpenData;
use crate::error::{ClientError, DecodeError};
use crate::json::json_document;
use crate::paginator::{Paginator, PaginatorModel};
use crate::runs::{
    awaited_after, collection_holds_every_page, events_of, merged_payloads, pages_of, result_of,
    run, run_computes_fetch_all, Outcome,
};
use vstd::prelude::*;
use vstd::string::StringExecFns;

verus! {

/// The name the client gives itself in the `User-Agent` header.
pub const USER_AGENT: &'static str = "strasbourgpark-rs";

/// Number of records asked for with each request of a whole dataset.
pub const PAGE_SIZE: u32 = 10;

/// The character of a decimal digit.
pub open spec fn digit_char(d: nat) -> char {
    if d == 0 {
        '0'
    } else if d == 1 {
        '1'
    } else if d == 2 {
        '2'
    } else if d == 3 {
        '3'
    } else if d == 4 {
        '4'
    } else if d == 5 {
        '5'
    } else if d == 6 {
        '6'
    } else if d == 7 {
        '7'
    } else if d == 8 {
        '8'
    } else {
        '9'
    }
}

/// A number written in decimal digits, without sign and leading zeros.
pub open spec fn decimal(n: nat) -> Seq<char>
    decreases n,
{
    if n < 10 {
        seq![digit_char(n)]
    } else {
        decimal(n / 10).push(digit_char(n % 10))
    }
}

/// The address a page is asked for at: the address of the dataset, then the
/// number of the first record as `start` and the number of records as
/// `rows`.
pub open spec fn page_address(base: Seq<char>, offset: nat, limit: nat) -> Seq<char> {
    base + "&start="@ + decimal(offset) + "&rows="@ + decimal(limit)
}

/// Whether an HTTP status says that the request succeeded.
pub open spec fn is_success(status: int) -> bool {
    200 <= status < 300
}

/// What the answer to a page request amounts to: `APIError` where the
/// status is not one of success, else the page that the body decodes to, or
/// the error of decoding it.
pub open spec fn page_outcome<T: OpenData>(status: u16, body: Seq<u8>) -> Result<
    ResponseModel<T::V>,
    ClientError,
> {
    if !is_success(status as int) {
        Err(ClientError::APIError)
    } else {
        match body_model::<T>(body) {
            Ok(page) => Ok(page),
            Err(e) => Err(ClientError::Serde(e)),
        }
    }
}

fn digit_text(d: u32) -> (text: &'static str)
    requires
        d < 10,
    ensures
        text@ == seq![digit_char(d as nat)],
{
    proof {
        reveal_strlit("0");
        reveal_strlit("1");
        reveal_strlit("2");
        reveal_strlit("3");
        reveal_strlit("4");
        reveal_strlit("5");
        reveal_strlit("6");
        reveal_strlit("7");
        reveal_strlit("8");
        reveal_strlit("9");
    }
    let text = if d == 0 {
        "0"
    } else if d == 1 {
        "1"
    } else if d == 2 {
        "2"
    } else if d == 3 {
        "3"
    } else if d == 4 {
        "4"
    } else if d == 5 {
        "5"
    } else if d == 6 {
        "6"
    } else if d == 7 {
        "7"
    } else if d == 8 {
        "8"
    } else {
        "9"
    };
    assert(text@ =~= seq![digit_char(d as nat)]);
    text
}

/// Writes a number in decimal digits.
pub fn decimal_text(n: u32) -> (text: String)
    ensures
        text@ == decimal(n as nat),
    decreases n,
{
    if n < 10 {
        String::from_str(digit_text(n))
    } else {
        let text = decimal_text(n / 10).concat(digit_text(n % 10));
        assert(text@ =~= decimal((n / 10) as nat).push(digit_char((n % 10) as nat)));
        text
    }
}

/// The address to ask at for `limit` records of a dataset from record
/// number `offset` on.
pub fn page_url(base: &str, offset: u32, limit: u32) -> (url: String)
    ensures
        url@ == page_address(base@, offset as nat, limit as nat),
{
    let mut url = String::from_str(base);
    url.append("&start=");
    let start = decimal_text(offset);
    url.append(start.as_str());
    url.append("&rows=");
    let rows = decimal_text(limit);
    url.append(rows.as_str());
    url
}

/// Whether an HTTP status says that the request succeeded.
pub fn status_is_success(status: u16) -> (ok: bool)
    ensures
        ok == is_success(status as int),
{
    200 <= status && status < 300
}

/// Makes a page, or an error, of the answer to a page request.
pub fn read_page<T: OpenData>(status: u16, body: &[u8]) -> (outcome: Result<OpenDataResponse<T>, ClientError>)
    ensures
        match outcome {
            Ok(page) => page_outcome::<T>(status, body@) == Ok::<
                ResponseModel<T::V>,
                ClientError,
            >(page@),
            Err(e) => page_outcome::<T>(status, body@) == Err::<
                ResponseModel<T::V>,
                ClientError,
            >(e),
        },
        is_answer(outcome),
{
    if !status_is_success(status) {
        return Err(ClientError::APIError);
    }
    match decode_response::<T>(body) {
        Ok(page) => Ok(page),
        Err(e) => Err(ClientError::Serde(e)),
    }
}

/// How the requests reach the server.
#[derive(Debug)]
pub enum Transport {
    /// Straight to the server.
    Direct,
    /// Through the proxy at this address.
    Proxy(String),
}

/// A `Client` allowing to download the location and status of the parking.
#[derive(Debug)]
pub struct Client {
    transport: Transport,
    pagination: u32,
}

impl Client {
    #[verifier::type_invariant]
    spec fn well_formed(self) -> bool {
        self.pagination > 0
    }

    /// The size the client asks for whole datasets with.
    pub closed spec fn page_size(self) -> u32 {
        self.pagination
    }

    /// The address of the proxy, if the client goes through one.
    pub closed spec fn proxy(self) -> Option<Seq<char>> {
        match self.transport {
            Transport::Direct => None,
            Transport::Proxy(address) => Some(address@),
        }
    }

    /// Create a new Client instance. It goes through the proxy at `proxy`
    /// where one is given, as the variable `https_proxy` of the system
    /// does, and straight to the server otherwise.
    pub fn new(proxy: Option<String>) -> (client: Client)
        ensures
            client.page_size() == PAGE_SIZE,
            client.proxy() == crate::api::optional_text(proxy),
    {
        let transport = match proxy {
            Some(address) => Transport::Proxy(address),
            None => Transport::Direct,
        };
        Client { transport, pagination: PAGE_SIZE }
    }

    /// How the requests of this client reach the server.
    pub fn transport(&self) -> (transport: &Transport)
        ensures
            match transport {
                Transport::Direct => self.proxy() is None,
                Transport::Proxy(address) => self.proxy() == Some(address@),
            },
    {
        &self.transport
    }

    /// The address of a page of location.
    pub fn fetch_locations(&self, offset: u32, limit: u32) -> (url: String)
        ensures
            url@ == page_address(LOCATION_URL@, offset as nat, limit as nat),
    {
        page_url(LOCATION_URL, offset, limit)
    }

    /// The address of a page of status.
    pub fn fetch_status(&self, offset: u32, limit: u32) -> (url: String)
        ensures
            url@ == page_address(STATUS_URL@, offset as nat, limit as nat),
    {
        page_url(STATUS_URL, offset, limit)
    }

    /// A fetch of all the locations, ready to start.
    pub fn fetch_all_locations(&self) -> (fetch: Paginator<LocationOpenData>)
        ensures
            fetch@ == PaginatorModel::<LocationOpenData>::initial(self.page_size()),
    {
        proof {
            use_type_invariant(self);
        }
        Paginator::new(self.pagination)
    }

    /// A fetch of all the status, ready to start.
    pub fn fetch_all_status(&self) -> (fetch: Paginator<StatusOpenData>)
        ensures
            fetch@ == PaginatorModel::<StatusOpenData>::initial(self.page_size()),
    {
        proof {
            use_type_invariant(self);
        }
        Paginator::new(self.pagination)
    }
}

/// Whether every item of `items` is valid.
pub open spec fn all_valid<T: TestableRecord>(items: Seq<T>) -> bool {
    forall|k: int| 0 <= k < items.len() ==> T::valid(#[trigger] items[k]@)
}

/// Whether `outcome`, where it is a page, is one that an answer decodes to:
/// there are a status and a body of which it is the page.
pub open spec fn is_answer<T: OpenData>(outcome: Outcome<T>) -> bool {
    outcome matches Ok(page) ==> exists|status: u16, body: Seq<u8>|
        #[trigger] page_outcome::<T>(status, body) == Ok::<ResponseModel<T::V>, ClientError>(page@)
}

/// The page that an answer decodes to holds valid items only.
pub proof fn answer_holds_valid_items<T: OpenData>(page: OpenDataResponse<T>)
    requires
        is_answer(Ok::<OpenDataResponse<T>, ClientError>(page)),
    ensures
        all_valid(page.payloads()),
{
    let (status, body) = choose|status: u16, body: Seq<u8>|
        #[trigger] page_outcome::<T>(status, body) == Ok::<ResponseModel<T::V>, ClientError>(page@);
    let document = json_document(body)->Some_0;
    assert(response_model::<T>(document) == Ok::<ResponseModel<T::V>, DecodeError>(page@));
    page_keeps_the_valid_records::<T>(document, page@);
    assert forall|k: int| 0 <= k < page.payloads().len() implies T::valid(
        #[trigger] page.payloads()[k]@,
    ) by {
        assert(page@.records[k].inner == page.records@[k].inner@);
    }
}

proof fn lemma_merged_valid<T: OpenData>(pages: Seq<OpenDataResponse<T>>)
    requires
        forall|j: int| 0 <= j < pages.len() ==> all_valid((#[trigger] pages[j]).payloads()),
    ensures
        all_valid(merged_payloads(pages)),
    decreases pages.len(),
{
    if pages.len() > 0 {
        lemma_merged_valid(pages.drop_last());
        assert(all_valid(pages[pages.len() - 1].payloads()));
    }
}

/// A whole fetch returns valid items only: where the first page and the
/// pages after it are what the answers of the server decode to, every item
/// of the collection that the paginator ends with is valid, so that a record
/// which the server sent without what makes it valid is in no collection.
/// Of status records this says that each one names its parking by an
/// identifier and a name that are not empty.
pub proof fn fetch_holds_valid_items<T: OpenData>(
    page_size: u32,
    first: Outcome<T>,
    arrivals: Seq<Outcome<T>>,
    items: Seq<T>,
)
    requires
        is_answer(first),
        forall|j: int| 0 <= j < arrivals.len() ==> is_answer(#[trigger] arrivals[j]),
        result_of(run(PaginatorModel::initial(page_size), events_of(first, arrivals)).1) == Some(
            Ok::<Seq<T>, ClientError>(items),
        ),
    ensures
        all_valid(items),
{
    run_computes_fetch_all(page_size, first, arrivals);
    match first {
        Err(_) => {},
        Ok(page) => {
            collection_holds_every_page(page_size, page, arrivals, items);
            answer_holds_valid_items(page);
            let awaited = awaited_after(page_size, page);
            let pages = pages_of(arrivals.take(awaited as int));
            assert forall|j: int| 0 <= j < pages.len() implies all_valid(
                (#[trigger] pages[j]).payloads(),
            ) by {
                assert(arrivals[j] is Ok);
                assert(arrivals[j] == Ok::<OpenDataResponse<T>, ClientError>(pages[j]));
                answer_holds_valid_items(pages[j]);
            }
            lemma_merged_valid(pages);
        },
    }
}

} // verus!
