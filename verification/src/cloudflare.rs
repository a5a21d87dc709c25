//! The data that travels to and from the Cloudflare API, and the calls that
//! this crate plans against it.

use vstd::prelude::*;
use vstd::string::StringExecFns;

verus! {

/// A DNS zone as the API lists it.
#[derive(Debug, PartialEq, Eq)]
pub struct Zone {
    pub name: String,
    pub id: String,
}

/// The mathematical content of a [`Zone`].
pub struct ZoneView {
    pub name: Seq<char>,
    pub id: Seq<char>,
}

impl View for Zone {
    type V = ZoneView;

    open spec fn view(&self) -> ZoneView {
        ZoneView { name: self.name@, id: self.id@ }
    }
}

impl Clone for Zone {
    fn clone(&self) -> (copy: Self)
        ensures
            copy@ == self@,
    {
        Zone { name: self.name.clone(), id: self.id.clone() }
    }
}

/// A DNS record. `id` is absent on a record that is about to be created and
/// present on one that the API returned.
#[derive(Debug, PartialEq, Eq)]
pub struct DnsRecord {
    pub name: String,
    pub content: String,
    pub id: Option<String>,
    pub type_: String,
}

/// The mathematical content of a [`DnsRecord`].
pub struct DnsRecordView {
    pub name: Seq<char>,
    pub content: Seq<char>,
    pub id: Option<Seq<char>>,
    pub type_: Seq<char>,
}

impl View for DnsRecord {
    type V = DnsRecordView;

    open spec fn view(&self) -> DnsRecordView {
        DnsRecordView {
            name: self.name@,
            content: self.content@,
            id: match self.id {
                Some(id) => Some(id@),
                None => None,
            },
            type_: self.type_@,
        }
    }
}

impl Clone for DnsRecord {
    fn clone(&self) -> (copy: Self)
        ensures
            copy@ == self@,
    {
        let id = match &self.id {
            Some(id) => Some(id.clone()),
            None => None,
        };
        DnsRecord {
            name: self.name.clone(),
            content: self.content.clone(),
            id,
            type_: self.type_.clone(),
        }
    }
}

/// What the API answers to a deletion: the id of the record that is gone.
#[derive(Debug, PartialEq, Eq)]
pub struct DnsRecordDelete {
    pub id: String,
}

impl View for DnsRecordDelete {
    type V = Seq<char>;

    open spec fn view(&self) -> Seq<char> {
        self.id@
    }
}

impl Clone for DnsRecordDelete {
    fn clone(&self) -> (copy: Self)
        ensures
            copy@ == self@,
    {
        DnsRecordDelete { id: self.id.clone() }
    }
}

/// The HTTP method of a call, with the body that a `Post` carries.
#[derive(Debug, PartialEq, Eq)]
pub enum Method {
    Get,
    Post { data: String },
    Delete,
}

/// The mathematical content of a [`Method`].
pub enum MethodView {
    Get,
    Post { data: Seq<char> },
    Delete,
}

impl View for Method {
    type V = MethodView;

    open spec fn view(&self) -> MethodView {
        match self {
            Method::Get => MethodView::Get,
            Method::Post { data } => MethodView::Post { data: data@ },
            Method::Delete => MethodView::Delete,
        }
    }
}

/// One call against the API that the caller is asked to perform: a method and
/// a route below the API's root.
#[derive(Debug, PartialEq, Eq)]
pub struct ApiCall {
    pub method: Method,
    pub route: String,
}

/// The mathematical content of an [`ApiCall`].
pub struct ApiCallView {
    pub method: MethodView,
    pub route: Seq<char>,
}

impl View for ApiCall {
    type V = ApiCallView;

    open spec fn view(&self) -> ApiCallView {
        ApiCallView { method: self.method@, route: self.route@ }
    }
}

/// The root under which every route of the API lives.
pub open spec fn api_base() -> Seq<char> {
    "https://api.cloudflare.com/client/v4/"@
}

/// The route that lists the account's zones.
pub open spec fn zones_route() -> Seq<char> {
    "zones"@
}

/// The route of the records of the zone `zone_id`: new records are posted to
/// it.
pub open spec fn records_route(zone_id: Seq<char>) -> Seq<char> {
    "zones/"@ + zone_id + "/dns_records"@
}

/// The route that lists the "A" records of the zone `zone_id`.
pub open spec fn a_records_route(zone_id: Seq<char>) -> Seq<char> {
    records_route(zone_id) + "?type=A"@
}

/// The route of the single record `record_id` of the zone `zone_id`.
pub open spec fn record_route(zone_id: Seq<char>, record_id: Seq<char>) -> Seq<char> {
    records_route(zone_id) + "/"@ + record_id
}

/// The call that lists the account's zones.
pub open spec fn list_zones_call() -> ApiCallView {
    ApiCallView { method: MethodView::Get, route: zones_route() }
}

/// The call that lists the "A" records of the zone `zone_id`.
pub open spec fn list_a_records_call(zone_id: Seq<char>) -> ApiCallView {
    ApiCallView { method: MethodView::Get, route: a_records_route(zone_id) }
}

/// The call that creates, in the zone `zone_id`, the record that `body` encodes.
pub open spec fn create_record_call(zone_id: Seq<char>, body: Seq<char>) -> ApiCallView {
    ApiCallView { method: MethodView::Post { data: body }, route: records_route(zone_id) }
}

/// The call that deletes the record `record_id` of the zone `zone_id`.
pub open spec fn delete_record_call(zone_id: Seq<char>, record_id: Seq<char>) -> ApiCallView {
    ApiCallView { method: MethodView::Delete, route: record_route(zone_id, record_id) }
}

/// The address of `api_route` below the API's root.
pub fn api_url(api_route: &str) -> (url: String)
    ensures
        url@ == api_base() + api_route@,
{
    let mut url = String::from_str("https://api.cloudflare.com/client/v4/");
    url.append(api_route);
    url
}

impl ApiCall {
    /// The call that lists the account's zones.
    pub fn list_zones() -> (call: ApiCall)
        ensures
            call@ == list_zones_call(),
    {
        ApiCall { method: Method::Get, route: String::from_str("zones") }
    }

    /// The call that lists the "A" records of `zone`.
    pub fn list_a_records(zone: &Zone) -> (call: ApiCall)
        ensures
            call@ == list_a_records_call(zone@.id),
    {
        let mut route = records_path(zone.id.as_str());
        route.append("?type=A");
        ApiCall { method: Method::Get, route }
    }

    /// The call that creates in `zone` the record that `body` encodes.
    pub fn create_record(zone: &Zone, body: String) -> (call: ApiCall)
        ensures
            call@ == create_record_call(zone@.id, body@),
    {
        ApiCall { method: Method::Post { data: body }, route: records_path(zone.id.as_str()) }
    }

    /// The call that deletes the record `record_id` of `zone`.
    pub fn delete_record(zone: &Zone, record_id: &str) -> (call: ApiCall)
        ensures
            call@ == delete_record_call(zone@.id, record_id@),
    {
        let mut route = records_path(zone.id.as_str());
        route.append("/");
        route.append(record_id);
        ApiCall { method: Method::Delete, route }
    }

    /// The full address that the call goes to.
    pub fn url(&self) -> (url: String)
        ensures
            url@ == api_base() + self@.route,
    {
        api_url(self.route.as_str())
    }
}

fn records_path(zone_id: &str) -> (route: String)
    ensures
        route@ == records_route(zone_id@),
{
    let mut route = String::from_str("zones/");
    route.append(zone_id);
    route.append("/dns_records");
    route
}

} // verus!
