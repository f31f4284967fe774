//! The Cloudflare API: DNS records and lists of addresses.
//!
//! Every operation is a run of requests and replies. A [`CloudflareState`] says
//! what the last request was for; [`CloudflareClient::next`] reads the reply and
//! says what comes next.

use crate::crypto::text_from_utf8;
use crate::crypto::text_result;
use crate::http::body_text;
use crate::http::is_success;
use crate::http::outcome_view;
use crate::http::pairs;
use crate::http::push_pair;
use crate::http::Body;
use crate::http::BodyView;
use crate::http::HttpReplyView;
use crate::http::HttpRequest;
use crate::http::HttpRequestView;
use crate::http::Method;
use crate::http::Outcome;
use crate::http::Pair;
use crate::json::arr_member;
use crate::json::find_in_items;
use crate::json::find_item;
use crate::json::get_array;
use crate::json::get_str;
use crate::json::get_true;
use crate::json::has_under;
use crate::json::json_array;
use crate::json::json_bool;
use crate::json::json_document;
use crate::json::json_number;
use crate::json::json_object;
use crate::json::json_set;
use crate::json::json_string;
use crate::json::json_text;
use crate::json::json_to_text;
use crate::json::json_view;
use crate::json::json_views;
use crate::json::law_members_are_read;
use crate::json::law_the_first_item_is_found;
use crate::json::parse_json;
use crate::json::says;
use crate::json::str_member;
use crate::json::true_member;
use crate::json::JsonView;
use crate::number::decimal;
use crate::number::decimal_text;
use crate::task::copy_opt_text;
use crate::task::IpListAction;
use crate::text::cat2;
use crate::text::cat3;
use crate::text::cat4;
use crate::text::cat5;
use crate::text::cat6;
use crate::text::cat7;
use crate::text::copy_text;
use crate::text::join;
use crate::text::join_texts;
use crate::text::lossy;
use crate::text::opt_text;
use crate::text::texts;
use vstd::prelude::*;
use vstd::slice::slice_to_vec;
use vstd::utf8::*;

verus! {

// ---------------------------------------------------------------------------
// Types
// ---------------------------------------------------------------------------

/// The credentials of an account: an API token, or the account's address with
/// its global key.
#[derive(Debug)]
pub struct CloudflareClient {
    pub token: String,
    pub email: Option<String>,
}

pub struct ClientView {
    pub token: Seq<char>,
    pub email: Option<Seq<char>>,
}

impl View for CloudflareClient {
    type V = ClientView;

    open spec fn view(&self) -> ClientView {
        ClientView { token: self.token@, email: opt_text(self.email) }
    }
}

impl Clone for CloudflareClient {
    fn clone(&self) -> (r: Self)
        ensures
            r@ == self@,
    {
        CloudflareClient { token: self.token.clone(), email: copy_opt_text(&self.email) }
    }
}

/// What a DNS record is to say.
#[derive(Debug)]
pub struct DnsUpdate {
    pub zone_id: String,
    pub record_name: String,
    pub record_type: String,
    pub content: String,
    pub proxied: bool,
    pub ttl: u32,
}

pub struct DnsUpdateView {
    pub zone_id: Seq<char>,
    pub record_name: Seq<char>,
    pub record_type: Seq<char>,
    pub content: Seq<char>,
    pub proxied: bool,
    pub ttl: u32,
}

impl View for DnsUpdate {
    type V = DnsUpdateView;

    open spec fn view(&self) -> DnsUpdateView {
        DnsUpdateView {
            zone_id: self.zone_id@,
            record_name: self.record_name@,
            record_type: self.record_type@,
            content: self.content@,
            proxied: self.proxied,
            ttl: self.ttl,
        }
    }
}

/// What is to be done to a list of addresses.
#[derive(Debug)]
pub struct ListEdit {
    pub account_id: String,
    pub ip: String,
    pub comment: String,
    pub action: IpListAction,
}

pub struct ListEditView {
    pub account_id: Seq<char>,
    pub ip: Seq<char>,
    pub comment: Seq<char>,
    pub action: IpListAction,
}

impl View for ListEdit {
    type V = ListEditView;

    open spec fn view(&self) -> ListEditView {
        ListEditView {
            account_id: self.account_id@,
            ip: self.ip@,
            comment: self.comment@,
            action: self.action,
        }
    }
}

/// What the last request of a run was for.
#[derive(Debug)]
pub enum CloudflareState {
    /// The identifier of the record to be updated.
    FindingRecord(DnsUpdate),
    UpdatingRecord,
    /// The identifier of the list with this name.
    FindingList { edit: ListEdit, list_name: String },
    /// The items of the list that an address is to be added to.
    ListingToAdd { edit: ListEdit, list_id: String },
    /// The items of the list that an address is to be removed from.
    ListingToRemove { edit: ListEdit, list_id: String },
    /// The removal of the item that is to be replaced.
    DeletingOld { edit: ListEdit, list_id: String },
    /// The removal of the item.
    Removing,
    /// The addition of the item.
    Adding(ListEdit),
    /// The replacement of all items.
    Replacing,
}

pub enum CloudflareStateView {
    FindingRecord(DnsUpdateView),
    UpdatingRecord,
    FindingList { edit: ListEditView, list_name: Seq<char> },
    ListingToAdd { edit: ListEditView, list_id: Seq<char> },
    ListingToRemove { edit: ListEditView, list_id: Seq<char> },
    DeletingOld { edit: ListEditView, list_id: Seq<char> },
    Removing,
    Adding(ListEditView),
    Replacing,
}

impl View for CloudflareState {
    type V = CloudflareStateView;

    open spec fn view(&self) -> CloudflareStateView {
        match *self {
            CloudflareState::FindingRecord(update) => CloudflareStateView::FindingRecord(update@),
            CloudflareState::UpdatingRecord => CloudflareStateView::UpdatingRecord,
            CloudflareState::FindingList { edit, list_name } => CloudflareStateView::FindingList {
                edit: edit@,
                list_name: list_name@,
            },
            CloudflareState::ListingToAdd { edit, list_id } => {
                CloudflareStateView::ListingToAdd { edit: edit@, list_id: list_id@ }
            },
            CloudflareState::ListingToRemove { edit, list_id } => {
                CloudflareStateView::ListingToRemove { edit: edit@, list_id: list_id@ }
            },
            CloudflareState::DeletingOld { edit, list_id } => CloudflareStateView::DeletingOld {
                edit: edit@,
                list_id: list_id@,
            },
            CloudflareState::Removing => CloudflareStateView::Removing,
            CloudflareState::Adding(edit) => CloudflareStateView::Adding(edit@),
            CloudflareState::Replacing => CloudflareStateView::Replacing,
        }
    }
}

/// What comes next in a run: another request, or the end. The log lines come
/// first.
#[derive(Debug)]
pub enum CloudflareStep {
    Send { log: Vec<String>, request: HttpRequest, state: CloudflareState },
    Done { log: Vec<String>, result: Result<bool, String> },
}

pub enum CloudflareStepView {
    Send { log: Seq<Seq<char>>, request: HttpRequestView, state: CloudflareStateView },
    Done { log: Seq<Seq<char>>, result: Result<bool, Seq<char>> },
}

/// The contents of the result of a run.
pub open spec fn bool_result(r: Result<bool, String>) -> Result<bool, Seq<char>> {
    match r {
        Ok(b) => Ok(b),
        Err(e) => Err(e@),
    }
}

impl View for CloudflareStep {
    type V = CloudflareStepView;

    open spec fn view(&self) -> CloudflareStepView {
        match *self {
            CloudflareStep::Send { log, request, state } => CloudflareStepView::Send {
                log: texts(log@),
                request: request@,
                state: state@,
            },
            CloudflareStep::Done { log, result } => CloudflareStepView::Done {
                log: texts(log@),
                result: bool_result(result),
            },
        }
    }
}

// ---------------------------------------------------------------------------
// Requests
// ---------------------------------------------------------------------------

/// The headers by which a client shows who it is.
pub open spec fn auth_headers(client: ClientView) -> Seq<(Seq<char>, Seq<char>)> {
    match client.email {
        Some(email) => seq![("X-Auth-Email"@, email), ("X-Auth-Key"@, client.token)],
        None => seq![("Authorization"@, "Bearer "@ + client.token)],
    }
}

/// A request without a body.
pub open spec fn get_request(client: ClientView, url: Seq<char>) -> HttpRequestView {
    HttpRequestView {
        method: Method::Get,
        url,
        headers: auth_headers(client),
        body: BodyView::Empty,
        timeout_secs: None,
    }
}

/// A request with a JSON body.
pub open spec fn json_request(
    client: ClientView,
    method: Method,
    url: Seq<char>,
    body: BodyView,
) -> HttpRequestView {
    HttpRequestView {
        method,
        url,
        headers: seq![("Content-Type"@, "application/json"@)] + auth_headers(client),
        body,
        timeout_secs: None,
    }
}

pub open spec fn record_url(zone_id: Seq<char>, record_id: Seq<char>) -> Seq<char> {
    "https://api.cloudflare.com/client/v4/zones/"@ + zone_id + "/dns_records/"@ + record_id
}

pub open spec fn record_search_url(
    zone_id: Seq<char>,
    record_type: Seq<char>,
    name: Seq<char>,
) -> Seq<char> {
    "https://api.cloudflare.com/client/v4/zones/"@ + zone_id + "/dns_records?type="@ + record_type
        + "&name="@ + name
}

pub open spec fn lists_url(account_id: Seq<char>) -> Seq<char> {
    "https://api.cloudflare.com/client/v4/accounts/"@ + account_id + "/rules/lists"@
}

pub open spec fn items_url(account_id: Seq<char>, list_id: Seq<char>) -> Seq<char> {
    "https://api.cloudflare.com/client/v4/accounts/"@ + account_id + "/rules/lists/"@ + list_id
        + "/items"@
}

/// A record, as it is told in an update.
pub open spec fn record_document(update: DnsUpdateView) -> JsonView {
    JsonView::Obj(
        map![
            "type"@ => JsonView::Str(update.record_type),
            "name"@ => JsonView::Str(update.record_name),
            "content"@ => JsonView::Str(update.content),
            "ttl"@ => JsonView::Number(decimal(update.ttl as nat)),
            "proxied"@ => JsonView::Bool(update.proxied),
        ],
    )
}

/// A list of one item: the address, with its comment if there is one.
pub open spec fn list_document(ip: Seq<char>, comment: Seq<char>) -> JsonView {
    JsonView::Arr(
        seq![
            JsonView::Obj(
                if comment.len() == 0 {
                    map!["ip"@ => JsonView::Str(ip)]
                } else {
                    map!["ip"@ => JsonView::Str(ip), "comment"@ => JsonView::Str(comment)]
                },
            ),
        ],
    )
}

/// The items to be removed from a list: one, by its identifier.
pub open spec fn removal_document(id: Seq<char>) -> JsonView {
    JsonView::Obj(
        map![
            "items"@ => JsonView::Arr(seq![JsonView::Obj(map!["id"@ => JsonView::Str(id)])]),
        ],
    )
}

/// The request that makes a record say something.
pub open spec fn update_record_request(
    client: ClientView,
    update: DnsUpdateView,
    record_id: Seq<char>,
) -> HttpRequestView {
    json_request(
        client,
        Method::Put,
        record_url(update.zone_id, record_id),
        BodyView::Json(record_document(update)),
    )
}

/// The request that adds an address to a list.
pub open spec fn add_request(
    client: ClientView,
    edit: ListEditView,
    list_id: Seq<char>,
) -> HttpRequestView {
    json_request(
        client,
        Method::Post,
        items_url(edit.account_id, list_id),
        BodyView::Json(list_document(edit.ip, edit.comment)),
    )
}

/// The request that makes an address the only one in a list.
pub open spec fn replace_request(
    client: ClientView,
    edit: ListEditView,
    list_id: Seq<char>,
) -> HttpRequestView {
    json_request(
        client,
        Method::Put,
        items_url(edit.account_id, list_id),
        BodyView::Json(list_document(edit.ip, edit.comment)),
    )
}

/// The request that removes an item from a list.
pub open spec fn delete_request(
    client: ClientView,
    account_id: Seq<char>,
    list_id: Seq<char>,
    item_id: Seq<char>,
) -> HttpRequestView {
    json_request(
        client,
        Method::Delete,
        items_url(account_id, list_id),
        BodyView::Json(removal_document(item_id)),
    )
}

impl CloudflareClient {
    /// A client that shows an API token.
    pub fn with_token(token: String) -> (r: Self)
        ensures
            r@ == (ClientView { token: token@, email: None }),
    {
        CloudflareClient { token, email: None }
    }

    /// A client that shows the account's address and its global key.
    pub fn with_global_key(email: String, key: String) -> (r: Self)
        ensures
            r@ == (ClientView { token: key@, email: Some(email@) }),
    {
        CloudflareClient { token: key, email: Some(email) }
    }

    /// Adds the headers by which the client shows who it is.
    fn push_auth_headers(&self, headers: &mut Vec<Pair>)
        ensures
            pairs(final(headers)@) == pairs(old(headers)@) + auth_headers(self@),
    {
        let ghost before = pairs(headers@);
        match &self.email {
            Some(email) => {
                push_pair(headers, "X-Auth-Email", email.as_str());
                push_pair(headers, "X-Auth-Key", self.token.as_str());
            },
            None => {
                let value = cat2("Bearer ", self.token.as_str());
                push_pair(headers, "Authorization", value.as_str());
            },
        }
        assert(pairs(headers@) =~= before + auth_headers(self@));
    }

    /// The headers by which the client shows who it is.
    pub fn auth_headers(&self) -> (r: Vec<Pair>)
        ensures
            pairs(r@) == auth_headers(self@),
    {
        let mut headers: Vec<Pair> = Vec::new();
        self.push_auth_headers(&mut headers);
        assert(pairs(headers@) =~= auth_headers(self@));
        headers
    }

    fn get_request(&self, url: String) -> (r: HttpRequest)
        ensures
            r@ == get_request(self@, url@),
    {
        HttpRequest {
            method: Method::Get,
            url,
            headers: self.auth_headers(),
            body: Body::Empty,
            timeout_secs: None,
        }
    }

    fn json_request(&self, method: Method, url: String, body: Body) -> (r: HttpRequest)
        ensures
            r@ == json_request(self@, method, url@, body@),
    {
        let mut headers: Vec<Pair> = Vec::new();
        push_pair(&mut headers, "Content-Type", "application/json");
        self.push_auth_headers(&mut headers);
        assert(pairs(headers@) =~= seq![("Content-Type"@, "application/json"@)] + auth_headers(
            self@,
        ));
        HttpRequest { method, url, headers, body, timeout_secs: None }
    }

    /// The request that makes a record say something.
    pub fn update_record_request(&self, update: &DnsUpdate, record_id: &str) -> (r: HttpRequest)
        ensures
            r@ == update_record_request(self@, update@, record_id@),
    {
        let url = cat4(
            "https://api.cloudflare.com/client/v4/zones/",
            update.zone_id.as_str(),
            "/dns_records/",
            record_id,
        );
        self.json_request(Method::Put, url, record_body(update))
    }

    /// The request that looks for a record.
    pub fn find_record_request(&self, update: &DnsUpdate) -> (r: HttpRequest)
        ensures
            r@ == get_request(
                self@,
                record_search_url(update@.zone_id, update@.record_type, update@.record_name),
            ),
    {
        let url = cat6(
            "https://api.cloudflare.com/client/v4/zones/",
            update.zone_id.as_str(),
            "/dns_records?type=",
            update.record_type.as_str(),
            "&name=",
            update.record_name.as_str(),
        );
        self.get_request(url)
    }

    /// The request for all lists of an account.
    pub fn find_list_request(&self, account_id: &str) -> (r: HttpRequest)
        ensures
            r@ == get_request(self@, lists_url(account_id@)),
    {
        let url = cat3(
            "https://api.cloudflare.com/client/v4/accounts/",
            account_id,
            "/rules/lists",
        );
        self.get_request(url)
    }

    /// The request for all items of a list.
    pub fn list_items_request(&self, account_id: &str, list_id: &str) -> (r: HttpRequest)
        ensures
            r@ == get_request(self@, items_url(account_id@, list_id@)),
    {
        self.get_request(items_url_text(account_id, list_id))
    }

    /// The request that adds an address to a list.
    pub fn add_request(&self, edit: &ListEdit, list_id: &str) -> (r: HttpRequest)
        ensures
            r@ == add_request(self@, edit@, list_id@),
    {
        let url = items_url_text(edit.account_id.as_str(), list_id);
        self.json_request(Method::Post, url, list_item_body(edit))
    }

    /// The request that makes an address the only one in a list.
    pub fn replace_request(&self, edit: &ListEdit, list_id: &str) -> (r: HttpRequest)
        ensures
            r@ == replace_request(self@, edit@, list_id@),
    {
        let url = items_url_text(edit.account_id.as_str(), list_id);
        self.json_request(Method::Put, url, list_item_body(edit))
    }

    /// The request that removes an item from a list.
    pub fn delete_request(&self, account_id: &str, list_id: &str, item_id: &str) -> (r: HttpRequest)
        ensures
            r@ == delete_request(self@, account_id@, list_id@, item_id@),
    {
        self.json_request(
            Method::Delete,
            items_url_text(account_id, list_id),
            removal_body(item_id),
        )
    }
}

fn items_url_text(account_id: &str, list_id: &str) -> (r: String)
    ensures
        r@ == items_url(account_id@, list_id@),
{
    cat5(
        "https://api.cloudflare.com/client/v4/accounts/",
        account_id,
        "/rules/lists/",
        list_id,
        "/items",
    )
}

/// A record, as it is told in an update.
fn record_body(update: &DnsUpdate) -> (r: Body)
    ensures
        r@ == BodyView::Json(record_document(update@)),
{
    let mut record = json_object();
    json_set(&mut record, "type", json_string(update.record_type.as_str()));
    json_set(&mut record, "name", json_string(update.record_name.as_str()));
    json_set(&mut record, "content", json_string(update.content.as_str()));
    json_set(&mut record, "ttl", json_number(update.ttl));
    json_set(&mut record, "proxied", json_bool(update.proxied));
    Body::Json(record)
}

/// An array of one value.
fn array_of_one(item: serde_json::Value) -> (r: serde_json::Value)
    ensures
        json_view(r) == JsonView::Arr(seq![json_view(item)]),
{
    let mut items: Vec<serde_json::Value> = Vec::new();
    items.push(item);
    assert(json_views(items@) =~= seq![json_view(item)]);
    json_array(items)
}

/// A list of one item: the address, with its comment if there is one.
fn list_item_body(edit: &ListEdit) -> (r: Body)
    ensures
        r@ == BodyView::Json(list_document(edit@.ip, edit@.comment)),
{
    let mut item = json_object();
    json_set(&mut item, "ip", json_string(edit.ip.as_str()));
    if !edit.comment.as_str().is_empty() {
        json_set(&mut item, "comment", json_string(edit.comment.as_str()));
    }
    Body::Json(array_of_one(item))
}

/// The items to be removed from a list: one, by its identifier.
fn removal_body(item_id: &str) -> (r: Body)
    ensures
        r@ == BodyView::Json(removal_document(item_id@)),
{
    let mut item = json_object();
    json_set(&mut item, "id", json_string(item_id));
    let mut document = json_object();
    json_set(&mut document, "items", array_of_one(item));
    Body::Json(document)
}

// ---------------------------------------------------------------------------
// Replies
// ---------------------------------------------------------------------------

/// The document in a reply. Without one, the error: that there is no reply, that
/// the reply is not a success (with `label` before its text), that it could not
/// be read, or that it is not JSON.
pub open spec fn reply_document(
    outcome: Result<HttpReplyView, Seq<char>>,
    label: Seq<char>,
) -> Result<JsonView, Seq<char>> {
    match outcome {
        Err(e) => Err(e),
        Ok(reply) => if !is_success(reply.status) {
            Err(label + body_text(reply))
        } else {
            match reply.body {
                Err(e) => Err(e),
                Ok(bytes) => if valid_utf8(bytes) && json_document(decode_utf8(bytes)) is Some {
                    Ok(json_document(decode_utf8(bytes))->0)
                } else {
                    Err("error decoding response body"@)
                },
            }
        },
    }
}

/// Whether the document in a reply says that the operation succeeded.
pub open spec fn success_reply(
    outcome: Result<HttpReplyView, Seq<char>>,
    label: Seq<char>,
) -> Result<bool, Seq<char>> {
    match reply_document(outcome, label) {
        Ok(doc) => Ok(true_member(doc, "success"@)),
        Err(e) => Err(e),
    }
}

/// The label of most errors of the API.
pub open spec fn api_error() -> Seq<char> {
    "Cloudflare API error: "@
}

/// The identifier of the first record that a document lists.
pub open spec fn record_id_in(doc: JsonView) -> Option<Seq<char>> {
    match arr_member(doc, "result"@) {
        Some(records) if records.len() > 0 => str_member(records[0], "id"@),
        _ => None,
    }
}

/// The identifier of the first record in a reply.
pub open spec fn record_id_reply(outcome: Result<HttpReplyView, Seq<char>>) -> Result<
    Option<Seq<char>>,
    Seq<char>,
> {
    match reply_document(outcome, api_error()) {
        Ok(doc) => Ok(record_id_in(doc)),
        Err(e) => Err(e),
    }
}

/// The texts of the errors that a document lists.
pub open spec fn listed_errors(doc: JsonView) -> Seq<char> {
    match arr_member(doc, "errors"@) {
        Some(errors) => join(errors.map_values(|e: JsonView| json_text(e)), ", "@),
        None => "Unknown error"@,
    }
}

/// What a document says of the update of a record.
pub open spec fn update_in(doc: JsonView) -> Result<bool, Seq<char>> {
    if true_member(doc, "success"@) {
        Ok(true)
    } else {
        Err("Cloudflare API returned errors: "@ + listed_errors(doc))
    }
}

/// What became of the update of a record.
pub open spec fn update_reply(outcome: Result<HttpReplyView, Seq<char>>) -> Result<
    bool,
    Seq<char>,
> {
    match reply_document(outcome, api_error()) {
        Ok(doc) => update_in(doc),
        Err(e) => Err(e),
    }
}

/// The identifier of the first entry that a document lists with a member that
/// says `wanted`.
pub open spec fn entry_id_in(doc: JsonView, key: Seq<char>, wanted: Seq<char>) -> Option<
    Seq<char>,
> {
    match arr_member(doc, "result"@) {
        Some(entries) => match find_item(entries, key, wanted, 0) {
            Some(i) => str_member(entries[i], "id"@),
            None => None,
        },
        None => None,
    }
}

/// The identifier of the first list with a name.
pub open spec fn list_id_reply(
    outcome: Result<HttpReplyView, Seq<char>>,
    list_name: Seq<char>,
) -> Result<Option<Seq<char>>, Seq<char>> {
    match reply_document(outcome, api_error()) {
        Ok(doc) => Ok(entry_id_in(doc, "name"@, list_name)),
        Err(e) => Err(e),
    }
}

/// The identifier of the item to be removed: that of the first item with the
/// address.
pub open spec fn item_to_remove(
    outcome: Result<HttpReplyView, Seq<char>>,
    ip: Seq<char>,
) -> Result<Seq<char>, Seq<char>> {
    match reply_document(outcome, api_error()) {
        Ok(doc) => match entry_id_in(doc, "ip"@, ip) {
            Some(id) => Ok(id),
            None => Err("IP "@ + ip + " not found in list"@),
        },
        Err(e) => Err(e),
    }
}

/// How an address gets into a list.
pub enum AdditionView {
    /// It is there already.
    Present,
    /// It takes the place of the item with this identifier.
    Replace(Seq<char>),
    /// It is added.
    Add,
}

/// How an address gets into a list with the items of a document: not at all where
/// the list has it; else in the place of the first item with the same comment, if
/// a comment is given and there is such an item; else as a new item.
pub open spec fn addition_in(doc: JsonView, ip: Seq<char>, comment: Seq<char>) -> Result<
    AdditionView,
    Seq<char>,
> {
    match arr_member(doc, "result"@) {
        Some(items) => if find_item(items, "ip"@, ip, 0) is Some {
            Ok(AdditionView::Present)
        } else if comment.len() == 0 {
            Ok(AdditionView::Add)
        } else {
            match find_item(items, "comment"@, comment, 0) {
                Some(i) => match str_member(items[i], "id"@) {
                    Some(id) if id.len() > 0 => Ok(AdditionView::Replace(id)),
                    _ => Err("Found matching comment but item has no ID"@),
                },
                None => Ok(AdditionView::Add),
            }
        },
        None => Ok(AdditionView::Add),
    }
}

/// How an address gets into a list, given the reply that tells its items.
pub open spec fn addition(
    outcome: Result<HttpReplyView, Seq<char>>,
    ip: Seq<char>,
    comment: Seq<char>,
) -> Result<AdditionView, Seq<char>> {
    match reply_document(outcome, "Cloudflare API error listing items: "@) {
        Ok(doc) => addition_in(doc, ip, comment),
        Err(e) => Err(e),
    }
}

/// How an address gets into a list.
#[derive(Debug)]
pub enum Addition {
    Present,
    Replace(String),
    Add,
}

impl View for Addition {
    type V = AdditionView;

    open spec fn view(&self) -> AdditionView {
        match *self {
            Addition::Present => AdditionView::Present,
            Addition::Replace(id) => AdditionView::Replace(id@),
            Addition::Add => AdditionView::Add,
        }
    }
}

/// The contents of a result that says how an address gets into a list.
pub open spec fn addition_result(r: Result<Addition, String>) -> Result<AdditionView, Seq<char>> {
    match r {
        Ok(a) => Ok(a@),
        Err(e) => Err(e@),
    }
}

/// The document in a reply.
fn document(outcome: &Outcome, label: &str) -> (r: Result<serde_json::Value, String>)
    ensures
        match r {
            Ok(value) => reply_document(outcome_view(*outcome), label@) == Ok::<
                JsonView,
                Seq<char>,
            >(json_view(value)),
            Err(e) => reply_document(outcome_view(*outcome), label@) == Err::<JsonView, Seq<char>>(
                e@,
            ),
        },
{
    match outcome {
        Err(e) => Err(e.clone()),
        Ok(reply) => {
            if !reply.is_success() {
                let text = reply.body_text();
                return Err(cat2(label, text.as_str()));
            }
            match &reply.body {
                Err(e) => Err(e.clone()),
                Ok(bytes) => match text_from_utf8(slice_to_vec(bytes.as_slice())) {
                    Ok(text) => match parse_json(text.as_str()) {
                        Some(value) => Ok(value),
                        None => Err(copy_text("error decoding response body")),
                    },
                    Err(_) => Err(copy_text("error decoding response body")),
                },
            }
        },
    }
}

/// The contents of a result that may hold a text.
pub open spec fn opt_text_result(r: Result<Option<String>, String>) -> Result<
    Option<Seq<char>>,
    Seq<char>,
> {
    match r {
        Ok(o) => Ok(opt_text(o)),
        Err(e) => Err(e@),
    }
}

impl CloudflareClient {
    /// Whether the document in a reply says that the operation succeeded.
    pub fn success_of(outcome: &Outcome, label: &str) -> (r: Result<bool, String>)
        ensures
            bool_result(r) == success_reply(outcome_view(*outcome), label@),
    {
        match document(outcome, label) {
            Ok(doc) => Ok(get_true(&doc, "success")),
            Err(e) => Err(e),
        }
    }

    /// What became of the addition of an address to a list.
    pub fn add_ip_to_list(outcome: &Outcome) -> (r: Result<bool, String>)
        ensures
            bool_result(r) == success_reply(outcome_view(*outcome), api_error()),
    {
        Self::success_of(outcome, "Cloudflare API error: ")
    }

    /// What became of the replacement of all items of a list.
    pub fn replace_ip_list_items(outcome: &Outcome) -> (r: Result<bool, String>)
        ensures
            bool_result(r) == success_reply(outcome_view(*outcome), api_error()),
    {
        Self::success_of(outcome, "Cloudflare API error: ")
    }

    /// The identifier of the first record that a document lists.
    pub fn record_id_in(doc: &serde_json::Value) -> (r: Option<String>)
        ensures
            opt_text(r) == record_id_in(json_view(*doc)),
    {
        if let Some(records) = get_array(doc, "result") {
            if records.len() > 0 {
                return match get_str(&records[0], "id") {
                    Some(id) => Some(copy_text(id)),
                    None => None,
                };
            }
        }
        None
    }

    /// The identifier of the first record in a reply.
    pub fn find_record_id(outcome: &Outcome) -> (r: Result<Option<String>, String>)
        ensures
            opt_text_result(r) == record_id_reply(outcome_view(*outcome)),
    {
        match document(outcome, "Cloudflare API error: ") {
            Ok(doc) => Ok(Self::record_id_in(&doc)),
            Err(e) => Err(e),
        }
    }

    /// What a document says of the update of a record.
    pub fn update_in(doc: &serde_json::Value) -> (r: Result<bool, String>)
        ensures
            bool_result(r) == update_in(json_view(*doc)),
    {
        if get_true(doc, "success") {
            return Ok(true);
        }
        let errors = match get_array(doc, "errors") {
            Some(errors) => {
                let mut list: Vec<String> = Vec::new();
                let mut i: usize = 0;
                while i < errors.len()
                    invariant
                        i <= errors@.len(),
                        list@.len() == i,
                        forall|j: int|
                            0 <= j < i ==> (#[trigger] list@[j])@ == json_text(
                                json_view(errors@[j]),
                            ),
                    decreases errors@.len() - i,
                {
                    list.push(json_to_text(&errors[i]));
                    i = i + 1;
                }
                assert(texts(list@) =~= json_views(errors@).map_values(
                    |e: JsonView| json_text(e),
                ));
                join_texts(&list, ", ")
            },
            None => copy_text("Unknown error"),
        };
        Err(cat2("Cloudflare API returned errors: ", errors.as_str()))
    }

    /// What became of the update of a record.
    pub fn update_dns_record(outcome: &Outcome) -> (r: Result<bool, String>)
        ensures
            bool_result(r) == update_reply(outcome_view(*outcome)),
    {
        match document(outcome, "Cloudflare API error: ") {
            Ok(doc) => Self::update_in(&doc),
            Err(e) => Err(e),
        }
    }

    /// The identifier of the first entry that a document lists with a member that
    /// says `wanted`.
    pub fn entry_id_in(doc: &serde_json::Value, key: &str, wanted: &str) -> (r: Option<String>)
        ensures
            opt_text(r) == entry_id_in(json_view(*doc), key@, wanted@),
    {
        if let Some(entries) = get_array(doc, "result") {
            if let Some(i) = find_in_items(entries, key, wanted) {
                return match get_str(&entries[i], "id") {
                    Some(id) => Some(copy_text(id)),
                    None => None,
                };
            }
        }
        None
    }

    /// The identifier of the first list with a name.
    pub fn find_ip_list_id(outcome: &Outcome, list_name: &str) -> (r: Result<
        Option<String>,
        String,
    >)
        ensures
            opt_text_result(r) == list_id_reply(outcome_view(*outcome), list_name@),
    {
        match document(outcome, "Cloudflare API error: ") {
            Ok(doc) => Ok(Self::entry_id_in(&doc, "name", list_name)),
            Err(e) => Err(e),
        }
    }

    /// The identifier of the item to be removed from a list.
    pub fn remove_ip_from_list(outcome: &Outcome, ip: &str) -> (r: Result<String, String>)
        ensures
            text_result(r) == item_to_remove(outcome_view(*outcome), ip@),
    {
        match document(outcome, "Cloudflare API error: ") {
            Ok(doc) => match Self::entry_id_in(&doc, "ip", ip) {
                Some(id) => Ok(id),
                None => Err(cat3("IP ", ip, " not found in list")),
            },
            Err(e) => Err(e),
        }
    }

    /// How an address gets into a list with the items of a document.
    pub fn addition_in(doc: &serde_json::Value, ip: &str, comment: &str) -> (r: Result<
        Addition,
        String,
    >)
        ensures
            addition_result(r) == addition_in(json_view(*doc), ip@, comment@),
    {
        if let Some(items) = get_array(doc, "result") {
            if find_in_items(items, "ip", ip).is_some() {
                return Ok(Addition::Present);
            }
            if !comment.is_empty() {
                if let Some(i) = find_in_items(items, "comment", comment) {
                    if let Some(id) = get_str(&items[i], "id") {
                        if !id.is_empty() {
                            return Ok(Addition::Replace(copy_text(id)));
                        }
                    }
                    return Err(copy_text("Found matching comment but item has no ID"));
                }
            }
        }
        Ok(Addition::Add)
    }

    /// How an address gets into a list, given the reply that tells its items.
    pub fn add_or_update_ip_by_comment(outcome: &Outcome, ip: &str, comment: &str) -> (r: Result<
        Addition,
        String,
    >)
        ensures
            addition_result(r) == addition(outcome_view(*outcome), ip@, comment@),
    {
        match document(outcome, "Cloudflare API error listing items: ") {
            Ok(doc) => Self::addition_in(&doc, ip, comment),
            Err(e) => Err(e),
        }
    }
}

// ---------------------------------------------------------------------------
// Runs
// ---------------------------------------------------------------------------

pub open spec fn update_log(update: DnsUpdateView) -> Seq<char> {
    "Cloudflare: updating "@ + update.record_type + " record '"@ + update.record_name
        + "' (zone: "@ + update.zone_id + ") to "@ + (update.content + " (TTL: "@ + decimal(
        update.ttl as nat,
    ) + ")"@)
}

/// The step that updates a record whose identifier is known.
pub open spec fn update_step(
    client: ClientView,
    update: DnsUpdateView,
    record_id: Seq<char>,
) -> CloudflareStepView {
    CloudflareStepView::Send {
        log: seq![update_log(update)],
        request: update_record_request(client, update, record_id),
        state: CloudflareStateView::UpdatingRecord,
    }
}

/// The first step of the update of a record: without an identifier the record is
/// looked for.
pub open spec fn dns_step(
    client: ClientView,
    update: DnsUpdateView,
    record_id: Seq<char>,
) -> CloudflareStepView {
    if record_id.len() == 0 {
        CloudflareStepView::Send {
            log: Seq::empty(),
            request: get_request(
                client,
                record_search_url(update.zone_id, update.record_type, update.record_name),
            ),
            state: CloudflareStateView::FindingRecord(update),
        }
    } else {
        update_step(client, update, record_id)
    }
}

pub open spec fn list_log(edit: ListEditView, list_id: Seq<char>) -> Seq<char> {
    let word = match edit.action {
        IpListAction::Add => "Adding"@,
        IpListAction::Remove => "Removing"@,
        IpListAction::ReplaceAll => "Replacing"@,
    };
    "Cloudflare IP List: "@ + word + " IP "@ + edit.ip + " to list "@ + list_id + (" (acct: "@
        + edit.account_id + ")"@)
}

/// The step that edits a list whose identifier is known.
pub open spec fn list_step(
    client: ClientView,
    edit: ListEditView,
    list_id: Seq<char>,
) -> CloudflareStepView {
    let log = seq![list_log(edit, list_id)];
    match edit.action {
        IpListAction::Add => CloudflareStepView::Send {
            log,
            request: get_request(client, items_url(edit.account_id, list_id)),
            state: CloudflareStateView::ListingToAdd { edit, list_id },
        },
        IpListAction::Remove => CloudflareStepView::Send {
            log,
            request: get_request(client, items_url(edit.account_id, list_id)),
            state: CloudflareStateView::ListingToRemove { edit, list_id },
        },
        IpListAction::ReplaceAll => CloudflareStepView::Send {
            log,
            request: replace_request(client, edit, list_id),
            state: CloudflareStateView::Replacing,
        },
    }
}

/// The first step of an edit of a list: without an identifier the list is looked
/// for by its name.
pub open spec fn list_start(
    client: ClientView,
    edit: ListEditView,
    list_id: Seq<char>,
    list_name: Seq<char>,
) -> CloudflareStepView {
    if list_id.len() > 0 {
        list_step(client, edit, list_id)
    } else if list_name.len() == 0 {
        failed("Either List ID or List Name must be provided"@)
    } else {
        CloudflareStepView::Send {
            log: Seq::empty(),
            request: get_request(client, lists_url(edit.account_id)),
            state: CloudflareStateView::FindingList { edit, list_name },
        }
    }
}

/// The end of a run with an error.
pub open spec fn failed(e: Seq<char>) -> CloudflareStepView {
    CloudflareStepView::Done { log: Seq::empty(), result: Err(e) }
}

/// The end of a run without more to say than its result.
pub open spec fn ended(result: Result<bool, Seq<char>>) -> CloudflareStepView {
    CloudflareStepView::Done { log: Seq::empty(), result }
}

/// What the log says of an address that was added.
pub open spec fn added_log(edit: ListEditView) -> Seq<char> {
    if edit.comment.len() > 0 {
        "Cloudflare IP List: added/updated IP "@ + edit.ip + " with comment '"@ + edit.comment
            + "'"@
    } else {
        "Cloudflare IP List: added new IP "@ + edit.ip + " (no comment)"@
    }
}

/// What comes after the reply to the last request.
pub open spec fn next_step(
    client: ClientView,
    state: CloudflareStateView,
    outcome: Result<HttpReplyView, Seq<char>>,
) -> CloudflareStepView {
    match state {
        CloudflareStateView::FindingRecord(update) => match record_id_reply(outcome) {
            Ok(Some(id)) => update_step(client, update, id),
            Ok(None) => failed(
                "Could not find "@ + update.record_type + " record '"@ + update.record_name
                    + "' in zone "@ + update.zone_id,
            ),
            Err(e) => failed(e),
        },
        CloudflareStateView::UpdatingRecord => ended(update_reply(outcome)),
        CloudflareStateView::FindingList { edit, list_name } => match list_id_reply(
            outcome,
            list_name,
        ) {
            Ok(Some(id)) => list_step(client, edit, id),
            Ok(None) => failed(
                "Could not find IP list named '"@ + list_name + "' in account "@
                    + edit.account_id,
            ),
            Err(e) => failed(e),
        },
        CloudflareStateView::ListingToAdd { edit, list_id } => match addition(
            outcome,
            edit.ip,
            edit.comment,
        ) {
            Ok(AdditionView::Present) => CloudflareStepView::Done {
                log: seq![
                    "Cloudflare IP List: IP "@ + edit.ip
                        + " already exists in list — no changes made"@,
                ],
                result: Ok(true),
            },
            Ok(AdditionView::Replace(id)) => CloudflareStepView::Send {
                log: Seq::empty(),
                request: delete_request(client, edit.account_id, list_id, id),
                state: CloudflareStateView::DeletingOld { edit, list_id },
            },
            Ok(AdditionView::Add) => CloudflareStepView::Send {
                log: Seq::empty(),
                request: add_request(client, edit, list_id),
                state: CloudflareStateView::Adding(edit),
            },
            Err(e) => failed(e),
        },
        CloudflareStateView::ListingToRemove { edit, list_id } => match item_to_remove(
            outcome,
            edit.ip,
        ) {
            Ok(id) => CloudflareStepView::Send {
                log: Seq::empty(),
                request: delete_request(client, edit.account_id, list_id, id),
                state: CloudflareStateView::Removing,
            },
            Err(e) => failed(e),
        },
        CloudflareStateView::DeletingOld { edit, list_id } => match success_reply(
            outcome,
            "Cloudflare API error deleting old item: "@,
        ) {
            Ok(true) => CloudflareStepView::Send {
                log: Seq::empty(),
                request: add_request(client, edit, list_id),
                state: CloudflareStateView::Adding(edit),
            },
            Ok(false) => failed("Failed to delete old item before updating"@),
            Err(e) => failed(e),
        },
        CloudflareStateView::Removing => ended(success_reply(outcome, api_error())),
        CloudflareStateView::Adding(edit) => match success_reply(outcome, api_error()) {
            Ok(ok) => CloudflareStepView::Done { log: seq![added_log(edit)], result: Ok(ok) },
            Err(e) => failed(e),
        },
        CloudflareStateView::Replacing => ended(success_reply(outcome, api_error())),
    }
}

/// A list of one line.
fn one_line(line: String) -> (r: Vec<String>)
    ensures
        texts(r@) == seq![line@],
{
    let mut r: Vec<String> = Vec::new();
    r.push(line);
    assert(texts(r@) =~= seq![line@]);
    r
}

/// The end of a run with an error.
fn fail(e: String) -> (r: CloudflareStep)
    ensures
        r@ == failed(e@),
{
    let log: Vec<String> = Vec::new();
    assert(texts(log@) =~= Seq::<Seq<char>>::empty());
    CloudflareStep::Done { log, result: Err(e) }
}

/// The end of a run without more to say than its result.
fn end(result: Result<bool, String>) -> (r: CloudflareStep)
    ensures
        r@ == ended(bool_result(result)),
{
    let log: Vec<String> = Vec::new();
    assert(texts(log@) =~= Seq::<Seq<char>>::empty());
    CloudflareStep::Done { log, result }
}

/// A request, with nothing to log.
fn send(request: HttpRequest, state: CloudflareState) -> (r: CloudflareStep)
    ensures
        r@ == (CloudflareStepView::Send {
            log: Seq::empty(),
            request: request@,
            state: state@,
        }),
{
    let log: Vec<String> = Vec::new();
    assert(texts(log@) =~= Seq::<Seq<char>>::empty());
    CloudflareStep::Send { log, request, state }
}

impl CloudflareClient {
    /// The step that updates a record whose identifier is known.
    fn update_step(&self, update: DnsUpdate, record_id: &str) -> (r: CloudflareStep)
        ensures
            r@ == update_step(self@, update@, record_id@),
    {
        let ttl = decimal_text(update.ttl as u64);
        let front = cat7(
            "Cloudflare: updating ",
            update.record_type.as_str(),
            " record '",
            update.record_name.as_str(),
            "' (zone: ",
            update.zone_id.as_str(),
            ") to ",
        );
        let back = cat4(update.content.as_str(), " (TTL: ", ttl.as_str(), ")");
        CloudflareStep::Send {
            log: one_line(cat2(front.as_str(), back.as_str())),
            request: self.update_record_request(&update, record_id),
            state: CloudflareState::UpdatingRecord,
        }
    }

    /// The first step of the update of a record.
    pub fn start_dns(&self, update: DnsUpdate, record_id: &str) -> (r: CloudflareStep)
        ensures
            r@ == dns_step(self@, update@, record_id@),
    {
        if record_id.is_empty() {
            let request = self.find_record_request(&update);
            send(request, CloudflareState::FindingRecord(update))
        } else {
            self.update_step(update, record_id)
        }
    }

    /// The step that edits a list whose identifier is known.
    fn list_step(&self, edit: ListEdit, list_id: String) -> (r: CloudflareStep)
        ensures
            r@ == list_step(self@, edit@, list_id@),
    {
        let word = match edit.action {
            IpListAction::Add => "Adding",
            IpListAction::Remove => "Removing",
            IpListAction::ReplaceAll => "Replacing",
        };
        let front = cat6(
            "Cloudflare IP List: ",
            word,
            " IP ",
            edit.ip.as_str(),
            " to list ",
            list_id.as_str(),
        );
        let back = cat3(" (acct: ", edit.account_id.as_str(), ")");
        let log = one_line(cat2(front.as_str(), back.as_str()));
        match edit.action {
            IpListAction::Add => {
                let request = self.list_items_request(edit.account_id.as_str(), list_id.as_str());
                CloudflareStep::Send {
                    log,
                    request,
                    state: CloudflareState::ListingToAdd { edit, list_id },
                }
            },
            IpListAction::Remove => {
                let request = self.list_items_request(edit.account_id.as_str(), list_id.as_str());
                CloudflareStep::Send {
                    log,
                    request,
                    state: CloudflareState::ListingToRemove { edit, list_id },
                }
            },
            IpListAction::ReplaceAll => {
                let request = self.replace_request(&edit, list_id.as_str());
                CloudflareStep::Send { log, request, state: CloudflareState::Replacing }
            },
        }
    }

    /// The first step of an edit of a list.
    pub fn start_list(&self, edit: ListEdit, list_id: String, list_name: String) -> (r:
        CloudflareStep)
        ensures
            r@ == list_start(self@, edit@, list_id@, list_name@),
    {
        if !list_id.as_str().is_empty() {
            self.list_step(edit, list_id)
        } else if list_name.as_str().is_empty() {
            fail(copy_text("Either List ID or List Name must be provided"))
        } else {
            let request = self.find_list_request(edit.account_id.as_str());
            send(request, CloudflareState::FindingList { edit, list_name })
        }
    }

    /// What comes after the reply to the last request.
    pub fn next(&self, state: CloudflareState, outcome: &Outcome) -> (r: CloudflareStep)
        ensures
            r@ == next_step(self@, state@, outcome_view(*outcome)),
    {
        match state {
            CloudflareState::FindingRecord(update) => match Self::find_record_id(outcome) {
                Ok(Some(id)) => self.update_step(update, id.as_str()),
                Ok(None) => fail(
                    cat6(
                        "Could not find ",
                        update.record_type.as_str(),
                        " record '",
                        update.record_name.as_str(),
                        "' in zone ",
                        update.zone_id.as_str(),
                    ),
                ),
                Err(e) => fail(e),
            },
            CloudflareState::UpdatingRecord => end(Self::update_dns_record(outcome)),
            CloudflareState::FindingList { edit, list_name } => match Self::find_ip_list_id(
                outcome,
                list_name.as_str(),
            ) {
                Ok(Some(id)) => self.list_step(edit, id),
                Ok(None) => fail(
                    cat4(
                        "Could not find IP list named '",
                        list_name.as_str(),
                        "' in account ",
                        edit.account_id.as_str(),
                    ),
                ),
                Err(e) => fail(e),
            },
            CloudflareState::ListingToAdd { edit, list_id } => {
                match Self::add_or_update_ip_by_comment(
                    outcome,
                    edit.ip.as_str(),
                    edit.comment.as_str(),
                ) {
                    Ok(Addition::Present) => CloudflareStep::Done {
                        log: one_line(
                            cat3(
                                "Cloudflare IP List: IP ",
                                edit.ip.as_str(),
                                " already exists in list — no changes made",
                            ),
                        ),
                        result: Ok(true),
                    },
                    Ok(Addition::Replace(id)) => {
                        let request = self.delete_request(
                            edit.account_id.as_str(),
                            list_id.as_str(),
                            id.as_str(),
                        );
                        send(request, CloudflareState::DeletingOld { edit, list_id })
                    },
                    Ok(Addition::Add) => {
                        let request = self.add_request(&edit, list_id.as_str());
                        send(request, CloudflareState::Adding(edit))
                    },
                    Err(e) => fail(e),
                }
            },
            CloudflareState::ListingToRemove { edit, list_id } => {
                match Self::remove_ip_from_list(outcome, edit.ip.as_str()) {
                    Ok(id) => {
                        let request = self.delete_request(
                            edit.account_id.as_str(),
                            list_id.as_str(),
                            id.as_str(),
                        );
                        send(request, CloudflareState::Removing)
                    },
                    Err(e) => fail(e),
                }
            },
            CloudflareState::DeletingOld { edit, list_id } => match Self::success_of(
                outcome,
                "Cloudflare API error deleting old item: ",
            ) {
                Ok(true) => {
                    let request = self.add_request(&edit, list_id.as_str());
                    send(request, CloudflareState::Adding(edit))
                },
                Ok(false) => fail(copy_text("Failed to delete old item before updating")),
                Err(e) => fail(e),
            },
            CloudflareState::Removing => end(Self::success_of(outcome, "Cloudflare API error: ")),
            CloudflareState::Adding(edit) => match Self::add_ip_to_list(outcome) {
                Ok(ok) => {
                    let line = if !edit.comment.as_str().is_empty() {
                        cat5(
                            "Cloudflare IP List: added/updated IP ",
                            edit.ip.as_str(),
                            " with comment '",
                            edit.comment.as_str(),
                            "'",
                        )
                    } else {
                        cat3(
                            "Cloudflare IP List: added new IP ",
                            edit.ip.as_str(),
                            " (no comment)",
                        )
                    };
                    CloudflareStep::Done { log: one_line(line), result: Ok(ok) }
                },
                Err(e) => fail(e),
            },
            CloudflareState::Replacing => end(Self::replace_ip_list_items(outcome)),
        }
    }
}

// ---------------------------------------------------------------------------
// Laws
// ---------------------------------------------------------------------------

/// The requests that a state can still ask for, at most.
pub open spec fn requests_left(state: CloudflareStateView) -> nat {
    match state {
        CloudflareStateView::FindingRecord(_) => 1,
        CloudflareStateView::UpdatingRecord => 0,
        CloudflareStateView::FindingList { .. } => 3,
        CloudflareStateView::ListingToAdd { .. } => 2,
        CloudflareStateView::ListingToRemove { .. } => 1,
        CloudflareStateView::DeletingOld { .. } => 1,
        CloudflareStateView::Removing => 0,
        CloudflareStateView::Adding(_) => 0,
        CloudflareStateView::Replacing => 0,
    }
}

/// Every run ends: whatever the reply, what is left to ask for becomes less.
pub proof fn law_runs_end(
    client: ClientView,
    state: CloudflareStateView,
    outcome: Result<HttpReplyView, Seq<char>>,
)
    ensures
        next_step(client, state, outcome) matches CloudflareStepView::Send { state: next, .. }
            ==> requests_left(next) < requests_left(state),
{
}

/// An address that its list already holds is not added again: the run ends
/// there, successfully and without another request.
pub proof fn law_present_address_is_left(
    client: ClientView,
    edit: ListEditView,
    list_id: Seq<char>,
    outcome: Result<HttpReplyView, Seq<char>>,
    items: Seq<JsonView>,
    i: int,
)
    requires
        reply_document(outcome, "Cloudflare API error listing items: "@) matches Ok(doc)
            && arr_member(doc, "result"@) == Some(items),
        0 <= i < items.len(),
        str_member(items[i], "ip"@) == Some(edit.ip),
    ensures
        next_step(
            client,
            CloudflareStateView::ListingToAdd { edit, list_id },
            outcome,
        ) matches CloudflareStepView::Done { result, .. } && result == Ok::<bool, Seq<char>>(true),
{
    lemma_find_item(items, "ip"@, edit.ip, 0, i);
}

/// An item that is there is found.
proof fn lemma_find_item(
    items: Seq<JsonView>,
    key: Seq<char>,
    wanted: Seq<char>,
    from: int,
    i: int,
)
    requires
        0 <= from <= i < items.len(),
        str_member(items[i], key) == Some(wanted),
    ensures
        find_item(items, key, wanted, from) is Some,
    decreases i - from,
{
    if str_member(items[from], key) != Some(wanted) {
        lemma_find_item(items, key, wanted, from + 1, i);
    }
}

/// The item whose comment is the one given, and which the address replaces, is
/// removed before the address is added, and only where its removal succeeded.
pub proof fn law_replaced_item_goes_first(
    client: ClientView,
    edit: ListEditView,
    list_id: Seq<char>,
    outcome: Result<HttpReplyView, Seq<char>>,
)
    ensures
        addition(outcome, edit.ip, edit.comment) matches Ok(AdditionView::Replace(id)) ==> next_step(
            client,
            CloudflareStateView::ListingToAdd { edit, list_id },
            outcome,
        ) == (CloudflareStepView::Send {
            log: Seq::empty(),
            request: delete_request(client, edit.account_id, list_id, id),
            state: CloudflareStateView::DeletingOld { edit, list_id },
        }),
        next_step(client, CloudflareStateView::DeletingOld { edit, list_id }, outcome) matches
            CloudflareStepView::Send { request, .. } ==> request == add_request(
            client,
            edit,
            list_id,
        ) && success_reply(outcome, "Cloudflare API error deleting old item: "@) == Ok::<
            bool,
            Seq<char>,
        >(true),
{
}

/// Whether a reply came with a status between 200 and 299 and a body that is a JSON
/// document.
pub open spec fn tells(outcome: Result<HttpReplyView, Seq<char>>, doc: JsonView) -> bool {
    outcome matches Ok(reply) && 200 <= reply.status <= 299 && (reply.body matches Ok(bytes)
        && valid_utf8(bytes) && json_document(decode_utf8(bytes)) == Some(doc))
}

/// Whether a request names the account: by its address and key, or by its token alone.
/// A JSON document is announced as such; nothing else stands in the headers.
pub open spec fn is_signed(request: HttpRequestView, client: ClientView) -> bool {
    let named = match client.email {
        Some(email) => seq![("X-Auth-Email"@, email), ("X-Auth-Key"@, client.token)],
        None => seq![("Authorization"@, "Bearer "@ + client.token)],
    };
    &&& request.timeout_secs is None
    &&& request.body is Empty ==> request.headers == named
    &&& request.body is Json ==> request.headers == seq![("Content-Type"@, "application/json"@)]
        + named
}

/// Whether a request asks for something, without a body.
pub open spec fn asks_for(request: HttpRequestView, client: ClientView, url: Seq<char>) -> bool {
    &&& request.method == Method::Get
    &&& request.url == url
    &&& request.body is Empty
    &&& is_signed(request, client)
}

/// Whether a request sends a JSON document.
pub open spec fn sends(
    request: HttpRequestView,
    client: ClientView,
    method: Method,
    url: Seq<char>,
    doc: JsonView,
) -> bool {
    &&& request.method == method
    &&& request.url == url
    &&& request.body == BodyView::Json(doc)
    &&& is_signed(request, client)
}

/// Whether a document is a record with a type, a name, a content, a time to live and
/// the word whether it is proxied, and nothing more.
pub open spec fn is_record(doc: JsonView, update: DnsUpdateView) -> bool {
    &&& says(doc, "type"@, update.record_type)
    &&& says(doc, "name"@, update.record_name)
    &&& says(doc, "content"@, update.content)
    &&& has_under(doc, "ttl"@, JsonView::Number(decimal(update.ttl as nat)))
    &&& has_under(doc, "proxied"@, JsonView::Bool(update.proxied))
    &&& doc matches JsonView::Obj(members) && forall|key: Seq<char>|
        #[trigger] members.dom().contains(key) ==> key == "type"@ || key == "name"@ || key
            == "content"@ || key == "ttl"@ || key == "proxied"@
}

/// Whether a document is a list of one item: an address, with a comment unless that is
/// empty.
pub open spec fn is_list_of(doc: JsonView, ip: Seq<char>, comment: Seq<char>) -> bool {
    doc matches JsonView::Arr(items) && items.len() == 1 && says(items[0], "ip"@, ip) && (
    comment.len() > 0 ==> says(items[0], "comment"@, comment)) && (items[0] matches JsonView::Obj(
        members,
    ) && forall|key: Seq<char>|
        #[trigger] members.dom().contains(key) ==> key == "ip"@ || (key == "comment"@
            && comment.len() > 0))
}

/// Whether a document names one item that is to go, by its identifier.
pub open spec fn is_removal_of(doc: JsonView, id: Seq<char>) -> bool {
    exists|item: JsonView|
        has_under(doc, "items"@, JsonView::Arr(seq![item])) && #[trigger] says(item, "id"@, id)
}

/// Whether a step tells the log of the update of a record and sends the update to the
/// record with an identifier.
pub open spec fn updates(
    step: CloudflareStepView,
    client: ClientView,
    update: DnsUpdateView,
    id: Seq<char>,
) -> bool {
    step matches CloudflareStepView::Send { log, request, state } && state
        == CloudflareStateView::UpdatingRecord && log.len() == 1 && log[0]
        == "Cloudflare: updating "@ + update.record_type + " record '"@ + update.record_name
        + "' (zone: "@ + update.zone_id + ") to "@ + update.content + " (TTL: "@ + decimal(
        update.ttl as nat,
    ) + ")"@ && exists|doc: JsonView|
        #[trigger] is_record(doc, update) && sends(
            request,
            client,
            Method::Put,
            "https://api.cloudflare.com/client/v4/zones/"@ + update.zone_id + "/dns_records/"@ + id,
            doc,
        )
}

/// Whether a step ends a run with an error.
pub open spec fn fails_with(step: CloudflareStepView, error: Seq<char>) -> bool {
    step matches CloudflareStepView::Done { log, result } && log.len() == 0 && result == Err::<
        bool,
        Seq<char>,
    >(error)
}

/// A step that updates a record does so.
proof fn lemma_updates(client: ClientView, update: DnsUpdateView, id: Seq<char>)
    ensures
        updates(update_step(client, update, id), client, update, id),
{
    let doc = record_document(update);
    reveal_strlit("type");
    reveal_strlit("name");
    reveal_strlit("content");
    reveal_strlit("ttl");
    reveal_strlit("proxied");
    assert("type"@.len() == 4 && "name"@.len() == 4 && "type"@[0] == 't' && "name"@[0] == 'n');
    assert("content"@.len() == 7 && "ttl"@.len() == 3 && "proxied"@.len() == 7 && "content"@[0]
        == 'c' && "proxied"@[0] == 'p');
    assert("type"@ != "name"@ && "content"@ != "proxied"@);
    assert(is_record(doc, update));
    let request = update_record_request(client, update, id);
    let url = "https://api.cloudflare.com/client/v4/zones/"@ + update.zone_id + "/dns_records/"@
        + id;
    assert(sends(request, client, Method::Put, url, doc));
    assert(update_log(update) =~= "Cloudflare: updating "@ + update.record_type + " record '"@
        + update.record_name + "' (zone: "@ + update.zone_id + ") to "@ + update.content
        + " (TTL: "@ + decimal(update.ttl as nat) + ")"@);
}

/// A record whose identifier is given is updated at once.
pub proof fn law_a_known_record_is_updated(
    client: ClientView,
    update: DnsUpdateView,
    record_id: Seq<char>,
)
    requires
        record_id.len() > 0,
    ensures
        updates(dns_step(client, update, record_id), client, update, record_id),
{
    lemma_updates(client, update, record_id);
}

/// A record without an identifier is looked for by its type and its name in its zone.
pub proof fn law_a_record_is_looked_for(client: ClientView, update: DnsUpdateView)
    ensures
        dns_step(client, update, Seq::empty()) matches CloudflareStepView::Send {
            log,
            request,
            state,
        } && log.len() == 0 && state == CloudflareStateView::FindingRecord(update) && asks_for(
            request,
            client,
            "https://api.cloudflare.com/client/v4/zones/"@ + update.zone_id
                + "/dns_records?type="@ + update.record_type + "&name="@ + update.record_name,
        ),
{
}

/// Of the records that are found, the first is updated: by the identifier that it has.
/// Where it has none, or no record is found, the run fails and says what was looked
/// for.
pub proof fn law_the_first_record_is_updated(
    client: ClientView,
    update: DnsUpdateView,
    outcome: Result<HttpReplyView, Seq<char>>,
    doc: JsonView,
    id: Seq<char>,
)
    requires
        tells(outcome, doc),
    ensures
        (exists|records: Seq<JsonView>|
            #[trigger] has_under(doc, "result"@, JsonView::Arr(records)) && records.len() > 0
                && says(records[0], "id"@, id)) ==> updates(
            next_step(client, CloudflareStateView::FindingRecord(update), outcome),
            client,
            update,
            id,
        ),
        (forall|records: Seq<JsonView>, other: Seq<char>|
            #[trigger] has_under(doc, "result"@, JsonView::Arr(records)) && records.len() > 0
                ==> !#[trigger] says(records[0], "id"@, other)) ==> fails_with(
            next_step(client, CloudflareStateView::FindingRecord(update), outcome),
            "Could not find "@ + update.record_type + " record '"@ + update.record_name
                + "' in zone "@ + update.zone_id,
        ),
{
    lemma_updates(client, update, id);
    if let Some(records) = arr_member(doc, "result"@) {
        law_members_are_read(doc, "result"@, id, records);
        if records.len() > 0 {
            law_members_are_read(records[0], "id"@, id, records);
            if let Some(other) = str_member(records[0], "id"@) {
                assert(has_under(doc, "result"@, JsonView::Arr(records)));
                assert(says(records[0], "id"@, other));
            }
        }
    }
}

/// The update of a record succeeds if and only if the reply says so; otherwise the
/// errors that it lists are told, one behind the other.
pub proof fn law_an_update_is_answered(
    client: ClientView,
    outcome: Result<HttpReplyView, Seq<char>>,
    doc: JsonView,
    errors: Seq<JsonView>,
    told: Seq<Seq<char>>,
)
    requires
        tells(outcome, doc),
        told.len() == errors.len(),
        forall|i: int| 0 <= i < told.len() ==> #[trigger] told[i] == json_text(errors[i]),
    ensures
        ({
            let step = next_step(client, CloudflareStateView::UpdatingRecord, outcome);
            &&& has_under(doc, "success"@, JsonView::Bool(true)) ==> step == (
            CloudflareStepView::Done { log: Seq::empty(), result: Ok(true) })
            &&& !has_under(doc, "success"@, JsonView::Bool(true)) && has_under(
                doc,
                "errors"@,
                JsonView::Arr(errors),
            ) ==> fails_with(step, "Cloudflare API returned errors: "@ + join(told, ", "@))
            &&& !has_under(doc, "success"@, JsonView::Bool(true)) && (forall|any: Seq<JsonView>|
                !has_under(doc, "errors"@, JsonView::Arr(any))) ==> fails_with(
                step,
                "Cloudflare API returned errors: "@ + "Unknown error"@,
            )
        }),
{
    law_members_are_read(doc, "success"@, Seq::empty(), errors);
    law_members_are_read(doc, "errors"@, Seq::empty(), errors);
    assert(errors.map_values(|e: JsonView| json_text(e)) =~= told);
}

/// Whether a step tells the log of an edit and asks for the items of a list.
pub open spec fn lists_items(
    step: CloudflareStepView,
    client: ClientView,
    edit: ListEditView,
    list_id: Seq<char>,
    word: Seq<char>,
    next: CloudflareStateView,
) -> bool {
    step matches CloudflareStepView::Send { log, request, state } && log.len() == 1 && log[0]
        == "Cloudflare IP List: "@ + word + " IP "@ + edit.ip + " to list "@ + list_id
        + " (acct: "@ + edit.account_id + ")"@ && state == next && asks_for(
        request,
        client,
        "https://api.cloudflare.com/client/v4/accounts/"@ + edit.account_id + "/rules/lists/"@
            + list_id + "/items"@,
    )
}

/// Whether a step begins an edit of a list. An addition and a removal ask for the items
/// first; a replacement sends the one item that is to stay.
pub open spec fn begins_edit(
    step: CloudflareStepView,
    client: ClientView,
    edit: ListEditView,
    list_id: Seq<char>,
) -> bool {
    match edit.action {
        IpListAction::Add => lists_items(
            step,
            client,
            edit,
            list_id,
            "Adding"@,
            CloudflareStateView::ListingToAdd { edit, list_id },
        ),
        IpListAction::Remove => lists_items(
            step,
            client,
            edit,
            list_id,
            "Removing"@,
            CloudflareStateView::ListingToRemove { edit, list_id },
        ),
        IpListAction::ReplaceAll => step matches CloudflareStepView::Send { log, request, state }
            && log.len() == 1 && log[0] == "Cloudflare IP List: Replacing IP "@ + edit.ip
            + " to list "@ + list_id + " (acct: "@ + edit.account_id + ")"@ && state
            == CloudflareStateView::Replacing && exists|doc: JsonView|
            #[trigger] is_list_of(doc, edit.ip, edit.comment) && sends(
                request,
                client,
                Method::Put,
                "https://api.cloudflare.com/client/v4/accounts/"@ + edit.account_id
                    + "/rules/lists/"@ + list_id + "/items"@,
                doc,
            ),
    }
}

/// The document that holds an address is a list of one.
proof fn lemma_list_document(ip: Seq<char>, comment: Seq<char>)
    ensures
        is_list_of(list_document(ip, comment), ip, comment),
{
    reveal_strlit("ip");
    reveal_strlit("comment");
    assert("ip"@.len() == 2 && "comment"@.len() == 7);
}

/// A step that edits a list begins the edit.
proof fn lemma_begins_edit(client: ClientView, edit: ListEditView, list_id: Seq<char>)
    ensures
        begins_edit(list_step(client, edit, list_id), client, edit, list_id),
{
    lemma_list_document(edit.ip, edit.comment);
    reveal_strlit("Cloudflare IP List: ");
    reveal_strlit("Replacing");
    reveal_strlit(" IP ");
    reveal_strlit("Cloudflare IP List: Replacing IP ");
    let tail = edit.ip + " to list "@ + list_id + (" (acct: "@ + edit.account_id + ")"@);
    assert("Cloudflare IP List: "@ + "Replacing"@ + " IP "@ =~= "Cloudflare IP List: Replacing IP "@);
    let doc = list_document(edit.ip, edit.comment);
    let url = "https://api.cloudflare.com/client/v4/accounts/"@ + edit.account_id
        + "/rules/lists/"@ + list_id + "/items"@;
    assert(is_list_of(doc, edit.ip, edit.comment));
    assert(sends(replace_request(client, edit, list_id), client, Method::Put, url, doc));
    match edit.action {
        IpListAction::Add => {
            assert(list_log(edit, list_id) =~= "Cloudflare IP List: "@ + "Adding"@ + " IP "@
                + edit.ip + " to list "@ + list_id + " (acct: "@ + edit.account_id + ")"@);
        },
        IpListAction::Remove => {
            assert(list_log(edit, list_id) =~= "Cloudflare IP List: "@ + "Removing"@ + " IP "@
                + edit.ip + " to list "@ + list_id + " (acct: "@ + edit.account_id + ")"@);
        },
        IpListAction::ReplaceAll => {
            assert(list_log(edit, list_id) =~= "Cloudflare IP List: Replacing IP "@ + edit.ip
                + " to list "@ + list_id + " (acct: "@ + edit.account_id + ")"@);
        },
    }
}

/// A list whose identifier is given is edited at once; without one the lists of the
/// account are asked for, and without a name either the run fails.
pub proof fn law_a_list_is_edited_or_looked_for(
    client: ClientView,
    edit: ListEditView,
    list_id: Seq<char>,
    list_name: Seq<char>,
)
    ensures
        list_id.len() > 0 ==> begins_edit(
            list_start(client, edit, list_id, list_name),
            client,
            edit,
            list_id,
        ),
        list_id.len() == 0 && list_name.len() == 0 ==> fails_with(
            list_start(client, edit, list_id, list_name),
            "Either List ID or List Name must be provided"@,
        ),
        list_id.len() == 0 && list_name.len() > 0 ==> (list_start(client, edit, list_id, list_name)
            matches CloudflareStepView::Send { log, request, state } && log.len() == 0 && state == (
        CloudflareStateView::FindingList { edit, list_name }) && asks_for(
            request,
            client,
            "https://api.cloudflare.com/client/v4/accounts/"@ + edit.account_id + "/rules/lists"@,
        )),
{
    lemma_begins_edit(client, edit, list_id);
}

/// Of the lists of an account, the first with the name is edited: by the identifier
/// that it has. Where it has none, or no list has the name, the run fails and says what
/// was looked for.
pub proof fn law_the_list_with_the_name_is_edited(
    client: ClientView,
    edit: ListEditView,
    list_name: Seq<char>,
    outcome: Result<HttpReplyView, Seq<char>>,
    doc: JsonView,
    lists: Seq<JsonView>,
    i: int,
    id: Seq<char>,
)
    requires
        tells(outcome, doc),
        has_under(doc, "result"@, JsonView::Arr(lists)),
    ensures
        ({
            let step = next_step(
                client,
                CloudflareStateView::FindingList { edit, list_name },
                outcome,
            );
            let missing = "Could not find IP list named '"@ + list_name + "' in account "@
                + edit.account_id;
            &&& (0 <= i < lists.len() && says(lists[i], "name"@, list_name) && (forall|j: int|
                0 <= j < i ==> !says(#[trigger] lists[j], "name"@, list_name))) ==> (if says(
                lists[i],
                "id"@,
                id,
            ) {
                begins_edit(step, client, edit, id)
            } else {
                (forall|any: Seq<char>| !says(lists[i], "id"@, any)) ==> fails_with(step, missing)
            })
            &&& (forall|j: int|
                0 <= j < lists.len() ==> !says(#[trigger] lists[j], "name"@, list_name))
                ==> fails_with(step, missing)
        }),
{
    law_members_are_read(doc, "result"@, id, lists);
    law_the_first_item_is_found(lists, "name"@, list_name, 0);
    if let Some(k) = find_item(lists, "name"@, list_name, 0) {
        law_members_are_read(lists[k], "id"@, id, lists);
        lemma_begins_edit(client, edit, id);
        if 0 <= i < lists.len() && says(lists[i], "name"@, list_name) && (forall|j: int|
            0 <= j < i ==> !says(#[trigger] lists[j], "name"@, list_name)) {
            assert(i == k);
        }
    }
}

/// Whether a step asks for the removal of an item from a list, by its identifier.
pub open spec fn deletes(
    step: CloudflareStepView,
    client: ClientView,
    account_id: Seq<char>,
    list_id: Seq<char>,
    id: Seq<char>,
    next: CloudflareStateView,
) -> bool {
    step matches CloudflareStepView::Send { log, request, state } && log.len() == 0 && state == next
        && exists|doc: JsonView|
        #[trigger] is_removal_of(doc, id) && sends(
            request,
            client,
            Method::Delete,
            "https://api.cloudflare.com/client/v4/accounts/"@ + account_id + "/rules/lists/"@
                + list_id + "/items"@,
            doc,
        )
}

/// A document that names an item for removal does so, and names no other one.
proof fn lemma_removal_document(id: Seq<char>, other: Seq<char>)
    ensures
        is_removal_of(removal_document(id), id),
        is_removal_of(removal_document(id), other) ==> other == id,
{
    let item = JsonView::Obj(map!["id"@ => JsonView::Str(id)]);
    assert(has_under(removal_document(id), "items"@, JsonView::Arr(seq![item])));
    assert(says(item, "id"@, id));
    if is_removal_of(removal_document(id), other) {
        let it = choose|item: JsonView|
            has_under(removal_document(id), "items"@, JsonView::Arr(seq![item])) && #[trigger] says(
                item,
                "id"@,
                other,
            );
        assert(seq![it] == seq![item]);
        assert(seq![it][0] == seq![item][0]);
    }
}

/// A step that removes an item does so.
proof fn lemma_deletes(
    client: ClientView,
    account_id: Seq<char>,
    list_id: Seq<char>,
    id: Seq<char>,
    state: CloudflareStateView,
)
    ensures
        deletes(
            CloudflareStepView::Send {
                log: Seq::empty(),
                request: delete_request(client, account_id, list_id, id),
                state,
            },
            client,
            account_id,
            list_id,
            id,
            state,
        ),
{
    lemma_removal_document(id, id);
    let doc = removal_document(id);
    assert(is_removal_of(doc, id));
    assert(sends(
        delete_request(client, account_id, list_id, id),
        client,
        Method::Delete,
        "https://api.cloudflare.com/client/v4/accounts/"@ + account_id + "/rules/lists/"@ + list_id
            + "/items"@,
        doc,
    ));
}

/// The first item with the address is removed from the list, by the identifier that it
/// has. Where it has none, or no item has the address, the run fails and nothing is
/// removed.
pub proof fn law_the_item_with_the_address_is_removed(
    client: ClientView,
    edit: ListEditView,
    list_id: Seq<char>,
    outcome: Result<HttpReplyView, Seq<char>>,
    doc: JsonView,
    items: Seq<JsonView>,
    i: int,
    id: Seq<char>,
)
    requires
        tells(outcome, doc),
        has_under(doc, "result"@, JsonView::Arr(items)),
    ensures
        ({
            let step = next_step(
                client,
                CloudflareStateView::ListingToRemove { edit, list_id },
                outcome,
            );
            let missing = "IP "@ + edit.ip + " not found in list"@;
            &&& (0 <= i < items.len() && says(items[i], "ip"@, edit.ip) && (forall|j: int|
                0 <= j < i ==> !says(#[trigger] items[j], "ip"@, edit.ip))) ==> (if says(
                items[i],
                "id"@,
                id,
            ) {
                deletes(
                    step,
                    client,
                    edit.account_id,
                    list_id,
                    id,
                    CloudflareStateView::Removing,
                )
            } else {
                (forall|any: Seq<char>| !says(items[i], "id"@, any)) ==> fails_with(step, missing)
            })
            &&& (forall|j: int|
                0 <= j < items.len() ==> !says(#[trigger] items[j], "ip"@, edit.ip))
                ==> fails_with(step, missing)
        }),
{
    law_members_are_read(doc, "result"@, id, items);
    law_the_first_item_is_found(items, "ip"@, edit.ip, 0);
    if let Some(k) = find_item(items, "ip"@, edit.ip, 0) {
        law_members_are_read(items[k], "id"@, id, items);
        lemma_deletes(client, edit.account_id, list_id, id, CloudflareStateView::Removing);
        if 0 <= i < items.len() && says(items[i], "ip"@, edit.ip) && (forall|j: int|
            0 <= j < i ==> !says(#[trigger] items[j], "ip"@, edit.ip)) {
            assert(i == k);
        }
    }
}

/// No item with another address is ever removed: whatever the reply was, if an item is
/// to go from a list, then the reply lists items, the item is one of them, it has the
/// address, no earlier one has it, and it goes by its own identifier.
pub proof fn law_no_other_item_is_removed(
    client: ClientView,
    edit: ListEditView,
    list_id: Seq<char>,
    outcome: Result<HttpReplyView, Seq<char>>,
)
    requires
        next_step(
            client,
            CloudflareStateView::ListingToRemove { edit, list_id },
            outcome,
        ) is Send,
    ensures
        exists|doc: JsonView, items: Seq<JsonView>, i: int, id: Seq<char>|
            #![trigger has_under(doc, "result"@, JsonView::Arr(items)), says(items[i], "id"@, id)]
            tells(outcome, doc) && has_under(doc, "result"@, JsonView::Arr(items)) && 0 <= i
                < items.len() && says(items[i], "ip"@, edit.ip) && (forall|j: int|
                0 <= j < i ==> !says(#[trigger] items[j], "ip"@, edit.ip)) && says(
                items[i],
                "id"@,
                id,
            ) && deletes(
                next_step(
                    client,
                    CloudflareStateView::ListingToRemove { edit, list_id },
                    outcome,
                ),
                client,
                edit.account_id,
                list_id,
                id,
                CloudflareStateView::Removing,
            ),
{
    let doc = reply_document(outcome, api_error())->Ok_0;
    assert(tells(outcome, doc));
    let items = arr_member(doc, "result"@)->0;
    law_members_are_read(doc, "result"@, Seq::empty(), items);
    law_the_first_item_is_found(items, "ip"@, edit.ip, 0);
    let i = find_item(items, "ip"@, edit.ip, 0)->0;
    let id = str_member(items[i], "id"@)->0;
    law_members_are_read(items[i], "id"@, id, items);
    lemma_deletes(client, edit.account_id, list_id, id, CloudflareStateView::Removing);
    assert(has_under(doc, "result"@, JsonView::Arr(items)) && says(items[i], "id"@, id));
}

/// Whether a step asks for the addition of an address to a list.
pub open spec fn adds(
    step: CloudflareStepView,
    client: ClientView,
    edit: ListEditView,
    list_id: Seq<char>,
) -> bool {
    step matches CloudflareStepView::Send { log, request, state } && log.len() == 0 && state
        == CloudflareStateView::Adding(edit) && exists|doc: JsonView|
        #[trigger] is_list_of(doc, edit.ip, edit.comment) && sends(
            request,
            client,
            Method::Post,
            "https://api.cloudflare.com/client/v4/accounts/"@ + edit.account_id + "/rules/lists/"@
                + list_id + "/items"@,
            doc,
        )
}

/// A step that adds an address does so.
proof fn lemma_adds(client: ClientView, edit: ListEditView, list_id: Seq<char>)
    ensures
        adds(
            CloudflareStepView::Send {
                log: Seq::empty(),
                request: add_request(client, edit, list_id),
                state: CloudflareStateView::Adding(edit),
            },
            client,
            edit,
            list_id,
        ),
{
    lemma_list_document(edit.ip, edit.comment);
    let doc = list_document(edit.ip, edit.comment);
    assert(is_list_of(doc, edit.ip, edit.comment));
    assert(sends(
        add_request(client, edit, list_id),
        client,
        Method::Post,
        "https://api.cloudflare.com/client/v4/accounts/"@ + edit.account_id + "/rules/lists/"@
            + list_id + "/items"@,
        doc,
    ));
}

/// An address that no item of the list has is added, unless it replaces an item: the
/// first one with the comment that is given, which is removed by its identifier. An
/// item that cannot be removed for want of an identifier stops the run.
pub proof fn law_a_new_address_is_added(
    client: ClientView,
    edit: ListEditView,
    list_id: Seq<char>,
    outcome: Result<HttpReplyView, Seq<char>>,
    doc: JsonView,
    items: Seq<JsonView>,
    i: int,
    id: Seq<char>,
)
    requires
        tells(outcome, doc),
        has_under(doc, "result"@, JsonView::Arr(items)),
        forall|j: int| 0 <= j < items.len() ==> !says(#[trigger] items[j], "ip"@, edit.ip),
    ensures
        ({
            let step = next_step(
                client,
                CloudflareStateView::ListingToAdd { edit, list_id },
                outcome,
            );
            &&& edit.comment.len() == 0 ==> adds(step, client, edit, list_id)
            &&& (forall|j: int|
                0 <= j < items.len() ==> !says(#[trigger] items[j], "comment"@, edit.comment))
                ==> adds(step, client, edit, list_id)
            &&& (edit.comment.len() > 0 && 0 <= i < items.len() && says(
                items[i],
                "comment"@,
                edit.comment,
            ) && (forall|j: int|
                0 <= j < i ==> !says(#[trigger] items[j], "comment"@, edit.comment))) ==> (if says(
                items[i],
                "id"@,
                id,
            ) && id.len() > 0 {
                deletes(
                    step,
                    client,
                    edit.account_id,
                    list_id,
                    id,
                    CloudflareStateView::DeletingOld { edit, list_id },
                )
            } else {
                (forall|any: Seq<char>| any.len() > 0 ==> !says(items[i], "id"@, any))
                    ==> fails_with(step, "Found matching comment but item has no ID"@)
            })
        }),
{
    law_members_are_read(doc, "result"@, id, items);
    law_the_first_item_is_found(items, "ip"@, edit.ip, 0);
    law_the_first_item_is_found(items, "comment"@, edit.comment, 0);
    lemma_adds(client, edit, list_id);
    if let Some(k) = find_item(items, "comment"@, edit.comment, 0) {
        law_members_are_read(items[k], "id"@, id, items);
        lemma_deletes(
            client,
            edit.account_id,
            list_id,
            id,
            CloudflareStateView::DeletingOld { edit, list_id },
        );
        if let Some(any) = str_member(items[k], "id"@) {
            law_members_are_read(items[k], "id"@, any, items);
        }
        if 0 <= i < items.len() && says(items[i], "comment"@, edit.comment) && (forall|j: int|
            0 <= j < i ==> !says(#[trigger] items[j], "comment"@, edit.comment)) {
            assert(i == k);
        }
    }
}

/// An address that an item of the list has is left: the run ends with success, the log
/// says so, and nothing is asked for. A reply that lists no items leads to an addition.
pub proof fn law_a_present_address_is_left(
    client: ClientView,
    edit: ListEditView,
    list_id: Seq<char>,
    outcome: Result<HttpReplyView, Seq<char>>,
    doc: JsonView,
    items: Seq<JsonView>,
    i: int,
)
    requires
        tells(outcome, doc),
    ensures
        ({
            let step = next_step(
                client,
                CloudflareStateView::ListingToAdd { edit, list_id },
                outcome,
            );
            &&& has_under(doc, "result"@, JsonView::Arr(items)) && 0 <= i < items.len() && says(
                items[i],
                "ip"@,
                edit.ip,
            ) ==> step == (CloudflareStepView::Done {
                log: seq![
                    "Cloudflare IP List: IP "@ + edit.ip
                        + " already exists in list — no changes made"@,
                ],
                result: Ok(true),
            })
            &&& (forall|any: Seq<JsonView>| !has_under(doc, "result"@, JsonView::Arr(any)))
                ==> adds(step, client, edit, list_id)
        }),
{
    law_members_are_read(doc, "result"@, Seq::empty(), items);
    lemma_adds(client, edit, list_id);
    if has_under(doc, "result"@, JsonView::Arr(items)) {
        law_the_first_item_is_found(items, "ip"@, edit.ip, 0);
    }
}

/// After the removal of the item that an address replaces, the address is added if the
/// reply says that the removal succeeded, and the run fails if it does not.
pub proof fn law_an_address_is_added_after_the_removal(
    client: ClientView,
    edit: ListEditView,
    list_id: Seq<char>,
    outcome: Result<HttpReplyView, Seq<char>>,
    doc: JsonView,
)
    requires
        tells(outcome, doc),
    ensures
        ({
            let step = next_step(
                client,
                CloudflareStateView::DeletingOld { edit, list_id },
                outcome,
            );
            if has_under(doc, "success"@, JsonView::Bool(true)) {
                adds(step, client, edit, list_id)
            } else {
                fails_with(step, "Failed to delete old item before updating"@)
            }
        }),
{
    law_members_are_read(doc, "success"@, Seq::empty(), Seq::empty());
    lemma_adds(client, edit, list_id);
}

/// A removal, an addition and a replacement end with what the reply says of their
/// success; the log tells of an addition, and of its comment.
pub proof fn law_edits_end_with_their_success(
    client: ClientView,
    edit: ListEditView,
    outcome: Result<HttpReplyView, Seq<char>>,
    doc: JsonView,
)
    requires
        tells(outcome, doc),
    ensures
        ({
            let success = has_under(doc, "success"@, JsonView::Bool(true));
            &&& next_step(client, CloudflareStateView::Removing, outcome) == (
            CloudflareStepView::Done { log: Seq::empty(), result: Ok(success) })
            &&& next_step(client, CloudflareStateView::Replacing, outcome) == (
            CloudflareStepView::Done { log: Seq::empty(), result: Ok(success) })
            &&& next_step(client, CloudflareStateView::Adding(edit), outcome) == (
            CloudflareStepView::Done {
                log: seq![
                    if edit.comment.len() == 0 {
                        "Cloudflare IP List: added new IP "@ + edit.ip + " (no comment)"@
                    } else {
                        "Cloudflare IP List: added/updated IP "@ + edit.ip + " with comment '"@
                            + edit.comment + "'"@
                    },
                ],
                result: Ok(success),
            })
        }),
{
    law_members_are_read(doc, "success"@, Seq::empty(), Seq::empty());
}

/// What an error of the API begins with in a state.
pub open spec fn error_begins(state: CloudflareStateView) -> Seq<char> {
    match state {
        CloudflareStateView::ListingToAdd { .. } => "Cloudflare API error listing items: "@,
        CloudflareStateView::DeletingOld { .. } => "Cloudflare API error deleting old item: "@,
        _ => "Cloudflare API error: "@,
    }
}

/// A run goes on only from a reply with a status between 200 and 299 whose body is a
/// JSON document. Otherwise it fails: with what went wrong where there is no reply or
/// none that can be read, with the text of the reply where its status is another one.
pub proof fn law_runs_fail_without_a_document(
    client: ClientView,
    state: CloudflareStateView,
    outcome: Result<HttpReplyView, Seq<char>>,
)
    ensures
        ({
            let step = next_step(client, state, outcome);
            match outcome {
                Err(e) => fails_with(step, e),
                Ok(reply) => if reply.status < 200 || reply.status > 299 {
                    fails_with(
                        step,
                        error_begins(state) + (match reply.body {
                            Ok(bytes) => lossy(bytes),
                            Err(_) => Seq::empty(),
                        }),
                    )
                } else {
                    match reply.body {
                        Err(e) => fails_with(step, e),
                        Ok(bytes) => !valid_utf8(bytes) || json_document(decode_utf8(bytes)) is None
                            ==> fails_with(step, "error decoding response body"@),
                    }
                },
            }
        }),
{
}

/// A run on a list needs a reply that lists something: without a list of lists none is
/// found, and without a list of items nothing is removed.
pub proof fn law_runs_fail_without_entries(
    client: ClientView,
    edit: ListEditView,
    list_id: Seq<char>,
    list_name: Seq<char>,
    outcome: Result<HttpReplyView, Seq<char>>,
    doc: JsonView,
)
    requires
        tells(outcome, doc),
        forall|any: Seq<JsonView>| !has_under(doc, "result"@, JsonView::Arr(any)),
    ensures
        fails_with(
            next_step(client, CloudflareStateView::FindingList { edit, list_name }, outcome),
            "Could not find IP list named '"@ + list_name + "' in account "@ + edit.account_id,
        ),
        fails_with(
            next_step(client, CloudflareStateView::ListingToRemove { edit, list_id }, outcome),
            "IP "@ + edit.ip + " not found in list"@,
        ),
{
    law_members_are_read(doc, "result"@, Seq::empty(), Seq::empty());
}

/// What is said of a client, of a record and of an edit is said of their parts.
pub proof fn law_edits_are_seen_whole(client: CloudflareClient, update: DnsUpdate, edit: ListEdit)
    ensures
        client@.token == client.token@,
        match client.email {
            Some(email) => client@.email == Some(email@),
            None => client@.email is None,
        },
        update@.zone_id == update.zone_id@,
        update@.record_name == update.record_name@,
        update@.record_type == update.record_type@,
        update@.content == update.content@,
        update@.proxied == update.proxied,
        update@.ttl == update.ttl,
        edit@.account_id == edit.account_id@,
        edit@.ip == edit.ip@,
        edit@.comment == edit.comment@,
        edit@.action == edit.action,
{
}

} // verus!
