//! The tunnel service: what is asked of its web API and of the launcher on this
//! machine, and what their answers mean.
//!
//! Nothing here talks to a network. A client's methods give the request to
//! send, as an [`ApiRequest`]; what came back, as a [`Reply`], is handed to the
//! function that reads it.

use crate::json::{
    counters_text, field_trees, item_trees, json_text, lemma_field_trees, lemma_item_trees,
    parse_counters, parse_json, tree_of, Json, JsonTree,
};
use crate::sizes::{
    law_whole_units_shorten_to_the_number, one_place, one_place_of, shorten, shortened, two_places,
    two_places_of, GB, KB, MB, TB,
};
use crate::text::{
    chars_of, contains, decimal, decimal_of, has_part, is_alnum, is_digit, join, joined,
    law_decimal_tells_apart, lemma_decimal_digits, lower, lower_chars, number, parse_number,
    string_of, views,
};
use std::collections::HashMap;
use vstd::prelude::*;
use vstd::string::*;

verus! {

broadcast use vstd::std_specs::hash::group_hash_axioms;

// ---------- Errors ----------

/// Why the service gave no answer, for the caller to put into words.
#[derive(Debug)]
pub enum NatfrpError {
    /// Status 401: the token is wrong, revoked, or was cleared.
    Unauthorized,
    /// Status 403: the token is known but lacks the permission.
    Forbidden,
    /// Status 500 to 599: the service itself failed.
    ServerError(u16),
    /// Any other status that is no success.
    HttpError(u16),
    /// The service could not be talked to at all.
    Network(String),
    /// The answer did not have the expected form.
    Parse(String),
}

/// A [`NatfrpError`] with its details as text.
pub enum ErrorView {
    Unauthorized,
    Forbidden,
    ServerError(u16),
    HttpError(u16),
    Network(Seq<char>),
    Parse(Seq<char>),
}

impl View for NatfrpError {
    type V = ErrorView;

    open spec fn view(&self) -> ErrorView {
        match self {
            NatfrpError::Unauthorized => ErrorView::Unauthorized,
            NatfrpError::Forbidden => ErrorView::Forbidden,
            NatfrpError::ServerError(code) => ErrorView::ServerError(*code),
            NatfrpError::HttpError(code) => ErrorView::HttpError(*code),
            NatfrpError::Network(detail) => ErrorView::Network(detail@),
            NatfrpError::Parse(detail) => ErrorView::Parse(detail@),
        }
    }
}

impl Clone for NatfrpError {
    fn clone(&self) -> (r: Self)
        ensures
            r@ == self@,
    {
        match self {
            NatfrpError::Unauthorized => NatfrpError::Unauthorized,
            NatfrpError::Forbidden => NatfrpError::Forbidden,
            NatfrpError::ServerError(code) => NatfrpError::ServerError(*code),
            NatfrpError::HttpError(code) => NatfrpError::HttpError(*code),
            NatfrpError::Network(detail) => NatfrpError::Network(detail.clone()),
            NatfrpError::Parse(detail) => NatfrpError::Parse(detail.clone()),
        }
    }
}

/// What the service's answer comes to.
pub type ApiResult<T> = Result<T, NatfrpError>;

impl ErrorView {
    /// The error in plain English.
    pub open spec fn message(self) -> Seq<char> {
        match self {
            ErrorView::Unauthorized => "401 Unauthorized"@,
            ErrorView::Forbidden => "403 Forbidden"@,
            ErrorView::ServerError(code) => decimal(code as nat) + " server error"@,
            ErrorView::HttpError(code) => "HTTP "@ + decimal(code as nat),
            ErrorView::Network(detail) => "network: "@ + detail,
            ErrorView::Parse(detail) => "parse: "@ + detail,
        }
    }
}

impl NatfrpError {
    /// The error in plain English, for logs.
    pub fn to_string(&self) -> (r: String)
        ensures
            r@ == self@.message(),
    {
        match self {
            NatfrpError::Unauthorized => "401 Unauthorized".to_owned(),
            NatfrpError::Forbidden => "403 Forbidden".to_owned(),
            NatfrpError::ServerError(code) => decimal_of(*code as u64).concat(" server error"),
            NatfrpError::HttpError(code) => "HTTP ".to_owned().concat(
                decimal_of(*code as u64).as_str(),
            ),
            NatfrpError::Network(detail) => "network: ".to_owned().concat(detail.as_str()),
            NatfrpError::Parse(detail) => "parse: ".to_owned().concat(detail.as_str()),
        }
    }
}

// ---------- Requests ----------

/// The address that the service's paths follow.
pub const API_BASE: &'static str = "https://api.natfrp.com/v4";

/// The address that the launcher's paths follow.
pub const LAUNCHER_BASE: &'static str = "https://127.0.0.1:7102";

/// How a request is made and what goes with it.
pub enum Payload {
    /// Ask, with nothing.
    Get,
    /// Send a form, its fields in order.
    PostForm(Vec<(String, String)>),
    /// Send, with nothing.
    PostEmpty,
}

/// A [`Payload`] with its fields as text.
pub enum PayloadView {
    Get,
    PostForm(Seq<(Seq<char>, Seq<char>)>),
    PostEmpty,
}

/// The fields of a form as text.
pub open spec fn form_view(fields: Seq<(String, String)>) -> Seq<(Seq<char>, Seq<char>)> {
    fields.map_values(|f: (String, String)| (f.0@, f.1@))
}

impl View for Payload {
    type V = PayloadView;

    open spec fn view(&self) -> PayloadView {
        match self {
            Payload::Get => PayloadView::Get,
            Payload::PostForm(fields) => PayloadView::PostForm(form_view(fields@)),
            Payload::PostEmpty => PayloadView::PostEmpty,
        }
    }
}

/// One request: where it goes, its `Authorization` header, and what goes with
/// it.
pub struct ApiRequest {
    pub url: String,
    pub authorization: String,
    pub payload: Payload,
}

/// An [`ApiRequest`] as text.
pub struct RequestView {
    pub url: Seq<char>,
    pub authorization: Seq<char>,
    pub payload: PayloadView,
}

impl View for ApiRequest {
    type V = RequestView;

    open spec fn view(&self) -> RequestView {
        RequestView {
            url: self.url@,
            authorization: self.authorization@,
            payload: self.payload@,
        }
    }
}

/// The `Authorization` header that shows `secret`.
pub open spec fn bearer(secret: Seq<char>) -> Seq<char> {
    "Bearer "@ + secret
}

/// A request to the service for the holder of `token`.
pub open spec fn api_request(token: Seq<char>, path: Seq<char>, payload: PayloadView) -> RequestView {
    RequestView { url: API_BASE@ + path, authorization: bearer(token), payload }
}

/// A request to the launcher for the holder of `password`.
pub open spec fn launcher_request(
    password: Seq<char>,
    path: Seq<char>,
    payload: PayloadView,
) -> RequestView {
    RequestView { url: LAUNCHER_BASE@ + path, authorization: bearer(password), payload }
}

/// A user's access to the service.
pub struct Client {
    pub token: String,
    /// How long a round trip may take.
    pub timeout_secs: u64,
}

impl Client {
    /// Access with `token`; a round trip may take eight seconds.
    pub fn new(token: String) -> (r: Self)
        ensures
            r.token@ == token@,
            r.timeout_secs == 8,
    {
        Client { token, timeout_secs: 8 }
    }

    /// A question to `path`.
    pub fn get_text(&self, path: &str) -> (r: ApiRequest)
        ensures
            r@ == api_request(self.token@, path@, PayloadView::Get),
    {
        ApiRequest {
            url: API_BASE.to_owned().concat(path),
            authorization: "Bearer ".to_owned().concat(self.token.as_str()),
            payload: Payload::Get,
        }
    }

    /// The form `fields` to `path`.
    pub fn post_form(&self, path: &str, fields: Vec<(String, String)>) -> (r: ApiRequest)
        ensures
            r@ == api_request(self.token@, path@, PayloadView::PostForm(form_view(fields@))),
    {
        ApiRequest {
            url: API_BASE.to_owned().concat(path),
            authorization: "Bearer ".to_owned().concat(self.token.as_str()),
            payload: Payload::PostForm(fields),
        }
    }

    /// Asks who the user is.
    pub fn user_info(&self) -> (r: ApiRequest)
        ensures
            r@ == api_request(self.token@, "/user/info"@, PayloadView::Get),
    {
        self.get_text("/user/info")
    }

    /// Asks for the user's tunnels.
    pub fn tunnels(&self) -> (r: ApiRequest)
        ensures
            r@ == api_request(self.token@, "/tunnels"@, PayloadView::Get),
    {
        self.get_text("/tunnels")
    }

    /// Asks for the service's nodes.
    pub fn nodes(&self) -> (r: ApiRequest)
        ensures
            r@ == api_request(self.token@, "/nodes"@, PayloadView::Get),
    {
        self.get_text("/nodes")
    }

    /// Asks for a tunnel's traffic over time.
    pub fn tunnel_traffic(&self, id: u64) -> (r: ApiRequest)
        ensures
            r@ == api_request(
                self.token@,
                "/tunnel/traffic?id="@ + decimal(id as nat),
                PayloadView::Get,
            ),
    {
        let path: String = "/tunnel/traffic?id=".to_owned().concat(decimal_of(id).as_str());
        self.get_text(path.as_str())
    }

    /// Orders a new tcp tunnel to `local_port` on this machine. No public port
    /// is asked for: the service picks one.
    pub fn create_tunnel(&self, name: &str, node: u64, local_port: u16) -> (r: ApiRequest)
        ensures
            r@ == api_request(
                self.token@,
                "/tunnels"@,
                PayloadView::PostForm(
                    seq![
                        ("name"@, name@),
                        ("type"@, "tcp"@),
                        ("node"@, decimal(node as nat)),
                        ("local_ip"@, "127.0.0.1"@),
                        ("local_port"@, decimal(local_port as nat)),
                    ],
                ),
            ),
    {
        let mut fields: Vec<(String, String)> = Vec::new();
        fields.push(("name".to_owned(), name.to_owned()));
        fields.push(("type".to_owned(), "tcp".to_owned()));
        fields.push(("node".to_owned(), decimal_of(node)));
        fields.push(("local_ip".to_owned(), "127.0.0.1".to_owned()));
        fields.push(("local_port".to_owned(), decimal_of(local_port as u64)));
        assert(form_view(fields@) =~= seq![
            ("name"@, name@),
            ("type"@, "tcp"@),
            ("node"@, decimal(node as nat)),
            ("local_ip"@, "127.0.0.1"@),
            ("local_port"@, decimal(local_port as nat)),
        ]);
        self.post_form("/tunnels", fields)
    }

    /// Moves a tunnel onto another node.
    pub fn migrate_tunnel(&self, id: u64, node: u64) -> (r: ApiRequest)
        ensures
            r@ == api_request(
                self.token@,
                "/tunnel/migrate"@,
                PayloadView::PostForm(
                    seq![("id"@, decimal(id as nat)), ("node"@, decimal(node as nat))],
                ),
            ),
    {
        let mut fields: Vec<(String, String)> = Vec::new();
        fields.push(("id".to_owned(), decimal_of(id)));
        fields.push(("node".to_owned(), decimal_of(node)));
        assert(form_view(fields@) =~= seq![
            ("id"@, decimal(id as nat)),
            ("node"@, decimal(node as nat)),
        ]);
        self.post_form("/tunnel/migrate", fields)
    }

    /// Deletes tunnels, all in one request; nothing is to be sent for none.
    pub fn delete_tunnels(&self, ids: &[u64]) -> (r: Option<ApiRequest>)
        ensures
            match r {
                Some(request) => ids@.len() > 0 && request@ == api_request(
                    self.token@,
                    "/tunnel/delete"@,
                    PayloadView::PostForm(seq![("ids"@, joined(decimals(ids@), ","@))]),
                ),
                None => ids@.len() == 0,
            },
    {
        if ids.len() == 0 {
            return None;
        }
        let mut numbers: Vec<String> = Vec::new();
        let mut i: usize = 0;
        while i < ids.len()
            invariant
                i <= ids@.len(),
                views(numbers@) == decimals(ids@.take(i as int)),
            decreases ids@.len() - i,
        {
            let ghost before = views(numbers@);
            numbers.push(decimal_of(ids[i]));
            assert(views(numbers@) =~= before.push(decimal(ids@[i as int] as nat)));
            i += 1;
            assert(ids@.take(i as int) =~= ids@.take(i - 1).push(ids@[i - 1]));
            assert(views(numbers@) =~= decimals(ids@.take(i as int)));
        }
        assert(ids@.take(i as int) =~= ids@);
        let mut fields: Vec<(String, String)> = Vec::new();
        fields.push(("ids".to_owned(), join(numbers.as_slice(), ",")));
        assert(form_view(fields@) =~= seq![("ids"@, joined(decimals(ids@), ","@))]);
        Some(self.post_form("/tunnel/delete", fields))
    }
}

/// Each number in decimal.
pub open spec fn decimals(ids: Seq<u64>) -> Seq<Seq<char>> {
    ids.map_values(|id: u64| decimal(id as nat))
}

/// Access to the launcher on this machine. Its certificate is its own, and is
/// not to be checked.
pub struct LauncherClient {
    pub password: String,
    /// How long a round trip may take.
    pub timeout_secs: u64,
}

impl LauncherClient {
    /// Access with `password`; a round trip may take five seconds.
    pub fn new(password: String) -> (r: ApiResult<Self>)
        ensures
            r matches Ok(client) && client.password@ == password@ && client.timeout_secs == 5,
    {
        Ok(LauncherClient { password, timeout_secs: 5 })
    }

    /// The `Authorization` header that shows the password.
    pub fn auth_header(&self) -> (r: String)
        ensures
            r@ == bearer(self.password@),
    {
        "Bearer ".to_owned().concat(self.password.as_str())
    }

    fn request(&self, path: &str, payload: Payload) -> (r: ApiRequest)
        ensures
            r@ == launcher_request(self.password@, path@, payload@),
    {
        ApiRequest {
            url: LAUNCHER_BASE.to_owned().concat(path),
            authorization: self.auth_header(),
            payload,
        }
    }

    /// Asks which tunnels are running.
    pub fn tunnels_status(&self) -> (r: ApiRequest)
        ensures
            r@ == launcher_request(self.password@, "/api/tunnels"@, PayloadView::Get),
    {
        self.request("/api/tunnels", Payload::Get)
    }

    /// Asks the launcher to start forwarding `id`.
    pub fn enable(&self, id: u64) -> (r: ApiRequest)
        ensures
            r@ == launcher_request(
                self.password@,
                "/api/tunnel/"@ + decimal(id as nat) + "/enable"@,
                PayloadView::PostEmpty,
            ),
    {
        let path: String = "/api/tunnel/".to_owned().concat(decimal_of(id).as_str()).concat(
            "/enable",
        );
        self.request(path.as_str(), Payload::PostEmpty)
    }

    /// Asks the launcher to stop forwarding `id`.
    pub fn disable(&self, id: u64) -> (r: ApiRequest)
        ensures
            r@ == launcher_request(
                self.password@,
                "/api/tunnel/"@ + decimal(id as nat) + "/disable"@,
                PayloadView::PostEmpty,
            ),
    {
        let path: String = "/api/tunnel/".to_owned().concat(decimal_of(id).as_str()).concat(
            "/disable",
        );
        self.request(path.as_str(), Payload::PostEmpty)
    }
}

// ---------- Replies ----------

/// Why a request brought no success.
pub enum HttpFailure {
    /// An answer with this status.
    Status(u16),
    /// No answer, for this reason.
    Transport(String),
}

/// What came back for a request.
pub enum Reply {
    /// A success, with its body.
    Body(String),
    /// No success.
    Failed(HttpFailure),
    /// A success whose body could not be read, for this reason.
    Unread(String),
}

/// The error of an answer with status `code`.
pub open spec fn status_error(code: u16) -> ErrorView {
    if code == 401 {
        ErrorView::Unauthorized
    } else if code == 403 {
        ErrorView::Forbidden
    } else if 500 <= code <= 599 {
        ErrorView::ServerError(code)
    } else {
        ErrorView::HttpError(code)
    }
}

/// The error of a request that brought no success.
pub open spec fn failure_error(e: HttpFailure) -> ErrorView {
    match e {
        HttpFailure::Status(code) => status_error(code),
        HttpFailure::Transport(detail) => ErrorView::Network(detail@),
    }
}

/// The error of a request that brought no success.
pub fn classify_ureq_error(e: HttpFailure) -> (r: NatfrpError)
    ensures
        r@ == failure_error(e),
{
    match e {
        HttpFailure::Status(code) => {
            if code == 401 {
                NatfrpError::Unauthorized
            } else if code == 403 {
                NatfrpError::Forbidden
            } else if 500 <= code && code <= 599 {
                NatfrpError::ServerError(code)
            } else {
                NatfrpError::HttpError(code)
            }
        },
        HttpFailure::Transport(detail) => NatfrpError::Network(detail),
    }
}

/// The body of a reply, or the error that it comes to.
pub open spec fn body_of(reply: Reply) -> Result<Seq<char>, ErrorView> {
    match reply {
        Reply::Body(body) => Ok(body@),
        Reply::Failed(e) => Err(failure_error(e)),
        Reply::Unread(detail) => Err(ErrorView::Network(detail@)),
    }
}

/// The body of a reply, or the error that it comes to.
pub fn reply_text(reply: Reply) -> (r: ApiResult<String>)
    ensures
        match r {
            Ok(body) => body_of(reply) == Ok::<Seq<char>, ErrorView>(body@),
            Err(e) => body_of(reply) == Err::<Seq<char>, ErrorView>(e@),
        },
{
    match reply {
        Reply::Body(body) => Ok(body),
        Reply::Failed(e) => Err(classify_ureq_error(e)),
        Reply::Unread(detail) => Err(NatfrpError::Network(detail)),
    }
}

/// Whether an order was carried out: the reply to a move, a deletion, or a
/// change of a tunnel's running state. Its body says nothing.
pub fn reply_done(reply: Reply) -> (r: ApiResult<()>)
    ensures
        match r {
            Ok(_) => body_of(reply) is Ok,
            Err(e) => body_of(reply) == Err::<Seq<char>, ErrorView>(e@),
        },
{
    match reply_text(reply) {
        Ok(_) => Ok(()),
        Err(e) => Err(e),
    }
}

// ---------- The id of a new tunnel ----------

/// The id in the answer to a new tunnel: in the answer's field `id`, or else in
/// the field `id` of its field `data`.
pub open spec fn created_id(t: JsonTree) -> Option<u64> {
    match t.u64_at("id"@) {
        Some(id) => Some(id),
        None => match t.get("data"@) {
            Some(data) => data.u64_at("id"@),
            None => None,
        },
    }
}

/// The id of a new tunnel in a document.
pub fn created_tunnel_id(j: &Json) -> (r: Option<u64>)
    ensures
        r == created_id(j@),
{
    match j.u64_at("id") {
        Some(id) => Some(id),
        None => match j.get("data") {
            Some(data) => data.u64_at("id"),
            None => None,
        },
    }
}

/// The id of a new tunnel in the service's answer, if it gives one.
pub fn parse_create_tunnel_id(body: &str) -> (r: Option<u64>)
    ensures
        r == match json_text(body@) {
            Ok(t) => created_id(t),
            Err(_) => None,
        },
{
    match parse_json(body) {
        Ok(j) => created_tunnel_id(&j),
        Err(_) => None,
    }
}

/// The outcome of an order for a new tunnel: its id, where the answer gives
/// one.
pub fn create_tunnel_reply(reply: Reply) -> (r: ApiResult<Option<u64>>)
    ensures
        match (body_of(reply), r) {
            (Ok(body), Ok(id)) => id == match json_text(body) {
                Ok(t) => created_id(t),
                Err(_) => None,
            },
            (Err(e), Err(err)) => err@ == e,
            _ => false,
        },
{
    match reply_text(reply) {
        Ok(body) => Ok(parse_create_tunnel_id(body.as_str())),
        Err(e) => Err(e),
    }
}

// ---------- Which tunnels are running ----------

/// The id in a tunnel's entry.
pub open spec fn entry_id(t: JsonTree) -> Option<u64> {
    match t.u64_at("id"@) {
        Some(id) => Some(id),
        None => t.u64_at("Id"@),
    }
}

/// The first of two that is there.
pub open spec fn first_of<T>(a: Option<T>, b: Option<T>) -> Option<T> {
    match a {
        Some(x) => Some(x),
        None => b,
    }
}

/// Whether a tunnel's entry says that it runs.
pub open spec fn entry_state(t: JsonTree) -> Option<bool> {
    first_of(
        t.bool_at("enabled"@),
        first_of(
            t.bool_at("Enabled"@),
            first_of(t.bool_at("running"@), t.bool_at("Running"@)),
        ),
    )
}

/// The states in a list of entries, a later one over an earlier one. Entries
/// without an id or a state do not count.
pub open spec fn listed_states(items: Seq<JsonTree>) -> Map<u64, bool>
    decreases items.len(),
{
    if items.len() == 0 {
        Map::empty()
    } else {
        let before = listed_states(items.drop_last());
        match (entry_id(items.last()), entry_state(items.last())) {
            (Some(id), Some(on)) => before.insert(id, on),
            _ => before,
        }
    }
}

/// The states in an object whose fields are called by ids, a later one over an
/// earlier one. Other fields do not count.
pub open spec fn flat_states(fields: Seq<(Seq<char>, JsonTree)>) -> Map<u64, bool>
    decreases fields.len(),
{
    if fields.len() == 0 {
        Map::empty()
    } else {
        let before = flat_states(fields.drop_last());
        match (number(fields.last().0), fields.last().1.as_bool()) {
            (Some(id), Some(on)) => before.insert(id, on),
            _ => before,
        }
    }
}

/// The states in the launcher's answer: a list of entries, such a list in the
/// field `tunnels`, or an object from ids to states.
pub open spec fn launcher_states(t: JsonTree) -> Map<u64, bool> {
    match t {
        JsonTree::Array(items) => listed_states(items),
        JsonTree::Object(fields) => match t.get("tunnels"@) {
            Some(JsonTree::Array(items)) => listed_states(items),
            _ => flat_states(fields),
        },
        _ => Map::empty(),
    }
}

fn entry_id_of(j: &Json) -> (r: Option<u64>)
    ensures
        r == entry_id(j@),
{
    match j.u64_at("id") {
        Some(id) => Some(id),
        None => j.u64_at("Id"),
    }
}

fn entry_state_of(j: &Json) -> (r: Option<bool>)
    ensures
        r == entry_state(j@),
{
    if let Some(on) = j.bool_at("enabled") {
        return Some(on);
    }
    if let Some(on) = j.bool_at("Enabled") {
        return Some(on);
    }
    if let Some(on) = j.bool_at("running") {
        return Some(on);
    }
    j.bool_at("Running")
}

fn listed_states_of(items: &Vec<Json>) -> (r: HashMap<u64, bool>)
    ensures
        r@ == listed_states(item_trees(items@)),
{
    let mut out: HashMap<u64, bool> = HashMap::new();
    let ghost trees = item_trees(items@);
    proof {
        lemma_item_trees(items@);
    }
    let mut i: usize = 0;
    while i < items.len()
        invariant
            i <= items@.len(),
            trees.len() == items@.len(),
            forall|k: int| 0 <= k < items@.len() ==> #[trigger] trees[k] == tree_of(items@[k]),
            out@ == listed_states(trees.take(i as int)),
        decreases items@.len() - i,
    {
        assert(trees.take(i + 1).drop_last() =~= trees.take(i as int));
        assert(trees.take(i + 1).last() == items@[i as int]@);
        if let (Some(id), Some(on)) = (entry_id_of(&items[i]), entry_state_of(&items[i])) {
            out.insert(id, on);
        }
        i += 1;
    }
    assert(trees.take(i as int) =~= trees);
    out
}

fn flat_states_of(fields: &Vec<(String, Json)>) -> (r: HashMap<u64, bool>)
    ensures
        r@ == flat_states(field_trees(fields@)),
{
    let mut out: HashMap<u64, bool> = HashMap::new();
    let ghost trees = field_trees(fields@);
    proof {
        lemma_field_trees(fields@);
    }
    let mut i: usize = 0;
    while i < fields.len()
        invariant
            i <= fields@.len(),
            trees.len() == fields@.len(),
            forall|k: int|
                0 <= k < fields@.len() ==> #[trigger] trees[k] == (
                    fields@[k].0@,
                    tree_of(fields@[k].1),
                ),
            out@ == flat_states(trees.take(i as int)),
        decreases fields@.len() - i,
    {
        assert(trees.take(i + 1).drop_last() =~= trees.take(i as int));
        assert(trees.take(i + 1).last() == trees[i as int]);
        if let (Some(id), Some(on)) = (
            parse_number(fields[i].0.as_str()),
            fields[i].1.as_bool(),
        ) {
            out.insert(id, on);
        }
        i += 1;
    }
    assert(trees.take(i as int) =~= trees);
    out
}

/// The states in the launcher's answer.
pub fn launcher_tunnels(j: &Json) -> (r: HashMap<u64, bool>)
    ensures
        r@ == launcher_states(j@),
{
    match j {
        Json::Array(items) => listed_states_of(items),
        Json::Object(fields) => {
            if let Some(Json::Array(items)) = j.get("tunnels") {
                return listed_states_of(items);
            }
            flat_states_of(fields)
        },
        _ => HashMap::new(),
    }
}

/// The states in the launcher's answer, by tunnel id. An answer of another
/// form has none; one that is no document is an error.
pub fn parse_launcher_tunnels(body: &str) -> (r: ApiResult<HashMap<u64, bool>>)
    ensures
        match (json_text(body@), r) {
            (Ok(t), Ok(states)) => states@ == launcher_states(t),
            (Err(m), Err(e)) => e@ == ErrorView::Parse("launcher tunnels: "@ + m),
            _ => false,
        },
{
    match parse_json(body) {
        Ok(j) => Ok(launcher_tunnels(&j)),
        Err(m) => Err(NatfrpError::Parse("launcher tunnels: ".to_owned().concat(m.as_str()))),
    }
}

/// The launcher's reply to the question which tunnels are running.
pub fn tunnels_status_reply(reply: Reply) -> (r: ApiResult<HashMap<u64, bool>>)
    ensures
        match (body_of(reply), r) {
            (Ok(body), Ok(states)) => json_text(body) matches Ok(t) && states@ == launcher_states(
                t,
            ),
            (Ok(body), Err(e)) => json_text(body) matches Err(m) && e@ == ErrorView::Parse(
                "launcher tunnels: "@ + m,
            ),
            (Err(e), Err(err)) => err@ == e,
            _ => false,
        },
{
    match reply_text(reply) {
        Ok(body) => parse_launcher_tunnels(body.as_str()),
        Err(e) => Err(e),
    }
}

// ---------- What the service tells ----------

/// Who a user is.
#[derive(Debug, Clone)]
pub struct UserInfo {
    pub id: u64,
    pub name: String,
    pub speed: String,
    pub tunnels: u32,
    pub group: UserGroup,
    /// The bytes used and the bytes granted.
    pub traffic: Vec<u64>,
}

/// The group that a user is in.
#[derive(Debug, Clone)]
pub struct UserGroup {
    pub name: String,
    pub level: i32,
}

impl Default for UserGroup {
    fn default() -> (r: Self)
        ensures
            r.name@ == Seq::<char>::empty(),
            r.level == 0,
    {
        UserGroup { name: String::new(), level: 0 }
    }
}

/// A tunnel from a node's public port to a port on this machine.
#[derive(Debug, Clone)]
pub struct Tunnel {
    pub id: u64,
    pub name: String,
    pub node: u64,
    pub kind: String,
    pub online: bool,
    pub note: String,
    pub local_ip: String,
    pub local_port: u16,
    /// The public port; empty while the service has not said it.
    pub remote: String,
}

/// A node that tunnels end at.
#[derive(Debug, Clone)]
pub struct Node {
    pub name: String,
    pub host: String,
    pub description: String,
    /// A bit mask of the service's.
    pub flag: u32,
    /// The tier that a user needs for this node; 0 is open to everyone.
    pub vip: u32,
}

/// The outcome of reading a body as `what`: a reading that failed is a parse
/// error that names `what`.
fn read_as<T>(what: &str, decoded: Result<T, String>) -> (r: ApiResult<T>)
    ensures
        match (decoded, r) {
            (Ok(value), Ok(out)) => out == value,
            (Err(m), Err(e)) => e@ == ErrorView::Parse(what@ + m@),
            _ => false,
        },
{
    match decoded {
        Ok(value) => Ok(value),
        Err(m) => Err(NatfrpError::Parse(what.to_owned().concat(m.as_str()))),
    }
}

/// The user in an answer, given what decoding its body as one came to.
pub fn parse_user_info(decoded: Result<UserInfo, String>) -> (r: ApiResult<UserInfo>)
    ensures
        match (decoded, r) {
            (Ok(user), Ok(out)) => out == user,
            (Err(m), Err(e)) => e@ == ErrorView::Parse("/user/info: "@ + m@),
            _ => false,
        },
{
    read_as("/user/info: ", decoded)
}

/// The tunnels in an answer, given what decoding its body as a list of them
/// came to.
pub fn parse_tunnels(decoded: Result<Vec<Tunnel>, String>) -> (r: ApiResult<Vec<Tunnel>>)
    ensures
        match (decoded, r) {
            (Ok(tunnels), Ok(out)) => out == tunnels,
            (Err(m), Err(e)) => e@ == ErrorView::Parse("/tunnels: "@ + m@),
            _ => false,
        },
{
    read_as("/tunnels: ", decoded)
}

/// Every name among `entries` is a number.
pub open spec fn all_numbered<V>(entries: Seq<(String, V)>) -> bool {
    forall|i: int| 0 <= i < entries.len() ==> number((#[trigger] entries[i]).0@) is Some
}

/// `entries` by the numbers that their names are, a later one over an earlier
/// one.
pub open spec fn by_number<V>(entries: Seq<(String, V)>) -> Map<u64, V>
    decreases entries.len(),
{
    if entries.len() == 0 {
        Map::empty()
    } else {
        by_number(entries.drop_last()).insert(
            number(entries.last().0@)->0,
            entries.last().1,
        )
    }
}

/// `name` is the first name among `entries` that is no number.
pub open spec fn first_unnumbered<V>(entries: Seq<(String, V)>, name: Seq<char>) -> bool {
    exists|i: int|
        0 <= i < entries.len() && (#[trigger] entries[i]).0@ == name && number(name) is None
            && all_numbered(entries.take(i))
}

/// `entries` by the numbers that their names are, or else the first name that
/// is none.
fn key_by_number<V>(entries: Vec<(String, V)>) -> (r: Result<HashMap<u64, V>, String>)
    ensures
        match r {
            Ok(m) => all_numbered(entries@) && m@ == by_number(entries@),
            Err(name) => first_unnumbered(entries@, name@),
        },
{
    let mut out: HashMap<u64, V> = HashMap::with_capacity(entries.len());
    let ghost all = entries@;
    for entry in it: entries
        invariant
            it.seq() == all,
            all_numbered(all.take(it.index() as int)),
            out@ == by_number(all.take(it.index() as int)),
    {
        let ghost i = it.index() as int;
        assert(entry == all[i]);
        let (name, value) = entry;
        match parse_number(name.as_str()) {
            Some(n) => {
                out.insert(n, value);
                assert(all.take(i + 1).drop_last() =~= all.take(i));
                assert(all.take(i + 1).last() == all[i]);
                assert forall|k: int| 0 <= k < i + 1 implies number(
                    (#[trigger] all.take(i + 1)[k]).0@,
                ) is Some by {
                    if k < i {
                        assert(all.take(i + 1)[k] == all.take(i)[k]);
                    }
                }
            },
            None => {
                assert(all[i].0@ == name@);
                return Err(name);
            },
        }
    }
    assert(all.take(all.len() as int) =~= all);
    Ok(out)
}

/// The nodes in an answer by their ids, given what decoding its body as an
/// object of nodes came to.
pub fn parse_nodes(decoded: Result<Vec<(String, Node)>, String>) -> (r: ApiResult<
    HashMap<u64, Node>,
>)
    ensures
        match (decoded, r) {
            (Ok(entries), Ok(nodes)) => all_numbered(entries@) && nodes@ == by_number(entries@),
            (Ok(entries), Err(e)) => exists|name: Seq<char>|
                first_unnumbered(entries@, name) && e@ == ErrorView::Parse(
                    #[trigger] ("non-numeric node id: "@ + name),
                ),
            (Err(m), Err(e)) => e@ == ErrorView::Parse("/nodes: "@ + m@),
            _ => false,
        },
{
    let entries: Vec<(String, Node)> = match read_as("/nodes: ", decoded) {
        Ok(entries) => entries,
        Err(e) => {
            return Err(e);
        },
    };
    match key_by_number(entries) {
        Ok(nodes) => Ok(nodes),
        Err(name) => Err(
            NatfrpError::Parse("non-numeric node id: ".to_owned().concat(name.as_str())),
        ),
    }
}

/// Traffic by time, given a list of it.
pub fn traffic_by_time(entries: Vec<(String, u64)>) -> (r: ApiResult<HashMap<u64, u64>>)
    ensures
        match r {
            Ok(traffic) => all_numbered(entries@) && traffic@ == by_number(entries@),
            Err(e) => exists|name: Seq<char>|
                first_unnumbered(entries@, name) && e@ == ErrorView::Parse(
                    #[trigger] ("non-numeric ts: "@ + name),
                ),
        },
{
    match key_by_number(entries) {
        Ok(traffic) => Ok(traffic),
        Err(name) => Err(NatfrpError::Parse("non-numeric ts: ".to_owned().concat(name.as_str()))),
    }
}

/// What `by_number` holds: every number among the names, with the value of an
/// entry whose name is that number.
pub proof fn lemma_by_number<V>(entries: Seq<(String, V)>)
    requires
        all_numbered(entries),
    ensures
        forall|i: int|
            0 <= i < entries.len() ==> by_number(entries).contains_key(
                number((#[trigger] entries[i]).0@)->0,
            ),
        forall|n: u64| #[trigger]
            by_number(entries).contains_key(n) ==> exists|i: int|
                0 <= i < entries.len() && number((#[trigger] entries[i]).0@) == Some(n)
                    && entries[i].1 == by_number(entries)[n],
    decreases entries.len(),
{
    if entries.len() > 0 {
        let rest = entries.drop_last();
        assert(all_numbered(rest)) by {
            assert forall|i: int| 0 <= i < rest.len() implies number(
                (#[trigger] rest[i]).0@,
            ) is Some by {
                assert(rest[i] == entries[i]);
            }
        }
        lemma_by_number(rest);
        let last = entries.len() - 1;
        assert(number(entries[last].0@) is Some);
        assert forall|i: int| 0 <= i < entries.len() implies by_number(entries).contains_key(
            number((#[trigger] entries[i]).0@)->0,
        ) by {
            if i < last {
                assert(rest[i] == entries[i]);
            }
        }
        assert forall|n: u64| #[trigger] by_number(entries).contains_key(n) implies exists|i: int|
            0 <= i < entries.len() && number((#[trigger] entries[i]).0@) == Some(n)
                && entries[i].1 == by_number(entries)[n] by {
            if number(entries[last].0@) == Some(n) {
                assert(entries[last].1 == by_number(entries)[n]);
            } else {
                assert(by_number(rest).contains_key(n));
                let i = choose|i: int|
                    0 <= i < rest.len() && number((#[trigger] rest[i]).0@) == Some(n)
                        && rest[i].1 == by_number(rest)[n];
                assert(rest[i] == entries[i]);
            }
        }
    }
}

/// `out` is the named map `m` by the numbers that its names are. Where several
/// names are the same number, the value of one of them stands.
pub open spec fn renumbered(m: Map<Seq<char>, u64>, out: Map<u64, u64>) -> bool {
    &&& forall|name: Seq<char>| #[trigger]
        m.contains_key(name) ==> number(name) is Some && out.contains_key(number(name)->0)
    &&& forall|n: u64| #[trigger]
        out.contains_key(n) ==> exists|name: Seq<char>|
            m.contains_pair(name, out[n]) && #[trigger] number(name) == Some(n)
}

/// A tunnel's traffic by time, from the service's answer.
pub fn parse_tunnel_traffic(body: &str) -> (r: ApiResult<HashMap<u64, u64>>)
    ensures
        match (counters_text(body@), r) {
            (Ok(m), Ok(traffic)) => renumbered(m, traffic@),
            (Ok(m), Err(e)) => exists|name: Seq<char>|
                m.contains_key(name) && number(name) is None && e@ == ErrorView::Parse(
                    #[trigger] ("non-numeric ts: "@ + name),
                ),
            (Err(m), Err(e)) => e@ == ErrorView::Parse("/tunnel/traffic: "@ + m),
            _ => false,
        },
{
    let entries: Vec<(String, u64)> = match read_as("/tunnel/traffic: ", parse_counters(body)) {
        Ok(entries) => entries,
        Err(e) => {
            return Err(e);
        },
    };
    let ghost all = entries@;
    let ghost m = counters_text(body@)->Ok_0;
    let r: ApiResult<HashMap<u64, u64>> = traffic_by_time(entries);
    proof {
        match &r {
            Ok(traffic) => {
                lemma_by_number(all);
                assert forall|name: Seq<char>| #[trigger] m.contains_key(name) implies number(
                    name,
                ) is Some && traffic@.contains_key(number(name)->0) by {
                    let i = choose|i: int| 0 <= i < all.len() && (#[trigger] all[i]).0@ == name;
                    assert(number(all[i].0@) is Some);
                }
                assert forall|n: u64| #[trigger] traffic@.contains_key(n) implies exists|
                    name: Seq<char>,
                |
                    m.contains_pair(name, traffic@[n]) && #[trigger] number(name) == Some(n) by {
                    let i = choose|i: int|
                        0 <= i < all.len() && number((#[trigger] all[i]).0@) == Some(n)
                            && all[i].1 == by_number(all)[n];
                    assert(m.contains_pair(all[i].0@, all[i].1));
                    assert(number(all[i].0@) == Some(n));
                }
            },
            Err(e) => {
                let name = choose|name: Seq<char>|
                    first_unnumbered(all, name) && e@ == ErrorView::Parse(
                        #[trigger] ("non-numeric ts: "@ + name),
                    );
                let i = choose|i: int|
                    0 <= i < all.len() && (#[trigger] all[i]).0@ == name && number(name) is None
                        && all_numbered(all.take(i));
                assert(m.contains_pair(all[i].0@, all[i].1));
            },
        }
    }
    r
}

/// The service's reply to the question for a tunnel's traffic.
pub fn tunnel_traffic_reply(reply: Reply) -> (r: ApiResult<HashMap<u64, u64>>)
    ensures
        match (body_of(reply), r) {
            (Ok(body), Ok(traffic)) => counters_text(body) matches Ok(m) && renumbered(m, traffic@),
            (Ok(body), Err(e)) => match counters_text(body) {
                Ok(m) => exists|name: Seq<char>|
                    m.contains_key(name) && number(name) is None && e@ == ErrorView::Parse(
                        #[trigger] ("non-numeric ts: "@ + name),
                    ),
                Err(m) => e@ == ErrorView::Parse("/tunnel/traffic: "@ + m),
            },
            (Err(e), Err(err)) => err@ == e,
            _ => false,
        },
{
    match reply_text(reply) {
        Ok(body) => parse_tunnel_traffic(body.as_str()),
        Err(e) => Err(e),
    }
}

// ---------- Names, addresses and labels ----------

/// Names that the service takes: one to 32 ASCII letters, digits and
/// underscores.
pub open spec fn valid_name(name: Seq<char>) -> bool {
    1 <= name.len() <= 32 && forall|i: int|
        0 <= i < name.len() ==> (is_alnum(#[trigger] name[i]) || name[i] == '_')
}

/// Whether the service would take `name` for a tunnel.
pub fn validate_tunnel_name(name: &str) -> (r: bool)
    ensures
        r == valid_name(name@),
{
    let v: Vec<char> = chars_of(name);
    if v.len() == 0 || v.len() > 32 {
        return false;
    }
    let mut i: usize = 0;
    while i < v.len()
        invariant
            i <= v@.len(),
            v@ == name@,
            forall|j: int| 0 <= j < i ==> (is_alnum(#[trigger] v@[j]) || v@[j] == '_'),
        decreases v@.len() - i,
    {
        let c: char = v[i];
        let good: bool = ('0' <= c && c <= '9') || ('A' <= c && c <= 'Z') || ('a' <= c && c <= 'z')
            || c == '_';
        if !good {
            assert(!(is_alnum(name@[i as int]) || name@[i as int] == '_'));
            return false;
        }
        i += 1;
    }
    true
}

/// A description that marks a node for games. Matching is loose on purpose: `mc`
/// counts wherever it stands.
pub open spec fn marks_games(description: Seq<char>) -> bool {
    let d = lower(description);
    ||| contains(description, "游戏"@)
    ||| contains(d, "game"@)
    ||| contains(d, "minecraft"@)
    ||| contains(d, "mc"@)
}

/// Whether a node is meant for games, by what its description says.
pub fn is_game_node(node: &Node) -> (r: bool)
    ensures
        r == marks_games(node.description@),
{
    let v: Vec<char> = chars_of(node.description.as_str());
    let d: Vec<char> = lower_chars(v.as_slice());
    has_part(v.as_slice(), "游戏") || has_part(d.as_slice(), "game") || has_part(
        d.as_slice(),
        "minecraft",
    ) || has_part(d.as_slice(), "mc")
}

/// The public address of a tunnel, where its node's host and its public port
/// are known.
pub open spec fn address(t: Tunnel, nodes: Map<u64, Node>) -> Option<Seq<char>> {
    if nodes.contains_key(t.node) && nodes[t.node].host@.len() > 0 && t.remote@.len() > 0 {
        Some(nodes[t.node].host@ + ":"@ + t.remote@)
    } else {
        None
    }
}

/// The public address of a tunnel, to join or to copy.
pub fn public_address(t: &Tunnel, nodes: &HashMap<u64, Node>) -> (r: Option<String>)
    ensures
        match r {
            Some(a) => address(*t, nodes@) == Some(a@),
            None => address(*t, nodes@) is None,
        },
{
    match nodes.get(&t.node) {
        Some(node) => {
            if node.host.as_str().is_empty() || t.remote.as_str().is_empty() {
                None
            } else {
                Some(node.host.clone().concat(":").concat(t.remote.as_str()))
            }
        },
        None => None,
    }
}

/// A node's id and, where it is known, its name.
pub open spec fn label(node_id: u64, nodes: Map<u64, Node>) -> Seq<char> {
    if nodes.contains_key(node_id) {
        "#"@ + decimal(node_id as nat) + " "@ + nodes[node_id].name@
    } else {
        "#"@ + decimal(node_id as nat)
    }
}

/// A node in words: `"#218 name"`, or `"#218"` for one that is not known.
pub fn node_label(node_id: u64, nodes: &HashMap<u64, Node>) -> (r: String)
    ensures
        r@ == label(node_id, nodes@),
{
    let id: String = "#".to_owned().concat(decimal_of(node_id).as_str());
    match nodes.get(&node_id) {
        Some(node) => id.concat(" ").concat(node.name.as_str()),
        None => id,
    }
}

/// `n` bytes as the tunnel list shows them: whole bytes and kilobytes, megabytes
/// to one decimal place and the larger units to two, without zeros that say
/// nothing.
pub open spec fn traffic_size(n: nat) -> Seq<char> {
    if n >= TB {
        shortened(two_places(n, TB as nat)) + " TB"@
    } else if n >= GB {
        shortened(two_places(n, GB as nat)) + " GB"@
    } else if n >= MB {
        shortened(one_place(n, MB as nat)) + " MB"@
    } else if n >= KB {
        decimal(n / (KB as nat)) + " KB"@
    } else {
        decimal(n) + " B"@
    }
}

/// `n` bytes in words: `"1.2 GB"`, `"512 MB"`, `"42 KB"`, `"7 B"`.
pub fn fmt_bytes(n: u64) -> (r: String)
    ensures
        r@ == traffic_size(n as nat),
{
    if n >= TB {
        shorten(two_places_of(n, TB).as_str()).concat(" TB")
    } else if n >= GB {
        shorten(two_places_of(n, GB).as_str()).concat(" GB")
    } else if n >= MB {
        shorten(one_place_of(n, MB).as_str()).concat(" MB")
    } else if n >= KB {
        decimal_of(n / KB).concat(" KB")
    } else {
        decimal_of(n).concat(" B")
    }
}

/// The part of a token that may be shown: its first four characters, or all
/// where it has fewer.
pub open spec fn shown_part(token: Seq<char>) -> Seq<char> {
    token.take(if token.len() < 4 { token.len() as int } else { 4 })
}

/// A token with all but its first four characters hidden.
pub open spec fn redacted(token: Seq<char>) -> Seq<char> {
    shown_part(token) + "****"@
}

/// A token to show: its first four characters and four stars.
pub fn redact_token(token: &str) -> (r: String)
    ensures
        r@ == redacted(token@),
{
    let v: Vec<char> = chars_of(token);
    let n: usize = if v.len() < 4 {
        v.len()
    } else {
        4
    };
    let shown: String = string_of(v.as_slice(), 0, n);
    assert(shown@ =~= token@.take(n as int));
    shown.concat("****")
}

// ---------- Laws ----------

/// No two errors read alike: what went wrong can be told from the message.
pub proof fn law_messages_tell_errors_apart(a: ErrorView, b: ErrorView)
    ensures
        a.message() == b.message() ==> a == b,
{
    reveal_strlit("401 Unauthorized");
    reveal_strlit("403 Forbidden");
    reveal_strlit(" server error");
    reveal_strlit("HTTP ");
    reveal_strlit("network: ");
    reveal_strlit("parse: ");
    lemma_message_ends(a);
    lemma_message_ends(b);
    if a.message() == b.message() {
        match (a, b) {
            (ErrorView::ServerError(x), ErrorView::ServerError(y)) => {
                assert(a.message().take(a.message().len() - 13) =~= decimal(x as nat));
                assert(b.message().take(b.message().len() - 13) =~= decimal(y as nat));
                law_decimal_tells_apart(x as nat, y as nat);
            },
            (ErrorView::HttpError(x), ErrorView::HttpError(y)) => {
                assert(a.message().skip(5) =~= decimal(x as nat));
                assert(b.message().skip(5) =~= decimal(y as nat));
                law_decimal_tells_apart(x as nat, y as nat);
            },
            (ErrorView::Network(x), ErrorView::Network(y)) => {
                assert(a.message().skip(9) =~= x);
                assert(b.message().skip(9) =~= y);
            },
            (ErrorView::Parse(x), ErrorView::Parse(y)) => {
                assert(a.message().skip(7) =~= x);
                assert(b.message().skip(7) =~= y);
            },
            _ => {},
        }
    }
}

/// How each kind of message begins and ends.
proof fn lemma_message_ends(e: ErrorView)
    ensures
        e.message().len() > 0,
        match e {
            ErrorView::Unauthorized => e.message()[0] == '4' && e.message().last() == 'd',
            ErrorView::Forbidden => e.message()[0] == '4' && e.message().last() == 'n',
            ErrorView::ServerError(_) => is_digit(e.message()[0]) && e.message().last() == 'r',
            ErrorView::HttpError(_) => e.message()[0] == 'H',
            ErrorView::Network(_) => e.message()[0] == 'n',
            ErrorView::Parse(_) => e.message()[0] == 'p',
        },
{
    reveal_strlit("401 Unauthorized");
    reveal_strlit("403 Forbidden");
    reveal_strlit(" server error");
    reveal_strlit("HTTP ");
    reveal_strlit("network: ");
    reveal_strlit("parse: ");
    if let ErrorView::ServerError(code) = e {
        lemma_decimal_digits(code as nat);
        let d = decimal(code as nat);
        assert(is_digit(d[0]));
        assert(e.message()[0] == d[0]);
    }
}

/// A status is told in full: different statuses are different errors.
pub proof fn law_statuses_stay_apart(a: u16, b: u16)
    ensures
        status_error(a) == status_error(b) ==> a == b,
{
}

/// The launcher's answer means the same whether its list stands alone or in the
/// field `tunnels` of an object.
pub proof fn law_envelope_is_its_list(items: Seq<JsonTree>, fields: Seq<(Seq<char>, JsonTree)>)
    requires
        JsonTree::Object(fields).get("tunnels"@) == Some(JsonTree::Array(items)),
    ensures
        launcher_states(JsonTree::Object(fields)) == launcher_states(JsonTree::Array(items)),
{
}

/// An entry tells the state of the tunnel `id`.
pub open spec fn tells(t: JsonTree, id: u64) -> bool {
    entry_id(t) == Some(id) && entry_state(t) is Some
}

/// A tunnel's state is known exactly where an entry has both its id and a
/// state.
pub proof fn law_states_come_from_entries(items: Seq<JsonTree>, id: u64)
    ensures
        listed_states(items).contains_key(id) <==> exists|i: int|
            0 <= i < items.len() && tells(#[trigger] items[i], id),
    decreases items.len(),
{
    if items.len() > 0 {
        let rest = items.drop_last();
        let last = items.len() - 1;
        law_states_come_from_entries(rest, id);
        assert(items.last() == items[last]);
        if tells(items[last], id) {
            assert(listed_states(items).contains_key(id));
        } else if listed_states(rest).contains_key(id) {
            let i = choose|i: int| 0 <= i < rest.len() && tells(#[trigger] rest[i], id);
            assert(tells(items[i], id));
        } else if exists|i: int| 0 <= i < items.len() && tells(#[trigger] items[i], id) {
            let i = choose|i: int| 0 <= i < items.len() && tells(#[trigger] items[i], id);
            assert(tells(rest[i], id));
        }
    }
}

/// Where several entries tell of a tunnel, the last of them counts.
pub proof fn law_last_entry_counts(items: Seq<JsonTree>, id: u64, i: int)
    requires
        0 <= i < items.len(),
        tells(items[i], id),
        forall|j: int| i < j < items.len() ==> !tells(#[trigger] items[j], id),
    ensures
        listed_states(items).contains_key(id),
        listed_states(items)[id] == entry_state(items[i])->0,
    decreases items.len(),
{
    let rest = items.drop_last();
    let last = items.len() - 1;
    assert(items.last() == items[last]);
    if i < last {
        assert(rest[i] == items[i]);
        assert forall|j: int| i < j < rest.len() implies !tells(#[trigger] rest[j], id) by {
            assert(rest[j] == items[j]);
        }
        law_last_entry_counts(rest, id, i);
        assert(!tells(items[last], id));
    }
}

/// Of an object from ids to states, a tunnel's state is known exactly where a
/// field is called by its id and is true or false.
pub proof fn law_flat_fields_tell(fields: Seq<(Seq<char>, JsonTree)>, id: u64)
    ensures
        flat_states(fields).contains_key(id) <==> exists|i: int|
            0 <= i < fields.len() && number((#[trigger] fields[i]).0) == Some(id)
                && fields[i].1.as_bool() is Some,
        flat_states(fields).contains_key(id) ==> exists|i: int|
            0 <= i < fields.len() && number((#[trigger] fields[i]).0) == Some(id)
                && fields[i].1.as_bool() == Some(flat_states(fields)[id]),
    decreases fields.len(),
{
    if fields.len() > 0 {
        let rest = fields.drop_last();
        let last = fields.len() - 1;
        law_flat_fields_tell(rest, id);
        assert(fields.last() == fields[last]);
        assert(forall|i: int| 0 <= i < rest.len() ==> #[trigger] rest[i] == fields[i]);
        if number(fields[last].0) == Some(id) && fields[last].1.as_bool() is Some {
            assert(fields[last].1.as_bool() == Some(flat_states(fields)[id]));
        } else if flat_states(rest).contains_key(id) {
            let i = choose|i: int|
                0 <= i < rest.len() && number((#[trigger] rest[i]).0) == Some(id)
                    && rest[i].1.as_bool() == Some(flat_states(rest)[id]);
            assert(fields[i] == rest[i]);
        } else if exists|i: int|
            0 <= i < fields.len() && number((#[trigger] fields[i]).0) == Some(id)
                && fields[i].1.as_bool() is Some {
            let i = choose|i: int|
                0 <= i < fields.len() && number((#[trigger] fields[i]).0) == Some(id)
                    && fields[i].1.as_bool() is Some;
            assert(number(rest[i].0) == Some(id));
        }
    }
}

/// A token that is shown gives away its first four characters and nothing more:
/// tokens are shown alike exactly where these are alike, in at most eight
/// characters.
pub proof fn law_redaction_hides_the_rest(a: Seq<char>, b: Seq<char>)
    ensures
        redacted(a).len() <= 8,
        redacted(a) == redacted(b) <==> shown_part(a) == shown_part(b),
{
    reveal_strlit("****");
    assert(redacted(a).take(redacted(a).len() - 4) =~= shown_part(a));
    assert(redacted(b).take(redacted(b).len() - 4) =~= shown_part(b));
}

/// A whole number of a unit is shown as that number and the unit.
pub proof fn law_whole_sizes_show_the_number(count: nat)
    requires
        1 <= count < 1024,
    ensures
        traffic_size(count) == decimal(count) + " B"@,
        traffic_size(count * KB as nat) == decimal(count) + " KB"@,
        traffic_size(count * MB as nat) == decimal(count) + " MB"@,
        traffic_size(count * GB as nat) == decimal(count) + " GB"@,
        traffic_size(count * TB as nat) == decimal(count) + " TB"@,
{
    law_whole_units_shorten_to_the_number(count, MB as nat);
    law_whole_units_shorten_to_the_number(count, GB as nat);
    law_whole_units_shorten_to_the_number(count, TB as nat);
}

/// An address is given exactly where the node is known, has a host, and the
/// public port is known; it then begins with that host and ends with that port.
pub proof fn law_address_is_host_and_port(t: Tunnel, nodes: Map<u64, Node>)
    ensures
        address(t, nodes) is Some <==> nodes.contains_key(t.node) && nodes[t.node].host@.len() > 0
            && t.remote@.len() > 0,
        address(t, nodes) matches Some(a) ==> nodes[t.node].host@.is_prefix_of(a)
            && t.remote@.is_suffix_of(a),
{
    if address(t, nodes) is Some {
        let a = address(t, nodes)->0;
        let host = nodes[t.node].host@;
        assert(a.subrange(0, host.len() as int) =~= host);
        assert(a.subrange(a.len() - t.remote@.len(), a.len() as int) =~= t.remote@);
    }
}

} // verus!
