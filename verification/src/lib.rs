//! Client-side orchestration for a media platform's paged REST API.
//!
//! The crate contains the decision logic of the client: following
//! continuation cursors across pages, classifying transient server failures
//! for retry, selecting a downloadable transcoding variant, backfilling
//! incomplete track records in batches, and producing the progress events
//! that an observer receives.  Every network exchange is represented as a
//! plain [`Request`] value handed to the caller and an outcome value handed
//! back, so the logic itself is verified while the transport stays outside.

use vstd::prelude::*;

pub mod api;
pub mod events;
pub mod text;
pub mod paginate;
pub mod complete;
pub mod json;
pub mod audio;
pub mod fill;

use crate::api::me::Me;
use crate::api::likes::Collection;
use crate::api::playlists::PlaylistCollection;
use crate::paginate::Paginator;
use crate::text::{int_dec, join_ids, i64_to_dec_string, join_ids_string, str_concat};

verus! {

/// Base URL that all authenticated API paths are appended to.
pub const API_BASE: &'static str = "https://api-v2.soundcloud.com/";

/// Seconds to pause after the server answers with a 5xx status.
pub const PAUSE_SECS: u64 = 2;

/// The failures that an operation can surface.
///
/// The payloads of the transport and decoding failures stay with the caller
/// that performed the exchange; the logic here only needs the class of the
/// failure (and, for an HTTP failure, the status code).
#[derive(Debug, Clone, PartialEq, Eq)]
pub enum Error {
    /// A connect or I/O level failure below HTTP.
    IoError,
    /// A response body that did not decode as the expected JSON.
    JsonDecodeError,
    /// A response with a status code outside 200..=299; carries the code.
    HttpError(u16),
    /// Something we needed wasn't present in the JSON.
    ///
    /// (The "something" is described by the string.)
    DataNotPresent(String),
}

/// Whether the given HTTP status code is a server error (5xx).
pub open spec fn spec_is_500(code: u16) -> bool {
    500 <= code < 600
}

/// Returns true if the given HTTP status code is a 500-range code.
pub fn is_500(code: u16) -> (r: bool)
    ensures
        r == spec_is_500(code),
{
    code >= 500 && code < 600
}

/// Whether a failure is a transient server error: the only class of failure
/// that is paused on and retried instead of surfaced.
pub open spec fn is_server_error(e: Error) -> bool {
    e matches Error::HttpError(code) && spec_is_500(code)
}

/// Returns true if the failure is a 5xx HTTP failure, the class that is
/// retried after a pause.
pub fn is_server_error_exec(e: &Error) -> (r: bool)
    ensures
        r == is_server_error(*e),
{
    match e {
        Error::HttpError(code) => is_500(*code),
        _ => false,
    }
}

/// What a step of a retrying loop asks the loop to do next.
pub enum LoopControl {
    /// Continue on to the next iteration.
    Next,
    /// Retry the current iteration.
    Retry,
}

/// One HTTP GET, described as plain data.
///
/// The caller performs the exchange: `url` with the `query` pairs appended,
/// and, when `oauth_token` is present, an `Authorization: OAuth <token>`
/// header.  A request without a token is sent unauthenticated.
pub struct Request {
    pub url: String,
    pub query: Vec<(String, String)>,
    pub oauth_token: Option<String>,
}

/// Mathematical image of a [`Request`]: every text field as a sequence.
#[verifier::ext_equal]
pub struct ReqView {
    pub url: Seq<char>,
    pub query: Seq<(Seq<char>, Seq<char>)>,
    pub oauth_token: Option<Seq<char>>,
}

impl View for Request {
    type V = ReqView;

    open spec fn view(&self) -> ReqView {
        ReqView {
            url: self.url@,
            query: self.query@.map_values(|p: (String, String)| (p.0@, p.1@)),
            oauth_token: match self.oauth_token {
                Some(t) => Some(t@),
                None => None,
            },
        }
    }
}

/// The configuration a long-running operation carries: the credentials that
/// authenticated requests are stamped with and the pause taken after a
/// transient server failure.
pub struct ClientCfg {
    pub client_id: String,
    pub oauth_token: String,
    pub pause_secs: u64,
}

/// Mathematical image of a [`ClientCfg`].
#[verifier::ext_equal]
pub struct ClientCfgView {
    pub client_id: Seq<char>,
    pub oauth_token: Seq<char>,
    pub pause_secs: u64,
}

impl View for ClientCfg {
    type V = ClientCfgView;

    open spec fn view(&self) -> ClientCfgView {
        ClientCfgView {
            client_id: self.client_id@,
            oauth_token: self.oauth_token@,
            pause_secs: self.pause_secs,
        }
    }
}

impl Clone for ClientCfg {
    /// An exact copy: both credentials and the pause carry over.
    fn clone(&self) -> (r: Self)
        ensures
            r@ =~= self@,
    {
        ClientCfg {
            client_id: self.client_id.clone(),
            oauth_token: self.oauth_token.clone(),
            pause_secs: self.pause_secs,
        }
    }
}

/// The view of an exec query list.
pub open spec fn query_view(q: Seq<(String, String)>) -> Seq<(Seq<char>, Seq<char>)> {
    q.map_values(|p: (String, String)| (p.0@, p.1@))
}

/// The initial request of the liked-tracks listing for the given user.
pub open spec fn likes_request_view(cfg: ClientCfgView, user_id: i64) -> ReqView {
    ReqView {
        url: API_BASE@ + "users/"@ + int_dec(user_id as int) + "/track_likes"@,
        query: seq![
            ("limit"@, "500"@),
            ("offset"@, "0"@),
            ("linked_partitioning"@, "1"@),
            ("client_id"@, cfg.client_id),
        ],
        oauth_token: Some(cfg.oauth_token),
    }
}

/// The initial request of the playlists listing for the given user.
pub open spec fn playlists_request_view(cfg: ClientCfgView, user_id: i64) -> ReqView {
    ReqView {
        url: API_BASE@ + "users/"@ + int_dec(user_id as int) + "/playlists/liked_and_owned"@,
        query: seq![
            ("limit"@, "50"@),
            ("offset"@, "0"@),
            ("linked_partitioning"@, "1"@),
            ("client_id"@, cfg.client_id),
        ],
        oauth_token: Some(cfg.oauth_token),
    }
}

/// The `Zester` provides the functionality to "zest" the platform for data
/// once constructed.
///
/// Methods that mention "the user" refer to the user whose credentials were
/// provided when creating the struct.  Each fetching method hands back the
/// machine that drives that operation: the caller performs the machine's
/// pending exchanges and feeds the outcomes back in.
pub struct Zester {
    pub(crate) oauth_token: String,
    pub(crate) client_id: String,
    pub(crate) pause_secs: u64,
    pub me: Option<Me>,
}

impl Zester {
    /// The stored record of the authenticated user.
    pub closed spec fn me_model(&self) -> Option<Me> {
        self.me
    }

    /// The OAuth token every authenticated request carries.
    pub closed spec fn oauth_model(&self) -> Seq<char> {
        self.oauth_token@
    }

    /// The client id attached to API requests.
    pub closed spec fn client_model(&self) -> Seq<char> {
        self.client_id@
    }

    /// The pause taken after a transient server failure.
    pub closed spec fn pause_model(&self) -> u64 {
        self.pause_secs
    }

    /// The configuration handed to the operation machines.
    pub open spec fn cfg_model(&self) -> ClientCfgView {
        ClientCfgView {
            client_id: self.client_model(),
            oauth_token: self.oauth_model(),
            pause_secs: self.pause_model(),
        }
    }

    /// Construct a new `Zester` with the given credentials.
    ///
    /// The user record is not known yet: fetch it through the request that
    /// [`Zester::me`] builds and store it in the public `me` field before
    /// beginning an operation that needs the user's id.
    pub fn new(oauth_token: String, client_id: String) -> (z: Self)
        ensures
            z.oauth_model() == oauth_token@,
            z.client_model() == client_id@,
            z.pause_model() == PAUSE_SECS,
            z.me_model() is None,
    {
        Zester { oauth_token, client_id, pause_secs: PAUSE_SECS, me: None }
    }

    /// Store the record of the authenticated user, fetched through the
    /// request that [`Zester::me`] builds; operations that need the user's
    /// id require it to be present.
    pub fn set_me(&mut self, me: Me)
        ensures
            final(self).me_model() == Some(me),
            final(self).oauth_model() == old(self).oauth_model(),
            final(self).client_model() == old(self).client_model(),
            final(self).pause_model() == old(self).pause_model(),
    {
        self.me = Some(me);
    }

    /// Configure the pause taken after a transient server failure.
    pub fn set_pause_secs(&mut self, secs: u64)
        ensures
            final(self).pause_model() == secs,
            final(self).oauth_model() == old(self).oauth_model(),
            final(self).client_model() == old(self).client_model(),
            final(self).me_model() == old(self).me_model(),
    {
        self.pause_secs = secs;
    }

    /// The configuration an operation machine carries away.
    pub(crate) fn cfg(&self) -> (c: ClientCfg)
        ensures
            c@ =~= self.cfg_model(),
    {
        ClientCfg {
            client_id: self.client_id.clone(),
            oauth_token: self.oauth_token.clone(),
            pause_secs: self.pause_secs,
        }
    }

    /// An API request against a fully qualified URL: the query parameters,
    /// the client id when asked for, and the user's authorization.
    pub fn api_req_full(&self, path: &str, query_params: Vec<(String, String)>, add_client_id: bool) -> (r: Request)
        ensures
            r@.url == path@,
            r@.query =~= query_view(query_params@) + (if add_client_id {
                seq![("client_id"@, self.client_model())]
            } else {
                Seq::<(Seq<char>, Seq<char>)>::empty()
            }),
            r@.oauth_token == Some(self.oauth_model()),
    {
        let ghost given = query_params@;
        let mut query = query_params;
        if add_client_id {
            query.push(("client_id".to_owned(), self.client_id.clone()));
            proof {
                assert(query_view(query@) =~= query_view(given) + seq![
                    ("client_id"@, self.client_model()),
                ]);
            }
        } else {
            proof {
                assert(query_view(query@) =~= query_view(given) + Seq::<
                    (Seq<char>, Seq<char>),
                >::empty());
            }
        }
        Request { url: path.to_owned(), query, oauth_token: Some(self.oauth_token.clone()) }
    }

    /// An API request against a path below the API base URL.
    pub fn api_req(&self, path: &str, query_params: Vec<(String, String)>) -> (r: Request)
        ensures
            r@.url =~= API_BASE@ + path@,
            r@.query =~= query_view(query_params@) + seq![("client_id"@, self.client_model())],
            r@.oauth_token == Some(self.oauth_model()),
    {
        let url = str_concat(API_BASE, path);
        self.api_req_full(url.as_str(), query_params, true)
    }

    /// The request that fetches information about the user; its decoded
    /// body belongs in the `me` field.
    pub fn me(&self) -> (r: Request)
        ensures
            r@.url =~= API_BASE@ + "me"@,
            r@.query =~= seq![("client_id"@, self.client_model())],
            r@.oauth_token == Some(self.oauth_model()),
    {
        let r = self.api_req("me", Vec::new());
        proof {
            assert(query_view(Seq::<(String, String)>::empty()) =~= Seq::<
                (Seq<char>, Seq<char>),
            >::empty());
            assert(r@.query =~= seq![("client_id"@, self.client_model())]);
        }
        r
    }

    /// Begin fetching all of the user's liked tracks: the paginator that
    /// follows the listing's continuation cursor, aimed at its first page.
    pub fn likes(&self) -> (r: Paginator<Collection>)
        requires
            self.me_model() matches Some(m) && m.id is Some,
        ensures
            r@.collected =~= Seq::<Collection>::empty(),
            r@.phase is Active,
            r@.pending =~= likes_request_view(self.cfg_model(), self.me_model()->Some_0.id->Some_0),
            r.cfg_view() =~= self.cfg_model(),
    {
        let id = match &self.me {
            Some(m) => match m.id {
                Some(id) => id,
                None => {
                    proof {
                        assert(false);
                    }
                    0
                },
            },
            None => {
                proof {
                    assert(false);
                }
                0
            },
        };
        let id_text = i64_to_dec_string(id);
        let path = str_concat(str_concat("users/", id_text.as_str()).as_str(), "/track_likes");
        let mut params: Vec<(String, String)> = Vec::new();
        params.push(("limit".to_owned(), "500".to_owned()));
        params.push(("offset".to_owned(), "0".to_owned()));
        params.push(("linked_partitioning".to_owned(), "1".to_owned()));
        let req = self.api_req(path.as_str(), params);
        proof {
            assert(req@.query =~= likes_request_view(
                self.cfg_model(),
                self.me_model()->Some_0.id->Some_0,
            ).query);
            assert(req@.url =~= likes_request_view(
                self.cfg_model(),
                self.me_model()->Some_0.id->Some_0,
            ).url);
        }
        Paginator::new(self.cfg(), req)
    }

    /// Begin fetching the metadata pages of all of the user's liked and
    /// created playlists: the paginator over the playlists listing.
    pub fn playlists(&self) -> (r: Paginator<PlaylistCollection>)
        requires
            self.me_model() matches Some(m) && m.id is Some,
        ensures
            r@.collected =~= Seq::<PlaylistCollection>::empty(),
            r@.phase is Active,
            r@.pending =~= playlists_request_view(self.cfg_model(), self.me_model()->Some_0.id->Some_0),
            r.cfg_view() =~= self.cfg_model(),
    {
        let id = match &self.me {
            Some(m) => match m.id {
                Some(id) => id,
                None => {
                    proof {
                        assert(false);
                    }
                    0
                },
            },
            None => {
                proof {
                    assert(false);
                }
                0
            },
        };
        let id_text = i64_to_dec_string(id);
        let path = str_concat(
            str_concat("users/", id_text.as_str()).as_str(),
            "/playlists/liked_and_owned",
        );
        let mut params: Vec<(String, String)> = Vec::new();
        params.push(("limit".to_owned(), "50".to_owned()));
        params.push(("offset".to_owned(), "0".to_owned()));
        params.push(("linked_partitioning".to_owned(), "1".to_owned()));
        let req = self.api_req(path.as_str(), params);
        proof {
            assert(req@.query =~= playlists_request_view(
                self.cfg_model(),
                self.me_model()->Some_0.id->Some_0,
            ).query);
            assert(req@.url =~= playlists_request_view(
                self.cfg_model(),
                self.me_model()->Some_0.id->Some_0,
            ).url);
        }
        Paginator::new(self.cfg(), req)
    }

    /// The batch request that looks up information for the given track ids.
    pub fn tracks_info(&self, ids: &Vec<u64>) -> (r: Request)
        ensures
            r@.url =~= API_BASE@ + "tracks"@,
            r@.query =~= seq![("ids"@, join_ids(ids@)), ("client_id"@, self.client_model())],
            r@.oauth_token == Some(self.oauth_model()),
    {
        let mut params: Vec<(String, String)> = Vec::new();
        params.push(("ids".to_owned(), join_ids_string(ids)));
        let r = self.api_req("tracks", params);
        proof {
            assert(r@.query =~= seq![("ids"@, join_ids(ids@)), (
                "client_id"@,
                self.client_model(),
            )]);
        }
        r
    }
}

/// One step of a retrying loop relates a state and an item to the next
/// state and a control decision, as the step function's contract allows.
pub open spec fn retry_trace_steps<T, S, F: Fn(S, T) -> (S, LoopControl)>(
    body: F,
    items: Seq<T>,
    tr: Seq<(S, int)>,
) -> bool {
    forall|n: int|
        0 <= n < tr.len() - 1 ==> {
            &&& 0 <= (#[trigger] tr[n]).1 < items.len()
            &&& (tr[n + 1].1 == tr[n].1 + 1 || tr[n + 1].1 == tr[n].1)
            &&& call_ensures(
                body,
                (tr[n].0, items[tr[n].1]),
                (
                    tr[n + 1].0,
                    if tr[n + 1].1 == tr[n].1 + 1 {
                        LoopControl::Next
                    } else {
                        LoopControl::Retry
                    },
                ),
            )
        }
}

/// A full trace of a retrying loop: it starts at the initial state on the
/// first item, every step either stays on its item (a retry) or advances by
/// one, each as the step function allows, and it ends in the final state —
/// past the last item exactly when the loop reports completion.
pub open spec fn retry_loop_trace<T, S, F: Fn(S, T) -> (S, LoopControl)>(
    body: F,
    items: Seq<T>,
    s0: S,
    tr: Seq<(S, int)>,
    sf: S,
    completed: bool,
) -> bool {
    &&& tr.len() >= 1
    &&& tr[0] == (s0, 0int)
    &&& tr.last().0 == sf
    &&& 0 <= tr.last().1 <= items.len()
    &&& (completed <==> tr.last().1 == items.len())
    &&& retry_trace_steps(body, items, tr)
}

/// How a run that stopped short shows it in its trace: the loop spent the
/// whole ceiling on one item, so the trailing `retry_ceiling + 2` entries
/// all stand on the item the loop gave up on.
pub open spec fn gave_up_on_last<S>(tr: Seq<(S, int)>, retry_ceiling: u64) -> bool {
    &&& tr.len() >= retry_ceiling + 2
    &&& forall|n: int|
        tr.len() - (retry_ceiling + 2) <= n < tr.len() ==> (#[trigger] tr[n]).1 == tr.last().1
}

/// Loop through the given items with the ability to "retry" any iteration
/// from the top of the loop body.
///
/// The loop stays on an item as long as the body answers `Retry` and moves
/// to the next item on `Next`; it never skips an item and never advances on
/// a retry.  `retry_ceiling` bounds the consecutive retries of one item —
/// the safe generalization of retrying indefinitely, which no terminating
/// loop can offer — and when the ceiling is exhausted the loop stops early,
/// handing back the state it reached with the completion flag cleared.
///
/// The trace that comes back certifies the run: it leads from the initial
/// state to the result by body steps, it ends past the last item exactly
/// when the flag is set, and a cleared flag shows the spent ceiling — the
/// trailing entries all standing on one item.  A body that can only answer
/// `Next` therefore provably completes: see [`lemma_retry_loop_completes`].
pub fn retry_loop<T: Copy, S, F: Fn(S, T) -> (S, LoopControl)>(
    items: &Vec<T>,
    init: S,
    body: F,
    retry_ceiling: u64,
) -> (r: (S, bool, Ghost<Seq<(S, int)>>))
    requires
        forall|s: S, i: int| 0 <= i < items@.len() ==> call_requires(body, (s, items@[i])),
    ensures
        retry_loop_trace(body, items@, init, r.2@, r.0, r.1),
        !r.1 ==> gave_up_on_last(r.2@, retry_ceiling),
{
    let ghost s0 = init;
    let ghost mut tr: Seq<(S, int)> = seq![(init, 0int)];
    let mut s = init;
    let mut i: usize = 0;
    let mut fuel: u64 = retry_ceiling;
    let mut gave_up = false;
    while i < items.len()
        invariant_except_break
            !gave_up,
            i <= items@.len(),
            forall|s2: S, j: int| 0 <= j < items@.len() ==> call_requires(body, (s2, items@[j])),
            tr.len() >= 1,
            tr[0] == (s0, 0int),
            tr.last() == (s, i as int),
            retry_trace_steps(body, items@, tr),
            fuel <= retry_ceiling,
            tr.len() >= retry_ceiling - fuel + 1,
            forall|n: int|
                tr.len() - (retry_ceiling - fuel + 1) <= n < tr.len() ==> (#[trigger] tr[n]).1
                    == i as int,
        ensures
            tr.len() >= 1,
            tr[0] == (s0, 0int),
            tr.last() == (s, i as int),
            retry_trace_steps(body, items@, tr),
            i <= items@.len(),
            gave_up ==> i < items@.len(),
            !gave_up ==> i == items@.len(),
            gave_up ==> gave_up_on_last(tr, retry_ceiling),
        decreases items@.len() - i, fuel,
    {
        let ghost tr_before = tr;
        let (s2, c) = body(s, items[i]);
        match c {
            LoopControl::Next => {
                proof {
                    tr = tr.push((s2, i as int + 1));
                    lemma_trace_extend(body, items@, tr_before, tr, s, i as int, s2, i as int + 1);
                }
                i = i + 1;
                fuel = retry_ceiling;
                s = s2;
            },
            LoopControl::Retry => {
                proof {
                    tr = tr.push((s2, i as int));
                    lemma_trace_extend(body, items@, tr_before, tr, s, i as int, s2, i as int);
                    assert forall|n: int|
                        tr.len() - (retry_ceiling - fuel + 2) <= n < tr.len() implies (
                    #[trigger] tr[n]).1 == i as int by {
                        if n < tr.len() - 1 {
                            assert(tr[n] == tr_before[n]);
                        } else {
                            assert(tr[n] == (s2, i as int));
                        }
                    }
                }
                s = s2;
                if fuel == 0 {
                    proof {
                        assert(tr.last().1 == i as int);
                        assert(gave_up_on_last(tr, retry_ceiling));
                    }
                    gave_up = true;
                    break;
                }
                fuel = fuel - 1;
            },
        }
    }
    let trace: Ghost<Seq<(S, int)>> = Ghost(tr);
    let r_tuple = (s, !gave_up, trace);
    proof {
        assert(retry_loop_trace(body, items@, s0, r_tuple.2@, r_tuple.0, r_tuple.1));
    }
    r_tuple
}

/// A step function that can only answer `Next` completes the loop: its
/// trace advances at every step — each item handled exactly once, in order —
/// so no ceiling is ever spent and the completion flag holds.
pub proof fn lemma_retry_loop_completes<T, S, F: Fn(S, T) -> (S, LoopControl)>(
    body: F,
    items: Seq<T>,
    s0: S,
    tr: Seq<(S, int)>,
    sf: S,
    completed: bool,
    retry_ceiling: u64,
)
    requires
        forall|s: S, t: T, out: (S, LoopControl)|
            #[trigger] call_ensures(body, (s, t), out) ==> out.1 is Next,
        retry_loop_trace(body, items, s0, tr, sf, completed),
        !completed ==> gave_up_on_last(tr, retry_ceiling),
    ensures
        completed,
        tr.len() == items.len() + 1,
        forall|n: int| 0 <= n < tr.len() ==> (#[trigger] tr[n]).1 == n,
{
    assert forall|n: int| 0 <= n < tr.len() - 1 implies (#[trigger] tr[n + 1]).1 == tr[n].1
        + 1 by {
        assert(0 <= (tr[n]).1 < items.len());
        if tr[n + 1].1 == tr[n].1 {
            assert(call_ensures(
                body,
                (tr[n].0, items[tr[n].1]),
                (tr[n + 1].0, LoopControl::Retry),
            ));
            assert(false);
        }
    }
    if !completed {
        assert(tr.len() >= retry_ceiling + 2);
        assert(tr[tr.len() - 2].1 == tr.last().1);
        assert(tr[tr.len() - 1].1 == tr[tr.len() - 2].1 + 1);
        assert(false);
    }
    assert forall|n: int| 0 <= n < tr.len() implies (#[trigger] tr[n]).1 == n by {
        lemma_trace_indices(tr, n);
    }
    assert(tr.last().1 == items.len());
    assert(tr[tr.len() - 1].1 == tr.len() - 1);
}

/// In a trace that advances at every step, the n-th entry stands on item n.
proof fn lemma_trace_indices<S>(tr: Seq<(S, int)>, n: int)
    requires
        0 <= n < tr.len(),
        tr[0].1 == 0,
        forall|m: int| 0 <= m < tr.len() - 1 ==> (#[trigger] tr[m + 1]).1 == tr[m].1 + 1,
    ensures
        tr[n].1 == n,
    decreases n,
{
    if n > 0 {
        lemma_trace_indices(tr, n - 1);
        assert(tr[(n - 1) + 1].1 == tr[n - 1].1 + 1);
    }
}

/// Pushing one body step onto a valid trace keeps it valid.
proof fn lemma_trace_extend<T, S, F: Fn(S, T) -> (S, LoopControl)>(
    body: F,
    items: Seq<T>,
    tr_before: Seq<(S, int)>,
    tr: Seq<(S, int)>,
    s: S,
    i: int,
    s2: S,
    i2: int,
)
    requires
        retry_trace_steps(body, items, tr_before),
        tr_before.len() >= 1,
        tr_before.last() == (s, i),
        tr == tr_before.push((s2, i2)),
        0 <= i < items.len(),
        i2 == i + 1 || i2 == i,
        call_ensures(
            body,
            (s, items[i]),
            (s2, if i2 == i + 1 { LoopControl::Next } else { LoopControl::Retry }),
        ),
    ensures
        retry_trace_steps(body, items, tr),
{
    assert forall|n: int| 0 <= n < tr.len() - 1 implies {
        &&& 0 <= (#[trigger] tr[n]).1 < items.len()
        &&& (tr[n + 1].1 == tr[n].1 + 1 || tr[n + 1].1 == tr[n].1)
        &&& call_ensures(
            body,
            (tr[n].0, items[tr[n].1]),
            (
                tr[n + 1].0,
                if tr[n + 1].1 == tr[n].1 + 1 {
                    LoopControl::Next
                } else {
                    LoopControl::Retry
                },
            ),
        )
    } by {
        if n < tr.len() - 2 {
            assert(tr[n] == tr_before[n]);
            assert(tr[n + 1] == tr_before[n + 1]);
        } else {
            assert(tr[n] == (s, i));
            assert(tr[n + 1] == (s2, i2));
        }
    }
}

} // verus!
