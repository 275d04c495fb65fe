//! The search handler's logic: the query window, the assembly of the reply
//! from the index's hits, and the plan for publishing that reply.
//!
//! The index round-trip itself is HTTP and stays outside the library; what
//! comes back enters through [`search_response_from_es_body`], and what goes
//! out to the caller's reply queue is fixed by [`reply_publish_plan`].

use vstd::prelude::*;
use vstd::string::StringExecFns;

use crate::errors::ErrorKind;
use crate::messages::SearchResponse;
use crate::numeric::{parse_i64, push_dec_i64, spec_dec_i64, spec_parse_i64};

verus! {

/// Ids shown per result page.
pub const RESULTS_PER_PAGE: i64 = 6;

/// Pages reachable through the vector side of the query.
pub const KNN_PAGES: i64 = 20;

/// `k` of the kNN clause: enough neighbours for `KNN_PAGES` pages.
pub const KNN_K: i64 = RESULTS_PER_PAGE * KNN_PAGES;

/// The page window of the combined query: `from = page * RESULTS_PER_PAGE`
/// and `size = RESULTS_PER_PAGE + 1` — one extra hit, to learn whether a
/// further page exists.  `None` when the page is negative or the offset
/// would not fit in an `i64`.
pub fn search_window(page: i64) -> (r: Option<(i64, i64)>)
    ensures
        match r {
            Some(ws) => {
                &&& 0 <= page
                &&& page * RESULTS_PER_PAGE <= i64::MAX
                &&& ws.0 == page * RESULTS_PER_PAGE
                &&& ws.1 == RESULTS_PER_PAGE + 1
            },
            None => page < 0 || page * RESULTS_PER_PAGE > i64::MAX,
        },
{
    if page < 0 {
        return None;
    }
    if page > i64::MAX / RESULTS_PER_PAGE {
        proof {
            assert(page * RESULTS_PER_PAGE > i64::MAX) by (nonlinear_arith)
                requires
                    page > i64::MAX / RESULTS_PER_PAGE,
                    page >= 0,
            ;
        }
        return None;
    }
    proof {
        assert(page * RESULTS_PER_PAGE <= i64::MAX) by (nonlinear_arith)
            requires
                0 <= page <= i64::MAX / RESULTS_PER_PAGE,
        ;
    }
    Some((page * RESULTS_PER_PAGE, RESULTS_PER_PAGE + 1))
}

/// JSON text of a list of ids: decimal values joined by commas.
pub open spec fn spec_ids_json(ids: Seq<i64>) -> Seq<char>
    decreases ids.len(),
{
    if ids.len() == 0 {
        Seq::empty()
    } else if ids.len() == 1 {
        spec_dec_i64(ids[0] as int)
    } else {
        spec_ids_json(ids.drop_last()) + ","@ + spec_dec_i64(ids.last() as int)
    }
}

/// JSON text of a [`SearchResponse`], exactly as it goes on the wire.
pub open spec fn spec_response_json(ids: Seq<i64>, last_page: bool) -> Seq<char> {
    "{\"ids\":["@ + spec_ids_json(ids) + "],\"last_page\":"@ + (if last_page {
        "true"@
    } else {
        "false"@
    }) + "}"@
}

/// Renders a [`SearchResponse`] as its wire JSON.
pub fn encode_search_response(response: &SearchResponse) -> (r: String)
    ensures
        r@ == spec_response_json(response.ids@, response.last_page),
{
    let mut out = String::from_str("{\"ids\":[");
    let mut i: usize = 0;
    while i < response.ids.len()
        invariant
            i <= response.ids@.len(),
            out@ == "{\"ids\":["@ + spec_ids_json(response.ids@.subrange(0, i as int)),
        decreases response.ids@.len() - i,
    {
        if i > 0 {
            out.append(",");
        }
        push_dec_i64(&mut out, response.ids[i]);
        proof {
            let pre = response.ids@.subrange(0, i as int);
            let ext = response.ids@.subrange(0, i + 1);
            assert(ext.drop_last() =~= pre);
            assert(ext.last() == response.ids@[i as int]);
            assert(out@ =~= "{\"ids\":["@ + spec_ids_json(ext));
        }
        i = i + 1;
    }
    proof {
        assert(response.ids@.subrange(0, response.ids@.len() as int) =~= response.ids@);
    }
    out.append("],\"last_page\":");
    if response.last_page {
        out.append("true");
    } else {
        out.append("false");
    }
    out.append("}");
    proof {
        assert(out@ =~= spec_response_json(response.ids@, response.last_page));
    }
    out
}

/// The `_id` texts of the hits in a search response body, in ranking order;
/// `None` when the body is not a response with a `hits.hits` array of
/// objects carrying string `_id`s.  The body alone determines the result.
pub uninterp spec fn spec_hit_ids(body: Seq<u8>) -> Option<Seq<Seq<char>>>;

/// Relies on `serde_json::from_slice` and `serde_json::Value`'s accessors:
/// parses the search engine's response body and lifts out the `_id` of each
/// hit under `hits.hits`, in order.
#[verifier::external_body]
fn extract_hit_ids(body: &[u8]) -> (r: Option<Vec<String>>)
    ensures
        match r {
            Some(ids) => spec_hit_ids(body@) == Some(ids.deep_view()),
            None => spec_hit_ids(body@) is None,
        },
{
    let parsed: serde_json::Value = serde_json::from_slice(body).ok()?;
    let hits = parsed.get("hits")?.get("hits")?.as_array()?;
    let mut ids = Vec::with_capacity(hits.len());
    for hit in hits {
        ids.push(hit.get("_id")?.as_str()?.to_owned());
    }
    Some(ids)
}

/// Values of a list of decimal texts; `None` if any of them fails to parse
/// as an `i64`.
pub open spec fn spec_parse_all(ids: Seq<Seq<char>>) -> Option<Seq<int>>
    decreases ids.len(),
{
    if ids.len() == 0 {
        Some(Seq::empty())
    } else {
        match (spec_parse_all(ids.drop_last()), spec_parse_i64(ids.last())) {
            (Some(vals), Some(v)) => Some(vals.push(v)),
            _ => None,
        }
    }
}

/// How a reply relates to the id texts the index returned: every id parsed,
/// the extra hit beyond `RESULTS_PER_PAGE` was dropped, and `last_page` is
/// set unless that extra hit arrived.
pub open spec fn response_matches_hits(resp: SearchResponse, idtexts: Seq<Seq<char>>) -> bool {
    match spec_parse_all(idtexts) {
        Some(vals) => {
            &&& (resp.last_page <==> vals.len() as int != RESULTS_PER_PAGE + 1)
            &&& resp.ids@.len() as int == (if vals.len() as int == RESULTS_PER_PAGE + 1 {
                vals.len() - 1
            } else {
                vals.len() as int
            })
            &&& forall|j: int| 0 <= j < resp.ids@.len() ==> resp.ids@[j] as int == vals[j]
        },
        None => false,
    }
}

/// If one id text is malformed, the whole list has no value.
proof fn lemma_parse_all_bad(ids: Seq<Seq<char>>, k: int)
    requires
        0 <= k < ids.len(),
        spec_parse_i64(ids[k]) is None,
    ensures
        spec_parse_all(ids) is None,
    decreases ids.len(),
{
    if k < ids.len() - 1 {
        lemma_parse_all_bad(ids.drop_last(), k);
    }
}

/// Builds the reply from the `_id` texts of the hits, mirroring the page
/// window: if exactly `RESULTS_PER_PAGE + 1` hits came back, a further page
/// exists, so the extra hit is dropped and `last_page` is false; otherwise
/// every hit is kept and this is the last page.
///
/// In particular, whenever the query returned no more hits than the window
/// can ask for, `last_page` is true iff it returned at most
/// `RESULTS_PER_PAGE` of them.
pub fn search_response_from_hits(ids: Vec<String>) -> (r: Result<SearchResponse, ErrorKind>)
    ensures
        match r {
            Ok(resp) => {
                &&& response_matches_hits(resp, ids.deep_view())
                &&& ids@.len() as int <= RESULTS_PER_PAGE + 1 ==> (resp.last_page <==> ids@.len()
                    as int <= RESULTS_PER_PAGE)
            },
            Err(e) => {
                &&& e == ErrorKind::IndexError
                &&& spec_parse_all(ids.deep_view()) is None
            },
        },
{
    let mut parsed: Vec<i64> = Vec::new();
    let mut i: usize = 0;
    while i < ids.len()
        invariant
            i <= ids@.len(),
            parsed@.len() == i,
            (match spec_parse_all(ids.deep_view().subrange(0, i as int)) {
                Some(vals) => vals.len() == i && (forall|j: int|
                    0 <= j < i ==> vals[j] == parsed@[j] as int),
                None => false,
            }),
        decreases ids@.len() - i,
    {
        let ghost pre = ids.deep_view().subrange(0, i as int);
        let ghost ext = ids.deep_view().subrange(0, i + 1);
        proof {
            assert(ext.drop_last() =~= pre);
            assert(ext.last() == ids.deep_view()[i as int]);
            assert(ids.deep_view()[i as int] == ids@[i as int]@);
        }
        match parse_i64(ids[i].as_str()) {
            Some(v) => {
                parsed.push(v);
            },
            None => {
                proof {
                    lemma_parse_all_bad(ids.deep_view(), i as int);
                }
                return Err(ErrorKind::IndexError);
            },
        }
        i = i + 1;
    }
    proof {
        assert(ids.deep_view().subrange(0, ids@.len() as int) =~= ids.deep_view());
    }
    let mut last_page = true;
    if parsed.len() == (RESULTS_PER_PAGE + 1) as usize {
        last_page = false;
        let ghost before = parsed@;
        parsed.pop();
        proof {
            assert(parsed@ =~= before.drop_last());
        }
    }
    Ok(SearchResponse { ids: parsed, last_page })
}

/// Builds the reply straight from the search engine's response body; the
/// body must hold a `hits.hits` array whose `_id`s are decimal image ids,
/// else the result is an index error (and the message will be nacked).
pub fn search_response_from_es_body(body: &[u8]) -> (r: Result<SearchResponse, ErrorKind>)
    ensures
        match spec_hit_ids(body@) {
            Some(idtexts) => match r {
                Ok(resp) => {
                    &&& response_matches_hits(resp, idtexts)
                    &&& idtexts.len() as int <= RESULTS_PER_PAGE + 1 ==> (resp.last_page
                        <==> idtexts.len() as int <= RESULTS_PER_PAGE)
                },
                Err(e) => e == ErrorKind::IndexError && spec_parse_all(idtexts) is None,
            },
            None => r == Err::<SearchResponse, ErrorKind>(ErrorKind::IndexError),
        },
{
    match extract_hit_ids(body) {
        Some(ids) => search_response_from_hits(ids),
        None => Err(ErrorKind::IndexError),
    }
}

/// Everything the broker publish of a search reply needs.
#[derive(Debug, PartialEq)]
pub struct ReplyPlan {
    /// The caller-owned queue named by the request's `reply_to`.
    pub routing_key: String,
    /// Echo of the request's correlation id; the caller routes by it alone.
    pub correlation_id: String,
    /// Replies are always published persistent.
    pub persistent: bool,
    /// The reply body: the response's wire JSON.
    pub body_json: String,
}

/// Fixes the publish of a reply: the routing key is the request's
/// `reply_to`, the correlation id echoes the request's, delivery is
/// persistent, and the body is the response's JSON.  A search request that
/// carries no `reply_to` or no `correlation_id` cannot be answered and is
/// a decode error.
pub fn reply_publish_plan(
    response: &SearchResponse,
    reply_to: Option<String>,
    correlation_id: Option<String>,
) -> (r: Result<ReplyPlan, ErrorKind>)
    ensures
        match r {
            Ok(plan) => {
                &&& reply_to matches Some(q) && plan.routing_key@ == q@
                &&& correlation_id matches Some(c) && plan.correlation_id@ == c@
                &&& plan.persistent
                &&& plan.body_json@ == spec_response_json(response.ids@, response.last_page)
            },
            Err(e) => {
                &&& e == ErrorKind::DecodeError
                &&& (reply_to is None || correlation_id is None)
            },
        },
{
    match (reply_to, correlation_id) {
        (Some(routing_key), Some(correlation_id)) => Ok(
            ReplyPlan {
                routing_key,
                correlation_id,
                persistent: true,
                body_json: encode_search_response(response),
            },
        ),
        _ => Err(ErrorKind::DecodeError),
    }
}

} // verus!
