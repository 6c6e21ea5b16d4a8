//! What holds of every request that the proxy forwards.
use crate::clock::Timestamp;
use crate::config::{route_to, ModelEntryView, Route, RouteView, RouterError};
use crate::image_detect::holds_picture;
use crate::json::JsonTree;
use crate::models::ApiType;
use crate::router::{best_candidate, best_candidate_is_worth_most, RouterView};
use crate::server::{
    opened, other_than, passed_on, readied, routed, step_to, takes_pictures, with_vision,
    without_candidate, ForwardView, StepView,
};
use vstd::prelude::*;

verus! {

/// Each entry of the catalog stands under its own id.
pub open spec fn own_ids(catalog: Map<Seq<char>, ModelEntryView>) -> bool {
    forall|id: Seq<char>| #[trigger] catalog.contains_key(id) ==> catalog[id].id == id
}

/// A request for the default model that holds a picture goes only to models of
/// the list that take pictures.
pub proof fn pictures_go_to_models_that_take_them(
    default_model: Seq<char>,
    pool: Seq<Seq<char>>,
    body: JsonTree,
    api: ApiType,
    forward: ForwardView,
    before: RouterView,
    after: RouterView,
    now: Timestamp,
    r: Result<Route, RouterError>,
)
    requires
        opened(default_model, pool, before.catalog, Ok(body), api) == Ok::<
            ForwardView,
            crate::server::ErrorReplyView,
        >(forward),
        forward.by_default,
        holds_picture(body),
        routed(forward, before, after, now, r),
        r is Ok,
    ensures
        ({
            let i = best_candidate(before.catalog, before.breakers, forward.candidates, now)->0;
            let id = forward.candidates[i];
            &&& pool.contains(id)
            &&& takes_pictures(before.catalog, id)
            &&& r->Ok_0@ == route_to(before.catalog[id])
        }),
{
    best_candidate_is_worth_most(before.catalog, before.breakers, forward.candidates, now);
    let i = best_candidate(before.catalog, before.breakers, forward.candidates, now)->0;
    let keep = with_vision(before.catalog);
    assert(forward.candidates == pool.filter(keep));
    pool.lemma_filter_pred(keep, i);
    assert(pool.filter(keep).contains(forward.candidates[i]));
    pool.lemma_filter_contains_rev(keep, forward.candidates[i]);
}

/// A request for the default model without a picture may go to every model of
/// the list, in the order of the list.
pub proof fn requests_without_pictures_have_the_whole_list(
    default_model: Seq<char>,
    pool: Seq<Seq<char>>,
    catalog: Map<Seq<char>, ModelEntryView>,
    body: JsonTree,
    api: ApiType,
    forward: ForwardView,
)
    requires
        opened(default_model, pool, catalog, Ok(body), api) == Ok::<
            ForwardView,
            crate::server::ErrorReplyView,
        >(forward),
        forward.by_default,
        !holds_picture(body),
    ensures
        forward.candidates == pool,
        forward.body == body,
{
}

/// The body of a request that names a model goes out as it came in. That of a
/// request for the default model differs in the model that it names alone.
pub proof fn body_goes_out_as_it_came_in(forward: ForwardView, route: RouteView, key: Seq<char>)
    requires
        key != "model"@,
    ensures
        !forward.by_default ==> readied(forward, route).body == forward.body,
        readied(forward, route).body.field(key) == forward.body.field(key),
        forward.by_default && route.api == forward.expected_api && forward.body is Object
            ==> readied(forward, route).body.field("model"@) == Some(
            JsonTree::Text(route.model_id),
        ),
{
}

/// After a model has given way the request goes to another one of those that
/// were left, and fewer are left from then on.
pub proof fn refused_model_is_not_asked_again(
    forward: ForwardView,
    model_id: Seq<char>,
    status: u16,
    before: RouterView,
    after: RouterView,
    now: Timestamp,
    step: StepView,
    next: ForwardView,
)
    requires
        own_ids(before.catalog),
        forward.by_default,
        forward.candidates.contains(model_id),
        passed_on(without_candidate(forward, model_id), status, before, after, now, step, next),
    ensures
        step matches StepView::Send(out) ==> out.model_id != model_id
            && forward.candidates.contains(out.model_id),
        !next.candidates.contains(model_id),
        next.candidates.len() < forward.candidates.len(),
{
    let rest = without_candidate(forward, model_id);
    let keep = other_than(model_id);
    assert(rest.candidates == forward.candidates.filter(keep));
    let r = choose|r: Result<Route, RouterError>| #[trigger]
        routed(rest, before, after, now, r) && (match r {
            Ok(route) => step == step_to(rest, route@) && next == readied(rest, route@),
            Err(e) => step == StepView::Reply(crate::server::no_other_route(status, e)) && next
                == rest,
        });
    assert(!rest.candidates.contains(model_id)) by {
        if rest.candidates.contains(model_id) {
            let k = rest.candidates.index_of(model_id);
            forward.candidates.lemma_filter_pred(keep, k);
        }
    }
    lemma_filter_drops(forward.candidates, model_id);
    if r is Ok {
        best_candidate_is_worth_most(before.catalog, before.breakers, rest.candidates, now);
        let i = best_candidate(before.catalog, before.breakers, rest.candidates, now)->0;
        assert(before.catalog.contains_key(rest.candidates[i]));
        assert(rest.candidates.contains(rest.candidates[i]));
        forward.candidates.lemma_filter_contains_rev(keep, rest.candidates[i]);
        forward.candidates.lemma_filter_pred(keep, i);
    }
}

proof fn lemma_filter_drops(ids: Seq<Seq<char>>, out: Seq<char>)
    requires
        ids.contains(out),
    ensures
        ids.filter(other_than(out)).len() < ids.len(),
    decreases ids.len(),
{
    let keep = other_than(out);
    reveal(Seq::filter);
    let front = ids.drop_last();
    front.lemma_filter_len(keep);
    if ids.last() != out {
        let k = ids.index_of(out);
        assert(front[k] == out);
        lemma_filter_drops(front, out);
    }
}

} // verus!
