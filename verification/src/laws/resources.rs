//! Laws of the fetching of resources.

use crate::ids::ulid_text;
use crate::json::json_text;
use crate::resources::{
    passed_on, response_of, AfterAnswer, AfterCache, Answer, Claimed, GetResources, RecorderError,
    ResourceRecord, ServiceResourcesRequest,
};
use crate::rows::Resource;
use vstd::prelude::*;
use vstd::utf8::{encode_utf8, encode_utf8_decode_utf8};

verus! {

/// The first answer is what comes out, unless it lists nothing and resources are cached: those
/// are handed over first. Where that fails its error comes out, and else the second answer.
/// A cache that cannot be read counts as empty.
pub proof fn law_resources_come_from_the_recorder<T, S, D, R, C>(
    steps: GetResources,
    claim: C,
    first: Result<Answer<T>, S>,
    cached: Result<Vec<Resource>, D>,
    recorded: Result<R, S>,
    second: Result<Answer<T>, S>,
    result: Result<T, RecorderError<S>>,
)
    requires
        steps.comes_out(claim, first, cached, recorded, second, result),
    ensures
        result == if first is Ok && first->Ok_0.resource_count == 0 && cached is Ok
            && cached->Ok_0@.len() > 0 {
            match passed_on(recorded) {
                Ok(_) => response_of(second),
                Err(error) => Err(error),
            }
        } else {
            response_of(first)
        },
{
}

/// Each request of a run is sent under the claim that the run was asked under, and about the
/// service that it was asked about: the first one, the handing over, and the one after it.
pub proof fn law_requests_carry_the_claim<T, S, D, R, C>(
    steps: GetResources,
    claim: C,
    asked: Claimed<ServiceResourcesRequest, C>,
    first: T,
    cached: Result<Vec<Resource>, D>,
    next: AfterCache<T, C>,
    recorded: Result<R, S>,
    again: Result<Claimed<ServiceResourcesRequest, C>, RecorderError<S>>,
)
    requires
        steps.is_request(claim, asked),
        steps.follows_cache(first, cached, claim, next),
        steps.follows_hand_over(recorded, claim, again),
    ensures
        ({
            let service_id = ulid_text(steps.service_id.value);
            &&& asked.claim == claim && asked.message.service_id@ == service_id
            &&& next matches AfterCache::HandOver(request) ==> request.claim == claim
                && request.message.service_id@ == service_id
            &&& again is Ok <==> recorded is Ok
            &&& again matches Ok(request) ==> request.claim == claim && request.message.service_id@
                == service_id
        }),
{
}

/// What is sent of a resource are the letters of its type and the bytes of the JSON texts of its
/// configuration and of its data: resources that differ in one of these are sent as records that
/// differ in it.
pub proof fn law_records_tell_resources_apart(
    a: Resource,
    b: Resource,
    sent_a: ResourceRecord,
    sent_b: ResourceRecord,
)
    requires
        a.is_sent_as(sent_a),
        b.is_sent_as(sent_b),
    ensures
        sent_a.kind@ == a.kind@,
        sent_a.config@ == encode_utf8(json_text(a.config)),
        sent_a.data@ == encode_utf8(json_text(a.data)),
        sent_a.kind@ == sent_b.kind@ <==> a.kind@ == b.kind@,
        sent_a.config@ == sent_b.config@ <==> json_text(a.config) == json_text(b.config),
        sent_a.data@ == sent_b.data@ <==> json_text(a.data) == json_text(b.data),
{
    encode_utf8_decode_utf8(json_text(a.config));
    encode_utf8_decode_utf8(json_text(b.config));
    encode_utf8_decode_utf8(json_text(a.data));
    encode_utf8_decode_utf8(json_text(b.data));
}

/// Where resources are cached, all of them are handed over, one record for each in the order of
/// the rows, with the letters of its type and the bytes of the JSON texts of its configuration
/// and of its data; the request names the project and the service and carries the claim. Where
/// none are cached, or the cache cannot be read, the first answer stands.
pub proof fn law_cached_resources_are_handed_over_whole<T, D, C>(
    steps: GetResources,
    first: T,
    cached: Result<Vec<Resource>, D>,
    claim: C,
    next: AfterCache<T, C>,
)
    requires
        steps.follows_cache(first, cached, claim, next),
    ensures
        cached is Err ==> (next matches AfterCache::Done(kept) && kept == first),
        cached matches Ok(rows) ==> {
            &&& rows@.len() == 0 ==> (next matches AfterCache::Done(kept) && kept == first)
            &&& rows@.len() > 0 ==> {
                &&& next matches AfterCache::HandOver(request)
                &&& request.claim == claim
                &&& request.message.project_id@ == ulid_text(steps.project_id.value)
                &&& request.message.service_id@ == ulid_text(steps.service_id.value)
                &&& request.message.resources@.len() == rows@.len()
                &&& forall|i: int|
                    0 <= i < rows@.len() ==> {
                        let sent = #[trigger] request.message.resources@[i];
                        &&& sent.kind@ == rows@[i].kind@
                        &&& sent.config@ == encode_utf8(json_text(rows@[i].config))
                        &&& sent.data@ == encode_utf8(json_text(rows@[i].data))
                    }
            }
        },
{
    if let Ok(rows) = cached {
        if rows@.len() > 0 {
            if let AfterCache::HandOver(request) = next {
                assert forall|i: int| 0 <= i < rows@.len() implies {
                    let sent = #[trigger] request.message.resources@[i];
                    &&& sent.kind@ == rows@[i].kind@
                    &&& sent.config@ == encode_utf8(json_text(rows@[i].config))
                    &&& sent.data@ == encode_utf8(json_text(rows@[i].data))
                } by {
                    assert(rows@[i].is_sent_as(request.message.resources@[i]));
                }
            }
        }
    }
}

/// The first answer ends the run where it is an error or lists resources, and else the cache is
/// read, that of the service asked about, with the answer kept as it came.
pub proof fn law_first_answer_decides<T, S>(steps: GetResources, answer: Result<Answer<T>, S>)
    ensures
        match answer {
            Err(status) => steps.next_after_answer(answer) matches AfterAnswer::Done(Err(error))
                && error.status == status,
            Ok(came) => {
                &&& came.resource_count > 0 ==> (steps.next_after_answer(
                    answer,
                ) matches AfterAnswer::Done(Ok(response)) && response == came.response)
                &&& came.resource_count == 0 ==> (steps.next_after_answer(
                    answer,
                ) matches AfterAnswer::ReadCache { first, query } && first == came.response
                    && query.service_id == steps.service_id)
            },
        },
{
}

/// What comes out of a run, answer by answer: an error as the recorder's own status, a response
/// as it came.
pub proof fn law_responses_come_out_as_they_came<T, S, D, R, C>(
    steps: GetResources,
    claim: C,
    first: Result<Answer<T>, S>,
    cached: Result<Vec<Resource>, D>,
    recorded: Result<R, S>,
    second: Result<Answer<T>, S>,
    result: Result<T, RecorderError<S>>,
)
    requires
        steps.comes_out(claim, first, cached, recorded, second, result),
    ensures
        first matches Err(status) ==> (result matches Err(error) && error.status == status),
        first matches Ok(came) ==> {
            let handed_over = came.resource_count == 0 && cached is Ok && cached->Ok_0@.len() > 0;
            &&& !handed_over ==> (result matches Ok(response) && response == came.response)
            &&& handed_over ==> match recorded {
                Err(status) => result matches Err(error) && error.status == status,
                Ok(_) => match second {
                    Err(status) => result matches Err(error) && error.status == status,
                    Ok(again) => result matches Ok(response) && response == again.response,
                },
            }
        },
{
}

/// Answers of the recorder are passed on: what it recorded as it came, and its status in an error.
pub proof fn law_answers_are_passed_on<R, S>(answer: Result<R, S>)
    ensures
        answer matches Ok(recorded) ==> (passed_on(answer) matches Ok(out) && out == recorded),
        answer matches Err(status) ==> (passed_on(answer) matches Err(error) && error.status
            == status),
{
}

/// Second answers come out as they came, whatever they list.
pub proof fn law_second_answer_stands<T, S>(answer: Result<Answer<T>, S>)
    ensures
        answer matches Ok(came) ==> (response_of(answer) matches Ok(response) && response
            == came.response),
        answer matches Err(status) ==> (response_of(answer) matches Err(error) && error.status
            == status),
{
}

} // verus!
