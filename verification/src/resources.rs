//! Resources of services: what is sent to the service that records them, and how resources that
//! are only cached on this side are handed over to it.

use crate::ids::{ulid_text, Ulid};
use crate::json::{json_text, json_to_string};
use crate::query::ResourceQuery;
use crate::rows::Resource;
use vstd::prelude::*;
use vstd::utf8::encode_utf8;

verus! {

/// A resource as it is sent to the recording service.
#[derive(Debug, PartialEq)]
pub struct ResourceRecord {
    /// The text of the resource's type.
    pub kind: String,
    pub config: Vec<u8>,
    pub data: Vec<u8>,
}

/// The request to record resources of a service.
#[derive(Debug, PartialEq)]
pub struct RecordRequest {
    pub project_id: String,
    pub service_id: String,
    pub resources: Vec<ResourceRecord>,
}

/// The request for the resources of a service.
#[derive(Debug, PartialEq)]
pub struct ServiceResourcesRequest {
    pub service_id: String,
}

/// A message to the recording service, together with the claim that it is sent under.
#[derive(Debug, PartialEq)]
pub struct Claimed<M, C> {
    pub message: M,
    pub claim: C,
}

/// The recording service refused a request or could not be reached.
#[derive(Debug, PartialEq)]
pub struct RecorderError<S> {
    /// What it answered.
    pub status: S,
}

/// The answer to a request for resources.
#[derive(Debug, PartialEq)]
pub struct Answer<T> {
    /// The answer as it came.
    pub response: T,
    /// How many resources it lists.
    pub resource_count: usize,
}

/// The record of a resource whose values have the texts `config` and `data`.
pub fn record_of(kind: &str, config: &str, data: &str) -> (record: ResourceRecord)
    ensures
        record.kind@ == kind@,
        record.config@ == encode_utf8(config@),
        record.data@ == encode_utf8(data@),
{
    ResourceRecord {
        kind: kind.to_owned(),
        config: config.as_bytes_vec(),
        data: data.as_bytes_vec(),
    }
}

impl Resource {
    /// Whether `record` is what is sent of the resource: its values as JSON text.
    pub open spec fn is_sent_as(self, record: ResourceRecord) -> bool {
        &&& record.kind@ == self.kind@
        &&& record.config@ == encode_utf8(json_text(self.config))
        &&& record.data@ == encode_utf8(json_text(self.data))
    }

    pub fn to_record(&self) -> (record: ResourceRecord)
        ensures
            self.is_sent_as(record),
            record.kind@ == self.kind@,
            record.config@ == encode_utf8(json_text(self.config)),
            record.data@ == encode_utf8(json_text(self.data)),
    {
        let config = json_to_string(&self.config);
        let data = json_to_string(&self.data);
        record_of(self.kind.as_str(), config.as_str(), data.as_str())
    }
}

/// Whether `records` are what is sent of `rows`, one for one.
pub open spec fn are_sent_as(rows: Seq<Resource>, records: Seq<ResourceRecord>) -> bool {
    &&& records.len() == rows.len()
    &&& forall|i: int| 0 <= i < rows.len() ==> #[trigger] rows[i].is_sent_as(records[i])
}

/// What is sent of `rows`.
pub fn to_records(rows: &Vec<Resource>) -> (records: Vec<ResourceRecord>)
    ensures
        are_sent_as(rows@, records@),
        records@.len() == rows@.len(),
        forall|i: int|
            0 <= i < rows@.len() ==> {
                &&& (#[trigger] records@[i]).kind@ == rows@[i].kind@
                &&& records@[i].config@ == encode_utf8(json_text(rows@[i].config))
                &&& records@[i].data@ == encode_utf8(json_text(rows@[i].data))
            },
{
    let mut records: Vec<ResourceRecord> = Vec::new();
    let mut i: usize = 0;
    while i < rows.len()
        invariant
            i <= rows.len(),
            records@.len() == i,
            forall|j: int| 0 <= j < i ==> #[trigger] rows@[j].is_sent_as(records@[j]),
            forall|j: int|
                0 <= j < i ==> {
                    &&& (#[trigger] records@[j]).kind@ == rows@[j].kind@
                    &&& records@[j].config@ == encode_utf8(json_text(rows@[j].config))
                    &&& records@[j].data@ == encode_utf8(json_text(rows@[j].data))
                },
        decreases rows.len() - i,
    {
        let ghost sent = records@;
        records.push(rows[i].to_record());
        assert forall|j: int| 0 <= j < i + 1 implies #[trigger] rows@[j].is_sent_as(
            records@[j],
        ) by {
            if j < i {
                assert(records@[j] == sent[j]);
            }
        }
        i += 1;
    }
    records
}

/// The request to record `resources` of a service of a project, under a claim.
pub fn insert_resources<C>(
    project_id: Ulid,
    service_id: Ulid,
    resources: Vec<ResourceRecord>,
    claim: C,
) -> (request: Claimed<RecordRequest, C>)
    ensures
        request.message.project_id@ == ulid_text(project_id.value),
        request.message.service_id@ == ulid_text(service_id.value),
        request.message.resources == resources,
        request.claim == claim,
{
    Claimed {
        message: RecordRequest {
            project_id: project_id.to_string(),
            service_id: service_id.to_string(),
            resources,
        },
        claim,
    }
}

/// An answer of the recording service as it is passed on.
pub open spec fn passed_on<R, S>(answer: Result<R, S>) -> Result<R, RecorderError<S>> {
    match answer {
        Ok(recorded) => Ok(recorded),
        Err(status) => Err(RecorderError { status }),
    }
}

/// The outcome of the request to record resources: the answer is passed on.
pub fn after_record<R, S>(answer: Result<R, S>) -> (result: Result<R, RecorderError<S>>)
    ensures
        result == passed_on(answer),
{
    match answer {
        Ok(recorded) => Ok(recorded),
        Err(status) => Err(RecorderError { status }),
    }
}

/// What an answer to a request for resources comes down to.
pub open spec fn response_of<T, S>(answer: Result<Answer<T>, S>) -> Result<T, RecorderError<S>> {
    match answer {
        Ok(answer) => Ok(answer.response),
        Err(status) => Err(RecorderError { status }),
    }
}

/// What follows the first answer of the recording service.
pub enum AfterAnswer<T, S> {
    /// The resources were fetched, or could not be.
    Done(Result<T, RecorderError<S>>),
    /// The service knows of none: the cache is read. The answer is kept.
    ReadCache { first: T, query: ResourceQuery },
}

/// What follows the reading of the cache.
pub enum AfterCache<T, C> {
    /// Nothing is handed over: the first answer stands.
    Done(T),
    /// The cached resources are handed over.
    HandOver(Claimed<RecordRequest, C>),
}

/// The fetching of the resources of a service, step by step.
pub struct GetResources {
    pub project_id: Ulid,
    pub service_id: Ulid,
}

impl GetResources {
    /// The request that is sent first, and once more after resources were handed over.
    pub fn request<C>(&self, claim: C) -> (request: Claimed<ServiceResourcesRequest, C>)
        ensures
            self.is_request(claim, request),
    {
        Claimed {
            message: ServiceResourcesRequest { service_id: self.service_id.to_string() },
            claim,
        }
    }

    /// Whether `request` asks for the resources of the service, under the claim.
    pub open spec fn is_request<C>(
        &self,
        claim: C,
        request: Claimed<ServiceResourcesRequest, C>,
    ) -> bool {
        &&& request.message.service_id@ == ulid_text(self.service_id.value)
        &&& request.claim == claim
    }

    /// What follows the first answer.
    pub fn after_answer<T, S>(&self, answer: Result<Answer<T>, S>) -> (next: AfterAnswer<T, S>)
        ensures
            next == self.next_after_answer(answer),
    {
        match answer {
            Ok(answer) => {
                if answer.resource_count == 0 {
                    AfterAnswer::ReadCache {
                        first: answer.response,
                        query: ResourceQuery { service_id: self.service_id },
                    }
                } else {
                    AfterAnswer::Done(Ok(answer.response))
                }
            },
            Err(status) => AfterAnswer::Done(Err(RecorderError { status })),
        }
    }

    pub open spec fn next_after_answer<T, S>(&self, answer: Result<Answer<T>, S>) -> AfterAnswer<
        T,
        S,
    > {
        match answer {
            Ok(answer) if answer.resource_count == 0 => AfterAnswer::ReadCache {
                first: answer.response,
                query: ResourceQuery { service_id: self.service_id },
            },
            _ => AfterAnswer::Done(response_of(answer)),
        }
    }

    /// What follows the reading of the cache: an empty cache, or one that could not be read,
    /// changes nothing.
    pub fn after_cache<T, D, C>(
        &self,
        first: T,
        cached: Result<Vec<Resource>, D>,
        claim: C,
    ) -> (next: AfterCache<T, C>)
        ensures
            self.follows_cache(first, cached, claim, next),
            cached matches Ok(rows) ==> rows@.len() > 0 ==> {
                &&& next matches AfterCache::HandOver(request)
                &&& request.claim == claim
                &&& request.message.resources@.len() == rows@.len()
                &&& forall|i: int|
                    0 <= i < rows@.len() ==> {
                        let sent = #[trigger] request.message.resources@[i];
                        &&& sent.kind@ == rows@[i].kind@
                        &&& sent.config@ == encode_utf8(json_text(rows@[i].config))
                        &&& sent.data@ == encode_utf8(json_text(rows@[i].data))
                    }
            },
            cached matches Ok(rows) ==> rows@.len() == 0 ==> next == AfterCache::<T, C>::Done(
                first,
            ),
            cached is Err ==> next == AfterCache::<T, C>::Done(first),
    {
        match cached {
            Ok(rows) => {
                if rows.len() == 0 {
                    AfterCache::Done(first)
                } else {
                    let records = to_records(&rows);
                    AfterCache::HandOver(
                        insert_resources(self.project_id, self.service_id, records, claim),
                    )
                }
            },
            Err(_) => AfterCache::Done(first),
        }
    }

    /// Whether `next` is what follows the reading of the cache.
    pub open spec fn follows_cache<T, D, C>(
        &self,
        first: T,
        cached: Result<Vec<Resource>, D>,
        claim: C,
        next: AfterCache<T, C>,
    ) -> bool {
        if cached is Ok && cached->Ok_0@.len() > 0 {
            &&& next matches AfterCache::HandOver(request)
            &&& request.message.project_id@ == ulid_text(self.project_id.value)
            &&& request.message.service_id@ == ulid_text(self.service_id.value)
            &&& are_sent_as(cached->Ok_0@, request.message.resources@)
            &&& request.claim == claim
        } else {
            next == AfterCache::<T, C>::Done(first)
        }
    }

    /// What follows the handing over: the resources are asked for once more, or the error is
    /// passed on.
    pub fn after_hand_over<R, S, C>(&self, recorded: Result<R, S>, claim: C) -> (next: Result<
        Claimed<ServiceResourcesRequest, C>,
        RecorderError<S>,
    >)
        ensures
            self.follows_hand_over(recorded, claim, next),
    {
        match after_record(recorded) {
            Ok(_) => Ok(self.request(claim)),
            Err(error) => Err(error),
        }
    }

    /// Whether `next` is what follows the handing over.
    pub open spec fn follows_hand_over<R, S, C>(
        &self,
        recorded: Result<R, S>,
        claim: C,
        next: Result<Claimed<ServiceResourcesRequest, C>, RecorderError<S>>,
    ) -> bool {
        match passed_on(recorded) {
            Ok(_) => next matches Ok(request) && self.is_request(claim, request),
            Err(error) => next == Err::<Claimed<ServiceResourcesRequest, C>, RecorderError<S>>(
                error,
            ),
        }
    }

    /// The outcome of the second answer: it stands as it is.
    pub fn after_second_answer<T, S>(&self, answer: Result<Answer<T>, S>) -> (result: Result<
        T,
        RecorderError<S>,
    >)
        ensures
            result == response_of(answer),
    {
        match answer {
            Ok(answer) => Ok(answer.response),
            Err(status) => Err(RecorderError { status }),
        }
    }

    /// Whether `result` is what comes out at the end, where the steps are taken one after the
    /// other: `first` is the first answer, `cached` what was read from the cache, `recorded` the
    /// answer to the handing over, and `second` the second answer, as far as the steps ask for
    /// them.
    pub open spec fn comes_out<T, S, D, R, C>(
        &self,
        claim: C,
        first: Result<Answer<T>, S>,
        cached: Result<Vec<Resource>, D>,
        recorded: Result<R, S>,
        second: Result<Answer<T>, S>,
        result: Result<T, RecorderError<S>>,
    ) -> bool {
        match self.next_after_answer(first) {
            AfterAnswer::Done(done) => result == done,
            AfterAnswer::ReadCache { first, .. } => exists|next: AfterCache<T, C>| #[trigger]
                self.follows_cache(first, cached, claim, next) && match next {
                    AfterCache::Done(first) => result == Ok::<T, RecorderError<S>>(first),
                    AfterCache::HandOver(_) => exists|
                        again: Result<Claimed<ServiceResourcesRequest, C>, RecorderError<S>>,
                    | #[trigger]
                        self.follows_hand_over(recorded, claim, again) && match again {
                            Ok(_) => result == response_of(second),
                            Err(error) => result == Err::<T, RecorderError<S>>(error),
                        },
                },
        }
    }

    /// What comes out at the end, given all that is answered and read on the way.
    pub fn outcome<T, S, D, R, C>(
        &self,
        claim: &C,
        first: Result<Answer<T>, S>,
        cached: Result<Vec<Resource>, D>,
        recorded: Result<R, S>,
        second: Result<Answer<T>, S>,
    ) -> (result: Result<T, RecorderError<S>>)
        ensures
            self.comes_out(claim, first, cached, recorded, second, result),
    {
        match self.after_answer(first) {
            AfterAnswer::Done(result) => result,
            AfterAnswer::ReadCache { first, .. } => {
                let next = self.after_cache(first, cached, claim);
                let ghost followed = next;
                assert(self.follows_cache(first, cached, claim, followed));
                match next {
                    AfterCache::Done(first) => Ok(first),
                    AfterCache::HandOver(_) => {
                        let again = self.after_hand_over(recorded, claim);
                        let ghost asked = again;
                        assert(self.follows_hand_over(recorded, claim, asked));
                        match again {
                            Ok(_) => self.after_second_answer(second),
                            Err(error) => Err(error),
                        }
                    },
                }
            },
        }
    }
}

} // verus!
