//! A client that answers from a canned queue of raw JSON response bodies, for
//! exercising a caller with no credentials and no network.
//!
//! Requests are put in their wire form and bodies are read the way the HTTP
//! client reads them, so a test that passes here is a test about the wire
//! format, and a recorded exchange can be replayed byte for byte.
use crate::client::{Client, Decided, Outcome, OutcomeView, Request, RequestView};
use crate::error::{Error, ErrorView};
use crate::http::{decided, wire_members, ReplyView};
use crate::json::{trees, Json, JsonTree};
use crate::names::{duplicate_option, option_view, result_view};
use crate::response::{decode_response, parse_body, parsed_body, response_outcome};
use std::collections::VecDeque;
use vstd::prelude::*;

verus! {

/// The texts of a sequence of strings.
pub open spec fn strings(items: Seq<String>) -> Seq<Seq<char>> {
    items.map_values(|s: String| s@)
}

/// A [`Client`] that answers from a queue of canned response bodies.
#[derive(Debug)]
pub struct ScriptedClient {
    bodies: VecDeque<String>,
    requests: Vec<Json>,
    resolved_model: Option<String>,
}

/// A [`ScriptedClient`], with plain values for its parts.
pub struct ScriptedClientView {
    /// The bodies that are left, in order.
    pub bodies: Seq<Seq<char>>,
    /// The requests it was asked, in order.
    pub requests: Seq<JsonTree>,
    /// The model that it reports.
    pub resolved_model: Option<Seq<char>>,
}

impl View for ScriptedClient {
    type V = ScriptedClientView;

    closed spec fn view(&self) -> ScriptedClientView {
        ScriptedClientView {
            bodies: strings(self.bodies@),
            requests: trees(self.requests@),
            resolved_model: option_view(self.resolved_model),
        }
    }
}

/// What a canned body answers.
pub open spec fn canned_result(body: Seq<char>, resolved_model: Option<Seq<char>>) -> Decided {
    match parsed_body(body) {
        Ok(tree) => response_outcome(tree, resolved_model),
        Err(e) => Err(e),
    }
}

/// One call of a scripted client: the request is logged in its wire form, and
/// the next body, if there is one, is taken and answers.
pub open spec fn scripted_call(
    before: ScriptedClientView,
    request: RequestView,
    result: Decided,
    after: ScriptedClientView,
) -> bool {
    &&& after.requests == before.requests.push(JsonTree::Object(wire_members(request)))
    &&& after.resolved_model == before.resolved_model
    &&& if before.bodies.len() == 0 {
        &&& after.bodies == before.bodies
        &&& result == Err::<OutcomeView, ErrorView>(
            ErrorView::Transport("scripted client ran out of responses"@),
        )
    } else {
        &&& after.bodies == before.bodies.drop_first()
        &&& result == canned_result(before.bodies[0], before.resolved_model)
    }
}

impl ScriptedClient {
    /// Queues response bodies, answered in order.
    pub fn new(bodies: Vec<String>) -> (r: Self)
        ensures
            r@ == (ScriptedClientView {
                bodies: strings(bodies@),
                requests: Seq::empty(),
                resolved_model: None,
            }),
    {
        let ghost start = bodies@;
        let mut queue: VecDeque<String> = VecDeque::new();
        for body in it: bodies
            invariant
                it.seq() == start,
                queue@ == start.take(it.index() as int),
        {
            queue.push_back(body);
        }
        assert(start.take(start.len() as int) =~= start);
        let r = ScriptedClient { bodies: queue, requests: Vec::new(), resolved_model: None };
        assert(r@.requests =~= Seq::<JsonTree>::empty());
        r
    }

    /// Sets the model that every answered call reports.
    pub fn with_resolved_model(self, model: &str) -> (r: Self)
        ensures
            r@ == (ScriptedClientView { resolved_model: Some(model@), ..self@ }),
    {
        let mut client = self;
        client.resolved_model = Some(model.to_owned());
        client
    }

    /// Every request this client has been asked, in its wire form, in call
    /// order.
    pub fn requests(&self) -> (r: &Vec<Json>)
        ensures
            trees(r@) == self@.requests,
    {
        &self.requests
    }
}

impl Client for ScriptedClient {
    fn decide(&mut self, request: &Request) -> (r: Result<Outcome, Error>)
        ensures
            scripted_call(old(self)@, request@, result_view(r), final(self)@),
    {
        let ghost before = self@;
        self.requests.push(request.wire());
        assert(self@.requests =~= before.requests.push(JsonTree::Object(wire_members(request@))));
        let body = match self.bodies.pop_front() {
            Some(body) => body,
            None => {
                return Err(Error::Transport("scripted client ran out of responses".to_owned()));
            },
        };
        assert(self@.bodies =~= before.bodies.drop_first());
        match parse_body(body.as_str()) {
            Ok(value) => decode_response(&value, duplicate_option(&self.resolved_model)),
            Err(e) => Err(e),
        }
    }
}

/// A canned body gives what a response with that body gives, but for the time
/// and the retries of a real call.
pub proof fn law_replay_reads_like_the_endpoint(
    body: Seq<char>,
    resolved_model: Option<Seq<char>>,
    elapsed: nat,
    retries: u32,
)
    ensures
        ({
            let real_call = decided(
                ReplyView { body: Ok(body), resolved_model, elapsed, retries },
            );
            match canned_result(body, resolved_model) {
                Ok(outcome) => real_call == Ok::<OutcomeView, ErrorView>(
                    OutcomeView { elapsed: Some(elapsed), retries: Some(retries), ..outcome },
                ),
                Err(e) => real_call == Err::<OutcomeView, ErrorView>(e),
            }
        }),
{
}

/// A scripted client answers each call with the next of its bodies, in order,
/// read as a response is, and says so where none is left; it keeps every
/// request as it would have gone on the wire.
pub proof fn law_bodies_answer_in_order(
    before: ScriptedClientView,
    request: RequestView,
    result: Decided,
    after: ScriptedClientView,
)
    requires
        scripted_call(before, request, result, after),
    ensures
        after.requests.len() == before.requests.len() + 1,
        forall|i: int|
            0 <= i < before.requests.len() ==> #[trigger] after.requests[i] == before.requests[i],
        after.requests.last() == JsonTree::Object(wire_members(request)),
        after.resolved_model == before.resolved_model,
        before.bodies.len() == 0 ==> after.bodies.len() == 0 && result == Err::<
            OutcomeView,
            ErrorView,
        >(ErrorView::Transport("scripted client ran out of responses"@)),
        before.bodies.len() > 0 ==> {
            &&& before.bodies == seq![before.bodies[0]] + after.bodies
            &&& parsed_body(before.bodies[0]) matches Ok(tree) ==> result == response_outcome(
                tree,
                before.resolved_model,
            )
            &&& parsed_body(before.bodies[0]) matches Err(e) ==> result == Err::<
                OutcomeView,
                ErrorView,
            >(e)
        },
{
    if before.bodies.len() > 0 {
        assert(before.bodies =~= seq![before.bodies[0]] + after.bodies);
    }
}

/// The texts of some strings are those strings, in their order.
pub proof fn law_strings_keep_their_order(items: Seq<String>)
    ensures
        strings(items).len() == items.len(),
        forall|i: int| 0 <= i < items.len() ==> #[trigger] strings(items)[i] == items[i]@,
{
}

} // verus!
