//! `POST /experimental-eez-rpc/<chain>`: one ordinary JSON-RPC endpoint for each chain of the
//! EEZ. A chain has an execution RPC for ordinary transactions and a front that takes
//! cross-chain transactions only; a request is passed on to the one that it belongs to.

use vstd::prelude::*;
use crate::chains::{
    chain_keys, chain_under, chains, configured_chains, find_chain, known_keys, Chain, ChainModel,
};
use crate::http::{
    no_headers, push_header, Method, Outgoing, Reply, ReplyModel, Upstream, UpstreamModel,
};
use crate::json::{
    array_value, as_text, copy_of, element, integer, is_object, json_bytes, json_model,
    json_models, json_of_bytes, json_text, member, null, number_value, parse_bytes, render, text,
    Fields, JsonModel,
};
use crate::text::{
    after_prefix, ascii_lower, bytes_of, decimal, hex_numeral_error, join, joined, owned,
    parse_hex_u64, same, starts_with, strip_prefix, to_ascii_lowercase, trim_end_matches,
    trim_hex_prefix, u64_numeral, u64_text, without_leading, without_trailing,
};
use crate::transaction::{call_of, decode_call};

verus! {

/// The selector of the error `ExecutionNotFound()` of the EEZ registry, which a cross-chain
/// call reverts with outside a composed block.
pub const EXECUTION_NOT_FOUND: &'static str = "0xed6bc750";

/// The gas limit that is given for cross-chain calls: 700000.
pub const CROSS_CHAIN_GAS: &'static str = "0xaae60";

/// How many seconds the front may take to catch up with the execution RPC.
pub const FRONT_SYNC_MAX_SECS: u64 = 30;

/// Headers, and behind them those that let any page read an answer.
pub open spec fn with_cors_headers(headers: Seq<(Seq<char>, Seq<char>)>) -> Seq<
    (Seq<char>, Seq<char>),
> {
    headers.push(("access-control-allow-origin"@, "*"@)).push(
        ("access-control-allow-methods"@, "GET, POST, OPTIONS"@),
    ).push(("access-control-allow-headers"@, "*"@)).push(("access-control-max-age"@, "3600"@))
}

fn with_cors(headers: &mut Vec<(String, String)>)
    ensures
        final(headers).deep_view() == with_cors_headers(old(headers).deep_view()),
{
    push_header(headers, "access-control-allow-origin", "*");
    push_header(headers, "access-control-allow-methods", "GET, POST, OPTIONS");
    push_header(headers, "access-control-allow-headers", "*");
    push_header(headers, "access-control-max-age", "3600");
}

/// The answer to a preflight request.
pub open spec fn preflight() -> ReplyModel {
    ReplyModel { status: 204, headers: with_cors_headers(Seq::empty()), body: Seq::empty() }
}

fn preflight_response() -> (r: Reply)
    ensures
        r@ == preflight(),
{
    let mut headers = no_headers();
    with_cors(&mut headers);
    Reply { status: 204, headers, body: Vec::new() }
}

/// An answer of which the body is JSON.
pub open spec fn rpc_reply(status: u16, body: Seq<u8>) -> ReplyModel {
    ReplyModel {
        status,
        headers: with_cors_headers(Seq::empty().push(("content-type"@, "application/json"@))),
        body,
    }
}

/// Makes an answer of which the body is JSON.
pub fn rpc_response(status: u16, body: Vec<u8>) -> (r: Reply)
    ensures
        r@ == rpc_reply(status, body@),
{
    let mut headers = no_headers();
    push_header(&mut headers, "content-type", "application/json");
    with_cors(&mut headers);
    Reply { status, headers, body }
}

/// Makes an answer out of a JSON value.
pub fn json_response(status: u16, body: &serde_json::Value) -> (r: Reply)
    ensures
        r@ == rpc_reply(status, json_bytes(json_model(*body))),
{
    rpc_response(status, bytes_of(render(body).as_str()))
}

/// A JSON-RPC error.
pub open spec fn error_reply(id: JsonModel, code: int, message: Seq<char>) -> ReplyModel {
    rpc_reply(
        200,
        json_bytes(
            JsonModel::empty().with("jsonrpc"@, JsonModel::Text("2.0"@)).with("id"@, id).with(
                "error"@,
                JsonModel::empty().with("code"@, JsonModel::Number(integer(code))).with(
                    "message"@,
                    JsonModel::Text(message),
                ),
            ),
        ),
    )
}

/// Answers with a JSON-RPC error.
pub fn rpc_error(id: serde_json::Value, code: i64, message: &str) -> (r: Reply)
    ensures
        r@ == error_reply(json_model(id), code as int, message@),
{
    let error = Fields::new().with("code", number_value(code)).with_text(
        "message",
        message,
    ).build();
    json_response(
        200,
        &Fields::new().with_text("jsonrpc", "2.0").with("id", id).with("error", error).build(),
    )
}

/// Whether `request` posts `body` to `url`.
pub open spec fn is_rpc_request(request: Outgoing, url: Seq<char>, body: Seq<u8>) -> bool {
    &&& request.method is Post
    &&& request.uri@ == url
    &&& request.headers.deep_view() == Seq::empty().push(("content-type"@, "application/json"@))
    &&& request.body@ == body
}

fn rpc_request(url: &str, body: Vec<u8>) -> (r: Outgoing)
    ensures
        is_rpc_request(r, url@, body@),
{
    let mut headers = no_headers();
    push_header(&mut headers, "content-type", "application/json");
    Outgoing { method: Method::Post, uri: owned(url), headers, body }
}

fn json_request(url: &str, body: &serde_json::Value) -> (r: Outgoing)
    ensures
        is_rpc_request(r, url@, json_bytes(json_model(*body))),
{
    rpc_request(url, bytes_of(render(body).as_str()))
}

/// What is left of a request to `url`: the status and the body of the answer, or what went
/// wrong. An answer with a status from 500 on is none.
pub open spec fn received(url: Seq<char>, upstream: UpstreamModel) -> Result<
    (u16, Seq<u8>),
    Seq<char>,
> {
    match upstream {
        UpstreamModel::Failed(e) => Err(e),
        UpstreamModel::Answered { status, body } => if status >= 500 {
            Err("upstream "@ + url + " answered HTTP "@ + decimal(status as nat))
        } else {
            Ok((status, body))
        },
    }
}

/// Takes the answer of an upstream server.
pub fn send_upstream(url: &str, upstream: Upstream) -> (r: Result<(u16, Vec<u8>), String>)
    ensures
        match r {
            Ok(answer) => received(url@, upstream@) == Ok::<(u16, Seq<u8>), Seq<char>>(
                (answer.0, answer.1@),
            ),
            Err(e) => received(url@, upstream@) == Err::<(u16, Seq<u8>), Seq<char>>(e@),
        },
{
    match upstream {
        Upstream::Failed(e) => Err(e),
        Upstream::Answered { status, body } => {
            if status >= 500 {
                let code = u64_text(status as u64);
                Err(
                    owned("upstream ").concat(url).concat(" answered HTTP ").concat(code.as_str()),
                )
            } else {
                Ok((status, body))
            }
        },
    }
}

/// The JSON that an upstream server answered, or what went wrong.
pub open spec fn answered(url: Seq<char>, upstream: UpstreamModel) -> Result<
    JsonModel,
    Seq<char>,
> {
    match received(url, upstream) {
        Ok(answer) => json_of_bytes(answer.1),
        Err(e) => Err(e),
    }
}

/// JSON that was read, or what went wrong, by what it holds.
pub open spec fn answer_model(answer: Result<serde_json::Value, String>) -> Result<
    JsonModel,
    Seq<char>,
> {
    match answer {
        Ok(v) => Ok(json_model(v)),
        Err(e) => Err(e@),
    }
}

/// Reads the JSON that an upstream server answered.
pub fn rpc_post(url: &str, upstream: Upstream) -> (r: Result<serde_json::Value, String>)
    ensures
        answer_model(r) == answered(url@, upstream@),
{
    match send_upstream(url, upstream) {
        Ok((status, body)) => parse_bytes(body.as_slice()),
        Err(e) => Err(e),
    }
}

/// Whether a value is a text with the selector of `ExecutionNotFound()` in front.
pub open spec fn is_not_found_data(data: JsonModel) -> bool {
    data matches JsonModel::Text(s) && EXECUTION_NOT_FOUND@.is_prefix_of(ascii_lower(s))
}

/// Whether a JSON-RPC answer carries a revert with `ExecutionNotFound()`, in `error.data` or
/// in `error.data.data`.
pub open spec fn reverts_not_found(answer: JsonModel) -> bool {
    let data = answer.member("error"@).member("data"@);
    is_not_found_data(data) || is_not_found_data(data.member("data"@))
}

fn has_not_found_selector(data: &serde_json::Value) -> (r: bool)
    ensures
        r == is_not_found_data(json_model(*data)),
{
    match as_text(data) {
        Some(s) => starts_with(to_ascii_lowercase(s).as_str(), EXECUTION_NOT_FOUND),
        None => false,
    }
}

pub fn is_execution_not_found(resp: &serde_json::Value) -> (r: bool)
    ensures
        r == reverts_not_found(json_model(*resp)),
{
    let data = member(member(resp, "error"), "data");
    has_not_found_selector(data) || has_not_found_selector(member(data, "data"))
}

/// The request for the number of the latest block.
pub open spec fn block_number_call() -> JsonModel {
    JsonModel::empty().with("jsonrpc"@, JsonModel::Text("2.0"@)).with(
        "id"@,
        JsonModel::Number(integer(1)),
    ).with("method"@, JsonModel::Text("eth_blockNumber"@)).with(
        "params"@,
        JsonModel::Array(Seq::empty()),
    )
}

fn block_number_request(url: &str) -> (r: Outgoing)
    ensures
        is_rpc_request(r, url@, json_bytes(block_number_call())),
{
    let params: Vec<serde_json::Value> = Vec::new();
    proof {
        assert(json_models(params@) =~= Seq::empty());
    }
    json_request(
        url,
        &Fields::new().with_text("jsonrpc", "2.0").with("id", number_value(1)).with_text(
            "method",
            "eth_blockNumber",
        ).with("params", array_value(params)).build(),
    )
}

/// The number of a block in the answer of `url`, or what went wrong.
pub open spec fn block_in(url: Seq<char>, answer: Result<JsonModel, Seq<char>>) -> Result<
    u64,
    Seq<char>,
> {
    match answer {
        Ok(m) => match m.member("result"@) {
            JsonModel::Text(s) => match u64_numeral(without_leading(s, "0x"@), 16) {
                Some(n) => Ok(n),
                None => Err(hex_numeral_error(without_leading(s, "0x"@))),
            },
            _ => Err("no result from "@ + url + ": "@ + json_text(m)),
        },
        Err(e) => Err(e),
    }
}

/// A number that was read, or what went wrong, by what it holds.
pub open spec fn number_model(number: Result<u64, String>) -> Result<u64, Seq<char>> {
    match number {
        Ok(n) => Ok(n),
        Err(e) => Err(e@),
    }
}

/// Reads the number of a block in the answer of `url`.
pub fn block_number(url: &str, answer: Result<serde_json::Value, String>) -> (r: Result<
    u64,
    String,
>)
    ensures
        number_model(r) == block_in(url@, answer_model(answer)),
{
    match answer {
        Ok(resp) => match as_text(member(&resp, "result")) {
            Some(hex) => parse_hex_u64(trim_hex_prefix(hex).as_str()),
            None => Err(
                owned("no result from ").concat(url).concat(": ").concat(render(&resp).as_str()),
            ),
        },
        Err(e) => Err(e),
    }
}

/// What a request does next: it answers, it asks a server and goes on with what came of that,
/// or it waits for some seconds and goes on.
#[allow(inconsistent_fields)]
pub enum RpcStep {
    Respond(Reply),
    Send { request: Outgoing, next: Awaiting },
    Sleep { secs: u64, next: Waiting },
}

/// A request that waits for a server.
pub enum Awaiting {
    /// It was passed on, and is answered with what the server answers.
    Forwarded(Forwarding),
    /// What it does depends on what the server answers.
    Asked(Question),
}

/// A request that was passed on to a server.
pub struct Forwarding {
    pub url: String,
}

/// A transaction that is on its way to the execution RPC or to the front of a chain.
pub struct Pending {
    pub chain: Chain,
    pub id: serde_json::Value,
    pub body: Vec<u8>,
}

/// A cross-chain transaction that waits for the front to reach the block `target`.
pub struct Poll {
    pub pending: Pending,
    pub target: u64,
    pub waited: u64,
}

/// A request that waits for some seconds.
pub struct Waiting {
    pub poll: Poll,
}

/// What was asked of a server.
pub enum Question {
    /// The gas that a call needs.
    Gas { url: String, id: serde_json::Value },
    /// What a transaction would do on the execution RPC.
    Simulation(Pending),
    /// The latest block of the execution RPC.
    Target(Pending),
    /// The latest block of the front.
    Front(Poll),
}

/// Whether `step` passes a body on to `url` as it is.
pub open spec fn forwards(step: RpcStep, url: Seq<char>, body: Seq<u8>) -> bool {
    &&& step matches RpcStep::Send { request, next }
    &&& is_rpc_request(request, url, body)
    &&& next matches Awaiting::Forwarded(f)
    &&& f.url@ == url
}

/// Whether `step` posts a body to `url` and goes on with `question`.
pub open spec fn asks(step: RpcStep, url: Seq<char>, body: Seq<u8>, question: Question) -> bool {
    &&& step matches RpcStep::Send { request, next }
    &&& is_rpc_request(request, url, body)
    &&& next == Awaiting::Asked(question)
}

/// Whether `step` answers with `reply`.
pub open spec fn responds(step: RpcStep, reply: ReplyModel) -> bool {
    step matches RpcStep::Respond(r) && r@ == reply
}

fn pass_on(url: &str, body: Vec<u8>) -> (r: RpcStep)
    ensures
        forwards(r, url@, body@),
{
    RpcStep::Send {
        request: rpc_request(url, body),
        next: Awaiting::Forwarded(Forwarding { url: owned(url) }),
    }
}

impl Forwarding {
    /// The answer to a request that was passed on: what the server answered, as it is.
    pub open spec fn outcome(self, upstream: UpstreamModel) -> ReplyModel {
        match received(self.url@, upstream) {
            Ok((status, body)) => rpc_reply(status, body),
            Err(e) => error_reply(JsonModel::Null, -32603, "upstream unreachable: "@ + e),
        }
    }

    /// Answers a request that was passed on.
    pub fn forward(self, upstream: Upstream) -> (r: Reply)
        ensures
            r@ == self.outcome(upstream@),
    {
        match send_upstream(self.url.as_str(), upstream) {
            Ok((status, body)) => rpc_response(status, body),
            Err(e) => rpc_error(
                null(),
                -32603,
                owned("upstream unreachable: ").concat(e.as_str()).as_str(),
            ),
        }
    }
}

/// The answer that the execution RPC failed.
pub open spec fn unreachable_reply(id: JsonModel, e: Seq<char>) -> ReplyModel {
    error_reply(id, -32603, "execution RPC unreachable: "@ + e)
}

fn unreachable_response(id: serde_json::Value, e: &str) -> (r: Reply)
    ensures
        r@ == unreachable_reply(json_model(id), e@),
{
    rpc_error(id, -32603, owned("execution RPC unreachable: ").concat(e).as_str())
}

/// The answer that the front does not follow the execution RPC.
pub open spec fn out_of_sync_reply(id: JsonModel, e: Seq<char>) -> ReplyModel {
    error_reply(id, -32603, "front not in sync with execution RPC: "@ + e)
}

fn out_of_sync_response(id: serde_json::Value, e: &str) -> (r: Reply)
    ensures
        r@ == out_of_sync_reply(json_model(id), e@),
{
    rpc_error(id, -32603, owned("front not in sync with execution RPC: ").concat(e).as_str())
}

/// The answer to `eth_estimateGas`, from the answer of the execution RPC: the fixed limit for
/// a cross-chain call, otherwise that answer.
pub open spec fn gas_reply(id: JsonModel, answer: Result<JsonModel, Seq<char>>) -> ReplyModel {
    match answer {
        Ok(m) => if reverts_not_found(m) {
            rpc_reply(
                200,
                json_bytes(
                    JsonModel::empty().with("jsonrpc"@, JsonModel::Text("2.0"@)).with(
                        "id"@,
                        id,
                    ).with("result"@, JsonModel::Text(CROSS_CHAIN_GAS@)),
                ),
            )
        } else {
            rpc_reply(200, json_bytes(m))
        },
        Err(e) => unreachable_reply(id, e),
    }
}

/// Answers `eth_estimateGas`.
pub fn estimate_gas(id: serde_json::Value, answer: Result<serde_json::Value, String>) -> (r: Reply)
    ensures
        r@ == gas_reply(json_model(id), answer_model(answer)),
{
    match answer {
        Ok(upstream) => {
            if is_execution_not_found(&upstream) {
                json_response(
                    200,
                    &Fields::new().with_text("jsonrpc", "2.0").with("id", id).with_text(
                        "result",
                        CROSS_CHAIN_GAS,
                    ).build(),
                )
            } else {
                json_response(200, &upstream)
            }
        },
        Err(e) => unreachable_response(id, e.as_str()),
    }
}

/// The request to simulate a call.
pub open spec fn simulation_call(call: JsonModel) -> JsonModel {
    JsonModel::empty().with("jsonrpc"@, JsonModel::Text("2.0"@)).with(
        "id"@,
        JsonModel::Number(integer(1)),
    ).with("method"@, JsonModel::Text("eth_call"@)).with(
        "params"@,
        JsonModel::Array(Seq::empty().push(call).push(JsonModel::Text("latest"@))),
    )
}

impl Pending {
    /// Whether `step` is what follows on the decoded call: what is no signed transaction is
    /// passed on to the execution RPC, a transaction is simulated there first.
    pub open spec fn simulates(self, call: Option<JsonModel>, step: RpcStep) -> bool {
        match call {
            Some(c) => asks(
                step,
                self.chain.execution_rpc@,
                json_bytes(simulation_call(c)),
                Question::Simulation(self),
            ),
            None => forwards(step, self.chain.execution_rpc@, self.body@),
        }
    }

    /// Goes on with the decoded call.
    pub fn simulate(self, call: Option<serde_json::Value>) -> (r: RpcStep)
        ensures
            self.simulates(
                match call {
                    Some(c) => Some(json_model(c)),
                    None => None,
                },
                r,
            ),
    {
        match call {
            Some(c) => {
                let ghost model = json_model(c);
                let mut params: Vec<serde_json::Value> = Vec::new();
                params.push(c);
                params.push(text("latest"));
                proof {
                    assert(json_models(params@) =~= Seq::empty().push(model).push(
                        JsonModel::Text("latest"@),
                    ));
                }
                let body = Fields::new().with_text("jsonrpc", "2.0").with(
                    "id",
                    number_value(1),
                ).with_text("method", "eth_call").with("params", array_value(params)).build();
                RpcStep::Send {
                    request: json_request(self.chain.execution_rpc.as_str(), &body),
                    next: Awaiting::Asked(Question::Simulation(self)),
                }
            },
            None => pass_on(self.chain.execution_rpc.as_str(), self.body),
        }
    }

    /// Whether `step` is what follows on the simulation: a cross-chain transaction goes to the
    /// front, once the front has reached the latest block of the execution RPC; any other
    /// goes to the execution RPC.
    pub open spec fn is_routed(self, answer: Result<JsonModel, Seq<char>>, step: RpcStep) -> bool {
        match answer {
            Ok(m) => if reverts_not_found(m) {
                asks(
                    step,
                    self.chain.execution_rpc@,
                    json_bytes(block_number_call()),
                    Question::Target(self),
                )
            } else {
                forwards(step, self.chain.execution_rpc@, self.body@)
            },
            Err(e) => responds(step, unreachable_reply(json_model(self.id), e)),
        }
    }

    /// Goes on with what the simulation gave.
    pub fn route_transaction(self, answer: Result<serde_json::Value, String>) -> (r: RpcStep)
        ensures
            self.is_routed(answer_model(answer), r),
    {
        match answer {
            Ok(sim_resp) => {
                if is_execution_not_found(&sim_resp) {
                    RpcStep::Send {
                        request: block_number_request(self.chain.execution_rpc.as_str()),
                        next: Awaiting::Asked(Question::Target(self)),
                    }
                } else {
                    pass_on(self.chain.execution_rpc.as_str(), self.body)
                }
            },
            Err(e) => RpcStep::Respond(unreachable_response(self.id, e.as_str())),
        }
    }

    /// Whether `step` is what follows on the latest block of the execution RPC: the front is
    /// asked for its own.
    pub open spec fn awaits_front(self, target: Result<u64, Seq<char>>, step: RpcStep) -> bool {
        match target {
            Ok(n) => asks(
                step,
                self.chain.front@,
                json_bytes(block_number_call()),
                Question::Front(Poll { pending: self, target: n, waited: 0 }),
            ),
            Err(e) => responds(step, out_of_sync_reply(json_model(self.id), e)),
        }
    }

    /// Goes on with the latest block of the execution RPC.
    pub fn await_front(self, target: Result<u64, String>) -> (r: RpcStep)
        ensures
            self.awaits_front(number_model(target), r),
    {
        match target {
            Ok(n) => RpcStep::Send {
                request: block_number_request(self.chain.front.as_str()),
                next: Awaiting::Asked(
                    Question::Front(Poll { pending: self, target: n, waited: 0 }),
                ),
            },
            Err(e) => RpcStep::Respond(out_of_sync_response(self.id, e.as_str())),
        }
    }
}

/// What is said of a front that has not caught up in time.
pub open spec fn behind_text(front: u64, target: u64, waited: u64) -> Seq<char> {
    "front at block "@ + decimal(front as nat) + ", execution RPC at "@ + decimal(target as nat)
        + " after "@ + decimal(waited as nat) + "s"@
}

impl Poll {
    /// Whether `step` is what follows on the latest block of the front: the transaction is
    /// passed on to a front that has caught up; one that has not is asked again a second
    /// later, until it has had its time.
    pub open spec fn goes_on(self, front: Result<u64, Seq<char>>, step: RpcStep) -> bool {
        match front {
            Ok(n) => if n >= self.target {
                forwards(step, self.pending.chain.front@, self.pending.body@)
            } else if self.waited >= FRONT_SYNC_MAX_SECS {
                responds(
                    step,
                    out_of_sync_reply(
                        json_model(self.pending.id),
                        behind_text(n, self.target, self.waited),
                    ),
                )
            } else {
                &&& step matches RpcStep::Sleep { secs, next }
                &&& secs == 1
                &&& next.poll == (Poll { waited: (self.waited + 1) as u64, ..self })
            },
            Err(e) => responds(step, out_of_sync_reply(json_model(self.pending.id), e)),
        }
    }

    /// Goes on with the latest block of the front.
    pub fn wait_for_front_sync(self, front: Result<u64, String>) -> (r: RpcStep)
        ensures
            self.goes_on(number_model(front), r),
    {
        match front {
            Ok(n) => {
                if n >= self.target {
                    pass_on(self.pending.chain.front.as_str(), self.pending.body)
                } else if self.waited >= FRONT_SYNC_MAX_SECS {
                    let e = owned("front at block ").concat(u64_text(n).as_str()).concat(
                        ", execution RPC at ",
                    ).concat(u64_text(self.target).as_str()).concat(" after ").concat(
                        u64_text(self.waited).as_str(),
                    ).concat("s");
                    RpcStep::Respond(out_of_sync_response(self.pending.id, e.as_str()))
                } else {
                    RpcStep::Sleep {
                        secs: 1,
                        next: Waiting {
                            poll: Poll {
                                pending: self.pending,
                                target: self.target,
                                waited: self.waited + 1,
                            },
                        },
                    }
                }
            },
            Err(e) => RpcStep::Respond(out_of_sync_response(self.pending.id, e.as_str())),
        }
    }
}

impl Waiting {
    /// Whether `step` is what follows on the wait: the front is asked for its latest block.
    pub open spec fn goes_on(self, step: RpcStep) -> bool {
        asks(
            step,
            self.poll.pending.chain.front@,
            json_bytes(block_number_call()),
            Question::Front(self.poll),
        )
    }

    /// Goes on after the wait.
    pub fn resume(self) -> (r: RpcStep)
        ensures
            self.goes_on(r),
    {
        RpcStep::Send {
            request: block_number_request(self.poll.pending.chain.front.as_str()),
            next: Awaiting::Asked(Question::Front(self.poll)),
        }
    }
}

impl Question {
    /// The server that was asked.
    pub open spec fn url(self) -> Seq<char> {
        match self {
            Question::Gas { url, id } => url@,
            Question::Simulation(pending) => pending.chain.execution_rpc@,
            Question::Target(pending) => pending.chain.execution_rpc@,
            Question::Front(poll) => poll.pending.chain.front@,
        }
    }

    /// Whether `step` is what follows on the answer.
    pub open spec fn goes_on(self, answer: Result<JsonModel, Seq<char>>, step: RpcStep) -> bool {
        match self {
            Question::Gas { url, id } => responds(step, gas_reply(json_model(id), answer)),
            Question::Simulation(pending) => pending.is_routed(answer, step),
            Question::Target(pending) => pending.awaits_front(block_in(self.url(), answer), step),
            Question::Front(poll) => poll.goes_on(block_in(self.url(), answer), step),
        }
    }

    /// Goes on with the answer.
    pub fn proceed(self, answer: Result<serde_json::Value, String>) -> (r: RpcStep)
        ensures
            self.goes_on(answer_model(answer), r),
    {
        match self {
            Question::Gas { url, id } => RpcStep::Respond(estimate_gas(id, answer)),
            Question::Simulation(pending) => pending.route_transaction(answer),
            Question::Target(pending) => {
                let target = block_number(pending.chain.execution_rpc.as_str(), answer);
                pending.await_front(target)
            },
            Question::Front(poll) => {
                let front = block_number(poll.pending.chain.front.as_str(), answer);
                poll.wait_for_front_sync(front)
            },
        }
    }

    fn asked(&self) -> (r: String)
        ensures
            r@ == self.url(),
    {
        match self {
            Question::Gas { url, id } => owned(url.as_str()),
            Question::Simulation(pending) => owned(pending.chain.execution_rpc.as_str()),
            Question::Target(pending) => owned(pending.chain.execution_rpc.as_str()),
            Question::Front(poll) => owned(poll.pending.chain.front.as_str()),
        }
    }
}

impl Awaiting {
    /// The id under which a failure is reported: that of the request, null where the request
    /// was passed on without a look at it.
    pub open spec fn id(self) -> JsonModel {
        match self {
            Awaiting::Forwarded(f) => JsonModel::Null,
            Awaiting::Asked(Question::Gas { url, id }) => json_model(id),
            Awaiting::Asked(Question::Simulation(pending)) => json_model(pending.id),
            Awaiting::Asked(Question::Target(pending)) => json_model(pending.id),
            Awaiting::Asked(Question::Front(poll)) => json_model(poll.pending.id),
        }
    }

    /// Whether `step` is what follows on what came of the request to the server.
    pub open spec fn goes_on(self, upstream: UpstreamModel, step: RpcStep) -> bool {
        match self {
            Awaiting::Forwarded(f) => responds(step, f.outcome(upstream)),
            Awaiting::Asked(q) => q.goes_on(answered(q.url(), upstream), step),
        }
    }

    /// Goes on with what came of the request to the server.
    pub fn resume(self, upstream: Upstream) -> (r: RpcStep)
        ensures
            self.goes_on(upstream@, r),
    {
        match self {
            Awaiting::Forwarded(f) => RpcStep::Respond(f.forward(upstream)),
            Awaiting::Asked(q) => {
                let url = q.asked();
                let answer = rpc_post(url.as_str(), upstream);
                q.proceed(answer)
            },
        }
    }
}

/// The transaction that a request to `eth_sendRawTransaction` holds.
pub open spec fn raw_transaction(parsed: JsonModel) -> Seq<char> {
    match parsed.member("params"@).element(0) {
        JsonModel::Text(raw) => raw,
        _ => Seq::empty(),
    }
}

/// The method that a JSON-RPC request names; no text where it names none.
pub open spec fn rpc_method(parsed: JsonModel) -> Seq<char> {
    match parsed.member("method"@) {
        JsonModel::Text(name) => name,
        _ => Seq::empty(),
    }
}

/// Whether `step` is what follows on a request to a chain, `parsed` being the JSON in its
/// body.
pub open spec fn routes(
    chain: ChainModel,
    parsed: Result<JsonModel, Seq<char>>,
    body: Seq<u8>,
    step: RpcStep,
) -> bool {
    match parsed {
        Err(e) => responds(
            step,
            error_reply(JsonModel::Null, -32600, "invalid JSON-RPC request: "@ + e),
        ),
        Ok(m) => if !(m is Object) {
            forwards(step, chain.execution_rpc, body)
        } else if rpc_method(m) == "eth_fillTransaction"@ {
            responds(step, error_reply(m.member("id"@), -32601, "Method not found"@))
        } else if rpc_method(m) == "eth_estimateGas"@ {
            &&& step matches RpcStep::Send { request, next }
            &&& is_rpc_request(request, chain.execution_rpc, body)
            &&& next matches Awaiting::Asked(Question::Gas { url, id })
            &&& url@ == chain.execution_rpc
            &&& json_model(id) == m.member("id"@)
        } else if rpc_method(m) == "eth_sendRawTransaction"@ {
            exists|p: Pending|
                {
                    &&& #[trigger] p.simulates(call_of(raw_transaction(m)), step)
                    &&& p.chain@ == chain
                    &&& json_model(p.id) == m.member("id"@)
                    &&& p.body@ == body
                }
        } else {
            forwards(step, chain.execution_rpc, body)
        },
    }
}

impl Chain {
    /// Goes on with a request to `eth_sendRawTransaction`.
    fn send_raw_transaction(
        self,
        id: serde_json::Value,
        parsed: &serde_json::Value,
        body: Vec<u8>,
    ) -> (r: RpcStep)
        ensures
            (Pending { chain: self, id, body }).simulates(
                call_of(raw_transaction(json_model(*parsed))),
                r,
            ),
    {
        let raw = match as_text(element(member(parsed, "params"), 0)) {
            Some(s) => owned(s),
            None => String::new(),
        };
        proof {
            assert(raw@ =~= raw_transaction(json_model(*parsed)));
        }
        let call = decode_call(raw.as_str());
        (Pending { chain: self, id, body }).simulate(call)
    }

    /// Goes on with the JSON in the body of a request.
    pub fn route(self, parsed: Result<serde_json::Value, String>, body: Vec<u8>) -> (r: RpcStep)
        ensures
            routes(self@, answer_model(parsed), body@, r),
    {
        let parsed = match parsed {
            Ok(v) => v,
            Err(e) => {
                return RpcStep::Respond(
                    rpc_error(
                        null(),
                        -32600,
                        owned("invalid JSON-RPC request: ").concat(e.as_str()).as_str(),
                    ),
                );
            },
        };
        if !is_object(&parsed) {
            return pass_on(self.execution_rpc.as_str(), body);
        }
        let id = copy_of(member(&parsed, "id"));
        let method = match as_text(member(&parsed, "method")) {
            Some(s) => owned(s),
            None => String::new(),
        };
        proof {
            assert(method@ =~= rpc_method(json_model(parsed)));
        }
        if same(method.as_str(), "eth_fillTransaction") {
            RpcStep::Respond(rpc_error(id, -32601, "Method not found"))
        } else if same(method.as_str(), "eth_estimateGas") {
            RpcStep::Send {
                request: rpc_request(self.execution_rpc.as_str(), body),
                next: Awaiting::Asked(
                    Question::Gas { url: owned(self.execution_rpc.as_str()), id },
                ),
            }
        } else if same(method.as_str(), "eth_sendRawTransaction") {
            self.send_raw_transaction(id, &parsed, body)
        } else {
            pass_on(self.execution_rpc.as_str(), body)
        }
    }
}

/// The key of a chain in the path of a request.
pub open spec fn key_in(path: Seq<char>) -> Seq<char> {
    match after_prefix(path, "/experimental-eez-rpc/"@) {
        Some(rest) => without_trailing(rest, '/'),
        None => Seq::empty(),
    }
}

/// The answer to a request for a chain that is not configured.
pub open spec fn unknown_chain_reply(
    key: Seq<char>,
    list: Seq<(Seq<char>, ChainModel)>,
) -> ReplyModel {
    rpc_reply(
        404,
        json_bytes(
            JsonModel::empty().with(
                "error"@,
                JsonModel::Text(
                    "unknown EEZ chain '"@ + key + "'; known: "@ + joined(chain_keys(list), ", "@),
                ),
            ),
        ),
    )
}

/// The answer to a request that is no POST.
pub open spec fn wrong_method_reply() -> ReplyModel {
    rpc_reply(
        405,
        json_bytes(
            JsonModel::empty().with(
                "error"@,
                JsonModel::Text("method not allowed; POST a JSON-RPC 2.0 request"@),
            ),
        ),
    )
}

/// Whether `step` is what a request does first, `config` being the configuration of the
/// chains.
pub open spec fn begins(
    method: Method,
    path: Seq<char>,
    config: Seq<char>,
    body: Seq<u8>,
    step: RpcStep,
) -> bool {
    if method is Options {
        responds(step, preflight())
    } else {
        match chain_under(configured_chains(config), key_in(path)) {
            None => responds(step, unknown_chain_reply(key_in(path), configured_chains(config))),
            Some(chain) => if method is Post {
                routes(chain, json_of_bytes(body), body, step)
            } else {
                responds(step, wrong_method_reply())
            },
        }
    }
}

/// Starts the handling of a request.
pub fn handle(method: &Method, path: &str, config: &str, body: Vec<u8>) -> (r: RpcStep)
    ensures
        begins(*method, path@, config@, body@, r),
{
    if let Method::Options = method {
        return RpcStep::Respond(preflight_response());
    }
    let key = match strip_prefix(path, "/experimental-eez-rpc/") {
        Some(rest) => trim_end_matches(rest.as_str(), '/'),
        None => String::new(),
    };
    proof {
        assert(key@ =~= key_in(path@));
    }
    let list = chains(config);
    let chain = match find_chain(&list, key.as_str()) {
        Some(chain) => chain,
        None => {
            let known = join(&known_keys(&list), ", ");
            let error = owned("unknown EEZ chain '").concat(key.as_str()).concat(
                "'; known: ",
            ).concat(known.as_str());
            return RpcStep::Respond(
                json_response(404, &Fields::new().with_text("error", error.as_str()).build()),
            );
        },
    };
    if let Method::Post = method {
        let parsed = parse_bytes(body.as_slice());
        chain.route(parsed, body)
    } else {
        RpcStep::Respond(
            json_response(
                405,
                &Fields::new().with_text(
                    "error",
                    "method not allowed; POST a JSON-RPC 2.0 request",
                ).build(),
            ),
        )
    }
}

/// Requests other than the three that are looked into, batches among them, go to the
/// execution RPC as they are, and its answer comes back as it is.
pub proof fn other_requests_pass_through(
    chain: ChainModel,
    parsed: JsonModel,
    body: Seq<u8>,
    step: RpcStep,
    status: u16,
    answer: Seq<u8>,
    last: RpcStep,
)
    requires
        routes(chain, Ok(parsed), body, step),
        !(parsed is Object) || {
            &&& rpc_method(parsed) != "eth_fillTransaction"@
            &&& rpc_method(parsed) != "eth_estimateGas"@
            &&& rpc_method(parsed) != "eth_sendRawTransaction"@
        },
        status < 500,
        step matches RpcStep::Send { request, next } ==> next.goes_on(
            UpstreamModel::Answered { status, body: answer },
            last,
        ),
    ensures
        forwards(step, chain.execution_rpc, body),
        responds(last, rpc_reply(status, answer)),
{
}

/// A call that the execution RPC reverts with `ExecutionNotFound()` is estimated at the fixed
/// gas limit, under the id of the request; any other estimate is that of the execution RPC.
pub proof fn cross_chain_gas_is_fixed(
    chain: ChainModel,
    parsed: JsonModel,
    body: Seq<u8>,
    step: RpcStep,
    upstream: UpstreamModel,
    answer: JsonModel,
    last: RpcStep,
)
    requires
        routes(chain, Ok(parsed), body, step),
        parsed is Object,
        rpc_method(parsed) == "eth_estimateGas"@,
        answered(chain.execution_rpc, upstream) == Ok::<JsonModel, Seq<char>>(answer),
        step matches RpcStep::Send { request, next } ==> next.goes_on(upstream, last),
    ensures
        step matches RpcStep::Send { request, next } && is_rpc_request(
            request,
            chain.execution_rpc,
            body,
        ),
        responds(
            last,
            rpc_reply(
                200,
                json_bytes(
                    if reverts_not_found(answer) {
                        JsonModel::empty().with("jsonrpc"@, JsonModel::Text("2.0"@)).with(
                            "id"@,
                            parsed.member("id"@),
                        ).with("result"@, JsonModel::Text("0xaae60"@))
                    } else {
                        answer
                    },
                ),
            ),
        ),
{
    distinct_methods();
}

proof fn distinct_methods()
    ensures
        "eth_fillTransaction"@ != "eth_estimateGas"@,
        "eth_fillTransaction"@ != "eth_sendRawTransaction"@,
        "eth_estimateGas"@ != "eth_sendRawTransaction"@,
{
    reveal_strlit("eth_fillTransaction");
    reveal_strlit("eth_estimateGas");
    reveal_strlit("eth_sendRawTransaction");
    assert("eth_fillTransaction"@.len() != "eth_estimateGas"@.len());
    assert("eth_fillTransaction"@.len() != "eth_sendRawTransaction"@.len());
    assert("eth_estimateGas"@.len() != "eth_sendRawTransaction"@.len());
}

/// What is no signed transaction goes to the execution RPC as it is. A signed transaction is
/// simulated there; it goes to the execution RPC as it is where the simulation does not revert
/// with `ExecutionNotFound()`.
pub proof fn ordinary_transactions_reach_the_execution_rpc(
    chain: ChainModel,
    parsed: JsonModel,
    body: Seq<u8>,
    step: RpcStep,
    upstream: UpstreamModel,
    answer: JsonModel,
    last: RpcStep,
)
    requires
        routes(chain, Ok(parsed), body, step),
        parsed is Object,
        rpc_method(parsed) == "eth_sendRawTransaction"@,
        answered(chain.execution_rpc, upstream) == Ok::<JsonModel, Seq<char>>(answer),
        !reverts_not_found(answer),
        step matches RpcStep::Send { request, next } ==> next.goes_on(upstream, last),
    ensures
        match call_of(raw_transaction(parsed)) {
            Some(call) => {
                &&& step matches RpcStep::Send { request, next }
                &&& is_rpc_request(request, chain.execution_rpc, json_bytes(simulation_call(call)))
                &&& forwards(last, chain.execution_rpc, body)
            },
            None => forwards(step, chain.execution_rpc, body),
        },
{
    distinct_methods();
}

/// A signed transaction that the simulation reverts with `ExecutionNotFound()` goes to the
/// front as it is, once the front has reached the block at which the execution RPC was: at the
/// first poll, or after however many polls it takes within its time.
pub proof fn cross_chain_transactions_reach_the_front(
    chain: ChainModel,
    parsed: JsonModel,
    body: Seq<u8>,
    steps: (RpcStep, RpcStep, RpcStep),
    upstreams: (UpstreamModel, UpstreamModel),
    simulated: JsonModel,
    target: u64,
    polls: Seq<Poll>,
    answers: Seq<Result<u64, Seq<char>>>,
    sleeps: Seq<RpcStep>,
    questions: Seq<RpcStep>,
    upstream: UpstreamModel,
    front: u64,
    last: RpcStep,
)
    requires
        routes(chain, Ok(parsed), body, steps.0),
        parsed is Object,
        rpc_method(parsed) == "eth_sendRawTransaction"@,
        call_of(raw_transaction(parsed)) is Some,
        answered(chain.execution_rpc, upstreams.0) == Ok::<JsonModel, Seq<char>>(simulated),
        reverts_not_found(simulated),
        block_in(chain.execution_rpc, answered(chain.execution_rpc, upstreams.1)) == Ok::<
            u64,
            Seq<char>,
        >(target),
        steps.0 matches RpcStep::Send { request, next } ==> next.goes_on(upstreams.0, steps.1),
        steps.1 matches RpcStep::Send { request, next } ==> next.goes_on(upstreams.1, steps.2),
        is_wait(polls, answers, sleeps, questions),
        steps.2 matches RpcStep::Send { request, next } ==> next == Awaiting::Asked(
            Question::Front(polls[0]),
        ),
        block_in(chain.front, answered(chain.front, upstream)) == Ok::<u64, Seq<char>>(front),
        front >= target,
        Awaiting::Asked(Question::Front(polls.last())).goes_on(upstream, last),
    ensures
        steps.2 matches RpcStep::Send { request, next } && is_rpc_request(
            request,
            chain.front,
            json_bytes(block_number_call()),
        ),
        forwards(last, chain.front, body),
{
    distinct_methods();
    lemma_wait(polls, answers, sleeps, questions, polls.len() - 1);
}

/// Where the last answer of the front, after a wait, is at least the block that was to be
/// reached, the transaction is forwarded to the front as it came.
pub proof fn waits_end_at_the_front(
    polls: Seq<Poll>,
    answers: Seq<Result<u64, Seq<char>>>,
    sleeps: Seq<RpcStep>,
    questions: Seq<RpcStep>,
    front: u64,
    step: RpcStep,
)
    requires
        is_wait(polls, answers, sleeps, questions),
        front >= polls[0].target,
        polls.last().goes_on(Ok(front), step),
    ensures
        forwards(step, polls[0].pending.chain.front@, polls[0].pending.body@),
{
    lemma_wait(polls, answers, sleeps, questions, polls.len() - 1);
}

/// A server is handed a transaction in two cases only, and as it came: the execution RPC
/// where the simulation did not revert with `ExecutionNotFound()`, and the front where it has
/// reached the block that it was to reach.
pub proof fn transactions_are_routed_by_what_was_answered(
    question: Question,
    answer: Result<JsonModel, Seq<char>>,
    step: RpcStep,
    url: Seq<char>,
    body: Seq<u8>,
)
    requires
        question.goes_on(answer, step),
        forwards(step, url, body),
    ensures
        match question {
            Question::Simulation(pending) => {
                &&& url == pending.chain.execution_rpc@
                &&& body == pending.body@
                &&& answer matches Ok(m) && !reverts_not_found(m)
            },
            Question::Front(poll) => {
                &&& url == poll.pending.chain.front@
                &&& body == poll.pending.body@
                &&& block_in(question.url(), answer) matches Ok(n) && n >= poll.target
            },
            _ => false,
        },
{
}

/// Whether `polls` follow one another, each a second after the one before: the front answered
/// each but the last with `answers`.
pub open spec fn is_wait(
    polls: Seq<Poll>,
    answers: Seq<Result<u64, Seq<char>>>,
    sleeps: Seq<RpcStep>,
    questions: Seq<RpcStep>,
) -> bool {
    &&& polls.len() > 0
    &&& polls[0].waited == 0
    &&& answers.len() == polls.len() - 1
    &&& sleeps.len() == answers.len()
    &&& questions.len() == answers.len()
    &&& forall|i: int|
        0 <= i < answers.len() ==> {
            &&& (#[trigger] polls[i]).goes_on(answers[i], sleeps[i])
            &&& sleeps[i] matches RpcStep::Sleep { secs, next }
            &&& next.goes_on(questions[i])
            &&& questions[i] matches RpcStep::Send { request, next: asked }
            &&& asked == Awaiting::Asked(Question::Front(polls[i + 1]))
        }
}

/// The front is asked at most once more than it has seconds to catch up, always for the same
/// block and with the same transaction; the seconds waited are counted.
pub proof fn waiting_for_the_front_ends(
    polls: Seq<Poll>,
    answers: Seq<Result<u64, Seq<char>>>,
    sleeps: Seq<RpcStep>,
    questions: Seq<RpcStep>,
)
    requires
        is_wait(polls, answers, sleeps, questions),
    ensures
        polls.len() <= FRONT_SYNC_MAX_SECS + 1,
        forall|i: int|
            0 <= i < polls.len() ==> (#[trigger] polls[i]) == (Poll {
                waited: i as u64,
                ..polls[0]
            }),
{
    lemma_wait(polls, answers, sleeps, questions, polls.len() - 1);
    assert forall|i: int| 0 <= i < polls.len() implies (#[trigger] polls[i]) == (Poll {
        waited: i as u64,
        ..polls[0]
    }) by {
        lemma_wait(polls, answers, sleeps, questions, i);
    }
}

proof fn lemma_wait(
    polls: Seq<Poll>,
    answers: Seq<Result<u64, Seq<char>>>,
    sleeps: Seq<RpcStep>,
    questions: Seq<RpcStep>,
    i: int,
)
    requires
        is_wait(polls, answers, sleeps, questions),
        0 <= i < polls.len(),
    ensures
        i <= FRONT_SYNC_MAX_SECS,
        polls[i] == (Poll { waited: i as u64, ..polls[0] }),
    decreases i,
{
    if i > 0 {
        lemma_wait(polls, answers, sleeps, questions, i - 1);
        assert(polls[i - 1].goes_on(answers[i - 1], sleeps[i - 1]));
    }
}

/// Where a server fails, the request is answered with the JSON-RPC error -32603.
pub proof fn failures_are_answered_with_an_error(
    awaiting: Awaiting,
    upstream: UpstreamModel,
    step: RpcStep,
)
    requires
        awaiting.goes_on(upstream, step),
        match awaiting {
            Awaiting::Forwarded(f) => received(f.url@, upstream) is Err,
            Awaiting::Asked(q) => answered(q.url(), upstream) is Err,
        },
    ensures
        exists|message: Seq<char>|
            responds(step, #[trigger] error_reply(awaiting.id(), -32603, message)),
{
}

/// Whether an answer ends with the headers that let any page read it.
pub open spec fn is_readable(reply: ReplyModel) -> bool {
    exists|headers: Seq<(Seq<char>, Seq<char>)>|
        reply.headers == #[trigger] with_cors_headers(headers)
}

/// Any page may read what is answered at once.
pub proof fn first_answers_are_readable(
    method: Method,
    path: Seq<char>,
    config: Seq<char>,
    body: Seq<u8>,
    step: RpcStep,
)
    requires
        begins(method, path, config, body, step),
    ensures
        step matches RpcStep::Respond(r) ==> is_readable(r@),
{
}

/// Any page may read what is answered after a server was asked.
pub proof fn later_answers_are_readable(awaiting: Awaiting, upstream: UpstreamModel, step: RpcStep)
    requires
        awaiting.goes_on(upstream, step),
    ensures
        step matches RpcStep::Respond(r) ==> is_readable(r@),
{
}

} // verus!
