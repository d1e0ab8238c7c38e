//! What the endpoint of a chain promises: where a request goes, how long it waits, and what it is
//! answered.

use vstd::prelude::*;
use vstd::utf8::encode_utf8;
use crate::chains::{chain_keys, chain_under, configured_chains, ChainModel};
use crate::eez::{
    begins, reverts_not_found, routes, Awaiting, Forwarding, Pending, Poll, Question, RpcStep,
    Waiting,
};
use crate::http::{Method, Outgoing, ReplyModel, UpstreamModel};
use crate::json::{integer, json_model, json_of_bytes, json_text, JsonModel};
use crate::laws::answers::under;
use crate::laws::text::leading_prefixes_are_taken_off;
use crate::text::{
    ascii_lower, decimal, hex_numeral_error, joined, u64_numeral, without_leading,
};
use crate::transaction::{
    call_of, call_of_transaction, hex_bytes, hex_text, signed_transaction, TransactionModel,
};

verus! {

/// Whether an answer has the status and the body, as JSON that any page may read.
pub open spec fn is_answer(reply: ReplyModel, status: u16, body: Seq<u8>) -> bool {
    &&& reply.status == status
    &&& reply.headers == seq![
        ("content-type"@, "application/json"@),
        ("access-control-allow-origin"@, "*"@),
        ("access-control-allow-methods"@, "GET, POST, OPTIONS"@),
        ("access-control-allow-headers"@, "*"@),
        ("access-control-max-age"@, "3600"@),
    ]
    &&& reply.body == body
}

/// Whether a step answers with the status and the value.
pub open spec fn answers_value(step: RpcStep, status: u16, value: JsonModel) -> bool {
    step matches RpcStep::Respond(r) && is_answer(r@, status, encode_utf8(json_text(value)))
}

/// The value of a JSON-RPC error, `code` being the numeral of its code.
pub open spec fn failure(id: JsonModel, code: Seq<char>, message: Seq<char>) -> JsonModel {
    JsonModel::Object(
        map![
            "jsonrpc"@ => JsonModel::Text("2.0"@),
            "id"@ => id,
            "error"@ => JsonModel::Object(
                map!["code"@ => JsonModel::Number(code), "message"@ => JsonModel::Text(message)],
            )
        ],
    )
}

/// Whether a step answers with a JSON-RPC error.
pub open spec fn fails(
    step: RpcStep,
    id: JsonModel,
    code: Seq<char>,
    message: Seq<char>,
) -> bool {
    answers_value(step, 200, failure(id, code, message))
}

/// Whether a request posts a body as JSON.
pub open spec fn posts(request: Outgoing, url: Seq<char>, body: Seq<u8>) -> bool {
    &&& request.method is Post
    &&& request.uri@ == url
    &&& request.headers.deep_view() == seq![("content-type"@, "application/json"@)]
    &&& request.body@ == body
}

/// Whether a step hands a body on to a server and waits for its answer.
pub open spec fn hands_on(step: RpcStep, url: Seq<char>, body: Seq<u8>) -> bool {
    &&& step matches RpcStep::Send { request, next }
    &&& posts(request, url, body)
    &&& next matches Awaiting::Forwarded(f)
    &&& f.url@ == url
}

/// Whether a step asks a server with a value and goes on with what was asked.
pub open spec fn puts(
    step: RpcStep,
    url: Seq<char>,
    value: JsonModel,
    question: Question,
) -> bool {
    &&& step matches RpcStep::Send { request, next }
    &&& posts(request, url, encode_utf8(json_text(value)))
    &&& next == Awaiting::Asked(question)
}

/// The question for the latest block.
pub open spec fn latest_block() -> JsonModel {
    JsonModel::Object(
        map![
            "jsonrpc"@ => JsonModel::Text("2.0"@),
            "id"@ => JsonModel::Number("1"@),
            "method"@ => JsonModel::Text("eth_blockNumber"@),
            "params"@ => JsonModel::Array(Seq::empty())
        ],
    )
}

/// The question what a call would do.
pub open spec fn trial(call: JsonModel) -> JsonModel {
    JsonModel::Object(
        map![
            "jsonrpc"@ => JsonModel::Text("2.0"@),
            "id"@ => JsonModel::Number("1"@),
            "method"@ => JsonModel::Text("eth_call"@),
            "params"@ => JsonModel::Array(seq![call, JsonModel::Text("latest"@)])
        ],
    )
}

proof fn lemma_names()
    ensures
        "jsonrpc"@ != "id"@,
        "jsonrpc"@ != "error"@,
        "jsonrpc"@ != "method"@,
        "jsonrpc"@ != "params"@,
        "jsonrpc"@ != "result"@,
        "id"@ != "error"@,
        "id"@ != "method"@,
        "id"@ != "params"@,
        "id"@ != "result"@,
        "method"@ != "params"@,
        "code"@ != "message"@,
        "from"@ != "to"@,
        "from"@ != "data"@,
        "from"@ != "value"@,
        "to"@ != "data"@,
        "to"@ != "value"@,
        "data"@ != "value"@,
{
    reveal_strlit("jsonrpc");
    reveal_strlit("id");
    reveal_strlit("error");
    reveal_strlit("method");
    reveal_strlit("params");
    reveal_strlit("result");
    reveal_strlit("code");
    reveal_strlit("message");
    reveal_strlit("from");
    reveal_strlit("to");
    reveal_strlit("data");
    reveal_strlit("value");
    assert("jsonrpc"@[0] == 'j' && "id"@[0] == 'i' && "error"@[0] == 'e' && "method"@[0] == 'm'
        && "params"@[0] == 'p' && "result"@[0] == 'r');
    assert("code"@[0] == 'c' && "message"@[0] == 'm');
    assert("from"@[0] == 'f' && "to"@[0] == 't' && "data"@[0] == 'd' && "value"@[0] == 'v');
}

proof fn lemma_codes()
    ensures
        integer(-32603) == "-32603"@,
        integer(-32600) == "-32600"@,
        integer(-32601) == "-32601"@,
        integer(1) == "1"@,
{
    reveal_strlit("-32603");
    reveal_strlit("-32600");
    reveal_strlit("-32601");
    reveal_strlit("1");
    reveal_with_fuel(decimal, 6);
    assert(decimal(32603) =~= seq!['3', '2', '6', '0', '3']);
    assert(decimal(32600) =~= seq!['3', '2', '6', '0', '0']);
    assert(decimal(32601) =~= seq!['3', '2', '6', '0', '1']);
    assert(decimal(1) =~= seq!['1']);
    assert(integer(-32603) =~= "-32603"@);
    assert(integer(-32600) =~= "-32600"@);
    assert(integer(-32601) =~= "-32601"@);
    assert(integer(1) =~= "1"@);
}

proof fn lemma_failure(id: JsonModel, code: int, message: Seq<char>)
    ensures
        crate::eez::error_reply(id, code, message).status == 200,
        is_answer(
            crate::eez::error_reply(id, code, message),
            200,
            encode_utf8(json_text(failure(id, integer(code), message))),
        ),
{
    lemma_names();
    let inner = Map::empty().insert("code"@, JsonModel::Number(integer(code))).insert(
        "message"@,
        JsonModel::Text(message),
    );
    assert(inner =~= map![
        "code"@ => JsonModel::Number(integer(code)),
        "message"@ => JsonModel::Text(message)
    ]);
    let outer = Map::empty().insert("jsonrpc"@, JsonModel::Text("2.0"@)).insert("id"@, id).insert(
        "error"@,
        JsonModel::Object(inner),
    );
    assert(outer =~= failure(id, integer(code), message)->Object_0);
    lemma_answer(
        200,
        encode_utf8(json_text(failure(id, integer(code), message))),
    );
}

proof fn lemma_answer(status: u16, body: Seq<u8>)
    ensures
        is_answer(crate::eez::rpc_reply(status, body), status, body),
{
    assert(crate::eez::rpc_reply(status, body).headers =~= seq![
        ("content-type"@, "application/json"@),
        ("access-control-allow-origin"@, "*"@),
        ("access-control-allow-methods"@, "GET, POST, OPTIONS"@),
        ("access-control-allow-headers"@, "*"@),
        ("access-control-max-age"@, "3600"@),
    ]);
}

proof fn lemma_posts(request: Outgoing, url: Seq<char>, body: Seq<u8>)
    requires
        crate::eez::is_rpc_request(request, url, body),
    ensures
        posts(request, url, body),
{
    assert(request.headers.deep_view() =~= seq![("content-type"@, "application/json"@)]);
}

proof fn lemma_step(step: RpcStep, url: Seq<char>, body: Seq<u8>)
    ensures
        crate::eez::forwards(step, url, body) ==> hands_on(step, url, body),
        step matches RpcStep::Send { request, next } ==> crate::eez::is_rpc_request(
            request,
            url,
            body,
        ) ==> posts(request, url, body),
{
    if let RpcStep::Send { request, next } = step {
        if crate::eez::is_rpc_request(request, url, body) {
            lemma_posts(request, url, body);
        }
    }
}

proof fn lemma_block_question()
    ensures
        crate::eez::block_number_call() == latest_block(),
{
    lemma_names();
    lemma_codes();
    assert(crate::eez::block_number_call()->Object_0 =~= latest_block()->Object_0);
}

/// A front that has not reached the block is asked again a second later, however far behind it
/// is, as long as it has not had its thirty seconds: with the same transaction, for the same block,
/// and with one more second counted. Only then is a readable answer that is too low an error. A
/// front that has reached the block is handed the transaction, as it came.
pub proof fn fronts_are_given_thirty_seconds(poll: Poll, front: u64, step: RpcStep)
    requires
        poll.goes_on(Ok(front), step),
    ensures
        front < poll.target && poll.waited < 30 ==> (step matches RpcStep::Sleep { secs, next } && {
            &&& secs == 1
            &&& next.poll.pending == poll.pending
            &&& next.poll.target == poll.target
            &&& next.poll.waited == poll.waited + 1
        }),
        step is Respond ==> poll.waited >= 30 && front < poll.target,
        front < poll.target && poll.waited >= 30 ==> fails(
            step,
            json_model(poll.pending.id),
            "-32603"@,
            "front not in sync with execution RPC: "@ + ("front at block "@ + decimal(front as nat)
                + ", execution RPC at "@ + decimal(poll.target as nat) + " after "@ + decimal(
                poll.waited as nat,
            ) + "s"@),
        ),
        front >= poll.target ==> hands_on(step, poll.pending.chain.front@, poll.pending.body@),
{
    lemma_codes();
    lemma_failure(
        json_model(poll.pending.id),
        -32603,
        "front not in sync with execution RPC: "@ + ("front at block "@ + decimal(front as nat)
            + ", execution RPC at "@ + decimal(poll.target as nat) + " after "@ + decimal(
            poll.waited as nat,
        ) + "s"@),
    );
    lemma_step(step, poll.pending.chain.front@, poll.pending.body@);
}

/// After each second the front is asked for its latest block, and for nothing else.
pub proof fn waits_end_with_a_question(waiting: Waiting, step: RpcStep)
    requires
        waiting.goes_on(step),
    ensures
        puts(
            step,
            waiting.poll.pending.chain.front@,
            latest_block(),
            Question::Front(waiting.poll),
        ),
{
    lemma_block_question();
    lemma_step(
        step,
        waiting.poll.pending.chain.front@,
        encode_utf8(json_text(latest_block())),
    );
}

/// Whether a server answered with JSON: with a status below 500.
pub open spec fn says(upstream: UpstreamModel, answer: JsonModel) -> bool {
    upstream matches UpstreamModel::Answered { status, body } && status < 500 && json_of_bytes(body)
        == Ok::<JsonModel, Seq<char>>(answer)
}

/// Whether a server failed with an error: it gave no answer, an answer with a status from 500 on,
/// or an answer that is no JSON.
pub open spec fn is_down(url: Seq<char>, upstream: UpstreamModel, error: Seq<char>) -> bool {
    match upstream {
        UpstreamModel::Failed(e) => error == e,
        UpstreamModel::Answered { status, body } => {
            ||| status >= 500 && error == "upstream "@ + url + " answered HTTP "@ + decimal(
                status as nat,
            )
            ||| status < 500 && json_of_bytes(body) == Err::<JsonModel, Seq<char>>(error)
        },
    }
}

/// Whether an answer to the question for the latest block is a number in hexadecimal digits,
/// behind `0x` or not.
pub open spec fn is_block(answer: JsonModel, number: u64) -> bool {
    under(answer, "result"@) is Text && u64_numeral(
        without_leading(under(answer, "result"@)->Text_0, "0x"@),
        16,
    ) == Some(number)
}

/// Whether an answer to the question for the latest block is no number, and what is said of it.
pub open spec fn is_no_block(url: Seq<char>, answer: JsonModel, error: Seq<char>) -> bool {
    let result = under(answer, "result"@);
    if result is Text {
        let digits = without_leading(result->Text_0, "0x"@);
        u64_numeral(digits, 16) is None && error == hex_numeral_error(digits)
    } else {
        error == "no result from "@ + url + ": "@ + json_text(answer)
    }
}

/// What follows on the answer of the front is what follows on the number that it says; where it
/// failed, or said no number, the transaction is answered with an error.
pub proof fn answers_of_the_front_are_read(
    poll: Poll,
    upstream: UpstreamModel,
    step: RpcStep,
    answer: JsonModel,
    front: u64,
    error: Seq<char>,
)
    requires
        Awaiting::Asked(Question::Front(poll)).goes_on(upstream, step),
    ensures
        says(upstream, answer) && is_block(answer, front) ==> poll.goes_on(Ok(front), step),
        is_down(poll.pending.chain.front@, upstream, error) || (says(upstream, answer)
            && is_no_block(poll.pending.chain.front@, answer, error)) ==> fails(
            step,
            json_model(poll.pending.id),
            "-32603"@,
            "front not in sync with execution RPC: "@ + error,
        ),
{
    lemma_codes();
    lemma_failure(
        json_model(poll.pending.id),
        -32603,
        "front not in sync with execution RPC: "@ + error,
    );
    assert(answer.member("result"@) == under(answer, "result"@));
}

/// Whether an answer reverts with the error that a cross-chain call gives outside its block: its
/// selector begins the data of the error, or the data in that.
pub open spec fn is_cross_chain(answer: JsonModel) -> bool {
    let data = under(under(answer, "error"@), "data"@);
    is_selector(data) || is_selector(under(data, "data"@))
}

/// Whether a value is a text that begins with the selector, in letters of either case.
pub open spec fn is_selector(value: JsonModel) -> bool {
    value is Text && "0xed6bc750"@.is_prefix_of(ascii_lower(value->Text_0))
}

proof fn lemma_cross_chain(answer: JsonModel)
    ensures
        reverts_not_found(answer) == is_cross_chain(answer),
{
    let error = answer.member("error"@);
    let data = error.member("data"@);
    assert(error == under(answer, "error"@));
    assert(data == under(error, "data"@));
    assert(data.member("data"@) == under(data, "data"@));
}

/// A transaction whose trial reverts as a cross-chain call does goes the way to the front: the
/// execution RPC is asked for its latest block. Any other goes to the execution RPC, as it came.
/// Where the execution RPC failed, the transaction is answered with an error.
pub proof fn trials_decide_where_a_transaction_goes(
    pending: Pending,
    upstream: UpstreamModel,
    answer: JsonModel,
    error: Seq<char>,
    step: RpcStep,
)
    requires
        Awaiting::Asked(Question::Simulation(pending)).goes_on(upstream, step),
    ensures
        says(upstream, answer) && is_cross_chain(answer) ==> puts(
            step,
            pending.chain.execution_rpc@,
            latest_block(),
            Question::Target(pending),
        ),
        says(upstream, answer) && !is_cross_chain(answer) ==> hands_on(
            step,
            pending.chain.execution_rpc@,
            pending.body@,
        ),
        is_down(pending.chain.execution_rpc@, upstream, error) ==> fails(
            step,
            json_model(pending.id),
            "-32603"@,
            "execution RPC unreachable: "@ + error,
        ),
{
    lemma_cross_chain(answer);
    lemma_block_question();
    lemma_codes();
    lemma_failure(json_model(pending.id), -32603, "execution RPC unreachable: "@ + error);
    lemma_step(step, pending.chain.execution_rpc@, pending.body@);
    lemma_step(step, pending.chain.execution_rpc@, encode_utf8(json_text(latest_block())));
}

/// The latest block of the execution RPC is the one that the front has to reach: the front is asked
/// for its own, with no second counted yet.
pub proof fn targets_are_awaited_at_the_front(
    pending: Pending,
    upstream: UpstreamModel,
    answer: JsonModel,
    target: u64,
    error: Seq<char>,
    step: RpcStep,
)
    requires
        Awaiting::Asked(Question::Target(pending)).goes_on(upstream, step),
    ensures
        says(upstream, answer) && is_block(answer, target) ==> (step matches RpcStep::Send {
            request,
            next,
        } && {
            &&& posts(request, pending.chain.front@, encode_utf8(json_text(latest_block())))
            &&& next matches Awaiting::Asked(Question::Front(poll))
            &&& poll.pending == pending
            &&& poll.target == target
            &&& poll.waited == 0
        }),
        is_down(pending.chain.execution_rpc@, upstream, error) || (says(upstream, answer)
            && is_no_block(pending.chain.execution_rpc@, answer, error)) ==> fails(
            step,
            json_model(pending.id),
            "-32603"@,
            "front not in sync with execution RPC: "@ + error,
        ),
{
    assert(answer.member("result"@) == under(answer, "result"@));
    lemma_block_question();
    lemma_codes();
    lemma_failure(
        json_model(pending.id),
        -32603,
        "front not in sync with execution RPC: "@ + error,
    );
    lemma_step(step, pending.chain.front@, encode_utf8(json_text(latest_block())));
}

/// The gas of a cross-chain call is answered with the fixed limit, under the id of the request;
/// the gas of any other call as the execution RPC answered it.
pub proof fn gas_is_answered(
    url: String,
    id: serde_json::Value,
    upstream: UpstreamModel,
    answer: JsonModel,
    error: Seq<char>,
    step: RpcStep,
)
    requires
        Awaiting::Asked(Question::Gas { url, id }).goes_on(upstream, step),
    ensures
        says(upstream, answer) && is_cross_chain(answer) ==> answers_value(
            step,
            200,
            JsonModel::Object(
                map![
                    "jsonrpc"@ => JsonModel::Text("2.0"@),
                    "id"@ => json_model(id),
                    "result"@ => JsonModel::Text("0xaae60"@)
                ],
            ),
        ),
        says(upstream, answer) && !is_cross_chain(answer) ==> answers_value(step, 200, answer),
        is_down(url@, upstream, error) ==> fails(
            step,
            json_model(id),
            "-32603"@,
            "execution RPC unreachable: "@ + error,
        ),
{
    lemma_cross_chain(answer);
    lemma_codes();
    lemma_names();
    lemma_failure(json_model(id), -32603, "execution RPC unreachable: "@ + error);
    let m = map![
        "jsonrpc"@ => JsonModel::Text("2.0"@),
        "id"@ => json_model(id),
        "result"@ => JsonModel::Text("0xaae60"@)
    ];
    assert(m =~= Map::empty().insert("jsonrpc"@, JsonModel::Text("2.0"@)).insert(
        "id"@,
        json_model(id),
    ).insert("result"@, JsonModel::Text("0xaae60"@)));
    lemma_answer(200, encode_utf8(json_text(JsonModel::Object(m))));
    lemma_answer(200, encode_utf8(json_text(answer)));
}

/// What was handed on is answered with what the server answers: its status and its body, as they
/// are. An answer with a status from 500 on, or none, is an error.
pub proof fn answers_come_back_as_they_are(
    forwarding: Forwarding,
    status: u16,
    body: Seq<u8>,
    error: Seq<char>,
    step: RpcStep,
    failed: RpcStep,
)
    requires
        Awaiting::Forwarded(forwarding).goes_on(UpstreamModel::Answered { status, body }, step),
        Awaiting::Forwarded(forwarding).goes_on(UpstreamModel::Failed(error), failed),
    ensures
        status < 500 ==> (step matches RpcStep::Respond(r) && is_answer(r@, status, body)),
        status >= 500 ==> fails(
            step,
            JsonModel::Null,
            "-32603"@,
            "upstream unreachable: "@ + ("upstream "@ + forwarding.url@ + " answered HTTP "@
                + decimal(status as nat)),
        ),
        fails(failed, JsonModel::Null, "-32603"@, "upstream unreachable: "@ + error),
{
    lemma_codes();
    lemma_answer(status, body);
    lemma_failure(JsonModel::Null, -32603, "upstream unreachable: "@ + error);
    lemma_failure(
        JsonModel::Null,
        -32603,
        "upstream unreachable: "@ + ("upstream "@ + forwarding.url@ + " answered HTTP "@ + decimal(
            status as nat,
        )),
    );
}

/// Whether a JSON-RPC request names a method.
pub open spec fn calls(request: JsonModel, method: Seq<char>) -> bool {
    request is Object && under(request, "method"@) == JsonModel::Text(method)
}

/// The text of the first parameter of a JSON-RPC request; empty where there is none.
pub open spec fn first_parameter(request: JsonModel) -> Seq<char> {
    let params = under(request, "params"@);
    if params is Array && params->Array_0.len() > 0 && params->Array_0[0] is Text {
        params->Array_0[0]->Text_0
    } else {
        Seq::empty()
    }
}

/// A request to a chain goes to its execution RPC as it came, unless it is one of three: a question
/// for gas goes there too, and is answered with a look at what comes back; a raw transaction that
/// is signed is tried there first; and what the fronts do not have is refused. What is no JSON is
/// refused as well.
pub proof fn requests_go_where_they_belong(
    chain: ChainModel,
    request: JsonModel,
    error: Seq<char>,
    body: Seq<u8>,
    step: RpcStep,
    refused: RpcStep,
)
    requires
        routes(chain, Ok(request), body, step),
        routes(chain, Err(error), body, refused),
    ensures
        !calls(request, "eth_fillTransaction"@) && !calls(request, "eth_estimateGas"@) && !calls(
            request,
            "eth_sendRawTransaction"@,
        ) ==> hands_on(step, chain.execution_rpc, body),
        calls(request, "eth_fillTransaction"@) ==> fails(
            step,
            under(request, "id"@),
            "-32601"@,
            "Method not found"@,
        ),
        calls(request, "eth_estimateGas"@) ==> (step matches RpcStep::Send {
            request: sent,
            next,
        } && {
            &&& posts(sent, chain.execution_rpc, body)
            &&& next matches Awaiting::Asked(Question::Gas { url, id })
            &&& url@ == chain.execution_rpc
            &&& json_model(id) == under(request, "id"@)
        }),
        calls(request, "eth_sendRawTransaction"@) && call_of(first_parameter(request)) is None
            ==> hands_on(step, chain.execution_rpc, body),
        calls(request, "eth_sendRawTransaction"@) && call_of(first_parameter(request)) is Some ==> (
        step matches RpcStep::Send { request: sent, next } && {
            &&& posts(
                sent,
                chain.execution_rpc,
                encode_utf8(json_text(trial(call_of(first_parameter(request))->0))),
            )
            &&& next matches Awaiting::Asked(Question::Simulation(pending))
            &&& pending.chain.chain_id == chain.chain_id
            &&& pending.chain.execution_rpc@ == chain.execution_rpc
            &&& pending.chain.front@ == chain.front
            &&& json_model(pending.id) == under(request, "id"@)
            &&& pending.body@ == body
        }),
        fails(refused, JsonModel::Null, "-32600"@, "invalid JSON-RPC request: "@ + error),
{
    lemma_codes();
    lemma_names();
    lemma_methods();
    let id = under(request, "id"@);
    assert(id == request.member("id"@));
    assert(request.member("method"@) == under(request, "method"@));
    assert(request.member("params"@) == under(request, "params"@));
    assert(crate::eez::raw_transaction(request) =~= first_parameter(request));
    lemma_failure(id, -32601, "Method not found"@);
    lemma_failure(JsonModel::Null, -32600, "invalid JSON-RPC request: "@ + error);
    lemma_step(step, chain.execution_rpc, body);
    let call = call_of(first_parameter(request));
    if call is Some {
        let value = trial(call->0);
        assert(crate::eez::simulation_call(call->0)->Object_0 =~= value->Object_0) by {
            assert(Seq::empty().push(call->0).push(JsonModel::Text("latest"@)) =~= seq![
                call->0,
                JsonModel::Text("latest"@),
            ]);
        }
        lemma_step(step, chain.execution_rpc, encode_utf8(json_text(value)));
    }
}

proof fn lemma_methods()
    ensures
        "eth_fillTransaction"@ != "eth_estimateGas"@,
        "eth_fillTransaction"@ != "eth_sendRawTransaction"@,
        "eth_estimateGas"@ != "eth_sendRawTransaction"@,
        "eth_fillTransaction"@.len() > 0,
        "eth_estimateGas"@.len() > 0,
        "eth_sendRawTransaction"@.len() > 0,
{
    reveal_strlit("eth_fillTransaction");
    reveal_strlit("eth_estimateGas");
    reveal_strlit("eth_sendRawTransaction");
    assert("eth_fillTransaction"@.len() == 19);
    assert("eth_estimateGas"@.len() == 15);
    assert("eth_sendRawTransaction"@.len() == 22);
}

/// Whether a path names a chain by its key, with slashes behind it or without. A path that is
/// not behind that of the endpoint names the empty key.
pub open spec fn names_chain(path: Seq<char>, key: Seq<char>, slashes: Seq<char>) -> bool {
    ||| {
        &&& path == "/experimental-eez-rpc/"@ + (key + slashes)
        &&& key.len() > 0 ==> key.last() != '/'
        &&& forall|i: int| 0 <= i < slashes.len() ==> #[trigger] slashes[i] == '/'
    }
    ||| !"/experimental-eez-rpc/"@.is_prefix_of(path) && key.len() == 0
}

proof fn lemma_key(path: Seq<char>, key: Seq<char>, slashes: Seq<char>)
    requires
        names_chain(path, key, slashes),
    ensures
        crate::eez::key_in(path) == key,
{
    let front = "/experimental-eez-rpc/"@;
    if !front.is_prefix_of(path) && key.len() == 0 {
        assert(key =~= Seq::empty());
    } else {
        assert(front =~= path.subrange(0, front.len() as int));
        assert(path.skip(front.len() as int) =~= key + slashes);
        lemma_slashes(key, slashes);
    }
}

proof fn lemma_slashes(key: Seq<char>, slashes: Seq<char>)
    requires
        key.len() > 0 ==> key.last() != '/',
        forall|i: int| 0 <= i < slashes.len() ==> #[trigger] slashes[i] == '/',
    ensures
        crate::text::without_trailing(key + slashes, '/') == key,
    decreases slashes.len(),
{
    let s = key + slashes;
    if slashes.len() > 0 {
        assert(s.last() == slashes[slashes.len() - 1]);
        assert(s.drop_last() =~= key + slashes.drop_last());
        lemma_slashes(key, slashes.drop_last());
    } else {
        assert(s =~= key);
    }
}

/// A request is for the chain that its path names, by its key: a POST request is routed there with
/// its body as it came, any other request is answered 405. A key that is not configured is
/// answered 404, with the keys that are. A preflight request is answered 204, whatever it names.
pub proof fn requests_are_for_the_chain_in_their_path(
    method: Method,
    path: Seq<char>,
    key: Seq<char>,
    slashes: Seq<char>,
    config: Seq<char>,
    body: Seq<u8>,
    step: RpcStep,
)
    requires
        names_chain(path, key, slashes),
        begins(method, path, config, body, step),
    ensures
        ({
            let found = chain_under(configured_chains(config), key);
            &&& method is Options ==> (step matches RpcStep::Respond(r) && r@.status == 204
                && r@.body.len() == 0 && r@.headers == seq![
                ("access-control-allow-origin"@, "*"@),
                ("access-control-allow-methods"@, "GET, POST, OPTIONS"@),
                ("access-control-allow-headers"@, "*"@),
                ("access-control-max-age"@, "3600"@),
            ])
            &&& !(method is Options) && found is None ==> answers_value(
                step,
                404,
                JsonModel::Object(
                    map![
                        "error"@ => JsonModel::Text(
                            "unknown EEZ chain '"@ + key + "'; known: "@ + joined(
                                chain_keys(configured_chains(config)),
                                ", "@,
                            ),
                        )
                    ],
                ),
            )
            &&& method is Post && found is Some ==> routes(
                found->0,
                json_of_bytes(body),
                body,
                step,
            )
            &&& !(method is Options) && !(method is Post) && found is Some ==> answers_value(
                step,
                405,
                JsonModel::Object(
                    map![
                        "error"@ => JsonModel::Text(
                            "method not allowed; POST a JSON-RPC 2.0 request"@,
                        )
                    ],
                ),
            )
        }),
{
    lemma_key(path, key, slashes);
    let unknown = JsonModel::Text(
        "unknown EEZ chain '"@ + key + "'; known: "@ + joined(
            chain_keys(configured_chains(config)),
            ", "@,
        ),
    );
    let wrong = JsonModel::Text("method not allowed; POST a JSON-RPC 2.0 request"@);
    assert(map!["error"@ => unknown] =~= Map::empty().insert("error"@, unknown));
    assert(map!["error"@ => wrong] =~= Map::empty().insert("error"@, wrong));
    lemma_answer(404, encode_utf8(json_text(JsonModel::Object(map!["error"@ => unknown]))));
    lemma_answer(405, encode_utf8(json_text(JsonModel::Object(map!["error"@ => wrong]))));
    if method is Options {
        assert(step->Respond_0@.headers =~= seq![
            ("access-control-allow-origin"@, "*"@),
            ("access-control-allow-methods"@, "GET, POST, OPTIONS"@),
            ("access-control-allow-headers"@, "*"@),
            ("access-control-max-age"@, "3600"@),
        ]);
    }
}

/// A transaction is tried as the call that it makes: from its signer to where it is sent, with its
/// data and its value in hexadecimal digits. One without a good signature is not tried.
pub proof fn transactions_are_tried_as_calls(tx: TransactionModel)
    ensures
        tx.signer is None ==> call_of_transaction(tx) is None,
        tx.signer is Some ==> call_of_transaction(tx) == Some(
            JsonModel::Object(
                map![
                    "from"@ => JsonModel::Text(tx.signer->0),
                    "to"@ => if tx.to is Some {
                        JsonModel::Text(tx.to->0)
                    } else {
                        JsonModel::Null
                    },
                    "data"@ => JsonModel::Text(hex_text(tx.input)),
                    "value"@ => JsonModel::Text("0x"@ + tx.value)
                ],
            ),
        ),
{
    lemma_names();
    if tx.signer is Some {
        let m = map![
            "from"@ => JsonModel::Text(tx.signer->0),
            "to"@ => if tx.to is Some {
                JsonModel::Text(tx.to->0)
            } else {
                JsonModel::Null
            },
            "data"@ => JsonModel::Text(hex_text(tx.input)),
            "value"@ => JsonModel::Text("0x"@ + tx.value)
        ];
        assert(call_of_transaction(tx)->0->Object_0 =~= m);
    }
}

/// A raw transaction is that of the bytes that its digits stand for, behind `0x` or not; a text
/// that does not stand for bytes, or whose bytes are no signed transaction, is none.
pub proof fn raw_transactions_are_read(digits: Seq<char>, bytes: Seq<u8>)
    requires
        !"0x"@.is_prefix_of(digits),
    ensures
        hex_bytes(digits) == Some(bytes) ==> {
            &&& call_of(digits) == if signed_transaction(bytes) is Some {
                call_of_transaction(signed_transaction(bytes)->0)
            } else {
                None
            }
            &&& call_of("0x"@ + digits) == call_of(digits)
        },
        hex_bytes(digits) is None ==> call_of(digits) is None && call_of("0x"@ + digits) is None,
{
    reveal_strlit("0x");
    leading_prefixes_are_taken_off("0x"@, digits);
    assert(without_leading(digits, "0x"@) == digits);
}

} // verus!
