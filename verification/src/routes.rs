//! Which paths and methods have handlers of their own. Whatever has none goes to
//! the catch-all forwarder.

use vstd::prelude::*;

verus! {

/// A method that routes are mounted for.
#[derive(Debug, Clone, Copy, PartialEq, Eq, Structural)]
pub enum Verb {
    /// `GET`.
    Get,
    /// `POST`.
    Post,
    /// `DELETE`.
    Delete,
}

/// A handler.
#[derive(Debug, Clone, Copy, PartialEq, Eq, Structural)]
pub enum Handler {
    /// The health of the proxy.
    Healthz,
    /// The health of the upstream.
    HealthzUpstream,
    /// The metrics.
    Metrics,
    /// OpenAI's Chat Completions API.
    ChatCompletions,
    /// OpenAI's Responses API.
    Responses,
    /// Vertex AI's Anthropic models.
    VertexPredict,
    /// Bedrock models, answered at once.
    BedrockInvoke,
    /// Bedrock models, answered in a stream.
    BedrockInvokeStreaming,
    /// OpenAI's Conversations API: a new conversation.
    ConversationsCreate,
    /// A conversation.
    ConversationsGet,
    /// A change to a conversation.
    ConversationsUpdate,
    /// The end of a conversation.
    ConversationsDelete,
    /// New items of a conversation.
    ConversationsItemsCreate,
    /// The items of a conversation.
    ConversationsItemsList,
    /// One item of a conversation.
    ConversationsItemGet,
    /// The end of an item of a conversation.
    ConversationsItemDelete,
}

/// One route.
#[derive(Debug, Clone, Copy)]
pub struct Route {
    /// The pattern of its path; a segment after a colon is a parameter.
    pub path: &'static str,
    /// Its method.
    pub verb: Verb,
    /// Who answers it.
    pub handler: Handler,
    /// Whether it is one of the Bedrock routes, where the client's auth mode is
    /// classified and the body limit is raised before the handler runs.
    pub bedrock: bool,
}

/// A route in the table, with the text of its path.
pub struct Mount {
    /// The pattern of its path.
    pub path: Seq<char>,
    /// Its method.
    pub verb: Verb,
    /// Who answers it.
    pub handler: Handler,
    /// Whether it is one of the Bedrock routes.
    pub bedrock: bool,
}

impl View for Route {
    type V = Mount;

    open spec fn view(&self) -> Mount {
        Mount { path: self.path@, verb: self.verb, handler: self.handler, bedrock: self.bedrock }
    }
}

/// The route for `verb` on `path`.
pub open spec fn mount(path: Seq<char>, verb: Verb, handler: Handler, bedrock: bool) -> Mount {
    Mount { path, verb, handler, bedrock }
}

/// The routes that are always there.
pub open spec fn base_routes() -> Seq<Mount> {
    seq![
        mount("/healthz"@, Verb::Get, Handler::Healthz, false),
        mount("/healthz/upstream"@, Verb::Get, Handler::HealthzUpstream, false),
        mount("/metrics"@, Verb::Get, Handler::Metrics, false),
        mount("/v1/chat/completions"@, Verb::Post, Handler::ChatCompletions, false),
        mount("/v1/responses"@, Verb::Post, Handler::Responses, false),
        mount(
            "/v1beta1/projects/:project/locations/:location/publishers/anthropic/models/:model_action"@,
            Verb::Post,
            Handler::VertexPredict,
            false,
        ),
    ]
}

/// The routes of Bedrock models.
pub open spec fn bedrock_routes() -> Seq<Mount> {
    seq![
        mount("/model/:model_id/invoke"@, Verb::Post, Handler::BedrockInvoke, true),
        mount("/model/:model_id/converse"@, Verb::Post, Handler::BedrockInvoke, true),
        mount(
            "/model/:model_id/invoke-with-response-stream"@,
            Verb::Post,
            Handler::BedrockInvokeStreaming,
            true,
        ),
        mount(
            "/model/:model_id/converse-stream"@,
            Verb::Post,
            Handler::BedrockInvokeStreaming,
            true,
        ),
    ]
}

/// The routes of OpenAI's Conversations API.
pub open spec fn conversation_routes() -> Seq<Mount> {
    seq![
        mount("/v1/conversations"@, Verb::Post, Handler::ConversationsCreate, false),
        mount(
            "/v1/conversations/:conversation_id"@,
            Verb::Get,
            Handler::ConversationsGet,
            false,
        ),
        mount(
            "/v1/conversations/:conversation_id"@,
            Verb::Post,
            Handler::ConversationsUpdate,
            false,
        ),
        mount(
            "/v1/conversations/:conversation_id"@,
            Verb::Delete,
            Handler::ConversationsDelete,
            false,
        ),
        mount(
            "/v1/conversations/:conversation_id/items"@,
            Verb::Post,
            Handler::ConversationsItemsCreate,
            false,
        ),
        mount(
            "/v1/conversations/:conversation_id/items"@,
            Verb::Get,
            Handler::ConversationsItemsList,
            false,
        ),
        mount(
            "/v1/conversations/:conversation_id/items/:item_id"@,
            Verb::Get,
            Handler::ConversationsItemGet,
            false,
        ),
        mount(
            "/v1/conversations/:conversation_id/items/:item_id"@,
            Verb::Delete,
            Handler::ConversationsItemDelete,
            false,
        ),
    ]
}

/// All routes: those that are always there, then those that are switched on.
pub open spec fn route_table(
    enable_bedrock_native: bool,
    enable_conversations_passthrough: bool,
) -> Seq<Mount> {
    base_routes() + (if enable_bedrock_native {
        bedrock_routes()
    } else {
        Seq::empty()
    }) + (if enable_conversations_passthrough {
        conversation_routes()
    } else {
        Seq::empty()
    })
}

/// What the routes stand for.
pub open spec fn mounts(routes: Seq<Route>) -> Seq<Mount> {
    routes.map_values(|route: Route| route@)
}

fn route(path: &'static str, verb: Verb, handler: Handler, bedrock: bool) -> (r: Route)
    ensures
        r@ == mount(path@, verb, handler, bedrock),
{
    Route { path, verb, handler, bedrock }
}

/// The routes to mount.
pub fn app_routes(enable_bedrock_native: bool, enable_conversations_passthrough: bool) -> (r: Vec<
    Route,
>)
    ensures
        mounts(r@) == route_table(enable_bedrock_native, enable_conversations_passthrough),
{
    let mut routes: Vec<Route> = Vec::new();
    routes.push(route("/healthz", Verb::Get, Handler::Healthz, false));
    routes.push(route("/healthz/upstream", Verb::Get, Handler::HealthzUpstream, false));
    routes.push(route("/metrics", Verb::Get, Handler::Metrics, false));
    routes.push(route("/v1/chat/completions", Verb::Post, Handler::ChatCompletions, false));
    routes.push(route("/v1/responses", Verb::Post, Handler::Responses, false));
    routes.push(
        route(
            "/v1beta1/projects/:project/locations/:location/publishers/anthropic/models/:model_action",
            Verb::Post,
            Handler::VertexPredict,
            false,
        ),
    );
    assert(mounts(routes@) =~= base_routes());
    if enable_bedrock_native {
        routes.push(route("/model/:model_id/invoke", Verb::Post, Handler::BedrockInvoke, true));
        routes.push(route("/model/:model_id/converse", Verb::Post, Handler::BedrockInvoke, true));
        routes.push(
            route(
                "/model/:model_id/invoke-with-response-stream",
                Verb::Post,
                Handler::BedrockInvokeStreaming,
                true,
            ),
        );
        routes.push(
            route(
                "/model/:model_id/converse-stream",
                Verb::Post,
                Handler::BedrockInvokeStreaming,
                true,
            ),
        );
    }
    assert(mounts(routes@) =~= route_table(enable_bedrock_native, false));
    if enable_conversations_passthrough {
        routes.push(route("/v1/conversations", Verb::Post, Handler::ConversationsCreate, false));
        routes.push(
            route(
                "/v1/conversations/:conversation_id",
                Verb::Get,
                Handler::ConversationsGet,
                false,
            ),
        );
        routes.push(
            route(
                "/v1/conversations/:conversation_id",
                Verb::Post,
                Handler::ConversationsUpdate,
                false,
            ),
        );
        routes.push(
            route(
                "/v1/conversations/:conversation_id",
                Verb::Delete,
                Handler::ConversationsDelete,
                false,
            ),
        );
        routes.push(
            route(
                "/v1/conversations/:conversation_id/items",
                Verb::Post,
                Handler::ConversationsItemsCreate,
                false,
            ),
        );
        routes.push(
            route(
                "/v1/conversations/:conversation_id/items",
                Verb::Get,
                Handler::ConversationsItemsList,
                false,
            ),
        );
        routes.push(
            route(
                "/v1/conversations/:conversation_id/items/:item_id",
                Verb::Get,
                Handler::ConversationsItemGet,
                false,
            ),
        );
        routes.push(
            route(
                "/v1/conversations/:conversation_id/items/:item_id",
                Verb::Delete,
                Handler::ConversationsItemDelete,
                false,
            ),
        );
    }
    assert(mounts(routes@) =~= route_table(enable_bedrock_native, enable_conversations_passthrough));
    routes
}

/// No path and method has two handlers, whatever is switched on.
pub proof fn law_routes_are_distinct(
    enable_bedrock_native: bool,
    enable_conversations_passthrough: bool,
    i: int,
    j: int,
)
    requires
        0 <= i < j < route_table(enable_bedrock_native, enable_conversations_passthrough).len(),
    ensures
        ({
            let table = route_table(enable_bedrock_native, enable_conversations_passthrough);
            !(table[i].path == table[j].path && table[i].verb == table[j].verb)
        }),
{
    reveal_strlit("/healthz");
    reveal_strlit("/healthz/upstream");
    reveal_strlit("/metrics");
    reveal_strlit("/v1/chat/completions");
    reveal_strlit("/v1/responses");
    reveal_strlit(
        "/v1beta1/projects/:project/locations/:location/publishers/anthropic/models/:model_action",
    );
    reveal_strlit("/model/:model_id/invoke");
    reveal_strlit("/model/:model_id/converse");
    reveal_strlit("/model/:model_id/invoke-with-response-stream");
    reveal_strlit("/model/:model_id/converse-stream");
    reveal_strlit("/v1/conversations");
    reveal_strlit("/v1/conversations/:conversation_id");
    reveal_strlit("/v1/conversations/:conversation_id/items");
    reveal_strlit("/v1/conversations/:conversation_id/items/:item_id");
    assert("/healthz"@[1] != "/metrics"@[1]);
    let base = base_routes();
    let bedrock = bedrock_routes();
    let conversations = conversation_routes();
    assert(base[0].path.len() == 8 && base[1].path.len() == 17 && base[2].path.len() == 8
        && base[3].path.len() == 20 && base[4].path.len() == 13 && base[5].path.len() == 88);
    assert(bedrock[0].path.len() == 23 && bedrock[1].path.len() == 25 && bedrock[2].path.len() == 44
        && bedrock[3].path.len() == 32);
    assert(conversations[0].path.len() == 17);
    assert(forall|k: int| 1 <= k < 4 ==> (#[trigger] conversations[k]).path.len() == 34);
    assert(forall|k: int| 4 <= k < 6 ==> (#[trigger] conversations[k]).path.len() == 40);
    assert(forall|k: int| 6 <= k < 8 ==> (#[trigger] conversations[k]).path.len() == 49);
}

/// Health, metrics and the provider routes are there whatever is switched off.
pub proof fn law_base_routes_are_always_there(
    enable_bedrock_native: bool,
    enable_conversations_passthrough: bool,
)
    ensures
        base_routes().is_prefix_of(
            route_table(enable_bedrock_native, enable_conversations_passthrough),
        ),
{
}

/// The Bedrock routes are there exactly where they are switched on, and they
/// are exactly the routes on which the auth mode is classified.
pub proof fn law_bedrock_routes_follow_their_switch(
    enable_bedrock_native: bool,
    enable_conversations_passthrough: bool,
    i: int,
)
    requires
        0 <= i < route_table(enable_bedrock_native, enable_conversations_passthrough).len(),
    ensures
        ({
            let entry = route_table(enable_bedrock_native, enable_conversations_passthrough)[i];
            &&& entry.bedrock <==> bedrock_routes().contains(entry)
            &&& entry.bedrock <==> entry.handler == Handler::BedrockInvoke || entry.handler
                == Handler::BedrockInvokeStreaming
            &&& entry.bedrock ==> enable_bedrock_native
        }),
{
    let b = bedrock_routes();
    assert(b[0].bedrock && b[1].bedrock && b[2].bedrock && b[3].bedrock);
    assert(forall|k: int| 0 <= k < b.len() ==> b[k].bedrock);
    let table = route_table(enable_bedrock_native, enable_conversations_passthrough);
    if table[i].bedrock {
        assert(b[i - base_routes().len()] == table[i]);
    }
}

proof fn lemma_paths_differ()
    ensures
        "/healthz"@.len() == 8,
        "/healthz/upstream"@.len() == 17,
        "/metrics"@.len() == 8,
        "/v1/chat/completions"@.len() == 20,
        "/v1/responses"@.len() == 13,
        "/v1beta1/projects/:project/locations/:location/publishers/anthropic/models/:model_action"@.len()
            == 88,
        "/model/:model_id/invoke"@.len() == 23,
        "/model/:model_id/converse"@.len() == 25,
        "/model/:model_id/invoke-with-response-stream"@.len() == 44,
        "/model/:model_id/converse-stream"@.len() == 32,
        "/v1/conversations"@.len() == 17,
        "/v1/conversations/:conversation_id"@.len() == 34,
        "/v1/conversations/:conversation_id/items"@.len() == 40,
        "/v1/conversations/:conversation_id/items/:item_id"@.len() == 49,
        "/healthz"@ != "/metrics"@,
        "/healthz/upstream"@ != "/v1/conversations"@,
{
    reveal_strlit("/healthz");
    reveal_strlit("/healthz/upstream");
    reveal_strlit("/metrics");
    reveal_strlit("/v1/chat/completions");
    reveal_strlit("/v1/responses");
    reveal_strlit(
        "/v1beta1/projects/:project/locations/:location/publishers/anthropic/models/:model_action",
    );
    reveal_strlit("/model/:model_id/invoke");
    reveal_strlit("/model/:model_id/converse");
    reveal_strlit("/model/:model_id/invoke-with-response-stream");
    reveal_strlit("/model/:model_id/converse-stream");
    reveal_strlit("/v1/conversations");
    reveal_strlit("/v1/conversations/:conversation_id");
    reveal_strlit("/v1/conversations/:conversation_id/items");
    reveal_strlit("/v1/conversations/:conversation_id/items/:item_id");
    assert("/healthz"@[1] != "/metrics"@[1]);
    assert("/healthz/upstream"@[1] != "/v1/conversations"@[1]);
}

proof fn lemma_stream_endings()
    ensures
        "-stream"@.is_suffix_of("/model/:model_id/invoke-with-response-stream"@),
        "-stream"@.is_suffix_of("/model/:model_id/converse-stream"@),
        !"-stream"@.is_suffix_of("/model/:model_id/invoke"@),
        !"-stream"@.is_suffix_of("/model/:model_id/converse"@),
{
    reveal_strlit("-stream");
    reveal_strlit("/model/:model_id/invoke");
    reveal_strlit("/model/:model_id/converse");
    reveal_strlit("/model/:model_id/invoke-with-response-stream");
    reveal_strlit("/model/:model_id/converse-stream");
    assert("-stream"@ =~= "/model/:model_id/invoke-with-response-stream"@.subrange(37, 44));
    assert("-stream"@ =~= "/model/:model_id/converse-stream"@.subrange(25, 32));
    assert("/model/:model_id/invoke"@.subrange(16, 23)[6] != "-stream"@[6]);
    assert("/model/:model_id/converse"@.subrange(18, 25)[6] != "-stream"@[6]);
}

/// A Bedrock route answers in a stream exactly where its path ends in `-stream`,
/// whatever is switched on.
pub proof fn law_streams_are_told_by_their_path(
    enable_bedrock_native: bool,
    enable_conversations_passthrough: bool,
    i: int,
)
    requires
        0 <= i < route_table(enable_bedrock_native, enable_conversations_passthrough).len(),
    ensures
        ({
            let entry = route_table(enable_bedrock_native, enable_conversations_passthrough)[i];
            entry.bedrock ==> {
                &&& entry.verb == Verb::Post
                &&& entry.handler == Handler::BedrockInvokeStreaming <==> "-stream"@.is_suffix_of(
                    entry.path,
                )
                &&& entry.handler == Handler::BedrockInvoke <==> !"-stream"@.is_suffix_of(
                    entry.path,
                )
            }
        }),
{
    lemma_stream_endings();
    let base = base_routes();
    let conversations = conversation_routes();
    assert(forall|k: int| 0 <= k < base.len() ==> !(#[trigger] base[k]).bedrock);
    assert(forall|k: int| 0 <= k < conversations.len() ==> !(#[trigger] conversations[k]).bedrock);
    let table = route_table(enable_bedrock_native, enable_conversations_passthrough);
    let n: int = base.len() as int;
    if enable_bedrock_native && n <= i < n + bedrock_routes().len() {
        assert(table[i] == bedrock_routes()[i - n]);
    }
}

/// Where Bedrock is switched on, a model can be invoked and conversed with, at
/// once and in a stream.
pub proof fn law_models_are_served(
    enable_conversations_passthrough: bool,
    action: Seq<char>,
)
    requires
        action == "invoke"@ || action == "converse"@ || action == "invoke-with-response-stream"@
            || action == "converse-stream"@,
    ensures
        exists|i: int|
            0 <= i < route_table(true, enable_conversations_passthrough).len() && {
                let entry = #[trigger] route_table(true, enable_conversations_passthrough)[i];
                entry.path == "/model/:model_id/"@ + action && entry.bedrock
            },
{
    reveal_strlit("/model/:model_id/");
    reveal_strlit("invoke");
    reveal_strlit("converse");
    reveal_strlit("invoke-with-response-stream");
    reveal_strlit("converse-stream");
    reveal_strlit("/model/:model_id/invoke");
    reveal_strlit("/model/:model_id/converse");
    reveal_strlit("/model/:model_id/invoke-with-response-stream");
    reveal_strlit("/model/:model_id/converse-stream");
    let table = route_table(true, enable_conversations_passthrough);
    assert(table[6] == bedrock_routes()[0] && table[7] == bedrock_routes()[1] && table[8]
        == bedrock_routes()[2] && table[9] == bedrock_routes()[3]);
    let start = "/model/:model_id/"@;
    assert(table[6].path =~= start + "invoke"@);
    assert(table[7].path =~= start + "converse"@);
    assert(table[8].path =~= start + "invoke-with-response-stream"@);
    assert(table[9].path =~= start + "converse-stream"@);
}

/// What is switched on never changes who answers a path and a method.
pub proof fn law_switches_only_add_routes(a: (bool, bool), b: (bool, bool), i: int, j: int)
    requires
        0 <= i < route_table(a.0, a.1).len(),
        0 <= j < route_table(b.0, b.1).len(),
        route_table(a.0, a.1)[i].path == route_table(b.0, b.1)[j].path,
        route_table(a.0, a.1)[i].verb == route_table(b.0, b.1)[j].verb,
    ensures
        route_table(a.0, a.1)[i] == route_table(b.0, b.1)[j],
{
    let all = route_table(true, true);
    let p = lemma_place_in_full_table(a.0, a.1, i);
    let q = lemma_place_in_full_table(b.0, b.1, j);
    if p < q {
        law_routes_are_distinct(true, true, p, q);
    } else if q < p {
        law_routes_are_distinct(true, true, q, p);
    }
    assert(all[p] == all[q]);
}

proof fn lemma_place_in_full_table(
    enable_bedrock_native: bool,
    enable_conversations_passthrough: bool,
    i: int,
) -> (p: int)
    requires
        0 <= i < route_table(enable_bedrock_native, enable_conversations_passthrough).len(),
    ensures
        0 <= p < route_table(true, true).len(),
        route_table(true, true)[p] == route_table(
            enable_bedrock_native,
            enable_conversations_passthrough,
        )[i],
{
    let n: int = base_routes().len() as int;
    if i < n || enable_bedrock_native {
        i
    } else {
        i + bedrock_routes().len()
    }
}

/// Whoever answers OpenAI's, Vertex's, the health and the metrics routes does so
/// on one path and one method, and nobody else does.
pub proof fn law_base_handlers_have_their_paths(
    enable_bedrock_native: bool,
    enable_conversations_passthrough: bool,
    i: int,
)
    requires
        0 <= i < route_table(enable_bedrock_native, enable_conversations_passthrough).len(),
    ensures
        ({
            let entry = route_table(enable_bedrock_native, enable_conversations_passthrough)[i];
            &&& entry.handler == Handler::Healthz <==> entry.path == "/healthz"@
            &&& entry.handler == Handler::HealthzUpstream <==> entry.path == "/healthz/upstream"@
            &&& entry.handler == Handler::Metrics <==> entry.path == "/metrics"@
            &&& entry.handler == Handler::ChatCompletions <==> entry.path
                == "/v1/chat/completions"@
            &&& entry.handler == Handler::Responses <==> entry.path == "/v1/responses"@
            &&& entry.handler == Handler::VertexPredict <==> entry.path
                == "/v1beta1/projects/:project/locations/:location/publishers/anthropic/models/:model_action"@
            &&& entry.handler == Handler::Healthz || entry.handler == Handler::HealthzUpstream
                || entry.handler == Handler::Metrics ==> entry.verb == Verb::Get
            &&& entry.handler == Handler::ChatCompletions || entry.handler == Handler::Responses
                || entry.handler == Handler::VertexPredict ==> entry.verb == Verb::Post
        }),
{
    lemma_paths_differ();
}

/// Each request of the Conversations API has its own handler, told by the path
/// and the method, and no other route has it.
pub proof fn law_conversation_handlers_have_their_paths(
    enable_bedrock_native: bool,
    enable_conversations_passthrough: bool,
    i: int,
)
    requires
        0 <= i < route_table(enable_bedrock_native, enable_conversations_passthrough).len(),
    ensures
        ({
            let entry = route_table(enable_bedrock_native, enable_conversations_passthrough)[i];
            let all = entry.path == "/v1/conversations"@;
            let one = entry.path == "/v1/conversations/:conversation_id"@;
            let items = entry.path == "/v1/conversations/:conversation_id/items"@;
            let item = entry.path == "/v1/conversations/:conversation_id/items/:item_id"@;
            &&& entry.handler == Handler::ConversationsCreate <==> all && entry.verb == Verb::Post
            &&& entry.handler == Handler::ConversationsGet <==> one && entry.verb == Verb::Get
            &&& entry.handler == Handler::ConversationsUpdate <==> one && entry.verb == Verb::Post
            &&& entry.handler == Handler::ConversationsDelete <==> one && entry.verb
                == Verb::Delete
            &&& entry.handler == Handler::ConversationsItemsCreate <==> items && entry.verb
                == Verb::Post
            &&& entry.handler == Handler::ConversationsItemsList <==> items && entry.verb
                == Verb::Get
            &&& entry.handler == Handler::ConversationsItemGet <==> item && entry.verb == Verb::Get
            &&& entry.handler == Handler::ConversationsItemDelete <==> item && entry.verb
                == Verb::Delete
        }),
{
    lemma_paths_differ();
}

/// Whether some route of `table` is answered by `handler`.
pub open spec fn has_handler(table: Seq<Mount>, handler: Handler) -> bool {
    exists|i: int| 0 <= i < table.len() && #[trigger] table[i].handler == handler
}

/// Whether `handler` is for models on Bedrock.
pub open spec fn is_for_bedrock(handler: Handler) -> bool {
    handler == Handler::BedrockInvoke || handler == Handler::BedrockInvokeStreaming
}

/// Whether `handler` is for OpenAI's Conversations API.
pub open spec fn is_for_conversations(handler: Handler) -> bool {
    match handler {
        Handler::ConversationsCreate
        | Handler::ConversationsGet
        | Handler::ConversationsUpdate
        | Handler::ConversationsDelete
        | Handler::ConversationsItemsCreate
        | Handler::ConversationsItemsList
        | Handler::ConversationsItemGet
        | Handler::ConversationsItemDelete => true,
        _ => false,
    }
}

/// Every handler answers some route, unless it is for Bedrock or for
/// conversations and these are switched off.
pub proof fn law_handlers_are_mounted(
    enable_bedrock_native: bool,
    enable_conversations_passthrough: bool,
    handler: Handler,
)
    ensures
        has_handler(route_table(enable_bedrock_native, enable_conversations_passthrough), handler)
            <==> (is_for_bedrock(handler) ==> enable_bedrock_native) && (is_for_conversations(
            handler,
        ) ==> enable_conversations_passthrough),
{
    let table = route_table(enable_bedrock_native, enable_conversations_passthrough);
    let base = base_routes();
    let bedrock = bedrock_routes();
    let conversations = conversation_routes();
    assert forall|k: int| 0 <= k < base.len() implies (#[trigger] base[k]) == table[k] by {}
    let n: int = base.len() as int;
    if enable_bedrock_native {
        assert forall|k: int| 0 <= k < bedrock.len() implies (#[trigger] bedrock[k]) == table[n
            + k] by {}
    }
    let m: int = if enable_bedrock_native {
        n + bedrock.len()
    } else {
        n
    };
    if enable_conversations_passthrough {
        assert forall|k: int| 0 <= k < conversations.len() implies (#[trigger] conversations[k])
            == table[m + k] by {}
    }
    match handler {
        Handler::Healthz => assert(base[0].handler == handler),
        Handler::HealthzUpstream => assert(base[1].handler == handler),
        Handler::Metrics => assert(base[2].handler == handler),
        Handler::ChatCompletions => assert(base[3].handler == handler),
        Handler::Responses => assert(base[4].handler == handler),
        Handler::VertexPredict => assert(base[5].handler == handler),
        Handler::BedrockInvoke => assert(bedrock[0].handler == handler),
        Handler::BedrockInvokeStreaming => assert(bedrock[2].handler == handler),
        Handler::ConversationsCreate => assert(conversations[0].handler == handler),
        Handler::ConversationsGet => assert(conversations[1].handler == handler),
        Handler::ConversationsUpdate => assert(conversations[2].handler == handler),
        Handler::ConversationsDelete => assert(conversations[3].handler == handler),
        Handler::ConversationsItemsCreate => assert(conversations[4].handler == handler),
        Handler::ConversationsItemsList => assert(conversations[5].handler == handler),
        Handler::ConversationsItemGet => assert(conversations[6].handler == handler),
        Handler::ConversationsItemDelete => assert(conversations[7].handler == handler),
    }
}

/// What routes stand for has their paths, methods, handlers and Bedrock marks, in
/// their order.
pub proof fn law_mounts_are_the_routes(routes: Seq<Route>, i: int)
    requires
        0 <= i < routes.len(),
    ensures
        mounts(routes).len() == routes.len(),
        mounts(routes)[i].path == routes[i].path@,
        mounts(routes)[i].verb == routes[i].verb,
        mounts(routes)[i].handler == routes[i].handler,
        mounts(routes)[i].bedrock == routes[i].bedrock,
{
}

} // verus!
