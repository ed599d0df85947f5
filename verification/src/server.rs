//! Request routing of the OpenAI-compatible REST interface.
use vstd::prelude::*;
use crate::text::{
    seq_contains, seq_starts_with, trim, lowercase, strip_start_in, prefix_before, chars_of,
    contains_str, starts_with, equals_str, trimmed, stripped_start, before_char, suffix_from,
    string_of, lower_chars, lemma_prefix_before, push_str, push_decimal, decimal,
};
use crate::mission::{json_quoted, json_quote};

verus! {

/// HTTP methods the interface distinguishes.
#[derive(Debug, Clone, Copy, PartialEq, Eq, Structural)]
pub enum HttpMethod {
    Get,
    Post,
    Options,
    Other,
}

/// Which handler answers a request.
#[derive(Debug, Clone, Copy, PartialEq, Eq, Structural)]
pub enum GemiRoute {
    /// API status document.
    Status,
    /// Model list.
    Models,
    /// Substrate identity document.
    WellKnown,
    /// Chat or text completion.
    Completion,
    /// CORS preflight.
    Preflight,
    /// Anything else.
    NotFound,
}

/// The route of a request, matching the method and path in this order:
/// status paths, model paths, the well-known document, completion paths,
/// any preflight, and otherwise none.
pub open spec fn route_of(method: HttpMethod, path: Seq<char>) -> GemiRoute {
    if method == HttpMethod::Get && (path == "/"@ || path == "/v1"@ || path == "/v1/"@ || path == "/health"@
        || path == "/app"@ || path == "/favicon.ico"@) {
        GemiRoute::Status
    } else if method == HttpMethod::Get && (seq_starts_with(path, "/v1/models"@) || seq_starts_with(path, "/models"@)) {
        GemiRoute::Models
    } else if method == HttpMethod::Get && path == "/well-known/susi"@ {
        GemiRoute::WellKnown
    } else if method == HttpMethod::Post && (seq_starts_with(path, "/v1/chat/completions"@)
        || seq_starts_with(path, "/chat/completions"@) || seq_starts_with(path, "/v1/completions"@)
        || path == "/"@ || path == "/v1"@ || path == "/v1/"@) {
        GemiRoute::Completion
    } else if method == HttpMethod::Options {
        GemiRoute::Preflight
    } else {
        GemiRoute::NotFound
    }
}

/// HTTP status of a route's response.
pub open spec fn route_status(route: GemiRoute) -> u16 {
    if route == GemiRoute::NotFound { 404 } else { 200 }
}

/// A completion body asks for streaming (any mention of `stream` does).
pub open spec fn wants_stream(body: Seq<char>) -> bool {
    seq_contains(body, "\"stream\":true"@) || seq_contains(body, "\"stream\": true"@) || seq_contains(body, "stream"@)
}

/// The prompt with surrounding whitespace and leading `/` then `:`
/// characters removed.
pub open spec fn clean_command(prompt: Seq<char>) -> Seq<char> {
    strip_start_in(strip_start_in(trim(prompt), seq!['/']), seq![':'])
}

/// A prompt read as a tool command: the lowercase first word names the
/// tool, and the trimmed rest after the first space is its argument
/// (empty when there is no space).
pub open spec fn chat_command(prompt: Seq<char>) -> (Seq<char>, Seq<char>) {
    let clean = clean_command(prompt);
    let head = prefix_before(clean, ' ');
    let arg = if head.len() < clean.len() {
        trim(clean.skip(head.len() as int + 1))
    } else {
        Seq::empty()
    };
    (lowercase(head), arg)
}

/// The REST interface.
pub struct GemiServer;

impl GemiServer {
    /// The handler for a request's method and path.
    pub fn route(method: HttpMethod, path: &str) -> (r: GemiRoute)
        ensures
            r == route_of(method, path@),
    {
        let p = chars_of(path);
        let is_status_path = equals_str(&p, "/") || equals_str(&p, "/v1") || equals_str(&p, "/v1/")
            || equals_str(&p, "/health") || equals_str(&p, "/app") || equals_str(&p, "/favicon.ico");
        let v1_models = chars_of("/v1/models");
        let models = chars_of("/models");
        let v1_chat = chars_of("/v1/chat/completions");
        let chat = chars_of("/chat/completions");
        let v1_completions = chars_of("/v1/completions");
        match method {
            HttpMethod::Get => {
                if is_status_path {
                    GemiRoute::Status
                } else if starts_with(&p, &v1_models) || starts_with(&p, &models) {
                    GemiRoute::Models
                } else if equals_str(&p, "/well-known/susi") {
                    GemiRoute::WellKnown
                } else {
                    GemiRoute::NotFound
                }
            },
            HttpMethod::Post => {
                if starts_with(&p, &v1_chat) || starts_with(&p, &chat) || starts_with(&p, &v1_completions)
                    || equals_str(&p, "/") || equals_str(&p, "/v1") || equals_str(&p, "/v1/") {
                    GemiRoute::Completion
                } else {
                    GemiRoute::NotFound
                }
            },
            HttpMethod::Options => GemiRoute::Preflight,
            HttpMethod::Other => GemiRoute::NotFound,
        }
    }

    /// The HTTP status a route answers with.
    pub fn route_status(route: GemiRoute) -> (r: u16)
        ensures
            r == route_status(route),
    {
        match route {
            GemiRoute::NotFound => 404,
            _ => 200,
        }
    }

    /// Whether a completion request body asks for a streamed reply.
    pub fn is_streaming_request(body: &str) -> (b: bool)
        ensures
            b == wants_stream(body@),
    {
        let t = chars_of(body);
        contains_str(&t, "\"stream\":true") || contains_str(&t, "\"stream\": true") || contains_str(&t, "stream")
    }

    /// A chat prompt read as a tool command: the tool's name and argument.
    pub fn parse_chat_command(prompt: &str) -> (r: (String, String))
        ensures
            (r.0@, r.1@) == chat_command(prompt@),
    {
        let chars = chars_of(prompt);
        let t = trimmed(&chars);
        let slash = vec!['/'];
        let colon = vec![':'];
        proof {
            assert(slash@ =~= seq!['/']);
            assert(colon@ =~= seq![':']);
        }
        let a = stripped_start(&t, &slash);
        let clean = stripped_start(&a, &colon);
        let head = before_char(&clean, ' ');
        proof {
            lemma_prefix_before(clean@, ' ');
        }
        let head_str = string_of(&head);
        let name_chars = lower_chars(head_str.as_str());
        let name = string_of(&name_chars);
        let arg = if head.len() < clean.len() {
            let rest = suffix_from(&clean, head.len() + 1);
            let arg_chars = trimmed(&rest);
            string_of(&arg_chars)
        } else {
            String::new()
        };
        proof {
            assert(arg@ == chat_command(prompt@).1);
        }
        (name, arg)
    }
}

/// The status document the interface serves at its root, pretty-printed.
pub open spec fn api_status(version: Seq<char>) -> Seq<char> {
    "{\n  \"endpoints\": [\n    \"/v1/chat/completions\",\n    \"/v1/models\",\n    \"/v1/completions\"\n  ],\n  \"name\": \"SUSI OpenAI-Compatible REST Substrate\",\n  \"object\": \"api_status\",\n  \"status\": \"active\",\n  \"version\": "@
        + json_quoted(version) + "\n}"@
}

/// One model entry of the model list.
pub open spec fn model_entry(id: Seq<char>) -> Seq<char> {
    "{\"id\":"@ + json_quoted(id) + ",\"object\":\"model\",\"owned_by\":\"susi\"}"@
}

/// The model entries, comma-separated.
pub open spec fn model_entries(ids: Seq<Seq<char>>) -> Seq<char>
    decreases ids.len(),
{
    if ids.len() == 0 {
        Seq::empty()
    } else if ids.len() == 1 {
        model_entry(ids[0])
    } else {
        model_entries(ids.drop_last()) + ","@ + model_entry(ids.last())
    }
}

/// The model list document.
pub open spec fn models_document(ids: Seq<Seq<char>>) -> Seq<char> {
    "{\"data\":["@ + model_entries(ids) + "],\"object\":\"list\"}"@
}

/// The head of a streamed completion chunk.
pub open spec fn chunk_head(now: u64, model: Seq<char>) -> Seq<char> {
    "data: {\"id\":\"chatcmpl-susi-"@ + decimal(now as nat) + "\",\"object\":\"chat.completion.chunk\",\"created\":"@
        + decimal(now as nat) + ",\"model\":\""@ + model + "\",\"choices\":[{\"index\":0,\"delta\":"@
}

/// The chunk that opens a stream, announcing the assistant.
pub open spec fn opening_chunk(now: u64, model: Seq<char>) -> Seq<char> {
    chunk_head(now, model) + "{\"role\":\"assistant\"},\"finish_reason\":null}]}\n\n"@
}

/// The chunk that carries a piece of the answer.
pub open spec fn content_chunk(now: u64, model: Seq<char>, piece: Seq<char>) -> Seq<char> {
    chunk_head(now, model) + "{\"content\":"@ + json_quoted(piece) + "},\"finish_reason\":null}]}\n\n"@
}

/// The chunk that closes a stream.
pub open spec fn closing_chunk(now: u64, model: Seq<char>) -> Seq<char> {
    chunk_head(now, model) + "{},\"finish_reason\":\"stop\"}]}\n\n"@
}

/// The completion document for an answer.
pub open spec fn completion_document(now: u64, model: Seq<char>, content: Seq<char>) -> Seq<char> {
    "{\"choices\":[{\"finish_reason\":\"stop\",\"index\":0,\"message\":{\"content\":"@ + json_quoted(content)
        + ",\"role\":\"assistant\"}}],\"created\":1700000000,\"id\":\"chatcmpl-susi-"@ + decimal(now as nat)
        + "\",\"model\":"@ + json_quoted(model) + ",\"object\":\"chat.completion\"}"@
}

fn push_chunk_head(out: &mut String, now: u64, model: &str)
    ensures
        final(out)@ == old(out)@ + chunk_head(now, model@),
{
    push_str(out, "data: {\"id\":\"chatcmpl-susi-");
    push_decimal(out, now);
    push_str(out, "\",\"object\":\"chat.completion.chunk\",\"created\":");
    push_decimal(out, now);
    push_str(out, ",\"model\":\"");
    push_str(out, model);
    push_str(out, "\",\"choices\":[{\"index\":0,\"delta\":");
    proof {
        assert(final(out)@ =~= old(out)@ + chunk_head(now, model@));
    }
}

impl GemiServer {
    /// The status document served at the root.
    pub fn api_status(version: &str) -> (r: String)
        ensures
            r@ == api_status(version@),
    {
        let mut s = String::new();
        push_str(&mut s, "{\n  \"endpoints\": [\n    \"/v1/chat/completions\",\n    \"/v1/models\",\n    \"/v1/completions\"\n  ],\n  \"name\": \"SUSI OpenAI-Compatible REST Substrate\",\n  \"object\": \"api_status\",\n  \"status\": \"active\",\n  \"version\": ");
        push_str(&mut s, json_quote(version).as_str());
        push_str(&mut s, "\n}");
        s
    }

    /// The model list document for the given model ids.
    pub fn models_document(ids: &Vec<String>) -> (r: String)
        ensures
            r@ == models_document(ids@.map_values(|x: String| x@)),
    {
        let ghost iv = ids@.map_values(|x: String| x@);
        let mut s = String::new();
        push_str(&mut s, "{\"data\":[");
        let ghost start = s@;
        let mut i: usize = 0;
        proof {
            assert(iv.take(0) =~= Seq::<Seq<char>>::empty());
        }
        while i < ids.len()
            invariant
                i <= iv.len(),
                iv == ids@.map_values(|x: String| x@),
                s@ == start + model_entries(iv.take(i as int)),
            decreases ids.len() - i,
        {
            proof {
                assert(iv.take(i + 1).drop_last() =~= iv.take(i as int));
                assert(iv.take(i + 1).last() == ids@[i as int]@);
                if i == 0 {
                    assert(iv.take(1)[0] == ids@[0]@);
                }
            }
            if i > 0 {
                push_str(&mut s, ",");
            }
            push_str(&mut s, "{\"id\":");
            push_str(&mut s, json_quote(ids[i].as_str()).as_str());
            push_str(&mut s, ",\"object\":\"model\",\"owned_by\":\"susi\"}");
            proof {
                assert(s@ =~= start + model_entries(iv.take(i + 1)));
            }
            i = i + 1;
        }
        proof {
            assert(iv.take(iv.len() as int) =~= iv);
        }
        push_str(&mut s, "],\"object\":\"list\"}");
        s
    }

    /// The chunk that opens a streamed completion.
    pub fn opening_chunk(now: u64, model: &str) -> (r: String)
        ensures
            r@ == opening_chunk(now, model@),
    {
        let mut s = String::new();
        push_chunk_head(&mut s, now, model);
        push_str(&mut s, "{\"role\":\"assistant\"},\"finish_reason\":null}]}\n\n");
        s
    }

    /// The chunk that carries a piece of a streamed answer.
    pub fn content_chunk(now: u64, model: &str, piece: &str) -> (r: String)
        ensures
            r@ == content_chunk(now, model@, piece@),
    {
        let mut s = String::new();
        push_chunk_head(&mut s, now, model);
        push_str(&mut s, "{\"content\":");
        push_str(&mut s, json_quote(piece).as_str());
        push_str(&mut s, "},\"finish_reason\":null}]}\n\n");
        s
    }

    /// The chunk that closes a streamed completion.
    pub fn closing_chunk(now: u64, model: &str) -> (r: String)
        ensures
            r@ == closing_chunk(now, model@),
    {
        let mut s = String::new();
        push_chunk_head(&mut s, now, model);
        push_str(&mut s, "{},\"finish_reason\":\"stop\"}]}\n\n");
        s
    }

    /// The completion document answering a request in one piece.
    pub fn completion_document(now: u64, model: &str, content: &str) -> (r: String)
        ensures
            r@ == completion_document(now, model@, content@),
    {
        let mut s = String::new();
        push_str(&mut s, "{\"choices\":[{\"finish_reason\":\"stop\",\"index\":0,\"message\":{\"content\":");
        push_str(&mut s, json_quote(content).as_str());
        push_str(&mut s, ",\"role\":\"assistant\"}}],\"created\":1700000000,\"id\":\"chatcmpl-susi-");
        push_decimal(&mut s, now);
        push_str(&mut s, "\",\"model\":");
        push_str(&mut s, json_quote(model).as_str());
        push_str(&mut s, ",\"object\":\"chat.completion\"}");
        s
    }
}

} // verus!
