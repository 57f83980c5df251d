//! The completion request: its value type, the builder that assembles
//! it, its exact wire form, and the client configuration that owns the
//! endpoint, credential and model name.

use vstd::prelude::*;
use vstd::string::*;

use crate::deepinfra::{Message, MessageView};
use crate::error::Error;
use crate::json::{dec_str, dec_u32_into, json_string, json_string_into};
use crate::urls::{join_url, url_joined};

verus! {

/// The fixed path segment of the completions endpoint.
pub const COMPLETIONS_PATH: &'static str = "chat/completions";

/// A validated completion request. `model` and `messages` are mandatory;
/// every unset optional field is omitted from the wire form entirely.
#[derive(Debug, Clone)]
pub struct CompletionRequest {
    pub model: String,
    pub messages: Vec<Message>,
    pub max_tokens: Option<u32>,
    pub stream: Option<bool>,
    pub top_k: Option<u16>,
}

/// The wire form of one message.
pub open spec fn message_json(m: MessageView) -> Seq<char> {
    "{\"role\":"@ + json_string(m.role) + ",\"content\":"@ + json_string(m.content) + "}"@
}

/// The comma-separated wire forms of the messages.
pub open spec fn messages_items(ms: Seq<MessageView>) -> Seq<char>
    decreases ms.len(),
{
    if ms.len() == 0 {
        Seq::<char>::empty()
    } else if ms.len() == 1 {
        message_json(ms[0])
    } else {
        messages_items(ms.drop_last()) + ","@ + message_json(ms.last())
    }
}

/// The wire form of the message list.
pub open spec fn messages_json(ms: Seq<MessageView>) -> Seq<char> {
    "["@ + messages_items(ms) + "]"@
}

/// An optional numeric field: absent entirely when unset.
pub open spec fn opt_u32_json(key: Seq<char>, v: Option<u32>) -> Seq<char> {
    match v {
        None => Seq::<char>::empty(),
        Some(n) => key + dec_str(n as int),
    }
}

/// An optional small numeric field: absent entirely when unset.
pub open spec fn opt_u16_json(key: Seq<char>, v: Option<u16>) -> Seq<char> {
    match v {
        None => Seq::<char>::empty(),
        Some(n) => key + dec_str(n as int),
    }
}

/// An optional boolean field: absent entirely when unset.
pub open spec fn opt_bool_json(key: Seq<char>, v: Option<bool>) -> Seq<char> {
    match v {
        None => Seq::<char>::empty(),
        Some(b) => key + (if b {
            "true"@
        } else {
            "false"@
        }),
    }
}

/// The complete wire form of a request: the two mandatory keys first,
/// then exactly the optional fields that are set.
pub open spec fn request_json(
    model: Seq<char>,
    ms: Seq<MessageView>,
    max_tokens: Option<u32>,
    stream: Option<bool>,
    top_k: Option<u16>,
) -> Seq<char> {
    "{\"model\":"@ + json_string(model) + ",\"messages\":"@ + messages_json(ms) + opt_u32_json(
        ",\"max_tokens\":"@,
        max_tokens,
    ) + opt_bool_json(",\"stream\":"@, stream) + opt_u16_json(",\"top_k\":"@, top_k) + "}"@
}

/// A request with only the two mandatory fields set serializes to
/// exactly the `model` and `messages` keys; every optional field is
/// absent.
pub proof fn lemma_minimal_request_json(model: Seq<char>, ms: Seq<MessageView>)
    ensures
        request_json(model, ms, None, None, None) == "{\"model\":"@ + json_string(model)
            + ",\"messages\":"@ + messages_json(ms) + "}"@,
{
    assert(request_json(model, ms, None, None, None) =~= "{\"model\":"@ + json_string(model)
        + ",\"messages\":"@ + messages_json(ms) + "}"@);
}

/// Appends the wire form of one message to `out`.
fn push_message(out: &mut String, m: &Message)
    ensures
        final(out)@ == old(out)@ + message_json(m@),
{
    let ghost start = out@;
    out.append("{\"role\":");
    json_string_into(out, m.role.as_str());
    out.append(",\"content\":");
    json_string_into(out, m.content.as_str());
    out.append("}");
    proof {
        assert(out@ =~= start + message_json(m@));
    }
}

/// Appends the wire form of the message list to `out`.
fn push_messages(out: &mut String, ms: &Vec<Message>)
    ensures
        final(out)@ == old(out)@ + messages_json(ms.deep_view()),
{
    let ghost start = out@;
    out.append("[");
    let n = ms.len();
    let mut i: usize = 0;
    proof {
        assert(ms.deep_view().take(0) =~= Seq::<MessageView>::empty());
        assert(out@ =~= start + "["@ + messages_items(ms.deep_view().take(0)));
    }
    while i < n
        invariant
            i <= n,
            n == ms@.len(),
            out@ == start + "["@ + messages_items(ms.deep_view().take(i as int)),
        decreases n - i,
    {
        let ghost before = out@;
        if i > 0 {
            out.append(",");
        }
        push_message(out, &ms[i]);
        i += 1;
        proof {
            let dv = ms.deep_view();
            assert(dv.take(i as int).drop_last() =~= dv.take(i - 1));
            assert(dv.take(i as int).last() == dv[i - 1]);
            assert((&ms[i - 1])@ == dv[i - 1]);
            if i == 1 {
                assert(messages_items(Seq::<MessageView>::empty()) == Seq::<char>::empty());
                assert(out@ =~= start + "["@ + messages_items(dv.take(1)));
            } else {
                assert(out@ =~= start + "["@ + (messages_items(dv.take(i - 1)) + ","@
                    + message_json(dv[i - 1])));
            }
        }
    }
    let ghost mid = out@;
    out.append("]");
    proof {
        assert(ms.deep_view().take(n as int) =~= ms.deep_view());
        assert(out@ =~= start + messages_json(ms.deep_view()));
    }
}

impl CompletionRequest {
    /// The exact JSON body this request is sent as.
    pub fn to_json(&self) -> (r: String)
        ensures
            r@ == request_json(
                self.model@,
                self.messages.deep_view(),
                self.max_tokens,
                self.stream,
                self.top_k,
            ),
    {
        let mut out = String::new();
        out.append("{\"model\":");
        json_string_into(&mut out, self.model.as_str());
        out.append(",\"messages\":");
        push_messages(&mut out, &self.messages);
        let ghost head = out@;
        proof {
            assert(head =~= "{\"model\":"@ + json_string(self.model@) + ",\"messages\":"@
                + messages_json(self.messages.deep_view()));
        }
        match self.max_tokens {
            Some(n) => {
                out.append(",\"max_tokens\":");
                dec_u32_into(&mut out, n);
                proof {
                    assert(out@ =~= head + opt_u32_json(",\"max_tokens\":"@, self.max_tokens));
                }
            },
            None => {
                proof {
                    assert(out@ =~= head + opt_u32_json(",\"max_tokens\":"@, self.max_tokens));
                }
            },
        }
        let ghost with_mt = out@;
        match self.stream {
            Some(b) => {
                out.append(",\"stream\":");
                if b {
                    out.append("true");
                } else {
                    out.append("false");
                }
                proof {
                    assert(out@ =~= with_mt + opt_bool_json(",\"stream\":"@, self.stream));
                }
            },
            None => {
                proof {
                    assert(out@ =~= with_mt + opt_bool_json(",\"stream\":"@, self.stream));
                }
            },
        }
        let ghost with_st = out@;
        match self.top_k {
            Some(k) => {
                out.append(",\"top_k\":");
                dec_u32_into(&mut out, k as u32);
                proof {
                    assert(out@ =~= with_st + opt_u16_json(",\"top_k\":"@, self.top_k));
                }
            },
            None => {
                proof {
                    assert(out@ =~= with_st + opt_u16_json(",\"top_k\":"@, self.top_k));
                }
            },
        }
        out.append("}");
        proof {
            assert(out@ =~= request_json(
                self.model@,
                self.messages.deep_view(),
                self.max_tokens,
                self.stream,
                self.top_k,
            ));
        }
        out
    }
}

/// Accumulates the fields of a request; `build` checks that the
/// mandatory ones were supplied.
pub struct CompletionRequestBuilder {
    pub model: Option<String>,
    pub messages: Option<Vec<Message>>,
    pub max_tokens: Option<u32>,
    pub stream: Option<bool>,
    pub top_k: Option<u16>,
}

impl Default for CompletionRequestBuilder {
    /// A builder with every field unset.
    fn default() -> (r: Self)
        ensures
            r.model is None,
            r.messages is None,
            r.max_tokens is None,
            r.stream is None,
            r.top_k is None,
    {
        CompletionRequestBuilder {
            model: None,
            messages: None,
            max_tokens: None,
            stream: None,
            top_k: None,
        }
    }
}

impl CompletionRequestBuilder {
    /// Sets the mandatory model name.
    pub fn model(self, model: &str) -> (r: Self)
        ensures
            (r.model matches Some(m) && m@ == model@),
            r.messages == self.messages,
            r.max_tokens == self.max_tokens,
            r.stream == self.stream,
            r.top_k == self.top_k,
    {
        CompletionRequestBuilder { model: Some(model.to_owned()), ..self }
    }

    /// Sets the mandatory message list.
    pub fn messages(self, messages: Vec<Message>) -> (r: Self)
        ensures
            r.messages == Some(messages),
            r.model == self.model,
            r.max_tokens == self.max_tokens,
            r.stream == self.stream,
            r.top_k == self.top_k,
    {
        CompletionRequestBuilder { messages: Some(messages), ..self }
    }

    /// Sets the generation ceiling.
    pub fn max_tokens(self, max_tokens: u32) -> (r: Self)
        ensures
            r.max_tokens == Some(max_tokens),
            r.model == self.model,
            r.messages == self.messages,
            r.stream == self.stream,
            r.top_k == self.top_k,
    {
        CompletionRequestBuilder { max_tokens: Some(max_tokens), ..self }
    }

    /// Sets the streaming flag.
    pub fn stream(self, stream: bool) -> (r: Self)
        ensures
            r.stream == Some(stream),
            r.model == self.model,
            r.messages == self.messages,
            r.max_tokens == self.max_tokens,
            r.top_k == self.top_k,
    {
        CompletionRequestBuilder { stream: Some(stream), ..self }
    }

    /// Sets the sampling cutoff.
    pub fn top_k(self, top_k: u16) -> (r: Self)
        ensures
            r.top_k == Some(top_k),
            r.model == self.model,
            r.messages == self.messages,
            r.max_tokens == self.max_tokens,
            r.stream == self.stream,
    {
        CompletionRequestBuilder { top_k: Some(top_k), ..self }
    }

    /// Assembles the request. Fails with the build error exactly when a
    /// mandatory field is missing.
    pub fn build(self) -> (r: Result<CompletionRequest, Error>)
        ensures
            (self.model is Some && self.messages is Some) <==> r is Ok,
            r matches Ok(req) ==> req.model == self.model.unwrap() && req.messages
                == self.messages.unwrap() && req.max_tokens == self.max_tokens && req.stream
                == self.stream && req.top_k == self.top_k,
            r is Err ==> r == Err::<CompletionRequest, Error>(Error::Build),
    {
        match (self.model, self.messages) {
            (Some(model), Some(messages)) => Ok(
                CompletionRequest {
                    model,
                    messages,
                    max_tokens: self.max_tokens,
                    stream: self.stream,
                    top_k: self.top_k,
                },
            ),
            _ => Err(Error::Build),
        }
    }
}

/// The immutable configuration of the completion exchange: the resolved
/// endpoint, the bearer credential, and the model name.
#[derive(Debug, Clone)]
pub struct CompletionClient {
    pub model: String,
    pub url: String,
    pub token: String,
}

impl CompletionClient {
    /// Resolves the completions endpoint against the base URL and keeps
    /// the credential and model name. Fails exactly when the base URL
    /// does not resolve.
    pub fn build(token: &str, base_url: &str, model: &str) -> (r: Result<CompletionClient, Error>)
        ensures
            url_joined(base_url@, COMPLETIONS_PATH@) matches Some(u) ==> (r matches Ok(c)
                && c.model@ == model@ && c.token@ == token@ && c.url@ == u),
            url_joined(base_url@, COMPLETIONS_PATH@) is None ==> r == Err::<
                CompletionClient,
                Error,
            >(Error::InvalidEndpoint),
    {
        match join_url(base_url, COMPLETIONS_PATH) {
            Some(u) => Ok(
                CompletionClient { model: model.to_owned(), url: u, token: token.to_owned() },
            ),
            None => Err(Error::InvalidEndpoint),
        }
    }

    /// The exact JSON body of a completion exchange: the configured
    /// model, the system instruction, the user text, and the fixed
    /// generation ceiling; no other field is sent.
    pub fn request_body(&self, prompt: &str, text: &str) -> (r: String)
        ensures
            r@ == request_json(
                self.model@,
                seq![
                    MessageView { role: "system"@, content: prompt@ },
                    MessageView { role: "user"@, content: text@ },
                ],
                Some(1000u32),
                None,
                None,
            ),
    {
        let mut ms: Vec<Message> = Vec::new();
        ms.push(Message::new("system", prompt));
        ms.push(Message::new("user", text));
        let ghost msv = ms.deep_view();
        proof {
            assert(msv =~~= seq![
                MessageView { role: "system"@, content: prompt@ },
                MessageView { role: "user"@, content: text@ },
            ]);
        }
        let b = CompletionRequestBuilder::default().model(self.model.as_str()).max_tokens(
            1000,
        ).messages(ms);
        match b.build() {
            Ok(req) => {
                let r = req.to_json();
                proof {
                    assert(req.messages.deep_view() == msv);
                }
                r
            },
            Err(_) => {
                // unreachable: both mandatory fields were just supplied
                proof {
                    assert(false);
                }
                String::new()
            },
        }
    }
}

} // verus!
