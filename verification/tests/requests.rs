//! The completion request: builder checks, exact wire form, and the
//! response-side extraction.

use vtt_article::completions::{CompletionClient, CompletionRequestBuilder};
use vtt_article::deepinfra::{first_choice_content, Choice, Message, Response};
use vtt_article::error::Error;

#[test]
fn builder_with_both_mandatory_fields_succeeds() {
    let req = CompletionRequestBuilder::default()
        .model("test-model")
        .messages(vec![Message::new("system", "be brief")])
        .build()
        .unwrap();
    assert_eq!(req.model, "test-model");
    assert_eq!(req.messages.len(), 1);
    assert!(req.max_tokens.is_none());
    assert!(req.stream.is_none());
    assert!(req.top_k.is_none());
}

#[test]
fn builder_without_model_fails() {
    let r = CompletionRequestBuilder::default()
        .messages(vec![Message::new("user", "hi")])
        .build();
    assert!(matches!(r, Err(Error::Build)));
}

#[test]
fn builder_without_messages_fails() {
    let r = CompletionRequestBuilder::default().model("m").build();
    assert!(matches!(r, Err(Error::Build)));
}

#[test]
fn minimal_request_serializes_to_exactly_two_keys() {
    let req = CompletionRequestBuilder::default()
        .model("m")
        .messages(vec![Message::new("system", "s"), Message::new("user", "u")])
        .build()
        .unwrap();
    let body = req.to_json();
    assert_eq!(
        body,
        "{\"model\":\"m\",\"messages\":[{\"role\":\"system\",\"content\":\"s\"},{\"role\":\"user\",\"content\":\"u\"}]}"
    );
    let v: serde_json::Value = serde_json::from_str(&body).unwrap();
    let obj = v.as_object().unwrap();
    assert_eq!(obj.len(), 2);
    assert!(obj.contains_key("model"));
    assert!(obj.contains_key("messages"));
}

#[test]
fn set_optional_fields_appear_on_the_wire() {
    let req = CompletionRequestBuilder::default()
        .model("m")
        .messages(vec![Message::new("user", "u")])
        .max_tokens(1000)
        .stream(false)
        .top_k(40)
        .build()
        .unwrap();
    let v: serde_json::Value = serde_json::from_str(&req.to_json()).unwrap();
    assert_eq!(v.get("max_tokens").unwrap().as_u64(), Some(1000));
    assert_eq!(v.get("stream").unwrap().as_bool(), Some(false));
    assert_eq!(v.get("top_k").unwrap().as_u64(), Some(40));
}

#[test]
fn string_escaping_round_trips_through_a_json_parser() {
    let tricky = "a \"quoted\" \\ back\nslash\ttab\rreturn \u{1} control";
    let req = CompletionRequestBuilder::default()
        .model("m")
        .messages(vec![Message::new("user", tricky)])
        .build()
        .unwrap();
    let v: serde_json::Value = serde_json::from_str(&req.to_json()).unwrap();
    let content = v.get("messages").unwrap().get(0).unwrap().get("content").unwrap();
    assert_eq!(content.as_str(), Some(tricky));
}

#[test]
fn client_build_resolves_the_completions_endpoint() {
    let c = CompletionClient::build("tok", "https://api.example.test/v1/", "mdl").unwrap();
    assert_eq!(c.url, "https://api.example.test/v1/chat/completions");
    assert_eq!(c.model, "mdl");
    assert_eq!(c.token, "tok");
}

#[test]
fn client_build_rejects_a_bad_base_url() {
    let r = CompletionClient::build("tok", "no scheme here", "mdl");
    assert!(matches!(r, Err(Error::InvalidEndpoint)));
}

#[test]
fn request_body_carries_prompt_text_and_ceiling() {
    let c = CompletionClient::build("tok", "https://api.example.test/v1/", "mdl").unwrap();
    let body = c.request_body("write an article", "the caption text");
    let v: serde_json::Value = serde_json::from_str(&body).unwrap();
    assert_eq!(v.get("model").unwrap().as_str(), Some("mdl"));
    assert_eq!(v.get("max_tokens").unwrap().as_u64(), Some(1000));
    let msgs = v.get("messages").unwrap().as_array().unwrap();
    assert_eq!(msgs.len(), 2);
    assert_eq!(msgs[0].get("role").unwrap().as_str(), Some("system"));
    assert_eq!(msgs[0].get("content").unwrap().as_str(), Some("write an article"));
    assert_eq!(msgs[1].get("role").unwrap().as_str(), Some("user"));
    assert_eq!(msgs[1].get("content").unwrap().as_str(), Some("the caption text"));
    assert!(v.get("stream").is_none());
    assert!(v.get("top_k").is_none());
    assert!(v.get("temperature").is_none());
}

#[test]
fn empty_choices_is_a_deserialization_error() {
    let resp = Response { choices: vec![] };
    assert_eq!(first_choice_content(&resp), Err(Error::Deserialization));
}

#[test]
fn first_choice_content_is_returned() {
    let resp = Response {
        choices: vec![
            Choice { message: Message::new("assistant", "the article") },
            Choice { message: Message::new("assistant", "ignored") },
        ],
    };
    assert_eq!(first_choice_content(&resp).unwrap(), "the article");
}

#[test]
fn error_labels_name_their_failure() {
    assert_eq!(Error::Deserialization.label(), "malformed completion response");
    assert_eq!(Error::InvalidLocator.label(), "source locator is not a valid URL");
}
