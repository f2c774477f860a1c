//! The chat model served over HTTP on the local machine: the request body
//! it is sent, the requests the tool makes of it, and how its yes/no answers
//! are read.
use vstd::prelude::*;
use vstd::utf8::{decode_utf8, encode_utf8, encode_utf8_decode_utf8, is_char_boundary};
use crate::json::{
    json_at, json_element, json_get, json_member, json_parse, json_text, json_to_string, parse_json,
    Json,
};
use crate::prompts::{
    phrase_prompt, phrase_prompt_text, sample_captions, sampled_captions, title_prompt,
    title_prompt_text, ChatRequest,
};
use crate::strings::{
    contains, decimal, lowercase, replace_all, str_contains, str_replace, to_lowercase,
    usize_decimal,
};

verus! {

/// Where the local chat model listens.
pub const GPT_URL: &'static str = "127.0.0.1:4891";

/// The model that the local server is asked to use.
pub const GPT_MODEL: &'static str = "Nous Hermes 2 Mistral DPO";

/// How many captions at most go into a prompt for the local chat model.
pub const GPT_CAPTION_COUNT: usize = 50;

/// The JSON body of a chat-completion request: the model, the token limit,
/// a fixed system message and `message` as the user's message, written into
/// the text as it is.
pub open spec fn gpt_body_text(message: Seq<char>, tokens: nat) -> Seq<char> {
    "\n        {\n            \"model\": \""@ + "Nous Hermes 2 Mistral DPO"@
        + "\",\n            \"max_tokens\": "@ + decimal(tokens)
        + ",\n            \"messages\": [\n                {\n                    \"role\": \"system\",\n                    \"content\": \"You are a helpful assistant.\"\n                },\n                {\n                    \"role\": \"user\",\n                    \"content\": \""@
        + message + "\"\n                }\n            ]\n        }\n        "@
}

/// The chat-completion request body for `message` with at most `tokens`
/// tokens in the reply.
pub fn local_gpt_body(message: &str, tokens: usize) -> (r: String)
    ensures
        r@ == gpt_body_text(message@, tokens as nat),
{
    let mut r = "\n        {\n            \"model\": \"".to_owned();
    r.append(GPT_MODEL);
    r.append("\",\n            \"max_tokens\": ");
    let digits = usize_decimal(tokens);
    r.append(digits.as_str());
    r.append(",\n            \"messages\": [\n                {\n                    \"role\": \"system\",\n                    \"content\": \"You are a helpful assistant.\"\n                },\n                {\n                    \"role\": \"user\",\n                    \"content\": \"");
    r.append(message);
    r.append("\"\n                }\n            ]\n        }\n        ");
    r
}

/// The address of the chat-completion endpoint of the local model.
pub open spec fn gpt_chat_url_text() -> Seq<char> {
    "http://"@ + "127.0.0.1:4891"@ + "/v1/chat/completions"@
}

/// The address that chat-completion requests are posted to.
pub fn local_gpt_url() -> (r: String)
    ensures
        r@ == gpt_chat_url_text(),
{
    let mut r = "http://".to_owned();
    r.append(GPT_URL);
    r.append("/v1/chat/completions");
    r
}

/// What a chat-completion reply says: the written form of
/// `choices[0].message.content`. `None` when the reply is no JSON, has no
/// `choices`, or when the first choice (`null` if there is none) has no
/// `message` or that has no `content`.
pub open spec fn chat_content(reply: Seq<char>) -> Option<Seq<char>> {
    match json_parse(reply) {
        None => None,
        Some(v) => match json_get(v, "choices"@) {
            None => None,
            Some(choices) => match json_get(json_at(choices, 0), "message"@) {
                None => None,
                Some(message) => match json_get(message, "content"@) {
                    None => None,
                    Some(content) => Some(json_text(content)),
                },
            },
        },
    }
}

/// Reads the answer out of a chat-completion reply.
pub fn chat_reply_content(reply: &str) -> (r: Option<String>)
    ensures
        r is None <==> chat_content(reply@) is None,
        r matches Some(t) ==> chat_content(reply@) == Some(t@),
{
    let value = match parse_json(reply) {
        Some(v) => v,
        None => return None,
    };
    let choices = match json_member(&value, "choices") {
        Some(c) => c,
        None => return None,
    };
    let message = match json_element(choices, 0) {
        Some(first) => match json_member(first, "message") {
            Some(m) => m,
            None => return None,
        },
        None => {
            assert(json_get(Json::Null, "message"@) is None);
            return None;
        },
    };
    match json_member(message, "content") {
        Some(content) => Some(json_to_string(content)),
        None => None,
    }
}

/// An answer, lowercased and with its double quotes taken out.
pub open spec fn unquoted_lowercase(text: Seq<char>) -> Seq<char> {
    replace_all(lowercase(text), "\""@, ""@)
}

/// How many bytes of the cleaned answer are looked at: its first eight, or
/// all of it when it is shorter.
pub open spec fn answer_cut(text: Seq<char>) -> int {
    let n = encode_utf8(unquoted_lowercase(text)).len();
    if n < 8 {
        n as int
    } else {
        8
    }
}

/// The eight-byte cut falls between two characters of the cleaned answer.
pub open spec fn answer_cut_ok(text: Seq<char>) -> bool {
    is_char_boundary(encode_utf8(unquoted_lowercase(text)), answer_cut(text))
}

/// The answer read as "yes": its first eight bytes, cleaned, hold "yes".
/// ("yes" wins where "no" is there too, and anything else reads as no.)
pub open spec fn gpt_says_yes(text: Seq<char>) -> bool {
    contains(decode_utf8(encode_utf8(unquoted_lowercase(text)).subrange(0, answer_cut(text))), "yes"@)
}

/// The answer lowercased and without double quotes, and how many of its
/// bytes are looked at.
fn cleaned_answer(text: &str) -> (r: (String, usize))
    ensures
        r.0@ == unquoted_lowercase(text@),
        r.1 == answer_cut(text@),
{
    proof {
        reveal_strlit("\"");
    }
    let lower = to_lowercase(text);
    let filtered_text = str_replace(lower.as_str(), "\"", "");
    let len = filtered_text.as_str().as_bytes().len();
    let cut = if len < 8 {
        len
    } else {
        8
    };
    (filtered_text, cut)
}

/// Reads a yes/no answer of the chat model. The text is cut after its
/// eighth byte, which must fall between two characters.
pub fn gpt_yes_no(text: &str) -> (r: bool)
    requires
        answer_cut_ok(text@),
    ensures
        r == gpt_says_yes(text@),
{
    let (filtered_text, cut) = cleaned_answer(text);
    let (start_text, _) = filtered_text.as_str().split_at(cut);
    proof {
        encode_utf8_decode_utf8(start_text@);
    }
    let yes = str_contains(start_text, "yes");
    let no = str_contains(start_text, "no");
    if yes || no {
        return yes;
    }
    false
}

/// Reads a yes/no answer of the chat model where its eighth byte ends a
/// character (or it is shorter); `None` where that cut would split one.
pub fn gpt_yes_no_checked(text: &str) -> (r: Option<bool>)
    ensures
        r is None <==> !answer_cut_ok(text@),
        r matches Some(b) ==> b == gpt_says_yes(text@),
{
    let (filtered_text, cut) = cleaned_answer(text);
    if filtered_text.as_str().is_char_boundary(cut) {
        Some(gpt_yes_no(text))
    } else {
        None
    }
}

/// How the answer to the English question is read: no answer reads as no,
/// and an answer is read as `gpt_yes_no` reads it. `None` where the answer's
/// eight-byte cut would split a character.
pub fn english_answer(reply: Option<String>) -> (r: Option<bool>)
    ensures
        reply is None ==> r == Some(false),
        reply matches Some(a) ==> (r is None <==> !answer_cut_ok(a@)),
        reply matches Some(a) ==> (r matches Some(b) ==> b == gpt_says_yes(a@)),
{
    match reply {
        Some(answer) => gpt_yes_no_checked(answer.as_str()),
        None => Some(false),
    }
}

/// The request that asks the local chat model for the title of the video
/// reacted to, from evenly spread captions.
pub fn gpt_title(captions: &Vec<String>) -> (r: ChatRequest)
    ensures
        r.message@ == title_prompt_text(
            sampled_captions(captions.deep_view(), GPT_CAPTION_COUNT as nat),
        ),
        r.max_tokens == 100,
{
    let all_captions = sample_captions(captions, GPT_CAPTION_COUNT);
    ChatRequest { message: title_prompt(all_captions.as_str()), max_tokens: 100 }
}

/// The request that asks the local chat model which of `text_options` fits
/// the video, from evenly spread captions.
pub fn gpt_text(text_options: &str, captions: &Vec<String>) -> (r: ChatRequest)
    ensures
        r.message@ == phrase_prompt_text(
            sampled_captions(captions.deep_view(), GPT_CAPTION_COUNT as nat),
            text_options@,
        ),
        r.max_tokens == 10,
{
    let all_captions = sample_captions(captions, GPT_CAPTION_COUNT);
    ChatRequest { message: phrase_prompt(all_captions.as_str(), text_options), max_tokens: 10 }
}

} // verus!
