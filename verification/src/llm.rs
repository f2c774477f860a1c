//! The language model run in-process: the requests made of it, how its
//! answers are read, and the bounded search for an acceptable video title.
use vstd::prelude::*;
use vstd::utf8::encode_utf8;
use crate::prompts::{
    english_prompt, english_prompt_text, phrase_prompt, phrase_prompt_text, sample_captions,
    sampled_captions, title_prompt, title_prompt_text, ChatRequest,
};
use crate::strings::{
    contains, first_chars, first_n_chars, lowercase, occurs_at, replace_all, str_contains,
    str_replace, to_lowercase,
};
use crate::text::{title_text_filter, title_text_filtered};

verus! {

/// How many replies of the model are tried before the title search gives up.
pub const TITLE_ATTEMPTS: usize = 5;

/// How many captions at most go into a prompt for the in-process model.
pub const CAPTION_COUNT: usize = 20;

/// The answer read as "yes": its first eight characters, lowercased and
/// without double quotes, hold "yes" ("yes" wins where "no" is there too, and
/// anything else reads as no).
pub open spec fn says_yes(text: Seq<char>) -> bool {
    contains(first_chars(replace_all(lowercase(text), "\""@, ""@), 8), "yes"@)
}

/// Reads a yes/no answer of the model.
pub fn parse_yes_no(text: &str) -> (r: bool)
    ensures
        r == says_yes(text@),
{
    proof {
        reveal_strlit("\"");
    }
    let lower = to_lowercase(text);
    let filtered_text = str_replace(lower.as_str(), "\"", "");
    let start_text = first_n_chars(filtered_text.as_str(), 8);
    let yes = str_contains(start_text.as_str(), "yes");
    let no = str_contains(start_text.as_str(), "no");
    if yes || no {
        return yes;
    }
    false
}

/// The request that asks the model whether `text` is mostly English words;
/// its reply is read with `parse_yes_no`.
pub fn english_check(text: &str) -> (r: ChatRequest)
    ensures
        r.message@ == english_prompt_text(text@),
        r.max_tokens == 10,
{
    ChatRequest { message: english_prompt(text), max_tokens: 10 }
}

/// The request that asks the model which of `text_options` fits the video,
/// from evenly spread captions.
pub fn choose_text(text_options: &str, captions: &Vec<String>) -> (r: ChatRequest)
    ensures
        r.message@ == phrase_prompt_text(
            sampled_captions(captions.deep_view(), CAPTION_COUNT as nat),
            text_options@,
        ),
        r.max_tokens == 10,
{
    let all_captions = sample_captions(captions, CAPTION_COUNT);
    ChatRequest { message: phrase_prompt(all_captions.as_str(), text_options), max_tokens: 10 }
}

/// The title a reply offers, if it is acceptable: the filtered reply, when
/// it starts with "hasan reacts" in any case and takes 1 to 99 bytes.
pub open spec fn offered_title(response: Seq<char>) -> Option<Seq<char>> {
    let t = title_text_filtered(response);
    let n = encode_utf8(t).len();
    if first_chars(lowercase(t), 12) == "hasan reacts"@ && 0 < n && n < 100 {
        Some(t)
    } else {
        None
    }
}

/// Reads a title out of one reply of the model, if the reply is acceptable.
pub fn accept_title(response: &str) -> (r: Option<String>)
    ensures
        r is None <==> offered_title(response@) is None,
        r matches Some(t) ==> offered_title(response@) == Some(t@),
{
    let filtered = title_text_filter(response);
    let lower = to_lowercase(filtered.as_str());
    let start = first_n_chars(lower.as_str(), 12);
    let expected = "hasan reacts".to_owned();
    let len = filtered.as_str().as_bytes().len();
    if start == expected && len > 0 && len < 100 {
        Some(filtered)
    } else {
        None
    }
}

/// A search for a video title: the request to put to the model again and
/// again, how many of its replies were read, and the title found, if any.
pub struct TitleAttempts {
    pub request: ChatRequest,
    pub tried: usize,
    pub found: Option<String>,
}

impl TitleAttempts {
    /// Whether another reply is to be asked for: no title found yet, and
    /// fewer than `TITLE_ATTEMPTS` replies read.
    pub fn can_try(&self) -> (r: bool)
        ensures
            r == (self.found is None && self.tried < TITLE_ATTEMPTS),
    {
        self.found.is_none() && self.tried < TITLE_ATTEMPTS
    }

    /// Reads one more reply of the model. Each reply counts as one attempt;
    /// the title it offers, if acceptable, is kept as the search's result and
    /// ends the search.
    pub fn offer(&mut self, response: &str)
        requires
            old(self).found is None,
            old(self).tried < TITLE_ATTEMPTS,
        ensures
            final(self).tried == old(self).tried + 1,
            final(self).request == old(self).request,
            final(self).found is None <==> offered_title(response@) is None,
            final(self).found matches Some(t) ==> offered_title(response@) == Some(t@),
    {
        self.tried = self.tried + 1;
        self.found = accept_title(response);
    }
}

/// Starts the search for the title of the video reacted to: the model is
/// asked for a title from evenly spread captions, nothing read yet.
pub fn generate_title(captions: &Vec<String>) -> (r: TitleAttempts)
    ensures
        r.request.message@ == title_prompt_text(
            sampled_captions(captions.deep_view(), CAPTION_COUNT as nat),
        ),
        r.request.max_tokens == 100,
        r.tried == 0,
        r.found is None,
{
    let all_captions = sample_captions(captions, CAPTION_COUNT);
    TitleAttempts {
        request: ChatRequest { message: title_prompt(all_captions.as_str()), max_tokens: 100 },
        tried: 0,
        found: None,
    }
}

/// The answer without double quotes, lowercased: what the yes/no reading
/// looks at.
pub open spec fn cleaned_answer_text(text: Seq<char>) -> Seq<char> {
    replace_all(lowercase(text), "\""@, ""@)
}

/// Only the first eight characters of the cleaned answer matter: two
/// answers that agree on them read alike, whatever follows.
pub proof fn lemma_yes_no_reads_eight_chars(a: Seq<char>, b: Seq<char>)
    requires
        first_chars(cleaned_answer_text(a), 8) == first_chars(cleaned_answer_text(b), 8),
    ensures
        says_yes(a) == says_yes(b),
{
}

/// An answer whose cleaned text starts with "yes" reads as yes, however long
/// it is and whatever follows.
pub proof fn lemma_yes_first_reads_yes(a: Seq<char>)
    requires
        cleaned_answer_text(a).len() >= 3,
        cleaned_answer_text(a).subrange(0, 3) == "yes"@,
    ensures
        says_yes(a),
{
    let c = cleaned_answer_text(a);
    let p = first_chars(c, 8);
    reveal_strlit("yes");
    assert(p.subrange(0, 3) =~= c.subrange(0, 3));
    assert(occurs_at(p, "yes"@, 0));
}

/// An answer reads as yes exactly when "yes" occurs in its cleaned text at
/// a place that ends within the first eight characters, wherever in them.
pub proof fn lemma_yes_within_eight_chars(a: Seq<char>)
    ensures
        says_yes(a) <==> exists|i: int|
            0 <= i && i + 3 <= 8 && #[trigger] occurs_at(cleaned_answer_text(a), "yes"@, i),
{
    reveal_strlit("yes");
    let c = cleaned_answer_text(a);
    let p = first_chars(c, 8);
    if says_yes(a) {
        let i = choose|i: int| occurs_at(p, "yes"@, i);
        assert(c.subrange(i, i + 3) =~= p.subrange(i, i + 3));
        assert(occurs_at(c, "yes"@, i));
    }
    if exists|i: int| 0 <= i && i + 3 <= 8 && #[trigger] occurs_at(c, "yes"@, i) {
        let i = choose|i: int| 0 <= i && i + 3 <= 8 && #[trigger] occurs_at(c, "yes"@, i);
        assert(p.subrange(i, i + 3) =~= c.subrange(i, i + 3));
        assert(occurs_at(p, "yes"@, i));
    }
}

/// A reply is accepted only when its filtered text starts, in any letter
/// case, with "hasan reacts" and takes 1 to 99 bytes; what is accepted is
/// that filtered text.
pub proof fn lemma_accepted_reply_starts_hasan_reacts(response: Seq<char>)
    requires
        offered_title(response) is Some,
    ensures
        offered_title(response) == Some(title_text_filtered(response)),
        first_chars(lowercase(title_text_filtered(response)), 12) == "hasan reacts"@,
        0 < encode_utf8(title_text_filtered(response)).len() < 100,
{
}

/// A reply whose filtered text starts, in any letter case, with the twelve
/// characters "hasan reacts" and takes 1 to 99 bytes is accepted as it
/// stands, whatever follows those twelve characters.
pub proof fn lemma_accepts_hasan_reacts(response: Seq<char>)
    requires
        first_chars(lowercase(title_text_filtered(response)), 12) == "hasan reacts"@,
        0 < encode_utf8(title_text_filtered(response)).len() < 100,
    ensures
        offered_title(response) == Some(title_text_filtered(response)),
{
}

/// Acceptance looks only at the first twelve lowercased characters of the
/// filtered reply and at its length: two replies of 1 to 99 bytes that agree
/// on those characters are both accepted or both refused.
pub proof fn lemma_acceptance_reads_twelve_chars(r1: Seq<char>, r2: Seq<char>)
    requires
        first_chars(lowercase(title_text_filtered(r1)), 12) == first_chars(
            lowercase(title_text_filtered(r2)),
            12,
        ),
        0 < encode_utf8(title_text_filtered(r1)).len() < 100,
        0 < encode_utf8(title_text_filtered(r2)).len() < 100,
    ensures
        offered_title(r1) is Some <==> offered_title(r2) is Some,
{
}

} // verus!
