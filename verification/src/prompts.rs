//! The questions put to a language model: which captions go into a prompt,
//! and the prompts themselves.
use vstd::prelude::*;

verus! {

/// A request to a chat model: the user message and the most tokens the
/// reply may use.
pub struct ChatRequest {
    pub message: String,
    pub max_tokens: usize,
}

/// The captions `c[0]`, `c[step]`, ..., `c[step * (k - 1)]`, each followed
/// by a space.
pub open spec fn spaced_captions(c: Seq<Seq<char>>, step: nat, k: nat) -> Seq<char>
    decreases k,
{
    if k == 0 {
        Seq::empty()
    } else {
        spaced_captions(c, step, (k - 1) as nat) + c[step * (k - 1)] + seq![' ']
    }
}

/// Evenly spread captions, at most `count` of them: with `n` captions and
/// `r = min(count, n)`, every `(n / r)`-th caption from the first, `r` in all,
/// each followed by a space.
pub open spec fn sampled_captions(c: Seq<Seq<char>>, count: nat) -> Seq<char> {
    let r = if count < c.len() {
        count
    } else {
        c.len()
    };
    if r == 0 {
        Seq::empty()
    } else {
        spaced_captions(c, c.len() / r, r)
    }
}

/// The index of the `i`-th sampled caption lies inside the list.
proof fn lemma_sample_index(n: int, r: int, i: int)
    requires
        0 < r <= n,
        0 <= i < r,
    ensures
        0 <= (n / r) * i < n,
{
    let q = n / r;
    assert(q * r <= n && q >= 1) by (nonlinear_arith)
        requires
            0 < r <= n,
            q == n / r,
    ;
    assert(0 <= q * i <= q * (r - 1)) by (nonlinear_arith)
        requires
            0 <= i < r,
            q >= 1,
    ;
    assert(q * (r - 1) == q * r - q) by (nonlinear_arith);
}

/// Joins evenly spread captions, at most `count` of them, each followed by
/// a space.
pub fn sample_captions(captions: &Vec<String>, count: usize) -> (r: String)
    ensures
        r@ == sampled_captions(captions.deep_view(), count as nat),
{
    let ghost c = captions.deep_view();
    let length = captions.len();
    let range = if count < length {
        count
    } else {
        length
    };
    let mut all = String::new();
    if range == 0 {
        return all;
    }
    let step = length / range;
    let mut i: usize = 0;
    while i < range
        invariant
            c == captions.deep_view(),
            length == captions.len(),
            0 < range <= length,
            step == length / range,
            i <= range,
            all@ == spaced_captions(c, step as nat, i as nat),
        decreases range - i,
    {
        proof {
            lemma_sample_index(length as int, range as int, i as int);
        }
        let index = step * i;
        all.append(captions[index].as_str());
        all.append(" ");
        proof {
            reveal_strlit(" ");
            assert(c[index as int] == captions@[index as int]@);
        }
        assert(all@ =~= spaced_captions(c, step as nat, (i + 1) as nat));
        i = i + 1;
    }
    all
}

/// The question whether a text is English, to be answered yes or no.
pub open spec fn english_prompt_text(text: Seq<char>) -> Seq<char> {
    "Is the following text primarily made up of English words?"@
        + " Please only reply with the word 'yes' or 'no': "@ + text
}

/// The question whether `text` is mostly English words.
pub fn english_prompt(text: &str) -> (r: String)
    ensures
        r@ == english_prompt_text(text@),
{
    let mut r = "Is the following text primarily made up of English words?".to_owned();
    r.append(" Please only reply with the word 'yes' or 'no': ");
    r.append(text);
    r
}

/// The question that asks for the title of the video reacted to.
pub open spec fn title_prompt_text(captions: Seq<char>) -> Seq<char> {
    "I have a lot of text gathered from a video. The video\n        is of a Twitch streamer reacting to a video. The text\n        will include captions of both the streamer reacting\n        and the video being watched itself. Here are the captions:\n        "@
        + captions
        + ". Based on those captions, what short and \n        what would you guess is the title of video that is being\n        reacted to? Reply with only the text 'Hasan reacts to' followed\n        by your video title guess."@
}

/// Asks for the title of the video reacted to, given joined captions.
pub fn title_prompt(all_captions: &str) -> (r: String)
    ensures
        r@ == title_prompt_text(all_captions@),
{
    let mut r = "I have a lot of text gathered from a video. The video\n        is of a Twitch streamer reacting to a video. The text\n        will include captions of both the streamer reacting\n        and the video being watched itself. Here are the captions:\n        ".to_owned();
    r.append(all_captions);
    r.append(". Based on those captions, what short and \n        what would you guess is the title of video that is being\n        reacted to? Reply with only the text 'Hasan reacts to' followed\n        by your video title guess.");
    r
}

/// The question that asks which of the given phrases fits the video.
pub open spec fn phrase_prompt_text(captions: Seq<char>, options: Seq<char>) -> Seq<char> {
    "I have a lot of text gathered from a video. The video\n        is of a Twitch streamer reacting to a video. The text\n        will include captions of both the streamer reacting\n        and the video being watched itself. Here are the captions:\n        "@
        + captions
        + ". I also have a list of phrases to choose from,\n        which is as follows: "@
        + options
        + ". Based on those captions,\n        and sourcing from those phrase options, which phrase would you say\n        fits the video based on the captions? Reply with only the text\n        of what phrase you think is best. No explaining it, no preceding it\n        or posting after it, only the text itself."@
}

/// Asks which of `text_options` fits the video, given joined captions.
pub fn phrase_prompt(all_captions: &str, text_options: &str) -> (r: String)
    ensures
        r@ == phrase_prompt_text(all_captions@, text_options@),
{
    let mut r = "I have a lot of text gathered from a video. The video\n        is of a Twitch streamer reacting to a video. The text\n        will include captions of both the streamer reacting\n        and the video being watched itself. Here are the captions:\n        ".to_owned();
    r.append(all_captions);
    r.append(". I also have a list of phrases to choose from,\n        which is as follows: ");
    r.append(text_options);
    r.append(". Based on those captions,\n        and sourcing from those phrase options, which phrase would you say\n        fits the video based on the captions? Reply with only the text\n        of what phrase you think is best. No explaining it, no preceding it\n        or posting after it, only the text itself.");
    r
}

} // verus!
