//! Clean-up and recognition of text read off the screen: the address bar
//! (is a YouTube video showing?), video titles, and titles made into file
//! names.
use vstd::prelude::*;
use crate::strings::{
    contains, has_char, lacks_all, occurs_at, lemma_replace_absent, lemma_replace_char_concat,
    lemma_replace_char_short, lemma_replace_char_step, lemma_replace_keeps_all_absent,
    lemma_replace_not_contained, lowercase, replace_all, str_contains, str_replace, to_lowercase,
};

verus! {

/// The address-bar text after the usual OCR mistakes are repaired.
pub open spec fn youtube_url_filtered(s: Seq<char>) -> Seq<char> {
    let s = replace_all(s, " "@, ""@);
    let s = replace_all(s, "|"@, "I"@);
    let s = replace_all(s, "\u{2018}"@, ""@);
    let s = replace_all(s, "`"@, ""@);
    let s = replace_all(s, ".comy"@, ".com/"@);
    let s = replace_all(s, "watchv="@, "watch?v="@);
    let s = replace_all(s, "becom"@, "be.com"@);
    replace_all(s, "comwatch"@, "com/watch"@)
}

/// A title after OCR noise, line breaks and quoting are taken out.
pub open spec fn title_text_filtered(s: Seq<char>) -> Seq<char> {
    let s = replace_all(s, "|"@, "I"@);
    let s = replace_all(s, "\u{2018}"@, ""@);
    let s = replace_all(s, "`"@, ""@);
    let s = replace_all(s, "\n"@, ""@);
    let s = replace_all(s, "\t"@, " "@);
    let s = replace_all(s, "\r"@, ""@);
    let s = replace_all(s, "\\\""@, ""@);
    let s = replace_all(s, "\""@, ""@);
    replace_all(s, "\\"@, ""@)
}

/// A text made fit to stand in a file name.
pub open spec fn path_cleaned(s: Seq<char>) -> Seq<char> {
    let s = replace_all(s, "."@, ""@);
    let s = replace_all(s, "/"@, ""@);
    let s = replace_all(s, "\\"@, ""@);
    let s = replace_all(s, ":"@, ""@);
    let s = replace_all(s, "*"@, ""@);
    let s = replace_all(s, "?"@, ""@);
    let s = replace_all(s, "\""@, "'"@);
    let s = replace_all(s, "<"@, ""@);
    let s = replace_all(s, ">"@, ""@);
    replace_all(s, "|"@, ""@)
}

/// The fragments of "youtube" that still show through the usual OCR errors.
pub open spec fn names_youtube(s: Seq<char>) -> bool {
    ||| contains(s, "outube"@)
    ||| contains(s, "autube"@)
    ||| contains(s, "ouuube"@)
    ||| contains(s, "ouiube"@)
    ||| contains(s, "oulube"@)
}

/// Whether the address-bar text shows a YouTube address: the lowercased,
/// repaired text holds one of the fragments of "youtube".
pub open spec fn is_youtube_text(s: Seq<char>) -> bool {
    names_youtube(youtube_url_filtered(lowercase(s)))
}

/// Title texts that are in fact the YouTube page's top bar.
pub open spec fn blacklisted_title(s: Seq<char>) -> bool {
    ||| contains(lowercase(s), "(%"@)
    ||| contains(s, "(\u{a2}"@)
    ||| contains(s, "(&"@)
    ||| contains(s, "search"@)
}

/// Whether the address-bar text shows a YouTube address.
pub fn is_youtube(text: &str) -> (r: bool)
    ensures
        r == is_youtube_text(text@),
{
    let lower = to_lowercase(text);
    let the_text = youtube_url_filter(lower.as_str());
    let s = the_text.as_str();
    str_contains(s, "outube") || str_contains(s, "autube") || str_contains(s, "ouuube")
        || str_contains(s, "ouiube") || str_contains(s, "oulube")
}

/// Whether a title text is in fact YouTube's top bar (its search box, or the
/// OCR debris around it).
pub fn title_text_blacklist(text: &str) -> (r: bool)
    ensures
        r == blacklisted_title(text@),
{
    let t = to_lowercase(text);
    str_contains(t.as_str(), "(%") || str_contains(text, "(\u{a2}") || str_contains(text, "(&")
        || str_contains(text, "search")
}

/// Repairs the usual OCR mistakes in an address-bar text.
pub fn youtube_url_filter(text: &str) -> (r: String)
    ensures
        r@ == youtube_url_filtered(text@),
{
    proof {
        reveal_strlit(" ");
        reveal_strlit("|");
        reveal_strlit("\u{2018}");
        reveal_strlit("`");
        reveal_strlit(".comy");
        reveal_strlit("watchv=");
        reveal_strlit("becom");
        reveal_strlit("comwatch");
    }
    let s = str_replace(text, " ", "");
    let s = str_replace(s.as_str(), "|", "I");
    let s = str_replace(s.as_str(), "\u{2018}", "");
    let s = str_replace(s.as_str(), "`", "");
    let s = str_replace(s.as_str(), ".comy", ".com/");
    let s = str_replace(s.as_str(), "watchv=", "watch?v=");
    let s = str_replace(s.as_str(), "becom", "be.com");
    str_replace(s.as_str(), "comwatch", "com/watch")
}

/// Takes OCR noise, line breaks and quoting out of a title.
pub fn title_text_filter(text: &str) -> (r: String)
    ensures
        r@ == title_text_filtered(text@),
{
    proof {
        reveal_strlit("|");
        reveal_strlit("\u{2018}");
        reveal_strlit("`");
        reveal_strlit("\n");
        reveal_strlit("\t");
        reveal_strlit("\r");
        reveal_strlit("\\\"");
        reveal_strlit("\"");
        reveal_strlit("\\");
    }
    let s = str_replace(text, "|", "I");
    let s = str_replace(s.as_str(), "\u{2018}", "");
    let s = str_replace(s.as_str(), "`", "");
    let s = str_replace(s.as_str(), "\n", "");
    let s = str_replace(s.as_str(), "\t", " ");
    let s = str_replace(s.as_str(), "\r", "");
    let s = str_replace(s.as_str(), "\\\"", "");
    let s = str_replace(s.as_str(), "\"", "");
    str_replace(s.as_str(), "\\", "")
}

/// Makes a text fit to stand in a file name.
pub fn path_clean(path: &str) -> (r: String)
    ensures
        r@ == path_cleaned(path@),
{
    proof {
        reveal_strlit(".");
        reveal_strlit("/");
        reveal_strlit("\\");
        reveal_strlit(":");
        reveal_strlit("*");
        reveal_strlit("?");
        reveal_strlit("\"");
        reveal_strlit("<");
        reveal_strlit(">");
        reveal_strlit("|");
    }
    let s = str_replace(path, ".", "");
    let s = str_replace(s.as_str(), "/", "");
    let s = str_replace(s.as_str(), "\\", "");
    let s = str_replace(s.as_str(), ":", "");
    let s = str_replace(s.as_str(), "*", "");
    let s = str_replace(s.as_str(), "?", "");
    let s = str_replace(s.as_str(), "\"", "'");
    let s = str_replace(s.as_str(), "<", "");
    let s = str_replace(s.as_str(), ">", "");
    str_replace(s.as_str(), "|", "")
}

/// The characters that file names may not hold and that `path_clean` takes out.
pub open spec fn path_forbidden() -> Seq<char> {
    seq!['.', '/', '\\', ':', '*', '?', '"', '<', '>', '|']
}

/// The characters that `title_text_filter` takes out of a title.
pub open spec fn title_noise() -> Seq<char> {
    seq!['|', '\u{2018}', '`', '\n', '\t', '\r', '"', '\\']
}

/// The characters that `youtube_url_filter` takes out of an address.
pub open spec fn url_noise() -> Seq<char> {
    seq![' ', '|', '\u{2018}', '`']
}

/// A cleaned path holds none of the characters that file names forbid.
pub proof fn lemma_path_clean_safe(s: Seq<char>)
    ensures
        lacks_all(path_cleaned(s), path_forbidden()),
{
    reveal_strlit("");
    reveal_strlit("'");
    reveal_strlit(".");
    reveal_strlit("/");
    reveal_strlit("\\");
    reveal_strlit(":");
    reveal_strlit("*");
    reveal_strlit("?");
    reveal_strlit("\"");
    reveal_strlit("<");
    reveal_strlit(">");
    reveal_strlit("|");
    let e = Seq::<char>::empty();
    assert(""@ =~= e);
    assert("'"@ =~= seq!['\'']);
    assert("."@ =~= seq!['.']);
    assert("/"@ =~= seq!['/']);
    assert("\\"@ =~= seq!['\\']);
    assert(":"@ =~= seq![':']);
    assert("*"@ =~= seq!['*']);
    assert("?"@ =~= seq!['?']);
    assert("\""@ =~= seq!['"']);
    assert("<"@ =~= seq!['<']);
    assert(">"@ =~= seq!['>']);
    assert("|"@ =~= seq!['|']);
    let c0 = Seq::<char>::empty();
    let s1 = replace_all(s, "."@, ""@);
    lemma_replace_char_step(s, '.', e, c0);
    let c1 = c0.push('.');
    let s2 = replace_all(s1, "/"@, ""@);
    lemma_replace_char_step(s1, '/', e, c1);
    let c2 = c1.push('/');
    let s3 = replace_all(s2, "\\"@, ""@);
    lemma_replace_char_step(s2, '\\', e, c2);
    let c3 = c2.push('\\');
    let s4 = replace_all(s3, ":"@, ""@);
    lemma_replace_char_step(s3, ':', e, c3);
    let c4 = c3.push(':');
    let s5 = replace_all(s4, "*"@, ""@);
    lemma_replace_char_step(s4, '*', e, c4);
    let c5 = c4.push('*');
    let s6 = replace_all(s5, "?"@, ""@);
    lemma_replace_char_step(s5, '?', e, c5);
    let c6 = c5.push('?');
    let s7 = replace_all(s6, "\""@, "'"@);
    assert(lacks_all(seq!['\''], c6)) by {
        assert forall|i: int| 0 <= i < c6.len() implies !has_char(seq!['\''], #[trigger] c6[i]) by {
            assert forall|k: int| 0 <= k < 1 implies seq!['\''][k] != c6[i] by {}
        }
    }
    assert(!has_char(seq!['\''], '"')) by {
        assert forall|k: int| 0 <= k < 1 implies seq!['\''][k] != '"' by {}
    }
    lemma_replace_char_step(s6, '"', seq!['\''], c6);
    let c7 = c6.push('"');
    let s8 = replace_all(s7, "<"@, ""@);
    lemma_replace_char_step(s7, '<', e, c7);
    let c8 = c7.push('<');
    let s9 = replace_all(s8, ">"@, ""@);
    lemma_replace_char_step(s8, '>', e, c8);
    let c9 = c8.push('>');
    lemma_replace_char_step(s9, '|', e, c9);
    let c10 = c9.push('|');
    assert(c10 =~= path_forbidden());
}

/// Cleaning a cleaned path changes nothing.
pub proof fn lemma_path_clean_idempotent(s: Seq<char>)
    ensures
        path_cleaned(path_cleaned(s)) == path_cleaned(s),
{
    let p = path_cleaned(s);
    lemma_path_clean_safe(s);
    let f = path_forbidden();
    assert(!has_char(p, f[0]));
    assert(!has_char(p, f[1]));
    assert(!has_char(p, f[2]));
    assert(!has_char(p, f[3]));
    assert(!has_char(p, f[4]));
    assert(!has_char(p, f[5]));
    assert(!has_char(p, f[6]));
    assert(!has_char(p, f[7]));
    assert(!has_char(p, f[8]));
    assert(!has_char(p, f[9]));
    reveal_strlit(".");
    reveal_strlit("/");
    reveal_strlit("\\");
    reveal_strlit(":");
    reveal_strlit("*");
    reveal_strlit("?");
    reveal_strlit("\"");
    reveal_strlit("<");
    reveal_strlit(">");
    reveal_strlit("|");
    lemma_replace_absent(p, "."@, ""@);
    lemma_replace_absent(p, "/"@, ""@);
    lemma_replace_absent(p, "\\"@, ""@);
    lemma_replace_absent(p, ":"@, ""@);
    lemma_replace_absent(p, "*"@, ""@);
    lemma_replace_absent(p, "?"@, ""@);
    lemma_replace_absent(p, "\""@, "'"@);
    lemma_replace_absent(p, "<"@, ""@);
    lemma_replace_absent(p, ">"@, ""@);
    lemma_replace_absent(p, "|"@, ""@);
}

/// A filtered title holds no OCR noise, line break, tab, double quote or
/// backslash.
pub proof fn lemma_title_text_filter_clean(s: Seq<char>)
    ensures
        lacks_all(title_text_filtered(s), title_noise()),
{
    reveal_strlit("");
    reveal_strlit(" ");
    reveal_strlit("I");
    reveal_strlit("|");
    reveal_strlit("\u{2018}");
    reveal_strlit("`");
    reveal_strlit("\n");
    reveal_strlit("\t");
    reveal_strlit("\r");
    reveal_strlit("\\\"");
    reveal_strlit("\"");
    reveal_strlit("\\");
    let e = Seq::<char>::empty();
    assert(""@ =~= e);
    assert(" "@ =~= seq![' ']);
    assert("I"@ =~= seq!['I']);
    assert("|"@ =~= seq!['|']);
    assert("\u{2018}"@ =~= seq!['\u{2018}']);
    assert("`"@ =~= seq!['`']);
    assert("\n"@ =~= seq!['\n']);
    assert("\t"@ =~= seq!['\t']);
    assert("\r"@ =~= seq!['\r']);
    assert("\""@ =~= seq!['"']);
    assert("\\"@ =~= seq!['\\']);
    let c0 = Seq::<char>::empty();
    assert(!has_char(seq!['I'], '|')) by {
        assert forall|k: int| 0 <= k < 1 implies seq!['I'][k] != '|' by {}
    }
    let s1 = replace_all(s, "|"@, "I"@);
    lemma_replace_char_step(s, '|', seq!['I'], c0);
    let c1 = c0.push('|');
    let s2 = replace_all(s1, "\u{2018}"@, ""@);
    lemma_replace_char_step(s1, '\u{2018}', e, c1);
    let c2 = c1.push('\u{2018}');
    let s3 = replace_all(s2, "`"@, ""@);
    lemma_replace_char_step(s2, '`', e, c2);
    let c3 = c2.push('`');
    let s4 = replace_all(s3, "\n"@, ""@);
    lemma_replace_char_step(s3, '\n', e, c3);
    let c4 = c3.push('\n');
    let s5 = replace_all(s4, "\t"@, " "@);
    assert(lacks_all(seq![' '], c4)) by {
        assert forall|i: int| 0 <= i < c4.len() implies !has_char(seq![' '], #[trigger] c4[i]) by {
            assert forall|k: int| 0 <= k < 1 implies seq![' '][k] != c4[i] by {}
        }
    }
    assert(!has_char(seq![' '], '\t')) by {
        assert forall|k: int| 0 <= k < 1 implies seq![' '][k] != '\t' by {}
    }
    lemma_replace_char_step(s4, '\t', seq![' '], c4);
    let c5 = c4.push('\t');
    let s6 = replace_all(s5, "\r"@, ""@);
    lemma_replace_char_step(s5, '\r', e, c5);
    let c6 = c5.push('\r');
    let s7 = replace_all(s6, "\\\""@, ""@);
    lemma_replace_keeps_all_absent(s6, "\\\""@, e, c6);
    let s8 = replace_all(s7, "\""@, ""@);
    lemma_replace_char_step(s7, '"', e, c6);
    let c7 = c6.push('"');
    lemma_replace_char_step(s8, '\\', e, c7);
    let c8 = c7.push('\\');
    assert(c8 =~= title_noise());
}

/// Filtering a filtered title changes nothing.
pub proof fn lemma_title_text_filter_idempotent(s: Seq<char>)
    ensures
        title_text_filtered(title_text_filtered(s)) == title_text_filtered(s),
{
    let t = title_text_filtered(s);
    lemma_title_text_filter_clean(s);
    let f = title_noise();
    assert(!has_char(t, f[0]));
    assert(!has_char(t, f[1]));
    assert(!has_char(t, f[2]));
    assert(!has_char(t, f[3]));
    assert(!has_char(t, f[4]));
    assert(!has_char(t, f[5]));
    assert(!has_char(t, f[6]));
    assert(!has_char(t, f[7]));
    reveal_strlit("|");
    reveal_strlit("\u{2018}");
    reveal_strlit("`");
    reveal_strlit("\n");
    reveal_strlit("\t");
    reveal_strlit("\r");
    reveal_strlit("\\\"");
    reveal_strlit("\"");
    reveal_strlit("\\");
    lemma_replace_absent(t, "|"@, "I"@);
    lemma_replace_absent(t, "\u{2018}"@, ""@);
    lemma_replace_absent(t, "`"@, ""@);
    lemma_replace_absent(t, "\n"@, ""@);
    lemma_replace_absent(t, "\t"@, " "@);
    lemma_replace_absent(t, "\r"@, ""@);
    lemma_replace_absent(t, "\\\""@, ""@);
    lemma_replace_absent(t, "\""@, ""@);
    lemma_replace_absent(t, "\\"@, ""@);
}

/// A repaired address holds no space, no `|`, no typographic quote and no
/// backtick.
pub proof fn lemma_youtube_url_filter_clean(s: Seq<char>)
    ensures
        lacks_all(youtube_url_filtered(s), url_noise()),
{
    reveal_strlit("");
    reveal_strlit(" ");
    reveal_strlit("I");
    reveal_strlit("|");
    reveal_strlit("\u{2018}");
    reveal_strlit("`");
    reveal_strlit(".comy");
    reveal_strlit(".com/");
    reveal_strlit("watchv=");
    reveal_strlit("watch?v=");
    reveal_strlit("becom");
    reveal_strlit("be.com");
    reveal_strlit("comwatch");
    reveal_strlit("com/watch");
    let e = Seq::<char>::empty();
    assert(""@ =~= e);
    assert(" "@ =~= seq![' ']);
    assert("I"@ =~= seq!['I']);
    assert("|"@ =~= seq!['|']);
    assert("\u{2018}"@ =~= seq!['\u{2018}']);
    assert("`"@ =~= seq!['`']);
    let c0 = Seq::<char>::empty();
    let s1 = replace_all(s, " "@, ""@);
    lemma_replace_char_step(s, ' ', e, c0);
    let c1 = c0.push(' ');
    let s2 = replace_all(s1, "|"@, "I"@);
    assert(lacks_all(seq!['I'], c1)) by {
        assert forall|i: int| 0 <= i < c1.len() implies !has_char(seq!['I'], #[trigger] c1[i]) by {
            assert forall|k: int| 0 <= k < 1 implies seq!['I'][k] != c1[i] by {}
        }
    }
    assert(!has_char(seq!['I'], '|')) by {
        assert forall|k: int| 0 <= k < 1 implies seq!['I'][k] != '|' by {}
    }
    lemma_replace_char_step(s1, '|', seq!['I'], c1);
    let c2 = c1.push('|');
    let s3 = replace_all(s2, "\u{2018}"@, ""@);
    lemma_replace_char_step(s2, '\u{2018}', e, c2);
    let c3 = c2.push('\u{2018}');
    let s4 = replace_all(s3, "`"@, ""@);
    lemma_replace_char_step(s3, '`', e, c3);
    let c4 = c3.push('`');
    assert(c4 =~= url_noise());
    assert(lacks_all(".com/"@, c4));
    assert(lacks_all("watch?v="@, c4));
    assert(lacks_all("be.com"@, c4));
    assert(lacks_all("com/watch"@, c4));
    let s5 = replace_all(s4, ".comy"@, ".com/"@);
    lemma_replace_keeps_all_absent(s4, ".comy"@, ".com/"@, c4);
    let s6 = replace_all(s5, "watchv="@, "watch?v="@);
    lemma_replace_keeps_all_absent(s5, "watchv="@, "watch?v="@, c4);
    let s7 = replace_all(s6, "becom"@, "be.com"@);
    lemma_replace_keeps_all_absent(s6, "becom"@, "be.com"@, c4);
    lemma_replace_keeps_all_absent(s7, "comwatch"@, "com/watch"@, c4);
}

/// The clean-up of a path as replacements of single characters.
spec fn path_chain(s: Seq<char>) -> Seq<char> {
    replace_all(replace_all(replace_all(replace_all(replace_all(replace_all(replace_all(replace_all(replace_all(replace_all(s, seq!['.'], Seq::<char>::empty()), seq!['/'], Seq::<char>::empty()), seq!['\\'], Seq::<char>::empty()), seq![':'], Seq::<char>::empty()), seq!['*'], Seq::<char>::empty()), seq!['?'], Seq::<char>::empty()), seq!['"'], seq!['\'']), seq!['<'], Seq::<char>::empty()), seq!['>'], Seq::<char>::empty()), seq!['|'], Seq::<char>::empty())
}

/// What `path_clean` makes of one character: a character that file names
/// forbid is dropped, except `"`, which becomes `'`; any other is kept.
pub open spec fn path_char(c: char) -> Seq<char> {
    if c == '"' {
        seq!['\'']
    } else if c == '.' || c == '/' || c == '\\' || c == ':' || c == '*' || c == '?' || c == '<'
        || c == '>' || c == '|' {
        Seq::empty()
    } else {
        seq![c]
    }
}

/// Every character of `s` put through `path_char`, in order.
pub open spec fn path_mapped(s: Seq<char>) -> Seq<char>
    decreases s.len(),
{
    if s.len() == 0 {
        s
    } else {
        path_char(s[0]) + path_mapped(s.subrange(1, s.len() as int))
    }
}


/// `path_chain` works on each part of a concatenation.
proof fn lemma_path_chain_concat(a: Seq<char>, b: Seq<char>)
    ensures
        path_chain(a + b) == path_chain(a) + path_chain(b),
{
    let a0 = a;
    let b0 = b;
    lemma_replace_char_concat(a0, b0, '.', Seq::<char>::empty());
    let a1 = replace_all(a0, seq!['.'], Seq::<char>::empty());
    let b1 = replace_all(b0, seq!['.'], Seq::<char>::empty());
    lemma_replace_char_concat(a1, b1, '/', Seq::<char>::empty());
    let a2 = replace_all(a1, seq!['/'], Seq::<char>::empty());
    let b2 = replace_all(b1, seq!['/'], Seq::<char>::empty());
    lemma_replace_char_concat(a2, b2, '\\', Seq::<char>::empty());
    let a3 = replace_all(a2, seq!['\\'], Seq::<char>::empty());
    let b3 = replace_all(b2, seq!['\\'], Seq::<char>::empty());
    lemma_replace_char_concat(a3, b3, ':', Seq::<char>::empty());
    let a4 = replace_all(a3, seq![':'], Seq::<char>::empty());
    let b4 = replace_all(b3, seq![':'], Seq::<char>::empty());
    lemma_replace_char_concat(a4, b4, '*', Seq::<char>::empty());
    let a5 = replace_all(a4, seq!['*'], Seq::<char>::empty());
    let b5 = replace_all(b4, seq!['*'], Seq::<char>::empty());
    lemma_replace_char_concat(a5, b5, '?', Seq::<char>::empty());
    let a6 = replace_all(a5, seq!['?'], Seq::<char>::empty());
    let b6 = replace_all(b5, seq!['?'], Seq::<char>::empty());
    lemma_replace_char_concat(a6, b6, '"', seq!['\'']);
    let a7 = replace_all(a6, seq!['"'], seq!['\'']);
    let b7 = replace_all(b6, seq!['"'], seq!['\'']);
    lemma_replace_char_concat(a7, b7, '<', Seq::<char>::empty());
    let a8 = replace_all(a7, seq!['<'], Seq::<char>::empty());
    let b8 = replace_all(b7, seq!['<'], Seq::<char>::empty());
    lemma_replace_char_concat(a8, b8, '>', Seq::<char>::empty());
    let a9 = replace_all(a8, seq!['>'], Seq::<char>::empty());
    let b9 = replace_all(b8, seq!['>'], Seq::<char>::empty());
    lemma_replace_char_concat(a9, b9, '|', Seq::<char>::empty());
    let a10 = replace_all(a9, seq!['|'], Seq::<char>::empty());
    let b10 = replace_all(b9, seq!['|'], Seq::<char>::empty());
}

/// `path_chain` of one character is `path_char` of it.
proof fn lemma_path_chain_char(x: char)
    ensures
        path_chain(seq![x]) == path_char(x),
{
    let u0 = seq![x];
    lemma_replace_char_short(u0, '.', Seq::<char>::empty());
    let u1 = replace_all(u0, seq!['.'], Seq::<char>::empty());
    lemma_replace_char_short(u1, '/', Seq::<char>::empty());
    let u2 = replace_all(u1, seq!['/'], Seq::<char>::empty());
    lemma_replace_char_short(u2, '\\', Seq::<char>::empty());
    let u3 = replace_all(u2, seq!['\\'], Seq::<char>::empty());
    lemma_replace_char_short(u3, ':', Seq::<char>::empty());
    let u4 = replace_all(u3, seq![':'], Seq::<char>::empty());
    lemma_replace_char_short(u4, '*', Seq::<char>::empty());
    let u5 = replace_all(u4, seq!['*'], Seq::<char>::empty());
    lemma_replace_char_short(u5, '?', Seq::<char>::empty());
    let u6 = replace_all(u5, seq!['?'], Seq::<char>::empty());
    lemma_replace_char_short(u6, '"', seq!['\'']);
    let u7 = replace_all(u6, seq!['"'], seq!['\'']);
    lemma_replace_char_short(u7, '<', Seq::<char>::empty());
    let u8 = replace_all(u7, seq!['<'], Seq::<char>::empty());
    lemma_replace_char_short(u8, '>', Seq::<char>::empty());
    let u9 = replace_all(u8, seq!['>'], Seq::<char>::empty());
    lemma_replace_char_short(u9, '|', Seq::<char>::empty());
    let u10 = replace_all(u9, seq!['|'], Seq::<char>::empty());
    assert(u10 =~= path_char(x));
}


/// `path_clean` works character by character: its result is every
/// character of the path put through `path_char`.
pub proof fn lemma_path_clean_per_char(s: Seq<char>)
    ensures
        path_cleaned(s) == path_mapped(s),
    decreases s.len(),
{
    lemma_path_chain_is_cleaned(s);
    if s.len() > 0 {
        let rest = s.subrange(1, s.len() as int);
        assert(s =~= seq![s[0]] + rest);
        lemma_path_chain_concat(seq![s[0]], rest);
        lemma_path_chain_char(s[0]);
        lemma_path_clean_per_char(rest);
        lemma_path_chain_is_cleaned(rest);
    }
}


/// `path_cleaned` is the chain of single-character replacements.
proof fn lemma_path_chain_is_cleaned(s: Seq<char>)
    ensures
        path_cleaned(s) == path_chain(s),
{
    reveal_strlit("");
    reveal_strlit("'");
    reveal_strlit(".");
    reveal_strlit("/");
    reveal_strlit("\\");
    reveal_strlit(":");
    reveal_strlit("*");
    reveal_strlit("?");
    reveal_strlit("\"");
    reveal_strlit("<");
    reveal_strlit(">");
    reveal_strlit("|");
    assert(""@ =~= Seq::<char>::empty());
    assert("'"@ =~= seq!['\'']);
    assert("."@ =~= seq!['.']);
    assert("/"@ =~= seq!['/']);
    assert("\\"@ =~= seq!['\\']);
    assert(":"@ =~= seq![':']);
    assert("*"@ =~= seq!['*']);
    assert("?"@ =~= seq!['?']);
    assert("\""@ =~= seq!['"']);
    assert("<"@ =~= seq!['<']);
    assert(">"@ =~= seq!['>']);
    assert("|"@ =~= seq!['|']);
}


/// The first six steps of the title filter, as single-character
/// replacements.
spec fn title_chain_a(s: Seq<char>) -> Seq<char> {
    replace_all(replace_all(replace_all(replace_all(replace_all(replace_all(s, seq!['|'], seq!['I']), seq!['\u{2018}'], Seq::<char>::empty()), seq!['`'], Seq::<char>::empty()), seq!['\n'], Seq::<char>::empty()), seq!['\t'], seq![' ']), seq!['\r'], Seq::<char>::empty())
}

/// The last two steps of the title filter: double quotes and backslashes
/// dropped.
spec fn title_chain_b(s: Seq<char>) -> Seq<char> {
    replace_all(replace_all(s, seq!['"'], Seq::<char>::empty()), seq!['\\'], Seq::<char>::empty())
}

/// What `title_text_filter` makes of one character: `|` becomes `I`, a tab
/// becomes a space, `‘`, backtick, line feed, carriage return, `"` and `\`
/// are dropped, and any other character is kept.
pub open spec fn title_char(c: char) -> Seq<char> {
    if c == '|' {
        seq!['I']
    } else if c == '\t' {
        seq![' ']
    } else if c == '\u{2018}' || c == '`' || c == '\n' || c == '\r' || c == '"' || c == '\\' {
        Seq::empty()
    } else {
        seq![c]
    }
}

/// Every character of `s` put through `title_char`, in order.
pub open spec fn title_mapped(s: Seq<char>) -> Seq<char>
    decreases s.len(),
{
    if s.len() == 0 {
        s
    } else {
        title_char(s[0]) + title_mapped(s.subrange(1, s.len() as int))
    }
}

/// Both halves of the title filter, as single-character replacements.
spec fn title_chain(s: Seq<char>) -> Seq<char> {
    title_chain_b(title_chain_a(s))
}


/// `title_chain_a` works on each part of a concatenation.
proof fn lemma_title_chain_a_concat(a: Seq<char>, b: Seq<char>)
    ensures
        title_chain_a(a + b) == title_chain_a(a) + title_chain_a(b),
{
    let a0 = a;
    let b0 = b;
    lemma_replace_char_concat(a0, b0, '|', seq!['I']);
    let a1 = replace_all(a0, seq!['|'], seq!['I']);
    let b1 = replace_all(b0, seq!['|'], seq!['I']);
    lemma_replace_char_concat(a1, b1, '\u{2018}', Seq::<char>::empty());
    let a2 = replace_all(a1, seq!['\u{2018}'], Seq::<char>::empty());
    let b2 = replace_all(b1, seq!['\u{2018}'], Seq::<char>::empty());
    lemma_replace_char_concat(a2, b2, '`', Seq::<char>::empty());
    let a3 = replace_all(a2, seq!['`'], Seq::<char>::empty());
    let b3 = replace_all(b2, seq!['`'], Seq::<char>::empty());
    lemma_replace_char_concat(a3, b3, '\n', Seq::<char>::empty());
    let a4 = replace_all(a3, seq!['\n'], Seq::<char>::empty());
    let b4 = replace_all(b3, seq!['\n'], Seq::<char>::empty());
    lemma_replace_char_concat(a4, b4, '\t', seq![' ']);
    let a5 = replace_all(a4, seq!['\t'], seq![' ']);
    let b5 = replace_all(b4, seq!['\t'], seq![' ']);
    lemma_replace_char_concat(a5, b5, '\r', Seq::<char>::empty());
    let a6 = replace_all(a5, seq!['\r'], Seq::<char>::empty());
    let b6 = replace_all(b5, seq!['\r'], Seq::<char>::empty());
}

/// `title_chain_b` works on each part of a concatenation.
proof fn lemma_title_chain_b_concat(a: Seq<char>, b: Seq<char>)
    ensures
        title_chain_b(a + b) == title_chain_b(a) + title_chain_b(b),
{
    let a0 = a;
    let b0 = b;
    lemma_replace_char_concat(a0, b0, '"', Seq::<char>::empty());
    let a1 = replace_all(a0, seq!['"'], Seq::<char>::empty());
    let b1 = replace_all(b0, seq!['"'], Seq::<char>::empty());
    lemma_replace_char_concat(a1, b1, '\\', Seq::<char>::empty());
    let a2 = replace_all(a1, seq!['\\'], Seq::<char>::empty());
    let b2 = replace_all(b1, seq!['\\'], Seq::<char>::empty());
}

/// `title_chain` of one character is `title_char` of it.
proof fn lemma_title_chain_char(x: char)
    ensures
        title_chain(seq![x]) == title_char(x),
{
    let u0 = seq![x];
    lemma_replace_char_short(u0, '|', seq!['I']);
    let u1 = replace_all(u0, seq!['|'], seq!['I']);
    lemma_replace_char_short(u1, '\u{2018}', Seq::<char>::empty());
    let u2 = replace_all(u1, seq!['\u{2018}'], Seq::<char>::empty());
    lemma_replace_char_short(u2, '`', Seq::<char>::empty());
    let u3 = replace_all(u2, seq!['`'], Seq::<char>::empty());
    lemma_replace_char_short(u3, '\n', Seq::<char>::empty());
    let u4 = replace_all(u3, seq!['\n'], Seq::<char>::empty());
    lemma_replace_char_short(u4, '\t', seq![' ']);
    let u5 = replace_all(u4, seq!['\t'], seq![' ']);
    lemma_replace_char_short(u5, '\r', Seq::<char>::empty());
    let u6 = replace_all(u5, seq!['\r'], Seq::<char>::empty());
    lemma_replace_char_short(u6, '"', Seq::<char>::empty());
    let u7 = replace_all(u6, seq!['"'], Seq::<char>::empty());
    lemma_replace_char_short(u7, '\\', Seq::<char>::empty());
    let u8 = replace_all(u7, seq!['\\'], Seq::<char>::empty());
    assert(u8 =~= title_char(x));
}


/// Dropping a backslash followed by a double quote changes nothing once
/// every double quote and backslash is dropped anyway.
proof fn lemma_title_pair_step(u: Seq<char>)
    ensures
        title_chain_b(replace_all(u, seq!['\\', '"'], Seq::empty())) == title_chain_b(u),
    decreases u.len(),
{
    let p = seq!['\\', '"'];
    let e = Seq::<char>::empty();
    if u.len() > 0 {
        if 2 <= u.len() && u.subrange(0, 2) == p {
            let rest = u.subrange(2, u.len() as int);
            lemma_title_pair_step(rest);
            assert(u =~= p + rest);
            lemma_title_chain_b_concat(p, rest);
            assert(p =~= seq!['\\'] + seq!['"']);
            lemma_title_chain_b_concat(seq!['\\'], seq!['"']);
            lemma_title_chain_b_char('\\');
            lemma_title_chain_b_char('"');
            assert(replace_all(u, p, e) == e + replace_all(rest, p, e));
            assert(e + replace_all(rest, p, e) =~= replace_all(rest, p, e));
            assert(title_chain_b(p) =~= e);
        } else {
            let rest = u.subrange(1, u.len() as int);
            lemma_title_pair_step(rest);
            assert(u =~= seq![u[0]] + rest);
            assert(replace_all(u, p, e) == seq![u[0]] + replace_all(rest, p, e));
            lemma_title_chain_b_concat(seq![u[0]], replace_all(rest, p, e));
            lemma_title_chain_b_concat(seq![u[0]], rest);
        }
    }
}

/// The last two steps of the title filter on one character.
proof fn lemma_title_chain_b_char(x: char)
    ensures
        title_chain_b(seq![x]) == (if x == '"' || x == '\\' {
            Seq::<char>::empty()
        } else {
            seq![x]
        }),
{
    let e = Seq::<char>::empty();
    let u0 = seq![x];
    lemma_replace_char_short(u0, '"', e);
    let u1 = replace_all(u0, seq!['"'], e);
    lemma_replace_char_short(u1, '\\', e);
}

/// The title filter is the chain of single-character replacements: the
/// pair step in between changes nothing.
proof fn lemma_title_chain_is_filtered(s: Seq<char>)
    ensures
        title_text_filtered(s) == title_chain(s),
{
    reveal_strlit("");
    reveal_strlit(" ");
    reveal_strlit("I");
    reveal_strlit("|");
    reveal_strlit("\u{2018}");
    reveal_strlit("`");
    reveal_strlit("\n");
    reveal_strlit("\t");
    reveal_strlit("\r");
    reveal_strlit("\\\"");
    reveal_strlit("\"");
    reveal_strlit("\\");
    assert(""@ =~= Seq::<char>::empty());
    assert(" "@ =~= seq![' ']);
    assert("I"@ =~= seq!['I']);
    assert("|"@ =~= seq!['|']);
    assert("\u{2018}"@ =~= seq!['\u{2018}']);
    assert("`"@ =~= seq!['`']);
    assert("\n"@ =~= seq!['\n']);
    assert("\t"@ =~= seq!['\t']);
    assert("\r"@ =~= seq!['\r']);
    assert("\\\""@ =~= seq!['\\', '"']);
    assert("\""@ =~= seq!['"']);
    assert("\\"@ =~= seq!['\\']);
    lemma_title_pair_step(title_chain_a(s));
}

/// `title_text_filter` works character by character: its result is every
/// character of the title put through `title_char`.
pub proof fn lemma_title_text_filter_per_char(s: Seq<char>)
    ensures
        title_text_filtered(s) == title_mapped(s),
    decreases s.len(),
{
    lemma_title_chain_is_filtered(s);
    if s.len() > 0 {
        let rest = s.subrange(1, s.len() as int);
        assert(s =~= seq![s[0]] + rest);
        lemma_title_chain_a_concat(seq![s[0]], rest);
        lemma_title_chain_b_concat(title_chain_a(seq![s[0]]), title_chain_a(rest));
        lemma_title_chain_char(s[0]);
        lemma_title_text_filter_per_char(rest);
        lemma_title_chain_is_filtered(rest);
    }
}

/// The filtered title is never longer than the title.
pub proof fn lemma_title_text_filter_shortens(s: Seq<char>)
    ensures
        title_text_filtered(s).len() <= s.len(),
{
    lemma_title_text_filter_per_char(s);
    lemma_title_mapped_len(s);
}

/// Every character puts at most one character into `title_mapped`.
proof fn lemma_title_mapped_len(s: Seq<char>)
    ensures
        title_mapped(s).len() <= s.len(),
    decreases s.len(),
{
    if s.len() > 0 {
        lemma_title_mapped_len(s.subrange(1, s.len() as int));
    }
}

/// An address with none of the noise characters and none of the broken
/// fragments that the filter repairs comes out unchanged.
pub proof fn lemma_youtube_url_filter_keeps_clean(s: Seq<char>)
    requires
        lacks_all(s, url_noise()),
        !contains(s, ".comy"@),
        !contains(s, "watchv="@),
        !contains(s, "becom"@),
        !contains(s, "comwatch"@),
    ensures
        youtube_url_filtered(s) == s,
{
    reveal_strlit(" ");
    reveal_strlit("|");
    reveal_strlit("\u{2018}");
    reveal_strlit("`");
    reveal_strlit(".comy");
    reveal_strlit("watchv=");
    reveal_strlit("becom");
    reveal_strlit("comwatch");
    let f = url_noise();
    assert(!has_char(s, f[0]));
    assert(!has_char(s, f[1]));
    assert(!has_char(s, f[2]));
    assert(!has_char(s, f[3]));
    lemma_replace_absent(s, " "@, ""@);
    lemma_replace_absent(s, "|"@, "I"@);
    lemma_replace_absent(s, "\u{2018}"@, ""@);
    lemma_replace_absent(s, "`"@, ""@);
    lemma_replace_not_contained(s, ".comy"@, ".com/"@);
    lemma_replace_not_contained(s, "watchv="@, "watch?v="@);
    lemma_replace_not_contained(s, "becom"@, "be.com"@);
    lemma_replace_not_contained(s, "comwatch"@, "com/watch"@);
}

/// Whatever else the repaired, lowercased address holds, it is taken for
/// YouTube as soon as one of the fragments "outube", "autube", "ouuube",
/// "ouiube" or "oulube" occurs in it.
pub proof fn lemma_is_youtube_on_any_fragment(s: Seq<char>, a: Seq<char>, f: Seq<char>, b: Seq<char>)
    requires
        f == "outube"@ || f == "autube"@ || f == "ouuube"@ || f == "ouiube"@ || f == "oulube"@,
        youtube_url_filtered(lowercase(s)) == a + f + b,
    ensures
        is_youtube_text(s),
{
    let u = a + f + b;
    assert(u.subrange(a.len() as int, (a.len() + f.len()) as int) =~= f);
    assert(occurs_at(u, f, a.len() as int));
}

/// An address is taken for YouTube only when one of the fragments occurs in
/// its repaired, lowercased text.
pub proof fn lemma_is_youtube_needs_fragment(s: Seq<char>)
    requires
        is_youtube_text(s),
    ensures
        exists|i: int|
            occurs_at(youtube_url_filtered(lowercase(s)), "outube"@, i) || occurs_at(
                youtube_url_filtered(lowercase(s)),
                "autube"@,
                i,
            ) || occurs_at(youtube_url_filtered(lowercase(s)), "ouuube"@, i) || occurs_at(
                youtube_url_filtered(lowercase(s)),
                "ouiube"@,
                i,
            ) || occurs_at(youtube_url_filtered(lowercase(s)), "oulube"@, i),
{
}

} // verus!
