//! The choices behind a thumbnail: the caption texts it may carry, read
//! from a text file one per line, and a random pick among texts and faces, and the caption image.
use rand::rngs::StdRng;
use rand::seq::SliceRandom;
use rand::SeedableRng;
use text_to_png::TextRenderer;
use vstd::prelude::*;
use crate::strings::{chars_of, string_of};

verus! {

/// The pieces of `s` between its line feeds, in order: one more piece than
/// there are line feeds, empty pieces included.
pub open spec fn split_lines_spec(s: Seq<char>) -> Seq<Seq<char>>
    decreases s.len(),
{
    if s.len() == 0 {
        seq![Seq::<char>::empty()]
    } else {
        let rest = split_lines_spec(s.subrange(1, s.len() as int));
        if s[0] == '\n' {
            seq![Seq::<char>::empty()] + rest
        } else {
            rest.update(0, seq![s[0]] + rest[0])
        }
    }
}

/// The pieces joined back together, a line feed between each two.
pub open spec fn join_lines(pieces: Seq<Seq<char>>) -> Seq<char>
    decreases pieces.len(),
{
    if pieces.len() <= 1 {
        if pieces.len() == 0 {
            Seq::empty()
        } else {
            pieces[0]
        }
    } else {
        pieces[0] + seq!['\n'] + join_lines(pieces.subrange(1, pieces.len() as int))
    }
}

/// `c` put before the first piece.
pub open spec fn prepend_first(c: Seq<char>, pieces: Seq<Seq<char>>) -> Seq<Seq<char>> {
    pieces.update(0, c + pieces[0])
}

/// Splitting always gives at least one piece.
proof fn lemma_split_nonempty(s: Seq<char>)
    ensures
        split_lines_spec(s).len() >= 1,
    decreases s.len(),
{
    if s.len() > 0 {
        lemma_split_nonempty(s.subrange(1, s.len() as int));
    }
}

/// No piece holds a line feed, and joining the pieces with line feeds gives
/// back the text that was split.
pub proof fn lemma_split_lines_join(s: Seq<char>)
    ensures
        join_lines(split_lines_spec(s)) == s,
        forall|i: int, k: int|
            0 <= i < split_lines_spec(s).len() && 0 <= k < split_lines_spec(s)[i].len()
                ==> #[trigger] split_lines_spec(s)[i][k] != '\n',
    decreases s.len(),
{
    if s.len() > 0 {
        let t = s.subrange(1, s.len() as int);
        let rest = split_lines_spec(t);
        lemma_split_lines_join(t);
        lemma_split_nonempty(t);
        let p = split_lines_spec(s);
        if s[0] == '\n' {
            let e = Seq::<char>::empty();
            assert(p == seq![e] + rest);
            assert(p.subrange(1, p.len() as int) =~= rest);
            assert(join_lines(p) == e + seq!['\n'] + join_lines(rest));
            assert(seq!['\n'] + t =~= s);
            assert(e + seq!['\n'] + t =~= s);
            assert forall|i: int, k: int|
                0 <= i < p.len() && 0 <= k < p[i].len() implies #[trigger] p[i][k] != '\n' by {
                if i > 0 {
                    assert(p[i] == rest[i - 1]);
                }
            }
        } else {
            assert(p == rest.update(0, seq![s[0]] + rest[0]));
            if rest.len() == 1 {
                assert(join_lines(p) == p[0]);
                assert(join_lines(rest) == rest[0]);
                assert(seq![s[0]] + t =~= s);
            } else {
                assert(p.subrange(1, p.len() as int) =~= rest.subrange(1, rest.len() as int));
                assert(join_lines(p) == p[0] + seq!['\n'] + join_lines(p.subrange(1, p.len() as int)));
                assert(join_lines(rest) == rest[0] + seq!['\n'] + join_lines(rest.subrange(1, rest.len() as int)));
                assert(seq![s[0]] + t =~= s);
                assert(join_lines(p) =~= seq![s[0]] + join_lines(rest));
            }
            assert forall|i: int, k: int|
                0 <= i < p.len() && 0 <= k < p[i].len() implies #[trigger] p[i][k] != '\n' by {
                if i == 0 {
                    if k > 0 {
                        assert(p[0][k] == rest[0][k - 1]);
                    }
                } else {
                    assert(p[i] == rest[i]);
                }
            }
        }
    }
}

/// One character more of the text, as the splitting loop consumes it.
proof fn lemma_split_step(s: Seq<char>, i: int, c: Seq<char>)
    requires
        0 <= i < s.len(),
    ensures
        ({
            let rest = split_lines_spec(s.subrange(i + 1, s.len() as int));
            let here = prepend_first(c, split_lines_spec(s.subrange(i, s.len() as int)));
            if s[i] == '\n' {
                here == seq![c] + prepend_first(Seq::empty(), rest)
            } else {
                here == prepend_first(c.push(s[i]), rest)
            }
        }),
{
    let t = s.subrange(i, s.len() as int);
    let u = s.subrange(i + 1, s.len() as int);
    assert(t.subrange(1, t.len() as int) =~= u);
    assert(t[0] == s[i]);
    let rest = split_lines_spec(u);
    lemma_split_nonempty(u);
    if s[i] == '\n' {
        let e = Seq::<char>::empty();
        assert(prepend_first(e, rest) =~= rest);
        assert(prepend_first(c, seq![e] + rest) =~= seq![c] + rest);
    } else {
        assert(c + (seq![s[i]] + rest[0]) =~= c.push(s[i]) + rest[0]);
        assert(prepend_first(c, rest.update(0, seq![s[i]] + rest[0])) =~= prepend_first(
            c.push(s[i]),
            rest,
        ));
    }
}

/// The lines of a text file: the pieces between its line feeds.
pub fn text_options(raw: &str) -> (r: Vec<String>)
    ensures
        r.deep_view() == split_lines_spec(raw@),
{
    let v = chars_of(raw);
    let ghost s = v@;
    let mut done: Vec<String> = Vec::new();
    let mut cur: Vec<char> = Vec::new();
    let mut i: usize = 0;
    assert(s.subrange(0, s.len() as int) =~= s);
    proof {
        lemma_split_nonempty(s);
        assert(prepend_first(Seq::empty(), split_lines_spec(s)) =~= split_lines_spec(s));
    }
    while i < v.len()
        invariant
            s == v@,
            i <= v.len(),
            split_lines_spec(s) == done.deep_view() + prepend_first(
                cur@,
                split_lines_spec(s.subrange(i as int, s.len() as int)),
            ),
        decreases v.len() - i,
    {
        proof {
            lemma_split_step(s, i as int, cur@);
        }
        let ghost before = done.deep_view();
        let ghost old_cur = cur@;
        let ghost rest = split_lines_spec(s.subrange(i + 1, s.len() as int));
        if v[i] == '\n' {
            let piece = string_of(&cur);
            done.push(piece);
            assert(done.deep_view() =~= before.push(old_cur));
            cur = Vec::new();
            assert(before + (seq![old_cur] + prepend_first(Seq::empty(), rest)) =~= before.push(
                old_cur,
            ) + prepend_first(cur@, rest));
        } else {
            cur.push(v[i]);
        }
        i = i + 1;
    }
    proof {
        let e = Seq::<char>::empty();
        assert(s.subrange(i as int, s.len() as int) =~= e);
        assert(prepend_first(cur@, seq![e]) =~= seq![cur@]);
    }
    let ghost before = done.deep_view();
    let last = string_of(&cur);
    done.push(last);
    assert(done.deep_view() =~= before.push(cur@));
    done
}

/// `rand::rngs::StdRng`, held as an opaque value.
#[verifier::external_type_specification]
#[verifier::external_body]
pub struct ExStdRng(StdRng);

/// `SeedableRng::seed_from_u64` for `StdRng`: a random number generator
/// started from the given seed. Nothing is stated of its numbers.
#[verifier::external_body]
fn seeded_rng(seed: u64) -> StdRng {
    StdRng::seed_from_u64(seed)
}

/// `SliceRandom::shuffle` on a vector of strings: puts the strings in a
/// random order drawn from `rng`. Stated: the same strings come out, as many
/// times each; the order is left open.
#[verifier::external_body]
fn shuffle(items: &mut Vec<String>, rng: &mut StdRng)
    ensures
        final(items)@.to_multiset() == old(items)@.to_multiset(),
{
    items.shuffle(rng);
}

/// One of the given texts, picked at random: the first after a shuffle
/// drawn from a generator started from `seed`. `None` when there are none.
pub fn pick_random(items: Vec<String>, seed: u64) -> (r: Option<String>)
    ensures
        r is None <==> items@.len() == 0,
        r matches Some(x) ==> items@.contains(x),
{
    let ghost original = items@;
    let mut items = items;
    let mut rng = seeded_rng(seed);
    shuffle(&mut items, &mut rng);
    proof {
        original.to_multiset_ensures();
        items@.to_multiset_ensures();
    }
    if items.len() == 0 {
        None
    } else {
        let x = items[0].clone();
        proof {
            assert(items@.contains(items@[0]));
            assert(items@.to_multiset().count(items@[0]) > 0);
        }
        Some(x)
    }
}

/// The font size, in pixels, of a thumbnail's caption.
pub const CAPTION_FONT_SIZE: u32 = 256;

/// The colour of a thumbnail's caption, as 0xRRGGBB: red.
pub const CAPTION_COLOR: u32 = 0xFF0000;

/// `text_to_png::TextRenderer`, held as an opaque value.
#[verifier::external_type_specification]
#[verifier::external_body]
pub struct ExTextRenderer<'a>(TextRenderer<'a>);

/// Whether `TextRenderer::try_new_with_ttf_font_data` finds a font family
/// in the given TrueType data (it depends on the bytes alone).
pub uninterp spec fn font_loads(font: Seq<u8>) -> bool;

/// `png` is what `TextRenderer::render_text_to_png_data` gives for `text`
/// drawn with the font in `font`, `size` pixels high, in the colour 0xRRGGBB
/// `color`. A relation, not a function: the rasterizer's floating-point work
/// may give other bytes on another machine.
pub uninterp spec fn renders_text(font: Seq<u8>, text: Seq<char>, size: nat, color: nat, png: Seq<u8>) -> bool;

/// `TextRenderer::render_text_to_png_data` refuses to draw `text` with the
/// font in `font`, `size` pixels high, in the colour 0xRRGGBB `color`.
pub uninterp spec fn render_refused(font: Seq<u8>, text: Seq<char>, size: nat, color: nat) -> bool;

/// A text renderer together with the font data it was made from.
pub struct CaptionRenderer {
    renderer: TextRenderer<'static>,
    font: Ghost<Seq<u8>>,
}

impl CaptionRenderer {
    /// The font data the renderer was made from.
    pub closed spec fn font(&self) -> Seq<u8> {
        self.font@
    }
}

/// `TextRenderer::try_new_with_ttf_font_data`: a renderer that writes with
/// the font in the given TrueType data, kept with that data. Stated: there is
/// one exactly when the data load a font (`font_loads`), and it records the
/// data it was made from; which data load is left unstated.
#[verifier::external_body]
fn text_renderer(font: &[u8]) -> (r: Option<CaptionRenderer>)
    ensures
        r is Some <==> font_loads(font@),
        r matches Some(c) ==> c.font() == font@,
{
    TextRenderer::try_new_with_ttf_font_data(font).ok().map(
        |renderer| CaptionRenderer { renderer, font: Ghost(font@) },
    )
}

/// `TextRenderer::render_text_to_png_data`: the PNG bytes of `text` drawn
/// with the renderer's font, `size` pixels high, in the colour 0xRRGGBB
/// `color`; `None` where rendering fails. Stated: bytes that come back are a
/// rendering of that font, text, size and colour (`renders_text`), and a
/// failure is a refusal for them (`render_refused`); which inputs are
/// refused, and what the bytes hold, are left unstated.
#[verifier::external_body]
fn render_png(renderer: &CaptionRenderer, text: &str, size: u32, color: u32) -> (r: Option<Vec<u8>>)
    ensures
        r matches Some(d) ==> renders_text(renderer.font(), text@, size as nat, color as nat, d@),
        r is None ==> render_refused(renderer.font(), text@, size as nat, color as nat),
{
    renderer.renderer.render_text_to_png_data(text, size, color).ok().map(|png| png.data)
}

/// Why a caption could not be drawn.
pub enum CaptionPngError {
    /// The font data hold no usable font.
    NoFont,
    /// The text could not be rendered.
    RenderFailed,
}

/// The thumbnail caption `text` as a PNG image: drawn with the given font,
/// `CAPTION_FONT_SIZE` pixels high, in `CAPTION_COLOR`.
pub fn caption_png(font: &[u8], text: &str) -> (r: Result<Vec<u8>, CaptionPngError>)
    ensures
        r matches Err(CaptionPngError::NoFont) <==> !font_loads(font@),
        r matches Ok(d) ==> renders_text(
            font@,
            text@,
            CAPTION_FONT_SIZE as nat,
            CAPTION_COLOR as nat,
            d@,
        ),
        r matches Err(CaptionPngError::RenderFailed) ==> font_loads(font@) && render_refused(
            font@,
            text@,
            CAPTION_FONT_SIZE as nat,
            CAPTION_COLOR as nat,
        ),
{
    let renderer = match text_renderer(font) {
        Some(r) => r,
        None => return Err(CaptionPngError::NoFont),
    };
    match render_png(&renderer, text, CAPTION_FONT_SIZE, CAPTION_COLOR) {
        Some(data) => Ok(data),
        None => Err(CaptionPngError::RenderFailed),
    }
}

} // verus!
