//! Rendering of dictionary cards as terminal text: headers, word links, place
//! markers, `$..$` place spans and the wrapping of long detail lines.

use crate::cli::{CliSumtiPlaces, GlyphStyle};
use crate::style::{
    blue, blue_spec, cyan, cyan_spec, dark, dark_spec, green, green_spec, light, light_spec,
    magenta, magenta_spec, red, red_spec, yellow, yellow_spec, yellow_underlined,
    yellow_underlined_spec,
};
use crate::text::{
    all_ws, chars_of, concat2, concat3, decimal, decimal_string, find_char_in, find_seq_in,
    find_ws_in, has_prefix, has_ws, index_of, is_blank, is_whitespace, is_ws, join_spec,
    join_strings, leading_ws, lemma_leading_ws, lemma_leading_ws_is, lemma_seq_index_bounds,
    lemma_trailing_ws, lemma_ws_index_bounds, push_signed_decimal, push_str, seq_index,
    signed_decimal, skip_ws_from, starts_with, string_of_range, trim, trim_spec,
    trim_start_spec, views, ws_index,
};
use crate::vlacku::VlackuOutcome;
use crate::trace::all_digits;
use vstd::prelude::*;

verus! {

/// The two strings that enclose a place number in indexed definitions.
#[derive(Debug, Clone)]
pub struct PlaceSlots {
    pub open: String,
    pub close: String,
}

/// How dictionary cards are rendered.
#[derive(Debug, Clone)]
pub struct VlackuRenderOptions {
    pub color: bool,
    pub glyphs: GlyphStyle,
    pub output_terminal_width: Option<usize>,
    pub sumti_places: CliSumtiPlaces,
    pub show_etymology: bool,
    /// The place markers of the glyph style.
    pub slots: PlaceSlots,
}

impl VlackuRenderOptions {
    /// A terminal width, when given, is positive, and the place markers are not empty.
    pub open spec fn wf(&self) -> bool {
        &&& (self.output_terminal_width matches Some(w) ==> w > 0)
        &&& self.slots.open@.len() > 0
        &&& self.slots.close@.len() > 0
    }
}

/// The separator between the pieces of a decomposed lujvo.
pub open spec fn lujvo_separator_spec(glyphs: GlyphStyle) -> Seq<char> {
    match glyphs {
        GlyphStyle::Unicode => "·"@,
        GlyphStyle::Ascii => "~"@,
    }
}

/// The separator between the pieces of a decomposed lujvo.
pub fn lujvo_separator(glyphs: GlyphStyle) -> (r: &'static str)
    ensures
        r@ == lujvo_separator_spec(glyphs),
{
    match glyphs {
        GlyphStyle::Unicode => "·",
        GlyphStyle::Ascii => "~",
    }
}

/// Whether `t` names a word: non-empty, with no whitespace in it.
pub open spec fn is_word_link_spec(t: Seq<char>) -> bool {
    t.len() > 0 && !has_ws(t)
}

/// Whether a `{..}` body names a word.
pub fn is_vlacku_word_link(value: &str) -> (r: bool)
    ensures
        r == is_word_link_spec(value@),
{
    let v = chars_of(value);
    if v.len() == 0 {
        return false;
    }
    let mut i: usize = 0;
    while i < v.len()
        invariant
            i <= v.len(),
            v@ == value@,
            forall|j: int| 0 <= j < i ==> !crate::text::is_ws(#[trigger] v@[j]),
        decreases v.len() - i,
    {
        if is_whitespace(v[i]) {
            return false;
        }
        i = i + 1;
    }
    true
}

/// The inside of a `$..$` span: the parts between `=` signs in cyan, the signs dark.
pub open spec fn place_span_body(s: Seq<char>, color: bool) -> Seq<char>
    decreases s.len(),
{
    if s.len() == 0 {
        seq![]
    } else {
        let k = index_of(s, '=');
        if k < 0 || k >= s.len() {
            cyan_spec(s, color)
        } else {
            cyan_spec(s.subrange(0, k), color) + dark_spec("="@, color) + place_span_body(
                s.subrange(k + 1, s.len() as int),
                color,
            )
        }
    }
}

/// A `$..$` span: its body between dark dollar signs.
pub open spec fn raw_place_span_spec(s: Seq<char>, color: bool) -> Seq<char> {
    dark_spec("$"@, color) + place_span_body(s, color) + dark_spec("$"@, color)
}

/// Renders the body of a `$..$` span.
pub fn render_vlacku_raw_place_span(input: &str, color: bool) -> (out: String)
    ensures
        out@ == raw_place_span_spec(input@, color),
{
    let v = chars_of(input);
    let n = v.len();
    let mut out = dark("$", color);
    let ghost head = out@;
    let mut i: usize = 0;
    assert(v@.subrange(0, n as int) =~= v@);
    while i < n
        invariant
            i <= n == v@.len(),
            v@ == input@,
            out@ + place_span_body(v@.subrange(i as int, n as int), color) == head
                + place_span_body(v@, color),
        decreases n - i,
    {
        let ghost rest = v@.subrange(i as int, n as int);
        let ghost before = out@;
        let r = find_char_in(&v, i, '=');
        if r == n {
            let piece = cyan(string_of_range(&v, i, n).as_str(), color);
            push_str(&mut out, piece.as_str());
            i = n;
            assert(v@.subrange(n as int, n as int) =~= Seq::<char>::empty());
        } else {
            let piece = cyan(string_of_range(&v, i, r).as_str(), color);
            let eq = dark("=", color);
            push_str(&mut out, piece.as_str());
            push_str(&mut out, eq.as_str());
            proof {
                let k = r - i;
                assert(rest.subrange(0, k) =~= v@.subrange(i as int, r as int));
                assert(rest.subrange(k + 1, rest.len() as int) =~= v@.subrange(r + 1, n as int));
                let tail = place_span_body(v@.subrange(r + 1, n as int), color);
                assert(out@ + tail =~= before + place_span_body(rest, color));
            }
            i = r + 1;
        }
    }
    assert(v@.subrange(0, n as int) =~= v@);
    let close = dark("$", color);
    push_str(&mut out, close.as_str());
    out
}

/// A `{..}` body: a word link when its trimmed text names a word, else plain light text.
pub open spec fn word_link_spec(inside: Seq<char>, color: bool) -> Seq<char> {
    let t = trim_spec(inside);
    if is_word_link_spec(t) {
        dark_spec("{"@, color) + yellow_spec(t, color) + dark_spec("}"@, color)
    } else {
        light_spec("{"@ + inside + "}"@, color)
    }
}

fn render_word_link(inside: &str, color: bool) -> (out: String)
    ensures
        out@ == word_link_spec(inside@, color),
{
    let t = trim(inside);
    if is_vlacku_word_link(t.as_str()) {
        let mut out = dark("{", color);
        let word = yellow(t.as_str(), color);
        let close = dark("}", color);
        push_str(&mut out, word.as_str());
        push_str(&mut out, close.as_str());
        out
    } else {
        let braced = concat3("{", inside, "}");
        light(braced.as_str(), color)
    }
}

/// Plain text with its place markers: `open` digits `close` is shown dark and cyan,
/// everything else light.
pub open spec fn indexed_places_spec(s: Seq<char>, open: Seq<char>, close: Seq<char>, color: bool) -> Seq<
    char,
>
    decreases s.len(),
{
    if s.len() == 0 || open.len() == 0 {
        seq![]
    } else {
        proof {
            lemma_seq_index_bounds(s, open);
        }
        let k = seq_index(s, open);
        if k >= s.len() {
            light_spec(s, color)
        } else {
            let after = s.subrange(k + open.len(), s.len() as int);
            proof {
                lemma_seq_index_bounds(after, close);
            }
            let c = seq_index(after, close);
            if c >= after.len() {
                light_spec(s.subrange(0, k), color) + light_spec(
                    s.subrange(k, s.len() as int),
                    color,
                )
            } else {
                let idx = after.subrange(0, c);
                if idx.len() > 0 && all_digits(idx) {
                    light_spec(s.subrange(0, k), color) + dark_spec(open, color) + cyan_spec(
                        idx,
                        color,
                    ) + dark_spec(close, color) + indexed_places_spec(
                        after.subrange(c + close.len(), after.len() as int),
                        open,
                        close,
                        color,
                    )
                } else {
                    light_spec(s.subrange(0, k), color) + light_spec(open, color)
                        + indexed_places_spec(after, open, close, color)
                }
            }
        }
    }
}

/// Plain text of a definition: light as it is with raw places, else with its place
/// markers picked out.
pub open spec fn plain_spec(s: Seq<char>, options: VlackuRenderOptions) -> Seq<char> {
    if options.sumti_places == CliSumtiPlaces::Raw {
        light_spec(s, options.color)
    } else {
        indexed_places_spec(s, options.slots.open@, options.slots.close@, options.color)
    }
}

fn all_ascii_digits(v: &Vec<char>, from: usize, to: usize) -> (r: bool)
    requires
        from <= to <= v.len(),
    ensures
        r == all_digits(v@.subrange(from as int, to as int)),
{
    let ghost t = v@.subrange(from as int, to as int);
    let mut i = from;
    while i < to
        invariant
            from <= i <= to <= v.len(),
            t == v@.subrange(from as int, to as int),
            forall|j: int| 0 <= j < i - from ==> crate::text::is_digit(#[trigger] t[j]),
        decreases to - i,
    {
        if !('0' <= v[i] && v[i] <= '9') {
            assert(t[i - from] == v@[i as int]);
            return false;
        }
        assert(t[i - from] == v@[i as int]);
        i = i + 1;
    }
    true
}

/// One step of `indexed_places_spec` on `v[i..]`: the text it renders first and where
/// the rest begins.
fn indexed_places_step(v: &Vec<char>, i: usize, open: &Vec<char>, close: &Vec<char>, color: bool) -> (r:
    (String, usize))
    requires
        i < v.len(),
        open@.len() > 0,
        close@.len() > 0,
    ensures
        i < r.1 <= v.len(),
        r.0@ + indexed_places_spec(v@.subrange(r.1 as int, v@.len() as int), open@, close@, color)
            == indexed_places_spec(v@.subrange(i as int, v@.len() as int), open@, close@, color),
{
    let n = v.len();
    let ghost o = open@;
    let ghost c = close@;
    let ghost rest = v@.subrange(i as int, n as int);
    proof {
        lemma_seq_index_bounds(rest, o);
    }
    let r1 = find_seq_in(v, i, open);
    if r1 == n {
        let piece = light(string_of_range(v, i, n).as_str(), color);
        assert(v@.subrange(n as int, n as int) =~= Seq::<char>::empty());
        assert(piece@ + Seq::<char>::empty() =~= piece@);
        return (piece, n);
    }
    let a = r1 + open.len();
    let ghost k = r1 - i;
    let ghost after = rest.subrange(k + o.len(), rest.len() as int);
    assert(after =~= v@.subrange(a as int, n as int));
    assert(rest.subrange(0, k) =~= v@.subrange(i as int, r1 as int));
    proof {
        lemma_seq_index_bounds(after, c);
    }
    let r2 = find_seq_in(v, a, close);
    let mut out = light(string_of_range(v, i, r1).as_str(), color);
    if r2 == n {
        let tail = light(string_of_range(v, r1, n).as_str(), color);
        push_str(&mut out, tail.as_str());
        assert(rest.subrange(k, rest.len() as int) =~= v@.subrange(r1 as int, n as int));
        assert(v@.subrange(n as int, n as int) =~= Seq::<char>::empty());
        assert(out@ + Seq::<char>::empty() =~= out@);
        return (out, n);
    }
    let ghost cc = r2 - a;
    assert(after.subrange(0, cc) =~= v@.subrange(a as int, r2 as int));
    if r2 > a && all_ascii_digits(v, a, r2) {
        let b = r2 + close.len();
        assert(after.subrange(cc + c.len(), after.len() as int) =~= v@.subrange(b as int, n as int));
        let d_open = dark(crate::text::string_of(open).as_str(), color);
        let num = cyan(string_of_range(v, a, r2).as_str(), color);
        let d_close = dark(crate::text::string_of(close).as_str(), color);
        push_str(&mut out, d_open.as_str());
        push_str(&mut out, num.as_str());
        push_str(&mut out, d_close.as_str());
        proof {
            let tl = indexed_places_spec(v@.subrange(b as int, n as int), o, c, color);
            assert(out@ + tl =~= indexed_places_spec(rest, o, c, color));
        }
        (out, b)
    } else {
        let l_open = light(crate::text::string_of(open).as_str(), color);
        push_str(&mut out, l_open.as_str());
        proof {
            let tl = indexed_places_spec(v@.subrange(a as int, n as int), o, c, color);
            assert(out@ + tl =~= indexed_places_spec(rest, o, c, color));
        }
        (out, a)
    }
}

/// Renders plain definition text, picking out the place markers unless places are raw.
pub fn render_vlacku_plain_or_indexed_places(input: &str, options: &VlackuRenderOptions) -> (out:
    String)
    requires
        options.wf(),
    ensures
        out@ == plain_spec(input@, *options),
{
    if options.sumti_places == CliSumtiPlaces::Raw {
        return light(input, options.color);
    }
    let color = options.color;
    let v = chars_of(input);
    let open = chars_of(options.slots.open.as_str());
    let close = chars_of(options.slots.close.as_str());
    let ghost o = open@;
    let ghost c = close@;
    let n = v.len();
    let mut out = String::new();
    let mut i: usize = 0;
    assert(v@.subrange(0, n as int) =~= v@);
    assert(out@ + indexed_places_spec(v@, o, c, color) =~= indexed_places_spec(v@, o, c, color));
    while i < n
        invariant
            i <= n == v@.len(),
            v@ == input@,
            o == open@,
            c == close@,
            o.len() > 0,
            c.len() > 0,
            out@ + indexed_places_spec(v@.subrange(i as int, n as int), o, c, color)
                == indexed_places_spec(v@, o, c, color),
        decreases n - i,
    {
        let ghost before = out@;
        let (piece, next) = indexed_places_step(&v, i, &open, &close, color);
        push_str(&mut out, piece.as_str());
        proof {
            let tl = indexed_places_spec(v@.subrange(next as int, n as int), o, c, color);
            assert(out@ + tl =~= before + (piece@ + tl));
        }
        i = next;
    }
    assert(v@.subrange(n as int, n as int) =~= Seq::<char>::empty());
    assert(out@ + Seq::<char>::empty() =~= out@);
    out
}

/// Text with `{..}` word links, the rest rendered as plain definition text.
pub open spec fn word_links_spec(s: Seq<char>, options: VlackuRenderOptions) -> Seq<char>
    decreases s.len(),
{
    if s.len() == 0 {
        seq![]
    } else {
        let k = index_of(s, '{');
        if k < 0 || k >= s.len() {
            plain_spec(s, options)
        } else {
            let after = s.subrange(k + 1, s.len() as int);
            let c = index_of(after, '}');
            if c < 0 || c >= after.len() {
                plain_spec(s, options)
            } else {
                plain_spec(s.subrange(0, k), options) + word_link_spec(
                    after.subrange(0, c),
                    options.color,
                ) + word_links_spec(after.subrange(c + 1, after.len() as int), options)
            }
        }
    }
}

fn word_links_step(v: &Vec<char>, i: usize, options: &VlackuRenderOptions) -> (r: (String, usize))
    requires
        i < v.len(),
        options.wf(),
    ensures
        i < r.1 <= v.len(),
        r.0@ + word_links_spec(v@.subrange(r.1 as int, v@.len() as int), *options)
            == word_links_spec(v@.subrange(i as int, v@.len() as int), *options),
{
    let n = v.len();
    let ghost rest = v@.subrange(i as int, n as int);
    let r1 = find_char_in(v, i, '{');
    if r1 < n {
        assert(rest.subrange(r1 - i + 1, rest.len() as int) =~= v@.subrange(r1 + 1, n as int));
        let r2 = find_char_in(v, r1 + 1, '}');
        if r2 < n {
            let ghost k = r1 - i;
            let ghost after = rest.subrange(k + 1, rest.len() as int);
            assert(after =~= v@.subrange(r1 + 1, n as int));
            assert(rest.subrange(0, k) =~= v@.subrange(i as int, r1 as int));
            assert(after.subrange(0, r2 - r1 - 1) =~= v@.subrange(r1 + 1, r2 as int));
            assert(after.subrange(r2 - r1, after.len() as int) =~= v@.subrange(r2 + 1, n as int));
            let before = string_of_range(v, i, r1);
            let inside = string_of_range(v, r1 + 1, r2);
            let mut out = render_vlacku_plain_or_indexed_places(before.as_str(), options);
            let link = render_word_link(inside.as_str(), options.color);
            push_str(&mut out, link.as_str());
            proof {
                let tl = word_links_spec(v@.subrange(r2 + 1, n as int), *options);
                assert(out@ + tl =~= word_links_spec(rest, *options));
            }
            return (out, r2 + 1);
        }
    }
    let out = render_vlacku_plain_or_indexed_places(string_of_range(v, i, n).as_str(), options);
    assert(v@.subrange(n as int, n as int) =~= Seq::<char>::empty());
    assert(out@ + Seq::<char>::empty() =~= out@);
    (out, n)
}

/// Renders text with `{..}` word links.
pub fn render_vlacku_word_links(input: &str, options: &VlackuRenderOptions) -> (out: String)
    requires
        options.wf(),
    ensures
        out@ == word_links_spec(input@, *options),
{
    let v = chars_of(input);
    let n = v.len();
    let mut out = String::new();
    let mut i: usize = 0;
    assert(v@.subrange(0, n as int) =~= v@);
    assert(out@ + word_links_spec(v@, *options) =~= word_links_spec(v@, *options));
    while i < n
        invariant
            i <= n == v@.len(),
            v@ == input@,
            options.wf(),
            out@ + word_links_spec(v@.subrange(i as int, n as int), *options) == word_links_spec(
                v@,
                *options,
            ),
        decreases n - i,
    {
        let ghost before = out@;
        let (piece, next) = word_links_step(&v, i, options);
        push_str(&mut out, piece.as_str());
        proof {
            let tl = word_links_spec(v@.subrange(next as int, n as int), *options);
            assert(out@ + tl =~= before + (piece@ + tl));
        }
        i = next;
    }
    assert(v@.subrange(n as int, n as int) =~= Seq::<char>::empty());
    assert(out@ + Seq::<char>::empty() =~= out@);
    out
}

/// Text with `$..$` place spans, the rest rendered with its word links.
pub open spec fn rich_text_spec(s: Seq<char>, options: VlackuRenderOptions) -> Seq<char>
    decreases s.len(),
{
    if s.len() == 0 {
        seq![]
    } else {
        let k = index_of(s, '$');
        if k < 0 || k >= s.len() {
            word_links_spec(s, options)
        } else {
            let after = s.subrange(k + 1, s.len() as int);
            let c = index_of(after, '$');
            if c < 0 || c >= after.len() {
                word_links_spec(s, options)
            } else {
                word_links_spec(s.subrange(0, k), options) + raw_place_span_spec(
                    after.subrange(0, c),
                    options.color,
                ) + rich_text_spec(after.subrange(c + 1, after.len() as int), options)
            }
        }
    }
}

fn rich_text_step(v: &Vec<char>, i: usize, options: &VlackuRenderOptions) -> (r: (String, usize))
    requires
        i < v.len(),
        options.wf(),
    ensures
        i < r.1 <= v.len(),
        r.0@ + rich_text_spec(v@.subrange(r.1 as int, v@.len() as int), *options)
            == rich_text_spec(v@.subrange(i as int, v@.len() as int), *options),
{
    let n = v.len();
    let ghost rest = v@.subrange(i as int, n as int);
    let r1 = find_char_in(v, i, '$');
    if r1 < n {
        assert(rest.subrange(r1 - i + 1, rest.len() as int) =~= v@.subrange(r1 + 1, n as int));
        let r2 = find_char_in(v, r1 + 1, '$');
        if r2 < n {
            let ghost k = r1 - i;
            let ghost after = rest.subrange(k + 1, rest.len() as int);
            assert(after =~= v@.subrange(r1 + 1, n as int));
            assert(rest.subrange(0, k) =~= v@.subrange(i as int, r1 as int));
            assert(after.subrange(0, r2 - r1 - 1) =~= v@.subrange(r1 + 1, r2 as int));
            assert(after.subrange(r2 - r1, after.len() as int) =~= v@.subrange(r2 + 1, n as int));
            let before = string_of_range(v, i, r1);
            let body = string_of_range(v, r1 + 1, r2);
            let mut out = render_vlacku_word_links(before.as_str(), options);
            let span = render_vlacku_raw_place_span(body.as_str(), options.color);
            push_str(&mut out, span.as_str());
            proof {
                let tl = rich_text_spec(v@.subrange(r2 + 1, n as int), *options);
                assert(out@ + tl =~= rich_text_spec(rest, *options));
            }
            return (out, r2 + 1);
        }
    }
    let out = render_vlacku_word_links(string_of_range(v, i, n).as_str(), options);
    assert(v@.subrange(n as int, n as int) =~= Seq::<char>::empty());
    assert(out@ + Seq::<char>::empty() =~= out@);
    (out, n)
}

/// Renders a detail line: `$..$` place spans, `{..}` word links and place markers.
pub fn render_vlacku_rich_text(input: &str, options: &VlackuRenderOptions) -> (out: String)
    requires
        options.wf(),
    ensures
        out@ == rich_text_spec(input@, *options),
{
    let v = chars_of(input);
    let n = v.len();
    let mut out = String::new();
    let mut i: usize = 0;
    assert(v@.subrange(0, n as int) =~= v@);
    assert(out@ + rich_text_spec(v@, *options) =~= rich_text_spec(v@, *options));
    while i < n
        invariant
            i <= n == v@.len(),
            v@ == input@,
            options.wf(),
            out@ + rich_text_spec(v@.subrange(i as int, n as int), *options) == rich_text_spec(
                v@,
                *options,
            ),
        decreases n - i,
    {
        let ghost before = out@;
        let (piece, next) = rich_text_step(&v, i, options);
        push_str(&mut out, piece.as_str());
        proof {
            let tl = rich_text_spec(v@.subrange(next as int, n as int), *options);
            assert(out@ + tl =~= before + (piece@ + tl));
        }
        i = next;
    }
    assert(v@.subrange(n as int, n as int) =~= Seq::<char>::empty());
    assert(out@ + Seq::<char>::empty() =~= out@);
    out
}

/// The displayed width of `s` in terminal columns, as `unicode-width` measures it.
pub uninterp spec fn display_width(s: Seq<char>) -> usize;

/// `UnicodeWidthStr::width` of `unicode-width`: the displayed width of a string in
/// columns. Its contract names the result and says nothing more about it.
#[verifier::external_body]
fn unicode_display_width(s: &str) -> (r: usize)
    ensures
        r == display_width(s@),
{
    unicode_width::UnicodeWidthStr::width(s)
}

/// The indent of every detail line of a card.
pub open spec fn detail_indent() -> Seq<char> {
    "    "@
}

/// The length of the wrap atom at the front of `r`: a `$..$` span with whatever
/// follows it up to the next whitespace, or the text up to the next whitespace.
pub open spec fn atom_end(r: Seq<char>) -> int {
    if r.len() > 0 && r[0] == '$' && index_of(r.subrange(1, r.len() as int), '$') < r.len() - 1 {
        let e = index_of(r.subrange(1, r.len() as int), '$') + 2;
        e + ws_index(r.subrange(e, r.len() as int))
    } else {
        ws_index(r)
    }
}

/// The wrap atoms of `r`, which starts with no whitespace.
pub open spec fn atoms_from(r: Seq<char>) -> Seq<Seq<char>>
    decreases r.len(),
{
    if r.len() == 0 {
        seq![]
    } else {
        let e = atom_end(r);
        if e <= 0 || e > r.len() {
            seq![]
        } else {
            proof {
                lemma_leading_ws(r.subrange(e, r.len() as int));
            }
            seq![r.subrange(0, e)] + atoms_from(trim_start_spec(r.subrange(e, r.len() as int)))
        }
    }
}

/// The wrap atoms of a detail line: the pieces that a wrapped line never splits.
pub open spec fn wrap_atoms_spec(input: Seq<char>) -> Seq<Seq<char>> {
    atoms_from(trim_spec(input))
}

/// The end (in `v`) of the wrap atom that starts at `i`.
fn atom_step(v: &Vec<char>, i: usize) -> (end: usize)
    requires
        i < v.len(),
        !is_ws(v@[i as int]),
    ensures
        i < end <= v.len(),
        end - i == atom_end(v@.subrange(i as int, v@.len() as int)),
{
    let n = v.len();
    let ghost r = v@.subrange(i as int, n as int);
    assert(r.subrange(1, r.len() as int) =~= v@.subrange(i + 1, n as int));
    if v[i] == '$' {
        let c = find_char_in(v, i + 1, '$');
        if c < n {
            let e = c + 1;
            assert(r.subrange(e - i, r.len() as int) =~= v@.subrange(e as int, n as int));
            let end = find_ws_in(v, e);
            return end;
        }
    }
    let end = find_ws_in(v, i);
    proof {
        lemma_ws_index_bounds(r);
        assert(r[0] == v@[i as int]);
    }
    end
}

proof fn lemma_trim_first(s: Seq<char>)
    ensures
        trim_spec(s).len() > 0 ==> !is_ws(trim_spec(s)[0]),
        trim_spec(s).len() > 0 ==> !is_ws(trim_spec(s).last()),
{
    lemma_leading_ws(s);
    let t = trim_start_spec(s);
    lemma_trailing_ws(t);
    if trim_spec(s).len() > 0 {
        assert(trim_spec(s)[0] == t[0]);
        assert(t[0] == s[leading_ws(s) as int]);
    }
}

/// Every wrap atom holds at least one character.
pub proof fn lemma_atoms_nonempty(r: Seq<char>)
    ensures
        forall|i: int| 0 <= i < atoms_from(r).len() ==> (#[trigger] atoms_from(r)[i]).len() > 0,
        r.len() == 0 ==> atoms_from(r).len() == 0,
    decreases r.len(),
{
    if r.len() > 0 {
        let e = atom_end(r);
        if 0 < e <= r.len() {
            let tail = r.subrange(e, r.len() as int);
            lemma_leading_ws(tail);
            lemma_atoms_nonempty(trim_start_spec(tail));
            let a = atoms_from(r);
            let rest = atoms_from(trim_start_spec(tail));
            assert forall|i: int| 0 <= i < a.len() implies (#[trigger] a[i]).len() > 0 by {
                if i > 0 {
                    assert(a[i] == rest[i - 1]);
                }
            }
        }
    }
}

/// Splits a detail line into wrap atoms.
pub fn vlacku_wrap_atoms(input: &str) -> (out: Vec<String>)
    ensures
        views(out@) == wrap_atoms_spec(input@),
        trim_spec(input@).len() == 0 ==> out@.len() == 0,
        forall|i: int| 0 <= i < out@.len() ==> (#[trigger] out@[i])@.len() > 0,
{
    proof {
        lemma_atoms_nonempty(trim_spec(input@));
    }
    let t = trim(input);
    let v = chars_of(t.as_str());
    let n = v.len();
    proof {
        lemma_trim_first(input@);
    }
    let mut atoms: Vec<String> = Vec::new();
    let mut i: usize = 0;
    assert(v@.subrange(0, n as int) =~= v@);
    assert(views(atoms@) + atoms_from(v@) =~= atoms_from(v@));
    while i < n
        invariant
            i <= n == v@.len(),
            v@ == trim_spec(input@),
            i < n ==> !is_ws(v@[i as int]),
            views(atoms@) + atoms_from(v@.subrange(i as int, n as int)) == atoms_from(v@),
        decreases n - i,
    {
        let ghost rest = v@.subrange(i as int, n as int);
        let ghost before = views(atoms@);
        let end = atom_step(&v, i);
        let atom = string_of_range(&v, i, end);
        atoms.push(atom);
        let next = skip_ws_from(&v, end);
        proof {
            let e = end - i;
            let tail = rest.subrange(e, rest.len() as int);
            assert(tail =~= v@.subrange(end as int, n as int));
            lemma_leading_ws_is(tail, next - end);
            assert(trim_start_spec(tail) =~= v@.subrange(next as int, n as int));
            assert(rest.subrange(0, e) =~= v@.subrange(i as int, end as int));
            assert(views(atoms@) =~= before.push(v@.subrange(i as int, end as int)));
            let tl = atoms_from(v@.subrange(next as int, n as int));
            assert(views(atoms@) + tl =~= before + atoms_from(rest));
        }
        i = next;
    }
    assert(v@.subrange(n as int, n as int) =~= Seq::<char>::empty());
    assert(views(atoms@) + Seq::<Seq<char>>::empty() =~= views(atoms@));
    assert forall|i: int| 0 <= i < atoms@.len() implies (#[trigger] atoms@[i])@.len() > 0 by {
        assert(views(atoms@)[i] == atoms@[i]@);
    }
    atoms
}

/// Greedy filling of lines of at most `ww` columns with `atoms`, one space between
/// atoms, continuing the line `cur` of width `cw`. An atom wider than a line gets a
/// line of its own.
pub open spec fn greedy_lines(atoms: Seq<Seq<char>>, ww: int, cur: Seq<char>, cw: int) -> Seq<
    Seq<char>,
>
    decreases atoms.len(),
{
    if atoms.len() == 0 {
        if cur.len() == 0 {
            seq![]
        } else {
            seq![cur]
        }
    } else {
        let a = atoms[0];
        let w = display_width(a) as int;
        let rest = atoms.subrange(1, atoms.len() as int);
        if cur.len() == 0 {
            greedy_lines(rest, ww, a, w)
        } else if cw + 1 + w <= ww {
            greedy_lines(rest, ww, cur + seq![' '] + a, cw + 1 + w)
        } else {
            seq![cur] + greedy_lines(rest, ww, a, w)
        }
    }
}

/// The columns a detail line may use within a terminal of `width` columns: what the
/// indent leaves, and at least one.
pub open spec fn wrap_width_for(width: usize) -> int {
    let d = width - display_width(detail_indent());
    if d < 1 {
        1
    } else {
        d
    }
}

/// A detail line cut into terminal lines: unchanged without a width or when it fits,
/// else its atoms filled greedily.
pub open spec fn wrap_detail_spec(text: Seq<char>, width: Option<usize>) -> Seq<Seq<char>> {
    match width {
        None => seq![text],
        Some(w) => {
            let ww = wrap_width_for(w);
            if display_width(text) <= ww {
                seq![text]
            } else {
                let atoms = wrap_atoms_spec(text);
                if atoms.len() == 0 {
                    seq![seq![]]
                } else {
                    greedy_lines(atoms, ww, seq![], 0)
                }
            }
        },
    }
}

/// Greedy filling gives at least one line when there is a current line or an atom,
/// and atoms are never empty.
pub proof fn lemma_greedy_nonempty(atoms: Seq<Seq<char>>, ww: int, cur: Seq<char>, cw: int)
    requires
        cur.len() > 0 || atoms.len() > 0,
        forall|i: int| 0 <= i < atoms.len() ==> (#[trigger] atoms[i]).len() > 0,
    ensures
        greedy_lines(atoms, ww, cur, cw).len() > 0,
    decreases atoms.len(),
{
    if atoms.len() > 0 {
        let rest = atoms.subrange(1, atoms.len() as int);
        assert forall|i: int| 0 <= i < rest.len() implies (#[trigger] rest[i]).len() > 0 by {
            assert(rest[i] == atoms[i + 1]);
        }
        let a = atoms[0];
        let w = display_width(a) as int;
        if cur.len() == 0 {
            lemma_greedy_nonempty(rest, ww, a, w);
        } else if cw + 1 + w <= ww {
            lemma_greedy_nonempty(rest, ww, cur + seq![' '] + a, cw + 1 + w);
        }
    }
}

fn greedy_wrap(atoms: &Vec<String>, ww: usize) -> (lines: Vec<String>)
    ensures
        views(lines@) == greedy_lines(views(atoms@), ww as int, seq![], 0),
{
    let ghost all = views(atoms@);
    let mut lines: Vec<String> = Vec::new();
    let mut current = String::new();
    let mut current_width: usize = 0;
    let mut i: usize = 0;
    assert(all.subrange(0, all.len() as int) =~= all);
    assert(views(lines@) + greedy_lines(all, ww as int, seq![], 0) =~= greedy_lines(
        all,
        ww as int,
        seq![],
        0,
    ));
    while i < atoms.len()
        invariant
            i <= atoms.len(),
            all == views(atoms@),
            views(lines@) + greedy_lines(
                all.subrange(i as int, all.len() as int),
                ww as int,
                current@,
                current_width as int,
            ) == greedy_lines(all, ww as int, seq![], 0),
        decreases atoms.len() - i,
    {
        let ghost rest = all.subrange(i as int, all.len() as int);
        let ghost before = views(lines@);
        assert(rest[0] == atoms@[i as int]@);
        assert(rest.subrange(1, rest.len() as int) =~= all.subrange(i + 1, all.len() as int));
        let ghost old_cur = current@;
        let ghost old_cw = current_width;
        let atom = atoms[i].clone();
        let atom_width = unicode_display_width(atom.as_str());
        if current.as_str().is_empty() {
            current_width = atom_width;
            current = atom;
            assert(greedy_lines(rest, ww as int, old_cur, old_cw as int) == greedy_lines(
                all.subrange(i + 1, all.len() as int),
                ww as int,
                current@,
                current_width as int,
            ));
        } else if current_width < ww && atom_width <= ww - current_width - 1 {
            current.push(' ');
            push_str(&mut current, atom.as_str());
            current_width = current_width + 1 + atom_width;
            assert(current@ =~= old_cur + seq![' '] + rest[0]);
            assert(greedy_lines(rest, ww as int, old_cur, old_cw as int) == greedy_lines(
                all.subrange(i + 1, all.len() as int),
                ww as int,
                current@,
                current_width as int,
            ));
        } else {
            let done = current;
            lines.push(done);
            current_width = atom_width;
            current = atom;
            proof {
                let tl = greedy_lines(
                    all.subrange(i + 1, all.len() as int),
                    ww as int,
                    current@,
                    current_width as int,
                );
                assert(views(lines@) =~= before.push(done@));
                assert(views(lines@) + tl =~= before + (seq![done@] + tl));
            }
        }
        i = i + 1;
    }
    if !current.as_str().is_empty() {
        let ghost before = views(lines@);
        lines.push(current);
        assert(views(lines@) =~= before + seq![current@]);
    } else {
        assert(views(lines@) + Seq::<Seq<char>>::empty() =~= views(lines@));
    }
    lines
}

/// Cuts a rendered detail line to fit a terminal of `output_terminal_width` columns.
pub fn wrap_vlacku_detail_line(text: &str, output_terminal_width: Option<usize>) -> (out: Vec<
    String,
>)
    ensures
        views(out@) == wrap_detail_spec(text@, output_terminal_width),
        out@.len() > 0,
{
    let width = match output_terminal_width {
        None => {
            let mut out = Vec::new();
            out.push(crate::text::owned(text));
            assert(views(out@) =~= seq![text@]);
            return out;
        },
        Some(w) => w,
    };
    let indent_width = unicode_display_width("    ");
    let d = width.saturating_sub(indent_width);
    let wrap_width = if d < 1 {
        1
    } else {
        d
    };
    if unicode_display_width(text) <= wrap_width {
        let mut out = Vec::new();
        out.push(crate::text::owned(text));
        assert(views(out@) =~= seq![text@]);
        return out;
    }
    let atoms = vlacku_wrap_atoms(text);
    if atoms.len() == 0 {
        let mut out = Vec::new();
        out.push(String::new());
        assert(views(out@) =~= seq![Seq::<char>::empty()]);
        return out;
    }
    proof {
        let a = views(atoms@);
        assert forall|i: int| 0 <= i < a.len() implies (#[trigger] a[i]).len() > 0 by {
            assert(a[i] == atoms@[i]@);
        }
        lemma_greedy_nonempty(a, wrap_width as int, seq![], 0);
    }
    greedy_wrap(&atoms, wrap_width)
}

/// One line of a definition, of notes or of an etymology: as written, and with its
/// sumti places numbered.
#[derive(Debug, Clone)]
pub struct PlaceLine {
    pub text: String,
    pub indexed: String,
}

/// The form of a line that the sumti-place style asks for.
pub open spec fn place_text_spec(line: PlaceLine, places: CliSumtiPlaces) -> Seq<char> {
    match places {
        CliSumtiPlaces::Raw => line.text@,
        CliSumtiPlaces::Index => line.indexed@,
    }
}

/// A definition line as the sumti-place style shows it.
pub fn vlacku_definition_text_for_sumti_places(line: &PlaceLine, options: &VlackuRenderOptions) -> (r:
    String)
    ensures
        r@ == place_text_spec(*line, options.sumti_places),
{
    match options.sumti_places {
        CliSumtiPlaces::Raw => line.text.clone(),
        CliSumtiPlaces::Index => line.indexed.clone(),
    }
}

/// A line of glosses, notes or etymology as the sumti-place style shows it.
pub fn vlacku_reference_text_for_sumti_places(line: &PlaceLine, options: &VlackuRenderOptions) -> (r:
    String)
    ensures
        r@ == place_text_spec(*line, options.sumti_places),
{
    match options.sumti_places {
        CliSumtiPlaces::Raw => line.text.clone(),
        CliSumtiPlaces::Index => line.indexed.clone(),
    }
}

/// The indented, rendered terminal lines of one detail line.
pub open spec fn detail_lines_spec(text: Seq<char>, options: VlackuRenderOptions) -> Seq<Seq<char>> {
    let w = wrap_detail_spec(text, options.output_terminal_width);
    Seq::new(w.len(), |i: int| detail_indent() + rich_text_spec(w[i], options))
}

/// Appends the wrapped, indented and rendered lines of `rendered_text` to `lines`.
pub fn push_rendered_vlacku_detail_lines(
    lines: &mut Vec<String>,
    rendered_text: &str,
    options: &VlackuRenderOptions,
)
    requires
        options.wf(),
    ensures
        views(final(lines)@) == views(old(lines)@) + detail_lines_spec(rendered_text@, *options),
{
    let wrapped = wrap_vlacku_detail_line(rendered_text, options.output_terminal_width);
    let ghost start = views(lines@);
    let ghost target = detail_lines_spec(rendered_text@, *options);
    let mut i: usize = 0;
    while i < wrapped.len()
        invariant
            i <= wrapped.len(),
            options.wf(),
            views(wrapped@) == wrap_detail_spec(rendered_text@, options.output_terminal_width),
            target == detail_lines_spec(rendered_text@, *options),
            views(lines@) == start + target.subrange(0, i as int),
        decreases wrapped.len() - i,
    {
        let ghost before = views(lines@);
        assert(views(wrapped@)[i as int] == wrapped@[i as int]@);
        let body = render_vlacku_rich_text(wrapped[i].as_str(), options);
        let line = concat2("    ", body.as_str());
        lines.push(line);
        assert(views(lines@) =~= before.push(line@));
        assert(target.subrange(0, i + 1) =~= target.subrange(0, i as int).push(target[i as int]));
        i = i + 1;
    }
    assert(target.subrange(0, target.len() as int) =~= target);
}

/// The terminal lines of a section body: the detail lines of each of its lines.
pub open spec fn section_body_lines(body: Seq<PlaceLine>, options: VlackuRenderOptions) -> Seq<
    Seq<char>,
>
    decreases body.len(),
{
    if body.len() == 0 {
        seq![]
    } else {
        section_body_lines(body.drop_last(), options) + detail_lines_spec(
            place_text_spec(body.last(), options.sumti_places),
            options,
        )
    }
}

/// Every line is whitespace only (or there is none).
pub open spec fn blank_place_lines(body: Seq<PlaceLine>) -> bool {
    forall|i: int| 0 <= i < body.len() ==> all_ws(#[trigger] body[i].text@)
}

/// A titled section of a card: nothing when its text is blank.
pub open spec fn section_spec(
    title: Seq<char>,
    body: Seq<PlaceLine>,
    options: VlackuRenderOptions,
) -> Seq<Seq<char>> {
    if blank_place_lines(body) {
        seq![]
    } else {
        seq![seq![' ', ' '] + dark_spec(title, options.color)] + section_body_lines(body, options)
    }
}

fn place_lines_blank(body: &Vec<PlaceLine>) -> (r: bool)
    ensures
        r == blank_place_lines(body@),
{
    let mut i: usize = 0;
    while i < body.len()
        invariant
            i <= body.len(),
            forall|j: int| 0 <= j < i ==> all_ws(#[trigger] body@[j].text@),
        decreases body.len() - i,
    {
        if !is_blank(body[i].text.as_str()) {
            return false;
        }
        i = i + 1;
    }
    true
}

fn push_section(
    lines: &mut Vec<String>,
    title: &str,
    body: &Vec<PlaceLine>,
    definition: bool,
    options: &VlackuRenderOptions,
)
    requires
        options.wf(),
    ensures
        views(final(lines)@) == views(old(lines)@) + section_spec(title@, body@, *options),
{
    if place_lines_blank(body) {
        assert(views(lines@) + Seq::<Seq<char>>::empty() =~= views(lines@));
        return;
    }
    let ghost start = views(lines@);
    let mut head = String::new();
    head.push(' ');
    head.push(' ');
    let t = dark(title, options.color);
    push_str(&mut head, t.as_str());
    assert(head@ =~= seq![' ', ' '] + dark_spec(title@, options.color));
    let ghost hv = head@;
    lines.push(head);
    let ghost first = views(lines@);
    assert(first =~= start.push(hv));
    assert(first =~= start + seq![seq![' ', ' '] + dark_spec(title@, options.color)]);
    let mut i: usize = 0;
    while i < body.len()
        invariant
            i <= body.len(),
            options.wf(),
            views(lines@) == first + section_body_lines(body@.subrange(0, i as int), *options),
        decreases body.len() - i,
    {
        let ghost before = views(lines@);
        let text = if definition {
            vlacku_definition_text_for_sumti_places(&body[i], options)
        } else {
            vlacku_reference_text_for_sumti_places(&body[i], options)
        };
        push_rendered_vlacku_detail_lines(lines, text.as_str(), options);
        proof {
            let s = body@.subrange(0, i + 1);
            assert(s.drop_last() =~= body@.subrange(0, i as int));
            assert(views(lines@) =~= first + section_body_lines(s, *options));
        }
        i = i + 1;
    }
    assert(body@.subrange(0, body.len() as int) =~= body@);
}

/// What a lujvo piece is.
#[derive(Debug, Clone, Copy, PartialEq, Eq, Structural)]
pub enum VlackuCompositionKind {
    Rafsi,
    Hyphen,
}

/// One piece of a decomposed lujvo. `surface` holds canonical phonemes;
/// `surface_rendered` holds them spelled in the glyph style, when they could be read.
#[derive(Debug, Clone)]
pub struct VlackuCompositionPiece {
    pub kind: VlackuCompositionKind,
    pub surface: String,
    pub surface_rendered: Option<String>,
}

/// The surface of a piece as shown: its spelling in the glyph style, or as given.
pub open spec fn piece_surface(piece: VlackuCompositionPiece) -> Seq<char> {
    match piece.surface_rendered {
        Some(r) => r@,
        None => piece.surface@,
    }
}

/// A rafsi piece in red, a hyphen dark.
pub open spec fn piece_spec(piece: VlackuCompositionPiece, color: bool) -> Seq<char> {
    match piece.kind {
        VlackuCompositionKind::Rafsi => red_spec(piece_surface(piece), color),
        VlackuCompositionKind::Hyphen => dark_spec(piece_surface(piece), color),
    }
}

/// Renders one lujvo piece.
pub fn render_vlacku_decomposition_piece(
    piece: &VlackuCompositionPiece,
    color: bool,
    glyphs: GlyphStyle,
) -> (r: String)
    ensures
        r@ == piece_spec(*piece, color),
{
    let surface = match &piece.surface_rendered {
        Some(r) => r.as_str(),
        None => piece.surface.as_str(),
    };
    match piece.kind {
        VlackuCompositionKind::Rafsi => red(surface, color),
        VlackuCompositionKind::Hyphen => dark(surface, color),
    }
}

/// A decomposed lujvo: its rendered pieces joined by the dark separator.
pub open spec fn decomposition_spec(
    pieces: Seq<VlackuCompositionPiece>,
    color: bool,
    glyphs: GlyphStyle,
) -> Seq<char> {
    join_spec(
        Seq::new(pieces.len(), |i: int| piece_spec(pieces[i], color)),
        dark_spec(lujvo_separator_spec(glyphs), color),
    )
}

/// Renders a decomposed lujvo.
pub fn render_vlacku_decomposition(
    pieces: &Vec<VlackuCompositionPiece>,
    color: bool,
    glyphs: GlyphStyle,
) -> (r: String)
    ensures
        r@ == decomposition_spec(pieces@, color, glyphs),
{
    let separator = dark(lujvo_separator(glyphs), color);
    let mut rendered: Vec<String> = Vec::new();
    let mut i: usize = 0;
    while i < pieces.len()
        invariant
            i <= pieces.len(),
            views(rendered@) =~= Seq::new(i as nat, |j: int| piece_spec(pieces@[j], color)),
        decreases pieces.len() - i,
    {
        let ghost before = views(rendered@);
        let piece = render_vlacku_decomposition_piece(&pieces[i], color, glyphs);
        rendered.push(piece);
        assert(views(rendered@) =~= before.push(piece_spec(pieces@[i as int], color)));
        i = i + 1;
    }
    join_strings(&rendered, separator.as_str())
}

/// The vote count as shown: `official` for an official word in ASCII style, else the
/// dictionary's display of the count.
pub open spec fn votes_spec(vote_display: Seq<char>, is_official: bool, glyphs: GlyphStyle) -> Seq<
    char,
> {
    if glyphs == GlyphStyle::Ascii && is_official {
        "official"@
    } else {
        vote_display
    }
}

/// The vote count of a card as shown in its header.
pub fn format_vlacku_votes(vote_display: &str, is_official: bool, glyphs: GlyphStyle) -> (r: String)
    ensures
        r@ == votes_spec(vote_display@, is_official, glyphs),
{
    if glyphs == GlyphStyle::Ascii && is_official {
        crate::text::owned("official")
    } else {
        crate::text::owned(vote_display)
    }
}

/// A dictionary card, as the renderer reads it. The word type also comes normalized,
/// the vote count also as the dictionary displays it, the similarity as a rounded
/// percentage, and the lujvo pieces as given and, where they could be read, spelled in
/// the glyph style.
#[derive(Debug, Clone)]
pub struct VlackuCard {
    pub word: String,
    pub author: Option<String>,
    pub word_type: String,
    pub word_type_normalized: String,
    pub selmaho: Option<String>,
    pub similarity_percent: Option<i32>,
    pub votes: Option<i32>,
    pub vote_display: String,
    pub is_official: bool,
    pub rafsi: Vec<String>,
    pub decomposition: Vec<VlackuCompositionPiece>,
    pub glosses: Vec<String>,
    /// The glosses joined by `; `, with their sumti places numbered.
    pub glosses_indexed: String,
    pub definition: Vec<PlaceLine>,
    pub notes: Vec<PlaceLine>,
    pub etymology: Option<Vec<PlaceLine>>,
}

/// The word type as a header shows it: `unknown` in place of an empty one.
pub open spec fn shown_word_type(word_type: Seq<char>) -> Seq<char> {
    if word_type.len() > 0 {
        word_type
    } else {
        "unknown"@
    }
}

/// The word type shown in a card header: `cmavo: ` and the selma'o for a cmavo with a
/// non-blank selma'o, else the word type (`unknown` when it is empty). It is never
/// empty.
pub open spec fn header_type_spec(card: VlackuCard) -> Seq<char> {
    match card.selmaho {
        Some(s) => if has_prefix(card.word_type_normalized@, "cmavo"@) && trim_spec(s@).len() > 0 {
            "cmavo: "@ + s@
        } else {
            shown_word_type(card.word_type@)
        },
        None => shown_word_type(card.word_type@),
    }
}

/// The word type shown in a card header.
pub fn vlacku_header_type(card: &VlackuCard) -> (r: String)
    ensures
        r@ == header_type_spec(*card),
        r@.len() > 0,
{
    proof {
        reveal_strlit("cmavo: ");
        reveal_strlit("unknown");
    }
    if starts_with(card.word_type_normalized.as_str(), "cmavo") {
        match &card.selmaho {
            Some(selmaho) => {
                if !is_blank(selmaho.as_str()) {
                    return concat2("cmavo: ", selmaho.as_str());
                }
            },
            None => {},
        }
    }
    if card.word_type.as_str().is_empty() {
        crate::text::owned("unknown")
    } else {
        card.word_type.clone()
    }
}

/// The author part of a card header.
pub open spec fn author_part_spec(card: VlackuCard, c: bool) -> Seq<char> {
    match card.author {
        Some(a) => dark_spec(" | "@, c) + dark_spec("by: "@, c) + a@,
        None => seq![],
    }
}

/// The similarity part of a card header.
pub open spec fn similarity_part_spec(card: VlackuCard, c: bool) -> Seq<char> {
    match card.similarity_percent {
        Some(p) => dark_spec(" | "@, c) + dark_spec("similarity: "@, c) + magenta_spec(
            signed_decimal(p as int).push('%'),
            c,
        ),
        None => seq![],
    }
}

/// The votes part of a card header.
pub open spec fn votes_part_spec(card: VlackuCard, c: bool, glyphs: GlyphStyle) -> Seq<char> {
    match card.votes {
        Some(_) => dark_spec(" | "@, c) + dark_spec("votes: "@, c) + green_spec(
            votes_spec(card.vote_display@, card.is_official, glyphs),
            c,
        ),
        None => seq![],
    }
}

/// The header line of a card: number, word, author, word type, similarity and votes.
pub open spec fn header_spec(index: nat, card: VlackuCard, options: VlackuRenderOptions) -> Seq<
    char,
> {
    let c = options.color;
    dark_spec(decimal(index).push('.'), c).push(' ') + yellow_underlined_spec(card.word@, c)
        + author_part_spec(card, c) + dark_spec(" | "@, c) + blue_spec(header_type_spec(card), c)
        + similarity_part_spec(card, c) + votes_part_spec(card, c, options.glyphs)
}

fn bar_line(label: &str, value: &str, color: bool) -> (r: String)
    ensures
        r@ == dark_spec(" | "@, color) + dark_spec(label@, color) + value@,
{
    let bar = dark(" | ", color);
    let l = dark(label, color);
    let mut out = bar;
    push_str(&mut out, l.as_str());
    push_str(&mut out, value);
    out
}

fn author_part(card: &VlackuCard, color: bool) -> (r: String)
    ensures
        r@ == author_part_spec(*card, color),
{
    match &card.author {
        Some(author) => bar_line("by: ", author.as_str(), color),
        None => String::new(),
    }
}

fn similarity_part(card: &VlackuCard, color: bool) -> (r: String)
    ensures
        r@ == similarity_part_spec(*card, color),
{
    match card.similarity_percent {
        Some(p) => {
            let mut percent = String::new();
            push_signed_decimal(&mut percent, p as i64);
            percent.push('%');
            assert(percent@ =~= signed_decimal(p as int).push('%'));
            let value = magenta(percent.as_str(), color);
            bar_line("similarity: ", value.as_str(), color)
        },
        None => String::new(),
    }
}

fn votes_part(card: &VlackuCard, color: bool, glyphs: GlyphStyle) -> (r: String)
    ensures
        r@ == votes_part_spec(*card, color, glyphs),
{
    match card.votes {
        Some(_) => {
            let shown = format_vlacku_votes(card.vote_display.as_str(), card.is_official, glyphs);
            let value = green(shown.as_str(), color);
            bar_line("votes: ", value.as_str(), color)
        },
        None => String::new(),
    }
}

fn render_vlacku_header(index: usize, card: &VlackuCard, options: &VlackuRenderOptions) -> (r:
    String)
    ensures
        r@ == header_spec(index as nat, *card, *options),
{
    let color = options.color;
    let mut number = decimal_string(index as u64);
    number.push('.');
    let mut header = dark(number.as_str(), color);
    header.push(' ');
    let word = yellow_underlined(card.word.as_str(), color);
    push_str(&mut header, word.as_str());
    let author = author_part(card, color);
    push_str(&mut header, author.as_str());
    let bar = dark(" | ", color);
    push_str(&mut header, bar.as_str());
    let kind = blue(vlacku_header_type(card).as_str(), color);
    push_str(&mut header, kind.as_str());
    let similarity = similarity_part(card, color);
    push_str(&mut header, similarity.as_str());
    let votes = votes_part(card, color, options.glyphs);
    push_str(&mut header, votes.as_str());
    header
}

/// The `rafsi:` line of a card, if it has rafsi.
pub open spec fn rafsi_lines(card: VlackuCard, color: bool) -> Seq<Seq<char>> {
    if card.rafsi@.len() > 0 {
        seq![
            seq![' ', ' '] + dark_spec("rafsi: "@, color) + join_spec(
                Seq::new(card.rafsi@.len(), |i: int| red_spec(card.rafsi@[i]@, color)),
                " "@,
            ),
        ]
    } else {
        seq![]
    }
}

/// The `decomposition:` line of a card, if it has a decomposition.
pub open spec fn decomposition_lines(card: VlackuCard, options: VlackuRenderOptions) -> Seq<
    Seq<char>,
> {
    if card.decomposition@.len() > 0 {
        seq![
            seq![' ', ' '] + dark_spec("decomposition: "@, options.color) + decomposition_spec(
                card.decomposition@,
                options.color,
                options.glyphs,
            ),
        ]
    } else {
        seq![]
    }
}

/// The glosses of a card as one line, in the sumti-place style.
pub open spec fn gloss_text_spec(card: VlackuCard, places: CliSumtiPlaces) -> Seq<char> {
    match places {
        CliSumtiPlaces::Raw => join_spec(views(card.glosses@), "; "@),
        CliSumtiPlaces::Index => card.glosses_indexed@,
    }
}

/// The `glosses:` section of a card, if it has glosses.
pub open spec fn gloss_lines(card: VlackuCard, options: VlackuRenderOptions) -> Seq<Seq<char>> {
    if card.glosses@.len() > 0 {
        seq![seq![' ', ' '] + dark_spec("glosses:"@, options.color)] + detail_lines_spec(
            gloss_text_spec(card, options.sumti_places),
            options,
        )
    } else {
        seq![]
    }
}

/// The `etymology:` section of a card, when asked for and not blank.
pub open spec fn etymology_lines(card: VlackuCard, options: VlackuRenderOptions) -> Seq<Seq<char>> {
    if options.show_etymology {
        match card.etymology {
            Some(e) => section_spec("etymology:"@, e@, options),
            None => seq![],
        }
    } else {
        seq![]
    }
}

/// All lines of a card, in order.
pub open spec fn card_lines(index: nat, card: VlackuCard, options: VlackuRenderOptions) -> Seq<
    Seq<char>,
> {
    seq![header_spec(index, card, options)] + rafsi_lines(card, options.color) + decomposition_lines(
        card,
        options,
    ) + gloss_lines(card, options) + section_spec("definitions:"@, card.definition@, options)
        + section_spec("notes:"@, card.notes@, options) + etymology_lines(card, options)
}

/// A rendered card: its lines, each ended by a newline.
pub open spec fn card_spec(index: nat, card: VlackuCard, options: VlackuRenderOptions) -> Seq<char> {
    join_spec(card_lines(index, card, options), "\n"@).push('\n')
}

fn rafsi_line(card: &VlackuCard, color: bool) -> (r: String)
    ensures
        r@ == seq![' ', ' '] + dark_spec("rafsi: "@, color) + join_spec(
            Seq::new(card.rafsi@.len(), |i: int| red_spec(card.rafsi@[i]@, color)),
            " "@,
        ),
{
    let mut reds: Vec<String> = Vec::new();
    let mut i: usize = 0;
    while i < card.rafsi.len()
        invariant
            i <= card.rafsi.len(),
            views(reds@) =~= Seq::new(i as nat, |j: int| red_spec(card.rafsi@[j]@, color)),
        decreases card.rafsi.len() - i,
    {
        let ghost before = views(reds@);
        let piece = red(card.rafsi[i].as_str(), color);
        reds.push(piece);
        assert(views(reds@) =~= before.push(red_spec(card.rafsi@[i as int]@, color)));
        i = i + 1;
    }
    let joined = join_strings(&reds, " ");
    let label = dark("rafsi: ", color);
    let mut line = String::new();
    line.push(' ');
    line.push(' ');
    push_str(&mut line, label.as_str());
    push_str(&mut line, joined.as_str());
    assert(line@ =~= seq![' ', ' '] + label@ + joined@);
    line
}

fn title_line(label: &str, color: bool) -> (r: String)
    ensures
        r@ == seq![' ', ' '] + dark_spec(label@, color),
{
    let dl = dark(label, color);
    let mut line = String::new();
    line.push(' ');
    line.push(' ');
    push_str(&mut line, dl.as_str());
    assert(line@ =~= seq![' ', ' '] + dl@);
    line
}

fn labelled_line(label: &str, value: &str, color: bool) -> (r: String)
    ensures
        r@ == seq![' ', ' '] + dark_spec(label@, color) + value@,
{
    let dl = dark(label, color);
    let mut line = String::new();
    line.push(' ');
    line.push(' ');
    push_str(&mut line, dl.as_str());
    push_str(&mut line, value);
    assert(line@ =~= seq![' ', ' '] + dl@ + value@);
    line
}

/// Renders one card; `index` is its number in the list.
pub fn render_vlacku_card(index: usize, card: &VlackuCard, options: &VlackuRenderOptions) -> (r:
    String)
    requires
        options.wf(),
    ensures
        r@ == card_spec(index as nat, *card, *options),
{
    let color = options.color;
    let mut lines: Vec<String> = Vec::new();
    let header = render_vlacku_header(index, card, options);
    lines.push(header);
    let ghost l1 = views(lines@);
    assert(l1 =~= seq![header_spec(index as nat, *card, *options)]);
    if card.rafsi.len() > 0 {
        let line = rafsi_line(card, color);
        lines.push(line);
        assert(views(lines@) =~= l1.push(line@));
    }
    let ghost l2 = views(lines@);
    assert(l2 =~= l1 + rafsi_lines(*card, color));
    if card.decomposition.len() > 0 {
        let rendered = render_vlacku_decomposition(&card.decomposition, color, options.glyphs);
        let line = labelled_line("decomposition: ", rendered.as_str(), color);
        lines.push(line);
        assert(views(lines@) =~= l2.push(line@));
    }
    let ghost l3 = views(lines@);
    assert(l3 =~= l2 + decomposition_lines(*card, *options));
    if card.glosses.len() > 0 {
        let head = title_line("glosses:", color);
        lines.push(head);
        assert(views(lines@) =~= l3.push(head@));
        let ghost l3a = views(lines@);
        let glosses = match options.sumti_places {
            CliSumtiPlaces::Raw => join_strings(&card.glosses, "; "),
            CliSumtiPlaces::Index => card.glosses_indexed.clone(),
        };
        push_rendered_vlacku_detail_lines(&mut lines, glosses.as_str(), options);
        assert(views(lines@) =~= l3 + gloss_lines(*card, *options));
    } else {
        assert(views(lines@) =~= l3 + gloss_lines(*card, *options));
    }
    let ghost l4 = views(lines@);
    push_section(&mut lines, "definitions:", &card.definition, true, options);
    let ghost l5 = views(lines@);
    push_section(&mut lines, "notes:", &card.notes, false, options);
    let ghost l6 = views(lines@);
    if options.show_etymology {
        match &card.etymology {
            Some(etymology) => {
                push_section(&mut lines, "etymology:", etymology, false, options);
            },
            None => {},
        }
    }
    assert(views(lines@) =~= l6 + etymology_lines(*card, *options));
    assert(views(lines@) =~= card_lines(index as nat, *card, *options));
    let mut out = join_strings(&lines, "\n");
    out.push('\n');
    out
}

/// The result of a dictionary search.
#[derive(Debug, Clone)]
pub struct VlackuSearchOutput {
    pub cards: Vec<VlackuCard>,
    pub outcome: VlackuOutcome,
    pub diagnostics: Vec<String>,
}

/// The cards rendered one after another, numbered from one, each followed by an
/// empty line.
pub open spec fn cards_text(cards: Seq<VlackuCard>, options: VlackuRenderOptions) -> Seq<char>
    decreases cards.len(),
{
    if cards.len() == 0 {
        seq![]
    } else {
        cards_text(cards.drop_last(), options) + card_spec(cards.len(), cards.last(), options).push(
            '\n',
        )
    }
}

/// The rendered result of a search.
pub open spec fn output_spec(cards: Seq<VlackuCard>, options: VlackuRenderOptions) -> Seq<char> {
    if cards.len() == 0 {
        "No matches found.\n"@
    } else {
        cards_text(cards, options)
    }
}

/// Renders the cards of a search, or says that nothing was found.
pub fn render_vlacku_output_with_options(
    output: &VlackuSearchOutput,
    options: &VlackuRenderOptions,
) -> (r: String)
    requires
        options.wf(),
    ensures
        r@ == output_spec(output.cards@, *options),
        r@.len() > 0,
{
    proof {
        reveal_strlit("No matches found.\n");
    }
    if output.cards.len() == 0 {
        return crate::text::owned("No matches found.\n");
    }
    let mut rendered = String::new();
    let mut i: usize = 0;
    while i < output.cards.len()
        invariant
            i <= output.cards.len(),
            options.wf(),
            rendered@ == cards_text(output.cards@.subrange(0, i as int), *options),
        decreases output.cards.len() - i,
    {
        let card = render_vlacku_card(i + 1, &output.cards[i], options);
        push_str(&mut rendered, card.as_str());
        rendered.push('\n');
        proof {
            let s = output.cards@.subrange(0, i + 1);
            assert(s.drop_last() =~= output.cards@.subrange(0, i as int));
            assert(s.last() == output.cards@[i as int]);
        }
        i = i + 1;
    }
    assert(output.cards@.subrange(0, output.cards.len() as int) =~= output.cards@);
    rendered
}

/// Renders the cards of a search with numbered places, no wrapping and no etymology.
pub fn render_vlacku_output(
    output: &VlackuSearchOutput,
    color: bool,
    glyphs: GlyphStyle,
    slots: &PlaceSlots,
) -> (r: String)
    requires
        slots.open@.len() > 0,
        slots.close@.len() > 0,
    ensures
        r@ == output_spec(
            output.cards@,
            VlackuRenderOptions {
                color,
                glyphs,
                output_terminal_width: None,
                sumti_places: CliSumtiPlaces::Index,
                show_etymology: false,
                slots: *slots,
            },
        ),
{
    let options = VlackuRenderOptions {
        color,
        glyphs,
        output_terminal_width: None,
        sumti_places: CliSumtiPlaces::Index,
        show_etymology: false,
        slots: PlaceSlots { open: slots.open.clone(), close: slots.close.clone() },
    };
    render_vlacku_output_with_options(output, &options)
}

/// Renders the cards of a search with numbered places and no etymology, wrapped to
/// the terminal width when one is given.
pub fn render_vlacku_output_with_width(
    output: &VlackuSearchOutput,
    color: bool,
    glyphs: GlyphStyle,
    output_terminal_width: Option<usize>,
    slots: &PlaceSlots,
) -> (r: String)
    requires
        output_terminal_width matches Some(w) ==> w > 0,
        slots.open@.len() > 0,
        slots.close@.len() > 0,
    ensures
        r@ == output_spec(
            output.cards@,
            VlackuRenderOptions {
                color,
                glyphs,
                output_terminal_width,
                sumti_places: CliSumtiPlaces::Index,
                show_etymology: false,
                slots: *slots,
            },
        ),
{
    let options = VlackuRenderOptions {
        color,
        glyphs,
        output_terminal_width,
        sumti_places: CliSumtiPlaces::Index,
        show_etymology: false,
        slots: PlaceSlots { open: slots.open.clone(), close: slots.close.clone() },
    };
    render_vlacku_output_with_options(output, &options)
}

/// Whether a finished search prints anything on standard output: it does when it
/// found cards or was not an invalid request.
pub fn vlacku_output_is_printed(output: &VlackuSearchOutput) -> (r: bool)
    ensures
        r == (output.cards@.len() > 0 || output.outcome != VlackuOutcome::Invalid),
{
    output.cards.len() > 0 || output.outcome != VlackuOutcome::Invalid
}

} // verus!
