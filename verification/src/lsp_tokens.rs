//! The relative encoding of semantic tokens that the language server sends: each
//! token is placed by its distance from the token before it.

use crate::text::{join_spec, join_strings, owned, push_str, str_eq, views};
use vstd::prelude::*;

verus! {

/// A position in a document: line and column, counted from zero.
#[derive(Debug, Clone, Copy, PartialEq, Eq, Structural)]
pub struct TokenPosition {
    pub line: usize,
    pub column: usize,
}

/// A semantic token as the protocol encodes it.
#[derive(Debug, Clone, Copy, PartialEq, Eq, Structural)]
pub struct LspSemanticToken {
    pub delta_line: u32,
    pub delta_start: u32,
    pub length: u32,
    pub token_type: u32,
    pub token_modifiers_bitset: u32,
}

/// `start` does not come before `previous`.
pub open spec fn in_order(previous: Option<TokenPosition>, start: TokenPosition) -> bool {
    match previous {
        Some(p) => p.line < start.line || (p.line == start.line && p.column <= start.column),
        None => true,
    }
}

/// The encoded token for a one-line span from `start` to `end`, after `previous`:
/// lines from the previous token's line, and columns from its column when on the same
/// line, else from the line start.
pub open spec fn encoded_token(
    previous: Option<TokenPosition>,
    start: TokenPosition,
    end: TokenPosition,
    token_type: u32,
) -> LspSemanticToken {
    let (delta_line, delta_start) = match previous {
        Some(p) => if start.line == p.line {
            (0int, start.column - p.column)
        } else {
            (start.line - p.line, start.column as int)
        },
        None => (start.line as int, start.column as int),
    };
    LspSemanticToken {
        delta_line: delta_line as u32,
        delta_start: delta_start as u32,
        length: (end.column - start.column) as u32,
        token_type,
        token_modifiers_bitset: 0,
    }
}

/// Appends the token of a one-line span and makes its start the previous position.
pub fn push_lsp_semantic_token(
    tokens: &mut Vec<LspSemanticToken>,
    previous: &mut Option<TokenPosition>,
    start: TokenPosition,
    end: TokenPosition,
    token_type: u32,
)
    requires
        start.line == end.line,
        start.column < end.column,
        in_order(*old(previous), start),
    ensures
        final(tokens)@ == old(tokens)@.push(encoded_token(*old(previous), start, end, token_type)),
        *final(previous) == Some(start),
{
    let (delta_line, delta_start) = match *previous {
        Some(p) => {
            let delta_line = start.line - p.line;
            let delta_start = if delta_line == 0 {
                start.column - p.column
            } else {
                start.column
            };
            (delta_line, delta_start)
        },
        None => (start.line, start.column),
    };
    tokens.push(
        LspSemanticToken {
            delta_line: delta_line as u32,
            delta_start: delta_start as u32,
            length: (end.column - start.column) as u32,
            token_type,
            token_modifiers_bitset: 0,
        },
    );
    *previous = Some(start);
}

/// The positions of encoded tokens, read back from their distances.
pub open spec fn decoded_positions(tokens: Seq<LspSemanticToken>) -> Seq<(int, int)>
    decreases tokens.len(),
{
    if tokens.len() == 0 {
        seq![]
    } else {
        let before = decoded_positions(tokens.drop_last());
        let t = tokens.last();
        let (line, column) = if before.len() == 0 {
            (t.delta_line as int, t.delta_start as int)
        } else if t.delta_line == 0 {
            (before.last().0, before.last().1 + t.delta_start)
        } else {
            (before.last().0 + t.delta_line, t.delta_start as int)
        };
        before.push((line, column))
    }
}

/// The last decoded position is the previous position of the encoder.
pub open spec fn decoder_agrees(tokens: Seq<LspSemanticToken>, previous: Option<TokenPosition>) -> bool {
    match previous {
        Some(p) => decoded_positions(tokens).len() > 0 && decoded_positions(tokens).last() == (
        p.line as int, p.column as int),
        None => tokens.len() == 0,
    }
}

/// Reading the encoded tokens back gives their positions: when the decoder agrees
/// with the encoder before a token is added, the token decodes to its start and the
/// decoder agrees again. Positions must fit the protocol's 32-bit fields.
pub proof fn law_semantic_tokens_decode_to_their_starts(
    tokens: Seq<LspSemanticToken>,
    previous: Option<TokenPosition>,
    start: TokenPosition,
    end: TokenPosition,
    token_type: u32,
)
    requires
        decoder_agrees(tokens, previous),
        in_order(previous, start),
        start.line <= u32::MAX,
        start.column <= u32::MAX,
    ensures
        ({
            let next = tokens.push(encoded_token(previous, start, end, token_type));
            &&& decoded_positions(next) == decoded_positions(tokens).push(
                (start.line as int, start.column as int),
            )
            &&& decoder_agrees(next, Some(start))
        }),
{
    let next = tokens.push(encoded_token(previous, start, end, token_type));
    assert(next.drop_last() =~= tokens);
    let t = encoded_token(previous, start, end, token_type);
    let before = decoded_positions(tokens);
    match previous {
        Some(p) => {
            assert(before.len() > 0);
            if start.line == p.line {
                let d = start.column - p.column;
                assert(0 <= d <= u32::MAX);
                assert(t.delta_line == 0);
                assert(t.delta_start == d);
            } else {
                let d = start.line - p.line;
                assert(0 < d <= u32::MAX);
                assert(t.delta_line == d);
                assert(t.delta_start == start.column);
            }
        },
        None => {
            assert(before.len() == 0);
        },
    }
    assert(decoded_positions(next) == before.push((start.line as int, start.column as int)));
}

/// A semantic token of the document: where it starts and ends, its type, and, for
/// each line that it starts or runs through before its last, where that line ends.
#[derive(Debug, Clone)]
pub struct TokenSpan {
    pub start: TokenPosition,
    pub end: TokenPosition,
    pub token_type: u32,
    pub line_end_columns: Vec<usize>,
}

/// A span runs forward and knows the end of each line before its last.
pub open spec fn span_wf(span: TokenSpan) -> bool {
    &&& in_order(Some(span.start), span.end)
    &&& span.line_end_columns@.len() == span.end.line - span.start.line
}

/// The spans are well formed and none starts before the one before it ends.
pub open spec fn spans_wf(spans: Seq<TokenSpan>) -> bool {
    &&& forall|i: int| 0 <= i < spans.len() ==> span_wf(#[trigger] spans[i])
    &&& forall|i: int| 0 < i < spans.len() ==> in_order(Some(spans[i - 1].end), #[trigger] spans[i].start)
}

/// The part of a span on its `k`-th line: from the span's start (or the line start)
/// to the span's end (or the line end).
pub open spec fn piece_at(span: TokenSpan, k: int) -> (TokenPosition, TokenPosition) {
    let n = span.end.line - span.start.line;
    let line = (span.start.line + k) as usize;
    let s = if k == 0 {
        span.start
    } else {
        TokenPosition { line, column: 0 }
    };
    let e = if k == n {
        span.end
    } else {
        TokenPosition { line, column: span.line_end_columns@[k] }
    };
    (s, e)
}

/// The nonempty parts of a span on its first `count` lines, each with the span's type.
pub open spec fn kept_pieces(span: TokenSpan, count: int) -> Seq<(TokenPosition, TokenPosition, u32)>
    decreases count,
{
    if count <= 0 {
        seq![]
    } else {
        let acc = kept_pieces(span, count - 1);
        let (s, e) = piece_at(span, count - 1);
        if s.column < e.column {
            acc.push((s, e, span.token_type))
        } else {
            acc
        }
    }
}

/// The one-line pieces of all spans, in order.
pub open spec fn all_pieces(spans: Seq<TokenSpan>) -> Seq<(TokenPosition, TokenPosition, u32)>
    decreases spans.len(),
{
    if spans.len() == 0 {
        seq![]
    } else {
        let last = spans.last();
        all_pieces(spans.drop_last()) + kept_pieces(last, last.end.line - last.start.line + 1)
    }
}

/// The encoded tokens of one-line pieces, and the start of the last of them.
pub open spec fn encode_all(pieces: Seq<(TokenPosition, TokenPosition, u32)>) -> (Seq<LspSemanticToken>, Option<TokenPosition>)
    decreases pieces.len(),
{
    if pieces.len() == 0 {
        (seq![], None)
    } else {
        let (tokens, previous) = encode_all(pieces.drop_last());
        let p = pieces.last();
        (tokens.push(encoded_token(previous, p.0, p.1, p.2)), Some(p.0))
    }
}

/// The semantic tokens of a document: each span is cut at line ends into one-line
/// pieces, empty pieces are dropped, and the pieces are encoded in order.
pub fn snapshot_semantic_tokens(spans: &Vec<TokenSpan>) -> (r: Vec<LspSemanticToken>)
    requires
        spans_wf(spans@),
    ensures
        r@ == encode_all(all_pieces(spans@)).0,
{
    let mut tokens: Vec<LspSemanticToken> = Vec::new();
    let mut previous: Option<TokenPosition> = None;
    let mut i: usize = 0;
    while i < spans.len()
        invariant
            spans_wf(spans@),
            i <= spans.len(),
            (tokens@, previous) == encode_all(all_pieces(spans@.subrange(0, i as int))),
            i > 0 ==> in_order(previous, spans@[i - 1].end),
        decreases spans.len() - i,
    {
        let span = &spans[i];
        let ghost done = all_pieces(spans@.subrange(0, i as int));
        assert(span_wf(spans@[i as int]));
        proof {
            if i > 0 {
                assert(in_order(Some(spans@[i - 1].end), spans@[i as int].start));
            }
        }
        let n = span.end.line - span.start.line;
        let mut k: usize = 0;
        while k < n
            invariant
                span_wf(*span),
                n == span.end.line - span.start.line,
                k <= n,
                (tokens@, previous) == encode_all(done + kept_pieces(*span, k as int)),
                in_order(previous, piece_at(*span, k as int).0),
            decreases n - k,
        {
            let line = span.start.line + k;
            let s = if k == 0 {
                span.start
            } else {
                TokenPosition { line, column: 0 }
            };
            let e = TokenPosition { line, column: span.line_end_columns[k] };
            assert((s, e) == piece_at(*span, k as int));
            if s.column < e.column {
                proof {
                    let p = done + kept_pieces(*span, k as int);
                    assert(done + kept_pieces(*span, k + 1) =~= p.push((s, e, span.token_type)));
                    assert(p.push((s, e, span.token_type)).drop_last() =~= p);
                }
                push_lsp_semantic_token(&mut tokens, &mut previous, s, e, span.token_type);
            }
            k = k + 1;
        }
        let s = if n == 0 {
            span.start
        } else {
            TokenPosition { line: span.end.line, column: 0 }
        };
        let e = span.end;
        assert((s, e) == piece_at(*span, n as int));
        if s.column < e.column {
            proof {
                let p = done + kept_pieces(*span, n as int);
                assert(done + kept_pieces(*span, n + 1) =~= p.push((s, e, span.token_type)));
                assert(p.push((s, e, span.token_type)).drop_last() =~= p);
            }
            push_lsp_semantic_token(&mut tokens, &mut previous, s, e, span.token_type);
        } else {
            assert(done + kept_pieces(*span, n + 1) =~= done + kept_pieces(*span, n as int));
        }
        proof {
            let next = spans@.subrange(0, i + 1);
            assert(next.drop_last() =~= spans@.subrange(0, i as int));
            assert(next.last() == spans@[i as int]);
        }
        i = i + 1;
    }
    assert(spans@.subrange(0, spans.len() as int) =~= spans@);
    tokens
}

/// How columns of positions are counted: by UTF-8 bytes, UTF-16 units or characters.
#[derive(Debug, Clone, Copy, PartialEq, Eq, Structural)]
pub enum PositionEncoding {
    Utf8,
    Utf16,
    Utf32,
}

/// Whether the client offers an encoding named `utf-8`.
pub open spec fn offers_utf8(offered: Option<Seq<Seq<char>>>) -> bool {
    match offered {
        Some(names) => names.contains("utf-8"@),
        None => false,
    }
}

/// The position encoding that the server takes: UTF-8 when the client offers it,
/// else UTF-16, which every client understands.
pub fn negotiate_position_encoding(offered: Option<&Vec<String>>) -> (r: PositionEncoding)
    ensures
        r == (if offers_utf8(
            match offered {
                Some(v) => Some(views(v@)),
                None => None,
            },
        ) {
            PositionEncoding::Utf8
        } else {
            PositionEncoding::Utf16
        }),
{
    let names = match offered {
        Some(v) => v,
        None => {
            return PositionEncoding::Utf16;
        },
    };
    let mut i: usize = 0;
    while i < names.len()
        invariant
            i <= names.len(),
            offered == Some(names),
            forall|j: int| 0 <= j < i ==> #[trigger] names@[j]@ != "utf-8"@,
        decreases names.len() - i,
    {
        if str_eq(names[i].as_str(), "utf-8") {
            assert(views(names@)[i as int] == "utf-8"@);
            assert(views(names@).contains("utf-8"@));
            return PositionEncoding::Utf8;
        }
        i = i + 1;
    }
    proof {
        if views(names@).contains("utf-8"@) {
            let j = choose|j: int| 0 <= j < views(names@).len() && views(names@)[j] == "utf-8"@;
            assert(names@[j]@ == "utf-8"@);
        }
    }
    PositionEncoding::Utf16
}

/// The protocol's name of a position encoding that the server negotiates.
pub fn lsp_position_encoding(encoding: PositionEncoding) -> (r: &'static str)
    requires
        encoding != PositionEncoding::Utf32,
    ensures
        r@ == (if encoding == PositionEncoding::Utf8 {
            "utf-8"@
        } else {
            "utf-16"@
        }),
{
    match encoding {
        PositionEncoding::Utf8 => "utf-8",
        _ => "utf-16",
    }
}

/// Each of `parts` on a line of its own after what comes before.
pub open spec fn on_new_lines(parts: Seq<Seq<char>>) -> Seq<char>
    decreases parts.len(),
{
    if parts.len() == 0 {
        seq![]
    } else {
        on_new_lines(parts.drop_last()) + seq!['\n'] + parts.last()
    }
}

fn push_on_new_lines(out: &mut String, parts: &Vec<String>)
    ensures
        final(out)@ == old(out)@ + on_new_lines(views(parts@)),
{
    let mut i: usize = 0;
    while i < parts.len()
        invariant
            i <= parts.len(),
            out@ == old(out)@ + on_new_lines(views(parts@).subrange(0, i as int)),
        decreases parts.len() - i,
    {
        let ghost next = views(parts@).subrange(0, i + 1);
        assert(next.drop_last() =~= views(parts@).subrange(0, i as int));
        assert(next.last() == parts@[i as int]@);
        out.push('\n');
        push_str(out, parts[i].as_str());
        i = i + 1;
    }
    assert(views(parts@).subrange(0, parts.len() as int) =~= views(parts@));
}

/// The plain text of a diagnostic: its message, then each note and each styled note
/// (as text) on a line of its own.
pub fn plain_diagnostic_message(message: &str, notes: &Vec<String>, styled_notes: &Vec<String>) -> (r:
    String)
    ensures
        r@ == message@ + on_new_lines(views(notes@)) + on_new_lines(views(styled_notes@)),
{
    let mut out = owned(message);
    push_on_new_lines(&mut out, notes);
    push_on_new_lines(&mut out, styled_notes);
    out
}

/// Why the parser expects a word at a completion point.
#[derive(Debug, Clone)]
pub enum SyntaxExpectationReason {
    ContinueCurrent { construct: String },
    StartNested { construct: String },
    EndThenStart { starts: String, ends: Vec<String> },
}

/// The detail of a completion: the construct that it continues or starts, and the
/// constructs that it ends first.
pub open spec fn reason_detail_spec(reason: SyntaxExpectationReason) -> Seq<char> {
    match reason {
        SyntaxExpectationReason::ContinueCurrent { construct } => "continues "@ + construct@,
        SyntaxExpectationReason::StartNested { construct } => "starts "@ + construct@,
        SyntaxExpectationReason::EndThenStart { starts, ends } => if ends@.len() == 0 {
            "starts "@ + starts@
        } else {
            "ends "@ + join_spec(views(ends@), ", "@) + "; starts "@ + starts@
        },
    }
}

/// The detail of a completion.
pub fn completion_reason_detail(reason: &SyntaxExpectationReason) -> (r: String)
    ensures
        r@ == reason_detail_spec(*reason),
{
    match reason {
        SyntaxExpectationReason::ContinueCurrent { construct } => {
            let mut out = owned("continues ");
            push_str(&mut out, construct.as_str());
            out
        },
        SyntaxExpectationReason::StartNested { construct } => {
            let mut out = owned("starts ");
            push_str(&mut out, construct.as_str());
            out
        },
        SyntaxExpectationReason::EndThenStart { starts, ends } => {
            if ends.len() == 0 {
                let mut out = owned("starts ");
                push_str(&mut out, starts.as_str());
                out
            } else {
                let mut out = owned("ends ");
                let joined = join_strings(ends, ", ");
                push_str(&mut out, joined.as_str());
                push_str(&mut out, "; starts ");
                push_str(&mut out, starts.as_str());
                out
            }
        },
    }
}

/// What a completion offers.
#[derive(Debug, Clone, Copy, PartialEq, Eq, Structural)]
pub enum CompletionKind {
    Brivla,
    ProSumti,
    LetterWord,
    Cmavo,
    Cmevla,
    Terminator,
}

/// The protocol's kinds of completion item that the server uses.
#[derive(Debug, Clone, Copy, PartialEq, Eq, Structural)]
pub enum LspCompletionItemKind {
    Function,
    Variable,
    Keyword,
    Value,
    Operator,
}

/// The item kind of a completion: brivla as functions, pro-sumti as variables, cmavo
/// and letter words as keywords, names as values and terminators as operators.
pub fn completion_item_kind(kind: CompletionKind) -> (r: LspCompletionItemKind)
    ensures
        r == match kind {
            CompletionKind::Brivla => LspCompletionItemKind::Function,
            CompletionKind::ProSumti => LspCompletionItemKind::Variable,
            CompletionKind::LetterWord | CompletionKind::Cmavo => LspCompletionItemKind::Keyword,
            CompletionKind::Cmevla => LspCompletionItemKind::Value,
            CompletionKind::Terminator => LspCompletionItemKind::Operator,
        },
{
    match kind {
        CompletionKind::Brivla => LspCompletionItemKind::Function,
        CompletionKind::ProSumti => LspCompletionItemKind::Variable,
        CompletionKind::LetterWord | CompletionKind::Cmavo => LspCompletionItemKind::Keyword,
        CompletionKind::Cmevla => LspCompletionItemKind::Value,
        CompletionKind::Terminator => LspCompletionItemKind::Operator,
    }
}

/// Each piece starts no earlier than the one before it, and every start fits the
/// protocol's 32-bit fields.
pub open spec fn pieces_in_order(pieces: Seq<(TokenPosition, TokenPosition, u32)>) -> bool {
    &&& forall|i: int| 0 < i < pieces.len() ==> in_order(Some(pieces[i - 1].0), #[trigger] pieces[i].0)
    &&& forall|i: int|
        0 <= i < pieces.len() ==> (#[trigger] pieces[i]).0.line <= u32::MAX && pieces[i].0.column <= u32::MAX
}

/// The starts of the pieces, as a decoder reads positions.
pub open spec fn piece_starts(pieces: Seq<(TokenPosition, TokenPosition, u32)>) -> Seq<(int, int)> {
    Seq::new(pieces.len(), |i: int| (pieces[i].0.line as int, pieces[i].0.column as int))
}

/// The semantic tokens of ordered pieces read back as the pieces' starts: a client
/// that adds up the distances finds every token where it begins.
pub proof fn law_encoded_pieces_decode_to_their_starts(pieces: Seq<(TokenPosition, TokenPosition, u32)>)
    requires
        pieces_in_order(pieces),
    ensures
        decoded_positions(encode_all(pieces).0) == piece_starts(pieces),
        decoder_agrees(encode_all(pieces).0, encode_all(pieces).1),
        pieces.len() > 0 ==> encode_all(pieces).1 == Some(pieces.last().0),
    decreases pieces.len(),
{
    if pieces.len() > 0 {
        let before = pieces.drop_last();
        assert(pieces_in_order(before)) by {
            assert forall|i: int| 0 < i < before.len() implies in_order(Some(before[i - 1].0), #[trigger] before[i].0) by {
                assert(before[i] == pieces[i] && before[i - 1] == pieces[i - 1]);
            }
            assert forall|i: int| 0 <= i < before.len() implies (#[trigger] before[i]).0.line <= u32::MAX
                && before[i].0.column <= u32::MAX by {
                assert(before[i] == pieces[i]);
            }
        }
        law_encoded_pieces_decode_to_their_starts(before);
        let (tokens, previous) = encode_all(before);
        let p = pieces.last();
        assert(pieces[pieces.len() - 1] == p);
        if before.len() > 0 {
            assert(before.last() == pieces[pieces.len() - 2]);
            assert(in_order(Some(pieces[pieces.len() - 2].0), pieces[pieces.len() - 1].0));
        }
        assert(in_order(previous, p.0));
        law_semantic_tokens_decode_to_their_starts(tokens, previous, p.0, p.1, p.2);
        assert(piece_starts(pieces) =~= piece_starts(before).push((p.0.line as int, p.0.column as int)));
    } else {
        assert(piece_starts(pieces) =~= seq![]);
    }
}

} // verus!
