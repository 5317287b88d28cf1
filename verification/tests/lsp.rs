use jbotci::lsp_tokens::{
    completion_item_kind, completion_reason_detail, lsp_position_encoding,
    negotiate_position_encoding, plain_diagnostic_message, snapshot_semantic_tokens,
    CompletionKind, LspCompletionItemKind, LspSemanticToken, PositionEncoding,
    SyntaxExpectationReason, TokenPosition, TokenSpan,
};

const QUOTATION_MARKER: u32 = 9;
const STRING: u32 = 4;

fn pos(line: usize, column: usize) -> TokenPosition {
    TokenPosition { line, column }
}

fn token(delta_line: u32, delta_start: u32, length: u32, token_type: u32) -> LspSemanticToken {
    LspSemanticToken { delta_line, delta_start, length, token_type, token_modifiers_bitset: 0 }
}

#[test]
fn multiline_quote_payloads_are_split_into_single_line_semantic_tokens() {
    // "zoi gy one\ntwo gy": the payload runs from the end of the first line into the second.
    let spans = vec![
        TokenSpan { start: pos(0, 0), end: pos(0, 3), token_type: QUOTATION_MARKER, line_end_columns: vec![] },
        TokenSpan { start: pos(0, 4), end: pos(0, 6), token_type: QUOTATION_MARKER, line_end_columns: vec![] },
        TokenSpan { start: pos(0, 7), end: pos(1, 3), token_type: STRING, line_end_columns: vec![10] },
        TokenSpan { start: pos(1, 4), end: pos(1, 6), token_type: QUOTATION_MARKER, line_end_columns: vec![] },
    ];
    assert_eq!(
        snapshot_semantic_tokens(&spans),
        vec![
            token(0, 0, 3, QUOTATION_MARKER),
            token(0, 4, 2, QUOTATION_MARKER),
            token(0, 3, 3, STRING),
            token(1, 0, 3, STRING),
            token(0, 4, 2, QUOTATION_MARKER),
        ]
    );
}

#[test]
fn empty_line_pieces_are_dropped() {
    let spans = vec![TokenSpan {
        start: pos(0, 5),
        end: pos(3, 0),
        token_type: STRING,
        line_end_columns: vec![5, 0, 4],
    }];
    assert_eq!(snapshot_semantic_tokens(&spans), vec![token(2, 0, 4, STRING)]);
    assert_eq!(snapshot_semantic_tokens(&Vec::new()), vec![]);
}

#[test]
fn utf8_positions_when_the_client_offers_them() {
    let offered = vec!["utf-16".to_owned(), "utf-8".to_owned()];
    assert_eq!(negotiate_position_encoding(Some(&offered)), PositionEncoding::Utf8);
    assert_eq!(negotiate_position_encoding(Some(&vec!["utf-32".to_owned()])), PositionEncoding::Utf16);
    assert_eq!(negotiate_position_encoding(None), PositionEncoding::Utf16);
    assert_eq!(lsp_position_encoding(PositionEncoding::Utf8), "utf-8");
    assert_eq!(lsp_position_encoding(PositionEncoding::Utf16), "utf-16");
}

#[test]
fn diagnostics_put_each_note_on_its_own_line() {
    assert_eq!(
        plain_diagnostic_message("bad word", &vec!["note one".to_owned()], &vec!["styled".to_owned()]),
        "bad word\nnote one\nstyled"
    );
    assert_eq!(plain_diagnostic_message("only", &Vec::new(), &Vec::new()), "only");
}

#[test]
fn completion_details_and_kinds() {
    let continues = SyntaxExpectationReason::ContinueCurrent { construct: "sumti".to_owned() };
    assert_eq!(completion_reason_detail(&continues), "continues sumti");
    let nested = SyntaxExpectationReason::StartNested { construct: "selbri".to_owned() };
    assert_eq!(completion_reason_detail(&nested), "starts selbri");
    let fresh = SyntaxExpectationReason::EndThenStart { starts: "bridi".to_owned(), ends: vec![] };
    assert_eq!(completion_reason_detail(&fresh), "starts bridi");
    let closing = SyntaxExpectationReason::EndThenStart {
        starts: "bridi".to_owned(),
        ends: vec!["sumti".to_owned(), "tanru".to_owned()],
    };
    assert_eq!(completion_reason_detail(&closing), "ends sumti, tanru; starts bridi");
    assert_eq!(completion_item_kind(CompletionKind::Brivla), LspCompletionItemKind::Function);
    assert_eq!(completion_item_kind(CompletionKind::LetterWord), LspCompletionItemKind::Keyword);
    assert_eq!(completion_item_kind(CompletionKind::Terminator), LspCompletionItemKind::Operator);
}

#[test]
fn tokens_read_back_as_their_starts() {
    let spans = vec![
        TokenSpan { start: pos(0, 2), end: pos(2, 1), token_type: STRING, line_end_columns: vec![9, 4] },
        TokenSpan { start: pos(2, 3), end: pos(2, 8), token_type: QUOTATION_MARKER, line_end_columns: vec![] },
    ];
    let tokens = snapshot_semantic_tokens(&spans);
    let mut line = 0u32;
    let mut column = 0u32;
    let mut starts = Vec::new();
    for (index, t) in tokens.iter().enumerate() {
        if index == 0 || t.delta_line > 0 {
            line += t.delta_line;
            column = t.delta_start;
        } else {
            column += t.delta_start;
        }
        starts.push((line, column, t.length));
    }
    assert_eq!(starts, vec![(0, 2, 7), (1, 0, 4), (2, 0, 1), (2, 3, 5)]);
}
