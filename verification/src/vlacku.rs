//! Dictionary lookups (`vlacku`): checking the request, reading the outcome of a
//! search, and the option checks that come before any search.

use crate::cli::{CliError, CliStatus, CliSumtiPlaces};
use crate::text::{
    comma_piece_texts, comma_pieces, concat2, concat3, is_blank, join_spec, join_strings,
    trim_spec, views,
};
use crate::validate::check_result;
use vstd::prelude::*;

verus! {

/// How a dictionary search turned out.
#[derive(Debug, Clone, Copy, PartialEq, Eq, Structural)]
pub enum VlackuOutcome {
    Found,
    ValidMissing,
    Invalid,
}

/// The exit status that a search outcome maps to.
pub open spec fn outcome_status(outcome: VlackuOutcome) -> CliStatus {
    match outcome {
        VlackuOutcome::Found => CliStatus::Success,
        VlackuOutcome::ValidMissing => CliStatus::ValidMissing,
        VlackuOutcome::Invalid => CliStatus::InvalidInput,
    }
}

/// The exit status of a finished search.
pub fn cli_status_from_vlacku_outcome(outcome: VlackuOutcome) -> (r: CliStatus)
    ensures
        r == outcome_status(outcome),
{
    match outcome {
        VlackuOutcome::Found => CliStatus::Success,
        VlackuOutcome::ValidMissing => CliStatus::ValidMissing,
        VlackuOutcome::Invalid => CliStatus::InvalidInput,
    }
}

/// One lookup asked for on the command line.
#[derive(Debug, Clone)]
pub enum VlackuRequest {
    Valsi(String),
    Rafsi(String),
    Lujvo(String),
    Sound(String),
    Meaning(String),
}

impl VlackuRequest {
    /// The text that the request looks up.
    pub open spec fn value_spec(&self) -> Seq<char> {
        match self {
            VlackuRequest::Valsi(v) => v@,
            VlackuRequest::Rafsi(v) => v@,
            VlackuRequest::Lujvo(v) => v@,
            VlackuRequest::Sound(v) => v@,
            VlackuRequest::Meaning(v) => v@,
        }
    }

    /// How the request is named in messages.
    pub open spec fn flag_spec(&self) -> Seq<char> {
        match self {
            VlackuRequest::Valsi(_) => "--valsi"@,
            VlackuRequest::Rafsi(_) => "--rafsi"@,
            VlackuRequest::Lujvo(_) => "--lujvo"@,
            VlackuRequest::Sound(_) => "--sound"@,
            VlackuRequest::Meaning(_) => "semantic query"@,
        }
    }
}

/// The message for a request whose value is blank.
pub open spec fn request_value_failure(request: VlackuRequest) -> Option<Seq<char>> {
    if trim_spec(request.value_spec()).len() == 0 {
        Some(request.flag_spec() + " requires a non-empty value"@)
    } else {
        None
    }
}

/// A request's value must hold something besides whitespace.
pub fn validate_vlacku_request_value(request: &VlackuRequest) -> (r: Result<(), CliError>)
    ensures
        check_result(r, request_value_failure(*request)),
{
    let (flag, value) = match request {
        VlackuRequest::Valsi(v) => ("--valsi", v),
        VlackuRequest::Rafsi(v) => ("--rafsi", v),
        VlackuRequest::Lujvo(v) => ("--lujvo", v),
        VlackuRequest::Sound(v) => ("--sound", v),
        VlackuRequest::Meaning(v) => ("semantic query", v),
    };
    if is_blank(value.as_str()) {
        return Err(CliError::new(concat2(flag, " requires a non-empty value")));
    }
    Ok(())
}

/// A word type that a search can be restricted to.
#[derive(Debug, Clone, Copy, PartialEq, Eq, Structural)]
pub enum WordTypeFilter {
    Gismu,
    Lujvo,
    Cmavo,
    Cmevla,
    Fuivla,
    Brivla,
    /// A word type the dictionary knows that `--word-type` does not offer.
    Other,
}

/// Whether `--word-type` offers the filter.
pub fn is_valid_vlacku_word_type_filter(value: WordTypeFilter) -> (r: bool)
    ensures
        r == !(value is Other),
{
    match value {
        WordTypeFilter::Other => false,
        _ => true,
    }
}

/// One comma-separated piece of a `--word-type` value, normalized, with the
/// filter that the normalized text names, if any.
#[derive(Debug, Clone)]
pub struct WordTypePiece {
    pub normalized: String,
    pub filter: Option<WordTypeFilter>,
}

/// Splits every `--word-type` value at its commas.
pub fn word_type_pieces(raw_values: &Vec<String>) -> (out: Vec<String>)
    ensures
        views(out@) == comma_piece_texts(views(raw_values@)),
{
    comma_pieces(raw_values)
}

/// The message for a `--word-type` piece that names no offered type.
pub open spec fn unknown_word_type_message(normalized: Seq<char>) -> Seq<char> {
    "Unknown `--word-type` value: "@ + normalized
        + ". Use gismu, lujvo, cmavo, cmevla, fu'ivla, or brivla."@
}

/// The filters named by `pieces`, each once, in the order of first mention; or the
/// message for the first piece that names no offered type. Empty pieces are skipped.
pub open spec fn word_type_scan(pieces: Seq<WordTypePiece>) -> Result<
    Seq<WordTypeFilter>,
    Seq<char>,
>
    decreases pieces.len(),
{
    if pieces.len() == 0 {
        Ok(seq![])
    } else {
        match word_type_scan(pieces.drop_last()) {
            Err(m) => Err(m),
            Ok(values) => {
                let p = pieces.last();
                if p.normalized@.len() == 0 {
                    Ok(values)
                } else {
                    match p.filter {
                        Some(f) => if f is Other {
                            Err(unknown_word_type_message(p.normalized@))
                        } else if values.contains(f) {
                            Ok(values)
                        } else {
                            Ok(values.push(f))
                        },
                        None => Err(unknown_word_type_message(p.normalized@)),
                    }
                }
            },
        }
    }
}

/// The word-type filters of a search: those of `word_type_scan`, except that values were
/// given and none of their pieces named a type.
pub open spec fn word_types_result(values_given: bool, pieces: Seq<WordTypePiece>) -> Result<
    Seq<WordTypeFilter>,
    Seq<char>,
> {
    match word_type_scan(pieces) {
        Err(m) => Err(m),
        Ok(v) => if values_given && v.len() == 0 {
            Err("`--word-type` requires at least one non-empty type"@)
        } else {
            Ok(v)
        },
    }
}

/// Once a prefix of the pieces fails, the whole scan fails with the same message.
proof fn lemma_word_type_scan_err(p: Seq<WordTypePiece>, k: int, m: Seq<char>)
    requires
        0 <= k <= p.len(),
        word_type_scan(p.subrange(0, k)) == Result::<Seq<WordTypeFilter>, Seq<char>>::Err(m),
    ensures
        word_type_scan(p) == Result::<Seq<WordTypeFilter>, Seq<char>>::Err(m),
    decreases p.len() - k,
{
    if k == p.len() {
        assert(p.subrange(0, k) =~= p);
    } else {
        assert(p.subrange(0, k + 1).drop_last() =~= p.subrange(0, k));
        lemma_word_type_scan_err(p, k + 1, m);
    }
}

fn contains_filter(values: &Vec<WordTypeFilter>, f: WordTypeFilter) -> (r: bool)
    ensures
        r == values@.contains(f),
{
    let mut i: usize = 0;
    while i < values.len()
        invariant
            i <= values.len(),
            forall|j: int| 0 <= j < i ==> values@[j] != f,
        decreases values.len() - i,
    {
        if values[i] == f {
            assert(values@[i as int] == f);
            return true;
        }
        i = i + 1;
    }
    false
}

/// The word-type filters that `--word-type` asks for. `pieces` are the pieces of
/// `raw_values` (see `word_type_pieces`), each normalized and looked up.
pub fn parse_vlacku_word_types(raw_values: &Vec<String>, pieces: &Vec<WordTypePiece>) -> (r: Result<
    Vec<WordTypeFilter>,
    CliError,
>)
    ensures
        match r {
            Ok(v) => word_types_result(raw_values.len() > 0, pieces@) == Result::<
                Seq<WordTypeFilter>,
                Seq<char>,
            >::Ok(v@),
            Err(e) => word_types_result(raw_values.len() > 0, pieces@) == Result::<
                Seq<WordTypeFilter>,
                Seq<char>,
            >::Err(e.message@),
        },
{
    let mut values: Vec<WordTypeFilter> = Vec::new();
    let mut i: usize = 0;
    while i < pieces.len()
        invariant
            i <= pieces.len(),
            word_type_scan(pieces@.subrange(0, i as int)) == Result::<
                Seq<WordTypeFilter>,
                Seq<char>,
            >::Ok(values@),
        decreases pieces.len() - i,
    {
        let ghost s = pieces@.subrange(0, i + 1);
        assert(s.drop_last() =~= pieces@.subrange(0, i as int));
        let piece = &pieces[i];
        if !piece.normalized.as_str().is_empty() {
            match piece.filter {
                Some(f) => {
                    if !is_valid_vlacku_word_type_filter(f) {
                        proof {
                            lemma_word_type_scan_err(
                                pieces@,
                                i + 1,
                                unknown_word_type_message(piece.normalized@),
                            );
                        }
                        return Err(
                            CliError::new(
                                concat3(
                                    "Unknown `--word-type` value: ",
                                    piece.normalized.as_str(),
                                    ". Use gismu, lujvo, cmavo, cmevla, fu'ivla, or brivla.",
                                ),
                            ),
                        );
                    }
                    if !contains_filter(&values, f) {
                        values.push(f);
                    }
                },
                None => {
                    proof {
                        lemma_word_type_scan_err(
                            pieces@,
                            i + 1,
                            unknown_word_type_message(piece.normalized@),
                        );
                    }
                    return Err(
                        CliError::new(
                            concat3(
                                "Unknown `--word-type` value: ",
                                piece.normalized.as_str(),
                                ". Use gismu, lujvo, cmavo, cmevla, fu'ivla, or brivla.",
                            ),
                        ),
                    );
                },
            }
        }
        i = i + 1;
    }
    assert(pieces@.subrange(0, pieces.len() as int) =~= pieces@);
    if raw_values.len() > 0 && values.len() == 0 {
        return Err(CliError::from_str("`--word-type` requires at least one non-empty type"));
    }
    Ok(values)
}

/// The positional query words joined by single spaces.
pub fn joined_query_text(query: &Vec<String>) -> (out: String)
    ensures
        out@ == join_spec(views(query@), " "@),
{
    join_strings(query, " ")
}

/// The `vlacku` command's options. The minimal similarity is a float that is only
/// checked for its range here: `min_similarity_in_range` is `Some` when
/// `--min-similarity` was given, holding whether it lies within `0..=100`.
#[derive(Debug, Clone)]
pub struct VlackuInput {
    pub count: Option<usize>,
    pub ascii: bool,
    pub word_types: Vec<String>,
    pub min_votes: Option<i32>,
    pub min_similarity_in_range: Option<bool>,
    pub sumti_places: CliSumtiPlaces,
    pub decompose_lujvo: bool,
    pub show_etymology: bool,
    pub requests: Vec<VlackuRequest>,
    pub query: Vec<String>,
}

/// The number of sound requests in `requests`.
pub open spec fn sound_count(requests: Seq<VlackuRequest>) -> nat
    decreases requests.len(),
{
    if requests.len() == 0 {
        0
    } else {
        sound_count(requests.drop_last()) + if requests.last() is Sound {
            1nat
        } else {
            0nat
        }
    }
}

/// The number of meaning (semantic) requests in `requests`.
pub open spec fn meaning_count(requests: Seq<VlackuRequest>) -> nat
    decreases requests.len(),
{
    if requests.len() == 0 {
        0
    } else {
        meaning_count(requests.drop_last()) + if requests.last() is Meaning {
            1nat
        } else {
            0nat
        }
    }
}

/// The message of the first request, from the front, whose value is blank.
pub open spec fn first_request_failure(requests: Seq<VlackuRequest>) -> Option<Seq<char>>
    decreases requests.len(),
{
    if requests.len() == 0 {
        None
    } else if request_value_failure(requests[0]) is Some {
        request_value_failure(requests[0])
    } else {
        first_request_failure(requests.drop_first())
    }
}

/// The message of the first rule that the `vlacku` options break, if any.
pub open spec fn vlacku_input_failure(input: VlackuInput, pieces: Seq<WordTypePiece>) -> Option<
    Seq<char>,
> {
    let n = input.requests@.len();
    let sounds = sound_count(input.requests@);
    let meanings = meaning_count(input.requests@);
    if input.count == Some(0usize) {
        Some("`--count` must be greater than 0"@)
    } else if input.min_similarity_in_range == Some(false) {
        Some("`--min-similarity` must be between 0 and 100"@)
    } else if n == 0 && input.query@.len() == 0 {
        Some("No query provided for vlacku. Use --valsi, --rafsi, --lujvo, or --sound."@)
    } else if input.query@.len() > 0 && n > 0 {
        Some(
            "Do not pass positional query text when using --valsi, --rafsi, --lujvo, or --sound."@,
        )
    } else if sounds > 1 {
        Some("`--sound` may be specified only once"@)
    } else if sounds == 1 && n > 1 {
        Some("`--sound` cannot be combined with --valsi, --rafsi, or --lujvo"@)
    } else if meanings > 1 {
        Some("semantic vlacku query may be specified only once"@)
    } else if meanings == 1 && n > 1 {
        Some(
            "semantic vlacku query cannot be combined with --valsi, --rafsi, --lujvo, or --sound"@,
        )
    } else if input.min_similarity_in_range is Some && sounds != 1 && meanings != 1 && n > 0 {
        Some("`--min-similarity` is only valid with `--sound` or semantic search"@)
    } else if first_request_failure(input.requests@) is Some {
        first_request_failure(input.requests@)
    } else {
        match word_types_result(input.word_types@.len() > 0, pieces) {
            Err(m) => Some(m),
            Ok(_) => None,
        }
    }
}

fn count_requests(requests: &Vec<VlackuRequest>) -> (r: (usize, usize))
    ensures
        r.0 == sound_count(requests@),
        r.1 == meaning_count(requests@),
{
    let mut sounds: usize = 0;
    let mut meanings: usize = 0;
    let mut i: usize = 0;
    while i < requests.len()
        invariant
            i <= requests.len(),
            sounds == sound_count(requests@.subrange(0, i as int)),
            meanings == meaning_count(requests@.subrange(0, i as int)),
            sounds <= i,
            meanings <= i,
        decreases requests.len() - i,
    {
        let ghost s = requests@.subrange(0, i + 1);
        assert(s.drop_last() =~= requests@.subrange(0, i as int));
        match &requests[i] {
            VlackuRequest::Sound(_) => {
                sounds = sounds + 1;
            },
            VlackuRequest::Meaning(_) => {
                meanings = meanings + 1;
            },
            _ => {},
        }
        i = i + 1;
    }
    assert(requests@.subrange(0, requests.len() as int) =~= requests@);
    (sounds, meanings)
}

fn validate_requests(requests: &Vec<VlackuRequest>) -> (r: Result<(), CliError>)
    ensures
        check_result(r, first_request_failure(requests@)),
{
    let mut i: usize = 0;
    assert(requests@.subrange(0, requests@.len() as int) =~= requests@);
    while i < requests.len()
        invariant
            i <= requests.len(),
            first_request_failure(requests@) == first_request_failure(
                requests@.subrange(i as int, requests@.len() as int),
            ),
        decreases requests.len() - i,
    {
        let ghost rest = requests@.subrange(i as int, requests@.len() as int);
        assert(rest[0] == requests@[i as int]);
        assert(rest.drop_first() =~= requests@.subrange(i + 1, requests@.len() as int));
        match validate_vlacku_request_value(&requests[i]) {
            Err(e) => {
                return Err(e);
            },
            Ok(()) => {},
        }
        i = i + 1;
    }
    Ok(())
}

/// Checks the `vlacku` options before any search; `pieces` are the looked-up pieces
/// of `input.word_types` (see `parse_vlacku_word_types`).
pub fn validate_vlacku_input(input: &VlackuInput, pieces: &Vec<WordTypePiece>) -> (r: Result<
    (),
    CliError,
>)
    ensures
        check_result(r, vlacku_input_failure(*input, pieces@)),
{
    let n = input.requests.len();
    let (sounds, meanings) = count_requests(&input.requests);
    if input.count == Some(0usize) {
        return Err(CliError::from_str("`--count` must be greater than 0"));
    }
    if input.min_similarity_in_range == Some(false) {
        return Err(CliError::from_str("`--min-similarity` must be between 0 and 100"));
    }
    if n == 0 && input.query.len() == 0 {
        return Err(
            CliError::from_str(
                "No query provided for vlacku. Use --valsi, --rafsi, --lujvo, or --sound.",
            ),
        );
    }
    if input.query.len() > 0 && n > 0 {
        return Err(
            CliError::from_str(
                "Do not pass positional query text when using --valsi, --rafsi, --lujvo, or --sound.",
            ),
        );
    }
    if sounds > 1 {
        return Err(CliError::from_str("`--sound` may be specified only once"));
    }
    if sounds == 1 && n > 1 {
        return Err(
            CliError::from_str("`--sound` cannot be combined with --valsi, --rafsi, or --lujvo"),
        );
    }
    if meanings > 1 {
        return Err(CliError::from_str("semantic vlacku query may be specified only once"));
    }
    if meanings == 1 && n > 1 {
        return Err(
            CliError::from_str(
                "semantic vlacku query cannot be combined with --valsi, --rafsi, --lujvo, or --sound",
            ),
        );
    }
    if input.min_similarity_in_range.is_some() && sounds != 1 && meanings != 1 && n > 0 {
        return Err(
            CliError::from_str("`--min-similarity` is only valid with `--sound` or semantic search"),
        );
    }
    validate_requests(&input.requests)?;
    match parse_vlacku_word_types(&input.word_types, pieces) {
        Err(e) => Err(e),
        Ok(_) => Ok(()),
    }
}

/// The text of a semantic search, if the options ask for one.
pub open spec fn semantic_query_spec(input: VlackuInput) -> Option<Seq<char>> {
    if input.requests@.len() == 0 {
        let q = join_spec(views(input.query@), " "@);
        if q.len() > 0 {
            Some(q)
        } else {
            None
        }
    } else if input.requests@.len() == 1 && input.requests@[0] is Meaning {
        Some(input.requests@[0].value_spec())
    } else {
        None
    }
}

/// The text of a semantic search: the positional query when no request flag was
/// given, or the value of a single meaning request.
pub fn semantic_vlacku_query(input: &VlackuInput) -> (r: Option<String>)
    ensures
        match r {
            Some(q) => semantic_query_spec(*input) == Some(q@),
            None => semantic_query_spec(*input) is None,
        },
{
    if input.requests.len() == 0 {
        let query = joined_query_text(&input.query);
        if query.as_str().is_empty() {
            return None;
        }
        return Some(query);
    }
    if input.requests.len() == 1 {
        match &input.requests[0] {
            VlackuRequest::Meaning(q) => {
                return Some(q.clone());
            },
            _ => {},
        }
    }
    None
}

} // verus!
