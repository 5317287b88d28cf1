//! The reference-grammar browser (`cukta`): which mode a command asks for, the
//! search targets it selects, and the checks on its options.

use crate::cli::{CliError, CuktaInput};
use crate::text::{
    ascii_lower_seq, comma_piece_texts, comma_pieces, is_blank, join_spec, str_eq,
    to_ascii_lowercase, trim, trim_spec, views,
};
use crate::validate::check_result;
use vstd::prelude::*;

verus! {

/// Whether any search-target option was given.
pub open spec fn target_flags_spec(input: CuktaInput) -> bool {
    input.targets@.len() > 0 || input.target_sections || input.target_paragraphs
        || input.target_examples
}

/// Whether any search-target option was given.
pub fn cukta_target_flags_present(input: &CuktaInput) -> (r: bool)
    ensures
        r == target_flags_spec(*input),
{
    input.targets.len() > 0 || input.target_sections || input.target_paragraphs
        || input.target_examples
}

/// The kinds of passage a search returns: the default set, or those selected.
#[derive(Debug, Clone, Copy, PartialEq, Eq, Structural)]
pub enum CuktaTargetFilter {
    Default,
    Selected { sections: bool, paragraphs: bool, examples: bool },
}

/// The state of reading the target pieces: whether a target was named explicitly,
/// and which kinds are selected.
pub struct TargetState {
    pub explicit: bool,
    pub sections: bool,
    pub paragraphs: bool,
    pub examples: bool,
}

/// The message for a target piece that names no kind.
pub open spec fn unknown_target_message(t: Seq<char>) -> Seq<char> {
    "Unknown cukta search target `"@ + t + "`. Use section, paragraph, or example."@
}

/// Reads the target pieces in order from `state`: each piece, trimmed and in lower
/// case, is empty, names a kind (singular or plural), or is unknown.
pub open spec fn target_scan(pieces: Seq<Seq<char>>, state: TargetState) -> Result<
    TargetState,
    Seq<char>,
>
    decreases pieces.len(),
{
    if pieces.len() == 0 {
        Ok(state)
    } else {
        let t = ascii_lower_seq(trim_spec(pieces[0]));
        let rest = pieces.subrange(1, pieces.len() as int);
        if t.len() == 0 {
            target_scan(rest, state)
        } else if t == "section"@ || t == "sections"@ {
            target_scan(rest, TargetState { explicit: true, sections: true, ..state })
        } else if t == "paragraph"@ || t == "paragraphs"@ {
            target_scan(rest, TargetState { explicit: true, paragraphs: true, ..state })
        } else if t == "example"@ || t == "examples"@ {
            target_scan(rest, TargetState { explicit: true, examples: true, ..state })
        } else {
            Err(unknown_target_message(t))
        }
    }
}

/// The target filter of a search, or the message for the first unknown target or for
/// an explicit selection of nothing.
pub open spec fn target_filter_spec(input: CuktaInput) -> Result<CuktaTargetFilter, Seq<char>> {
    let start = TargetState {
        explicit: input.target_sections || input.target_paragraphs || input.target_examples,
        sections: input.target_sections,
        paragraphs: input.target_paragraphs,
        examples: input.target_examples,
    };
    match target_scan(comma_piece_texts(views(input.targets@)), start) {
        Err(m) => Err(m),
        Ok(s) => if !s.explicit {
            Ok(CuktaTargetFilter::Default)
        } else if !(s.sections || s.paragraphs || s.examples) {
            Err("Select at least one cukta search target."@)
        } else {
            Ok(
                CuktaTargetFilter::Selected {
                    sections: s.sections,
                    paragraphs: s.paragraphs,
                    examples: s.examples,
                },
            )
        },
    }
}

/// The target filter that the search-target options select.
pub fn cukta_target_filter_from_input(input: &CuktaInput) -> (r: Result<CuktaTargetFilter, CliError>)
    ensures
        match r {
            Ok(f) => target_filter_spec(*input) == Result::<CuktaTargetFilter, Seq<char>>::Ok(f),
            Err(e) => target_filter_spec(*input) == Result::<CuktaTargetFilter, Seq<char>>::Err(
                e.message@,
            ),
        },
{
    let pieces = comma_pieces(&input.targets);
    let ghost all = views(pieces@);
    let mut explicit = input.target_sections || input.target_paragraphs || input.target_examples;
    let mut sections = input.target_sections;
    let mut paragraphs = input.target_paragraphs;
    let mut examples = input.target_examples;
    let ghost start = TargetState { explicit, sections, paragraphs, examples };
    let mut i: usize = 0;
    assert(all.subrange(0, all.len() as int) =~= all);
    while i < pieces.len()
        invariant
            i <= pieces.len(),
            all == views(pieces@),
            all == comma_piece_texts(views(input.targets@)),
            start == (TargetState {
                explicit: input.target_sections || input.target_paragraphs
                    || input.target_examples,
                sections: input.target_sections,
                paragraphs: input.target_paragraphs,
                examples: input.target_examples,
            }),
            target_scan(all, start) == target_scan(
                all.subrange(i as int, all.len() as int),
                TargetState { explicit, sections, paragraphs, examples },
            ),
        decreases pieces.len() - i,
    {
        let ghost rest = all.subrange(i as int, all.len() as int);
        assert(rest[0] == pieces@[i as int]@);
        assert(rest.subrange(1, rest.len() as int) =~= all.subrange(i + 1, all.len() as int));
        let t = to_ascii_lowercase(trim(pieces[i].as_str()).as_str());
        if t.as_str().is_empty() {
        } else if str_eq(t.as_str(), "section") || str_eq(t.as_str(), "sections") {
            explicit = true;
            sections = true;
        } else if str_eq(t.as_str(), "paragraph") || str_eq(t.as_str(), "paragraphs") {
            explicit = true;
            paragraphs = true;
        } else if str_eq(t.as_str(), "example") || str_eq(t.as_str(), "examples") {
            explicit = true;
            examples = true;
        } else {
            let message = crate::text::concat3(
                "Unknown cukta search target `",
                t.as_str(),
                "`. Use section, paragraph, or example.",
            );
            return Err(CliError::new(message));
        }
        i = i + 1;
    }
    if !explicit {
        return Ok(CuktaTargetFilter::Default);
    }
    if !(sections || paragraphs || examples) {
        return Err(CliError::from_str("Select at least one cukta search target."));
    }
    Ok(CuktaTargetFilter::Selected { sections, paragraphs, examples })
}

/// The number of request modes that the options choose.
pub open spec fn mode_count(input: CuktaInput) -> nat {
    (if input.toc {
        1nat
    } else {
        0nat
    }) + (if input.section is Some {
        1nat
    } else {
        0nat
    }) + (if input.example is Some {
        1nat
    } else {
        0nat
    }) + (if input.valsi is Some {
        1nat
    } else {
        0nat
    }) + (if input.query@.len() > 0 {
        1nat
    } else {
        0nat
    })
}

/// `Some` text that is blank.
pub open spec fn blank_option(value: Option<String>) -> bool {
    match value {
        Some(v) => trim_spec(v@).len() == 0,
        None => false,
    }
}

/// The message of the first rule that the `cukta` options break, if any.
pub open spec fn cukta_input_failure(input: CuktaInput) -> Option<Seq<char>> {
    let modes = mode_count(input);
    if input.count == Some(0usize) {
        Some("`--count` must be greater than 0"@)
    } else if modes > 1 {
        Some(
            "Choose only one cukta mode: --toc, --section, --example, --valsi, or a positional query."@,
        )
    } else if target_flags_spec(input) && target_filter_spec(input) is Err {
        match target_filter_spec(input) {
            Err(m) => Some(m),
            Ok(_) => None,
        }
    } else if target_flags_spec(input) && (input.toc || input.section is Some
        || input.example is Some) {
        Some("Cukta target filters are only valid with search modes."@)
    } else if modes == 0 {
        None
    } else if blank_option(input.valsi) {
        Some("`--valsi` requires a non-empty query."@)
    } else if blank_option(input.section) {
        Some("`--section` requires a non-empty reference."@)
    } else if blank_option(input.example) {
        Some("`--example` requires a non-empty reference."@)
    } else if input.query@.len() > 0 && trim_spec(join_spec(views(input.query@), " "@)).len()
        == 0 {
        Some("cukta query text must be non-empty."@)
    } else {
        None
    }
}

fn is_blank_option(value: &Option<String>) -> (r: bool)
    ensures
        r == blank_option(*value),
{
    match value {
        Some(v) => is_blank(v.as_str()),
        None => false,
    }
}

/// Checks the `cukta` options before any request is made.
pub fn validate_cukta_input(input: &CuktaInput) -> (r: Result<(), CliError>)
    ensures
        check_result(r, cukta_input_failure(*input)),
{
    if input.count == Some(0usize) {
        return Err(CliError::from_str("`--count` must be greater than 0"));
    }
    let modes: usize = (if input.toc {
        1usize
    } else {
        0usize
    }) + (if input.section.is_some() {
        1usize
    } else {
        0usize
    }) + (if input.example.is_some() {
        1usize
    } else {
        0usize
    }) + (if input.valsi.is_some() {
        1usize
    } else {
        0usize
    }) + (if input.query.len() > 0 {
        1usize
    } else {
        0usize
    });
    if modes > 1 {
        return Err(
            CliError::from_str(
                "Choose only one cukta mode: --toc, --section, --example, --valsi, or a positional query.",
            ),
        );
    }
    if cukta_target_flags_present(input) {
        match cukta_target_filter_from_input(input) {
            Err(e) => {
                return Err(e);
            },
            Ok(_) => {},
        }
        if input.toc || input.section.is_some() || input.example.is_some() {
            return Err(
                CliError::from_str("Cukta target filters are only valid with search modes."),
            );
        }
    }
    if modes == 0 {
        return Ok(());
    }
    if is_blank_option(&input.valsi) {
        return Err(CliError::from_str("`--valsi` requires a non-empty query."));
    }
    if is_blank_option(&input.section) {
        return Err(CliError::from_str("`--section` requires a non-empty reference."));
    }
    if is_blank_option(&input.example) {
        return Err(CliError::from_str("`--example` requires a non-empty reference."));
    }
    if input.query.len() > 0 {
        let joined = crate::vlacku::joined_query_text(&input.query);
        if is_blank(joined.as_str()) {
            return Err(CliError::from_str("cukta query text must be non-empty."));
        }
    }
    Ok(())
}

/// How a search matches: by word or by meaning.
#[derive(Debug, Clone, Copy, PartialEq, Eq, Structural)]
pub enum CuktaSearchMode {
    Word,
    Meaning,
}

/// What a `cukta` command asks for. `DefaultSection` is the section shown when no
/// mode is chosen.
#[derive(Debug, Clone)]
pub enum CuktaRequest {
    Toc,
    Section { reference: String },
    Example { reference: String },
    Search { mode: CuktaSearchMode, query: String, count: usize, targets: CuktaTargetFilter },
    DefaultSection,
}

/// The request of the options; `default_count` is the result count when none is given.
pub open spec fn cukta_request_spec(input: CuktaInput, default_count: usize) -> Result<
    CuktaRequest,
    Seq<char>,
> {
    let count = match input.count {
        Some(c) => c,
        None => default_count,
    };
    if input.toc {
        Ok(CuktaRequest::Toc)
    } else if input.section is Some {
        Ok(CuktaRequest::Section { reference: input.section->0 })
    } else if input.example is Some {
        Ok(CuktaRequest::Example { reference: input.example->0 })
    } else if input.valsi is Some || input.query@.len() > 0 {
        match target_filter_spec(input) {
            Err(m) => Err(m),
            Ok(targets) => Ok(
                CuktaRequest::Search {
                    mode: if input.valsi is Some {
                        CuktaSearchMode::Word
                    } else {
                        CuktaSearchMode::Meaning
                    },
                    query: input.valsi->0,
                    count,
                    targets,
                },
            ),
        }
    } else {
        Ok(CuktaRequest::DefaultSection)
    }
}

/// The trimmed text that a request carries, by what it is taken from.
pub open spec fn request_text(input: CuktaInput) -> Seq<char> {
    if input.section is Some {
        trim_spec(input.section->0@)
    } else if input.example is Some {
        trim_spec(input.example->0@)
    } else if input.valsi is Some {
        trim_spec(input.valsi->0@)
    } else {
        trim_spec(join_spec(views(input.query@), " "@))
    }
}

/// The request that the options make. References and queries are trimmed; the count
/// is the given one or `default_count`.
pub fn cukta_request_from_input(input: &CuktaInput, default_count: usize) -> (r: Result<
    CuktaRequest,
    CliError,
>)
    ensures
        match r {
            Ok(req) => match req {
                CuktaRequest::Toc => input.toc,
                CuktaRequest::Section { reference } => !input.toc && input.section is Some
                    && reference@ == request_text(*input),
                CuktaRequest::Example { reference } => !input.toc && input.section is None
                    && input.example is Some && reference@ == request_text(*input),
                CuktaRequest::Search { mode, query, count, targets } => !input.toc
                    && input.section is None && input.example is None && (input.valsi is Some
                    || input.query@.len() > 0) && mode == (if input.valsi is Some {
                    CuktaSearchMode::Word
                } else {
                    CuktaSearchMode::Meaning
                }) && query@ == request_text(*input) && count == (match input.count {
                    Some(c) => c,
                    None => default_count,
                }) && target_filter_spec(*input) == Result::<CuktaTargetFilter, Seq<char>>::Ok(
                    targets,
                ),
                CuktaRequest::DefaultSection => !input.toc && input.section is None
                    && input.example is None && input.valsi is None && input.query@.len() == 0,
            },
            Err(e) => !input.toc && input.section is None && input.example is None && (
            input.valsi is Some || input.query@.len() > 0) && target_filter_spec(*input)
                == Result::<CuktaTargetFilter, Seq<char>>::Err(e.message@),
        },
{
    if input.toc {
        return Ok(CuktaRequest::Toc);
    }
    match &input.section {
        Some(reference) => {
            return Ok(CuktaRequest::Section { reference: trim(reference.as_str()) });
        },
        None => {},
    }
    match &input.example {
        Some(reference) => {
            return Ok(CuktaRequest::Example { reference: trim(reference.as_str()) });
        },
        None => {},
    }
    let count = match input.count {
        Some(c) => c,
        None => default_count,
    };
    match &input.valsi {
        Some(query) => {
            let targets = cukta_target_filter_from_input(input)?;
            return Ok(
                CuktaRequest::Search {
                    mode: CuktaSearchMode::Word,
                    query: trim(query.as_str()),
                    count,
                    targets,
                },
            );
        },
        None => {},
    }
    if input.query.len() > 0 {
        let joined = crate::vlacku::joined_query_text(&input.query);
        let targets = cukta_target_filter_from_input(input)?;
        return Ok(
            CuktaRequest::Search {
                mode: CuktaSearchMode::Meaning,
                query: trim(joined.as_str()),
                count,
                targets,
            },
        );
    }
    Ok(CuktaRequest::DefaultSection)
}

/// A target piece as it is read: trimmed and in lower case.
pub open spec fn target_word(piece: Seq<char>) -> Seq<char> {
    ascii_lower_seq(trim_spec(piece))
}

/// Some piece, trimmed and in lower case, is `one` or `many`.
pub open spec fn some_piece_names(pieces: Seq<Seq<char>>, one: Seq<char>, many: Seq<char>) -> bool {
    exists|i: int|
        0 <= i < pieces.len() && (#[trigger] target_word(pieces[i]) == one || target_word(
            pieces[i],
        ) == many)
}

proof fn lemma_some_piece_names_split(pieces: Seq<Seq<char>>, one: Seq<char>, many: Seq<char>)
    requires
        pieces.len() > 0,
    ensures
        some_piece_names(pieces, one, many) == (target_word(pieces[0]) == one || target_word(
            pieces[0],
        ) == many || some_piece_names(pieces.subrange(1, pieces.len() as int), one, many)),
{
    let rest = pieces.subrange(1, pieces.len() as int);
    if some_piece_names(pieces, one, many) {
        let i = choose|i: int|
            0 <= i < pieces.len() && (#[trigger] target_word(pieces[i]) == one || target_word(
                pieces[i],
            ) == many);
        if i > 0 {
            assert(rest[i - 1] == pieces[i]);
            assert(target_word(rest[i - 1]) == one || target_word(rest[i - 1]) == many);
        }
    }
    if some_piece_names(rest, one, many) {
        let i = choose|i: int|
            0 <= i < rest.len() && (#[trigger] target_word(rest[i]) == one || target_word(rest[i])
                == many);
        assert(pieces[i + 1] == rest[i]);
        assert(target_word(pieces[i + 1]) == one || target_word(pieces[i + 1]) == many);
    }
}

/// A target word that names a kind of passage, singular or plural.
pub open spec fn names_a_kind(word: Seq<char>) -> bool {
    ||| word == "section"@
    ||| word == "sections"@
    ||| word == "paragraph"@
    ||| word == "paragraphs"@
    ||| word == "example"@
    ||| word == "examples"@
}

/// Some piece, trimmed and in lower case, is neither empty nor the name of a kind.
pub open spec fn some_piece_unknown(pieces: Seq<Seq<char>>) -> bool {
    exists|i: int|
        0 <= i < pieces.len() && #[trigger] target_word(pieces[i]).len() > 0 && !names_a_kind(
            target_word(pieces[i]),
        )
}

proof fn lemma_some_piece_unknown_split(pieces: Seq<Seq<char>>)
    requires
        pieces.len() > 0,
    ensures
        some_piece_unknown(pieces) == ((target_word(pieces[0]).len() > 0 && !names_a_kind(
            target_word(pieces[0]),
        )) || some_piece_unknown(pieces.subrange(1, pieces.len() as int))),
{
    let rest = pieces.subrange(1, pieces.len() as int);
    if some_piece_unknown(pieces) {
        let i = choose|i: int|
            0 <= i < pieces.len() && #[trigger] target_word(pieces[i]).len() > 0 && !names_a_kind(
                target_word(pieces[i]),
            );
        if i > 0 {
            assert(rest[i - 1] == pieces[i]);
            assert(target_word(rest[i - 1]).len() > 0);
        }
    }
    if some_piece_unknown(rest) {
        let i = choose|i: int|
            0 <= i < rest.len() && #[trigger] target_word(rest[i]).len() > 0 && !names_a_kind(
                target_word(rest[i]),
            );
        assert(pieces[i + 1] == rest[i]);
        assert(target_word(pieces[i + 1]).len() > 0);
    }
}

proof fn lemma_target_scan_fails(pieces: Seq<Seq<char>>, state: TargetState)
    ensures
        target_scan(pieces, state) is Err <==> some_piece_unknown(pieces),
    decreases pieces.len(),
{
    if pieces.len() > 0 {
        let t = target_word(pieces[0]);
        let rest = pieces.subrange(1, pieces.len() as int);
        lemma_some_piece_unknown_split(pieces);
        lemma_target_scan_fails(rest, state);
        lemma_target_scan_fails(rest, TargetState { explicit: true, sections: true, ..state });
        lemma_target_scan_fails(rest, TargetState { explicit: true, paragraphs: true, ..state });
        lemma_target_scan_fails(rest, TargetState { explicit: true, examples: true, ..state });
    } else {
        assert(!some_piece_unknown(pieces));
    }
}

proof fn lemma_target_scan_selects(pieces: Seq<Seq<char>>, state: TargetState)
    ensures
        target_scan(pieces, state) matches Ok(r) ==> {
            let sections = some_piece_names(pieces, "section"@, "sections"@);
            let paragraphs = some_piece_names(pieces, "paragraph"@, "paragraphs"@);
            let examples = some_piece_names(pieces, "example"@, "examples"@);
            &&& r.sections == (state.sections || sections)
            &&& r.paragraphs == (state.paragraphs || paragraphs)
            &&& r.examples == (state.examples || examples)
            &&& r.explicit == (state.explicit || sections || paragraphs || examples)
        },
    decreases pieces.len(),
{
    reveal_strlit("section");
    reveal_strlit("sections");
    reveal_strlit("paragraph");
    reveal_strlit("paragraphs");
    reveal_strlit("example");
    reveal_strlit("examples");
    if pieces.len() > 0 {
        let t = target_word(pieces[0]);
        let rest = pieces.subrange(1, pieces.len() as int);
        lemma_some_piece_names_split(pieces, "section"@, "sections"@);
        lemma_some_piece_names_split(pieces, "paragraph"@, "paragraphs"@);
        lemma_some_piece_names_split(pieces, "example"@, "examples"@);
        assert("section"@.len() == 7 && "sections"@.len() == 8 && "paragraph"@.len() == 9
            && "paragraphs"@.len() == 10 && "example"@.len() == 7 && "examples"@.len() == 8);
        assert("section"@[0] != "example"@[0]);
        assert("sections"@[0] != "examples"@[0]);
        if t.len() == 0 {
            lemma_target_scan_selects(rest, state);
        } else if t == "section"@ || t == "sections"@ {
            assert(t != "example"@ && t != "examples"@) by {
                if t == "section"@ {
                    assert(t[0] != "example"@[0]);
                } else {
                    assert(t[0] != "examples"@[0]);
                }
            }
            lemma_target_scan_selects(rest, TargetState { explicit: true, sections: true, ..state });
        } else if t == "paragraph"@ || t == "paragraphs"@ {
            lemma_target_scan_selects(
                rest,
                TargetState { explicit: true, paragraphs: true, ..state },
            );
        } else if t == "example"@ || t == "examples"@ {
            lemma_target_scan_selects(rest, TargetState { explicit: true, examples: true, ..state });
        }
    }
}

/// A target piece that names a kind selects exactly that kind: when the search targets
/// are read, sections are selected exactly when `--target-sections` is given or some
/// comma-separated target piece is `section` or `sections` (trimmed, in any case), and
/// likewise paragraphs and examples; the default set is kept only when no target
/// flag is given and no piece names a kind; a piece that is neither blank nor a kind
/// makes the request fail, and otherwise a selection of some kind is always granted.
pub proof fn law_cukta_targets_select_named_kinds(input: CuktaInput)
    ensures
        ({
            let pieces = comma_piece_texts(views(input.targets@));
            let sections = input.target_sections || some_piece_names(
                pieces,
                "section"@,
                "sections"@,
            );
            let paragraphs = input.target_paragraphs || some_piece_names(
                pieces,
                "paragraph"@,
                "paragraphs"@,
            );
            let examples = input.target_examples || some_piece_names(
                pieces,
                "example"@,
                "examples"@,
            );
            &&& target_filter_spec(input) matches Ok(CuktaTargetFilter::Selected {
                sections: s,
                paragraphs: p,
                examples: e,
            }) ==> s == sections && p == paragraphs && e == examples
            &&& target_filter_spec(input) matches Ok(CuktaTargetFilter::Default) ==> !sections
                && !paragraphs && !examples
            &&& some_piece_unknown(pieces) ==> target_filter_spec(input) is Err
            &&& (!some_piece_unknown(pieces) && (sections || paragraphs || examples))
                ==> target_filter_spec(input) == Ok::<_, Seq<char>>(
                CuktaTargetFilter::Selected { sections, paragraphs, examples },
            )
        }),
{
    let start = TargetState {
        explicit: input.target_sections || input.target_paragraphs || input.target_examples,
        sections: input.target_sections,
        paragraphs: input.target_paragraphs,
        examples: input.target_examples,
    };
    lemma_target_scan_selects(comma_piece_texts(views(input.targets@)), start);
    lemma_target_scan_fails(comma_piece_texts(views(input.targets@)), start);
}

} // verus!
