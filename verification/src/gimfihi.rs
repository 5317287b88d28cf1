//! The table of gismu candidates (`gimfihi`): score text, rafsi availability,
//! collisions, the non-default phonetic parameters, and the checks on the count.
//!
//! Scores and parameter values are floating-point numbers; the table reads each as
//! its fixed six-decimal text and trims that.

use crate::cli::{CliError, GimfihiCliNormalizer, GimfihiCliScorer};
use crate::text::{
    chars_of, decimal, join_spec, join_strings, push_decimal, push_str, strip_end, strip_trailing,
    views,
};
use vstd::prelude::*;

verus! {

/// A fixed-point number without trailing zeros and without a trailing point; `0`
/// when nothing is left.
pub open spec fn trim_float_spec(s: Seq<char>) -> Seq<char> {
    let t = strip_trailing(strip_trailing(s, '0'), '.');
    if t.len() == 0 {
        "0"@
    } else {
        t
    }
}

/// Trims a fixed-point number: trailing zeros, then a trailing point.
pub fn trim_float(value: &str) -> (r: String)
    ensures
        r@ == trim_float_spec(value@),
        r@.len() > 0,
{
    proof {
        reveal_strlit("0");
    }
    let v = chars_of(value);
    let a = strip_end(&v, v.len(), '0');
    assert(v@.subrange(0, v.len() as int) =~= v@);
    let b = strip_end(&v, a, '.');
    if b == 0 {
        crate::text::owned("0")
    } else {
        crate::text::string_of_range(&v, 0, b)
    }
}

/// `s` padded with spaces on the right to at least `width` characters, as `{:<width}`
/// formats it.
pub open spec fn pad_right(s: Seq<char>, width: nat) -> Seq<char> {
    if s.len() >= width {
        s
    } else {
        s + Seq::new((width - s.len()) as nat, |i: int| ' ')
    }
}

fn push_padded(out: &mut String, s: &str, width: usize)
    ensures
        final(out)@ == old(out)@ + pad_right(s@, width as nat),
{
    push_str(out, s);
    let n = chars_of(s).len();
    let ghost mid = out@;
    let mut k = n;
    while k < width
        invariant
            n == s@.len(),
            k >= n,
            k > width ==> k == n,
            mid == old(out)@ + s@,
            out@ == mid + Seq::new((k - n) as nat, |i: int| ' '),
        decreases width - k,
    {
        out.push(' ');
        assert(out@ =~= mid + Seq::new((k + 1 - n) as nat, |i: int| ' '));
        k = k + 1;
    }
    if n >= width {
        assert(out@ =~= old(out)@ + s@);
    }
    assert(out@ =~= old(out)@ + pad_right(s@, width as nat));
}

/// The sources that have taken a rafsi, in brackets and separated by `/`; nothing
/// when there are none.
pub open spec fn taken_sources_spec(sources: Seq<Seq<char>>) -> Seq<char> {
    if sources.len() == 0 {
        seq![]
    } else {
        "("@ + join_spec(sources, "/"@) + ")"@
    }
}

/// The sources that have taken a rafsi.
pub fn format_taken_rafsi_sources(sources: &Vec<String>) -> (r: String)
    ensures
        r@ == taken_sources_spec(views(sources@)),
{
    if sources.len() == 0 {
        return String::new();
    }
    let joined = join_strings(sources, "/");
    crate::text::concat3("(", joined.as_str(), ")")
}

/// Whether a rafsi of a candidate is free.
#[derive(Debug, Clone, Copy, PartialEq, Eq, Structural)]
pub enum RafsiAvailability {
    Free,
    OfficialTaken,
    ExperimentalTaken,
}

/// A rafsi of a candidate gismu, its availability and who has taken it.
#[derive(Debug, Clone)]
pub struct CandidateRafsi {
    pub form: String,
    pub availability: RafsiAvailability,
    pub taken_by: Vec<String>,
}

/// How a candidate collides with an existing word.
#[derive(Debug, Clone, Copy, PartialEq, Eq, Structural)]
pub enum CollisionKind {
    Identical,
    FinalVowel,
    SimilarConsonant,
}

/// A collision of a candidate with an existing word, whose word type is given by name.
#[derive(Debug, Clone)]
pub struct GismuCollision {
    pub kind: CollisionKind,
    pub existing_word: String,
    pub existing_word_type: String,
}

/// A gismu candidate; `score_fixed` is its score with six decimals.
#[derive(Debug, Clone)]
pub struct GimfihiCandidate {
    pub word: String,
    pub score_fixed: String,
    pub highlighted: bool,
    pub collision: Option<GismuCollision>,
    pub rafsi: Vec<CandidateRafsi>,
}

/// A collision as the table shows it.
pub open spec fn collision_spec(c: GismuCollision) -> Seq<char> {
    match c.kind {
        CollisionKind::Identical => "[= existing "@ + c.existing_word_type@ + "]"@,
        CollisionKind::FinalVowel => "[~ "@ + c.existing_word@ + ": final vowel]"@,
        CollisionKind::SimilarConsonant => "[~ "@ + c.existing_word@ + ": similar consonant]"@,
    }
}

/// A candidate's collision with an existing word.
pub fn format_gimfihi_collision(collision: &GismuCollision) -> (r: String)
    ensures
        r@ == collision_spec(*collision),
{
    match collision.kind {
        CollisionKind::Identical => crate::text::concat3(
            "[= existing ",
            collision.existing_word_type.as_str(),
            "]",
        ),
        CollisionKind::FinalVowel => crate::text::concat3(
            "[~ ",
            collision.existing_word.as_str(),
            ": final vowel]",
        ),
        CollisionKind::SimilarConsonant => crate::text::concat3(
            "[~ ",
            collision.existing_word.as_str(),
            ": similar consonant]",
        ),
    }
}

/// One rafsi with its availability, `form:status`.
pub open spec fn rafsi_entry_spec(r: CandidateRafsi) -> Seq<char> {
    r.form@ + ":"@ + match r.availability {
        RafsiAvailability::Free => "free"@,
        RafsiAvailability::OfficialTaken => "official-taken"@ + taken_sources_spec(
            views(r.taken_by@),
        ),
        RafsiAvailability::ExperimentalTaken => "experimental-taken"@ + taken_sources_spec(
            views(r.taken_by@),
        ),
    }
}

/// The rafsi of a candidate with their availability, separated by commas.
pub open spec fn candidate_rafsi_spec(rafsi: Seq<CandidateRafsi>) -> Seq<char> {
    join_spec(Seq::new(rafsi.len(), |i: int| rafsi_entry_spec(rafsi[i])), ", "@)
}

fn rafsi_entry(r: &CandidateRafsi) -> (out: String)
    ensures
        out@ == rafsi_entry_spec(*r),
{
    let mut out = crate::text::concat2(r.form.as_str(), ":");
    match r.availability {
        RafsiAvailability::Free => push_str(&mut out, "free"),
        RafsiAvailability::OfficialTaken => {
            push_str(&mut out, "official-taken");
            push_str(&mut out, format_taken_rafsi_sources(&r.taken_by).as_str());
        },
        RafsiAvailability::ExperimentalTaken => {
            push_str(&mut out, "experimental-taken");
            push_str(&mut out, format_taken_rafsi_sources(&r.taken_by).as_str());
        },
    }
    out
}

/// The rafsi of a candidate with their availability.
pub fn format_gimfihi_rafsi(candidate: &GimfihiCandidate) -> (r: String)
    ensures
        r@ == candidate_rafsi_spec(candidate.rafsi@),
{
    let mut entries: Vec<String> = Vec::new();
    let mut i: usize = 0;
    while i < candidate.rafsi.len()
        invariant
            i <= candidate.rafsi.len(),
            views(entries@) =~= Seq::new(
                i as nat,
                |j: int| rafsi_entry_spec(candidate.rafsi@[j]),
            ),
        decreases candidate.rafsi.len() - i,
    {
        let ghost before = views(entries@);
        let e = rafsi_entry(&candidate.rafsi[i]);
        entries.push(e);
        assert(views(entries@) =~= before.push(rafsi_entry_spec(candidate.rafsi@[i as int])));
        i = i + 1;
    }
    join_strings(&entries, ", ")
}

/// A candidate row: highlight mark, gismu, score, collision and rafsi.
pub open spec fn candidate_row_spec(c: GimfihiCandidate) -> Seq<char> {
    (if c.highlighted {
        "*"@
    } else {
        " "@
    }) + "     "@ + pad_right(c.word@, 5) + "  "@ + pad_right(trim_float_spec(c.score_fixed@), 8)
        + " "@ + match c.collision {
        Some(k) => collision_spec(k) + " "@,
        None => seq![],
    } + candidate_rafsi_spec(c.rafsi@)
}

/// One row of the candidate table.
pub fn render_gimfihi_candidate_row(candidate: &GimfihiCandidate) -> (r: String)
    ensures
        r@ == candidate_row_spec(*candidate),
{
    let mut out = if candidate.highlighted {
        crate::text::owned("*")
    } else {
        crate::text::owned(" ")
    };
    push_str(&mut out, "     ");
    push_padded(&mut out, candidate.word.as_str(), 5);
    push_str(&mut out, "  ");
    let score = trim_float(candidate.score_fixed.as_str());
    push_padded(&mut out, score.as_str(), 8);
    push_str(&mut out, " ");
    match &candidate.collision {
        Some(k) => {
            push_str(&mut out, format_gimfihi_collision(k).as_str());
            push_str(&mut out, " ");
        },
        None => {},
    }
    push_str(&mut out, format_gimfihi_rafsi(candidate).as_str());
    out
}

/// One phonetic parameter: its name, its value with six decimals, and whether that
/// value is the default.
#[derive(Debug, Clone)]
pub struct ParameterSetting {
    pub name: String,
    pub value_fixed: String,
    pub is_default: bool,
}

/// The phonetic parameters of a search: the five costs and the feature saliences in
/// their fixed order, and the normalizer.
#[derive(Debug, Clone)]
pub struct PhoneticParameterReport {
    pub costs: Vec<ParameterSetting>,
    pub normalizer: GimfihiCliNormalizer,
    pub normalizer_is_default: bool,
    pub saliences: Vec<ParameterSetting>,
}

/// The `name=value` entries of the settings that differ from their defaults.
pub open spec fn changed_settings(settings: Seq<ParameterSetting>) -> Seq<Seq<char>>
    decreases settings.len(),
{
    if settings.len() == 0 {
        seq![]
    } else {
        changed_settings(settings.drop_last()) + if settings.last().is_default {
            Seq::<Seq<char>>::empty()
        } else {
            seq![settings.last().name@ + "="@ + trim_float_spec(settings.last().value_fixed@)]
        }
    }
}

/// The name of a normalizer.
pub open spec fn normalizer_name(n: GimfihiCliNormalizer) -> Seq<char> {
    match n {
        GimfihiCliNormalizer::SourceSide => "source-side"@,
        GimfihiCliNormalizer::CandidateSide => "candidate-side"@,
        GimfihiCliNormalizer::Symmetric => "symmetric"@,
    }
}

/// The entries of the parameters that differ from their defaults: costs, normalizer,
/// saliences.
pub open spec fn changed_parameters(p: PhoneticParameterReport) -> Seq<Seq<char>> {
    changed_settings(p.costs@) + if p.normalizer_is_default {
        Seq::<Seq<char>>::empty()
    } else {
        seq!["normalizer="@ + normalizer_name(p.normalizer)]
    } + changed_settings(p.saliences@)
}

/// The `parameters:` line of the table.
pub open spec fn parameters_spec(p: PhoneticParameterReport) -> Seq<char> {
    "parameters: "@ + join_spec(changed_parameters(p), ", "@)
}

fn push_changed_settings(values: &mut Vec<String>, settings: &Vec<ParameterSetting>)
    ensures
        views(final(values)@) == views(old(values)@) + changed_settings(settings@),
{
    let ghost start = views(values@);
    let mut i: usize = 0;
    while i < settings.len()
        invariant
            i <= settings.len(),
            views(values@) == start + changed_settings(settings@.subrange(0, i as int)),
        decreases settings.len() - i,
    {
        let ghost before = views(values@);
        let ghost s = settings@.subrange(0, i + 1);
        assert(s.drop_last() =~= settings@.subrange(0, i as int));
        let setting = &settings[i];
        if !setting.is_default {
            let mut entry = crate::text::concat2(setting.name.as_str(), "=");
            push_str(&mut entry, trim_float(setting.value_fixed.as_str()).as_str());
            values.push(entry);
            assert(views(values@) =~= before.push(entry@));
        }
        assert(views(values@) =~= start + changed_settings(s));
        i = i + 1;
    }
    assert(settings@.subrange(0, settings.len() as int) =~= settings@);
}

/// The `parameters:` line: the phonetic parameters that differ from their defaults.
pub fn format_nondefault_phonetic_parameters(parameters: &PhoneticParameterReport) -> (r: String)
    ensures
        r@ == parameters_spec(*parameters),
{
    let mut values: Vec<String> = Vec::new();
    push_changed_settings(&mut values, &parameters.costs);
    let ghost a = views(values@);
    if !parameters.normalizer_is_default {
        let name = match parameters.normalizer {
            GimfihiCliNormalizer::SourceSide => "source-side",
            GimfihiCliNormalizer::CandidateSide => "candidate-side",
            GimfihiCliNormalizer::Symmetric => "symmetric",
        };
        let entry = crate::text::concat2("normalizer=", name);
        values.push(entry);
        assert(views(values@) =~= a.push(entry@));
    }
    let ghost b = views(values@);
    push_changed_settings(&mut values, &parameters.saliences);
    assert(views(values@) =~= changed_parameters(*parameters));
    let joined = join_strings(&values, ", ");
    crate::text::concat2("parameters: ", joined.as_str())
}

/// The result of a gismu search, as the table reads it.
#[derive(Debug, Clone)]
pub struct GimfihiOutput {
    pub scorer: GimfihiCliScorer,
    pub scorer_name: String,
    pub phonetic_parameters: Option<PhoneticParameterReport>,
    pub winner: Option<String>,
    pub candidates: Vec<GimfihiCandidate>,
    pub filtered_count: usize,
    pub candidate_count: usize,
}

/// The lines of the table before the candidate rows.
pub open spec fn table_head(o: GimfihiOutput) -> Seq<Seq<char>> {
    (if o.scorer != GimfihiCliScorer::Classic {
        seq!["scorer: "@ + o.scorer_name@]
    } else {
        Seq::<Seq<char>>::empty()
    }) + match o.phonetic_parameters {
        Some(p) => seq![parameters_spec(p)],
        None => Seq::<Seq<char>>::empty(),
    } + seq![
        "winner: "@ + match o.winner {
            Some(w) => w@,
            None => "none"@,
        },
        "candidates: "@ + decimal(o.candidates@.len()) + " shown of "@ + decimal(
            o.filtered_count as nat,
        ) + " passing ("@ + decimal(o.candidate_count as nat) + " valid)"@,
        "mark  gismu  score     rafsi"@,
    ]
}

/// The candidate table, or a note that no candidate matched.
pub open spec fn table_spec(o: GimfihiOutput) -> Seq<char> {
    if o.candidates@.len() == 0 {
        "No gismu candidates matched the selected filters."@
    } else {
        join_spec(
            table_head(o) + Seq::new(
                o.candidates@.len(),
                |i: int| candidate_row_spec(o.candidates@[i]),
            ),
            "\n"@,
        )
    }
}

/// Renders the candidate table.
pub fn render_gimfihi_table(output: &GimfihiOutput) -> (r: String)
    ensures
        r@ == table_spec(*output),
{
    if output.candidates.len() == 0 {
        return crate::text::owned("No gismu candidates matched the selected filters.");
    }
    let mut lines: Vec<String> = Vec::new();
    if output.scorer != GimfihiCliScorer::Classic {
        lines.push(crate::text::concat2("scorer: ", output.scorer_name.as_str()));
    }
    match &output.phonetic_parameters {
        Some(p) => {
            let ghost before = views(lines@);
            let line = format_nondefault_phonetic_parameters(p);
            lines.push(line);
            assert(views(lines@) =~= before.push(line@));
        },
        None => {},
    }
    let winner = match &output.winner {
        Some(w) => crate::text::concat2("winner: ", w.as_str()),
        None => crate::text::owned("winner: none"),
    };
    assert(winner@ =~= "winner: "@ + match output.winner {
        Some(w) => w@,
        None => "none"@,
    }) by {
        reveal_strlit("winner: none");
        reveal_strlit("winner: ");
        reveal_strlit("none");
    }
    lines.push(winner);
    let mut count = crate::text::owned("candidates: ");
    push_decimal(&mut count, output.candidates.len() as u64);
    push_str(&mut count, " shown of ");
    push_decimal(&mut count, output.filtered_count as u64);
    push_str(&mut count, " passing (");
    push_decimal(&mut count, output.candidate_count as u64);
    push_str(&mut count, " valid)");
    lines.push(count);
    lines.push(crate::text::owned("mark  gismu  score     rafsi"));
    let ghost head = views(lines@);
    assert(head =~= table_head(*output));
    let mut i: usize = 0;
    while i < output.candidates.len()
        invariant
            i <= output.candidates.len(),
            views(lines@) =~= head + Seq::new(
                i as nat,
                |j: int| candidate_row_spec(output.candidates@[j]),
            ),
        decreases output.candidates.len() - i,
    {
        let ghost before = views(lines@);
        let row = render_gimfihi_candidate_row(&output.candidates[i]);
        lines.push(row);
        assert(views(lines@) =~= before.push(row@));
        i = i + 1;
    }
    join_strings(&lines, "\n")
}

/// The number of candidates to show, or the message for an out-of-range count.
pub open spec fn gimfihi_count_result(
    count: Option<usize>,
    default_count: usize,
    max_count: usize,
) -> Result<usize, Seq<char>> {
    let c = match count {
        Some(c) => c,
        None => default_count,
    };
    if c == 0 {
        Err("`--count` must be greater than 0"@)
    } else if c > max_count {
        Err("`--count` must be at most "@ + decimal(max_count as nat))
    } else {
        Ok(c)
    }
}

/// The number of candidates to show: the given count or the default, which must be
/// positive and at most `max_count`.
pub fn gimfihi_request_count(count: Option<usize>, default_count: usize, max_count: usize) -> (r:
    Result<usize, CliError>)
    ensures
        match r {
            Ok(c) => gimfihi_count_result(count, default_count, max_count) == Result::<
                usize,
                Seq<char>,
            >::Ok(c),
            Err(e) => gimfihi_count_result(count, default_count, max_count) == Result::<
                usize,
                Seq<char>,
            >::Err(e.message@),
        },
{
    let c = match count {
        Some(c) => c,
        None => default_count,
    };
    if c == 0 {
        return Err(CliError::from_str("`--count` must be greater than 0"));
    }
    if c > max_count {
        let mut message = crate::text::owned("`--count` must be at most ");
        push_decimal(&mut message, max_count as u64);
        return Err(CliError::new(message));
    }
    Ok(c)
}

/// The classic scorer takes only the default phonetic parameters.
pub fn check_gimfihi_scorer_parameters(scorer: GimfihiCliScorer, parameters_are_default: bool) -> (r:
    Result<(), CliError>)
    ensures
        r is Err <==> (scorer == GimfihiCliScorer::Classic && !parameters_are_default),
        r matches Err(e) ==> e.message@ == "non-default phonetic parameters require `--scorer phonetic`"@,
{
    if scorer == GimfihiCliScorer::Classic && !parameters_are_default {
        return Err(
            CliError::from_str("non-default phonetic parameters require `--scorer phonetic`"),
        );
    }
    Ok(())
}

} // verus!
