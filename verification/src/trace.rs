//! Trace options: the `--trace SPEC` grammar, the rules that combine trace flags,
//! and the rule that lets a lone `--trace VALUE` be read as input text.

use crate::cli::{CliError, CliTracePhase, GentufaInput, VlaseiInput};
use crate::text::{
    chars_of, concat3, contains_name, contains_str, decimal, digit_char, is_digit, push_str,
    split_once, split_once_spec,
};
use crate::validate::check_result;
use vstd::prelude::*;

verus! {

/// The value of a sequence of decimal digits.
pub open spec fn digits_value(s: Seq<char>) -> nat
    decreases s.len(),
{
    if s.len() == 0 {
        0
    } else {
        digits_value(s.drop_last()) * 10 + ((s.last() as u32) - 48) as nat
    }
}

/// Every character of `s` is an ASCII decimal digit.
pub open spec fn all_digits(s: Seq<char>) -> bool {
    forall|i: int| 0 <= i < s.len() ==> is_digit(#[trigger] s[i])
}

/// What `str::parse::<u8>` gives for `s`: an optional leading `+`, then at least one
/// ASCII digit and nothing else, with a value of at most 255.
pub open spec fn parse_u8_spec(s: Seq<char>) -> Option<u8> {
    let digits = if s.len() > 0 && s[0] == '+' {
        s.drop_first()
    } else {
        s
    };
    if digits.len() > 0 && all_digits(digits) && digits_value(digits) <= 255 {
        Some(digits_value(digits) as u8)
    } else {
        None
    }
}

pub proof fn lemma_digits_value_push(s: Seq<char>, c: char)
    ensures
        digits_value(s.push(c)) == digits_value(s) * 10 + ((c as u32) - 48) as nat,
{
    assert(s.push(c).drop_last() =~= s);
}

pub proof fn lemma_digits_value_prefix(s: Seq<char>, k: int)
    requires
        0 <= k <= s.len(),
        all_digits(s),
    ensures
        digits_value(s) >= digits_value(s.take(k)),
    decreases s.len(),
{
    if k < s.len() {
        assert(s.drop_last().take(k) =~= s.take(k));
        assert(all_digits(s.drop_last()));
        lemma_digits_value_prefix(s.drop_last(), k);
    } else {
        assert(s.take(k) =~= s);
    }
}

/// Parses a decimal `u8` the way `str::parse::<u8>` does.
pub fn parse_u8(s: &str) -> (r: Option<u8>)
    ensures
        r == parse_u8_spec(s@),
{
    let v = chars_of(s);
    let start: usize = if v.len() > 0 && v[0] == '+' {
        1
    } else {
        0
    };
    let ghost digits = if s@.len() > 0 && s@[0] == '+' {
        s@.drop_first()
    } else {
        s@
    };
    assert(digits =~= s@.subrange(start as int, s@.len() as int));
    if start >= v.len() {
        return None;
    }
    let mut value: u32 = 0;
    let mut i = start;
    while i < v.len()
        invariant
            v@ == s@,
            start <= i <= v.len(),
            digits == s@.subrange(start as int, s@.len() as int),
            digits == (if s@.len() > 0 && s@[0] == '+' {
                s@.drop_first()
            } else {
                s@
            }),
            all_digits(s@.subrange(start as int, i as int)),
            value == digits_value(s@.subrange(start as int, i as int)),
            value <= 255,
        decreases v.len() - i,
    {
        let c = v[i];
        let ghost prefix = s@.subrange(start as int, i as int);
        assert(s@.subrange(start as int, i + 1) =~= prefix.push(c));
        if !('0' <= c && c <= '9') {
            assert(digits[i - start] == c);
            assert(!is_digit(digits[(i - start) as int]));
            assert(!all_digits(digits));
            return None;
        }
        proof {
            lemma_digits_value_push(prefix, c);
        }
        let next = value * 10 + ((c as u32) - 48);
        if next > 255 {
            proof {
                let acc = prefix.push(c);
                assert(acc =~= digits.take((i + 1 - start) as int));
                assert(digits_value(acc) == next);
                if all_digits(digits) {
                    lemma_digits_value_prefix(digits, (i + 1 - start) as int);
                    assert(digits_value(digits) > 255);
                }
            }
            return None;
        }
        value = next;
        proof {
            assert forall|j: int|
                0 <= j < prefix.push(c).len() implies is_digit(#[trigger] prefix.push(c)[j]) by {
                if j < prefix.len() {
                    assert(prefix.push(c)[j] == prefix[j]);
                }
            }
        }
        i = i + 1;
    }
    assert(s@.subrange(start as int, v.len() as int) =~= digits);
    Some(value as u8)
}


/// What the parsers accept as trace settings: the trace level numbers that the
/// diagnostics library accepts, and the names of the morphology and syntax rules
/// that a trace can be filtered to.
#[derive(Debug, Clone)]
pub struct TraceVocabulary {
    pub levels: Vec<u8>,
    pub morphology_filters: Vec<String>,
    pub syntax_filters: Vec<String>,
}

/// `n` is an accepted trace level.
pub open spec fn level_known(v: TraceVocabulary, n: u8) -> bool {
    v.levels@.contains(n)
}

/// `name` is a known syntax or morphology trace filter.
pub open spec fn filter_known(v: TraceVocabulary, name: Seq<char>) -> bool {
    contains_name(v.syntax_filters@, name) || contains_name(v.morphology_filters@, name)
}

/// Whether `n` is an accepted trace level.
fn is_known_trace_level(v: &TraceVocabulary, n: u8) -> (r: bool)
    ensures
        r == level_known(*v, n),
{
    let mut i: usize = 0;
    while i < v.levels.len()
        invariant
            i <= v.levels.len(),
            forall|j: int| 0 <= j < i ==> v.levels@[j] != n,
        decreases v.levels.len() - i,
    {
        if v.levels[i] == n {
            assert(v.levels@[i as int] == n);
            return true;
        }
        i = i + 1;
    }
    false
}

/// Whether `name` is a known syntax or morphology trace filter.
pub fn is_known_trace_filter(name: &str, v: &TraceVocabulary) -> (r: bool)
    ensures
        r == filter_known(*v, name@),
{
    contains_str(&v.syntax_filters, name) || contains_str(&v.morphology_filters, name)
}

/// A trace specification that is complete on its own: an accepted level, a known
/// filter, or a known filter with an accepted level after a `:`.
pub open spec fn can_stand_alone(spec: Seq<char>, v: TraceVocabulary) -> bool {
    if spec.len() == 0 {
        false
    } else if parse_u8_spec(spec) is Some && level_known(v, parse_u8_spec(spec)->0) {
        true
    } else {
        match split_once_spec(spec, ':') {
            Some((filter, level)) => filter.len() > 0 && parse_u8_spec(level) is Some
                && level_known(v, parse_u8_spec(level)->0) && filter_known(v, filter),
            None => filter_known(v, spec),
        }
    }
}

/// Whether `spec` is a trace specification that is complete on its own.
pub fn trace_spec_can_stand_alone(spec: &str, v: &TraceVocabulary) -> (r: bool)
    ensures
        r == can_stand_alone(spec@, *v),
        spec@.len() == 0 ==> !r,
{
    if spec.is_empty() {
        return false;
    }
    if let Some(value) = parse_u8(spec) {
        if is_known_trace_level(v, value) {
            return true;
        }
    }
    match split_once(spec, ':') {
        Some((filter, level)) => {
            if filter.as_str().is_empty() {
                return false;
            }
            match parse_u8(level.as_str()) {
                Some(value) => is_known_trace_level(v, value) && is_known_trace_filter(
                    filter.as_str(),
                    v,
                ),
                None => false,
            }
        },
        None => is_known_trace_filter(spec, v),
    }
}

/// A lone `--trace VALUE`, with no file and no text, whose value is not a trace
/// specification: the value is the input text.
pub open spec fn trace_value_is_text(
    trace: Option<Option<String>>,
    file: Option<String>,
    text: Seq<String>,
    v: TraceVocabulary,
) -> bool {
    match trace {
        Some(Some(spec)) => file is None && text.len() == 0 && !can_stand_alone(spec@, v),
        _ => false,
    }
}

/// The value given to `--trace`, if any.
pub open spec fn trace_value(trace: Option<Option<String>>) -> Seq<char> {
    match trace {
        Some(Some(spec)) => spec@,
        _ => seq![],
    }
}

/// Reads a lone `--trace VALUE` that is not a trace specification as the input
/// text: the trace becomes enabled at its default and the value moves to `text`.
pub fn normalize_trace_text_input(
    trace: &mut Option<Option<String>>,
    file: &Option<String>,
    text: &mut Vec<String>,
    v: &TraceVocabulary,
)
    ensures
        trace_value_is_text(*old(trace), *file, old(text)@, *v) ==> {
            &&& *final(trace) == Some(None::<String>)
            &&& final(text)@.len() == 1
            &&& final(text)@[0]@ == trace_value(*old(trace))
        },
        !trace_value_is_text(*old(trace), *file, old(text)@, *v) ==> {
            &&& *final(trace) == *old(trace)
            &&& final(text)@ == old(text)@
        },
{
    let spec = match trace {
        Some(Some(spec)) => spec.clone(),
        _ => {
            return;
        },
    };
    if file.is_some() || text.len() > 0 || trace_spec_can_stand_alone(spec.as_str(), v) {
        return;
    }
    *trace = Some(None);
    text.push(spec);
}

/// Whether a command with this file, text and trace reads its input from standard
/// input: neither a file nor text is given, also after a lone trace value is read
/// as text.
pub fn trace_text_input_reads_stdin(
    file: &Option<String>,
    text: &Vec<String>,
    trace: &Option<Option<String>>,
    v: &TraceVocabulary,
) -> (r: bool)
    ensures
        r == (file is None && text@.len() == 0 && !trace_value_is_text(*trace, *file, text@, *v)),
        file is Some ==> !r,
{
    let mut normalized_trace = trace.clone();
    let mut normalized_text = text.clone();
    assert(normalized_text@ == text@);
    normalize_trace_text_input(&mut normalized_trace, file, &mut normalized_text, v);
    file.is_none() && normalized_text.len() == 0
}

/// Whether `vlasei` reads standard input: never when listing trace filters.
pub fn vlasei_input_reads_stdin(input: &VlaseiInput, v: &TraceVocabulary) -> (r: bool)
    ensures
        r == (!input.trace_list && input.file is None && input.text@.len() == 0
            && !trace_value_is_text(input.trace, input.file, input.text@, *v)),
        input.file is Some ==> !r,
{
    if input.trace_list {
        return false;
    }
    trace_text_input_reads_stdin(&input.file, &input.text, &input.trace, v)
}

/// Whether `gentufa` reads standard input: never when listing trace filters.
pub fn gentufa_input_reads_stdin(input: &GentufaInput, v: &TraceVocabulary) -> (r: bool)
    ensures
        r == (!input.trace_list && input.file is None && input.text@.len() == 0
            && !trace_value_is_text(input.trace, input.file, input.text@, *v)),
        input.file is Some ==> !r,
{
    if input.trace_list {
        return false;
    }
    trace_text_input_reads_stdin(&input.file, &input.text, &input.trace, v)
}

/// The level of a trace specification: a level number, or every level.
#[derive(Debug, Clone, Copy, PartialEq, Eq, Structural)]
pub enum TraceLevelSpec {
    Number(u8),
    All,
}

/// A parsed `--trace` specification: its level and the rule it is filtered to.
#[derive(Debug, Clone)]
pub struct CliParsedTraceSpec {
    pub level: TraceLevelSpec,
    pub filter: Option<String>,
}

/// The meaning of a trace specification: `N` is level `N` of every rule,
/// `rule:N` is level `N` of one rule, and `rule` is every level of one rule;
/// or the message of why it is malformed.
pub open spec fn trace_spec_meaning(s: Seq<char>) -> Result<
    (TraceLevelSpec, Option<Seq<char>>),
    Seq<char>,
> {
    if s.len() == 0 {
        Err("invalid trace specification: empty value"@)
    } else if all_digits(s) {
        match parse_u8_spec(s) {
            Some(n) => Ok((TraceLevelSpec::Number(n), None)),
            None => Err("invalid trace level `"@ + s + "`"@),
        }
    } else {
        match split_once_spec(s, ':') {
            Some((filter, level)) => if filter.len() == 0 || level.len() == 0 {
                Err("invalid trace specification `"@ + s + "`; use N, rule, or rule:N"@)
            } else {
                match parse_u8_spec(level) {
                    Some(n) => Ok((TraceLevelSpec::Number(n), Some(filter))),
                    None => Err("invalid trace level `"@ + level + "`"@),
                }
            },
            None => Ok((TraceLevelSpec::All, Some(s))),
        }
    }
}

proof fn lemma_decimal_is_digits(n: nat)
    ensures
        decimal(n).len() > 0,
        forall|i: int| 0 <= i < decimal(n).len() ==> '0' <= #[trigger] decimal(n)[i] <= '9',
        digits_value(decimal(n)) == n,
    decreases n,
{
    if n < 10 {
        let c = digit_char(n);
        assert(decimal(n) =~= seq![c]);
        assert((c as u32) == n + 48);
        assert(Seq::<char>::empty().push(c) =~= seq![c]);
        lemma_digits_value_push(Seq::<char>::empty(), c);
        assert(digits_value(Seq::<char>::empty()) == 0);
    } else {
        lemma_decimal_is_digits(n / 10);
        let c = digit_char(n % 10);
        let d = decimal(n / 10);
        assert(decimal(n) == d.push(c));
        assert((c as u32) == n % 10 + 48);
        lemma_digits_value_push(d, c);
        assert(n == (n / 10) * 10 + n % 10) by (nonlinear_arith);
        assert forall|i: int| 0 <= i < decimal(n).len() implies '0' <= #[trigger] decimal(n)[i]
            <= '9' by {
            if i < d.len() {
                assert(decimal(n)[i] == d[i]);
            }
        }
    }
}

/// A specification made only of ASCII digits is a level, never a rule: it means that
/// level of every rule (or is malformed, where the number does not fit a level); and
/// every level `n`, written as its decimal digits, means level `n` of every rule.
pub proof fn law_digit_specs_are_levels(s: Seq<char>, n: u8)
    ensures
        trace_spec_meaning(decimal(n as nat)) == Ok::<_, Seq<char>>(
            (TraceLevelSpec::Number(n), None::<Seq<char>>),
        ),
        (s.len() > 0 && forall|i: int| 0 <= i < s.len() ==> '0' <= #[trigger] s[i] <= '9')
            ==> match trace_spec_meaning(s) {
            Ok((level, filter)) => level is Number && filter is None,
            Err(_) => true,
        },
{
    lemma_decimal_is_digits(n as nat);
    let t = decimal(n as nat);
    assert(all_digits(t));
    assert(t[0] != '+');
    assert(parse_u8_spec(t) == Some(n));
    if s.len() > 0 && forall|i: int| 0 <= i < s.len() ==> '0' <= #[trigger] s[i] <= '9' {
        assert(all_digits(s));
    }
}

/// A rule name alone means every level of that rule, and a rule name, `:` and a level
/// `n` means level `n` of that rule; here a rule name is a nonempty text without `:`
/// that is not only digits.
pub proof fn law_rule_specs_filter_their_rule(rule: Seq<char>, n: u8)
    requires
        rule.len() > 0,
        forall|i: int| 0 <= i < rule.len() ==> #[trigger] rule[i] != ':',
        exists|i: int| 0 <= i < rule.len() && !('0' <= #[trigger] rule[i] <= '9'),
    ensures
        trace_spec_meaning(rule) == Ok::<_, Seq<char>>(
            (TraceLevelSpec::All, Some(rule)),
        ),
        trace_spec_meaning(rule + seq![':'] + decimal(n as nat)) == Ok::<_, Seq<char>>(
            (TraceLevelSpec::Number(n), Some(rule)),
        ),
{
    let k = choose|i: int| 0 <= i < rule.len() && !('0' <= #[trigger] rule[i] <= '9');
    assert(!all_digits(rule)) by {
        assert(!is_digit(rule[k]));
    }
    crate::text::lemma_index_of_is(rule, ':', rule.len() as int);
    lemma_decimal_is_digits(n as nat);
    let level = decimal(n as nat);
    let full = rule + seq![':'] + level;
    assert(full[k] == rule[k]);
    assert(!all_digits(full)) by {
        assert(!is_digit(full[k]));
    }
    assert forall|j: int| 0 <= j < rule.len() implies full[j] != ':' by {
        assert(full[j] == rule[j]);
    }
    assert(full[rule.len() as int] == ':');
    crate::text::lemma_index_of_is(full, ':', rule.len() as int);
    assert(full.subrange(0, rule.len() as int) =~= rule);
    assert(full.subrange(rule.len() as int + 1, full.len() as int) =~= level);
    assert(all_digits(level));
    assert(level[0] != '+');
    assert(parse_u8_spec(level) == Some(n));
}

/// The view of a parsed trace specification.
pub open spec fn parsed_view(p: CliParsedTraceSpec) -> (TraceLevelSpec, Option<Seq<char>>) {
    (
        p.level,
        match p.filter {
            Some(f) => Some(f@),
            None => None,
        },
    )
}

/// Whether every character of `s` is an ASCII digit.
fn all_ascii_digits(s: &str) -> (r: bool)
    ensures
        r == all_digits(s@),
{
    let v = chars_of(s);
    let mut i: usize = 0;
    while i < v.len()
        invariant
            v@ == s@,
            i <= v.len(),
            forall|j: int| 0 <= j < i ==> is_digit(#[trigger] s@[j]),
        decreases v.len() - i,
    {
        if !('0' <= v[i] && v[i] <= '9') {
            assert(!is_digit(s@[i as int]));
            return false;
        }
        i = i + 1;
    }
    true
}

/// Parses a `--trace` specification.
pub fn parse_trace_spec(spec: &str) -> (r: Result<CliParsedTraceSpec, CliError>)
    ensures
        match r {
            Ok(p) => trace_spec_meaning(spec@) == Ok::<_, Seq<char>>(parsed_view(p)),
            Err(e) => trace_spec_meaning(spec@) == Err::<(TraceLevelSpec, Option<Seq<char>>), _>(
                e.message@,
            ),
        },
        r matches Ok(p) ==> (p.filter matches Some(f) ==> f@.len() > 0),
{
    if spec.is_empty() {
        return Err(CliError::from_str("invalid trace specification: empty value"));
    }
    if all_ascii_digits(spec) {
        return match parse_u8(spec) {
            Some(n) => Ok(CliParsedTraceSpec { level: TraceLevelSpec::Number(n), filter: None }),
            None => Err(CliError::new(concat3("invalid trace level `", spec, "`"))),
        };
    }
    match split_once(spec, ':') {
        Some((filter, level)) => {
            if filter.as_str().is_empty() || level.as_str().is_empty() {
                return Err(
                    CliError::new(
                        concat3(
                            "invalid trace specification `",
                            spec,
                            "`; use N, rule, or rule:N",
                        ),
                    ),
                );
            }
            match parse_u8(level.as_str()) {
                Some(n) => Ok(
                    CliParsedTraceSpec { level: TraceLevelSpec::Number(n), filter: Some(filter) },
                ),
                None => Err(CliError::new(concat3("invalid trace level `", level.as_str(), "`"))),
            }
        },
        None => Ok(
            CliParsedTraceSpec {
                level: TraceLevelSpec::All,
                filter: Some(crate::text::owned(spec)),
            },
        ),
    }
}

/// Trace settings for a parser run: off, or on with a level, an optional rule
/// filter, the phase followed and the event limit.
#[derive(Debug, Clone)]
pub enum TraceOptions {
    Disabled,
    Enabled { level: TraceLevelSpec, filter: Option<String>, phase: CliTracePhase, limit: usize },
}

/// `r` are the trace settings for the `--trace` flag `trace` in `phase` with `limit`:
/// off without the flag; level 1 of every rule when it has no value; else the level
/// and rule that its value means; enabled settings carry `phase` and `limit`.
pub open spec fn trace_settings(
    r: TraceOptions,
    trace: Option<Option<String>>,
    phase: CliTracePhase,
    limit: usize,
) -> bool {
    match trace {
        None => r is Disabled,
        Some(None) => r matches TraceOptions::Enabled { level, filter, phase: p, limit: l }
            && level == TraceLevelSpec::Number(1) && filter is None && p == phase && l == limit,
        Some(Some(s)) => r matches TraceOptions::Enabled { level, filter, phase: p, limit: l }
            && trace_spec_meaning(s@) == Ok::<_, Seq<char>>(
            parsed_view(CliParsedTraceSpec { level, filter }),
        ) && p == phase && l == limit,
    }
}

/// The trace settings for a `--trace` flag: off without it, level 1 when it has
/// no value, and the parsed specification otherwise.
pub fn trace_options(trace: &Option<Option<String>>, phase: CliTracePhase, limit: usize) -> (r:
    Result<TraceOptions, CliError>)
    requires
        limit > 0,
    ensures
        trace is None ==> r matches Ok(TraceOptions::Disabled),
        trace matches Some(None) ==> r matches Ok(
            TraceOptions::Enabled { level: TraceLevelSpec::Number(1), filter: None, .. },
        ),
        trace matches Some(Some(s)) ==> match r {
            Ok(TraceOptions::Enabled { level, filter, phase: p, limit: l }) => {
                &&& trace_spec_meaning(s@) == Ok::<_, Seq<char>>(
                    parsed_view(CliParsedTraceSpec { level, filter }),
                )
                &&& p == phase
                &&& l == limit
            },
            Ok(TraceOptions::Disabled) => false,
            Err(e) => trace_spec_meaning(s@) == Err::<(TraceLevelSpec, Option<Seq<char>>), _>(
                e.message@,
            ),
        },
        r matches Ok(TraceOptions::Enabled { phase: p, limit: l, .. }) ==> p == phase && l == limit,
        r matches Ok(t) ==> trace_settings(t, *trace, phase, limit),
{
    match trace {
        None => Ok(TraceOptions::Disabled),
        Some(None) => Ok(
            TraceOptions::Enabled { level: TraceLevelSpec::Number(1), filter: None, phase, limit },
        ),
        Some(Some(spec)) => {
            let parsed = parse_trace_spec(spec.as_str())?;
            Ok(TraceOptions::Enabled { level: parsed.level, filter: parsed.filter, phase, limit })
        },
    }
}

/// Which trace controls a command supports, and which it was given.
#[derive(Debug, Clone)]
pub struct CliTraceValidation {
    pub command_name: String,
    pub trace_phase: Option<CliTracePhase>,
    pub trace_limit_present: bool,
    pub trace_list: bool,
    pub supports_morphology: bool,
    pub supports_syntax: bool,
}

/// Whether a trace phase is available to a command: the morphology or syntax phase
/// when the command has it, and all phases when it has either.
pub open spec fn phase_supported(
    phase: CliTracePhase,
    supports_morphology: bool,
    supports_syntax: bool,
) -> bool {
    match phase {
        CliTracePhase::Morphology => supports_morphology,
        CliTracePhase::Syntax => supports_syntax,
        CliTracePhase::All => supports_morphology || supports_syntax,
    }
}

/// Whether a trace phase is available to a command.
pub fn trace_phase_supported(
    phase: CliTracePhase,
    supports_morphology: bool,
    supports_syntax: bool,
) -> (r: bool)
    ensures
        r == phase_supported(phase, supports_morphology, supports_syntax),
{
    match phase {
        CliTracePhase::Morphology => supports_morphology,
        CliTracePhase::Syntax => supports_syntax,
        CliTracePhase::All => supports_morphology || supports_syntax,
    }
}

/// The command-line spelling of a trace phase.
pub open spec fn phase_argument(phase: CliTracePhase) -> Seq<char> {
    match phase {
        CliTracePhase::Morphology => "morphology"@,
        CliTracePhase::Syntax => "syntax"@,
        CliTracePhase::All => "all"@,
    }
}

/// The command-line spelling of a trace phase.
pub fn trace_phase_argument(phase: CliTracePhase) -> (r: &'static str)
    ensures
        r@ == phase_argument(phase),
{
    match phase {
        CliTracePhase::Morphology => "morphology",
        CliTracePhase::Syntax => "syntax",
        CliTracePhase::All => "all",
    }
}

/// The first rule that a command's trace flags break, if any, given whether
/// `--trace` was passed and what the command supports.
pub open spec fn trace_rules_failure(
    enabled: bool,
    command_name: Seq<char>,
    trace_phase: Option<CliTracePhase>,
    trace_limit_present: bool,
    trace_list: bool,
    supports_morphology: bool,
    supports_syntax: bool,
) -> Option<Seq<char>> {
    let traceable = supports_morphology || supports_syntax;
    if trace_list && enabled {
        Some("`--trace-list` cannot be combined with `--trace`"@)
    } else if trace_limit_present && !enabled {
        Some("`--trace-limit` requires `--trace`"@)
    } else if trace_phase is Some && !enabled && !trace_list {
        Some("`--trace-phase` requires `--trace` or `--trace-list`"@)
    } else if trace_list && !traceable {
        Some("`--trace-list` is not supported with `"@ + command_name + "`"@)
    } else if enabled && !traceable {
        Some("`--trace` is not supported with `"@ + command_name + "`"@)
    } else {
        match trace_phase {
            Some(phase) => if !phase_supported(phase, supports_morphology, supports_syntax) {
                Some(
                    "`--trace-phase "@ + phase_argument(phase) + "` is not supported with `"@
                        + command_name + "`"@,
                )
            } else {
                None
            },
            None => None,
        }
    }
}

/// The first rule that a command's trace flags break, if any.
pub open spec fn trace_controls_failure(
    trace: Option<Option<String>>,
    options: CliTraceValidation,
) -> Option<Seq<char>> {
    trace_rules_failure(
        trace is Some,
        options.command_name@,
        options.trace_phase,
        options.trace_limit_present,
        options.trace_list,
        options.supports_morphology,
        options.supports_syntax,
    )
}

/// Checks that a command's trace flags fit together and fit the command.
pub fn validate_trace_controls(trace: &Option<Option<String>>, options: &CliTraceValidation) -> (r:
    Result<(), CliError>)
    ensures
        check_result(r, trace_controls_failure(*trace, *options)),
{
    let trace_enabled = trace.is_some();
    let traceable = options.supports_morphology || options.supports_syntax;
    if options.trace_list && trace_enabled {
        return Err(CliError::from_str("`--trace-list` cannot be combined with `--trace`"));
    }
    if options.trace_limit_present && !trace_enabled {
        return Err(CliError::from_str("`--trace-limit` requires `--trace`"));
    }
    if options.trace_phase.is_some() && !trace_enabled && !options.trace_list {
        return Err(CliError::from_str("`--trace-phase` requires `--trace` or `--trace-list`"));
    }
    if options.trace_list && !traceable {
        return Err(
            CliError::new(
                concat3(
                    "`--trace-list` is not supported with `",
                    options.command_name.as_str(),
                    "`",
                ),
            ),
        );
    }
    if trace_enabled && !traceable {
        return Err(
            CliError::new(
                concat3("`--trace` is not supported with `", options.command_name.as_str(), "`"),
            ),
        );
    }
    if let Some(phase) = options.trace_phase {
        if !trace_phase_supported(phase, options.supports_morphology, options.supports_syntax) {
            let mut message = concat3(
                "`--trace-phase ",
                trace_phase_argument(phase),
                "` is not supported with `",
            );
            push_str(&mut message, options.command_name.as_str());
            push_str(&mut message, "`");
            return Err(CliError::new(message));
        }
    }
    Ok(())
}

/// Checks the trace flags of a command that supports no tracing.
pub fn validate_trace_controls_for_unsupported_command(
    command_name: &str,
    trace: &Option<Option<String>>,
    trace_phase: Option<CliTracePhase>,
    trace_limit_present: bool,
    trace_list: bool,
) -> (r: Result<(), CliError>)
    requires
        command_name@.len() > 0,
    ensures
        check_result(
            r,
            trace_rules_failure(
                trace is Some,
                command_name@,
                trace_phase,
                trace_limit_present,
                trace_list,
                false,
                false,
            ),
        ),
{
    let options = CliTraceValidation {
        command_name: crate::text::owned(command_name),
        trace_phase,
        trace_limit_present,
        trace_list,
        supports_morphology: false,
        supports_syntax: false,
    };
    validate_trace_controls(trace, &options)
}

} // verus!
