//! Links and class names of the web front end: links found in the reference grammar,
//! query values, word-type tags and vote tags.

use crate::text::{
    chars_of, concat2, find_seq_in, has_prefix, index_of, lemma_seq_index_bounds,
    occurs_at, push_str, split_once, split_once_spec, str_eq, string_of_range, views,
};
use crate::trace::{all_digits, digits_value, lemma_digits_value_prefix, lemma_digits_value_push};
use crate::web_route::{strip_leading, strip_prefix_str, strip_trailing_str};
use vstd::prelude::*;

verus! {

/// A grammar link to the parser page, moved under the base path.
pub open spec fn cll_parse_href_spec(base_path: Seq<char>, href: Seq<char>) -> Seq<char> {
    if has_prefix(href, "../gentufa"@) {
        crate::text::strip_trailing(base_path, '/') + "/gentufa"@ + href.subrange(
            10,
            href.len() as int,
        )
    } else {
        href
    }
}

/// A grammar link to the parser page, moved under the base path.
pub fn cll_parse_href(base_path: &str, href: &str) -> (r: String)
    ensures
        r@ == cll_parse_href_spec(base_path@, href@),
{
    proof {
        reveal_strlit("../gentufa");
    }
    match strip_prefix_str(href, "../gentufa") {
        Some(query) => {
            let mut out = strip_trailing_str(base_path, '/');
            push_str(&mut out, "/gentufa");
            push_str(&mut out, query.as_str());
            out
        },
        None => crate::text::owned(href),
    }
}

/// A grammar link to a dictionary entry, moved under the base path.
pub open spec fn cll_ebnf_href_spec(base_path: Seq<char>, href: Seq<char>) -> Seq<char> {
    if has_prefix(href, "../vlacku/"@) {
        crate::text::strip_trailing(base_path, '/') + "/vlacku/"@ + href.subrange(
            10,
            href.len() as int,
        )
    } else {
        href
    }
}

/// A grammar link to a dictionary entry, moved under the base path.
pub fn cll_ebnf_href(base_path: &str, href: &str) -> (r: String)
    ensures
        r@ == cll_ebnf_href_spec(base_path@, href@),
{
    proof {
        reveal_strlit("../vlacku/");
    }
    match strip_prefix_str(href, "../vlacku/") {
        Some(target) => {
            let mut out = strip_trailing_str(base_path, '/');
            push_str(&mut out, "/vlacku/");
            push_str(&mut out, target.as_str());
            out
        },
        None => crate::text::owned(href),
    }
}

/// `j` is the last position where `p` occurs in `s`.
pub open spec fn last_occurrence(s: Seq<char>, p: Seq<char>, j: int) -> bool {
    occurs_at(s, p, j) && forall|k: int| j < k <= s.len() ==> !occurs_at(s, p, k)
}

/// The section reference of a grammar link: what follows the last `/cukta/section/`
/// (or a leading `section/`) before any `#`, when it is not empty.
pub open spec fn section_reference_spec(href: Seq<char>) -> Option<Seq<char>> {
    let w = href.subrange(0, index_of(href, '#'));
    let marker = "/cukta/section/"@;
    if exists|j: int| #[trigger] last_occurrence(w, marker, j) {
        let j = choose|j: int| #[trigger] last_occurrence(w, marker, j);
        let rest = w.subrange(j + marker.len(), w.len() as int);
        if rest.len() > 0 {
            Some(rest)
        } else {
            None
        }
    } else if has_prefix(w, "section/"@) {
        let rest = w.subrange(8, w.len() as int);
        if rest.len() > 0 {
            Some(rest)
        } else {
            None
        }
    } else {
        None
    }
}

fn last_occurrence_in(v: &Vec<char>, p: &Vec<char>) -> (r: Option<usize>)
    ensures
        match r {
            Some(j) => last_occurrence(v@, p@, j as int),
            None => forall|j: int| !#[trigger] occurs_at(v@, p@, j),
        },
{
    let mut found: Option<usize> = None;
    let mut from: usize = 0;
    while from < v.len()
        invariant
            from <= v.len(),
            match found {
                Some(j) => j < from && occurs_at(v@, p@, j as int) && forall|k: int|
                    j < k < from ==> !occurs_at(v@, p@, k),
                None => forall|k: int| 0 <= k < from ==> !occurs_at(v@, p@, k),
            },
        decreases v.len() - from,
    {
        let r = find_seq_in(v, from, p);
        proof {
            lemma_seq_index_bounds(v@.subrange(from as int, v@.len() as int), p@);
            assert forall|k: int| from <= k < r implies !occurs_at(v@, p@, k) by {
                let t = v@.subrange(from as int, v@.len() as int);
                if occurs_at(v@, p@, k) {
                    assert(t.subrange(k - from, k - from + p@.len()) =~= v@.subrange(
                        k,
                        k + p@.len(),
                    ));
                    assert(occurs_at(t, p@, k - from));
                }
            }
        }
        if r < v.len() {
            found = Some(r);
            from = r + 1;
        } else {
            from = v.len();
        }
    }
    if p.len() == 0 {
        assert(v@.subrange(v.len() as int, v.len() as int) =~= p@);
        found = Some(v.len());
    }
    proof {
        match found {
            Some(j) => {
                assert forall|k: int| j < k <= v@.len() implies !occurs_at(v@, p@, k) by {}
            },
            None => {
                assert forall|j: int| !#[trigger] occurs_at(v@, p@, j) by {
                    if occurs_at(v@, p@, j) {
                        assert(0 <= j < v@.len());
                    }
                }
            },
        }
    }
    found
}

/// The section reference of a grammar link, if it has one.
pub fn cukta_section_reference_from_href(href: &str) -> (r: Option<String>)
    ensures
        match r {
            Some(x) => section_reference_spec(href@) == Some(x@),
            None => section_reference_spec(href@) is None,
        },
{
    let v = chars_of(href);
    let k = crate::text::find_char_in(&v, 0, '#');
    assert(v@.subrange(0, v@.len() as int) =~= v@);
    let w = string_of_range(&v, 0, k);
    let wv = chars_of(w.as_str());
    let marker = chars_of("/cukta/section/");
    proof {
        reveal_strlit("/cukta/section/");
        reveal_strlit("section/");
    }
    match last_occurrence_in(&wv, &marker) {
        Some(j) => {
            proof {
                assert(last_occurrence(wv@, marker@, j as int));
                let c = choose|c: int| #[trigger] last_occurrence(wv@, marker@, c);
                if c < j {
                    assert(!occurs_at(wv@, marker@, j as int));
                }
                if c > j {
                    assert(!occurs_at(wv@, marker@, c));
                }
            }
            let start = j + marker.len();
            if start < wv.len() {
                Some(string_of_range(&wv, start, wv.len()))
            } else {
                None
            }
        },
        None => {
            proof {
                assert(!exists|c: int| #[trigger] last_occurrence(wv@, marker@, c));
            }
            match strip_prefix_str(w.as_str(), "section/") {
                Some(rest) => {
                    if rest.as_str().is_empty() {
                        None
                    } else {
                        Some(rest)
                    }
                },
                None => None,
            }
        },
    }
}

/// The anchor of a link: what follows its first `#`, when that is not empty.
pub open spec fn anchor_spec(href: Seq<char>) -> Option<Seq<char>> {
    match split_once_spec(href, '#') {
        Some((_, a)) => if a.len() > 0 {
            Some(a)
        } else {
            None
        },
        None => None,
    }
}

/// The anchor of a link, if it has one.
pub fn cukta_anchor_from_href(href: &str) -> (r: Option<String>)
    ensures
        match r {
            Some(a) => anchor_spec(href@) == Some(a@),
            None => anchor_spec(href@) is None,
        },
{
    match split_once(href, '#') {
        Some((_, anchor)) => if anchor.as_str().is_empty() {
            None
        } else {
            Some(anchor)
        },
        None => None,
    }
}

/// The class of the tag of a dictionary word type.
pub open spec fn word_type_tag_spec(key: Seq<char>) -> Seq<char> {
    if key == "gismu"@ || key == "experimental-gismu"@ {
        "is-gismu"@
    } else if key == "lujvo"@ || key == "zei-lujvo"@ || key == "obsolete-zei-lujvo"@ {
        "is-lujvo"@
    } else if key == "cmevla"@ || key == "obsolete-cmevla"@ {
        "is-cmevla"@
    } else if key == "fu'ivla"@ || key == "obsolete-fu'ivla"@ {
        "is-fuhivla"@
    } else if key == "cmavo"@ || key == "cmavo-compound"@ || key == "experimental-cmavo"@ || key
        == "obsolete-cmavo"@ {
        "is-cmavo"@
    } else if key == "letteral"@ || key == "bu-letteral"@ {
        "is-letteral"@
    } else {
        "is-other"@
    }
}

/// The class of the tag of a dictionary word type.
pub fn vlacku_word_type_tag_class(word_type_key: &str) -> (r: &'static str)
    ensures
        r@ == word_type_tag_spec(word_type_key@),
{
    let k = word_type_key;
    if str_eq(k, "gismu") || str_eq(k, "experimental-gismu") {
        "is-gismu"
    } else if str_eq(k, "lujvo") || str_eq(k, "zei-lujvo") || str_eq(k, "obsolete-zei-lujvo") {
        "is-lujvo"
    } else if str_eq(k, "cmevla") || str_eq(k, "obsolete-cmevla") {
        "is-cmevla"
    } else if str_eq(k, "fu'ivla") || str_eq(k, "obsolete-fu'ivla") {
        "is-fuhivla"
    } else if str_eq(k, "cmavo") || str_eq(k, "cmavo-compound") || str_eq(k, "experimental-cmavo")
        || str_eq(k, "obsolete-cmavo") {
        "is-cmavo"
    } else if str_eq(k, "letteral") || str_eq(k, "bu-letteral") {
        "is-letteral"
    } else {
        "is-other"
    }
}

/// The classes of the tag of a dictionary word type.
pub fn word_type_tag_class(word_type_key: &str) -> (r: String)
    ensures
        r@ == "dictionary-meta-segment dictionary-word-type-tag "@ + word_type_tag_spec(
            word_type_key@,
        ),
{
    concat2(
        "dictionary-meta-segment dictionary-word-type-tag ",
        vlacku_word_type_tag_class(word_type_key),
    )
}

/// The classes of a grammar table: `cll-table`, then `cll-table-` and each class.
pub open spec fn table_class_spec(classes: Seq<Seq<char>>) -> Seq<char>
    decreases classes.len(),
{
    if classes.len() == 0 {
        "cll-table"@
    } else {
        table_class_spec(classes.drop_last()) + seq![' '] + "cll-table-"@ + classes.last()
    }
}

/// The classes of a grammar table.
pub fn cll_table_class(classes: &Vec<String>) -> (r: String)
    ensures
        r@ == table_class_spec(views(classes@)),
{
    let mut out = crate::text::owned("cll-table");
    let mut i: usize = 0;
    while i < classes.len()
        invariant
            i <= classes.len(),
            out@ == table_class_spec(views(classes@).subrange(0, i as int)),
        decreases classes.len() - i,
    {
        let ghost s = views(classes@).subrange(0, i + 1);
        assert(s.drop_last() =~= views(classes@).subrange(0, i as int));
        assert(s.last() == classes@[i as int]@);
        out.push(' ');
        push_str(&mut out, "cll-table-");
        push_str(&mut out, classes[i].as_str());
        i = i + 1;
    }
    assert(views(classes@).subrange(0, classes.len() as int) =~= views(classes@));
    out
}

/// The value of the first `key=value` pair of a query with that key.
pub open spec fn query_value_spec(query: Seq<char>, key: Seq<char>) -> Option<Seq<char>>
    decreases query.len(),
{
    query_value_in(crate::text::split_spec(strip_leading(query, '?'), '&'), key)
}

/// The value of the first pair among `parts` with `key`; parts without `=` are skipped.
pub open spec fn query_value_in(parts: Seq<Seq<char>>, key: Seq<char>) -> Option<Seq<char>>
    decreases parts.len(),
{
    if parts.len() == 0 {
        None
    } else {
        match split_once_spec(parts[0], '=') {
            Some((k, v)) => if k == key {
                Some(v)
            } else {
                query_value_in(parts.subrange(1, parts.len() as int), key)
            },
            None => query_value_in(parts.subrange(1, parts.len() as int), key),
        }
    }
}

/// The value of `key` in a query (with or without its leading `?`).
pub fn query_value(query: &str, key: &str) -> (r: Option<String>)
    ensures
        match r {
            Some(v) => query_value_spec(query@, key@) == Some(v@),
            None => query_value_spec(query@, key@) is None,
        },
{
    let q = crate::web_route::strip_leading_str(query, '?');
    let parts = crate::text::split_char(q.as_str(), '&');
    let ghost sp = crate::text::split_spec(strip_leading(query@, '?'), '&');
    let mut i: usize = 0;
    assert(sp.subrange(0, sp.len() as int) =~= sp);
    while i < parts.len()
        invariant
            i <= parts.len(),
            sp == crate::text::split_spec(strip_leading(query@, '?'), '&'),
            parts@.len() == sp.len(),
            forall|k: int| 0 <= k < parts@.len() ==> #[trigger] parts@[k]@ == sp[k],
            query_value_in(sp, key@) == query_value_in(
                sp.subrange(i as int, sp.len() as int),
                key@,
            ),
        decreases parts.len() - i,
    {
        let ghost rest = sp.subrange(i as int, sp.len() as int);
        assert(rest[0] == parts@[i as int]@);
        assert(rest.subrange(1, rest.len() as int) =~= sp.subrange(i + 1, sp.len() as int));
        match split_once(parts[i].as_str(), '=') {
            Some((k, v)) => {
                if str_eq(k.as_str(), key) {
                    return Some(v);
                }
            },
            None => {},
        }
        i = i + 1;
    }
    None
}

/// What `str::parse::<i32>` gives: an optional sign, then at least one ASCII digit and
/// nothing else, within the range of `i32`.
pub open spec fn parse_i32_spec(s: Seq<char>) -> Option<i32> {
    let neg = s.len() > 0 && s[0] == '-';
    let digits = if s.len() > 0 && (s[0] == '+' || s[0] == '-') {
        s.drop_first()
    } else {
        s
    };
    let limit: nat = if neg {
        2147483648
    } else {
        2147483647
    };
    if digits.len() > 0 && all_digits(digits) && digits_value(digits) <= limit {
        Some(
            (if neg {
                -(digits_value(digits) as int)
            } else {
                digits_value(digits) as int
            }) as i32,
        )
    } else {
        None
    }
}

/// Parses a decimal `i32` the way `str::parse::<i32>` does.
pub fn parse_i32(s: &str) -> (r: Option<i32>)
    ensures
        r == parse_i32_spec(s@),
{
    let v = chars_of(s);
    let neg = v.len() > 0 && v[0] == '-';
    let start: usize = if v.len() > 0 && (v[0] == '+' || v[0] == '-') {
        1
    } else {
        0
    };
    let limit: u64 = if neg {
        2147483648
    } else {
        2147483647
    };
    let ghost digits = if s@.len() > 0 && (s@[0] == '+' || s@[0] == '-') {
        s@.drop_first()
    } else {
        s@
    };
    assert(digits =~= s@.subrange(start as int, s@.len() as int));
    if start >= v.len() {
        return None;
    }
    let mut value: u64 = 0;
    let mut i = start;
    while i < v.len()
        invariant
            v@ == s@,
            start <= i <= v.len(),
            digits == s@.subrange(start as int, s@.len() as int),
            digits == (if s@.len() > 0 && (s@[0] == '+' || s@[0] == '-') {
                s@.drop_first()
            } else {
                s@
            }),
            neg == (s@.len() > 0 && s@[0] == '-'),
            limit == (if neg {
                2147483648u64
            } else {
                2147483647u64
            }),
            all_digits(s@.subrange(start as int, i as int)),
            value == digits_value(s@.subrange(start as int, i as int)),
            value <= limit,
        decreases v.len() - i,
    {
        let c = v[i];
        let ghost prefix = s@.subrange(start as int, i as int);
        assert(s@.subrange(start as int, i + 1) =~= prefix.push(c));
        if !('0' <= c && c <= '9') {
            assert(digits[i - start] == c);
            assert(!crate::text::is_digit(digits[(i - start) as int]));
            assert(!all_digits(digits));
            return None;
        }
        proof {
            lemma_digits_value_push(prefix, c);
        }
        let next = value * 10 + ((c as u32) - 48) as u64;
        if next > limit {
            proof {
                let acc = prefix.push(c);
                assert(acc =~= digits.take((i + 1 - start) as int));
                assert(digits_value(acc) == next);
                if all_digits(digits) {
                    lemma_digits_value_prefix(digits, (i + 1 - start) as int);
                    assert(digits_value(digits) > limit);
                }
            }
            return None;
        }
        value = next;
        proof {
            assert forall|j: int|
                0 <= j < prefix.push(c).len() implies crate::text::is_digit(
                    #[trigger] prefix.push(c)[j],
                ) by {
                if j < prefix.len() {
                    assert(prefix.push(c)[j] == prefix[j]);
                }
            }
        }
        i = i + 1;
    }
    assert(s@.subrange(start as int, v.len() as int) =~= digits);
    if neg {
        Some((0 - (value as i64)) as i32)
    } else {
        Some(value as i32)
    }
}

/// The vote count of a vote display: its number after any leading `+` signs.
pub open spec fn parsed_vote_spec(value: Seq<char>) -> Option<i32> {
    parse_i32_spec(strip_leading(value, '+'))
}

/// The classes of a vote tag: official for `∞`, else high from five votes, medium from
/// two, and low otherwise.
pub open spec fn vote_class_spec(value: Seq<char>) -> Seq<char> {
    if value == "∞"@ {
        "dictionary-meta-segment dictionary-meta-tooltip dictionary-vote-tag is-official"@
    } else if parsed_vote_spec(value) matches Some(c) && c >= 5 {
        "dictionary-meta-segment dictionary-meta-tooltip dictionary-vote-tag is-high"@
    } else if parsed_vote_spec(value) matches Some(c) && c >= 2 {
        "dictionary-meta-segment dictionary-meta-tooltip dictionary-vote-tag is-medium"@
    } else {
        "dictionary-meta-segment dictionary-meta-tooltip dictionary-vote-tag is-low"@
    }
}

/// The classes of a vote tag.
pub fn vote_class(value: &str) -> (r: &'static str)
    ensures
        r@ == vote_class_spec(value@),
{
    if str_eq(value, "∞") {
        return "dictionary-meta-segment dictionary-meta-tooltip dictionary-vote-tag is-official";
    }
    let parsed = parse_i32(crate::web_route::strip_leading_str(value, '+').as_str());
    match parsed {
        Some(c) => {
            if c >= 5 {
                "dictionary-meta-segment dictionary-meta-tooltip dictionary-vote-tag is-high"
            } else if c >= 2 {
                "dictionary-meta-segment dictionary-meta-tooltip dictionary-vote-tag is-medium"
            } else {
                "dictionary-meta-segment dictionary-meta-tooltip dictionary-vote-tag is-low"
            }
        },
        None => "dictionary-meta-segment dictionary-meta-tooltip dictionary-vote-tag is-low",
    }
}

/// The tooltip of a vote tag: the official marker `∞` is explained, any other tally
/// is a community tally.
pub open spec fn vote_title_spec(value: Seq<char>) -> Seq<char> {
    if value == "∞"@ {
        "Official baseline lexicon word. The infinity marker replaces the raw Lensisku community tally once the official-word threshold is exceeded."@
    } else {
        "Community upvote/downvote tally from Lensisku contributors."@
    }
}

/// The tooltip of a vote tag.
pub fn vote_title(value: &str) -> (r: &'static str)
    ensures
        r@ == vote_title_spec(value@),
{
    if str_eq(value, "∞") {
        "Official baseline lexicon word. The infinity marker replaces the raw Lensisku community tally once the official-word threshold is exceeded."
    } else {
        "Community upvote/downvote tally from Lensisku contributors."
    }
}

} // verus!
