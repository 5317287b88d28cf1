//! View decisions of the web front end: which links stay inside the application,
//! where grammar media and dictionary tooltips point, how the lujvo builder's pane is
//! stored and read back, and the classes and titles of its controls and reference
//! markers.

use crate::text::{
    ascii_lower_seq, concat2, contains_name, contains_str, decimal, has_prefix, is_blank, owned,
    push_decimal, push_str, split_char, split_once, split_once_spec, split_spec, starts_with,
    str_eq, strip_trailing, to_ascii_lowercase, trim, trim_spec, views,
};
use crate::json::{
    json_as_array, json_contents, json_field, json_get, json_text_field, json_text_value,
    json_u64_field, parse_json, text_field, u64_field, JsonView,
};
use crate::web_route::{
    nav_href_spec, route_path, route_spec, AppRoute, app_route_path_spec, asset_extension_spec, has_app_asset_extension,
    is_app_route_path_for_client, split_href, split_href_spec, strip_base_path_for_client,
    strip_base_path_spec, strip_prefix_str, strip_trailing_str,
};
use vstd::prelude::*;

verus! {

/// A link as the router of the front end takes it: a root-relative address (or one on
/// the page's own `origin`) whose path, under the base path, is a route of the
/// application and not a file. Fragments, mail and script links, protocol-relative
/// links and other sites give `None`, as does an absolute link when no origin is known.
pub open spec fn normalize_internal_href_spec(
    href: Seq<char>,
    base_path: Seq<char>,
    origin: Option<Seq<char>>,
) -> Option<Seq<char>> {
    let t = trim_spec(href);
    if t.len() == 0 || has_prefix(t, "#"@) || has_prefix(t, "mailto:"@) || has_prefix(
        t,
        "javascript:"@,
    ) || has_prefix(t, "//"@) {
        None
    } else {
        let address: Option<Seq<char>> = if has_prefix(t, "http://"@) || has_prefix(
            t,
            "https://"@,
        ) {
            match origin {
                Some(o) => if has_prefix(t, o) {
                    Some(t.subrange(o.len() as int, t.len() as int))
                } else {
                    None
                },
                None => None,
            }
        } else if has_prefix(t, "/"@) {
            Some(t)
        } else {
            None
        };
        match address {
            Some(x) => {
                let path = split_href_spec(x).0;
                if asset_extension_spec(path) {
                    None
                } else {
                    match strip_base_path_spec(path, base_path) {
                        Some(logical) => if app_route_path_spec(logical) {
                            Some(x)
                        } else {
                            None
                        },
                        None => None,
                    }
                }
            },
            None => None,
        }
    }
}

/// The address that the router takes for a clicked link, if it is one of the
/// application's own pages; `origin` is the page's origin, when it is known.
pub fn normalize_internal_href(href: &str, base_path: &str, origin: Option<&str>) -> (r: Option<
    String,
>)
    ensures
        match r {
            Some(x) => normalize_internal_href_spec(
                href@,
                base_path@,
                match origin {
                    Some(o) => Some(o@),
                    None => None,
                },
            ) == Some(x@),
            None => normalize_internal_href_spec(
                href@,
                base_path@,
                match origin {
                    Some(o) => Some(o@),
                    None => None,
                },
            ) is None,
        },
{
    proof {
        reveal_strlit("#");
        reveal_strlit("mailto:");
        reveal_strlit("javascript:");
        reveal_strlit("//");
        reveal_strlit("http://");
        reveal_strlit("https://");
        reveal_strlit("/");
    }
    let trimmed = trim(href);
    let t = trimmed.as_str();
    if t.is_empty() || starts_with(t, "#") || starts_with(t, "mailto:") || starts_with(
        t,
        "javascript:",
    ) || starts_with(t, "//") {
        return None;
    }
    let address = if starts_with(t, "http://") || starts_with(t, "https://") {
        match origin {
            Some(o) => match strip_prefix_str(t, o) {
                Some(rest) => rest,
                None => {
                    return None;
                },
            },
            None => {
                return None;
            },
        }
    } else if starts_with(t, "/") {
        owned(t)
    } else {
        return None;
    };
    let (path, _query, _hash) = split_href(address.as_str());
    if has_app_asset_extension(path.as_str()) {
        return None;
    }
    match strip_base_path_for_client(path.as_str(), base_path) {
        Some(logical) => if is_app_route_path_for_client(logical.as_str()) {
            Some(address)
        } else {
            None
        },
        None => None,
    }
}

/// A root-relative link made absolute on the page's origin (without its trailing
/// slashes); other links, and any link when no origin is known, are kept.
pub open spec fn absolute_href_spec(href: Seq<char>, origin: Option<Seq<char>>) -> Seq<char> {
    match origin {
        Some(o) => if has_prefix(href, "/"@) {
            strip_trailing(o, '/') + href
        } else {
            href
        },
        None => href,
    }
}

/// A link made absolute on the page's origin, when that is known.
pub fn absolute_href_for_client(href: &str, origin: Option<&str>) -> (r: String)
    ensures
        r@ == absolute_href_spec(
            href@,
            match origin {
                Some(o) => Some(o@),
                None => None,
            },
        ),
{
    proof {
        reveal_strlit("/");
    }
    match origin {
        Some(o) => if starts_with(href, "/") {
            let base = strip_trailing_str(o, '/');
            concat2(base.as_str(), href)
        } else {
            owned(href)
        },
        None => owned(href),
    }
}

/// The base path of the application for the current page's path: `/jbotci` when the
/// page lies under it, else `/`.
pub open spec fn base_path_for_spec(path: Seq<char>) -> Seq<char> {
    if path == "/jbotci"@ || has_prefix(path, "/jbotci/"@) {
        "/jbotci"@
    } else {
        "/"@
    }
}

/// The base path of the application for the current page's path.
pub fn base_path_from_current_path(path: &str) -> (r: String)
    ensures
        r@ == base_path_for_spec(path@),
{
    if str_eq(path, "/jbotci") || starts_with(path, "/jbotci/") {
        owned("/jbotci")
    } else {
        owned("/")
    }
}

/// `s` without the copies of `p` that it starts with, as `str::trim_start_matches`
/// gives it for a string pattern (an empty pattern removes nothing).
pub open spec fn trim_start_matches_spec(s: Seq<char>, p: Seq<char>) -> Seq<char>
    decreases s.len(),
{
    if p.len() > 0 && has_prefix(s, p) {
        trim_start_matches_spec(s.subrange(p.len() as int, s.len() as int), p)
    } else {
        s
    }
}

/// `s` without the copies of `p` that it starts with.
pub fn trim_start_matches_str(s: &str, p: &str) -> (r: String)
    ensures
        r@ == trim_start_matches_spec(s@, p@),
{
    let mut rest = owned(s);
    if p.is_empty() {
        return rest;
    }
    loop
        invariant
            p@.len() > 0,
            trim_start_matches_spec(rest@, p@) == trim_start_matches_spec(s@, p@),
        decreases rest@.len(),
    {
        match strip_prefix_str(rest.as_str(), p) {
            Some(next) => {
                rest = next;
            },
            None => {
                return rest;
            },
        }
    }
}

/// The file name of a grammar media file: its source without the media folder prefixes.
pub open spec fn cll_media_name_spec(src: Seq<char>) -> Seq<char> {
    trim_start_matches_spec(
        trim_start_matches_spec(
            trim_start_matches_spec(trim_start_matches_spec(src, "assets/media/"@), "media/"@),
            "assets/cll/media/"@,
        ),
        "cll/media/"@,
    )
}

/// The file name of a grammar media file.
pub fn cll_media_name(src: &str) -> (r: String)
    ensures
        r@ == cll_media_name_spec(src@),
{
    let a = trim_start_matches_str(src, "assets/media/");
    let b = trim_start_matches_str(a.as_str(), "media/");
    let c = trim_start_matches_str(b.as_str(), "assets/cll/media/");
    trim_start_matches_str(c.as_str(), "cll/media/")
}

/// Where a grammar asset is served from: the bundled file, when the media name is one
/// of the bundled ones (`known_media`), else the asset folder under the base path.
pub open spec fn cll_asset_href_spec(
    base_path: Seq<char>,
    src: Seq<char>,
    known_media: Option<Seq<char>>,
) -> Seq<char> {
    match known_media {
        Some(h) => h,
        None => strip_trailing(base_path, '/') + "/assets/cll/"@ + trim_start_matches_spec(
            src,
            "assets/"@,
        ),
    }
}

/// Where a grammar asset is served from; `known_media` is the bundled file of its media
/// name, if there is one.
pub fn cll_asset_href(base_path: &str, src: &str, known_media: Option<String>) -> (r: String)
    ensures
        r@ == cll_asset_href_spec(
            base_path@,
            src@,
            match known_media {
                Some(h) => Some(h@),
                None => None,
            },
        ),
{
    match known_media {
        Some(h) => h,
        None => {
            let mut out = strip_trailing_str(base_path, '/');
            push_str(&mut out, "/assets/cll/");
            let rest = trim_start_matches_str(src, "assets/");
            push_str(&mut out, rest.as_str());
            out
        },
    }
}

/// What a grammar link's dictionary tooltip shows: a word's entry, or the word of a
/// rafsi.
#[derive(Debug, Clone, PartialEq, Eq)]
pub enum DictionaryTooltipTarget {
    Word(String),
    Rafsi(String),
}

/// The value of the last `q=` part among `parts`, if any.
pub open spec fn last_q_value(parts: Seq<Seq<char>>) -> Option<Seq<char>>
    decreases parts.len(),
{
    if parts.len() == 0 {
        None
    } else if has_prefix(parts.last(), "q="@) {
        Some(parts.last().subrange(2, parts.last().len() as int))
    } else {
        last_q_value(parts.drop_last())
    }
}

/// Whether one of `parts` is `x`.
pub open spec fn has_part(parts: Seq<Seq<char>>, x: Seq<char>) -> bool
    decreases parts.len(),
{
    parts.len() > 0 && (parts.last() == x || has_part(parts.drop_last(), x))
}

/// The tooltip target of a grammar link, as a flag for a rafsi and a text: a
/// `../vlacku/` link names a word; a `../vlacku?` query names a rafsi when one of its
/// parts is `mode=rafsi` and one starts with `q=` (the last such gives the rafsi).
pub open spec fn tooltip_target_spec(href: Seq<char>) -> Option<(bool, Seq<char>)> {
    if has_prefix(href, "../vlacku/"@) {
        Some((false, href.subrange(10, href.len() as int)))
    } else if has_prefix(href, "../vlacku?"@) {
        let parts = split_spec(href.subrange(10, href.len() as int), '&');
        if has_part(parts, "mode=rafsi"@) {
            match last_q_value(parts) {
                Some(v) => Some((true, v)),
                None => None,
            }
        } else {
            None
        }
    } else {
        None
    }
}

/// The tooltip target of a grammar link, if it has one.
pub fn cll_dictionary_tooltip_target(href: &str) -> (r: Option<DictionaryTooltipTarget>)
    ensures
        match r {
            Some(DictionaryTooltipTarget::Word(w)) => tooltip_target_spec(href@) == Some((false, w@)),
            Some(DictionaryTooltipTarget::Rafsi(v)) => tooltip_target_spec(href@) == Some((true, v@)),
            None => tooltip_target_spec(href@) is None,
        },
{
    proof {
        reveal_strlit("../vlacku/");
        reveal_strlit("../vlacku?");
        reveal_strlit("mode=rafsi");
        reveal_strlit("q=");
    }
    if let Some(target) = strip_prefix_str(href, "../vlacku/") {
        return Some(DictionaryTooltipTarget::Word(target));
    }
    let query = match strip_prefix_str(href, "../vlacku?") {
        Some(q) => q,
        None => {
            return None;
        },
    };
    let parts = split_char(query.as_str(), '&');
    let ghost sp = split_spec(href@.subrange(10, href@.len() as int), '&');
    let mut mode_is_rafsi = false;
    let mut rafsi: Option<String> = None;
    let mut i: usize = 0;
    while i < parts.len()
        invariant
            i <= parts.len(),
            parts@.len() == sp.len(),
            forall|k: int| 0 <= k < parts@.len() ==> #[trigger] parts@[k]@ == sp[k],
            mode_is_rafsi == has_part(sp.subrange(0, i as int), "mode=rafsi"@),
            match rafsi {
                Some(v) => last_q_value(sp.subrange(0, i as int)) == Some(v@),
                None => last_q_value(sp.subrange(0, i as int)) is None,
            },
        decreases parts.len() - i,
    {
        let ghost next = sp.subrange(0, i + 1);
        assert(next.drop_last() =~= sp.subrange(0, i as int));
        assert(next.last() == parts@[i as int]@);
        let part = parts[i].as_str();
        proof {
            reveal_strlit("mode=rafsi");
            reveal_strlit("q=");
        }
        if str_eq(part, "mode=rafsi") {
            assert("mode=rafsi"@.subrange(0, 2)[0] == 'm');
            assert(!has_prefix("mode=rafsi"@, "q="@));
            mode_is_rafsi = true;
        } else if let Some(value) = strip_prefix_str(part, "q=") {
            rafsi = Some(value);
        }
        i = i + 1;
    }
    assert(sp.subrange(0, sp.len() as int) =~= sp);
    if mode_is_rafsi {
        match rafsi {
            Some(v) => Some(DictionaryTooltipTarget::Rafsi(v)),
            None => None,
        }
    } else {
        None
    }
}

/// The kind of passage that a search target names, whatever its case and surrounding
/// whitespace: `section`, `paragraph` or `example`, each also in the plural.
pub open spec fn target_kind(target: Seq<char>) -> Option<Seq<char>> {
    let k = ascii_lower_seq(trim_spec(target));
    if k == "section"@ || k == "sections"@ {
        Some("section"@)
    } else if k == "paragraph"@ || k == "paragraphs"@ {
        Some("paragraph"@)
    } else if k == "example"@ || k == "examples"@ {
        Some("example"@)
    } else {
        None
    }
}

/// The kinds that `targets` name, each once, in the order of their first mention.
pub open spec fn kinds_in(targets: Seq<Seq<char>>) -> Seq<Seq<char>>
    decreases targets.len(),
{
    if targets.len() == 0 {
        seq![]
    } else {
        let acc = kinds_in(targets.drop_last());
        match target_kind(targets.last()) {
            Some(k) => if acc.contains(k) {
                acc
            } else {
                acc.push(k)
            },
            None => acc,
        }
    }
}

/// The passage kinds that a semantic search is restricted to: those the targets name,
/// or all three when they name none.
pub open spec fn worker_kind_filters_spec(targets: Seq<Seq<char>>) -> Seq<Seq<char>> {
    if kinds_in(targets).len() == 0 {
        seq!["section"@, "paragraph"@, "example"@]
    } else {
        kinds_in(targets)
    }
}

fn target_kind_of(target: &str) -> (r: Option<&'static str>)
    ensures
        match r {
            Some(k) => target_kind(target@) == Some(k@),
            None => target_kind(target@) is None,
        },
{
    let trimmed = trim(target);
    let key = to_ascii_lowercase(trimmed.as_str());
    let k = key.as_str();
    if str_eq(k, "section") || str_eq(k, "sections") {
        Some("section")
    } else if str_eq(k, "paragraph") || str_eq(k, "paragraphs") {
        Some("paragraph")
    } else if str_eq(k, "example") || str_eq(k, "examples") {
        Some("example")
    } else {
        None
    }
}

proof fn lemma_contains_name_views(list: Seq<String>, name: Seq<char>)
    ensures
        contains_name(list, name) == views(list).contains(name),
{
    if contains_name(list, name) {
        let i = choose|i: int| 0 <= i < list.len() && #[trigger] list[i]@ == name;
        assert(views(list)[i] == name);
    }
    if views(list).contains(name) {
        let i = choose|i: int| 0 <= i < views(list).len() && views(list)[i] == name;
        assert(list[i]@ == name);
    }
}

/// The passage kinds that a semantic search over `targets` is restricted to.
pub fn cukta_semantic_worker_kind_filters(targets: &Vec<String>) -> (r: Vec<String>)
    ensures
        views(r@) == worker_kind_filters_spec(views(targets@)),
        r@.len() > 0,
{
    let mut filters: Vec<String> = Vec::new();
    let mut i: usize = 0;
    while i < targets.len()
        invariant
            i <= targets.len(),
            views(filters@) == kinds_in(views(targets@).subrange(0, i as int)),
        decreases targets.len() - i,
    {
        let ghost next = views(targets@).subrange(0, i + 1);
        assert(next.drop_last() =~= views(targets@).subrange(0, i as int));
        assert(next.last() == targets@[i as int]@);
        match target_kind_of(targets[i].as_str()) {
            Some(k) => {
                proof {
                    lemma_contains_name_views(filters@, k@);
                }
                if !contains_str(&filters, k) {
                    let ghost before = filters@;
                    filters.push(owned(k));
                    assert(views(filters@) =~= views(before).push(k@));
                }
            },
            None => {},
        }
        i = i + 1;
    }
    assert(views(targets@).subrange(0, targets.len() as int) =~= views(targets@));
    if filters.len() == 0 {
        filters.push(owned("section"));
        filters.push(owned("paragraph"));
        filters.push(owned("example"));
        assert(views(filters@) =~= seq!["section"@, "paragraph"@, "example"@]);
    }
    filters
}

/// The number of semantic hits asked for: one more than the (normalized) result count,
/// saturating, and at most `max_count`.
pub open spec fn worker_limit_spec(count: usize, max_count: usize) -> usize {
    let more: usize = if count < usize::MAX {
        (count + 1) as usize
    } else {
        count
    };
    if more < max_count {
        more
    } else {
        max_count
    }
}

/// The number of semantic hits asked for, from the normalized result count.
pub fn vlacku_semantic_worker_limit(normalized_count: usize, max_count: usize) -> (r: usize)
    ensures
        r == worker_limit_spec(normalized_count, max_count),
        max_count >= 1 ==> 1 <= r <= max_count,
{
    let more = normalized_count.saturating_add(1);
    if more < max_count {
        more
    } else {
        max_count
    }
}

/// What a piece of the lujvo builder's pane is: a word, or a rafsi fixed by hand.
#[derive(Debug, Clone, Copy, PartialEq, Eq, Structural)]
pub enum VlackuJvozbaItemKind {
    Word,
    FixedRafsi,
}

/// A piece of the lujvo builder's pane, as it is stored between visits.
#[derive(Debug, Clone)]
pub struct VlackuJvozbaItem {
    pub kind: VlackuJvozbaItemKind,
    pub value: String,
    pub source: Option<String>,
    pub indent_level: usize,
}

/// `line` without one trailing carriage return.
pub open spec fn without_cr(line: Seq<char>) -> Seq<char> {
    if line.len() > 0 && line.last() == '\r' {
        line.drop_last()
    } else {
        line
    }
}

/// The lines of `raw` as `str::lines` gives them: split at each `\n`, a `\r` right
/// before it dropped, and no empty last line after a final `\n`.
pub open spec fn lines_spec(raw: Seq<char>) -> Seq<Seq<char>> {
    let parts = split_spec(raw, '\n');
    let n = parts.len() - 1;
    let closed = Seq::new(n as nat, |i: int| without_cr(parts[i]));
    if parts[n].len() == 0 {
        closed
    } else {
        closed.push(parts[n])
    }
}

/// The stored item of one line of the older format: a kind (`word` or `rafsi`), a tab
/// and a nonempty value.
pub open spec fn legacy_item(line: Seq<char>) -> Option<(VlackuJvozbaItemKind, Seq<char>)> {
    match split_once_spec(line, '\t') {
        Some((kind, value)) => if value.len() == 0 {
            None
        } else if kind == "word"@ {
            Some((VlackuJvozbaItemKind::Word, value))
        } else if kind == "rafsi"@ {
            Some((VlackuJvozbaItemKind::FixedRafsi, value))
        } else {
            None
        },
        None => None,
    }
}

/// The stored items of `lines` in the older format; other lines are skipped.
pub open spec fn legacy_items(lines: Seq<Seq<char>>) -> Seq<(VlackuJvozbaItemKind, Seq<char>)>
    decreases lines.len(),
{
    if lines.len() == 0 {
        seq![]
    } else {
        let acc = legacy_items(lines.drop_last());
        match legacy_item(lines.last()) {
            Some(item) => acc.push(item),
            None => acc,
        }
    }
}

/// `items` hold the pieces `spec`, each without a source and not indented.
pub open spec fn items_match(
    items: Seq<VlackuJvozbaItem>,
    spec: Seq<(VlackuJvozbaItemKind, Seq<char>)>,
) -> bool {
    &&& items.len() == spec.len()
    &&& forall|i: int|
        0 <= i < items.len() ==> {
            &&& #[trigger] items[i].kind == spec[i].0
            &&& items[i].value@ == spec[i].1
            &&& items[i].source is None
            &&& items[i].indent_level == 0
        }
}

fn legacy_item_of(line: &str) -> (r: Option<VlackuJvozbaItem>)
    ensures
        match r {
            Some(item) => legacy_item(line@) == Some((item.kind, item.value@)) && item.source is None
                && item.indent_level == 0,
            None => legacy_item(line@) is None,
        },
{
    match split_once(line, '\t') {
        Some((kind, value)) => {
            if value.as_str().is_empty() {
                None
            } else if str_eq(kind.as_str(), "word") {
                Some(
                    VlackuJvozbaItem {
                        kind: VlackuJvozbaItemKind::Word,
                        value,
                        source: None,
                        indent_level: 0,
                    },
                )
            } else if str_eq(kind.as_str(), "rafsi") {
                Some(
                    VlackuJvozbaItem {
                        kind: VlackuJvozbaItemKind::FixedRafsi,
                        value,
                        source: None,
                        indent_level: 0,
                    },
                )
            } else {
                None
            }
        },
        None => None,
    }
}

/// The pieces of the lujvo builder's pane stored in the older, line-based format.
pub fn parse_vlacku_jvozba_legacy_items(raw: &str) -> (r: Vec<VlackuJvozbaItem>)
    ensures
        items_match(r@, legacy_items(lines_spec(raw@))),
{
    let parts = split_char(raw, '\n');
    let ghost sp = split_spec(raw@, '\n');
    let ghost lines = lines_spec(raw@);
    let n = parts.len() - 1;
    let mut items: Vec<VlackuJvozbaItem> = Vec::new();
    let mut i: usize = 0;
    while i < parts.len()
        invariant
            parts@.len() == sp.len(),
            forall|k: int| 0 <= k < parts@.len() ==> #[trigger] parts@[k]@ == sp[k],
            n == sp.len() - 1,
            lines == lines_spec(raw@),
            sp == split_spec(raw@, '\n'),
            i <= parts.len(),
            i <= n ==> items_match(items@, legacy_items(lines.subrange(0, i as int))),
            i == n + 1 ==> items_match(items@, legacy_items(lines)),
        decreases parts.len() - i,
    {
        let piece = parts[i].as_str();
        let ghost before = items@;
        if i < n {
            let v = crate::text::chars_of(piece);
            let end = if v.len() > 0 && v[v.len() - 1] == '\r' {
                v.len() - 1
            } else {
                v.len()
            };
            let line = crate::text::string_of_range(&v, 0, end);
            proof {
                assert(v@.subrange(0, end as int) =~= without_cr(sp[i as int]));
                assert(lines[i as int] == without_cr(sp[i as int]));
                assert(lines.subrange(0, i + 1).drop_last() =~= lines.subrange(0, i as int));
            }
            match legacy_item_of(line.as_str()) {
                Some(item) => {
                    items.push(item);
                },
                None => {},
            }
            proof {
                let spec = legacy_items(lines.subrange(0, i + 1));
                assert(items_match(items@, spec)) by {
                    assert forall|k: int| 0 <= k < items@.len() implies {
                        &&& #[trigger] items@[k].kind == spec[k].0
                        &&& items@[k].value@ == spec[k].1
                        &&& items@[k].source is None
                        &&& items@[k].indent_level == 0
                    } by {
                        if k < before.len() {
                            assert(items@[k] == before[k]);
                        }
                    }
                }
            }
        } else {
            proof {
                if sp[n as int].len() == 0 {
                    assert(lines.subrange(0, n as int) =~= lines);
                } else {
                    assert(lines.subrange(0, n as int) =~= lines.drop_last());
                    assert(lines.last() == sp[n as int]);
                }
            }
            if !piece.is_empty() {
                match legacy_item_of(piece) {
                    Some(item) => {
                        items.push(item);
                    },
                    None => {},
                }
                proof {
                    let spec = legacy_items(lines);
                    assert(items_match(items@, spec)) by {
                        assert forall|k: int| 0 <= k < items@.len() implies {
                            &&& #[trigger] items@[k].kind == spec[k].0
                            &&& items@[k].value@ == spec[k].1
                            &&& items@[k].source is None
                            &&& items@[k].indent_level == 0
                        } by {
                            if k < before.len() {
                                assert(items@[k] == before[k]);
                            }
                        }
                    }
                }
            }
        }
        i = i + 1;
    }
    items
}

/// The kind of a stored piece named by its `kind` field: `word`, or `rafsi` (also
/// written `fixed-rafsi`).
pub open spec fn stored_kind(kind: Seq<char>) -> Option<VlackuJvozbaItemKind> {
    if kind == "word"@ {
        Some(VlackuJvozbaItemKind::Word)
    } else if kind == "rafsi"@ || kind == "fixed-rafsi"@ {
        Some(VlackuJvozbaItemKind::FixedRafsi)
    } else {
        None
    }
}

/// A stored piece of the current format, from the fields of its record: `kind` and
/// `value` (trimmed, not empty) are needed; `source` is kept trimmed when it is not
/// empty; `indent_level` is the indentation, 0 when absent.
pub fn vlacku_jvozba_item_from_fields(
    kind: Option<&str>,
    value: Option<&str>,
    source: Option<&str>,
    indent_level: Option<u64>,
) -> (r: Option<VlackuJvozbaItem>)
    ensures
        match r {
            Some(item) => {
                &&& kind matches Some(k) && stored_kind(k@) == Some(item.kind)
                &&& value matches Some(v) && trim_spec(v@).len() > 0 && item.value@ == trim_spec(
                    v@,
                )
                &&& match source {
                    Some(s) => if trim_spec(s@).len() > 0 {
                        item.source matches Some(t) && t@ == trim_spec(s@)
                    } else {
                        item.source is None
                    },
                    None => item.source is None,
                }
                &&& item.indent_level == match indent_level {
                    Some(n) => n as usize,
                    None => 0usize,
                }
            },
            None => !(kind matches Some(k) && stored_kind(k@) is Some) || !(value matches Some(v)
                && trim_spec(v@).len() > 0),
        },
{
    let item_kind = match kind {
        Some(k) => if str_eq(k, "word") {
            VlackuJvozbaItemKind::Word
        } else if str_eq(k, "rafsi") || str_eq(k, "fixed-rafsi") {
            VlackuJvozbaItemKind::FixedRafsi
        } else {
            return None;
        },
        None => {
            return None;
        },
    };
    let item_value = match value {
        Some(v) => trim(v),
        None => {
            return None;
        },
    };
    if item_value.as_str().is_empty() {
        return None;
    }
    let item_source = match source {
        Some(s) => {
            let t = trim(s);
            if t.as_str().is_empty() {
                None
            } else {
                Some(t)
            }
        },
        None => None,
    };
    let level: usize = match indent_level {
        Some(n) => n as usize,
        None => 0,
    };
    Some(
        VlackuJvozbaItem {
            kind: item_kind,
            value: item_value,
            source: item_source,
            indent_level: level,
        },
    )
}

/// The lowercase hexadecimal digit of `d`.
pub open spec fn hex_digit(d: int) -> char {
    if d < 10 {
        (48 + d) as char
    } else {
        (87 + d) as char
    }
}

/// How a JSON string spells one character: quotes, backslashes and control
/// characters below U+0020 escaped (the five with short forms by them, the others as
/// `\u00XX`), every other character as it is.
pub open spec fn json_char(c: char) -> Seq<char> {
    if c == '"' {
        seq!['\\', '"']
    } else if c == '\\' {
        seq!['\\', '\\']
    } else if c == '\x08' {
        seq!['\\', 'b']
    } else if c == '\t' {
        seq!['\\', 't']
    } else if c == '\n' {
        seq!['\\', 'n']
    } else if c == '\x0c' {
        seq!['\\', 'f']
    } else if c == '\r' {
        seq!['\\', 'r']
    } else if (c as u32) < 0x20 {
        seq!['\\', 'u', '0', '0', hex_digit((c as u32) as int / 16), hex_digit((c as u32) as int % 16)]
    } else {
        seq![c]
    }
}

/// The characters of `s` as a JSON string spells them.
pub open spec fn json_escaped(s: Seq<char>) -> Seq<char>
    decreases s.len(),
{
    if s.len() == 0 {
        seq![]
    } else {
        json_escaped(s.drop_last()) + json_char(s.last())
    }
}

/// `s` as a JSON string literal.
pub open spec fn json_string_spec(s: Seq<char>) -> Seq<char> {
    seq!['"'] + json_escaped(s) + seq!['"']
}

/// `serde_json::to_string` on a string: the string in double quotes, with quotes,
/// backslashes and the control characters below U+0020 escaped as its serializer
/// escapes them, every other character written as it is.
#[verifier::external_body]
fn json_quote(s: &str) -> (r: String)
    ensures
        r@ == json_string_spec(s@),
{
    serde_json::to_string(s).unwrap_or_default()
}

/// The stored name of a piece's kind.
pub open spec fn stored_kind_name(kind: VlackuJvozbaItemKind) -> Seq<char> {
    match kind {
        VlackuJvozbaItemKind::Word => "word"@,
        VlackuJvozbaItemKind::FixedRafsi => "rafsi"@,
    }
}

/// A piece of the pane as a JSON record, its keys in order.
pub open spec fn item_json(item: VlackuJvozbaItem) -> Seq<char> {
    "{\"indentLevel\":"@ + decimal(item.indent_level as nat) + ",\"kind\":\""@ + stored_kind_name(
        item.kind,
    ) + "\",\"source\":"@ + match item.source {
        Some(src) => json_string_spec(src@),
        None => "null"@,
    } + ",\"value\":"@ + json_string_spec(item.value@) + "}"@
}

/// The records of `items`, separated by commas.
pub open spec fn items_json(items: Seq<VlackuJvozbaItem>) -> Seq<char>
    decreases items.len(),
{
    if items.len() == 0 {
        seq![]
    } else if items.len() == 1 {
        item_json(items[0])
    } else {
        items_json(items.drop_last()) + ","@ + item_json(items.last())
    }
}

fn push_item_json(out: &mut String, item: &VlackuJvozbaItem)
    ensures
        final(out)@ == old(out)@ + item_json(*item),
{
    push_str(out, "{\"indentLevel\":");
    push_decimal(out, item.indent_level as u64);
    push_str(out, ",\"kind\":\"");
    match item.kind {
        VlackuJvozbaItemKind::Word => push_str(out, "word"),
        VlackuJvozbaItemKind::FixedRafsi => push_str(out, "rafsi"),
    }
    push_str(out, "\",\"source\":");
    match &item.source {
        Some(src) => {
            let quoted = json_quote(src.as_str());
            push_str(out, quoted.as_str());
        },
        None => push_str(out, "null"),
    }
    push_str(out, ",\"value\":");
    let quoted = json_quote(item.value.as_str());
    push_str(out, quoted.as_str());
    push_str(out, "}");
    assert(final(out)@ =~= old(out)@ + item_json(*item));
}

/// The pieces of the lujvo builder's pane in their stored form: a JSON array of
/// records with the keys `indentLevel`, `kind` (`word` or `rafsi`), `source` (a string
/// or `null`) and `value`.
pub fn format_vlacku_jvozba_items(items: &Vec<VlackuJvozbaItem>) -> (r: String)
    ensures
        r@ == "["@ + items_json(items@) + "]"@,
{
    let mut out = owned("[");
    let mut i: usize = 0;
    while i < items.len()
        invariant
            i <= items.len(),
            out@ == "["@ + items_json(items@.subrange(0, i as int)),
        decreases items.len() - i,
    {
        let ghost before = out@;
        if i > 0 {
            push_str(&mut out, ",");
        }
        push_item_json(&mut out, &items[i]);
        proof {
            let next = items@.subrange(0, i + 1);
            assert(next.drop_last() =~= items@.subrange(0, i as int));
            assert(next.last() == items@[i as int]);
            if i == 0 {
                assert(next[0] == items@[0]);
                assert(out@ =~= "["@ + items_json(next));
            } else {
                assert(out@ =~= "["@ + items_json(next));
            }
        }
        i = i + 1;
    }
    assert(items@.subrange(0, items.len() as int) =~= items@);
    push_str(&mut out, "]");
    out
}

/// A stored piece of the lujvo builder's pane as it is read: its kind, value, source
/// and indentation.
pub struct StoredPiece {
    pub kind: VlackuJvozbaItemKind,
    pub value: Seq<char>,
    pub source: Option<Seq<char>>,
    pub indent_level: usize,
}

/// What a piece of the pane holds.
pub open spec fn piece_view(item: VlackuJvozbaItem) -> StoredPiece {
    StoredPiece {
        kind: item.kind,
        value: item.value@,
        source: match item.source {
            Some(s) => Some(s@),
            None => None,
        },
        indent_level: item.indent_level,
    }
}

/// `items` hold the pieces `pieces`, in order.
pub open spec fn pieces_are(items: Seq<VlackuJvozbaItem>, pieces: Seq<StoredPiece>) -> bool {
    &&& items.len() == pieces.len()
    &&& forall|i: int| 0 <= i < items.len() ==> #[trigger] piece_view(items[i]) == pieces[i]
}

/// The indentation of a stored record: its `indentLevel`, or, where it has no such key,
/// its `indent_level`.
pub open spec fn json_indent(record: JsonView) -> Option<u64> {
    if json_field(record, "indentLevel"@) is Some {
        json_u64_field(record, "indentLevel"@)
    } else {
        json_u64_field(record, "indent_level"@)
    }
}

/// A source text trimmed, and dropped where nothing is left.
pub open spec fn trimmed_source(source: Option<Seq<char>>) -> Option<Seq<char>> {
    match source {
        Some(s) => if trim_spec(s).len() > 0 {
            Some(trim_spec(s))
        } else {
            None
        },
        None => None,
    }
}

/// The piece of a stored JSON record: its `kind` (`word`, `rafsi` or `fixed-rafsi`) and
/// its `value` (trimmed, not empty) are strings; its `source`, where it is a string,
/// is kept trimmed unless empty; its indentation is 0 where it is absent.
pub open spec fn json_piece(record: JsonView) -> Option<StoredPiece> {
    match (json_text_field(record, "kind"@), json_text_field(record, "value"@)) {
        (Some(k), Some(v)) => match stored_kind(k) {
            Some(kind) => if trim_spec(v).len() > 0 {
                Some(
                    StoredPiece {
                        kind,
                        value: trim_spec(v),
                        source: trimmed_source(json_text_field(record, "source"@)),
                        indent_level: match json_indent(record) {
                            Some(n) => n as usize,
                            None => 0usize,
                        },
                    },
                )
            } else {
                None
            },
            None => None,
        },
        _ => None,
    }
}

/// The pieces of the stored JSON records `records`; records that are not pieces are
/// skipped.
pub open spec fn json_pieces(records: Seq<JsonView>) -> Seq<StoredPiece>
    decreases records.len(),
{
    if records.len() == 0 {
        seq![]
    } else {
        let acc = json_pieces(records.drop_last());
        match json_piece(records.last()) {
            Some(p) => acc.push(p),
            None => acc,
        }
    }
}

/// The pieces of the older format, without source or indentation.
pub open spec fn legacy_pieces(items: Seq<(VlackuJvozbaItemKind, Seq<char>)>) -> Seq<StoredPiece> {
    Seq::new(
        items.len(),
        |i: int| StoredPiece { kind: items[i].0, value: items[i].1, source: None, indent_level: 0 },
    )
}

/// The pieces stored in `raw`: the records of a JSON array, or, where `raw` is not one,
/// the lines of the older format.
pub open spec fn stored_pieces(raw: Seq<char>) -> Seq<StoredPiece> {
    match json_text_value(raw) {
        Some(JsonView::Array(records)) => json_pieces(records),
        _ => legacy_pieces(legacy_items(lines_spec(raw))),
    }
}

/// A piece of the pane from its stored JSON record.
pub fn parse_vlacku_jvozba_json_item(value: &serde_json::Value) -> (r: Option<VlackuJvozbaItem>)
    ensures
        match r {
            Some(item) => json_piece(json_contents(*value)) == Some(piece_view(item)),
            None => json_piece(json_contents(*value)) is None,
        },
{
    let kind = text_field(value, "kind");
    let item_value = text_field(value, "value");
    let source = text_field(value, "source");
    let indent = match json_get(value, "indentLevel") {
        Some(_) => u64_field(value, "indentLevel"),
        None => u64_field(value, "indent_level"),
    };
    let kind_ref: Option<&str> = match &kind {
        Some(k) => Some(k.as_str()),
        None => None,
    };
    let value_ref: Option<&str> = match &item_value {
        Some(v) => Some(v.as_str()),
        None => None,
    };
    let source_ref: Option<&str> = match &source {
        Some(t) => Some(t.as_str()),
        None => None,
    };
    vlacku_jvozba_item_from_fields(kind_ref, value_ref, source_ref, indent)
}

/// The pieces of the lujvo builder's pane from their stored text: the pieces of the
/// records of a JSON array, else those of the older, line-based format.
pub fn parse_vlacku_jvozba_items(raw: &str) -> (r: Vec<VlackuJvozbaItem>)
    ensures
        pieces_are(r@, stored_pieces(raw@)),
{
    match parse_json(raw) {
        Some(parsed) => match json_as_array(&parsed) {
            Some(records) => {
                let ghost views = match json_contents(parsed) {
                    JsonView::Array(items) => items,
                    _ => Seq::empty(),
                };
                let mut out: Vec<VlackuJvozbaItem> = Vec::new();
                let mut i: usize = 0;
                while i < records.len()
                    invariant
                        records@.len() == views.len(),
                        forall|k: int|
                            0 <= k < views.len() ==> #[trigger] json_contents(records@[k])
                                == views[k],
                        i <= records.len(),
                        pieces_are(out@, json_pieces(views.subrange(0, i as int))),
                    decreases records.len() - i,
                {
                    let ghost before = out@;
                    let next = parse_vlacku_jvozba_json_item(&records[i]);
                    proof {
                        assert(views.subrange(0, i + 1).drop_last() =~= views.subrange(
                            0,
                            i as int,
                        ));
                        assert(views.subrange(0, i + 1).last() == views[i as int]);
                    }
                    match next {
                        Some(item) => {
                            out.push(item);
                        },
                        None => {},
                    }
                    proof {
                        let spec = json_pieces(views.subrange(0, i + 1));
                        assert forall|k: int| 0 <= k < out@.len() implies #[trigger] piece_view(
                            out@[k],
                        ) == spec[k] by {
                            if k < before.len() {
                                assert(out@[k] == before[k]);
                            }
                        }
                    }
                    i = i + 1;
                }
                proof {
                    assert(views.subrange(0, records@.len() as int) =~= views);
                }
                return out;
            },
            None => {},
        },
        None => {},
    }
    let legacy = parse_vlacku_jvozba_legacy_items(raw);
    proof {
        let spec = legacy_pieces(legacy_items(lines_spec(raw@)));
        assert forall|k: int| 0 <= k < legacy@.len() implies #[trigger] piece_view(legacy@[k])
            == spec[k] by {
            assert(legacy@[k].source is None);
        }
    }
    legacy
}

/// The record that the writer stores for a piece.
pub open spec fn piece_record(item: VlackuJvozbaItem) -> JsonView {
    JsonView::Object(
        map![
            "indentLevel"@ => JsonView::Number(Some(item.indent_level as u64)),
            "kind"@ => JsonView::Str(stored_kind_name(item.kind)),
            "source"@ => match item.source {
                Some(s) => JsonView::Str(s@),
                None => JsonView::Null,
            },
            "value"@ => JsonView::Str(item.value@),
        ],
    )
}

/// A piece as the pane makes it: its value trimmed and not empty, and its source,
/// where it has one, trimmed and not empty.
pub open spec fn piece_is_kept(item: VlackuJvozbaItem) -> bool {
    &&& item.value@.len() > 0
    &&& trim_spec(item.value@) == item.value@
    &&& match item.source {
        Some(s) => s@.len() > 0 && trim_spec(s@) == s@,
        None => true,
    }
}

proof fn lemma_piece_record_reads_back(item: VlackuJvozbaItem)
    requires
        piece_is_kept(item),
    ensures
        json_piece(piece_record(item)) == Some(piece_view(item)),
{
    reveal_strlit("indentLevel");
    reveal_strlit("indent_level");
    reveal_strlit("kind");
    reveal_strlit("source");
    reveal_strlit("value");
    reveal_strlit("word");
    reveal_strlit("rafsi");
    reveal_strlit("fixed-rafsi");
    let record = piece_record(item);
    let m = match record {
        JsonView::Object(m) => m,
        _ => Map::empty(),
    };
    assert("indentLevel"@.len() == 11 && "indent_level"@.len() == 12 && "kind"@.len() == 4
        && "source"@.len() == 6 && "value"@.len() == 5);
    assert(m["indentLevel"@] == JsonView::Number(Some(item.indent_level as u64)));
    assert(m["kind"@] == JsonView::Str(stored_kind_name(item.kind)));
    assert(m["value"@] == JsonView::Str(item.value@));
    assert(json_indent(record) == Some(item.indent_level as u64));
    assert(json_text_field(record, "kind"@) == Some(stored_kind_name(item.kind)));
    assert(json_text_field(record, "value"@) == Some(item.value@));
    assert("word"@.len() == 4 && "rafsi"@.len() == 5 && "fixed-rafsi"@.len() == 11);
    assert(stored_kind(stored_kind_name(item.kind)) == Some(item.kind));
    match item.source {
        Some(src) => {
            assert(m["source"@] == JsonView::Str(src@));
            assert(json_text_field(record, "source"@) == Some(src@));
        },
        None => {
            assert(m["source"@] == JsonView::Null);
            assert(json_text_field(record, "source"@) is None);
        },
    }
    assert(trimmed_source(json_text_field(record, "source"@)) == piece_view(item).source);
    assert(((item.indent_level as u64) as usize) == item.indent_level);
}

proof fn lemma_records_read_back(items: Seq<VlackuJvozbaItem>)
    requires
        forall|i: int| 0 <= i < items.len() ==> piece_is_kept(#[trigger] items[i]),
    ensures
        json_pieces(Seq::new(items.len(), |i: int| piece_record(items[i]))) == Seq::new(
            items.len(),
            |i: int| piece_view(items[i]),
        ),
    decreases items.len(),
{
    let records = Seq::new(items.len(), |i: int| piece_record(items[i]));
    if items.len() > 0 {
        let rest = items.drop_last();
        lemma_records_read_back(rest);
        assert(records.drop_last() =~= Seq::new(rest.len(), |i: int| piece_record(rest[i])));
        lemma_piece_record_reads_back(items.last());
        assert(Seq::new(items.len(), |i: int| piece_view(items[i])) =~= Seq::new(
            rest.len(),
            |i: int| piece_view(rest[i]),
        ).push(piece_view(items.last())));
    } else {
        assert(records =~= Seq::<JsonView>::empty());
    }
}

/// What the writer stores reads back as the same pieces: where the JSON parser reads
/// the stored text of `items` as the array of their records, reading that text gives
/// back `items` in order, each with its kind, value, source and indentation, provided
/// each is as the pane makes it (a trimmed, nonempty value and source).
pub proof fn law_stored_pieces_read_back(items: Seq<VlackuJvozbaItem>)
    requires
        forall|i: int| 0 <= i < items.len() ==> piece_is_kept(#[trigger] items[i]),
        json_text_value("["@ + items_json(items) + "]"@) == Some(
            JsonView::Array(Seq::new(items.len(), |i: int| piece_record(items[i]))),
        ),
    ensures
        stored_pieces("["@ + items_json(items) + "]"@) == Seq::new(
            items.len(),
            |i: int| piece_view(items[i]),
        ),
{
    lemma_records_read_back(items);
}

/// The mode of the lujvo builder: a lujvo or a name.
#[derive(Debug, Clone, Copy, PartialEq, Eq, Structural)]
pub enum VlackuJvozbaMode {
    Lujvo,
    Cmevla,
}

/// The mode of the lujvo builder named by a stored value.
pub open spec fn parse_jvozba_mode_spec(value: Seq<char>) -> Option<VlackuJvozbaMode> {
    if value == "lujvo"@ {
        Some(VlackuJvozbaMode::Lujvo)
    } else if value == "cmevla"@ {
        Some(VlackuJvozbaMode::Cmevla)
    } else {
        None
    }
}

/// The stored value of a mode of the lujvo builder.
pub open spec fn jvozba_mode_value_spec(mode: VlackuJvozbaMode) -> Seq<char> {
    match mode {
        VlackuJvozbaMode::Lujvo => "lujvo"@,
        VlackuJvozbaMode::Cmevla => "cmevla"@,
    }
}

/// The stored mode of the lujvo builder, when it is one.
pub fn parse_vlacku_jvozba_mode(value: &str) -> (r: Option<VlackuJvozbaMode>)
    ensures
        r == parse_jvozba_mode_spec(value@),
{
    if str_eq(value, "lujvo") {
        Some(VlackuJvozbaMode::Lujvo)
    } else if str_eq(value, "cmevla") {
        Some(VlackuJvozbaMode::Cmevla)
    } else {
        None
    }
}

/// The name under which a mode of the lujvo builder is stored.
pub fn vlacku_jvozba_mode_value(mode: VlackuJvozbaMode) -> (r: &'static str)
    ensures
        r@ == jvozba_mode_value_spec(mode),
{
    match mode {
        VlackuJvozbaMode::Lujvo => "lujvo",
        VlackuJvozbaMode::Cmevla => "cmevla",
    }
}

/// A stored mode of the lujvo builder reads back as the mode that was stored.
pub proof fn law_jvozba_mode_round_trip(mode: VlackuJvozbaMode)
    ensures
        parse_jvozba_mode_spec(jvozba_mode_value_spec(mode)) == Some(mode),
{
    reveal_strlit("lujvo");
    reveal_strlit("cmevla");
    assert("lujvo"@[0] != "cmevla"@[0]);
}

/// The class of a view tab; the active one is marked.
pub fn view_tab_class(active: bool) -> (r: &'static str)
    ensures
        r@ == (if active {
            "view-tab active"@
        } else {
            "view-tab"@
        }),
{
    if active {
        "view-tab active"
    } else {
        "view-tab"
    }
}

/// The class of a theme button; the active one is marked.
pub fn theme_button_class(active: bool) -> (r: &'static str)
    ensures
        r@ == (if active {
            "theme-btn is-active"@
        } else {
            "theme-btn"@
        }),
{
    if active {
        "theme-btn is-active"
    } else {
        "theme-btn"
    }
}

/// The class of an orthography button: marked for the zbalermorna script, and when
/// active.
pub open spec fn orthography_button_class_spec(active: bool, zbalermorna: bool) -> Seq<char> {
    if active && zbalermorna {
        "theme-btn orthography-btn is-zbalermorna is-active"@
    } else if active {
        "theme-btn orthography-btn is-active"@
    } else if zbalermorna {
        "theme-btn orthography-btn is-zbalermorna"@
    } else {
        "theme-btn orthography-btn"@
    }
}

/// The class of an orthography button.
pub fn orthography_button_class(active: bool, zbalermorna: bool) -> (r: &'static str)
    ensures
        r@ == orthography_button_class_spec(active, zbalermorna),
{
    match (active, zbalermorna) {
        (true, true) => "theme-btn orthography-btn is-zbalermorna is-active",
        (true, false) => "theme-btn orthography-btn is-active",
        (false, true) => "theme-btn orthography-btn is-zbalermorna",
        (false, false) => "theme-btn orthography-btn",
    }
}

/// The class of a dictionary mode button; the active one is marked.
pub fn vlacku_mode_class(active: bool) -> (r: &'static str)
    ensures
        r@ == (if active {
            "dictionary-mode-toggle active"@
        } else {
            "dictionary-mode-toggle"@
        }),
{
    if active {
        "dictionary-mode-toggle active"
    } else {
        "dictionary-mode-toggle"
    }
}

/// The class of a lujvo builder mode button; the active one is marked.
pub fn vlacku_jvozba_mode_class(active: bool) -> (r: &'static str)
    ensures
        r@ == (if active {
            "dictionary-jvozba-mode-toggle active"@
        } else {
            "dictionary-jvozba-mode-toggle"@
        }),
{
    if active {
        "dictionary-jvozba-mode-toggle active"
    } else {
        "dictionary-jvozba-mode-toggle"
    }
}

/// How the dictionary page searches.
#[derive(Debug, Clone, Copy, PartialEq, Eq, Structural)]
pub enum VlackuWebMode {
    Word,
    Rafsi,
    Sound,
    Meaning,
}

/// The title of a dictionary mode button.
pub open spec fn vlacku_mode_title_spec(mode: VlackuWebMode, disabled: bool) -> Seq<char> {
    if disabled {
        "Semantic search is unavailable in this browser"@
    } else {
        match mode {
            VlackuWebMode::Word => "Find the word with exact spelling"@,
            VlackuWebMode::Rafsi => "Find the word by rafsi"@,
            VlackuWebMode::Sound => "Find words with similar pronunciation; use [IPA] for IPA input"@,
            VlackuWebMode::Meaning => "Find words with similar meaning"@,
        }
    }
}

/// The title of a dictionary mode button; a disabled one says why.
pub fn vlacku_mode_title(mode: VlackuWebMode, disabled: bool) -> (r: &'static str)
    ensures
        r@ == vlacku_mode_title_spec(mode, disabled),
{
    if disabled {
        "Semantic search is unavailable in this browser"
    } else {
        match mode {
            VlackuWebMode::Word => "Find the word with exact spelling",
            VlackuWebMode::Rafsi => "Find the word by rafsi",
            VlackuWebMode::Sound => "Find words with similar pronunciation; use [IPA] for IPA input",
            VlackuWebMode::Meaning => "Find words with similar meaning",
        }
    }
}

/// The placeholder of the dictionary's query field in each mode.
pub fn vlacku_query_placeholder(mode: VlackuWebMode) -> (r: &'static str)
    ensures
        r@ == (match mode {
            VlackuWebMode::Word => "valsi"@,
            VlackuWebMode::Rafsi => "rafsi"@,
            VlackuWebMode::Sound => "Lojban or [aj piː ej]"@,
            VlackuWebMode::Meaning => "semantic search"@,
        }),
{
    match mode {
        VlackuWebMode::Word => "valsi",
        VlackuWebMode::Rafsi => "rafsi",
        VlackuWebMode::Sound => "Lojban or [aj piː ej]",
        VlackuWebMode::Meaning => "semantic search",
    }
}

/// The colour of a piece of the lujvo builder's output.
#[derive(Debug, Clone, Copy, PartialEq, Eq, Structural)]
pub enum VlackuJvozbaSegmentTone {
    RafsiA,
    RafsiB,
    Hyphen,
}

/// The class of a piece of the lujvo builder's output.
pub fn jvozba_segment_class(tone: VlackuJvozbaSegmentTone) -> (r: &'static str)
    ensures
        r@ == (match tone {
            VlackuJvozbaSegmentTone::RafsiA => "dictionary-jvozba-output-segment is-rafsi-a"@,
            VlackuJvozbaSegmentTone::RafsiB => "dictionary-jvozba-output-segment is-rafsi-b"@,
            VlackuJvozbaSegmentTone::Hyphen => "dictionary-jvozba-output-segment is-hyphen"@,
        }),
{
    match tone {
        VlackuJvozbaSegmentTone::RafsiA => "dictionary-jvozba-output-segment is-rafsi-a",
        VlackuJvozbaSegmentTone::RafsiB => "dictionary-jvozba-output-segment is-rafsi-b",
        VlackuJvozbaSegmentTone::Hyphen => "dictionary-jvozba-output-segment is-hyphen",
    }
}

/// How severe a parser diagnostic is.
#[derive(Debug, Clone, Copy, PartialEq, Eq, Structural)]
pub enum DiagnosticSeverity {
    Error,
    Warning,
    Advice,
}

/// The class of a parser diagnostic: errors are marked.
pub fn diagnostic_class(severity: DiagnosticSeverity) -> (r: &'static str)
    ensures
        r@ == (match severity {
            DiagnosticSeverity::Error => "diagnostic error"@,
            _ => "diagnostic"@,
        }),
{
    match severity {
        DiagnosticSeverity::Error => "diagnostic error",
        DiagnosticSeverity::Warning | DiagnosticSeverity::Advice => "diagnostic",
    }
}

/// The language of a marked phrase in the reference grammar.
#[derive(Debug, Clone, Copy, PartialEq, Eq, Structural)]
pub enum CllLanguageSpanKind {
    ForeignPhrase,
    JboPhrase,
}

/// The class of a marked phrase in the reference grammar.
pub fn cll_language_span_class(kind: CllLanguageSpanKind) -> (r: &'static str)
    ensures
        r@ == (match kind {
            CllLanguageSpanKind::ForeignPhrase => "spa-cll-foreignphrase"@,
            CllLanguageSpanKind::JboPhrase => "spa-cll-jbophrase"@,
        }),
{
    match kind {
        CllLanguageSpanKind::ForeignPhrase => "spa-cll-foreignphrase",
        CllLanguageSpanKind::JboPhrase => "spa-cll-jbophrase",
    }
}

/// What a link in the reference grammar points to.
#[derive(Debug, Clone, Copy, PartialEq, Eq, Structural)]
pub enum CllLinkKind {
    Section,
    Example,
    Dictionary,
    Rafsi,
    Parse,
    Asset,
    External,
}

/// The class of a link in the reference grammar.
pub open spec fn cll_link_kind_class_spec(kind: CllLinkKind) -> Seq<char> {
    match kind {
        CllLinkKind::Section => "spa-cll-link-section"@,
        CllLinkKind::Example => "spa-cll-link-example"@,
        CllLinkKind::Dictionary => "spa-cll-link-dictionary"@,
        CllLinkKind::Rafsi => "spa-cll-link-rafsi"@,
        CllLinkKind::Parse => "spa-cll-link-parse"@,
        CllLinkKind::Asset => "spa-cll-link-asset"@,
        CllLinkKind::External => "spa-cll-link-external"@,
    }
}

/// The class of a link in the reference grammar.
pub fn cll_link_kind_class(kind: CllLinkKind) -> (r: &'static str)
    ensures
        r@ == cll_link_kind_class_spec(kind),
{
    match kind {
        CllLinkKind::Section => "spa-cll-link-section",
        CllLinkKind::Example => "spa-cll-link-example",
        CllLinkKind::Dictionary => "spa-cll-link-dictionary",
        CllLinkKind::Rafsi => "spa-cll-link-rafsi",
        CllLinkKind::Parse => "spa-cll-link-parse",
        CllLinkKind::Asset => "spa-cll-link-asset",
        CllLinkKind::External => "spa-cll-link-external",
    }
}

/// The class of a block of the parse view: leaf or not, and marked when elided.
pub open spec fn block_class_spec(is_leaf: bool, is_elided: bool) -> Seq<char> {
    (if is_leaf {
        "block block-leaf"@
    } else {
        "block block-nonleaf"@
    }) + (if is_elided {
        " block-elided"@
    } else {
        seq![]
    })
}

/// The class of a block of the parse view.
pub fn block_class(is_leaf: bool, is_elided: bool) -> (r: String)
    ensures
        r@ == block_class_spec(is_leaf, is_elided),
{
    let mut class = if is_leaf {
        owned("block block-leaf")
    } else {
        owned("block block-nonleaf")
    };
    if is_elided {
        push_str(&mut class, " block-elided");
    }
    class
}

/// Which end of a reference a marker shows: where it is made, or what it points to.
#[derive(Debug, Clone, Copy, PartialEq, Eq, Structural)]
pub enum ReferenceMarkerRole {
    Reference,
    Referent,
}

/// The value of the role attribute of a reference marker.
pub fn reference_role_attr(role: ReferenceMarkerRole) -> (r: &'static str)
    ensures
        r@ == (match role {
            ReferenceMarkerRole::Reference => "reference"@,
            ReferenceMarkerRole::Referent => "referent"@,
        }),
{
    match role {
        ReferenceMarkerRole::Reference => "reference",
        ReferenceMarkerRole::Referent => "referent",
    }
}

/// A reference marker of the parse view: its role, the keys of its label (the base
/// key names the variable, the full key also its place) and whether it names a place.
#[derive(Debug, Clone)]
pub struct ReferenceMarker {
    pub role: ReferenceMarkerRole,
    pub base_key: String,
    pub full_key: String,
    pub has_slot: bool,
}

/// The reference marker under the pointer.
#[derive(Debug, Clone)]
pub struct HoveredReference {
    pub role: ReferenceMarkerRole,
    pub base_key: String,
    pub full_key: String,
}

/// Whether a marker lights up for the hovered one: it must share its variable; under a
/// hovered reference every such marker does, under a hovered referent every reference
/// does and a referent only with the same place.
pub open spec fn matches_hover_spec(marker: ReferenceMarker, hovered: Option<HoveredReference>) -> bool {
    match hovered {
        Some(h) => marker.base_key@ == h.base_key@ && match h.role {
            ReferenceMarkerRole::Reference => true,
            ReferenceMarkerRole::Referent => match marker.role {
                ReferenceMarkerRole::Reference => true,
                ReferenceMarkerRole::Referent => marker.full_key@ == h.full_key@,
            },
        },
        None => false,
    }
}

/// Whether a marker lights up for the hovered one.
pub fn reference_matches_hover(marker: &ReferenceMarker, hovered: &Option<HoveredReference>) -> (r:
    bool)
    ensures
        r == matches_hover_spec(*marker, *hovered),
{
    let h = match hovered {
        Some(h) => h,
        None => {
            return false;
        },
    };
    if !str_eq(marker.base_key.as_str(), h.base_key.as_str()) {
        return false;
    }
    match h.role {
        ReferenceMarkerRole::Reference => true,
        ReferenceMarkerRole::Referent => match marker.role {
            ReferenceMarkerRole::Reference => true,
            ReferenceMarkerRole::Referent => str_eq(marker.full_key.as_str(), h.full_key.as_str()),
        },
    }
}

/// The class of a reference marker: its role, a place mark, and the highlight when it
/// lights up for the hovered marker (with a place highlight for a place).
pub open spec fn reference_marker_class_spec(
    marker: ReferenceMarker,
    hovered: Option<HoveredReference>,
) -> Seq<char> {
    let role = match marker.role {
        ReferenceMarkerRole::Reference => "ref-var ref-source"@,
        ReferenceMarkerRole::Referent => "ref-var ref-target"@,
    };
    let place = if marker.has_slot {
        " place-var"@
    } else {
        seq![]
    };
    let highlight = if matches_hover_spec(marker, hovered) {
        " ref-highlight"@ + if marker.has_slot {
            " place-highlight"@
        } else {
            seq![]
        }
    } else {
        seq![]
    };
    role + place + highlight
}

/// The class of a reference marker.
pub fn reference_marker_class(marker: &ReferenceMarker, hovered: &Option<HoveredReference>) -> (r:
    String)
    ensures
        r@ == reference_marker_class_spec(*marker, *hovered),
{
    let mut class = match marker.role {
        ReferenceMarkerRole::Reference => owned("ref-var ref-source"),
        ReferenceMarkerRole::Referent => owned("ref-var ref-target"),
    };
    if marker.has_slot {
        push_str(&mut class, " place-var");
    }
    if reference_matches_hover(marker, hovered) {
        push_str(&mut class, " ref-highlight");
        if marker.has_slot {
            push_str(&mut class, " place-highlight");
        }
    }
    class
}

/// Whether a block is pointed to by a reference: one of its markers is a referent.
pub fn block_has_incoming_reference(markers: &Vec<ReferenceMarker>) -> (r: bool)
    ensures
        r == exists|i: int|
            0 <= i < markers@.len() && #[trigger] markers@[i].role == ReferenceMarkerRole::Referent,
{
    let mut i: usize = 0;
    while i < markers.len()
        invariant
            i <= markers.len(),
            forall|k: int| 0 <= k < i ==> #[trigger] markers@[k].role != ReferenceMarkerRole::Referent,
        decreases markers.len() - i,
    {
        match markers[i].role {
            ReferenceMarkerRole::Referent => {
                return true;
            },
            ReferenceMarkerRole::Reference => {},
        }
        i = i + 1;
    }
    false
}

/// What a meaning search page is built with: whether it still loads, and whether the
/// message and the hits of the last semantic search are kept.
#[derive(Debug, Clone, Copy, PartialEq, Eq, Structural)]
pub struct SemanticPageFlags {
    pub loading: bool,
    pub keep_message: bool,
    pub keep_hits: bool,
}

/// The flags of a meaning search page: it loads while its query is not blank and the
/// last semantic search was for another state or still runs; that search's message is
/// kept when it was for this state, and its hits too once nothing loads.
pub fn semantic_page_flags(query: &str, state_matches: bool, semantic_loading: bool) -> (r:
    SemanticPageFlags)
    ensures
        r.loading == (trim_spec(query@).len() > 0 && (!state_matches || semantic_loading)),
        r.keep_message == state_matches,
        r.keep_hits == (!r.loading && state_matches),
{
    let loading = !is_blank(query) && (!state_matches || semantic_loading);
    SemanticPageFlags { loading, keep_message: state_matches, keep_hits: !loading && state_matches }
}

/// The last grid row of a block that starts at `row` and spans `row_span` rows (a
/// block spanning no rows ends on its first).
pub fn block_bottom_row(row: usize, row_span: usize) -> (r: usize)
    requires
        row + (if row_span > 0 {
            row_span - 1
        } else {
            0
        }) <= usize::MAX,
    ensures
        r == row + (if row_span > 0 {
            row_span - 1
        } else {
            0
        }),
        r >= row,
{
    row + row_span.saturating_sub(1)
}

/// Whether a block needs room grown under it for reference arrows: when a reference
/// points to it.
pub fn block_needs_reference_height_sizer(markers: &Vec<ReferenceMarker>) -> (r: bool)
    ensures
        r == exists|i: int|
            0 <= i < markers@.len() && #[trigger] markers@[i].role == ReferenceMarkerRole::Referent,
{
    block_has_incoming_reference(markers)
}

/// The tooltip target of a link of the reference grammar: a dictionary link names a
/// word, a rafsi link a rafsi; other links have none.
pub fn cll_dictionary_tooltip_target_for_link(kind: CllLinkKind, target: &str) -> (r: Option<
    DictionaryTooltipTarget,
>)
    ensures
        match kind {
            CllLinkKind::Dictionary => r matches Some(DictionaryTooltipTarget::Word(w)) && w@
                == target@,
            CllLinkKind::Rafsi => r matches Some(DictionaryTooltipTarget::Rafsi(v)) && v@ == target@,
            _ => r is None,
        },
{
    match kind {
        CllLinkKind::Dictionary => Some(DictionaryTooltipTarget::Word(owned(target))),
        CllLinkKind::Rafsi => Some(DictionaryTooltipTarget::Rafsi(owned(target))),
        _ => None,
    }
}

/// A navigation link leads to the page it names: whatever page is shown, the link to
/// a page under the base path of the current page is read back as that page.
pub proof fn law_navigation_links_lead_to_their_page(current_path: Seq<char>, route: AppRoute)
    ensures
        route_spec(nav_href_spec(base_path_for_spec(current_path), route)) == route,
{
    reveal_strlit("/jbotci");
    reveal_strlit("/");
    reveal_strlit("");
    reveal_strlit("/gentufa");
    reveal_strlit("/settings");
    reveal_strlit("/cukta");
    reveal_strlit("/vlacku");
    reveal_strlit("/cukta/index");
    reveal_strlit("/cukta/search");
    reveal_strlit("/cukta/section/");
    reveal_strlit("/vlacku/");
    let base = base_path_for_spec(current_path);
    let href = nav_href_spec(base, route);
    let p = route_path(route);
    assert(base == "/jbotci"@ || base == "/"@);
    if base == "/jbotci"@ {
        assert(href == "/jbotci"@ + p);
        assert(has_prefix(href, "/jbotci"@)) by {
            assert(href.subrange(0, 7) =~= "/jbotci"@);
        }
        assert(href.subrange(7, href.len() as int) =~= p);
    } else {
        assert(href == p);
        assert(!has_prefix(href, "/jbotci"@)) by {
            if has_prefix(href, "/jbotci"@) {
                assert(href.subrange(0, 7)[1] == 'j');
            }
        }
    }
    assert(p.last() != '/');
    assert(strip_trailing(p, '/') == p);
    assert(p != "/"@);
    match route {
        AppRoute::Gentufa => {},
        AppRoute::Settings => {
            assert(p != ""@ && p != "/gentufa"@);
        },
        AppRoute::Cukta => {
            assert(p != "/settings"@ && p != "/gentufa"@ && p != ""@);
        },
        AppRoute::Vlacku => {
            assert(p != "/settings"@ && p != "/gentufa"@ && p != ""@);
            assert(p != "/cukta"@ && p != "/cukta/index"@ && p != "/cukta/search"@) by {
                assert(p[1] == 'v');
            }
            assert(!has_prefix(p, "/cukta/section/"@));
        },
    }
}

/// The number of semantic passages asked for: the count within `1..=max_count`, one
/// more, and at most `max_count`.
pub fn cukta_semantic_worker_limit(count: usize, max_count: usize) -> (r: usize)
    requires
        max_count >= 1,
    ensures
        r == (if (if count < 1 {
            1
        } else if count > max_count {
            max_count as int
        } else {
            count as int
        }) + 1 < max_count {
            (if count < 1 {
                1
            } else if count > max_count {
                max_count as int
            } else {
                count as int
            }) + 1
        } else {
            max_count as int
        }),
        1 <= r <= max_count,
{
    let clamped = if count < 1 {
        1
    } else if count > max_count {
        max_count
    } else {
        count
    };
    let more = clamped.saturating_add(1);
    if more < max_count {
        more
    } else {
        max_count
    }
}

/// An elidable grammar fragment written `/…#/`: its text `/…` and the closing `/`;
/// `None` for any other body.
pub open spec fn elidable_hash_pieces_spec(body: Seq<char>) -> Option<(Seq<char>, Seq<char>)> {
    if body.len() >= 3 && body[0] == '/' && body[body.len() - 1] == '/' && body[body.len() - 2] == '#' {
        Some((body.subrange(0, body.len() - 2), "/"@))
    } else {
        None
    }
}

/// An elidable grammar fragment written `/…#/`, split into its text and closing slash.
pub fn cll_ebnf_elidable_hash_pieces(body: &str) -> (r: Option<(String, String)>)
    ensures
        match r {
            Some((a, b)) => elidable_hash_pieces_spec(body@) == Some((a@, b@)),
            None => elidable_hash_pieces_spec(body@) is None,
        },
{
    proof {
        reveal_strlit("/");
    }
    let v = crate::text::chars_of(body);
    let n = v.len();
    if n >= 3 && v[0] == '/' && v[n - 1] == '/' && v[n - 2] == '#' {
        Some((crate::text::string_of_range(&v, 0, n - 2), owned("/")))
    } else {
        None
    }
}

/// Whether a row of the parse tree shows only elided cells (a row without cells is
/// not elided).
pub fn tree_row_is_elided(cells_elided: &Vec<bool>) -> (r: bool)
    ensures
        r == (cells_elided@.len() > 0 && forall|i: int| 0 <= i < cells_elided@.len() ==> #[trigger] cells_elided@[i]),
{
    if cells_elided.len() == 0 {
        return false;
    }
    let mut i: usize = 0;
    while i < cells_elided.len()
        invariant
            i <= cells_elided.len(),
            forall|k: int| 0 <= k < i ==> #[trigger] cells_elided@[k],
        decreases cells_elided.len() - i,
    {
        if !cells_elided[i] {
            return false;
        }
        i = i + 1;
    }
    true
}

/// The grid template of a parse tree with `count` columns.
pub fn repeated_parse_tree_template(count: usize) -> (r: String)
    ensures
        r@ == "repeat("@ + decimal(count as nat) + ", max-content)"@,
{
    let mut out = owned("repeat(");
    push_decimal(&mut out, count as u64);
    push_str(&mut out, ", max-content)");
    out
}

/// The value of a pressed-state attribute.
pub fn pressed_attr(active: bool) -> (r: &'static str)
    ensures
        r@ == (if active {
            "true"@
        } else {
            "false"@
        }),
{
    if active {
        "true"
    } else {
        "false"
    }
}

} // verus!
