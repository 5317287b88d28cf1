//! Addresses of the web front end: which page a path shows, links to pages, the parts
//! of an address, query keys, and the names of themes and scripts.

use crate::text::{
    chars_of, concat2, has_prefix, push_str, split_char, split_once, split_once_spec,
    split_spec, starts_with, str_eq, strip_end, strip_trailing, string_of_range,
};
use vstd::prelude::*;

verus! {

/// The pages of the web front end.
#[derive(Debug, Clone, Copy, PartialEq, Eq, Structural)]
pub enum AppRoute {
    Gentufa,
    Settings,
    Cukta,
    Vlacku,
}

/// `s` without its trailing `c` characters.
pub fn strip_trailing_str(s: &str, c: char) -> (r: String)
    ensures
        r@ == strip_trailing(s@, c),
{
    let v = chars_of(s);
    let end = strip_end(&v, v.len(), c);
    assert(v@.subrange(0, v.len() as int) =~= v@);
    string_of_range(&v, 0, end)
}

/// `s` without its prefix `p`, when it has that prefix.
pub fn strip_prefix_str(s: &str, p: &str) -> (r: Option<String>)
    ensures
        match r {
            Some(rest) => has_prefix(s@, p@) && rest@ == s@.subrange(p@.len() as int, s@.len() as int),
            None => !has_prefix(s@, p@),
        },
{
    if starts_with(s, p) {
        let v = chars_of(s);
        let n = chars_of(p).len();
        Some(string_of_range(&v, n, v.len()))
    } else {
        None
    }
}

/// The path of a page without the `/jbotci` prefix and without trailing slashes (a
/// lone `/` stays).
pub open spec fn logical_path(path: Seq<char>) -> Seq<char> {
    let l = if has_prefix(path, "/jbotci"@) {
        path.subrange(7, path.len() as int)
    } else {
        path
    };
    if l == "/"@ {
        l
    } else {
        strip_trailing(l, '/')
    }
}

/// The page that a path shows.
pub open spec fn route_spec(path: Seq<char>) -> AppRoute {
    let l = logical_path(path);
    if l == ""@ || l == "/"@ || l == "/gentufa"@ {
        AppRoute::Gentufa
    } else if l == "/settings"@ {
        AppRoute::Settings
    } else if l == "/cukta"@ || l == "/cukta/index"@ || l == "/cukta/search"@ {
        AppRoute::Cukta
    } else if l == "/vlacku"@ {
        AppRoute::Vlacku
    } else if has_prefix(l, "/cukta/section/"@) {
        AppRoute::Cukta
    } else if has_prefix(l, "/vlacku/"@) {
        AppRoute::Vlacku
    } else {
        AppRoute::Gentufa
    }
}

/// A page of the grammar book: its index (`/cukta`, `/cukta/index`), its search page
/// (`/cukta/search`), or one of its sections (`/cukta/section/` and a name that does
/// not end in `/`).
pub open spec fn is_cukta_page(page: Seq<char>) -> bool {
    ||| page == "/cukta"@
    ||| page == "/cukta/index"@
    ||| page == "/cukta/search"@
    ||| (page.len() > 15 && page.subrange(0, 15) == "/cukta/section/"@ && page.last() != '/')
}

/// A page path under the `/jbotci` base or without it, with `slashes` slashes after it.
pub open spec fn page_path(page: Seq<char>, with_base: bool, slashes: nat) -> Seq<char> {
    (if with_base {
        "/jbotci"@
    } else {
        Seq::<char>::empty()
    }) + page + Seq::new(slashes, |_i: int| '/')
}

proof fn lemma_page_path_logical(page: Seq<char>, with_base: bool, slashes: nat)
    requires
        page.len() >= 2,
        page[0] == '/',
        page[1] != 'j',
        page.last() != '/',
    ensures
        logical_path(page_path(page, with_base, slashes)) == page,
{
    reveal_strlit("/jbotci");
    reveal_strlit("/");
    let tail = Seq::new(slashes, |_i: int| '/');
    let path = page_path(page, with_base, slashes);
    let l = page + tail;
    if with_base {
        assert(path.subrange(0, 7) =~= "/jbotci"@);
        assert(path.subrange(7, path.len() as int) =~= l);
    } else {
        assert(path =~= l);
        assert(!has_prefix(path, "/jbotci"@)) by {
            if has_prefix(path, "/jbotci"@) {
                assert(path.subrange(0, 7)[1] == path[1]);
            }
        }
    }
    assert(l != "/"@) by {
        if l == "/"@ {
            assert(l.len() == 1);
        }
    }
    crate::text::lemma_strip_trailing_is(l, '/', page.len() as int);
    assert(l.subrange(0, page.len() as int) =~= page);
}

/// Every page of the grammar book shows the grammar book, under the `/jbotci` base or
/// without it, and with any number of trailing slashes.
pub proof fn law_cukta_pages_route_to_cukta(page: Seq<char>, with_base: bool, slashes: nat)
    requires
        is_cukta_page(page),
    ensures
        route_spec(page_path(page, with_base, slashes)) == AppRoute::Cukta,
{
    reveal_strlit("/cukta");
    reveal_strlit("/cukta/index");
    reveal_strlit("/cukta/search");
    reveal_strlit("/cukta/section/");
    reveal_strlit("/");
    reveal_strlit("/gentufa");
    reveal_strlit("/settings");
    reveal_strlit("/vlacku");
    reveal_strlit("");
    if page.len() > 15 && page.subrange(0, 15) == "/cukta/section/"@ {
        assert(page[0] == page.subrange(0, 15)[0]);
        assert(page[1] == page.subrange(0, 15)[1]);
        assert(has_prefix(page, "/cukta/section/"@));
    }
    lemma_page_path_logical(page, with_base, slashes);
}

/// A page of the dictionary: `/vlacku`, or `/vlacku/` and a word that does not end in
/// `/`.
pub open spec fn is_vlacku_page(page: Seq<char>) -> bool {
    ||| page == "/vlacku"@
    ||| (page.len() > 8 && page.subrange(0, 8) == "/vlacku/"@ && page.last() != '/')
}

/// Every page of the dictionary shows the dictionary, and the settings page the
/// settings, under the `/jbotci` base or without it, and with any number of trailing
/// slashes.
pub proof fn law_vlacku_and_settings_pages_route_to_them(
    page: Seq<char>,
    with_base: bool,
    slashes: nat,
)
    ensures
        is_vlacku_page(page) ==> route_spec(page_path(page, with_base, slashes))
            == AppRoute::Vlacku,
        route_spec(page_path("/settings"@, with_base, slashes)) == AppRoute::Settings,
{
    reveal_strlit("/vlacku");
    reveal_strlit("/vlacku/");
    reveal_strlit("/cukta");
    reveal_strlit("/cukta/index");
    reveal_strlit("/cukta/search");
    reveal_strlit("/cukta/section/");
    reveal_strlit("/");
    reveal_strlit("/gentufa");
    reveal_strlit("/settings");
    reveal_strlit("");
    lemma_page_path_logical("/settings"@, with_base, slashes);
    if is_vlacku_page(page) {
        if page.len() > 8 && page.subrange(0, 8) == "/vlacku/"@ {
            assert(page[0] == page.subrange(0, 8)[0]);
            assert(page[1] == page.subrange(0, 8)[1]);
            assert(page[2] == page.subrange(0, 8)[2]);
            assert(has_prefix(page, "/vlacku/"@));
            assert(!has_prefix(page, "/cukta/section/"@)) by {
                if has_prefix(page, "/cukta/section/"@) {
                    assert(page.subrange(0, 15)[1] == page[1]);
                }
            }
        }
        lemma_page_path_logical(page, with_base, slashes);
    }
}

/// The page that a path shows.
pub fn route_from_path(path: &str) -> (r: AppRoute)
    ensures
        r == route_spec(path@),
{
    proof {
        reveal_strlit("/jbotci");
    }
    let stripped = match strip_prefix_str(path, "/jbotci") {
        Some(rest) => rest,
        None => crate::text::owned(path),
    };
    let logical = if str_eq(stripped.as_str(), "/") {
        stripped
    } else {
        strip_trailing_str(stripped.as_str(), '/')
    };
    let l = logical.as_str();
    if str_eq(l, "") || str_eq(l, "/") || str_eq(l, "/gentufa") {
        AppRoute::Gentufa
    } else if str_eq(l, "/settings") {
        AppRoute::Settings
    } else if str_eq(l, "/cukta") || str_eq(l, "/cukta/index") || str_eq(l, "/cukta/search") {
        AppRoute::Cukta
    } else if str_eq(l, "/vlacku") {
        AppRoute::Vlacku
    } else if starts_with(l, "/cukta/section/") {
        AppRoute::Cukta
    } else if starts_with(l, "/vlacku/") {
        AppRoute::Vlacku
    } else {
        AppRoute::Gentufa
    }
}

/// The path of a page below the site root.
pub open spec fn route_path(route: AppRoute) -> Seq<char> {
    match route {
        AppRoute::Gentufa => "/gentufa"@,
        AppRoute::Settings => "/settings"@,
        AppRoute::Cukta => "/cukta"@,
        AppRoute::Vlacku => "/vlacku"@,
    }
}

/// The link to a page under the base path.
pub open spec fn nav_href_spec(base_path: Seq<char>, route: AppRoute) -> Seq<char> {
    if base_path == "/"@ {
        route_path(route)
    } else {
        base_path + route_path(route)
    }
}

/// The link to a page under the base path.
pub fn nav_href(base_path: &str, route: AppRoute) -> (r: String)
    ensures
        r@ == nav_href_spec(base_path@, route),
        base_path@.len() > 0 && base_path@[0] == '/' ==> r@.len() > 0 && r@[0] == '/',
{
    proof {
        reveal_strlit("/gentufa");
        reveal_strlit("/settings");
        reveal_strlit("/cukta");
        reveal_strlit("/vlacku");
    }
    let path = match route {
        AppRoute::Gentufa => "/gentufa",
        AppRoute::Settings => "/settings",
        AppRoute::Cukta => "/cukta",
        AppRoute::Vlacku => "/vlacku",
    };
    if str_eq(base_path, "/") {
        crate::text::owned(path)
    } else {
        concat2(base_path, path)
    }
}

/// The colour theme of the site.
#[derive(Debug, Clone, Copy, PartialEq, Eq, Structural)]
pub enum ThemeMode {
    Auto,
    Day,
    Night,
}

/// The name a theme is stored under.
pub open spec fn theme_class_spec(theme: ThemeMode) -> Seq<char> {
    match theme {
        ThemeMode::Auto => "auto"@,
        ThemeMode::Day => "day"@,
        ThemeMode::Night => "night"@,
    }
}

/// The name a theme is stored under.
pub fn theme_class(theme: ThemeMode) -> (r: &'static str)
    ensures
        r@ == theme_class_spec(theme),
{
    match theme {
        ThemeMode::Auto => "auto",
        ThemeMode::Day => "day",
        ThemeMode::Night => "night",
    }
}

/// The theme that a stored name stands for; `system`, `light` and `dark` are accepted too.
pub open spec fn parse_theme_spec(value: Seq<char>) -> Option<ThemeMode> {
    if value == "auto"@ || value == "system"@ {
        Some(ThemeMode::Auto)
    } else if value == "day"@ || value == "light"@ {
        Some(ThemeMode::Day)
    } else if value == "night"@ || value == "dark"@ {
        Some(ThemeMode::Night)
    } else {
        None
    }
}

/// The theme that a stored name stands for.
pub fn parse_theme(value: &str) -> (r: Option<ThemeMode>)
    ensures
        r == parse_theme_spec(value@),
{
    if str_eq(value, "auto") || str_eq(value, "system") {
        Some(ThemeMode::Auto)
    } else if str_eq(value, "day") || str_eq(value, "light") {
        Some(ThemeMode::Day)
    } else if str_eq(value, "night") || str_eq(value, "dark") {
        Some(ThemeMode::Night)
    } else {
        None
    }
}

/// The script that Lojban text is shown in.
#[derive(Debug, Clone, Copy, PartialEq, Eq, Structural)]
pub enum GentufaScript {
    Latin,
    Cyrillic,
    Zbalermorna,
}

/// The name a script is stored under.
pub open spec fn script_class_spec(script: GentufaScript) -> Seq<char> {
    match script {
        GentufaScript::Latin => "latin"@,
        GentufaScript::Cyrillic => "cyrillic"@,
        GentufaScript::Zbalermorna => "zbalermorna"@,
    }
}

/// The name a script is stored under.
pub fn script_class(script: GentufaScript) -> (r: &'static str)
    ensures
        r@ == script_class_spec(script),
{
    match script {
        GentufaScript::Latin => "latin",
        GentufaScript::Cyrillic => "cyrillic",
        GentufaScript::Zbalermorna => "zbalermorna",
    }
}

/// The script that a stored name stands for.
pub open spec fn parse_script_spec(value: Seq<char>) -> Option<GentufaScript> {
    if value == "latin"@ {
        Some(GentufaScript::Latin)
    } else if value == "cyrillic"@ {
        Some(GentufaScript::Cyrillic)
    } else if value == "zbalermorna"@ {
        Some(GentufaScript::Zbalermorna)
    } else {
        None
    }
}

/// The script that a stored name stands for.
pub fn parse_script(value: &str) -> (r: Option<GentufaScript>)
    ensures
        r == parse_script_spec(value@),
{
    if str_eq(value, "latin") {
        Some(GentufaScript::Latin)
    } else if str_eq(value, "cyrillic") {
        Some(GentufaScript::Cyrillic)
    } else if str_eq(value, "zbalermorna") {
        Some(GentufaScript::Zbalermorna)
    } else {
        None
    }
}

/// A stored theme or script reads back as itself.
pub proof fn law_settings_names_round_trip(theme: ThemeMode, script: GentufaScript)
    ensures
        parse_theme_spec(theme_class_spec(theme)) == Some(theme),
        parse_script_spec(script_class_spec(script)) == Some(script),
{
    reveal_strlit("auto");
    reveal_strlit("system");
    reveal_strlit("/");
    reveal_strlit("day");
    reveal_strlit("light");
    reveal_strlit("night");
    reveal_strlit("dark");
    reveal_strlit("latin");
    reveal_strlit("cyrillic");
    reveal_strlit("zbalermorna");
    assert("day"@[0] == 'd' && "auto"@[0] == 'a' && "system"@[0] == 's');
    assert("night"@[0] == 'n' && "light"@[0] == 'l');
    assert("cyrillic"@[0] == 'c' && "latin"@[0] == 'l' && "zbalermorna"@[0] == 'z');
}

/// The parts of an address: the path, the query (empty when there is none) and the
/// fragment after `#`, if any.
pub open spec fn split_href_spec(href: Seq<char>) -> (Seq<char>, Seq<char>, Option<Seq<char>>) {
    let (without_hash, hash) = match split_once_spec(href, '#') {
        Some((a, b)) => (a, Some(b)),
        None => (href, None),
    };
    match split_once_spec(without_hash, '?') {
        Some((p, q)) => (p, q, hash),
        None => (without_hash, seq![], hash),
    }
}

/// Splits an address into path, query and fragment.
pub fn split_href(href: &str) -> (r: (String, String, Option<String>))
    ensures
        (r.0@, r.1@, match r.2 {
            Some(h) => Some(h@),
            None => None,
        }) == split_href_spec(href@),
{
    let (without_hash, hash) = match split_once(href, '#') {
        Some((a, b)) => (a, Some(b)),
        None => (crate::text::owned(href), None),
    };
    match split_once(without_hash.as_str(), '?') {
        Some((p, q)) => (p, q, hash),
        None => (without_hash, String::new(), hash),
    }
}

/// The key under which the scroll position of an address is stored.
pub open spec fn scroll_storage_key_spec(x: Seq<char>) -> Seq<char> {
    let (path, query, _) = split_href_spec(x);
    if query.len() == 0 {
        "jbotci.scroll."@ + path
    } else {
        "jbotci.scroll."@ + path + "?"@ + query
    }
}

/// The key under which the scroll position of an address is stored.
pub fn scroll_storage_key(path_query_or_url: &str) -> (r: String)
    ensures
        r@ == scroll_storage_key_spec(path_query_or_url@),
        has_prefix(r@, "jbotci.scroll."@),
{
    let (path, query, _) = split_href(path_query_or_url);
    let mut out = concat2("jbotci.scroll.", path.as_str());
    if !query.as_str().is_empty() {
        push_str(&mut out, "?");
        push_str(&mut out, query.as_str());
    }
    assert(out@.subrange(0, "jbotci.scroll."@.len() as int) =~= "jbotci.scroll."@);
    out
}

/// `s` without its leading `c` characters.
pub open spec fn strip_leading(s: Seq<char>, c: char) -> Seq<char>
    decreases s.len(),
{
    if s.len() > 0 && s[0] == c {
        strip_leading(s.subrange(1, s.len() as int), c)
    } else {
        s
    }
}

pub fn strip_leading_str(s: &str, c: char) -> (r: String)
    ensures
        r@ == strip_leading(s@, c),
{
    let v = chars_of(s);
    let mut i: usize = 0;
    assert(v@.subrange(0, v.len() as int) =~= v@);
    while i < v.len() && v[i] == c
        invariant
            i <= v.len(),
            v@ == s@,
            strip_leading(s@, c) == strip_leading(v@.subrange(i as int, v.len() as int), c),
        decreases v.len() - i,
    {
        let ghost rest = v@.subrange(i as int, v.len() as int);
        assert(rest.subrange(1, rest.len() as int) =~= v@.subrange(i + 1, v.len() as int));
        i = i + 1;
    }
    string_of_range(&v, i, v.len())
}

/// The key of a query part: the text before its `=`, or the whole part.
pub open spec fn query_part_key(part: Seq<char>) -> Seq<char> {
    match split_once_spec(part, '=') {
        Some((k, _)) => k,
        None => part,
    }
}

/// Whether a query (with or without its leading `?`) holds `key`.
pub open spec fn query_has_key_spec(query: Seq<char>, key: Seq<char>) -> bool {
    let parts = split_spec(strip_leading(query, '?'), '&');
    exists|i: int|
        0 <= i < parts.len() && parts[i].len() > 0 && #[trigger] query_part_key(parts[i]) == key
}

/// Whether a query holds `key`.
pub fn query_has_key(query: &str, key: &str) -> (r: bool)
    ensures
        r == query_has_key_spec(query@, key@),
{
    let q = strip_leading_str(query, '?');
    let parts = split_char(q.as_str(), '&');
    let ghost sp = split_spec(strip_leading(query@, '?'), '&');
    let mut i: usize = 0;
    while i < parts.len()
        invariant
            i <= parts.len(),
            sp == split_spec(strip_leading(query@, '?'), '&'),
            parts@.len() == sp.len(),
            forall|k: int| 0 <= k < parts@.len() ==> #[trigger] parts@[k]@ == sp[k],
            forall|k: int|
                0 <= k < i ==> !(sp[k].len() > 0 && #[trigger] query_part_key(sp[k]) == key@),
        decreases parts.len() - i,
    {
        let part = &parts[i];
        assert(part@ == sp[i as int]);
        if !part.as_str().is_empty() {
            let candidate = match split_once(part.as_str(), '=') {
                Some((k, _)) => k,
                None => part.clone(),
            };
            if str_eq(candidate.as_str(), key) {
                assert(query_part_key(sp[i as int]) == key@);
                assert(sp[i as int].len() > 0);
                assert(0 <= i < sp.len() && sp[i as int].len() > 0 && query_part_key(sp[i as int])
                    == key@);
                return true;
            }
        }
        i = i + 1;
    }
    false
}

/// A link made absolute under the base path: a root-relative link gets the base path
/// (without trailing slashes) in front; any other link is kept.
pub open spec fn resolved_href_spec(base_path: Seq<char>, href: Seq<char>) -> Seq<char> {
    if href.len() > 0 && href[0] == '/' {
        strip_trailing(base_path, '/') + href
    } else {
        href
    }
}

/// A link made absolute under the base path.
pub fn resolved_href_with_base_path(base_path: &str, href: &str) -> (r: String)
    ensures
        r@ == resolved_href_spec(base_path@, href@),
{
    let v = chars_of(href);
    if v.len() > 0 && v[0] == '/' {
        let base = strip_trailing_str(base_path, '/');
        concat2(base.as_str(), href)
    } else {
        crate::text::owned(href)
    }
}

/// An address path relative to the base path, starting with `/`; `None` when the path
/// lies outside the base path.
pub open spec fn strip_base_path_spec(path: Seq<char>, base_path: Seq<char>) -> Option<Seq<char>> {
    let normalized = if path.len() > 0 && path[0] == '/' {
        path
    } else {
        "/"@ + path
    };
    let base = strip_trailing(base_path, '/');
    if base.len() == 0 || base == "/"@ {
        Some(normalized)
    } else if normalized == base {
        Some("/"@)
    } else if has_prefix(normalized, base + "/"@) {
        Some("/"@ + normalized.subrange(base.len() + 1int, normalized.len() as int))
    } else {
        None
    }
}

/// An address path relative to the base path.
pub fn strip_base_path_for_client(path: &str, base_path: &str) -> (r: Option<String>)
    ensures
        match r {
            Some(p) => strip_base_path_spec(path@, base_path@) == Some(p@),
            None => strip_base_path_spec(path@, base_path@) is None,
        },
{
    let pv = chars_of(path);
    let normalized = if pv.len() > 0 && pv[0] == '/' {
        crate::text::owned(path)
    } else {
        concat2("/", path)
    };
    let base = strip_trailing_str(base_path, '/');
    if base.as_str().is_empty() || str_eq(base.as_str(), "/") {
        return Some(normalized);
    }
    if str_eq(normalized.as_str(), base.as_str()) {
        return Some(crate::text::owned("/"));
    }
    let prefix = concat2(base.as_str(), "/");
    match strip_prefix_str(normalized.as_str(), prefix.as_str()) {
        Some(rest) => {
            proof {
                reveal_strlit("/");
            }
            Some(concat2("/", rest.as_str()))
        },
        None => None,
    }
}

/// Whether a path (relative to the base path) is one that the front end routes.
pub open spec fn app_route_path_spec(path: Seq<char>) -> bool {
    let p = strip_trailing(path, '/');
    p.len() == 0 || p == "/"@ || p == "/gentufa"@ || has_prefix(p, "/gentufa/"@) || p
        == "/cukta"@ || has_prefix(p, "/cukta/"@) || p == "/vlacku"@ || has_prefix(
        p,
        "/vlacku/"@,
    ) || p == "/settings"@ || has_prefix(p, "/settings/"@)
}

/// Whether a path is one that the front end routes.
pub fn is_app_route_path_for_client(path: &str) -> (r: bool)
    ensures
        r == app_route_path_spec(path@),
{
    let p = strip_trailing_str(path, '/');
    let s = p.as_str();
    s.is_empty() || str_eq(s, "/") || str_eq(s, "/gentufa") || starts_with(s, "/gentufa/")
        || str_eq(s, "/cukta") || starts_with(s, "/cukta/") || str_eq(s, "/vlacku") || starts_with(
        s,
        "/vlacku/",
    ) || str_eq(s, "/settings") || starts_with(s, "/settings/")
}

/// `path[i]` is the last `/` of `path`.
pub open spec fn is_last_slash(path: Seq<char>, i: int) -> bool {
    0 <= i < path.len() && path[i] == '/' && forall|m: int| i < m < path.len() ==> path[m] != '/'
}

/// Whether the last segment of a path has a `.` in it, as a file name has.
pub open spec fn asset_extension_spec(path: Seq<char>) -> bool {
    exists|i: int|
        #[trigger] is_last_slash(path, i) && path.subrange(i + 1, path.len() as int).contains('.')
}

/// Whether the last segment of a path names a file.
pub fn has_app_asset_extension(path: &str) -> (r: bool)
    ensures
        r == asset_extension_spec(path@),
{
    let v = chars_of(path);
    let n = v.len();
    let mut k = n;
    while k > 0 && v[k - 1] != '/'
        invariant
            k <= n == v@.len(),
            v@ == path@,
            forall|m: int| k <= m < n ==> v@[m] != '/',
        decreases k,
    {
        k = k - 1;
    }
    if k == 0 {
        proof {
            if asset_extension_spec(path@) {
                let i = choose|i: int|
                    #[trigger] is_last_slash(path@, i) && path@.subrange(
                        i + 1,
                        path@.len() as int,
                    ).contains('.');
                assert(v@[i] != '/');
            }
        }
        return false;
    }
    assert(is_last_slash(path@, k - 1));
    let ghost tail = path@.subrange(k as int, path@.len() as int);
    let mut j = k;
    while j < n
        invariant
            0 < k <= j <= n == v@.len(),
            v@ == path@,
            tail == path@.subrange(k as int, path@.len() as int),
            is_last_slash(path@, k - 1),
            forall|m: int| k <= m < j ==> v@[m] != '.',
        decreases n - j,
    {
        if v[j] == '.' {
            assert(tail[j - k] == '.');
            return true;
        }
        j = j + 1;
    }
    proof {
        if asset_extension_spec(path@) {
            let i = choose|i: int|
                #[trigger] is_last_slash(path@, i) && path@.subrange(
                    i + 1,
                    path@.len() as int,
                ).contains('.');
            if i < k - 1 {
                assert(path@[k - 1] != '/');
            }
            if i > k - 1 {
                assert(v@[i] != '/');
            }
            let t = path@.subrange(i + 1, path@.len() as int);
            let jj = choose|jj: int| 0 <= jj < t.len() && t[jj] == '.';
            assert(v@[k + jj] != '.');
        }
    }
    false
}

} // verus!
