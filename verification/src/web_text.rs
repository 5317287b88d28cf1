//! Text of the web front end: mathematical letter forms of commit ids and reference
//! stems, class lists of elements, and the row template of the blocks grid.

use crate::text::{join_spec, join_strings, push_str, views};
use vstd::prelude::*;

verus! {

/// An ASCII hexadecimal digit.
pub open spec fn is_hex_digit(c: char) -> bool {
    ('0' <= c && c <= '9') || ('a' <= c && c <= 'f') || ('A' <= c && c <= 'F')
}

/// The mathematical monospace form of an ASCII hexadecimal digit (letters in lower case).
pub open spec fn monospace_hex_spec(ch: char) -> char {
    match ch {
        '0' => '𝟶',
        '1' => '𝟷',
        '2' => '𝟸',
        '3' => '𝟹',
        '4' => '𝟺',
        '5' => '𝟻',
        '6' => '𝟼',
        '7' => '𝟽',
        '8' => '𝟾',
        '9' => '𝟿',
        'a' | 'A' => '𝚊',
        'b' | 'B' => '𝚋',
        'c' | 'C' => '𝚌',
        'd' | 'D' => '𝚍',
        'e' | 'E' => '𝚎',
        'f' | 'F' => '𝚏',
        _ => ch,
    }
}

/// The mathematical monospace form of an ASCII hexadecimal digit.
pub fn math_monospace_hex_char(ch: char) -> (r: char)
    requires
        is_hex_digit(ch),
    ensures
        r == monospace_hex_spec(ch),
{
    match ch {
        '0' => '𝟶',
        '1' => '𝟷',
        '2' => '𝟸',
        '3' => '𝟹',
        '4' => '𝟺',
        '5' => '𝟻',
        '6' => '𝟼',
        '7' => '𝟽',
        '8' => '𝟾',
        '9' => '𝟿',
        'a' | 'A' => '𝚊',
        'b' | 'B' => '𝚋',
        'c' | 'C' => '𝚌',
        'd' | 'D' => '𝚍',
        'e' | 'E' => '𝚎',
        'f' | 'F' => '𝚏',
        _ => ch,
    }
}

/// The mathematical italic form of an ASCII letter, if it is one.
pub open spec fn math_alphanumeric_spec(ch: char) -> Option<char> {
    match ch {
        'a' => Some('𝑎'),
        'b' => Some('𝑏'),
        'c' => Some('𝑐'),
        'd' => Some('𝑑'),
        'e' => Some('𝑒'),
        'f' => Some('𝑓'),
        'g' => Some('𝑔'),
        'h' => Some('ℎ'),
        'i' => Some('𝑖'),
        'j' => Some('𝑗'),
        'k' => Some('𝑘'),
        'l' => Some('𝑙'),
        'm' => Some('𝑚'),
        'n' => Some('𝑛'),
        'o' => Some('𝑜'),
        'p' => Some('𝑝'),
        'q' => Some('𝑞'),
        'r' => Some('𝑟'),
        's' => Some('𝑠'),
        't' => Some('𝑡'),
        'u' => Some('𝑢'),
        'v' => Some('𝑣'),
        'w' => Some('𝑤'),
        'x' => Some('𝑥'),
        'y' => Some('𝑦'),
        'z' => Some('𝑧'),
        'A' => Some('𝐴'),
        'B' => Some('𝐵'),
        'C' => Some('𝐶'),
        'D' => Some('𝐷'),
        'E' => Some('𝐸'),
        'F' => Some('𝐹'),
        'G' => Some('𝐺'),
        'H' => Some('𝐻'),
        'I' => Some('𝐼'),
        'J' => Some('𝐽'),
        'K' => Some('𝐾'),
        'L' => Some('𝐿'),
        'M' => Some('𝑀'),
        'N' => Some('𝑁'),
        'O' => Some('𝑂'),
        'P' => Some('𝑃'),
        'Q' => Some('𝑄'),
        'R' => Some('𝑅'),
        'S' => Some('𝑆'),
        'T' => Some('𝑇'),
        'U' => Some('𝑈'),
        'V' => Some('𝑉'),
        'W' => Some('𝑊'),
        'X' => Some('𝑋'),
        'Y' => Some('𝑌'),
        'Z' => Some('𝑍'),
        _ => None,
    }
}

/// The mathematical italic form of an ASCII letter, if it is one.
pub fn math_alphanumeric_ascii_char(ch: char) -> (r: Option<char>)
    ensures
        r == math_alphanumeric_spec(ch),
{
    match ch {
        'a' => Some('𝑎'),
        'b' => Some('𝑏'),
        'c' => Some('𝑐'),
        'd' => Some('𝑑'),
        'e' => Some('𝑒'),
        'f' => Some('𝑓'),
        'g' => Some('𝑔'),
        'h' => Some('ℎ'),
        'i' => Some('𝑖'),
        'j' => Some('𝑗'),
        'k' => Some('𝑘'),
        'l' => Some('𝑙'),
        'm' => Some('𝑚'),
        'n' => Some('𝑛'),
        'o' => Some('𝑜'),
        'p' => Some('𝑝'),
        'q' => Some('𝑞'),
        'r' => Some('𝑟'),
        's' => Some('𝑠'),
        't' => Some('𝑡'),
        'u' => Some('𝑢'),
        'v' => Some('𝑣'),
        'w' => Some('𝑤'),
        'x' => Some('𝑥'),
        'y' => Some('𝑦'),
        'z' => Some('𝑧'),
        'A' => Some('𝐴'),
        'B' => Some('𝐵'),
        'C' => Some('𝐶'),
        'D' => Some('𝐷'),
        'E' => Some('𝐸'),
        'F' => Some('𝐹'),
        'G' => Some('𝐺'),
        'H' => Some('𝐻'),
        'I' => Some('𝐼'),
        'J' => Some('𝐽'),
        'K' => Some('𝐾'),
        'L' => Some('𝐿'),
        'M' => Some('𝑀'),
        'N' => Some('𝑁'),
        'O' => Some('𝑂'),
        'P' => Some('𝑃'),
        'Q' => Some('𝑄'),
        'R' => Some('𝑅'),
        'S' => Some('𝑆'),
        'T' => Some('𝑇'),
        'U' => Some('𝑈'),
        'V' => Some('𝑉'),
        'W' => Some('𝑊'),
        'X' => Some('𝑋'),
        'Y' => Some('𝑌'),
        'Z' => Some('𝑍'),
        _ => None,
    }
}

/// The base letter of an accented vowel of a reference stem, if it is one.
pub open spec fn normalized_stem_spec(ch: char) -> Option<char> {
    match ch {
        'á' => Some('a'),
        'é' => Some('e'),
        'í' => Some('i'),
        'ó' => Some('o'),
        'ú' => Some('u'),
        'ý' => Some('y'),
        'Á' => Some('A'),
        'É' => Some('E'),
        'Í' => Some('I'),
        'Ó' => Some('O'),
        'Ú' => Some('U'),
        'Ý' => Some('Y'),
        'ĭ' => Some('i'),
        'ŭ' => Some('u'),
        'Ĭ' => Some('I'),
        'Ŭ' => Some('U'),
        _ => None,
    }
}

/// The base letter of an accented vowel of a reference stem, if it is one.
pub fn normalized_reference_stem_char(ch: char) -> (r: Option<char>)
    ensures
        r == normalized_stem_spec(ch),
{
    match ch {
        'á' => Some('a'),
        'é' => Some('e'),
        'í' => Some('i'),
        'ó' => Some('o'),
        'ú' => Some('u'),
        'ý' => Some('y'),
        'Á' => Some('A'),
        'É' => Some('E'),
        'Í' => Some('I'),
        'Ó' => Some('O'),
        'Ú' => Some('U'),
        'Ý' => Some('Y'),
        'ĭ' => Some('i'),
        'ŭ' => Some('u'),
        'Ĭ' => Some('I'),
        'Ŭ' => Some('U'),
        _ => None,
    }
}

/// A commit id in mathematical monospace digits and letters.
pub fn math_monospace_git_commit(commit: &str) -> (r: String)
    requires
        forall|i: int| 0 <= i < commit@.len() ==> is_hex_digit(#[trigger] commit@[i]),
    ensures
        r@ == Seq::new(commit@.len(), |i: int| monospace_hex_spec(commit@[i])),
{
    let v = crate::text::chars_of(commit);
    let mut out = String::new();
    let mut i: usize = 0;
    while i < v.len()
        invariant
            i <= v.len(),
            v@ == commit@,
            forall|k: int| 0 <= k < commit@.len() ==> is_hex_digit(#[trigger] commit@[k]),
            out@ == Seq::new(i as nat, |k: int| monospace_hex_spec(commit@[k])),
        decreases v.len() - i,
    {
        out.push(math_monospace_hex_char(v[i]));
        assert(out@ =~= Seq::new((i + 1) as nat, |k: int| monospace_hex_spec(commit@[k])));
        i = i + 1;
    }
    out
}

/// A combining accent that a reference stem drops.
pub open spec fn is_stem_combining_mark(ch: char) -> bool {
    ch == '\u{0301}' || ch == '\u{0306}'
}

/// A combining accent that a reference stem drops.
pub fn is_reference_stem_combining_mark(ch: char) -> (r: bool)
    ensures
        r == is_stem_combining_mark(ch),
{
    ch == '\u{0301}' || ch == '\u{0306}'
}

/// What a character of a reference stem becomes: nothing for a combining accent, else
/// the italic form of its base letter, or the base letter itself when it is no ASCII
/// letter.
pub open spec fn stem_char_spec(ch: char) -> Seq<char> {
    if is_stem_combining_mark(ch) {
        seq![]
    } else {
        let base = match normalized_stem_spec(ch) {
            Some(b) => b,
            None => ch,
        };
        seq![
            match math_alphanumeric_spec(base) {
                Some(m) => m,
                None => base,
            },
        ]
    }
}

/// Appends what a character of a reference stem becomes.
pub fn push_math_alphanumeric_char(output: &mut String, ch: char)
    ensures
        final(output)@ == old(output)@ + stem_char_spec(ch),
{
    if is_reference_stem_combining_mark(ch) {
        assert(old(output)@ + Seq::<char>::empty() =~= old(output)@);
        return;
    }
    let base = match normalized_reference_stem_char(ch) {
        Some(b) => b,
        None => ch,
    };
    let shown = match math_alphanumeric_ascii_char(base) {
        Some(m) => m,
        None => base,
    };
    output.push(shown);
}

/// A reference stem in mathematical italic letters, accents dropped.
pub open spec fn stem_spec(stem: Seq<char>) -> Seq<char>
    decreases stem.len(),
{
    if stem.len() == 0 {
        seq![]
    } else {
        stem_spec(stem.drop_last()) + stem_char_spec(stem.last())
    }
}

/// Without combining accents, a stem keeps its length: every other character becomes
/// exactly one character.
pub proof fn lemma_stem_length(stem: Seq<char>)
    requires
        forall|i: int| 0 <= i < stem.len() ==> !is_stem_combining_mark(#[trigger] stem[i]),
    ensures
        stem_spec(stem).len() == stem.len(),
    decreases stem.len(),
{
    if stem.len() > 0 {
        assert forall|i: int| 0 <= i < stem.drop_last().len() implies !is_stem_combining_mark(
            #[trigger] stem.drop_last()[i],
        ) by {
            assert(stem.drop_last()[i] == stem[i]);
        }
        lemma_stem_length(stem.drop_last());
        assert(!is_stem_combining_mark(stem[stem.len() - 1]));
    }
}

/// A reference stem in mathematical italic letters.
pub fn math_alphanumeric_stem(stem: &str) -> (r: String)
    ensures
        r@ == stem_spec(stem@),
        (forall|i: int| 0 <= i < stem@.len() ==> !is_stem_combining_mark(#[trigger] stem@[i]))
            ==> r@.len() == stem@.len(),
{
    proof {
        if forall|i: int| 0 <= i < stem@.len() ==> !is_stem_combining_mark(#[trigger] stem@[i]) {
            lemma_stem_length(stem@);
        }
    }
    let v = crate::text::chars_of(stem);
    let mut out = String::new();
    let mut i: usize = 0;
    while i < v.len()
        invariant
            i <= v.len(),
            v@ == stem@,
            out@ == stem_spec(stem@.subrange(0, i as int)),
        decreases v.len() - i,
    {
        let ghost s = stem@.subrange(0, i + 1);
        assert(s.drop_last() =~= stem@.subrange(0, i as int));
        push_math_alphanumeric_char(&mut out, v[i]);
        i = i + 1;
    }
    assert(stem@.subrange(0, v.len() as int) =~= stem@);
    out
}

/// The row template of the blocks grid: one compact row per block row, an automatic
/// row for glosses when shown, or a single automatic row when there is none.
pub open spec fn grid_template_spec(row_count: nat, show_glosses: bool) -> Seq<char> {
    let rows = Seq::new(row_count, |i: int| "minmax(var(--blocks-compact-min-height), auto)"@);
    let tracks = if show_glosses {
        rows.push("auto"@)
    } else {
        rows
    };
    if tracks.len() == 0 {
        "auto"@
    } else {
        join_spec(tracks, " "@)
    }
}

/// The row template of the blocks grid.
pub fn blocks_grid_row_template(row_count: usize, show_glosses: bool) -> (r: String)
    ensures
        r@ == grid_template_spec(row_count as nat, show_glosses),
{
    let mut tracks: Vec<String> = Vec::new();
    let mut i: usize = 0;
    while i < row_count
        invariant
            i <= row_count,
            views(tracks@) =~= Seq::new(
                i as nat,
                |k: int| "minmax(var(--blocks-compact-min-height), auto)"@,
            ),
        decreases row_count - i,
    {
        let ghost before = views(tracks@);
        let t = crate::text::owned("minmax(var(--blocks-compact-min-height), auto)");
        tracks.push(t);
        assert(views(tracks@) =~= before.push(t@));
        i = i + 1;
    }
    if show_glosses {
        let ghost before = views(tracks@);
        let t = crate::text::owned("auto");
        tracks.push(t);
        assert(views(tracks@) =~= before.push(t@));
    }
    if tracks.len() == 0 {
        crate::text::owned("auto")
    } else {
        join_strings(&tracks, " ")
    }
}

/// The classes that are switched on, in order.
pub open spec fn enabled_classes(conditional: Seq<(Seq<char>, bool)>) -> Seq<Seq<char>>
    decreases conditional.len(),
{
    if conditional.len() == 0 {
        seq![]
    } else {
        enabled_classes(conditional.drop_last()) + if conditional.last().1 {
            seq![conditional.last().0]
        } else {
            Seq::<Seq<char>>::empty()
        }
    }
}

/// A class list: the base class and the switched-on classes, separated by spaces.
pub open spec fn class_names_spec(base: Seq<char>, conditional: Seq<(Seq<char>, bool)>) -> Seq<
    char,
> {
    join_spec(seq![base] + enabled_classes(conditional), " "@)
}

/// The views of a list of class switches.
pub open spec fn switch_views(conditional: Seq<(&str, bool)>) -> Seq<(Seq<char>, bool)> {
    Seq::new(conditional.len(), |i: int| (conditional[i].0@, conditional[i].1))
}

/// A class list: the base class and the switched-on classes.
pub fn class_names(base: &str, conditional: &Vec<(&str, bool)>) -> (r: String)
    ensures
        r@ == class_names_spec(base@, switch_views(conditional@)),
{
    let mut classes: Vec<String> = Vec::new();
    classes.push(crate::text::owned(base));
    let ghost first = views(classes@);
    assert(first =~= seq![base@]);
    let mut i: usize = 0;
    while i < conditional.len()
        invariant
            i <= conditional.len(),
            first == seq![base@],
            views(classes@) == first + enabled_classes(
                switch_views(conditional@).subrange(0, i as int),
            ),
        decreases conditional.len() - i,
    {
        let ghost s = switch_views(conditional@).subrange(0, i + 1);
        assert(s.drop_last() =~= switch_views(conditional@).subrange(0, i as int));
        let (class, enabled) = conditional[i];
        if enabled {
            let ghost before = views(classes@);
            classes.push(crate::text::owned(class));
            assert(views(classes@) =~= before.push(class@));
        }
        assert(views(classes@) =~= first + enabled_classes(s));
        i = i + 1;
    }
    assert(switch_views(conditional@).subrange(0, conditional.len() as int) =~= switch_views(
        conditional@,
    ));
    join_strings(&classes, " ")
}

/// The classes of a link of the top bar.
pub fn topbar_link_class(active: bool, loading: bool) -> (r: String)
    ensures
        r@ == class_names_spec(
            "app-topbar-link"@,
            seq![("active"@, active), ("is-loading"@, loading)],
        ),
{
    let mut switches: Vec<(&str, bool)> = Vec::new();
    switches.push(("active", active));
    switches.push(("is-loading", loading));
    assert(switch_views(switches@) =~= seq![("active"@, active), ("is-loading"@, loading)]);
    class_names("app-topbar-link", &switches)
}

/// The classes of the activity indicator of the top bar.
pub fn topbar_activity_class(active: bool) -> (r: String)
    ensures
        r@ == class_names_spec("app-topbar-center app-topbar-activity"@, seq![("is-active"@, active)]),
{
    let mut switches: Vec<(&str, bool)> = Vec::new();
    switches.push(("is-active", active));
    assert(switch_views(switches@) =~= seq![("is-active"@, active)]);
    class_names("app-topbar-center app-topbar-activity", &switches)
}

/// How many settings the top bar shows inline.
#[derive(Debug, Clone, Copy, PartialEq, Eq, Structural)]
pub enum TopbarSettingsLayout {
    BothInline,
    ThemeInline,
    NoneInline,
}

/// The classes of the top bar header: its settings layout, and `topbar-settings-open`
/// while the settings pop out.
pub open spec fn topbar_header_class_spec(layout: TopbarSettingsLayout, settings_open: bool) -> Seq<
    char,
> {
    "app-topbar spa-topbar "@ + match layout {
        TopbarSettingsLayout::BothInline => "topbar-settings-both-inline"@,
        TopbarSettingsLayout::ThemeInline => "topbar-settings-theme-inline"@,
        TopbarSettingsLayout::NoneInline => "topbar-settings-none-inline"@,
    } + if settings_open && layout != TopbarSettingsLayout::BothInline {
        " topbar-settings-open"@
    } else {
        Seq::<char>::empty()
    }
}

/// The classes of the top bar header.
pub fn topbar_header_class(settings_layout: TopbarSettingsLayout, settings_open: bool) -> (r:
    String)
    ensures
        r@ == topbar_header_class_spec(settings_layout, settings_open),
{
    let mut out = crate::text::owned("app-topbar spa-topbar ");
    let name = match settings_layout {
        TopbarSettingsLayout::BothInline => "topbar-settings-both-inline",
        TopbarSettingsLayout::ThemeInline => "topbar-settings-theme-inline",
        TopbarSettingsLayout::NoneInline => "topbar-settings-none-inline",
    };
    push_str(&mut out, name);
    if settings_open && settings_layout != TopbarSettingsLayout::BothInline {
        push_str(&mut out, " topbar-settings-open");
    } else {
        assert(out@ + Seq::<char>::empty() =~= out@);
    }
    out
}

/// The classes of the settings button of the top bar.
pub fn topbar_settings_button_class(open: bool) -> (r: &'static str)
    ensures
        r@ == (if open {
            "app-topbar-settings-toggle is-open"@
        } else {
            "app-topbar-settings-toggle"@
        }),
{
    if open {
        "app-topbar-settings-toggle is-open"
    } else {
        "app-topbar-settings-toggle"
    }
}

} // verus!
