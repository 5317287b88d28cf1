//! The lujvo builder's (`jvozba`) output: the built word, its rafsi coloured in turn.

use crate::style::{dark, dark_spec, green, green_spec, magenta, magenta_spec};
use crate::text::push_str;
use vstd::prelude::*;

verus! {

/// What a piece of a built word is.
#[derive(Debug, Clone, Copy, PartialEq, Eq, Structural)]
pub enum JvozbaSegmentKind {
    Rafsi,
    Hyphen,
}

/// A piece of a built word.
#[derive(Debug, Clone)]
pub struct JvozbaSegment {
    pub kind: JvozbaSegmentKind,
    pub text: String,
}

/// A built word and its pieces.
#[derive(Debug, Clone)]
pub struct JvozbaBuildResult {
    pub word: String,
    pub segments: Vec<JvozbaSegment>,
}

/// The number of rafsi among `segments`.
pub open spec fn rafsi_count(segments: Seq<JvozbaSegment>) -> nat
    decreases segments.len(),
{
    if segments.len() == 0 {
        0
    } else {
        rafsi_count(segments.drop_last()) + if segments.last().kind == JvozbaSegmentKind::Rafsi {
            1nat
        } else {
            0nat
        }
    }
}

/// The pieces coloured: rafsi green and magenta in turn, hyphens dark.
pub open spec fn colored_segments(segments: Seq<JvozbaSegment>) -> Seq<char>
    decreases segments.len(),
{
    if segments.len() == 0 {
        seq![]
    } else {
        let last = segments.last();
        colored_segments(segments.drop_last()) + match last.kind {
            JvozbaSegmentKind::Rafsi => if rafsi_count(segments.drop_last()) % 2 == 0 {
                green_spec(last.text@, true)
            } else {
                magenta_spec(last.text@, true)
            },
            JvozbaSegmentKind::Hyphen => dark_spec(last.text@, true),
        }
    }
}

/// The built word as printed: plain without colour or pieces, else its pieces coloured.
pub open spec fn jvozba_text_spec(result: JvozbaBuildResult, color: bool) -> Seq<char> {
    if !color || result.segments@.len() == 0 {
        result.word@
    } else {
        colored_segments(result.segments@)
    }
}

/// The built word as printed.
pub fn render_jvozba_result(result: &JvozbaBuildResult, color: bool) -> (r: String)
    ensures
        r@ == jvozba_text_spec(*result, color),
{
    if !color || result.segments.len() == 0 {
        return result.word.clone();
    }
    let mut rafsi_index: usize = 0;
    let mut output = String::new();
    let mut i: usize = 0;
    while i < result.segments.len()
        invariant
            i <= result.segments.len(),
            rafsi_index == rafsi_count(result.segments@.subrange(0, i as int)),
            rafsi_index <= i,
            output@ == colored_segments(result.segments@.subrange(0, i as int)),
        decreases result.segments.len() - i,
    {
        let ghost s = result.segments@.subrange(0, i + 1);
        assert(s.drop_last() =~= result.segments@.subrange(0, i as int));
        let segment = &result.segments[i];
        match segment.kind {
            JvozbaSegmentKind::Rafsi => {
                let piece = if rafsi_index % 2 == 0 {
                    green(segment.text.as_str(), true)
                } else {
                    magenta(segment.text.as_str(), true)
                };
                push_str(&mut output, piece.as_str());
                rafsi_index = rafsi_index + 1;
            },
            JvozbaSegmentKind::Hyphen => {
                let piece = dark(segment.text.as_str(), true);
                push_str(&mut output, piece.as_str());
            },
        }
        i = i + 1;
    }
    assert(result.segments@.subrange(0, result.segments.len() as int) =~= result.segments@);
    output
}

} // verus!
