//! Grapheme clusters, the unit in which input is scanned.

use unicode_segmentation::UnicodeSegmentation;
use vstd::prelude::*;
use vstd::string::*;

verus! {

/// The escape character `ESC` (U+001B) that opens every control sequence.
pub const ESC: char = '\x1b';

/// The bell character `BEL` (U+0007), which closes an operating-system command.
pub const BEL: char = '\x07';

/// The one code point of a cluster that has exactly one, if it has.
pub open spec fn single_char(cluster: Seq<char>) -> Option<char> {
    if cluster.len() == 1 {
        Some(cluster[0])
    } else {
        None
    }
}

/// Whether a cluster is one ASCII character, which takes a single byte.
pub open spec fn is_single_byte(cluster: Seq<char>) -> bool {
    cluster.len() == 1 && cluster[0] <= '\u{7f}'
}

/// Whether a cluster is the lone escape character.
pub open spec fn is_escape(cluster: Seq<char>) -> bool {
    single_char(cluster) == Some(ESC)
}

/// The legacy grapheme clusters of a text, in order, as Unicode Standard
/// Annex #29 delimits them.
pub uninterp spec fn grapheme_clusters(text: Seq<char>) -> Seq<Seq<char>>;

/// Splits `text` into its legacy grapheme clusters with
/// `unicode_segmentation::UnicodeSegmentation::graphemes(text, false)`.
///
/// Believed, not proved: the result is a function of the text alone, and the
/// clusters are consecutive slices of the text, none of them empty, that
/// together cover it, so that joined in order they give the text back.
#[verifier::external_body]
pub(crate) fn split_graphemes(text: &str) -> (clusters: Vec<String>)
    ensures
        clusters.deep_view() == grapheme_clusters(text@),
        clusters.deep_view().flatten() == text@,
        forall|i: int| 0 <= i < clusters.len() ==> (#[trigger] clusters[i])@.len() > 0,
{
    text.graphemes(false).map(String::from).collect()
}

/// Makes the string that holds the one character `c`, with `String::from`.
///
/// Believed, not proved: the string is made of that character and no other.
#[verifier::external_body]
pub(crate) fn char_text(c: char) -> (text: String)
    ensures
        text@ == seq![c],
{
    String::from(c)
}

/// The code point of a cluster made of a single one.
pub fn cluster_char(cluster: &str) -> (c: Option<char>)
    ensures
        c == single_char(cluster@),
{
    if cluster.unicode_len() == 1 {
        Some(cluster.get_char(0))
    } else {
        None
    }
}

/// Whether `cluster` is the lone escape character.
pub fn cluster_is_escape(cluster: &str) -> (b: bool)
    ensures
        b == is_escape(cluster@),
{
    match cluster_char(cluster) {
        Some(c) => c == ESC,
        None => false,
    }
}

} // verus!
