use vstd::prelude::*;
use crate::color::{Color, ConfigurationError};
use crate::palette::Palette;

verus! {

/// A palette entry the library hands to the outside parser: one without a
/// `(`. Entries holding a `(` are css function notation, which the palette
/// surface does not take (it asks for hex codes and named colours), and which
/// the outside parser cannot be trusted to survive on every malformed input.
pub open spec fn plain_entry(s: Seq<char>) -> bool {
    !s.contains('(')
}

/// What the outside colour parser makes of one plain colour string (a hex
/// code or a named colour): `None` when the string denotes no colour,
/// otherwise the three channels. A pure function of the string alone.
pub uninterp spec fn parsed_color(s: Seq<char>) -> Option<(u8, u8, u8)>;

/// Relies on color_processing::Color::new_string: parses a colour string
/// (hex code or named colour). The result depends on the string alone.
/// Strings holding a `(` are kept out by the precondition: they would reach
/// the library's css-function parser, which can panic on malformed notation.
#[verifier::external_body]
fn parse_color_channels(s: &str) -> (out: Option<(u8, u8, u8)>)
    requires
        plain_entry(s@),
    ensures
        out == parsed_color(s@),
{
    match color_processing::Color::new_string(s) {
        Ok(c) => Some((c.red, c.green, c.blue)),
        Err(_) => None,
    }
}

/// Whether a string holds an opening parenthesis anywhere.
fn has_open_paren(s: &str) -> (r: bool)
    ensures
        r == s@.contains('('),
{
    let n = s.unicode_len();
    let mut i: usize = 0;
    while i < n
        invariant
            n == s@.len(),
            i <= n,
            forall|j: int| 0 <= j < i ==> s@[j] != '(',
        decreases n - i,
    {
        if s.get_char(i) == '(' {
            return true;
        }
        i = i + 1;
    }
    false
}

/// The library colour a palette entry denotes, if any: entries with css
/// function notation are refused outright, the rest go to the outside parser.
pub open spec fn accepted_color(s: Seq<char>) -> Option<Color> {
    if plain_entry(s) {
        match parsed_color(s) {
            Some(t) => Some(Color { r: t.0, g: t.1, b: t.2 }),
            None => None,
        }
    } else {
        None
    }
}

/// Parses one palette entry; an entry that denotes no colour — unparseable,
/// or written in css function notation — is a configuration error carrying
/// the offending string.
pub fn parse_palette_color(s: &str) -> (r: Result<Color, ConfigurationError>)
    ensures
        r matches Ok(c) ==> accepted_color(s@) == Some(c),
        r matches Err(e) ==> (accepted_color(s@) is None && (e matches
        ConfigurationError::InvalidColor(t) && t@ == s@)),
        r is Ok <==> accepted_color(s@) is Some,
{
    if has_open_paren(s) {
        return Err(ConfigurationError::InvalidColor(s.to_owned()));
    }
    match parse_color_channels(s) {
        Some(t) => Ok(Color { r: t.0, g: t.1, b: t.2 }),
        None => Err(ConfigurationError::InvalidColor(s.to_owned())),
    }
}

/// Builds the run's palette from the user-supplied colour strings, in order.
/// Every entry must denote a colour and the list must be non-empty; either
/// failure is reported before any pixel processing can begin, a bad entry by
/// the first offending string.
pub fn build_palette(entries: &Vec<String>) -> (r: Result<Palette, ConfigurationError>)
    ensures
        r is Ok <==> (entries@.len() >= 1 && forall|i: int|
            0 <= i < entries@.len() ==> accepted_color(#[trigger] entries@[i]@) is Some),
        r matches Ok(p) ==> (p.wf() && p@.len() == entries@.len() && forall|i: int|
            0 <= i < entries@.len() ==> accepted_color(#[trigger] entries@[i]@) == Some(p@[i])),
        r matches Err(e) ==> match e {
            ConfigurationError::EmptyPalette => entries@.len() == 0,
            ConfigurationError::InvalidColor(t) => exists|i: int|
                0 <= i < entries@.len() && accepted_color(#[trigger] entries@[i]@) is None && t@
                    == entries@[i]@ && (forall|j: int|
                    0 <= j < i ==> accepted_color(#[trigger] entries@[j]@) is Some),
            ConfigurationError::UnknownKernel(_) => false,
        },
{
    if entries.len() == 0 {
        return Err(ConfigurationError::EmptyPalette);
    }
    let mut colors: Vec<Color> = Vec::new();
    let mut i: usize = 0;
    while i < entries.len()
        invariant
            i <= entries@.len(),
            entries@.len() >= 1,
            colors@.len() == i,
            forall|j: int|
                0 <= j < i ==> accepted_color(#[trigger] entries@[j]@) == Some(colors@[j]),
        decreases entries@.len() - i,
    {
        match parse_palette_color(entries[i].as_str()) {
            Ok(c) => {
                colors.push(c);
            },
            Err(e) => {
                proof {
                    assert(accepted_color(entries@[i as int]@) is None);
                }
                return Err(e);
            },
        }
        i = i + 1;
    }
    match Palette::new(colors) {
        Ok(p) => Ok(p),
        Err(_) => unreached(),
    }
}

} // verus!
