//! Patterns, font locations, and the rule by which a query pattern admits
//! an indexed key.
use vstd::prelude::*;

verus! {

/// A tri-state style requirement.  `True` and `False` must be met exactly
/// by an indexed key; `DontCare` never constrains a query.
#[derive(Debug, Clone, Copy, PartialEq, Eq, PartialOrd, Ord, Structural)]
pub enum PatternMatch {
    True,
    False,
    DontCare,
}

impl PatternMatch {
    /// Whether this flag constrains a query.
    pub open spec fn constrains(&self) -> bool {
        *self != PatternMatch::DontCare
    }

    /// Whether this flag constrains a query: true for `True` and `False`.
    #[verifier::when_used_as_spec(constrains)]
    pub fn needs_to_match(&self) -> (r: bool)
        ensures
            r == self.constrains(),
    {
        match self {
            PatternMatch::True => true,
            PatternMatch::False => true,
            PatternMatch::DontCare => false,
        }
    }

    /// The definite flag that stands for a boolean table value.
    pub fn from_bool(value: bool) -> (r: PatternMatch)
        ensures
            r == definite(value),
    {
        if value {
            PatternMatch::True
        } else {
            PatternMatch::False
        }
    }
}

/// `True` for `true`, `False` for `false`; never `DontCare`.
pub open spec fn definite(value: bool) -> PatternMatch {
    if value {
        PatternMatch::True
    } else {
        PatternMatch::False
    }
}

impl Default for PatternMatch {
    fn default() -> (r: PatternMatch)
        ensures
            r == PatternMatch::DontCare,
    {
        PatternMatch::DontCare
    }
}

/// The mathematical content of an optional string.
pub open spec fn text_of(s: Option<String>) -> Option<Seq<char>> {
    match s {
        Some(t) => Some(t@),
        None => None,
    }
}

/// A query or index key: optional names and style requirements.
#[derive(Debug, PartialEq, Eq, PartialOrd, Ord)]
pub struct FcPattern {
    /// Full (display) name of the font.
    pub name: Option<String>,
    /// Family name of the font.
    pub family: Option<String>,
    pub italic: PatternMatch,
    pub oblique: PatternMatch,
    pub bold: PatternMatch,
    pub monospace: PatternMatch,
    /// Reserved: never set by table extraction.
    pub condensed: PatternMatch,
    /// Reserved: never set by table extraction.
    pub weight: usize,
    /// Reserved: first and last code point, never set by table extraction.
    pub unicode_range: [usize; 2],
}

/// What an [`FcPattern`] holds, as plain mathematical values.
pub struct PatternModel {
    pub name: Option<Seq<char>>,
    pub family: Option<Seq<char>>,
    pub italic: PatternMatch,
    pub oblique: PatternMatch,
    pub bold: PatternMatch,
    pub monospace: PatternMatch,
    pub condensed: PatternMatch,
    pub weight: usize,
    pub unicode_range: (usize, usize),
}

impl View for FcPattern {
    type V = PatternModel;

    open spec fn view(&self) -> PatternModel {
        PatternModel {
            name: text_of(self.name),
            family: text_of(self.family),
            italic: self.italic,
            oblique: self.oblique,
            bold: self.bold,
            monospace: self.monospace,
            condensed: self.condensed,
            weight: self.weight,
            unicode_range: (self.unicode_range@[0], self.unicode_range@[1]),
        }
    }
}

impl DeepView for FcPattern {
    type V = PatternModel;

    open spec fn deep_view(&self) -> PatternModel {
        self@
    }
}

impl PatternModel {
    /// The pattern that constrains nothing.
    pub open spec fn unconstrained() -> PatternModel {
        PatternModel {
            name: None,
            family: None,
            italic: PatternMatch::DontCare,
            oblique: PatternMatch::DontCare,
            bold: PatternMatch::DontCare,
            monospace: PatternMatch::DontCare,
            condensed: PatternMatch::DontCare,
            weight: 0,
            unicode_range: (0, 0),
        }
    }

    /// No name, no family, and every flag consulted by matching is
    /// `DontCare`.
    pub open spec fn is_neutral(self) -> bool {
        &&& self.name is None
        &&& self.family is None
        &&& self.italic == PatternMatch::DontCare
        &&& self.oblique == PatternMatch::DontCare
        &&& self.bold == PatternMatch::DontCare
        &&& self.monospace == PatternMatch::DontCare
    }
}

/// The matching rule: every field that `pattern` makes concrete (a name or
/// family that is present, a flag other than `DontCare`) is equal in `key`.
/// `condensed`, `weight` and `unicode_range` are never consulted.
pub open spec fn query_matches(key: PatternModel, pattern: PatternModel) -> bool {
    &&& pattern.name is Some ==> key.name == pattern.name
    &&& pattern.family is Some ==> key.family == pattern.family
    &&& pattern.italic.constrains() ==> key.italic == pattern.italic
    &&& pattern.oblique.constrains() ==> key.oblique == pattern.oblique
    &&& pattern.bold.constrains() ==> key.bold == pattern.bold
    &&& pattern.monospace.constrains() ==> key.monospace == pattern.monospace
}

/// Equality of two optional strings by content.
pub fn same_text(a: &Option<String>, b: &Option<String>) -> (r: bool)
    ensures
        r == (text_of(*a) == text_of(*b)),
{
    match (a, b) {
        (Some(x), Some(y)) => {
            let eq = *x == *y;
            proof {
                if x@ == y@ {
                    assert(text_of(*a) == text_of(*b));
                }
            }
            eq
        },
        (None, None) => true,
        _ => false,
    }
}

impl Clone for FcPattern {
    fn clone(&self) -> (r: FcPattern)
        ensures
            r@ == self@,
    {
        FcPattern {
            name: self.name.clone(),
            family: self.family.clone(),
            italic: self.italic,
            oblique: self.oblique,
            bold: self.bold,
            monospace: self.monospace,
            condensed: self.condensed,
            weight: self.weight,
            unicode_range: self.unicode_range,
        }
    }
}

impl Default for FcPattern {
    fn default() -> (r: FcPattern)
        ensures
            r@ == PatternModel::unconstrained(),
    {
        FcPattern {
            name: None,
            family: None,
            italic: PatternMatch::DontCare,
            oblique: PatternMatch::DontCare,
            bold: PatternMatch::DontCare,
            monospace: PatternMatch::DontCare,
            condensed: PatternMatch::DontCare,
            weight: 0,
            unicode_range: [0, 0],
        }
    }
}

/// Where a font can be loaded from: a file path, or an inline encoding of
/// the font's bytes behind the `base64:` marker, and the index of the
/// sub-font within that container.
#[derive(Debug, PartialEq, Eq, PartialOrd, Ord)]
pub struct FcFontPath {
    pub path: String,
    pub font_index: usize,
}

/// What an [`FcFontPath`] holds, as plain mathematical values.
pub struct LocationModel {
    pub path: Seq<char>,
    pub font_index: usize,
}

impl View for FcFontPath {
    type V = LocationModel;

    open spec fn view(&self) -> LocationModel {
        LocationModel { path: self.path@, font_index: self.font_index }
    }
}

impl DeepView for FcFontPath {
    type V = LocationModel;

    open spec fn deep_view(&self) -> LocationModel {
        self@
    }
}

impl Clone for FcFontPath {
    fn clone(&self) -> (r: FcFontPath)
        ensures
            r@ == self@,
    {
        FcFontPath { path: self.path.clone(), font_index: self.font_index }
    }
}

/// A font held in memory: its bytes and the index of the sub-font meant.
#[derive(Debug, PartialEq, Eq, PartialOrd, Ord)]
pub struct FcFont {
    pub bytes: Vec<u8>,
    pub font_index: usize,
}

impl Clone for FcFont {
    fn clone(&self) -> (r: FcFont)
        ensures
            r.bytes@ == self.bytes@,
            r.font_index == self.font_index,
    {
        FcFont { bytes: self.bytes.clone(), font_index: self.font_index }
    }
}

} // verus!
