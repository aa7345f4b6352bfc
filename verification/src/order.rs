//! The total order that places keys in the index: lexicographic over the
//! fields of a pattern in declaration order, strings by their UTF-8 bytes,
//! an absent string before any present one, and the flags in the order
//! `True`, `False`, `DontCare`.
use crate::pattern::{FcPattern, PatternMatch, PatternModel};
use vstd::prelude::*;
use vstd::utf8::*;

verus! {

/// The outcome of comparing two keys.
#[derive(Debug, Clone, Copy, PartialEq, Eq, Structural)]
pub enum KeyOrder {
    Before,
    Same,
    After,
}

impl KeyOrder {
    /// -1, 0 or 1.
    pub open spec fn sign(self) -> int {
        match self {
            KeyOrder::Before => -1,
            KeyOrder::Same => 0,
            KeyOrder::After => 1,
        }
    }
}

/// Three-way lexicographic comparison of byte strings: -1 when `a` comes
/// first, 0 when they are equal, 1 when `b` comes first.  A proper prefix
/// comes before the longer string.
pub open spec fn bytes_sign(a: Seq<u8>, b: Seq<u8>) -> int
    decreases a.len(),
{
    if a.len() == 0 && b.len() == 0 {
        0
    } else if a.len() == 0 {
        -1
    } else if b.len() == 0 {
        1
    } else if a[0] < b[0] {
        -1
    } else if a[0] > b[0] {
        1
    } else {
        bytes_sign(a.drop_first(), b.drop_first())
    }
}

/// Strings compare by their UTF-8 encoding.
pub open spec fn text_sign(a: Seq<char>, b: Seq<char>) -> int {
    bytes_sign(encode_utf8(a), encode_utf8(b))
}

/// An absent string comes before every present one.
pub open spec fn name_sign(a: Option<Seq<char>>, b: Option<Seq<char>>) -> int {
    match (a, b) {
        (None, None) => 0,
        (None, Some(_)) => -1,
        (Some(_), None) => 1,
        (Some(x), Some(y)) => text_sign(x, y),
    }
}

/// Position of a flag in the order `True`, `False`, `DontCare`.
pub open spec fn flag_rank(f: PatternMatch) -> int {
    match f {
        PatternMatch::True => 0,
        PatternMatch::False => 1,
        PatternMatch::DontCare => 2,
    }
}

/// Three-way comparison of integers.
pub open spec fn int_sign(a: int, b: int) -> int {
    if a < b {
        -1
    } else if a > b {
        1
    } else {
        0
    }
}

/// The first of two comparison results that is not zero.
pub open spec fn first_decided(head: int, rest: int) -> int {
    if head != 0 {
        head
    } else {
        rest
    }
}

/// Comparison of the fields that follow the two names.
pub open spec fn style_sign(a: PatternModel, b: PatternModel) -> int {
    first_decided(
        int_sign(flag_rank(a.italic), flag_rank(b.italic)),
        first_decided(
            int_sign(flag_rank(a.oblique), flag_rank(b.oblique)),
            first_decided(
                int_sign(flag_rank(a.bold), flag_rank(b.bold)),
                first_decided(
                    int_sign(flag_rank(a.monospace), flag_rank(b.monospace)),
                    first_decided(
                        int_sign(flag_rank(a.condensed), flag_rank(b.condensed)),
                        first_decided(
                            int_sign(a.weight as int, b.weight as int),
                            first_decided(
                                int_sign(a.unicode_range.0 as int, b.unicode_range.0 as int),
                                int_sign(a.unicode_range.1 as int, b.unicode_range.1 as int),
                            ),
                        ),
                    ),
                ),
            ),
        ),
    )
}

/// Three-way comparison of two keys, field by field in declaration order.
pub open spec fn key_sign(a: PatternModel, b: PatternModel) -> int {
    first_decided(
        name_sign(a.name, b.name),
        first_decided(name_sign(a.family, b.family), style_sign(a, b)),
    )
}

/// `a` is placed strictly before `b` in the index.
pub open spec fn precedes(a: PatternModel, b: PatternModel) -> bool {
    key_sign(a, b) < 0
}

/// Byte comparison yields -1, 0 or 1, is zero exactly on equal strings,
/// and changes sign when its arguments are exchanged.
pub proof fn lemma_bytes_sign(a: Seq<u8>, b: Seq<u8>)
    ensures
        -1 <= bytes_sign(a, b) <= 1,
        bytes_sign(a, b) == 0 <==> a == b,
        bytes_sign(b, a) == -bytes_sign(a, b),
    decreases a.len(),
{
    if a.len() == 0 || b.len() == 0 {
        if a.len() == 0 && b.len() == 0 {
            assert(a =~= b);
        }
    } else {
        lemma_bytes_sign(a.drop_first(), b.drop_first());
        if a[0] == b[0] {
            if a.drop_first() == b.drop_first() {
                assert(a =~= seq![a[0]] + a.drop_first());
                assert(b =~= seq![b[0]] + b.drop_first());
            }
        }
    }
}

/// Byte comparison is transitive.
pub proof fn lemma_bytes_sign_transitive(a: Seq<u8>, b: Seq<u8>, c: Seq<u8>)
    requires
        bytes_sign(a, b) < 0,
        bytes_sign(b, c) < 0,
    ensures
        bytes_sign(a, c) < 0,
    decreases a.len(),
{
    if a.len() > 0 && b.len() > 0 && c.len() > 0 && a[0] == b[0] && b[0] == c[0] {
        lemma_bytes_sign_transitive(a.drop_first(), b.drop_first(), c.drop_first());
    }
}

/// Name comparison yields -1, 0 or 1, is zero exactly on equal names, and
/// changes sign when its arguments are exchanged.
pub proof fn lemma_name_sign(a: Option<Seq<char>>, b: Option<Seq<char>>)
    ensures
        -1 <= name_sign(a, b) <= 1,
        name_sign(a, b) == 0 <==> a == b,
        name_sign(b, a) == -name_sign(a, b),
{
    if let (Some(x), Some(y)) = (a, b) {
        lemma_bytes_sign(encode_utf8(x), encode_utf8(y));
        encode_utf8_decode_utf8(x);
        encode_utf8_decode_utf8(y);
    }
}

/// Name comparison is transitive.
pub proof fn lemma_name_sign_transitive(
    a: Option<Seq<char>>,
    b: Option<Seq<char>>,
    c: Option<Seq<char>>,
)
    requires
        name_sign(a, b) < 0,
        name_sign(b, c) < 0,
    ensures
        name_sign(a, c) < 0,
{
    if let (Some(x), Some(y), Some(z)) = (a, b, c) {
        lemma_bytes_sign_transitive(encode_utf8(x), encode_utf8(y), encode_utf8(z));
    }
}

/// Key comparison is zero exactly on equal keys.
pub proof fn lemma_key_sign_same(a: PatternModel, b: PatternModel)
    ensures
        key_sign(a, b) == 0 <==> a == b,
{
    lemma_name_sign(a.name, b.name);
    lemma_name_sign(a.family, b.family);
}

/// Key comparison yields -1, 0 or 1 and changes sign when its arguments
/// are exchanged: of two distinct keys exactly one precedes the other.
pub proof fn lemma_key_sign_flip(a: PatternModel, b: PatternModel)
    ensures
        -1 <= key_sign(a, b) <= 1,
        key_sign(b, a) == -key_sign(a, b),
{
    lemma_name_sign(a.name, b.name);
    lemma_name_sign(a.family, b.family);
}

/// `precedes` is transitive.
pub proof fn lemma_precedes_transitive(a: PatternModel, b: PatternModel, c: PatternModel)
    requires
        precedes(a, b),
        precedes(b, c),
    ensures
        precedes(a, c),
{
    lemma_name_sign(a.name, b.name);
    lemma_name_sign(b.name, c.name);
    lemma_name_sign(a.name, c.name);
    lemma_name_sign(a.family, b.family);
    lemma_name_sign(b.family, c.family);
    lemma_name_sign(a.family, c.family);
    if name_sign(a.name, b.name) < 0 && name_sign(b.name, c.name) < 0 {
        lemma_name_sign_transitive(a.name, b.name, c.name);
    }
    if name_sign(a.family, b.family) < 0 && name_sign(b.family, c.family) < 0 {
        lemma_name_sign_transitive(a.family, b.family, c.family);
    }
}

/// `precedes` is a strict total order: no key precedes itself, and of two
/// distinct keys exactly one precedes the other.
pub proof fn lemma_precedes_total(a: PatternModel, b: PatternModel)
    ensures
        !precedes(a, a),
        a != b ==> (precedes(a, b) <==> !precedes(b, a)),
        a == b ==> !precedes(a, b) && !precedes(b, a),
{
    lemma_key_sign_same(a, b);
    lemma_key_sign_same(a, a);
    lemma_key_sign_flip(a, b);
}

/// Compares two byte strings lexicographically.
pub fn compare_bytes(a: &[u8], b: &[u8]) -> (r: KeyOrder)
    ensures
        r.sign() == bytes_sign(a@, b@),
{
    let mut i: usize = 0;
    assert(a@.skip(0) =~= a@ && b@.skip(0) =~= b@);
    while i < a.len() && i < b.len()
        invariant
            i <= a.len(),
            i <= b.len(),
            bytes_sign(a@, b@) == bytes_sign(a@.skip(i as int), b@.skip(i as int)),
        decreases a.len() - i,
    {
        if a[i] < b[i] {
            return KeyOrder::Before;
        }
        if a[i] > b[i] {
            return KeyOrder::After;
        }
        proof {
            assert(a@.skip(i as int).drop_first() =~= a@.skip(i + 1));
            assert(b@.skip(i as int).drop_first() =~= b@.skip(i + 1));
        }
        i += 1;
    }
    if a.len() == b.len() {
        KeyOrder::Same
    } else if i == a.len() {
        KeyOrder::Before
    } else {
        KeyOrder::After
    }
}

/// Compares two strings by their UTF-8 bytes.
pub fn compare_text(a: &str, b: &str) -> (r: KeyOrder)
    ensures
        r.sign() == text_sign(a@, b@),
        r == KeyOrder::Same <==> a@ == b@,
{
    proof {
        lemma_name_sign(Some(a@), Some(b@));
    }
    compare_bytes(a.as_bytes(), b.as_bytes())
}

/// Compares two optional strings, an absent one first.
pub fn compare_names(a: &Option<String>, b: &Option<String>) -> (r: KeyOrder)
    ensures
        r.sign() == name_sign(crate::pattern::text_of(*a), crate::pattern::text_of(*b)),
{
    match (a, b) {
        (None, None) => KeyOrder::Same,
        (None, Some(_)) => KeyOrder::Before,
        (Some(_), None) => KeyOrder::After,
        (Some(x), Some(y)) => compare_text(x.as_str(), y.as_str()),
    }
}

/// Compares two flags in the order `True`, `False`, `DontCare`.
pub fn compare_flags(a: PatternMatch, b: PatternMatch) -> (r: KeyOrder)
    ensures
        r.sign() == int_sign(flag_rank(a), flag_rank(b)),
{
    match (a, b) {
        (PatternMatch::True, PatternMatch::True) => KeyOrder::Same,
        (PatternMatch::True, _) => KeyOrder::Before,
        (PatternMatch::False, PatternMatch::True) => KeyOrder::After,
        (PatternMatch::False, PatternMatch::False) => KeyOrder::Same,
        (PatternMatch::False, PatternMatch::DontCare) => KeyOrder::Before,
        (PatternMatch::DontCare, PatternMatch::DontCare) => KeyOrder::Same,
        (PatternMatch::DontCare, _) => KeyOrder::After,
    }
}

/// Compares two numbers.
pub fn compare_numbers(a: usize, b: usize) -> (r: KeyOrder)
    ensures
        r.sign() == int_sign(a as int, b as int),
{
    if a < b {
        KeyOrder::Before
    } else if a > b {
        KeyOrder::After
    } else {
        KeyOrder::Same
    }
}

impl FcPattern {
    /// Compares the fields that follow the two names.
    fn style_order(&self, other: &FcPattern) -> (r: KeyOrder)
        ensures
            r.sign() == style_sign(self@, other@),
    {
        let c = compare_flags(self.italic, other.italic);
        if c != KeyOrder::Same {
            return c;
        }
        let c = compare_flags(self.oblique, other.oblique);
        if c != KeyOrder::Same {
            return c;
        }
        let c = compare_flags(self.bold, other.bold);
        if c != KeyOrder::Same {
            return c;
        }
        let c = compare_flags(self.monospace, other.monospace);
        if c != KeyOrder::Same {
            return c;
        }
        let c = compare_flags(self.condensed, other.condensed);
        if c != KeyOrder::Same {
            return c;
        }
        let c = compare_numbers(self.weight, other.weight);
        if c != KeyOrder::Same {
            return c;
        }
        let c = compare_numbers(self.unicode_range[0], other.unicode_range[0]);
        if c != KeyOrder::Same {
            return c;
        }
        compare_numbers(self.unicode_range[1], other.unicode_range[1])
    }

    /// Places `self` relative to `other` in the order of the index:
    /// `Before` exactly when `self` precedes `other`, `Same` exactly when
    /// the two hold equal values.
    pub fn key_order(&self, other: &FcPattern) -> (r: KeyOrder)
        ensures
            r.sign() == key_sign(self@, other@),
            r == KeyOrder::Before <==> precedes(self@, other@),
            r == KeyOrder::Same <==> self@ == other@,
            r == KeyOrder::After <==> precedes(other@, self@),
    {
        proof {
            lemma_key_sign_same(self@, other@);
            lemma_key_sign_flip(self@, other@);
        }
        let c = compare_names(&self.name, &other.name);
        if c != KeyOrder::Same {
            return c;
        }
        let c = compare_names(&self.family, &other.family);
        if c != KeyOrder::Same {
            return c;
        }
        self.style_order(other)
    }
}

} // verus!
