//! The configuration parser: a single forward scan over the markup
//! tokens of one configuration document that extracts the locations of
//! further configuration (`include` elements) and the directories to scan
//! for fonts (`dir` elements), each with its optional `prefix` attribute.
//!
//! The markup is tokenized by the xmlparser crate; the scan over the
//! tokens is verified.
use crate::pattern::text_of;
use crate::text::text_eq;
use vstd::prelude::*;
use vstd::string::*;
use xmlparser::{ElementEnd, Token, Tokenizer};

verus! {

/// A markup token, reduced to what the scan reads.
#[derive(Debug, PartialEq, Eq)]
pub enum XmlToken {
    /// The start of an element, `<name`.
    ElementStart { local: String },
    /// An attribute of the element just started.
    Attribute { local: String, value: String },
    /// Text between tags.
    Text { text: String },
    /// A closing tag, `</name>`.
    ElementClose { local: String },
    /// Any other token: declarations, comments, the end of a start tag.
    Other,
}

/// What an [`XmlToken`] holds, as plain values.
pub enum XmlTokenModel {
    ElementStart { local: Seq<char> },
    Attribute { local: Seq<char>, value: Seq<char> },
    Text { text: Seq<char> },
    ElementClose { local: Seq<char> },
    Other,
}

impl View for XmlToken {
    type V = XmlTokenModel;

    open spec fn view(&self) -> XmlTokenModel {
        match self {
            XmlToken::ElementStart { local } => XmlTokenModel::ElementStart { local: local@ },
            XmlToken::Attribute { local, value } => XmlTokenModel::Attribute {
                local: local@,
                value: value@,
            },
            XmlToken::Text { text } => XmlTokenModel::Text { text: text@ },
            XmlToken::ElementClose { local } => XmlTokenModel::ElementClose { local: local@ },
            XmlToken::Other => XmlTokenModel::Other,
        }
    }
}

impl DeepView for XmlToken {
    type V = XmlTokenModel;

    open spec fn deep_view(&self) -> XmlTokenModel {
        self@
    }
}

/// A directive of a configuration document: an optional prefix and a
/// path.
pub type Directive = (Option<Seq<char>>, Seq<char>);

/// The plain values of a list of directives.
pub open spec fn directives_of(v: Seq<(Option<String>, String)>) -> Seq<Directive> {
    Seq::new(v.len(), |i: int| (text_of(v[i].0), v[i].1@))
}

/// The tokens that xmlparser reads from a document, in order; `None`
/// where it reports an error.
pub uninterp spec fn xml_tokens(input: Seq<char>) -> Option<Seq<XmlTokenModel>>;

/// A text without its leading and trailing white space, as the standard
/// library trims it.
pub uninterp spec fn trimmed(text: Seq<char>) -> Seq<char>;

/// The content of an optional list of tokens.
pub open spec fn tokens_of(tokens: Option<Vec<XmlToken>>) -> Option<Seq<XmlTokenModel>> {
    match tokens {
        Some(t) => Some(t.deep_view()),
        None => None,
    }
}

/// Runs the `Tokenizer` of xmlparser over a document and keeps of each
/// token what the scan reads.  Trusted: the result lists the tokens in
/// the order in which the tokenizer yields them, `None` where it yields
/// an error.
#[verifier::external_body]
fn tokenize(input: &str) -> (r: Option<Vec<XmlToken>>)
    ensures
        tokens_of(r) == xml_tokens(input@),
{
    let mut tokens = Vec::new();
    for token in Tokenizer::from(input) {
        tokens.push(match token.ok()? {
            Token::ElementStart { local, .. } => XmlToken::ElementStart { local: local.to_string() },
            Token::Attribute { local, value, .. } => XmlToken::Attribute { local: local.to_string(), value: value.to_string() },
            Token::Text { text } => XmlToken::Text { text: text.to_string() },
            Token::ElementEnd { end: ElementEnd::Close(_, local), .. } => XmlToken::ElementClose { local: local.to_string() },
            _ => XmlToken::Other,
        });
    }
    Some(tokens)
}

/// Calls `str::trim` of the standard library.  Trusted: the result is
/// the text it returns.
#[verifier::external_body]
fn trim_text(text: &str) -> (r: &str)
    ensures
        r@ == trimmed(text@),
{
    text.trim()
}

/// The state of the scan between two tokens.
pub struct ScanState {
    /// Inside an `include` element.
    pub in_include: bool,
    /// Inside a `dir` element.
    pub in_dir: bool,
    /// The `prefix` attribute seen in the current element.
    pub prefix: Option<Seq<char>>,
    /// The text captured in the current element.
    pub path: Option<Seq<char>>,
    /// Locations of further configuration found so far.
    pub visits: Seq<Directive>,
    /// Directories to scan found so far.
    pub dirs: Seq<Directive>,
}

impl ScanState {
    /// The state before the first token.
    pub open spec fn initial() -> ScanState {
        ScanState {
            in_include: false,
            in_dir: false,
            prefix: None,
            path: None,
            visits: Seq::empty(),
            dirs: Seq::empty(),
        }
    }

    /// Inside an `include` or a `dir` element.
    pub open spec fn inside(self) -> bool {
        self.in_include || self.in_dir
    }

    /// The state after an element closes: nothing of it is kept.
    pub open spec fn closed(self, visits: Seq<Directive>, dirs: Seq<Directive>) -> ScanState {
        ScanState { in_include: false, in_dir: false, prefix: None, path: None, visits, dirs }
    }

    /// The state after one more token, `None` on a nesting violation.
    ///
    /// - A start tag inside an `include` or `dir` element is a violation;
    ///   outside, `include` and `dir` open their element and any other
    ///   tag is ignored.
    /// - A `prefix` attribute inside an element is kept for its close.
    /// - Text that is not empty inside an element is captured.
    /// - The closing tag of the open element appends the captured path,
    ///   if any, with the prefix to the list of its kind, and resets the
    ///   state; any other closing tag is ignored.
    pub open spec fn step(self, token: XmlTokenModel) -> Option<ScanState> {
        match token {
            XmlTokenModel::ElementStart { local } => if self.inside() {
                None
            } else if local == "include"@ {
                Some(ScanState { in_include: true, path: None, ..self })
            } else if local == "dir"@ {
                Some(ScanState { in_dir: true, path: None, ..self })
            } else {
                Some(self)
            },
            XmlTokenModel::Text { text } => if text.len() > 0 && self.inside() {
                Some(ScanState { path: Some(text), ..self })
            } else {
                Some(self)
            },
            XmlTokenModel::Attribute { local, value } => if self.inside() && local == "prefix"@ {
                Some(ScanState { prefix: Some(value), ..self })
            } else {
                Some(self)
            },
            XmlTokenModel::ElementClose { local } => if local == "include"@ && self.in_include {
                match self.path {
                    Some(path) => Some(self.closed(self.visits.push((self.prefix, path)), self.dirs)),
                    None => Some(self.closed(self.visits, self.dirs)),
                }
            } else if local == "dir"@ && self.in_dir {
                match self.path {
                    Some(path) => Some(self.closed(self.visits, self.dirs.push((self.prefix, path)))),
                    None => Some(self.closed(self.visits, self.dirs)),
                }
            } else {
                Some(self)
            },
            XmlTokenModel::Other => Some(self),
        }
    }
}

/// The state after a run of tokens, `None` once a nesting violation has
/// occurred.
pub open spec fn scan(tokens: Seq<XmlTokenModel>) -> Option<ScanState>
    decreases tokens.len(),
{
    if tokens.len() == 0 {
        Some(ScanState::initial())
    } else {
        match scan(tokens.drop_last()) {
            Some(state) => state.step(tokens.last()),
            None => None,
        }
    }
}

/// The tokens with each text trimmed: blank text becomes empty.
pub open spec fn with_trimmed_text(tokens: Seq<XmlTokenModel>) -> Seq<XmlTokenModel> {
    Seq::new(
        tokens.len(),
        |i: int|
            match tokens[i] {
                XmlTokenModel::Text { text } => XmlTokenModel::Text { text: trimmed(text) },
                other => other,
            },
    )
}

/// The two lists that a document yields: the locations of further
/// configuration and the directories to scan, found by a scan over the
/// tokens of the document with their text trimmed.  `None` where the
/// markup cannot be tokenized or an element starts inside an `include`
/// or `dir` element.
pub open spec fn parsed_directives(input: Seq<char>) -> Option<(Seq<Directive>, Seq<Directive>)> {
    match xml_tokens(input) {
        Some(tokens) => match scan(with_trimmed_text(tokens)) {
            Some(state) => Some((state.visits, state.dirs)),
            None => None,
        },
        None => None,
    }
}

/// A nesting violation is final: once a run of tokens has failed, no
/// continuation of it succeeds.
pub proof fn lemma_failure_is_final(tokens: Seq<XmlTokenModel>, n: int)
    requires
        0 <= n <= tokens.len(),
        scan(tokens.take(n)) is None,
    ensures
        scan(tokens) is None,
    decreases tokens.len() - n,
{
    if n < tokens.len() {
        assert(tokens.take(n + 1).drop_last() =~= tokens.take(n));
        lemma_failure_is_final(tokens, n + 1);
    } else {
        assert(tokens.take(n) =~= tokens);
    }
}

/// A run of tokens fails only where an element starts while an `include`
/// or `dir` element is open.
pub proof fn lemma_failure_has_a_nested_start(tokens: Seq<XmlTokenModel>)
    requires
        scan(tokens) is None,
    ensures
        exists|i: int|
            0 <= i < tokens.len() && tokens[i] is ElementStart && (#[trigger] scan(
                tokens.take(i),
            )) is Some && scan(tokens.take(i))->0.inside(),
    decreases tokens.len(),
{
    let n = tokens.len() - 1;
    assert(tokens.take(n) =~= tokens.drop_last());
    if scan(tokens.drop_last()) is None {
        lemma_failure_has_a_nested_start(tokens.drop_last());
        let i = choose|i: int|
            0 <= i < n && tokens.drop_last()[i] is ElementStart && (#[trigger] scan(
                tokens.drop_last().take(i),
            )) is Some && scan(tokens.drop_last().take(i))->0.inside();
        assert(tokens.drop_last().take(i) =~= tokens.take(i));
        assert(tokens[i] == tokens.drop_last()[i]);
    }
}

/// A document in which an element starts while an `include` or `dir`
/// element is open does not parse, whatever follows.
pub proof fn lemma_nested_start_fails(tokens: Seq<XmlTokenModel>, i: int)
    requires
        0 <= i < tokens.len(),
        tokens[i] is ElementStart,
        scan(tokens.take(i)) is Some ==> scan(tokens.take(i))->0.inside(),
    ensures
        scan(tokens) is None,
{
    assert(tokens.take(i + 1).drop_last() =~= tokens.take(i));
    assert(tokens.take(i + 1).last() == tokens[i]);
    lemma_failure_is_final(tokens, i + 1);
}

/// Trims the text of each text token.
pub fn trim_tokens(tokens: Vec<XmlToken>) -> (r: Vec<XmlToken>)
    ensures
        r.deep_view() == with_trimmed_text(tokens.deep_view()),
{
    let ghost all = tokens.deep_view();
    let mut out: Vec<XmlToken> = Vec::new();
    for token in it: tokens
        invariant
            it.seq() == tokens@,
            all == tokens.deep_view(),
            out.len() == it.index(),
            forall|j: int| 0 <= j < out.len() ==> (#[trigger] out@[j])@ == with_trimmed_text(all)[j],
    {
        assert(all[it.index() as int] == token@);
        let trimmed_token = match token {
            XmlToken::Text { text } => XmlToken::Text {
                text: String::from_str(trim_text(text.as_str())),
            },
            other => other,
        };
        out.push(trimmed_token);
    }
    assert(out.deep_view() =~= with_trimmed_text(all));
    out
}

/// Scans the tokens of a configuration document, whose text is taken as
/// it stands, and returns the two lists they yield, first the locations
/// of further configuration, then the directories to scan; `None` on a
/// nesting violation.
pub fn directives(tokens: &Vec<XmlToken>) -> (r: Option<
    (Vec<(Option<String>, String)>, Vec<(Option<String>, String)>),
>)
    ensures
        match scan(tokens.deep_view()) {
            Some(state) => match r {
                Some(lists) => directives_of(lists.0@) == state.visits && directives_of(lists.1@)
                    == state.dirs,
                None => false,
            },
            None => r is None,
        },
{
    let ghost all = tokens.deep_view();
    let mut in_include = false;
    let mut in_dir = false;
    let mut prefix: Option<String> = None;
    let mut path: Option<String> = None;
    let mut visits: Vec<(Option<String>, String)> = Vec::new();
    let mut dirs: Vec<(Option<String>, String)> = Vec::new();
    let mut i: usize = 0;
    proof {
        assert(all.take(0) =~= Seq::<XmlTokenModel>::empty());
        assert(directives_of(visits@) =~= Seq::<Directive>::empty());
        assert(directives_of(dirs@) =~= Seq::<Directive>::empty());
    }
    while i < tokens.len()
        invariant
            i <= tokens.len(),
            all == tokens.deep_view(),
            all.len() == tokens.len(),
            scan(all.take(i as int)) == Some(
                ScanState {
                    in_include,
                    in_dir,
                    prefix: text_of(prefix),
                    path: text_of(path),
                    visits: directives_of(visits@),
                    dirs: directives_of(dirs@),
                },
            ),
        decreases tokens.len() - i,
    {
        proof {
            assert(all.take(i + 1).drop_last() =~= all.take(i as int));
            assert(all.take(i + 1).last() == tokens@[i as int]@);
        }
        match &tokens[i] {
            XmlToken::ElementStart { local } => {
                if in_include || in_dir {
                    proof {
                        lemma_failure_is_final(all, i + 1);
                    }
                    return None;
                }
                if text_eq(local.as_str(), "include") {
                    in_include = true;
                    path = None;
                } else if text_eq(local.as_str(), "dir") {
                    in_dir = true;
                    path = None;
                }
            },
            XmlToken::Text { text } => {
                if !text.as_str().is_empty() && (in_include || in_dir) {
                    path = Some(text.clone());
                }
            },
            XmlToken::Attribute { local, value } => {
                if (in_include || in_dir) && text_eq(local.as_str(), "prefix") {
                    prefix = Some(value.clone());
                }
            },
            XmlToken::ElementClose { local } => {
                let closes_include = in_include && text_eq(local.as_str(), "include");
                let closes_dir = in_dir && text_eq(local.as_str(), "dir");
                if closes_include || closes_dir {
                    if let Some(captured) = path {
                        let ghost entry = (text_of(prefix), captured@);
                        if closes_include {
                            let ghost before = directives_of(visits@);
                            visits.push((prefix, captured));
                            assert(directives_of(visits@) =~= before.push(entry));
                        } else {
                            let ghost before = directives_of(dirs@);
                            dirs.push((prefix, captured));
                            assert(directives_of(dirs@) =~= before.push(entry));
                        }
                    }
                    in_include = false;
                    in_dir = false;
                    prefix = None;
                    path = None;
                }
            },
            XmlToken::Other => {},
        }
        i += 1;
    }
    assert(all.take(tokens.len() as int) =~= all);
    Some((visits, dirs))
}

/// Parses one configuration document and appends what it yields to the
/// two work lists: locations of further configuration to
/// `paths_to_visit`, directories to scan to `font_paths`.  A document
/// that does not parse leaves both lists as they were.
pub fn ParseFontsConf(
    input: &str,
    paths_to_visit: &mut Vec<(Option<String>, String)>,
    font_paths: &mut Vec<(Option<String>, String)>,
) -> (r: Option<()>)
    ensures
        match parsed_directives(input@) {
            Some(found) => {
                &&& r is Some
                &&& directives_of(final(paths_to_visit)@) == directives_of(old(paths_to_visit)@)
                    + found.0
                &&& directives_of(final(font_paths)@) == directives_of(old(font_paths)@) + found.1
            },
            None => {
                &&& r is None
                &&& *final(paths_to_visit) == *old(paths_to_visit)
                &&& *final(font_paths) == *old(font_paths)
            },
        },
{
    let tokens = trim_tokens(tokenize(input)?);
    let (mut visits, mut dirs) = directives(&tokens)?;
    let ghost visits_before = paths_to_visit@;
    let ghost dirs_before = font_paths@;
    let ghost new_visits = visits@;
    let ghost new_dirs = dirs@;
    paths_to_visit.append(&mut visits);
    font_paths.append(&mut dirs);
    proof {
        assert(directives_of(paths_to_visit@) =~= directives_of(visits_before) + directives_of(
            new_visits,
        ));
        assert(directives_of(font_paths@) =~= directives_of(dirs_before) + directives_of(new_dirs));
    }
    Some(())
}

} // verus!
