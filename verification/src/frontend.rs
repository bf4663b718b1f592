//! The front end: the SystemVerilog parser and the pieces of the standard
//! library that resolve a path. Nothing in this file is proved; each item
//! states what the library takes on trust.

use crate::syntax::Token;
use std::collections::HashMap;
use std::path::PathBuf;
use sv_parser::{Define, Error, Locate, NodeEvent, RefNode, SyntaxTree};
use vstd::prelude::*;

verus! {

/// The syntax tree that `sv_parser` builds of one source file, with the
/// preprocessed text that it was parsed from.
#[verifier::external_type_specification]
#[verifier::external_body]
pub struct ExSyntaxTree(SyntaxTree);

/// One macro definition of the preprocessor.
#[verifier::external_type_specification]
#[verifier::external_body]
pub struct ExDefine(Define);

/// The diagnostic with which `sv_parser` rejects a file.
#[verifier::external_type_specification]
#[verifier::external_body]
pub struct ExError(Error);

/// An owned file system path of the standard library.
#[verifier::external_type_specification]
#[verifier::external_body]
pub struct ExPathBuf(PathBuf);

/// One step of the parser's walk over a tree, as it is handed out: a node
/// with the name of its kind, a token, or the end of either.
#[derive(Debug)]
pub enum RawEvent {
    Enter(String),
    Token(Token),
    Leave,
}

/// The mathematical value of a [`RawEvent`].
pub ghost enum RawEventView {
    Enter(Seq<char>),
    Token(Token),
    Leave,
}

impl View for RawEvent {
    type V = RawEventView;

    open spec fn view(&self) -> RawEventView {
        match self {
            RawEvent::Enter(label) => RawEventView::Enter(label@),
            RawEvent::Token(token) => RawEventView::Token(*token),
            RawEvent::Leave => RawEventView::Leave,
        }
    }
}

/// The views of a list of events, in the same order.
pub open spec fn raw_views(events: Seq<RawEvent>) -> Seq<RawEventView> {
    events.map_values(|e: RawEvent| e@)
}

/// The view of an optional text.
pub open spec fn text_view(text: Option<String>) -> Option<Seq<char>> {
    match text {
        Some(s) => Some(s@),
        None => None,
    }
}

/// The events of the walk over a tree in source order: what
/// `SyntaxTree::into_iter().event()` yields, each node by the name that its
/// `Display` gives it and each `Locate` by its three fields.
pub uninterp spec fn syntax_events(tree: SyntaxTree) -> Seq<RawEventView>;

/// The piece of source text that `SyntaxTree::get_str` returns for a token.
pub uninterp spec fn token_str(tree: SyntaxTree, token: Token) -> Option<Seq<char>>;

/// Whether `SyntaxTree::get_origin` returns an origin for a token: whether
/// the preprocessor recorded a file for the text at the token's offset.
pub uninterp spec fn origin_known(tree: SyntaxTree, token: Token) -> bool;

/// Calls `sv_parser::parse_sv` on one file, with includes followed and
/// incomplete sources refused. The outcome depends on what is on disk, so
/// nothing is claimed of it.
#[verifier::external_body]
pub(crate) fn parse_source(
    path: &String,
    defines: &HashMap<String, Option<Define>>,
    include_dirs: &Vec<String>,
) -> (parsed: Result<(SyntaxTree, HashMap<String, Option<Define>>), Error>) {
    sv_parser::parse_sv(path, defines, include_dirs, false, false)
}

/// Formats a diagnostic of `sv_parser` with its `Debug` implementation.
#[verifier::external_body]
pub(crate) fn describe(error: &Error) -> (text: String) {
    format!("{:?}", error)
}

/// Walks the tree with `SyntaxTree::into_iter().event()` and hands out each
/// event as a plain value. The claim is only that the list is the one named
/// by [`syntax_events`].
#[verifier::external_body]
pub(crate) fn walk(tree: &SyntaxTree) -> (events: Vec<RawEvent>)
    ensures
        raw_views(events@) == syntax_events(*tree),
{
    tree.into_iter().event().map(|event| match event {
        NodeEvent::Enter(RefNode::Locate(at)) => RawEvent::Token(
            Token { offset: at.offset, len: at.len, line: at.line },
        ),
        NodeEvent::Enter(node) => RawEvent::Enter(node.to_string()),
        NodeEvent::Leave(_) => RawEvent::Leave,
    }).collect()
}

/// Calls `SyntaxTree::get_str` on a token of the tree. The token has to be
/// one that the walk over this tree handed out: the parser slices its text
/// by the token's offsets without a check.
#[verifier::external_body]
pub(crate) fn token_text(tree: &SyntaxTree, token: &Token) -> (text: Option<String>)
    requires
        syntax_events(*tree).contains(RawEventView::Token(*token)),
    ensures
        text_view(text) == token_str(*tree, *token),
{
    let at = Locate { offset: token.offset, line: token.line, len: token.len };
    tree.get_str(&at).map(|text| text.to_string())
}

/// Calls `SyntaxTree::get_origin` on a token of the tree and hands out the
/// path of the file that the token stems from, as the parser recorded it.
/// Whether there is one depends on the tree and the token alone; which path
/// it is stays unsaid.
#[verifier::external_body]
pub(crate) fn token_origin(tree: &SyntaxTree, token: &Token) -> (origin: Option<PathBuf>)
    requires
        syntax_events(*tree).contains(RawEventView::Token(*token)),
    ensures
        origin.is_some() == origin_known(*tree, *token),
{
    let at = Locate { offset: token.offset, line: token.line, len: token.len };
    tree.get_origin(&at).map(|found| found.0.clone())
}

/// Calls `Path::canonicalize`: the absolute path with symbolic links
/// resolved, or `None` where the file system refuses. The outcome depends on
/// what is on disk, so nothing is claimed of it.
#[verifier::external_body]
pub(crate) fn canonical(path: &PathBuf) -> (resolved: Option<PathBuf>) {
    path.canonicalize().ok()
}

/// Calls `Path::to_str`: the path as text, or `None` where it is not valid
/// UTF-8.
#[verifier::external_body]
pub(crate) fn path_text(path: &PathBuf) -> (text: Option<String>) {
    path.to_str().map(|text| text.to_string())
}

/// Compares two string slices with `==` of `str`, which holds when they
/// consist of the same characters.
#[verifier::external_body]
pub(crate) fn same_text(a: &str, b: &str) -> (equal: bool)
    ensures
        equal == (a@ == b@),
{
    a == b
}

} // verus!
