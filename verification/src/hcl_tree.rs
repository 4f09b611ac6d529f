//! The syntax tree of an HCL document, as plain values: bodies of attributes and
//! blocks, and expressions with the text that HCL's formatter gives them.
use vstd::prelude::*;

verus! {

/// What the logic reads of an expression's shape.
#[derive(Debug)]
pub enum ExprKind {
    Null,
    Bool(bool),
    /// A number; its value is in the expression's text.
    Number,
    /// A string without interpolation.
    Str(String),
    Array(Vec<TreeExpr>),
    Object(Vec<(String, TreeExpr)>),
    /// Any other expression (templates, variables, traversals, calls, operations, ...).
    Other,
}

/// An expression: its shape, its text as HCL formats it, and its `Debug` rendering.
#[derive(Debug)]
pub struct TreeExpr {
    pub kind: ExprKind,
    pub text: String,
    pub debug: String,
}

/// An attribute `key = expr`.
#[derive(Debug)]
pub struct TreeAttr {
    pub key: String,
    pub expr: TreeExpr,
}

/// A block `identifier "label" ... { body }`.
#[derive(Debug)]
pub struct TreeBlock {
    pub identifier: String,
    pub labels: Vec<String>,
    pub body: TreeBody,
}

/// An element of a body.
#[derive(Debug)]
pub enum TreeItem {
    Attribute(TreeAttr),
    Block(TreeBlock),
}

/// A sequence of attributes and blocks, in document order.
#[derive(Debug)]
pub struct TreeBody {
    pub structures: Vec<TreeItem>,
}

#[verifier::external_type_specification]
#[verifier::external_body]
pub struct ExHclBody(hcl::Body);

#[verifier::external_type_specification]
#[verifier::external_body]
pub struct ExHclBlock(hcl::Block);

#[verifier::external_type_specification]
#[verifier::external_body]
pub struct ExHclExpression(hcl::Expression);

/// The tree that HCL's parser gives for `content`, or `None` when it rejects it.
pub uninterp spec fn hcl_parse(content: Seq<char>) -> Option<TreeBody>;

/// The message (the `Display` text of `hcl::Error`) with which HCL's parser rejects
/// `content`.
pub uninterp spec fn hcl_error_text(content: Seq<char>) -> Seq<char>;

/// Parses HCL text with `hcl::parse` and converts the result to a [`TreeBody`], or
/// its error to the error's `Display` text. Claimed: the outcome depends on the text
/// alone (the tree is named `hcl_parse`, the message `hcl_error_text`). What the tree
/// and the message hold for given text is left unsaid.
#[verifier::external_body]
pub(crate) fn parse_hcl(content: &str) -> (r: Result<TreeBody, String>)
    ensures
        match r {
            Ok(b) => hcl_parse(content@) == Some(b),
            Err(m) => hcl_parse(content@) is None && m@ == hcl_error_text(content@),
        },
{
    match hcl::parse(content) {
        Ok(b) => Ok(body_from_hcl(&b)),
        Err(e) => Err(e.to_string()),
    }
}

/// Converts a parsed `hcl::Body` to a [`TreeBody`], structure by structure.
#[verifier::external_body]
fn body_from_hcl(b: &hcl::Body) -> (r: TreeBody) {
    TreeBody {
        structures: b.iter().map(|s| match s {
            hcl::Structure::Attribute(a) => TreeItem::Attribute(TreeAttr {
                key: a.key().to_string(),
                expr: expr_from_hcl(a.expr()),
            }),
            hcl::Structure::Block(k) => TreeItem::Block(block_from_hcl(k)),
        }).collect(),
    }
}

/// Converts an `hcl::Block` to a [`TreeBlock`]: identifier, label texts, body.
#[verifier::external_body]
fn block_from_hcl(b: &hcl::Block) -> (r: TreeBlock) {
    TreeBlock {
        identifier: b.identifier().to_string(),
        labels: b.labels().iter().map(|l| l.as_str().to_string()).collect(),
        body: body_from_hcl(b.body()),
    }
}

/// Converts an `hcl::Expression` to an [`TreeExpr`]: its variant, its nested
/// expressions, its text as `hcl::Expression`'s `Display` gives it, and its
/// `Debug` rendering.
#[verifier::external_body]
fn expr_from_hcl(e: &hcl::Expression) -> (r: TreeExpr) {
    let kind = match e {
        hcl::Expression::Null => ExprKind::Null,
        hcl::Expression::Bool(v) => ExprKind::Bool(*v),
        hcl::Expression::Number(_) => ExprKind::Number,
        hcl::Expression::String(s) => ExprKind::Str(s.clone()),
        hcl::Expression::Array(items) => ExprKind::Array(items.iter().map(expr_from_hcl).collect()),
        hcl::Expression::Object(o) => ExprKind::Object(
            o.iter().map(|(k, v)| (k.to_string(), expr_from_hcl(v))).collect(),
        ),
        _ => ExprKind::Other,
    };
    TreeExpr { kind, text: e.to_string(), debug: format!("{:?}", e) }
}

} // verus!
