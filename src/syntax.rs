//! The library's own model of a parsed source file: the facts that the
//! analyses read, as plain values.
use vstd::prelude::*;

verus! {

/// An import tree as written after `use`.
pub enum UseTree {
    /// `ident::tree`
    Path { ident: String, tree: Box<UseTree> },
    /// A final name.
    Name { ident: String },
    /// `ident as rename`
    Rename { ident: String, rename: String },
    /// `*`
    Glob,
    /// `{a, b, ...}`
    Group { items: Vec<UseTree> },
}

/// One step of a pre-order walk over a function body.
///
/// `If`, `Match`, `Loop` and `Unsafe` open a nesting scope; each is matched by
/// a later `End` that closes it. The other events are points.
pub enum BodyEvent {
    /// A conditional expression.
    If,
    /// A pattern-dispatch expression with this many arms.
    Match { arms: usize },
    /// A loop of any form.
    Loop,
    /// An unsafe block.
    Unsafe,
    /// Closes the innermost open scope.
    End,
    /// A call; `callee` is the last path segment when the callee is a path.
    Call { callee: Option<String> },
    /// A macro invocation, by the segments of its path.
    Macro { path: Vec<String> },
    /// An import declaration.
    Use { tree: UseTree },
    /// A function declared inside the body, with its generic parameter count.
    NestedFn { generic_params: usize },
}

/// A function-like declaration (free function or method) as the complexity
/// analysis sees it.
pub struct FunctionSyntax {
    pub name: String,
    pub parameter_count: usize,
    pub generic_params: usize,
    pub start_line: usize,
    pub end_line: usize,
    pub body: Vec<BodyEvent>,
}

/// Line and column positions of a span, both 1-based lines (0 when unknown).
pub struct SourceSpan {
    pub start_line: usize,
    pub start_column: usize,
    pub end_line: usize,
    pub end_column: usize,
}

/// An attribute: whether its path is `doc`, and its token text.
pub struct AttrSyntax {
    pub is_doc: bool,
    pub tokens: String,
}

/// A type declaration.
pub struct StructSyntax {
    pub name: String,
    pub attrs: Vec<AttrSyntax>,
    /// Token text of the whole declaration.
    pub tokens: String,
    /// Identifier tokens of the declaration, in order, repeats kept.
    pub idents: Vec<String>,
}

/// The trait part of an implementation header.
pub struct TraitRef {
    pub negative: bool,
    pub path: String,
}

/// A method inside an implementation block.
pub struct MethodSyntax {
    pub name: String,
    pub attrs: Vec<AttrSyntax>,
    /// Token text of the signature.
    pub signature: String,
    /// Token text of the whole method.
    pub tokens: String,
    /// Token text of the body block.
    pub block: String,
    /// Whether the body holds at least one statement.
    pub has_statements: bool,
    pub idents: Vec<String>,
    pub span: SourceSpan,
}

/// An implementation block.
pub struct ImplSyntax {
    /// Token text of the target type.
    pub self_ty: String,
    pub trait_ref: Option<TraitRef>,
    /// Token text of the where-clause, if any.
    pub where_clause: Option<String>,
    pub attrs: Vec<AttrSyntax>,
    /// Token text of the whole block.
    pub tokens: String,
    pub idents: Vec<String>,
    pub span: SourceSpan,
    pub methods: Vec<MethodSyntax>,
}

/// A free function declaration.
pub struct FnSyntax {
    pub name: String,
    pub attrs: Vec<AttrSyntax>,
    /// Token text of the signature.
    pub signature: String,
    /// Token text of the whole function.
    pub tokens: String,
    /// Token text of the body block.
    pub block: String,
    pub idents: Vec<String>,
    pub span: SourceSpan,
}

/// A top-level declaration.
pub enum ItemSyntax {
    Struct(StructSyntax),
    Impl(ImplSyntax),
    Fn(FnSyntax),
    Other,
}

/// One parsed file: its raw text and its top-level declarations in order.
pub struct ParsedSource {
    pub content: String,
    pub items: Vec<ItemSyntax>,
}

} // verus!
