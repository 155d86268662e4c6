use vstd::prelude::*;

verus! {

/// A type expression as written in source.
pub struct Ty {
    pub kind: TyKind,
}

/// The shapes a type expression can take.
pub enum TyKind {
    /// `[T]`
    Slice(Box<Ty>),
    /// `[T; n]`
    Array(Box<Ty>),
    /// `*const T`, `*mut T`
    Ptr(MutTy),
    /// `&T`, `&'a mut T`
    Rptr(MutTy),
    /// `fn(A) -> B`
    BareFn(Box<BareFnTy>),
    /// `!`
    Never,
    /// `(A, B, ...)`
    Tup(Vec<Ty>),
    /// `a::b::Foo<Bar>`, possibly qualified
    Path(Path),
    /// `dyn Trait`
    TraitObject,
    /// `impl Trait`
    ImplTrait,
    /// `(T)`
    Paren(Box<Ty>),
    /// `typeof(expr)`
    Typeof,
    /// `_`
    Infer,
    /// the implicit type of `self`
    ImplicitSelf,
    /// a type produced by a macro
    MacCall,
    /// a shape that could not be parsed
    Error,
    /// `...` in a variadic signature
    CVarArgs,
}

/// The pointee of a pointer or reference type.
pub struct MutTy {
    pub ty: Box<Ty>,
}

/// A function-pointer type.
pub struct BareFnTy {
    pub inputs: Vec<Ty>,
    pub output: FnRetTy,
}

/// The return type of a signature.
pub enum FnRetTy {
    /// no explicit return type
    Default,
    Ty(Box<Ty>),
}

pub struct Path {
    pub segments: Vec<PathSegment>,
}

pub struct PathSegment {
    pub ident: String,
    pub args: Option<Box<GenericArgs>>,
}

/// Arguments attached to a path segment.
pub enum GenericArgs {
    /// `<A, B, Item = C>`
    AngleBracketed(Vec<AngleBracketedArg>),
    /// `(A, B) -> C`
    Parenthesized(ParenthesizedArgs),
}

pub enum AngleBracketedArg {
    Arg(GenericArg),
    /// An associated-type constraint; holds the bound type of `Name = T`,
    /// and nothing for `Name: Bound`.
    Constraint(Option<Ty>),
}

pub enum GenericArg {
    Lifetime,
    Type(Ty),
    Const,
}

pub struct ParenthesizedArgs {
    pub inputs: Vec<Ty>,
    pub output: FnRetTy,
}

/// One field of a record, named or positional.
pub struct FieldDef {
    pub ty: Ty,
}

/// The body of a record definition.
pub enum VariantData {
    Struct(Vec<FieldDef>),
    Tuple(Vec<FieldDef>),
    Unit,
}

/// The target of a type alias, absent for an opaque alias.
pub struct TyAliasKind {
    pub ty: Option<Ty>,
}

/// A top-level or nested definition, with the definitions found inside it.
pub struct Item {
    pub ident: String,
    pub kind: ItemKind,
    pub nested: Vec<Item>,
}

pub enum ItemKind {
    Struct(VariantData),
    TyAlias(TyAliasKind),
    /// Any other kind of definition (function, impl, module, ...).
    Other,
}

} // verus!
