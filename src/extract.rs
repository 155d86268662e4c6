use vstd::prelude::*;

use crate::ast::{
    AngleBracketedArg, BareFnTy, FieldDef, FnRetTy, GenericArg, GenericArgs, MutTy,
    ParenthesizedArgs, Path, Ty, TyAliasKind, TyKind, VariantData,
};
use crate::names::NameSet;

verus! {

/// The names a type expression mentions structurally. Pointers, references
/// and function pointers mention nothing: embedding through indirection is
/// not containment.
pub open spec fn ty_names(t: Ty) -> Set<Seq<char>>
    decreases t,
{
    match t.kind {
        TyKind::Slice(b) => ty_names(*b),
        TyKind::Array(b) => ty_names(*b),
        TyKind::Paren(b) => ty_names(*b),
        TyKind::Tup(v) => tys_names(v@),
        TyKind::Path(p) => path_names(p),
        _ => Set::empty(),
    }
}

/// The union of the names of every type in `s`.
pub open spec fn tys_names(s: Seq<Ty>) -> Set<Seq<char>>
    decreases s,
{
    if s.len() == 0 {
        Set::empty()
    } else {
        tys_names(s.drop_last()).union(ty_names(s.last()))
    }
}

/// The last segment's name, with the names in its generic arguments.
pub open spec fn path_names(p: Path) -> Set<Seq<char>>
    decreases p,
{
    if p.segments@.len() == 0 {
        Set::empty()
    } else {
        let seg = p.segments@.last();
        let own = set![seg.ident@];
        match seg.args {
            Some(a) => own.union(generic_args_names(*a)),
            None => own,
        }
    }
}

pub open spec fn generic_args_names(g: GenericArgs) -> Set<Seq<char>>
    decreases g,
{
    match g {
        GenericArgs::AngleBracketed(v) => angle_args_names(v@),
        GenericArgs::Parenthesized(p) => paren_args_names(p),
    }
}

pub open spec fn angle_args_names(s: Seq<AngleBracketedArg>) -> Set<Seq<char>>
    decreases s,
{
    if s.len() == 0 {
        Set::empty()
    } else {
        angle_args_names(s.drop_last()).union(angle_arg_names(s.last()))
    }
}

pub open spec fn angle_arg_names(a: AngleBracketedArg) -> Set<Seq<char>>
    decreases a,
{
    match a {
        AngleBracketedArg::Arg(g) => generic_arg_names(g),
        AngleBracketedArg::Constraint(Some(t)) => ty_names(t),
        AngleBracketedArg::Constraint(None) => Set::empty(),
    }
}

pub open spec fn generic_arg_names(g: GenericArg) -> Set<Seq<char>>
    decreases g,
{
    match g {
        GenericArg::Type(t) => ty_names(t),
        _ => Set::empty(),
    }
}

pub open spec fn paren_args_names(p: ParenthesizedArgs) -> Set<Seq<char>>
    decreases p,
{
    tys_names(p.inputs@).union(ret_names(p.output))
}

pub open spec fn ret_names(r: FnRetTy) -> Set<Seq<char>>
    decreases r,
{
    match r {
        FnRetTy::Ty(t) => ty_names(*t),
        FnRetTy::Default => Set::empty(),
    }
}

/// The union over all fields of each field's type names.
pub open spec fn fields_names(s: Seq<FieldDef>) -> Set<Seq<char>>
    decreases s.len(),
{
    if s.len() == 0 {
        Set::empty()
    } else {
        fields_names(s.drop_last()).union(ty_names(s.last().ty))
    }
}

pub open spec fn variant_names(v: VariantData) -> Set<Seq<char>> {
    match v {
        VariantData::Struct(fs) => fields_names(fs@),
        VariantData::Tuple(fs) => fields_names(fs@),
        VariantData::Unit => Set::empty(),
    }
}

pub open spec fn alias_names(k: TyAliasKind) -> Set<Seq<char>> {
    match k.ty {
        Some(t) => ty_names(t),
        None => Set::empty(),
    }
}

} // verus!

verus! {

/// The names of the types in `tys`, merged.
fn tys_type_names(tys: &Vec<Ty>) -> (r: NameSet)
    ensures
        r.wf(),
        r@ == tys_names(tys@),
    decreases tys,
{
    let mut r = NameSet::new();
    let mut i: usize = 0;
    while i < tys.len()
        invariant
            i <= tys.len(),
            r.wf(),
            r@ == tys_names(tys@.subrange(0, i as int)),
        decreases tys.len() - i,
    {
        assert(decreases_to!(tys => tys@[i as int]));
        let s = tys[i].type_names();
        r.insert_all(&s);
        assert(tys@.subrange(0, i + 1).drop_last() =~= tys@.subrange(0, i as int));
        i = i + 1;
    }
    assert(tys@.subrange(0, i as int) =~= tys@);
    r
}

/// The names in the angle-bracketed arguments `args`, merged.
fn angle_type_names(args: &Vec<AngleBracketedArg>) -> (r: NameSet)
    ensures
        r.wf(),
        r@ == angle_args_names(args@),
    decreases args,
{
    let mut r = NameSet::new();
    let mut i: usize = 0;
    while i < args.len()
        invariant
            i <= args.len(),
            r.wf(),
            r@ == angle_args_names(args@.subrange(0, i as int)),
        decreases args.len() - i,
    {
        assert(decreases_to!(args => args@[i as int]));
        let s = args[i].type_names();
        r.insert_all(&s);
        assert(args@.subrange(0, i + 1).drop_last() =~= args@.subrange(0, i as int));
        i = i + 1;
    }
    assert(args@.subrange(0, i as int) =~= args@);
    r
}

/// The names of the field types in `fs`, merged.
fn fields_type_names(fs: &Vec<FieldDef>) -> (r: NameSet)
    ensures
        r.wf(),
        r@ == fields_names(fs@),
{
    let mut r = NameSet::new();
    let mut i: usize = 0;
    while i < fs.len()
        invariant
            i <= fs.len(),
            r.wf(),
            r@ == fields_names(fs@.subrange(0, i as int)),
        decreases fs.len() - i,
    {
        let s = fs[i].type_names();
        r.insert_all(&s);
        assert(fs@.subrange(0, i + 1).drop_last() =~= fs@.subrange(0, i as int));
        i = i + 1;
    }
    assert(fs@.subrange(0, i as int) =~= fs@);
    r
}

impl Ty {
    pub fn type_names(&self) -> (r: NameSet)
        ensures
            r.wf(),
            r@ == ty_names(*self),
        decreases self,
    {
        match &self.kind {
            TyKind::Slice(t) => t.type_names(),
            TyKind::Array(t) => t.type_names(),
            TyKind::Paren(t) => t.type_names(),
            TyKind::Ptr(mt) => mt.type_names(),
            TyKind::Rptr(mt) => mt.type_names(),
            TyKind::BareFn(f) => f.type_names(),
            TyKind::Tup(tys) => tys_type_names(tys),
            TyKind::Path(p) => p.type_names(),
            TyKind::ImplTrait
            | TyKind::TraitObject
            | TyKind::Typeof
            | TyKind::MacCall
            | TyKind::ImplicitSelf
            | TyKind::Never
            | TyKind::Infer
            | TyKind::Error
            | TyKind::CVarArgs => NameSet::new(),
        }
    }
}

impl MutTy {
    /// The pointee is not traversed: a pointer does not embed its target.
    pub fn type_names(&self) -> (r: NameSet)
        ensures
            r.wf(),
            r@ == Set::<Seq<char>>::empty(),
    {
        NameSet::new()
    }
}

impl BareFnTy {
    /// Parameter and return types of a callable are not embedded in it.
    pub fn type_names(&self) -> (r: NameSet)
        ensures
            r.wf(),
            r@ == Set::<Seq<char>>::empty(),
    {
        NameSet::new()
    }
}

impl FnRetTy {
    pub fn type_names(&self) -> (r: NameSet)
        ensures
            r.wf(),
            r@ == ret_names(*self),
        decreases self,
    {
        match self {
            FnRetTy::Ty(t) => t.type_names(),
            FnRetTy::Default => NameSet::new(),
        }
    }
}

impl Path {
    pub fn type_names(&self) -> (r: NameSet)
        ensures
            r.wf(),
            r@ == path_names(*self),
        decreases self,
    {
        let n = self.segments.len();
        if n == 0 {
            return NameSet::new();
        }
        let seg = &self.segments[n - 1];
        let mut set = match &seg.args {
            Some(a) => a.type_names(),
            None => NameSet::new(),
        };
        set.insert(seg.ident.clone());
        set
    }
}

impl GenericArgs {
    pub fn type_names(&self) -> (r: NameSet)
        ensures
            r.wf(),
            r@ == generic_args_names(*self),
        decreases self,
    {
        match self {
            GenericArgs::AngleBracketed(args) => angle_type_names(args),
            GenericArgs::Parenthesized(a) => a.type_names(),
        }
    }
}

impl AngleBracketedArg {
    pub fn type_names(&self) -> (r: NameSet)
        ensures
            r.wf(),
            r@ == angle_arg_names(*self),
        decreases self,
    {
        match self {
            AngleBracketedArg::Arg(a) => a.type_names(),
            AngleBracketedArg::Constraint(c) => match c {
                Some(t) => t.type_names(),
                None => NameSet::new(),
            },
        }
    }
}

impl GenericArg {
    pub fn type_names(&self) -> (r: NameSet)
        ensures
            r.wf(),
            r@ == generic_arg_names(*self),
        decreases self,
    {
        match self {
            GenericArg::Type(t) => t.type_names(),
            GenericArg::Lifetime | GenericArg::Const => NameSet::new(),
        }
    }
}

impl ParenthesizedArgs {
    pub fn type_names(&self) -> (r: NameSet)
        ensures
            r.wf(),
            r@ == paren_args_names(*self),
        decreases self,
    {
        let mut set = tys_type_names(&self.inputs);
        let out = self.output.type_names();
        set.insert_all(&out);
        set
    }
}

impl FieldDef {
    pub fn type_names(&self) -> (r: NameSet)
        ensures
            r.wf(),
            r@ == ty_names(self.ty),
    {
        self.ty.type_names()
    }
}

impl VariantData {
    pub fn type_names(&self) -> (r: NameSet)
        ensures
            r.wf(),
            r@ == variant_names(*self),
    {
        match self {
            VariantData::Struct(fs) | VariantData::Tuple(fs) => fields_type_names(fs),
            VariantData::Unit => NameSet::new(),
        }
    }
}

impl TyAliasKind {
    pub fn type_names(&self) -> (r: NameSet)
        ensures
            r.wf(),
            r@ == alias_names(*self),
    {
        match &self.ty {
            Some(t) => t.type_names(),
            None => NameSet::new(),
        }
    }
}

} // verus!

verus! {

/// A field behind a pointer, a reference or a function pointer adds nothing
/// to a record's reference set; any field adds exactly its own type's names.
pub proof fn law_indirect_fields_add_nothing(fields: Seq<FieldDef>, f: FieldDef)
    ensures
        fields_names(fields.push(f)) == fields_names(fields).union(ty_names(f.ty)),
        (f.ty.kind is Ptr || f.ty.kind is Rptr || f.ty.kind is BareFn)
            ==> fields_names(fields.push(f)) == fields_names(fields),
{
    assert(fields.push(f).drop_last() =~= fields);
    assert(fields_names(fields).union(Set::<Seq<char>>::empty()) =~= fields_names(fields));
}

proof fn lemma_angle_args_include(s: Seq<AngleBracketedArg>, i: int)
    requires
        0 <= i < s.len(),
    ensures
        angle_arg_names(s[i]).subset_of(angle_args_names(s)),
    decreases s.len(),
{
    if i < s.len() - 1 {
        lemma_angle_args_include(s.drop_last(), i);
    }
}

/// A generic path names its last segment, and everything that each type
/// argument in its angle brackets names.
pub proof fn law_generic_unwrapping(p: Path, args: Vec<AngleBracketedArg>, i: int, t: Ty)
    requires
        p.segments@.len() > 0,
        match p.segments@.last().args {
            Some(a) => *a == GenericArgs::AngleBracketed(args),
            None => false,
        },
        0 <= i < args.len(),
        args@[i] == AngleBracketedArg::Arg(GenericArg::Type(t)),
    ensures
        path_names(p).contains(p.segments@.last().ident@),
        ty_names(t).subset_of(path_names(p)),
{
    lemma_angle_args_include(args@, i);
}

/// An alias references what its target references, and nothing when it has
/// no target; a target that is a bare name references that name alone.
pub proof fn law_alias_transparency(k: TyAliasKind, t: Ty)
    ensures
        k.ty is None ==> alias_names(k) == Set::<Seq<char>>::empty(),
        k.ty == Some(t) ==> alias_names(k) == ty_names(t),
        (t.kind is Path && t.kind->Path_0.segments@.len() == 1 && t.kind->Path_0.segments@[0].args is None)
            ==> ty_names(t) == set![t.kind->Path_0.segments@[0].ident@],
{
    if t.kind is Path {
        let p = t.kind->Path_0;
        if p.segments@.len() == 1 {
            assert(p.segments@.last() == p.segments@[0]);
            assert(ty_names(t) == path_names(p));
            if p.segments@[0].args is None {
                assert(path_names(p) == set![p.segments@[0].ident@]);
            }
        }
    }
}

} // verus!
