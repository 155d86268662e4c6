use type_taint::ast::{
    AngleBracketedArg, BareFnTy, FieldDef, FnRetTy, GenericArg, GenericArgs, MutTy,
    ParenthesizedArgs, Path, PathSegment, Ty, TyAliasKind, TyKind, VariantData,
};
use type_taint::names::NameSet;

fn sorted(s: &NameSet) -> Vec<String> {
    let mut v = s.to_vec();
    v.sort();
    v
}

fn strs(v: &[&str]) -> Vec<String> {
    let mut r: Vec<String> = v.iter().map(|s| s.to_string()).collect();
    r.sort();
    r
}

fn seg(name: &str, args: Option<GenericArgs>) -> PathSegment {
    PathSegment { ident: name.to_string(), args: args.map(Box::new) }
}

fn named(name: &str) -> Ty {
    Ty { kind: TyKind::Path(Path { segments: vec![seg(name, None)] }) }
}

fn generic(name: &str, args: Vec<Ty>) -> Ty {
    let args = args.into_iter().map(|t| AngleBracketedArg::Arg(GenericArg::Type(t))).collect();
    Ty { kind: TyKind::Path(Path { segments: vec![seg(name, Some(GenericArgs::AngleBracketed(args)))] }) }
}

fn ptr(t: Ty) -> Ty {
    Ty { kind: TyKind::Ptr(MutTy { ty: Box::new(t) }) }
}

fn field(t: Ty) -> FieldDef {
    FieldDef { ty: t }
}

#[test]
fn pointer_field_contributes_nothing() {
    let v = VariantData::Struct(vec![field(named("Foo")), field(ptr(named("Bar")))]);
    assert_eq!(sorted(&v.type_names()), strs(&["Foo"]));
}

#[test]
fn reference_and_fn_pointer_fields_contribute_nothing() {
    let r = Ty { kind: TyKind::Rptr(MutTy { ty: Box::new(named("Bar")) }) };
    let f = Ty {
        kind: TyKind::BareFn(Box::new(BareFnTy {
            inputs: vec![named("Arg")],
            output: FnRetTy::Ty(Box::new(named("Ret"))),
        })),
    };
    let v = VariantData::Tuple(vec![field(r), field(f), field(named("Baz"))]);
    assert_eq!(sorted(&v.type_names()), strs(&["Baz"]));
}

#[test]
fn generic_vec_yields_both() {
    let t = generic("Vec", vec![named("Foo")]);
    assert_eq!(sorted(&t.type_names()), strs(&["Vec", "Foo"]));
}

#[test]
fn nested_generics_unwrap_fully() {
    let t = generic("HashMap", vec![named("Key"), generic("Vec", vec![named("Val")])]);
    assert_eq!(sorted(&t.type_names()), strs(&["HashMap", "Key", "Vec", "Val"]));
}

#[test]
fn alias_to_name_yields_target() {
    let k = TyAliasKind { ty: Some(named("B")) };
    assert_eq!(sorted(&k.type_names()), strs(&["B"]));
}

#[test]
fn opaque_alias_yields_empty() {
    let k = TyAliasKind { ty: None };
    assert_eq!(k.type_names().len(), 0);
}

#[test]
fn qualified_path_uses_last_segment() {
    let t = Ty {
        kind: TyKind::Path(Path {
            segments: vec![seg("std", None), seg("cell", None), seg("RefCell", None)],
        }),
    };
    assert_eq!(sorted(&t.type_names()), strs(&["RefCell"]));
}

#[test]
fn earlier_segment_arguments_are_ignored() {
    let first = seg("Outer", Some(GenericArgs::AngleBracketed(vec![AngleBracketedArg::Arg(GenericArg::Type(named("Hidden")))])));
    let t = Ty { kind: TyKind::Path(Path { segments: vec![first, seg("Inner", None)] }) };
    assert_eq!(sorted(&t.type_names()), strs(&["Inner"]));
}

#[test]
fn empty_path_yields_empty() {
    let t = Ty { kind: TyKind::Path(Path { segments: vec![] }) };
    assert_eq!(t.type_names().len(), 0);
}

#[test]
fn tuple_array_slice_paren_unwrap() {
    let tup = Ty { kind: TyKind::Tup(vec![named("A"), named("B"), named("A")]) };
    assert_eq!(sorted(&tup.type_names()), strs(&["A", "B"]));
    let arr = Ty { kind: TyKind::Array(Box::new(named("C"))) };
    assert_eq!(sorted(&arr.type_names()), strs(&["C"]));
    let sl = Ty { kind: TyKind::Slice(Box::new(named("D"))) };
    assert_eq!(sorted(&sl.type_names()), strs(&["D"]));
    let par = Ty { kind: TyKind::Paren(Box::new(named("E"))) };
    assert_eq!(sorted(&par.type_names()), strs(&["E"]));
}

#[test]
fn parenthesized_args_union_inputs_and_output() {
    let pa = ParenthesizedArgs {
        inputs: vec![named("A"), named("B")],
        output: FnRetTy::Ty(Box::new(named("C"))),
    };
    let t = Ty { kind: TyKind::Path(Path { segments: vec![seg("Fn", Some(GenericArgs::Parenthesized(pa)))] }) };
    assert_eq!(sorted(&t.type_names()), strs(&["Fn", "A", "B", "C"]));
    let no_ret = ParenthesizedArgs { inputs: vec![named("A")], output: FnRetTy::Default };
    assert_eq!(sorted(&no_ret.type_names()), strs(&["A"]));
}

#[test]
fn constraint_contributes_bound_type() {
    let args = vec![
        AngleBracketedArg::Constraint(Some(named("Foo"))),
        AngleBracketedArg::Constraint(None),
        AngleBracketedArg::Arg(GenericArg::Lifetime),
        AngleBracketedArg::Arg(GenericArg::Const),
    ];
    let t = Ty { kind: TyKind::Path(Path { segments: vec![seg("Iterator", Some(GenericArgs::AngleBracketed(args)))] }) };
    assert_eq!(sorted(&t.type_names()), strs(&["Iterator", "Foo"]));
}

#[test]
fn opaque_shapes_yield_empty() {
    let kinds = vec![
        TyKind::ImplTrait,
        TyKind::TraitObject,
        TyKind::Typeof,
        TyKind::MacCall,
        TyKind::ImplicitSelf,
        TyKind::Never,
        TyKind::Infer,
        TyKind::Error,
        TyKind::CVarArgs,
    ];
    for k in kinds {
        assert_eq!(Ty { kind: k }.type_names().len(), 0);
    }
}

#[test]
fn unit_record_yields_empty() {
    assert_eq!(VariantData::Unit.type_names().len(), 0);
    assert_eq!(VariantData::Struct(vec![]).type_names().len(), 0);
}
