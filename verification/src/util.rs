//! Helpers shared by the checks: locating contract methods, reading receiver chains,
//! attributes and parameters.
use vstd::prelude::*;
use crate::syntax::{Attribute, Expr, FnArg, ImplFn, ImplItem, Item, ItemImpl, Pat, Signature, SourceFile, Ty};
use crate::text::str_eq;

verus! {

/// The text of each string.
pub open spec fn views(s: Seq<String>) -> Seq<Seq<char>> {
    s.map_values(|x: String| x@)
}

/// `name` is one of the strings of `v`.
pub fn vec_contains_str(v: &Vec<String>, name: &str) -> (r: bool)
    ensures
        r == views(v@).contains(name@),
{
    let mut i: usize = 0;
    while i < v.len()
        invariant
            0 <= i <= v.len(),
            forall|j: int| 0 <= j < i ==> v@[j]@ != name@,
        decreases v.len() - i,
    {
        if str_eq(v[i].as_str(), name) {
            assert(views(v@)[i as int] == name@);
            return true;
        }
        i += 1;
    }
    assert forall|j: int| 0 <= j < views(v@).len() implies views(v@)[j] != name@ by {
        assert(views(v@)[j] == v@[j]@);
    }
    false
}

/// Some attribute's path ends in `name` (`#[name]`, `#[a::name]`, `#[name(..)]`, ...).
pub open spec fn has_attr_spec(attrs: Seq<Attribute>, name: Seq<char>) -> bool {
    exists|i: int| 0 <= i < attrs.len() && (#[trigger] attrs[i]).path.last_ident_of() == Some(name)
}

pub fn has_attr(attrs: &Vec<Attribute>, name: &str) -> (r: bool)
    ensures
        r == has_attr_spec(attrs@, name@),
{
    let mut i: usize = 0;
    while i < attrs.len()
        invariant
            0 <= i <= attrs.len(),
            forall|j: int| 0 <= j < i ==> (#[trigger] attrs@[j]).path.last_ident_of() != Some(name@),
        decreases attrs.len() - i,
    {
        match attrs[i].path.last_ident() {
            Some(id) => {
                if str_eq(id.as_str(), name) {
                    assert(attrs@[i as int].path.last_ident_of() == Some(name@));
                    return true;
                }
            },
            None => {},
        }
        i += 1;
    }
    false
}

/// The attribute is `#[cfg(test)]`.
pub open spec fn is_cfg_test_attr(a: Attribute) -> bool {
    &&& a.path.ident_of() == Some("cfg"@)
    &&& a.single_ident_arg matches Some(id) && id@ == "test"@
}

/// Some attribute is `#[cfg(test)]`.
pub open spec fn has_cfg_test_spec(attrs: Seq<Attribute>) -> bool {
    exists|i: int| 0 <= i < attrs.len() && is_cfg_test_attr(#[trigger] attrs[i])
}

pub fn has_cfg_test(attrs: &Vec<Attribute>) -> (r: bool)
    ensures
        r == has_cfg_test_spec(attrs@),
{
    let mut i: usize = 0;
    while i < attrs.len()
        invariant
            0 <= i <= attrs.len(),
            forall|j: int| 0 <= j < i ==> !is_cfg_test_attr(#[trigger] attrs@[j]),
        decreases attrs.len() - i,
    {
        let a = &attrs[i];
        let is_cfg = match a.path.get_ident() {
            Some(id) => str_eq(id.as_str(), "cfg"),
            None => false,
        };
        let arg_test = match &a.single_ident_arg {
            Some(id) => str_eq(id.as_str(), "test"),
            None => false,
        };
        if is_cfg && arg_test {
            assert(is_cfg_test_attr(attrs@[i as int]));
            return true;
        }
        i += 1;
    }
    false
}

/// A module that holds tests: `#[cfg(test)]`, or named `tests` or `test`.
pub open spec fn is_test_module_spec(ident: Seq<char>, attrs: Seq<Attribute>) -> bool {
    has_cfg_test_spec(attrs) || ident == "tests"@ || ident == "test"@
}

pub fn is_test_module(ident: &String, attrs: &Vec<Attribute>) -> (r: bool)
    ensures
        r == is_test_module_spec(ident@, attrs@),
{
    has_cfg_test(attrs) || str_eq(ident.as_str(), "tests") || str_eq(ident.as_str(), "test")
}

/// The methods of one impl block, paired with the block, for the first `n` items.
pub open spec fn impl_methods<'a>(imp: &'a ItemImpl, n: int) -> Seq<(&'a ItemImpl, &'a ImplFn)>
    decreases n,
{
    if n <= 0 || n > imp.items.len() {
        Seq::empty()
    } else {
        impl_methods(imp, n - 1) + match &imp.items@[n - 1] {
            ImplItem::Fn(f) => seq![(imp, f)],
            ImplItem::Other(_) => Seq::empty(),
        }
    }
}

/// Methods of `#[contractimpl]` blocks among the first `n` items, in source order,
/// descending into inline modules except test modules.
pub open spec fn contract_methods_items<'a>(v: &'a Vec<Item>, n: int) -> Seq<(&'a ItemImpl, &'a ImplFn)>
    decreases *v, n,
{
    if n <= 0 || n > v.len() {
        Seq::empty()
    } else {
        contract_methods_items(v, n - 1) + contract_methods_item(&v@[n - 1])
    }
}

pub open spec fn contract_methods_item<'a>(it: &'a Item) -> Seq<(&'a ItemImpl, &'a ImplFn)>
    decreases *it, 1int,
{
    match it {
        Item::Mod { ident, attrs, content } => if is_test_module_spec(ident@, attrs@) {
            Seq::empty()
        } else {
            match content {
                Some(c) => contract_methods_items(c, c.len() as int),
                None => Seq::empty(),
            }
        },
        Item::Impl(imp) => if has_attr_spec(imp.attrs@, "contractimpl"@) {
            impl_methods(imp, imp.items.len() as int)
        } else {
            Seq::empty()
        },
        _ => Seq::empty(),
    }
}

/// Methods of `#[contractimpl]` blocks in the file, each with its impl block, excluding
/// test modules.
pub open spec fn contract_methods<'a>(f: &'a SourceFile) -> Seq<(&'a ItemImpl, &'a ImplFn)> {
    contract_methods_items(&f.items, f.items.len() as int)
}

fn push_impl_methods<'a>(imp: &'a ItemImpl, out: &mut Vec<(&'a ItemImpl, &'a ImplFn)>)
    ensures
        final(out)@ == old(out)@ + impl_methods(imp, imp.items.len() as int),
{
    let ghost start = out@;
    let mut i: usize = 0;
    while i < imp.items.len()
        invariant
            0 <= i <= imp.items.len(),
            out@ == start + impl_methods(imp, i as int),
        decreases imp.items.len() - i,
    {
        match &imp.items[i] {
            ImplItem::Fn(f) => out.push((imp, f)),
            ImplItem::Other(_) => {},
        }
        i += 1;
        assert(out@ =~= start + impl_methods(imp, i as int));
    }
}

fn push_contract_methods_item<'a>(it: &'a Item, out: &mut Vec<(&'a ItemImpl, &'a ImplFn)>)
    ensures
        final(out)@ == old(out)@ + contract_methods_item(it),
    decreases *it, 1int,
{
    match it {
        Item::Mod { ident, attrs, content } => {
            if !is_test_module(ident, attrs) {
                match content {
                    Some(c) => push_contract_methods_items(c, out),
                    None => {},
                }
            }
        },
        Item::Impl(imp) => {
            if has_attr(&imp.attrs, "contractimpl") {
                push_impl_methods(imp, out);
            }
        },
        _ => {},
    }
    assert(out@ =~= old(out)@ + contract_methods_item(it));
}

fn push_contract_methods_items<'a>(v: &'a Vec<Item>, out: &mut Vec<(&'a ItemImpl, &'a ImplFn)>)
    ensures
        final(out)@ == old(out)@ + contract_methods_items(v, v.len() as int),
    decreases *v, v.len() + 1,
{
    let ghost start = out@;
    let mut i: usize = 0;
    while i < v.len()
        invariant
            0 <= i <= v.len(),
            out@ == start + contract_methods_items(v, i as int),
        decreases v.len() - i,
    {
        proof {
            assert(decreases_to!(*v => v@[i as int]));
        }
        push_contract_methods_item(&v[i], out);
        i += 1;
        assert(out@ =~= start + contract_methods_items(v, i as int));
    }
}

/// Methods of `#[contractimpl]` blocks (the attribute's path ending in `contractimpl`),
/// in source order, each paired with its impl block; inline modules are searched except
/// `#[cfg(test)]` modules and modules named `tests` or `test`.
pub fn contractimpl_functions_with_type_excluding_test<'a>(f: &'a SourceFile) -> (r: Vec<(&'a ItemImpl, &'a ImplFn)>)
    ensures
        r@ == contract_methods(f),
{
    let mut out: Vec<(&'a ItemImpl, &'a ImplFn)> = Vec::new();
    push_contract_methods_items(&f.items, &mut out);
    assert(out@ =~= contract_methods(f));
    out
}

/// The name of a type for reporting: the last segment of a path type, looking through
/// references; empty for other types.
pub open spec fn ty_label_spec(t: Ty) -> Seq<char>
    decreases t,
{
    match t {
        Ty::Path(p) => match p.last_ident_of() {
            Some(id) => id,
            None => Seq::empty(),
        },
        Ty::Reference(inner) => ty_label_spec(*inner),
        Ty::Other => Seq::empty(),
    }
}

pub fn ty_label(t: &Ty) -> (r: String)
    ensures
        r@ == ty_label_spec(*t),
    decreases t,
{
    match t {
        Ty::Path(p) => match p.last_ident() {
            Some(id) => id.clone(),
            None => String::new(),
        },
        Ty::Reference(inner) => ty_label(inner),
        Ty::Other => String::new(),
    }
}

/// The expression is a method-call chain (looking through parentheses, references and
/// field bases) in which some call is named `name`.
pub open spec fn chain_contains(e: Expr, name: Seq<char>) -> bool
    decreases e,
{
    match e {
        Expr::MethodCall(m) => m.method@ == name || chain_contains(*m.receiver, name),
        Expr::Paren(x) => chain_contains(*x, name),
        Expr::Reference(x) => chain_contains(*x, name),
        Expr::Field { base, member } => chain_contains(*base, name),
        _ => false,
    }
}

pub fn receiver_chain_contains(e: &Expr, name: &str) -> (r: bool)
    ensures
        r == chain_contains(*e, name@),
    decreases e,
{
    match e {
        Expr::MethodCall(m) => str_eq(m.method.as_str(), name) || receiver_chain_contains(
            &m.receiver,
            name,
        ),
        Expr::Paren(x) => receiver_chain_contains(x, name),
        Expr::Reference(x) => receiver_chain_contains(x, name),
        Expr::Field { base, member } => receiver_chain_contains(base, name),
        _ => false,
    }
}

/// The name a pattern binds, looking through a type ascription.
pub open spec fn pat_ident_spec(p: Pat) -> Option<Seq<char>>
    decreases p,
{
    match p {
        Pat::Ident(s) => Some(s@),
        Pat::Typed(inner) => pat_ident_spec(*inner),
        Pat::Other => None,
    }
}

pub fn pat_ident_name(p: &Pat) -> (r: Option<&String>)
    ensures
        r matches Some(s) ==> pat_ident_spec(*p) == Some(s@),
        r is None ==> pat_ident_spec(*p) is None,
    decreases p,
{
    match p {
        Pat::Ident(s) => Some(s),
        Pat::Typed(inner) => pat_ident_name(inner),
        Pat::Other => None,
    }
}

/// The type names a path type whose last segment is `name`, looking through references.
pub open spec fn type_is_spec(t: Ty, name: Seq<char>) -> bool {
    ty_label_spec(t) == name && name.len() > 0
}

/// Names of the parameters among the first `n` whose type is `ty_name`.
pub open spec fn params_of_type(inputs: Seq<FnArg>, ty_name: Seq<char>) -> Seq<Seq<char>>
    decreases inputs.len(),
{
    if inputs.len() == 0 {
        Seq::empty()
    } else {
        let last = inputs.last();
        params_of_type(inputs.drop_last(), ty_name) + if type_is_spec(last.ty, ty_name) {
            match pat_ident_spec(last.pat) {
                Some(n) => seq![n],
                None => Seq::empty(),
            }
        } else {
            Seq::empty()
        }
    }
}

fn params_named_of_type(sig: &Signature, ty_name: &str) -> (r: Vec<String>)
    requires
        ty_name@.len() > 0,
    ensures
        views(r@) == params_of_type(sig.inputs@, ty_name@),
{
    let mut out: Vec<String> = Vec::new();
    let mut i: usize = 0;
    while i < sig.inputs.len()
        invariant
            0 <= i <= sig.inputs.len(),
            ty_name@.len() > 0,
            views(out@) == params_of_type(sig.inputs@.take(i as int), ty_name@),
        decreases sig.inputs.len() - i,
    {
        let arg = &sig.inputs[i];
        let tn = ty_label(&arg.ty);
        let ghost prev = out@;
        if str_eq(tn.as_str(), ty_name) {
            match pat_ident_name(&arg.pat) {
                Some(n) => out.push(n.clone()),
                None => {},
            }
        }
        assert(sig.inputs@.take(i + 1).drop_last() =~= sig.inputs@.take(i as int));
        assert(views(out@) =~= params_of_type(sig.inputs@.take(i + 1), ty_name@));
        i += 1;
    }
    assert(sig.inputs@.take(i as int) =~= sig.inputs@);
    out
}

/// Names of the parameters declared with type `Address` (or a reference to it).
pub fn address_param_names(sig: &Signature) -> (r: Vec<String>)
    ensures
        views(r@) == params_of_type(sig.inputs@, "Address"@),
{
    proof {
        reveal_strlit("Address");
    }
    params_named_of_type(sig, "Address")
}

/// The name of the first parameter declared with type `Env` (or a reference to it).
pub fn env_param_name(sig: &Signature) -> (r: Option<String>)
    ensures
        r matches Some(s) ==> params_of_type(sig.inputs@, "Env"@).len() > 0 && s@ == params_of_type(
            sig.inputs@,
            "Env"@,
        )[0],
        r is None ==> params_of_type(sig.inputs@, "Env"@).len() == 0,
{
    proof {
        reveal_strlit("Env");
    }
    let names = params_named_of_type(sig, "Env");
    if names.len() > 0 {
        assert(views(names@)[0] == names@[0]@);
        Some(names[0].clone())
    } else {
        None
    }
}

}
