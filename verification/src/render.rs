//! The signature renderer: pure functions from type expressions and item
//! declarations to canonical source-like text.
//!
//! Rendering is total over the modeled constructs; a deliberately unmodeled
//! construct fails loudly with an `UnsupportedConstruct` error carrying the
//! variant's tag, never by silently degrading to empty text. The failure is
//! per item: the rest of a document may still index.

use vstd::prelude::*;

use crate::error::DocError;
use crate::model::has_item;
use crate::model::item_of;
use crate::model::CrateCtxt;
use crate::model::Document;
use crate::model::EnumData;
use crate::model::GenericArgExpr;
use crate::model::GenericArgsExpr;
use crate::model::GenericBoundExpr;
use crate::model::FnDecl;
use crate::model::FnHeader;
use crate::model::FunctionData;
use crate::model::ImplData;
use crate::model::ItemData;
use crate::model::StructBody;
use crate::model::StructData;
use crate::model::TypeExpr;
use crate::model::UnionData;
use crate::model::VariantBody;
use crate::strutil::dec_spec;

verus! {

use vstd::std_specs::vec::vec_index;
use vstd::string::StrSliceExecFns;
use vstd::string::StringExecFns;

// ---------------------------------------------------------------------------
// Well-formedness: a type expression is renderable when no `Unsupported`
// variant occurs anywhere inside it.
// ---------------------------------------------------------------------------

pub open spec fn type_ok(t: TypeExpr) -> bool
    decreases t, 1int,
{
    match t {
        TypeExpr::Primitive { .. } => true,
        TypeExpr::Generic { .. } => true,
        TypeExpr::ResolvedPath { args, .. } => match args {
            Some(a) => args_ok(a),
            None => true,
        },
        TypeExpr::BorrowedRef { inner, .. } => type_ok(*inner),
        TypeExpr::RawPointer { inner, .. } => type_ok(*inner),
        TypeExpr::Slice { inner } => type_ok(*inner),
        TypeExpr::Array { inner, .. } => type_ok(*inner),
        TypeExpr::Tuple { items } => types_ok_from(items@, 0),
        TypeExpr::DynTrait { .. } => true,
        TypeExpr::ImplTrait { .. } => true,
        TypeExpr::FunctionPointer => true,
        TypeExpr::QualifiedPath { .. } => true,
        TypeExpr::Unsupported { .. } => false,
    }
}

pub open spec fn types_ok_from(ts: Seq<TypeExpr>, i: int) -> bool
    decreases ts, ts.len() - i,
{
    if 0 <= i < ts.len() {
        type_ok(ts[i]) && types_ok_from(ts, i + 1)
    } else {
        true
    }
}

pub open spec fn args_ok(a: GenericArgsExpr) -> bool
    decreases a, 1int,
{
    match a {
        GenericArgsExpr::AngleBracketed { args } => gargs_ok_from(args@, 0),
        GenericArgsExpr::Parenthesized { inputs, output } => types_ok_from(inputs@, 0)
            && match output {
            Some(o) => type_ok(*o),
            None => true,
        },
    }
}

pub open spec fn garg_ok(g: GenericArgExpr) -> bool
    decreases g, 1int,
{
    match g {
        GenericArgExpr::Lifetime { .. } => true,
        GenericArgExpr::Infer => true,
        GenericArgExpr::TypeArg { ty } => type_ok(ty),
        GenericArgExpr::ConstArg { ty, .. } => type_ok(ty),
    }
}

pub open spec fn gargs_ok_from(args: Seq<GenericArgExpr>, i: int) -> bool
    decreases args, args.len() - i,
{
    if 0 <= i < args.len() {
        garg_ok(args[i]) && gargs_ok_from(args, i + 1)
    } else {
        true
    }
}

/// An `Unsupported` variant carrying `tag` occurs somewhere inside `t`;
/// the tag a failed rendering reports is always such a variant's.
pub open spec fn type_has_tag(t: TypeExpr, tag: Seq<char>) -> bool
    decreases t, 1int,
{
    match t {
        TypeExpr::Unsupported { tag: tg } => tg@ == tag,
        TypeExpr::ResolvedPath { args, .. } => match args {
            Some(a) => args_has_tag(a, tag),
            None => false,
        },
        TypeExpr::BorrowedRef { inner, .. } => type_has_tag(*inner, tag),
        TypeExpr::RawPointer { inner, .. } => type_has_tag(*inner, tag),
        TypeExpr::Slice { inner } => type_has_tag(*inner, tag),
        TypeExpr::Array { inner, .. } => type_has_tag(*inner, tag),
        TypeExpr::Tuple { items } => types_has_tag_from(items@, 0, tag),
        _ => false,
    }
}

pub open spec fn types_has_tag_from(ts: Seq<TypeExpr>, i: int, tag: Seq<char>) -> bool
    decreases ts, ts.len() - i,
{
    if 0 <= i < ts.len() {
        type_has_tag(ts[i], tag) || types_has_tag_from(ts, i + 1, tag)
    } else {
        false
    }
}

pub open spec fn args_has_tag(a: GenericArgsExpr, tag: Seq<char>) -> bool
    decreases a, 1int,
{
    match a {
        GenericArgsExpr::AngleBracketed { args } => gargs_has_tag_from(args@, 0, tag),
        GenericArgsExpr::Parenthesized { inputs, output } => types_has_tag_from(inputs@, 0, tag)
            || match output {
            Some(o) => type_has_tag(*o, tag),
            None => false,
        },
    }
}

pub open spec fn garg_has_tag(g: GenericArgExpr, tag: Seq<char>) -> bool
    decreases g, 1int,
{
    match g {
        GenericArgExpr::TypeArg { ty } => type_has_tag(ty, tag),
        GenericArgExpr::ConstArg { ty, .. } => type_has_tag(ty, tag),
        _ => false,
    }
}

pub open spec fn gargs_has_tag_from(args: Seq<GenericArgExpr>, i: int, tag: Seq<char>) -> bool
    decreases args, args.len() - i,
{
    if 0 <= i < args.len() {
        garg_has_tag(args[i], tag) || gargs_has_tag_from(args, i + 1, tag)
    } else {
        false
    }
}

/// A receiver parameter never renders its type, so it never reports a tag.
pub open spec fn param_has_tag(p: (String, TypeExpr), tag: Seq<char>) -> bool {
    p.0@ != "self"@ && type_has_tag(p.1, tag)
}

pub open spec fn params_has_tag_from(ps: Seq<(String, TypeExpr)>, i: int, tag: Seq<char>) -> bool
    decreases ps.len() - i,
{
    if 0 <= i < ps.len() {
        param_has_tag(ps[i], tag) || params_has_tag_from(ps, i + 1, tag)
    } else {
        false
    }
}

pub open spec fn decl_has_tag(decl: FnDecl, tag: Seq<char>) -> bool {
    params_has_tag_from(decl.inputs@, 0, tag) || match decl.output {
        Some(o) => type_has_tag(o, tag),
        None => false,
    }
}

// ---------------------------------------------------------------------------
// Rendering specifications.
// ---------------------------------------------------------------------------

pub open spec fn render_type_spec(t: TypeExpr) -> Seq<char>
    decreases t, 1int,
{
    match t {
        TypeExpr::Primitive { name } => name@,
        TypeExpr::Generic { name } => name@,
        TypeExpr::ResolvedPath { name, args } => name@ + match args {
            Some(a) => render_args_spec(a),
            None => Seq::empty(),
        },
        TypeExpr::BorrowedRef { lifetime, mutable, inner } => "&"@ + match lifetime {
            Some(lt) => lt@,
            None => Seq::<char>::empty(),
        } + (if mutable {
            "mut "@
        } else {
            Seq::<char>::empty()
        }) + render_type_spec(*inner),
        TypeExpr::RawPointer { mutable, inner } => (if mutable {
            "*mut "@
        } else {
            "*const "@
        }) + render_type_spec(*inner),
        TypeExpr::Slice { inner } => "["@ + render_type_spec(*inner) + "]"@,
        TypeExpr::Array { inner, len } => "["@ + render_type_spec(*inner) + "; "@ + len@ + "]"@,
        TypeExpr::Tuple { items } => "("@ + render_type_list_from(items@, 0) + ")"@,
        TypeExpr::DynTrait { traits } => "dyn "@ + join_strs_from(traits@, 0, " + "@),
        TypeExpr::ImplTrait { bounds } => "impl "@ + render_bounds_from(bounds@, 0),
        TypeExpr::FunctionPointer => "fn()"@,
        TypeExpr::QualifiedPath { name } => name@,
        TypeExpr::Unsupported { .. } => Seq::empty(),
    }
}

/// The comma-joined rendering of `ts[i..]`.
pub open spec fn render_type_list_from(ts: Seq<TypeExpr>, i: int) -> Seq<char>
    decreases ts, ts.len() - i,
{
    if 0 <= i < ts.len() {
        if i == ts.len() - 1 {
            render_type_spec(ts[i])
        } else {
            render_type_spec(ts[i]) + ", "@ + render_type_list_from(ts, i + 1)
        }
    } else {
        Seq::empty()
    }
}

pub open spec fn render_args_spec(a: GenericArgsExpr) -> Seq<char>
    decreases a, 1int,
{
    match a {
        GenericArgsExpr::AngleBracketed { args } => if args@.len() == 0 {
            Seq::empty()
        } else {
            "<"@ + render_gargs_from(args@, 0) + ">"@
        },
        GenericArgsExpr::Parenthesized { inputs, output } => (if inputs@.len() == 0 {
            Seq::<char>::empty()
        } else {
            "("@ + render_type_list_from(inputs@, 0) + ")"@
        }) + match output {
            Some(o) => " -> "@ + render_type_spec(*o),
            None => Seq::<char>::empty(),
        },
    }
}

pub open spec fn render_garg_spec(g: GenericArgExpr) -> Seq<char>
    decreases g, 1int,
{
    match g {
        GenericArgExpr::Lifetime { name } => "'"@ + name@,
        GenericArgExpr::Infer => "_"@,
        GenericArgExpr::TypeArg { ty } => render_type_spec(ty),
        GenericArgExpr::ConstArg { expr, ty } => "const "@ + expr@ + ": "@ + render_type_spec(ty),
    }
}

/// The comma-joined rendering of `args[i..]`.
pub open spec fn render_gargs_from(args: Seq<GenericArgExpr>, i: int) -> Seq<char>
    decreases args, args.len() - i,
{
    if 0 <= i < args.len() {
        if i == args.len() - 1 {
            render_garg_spec(args[i])
        } else {
            render_garg_spec(args[i]) + ", "@ + render_gargs_from(args, i + 1)
        }
    } else {
        Seq::empty()
    }
}

/// `strs[i..]` joined by `sep`.
pub open spec fn join_strs_from(strs: Seq<String>, i: int, sep: Seq<char>) -> Seq<char>
    decreases strs.len() - i,
{
    if 0 <= i < strs.len() {
        if i == strs.len() - 1 {
            strs[i]@
        } else {
            strs[i]@ + sep + join_strs_from(strs, i + 1, sep)
        }
    } else {
        Seq::empty()
    }
}

pub open spec fn render_bound_spec(b: GenericBoundExpr) -> Seq<char> {
    match b {
        GenericBoundExpr::Outlives { lifetime } => "'"@ + lifetime@,
        GenericBoundExpr::TraitBound { name } => name@,
    }
}

/// The ` + `-joined rendering of `bs[i..]`.
pub open spec fn render_bounds_from(bs: Seq<GenericBoundExpr>, i: int) -> Seq<char>
    decreases bs.len() - i,
{
    if 0 <= i < bs.len() {
        if i == bs.len() - 1 {
            render_bound_spec(bs[i])
        } else {
            render_bound_spec(bs[i]) + " + "@ + render_bounds_from(bs, i + 1)
        }
    } else {
        Seq::empty()
    }
}

/// Angle-bracketed generic parameter names, or nothing when there are none.
pub open spec fn render_generics_spec(gs: Seq<String>) -> Seq<char> {
    if gs.len() == 0 {
        Seq::empty()
    } else {
        "<"@ + join_strs_from(gs, 0, ", "@) + ">"@
    }
}

/// The `async `/`const `/`unsafe ` modifier prefix.
pub open spec fn render_header_spec(h: FnHeader) -> Seq<char> {
    (if h.is_async {
        "async "@
    } else {
        Seq::<char>::empty()
    }) + (if h.is_const {
        "const "@
    } else {
        Seq::<char>::empty()
    }) + (if h.is_unsafe {
        "unsafe "@
    } else {
        Seq::<char>::empty()
    })
}

/// One rendered parameter; a receiver renders from its reference form alone.
pub open spec fn render_param_spec(p: (String, TypeExpr)) -> Seq<char> {
    if p.0@ == "self"@ {
        match p.1 {
            TypeExpr::BorrowedRef { mutable, .. } => if mutable {
                "&mut self"@
            } else {
                "&self"@
            },
            _ => "self"@,
        }
    } else {
        p.0@ + ": "@ + render_type_spec(p.1)
    }
}

pub open spec fn param_ok(p: (String, TypeExpr)) -> bool {
    p.0@ == "self"@ || type_ok(p.1)
}

pub open spec fn params_ok_from(ps: Seq<(String, TypeExpr)>, i: int) -> bool
    decreases ps.len() - i,
{
    if 0 <= i < ps.len() {
        param_ok(ps[i]) && params_ok_from(ps, i + 1)
    } else {
        true
    }
}

/// The comma-joined rendering of `ps[i..]`.
pub open spec fn render_params_from(ps: Seq<(String, TypeExpr)>, i: int) -> Seq<char>
    decreases ps.len() - i,
{
    if 0 <= i < ps.len() {
        if i == ps.len() - 1 {
            render_param_spec(ps[i])
        } else {
            render_param_spec(ps[i]) + ", "@ + render_params_from(ps, i + 1)
        }
    } else {
        Seq::empty()
    }
}

pub open spec fn decl_ok(decl: FnDecl) -> bool {
    params_ok_from(decl.inputs@, 0) && match decl.output {
        Some(o) => type_ok(o),
        None => true,
    }
}

/// The rendered parameter list (closing its parenthesis) and return type.
pub open spec fn render_decl_spec(decl: FnDecl) -> Seq<char> {
    render_params_from(decl.inputs@, 0) + ")"@ + match decl.output {
        Some(o) => " -> "@ + render_type_spec(o),
        None => Seq::<char>::empty(),
    }
}

pub open spec fn function_ok(f: FunctionData) -> bool {
    decl_ok(f.decl)
}

/// A full function signature: modifiers, name, generics, parameters, return.
pub open spec fn render_function_spec(f: FunctionData, name: Seq<char>) -> Seq<char> {
    render_header_spec(f.header) + "fn "@ + name + render_generics_spec(f.generics@) + "("@
        + render_decl_spec(f.decl)
}

// ---------------------------------------------------------------------------
// Executable rendering.
// ---------------------------------------------------------------------------

impl CrateCtxt {
    /// Renders a type expression, or fails naming the unmodeled variant.
    pub fn write_type(&self, t: &TypeExpr) -> (r: Result<String, DocError>)
        ensures
            r matches Ok(s) ==> type_ok(*t) && s@ == render_type_spec(*t),
            r is Err <==> !type_ok(*t),
            r matches Err(e) ==> e matches DocError::UnsupportedConstruct { tag } && type_has_tag(
                *t,
                tag@,
            ),
        decreases t, 2int,
    {
        match t {
            TypeExpr::Primitive { name } => Ok(name.clone()),
            TypeExpr::Generic { name } => Ok(name.clone()),
            TypeExpr::QualifiedPath { name } => Ok(name.clone()),
            TypeExpr::FunctionPointer => Ok(String::from_str("fn()")),
            TypeExpr::BorrowedRef { lifetime, mutable, inner } => {
                let mut out = String::from_str("&");
                match lifetime {
                    Some(lt) => out.append(lt.as_str()),
                    None => {},
                }
                if *mutable {
                    out.append("mut ");
                }
                let it = self.write_type(inner)?;
                out.append(it.as_str());
                proof {
                    assert(out@ =~= render_type_spec(*t));
                }
                Ok(out)
            },
            TypeExpr::RawPointer { mutable, inner } => {
                let mut out = if *mutable {
                    String::from_str("*mut ")
                } else {
                    String::from_str("*const ")
                };
                let it = self.write_type(inner)?;
                out.append(it.as_str());
                proof {
                    assert(out@ =~= render_type_spec(*t));
                }
                Ok(out)
            },
            TypeExpr::Slice { inner } => {
                let mut out = String::from_str("[");
                let it = self.write_type(inner)?;
                out.append(it.as_str());
                out.append("]");
                proof {
                    assert(out@ =~= render_type_spec(*t));
                }
                Ok(out)
            },
            TypeExpr::Array { inner, len } => {
                let mut out = String::from_str("[");
                let it = self.write_type(inner)?;
                out.append(it.as_str());
                out.append("; ");
                out.append(len.as_str());
                out.append("]");
                proof {
                    assert(out@ =~= render_type_spec(*t));
                }
                Ok(out)
            },
            TypeExpr::Tuple { items } => {
                let mut out = String::from_str("(");
                let list = self.write_type_list(items)?;
                out.append(list.as_str());
                out.append(")");
                proof {
                    assert(out@ =~= render_type_spec(*t));
                }
                Ok(out)
            },
            TypeExpr::DynTrait { traits } => {
                let mut out = String::from_str("dyn ");
                let list = join_strs(traits, " + ");
                out.append(list.as_str());
                proof {
                    assert(out@ =~= render_type_spec(*t));
                }
                Ok(out)
            },
            TypeExpr::ImplTrait { bounds } => {
                let mut out = String::from_str("impl ");
                let n = bounds.len();
                let mut j: usize = 0;
                while j < n
                    invariant
                        j <= n,
                        n == bounds@.len(),
                        out@ + render_bounds_from(bounds@, j as int) == "impl "@
                            + render_bounds_from(bounds@, 0),
                    decreases n - j,
                {
                    let b = vec_index(bounds, j);
                    match b {
                        GenericBoundExpr::Outlives { lifetime } => {
                            out.append("'");
                            out.append(lifetime.as_str());
                        },
                        GenericBoundExpr::TraitBound { name } => {
                            out.append(name.as_str());
                        },
                    }
                    if j < n - 1 {
                        out.append(" + ");
                    }
                    proof {
                        assert(out@ + render_bounds_from(bounds@, j + 1) =~= "impl "@
                            + render_bounds_from(bounds@, 0));
                    }
                    j += 1;
                }
                proof {
                    assert(out@ =~= render_type_spec(*t));
                }
                Ok(out)
            },
            TypeExpr::ResolvedPath { name, args } => {
                let mut out = name.clone();
                match args {
                    Some(a) => {
                        let rendered = self.write_generic_args(a)?;
                        out.append(rendered.as_str());
                    },
                    None => {},
                }
                proof {
                    assert(out@ =~= render_type_spec(*t));
                }
                Ok(out)
            },
            TypeExpr::Unsupported { tag } => Err(
                DocError::UnsupportedConstruct { tag: tag.clone() },
            ),
        }
    }

    /// Renders `items` joined by `, `.
    fn write_type_list(&self, items: &Vec<TypeExpr>) -> (r: Result<String, DocError>)
        ensures
            r matches Ok(s) ==> types_ok_from(items@, 0) && s@ == render_type_list_from(items@, 0),
            r is Err <==> !types_ok_from(items@, 0),
            r matches Err(e) ==> e matches DocError::UnsupportedConstruct { tag }
                && types_has_tag_from(items@, 0, tag@),
        decreases items@, 1int,
    {
        let mut out = String::new();
        let n = items.len();
        let mut j: usize = 0;
        while j < n
            invariant
                j <= n,
                n == items@.len(),
                forall|k: int| 0 <= k < j ==> type_ok(items@[k]),
                out@ + render_type_list_from(items@, j as int) == render_type_list_from(items@, 0),
            decreases n - j,
        {
            let it = match self.write_type(vec_index(items, j)) {
                Ok(s) => s,
                Err(e) => {
                    proof {
                        lemma_types_ok_from_bad(items@, j as int);
                        match &e {
                            DocError::UnsupportedConstruct { tag } => {
                                lemma_types_has_tag_chain(items@, j as int, tag@);
                            },
                            _ => {},
                        }
                    }
                    return Err(e);
                },
            };
            out.append(it.as_str());
            if j < n - 1 {
                out.append(", ");
            }
            proof {
                assert(out@ + render_type_list_from(items@, j + 1) =~= render_type_list_from(
                    items@,
                    0,
                ));
            }
            j += 1;
        }
        proof {
            lemma_types_ok_from_all(items@);
        }
        Ok(out)
    }

    /// Renders angle-bracketed or parenthesized generic arguments.
    fn write_generic_args(&self, a: &GenericArgsExpr) -> (r: Result<String, DocError>)
        ensures
            r matches Ok(s) ==> args_ok(*a) && s@ == render_args_spec(*a),
            r is Err <==> !args_ok(*a),
            r matches Err(e) ==> e matches DocError::UnsupportedConstruct { tag } && args_has_tag(
                *a,
                tag@,
            ),
        decreases a, 2int,
    {
        match a {
            GenericArgsExpr::AngleBracketed { args } => {
                if args.len() == 0 {
                    proof {
                        assert(render_args_spec(*a) =~= Seq::<char>::empty());
                    }
                    return Ok(String::new());
                }
                let mut out = String::from_str("<");
                let list = self.write_garg_list(args)?;
                out.append(list.as_str());
                out.append(">");
                proof {
                    assert(out@ =~= render_args_spec(*a));
                }
                Ok(out)
            },
            GenericArgsExpr::Parenthesized { inputs, output } => {
                let mut out = String::new();
                if inputs.len() > 0 {
                    out.append("(");
                    let list = self.write_type_list(inputs)?;
                    out.append(list.as_str());
                    out.append(")");
                }
                match output {
                    Some(o) => {
                        let it = match self.write_type(o) {
                            Ok(s) => s,
                            Err(e) => {
                                return Err(e);
                            },
                        };
                        out.append(" -> ");
                        out.append(it.as_str());
                    },
                    None => {},
                }
                proof {
                    assert(out@ =~= render_args_spec(*a));
                }
                Ok(out)
            },
        }
    }

    /// Renders one generic argument.
    fn write_garg(&self, g: &GenericArgExpr) -> (r: Result<String, DocError>)
        ensures
            r matches Ok(s) ==> garg_ok(*g) && s@ == render_garg_spec(*g),
            r is Err <==> !garg_ok(*g),
            r matches Err(e) ==> e matches DocError::UnsupportedConstruct { tag } && garg_has_tag(
                *g,
                tag@,
            ),
        decreases g, 2int,
    {
        match g {
            GenericArgExpr::Lifetime { name } => {
                let mut out = String::from_str("'");
                out.append(name.as_str());
                Ok(out)
            },
            GenericArgExpr::Infer => Ok(String::from_str("_")),
            GenericArgExpr::TypeArg { ty } => self.write_type(ty),
            GenericArgExpr::ConstArg { expr, ty } => {
                let mut out = String::from_str("const ");
                out.append(expr.as_str());
                out.append(": ");
                let it = self.write_type(ty)?;
                out.append(it.as_str());
                proof {
                    assert(out@ =~= render_garg_spec(*g));
                }
                Ok(out)
            },
        }
    }

    /// Renders generic arguments joined by `, `.
    fn write_garg_list(&self, args: &Vec<GenericArgExpr>) -> (r: Result<String, DocError>)
        ensures
            r matches Ok(s) ==> gargs_ok_from(args@, 0) && s@ == render_gargs_from(args@, 0),
            r is Err <==> !gargs_ok_from(args@, 0),
            r matches Err(e) ==> e matches DocError::UnsupportedConstruct { tag }
                && gargs_has_tag_from(args@, 0, tag@),
        decreases args@, 1int,
    {
        let mut out = String::new();
        let n = args.len();
        let mut j: usize = 0;
        while j < n
            invariant
                j <= n,
                n == args@.len(),
                forall|k: int| 0 <= k < j ==> garg_ok(args@[k]),
                out@ + render_gargs_from(args@, j as int) == render_gargs_from(args@, 0),
            decreases n - j,
        {
            let it = match self.write_garg(vec_index(args, j)) {
                Ok(s) => s,
                Err(e) => {
                    proof {
                        lemma_gargs_ok_from_bad(args@, j as int);
                        match &e {
                            DocError::UnsupportedConstruct { tag } => {
                                lemma_gargs_has_tag_chain(args@, j as int, tag@);
                            },
                            _ => {},
                        }
                    }
                    return Err(e);
                },
            };
            out.append(it.as_str());
            if j < n - 1 {
                out.append(", ");
            }
            proof {
                assert(out@ + render_gargs_from(args@, j + 1) =~= render_gargs_from(args@, 0));
            }
            j += 1;
        }
        proof {
            lemma_gargs_ok_from_all(args@);
        }
        Ok(out)
    }

    /// Renders the `async `/`const `/`unsafe ` modifier prefix.
    pub fn write_function_header(&self, header: &FnHeader) -> (r: String)
        ensures
            r@ == render_header_spec(*header),
    {
        let mut out = String::new();
        if header.is_async {
            out.append("async ");
        }
        if header.is_const {
            out.append("const ");
        }
        if header.is_unsafe {
            out.append("unsafe ");
        }
        proof {
            assert(out@ =~= render_header_spec(*header));
        }
        out
    }

    /// Renders angle-bracketed generic parameter names.
    pub fn write_generics(&self, generics: &Vec<String>) -> (r: String)
        ensures
            r@ == render_generics_spec(generics@),
    {
        if generics.len() == 0 {
            return String::new();
        }
        let mut out = String::from_str("<");
        let list = join_strs(generics, ", ");
        out.append(list.as_str());
        out.append(">");
        proof {
            assert(out@ =~= render_generics_spec(generics@));
        }
        out
    }

    /// Renders the parameter list (closing its parenthesis) and return type.
    pub fn write_function_decl(&self, decl: &FnDecl) -> (r: Result<String, DocError>)
        ensures
            r matches Ok(s) ==> decl_ok(*decl) && s@ == render_decl_spec(*decl),
            r is Err <==> !decl_ok(*decl),
            r matches Err(e) ==> e matches DocError::UnsupportedConstruct { tag } && decl_has_tag(
                *decl,
                tag@,
            ),
    {
        let mut out = String::new();
        let n = decl.inputs.len();
        let mut j: usize = 0;
        while j < n
            invariant
                j <= n,
                n == decl.inputs@.len(),
                forall|k: int| 0 <= k < j ==> param_ok(decl.inputs@[k]),
                out@ + render_params_from(decl.inputs@, j as int) == render_params_from(
                    decl.inputs@,
                    0,
                ),
            decreases n - j,
        {
            let p = vec_index(&decl.inputs, j);
            if crate::fuzzy::str_eq(p.0.as_str(), "self") {
                match &p.1 {
                    TypeExpr::BorrowedRef { mutable, .. } => {
                        if *mutable {
                            out.append("&mut self");
                        } else {
                            out.append("&self");
                        }
                    },
                    _ => {
                        out.append("self");
                    },
                }
            } else {
                out.append(p.0.as_str());
                out.append(": ");
                let it = match self.write_type(&p.1) {
                    Ok(s) => s,
                    Err(e) => {
                        proof {
                            lemma_params_ok_from_bad(decl.inputs@, j as int);
                            match &e {
                                DocError::UnsupportedConstruct { tag } => {
                                    lemma_params_has_tag_chain(decl.inputs@, j as int, tag@);
                                },
                                _ => {},
                            }
                        }
                        return Err(e);
                    },
                };
                out.append(it.as_str());
            }
            if j < n - 1 {
                out.append(", ");
            }
            proof {
                assert(out@ + render_params_from(decl.inputs@, j + 1) =~= render_params_from(
                    decl.inputs@,
                    0,
                ));
            }
            j += 1;
        }
        out.append(")");
        match &decl.output {
            Some(o) => {
                let it = self.write_type(o)?;
                out.append(" -> ");
                out.append(it.as_str());
            },
            None => {},
        }
        proof {
            lemma_params_ok_from_all(decl.inputs@);
            assert(out@ =~= render_decl_spec(*decl));
        }
        Ok(out)
    }

    /// Renders a full function signature.
    pub fn write_function(&self, f: &FunctionData, name: &str) -> (r: Result<String, DocError>)
        ensures
            r matches Ok(s) ==> function_ok(*f) && s@ == render_function_spec(*f, name@),
            r is Err <==> !function_ok(*f),
            r matches Err(e) ==> e matches DocError::UnsupportedConstruct { tag } && decl_has_tag(
                f.decl,
                tag@,
            ),
    {
        let mut out = self.write_function_header(&f.header);
        out.append("fn ");
        out.append(name);
        let gens = self.write_generics(&f.generics);
        out.append(gens.as_str());
        out.append("(");
        let decl = self.write_function_decl(&f.decl)?;
        out.append(decl.as_str());
        proof {
            assert(out@ =~= render_function_spec(*f, name@));
        }
        Ok(out)
    }
}

/// Joins the strings with the given separator.
pub fn join_strs(strs: &Vec<String>, sep_text: &str) -> (r: String)
    ensures
        r@ == join_strs_from(strs@, 0, sep_text@),
{
    let mut out = String::new();
    let n = strs.len();
    let mut j: usize = 0;
    while j < n
        invariant
            j <= n,
            n == strs@.len(),
            out@ + join_strs_from(strs@, j as int, sep_text@) == join_strs_from(
                strs@,
                0,
                sep_text@,
            ),
        decreases n - j,
    {
        out.append(vstd::std_specs::vec::vec_index(strs, j).as_str());
        if j < n - 1 {
            out.append(sep_text);
        }
        proof {
            assert(out@ + join_strs_from(strs@, j + 1, sep_text@) =~= join_strs_from(
                strs@,
                0,
                sep_text@,
            ));
        }
        j += 1;
    }
    out
}

// ---------------------------------------------------------------------------
// Small facts about the from-index predicates.
// ---------------------------------------------------------------------------

proof fn lemma_types_ok_from_bad(ts: Seq<TypeExpr>, j: int)
    requires
        0 <= j < ts.len(),
        !type_ok(ts[j]),
    ensures
        !types_ok_from(ts, 0),
{
    lemma_types_ok_chain(ts, 0, j);
}

proof fn lemma_types_ok_chain(ts: Seq<TypeExpr>, i: int, j: int)
    requires
        0 <= i <= j < ts.len(),
        !type_ok(ts[j]),
    ensures
        !types_ok_from(ts, i),
    decreases j - i,
{
    if i < j {
        lemma_types_ok_chain(ts, i + 1, j);
    }
}

proof fn lemma_types_ok_from_all(ts: Seq<TypeExpr>)
    requires
        forall|k: int| 0 <= k < ts.len() ==> type_ok(ts[k]),
    ensures
        types_ok_from(ts, 0),
{
    lemma_types_ok_from_all_at(ts, 0);
}

proof fn lemma_types_ok_from_all_at(ts: Seq<TypeExpr>, i: int)
    requires
        0 <= i,
        forall|k: int| i <= k < ts.len() ==> type_ok(ts[k]),
    ensures
        types_ok_from(ts, i),
    decreases ts.len() - i,
{
    if i < ts.len() {
        lemma_types_ok_from_all_at(ts, i + 1);
    }
}

proof fn lemma_gargs_ok_from_bad(args: Seq<GenericArgExpr>, j: int)
    requires
        0 <= j < args.len(),
        !garg_ok(args[j]),
    ensures
        !gargs_ok_from(args, 0),
{
    lemma_gargs_ok_chain(args, 0, j);
}

proof fn lemma_gargs_ok_chain(args: Seq<GenericArgExpr>, i: int, j: int)
    requires
        0 <= i <= j < args.len(),
        !garg_ok(args[j]),
    ensures
        !gargs_ok_from(args, i),
    decreases j - i,
{
    if i < j {
        lemma_gargs_ok_chain(args, i + 1, j);
    }
}

proof fn lemma_gargs_ok_from_all(args: Seq<GenericArgExpr>)
    requires
        forall|k: int| 0 <= k < args.len() ==> garg_ok(args[k]),
    ensures
        gargs_ok_from(args, 0),
{
    lemma_gargs_ok_all_at(args, 0);
}

proof fn lemma_gargs_ok_all_at(args: Seq<GenericArgExpr>, i: int)
    requires
        0 <= i,
        forall|k: int| i <= k < args.len() ==> garg_ok(args[k]),
    ensures
        gargs_ok_from(args, i),
    decreases args.len() - i,
{
    if i < args.len() {
        lemma_gargs_ok_all_at(args, i + 1);
    }
}

proof fn lemma_params_ok_from_bad(ps: Seq<(String, TypeExpr)>, j: int)
    requires
        0 <= j < ps.len(),
        !param_ok(ps[j]),
    ensures
        !params_ok_from(ps, 0),
{
    lemma_params_ok_chain(ps, 0, j);
}

proof fn lemma_params_ok_chain(ps: Seq<(String, TypeExpr)>, i: int, j: int)
    requires
        0 <= i <= j < ps.len(),
        !param_ok(ps[j]),
    ensures
        !params_ok_from(ps, i),
    decreases j - i,
{
    if i < j {
        lemma_params_ok_chain(ps, i + 1, j);
    }
}

proof fn lemma_params_ok_from_all(ps: Seq<(String, TypeExpr)>)
    requires
        forall|k: int| 0 <= k < ps.len() ==> param_ok(ps[k]),
    ensures
        params_ok_from(ps, 0),
{
    lemma_params_ok_all_at(ps, 0);
}

proof fn lemma_types_has_tag_chain(ts: Seq<TypeExpr>, j: int, tag: Seq<char>)
    requires
        0 <= j < ts.len(),
        type_has_tag(ts[j], tag),
    ensures
        types_has_tag_from(ts, 0, tag),
{
    lemma_types_has_tag_link(ts, 0, j, tag);
}

proof fn lemma_types_has_tag_link(ts: Seq<TypeExpr>, i: int, j: int, tag: Seq<char>)
    requires
        0 <= i <= j < ts.len(),
        type_has_tag(ts[j], tag),
    ensures
        types_has_tag_from(ts, i, tag),
    decreases j - i,
{
    if i < j {
        lemma_types_has_tag_link(ts, i + 1, j, tag);
    }
}

proof fn lemma_gargs_has_tag_chain(args: Seq<GenericArgExpr>, j: int, tag: Seq<char>)
    requires
        0 <= j < args.len(),
        garg_has_tag(args[j], tag),
    ensures
        gargs_has_tag_from(args, 0, tag),
{
    lemma_gargs_has_tag_link(args, 0, j, tag);
}

proof fn lemma_gargs_has_tag_link(args: Seq<GenericArgExpr>, i: int, j: int, tag: Seq<char>)
    requires
        0 <= i <= j < args.len(),
        garg_has_tag(args[j], tag),
    ensures
        gargs_has_tag_from(args, i, tag),
    decreases j - i,
{
    if i < j {
        lemma_gargs_has_tag_link(args, i + 1, j, tag);
    }
}

proof fn lemma_params_has_tag_chain(ps: Seq<(String, TypeExpr)>, j: int, tag: Seq<char>)
    requires
        0 <= j < ps.len(),
        param_has_tag(ps[j], tag),
    ensures
        params_has_tag_from(ps, 0, tag),
{
    lemma_params_has_tag_link(ps, 0, j, tag);
}

proof fn lemma_params_has_tag_link(ps: Seq<(String, TypeExpr)>, i: int, j: int, tag: Seq<char>)
    requires
        0 <= i <= j < ps.len(),
        param_has_tag(ps[j], tag),
    ensures
        params_has_tag_from(ps, i, tag),
    decreases j - i,
{
    if i < j {
        lemma_params_has_tag_link(ps, i + 1, j, tag);
    }
}

proof fn lemma_params_ok_all_at(ps: Seq<(String, TypeExpr)>, i: int)
    requires
        0 <= i,
        forall|k: int| i <= k < ps.len() ==> param_ok(ps[k]),
    ensures
        params_ok_from(ps, i),
    decreases ps.len() - i,
{
    if i < ps.len() {
        lemma_params_ok_all_at(ps, i + 1);
    }
}


// ---------------------------------------------------------------------------
// Struct, enum and impl-block rendering: these consult the document to
// resolve field, variant and member identifiers.
// ---------------------------------------------------------------------------

/// The type of the struct field at `id`.
pub open spec fn field_ty(doc: Document, id: int) -> TypeExpr {
    match item_of(doc, id).inner {
        ItemData::StructField(t) => t,
        _ => vstd::pervasive::arbitrary(),
    }
}

/// The display name of the item at `id`.
pub open spec fn name_of(doc: Document, id: int) -> Seq<char> {
    match item_of(doc, id).name {
        Some(n) => n@,
        None => Seq::empty(),
    }
}

/// `id` resolves to a named struct field with a renderable type.
pub open spec fn named_field_ok(doc: Document, id: int) -> bool {
    &&& has_item(doc, id)
    &&& item_of(doc, id).inner is StructField
    &&& item_of(doc, id).name is Some
    &&& type_ok(field_ty(doc, id))
}

/// `id` resolves to a struct field with a renderable type; no name required.
pub open spec fn unnamed_field_ok(doc: Document, id: int) -> bool {
    &&& has_item(doc, id)
    &&& item_of(doc, id).inner is StructField
    &&& type_ok(field_ty(doc, id))
}

pub open spec fn named_fields_ok(doc: Document, fields: Seq<usize>) -> bool {
    forall|i: int| 0 <= i < fields.len() ==> named_field_ok(doc, fields[i] as int)
}

/// One `name: type,` line per field, each behind `indent`.
pub open spec fn render_plain_fields_from(
    doc: Document,
    fields: Seq<usize>,
    i: int,
    indent: Seq<char>,
) -> Seq<char>
    decreases fields.len() - i,
{
    if 0 <= i < fields.len() {
        indent + name_of(doc, fields[i] as int) + ": "@ + render_type_spec(
            field_ty(doc, fields[i] as int),
        ) + ",\n"@ + render_plain_fields_from(doc, fields, i + 1, indent)
    } else {
        Seq::empty()
    }
}

/// Tuple-position fields are renderable; `named` additionally requires each
/// present field to carry a name.
pub open spec fn opt_fields_ok(doc: Document, fields: Seq<Option<usize>>, named: bool) -> bool {
    forall|i: int| 0 <= i < fields.len() ==> match #[trigger] fields[i] {
        Some(id) => if named {
            named_field_ok(doc, id as int)
        } else {
            unnamed_field_ok(doc, id as int)
        },
        None => true,
    }
}

/// The comma-joined tuple field types; an absent field renders as `_`.
pub open spec fn render_opt_fields_from(doc: Document, fields: Seq<Option<usize>>, i: int) -> Seq<
    char,
>
    decreases fields.len() - i,
{
    if 0 <= i < fields.len() {
        (match fields[i] {
            Some(id) => render_type_spec(field_ty(doc, id as int)),
            None => "_"@,
        }) + (if i == fields.len() - 1 {
            Seq::<char>::empty()
        } else {
            ", "@
        }) + render_opt_fields_from(doc, fields, i + 1)
    } else {
        Seq::empty()
    }
}

/// `id` resolves to a named variant whose fields are renderable.
pub open spec fn variant_ok(doc: Document, id: int) -> bool {
    &&& has_item(doc, id)
    &&& item_of(doc, id).inner is Variant
    &&& item_of(doc, id).name is Some
    &&& match item_of(doc, id).inner {
        ItemData::Variant(v) => match v.kind {
            VariantBody::Plain => true,
            VariantBody::Tuple { fields } => opt_fields_ok(doc, fields@, false),
            VariantBody::Struct { fields, .. } => named_fields_ok(doc, fields@),
        },
        _ => true,
    }
}

pub open spec fn variants_ok(doc: Document, ids: Seq<usize>) -> bool {
    forall|i: int| 0 <= i < ids.len() ==> variant_ok(doc, ids[i] as int)
}

/// The body of one variant, after its name.
pub open spec fn render_variant_body_spec(doc: Document, id: int) -> Seq<char> {
    match item_of(doc, id).inner {
        ItemData::Variant(v) => match v.kind {
            VariantBody::Plain => Seq::empty(),
            VariantBody::Tuple { fields } => "("@ + render_opt_fields_from(doc, fields@, 0)
                + ")"@,
            VariantBody::Struct { fields, .. } => " {\n"@ + render_plain_fields_from(
                doc,
                fields@,
                0,
                "    "@,
            ) + "  }"@,
        },
        _ => Seq::empty(),
    }
}

/// One `  Name<body>,` line per variant.
pub open spec fn render_variants_from(doc: Document, ids: Seq<usize>, i: int) -> Seq<char>
    decreases ids.len() - i,
{
    if 0 <= i < ids.len() {
        "  "@ + name_of(doc, ids[i] as int) + render_variant_body_spec(doc, ids[i] as int)
            + ",\n"@ + render_variants_from(doc, ids, i + 1)
    } else {
        Seq::empty()
    }
}

/// `id` resolves to an impl block.
pub open spec fn is_impl(doc: Document, id: int) -> bool {
    has_item(doc, id) && item_of(doc, id).inner is Impl
}

/// The impl payload at `id`.
pub open spec fn impl_of(doc: Document, id: int) -> ImplData {
    match item_of(doc, id).inner {
        ItemData::Impl(d) => d,
        _ => vstd::pervasive::arbitrary(),
    }
}

pub open spec fn impls_resolvable(doc: Document, impls: Seq<usize>) -> bool {
    forall|i: int| 0 <= i < impls.len() ==> is_impl(doc, impls[i] as int)
}

/// The member count of the first `j` impl blocks, trait impls included.
pub open spec fn total_impl_items_prefix(doc: Document, impls: Seq<usize>, j: int) -> int
    decreases j,
{
    if 0 < j <= impls.len() {
        total_impl_items_prefix(doc, impls, j - 1) + impl_of(
            doc,
            impls[j - 1] as int,
        ).items@.len()
    } else {
        0
    }
}

/// A count clamped to what a machine word holds.
pub open spec fn sat_usize(n: int) -> int {
    if n > usize::MAX {
        usize::MAX as int
    } else {
        n
    }
}

/// The member identifiers of the inherent (non-trait) impls among
/// `impls[i..]`, in declaration order.
pub open spec fn inherent_items_from(doc: Document, impls: Seq<usize>, i: int) -> Seq<usize>
    decreases impls.len() - i,
{
    if 0 <= i < impls.len() {
        (if impl_of(doc, impls[i] as int).trait_name is None {
            impl_of(doc, impls[i] as int).items@
        } else {
            Seq::empty()
        }) + inherent_items_from(doc, impls, i + 1)
    } else {
        Seq::empty()
    }
}

/// The inherent member list, capped at the fixed maximum of 10.
pub open spec fn capped_members(doc: Document, impls: Seq<usize>) -> Seq<usize> {
    let all = inherent_items_from(doc, impls, 0);
    if all.len() <= 10 {
        all
    } else {
        all.take(10)
    }
}

/// `id` can stand in a rendered impl body: functions and associated
/// constants need a name and renderable types; other kinds are skipped.
pub open spec fn member_ok(doc: Document, id: int) -> bool {
    &&& has_item(doc, id)
    &&& match item_of(doc, id).inner {
        ItemData::Function(f) => item_of(doc, id).name is Some && function_ok(f),
        ItemData::AssocConst { ty, .. } => item_of(doc, id).name is Some && type_ok(ty),
        _ => true,
    }
}

pub open spec fn members_ok(doc: Document, ids: Seq<usize>) -> bool {
    forall|i: int| 0 <= i < ids.len() ==> member_ok(doc, ids[i] as int)
}

/// One rendered impl member; kinds other than functions and associated
/// constants contribute nothing.
pub open spec fn render_member_spec(doc: Document, id: int) -> Seq<char> {
    match item_of(doc, id).inner {
        ItemData::Function(f) => "  "@ + render_function_spec(f, name_of(doc, id)) + ";\n"@,
        ItemData::AssocConst { ty, default } => "const "@ + name_of(doc, id) + ": "@
            + render_type_spec(ty) + match default {
            Some(d) => " = "@ + d@,
            None => Seq::<char>::empty(),
        },
        _ => Seq::empty(),
    }
}

pub open spec fn render_members_from(doc: Document, ids: Seq<usize>, i: int) -> Seq<char>
    decreases ids.len() - i,
{
    if 0 <= i < ids.len() {
        render_member_spec(doc, ids[i] as int) + render_members_from(doc, ids, i + 1)
    } else {
        Seq::empty()
    }
}

/// Universally-derived or blanket conversion traits, excluded from the
/// rendered trait list.
pub open spec fn is_blanket_trait(n: Seq<char>) -> bool {
    ||| n == "Any"@
    ||| n == "Borrow"@
    ||| n == "BorrowMut"@
    ||| n == "From"@
    ||| n == "Into"@
    ||| n == "ToOwned"@
    ||| n == "TryFrom"@
    ||| n == "TryInto"@
}

/// Auto marker traits, listed after all other trait impls.
pub open spec fn is_auto_trait(n: Seq<char>) -> bool {
    ||| n == "RefUnwindSafe"@
    ||| n == "Send"@
    ||| n == "Sync"@
    ||| n == "Unpin"@
    ||| n == "UnwindSafe"@
}

/// The names of the implemented traits among `impls[i..]`, with the blanket
/// deny-list excluded.
pub open spec fn trait_names_from(doc: Document, impls: Seq<usize>, i: int) -> Seq<Seq<char>>
    decreases impls.len() - i,
{
    if 0 <= i < impls.len() {
        (match impl_of(doc, impls[i] as int).trait_name {
            Some(t) => if is_blanket_trait(t@) {
                Seq::empty()
            } else {
                seq![t@]
            },
            None => Seq::<Seq<char>>::empty(),
        }) + trait_names_from(doc, impls, i + 1)
    } else {
        Seq::empty()
    }
}

/// The names among `names[i..]` whose auto-trait status equals `want`.
pub open spec fn auto_filtered_from(names: Seq<Seq<char>>, want: bool, i: int) -> Seq<Seq<char>>
    decreases names.len() - i,
{
    if 0 <= i < names.len() {
        (if is_auto_trait(names[i]) == want {
            seq![names[i]]
        } else {
            Seq::<Seq<char>>::empty()
        }) + auto_filtered_from(names, want, i + 1)
    } else {
        Seq::empty()
    }
}

/// The rendered trait list: inherent-adjacent traits first, auto traits
/// last, capped at the fixed maximum of 10.
pub open spec fn capped_traits(doc: Document, impls: Seq<usize>) -> Seq<Seq<char>> {
    let names = trait_names_from(doc, impls, 0);
    let ordered = auto_filtered_from(names, false, 0) + auto_filtered_from(names, true, 0);
    if ordered.len() <= 10 {
        ordered
    } else {
        ordered.take(10)
    }
}

/// The short hint naming the operator an operator-overload trait backs.
pub open spec fn hint_spec(n: Seq<char>) -> Option<Seq<char>> {
    if n == "Try"@ { Some("// the `?` operator"@) }
    else if n == "PartialEq"@ { Some("// the `==` operator"@) }
    else if n == "PartialOrd"@ { Some("// the `<`, `<=`, `>` and `>=` operators"@) }
    else if n == "Add"@ { Some("// the `+` operator"@) }
    else if n == "AddAssign"@ { Some("// the `+=` operator"@) }
    else if n == "BitAnd"@ { Some("// the `&` operator"@) }
    else if n == "BitAndAssign"@ { Some("// the `&=` operator"@) }
    else if n == "BitOr"@ { Some("// the `|` operator"@) }
    else if n == "BitOrAssign"@ { Some("// the `|=` operator"@) }
    else if n == "BitXor"@ { Some("// the `^` operator"@) }
    else if n == "BitXorAssign"@ { Some("// the `^=` operator"@) }
    else if n == "Deref"@ { Some("// code that is run on dereference (`*`) "@) }
    else if n == "DerefMut"@ { Some("// code that is run on mut dereference (`*`) "@) }
    else if n == "Div"@ { Some("// the `/` operator"@) }
    else if n == "DivAssign"@ { Some("// the `/=` operator"@) }
    else if n == "Drop"@ { Some("// code that is run when type is dropped"@) }
    else if n == "Fn"@ { Some("// the call operator that takes immutable env"@) }
    else if n == "FnMut"@ { Some("// the call operator that takes mutable env"@) }
    else if n == "FnOnce"@ { Some("// the call operator that takes by-value env"@) }
    else if n == "Index"@ { Some("// the indexing operator `[]` in immutable contexts"@) }
    else if n == "IndexMut"@ { Some("// the indexing operator `[]` in mutable contexts"@) }
    else if n == "Mul"@ { Some("// the `*` operator for multiplication"@) }
    else if n == "MulAssign"@ { Some("// the `*=` operator for multiplication"@) }
    else if n == "Neg"@ { Some("// the unary negation operator `-`"@) }
    else if n == "Not"@ { Some("// the unary logical negation operator `!`"@) }
    else if n == "Rem"@ { Some("// the remainder operator `%`"@) }
    else if n == "RemAssign"@ { Some("// the remainder assignment operator `%=`"@) }
    else if n == "Shl"@ { Some("// the left shift operator `<<`"@) }
    else if n == "ShlAssign"@ { Some("// the left shift assignment operator `<<=`"@) }
    else if n == "Shr"@ { Some("// the right shift operator `>>`"@) }
    else if n == "ShrAssign"@ { Some("// the right shift assignment operator `>>=`"@) }
    else if n == "Sub"@ { Some("// the `-` operator for subtraction"@) }
    else if n == "SubAssign"@ { Some("// the `-=` operator for subtraction"@) }
    else { None }
}

/// One rendered empty trait impl per listed name, with its operator hint.
pub open spec fn render_trait_impls_from(
    names: Seq<Seq<char>>,
    item_name: Seq<char>,
    i: int,
) -> Seq<char>
    decreases names.len() - i,
{
    if 0 <= i < names.len() {
        "\nimpl "@ + names[i] + " for "@ + item_name + " {} "@ + (match hint_spec(names[i]) {
            Some(h) => h,
            None => Seq::<char>::empty(),
        }) + render_trait_impls_from(names, item_name, i + 1)
    } else {
        Seq::empty()
    }
}

/// Every impl identifier resolves and every capped inherent member renders.
pub open spec fn impls_ok(doc: Document, impls: Seq<usize>) -> bool {
    impls_resolvable(doc, impls) && members_ok(doc, capped_members(doc, impls))
}

/// Some listed field's type carries an `Unsupported` variant with `tag`.
pub open spec fn fields_has_tag(doc: Document, fields: Seq<usize>, tag: Seq<char>) -> bool {
    exists|k: int|
        0 <= k < fields.len() && type_has_tag(field_ty(doc, (#[trigger] fields[k]) as int), tag)
}

/// Some present tuple-position field's type carries an `Unsupported`
/// variant with `tag`.
pub open spec fn opt_fields_has_tag(
    doc: Document,
    fields: Seq<Option<usize>>,
    tag: Seq<char>,
) -> bool {
    exists|k: int|
        0 <= k < fields.len() && match #[trigger] fields[k] {
            Some(id) => type_has_tag(field_ty(doc, id as int), tag),
            None => false,
        }
}

/// The variant's fields carry an `Unsupported` variant with `tag`.
pub open spec fn variant_has_tag(doc: Document, id: int, tag: Seq<char>) -> bool {
    match item_of(doc, id).inner {
        ItemData::Variant(v) => match v.kind {
            VariantBody::Plain => false,
            VariantBody::Tuple { fields } => opt_fields_has_tag(doc, fields@, tag),
            VariantBody::Struct { fields, .. } => fields_has_tag(doc, fields@, tag),
        },
        _ => false,
    }
}

pub open spec fn variants_has_tag(doc: Document, ids: Seq<usize>, tag: Seq<char>) -> bool {
    exists|k: int| 0 <= k < ids.len() && variant_has_tag(doc, (#[trigger] ids[k]) as int, tag)
}

/// The member's signature carries an `Unsupported` variant with `tag`.
pub open spec fn member_has_tag(doc: Document, id: int, tag: Seq<char>) -> bool {
    match item_of(doc, id).inner {
        ItemData::Function(f) => decl_has_tag(f.decl, tag),
        ItemData::AssocConst { ty, .. } => type_has_tag(ty, tag),
        _ => false,
    }
}

pub open spec fn members_has_tag(doc: Document, ids: Seq<usize>, tag: Seq<char>) -> bool {
    exists|k: int| 0 <= k < ids.len() && member_has_tag(doc, (#[trigger] ids[k]) as int, tag)
}

/// Some rendered (capped) impl member carries an `Unsupported` variant
/// with `tag`.
pub open spec fn impls_has_tag(doc: Document, impls: Seq<usize>, tag: Seq<char>) -> bool {
    members_has_tag(doc, capped_members(doc, impls), tag)
}

pub open spec fn struct_has_tag(doc: Document, st: StructData, tag: Seq<char>) -> bool {
    match st.kind {
        StructBody::Plain { fields, .. } => fields_has_tag(doc, fields@, tag) || impls_has_tag(
            doc,
            st.impls@,
            tag,
        ),
        StructBody::Unit => false,
        StructBody::Tuple { fields } => opt_fields_has_tag(doc, fields@, tag),
    }
}

pub open spec fn enum_has_tag(doc: Document, e: EnumData, tag: Seq<char>) -> bool {
    variants_has_tag(doc, e.variants@, tag) || impls_has_tag(doc, e.impls@, tag)
}

pub open spec fn union_has_tag(doc: Document, u: UnionData, tag: Seq<char>) -> bool {
    fields_has_tag(doc, u.fields@, tag) || impls_has_tag(doc, u.impls@, tag)
}

/// The synthetic `impl TypeName { ... }` block: capped inherent members, a
/// `N more items` marker when members were cut, then the capped trait list.
pub open spec fn render_impls_spec(doc: Document, impls: Seq<usize>, item_name: Seq<char>) -> Seq<
    char,
> {
    let total = sat_usize(total_impl_items_prefix(doc, impls, impls.len() as int));
    "impl "@ + item_name + " {\n"@ + render_members_from(doc, capped_members(doc, impls), 0) + (
    if total > 10 {
        "  // "@ + dec_spec(total - 10) + " more items\n"@
    } else {
        Seq::<char>::empty()
    }) + "}"@ + render_trait_impls_from(capped_traits(doc, impls), item_name, 0)
}

/// The struct's fields and, for a record-style body, its impl block render.
pub open spec fn struct_ok(doc: Document, s: StructData) -> bool {
    match s.kind {
        StructBody::Plain { fields, .. } => named_fields_ok(doc, fields@) && impls_ok(
            doc,
            s.impls@,
        ),
        StructBody::Unit => true,
        StructBody::Tuple { fields } => opt_fields_ok(doc, fields@, true),
    }
}

/// A struct declaration: keyword, name, generics and body; a record-style
/// body is followed by the synthetic impl block.
pub open spec fn render_struct_spec(doc: Document, s: StructData, name: Seq<char>) -> Seq<char> {
    "struct "@ + name + render_generics_spec(s.generics@) + match s.kind {
        StructBody::Plain { fields, fields_stripped } => " {\n"@ + render_plain_fields_from(
            doc,
            fields@,
            0,
            "  "@,
        ) + (if fields_stripped {
            "  // private fields omitted\n"@
        } else {
            Seq::<char>::empty()
        }) + "}\n"@ + render_impls_spec(doc, s.impls@, name),
        StructBody::Unit => ";"@,
        StructBody::Tuple { fields } => "("@ + render_opt_fields_from(doc, fields@, 0) + ")"@,
    }
}

/// The enum's variants and impl block render.
pub open spec fn enum_ok(doc: Document, e: EnumData) -> bool {
    variants_ok(doc, e.variants@) && impls_ok(doc, e.impls@)
}

/// An enum declaration: keyword, name, generics, the variant list, then the
/// synthetic impl block.
pub open spec fn render_enum_spec(doc: Document, e: EnumData, name: Seq<char>) -> Seq<char> {
    "enum "@ + name + render_generics_spec(e.generics@) + " {\n"@ + render_variants_from(
        doc,
        e.variants@,
        0,
    ) + "}\n"@ + render_impls_spec(doc, e.impls@, name)
}

/// The union's fields and impl block render.
pub open spec fn union_ok(doc: Document, u: UnionData) -> bool {
    named_fields_ok(doc, u.fields@) && impls_ok(doc, u.impls@)
}

/// A union declaration: keyword, name, generics, the field list, then the
/// synthetic impl block.
pub open spec fn render_union_spec(doc: Document, u: UnionData, name: Seq<char>) -> Seq<char> {
    "union "@ + name + render_generics_spec(u.generics@) + " {\n"@ + render_plain_fields_from(
        doc,
        u.fields@,
        0,
        "  "@,
    ) + (if u.fields_stripped {
        "  // private fields omitted\n"@
    } else {
        Seq::<char>::empty()
    }) + "}\n"@ + render_impls_spec(doc, u.impls@, name)
}


/// The character sequences of a list of strings.
pub open spec fn views_of_strs(v: Seq<String>) -> Seq<Seq<char>> {
    v.map_values(|s: String| s@)
}

impl CrateCtxt {
    /// Renders one `name: type,` line per field, behind `indent`.
    fn write_plain_fields(&self, fields: &Vec<usize>, indent: &str) -> (r: Result<
        String,
        DocError,
    >)
        ensures
            r matches Ok(s) ==> named_fields_ok(self.krate, fields@) && s@
                == render_plain_fields_from(self.krate, fields@, 0, indent@),
            r is Err <==> !named_fields_ok(self.krate, fields@),
            r matches Err(DocError::UnsupportedConstruct { tag }) ==> fields_has_tag(
                self.krate,
                fields@,
                tag@,
            ),
    {
        let mut out = String::new();
        let n = fields.len();
        let mut j: usize = 0;
        while j < n
            invariant
                j <= n,
                n == fields@.len(),
                forall|k: int| 0 <= k < j ==> named_field_ok(self.krate, fields@[k] as int),
                out@ + render_plain_fields_from(self.krate, fields@, j as int, indent@)
                    == render_plain_fields_from(self.krate, fields@, 0, indent@),
            decreases n - j,
        {
            let id = fields[j];
            let (_, ty, fname) = match self.expect_struct_field(id) {
                Ok(t) => t,
                Err(e) => {
                    return Err(e);
                },
            };
            let tyr = match self.write_type(ty) {
                Ok(s) => s,
                Err(e) => {
                    proof {
                        match &e {
                            DocError::UnsupportedConstruct { tag } => {
                                assert(type_has_tag(
                                    field_ty(self.krate, (fields@[j as int]) as int),
                                    tag@,
                                ));
                            },
                            _ => {},
                        }
                    }
                    return Err(e);
                },
            };
            out.append(indent);
            out.append(fname);
            out.append(": ");
            out.append(tyr.as_str());
            out.append(",\n");
            proof {
                assert(out@ + render_plain_fields_from(self.krate, fields@, j + 1, indent@)
                    =~= render_plain_fields_from(self.krate, fields@, 0, indent@));
            }
            j += 1;
        }
        Ok(out)
    }

    /// Renders the comma-joined tuple field types; an absent field renders
    /// as `_`. With `require_names`, each present field must carry a name.
    fn write_opt_fields(&self, fields: &Vec<Option<usize>>, require_names: bool) -> (r: Result<
        String,
        DocError,
    >)
        ensures
            r matches Ok(s) ==> opt_fields_ok(self.krate, fields@, require_names) && s@
                == render_opt_fields_from(self.krate, fields@, 0),
            r is Err <==> !opt_fields_ok(self.krate, fields@, require_names),
            r matches Err(DocError::UnsupportedConstruct { tag }) ==> opt_fields_has_tag(
                self.krate,
                fields@,
                tag@,
            ),
    {
        let mut out = String::new();
        let n = fields.len();
        let mut j: usize = 0;
        while j < n
            invariant
                j <= n,
                n == fields@.len(),
                forall|k: int| 0 <= k < j ==> match #[trigger] fields@[k] {
                    Some(id) => if require_names {
                        named_field_ok(self.krate, id as int)
                    } else {
                        unnamed_field_ok(self.krate, id as int)
                    },
                    None => true,
                },
                out@ + render_opt_fields_from(self.krate, fields@, j as int)
                    == render_opt_fields_from(self.krate, fields@, 0),
            decreases n - j,
        {
            match fields[j] {
                Some(id) => {
                    let ty = if require_names {
                        let (_, ty, _) = match self.expect_struct_field(id) {
                            Ok(t) => t,
                            Err(e) => {
                                return Err(e);
                            },
                        };
                        ty
                    } else {
                        let (_, ty) = match self.expect_unnamed_struct_field(id) {
                            Ok(t) => t,
                            Err(e) => {
                                return Err(e);
                            },
                        };
                        ty
                    };
                    let tyr = match self.write_type(ty) {
                        Ok(s) => s,
                        Err(e) => {
                            proof {
                                match &e {
                                    DocError::UnsupportedConstruct { tag } => {
                                        assert(fields@[j as int] matches Some(fid)
                                            && type_has_tag(
                                            field_ty(self.krate, fid as int),
                                            tag@,
                                        ));
                                    },
                                    _ => {},
                                }
                            }
                            return Err(e);
                        },
                    };
                    out.append(tyr.as_str());
                },
                None => {
                    out.append("_");
                },
            }
            if j < n - 1 {
                out.append(", ");
            }
            proof {
                assert(out@ + render_opt_fields_from(self.krate, fields@, j + 1)
                    =~= render_opt_fields_from(self.krate, fields@, 0));
            }
            j += 1;
        }
        Ok(out)
    }

    /// Renders one `  Name<body>,` line per variant.
    fn write_variants(&self, ids: &Vec<usize>) -> (r: Result<String, DocError>)
        ensures
            r matches Ok(s) ==> variants_ok(self.krate, ids@) && s@ == render_variants_from(
                self.krate,
                ids@,
                0,
            ),
            r is Err <==> !variants_ok(self.krate, ids@),
            r matches Err(DocError::UnsupportedConstruct { tag }) ==> variants_has_tag(
                self.krate,
                ids@,
                tag@,
            ),
    {
        let mut out = String::new();
        let n = ids.len();
        let mut j: usize = 0;
        while j < n
            invariant
                j <= n,
                n == ids@.len(),
                forall|k: int| 0 <= k < j ==> variant_ok(self.krate, ids@[k] as int),
                out@ + render_variants_from(self.krate, ids@, j as int) == render_variants_from(
                    self.krate,
                    ids@,
                    0,
                ),
            decreases n - j,
        {
            let id = ids[j];
            let (_, v, vname) = match self.expect_variant(id) {
                Ok(t) => t,
                Err(e) => {
                    return Err(e);
                },
            };
            out.append("  ");
            out.append(vname);
            match &v.kind {
                VariantBody::Plain => {},
                VariantBody::Tuple { fields } => {
                    let fl = match self.write_opt_fields(fields, false) {
                        Ok(s) => s,
                        Err(e) => {
                            return Err(e);
                        },
                    };
                    out.append("(");
                    out.append(fl.as_str());
                    out.append(")");
                },
                VariantBody::Struct { fields, .. } => {
                    let fl = match self.write_plain_fields(fields, "    ") {
                        Ok(s) => s,
                        Err(e) => {
                            return Err(e);
                        },
                    };
                    out.append(" {\n");
                    out.append(fl.as_str());
                    out.append("  }");
                },
            }
            out.append(",\n");
            proof {
                assert(out@ + render_variants_from(self.krate, ids@, j + 1)
                    =~= render_variants_from(self.krate, ids@, 0));
            }
            j += 1;
        }
        Ok(out)
    }

    /// Walks the impl blocks once, counting every member and collecting the
    /// inherent members in order.
    fn collect_impl_members(&self, impls: &Vec<usize>) -> (r: Result<(Vec<usize>, usize), DocError>)
        ensures
            r matches Ok((ids, total)) ==> {
                &&& impls_resolvable(self.krate, impls@)
                &&& ids@ == inherent_items_from(self.krate, impls@, 0)
                &&& total as int == sat_usize(
                    total_impl_items_prefix(self.krate, impls@, impls@.len() as int),
                )
            },
            r is Err <==> !impls_resolvable(self.krate, impls@),
            r matches Err(e) ==> !(e is UnsupportedConstruct),
    {
        let mut member_ids: Vec<usize> = Vec::new();
        let mut total: usize = 0;
        let n = impls.len();
        let mut j: usize = 0;
        while j < n
            invariant
                j <= n,
                n == impls@.len(),
                forall|k: int| 0 <= k < j ==> is_impl(self.krate, impls@[k] as int),
                total as int == sat_usize(total_impl_items_prefix(self.krate, impls@, j as int)),
                member_ids@ + inherent_items_from(self.krate, impls@, j as int)
                    == inherent_items_from(self.krate, impls@, 0),
            decreases n - j,
        {
            let id = impls[j];
            let (_, im) = match self.expect_impl(id) {
                Ok(t) => t,
                Err(e) => {
                    return Err(e);
                },
            };
            let cnt = im.items.len();
            total = if total > usize::MAX - cnt {
                usize::MAX
            } else {
                total + cnt
            };
            if im.trait_name.is_none() {
                member_ids.extend_from_slice(im.items.as_slice());
            }
            proof {
                assert(member_ids@ + inherent_items_from(self.krate, impls@, j + 1)
                    =~= inherent_items_from(self.krate, impls@, 0));
            }
            j += 1;
        }
        Ok((member_ids, total))
    }

    /// Renders the impl members in order.
    fn write_members(&self, ids: &Vec<usize>) -> (r: Result<String, DocError>)
        ensures
            r matches Ok(s) ==> members_ok(self.krate, ids@) && s@ == render_members_from(
                self.krate,
                ids@,
                0,
            ),
            r is Err <==> !members_ok(self.krate, ids@),
            r matches Err(DocError::UnsupportedConstruct { tag }) ==> members_has_tag(
                self.krate,
                ids@,
                tag@,
            ),
    {
        let mut out = String::new();
        let n = ids.len();
        let mut j: usize = 0;
        while j < n
            invariant
                j <= n,
                n == ids@.len(),
                forall|k: int| 0 <= k < j ==> member_ok(self.krate, ids@[k] as int),
                out@ + render_members_from(self.krate, ids@, j as int) == render_members_from(
                    self.krate,
                    ids@,
                    0,
                ),
            decreases n - j,
        {
            let id = ids[j];
            let item = match self.item(id) {
                Ok(it) => it,
                Err(e) => {
                    return Err(e);
                },
            };
            match &item.inner {
                ItemData::Function(f) => {
                    let fname = match &item.name {
                        Some(nm) => nm,
                        None => {
                            return Err(DocError::MissingName { id });
                        },
                    };
                    let fr = match self.write_function(f, fname.as_str()) {
                        Ok(s) => s,
                        Err(e) => {
                            return Err(e);
                        },
                    };
                    out.append("  ");
                    out.append(fr.as_str());
                    out.append(";\n");
                },
                ItemData::AssocConst { ty, default } => {
                    let cname = match &item.name {
                        Some(nm) => nm,
                        None => {
                            return Err(DocError::MissingName { id });
                        },
                    };
                    let tyr = match self.write_type(ty) {
                        Ok(s) => s,
                        Err(e) => {
                            return Err(e);
                        },
                    };
                    out.append("const ");
                    out.append(cname.as_str());
                    out.append(": ");
                    out.append(tyr.as_str());
                    match default {
                        Some(d) => {
                            out.append(" = ");
                            out.append(d.as_str());
                        },
                        None => {},
                    }
                },
                _ => {},
            }
            proof {
                assert(out@ + render_members_from(self.krate, ids@, j + 1) =~= render_members_from(
                    self.krate,
                    ids@,
                    0,
                ));
            }
            j += 1;
        }
        Ok(out)
    }

    /// Collects the implemented traits' names, with the blanket deny-list
    /// excluded.
    fn collect_trait_names(&self, impls: &Vec<usize>) -> (r: Vec<String>)
        requires
            impls_resolvable(self.krate, impls@),
        ensures
            views_of_strs(r@) == trait_names_from(self.krate, impls@, 0),
    {
        let mut names: Vec<String> = Vec::new();
        let n = impls.len();
        let mut j: usize = 0;
        while j < n
            invariant
                j <= n,
                n == impls@.len(),
                impls_resolvable(self.krate, impls@),
                views_of_strs(names@) + trait_names_from(self.krate, impls@, j as int)
                    == trait_names_from(self.krate, impls@, 0),
            decreases n - j,
        {
            let id = impls[j];
            let (_, im) = match self.expect_impl(id) {
                Ok(t) => t,
                Err(_) => {
                    proof {
                        assert(false);
                    }
                    return Vec::new();
                },
            };
            match &im.trait_name {
                Some(t) => {
                    if !is_blanket_exec(t.as_str()) {
                        names.push(t.clone());
                    }
                },
                None => {},
            }
            proof {
                assert(views_of_strs(names@) + trait_names_from(self.krate, impls@, j + 1)
                    =~= trait_names_from(self.krate, impls@, 0));
            }
            j += 1;
        }
        names
    }

    /// Renders one empty trait impl per listed name, with its operator hint.
    fn write_trait_list(&self, names: &Vec<String>, item_name: &str) -> (r: String)
        ensures
            r@ == render_trait_impls_from(views_of_strs(names@), item_name@, 0),
    {
        let mut out = String::new();
        let n = names.len();
        let mut j: usize = 0;
        while j < n
            invariant
                j <= n,
                n == names@.len(),
                out@ + render_trait_impls_from(views_of_strs(names@), item_name@, j as int)
                    == render_trait_impls_from(views_of_strs(names@), item_name@, 0),
            decreases n - j,
        {
            let nm = vec_index(names, j);
            out.append("\nimpl ");
            out.append(nm.as_str());
            out.append(" for ");
            out.append(item_name);
            out.append(" {} ");
            match hint_for(nm.as_str()) {
                Some(h) => out.append(h),
                None => {},
            }
            proof {
                assert(out@ + render_trait_impls_from(views_of_strs(names@), item_name@, j + 1)
                    =~= render_trait_impls_from(views_of_strs(names@), item_name@, 0));
            }
            j += 1;
        }
        out
    }

    /// Renders the synthetic `impl TypeName { ... }` block for an item's
    /// impl identifiers: inherent members first, capped at 10 with a marker
    /// when cut; trait impls after, deny-listed ones excluded, auto traits
    /// last, capped at 10, operator traits annotated.
    pub fn write_impls(&self, impls: &Vec<usize>, item_name: &str) -> (r: Result<String, DocError>)
        ensures
            r matches Ok(s) ==> impls_ok(self.krate, impls@) && s@ == render_impls_spec(
                self.krate,
                impls@,
                item_name@,
            ),
            r is Err <==> !impls_ok(self.krate, impls@),
            r matches Err(DocError::UnsupportedConstruct { tag }) ==> impls_has_tag(
                self.krate,
                impls@,
                tag@,
            ),
    {
        let (mut member_ids, total) = self.collect_impl_members(impls)?;
        if member_ids.len() > 10 {
            member_ids.truncate(10);
        }
        proof {
            assert(member_ids@ =~= capped_members(self.krate, impls@));
        }
        let mut out = String::from_str("impl ");
        out.append(item_name);
        out.append(" {\n");
        let members = match self.write_members(&member_ids) {
            Ok(s) => s,
            Err(e) => {
                return Err(e);
            },
        };
        out.append(members.as_str());
        if total > 10 {
            out.append("  // ");
            let num = crate::strutil::u64_to_string((total - 10) as u64);
            out.append(num.as_str());
            out.append(" more items\n");
        }
        out.append("}");
        let names = self.collect_trait_names(impls);
        let mut ordered = order_trait_names(&names);
        if ordered.len() > 10 {
            ordered.truncate(10);
        }
        proof {
            assert(views_of_strs(ordered@) =~= capped_traits(self.krate, impls@));
        }
        let traits = self.write_trait_list(&ordered, item_name);
        out.append(traits.as_str());
        proof {
            assert(out@ =~= render_impls_spec(self.krate, impls@, item_name@));
        }
        Ok(out)
    }

    /// Renders a struct declaration, its body, and (for a record-style
    /// struct) its synthetic impl block.
    pub fn write_struct(&self, s: &StructData, name: &str) -> (r: Result<String, DocError>)
        ensures
            r matches Ok(t) ==> struct_ok(self.krate, *s) && t@ == render_struct_spec(
                self.krate,
                *s,
                name@,
            ),
            r is Err <==> !struct_ok(self.krate, *s),
            r matches Err(DocError::UnsupportedConstruct { tag }) ==> struct_has_tag(
                self.krate,
                *s,
                tag@,
            ),
    {
        let mut out = String::from_str("struct ");
        out.append(name);
        let gens = self.write_generics(&s.generics);
        out.append(gens.as_str());
        match &s.kind {
            StructBody::Plain { fields, fields_stripped } => {
                let fl = match self.write_plain_fields(fields, "  ") {
                    Ok(t) => t,
                    Err(e) => {
                        return Err(e);
                    },
                };
                out.append(" {\n");
                out.append(fl.as_str());
                if *fields_stripped {
                    out.append("  // private fields omitted\n");
                }
                out.append("}\n");
                let imps = match self.write_impls(&s.impls, name) {
                    Ok(t) => t,
                    Err(e) => {
                        return Err(e);
                    },
                };
                out.append(imps.as_str());
            },
            StructBody::Unit => {
                out.append(";");
            },
            StructBody::Tuple { fields } => {
                let fl = match self.write_opt_fields(fields, true) {
                    Ok(t) => t,
                    Err(e) => {
                        return Err(e);
                    },
                };
                out.append("(");
                out.append(fl.as_str());
                out.append(")");
            },
        }
        proof {
            assert(out@ =~= render_struct_spec(self.krate, *s, name@));
        }
        Ok(out)
    }

    /// Renders an enum declaration, its variants, and its synthetic impl
    /// block.
    pub fn write_enum(&self, e: &EnumData, name: &str) -> (r: Result<String, DocError>)
        ensures
            r matches Ok(t) ==> enum_ok(self.krate, *e) && t@ == render_enum_spec(
                self.krate,
                *e,
                name@,
            ),
            r is Err <==> !enum_ok(self.krate, *e),
            r matches Err(DocError::UnsupportedConstruct { tag }) ==> enum_has_tag(
                self.krate,
                *e,
                tag@,
            ),
    {
        let mut out = String::from_str("enum ");
        out.append(name);
        let gens = self.write_generics(&e.generics);
        out.append(gens.as_str());
        out.append(" {\n");
        let vl = match self.write_variants(&e.variants) {
            Ok(t) => t,
            Err(er) => {
                return Err(er);
            },
        };
        out.append(vl.as_str());
        out.append("}\n");
        let imps = match self.write_impls(&e.impls, name) {
            Ok(t) => t,
            Err(er) => {
                return Err(er);
            },
        };
        out.append(imps.as_str());
        proof {
            assert(out@ =~= render_enum_spec(self.krate, *e, name@));
        }
        Ok(out)
    }

    /// Renders a union declaration, its fields, and its synthetic impl
    /// block.
    pub fn write_union(&self, u: &UnionData, name: &str) -> (r: Result<String, DocError>)
        ensures
            r matches Ok(t) ==> union_ok(self.krate, *u) && t@ == render_union_spec(
                self.krate,
                *u,
                name@,
            ),
            r is Err <==> !union_ok(self.krate, *u),
            r matches Err(DocError::UnsupportedConstruct { tag }) ==> union_has_tag(
                self.krate,
                *u,
                tag@,
            ),
    {
        let mut out = String::from_str("union ");
        out.append(name);
        let gens = self.write_generics(&u.generics);
        out.append(gens.as_str());
        let fl = match self.write_plain_fields(&u.fields, "  ") {
            Ok(t) => t,
            Err(er) => {
                return Err(er);
            },
        };
        out.append(" {\n");
        out.append(fl.as_str());
        if u.fields_stripped {
            out.append("  // private fields omitted\n");
        }
        out.append("}\n");
        let imps = match self.write_impls(&u.impls, name) {
            Ok(t) => t,
            Err(er) => {
                return Err(er);
            },
        };
        out.append(imps.as_str());
        proof {
            assert(out@ =~= render_union_spec(self.krate, *u, name@));
        }
        Ok(out)
    }
}

/// Splits the names into the non-auto traits followed by the auto traits,
/// keeping declaration order within each group.
fn order_trait_names(names: &Vec<String>) -> (r: Vec<String>)
    ensures
        views_of_strs(r@) == auto_filtered_from(views_of_strs(names@), false, 0)
            + auto_filtered_from(views_of_strs(names@), true, 0),
{
    let mut nonauto: Vec<String> = Vec::new();
    let mut autos: Vec<String> = Vec::new();
    let n = names.len();
    let mut j: usize = 0;
    while j < n
        invariant
            j <= n,
            n == names@.len(),
            views_of_strs(nonauto@) + auto_filtered_from(views_of_strs(names@), false, j as int)
                == auto_filtered_from(views_of_strs(names@), false, 0),
            views_of_strs(autos@) + auto_filtered_from(views_of_strs(names@), true, j as int)
                == auto_filtered_from(views_of_strs(names@), true, 0),
        decreases n - j,
    {
        let nm = vec_index(names, j);
        if is_auto_exec(nm.as_str()) {
            autos.push(nm.clone());
        } else {
            nonauto.push(nm.clone());
        }
        proof {
            assert(views_of_strs(nonauto@) + auto_filtered_from(
                views_of_strs(names@),
                false,
                j + 1,
            ) =~= auto_filtered_from(views_of_strs(names@), false, 0));
            assert(views_of_strs(autos@) + auto_filtered_from(views_of_strs(names@), true, j + 1)
                =~= auto_filtered_from(views_of_strs(names@), true, 0));
        }
        j += 1;
    }
    let mut ordered = nonauto;
    ordered.append(&mut autos);
    proof {
        assert(views_of_strs(ordered@) =~= auto_filtered_from(views_of_strs(names@), false, 0)
            + auto_filtered_from(views_of_strs(names@), true, 0));
    }
    ordered
}

/// Tests membership in the blanket-trait deny list.
fn is_blanket_exec(name: &str) -> (r: bool)
    ensures
        r == is_blanket_trait(name@),
{
    crate::fuzzy::str_eq(name, "Any") || crate::fuzzy::str_eq(name, "Borrow")
        || crate::fuzzy::str_eq(name, "BorrowMut") || crate::fuzzy::str_eq(name, "From")
        || crate::fuzzy::str_eq(name, "Into") || crate::fuzzy::str_eq(name, "ToOwned")
        || crate::fuzzy::str_eq(name, "TryFrom") || crate::fuzzy::str_eq(name, "TryInto")
}

/// Tests membership in the auto-trait list.
fn is_auto_exec(name: &str) -> (r: bool)
    ensures
        r == is_auto_trait(name@),
{
    crate::fuzzy::str_eq(name, "RefUnwindSafe") || crate::fuzzy::str_eq(name, "Send")
        || crate::fuzzy::str_eq(name, "Sync") || crate::fuzzy::str_eq(name, "Unpin")
        || crate::fuzzy::str_eq(name, "UnwindSafe")
}

/// The operator hint for a trait name, when one applies.
fn hint_for(name: &str) -> (r: Option<&'static str>)
    ensures
        r matches Some(h) ==> hint_spec(name@) == Some(h@),
        r is None ==> hint_spec(name@) is None,
{
    if crate::fuzzy::str_eq(name, "Try") { Some("// the `?` operator") }
    else if crate::fuzzy::str_eq(name, "PartialEq") { Some("// the `==` operator") }
    else if crate::fuzzy::str_eq(name, "PartialOrd") { Some("// the `<`, `<=`, `>` and `>=` operators") }
    else if crate::fuzzy::str_eq(name, "Add") { Some("// the `+` operator") }
    else if crate::fuzzy::str_eq(name, "AddAssign") { Some("// the `+=` operator") }
    else if crate::fuzzy::str_eq(name, "BitAnd") { Some("// the `&` operator") }
    else if crate::fuzzy::str_eq(name, "BitAndAssign") { Some("// the `&=` operator") }
    else if crate::fuzzy::str_eq(name, "BitOr") { Some("// the `|` operator") }
    else if crate::fuzzy::str_eq(name, "BitOrAssign") { Some("// the `|=` operator") }
    else if crate::fuzzy::str_eq(name, "BitXor") { Some("// the `^` operator") }
    else if crate::fuzzy::str_eq(name, "BitXorAssign") { Some("// the `^=` operator") }
    else if crate::fuzzy::str_eq(name, "Deref") { Some("// code that is run on dereference (`*`) ") }
    else if crate::fuzzy::str_eq(name, "DerefMut") { Some("// code that is run on mut dereference (`*`) ") }
    else if crate::fuzzy::str_eq(name, "Div") { Some("// the `/` operator") }
    else if crate::fuzzy::str_eq(name, "DivAssign") { Some("// the `/=` operator") }
    else if crate::fuzzy::str_eq(name, "Drop") { Some("// code that is run when type is dropped") }
    else if crate::fuzzy::str_eq(name, "Fn") { Some("// the call operator that takes immutable env") }
    else if crate::fuzzy::str_eq(name, "FnMut") { Some("// the call operator that takes mutable env") }
    else if crate::fuzzy::str_eq(name, "FnOnce") { Some("// the call operator that takes by-value env") }
    else if crate::fuzzy::str_eq(name, "Index") { Some("// the indexing operator `[]` in immutable contexts") }
    else if crate::fuzzy::str_eq(name, "IndexMut") { Some("// the indexing operator `[]` in mutable contexts") }
    else if crate::fuzzy::str_eq(name, "Mul") { Some("// the `*` operator for multiplication") }
    else if crate::fuzzy::str_eq(name, "MulAssign") { Some("// the `*=` operator for multiplication") }
    else if crate::fuzzy::str_eq(name, "Neg") { Some("// the unary negation operator `-`") }
    else if crate::fuzzy::str_eq(name, "Not") { Some("// the unary logical negation operator `!`") }
    else if crate::fuzzy::str_eq(name, "Rem") { Some("// the remainder operator `%`") }
    else if crate::fuzzy::str_eq(name, "RemAssign") { Some("// the remainder assignment operator `%=`") }
    else if crate::fuzzy::str_eq(name, "Shl") { Some("// the left shift operator `<<`") }
    else if crate::fuzzy::str_eq(name, "ShlAssign") { Some("// the left shift assignment operator `<<=`") }
    else if crate::fuzzy::str_eq(name, "Shr") { Some("// the right shift operator `>>`") }
    else if crate::fuzzy::str_eq(name, "ShrAssign") { Some("// the right shift assignment operator `>>=`") }
    else if crate::fuzzy::str_eq(name, "Sub") { Some("// the `-` operator for subtraction") }
    else if crate::fuzzy::str_eq(name, "SubAssign") { Some("// the `-=` operator for subtraction") }
    else { None }
}


} // verus!
