//! The signature rewriter: turns each `#[inject]` parameter of a handler into
//! an `Injected<Arc<T>, Marker>` parameter, declares one marker type per such
//! parameter, and unwraps the parameter again at the top of the body.
use vstd::prelude::*;
use crate::ctxt::{Ctxt, Diagnostic, DiagnosticKind};

verus! {

/// An attribute on a parameter: its path (`inject` for `#[inject]`) and its
/// full source text.
pub struct Attr {
    pub path: String,
    pub text: String,
}

/// The binding of a parameter. `ident` is the bound name where the pattern is
/// a plain name (`x`, `mut x`), and `None` for a destructuring pattern.
pub struct Pat {
    pub text: String,
    pub ident: Option<String>,
}

/// One generic argument inside `<...>`: a type, given by its text, or
/// anything else (a lifetime, a constant, a binding).
pub enum GenericArg {
    Type(String),
    Other(String),
}

/// The arguments of one path segment.
pub enum PathArgs {
    Empty,
    AngleBracketed(Vec<GenericArg>),
    Parenthesized,
}

pub struct Segment {
    pub ident: String,
    pub arguments: PathArgs,
}

/// A path type such as `Arc<dyn S>` or `::std::sync::Arc<S>`.
pub struct TypePath {
    pub leading_colon: bool,
    pub segments: Vec<Segment>,
}

/// The declared type of a parameter: its text, and its shape where it is a
/// path type.
pub struct Ty {
    pub text: String,
    pub path: Option<TypePath>,
}

pub struct TypedParam {
    /// The full source text of the parameter, attributes included.
    pub text: String,
    pub attrs: Vec<Attr>,
    pub pat: Pat,
    pub ty: Ty,
}

pub enum Param {
    /// A `self` parameter, by its text.
    Receiver(String),
    Typed(TypedParam),
}

/// A handler function: its name, its parameters, and the statements of its body.
pub struct FnItem {
    pub ident: String,
    pub params: Vec<Param>,
    pub stmts: Vec<String>,
}

/// The marker type synthesized for one injected parameter.
pub struct Marker {
    pub name: String,
    pub key: String,
    pub service_ty: String,
}

pub struct MarkerView {
    pub name: Seq<char>,
    pub key: Seq<char>,
    pub service_ty: Seq<char>,
}

impl View for Marker {
    type V = MarkerView;

    open spec fn view(&self) -> MarkerView {
        MarkerView { name: self.name@, key: self.key@, service_ty: self.service_ty@ }
    }
}

/// A rewritten handler: the marker types to declare before it, the text of
/// each of its parameters, and the statements of its body.
pub struct Rewrite {
    pub markers: Vec<Marker>,
    pub params: Vec<String>,
    pub stmts: Vec<String>,
}

pub struct RewriteView {
    pub markers: Seq<MarkerView>,
    pub params: Seq<Seq<char>>,
    pub stmts: Seq<Seq<char>>,
}

impl View for Rewrite {
    type V = RewriteView;

    open spec fn view(&self) -> RewriteView {
        RewriteView {
            markers: self.markers@.map_values(|m: Marker| m@),
            params: self.params@.map_values(|s: String| s@),
            stmts: self.stmts@.map_values(|s: String| s@),
        }
    }
}

pub open spec fn is_inject_attr(a: Attr) -> bool {
    a.path@ == "inject"@
}

/// Whether a parameter carries `#[inject]`.
pub open spec fn has_inject(attrs: Seq<Attr>) -> bool {
    exists|j: int| 0 <= j < attrs.len() && #[trigger] is_inject_attr(attrs[j])
}

/// The service type `T` of a type that is exactly `Arc<T>`: a path without a
/// leading `::`, of one segment named `Arc`, with one generic argument, a type.
pub open spec fn arc_inner(ty: Ty) -> Option<Seq<char>> {
    match ty.path {
        Some(p) => if !p.leading_colon && p.segments@.len() == 1 && p.segments@[0].ident@
            == "Arc"@ {
            match p.segments@[0].arguments {
                PathArgs::AngleBracketed(args) => if args@.len() == 1 {
                    match args@[0] {
                        GenericArg::Type(t) => Some(t@),
                        GenericArg::Other(_) => None,
                    }
                } else {
                    None
                },
                _ => None,
            }
        } else {
            None
        },
        None => None,
    }
}

/// The error of an injected parameter, if it has one.
pub open spec fn typed_diag(t: TypedParam) -> Option<DiagnosticKind> {
    if t.pat.ident is None {
        Some(DiagnosticKind::PatternNotInjectable)
    } else if arc_inner(t.ty) is None {
        Some(DiagnosticKind::OnlyArcInjectable)
    } else {
        None
    }
}

pub open spec fn param_diag(p: Param) -> Option<DiagnosticKind> {
    match p {
        Param::Typed(t) => if has_inject(t.attrs@) {
            typed_diag(t)
        } else {
            None
        },
        Param::Receiver(_) => None,
    }
}

/// Whether the parameter is injected and valid, so that it gets a marker.
pub open spec fn is_valid_injected(p: Param) -> bool {
    match p {
        Param::Typed(t) => has_inject(t.attrs@) && typed_diag(t) is None,
        Param::Receiver(_) => false,
    }
}

/// The diagnostics of a parameter list, in parameter order.
pub open spec fn diags_of(ps: Seq<Param>) -> Seq<Diagnostic>
    decreases ps.len(),
{
    if ps.len() == 0 {
        Seq::empty()
    } else {
        let i = (ps.len() - 1) as usize;
        diags_of(ps.drop_last()) + match param_diag(ps.last()) {
            Some(k) => seq![Diagnostic { param: i, kind: k }],
            None => Seq::empty(),
        }
    }
}

pub open spec fn key_of(p: Param) -> Seq<char> {
    match p {
        Param::Typed(t) => match t.pat.ident {
            Some(s) => s@,
            None => Seq::empty(),
        },
        Param::Receiver(_) => Seq::empty(),
    }
}

pub open spec fn service_of(p: Param) -> Seq<char> {
    match p {
        Param::Typed(t) => match arc_inner(t.ty) {
            Some(s) => s,
            None => Seq::empty(),
        },
        Param::Receiver(_) => Seq::empty(),
    }
}

/// The marker type name for parameter `key` of function `f`: `__f_key_Key`.
pub open spec fn marker_name(f: Seq<char>, key: Seq<char>) -> Seq<char> {
    "__"@ + f + "_"@ + key + "_Key"@
}

/// The markers of a parameter list, one per valid injected parameter, in order.
pub open spec fn markers_of(f: Seq<char>, ps: Seq<Param>) -> Seq<MarkerView>
    decreases ps.len(),
{
    if ps.len() == 0 {
        Seq::empty()
    } else {
        markers_of(f, ps.drop_last()) + if is_valid_injected(ps.last()) {
            seq![
                MarkerView {
                    name: marker_name(f, key_of(ps.last())),
                    key: key_of(ps.last()),
                    service_ty: service_of(ps.last()),
                },
            ]
        } else {
            Seq::empty()
        }
    }
}

/// `let cr::Injected(key, _) = key;`
pub open spec fn unwrap_stmt(cr: Seq<char>, key: Seq<char>) -> Seq<char> {
    "let "@ + cr + "::Injected("@ + key + ", _) = "@ + key + ";"@
}

/// The statements that unwrap each valid injected parameter, in order.
pub open spec fn unwraps_of(cr: Seq<char>, ps: Seq<Param>) -> Seq<Seq<char>>
    decreases ps.len(),
{
    if ps.len() == 0 {
        Seq::empty()
    } else {
        unwraps_of(cr, ps.drop_last()) + if is_valid_injected(ps.last()) {
            seq![unwrap_stmt(cr, key_of(ps.last()))]
        } else {
            Seq::empty()
        }
    }
}

/// The text of the attributes that are kept: all but `#[inject]`, each
/// followed by a space.
pub open spec fn kept_attrs(attrs: Seq<Attr>) -> Seq<char>
    decreases attrs.len(),
{
    if attrs.len() == 0 {
        Seq::empty()
    } else {
        kept_attrs(attrs.drop_last()) + if is_inject_attr(attrs.last()) {
            Seq::empty()
        } else {
            attrs.last().text@ + " "@
        }
    }
}

/// `cr::Injected<arc, marker>`
pub open spec fn injected_ty(cr: Seq<char>, arc: Seq<char>, marker: Seq<char>) -> Seq<char> {
    cr + "::Injected<"@ + arc + ", "@ + marker + ">"@
}

/// The text of a parameter after the rewrite: an injected one gets the type
/// `cr::Injected<its type, its marker>` and loses `#[inject]`; any other is kept.
pub open spec fn param_out(cr: Seq<char>, f: Seq<char>, p: Param) -> Seq<char> {
    match p {
        Param::Typed(t) => if has_inject(t.attrs@) {
            kept_attrs(t.attrs@) + t.pat.text@ + ": "@ + injected_ty(
                cr,
                t.ty.text@,
                marker_name(f, key_of(p)),
            )
        } else {
            t.text@
        },
        Param::Receiver(s) => s@,
    }
}

pub open spec fn params_out(cr: Seq<char>, f: Seq<char>, ps: Seq<Param>) -> Seq<Seq<char>> {
    ps.map_values(|p: Param| param_out(cr, f, p))
}

/// What the rewrite of `f` yields, with `cr` the path of this crate: every
/// diagnostic if there is any, else the markers, the parameters and the body
/// with the unwrapping statements before the original ones.
pub open spec fn rewrite_spec(cr: Seq<char>, f: FnItem) -> Result<RewriteView, Seq<Diagnostic>> {
    let d = diags_of(f.params@);
    if d.len() > 0 {
        Err(d)
    } else {
        Ok(
            RewriteView {
                markers: markers_of(f.ident@, f.params@),
                params: params_out(cr, f.ident@, f.params@),
                stmts: unwraps_of(cr, f.params@) + f.stmts@.map_values(|s: String| s@),
            },
        )
    }
}


/// Whether two strings hold the same characters.
fn str_eq(a: &str, b: &str) -> (r: bool)
    ensures
        r == (a@ == b@),
{
    let n = a.unicode_len();
    if n != b.unicode_len() {
        return false;
    }
    let mut i: usize = 0;
    while i < n
        invariant
            n == a@.len(),
            n == b@.len(),
            i <= n,
            a@.subrange(0, i as int) == b@.subrange(0, i as int),
        decreases n - i,
    {
        if a.get_char(i) != b.get_char(i) {
            assert(a@[i as int] != b@[i as int]);
            return false;
        }
        assert(a@.subrange(0, i + 1) =~= a@.subrange(0, i as int).push(a@[i as int]));
        assert(b@.subrange(0, i + 1) =~= b@.subrange(0, i as int).push(b@[i as int]));
        i += 1;
    }
    assert(a@ =~= a@.subrange(0, n as int));
    assert(b@ =~= b@.subrange(0, n as int));
    true
}

fn is_inject(a: &Attr) -> (r: bool)
    ensures
        r == is_inject_attr(*a),
{
    str_eq(a.path.as_str(), "inject")
}

fn any_inject(attrs: &Vec<Attr>) -> (r: bool)
    ensures
        r == has_inject(attrs@),
{
    let mut i: usize = 0;
    while i < attrs.len()
        invariant
            i <= attrs@.len(),
            forall|j: int| 0 <= j < i ==> !#[trigger] is_inject_attr(attrs@[j]),
        decreases attrs@.len() - i,
    {
        if is_inject(&attrs[i]) {
            return true;
        }
        i += 1;
    }
    false
}

/// The service type of `ty` where `ty` is `Arc<T>`, else the error for it.
fn get_arc_ty(ty: &Ty) -> (r: Result<String, DiagnosticKind>)
    ensures
        match r {
            Ok(s) => arc_inner(*ty) == Some(s@),
            Err(k) => arc_inner(*ty) is None && k == DiagnosticKind::OnlyArcInjectable,
        },
{
    let type_path = match &ty.path {
        Some(p) => p,
        None => return Err(DiagnosticKind::OnlyArcInjectable),
    };
    if type_path.leading_colon || type_path.segments.len() != 1 {
        return Err(DiagnosticKind::OnlyArcInjectable);
    }
    let segment = &type_path.segments[0];
    if !str_eq(segment.ident.as_str(), "Arc") {
        return Err(DiagnosticKind::OnlyArcInjectable);
    }
    let args = match &segment.arguments {
        PathArgs::AngleBracketed(args) => args,
        _ => return Err(DiagnosticKind::OnlyArcInjectable),
    };
    if args.len() != 1 {
        return Err(DiagnosticKind::OnlyArcInjectable);
    }
    match &args[0] {
        GenericArg::Type(t) => Ok(t.clone()),
        GenericArg::Other(_) => Err(DiagnosticKind::OnlyArcInjectable),
    }
}

fn kept_attrs_text(attrs: &Vec<Attr>) -> (r: String)
    ensures
        r@ == kept_attrs(attrs@),
{
    let mut out = String::new();
    let mut i: usize = 0;
    while i < attrs.len()
        invariant
            i <= attrs@.len(),
            out@ == kept_attrs(attrs@.subrange(0, i as int)),
        decreases attrs@.len() - i,
    {
        assert(attrs@.subrange(0, i + 1).drop_last() =~= attrs@.subrange(0, i as int));
        if !is_inject(&attrs[i]) {
            out.append(attrs[i].text.as_str());
            out.append(" ");
        }
        i += 1;
    }
    assert(attrs@ =~= attrs@.subrange(0, attrs@.len() as int));
    out
}

fn make_marker_name(f: &str, key: &str) -> (r: String)
    ensures
        r@ == marker_name(f@, key@),
{
    let mut s = String::from_str("__");
    s.append(f);
    s.append("_");
    s.append(key);
    s.append("_Key");
    s
}

fn make_unwrap_stmt(cr: &str, key: &str) -> (r: String)
    ensures
        r@ == unwrap_stmt(cr@, key@),
{
    let mut s = String::from_str("let ");
    s.append(cr);
    s.append("::Injected(");
    s.append(key);
    s.append(", _) = ");
    s.append(key);
    s.append(";");
    s
}

fn make_injected_param(cr: &str, attrs: &str, pat: &str, arc: &str, marker: &str) -> (r: String)
    ensures
        r@ == attrs@ + pat@ + ": "@ + injected_ty(cr@, arc@, marker@),
{
    let mut s = String::from_str(attrs);
    s.append(pat);
    s.append(": ");
    s.append(cr);
    s.append("::Injected<");
    s.append(arc);
    s.append(", ");
    s.append(marker);
    s.append(">");
    s
}

/// The declaration of a marker type: a unit struct and the `ContainerKey`
/// impl that binds it to its service type and key.
pub open spec fn marker_decl(cr: Seq<char>, m: MarkerView) -> Seq<char> {
    "#[allow(non_camel_case_types)] struct "@ + m.name + "; impl "@ + cr + "::ContainerKey<"@
        + m.service_ty + "> for "@ + m.name + " { const KEY: &'static str = \""@ + m.key
        + "\"; }"@
}

/// The source text that declares marker `m`, with `cr` the path of this crate.
pub fn render_marker(cr: &str, m: &Marker) -> (r: String)
    ensures
        r@ == marker_decl(cr@, m@),
{
    let mut s = String::from_str("#[allow(non_camel_case_types)] struct ");
    s.append(m.name.as_str());
    s.append("; impl ");
    s.append(cr);
    s.append("::ContainerKey<");
    s.append(m.service_ty.as_str());
    s.append("> for ");
    s.append(m.name.as_str());
    s.append(" { const KEY: &'static str = \"");
    s.append(m.key.as_str());
    s.append("\"; }");
    s
}


/// Rewrites handler `input`, with `cr` the path under which this crate is
/// reached from the handler's crate. Each parameter marked `#[inject]` must
/// bind a plain name and have the type `Arc<T>`; every violation is reported,
/// in parameter order, and then nothing else is produced. Otherwise each
/// injected parameter `x: Arc<T>` of `f` becomes `x: cr::Injected<Arc<T>,
/// __f_x_Key>`, gets the marker `__f_x_Key` with key `"x"` and service `T`,
/// and is unwrapped by `let cr::Injected(x, _) = x;` before the original body.
pub fn inject(cr: &str, input: &FnItem) -> (r: Result<Rewrite, Vec<Diagnostic>>)
    ensures
        match r {
            Ok(w) => rewrite_spec(cr@, *input) == Ok::<RewriteView, Seq<Diagnostic>>(w@),
            Err(d) => rewrite_spec(cr@, *input) == Err::<RewriteView, Seq<Diagnostic>>(d@),
        },
{
    let fn_ident = input.ident.as_str();
    let ghost f = input.ident@;
    let ghost ps = input.params@;
    let mut defs: Vec<Marker> = Vec::new();
    let mut stmts: Vec<String> = Vec::new();
    let mut params: Vec<String> = Vec::new();
    let mut ctxt = Ctxt::new();
    let n = input.params.len();
    let mut i: usize = 0;
    assert(ps.subrange(0, 0) =~= Seq::<Param>::empty());
    assert(params@.map_values(|s: String| s@) =~= params_out(cr@, f, ps.subrange(0, 0)));
    assert(defs@.map_values(|m: Marker| m@) =~= Seq::<MarkerView>::empty());
    assert(stmts@.map_values(|s: String| s@) =~= Seq::<Seq<char>>::empty());
    while i < n
        invariant
            n == ps.len(),
            ps == input.params@,
            f == input.ident@,
            fn_ident@ == f,
            i <= n,
            ctxt@ == diags_of(ps.subrange(0, i as int)),
            defs@.map_values(|m: Marker| m@) == markers_of(f, ps.subrange(0, i as int)),
            stmts@.map_values(|s: String| s@) == unwraps_of(cr@, ps.subrange(0, i as int)),
            params@.map_values(|s: String| s@) == params_out(cr@, f, ps.subrange(0, i as int)),
        decreases n - i,
    {
        let ghost sub = ps.subrange(0, i + 1);
        assert(sub.drop_last() =~= ps.subrange(0, i as int));
        assert(sub.last() == ps[i as int]);
        let ghost old_defs = defs@.map_values(|m: Marker| m@);
        let ghost old_stmts = stmts@.map_values(|s: String| s@);
        let ghost old_params = params@.map_values(|s: String| s@);
        let text = match &input.params[i] {
            Param::Receiver(s) => s.clone(),
            Param::Typed(arg) => {
                if any_inject(&arg.attrs) {
                    let attrs = kept_attrs_text(&arg.attrs);
                    // A pattern without a name is reported below; its text is then discarded.
                    let key = match &arg.pat.ident {
                        Some(k) => k.clone(),
                        None => String::new(),
                    };
                    let ident = make_marker_name(fn_ident, key.as_str());
                    let text = make_injected_param(
                        cr,
                        attrs.as_str(),
                        arg.pat.text.as_str(),
                        arg.ty.text.as_str(),
                        ident.as_str(),
                    );
                    if arg.pat.ident.is_none() {
                        ctxt.push_spanned(i, DiagnosticKind::PatternNotInjectable);
                    } else {
                        match get_arc_ty(&arg.ty) {
                            Err(e) => {
                                ctxt.push_spanned(i, e);
                            },
                            Ok(ty) => {
                                let stmt = make_unwrap_stmt(cr, key.as_str());
                                let m = Marker { name: ident, key, service_ty: ty };
                                defs.push(m);
                                stmts.push(stmt);
                            },
                        }
                    }
                    text
                } else {
                    arg.text.clone()
                }
            },
        };
        assert(text@ == param_out(cr@, f, ps[i as int]));
        assert(params_out(cr@, f, sub) =~= params_out(cr@, f, ps.subrange(0, i as int)).push(
            param_out(cr@, f, ps[i as int]),
        ));
        params.push(text);
        assert(defs@.map_values(|m: Marker| m@) =~= markers_of(f, sub));
        assert(stmts@.map_values(|s: String| s@) =~= unwraps_of(cr@, sub));
        assert(params@.map_values(|s: String| s@) =~= params_out(cr@, f, sub));
        i += 1;
    }
    assert(ps.subrange(0, n as int) =~= ps);
    match ctxt.check() {
        Err(e) => {
            return Err(e);
        },
        Ok(()) => {},
    }
    let ghost unwraps = stmts@.map_values(|s: String| s@);
    let mut j: usize = 0;
    while j < input.stmts.len()
        invariant
            j <= input.stmts@.len(),
            stmts@.map_values(|s: String| s@) == unwraps + input.stmts@.subrange(
                0,
                j as int,
            ).map_values(|s: String| s@),
        decreases input.stmts@.len() - j,
    {
        assert(input.stmts@.subrange(0, j + 1) =~= input.stmts@.subrange(0, j as int).push(
            input.stmts@[j as int],
        ));
        let ghost before = stmts@;
        let st = input.stmts[j].clone();
        assert(st@ == input.stmts@[j as int]@);
        stmts.push(st);
        assert(stmts@.map_values(|s: String| s@) =~= before.map_values(|s: String| s@).push(st@));
        assert(input.stmts@.subrange(0, j + 1).map_values(|s: String| s@) =~= input.stmts@.subrange(
            0,
            j as int,
        ).map_values(|s: String| s@).push(st@));
        assert(stmts@.map_values(|s: String| s@) =~= unwraps + input.stmts@.subrange(
            0,
            j + 1,
        ).map_values(|s: String| s@));
        j += 1;
    }
    assert(input.stmts@.subrange(0, input.stmts@.len() as int) =~= input.stmts@);
    let w = Rewrite { markers: defs, params, stmts };
    assert(w@.stmts =~= unwraps + input.stmts@.map_values(|s: String| s@));
    Ok(w)
}


/// Whether a parameter is marked `#[inject]`.
pub open spec fn is_marked(p: Param) -> bool {
    match p {
        Param::Typed(t) => has_inject(t.attrs@),
        Param::Receiver(_) => false,
    }
}

/// The source text of a parameter as given.
pub open spec fn param_text(p: Param) -> Seq<char> {
    match p {
        Param::Typed(t) => t.text@,
        Param::Receiver(s) => s@,
    }
}

/// The number of parameters marked `#[inject]`.
pub open spec fn marked_count(ps: Seq<Param>) -> nat
    decreases ps.len(),
{
    if ps.len() == 0 {
        0
    } else {
        marked_count(ps.drop_last()) + if is_marked(ps.last()) {
            1nat
        } else {
            0nat
        }
    }
}

/// The diagnostics of `ds` attached to parameter `i`, in order.
pub open spec fn diags_at(ds: Seq<Diagnostic>, i: usize) -> Seq<Diagnostic>
    decreases ds.len(),
{
    if ds.len() == 0 {
        Seq::empty()
    } else {
        diags_at(ds.drop_last(), i) + if ds.last().param == i {
            seq![ds.last()]
        } else {
            Seq::empty()
        }
    }
}

} // verus!
