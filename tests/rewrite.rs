use coi_rocket::ctxt::{Ctxt, Diagnostic, DiagnosticKind};
use coi_rocket::rewrite::{
    inject, render_marker, Attr, FnItem, GenericArg, Param, Pat, PathArgs, Segment, Ty, TypePath,
    TypedParam,
};

fn s(x: &str) -> String {
    x.to_string()
}

fn path_ty(text: &str, leading_colon: bool, segments: Vec<Segment>) -> Ty {
    Ty { text: s(text), path: Some(TypePath { leading_colon, segments }) }
}

fn arc_of(inner: &str) -> Ty {
    path_ty(
        &format!("Arc<{}>", inner),
        false,
        vec![Segment {
            ident: s("Arc"),
            arguments: PathArgs::AngleBracketed(vec![GenericArg::Type(s(inner))]),
        }],
    )
}

fn injected(name: &str, ty: Ty) -> Param {
    Param::Typed(TypedParam {
        text: format!("#[inject] {}: {}", name, ty.text),
        attrs: vec![Attr { path: s("inject"), text: s("#[inject]") }],
        pat: Pat { text: s(name), ident: Some(s(name)) },
        ty,
    })
}

fn plain(name: &str, ty: Ty) -> Param {
    Param::Typed(TypedParam {
        text: format!("{}: {}", name, ty.text),
        attrs: vec![],
        pat: Pat { text: s(name), ident: Some(s(name)) },
        ty,
    })
}

fn destructured(pat: &str, ty: Ty) -> Param {
    Param::Typed(TypedParam {
        text: format!("#[inject] {}: {}", pat, ty.text),
        attrs: vec![Attr { path: s("inject"), text: s("#[inject]") }],
        pat: Pat { text: s(pat), ident: None },
        ty,
    })
}

fn item(name: &str, params: Vec<Param>, stmts: Vec<&str>) -> FnItem {
    FnItem { ident: s(name), params, stmts: stmts.into_iter().map(s).collect() }
}

fn diagnostics_of(f: &FnItem) -> Vec<Diagnostic> {
    match inject("coi_rocket", f) {
        Err(d) => d,
        Ok(_) => panic!("expected diagnostics"),
    }
}

#[test]
fn get_all_service_rewrite() {
    let f = item(
        "get_all",
        vec![injected("service", arc_of("dyn IService"))],
        vec!["String::from(\"Hello, World\")"],
    );
    let w = match inject("coi_rocket", &f) {
        Ok(w) => w,
        Err(_) => panic!("expected a rewrite"),
    };
    assert_eq!(w.params, vec![s("service: coi_rocket::Injected<Arc<dyn IService>, __get_all_service_Key>")]);
    assert_eq!(w.markers.len(), 1);
    assert_eq!(w.markers[0].name, "__get_all_service_Key");
    assert_eq!(w.markers[0].key, "service");
    assert_eq!(w.markers[0].service_ty, "dyn IService");
    assert_eq!(
        render_marker("coi_rocket", &w.markers[0]),
        "#[allow(non_camel_case_types)] struct __get_all_service_Key; \
         impl coi_rocket::ContainerKey<dyn IService> for __get_all_service_Key \
         { const KEY: &'static str = \"service\"; }"
    );
    assert_eq!(
        w.stmts,
        vec![
            s("let coi_rocket::Injected(service, _) = service;"),
            s("String::from(\"Hello, World\")"),
        ]
    );
}

#[test]
fn no_injected_parameter_is_identity() {
    let f = item(
        "index",
        vec![
            Param::Receiver(s("&self")),
            plain("id", path_ty("u32", false, vec![Segment { ident: s("u32"), arguments: PathArgs::Empty }])),
            plain("svc", arc_of("dyn S")),
        ],
        vec!["let x = 1;", "x + id"],
    );
    let w = match inject("coi_rocket", &f) {
        Ok(w) => w,
        Err(_) => panic!("expected a rewrite"),
    };
    assert!(w.markers.is_empty());
    assert_eq!(w.params, vec![s("&self"), s("id: u32"), s("svc: Arc<dyn S>")]);
    assert_eq!(w.stmts, vec![s("let x = 1;"), s("x + id")]);
}

#[test]
fn two_injected_parameters_get_distinct_markers() {
    let f = item(
        "handler",
        vec![
            injected("a", arc_of("dyn A")),
            plain("n", path_ty("u8", false, vec![Segment { ident: s("u8"), arguments: PathArgs::Empty }])),
            injected("b", arc_of("B")),
        ],
        vec!["body();"],
    );
    let w = match inject("crate", &f) {
        Ok(w) => w,
        Err(_) => panic!("expected a rewrite"),
    };
    assert_eq!(w.markers.len(), 2);
    assert_eq!(w.markers[0].name, "__handler_a_Key");
    assert_eq!(w.markers[1].name, "__handler_b_Key");
    assert_ne!(w.markers[0].name, w.markers[1].name);
    assert_eq!(
        w.params,
        vec![
            s("a: crate::Injected<Arc<dyn A>, __handler_a_Key>"),
            s("n: u8"),
            s("b: crate::Injected<Arc<B>, __handler_b_Key>"),
        ]
    );
    assert_eq!(
        w.stmts,
        vec![
            s("let crate::Injected(a, _) = a;"),
            s("let crate::Injected(b, _) = b;"),
            s("body();"),
        ]
    );
}

#[test]
fn other_attributes_are_kept() {
    let ty = arc_of("S");
    let p = Param::Typed(TypedParam {
        text: s("#[allow(unused)] #[inject] svc: Arc<S>"),
        attrs: vec![
            Attr { path: s("allow"), text: s("#[allow(unused)]") },
            Attr { path: s("inject"), text: s("#[inject]") },
        ],
        pat: Pat { text: s("svc"), ident: Some(s("svc")) },
        ty,
    });
    let w = match inject("c", &item("f", vec![p], vec![])) {
        Ok(w) => w,
        Err(_) => panic!("expected a rewrite"),
    };
    assert_eq!(w.params, vec![s("#[allow(unused)] svc: c::Injected<Arc<S>, __f_svc_Key>")]);
}

#[test]
fn destructuring_pattern_is_rejected() {
    let f = item("f", vec![destructured("(a, b)", arc_of("S"))], vec![]);
    assert_eq!(
        diagnostics_of(&f),
        vec![Diagnostic { param: 0, kind: DiagnosticKind::PatternNotInjectable }]
    );
    let g = item("g", vec![destructured("(a, b)", Ty { text: s("(u8, u8)"), path: None })], vec![]);
    assert_eq!(
        diagnostics_of(&g),
        vec![Diagnostic { param: 0, kind: DiagnosticKind::PatternNotInjectable }]
    );
}

#[test]
fn only_arc_of_one_type_is_injectable() {
    let only_arc = vec![Diagnostic { param: 0, kind: DiagnosticKind::OnlyArcInjectable }];
    let bad = vec![
        path_ty("Box<S>", false, vec![Segment {
            ident: s("Box"),
            arguments: PathArgs::AngleBracketed(vec![GenericArg::Type(s("S"))]),
        }]),
        path_ty("Arc<>", false, vec![Segment { ident: s("Arc"), arguments: PathArgs::AngleBracketed(vec![]) }]),
        path_ty("Arc<A, B>", false, vec![Segment {
            ident: s("Arc"),
            arguments: PathArgs::AngleBracketed(vec![GenericArg::Type(s("A")), GenericArg::Type(s("B"))]),
        }]),
        path_ty("Arc<'a>", false, vec![Segment {
            ident: s("Arc"),
            arguments: PathArgs::AngleBracketed(vec![GenericArg::Other(s("'a"))]),
        }]),
        path_ty("Arc", false, vec![Segment { ident: s("Arc"), arguments: PathArgs::Empty }]),
        path_ty("Arc(S)", false, vec![Segment { ident: s("Arc"), arguments: PathArgs::Parenthesized }]),
        path_ty("::Arc<S>", true, vec![Segment {
            ident: s("Arc"),
            arguments: PathArgs::AngleBracketed(vec![GenericArg::Type(s("S"))]),
        }]),
        path_ty("std::sync::Arc<S>", false, vec![
            Segment { ident: s("std"), arguments: PathArgs::Empty },
            Segment { ident: s("sync"), arguments: PathArgs::Empty },
            Segment { ident: s("Arc"), arguments: PathArgs::AngleBracketed(vec![GenericArg::Type(s("S"))]) },
        ]),
        Ty { text: s("&Arc<S>"), path: None },
    ];
    for ty in bad {
        let f = item("f", vec![injected("svc", ty)], vec!["x();"]);
        assert_eq!(diagnostics_of(&f), only_arc);
    }
}

#[test]
fn errors_are_collected() {
    let f = item(
        "f",
        vec![
            destructured("(a, b)", arc_of("S")),
            injected("ok", arc_of("T")),
            injected("svc", Ty { text: s("&S"), path: None }),
        ],
        vec![],
    );
    assert_eq!(
        diagnostics_of(&f),
        vec![
            Diagnostic { param: 0, kind: DiagnosticKind::PatternNotInjectable },
            Diagnostic { param: 2, kind: DiagnosticKind::OnlyArcInjectable },
        ]
    );
}

#[test]
fn diagnostic_messages() {
    assert_eq!(DiagnosticKind::PatternNotInjectable.message(), "pattern cannot be injected");
    assert_eq!(DiagnosticKind::OnlyArcInjectable.message(), "only Arc<...> can be injected");
}

#[test]
fn ctxt_collects_in_order() {
    assert_eq!(Ctxt::new().check(), Ok(()));
    let mut c = Ctxt::new();
    c.push_spanned(3, DiagnosticKind::OnlyArcInjectable);
    c.push_spanned(1, DiagnosticKind::PatternNotInjectable);
    assert_eq!(
        c.check(),
        Err(vec![
            Diagnostic { param: 3, kind: DiagnosticKind::OnlyArcInjectable },
            Diagnostic { param: 1, kind: DiagnosticKind::PatternNotInjectable },
        ])
    );
}
