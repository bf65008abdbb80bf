//! What holds of every rewrite, proved over the rewriter's specification.
use vstd::prelude::*;
use crate::ctxt::{Diagnostic, DiagnosticKind};
use crate::rewrite::{
    arc_inner, diags_at, diags_of, has_inject, is_marked, is_valid_injected, key_of, marked_count,
    marker_name, markers_of, param_diag, param_text, params_out, rewrite_spec, unwrap_stmt,
    unwraps_of, FnItem, MarkerView, Param, RewriteView,
};

verus! {

proof fn lemma_unmarked(cr: Seq<char>, f: Seq<char>, ps: Seq<Param>)
    requires
        forall|k: int| 0 <= k < ps.len() ==> !is_marked(#[trigger] ps[k]),
    ensures
        diags_of(ps) == Seq::<Diagnostic>::empty(),
        markers_of(f, ps) == Seq::<MarkerView>::empty(),
        unwraps_of(cr, ps) == Seq::<Seq<char>>::empty(),
    decreases ps.len(),
{
    if ps.len() > 0 {
        assert(!is_marked(ps[ps.len() - 1]));
        lemma_unmarked(cr, f, ps.drop_last());
        assert(diags_of(ps) =~= Seq::<Diagnostic>::empty());
        assert(markers_of(f, ps) =~= Seq::<MarkerView>::empty());
        assert(unwraps_of(cr, ps) =~= Seq::<Seq<char>>::empty());
    }
}

/// A handler with no parameter marked `#[inject]` is left as it is: no
/// marker, every parameter with its own text, and the body unchanged.
pub proof fn law_unmarked_is_identity(cr: Seq<char>, f: FnItem)
    requires
        forall|k: int| 0 <= k < f.params@.len() ==> !is_marked(#[trigger] f.params@[k]),
    ensures
        rewrite_spec(cr, f) == Ok::<RewriteView, Seq<Diagnostic>>(
            RewriteView {
                markers: Seq::empty(),
                params: f.params@.map_values(|p: Param| param_text(p)),
                stmts: f.stmts@.map_values(|s: String| s@),
            },
        ),
{
    lemma_unmarked(cr, f.ident@, f.params@);
    assert(params_out(cr, f.ident@, f.params@) =~= f.params@.map_values(|p: Param| param_text(p)))
        by {
        assert forall|k: int| 0 <= k < f.params@.len() implies !is_marked(
            #[trigger] f.params@[k],
        ) by {}
    }
    assert(Seq::<Seq<char>>::empty() + f.stmts@.map_values(|s: String| s@) =~= f.stmts@.map_values(
        |s: String| s@,
    ));
}


/// The keys of the valid injected parameters are pairwise distinct, as the
/// names of a function's parameters are.
pub open spec fn injected_keys_distinct(ps: Seq<Param>) -> bool {
    forall|a: int, b: int|
        0 <= a < b < ps.len() && is_valid_injected(#[trigger] ps[a]) && is_valid_injected(
            #[trigger] ps[b],
        ) ==> key_of(ps[a]) != key_of(ps[b])
}

/// `key` is the key of a valid injected parameter of `ps`.
pub open spec fn key_of_valid(ps: Seq<Param>, key: Seq<char>) -> bool {
    exists|i: int| 0 <= i < ps.len() && is_valid_injected(#[trigger] ps[i]) && key_of(ps[i]) == key
}

proof fn lemma_marker_name_injective(f: Seq<char>, k1: Seq<char>, k2: Seq<char>)
    requires
        marker_name(f, k1) == marker_name(f, k2),
    ensures
        k1 == k2,
{
    let pre = "__"@ + f + "_"@;
    let n1 = marker_name(f, k1);
    assert(n1 =~= pre + k1 + "_Key"@);
    assert(marker_name(f, k2) =~= pre + k2 + "_Key"@);
    assert(k1.len() == k2.len());
    assert(n1.subrange(pre.len() as int, (pre.len() + k1.len()) as int) =~= k1);
    assert(marker_name(f, k2).subrange(pre.len() as int, (pre.len() + k2.len()) as int) =~= k2);
}

proof fn lemma_markers_shape(cr: Seq<char>, f: Seq<char>, ps: Seq<Param>)
    requires
        injected_keys_distinct(ps),
    ensures
        unwraps_of(cr, ps).len() == markers_of(f, ps).len(),
        forall|k: int|
            0 <= k < markers_of(f, ps).len() ==> #[trigger] unwraps_of(cr, ps)[k] == unwrap_stmt(
                cr,
                markers_of(f, ps)[k].key,
            ),
        forall|k: int|
            0 <= k < markers_of(f, ps).len() ==> (#[trigger] markers_of(f, ps)[k]).name
                == marker_name(f, markers_of(f, ps)[k].key),
        forall|k: int|
            0 <= k < markers_of(f, ps).len() ==> key_of_valid(ps, #[trigger] markers_of(f, ps)[k].key),
        forall|a: int, b: int|
            0 <= a < b < markers_of(f, ps).len() ==> (#[trigger] markers_of(f, ps)[a]).key != (
            #[trigger] markers_of(f, ps)[b]).key,
    decreases ps.len(),
{
    if ps.len() > 0 {
        let ps0 = ps.drop_last();
        assert forall|a: int, b: int|
            0 <= a < b < ps0.len() && is_valid_injected(#[trigger] ps0[a]) && is_valid_injected(
                #[trigger] ps0[b],
            ) implies key_of(ps0[a]) != key_of(ps0[b]) by {
            assert(ps0[a] == ps[a] && ps0[b] == ps[b]);
        }
        lemma_markers_shape(cr, f, ps0);
        let m0 = markers_of(f, ps0);
        let m = markers_of(f, ps);
        let last = ps.last();
        if is_valid_injected(last) {
            let mk = MarkerView {
                name: marker_name(f, key_of(last)),
                key: key_of(last),
                service_ty: crate::rewrite::service_of(last),
            };
            assert(m =~= m0.push(mk));
            assert(unwraps_of(cr, ps) =~= unwraps_of(cr, ps0).push(unwrap_stmt(cr, key_of(last))));
            assert forall|k: int| 0 <= k < m.len() implies #[trigger] unwraps_of(cr, ps)[k]
                == unwrap_stmt(cr, m[k].key) && m[k].name == marker_name(f, m[k].key) by {
                if k < m0.len() {
                    assert(m[k] == m0[k]);
                    assert(unwraps_of(cr, ps)[k] == unwraps_of(cr, ps0)[k]);
                }
            }
            assert forall|k: int| 0 <= k < m.len() implies key_of_valid(ps, #[trigger] m[k].key) by {
                if k == m0.len() {
                    assert(is_valid_injected(ps[ps.len() - 1]));
                } else {
                    assert(m[k] == m0[k]);
                    let i = choose|i: int|
                        0 <= i < ps0.len() && is_valid_injected(#[trigger] ps0[i]) && key_of(ps0[i])
                            == m0[k].key;
                    assert(ps[i] == ps0[i]);
                }
            }
            assert forall|a: int, b: int| 0 <= a < b < m.len() implies (#[trigger] m[a]).key != (
            #[trigger] m[b]).key by {
                if b == m0.len() {
                    assert(m[a] == m0[a]);
                    let i = choose|i: int|
                        0 <= i < ps0.len() && is_valid_injected(#[trigger] ps0[i]) && key_of(ps0[i])
                            == m0[a].key;
                    assert(ps[i] == ps0[i]);
                    assert(is_valid_injected(ps[ps.len() - 1]));
                } else {
                    assert(m[a] == m0[a] && m[b] == m0[b]);
                }
            }
        } else {
            assert(m =~= m0);
            assert(unwraps_of(cr, ps) =~= unwraps_of(cr, ps0));
            assert forall|k: int| 0 <= k < m.len() implies key_of_valid(ps, #[trigger] m[k].key) by {
                let i = choose|i: int|
                    0 <= i < ps0.len() && is_valid_injected(#[trigger] ps0[i]) && key_of(ps0[i])
                        == m0[k].key;
                assert(ps[i] == ps0[i]);
            }
        }
    }
}

proof fn lemma_marker_count(f: Seq<char>, ps: Seq<Param>)
    requires
        diags_of(ps).len() == 0,
    ensures
        markers_of(f, ps).len() == marked_count(ps),
    decreases ps.len(),
{
    if ps.len() > 0 {
        lemma_marker_count(f, ps.drop_last());
    }
}

/// When every marked parameter is valid and their names differ, the rewrite
/// declares one marker per marked parameter, with pairwise distinct names,
/// and the body opens with one statement per marker that unwraps the
/// parameter of that key, followed by the original statements.
pub proof fn law_markers_and_unwraps(cr: Seq<char>, f: FnItem)
    requires
        diags_of(f.params@).len() == 0,
        injected_keys_distinct(f.params@),
    ensures
        rewrite_spec(cr, f) matches Ok(w) && {
            let n = w.markers.len();
            &&& n == marked_count(f.params@)
            &&& forall|a: int, b: int| 0 <= a < b < n ==> (#[trigger] w.markers[a]).name != (#[trigger] w.markers[b]).name
            &&& forall|k: int| 0 <= k < n ==> (#[trigger] w.markers[k]).name == marker_name(f.ident@, w.markers[k].key)
            &&& w.stmts.len() == n + f.stmts@.len()
            &&& forall|k: int| 0 <= k < n ==> #[trigger] w.stmts[k] == unwrap_stmt(cr, w.markers[k].key)
            &&& w.stmts.subrange(n as int, w.stmts.len() as int) == f.stmts@.map_values(|s: String| s@)
        },
{
    let ps = f.params@;
    lemma_markers_shape(cr, f.ident@, ps);
    lemma_marker_count(f.ident@, ps);
    let m = markers_of(f.ident@, ps);
    let u = unwraps_of(cr, ps);
    let body = f.stmts@.map_values(|s: String| s@);
    assert((u + body).subrange(m.len() as int, (u + body).len() as int) =~= body);
    assert forall|a: int, b: int| 0 <= a < b < m.len() implies (#[trigger] m[a]).name != (
    #[trigger] m[b]).name by {
        if m[a].name == m[b].name {
            lemma_marker_name_injective(f.ident@, m[a].key, m[b].key);
        }
    }
    assert forall|k: int| 0 <= k < m.len() implies #[trigger] (u + body)[k] == unwrap_stmt(
        cr,
        m[k].key,
    ) by {
        assert((u + body)[k] == u[k]);
    }
}


proof fn lemma_diags_at_add(a: Seq<Diagnostic>, b: Seq<Diagnostic>, i: usize)
    ensures
        diags_at(a + b, i) == diags_at(a, i) + diags_at(b, i),
    decreases b.len(),
{
    if b.len() == 0 {
        assert(a + b =~= a);
        assert(diags_at(a, i) + diags_at(b, i) =~= diags_at(a, i));
    } else {
        assert((a + b).drop_last() =~= a + b.drop_last());
        lemma_diags_at_add(a, b.drop_last(), i);
        assert(diags_at(a + b, i) =~= diags_at(a, i) + diags_at(b, i));
    }
}

proof fn lemma_diags_at_none(ds: Seq<Diagnostic>, i: usize)
    requires
        forall|k: int| 0 <= k < ds.len() ==> (#[trigger] ds[k]).param != i,
    ensures
        diags_at(ds, i) == Seq::<Diagnostic>::empty(),
    decreases ds.len(),
{
    if ds.len() > 0 {
        assert(ds[ds.len() - 1].param != i);
        lemma_diags_at_none(ds.drop_last(), i);
        assert(diags_at(ds, i) =~= Seq::<Diagnostic>::empty());
    }
}

proof fn lemma_diag_params_below(ps: Seq<Param>)
    requires
        ps.len() <= usize::MAX,
    ensures
        forall|k: int| 0 <= k < diags_of(ps).len() ==> (#[trigger] diags_of(ps)[k]).param < ps.len(),
    decreases ps.len(),
{
    if ps.len() > 0 {
        let ps0 = ps.drop_last();
        lemma_diag_params_below(ps0);
        assert forall|k: int| 0 <= k < diags_of(ps).len() implies (
        #[trigger] diags_of(ps)[k]).param < ps.len() by {
            if k < diags_of(ps0).len() {
                assert(diags_of(ps)[k] == diags_of(ps0)[k]);
            }
        }
    }
}

/// The diagnostics at parameter `i` are exactly that parameter's own error.
proof fn lemma_diags_at(ps: Seq<Param>, i: usize)
    requires
        i < ps.len() <= usize::MAX,
    ensures
        diags_at(diags_of(ps), i) == match param_diag(ps[i as int]) {
            Some(k) => seq![Diagnostic { param: i, kind: k }],
            None => Seq::<Diagnostic>::empty(),
        },
    decreases ps.len(),
{
    let ps0 = ps.drop_last();
    let last = (ps.len() - 1) as usize;
    let tail = match param_diag(ps.last()) {
        Some(k) => seq![Diagnostic { param: last, kind: k }],
        None => Seq::<Diagnostic>::empty(),
    };
    assert(diags_of(ps) == diags_of(ps0) + tail);
    lemma_diags_at_add(diags_of(ps0), tail, i);
    assert(diags_at(Seq::<Diagnostic>::empty(), i) == Seq::<Diagnostic>::empty());
    if tail.len() > 0 {
        assert(tail.drop_last() =~= Seq::<Diagnostic>::empty());
        assert(tail.last().param == last);
    }
    if i == last {
        lemma_diag_params_below(ps0);
        lemma_diags_at_none(diags_of(ps0), i);
        assert(diags_at(tail, i) =~= tail) by {
            if tail.len() == 0 {
                assert(diags_at(tail, i) == Seq::<Diagnostic>::empty());
            }
        }
    } else {
        lemma_diags_at(ps0, i);
        assert(ps0[i as int] == ps[i as int]);
        assert(diags_at(tail, i) =~= Seq::<Diagnostic>::empty()) by {
            if tail.len() == 0 {
                assert(diags_at(tail, i) == Seq::<Diagnostic>::empty());
            }
        }
    }
    assert(diags_at(diags_of(ps), i) =~= match param_diag(ps[i as int]) {
        Some(k) => seq![Diagnostic { param: i, kind: k }],
        None => Seq::<Diagnostic>::empty(),
    });
}

proof fn lemma_diags_at_two(ds: Seq<Diagnostic>, i: usize, j: usize)
    requires
        i != j,
    ensures
        diags_at(ds, i).len() + diags_at(ds, j).len() <= ds.len(),
    decreases ds.len(),
{
    if ds.len() > 0 {
        lemma_diags_at_two(ds.drop_last(), i, j);
    }
}

/// An `#[inject]` parameter that binds a destructuring pattern yields exactly
/// one diagnostic, "pattern cannot be injected", gets no marker, and the
/// rewrite produces diagnostics only.
pub proof fn law_pattern_not_injectable(cr: Seq<char>, f: FnItem, i: usize)
    requires
        i < f.params@.len() <= usize::MAX,
        f.params@[i as int] matches Param::Typed(t) && has_inject(t.attrs@) && t.pat.ident is None,
    ensures
        diags_at(diags_of(f.params@), i) == seq![
            Diagnostic { param: i, kind: DiagnosticKind::PatternNotInjectable },
        ],
        !is_valid_injected(f.params@[i as int]),
        rewrite_spec(cr, f) == Err::<RewriteView, Seq<Diagnostic>>(diags_of(f.params@)),
{
    lemma_diags_at(f.params@, i);
    lemma_diags_at_two(diags_of(f.params@), i, (i + 1) as usize);
}

/// An `#[inject]` parameter that binds a plain name but whose type is not
/// `Arc<T>` for exactly one type `T` yields exactly one diagnostic, "only
/// Arc<...> can be injected", gets no marker, and the rewrite produces
/// diagnostics only.
pub proof fn law_only_arc_injectable(cr: Seq<char>, f: FnItem, i: usize)
    requires
        i < f.params@.len() <= usize::MAX,
        f.params@[i as int] matches Param::Typed(t) && has_inject(t.attrs@) && t.pat.ident is Some
            && arc_inner(t.ty) is None,
    ensures
        diags_at(diags_of(f.params@), i) == seq![
            Diagnostic { param: i, kind: DiagnosticKind::OnlyArcInjectable },
        ],
        !is_valid_injected(f.params@[i as int]),
        rewrite_spec(cr, f) == Err::<RewriteView, Seq<Diagnostic>>(diags_of(f.params@)),
{
    lemma_diags_at(f.params@, i);
    lemma_diags_at_two(diags_of(f.params@), i, (i + 1) as usize);
}

/// Errors are collected: two invalid `#[inject]` parameters each yield their
/// own diagnostic, so the rewrite reports at least two.
pub proof fn law_errors_collected(cr: Seq<char>, f: FnItem, i: usize, j: usize)
    requires
        i < j < f.params@.len() <= usize::MAX,
        param_diag(f.params@[i as int]) is Some,
        param_diag(f.params@[j as int]) is Some,
    ensures
        diags_at(diags_of(f.params@), i).len() == 1,
        diags_at(diags_of(f.params@), j).len() == 1,
        diags_of(f.params@).len() >= 2,
        rewrite_spec(cr, f) == Err::<RewriteView, Seq<Diagnostic>>(diags_of(f.params@)),
{
    lemma_diags_at(f.params@, i);
    lemma_diags_at(f.params@, j);
    lemma_diags_at_two(diags_of(f.params@), i, j);
}

} // verus!
