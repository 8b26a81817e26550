//! Canonicalizer and fingerprint encoder.
//!
//! A precondition set is encoded as one marker-type expression: the set is
//! sorted into the total order on kinds and each element is rendered as a
//! distinct marker-type instantiation.  Two set-equal precondition lists
//! render to byte-identical text, whatever order they were declared in, so
//! the host's type checker alone can compare declared and asserted
//! obligations.

use vstd::prelude::*;
use vstd::relations::sorted_by;
use vstd::seq_lib::lemma_sorted_unique;
use vstd::string::StringExecFns;
use crate::text::{escape_text, lemma_concat_cancel_left, lemma_escaped_unambiguous, spec_escaped};
use crate::precondition::{
    kind_le, kind_le_exec, kind_le_ff, lemma_kind_le_connected, lemma_kind_le_total_ordering,
    lemma_kind_le_trans, precondition_views, KindView, Precondition, PreconditionKind,
    PreconditionView,
};

verus! {

broadcast use vstd::seq_lib::group_to_multiset_ensures, vstd::multiset::group_multiset_axioms;

/// The kinds named by a sequence of preconditions.
pub open spec fn pre_kinds(s: Seq<Precondition>) -> Seq<KindView> {
    s.map_values(|p: Precondition| p.kind@)
}

/// The canonical order of a collection of kinds: sorted by [`kind_le`].
pub open spec fn canonical_kinds(ks: Seq<KindView>) -> Seq<KindView> {
    ks.sort_by(kind_le_ff())
}

/// The rendered marker-type instantiation for one kind.  The payload is
/// escaped, so the quotes around it always delimit exactly the payload:
/// no condition text can imitate the rendering of a different set.
pub open spec fn spec_render_kind(k: KindView, cn: Seq<char>) -> Seq<char> {
    match k {
        KindView::Custom(s) => {
            "::"@ + cn + "::CustomConditionHolds::<\""@ + spec_escaped(s) + "\">"@
        },
        KindView::ValidPtr(s) => {
            "::"@ + cn + "::ValidPtrConditionHolds::<\""@ + spec_escaped(s) + "\">"@
        },
    }
}

/// The rendered tail of a kind list from index `i` on, each element followed
/// by a separating comma.
pub open spec fn spec_render_items(ks: Seq<KindView>, cn: Seq<char>, i: int) -> Seq<char>
    decreases ks.len() - i,
{
    if 0 <= i < ks.len() {
        spec_render_kind(ks[i], cn) + ", "@ + spec_render_items(ks, cn, i + 1)
    } else {
        Seq::empty()
    }
}

/// The deterministic fingerprint of a precondition set: its kinds in
/// canonical order, rendered.
pub open spec fn spec_fingerprint(ks: Seq<KindView>, cn: Seq<char>) -> Seq<char> {
    spec_render_items(canonical_kinds(ks), cn, 0)
}

/// The marker type appended to an annotated declaration's parameter list.
pub open spec fn spec_marker_ty(ks: Seq<KindView>, cn: Seq<char>) -> Seq<char> {
    "::core::marker::PhantomData<("@ + spec_fingerprint(ks, cn) + ")>"@
}

/// The marker argument appended to an annotated call's argument list.
pub open spec fn spec_marker_arg(ks: Seq<KindView>, cn: Seq<char>) -> Seq<char> {
    "::core::marker::PhantomData::<("@ + spec_fingerprint(ks, cn) + ")>"@
}

/// Inserting anywhere in a sequence adds the element to its multiset.
proof fn lemma_to_multiset_insert<A>(s: Seq<A>, i: int, a: A)
    requires
        0 <= i <= s.len(),
    ensures
        s.insert(i, a).to_multiset() == s.to_multiset().insert(a),
{
    let t = s.insert(i, a);
    assert(t.remove(i) =~= s);
    assert(t[i] == a);
    assert(t.remove(i).to_multiset() =~= t.to_multiset().remove(a));
    assert(t.contains(a)) by {
        assert(t[i] == a);
    }
    assert(t.to_multiset().count(a) > 0);
    assert(t.to_multiset() =~= s.to_multiset().insert(a)) by {
        assert(s.to_multiset() == t.to_multiset().remove(a));
    }
}

/// Inserts one precondition into a list kept sorted by kind.
fn insert_sorted(out: &mut Vec<Precondition>, x: Precondition)
    requires
        sorted_by(pre_kinds(old(out)@), kind_le_ff()),
    ensures
        sorted_by(pre_kinds(final(out)@), kind_le_ff()),
        pre_kinds(final(out)@).to_multiset() == pre_kinds(old(out)@).to_multiset().insert(
            x.kind@,
        ),
        precondition_views(final(out)@).to_multiset() == precondition_views(
            old(out)@,
        ).to_multiset().insert(x@),
{
    proof {
        lemma_kind_le_total_ordering();
    }
    let mut i: usize = 0;
    loop
        invariant
            i <= out.len(),
            out@ == old(out)@,
            sorted_by(pre_kinds(out@), kind_le_ff()),
            forall|j: int| 0 <= j < i ==> kind_le(#[trigger] pre_kinds(out@)[j], x.kind@),
        ensures
            i <= out.len(),
            out@ == old(out)@,
            forall|j: int| 0 <= j < i ==> kind_le(#[trigger] pre_kinds(out@)[j], x.kind@),
            i < out.len() ==> !kind_le(pre_kinds(out@)[i as int], x.kind@),
        decreases out.len() - i,
    {
        if i == out.len() {
            break;
        }
        if !kind_le_exec(&out[i].kind, &x.kind) {
            break;
        }
        assert(pre_kinds(out@)[i as int] == out@[i as int].kind@);
        i = i + 1;
    }
    let ghost old_kinds = pre_kinds(out@);
    let ghost old_views = precondition_views(out@);
    let ghost xk = x.kind@;
    let ghost xv = x@;
    let ghost ipos = i as int;
    out.insert(i, x);
    proof {
        let new_views = precondition_views(out@);
        assert(new_views =~= old_views.insert(ipos, xv)) by {
            assert forall|j: int| 0 <= j < new_views.len() implies new_views[j]
                == old_views.insert(ipos, xv)[j] by {
                assert(new_views[j] == out@[j]@);
                if j < ipos {
                    assert(out@[j] == old(out)@[j]);
                } else if j == ipos {
                } else {
                    assert(out@[j] == old(out)@[j - 1]);
                }
            }
        }
        lemma_to_multiset_insert(old_views, ipos, xv);
        let new_kinds = pre_kinds(out@);
        assert(new_kinds =~= old_kinds.insert(ipos, xk)) by {
            assert forall|j: int| 0 <= j < new_kinds.len() implies new_kinds[j]
                == old_kinds.insert(ipos, xk)[j] by {
                assert(new_kinds[j] == out@[j].kind@);
                if j < ipos {
                    assert(out@[j] == old(out)@[j]);
                } else if j == ipos {
                } else {
                    assert(out@[j] == old(out)@[j - 1]);
                }
            }
        }
        lemma_to_multiset_insert(old_kinds, ipos, xk);
        let leq = kind_le_ff();
        assert(sorted_by(new_kinds, leq)) by {
            assert forall|p: int, q: int| 0 <= p < q < new_kinds.len() implies #[trigger] leq(
                new_kinds[p],
                new_kinds[q],
            ) by {
                if q < ipos {
                    assert(leq(old_kinds[p], old_kinds[q]));
                } else if p == ipos {
                    // Everything past the insertion point is at least `x`.
                    assert(new_kinds[q] == old_kinds[q - 1]);
                    assert(ipos < old_kinds.len());
                    lemma_kind_le_connected(old_kinds[ipos], xk);
                    assert(kind_le(xk, old_kinds[ipos]));
                    if q - 1 > ipos {
                        assert(leq(old_kinds[ipos], old_kinds[q - 1]));
                        lemma_kind_le_trans(xk, old_kinds[ipos], old_kinds[q - 1]);
                    }
                    assert(kind_le(xk, old_kinds[q - 1]));
                } else if q == ipos {
                    // Everything before the insertion point is at most `x`.
                    assert(kind_le(old_kinds[p], xk));
                } else if p < ipos {
                    assert(new_kinds[p] == old_kinds[p]);
                    assert(new_kinds[q] == old_kinds[q - 1]);
                    assert(leq(old_kinds[p], old_kinds[q - 1]));
                } else {
                    assert(new_kinds[p] == old_kinds[p - 1]);
                    assert(new_kinds[q] == old_kinds[q - 1]);
                    assert(leq(old_kinds[p - 1], old_kinds[q - 1]));
                }
            }
        }
    }
}

/// Sorts a precondition list into the canonical order on kinds.  The
/// result holds exactly the input preconditions, reasons and spans
/// included.
pub fn sort_preconditions(pres: Vec<Precondition>) -> (r: Vec<Precondition>)
    ensures
        sorted_by(pre_kinds(r@), kind_le_ff()),
        pre_kinds(r@) == canonical_kinds(pre_kinds(pres@)),
        precondition_views(r@).to_multiset() == precondition_views(pres@).to_multiset(),
{
    let ghost all = pre_kinds(pres@);
    let ghost all_views = precondition_views(pres@);
    let mut rest = pres;
    let mut out: Vec<Precondition> = Vec::new();
    proof {
        assert(pre_kinds(out@) =~= Seq::<KindView>::empty());
        assert(precondition_views(out@) =~= Seq::<PreconditionView>::empty());
        assert(pre_kinds(out@).to_multiset().add(pre_kinds(rest@).to_multiset()) =~= all
            .to_multiset());
        assert(precondition_views(out@).to_multiset().add(precondition_views(rest@).to_multiset())
            =~= all_views.to_multiset());
    }
    while rest.len() > 0
        invariant
            sorted_by(pre_kinds(out@), kind_le_ff()),
            pre_kinds(out@).to_multiset().add(pre_kinds(rest@).to_multiset()) == all.to_multiset(),
            precondition_views(out@).to_multiset().add(precondition_views(rest@).to_multiset())
                == all_views.to_multiset(),
        decreases rest.len(),
    {
        let ghost rest_kinds = pre_kinds(rest@);
        let ghost rest_views = precondition_views(rest@);
        let ghost out_kinds = pre_kinds(out@);
        let ghost out_views = precondition_views(out@);
        let x = rest.remove(0);
        proof {
            assert(pre_kinds(rest@) =~= rest_kinds.remove(0)) by {
                assert forall|j: int| 0 <= j < rest@.len() implies pre_kinds(rest@)[j]
                    == rest_kinds.remove(0)[j] by {
                    assert(pre_kinds(rest@)[j] == rest@[j].kind@);
                }
            }
            assert(precondition_views(rest@) =~= rest_views.remove(0)) by {
                assert forall|j: int| 0 <= j < rest@.len() implies precondition_views(rest@)[j]
                    == rest_views.remove(0)[j] by {
                    assert(precondition_views(rest@)[j] == rest@[j]@);
                }
            }
            assert(rest_kinds.remove(0).to_multiset() =~= rest_kinds.to_multiset().remove(
                rest_kinds[0],
            ));
            assert(rest_views.remove(0).to_multiset() =~= rest_views.to_multiset().remove(
                rest_views[0],
            ));
            assert(rest_kinds[0] == x.kind@);
            assert(rest_views[0] == x@);
        }
        insert_sorted(&mut out, x);
        proof {
            assert(rest_kinds.to_multiset().count(x.kind@) > 0) by {
                assert(rest_kinds[0] == x.kind@);
                assert(rest_kinds.contains(x.kind@));
            }
            assert(rest_views.to_multiset().count(x@) > 0) by {
                assert(rest_views[0] == x@);
                assert(rest_views.contains(x@));
            }
            assert(pre_kinds(out@).to_multiset().add(pre_kinds(rest@).to_multiset())
                =~= all.to_multiset()) by {
                assert(pre_kinds(out@).to_multiset() == out_kinds.to_multiset().insert(x.kind@));
                assert(pre_kinds(rest@).to_multiset() == rest_kinds.to_multiset().remove(x.kind@));
            }
            assert(precondition_views(out@).to_multiset().add(precondition_views(rest@)
                .to_multiset()) =~= all_views.to_multiset()) by {
                assert(precondition_views(out@).to_multiset() == out_views.to_multiset().insert(
                    x@,
                ));
                assert(precondition_views(rest@).to_multiset() == rest_views.to_multiset().remove(
                    x@,
                ));
            }
        }
    }
    proof {
        assert(pre_kinds(rest@) =~= Seq::<KindView>::empty());
        assert(precondition_views(rest@) =~= Seq::<PreconditionView>::empty());
        assert(pre_kinds(out@).to_multiset() =~= all.to_multiset());
        assert(precondition_views(out@).to_multiset() =~= all_views.to_multiset());
        lemma_kind_le_total_ordering();
        all.lemma_sort_by_ensures(kind_le_ff());
        lemma_sorted_unique(pre_kinds(out@), all.sort_by(kind_le_ff()), kind_le_ff());
    }
    out
}

/// Renders one kind as a marker-type instantiation.
fn render_kind(k: &PreconditionKind, crate_name: &str) -> (r: String)
    ensures
        r@ == spec_render_kind(k@, crate_name@),
{
    let mut s = String::new();
    s.append("::");
    s.append(crate_name);
    match k {
        PreconditionKind::Custom(text) => {
            s.append("::CustomConditionHolds::<\"");
            let escaped = escape_text(text.as_str());
            s.append(escaped.as_str());
        },
        PreconditionKind::ValidPtr(name) => {
            s.append("::ValidPtrConditionHolds::<\"");
            let escaped = escape_text(name.as_str());
            s.append(escaped.as_str());
        },
    }
    s.append("\">");
    proof {
        assert(s@ =~= spec_render_kind(k@, crate_name@));
    }
    s
}

/// Renders the elements of a sorted precondition list from index `i` on.
fn render_items(pres: &Vec<Precondition>, i: usize, crate_name: &str) -> (r: String)
    requires
        i <= pres.len(),
    ensures
        r@ == spec_render_items(pre_kinds(pres@), crate_name@, i as int),
    decreases pres.len() - i,
{
    if i == pres.len() {
        String::new()
    } else {
        let mut s = render_kind(&pres[i].kind, crate_name);
        s.append(", ");
        let rest = render_items(pres, i + 1, crate_name);
        s.append(rest.as_str());
        proof {
            assert(pre_kinds(pres@)[i as int] == pres@[i as int].kind@);
            assert(s@ =~= spec_render_items(pre_kinds(pres@), crate_name@, i as int));
        }
        s
    }
}

/// Renders the canonical fingerprint of a precondition list.
///
/// The result depends only on the *set* of kinds, never on declaration
/// order.
pub fn render_fingerprint(pres: Vec<Precondition>, crate_name: &str) -> (r: String)
    ensures
        r@ == spec_fingerprint(pre_kinds(pres@), crate_name@),
{
    let sorted = sort_preconditions(pres);
    render_items(&sorted, 0, crate_name)
}

/// Renders the marker type for a declaration's extra parameter.
pub fn render_marker_ty(pres: Vec<Precondition>, crate_name: &str) -> (r: String)
    ensures
        r@ == spec_marker_ty(pre_kinds(pres@), crate_name@),
{
    let fp = render_fingerprint(pres, crate_name);
    let mut s = String::new();
    s.append("::core::marker::PhantomData<(");
    s.append(fp.as_str());
    s.append(")>");
    proof {
        assert(s@ =~= spec_marker_ty(pre_kinds(pres@), crate_name@));
    }
    s
}

/// Renders the marker argument for a call's extra argument.
pub fn render_marker_arg(pres: Vec<Precondition>, crate_name: &str) -> (r: String)
    ensures
        r@ == spec_marker_arg(pre_kinds(pres@), crate_name@),
{
    let fp = render_fingerprint(pres, crate_name);
    let mut s = String::new();
    s.append("::core::marker::PhantomData::<(");
    s.append(fp.as_str());
    s.append(")>");
    proof {
        assert(s@ =~= spec_marker_arg(pre_kinds(pres@), crate_name@));
    }
    s
}

/// One rendered item followed by arbitrary text determines the kind and the
/// text: the escaping makes the closing quote unmistakable, and the marker
/// name distinguishes the variants.
proof fn lemma_render_kind_unambiguous(
    k1: KindView,
    k2: KindView,
    cn: Seq<char>,
    r1: Seq<char>,
    r2: Seq<char>,
)
    requires
        spec_render_kind(k1, cn) + r1 == spec_render_kind(k2, cn) + r2,
    ensures
        k1 == k2,
        r1 == r2,
{
    reveal_strlit("::");
    reveal_strlit("::CustomConditionHolds::<\"");
    reveal_strlit("::ValidPtrConditionHolds::<\"");
    reveal_strlit("\">");
    let p = "::"@ + cn;
    let nc = "::CustomConditionHolds::<\""@;
    let nv = "::ValidPtrConditionHolds::<\""@;
    let term = "\">"@;
    let s1 = match k1 {
        KindView::Custom(s) => s,
        KindView::ValidPtr(s) => s,
    };
    let s2 = match k2 {
        KindView::Custom(s) => s,
        KindView::ValidPtr(s) => s,
    };
    let n1 = if k1 is Custom {
        nc
    } else {
        nv
    };
    let n2 = if k2 is Custom {
        nc
    } else {
        nv
    };
    let l1 = n1 + (spec_escaped(s1) + (term + r1));
    let l2 = n2 + (spec_escaped(s2) + (term + r2));
    assert(spec_render_kind(k1, cn) + r1 =~= p + l1);
    assert(spec_render_kind(k2, cn) + r2 =~= p + l2);
    lemma_concat_cancel_left(p, l1, l2);
    assert(n1[2] == l1[2]);
    assert(n2[2] == l2[2]);
    assert(nc[2] == 'C');
    assert(nv[2] == 'V');
    if k1 is Custom != k2 is Custom {
        assert(false);
    }
    assert(n1 == n2);
    lemma_concat_cancel_left(n1, spec_escaped(s1) + (term + r1), spec_escaped(s2) + (term + r2));
    assert((term + r1)[0] == '"');
    assert((term + r2)[0] == '"');
    assert((term + r1).len() > 0);
    lemma_escaped_unambiguous(s1, s2, term + r1, term + r2);
    lemma_concat_cancel_left(term, r1, r2);
}

/// A rendered item list determines the items: the fingerprint text of a
/// canonical list can be read back in only one way.
proof fn lemma_render_items_unambiguous(
    a: Seq<KindView>,
    b: Seq<KindView>,
    cn: Seq<char>,
    i: int,
    j: int,
)
    requires
        0 <= i <= a.len(),
        0 <= j <= b.len(),
        spec_render_items(a, cn, i) == spec_render_items(b, cn, j),
    ensures
        a.skip(i) == b.skip(j),
    decreases a.len() - i,
{
    reveal_strlit("::");
    if i == a.len() && j == b.len() {
        assert(a.skip(i) =~= b.skip(j));
    } else if i == a.len() {
        assert(spec_render_items(b, cn, j).len() >= 2) by {
            assert(spec_render_kind(b[j], cn).len() >= 2);
        }
        assert(false);
    } else if j == b.len() {
        assert(spec_render_items(a, cn, i).len() >= 2) by {
            assert(spec_render_kind(a[i], cn).len() >= 2);
        }
        assert(false);
    } else {
        let sep = ", "@;
        let ra = sep + spec_render_items(a, cn, i + 1);
        let rb = sep + spec_render_items(b, cn, j + 1);
        assert(spec_render_items(a, cn, i) =~= spec_render_kind(a[i], cn) + ra);
        assert(spec_render_items(b, cn, j) =~= spec_render_kind(b[j], cn) + rb);
        lemma_render_kind_unambiguous(a[i], b[j], cn, ra, rb);
        lemma_concat_cancel_left(sep, spec_render_items(a, cn, i + 1), spec_render_items(b, cn, j + 1));
        lemma_render_items_unambiguous(a, b, cn, i + 1, j + 1);
        assert(a.skip(i) =~= b.skip(j)) by {
            assert(a.skip(i).len() == a.len() - i);
            assert(b.skip(j).len() == b.len() - j);
            assert(a.skip(i + 1).len() == a.len() - i - 1);
            assert forall|t: int| 0 <= t < a.skip(i).len() implies a.skip(i)[t] == b.skip(j)[t] by {
                if t > 0 {
                    assert(a.skip(i + 1)[t - 1] == a.skip(i)[t]);
                    assert(b.skip(j + 1)[t - 1] == b.skip(j)[t]);
                }
            }
        }
    }
}

/// Equal fingerprints name equal sets: the encoding is injective up to
/// order, so a marker-type match between a declaration and a call means
/// the two precondition sets are the same, and a mismatch is always a
/// type error.  Together with order independence this makes the rendered
/// encoding equal exactly when the sets are.
pub proof fn lemma_fingerprint_injective(a: Seq<KindView>, b: Seq<KindView>, cn: Seq<char>)
    requires
        spec_fingerprint(a, cn) == spec_fingerprint(b, cn),
    ensures
        a.to_multiset() == b.to_multiset(),
{
    lemma_kind_le_total_ordering();
    a.lemma_sort_by_ensures(kind_le_ff());
    b.lemma_sort_by_ensures(kind_le_ff());
    lemma_render_items_unambiguous(canonical_kinds(a), canonical_kinds(b), cn, 0, 0);
    assert(canonical_kinds(a).skip(0) =~= canonical_kinds(a));
    assert(canonical_kinds(b).skip(0) =~= canonical_kinds(b));
    assert(canonical_kinds(a) == canonical_kinds(b));
}

/// Order independence of the encoding: any two declaration orders of one
/// precondition set render to identical text.
pub proof fn lemma_fingerprint_order_independent(
    a: Seq<KindView>,
    b: Seq<KindView>,
    crate_name: Seq<char>,
)
    requires
        a.to_multiset() == b.to_multiset(),
    ensures
        spec_fingerprint(a, crate_name) == spec_fingerprint(b, crate_name),
{
    lemma_kind_le_total_ordering();
    a.lemma_sort_by_ensures(kind_le_ff());
    b.lemma_sort_by_ensures(kind_le_ff());
    lemma_sorted_unique(a.sort_by(kind_le_ff()), b.sort_by(kind_le_ff()), kind_le_ff());
    assert(canonical_kinds(a) == canonical_kinds(b));
}

} // verus!
