//! The mirror generator.
//!
//! Given a module of external function signatures (no bodies) and a target
//! path, synthesizes a same-shaped module of thin forwarding functions,
//! recursively over nested modules.  Every forwarder calls the
//! corresponding path-qualified external function with its original
//! arguments; imports are copied verbatim; a wildcard import of the target
//! path and an import of the processor's own interface are injected into
//! every synthesized module.  Public visibility is propagated as-is to
//! descendants; anything weaker is normalized to library-internal so the
//! wrapper cannot widen access.  The annotations found on the original
//! signatures ride along on the forwarders, which therefore go through the
//! same validation and rewriting pipeline as hand-written functions.

use vstd::prelude::*;
use vstd::string::StringExecFns;
use crate::syntax::{
    attr_views, clone_strings, string_views, Attr, AttrView, Path, PathView,
    Signature, SignatureView, Visibility,
};

verus! {

/// One external function signature to be mirrored.
pub struct ForeignFn {
    /// The attributes on the signature, annotation blocks included.
    pub attrs: Vec<Attr>,
    pub sig: Signature,
}

/// The mathematical shape of an external signature.
pub struct ForeignFnView {
    pub attrs: Seq<AttrView>,
    pub sig: SignatureView,
}

impl View for ForeignFn {
    type V = ForeignFnView;

    open spec fn view(&self) -> ForeignFnView {
        ForeignFnView { attrs: attr_views(self.attrs@), sig: self.sig@ }
    }
}

/// A parsed external-signature module: read-only input to one render pass.
pub struct MirrorModule {
    /// Rendered attributes on the module itself, copied through.
    pub attrs: Vec<String>,
    pub vis: Visibility,
    pub name: String,
    /// Rendered import statements, copied verbatim into the output.
    pub imports: Vec<String>,
    pub functions: Vec<ForeignFn>,
    pub modules: Vec<MirrorModule>,
}

/// One synthesized forwarding function: its body is a single call of
/// `callee` with `args`, in that order.
pub struct Forwarder {
    /// The attributes carried over from the original signature.
    pub attrs: Vec<Attr>,
    pub vis: Visibility,
    pub sig: Signature,
    /// The path-qualified external function the body calls.
    pub callee: Path,
    /// The call's arguments: the parameter patterns, in declaration order.
    pub args: Vec<String>,
}

/// The mathematical shape of a forwarder.
pub struct ForwarderView {
    pub attrs: Seq<AttrView>,
    pub vis: Visibility,
    pub sig: SignatureView,
    pub callee: PathView,
    pub args: Seq<Seq<char>>,
}

impl View for Forwarder {
    type V = ForwarderView;

    open spec fn view(&self) -> ForwarderView {
        ForwarderView {
            attrs: attr_views(self.attrs@),
            vis: self.vis,
            sig: self.sig@,
            callee: self.callee@,
            args: string_views(self.args@),
        }
    }
}

/// A synthesized module, mirroring one input module node for node.
pub struct RenderedModule {
    pub attrs: Vec<String>,
    pub vis: Visibility,
    pub name: String,
    /// The injected `use <path>::*;` import.
    pub glob_import: String,
    /// The injected import of the processor's own interface.
    pub processor_import: String,
    /// The imports copied verbatim from the input module.
    pub imports: Vec<String>,
    pub functions: Vec<Forwarder>,
    pub modules: Vec<RenderedModule>,
}

/// The parameter patterns of a signature, in order.
pub open spec fn param_pats(ps: Seq<crate::syntax::ParamView>) -> Seq<Seq<char>> {
    ps.map_values(|p: crate::syntax::ParamView| p.pat)
}

/// The forwarder synthesized for one external signature under `path`.
pub open spec fn spec_mirror_fn(f: ForeignFnView, path: PathView, vis: Visibility) -> ForwarderView {
    ForwarderView {
        attrs: f.attrs,
        vis,
        sig: f.sig,
        callee: PathView { leading_colon: path.leading_colon, segs: path.segs.push(f.sig.name) },
        args: param_pats(f.sig.params),
    }
}

/// The visibility handed to everything below a module: public stays
/// public, anything weaker becomes library-internal.
pub open spec fn spec_child_vis(v: Visibility) -> Visibility {
    match v {
        Visibility::Public => Visibility::Public,
        _ => Visibility::Crate,
    }
}

/// The rendered text of a path.
pub open spec fn spec_segs_str(segs: Seq<Seq<char>>, i: int) -> Seq<char>
    decreases segs.len() - i,
{
    if i < 0 || i >= segs.len() {
        Seq::empty()
    } else if i + 1 == segs.len() {
        segs[i]
    } else {
        segs[i] + "::"@ + spec_segs_str(segs, i + 1)
    }
}

/// The rendered text of a path, leading colon included.
pub open spec fn spec_path_str(p: PathView) -> Seq<char> {
    if p.leading_colon {
        "::"@ + spec_segs_str(p.segs, 0)
    } else {
        spec_segs_str(p.segs, 0)
    }
}

/// The injected wildcard import of the target path.
pub open spec fn spec_glob_import(path: PathView) -> Seq<char> {
    "use "@ + spec_path_str(path) + "::*;"@
}

/// The injected import of the processor's interface.
pub open spec fn spec_processor_import(crate_name: Seq<char>) -> Seq<char> {
    "use "@ + crate_name + "::pre;"@
}

/// Whether `out` is the faithful mirror of `m` under `path`.
///
/// `top` marks the outermost module: there the module's own visibility is
/// kept and the path is not extended; below, the inherited visibility and
/// the extended path apply.
pub open spec fn mirror_ok(
    m: MirrorModule,
    out: RenderedModule,
    parent_path: PathView,
    vis: Visibility,
    top: bool,
    crate_name: Seq<char>,
) -> bool
    decreases m, 1int,
{
    let path = if top {
        parent_path
    } else {
        PathView { leading_colon: parent_path.leading_colon, segs: parent_path.segs.push(m.name@) }
    };
    let my_vis = if top {
        m.vis
    } else {
        vis
    };
    let child_vis = if top {
        spec_child_vis(m.vis)
    } else {
        vis
    };
    &&& string_views(out.attrs@) == string_views(m.attrs@)
    &&& out.vis == my_vis
    &&& out.name@ == m.name@
    &&& out.glob_import@ == spec_glob_import(path)
    &&& out.processor_import@ == spec_processor_import(crate_name)
    &&& string_views(out.imports@) == string_views(m.imports@)
    &&& out.functions@.len() == m.functions@.len()
    &&& (forall|k: int|
        0 <= k < m.functions@.len() ==> (#[trigger] out.functions@[k])@ == spec_mirror_fn(
            m.functions@[k]@,
            path,
            child_vis,
        ))
    &&& out.modules@.len() == m.modules@.len()
    &&& mirror_mods_ok(m.modules@, out.modules@, path, child_vis, crate_name, 0)
}

/// Whether the children from position `k` on mirror each other.
pub open spec fn mirror_mods_ok(
    ms: Seq<MirrorModule>,
    outs: Seq<RenderedModule>,
    parent_path: PathView,
    vis: Visibility,
    crate_name: Seq<char>,
    k: int,
) -> bool
    decreases ms, 0int, ms.len() - k,
{
    if k < 0 || k >= ms.len() || outs.len() != ms.len() {
        true
    } else {
        &&& mirror_ok(ms[k], outs[k], parent_path, vis, false, crate_name)
        &&& mirror_mods_ok(ms, outs, parent_path, vis, crate_name, k + 1)
    }
}

/// Renders the text of a path from segment `i` on.
fn render_segs(p: &Path, i: usize) -> (r: String)
    requires
        i <= p.segs@.len(),
    ensures
        r@ == spec_segs_str(string_views(p.segs@), i as int),
    decreases p.segs@.len() - i,
{
    if i == p.segs.len() {
        String::new()
    } else if i + 1 == p.segs.len() {
        p.segs[i].clone()
    } else {
        let mut s = p.segs[i].clone();
        s.append("::");
        let rest = render_segs(p, i + 1);
        s.append(rest.as_str());
        proof {
            assert(s@ =~= spec_segs_str(string_views(p.segs@), i as int));
        }
        s
    }
}

/// Renders the text of a path.
pub fn render_path(p: &Path) -> (r: String)
    ensures
        r@ == spec_path_str(p@),
{
    if p.leading_colon {
        let mut s = String::new();
        s.append("::");
        let rest = render_segs(p, 0);
        s.append(rest.as_str());
        proof {
            assert(s@ =~= spec_path_str(p@));
        }
        s
    } else {
        render_segs(p, 0)
    }
}

impl ForeignFn {
    /// Copies an external signature, preserving its view.
    fn duplicate(&self) -> (r: ForeignFn)
        ensures
            r@ == self@,
    {
        let mut attrs: Vec<Attr> = Vec::new();
        let mut i: usize = 0;
        while i < self.attrs.len()
            invariant
                i <= self.attrs.len(),
                attrs@.len() == i,
                forall|j: int| 0 <= j < i ==> attrs@[j]@ == self.attrs@[j]@,
            decreases self.attrs.len() - i,
        {
            attrs.push(self.attrs[i].duplicate());
            i = i + 1;
        }
        let r = ForeignFn { attrs, sig: self.sig.duplicate() };
        proof {
            assert(attr_views(r.attrs@) =~= attr_views(self.attrs@));
        }
        r
    }
}

/// Renders one external signature into its forwarder: the signature is
/// kept verbatim, the original attributes ride along, and the body is the
/// single call of the path-qualified function with the parameter patterns
/// as arguments, in declaration order.
pub fn render_foreign_fn(f: &ForeignFn, path: &Path, vis: Visibility) -> (r: Forwarder)
    ensures
        r@ == spec_mirror_fn(f@, path@, vis),
{
    let copy = f.duplicate();
    let callee = path.child(&copy.sig.name);
    let mut args: Vec<String> = Vec::new();
    let mut i: usize = 0;
    while i < copy.sig.params.len()
        invariant
            i <= copy.sig.params.len(),
            args@.len() == i,
            forall|j: int| 0 <= j < i ==> args@[j]@ == copy.sig.params@[j]@.pat,
        decreases copy.sig.params.len() - i,
    {
        args.push(copy.sig.params[i].pat.clone());
        i = i + 1;
    }
    let r = Forwarder { attrs: copy.attrs, vis, sig: copy.sig, callee, args };
    proof {
        assert(string_views(r.args@) =~= param_pats(f@.sig.params));
    }
    r
}

/// Renders a `MirrorModule` to its mirrored output.
///
/// `top` marks the outermost call: there `path` is the target path itself
/// and the module's own visibility decides what every descendant gets.
pub fn render_mirror_module(
    m: &MirrorModule,
    path: &Path,
    vis: Visibility,
    top: bool,
    crate_name: &str,
) -> (r: RenderedModule)
    ensures
        mirror_ok(*m, r, path@, vis, top, crate_name@),
    decreases *m,
{
    let my_path = if top {
        path.duplicate()
    } else {
        path.child(&m.name)
    };
    let my_vis = if top {
        m.vis
    } else {
        vis
    };
    let child_vis = if top {
        match m.vis {
            Visibility::Public => Visibility::Public,
            _ => Visibility::Crate,
        }
    } else {
        vis
    };
    let mut glob_import = String::new();
    glob_import.append("use ");
    let path_str = render_path(&my_path);
    glob_import.append(path_str.as_str());
    glob_import.append("::*;");
    let mut processor_import = String::new();
    processor_import.append("use ");
    processor_import.append(crate_name);
    processor_import.append("::pre;");
    let mut functions: Vec<Forwarder> = Vec::new();
    let mut i: usize = 0;
    while i < m.functions.len()
        invariant
            i <= m.functions.len(),
            functions@.len() == i,
            forall|j: int|
                0 <= j < i ==> (#[trigger] functions@[j])@ == spec_mirror_fn(
                    m.functions@[j]@,
                    my_path@,
                    child_vis,
                ),
        decreases m.functions.len() - i,
    {
        functions.push(render_foreign_fn(&m.functions[i], &my_path, child_vis));
        i = i + 1;
    }
    let mut modules: Vec<RenderedModule> = Vec::new();
    let mut k: usize = 0;
    while k < m.modules.len()
        invariant
            k <= m.modules.len(),
            modules@.len() == k,
            forall|j: int|
                0 <= j < k ==> mirror_ok(
                    #[trigger] m.modules@[j],
                    modules@[j],
                    my_path@,
                    child_vis,
                    false,
                    crate_name@,
                ),
        decreases m.modules.len() - k,
    {
        let sub = render_mirror_module(&m.modules[k], &my_path, child_vis, false, crate_name);
        modules.push(sub);
        k = k + 1;
    }
    let r = RenderedModule {
        attrs: clone_strings(&m.attrs),
        vis: my_vis,
        name: m.name.clone(),
        glob_import,
        processor_import,
        imports: clone_strings(&m.imports),
        functions,
        modules,
    };
    proof {
        assert(r.glob_import@ =~= spec_glob_import(my_path@));
        assert(r.processor_import@ =~= spec_processor_import(crate_name@));
        lemma_mirror_mods_ok_from_forall(
            m.modules@,
            r.modules@,
            my_path@,
            child_vis,
            crate_name@,
            0,
        );
    }
    r
}

/// Pointwise mirroring of the children gives the recursive predicate.
proof fn lemma_mirror_mods_ok_from_forall(
    ms: Seq<MirrorModule>,
    outs: Seq<RenderedModule>,
    parent_path: PathView,
    vis: Visibility,
    crate_name: Seq<char>,
    k: int,
)
    requires
        outs.len() == ms.len(),
        forall|j: int|
            0 <= j < ms.len() ==> mirror_ok(
                #[trigger] ms[j],
                outs[j],
                parent_path,
                vis,
                false,
                crate_name,
            ),
    ensures
        mirror_mods_ok(ms, outs, parent_path, vis, crate_name, k),
    decreases ms.len() - k,
{
    if 0 <= k < ms.len() {
        lemma_mirror_mods_ok_from_forall(ms, outs, parent_path, vis, crate_name, k + 1);
    }
}

/// The nesting depth of an input module tree.
pub open spec fn spec_mirror_depth(m: MirrorModule) -> nat
    decreases m, 1int,
{
    1 + spec_mirror_mods_depth(m.modules@, 0)
}

/// The largest nesting depth among the children from position `k` on.
pub open spec fn spec_mirror_mods_depth(ms: Seq<MirrorModule>, k: int) -> nat
    decreases ms, 0int, ms.len() - k,
{
    if k < 0 || k >= ms.len() {
        0
    } else {
        let d = spec_mirror_depth(ms[k]);
        let r = spec_mirror_mods_depth(ms, k + 1);
        if d > r {
            d
        } else {
            r
        }
    }
}

/// The nesting depth of an output module tree.
pub open spec fn spec_rendered_depth(m: RenderedModule) -> nat
    decreases m, 1int,
{
    1 + spec_rendered_mods_depth(m.modules@, 0)
}

/// The largest nesting depth among the output children from position `k`
/// on.
pub open spec fn spec_rendered_mods_depth(ms: Seq<RenderedModule>, k: int) -> nat
    decreases ms, 0int, ms.len() - k,
{
    if k < 0 || k >= ms.len() {
        0
    } else {
        let d = spec_rendered_depth(ms[k]);
        let r = spec_rendered_mods_depth(ms, k + 1);
        if d > r {
            d
        } else {
            r
        }
    }
}

/// Mirror fidelity: the output module tree has exactly the nesting depth of
/// its input, at every level.
pub proof fn lemma_mirror_depth(
    m: MirrorModule,
    out: RenderedModule,
    parent_path: PathView,
    vis: Visibility,
    top: bool,
    crate_name: Seq<char>,
)
    requires
        mirror_ok(m, out, parent_path, vis, top, crate_name),
    ensures
        spec_rendered_depth(out) == spec_mirror_depth(m),
    decreases m, 1int,
{
    let path = if top {
        parent_path
    } else {
        PathView { leading_colon: parent_path.leading_colon, segs: parent_path.segs.push(m.name@) }
    };
    let child_vis = if top {
        spec_child_vis(m.vis)
    } else {
        vis
    };
    lemma_mirror_mods_depth(m.modules@, out.modules@, path, child_vis, crate_name, 0);
}

/// Depth preservation for the children from position `k` on.
proof fn lemma_mirror_mods_depth(
    ms: Seq<MirrorModule>,
    outs: Seq<RenderedModule>,
    parent_path: PathView,
    vis: Visibility,
    crate_name: Seq<char>,
    k: int,
)
    requires
        outs.len() == ms.len(),
        mirror_mods_ok(ms, outs, parent_path, vis, crate_name, k),
    ensures
        spec_rendered_mods_depth(outs, k) == spec_mirror_mods_depth(ms, k),
    decreases ms, 0int, ms.len() - k,
{
    if 0 <= k < ms.len() {
        lemma_mirror_depth(ms[k], outs[k], parent_path, vis, false, crate_name);
        lemma_mirror_mods_depth(ms, outs, parent_path, vis, crate_name, k + 1);
    }
}

} // verus!
