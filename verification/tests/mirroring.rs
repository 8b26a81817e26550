//! Tests of the mirror generator.

use pre::mirror::{render_mirror_module, ForeignFn, MirrorModule};
use pre::syntax::{Param, Path, Signature, Visibility};

fn path(segs: &[&str]) -> Path {
    Path {
        leading_colon: false,
        segs: segs.iter().map(|s| s.to_string()).collect(),
    }
}

fn foreign(name: &str, params: &[&str]) -> ForeignFn {
    ForeignFn {
        attrs: Vec::new(),
        sig: Signature {
            name: name.to_string(),
            params: params
                .iter()
                .map(|p| Param { pat: p.to_string(), ty: "usize".to_string() })
                .collect(),
            output: "".to_string(),
        },
    }
}

#[test]
fn mirror_nested_module_keeps_shape() {
    let inner = MirrorModule {
        attrs: Vec::new(),
        vis: Visibility::Public,
        name: "ptr".to_string(),
        imports: vec!["use super::Align;".to_string()],
        functions: vec![foreign("read", &["src", "count"])],
        modules: Vec::new(),
    };
    let outer = MirrorModule {
        attrs: Vec::new(),
        vis: Visibility::Public,
        name: "core_defs".to_string(),
        imports: Vec::new(),
        functions: Vec::new(),
        modules: vec![inner],
    };
    let target = path(&["core"]);
    let out = render_mirror_module(&outer, &target, Visibility::Public, true, "pre");

    // Same nesting depth, same names.
    assert_eq!(out.name, "core_defs");
    assert_eq!(out.modules.len(), 1);
    let sub = &out.modules[0];
    assert_eq!(sub.name, "ptr");
    assert_eq!(sub.modules.len(), 0);

    // The import is copied verbatim; the glob import follows the path.
    assert_eq!(out.glob_import, "use core::*;");
    assert_eq!(sub.glob_import, "use core::ptr::*;");
    assert_eq!(sub.processor_import, "use pre::pre;");
    assert_eq!(sub.imports, vec!["use super::Align;".to_string()]);

    // The forwarder is a single call of the path-qualified function with
    // the same argument names in the same order.
    assert_eq!(sub.functions.len(), 1);
    let fwd = &sub.functions[0];
    assert_eq!(fwd.sig.name, "read");
    assert_eq!(
        fwd.callee.segs,
        vec!["core".to_string(), "ptr".to_string(), "read".to_string()]
    );
    assert_eq!(fwd.args, vec!["src".to_string(), "count".to_string()]);
    assert_eq!(fwd.vis, Visibility::Public);
}

#[test]
fn mirror_normalizes_weak_visibility() {
    let inner = MirrorModule {
        attrs: Vec::new(),
        vis: Visibility::Public,
        name: "inner".to_string(),
        imports: Vec::new(),
        functions: vec![foreign("f", &[])],
        modules: Vec::new(),
    };
    let outer = MirrorModule {
        attrs: Vec::new(),
        vis: Visibility::Inherited,
        name: "outer".to_string(),
        imports: Vec::new(),
        functions: Vec::new(),
        modules: vec![inner],
    };
    let out = render_mirror_module(&outer, &path(&["ext"]), Visibility::Public, true, "pre");
    // The outermost module keeps its own (inherited) visibility; every
    // descendant is normalized to library-internal.
    assert_eq!(out.vis, Visibility::Inherited);
    assert_eq!(out.modules[0].vis, Visibility::Crate);
    assert_eq!(out.modules[0].functions[0].vis, Visibility::Crate);
}

#[test]
fn mirror_with_leading_colon_target() {
    let m = MirrorModule {
        attrs: Vec::new(),
        vis: Visibility::Public,
        name: "libc_defs".to_string(),
        imports: Vec::new(),
        functions: vec![foreign("abs", &["x"])],
        modules: Vec::new(),
    };
    let target = Path { leading_colon: true, segs: vec!["libc".to_string()] };
    let out = render_mirror_module(&m, &target, Visibility::Public, true, "pre");
    assert_eq!(out.glob_import, "use ::libc::*;");
    let fwd = &out.functions[0];
    assert!(fwd.callee.leading_colon);
    assert_eq!(fwd.callee.segs, vec!["libc".to_string(), "abs".to_string()]);
}
