//! The file synchronizer: per service, either the full text of a new
//! controller, or the existing controller with what it lacks spliced in.
//!
//! Both insertion points are resolved in the text as read. The import patch
//! goes in first and the method patch second, its offset moved past the
//! import text when it lies after it, so each patch lands exactly where the
//! scan found its site.
use crate::error::SyncError;
use crate::generator::{
    generate_new_controller_file, generate_stubs, import_names, import_text, is_infix,
    lemma_imports_complete, lemma_no_missing_imports, lemma_no_missing_stubs, lemma_stubs_complete,
    missing_stubs, new_controller_text, render_import_text, stub_text,
};
use crate::naming::{snake_of, to_snake};
use crate::outline::ItemOutline;
use crate::parser::{ProtoService, ServiceView};
use crate::patcher::{lemma_location_offset_bounds, location_offset, resolve_location};
use crate::scanner::{imported_of, method_site, method_names_of, scan_controller, sites_of};
use crate::text::{chars_of, joined, splice, splice_at, views};
use vstd::prelude::*;
use vstd::string::*;

verus! {

/// A file as read from disk: its text and its outline.
#[derive(Debug)]
pub struct ExistingFile {
    pub text: String,
    pub items: Vec<ItemOutline>,
}

/// What to write for one file.
#[derive(Debug)]
pub enum SyncPlan {
    /// The file does not exist: write this text.
    CreateNew(String),
    /// The file exists: its new text, which is the old one with insertions only.
    Patch(String),
}

/// `s` with `x` spliced in at `a` and `y` at `b`, both positions counted in `s`;
/// at one and the same position `x` comes first.
pub open spec fn splice2(s: Seq<char>, a: int, x: Seq<char>, b: int, y: Seq<char>) -> Seq<char> {
    if a <= b {
        s.subrange(0, a) + x + s.subrange(a, b) + y + s.subrange(b, s.len() as int)
    } else {
        s.subrange(0, b) + y + s.subrange(b, a) + x + s.subrange(a, s.len() as int)
    }
}

/// The namespace that a service's request and response types live under.
pub open spec fn controller_namespace(name: Seq<char>) -> Seq<Seq<char>> {
    seq!["crate"@, "protos"@, snake_of(name)]
}

/// The path of a service's controller under `root`.
pub open spec fn controller_path_of(root: Seq<char>, name: Seq<char>) -> Seq<char> {
    root + "/"@ + snake_of(name) + ".rs"@
}

/// The text that joins the import group of an existing controller.
pub open spec fn pending_imports(s: ServiceView, items: Seq<ItemOutline>) -> Seq<char> {
    import_text(import_names(s.1, imported_of(items, controller_namespace(s.0))))
}

/// The stubs added after the last method of an existing controller, or inside
/// its last `impl` block when it has no method.
pub open spec fn pending_methods(s: ServiceView, items: Seq<ItemOutline>) -> Seq<char> {
    missing_stubs(s.1, method_names_of(items))
}

/// The offset of the import site in `text`, where there is text to import.
pub open spec fn import_offset(s: ServiceView, text: Seq<char>, items: Seq<ItemOutline>) -> Option<int> {
    if pending_imports(s, items).len() == 0 {
        Some(0)
    } else {
        location_offset(text, sites_of(items, controller_namespace(s.0))[0])
    }
}

/// The offset of the method site in `text`, where there are stubs to add.
pub open spec fn method_offset(s: ServiceView, text: Seq<char>, items: Seq<ItemOutline>) -> Option<int> {
    if pending_methods(s, items).len() == 0 {
        Some(0)
    } else {
        match method_site(items) {
            Some(l) => location_offset(text, l),
            None => None,
        }
    }
}

/// What bringing the existing controller `text`, outlined by `items`, in step
/// with `s` gives: the first failure in the order scan, import site, method
/// site; otherwise the text with both insertions.
pub open spec fn existing_sync_result(
    s: ServiceView,
    text: Seq<char>,
    items: Seq<ItemOutline>,
    r: Result<SyncPlan, SyncError>,
) -> bool {
    let ns = controller_namespace(s.0);
    let scanned = sites_of(items, ns).len() == 1;
    let imp_ok = import_offset(s, text, items) is Some;
    let meth_ok = method_offset(s, text, items) is Some;
    &&& !scanned ==> (r matches Err(SyncError::MissingOrAmbiguousImportSite(m)) && m@ == joined(ns, "::"@))
    &&& scanned && !imp_ok ==> r == Err::<SyncPlan, SyncError>(SyncError::InvalidPatchLocation)
    &&& scanned && imp_ok && pending_methods(s, items).len() > 0 && method_site(items) is None ==> (r matches Err(
        SyncError::MissingMethodSite(m),
    ) && m@ == s.0)
    &&& scanned && imp_ok && method_site(items) is Some && !meth_ok ==> r == Err::<SyncPlan, SyncError>(
        SyncError::InvalidPatchLocation,
    )
    &&& scanned && imp_ok && meth_ok ==> (r matches Ok(SyncPlan::Patch(t)) && t@ == splice2(
        text,
        import_offset(s, text, items)->Some_0,
        pending_imports(s, items),
        method_offset(s, text, items)->Some_0,
        pending_methods(s, items),
    ))
}

proof fn lemma_two_splices(s: Seq<char>, a: int, x: Seq<char>, b: int, y: Seq<char>)
    requires
        0 <= a <= s.len(),
        0 <= b <= s.len(),
    ensures
        splice(splice(s, a, x), if a <= b { b + x.len() } else { b }, y) == splice2(s, a, x, b, y),
{
    let t = splice(s, a, x);
    if a <= b {
        assert(t.subrange(0, b + x.len()) =~= s.subrange(0, a) + x + s.subrange(a, b));
        assert(t.subrange(b + x.len(), t.len() as int) =~= s.subrange(b, s.len() as int));
    } else {
        assert(t.subrange(0, b) =~= s.subrange(0, b));
        assert(t.subrange(b, t.len() as int) =~= s.subrange(b, a) + x + s.subrange(a, s.len() as int));
    }
    assert(splice(t, if a <= b { b + x.len() } else { b }, y) =~= splice2(s, a, x, b, y));
}

/// The path of `service_name`'s controller under `root`.
pub fn controller_path(root: &str, service_name: &str) -> (r: String)
    ensures
        r@ == controller_path_of(root@, service_name@),
{
    let mut r = String::from_str(root);
    r.append("/");
    r.append(to_snake(service_name).as_str());
    r.append(".rs");
    r
}

/// Brings an existing controller in step with `service`: imports the request
/// and response types it lacks into the one import group under the service's
/// namespace, and adds a stub after the last method (or, with none, inside
/// the last `impl` block) for each RPC that has no method yet. Nothing
/// already in the text is moved or changed.
pub fn sync_existing_controller(service: &ProtoService, file: &ExistingFile) -> (r: Result<SyncPlan, SyncError>)
    ensures
        existing_sync_result(service@, file.text@, file.items@, r),
{
    let ghost items = file.items@;
    let mut ns: Vec<String> = Vec::new();
    ns.push(String::from_str("crate"));
    ns.push(String::from_str("protos"));
    ns.push(to_snake(service.name.as_str()));
    assert(views(ns@) =~= controller_namespace(service@.0));
    let state = match scan_controller(&file.items, &ns) {
        Ok(st) => st,
        Err(e) => {
            return Err(e);
        },
    };
    let (imports, stubs) = generate_stubs(service, &state);
    let imp = render_import_text(&imports);
    let text = file.text.as_str();
    let chars = chars_of(text);
    let imp_len = imp.as_str().unicode_len();
    let a: usize = if imp_len > 0 {
        match resolve_location(&chars, state.import_insertion_point) {
            Some(o) => o,
            None => {
                return Err(SyncError::InvalidPatchLocation);
            },
        }
    } else {
        0
    };
    let b: usize = if stubs.as_str().unicode_len() > 0 {
        match state.method_insertion_point {
            None => {
                return Err(SyncError::MissingMethodSite(service.name.clone()));
            },
            Some(l) => match resolve_location(&chars, l) {
                Some(o) => o,
                None => {
                    return Err(SyncError::InvalidPatchLocation);
                },
            },
        }
    } else {
        0
    };
    let first = splice_at(text, a, imp.as_str());
    let first_len = first.as_str().unicode_len();
    let b2: usize = if a <= b {
        assert(b + imp_len <= first_len);
        b + imp_len
    } else {
        b
    };
    let second = splice_at(first.as_str(), b2, stubs.as_str());
    proof {
        lemma_two_splices(file.text@, a as int, imp@, b as int, stubs@);
    }
    Ok(SyncPlan::Patch(second))
}

/// The plan for one service: a complete new controller when `existing` is
/// `None`, otherwise the existing controller brought in step.
pub fn sync_controller(service: &ProtoService, existing: Option<&ExistingFile>) -> (r: Result<SyncPlan, SyncError>)
    ensures
        existing is None ==> (r matches Ok(SyncPlan::CreateNew(t)) && t@ == new_controller_text(service@)),
        existing matches Some(f) ==> existing_sync_result(service@, f.text@, f.items@, r),
{
    match existing {
        None => Ok(SyncPlan::CreateNew(generate_new_controller_file(service))),
        Some(f) => sync_existing_controller(service, f),
    }
}


/// `t` with the `n` characters from `at` on taken out.
pub open spec fn cut(t: Seq<char>, at: int, n: int) -> Seq<char> {
    t.subrange(0, at) + t.subrange(at + n, t.len() as int)
}

/// A controller that already has a method for every RPC, and already imports
/// every request and response type under the service's namespace, is left
/// exactly as it is: a second run after the first changes nothing.
pub proof fn law_controller_idempotent(
    s: ServiceView,
    text: Seq<char>,
    items: Seq<ItemOutline>,
    r: Result<SyncPlan, SyncError>,
)
    requires
        sites_of(items, controller_namespace(s.0)).len() == 1,
        forall|k: int| 0 <= k < s.1.len() ==> method_names_of(items).contains(snake_of(#[trigger] s.1[k].0)),
        forall|k: int| 0 <= k < s.1.len() ==> imported_of(items, controller_namespace(s.0)).contains(
            #[trigger] s.1[k].1,
        ) && imported_of(items, controller_namespace(s.0)).contains(s.1[k].2),
        existing_sync_result(s, text, items, r),
    ensures
        r matches Ok(SyncPlan::Patch(t)) && t@ == text,
{
    lemma_no_missing_stubs(s.1, method_names_of(items));
    lemma_no_missing_imports(s.1, imported_of(items, controller_namespace(s.0)));
    assert(splice2(text, 0, Seq::empty(), 0, Seq::empty()) =~= text);
}

/// Patching only inserts: taking the inserted import text and stub text back
/// out of the new controller gives the old one, character for character.
pub proof fn law_controller_additive(
    s: ServiceView,
    text: Seq<char>,
    items: Seq<ItemOutline>,
    r: Result<SyncPlan, SyncError>,
)
    requires
        existing_sync_result(s, text, items, r),
        r is Ok,
    ensures
        ({
            let a = import_offset(s, text, items)->Some_0;
            let b = method_offset(s, text, items)->Some_0;
            let x = pending_imports(s, items);
            let y = pending_methods(s, items);
            r matches Ok(SyncPlan::Patch(t)) && if a <= b {
                cut(cut(t@, b + x.len(), y.len() as int), a, x.len() as int) == text
            } else {
                cut(cut(t@, a + y.len(), x.len() as int), b, y.len() as int) == text
            }
        }),
{
    let ns = controller_namespace(s.0);
    let x = pending_imports(s, items);
    let y = pending_methods(s, items);
    if y.len() > 0 {
        if let Some(l) = method_site(items) {
            lemma_location_offset_bounds(text, l);
        }
    }
    if x.len() > 0 {
        lemma_location_offset_bounds(text, sites_of(items, ns)[0]);
    }
    let a = import_offset(s, text, items)->Some_0;
    let b = method_offset(s, text, items)->Some_0;
    if let Ok(SyncPlan::Patch(t)) = r {
        let t = t@;
        if a <= b {
            let once = cut(t, b + x.len(), y.len() as int);
            assert(once =~= text.subrange(0, a) + x + text.subrange(a, text.len() as int));
            assert(cut(once, a, x.len() as int) =~= text);
        } else {
            let once = cut(t, a + y.len(), x.len() as int);
            assert(once =~= text.subrange(0, b) + y + text.subrange(b, text.len() as int));
            assert(cut(once, b, y.len() as int) =~= text);
        }
    }
}

/// Every RPC of `s` gets a method whose request and response types are
/// imported: in a new controller through the import list and the stubs it is
/// written with; in an existing one through what it already declares or what
/// is added to it.
pub proof fn law_controller_complete(s: ServiceView, items: Seq<ItemOutline>)
    ensures
        forall|k: int| 0 <= k < s.1.len() ==> {
            &&& import_names(s.1, Seq::empty()).contains(#[trigger] s.1[k].1)
            &&& import_names(s.1, Seq::empty()).contains(s.1[k].2)
            &&& is_infix(stub_text(snake_of(s.1[k].0), s.1[k].1, s.1[k].2), missing_stubs(s.1, Seq::empty()))
        },
        forall|k: int| 0 <= k < s.1.len() ==> {
            let ns = controller_namespace(s.0);
            let imported = imported_of(items, ns);
            &&& imported.contains(#[trigger] s.1[k].1) || import_names(s.1, imported).contains(s.1[k].1)
            &&& imported.contains(s.1[k].2) || import_names(s.1, imported).contains(s.1[k].2)
            &&& method_names_of(items).contains(snake_of(s.1[k].0)) || is_infix(
                stub_text(snake_of(s.1[k].0), s.1[k].1, s.1[k].2),
                pending_methods(s, items),
            )
        },
{
    let none = Seq::<Seq<char>>::empty();
    lemma_imports_complete(s.1, none);
    lemma_stubs_complete(s.1, none);
    lemma_imports_complete(s.1, imported_of(items, controller_namespace(s.0)));
    lemma_stubs_complete(s.1, method_names_of(items));
    assert forall|k: int| 0 <= k < s.1.len() implies !none.contains(#[trigger] snake_of(s.1[k].0)) && !none.contains(
        s.1[k].1,
    ) && !none.contains(s.1[k].2) by {}
}

/// A new controller depends on the service definition alone: the same
/// definition always renders to the same text.
pub proof fn law_new_controller_deterministic(p: ProtoService, q: ProtoService)
    requires
        p@ == q@,
    ensures
        new_controller_text(p@) == new_controller_text(q@),
{
}

} // verus!
