//! The module registry synchronizer: the index file that declares one
//! controller module per known service, each exactly once, in the order the
//! services were discovered.
use crate::error::SyncError;
use crate::generator::contains_str;
use crate::naming::{snake_of, to_snake};
use crate::outline::ItemOutline;
use crate::parser::{ProtoData, ServiceView};
use crate::patcher::{location_offset, resolve_location, SourceLocation};
use crate::sync::{ExistingFile, SyncPlan};
use crate::text::{chars_of, fresh_names, lemma_fresh_names, splice, splice_at, views};
use vstd::prelude::*;
use vstd::string::*;

verus! {

/// The controller module names of `ss`, in order.
pub open spec fn service_modules(ss: Seq<ServiceView>) -> Seq<Seq<char>> {
    ss.map_values(|s: ServiceView| snake_of(s.0))
}

/// The names of the module declarations among `items`, in file order.
pub open spec fn registered_of(items: Seq<ItemOutline>) -> Seq<Seq<char>>
    decreases items.len(),
{
    if items.len() == 0 {
        Seq::empty()
    } else {
        registered_of(items.drop_last()) + match items.last() {
            ItemOutline::Mod(m) => seq![m.name@],
            _ => Seq::empty(),
        }
    }
}

/// Where the last module declaration among `items` ends.
pub open spec fn last_mod_end(items: Seq<ItemOutline>) -> Option<SourceLocation>
    decreases items.len(),
{
    if items.len() == 0 {
        None
    } else {
        match items.last() {
            ItemOutline::Mod(m) => Some(m.end),
            _ => last_mod_end(items.drop_last()),
        }
    }
}

/// One declaration line per name, each ended by a line break.
pub open spec fn registry_lines(names: Seq<Seq<char>>) -> Seq<char>
    decreases names.len(),
{
    if names.len() == 0 {
        Seq::empty()
    } else {
        registry_lines(names.drop_last()) + "pub mod "@ + names.last() + ";\n"@
    }
}

/// One declaration per name, each started by a line break: what follows an
/// existing declaration.
pub open spec fn registry_lines_after(names: Seq<Seq<char>>) -> Seq<char>
    decreases names.len(),
{
    if names.len() == 0 {
        Seq::empty()
    } else {
        registry_lines_after(names.drop_last()) + "\npub mod "@ + names.last() + ";"@
    }
}

/// The registry for the services `ss`, written from scratch.
pub open spec fn new_registry_text(ss: Seq<ServiceView>) -> Seq<char> {
    registry_lines(fresh_names(service_modules(ss), Seq::empty()))
}

/// The modules of `ss` that the declarations among `items` lack.
pub open spec fn unregistered(ss: Seq<ServiceView>, items: Seq<ItemOutline>) -> Seq<Seq<char>> {
    fresh_names(service_modules(ss), registered_of(items))
}

/// The strings of `xs` that `have` lacks, each once, in order.
pub fn fresh(xs: &Vec<String>, have: &Vec<String>) -> (r: Vec<String>)
    ensures
        views(r@) == fresh_names(views(xs@), views(have@)),
{
    let ghost xv = views(xs@);
    let mut out: Vec<String> = Vec::new();
    let mut i: usize = 0;
    assert(xv.subrange(0, 0) =~= Seq::<Seq<char>>::empty());
    assert(views(out@) =~= Seq::<Seq<char>>::empty());
    while i < xs.len()
        invariant
            xv == views(xs@),
            i <= xs@.len(),
            views(out@) == fresh_names(xv.subrange(0, i as int), views(have@)),
        decreases xs@.len() - i,
    {
        assert(xv.subrange(0, i + 1).drop_last() =~= xv.subrange(0, i as int));
        assert(xv.subrange(0, i + 1).last() == xs@[i as int]@);
        if !contains_str(have, &xs[i]) && !contains_str(&out, &xs[i]) {
            let ghost before = out@;
            out.push(xs[i].clone());
            assert(views(out@) =~= views(before).push(xs@[i as int]@));
        }
        i = i + 1;
    }
    assert(xv.subrange(0, i as int) =~= xv);
    out
}

/// The controller module names of the services of `data`, in order.
pub fn module_names(data: &ProtoData) -> (r: Vec<String>)
    ensures
        views(r@) == service_modules(data@),
{
    let mut out: Vec<String> = Vec::new();
    let mut i: usize = 0;
    while i < data.services.len()
        invariant
            i <= data.services@.len(),
            views(out@) == service_modules(data@).subrange(0, i as int),
        decreases data.services@.len() - i,
    {
        let ghost before = out@;
        out.push(to_snake(data.services[i].name.as_str()));
        assert(views(out@) =~= views(before).push(snake_of(data@[i as int].0)));
        assert(service_modules(data@).subrange(0, i + 1) =~= service_modules(data@).subrange(0, i as int).push(
            snake_of(data@[i as int].0),
        ));
        i = i + 1;
    }
    assert(service_modules(data@).subrange(0, i as int) =~= service_modules(data@));
    out
}

fn render_lines(names: &Vec<String>, after: bool) -> (r: String)
    ensures
        r@ == if after {
            registry_lines_after(views(names@))
        } else {
            registry_lines(views(names@))
        },
{
    let ghost nv = views(names@);
    let mut r = String::new();
    let mut i: usize = 0;
    assert(nv.subrange(0, 0) =~= Seq::<Seq<char>>::empty());
    while i < names.len()
        invariant
            nv == views(names@),
            i <= names@.len(),
            r@ == if after {
                registry_lines_after(nv.subrange(0, i as int))
            } else {
                registry_lines(nv.subrange(0, i as int))
            },
        decreases names@.len() - i,
    {
        assert(nv.subrange(0, i + 1).drop_last() =~= nv.subrange(0, i as int));
        assert(nv.subrange(0, i + 1).last() == names@[i as int]@);
        if after {
            r.append("\npub mod ");
            r.append(names[i].as_str());
            r.append(";");
        } else {
            r.append("pub mod ");
            r.append(names[i].as_str());
            r.append(";\n");
        }
        i = i + 1;
    }
    assert(nv.subrange(0, i as int) =~= nv);
    r
}

/// The names of the module declarations among `items`.
fn registered(items: &Vec<ItemOutline>) -> (r: (Vec<String>, Option<SourceLocation>))
    ensures
        views(r.0@) == registered_of(items@),
        r.1 == last_mod_end(items@),
{
    let mut out: Vec<String> = Vec::new();
    let mut last: Option<SourceLocation> = None;
    let mut i: usize = 0;
    assert(items@.subrange(0, 0) =~= Seq::<ItemOutline>::empty());
    assert(views(out@) =~= Seq::<Seq<char>>::empty());
    while i < items.len()
        invariant
            i <= items@.len(),
            views(out@) == registered_of(items@.subrange(0, i as int)),
            last == last_mod_end(items@.subrange(0, i as int)),
        decreases items@.len() - i,
    {
        let ghost pre = items@.subrange(0, i as int);
        let ghost cur = items@.subrange(0, i + 1);
        assert(cur.drop_last() =~= pre);
        assert(cur.last() == items@[i as int]);
        match &items[i] {
            ItemOutline::Mod(m) => {
                let ghost before = out@;
                out.push(m.name.clone());
                assert(views(out@) =~= views(before) + seq![m.name@]);
                last = Some(m.end);
            },
            _ => {
                assert(views(out@) =~= views(out@) + Seq::<Seq<char>>::empty());
            },
        }
        i = i + 1;
    }
    assert(items@.subrange(0, i as int) =~= items@);
    (out, last)
}

/// The plan for the module registry: when it does not exist, one declaration
/// per service module; otherwise the declarations it lacks, added after its
/// last module declaration, or at its start if it has none. A registry that
/// lacks nothing is left as it is.
pub fn sync_registry(data: &ProtoData, existing: Option<&ExistingFile>) -> (r: Result<SyncPlan, SyncError>)
    ensures
        existing is None ==> (r matches Ok(SyncPlan::CreateNew(t)) && t@ == new_registry_text(data@)),
        existing matches Some(f) ==> ({
            let missing = unregistered(data@, f.items@);
            &&& missing.len() == 0 ==> (r matches Ok(SyncPlan::Patch(t)) && t@ == f.text@)
            &&& missing.len() > 0 && last_mod_end(f.items@) is None ==> (r matches Ok(SyncPlan::Patch(t))
                && t@ == registry_lines(missing) + f.text@)
            &&& missing.len() > 0 && last_mod_end(f.items@) is Some ==> match location_offset(
                f.text@,
                last_mod_end(f.items@)->Some_0,
            ) {
                Some(o) => (r matches Ok(SyncPlan::Patch(t)) && t@ == splice(f.text@, o, registry_lines_after(missing))),
                None => r == Err::<SyncPlan, SyncError>(SyncError::InvalidPatchLocation),
            }
        }),
{
    let mods = module_names(data);
    match existing {
        None => {
            let none: Vec<String> = Vec::new();
            assert(views(none@) =~= Seq::<Seq<char>>::empty());
            let names = fresh(&mods, &none);
            Ok(SyncPlan::CreateNew(render_lines(&names, false)))
        },
        Some(f) => {
            let (have, last) = registered(&f.items);
            let missing = fresh(&mods, &have);
            if missing.len() == 0 {
                return Ok(SyncPlan::Patch(f.text.clone()));
            }
            let text = f.text.as_str();
            match last {
                None => {
                    let lines = render_lines(&missing, false);
                    let t = splice_at(text, 0, lines.as_str());
                    assert(t@ =~= lines@ + f.text@);
                    Ok(SyncPlan::Patch(t))
                },
                Some(l) => {
                    let chars = chars_of(text);
                    match resolve_location(&chars, l) {
                        Some(o) => {
                            let lines = render_lines(&missing, true);
                            Ok(SyncPlan::Patch(splice_at(text, o, lines.as_str())))
                        },
                        None => Err(SyncError::InvalidPatchLocation),
                    }
                },
            }
        },
    }
}


/// K services with K distinct module names give a registry of exactly K
/// declarations, one for each name and none twice; services discovered in
/// another order, with the same set of names, give the same declarations.
pub proof fn law_registry_complete(ss: Seq<ServiceView>, reordered: Seq<ServiceView>)
    requires
        service_modules(ss).to_set() == service_modules(reordered).to_set(),
    ensures
        fresh_names(service_modules(ss), Seq::empty()).no_duplicates(),
        fresh_names(service_modules(ss), Seq::empty()).to_set() == service_modules(ss).to_set(),
        fresh_names(service_modules(ss), Seq::empty()).len() == service_modules(ss).to_set().len(),
        fresh_names(service_modules(reordered), Seq::empty()).to_set() == fresh_names(
            service_modules(ss),
            Seq::empty(),
        ).to_set(),
        fresh_names(service_modules(reordered), Seq::empty()).len() == fresh_names(
            service_modules(ss),
            Seq::empty(),
        ).len(),
{
    let none = Seq::<Seq<char>>::empty();
    let l1 = fresh_names(service_modules(ss), none);
    let l2 = fresh_names(service_modules(reordered), none);
    lemma_fresh_names(service_modules(ss), none);
    lemma_fresh_names(service_modules(reordered), none);
    assert(l1.to_set() =~= service_modules(ss).to_set());
    assert(l2.to_set() =~= service_modules(reordered).to_set());
    l1.unique_seq_to_set();
    l2.unique_seq_to_set();
}

/// A registry that already declares the module of every service is left
/// exactly as it is.
pub proof fn law_registry_idempotent(ss: Seq<ServiceView>, items: Seq<ItemOutline>)
    requires
        forall|k: int| 0 <= k < ss.len() ==> registered_of(items).contains(#[trigger] snake_of(ss[k].0)),
    ensures
        unregistered(ss, items).len() == 0,
{
    let xs = service_modules(ss);
    lemma_fresh_names(xs, registered_of(items));
    if unregistered(ss, items).len() > 0 {
        let x = unregistered(ss, items)[0];
        assert(unregistered(ss, items).contains(x));
        let k = choose|k: int| 0 <= k < xs.len() && xs[k] == x;
        assert(xs[k] == snake_of(ss[k].0));
    }
}

} // verus!
