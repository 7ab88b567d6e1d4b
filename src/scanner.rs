//! The controller repository scanner: what an existing controller already
//! declares, and where new imports and methods can be added.
use crate::error::SyncError;
use crate::outline::{ItemOutline, MethodOutline, UseTree};
use crate::patcher::SourceLocation;
use crate::text::{join, joined, views};
use vstd::prelude::*;

verus! {

/// What an existing controller file already holds.
#[derive(Debug)]
pub struct ExistingControllerState {
    /// Every method of the file's `impl` blocks, in file order.
    pub method_names: Vec<String>,
    /// Every identifier imported directly under the service's namespace.
    pub imported_names: Vec<String>,
    /// The end of the last method's body; without methods, the closing brace
    /// of the last `impl` block; without either, nothing.
    pub method_insertion_point: Option<SourceLocation>,
    /// The first identifier of the one import group under the namespace, or
    /// the inside of its opening brace if it names no identifier.
    pub import_insertion_point: SourceLocation,
}

/// The part of `t` that lies under the path `path`, if `t` starts with it.
pub open spec fn under_path(t: UseTree, path: Seq<Seq<char>>) -> Option<UseTree>
    decreases path.len(),
{
    if path.len() == 0 {
        Some(t)
    } else {
        match t {
            UseTree::Path(seg, sub) => if seg@ == path[0] {
                under_path(*sub, path.drop_first())
            } else {
                None
            },
            _ => None,
        }
    }
}

/// The plain identifiers among the members of a group.
pub open spec fn group_names(g: Seq<UseTree>) -> Seq<Seq<char>>
    decreases g.len(),
{
    if g.len() == 0 {
        Seq::empty()
    } else {
        group_names(g.drop_last()) + match g.last() {
            UseTree::Name(n, _) => seq![n@],
            _ => Seq::empty(),
        }
    }
}

/// Where the first plain identifier of a group starts.
pub open spec fn first_name_loc(g: Seq<UseTree>) -> Option<SourceLocation>
    decreases g.len(),
{
    if g.len() == 0 {
        None
    } else {
        match first_name_loc(g.drop_last()) {
            Some(l) => Some(l),
            None => match g.last() {
                UseTree::Name(_, l) => Some(l),
                _ => None,
            },
        }
    }
}

/// The identifiers that `t` imports directly under `ns`.
pub open spec fn use_names(t: UseTree, ns: Seq<Seq<char>>) -> Seq<Seq<char>> {
    match under_path(t, ns) {
        Some(UseTree::Name(n, _)) => seq![n@],
        Some(UseTree::Group(g, _)) => group_names(g@),
        _ => Seq::empty(),
    }
}

/// Where new identifiers can join `t`, if it ends in a group directly under
/// `ns`: before the group's first identifier, or just inside its opening
/// brace when it has none.
pub open spec fn use_site(t: UseTree, ns: Seq<Seq<char>>) -> Option<SourceLocation> {
    match under_path(t, ns) {
        Some(UseTree::Group(g, open)) => match first_name_loc(g@) {
            Some(l) => Some(l),
            None => Some(open),
        },
        _ => None,
    }
}

/// The methods of all `impl` blocks among `items`, in file order.
pub open spec fn methods_of(items: Seq<ItemOutline>) -> Seq<MethodOutline>
    decreases items.len(),
{
    if items.len() == 0 {
        Seq::empty()
    } else {
        methods_of(items.drop_last()) + match items.last() {
            ItemOutline::Impl(ms, _) => ms@,
            _ => Seq::empty(),
        }
    }
}

/// The identifiers that the `use` items among `items` import under `ns`.
pub open spec fn imported_of(items: Seq<ItemOutline>, ns: Seq<Seq<char>>) -> Seq<Seq<char>>
    decreases items.len(),
{
    if items.len() == 0 {
        Seq::empty()
    } else {
        imported_of(items.drop_last(), ns) + match items.last() {
            ItemOutline::Use(t) => use_names(t, ns),
            _ => Seq::empty(),
        }
    }
}

/// The import sites that the `use` items among `items` offer under `ns`.
pub open spec fn sites_of(items: Seq<ItemOutline>, ns: Seq<Seq<char>>) -> Seq<SourceLocation>
    decreases items.len(),
{
    if items.len() == 0 {
        Seq::empty()
    } else {
        sites_of(items.drop_last(), ns) + match items.last() {
            ItemOutline::Use(t) => match use_site(t, ns) {
                Some(l) => seq![l],
                None => Seq::empty(),
            },
            _ => Seq::empty(),
        }
    }
}

pub open spec fn method_names_of(items: Seq<ItemOutline>) -> Seq<Seq<char>> {
    methods_of(items).map_values(|m: MethodOutline| m.name@)
}

/// Where the closing brace of the last `impl` block among `items` starts.
pub open spec fn last_impl_close(items: Seq<ItemOutline>) -> Option<SourceLocation>
    decreases items.len(),
{
    if items.len() == 0 {
        None
    } else {
        match items.last() {
            ItemOutline::Impl(_, close) => Some(close),
            _ => last_impl_close(items.drop_last()),
        }
    }
}

/// Where new methods go: after the end of the last method's body, or, with no
/// method at all, before the closing brace of the last `impl` block.
pub open spec fn method_site(items: Seq<ItemOutline>) -> Option<SourceLocation> {
    if methods_of(items).len() == 0 {
        last_impl_close(items)
    } else {
        Some(methods_of(items).last().body_end)
    }
}

/// The subtree of `t` under `path`, if `t` starts with that path.
fn walk_path<'a>(t: &'a UseTree, path: &Vec<String>) -> (r: Option<&'a UseTree>)
    ensures
        r matches Some(u) ==> under_path(*t, views(path@)) == Some(*u),
        r is None ==> under_path(*t, views(path@)) is None,
{
    let ghost ps = views(path@);
    let mut cur: &UseTree = t;
    let mut k: usize = 0;
    assert(ps.subrange(0, ps.len() as int) =~= ps);
    while k < path.len()
        invariant
            ps == views(path@),
            k <= path@.len(),
            under_path(*t, ps) == under_path(*cur, ps.subrange(k as int, ps.len() as int)),
        decreases path@.len() - k,
    {
        match cur {
            UseTree::Path(seg, sub) => {
                assert(ps.subrange(k as int, ps.len() as int).drop_first() =~= ps.subrange(k + 1, ps.len() as int));
                if *seg == path[k] {
                    cur = sub;
                } else {
                    return None;
                }
            },
            _ => {
                return None;
            },
        }
        k = k + 1;
    }
    assert(ps.subrange(k as int, ps.len() as int) =~= Seq::<Seq<char>>::empty());
    Some(cur)
}

/// Adds to `names` the identifiers that `t` imports directly under `ns`, and
/// returns where new identifiers could join `t`.
fn collect_use(t: &UseTree, ns: &Vec<String>, names: &mut Vec<String>) -> (site: Option<SourceLocation>)
    ensures
        views(final(names)@) == views(old(names)@) + use_names(*t, views(ns@)),
        site == use_site(*t, views(ns@)),
{
    let ghost start = views(names@);
    match walk_path(t, ns) {
        Some(UseTree::Name(n, _)) => {
            let ghost before = names@;
            names.push(n.clone());
            assert(views(names@) =~= views(before) + seq![n@]);
            None
        },
        Some(UseTree::Group(g, open)) => {
            let mut site: Option<SourceLocation> = None;
            let mut i: usize = 0;
            assert(g@.subrange(0, 0) =~= Seq::<UseTree>::empty());
            assert(views(names@) =~= start + group_names(g@.subrange(0, 0)));
            while i < g.len()
                invariant
                    i <= g@.len(),
                    views(names@) == start + group_names(g@.subrange(0, i as int)),
                    site == first_name_loc(g@.subrange(0, i as int)),
                decreases g@.len() - i,
            {
                assert(g@.subrange(0, i + 1).drop_last() =~= g@.subrange(0, i as int));
                assert(g@.subrange(0, i + 1).last() == g@[i as int]);
                match &g[i] {
                    UseTree::Name(n, l) => {
                        let ghost before = names@;
                        names.push(n.clone());
                        assert(views(names@) =~= views(before) + seq![n@]);
                        assert(start + group_names(g@.subrange(0, i as int)) + seq![n@]
                            =~= start + (group_names(g@.subrange(0, i as int)) + seq![n@]));
                        if site.is_none() {
                            site = Some(*l);
                        }
                    },
                    _ => {
                        assert(group_names(g@.subrange(0, i as int)) + Seq::<Seq<char>>::empty()
                            =~= group_names(g@.subrange(0, i as int)));
                    },
                }
                i = i + 1;
            }
            assert(g@.subrange(0, i as int) =~= g@);
            match site {
                Some(l) => Some(l),
                None => Some(*open),
            }
        },
        _ => {
            assert(views(names@) =~= start + Seq::<Seq<char>>::empty());
            None
        },
    }
}

/// Scans an existing controller for the methods it declares, the identifiers
/// it imports under `namespace`, and the two insertion points. Fails, naming
/// the namespace, unless exactly one import group under it offers a site.
pub fn scan_controller(items: &Vec<ItemOutline>, namespace: &Vec<String>) -> (r: Result<ExistingControllerState, SyncError>)
    ensures
        r is Ok <==> sites_of(items@, views(namespace@)).len() == 1,
        r matches Ok(st) ==> {
            &&& views(st.method_names@) == method_names_of(items@)
            &&& views(st.imported_names@) == imported_of(items@, views(namespace@))
            &&& st.method_insertion_point == method_site(items@)
            &&& st.import_insertion_point == sites_of(items@, views(namespace@))[0]
        },
        r matches Err(e) ==> e matches SyncError::MissingOrAmbiguousImportSite(m) && m@ == joined(
            views(namespace@),
            "::"@,
        ),
{
    let ghost ns = views(namespace@);
    let mut method_names: Vec<String> = Vec::new();
    let mut imported_names: Vec<String> = Vec::new();
    let mut last_end: Option<SourceLocation> = None;
    let mut last_close: Option<SourceLocation> = None;
    let mut sites: Vec<SourceLocation> = Vec::new();
    let mut i: usize = 0;
    assert(items@.subrange(0, 0) =~= Seq::<ItemOutline>::empty());
    assert(views(method_names@) =~= Seq::<Seq<char>>::empty());
    assert(views(imported_names@) =~= Seq::<Seq<char>>::empty());
    while i < items.len()
        invariant
            ns == views(namespace@),
            i <= items@.len(),
            views(method_names@) == methods_of(items@.subrange(0, i as int)).map_values(|m: MethodOutline| m.name@),
            views(imported_names@) == imported_of(items@.subrange(0, i as int), ns),
            sites@ == sites_of(items@.subrange(0, i as int), ns),
            last_end == (if methods_of(items@.subrange(0, i as int)).len() == 0 {
                None
            } else {
                Some(methods_of(items@.subrange(0, i as int)).last().body_end)
            }),
            last_close == last_impl_close(items@.subrange(0, i as int)),
        decreases items@.len() - i,
    {
        let ghost pre = items@.subrange(0, i as int);
        let ghost cur = items@.subrange(0, i + 1);
        assert(cur.drop_last() =~= pre);
        assert(cur.last() == items@[i as int]);
        match &items[i] {
            ItemOutline::Use(t) => {
                let site = collect_use(t, namespace, &mut imported_names);
                match site {
                    Some(l) => {
                        sites.push(l);
                    },
                    None => {
                        assert(sites@ =~= sites@ + Seq::<SourceLocation>::empty());
                    },
                }
                assert(methods_of(cur) =~= methods_of(pre) + Seq::<MethodOutline>::empty());
            },
            ItemOutline::Impl(ms, close) => {
                last_close = Some(*close);
                let mut j: usize = 0;
                let ghost base = methods_of(pre);
                assert(base + ms@.subrange(0, 0) =~= base);
                while j < ms.len()
                    invariant
                        j <= ms@.len(),
                        views(method_names@) == (base + ms@.subrange(0, j as int)).map_values(|m: MethodOutline| m.name@),
                        last_end == if (base + ms@.subrange(0, j as int)).len() == 0 {
                            None
                        } else {
                            Some((base + ms@.subrange(0, j as int)).last().body_end)
                        },
                    decreases ms@.len() - j,
                {
                    let ghost before = method_names@;
                    method_names.push(ms[j].name.clone());
                    assert(base + ms@.subrange(0, j + 1) =~= (base + ms@.subrange(0, j as int)).push(ms@[j as int]));
                    assert(views(method_names@) =~= views(before).push(ms@[j as int].name@));
                    last_end = Some(ms[j].body_end);
                    j = j + 1;
                }
                assert(ms@.subrange(0, j as int) =~= ms@);
                assert(imported_of(cur, ns) =~= imported_of(pre, ns) + Seq::<Seq<char>>::empty());
                assert(sites_of(cur, ns) =~= sites_of(pre, ns) + Seq::<SourceLocation>::empty());
            },
            _ => {
                assert(methods_of(cur) =~= methods_of(pre) + Seq::<MethodOutline>::empty());
                assert(imported_of(cur, ns) =~= imported_of(pre, ns) + Seq::<Seq<char>>::empty());
                assert(sites_of(cur, ns) =~= sites_of(pre, ns) + Seq::<SourceLocation>::empty());
            },
        }
        i = i + 1;
    }
    assert(items@.subrange(0, i as int) =~= items@);
    if sites.len() != 1 {
        return Err(SyncError::MissingOrAmbiguousImportSite(join(namespace, "::")));
    }
    Ok(ExistingControllerState {
        method_names,
        imported_names,
        method_insertion_point: match last_end {
            Some(l) => Some(l),
            None => last_close,
        },
        import_insertion_point: sites[0],
    })
}

} // verus!
