//! The stub generator: the imports and method stubs that a controller still
//! lacks, and the whole text of a controller that does not exist yet.
//!
//! A stub's body always panics as not yet written: stubs are there to be
//! replaced by a developer, never to supply behaviour of their own.
use crate::naming::{snake_of, to_snake};
use crate::parser::{ProtoRPC, ProtoService, RpcView, ServiceView};
use crate::scanner::ExistingControllerState;
use crate::text::{add_fresh, join, joined, views};
use vstd::prelude::*;
use vstd::string::*;

verus! {

/// The method stub for an RPC whose method is `snake`.
pub open spec fn stub_text(snake: Seq<char>, req: Seq<char>, resp: Seq<char>) -> Seq<char> {
    "\n\nasync fn "@ + snake + "(\n        &self,\n        request: Request<"@ + req
        + ">,\n    ) -> Result<Response<"@ + resp
        + ">, Status> {\n        todo!()\n    }\n"@
}

/// The stubs of the RPCs whose snake-cased name `have` lacks, in order.
pub open spec fn missing_stubs(rpcs: Seq<RpcView>, have: Seq<Seq<char>>) -> Seq<char>
    decreases rpcs.len(),
{
    if rpcs.len() == 0 {
        Seq::empty()
    } else {
        let r = rpcs.last();
        missing_stubs(rpcs.drop_last(), have) + if have.contains(snake_of(r.0)) {
            Seq::empty()
        } else {
            stub_text(snake_of(r.0), r.1, r.2)
        }
    }
}

/// The request and response types of `rpcs` that `imported` lacks: each once,
/// in order of first use.
pub open spec fn import_names(rpcs: Seq<RpcView>, imported: Seq<Seq<char>>) -> Seq<Seq<char>>
    decreases rpcs.len(),
{
    if rpcs.len() == 0 {
        Seq::empty()
    } else {
        let r = rpcs.last();
        add_fresh(add_fresh(import_names(rpcs.drop_last(), imported), r.1, imported), r.2, imported)
    }
}

/// The text spliced into an import group to add `names`: each followed by `, `.
pub open spec fn import_text(names: Seq<Seq<char>>) -> Seq<char> {
    if names.len() == 0 {
        Seq::empty()
    } else {
        joined(names, ", "@) + ", "@
    }
}

/// The complete text of a new controller for the service `s`.
pub open spec fn new_controller_text(s: ServiceView) -> Seq<char> {
    let snake = snake_of(s.0);
    "use tonic::async_trait;\nuse tonic::{Status, Response, Request};\nuse crate::protos::"@ + snake + "::{"@
        + joined(import_names(s.1, Seq::empty()), ", "@) + "};\nuse crate::protos::"@ + snake + "::"@ + snake
        + "_server::"@ + s.0 + ";\n\n\ncali_derive::controller!("@ + s.0 + "Controller);\n#[async_trait]\nimpl "@
        + s.0 + " for "@ + s.0 + "Controller {\n"@ + missing_stubs(s.1, Seq::empty()) + "\n}"@
}

/// Whether some string of `v` equals `x`.
pub fn contains_str(v: &Vec<String>, x: &String) -> (r: bool)
    ensures
        r == views(v@).contains(x@),
{
    let ghost vs = views(v@);
    let mut k: usize = 0;
    while k < v.len()
        invariant
            vs == views(v@),
            k <= v@.len(),
            forall|q: int| 0 <= q < k ==> #[trigger] vs[q] != x@,
        decreases v@.len() - k,
    {
        if v[k] == *x {
            assert(vs[k as int] == x@);
            return true;
        }
        k = k + 1;
    }
    false
}

/// The method stub for an RPC whose method is `snake`.
pub fn render_stub(snake: &str, req: &str, resp: &str) -> (r: String)
    ensures
        r@ == stub_text(snake@, req@, resp@),
{
    let mut r = String::from_str("\n\nasync fn ");
    r.append(snake);
    r.append("(\n        &self,\n        request: Request<");
    r.append(req);
    r.append(">,\n    ) -> Result<Response<");
    r.append(resp);
    r.append(">, Status> {\n        todo!()\n    }\n");
    r
}

/// The stubs of the RPCs among `rpcs` whose snake-cased name `have` lacks.
fn stubs_for(rpcs: &Vec<ProtoRPC>, have: &Vec<String>) -> (r: String)
    ensures
        r@ == missing_stubs(rpcs@.map_values(|p: ProtoRPC| p@), views(have@)),
{
    let ghost rv = rpcs@.map_values(|p: ProtoRPC| p@);
    let mut out = String::new();
    let mut i: usize = 0;
    assert(rv.subrange(0, 0) =~= Seq::<RpcView>::empty());
    while i < rpcs.len()
        invariant
            rv == rpcs@.map_values(|p: ProtoRPC| p@),
            i <= rpcs@.len(),
            out@ == missing_stubs(rv.subrange(0, i as int), views(have@)),
        decreases rpcs@.len() - i,
    {
        let rpc = &rpcs[i];
        assert(rv.subrange(0, i + 1).drop_last() =~= rv.subrange(0, i as int));
        assert(rv.subrange(0, i + 1).last() == rpc@);
        let snake = to_snake(rpc.name.as_str());
        if !contains_str(have, &snake) {
            let stub = render_stub(snake.as_str(), rpc.request_name.as_str(), rpc.response_name.as_str());
            out.append(stub.as_str());
        } else {
            assert(out@ =~= out@ + Seq::<char>::empty());
        }
        i = i + 1;
    }
    assert(rv.subrange(0, i as int) =~= rv);
    out
}

fn push_import(acc: &mut Vec<String>, x: &String, imported: &Vec<String>)
    ensures
        views(final(acc)@) == add_fresh(views(old(acc)@), x@, views(imported@)),
{
    if !contains_str(imported, x) && !contains_str(acc, x) {
        let ghost before = acc@;
        acc.push(x.clone());
        assert(views(acc@) =~= views(before).push(x@));
    }
}

/// The request and response types of `rpcs` that `imported` lacks, each once.
fn imports_for(rpcs: &Vec<ProtoRPC>, imported: &Vec<String>) -> (r: Vec<String>)
    ensures
        views(r@) == import_names(rpcs@.map_values(|p: ProtoRPC| p@), views(imported@)),
{
    let ghost rv = rpcs@.map_values(|p: ProtoRPC| p@);
    let mut out: Vec<String> = Vec::new();
    let mut i: usize = 0;
    assert(rv.subrange(0, 0) =~= Seq::<RpcView>::empty());
    assert(views(out@) =~= Seq::<Seq<char>>::empty());
    while i < rpcs.len()
        invariant
            rv == rpcs@.map_values(|p: ProtoRPC| p@),
            i <= rpcs@.len(),
            views(out@) == import_names(rv.subrange(0, i as int), views(imported@)),
        decreases rpcs@.len() - i,
    {
        assert(rv.subrange(0, i + 1).drop_last() =~= rv.subrange(0, i as int));
        assert(rv.subrange(0, i + 1).last() == rpcs@[i as int]@);
        push_import(&mut out, &rpcs[i].request_name, imported);
        push_import(&mut out, &rpcs[i].response_name, imported);
        i = i + 1;
    }
    assert(rv.subrange(0, i as int) =~= rv);
    out
}

/// The text that adds `names` to an import group.
pub fn render_import_text(names: &Vec<String>) -> (r: String)
    ensures
        r@ == import_text(views(names@)),
{
    if names.len() == 0 {
        String::new()
    } else {
        let mut r = join(names, ", ");
        r.append(", ");
        r
    }
}

/// What an existing controller still lacks: the request and response types
/// to import, and the stubs of the RPCs that have no method yet.
pub fn generate_stubs(service: &ProtoService, state: &ExistingControllerState) -> (r: (Vec<String>, String))
    ensures
        views(r.0@) == import_names(service@.1, views(state.imported_names@)),
        r.1@ == missing_stubs(service@.1, views(state.method_names@)),
{
    (imports_for(&service.rpcs, &state.imported_names), stubs_for(&service.rpcs, &state.method_names))
}

/// The complete text of a new controller for `service`.
pub fn generate_new_controller_file(service: &ProtoService) -> (r: String)
    ensures
        r@ == new_controller_text(service@),
{
    let none: Vec<String> = Vec::new();
    assert(views(none@) =~= Seq::<Seq<char>>::empty());
    let imports = imports_for(&service.rpcs, &none);
    let body = stubs_for(&service.rpcs, &none);
    let snake = to_snake(service.name.as_str());
    let name = service.name.as_str();
    let mut r = String::from_str("use tonic::async_trait;\nuse tonic::{Status, Response, Request};\nuse crate::protos::");
    r.append(snake.as_str());
    r.append("::{");
    r.append(join(&imports, ", ").as_str());
    r.append("};\nuse crate::protos::");
    r.append(snake.as_str());
    r.append("::");
    r.append(snake.as_str());
    r.append("_server::");
    r.append(name);
    r.append(";\n\n\ncali_derive::controller!(");
    r.append(name);
    r.append("Controller);\n#[async_trait]\nimpl ");
    r.append(name);
    r.append(" for ");
    r.append(name);
    r.append("Controller {\n");
    r.append(body.as_str());
    r.append("\n}");
    r
}


/// `x` occurs in `big` as a contiguous run.
pub open spec fn is_infix(x: Seq<char>, big: Seq<char>) -> bool {
    exists|i: int| 0 <= i && i + x.len() <= big.len() && #[trigger] big.subrange(i, i + x.len()) == x
}

proof fn lemma_infix_extend(x: Seq<char>, a: Seq<char>, b: Seq<char>)
    requires
        is_infix(x, a),
    ensures
        is_infix(x, a + b),
{
    let i = choose|i: int| 0 <= i && i + x.len() <= a.len() && #[trigger] a.subrange(i, i + x.len()) == x;
    assert((a + b).subrange(i, i + x.len()) =~= a.subrange(i, i + x.len()));
}

/// Every RPC of `rpcs` either has its method in `have` or gets a stub.
pub proof fn lemma_stubs_complete(rpcs: Seq<RpcView>, have: Seq<Seq<char>>)
    ensures
        forall|k: int| 0 <= k < rpcs.len() ==> have.contains(snake_of(#[trigger] rpcs[k].0)) || is_infix(
            stub_text(snake_of(rpcs[k].0), rpcs[k].1, rpcs[k].2),
            missing_stubs(rpcs, have),
        ),
    decreases rpcs.len(),
{
    if rpcs.len() > 0 {
        let prev = rpcs.drop_last();
        let r = rpcs.last();
        lemma_stubs_complete(prev, have);
        let head = missing_stubs(prev, have);
        let tail = if have.contains(snake_of(r.0)) {
            Seq::empty()
        } else {
            stub_text(snake_of(r.0), r.1, r.2)
        };
        assert(missing_stubs(rpcs, have) == head + tail);
        assert forall|k: int| 0 <= k < rpcs.len() implies have.contains(snake_of(#[trigger] rpcs[k].0)) || is_infix(
            stub_text(snake_of(rpcs[k].0), rpcs[k].1, rpcs[k].2),
            missing_stubs(rpcs, have),
        ) by {
            if k < rpcs.len() - 1 {
                assert(rpcs[k] == prev[k]);
                if !have.contains(snake_of(prev[k].0)) {
                    lemma_infix_extend(stub_text(snake_of(prev[k].0), prev[k].1, prev[k].2), head, tail);
                }
            } else if !have.contains(snake_of(r.0)) {
                assert((head + tail).subrange(head.len() as int, (head.len() + tail.len()) as int) =~= tail);
            }
        }
    }
}

/// With a method in `have` for every RPC, no stub is generated.
pub proof fn lemma_no_missing_stubs(rpcs: Seq<RpcView>, have: Seq<Seq<char>>)
    requires
        forall|k: int| 0 <= k < rpcs.len() ==> have.contains(snake_of(#[trigger] rpcs[k].0)),
    ensures
        missing_stubs(rpcs, have).len() == 0,
    decreases rpcs.len(),
{
    if rpcs.len() > 0 {
        assert forall|k: int| 0 <= k < rpcs.drop_last().len() implies have.contains(
            snake_of(#[trigger] rpcs.drop_last()[k].0),
        ) by {
            assert(rpcs.drop_last()[k] == rpcs[k]);
        }
        lemma_no_missing_stubs(rpcs.drop_last(), have);
        assert(have.contains(snake_of(rpcs[rpcs.len() - 1].0)));
    }
}

/// Every request and response type of `rpcs` is either in `imported` or
/// among the names to import.
pub proof fn lemma_imports_complete(rpcs: Seq<RpcView>, imported: Seq<Seq<char>>)
    ensures
        forall|k: int| 0 <= k < rpcs.len() ==> (imported.contains(#[trigger] rpcs[k].1) || import_names(
            rpcs,
            imported,
        ).contains(rpcs[k].1)) && (imported.contains(rpcs[k].2) || import_names(rpcs, imported).contains(
            rpcs[k].2,
        )),
    decreases rpcs.len(),
{
    broadcast use vstd::seq_lib::lemma_seq_contains_after_push;

    if rpcs.len() > 0 {
        let prev = rpcs.drop_last();
        lemma_imports_complete(prev, imported);
        assert forall|k: int| 0 <= k < rpcs.len() implies (imported.contains(#[trigger] rpcs[k].1) || import_names(
            rpcs,
            imported,
        ).contains(rpcs[k].1)) && (imported.contains(rpcs[k].2) || import_names(rpcs, imported).contains(
            rpcs[k].2,
        )) by {
            if k < rpcs.len() - 1 {
                assert(rpcs[k] == prev[k]);
            }
        }
    }
}

/// With every request and response type already imported, nothing is added.
pub proof fn lemma_no_missing_imports(rpcs: Seq<RpcView>, imported: Seq<Seq<char>>)
    requires
        forall|k: int| 0 <= k < rpcs.len() ==> imported.contains(#[trigger] rpcs[k].1) && imported.contains(
            rpcs[k].2,
        ),
    ensures
        import_names(rpcs, imported).len() == 0,
    decreases rpcs.len(),
{
    if rpcs.len() > 0 {
        assert forall|k: int| 0 <= k < rpcs.drop_last().len() implies imported.contains(
            #[trigger] rpcs.drop_last()[k].1,
        ) && imported.contains(rpcs.drop_last()[k].2) by {
            assert(rpcs.drop_last()[k] == rpcs[k]);
        }
        lemma_no_missing_imports(rpcs.drop_last(), imported);
        assert(imported.contains(rpcs[rpcs.len() - 1].1));
    }
}


proof fn lemma_add_fresh(acc: Seq<Seq<char>>, x: Seq<char>, have: Seq<Seq<char>>)
    requires
        acc.no_duplicates(),
        forall|i: int| 0 <= i < acc.len() ==> !have.contains(#[trigger] acc[i]),
    ensures
        add_fresh(acc, x, have).no_duplicates(),
        forall|i: int| 0 <= i < add_fresh(acc, x, have).len() ==> !have.contains(#[trigger] add_fresh(acc, x, have)[i]),
{
    if !(have.contains(x) || acc.contains(x)) {
        let r = acc.push(x);
        assert forall|i: int, j: int| 0 <= i < r.len() && 0 <= j < r.len() && i != j implies r[i] != r[j] by {
            if i == acc.len() {
                assert(acc[j] == r[j]);
            } else if j == acc.len() {
                assert(acc[i] == r[i]);
            } else {
                assert(acc[i] == r[i] && acc[j] == r[j]);
            }
        }
        assert forall|i: int| 0 <= i < r.len() implies !have.contains(#[trigger] r[i]) by {
            if i < acc.len() {
                assert(acc[i] == r[i]);
            }
        }
    }
}

/// A type that a controller already imports is never imported again, and no
/// type is added to an import group twice.
pub proof fn law_no_reimport(rpcs: Seq<RpcView>, imported: Seq<Seq<char>>)
    ensures
        import_names(rpcs, imported).no_duplicates(),
        forall|i: int| 0 <= i < import_names(rpcs, imported).len() ==> !imported.contains(
            #[trigger] import_names(rpcs, imported)[i],
        ),
    decreases rpcs.len(),
{
    if rpcs.len() > 0 {
        let r = rpcs.last();
        let prev = import_names(rpcs.drop_last(), imported);
        law_no_reimport(rpcs.drop_last(), imported);
        lemma_add_fresh(prev, r.1, imported);
        lemma_add_fresh(add_fresh(prev, r.1, imported), r.2, imported);
    }
}

} // verus!
