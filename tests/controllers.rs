use cali::error::SyncError;
use cali::outline::{ItemOutline, MethodOutline, ModOutline, UseTree};
use cali::parser::{parse_definitions, ProtoService};
use cali::patcher::SourceLocation;
use cali::registry::sync_registry;
use cali::parser::ProtoData;
use cali::scanner::scan_controller;
use cali::sync::{controller_path, sync_controller, sync_existing_controller, ExistingFile, SyncPlan};
use cali::generator::generate_new_controller_file;

const GREETER: &str = "service Greeter { rpc SayHello (HelloRequest) returns (HelloResponse); }";
const GREETER_EXTENDED: &str = "service Greeter {\n  rpc SayHello (HelloRequest) returns (HelloResponse);\n  rpc SayGoodbye (ByeRequest) returns (ByeResponse);\n}\n";

const CUSTOM_CONTROLLER: &str = "use tonic::async_trait;
use tonic::{Status, Response, Request};
use crate::protos::greeter::{HelloRequest, HelloResponse};
use crate::protos::greeter::greeter_server::Greeter;

cali_derive::controller!(GreeterController);

#[async_trait]
impl Greeter for GreeterController {
    async fn say_hello(
        &self,
        request: Request<HelloRequest>,
    ) -> Result<Response<HelloResponse>, Status> {
        // hand-written: keep me
        let name = request.into_inner().name;
        Ok(Response::new(HelloResponse { message: format!(\"Hello {}\", name) }))
    }

    async fn internal_helper(&self) -> u32 {
        42 /* decoy } brace */
    }
}
";

fn service(text: &str) -> ProtoService {
    parse_definitions(text).remove(0)
}

/// The (line, column) of the character offset `at` of `text`.
fn loc_at(text: &str, at: usize) -> SourceLocation {
    let before: Vec<char> = text.chars().take(at).collect();
    let line = 1 + before.iter().filter(|c| **c == '\n').count();
    let column = before.iter().rev().take_while(|c| **c != '\n').count();
    SourceLocation { line, column }
}

fn char_offset(text: &str, byte: usize) -> usize {
    text[..byte].chars().count()
}

/// The location just after the brace that closes the body of `fn name`.
fn body_end(text: &str, name: &str) -> SourceLocation {
    let start = text.find(&format!("fn {}(", name)).unwrap();
    let open = start + text[start..].find(") -> ").unwrap();
    let open = open + text[open..].find('{').unwrap();
    let mut depth = 0;
    let mut in_comment = false;
    for (i, c) in text[open..].char_indices() {
        let rest = &text[open + i..];
        if rest.starts_with("/*") {
            in_comment = true;
        }
        if rest.starts_with("*/") {
            in_comment = false;
        }
        if in_comment {
            continue;
        }
        if c == '{' {
            depth += 1;
        }
        if c == '}' {
            depth -= 1;
            if depth == 0 {
                return loc_at(text, char_offset(text, open + i + 1));
            }
        }
    }
    panic!("unbalanced body");
}

fn path(segments: &[&str], leaf: UseTree) -> UseTree {
    segments.iter().rev().fold(leaf, |t, s| UseTree::Path(s.to_string(), Box::new(t)))
}

/// The outline of a controller text: its import group under
/// `crate::protos::<snake>`, its other imports, and the methods `methods`.
fn outline(text: &str, snake: &str, methods: &[&str]) -> Vec<ItemOutline> {
    let group_line = format!("use crate::protos::{}::{{", snake);
    let g = text.find(&group_line).unwrap() + group_line.len();
    let close = g + text[g..].find('}').unwrap();
    let mut members = Vec::new();
    let mut pos = g;
    for part in text[g..close].split(", ").filter(|p| !p.is_empty()) {
        let at = pos + text[pos..].find(part).unwrap();
        members.push(UseTree::Name(part.to_string(), loc_at(text, char_offset(text, at))));
        pos = at + part.len();
    }
    let zero = SourceLocation { line: 1, column: 0 };
    vec![
        ItemOutline::Use(path(&["tonic"], UseTree::Name("async_trait".to_string(), zero))),
        ItemOutline::Use(path(
            &["tonic"],
            UseTree::Group(
                vec![
                    UseTree::Name("Status".to_string(), zero),
                    UseTree::Name("Response".to_string(), zero),
                    UseTree::Name("Request".to_string(), zero),
                ],
                zero,
            ),
        )),
        ItemOutline::Use(path(&["crate", "protos", snake], UseTree::Group(members, loc_at(text, char_offset(text, g))))),
        ItemOutline::Use(path(
            &["crate", "protos", snake, &format!("{}_server", snake)],
            UseTree::Name("Greeter".to_string(), zero),
        )),
        ItemOutline::Other,
        ItemOutline::Impl(
            methods
                .iter()
                .map(|m| MethodOutline { name: m.to_string(), body_end: body_end(text, m) })
                .collect(),
            loc_at(text, char_offset(text, text.rfind('}').unwrap())),
        ),
    ]
}

fn patched(plan: Result<SyncPlan, SyncError>) -> String {
    match plan {
        Ok(SyncPlan::Patch(t)) => t,
        other => panic!("expected a patch, got {:?}", other),
    }
}

fn created(plan: Result<SyncPlan, SyncError>) -> String {
    match plan {
        Ok(SyncPlan::CreateNew(t)) => t,
        other => panic!("expected a new file, got {:?}", other),
    }
}

#[test]
fn new_controller_for_greeter() {
    let text = created(sync_controller(&service(GREETER), None));
    let expected = "use tonic::async_trait;
use tonic::{Status, Response, Request};
use crate::protos::greeter::{HelloRequest, HelloResponse};
use crate::protos::greeter::greeter_server::Greeter;


cali_derive::controller!(GreeterController);
#[async_trait]
impl Greeter for GreeterController {


async fn say_hello(
        &self,
        request: Request<HelloRequest>,
    ) -> Result<Response<HelloResponse>, Status> {
        todo!()
    }

}";
    assert_eq!(text, expected);
}

#[test]
fn new_controller_imports_each_type_once() {
    let svc = service("service Shop { rpc Buy (Item) returns (Receipt); rpc Gift (Item) returns (Receipt); rpc Check (Receipt) returns (Status2); }");
    let text = generate_new_controller_file(&svc);
    assert!(text.contains("use crate::protos::shop::{Item, Receipt, Status2};"));
    assert!(text.contains("async fn buy("));
    assert!(text.contains("async fn gift("));
    assert!(text.contains("async fn check("));
    assert!(text.contains("use crate::protos::shop::shop_server::Shop;"));
}

#[test]
fn new_controller_rendering_is_deterministic() {
    let a = generate_new_controller_file(&service(GREETER_EXTENDED));
    let b = generate_new_controller_file(&service(GREETER_EXTENDED));
    assert_eq!(a, b);
}

#[test]
fn controller_path_uses_snake_case() {
    assert_eq!(controller_path("web/src/controllers", "Greeter"), "web/src/controllers/greeter.rs");
    assert_eq!(controller_path("ctrl", "UserAccounts"), "ctrl/user_accounts.rs");
}

#[test]
fn scanner_reads_methods_imports_and_sites() {
    let items = outline(CUSTOM_CONTROLLER, "greeter", &["say_hello", "internal_helper"]);
    let ns = vec!["crate".to_string(), "protos".to_string(), "greeter".to_string()];
    let state = scan_controller(&items, &ns).unwrap();
    assert_eq!(state.method_names, vec!["say_hello".to_string(), "internal_helper".to_string()]);
    assert_eq!(state.imported_names, vec!["HelloRequest".to_string(), "HelloResponse".to_string()]);
    assert_eq!(state.import_insertion_point, SourceLocation { line: 3, column: 29 });
    assert_eq!(state.method_insertion_point, Some(SourceLocation { line: 21, column: 5 }));
}

#[test]
fn existing_complete_controller_is_unchanged() {
    let items = outline(CUSTOM_CONTROLLER, "greeter", &["say_hello", "internal_helper"]);
    let file = ExistingFile { text: CUSTOM_CONTROLLER.to_string(), items };
    let text = patched(sync_controller(&service(GREETER), Some(&file)));
    assert_eq!(text, CUSTOM_CONTROLLER);
}

#[test]
fn extended_definition_adds_import_and_stub_only() {
    let items = outline(CUSTOM_CONTROLLER, "greeter", &["say_hello", "internal_helper"]);
    let file = ExistingFile { text: CUSTOM_CONTROLLER.to_string(), items };
    let text = patched(sync_existing_controller(&service(GREETER_EXTENDED), &file));
    let expected = CUSTOM_CONTROLLER
        .replace("{HelloRequest, HelloResponse}", "{ByeRequest, ByeResponse, HelloRequest, HelloResponse}")
        .replace(
            "        42 /* decoy } brace */\n    }\n}\n",
            "        42 /* decoy } brace */\n    }\n\nasync fn say_goodbye(\n        &self,\n        request: Request<ByeRequest>,\n    ) -> Result<Response<ByeResponse>, Status> {\n        todo!()\n    }\n\n}\n",
        );
    assert_eq!(text, expected);
    assert!(text.contains("        // hand-written: keep me\n"));
}

#[test]
fn second_run_after_a_patch_changes_nothing() {
    let items = outline(CUSTOM_CONTROLLER, "greeter", &["say_hello", "internal_helper"]);
    let file = ExistingFile { text: CUSTOM_CONTROLLER.to_string(), items };
    let svc = service(GREETER_EXTENDED);
    let first = patched(sync_existing_controller(&svc, &file));
    let items = outline(&first, "greeter", &["say_hello", "internal_helper", "say_goodbye"]);
    let again = ExistingFile { text: first.clone(), items };
    let second = patched(sync_existing_controller(&svc, &again));
    assert_eq!(second, first);
}

#[test]
fn type_already_imported_is_not_imported_again() {
    let svc = service("service Greeter { rpc SayHello (HelloRequest) returns (HelloResponse); rpc Again (HelloRequest) returns (ByeResponse); }");
    let items = outline(CUSTOM_CONTROLLER, "greeter", &["say_hello", "internal_helper"]);
    let file = ExistingFile { text: CUSTOM_CONTROLLER.to_string(), items };
    let text = patched(sync_existing_controller(&svc, &file));
    assert!(text.contains("use crate::protos::greeter::{ByeResponse, HelloRequest, HelloResponse};"));
    assert!(text.contains("async fn again("));
    assert_eq!(text.matches("async fn say_hello(").count(), 1);
}

#[test]
fn missing_import_group_is_reported() {
    let zero = SourceLocation { line: 1, column: 0 };
    let items = vec![ItemOutline::Impl(
        vec![MethodOutline { name: "say_hello".to_string(), body_end: zero }],
        zero,
    )];
    let file = ExistingFile { text: "impl X {}".to_string(), items };
    match sync_existing_controller(&service(GREETER), &file) {
        Err(SyncError::MissingOrAmbiguousImportSite(ns)) => assert_eq!(ns, "crate::protos::greeter"),
        other => panic!("unexpected {:?}", other),
    }
}

#[test]
fn two_import_groups_are_ambiguous() {
    let mut items = outline(CUSTOM_CONTROLLER, "greeter", &["say_hello", "internal_helper"]);
    let zero = SourceLocation { line: 1, column: 0 };
    items.push(ItemOutline::Use(path(
        &["crate", "protos", "greeter"],
        UseTree::Group(vec![UseTree::Name("Extra".to_string(), zero)], zero),
    )));
    let ns = vec!["crate".to_string(), "protos".to_string(), "greeter".to_string()];
    assert!(matches!(scan_controller(&items, &ns), Err(SyncError::MissingOrAmbiguousImportSite(_))));
}

#[test]
fn empty_second_import_group_is_ambiguous_too() {
    let mut items = outline(CUSTOM_CONTROLLER, "greeter", &["say_hello", "internal_helper"]);
    let zero = SourceLocation { line: 1, column: 0 };
    items.push(ItemOutline::Use(path(&["crate", "protos", "greeter"], UseTree::Group(Vec::new(), zero))));
    let ns = vec!["crate".to_string(), "protos".to_string(), "greeter".to_string()];
    assert!(matches!(scan_controller(&items, &ns), Err(SyncError::MissingOrAmbiguousImportSite(_))));
}

#[test]
fn single_name_import_is_no_site() {
    let zero = SourceLocation { line: 1, column: 0 };
    let items = vec![ItemOutline::Use(path(
        &["crate", "protos", "greeter"],
        UseTree::Name("HelloRequest".to_string(), zero),
    ))];
    let ns = vec!["crate".to_string(), "protos".to_string(), "greeter".to_string()];
    assert!(matches!(scan_controller(&items, &ns), Err(SyncError::MissingOrAmbiguousImportSite(_))));
}

#[test]
fn stubs_without_any_impl_block_are_reported() {
    let text = "use crate::protos::greeter::{HelloRequest, HelloResponse};\n";
    let zero = SourceLocation { line: 1, column: 0 };
    let items = vec![ItemOutline::Use(path(
        &["crate", "protos", "greeter"],
        UseTree::Group(
            vec![
                UseTree::Name("HelloRequest".to_string(), SourceLocation { line: 1, column: 29 }),
                UseTree::Name("HelloResponse".to_string(), zero),
            ],
            SourceLocation { line: 1, column: 29 },
        ),
    ))];
    let file = ExistingFile { text: text.to_string(), items };
    assert!(matches!(
        sync_existing_controller(&service(GREETER), &file),
        Err(SyncError::MissingMethodSite(name)) if name == "Greeter"
    ));
}

#[test]
fn service_without_rpcs_can_be_rerun_and_later_extended() {
    let empty = service("service Greeter {}");
    let first = created(sync_controller(&empty, None));
    assert!(first.contains("use crate::protos::greeter::{};"));
    let file = ExistingFile { text: first.clone(), items: outline(&first, "greeter", &[]) };
    assert_eq!(patched(sync_existing_controller(&empty, &file)), first);

    let grown = patched(sync_existing_controller(&service(GREETER), &file));
    let expected = first
        .replace("::greeter::{};", "::greeter::{HelloRequest, HelloResponse, };")
        .replace(
            "GreeterController {\n\n}",
            "GreeterController {\n\n\n\nasync fn say_hello(\n        &self,\n        request: Request<HelloRequest>,\n    ) -> Result<Response<HelloResponse>, Status> {\n        todo!()\n    }\n}",
        );
    assert_eq!(grown, expected);
}

#[test]
fn stale_outline_location_is_reported() {
    let mut items = outline(CUSTOM_CONTROLLER, "greeter", &["say_hello", "internal_helper"]);
    items[5] = ItemOutline::Impl(
        vec![MethodOutline {
            name: "internal_helper".to_string(),
            body_end: SourceLocation { line: 99, column: 0 },
        }],
        SourceLocation { line: 99, column: 0 },
    );
    let file = ExistingFile { text: CUSTOM_CONTROLLER.to_string(), items };
    assert!(matches!(
        sync_existing_controller(&service(GREETER), &file),
        Err(SyncError::InvalidPatchLocation)
    ));
}

fn data(text: &str) -> ProtoData {
    ProtoData { services: parse_definitions(text) }
}

#[test]
fn new_registry_lists_each_module_once() {
    let d = data("service Greeter {}\nservice Accounts {}\nservice Greeter {}\nservice UserAccounts {}");
    let text = created(sync_registry(&d, None));
    assert_eq!(text, "pub mod greeter;\npub mod accounts;\npub mod user_accounts;\n");
}

#[test]
fn registry_for_greeter_gains_its_line() {
    let text = created(sync_registry(&data(GREETER), None));
    assert_eq!(text, "pub mod greeter;\n");
}

#[test]
fn complete_registry_is_unchanged() {
    let text = "pub mod greeter;\n";
    let items = vec![ItemOutline::Mod(ModOutline {
        name: "greeter".to_string(),
        end: SourceLocation { line: 1, column: 16 },
    })];
    let file = ExistingFile { text: text.to_string(), items };
    assert_eq!(patched(sync_registry(&data(GREETER), Some(&file))), text);
}

#[test]
fn registry_gains_missing_lines_after_the_last_declaration() {
    let text = "// controllers\npub mod greeter;\n\nfn helper() {}\n";
    let items = vec![
        ItemOutline::Mod(ModOutline { name: "greeter".to_string(), end: SourceLocation { line: 2, column: 16 } }),
        ItemOutline::Other,
    ];
    let file = ExistingFile { text: text.to_string(), items };
    let d = data("service Accounts {}\nservice Greeter {}\nservice Billing {}");
    let r = patched(sync_registry(&d, Some(&file)));
    assert_eq!(r, "// controllers\npub mod greeter;\npub mod accounts;\npub mod billing;\n\nfn helper() {}\n");
}

#[test]
fn registry_without_declarations_gains_lines_at_its_start() {
    let text = "// nothing yet\n";
    let file = ExistingFile { text: text.to_string(), items: vec![ItemOutline::Other] };
    let r = patched(sync_registry(&data("service Greeter {}"), Some(&file)));
    assert_eq!(r, "pub mod greeter;\n// nothing yet\n");
}

#[test]
fn registry_with_bad_location_is_reported() {
    let items = vec![ItemOutline::Mod(ModOutline {
        name: "other".to_string(),
        end: SourceLocation { line: 7, column: 0 },
    })];
    let file = ExistingFile { text: "pub mod other;\n".to_string(), items };
    assert!(matches!(
        sync_registry(&data(GREETER), Some(&file)),
        Err(SyncError::InvalidPatchLocation)
    ));
}

#[test]
fn registry_order_of_discovery_does_not_change_the_lines() {
    let a = created(sync_registry(&data("service A {}\nservice B {}\nservice A {}"), None));
    let b = created(sync_registry(&data("service B {}\nservice A {}"), None));
    let mut la: Vec<&str> = a.lines().collect();
    let mut lb: Vec<&str> = b.lines().collect();
    assert_eq!(la.len(), 2);
    la.sort();
    lb.sort();
    assert_eq!(la, lb);
}
