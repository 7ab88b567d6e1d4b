//! The layout of a new application: the directories to create, and the
//! files to render from templates, under a directory named after the
//! application.
use vstd::prelude::*;
use vstd::string::*;
use crate::text::views;

verus! {

/// The directories of a new application, relative to its root.
pub open spec fn app_directories() -> Seq<Seq<char>> {
    seq![
        ""@,
        "interface"@,
        "interface/grpc"@,
        "interface/grpc/services"@,
        "interface/grpc/models"@,
        "web"@,
        "web/config"@,
        "web/src"@,
        "web/src/entry"@,
        "web/src/controllers"@,
        "web/src/protos"@,
        "web/tests"@,
        "web/tests/common"@,
        "store"@,
        "store/src"@,
        "store/migrations"@,
        "store/src/repositories"@,
        "core"@,
        "core/src"@,
    ]
}

/// The files of a new application that are rendered from a template of the
/// same relative path, relative to its root.
pub open spec fn app_templated_files() -> Seq<Seq<char>> {
    seq![
        "web/src/entry/main.rs"@,
        "web/Cargo.toml"@,
        "web/build.rs"@,
        "web/src/lib.rs"@,
        "web/src/config.rs"@,
        "web/config/dev.yml"@,
        "web/src/controllers/mod.rs"@,
        "web/config/test.yml"@,
        "core/Cargo.toml"@,
        "core/src/lib.rs"@,
        "store/Cargo.toml"@,
        "store/src/lib.rs"@,
        "store/src/repositories/mod.rs"@,
        "Cargo.toml"@,
        ".gitignore"@,
        "README.md"@,
    ]
}

/// The file of a new application that starts out empty.
pub open spec fn app_empty_file() -> Seq<char> {
    "web/src/protos/mod.rs"@
}

/// `rel` under the root of the application `name`.
pub open spec fn app_path(name: Seq<char>, rel: Seq<char>) -> Seq<char> {
    "./"@ + name + "/"@ + rel
}

/// Where everything of a new application goes.
#[derive(Debug)]
pub struct AppLayout {
    /// The directories to create, parents first.
    pub directories: Vec<String>,
    /// The files to render, each from the template of its relative path.
    pub templated_files: Vec<String>,
    /// The relative paths of those templates, in the same order.
    pub templates: Vec<String>,
    /// The file to create empty.
    pub empty_file: String,
}

fn push_path(v: &mut Vec<String>, name: &str, rel: &str)
    ensures
        views(final(v)@) == views(old(v)@).push(app_path(name@, rel@)),
{
    let mut p = String::from_str("./");
    p.append(name);
    p.append("/");
    p.append(rel);
    let ghost before = v@;
    v.push(p);
    assert(views(v@) =~= views(before).push(app_path(name@, rel@)));
}

fn push_rel(v: &mut Vec<String>, rel: &str)
    ensures
        views(final(v)@) == views(old(v)@).push(rel@),
{
    let ghost before = v@;
    v.push(String::from_str(rel));
    assert(views(v@) =~= views(before).push(rel@));
}

/// The layout of a new application called `name`.
pub fn create_app(name: &str) -> (r: AppLayout)
    ensures
        views(r.directories@) == app_directories().map_values(|d: Seq<char>| app_path(name@, d)),
        views(r.templated_files@) == app_templated_files().map_values(|f: Seq<char>| app_path(name@, f)),
        views(r.templates@) == app_templated_files(),
        r.empty_file@ == app_path(name@, app_empty_file()),
{
    let mut directories: Vec<String> = Vec::new();
    push_path(&mut directories, name, "");
    push_path(&mut directories, name, "interface");
    push_path(&mut directories, name, "interface/grpc");
    push_path(&mut directories, name, "interface/grpc/services");
    push_path(&mut directories, name, "interface/grpc/models");
    push_path(&mut directories, name, "web");
    push_path(&mut directories, name, "web/config");
    push_path(&mut directories, name, "web/src");
    push_path(&mut directories, name, "web/src/entry");
    push_path(&mut directories, name, "web/src/controllers");
    push_path(&mut directories, name, "web/src/protos");
    push_path(&mut directories, name, "web/tests");
    push_path(&mut directories, name, "web/tests/common");
    push_path(&mut directories, name, "store");
    push_path(&mut directories, name, "store/src");
    push_path(&mut directories, name, "store/migrations");
    push_path(&mut directories, name, "store/src/repositories");
    push_path(&mut directories, name, "core");
    push_path(&mut directories, name, "core/src");
    assert(views(directories@) =~= app_directories().map_values(|d: Seq<char>| app_path(name@, d)));
    let mut templated: Vec<String> = Vec::new();
    push_path(&mut templated, name, "web/src/entry/main.rs");
    push_path(&mut templated, name, "web/Cargo.toml");
    push_path(&mut templated, name, "web/build.rs");
    push_path(&mut templated, name, "web/src/lib.rs");
    push_path(&mut templated, name, "web/src/config.rs");
    push_path(&mut templated, name, "web/config/dev.yml");
    push_path(&mut templated, name, "web/src/controllers/mod.rs");
    push_path(&mut templated, name, "web/config/test.yml");
    push_path(&mut templated, name, "core/Cargo.toml");
    push_path(&mut templated, name, "core/src/lib.rs");
    push_path(&mut templated, name, "store/Cargo.toml");
    push_path(&mut templated, name, "store/src/lib.rs");
    push_path(&mut templated, name, "store/src/repositories/mod.rs");
    push_path(&mut templated, name, "Cargo.toml");
    push_path(&mut templated, name, ".gitignore");
    push_path(&mut templated, name, "README.md");
    assert(views(templated@) =~= app_templated_files().map_values(|f: Seq<char>| app_path(name@, f)));
    let mut templates: Vec<String> = Vec::new();
    push_rel(&mut templates, "web/src/entry/main.rs");
    push_rel(&mut templates, "web/Cargo.toml");
    push_rel(&mut templates, "web/build.rs");
    push_rel(&mut templates, "web/src/lib.rs");
    push_rel(&mut templates, "web/src/config.rs");
    push_rel(&mut templates, "web/config/dev.yml");
    push_rel(&mut templates, "web/src/controllers/mod.rs");
    push_rel(&mut templates, "web/config/test.yml");
    push_rel(&mut templates, "core/Cargo.toml");
    push_rel(&mut templates, "core/src/lib.rs");
    push_rel(&mut templates, "store/Cargo.toml");
    push_rel(&mut templates, "store/src/lib.rs");
    push_rel(&mut templates, "store/src/repositories/mod.rs");
    push_rel(&mut templates, "Cargo.toml");
    push_rel(&mut templates, ".gitignore");
    push_rel(&mut templates, "README.md");
    assert(views(templates@) =~= app_templated_files());
    let mut empty_file = String::from_str("./");
    empty_file.append(name);
    empty_file.append("/");
    empty_file.append("web/src/protos/mod.rs");
    AppLayout { directories, templated_files: templated, templates, empty_file }
}

} // verus!
