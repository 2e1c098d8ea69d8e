//! The text of the shim modules, and the paths that they require.

use crate::manifest::target::TargetKind;
use crate::paths::{components, components_spec, diff_paths, diff_spec};
use crate::text::{concat3, extend_texts, join, join_spec, str_eq, strip_suffix, strip_suffix_spec,
    views};
use vstd::prelude::*;
use vstd::string::*;

verus! {

/// The text as the `Debug` formatting of std writes a string: between
/// double quotes, with what needs it escaped.
pub uninterp spec fn str_debug(text: Seq<char>) -> Seq<char>;

/// The statements at the top level of `code`, in order, each as the text
/// of its tokens, as `full_moon` reads them from code that may hold
/// syntax errors.
pub uninterp spec fn luau_statements(code: Seq<char>) -> Seq<Seq<Seq<char>>>;

/// The name of the type that a statement exports, given the statement's
/// tokens: a statement that begins with `export` and `type` exports the
/// type that its third token names, unless that is the word `function`:
/// a type function is no type declaration.
pub open spec fn exported_type_spec(tokens: Seq<Seq<char>>) -> Option<Seq<char>> {
    if tokens.len() >= 3 && tokens[0] == "export"@ && tokens[1] == "type"@ && tokens[2]
        != "function"@ {
        Some(tokens[2])
    } else {
        None
    }
}

/// The names of the types that the statements export, in order.
pub open spec fn exported_types_spec(statements: Seq<Seq<Seq<char>>>) -> Seq<Seq<char>>
    decreases statements.len(),
{
    if statements.len() == 0 {
        Seq::empty()
    } else {
        let before = exported_types_spec(statements.drop_last());
        match exported_type_spec(statements.last()) {
            Some(name) => before.push(name),
            None => before,
        }
    }
}

/// The names of the types that the statements at the top level of `code`
/// export, in order.
pub open spec fn luau_exported_types(code: Seq<char>) -> Seq<Seq<char>> {
    exported_types_spec(luau_statements(code))
}

/// What a list of statements holds.
pub open spec fn statement_views(statements: Seq<Vec<String>>) -> Seq<Seq<Seq<char>>> {
    statements.map_values(|tokens: Vec<String>| views(tokens@))
}

/// The `Debug` formatting of a string, through `format!` of std.
#[verifier::external_body]
fn quoted(text: &str) -> (r: String)
    ensures
        r@ == str_debug(text@),
{
    format!("{:?}", text)
}

/// `full_moon::parse_fallible` for every Lua version that is enabled, and
/// of each statement of the `Ast` it gives, in order, the tokens that
/// `Node::tokens` walks over, each as its `Token` writes itself.
#[verifier::external_body]
fn statement_tokens(code: &str) -> (r: Vec<Vec<String>>)
    ensures
        statement_views(r@) == luau_statements(code@),
{
    let ast = full_moon::parse_fallible(code, full_moon::LuaVersion::new()).into_ast();
    let statements = ast.nodes().stmts().map(
        |stmt| full_moon::node::Node::tokens(stmt).map(|t| t.token().to_string()).collect(),
    );
    statements.collect()
}

/// The name of the type that a statement exports, given the statement's
/// tokens.
pub fn exported_type(tokens: &Vec<String>) -> (r: Option<String>)
    ensures
        match r {
            Some(name) => exported_type_spec(views(tokens@)) == Some(name@),
            None => exported_type_spec(views(tokens@)) is None,
        },
{
    if tokens.len() >= 3 && str_eq(tokens[0].as_str(), "export") && str_eq(
        tokens[1].as_str(),
        "type",
    ) && !str_eq(tokens[2].as_str(), "function") {
        Some(tokens[2].clone())
    } else {
        None
    }
}

/// The names of the types that the statements export, in order.
pub fn exported_types(statements: &Vec<Vec<String>>) -> (r: Vec<String>)
    ensures
        views(r@) == exported_types_spec(statement_views(statements@)),
{
    let mut names: Vec<String> = Vec::new();
    let ghost all = statement_views(statements@);
    let mut i: usize = 0;
    proof {
        assert(all.subrange(0, 0) == Seq::<Seq<Seq<char>>>::empty());
        assert(views(names@) == Seq::<Seq<char>>::empty());
    }
    while i < statements.len()
        invariant
            i <= statements@.len(),
            all == statement_views(statements@),
            views(names@) == exported_types_spec(all.subrange(0, i as int)),
        decreases statements@.len() - i,
    {
        proof {
            assert(all.subrange(0, i + 1).drop_last() == all.subrange(0, i as int));
            assert(all.subrange(0, i + 1).last() == views(statements@[i as int]@));
        }
        match exported_type(&statements[i]) {
            Some(name) => {
                let ghost before = views(names@);
                names.push(name);
                proof {
                    assert(views(names@) == before.push(name@));
                }
            },
            None => {},
        }
        i += 1;
    }
    proof {
        assert(all.subrange(0, all.len() as int) == all);
    }
    names
}

/// The names of the types that a library file exports at its top level.
pub fn get_file_types(code: &str) -> (r: Vec<String>)
    ensures
        views(r@) == luau_exported_types(code@),
{
    let statements = statement_tokens(code);
    exported_types(&statements)
}

/// The path as a Luau `require` of a file takes it: relative to the
/// requiring file's directory, and quoted.
pub open spec fn luau_style_spec(parts: Seq<Seq<char>>) -> Seq<char> {
    str_debug("./"@ + join_spec(parts, "/"@))
}

/// The path as a Luau `require` of a file takes it.
pub fn luau_style_path(parts: &Vec<String>) -> (r: String)
    ensures
        r@ == luau_style_spec(views(parts@)),
{
    let joined = join(parts, "/");
    let relative = crate::text::concat("./", joined.as_str());
    quoted(relative.as_str())
}

/// A file name without the extension `.luau` or `.lua` at its end.
pub open spec fn module_name_spec(part: Seq<char>) -> Seq<char> {
    match strip_suffix_spec(part, ".luau"@) {
        Some(stem) => stem,
        None => match strip_suffix_spec(part, ".lua"@) {
            Some(stem) => stem,
            None => part,
        },
    }
}

/// What a component of a path means among Roblox instances: `..` is the
/// parent; `.` and an `init` file are the instance one stands at; any
/// other name is the child of that name, without its extension.
pub open spec fn roblox_step_spec(part: Seq<char>) -> Seq<char> {
    if part == ".."@ {
        ".Parent"@
    } else if part == "."@ || part == "init.lua"@ || part == "init.luau"@ {
        Seq::empty()
    } else {
        "["@ + str_debug(module_name_spec(part)) + "]"@
    }
}

/// The path as a Roblox `require` takes it: the instances to walk
/// through, starting at the parent of the requiring script.
pub open spec fn roblox_style_spec(parts: Seq<Seq<char>>) -> Seq<char> {
    "script.Parent"@ + join_spec(parts.map_values(|p: Seq<char>| roblox_step_spec(p)), ""@)
}

/// What a component of a path means among Roblox instances.
pub fn roblox_step(part: &str) -> (r: String)
    ensures
        r@ == roblox_step_spec(part@),
{
    if str_eq(part, "..") {
        String::from_str(".Parent")
    } else if str_eq(part, ".") || str_eq(part, "init.lua") || str_eq(part, "init.luau") {
        String::new()
    } else {
        let name = match strip_suffix(part, ".luau") {
            Some(stem) => stem,
            None => match strip_suffix(part, ".lua") {
                Some(stem) => stem,
                None => String::from_str(part),
            },
        };
        let name = quoted(name.as_str());
        concat3("[", name.as_str(), "]")
    }
}

/// The path as a Roblox `require` takes it.
pub fn roblox_style_path(parts: &Vec<String>) -> (r: String)
    ensures
        r@ == roblox_style_spec(views(parts@)),
{
    let mut steps: Vec<String> = Vec::new();
    let mut i: usize = 0;
    let ghost all = views(parts@);
    while i < parts.len()
        invariant
            i <= parts@.len(),
            all == views(parts@),
            views(steps@) == all.subrange(0, i as int).map_values(
                |p: Seq<char>| roblox_step_spec(p),
            ),
        decreases parts@.len() - i,
    {
        let ghost before = views(steps@);
        steps.push(roblox_step(parts[i].as_str()));
        proof {
            assert(views(steps@) == before.push(roblox_step_spec(all[i as int])));
            assert(views(steps@) =~= all.subrange(0, i + 1).map_values(
                |p: Seq<char>| roblox_step_spec(p),
            ));
        }
        i += 1;
    }
    proof {
        assert(all.subrange(0, all.len() as int) == all);
    }
    let walked = join(&steps, "");
    crate::text::concat("script.Parent", walked.as_str())
}

/// The components of the path that a shim in the directory `from`
/// requires to reach the library file `lib_file` of the package in the
/// directory `container`. A package that is laid out as Wally lays
/// packages out is required by its directory.
pub open spec fn lib_require_parts(
    from: Seq<Seq<char>>,
    lib_file: Seq<char>,
    container: Seq<Seq<char>>,
    use_new_structure: bool,
) -> Seq<Seq<char>> {
    diff_spec(from, container) + if use_new_structure {
        components_spec(lib_file)
    } else {
        Seq::empty()
    }
}

/// The path that a shim in the directory `from` requires to reach a
/// library file: for the Roblox kinds a walk through instances, for the
/// others a relative file path.
pub open spec fn lib_require_spec(
    target: TargetKind,
    from: Seq<Seq<char>>,
    lib_file: Seq<char>,
    container: Seq<Seq<char>>,
    use_new_structure: bool,
) -> Seq<char> {
    let parts = lib_require_parts(from, lib_file, container, use_new_structure);
    if target.is_roblox_spec() {
        roblox_style_spec(parts)
    } else {
        luau_style_spec(parts)
    }
}

/// The path that a shim in the directory `from` requires to reach a
/// binary file.
pub open spec fn bin_require_spec(
    from: Seq<Seq<char>>,
    bin_file: Seq<char>,
    container: Seq<Seq<char>>,
) -> Seq<char> {
    luau_style_spec(diff_spec(from, container) + components_spec(bin_file))
}

/// The path that a shim in the directory `from` requires to reach the
/// library file of a package.
pub fn get_lib_require_path(
    target: TargetKind,
    from: &Vec<String>,
    lib_file: &str,
    container: &Vec<String>,
    use_new_structure: bool,
) -> (r: String)
    ensures
        r@ == lib_require_spec(target, views(from@), lib_file@, views(container@), use_new_structure),
{
    let mut parts = diff_paths(from, container);
    if use_new_structure {
        let inner = components(lib_file);
        extend_texts(&mut parts, &inner);
    } else {
        assert(views(parts@) + Seq::<Seq<char>>::empty() == views(parts@));
    }
    if target.is_roblox() {
        roblox_style_path(&parts)
    } else {
        luau_style_path(&parts)
    }
}

/// The path that a shim in the directory `from` requires to reach the
/// binary file of a package.
pub fn get_bin_require_path(from: &Vec<String>, bin_file: &str, container: &Vec<String>) -> (r:
    String)
    ensures
        r@ == bin_require_spec(views(from@), bin_file@, views(container@)),
{
    let mut parts = diff_paths(from, container);
    let inner = components(bin_file);
    extend_texts(&mut parts, &inner);
    luau_style_path(&parts)
}

/// The line that exports the type `name` of the required module again.
pub open spec fn export_line_spec(name: Seq<char>) -> Seq<char> {
    "export type "@ + name + " = module."@ + name + "\n"@
}

/// The text of a shim that requires a library and exports its value and
/// its types again.
pub open spec fn lib_module_spec(require_path: Seq<char>, types: Seq<Seq<char>>) -> Seq<char> {
    "local module = require("@ + require_path + ")\n"@ + join_spec(
        types.map_values(|t: Seq<char>| export_line_spec(t)),
        ""@,
    ) + "return module"@
}

/// The text of a shim that requires a binary, after it has told the
/// binary where its package lives.
pub open spec fn bin_module_spec(package_root: Seq<char>, require_path: Seq<char>) -> Seq<char> {
    "_G.PESDE_ROOT = "@ + str_debug(package_root) + "\nreturn require("@ + require_path + ")"@
}

/// The text of a shim that requires a library and exports its value and
/// its types again.
pub fn generate_lib_linking_module(require_path: &str, types: &Vec<String>) -> (r: String)
    ensures
        r@ == lib_module_spec(require_path@, views(types@)),
{
    let mut lines: Vec<String> = Vec::new();
    let mut i: usize = 0;
    let ghost all = views(types@);
    while i < types.len()
        invariant
            i <= types@.len(),
            all == views(types@),
            views(lines@) == all.subrange(0, i as int).map_values(
                |t: Seq<char>| export_line_spec(t),
            ),
        decreases types@.len() - i,
    {
        let ghost before = views(lines@);
        let name = types[i].as_str();
        let mut line = String::from_str("export type ");
        line.append(name);
        line.append(" = module.");
        line.append(name);
        line.append("\n");
        lines.push(line);
        proof {
            assert(views(lines@) == before.push(export_line_spec(all[i as int])));
            assert(views(lines@) =~= all.subrange(0, i + 1).map_values(
                |t: Seq<char>| export_line_spec(t),
            ));
        }
        i += 1;
    }
    proof {
        assert(all.subrange(0, all.len() as int) == all);
    }
    let exports = join(&lines, "");
    let mut r = String::from_str("local module = require(");
    r.append(require_path);
    r.append(")\n");
    r.append(exports.as_str());
    r.append("return module");
    r
}

/// The text of a shim that requires a binary.
pub fn generate_bin_linking_module(package_root: &str, require_path: &str) -> (r: String)
    ensures
        r@ == bin_module_spec(package_root@, require_path@),
{
    let root = quoted(package_root);
    let mut r = String::from_str("_G.PESDE_ROOT = ");
    r.append(root.as_str());
    r.append("\nreturn require(");
    r.append(require_path);
    r.append(")");
    r
}

} // verus!
