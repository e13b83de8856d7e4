//! Code and project scaffold generation.
//!
//! All functions return `ScaffoldFile` lists (path + content strings) and
//! never touch the file system.
use vstd::prelude::*;
use crate::text::{chars_of, push_str, replace_char, split, split_chars, string_of, views};

verus! {

/// A single file to be generated: relative path + UTF-8 content.
#[derive(Debug, Clone, PartialEq)]
pub struct ScaffoldFile {
    /// Relative path from the project root (e.g. `"src/main.rs"`).
    pub path: String,
    /// File content.
    pub content: String,
}

impl ScaffoldFile {
    /// A file at `path` holding `content`.
    pub fn new(path: &str, content: &str) -> (f: ScaffoldFile)
        ensures
            f.path@ == path@,
            f.content@ == content@,
    {
        ScaffoldFile { path: path.to_owned(), content: content.to_owned() }
    }
}

// ---------------------------------------------------------------------------
// Unicode case (std's `char` case tables)
// ---------------------------------------------------------------------------

/// Whether `c` has the Unicode `Uppercase` property (`char::is_uppercase`).
pub uninterp spec fn is_uppercase_char(c: char) -> bool;

/// The characters `char::to_lowercase` yields for `c`.
pub uninterp spec fn lowercase_of(c: char) -> Seq<char>;

/// The characters `char::to_uppercase` yields for `c`.
pub uninterp spec fn uppercase_of(c: char) -> Seq<char>;

/// `char::is_uppercase`; its result is named `is_uppercase_char`.
#[verifier::external_body]
fn char_is_uppercase(c: char) -> (r: bool)
    ensures
        r == is_uppercase_char(c),
{
    c.is_uppercase()
}

/// `char::to_lowercase`, collected; its result is named `lowercase_of`.
#[verifier::external_body]
fn char_to_lowercase(c: char) -> (r: Vec<char>)
    ensures
        r@ == lowercase_of(c),
{
    c.to_lowercase().collect()
}

/// `char::to_uppercase`, collected; its result is named `uppercase_of`.
#[verifier::external_body]
pub(crate) fn char_to_uppercase(c: char) -> (r: Vec<char>)
    ensures
        r@ == uppercase_of(c),
{
    c.to_uppercase().collect()
}

// ---------------------------------------------------------------------------
// Naming helpers
// ---------------------------------------------------------------------------

/// Lower-cased characters, with `_` before every upper-case character that
/// is not the first.
pub open spec fn snake_raw(cs: Seq<char>) -> Seq<char>
    decreases cs.len(),
{
    if cs.len() == 0 {
        Seq::<char>::empty()
    } else {
        let sep = if is_uppercase_char(cs.last()) && cs.len() > 1 {
            seq!['_']
        } else {
            Seq::<char>::empty()
        };
        snake_raw(cs.drop_last()) + sep + lowercase_of(cs.last())
    }
}

/// `"MyComponent"` → `"my_component"`; `-` also becomes `_`.
pub open spec fn snake_case(s: Seq<char>) -> Seq<char> {
    replace_char(snake_raw(s), '-', '_')
}

/// A word with its first character upper-cased.
pub open spec fn capitalize(w: Seq<char>) -> Seq<char> {
    if w.len() == 0 {
        w
    } else {
        uppercase_of(w[0]) + w.drop_first()
    }
}

/// The capitalized words, concatenated.
pub open spec fn concat_capitalized(ws: Seq<Seq<char>>) -> Seq<char>
    decreases ws.len(),
{
    if ws.len() == 0 {
        Seq::<char>::empty()
    } else {
        concat_capitalized(ws.drop_last()) + capitalize(ws.last())
    }
}

/// `"my_component"` / `"my-component"` / `"myComponent"` → `"MyComponent"`.
pub open spec fn pascal_case(s: Seq<char>) -> Seq<char> {
    concat_capitalized(split(s, seq!['_', '-']))
}

fn append_from(dst: &mut Vec<char>, src: &Vec<char>, start: usize)
    requires
        start <= src@.len(),
    ensures
        final(dst)@ == old(dst)@ + src@.subrange(start as int, src@.len() as int),
{
    let mut i: usize = start;
    while i < src.len()
        invariant
            start <= i <= src.len(),
            dst@ == old(dst)@ + src@.subrange(start as int, i as int),
        decreases src.len() - i,
    {
        dst.push(src[i]);
        assert(src@.subrange(start as int, i + 1) == src@.subrange(start as int, i as int).push(
            src@[i as int],
        ));
        i = i + 1;
    }
}

/// `"MyComponent"` → `"my_component"`
pub fn to_snake_case(s: &str) -> (r: String)
    ensures
        r@ == snake_case(s@),
{
    let cs = chars_of(s);
    let mut out: Vec<char> = Vec::new();
    let mut i: usize = 0;
    while i < cs.len()
        invariant
            i <= cs.len(),
            out@ == snake_raw(cs@.take(i as int)),
        decreases cs.len() - i,
    {
        let c = cs[i];
        assert(cs@.take(i + 1).drop_last() == cs@.take(i as int));
        assert(cs@.take(i + 1).last() == c);
        if char_is_uppercase(c) && i > 0 {
            out.push('_');
        }
        let lower = char_to_lowercase(c);
        append_from(&mut out, &lower, 0);
        assert(lower@.subrange(0, lower@.len() as int) == lower@);
        i = i + 1;
    }
    assert(cs@.take(cs.len() as int) == cs@);
    let mut replaced: Vec<char> = Vec::new();
    let mut k: usize = 0;
    while k < out.len()
        invariant
            k <= out.len(),
            replaced@ == replace_char(out@, '-', '_').take(k as int),
        decreases out.len() - k,
    {
        let c = out[k];
        replaced.push(if c == '-' {
            '_'
        } else {
            c
        });
        assert(replace_char(out@, '-', '_').take(k + 1) == replace_char(out@, '-', '_').take(
            k as int,
        ).push(if c == '-' {
            '_'
        } else {
            c
        }));
        k = k + 1;
    }
    assert(replace_char(out@, '-', '_').take(out.len() as int) == replace_char(out@, '-', '_'));
    string_of(&replaced)
}

/// `"my_component"` / `"my-component"` / `"myComponent"` → `"MyComponent"`
pub fn to_pascal_case(s: &str) -> (r: String)
    ensures
        r@ == pascal_case(s@),
{
    let cs = chars_of(s);
    let mut seps: Vec<char> = Vec::new();
    seps.push('_');
    seps.push('-');
    assert(seps@ == seq!['_', '-']);
    let words = split_chars(&cs, &seps);
    let mut out: Vec<char> = Vec::new();
    let mut i: usize = 0;
    while i < words.len()
        invariant
            i <= words.len(),
            out@ == concat_capitalized(views(words@).take(i as int)),
        decreases words.len() - i,
    {
        assert(views(words@).take(i + 1).drop_last() == views(words@).take(i as int));
        assert(views(words@).take(i + 1).last() == words@[i as int]@);
        let w = &words[i];
        if w.len() > 0 {
            let upper = char_to_uppercase(w[0]);
            append_from(&mut out, &upper, 0);
            assert(upper@.subrange(0, upper@.len() as int) == upper@);
            append_from(&mut out, w, 1);
            assert(w@.subrange(1, w@.len() as int) == w@.drop_first());
        }
        i = i + 1;
    }
    assert(views(words@).take(words.len() as int) == views(words@));
    string_of(&out)
}

// ---------------------------------------------------------------------------
// File templates
// ---------------------------------------------------------------------------

/// The `Cargo.toml` of a new project.
pub open spec fn project_cargo_toml(snake: Seq<char>) -> Seq<char> {
    "[package]\nname = \""@ + snake + "\"\nversion = \"0.1.0\"\nedition = \"2021\"\n\n[lib]\ncrate-type = [\"cdylib\"]\n\n[dependencies]\ndomius-web = { path = \"../../domius-web\" }\ndomius-core = { path = \"../../domius-core\" }\nwasm-bindgen = \"0.2\"\nweb-sys = { version = \"0.3\", features = [\"Window\", \"Document\", \"Element\", \"Node\"] }\n"@
}

fn project_cargo_toml_text(snake: &str) -> (r: String)
    ensures
        r@ == project_cargo_toml(snake@),
{
    let mut r = "[package]\nname = \"".to_owned();
    push_str(&mut r, snake);
    push_str(&mut r, "\"\nversion = \"0.1.0\"\nedition = \"2021\"\n\n[lib]\ncrate-type = [\"cdylib\"]\n\n[dependencies]\ndomius-web = { path = \"../../domius-web\" }\ndomius-core = { path = \"../../domius-core\" }\nwasm-bindgen = \"0.2\"\nweb-sys = { version = \"0.3\", features = [\"Window\", \"Document\", \"Element\", \"Node\"] }\n");
    r
}

/// The `src/lib.rs` of a new project.
pub open spec fn project_lib_rs(name: Seq<char>) -> Seq<char> {
    "//! "@ + name + " — a Domius WASM application.\n\nuse wasm_bindgen::prelude::*;\n\n#[wasm_bindgen(start)]\npub fn main() {\n    domius_web::init();\n    // Mount your root component here\n}\n"@
}

fn project_lib_rs_text(name: &str) -> (r: String)
    ensures
        r@ == project_lib_rs(name@),
{
    let mut r = "//! ".to_owned();
    push_str(&mut r, name);
    push_str(&mut r, " — a Domius WASM application.\n\nuse wasm_bindgen::prelude::*;\n\n#[wasm_bindgen(start)]\npub fn main() {\n    domius_web::init();\n    // Mount your root component here\n}\n");
    r
}

/// The `src/routes.rs` of a new project.
pub open spec fn project_routes_rs() -> Seq<char> {
    "//! Route registration.\n//!\n//! Call `register_routes` from your entry point.\nuse domius_web::router::Router;\n\npub fn register_routes() -> Router<fn()> {\n    let mut router = Router::new();\n    // router.register(\"/\", home_page);\n    router\n}\n"@
}

fn project_routes_rs_text() -> (r: String)
    ensures
        r@ == project_routes_rs(),
{
    let mut r = "//! Route registration.\n//!\n//! Call `register_routes` from your entry point.\nuse domius_web::router::Router;\n\npub fn register_routes() -> Router<fn()> {\n    let mut router = Router::new();\n    // router.register(\"/\", home_page);\n    router\n}\n".to_owned();
    r
}

/// The `index.html` of a new project.
pub open spec fn project_index_html(name: Seq<char>, snake: Seq<char>) -> Seq<char> {
    "<!DOCTYPE html>\n<html lang=\"en\">\n<head>\n  <meta charset=\"UTF-8\" />\n  <meta name=\"viewport\" content=\"width=device-width, initial-scale=1.0\" />\n  <title>"@ + name + "</title>\n</head>\n<body>\n  <div id=\"app\"></div>\n  <script type=\"module\">\n    import init from \"./pkg/"@ + snake + ".js\";\n    init();\n  </script>\n</body>\n</html>\n"@
}

fn project_index_html_text(name: &str, snake: &str) -> (r: String)
    ensures
        r@ == project_index_html(name@, snake@),
{
    let mut r = "<!DOCTYPE html>\n<html lang=\"en\">\n<head>\n  <meta charset=\"UTF-8\" />\n  <meta name=\"viewport\" content=\"width=device-width, initial-scale=1.0\" />\n  <title>".to_owned();
    push_str(&mut r, name);
    push_str(&mut r, "</title>\n</head>\n<body>\n  <div id=\"app\"></div>\n  <script type=\"module\">\n    import init from \"./pkg/");
    push_str(&mut r, snake);
    push_str(&mut r, ".js\";\n    init();\n  </script>\n</body>\n</html>\n");
    r
}

/// The `.gitignore` of a new project.
pub open spec fn project_gitignore() -> Seq<char> {
    "/target\n/pkg\n"@
}

fn project_gitignore_text() -> (r: String)
    ensures
        r@ == project_gitignore(),
{
    let mut r = "/target\n/pkg\n".to_owned();
    r
}

/// The `mod.rs` of a new component.
pub open spec fn component_mod_rs(pascal: Seq<char>) -> Seq<char> {
    "//! `"@ + pascal + "` component.\npub mod view;\npub use view::"@ + pascal + ";\n"@
}

fn component_mod_rs_text(pascal: &str) -> (r: String)
    ensures
        r@ == component_mod_rs(pascal@),
{
    let mut r = "//! `".to_owned();
    push_str(&mut r, pascal);
    push_str(&mut r, "` component.\npub mod view;\npub use view::");
    push_str(&mut r, pascal);
    push_str(&mut r, ";\n");
    r
}

/// The `view.rs` of a new component.
pub open spec fn component_view_rs(pascal: Seq<char>) -> Seq<char> {
    "//! View for `"@ + pascal + "`.\nuse domius_web::component::{DomiusComponent, DomiusNode};\n\npub struct "@ + pascal + ";\n\n#[derive(Clone)]\npub struct "@ + pascal + "Props {\n    // Add props here\n}\n\npub struct "@ + pascal + "State {\n    // Add reactive state here\n}\n\nimpl DomiusComponent for "@ + pascal + " {\n    type Props = "@ + pascal + "Props;\n    type State = "@ + pascal + "State;\n\n    fn setup(props: "@ + pascal + "Props) -> "@ + pascal + "State {\n        let _ = props;\n        "@ + pascal + "State {}\n    }\n\n    fn render(state: &"@ + pascal + "State) -> DomiusNode {\n        let _ = state;\n        "@ + "todo"@ + "!(\"implement "@ + pascal + "::render\")\n    }\n}\n"@
}

fn component_view_rs_text(pascal: &str) -> (r: String)
    ensures
        r@ == component_view_rs(pascal@),
{
    let mut r = "//! View for `".to_owned();
    push_str(&mut r, pascal);
    push_str(&mut r, "`.\nuse domius_web::component::{DomiusComponent, DomiusNode};\n\npub struct ");
    push_str(&mut r, pascal);
    push_str(&mut r, ";\n\n#[derive(Clone)]\npub struct ");
    push_str(&mut r, pascal);
    push_str(&mut r, "Props {\n    // Add props here\n}\n\npub struct ");
    push_str(&mut r, pascal);
    push_str(&mut r, "State {\n    // Add reactive state here\n}\n\nimpl DomiusComponent for ");
    push_str(&mut r, pascal);
    push_str(&mut r, " {\n    type Props = ");
    push_str(&mut r, pascal);
    push_str(&mut r, "Props;\n    type State = ");
    push_str(&mut r, pascal);
    push_str(&mut r, "State;\n\n    fn setup(props: ");
    push_str(&mut r, pascal);
    push_str(&mut r, "Props) -> ");
    push_str(&mut r, pascal);
    push_str(&mut r, "State {\n        let _ = props;\n        ");
    push_str(&mut r, pascal);
    push_str(&mut r, "State {}\n    }\n\n    fn render(state: &");
    push_str(&mut r, pascal);
    push_str(&mut r, "State) -> DomiusNode {\n        let _ = state;\n        ");
    push_str(&mut r, "todo");
    push_str(&mut r, "!(\"implement ");
    push_str(&mut r, pascal);
    push_str(&mut r, "::render\")\n    }\n}\n");
    r
}

/// The `style.css` of a new component.
pub open spec fn component_style_css(snake: Seq<char>, pascal: Seq<char>) -> Seq<char> {
    "/* Styles for "@ + pascal + " component */\n."@ + snake + " {\n}\n"@
}

fn component_style_css_text(snake: &str, pascal: &str) -> (r: String)
    ensures
        r@ == component_style_css(snake@, pascal@),
{
    let mut r = "/* Styles for ".to_owned();
    push_str(&mut r, pascal);
    push_str(&mut r, " component */\n.");
    push_str(&mut r, snake);
    push_str(&mut r, " {\n}\n");
    r
}

/// The `mod.rs` of a new page.
pub open spec fn page_mod_rs(pascal: Seq<char>) -> Seq<char> {
    "//! `"@ + pascal + "Page`.\npub mod controller;\npub mod view;\npub use view::"@ + pascal + "Page;\n"@
}

fn page_mod_rs_text(pascal: &str) -> (r: String)
    ensures
        r@ == page_mod_rs(pascal@),
{
    let mut r = "//! `".to_owned();
    push_str(&mut r, pascal);
    push_str(&mut r, "Page`.\npub mod controller;\npub mod view;\npub use view::");
    push_str(&mut r, pascal);
    push_str(&mut r, "Page;\n");
    r
}

/// The `controller.rs` of a new page.
pub open spec fn page_controller_rs(pascal: Seq<char>) -> Seq<char> {
    "//! Controller (setup logic) for `"@ + pascal + "Page`.\nuse domius_core::signal::{Signal, signal};\n\npub struct "@ + pascal + "State {\n    // Add reactive signals here\n}\n\npub fn setup() -> "@ + pascal + "State {\n    "@ + pascal + "State {}\n}\n"@
}

fn page_controller_rs_text(pascal: &str) -> (r: String)
    ensures
        r@ == page_controller_rs(pascal@),
{
    let mut r = "//! Controller (setup logic) for `".to_owned();
    push_str(&mut r, pascal);
    push_str(&mut r, "Page`.\nuse domius_core::signal::{Signal, signal};\n\npub struct ");
    push_str(&mut r, pascal);
    push_str(&mut r, "State {\n    // Add reactive signals here\n}\n\npub fn setup() -> ");
    push_str(&mut r, pascal);
    push_str(&mut r, "State {\n    ");
    push_str(&mut r, pascal);
    push_str(&mut r, "State {}\n}\n");
    r
}

/// The `view.rs` of a new page.
pub open spec fn page_view_rs(pascal: Seq<char>, route: Seq<char>) -> Seq<char> {
    "//! View for `"@ + pascal + "Page`.\nuse domius_web::component::{DomiusComponent, DomiusNode};\nuse domius_web::page::DomiusPage;\nuse super::controller;\n\npub struct "@ + pascal + "Page;\n\nimpl DomiusComponent for "@ + pascal + "Page {\n    type Props = ();\n    type State = controller::"@ + pascal + "State;\n\n    fn setup(_: ()) -> controller::"@ + pascal + "State {\n        controller::setup()\n    }\n\n    fn render(state: &controller::"@ + pascal + "State) -> DomiusNode {\n        let _ = state;\n        "@ + "todo"@ + "!(\"implement "@ + pascal + "Page::render\")\n    }\n}\n\nimpl DomiusPage for "@ + pascal + "Page {\n    fn route() -> &'"@ + "stat"@ + "ic str { \""@ + route + "\" }\n    fn title(_: &controller::"@ + pascal + "State) -> String { \""@ + pascal + "\".to_string() }\n}\n"@
}

fn page_view_rs_text(pascal: &str, route: &str) -> (r: String)
    ensures
        r@ == page_view_rs(pascal@, route@),
{
    let mut r = "//! View for `".to_owned();
    push_str(&mut r, pascal);
    push_str(&mut r, "Page`.\nuse domius_web::component::{DomiusComponent, DomiusNode};\nuse domius_web::page::DomiusPage;\nuse super::controller;\n\npub struct ");
    push_str(&mut r, pascal);
    push_str(&mut r, "Page;\n\nimpl DomiusComponent for ");
    push_str(&mut r, pascal);
    push_str(&mut r, "Page {\n    type Props = ();\n    type State = controller::");
    push_str(&mut r, pascal);
    push_str(&mut r, "State;\n\n    fn setup(_: ()) -> controller::");
    push_str(&mut r, pascal);
    push_str(&mut r, "State {\n        controller::setup()\n    }\n\n    fn render(state: &controller::");
    push_str(&mut r, pascal);
    push_str(&mut r, "State) -> DomiusNode {\n        let _ = state;\n        ");
    push_str(&mut r, "todo");
    push_str(&mut r, "!(\"implement ");
    push_str(&mut r, pascal);
    push_str(&mut r, "Page::render\")\n    }\n}\n\nimpl DomiusPage for ");
    push_str(&mut r, pascal);
    push_str(&mut r, "Page {\n    fn route() -> &'");
    push_str(&mut r, "stat");
    push_str(&mut r, "ic str { \"");
    push_str(&mut r, route);
    push_str(&mut r, "\" }\n    fn title(_: &controller::");
    push_str(&mut r, pascal);
    push_str(&mut r, "State) -> String { \"");
    push_str(&mut r, pascal);
    push_str(&mut r, "\".to_string() }\n}\n");
    r
}

/// The `style.css` of a new page.
pub open spec fn page_style_css(pascal: Seq<char>) -> Seq<char> {
    "/* Styles for "@ + pascal + " page */\n"@
}

fn page_style_css_text(pascal: &str) -> (r: String)
    ensures
        r@ == page_style_css(pascal@),
{
    let mut r = "/* Styles for ".to_owned();
    push_str(&mut r, pascal);
    push_str(&mut r, " page */\n");
    r
}

fn joined(a: &str, b: &str) -> (r: String)
    ensures
        r@ == a@ + b@,
{
    let mut r = a.to_owned();
    push_str(&mut r, b);
    r
}

fn joined3(a: &str, b: &str, c: &str) -> (r: String)
    ensures
        r@ == a@ + b@ + c@,
{
    let mut r = a.to_owned();
    push_str(&mut r, b);
    push_str(&mut r, c);
    r
}

/// Generate all files for a new Domius project named `name`.
pub fn new_project(name: &str) -> (files: Vec<ScaffoldFile>)
    ensures
        files@.len() == 5,
        files@[0].path@ == name@ + "/Cargo.toml"@,
        files@[0].content@ == project_cargo_toml(snake_case(name@)),
        files@[1].path@ == name@ + "/src/lib.rs"@,
        files@[1].content@ == project_lib_rs(name@),
        files@[2].path@ == name@ + "/src/routes.rs"@,
        files@[2].content@ == project_routes_rs(),
        files@[3].path@ == name@ + "/index.html"@,
        files@[3].content@ == project_index_html(name@, snake_case(name@)),
        files@[4].path@ == name@ + "/.gitignore"@,
        files@[4].content@ == project_gitignore(),
{
    let snake = to_snake_case(name);
    let mut files: Vec<ScaffoldFile> = Vec::new();
    files.push(
        ScaffoldFile {
            path: joined(name, "/Cargo.toml"),
            content: project_cargo_toml_text(snake.as_str()),
        },
    );
    files.push(
        ScaffoldFile { path: joined(name, "/src/lib.rs"), content: project_lib_rs_text(name) },
    );
    files.push(
        ScaffoldFile { path: joined(name, "/src/routes.rs"), content: project_routes_rs_text() },
    );
    files.push(
        ScaffoldFile {
            path: joined(name, "/index.html"),
            content: project_index_html_text(name, snake.as_str()),
        },
    );
    files.push(
        ScaffoldFile { path: joined(name, "/.gitignore"), content: project_gitignore_text() },
    );
    files
}

/// Generate files for a new reusable component named `name`.
pub fn new_component(name: &str) -> (files: Vec<ScaffoldFile>)
    ensures
        files@.len() == 3,
        files@[0].path@ == "src/components/"@ + snake_case(name@) + "/mod.rs"@,
        files@[0].content@ == component_mod_rs(pascal_case(name@)),
        files@[1].path@ == "src/components/"@ + snake_case(name@) + "/view.rs"@,
        files@[1].content@ == component_view_rs(pascal_case(name@)),
        files@[2].path@ == "src/components/"@ + snake_case(name@) + "/style.css"@,
        files@[2].content@ == component_style_css(snake_case(name@), pascal_case(name@)),
{
    let snake = to_snake_case(name);
    let pascal = to_pascal_case(name);
    let s = snake.as_str();
    let p = pascal.as_str();
    let mut files: Vec<ScaffoldFile> = Vec::new();
    files.push(
        ScaffoldFile {
            path: joined3("src/components/", s, "/mod.rs"),
            content: component_mod_rs_text(p),
        },
    );
    files.push(
        ScaffoldFile {
            path: joined3("src/components/", s, "/view.rs"),
            content: component_view_rs_text(p),
        },
    );
    files.push(
        ScaffoldFile {
            path: joined3("src/components/", s, "/style.css"),
            content: component_style_css_text(s, p),
        },
    );
    files
}

/// Generate files for a new page named `name`; its route is `/` followed
/// by the snake-case name.
pub fn new_page(name: &str) -> (files: Vec<ScaffoldFile>)
    ensures
        files@.len() == 4,
        files@[0].path@ == "src/pages/"@ + snake_case(name@) + "/mod.rs"@,
        files@[0].content@ == page_mod_rs(pascal_case(name@)),
        files@[1].path@ == "src/pages/"@ + snake_case(name@) + "/controller.rs"@,
        files@[1].content@ == page_controller_rs(pascal_case(name@)),
        files@[2].path@ == "src/pages/"@ + snake_case(name@) + "/view.rs"@,
        files@[2].content@ == page_view_rs(pascal_case(name@), "/"@ + snake_case(name@)),
        files@[3].path@ == "src/pages/"@ + snake_case(name@) + "/style.css"@,
        files@[3].content@ == page_style_css(pascal_case(name@)),
{
    let snake = to_snake_case(name);
    let pascal = to_pascal_case(name);
    let route = joined("/", snake.as_str());
    let s = snake.as_str();
    let p = pascal.as_str();
    let mut files: Vec<ScaffoldFile> = Vec::new();
    files.push(
        ScaffoldFile { path: joined3("src/pages/", s, "/mod.rs"), content: page_mod_rs_text(p) },
    );
    files.push(
        ScaffoldFile {
            path: joined3("src/pages/", s, "/controller.rs"),
            content: page_controller_rs_text(p),
        },
    );
    files.push(
        ScaffoldFile {
            path: joined3("src/pages/", s, "/view.rs"),
            content: page_view_rs_text(p, route.as_str()),
        },
    );
    files.push(
        ScaffoldFile {
            path: joined3("src/pages/", s, "/style.css"),
            content: page_style_css_text(p),
        },
    );
    files
}

} // verus!
