use domius::scaffold::{new_component, new_page, new_project, to_pascal_case, to_snake_case, ScaffoldFile};

// --- Naming helpers ---

#[test]
fn test_to_snake_case_pascal() {
    assert_eq!(to_snake_case("MyComponent"), "my_component");
}

#[test]
fn test_to_snake_case_already_snake() {
    assert_eq!(to_snake_case("my_component"), "my_component");
}

#[test]
fn test_to_snake_case_kebab() {
    assert_eq!(to_snake_case("my-component"), "my_component");
}

#[test]
fn test_to_pascal_case_from_snake() {
    assert_eq!(to_pascal_case("my_component"), "MyComponent");
}

#[test]
fn test_to_pascal_case_from_kebab() {
    assert_eq!(to_pascal_case("my-component"), "MyComponent");
}

#[test]
fn test_to_pascal_case_already_pascal() {
    assert_eq!(to_pascal_case("MyComponent"), "MyComponent");
}

#[test]
fn test_to_pascal_case_single_word() {
    assert_eq!(to_pascal_case("button"), "Button");
}

// --- new_project ---

#[test]
fn test_new_project_generates_expected_files() {
    let files = new_project("my-app");
    let paths: Vec<&str> = files.iter().map(|f| f.path.as_str()).collect();
    assert!(paths.contains(&"my-app/Cargo.toml"));
    assert!(paths.contains(&"my-app/src/lib.rs"));
    assert!(paths.contains(&"my-app/src/routes.rs"));
    assert!(paths.contains(&"my-app/index.html"));
    assert!(paths.contains(&"my-app/.gitignore"));
}

#[test]
fn test_new_project_cargo_toml_has_correct_name() {
    let files = new_project("todo-app");
    let cargo = files
        .iter()
        .find(|f| f.path.ends_with("Cargo.toml"))
        .unwrap();
    assert!(cargo.content.contains("name = \"todo_app\""));
}

#[test]
fn test_new_project_index_html_has_app_div() {
    let files = new_project("hello");
    let html = files
        .iter()
        .find(|f| f.path.ends_with("index.html"))
        .unwrap();
    assert!(html.content.contains(r#"<div id="app">"#));
}

#[test]
fn test_new_project_lib_rs_has_wasm_bindgen_start() {
    let files = new_project("hello");
    let lib = files.iter().find(|f| f.path.ends_with("lib.rs")).unwrap();
    assert!(lib.content.contains("wasm_bindgen(start)"));
}

// --- new_component ---

#[test]
fn test_new_component_generates_expected_files() {
    let files = new_component("Button");
    let paths: Vec<&str> = files.iter().map(|f| f.path.as_str()).collect();
    assert!(paths.contains(&"src/components/button/mod.rs"));
    assert!(paths.contains(&"src/components/button/view.rs"));
    assert!(paths.contains(&"src/components/button/style.css"));
}

#[test]
fn test_new_component_view_has_impl_domus_component() {
    let files = new_component("NavBar");
    let view = files.iter().find(|f| f.path.ends_with("view.rs")).unwrap();
    assert!(view.content.contains("impl DomiusComponent for NavBar"));
}

#[test]
fn test_new_component_props_and_state_named_correctly() {
    let files = new_component("SearchBox");
    let view = files.iter().find(|f| f.path.ends_with("view.rs")).unwrap();
    assert!(view.content.contains("SearchBoxProps"));
    assert!(view.content.contains("SearchBoxState"));
}

// --- new_page ---

#[test]
fn test_new_page_generates_expected_files() {
    let files = new_page("Dashboard");
    let paths: Vec<&str> = files.iter().map(|f| f.path.as_str()).collect();
    assert!(paths.contains(&"src/pages/dashboard/mod.rs"));
    assert!(paths.contains(&"src/pages/dashboard/controller.rs"));
    assert!(paths.contains(&"src/pages/dashboard/view.rs"));
    assert!(paths.contains(&"src/pages/dashboard/style.css"));
}

#[test]
fn test_new_page_view_impl_domus_page() {
    let files = new_page("Home");
    let view = files.iter().find(|f| f.path.ends_with("view.rs")).unwrap();
    assert!(view.content.contains("impl DomiusPage for HomePage"));
}

#[test]
fn test_new_page_route_is_snake_case_path() {
    let files = new_page("UserProfile");
    let view = files.iter().find(|f| f.path.ends_with("view.rs")).unwrap();
    assert!(view.content.contains("\"/user_profile\""));
}

#[test]
fn test_new_page_controller_has_setup_fn() {
    let files = new_page("Settings");
    let ctrl = files
        .iter()
        .find(|f| f.path.ends_with("controller.rs"))
        .unwrap();
    assert!(ctrl.content.contains("pub fn setup()"));
}

#[test]
fn test_scaffold_file_equality() {
    let f1 = ScaffoldFile::new("path/to/file.rs", "content");
    let f2 = ScaffoldFile::new("path/to/file.rs", "content");
    assert_eq!(f1, f2);
}

// --- Exact results ---

#[test]
fn snake_case_of_camel_case() {
    assert_eq!(to_snake_case("myComponent"), "my_component");
    assert_eq!(to_snake_case("UserProfile"), "user_profile");
    assert_eq!(to_snake_case(""), "");
}

#[test]
fn pascal_case_skips_empty_words() {
    assert_eq!(to_pascal_case("__a--b_"), "AB");
    assert_eq!(to_pascal_case(""), "");
}

#[test]
fn new_project_gitignore_and_paths_exact() {
    let files = new_project("hello");
    assert_eq!(files.len(), 5);
    assert_eq!(files[4].path, "hello/.gitignore");
    assert_eq!(files[4].content, "/target\n/pkg\n");
    assert!(files[3].content.contains("import init from \"./pkg/hello.js\";"));
}

#[test]
fn new_component_style_exact() {
    let files = new_component("NavBar");
    assert_eq!(files[2].path, "src/components/nav_bar/style.css");
    assert_eq!(files[2].content, "/* Styles for NavBar component */\n.nav_bar {\n}\n");
}

#[test]
fn new_page_style_exact() {
    let files = new_page("user-profile");
    assert_eq!(files[3].path, "src/pages/user_profile/style.css");
    assert_eq!(files[3].content, "/* Styles for UserProfile page */\n");
}
