use domius::css_scoper::{generate_scope_hash, scope_attr, scope_css};

// --- Hash generation ---

#[test]
fn test_hash_is_8_hex_chars() {
    let h = generate_scope_hash("src/Button.rs", ".btn { color: red; }");
    assert_eq!(h.len(), 8);
    assert!(h.chars().all(|c| c.is_ascii_hexdigit()));
}

#[test]
fn test_same_inputs_produce_same_hash() {
    let h1 = generate_scope_hash("path/comp.rs", "content");
    let h2 = generate_scope_hash("path/comp.rs", "content");
    assert_eq!(h1, h2);
}

#[test]
fn test_different_paths_produce_different_hash() {
    let h1 = generate_scope_hash("path/A.rs", "content");
    let h2 = generate_scope_hash("path/B.rs", "content");
    assert_ne!(h1, h2);
}

#[test]
fn test_different_content_produces_different_hash() {
    let h1 = generate_scope_hash("path/comp.rs", ".btn { color: red }");
    let h2 = generate_scope_hash("path/comp.rs", ".btn { color: blue }");
    assert_ne!(h1, h2);
}

#[test]
fn test_empty_inputs_hash() {
    let h = generate_scope_hash("", "");
    assert_eq!(h.len(), 8);
}

// --- Selector scoping ---

#[test]
fn test_scope_single_rule() {
    let css = ".btn { color: red; }";
    let scoped = scope_css(css, "abc1");
    assert!(scoped.contains("[data-domius=\"abc1\"] .btn"));
    assert!(scoped.contains("color: red;"));
}

#[test]
fn test_scope_multiple_rules() {
    let css = ".btn { color: red; } .icon { width: 16px; }";
    let scoped = scope_css(css, "abc1");
    assert!(scoped.contains("[data-domius=\"abc1\"] .btn"));
    assert!(scoped.contains("[data-domius=\"abc1\"] .icon"));
}

#[test]
fn test_scope_comma_separated_selectors() {
    let css = ".btn, .icon { display: flex; }";
    let scoped = scope_css(css, "x1y2");
    assert!(scoped.contains("[data-domius=\"x1y2\"] .btn"));
    assert!(scoped.contains("[data-domius=\"x1y2\"] .icon"));
}

#[test]
fn test_scope_element_selectors() {
    let css = "h1 { font-size: 2rem; } p { margin: 0; }";
    let scoped = scope_css(css, "1a2b");
    assert!(scoped.contains("[data-domius=\"1a2b\"] h1"));
    assert!(scoped.contains("[data-domius=\"1a2b\"] p"));
}

#[test]
fn test_scope_class_and_element_combined() {
    let css = ".container h2 { color: blue; }";
    let scoped = scope_css(css, "ff00");
    assert!(scoped.contains("[data-domius=\"ff00\"] .container h2"));
}

#[test]
fn test_scope_preserves_property_values() {
    let css = ".card { background: #fff; border: 1px solid rgba(0,0,0,.1); }";
    let scoped = scope_css(css, "test");
    assert!(scoped.contains("background: #fff"));
    assert!(scoped.contains("border: 1px solid rgba(0,0,0,.1)"));
}

#[test]
fn test_at_media_passed_through() {
    let css = "@media (max-width: 768px) { .btn { display: none; } }";
    let scoped = scope_css(css, "abc1");
    assert!(scoped.contains("@media"));
    assert!(scoped.contains("max-width: 768px"));
}

#[test]
fn test_scope_attr_format() {
    assert_eq!(scope_attr("a1b2"), "[data-domius=\"a1b2\"]");
}

#[test]
fn test_scope_empty_css() {
    let scoped = scope_css("", "abc1");
    assert!(scoped.is_empty());
}

#[test]
fn test_scope_comment_stripped() {
    let css = "/* header */ .title { font-size: 1rem; }";
    let scoped = scope_css(css, "00ff");
    assert!(scoped.contains("[data-domius=\"00ff\"] .title"));
    assert!(!scoped.contains("/* header */"));
}

#[test]
fn test_scope_real_component_styles() {
    let css = r#"
        .wrapper { display: flex; flex-direction: column; gap: 8px; }
        .header { font-weight: bold; color: #333; }
        .footer, .caption { font-size: 0.8rem; color: #999; }
    "#;
    let hash = generate_scope_hash("src/Card.rs", css);
    let scoped = scope_css(css, &hash);
    let attr = format!("[data-domius=\"{}\"]", hash);
    assert!(scoped.contains(&format!("{} .wrapper", attr)));
    assert!(scoped.contains(&format!("{} .header", attr)));
    assert!(scoped.contains(&format!("{} .footer", attr)));
    assert!(scoped.contains(&format!("{} .caption", attr)));
}

// --- Exact results ---

#[test]
fn hash_of_empty_inputs_is_fnv_of_separator() {
    assert_eq!(generate_scope_hash("", ""), "af63f14c");
}

#[test]
fn hash_known_values() {
    assert_eq!(generate_scope_hash("src/Button.rs", ".btn { color: red; }"), "88c455ce");
    assert_eq!(generate_scope_hash("path/comp.rs", "content"), "6ed8f59e");
}

#[test]
fn hash_separates_path_from_content() {
    assert_ne!(generate_scope_hash("ab", "c"), generate_scope_hash("a", "bc"));
}

#[test]
fn scope_single_rule_exact() {
    assert_eq!(
        scope_css(".btn { color: red; }", "abc1"),
        "[data-domius=\"abc1\"] .btn { color: red; }"
    );
}

#[test]
fn scope_two_rules_exact() {
    assert_eq!(
        scope_css(".btn { color: red; } .icon { width: 16px; }", "h"),
        "[data-domius=\"h\"] .btn { color: red; }\n[data-domius=\"h\"] .icon { width: 16px; }"
    );
}

#[test]
fn scope_selector_list_drops_blank_selectors() {
    assert_eq!(
        scope_css(".a, , .b { x: y; }", "h"),
        "[data-domius=\"h\"] .a, [data-domius=\"h\"] .b { x: y; }"
    );
}

#[test]
fn at_media_block_is_not_scoped() {
    assert_eq!(
        scope_css("@media (max-width: 768px) { .btn { display: none; } }", "abc1"),
        "@media (max-width: 768px) { .btn { display: none; } }"
    );
}

#[test]
fn comment_is_removed_exactly() {
    assert_eq!(
        scope_css("/* header */ .title { font-size: 1rem; }", "00ff"),
        "[data-domius=\"00ff\"] .title { font-size: 1rem; }"
    );
}

#[test]
fn unterminated_comment_swallows_the_rest() {
    assert_eq!(scope_css(".a { b: c; } /* open", "h"), "[data-domius=\"h\"] .a { b: c; }");
}

#[test]
fn stray_closing_brace_is_kept() {
    assert_eq!(scope_css("}", "h"), "}");
}

#[test]
fn trailing_text_without_block_is_dropped() {
    assert_eq!(scope_css(".a { b: c; } .dangling", "h"), "[data-domius=\"h\"] .a { b: c; }");
}

#[test]
fn blank_lines_inside_blocks_are_removed() {
    assert_eq!(scope_css(".a {\n\n  b: c;\r\n}", "h"), "[data-domius=\"h\"] .a {\n  b: c;\n}");
}
