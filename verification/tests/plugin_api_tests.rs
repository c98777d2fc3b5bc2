use fresh::api_trait::{editorapi_js_methods, editorapi_typescript_definitions};
use fresh::transpile::has_es_imports;

#[test]
fn typescript_definitions_generated() {
    let defs = editorapi_typescript_definitions();
    assert!(!defs.is_empty());
    assert!(defs.contains("interface EditorAPI"));
    println!("Generated {} bytes of TypeScript definitions", defs.len());
}

#[test]
fn js_methods_list_generated() {
    let methods = editorapi_js_methods();
    assert!(!methods.is_empty());
    println!("Generated {} API methods", methods.len());
    for method in &methods {
        println!("  - {}", method);
    }
}

#[test]
fn test_has_es_imports() {
    assert!(has_es_imports("import { foo } from './lib'"));
    assert!(has_es_imports("import foo from 'bar'"));
    assert!(!has_es_imports("const x = 1;"));
    // Note: comment detection is a known limitation - simple heuristic doesn't parse JS
    assert!(has_es_imports("// import foo from 'bar'"));
}

#[test]
fn export_lines_are_found_after_any_white_space() {
    assert!(fresh::transpile::has_es_module_syntax("const a = 1;\n \t\u{3000}export const b = 2;"));
    assert!(!fresh::transpile::has_es_module_syntax("const a = 1;\n x export const b = 2;"));
}
