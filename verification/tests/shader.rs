use bespoke_engine::shader::{parse_shader, ShaderType};

fn camera_types() -> Vec<ShaderType> {
    vec![ShaderType {
        var_types: vec!["<uniform>".to_string()],
        wgsl_types: vec!["Camera".to_string()],
    }]
}

#[test]
fn substitution_rewrites_the_whole_declaration_line() {
    let out = parse_shader("my_cam$0;", &camera_types(), "", "");
    assert_eq!(
        out,
        "//GLOBAL TYPES\n\n//CUSTOM TYPES\n\n//SHADER DEFINITION\n@group(0) @binding(0) var<uniform> my_cam Camera;\n"
    );
}

#[test]
fn source_without_markers_is_only_prepended() {
    let out = parse_shader("fn main() {}", &camera_types(), "// globals", "// customs");
    assert_eq!(
        out,
        "//GLOBAL TYPES\n// globals\n//CUSTOM TYPES\n// customs\n//SHADER DEFINITION\nfn main() {}\n"
    );
}

#[test]
fn explicit_binding_index_picks_the_slot() {
    let types = vec![ShaderType::multi_buffer_type(
        vec![false, true],
        vec!["In".to_string(), "Out".to_string()],
    )];
    let out = parse_shader("buf$0,1;", &types, "", "");
    assert!(
        out.ends_with("@group(0) @binding(1) var<storage, read_write> buf array<Out>;\n"),
        "got: {out}"
    );
}

#[test]
fn default_binding_index_is_zero() {
    let types = vec![ShaderType::multi_buffer_type(
        vec![false, true],
        vec!["In".to_string(), "Out".to_string()],
    )];
    let out = parse_shader("buf$0;", &types, "", "");
    assert!(
        out.ends_with("@group(0) @binding(0) var<storage, read> buf array<In>;\n"),
        "got: {out}"
    );
}

#[test]
fn group_out_of_range_is_left_unresolved() {
    let out = parse_shader("x$7;", &camera_types(), "", "");
    assert!(out.contains("x$7;"), "got: {out}");
}

#[test]
fn binding_out_of_range_is_left_unresolved() {
    let out = parse_shader("x$0,5;", &camera_types(), "", "");
    assert!(out.contains("x$0,5;"), "got: {out}");
}

#[test]
fn overlong_group_number_is_left_unresolved() {
    let out = parse_shader("x$4294967296;", &camera_types(), "", "");
    assert!(out.contains("x$4294967296;"), "got: {out}");
}

#[test]
fn malformed_indices_are_left_unresolved() {
    let out = parse_shader("y$abc;", &camera_types(), "", "");
    assert!(out.contains("y$abc;"), "got: {out}");
}

#[test]
fn marker_without_terminator_is_left_unresolved() {
    let out = parse_shader("z$0", &camera_types(), "", "");
    assert!(out.contains("z$0"), "got: {out}");
}

#[test]
fn second_marker_on_later_line_is_also_rewritten() {
    let out = parse_shader("a$0;\nb$0;", &camera_types(), "", "");
    assert!(
        out.contains("@group(0) @binding(0) var<uniform> a Camera;"),
        "got: {out}"
    );
    assert!(
        out.contains("@group(0) @binding(0) var<uniform> b Camera;"),
        "got: {out}"
    );
}

#[test]
fn runaway_markers_terminate_within_the_cap() {
    let source = "$9;".repeat(2000);
    let out = parse_shader(&source, &camera_types(), "", "");
    // Unresolvable markers stay in the text; the scan stopped instead of
    // hanging, leaving at least the markers past the cap untouched.
    assert_eq!(out.matches("$9;").count(), 2000);
}

#[test]
fn buffer_type_declares_a_storage_array() {
    let read_only = ShaderType::buffer_type(false, "Instance".to_string());
    assert_eq!(read_only.var_types, vec!["<storage, read>"]);
    assert_eq!(read_only.wgsl_types, vec!["array<Instance>"]);
    let writable = ShaderType::buffer_type(true, "Instance".to_string());
    assert_eq!(writable.var_types, vec!["<storage, read_write>"]);
    assert_eq!(writable.wgsl_types, vec!["array<Instance>"]);
}

#[test]
fn multi_buffer_type_declares_each_slot() {
    let st = ShaderType::multi_buffer_type(
        vec![false, true, false],
        vec!["A".to_string(), "B".to_string()],
    );
    assert_eq!(
        st.var_types,
        vec!["<storage, read>", "<storage, read_write>", "<storage, read>"]
    );
    assert_eq!(st.wgsl_types, vec!["array<A>", "array<B>"]);
}
