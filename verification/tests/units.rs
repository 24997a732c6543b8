use hana::annotations::{
    can_name_block, parse_buffer_builtin, parse_output_builtin, parse_stage_builtin,
    parse_transform_builtin, parse_uniform_like_builtin, read_u32, read_usize, take_annotation,
    take_stage_annotations, Annotation, AnnotationKind, OutputAnnotation, StageAnnotation,
    StageIO, UniformAnnotation,
};
use hana::backend::Stage;
use hana::body::{
    detect_struct_variable, find_param, format_function_args, format_function_body,
    map_field_access, try_transform_optional_expression, BodyContext, Links,
};
use hana::error::excerpt;
use hana::glsl::{is_scalar_type, is_tight_token, join_tokens, map_stage_variable, map_type, write_indent};
use hana::opengl::resolve_version;
use hana::parser::TypedVariable;
use hana::structs::{
    declare_fields, format_struct_definition, link_fields, read_struct_fields, StructField,
    StructInfo,
};
use hana::table::Table;
use hana::text::{
    chars_of, clone_strings, contains_text, decimal_string, first_char, join_strings,
    parse_bounded, push_chars, str_eq, string_from_chars,
};
use hana::tokens::{Token, TokenType};

fn words(items: &[&str]) -> Vec<String> {
    items.iter().map(|s| s.to_string()).collect()
}

fn args(items: &[&str]) -> Vec<Token> {
    items
        .iter()
        .map(|s| Token { typ: TokenType::Identifier, content: s.to_string(), start: 0, end: 0 })
        .collect()
}

fn no_links<'a>(
    a: &'a Table<String>,
    b: &'a Table<String>,
    c: &'a Table<String>,
) -> Links<'a> {
    Links { vertex_input: a, vertex_output: b, fragment_input: c }
}

fn body(tokens: &[&str], stage: Stage) -> String {
    let (a, b, c) = (Table::new(), Table::new(), Table::new());
    let ctx = BodyContext { input_param: None, output_var: None };
    format_function_body(&words(tokens), &no_links(&a, &b, &c), stage, &ctx)
}

#[test]
fn decimal_numerals() {
    assert_eq!(decimal_string(0), "0");
    assert_eq!(decimal_string(7), "7");
    assert_eq!(decimal_string(10), "10");
    assert_eq!(decimal_string(4096), "4096");
    assert_eq!(decimal_string(u64::MAX), "18446744073709551615");
}

#[test]
fn numbers_are_read_like_unsigned_integers() {
    assert_eq!(parse_bounded("0", 100), Some(0));
    assert_eq!(parse_bounded("007", 100), Some(7));
    assert_eq!(parse_bounded("+42", 100), Some(42));
    assert_eq!(parse_bounded("100", 100), Some(100));
    assert_eq!(parse_bounded("101", 100), None);
    assert_eq!(parse_bounded("", 100), None);
    assert_eq!(parse_bounded("+", 100), None);
    assert_eq!(parse_bounded("-1", 100), None);
    assert_eq!(parse_bounded("1.5", 100), None);
    assert_eq!(parse_bounded(" 1", 100), None);
    assert_eq!(parse_bounded("1a", 100), None);
    assert_eq!(parse_bounded("++1", 100), None);
    assert_eq!(parse_bounded("٣", 100), None);
    assert_eq!(parse_bounded("18446744073709551615", u64::MAX), Some(u64::MAX));
    assert_eq!(parse_bounded("18446744073709551616", u64::MAX), None);
    assert_eq!(parse_bounded("99999999999999999999999", u64::MAX), None);
    assert_eq!(read_u32("4294967295"), Some(u32::MAX));
    assert_eq!(read_u32("4294967296"), None);
    assert_eq!(read_usize("12"), Some(12));
    assert_eq!(read_usize("twelve"), None);
    for text in ["0", "12", "+3", "x", "", "4294967296", "00"] {
        assert_eq!(read_u32(text), text.parse::<u32>().ok());
        assert_eq!(read_usize(text), text.parse::<usize>().ok());
    }
}

#[test]
fn text_helpers() {
    assert!(str_eq("", ""));
    assert!(str_eq("struct", "struct"));
    assert!(!str_eq("struct", "strucT"));
    assert!(!str_eq("a", "ab"));
    assert!(str_eq("é", "é"));
    assert!(!str_eq("é", "e"));
    assert_eq!(chars_of("aé:"), vec!['a', 'é', ':']);
    assert_eq!(string_from_chars(&vec!['x', 'ß', '1']), "xß1");
    let mut buf = vec!['a'];
    push_chars(&mut buf, "bcé");
    assert_eq!(buf, vec!['a', 'b', 'c', 'é']);
    assert_eq!(first_char("hello"), Some('h'));
    assert_eq!(first_char(""), None);
    assert_eq!(join_strings(&words(&["a", "b", "c"]), ", "), "a, b, c");
    assert_eq!(join_strings(&words(&["a"]), ", "), "a");
    assert_eq!(join_strings(&words(&[]), ", "), "");
    assert_eq!(join_strings(&words(&["", ""]), "-"), "-");
    assert_eq!(clone_strings(&words(&["p", "q"])), words(&["p", "q"]));
    assert!(contains_text(&words(&["p", "q"]), "q"));
    assert!(!contains_text(&words(&["p", "q"]), "r"));
}

#[test]
fn tables_keep_the_last_value() {
    let mut table: Table<String> = Table::new();
    assert!(table.get("a").is_none());
    table.insert("a".to_string(), "1".to_string());
    table.insert("b".to_string(), "2".to_string());
    table.insert("a".to_string(), "3".to_string());
    assert_eq!(table.get("a"), Some(&"3".to_string()));
    assert_eq!(table.get("b"), Some(&"2".to_string()));
    assert!(table.get("c").is_none());
}

#[test]
fn the_type_table() {
    assert_eq!(map_type("Texture"), "sampler2D");
    assert_eq!(map_type("Texture2D"), "sampler2D");
    assert_eq!(map_type("TextureCube"), "samplerCube");
    assert_eq!(map_type("Texture3D"), "sampler3D");
    assert_eq!(map_type("Color"), "vec4");
    assert_eq!(map_type("vec3"), "vec3");
    assert_eq!(map_type("texture"), "texture");
    assert_eq!(map_type(""), "");
}

#[test]
fn the_scalar_types() {
    for t in ["int", "uint", "float", "double", "bool"] {
        assert!(is_scalar_type(t));
    }
    for t in ["vec3", "Int", "", "mat4", "Color"] {
        assert!(!is_scalar_type(t));
    }
}

#[test]
fn stage_local_symbols() {
    assert_eq!(map_stage_variable(Stage::Vertex, "@position"), Some("gl_Position"));
    assert_eq!(map_stage_variable(Stage::Vertex, "@pointSize"), Some("gl_PointSize"));
    assert_eq!(map_stage_variable(Stage::Vertex, "@instanceId"), Some("gl_InstanceID"));
    assert_eq!(map_stage_variable(Stage::Vertex, "@vertexId"), Some("gl_VertexID"));
    assert_eq!(map_stage_variable(Stage::Vertex, "@drawId"), Some("gl_DrawID"));
    assert_eq!(map_stage_variable(Stage::Vertex, "@fragDepth"), None);
    assert_eq!(map_stage_variable(Stage::Vertex, "position"), None);
    assert_eq!(map_stage_variable(Stage::Fragment, "@fragCoordinates"), Some("gl_FragCoord"));
    assert_eq!(map_stage_variable(Stage::Fragment, "@frontFacing"), Some("gl_FrontFacing"));
    assert_eq!(map_stage_variable(Stage::Fragment, "@pointCoordinates"), Some("gl_PointCoord"));
    assert_eq!(map_stage_variable(Stage::Fragment, "@sampleId"), Some("gl_SampleID"));
    assert_eq!(map_stage_variable(Stage::Fragment, "@samplePosition"), Some("gl_SamplePosition"));
    assert_eq!(map_stage_variable(Stage::Fragment, "@sampleMask"), Some("gl_SampleMask"));
    assert_eq!(map_stage_variable(Stage::Fragment, "@sampleMaskIn"), Some("gl_SampleMaskIn"));
    assert_eq!(map_stage_variable(Stage::Fragment, "@fragDepth"), Some("gl_FragDepth"));
    assert_eq!(map_stage_variable(Stage::Fragment, "@primitiveId"), Some("gl_PrimitiveID"));
    assert_eq!(map_stage_variable(Stage::Fragment, "@position"), None);
    assert_eq!(map_stage_variable(Stage::Compute, "@localInvocationId"), Some("gl_LocalInvocationID"));
    assert_eq!(map_stage_variable(Stage::Compute, "@globalInvocationId"), Some("gl_GlobalInvocationID"));
    assert_eq!(map_stage_variable(Stage::Compute, "@workgroupId"), Some("gl_WorkGroupID"));
    assert_eq!(map_stage_variable(Stage::Compute, "@numWorkgroups"), Some("gl_NumWorkGroups"));
    assert_eq!(map_stage_variable(Stage::Compute, "@localInvocationIndex"), Some("gl_LocalInvocationIndex"));
    assert_eq!(map_stage_variable(Stage::TessellationControl, "@invocationId"), Some("gl_InvocationID"));
    assert_eq!(map_stage_variable(Stage::TessellationControl, "@in"), Some("gl_in"));
    assert_eq!(map_stage_variable(Stage::TessellationControl, "@out"), Some("gl_out"));
    assert_eq!(map_stage_variable(Stage::TessellationControl, "@tessLevelOuter"), Some("gl_TessLevelOuter"));
    assert_eq!(map_stage_variable(Stage::TessellationControl, "@tessLevelInner"), Some("gl_TessLevelInner"));
    assert_eq!(map_stage_variable(Stage::TessellationControl, "@primitiveId"), Some("gl_PrimitiveID"));
    assert_eq!(map_stage_variable(Stage::TessellationEvaluation, "@tessCoord"), Some("gl_TessCoord"));
    assert_eq!(map_stage_variable(Stage::TessellationEvaluation, "@in"), Some("gl_in"));
    assert_eq!(map_stage_variable(Stage::TessellationEvaluation, "@primitiveId"), Some("gl_PrimitiveID"));
    assert_eq!(map_stage_variable(Stage::TessellationEvaluation, "@position"), Some("gl_Position"));
    assert_eq!(map_stage_variable(Stage::TessellationEvaluation, "@out"), None);
    assert_eq!(map_stage_variable(Stage::Geometry, "@in"), Some("gl_in"));
    assert_eq!(map_stage_variable(Stage::Geometry, "@emitVertex"), Some("EmitVertex"));
    assert_eq!(map_stage_variable(Stage::Geometry, "@endPrimitive"), Some("EndPrimitive"));
    assert_eq!(map_stage_variable(Stage::Geometry, "@primitiveIdIn"), Some("gl_PrimitiveIDIn"));
    assert_eq!(map_stage_variable(Stage::Geometry, "@primitiveId"), Some("gl_PrimitiveID"));
    assert_eq!(map_stage_variable(Stage::Geometry, "@layer"), Some("gl_Layer"));
    assert_eq!(map_stage_variable(Stage::Geometry, "@viewportIndex"), Some("gl_ViewportIndex"));
    assert_eq!(map_stage_variable(Stage::Mesh, "@meshVertices"), Some("gl_MeshVerticesNV"));
    assert_eq!(map_stage_variable(Stage::Mesh, "@meshPrimitives"), Some("gl_MeshPrimitivesNV"));
    assert_eq!(map_stage_variable(Stage::Mesh, "@taskCount"), Some("gl_TaskCountNV"));
    assert_eq!(map_stage_variable(Stage::Mesh, "@workgroupId"), Some("gl_WorkGroupID"));
    assert_eq!(map_stage_variable(Stage::Mesh, "@localInvocationId"), Some("gl_LocalInvocationID"));
    assert_eq!(map_stage_variable(Stage::Task, "@taskCount"), Some("gl_TaskCountNV"));
    assert_eq!(map_stage_variable(Stage::Task, "@workgroupId"), Some("gl_WorkGroupID"));
    assert_eq!(map_stage_variable(Stage::Task, "@localInvocationId"), Some("gl_LocalInvocationID"));
    assert_eq!(map_stage_variable(Stage::Task, "@meshVertices"), None);
    let raytracing = [
        Stage::RaytracingGeneration,
        Stage::RaytracingClosest,
        Stage::RaytracingAny,
        Stage::RaytracingMiss,
        Stage::RaytracingIntersection,
        Stage::RaytracingCallable,
    ];
    for stage in raytracing {
        assert_eq!(map_stage_variable(stage, "@rayOrigin"), Some("gl_WorldRayOriginNV"));
        assert_eq!(map_stage_variable(stage, "@rayDirection"), Some("gl_WorldRayDirectionNV"));
        assert_eq!(map_stage_variable(stage, "@hitT"), Some("gl_HitTNV"));
        assert_eq!(map_stage_variable(stage, "@launchId"), Some("gl_LaunchIDNV"));
        assert_eq!(map_stage_variable(stage, "@launchSize"), Some("gl_LaunchSizeNV"));
        assert_eq!(map_stage_variable(stage, "@primitiveId"), Some("gl_PrimitiveID"));
        assert_eq!(map_stage_variable(stage, "@instanceId"), Some("gl_InstanceID"));
        assert_eq!(map_stage_variable(stage, "@geometryId"), Some("gl_GeometryIndexEXT"));
        assert_eq!(map_stage_variable(stage, "@hitKind"), Some("gl_HitKindNV"));
        assert_eq!(map_stage_variable(stage, "@missIndex"), Some("gl_MissIndexNV"));
        assert_eq!(map_stage_variable(stage, "@position"), None);
    }
    assert_eq!(map_stage_variable(Stage::All, "@position"), None);
    assert_eq!(map_stage_variable(Stage::Same, "@position"), None);
}

#[test]
fn indentation_is_four_spaces_a_level() {
    let mut buf = vec!['x'];
    write_indent(&mut buf, 0);
    assert_eq!(buf, vec!['x']);
    write_indent(&mut buf, 2);
    assert_eq!(string_from_chars(&buf), "x        ");
}

#[test]
fn expressions_are_joined_with_spaces() {
    assert!(is_tight_token(","));
    assert!(is_tight_token("."));
    assert!(!is_tight_token("a"));
    assert_eq!(join_tokens(&words(&[])), "");
    assert_eq!(join_tokens(&words(&["i"])), "i");
    assert_eq!(join_tokens(&words(&["i", "+", "1"])), "i + 1");
    assert_eq!(join_tokens(&words(&["f", "(", "a", ",", "b", ")"])), "f(a,b)");
    assert_eq!(join_tokens(&words(&["a", "[", "i", "]", ".", "x"])), "a[i]. x");
    assert_eq!(join_tokens(&words(&["vec3", "(", "1.0", ")"])), "vec3(1.0)");
}

#[test]
fn optional_light_expression() {
    let tokens = words(&["scene", ".", "lights", "[", "i", "]", "or", "fallback", ";"]);
    assert_eq!(
        try_transform_optional_expression(&tokens, 0),
        Some(("(i < scene.lightCount ? scene.lights[i] : fallback)".to_string(), 8))
    );
    assert_eq!(try_transform_optional_expression(&tokens, 1), None);
    assert_eq!(try_transform_optional_expression(&tokens, 8), None);
    assert_eq!(try_transform_optional_expression(&tokens, 100), None);
}

#[test]
fn optional_light_expression_with_a_call_as_fallback() {
    let tokens = words(&[
        "x", "=", "s", ".", "lights", "[", "i", "+", "1", "]", "or", "make", "(", "a", ",", "b",
        ")", ",", "rest",
    ]);
    assert_eq!(
        try_transform_optional_expression(&tokens, 2),
        Some(("(i + 1 < s.lightCount ? s.lights[i + 1] : make(a,b))".to_string(), 17))
    );
}

#[test]
fn optional_light_expression_ends_at_an_unmatched_parenthesis() {
    let tokens = words(&["f", "(", "s", ".", "l", "[", "0", "]", "or", "d", ")", ";"]);
    assert_eq!(
        try_transform_optional_expression(&tokens, 2),
        Some(("(0 < s.lightCount ? s.l[0] : d)".to_string(), 10))
    );
}

#[test]
fn what_is_no_optional_light_expression() {
    assert_eq!(try_transform_optional_expression(&words(&["a", ".", "b", "[", "i", "]"]), 0), None);
    assert_eq!(
        try_transform_optional_expression(&words(&["a", ".", "b", "[", "i", "]", "and", "c"]), 0),
        None
    );
    assert_eq!(
        try_transform_optional_expression(&words(&["a", ".", "b", "[", "i", "or", "c"]), 0),
        None
    );
    assert_eq!(
        try_transform_optional_expression(&words(&["a", ".", "b", "[", "i", "]", "or"]), 0),
        None
    );
    assert_eq!(
        try_transform_optional_expression(&words(&["a", ".", "b", "[", "i", "]", "or", ";"]), 0),
        None
    );
    assert_eq!(
        try_transform_optional_expression(&words(&["a", "-", "b", "[", "i", "]", "or", "c"]), 0),
        None
    );
    assert_eq!(
        try_transform_optional_expression(&words(&["a", ".", "b", "(", "i", "]", "or", "c"]), 0),
        None
    );
    assert_eq!(try_transform_optional_expression(&words(&[]), 0), None);
}

#[test]
fn bodies_are_laid_out_by_braces_and_semicolons() {
    assert_eq!(body(&[], Stage::Vertex), "\n");
    assert_eq!(body(&["x", "=", "1", ";"], Stage::Vertex), "    x = 1;\n");
    assert_eq!(
        body(&["if", "(", "a", "<", "b", ")", "{", "x", "=", "f", "(", "a", ",", "b", ")", ";", "}"], Stage::All),
        "    if(a < b){\n        x = f(a, b);\n    }\n"
    );
    assert_eq!(body(&["{", "{", "}", "}"], Stage::All), "    {\n        {\n        }\n    }\n");
    assert_eq!(body(&["}", "}", "x"], Stage::All), "}\n}\nx\n");
    assert_eq!(body(&["a", "}"], Stage::All), "    a\n}\n");
    assert_eq!(body(&["a", "[", "i", "]", "=", "b", ";"], Stage::All), "    a[i] = b;\n");
    assert_eq!(body(&["return", "x", "*", "2.0", ";"], Stage::All), "    return x * 2.0;\n");
    assert_eq!(body(&["=", "=", "x"], Stage::All), "    = = x\n");
    assert_eq!(body(&["a", "==", "b", "!=", "c"], Stage::All), "    a == b != c\n");
    assert_eq!(body(&["x", ";", "y"], Stage::All), "    x;\n    y\n");
}

#[test]
fn bodies_rewrite_stage_local_symbols() {
    assert_eq!(
        body(&["@position", "=", "vec4", "(", "p", ",", "1.0", ")", ";"], Stage::Vertex),
        "    gl_Position = vec4(p, 1.0);\n"
    );
    assert_eq!(
        body(&["@position", "=", "p", ";"], Stage::Fragment),
        "    @position = p;\n"
    );
    assert_eq!(body(&["x", "=", "@fragDepth"], Stage::Fragment), "    x = gl_FragDepth\n");
    assert_eq!(body(&["f", "(", "@layer", ")"], Stage::Geometry), "    f(gl_Layer)\n");
}

#[test]
fn bodies_rewrite_sampling_and_optional_lights() {
    assert_eq!(
        body(&["c", "=", "t", ".", "sample", "(", "uv", ")", ";"], Stage::Fragment),
        "    c = texture(t, uv);\n"
    );
    assert_eq!(
        body(&["t", ".", "sample", "(", "uv", ")"], Stage::All),
        "    texture(t, uv)\n"
    );
    assert_eq!(
        body(&["l", "=", "s", ".", "lights", "[", "i", "]", "or", "none", ";"], Stage::Fragment),
        "    l = (i < s.lightCount ? s.lights[i] : none);\n"
    );
}

#[test]
fn field_accesses_follow_the_links() {
    let mut vertex_input: Table<String> = Table::new();
    let mut vertex_output: Table<String> = Table::new();
    let mut fragment_input: Table<String> = Table::new();
    vertex_input.insert("position".to_string(), "a_position".to_string());
    vertex_output.insert("color".to_string(), "v_color".to_string());
    fragment_input.insert("color".to_string(), "v_color".to_string());
    let links = Links {
        vertex_input: &vertex_input,
        vertex_output: &vertex_output,
        fragment_input: &fragment_input,
    };
    let ctx = BodyContext {
        input_param: Some("input".to_string()),
        output_var: Some("out".to_string()),
    };
    assert_eq!(
        map_field_access(&links, Stage::Vertex, &ctx, "input", "position"),
        Some("a_position".to_string())
    );
    assert_eq!(map_field_access(&links, Stage::Vertex, &ctx, "input", "color"), None);
    assert_eq!(
        map_field_access(&links, Stage::Vertex, &ctx, "out", "color"),
        Some("v_color".to_string())
    );
    assert_eq!(map_field_access(&links, Stage::Vertex, &ctx, "other", "color"), None);
    assert_eq!(
        map_field_access(&links, Stage::Fragment, &ctx, "input", "color"),
        Some("v_color".to_string())
    );
    assert_eq!(map_field_access(&links, Stage::Fragment, &ctx, "out", "color"), None);
    assert_eq!(map_field_access(&links, Stage::Compute, &ctx, "input", "position"), None);
    let tokens = words(&["out", ".", "color", "=", "input", ".", "position", "+", "x", ".", "y", ";"]);
    assert_eq!(
        format_function_body(&tokens, &links, Stage::Vertex, &ctx),
        "    v_color = a_position + x . y;\n"
    );
    let none = BodyContext { input_param: None, output_var: None };
    assert_eq!(map_field_access(&links, Stage::Vertex, &none, "input", "position"), None);
}

#[test]
fn parameters_and_declared_variables_are_found() {
    let params = vec![
        TypedVariable { var_type: "float".to_string(), name: "t".to_string() },
        TypedVariable { var_type: "VIn".to_string(), name: "first".to_string() },
        TypedVariable { var_type: "VIn".to_string(), name: "second".to_string() },
    ];
    assert_eq!(find_param(&params, &Some("VIn".to_string())), Some("first".to_string()));
    assert_eq!(find_param(&params, &Some("VOut".to_string())), None);
    assert_eq!(find_param(&params, &None), None);
    assert_eq!(find_param(&[], &Some("VIn".to_string())), None);
    assert_eq!(format_function_args(&params), "float t, VIn first, VIn second");
    assert_eq!(format_function_args(&[]), "");
    assert_eq!(
        format_function_args(&[TypedVariable {
            var_type: "Texture".to_string(),
            name: "t".to_string()
        }]),
        "sampler2D t"
    );
    let name = Some("VOut".to_string());
    assert_eq!(
        detect_struct_variable(&words(&["VOut", "out", ";", "VOut", "later", ";"]), &name),
        Some("out".to_string())
    );
    assert_eq!(
        detect_struct_variable(&words(&["x", ";", "VOut", "o", "=", "make", "(", ")"]), &name),
        Some("o".to_string())
    );
    assert_eq!(detect_struct_variable(&words(&["VOut", "f", "(", ")"]), &name), None);
    assert_eq!(detect_struct_variable(&words(&["VOut", "o"]), &name), None);
    assert_eq!(detect_struct_variable(&words(&["VOut", "o", ";"]), &None), None);
}

#[test]
fn the_arguments_of_uniform() {
    let none = UniformAnnotation { set: None, binding: None };
    let read = |items: &[&str]| {
        let found = parse_uniform_like_builtin(&args(items));
        (found.set, found.binding)
    };
    assert_eq!(read(&[]), (none.set, none.binding));
    assert_eq!(read(&["0", "1"]), (Some(0), Some(1)));
    assert_eq!(read(&["3"]), (Some(3), None));
    assert_eq!(read(&["set", "=", "2", "binding", "=", "5"]), (Some(2), Some(5)));
    assert_eq!(read(&["binding", "=", "5", "set", "=", "2"]), (Some(2), Some(5)));
    assert_eq!(read(&["binding", "=", "7"]), (None, Some(7)));
    assert_eq!(read(&["set", "=", "x"]), (None, None));
    assert_eq!(read(&["set", "=", "1", "9"]), (Some(1), Some(9)));
    assert_eq!(read(&["x", "4"]), (Some(4), None));
    assert_eq!(read(&["1", "2", "3"]), (Some(1), Some(2)));
    assert_eq!(read(&["set", "1"]), (Some(1), None));
    assert_eq!(read(&["set"]), (None, None));
    let buffer = parse_buffer_builtin(&args(&["4", "6"]));
    assert_eq!((buffer.set, buffer.binding), (Some(4), Some(6)));
}

#[test]
fn the_arguments_of_output() {
    let location = |items: &[&str]| parse_output_builtin(&args(items)).location;
    assert_eq!(location(&[]), 0);
    assert_eq!(location(&["2"]), 2);
    assert_eq!(location(&["x", "2"]), 0);
    assert_eq!(location(&["4294967296"]), 0);
    let OutputAnnotation { location: l } = parse_output_builtin(&args(&["7", "8"]));
    assert_eq!(l, 7);
}

#[test]
fn the_arguments_of_the_transform() {
    let read = |items: &[&str]| {
        let found = parse_transform_builtin(&args(items));
        (found.block_name, found.max_elements)
    };
    assert_eq!(read(&[]), (None, 1));
    assert_eq!(read(&["Lights", "8"]), (Some("Lights".to_string()), 8));
    assert_eq!(read(&["8", "Lights"]), (Some("Lights".to_string()), 8));
    assert_eq!(read(&["16"]), (None, 16));
    assert_eq!(read(&["light_block"]), (Some("light_block".to_string()), 1));
    assert_eq!(read(&["block2", "4", "5"]), (None, 4));
    assert_eq!(read(&["a1", "Näme", "x"]), (Some("Näme".to_string()), 1));
    assert_eq!(read(&["1", ""]), (Some("".to_string()), 1));
    assert!(can_name_block("Block_name"));
    assert!(can_name_block(""));
    assert!(can_name_block("λ"));
    assert!(!can_name_block("Block2"));
    assert!(!can_name_block("a b"));
}

#[test]
fn the_arguments_of_stage() {
    let read = |items: &[&str]| parse_stage_builtin(&args(items)).map(|a| (a.stage, a.io));
    assert_eq!(read(&[]), None);
    assert_eq!(read(&["vertex"]), None);
    assert_eq!(read(&["vertex", "in"]), Some((Stage::Vertex, StageIO::In)));
    assert_eq!(read(&["vertex", "out"]), Some((Stage::Vertex, StageIO::Out)));
    assert_eq!(read(&["fragment", "in"]), Some((Stage::Fragment, StageIO::In)));
    assert_eq!(read(&["compute", "out"]), Some((Stage::Compute, StageIO::Out)));
    assert_eq!(read(&["geometry", "in"]), Some((Stage::Geometry, StageIO::In)));
    assert_eq!(read(&["mesh", "in"]), Some((Stage::Mesh, StageIO::In)));
    assert_eq!(read(&["task", "in"]), Some((Stage::Task, StageIO::In)));
    assert_eq!(read(&["tessellation", "in"]), Some((Stage::TessellationEvaluation, StageIO::In)));
    assert_eq!(read(&["raytracing", "in"]), Some((Stage::RaytracingAny, StageIO::In)));
    assert_eq!(read(&["other", "sideways"]), Some((Stage::All, StageIO::In)));
}

#[test]
fn annotations_are_taken_once_and_in_order() {
    let mut pending = vec![
        Annotation::OpenGLName("first".to_string()),
        Annotation::Stage(StageAnnotation { stage: Stage::Vertex, io: StageIO::In }),
        Annotation::PushConstant,
        Annotation::OpenGLName("second".to_string()),
        Annotation::Stage(StageAnnotation { stage: Stage::Fragment, io: StageIO::Out }),
    ];
    assert!(take_annotation(&mut pending, AnnotationKind::Uniform).is_none());
    assert_eq!(pending.len(), 5);
    match take_annotation(&mut pending, AnnotationKind::OpenGLName) {
        Some(Annotation::OpenGLName(name)) => assert_eq!(name, "first"),
        other => panic!("expected the first name, got {:?}", other),
    }
    assert_eq!(pending.len(), 4);
    assert!(matches!(pending[0], Annotation::Stage(_)));
    assert!(matches!(pending[1], Annotation::PushConstant));
    let stages = take_stage_annotations(&mut pending);
    assert_eq!(stages.len(), 2);
    assert_eq!((stages[0].stage, stages[0].io), (Stage::Vertex, StageIO::In));
    assert_eq!((stages[1].stage, stages[1].io), (Stage::Fragment, StageIO::Out));
    assert_eq!(pending.len(), 2);
    assert!(matches!(pending[0], Annotation::PushConstant));
    match take_annotation(&mut pending, AnnotationKind::OpenGLName) {
        Some(Annotation::OpenGLName(name)) => assert_eq!(name, "second"),
        other => panic!("expected the second name, got {:?}", other),
    }
    assert!(take_annotation(&mut pending, AnnotationKind::OpenGLName).is_none());
    assert!(take_annotation(&mut pending, AnnotationKind::PushConstant).is_some());
    assert!(pending.is_empty());
    assert!(take_stage_annotations(&mut pending).is_empty());
}

#[test]
fn struct_fields_are_read_with_their_suffixes() {
    let tokens = words(&[
        "struct", "S", "{", "vec3", "p", ";", "float", "w", "[", "4", "]", ";", "int", "n", "}",
        "tail",
    ]);
    let (fields, next) = read_struct_fields(&tokens, 3);
    assert_eq!(next, 15);
    assert_eq!(fields.len(), 3);
    assert_eq!((fields[0].typ.as_str(), fields[0].name.as_str()), ("vec3", "p"));
    assert_eq!(fields[0].array_suffix, None);
    assert_eq!((fields[1].typ.as_str(), fields[1].name.as_str()), ("float", "w"));
    assert_eq!(fields[1].array_suffix, Some("[4]".to_string()));
    assert_eq!((fields[2].typ.as_str(), fields[2].name.as_str()), ("int", "n"));
    assert_eq!(fields[2].array_suffix, None);
    let (fields, next) = read_struct_fields(&words(&["{", "a"]), 1);
    assert_eq!((fields.len(), next), (0, 1));
    let (fields, next) = read_struct_fields(&words(&["{", "}"]), 1);
    assert_eq!((fields.len(), next), (0, 2));
    let (fields, next) = read_struct_fields(&words(&["{"]), 1);
    assert_eq!((fields.len(), next), (0, 1));
    let copy = StructInfo { fields: read_struct_fields(&tokens, 3).0, alignment: None }.clone();
    assert_eq!(copy.fields.len(), 3);
    assert_eq!(copy.fields[1].array_suffix, Some("[4]".to_string()));
}

#[test]
fn struct_definitions_and_stage_declarations() {
    let info = StructInfo {
        fields: vec![
            StructField { typ: "vec3".to_string(), name: "p".to_string(), array_suffix: None },
            StructField {
                typ: "Color".to_string(),
                name: "c".to_string(),
                array_suffix: Some("[2]".to_string()),
            },
        ],
        alignment: Some("std140".to_string()),
    };
    assert_eq!(format_struct_definition("S", &info), "struct S {\n    vec3 p;\n    vec4 c[2];\n};");
    assert_eq!(
        format_struct_definition("E", &StructInfo { fields: Vec::new(), alignment: None }),
        "struct E {\n};"
    );
    let mut decls = vec!["first".to_string()];
    declare_fields(&mut decls, &info, "in", "a_");
    assert_eq!(
        decls,
        words(&["first", "layout(location = 0) in vec3 a_p;", "layout(location = 1) in vec4 a_c;"])
    );
    let mut table: Table<String> = Table::new();
    link_fields(&mut table, &info, "v_");
    assert_eq!(table.get("p"), Some(&"v_p".to_string()));
    assert_eq!(table.get("c"), Some(&"v_c".to_string()));
    assert!(table.get("q").is_none());
}

#[test]
fn twelve_fields_get_two_digit_locations() {
    let mut fields = Vec::new();
    for i in 0..12 {
        fields.push(StructField {
            typ: "float".to_string(),
            name: format!("f{}", i),
            array_suffix: None,
        });
    }
    let mut decls = Vec::new();
    declare_fields(&mut decls, &StructInfo { fields, alignment: None }, "out", "v_");
    assert_eq!(decls[9], "layout(location = 9) out float v_f9;");
    assert_eq!(decls[10], "layout(location = 10) out float v_f10;");
    assert_eq!(decls[11], "layout(location = 11) out float v_f11;");
}

#[test]
fn the_version_line() {
    assert_eq!(resolve_version(&words(&[])), "#version 410 core");
    assert_eq!(resolve_version(&words(&["latest", ";"])), "#version 410 core");
    assert_eq!(resolve_version(&words(&["330", ";"])), "#version 330 core");
    assert_eq!(resolve_version(&words(&["450"])), "#version 450 core");
}

#[test]
fn excerpts_show_the_line_and_a_caret() {
    let source = "first line\nsecond & line\nthird";
    assert_eq!(excerpt(source, 18), ("second & line".to_string(), "       ^".to_string()));
    assert_eq!(excerpt(source, 0), ("first line".to_string(), "^".to_string()));
    assert_eq!(excerpt(source, 10), ("first line".to_string(), "          ^".to_string()));
    assert_eq!(excerpt(source, 11), ("second & line".to_string(), "^".to_string()));
    assert_eq!(excerpt(source, 29), ("third".to_string(), "    ^".to_string()));
    assert_eq!(excerpt(source, 30), ("third".to_string(), "     ^".to_string()));
    assert_eq!(excerpt(source, 1000), ("third".to_string(), "     ^".to_string()));
    assert_eq!(excerpt("", 0), (String::new(), "^".to_string()));
}

#[test]
fn excerpts_count_tabs_as_four_columns() {
    assert_eq!(excerpt("\tx = #;", 5), ("\tx = #;".to_string(), "        ^".to_string()));
    assert_eq!(excerpt("a\t\tb", 3), ("a\t\tb".to_string(), "         ^".to_string()));
}

#[test]
fn excerpts_take_byte_offsets_and_count_characters() {
    assert_eq!(excerpt("é = #", 5), ("é = #".to_string(), "    ^".to_string()));
    assert_eq!(excerpt("é = #", 1), ("é = #".to_string(), " ^".to_string()));
    assert_eq!(excerpt("日本\n語 x", 7), ("語 x".to_string(), "^".to_string()));
    assert_eq!(excerpt("日本\n語 x", 8), ("語 x".to_string(), " ^".to_string()));
    assert_eq!(excerpt("日本\n語 x", 11), ("語 x".to_string(), "  ^".to_string()));
}
