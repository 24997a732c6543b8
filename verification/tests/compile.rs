use hana::annotations::{StageAnnotation, StageIO};
use hana::backend::{compile, Backend, Stage};
use hana::error::Error;
use hana::structs::{StructField, StructInfo};
use hana::opengl::OpenGLBackend;
use hana::parser::{
    Builtin, Expression, FunctionExpression, Parser, TranslatableExpression, TypedVariable,
    UseExpression,
};

const STAGES: [Stage; 14] = [
    Stage::Vertex,
    Stage::Fragment,
    Stage::Compute,
    Stage::Mesh,
    Stage::Task,
    Stage::TessellationControl,
    Stage::TessellationEvaluation,
    Stage::Geometry,
    Stage::RaytracingGeneration,
    Stage::RaytracingClosest,
    Stage::RaytracingAny,
    Stage::RaytracingMiss,
    Stage::RaytracingIntersection,
    Stage::RaytracingCallable,
];

const EMPTY_MAIN: &str = "#version 410 core\n\nvoid main() {\n\n}\n";

fn build(source: &str) -> Result<Vec<(String, Stage)>, Error> {
    let mut parser = Parser::new(source.to_string())?;
    let nodes = parser.parse()?;
    let mut backend = OpenGLBackend::new();
    compile(&nodes, &mut backend)
}

fn built(source: &str) -> Vec<(String, Stage)> {
    build(source).expect("the source compiles")
}

fn shader(outputs: &[(String, Stage)], stage: Stage) -> String {
    let found: Vec<&(String, Stage)> = outputs.iter().filter(|slot| slot.1 == stage).collect();
    assert_eq!(found.len(), 1);
    found[0].0.clone()
}

fn internal_error(source: &str) -> String {
    match build(source) {
        Err(Error::InternalError(message)) => message,
        other => panic!("expected an internal error, got {:?}", other),
    }
}

fn only(outputs: &[(String, Stage)], stage: Stage) -> String {
    for slot in outputs.iter() {
        if slot.1 != stage {
            assert_eq!(slot.0, "", "the slot of {:?} should be empty", slot.1);
        }
    }
    shader(outputs, stage)
}

fn words(items: &[&str]) -> Vec<String> {
    items.iter().map(|s| s.to_string()).collect()
}

#[test]
fn one_slot_per_stage_in_a_fixed_order() {
    let outputs = built("");
    let stages: Vec<Stage> = outputs.iter().map(|slot| slot.1).collect();
    assert_eq!(stages, STAGES.to_vec());
    assert!(outputs.iter().all(|slot| slot.0.is_empty()));
}

#[test]
fn hana_latest_sets_version_410() {
    let outputs = built("@hana latest; @vertex func main() -> void { }");
    assert_eq!(only(&outputs, Stage::Vertex), EMPTY_MAIN);
}

#[test]
fn hana_latest_alone_leaves_every_stage_empty() {
    let outputs = built("@hana latest;");
    for slot in outputs.iter() {
        assert!(slot.0.is_empty() || slot.0.starts_with("#version 410 core"));
        assert_eq!(slot.0, "");
    }
}

#[test]
fn every_shader_starts_with_the_version() {
    let outputs = built(
        "@hana latest; @vertex func main() -> void { } @fragment func main() -> void { } @compute func main() -> void { }",
    );
    let mut shaders = 0;
    for slot in outputs.iter() {
        if !slot.0.is_empty() {
            assert!(slot.0.starts_with("#version 410 core\n"));
            shaders += 1;
        }
    }
    assert_eq!(shaders, 3);
}

#[test]
fn hana_with_a_number_sets_that_version() {
    let outputs = built("@hana 330; @fragment func main() -> void { }");
    assert_eq!(only(&outputs, Stage::Fragment), "#version 330 core\n\nvoid main() {\n\n}\n");
}

#[test]
fn without_hana_the_version_is_410() {
    let outputs = built("@compute func main() -> void { }");
    assert_eq!(only(&outputs, Stage::Compute), EMPTY_MAIN);
}

#[test]
fn raytracing_generation_after_use() {
    let outputs = built("use hana::raytracing; @raytracing(generation) func main() -> void { }");
    assert_eq!(only(&outputs, Stage::RaytracingGeneration), EMPTY_MAIN);
}

#[test]
fn every_raytracing_stage_can_be_named() {
    let names = [
        ("generation", Stage::RaytracingGeneration),
        ("closest", Stage::RaytracingClosest),
        ("any", Stage::RaytracingAny),
        ("miss", Stage::RaytracingMiss),
        ("intersection", Stage::RaytracingIntersection),
        ("callable", Stage::RaytracingCallable),
    ];
    for (name, stage) in names {
        let source =
            format!("use hana::raytracing; @raytracing({}) func main() -> void {{ }}", name);
        assert_eq!(only(&built(&source), stage), EMPTY_MAIN);
    }
}

#[test]
fn raytracing_without_use_is_refused() {
    assert_eq!(
        internal_error("@raytracing(generation) func main() -> void { }"),
        "Raytracing extension not included."
    );
    assert_eq!(
        internal_error("use hana::other; @raytracing(generation) func main() -> void { }"),
        "Raytracing extension not included."
    );
}

#[test]
fn raytracing_with_an_unknown_kind_is_refused() {
    assert_eq!(
        internal_error("use hana::raytracing; @raytracing(bounce) func main() -> void { }"),
        "Raytracing builtin requires a valid shader type argument (generation/closest/any/miss/intersection/callable)"
    );
}

#[test]
fn raytracing_takes_the_word_after_it() {
    let outputs = built("use hana::raytracing; @raytracing generation func main() -> void { }");
    let shader = only(&outputs, Stage::RaytracingGeneration);
    assert!(!shader.is_empty());
    assert!(shader.starts_with("#version"));
    assert!(shader.contains("void main() {"));
    assert_eq!(shader, EMPTY_MAIN);
    assert_eq!(
        internal_error("@raytracing generation func main() -> void { }"),
        "Raytracing extension not included."
    );
    assert_eq!(
        internal_error("use hana::raytracing; @raytracing bounce func main() -> void { }"),
        "Raytracing builtin requires a valid shader type argument (generation/closest/any/miss/intersection/callable)"
    );
}

#[test]
fn raytracing_without_a_word_switches_nothing() {
    let outputs = built("use hana::raytracing; @raytracing func main() -> void { }");
    assert!(outputs.iter().all(|slot| slot.0.is_empty()));
    let outputs = built("use hana::raytracing; @raytracing() func main() -> void { }");
    assert!(outputs.iter().all(|slot| slot.0.is_empty()));
}

#[test]
fn tessellation_takes_the_word_after_it() {
    let outputs = built("@tessellation control func main() -> void { }");
    assert_eq!(only(&outputs, Stage::TessellationControl), EMPTY_MAIN);
    let outputs = built("@tessellation evaluation func main() -> void { }");
    assert_eq!(only(&outputs, Stage::TessellationEvaluation), EMPTY_MAIN);
    assert_eq!(
        internal_error("@tessellation sideways func main() -> void { }"),
        "Tessellation builtin requires a shader type argument (control/evaluation)"
    );
    let outputs = built("@tessellation func main() -> void { }");
    assert!(outputs.iter().all(|slot| slot.0.is_empty()));
}

#[test]
fn tessellation_stages() {
    let outputs = built("@tessellation(control) func main() -> void { }");
    assert_eq!(only(&outputs, Stage::TessellationControl), EMPTY_MAIN);
    let outputs = built("@tessellation(evaluation) func main() -> void { }");
    assert_eq!(only(&outputs, Stage::TessellationEvaluation), EMPTY_MAIN);
    assert_eq!(
        internal_error("@tessellation(other) func main() -> void { }"),
        "Tessellation builtin requires a shader type argument (control/evaluation)"
    );
}

#[test]
fn the_plain_stage_switches() {
    let names = [
        ("vertex", Stage::Vertex),
        ("fragment", Stage::Fragment),
        ("geometry", Stage::Geometry),
        ("compute", Stage::Compute),
        ("mesh", Stage::Mesh),
        ("task", Stage::Task),
    ];
    for (name, stage) in names {
        let source = format!("@{} func main() -> void {{ }}", name);
        assert_eq!(only(&built(&source), stage), EMPTY_MAIN);
    }
}

#[test]
fn vertex_inputs_get_locations_in_order() {
    let outputs = built(
        "@stage(vertex, in) struct VIn { vec3 position; vec2 uv; } @vertex func main(VIn input) -> void { }",
    );
    let vertex = only(&outputs, Stage::Vertex);
    assert!(vertex.contains("layout(location = 0) in vec3 a_position;"));
    assert!(vertex.contains("layout(location = 1) in vec2 a_uv;"));
    assert_eq!(
        vertex,
        "#version 410 core\n\nstruct VIn {\n    vec3 position;\n    vec2 uv;\n};\n\nlayout(location = 0) in vec3 a_position;\nlayout(location = 1) in vec2 a_uv;\n\nvoid main() {\n\n}\n"
    );
}

#[test]
fn vertex_outputs_reach_the_fragment_stage() {
    let outputs = built(
        "@stage(vertex, out) @stage(fragment, in) struct VOut { vec3 color; } @output(0) vec4 result; @vertex func main() -> void { VOut o; o.color = c; } @fragment func main(VOut v) -> void { result = v.color; }",
    );
    let vertex = shader(&outputs, Stage::Vertex);
    let fragment = shader(&outputs, Stage::Fragment);
    assert!(vertex.contains("layout(location = 0) out vec3 v_color;"));
    assert!(vertex.contains("    v_color = c;\n"));
    assert!(fragment.contains("layout(location = 0) in vec3 v_color;"));
    assert!(fragment.contains("    result = v_color;\n"));
    assert!(!fragment.contains("v.color"));
    assert!(!fragment.contains("v . color"));
}

#[test]
fn a_vertex_output_alone_links_the_fragment_body() {
    let outputs = built(
        "@stage(vertex, out) struct VOut { vec3 color; } @stage(fragment, in) struct FIn { vec2 uv; } @fragment func main(FIn v) -> void { x = v.color; y = v.uv; }",
    );
    let fragment = only(&outputs, Stage::Fragment);
    assert!(fragment.contains("layout(location = 0) in vec2 v_uv;"));
    assert!(!fragment.contains("in vec3 v_color;"));
    assert!(fragment.contains("    x = v_color;\n    y = v_uv;\n"));
}

#[test]
fn the_first_stage_block_stays() {
    let outputs = built(
        "@stage(vertex, in) struct A { vec3 p; } @stage(vertex, in) struct B { vec2 q; } @vertex func main(A a, B b) -> void { x = a.p; y = b.q; }",
    );
    let vertex = only(&outputs, Stage::Vertex);
    assert!(vertex.contains("layout(location = 0) in vec3 a_p;"));
    assert!(!vertex.contains("a_q"));
    assert!(vertex.contains("    x = a_p;\n    y = b . q;\n"));
}

#[test]
fn sample_becomes_texture() {
    let outputs = built("@fragment func main() -> void { c = sampler.sample(uv); }");
    assert_eq!(
        only(&outputs, Stage::Fragment),
        "#version 410 core\n\nvoid main() {\n    c = texture(sampler, uv);\n}\n"
    );
}

#[test]
fn output_declares_a_fragment_output() {
    let outputs = built("@output(0) vec4 fragColor; @fragment func main() -> void { }");
    assert_eq!(
        only(&outputs, Stage::Fragment),
        "#version 410 core\n\nlayout(location = 0) out vec4 fragColor;\n\nvoid main() {\n\n}\n"
    );
    let outputs = built("@output(3) Color second; @fragment func main() -> void { }");
    assert!(shader(&outputs, Stage::Fragment).contains("layout(location = 3) out vec4 second;"));
}

#[test]
fn output_takes_the_location_after_it() {
    let outputs = built("@output 0 vec4 fragColor; @fragment func main() -> void { }");
    assert_eq!(
        only(&outputs, Stage::Fragment),
        "#version 410 core\n\nlayout(location = 0) out vec4 fragColor;\n\nvoid main() {\n\n}\n"
    );
    let outputs = built("@output 2 Color second; @fragment func main() -> void { }");
    assert!(shader(&outputs, Stage::Fragment).contains("layout(location = 2) out vec4 second;"));
}

#[test]
fn output_without_a_location_takes_location_zero() {
    let outputs = built("@output vec4 fragColor; @fragment func main() -> void { }");
    assert!(shader(&outputs, Stage::Fragment).contains("layout(location = 0) out vec4 fragColor;"));
    let outputs = built("@output @uniform vec4 tint; @fragment func main() -> void { }");
    assert!(shader(&outputs, Stage::Fragment).contains("layout(location = 0) out vec4 tint;"));
}

#[test]
fn opengl_takes_the_name_after_it() {
    let outputs = built("@opengl u_time @uniform float time; @vertex func main() -> void { }");
    let vertex = only(&outputs, Stage::Vertex);
    assert!(vertex.contains("uniform float u_time;"));
    assert!(!vertex.contains("u_time u"));
    let outputs = built("@uniform @opengl u_time float time; @vertex func main() -> void { }");
    assert_eq!(
        only(&outputs, Stage::Vertex),
        "#version 410 core\n\nuniform float u_time;\n\nvoid main() {\n\n}\n"
    );
}

#[test]
fn align_takes_the_layout_after_it() {
    let outputs = built(
        "@align std140 struct L { vec3 p; } @buffer(0, 1) L light; @fragment func main() -> void { }",
    );
    assert!(shader(&outputs, Stage::Fragment)
        .contains("layout(std140, binding = 1) uniform light_Block {\n    vec3 p;\n} light;"));
}

#[test]
fn the_transform_takes_the_words_after_it() {
    let outputs = built(
        "struct Lights { int count; vec3 position; } @openglTransformToUniform LightBlock 8 @buffer(0, 4) Lights lights; @fragment func main() -> void { }",
    );
    assert!(shader(&outputs, Stage::Fragment).contains(
        "layout(binding = 4) uniform LightBlock {\n    int count;\n    vec3 position[8];\n} lights;"
    ));
    let outputs = built(
        "struct Lights { vec3 position; } @buffer(0, 4) @openglTransformToUniform LightBlock Lights lights; @fragment func main() -> void { }",
    );
    assert!(shader(&outputs, Stage::Fragment).contains(
        "layout(binding = 4) uniform LightBlock {\n    vec3 position[1];\n} lights;"
    ));
}

#[test]
fn a_builtin_takes_words_only_from_the_block_right_after_it() {
    let outputs = built(
        "@opengl @uniform float first; @uniform float second; @vertex func main() -> void { }",
    );
    assert_eq!(
        only(&outputs, Stage::Vertex),
        "#version 410 core\n\nuniform float first;\nuniform float second;\n\nvoid main() {\n\n}\n"
    );
}

#[test]
fn fragment_outputs_stay_out_of_other_stages() {
    let outputs = built(
        "@output(0) vec4 fragColor; @vertex func main() -> void { } @fragment func main() -> void { }",
    );
    assert!(!shader(&outputs, Stage::Vertex).contains("fragColor"));
    assert!(shader(&outputs, Stage::Fragment).contains("fragColor"));
}

#[test]
fn uniforms_are_declared_once() {
    let outputs = built(
        "@uniform(0, 1) mat4 mvp; @uniform(0, 2) mat4 mvp; @push mat4 mvp; @uniform Texture2D albedo; @vertex func main() -> void { }",
    );
    let vertex = only(&outputs, Stage::Vertex);
    assert_eq!(vertex.matches("uniform mat4 mvp;").count(), 1);
    assert_eq!(
        vertex,
        "#version 410 core\n\nuniform mat4 mvp;\nuniform sampler2D albedo;\n\nvoid main() {\n\n}\n"
    );
}

#[test]
fn push_is_a_plain_uniform() {
    let outputs = built("@push vec4 tint; @fragment func main() -> void { }");
    assert!(shader(&outputs, Stage::Fragment).contains("uniform vec4 tint;"));
}

#[test]
fn opengl_renames_a_global() {
    let outputs = built("@opengl(u_time) @uniform float time; @vertex func main() -> void { }");
    let vertex = only(&outputs, Stage::Vertex);
    assert!(vertex.contains("uniform float u_time;"));
    assert!(!vertex.contains(" time;"));
}

#[test]
fn types_are_mapped_to_glsl() {
    let outputs = built(
        "@uniform Texture a; @uniform Texture2D b; @uniform TextureCube c; @uniform Texture3D d; @uniform Color e; @uniform vec2 f; @vertex func main() -> void { }",
    );
    assert_eq!(
        only(&outputs, Stage::Vertex),
        "#version 410 core\n\nuniform sampler2D a;\nuniform sampler2D b;\nuniform samplerCube c;\nuniform sampler3D d;\nuniform vec4 e;\nuniform vec2 f;\n\nvoid main() {\n\n}\n"
    );
}

#[test]
fn plain_globals_keep_their_text() {
    let outputs = built(
        "const float scale = 2.0; vec3 table[4]; float f(int x); @compute func main() -> void { }",
    );
    assert_eq!(
        only(&outputs, Stage::Compute),
        "#version 410 core\n\nconst float scale = 2.0;\nvec3 table[ 4];\nfloat f( int x);\n\nvoid main() {\n\n}\n"
    );
}

#[test]
fn a_buffer_wraps_a_struct_in_a_uniform_block() {
    let outputs = built(
        "@align(std140) struct Light { vec3 position; float power; vec4 cone[2]; } @buffer(0, 2) Light light; @fragment func main() -> void { }",
    );
    assert_eq!(
        only(&outputs, Stage::Fragment),
        "#version 410 core\n\nstruct Light {\n    vec3 position;\n    float power;\n    vec4 cone[2];\n};\n\nlayout(std140, binding = 2) uniform light_Block {\n    vec3 position;\n    float power;\n    vec4 cone[2];\n} light;\n\nvoid main() {\n\n}\n"
    );
}

#[test]
fn a_buffer_without_layout_items_has_no_layout() {
    let outputs =
        built("struct S { Color c; } @buffer S s; @fragment func main() -> void { }");
    assert!(shader(&outputs, Stage::Fragment).contains("\n\nuniform s_Block {\n    vec4 c;\n} s;\n"));
}

#[test]
fn a_transform_widens_the_fields_that_are_not_scalar() {
    let outputs = built(
        "struct Lights { int count; vec3 position; Color tint; } @openglTransformToUniform(LightBlock, 8) @buffer(set = 1, binding = 4) Lights lights; @fragment func main() -> void { }",
    );
    assert!(shader(&outputs, Stage::Fragment).contains(
        "layout(binding = 4) uniform LightBlock {\n    int count;\n    vec3 position[8];\n    vec4 tint[8];\n} lights;"
    ));
}

#[test]
fn a_buffer_of_an_unknown_struct_is_refused() {
    assert_eq!(
        internal_error("@buffer(0, 1) Missing m; @fragment func main() -> void { }"),
        "Struct 'Missing' not found for buffer declaration."
    );
}

#[test]
fn helpers_reach_every_shader() {
    let outputs = built(
        "func twice(float x, Color c) -> float { return x * 2.0; } @vertex func main() -> void { } @fragment func main() -> void { }",
    );
    let expected = "#version 410 core\n\nfloat twice(float x, vec4 c) {\n    return x * 2.0;\n}\n\n\nvoid main() {\n\n}\n";
    assert_eq!(shader(&outputs, Stage::Vertex), expected);
    assert_eq!(shader(&outputs, Stage::Fragment), expected);
}

#[test]
fn an_entry_function_stays_in_its_stage() {
    let outputs = built(
        "@vertex func main() -> void { vertex_only = 1; } @fragment func main() -> void { fragment_only = 2; }",
    );
    let vertex = shader(&outputs, Stage::Vertex);
    let fragment = shader(&outputs, Stage::Fragment);
    assert!(vertex.contains("vertex_only"));
    assert!(!vertex.contains("fragment_only"));
    assert!(fragment.contains("fragment_only"));
    assert!(!fragment.contains("vertex_only"));
    for slot in outputs.iter() {
        if slot.1 != Stage::Vertex && slot.1 != Stage::Fragment {
            assert_eq!(slot.0, "");
        }
    }
}

#[test]
fn the_stage_resets_after_a_function() {
    let outputs =
        built("@vertex func main() -> void { } func after() -> void { helper_body; }");
    assert_eq!(
        only(&outputs, Stage::Vertex),
        "#version 410 core\n\nvoid after() {\n    helper_body;\n}\n\n\nvoid main() {\n\n}\n"
    );
}

#[test]
fn a_second_switch_overwrites_the_first() {
    let outputs = built("@vertex @fragment func main() -> void { }");
    assert_eq!(only(&outputs, Stage::Fragment), EMPTY_MAIN);
}

#[test]
fn a_later_entry_replaces_an_earlier_one() {
    let outputs =
        built("@vertex func main() -> void { first; } @vertex func main() -> void { second; }");
    let vertex = only(&outputs, Stage::Vertex);
    assert!(vertex.contains("second;"));
    assert!(!vertex.contains("first;"));
}

#[test]
fn a_whole_program() {
    let outputs = built(
        "@hana latest;\n@stage(vertex, in) struct VIn { vec3 position; vec2 uv; }\n@stage(vertex, out) @stage(fragment, in) struct VOut { vec3 color; }\n@uniform(0, 1) mat4 mvp;\nconst float scale = 2.0;\n@output(0) vec4 fragColor;\nfunc twice(float x) -> float { return x * 2.0; }\n@vertex func main(VIn input) -> void { VOut out; out.color = input.position; }\n@fragment func main(VOut v) -> void { fragColor = tex.sample(v.color); }",
    );
    let shared = "#version 410 core\n\nstruct VIn {\n    vec3 position;\n    vec2 uv;\n};\nstruct VOut {\n    vec3 color;\n};\n\nuniform mat4 mvp;\n\n";
    let tail = "const float scale = 2.0;\n\nfloat twice(float x) {\n    return x * 2.0;\n}\n\n\nvoid main() {\n";
    assert_eq!(
        shader(&outputs, Stage::Vertex),
        format!(
            "{}layout(location = 0) in vec3 a_position;\nlayout(location = 1) in vec2 a_uv;\n\nlayout(location = 0) out vec3 v_color;\n\n{}    VOut out;\n    v_color = a_position;\n}}\n",
            shared, tail
        )
    );
    assert_eq!(
        shader(&outputs, Stage::Fragment),
        format!(
            "{}layout(location = 0) in vec3 v_color;\n\nlayout(location = 0) out vec4 fragColor;\n\n{}    fragColor = texture(tex, v_color);\n}}\n",
            shared, tail
        )
    );
    for slot in outputs.iter() {
        if slot.1 != Stage::Vertex && slot.1 != Stage::Fragment {
            assert_eq!(slot.0, "");
        }
    }
}

#[test]
fn nodes_built_by_hand_compile_like_parsed_ones() {
    let nodes = vec![
        Expression::Use(UseExpression { module: "hana::raytracing".to_string() }),
        Expression::Builtin(Builtin { name: "push".to_string(), args: Vec::new() }),
        Expression::Translatable(TranslatableExpression {
            expressions: words(&["vec4", "tint", ";"]),
        }),
        Expression::Builtin(Builtin { name: "vertex".to_string(), args: Vec::new() }),
        Expression::Function(FunctionExpression {
            name: "main".to_string(),
            args: vec![TypedVariable { var_type: "int".to_string(), name: "i".to_string() }],
            return_type: "void".to_string(),
            body: TranslatableExpression { expressions: words(&["@position", "=", "p", ";"]) },
        }),
    ];
    let mut backend = OpenGLBackend::new();
    let outputs = compile(&nodes, &mut backend).unwrap();
    assert_eq!(
        only(&outputs, Stage::Vertex),
        "#version 410 core\n\nuniform vec4 tint;\n\nvoid main() {\n    gl_Position = p;\n}\n"
    );
}

#[test]
fn the_operations_hand_back_empty_text() {
    let mut backend = OpenGLBackend::new();
    let text = backend.run_use(&UseExpression { module: "hana::raytracing".to_string() });
    assert_eq!(text, "");
    let answer = backend
        .run_builtin(&Builtin { name: "uniform".to_string(), args: Vec::new() })
        .unwrap();
    assert_eq!(answer, (String::new(), Stage::Same));
    let answer =
        backend.run_builtin(&Builtin { name: "mesh".to_string(), args: Vec::new() }).unwrap();
    assert_eq!(answer, (String::new(), Stage::Mesh));
    let answer =
        backend.run_builtin(&Builtin { name: "unknown".to_string(), args: Vec::new() }).unwrap();
    assert_eq!(answer, (String::new(), Stage::Same));
    let text = backend
        .run_translatable(&TranslatableExpression { expressions: words(&["float", "x", ";"]) })
        .unwrap();
    assert_eq!(text, "");
    let text = backend.run_function(&FunctionExpression {
        name: "main".to_string(),
        args: Vec::new(),
        return_type: "void".to_string(),
        body: TranslatableExpression { expressions: Vec::new() },
    });
    assert_eq!(text, "");
    let mut outputs = vec![("stale".to_string(), Stage::Mesh), ("stale".to_string(), Stage::Task)];
    backend.finalize(&mut outputs);
    assert_eq!(
        outputs,
        vec![
            ("#version 410 core\n\nuniform float x;\n\nvoid main() {\n\n}\n".to_string(), Stage::Mesh),
            (String::new(), Stage::Task),
        ]
    );
}

#[test]
fn the_default_back_end_is_a_new_one() {
    let nodes = vec![
        Expression::Builtin(Builtin { name: "task".to_string(), args: Vec::new() }),
        Expression::Function(FunctionExpression {
            name: "main".to_string(),
            args: Vec::new(),
            return_type: "void".to_string(),
            body: TranslatableExpression { expressions: Vec::new() },
        }),
    ];
    let mut backend = OpenGLBackend::default();
    assert_eq!(only(&compile(&nodes, &mut backend).unwrap(), Stage::Task), EMPTY_MAIN);
}

#[test]
fn an_annotation_decorates_one_declaration() {
    let outputs = built(
        "@uniform float a; float b; @opengl(renamed) @uniform float c; @uniform float d; @vertex func main() -> void { }",
    );
    assert_eq!(
        only(&outputs, Stage::Vertex),
        "#version 410 core\n\nuniform float a;\nuniform float renamed;\nuniform float d;\n\nfloat b;\n\nvoid main() {\n\n}\n"
    );
}

#[test]
fn a_plain_global_takes_the_name_and_the_glsl_type() {
    let outputs = built(
        "@opengl(renamed) const float c = 2.0; @opengl k_tint Color tint; Texture2D plain; float d; @vertex func main() -> void { }",
    );
    assert_eq!(
        only(&outputs, Stage::Vertex),
        "#version 410 core\n\nconst float renamed = 2.0;\nvec4 k_tint;\nsampler2D plain;\nfloat d;\n\nvoid main() {\n\n}\n"
    );
}

#[test]
fn stage_annotations_are_consumed_by_the_next_struct() {
    let outputs = built(
        "@stage(vertex, in) struct A { vec3 p; } struct B { vec2 q; } @vertex func main() -> void { }",
    );
    let vertex = only(&outputs, Stage::Vertex);
    assert_eq!(vertex.matches("layout(location").count(), 1);
    assert!(vertex.contains("layout(location = 0) in vec3 a_p;"));
}

#[test]
fn an_annotation_without_a_declaration_stays_waiting() {
    let outputs = built("@uniform @vertex func main() -> void { } float late;");
    assert_eq!(
        only(&outputs, Stage::Vertex),
        "#version 410 core\n\nuniform float late;\n\nvoid main() {\n\n}\n"
    );
}

#[test]
fn stage_local_symbols_are_rewritten_in_their_stage() {
    let outputs = built(
        "@vertex func main() -> void { @position = vec4(p, 1.0); @fragDepth = 0.5; } @fragment func main() -> void { @fragDepth = @fragCoordinates.z; }",
    );
    assert_eq!(
        shader(&outputs, Stage::Vertex),
        "#version 410 core\n\nvoid main() {\n    gl_Position = vec4(p, 1.0);\n    @fragDepth = 0.5;\n}\n"
    );
    assert_eq!(
        shader(&outputs, Stage::Fragment),
        "#version 410 core\n\nvoid main() {\n    gl_FragDepth = gl_FragCoord . z;\n}\n"
    );
}

#[test]
fn helpers_rewrite_no_stage_local_symbol() {
    let outputs = built("func h() -> void { @position = p; } @vertex func main() -> void { }");
    assert!(shader(&outputs, Stage::Vertex).contains("    @position = p;\n"));
}

fn entry(backend: &mut OpenGLBackend, stage_name: &str, stage: Stage) -> String {
    backend.run_builtin(&Builtin { name: stage_name.to_string(), args: Vec::new() }).unwrap();
    backend.run_function(&FunctionExpression {
        name: "main".to_string(),
        args: Vec::new(),
        return_type: "void".to_string(),
        body: TranslatableExpression { expressions: Vec::new() },
    });
    let mut outputs = vec![(String::new(), stage)];
    backend.finalize(&mut outputs);
    outputs.remove(0).0
}

#[test]
fn a_uniform_declaration_is_kept_once() {
    let mut backend = OpenGLBackend::new();
    backend.push_uniform_decl("uniform float a;".to_string());
    backend.push_uniform_decl("uniform float b;".to_string());
    backend.push_uniform_decl("uniform float a;".to_string());
    backend.push_uniform_decl("uniform float c;".to_string());
    backend.push_uniform_decl("uniform float b;".to_string());
    assert_eq!(
        entry(&mut backend, "vertex", Stage::Vertex),
        "#version 410 core\n\nuniform float a;\nuniform float b;\nuniform float c;\n\nvoid main() {\n\n}\n"
    );
}

#[test]
fn a_registered_struct_gives_both_stages_matching_declarations() {
    let info = StructInfo {
        fields: vec![
            StructField { typ: "vec3".to_string(), name: "color".to_string(), array_suffix: None },
            StructField { typ: "Color".to_string(), name: "tint".to_string(), array_suffix: None },
        ],
        alignment: None,
    };
    let stages = vec![
        StageAnnotation { stage: Stage::Vertex, io: StageIO::Out },
        StageAnnotation { stage: Stage::Fragment, io: StageIO::In },
        StageAnnotation { stage: Stage::Vertex, io: StageIO::Out },
    ];
    let mut backend = OpenGLBackend::new();
    backend.register_stage_struct("VOut", &info, &stages);
    let vertex = entry(&mut backend, "vertex", Stage::Vertex);
    let fragment = entry(&mut backend, "fragment", Stage::Fragment);
    assert_eq!(
        vertex,
        "#version 410 core\n\nlayout(location = 0) out vec3 v_color;\nlayout(location = 1) out vec4 v_tint;\n\nvoid main() {\n\n}\n"
    );
    assert_eq!(fragment, vertex.replace(" out ", " in "));
}

#[test]
fn words_of_a_block_built_by_hand_go_to_the_builtin_before_it() {
    let main = || {
        Expression::Function(FunctionExpression {
            name: "main".to_string(),
            args: Vec::new(),
            return_type: "void".to_string(),
            body: TranslatableExpression { expressions: Vec::new() },
        })
    };
    let nodes = vec![
        Expression::Use(UseExpression { module: "hana::raytracing".to_string() }),
        Expression::Builtin(Builtin { name: "raytracing".to_string(), args: Vec::new() }),
        Expression::Translatable(TranslatableExpression { expressions: words(&["generation"]) }),
        main(),
    ];
    let mut backend = OpenGLBackend::new();
    let outputs = compile(&nodes, &mut backend).unwrap();
    assert_eq!(only(&outputs, Stage::RaytracingGeneration), EMPTY_MAIN);
    let nodes = vec![
        Expression::Builtin(Builtin { name: "output".to_string(), args: Vec::new() }),
        Expression::Translatable(TranslatableExpression {
            expressions: words(&["0", "vec4", "fragColor", ";"]),
        }),
        Expression::Builtin(Builtin { name: "fragment".to_string(), args: Vec::new() }),
        main(),
    ];
    let mut backend = OpenGLBackend::new();
    let outputs = compile(&nodes, &mut backend).unwrap();
    assert_eq!(
        only(&outputs, Stage::Fragment),
        "#version 410 core\n\nlayout(location = 0) out vec4 fragColor;\n\nvoid main() {\n\n}\n"
    );
}

#[test]
fn a_fragment_stage_without_an_input_block_takes_the_vertex_outputs() {
    let outputs = built(
        "@stage(vertex, out) struct VOut { vec3 color; } @fragment func main(VOut v) -> void { color = v.color; }",
    );
    assert_eq!(
        only(&outputs, Stage::Fragment),
        "#version 410 core\n\nstruct VOut {\n    vec3 color;\n};\n\nlayout(location = 0) in vec3 v_color;\n\nvoid main() {\n    color = v_color;\n}\n"
    );
    let outputs = built(
        "@stage(vertex, out) struct VOut { vec3 color; vec2 uv; } @vertex func main() -> void { VOut o; o.uv = t; } @fragment func main(VOut v) -> void { c = v.uv; }",
    );
    let vertex = shader(&outputs, Stage::Vertex);
    let fragment = shader(&outputs, Stage::Fragment);
    assert!(vertex.contains("layout(location = 0) out vec3 v_color;\nlayout(location = 1) out vec2 v_uv;\n"));
    assert!(fragment.contains("layout(location = 0) in vec3 v_color;\nlayout(location = 1) in vec2 v_uv;\n"));
    assert!(vertex.contains("    v_uv = t;\n"));
    assert!(fragment.contains("    c = v_uv;\n"));
}
