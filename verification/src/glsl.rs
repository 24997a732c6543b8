//! The GLSL vocabulary of the code generator: type names, the names of
//! stage-local symbols, and the spacing of lexemes.
use crate::backend::Stage;
use crate::text::{push_chars, str_eq, string_from_chars, texts};
use vstd::prelude::*;
use vstd::string::*;

verus! {

/// The text of an optional string literal.
pub open spec fn static_text(s: Option<&'static str>) -> Option<Seq<char>> {
    match s {
        Some(text) => Some(text@),
        None => None,
    }
}

/// The GLSL type that a source type is written as.
pub open spec fn glsl_type(t: Seq<char>) -> Seq<char> {
    if t == "Texture"@ || t == "Texture2D"@ {
        "sampler2D"@
    } else if t == "TextureCube"@ {
        "samplerCube"@
    } else if t == "Texture3D"@ {
        "sampler3D"@
    } else if t == "Color"@ {
        "vec4"@
    } else {
        t
    }
}

/// The GLSL type that the source type `hana_type` is written as.
pub fn map_type(hana_type: &str) -> (r: String)
    ensures
        r@ == glsl_type(hana_type@),
{
    if str_eq(hana_type, "Texture") || str_eq(hana_type, "Texture2D") {
        String::from_str("sampler2D")
    } else if str_eq(hana_type, "TextureCube") {
        String::from_str("samplerCube")
    } else if str_eq(hana_type, "Texture3D") {
        String::from_str("sampler3D")
    } else if str_eq(hana_type, "Color") {
        String::from_str("vec4")
    } else {
        String::from_str(hana_type)
    }
}

/// The scalar types, whose fields a transformed uniform block leaves as they are.
pub open spec fn is_scalar(t: Seq<char>) -> bool {
    t == "int"@ || t == "uint"@ || t == "float"@ || t == "double"@ || t == "bool"@
}

/// Whether `typ` is a scalar type.
pub fn is_scalar_type(typ: &str) -> (r: bool)
    ensures
        r == is_scalar(typ@),
{
    str_eq(typ, "int") || str_eq(typ, "uint") || str_eq(typ, "float") || str_eq(typ, "double")
        || str_eq(typ, "bool")
}

/// The white space in front of a line at the given depth: four spaces a level.
pub open spec fn indentation(levels: nat) -> Seq<char>
    decreases levels,
{
    if levels == 0 {
        Seq::empty()
    } else {
        indentation((levels - 1) as nat) + "    "@
    }
}

/// Appends the indentation of depth `indent` to `buf`.
pub fn write_indent(buf: &mut Vec<char>, indent: usize)
    ensures
        final(buf)@ == old(buf)@ + indentation(indent as nat),
{
    let mut i: usize = 0;
    assert(buf@ =~= old(buf)@ + indentation(0));
    while i < indent
        invariant
            i <= indent,
            buf@ == old(buf)@ + indentation(i as nat),
        decreases indent - i,
    {
        push_chars(buf, "    ");
        assert(buf@ =~= old(buf)@ + indentation((i + 1) as nat));
        i += 1;
    }
}

/// The stage-local symbols of the vertex stage.
pub open spec fn vertex_symbol(symbol: Seq<char>) -> Option<Seq<char>> {
    if symbol == "@position"@ {
        Some("gl_Position"@)
    } else if symbol == "@pointSize"@ {
        Some("gl_PointSize"@)
    } else if symbol == "@instanceId"@ {
        Some("gl_InstanceID"@)
    } else if symbol == "@vertexId"@ {
        Some("gl_VertexID"@)
    } else if symbol == "@drawId"@ {
        Some("gl_DrawID"@)
    } else {
        None
    }
}

/// The GLSL name of a stage-local symbol of the vertex stage.
fn map_vertex_variable(symbol: &str) -> (r: Option<&'static str>)
    ensures
        static_text(r) == vertex_symbol(symbol@),
{
    if str_eq(symbol, "@position") {
        Some("gl_Position")
    } else if str_eq(symbol, "@pointSize") {
        Some("gl_PointSize")
    } else if str_eq(symbol, "@instanceId") {
        Some("gl_InstanceID")
    } else if str_eq(symbol, "@vertexId") {
        Some("gl_VertexID")
    } else if str_eq(symbol, "@drawId") {
        Some("gl_DrawID")
    } else {
        None
    }
}

/// The stage-local symbols of the fragment stage.
pub open spec fn fragment_symbol(symbol: Seq<char>) -> Option<Seq<char>> {
    if symbol == "@fragCoordinates"@ {
        Some("gl_FragCoord"@)
    } else if symbol == "@frontFacing"@ {
        Some("gl_FrontFacing"@)
    } else if symbol == "@pointCoordinates"@ {
        Some("gl_PointCoord"@)
    } else if symbol == "@sampleId"@ {
        Some("gl_SampleID"@)
    } else if symbol == "@samplePosition"@ {
        Some("gl_SamplePosition"@)
    } else if symbol == "@sampleMask"@ {
        Some("gl_SampleMask"@)
    } else if symbol == "@sampleMaskIn"@ {
        Some("gl_SampleMaskIn"@)
    } else if symbol == "@fragDepth"@ {
        Some("gl_FragDepth"@)
    } else if symbol == "@primitiveId"@ {
        Some("gl_PrimitiveID"@)
    } else {
        None
    }
}

/// The GLSL name of a stage-local symbol of the fragment stage.
fn map_fragment_variable(symbol: &str) -> (r: Option<&'static str>)
    ensures
        static_text(r) == fragment_symbol(symbol@),
{
    if str_eq(symbol, "@fragCoordinates") {
        Some("gl_FragCoord")
    } else if str_eq(symbol, "@frontFacing") {
        Some("gl_FrontFacing")
    } else if str_eq(symbol, "@pointCoordinates") {
        Some("gl_PointCoord")
    } else if str_eq(symbol, "@sampleId") {
        Some("gl_SampleID")
    } else if str_eq(symbol, "@samplePosition") {
        Some("gl_SamplePosition")
    } else if str_eq(symbol, "@sampleMask") {
        Some("gl_SampleMask")
    } else if str_eq(symbol, "@sampleMaskIn") {
        Some("gl_SampleMaskIn")
    } else if str_eq(symbol, "@fragDepth") {
        Some("gl_FragDepth")
    } else if str_eq(symbol, "@primitiveId") {
        Some("gl_PrimitiveID")
    } else {
        None
    }
}

/// The stage-local symbols of the compute stage.
pub open spec fn compute_symbol(symbol: Seq<char>) -> Option<Seq<char>> {
    if symbol == "@localInvocationId"@ {
        Some("gl_LocalInvocationID"@)
    } else if symbol == "@globalInvocationId"@ {
        Some("gl_GlobalInvocationID"@)
    } else if symbol == "@workgroupId"@ {
        Some("gl_WorkGroupID"@)
    } else if symbol == "@numWorkgroups"@ {
        Some("gl_NumWorkGroups"@)
    } else if symbol == "@localInvocationIndex"@ {
        Some("gl_LocalInvocationIndex"@)
    } else {
        None
    }
}

/// The GLSL name of a stage-local symbol of the compute stage.
fn map_compute_variable(symbol: &str) -> (r: Option<&'static str>)
    ensures
        static_text(r) == compute_symbol(symbol@),
{
    if str_eq(symbol, "@localInvocationId") {
        Some("gl_LocalInvocationID")
    } else if str_eq(symbol, "@globalInvocationId") {
        Some("gl_GlobalInvocationID")
    } else if str_eq(symbol, "@workgroupId") {
        Some("gl_WorkGroupID")
    } else if str_eq(symbol, "@numWorkgroups") {
        Some("gl_NumWorkGroups")
    } else if str_eq(symbol, "@localInvocationIndex") {
        Some("gl_LocalInvocationIndex")
    } else {
        None
    }
}

/// The stage-local symbols of the tessellation control stage.
pub open spec fn tessellation_control_symbol(symbol: Seq<char>) -> Option<Seq<char>> {
    if symbol == "@invocationId"@ {
        Some("gl_InvocationID"@)
    } else if symbol == "@in"@ {
        Some("gl_in"@)
    } else if symbol == "@out"@ {
        Some("gl_out"@)
    } else if symbol == "@tessLevelOuter"@ {
        Some("gl_TessLevelOuter"@)
    } else if symbol == "@tessLevelInner"@ {
        Some("gl_TessLevelInner"@)
    } else if symbol == "@primitiveId"@ {
        Some("gl_PrimitiveID"@)
    } else {
        None
    }
}

/// The GLSL name of a stage-local symbol of the tessellation control stage.
fn map_tessellation_control_variable(symbol: &str) -> (r: Option<&'static str>)
    ensures
        static_text(r) == tessellation_control_symbol(symbol@),
{
    if str_eq(symbol, "@invocationId") {
        Some("gl_InvocationID")
    } else if str_eq(symbol, "@in") {
        Some("gl_in")
    } else if str_eq(symbol, "@out") {
        Some("gl_out")
    } else if str_eq(symbol, "@tessLevelOuter") {
        Some("gl_TessLevelOuter")
    } else if str_eq(symbol, "@tessLevelInner") {
        Some("gl_TessLevelInner")
    } else if str_eq(symbol, "@primitiveId") {
        Some("gl_PrimitiveID")
    } else {
        None
    }
}

/// The stage-local symbols of the tessellation evaluation stage.
pub open spec fn tessellation_evaluation_symbol(symbol: Seq<char>) -> Option<Seq<char>> {
    if symbol == "@tessCoord"@ {
        Some("gl_TessCoord"@)
    } else if symbol == "@in"@ {
        Some("gl_in"@)
    } else if symbol == "@primitiveId"@ {
        Some("gl_PrimitiveID"@)
    } else if symbol == "@position"@ {
        Some("gl_Position"@)
    } else {
        None
    }
}

/// The GLSL name of a stage-local symbol of the tessellation evaluation stage.
fn map_tessellation_evaluation_variable(symbol: &str) -> (r: Option<&'static str>)
    ensures
        static_text(r) == tessellation_evaluation_symbol(symbol@),
{
    if str_eq(symbol, "@tessCoord") {
        Some("gl_TessCoord")
    } else if str_eq(symbol, "@in") {
        Some("gl_in")
    } else if str_eq(symbol, "@primitiveId") {
        Some("gl_PrimitiveID")
    } else if str_eq(symbol, "@position") {
        Some("gl_Position")
    } else {
        None
    }
}

/// The stage-local symbols of the geometry stage.
pub open spec fn geometry_symbol(symbol: Seq<char>) -> Option<Seq<char>> {
    if symbol == "@in"@ {
        Some("gl_in"@)
    } else if symbol == "@emitVertex"@ {
        Some("EmitVertex"@)
    } else if symbol == "@endPrimitive"@ {
        Some("EndPrimitive"@)
    } else if symbol == "@primitiveIdIn"@ {
        Some("gl_PrimitiveIDIn"@)
    } else if symbol == "@primitiveId"@ {
        Some("gl_PrimitiveID"@)
    } else if symbol == "@layer"@ {
        Some("gl_Layer"@)
    } else if symbol == "@viewportIndex"@ {
        Some("gl_ViewportIndex"@)
    } else {
        None
    }
}

/// The GLSL name of a stage-local symbol of the geometry stage.
fn map_geometry_variable(symbol: &str) -> (r: Option<&'static str>)
    ensures
        static_text(r) == geometry_symbol(symbol@),
{
    if str_eq(symbol, "@in") {
        Some("gl_in")
    } else if str_eq(symbol, "@emitVertex") {
        Some("EmitVertex")
    } else if str_eq(symbol, "@endPrimitive") {
        Some("EndPrimitive")
    } else if str_eq(symbol, "@primitiveIdIn") {
        Some("gl_PrimitiveIDIn")
    } else if str_eq(symbol, "@primitiveId") {
        Some("gl_PrimitiveID")
    } else if str_eq(symbol, "@layer") {
        Some("gl_Layer")
    } else if str_eq(symbol, "@viewportIndex") {
        Some("gl_ViewportIndex")
    } else {
        None
    }
}

/// The stage-local symbols of the mesh stage.
pub open spec fn mesh_symbol(symbol: Seq<char>) -> Option<Seq<char>> {
    if symbol == "@meshVertices"@ {
        Some("gl_MeshVerticesNV"@)
    } else if symbol == "@meshPrimitives"@ {
        Some("gl_MeshPrimitivesNV"@)
    } else if symbol == "@taskCount"@ {
        Some("gl_TaskCountNV"@)
    } else if symbol == "@workgroupId"@ {
        Some("gl_WorkGroupID"@)
    } else if symbol == "@localInvocationId"@ {
        Some("gl_LocalInvocationID"@)
    } else {
        None
    }
}

/// The GLSL name of a stage-local symbol of the mesh stage.
fn map_mesh_variable(symbol: &str) -> (r: Option<&'static str>)
    ensures
        static_text(r) == mesh_symbol(symbol@),
{
    if str_eq(symbol, "@meshVertices") {
        Some("gl_MeshVerticesNV")
    } else if str_eq(symbol, "@meshPrimitives") {
        Some("gl_MeshPrimitivesNV")
    } else if str_eq(symbol, "@taskCount") {
        Some("gl_TaskCountNV")
    } else if str_eq(symbol, "@workgroupId") {
        Some("gl_WorkGroupID")
    } else if str_eq(symbol, "@localInvocationId") {
        Some("gl_LocalInvocationID")
    } else {
        None
    }
}

/// The stage-local symbols of the task stage.
pub open spec fn task_symbol(symbol: Seq<char>) -> Option<Seq<char>> {
    if symbol == "@taskCount"@ {
        Some("gl_TaskCountNV"@)
    } else if symbol == "@workgroupId"@ {
        Some("gl_WorkGroupID"@)
    } else if symbol == "@localInvocationId"@ {
        Some("gl_LocalInvocationID"@)
    } else {
        None
    }
}

/// The GLSL name of a stage-local symbol of the task stage.
fn map_task_variable(symbol: &str) -> (r: Option<&'static str>)
    ensures
        static_text(r) == task_symbol(symbol@),
{
    if str_eq(symbol, "@taskCount") {
        Some("gl_TaskCountNV")
    } else if str_eq(symbol, "@workgroupId") {
        Some("gl_WorkGroupID")
    } else if str_eq(symbol, "@localInvocationId") {
        Some("gl_LocalInvocationID")
    } else {
        None
    }
}

/// The stage-local symbols of the raytracing stages.
pub open spec fn raytracing_symbol(symbol: Seq<char>) -> Option<Seq<char>> {
    if symbol == "@rayOrigin"@ {
        Some("gl_WorldRayOriginNV"@)
    } else if symbol == "@rayDirection"@ {
        Some("gl_WorldRayDirectionNV"@)
    } else if symbol == "@hitT"@ {
        Some("gl_HitTNV"@)
    } else if symbol == "@launchId"@ {
        Some("gl_LaunchIDNV"@)
    } else if symbol == "@launchSize"@ {
        Some("gl_LaunchSizeNV"@)
    } else if symbol == "@primitiveId"@ {
        Some("gl_PrimitiveID"@)
    } else if symbol == "@instanceId"@ {
        Some("gl_InstanceID"@)
    } else if symbol == "@geometryId"@ {
        Some("gl_GeometryIndexEXT"@)
    } else if symbol == "@hitKind"@ {
        Some("gl_HitKindNV"@)
    } else if symbol == "@missIndex"@ {
        Some("gl_MissIndexNV"@)
    } else {
        None
    }
}

/// The GLSL name of a stage-local symbol of the raytracing stages.
fn map_raytracing_variable(symbol: &str) -> (r: Option<&'static str>)
    ensures
        static_text(r) == raytracing_symbol(symbol@),
{
    if str_eq(symbol, "@rayOrigin") {
        Some("gl_WorldRayOriginNV")
    } else if str_eq(symbol, "@rayDirection") {
        Some("gl_WorldRayDirectionNV")
    } else if str_eq(symbol, "@hitT") {
        Some("gl_HitTNV")
    } else if str_eq(symbol, "@launchId") {
        Some("gl_LaunchIDNV")
    } else if str_eq(symbol, "@launchSize") {
        Some("gl_LaunchSizeNV")
    } else if str_eq(symbol, "@primitiveId") {
        Some("gl_PrimitiveID")
    } else if str_eq(symbol, "@instanceId") {
        Some("gl_InstanceID")
    } else if str_eq(symbol, "@geometryId") {
        Some("gl_GeometryIndexEXT")
    } else if str_eq(symbol, "@hitKind") {
        Some("gl_HitKindNV")
    } else if str_eq(symbol, "@missIndex") {
        Some("gl_MissIndexNV")
    } else {
        None
    }
}

/// The GLSL name that a stage-local symbol stands for in `stage`, if it is one there.
pub open spec fn stage_symbol(stage: Stage, symbol: Seq<char>) -> Option<Seq<char>> {
    match stage {
        Stage::Vertex => vertex_symbol(symbol),
        Stage::Fragment => fragment_symbol(symbol),
        Stage::Compute => compute_symbol(symbol),
        Stage::TessellationControl => tessellation_control_symbol(symbol),
        Stage::TessellationEvaluation => tessellation_evaluation_symbol(symbol),
        Stage::Geometry => geometry_symbol(symbol),
        Stage::Mesh => mesh_symbol(symbol),
        Stage::Task => task_symbol(symbol),
        Stage::RaytracingGeneration
        | Stage::RaytracingClosest
        | Stage::RaytracingAny
        | Stage::RaytracingMiss
        | Stage::RaytracingIntersection
        | Stage::RaytracingCallable => raytracing_symbol(symbol),
        _ => None,
    }
}

/// The GLSL name that `symbol` stands for in `stage`, if it is a stage-local symbol there.
pub fn map_stage_variable(stage: Stage, symbol: &str) -> (r: Option<&'static str>)
    ensures
        static_text(r) == stage_symbol(stage, symbol@),
{
    match stage {
        Stage::Vertex => map_vertex_variable(symbol),
        Stage::Fragment => map_fragment_variable(symbol),
        Stage::Compute => map_compute_variable(symbol),
        Stage::TessellationControl => map_tessellation_control_variable(symbol),
        Stage::TessellationEvaluation => map_tessellation_evaluation_variable(symbol),
        Stage::Geometry => map_geometry_variable(symbol),
        Stage::Mesh => map_mesh_variable(symbol),
        Stage::Task => map_task_variable(symbol),
        Stage::RaytracingGeneration
        | Stage::RaytracingClosest
        | Stage::RaytracingAny
        | Stage::RaytracingMiss
        | Stage::RaytracingIntersection
        | Stage::RaytracingCallable => map_raytracing_variable(symbol),
        _ => None,
    }
}

/// The lexemes that are written without a space in front of them.
pub open spec fn is_tight(t: Seq<char>) -> bool {
    t == ","@ || t == "."@ || t == "("@ || t == ")"@ || t == "["@ || t == "]"@
}

/// Whether `t` is written without a space in front of it.
pub fn is_tight_token(t: &str) -> (r: bool)
    ensures
        r == is_tight(t@),
{
    str_eq(t, ",") || str_eq(t, ".") || str_eq(t, "(") || str_eq(t, ")") || str_eq(t, "[")
        || str_eq(t, "]")
}

/// Whether the text ends in a space, a newline, `(`, `[` or `,`.
pub open spec fn ends_joint(out: Seq<char>) -> bool {
    out.len() > 0 && (out.last() == ' ' || out.last() == '\n' || out.last() == '('
        || out.last() == '[' || out.last() == ',')
}

/// Whether the text ends in a space, a newline or `(`.
pub open spec fn ends_open(out: Seq<char>) -> bool {
    out.len() > 0 && (out.last() == ' ' || out.last() == '\n' || out.last() == '(')
}

/// Whether the text ends in a space, a newline, `(` or `[`.
pub open spec fn ends_bracket(out: Seq<char>) -> bool {
    out.len() > 0 && (out.last() == ' ' || out.last() == '\n' || out.last() == '('
        || out.last() == '[')
}

/// The text with one more lexeme of an expression: a space comes before the
/// lexeme unless the lexeme is tight, the text is empty, or the text ends in
/// a space, a newline, `(`, `[` or `,`.
pub open spec fn join_step(out: Seq<char>, t: Seq<char>) -> Seq<char> {
    if is_tight(t) || out.len() == 0 || ends_joint(out) {
        out + t
    } else {
        out.push(' ') + t
    }
}

/// The lexemes of an expression written as one text.
pub open spec fn joined_tokens(tokens: Seq<Seq<char>>) -> Seq<char>
    decreases tokens.len(),
{
    if tokens.len() == 0 {
        Seq::empty()
    } else {
        join_step(joined_tokens(tokens.drop_last()), tokens.last())
    }
}

/// The lexemes of an expression written as one text.
pub fn join_tokens(tokens: &Vec<String>) -> (r: String)
    ensures
        r@ == joined_tokens(texts(tokens@)),
{
    let mut out: Vec<char> = Vec::new();
    let mut i: usize = 0;
    assert(texts(tokens@.subrange(0, 0)) =~= Seq::<Seq<char>>::empty());
    while i < tokens.len()
        invariant
            i <= tokens.len(),
            out@ == joined_tokens(texts(tokens@.subrange(0, i as int))),
        decreases tokens.len() - i,
    {
        let ghost taken = texts(tokens@.subrange(0, i + 1));
        assert(taken.drop_last() =~= texts(tokens@.subrange(0, i as int)));
        assert(taken.last() == tokens@[i as int]@);
        let token = tokens[i].as_str();
        if !is_tight_token(token) && out.len() > 0 {
            let last = out[out.len() - 1];
            if !(last == ' ' || last == '\n' || last == '(' || last == '[' || last == ',') {
                out.push(' ');
            }
        }
        push_chars(&mut out, token);
        i += 1;
    }
    assert(tokens@.subrange(0, i as int) =~= tokens@);
    string_from_chars(&out)
}

} // verus!
