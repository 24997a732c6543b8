//! The OpenGL back-end as mathematics: its state, and what each node of a
//! program does to it.
use crate::annotations::{
    amended, consumed, output_location, parse_u32, parse_usize, stage_annotations, stage_of,
    transform_of, uniform_of, waiting, without_stage_annotations, AnnotationKind,
    AnnotationView, Awaited, BufferAnnotation, OutputAnnotation, StageAnnotation, StageIO,
    TransformView,
};
use crate::backend::{Answer, Slots, Stage};
use crate::body::{
    find_text, formatted_body, function_args, lemma_find_text_bounds, param_of_type,
    struct_variable, ContextView, LinkView,
};
use crate::error::ErrorView;
use crate::glsl::{glsl_type, is_scalar};
use crate::parser::{contents, BuiltinView, FunctionView};
use crate::structs::{
    find_brace, io_decls, lemma_find_brace_bounds, lemma_struct_fields_bounds, linked,
    parsed_struct, struct_definition, suffix_text, StructFieldView, StructInfoView, StructParse,
};
use crate::text::{concat, decimal, join};
use vstd::prelude::*;

verus! {

/// The state of the OpenGL back-end.
pub struct BackendState {
    /// The modules imported so far, each once.
    pub include_paths: Seq<Seq<char>>,
    /// The annotations that wait for the next declaration.
    pub pending_annotations: Seq<AnnotationView>,
    /// The `#version` line, once `@hana` has set it.
    pub version_directive: Option<Seq<char>>,
    /// The structs declared so far, by name.
    pub structs: Map<Seq<char>, StructInfoView>,
    /// The definitions of the structs, in order.
    pub global_struct_decls: Seq<Seq<char>>,
    /// The plain global declarations, in order.
    pub global_decls: Seq<Seq<char>>,
    /// The uniform declarations, in order, each once.
    pub uniform_decls: Seq<Seq<char>>,
    /// The name of the input block of the vertex stage.
    pub vertex_input_struct: Option<Seq<char>>,
    /// The declarations of the inputs of the vertex stage.
    pub vertex_input_decls: Seq<Seq<char>>,
    /// The identifier of each field of the vertex input block.
    pub vertex_input_map: Map<Seq<char>, Seq<char>>,
    /// The name of the output block of the vertex stage.
    pub vertex_output_struct: Option<Seq<char>>,
    /// The declarations of the outputs of the vertex stage.
    pub vertex_output_decls: Seq<Seq<char>>,
    /// The identifier of each field of the vertex output block.
    pub vertex_output_map: Map<Seq<char>, Seq<char>>,
    /// The declarations with which the fragment stage takes in the outputs
    /// of the vertex stage, where it has no input block of its own.
    pub varying_decls: Seq<Seq<char>>,
    /// The name of the input block of the fragment stage.
    pub fragment_input_struct: Option<Seq<char>>,
    /// The declarations of the inputs of the fragment stage.
    pub fragment_input_decls: Seq<Seq<char>>,
    /// The identifier of each field that the fragment stage takes in.
    pub fragment_input_map: Map<Seq<char>, Seq<char>>,
    /// The declarations of the outputs of the fragment stage.
    pub fragment_output_decls: Seq<Seq<char>>,
    /// The helper functions, written out, in order.
    pub helper_functions: Seq<Seq<char>>,
    /// The entry function of each stage that has one.
    pub stage_functions: Map<Stage, FunctionView>,
    /// The stage that the next function is the entry of; `All` for a helper.
    pub current_function_stage: Stage,
    /// The builtin without parentheses that the last node was, if it was
    /// one: the words at the start of the next block are its arguments.
    pub awaiting: Option<Awaited>,
}

/// The state at the start of a compilation.
pub open spec fn initial_state() -> BackendState {
    BackendState {
        include_paths: Seq::empty(),
        pending_annotations: Seq::empty(),
        version_directive: None,
        structs: Map::empty(),
        global_struct_decls: Seq::empty(),
        global_decls: Seq::empty(),
        uniform_decls: Seq::empty(),
        vertex_input_struct: None,
        vertex_input_decls: Seq::empty(),
        vertex_input_map: Map::empty(),
        vertex_output_struct: None,
        vertex_output_decls: Seq::empty(),
        vertex_output_map: Map::empty(),
        varying_decls: Seq::empty(),
        fragment_input_struct: None,
        fragment_input_decls: Seq::empty(),
        fragment_input_map: Map::empty(),
        fragment_output_decls: Seq::empty(),
        helper_functions: Seq::empty(),
        stage_functions: Map::empty(),
        current_function_stage: Stage::All,
        awaiting: None,
    }
}

/// The identifier that a field of the vertex output block, and of whatever
/// the fragment stage takes in, is written as.
pub open spec fn varying_name(field: Seq<char>) -> Seq<char> {
    "v_"@ + field
}

/// Vertex outputs and fragment inputs are linked: every field that the
/// vertex stage hands on is known to the fragment stage, and both stages
/// write it as the same identifier, `v_` and the name of the field.
pub open spec fn stages_linked(s: BackendState) -> bool {
    &&& forall|f: Seq<char>| #[trigger]
        s.vertex_output_map.contains_key(f) ==> s.vertex_output_map[f] == varying_name(f)
            && s.fragment_input_map.contains_key(f)
    &&& forall|f: Seq<char>| #[trigger]
        s.fragment_input_map.contains_key(f) ==> s.fragment_input_map[f] == varying_name(f)
}

/// The invariant of the back-end: no uniform declaration occurs twice, and
/// the stages are linked.
pub open spec fn coherent(s: BackendState) -> bool {
    &&& s.uniform_decls.no_duplicates()
    &&& stages_linked(s)
}

/// The state with one more annotation waiting.
pub open spec fn with_annotation(s: BackendState, a: AnnotationView) -> BackendState {
    BackendState { pending_annotations: s.pending_annotations.push(a), ..s }
}

/// The state with another list of waiting annotations.
pub open spec fn with_pending(s: BackendState, pending: Seq<AnnotationView>) -> BackendState {
    BackendState { pending_annotations: pending, ..s }
}

/// The uniform declarations with `decl` among them: added at the end
/// unless it is there already.
pub open spec fn with_uniform(decls: Seq<Seq<char>>, decl: Seq<char>) -> Seq<Seq<char>> {
    if decls.contains(decl) {
        decls
    } else {
        decls.push(decl)
    }
}

/// The state after `ann` registers the struct `name` as a stage block. The
/// first block registered for a place stays; the fields of a vertex output
/// block are also linked into what the fragment stage takes in, and
/// declared as inputs for a fragment stage that has no input block of its
/// own.
pub open spec fn registered_one(
    s: BackendState,
    name: Seq<char>,
    info: StructInfoView,
    ann: StageAnnotation,
) -> BackendState {
    if ann.stage == Stage::Vertex && ann.io == StageIO::In {
        if s.vertex_input_struct is Some {
            s
        } else {
            BackendState {
                vertex_input_struct: Some(name),
                vertex_input_decls: s.vertex_input_decls + io_decls(info.fields, "in"@, "a_"@),
                vertex_input_map: linked(s.vertex_input_map, info.fields, "a_"@),
                ..s
            }
        }
    } else if ann.stage == Stage::Vertex && ann.io == StageIO::Out {
        if s.vertex_output_struct is Some {
            s
        } else {
            BackendState {
                vertex_output_struct: Some(name),
                vertex_output_decls: s.vertex_output_decls + io_decls(info.fields, "out"@, "v_"@),
                vertex_output_map: linked(s.vertex_output_map, info.fields, "v_"@),
                varying_decls: s.varying_decls + io_decls(info.fields, "in"@, "v_"@),
                fragment_input_map: linked(s.fragment_input_map, info.fields, "v_"@),
                ..s
            }
        }
    } else if ann.stage == Stage::Fragment && ann.io == StageIO::In {
        if s.fragment_input_struct is Some {
            s
        } else {
            BackendState {
                fragment_input_struct: Some(name),
                fragment_input_decls: s.fragment_input_decls + io_decls(
                    info.fields,
                    "in"@,
                    "v_"@,
                ),
                fragment_input_map: linked(s.fragment_input_map, info.fields, "v_"@),
                ..s
            }
        }
    } else {
        s
    }
}

/// The state after each of `stages`, in order, registers the struct `name`.
pub open spec fn registered(
    s: BackendState,
    name: Seq<char>,
    info: StructInfoView,
    stages: Seq<StageAnnotation>,
) -> BackendState
    decreases stages.len(),
{
    if stages.len() == 0 {
        s
    } else {
        registered_one(registered(s, name, info, stages.drop_last()), name, info, stages.last())
    }
}

/// The layout that a waiting `@align` gives.
pub open spec fn waiting_alignment(pending: Seq<AnnotationView>) -> Option<Seq<char>> {
    match waiting(pending, AnnotationKind::Align) {
        Some(AnnotationView::Align(layout)) => Some(layout),
        _ => None,
    }
}

/// The state after the declaration of the struct `name` with the given
/// fields. The declaration consumes the first waiting `@align` and every
/// waiting `@stage`.
pub open spec fn struct_declared(s: BackendState, name: Seq<char>, fields: Seq<StructFieldView>) -> BackendState {
    let info = StructInfoView { fields, alignment: waiting_alignment(s.pending_annotations) };
    let aligned = consumed(s.pending_annotations, AnnotationKind::Align);
    let placed = registered(
        with_pending(s, without_stage_annotations(aligned)),
        name,
        info,
        stage_annotations(aligned),
    );
    BackendState {
        structs: placed.structs.insert(name, info),
        global_struct_decls: placed.global_struct_decls.push(struct_definition(name, info)),
        ..placed
    }
}

/// Whether the lexeme is set against the one before it in a plain
/// declaration: it starts with `(`, `)`, `,`, `[` or `]`.
pub open spec fn hugs(t: Seq<char>) -> bool {
    t.len() > 0 && (t[0] == '(' || t[0] == ')' || t[0] == ',' || t[0] == '[' || t[0] == ']')
}

/// The lexemes of a plain declaration written as one text, with a space
/// between neighbours unless the second hugs the first.
pub open spec fn spaced(tokens: Seq<Seq<char>>) -> Seq<char>
    decreases tokens.len(),
{
    if tokens.len() == 0 {
        Seq::empty()
    } else if tokens.len() == 1 {
        tokens[0]
    } else if hugs(tokens.last()) {
        spaced(tokens.drop_last()) + tokens.last()
    } else {
        spaced(tokens.drop_last()) + " "@ + tokens.last()
    }
}

/// What the lexemes of a block say at their start, read as a global declaration.
pub enum GlobalParse {
    /// No `;` in the block: nothing is consumed.
    Absent,
    /// Fewer than two lexemes stand between an optional `const` and the
    /// `;`: they are passed over.
    Passed { consumed: int },
    /// A declaration: its type, its name, the lexemes of the whole
    /// declaration up to the `;`, the position of the type among them, and
    /// the number of lexemes consumed.
    Declared { typ: Seq<char>, name: Seq<char>, head: Seq<Seq<char>>, start: int, consumed: int },
}

/// The global declaration that the lexemes start with. It runs to the first
/// `;`; after an optional `const` come the type and then the name, which is
/// everything up to the `;` put together.
pub open spec fn parsed_global(tokens: Seq<Seq<char>>) -> GlobalParse {
    let semicolon = find_text(tokens, 0, ";"@);
    if semicolon >= tokens.len() {
        GlobalParse::Absent
    } else {
        let start: int = if tokens[0] == "const"@ {
            1
        } else {
            0
        };
        if start + 1 >= semicolon {
            GlobalParse::Passed { consumed: semicolon + 1 }
        } else {
            GlobalParse::Declared {
                typ: tokens[start],
                name: concat(tokens.subrange(start + 1, semicolon)),
                head: tokens.subrange(0, semicolon),
                start,
                consumed: semicolon + 1,
            }
        }
    }
}

/// The declaration of a fragment output.
pub open spec fn output_decl(location: u32, typ: Seq<char>, name: Seq<char>) -> Seq<char> {
    "layout(location = "@ + decimal(location as nat) + ") out "@ + glsl_type(typ) + " "@ + name
        + ";"@
}

/// The declaration of a plain uniform.
pub open spec fn uniform_decl(typ: Seq<char>, name: Seq<char>) -> Seq<char> {
    "uniform "@ + glsl_type(typ) + " "@ + name + ";"@
}

/// The items of the layout qualifier of a uniform block.
pub open spec fn layout_items(alignment: Option<Seq<char>>, binding: Option<u32>) -> Seq<
    Seq<char>,
> {
    (match alignment {
        Some(layout) => seq![layout],
        None => Seq::empty(),
    }) + (match binding {
        Some(b) => seq!["binding = "@ + decimal(b as nat)],
        None => Seq::empty(),
    })
}

/// The layout qualifier of a uniform block; empty where it has no items.
pub open spec fn layout_prefix(items: Seq<Seq<char>>) -> Seq<char> {
    if items.len() == 0 {
        Seq::empty()
    } else {
        "layout("@ + join(items, ", "@) + ") "@
    }
}

/// The line of a field in a uniform block. With a transform, a field that
/// is not of a scalar type becomes an array of `max` elements.
pub open spec fn block_field_line(f: StructFieldView, max: Option<usize>) -> Seq<char> {
    if max is Some && !is_scalar(f.typ) {
        "    "@ + glsl_type(f.typ) + " "@ + f.name + "["@ + decimal(max->0 as nat) + "];\n"@
    } else {
        "    "@ + glsl_type(f.typ) + " "@ + f.name + suffix_text(f.array_suffix) + ";\n"@
    }
}

/// The name of a uniform block: the one the transform gives, or the name
/// of the instance followed by `_Block`.
pub open spec fn block_name(instance: Seq<char>, transform: Option<TransformView>) -> Seq<char> {
    match transform {
        Some(t) => match t.block_name {
            Some(name) => name,
            None => instance + "_Block"@,
        },
        None => instance + "_Block"@,
    }
}

/// The number of elements that a transform widens fields to.
pub open spec fn block_max(transform: Option<TransformView>) -> Option<usize> {
    match transform {
        Some(t) => Some(t.max_elements),
        None => None,
    }
}

/// The uniform block that wraps a global of struct type.
pub open spec fn uniform_block(
    info: StructInfoView,
    instance: Seq<char>,
    binding: Option<u32>,
    transform: Option<TransformView>,
) -> Seq<char> {
    layout_prefix(layout_items(info.alignment, binding)) + "uniform "@ + block_name(
        instance,
        transform,
    ) + " {\n"@ + concat(
        info.fields.map_values(|f: StructFieldView| block_field_line(f, block_max(transform))),
    ) + "} "@ + instance + ";"@
}

/// The message for a buffer whose type is no declared struct.
pub open spec fn unknown_struct_message(typ: Seq<char>) -> Seq<char> {
    "Struct '"@ + typ + "' not found for buffer declaration."@
}

/// The name that a waiting `@opengl` gives.
pub open spec fn waiting_name(pending: Seq<AnnotationView>) -> Option<Seq<char>> {
    match waiting(pending, AnnotationKind::OpenGLName) {
        Some(AnnotationView::OpenGLName(name)) => Some(name),
        _ => None,
    }
}

/// What a waiting `@output` says.
pub open spec fn waiting_output(pending: Seq<AnnotationView>) -> Option<OutputAnnotation> {
    match waiting(pending, AnnotationKind::Output) {
        Some(AnnotationView::Output(a)) => Some(a),
        _ => None,
    }
}

/// What a waiting `@openglTransformToUniform` says.
pub open spec fn waiting_transform(pending: Seq<AnnotationView>) -> Option<TransformView> {
    match waiting(pending, AnnotationKind::OpenGLTransform) {
        Some(AnnotationView::OpenGLTransform(a)) => Some(a),
        _ => None,
    }
}

/// What a waiting `@buffer` says.
pub open spec fn waiting_buffer(pending: Seq<AnnotationView>) -> Option<BufferAnnotation> {
    match waiting(pending, AnnotationKind::Buffer) {
        Some(AnnotationView::Buffer(a)) => Some(a),
        _ => None,
    }
}

/// The lexemes of a plain global as GLSL takes them: the type, which
/// stands at `start`, is written as its GLSL type, and the lexeme after it
/// gives way to the name that `@opengl` gives, where it gives one.
pub open spec fn plain_lexemes(head: Seq<Seq<char>>, start: int, given: Option<Seq<char>>) -> Seq<
    Seq<char>,
> {
    Seq::new(
        head.len(),
        |i: int|
            if i == start {
                glsl_type(head[i])
            } else if given is Some && i == start + 1 {
                given->0
            } else {
                head[i]
            },
    )
}

/// The text of a plain global.
pub open spec fn plain_line(head: Seq<Seq<char>>, start: int, given: Option<Seq<char>>) -> Seq<
    char,
> {
    spaced(plain_lexemes(head, start, given)) + ";"@
}

/// The state after the declaration of a global of type `typ` named `name`,
/// whose lexemes up to the `;` are `head`, with the type at `start`. The declaration consumes the waiting annotations
/// in this order: the name for GLSL; then `@output`, which makes it a
/// fragment output; else the transform and `@buffer`, which make it a
/// uniform block; else `@push` and `@uniform`, which make it a uniform.
/// Without any of these it is a plain global, which keeps its text but for
/// its type and the name that `@opengl` gives.
pub open spec fn global_declared(
    s: BackendState,
    typ: Seq<char>,
    name: Seq<char>,
    head: Seq<Seq<char>>,
    start: int,
) -> Result<BackendState, ErrorView> {
    let all = s.pending_annotations;
    let glsl_name = match waiting_name(all) {
        Some(given) => given,
        None => name,
    };
    let unnamed = consumed(all, AnnotationKind::OpenGLName);
    if waiting_output(unnamed) is Some {
        Ok(
            BackendState {
                pending_annotations: consumed(unnamed, AnnotationKind::Output),
                fragment_output_decls: s.fragment_output_decls.push(
                    output_decl(waiting_output(unnamed)->0.location, typ, glsl_name),
                ),
                ..s
            },
        )
    } else {
        let transform = waiting_transform(unnamed);
        let unwidened = consumed(unnamed, AnnotationKind::OpenGLTransform);
        if waiting_buffer(unwidened) is Some {
            if s.structs.contains_key(typ) {
                Ok(
                    BackendState {
                        pending_annotations: consumed(unwidened, AnnotationKind::Buffer),
                        uniform_decls: with_uniform(
                            s.uniform_decls,
                            uniform_block(
                                s.structs[typ],
                                glsl_name,
                                waiting_buffer(unwidened)->0.binding,
                                transform,
                            ),
                        ),
                        ..s
                    },
                )
            } else {
                Err(ErrorView::Internal(unknown_struct_message(typ)))
            }
        } else {
            let has_push = waiting(unwidened, AnnotationKind::PushConstant) is Some;
            let unpushed = consumed(unwidened, AnnotationKind::PushConstant);
            let has_uniform = waiting(unpushed, AnnotationKind::Uniform) is Some;
            let rest = consumed(unpushed, AnnotationKind::Uniform);
            if has_push || has_uniform {
                Ok(
                    BackendState {
                        pending_annotations: rest,
                        uniform_decls: with_uniform(s.uniform_decls, uniform_decl(typ, glsl_name)),
                        ..s
                    },
                )
            } else {
                Ok(
                    BackendState {
                        pending_annotations: rest,
                        global_decls: s.global_decls.push(
                            plain_line(head, start, waiting_name(all)),
                        ),
                        ..s
                    },
                )
            }
        }
    }
}

/// The `#version` line that the lexemes after `@hana` ask for.
pub open spec fn resolved_version(tokens: Seq<Seq<char>>) -> Seq<char> {
    if tokens.len() == 0 || tokens[0] == "latest"@ {
        "#version 410 core"@
    } else {
        "#version "@ + tokens[0] + " core"@
    }
}

/// What one declaration at the start of `rest` does: the next state and
/// the number of lexemes consumed; `None` where reading the block ends.
pub open spec fn declaration_step(s: BackendState, rest: Seq<Seq<char>>) -> Result<
    Option<(BackendState, int)>,
    ErrorView,
> {
    if rest[0] == "struct"@ {
        match parsed_struct(rest) {
            StructParse::Absent => Ok(None),
            StructParse::Unopened => Ok(None),
            StructParse::Declared { name, fields, consumed } => Ok(
                Some((struct_declared(s, name, fields), consumed)),
            ),
        }
    } else if rest[0] == ";"@ || rest[0] == "}"@ {
        Ok(Some((s, 1)))
    } else {
        match parsed_global(rest) {
            GlobalParse::Absent => Ok(None),
            GlobalParse::Passed { consumed } => Ok(Some((s, consumed))),
            GlobalParse::Declared { typ, name, head, start, consumed } => match global_declared(
                s,
                typ,
                name,
                head,
                start,
            ) {
                Err(e) => Err(e),
                Ok(next) => Ok(Some((next, consumed))),
            },
        }
    }
}

/// Every declaration consumes at least one lexeme and stays inside the block.
pub proof fn lemma_declaration_advances(s: BackendState, rest: Seq<Seq<char>>)
    requires
        rest.len() > 0,
    ensures
        declaration_step(s, rest) matches Ok(Some((next, consumed))) ==> 0 < consumed
            <= rest.len(),
{
    if rest[0] == "struct"@ {
        if rest.len() >= 3 {
            lemma_find_brace_bounds(rest, 2);
            let brace = find_brace(rest, 2);
            if brace < rest.len() {
                lemma_struct_fields_bounds(rest, brace + 1, Seq::empty());
            }
        }
    } else {
        lemma_find_text_bounds(rest, 0, ";"@);
    }
}

/// The state after the declarations of a block from position `index` on,
/// or the first failure.
pub open spec fn declarations_from(s: BackendState, tokens: Seq<Seq<char>>, index: int) -> Result<
    BackendState,
    ErrorView,
>
    decreases tokens.len() - index,
    via declarations_from_decreases
{
    if index < 0 || index >= tokens.len() {
        Ok(s)
    } else {
        match declaration_step(s, tokens.subrange(index, tokens.len() as int)) {
            Err(e) => Err(e),
            Ok(None) => Ok(s),
            Ok(Some((next, consumed))) => declarations_from(next, tokens, index + consumed),
        }
    }
}

#[via_fn]
proof fn declarations_from_decreases(s: BackendState, tokens: Seq<Seq<char>>, index: int) {
    if 0 <= index < tokens.len() {
        lemma_declaration_advances(s, tokens.subrange(index, tokens.len() as int));
    }
}

/// The state in which no builtin waits for its words.
pub open spec fn cleared(s: BackendState) -> BackendState {
    BackendState { awaiting: None, ..s }
}

/// The builtin that waits for its words after the builtin `name` with the
/// arguments `args`: one of the builtins that take words, where it has no
/// arguments in parentheses.
pub open spec fn awaited_by(name: Seq<char>, args: Seq<Seq<char>>) -> Option<Awaited> {
    if args.len() > 0 {
        None
    } else if name == "opengl"@ {
        Some(Awaited::OpenGLName)
    } else if name == "align"@ {
        Some(Awaited::Align)
    } else if name == "output"@ {
        Some(Awaited::Output)
    } else if name == "openglTransformToUniform"@ {
        Some(Awaited::OpenGLTransform)
    } else if name == "tessellation"@ {
        Some(Awaited::Tessellation)
    } else if name == "raytracing"@ {
        Some(Awaited::Raytracing)
    } else {
        None
    }
}

/// The number of words at the start of a block that are the arguments of
/// `@openglTransformToUniform`: the first word, and the second where it
/// denotes a number.
pub open spec fn transform_words(tokens: Seq<Seq<char>>) -> int {
    if tokens.len() == 0 {
        0
    } else if tokens.len() > 1 && parse_usize(tokens[1]) is Some {
        2
    } else {
        1
    }
}

/// What a block does for the builtin without parentheses that stands just
/// before it: the words at the start of the block are the arguments of the
/// builtin. The result is the next state and the number of words taken.
///
/// `@opengl` and `@align` take one word. `@output` takes the first word
/// where it denotes a number. `@openglTransformToUniform` takes the first
/// word, and the second where it denotes a number. `@tessellation` and
/// `@raytracing` take the word that names the stage. Without a word in the
/// block the builtin stays as it was taken in.
pub open spec fn words_read(s: BackendState, awaited: Option<Awaited>, tokens: Seq<Seq<char>>) -> Result<
    (BackendState, int),
    ErrorView,
> {
    if awaited is None || tokens.len() == 0 {
        Ok((s, 0))
    } else {
        match awaited->0 {
            Awaited::OpenGLName => Ok(
                (with_annotation(s, AnnotationView::OpenGLName(tokens[0])), 1),
            ),
            Awaited::Align => Ok((with_annotation(s, AnnotationView::Align(tokens[0])), 1)),
            Awaited::Output => if parse_u32(tokens[0]) is Some {
                Ok(
                    (
                        with_pending(
                            s,
                            amended(
                                s.pending_annotations,
                                AnnotationView::Output(
                                    OutputAnnotation { location: parse_u32(tokens[0])->0 },
                                ),
                            ),
                        ),
                        1,
                    ),
                )
            } else {
                Ok((s, 0))
            },
            Awaited::OpenGLTransform => Ok(
                (
                    with_pending(
                        s,
                        amended(
                            s.pending_annotations,
                            AnnotationView::OpenGLTransform(
                                transform_of(tokens.subrange(0, transform_words(tokens))),
                            ),
                        ),
                    ),
                    transform_words(tokens),
                ),
            ),
            Awaited::Tessellation => if tokens[0] == "control"@ {
                Ok((BackendState { current_function_stage: Stage::TessellationControl, ..s }, 1))
            } else if tokens[0] == "evaluation"@ {
                Ok(
                    (
                        BackendState {
                            current_function_stage: Stage::TessellationEvaluation,
                            ..s
                        },
                        1,
                    ),
                )
            } else {
                Err(
                    ErrorView::Internal(
                        "Tessellation builtin requires a shader type argument (control/evaluation)"@,
                    ),
                )
            },
            Awaited::Raytracing => match raytracing_stage(tokens[0]) {
                Some(stage) => Ok((BackendState { current_function_stage: stage, ..s }, 1)),
                None => Err(
                    ErrorView::Internal(
                        "Raytracing builtin requires a valid shader type argument (generation/closest/any/miss/intersection/callable)"@,
                    ),
                ),
            },
        }
    }
}

/// The state after a translatable block. Where `@hana` waits, the block
/// names the version and declares nothing. Else the words at its start go
/// to the builtin without parentheses that stands just before it, if one
/// does, and the structs and globals after them are declared in order.
pub open spec fn after_block(s: BackendState, tokens: Seq<Seq<char>>) -> Result<
    BackendState,
    ErrorView,
> {
    if waiting(s.pending_annotations, AnnotationKind::HanaVersion) is Some {
        Ok(
            BackendState {
                pending_annotations: consumed(s.pending_annotations, AnnotationKind::HanaVersion),
                version_directive: Some(resolved_version(tokens)),
                awaiting: None,
                ..s
            },
        )
    } else {
        match words_read(cleared(s), s.awaiting, tokens) {
            Err(e) => Err(e),
            Ok((next, taken)) => declarations_from(next, tokens, taken),
        }
    }
}

/// The answer that leaves the state as it is.
pub open spec fn unchanged(s: BackendState) -> Answer<BackendState> {
    Ok((s, Seq::empty(), Stage::Same))
}

/// The answer that puts one more annotation on the waiting list.
pub open spec fn decorated(s: BackendState, a: AnnotationView) -> Answer<BackendState> {
    Ok((with_annotation(s, a), Seq::empty(), Stage::Same))
}

/// The answer that makes `stage` the stage of the next function.
pub open spec fn switched_to(s: BackendState, stage: Stage) -> Answer<BackendState> {
    Ok((BackendState { current_function_stage: stage, ..s }, Seq::empty(), stage))
}

/// The answer that fails with an internal error.
pub open spec fn refused(message: Seq<char>) -> Answer<BackendState> {
    Err(ErrorView::Internal(message))
}

/// The raytracing stage that the word names.
pub open spec fn raytracing_stage(word: Seq<char>) -> Option<Stage> {
    if word == "generation"@ {
        Some(Stage::RaytracingGeneration)
    } else if word == "closest"@ {
        Some(Stage::RaytracingClosest)
    } else if word == "any"@ {
        Some(Stage::RaytracingAny)
    } else if word == "miss"@ {
        Some(Stage::RaytracingMiss)
    } else if word == "intersection"@ {
        Some(Stage::RaytracingIntersection)
    } else if word == "callable"@ {
        Some(Stage::RaytracingCallable)
    } else {
        None
    }
}

/// What a decorating builtin does, if `name` is one.
pub open spec fn decorator(s: BackendState, name: Seq<char>, args: Seq<Seq<char>>) -> Option<
    Answer<BackendState>,
> {
    if name == "hana"@ {
        Some(decorated(s, AnnotationView::HanaVersion))
    } else if name == "uniform"@ {
        Some(decorated(s, AnnotationView::Uniform(uniform_of(args))))
    } else if name == "opengl"@ {
        Some(
            if args.len() > 0 {
                decorated(s, AnnotationView::OpenGLName(args[0]))
            } else {
                unchanged(s)
            },
        )
    } else if name == "stage"@ {
        Some(
            match stage_of(args) {
                Some(a) => decorated(s, AnnotationView::Stage(a)),
                None => unchanged(s),
            },
        )
    } else if name == "push"@ {
        Some(decorated(s, AnnotationView::PushConstant))
    } else if name == "align"@ {
        Some(
            if args.len() > 0 {
                decorated(s, AnnotationView::Align(args[0]))
            } else {
                unchanged(s)
            },
        )
    } else if name == "buffer"@ {
        Some(
            decorated(
                s,
                AnnotationView::Buffer(
                    BufferAnnotation {
                        set: uniform_of(args).set,
                        binding: uniform_of(args).binding,
                    },
                ),
            ),
        )
    } else if name == "openglTransformToUniform"@ {
        Some(decorated(s, AnnotationView::OpenGLTransform(transform_of(args))))
    } else if name == "output"@ {
        Some(
            decorated(
                s,
                AnnotationView::Output(OutputAnnotation { location: output_location(args) }),
            ),
        )
    } else {
        None
    }
}

/// What a stage switch does, if `name` is one. A raytracing stage needs
/// the import of `hana::raytracing`.
pub open spec fn stage_switch(s: BackendState, name: Seq<char>, args: Seq<Seq<char>>) -> Option<
    Answer<BackendState>,
> {
    if name == "vertex"@ {
        Some(switched_to(s, Stage::Vertex))
    } else if name == "fragment"@ {
        Some(switched_to(s, Stage::Fragment))
    } else if name == "tessellation"@ {
        Some(
            if args.len() == 0 {
                unchanged(s)
            } else if args[0] == "control"@ {
                switched_to(s, Stage::TessellationControl)
            } else if args[0] == "evaluation"@ {
                switched_to(s, Stage::TessellationEvaluation)
            } else {
                refused(
                    "Tessellation builtin requires a shader type argument (control/evaluation)"@,
                )
            },
        )
    } else if name == "geometry"@ {
        Some(switched_to(s, Stage::Geometry))
    } else if name == "compute"@ {
        Some(switched_to(s, Stage::Compute))
    } else if name == "mesh"@ {
        Some(switched_to(s, Stage::Mesh))
    } else if name == "task"@ {
        Some(switched_to(s, Stage::Task))
    } else if name == "raytracing"@ {
        Some(
            if !s.include_paths.contains("hana::raytracing"@) {
                refused("Raytracing extension not included."@)
            } else if args.len() == 0 {
                unchanged(s)
            } else {
                match raytracing_stage(args[0]) {
                    Some(stage) => switched_to(s, stage),
                    None => refused(
                        "Raytracing builtin requires a valid shader type argument (generation/closest/any/miss/intersection/callable)"@,
                    ),
                }
            },
        )
    } else {
        None
    }
}

/// What a builtin does: a decorator waits for the next declaration, a
/// stage switch names the stage of the next function, and any other
/// builtin does nothing.
pub open spec fn builtin_effect(s: BackendState, builtin: BuiltinView) -> Answer<BackendState> {
    let args = contents(builtin.args);
    match decorator(s, builtin.name, args) {
        Some(answer) => answer,
        None => match stage_switch(s, builtin.name, args) {
            Some(answer) => answer,
            None => unchanged(s),
        },
    }
}

/// What a builtin does, and what it leaves waiting: a builtin that takes
/// words and has no arguments in parentheses waits for the words of the
/// block that follows it.
pub open spec fn after_builtin(s: BackendState, builtin: BuiltinView) -> Answer<BackendState> {
    match builtin_effect(cleared(s), builtin) {
        Ok((next, text, stage)) => Ok(
            (
                BackendState {
                    awaiting: awaited_by(builtin.name, contents(builtin.args)),
                    ..next
                },
                text,
                stage,
            ),
        ),
        Err(e) => Err(e),
    }
}

/// The state after an import: the module is noted, once.
pub open spec fn after_use(s: BackendState, module: Seq<char>) -> BackendState {
    if s.include_paths.contains(module) {
        cleared(s)
    } else {
        BackendState { include_paths: s.include_paths.push(module), ..cleared(s) }
    }
}

/// The three link tables of the state.
pub open spec fn links_of(s: BackendState) -> LinkView {
    LinkView {
        vertex_input: s.vertex_input_map,
        vertex_output: s.vertex_output_map,
        fragment_input: s.fragment_input_map,
    }
}

/// The context of a body that reaches no stage block.
pub open spec fn no_context() -> ContextView {
    ContextView { input_param: None, output_var: None }
}

/// A helper function written out: its signature, and its body copied
/// without any rewriting that belongs to a stage.
pub open spec fn helper_text(s: BackendState, f: FunctionView) -> Seq<char> {
    glsl_type(f.return_type) + " "@ + f.name + "("@ + function_args(f.args) + ")"@ + " {\n"@
        + formatted_body(f.body, links_of(s), Stage::All, no_context()) + "}\n"@
}

/// The state after a function: under a stage it becomes the entry of that
/// stage, and the next function is a helper again; else it is a helper.
pub open spec fn after_function(s: BackendState, f: FunctionView) -> BackendState {
    if s.current_function_stage == Stage::All || s.current_function_stage == Stage::Same {
        BackendState {
            helper_functions: s.helper_functions.push(helper_text(s, f)),
            ..cleared(s)
        }
    } else {
        BackendState {
            stage_functions: s.stage_functions.insert(s.current_function_stage, f),
            current_function_stage: Stage::All,
            ..cleared(s)
        }
    }
}

/// A list of declarations as one section of a shader; no section for an
/// empty list.
pub open spec fn section(decls: Seq<Seq<char>>) -> Seq<Seq<char>> {
    if decls.len() == 0 {
        Seq::empty()
    } else {
        seq![join(decls, "\n"@)]
    }
}

/// The `#version` line of every shader.
pub open spec fn version_line(s: BackendState) -> Seq<char> {
    match s.version_directive {
        Some(line) => line,
        None => "#version 410 core"@,
    }
}

/// The declarations of the inputs of the fragment stage: those of its
/// input block, or, where it has none, the outputs of the vertex stage
/// taken in.
pub open spec fn fragment_inputs(s: BackendState) -> Seq<Seq<char>> {
    if s.fragment_input_struct is Some {
        s.fragment_input_decls
    } else {
        s.varying_decls
    }
}

/// The struct whose fields the fragment stage takes in: its input block,
/// or, where it has none, the output block of the vertex stage.
pub open spec fn fragment_input_block(s: BackendState) -> Option<Seq<char>> {
    if s.fragment_input_struct is Some {
        s.fragment_input_struct
    } else {
        s.vertex_output_struct
    }
}

/// The sections of the inputs and outputs of `stage`.
pub open spec fn stage_sections(s: BackendState, stage: Stage) -> Seq<Seq<char>> {
    match stage {
        Stage::Vertex => section(s.vertex_input_decls) + section(s.vertex_output_decls),
        Stage::Fragment => section(fragment_inputs(s)) + section(s.fragment_output_decls),
        _ => Seq::empty(),
    }
}

/// The sections in front of the entry function of `stage`, in order: the
/// version, the structs, the uniforms, the inputs and outputs of the stage,
/// the plain globals, and the helper functions.
pub open spec fn shader_sections(s: BackendState, stage: Stage) -> Seq<Seq<char>> {
    seq![version_line(s)] + section(s.global_struct_decls) + section(s.uniform_decls)
        + stage_sections(s, stage) + section(s.global_decls) + section(s.helper_functions)
}

/// The variables through which the entry function of `stage` reaches the
/// stage blocks.
pub open spec fn entry_context(s: BackendState, stage: Stage, f: FunctionView) -> ContextView {
    ContextView {
        input_param: match stage {
            Stage::Vertex => param_of_type(f.args, s.vertex_input_struct),
            Stage::Fragment => param_of_type(f.args, fragment_input_block(s)),
            _ => None,
        },
        output_var: match stage {
            Stage::Vertex => struct_variable(f.body, s.vertex_output_struct, 0),
            _ => None,
        },
    }
}

/// The sections joined, and set off from what follows.
pub open spec fn shader_head(sections: Seq<Seq<char>>) -> Seq<char> {
    let head = join(sections, "\n\n"@);
    if head.len() > 0 {
        head + "\n\n"@
    } else {
        head
    }
}

/// The shader of `stage`, whose entry function is `f`.
pub open spec fn stage_shader(s: BackendState, stage: Stage, f: FunctionView) -> Seq<char> {
    shader_head(shader_sections(s, stage)) + "void main() {\n"@ + formatted_body(
        f.body,
        links_of(s),
        stage,
        entry_context(s, stage, f),
    ) + "}\n"@
}

/// The finished text of the slot of `stage`: the shader of the stage where
/// it has an entry function, and nothing where it has none.
pub open spec fn finished_text(s: BackendState, stage: Stage) -> Seq<char> {
    if s.stage_functions.contains_key(stage) {
        stage_shader(s, stage, s.stage_functions[stage])
    } else {
        Seq::empty()
    }
}

/// The slots once every one holds its finished text.
pub open spec fn finished_slots(s: BackendState, slots: Slots) -> Slots {
    Seq::new(slots.len(), |i: int| (finished_text(s, slots[i].1), slots[i].1))
}

} // verus!
