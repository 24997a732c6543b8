//! What holds of the OpenGL back-end in every state and of every program.
use crate::annotations::{
    consumed, first_of_kind, kind_of, lemma_first_of_kind, stage_annotations, waiting,
    without_stage_annotations, AnnotationKind, AnnotationView, Awaited, StageAnnotation,
    StageIO,
};
use crate::backend::{
    compiled, empty_slots, is_concrete, lemma_walk_keeps_stages, same_stages, Stage,
};
use crate::body::{field_access, ContextView};
use crate::model::{
    after_block, after_builtin, after_function, after_use, cleared, coherent, declaration_step,
    declarations_from, finished_text, fragment_input_block, fragment_inputs, global_declared, lemma_declaration_advances, links_of,
    parsed_global, registered, registered_one, shader_sections, stage_shader, struct_declared,
    varying_name, version_line, waiting_alignment, with_pending, with_uniform, words_read,
    BackendState, GlobalParse,
};
use crate::opengl::OpenGLBackend;
use crate::parser::{BuiltinView, ExpressionView, FunctionView};
use crate::structs::{
    io_decl, io_decls, linked, parsed_struct, StructFieldView, StructInfoView, StructParse,
};
use crate::text::join;
use vstd::prelude::*;

verus! {

/// Whether one of the fields is named `name`.
pub open spec fn has_field(fields: Seq<StructFieldView>, name: Seq<char>) -> bool
    decreases fields.len(),
{
    fields.len() > 0 && (fields.last().name == name || has_field(fields.drop_last(), name))
}

/// What linking does to a map, seen at one key: the names of the fields
/// become keys, each with `prefix` and its own name as value, and every
/// other key keeps its value.
pub proof fn lemma_linked(
    m: Map<Seq<char>, Seq<char>>,
    fields: Seq<StructFieldView>,
    prefix: Seq<char>,
    k: Seq<char>,
)
    ensures
        linked(m, fields, prefix).contains_key(k) <==> m.contains_key(k) || has_field(fields, k),
        has_field(fields, k) ==> linked(m, fields, prefix)[k] == prefix + k,
        !has_field(fields, k) && m.contains_key(k) ==> linked(m, fields, prefix)[k] == m[k],
    decreases fields.len(),
{
    if fields.len() > 0 {
        lemma_linked(m, fields.drop_last(), prefix, k);
    }
}

/// Registering a stage block keeps the stages linked and leaves the
/// uniform declarations alone.
pub proof fn lemma_registered_one_coherent(
    s: BackendState,
    name: Seq<char>,
    info: StructInfoView,
    ann: StageAnnotation,
)
    requires
        coherent(s),
    ensures
        coherent(registered_one(s, name, info, ann)),
{
    let next = registered_one(s, name, info, ann);
    assert forall|f: Seq<char>| #[trigger]
        next.vertex_output_map.contains_key(f) implies next.vertex_output_map[f] == varying_name(
        f,
    ) && next.fragment_input_map.contains_key(f) by {
        lemma_linked(s.vertex_output_map, info.fields, "v_"@, f);
        lemma_linked(s.fragment_input_map, info.fields, "v_"@, f);
    }
    assert forall|f: Seq<char>| #[trigger]
        next.fragment_input_map.contains_key(f) implies next.fragment_input_map[f] == varying_name(
        f,
    ) by {
        lemma_linked(s.fragment_input_map, info.fields, "v_"@, f);
    }
}

/// Registering stage blocks keeps the state coherent.
pub proof fn lemma_registered_coherent(
    s: BackendState,
    name: Seq<char>,
    info: StructInfoView,
    stages: Seq<StageAnnotation>,
)
    requires
        coherent(s),
    ensures
        coherent(registered(s, name, info, stages)),
    decreases stages.len(),
{
    if stages.len() > 0 {
        lemma_registered_coherent(s, name, info, stages.drop_last());
        lemma_registered_one_coherent(
            registered(s, name, info, stages.drop_last()),
            name,
            info,
            stages.last(),
        );
    }
}

/// A list without duplicates stays without duplicates when a declaration
/// is added unless it is there already.
pub proof fn lemma_with_uniform_distinct(decls: Seq<Seq<char>>, decl: Seq<char>)
    requires
        decls.no_duplicates(),
    ensures
        with_uniform(decls, decl).no_duplicates(),
{
    if !decls.contains(decl) {
        let after = decls.push(decl);
        assert forall|i: int, j: int| 0 <= i < after.len() && 0 <= j < after.len() && i
            != j implies after[i] != after[j] by {
            if i == decls.len() {
                assert(decls[j] == after[j]);
            } else if j == decls.len() {
                assert(decls[i] == after[i]);
            } else {
                assert(decls[i] == after[i] && decls[j] == after[j]);
            }
        }
    }
}

/// The declaration of a struct keeps the state coherent.
pub proof fn lemma_struct_declared_coherent(
    s: BackendState,
    name: Seq<char>,
    fields: Seq<StructFieldView>,
)
    requires
        coherent(s),
    ensures
        coherent(struct_declared(s, name, fields)),
{
    let info = StructInfoView {
        fields,
        alignment: waiting_alignment(s.pending_annotations),
    };
    let aligned = consumed(s.pending_annotations, AnnotationKind::Align);
    lemma_registered_coherent(
        with_pending(s, without_stage_annotations(aligned)),
        name,
        info,
        stage_annotations(aligned),
    );
}

/// The declaration of a global keeps the state coherent.
pub proof fn lemma_global_declared_coherent(
    s: BackendState,
    typ: Seq<char>,
    name: Seq<char>,
    head: Seq<Seq<char>>,
    start: int,
)
    requires
        coherent(s),
    ensures
        global_declared(s, typ, name, head, start) matches Ok(next) ==> coherent(next),
{
    if let Ok(next) = global_declared(s, typ, name, head, start) {
        if next.uniform_decls != s.uniform_decls {
            let decl = choose|decl: Seq<char>| next.uniform_decls == with_uniform(
                s.uniform_decls,
                decl,
            );
            lemma_with_uniform_distinct(s.uniform_decls, decl);
        }
    }
}

/// The declarations of a block keep the state coherent.
pub proof fn lemma_declarations_coherent(s: BackendState, tokens: Seq<Seq<char>>, index: int)
    requires
        coherent(s),
        0 <= index,
    ensures
        declarations_from(s, tokens, index) matches Ok(next) ==> coherent(next),
    decreases tokens.len() - index,
{
    if index < tokens.len() {
        let rest = tokens.subrange(index, tokens.len() as int);
        lemma_declaration_advances(s, rest);
        if let Ok(Some((next, used))) = declaration_step(s, rest) {
            if rest[0] == "struct"@ {
                if let StructParse::Declared { name, fields, consumed } = parsed_struct(rest) {
                    lemma_struct_declared_coherent(s, name, fields);
                }
            } else if rest[0] == ";"@ || rest[0] == "}"@ {
            } else {
                if let GlobalParse::Declared { typ, name, head, start, consumed } = parsed_global(
                    rest,
                ) {
                    lemma_global_declared_coherent(s, typ, name, head, start);
                }
            }
            lemma_declarations_coherent(next, tokens, index + used);
        }
    }
}

/// What reading the words of a builtin leaves alone: it takes words from
/// the block, and changes nothing but the waiting list, by at most one
/// annotation, and the stage of the next function.
pub proof fn lemma_words_read(s: BackendState, awaited: Option<Awaited>, tokens: Seq<Seq<char>>)
    ensures
        words_read(s, awaited, tokens) matches Ok((next, taken)) ==> {
            &&& 0 <= taken <= tokens.len()
            &&& next == (BackendState {
                pending_annotations: next.pending_annotations,
                current_function_stage: next.current_function_stage,
                ..s
            })
            &&& next.pending_annotations.len() <= s.pending_annotations.len() + 1
            &&& awaited is None ==> next == s
        },
{
}

/// A translatable block keeps the state coherent.
pub proof fn lemma_after_block_coherent(s: BackendState, tokens: Seq<Seq<char>>)
    requires
        coherent(s),
    ensures
        after_block(s, tokens) matches Ok(next) ==> coherent(next),
{
    lemma_words_read(cleared(s), s.awaiting, tokens);
    if let Ok((next, taken)) = words_read(cleared(s), s.awaiting, tokens) {
        lemma_declarations_coherent(next, tokens, taken);
    }
}

/// A builtin keeps the state coherent.
pub proof fn lemma_after_builtin_coherent(s: BackendState, builtin: BuiltinView)
    requires
        coherent(s),
    ensures
        after_builtin(s, builtin) matches Ok((next, text, stage)) ==> coherent(next),
{
}

/// An import keeps the state coherent.
pub proof fn lemma_after_use_coherent(s: BackendState, module: Seq<char>)
    requires
        coherent(s),
    ensures
        coherent(after_use(s, module)),
{
}

/// A function keeps the state coherent.
pub proof fn lemma_after_function_coherent(s: BackendState, f: FunctionView)
    requires
        coherent(s),
    ensures
        coherent(after_function(s, f)),
{
}

/// The number of waiting annotations of kind `kind`.
pub open spec fn count_kind(pending: Seq<AnnotationView>, kind: AnnotationKind) -> nat
    decreases pending.len(),
{
    if pending.len() == 0 {
        0
    } else {
        count_kind(pending.drop_last(), kind) + if kind_of(pending.last()) == kind {
            1nat
        } else {
            0nat
        }
    }
}

/// Taking one annotation out of the list lowers the count of its kind by
/// one and leaves the count of every other kind as it was.
pub proof fn lemma_count_remove(pending: Seq<AnnotationView>, at: int, kind: AnnotationKind)
    requires
        0 <= at < pending.len(),
    ensures
        count_kind(pending.remove(at), kind) + (if kind_of(pending[at]) == kind {
            1nat
        } else {
            0nat
        }) == count_kind(pending, kind),
    decreases pending.len(),
{
    if at == pending.len() - 1 {
        assert(pending.remove(at) =~= pending.drop_last());
    } else {
        lemma_count_remove(pending.drop_last(), at, kind);
        assert(pending.remove(at).drop_last() =~= pending.drop_last().remove(at));
        assert(pending.remove(at).last() == pending.last());
    }
}

/// A kind that is not counted does not occur.
pub proof fn lemma_count_zero(pending: Seq<AnnotationView>, kind: AnnotationKind, i: int)
    requires
        count_kind(pending, kind) == 0,
        0 <= i < pending.len(),
    ensures
        kind_of(pending[i]) != kind,
    decreases pending.len(),
{
    if i < pending.len() - 1 {
        lemma_count_zero(pending.drop_last(), kind, i);
    }
}

/// Annotation consumption: the declaration that consumes an annotation of
/// kind `kind` takes exactly one annotation of that kind out of the waiting
/// list, so that no later declaration meets it again; the annotations of
/// every other kind stay.
pub proof fn law_annotation_consumed(
    pending: Seq<AnnotationView>,
    kind: AnnotationKind,
    other: AnnotationKind,
)
    requires
        waiting(pending, kind) is Some,
    ensures
        consumed(pending, kind).len() == pending.len() - 1,
        count_kind(consumed(pending, kind), kind) == count_kind(pending, kind) - 1,
        other != kind ==> count_kind(consumed(pending, kind), other) == count_kind(pending, other),
{
    lemma_first_of_kind(pending, kind, 0);
    let at = first_of_kind(pending, kind, 0);
    lemma_count_remove(pending, at, kind);
    lemma_count_remove(pending, at, other);
}

/// Where no stage annotation waits, none is left out.
pub proof fn lemma_all_stage_annotations_leave(pending: Seq<AnnotationView>)
    requires
        forall|i: int| 0 <= i < pending.len() ==> kind_of(#[trigger] pending[i]) == AnnotationKind::Stage,
    ensures
        without_stage_annotations(pending).len() == 0,
    decreases pending.len(),
{
    if pending.len() > 0 {
        assert(kind_of(pending.last()) == AnnotationKind::Stage);
        assert forall|i: int| 0 <= i < pending.drop_last().len() implies kind_of(
            #[trigger] pending.drop_last()[i],
        ) == AnnotationKind::Stage by {
            assert(pending.drop_last()[i] == pending[i]);
        }
        lemma_all_stage_annotations_leave(pending.drop_last());
    }
}

/// Registering stage blocks leaves the waiting annotations alone.
pub proof fn lemma_registered_pending(
    s: BackendState,
    name: Seq<char>,
    info: StructInfoView,
    stages: Seq<StageAnnotation>,
)
    ensures
        registered(s, name, info, stages).pending_annotations == s.pending_annotations,
    decreases stages.len(),
{
    if stages.len() > 0 {
        lemma_registered_pending(s, name, info, stages.drop_last());
    }
}

/// Annotation consumption by a struct: where every waiting annotation is
/// `@stage` or `@align`, and at most one is `@align`, the declaration of a
/// struct leaves no annotation waiting.
pub proof fn law_struct_consumes_annotations(
    s: BackendState,
    name: Seq<char>,
    fields: Seq<StructFieldView>,
)
    requires
        forall|i: int|
            0 <= i < s.pending_annotations.len() ==> kind_of(#[trigger] s.pending_annotations[i])
                == AnnotationKind::Stage || kind_of(s.pending_annotations[i])
                == AnnotationKind::Align,
        count_kind(s.pending_annotations, AnnotationKind::Align) <= 1,
    ensures
        struct_declared(s, name, fields).pending_annotations.len() == 0,
{
    let pending = s.pending_annotations;
    let aligned = consumed(pending, AnnotationKind::Align);
    lemma_first_of_kind(pending, AnnotationKind::Align, 0);
    let at = first_of_kind(pending, AnnotationKind::Align, 0);
    assert forall|i: int| 0 <= i < aligned.len() implies kind_of(#[trigger] aligned[i])
        == AnnotationKind::Stage by {
        if at < pending.len() {
            lemma_count_remove(pending, at, AnnotationKind::Align);
            lemma_count_zero(aligned, AnnotationKind::Align, i);
            if i < at {
                assert(aligned[i] == pending[i]);
            } else {
                assert(aligned[i] == pending[i + 1]);
            }
        } else {
            assert(aligned[i] == pending[i]);
        }
    }
    lemma_all_stage_annotations_leave(aligned);
    let info = StructInfoView {
        fields,
        alignment: waiting_alignment(s.pending_annotations),
    };
    lemma_registered_pending(
        with_pending(s, without_stage_annotations(aligned)),
        name,
        info,
        stage_annotations(aligned),
    );
}

/// Consuming never makes the waiting list longer.
pub proof fn lemma_consumed_shorter(pending: Seq<AnnotationView>, kind: AnnotationKind)
    ensures
        consumed(pending, kind).len() <= pending.len(),
{
    lemma_first_of_kind(pending, kind, 0);
}

/// Taking the stage annotations out never makes the waiting list longer.
pub proof fn lemma_without_stage_shorter(pending: Seq<AnnotationView>)
    ensures
        without_stage_annotations(pending).len() <= pending.len(),
    decreases pending.len(),
{
    if pending.len() > 0 {
        lemma_without_stage_shorter(pending.drop_last());
    }
}

/// The declarations of a block never make the waiting list longer.
pub proof fn lemma_declarations_only_consume(s: BackendState, tokens: Seq<Seq<char>>, index: int)
    requires
        0 <= index,
    ensures
        declarations_from(s, tokens, index) matches Ok(next) ==> next.pending_annotations.len()
            <= s.pending_annotations.len(),
    decreases tokens.len() - index,
{
    if index < tokens.len() {
        let rest = tokens.subrange(index, tokens.len() as int);
        lemma_declaration_advances(s, rest);
        if let Ok(Some((next, used))) = declaration_step(s, rest) {
            let all = s.pending_annotations;
            if rest[0] == "struct"@ {
                if let StructParse::Declared { name, fields, consumed: taken } = parsed_struct(
                    rest,
                ) {
                    let aligned = consumed(all, AnnotationKind::Align);
                    lemma_consumed_shorter(all, AnnotationKind::Align);
                    lemma_without_stage_shorter(aligned);
                    lemma_registered_pending(
                        with_pending(s, without_stage_annotations(aligned)),
                        name,
                        StructInfoView { fields, alignment: waiting_alignment(all) },
                        stage_annotations(aligned),
                    );
                }
            } else if rest[0] == ";"@ || rest[0] == "}"@ {
            } else {
                let unnamed = consumed(all, AnnotationKind::OpenGLName);
                let unwidened = consumed(unnamed, AnnotationKind::OpenGLTransform);
                let unpushed = consumed(unwidened, AnnotationKind::PushConstant);
                lemma_consumed_shorter(all, AnnotationKind::OpenGLName);
                lemma_consumed_shorter(unnamed, AnnotationKind::Output);
                lemma_consumed_shorter(unnamed, AnnotationKind::OpenGLTransform);
                lemma_consumed_shorter(unwidened, AnnotationKind::Buffer);
                lemma_consumed_shorter(unwidened, AnnotationKind::PushConstant);
                lemma_consumed_shorter(unpushed, AnnotationKind::Uniform);
            }
            lemma_declarations_only_consume(next, tokens, index + used);
        }
    }
}

/// A translatable block makes the waiting list longer by at most the one
/// annotation of the builtin without parentheses that stands just before
/// it, and never longer where no such builtin does.
pub proof fn lemma_block_only_consumes(s: BackendState, block: Seq<Seq<char>>)
    ensures
        after_block(s, block) matches Ok(next) ==> next.pending_annotations.len()
            <= s.pending_annotations.len() + (if s.awaiting is Some {
            1int
        } else {
            0int
        }),
{
    lemma_words_read(cleared(s), s.awaiting, block);
    lemma_consumed_shorter(s.pending_annotations, AnnotationKind::HanaVersion);
    if let Ok((next, taken)) = words_read(cleared(s), s.awaiting, block) {
        lemma_declarations_only_consume(next, block, taken);
    }
}

/// Annotation consumption, over a whole program: the waiting list grows
/// only on account of a decorating builtin, and then by one annotation: as
/// the builtin is taken in or, where it is written without parentheses, as
/// the block after it gives it its words. Apart from that a translatable
/// block never makes the list longer, and an import or a function leaves
/// it as it is.
pub proof fn law_only_decorators_add_annotations(
    s: BackendState,
    builtin: BuiltinView,
    module: Seq<char>,
    function: FunctionView,
    block: Seq<Seq<char>>,
)
    ensures
        after_builtin(s, builtin) matches Ok((next, text, stage))
            ==> next.pending_annotations.len() <= s.pending_annotations.len() + 1,
        after_use(s, module).pending_annotations == s.pending_annotations,
        after_function(s, function).pending_annotations == s.pending_annotations,
        after_block(s, block) matches Ok(next) ==> next.pending_annotations.len()
            <= s.pending_annotations.len() + (if s.awaiting is Some {
            1int
        } else {
            0int
        }),
{
    lemma_block_only_consumes(s, block);
}

/// Whether a global declaration consumes annotations of this kind.
pub open spec fn owed_to_global(kind: AnnotationKind) -> bool {
    kind == AnnotationKind::OpenGLName || kind == AnnotationKind::Output || kind
        == AnnotationKind::OpenGLTransform || kind == AnnotationKind::Buffer || kind
        == AnnotationKind::PushConstant || kind == AnnotationKind::Uniform
}

/// Annotation consumption by a global: where one annotation waits, and it
/// is of a kind that globals consume, the declaration of a global leaves no
/// annotation waiting.
pub proof fn law_global_consumes_annotation(
    s: BackendState,
    typ: Seq<char>,
    name: Seq<char>,
    head: Seq<Seq<char>>,
    start: int,
)
    requires
        s.pending_annotations.len() == 1,
        owed_to_global(kind_of(s.pending_annotations[0])),
    ensures
        global_declared(s, typ, name, head, start) matches Ok(next) ==> next.pending_annotations.len()
            == 0,
{
    let all = s.pending_annotations;
    lemma_consumed_of_one(all, AnnotationKind::OpenGLName);
    let unnamed = consumed(all, AnnotationKind::OpenGLName);
    lemma_consumed_of_one(unnamed, AnnotationKind::Output);
    lemma_consumed_of_one(unnamed, AnnotationKind::OpenGLTransform);
    let unwidened = consumed(unnamed, AnnotationKind::OpenGLTransform);
    lemma_consumed_of_one(unwidened, AnnotationKind::Buffer);
    lemma_consumed_of_one(unwidened, AnnotationKind::PushConstant);
    let unpushed = consumed(unwidened, AnnotationKind::PushConstant);
    lemma_consumed_of_one(unpushed, AnnotationKind::Uniform);
}

/// Consumption from a list of at most one annotation: an annotation of the
/// kind asked for leaves, any other stays.
pub proof fn lemma_consumed_of_one(pending: Seq<AnnotationView>, kind: AnnotationKind)
    requires
        pending.len() <= 1,
    ensures
        pending.len() == 1 && kind_of(pending[0]) == kind ==> waiting(pending, kind) == Some(
            pending[0],
        ) && consumed(pending, kind).len() == 0,
        pending.len() == 0 || kind_of(pending[0]) != kind ==> waiting(pending, kind) is None
            && consumed(pending, kind) == pending,
{
    if pending.len() == 1 {
        lemma_first_of_kind(pending, kind, 0);
        assert(first_of_kind(pending, kind, 1) == 1);
    }
}

/// Annotation consumption by `@hana`: where `@hana` alone waits, the
/// block after it leaves no annotation waiting.
pub proof fn law_version_consumes_annotation(s: BackendState, tokens: Seq<Seq<char>>)
    requires
        s.pending_annotations == seq![AnnotationView::HanaVersion],
    ensures
        after_block(s, tokens) matches Ok(next) && next.pending_annotations.len() == 0,
{
    assert(s.pending_annotations.remove(0) =~= Seq::<AnnotationView>::empty());
}

/// Cross-stage linkage: in every state of a compilation, each field that
/// the vertex stage hands on is written as the same identifier in both
/// stages, `v_` followed by the name of the field; and it is that
/// identifier that an access to the field becomes in the body of the
/// fragment stage.
pub proof fn law_cross_stage_linkage(
    s: BackendState,
    field: Seq<char>,
    base: Seq<char>,
    ctx: ContextView,
)
    requires
        coherent(s),
        s.vertex_output_map.contains_key(field),
    ensures
        s.vertex_output_map[field] == varying_name(field),
        s.fragment_input_map.contains_key(field),
        s.fragment_input_map[field] == s.vertex_output_map[field],
        ctx.input_param == Some(base) ==> field_access(
            links_of(s),
            Stage::Fragment,
            ctx,
            base,
            field,
        ) == Some(varying_name(field)),
{
}

/// Cross-stage linkage, at its source: once a struct is registered as the
/// output block of the vertex stage, each of its fields is linked in both
/// stages.
pub proof fn law_vertex_outputs_linked(
    s: BackendState,
    name: Seq<char>,
    info: StructInfoView,
    i: int,
)
    requires
        s.vertex_output_struct is None,
        0 <= i < info.fields.len(),
    ensures
        ({
            let next = registered_one(
                s,
                name,
                info,
                StageAnnotation { stage: Stage::Vertex, io: StageIO::Out },
            );
            let field = info.fields[i].name;
            &&& next.vertex_output_map.contains_key(field)
            &&& next.vertex_output_map[field] == varying_name(field)
            &&& next.fragment_input_map.contains_key(field)
            &&& next.fragment_input_map[field] == varying_name(field)
        }),
{
    let field = info.fields[i].name;
    lemma_has_field(info.fields, i);
    lemma_linked(s.vertex_output_map, info.fields, "v_"@, field);
    lemma_linked(s.fragment_input_map, info.fields, "v_"@, field);
}

/// Whether one of the annotations names the output of the vertex stage.
pub open spec fn names_vertex_output(stages: Seq<StageAnnotation>) -> bool
    decreases stages.len(),
{
    stages.len() > 0 && ((stages.last().stage == Stage::Vertex && stages.last().io
        == StageIO::Out) || names_vertex_output(stages.drop_last()))
}

/// An annotation of the list that names the output of the vertex stage
/// makes the list name it.
pub proof fn lemma_names_vertex_output(stages: Seq<StageAnnotation>, at: int)
    requires
        0 <= at < stages.len(),
        stages[at].stage == Stage::Vertex,
        stages[at].io == StageIO::Out,
    ensures
        names_vertex_output(stages),
    decreases stages.len(),
{
    if at < stages.len() - 1 {
        lemma_names_vertex_output(stages.drop_last(), at);
    }
}

/// What registering a struct does to the outputs of the vertex stage, seen
/// at one field name `k`. Where the annotations name the output of the
/// vertex stage, the struct becomes the output block, its declarations are
/// added in field order, and each of its fields is linked in both stages;
/// where they do not, the outputs of the vertex stage stay as they were.
pub proof fn lemma_registered_vertex_outputs(
    s: BackendState,
    name: Seq<char>,
    info: StructInfoView,
    stages: Seq<StageAnnotation>,
    k: Seq<char>,
)
    requires
        s.vertex_output_struct is None,
    ensures
        ({
            let next = registered(s, name, info, stages);
            if names_vertex_output(stages) {
                &&& next.vertex_output_struct == Some(name)
                &&& next.vertex_output_decls == s.vertex_output_decls + io_decls(
                    info.fields,
                    "out"@,
                    "v_"@,
                )
                &&& has_field(info.fields, k) ==> {
                    &&& next.vertex_output_map.contains_key(k)
                    &&& next.vertex_output_map[k] == varying_name(k)
                    &&& next.fragment_input_map.contains_key(k)
                    &&& next.fragment_input_map[k] == varying_name(k)
                }
            } else {
                &&& next.vertex_output_struct is None
                &&& next.vertex_output_decls == s.vertex_output_decls
                &&& next.vertex_output_map == s.vertex_output_map
            }
        }),
    decreases stages.len(),
{
    if stages.len() > 0 {
        lemma_registered_vertex_outputs(s, name, info, stages.drop_last(), k);
        let before = registered(s, name, info, stages.drop_last());
        lemma_linked(before.vertex_output_map, info.fields, "v_"@, k);
        lemma_linked(before.fragment_input_map, info.fields, "v_"@, k);
    }
}

/// Cross-stage linkage, for a struct with several annotations: where no
/// output block of the vertex stage is registered yet and one of the
/// annotations names the output of the vertex stage, registering the struct
/// links each of its fields, in both stages, to `v_` and the name of the
/// field, and adds the declarations of the fields in field order.
pub proof fn law_registered_outputs_linked(
    s: BackendState,
    name: Seq<char>,
    info: StructInfoView,
    stages: Seq<StageAnnotation>,
    at: int,
    i: int,
)
    requires
        s.vertex_output_struct is None,
        0 <= at < stages.len(),
        stages[at].stage == Stage::Vertex,
        stages[at].io == StageIO::Out,
        0 <= i < info.fields.len(),
    ensures
        ({
            let next = registered(s, name, info, stages);
            let field = info.fields[i].name;
            &&& next.vertex_output_map.contains_key(field)
            &&& next.fragment_input_map.contains_key(field)
            &&& next.vertex_output_map[field] == varying_name(field)
            &&& next.fragment_input_map[field] == varying_name(field)
            &&& next.vertex_output_decls == s.vertex_output_decls + io_decls(
                info.fields,
                "out"@,
                "v_"@,
            )
            &&& io_decls(info.fields, "out"@, "v_"@).len() == info.fields.len()
            &&& io_decls(info.fields, "out"@, "v_"@)[i] == io_decl(
                i as nat,
                "out"@,
                info.fields[i].typ,
                "v_"@,
                field,
            )
        }),
{
    lemma_names_vertex_output(stages, at);
    lemma_has_field(info.fields, i);
    lemma_registered_vertex_outputs(s, name, info, stages, info.fields[i].name);
}

/// Cross-stage linkage, without an input block: where the fragment stage
/// has no input block of its own, it takes in the output block of the
/// vertex stage. Its inputs are then the outputs of the vertex stage,
/// declared with `in`, one per field and in field order.
pub proof fn law_fragment_takes_vertex_outputs(
    s: BackendState,
    name: Seq<char>,
    info: StructInfoView,
)
    requires
        s.vertex_output_struct is None,
        s.fragment_input_struct is None,
    ensures
        ({
            let next = registered_one(
                s,
                name,
                info,
                StageAnnotation { stage: Stage::Vertex, io: StageIO::Out },
            );
            &&& fragment_input_block(next) == Some(name)
            &&& fragment_inputs(next) == s.varying_decls + io_decls(info.fields, "in"@, "v_"@)
            &&& next.vertex_output_decls == s.vertex_output_decls + io_decls(
                info.fields,
                "out"@,
                "v_"@,
            )
        }),
{
}

/// Cross-stage linkage, in the declarations: a struct registered as the
/// output of the vertex stage and the input of the fragment stage gives
/// both stages one declaration per field, and the two declarations of a
/// field have the same location, the same type and the same identifier;
/// they differ in the word `out` or `in` alone.
pub proof fn law_matching_declarations(
    s: BackendState,
    name: Seq<char>,
    info: StructInfoView,
    i: int,
)
    requires
        s.vertex_output_struct is None,
        s.fragment_input_struct is None,
        0 <= i < info.fields.len(),
    ensures
        ({
            let next = registered(
                s,
                name,
                info,
                seq![
                    StageAnnotation { stage: Stage::Vertex, io: StageIO::Out },
                    StageAnnotation { stage: Stage::Fragment, io: StageIO::In },
                ],
            );
            let outs = io_decls(info.fields, "out"@, "v_"@);
            let ins = io_decls(info.fields, "in"@, "v_"@);
            let field = info.fields[i];
            &&& next.vertex_output_decls == s.vertex_output_decls + outs
            &&& next.fragment_input_decls == s.fragment_input_decls + ins
            &&& outs.len() == info.fields.len()
            &&& ins.len() == info.fields.len()
            &&& outs[i] == io_decl(i as nat, "out"@, field.typ, "v_"@, field.name)
            &&& ins[i] == io_decl(i as nat, "in"@, field.typ, "v_"@, field.name)
        }),
{
    let out = StageAnnotation { stage: Stage::Vertex, io: StageIO::Out };
    let into = StageAnnotation { stage: Stage::Fragment, io: StageIO::In };
    let both = seq![out, into];
    assert(both.drop_last() =~= seq![out]);
    assert(seq![out].drop_last() =~= Seq::<StageAnnotation>::empty());
    assert(registered(s, name, info, Seq::<StageAnnotation>::empty()) == s);
    assert(registered(s, name, info, seq![out]) == registered_one(s, name, info, out));
    assert(registered(s, name, info, both) == registered_one(
        registered_one(s, name, info, out),
        name,
        info,
        into,
    ));
}

/// The name of a field is the name of one of the fields.
pub proof fn lemma_has_field(fields: Seq<StructFieldView>, i: int)
    requires
        0 <= i < fields.len(),
    ensures
        has_field(fields, fields[i].name),
    decreases fields.len(),
{
    if i < fields.len() - 1 {
        lemma_has_field(fields.drop_last(), i);
    }
}

/// Uniform deduplication: in every state of a compilation, no two uniform
/// declarations are the same text.
pub proof fn law_uniforms_distinct(s: BackendState, i: int, j: int)
    requires
        coherent(s),
        0 <= i < s.uniform_decls.len(),
        0 <= j < s.uniform_decls.len(),
        i != j,
    ensures
        s.uniform_decls[i] != s.uniform_decls[j],
{
}

/// Stage isolation: a function taken in as the entry of one stage changes
/// the finished shader of no other stage. Only a helper, taken in under no
/// stage, reaches every shader.
pub proof fn law_stage_isolation(s: BackendState, f: FunctionView, other: Stage)
    requires
        is_concrete(s.current_function_stage),
        other != s.current_function_stage,
    ensures
        finished_text(after_function(s, f), other) == finished_text(s, other),
        after_function(s, f).helper_functions == s.helper_functions,
{
}

/// A joined text starts with its first part.
pub proof fn lemma_join_starts_with_first(parts: Seq<Seq<char>>, sep: Seq<char>)
    requires
        parts.len() > 0,
    ensures
        parts[0].is_prefix_of(join(parts, sep)),
    decreases parts.len(),
{
    if parts.len() > 1 {
        lemma_join_starts_with_first(parts.drop_last(), sep);
        let shorter = join(parts.drop_last(), sep);
        assert(parts[0] =~= (shorter + sep + parts.last()).subrange(0, parts[0].len() as int));
    } else {
        assert(parts[0] =~= parts[0].subrange(0, parts[0].len() as int));
    }
}

/// Every shader starts with the version: the text of a stage that has an
/// entry function leads with the `#version` line of the compilation.
pub proof fn law_shader_starts_with_version(s: BackendState, stage: Stage, f: FunctionView)
    ensures
        version_line(s).is_prefix_of(stage_shader(s, stage, f)),
{
    let sections = shader_sections(s, stage);
    let version = version_line(s);
    assert(sections[0] == version);
    lemma_join_starts_with_first(sections, "\n\n"@);
    let shader = stage_shader(s, stage, f);
    assert(version =~= shader.subrange(0, version.len() as int));
}

/// One slot per stage: a compilation with the OpenGL back-end that does not
/// fail hands back the fourteen slots it started with, in their order,
/// each with the finished text of its stage.
pub proof fn law_one_slot_per_stage(nodes: Seq<ExpressionView>, m: BackendState)
    ensures
        compiled::<OpenGLBackend>(nodes, m) matches Ok((last, slots)) ==> {
            &&& same_stages(slots, empty_slots())
            &&& forall|i: int|
                0 <= i < slots.len() ==> (#[trigger] slots[i]).0 == finished_text(
                    last,
                    slots[i].1,
                )
        },
{
    lemma_walk_keeps_stages::<OpenGLBackend>(nodes, 0, m, Stage::All, empty_slots());
}

/// Whether two states hold the same functions: the same entry function for
/// every stage, and the same helper functions.
pub open spec fn same_functions(a: BackendState, b: BackendState) -> bool {
    a.stage_functions == b.stage_functions && a.helper_functions == b.helper_functions
}

/// Registering stage blocks changes no function.
pub proof fn lemma_registered_functions(
    s: BackendState,
    name: Seq<char>,
    info: StructInfoView,
    stages: Seq<StageAnnotation>,
)
    ensures
        same_functions(registered(s, name, info, stages), s),
    decreases stages.len(),
{
    if stages.len() > 0 {
        lemma_registered_functions(s, name, info, stages.drop_last());
    }
}

/// The declarations of a block change no function.
pub proof fn lemma_declarations_functions(s: BackendState, tokens: Seq<Seq<char>>, index: int)
    requires
        0 <= index,
    ensures
        declarations_from(s, tokens, index) matches Ok(next) ==> same_functions(next, s),
    decreases tokens.len() - index,
{
    if index < tokens.len() {
        let rest = tokens.subrange(index, tokens.len() as int);
        lemma_declaration_advances(s, rest);
        if let Ok(Some((next, used))) = declaration_step(s, rest) {
            if rest[0] == "struct"@ {
                if let StructParse::Declared { name, fields, consumed: taken } = parsed_struct(
                    rest,
                ) {
                    let aligned = consumed(s.pending_annotations, AnnotationKind::Align);
                    lemma_registered_functions(
                        with_pending(s, without_stage_annotations(aligned)),
                        name,
                        StructInfoView {
                            fields,
                            alignment: waiting_alignment(s.pending_annotations),
                        },
                        stage_annotations(aligned),
                    );
                }
            }
            lemma_declarations_functions(next, tokens, index + used);
        }
    }
}

/// A translatable block changes no function.
pub proof fn lemma_block_functions(s: BackendState, block: Seq<Seq<char>>)
    ensures
        after_block(s, block) matches Ok(next) ==> same_functions(next, s),
{
    lemma_words_read(cleared(s), s.awaiting, block);
    if let Ok((next, taken)) = words_read(cleared(s), s.awaiting, block) {
        lemma_declarations_functions(next, block, taken);
    }
}

/// Stage isolation, for what is not a function: a builtin, an import or a
/// translatable block takes in no function, so it changes neither the entry
/// function of any stage nor the helper functions. The lexemes of a body
/// reach a shader only through the function that holds them.
pub proof fn law_only_functions_add_bodies(
    s: BackendState,
    builtin: BuiltinView,
    module: Seq<char>,
    block: Seq<Seq<char>>,
)
    ensures
        after_builtin(s, builtin) matches Ok((next, text, stage)) ==> same_functions(next, s),
        same_functions(after_use(s, module), s),
        after_block(s, block) matches Ok(next) ==> same_functions(next, s),
{
    lemma_block_functions(s, block);
}

} // verus!
