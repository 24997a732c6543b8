//! The OpenGL back-end: it takes in the nodes of a program one by one and,
//! at the end, writes one GLSL shader for every stage that has an entry
//! function. What each operation does to the state is fixed by the spec
//! functions of [`crate::model`].
use crate::annotations::{
    amend_annotation, annotation_views, parse_buffer_builtin, parse_output_builtin,
    parse_stage_builtin, parse_transform_builtin, parse_uniform_like_builtin, read_u32,
    read_usize, take_annotation, take_stage_annotations, transform_from_words, Annotation,
    AnnotationKind, Awaited, BufferAnnotation, OpenGLTransformAnnotation, OutputAnnotation,
    StageAnnotation, StageIO, TransformView,
};
use crate::backend::{slot_views, Answer, Backend, Slots, Stage};
use crate::body::{
    detect_struct_variable, find_param, find_text, format_function_args, format_function_body,
    option_text, BodyContext, Links,
};
use crate::error::{Error, ErrorView};
use crate::glsl::{is_scalar_type, map_type};
use crate::laws::{
    lemma_after_builtin_coherent, lemma_after_function_coherent, lemma_after_use_coherent,
    lemma_global_declared_coherent, lemma_registered_coherent, lemma_struct_declared_coherent,
    lemma_with_uniform_distinct,
};
use crate::model::{
    after_block, after_builtin, after_function, after_use, awaited_by, block_field_line,
    block_name, coherent, declarations_from, decorated, decorator, entry_context, finished_slots,
    global_declared, helper_text, hugs, initial_state, layout_items, layout_prefix,
    lemma_declaration_advances, links_of, parsed_global, plain_lexemes, raytracing_stage,
    registered,
    registered_one, resolved_version, section, shader_sections, spaced, stage_sections,
    stage_shader, stage_switch, struct_declared, switched_to, uniform_block,
    unknown_struct_message, version_line, with_uniform, words_read, BackendState, GlobalParse,
};
use crate::parser::{
    contents, Builtin, BuiltinView, FunctionExpression, FunctionView, TranslatableExpression,
    UseExpression,
};
use crate::structs::{
    append_suffix, declare_fields, find_brace, format_struct_definition, link_fields,
    parsed_struct, read_struct_fields, StructFieldView, StructInfo, StructParse,
};
use crate::table::Table;
use crate::text::{
    concat, contains_text, decimal_string, first_char, join_strings, lemma_concat_push,
    lemma_texts_push, str_eq, texts,
};
use vstd::prelude::*;
use vstd::slice::*;
use vstd::string::*;

verus! {

/// The map from stages to entry functions that a list of entries stands
/// for: the last entry for a stage is the one that counts.
pub open spec fn entry_map(entries: Seq<(Stage, FunctionExpression)>) -> Map<Stage, FunctionView>
    decreases entries.len(),
{
    if entries.len() == 0 {
        Map::empty()
    } else {
        entry_map(entries.drop_last()).insert(entries.last().0, entries.last().1@)
    }
}

/// The OpenGL back-end.
pub struct OpenGLBackend {
    include_paths: Vec<String>,
    pending_annotations: Vec<Annotation>,
    version_directive: Option<String>,
    structs: Table<StructInfo>,
    global_struct_decls: Vec<String>,
    global_decls: Vec<String>,
    uniform_decls: Vec<String>,
    vertex_input_struct: Option<String>,
    vertex_input_decls: Vec<String>,
    vertex_input_map: Table<String>,
    vertex_output_struct: Option<String>,
    vertex_output_decls: Vec<String>,
    vertex_output_map: Table<String>,
    varying_decls: Vec<String>,
    fragment_input_struct: Option<String>,
    fragment_input_decls: Vec<String>,
    fragment_input_map: Table<String>,
    fragment_output_decls: Vec<String>,
    helper_functions: Vec<String>,
    stage_functions: Vec<(Stage, FunctionExpression)>,
    current_function_stage: Stage,
    awaiting: Option<Awaited>,
}

/// Whether the lexeme starts with `(`, `)`, `,`, `[` or `]`.
fn hugs_previous(token: &str) -> (r: bool)
    ensures
        r == hugs(token@),
{
    match first_char(token) {
        Some(c) => c == '(' || c == ')' || c == ',' || c == '[' || c == ']',
        None => false,
    }
}

/// The lexemes up to, not including, index `to`, written as one text.
fn write_spaced(tokens: &[String], to: usize) -> (r: String)
    requires
        to <= tokens.len(),
    ensures
        r@ == spaced(texts(tokens@).subrange(0, to as int)),
{
    let ghost all = texts(tokens@);
    let mut line = String::new();
    let mut i: usize = 0;
    while i < to
        invariant
            i <= to <= tokens.len(),
            all == texts(tokens@),
            line@ == spaced(all.subrange(0, i as int)),
        decreases to - i,
    {
        let ghost taken = all.subrange(0, i + 1);
        assert(taken.drop_last() =~= all.subrange(0, i as int));
        assert(taken.last() == tokens@[i as int]@);
        if i == 0 {
            assert(line@ + tokens@[0]@ =~= tokens@[0]@);
        } else if !hugs_previous(tokens[i].as_str()) {
            line.append(" ");
        }
        line.append(tokens[i].as_str());
        i += 1;
    }
    line
}

/// The lexemes of a plain global as GLSL takes them.
fn plain_global_lexemes(
    tokens: &[String],
    semicolon: usize,
    start: usize,
    given: &Option<String>,
) -> (r: Vec<String>)
    requires
        semicolon <= tokens.len(),
    ensures
        texts(r@) == plain_lexemes(
            texts(tokens@).subrange(0, semicolon as int),
            start as int,
            option_text(*given),
        ),
{
    let ghost head = texts(tokens@).subrange(0, semicolon as int);
    let ghost wanted = plain_lexemes(head, start as int, option_text(*given));
    let mut r: Vec<String> = Vec::new();
    let mut i: usize = 0;
    while i < semicolon
        invariant
            i <= semicolon <= tokens.len(),
            r.len() == i,
            head == texts(tokens@).subrange(0, semicolon as int),
            wanted == plain_lexemes(head, start as int, option_text(*given)),
            forall|k: int| 0 <= k < i ==> (#[trigger] r@[k])@ == wanted[k],
        decreases semicolon - i,
    {
        assert(head[i as int] == tokens@[i as int]@);
        let lexeme = if i == start {
            map_type(tokens[i].as_str())
        } else {
            match given {
                Some(name) => if start < usize::MAX && i == start + 1 {
                    name.clone()
                } else {
                    tokens[i].clone()
                },
                None => tokens[i].clone(),
            }
        };
        r.push(lexeme);
        i += 1;
    }
    assert(texts(r@) =~= wanted);
    r
}

/// The strings from index `from` up to, not including, `to`, put one after
/// the other.
fn concat_range(tokens: &[String], from: usize, to: usize) -> (r: String)
    requires
        from <= to <= tokens.len(),
    ensures
        r@ == concat(texts(tokens@).subrange(from as int, to as int)),
{
    let ghost all = texts(tokens@);
    let mut r = String::new();
    let mut i: usize = from;
    assert(all.subrange(from as int, from as int) =~= Seq::<Seq<char>>::empty());
    while i < to
        invariant
            from <= i <= to <= tokens.len(),
            all == texts(tokens@),
            r@ == concat(all.subrange(from as int, i as int)),
        decreases to - i,
    {
        proof {
            lemma_concat_push(all.subrange(from as int, i as int), all[i as int]);
            assert(all.subrange(from as int, i as int).push(all[i as int]) =~= all.subrange(
                from as int,
                i + 1,
            ));
        }
        r.append(tokens[i].as_str());
        i += 1;
    }
    r
}

/// The `#version` line that the lexemes after `@hana` ask for.
pub fn resolve_version(tokens: &[String]) -> (r: String)
    ensures
        r@ == resolved_version(texts(tokens@)),
{
    if tokens.len() == 0 || str_eq(tokens[0].as_str(), "latest") {
        String::from_str("#version 410 core")
    } else {
        let mut r = String::from_str("#version ");
        r.append(tokens[0].as_str());
        r.append(" core");
        r
    }
}

/// Appends `decls`, joined by newlines, as one section; nothing for an
/// empty list.
fn push_section(sections: &mut Vec<String>, decls: &Vec<String>)
    ensures
        texts(final(sections)@) == texts(old(sections)@) + section(texts(decls@)),
{
    if decls.len() > 0 {
        let joined = join_strings(decls, "\n");
        proof {
            lemma_texts_push(sections@, joined);
            assert(texts(sections@).push(joined@) =~= texts(sections@) + section(texts(decls@)));
        }
        sections.push(joined);
    } else {
        assert(texts(sections@) =~= texts(sections@) + section(texts(decls@)));
    }
}

/// The uniform block that wraps the global `instance_name` of the struct
/// type described by `info`.
fn write_uniform_block(
    info: &StructInfo,
    instance_name: &str,
    binding: Option<u32>,
    transform: &Option<OpenGLTransformAnnotation>,
) -> (r: String)
    ensures
        r@ == uniform_block(info@, instance_name@, binding, transform_view(*transform)),
{
    let ghost view = transform_view(*transform);
    let mut items: Vec<String> = Vec::new();
    assert(texts(items@) =~= Seq::<Seq<char>>::empty());
    if let Some(alignment) = &info.alignment {
        let item = alignment.clone();
        proof {
            lemma_texts_push(items@, item);
        }
        items.push(item);
    }
    if let Some(number) = binding {
        let mut item = String::from_str("binding = ");
        item.append(decimal_string(number as u64).as_str());
        proof {
            lemma_texts_push(items@, item);
        }
        items.push(item);
    }
    assert(texts(items@) =~= layout_items(info@.alignment, binding));
    let mut block = String::new();
    if items.len() > 0 {
        block = String::from_str("layout(");
        block.append(join_strings(&items, ", ").as_str());
        block.append(") ");
    }
    assert(block@ == layout_prefix(layout_items(info@.alignment, binding)));
    block.append("uniform ");
    let mut default_name = String::from_str(instance_name);
    default_name.append("_Block");
    let name = match transform {
        Some(t) => match &t.block_name {
            Some(given) => given.clone(),
            None => default_name,
        },
        None => default_name,
    };
    assert(name@ == block_name(instance_name@, view));
    let max: Option<usize> = match transform {
        Some(t) => Some(t.max_elements),
        None => None,
    };
    block.append(name.as_str());
    block.append(" {\n");
    let ghost lines = info@.fields.map_values(|f: StructFieldView| block_field_line(f, max));
    let mut body = String::new();
    let mut i: usize = 0;
    assert(lines.subrange(0, 0) =~= Seq::<Seq<char>>::empty());
    while i < info.fields.len()
        invariant
            i <= info.fields.len(),
            lines == info@.fields.map_values(|f: StructFieldView| block_field_line(f, max)),
            body@ == concat(lines.subrange(0, i as int)),
        decreases info.fields.len() - i,
    {
        let field = &info.fields[i];
        let mut line = String::from_str("    ");
        line.append(map_type(field.typ.as_str()).as_str());
        line.append(" ");
        line.append(field.name.as_str());
        let widened = match max {
            Some(count) => if !is_scalar_type(field.typ.as_str()) {
                Some(count)
            } else {
                None
            },
            None => None,
        };
        match widened {
            Some(count) => {
                line.append("[");
                line.append(decimal_string(count as u64).as_str());
                line.append("];\n");
            },
            None => {
                append_suffix(&mut line, &field.array_suffix);
                line.append(";\n");
            },
        }
        proof {
            assert(line@ == block_field_line(field@, max));
            assert(lines[i as int] == block_field_line(field@, max));
            lemma_concat_push(lines.subrange(0, i as int), line@);
            assert(lines.subrange(0, i as int).push(line@) =~= lines.subrange(0, i + 1));
        }
        body.append(line.as_str());
        i += 1;
    }
    assert(lines.subrange(0, i as int) =~= lines);
    block.append(body.as_str());
    block.append("} ");
    block.append(instance_name);
    block.append(";");
    block
}

/// The raytracing stage that the word names.
fn read_raytracing_stage(word: &str) -> (r: Option<Stage>)
    ensures
        r == raytracing_stage(word@),
{
    if str_eq(word, "generation") {
        Some(Stage::RaytracingGeneration)
    } else if str_eq(word, "closest") {
        Some(Stage::RaytracingClosest)
    } else if str_eq(word, "any") {
        Some(Stage::RaytracingAny)
    } else if str_eq(word, "miss") {
        Some(Stage::RaytracingMiss)
    } else if str_eq(word, "intersection") {
        Some(Stage::RaytracingIntersection)
    } else if str_eq(word, "callable") {
        Some(Stage::RaytracingCallable)
    } else {
        None
    }
}

/// The builtin that waits for its words after `builtin`.
fn awaited_for(builtin: &Builtin) -> (r: Option<Awaited>)
    ensures
        r == awaited_by(builtin@.name, contents(builtin@.args)),
{
    let name = builtin.name.as_str();
    if builtin.args.len() > 0 {
        None
    } else if str_eq(name, "opengl") {
        Some(Awaited::OpenGLName)
    } else if str_eq(name, "align") {
        Some(Awaited::Align)
    } else if str_eq(name, "output") {
        Some(Awaited::Output)
    } else if str_eq(name, "openglTransformToUniform") {
        Some(Awaited::OpenGLTransform)
    } else if str_eq(name, "tessellation") {
        Some(Awaited::Tessellation)
    } else if str_eq(name, "raytracing") {
        Some(Awaited::Raytracing)
    } else {
        None
    }
}

/// The view of an optional transform.
pub open spec fn transform_view(t: Option<OpenGLTransformAnnotation>) -> Option<TransformView> {
    match t {
        Some(a) => Some(a@),
        None => None,
    }
}

impl OpenGLBackend {
    /// The state of the back-end.
    pub closed spec fn state(&self) -> BackendState {
        BackendState {
            include_paths: texts(self.include_paths@),
            pending_annotations: annotation_views(self.pending_annotations@),
            version_directive: option_text(self.version_directive),
            structs: self.structs.map(),
            global_struct_decls: texts(self.global_struct_decls@),
            global_decls: texts(self.global_decls@),
            uniform_decls: texts(self.uniform_decls@),
            vertex_input_struct: option_text(self.vertex_input_struct),
            vertex_input_decls: texts(self.vertex_input_decls@),
            vertex_input_map: self.vertex_input_map.map(),
            vertex_output_struct: option_text(self.vertex_output_struct),
            vertex_output_decls: texts(self.vertex_output_decls@),
            vertex_output_map: self.vertex_output_map.map(),
            varying_decls: texts(self.varying_decls@),
            fragment_input_struct: option_text(self.fragment_input_struct),
            fragment_input_decls: texts(self.fragment_input_decls@),
            fragment_input_map: self.fragment_input_map.map(),
            fragment_output_decls: texts(self.fragment_output_decls@),
            helper_functions: texts(self.helper_functions@),
            stage_functions: entry_map(self.stage_functions@),
            current_function_stage: self.current_function_stage,
            awaiting: self.awaiting,
        }
    }

    /// A back-end at the start of a compilation.
    pub fn new() -> (r: Self)
        ensures
            r.state() == initial_state(),
            r.valid(),
    {
        let r = Self {
            include_paths: Vec::new(),
            pending_annotations: Vec::new(),
            version_directive: None,
            structs: Table::new(),
            global_struct_decls: Vec::new(),
            global_decls: Vec::new(),
            uniform_decls: Vec::new(),
            vertex_input_struct: None,
            vertex_input_decls: Vec::new(),
            vertex_input_map: Table::new(),
            vertex_output_struct: None,
            vertex_output_decls: Vec::new(),
            vertex_output_map: Table::new(),
            varying_decls: Vec::new(),
            fragment_input_struct: None,
            fragment_input_decls: Vec::new(),
            fragment_input_map: Table::new(),
            fragment_output_decls: Vec::new(),
            helper_functions: Vec::new(),
            stage_functions: Vec::new(),
            current_function_stage: Stage::All,
            awaiting: None,
        };
        proof {
            assert(texts(r.include_paths@) =~= Seq::<Seq<char>>::empty());
            assert(texts(r.global_struct_decls@) =~= Seq::<Seq<char>>::empty());
            assert(texts(r.global_decls@) =~= Seq::<Seq<char>>::empty());
            assert(texts(r.uniform_decls@) =~= Seq::<Seq<char>>::empty());
            assert(texts(r.vertex_input_decls@) =~= Seq::<Seq<char>>::empty());
            assert(texts(r.vertex_output_decls@) =~= Seq::<Seq<char>>::empty());
            assert(texts(r.varying_decls@) =~= Seq::<Seq<char>>::empty());
            assert(texts(r.fragment_input_decls@) =~= Seq::<Seq<char>>::empty());
            assert(texts(r.fragment_output_decls@) =~= Seq::<Seq<char>>::empty());
            assert(texts(r.helper_functions@) =~= Seq::<Seq<char>>::empty());
            assert(annotation_views(r.pending_annotations@) =~= Seq::empty());
        }
        r
    }

    /// Adds a uniform declaration, unless it is there already: the list of
    /// uniform declarations never holds the same text twice.
    pub fn push_uniform_decl(&mut self, declaration: String)
        ensures
            final(self).state() == (BackendState {
                uniform_decls: with_uniform(old(self).state().uniform_decls, declaration@),
                ..old(self).state()
            }),
            old(self).valid() ==> final(self).valid(),
    {
        proof {
            if coherent(self.state()) {
                lemma_with_uniform_distinct(self.state().uniform_decls, declaration@);
            }
        }
        if !contains_text(&self.uniform_decls, declaration.as_str()) {
            proof {
                lemma_texts_push(self.uniform_decls@, declaration);
            }
            self.uniform_decls.push(declaration);
        }
    }

    /// Registers the struct `name` as the stage block that `ann` names.
    fn register_one(&mut self, name: &str, info: &StructInfo, ann: StageAnnotation)
        ensures
            final(self).state() == registered_one(old(self).state(), name@, info@, ann),
    {
        match (ann.stage, ann.io) {
            (Stage::Vertex, StageIO::In) => {
                if self.vertex_input_struct.is_none() {
                    self.vertex_input_struct = Some(String::from_str(name));
                    declare_fields(&mut self.vertex_input_decls, info, "in", "a_");
                    link_fields(&mut self.vertex_input_map, info, "a_");
                }
            },
            (Stage::Vertex, StageIO::Out) => {
                if self.vertex_output_struct.is_none() {
                    self.vertex_output_struct = Some(String::from_str(name));
                    declare_fields(&mut self.vertex_output_decls, info, "out", "v_");
                    declare_fields(&mut self.varying_decls, info, "in", "v_");
                    link_fields(&mut self.vertex_output_map, info, "v_");
                    link_fields(&mut self.fragment_input_map, info, "v_");
                }
            },
            (Stage::Fragment, StageIO::In) => {
                if self.fragment_input_struct.is_none() {
                    self.fragment_input_struct = Some(String::from_str(name));
                    declare_fields(&mut self.fragment_input_decls, info, "in", "v_");
                    link_fields(&mut self.fragment_input_map, info, "v_");
                }
            },
            _ => {},
        }
    }

    /// Registers the struct `name` as each of the stage blocks that
    /// `stages` name, in order.
    pub fn register_stage_struct(
        &mut self,
        name: &str,
        info: &StructInfo,
        stages: &Vec<StageAnnotation>,
    )
        ensures
            final(self).state() == registered(old(self).state(), name@, info@, stages@),
            old(self).valid() ==> final(self).valid(),
    {
        proof {
            if coherent(self.state()) {
                lemma_registered_coherent(self.state(), name@, info@, stages@);
            }
        }
        let mut i: usize = 0;
        assert(stages@.subrange(0, 0) =~= Seq::<StageAnnotation>::empty());
        while i < stages.len()
            invariant
                i <= stages.len(),
                self.state() == registered(
                    old(self).state(),
                    name@,
                    info@,
                    stages@.subrange(0, i as int),
                ),
            decreases stages.len() - i,
        {
            let ghost taken = stages@.subrange(0, i + 1);
            assert(taken.drop_last() =~= stages@.subrange(0, i as int));
            self.register_one(name, info, stages[i]);
            i += 1;
        }
        assert(stages@.subrange(0, i as int) =~= stages@);
    }

    /// Reads the struct that the lexemes start with and declares it.
    /// Returns the number of lexemes consumed.
    fn parse_struct(&mut self, tokens: &[String]) -> (r: usize)
        ensures
            match parsed_struct(texts(tokens@)) {
                StructParse::Absent => r == 0 && final(self).state() == old(self).state(),
                StructParse::Unopened => r == tokens.len() && final(self).state()
                    == old(self).state(),
                StructParse::Declared { name, fields, consumed } => r == consumed
                    && final(self).state() == struct_declared(old(self).state(), name, fields),
            },
    {
        let ghost all = texts(tokens@);
        let n = tokens.len();
        if n < 3 || !str_eq(tokens[0].as_str(), "struct") {
            return 0;
        }
        let mut index: usize = 2;
        while index < n && !str_eq(tokens[index].as_str(), "{")
            invariant
                2 <= index <= n,
                n == tokens.len(),
                all == texts(tokens@),
                find_brace(all, 2) == find_brace(all, index as int),
            decreases n - index,
        {
            index += 1;
        }
        if index >= n {
            return n;
        }
        let (fields, consumed) = read_struct_fields(tokens, index + 1);
        let alignment = match take_annotation(
            &mut self.pending_annotations,
            AnnotationKind::Align,
        ) {
            Some(Annotation::Align(layout)) => Some(layout),
            _ => None,
        };
        let stages = take_stage_annotations(&mut self.pending_annotations);
        let info = StructInfo { fields, alignment };
        self.register_stage_struct(tokens[1].as_str(), &info, &stages);
        let definition = format_struct_definition(tokens[1].as_str(), &info);
        proof {
            lemma_texts_push(self.global_struct_decls@, definition);
        }
        self.global_struct_decls.push(definition);
        self.structs.insert(tokens[1].clone(), info);
        consumed
    }

    /// Declares the uniform block that wraps a global of struct type; fails
    /// where the type is no declared struct.
    fn build_uniform_block(
        &mut self,
        struct_type: &str,
        instance_name: &str,
        buffer: BufferAnnotation,
        transform: Option<OpenGLTransformAnnotation>,
    ) -> (r: Result<(), Error>)
        ensures
            old(self).state().structs.contains_key(struct_type@) ==> r is Ok
                && final(self).state() == (BackendState {
                uniform_decls: with_uniform(
                    old(self).state().uniform_decls,
                    uniform_block(
                        old(self).state().structs[struct_type@],
                        instance_name@,
                        buffer.binding,
                        transform_view(transform),
                    ),
                ),
                ..old(self).state()
            }),
            !old(self).state().structs.contains_key(struct_type@) ==> (r matches Err(e) && e@
                == ErrorView::Internal(unknown_struct_message(struct_type@)))
                && final(self).state() == old(self).state(),
    {
        let block = match self.structs.get(struct_type) {
            Some(info) => write_uniform_block(info, instance_name, buffer.binding, &transform),
            None => {
                let mut message = String::from_str("Struct '");
                message.append(struct_type);
                message.append("' not found for buffer declaration.");
                return Err(Error::InternalError(message));
            },
        };
        self.push_uniform_decl(block);
        Ok(())
    }

    /// Reads the global declaration that the lexemes start with and
    /// declares it. Returns the number of lexemes consumed.
    fn parse_global_declaration(&mut self, tokens: &[String]) -> (r: Result<usize, Error>)
        ensures
            coherent(old(self).state()) ==> coherent(final(self).state()),
            match parsed_global(texts(tokens@)) {
                GlobalParse::Absent => r == Ok::<usize, Error>(0) && final(self).state()
                    == old(self).state(),
                GlobalParse::Passed { consumed } => r == Ok::<usize, Error>(consumed as usize)
                    && consumed <= tokens.len() && final(self).state() == old(self).state(),
                GlobalParse::Declared { typ, name, head, start, consumed } => match global_declared(
                    old(self).state(),
                    typ,
                    name,
                    head,
                    start,
                ) {
                    Ok(next) => r == Ok::<usize, Error>(consumed as usize) && consumed
                        <= tokens.len() && final(self).state() == next,
                    Err(e) => r matches Err(x) && x@ == e,
                },
            },
    {
        let ghost all = texts(tokens@);
        proof {
            if let GlobalParse::Declared { typ, name, head, start, consumed } = parsed_global(all) {
                if coherent(self.state()) {
                    lemma_global_declared_coherent(self.state(), typ, name, head, start);
                }
            }
        }
        let n = tokens.len();
        let mut semicolon: usize = 0;
        while semicolon < n && !str_eq(tokens[semicolon].as_str(), ";")
            invariant
                semicolon <= n,
                n == tokens.len(),
                all == texts(tokens@),
                find_text(all, 0, ";"@) == find_text(all, semicolon as int, ";"@),
            decreases n - semicolon,
        {
            semicolon += 1;
        }
        if semicolon >= n {
            return Ok(0);
        }
        let start: usize = if str_eq(tokens[0].as_str(), "const") {
            1
        } else {
            0
        };
        if start + 1 >= semicolon {
            return Ok(semicolon + 1);
        }
        let name = concat_range(tokens, start + 1, semicolon);
        let type_token = tokens[start].as_str();
        let given = match take_annotation(
            &mut self.pending_annotations,
            AnnotationKind::OpenGLName,
        ) {
            Some(Annotation::OpenGLName(given)) => Some(given),
            _ => None,
        };
        let glsl_name = match &given {
            Some(given) => given.clone(),
            None => name,
        };
        if let Some(Annotation::Output(output)) = take_annotation(
            &mut self.pending_annotations,
            AnnotationKind::Output,
        ) {
            let mut decl = String::from_str("layout(location = ");
            decl.append(decimal_string(output.location as u64).as_str());
            decl.append(") out ");
            decl.append(map_type(type_token).as_str());
            decl.append(" ");
            decl.append(glsl_name.as_str());
            decl.append(";");
            proof {
                lemma_texts_push(self.fragment_output_decls@, decl);
            }
            self.fragment_output_decls.push(decl);
            return Ok(semicolon + 1);
        }
        let transform = match take_annotation(
            &mut self.pending_annotations,
            AnnotationKind::OpenGLTransform,
        ) {
            Some(Annotation::OpenGLTransform(t)) => Some(t),
            _ => None,
        };
        if let Some(Annotation::Buffer(buffer)) = take_annotation(
            &mut self.pending_annotations,
            AnnotationKind::Buffer,
        ) {
            return match self.build_uniform_block(type_token, glsl_name.as_str(), buffer, transform) {
                Ok(()) => Ok(semicolon + 1),
                Err(e) => Err(e),
            };
        }
        let has_push = take_annotation(
            &mut self.pending_annotations,
            AnnotationKind::PushConstant,
        ).is_some();
        let has_uniform = take_annotation(
            &mut self.pending_annotations,
            AnnotationKind::Uniform,
        ).is_some();
        if has_push || has_uniform {
            let mut decl = String::from_str("uniform ");
            decl.append(map_type(type_token).as_str());
            decl.append(" ");
            decl.append(glsl_name.as_str());
            decl.append(";");
            self.push_uniform_decl(decl);
            return Ok(semicolon + 1);
        }
        let lexemes = plain_global_lexemes(tokens, semicolon, start, &given);
        let mut line = write_spaced(lexemes.as_slice(), lexemes.len());
        line.append(";");
        proof {
            assert(texts(lexemes@).subrange(0, lexemes.len() as int) =~= texts(lexemes@));
            lemma_texts_push(self.global_decls@, line);
        }
        self.global_decls.push(line);
        Ok(semicolon + 1)
    }

    /// The entry function of `stage`, if it has one.
    fn find_entry(&self, stage: Stage) -> (r: Option<&FunctionExpression>)
        ensures
            match r {
                Some(f) => self.state().stage_functions.contains_key(stage) && f@
                    == self.state().stage_functions[stage],
                None => !self.state().stage_functions.contains_key(stage),
            },
    {
        let mut i: usize = self.stage_functions.len();
        assert(self.stage_functions@.subrange(0, i as int) =~= self.stage_functions@);
        while i > 0
            invariant
                i <= self.stage_functions.len(),
                entry_map(self.stage_functions@).contains_key(stage) == entry_map(
                    self.stage_functions@.subrange(0, i as int),
                ).contains_key(stage),
                entry_map(self.stage_functions@).contains_key(stage) ==> entry_map(
                    self.stage_functions@,
                )[stage] == entry_map(self.stage_functions@.subrange(0, i as int))[stage],
            decreases i,
        {
            let ghost taken = self.stage_functions@.subrange(0, i as int);
            assert(taken.drop_last() =~= self.stage_functions@.subrange(0, i - 1));
            assert(taken.last() == self.stage_functions@[i - 1]);
            i -= 1;
            if self.stage_functions[i].0 == stage {
                return Some(&self.stage_functions[i].1);
            }
        }
        None
    }

    /// The three link tables.
    fn links(&self) -> (r: Links<'_>)
        ensures
            r@ == links_of(self.state()),
    {
        Links {
            vertex_input: &self.vertex_input_map,
            vertex_output: &self.vertex_output_map,
            fragment_input: &self.fragment_input_map,
        }
    }

    /// The shader of `stage`, whose entry function is `func`.
    fn build_stage_shader(&self, stage: Stage, func: &FunctionExpression) -> (r: String)
        ensures
            r@ == stage_shader(self.state(), stage, func@),
    {
        let ghost s = self.state();
        let version = match &self.version_directive {
            Some(line) => line.clone(),
            None => String::from_str("#version 410 core"),
        };
        let mut sections: Vec<String> = Vec::new();
        assert(texts(sections@.push(version)) =~= seq![version_line(s)]);
        sections.push(version);
        push_section(&mut sections, &self.global_struct_decls);
        push_section(&mut sections, &self.uniform_decls);
        let ghost shared = texts(sections@);
        match stage {
            Stage::Vertex => {
                push_section(&mut sections, &self.vertex_input_decls);
                push_section(&mut sections, &self.vertex_output_decls);
            },
            Stage::Fragment => {
                if self.fragment_input_struct.is_some() {
                    push_section(&mut sections, &self.fragment_input_decls);
                } else {
                    push_section(&mut sections, &self.varying_decls);
                }
                push_section(&mut sections, &self.fragment_output_decls);
            },
            _ => {},
        }
        assert(texts(sections@) =~= shared + stage_sections(s, stage));
        push_section(&mut sections, &self.global_decls);
        push_section(&mut sections, &self.helper_functions);
        assert(texts(sections@) == shader_sections(s, stage));
        let input_param = match stage {
            Stage::Vertex => find_param(func.args.as_slice(), &self.vertex_input_struct),
            Stage::Fragment => if self.fragment_input_struct.is_some() {
                find_param(func.args.as_slice(), &self.fragment_input_struct)
            } else {
                find_param(func.args.as_slice(), &self.vertex_output_struct)
            },
            _ => None,
        };
        let output_var = match stage {
            Stage::Vertex => detect_struct_variable(
                func.body.expressions.as_slice(),
                &self.vertex_output_struct,
            ),
            _ => None,
        };
        let ctx = BodyContext { input_param, output_var };
        assert(ctx@ == entry_context(s, stage, func@));
        let links = self.links();
        let body = format_function_body(func.body.expressions.as_slice(), &links, stage, &ctx);
        let mut source = join_strings(&sections, "\n\n");
        if !source.as_str().is_empty() {
            source.append("\n\n");
        }
        source.append("void main() {\n");
        source.append(body.as_str());
        source.append("}\n");
        source
    }

    /// The helper function `func` written out.
    fn build_helper_function(&self, func: &FunctionExpression) -> (r: String)
        ensures
            r@ == helper_text(self.state(), func@),
    {
        let mut source = map_type(func.return_type.as_str());
        source.append(" ");
        source.append(func.name.as_str());
        source.append("(");
        source.append(format_function_args(func.args.as_slice()).as_str());
        source.append(")");
        source.append(" {\n");
        let ctx = BodyContext { input_param: None, output_var: None };
        let links = self.links();
        let body = format_function_body(
            func.body.expressions.as_slice(),
            &links,
            Stage::All,
            &ctx,
        );
        source.append(body.as_str());
        source.append("}\n");
        source
    }

    /// Declares the structs and globals of a block from position `from`
    /// on, in order.
    fn declare_all(&mut self, tokens: &[String], from: usize) -> (r: Result<(), Error>)
        requires
            from <= tokens.len(),
        ensures
            coherent(old(self).state()) ==> coherent(final(self).state()),
            match declarations_from(old(self).state(), texts(tokens@), from as int) {
                Ok(next) => r is Ok && final(self).state() == next,
                Err(e) => r matches Err(x) && x@ == e,
            },
    {
        let ghost all = texts(tokens@);
        let n = tokens.len();
        let mut index: usize = from;
        loop
            invariant_except_break
                declarations_from(old(self).state(), all, from as int) == declarations_from(
                    self.state(),
                    all,
                    index as int,
                ),
            invariant
                index <= n,
                n == tokens.len(),
                all == texts(tokens@),
                coherent(old(self).state()) ==> coherent(self.state()),
            ensures
                declarations_from(old(self).state(), all, from as int) == Ok::<
                    BackendState,
                    ErrorView,
                >(self.state()),
            decreases n - index,
        {
            if index >= n {
                break ;
            }
            let rest = slice_subrange(tokens, index, n);
            proof {
                assert(texts(rest@) =~= all.subrange(index as int, n as int));
                lemma_declaration_advances(self.state(), texts(rest@));
            }
            let word = tokens[index].as_str();
            if str_eq(word, "struct") {
                proof {
                    if let StructParse::Declared { name, fields, consumed } = parsed_struct(
                        texts(rest@),
                    ) {
                        if coherent(self.state()) {
                            lemma_struct_declared_coherent(self.state(), name, fields);
                        }
                    }
                }
                let consumed = self.parse_struct(rest);
                if consumed == 0 {
                    break ;
                }
                index += consumed;
            } else if str_eq(word, ";") || str_eq(word, "}") {
                index += 1;
            } else {
                match self.parse_global_declaration(rest) {
                    Err(e) => {
                        return Err(e);
                    },
                    Ok(consumed) => {
                        if consumed == 0 {
                            break ;
                        }
                        index += consumed;
                    },
                }
            }
        }
        Ok(())
    }

    /// Gives the words at the start of a block to the builtin without
    /// parentheses that stands just before the block. Returns the number of
    /// words taken.
    fn read_words(&mut self, awaited: Option<Awaited>, tokens: &[String]) -> (r: Result<
        usize,
        Error,
    >)
        ensures
            coherent(old(self).state()) ==> coherent(final(self).state()),
            match words_read(old(self).state(), awaited, texts(tokens@)) {
                Ok((next, taken)) => r == Ok::<usize, Error>(taken as usize) && 0 <= taken
                    <= tokens.len() && final(self).state() == next,
                Err(e) => r matches Err(x) && x@ == e,
            },
    {
        let kind = match awaited {
            Some(kind) => kind,
            None => {
                return Ok(0);
            },
        };
        if tokens.len() == 0 {
            return Ok(0);
        }
        let word = tokens[0].as_str();
        assert(texts(tokens@)[0] == word@);
        match kind {
            Awaited::OpenGLName => {
                let annotation = Annotation::OpenGLName(tokens[0].clone());
                assert(annotation_views(self.pending_annotations@.push(annotation))
                    =~= annotation_views(self.pending_annotations@).push(annotation@));
                self.pending_annotations.push(annotation);
                Ok(1)
            },
            Awaited::Align => {
                let annotation = Annotation::Align(tokens[0].clone());
                assert(annotation_views(self.pending_annotations@.push(annotation))
                    =~= annotation_views(self.pending_annotations@).push(annotation@));
                self.pending_annotations.push(annotation);
                Ok(1)
            },
            Awaited::Output => match read_u32(word) {
                Some(location) => {
                    amend_annotation(
                        &mut self.pending_annotations,
                        Annotation::Output(OutputAnnotation { location }),
                    );
                    Ok(1)
                },
                None => Ok(0),
            },
            Awaited::OpenGLTransform => {
                let taken: usize = if tokens.len() > 1 && read_usize(tokens[1].as_str()).is_some() {
                    2
                } else {
                    1
                };
                assert(texts(tokens@)[1] == tokens@[1]@ || tokens.len() <= 1);
                let words = slice_subrange(tokens, 0, taken);
                assert(texts(words@) =~= texts(tokens@).subrange(0, taken as int));
                amend_annotation(
                    &mut self.pending_annotations,
                    Annotation::OpenGLTransform(transform_from_words(words)),
                );
                Ok(taken)
            },
            Awaited::Tessellation => {
                if str_eq(word, "control") {
                    self.current_function_stage = Stage::TessellationControl;
                    Ok(1)
                } else if str_eq(word, "evaluation") {
                    self.current_function_stage = Stage::TessellationEvaluation;
                    Ok(1)
                } else {
                    Err(
                        Error::InternalError(
                            String::from_str(
                                "Tessellation builtin requires a shader type argument (control/evaluation)",
                            ),
                        ),
                    )
                }
            },
            Awaited::Raytracing => match read_raytracing_stage(word) {
                Some(stage) => {
                    self.current_function_stage = stage;
                    Ok(1)
                },
                None => Err(
                    Error::InternalError(
                        String::from_str(
                            "Raytracing builtin requires a valid shader type argument (generation/closest/any/miss/intersection/callable)",
                        ),
                    ),
                ),
            },
        }
    }

    /// Puts one more annotation on the waiting list.
    fn decorate(&mut self, annotation: Annotation) -> (r: (String, Stage))
        ensures
            Ok::<(BackendState, Seq<char>, Stage), ErrorView>((final(self).state(), r.0@, r.1))
                == decorated(old(self).state(), annotation@),
    {
        assert(annotation_views(self.pending_annotations@.push(annotation)) =~= annotation_views(
            self.pending_annotations@,
        ).push(annotation@));
        self.pending_annotations.push(annotation);
        (String::new(), Stage::Same)
    }

    /// Makes `stage` the stage of the next function.
    fn switch_to(&mut self, stage: Stage) -> (r: (String, Stage))
        ensures
            Ok::<(BackendState, Seq<char>, Stage), ErrorView>((final(self).state(), r.0@, r.1))
                == switched_to(old(self).state(), stage),
    {
        self.current_function_stage = stage;
        (String::new(), stage)
    }

    /// What a decorating builtin does, if `builtin` is one.
    fn run_decorator(&mut self, builtin: &Builtin) -> (r: Option<(String, Stage)>)
        ensures
            match decorator(old(self).state(), builtin@.name, contents(builtin@.args)) {
                Some(answer) => r matches Some(found) && Ok::<
                    (BackendState, Seq<char>, Stage),
                    ErrorView,
                >((final(self).state(), found.0@, found.1)) == answer,
                None => r is None && final(self).state() == old(self).state(),
            },
    {
        let name = builtin.name.as_str();
        let args = builtin.args.as_slice();
        let ghost words = contents(builtin@.args);
        if args.len() > 0 {
            assert(words[0] == args@[0].content@);
        }
        if str_eq(name, "hana") {
            Some(self.decorate(Annotation::HanaVersion))
        } else if str_eq(name, "uniform") {
            Some(self.decorate(Annotation::Uniform(parse_uniform_like_builtin(args))))
        } else if str_eq(name, "opengl") {
            if args.len() > 0 {
                Some(self.decorate(Annotation::OpenGLName(args[0].content.clone())))
            } else {
                Some((String::new(), Stage::Same))
            }
        } else if str_eq(name, "stage") {
            match parse_stage_builtin(args) {
                Some(stage) => Some(self.decorate(Annotation::Stage(stage))),
                None => Some((String::new(), Stage::Same)),
            }
        } else if str_eq(name, "push") {
            Some(self.decorate(Annotation::PushConstant))
        } else if str_eq(name, "align") {
            if args.len() > 0 {
                Some(self.decorate(Annotation::Align(args[0].content.clone())))
            } else {
                Some((String::new(), Stage::Same))
            }
        } else if str_eq(name, "buffer") {
            Some(self.decorate(Annotation::Buffer(parse_buffer_builtin(args))))
        } else if str_eq(name, "openglTransformToUniform") {
            Some(self.decorate(Annotation::OpenGLTransform(parse_transform_builtin(args))))
        } else if str_eq(name, "output") {
            Some(self.decorate(Annotation::Output(parse_output_builtin(args))))
        } else {
            None
        }
    }

    /// What a stage switch does, if `builtin` is one.
    fn run_stage_switch(&mut self, builtin: &Builtin) -> (r: Option<Result<(String, Stage), Error>>)
        ensures
            match stage_switch(old(self).state(), builtin@.name, contents(builtin@.args)) {
                Some(Ok(answer)) => r matches Some(Ok(found)) && (
                    final(self).state(),
                    found.0@,
                    found.1,
                ) == answer,
                Some(Err(e)) => r matches Some(Err(x)) && x@ == e && final(self).state() == old(
                    self,
                ).state(),
                None => r is None && final(self).state() == old(self).state(),
            },
    {
        let name = builtin.name.as_str();
        let args = builtin.args.as_slice();
        let ghost words = contents(builtin@.args);
        if args.len() > 0 {
            assert(words[0] == args@[0].content@);
        }
        if str_eq(name, "vertex") {
            Some(Ok(self.switch_to(Stage::Vertex)))
        } else if str_eq(name, "fragment") {
            Some(Ok(self.switch_to(Stage::Fragment)))
        } else if str_eq(name, "tessellation") {
            if args.len() == 0 {
                Some(Ok((String::new(), Stage::Same)))
            } else if str_eq(args[0].content.as_str(), "control") {
                Some(Ok(self.switch_to(Stage::TessellationControl)))
            } else if str_eq(args[0].content.as_str(), "evaluation") {
                Some(Ok(self.switch_to(Stage::TessellationEvaluation)))
            } else {
                Some(
                    Err(
                        Error::InternalError(
                            String::from_str(
                                "Tessellation builtin requires a shader type argument (control/evaluation)",
                            ),
                        ),
                    ),
                )
            }
        } else if str_eq(name, "geometry") {
            Some(Ok(self.switch_to(Stage::Geometry)))
        } else if str_eq(name, "compute") {
            Some(Ok(self.switch_to(Stage::Compute)))
        } else if str_eq(name, "mesh") {
            Some(Ok(self.switch_to(Stage::Mesh)))
        } else if str_eq(name, "task") {
            Some(Ok(self.switch_to(Stage::Task)))
        } else if str_eq(name, "raytracing") {
            if !contains_text(&self.include_paths, "hana::raytracing") {
                Some(
                    Err(Error::InternalError(String::from_str("Raytracing extension not included."))),
                )
            } else if args.len() == 0 {
                Some(Ok((String::new(), Stage::Same)))
            } else {
                match read_raytracing_stage(args[0].content.as_str()) {
                    Some(stage) => Some(Ok(self.switch_to(stage))),
                    None => Some(
                        Err(
                            Error::InternalError(
                                String::from_str(
                                    "Raytracing builtin requires a valid shader type argument (generation/closest/any/miss/intersection/callable)",
                                ),
                            ),
                        ),
                    ),
                }
            }
        } else {
            None
        }
    }
}

impl Default for OpenGLBackend {
    fn default() -> (r: Self)
        ensures
            r.state() == initial_state(),
            r.valid(),
    {
        Self::new()
    }
}

impl Backend for OpenGLBackend {
    type Model = BackendState;

    open spec fn model(&self) -> BackendState {
        self.state()
    }

    open spec fn valid(&self) -> bool {
        coherent(self.state())
    }

    open spec fn translated(m: BackendState, block: Seq<Seq<char>>) -> Result<
        (BackendState, Seq<char>),
        ErrorView,
    > {
        match after_block(m, block) {
            Ok(next) => Ok((next, Seq::empty())),
            Err(e) => Err(e),
        }
    }

    open spec fn annotated(m: BackendState, builtin: BuiltinView) -> Answer<BackendState> {
        after_builtin(m, builtin)
    }

    open spec fn imported(m: BackendState, module: Seq<char>) -> (BackendState, Seq<char>) {
        (after_use(m, module), Seq::empty())
    }

    open spec fn declared(m: BackendState, function: FunctionView) -> (
        BackendState,
        Seq<char>,
    ) {
        (after_function(m, function), Seq::empty())
    }

    open spec fn finished(m: BackendState, slots: Slots) -> (BackendState, Slots) {
        (m, finished_slots(m, slots))
    }

    /// Takes in a translatable block: after `@hana` it names the version,
    /// else its structs and globals are declared. Nothing is handed back.
    fn run_translatable(&mut self, expressions: &TranslatableExpression) -> (r: Result<
        String,
        Error,
    >) {
        let tokens = expressions.expressions.as_slice();
        let awaited = self.awaiting;
        self.awaiting = None;
        if take_annotation(&mut self.pending_annotations, AnnotationKind::HanaVersion).is_some() {
            self.version_directive = Some(resolve_version(tokens));
            return Ok(String::new());
        }
        let taken = match self.read_words(awaited, tokens) {
            Ok(taken) => taken,
            Err(e) => {
                return Err(e);
            },
        };
        match self.declare_all(tokens, taken) {
            Ok(()) => Ok(String::new()),
            Err(e) => Err(e),
        }
    }

    /// Takes in a builtin: a decorator waits for the next declaration, a
    /// stage switch names the stage of the next function.
    fn run_builtin(&mut self, builtin: &Builtin) -> (r: Result<(String, Stage), Error>) {
        proof {
            lemma_after_builtin_coherent(self.state(), builtin@);
        }
        self.awaiting = None;
        let awaited = awaited_for(builtin);
        if let Some(answer) = self.run_decorator(builtin) {
            self.awaiting = awaited;
            return Ok(answer);
        }
        match self.run_stage_switch(builtin) {
            Some(Ok(answer)) => {
                self.awaiting = awaited;
                Ok(answer)
            },
            Some(Err(e)) => Err(e),
            None => {
                self.awaiting = awaited;
                Ok((String::new(), Stage::Same))
            },
        }
    }

    /// Takes in an import: the module is noted, once.
    fn run_use(&mut self, use_expr: &UseExpression) -> (r: String) {
        proof {
            lemma_after_use_coherent(self.state(), use_expr@);
        }
        self.awaiting = None;
        if !contains_text(&self.include_paths, use_expr.module.as_str()) {
            let module = use_expr.module.clone();
            proof {
                lemma_texts_push(self.include_paths@, module);
            }
            self.include_paths.push(module);
        }
        String::new()
    }

    /// Takes in a function: the entry of the current stage, or a helper.
    fn run_function(&mut self, func: &FunctionExpression) -> (r: String) {
        proof {
            lemma_after_function_coherent(self.state(), func@);
        }
        self.awaiting = None;
        match self.current_function_stage {
            Stage::All | Stage::Same => {
                let helper = self.build_helper_function(func);
                proof {
                    lemma_texts_push(self.helper_functions@, helper);
                }
                self.helper_functions.push(helper);
            },
            stage => {
                let ghost before = self.stage_functions@;
                self.stage_functions.push((stage, func.clone()));
                assert(self.stage_functions@.drop_last() =~= before);
                self.current_function_stage = Stage::All;
            },
        }
        String::new()
    }

    /// Ends the walk: every slot gets the shader of its stage, or nothing
    /// where the stage has no entry function.
    fn finalize(&mut self, outputs: &mut Vec<(String, Stage)>) {
        let ghost wanted = finished_slots(self.state(), slot_views(outputs@));
        let mut finished: Vec<(String, Stage)> = Vec::new();
        let mut i: usize = 0;
        while i < outputs.len()
            invariant
                i <= outputs.len(),
                finished.len() == i,
                outputs@ == old(outputs)@,
                self.state() == old(self).state(),
                wanted == finished_slots(self.state(), slot_views(outputs@)),
                forall|j: int|
                    0 <= j < i ==> (#[trigger] finished@[j]).0@ == wanted[j].0 && finished@[j].1
                        == wanted[j].1,
            decreases outputs.len() - i,
        {
            let stage = outputs[i].1;
            let text = match self.find_entry(stage) {
                Some(func) => self.build_stage_shader(stage, func),
                None => String::new(),
            };
            finished.push((text, stage));
            i += 1;
        }
        assert(slot_views(finished@) =~= wanted);
        *outputs = finished;
    }
}

} // verus!
