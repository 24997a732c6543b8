//! Annotations: what the decorating builtins say, and the list in which
//! they wait for the declaration that consumes them.
use crate::backend::Stage;
use crate::body::option_text;
use crate::parser::contents;
use crate::text::{chars_of, is_alphabetic_char, parse_bounded, parse_unsigned, str_eq, texts};
use crate::tokens::{token_views, Token};
use vstd::prelude::*;
use vstd::string::*;

verus! {

/// What `@uniform` says: the set and the binding, where they are given.
#[derive(Clone, Copy, Debug)]
pub struct UniformAnnotation {
    pub set: Option<u32>,
    pub binding: Option<u32>,
}

/// Whether a stage block is the input or the output of its stage.
#[derive(Clone, Copy, Debug, PartialEq, Eq, Structural)]
pub enum StageIO {
    In,
    Out,
}

/// What `@stage` says: the stage, and whether the block goes in or out.
#[derive(Clone, Copy, Debug)]
pub struct StageAnnotation {
    pub stage: Stage,
    pub io: StageIO,
}

/// What `@buffer` says: the set and the binding, where they are given.
#[derive(Clone, Copy, Debug)]
pub struct BufferAnnotation {
    pub set: Option<u32>,
    pub binding: Option<u32>,
}

/// What `@output` says: the location.
#[derive(Clone, Copy, Debug)]
pub struct OutputAnnotation {
    pub location: u32,
}

/// What `@openglTransformToUniform` says: the name of the block, where it
/// is given, and the number of elements of the widened fields.
#[derive(Debug)]
pub struct OpenGLTransformAnnotation {
    pub block_name: Option<String>,
    pub max_elements: usize,
}

/// The mathematical content of an [`OpenGLTransformAnnotation`].
pub struct TransformView {
    pub block_name: Option<Seq<char>>,
    pub max_elements: usize,
}

impl View for OpenGLTransformAnnotation {
    type V = TransformView;

    open spec fn view(&self) -> TransformView {
        TransformView {
            block_name: option_text(self.block_name),
            max_elements: self.max_elements,
        }
    }
}

/// A builtin that was written without parentheses and takes the words that
/// follow it as its arguments.
#[derive(Clone, Copy, Debug, PartialEq, Eq, Structural)]
pub enum Awaited {
    /// `@opengl <name>`
    OpenGLName,
    /// `@align <layout>`
    Align,
    /// `@output <location>`
    Output,
    /// `@openglTransformToUniform <block-name> <max-elements>`
    OpenGLTransform,
    /// `@tessellation <control|evaluation>`
    Tessellation,
    /// `@raytracing <kind>`
    Raytracing,
}

/// A decorating annotation.
#[derive(Debug)]
pub enum Annotation {
    Uniform(UniformAnnotation),
    OpenGLName(String),
    Stage(StageAnnotation),
    PushConstant,
    Align(String),
    Buffer(BufferAnnotation),
    Output(OutputAnnotation),
    OpenGLTransform(OpenGLTransformAnnotation),
    HanaVersion,
}

/// The mathematical content of an [`Annotation`].
pub enum AnnotationView {
    Uniform(UniformAnnotation),
    OpenGLName(Seq<char>),
    Stage(StageAnnotation),
    PushConstant,
    Align(Seq<char>),
    Buffer(BufferAnnotation),
    Output(OutputAnnotation),
    OpenGLTransform(TransformView),
    HanaVersion,
}

impl View for Annotation {
    type V = AnnotationView;

    open spec fn view(&self) -> AnnotationView {
        match *self {
            Annotation::Uniform(a) => AnnotationView::Uniform(a),
            Annotation::OpenGLName(name) => AnnotationView::OpenGLName(name@),
            Annotation::Stage(a) => AnnotationView::Stage(a),
            Annotation::PushConstant => AnnotationView::PushConstant,
            Annotation::Align(layout) => AnnotationView::Align(layout@),
            Annotation::Buffer(a) => AnnotationView::Buffer(a),
            Annotation::Output(a) => AnnotationView::Output(a),
            Annotation::OpenGLTransform(a) => AnnotationView::OpenGLTransform(a@),
            Annotation::HanaVersion => AnnotationView::HanaVersion,
        }
    }
}

/// The views of a list of annotations.
pub open spec fn annotation_views(items: Seq<Annotation>) -> Seq<AnnotationView> {
    items.map_values(|a: Annotation| a@)
}

/// The kinds of annotation.
#[derive(Clone, Copy, Debug, PartialEq, Eq, Structural)]
pub enum AnnotationKind {
    Uniform,
    OpenGLName,
    Stage,
    PushConstant,
    Align,
    Buffer,
    Output,
    OpenGLTransform,
    HanaVersion,
}

/// The kind of an annotation.
pub open spec fn kind_of(a: AnnotationView) -> AnnotationKind {
    match a {
        AnnotationView::Uniform(_) => AnnotationKind::Uniform,
        AnnotationView::OpenGLName(_) => AnnotationKind::OpenGLName,
        AnnotationView::Stage(_) => AnnotationKind::Stage,
        AnnotationView::PushConstant => AnnotationKind::PushConstant,
        AnnotationView::Align(_) => AnnotationKind::Align,
        AnnotationView::Buffer(_) => AnnotationKind::Buffer,
        AnnotationView::Output(_) => AnnotationKind::Output,
        AnnotationView::OpenGLTransform(_) => AnnotationKind::OpenGLTransform,
        AnnotationView::HanaVersion => AnnotationKind::HanaVersion,
    }
}

/// The kind of an annotation.
fn annotation_kind(a: &Annotation) -> (r: AnnotationKind)
    ensures
        r == kind_of(a@),
{
    match a {
        Annotation::Uniform(_) => AnnotationKind::Uniform,
        Annotation::OpenGLName(_) => AnnotationKind::OpenGLName,
        Annotation::Stage(_) => AnnotationKind::Stage,
        Annotation::PushConstant => AnnotationKind::PushConstant,
        Annotation::Align(_) => AnnotationKind::Align,
        Annotation::Buffer(_) => AnnotationKind::Buffer,
        Annotation::Output(_) => AnnotationKind::Output,
        Annotation::OpenGLTransform(_) => AnnotationKind::OpenGLTransform,
        Annotation::HanaVersion => AnnotationKind::HanaVersion,
    }
}

/// The first position at or after `from` that holds an annotation of kind
/// `kind`, or the length of the list.
pub open spec fn first_of_kind(pending: Seq<AnnotationView>, kind: AnnotationKind, from: int) -> int
    decreases pending.len() - from,
{
    if 0 <= from < pending.len() && kind_of(pending[from]) != kind {
        first_of_kind(pending, kind, from + 1)
    } else {
        from
    }
}

/// The first waiting annotation of kind `kind`, if there is one.
pub open spec fn waiting(pending: Seq<AnnotationView>, kind: AnnotationKind) -> Option<
    AnnotationView,
> {
    let at = first_of_kind(pending, kind, 0);
    if at < pending.len() {
        Some(pending[at])
    } else {
        None
    }
}

/// The list once the first annotation of kind `kind` is consumed: that one
/// annotation is gone, all others keep their order.
pub open spec fn consumed(pending: Seq<AnnotationView>, kind: AnnotationKind) -> Seq<
    AnnotationView,
> {
    let at = first_of_kind(pending, kind, 0);
    if at < pending.len() {
        pending.remove(at)
    } else {
        pending
    }
}

/// A search never goes backwards and never leaves the list; what it finds
/// is of the kind searched, and nothing before it is.
pub proof fn lemma_first_of_kind(pending: Seq<AnnotationView>, kind: AnnotationKind, from: int)
    requires
        0 <= from <= pending.len(),
    ensures
        from <= first_of_kind(pending, kind, from) <= pending.len(),
        first_of_kind(pending, kind, from) < pending.len() ==> kind_of(
            pending[first_of_kind(pending, kind, from)],
        ) == kind,
        forall|k: int|
            from <= k < first_of_kind(pending, kind, from) ==> kind_of(#[trigger] pending[k])
                != kind,
    decreases pending.len() - from,
{
    if from < pending.len() && kind_of(pending[from]) != kind {
        lemma_first_of_kind(pending, kind, from + 1);
    }
}

/// Takes the first annotation of kind `kind` out of the list.
pub fn take_annotation(pending: &mut Vec<Annotation>, kind: AnnotationKind) -> (r: Option<
    Annotation,
>)
    ensures
        annotation_views(final(pending)@) == consumed(annotation_views(old(pending)@), kind),
        match waiting(annotation_views(old(pending)@), kind) {
            Some(a) => r matches Some(taken) && taken@ == a && kind_of(a) == kind,
            None => r is None,
        },
{
    let ghost before = annotation_views(pending@);
    let mut i: usize = 0;
    while i < pending.len() && annotation_kind(&pending[i]) != kind
        invariant
            i <= pending.len(),
            pending@ == old(pending)@,
            before == annotation_views(pending@),
            first_of_kind(before, kind, 0) == first_of_kind(before, kind, i as int),
        decreases pending.len() - i,
    {
        i += 1;
    }
    if i < pending.len() {
        let taken = pending.remove(i);
        assert(annotation_views(pending@) =~= before.remove(i as int));
        Some(taken)
    } else {
        None
    }
}

/// The waiting list with `a` in the place of its last annotation, where
/// that one is of the kind of `a`; else with `a` at its end.
pub open spec fn amended(pending: Seq<AnnotationView>, a: AnnotationView) -> Seq<AnnotationView> {
    if pending.len() > 0 && kind_of(pending.last()) == kind_of(a) {
        pending.drop_last().push(a)
    } else {
        pending.push(a)
    }
}

/// Puts `a` in the place of the last annotation, where that one is of the
/// kind of `a`; else at the end of the list.
pub fn amend_annotation(pending: &mut Vec<Annotation>, a: Annotation)
    ensures
        annotation_views(final(pending)@) == amended(annotation_views(old(pending)@), a@),
{
    let ghost before = annotation_views(pending@);
    let n = pending.len();
    if n > 0 && annotation_kind(&pending[n - 1]) == annotation_kind(&a) {
        let last = pending.pop();
        assert(annotation_views(pending@) =~= before.drop_last());
    }
    assert(annotation_views(pending@.push(a)) =~= annotation_views(pending@).push(a@));
    pending.push(a);
}

/// The stage annotations of the list, in order.
pub open spec fn stage_annotations(pending: Seq<AnnotationView>) -> Seq<StageAnnotation>
    decreases pending.len(),
{
    if pending.len() == 0 {
        Seq::empty()
    } else if let AnnotationView::Stage(a) = pending.last() {
        stage_annotations(pending.drop_last()).push(a)
    } else {
        stage_annotations(pending.drop_last())
    }
}

/// The list without its stage annotations.
pub open spec fn without_stage_annotations(pending: Seq<AnnotationView>) -> Seq<AnnotationView>
    decreases pending.len(),
{
    if pending.len() == 0 {
        Seq::empty()
    } else if pending.last() is Stage {
        without_stage_annotations(pending.drop_last())
    } else {
        without_stage_annotations(pending.drop_last()).push(pending.last())
    }
}

/// Takes all stage annotations out of the list.
pub fn take_stage_annotations(pending: &mut Vec<Annotation>) -> (r: Vec<StageAnnotation>)
    ensures
        r@ == stage_annotations(annotation_views(old(pending)@)),
        annotation_views(final(pending)@) == without_stage_annotations(
            annotation_views(old(pending)@),
        ),
{
    let ghost before = annotation_views(pending@);
    let mut all: Vec<Annotation> = Vec::new();
    std::mem::swap(&mut all, pending);
    let mut stages: Vec<StageAnnotation> = Vec::new();
    let mut kept: Vec<Annotation> = Vec::new();
    let mut i: usize = 0;
    let n = all.len();
    assert(before.subrange(0, 0) =~= Seq::<AnnotationView>::empty());
    assert(annotation_views(kept@) =~= Seq::<AnnotationView>::empty());
    while all.len() > 0
        invariant
            i + all.len() == n,
            n == before.len(),
            annotation_views(all@) == before.subrange(i as int, n as int),
            stages@ == stage_annotations(before.subrange(0, i as int)),
            annotation_views(kept@) == without_stage_annotations(before.subrange(0, i as int)),
        decreases all.len(),
    {
        let ghost taken = before.subrange(0, i + 1);
        let ghost rest = annotation_views(all@);
        let a = all.remove(0);
        proof {
            assert(taken.drop_last() =~= before.subrange(0, i as int));
            assert(taken.last() == a@) by {
                assert(rest[0] == before[i as int]);
            }
            assert(annotation_views(all@) =~= rest.remove(0));
            assert(rest.remove(0) =~= before.subrange(i + 1, n as int));
        }
        match a {
            Annotation::Stage(stage) => {
                stages.push(stage);
            },
            other => {
                assert(annotation_views(kept@.push(other)) =~= annotation_views(kept@).push(
                    other@,
                ));
                kept.push(other);
            },
        }
        i += 1;
    }
    assert(before.subrange(0, n as int) =~= before);
    *pending = kept;
    stages
}

/// The number below 2^32 that `s` denotes, if it denotes one.
pub open spec fn parse_u32(s: Seq<char>) -> Option<u32> {
    match parse_unsigned(s, u32::MAX as nat) {
        Some(v) => Some(v as u32),
        None => None,
    }
}

/// The number that fits a `usize` that `s` denotes, if it denotes one.
pub open spec fn parse_usize(s: Seq<char>) -> Option<usize> {
    match parse_unsigned(s, usize::MAX as nat) {
        Some(v) => Some(v as usize),
        None => None,
    }
}

/// Reads `s` as a number below 2^32.
pub fn read_u32(s: &str) -> (r: Option<u32>)
    ensures
        r == parse_u32(s@),
{
    match parse_bounded(s, u32::MAX as u64) {
        Some(v) => Some(v as u32),
        None => None,
    }
}

/// Reads `s` as a number that fits a `usize`.
pub fn read_usize(s: &str) -> (r: Option<usize>)
    ensures
        r == parse_usize(s@),
{
    match parse_bounded(s, usize::MAX as u64) {
        Some(v) => Some(v as usize),
        None => None,
    }
}

/// The lexemes of the arguments of a builtin.
pub open spec fn arg_texts(args: Seq<Token>) -> Seq<Seq<char>> {
    contents(token_views(args))
}

/// The set and the binding that the arguments from position `index` on
/// give, started from `set` and `binding`. `set = n` and `binding = n`
/// name their number; any other argument is the set, where none is known
/// yet, and else the binding, where none is known yet.
pub open spec fn uniform_from(
    args: Seq<Seq<char>>,
    index: int,
    set: Option<u32>,
    binding: Option<u32>,
) -> UniformAnnotation
    decreases args.len() - index,
{
    if index < 0 || index >= args.len() {
        UniformAnnotation { set, binding }
    } else if args[index] == "set"@ {
        if index + 2 < args.len() {
            uniform_from(args, index + 3, parse_u32(args[index + 2]), binding)
        } else {
            uniform_from(args, index + 1, set, binding)
        }
    } else if args[index] == "binding"@ {
        if index + 2 < args.len() {
            uniform_from(args, index + 3, set, parse_u32(args[index + 2]))
        } else {
            uniform_from(args, index + 1, set, binding)
        }
    } else if set is None {
        uniform_from(args, index + 1, parse_u32(args[index]), binding)
    } else if binding is None {
        uniform_from(args, index + 1, set, parse_u32(args[index]))
    } else {
        uniform_from(args, index + 1, set, binding)
    }
}

/// What the arguments of `@uniform` say.
pub open spec fn uniform_of(args: Seq<Seq<char>>) -> UniformAnnotation {
    uniform_from(args, 0, None, None)
}

/// What the arguments of `@uniform` say.
pub fn parse_uniform_like_builtin(args: &[Token]) -> (r: UniformAnnotation)
    ensures
        r == uniform_of(arg_texts(args@)),
{
    let ghost all = arg_texts(args@);
    let n = args.len();
    let mut set: Option<u32> = None;
    let mut binding: Option<u32> = None;
    let mut index: usize = 0;
    while index < n
        invariant
            index <= n,
            n == args.len(),
            all == arg_texts(args@),
            uniform_of(all) == uniform_from(all, index as int, set, binding),
        decreases n - index,
    {
        let word = args[index].content.as_str();
        let named = n >= 3 && index < n - 2;
        if str_eq(word, "set") {
            if named {
                set = read_u32(args[index + 2].content.as_str());
                index += 3;
                continue ;
            }
        } else if str_eq(word, "binding") {
            if named {
                binding = read_u32(args[index + 2].content.as_str());
                index += 3;
                continue ;
            }
        } else if set.is_none() {
            set = read_u32(word);
        } else if binding.is_none() {
            binding = read_u32(word);
        }
        index += 1;
    }
    UniformAnnotation { set, binding }
}

/// What the arguments of `@buffer` say.
pub fn parse_buffer_builtin(args: &[Token]) -> (r: BufferAnnotation)
    ensures
        r.set == uniform_of(arg_texts(args@)).set,
        r.binding == uniform_of(arg_texts(args@)).binding,
{
    let uniform = parse_uniform_like_builtin(args);
    BufferAnnotation { set: uniform.set, binding: uniform.binding }
}

/// The location that the arguments of `@output` give: the number that the
/// first argument denotes, and 0 without one.
pub open spec fn output_location(args: Seq<Seq<char>>) -> u32 {
    if args.len() > 0 && parse_u32(args[0]) is Some {
        parse_u32(args[0])->0
    } else {
        0
    }
}

/// What the arguments of `@output` say.
pub fn parse_output_builtin(args: &[Token]) -> (r: OutputAnnotation)
    ensures
        r.location == output_location(arg_texts(args@)),
{
    if args.len() > 0 {
        if let Some(location) = read_u32(args[0].content.as_str()) {
            return OutputAnnotation { location };
        }
    }
    OutputAnnotation { location: 0 }
}

/// Whether `s` can name a block: each of its characters is alphabetic or `_`.
pub open spec fn is_block_name(s: Seq<char>) -> bool {
    forall|i: int| 0 <= i < s.len() ==> is_alphabetic_char(#[trigger] s[i]) || s[i] == '_'
}

/// Whether `s` can name a block.
pub fn can_name_block(s: &str) -> (r: bool)
    ensures
        r == is_block_name(s@),
{
    let chars = chars_of(s);
    let mut i: usize = 0;
    while i < chars.len()
        invariant
            i <= chars.len(),
            chars@ == s@,
            forall|k: int| 0 <= k < i ==> is_alphabetic_char(#[trigger] s@[k]) || s@[k] == '_',
        decreases chars.len() - i,
    {
        let c = chars[i];
        if !(c.is_alphabetic() || c == '_') {
            return false;
        }
        i += 1;
    }
    true
}

/// The first argument that can name a block.
pub open spec fn first_block_name(args: Seq<Seq<char>>) -> Option<Seq<char>>
    decreases args.len(),
{
    if args.len() == 0 {
        None
    } else if is_block_name(args[0]) {
        Some(args[0])
    } else {
        first_block_name(args.drop_first())
    }
}

/// The number that the first argument that denotes one denotes.
pub open spec fn first_count(args: Seq<Seq<char>>) -> Option<usize>
    decreases args.len(),
{
    if args.len() == 0 {
        None
    } else if parse_usize(args[0]) is Some {
        parse_usize(args[0])
    } else {
        first_count(args.drop_first())
    }
}

/// What the arguments of `@openglTransformToUniform` say: the block is
/// named by the first argument that can name one, the number of elements is
/// the first argument that denotes a number, and 1 without one.
pub open spec fn transform_of(args: Seq<Seq<char>>) -> TransformView {
    TransformView {
        block_name: first_block_name(args),
        max_elements: match first_count(args) {
            Some(count) => count,
            None => 1,
        },
    }
}

/// What the words `words` say as arguments of `@openglTransformToUniform`.
pub fn transform_from_words(words: &[String]) -> (r: OpenGLTransformAnnotation)
    ensures
        r@ == transform_of(texts(words@)),
{
    let ghost all = texts(words@);
    let n = words.len();
    let mut block_name: Option<String> = None;
    let mut i: usize = 0;
    assert(all.subrange(0, n as int) =~= all);
    while i < n
        invariant_except_break
            block_name is None,
            first_block_name(all) == first_block_name(all.subrange(i as int, n as int)),
        invariant
            i <= n,
            n == words.len(),
            all == texts(words@),
        ensures
            option_text(block_name) == first_block_name(all),
        decreases n - i,
    {
        let ghost rest = all.subrange(i as int, n as int);
        assert(rest.drop_first() =~= all.subrange(i + 1, n as int));
        if can_name_block(words[i].as_str()) {
            block_name = Some(words[i].clone());
            break ;
        }
        i += 1;
    }
    let mut max_elements: usize = 1;
    let mut j: usize = 0;
    while j < n
        invariant_except_break
            max_elements == 1,
            first_count(all) == first_count(all.subrange(j as int, n as int)),
        invariant
            j <= n,
            n == words.len(),
            all == texts(words@),
        ensures
            max_elements == match first_count(all) {
                Some(count) => count,
                None => 1,
            },
        decreases n - j,
    {
        let ghost rest = all.subrange(j as int, n as int);
        assert(rest.drop_first() =~= all.subrange(j + 1, n as int));
        if let Some(count) = read_usize(words[j].as_str()) {
            max_elements = count;
            break ;
        }
        j += 1;
    }
    OpenGLTransformAnnotation { block_name, max_elements }
}

/// The lexemes of the arguments of a builtin.
pub fn arg_words(args: &[Token]) -> (r: Vec<String>)
    ensures
        texts(r@) == arg_texts(args@),
{
    let mut r: Vec<String> = Vec::new();
    let mut i: usize = 0;
    while i < args.len()
        invariant
            i <= args.len(),
            r.len() == i,
            forall|k: int| 0 <= k < i ==> (#[trigger] r@[k])@ == args@[k].content@,
        decreases args.len() - i,
    {
        r.push(args[i].content.clone());
        i += 1;
    }
    assert(texts(r@) =~= arg_texts(args@));
    r
}

/// What the arguments of `@openglTransformToUniform` say.
pub fn parse_transform_builtin(args: &[Token]) -> (r: OpenGLTransformAnnotation)
    ensures
        r@ == transform_of(arg_texts(args@)),
{
    let words = arg_words(args);
    transform_from_words(words.as_slice())
}

/// The stage that the first argument of `@stage` names.
pub open spec fn stage_named(word: Seq<char>) -> Stage {
    if word == "vertex"@ {
        Stage::Vertex
    } else if word == "fragment"@ {
        Stage::Fragment
    } else if word == "compute"@ {
        Stage::Compute
    } else if word == "geometry"@ {
        Stage::Geometry
    } else if word == "mesh"@ {
        Stage::Mesh
    } else if word == "task"@ {
        Stage::Task
    } else if word == "tessellation"@ {
        Stage::TessellationEvaluation
    } else if word == "raytracing"@ {
        Stage::RaytracingAny
    } else {
        Stage::All
    }
}

/// What the arguments of `@stage` say; nothing where there are fewer than
/// two. The second argument says `out` or, with any other word, `in`.
pub open spec fn stage_of(args: Seq<Seq<char>>) -> Option<StageAnnotation> {
    if args.len() < 2 {
        None
    } else {
        Some(
            StageAnnotation {
                stage: stage_named(args[0]),
                io: if args[1] == "out"@ {
                    StageIO::Out
                } else {
                    StageIO::In
                },
            },
        )
    }
}

/// What the arguments of `@stage` say.
pub fn parse_stage_builtin(args: &[Token]) -> (r: Option<StageAnnotation>)
    ensures
        r == stage_of(arg_texts(args@)),
{
    if args.len() < 2 {
        return None;
    }
    let word = args[0].content.as_str();
    let stage = if str_eq(word, "vertex") {
        Stage::Vertex
    } else if str_eq(word, "fragment") {
        Stage::Fragment
    } else if str_eq(word, "compute") {
        Stage::Compute
    } else if str_eq(word, "geometry") {
        Stage::Geometry
    } else if str_eq(word, "mesh") {
        Stage::Mesh
    } else if str_eq(word, "task") {
        Stage::Task
    } else if str_eq(word, "tessellation") {
        Stage::TessellationEvaluation
    } else if str_eq(word, "raytracing") {
        Stage::RaytracingAny
    } else {
        Stage::All
    };
    let io = if str_eq(args[1].content.as_str(), "out") {
        StageIO::Out
    } else {
        StageIO::In
    };
    Some(StageAnnotation { stage, io })
}

} // verus!
