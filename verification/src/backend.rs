//! The code-generation driver and the interface of a back-end.
//!
//! The driver walks the nodes in order, hands each to the back-end, and
//! collects what the back-end returns in one text slot per pipeline stage.
//! At the end the back-end replaces the slots by the finished shaders.
use crate::error::{Error, ErrorView};
use crate::parser::{
    expression_views, Builtin, BuiltinView, Expression, ExpressionView, FunctionExpression,
    FunctionView, TranslatableExpression, UseExpression,
};
use vstd::prelude::*;
use vstd::string::*;

verus! {

/// A pipeline stage, or one of two markers: `Same` (no change of stage) and
/// `All` (every stage).
#[derive(Clone, Copy, Debug, PartialEq, Eq, Structural, Hash)]
pub enum Stage {
    Vertex,
    Fragment,
    TessellationControl,
    TessellationEvaluation,
    Geometry,
    Compute,
    Mesh,
    Task,
    RaytracingGeneration,
    RaytracingClosest,
    RaytracingAny,
    RaytracingMiss,
    RaytracingIntersection,
    RaytracingCallable,
    Same,
    All,
}

/// Whether `stage` is one of the fourteen pipeline stages.
pub open spec fn is_concrete(stage: Stage) -> bool {
    stage != Stage::Same && stage != Stage::All
}

/// The text slots of a compilation: each holds text and the stage it is for.
pub type Slots = Seq<(Seq<char>, Stage)>;

/// The views of a list of text slots.
pub open spec fn slot_views(slots: Seq<(String, Stage)>) -> Slots {
    slots.map_values(|s: (String, Stage)| (s.0@, s.1))
}

/// What a back-end answers to a builtin: its next state, the text to
/// collect, and the stage to switch to (`Same` for none); or a failure.
pub type Answer<M> = Result<(M, Seq<char>, Stage), ErrorView>;

/// A code generator that the driver can run.
///
/// The state of a back-end is described by its model; each operation is
/// described by a spec function from model and node to the next model and
/// the text it hands back.
pub trait Backend: Sized {
    /// The mathematical content of the back-end's state.
    type Model;

    /// The model of this back-end.
    spec fn model(&self) -> Self::Model;

    /// The invariant of the back-end's state.
    spec fn valid(&self) -> bool;

    /// What a translatable block does: the next state and the text to
    /// collect, or a failure.
    spec fn translated(m: Self::Model, block: Seq<Seq<char>>) -> Result<
        (Self::Model, Seq<char>),
        ErrorView,
    >;

    /// What a builtin does.
    spec fn annotated(m: Self::Model, builtin: BuiltinView) -> Answer<Self::Model>;

    /// What an import does: the next state and the text to collect.
    spec fn imported(m: Self::Model, module: Seq<char>) -> (Self::Model, Seq<char>);

    /// What a function does: the next state and the text to collect.
    spec fn declared(m: Self::Model, function: FunctionView) -> (Self::Model, Seq<char>);

    /// What the end of the walk does to the state and to the text slots.
    spec fn finished(m: Self::Model, slots: Slots) -> (Self::Model, Slots);

    /// Takes in a translatable block.
    fn run_translatable(&mut self, expressions: &TranslatableExpression) -> (r: Result<
        String,
        Error,
    >)
        requires
            old(self).valid(),
        ensures
            final(self).valid(),
            match Self::translated(old(self).model(), expressions@) {
                Ok((m, text)) => r matches Ok(s) && s@ == text && final(self).model() == m,
                Err(e) => r matches Err(x) && x@ == e,
            },
    ;

    /// Takes in a builtin; the stage in the result is `Same` unless the
    /// builtin switches the stage.
    fn run_builtin(&mut self, builtin: &Builtin) -> (r: Result<(String, Stage), Error>)
        requires
            old(self).valid(),
        ensures
            final(self).valid(),
            match Self::annotated(old(self).model(), builtin@) {
                Ok((m, text, stage)) => r matches Ok(s) && s.0@ == text && s.1 == stage
                    && final(self).model() == m,
                Err(e) => r matches Err(x) && x@ == e,
            },
    ;

    /// Takes in an import.
    fn run_use(&mut self, use_expr: &UseExpression) -> (r: String)
        requires
            old(self).valid(),
        ensures
            final(self).valid(),
            final(self).model() == Self::imported(old(self).model(), use_expr@).0,
            r@ == Self::imported(old(self).model(), use_expr@).1,
    ;

    /// Takes in a function.
    fn run_function(&mut self, func: &FunctionExpression) -> (r: String)
        requires
            old(self).valid(),
        ensures
            final(self).valid(),
            final(self).model() == Self::declared(old(self).model(), func@).0,
            r@ == Self::declared(old(self).model(), func@).1,
    ;

    /// Ends the walk: the back-end may replace the text of every slot.
    fn finalize(&mut self, outputs: &mut Vec<(String, Stage)>)
        requires
            old(self).valid(),
        ensures
            final(self).valid(),
            final(self).model() == Self::finished(old(self).model(), slot_views(old(outputs)@)).0,
            slot_views(final(outputs)@) == Self::finished(
                old(self).model(),
                slot_views(old(outputs)@),
            ).1,
    ;
}

/// The slots at the start of a compilation: one empty slot per pipeline stage.
pub open spec fn empty_slots() -> Slots {
    seq![
        (Seq::empty(), Stage::Vertex),
        (Seq::empty(), Stage::Fragment),
        (Seq::empty(), Stage::Compute),
        (Seq::empty(), Stage::Mesh),
        (Seq::empty(), Stage::Task),
        (Seq::empty(), Stage::TessellationControl),
        (Seq::empty(), Stage::TessellationEvaluation),
        (Seq::empty(), Stage::Geometry),
        (Seq::empty(), Stage::RaytracingGeneration),
        (Seq::empty(), Stage::RaytracingClosest),
        (Seq::empty(), Stage::RaytracingAny),
        (Seq::empty(), Stage::RaytracingMiss),
        (Seq::empty(), Stage::RaytracingIntersection),
        (Seq::empty(), Stage::RaytracingCallable),
    ]
}

/// The slots after `text` is collected under `stage`: it is added to the
/// slot of that stage, or to every slot where the stage is `All`.
pub open spec fn collect(slots: Slots, stage: Stage, text: Seq<char>) -> Slots {
    Seq::new(
        slots.len(),
        |i: int|
            if stage == Stage::All || slots[i].1 == stage {
                (slots[i].0 + text, slots[i].1)
            } else {
                slots[i]
            },
    )
}

/// What the back-end answers to `node`: its next state, the text to
/// collect, and the stage to switch to, which only a builtin can name.
pub open spec fn answer<B: Backend>(m: B::Model, node: ExpressionView) -> Answer<B::Model> {
    match node {
        ExpressionView::Translatable(block) => match B::translated(m, block) {
            Ok((next, text)) => Ok((next, text, Stage::Same)),
            Err(e) => Err(e),
        },
        ExpressionView::Builtin(builtin) => B::annotated(m, builtin),
        ExpressionView::Use(module) => Ok(
            (B::imported(m, module).0, B::imported(m, module).1, Stage::Same),
        ),
        ExpressionView::Function(function) => Ok(
            (B::declared(m, function).0, B::declared(m, function).1, Stage::Same),
        ),
    }
}

/// The stage cursor after an answer that names `switch`.
pub open spec fn switched(stage: Stage, switch: Stage) -> Stage {
    if switch != Stage::Same {
        switch
    } else {
        stage
    }
}

/// The walk over the nodes from index `i` on, started with the back-end in
/// state `m`, the stage cursor at `stage` and the slots filled as in
/// `slots`: the state and the slots at the end, or the first failure.
pub open spec fn walk<B: Backend>(
    nodes: Seq<ExpressionView>,
    i: int,
    m: B::Model,
    stage: Stage,
    slots: Slots,
) -> Result<(B::Model, Slots), ErrorView>
    decreases nodes.len() - i,
{
    if i < 0 || i >= nodes.len() {
        Ok((m, slots))
    } else {
        match answer::<B>(m, nodes[i]) {
            Err(e) => Err(e),
            Ok((next, text, switch)) => walk::<B>(
                nodes,
                i + 1,
                next,
                switched(stage, switch),
                collect(slots, switched(stage, switch), text),
            ),
        }
    }
}

/// A whole compilation: the walk over all nodes from empty slots with the
/// stage cursor at `All`, and then the back-end's finish.
pub open spec fn compiled<B: Backend>(nodes: Seq<ExpressionView>, m: B::Model) -> Result<
    (B::Model, Slots),
    ErrorView,
> {
    match walk::<B>(nodes, 0, m, Stage::All, empty_slots()) {
        Err(e) => Err(e),
        Ok((last, slots)) => Ok(B::finished(last, slots)),
    }
}

/// Whether two lists of slots are for the same stages, in the same order.
pub open spec fn same_stages(a: Slots, b: Slots) -> bool {
    a.len() == b.len() && forall|i: int| 0 <= i < a.len() ==> (#[trigger] a[i]).1 == b[i].1
}

/// The walk adds text to the slots and nothing else: whatever the back-end
/// answers, the slots stay as many as they were and for the same stages.
pub proof fn lemma_walk_keeps_stages<B: Backend>(
    nodes: Seq<ExpressionView>,
    i: int,
    m: B::Model,
    stage: Stage,
    slots: Slots,
)
    requires
        0 <= i,
    ensures
        walk::<B>(nodes, i, m, stage, slots) matches Ok((last, filled)) ==> same_stages(
            filled,
            slots,
        ),
    decreases nodes.len() - i,
{
    if i < nodes.len() {
        if let Ok((next, text, switch)) = answer::<B>(m, nodes[i]) {
            let collected = collect(slots, switched(stage, switch), text);
            lemma_walk_keeps_stages::<B>(nodes, i + 1, next, switched(stage, switch), collected);
            assert(same_stages(collected, slots));
        }
    }
}

/// One empty slot for `stage`, added to `slots`.
fn push_slot(slots: &mut Vec<(String, Stage)>, stage: Stage)
    ensures
        slot_views(final(slots)@) == slot_views(old(slots)@).push((Seq::empty(), stage)),
{
    let slot = (String::new(), stage);
    assert(slot_views(slots@.push(slot)) =~= slot_views(slots@).push((Seq::empty(), stage)));
    slots.push(slot);
}

/// Collects `text` under `stage`.
fn collect_text(slots: Vec<(String, Stage)>, stage: Stage, text: &String) -> (r: Vec<
    (String, Stage),
>)
    ensures
        slot_views(r@) == collect(slot_views(slots@), stage, text@),
{
    let mut result: Vec<(String, Stage)> = Vec::new();
    let mut i: usize = 0;
    while i < slots.len()
        invariant
            i <= slots.len(),
            result.len() == i,
            forall|j: int|
                0 <= j < i ==> (#[trigger] result@[j]).0@ == collect(
                    slot_views(slots@),
                    stage,
                    text@,
                )[j].0 && result@[j].1 == slots@[j].1,
        decreases slots.len() - i,
    {
        let mut content = slots[i].0.clone();
        let slot_stage = slots[i].1;
        if stage == Stage::All || slot_stage == stage {
            content.append(text.as_str());
        }
        result.push((content, slot_stage));
        i += 1;
    }
    assert(slot_views(result@) =~= collect(slot_views(slots@), stage, text@));
    result
}

/// Compiles the nodes with the given back-end: the text slots, one per
/// pipeline stage, as the back-end has finished them.
pub fn compile<B: Backend>(expressions: &[Expression], backend: &mut B) -> (r: Result<
    Vec<(String, Stage)>,
    Error,
>)
    requires
        old(backend).valid(),
    ensures
        final(backend).valid(),
        match compiled::<B>(expression_views(expressions@), old(backend).model()) {
            Ok((m, slots)) => r matches Ok(found) && slot_views(found@) == slots
                && final(backend).model() == m,
            Err(e) => r matches Err(x) && x@ == e,
        },
{
    let ghost nodes = expression_views(expressions@);
    let mut output: Vec<(String, Stage)> = Vec::new();
    assert(slot_views(output@) =~= Seq::empty());
    push_slot(&mut output, Stage::Vertex);
    push_slot(&mut output, Stage::Fragment);
    push_slot(&mut output, Stage::Compute);
    push_slot(&mut output, Stage::Mesh);
    push_slot(&mut output, Stage::Task);
    push_slot(&mut output, Stage::TessellationControl);
    push_slot(&mut output, Stage::TessellationEvaluation);
    push_slot(&mut output, Stage::Geometry);
    push_slot(&mut output, Stage::RaytracingGeneration);
    push_slot(&mut output, Stage::RaytracingClosest);
    push_slot(&mut output, Stage::RaytracingAny);
    push_slot(&mut output, Stage::RaytracingMiss);
    push_slot(&mut output, Stage::RaytracingIntersection);
    push_slot(&mut output, Stage::RaytracingCallable);
    assert(slot_views(output@) =~= empty_slots());
    let mut current_stage = Stage::All;
    let mut i: usize = 0;
    while i < expressions.len()
        invariant
            i <= expressions.len(),
            nodes == expression_views(expressions@),
            backend.valid(),
            walk::<B>(nodes, 0, old(backend).model(), Stage::All, empty_slots()) == walk::<B>(
                nodes,
                i as int,
                backend.model(),
                current_stage,
                slot_views(output@),
            ),
        decreases expressions.len() - i,
    {
        let (text, switch) = match &expressions[i] {
            Expression::Translatable(block) => match backend.run_translatable(block) {
                Ok(text) => (text, Stage::Same),
                Err(e) => {
                    return Err(e);
                },
            },
            Expression::Builtin(builtin) => match backend.run_builtin(builtin) {
                Ok(answer) => answer,
                Err(e) => {
                    return Err(e);
                },
            },
            Expression::Use(use_expr) => (backend.run_use(use_expr), Stage::Same),
            Expression::Function(func) => (backend.run_function(func), Stage::Same),
        };
        if switch != Stage::Same {
            current_stage = switch;
        }
        output = collect_text(output, current_stage, &text);
        i += 1;
    }
    backend.finalize(&mut output);
    Ok(output)
}

} // verus!
