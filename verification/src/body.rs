//! Function bodies: the lexemes of a body written as GLSL.
//!
//! A body is walked lexeme by lexeme. Four forms are rewritten: the
//! optional-light expression, stage-local symbols, texture sampling, and
//! accesses to the fields of a stage's input or output block. Every other
//! lexeme is copied, with braces and semicolons driving the layout.
use crate::backend::Stage;
use crate::glsl::{
    ends_bracket, ends_open, glsl_type, indentation, join_tokens, joined_tokens,
    map_stage_variable, map_type, stage_symbol, write_indent,
};
use crate::parser::{variable_views, TypedVariable, TypedVariableView};
use crate::table::Table;
use crate::text::{join, lemma_texts_push, push_chars, str_eq, string_from_chars, texts};
use vstd::prelude::*;
use vstd::slice::*;
use vstd::string::*;

verus! {

/// The text of an optional string.
pub open spec fn option_text(s: Option<String>) -> Option<Seq<char>> {
    match s {
        Some(text) => Some(text@),
        None => None,
    }
}

/// The value under `key`, if the map has one.
pub open spec fn lookup(m: Map<Seq<char>, Seq<char>>, key: Seq<char>) -> Option<Seq<char>> {
    if m.contains_key(key) {
        Some(m[key])
    } else {
        None
    }
}

/// The names of the variables through which a body reaches the stage's
/// input block and output block.
pub struct BodyContext {
    pub input_param: Option<String>,
    pub output_var: Option<String>,
}

/// The mathematical content of a [`BodyContext`].
pub struct ContextView {
    pub input_param: Option<Seq<char>>,
    pub output_var: Option<Seq<char>>,
}

impl View for BodyContext {
    type V = ContextView;

    open spec fn view(&self) -> ContextView {
        ContextView {
            input_param: option_text(self.input_param),
            output_var: option_text(self.output_var),
        }
    }
}

/// The three tables that say which identifier a field of a stage block is
/// written as.
pub struct Links<'a> {
    pub vertex_input: &'a Table<String>,
    pub vertex_output: &'a Table<String>,
    pub fragment_input: &'a Table<String>,
}

/// The mathematical content of [`Links`].
pub struct LinkView {
    pub vertex_input: Map<Seq<char>, Seq<char>>,
    pub vertex_output: Map<Seq<char>, Seq<char>>,
    pub fragment_input: Map<Seq<char>, Seq<char>>,
}

impl<'a> View for Links<'a> {
    type V = LinkView;

    open spec fn view(&self) -> LinkView {
        LinkView {
            vertex_input: self.vertex_input.map(),
            vertex_output: self.vertex_output.map(),
            fragment_input: self.fragment_input.map(),
        }
    }
}

/// The identifier that `base.field` is written as in `stage`: in the vertex
/// stage a field of the input parameter or of the output variable, in the
/// fragment stage a field of the input parameter.
pub open spec fn field_access(
    links: LinkView,
    stage: Stage,
    ctx: ContextView,
    base: Seq<char>,
    field: Seq<char>,
) -> Option<Seq<char>> {
    match stage {
        Stage::Vertex => if ctx.input_param == Some(base) {
            lookup(links.vertex_input, field)
        } else if ctx.output_var == Some(base) {
            lookup(links.vertex_output, field)
        } else {
            None
        },
        Stage::Fragment => if ctx.input_param == Some(base) {
            lookup(links.fragment_input, field)
        } else {
            None
        },
        _ => None,
    }
}

/// Whether the optional name is `name`.
fn names(holder: &Option<String>, name: &str) -> (r: bool)
    ensures
        r == (option_text(*holder) == Some(name@)),
{
    match holder {
        Some(held) => str_eq(held.as_str(), name),
        None => false,
    }
}

/// A copy of the value under `key`, if the table has one.
fn lookup_copy(table: &Table<String>, key: &str) -> (r: Option<String>)
    ensures
        option_text(r) == lookup(table.map(), key@),
{
    match table.get(key) {
        Some(value) => Some(value.clone()),
        None => None,
    }
}

/// The identifier that `base.field` is written as in `stage`, if it is a
/// field of a stage block.
pub fn map_field_access(
    links: &Links,
    stage: Stage,
    ctx: &BodyContext,
    base: &str,
    field: &str,
) -> (r: Option<String>)
    ensures
        option_text(r) == field_access(links@, stage, ctx@, base@, field@),
{
    match stage {
        Stage::Vertex => {
            if names(&ctx.input_param, base) {
                lookup_copy(links.vertex_input, field)
            } else if names(&ctx.output_var, base) {
                lookup_copy(links.vertex_output, field)
            } else {
                None
            }
        },
        Stage::Fragment => {
            if names(&ctx.input_param, base) {
                lookup_copy(links.fragment_input, field)
            } else {
                None
            }
        },
        _ => None,
    }
}

/// The name of the first parameter whose type is `target`.
pub open spec fn param_of_type(args: Seq<TypedVariableView>, target: Option<Seq<char>>) -> Option<
    Seq<char>,
>
    decreases args.len(),
{
    if target is None || args.len() == 0 {
        None
    } else if args[0].var_type == target->0 {
        Some(args[0].name)
    } else {
        param_of_type(args.drop_first(), target)
    }
}

/// The name of the first parameter whose type is `target_type`.
pub fn find_param(args: &[TypedVariable], target_type: &Option<String>) -> (r: Option<String>)
    ensures
        option_text(r) == param_of_type(variable_views(args@), option_text(*target_type)),
{
    let target = match target_type {
        Some(target) => target,
        None => {
            return None;
        },
    };
    let ghost all = variable_views(args@);
    let mut i: usize = 0;
    assert(all.subrange(0, all.len() as int) =~= all);
    while i < args.len()
        invariant
            i <= args.len(),
            all == variable_views(args@),
            option_text(*target_type) == Some(target@),
            param_of_type(all, Some(target@)) == param_of_type(
                all.subrange(i as int, all.len() as int),
                Some(target@),
            ),
        decreases args.len() - i,
    {
        let ghost rest = all.subrange(i as int, all.len() as int);
        assert(rest.drop_first() =~= all.subrange(i + 1, all.len() as int));
        assert(rest[0] == args@[i as int]@);
        if str_eq(args[i].var_type.as_str(), target.as_str()) {
            return Some(args[i].name.clone());
        }
        i += 1;
    }
    None
}

/// The name of the first variable that the body declares with type
/// `name`: the lexeme after the first `name` that is followed, one lexeme
/// on, by `;` or `=`.
pub open spec fn struct_variable(tokens: Seq<Seq<char>>, name: Option<Seq<char>>, from: int) -> Option<
    Seq<char>,
>
    decreases tokens.len() - from,
{
    if name is None || from < 0 || from + 2 >= tokens.len() {
        None
    } else if tokens[from] == name->0 && (tokens[from + 2] == ";"@ || tokens[from + 2] == "="@) {
        Some(tokens[from + 1])
    } else {
        struct_variable(tokens, name, from + 1)
    }
}

/// The name of the first variable that the body declares with type `struct_name`.
pub fn detect_struct_variable(tokens: &[String], struct_name: &Option<String>) -> (r: Option<
    String,
>)
    ensures
        option_text(r) == struct_variable(texts(tokens@), option_text(*struct_name), 0),
{
    let name = match struct_name {
        Some(name) => name,
        None => {
            return None;
        },
    };
    let ghost all = texts(tokens@);
    let n = tokens.len();
    let mut index: usize = 0;
    while n >= 3 && index < n - 2
        invariant
            n == tokens.len(),
            all == texts(tokens@),
            option_text(*struct_name) == Some(name@),
            struct_variable(all, Some(name@), 0) == struct_variable(
                all,
                Some(name@),
                index as int,
            ),
        decreases n - index,
    {
        if str_eq(tokens[index].as_str(), name.as_str()) {
            let terminator = tokens[index + 2].as_str();
            if str_eq(terminator, ";") || str_eq(terminator, "=") {
                return Some(tokens[index + 1].clone());
            }
        }
        index += 1;
    }
    None
}

/// The first position at or after `pos` that holds the lexeme `text`, or
/// the end of the lexemes.
pub open spec fn find_text(tokens: Seq<Seq<char>>, pos: int, text: Seq<char>) -> int
    decreases tokens.len() - pos,
{
    if 0 <= pos < tokens.len() && tokens[pos] != text {
        find_text(tokens, pos + 1, text)
    } else {
        pos
    }
}

/// A search never goes backwards and never leaves the lexemes.
pub proof fn lemma_find_text_bounds(tokens: Seq<Seq<char>>, pos: int, text: Seq<char>)
    requires
        0 <= pos <= tokens.len(),
    ensures
        pos <= find_text(tokens, pos, text) <= tokens.len(),
        find_text(tokens, pos, text) < tokens.len() ==> tokens[find_text(tokens, pos, text)]
            == text,
        forall|k: int| pos <= k < find_text(tokens, pos, text) ==> tokens[k] != text,
    decreases tokens.len() - pos,
{
    if pos < tokens.len() && tokens[pos] != text {
        lemma_find_text_bounds(tokens, pos + 1, text);
    }
}

/// Where the fallback of an optional-light expression ends, read from `pos`
/// inside `depth` open parentheses: at a `;` or `,` outside parentheses, at
/// a `)` that closes none of them, or at the end of the lexemes.
pub open spec fn fallback_end(tokens: Seq<Seq<char>>, pos: int, depth: nat) -> int
    decreases tokens.len() - pos,
{
    if pos < 0 || pos >= tokens.len() {
        pos
    } else if (tokens[pos] == ";"@ || tokens[pos] == ","@) && depth == 0 {
        pos
    } else if tokens[pos] == "("@ {
        fallback_end(tokens, pos + 1, depth + 1)
    } else if tokens[pos] == ")"@ {
        if depth == 0 {
            pos
        } else {
            fallback_end(tokens, pos + 1, (depth - 1) as nat)
        }
    } else {
        fallback_end(tokens, pos + 1, depth)
    }
}

/// A fallback never ends before it starts nor outside the lexemes.
pub proof fn lemma_fallback_end_bounds(tokens: Seq<Seq<char>>, pos: int, depth: nat)
    requires
        0 <= pos <= tokens.len(),
    ensures
        pos <= fallback_end(tokens, pos, depth) <= tokens.len(),
    decreases tokens.len() - pos,
{
    if pos < tokens.len() {
        if (tokens[pos] == ";"@ || tokens[pos] == ","@) && depth == 0 {
        } else if tokens[pos] == "("@ {
            lemma_fallback_end_bounds(tokens, pos + 1, depth + 1);
        } else if tokens[pos] == ")"@ {
            if depth > 0 {
                lemma_fallback_end_bounds(tokens, pos + 1, (depth - 1) as nat);
            }
        } else {
            lemma_fallback_end_bounds(tokens, pos + 1, depth);
        }
    }
}

/// The bounds-checked conditional that an optional-light expression is
/// written as.
pub open spec fn guarded_light(
    base: Seq<char>,
    field: Seq<char>,
    index: Seq<char>,
    fallback: Seq<char>,
) -> Seq<char> {
    "("@ + index + " < "@ + base + ".lightCount"@ + " ? "@ + base + "."@ + field + "["@ + index
        + "]"@ + " : "@ + fallback + ")"@
}

/// The optional-light expression `base.field[index] or fallback` that
/// starts at `start`, if one does: its GLSL text and the position after it.
pub open spec fn optional_expression(tokens: Seq<Seq<char>>, start: int) -> Option<
    (Seq<char>, int),
> {
    if start < 0 || start + 3 >= tokens.len() || tokens[start + 1] != "."@ || tokens[start + 3]
        != "["@ {
        None
    } else {
        let close = find_text(tokens, start + 4, "]"@);
        if close + 1 >= tokens.len() || tokens[close + 1] != "or"@ {
            None
        } else {
            let end = fallback_end(tokens, close + 2, 0);
            if end == close + 2 {
                None
            } else {
                Some(
                    (
                        guarded_light(
                            tokens[start],
                            tokens[start + 2],
                            joined_tokens(tokens.subrange(start + 4, close)),
                            joined_tokens(tokens.subrange(close + 2, end)),
                        ),
                        end,
                    ),
                )
            }
        }
    }
}

/// Copies of the strings from index `from` up to, not including, `to`.
fn clone_range(tokens: &[String], from: usize, to: usize) -> (r: Vec<String>)
    requires
        from <= to <= tokens.len(),
    ensures
        texts(r@) == texts(tokens@).subrange(from as int, to as int),
{
    let mut r: Vec<String> = Vec::new();
    let mut i: usize = from;
    assert(texts(r@) =~= texts(tokens@).subrange(from as int, from as int));
    while i < to
        invariant
            from <= i <= to <= tokens.len(),
            texts(r@) == texts(tokens@).subrange(from as int, i as int),
        decreases to - i,
    {
        let item = tokens[i].clone();
        proof {
            lemma_texts_push(r@, item);
            assert(texts(tokens@).subrange(from as int, i as int).push(item@) =~= texts(
                tokens@,
            ).subrange(from as int, i + 1));
        }
        r.push(item);
        i += 1;
    }
    r
}

/// The optional-light expression that starts at `start`, if one does: its
/// GLSL text and the position after it.
pub fn try_transform_optional_expression(tokens: &[String], start: usize) -> (r: Option<
    (String, usize),
>)
    ensures
        match optional_expression(texts(tokens@), start as int) {
            Some((text, next)) => r matches Some(found) && found.0@ == text && found.1 == next,
            None => r is None,
        },
{
    let ghost all = texts(tokens@);
    let n = tokens.len();
    if n < 4 || start >= n - 3 {
        return None;
    }
    if !str_eq(tokens[start + 1].as_str(), ".") || !str_eq(tokens[start + 3].as_str(), "[") {
        return None;
    }
    let mut close: usize = start + 4;
    while close < n && !str_eq(tokens[close].as_str(), "]")
        invariant
            start + 4 <= close <= n,
            n == tokens.len(),
            all == texts(tokens@),
            find_text(all, start + 4, "]"@) == find_text(all, close as int, "]"@),
        decreases n - close,
    {
        close += 1;
    }
    if close >= n || close + 1 >= n {
        return None;
    }
    if !str_eq(tokens[close + 1].as_str(), "or") {
        return None;
    }
    let begin: usize = close + 2;
    let mut cursor: usize = begin;
    let mut depth: usize = 0;
    loop
        invariant_except_break
            fallback_end(all, begin as int, 0) == fallback_end(all, cursor as int, depth as nat),
        invariant
            begin <= cursor <= n,
            depth <= cursor - begin,
            n == tokens.len(),
            all == texts(tokens@),
        ensures
            fallback_end(all, begin as int, 0) == cursor,
        decreases n - cursor,
    {
        if cursor >= n {
            break ;
        }
        let token = tokens[cursor].as_str();
        if (str_eq(token, ";") || str_eq(token, ",")) && depth == 0 {
            break ;
        }
        if str_eq(token, "(") {
            depth += 1;
        } else if str_eq(token, ")") {
            if depth == 0 {
                break ;
            }
            depth -= 1;
        }
        cursor += 1;
    }
    if cursor == begin {
        return None;
    }
    let index_tokens = clone_range(tokens, start + 4, close);
    let fallback_tokens = clone_range(tokens, begin, cursor);
    let index = join_tokens(&index_tokens);
    let fallback = join_tokens(&fallback_tokens);
    let base = tokens[start].as_str();
    let mut text = String::from_str("(");
    text.append(index.as_str());
    text.append(" < ");
    text.append(base);
    text.append(".lightCount");
    text.append(" ? ");
    text.append(base);
    text.append(".");
    text.append(tokens[start + 2].as_str());
    text.append("[");
    text.append(index.as_str());
    text.append("]");
    text.append(" : ");
    text.append(fallback.as_str());
    text.append(")");
    Some((text, cursor))
}

/// The lexemes that are rewritten at position `i`, if any are: the text
/// they become and the position after them.
pub open spec fn rewritten(
    tokens: Seq<Seq<char>>,
    i: int,
    links: LinkView,
    stage: Stage,
    ctx: ContextView,
) -> Option<(Seq<char>, int)> {
    if optional_expression(tokens, i) is Some {
        optional_expression(tokens, i)
    } else if stage_symbol(stage, tokens[i]) is Some {
        Some((stage_symbol(stage, tokens[i])->0, i + 1))
    } else if i + 3 < tokens.len() && tokens[i + 1] == "."@ && tokens[i + 2] == "sample"@
        && tokens[i + 3] == "("@ {
        Some(("texture("@ + tokens[i] + ", "@, i + 4))
    } else if i + 2 < tokens.len() && tokens[i + 1] == "."@ && field_access(
        links,
        stage,
        ctx,
        tokens[i],
        tokens[i + 2],
    ) is Some {
        Some((field_access(links, stage, ctx, tokens[i], tokens[i + 2])->0, i + 3))
    } else {
        None
    }
}

/// What is rewritten always takes at least one lexeme and stays inside the lexemes.
pub proof fn lemma_rewritten_advances(
    tokens: Seq<Seq<char>>,
    i: int,
    links: LinkView,
    stage: Stage,
    ctx: ContextView,
)
    requires
        0 <= i < tokens.len(),
    ensures
        rewritten(tokens, i, links, stage, ctx) matches Some((text, next)) ==> i < next
            <= tokens.len(),
{
    if i + 3 < tokens.len() {
        lemma_find_text_bounds(tokens, i + 4, "]"@);
        let close = find_text(tokens, i + 4, "]"@);
        if close + 1 < tokens.len() {
            lemma_fallback_end_bounds(tokens, close + 2, 0);
        }
    }
}

/// The lexemes that are rewritten at position `i`, if any are.
fn rewrite_at(tokens: &[String], i: usize, links: &Links, stage: Stage, ctx: &BodyContext) -> (r:
    Option<(String, usize)>)
    requires
        i < tokens.len(),
    ensures
        match rewritten(texts(tokens@), i as int, links@, stage, ctx@) {
            Some((text, next)) => r matches Some(found) && found.0@ == text && found.1 == next,
            None => r is None,
        },
{
    let n = tokens.len();
    let found = try_transform_optional_expression(tokens, i);
    if found.is_some() {
        return found;
    }
    if let Some(mapped) = map_stage_variable(stage, tokens[i].as_str()) {
        return Some((String::from_str(mapped), i + 1));
    }
    if n >= 4 && i < n - 3 && str_eq(tokens[i + 1].as_str(), ".") && str_eq(
        tokens[i + 2].as_str(),
        "sample",
    ) && str_eq(tokens[i + 3].as_str(), "(") {
        let mut text = String::from_str("texture(");
        text.append(tokens[i].as_str());
        text.append(", ");
        return Some((text, i + 4));
    }
    if n >= 3 && i < n - 2 && str_eq(tokens[i + 1].as_str(), ".") {
        if let Some(mapped) = map_field_access(
            links,
            stage,
            ctx,
            tokens[i].as_str(),
            tokens[i + 2].as_str(),
        ) {
            return Some((mapped, i + 3));
        }
    }
    None
}

/// Where the writing of a body stands: the text so far, the depth of
/// indentation, and whether a new line has just begun.
pub struct BodyState {
    pub out: Seq<char>,
    pub indent: usize,
    pub line_start: bool,
}

/// The state with the given parts.
pub open spec fn body_state(out: Seq<char>, indent: usize, line_start: bool) -> BodyState {
    BodyState { out, indent, line_start }
}

/// The text made ready for a word: indented where a line begins, and else
/// with a space unless it ends in a space, a newline or `(`.
pub open spec fn lead_in(st: BodyState) -> Seq<char> {
    if st.line_start {
        st.out + indentation(st.indent as nat)
    } else if !ends_open(st.out) {
        st.out.push(' ')
    } else {
        st.out
    }
}

/// The binary operators, which are written with a space on both sides.
pub open spec fn is_operator(t: Seq<char>) -> bool {
    t == "="@ || t == "+"@ || t == "-"@ || t == "*"@ || t == "/"@ || t == "%"@ || t == "=="@ || t
        == "!="@ || t == "<"@ || t == ">"@ || t == "<="@ || t == ">="@
}

/// Whether `t` is a binary operator.
fn is_operator_token(t: &str) -> (r: bool)
    ensures
        r == is_operator(t@),
{
    str_eq(t, "=") || str_eq(t, "+") || str_eq(t, "-") || str_eq(t, "*") || str_eq(t, "/")
        || str_eq(t, "%") || str_eq(t, "==") || str_eq(t, "!=") || str_eq(t, "<") || str_eq(
        t,
        ">",
    ) || str_eq(t, "<=") || str_eq(t, ">=")
}

/// One level deeper; the depth stays where it cannot be counted further.
pub open spec fn deeper(indent: usize) -> usize {
    if indent < usize::MAX {
        (indent + 1) as usize
    } else {
        indent
    }
}

/// One level up, where there is one.
pub open spec fn shallower(indent: usize) -> usize {
    if indent > 0 {
        (indent - 1) as usize
    } else {
        indent
    }
}

/// The state after a lexeme that is copied: braces open and close indented
/// blocks, a semicolon ends the line, punctuation is set tight, operators
/// get a space on both sides, and any other lexeme is set off by a space.
pub open spec fn plain_step(st: BodyState, t: Seq<char>) -> BodyState {
    if t == "{"@ {
        BodyState {
            out: (if st.line_start {
                st.out + indentation(st.indent as nat)
            } else {
                st.out
            }) + "{\n"@,
            indent: deeper(st.indent),
            line_start: true,
        }
    } else if t == "}"@ {
        BodyState {
            out: (if st.line_start {
                st.out
            } else {
                st.out.push('\n')
            }) + indentation(shallower(st.indent) as nat) + "}\n"@,
            indent: shallower(st.indent),
            line_start: true,
        }
    } else if t == ";"@ {
        BodyState { out: st.out + ";\n"@, indent: st.indent, line_start: true }
    } else if t == ","@ {
        BodyState { out: st.out + ", "@, indent: st.indent, line_start: false }
    } else if t == "("@ || t == ")"@ || t == "["@ || t == "]"@ {
        BodyState { out: st.out + t, indent: st.indent, line_start: false }
    } else if is_operator(t) {
        BodyState {
            out: (if st.line_start {
                st.out + indentation(st.indent as nat)
            } else if st.out.len() > 0 && st.out.last() == ' ' {
                st.out
            } else {
                st.out.push(' ')
            }) + t + " "@,
            indent: st.indent,
            line_start: false,
        }
    } else {
        BodyState {
            out: (if st.line_start {
                st.out + indentation(st.indent as nat)
            } else if ends_bracket(st.out) {
                st.out
            } else {
                st.out.push(' ')
            }) + t,
            indent: st.indent,
            line_start: false,
        }
    }
}

/// The text of a body once the lexemes from position `i` on are written,
/// starting from state `st`.
pub open spec fn body_from(
    tokens: Seq<Seq<char>>,
    i: int,
    st: BodyState,
    links: LinkView,
    stage: Stage,
    ctx: ContextView,
) -> Seq<char>
    decreases tokens.len() - i,
    via body_from_decreases
{
    if i < 0 || i >= tokens.len() {
        st.out
    } else {
        match rewritten(tokens, i, links, stage, ctx) {
            Some((text, next)) => body_from(
                tokens,
                next,
                BodyState { out: lead_in(st) + text, indent: st.indent, line_start: false },
                links,
                stage,
                ctx,
            ),
            None => body_from(tokens, i + 1, plain_step(st, tokens[i]), links, stage, ctx),
        }
    }
}

#[via_fn]
proof fn body_from_decreases(
    tokens: Seq<Seq<char>>,
    i: int,
    st: BodyState,
    links: LinkView,
    stage: Stage,
    ctx: ContextView,
) {
    if 0 <= i < tokens.len() {
        lemma_rewritten_advances(tokens, i, links, stage, ctx);
    }
}

/// The text with a newline at its end, added where it has none.
pub open spec fn line_ended(out: Seq<char>) -> Seq<char> {
    if out.len() > 0 && out.last() == '\n' {
        out
    } else {
        out.push('\n')
    }
}

/// The GLSL text of a body: its lexemes written from an empty text at
/// depth one, and a newline at the end.
pub open spec fn formatted_body(
    tokens: Seq<Seq<char>>,
    links: LinkView,
    stage: Stage,
    ctx: ContextView,
) -> Seq<char> {
    line_ended(body_from(tokens, 0, body_state(Seq::empty(), 1, true), links, stage, ctx))
}

/// Writes one copied lexeme.
fn write_plain(out: &mut Vec<char>, indent: &mut usize, line_start: &mut bool, token: &str)
    ensures
        body_state(final(out)@, *final(indent), *final(line_start)) == plain_step(
            body_state(old(out)@, *old(indent), *old(line_start)),
            token@,
        ),
{
    let last: Option<char> = if out.len() > 0 {
        Some(out[out.len() - 1])
    } else {
        None
    };
    if str_eq(token, "{") {
        if *line_start {
            write_indent(out, *indent);
        }
        push_chars(out, "{\n");
        if *indent < usize::MAX {
            *indent += 1;
        }
        *line_start = true;
    } else if str_eq(token, "}") {
        if *indent > 0 {
            *indent -= 1;
        }
        if !*line_start {
            out.push('\n');
        }
        write_indent(out, *indent);
        push_chars(out, "}\n");
        *line_start = true;
    } else if str_eq(token, ";") {
        push_chars(out, ";\n");
        *line_start = true;
    } else if str_eq(token, ",") {
        push_chars(out, ", ");
        *line_start = false;
    } else if str_eq(token, "(") || str_eq(token, ")") || str_eq(token, "[") || str_eq(
        token,
        "]",
    ) {
        push_chars(out, token);
        *line_start = false;
    } else if is_operator_token(token) {
        if *line_start {
            write_indent(out, *indent);
        } else if last != Some(' ') {
            out.push(' ');
        }
        push_chars(out, token);
        push_chars(out, " ");
        *line_start = false;
    } else {
        if *line_start {
            write_indent(out, *indent);
        } else if !(last == Some(' ') || last == Some('\n') || last == Some('(') || last == Some(
            '[',
        )) {
            out.push(' ');
        }
        push_chars(out, token);
        *line_start = false;
    }
}

/// The GLSL text of the body `tokens` of a function of `stage`.
pub fn format_function_body(tokens: &[String], links: &Links, stage: Stage, ctx: &BodyContext) -> (r:
    String)
    ensures
        r@ == formatted_body(texts(tokens@), links@, stage, ctx@),
{
    let ghost all = texts(tokens@);
    let mut out: Vec<char> = Vec::new();
    let mut i: usize = 0;
    let mut indent: usize = 1;
    let mut line_start = true;
    assert(out@ =~= Seq::<char>::empty());
    while i < tokens.len()
        invariant
            i <= tokens.len(),
            all == texts(tokens@),
            body_from(all, 0, body_state(Seq::empty(), 1, true), links@, stage, ctx@)
                == body_from(
                all,
                i as int,
                body_state(out@, indent, line_start),
                links@,
                stage,
                ctx@,
            ),
        decreases tokens.len() - i,
    {
        proof {
            lemma_rewritten_advances(all, i as int, links@, stage, ctx@);
        }
        match rewrite_at(tokens, i, links, stage, ctx) {
            Some((text, next)) => {
                if line_start {
                    write_indent(&mut out, indent);
                    line_start = false;
                } else if out.len() > 0 {
                    let last = out[out.len() - 1];
                    if !(last == ' ' || last == '\n' || last == '(') {
                        out.push(' ');
                    }
                } else {
                    out.push(' ');
                }
                push_chars(&mut out, text.as_str());
                i = next;
            },
            None => {
                write_plain(&mut out, &mut indent, &mut line_start, tokens[i].as_str());
                i += 1;
            },
        }
    }
    if !(out.len() > 0 && out[out.len() - 1] == '\n') {
        out.push('\n');
    }
    string_from_chars(&out)
}

/// The parameter list of a function as GLSL writes it.
pub open spec fn function_args(args: Seq<TypedVariableView>) -> Seq<char> {
    join(args.map_values(|a: TypedVariableView| glsl_type(a.var_type) + " "@ + a.name), ", "@)
}

/// The parameter list of a function as GLSL writes it.
pub fn format_function_args(args: &[TypedVariable]) -> (r: String)
    ensures
        r@ == function_args(variable_views(args@)),
{
    let ghost written = variable_views(args@).map_values(
        |a: TypedVariableView| glsl_type(a.var_type) + " "@ + a.name,
    );
    let mut r = String::new();
    let mut i: usize = 0;
    assert(written.subrange(0, 0) =~= Seq::<Seq<char>>::empty());
    while i < args.len()
        invariant
            i <= args.len(),
            written == variable_views(args@).map_values(
                |a: TypedVariableView| glsl_type(a.var_type) + " "@ + a.name,
            ),
            r@ == join(written.subrange(0, i as int), ", "@),
        decreases args.len() - i,
    {
        let ghost taken = written.subrange(0, i + 1);
        assert(taken.drop_last() =~= written.subrange(0, i as int));
        assert(taken.last() == glsl_type(args@[i as int]@.var_type) + " "@ + args@[i as int]@.name);
        if i > 0 {
            r.append(", ");
        }
        let mut part = map_type(args[i].var_type.as_str());
        part.append(" ");
        part.append(args[i].name.as_str());
        r.append(part.as_str());
        assert(r@ =~= join(taken, ", "@));
        i += 1;
    }
    assert(written.subrange(0, i as int) =~= written);
    r
}

} // verus!
