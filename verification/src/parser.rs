//! The parser: tokens to an ordered sequence of top-level nodes.
//!
//! Only `use`, `func` and builtins are read structurally. Everything else is
//! collected, lexeme by lexeme, into translatable blocks that the code
//! generator reads later. What the parser yields is fixed by the spec
//! function [`parse_from`].
use crate::error::{Error, ErrorView};
use crate::text::{clone_strings, concat, lemma_concat_push, lemma_texts_push, str_eq, texts};
use crate::tokens::{
    lemma_token_views_push, lex, token_views, Token, TokenType, TokenView, Tokenizer,
};
use vstd::prelude::*;
use vstd::string::*;

verus! {

/// An annotation `@name(...)`: it configures the next declaration or switches
/// the current stage.
#[derive(Debug)]
pub struct Builtin {
    pub name: String,
    pub args: Vec<Token>,
}

/// An import of a capability namespace.
#[derive(Debug)]
pub struct UseExpression {
    pub module: String,
}

/// A run of lexemes that the parser does not read structurally.
#[derive(Debug)]
pub struct TranslatableExpression {
    pub expressions: Vec<String>,
}

/// A function parameter: its type and its name.
#[derive(Debug)]
pub struct TypedVariable {
    pub var_type: String,
    pub name: String,
}

/// A function: name, parameters, return type, and the lexemes of its body.
#[derive(Debug)]
pub struct FunctionExpression {
    pub name: String,
    pub args: Vec<TypedVariable>,
    pub return_type: String,
    pub body: TranslatableExpression,
}

/// A top-level node.
#[derive(Debug)]
pub enum Expression {
    Translatable(TranslatableExpression),
    Builtin(Builtin),
    Use(UseExpression),
    Function(FunctionExpression),
}

/// The mathematical content of a [`Builtin`].
pub struct BuiltinView {
    pub name: Seq<char>,
    pub args: Seq<TokenView>,
}

/// The mathematical content of a [`TypedVariable`].
pub struct TypedVariableView {
    pub var_type: Seq<char>,
    pub name: Seq<char>,
}

/// The mathematical content of a [`FunctionExpression`].
pub struct FunctionView {
    pub name: Seq<char>,
    pub args: Seq<TypedVariableView>,
    pub return_type: Seq<char>,
    pub body: Seq<Seq<char>>,
}

/// The mathematical content of an [`Expression`].
pub enum ExpressionView {
    Translatable(Seq<Seq<char>>),
    Builtin(BuiltinView),
    Use(Seq<char>),
    Function(FunctionView),
}

impl View for Builtin {
    type V = BuiltinView;

    open spec fn view(&self) -> BuiltinView {
        BuiltinView { name: self.name@, args: token_views(self.args@) }
    }
}

impl View for UseExpression {
    type V = Seq<char>;

    open spec fn view(&self) -> Seq<char> {
        self.module@
    }
}

impl View for TranslatableExpression {
    type V = Seq<Seq<char>>;

    open spec fn view(&self) -> Seq<Seq<char>> {
        texts(self.expressions@)
    }
}

impl View for TypedVariable {
    type V = TypedVariableView;

    open spec fn view(&self) -> TypedVariableView {
        TypedVariableView { var_type: self.var_type@, name: self.name@ }
    }
}

/// The views of a list of parameters.
pub open spec fn variable_views(items: Seq<TypedVariable>) -> Seq<TypedVariableView> {
    items.map_values(|v: TypedVariable| v@)
}

impl View for FunctionExpression {
    type V = FunctionView;

    open spec fn view(&self) -> FunctionView {
        FunctionView {
            name: self.name@,
            args: variable_views(self.args@),
            return_type: self.return_type@,
            body: self.body@,
        }
    }
}

impl View for Expression {
    type V = ExpressionView;

    open spec fn view(&self) -> ExpressionView {
        match *self {
            Expression::Translatable(e) => ExpressionView::Translatable(e@),
            Expression::Builtin(e) => ExpressionView::Builtin(e@),
            Expression::Use(e) => ExpressionView::Use(e@),
            Expression::Function(e) => ExpressionView::Function(e@),
        }
    }
}

/// The views of a list of nodes.
pub open spec fn expression_views(items: Seq<Expression>) -> Seq<ExpressionView> {
    items.map_values(|e: Expression| e@)
}

impl Clone for TranslatableExpression {
    fn clone(&self) -> (r: Self)
        ensures
            r@ == self@,
    {
        TranslatableExpression { expressions: clone_strings(&self.expressions) }
    }
}

impl Clone for TypedVariable {
    fn clone(&self) -> (r: Self)
        ensures
            r@ == self@,
    {
        TypedVariable { var_type: self.var_type.clone(), name: self.name.clone() }
    }
}

impl Clone for FunctionExpression {
    fn clone(&self) -> (r: Self)
        ensures
            r@ == self@,
    {
        let mut args: Vec<TypedVariable> = Vec::new();
        let mut i: usize = 0;
        while i < self.args.len()
            invariant
                i <= self.args.len(),
                variable_views(args@) == variable_views(self.args@.subrange(0, i as int)),
            decreases self.args.len() - i,
        {
            let ghost before = args@;
            let item = self.args[i].clone();
            args.push(item);
            assert(variable_views(args@) =~= variable_views(before).push(item@));
            assert(variable_views(self.args@.subrange(0, i + 1)) =~= variable_views(
                self.args@.subrange(0, i as int),
            ).push(self.args@[i as int]@));
            i += 1;
        }
        assert(self.args@.subrange(0, i as int) =~= self.args@);
        FunctionExpression {
            name: self.name.clone(),
            args,
            return_type: self.return_type.clone(),
            body: self.body.clone(),
        }
    }
}

/// The lexemes of a list of tokens.
pub open spec fn contents(tokens: Seq<TokenView>) -> Seq<Seq<char>> {
    tokens.map_values(|t: TokenView| t.content)
}

/// The lexeme of a token as a function body holds it: the text that the
/// token has in the source, so a builtin keeps its `@`.
pub open spec fn body_lexeme(t: TokenView) -> Seq<char> {
    if t.typ == TokenType::Builtin {
        seq!['@'] + t.content
    } else {
        t.content
    }
}

/// The lexemes of a list of tokens as a function body holds them.
pub open spec fn body_lexemes(tokens: Seq<TokenView>) -> Seq<Seq<char>> {
    tokens.map_values(|t: TokenView| body_lexeme(t))
}

/// The tokens that are not commas, in order.
pub open spec fn without_commas(tokens: Seq<TokenView>) -> Seq<TokenView>
    decreases tokens.len(),
{
    if tokens.len() == 0 {
        Seq::empty()
    } else if tokens.last().typ == TokenType::Comma {
        without_commas(tokens.drop_last())
    } else {
        without_commas(tokens.drop_last()).push(tokens.last())
    }
}

/// The first position at or after `pos` that holds a token of kind `typ`,
/// or the end of the tokens.
pub open spec fn find_type(tokens: Seq<TokenView>, pos: int, typ: TokenType) -> int
    decreases tokens.len() - pos,
{
    if 0 <= pos < tokens.len() && tokens[pos].typ != typ {
        find_type(tokens, pos + 1, typ)
    } else {
        pos
    }
}

/// The first position at or after `pos` that holds `;` or `)`, or the end of the tokens.
pub open spec fn find_args_end(tokens: Seq<TokenView>, pos: int) -> int
    decreases tokens.len() - pos,
{
    if 0 <= pos < tokens.len() && tokens[pos].typ != TokenType::Semicolon && tokens[pos].typ
        != TokenType::RightParen {
        find_args_end(tokens, pos + 1)
    } else {
        pos
    }
}

/// The position after the token at `end`, if there is one.
pub open spec fn step_over(tokens: Seq<TokenView>, end: int) -> int {
    if end < tokens.len() {
        end + 1
    } else {
        end
    }
}

/// A token that the parser did not expect, with the message that says what it expected.
pub type ParseFailure = (TokenView, Seq<char>);

/// A token of kind `typ` is expected at `pos`: the position after it, or the
/// token found instead. At the end of the tokens nothing is consumed and
/// nothing is refused.
pub open spec fn expect_at(tokens: Seq<TokenView>, pos: int, typ: TokenType) -> Result<
    int,
    TokenView,
> {
    if pos < 0 || pos >= tokens.len() {
        Ok(pos)
    } else if tokens[pos].typ == typ {
        Ok(pos + 1)
    } else {
        Err(tokens[pos])
    }
}

/// The parameters of a function from `pos` on, added to `found`, and the
/// position after the closing parenthesis. Commas are passed over; a
/// parameter is a lexeme for the type followed by an identifier.
pub open spec fn parse_params(
    tokens: Seq<TokenView>,
    pos: int,
    found: Seq<TypedVariableView>,
) -> Result<(Seq<TypedVariableView>, int), ParseFailure>
    decreases tokens.len() - pos,
{
    if pos < 0 || pos >= tokens.len() {
        Ok((found, pos))
    } else if tokens[pos].typ == TokenType::RightParen {
        Ok((found, pos + 1))
    } else if tokens[pos].typ == TokenType::Comma {
        parse_params(tokens, pos + 1, found)
    } else if pos + 1 >= tokens.len() {
        Ok((found, pos + 1))
    } else if tokens[pos + 1].typ != TokenType::Identifier {
        Err((tokens[pos + 1], "Expected variable name in function arguments."@))
    } else {
        parse_params(
            tokens,
            pos + 2,
            found.push(
                TypedVariableView { var_type: tokens[pos].content, name: tokens[pos + 1].content },
            ),
        )
    }
}

/// The return type at `pos` and the position after it: an identifier, or
/// `void` where there is none.
pub open spec fn parse_return_type(tokens: Seq<TokenView>, pos: int) -> (Seq<char>, int) {
    if 0 <= pos < tokens.len() && tokens[pos].typ == TokenType::Identifier {
        (tokens[pos].content, pos + 1)
    } else {
        ("void"@, pos)
    }
}

/// The rest of a function after its parameters, from `pos` on: `->`, the
/// return type, `{`, and the lexemes of the body up to the first `}`.
pub open spec fn parse_function_tail(
    tokens: Seq<TokenView>,
    pos: int,
    name: Seq<char>,
    args: Seq<TypedVariableView>,
) -> Result<(FunctionView, int), ParseFailure> {
    match expect_at(tokens, pos, TokenType::Minus) {
        Err(t) => Err((t, "Expected '->' after function arguments."@)),
        Ok(after_minus) => match expect_at(tokens, after_minus, TokenType::GreaterThan) {
            Err(t) => Err((t, "Expected '->' after function arguments."@)),
            Ok(after_arrow) => {
                let (return_type, after_type) = parse_return_type(tokens, after_arrow);
                match expect_at(tokens, after_type, TokenType::LeftBrace) {
                    Err(t) => Err((t, "Expected '{' to start function body."@)),
                    Ok(body_start) => {
                        let end = find_type(tokens, body_start, TokenType::RightBrace);
                        Ok(
                            (
                                FunctionView {
                                    name,
                                    args,
                                    return_type,
                                    body: body_lexemes(tokens.subrange(body_start, end)),
                                },
                                step_over(tokens, end),
                            ),
                        )
                    },
                }
            },
        },
    }
}

/// A function whose keyword `func` stands just before `pos`: the node and
/// the position after it. Where the tokens end right after `func`, there is
/// no node.
pub open spec fn parse_function(tokens: Seq<TokenView>, pos: int) -> Result<
    (Option<FunctionView>, int),
    ParseFailure,
> {
    if pos < 0 || pos >= tokens.len() {
        Ok((None, pos))
    } else if tokens[pos].typ != TokenType::Identifier {
        Err((tokens[pos], "Expected function name after 'func' keyword."@))
    } else {
        match expect_at(tokens, pos + 1, TokenType::LeftParen) {
            Err(t) => Err((t, "Expected '(' after function name."@)),
            Ok(params_start) => match parse_params(tokens, params_start, Seq::empty()) {
                Err(e) => Err(e),
                Ok((args, params_end)) => match parse_function_tail(
                    tokens,
                    params_end,
                    tokens[pos].content,
                    args,
                ) {
                    Err(e) => Err(e),
                    Ok((f, next)) => Ok((Some(f), next)),
                },
            },
        }
    }
}

/// A builtin whose token stands at `pos`: the node and the position after
/// it. Arguments are read only where `(` follows; they run to the next `)`
/// or `;`, commas left out.
pub open spec fn parse_builtin(tokens: Seq<TokenView>, pos: int) -> (BuiltinView, int) {
    if pos + 1 < tokens.len() && tokens[pos + 1].typ == TokenType::LeftParen {
        let end = find_args_end(tokens, pos + 2);
        (
            BuiltinView {
                name: tokens[pos].content,
                args: without_commas(tokens.subrange(pos + 2, end)),
            },
            step_over(tokens, end),
        )
    } else {
        (BuiltinView { name: tokens[pos].content, args: Seq::empty() }, pos + 1)
    }
}

/// The pending lexemes as a node of their own; no node where there are none.
pub open spec fn flush(pending: Seq<Seq<char>>) -> Seq<ExpressionView> {
    if pending.len() == 0 {
        Seq::empty()
    } else {
        seq![ExpressionView::Translatable(pending)]
    }
}

/// The outcome of parsing: the nodes, or the first failure.
pub type ParseOutcome = Result<Seq<ExpressionView>, ParseFailure>;

/// `nodes` put in front of what `rest` holds; a failure stays a failure.
pub open spec fn prepend_nodes(nodes: Seq<ExpressionView>, rest: ParseOutcome) -> ParseOutcome {
    match rest {
        Ok(more) => Ok(nodes + more),
        Err(e) => Err(e),
    }
}

/// Whether the token opens the construct named by `word`.
pub open spec fn is_keyword_token(t: TokenView, word: Seq<char>) -> bool {
    t.typ == TokenType::Keyword && t.content == word
}

/// The structural construct that starts at `pos`, if one does: the nodes it
/// yields and the position after it.
pub open spec fn parse_construct(tokens: Seq<TokenView>, pos: int) -> Option<
    Result<(Seq<ExpressionView>, int), ParseFailure>,
> {
    let t = tokens[pos];
    if is_keyword_token(t, "use"@) {
        let end = find_type(tokens, pos + 1, TokenType::Semicolon);
        Some(
            Ok(
                (
                    seq![ExpressionView::Use(concat(contents(tokens.subrange(pos + 1, end))))],
                    step_over(tokens, end),
                ),
            ),
        )
    } else if is_keyword_token(t, "func"@) {
        Some(
            match parse_function(tokens, pos + 1) {
                Err(e) => Err(e),
                Ok((Some(f), next)) => Ok((seq![ExpressionView::Function(f)], next)),
                Ok((None, next)) => Ok((Seq::empty(), next)),
            },
        )
    } else if t.typ == TokenType::Builtin {
        let (b, next) = parse_builtin(tokens, pos);
        Some(Ok((seq![ExpressionView::Builtin(b)], next)))
    } else {
        None
    }
}

/// The nodes of the tokens from `pos` on, with the lexemes in `pending`
/// collected and not yet emitted; or the first failure.
pub open spec fn parse_from(tokens: Seq<TokenView>, pos: int, pending: Seq<Seq<char>>) -> ParseOutcome
    decreases tokens.len() - pos,
    via parse_from_decreases
{
    if pos < 0 || pos >= tokens.len() {
        Ok(flush(pending))
    } else {
        match parse_construct(tokens, pos) {
            None => parse_from(tokens, pos + 1, pending.push(tokens[pos].content)),
            Some(Err(e)) => Err(e),
            Some(Ok((nodes, next))) => prepend_nodes(
                flush(pending) + nodes,
                parse_from(tokens, next, Seq::empty()),
            ),
        }
    }
}

#[via_fn]
proof fn parse_from_decreases(tokens: Seq<TokenView>, pos: int, pending: Seq<Seq<char>>) {
    if 0 <= pos < tokens.len() {
        lemma_construct_advances(tokens, pos);
    }
}

/// The nodes of a token sequence, or the first failure.
pub open spec fn parse_tokens(tokens: Seq<TokenView>) -> ParseOutcome {
    parse_from(tokens, 0, Seq::empty())
}

/// A search never goes backwards and never leaves the tokens.
pub proof fn lemma_find_type_bounds(tokens: Seq<TokenView>, pos: int, typ: TokenType)
    requires
        0 <= pos <= tokens.len(),
    ensures
        pos <= find_type(tokens, pos, typ) <= tokens.len(),
    decreases tokens.len() - pos,
{
    if pos < tokens.len() && tokens[pos].typ != typ {
        lemma_find_type_bounds(tokens, pos + 1, typ);
    }
}

/// The arguments of a builtin never end before they start nor outside the tokens.
pub proof fn lemma_find_args_end_bounds(tokens: Seq<TokenView>, pos: int)
    requires
        0 <= pos <= tokens.len(),
    ensures
        pos <= find_args_end(tokens, pos) <= tokens.len(),
    decreases tokens.len() - pos,
{
    if pos < tokens.len() && tokens[pos].typ != TokenType::Semicolon && tokens[pos].typ
        != TokenType::RightParen {
        lemma_find_args_end_bounds(tokens, pos + 1);
    }
}

/// Reading parameters never goes backwards and never leaves the tokens.
pub proof fn lemma_parse_params_bounds(
    tokens: Seq<TokenView>,
    pos: int,
    found: Seq<TypedVariableView>,
)
    requires
        0 <= pos <= tokens.len(),
    ensures
        parse_params(tokens, pos, found) matches Ok((args, next)) ==> pos <= next <= tokens.len(),
    decreases tokens.len() - pos,
{
    if pos < tokens.len() {
        if tokens[pos].typ == TokenType::RightParen {
        } else if tokens[pos].typ == TokenType::Comma {
            lemma_parse_params_bounds(tokens, pos + 1, found);
        } else if pos + 1 >= tokens.len() {
        } else if tokens[pos + 1].typ != TokenType::Identifier {
        } else {
            lemma_parse_params_bounds(
                tokens,
                pos + 2,
                found.push(
                    TypedVariableView {
                        var_type: tokens[pos].content,
                        name: tokens[pos + 1].content,
                    },
                ),
            );
        }
    }
}

/// Reading the rest of a function never goes backwards and never leaves the tokens.
pub proof fn lemma_function_tail_bounds(
    tokens: Seq<TokenView>,
    pos: int,
    name: Seq<char>,
    args: Seq<TypedVariableView>,
)
    requires
        0 <= pos <= tokens.len(),
    ensures
        parse_function_tail(tokens, pos, name, args) matches Ok((f, next)) ==> pos <= next
            <= tokens.len(),
{
    if let Ok(after_minus) = expect_at(tokens, pos, TokenType::Minus) {
        if let Ok(after_arrow) = expect_at(tokens, after_minus, TokenType::GreaterThan) {
            let (return_type, after_type) = parse_return_type(tokens, after_arrow);
            if let Ok(body_start) = expect_at(tokens, after_type, TokenType::LeftBrace) {
                lemma_find_type_bounds(tokens, body_start, TokenType::RightBrace);
            }
        }
    }
}

/// Reading a function never goes backwards and never leaves the tokens.
pub proof fn lemma_parse_function_bounds(tokens: Seq<TokenView>, pos: int)
    requires
        0 <= pos <= tokens.len(),
    ensures
        parse_function(tokens, pos) matches Ok((f, next)) ==> pos <= next <= tokens.len(),
{
    if pos < tokens.len() && tokens[pos].typ == TokenType::Identifier {
        if let Ok(params_start) = expect_at(tokens, pos + 1, TokenType::LeftParen) {
            lemma_parse_params_bounds(tokens, params_start, Seq::empty());
            if let Ok((args, params_end)) = parse_params(tokens, params_start, Seq::empty()) {
                lemma_function_tail_bounds(tokens, params_end, tokens[pos].content, args);
            }
        }
    }
}

/// Every structural construct consumes at least one token and stays inside the tokens.
pub proof fn lemma_construct_advances(tokens: Seq<TokenView>, pos: int)
    requires
        0 <= pos < tokens.len(),
    ensures
        parse_construct(tokens, pos) matches Some(Ok((nodes, next))) ==> pos < next
            <= tokens.len(),
{
    lemma_find_type_bounds(tokens, pos + 1, TokenType::Semicolon);
    lemma_parse_function_bounds(tokens, pos + 1);
    if pos + 2 <= tokens.len() {
        lemma_find_args_end_bounds(tokens, pos + 2);
    }
}

/// The lexemes of a range of tokens, one more token taken in.
pub proof fn lemma_contents_extend(tokens: Seq<TokenView>, from: int, to: int)
    requires
        0 <= from <= to < tokens.len(),
    ensures
        contents(tokens.subrange(from, to + 1)) == contents(tokens.subrange(from, to)).push(
            tokens[to].content,
        ),
        tokens.subrange(from, to + 1).drop_last() == tokens.subrange(from, to),
        tokens.subrange(from, to + 1).last() == tokens[to],
{
    assert(contents(tokens.subrange(from, to + 1)) =~= contents(tokens.subrange(from, to)).push(
        tokens[to].content,
    ));
    assert(tokens.subrange(from, to + 1).drop_last() =~= tokens.subrange(from, to));
}

/// Nodes put in front one group after the other, or all at once.
pub proof fn lemma_prepend_nodes_twice(
    first: Seq<ExpressionView>,
    second: Seq<ExpressionView>,
    rest: ParseOutcome,
)
    ensures
        prepend_nodes(first, prepend_nodes(second, rest)) == prepend_nodes(first + second, rest),
{
    if let Ok(more) = rest {
        assert(first + (second + more) =~= (first + second) + more);
    }
}

/// Translatable blocks are whole: none is empty, and no two stand side by
/// side, so a run of unstructured lexemes is never split over several nodes.
pub open spec fn blocks_whole(nodes: Seq<ExpressionView>) -> bool {
    &&& forall|i: int|
        0 <= i < nodes.len() ==> ((#[trigger] nodes[i]) matches ExpressionView::Translatable(b)
            ==> b.len() > 0)
    &&& forall|i: int|
        0 <= i && i + 1 < nodes.len() ==> !((#[trigger] nodes[i]) is Translatable && nodes[i
            + 1] is Translatable)
}

/// Whenever the parser meets a structural construct, the lexemes collected
/// so far leave as one block in front of it: parsing with `pending` lexemes
/// waiting yields nodes whose first is a block that starts with `pending`,
/// and all blocks of the result are whole.
pub proof fn lemma_parse_blocks_whole(tokens: Seq<TokenView>, pos: int, pending: Seq<Seq<char>>)
    requires
        0 <= pos,
    ensures
        parse_from(tokens, pos, pending) matches Ok(nodes) ==> {
            &&& blocks_whole(nodes)
            &&& pending.len() > 0 ==> nodes.len() > 0 && (nodes[0] matches ExpressionView::Translatable(
                b,
            ) && pending.is_prefix_of(b))
            &&& pending.len() == 0 && pos < tokens.len() && parse_construct(tokens, pos) is Some
                ==> nodes.len() == 0 || !(nodes[0] is Translatable)
        },
    decreases tokens.len() - pos,
{
    if pos < tokens.len() {
        lemma_construct_advances(tokens, pos);
        match parse_construct(tokens, pos) {
            None => {
                lemma_parse_blocks_whole(tokens, pos + 1, pending.push(tokens[pos].content));
                if let Ok(nodes) = parse_from(tokens, pos, pending) {
                    if pending.len() > 0 {
                        let b = nodes[0]->Translatable_0;
                        assert(pending =~= pending.push(tokens[pos].content).subrange(
                            0,
                            pending.len() as int,
                        ));
                        assert(pending =~= b.subrange(0, pending.len() as int));
                    }
                }
            },
            Some(Err(e)) => {},
            Some(Ok((made, next))) => {
                lemma_parse_blocks_whole(tokens, next, Seq::empty());
                lemma_parse_function_bounds(tokens, pos + 1);
                if let Ok(rest) = parse_from(tokens, next, Seq::empty()) {
                    let head = flush(pending) + made;
                    let nodes = head + rest;
                    assert(made.len() <= 1);
                    assert(made.len() == 1 ==> !(made[0] is Translatable));
                    assert(made.len() == 0 ==> rest.len() == 0);
                    assert forall|i: int| 0 <= i < nodes.len() implies ((
                    #[trigger] nodes[i]) matches ExpressionView::Translatable(b) ==> b.len()
                        > 0) by {
                        if i >= head.len() {
                            assert(nodes[i] == rest[i - head.len()]);
                        }
                    }
                    assert forall|i: int| 0 <= i && i + 1 < nodes.len() implies !((
                    #[trigger] nodes[i]) is Translatable && nodes[i + 1] is Translatable) by {
                        if i >= head.len() {
                            assert(nodes[i] == rest[i - head.len()]);
                            assert(nodes[i + 1] == rest[i + 1 - head.len()]);
                        } else if i + 1 >= head.len() {
                            assert(nodes[i] == head[i]);
                            assert(head[i] == made[0]);
                        } else {
                            assert(nodes[i] == head[i]);
                            assert(nodes[i + 1] == head[i + 1]);
                            assert(head[i + 1] == made[0]);
                        }
                    }
                    if pending.len() > 0 {
                        assert(nodes[0] == ExpressionView::Translatable(pending));
                    }
                }
            },
        }
    }
}

/// The flush of pending lexemes, for a whole token sequence: in the nodes
/// of any token sequence, no translatable block is empty and no two stand
/// side by side.
pub proof fn law_blocks_whole(tokens: Seq<TokenView>)
    ensures
        parse_tokens(tokens) matches Ok(nodes) ==> blocks_whole(nodes),
{
    lemma_parse_blocks_whole(tokens, 0, Seq::empty());
}

/// A parser over the tokens of one source text, with a cursor into them.
pub struct Parser {
    tokens: Vec<Token>,
    current: usize,
    source: String,
}

impl Parser {
    #[verifier::type_invariant]
    spec fn cursor_in_bounds(&self) -> bool {
        self.current <= self.tokens.len()
    }

    /// The tokens that the parser walks.
    pub closed spec fn tokens_view(&self) -> Seq<TokenView> {
        token_views(self.tokens@)
    }

    /// The index of the next token to read.
    pub closed spec fn position(&self) -> int {
        self.current as int
    }

    /// The source text that the tokens were read from.
    pub closed spec fn source_text(&self) -> Seq<char> {
        self.source@
    }

    /// A parser at the first token of `source`; the failure of the lexer
    /// where the source has no tokenization.
    pub fn new(source: String) -> (r: Result<Self, Error>)
        ensures
            match lex(source@) {
                Ok(tokens) => r matches Ok(p) && p.tokens_view() == tokens && p.position() == 0
                    && p.source_text() == source@,
                Err((at, message)) => r matches Err(e) && e@ == ErrorView::Tokenization(
                    at,
                    source@,
                    message,
                ),
            },
    {
        let mut tokenizer = Tokenizer::new(source.clone());
        match tokenizer.tokenize() {
            Ok(tokens) => Ok(Parser { tokens, current: 0, source }),
            Err(e) => Err(e),
        }
    }

    /// The token under the cursor, and the cursor moved past it; `None` at
    /// the end of the tokens.
    pub fn advance(&mut self) -> (r: Option<&Token>)
        ensures
            final(self).tokens_view() == old(self).tokens_view(),
            final(self).source_text() == old(self).source_text(),
            0 <= old(self).position() <= old(self).tokens_view().len(),
            old(self).position() < old(self).tokens_view().len() ==> final(self).position() == old(
                self,
            ).position() + 1,
            old(self).position() < old(self).tokens_view().len() ==> (r matches Some(t) && t@
                == old(self).tokens_view()[old(self).position()]),
            old(self).position() >= old(self).tokens_view().len() ==> final(self).position() == old(
                self,
            ).position() && r is None,
    {
        proof {
            use_type_invariant(&*self);
        }
        if self.current < self.tokens.len() {
            let token = &self.tokens[self.current];
            self.current += 1;
            Some(token)
        } else {
            None
        }
    }

    /// The token under the cursor, which stays where it is; `None` at the
    /// end of the tokens.
    pub fn next(&mut self) -> (r: Option<&Token>)
        ensures
            final(self).tokens_view() == old(self).tokens_view(),
            final(self).source_text() == old(self).source_text(),
            final(self).position() == old(self).position(),
            0 <= old(self).position() <= old(self).tokens_view().len(),
            old(self).position() < old(self).tokens_view().len() ==> (r matches Some(t) && t@
                == old(self).tokens_view()[old(self).position()]),
            old(self).position() >= old(self).tokens_view().len() ==> r is None,
    {
        proof {
            use_type_invariant(&*self);
        }
        if self.current < self.tokens.len() {
            Some(&self.tokens[self.current])
        } else {
            None
        }
    }

    /// Reads the token under the cursor, which must be of kind `expected`.
    /// A token of another kind is refused with `message`. At the end of the
    /// tokens nothing is read and nothing is refused.
    pub fn expect(&mut self, expected: TokenType, message: String) -> (r: Result<
        Option<&Token>,
        Error,
    >)
        ensures
            final(self).tokens_view() == old(self).tokens_view(),
            final(self).source_text() == old(self).source_text(),
            0 <= old(self).position() <= old(self).tokens_view().len(),
            match expect_at(old(self).tokens_view(), old(self).position(), expected) {
                Ok(next) => r matches Ok(found) && final(self).position() == next && (if old(
                    self,
                ).position() < old(self).tokens_view().len() {
                    found matches Some(t) && t@ == old(self).tokens_view()[old(self).position()]
                } else {
                    found is None
                }),
                Err(t) => r matches Err(e) && e@ == ErrorView::Parse(
                    t,
                    old(self).source_text(),
                    message@,
                ) && final(self).position() == old(self).position() + 1,
            },
    {
        let source = self.source.clone();
        if let Some(token) = self.advance() {
            if token.typ == expected {
                Ok(Some(token))
            } else {
                Err(Error::ParseError(token.clone(), source, message))
            }
        } else {
            Ok(None)
        }
    }

    /// The lexemes from the cursor up to the next token of kind `stop`, put
    /// one after the other; the cursor moves past that token.
    fn take_joined_until(&mut self, stop: TokenType) -> (r: String)
        ensures
            final(self).tokens_view() == old(self).tokens_view(),
            final(self).source_text() == old(self).source_text(),
            0 <= old(self).position() <= old(self).tokens_view().len(),
            ({
                let tokens = old(self).tokens_view();
                let end = find_type(tokens, old(self).position(), stop);
                &&& r@ == concat(contents(tokens.subrange(old(self).position(), end)))
                &&& final(self).position() == step_over(tokens, end)
            }),
    {
        proof {
            use_type_invariant(&*self);
        }
        let ghost tokens = self.tokens_view();
        let ghost start = self.position();
        let mut joined = String::new();
        assert(contents(tokens.subrange(start, start)) =~= Seq::<Seq<char>>::empty());
        while self.current < self.tokens.len() && self.tokens[self.current].typ != stop
            invariant
                self.tokens_view() == tokens,
                self.source_text() == old(self).source_text(),
                0 <= start <= self.position() <= tokens.len(),
                find_type(tokens, start, stop) == find_type(tokens, self.position(), stop),
                joined@ == concat(contents(tokens.subrange(start, self.position()))),
            decreases tokens.len() - self.position(),
        {
            proof {
                lemma_contents_extend(tokens, start, self.position());
                lemma_concat_push(
                    contents(tokens.subrange(start, self.position())),
                    tokens[self.position()].content,
                );
            }
            joined.append(self.tokens[self.current].content.as_str());
            self.current += 1;
        }
        if self.current < self.tokens.len() {
            self.current += 1;
        }
        joined
    }

    /// The lexemes of a function body from the cursor up to the next `}`;
    /// the cursor moves past that token.
    fn take_body(&mut self) -> (r: Vec<String>)
        ensures
            final(self).tokens_view() == old(self).tokens_view(),
            final(self).source_text() == old(self).source_text(),
            0 <= old(self).position() <= old(self).tokens_view().len(),
            ({
                let tokens = old(self).tokens_view();
                let end = find_type(tokens, old(self).position(), TokenType::RightBrace);
                &&& texts(r@) == body_lexemes(tokens.subrange(old(self).position(), end))
                &&& final(self).position() == step_over(tokens, end)
            }),
    {
        proof {
            use_type_invariant(&*self);
        }
        let ghost tokens = self.tokens_view();
        let ghost start = self.position();
        let mut found: Vec<String> = Vec::new();
        assert(texts(found@) =~= body_lexemes(tokens.subrange(start, start)));
        while self.current < self.tokens.len() && self.tokens[self.current].typ
            != TokenType::RightBrace
            invariant
                self.tokens_view() == tokens,
                self.source_text() == old(self).source_text(),
                0 <= start <= self.position() <= tokens.len(),
                find_type(tokens, start, TokenType::RightBrace) == find_type(
                    tokens,
                    self.position(),
                    TokenType::RightBrace,
                ),
                texts(found@) == body_lexemes(tokens.subrange(start, self.position())),
            decreases tokens.len() - self.position(),
        {
            let token = &self.tokens[self.current];
            let lexeme = if token.typ == TokenType::Builtin {
                let mut text = String::new();
                text.push('@');
                text.append(token.content.as_str());
                text
            } else {
                token.content.clone()
            };
            proof {
                assert(lexeme@ == body_lexeme(tokens[self.position()]));
                assert(body_lexemes(tokens.subrange(start, self.position() + 1))
                    =~= body_lexemes(tokens.subrange(start, self.position())).push(lexeme@));
                lemma_texts_push(found@, lexeme);
            }
            found.push(lexeme);
            self.current += 1;
        }
        if self.current < self.tokens.len() {
            self.current += 1;
        }
        found
    }

    /// The arguments of a builtin from the cursor on: the tokens up to the
    /// next `)` or `;`, commas left out; the cursor moves past that token.
    fn take_args(&mut self) -> (r: Vec<Token>)
        ensures
            final(self).tokens_view() == old(self).tokens_view(),
            final(self).source_text() == old(self).source_text(),
            0 <= old(self).position() <= old(self).tokens_view().len(),
            ({
                let tokens = old(self).tokens_view();
                let end = find_args_end(tokens, old(self).position());
                &&& token_views(r@) == without_commas(tokens.subrange(old(self).position(), end))
                &&& final(self).position() == step_over(tokens, end)
            }),
    {
        proof {
            use_type_invariant(&*self);
        }
        let ghost tokens = self.tokens_view();
        let ghost start = self.position();
        let mut args: Vec<Token> = Vec::new();
        assert(token_views(args@) =~= without_commas(tokens.subrange(start, start)));
        while self.current < self.tokens.len() && self.tokens[self.current].typ
            != TokenType::Semicolon && self.tokens[self.current].typ != TokenType::RightParen
            invariant
                self.tokens_view() == tokens,
                self.source_text() == old(self).source_text(),
                0 <= start <= self.position() <= tokens.len(),
                find_args_end(tokens, start) == find_args_end(tokens, self.position()),
                token_views(args@) == without_commas(tokens.subrange(start, self.position())),
            decreases tokens.len() - self.position(),
        {
            proof {
                lemma_contents_extend(tokens, start, self.position());
            }
            if self.tokens[self.current].typ != TokenType::Comma {
                let token = self.tokens[self.current].clone();
                proof {
                    lemma_token_views_push(args@, token);
                }
                args.push(token);
            }
            self.current += 1;
        }
        if self.current < self.tokens.len() {
            self.current += 1;
        }
        args
    }

    /// The parameters of a function from the cursor on; the cursor moves
    /// past the closing parenthesis.
    fn take_params(&mut self) -> (r: Result<Vec<TypedVariable>, Error>)
        ensures
            final(self).tokens_view() == old(self).tokens_view(),
            final(self).source_text() == old(self).source_text(),
            0 <= old(self).position() <= old(self).tokens_view().len(),
            match parse_params(old(self).tokens_view(), old(self).position(), Seq::empty()) {
                Ok((args, next)) => r matches Ok(found) && variable_views(found@) == args
                    && final(self).position() == next,
                Err((t, message)) => r matches Err(e) && e@ == ErrorView::Parse(
                    t,
                    old(self).source_text(),
                    message,
                ),
            },
    {
        proof {
            use_type_invariant(&*self);
        }
        let ghost tokens = self.tokens_view();
        let ghost start = self.position();
        let mut args: Vec<TypedVariable> = Vec::new();
        assert(variable_views(args@) =~= Seq::<TypedVariableView>::empty());
        loop
            invariant_except_break
                parse_params(tokens, start, Seq::empty()) == parse_params(
                    tokens,
                    self.position(),
                    variable_views(args@),
                ),
            invariant
                self.tokens_view() == tokens,
                tokens == old(self).tokens_view(),
                self.source_text() == old(self).source_text(),
                start == old(self).position(),
                0 <= start <= self.position() <= tokens.len(),
            ensures
                parse_params(tokens, start, Seq::empty()) == Ok::<
                    (Seq<TypedVariableView>, int),
                    ParseFailure,
                >((variable_views(args@), self.position())),
            decreases tokens.len() - self.position(),
        {
            if self.current >= self.tokens.len() {
                break ;
            }
            let typ = self.tokens[self.current].typ;
            if typ == TokenType::RightParen {
                self.current += 1;
                break ;
            }
            if typ == TokenType::Comma {
                self.current += 1;
                continue ;
            }
            let var_type = self.tokens[self.current].content.clone();
            self.current += 1;
            let name = match self.expect(
                TokenType::Identifier,
                String::from_str("Expected variable name in function arguments."),
            ) {
                Err(e) => {
                    return Err(e);
                },
                Ok(None) => {
                    break ;
                },
                Ok(Some(token)) => token.content.clone(),
            };
            let variable = TypedVariable { var_type, name };
            assert(variable_views(args@.push(variable)) =~= variable_views(args@).push(variable@));
            args.push(variable);
        }
        Ok(args)
    }

    /// The function whose keyword `func` stands just before the cursor; the
    /// cursor moves past its body. `None` where the tokens end at the cursor.
    fn take_function(&mut self) -> (r: Result<Option<FunctionExpression>, Error>)
        ensures
            final(self).tokens_view() == old(self).tokens_view(),
            final(self).source_text() == old(self).source_text(),
            0 <= old(self).position() <= old(self).tokens_view().len(),
            match parse_function(old(self).tokens_view(), old(self).position()) {
                Ok((function, next)) => r matches Ok(found) && final(self).position() == next && (
                match function {
                    Some(f) => found matches Some(g) && g@ == f,
                    None => found is None,
                }),
                Err((t, message)) => r matches Err(e) && e@ == ErrorView::Parse(
                    t,
                    old(self).source_text(),
                    message,
                ),
            },
    {
        let ghost tokens = self.tokens_view();
        let ghost start = self.position();
        let name = match self.expect(
            TokenType::Identifier,
            String::from_str("Expected function name after 'func' keyword."),
        ) {
            Err(e) => {
                return Err(e);
            },
            Ok(None) => {
                return Ok(None);
            },
            Ok(Some(token)) => token.content.clone(),
        };
        if let Err(e) = self.expect(
            TokenType::LeftParen,
            String::from_str("Expected '(' after function name."),
        ) {
            return Err(e);
        }
        let args = match self.take_params() {
            Err(e) => {
                return Err(e);
            },
            Ok(args) => args,
        };
        if let Err(e) = self.expect(
            TokenType::Minus,
            String::from_str("Expected '->' after function arguments."),
        ) {
            return Err(e);
        }
        if let Err(e) = self.expect(
            TokenType::GreaterThan,
            String::from_str("Expected '->' after function arguments."),
        ) {
            return Err(e);
        }
        let mut return_type = String::from_str("void");
        proof {
            use_type_invariant(&*self);
        }
        if self.current < self.tokens.len() && self.tokens[self.current].typ
            == TokenType::Identifier {
            return_type = self.tokens[self.current].content.clone();
            self.current += 1;
        }
        if let Err(e) = self.expect(
            TokenType::LeftBrace,
            String::from_str("Expected '{' to start function body."),
        ) {
            return Err(e);
        }
        let body = self.take_body();
        Ok(
            Some(
                FunctionExpression {
                    name,
                    args,
                    return_type,
                    body: TranslatableExpression { expressions: body },
                },
            ),
        )
    }

    /// Parses the tokens from the cursor to their end. The result is the
    /// node sequence that [`parse_from`] defines, or the first failure.
    pub fn parse(&mut self) -> (r: Result<Vec<Expression>, Error>)
        ensures
            final(self).tokens_view() == old(self).tokens_view(),
            final(self).source_text() == old(self).source_text(),
            0 <= old(self).position() <= old(self).tokens_view().len(),
            match parse_from(old(self).tokens_view(), old(self).position(), Seq::empty()) {
                Ok(nodes) => r matches Ok(found) && expression_views(found@) == nodes
                    && final(self).position() == old(self).tokens_view().len() && blocks_whole(
                    nodes,
                ),
                Err((t, message)) => r matches Err(e) && e@ == ErrorView::Parse(
                    t,
                    old(self).source_text(),
                    message,
                ),
            },
    {
        proof {
            use_type_invariant(&*self);
        }
        let ghost tokens = self.tokens_view();
        let ghost start = self.position();
        let mut nodes: Vec<Expression> = Vec::new();
        let mut pending: Vec<String> = Vec::new();
        proof {
            assert(expression_views(nodes@) =~= Seq::<ExpressionView>::empty());
            assert(texts(pending@) =~= Seq::<Seq<char>>::empty());
            if let Ok(more) = parse_from(tokens, start, Seq::empty()) {
                assert(Seq::<ExpressionView>::empty() + more =~= more);
            }
        }
        while self.current < self.tokens.len()
            invariant
                self.tokens_view() == tokens,
                self.source_text() == old(self).source_text(),
                tokens == old(self).tokens_view(),
                start == old(self).position(),
                0 <= start <= self.position() <= tokens.len(),
                parse_from(tokens, start, Seq::empty()) == prepend_nodes(
                    expression_views(nodes@),
                    parse_from(tokens, self.position(), texts(pending@)),
                ),
            decreases tokens.len() - self.position(),
        {
            let ghost at = self.position();
            let ghost before = expression_views(nodes@);
            let ghost waiting = texts(pending@);
            proof {
                lemma_construct_advances(tokens, at);
            }
            let typ = self.tokens[self.current].typ;
            let is_word = typ == TokenType::Keyword;
            let is_use = is_word && str_eq(self.tokens[self.current].content.as_str(), "use");
            let is_func = is_word && str_eq(self.tokens[self.current].content.as_str(), "func");
            if !is_use && !is_func && typ != TokenType::Builtin {
                let lexeme = self.tokens[self.current].content.clone();
                proof {
                    lemma_texts_push(pending@, lexeme);
                }
                pending.push(lexeme);
                self.current += 1;
                continue ;
            }
            if pending.len() > 0 {
                let mut block: Vec<String> = Vec::new();
                std::mem::swap(&mut block, &mut pending);
                let node = Expression::Translatable(TranslatableExpression { expressions: block });
                assert(expression_views(nodes@.push(node)) =~= before + flush(waiting));
                nodes.push(node);
                assert(texts(pending@) =~= Seq::<Seq<char>>::empty());
            } else {
                assert(before + flush(waiting) =~= before);
                assert(texts(pending@) =~= Seq::<Seq<char>>::empty());
            }
            let ghost flushed = expression_views(nodes@);
            let ghost made: Seq<ExpressionView>;
            if is_use {
                self.current += 1;
                let module = self.take_joined_until(TokenType::Semicolon);
                let node = Expression::Use(UseExpression { module });
                proof {
                    made = seq![node@];
                    assert(expression_views(nodes@.push(node)) =~= flushed + made);
                }
                nodes.push(node);
            } else if is_func {
                self.current += 1;
                match self.take_function() {
                    Err(e) => {
                        return Err(e);
                    },
                    Ok(None) => {
                        proof {
                            made = Seq::empty();
                            assert(flushed + made =~= flushed);
                        }
                    },
                    Ok(Some(function)) => {
                        let node = Expression::Function(function);
                        proof {
                            made = seq![node@];
                            assert(expression_views(nodes@.push(node)) =~= flushed + made);
                        }
                        nodes.push(node);
                    },
                }
            } else {
                let name = self.tokens[self.current].content.clone();
                self.current += 1;
                let mut args: Vec<Token> = Vec::new();
                assert(token_views(args@) =~= Seq::<TokenView>::empty());
                if self.current < self.tokens.len() && self.tokens[self.current].typ
                    == TokenType::LeftParen {
                    self.current += 1;
                    args = self.take_args();
                }
                let node = Expression::Builtin(Builtin { name, args });
                proof {
                    made = seq![node@];
                    assert(expression_views(nodes@.push(node)) =~= flushed + made);
                }
                nodes.push(node);
            }
            proof {
                assert(parse_construct(tokens, at) == Some(
                    Ok::<(Seq<ExpressionView>, int), ParseFailure>((made, self.position())),
                ));
                lemma_prepend_nodes_twice(
                    before,
                    flush(waiting) + made,
                    parse_from(tokens, self.position(), Seq::empty()),
                );
                assert(before + (flush(waiting) + made) =~= flushed + made);
            }
        }
        if pending.len() > 0 {
            let ghost before = expression_views(nodes@);
            let node = Expression::Translatable(TranslatableExpression { expressions: pending });
            assert(expression_views(nodes@.push(node)) =~= before + flush(node@->Translatable_0));
            nodes.push(node);
        } else {
            assert(expression_views(nodes@) + flush(texts(pending@)) =~= expression_views(nodes@));
        }
        proof {
            lemma_parse_blocks_whole(tokens, start, Seq::empty());
        }
        Ok(nodes)
    }
}

} // verus!
