//! Struct declarations: how they are read from the lexemes of a
//! translatable block, and how GLSL writes them.
use crate::body::option_text;
use crate::glsl::{glsl_type, map_type};
use crate::table::Table;
use crate::text::{
    concat, decimal, decimal_string, lemma_concat_push, lemma_texts_push, str_eq, texts,
};
use vstd::prelude::*;
use vstd::string::*;

verus! {

/// A field of a struct: type, name, and what follows the name up to the
/// semicolon (an array suffix), if anything does.
#[derive(Debug)]
pub struct StructField {
    pub typ: String,
    pub name: String,
    pub array_suffix: Option<String>,
}

/// A struct: its fields in order, and the layout qualifier of its uniform
/// block, if one was given.
#[derive(Debug)]
pub struct StructInfo {
    pub fields: Vec<StructField>,
    pub alignment: Option<String>,
}

/// The mathematical content of a [`StructField`].
pub struct StructFieldView {
    pub typ: Seq<char>,
    pub name: Seq<char>,
    pub array_suffix: Option<Seq<char>>,
}

/// The mathematical content of a [`StructInfo`].
pub struct StructInfoView {
    pub fields: Seq<StructFieldView>,
    pub alignment: Option<Seq<char>>,
}

impl View for StructField {
    type V = StructFieldView;

    open spec fn view(&self) -> StructFieldView {
        StructFieldView {
            typ: self.typ@,
            name: self.name@,
            array_suffix: option_text(self.array_suffix),
        }
    }
}

/// The views of a list of fields.
pub open spec fn field_views(fields: Seq<StructField>) -> Seq<StructFieldView> {
    fields.map_values(|f: StructField| f@)
}

impl View for StructInfo {
    type V = StructInfoView;

    open spec fn view(&self) -> StructInfoView {
        StructInfoView {
            fields: field_views(self.fields@),
            alignment: option_text(self.alignment),
        }
    }
}

/// A copy of an optional string.
pub fn clone_option(s: &Option<String>) -> (r: Option<String>)
    ensures
        option_text(r) == option_text(*s),
{
    match s {
        Some(text) => Some(text.clone()),
        None => None,
    }
}

impl Clone for StructField {
    fn clone(&self) -> (r: Self)
        ensures
            r@ == self@,
    {
        StructField {
            typ: self.typ.clone(),
            name: self.name.clone(),
            array_suffix: clone_option(&self.array_suffix),
        }
    }
}

impl Clone for StructInfo {
    fn clone(&self) -> (r: Self)
        ensures
            r@ == self@,
    {
        let mut fields: Vec<StructField> = Vec::new();
        let mut i: usize = 0;
        assert(field_views(fields@) =~= field_views(self.fields@.subrange(0, 0)));
        while i < self.fields.len()
            invariant
                i <= self.fields.len(),
                field_views(fields@) == field_views(self.fields@.subrange(0, i as int)),
            decreases self.fields.len() - i,
        {
            let ghost before = fields@;
            let field = self.fields[i].clone();
            fields.push(field);
            assert(field_views(fields@) =~= field_views(before).push(field@));
            assert(field_views(self.fields@.subrange(0, i + 1)) =~= field_views(
                self.fields@.subrange(0, i as int),
            ).push(self.fields@[i as int]@));
            i += 1;
        }
        assert(self.fields@.subrange(0, i as int) =~= self.fields@);
        StructInfo { fields, alignment: clone_option(&self.alignment) }
    }
}

/// The first position at or after `pos` that holds `;` or `}`, or the end
/// of the lexemes.
pub open spec fn suffix_end(tokens: Seq<Seq<char>>, pos: int) -> int
    decreases tokens.len() - pos,
{
    if 0 <= pos < tokens.len() && tokens[pos] != ";"@ && tokens[pos] != "}"@ {
        suffix_end(tokens, pos + 1)
    } else {
        pos
    }
}

/// A suffix never ends before it starts nor outside the lexemes.
pub proof fn lemma_suffix_end_bounds(tokens: Seq<Seq<char>>, pos: int)
    requires
        0 <= pos <= tokens.len(),
    ensures
        pos <= suffix_end(tokens, pos) <= tokens.len(),
    decreases tokens.len() - pos,
{
    if pos < tokens.len() && tokens[pos] != ";"@ && tokens[pos] != "}"@ {
        lemma_suffix_end_bounds(tokens, pos + 1);
    }
}

/// The field whose type stands at `pos`, with its suffix running up to `end`.
pub open spec fn field_at(tokens: Seq<Seq<char>>, pos: int, end: int) -> StructFieldView {
    StructFieldView {
        typ: tokens[pos],
        name: tokens[pos + 1],
        array_suffix: if end == pos + 2 {
            None
        } else {
            Some(concat(tokens.subrange(pos + 2, end)))
        },
    }
}

/// The position after the field whose suffix runs up to `end`: past the
/// semicolon, where one ends the field.
pub open spec fn after_field(tokens: Seq<Seq<char>>, end: int) -> int {
    if end < tokens.len() && tokens[end] == ";"@ {
        end + 1
    } else {
        end
    }
}

/// The fields of a struct read from position `pos` on, added to `found`,
/// and the position after the closing brace. A field is a lexeme for the
/// type, a lexeme for the name, and a suffix that runs to the next `;` or
/// `}`. Reading ends at `}`, or where fewer than two lexemes are left.
pub open spec fn struct_fields(tokens: Seq<Seq<char>>, pos: int, found: Seq<StructFieldView>) -> (
    Seq<StructFieldView>,
    int,
)
    decreases tokens.len() - pos,
    via struct_fields_decreases
{
    if pos < 0 || pos >= tokens.len() {
        (found, pos)
    } else if tokens[pos] == "}"@ {
        (found, pos + 1)
    } else if pos + 1 >= tokens.len() {
        (found, pos)
    } else {
        let end = suffix_end(tokens, pos + 2);
        struct_fields(tokens, after_field(tokens, end), found.push(field_at(tokens, pos, end)))
    }
}

#[via_fn]
proof fn struct_fields_decreases(tokens: Seq<Seq<char>>, pos: int, found: Seq<StructFieldView>) {
    if 0 <= pos && pos + 1 < tokens.len() {
        lemma_suffix_end_bounds(tokens, pos + 2);
    }
}

/// Reading fields never goes backwards and never leaves the lexemes.
pub proof fn lemma_struct_fields_bounds(
    tokens: Seq<Seq<char>>,
    pos: int,
    found: Seq<StructFieldView>,
)
    requires
        0 <= pos <= tokens.len(),
    ensures
        pos <= struct_fields(tokens, pos, found).1 <= tokens.len(),
    decreases tokens.len() - pos,
{
    if pos < tokens.len() && tokens[pos] != "}"@ && pos + 1 < tokens.len() {
        lemma_suffix_end_bounds(tokens, pos + 2);
        let end = suffix_end(tokens, pos + 2);
        lemma_struct_fields_bounds(
            tokens,
            after_field(tokens, end),
            found.push(field_at(tokens, pos, end)),
        );
    }
}

/// What the lexemes of a block say at their start, read as a struct.
pub enum StructParse {
    /// No struct starts here; nothing is consumed.
    Absent,
    /// `struct` and a name, but no `{` in the rest of the block: the whole
    /// block is consumed and nothing is declared.
    Unopened,
    /// A struct: its name, its fields, and the number of lexemes consumed.
    Declared { name: Seq<char>, fields: Seq<StructFieldView>, consumed: int },
}

/// The first position at or after `pos` that holds `{`, or the end of the lexemes.
pub open spec fn find_brace(tokens: Seq<Seq<char>>, pos: int) -> int
    decreases tokens.len() - pos,
{
    if 0 <= pos < tokens.len() && tokens[pos] != "{"@ {
        find_brace(tokens, pos + 1)
    } else {
        pos
    }
}

/// The search for an opening brace never goes backwards and never leaves
/// the lexemes.
pub proof fn lemma_find_brace_bounds(tokens: Seq<Seq<char>>, pos: int)
    requires
        0 <= pos <= tokens.len(),
    ensures
        pos <= find_brace(tokens, pos) <= tokens.len(),
    decreases tokens.len() - pos,
{
    if pos < tokens.len() && tokens[pos] != "{"@ {
        lemma_find_brace_bounds(tokens, pos + 1);
    }
}

/// The struct that the lexemes start with.
pub open spec fn parsed_struct(tokens: Seq<Seq<char>>) -> StructParse {
    if tokens.len() < 3 || tokens[0] != "struct"@ {
        StructParse::Absent
    } else {
        let brace = find_brace(tokens, 2);
        if brace >= tokens.len() {
            StructParse::Unopened
        } else {
            let (fields, consumed) = struct_fields(tokens, brace + 1, Seq::empty());
            StructParse::Declared { name: tokens[1], fields, consumed }
        }
    }
}

/// The fields of the struct whose opening brace stands just before `from`,
/// and the position after the struct.
pub fn read_struct_fields(tokens: &[String], from: usize) -> (r: (Vec<StructField>, usize))
    ensures
        field_views(r.0@) == struct_fields(texts(tokens@), from as int, Seq::empty()).0,
        r.1 == struct_fields(texts(tokens@), from as int, Seq::empty()).1,
        from <= r.1,
        from <= tokens.len() ==> r.1 <= tokens.len(),
{
    let ghost all = texts(tokens@);
    let n = tokens.len();
    let mut fields: Vec<StructField> = Vec::new();
    let mut index: usize = from;
    assert(field_views(fields@) =~= Seq::<StructFieldView>::empty());
    if from > n {
        return (fields, from);
    }
    proof {
        lemma_struct_fields_bounds(all, from as int, Seq::empty());
    }
    loop
        invariant_except_break
            struct_fields(all, from as int, Seq::empty()) == struct_fields(
                all,
                index as int,
                field_views(fields@),
            ),
        invariant
            from <= index <= n,
            n == tokens.len(),
            all == texts(tokens@),
        ensures
            struct_fields(all, from as int, Seq::empty()) == (field_views(fields@), index as int),
        decreases n - index,
    {
        if index >= n {
            break ;
        }
        if str_eq(tokens[index].as_str(), "}") {
            index += 1;
            break ;
        }
        if index + 1 >= n {
            break ;
        }
        let ghost at = index as int;
        let typ = tokens[index].clone();
        let name = tokens[index + 1].clone();
        index += 2;
        let mut suffix = String::new();
        let mut any = false;
        assert(all.subrange(at + 2, at + 2) =~= Seq::<Seq<char>>::empty());
        while index < n && !str_eq(tokens[index].as_str(), ";") && !str_eq(
            tokens[index].as_str(),
            "}",
        )
            invariant
                0 <= at,
                at + 2 <= index <= n,
                n == tokens.len(),
                all == texts(tokens@),
                suffix_end(all, at + 2) == suffix_end(all, index as int),
                suffix@ == concat(all.subrange(at + 2, index as int)),
                any == (index > at + 2),
            decreases n - index,
        {
            proof {
                lemma_concat_push(all.subrange(at + 2, index as int), all[index as int]);
                assert(all.subrange(at + 2, index as int).push(all[index as int])
                    =~= all.subrange(at + 2, index + 1));
            }
            suffix.append(tokens[index].as_str());
            any = true;
            index += 1;
        }
        let ghost end = index as int;
        if index < n && str_eq(tokens[index].as_str(), ";") {
            index += 1;
        }
        let field = StructField {
            typ,
            name,
            array_suffix: if any {
                Some(suffix)
            } else {
                None
            },
        };
        assert(field@ == field_at(all, at, end));
        assert(field_views(fields@.push(field)) =~= field_views(fields@).push(field@));
        fields.push(field);
    }
    (fields, index)
}

/// What follows the name of a field.
pub open spec fn suffix_text(suffix: Option<Seq<char>>) -> Seq<char> {
    match suffix {
        Some(text) => text,
        None => Seq::empty(),
    }
}

/// The line of a field in the definition of its struct: the GLSL type of
/// the field, its name, and what follows the name.
pub open spec fn field_line(f: StructFieldView) -> Seq<char> {
    "    "@ + glsl_type(f.typ) + " "@ + f.name + suffix_text(f.array_suffix) + ";\n"@
}

/// The lines of the fields of a struct.
pub open spec fn field_lines(fields: Seq<StructFieldView>) -> Seq<Seq<char>> {
    fields.map_values(|f: StructFieldView| field_line(f))
}

/// The definition of a struct as GLSL writes it.
pub open spec fn struct_definition(name: Seq<char>, info: StructInfoView) -> Seq<char> {
    "struct "@ + name + " {\n"@ + concat(field_lines(info.fields)) + "};"@
}

/// Appends what follows the name of a field.
pub fn append_suffix(line: &mut String, suffix: &Option<String>)
    ensures
        final(line)@ == old(line)@ + suffix_text(option_text(*suffix)),
{
    match suffix {
        Some(text) => {
            line.append(text.as_str());
        },
        None => {
            assert(line@ =~= line@ + Seq::<char>::empty());
        },
    }
}

/// The definition of the struct `name` as GLSL writes it.
pub fn format_struct_definition(name: &str, info: &StructInfo) -> (r: String)
    ensures
        r@ == struct_definition(name@, info@),
{
    let ghost lines = field_lines(info@.fields);
    let mut head = String::from_str("struct ");
    head.append(name);
    head.append(" {\n");
    let mut body = String::new();
    let mut i: usize = 0;
    assert(lines.subrange(0, 0) =~= Seq::<Seq<char>>::empty());
    while i < info.fields.len()
        invariant
            i <= info.fields.len(),
            lines == field_lines(info@.fields),
            body@ == concat(lines.subrange(0, i as int)),
        decreases info.fields.len() - i,
    {
        let field = &info.fields[i];
        let mut line = String::from_str("    ");
        line.append(map_type(field.typ.as_str()).as_str());
        line.append(" ");
        line.append(field.name.as_str());
        append_suffix(&mut line, &field.array_suffix);
        line.append(";\n");
        proof {
            assert(line@ == field_line(field@));
            assert(lines[i as int] == field_line(field@));
            lemma_concat_push(lines.subrange(0, i as int), line@);
            assert(lines.subrange(0, i as int).push(line@) =~= lines.subrange(0, i + 1));
        }
        body.append(line.as_str());
        i += 1;
    }
    assert(lines.subrange(0, i as int) =~= lines);
    head.append(body.as_str());
    head.append("};");
    head
}

/// The declaration of the variable that a field of a stage block becomes.
pub open spec fn io_decl(
    location: nat,
    direction: Seq<char>,
    typ: Seq<char>,
    prefix: Seq<char>,
    field: Seq<char>,
) -> Seq<char> {
    "layout(location = "@ + decimal(location) + ") "@ + direction + " "@ + glsl_type(typ) + " "@
        + prefix + field + ";"@
}

/// The declarations that the fields of a stage block become: one variable
/// per field, at the location that is the position of the field.
pub open spec fn io_decls(
    fields: Seq<StructFieldView>,
    direction: Seq<char>,
    prefix: Seq<char>,
) -> Seq<Seq<char>> {
    Seq::new(
        fields.len(),
        |i: int| io_decl(i as nat, direction, fields[i].typ, prefix, fields[i].name),
    )
}

/// The map in which each field, in order, is linked to its name with
/// `prefix` in front.
pub open spec fn linked(
    m: Map<Seq<char>, Seq<char>>,
    fields: Seq<StructFieldView>,
    prefix: Seq<char>,
) -> Map<Seq<char>, Seq<char>>
    decreases fields.len(),
{
    if fields.len() == 0 {
        m
    } else {
        linked(m, fields.drop_last(), prefix).insert(
            fields.last().name,
            prefix + fields.last().name,
        )
    }
}

/// Appends the declarations of the fields of a stage block to `decls`.
pub fn declare_fields(decls: &mut Vec<String>, info: &StructInfo, direction: &str, prefix: &str)
    ensures
        texts(final(decls)@) == texts(old(decls)@) + io_decls(info@.fields, direction@, prefix@),
{
    let ghost wanted = io_decls(info@.fields, direction@, prefix@);
    let mut i: usize = 0;
    assert(texts(decls@) =~= texts(old(decls)@) + wanted.subrange(0, 0));
    while i < info.fields.len()
        invariant
            i <= info.fields.len(),
            wanted == io_decls(info@.fields, direction@, prefix@),
            texts(decls@) == texts(old(decls)@) + wanted.subrange(0, i as int),
        decreases info.fields.len() - i,
    {
        let field = &info.fields[i];
        let mut decl = String::from_str("layout(location = ");
        decl.append(decimal_string(i as u64).as_str());
        decl.append(") ");
        decl.append(direction);
        decl.append(" ");
        decl.append(map_type(field.typ.as_str()).as_str());
        decl.append(" ");
        decl.append(prefix);
        decl.append(field.name.as_str());
        decl.append(";");
        proof {
            assert(decl@ == wanted[i as int]);
            lemma_texts_push(decls@, decl);
            assert((texts(old(decls)@) + wanted.subrange(0, i as int)).push(decl@) =~= texts(
                old(decls)@,
            ) + wanted.subrange(0, i + 1));
        }
        decls.push(decl);
        i += 1;
    }
    assert(wanted.subrange(0, i as int) =~= wanted);
}

/// Links each field of a stage block to its name with `prefix` in front.
pub fn link_fields(table: &mut Table<String>, info: &StructInfo, prefix: &str)
    ensures
        final(table).map() == linked(old(table).map(), info@.fields, prefix@),
{
    let ghost fields = info@.fields;
    let mut i: usize = 0;
    assert(fields.subrange(0, 0) =~= Seq::<StructFieldView>::empty());
    while i < info.fields.len()
        invariant
            i <= info.fields.len(),
            fields == info@.fields,
            table.map() == linked(old(table).map(), fields.subrange(0, i as int), prefix@),
        decreases info.fields.len() - i,
    {
        let field = &info.fields[i];
        let mut name = String::from_str(prefix);
        name.append(field.name.as_str());
        proof {
            let taken = fields.subrange(0, i + 1);
            assert(taken.drop_last() =~= fields.subrange(0, i as int));
            assert(taken.last() == field@);
        }
        table.insert(field.name.clone(), name);
        i += 1;
    }
    assert(fields.subrange(0, i as int) =~= fields);
}

} // verus!
