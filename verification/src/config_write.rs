//! Persisting a model that was added at runtime: one `[[model]]` block is
//! appended to the configuration file's text, in place.
//!
//! The file is its operator's. Text that does not parse is not edited; an id
//! that the file already holds is a conflict, never an overwrite; and an edit
//! that no longer reads as a valid configuration is not written.

use crate::config::ModelConfig;
use crate::text;
use vstd::prelude::*;
use vstd::string::*;

verus! {

/// `toml_edit::DocumentMut`.
#[verifier::external_type_specification]
#[verifier::external_body]
pub struct ExDocumentMut(toml_edit::DocumentMut);

/// `toml_edit::Table`.
#[verifier::external_type_specification]
#[verifier::external_body]
pub struct ExTable(toml_edit::Table);

/// What a text holds somewhere.
#[verifier::ext_equal]
pub enum TomlView {
    Str(Seq<char>),
    Bool(bool),
    Int(i64),
    /// A float or a date-time, by the text it stands as.
    Other(Seq<char>),
    List(Seq<TomlView>),
    /// A table in braces.
    Inline(Map<Seq<char>, TomlView>),
    Table(Map<Seq<char>, TomlView>),
    /// An array of tables.
    Tables(Seq<Map<Seq<char>, TomlView>>),
}

/// The fields of a table, in order.
pub type Fields = Seq<(Seq<char>, TomlView)>;

/// What a document holds: the text it was read from, and the tables that were
/// appended since, each under the key of its array.
pub type DocView = (Seq<char>, Seq<(Seq<char>, Fields)>);

/// What a document holds.
pub uninterp spec fn document(doc: toml_edit::DocumentMut) -> DocView;

/// What a table holds.
pub uninterp spec fn fields(table: toml_edit::Table) -> Fields;

/// What the parser says of a text that is no TOML; nothing of one that is.
pub uninterp spec fn toml_problem(text: Seq<char>) -> Option<Seq<char>>;

/// What stands in a text under a key of the root, if anything.
pub uninterp spec fn toml_item(text: Seq<char>, key: Seq<char>) -> Option<TomlView>;

/// The text of a document that was read from a text and had tables appended.
pub uninterp spec fn toml_printed(text: Seq<char>, appended: Seq<(Seq<char>, Fields)>) -> Seq<
    char,
>;

/// `DocumentMut`'s `FromStr`: the document of a text, or what its error
/// displays. Which of the two depends on the text alone.
#[verifier::external_body]
fn read_document(text: &str) -> (r: Result<toml_edit::DocumentMut, String>)
    ensures
        match r {
            Ok(doc) => toml_problem(text@) is None && document(doc) == (
                text@,
                Seq::<(Seq<char>, Fields)>::empty(),
            ),
            Err(e) => toml_problem(text@) == Some(e@),
        },
{
    text.parse::<toml_edit::DocumentMut>().map_err(|err| err.to_string())
}

/// The tables of an array; none where there is no array of tables.
pub open spec fn tables_in(item: Option<TomlView>) -> Seq<Map<Seq<char>, TomlView>> {
    match item {
        Some(TomlView::Tables(list)) => list,
        _ => Seq::empty(),
    }
}

/// Something other than an array of tables stands there.
pub open spec fn blocked(item: Option<TomlView>) -> bool {
    item is Some && !(item->0 is Tables)
}

/// The string, the boolean or the integer that a table holds under a field.
pub open spec fn scalar(table: Map<Seq<char>, TomlView>, field: Seq<char>) -> Option<TomlView> {
    if table.contains_key(field) && (table[field] is Str || table[field] is Bool
        || table[field] is Int) {
        Some(table[field])
    } else {
        None
    }
}

/// The string that a table holds under a field, if it holds one.
pub open spec fn string_in(table: Map<Seq<char>, TomlView>, field: Seq<char>) -> Option<Seq<char>> {
    match scalar(table, field) {
        Some(TomlView::Str(s)) => Some(s),
        _ => None,
    }
}

/// The strings that the tables of an array hold under a field; nothing where
/// there is no array of tables.
pub open spec fn strings_in(item: Option<TomlView>, field: Seq<char>) -> Option<
    Seq<Option<Seq<char>>>,
> {
    match item {
        Some(TomlView::Tables(list)) => Some(
            Seq::new(list.len(), |i: int| string_in(list[i], field)),
        ),
        _ => None,
    }
}

pub open spec fn opt_texts(list: Seq<Option<String>>) -> Seq<Option<Seq<char>>> {
    Seq::new(list.len(), |i: int| text::opt_view(list[i]))
}

/// `Table::get`, `Item::as_array_of_tables` and `Item::as_str` on a document as
/// it was read: for each table of the array under the key, the string it holds
/// under the field, if it holds one.
#[verifier::external_body]
fn table_strings(doc: &toml_edit::DocumentMut, key: &str, field: &str) -> (r: Option<
    Vec<Option<String>>,
>)
    requires
        document(*doc).1.len() == 0,
    ensures
        match r {
            Some(list) => strings_in(toml_item(document(*doc).0, key@), field@) == Some(
                opt_texts(list@),
            ),
            None => strings_in(toml_item(document(*doc).0, key@), field@) is None,
        },
{
    let tables = doc.get(key)?.as_array_of_tables()?;
    let held = |table: &toml_edit::Table| Some(table.get(field)?.as_str()?.to_owned());
    Some(tables.iter().map(held).collect())
}

/// `Table::new`: a table without fields.
#[verifier::external_body]
fn new_table() -> (r: toml_edit::Table)
    ensures
        fields(r) == Fields::empty(),
{
    toml_edit::Table::new()
}

/// The table has the field.
pub open spec fn has_field(table: Fields, name: Seq<char>) -> bool {
    exists|i: int| 0 <= i < table.len() && (#[trigger] table[i]).0 == name
}

/// `Table::insert` with a string: the field is appended. Left out: a field that
/// is there.
#[verifier::external_body]
fn set_string(table: &mut toml_edit::Table, name: &str, value: &str)
    requires
        !has_field(fields(*old(table)), name@),
    ensures
        fields(*final(table)) == fields(*old(table)).push((name@, TomlView::Str(value@))),
{
    table.insert(name, toml_edit::value(value));
}

/// `Table::insert` with a boolean: the field is appended. Left out: a field
/// that is there.
#[verifier::external_body]
fn set_bool(table: &mut toml_edit::Table, name: &str, value: bool)
    requires
        !has_field(fields(*old(table)), name@),
    ensures
        fields(*final(table)) == fields(*old(table)).push((name@, TomlView::Bool(value))),
{
    table.insert(name, toml_edit::value(value));
}

/// `Table::insert` with an integer: the field is appended. Left out: a field
/// that is there.
#[verifier::external_body]
fn set_int(table: &mut toml_edit::Table, name: &str, value: i64)
    requires
        !has_field(fields(*old(table)), name@),
    ensures
        fields(*final(table)) == fields(*old(table)).push((name@, TomlView::Int(value))),
{
    table.insert(name, toml_edit::value(value));
}

/// `Table::entry`, `Entry::or_insert` and `ArrayOfTables::push` on a document
/// as it was read: the table is appended to the array under the key, which is
/// made where the key is absent. Where something else stands under the key,
/// nothing is changed.
#[verifier::external_body]
fn append_table(doc: &mut toml_edit::DocumentMut, key: &str, table: toml_edit::Table) -> (r: bool)
    requires
        document(*old(doc)).1.len() == 0,
    ensures
        r == !blocked(toml_item(document(*old(doc)).0, key@)),
        r ==> document(*final(doc)) == (
            document(*old(doc)).0,
            document(*old(doc)).1.push((key@, fields(table))),
        ),
        !r ==> document(*final(doc)) == document(*old(doc)),
{
    let fresh = toml_edit::Item::ArrayOfTables(toml_edit::ArrayOfTables::new());
    match doc.entry(key).or_insert(fresh).as_array_of_tables_mut() {
        Some(tables) => {
            tables.push(table);
            true
        },
        None => false,
    }
}

/// The table of some fields.
pub open spec fn table_of(table: Fields) -> Map<Seq<char>, TomlView>
    decreases table.len(),
{
    if table.len() == 0 {
        Map::empty()
    } else {
        table_of(table.drop_last()).insert(table.last().0, table.last().1)
    }
}

/// A value that stands under no header of its own.
pub open spec fn inline(value: TomlView) -> bool {
    !(value is Table) && !(value is Tables)
}

/// The tables of an array hold values, and tables of values.
pub open spec fn shallow(list: Seq<Map<Seq<char>, TomlView>>) -> bool {
    forall|i: int, field: Seq<char>|
        0 <= i < list.len() && #[trigger] list[i].contains_key(field) ==> {
            ||| inline(list[i][field])
            ||| list[i][field] is Table && forall|name: Seq<char>| #[trigger]
                list[i][field]->Table_0.contains_key(name) ==> inline(
                    list[i][field]->Table_0[name],
                )
        }
}

/// An array of tables, or none, had a table appended: there is one more, behind
/// the others, with its fields, and every string, boolean and integer of the
/// others is as it was. Where the others hold no tables within tables, they are
/// as they were throughout.
pub open spec fn grown(before: Option<TomlView>, after: Option<TomlView>, table: Fields) -> bool {
    let old_tables = tables_in(before);
    let new_tables = tables_in(after);
    &&& after is Some && after->0 is Tables
    &&& new_tables.len() == old_tables.len() + 1
    &&& forall|i: int, field: Seq<char>|
        0 <= i < old_tables.len() ==> #[trigger] scalar(new_tables[i], field) == scalar(
            old_tables[i],
            field,
        )
    &&& forall|field: Seq<char>| #[trigger]
        scalar(new_tables.last(), field) == scalar(table_of(table), field)
    &&& shallow(old_tables) ==> new_tables == old_tables.push(table_of(table))
}

/// How many times in a row a character stands at the end of a text.
pub open spec fn run_at_end(s: Seq<char>, c: char) -> int
    decreases s.len(),
{
    if s.len() > 0 && s.last() == c {
        run_at_end(s.drop_last(), c) + 1
    } else {
        0
    }
}

/// How many times in a row a character stands in a text at most.
pub open spec fn longest_run(s: Seq<char>, c: char) -> int
    decreases s.len(),
{
    if s.len() == 0 {
        0
    } else if run_at_end(s, c) > longest_run(s.drop_last(), c) {
        run_at_end(s, c)
    } else {
        longest_run(s.drop_last(), c)
    }
}

/// The most quotes in a row that can be printed.
pub const MAX_QUOTES: u32 = 255;

/// No quote stands in the text more often in a row than can be printed.
pub open spec fn printable(s: Seq<char>) -> bool {
    longest_run(s, '\'') <= MAX_QUOTES && longest_run(s, '"') <= MAX_QUOTES
}

/// Every string of a table can be printed.
pub open spec fn fields_printable(table: Fields) -> bool {
    forall|i: int|
        0 <= i < table.len() && (#[trigger] table[i]).1 is Str ==> printable(table[i].1->Str_0)
}

/// Every table that was appended can be printed.
pub open spec fn all_printable(appended: Seq<(Seq<char>, Fields)>) -> bool {
    forall|i: int| 0 <= i < appended.len() ==> fields_printable((#[trigger] appended[i]).1)
}

/// The lines of a text: the pieces between newlines, without an empty last one.
pub open spec fn text_lines(s: Seq<char>) -> Seq<Seq<char>> {
    let all = pieces(s);
    if all.last().len() == 0 {
        all.drop_last()
    } else {
        all
    }
}

/// The pieces between newlines.
pub open spec fn pieces(s: Seq<char>) -> Seq<Seq<char>>
    decreases s.len(),
{
    if s.len() == 0 {
        seq![Seq::empty()]
    } else {
        let before = pieces(s.drop_last());
        if s.last() == '\n' {
            before.push(Seq::empty())
        } else {
            before.drop_last().push(before.last().push(s.last()))
        }
    }
}

/// Every line of a text stands in another, in order.
pub open spec fn keeps_lines(text: Seq<char>, other: Seq<char>) -> bool {
    exists|at: Seq<int>| #[trigger] stand_at(text_lines(text), text_lines(other), at)
}

/// Lines stand among others at these places, in order.
pub open spec fn stand_at(lines: Seq<Seq<char>>, others: Seq<Seq<char>>, at: Seq<int>) -> bool {
    &&& at.len() == lines.len()
    &&& forall|i: int|
        0 <= i < at.len() ==> 0 <= #[trigger] at[i] < others.len() && others[at[i]] == lines[i]
    &&& forall|i: int, j: int| 0 <= i < j < at.len() ==> #[trigger] at[i] < #[trigger] at[j]
}

/// A character of an unquoted key.
pub open spec fn bare(c: char) -> bool {
    ('a' <= c && c <= 'z') || ('A' <= c && c <= 'Z') || ('0' <= c && c <= '9') || c == '_' || c
        == '-'
}

/// Only blanks stand before a position of the line.
pub open spec fn blank_before(line: Seq<char>, k: int) -> bool {
    forall|i: int| 0 <= i < k ==> (#[trigger] line[i]) == ' ' || line[i] == '\t'
}

/// A line whose first character behind blanks is this one.
pub open spec fn begins(line: Seq<char>, c: char) -> bool {
    exists|k: int| 0 <= k < line.len() && #[trigger] line[k] == c && blank_before(line, k)
}

/// A header of unquoted keys without blanks between them.
pub open spec fn plain_header(line: Seq<char>) -> bool {
    exists|k: int, m: int|
        {
            &&& 0 <= k < m < line.len()
            &&& #[trigger] line[k] == '['
            &&& blank_before(line, k)
            &&& #[trigger] line[m] == ']'
            &&& forall|i: int|
                k < i < m ==> bare(#[trigger] line[i]) || line[i] == '.' || line[i] == '['
        }
}

/// What stands before the first equals sign of a line, if there is one, is an
/// unquoted key without dots.
pub open spec fn plain_key(line: Seq<char>) -> bool {
    forall|e: int, i: int|
        0 <= i < e < line.len() && #[trigger] line[e] == '=' && !line.take(e).contains('=')
            ==> bare(#[trigger] line[i]) || line[i] == ' ' || line[i] == '\t'
}

/// A text without carriage returns, braces or a byte order mark, in which headers
/// and keys are written plainly, without quotes, and keys without dots.
pub open spec fn plainly_written(text: Seq<char>) -> bool {
    &&& !text.contains('\r') && !text.contains('{') && !text.contains('\u{feff}')
    &&& forall|i: int|
        0 <= i < text_lines(text).len() ==> {
            let line = #[trigger] text_lines(text)[i];
            if begins(line, '[') {
                plain_header(line)
            } else {
                begins(line, '#') || plain_key(line)
            }
        }
}

/// `DocumentMut`'s `Display`: the text of the document, which depends on what
/// was read and what was appended. A text that is plainly written keeps its
/// lines, in order. Where one table was appended and the text is
/// TOML again, the array has grown by the table, and whatever stands under
/// another key of the root reads as before. Tables are printed by where they
/// stood, and a table within a table of the array that stood apart from it may
/// come to stand behind the appended one: its name may be taken there, so that
/// the text is no TOML, or it may read as a part of the appended table, so
/// nothing is claimed of such tables. Nothing is claimed either of the lines of
/// other texts: dotted keys of one table are drawn together, a header's keys are
/// written as they first stood, carriage returns are left out. Left out: an
/// appended string with more quotes in a row than are counted, on which the call
/// panics where overflow is checked.
#[verifier::external_body]
fn print_document(doc: &toml_edit::DocumentMut) -> (r: String)
    requires
        all_printable(document(*doc).1),
    ensures
        r@ == toml_printed(document(*doc).0, document(*doc).1),
        plainly_written(document(*doc).0) ==> keeps_lines(document(*doc).0, r@),
        document(*doc).1.len() == 1 && toml_problem(r@) is None ==> grown(
            toml_item(document(*doc).0, document(*doc).1[0].0),
            toml_item(r@, document(*doc).1[0].0),
            document(*doc).1[0].1,
        ),
        document(*doc).1.len() == 1 && toml_problem(r@) is None ==> forall|key: Seq<char>|
            key != document(*doc).1[0].0 ==> #[trigger] toml_item(r@, key) == toml_item(
                document(*doc).0,
                key,
            ),
{
    doc.to_string()
}

/// Why a model was not persisted.
#[derive(Debug)]
pub enum PersistError {
    Read { path: String, source: String },
    Unparseable { path: String, detail: String },
    DuplicateInFile(String),
    Reverify { path: String, detail: String },
    Write { path: String, source: String },
}

impl PersistError {
    pub open spec fn words(self) -> Seq<char> {
        match self {
            PersistError::Read { path, source } => "failed to read "@ + path@ + ": "@ + source@,
            PersistError::Unparseable { path, detail } => "refusing to edit "@ + path@
                + ": it does not parse as TOML ("@ + detail@
                + "); fix the file by hand — nothing was written"@,
            PersistError::DuplicateInFile(id) =>
                "kiln.toml already contains a [[model]] block with id '"@ + id@
                + "' (the file was edited since the gateway started); restart the gateway to pick it up, or choose a different id"@,
            PersistError::Reverify { path, detail } => "refusing to write "@ + path@
                + ": the edited config failed re-validation ("@ + detail@
                + "); nothing was written"@,
            PersistError::Write { path, source } => "failed to write "@ + path@ + ": "@ + source@,
        }
    }

    pub fn message(&self) -> (r: String)
        ensures
            r@ == self.words(),
    {
        match self {
            PersistError::Read { path, source } => {
                let mut m: String = "failed to read ".to_owned();
                m.append(path.as_str());
                m.append(": ");
                m.append(source.as_str());
                m
            },
            PersistError::Unparseable { path, detail } => {
                let mut m: String = "refusing to edit ".to_owned();
                m.append(path.as_str());
                m.append(": it does not parse as TOML (");
                m.append(detail.as_str());
                m.append("); fix the file by hand — nothing was written");
                m
            },
            PersistError::DuplicateInFile(id) => {
                let mut m: String =
                    "kiln.toml already contains a [[model]] block with id '".to_owned();
                m.append(id.as_str());
                m.append(
                    "' (the file was edited since the gateway started); restart the gateway to pick it up, or choose a different id",
                );
                m
            },
            PersistError::Reverify { path, detail } => {
                let mut m: String = "refusing to write ".to_owned();
                m.append(path.as_str());
                m.append(": the edited config failed re-validation (");
                m.append(detail.as_str());
                m.append("); nothing was written");
                m
            },
            PersistError::Write { path, source } => {
                let mut m: String = "failed to write ".to_owned();
                m.append(path.as_str());
                m.append(": ");
                m.append(source.as_str());
                m
            },
        }
    }
}

/// The fields of the block that a model is persisted as.
pub open spec fn model_fields(model: ModelConfig) -> Fields {
    seq![
        ("id"@, TomlView::Str(model.id@)),
        ("path"@, TomlView::Str(model.path@)),
        ("worker"@, TomlView::Str(model.worker.spec_config_str())),
        ("pinned"@, TomlView::Bool(model.pinned)),
        ("ttl_seconds"@, TomlView::Int(model.ttl_seconds as i64)),
    ]
}

/// The ids that the `[[model]]` blocks of a text hold.
pub open spec fn held_ids(text: Seq<char>) -> Seq<Option<Seq<char>>> {
    match strings_in(toml_item(text, "model"@), "id"@) {
        Some(ids) => ids,
        None => Seq::empty(),
    }
}

/// The file's text holds a model of the id.
pub open spec fn holds_model(text: Seq<char>, id: Seq<char>) -> bool {
    match strings_in(toml_item(text, "model"@), "id"@) {
        Some(ids) => ids.contains(Some(id)),
        None => false,
    }
}

fn lists(list: &Vec<Option<String>>, id: &str) -> (r: bool)
    ensures
        r == opt_texts(list@).contains(Some(id@)),
{
    let mut i: usize = 0;
    while i < list.len()
        invariant
            i <= list@.len(),
            forall|j: int| 0 <= j < i ==> #[trigger] opt_texts(list@)[j] != Some(id@),
        decreases list@.len() - i,
    {
        assert(opt_texts(list@)[i as int] == text::opt_view(list@[i as int]));
        if let Some(held) = &list[i] {
            if text::same(held.as_str(), id) {
                return true;
            }
        }
        i = i + 1;
    }
    false
}

fn model_table(model: &ModelConfig, ttl: i64) -> (r: toml_edit::Table)
    requires
        ttl == model.ttl_seconds,
    ensures
        fields(r) == model_fields(*model),
{
    proof {
        reveal_strlit("id");
        reveal_strlit("path");
        reveal_strlit("worker");
        reveal_strlit("pinned");
        reveal_strlit("ttl_seconds");
        assert("id"@.len() == 2);
        assert("path"@.len() == 4);
        assert("worker"@.len() == 6 && "worker"@[0] == 'w');
        assert("pinned"@.len() == 6 && "pinned"@[0] == 'p');
        assert("ttl_seconds"@.len() == 11);
    }
    let mut block: toml_edit::Table = new_table();
    set_string(&mut block, "id", model.id.as_str());
    set_string(&mut block, "path", model.path.as_str());
    set_string(&mut block, "worker", model.worker.as_config_str());
    set_bool(&mut block, "pinned", model.pinned);
    set_int(&mut block, "ttl_seconds", ttl);
    assert(fields(block) =~= model_fields(*model));
    block
}

/// The block of a model holds the model's fields.
proof fn lemma_model_table(model: ModelConfig)
    ensures
        ({
            let t = table_of(model_fields(model));
            &&& scalar(t, "id"@) == Some(TomlView::Str(model.id@))
            &&& scalar(t, "path"@) == Some(TomlView::Str(model.path@))
            &&& scalar(t, "worker"@) == Some(TomlView::Str(model.worker.spec_config_str()))
            &&& scalar(t, "pinned"@) == Some(TomlView::Bool(model.pinned))
            &&& scalar(t, "ttl_seconds"@) == Some(TomlView::Int(model.ttl_seconds as i64))
        }),
{
    reveal_strlit("id");
    reveal_strlit("path");
    reveal_strlit("worker");
    reveal_strlit("pinned");
    reveal_strlit("ttl_seconds");
    assert("id"@.len() == 2 && "path"@.len() == 4 && "worker"@.len() == 6 && "pinned"@.len() == 6
        && "ttl_seconds"@.len() == 11);
    assert("worker"@[0] == 'w' && "pinned"@[0] == 'p');
    let f = model_fields(model);
    let f4 = f.drop_last();
    let f3 = f4.drop_last();
    let f2 = f3.drop_last();
    let f1 = f2.drop_last();
    assert(f.last() == f[4] && f4.last() == f[3] && f3.last() == f[2] && f2.last() == f[1]
        && f1.last() == f[0]);
    reveal_with_fuel(table_of, 6);
}

/// Another text reads as this one with the model's block appended.
pub open spec fn appended(text: Seq<char>, edited: Seq<char>, model: ModelConfig) -> bool {
    &&& grown(toml_item(text, "model"@), toml_item(edited, "model"@), model_fields(model))
    &&& forall|key: Seq<char>|
        key != "model"@ ==> #[trigger] toml_item(edited, key) == toml_item(text, key)
}

/// The text of a file to which a model was appended holds the model with its
/// fields, behind every model that the file held, and every other setting as it
/// was, wherever it reads as TOML; only such a text is written.
pub proof fn law_appended_model_is_held(text: Seq<char>, edited: Seq<char>, model: ModelConfig)
    requires
        appended(text, edited, model),
    ensures
        held_ids(edited) == held_ids(text).push(Some(model.id@)),
        holds_model(edited, model.id@),
        forall|id: Seq<char>| holds_model(text, id) ==> #[trigger] holds_model(edited, id),
        ({
            let block = tables_in(toml_item(edited, "model"@)).last();
            &&& scalar(block, "id"@) == Some(TomlView::Str(model.id@))
            &&& scalar(block, "path"@) == Some(TomlView::Str(model.path@))
            &&& scalar(block, "worker"@) == Some(TomlView::Str(model.worker.spec_config_str()))
            &&& scalar(block, "pinned"@) == Some(TomlView::Bool(model.pinned))
            &&& scalar(block, "ttl_seconds"@) == Some(TomlView::Int(model.ttl_seconds as i64))
        }),
        forall|key: Seq<char>|
            key != "model"@ ==> #[trigger] toml_item(edited, key) == toml_item(text, key),
{
    lemma_model_table(model);
    let old_tables = tables_in(toml_item(text, "model"@));
    let new_tables = tables_in(toml_item(edited, "model"@));
    let before = held_ids(text);
    let after = before.push(Some(model.id@));
    assert(before.len() == old_tables.len());
    assert forall|i: int| 0 <= i < after.len() implies held_ids(edited)[i] == #[trigger] after[i] by {
        if i < before.len() {
            assert(scalar(new_tables[i], "id"@) == scalar(old_tables[i], "id"@));
        } else {
            assert(scalar(new_tables.last(), "id"@) == Some(TomlView::Str(model.id@)));
        }
    }
    assert(held_ids(edited) =~= after);
    assert(after[before.len() as int] == Some(model.id@));
    assert forall|id: Seq<char>| holds_model(text, id) implies #[trigger] holds_model(
        edited,
        id,
    ) by {
        let i = choose|i: int| 0 <= i < before.len() && before[i] == Some(id);
        assert(after[i] == Some(id));
    }
}

/// A model's id and path can be printed.
pub open spec fn model_printable(model: ModelConfig) -> bool {
    printable(model.id@) && printable(model.path@)
}

fn is_printable(s: &str) -> (r: bool)
    ensures
        r == printable(s@),
{
    let v: Vec<char> = text::chars_of(s);
    let mut single: u32 = 0;
    let mut double: u32 = 0;
    let mut i: usize = 0;
    assert(v@.take(0) =~= Seq::empty());
    while i < v.len()
        invariant
            i <= v@.len(),
            v@ == s@,
            single == run_at_end(v@.take(i as int), '\''),
            double == run_at_end(v@.take(i as int), '"'),
            longest_run(v@.take(i as int), '\'') <= MAX_QUOTES,
            longest_run(v@.take(i as int), '"') <= MAX_QUOTES,
            single <= MAX_QUOTES,
            double <= MAX_QUOTES,
        decreases v@.len() - i,
    {
        assert(v@.take(i + 1).drop_last() =~= v@.take(i as int));
        assert(v@.take(i + 1).last() == v@[i as int]);
        single = if v[i] == '\'' {
            single + 1
        } else {
            0
        };
        double = if v[i] == '"' {
            double + 1
        } else {
            0
        };
        if single > MAX_QUOTES || double > MAX_QUOTES {
            proof {
                lemma_run_grows(v@, i + 1, '\'');
                lemma_run_grows(v@, i + 1, '"');
            }
            return false;
        }
        i = i + 1;
    }
    assert(v@.take(i as int) =~= v@);
    true
}

/// A run in the front of a text is one in the text.
proof fn lemma_run_grows(s: Seq<char>, k: int, c: char)
    requires
        0 <= k <= s.len(),
    ensures
        longest_run(s.take(k), c) <= longest_run(s, c),
        run_at_end(s.take(k), c) <= longest_run(s.take(k), c),
    decreases s.len() - k,
{
    if k < s.len() {
        lemma_run_grows(s, k + 1, c);
        assert(s.take(k + 1).drop_last() =~= s.take(k));
    } else {
        assert(s.take(k) =~= s);
    }
}

/// No run is longer than the text.
proof fn lemma_run_fits(s: Seq<char>, c: char)
    ensures
        0 <= run_at_end(s, c) <= s.len(),
        longest_run(s, c) <= s.len(),
    decreases s.len(),
{
    if s.len() > 0 {
        lemma_run_fits(s.drop_last(), c);
    }
}

/// A model's block can be printed where its id and path can.
proof fn lemma_model_printable(model: ModelConfig)
    requires
        model_printable(model),
    ensures
        fields_printable(model_fields(model)),
{
    let w = model.worker.spec_config_str();
    lemma_run_fits(w, '\'');
    lemma_run_fits(w, '"');
    reveal_strlit("auto");
    reveal_strlit("rust");
    reveal_strlit("python");
    assert(w.len() <= 6);
}

/// What is wrong with adding the model to the file, if anything.
pub open spec fn edit_problem(r: PersistError, path: Seq<char>, text: Seq<char>, model: ModelConfig)
    -> bool {
    if toml_problem(text) is Some {
        &&& r is Unparseable
        &&& r->Unparseable_path@ == path
        &&& r->Unparseable_detail@ == toml_problem(text)->0
    } else if holds_model(text, model.id@) {
        r is DuplicateInFile && r->DuplicateInFile_0@ == model.id@
    } else if model.ttl_seconds > i64::MAX {
        &&& r is Reverify
        &&& r->Reverify_path@ == path
        &&& r->Reverify_detail@ == "ttl_seconds "@ + text::decimal(model.ttl_seconds as nat)
            + " exceeds the TOML integer range"@
    } else if !model_printable(model) {
        &&& r is Reverify
        &&& r->Reverify_path@ == path
        &&& r->Reverify_detail@
            == "the model's id or path holds more than 255 quotes in a row"@
    } else {
        &&& blocked(toml_item(text, "model"@))
        &&& r is Unparseable
        &&& r->Unparseable_path@ == path
        &&& r->Unparseable_detail@ == "the `model` key is not an array of [[model]] tables"@
    }
}

/// Appends the model as a `[[model]]` block to the text of the configuration
/// file at `path`. Runtime-added models have no speculative section.
pub fn append_model(path: &str, text: &str, model: &ModelConfig) -> (r: Result<
    String,
    PersistError,
>)
    ensures
        match r {
            Ok(edited) => {
                &&& toml_problem(text@) is None
                &&& !holds_model(text@, model.id@)
                &&& model.ttl_seconds <= i64::MAX
                &&& model_printable(*model)
                &&& !blocked(toml_item(text@, "model"@))
                &&& edited@ == toml_printed(text@, seq![("model"@, model_fields(*model))])
                &&& toml_problem(edited@) is None ==> appended(text@, edited@, *model)
                &&& plainly_written(text@) ==> keeps_lines(text@, edited@)
            },
            Err(e) => edit_problem(e, path@, text@, *model),
        },
{
    let mut doc: toml_edit::DocumentMut = match read_document(text) {
        Ok(doc) => doc,
        Err(e) => return Err(PersistError::Unparseable { path: path.to_owned(), detail: e }),
    };
    if let Some(ids) = table_strings(&doc, "model", "id") {
        if lists(&ids, model.id.as_str()) {
            return Err(PersistError::DuplicateInFile(model.id.clone()));
        }
    }
    if model.ttl_seconds > i64::MAX as u64 {
        let mut m: String = "ttl_seconds ".to_owned();
        text::push_decimal(&mut m, model.ttl_seconds);
        m.append(" exceeds the TOML integer range");
        return Err(PersistError::Reverify { path: path.to_owned(), detail: m });
    }
    if !is_printable(model.id.as_str()) || !is_printable(model.path.as_str()) {
        return Err(
            PersistError::Reverify {
                path: path.to_owned(),
                detail: "the model's id or path holds more than 255 quotes in a row".to_owned(),
            },
        );
    }
    let block: toml_edit::Table = model_table(model, model.ttl_seconds as i64);
    proof {
        lemma_model_printable(*model);
    }
    if !append_table(&mut doc, "model", block) {
        return Err(
            PersistError::Unparseable {
                path: path.to_owned(),
                detail: "the `model` key is not an array of [[model]] tables".to_owned(),
            },
        );
    }
    assert(document(doc).1 =~= seq![("model"@, model_fields(*model))]);
    Ok(print_document(&doc))
}

/// What keeps the operator's file from being corrupted: `problem` is what reading
/// the edited text as a configuration found. Only text that reads is written.
pub fn reverify(path: &str, edited: String, problem: Option<String>) -> (r: Result<
    String,
    PersistError,
>)
    ensures
        match (problem, r) {
            (None, Ok(t)) => t == edited,
            (Some(p), Err(PersistError::Reverify { path: at, detail })) => at@ == path@ && detail
                == p,
            _ => false,
        },
{
    match problem {
        None => Ok(edited),
        Some(detail) => Err(PersistError::Reverify { path: path.to_owned(), detail }),
    }
}

/// What kept a model from being persisted is told with the file or the id it is about.
pub proof fn law_edits_that_fail_say_why(path: String, detail: String)
    ensures
        (PersistError::Read { path, source: detail }).words() == "failed to read "@ + path@ + ": "@
            + detail@,
        (PersistError::Write { path, source: detail }).words() == "failed to write "@ + path@
            + ": "@ + detail@,
        (PersistError::Unparseable { path, detail }).words() == "refusing to edit "@ + path@
            + ": it does not parse as TOML ("@ + detail@
            + "); fix the file by hand — nothing was written"@,
        (PersistError::Reverify { path, detail }).words() == "refusing to write "@ + path@
            + ": the edited config failed re-validation ("@ + detail@ + "); nothing was written"@,
        PersistError::DuplicateInFile(detail).words()
            == "kiln.toml already contains a [[model]] block with id '"@ + detail@
            + "' (the file was edited since the gateway started); restart the gateway to pick it up, or choose a different id"@,
{
}

/// A model is persisted with five fields in this order, each the model's own.
pub proof fn law_blocks_hold_the_model(model: ModelConfig)
    ensures
        ({
            let f = model_fields(model);
            &&& f.len() == 5
            &&& f[0] == ("id"@, TomlView::Str(model.id@))
            &&& f[1] == ("path"@, TomlView::Str(model.path@))
            &&& f[2] == ("worker"@, TomlView::Str(model.worker.spec_config_str()))
            &&& f[3] == ("pinned"@, TomlView::Bool(model.pinned))
            &&& model.ttl_seconds <= i64::MAX ==> f[4] == (
                "ttl_seconds"@,
                TomlView::Int(model.ttl_seconds as i64),
            )
        }),
{
}

/// A text holds a model where one of its blocks has the id.
pub proof fn law_models_are_held_by_id(text: Seq<char>, id: Seq<char>, i: int)
    ensures
        ({
            let tables = tables_in(toml_item(text, "model"@));
            &&& 0 <= i < tables.len() && tables[i].contains_key("id"@) && tables[i]["id"@]
                == TomlView::Str(id) ==> holds_model(text, id)
            &&& holds_model(text, id) ==> exists|k: int|
                0 <= k < tables.len() && (#[trigger] tables[k]).contains_key("id"@)
                    && tables[k]["id"@] == TomlView::Str(id)
        }),
{
    let tables = tables_in(toml_item(text, "model"@));
    let ids = held_ids(text);
    if 0 <= i < tables.len() && tables[i].contains_key("id"@) && tables[i]["id"@] == TomlView::Str(
        id,
    ) {
        assert(ids[i] == Some(id));
    }
    if holds_model(text, id) {
        let k = choose|k: int| 0 <= k < ids.len() && ids[k] == Some(id);
        assert(string_in(tables[k], "id"@) == Some(id));
        assert(tables[k].contains_key("id"@));
    }
}

/// A quote may stand 255 times in a row and not once more: each further one lengthens the run at
/// the end, any other character ends it, and the longest run counts.
pub proof fn law_quotes_have_a_limit(s: Seq<char>, c: char, d: char)
    ensures
        run_at_end(Seq::empty(), c) == 0,
        longest_run(Seq::empty(), c) == 0,
        run_at_end(s.push(c), c) == run_at_end(s, c) + 1,
        d != c ==> run_at_end(s.push(d), c) == 0,
        longest_run(s.push(d), c) >= longest_run(s, c),
        longest_run(s.push(d), c) >= run_at_end(s.push(d), c),
        longest_run(s.push(d), c) == longest_run(s, c) || longest_run(s.push(d), c) == run_at_end(
            s.push(d),
            c,
        ),
        printable(s) <==> longest_run(s, '\'') <= 255 && longest_run(s, '"') <= 255,
{
    assert(s.push(c).drop_last() =~= s);
    assert(s.push(d).drop_last() =~= s);
}

/// A model can be printed where its id and its path can.
pub proof fn law_models_print_by_their_texts(model: ModelConfig)
    ensures
        model_printable(model) <==> printable(model.id@) && printable(model.path@),
{
}

/// What is wrong with an edit is told in this order: a text that is no TOML, an id that the file
/// holds, a lifetime that TOML has no number for, quotes that cannot be printed, and a key that
/// is no array of blocks.
pub proof fn law_the_first_fault_of_an_edit_is_told(
    e: PersistError,
    path: Seq<char>,
    text: Seq<char>,
    model: ModelConfig,
)
    requires
        edit_problem(e, path, text, model),
    ensures
        e is Unparseable || e is DuplicateInFile || e is Reverify,
        toml_problem(text) is Some ==> e is Unparseable && e->Unparseable_detail@ == toml_problem(
            text,
        )->0,
        e is DuplicateInFile <==> toml_problem(text) is None && holds_model(text, model.id@),
        e is DuplicateInFile ==> e->DuplicateInFile_0@ == model.id@,
        e is Reverify <==> toml_problem(text) is None && !holds_model(text, model.id@) && (
        model.ttl_seconds > i64::MAX || !model_printable(model)),
        e is Reverify ==> e->Reverify_path@ == path,
        e is Unparseable ==> e->Unparseable_path@ == path,
        toml_problem(text) is None && e is Unparseable ==> blocked(toml_item(text, "model"@)),
{
}

} // verus!
