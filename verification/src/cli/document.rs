//! Rewriting of sections of a TOML document, with the comments on them.
//!
//! A section that the document does not have is appended to it: what is there stays as it is
//! written. One that it has is replaced in its place. In it, a field that already has its value
//! stays as it is written, and the comments on the section, on the entries of the peers that
//! stay and on their fields are carried over.
//!
//! The contracts say what the document holds afterwards, and which edits it went through, in
//! which order. Of the bytes of the text that an edit in place leaves alone, they say no more
//! than that `toml_edit` determines them.

use vstd::prelude::*;
use vstd::string::StringExecFns;
use toml_edit::{value, Array, ArrayOfTables, DocumentMut, Item, Table, Value};

verus! {

/// Value of a field of a TOML table.
#[derive(Debug, PartialEq, Eq)]
pub enum TomlValue {
    /// Integer.
    Integer(i64),
    /// Text.
    Text(String),
    /// List of texts.
    Texts(Vec<String>),
}

/// Section of a TOML document.
#[derive(Debug, PartialEq, Eq)]
pub enum TomlSection {
    /// `[name]`.
    Table(Vec<(String, TomlValue)>),
    /// `[[name]]`, as many times.
    Tables(Vec<Vec<(String, TomlValue)>>),
}

/// Content of a TOML value, however it is written.
pub enum TomlValueModel {
    /// Integer.
    Integer(i64),
    /// Text.
    Text(Seq<char>),
    /// Array, of values or of tables.
    List(Seq<TomlValueModel>),
    /// Table: with a header, with dotted keys or inline.
    Table(Map<Seq<char>, TomlValueModel>),
    /// Value of another kind, as it is written.
    Other(Seq<char>),
}

/// A list of texts.
pub open spec fn texts_value(texts: Seq<Seq<char>>) -> TomlValueModel {
    TomlValueModel::List(Seq::new(texts.len(), |i: int| TomlValueModel::Text(texts[i])))
}

/// Content of a [`TomlSection`].
pub enum TomlSectionModel {
    Table(Seq<(Seq<char>, TomlValueModel)>),
    Tables(Seq<Seq<(Seq<char>, TomlValueModel)>>),
}

impl View for TomlValue {
    type V = TomlValueModel;

    open spec fn view(&self) -> TomlValueModel {
        match self {
            TomlValue::Integer(n) => TomlValueModel::Integer(*n),
            TomlValue::Text(s) => TomlValueModel::Text(s@),
            TomlValue::Texts(l) => texts_value(crate::protocol::texts(l@)),
        }
    }
}

/// The contents of fields.
pub open spec fn field_models(v: Seq<(String, TomlValue)>) -> Seq<(Seq<char>, TomlValueModel)> {
    Seq::new(v.len(), |i: int| (v[i].0@, v[i].1@))
}

impl View for TomlSection {
    type V = TomlSectionModel;

    open spec fn view(&self) -> TomlSectionModel {
        match self {
            TomlSection::Table(fields) => TomlSectionModel::Table(field_models(fields@)),
            TomlSection::Tables(list) => TomlSectionModel::Tables(
                Seq::new(list@.len(), |i: int| field_models(list@[i]@)),
            ),
        }
    }
}

/// The contents of sections.
pub open spec fn section_models(v: Seq<(String, TomlSection)>) -> Seq<
    (Seq<char>, TomlSectionModel),
> {
    Seq::new(v.len(), |i: int| (v[i].0@, v[i].1@))
}

/// What a document holds, and which of its sections have headers.
#[verifier::ext_equal]
pub struct TomlDocModel {
    /// What has each name at the root.
    pub content: Map<Seq<char>, TomlValueModel>,
    /// The names of the tables with a header of their own, or of tables in them, `[name]`.
    pub tables: Set<Seq<char>>,
    /// The names of the arrays of tables with headers, `[[name]]`.
    pub arrays: Set<Seq<char>>,
}

/// The fields of a table, from a list. The last one of a name counts.
pub open spec fn fields_map(fields: Seq<(Seq<char>, TomlValueModel)>) -> Map<
    Seq<char>,
    TomlValueModel,
>
    decreases fields.len(),
{
    if fields.len() == 0 {
        Map::empty()
    } else {
        fields_map(fields.drop_last()).insert(fields.last().0, fields.last().1)
    }
}

impl TomlDocModel {
    /// The document without anything.
    pub open spec fn nothing() -> TomlDocModel {
        TomlDocModel { content: Map::empty(), tables: Set::empty(), arrays: Set::empty() }
    }

    /// Whether something has that name at the root.
    pub open spec fn mentions(self, name: Seq<char>) -> bool {
        self.content.contains_key(name) || self.tables.contains(name) || self.arrays.contains(name)
    }

    /// Whether there is a table `[section]`, or that entry of `[[section]]`.
    pub open spec fn has(self, section: Seq<char>, at: Option<usize>) -> bool {
        match at {
            None => self.tables.contains(section) && self.content.contains_key(section)
                && self.content[section] is Table,
            Some(i) => self.arrays.contains(section) && self.content.contains_key(section)
                && self.content[section] is List && i < self.content[section]->List_0.len()
                && self.content[section]->List_0[i as int] is Table,
        }
    }

    /// The fields of a table or of an entry.
    pub open spec fn fields(self, section: Seq<char>, at: Option<usize>) -> Map<
        Seq<char>,
        TomlValueModel,
    > {
        match at {
            None => self.content[section]->Table_0,
            Some(i) => self.content[section]->List_0[i as int]->Table_0,
        }
    }

    /// Sets the fields of a table or of an entry.
    pub open spec fn with_fields(
        self,
        section: Seq<char>,
        at: Option<usize>,
        fields: Map<Seq<char>, TomlValueModel>,
    ) -> TomlDocModel {
        let table = TomlValueModel::Table(fields);
        TomlDocModel {
            content: self.content.insert(
                section,
                match at {
                    None => table,
                    Some(i) => TomlValueModel::List(
                        self.content[section]->List_0.update(i as int, table),
                    ),
                },
            ),
            ..self
        }
    }

    /// Puts a table without fields in place of what has that name.
    pub open spec fn put_table(self, section: Seq<char>) -> TomlDocModel {
        TomlDocModel {
            content: self.content.insert(section, TomlValueModel::Table(Map::empty())),
            tables: self.tables.insert(section),
            arrays: self.arrays.remove(section),
        }
    }

    /// Puts entries in place of what has that name.
    pub open spec fn with_entries(
        self,
        section: Seq<char>,
        list: Seq<Map<Seq<char>, TomlValueModel>>,
    ) -> TomlDocModel {
        if list.len() == 0 {
            TomlDocModel {
                content: self.content.remove(section),
                tables: self.tables.remove(section),
                arrays: self.arrays.remove(section),
            }
        } else {
            TomlDocModel {
                content: self.content.insert(
                    section,
                    TomlValueModel::List(
                        Seq::new(list.len(), |i: int| TomlValueModel::Table(list[i])),
                    ),
                ),
                tables: self.tables.remove(section),
                arrays: self.arrays.insert(section),
            }
        }
    }

    /// Adds what another document holds.
    pub open spec fn and(self, other: TomlDocModel) -> TomlDocModel {
        TomlDocModel {
            content: self.content.union_prefer_right(other.content),
            tables: self.tables.union(other.tables),
            arrays: self.arrays.union(other.arrays),
        }
    }

    /// Puts a section in place of what has that name.
    pub open spec fn with_section(
        self,
        name: Seq<char>,
        section: TomlSectionModel,
    ) -> TomlDocModel {
        match section {
            TomlSectionModel::Table(fields) => self.put_table(name).with_fields(
                name,
                None,
                fields_map(fields),
            ),
            TomlSectionModel::Tables(list) => self.with_entries(
                name,
                Seq::new(list.len(), |i: int| fields_map(list[i])),
            ),
        }
    }

    /// Puts sections in place of what has their names.
    pub open spec fn with_sections(
        self,
        sections: Seq<(Seq<char>, TomlSectionModel)>,
    ) -> TomlDocModel
        decreases sections.len(),
    {
        if sections.len() == 0 {
            self
        } else {
            self.with_sections(sections.drop_last()).with_section(
                sections.last().0,
                sections.last().1,
            )
        }
    }
}

/// Whether two documents hold the same under a name at the root, in the same form.
pub open spec fn same_at(a: TomlDocModel, b: TomlDocModel, name: Seq<char>) -> bool {
    &&& a.content.contains_key(name) == b.content.contains_key(name)
    &&& a.content.contains_key(name) ==> a.content[name] == b.content[name]
    &&& a.tables.contains(name) == b.tables.contains(name)
    &&& a.arrays.contains(name) == b.arrays.contains(name)
}

/// What does not have the name of a section that is set stays as it was.
pub proof fn other_sections_stay(
    doc: TomlDocModel,
    sections: Seq<(Seq<char>, TomlSectionModel)>,
    name: Seq<char>,
)
    requires
        forall|i: int| 0 <= i < sections.len() ==> (#[trigger] sections[i]).0 != name,
    ensures
        same_at(doc, doc.with_sections(sections), name),
    decreases sections.len(),
{
    if sections.len() > 0 {
        let front = sections.drop_last();
        assert forall|i: int| 0 <= i < front.len() implies (#[trigger] front[i]).0 != name by {
            assert(front[i] == sections[i]);
        }
        other_sections_stay(doc, front, name);
        assert(sections.last() == sections[sections.len() - 1]);
    }
}

/// How many times a character stands at the end of a text.
pub open spec fn trailing_run(text: Seq<char>, c: char) -> nat
    decreases text.len(),
{
    if text.len() == 0 || text.last() != c {
        0
    } else {
        trailing_run(text.drop_last(), c) + 1
    }
}

/// How many times a character stands in a row in a text, at most.
pub open spec fn longest_run(text: Seq<char>, c: char) -> nat
    decreases text.len(),
{
    if text.len() == 0 {
        0
    } else if trailing_run(text, c) > longest_run(text.drop_last(), c) {
        trailing_run(text, c)
    } else {
        longest_run(text.drop_last(), c)
    }
}

/// Whether a text can be written in a document. The quotes in a row are counted in a byte
/// when the text is quoted.
pub open spec fn writable(text: Seq<char>) -> bool {
    longest_run(text, '"') <= u8::MAX && longest_run(text, '\'') <= u8::MAX
}

/// Whether the texts of a list can be written in a document.
pub open spec fn list_writable(list: Seq<TomlValueModel>) -> bool {
    forall|i: int|
        0 <= i < list.len() && (#[trigger] list[i]) is Text ==> writable(list[i]->Text_0)
}

/// Whether a value can be written in a document.
pub open spec fn value_writable(v: TomlValueModel) -> bool {
    match v {
        TomlValueModel::Integer(_) => true,
        TomlValueModel::Text(text) => writable(text),
        TomlValueModel::List(list) => list_writable(list),
        _ => true,
    }
}

/// Whether fields can be written in a document.
pub open spec fn fields_writable(fields: Seq<(Seq<char>, TomlValueModel)>) -> bool {
    forall|i: int| 0 <= i < fields.len() ==> value_writable((#[trigger] fields[i]).1)
}

/// Whether entries can be written in a document.
pub open spec fn entries_writable(list: Seq<Seq<(Seq<char>, TomlValueModel)>>) -> bool {
    forall|i: int| 0 <= i < list.len() ==> fields_writable(#[trigger] list[i])
}

/// Whether a section can be written in a document.
pub open spec fn section_writable(section: TomlSectionModel) -> bool {
    match section {
        TomlSectionModel::Table(fields) => fields_writable(fields),
        TomlSectionModel::Tables(list) => entries_writable(list),
    }
}

/// Whether sections can be written in a document.
pub open spec fn sections_writable(sections: Seq<(Seq<char>, TomlSectionModel)>) -> bool {
    forall|i: int| 0 <= i < sections.len() ==> section_writable((#[trigger] sections[i]).1)
}

/// Whether a text can be written in a document.
pub fn is_writable(text: &str) -> (r: bool)
    ensures
        r == writable(text@),
{
    let chars = crate::text::chars_of(text);
    longest(&chars, '"') <= 255 && longest(&chars, '\'') <= 255
}

fn longest(chars: &Vec<char>, c: char) -> (r: usize)
    ensures
        r == longest_run(chars@, c),
{
    let mut run: usize = 0;
    let mut most: usize = 0;
    let mut i: usize = 0;
    while i < chars.len()
        invariant
            i <= chars@.len(),
            run <= i,
            run == trailing_run(chars@.take(i as int), c),
            most == longest_run(chars@.take(i as int), c),
        decreases chars@.len() - i,
    {
        proof {
            assert(chars@.take(i + 1).drop_last() =~= chars@.take(i as int));
            assert(chars@.take(i + 1).last() == chars@[i as int]);
        }
        if chars[i] == c {
            run += 1;
        } else {
            run = 0;
        }
        if run > most {
            most = run;
        }
        i += 1;
    }
    assert(chars@.take(chars@.len() as int) =~= chars@);
    most
}

fn texts_are_writable(list: &Vec<String>) -> (r: bool)
    ensures
        r == value_writable(texts_value(crate::protocol::texts(list@))),
{
    let ghost models = texts_value(crate::protocol::texts(list@))->List_0;
    let mut i: usize = 0;
    while i < list.len()
        invariant
            i <= list@.len(),
            models == texts_value(crate::protocol::texts(list@))->List_0,
            forall|j: int| 0 <= j < i ==> writable((#[trigger] models[j])->Text_0),
        decreases list@.len() - i,
    {
        assert(models[i as int] == TomlValueModel::Text(list@[i as int]@));
        if !is_writable(list[i].as_str()) {
            assert(!list_writable(models));
            return false;
        }
        i += 1;
    }
    assert(list_writable(models));
    true
}

fn fields_are_writable(fields: &Vec<(String, TomlValue)>) -> (r: bool)
    ensures
        r == fields_writable(field_models(fields@)),
{
    let ghost models = field_models(fields@);
    let mut i: usize = 0;
    while i < fields.len()
        invariant
            i <= fields@.len(),
            models == field_models(fields@),
            forall|j: int| 0 <= j < i ==> value_writable((#[trigger] models[j]).1),
        decreases fields@.len() - i,
    {
        let fits = match &fields[i].1 {
            TomlValue::Integer(_) => true,
            TomlValue::Text(text) => is_writable(text.as_str()),
            TomlValue::Texts(list) => texts_are_writable(list),
        };
        assert(fits == value_writable(models[i as int].1));
        if !fits {
            return false;
        }
        i += 1;
    }
    true
}

fn section_is_writable(section: &TomlSection) -> (r: bool)
    ensures
        r == section_writable(section@),
{
    match section {
        TomlSection::Table(fields) => fields_are_writable(fields),
        TomlSection::Tables(list) => {
            let ghost models = list_models(list@);
            assert(models =~= section@->Tables_0);
            let mut i: usize = 0;
            while i < list.len()
                invariant
                    i <= list@.len(),
                    models == list_models(list@),
                    section@ == TomlSectionModel::Tables(models),
                    forall|j: int| 0 <= j < i ==> fields_writable(#[trigger] models[j]),
                decreases list@.len() - i,
            {
                if !fields_are_writable(&list[i]) {
                    assert(!fields_writable(models[i as int]));
                    return false;
                }
                i += 1;
            }
            true
        },
    }
}

/// Whether sections can be written in a document.
pub fn sections_are_writable(sections: &Vec<(String, TomlSection)>) -> (r: bool)
    ensures
        r == sections_writable(section_models(sections@)),
{
    let ghost models = section_models(sections@);
    let mut i: usize = 0;
    while i < sections.len()
        invariant
            i <= sections@.len(),
            models == section_models(sections@),
            forall|j: int| 0 <= j < i ==> section_writable((#[trigger] models[j]).1),
        decreases sections@.len() - i,
    {
        if !section_is_writable(&sections[i].1) {
            assert(!section_writable(models[i as int].1));
            return false;
        }
        i += 1;
    }
    true
}

/// What `toml_edit::DocumentMut::from_str` reads in a text, or the text of its error.
pub uninterp spec fn toml_content(text: Seq<char>) -> core::result::Result<
    TomlDocModel,
    Seq<char>,
>;

/// The document that `toml_edit` writes after a `Table::insert` of an empty table.
pub uninterp spec fn toml_put_table(text: Seq<char>, section: Seq<char>) -> Seq<char>;

/// The document that `toml_edit` writes after a `Table::insert` of empty entries.
pub uninterp spec fn toml_put_entries(text: Seq<char>, section: Seq<char>, count: nat) -> Seq<char>;

/// The document that `toml_edit` writes after a value is assigned to a key of a table.
pub uninterp spec fn toml_set_field(
    text: Seq<char>,
    section: Seq<char>,
    at: Option<usize>,
    key: Seq<char>,
    v: TomlValueModel,
) -> Seq<char>;

/// The document that `toml_edit` writes after a `Table::insert_formatted` of a key and its
/// value as they are written in another document.
pub uninterp spec fn toml_copy_field(
    before: Seq<char>,
    after: Seq<char>,
    section: Seq<char>,
    from: Option<usize>,
    to: Option<usize>,
    key: Seq<char>,
) -> Seq<char>;

/// The document that `toml_edit` writes after the header of a table takes the `Decor` of one
/// in another document.
pub uninterp spec fn toml_copy_header(
    before: Seq<char>,
    after: Seq<char>,
    section: Seq<char>,
    from: Option<usize>,
    to: Option<usize>,
) -> Seq<char>;

/// The document that `toml_edit` writes after a key takes the `Decor` of the one in another
/// document.
pub uninterp spec fn toml_copy_key(
    before: Seq<char>,
    after: Seq<char>,
    section: Seq<char>,
    from: Option<usize>,
    to: Option<usize>,
    key: Seq<char>,
) -> Seq<char>;

/// The document that `toml_edit` writes after a value takes the `Decor` of the one in another
/// document.
pub uninterp spec fn toml_copy_value(
    before: Seq<char>,
    after: Seq<char>,
    section: Seq<char>,
    from: Option<usize>,
    to: Option<usize>,
    key: Seq<char>,
) -> Seq<char>;

/// What stands above the first header of an array of tables: the prefix of its
/// `toml_edit::Table::decor`.
pub uninterp spec fn toml_comment(text: Seq<char>, section: Seq<char>) -> Seq<char>;

/// The document that `toml_edit` writes after its `DocumentMut::set_trailing` to what stands
/// above the first header of an array of tables in another document, then what it was.
pub uninterp spec fn toml_keep_comment(
    before: Seq<char>,
    after: Seq<char>,
    section: Seq<char>,
) -> Seq<char>;

/// A document, and another one that starts on a new line.
pub open spec fn joined(first: Seq<char>, second: Seq<char>) -> Seq<char> {
    first + "\n"@ + second
}

/// Whether a text does not begin with a byte order mark. `toml_edit` writes none: the edits
/// below say so of their result.
pub open spec fn unmarked(text: Seq<char>) -> bool {
    text.len() > 0 ==> text[0] != '\u{feff}'
}

/// Whether everything in another document is a section with a header that this one does not
/// have.
pub open spec fn extends(doc: TomlDocModel, other: TomlDocModel) -> bool {
    forall|name: Seq<char>| #[trigger]
        other.mentions(name) ==> (other.tables.contains(name) || other.arrays.contains(name))
            && !doc.mentions(name)
}

/// Whether a text is two documents, the second one made of sections with headers that the
/// first one does not have.
pub open spec fn is_joined(text: Seq<char>, first: Seq<char>, second: Seq<char>) -> bool {
    &&& text == joined(first, second)
    &&& toml_content(first) is Ok
    &&& toml_content(second) is Ok
    &&& unmarked(second)
    &&& extends(toml_content(first)->Ok_0, toml_content(second)->Ok_0)
}

/// `toml_edit::DocumentMut::from_str`: whether a text is a document, or the text of the error.
/// A text without a character is one, that holds nothing. A document, then on a new line one
/// without a byte order mark that begins with a header and whose sections are not in the first,
/// is a document that holds what both hold: the path of a header starts at the root.
#[verifier::external_body]
pub(crate) fn check_toml(text: &str) -> (r: core::result::Result<(), String>)
    ensures
        r is Ok <==> toml_content(text@) is Ok,
        r matches Err(e) ==> toml_content(text@) is Err && e@ == toml_content(text@)->Err_0,
        text@.len() == 0 ==> r is Ok,
        text@.len() == 0 && r is Ok ==> toml_content(text@)->Ok_0 == TomlDocModel::nothing(),
        forall|a: Seq<char>, b: Seq<char>| #[trigger] is_joined(text@, a, b) ==> r is Ok,
        r is Ok ==> forall|a: Seq<char>, b: Seq<char>| #[trigger]
            is_joined(text@, a, b) ==> toml_content(text@)->Ok_0 == (toml_content(a)->Ok_0).and(
                toml_content(b)->Ok_0,
            ),
{
    text.parse::<DocumentMut>().map(|_| ()).map_err(|e| e.to_string())
}

/// `toml_edit::Table::contains_key`: whether something has that name at the root.
#[verifier::external_body]
fn has_section(text: &str, section: &str) -> (r: bool)
    requires
        toml_content(text@) is Ok,
    ensures
        r == (toml_content(text@)->Ok_0).mentions(section@),
{
    let doc: DocumentMut = text.parse().unwrap();
    doc.contains_key(section)
}

/// `toml_edit::Item::as_table` of a root item, unless it is written with dotted keys
/// (`Table::is_dotted`): whether a document has that table with a header.
#[verifier::external_body]
fn has_table(text: &str, section: &str) -> (r: bool)
    requires
        toml_content(text@) is Ok,
    ensures
        r == (toml_content(text@)->Ok_0).has(section@, None),
{
    let doc: DocumentMut = text.parse().unwrap();
    doc.get(section).and_then(Item::as_table).is_some_and(|t| !t.is_dotted())
}

/// How many entries `[[section]]` a document has.
pub open spec fn entry_count(doc: TomlDocModel, section: Seq<char>) -> nat {
    if doc.arrays.contains(section) {
        doc.content[section]->List_0.len()
    } else {
        0
    }
}

/// `toml_edit::ArrayOfTables::len` of a root item, if it is an array of tables with headers.
#[verifier::external_body]
fn count_entries(text: &str, section: &str) -> (r: Option<usize>)
    requires
        toml_content(text@) is Ok,
    ensures
        r is Some <==> (toml_content(text@)->Ok_0).arrays.contains(section@),
        r is Some ==> r->0 == entry_count(toml_content(text@)->Ok_0, section@),
        r is Some ==> forall|i: usize|
            i < r->0 ==> #[trigger] (toml_content(text@)->Ok_0).has(section@, Some(i)),
{
    let doc: DocumentMut = text.parse().unwrap();
    doc.get(section).and_then(Item::as_array_of_tables).map(ArrayOfTables::len)
}

/// The content of a value that may be missing.
pub open spec fn opt_value(v: Option<TomlValue>) -> Option<TomlValueModel> {
    match v {
        Some(v) => Some(v@),
        None => None,
    }
}

/// Whether a value is an integer, a text or a list of texts.
pub open spec fn plain(v: TomlValueModel) -> bool {
    match v {
        TomlValueModel::Integer(_) => true,
        TomlValueModel::Text(_) => true,
        TomlValueModel::List(list) => forall|i: int|
            0 <= i < list.len() ==> (#[trigger] list[i]) is Text,
        _ => false,
    }
}

/// A field of a table or of an entry, if it has one of that name that is an integer, a text or
/// a list of texts.
pub open spec fn field_of(
    doc: TomlDocModel,
    section: Seq<char>,
    at: Option<usize>,
    key: Seq<char>,
) -> Option<TomlValueModel> {
    if doc.fields(section, at).contains_key(key) && plain(doc.fields(section, at)[key]) {
        Some(doc.fields(section, at)[key])
    } else {
        None
    }
}

/// `toml_edit::Item::get` down to a field: its value, if it is an integer, a text or a list of
/// texts.
#[verifier::external_body]
fn read_field(text: &str, section: &str, at: Option<usize>, key: &str) -> (r: Option<TomlValue>)
    requires
        toml_content(text@) is Ok,
        (toml_content(text@)->Ok_0).has(section@, at),
    ensures
        opt_value(r) == field_of(toml_content(text@)->Ok_0, section@, at, key@),
{
    let doc: DocumentMut = text.parse().unwrap();
    let table = match at { Some(i) => &doc[section][i], None => &doc[section] };
    match table.get(key)?.as_value()? {
        Value::Integer(n) => Some(TomlValue::Integer(*n.value())),
        Value::String(s) => Some(TomlValue::Text(s.value().clone())),
        Value::Array(list) => {
            let texts: Option<_> = list.iter().map(|v| v.as_str().map(String::from)).collect();
            texts.map(TomlValue::Texts)
        },
        _ => None,
    }
}

/// `toml_edit::Table::insert` of a new table at the root, then the document is written. The
/// table replaces what has its name, and has no field; the rest is read back as before.
#[verifier::external_body]
fn put_table(text: &str, section: &str) -> (r: String)
    requires
        toml_content(text@) is Ok,
    ensures
        r@ == toml_put_table(text@, section@),
        unmarked(r@),
        toml_content(r@) is Ok,
        toml_content(r@)->Ok_0 == (toml_content(text@)->Ok_0).put_table(section@),
{
    let mut doc: DocumentMut = text.parse().unwrap();
    doc.insert(section, Item::Table(Table::new()));
    doc.to_string()
}

/// `toml_edit::Table::insert` of new entries at the root, then the document is written. They
/// replace what has their name, and have no field; without any, nothing has that name. The
/// rest is read back as before.
#[verifier::external_body]
fn put_entries(text: &str, section: &str, count: usize) -> (r: String)
    requires
        toml_content(text@) is Ok,
    ensures
        r@ == toml_put_entries(text@, section@, count as nat),
        unmarked(r@),
        toml_content(r@) is Ok,
        toml_content(r@)->Ok_0 == (toml_content(text@)->Ok_0).with_entries(
            section@,
            Seq::new(count as nat, |i: int| Map::empty()),
        ),
{
    let mut doc: DocumentMut = text.parse().unwrap();
    let entries = std::iter::repeat(Table::new()).take(count).collect();
    doc.insert(section, Item::ArrayOfTables(entries));
    doc.to_string()
}

/// Assignment of a `toml_edit::value` to a key of a table (`IndexMut`), then the document is
/// written. The field is read back as it was set, the rest as before.
#[verifier::external_body]
fn set_field(text: &str, section: &str, at: Option<usize>, key: &str, v: &TomlValue) -> (r: String)
    requires
        toml_content(text@) is Ok,
        (toml_content(text@)->Ok_0).has(section@, at),
        value_writable(v@),
    ensures
        r@ == toml_set_field(text@, section@, at, key@, v@),
        unmarked(r@),
        toml_content(r@) is Ok,
        toml_content(r@)->Ok_0 == (toml_content(text@)->Ok_0).with_fields(
            section@,
            at,
            (toml_content(text@)->Ok_0).fields(section@, at).insert(key@, v@),
        ),
{
    let mut doc: DocumentMut = text.parse().unwrap();
    let item = &mut doc[section];
    let table = match at { Some(i) => &mut item[i], None => item };
    table[key] = match v {
        TomlValue::Integer(n) => value(*n),
        TomlValue::Text(s) => value(s),
        TomlValue::Texts(list) => value(Array::from_iter(list)),
    };
    doc.to_string()
}

/// `toml_edit::Table::insert_formatted` of a key and its value as another document writes
/// them, then the document is written. The field is read back with the value it has there, the
/// rest as before.
#[verifier::external_body]
fn copy_field(
    before: &str,
    after: &str,
    section: &str,
    from: Option<usize>,
    to: Option<usize>,
    key: &str,
) -> (r: String)
    requires
        toml_content(before@) is Ok,
        (toml_content(before@)->Ok_0).has(section@, from),
        field_of(toml_content(before@)->Ok_0, section@, from, key@) is Some,
        toml_content(after@) is Ok,
        (toml_content(after@)->Ok_0).has(section@, to),
    ensures
        r@ == toml_copy_field(before@, after@, section@, from, to, key@),
        unmarked(r@),
        toml_content(r@) is Ok,
        toml_content(r@)->Ok_0 == (toml_content(after@)->Ok_0).with_fields(
            section@,
            to,
            (toml_content(after@)->Ok_0).fields(section@, to).insert(
                key@,
                (toml_content(before@)->Ok_0).fields(section@, from)[key@],
            ),
        ),
{
    let old: DocumentMut = before.parse().unwrap();
    let mut new: DocumentMut = after.parse().unwrap();
    let source = match from { Some(i) => &old[section][i], None => &old[section] };
    let (k, v) = source.as_table().unwrap().get_key_value(key).unwrap();
    let item = &mut new[section];
    let target = match to { Some(i) => &mut item[i], None => item };
    target.as_table_mut().unwrap().insert_formatted(k, v.clone());
    new.to_string()
}

/// Assignment to `toml_edit::Table::decor_mut` of the `Table::decor` of another document, then
/// the document is written. It is read back as before.
#[verifier::external_body]
fn copy_header(
    before: &str,
    after: &str,
    section: &str,
    from: Option<usize>,
    to: Option<usize>,
) -> (r: String)
    requires
        toml_content(before@) is Ok,
        (toml_content(before@)->Ok_0).has(section@, from),
        toml_content(after@) is Ok,
        (toml_content(after@)->Ok_0).has(section@, to),
    ensures
        r@ == toml_copy_header(before@, after@, section@, from, to),
        unmarked(r@),
        toml_content(r@) == toml_content(after@),
{
    let old: DocumentMut = before.parse().unwrap();
    let mut new: DocumentMut = after.parse().unwrap();
    let source = match from { Some(i) => &old[section][i], None => &old[section] };
    let item = &mut new[section];
    let target = match to { Some(i) => &mut item[i], None => item };
    *target.as_table_mut().unwrap().decor_mut() = source.as_table().unwrap().decor().clone();
    new.to_string()
}

/// Assignment to `toml_edit::KeyMut::leaf_decor_mut` of the `Key::leaf_decor` of another
/// document, then the document is written. It is read back as before.
#[verifier::external_body]
fn copy_key(
    before: &str,
    after: &str,
    section: &str,
    from: Option<usize>,
    to: Option<usize>,
    key: &str,
) -> (r: String)
    requires
        toml_content(before@) is Ok,
        (toml_content(before@)->Ok_0).has(section@, from),
        field_of(toml_content(before@)->Ok_0, section@, from, key@) is Some,
        toml_content(after@) is Ok,
        (toml_content(after@)->Ok_0).has(section@, to),
        field_of(toml_content(after@)->Ok_0, section@, to, key@) is Some,
    ensures
        r@ == toml_copy_key(before@, after@, section@, from, to, key@),
        unmarked(r@),
        toml_content(r@) == toml_content(after@),
{
    let old: DocumentMut = before.parse().unwrap();
    let mut new: DocumentMut = after.parse().unwrap();
    let source = match from { Some(i) => &old[section][i], None => &old[section] };
    let decor = source.as_table().unwrap().key(key).unwrap().leaf_decor().clone();
    let item = &mut new[section];
    let target = match to { Some(i) => &mut item[i], None => item };
    *target.as_table_mut().unwrap().key_mut(key).unwrap().leaf_decor_mut() = decor;
    new.to_string()
}

/// Assignment to `toml_edit::Value::decor_mut` of the `Value::decor` of another document, then
/// the document is written. It is read back as before.
#[verifier::external_body]
fn copy_value(
    before: &str,
    after: &str,
    section: &str,
    from: Option<usize>,
    to: Option<usize>,
    key: &str,
) -> (r: String)
    requires
        toml_content(before@) is Ok,
        (toml_content(before@)->Ok_0).has(section@, from),
        field_of(toml_content(before@)->Ok_0, section@, from, key@) is Some,
        toml_content(after@) is Ok,
        (toml_content(after@)->Ok_0).has(section@, to),
        field_of(toml_content(after@)->Ok_0, section@, to, key@) is Some,
    ensures
        r@ == toml_copy_value(before@, after@, section@, from, to, key@),
        unmarked(r@),
        toml_content(r@) == toml_content(after@),
{
    let old: DocumentMut = before.parse().unwrap();
    let mut new: DocumentMut = after.parse().unwrap();
    let source = match from { Some(i) => &old[section][i], None => &old[section] };
    let item = &mut new[section];
    let target = match to { Some(i) => &mut item[i], None => item };
    let decor = source[key].as_value().unwrap().decor().clone();
    *target[key].as_value_mut().unwrap().decor_mut() = decor;
    new.to_string()
}

/// The prefix of `toml_edit::Table::decor` of the first entry of an array of tables: what
/// stands above its header.
#[verifier::external_body]
fn header_comment(text: &str, section: &str) -> (r: String)
    requires
        toml_content(text@) is Ok,
        (toml_content(text@)->Ok_0).has(section@, Some(0)),
    ensures
        r@ == toml_comment(text@, section@),
{
    let doc: DocumentMut = text.parse().unwrap();
    let decor = doc[section][0usize].as_table().unwrap().decor();
    decor.prefix().and_then(|p| p.as_str()).unwrap_or_default().to_owned()
}

/// `toml_edit::DocumentMut::set_trailing` to what stands above the first header of an array of
/// tables in another document, then what it was; then the document is written. It is read back
/// as before.
#[verifier::external_body]
fn keep_comment(before: &str, after: &str, section: &str) -> (r: String)
    requires
        toml_content(before@) is Ok,
        (toml_content(before@)->Ok_0).has(section@, Some(0)),
        toml_content(after@) is Ok,
    ensures
        r@ == toml_keep_comment(before@, after@, section@),
        unmarked(r@),
        toml_content(r@) == toml_content(after@),
{
    let old: DocumentMut = before.parse().unwrap();
    let mut new: DocumentMut = after.parse().unwrap();
    let decor = old[section][0usize].as_table().unwrap().decor();
    let comment = decor.prefix().and_then(|p| p.as_str()).unwrap_or_default();
    let trailing = new.trailing().as_str().unwrap_or_default();
    new.set_trailing(format!("{comment}{trailing}"));
    new.to_string()
}

/// Whether two values are the same.
fn same_value(a: &TomlValue, b: &TomlValue) -> (r: bool)
    ensures
        r == (a@ == b@),
{
    match (a, b) {
        (TomlValue::Integer(x), TomlValue::Integer(y)) => *x == *y,
        (TomlValue::Text(x), TomlValue::Text(y)) => *x == *y,
        (TomlValue::Texts(x), TomlValue::Texts(y)) => same_texts(x, y),
        _ => false,
    }
}

fn same_texts(a: &Vec<String>, b: &Vec<String>) -> (r: bool)
    ensures
        r == (texts_value(crate::protocol::texts(a@)) == texts_value(crate::protocol::texts(b@))),
{
    let ghost x = texts_value(crate::protocol::texts(a@))->List_0;
    let ghost y = texts_value(crate::protocol::texts(b@))->List_0;
    if a.len() != b.len() {
        assert(x.len() != y.len());
        return false;
    }
    let mut i: usize = 0;
    while i < a.len()
        invariant
            i <= a@.len(),
            a@.len() == b@.len(),
            x == texts_value(crate::protocol::texts(a@))->List_0,
            y == texts_value(crate::protocol::texts(b@))->List_0,
            forall|j: int| 0 <= j < i ==> x[j] == y[j],
        decreases a@.len() - i,
    {
        assert(x[i as int] == TomlValueModel::Text(a@[i as int]@));
        assert(y[i as int] == TomlValueModel::Text(b@[i as int]@));
        if a[i] != b[i] {
            assert(x[i as int] != y[i as int]);
            return false;
        }
        i += 1;
    }
    assert(x =~= y);
    true
}

/// A document in which a field is set. It stays as it is written in the document `before`, at
/// `from`, if it has its value there; else it takes the comments on it there.
pub open spec fn field_written(
    before: Seq<char>,
    text: Seq<char>,
    section: Seq<char>,
    from: Option<Option<usize>>,
    to: Option<usize>,
    field: (Seq<char>, TomlValueModel),
) -> Seq<char> {
    let (key, v) = field;
    match from {
        Some(at) => match field_of(toml_content(before)->Ok_0, section, at, key) {
            Some(old) => if old == v {
                toml_copy_field(before, text, section, at, to, key)
            } else {
                let set = toml_set_field(text, section, to, key, v);
                let keyed = toml_copy_key(before, set, section, at, to, key);
                toml_copy_value(before, keyed, section, at, to, key)
            },
            None => toml_set_field(text, section, to, key, v),
        },
        None => toml_set_field(text, section, to, key, v),
    }
}

/// A document in which fields are set, in order.
pub open spec fn fields_written(
    before: Seq<char>,
    text: Seq<char>,
    section: Seq<char>,
    from: Option<Option<usize>>,
    to: Option<usize>,
    fields: Seq<(Seq<char>, TomlValueModel)>,
) -> Seq<char>
    decreases fields.len(),
{
    if fields.len() == 0 {
        text
    } else {
        field_written(
            before,
            fields_written(before, text, section, from, to, fields.drop_last()),
            section,
            from,
            to,
            fields.last(),
        )
    }
}

/// A document in which the fields of a table are set, and its header has the comments that it
/// has in the document `before`, at `from`.
pub open spec fn table_written(
    before: Seq<char>,
    text: Seq<char>,
    section: Seq<char>,
    from: Option<Option<usize>>,
    to: Option<usize>,
    fields: Seq<(Seq<char>, TomlValueModel)>,
) -> Seq<char> {
    let written = fields_written(before, text, section, from, to, fields);
    match from {
        Some(at) => toml_copy_header(before, written, section, at, to),
        None => written,
    }
}

/// Setting the fields of a table twice is setting them once.
proof fn lemma_with_fields(
    doc: TomlDocModel,
    section: Seq<char>,
    at: Option<usize>,
    first: Map<Seq<char>, TomlValueModel>,
    second: Map<Seq<char>, TomlValueModel>,
)
    requires
        doc.has(section, at),
    ensures
        doc.with_fields(section, at, first).has(section, at),
        doc.with_fields(section, at, first).fields(section, at) == first,
        doc.with_fields(section, at, first).with_fields(section, at, second) == doc.with_fields(
            section,
            at,
            second,
        ),
        doc.with_fields(section, at, doc.fields(section, at)) == doc,
{
    let once = doc.with_fields(section, at, second);
    let twice = doc.with_fields(section, at, first).with_fields(section, at, second);
    let same = doc.with_fields(section, at, doc.fields(section, at));
    match at {
        None => {},
        Some(i) => {
            let list = doc.content[section]->List_0;
            let (x, y) = (TomlValueModel::Table(first), TomlValueModel::Table(second));
            assert(list.update(i as int, x).update(i as int, y) =~= list.update(i as int, y));
            assert(list.update(i as int, list[i as int]) =~= list);
        },
    }
    assert(twice.content =~= once.content);
    assert(same.content =~= doc.content);
}

fn write_field(
    before: &str,
    text: String,
    section: &str,
    from: Option<Option<usize>>,
    to: Option<usize>,
    key: &String,
    v: &TomlValue,
) -> (r: String)
    requires
        toml_content(before@) is Ok,
        from matches Some(at) ==> (toml_content(before@)->Ok_0).has(section@, at),
        toml_content(text@) is Ok,
        (toml_content(text@)->Ok_0).has(section@, to),
        value_writable(v@),
    ensures
        r@ == field_written(before@, text@, section@, from, to, (key@, v@)),
        unmarked(r@),
        toml_content(r@) is Ok,
        toml_content(r@)->Ok_0 == (toml_content(text@)->Ok_0).with_fields(
            section@,
            to,
            (toml_content(text@)->Ok_0).fields(section@, to).insert(key@, v@),
        ),
{
    proof {
        let doc = toml_content(text@)->Ok_0;
        lemma_with_fields(
            doc,
            section@,
            to,
            doc.fields(section@, to).insert(key@, v@),
            doc.fields(section@, to),
        );
    }
    match from {
        Some(at) => match read_field(before, section, at, key.as_str()) {
            Some(old) => {
                if same_value(&old, v) {
                    copy_field(before, text.as_str(), section, at, to, key.as_str())
                } else {
                    let set = set_field(text.as_str(), section, to, key.as_str(), v);
                    let keyed = copy_key(before, set.as_str(), section, at, to, key.as_str());
                    copy_value(before, keyed.as_str(), section, at, to, key.as_str())
                }
            },
            None => set_field(text.as_str(), section, to, key.as_str(), v),
        },
        None => set_field(text.as_str(), section, to, key.as_str(), v),
    }
}

/// Writes the fields of an empty table or entry, and the comments on it.
fn write_table(
    before: &str,
    text: String,
    section: &str,
    from: Option<Option<usize>>,
    to: Option<usize>,
    fields: &Vec<(String, TomlValue)>,
) -> (r: String)
    requires
        toml_content(before@) is Ok,
        from matches Some(at) ==> (toml_content(before@)->Ok_0).has(section@, at),
        toml_content(text@) is Ok,
        (toml_content(text@)->Ok_0).has(section@, to),
        (toml_content(text@)->Ok_0).fields(section@, to) == Map::<
            Seq<char>,
            TomlValueModel,
        >::empty(),
        fields_writable(field_models(fields@)),
        unmarked(text@),
    ensures
        r@ == table_written(before@, text@, section@, from, to, field_models(fields@)),
        unmarked(r@),
        toml_content(r@) is Ok,
        toml_content(r@)->Ok_0 == (toml_content(text@)->Ok_0).with_fields(
            section@,
            to,
            fields_map(field_models(fields@)),
        ),
{
    let ghost start = text@;
    let ghost doc = toml_content(text@)->Ok_0;
    let ghost models = field_models(fields@);
    let mut out = text;
    let mut i: usize = 0;
    proof {
        lemma_with_fields(doc, section@, to, doc.fields(section@, to), Map::empty());
        assert(models.take(0) =~= Seq::empty());
    }
    while i < fields.len()
        invariant
            i <= fields@.len(),
            toml_content(before@) is Ok,
            from matches Some(at) ==> (toml_content(before@)->Ok_0).has(section@, at),
            doc.has(section@, to),
            doc.fields(section@, to) == Map::<Seq<char>, TomlValueModel>::empty(),
            models == field_models(fields@),
            fields_writable(models),
            out@ == fields_written(before@, start, section@, from, to, models.take(i as int)),
            unmarked(out@),
            toml_content(out@) is Ok,
            toml_content(out@)->Ok_0 == doc.with_fields(
                section@,
                to,
                fields_map(models.take(i as int)),
            ),
        decreases fields@.len() - i,
    {
        proof {
            let done = fields_map(models.take(i as int));
            let next = models.take(i + 1);
            assert(next.drop_last() =~= models.take(i as int));
            assert(next.last() == models[i as int]);
            assert(value_writable(models[i as int].1));
            lemma_with_fields(doc, section@, to, done, fields_map(next));
        }
        out = write_field(before, out, section, from, to, &fields[i].0, &fields[i].1);
        i += 1;
    }
    proof {
        assert(models.take(models.len() as int) =~= models);
        lemma_with_fields(doc, section@, to, fields_map(models), Map::empty());
    }
    match from {
        Some(at) => copy_header(before, out.as_str(), section, at, to),
        None => out,
    }
}

/// The peer that the fields of an entry name.
pub open spec fn peer_in(fields: Map<Seq<char>, TomlValueModel>) -> Option<Seq<char>> {
    if fields.contains_key("peer"@) {
        match fields["peer"@] {
            TomlValueModel::Text(peer) => Some(peer),
            _ => None,
        }
    } else {
        None
    }
}

/// The peers of the entries of a document.
pub open spec fn old_peers(doc: TomlDocModel, section: Seq<char>) -> Seq<Option<Seq<char>>> {
    Seq::new(
        entry_count(doc, section),
        |i: int| peer_in(doc.fields(section, Some(i as usize))),
    )
}

/// The peers of entries to write.
pub open spec fn new_peers(list: Seq<Seq<(Seq<char>, TomlValueModel)>>) -> Seq<Option<Seq<char>>> {
    Seq::new(list.len(), |i: int| peer_in(fields_map(list[i])))
}

/// The position of the first entry of a peer, or their number if it has none.
pub open spec fn entry_of(old: Seq<Option<Seq<char>>>, peer: Option<Seq<char>>) -> int
    decreases old.len(),
{
    if old.len() == 0 || (peer is Some && old[0] == peer) {
        0
    } else {
        1 + entry_of(old.skip(1), peer)
    }
}

/// Which entry of before the entry `i` takes its comments from: that of the same peer. The
/// first entry keeps what stands above the section, if the peer that had it is gone.
pub open spec fn source_of(
    old: Seq<Option<Seq<char>>>,
    peers: Seq<Option<Seq<char>>>,
    i: int,
) -> Option<usize> {
    if entry_of(old, peers[i]) < old.len() {
        Some(entry_of(old, peers[i]) as usize)
    } else if i == 0 && old.len() > 0 && !(old[0] is Some && peers.contains(old[0])) {
        Some(0)
    } else {
        None
    }
}

/// The texts of optional strings.
pub open spec fn opt_texts(v: Seq<Option<String>>) -> Seq<Option<Seq<char>>> {
    Seq::new(v.len(), |i: int| crate::text::opt_text(v[i]))
}

fn same_peer(a: &Option<String>, b: &Option<String>) -> (r: bool)
    ensures
        r == (a is Some && crate::text::opt_text(*a) == crate::text::opt_text(*b)),
{
    match (a, b) {
        (Some(x), Some(y)) => *x == *y,
        _ => false,
    }
}

fn find_entry(old: &Vec<Option<String>>, peer: &Option<String>) -> (r: usize)
    ensures
        r == entry_of(opt_texts(old@), crate::text::opt_text(*peer)),
        r <= old@.len(),
{
    let ghost models = opt_texts(old@);
    let mut i: usize = 0;
    assert(models.skip(0) =~= models);
    while i < old.len()
        invariant
            i <= old@.len(),
            models == opt_texts(old@),
            entry_of(models, crate::text::opt_text(*peer)) == i + entry_of(
                models.skip(i as int),
                crate::text::opt_text(*peer),
            ),
        decreases old@.len() - i,
    {
        assert(models.skip(i as int)[0] == crate::text::opt_text(old@[i as int]));
        assert(models.skip(i as int).skip(1) =~= models.skip(i + 1));
        if same_peer(peer, &old[i]) {
            return i;
        }
        i += 1;
    }
    i
}

fn is_listed(peers: &Vec<Option<String>>, peer: &Option<String>) -> (r: bool)
    ensures
        r == (peer is Some && opt_texts(peers@).contains(crate::text::opt_text(*peer))),
{
    let ghost models = opt_texts(peers@);
    let mut i: usize = 0;
    while i < peers.len()
        invariant
            i <= peers@.len(),
            models == opt_texts(peers@),
            peer is Some ==> forall|j: int|
                0 <= j < i ==> models[j] != crate::text::opt_text(*peer),
        decreases peers@.len() - i,
    {
        if same_peer(peer, &peers[i]) {
            assert(models[i as int] == crate::text::opt_text(*peer));
            return true;
        }
        i += 1;
    }
    false
}

/// Which entry of before the entry `i` takes its comments from.
pub fn comment_source(old: &Vec<Option<String>>, peers: &Vec<Option<String>>, i: usize) -> (r:
    Option<usize>)
    requires
        i < peers@.len(),
    ensures
        r == source_of(opt_texts(old@), opt_texts(peers@), i as int),
        r matches Some(j) ==> j < old@.len(),
{
    let found: usize = find_entry(old, &peers[i]);
    if found < old.len() {
        return Some(found);
    }
    if i > 0 || old.len() == 0 || is_listed(peers, &old[0]) {
        None
    } else {
        Some(0)
    }
}

fn read_old_peers(text: &str, section: &str) -> (r: Vec<Option<String>>)
    requires
        toml_content(text@) is Ok,
    ensures
        opt_texts(r@) == old_peers(toml_content(text@)->Ok_0, section@),
        forall|i: usize|
            i < r@.len() ==> #[trigger] (toml_content(text@)->Ok_0).has(section@, Some(i)),
{
    let ghost doc = toml_content(text@)->Ok_0;
    let n: usize = match count_entries(text, section) {
        Some(n) => n,
        None => 0,
    };
    let mut out: Vec<Option<String>> = Vec::new();
    let mut i: usize = 0;
    while i < n
        invariant
            i <= n,
            toml_content(text@) is Ok,
            doc == toml_content(text@)->Ok_0,
            n == entry_count(doc, section@),
            forall|j: usize| j < n ==> #[trigger] doc.has(section@, Some(j)),
            out@.len() == i,
            forall|j: int|
                0 <= j < i ==> crate::text::opt_text(#[trigger] out@[j]) == peer_in(
                    doc.fields(section@, Some(j as usize)),
                ),
        decreases n - i,
    {
        let peer = match read_field(text, section, Some(i), "peer") {
            Some(TomlValue::Text(peer)) => Some(peer),
            _ => None,
        };
        out.push(peer);
        i += 1;
    }
    assert(opt_texts(out@) =~= old_peers(doc, section@));
    out
}

fn peer_field(fields: &Vec<(String, TomlValue)>) -> (r: Option<String>)
    ensures
        crate::text::opt_text(r) == peer_in(fields_map(field_models(fields@))),
{
    let ghost models = field_models(fields@);
    let mut found: Option<String> = None;
    let mut i: usize = 0;
    while i < fields.len()
        invariant
            i <= fields@.len(),
            models == field_models(fields@),
            crate::text::opt_text(found) == peer_in(fields_map(models.take(i as int))),
        decreases fields@.len() - i,
    {
        proof {
            assert(models.take(i + 1).drop_last() =~= models.take(i as int));
            assert(models.take(i + 1).last() == models[i as int]);
        }
        if fields[i].0 == "peer".to_owned() {
            found = match &fields[i].1 {
                TomlValue::Text(peer) => Some(peer.clone()),
                _ => None,
            };
        }
        i += 1;
    }
    assert(models.take(models.len() as int) =~= models);
    found
}

/// The contents of lists of fields.
pub open spec fn list_models(v: Seq<Vec<(String, TomlValue)>>) -> Seq<
    Seq<(Seq<char>, TomlValueModel)>,
> {
    Seq::new(v.len(), |i: int| field_models(v[i]@))
}

fn read_new_peers(list: &Vec<Vec<(String, TomlValue)>>) -> (r: Vec<Option<String>>)
    ensures
        opt_texts(r@) == new_peers(list_models(list@)),
        r@.len() == list@.len(),
{
    let mut out: Vec<Option<String>> = Vec::new();
    let mut i: usize = 0;
    while i < list.len()
        invariant
            i <= list@.len(),
            out@.len() == i,
            forall|j: int|
                0 <= j < i ==> crate::text::opt_text(#[trigger] out@[j]) == peer_in(
                    fields_map(field_models(list@[j]@)),
                ),
        decreases list@.len() - i,
    {
        out.push(peer_field(&list[i]));
        i += 1;
    }
    assert(opt_texts(out@) =~= new_peers(list_models(list@)));
    out
}

/// Where the comments of an entry come from, as an address in the document before.
pub open spec fn entry_address(source: Option<usize>) -> Option<Option<usize>> {
    match source {
        Some(j) => Some(Some(j)),
        None => None,
    }
}

/// A document in which the first `n` entries are written.
pub open spec fn entries_written(
    before: Seq<char>,
    text: Seq<char>,
    section: Seq<char>,
    list: Seq<Seq<(Seq<char>, TomlValueModel)>>,
    n: nat,
) -> Seq<char>
    decreases n,
{
    if n == 0 {
        text
    } else {
        let i = (n - 1) as nat;
        table_written(
            before,
            entries_written(before, text, section, list, i),
            section,
            entry_address(
                source_of(
                    old_peers(toml_content(before)->Ok_0, section),
                    new_peers(list),
                    i as int,
                ),
            ),
            Some(i as usize),
            list[i as int],
        )
    }
}

/// The document with the first `n` entries written, the others without fields.
spec fn partly_written(
    doc: TomlDocModel,
    section: Seq<char>,
    list: Seq<Seq<(Seq<char>, TomlValueModel)>>,
    n: int,
) -> TomlDocModel {
    doc.with_entries(
        section,
        Seq::new(
            list.len(),
            |i: int|
                if i < n {
                    fields_map(list[i])
                } else {
                    Map::empty()
                },
        ),
    )
}

fn write_entries(
    before: &str,
    text: String,
    section: &str,
    list: &Vec<Vec<(String, TomlValue)>>,
) -> (r: String)
    requires
        toml_content(before@) is Ok,
        toml_content(text@) is Ok,
        entries_writable(list_models(list@)),
    ensures
        r@ == entries_written(
            before@,
            toml_put_entries(text@, section@, list@.len()),
            section@,
            list_models(list@),
            list@.len(),
        ),
        unmarked(r@),
        toml_content(r@) is Ok,
        toml_content(r@)->Ok_0 == (toml_content(text@)->Ok_0).with_section(
            section@,
            TomlSectionModel::Tables(list_models(list@)),
        ),
{
    let ghost doc = toml_content(text@)->Ok_0;
    let ghost models = list_models(list@);
    let ghost start = toml_put_entries(text@, section@, list@.len());
    let old = read_old_peers(before, section);
    let peers = read_new_peers(list);
    let mut out = put_entries(text.as_str(), section, list.len());
    let mut i: usize = 0;
    proof {
        assert(Seq::new(list@.len(), |i: int| Map::<Seq<char>, TomlValueModel>::empty())
            =~= Seq::new(
            models.len(),
            |i: int|
                if i < 0 {
                    fields_map(models[i])
                } else {
                    Map::empty()
                },
        ));
    }
    while i < list.len()
        invariant
            i <= list@.len(),
            toml_content(before@) is Ok,
            models == list_models(list@),
            entries_writable(models),
            peers@.len() == list@.len(),
            opt_texts(old@) == old_peers(toml_content(before@)->Ok_0, section@),
            forall|j: usize|
                j < old@.len() ==> #[trigger] (toml_content(before@)->Ok_0).has(section@, Some(j)),
            opt_texts(peers@) == new_peers(models),
            out@ == entries_written(before@, start, section@, models, i as nat),
            unmarked(out@),
            toml_content(out@) is Ok,
            toml_content(out@)->Ok_0 == partly_written(doc, section@, models, i as int),
        decreases list@.len() - i,
    {
        let source = comment_source(&old, &peers, i);
        let from: Option<Option<usize>> = match source {
            Some(j) => Some(Some(j)),
            None => None,
        };
        proof {
            assert(old@.len() == opt_texts(old@).len());
            assert(fields_writable(models[i as int]));
        }
        out = write_table(before, out, section, from, Some(i), &list[i]);
        proof {
            let here = partly_written(doc, section@, models, i as int);
            let next = partly_written(doc, section@, models, i + 1);
            let written = here.with_fields(section@, Some(i), fields_map(models[i as int]));
            assert(written.content[section@]->List_0 =~= next.content[section@]->List_0);
            assert(written.content =~= next.content);
        }
        i += 1;
    }
    proof {
        let list_maps = Seq::new(models.len(), |i: int| fields_map(models[i]));
        assert(list_maps =~= Seq::new(
            models.len(),
            |i: int|
                if i < list@.len() {
                    fields_map(models[i])
                } else {
                    Map::empty()
                },
        ));
    }
    out
}

/// A document from which an array of tables is removed. What stands above it in the document
/// `before` goes to the end, if it is a comment.
pub open spec fn entries_removed(
    before: Seq<char>,
    text: Seq<char>,
    section: Seq<char>,
) -> Seq<char> {
    let removed = toml_put_entries(text, section, 0);
    if entry_count(toml_content(before)->Ok_0, section) > 0 && toml_comment(
        before,
        section,
    ).contains('#') {
        toml_keep_comment(before, removed, section)
    } else {
        removed
    }
}

fn is_comment(text: &str) -> (r: bool)
    ensures
        r == text@.contains('#'),
{
    let chars = crate::text::chars_of(text);
    let mut i: usize = 0;
    while i < chars.len()
        invariant
            i <= chars@.len(),
            chars@ == text@,
            forall|j: int| 0 <= j < i ==> chars@[j] != '#',
        decreases chars@.len() - i,
    {
        if chars[i] == '#' {
            assert(text@[i as int] == '#');
            return true;
        }
        i += 1;
    }
    false
}

fn remove_entries(before: &str, text: String, section: &str) -> (r: String)
    requires
        toml_content(before@) is Ok,
        toml_content(text@) is Ok,
    ensures
        r@ == entries_removed(before@, text@, section@),
        unmarked(r@),
        toml_content(r@) is Ok,
        toml_content(r@)->Ok_0 == (toml_content(text@)->Ok_0).with_entries(section@, Seq::empty()),
{
    let removed = put_entries(text.as_str(), section, 0);
    assert(Seq::new(0, |i: int| Map::<Seq<char>, TomlValueModel>::empty()) =~= Seq::empty());
    let n: usize = match count_entries(before, section) {
        Some(n) => n,
        None => 0,
    };
    if n == 0 {
        return removed;
    }
    assert((toml_content(before@)->Ok_0).has(section@, Some(0usize)));
    if is_comment(header_comment(before, section).as_str()) {
        keep_comment(before, removed.as_str(), section)
    } else {
        removed
    }
}

/// A document in which a section is replaced, with the comments of the document `before`.
pub open spec fn section_replaced(
    before: Seq<char>,
    text: Seq<char>,
    name: Seq<char>,
    section: TomlSectionModel,
) -> Seq<char> {
    match section {
        TomlSectionModel::Table(fields) => table_written(
            before,
            toml_put_table(text, name),
            name,
            if (toml_content(before)->Ok_0).has(name, None) {
                Some(None)
            } else {
                None
            },
            None,
            fields,
        ),
        TomlSectionModel::Tables(list) => if list.len() == 0 {
            entries_removed(before, text, name)
        } else {
            entries_written(
                before,
                toml_put_entries(text, name, list.len()),
                name,
                list,
                list.len(),
            )
        },
    }
}

fn replace_section(before: &str, text: String, name: &String, section: &TomlSection) -> (r: String)
    requires
        toml_content(before@) is Ok,
        toml_content(text@) is Ok,
        section_writable(section@),
    ensures
        r@ == section_replaced(before@, text@, name@, section@),
        unmarked(r@),
        toml_content(r@) is Ok,
        toml_content(r@)->Ok_0 == (toml_content(text@)->Ok_0).with_section(name@, section@),
{
    match section {
        TomlSection::Table(fields) => {
            let from: Option<Option<usize>> = if has_table(before, name.as_str()) {
                Some(None)
            } else {
                None
            };
            let cleared = put_table(text.as_str(), name.as_str());
            write_table(before, cleared, name.as_str(), from, None, fields)
        },
        TomlSection::Tables(list) => {
            assert(list_models(list@) =~= section@->Tables_0);
            if list.len() == 0 {
                assert(Seq::new(0, |i: int| fields_map(section@->Tables_0[i])) =~= Seq::empty());
                remove_entries(before, text, name.as_str())
            } else {
                write_entries(before, text, name.as_str(), list)
            }
        },
    }
}

/// Whether a section has nothing to write.
pub open spec fn is_void(section: TomlSectionModel) -> bool {
    section matches TomlSectionModel::Tables(list) && list.len() == 0
}

/// A document in which a section is written: replaced, with the comments of the document
/// `before`, or else appended.
pub open spec fn section_written(
    before: Seq<char>,
    text: Seq<char>,
    name: Seq<char>,
    section: TomlSectionModel,
) -> Seq<char> {
    if (toml_content(text)->Ok_0).mentions(name) {
        section_replaced(before, text, name, section)
    } else if is_void(section) {
        text
    } else {
        joined(text, section_replaced(Seq::empty(), Seq::empty(), name, section))
    }
}

/// A document in which sections are written, in order, with the comments they had.
pub open spec fn rewritten(
    before: Seq<char>,
    sections: Seq<(Seq<char>, TomlSectionModel)>,
) -> Seq<char>
    decreases sections.len(),
{
    if sections.len() == 0 {
        before
    } else {
        section_written(
            before,
            rewritten(before, sections.drop_last()),
            sections.last().0,
            sections.last().1,
        )
    }
}

/// A section that is appended holds what it holds in a document of its own.
proof fn lemma_appended(doc: TomlDocModel, name: Seq<char>, section: TomlSectionModel)
    requires
        !doc.mentions(name),
    ensures
        !is_void(section) ==> doc.and(TomlDocModel::nothing().with_section(name, section))
            == doc.with_section(name, section),
        is_void(section) ==> doc.with_section(name, section) == doc,
        extends(doc, TomlDocModel::nothing().with_section(name, section)),
{
    let alone = TomlDocModel::nothing().with_section(name, section);
    let both = doc.and(alone);
    let whole = doc.with_section(name, section);
    assert(is_void(section) ==> whole =~= doc);
    assert(!is_void(section) ==> both.content =~= whole.content);
    assert(!is_void(section) ==> both.tables =~= whole.tables);
    assert(!is_void(section) ==> both.arrays =~= whole.arrays);
}

/// Appends a section to a document that does not have it. The outcome is read again, which
/// tells what it holds.
fn append_section(text: String, name: &String, section: &TomlSection) -> (r: String)
    requires
        toml_content(text@) is Ok,
        !(toml_content(text@)->Ok_0).mentions(name@),
        section_writable(section@),
        !is_void(section@),
    ensures
        r@ == joined(text@, section_replaced(Seq::empty(), Seq::empty(), name@, section@)),
        toml_content(r@) is Ok,
        toml_content(r@)->Ok_0 == (toml_content(text@)->Ok_0).with_section(name@, section@),
{
    proof {
        reveal_strlit("");
        assert(""@ =~= Seq::empty());
        lemma_appended(toml_content(text@)->Ok_0, name@, section@);
    }
    let ghost first = text@;
    let nothing = "";
    let _ = check_toml(nothing);
    let alone = replace_section(nothing, nothing.to_owned(), name, section);
    let mut out = text;
    out.append("\n");
    out.append(alone.as_str());
    assert(is_joined(out@, first, alone@));
    let _ = check_toml(out.as_str());
    out
}

fn write_section(before: &str, text: String, name: &String, section: &TomlSection) -> (r: String)
    requires
        toml_content(before@) is Ok,
        toml_content(text@) is Ok,
        section_writable(section@),
    ensures
        r@ == section_written(before@, text@, name@, section@),
        toml_content(r@) is Ok,
        toml_content(r@)->Ok_0 == (toml_content(text@)->Ok_0).with_section(name@, section@),
        !(toml_content(text@)->Ok_0).mentions(name@) ==> text@.is_prefix_of(r@),
{
    if has_section(text.as_str(), name.as_str()) {
        return replace_section(before, text, name, section);
    }
    proof {
        lemma_appended(toml_content(text@)->Ok_0, name@, section@);
    }
    let empty = match section {
        TomlSection::Table(_) => false,
        TomlSection::Tables(list) => list.len() == 0,
    };
    if empty {
        text
    } else {
        append_section(text, name, section)
    }
}

/// Whether a document has none of the sections, and these have different names.
pub open spec fn all_new(
    doc: TomlDocModel,
    sections: Seq<(Seq<char>, TomlSectionModel)>,
) -> bool {
    &&& forall|i: int| 0 <= i < sections.len() ==> !doc.mentions((#[trigger] sections[i]).0)
    &&& forall|i: int, j: int|
        0 <= i < j < sections.len() ==> (#[trigger] sections[i]).0 != (#[trigger] sections[j]).0
}

/// Writes sections in a document, with the comments they had. What is not in these sections
/// stays; a document that has none of them stays whole, and they follow it.
pub(crate) fn rewrite(text: &str, sections: &Vec<(String, TomlSection)>) -> (r: String)
    requires
        toml_content(text@) is Ok,
        sections_writable(section_models(sections@)),
    ensures
        r@ == rewritten(text@, section_models(sections@)),
        toml_content(r@) is Ok,
        toml_content(r@)->Ok_0 == (toml_content(text@)->Ok_0).with_sections(
            section_models(sections@),
        ),
        all_new(toml_content(text@)->Ok_0, section_models(sections@)) ==> text@.is_prefix_of(r@),
{
    let ghost doc = toml_content(text@)->Ok_0;
    let ghost models = section_models(sections@);
    let mut out = text.to_owned();
    let mut i: usize = 0;
    assert(models.take(0) =~= Seq::empty());
    while i < sections.len()
        invariant
            i <= sections@.len(),
            toml_content(text@) is Ok,
            doc == toml_content(text@)->Ok_0,
            models == section_models(sections@),
            sections_writable(models),
            out@ == rewritten(text@, models.take(i as int)),
            toml_content(out@) is Ok,
            toml_content(out@)->Ok_0 == doc.with_sections(models.take(i as int)),
            all_new(doc, models) ==> text@.is_prefix_of(out@),
        decreases sections@.len() - i,
    {
        let ghost here = out@;
        proof {
            let done = models.take(i as int);
            let next = models[i as int].0;
            assert(models.take(i + 1).drop_last() =~= done);
            assert(models.take(i + 1).last() == models[i as int]);
            assert(section_writable(models[i as int].1));
            if all_new(doc, models) {
                assert forall|j: int| 0 <= j < done.len() implies (#[trigger] done[j]).0
                    != next by {
                    assert(done[j] == models[j]);
                }
                other_sections_stay(doc, done, next);
                assert(!doc.mentions(models[i as int].0));
            }
        }
        out = write_section(text, out, &sections[i].0, &sections[i].1);
        proof {
            if all_new(doc, models) {
                assert(text@ =~= out@.take(text@.len() as int));
            }
        }
        i += 1;
    }
    assert(models.take(models.len() as int) =~= models);
    out
}

/// Contents of fields, sections and entries are those of all their items, in order, whatever
/// their number.
pub proof fn document_parts_are_taken_as_they_are(
    fields: Seq<(String, TomlValue)>,
    sections: Seq<(String, TomlSection)>,
    list: Seq<Vec<(String, TomlValue)>>,
    peers: Seq<Option<String>>,
    texts: Seq<Seq<char>>,
    i: int,
)
    ensures
        field_models(fields).len() == fields.len(),
        0 <= i < fields.len() ==> field_models(fields)[i] == (fields[i].0@, fields[i].1@),
        section_models(sections).len() == sections.len(),
        0 <= i < sections.len() ==> section_models(sections)[i] == (sections[i].0@, sections[i].1@),
        list_models(list).len() == list.len(),
        0 <= i < list.len() ==> list_models(list)[i] == field_models(list[i]@),
        opt_texts(peers).len() == peers.len(),
        0 <= i < peers.len() ==> opt_texts(peers)[i] == (match peers[i] {
            Some(p) => Some(p@),
            None => None,
        }),
        texts_value(texts) matches TomlValueModel::List(values) && values.len() == texts.len() && (
        0 <= i < texts.len() ==> values[i] == TomlValueModel::Text(texts[i])),
        0 <= i < fields.len() ==> (match fields[i].1 {
            TomlValue::Integer(n) => fields[i].1@ == TomlValueModel::Integer(n),
            TomlValue::Text(s) => fields[i].1@ == TomlValueModel::Text(s@),
            TomlValue::Texts(l) => fields[i].1@ == texts_value(crate::protocol::texts(l@)),
        }),
        0 <= i < sections.len() ==> (match sections[i].1 {
            TomlSection::Table(f) => sections[i].1@ == TomlSectionModel::Table(field_models(f@)),
            TomlSection::Tables(l) => sections[i].1@ == TomlSectionModel::Tables(list_models(l@)),
        }),
{
    if 0 <= i < sections.len() {
        match sections[i].1 {
            TomlSection::Table(f) => {},
            TomlSection::Tables(l) => {
                assert(list_models(l@) =~= sections[i].1@->Tables_0);
            },
        }
    }
}

proof fn lemma_entry_of(old: Seq<Option<Seq<char>>>, peer: Option<Seq<char>>)
    ensures
        0 <= entry_of(old, peer) <= old.len(),
        entry_of(old, peer) < old.len() ==> peer is Some && old[entry_of(old, peer)] == peer,
        forall|j: int| 0 <= j < entry_of(old, peer) ==> !(peer is Some && #[trigger] old[j] == peer),
    decreases old.len(),
{
    if old.len() > 0 && !(peer is Some && old[0] == peer) {
        lemma_entry_of(old.skip(1), peer);
        assert forall|j: int| 0 <= j < entry_of(old, peer) implies !(peer is Some
            && #[trigger] old[j] == peer) by {
            if j > 0 {
                assert(old.skip(1)[j - 1] == old[j]);
            }
        }
    }
}

/// An entry takes its comments from the entry that its peer had, the first one if it had
/// several; without one it takes none, but for the first entry, which keeps what stands above the
/// section if the peer that had it is gone.
pub proof fn comments_follow_the_peer(
    old: Seq<Option<Seq<char>>>,
    peers: Seq<Option<Seq<char>>>,
    i: int,
    j: int,
)
    requires
        0 <= i < peers.len(),
        old.len() <= usize::MAX,
    ensures
        0 <= j < old.len() && peers[i] is Some && old[j] == peers[i] && (forall|k: int|
            0 <= k < j ==> #[trigger] old[k] != peers[i]) ==> source_of(old, peers, i) == Some(
            j as usize,
        ),
        (peers[i] is None || (forall|k: int| 0 <= k < old.len() ==> #[trigger] old[k] != peers[i]))
            ==> source_of(old, peers, i) == if i == 0 && old.len() > 0 && (old[0] is None || (
        forall|k: int| 0 <= k < peers.len() ==> #[trigger] peers[k] != old[0])) {
            Some(0usize)
        } else {
            None
        },
{
    lemma_entry_of(old, peers[i]);
    let e = entry_of(old, peers[i]);
    if 0 <= j < old.len() && peers[i] is Some && old[j] == peers[i] && (forall|k: int|
        0 <= k < j ==> #[trigger] old[k] != peers[i]) {
        if e < j {
            assert(old[e] == peers[i]);
        }
        if e > j {
            assert(old[j] == peers[i]);
        }
        assert(e == j);
    }
    if old.len() > 0 {
        if peers.contains(old[0]) {
            let k = choose|k: int| 0 <= k < peers.len() && peers[k] == old[0];
            assert(peers[k] == old[0]);
        }
    }
}

/// A field that already has its value is copied as it is written; one that changes is set, and
/// takes the comments it had; one that is new is set.
pub proof fn field_keeps_what_it_can(
    before: Seq<char>,
    text: Seq<char>,
    section: Seq<char>,
    at: Option<usize>,
    to: Option<usize>,
    key: Seq<char>,
    v: TomlValueModel,
    doc: TomlDocModel,
)
    requires
        toml_content(before) == Ok::<TomlDocModel, Seq<char>>(doc),
        plain(v),
    ensures
        ({
            let known = doc.fields(section, at).contains_key(key);
            let old = doc.fields(section, at)[key];
            let set = toml_set_field(text, section, to, key, v);
            let written = field_written(before, text, section, Some(at), to, (key, v));
            &&& known && old == v ==> written == toml_copy_field(before, text, section, at, to, key)
            &&& known && old != v && plain(old) ==> written == toml_copy_value(
                before,
                toml_copy_key(before, set, section, at, to, key),
                section,
                at,
                to,
                key,
            )
            &&& !known ==> written == set
            &&& field_written(before, text, section, None, to, (key, v)) == set
        }),
{
}

/// The fields of a table are written all and in order, then its header takes the comments that it
/// had.
pub proof fn fields_are_written_in_order(
    before: Seq<char>,
    text: Seq<char>,
    section: Seq<char>,
    from: Option<Option<usize>>,
    to: Option<usize>,
    fields: Seq<(Seq<char>, TomlValueModel)>,
    field: (Seq<char>, TomlValueModel),
)
    ensures
        fields_written(before, text, section, from, to, Seq::empty()) == text,
        fields_written(before, text, section, from, to, fields.push(field)) == field_written(
            before,
            fields_written(before, text, section, from, to, fields),
            section,
            from,
            to,
            field,
        ),
        from matches Some(at) ==> table_written(before, text, section, from, to, fields)
            == toml_copy_header(
            before,
            fields_written(before, text, section, from, to, fields),
            section,
            at,
            to,
        ),
        from is None ==> table_written(before, text, section, from, to, fields) == fields_written(
            before,
            text,
            section,
            from,
            to,
            fields,
        ),
{
    assert(fields.push(field).drop_last() =~= fields);
}

/// The last value of a name counts: a field that is set has its value, and the others are left
/// alone.
pub proof fn last_field_of_a_name_counts(
    fields: Seq<(Seq<char>, TomlValueModel)>,
    key: Seq<char>,
    v: TomlValueModel,
    other: Seq<char>,
)
    requires
        other != key,
    ensures
        fields_map(Seq::empty()) == Map::<Seq<char>, TomlValueModel>::empty(),
        fields_map(fields.push((key, v))).contains_key(key),
        fields_map(fields.push((key, v)))[key] == v,
        fields_map(fields.push((key, v))).contains_key(other) == fields_map(fields).contains_key(
            other,
        ),
        fields_map(fields).contains_key(other) ==> fields_map(fields.push((key, v)))[other]
            == fields_map(fields)[other],
{
    assert(fields.push((key, v)).drop_last() =~= fields);
}

/// A section that is set is the one that is read under its name, in the form of a table or of
/// entries, all of them and in order; an empty list of entries leaves nothing of that name.
pub proof fn section_is_read_as_it_was_set(
    doc: TomlDocModel,
    sections: Seq<(Seq<char>, TomlSectionModel)>,
    name: Seq<char>,
    section: TomlSectionModel,
    i: int,
)
    ensures
        ({
            let after = doc.with_sections(sections.push((name, section)));
            match section {
                TomlSectionModel::Table(fields) => after.has(name, None) && after.fields(name, None)
                    == fields_map(fields),
                TomlSectionModel::Tables(list) => if list.len() == 0 {
                    !after.mentions(name)
                } else {
                    &&& after.arrays.contains(name)
                    &&& after.content[name] is List
                    &&& after.content[name]->List_0.len() == list.len()
                    &&& 0 <= i < list.len() ==> after.content[name]->List_0[i]
                        == TomlValueModel::Table(fields_map(list[i]))
                },
            }
        }),
{
    assert(sections.push((name, section)).drop_last() =~= sections);
}

/// A text is writable unless a quote stands 256 times in a row in it.
pub proof fn writable_is_about_rows_of_quotes(text: Seq<char>, i: int, c: char)
    requires
        0 <= i,
        i + 256 <= text.len(),
        c == '"' || c == '\'',
        forall|j: int| i <= j < i + 256 ==> #[trigger] text[j] == c,
    ensures
        !writable(text),
{
    lemma_run(text, c, i, 256);
}

proof fn lemma_run(text: Seq<char>, c: char, i: int, n: nat)
    requires
        0 <= i,
        i + n <= text.len(),
        forall|j: int| i <= j < i + n ==> #[trigger] text[j] == c,
    ensures
        longest_run(text, c) >= n,
        i + n == text.len() ==> trailing_run(text, c) >= n,
    decreases text.len(), n,
{
    if n > 0 {
        let front = text.drop_last();
        if i + n == text.len() {
            assert(text[text.len() - 1] == c);
            assert forall|j: int| i <= j < i + (n - 1) implies #[trigger] front[j] == c by {
                assert(text[j] == c);
            }
            lemma_run(front, c, i, (n - 1) as nat);
        } else {
            assert forall|j: int| i <= j < i + n implies #[trigger] front[j] == c by {
                assert(text[j] == c);
            }
            lemma_run(front, c, i, n);
        }
    }
}

/// The sections are written one after the other. One that the document has is replaced there, with
/// the comments it had; one that it does not have follows the document, on a new line; and one
/// that is empty is not written.
pub proof fn sections_are_written_in_order(
    before: Seq<char>,
    sections: Seq<(Seq<char>, TomlSectionModel)>,
    name: Seq<char>,
    section: TomlSectionModel,
)
    ensures
        rewritten(before, Seq::empty()) == before,
        ({
            let text = rewritten(before, sections);
            let after = rewritten(before, sections.push((name, section)));
            let known = (toml_content(text)->Ok_0).mentions(name);
            let alone = section_replaced(Seq::empty(), Seq::empty(), name, section);
            &&& known ==> after == section_replaced(before, text, name, section)
            &&& !known && (section matches TomlSectionModel::Tables(list) && list.len() == 0)
                ==> after == text
            &&& !known && !(section matches TomlSectionModel::Tables(list) && list.len() == 0)
                ==> after == text + "\n"@ + alone
        }),
{
    assert(sections.push((name, section)).drop_last() =~= sections);
}

/// The entries of a section are written all and in order, each with the comments of the entry it
/// comes from, if there is one.
pub proof fn entries_are_written_in_order(
    before: Seq<char>,
    text: Seq<char>,
    section: Seq<char>,
    list: Seq<Seq<(Seq<char>, TomlValueModel)>>,
    n: nat,
)
    requires
        n < list.len(),
        n <= usize::MAX,
    ensures
        entries_written(before, text, section, list, 0) == text,
        ({
            let source = source_of(
                old_peers(toml_content(before)->Ok_0, section),
                new_peers(list),
                n as int,
            );
            let here = entries_written(before, text, section, list, n);
            let next = entries_written(before, text, section, list, n + 1);
            &&& source matches Some(j) ==> next == table_written(
                before,
                here,
                section,
                Some(Some(j)),
                Some(n as usize),
                list[n as int],
            )
            &&& source is None ==> next == table_written(
                before,
                here,
                section,
                None,
                Some(n as usize),
                list[n as int],
            )
        }),
{
}

/// A section that is replaced is a table with the comments of the table it was, or entries; a
/// section without entries is taken away, and what stood above it goes to the end if it is a
/// comment.
pub proof fn section_is_replaced_in_its_form(
    before: Seq<char>,
    text: Seq<char>,
    name: Seq<char>,
    fields: Seq<(Seq<char>, TomlValueModel)>,
    list: Seq<Seq<(Seq<char>, TomlValueModel)>>,
    doc: TomlDocModel,
)
    requires
        toml_content(before) == Ok::<TomlDocModel, Seq<char>>(doc),
        list.len() > 0,
    ensures
        section_replaced(before, text, name, TomlSectionModel::Table(fields)) == table_written(
            before,
            toml_put_table(text, name),
            name,
            if doc.has(name, None) {
                Some(None)
            } else {
                None
            },
            None,
            fields,
        ),
        section_replaced(before, text, name, TomlSectionModel::Tables(list)) == entries_written(
            before,
            toml_put_entries(text, name, list.len()),
            name,
            list,
            list.len(),
        ),
        ({
            let removed = section_replaced(
                before,
                text,
                name,
                TomlSectionModel::Tables(Seq::empty()),
            );
            let comment = toml_comment(before, name);
            let had = doc.arrays.contains(name) && doc.content[name]->List_0.len() > 0;
            &&& had && comment.contains('#') ==> removed == toml_keep_comment(
                before,
                toml_put_entries(text, name, 0),
                name,
            )
            &&& !(had && comment.contains('#')) ==> removed == toml_put_entries(text, name, 0)
        }),
{
}

/// The peers of the entries of a document, and of those to write, are the texts of their fields
/// `peer`, each at its place.
pub proof fn peers_of_entries_are_their_fields(
    doc: TomlDocModel,
    section: Seq<char>,
    list: Seq<Seq<(Seq<char>, TomlValueModel)>>,
    i: int,
)
    requires
        entry_count(doc, section) <= usize::MAX,
    ensures
        new_peers(list).len() == list.len(),
        0 <= i < list.len() ==> new_peers(list)[i] == (if fields_map(list[i]).contains_key("peer"@)
            && fields_map(list[i])["peer"@] is Text {
            Some(fields_map(list[i])["peer"@]->Text_0)
        } else {
            None
        }),
        doc.arrays.contains(section) ==> old_peers(doc, section).len()
            == doc.content[section]->List_0.len(),
        !doc.arrays.contains(section) ==> old_peers(doc, section).len() == 0,
        doc.arrays.contains(section) && 0 <= i < doc.content[section]->List_0.len() ==> {
            let fields = doc.content[section]->List_0[i]->Table_0;
            old_peers(doc, section)[i] == if fields.contains_key("peer"@)
                && fields["peer"@] is Text {
                Some(fields["peer"@]->Text_0)
            } else {
                None
            }
        },
{
}

} // verus!
