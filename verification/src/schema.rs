//! The schema discovered from the first stored record, and the column layout
//! derived from it.

use crate::json::{members_view, JsonValue, JsonView};
use crate::log_entry::{copy_optional_text, optional_text};
use crate::text::same_text;
use vstd::prelude::*;

verus! {

/// The display width of the ordinal column.
pub const ORDINAL_WIDTH: u32 = 80;

/// The display width of every other column.
pub const DEFAULT_WIDTH: u32 = 150;

/// The field names of the first stored record, behind the ordinal field `#`.
#[derive(Debug)]
pub struct Schema {
    pub fields: Vec<String>,
    pub initialized: bool,
}

/// The mathematical value of a [`Schema`].
pub struct SchemaView {
    pub fields: Seq<Seq<char>>,
    pub initialized: bool,
}

/// How one field is shown.
#[derive(Debug, PartialEq)]
pub struct ColumnConfig {
    pub field_name: String,
    pub width: u32,
    pub visible: bool,
    pub order: usize,
}

/// The mathematical value of a [`ColumnConfig`].
pub struct ColumnView {
    pub field_name: Seq<char>,
    pub width: u32,
    pub visible: bool,
    pub order: usize,
}

/// The column layout: one entry per field, and an optional theme.
#[derive(Debug, PartialEq)]
pub struct TableConfig {
    pub theme: Option<String>,
    pub columns: Vec<ColumnConfig>,
}

/// The mathematical value of a [`TableConfig`].
pub struct TableView {
    pub theme: Option<Seq<char>>,
    pub columns: Seq<ColumnView>,
}

/// The characters of each of a list of texts.
pub open spec fn names_view(names: Seq<String>) -> Seq<Seq<char>> {
    Seq::new(names.len(), |i: int| names[i]@)
}

/// The values of a list of columns, in order.
pub open spec fn columns_view(columns: Seq<ColumnConfig>) -> Seq<ColumnView> {
    Seq::new(columns.len(), |i: int| columns[i]@)
}

/// The names of the members of an object, in order.
pub open spec fn member_names(members: Seq<(Seq<char>, JsonView)>) -> Seq<Seq<char>> {
    Seq::new(members.len(), |i: int| members[i].0)
}

/// The fields discovered from a payload: the ordinal field `#`, then the
/// names of the payload's members in the order in which they occur.
pub open spec fn discovered_fields(members: Seq<(Seq<char>, JsonView)>) -> Seq<Seq<char>> {
    seq!["#"@] + member_names(members)
}

/// The schema after a record with a given payload was stored: the first
/// such record fixes it, and no later one changes it.
pub open spec fn schema_after(
    schema: SchemaView,
    members: Seq<(Seq<char>, JsonView)>,
) -> SchemaView {
    if schema.initialized {
        schema
    } else {
        SchemaView { fields: discovered_fields(members), initialized: true }
    }
}

/// Once a record has fixed the schema, no later record changes it.
pub proof fn lemma_schema_is_fixed_once(
    schema: SchemaView,
    first: Seq<(Seq<char>, JsonView)>,
    later: Seq<(Seq<char>, JsonView)>,
)
    ensures
        schema_after(schema_after(schema, first), later) == schema_after(schema, first),
        schema_after(schema, first).initialized,
        !schema.initialized ==> schema_after(schema, first).fields == discovered_fields(first),
{
}

/// The default layout of a list of fields: every field visible, in the
/// order of discovery, the ordinal field narrower than the others.
pub open spec fn default_columns(fields: Seq<Seq<char>>) -> Seq<ColumnView> {
    Seq::new(
        fields.len(),
        |i: int|
            ColumnView {
                field_name: fields[i],
                width: if fields[i] == "#"@ {
                    ORDINAL_WIDTH
                } else {
                    DEFAULT_WIDTH
                },
                visible: true,
                order: i as usize,
            },
    )
}

impl View for Schema {
    type V = SchemaView;

    open spec fn view(&self) -> SchemaView {
        SchemaView { fields: names_view(self.fields@), initialized: self.initialized }
    }
}

impl View for ColumnConfig {
    type V = ColumnView;

    open spec fn view(&self) -> ColumnView {
        ColumnView {
            field_name: self.field_name@,
            width: self.width,
            visible: self.visible,
            order: self.order,
        }
    }
}

impl View for TableConfig {
    type V = TableView;

    open spec fn view(&self) -> TableView {
        TableView { theme: optional_text(self.theme), columns: columns_view(self.columns@) }
    }
}

impl Clone for ColumnConfig {
    fn clone(&self) -> (copy: Self)
        ensures
            copy@ == self@,
    {
        ColumnConfig {
            field_name: self.field_name.clone(),
            width: self.width,
            visible: self.visible,
            order: self.order,
        }
    }
}

/// Copies a list of columns.
pub fn copy_columns(columns: &Vec<ColumnConfig>) -> (copies: Vec<ColumnConfig>)
    ensures
        columns_view(copies@) == columns_view(columns@),
        copies@.len() == columns@.len(),
{
    let mut copies: Vec<ColumnConfig> = Vec::new();
    let mut i: usize = 0;
    while i < columns.len()
        invariant
            i <= columns.len(),
            copies.len() == i,
            forall|k: int| 0 <= k < i ==> copies[k]@ == columns[k]@,
        decreases columns.len() - i,
    {
        copies.push(columns[i].clone());
        i += 1;
    }
    copies
}

impl Clone for TableConfig {
    fn clone(&self) -> (copy: Self)
        ensures
            copy@ == self@,
    {
        TableConfig { theme: copy_optional_text(&self.theme), columns: copy_columns(&self.columns) }
    }
}

impl Clone for Schema {
    fn clone(&self) -> (copy: Self)
        ensures
            copy@ == self@,
    {
        let mut fields: Vec<String> = Vec::new();
        let mut i: usize = 0;
        while i < self.fields.len()
            invariant
                i <= self.fields.len(),
                fields.len() == i,
                forall|k: int| 0 <= k < i ==> fields[k]@ == self.fields[k]@,
            decreases self.fields.len() - i,
        {
            fields.push(self.fields[i].clone());
            i += 1;
        }
        assert(names_view(fields@) =~= names_view(self.fields@));
        Schema { fields, initialized: self.initialized }
    }
}

impl Schema {
    /// The schema before any record was stored.
    pub fn new() -> (schema: Schema)
        ensures
            schema@ == (SchemaView { fields: Seq::empty(), initialized: false }),
    {
        let schema = Schema { fields: Vec::new(), initialized: false };
        assert(schema@.fields =~= Seq::empty());
        schema
    }

    /// Fixes the schema from a payload, unless it is fixed already.
    pub fn initialize_from_first_entry(&mut self, raw_fields: &Vec<(String, JsonValue)>)
        ensures
            final(self)@ == schema_after(old(self)@, members_view(raw_fields@)),
            final(self)@.initialized,
    {
        if !self.initialized {
            let mut fields: Vec<String> = Vec::new();
            fields.push("#".to_owned());
            let mut i: usize = 0;
            while i < raw_fields.len()
                invariant
                    i <= raw_fields.len(),
                    fields.len() == i + 1,
                    fields[0]@ == "#"@,
                    forall|k: int| 0 <= k < i ==> fields[k + 1]@ == raw_fields[k].0@,
                decreases raw_fields.len() - i,
            {
                fields.push(raw_fields[i].0.clone());
                i += 1;
            }
            assert(names_view(fields@) =~= discovered_fields(members_view(raw_fields@)));
            self.fields = fields;
            self.initialized = true;
        }
    }

    /// The default layout of the schema's fields.
    pub fn get_default_columns(&self) -> (columns: Vec<ColumnConfig>)
        ensures
            columns_view(columns@) == default_columns(self@.fields),
            columns@.len() == self@.fields.len(),
    {
        let mut columns: Vec<ColumnConfig> = Vec::new();
        let mut i: usize = 0;
        while i < self.fields.len()
            invariant
                i <= self.fields.len(),
                columns.len() == i,
                forall|k: int| 0 <= k < i ==> columns[k]@ == default_columns(self@.fields)[k],
            decreases self.fields.len() - i,
        {
            let width = if same_text(self.fields[i].as_str(), "#") {
                ORDINAL_WIDTH
            } else {
                DEFAULT_WIDTH
            };
            columns.push(
                ColumnConfig { field_name: self.fields[i].clone(), width, visible: true, order: i },
            );
            i += 1;
        }
        columns
    }
}

impl Default for Schema {
    fn default() -> (schema: Schema)
        ensures
            schema@ == (SchemaView { fields: Seq::empty(), initialized: false }),
    {
        Schema::new()
    }
}

} // verus!
