//! Tables as the planner sees them: identity, engine, schema.

use crate::error::ErrorCode;
use crate::error::ErrorKind;
use crate::part::ColumnId;
use crate::scalar::DataType;
use vstd::prelude::*;
use vstd::string::StringExecFns;

verus! {

/// The position of a field in a schema.
pub type FieldIndex = usize;

/// A table's identity: its number, and the version of its metadata.
/// The version grows with every change that is published.
#[derive(Clone, Copy, Debug, PartialEq, Eq, Structural)]
pub struct TableIdent {
    pub table_id: u64,
    pub seq: u64,
}

/// The engine that holds a table's data.
#[derive(Clone, Copy, Debug, PartialEq, Eq, Structural)]
pub enum Engine {
    /// The snapshot-versioned columnar engine.
    Fuse,
    View,
    Stream,
    Memory,
}

/// The kind of database that a table belongs to.
#[derive(Clone, Copy, Debug, PartialEq, Eq, Structural)]
pub enum DatabaseType {
    NormalDB,
    ShareDB,
}

impl Engine {
    /// The engine's name as it is written in statements and messages.
    pub open spec fn spec_name(self) -> Seq<char> {
        match self {
            Engine::Fuse => "FUSE"@,
            Engine::View => "VIEW"@,
            Engine::Stream => "STREAM"@,
            Engine::Memory => "MEMORY"@,
        }
    }

    /// The engine's name.
    pub fn name(&self) -> (name: &'static str)
        ensures
            name@ == self.spec_name(),
    {
        match self {
            Engine::Fuse => "FUSE",
            Engine::View => "VIEW",
            Engine::Stream => "STREAM",
            Engine::Memory => "MEMORY",
        }
    }

    /// Whether rows of a table of this engine are kept in blocks that a
    /// mutation can replace.
    pub open spec fn spec_is_physical(&self) -> bool {
        *self == Engine::Fuse
    }

    /// Whether a table of this engine takes UPDATE and DELETE.
    #[verifier::when_used_as_spec(spec_is_physical)]
    pub fn is_physical(&self) -> (b: bool)
        ensures
            b == self.spec_is_physical(),
    {
        match self {
            Engine::Fuse => true,
            _ => false,
        }
    }

    /// Whether a table of this engine takes a change of its columns.
    pub open spec fn spec_is_alterable(&self) -> bool {
        *self != Engine::View && *self != Engine::Stream
    }

    /// Whether a table of this engine takes a change of its columns.
    #[verifier::when_used_as_spec(spec_is_alterable)]
    pub fn is_alterable(&self) -> (b: bool)
        ensures
            b == self.spec_is_alterable(),
    {
        match self {
            Engine::View => false,
            Engine::Stream => false,
            _ => true,
        }
    }
}

/// One column of a table.
#[derive(Debug)]
pub struct TableField {
    pub name: String,
    pub data_type: DataType,
    /// The expression that gives the value where a row has none.
    pub default_expr: Option<String>,
    /// The expression from which a stored computed column is derived.
    pub computed_expr: Option<String>,
    pub column_id: ColumnId,
}

/// The mathematical value of a [`TableField`].
pub struct TableFieldView {
    pub name: Seq<char>,
    pub data_type: DataType,
    pub default_expr: Option<Seq<char>>,
    pub computed_expr: Option<Seq<char>>,
    pub column_id: ColumnId,
}

impl View for TableField {
    type V = TableFieldView;

    open spec fn view(&self) -> TableFieldView {
        TableFieldView {
            name: self.name@,
            data_type: self.data_type,
            default_expr: match self.default_expr {
                Some(e) => Some(e@),
                None => None,
            },
            computed_expr: match self.computed_expr {
                Some(e) => Some(e@),
                None => None,
            },
            column_id: self.column_id,
        }
    }
}

impl TableField {
    /// A copy of this field.
    pub fn duplicate(&self) -> (copy: TableField)
        ensures
            copy@ == self@,
    {
        TableField {
            name: self.name.clone(),
            data_type: self.data_type,
            default_expr: match &self.default_expr {
                Some(e) => Some(e.clone()),
                None => None,
            },
            computed_expr: match &self.computed_expr {
                Some(e) => Some(e.clone()),
                None => None,
            },
            column_id: self.column_id,
        }
    }
}

/// The columns of a table, in order, and the id that the next new column
/// will get.
#[derive(Debug)]
pub struct TableSchema {
    pub fields: Vec<TableField>,
    pub next_column_id: ColumnId,
}

/// The mathematical value of a [`TableSchema`].
pub struct TableSchemaView {
    pub fields: Seq<TableFieldView>,
    pub next_column_id: ColumnId,
}

impl View for TableSchema {
    type V = TableSchemaView;

    open spec fn view(&self) -> TableSchemaView {
        TableSchemaView {
            fields: Seq::new(self.fields@.len(), |i: int| self.fields@[i]@),
            next_column_id: self.next_column_id,
        }
    }
}

impl TableSchemaView {
    /// Whether a field of the schema has the given name.
    pub open spec fn has_field(self, name: Seq<char>) -> bool {
        exists|i: int| 0 <= i < self.fields.len() && #[trigger] self.fields[i].name == name
    }

    /// Whether `i` is the position of the first field with the given name.
    pub open spec fn is_index_of(self, name: Seq<char>, i: int) -> bool {
        &&& 0 <= i < self.fields.len()
        &&& self.fields[i].name == name
        &&& forall|j: int| 0 <= j < i ==> #[trigger] self.fields[j].name != name
    }

    /// The position of the first field with the given name, where there
    /// is one.
    pub open spec fn index_of(self, name: Seq<char>) -> Option<int>
        decreases self.fields.len(),
    {
        if self.fields.len() == 0 {
            None
        } else {
            let earlier = (TableSchemaView { fields: self.fields.drop_last(), ..self }).index_of(
                name,
            );
            if earlier is Some {
                earlier
            } else if self.fields.last().name == name {
                Some(self.fields.len() - 1)
            } else {
                None
            }
        }
    }

    /// The schema with `field` put in at position `index` under the next
    /// free column id.
    pub open spec fn with_column(self, field: TableFieldView, index: int) -> TableSchemaView {
        TableSchemaView {
            fields: self.fields.insert(
                index,
                TableFieldView { column_id: self.next_column_id, ..field },
            ),
            next_column_id: (self.next_column_id + 1) as ColumnId,
        }
    }
}

/// The error for a name that no field of the schema has.
pub open spec fn unknown_field(name: Seq<char>) -> crate::error::ErrorView {
    crate::error::ErrorView {
        kind: ErrorKind::SchemaMismatch,
        message: "Unable to get field named \""@ + name + "\""@,
    }
}

/// The position that `index_of` gives is that of the first field with the
/// name, and it gives none exactly where no field has the name.
pub proof fn lemma_index_of(schema: TableSchemaView, name: Seq<char>)
    ensures
        match schema.index_of(name) {
            Some(i) => schema.is_index_of(name, i),
            None => !schema.has_field(name),
        },
        forall|i: int| schema.is_index_of(name, i) ==> schema.index_of(name) == Some(i),
    decreases schema.fields.len(),
{
    if schema.fields.len() > 0 {
        let shorter = TableSchemaView { fields: schema.fields.drop_last(), ..schema };
        lemma_index_of(shorter, name);
        assert forall|j: int| 0 <= j < shorter.fields.len() implies shorter.fields[j]
            == schema.fields[j] by {}
        match shorter.index_of(name) {
            Some(i) => {
                assert(schema.is_index_of(name, i)) by {
                    assert(schema.fields[i] == shorter.fields[i]);
                    assert forall|j: int| 0 <= j < i implies #[trigger] schema.fields[j].name
                        != name by {
                        assert(shorter.fields[j].name != name);
                    }
                }
            },
            None => {
                assert forall|j: int| 0 <= j < shorter.fields.len() implies #[trigger] schema.fields[j].name
                    != name by {
                    if schema.fields[j].name == name {
                        assert(shorter.fields[j].name == name);
                        assert(shorter.has_field(name));
                    }
                }
            },
        }
        assert forall|i: int| schema.is_index_of(name, i) implies schema.index_of(name) == Some(
            i,
        ) by {
            match schema.index_of(name) {
                Some(k) => {
                    assert(schema.is_index_of(name, k));
                    if k < i {
                        assert(schema.fields[k].name != name);
                    }
                    if i < k {
                        assert(schema.fields[i].name != name);
                    }
                },
                None => {
                    assert(schema.fields[i].name == name);
                    assert(schema.has_field(name));
                },
            }
        }
    }
}

impl TableSchema {
    /// The number of fields.
    pub fn num_fields(&self) -> (n: usize)
        ensures
            n == self@.fields.len(),
    {
        self.fields.len()
    }

    /// The position of the first field named `name`, or a schema-mismatch
    /// error where the schema has none.
    pub fn index_of(&self, name: &String) -> (found: Result<FieldIndex, ErrorCode>)
        ensures
            match found {
                Ok(i) => self@.index_of(name@) == Some(i as int) && self@.is_index_of(
                    name@,
                    i as int,
                ),
                Err(e) => self@.index_of(name@) is None && !self@.has_field(name@) && e@
                    == unknown_field(name@),
            },
    {
        let mut i: usize = 0;
        proof {
            lemma_index_of(self@, name@);
        }
        while i < self.fields.len()
            invariant
                i <= self.fields.len(),
                forall|j: int| 0 <= j < i ==> #[trigger] self@.fields[j].name != name@,
            decreases self.fields.len() - i,
        {
            if self.fields[i].name == *name {
                proof {
                    lemma_index_of(self@, name@);
                    assert(self@.is_index_of(name@, i as int));
                }
                return Ok(i);
            }
            i = i + 1;
        }
        proof {
            lemma_index_of(self@, name@);
        }
        let message = String::from_str("Unable to get field named \"").concat(
            name.as_str(),
        ).concat("\"");
        Err(ErrorCode { kind: ErrorKind::SchemaMismatch, message })
    }

    /// Puts a copy of `field` in at position `index`, under the next free
    /// column id. A field whose name the schema already has is refused,
    /// and so is a schema that has no column id left; the schema is then
    /// left as it was.
    pub fn add_column(&mut self, field: &TableField, index: usize) -> (done: Result<(), ErrorCode>)
        requires
            index <= old(self)@.fields.len(),
        ensures
            match done {
                Ok(_) => {
                    &&& !old(self)@.has_field(field@.name)
                    &&& old(self).next_column_id < ColumnId::MAX
                    &&& final(self)@ == old(self)@.with_column(field@, index as int)
                },
                Err(e) => {
                    &&& final(self)@ == old(self)@
                    &&& e.kind == ErrorKind::SchemaMismatch
                    &&& e.message@ == if old(self)@.has_field(field@.name) {
                        "add column "@ + field@.name + " already exist"@
                    } else {
                        "no column id is left"@
                    }
                    &&& old(self)@.has_field(field@.name) || old(self).next_column_id
                        == ColumnId::MAX
                },
            },
    {
        let known = self.index_of(&field.name);
        if known.is_ok() {
            let message = String::from_str("add column ").concat(field.name.as_str()).concat(
                " already exist",
            );
            return Err(ErrorCode { kind: ErrorKind::SchemaMismatch, message });
        }
        if self.next_column_id == ColumnId::MAX {
            return Err(ErrorCode::create(ErrorKind::SchemaMismatch, "no column id is left"));
        }
        let mut added = field.duplicate();
        added.column_id = self.next_column_id;
        self.fields.insert(index, added);
        self.next_column_id = self.next_column_id + 1;
        assert(self@.fields =~= old(self)@.with_column(field@, index as int).fields);
        Ok(())
    }

    /// A copy of this schema.
    pub fn duplicate(&self) -> (copy: TableSchema)
        ensures
            copy@ == self@,
    {
        let mut fields: Vec<TableField> = Vec::new();
        let mut i: usize = 0;
        while i < self.fields.len()
            invariant
                i <= self.fields.len(),
                fields@.len() == i,
                forall|j: int| 0 <= j < i ==> #[trigger] fields@[j]@ == self.fields@[j]@,
            decreases self.fields.len() - i,
        {
            fields.push(self.fields[i].duplicate());
            i = i + 1;
        }
        let copy = TableSchema { fields, next_column_id: self.next_column_id };
        assert(copy@.fields =~= self@.fields);
        copy
    }
}

/// The views of a sequence of strings.
pub open spec fn string_views(strings: Seq<String>) -> Seq<Seq<char>> {
    Seq::new(strings.len(), |i: int| strings[i]@)
}

/// A copy of a sequence of strings.
pub fn duplicate_strings(strings: &Vec<String>) -> (copy: Vec<String>)
    ensures
        string_views(copy@) == string_views(strings@),
{
    let mut copy: Vec<String> = Vec::new();
    let mut i: usize = 0;
    while i < strings.len()
        invariant
            i <= strings.len(),
            copy@.len() == i,
            forall|j: int| 0 <= j < i ==> #[trigger] copy@[j]@ == strings@[j]@,
        decreases strings.len() - i,
    {
        copy.push(strings[i].clone());
        i = i + 1;
    }
    assert(string_views(copy@) =~= string_views(strings@));
    copy
}

/// The part of a table's description that a change of the table
/// replaces: its engine, its columns with their comments, and the place of
/// the snapshot that holds its content.
#[derive(Debug)]
pub struct TableMeta {
    pub schema: TableSchema,
    pub engine: Engine,
    /// One comment for each field of the schema.
    pub field_comments: Vec<String>,
    pub snapshot_location: Option<String>,
}

/// The mathematical value of a [`TableMeta`].
pub struct TableMetaView {
    pub schema: TableSchemaView,
    pub engine: Engine,
    pub field_comments: Seq<Seq<char>>,
    pub snapshot_location: Option<Seq<char>>,
}

impl View for TableMeta {
    type V = TableMetaView;

    open spec fn view(&self) -> TableMetaView {
        TableMetaView {
            schema: self.schema@,
            engine: self.engine,
            field_comments: string_views(self.field_comments@),
            snapshot_location: match self.snapshot_location {
                Some(location) => Some(location@),
                None => None,
            },
        }
    }
}

impl TableMetaView {
    /// The comments of the fields: those that are kept, where there is
    /// one for each field; else an empty comment for each field.
    pub open spec fn filled_comments(self) -> Seq<Seq<char>> {
        if self.field_comments.len() == self.schema.fields.len() {
            self.field_comments
        } else {
            Seq::new(self.schema.fields.len(), |i: int| Seq::<char>::empty())
        }
    }

    /// The description with `field` put in at position `index`, under the
    /// next free column id and with the given comment.
    pub open spec fn with_column(
        self,
        field: TableFieldView,
        comment: Seq<char>,
        index: int,
    ) -> TableMetaView {
        TableMetaView {
            schema: self.schema.with_column(field, index),
            field_comments: self.filled_comments().insert(index, comment),
            ..self
        }
    }
}

impl TableMeta {
    /// A copy of this description.
    pub fn duplicate(&self) -> (copy: TableMeta)
        ensures
            copy@ == self@,
    {
        TableMeta {
            schema: self.schema.duplicate(),
            engine: self.engine,
            field_comments: duplicate_strings(&self.field_comments),
            snapshot_location: match &self.snapshot_location {
                Some(location) => Some(location.clone()),
                None => None,
            },
        }
    }

    /// Puts a copy of `field` in at position `index` with the given
    /// comment. Where the schema refuses the field, nothing is changed.
    pub fn add_column(&mut self, field: &TableField, comment: &String, index: usize) -> (done:
        Result<(), ErrorCode>)
        requires
            index <= old(self)@.schema.fields.len(),
        ensures
            match done {
                Ok(_) => {
                    &&& !old(self)@.schema.has_field(field@.name)
                    &&& old(self).schema.next_column_id < ColumnId::MAX
                    &&& final(self)@ == old(self)@.with_column(field@, comment@, index as int)
                },
                Err(e) => {
                    &&& final(self)@ == old(self)@
                    &&& e.kind == ErrorKind::SchemaMismatch
                    &&& e.message@ == if old(self)@.schema.has_field(field@.name) {
                        "add column "@ + field@.name + " already exist"@
                    } else {
                        "no column id is left"@
                    }
                    &&& old(self)@.schema.has_field(field@.name) || old(self).schema.next_column_id
                        == ColumnId::MAX
                },
            },
    {
        let fields = self.schema.num_fields();
        match self.schema.add_column(field, index) {
            Ok(_) => {
                if self.field_comments.len() != fields {
                    let mut comments: Vec<String> = Vec::new();
                    let mut i: usize = 0;
                    while i < fields
                        invariant
                            i <= fields,
                            comments@.len() == i,
                            forall|k: int| 0 <= k < i ==> (#[trigger] comments@[k])@ == Seq::<
                                char,
                            >::empty(),
                        decreases fields - i,
                    {
                        comments.push(String::new());
                        i = i + 1;
                    }
                    self.field_comments = comments;
                    assert(string_views(self.field_comments@) =~= old(self)@.filled_comments());
                }
                self.field_comments.insert(index, comment.clone());
                assert(self@.field_comments =~= old(self)@.filled_comments().insert(
                    index as int,
                    comment@,
                ));
                Ok(())
            },
            Err(e) => Err(e),
        }
    }
}

/// What a table is: its identity, its names and its description.
#[derive(Debug)]
pub struct TableInfo {
    pub ident: TableIdent,
    /// The table's description, as `'database'.'table'`.
    pub desc: String,
    pub name: String,
    pub meta: TableMeta,
    pub db_type: DatabaseType,
    /// Whether the table is attached for reading only.
    pub read_only: bool,
    /// Whether the table keeps the history of changes to its rows.
    pub change_tracking: bool,
}

/// The mathematical value of a [`TableInfo`].
pub struct TableInfoView {
    pub ident: TableIdent,
    pub desc: Seq<char>,
    pub name: Seq<char>,
    pub meta: TableMetaView,
    pub db_type: DatabaseType,
    pub read_only: bool,
    pub change_tracking: bool,
}

impl View for TableInfo {
    type V = TableInfoView;

    open spec fn view(&self) -> TableInfoView {
        TableInfoView {
            ident: self.ident,
            desc: self.desc@,
            name: self.name@,
            meta: self.meta@,
            db_type: self.db_type,
            read_only: self.read_only,
            change_tracking: self.change_tracking,
        }
    }
}

impl TableInfoView {
    /// Whether the table takes UPDATE and DELETE: its engine keeps blocks,
    /// and it is not attached for reading only.
    pub open spec fn is_mutable(self) -> bool {
        self.meta.engine.spec_is_physical() && !self.read_only
    }

    /// The words with which a table that takes no UPDATE is refused.
    pub open spec fn not_mutable_message(self) -> Seq<char> {
        "table "@ + self.name + ", engine type "@ + self.meta.engine.spec_name()
            + ", does not support UPDATE"@
    }
}

impl TableInfo {
    /// A copy of this description.
    pub fn duplicate(&self) -> (copy: TableInfo)
        ensures
            copy@ == self@,
    {
        TableInfo {
            ident: self.ident,
            desc: self.desc.clone(),
            name: self.name.clone(),
            meta: self.meta.duplicate(),
            db_type: self.db_type,
            read_only: self.read_only,
            change_tracking: self.change_tracking,
        }
    }

    /// The engine of the table.
    pub fn engine(&self) -> (engine: Engine)
        ensures
            engine == self@.meta.engine,
    {
        self.meta.engine
    }

    /// Passes where the table takes UPDATE and DELETE. A table whose engine
    /// keeps no blocks, or that is attached for reading only, is refused
    /// with an error that names the table and its engine.
    pub fn check_mutable(&self) -> (checked: Result<(), ErrorCode>)
        ensures
            checked is Ok <==> self@.is_mutable(),
            checked matches Err(e) ==> e.kind == ErrorKind::EngineNotSupported && e.message@
                == self@.not_mutable_message(),
    {
        if self.meta.engine.is_physical() && !self.read_only {
            Ok(())
        } else {
            let message = String::from_str("table ").concat(self.name.as_str()).concat(
                ", engine type ",
            ).concat(self.meta.engine.name()).concat(", does not support UPDATE");
            Err(ErrorCode { kind: ErrorKind::EngineNotSupported, message })
        }
    }
}

/// The catalog that a table was found in.
#[derive(Debug)]
pub struct CatalogInfo {
    pub name: String,
}

impl View for CatalogInfo {
    type V = Seq<char>;

    open spec fn view(&self) -> Seq<char> {
        self.name@
    }
}

impl CatalogInfo {
    /// A copy of this description.
    pub fn duplicate(&self) -> (copy: CatalogInfo)
        ensures
            copy@ == self@,
    {
        CatalogInfo { name: self.name.clone() }
    }
}

} // verus!
