//! The schema tool: the columns of a table, read from what the
//! datastore tells about it.

use vstd::prelude::*;
use super::{string_parameter, string_parameter_schema, SurrealDbConfig, SurrealError, ToolDefinition};
use crate::json::{
    bool_text, bool_to_text, lemma_member_models, lookup, member_models, member_names,
    number_text, sorted_member_order, Json, JsonValue,
};
use crate::sorting::{
    is_sorted, lemma_sorted_order, lemma_sorted_order_of_sorted, positions, sorted_order,
};
use crate::text::{all_whitespace, is_blank, lex_le, same_text};

verus! {

/// Arguments of the schema tool.
pub struct SurrealSchemaArgs {
    /// Name of the table to describe.
    pub table_name: String,
}

/// One column of a table.
#[derive(Debug, PartialEq, Eq)]
pub struct TableColumn {
    pub name: String,
    pub data_type: String,
    pub nullable: bool,
    pub default_value: Option<String>,
}

/// A table's name and its columns, ordered by column name.
#[derive(Debug, PartialEq, Eq)]
pub struct TableSchema {
    pub table_name: String,
    pub columns: Vec<TableColumn>,
}

/// The mathematical value of a [`TableColumn`].
pub struct ColumnModel {
    pub name: Seq<char>,
    pub data_type: Seq<char>,
    pub nullable: bool,
    pub default_value: Option<Seq<char>>,
}

/// The mathematical value of a [`TableSchema`].
pub struct SchemaModel {
    pub table_name: Seq<char>,
    pub columns: Seq<ColumnModel>,
}

impl View for TableColumn {
    type V = ColumnModel;

    open spec fn view(&self) -> ColumnModel {
        ColumnModel {
            name: self.name@,
            data_type: self.data_type@,
            nullable: self.nullable,
            default_value: match self.default_value {
                Some(text) => Some(text@),
                None => None,
            },
        }
    }
}

impl View for TableSchema {
    type V = SchemaModel;

    open spec fn view(&self) -> SchemaModel {
        SchemaModel {
            table_name: self.table_name@,
            columns: self.columns@.map_values(|column: TableColumn| column@),
        }
    }
}

/// The data type that a field's description states: a type name as it
/// is; of a compound type its kind, an array with its item type in angle
/// brackets where it names one; `complex` where a compound type has no
/// kind, `unknown` where no type is described.
pub open spec fn field_type(info: Json) -> Seq<char> {
    match info.get("type"@) {
        Some(Json::String(name)) => name,
        Some(Json::Object(descriptor)) => match lookup(descriptor, "kind"@) {
            Some(Json::String(kind)) => if kind == "array"@ {
                match lookup(descriptor, "items"@) {
                    Some(Json::String(items)) => "array<"@ + items + ">"@,
                    _ => "array"@,
                }
            } else {
                kind
            },
            _ => "complex"@,
        },
        _ => "unknown"@,
    }
}

/// Whether a field may be absent: what its description says, and yes
/// where it says nothing.
pub open spec fn field_nullable(info: Json) -> bool {
    match info.get("nullable"@) {
        Some(Json::Bool(nullable)) => nullable,
        _ => true,
    }
}

/// The default that a field's description states, as text, where it is
/// a string, a number, a truth value or null.
pub open spec fn field_default(info: Json) -> Option<Seq<char>> {
    match info.get("default"@) {
        Some(Json::String(text)) => Some(text),
        Some(Json::Number(number)) => Some(number_text(number)),
        Some(Json::Bool(b)) => Some(bool_text(b)),
        Some(Json::Null) => Some("null"@),
        _ => None,
    }
}

/// The column that a field and its description stand for.
pub open spec fn column_of(field: (Seq<char>, Json)) -> ColumnModel {
    ColumnModel {
        name: field.0,
        data_type: field_type(field.1),
        nullable: field_nullable(field.1),
        default_value: field_default(field.1),
    }
}

/// The columns of the fields at the positions that `order` lists.
pub open spec fn columns_in_order(fields: Seq<(Seq<char>, Json)>, order: Seq<int>) -> Seq<
    ColumnModel,
> {
    order.map_values(|at: int| column_of(fields[at]))
}

/// The columns that `fields` describes, sorted by name: one for each
/// member where it is an object, none where it is anything else.
pub open spec fn columns_of(fields: Json) -> Seq<ColumnModel> {
    match fields {
        Json::Object(members) => columns_in_order(members, sorted_order(member_names(members))),
        _ => Seq::empty(),
    }
}

/// The schema that the datastore's description `info` of a table
/// states, where it has a member `fields`.
pub open spec fn table_schema(table_name: Seq<char>, info: Json) -> Option<SchemaModel> {
    match info.get("fields"@) {
        Some(fields) => Some(SchemaModel { table_name, columns: columns_of(fields) }),
        None => None,
    }
}

/// The names of `columns`, in order.
pub open spec fn column_names(columns: Seq<ColumnModel>) -> Seq<Seq<char>> {
    columns.map_values(|column: ColumnModel| column.name)
}

impl SchemaModel {
    /// The columns stand in the order of their names.
    pub open spec fn ordered(self) -> bool {
        is_sorted(column_names(self.columns))
    }
}

/// The field that describes `column`: its type by name, whether it may
/// be absent, and its default as a string where it has one.
pub open spec fn column_as_field(column: ColumnModel) -> (Seq<char>, Json) {
    (
        column.name,
        Json::Object(
            seq![
                ("type"@, Json::String(column.data_type)),
                ("nullable"@, Json::Bool(column.nullable)),
            ] + match column.default_value {
                Some(text) => seq![("default"@, Json::String(text))],
                None => Seq::empty(),
            },
        ),
    )
}

/// A description of a table that states `schema`: an object whose one
/// member `fields` holds a field for each column, in order.
pub open spec fn schema_as_info(schema: SchemaModel) -> Json {
    Json::Object(
        seq![
            (
                "fields"@,
                Json::Object(schema.columns.map_values(|column: ColumnModel| column_as_field(column))),
            ),
        ],
    )
}

/// Why a table name is refused, if it is: it is empty or white space
/// only.
pub open spec fn table_name_fault(table_name: Seq<char>) -> Option<Seq<char>> {
    if all_whitespace(table_name) {
        Some("Table name cannot be empty"@)
    } else {
        None
    }
}

/// The outcome of asking for the schema of a table, given what the
/// gateway handed back for the statement that asks: a refused name
/// comes first, then the gateway's error, unchanged; then the reading
/// of the description.
pub open spec fn schema_outcome(
    table_name: Seq<char>,
    reply: Result<JsonValue, SurrealError>,
    outcome: Result<TableSchema, SurrealError>,
) -> bool {
    match outcome {
        Ok(schema) => {
            &&& table_name_fault(table_name) is None
            &&& reply matches Ok(info)
            &&& table_schema(table_name, info@) == Some(schema@)
            &&& schema@.ordered()
        },
        Err(error) => if table_name_fault(table_name) is Some {
            &&& error matches SurrealError::InvalidInput(reason)
            &&& table_name_fault(table_name) == Some(reason@)
        } else {
            match reply {
                Err(failure) => error == failure,
                Ok(info) => {
                    &&& table_schema(table_name, info@) is None
                    &&& error matches SurrealError::QueryError(reason)
                    &&& reason@ == "No fields found in table info"@
                },
            }
        },
    }
}

/// The statement that asks the datastore to describe a table.
pub open spec fn introspection_query(table_name: Seq<char>) -> Seq<char> {
    "INFO FOR TABLE "@ + table_name
}

/// Tool that describes the columns of a table.
#[derive(Debug)]
pub struct SurrealSchemaTool {
    config: SurrealDbConfig,
}

impl Clone for SurrealSchemaTool {
    fn clone(&self) -> (tool: Self)
        ensures
            tool.config() == self.config(),
    {
        Self { config: self.config.clone() }
    }
}

/// The data type that a field's description states.
fn field_type_of(info: &JsonValue) -> (data_type: String)
    ensures
        data_type@ == field_type(info@),
{
    match info.get("type") {
        Some(JsonValue::String(name)) => name.clone(),
        Some(JsonValue::Object(members)) => {
            let descriptor = JsonValue::get_member(members, "kind");
            match descriptor {
                Some(JsonValue::String(kind)) => {
                    if same_text(kind.as_str(), "array") {
                        match JsonValue::get_member(members, "items") {
                            Some(JsonValue::String(items)) => {
                                let mut data_type = "array<".to_owned();
                                data_type.append(items.as_str());
                                data_type.append(">");
                                data_type
                            },
                            _ => "array".to_owned(),
                        }
                    } else {
                        kind.clone()
                    }
                },
                _ => "complex".to_owned(),
            }
        },
        _ => "unknown".to_owned(),
    }
}

/// Whether a field may be absent.
fn field_nullable_of(info: &JsonValue) -> (nullable: bool)
    ensures
        nullable == field_nullable(info@),
{
    match info.get("nullable") {
        Some(JsonValue::Bool(nullable)) => *nullable,
        _ => true,
    }
}

/// The default that a field's description states, as text.
fn field_default_of(info: &JsonValue) -> (default_value: Option<String>)
    ensures
        match default_value {
            Some(text) => field_default(info@) == Some(text@),
            None => field_default(info@) is None,
        },
{
    match info.get("default") {
        Some(JsonValue::String(text)) => Some(text.clone()),
        Some(JsonValue::Number(number)) => Some(number.to_text()),
        Some(JsonValue::Bool(b)) => Some(bool_to_text(*b)),
        Some(JsonValue::Null) => Some("null".to_owned()),
        _ => None,
    }
}

impl SurrealSchemaTool {
    /// The connection values this tool was made with.
    pub closed spec fn config(&self) -> SurrealDbConfig {
        self.config
    }

    /// A schema tool bound to `config`.
    pub fn new(config: SurrealDbConfig) -> (tool: Self)
        ensures
            tool.config() == config,
    {
        Self { config }
    }

    /// The connection values that the statements of this tool are sent
    /// with.
    pub fn connection(&self) -> (config: &SurrealDbConfig)
        ensures
            *config == self.config(),
    {
        &self.config
    }

    /// The name under which a language model calls this tool.
    pub fn name(&self) -> (name: String)
        ensures
            name@ == "surreal_schema"@,
    {
        "surreal_schema".to_owned()
    }

    /// How this tool presents itself to a language model, whatever the
    /// prompt: it takes one required string, `table_name`.
    pub fn definition(&self, _prompt: String) -> (definition: ToolDefinition)
        ensures
            definition.name@ == "surreal_schema"@,
            definition.description@
                == "Get column information and types for a SurrealDB table. Returns structured information about all columns including their names, data types, nullability, and default values."@,
            definition.parameters@ == string_parameter(
                "table_name"@,
                "The name of the table to get schema information for"@,
            ),
    {
        ToolDefinition {
            name: "surreal_schema".to_owned(),
            description: "Get column information and types for a SurrealDB table. Returns structured information about all columns including their names, data types, nullability, and default values.".to_owned(),
            parameters: string_parameter_schema(
                "table_name",
                "The name of the table to get schema information for",
            ),
        }
    }

    /// Decides what to do with a call: refuse a table name that is empty
    /// or white space only, before anything is sent, or hand back the
    /// statement that asks the datastore to describe the table.
    pub fn prepare(&self, args: &SurrealSchemaArgs) -> (plan: Result<String, SurrealError>)
        ensures
            match plan {
                Ok(statement) => table_name_fault(args.table_name@) is None && statement@
                    == introspection_query(args.table_name@),
                Err(SurrealError::InvalidInput(reason)) => table_name_fault(args.table_name@)
                    == Some(reason@),
                Err(_) => false,
            },
    {
        if is_blank(args.table_name.as_str()) {
            return Err(SurrealError::InvalidInput("Table name cannot be empty".to_owned()));
        }
        let mut statement = "INFO FOR TABLE ".to_owned();
        statement.append(args.table_name.as_str());
        Ok(statement)
    }

    /// The schema of the table `table_name`, given the gateway's reply
    /// to the statement that [`Self::prepare`] hands out for it. A
    /// refused name and an error of the gateway are handed on; a
    /// description is read with [`Self::parse_table_info`].
    pub fn get_schema(&self, table_name: &str, reply: Result<JsonValue, SurrealError>) -> (outcome:
        Result<TableSchema, SurrealError>)
        ensures
            schema_outcome(table_name@, reply, outcome),
    {
        if is_blank(table_name) {
            return Err(SurrealError::InvalidInput("Table name cannot be empty".to_owned()));
        }
        match reply {
            Err(failure) => Err(failure),
            Ok(info) => self.parse_table_info(table_name, &info),
        }
    }

    /// Reads the schema of a table from the datastore's description of
    /// it: one column for each member of `fields`, sorted by name. A
    /// description without `fields` is an error.
    pub fn parse_table_info(&self, table_name: &str, info: &JsonValue) -> (parsed: Result<
        TableSchema,
        SurrealError,
    >)
        ensures
            match parsed {
                Ok(schema) => table_schema(table_name@, info@) == Some(schema@) && schema@.ordered(),
                Err(SurrealError::QueryError(reason)) => table_schema(table_name@, info@) is None
                    && reason@ == "No fields found in table info"@,
                Err(_) => false,
            },
    {
        proof {
            if table_schema(table_name@, info@) is Some {
                lemma_parsed_schema_round_trip(table_name@, info@);
            }
        }
        let fields = match info.get("fields") {
            Some(fields) => fields,
            None => {
                return Err(SurrealError::QueryError("No fields found in table info".to_owned()));
            },
        };
        let mut columns: Vec<TableColumn> = Vec::new();
        if let JsonValue::Object(members) = fields {
            let ghost models = member_models(members@);
            proof {
                lemma_member_models(members@);
            }
            let order = sorted_member_order(members);
            let mut j: usize = 0;
            while j < order.len()
                invariant
                    j <= order@.len(),
                    models == member_models(members@),
                    models.len() == members@.len(),
                    forall|k: int|
                        0 <= k < members@.len() ==> (#[trigger] models[k]) == (
                            members@[k].0@,
                            members@[k].1@,
                        ),
                    forall|k: int| 0 <= k < order@.len() ==> (#[trigger] order@[k]) < members@.len(),
                    columns@.len() == j,
                    forall|k: int|
                        0 <= k < j ==> (#[trigger] columns@[k])@ == column_of(models[order@[k] as int]),
                decreases order@.len() - j,
            {
                let at = order[j];
                let column = TableColumn {
                    name: members[at].0.clone(),
                    data_type: field_type_of(&members[at].1),
                    nullable: field_nullable_of(&members[at].1),
                    default_value: field_default_of(&members[at].1),
                };
                columns.push(column);
                j = j + 1;
            }
            assert(columns@.map_values(|column: TableColumn| column@) =~= columns_in_order(
                models,
                positions(order@),
            ));
        } else {
            assert(columns@.map_values(|column: TableColumn| column@) =~= Seq::<ColumnModel>::empty());
        }
        Ok(TableSchema { table_name: table_name.to_owned(), columns })
    }
}

impl TableColumn {
    /// The field that describes this column.
    pub fn to_field(&self) -> (field: (String, JsonValue))
        ensures
            (field.0@, field.1@) == column_as_field(self@),
    {
        let mut members: Vec<(String, JsonValue)> = vec![
            ("type".to_owned(), JsonValue::String(self.data_type.clone())),
            ("nullable".to_owned(), JsonValue::Bool(self.nullable)),
        ];
        match &self.default_value {
            Some(text) => {
                members.push(("default".to_owned(), JsonValue::String(text.clone())));
            },
            None => {},
        }
        proof {
            lemma_member_models(members@);
            assert(member_models(members@) =~= column_as_field(self@).1->Object_0);
        }
        (self.name.clone(), JsonValue::Object(members))
    }
}

impl TableSchema {
    /// A description of a table that states this schema, in the shape
    /// in which the datastore describes tables.
    pub fn to_info(&self) -> (info: JsonValue)
        ensures
            info@ == schema_as_info(self@),
    {
        let mut fields: Vec<(String, JsonValue)> = Vec::new();
        let mut i: usize = 0;
        while i < self.columns.len()
            invariant
                i <= self.columns@.len(),
                fields@.len() == i,
                forall|k: int|
                    0 <= k < i ==> ((#[trigger] fields@[k]).0@, fields@[k].1@) == column_as_field(
                        self.columns@[k]@,
                    ),
            decreases self.columns@.len() - i,
        {
            let field = self.columns[i].to_field();
            fields.push(field);
            i = i + 1;
        }
        proof {
            lemma_member_models(fields@);
            assert(member_models(fields@) =~= self@.columns.map_values(
                |column: ColumnModel| column_as_field(column),
            ));
        }
        let members: Vec<(String, JsonValue)> = vec![("fields".to_owned(), JsonValue::Object(fields))];
        proof {
            lemma_member_models(members@);
            assert(member_models(members@) =~= seq![("fields"@, Json::Object(member_models(fields@)))]);
        }
        JsonValue::Object(members)
    }
}

/// The columns read from a table's fields are the fields' columns, each
/// once, in the order of their names.
pub proof fn lemma_columns_sorted(fields: Seq<(Seq<char>, Json)>)
    ensures
        columns_of(Json::Object(fields)).len() == fields.len(),
        is_sorted(column_names(columns_of(Json::Object(fields)))),
        forall|k: int|
            0 <= k < fields.len() ==> (#[trigger] columns_of(Json::Object(fields))[k]) == column_of(
                fields[sorted_order(member_names(fields))[k]],
            ),
        sorted_order(member_names(fields)).no_duplicates(),
{
    let names = member_names(fields);
    let order = sorted_order(names);
    let columns = columns_of(Json::Object(fields));
    lemma_sorted_order(names);
    assert forall|i: int, j: int| 0 <= i < j < columns.len() implies lex_le(
        #[trigger] column_names(columns)[i],
        #[trigger] column_names(columns)[j],
    ) by {
        assert(0 <= order[i] < fields.len() && 0 <= order[j] < fields.len());
        assert(column_names(columns)[i] == names[order[i]]);
        assert(column_names(columns)[j] == names[order[j]]);
    }
}

/// A field that describes a column is read back as that column.
pub proof fn lemma_field_round_trip(column: ColumnModel)
    ensures
        column_of(column_as_field(column)) == column,
{
    reveal_strlit("type");
    reveal_strlit("nullable");
    reveal_strlit("default");
    assert("type"@.len() == 4 && "nullable"@.len() == 8 && "default"@.len() == 7);
    let members = column_as_field(column).1->Object_0;
    let tail = members.drop_first();
    assert(members[0] == ("type"@, Json::String(column.data_type)));
    assert(members[1] == ("nullable"@, Json::Bool(column.nullable)));
    assert(tail[0] == members[1]);
    assert(lookup(members, "type"@) == Some(Json::String(column.data_type)));
    assert(lookup(tail, "nullable"@) == Some(Json::Bool(column.nullable)));
    assert(lookup(members, "nullable"@) == Some(Json::Bool(column.nullable)));
    let rest = tail.drop_first();
    match column.default_value {
        Some(text) => {
            assert(members[2] == ("default"@, Json::String(text)));
            assert(rest[0] == members[2]);
            assert(lookup(rest, "default"@) == Some(Json::String(text)));
            assert(lookup(tail, "default"@) == lookup(rest, "default"@));
            assert(lookup(members, "default"@) == Some(Json::String(text)));
        },
        None => {
            assert(rest.len() == 0);
            assert(lookup(rest, "default"@) is None);
            assert(lookup(tail, "default"@) is None);
            assert(lookup(members, "default"@) is None);
        },
    }
}

/// Round trip: a schema whose columns stand in the order of their names
/// is read back unchanged from the description that states it.
pub proof fn lemma_schema_round_trip(schema: SchemaModel)
    requires
        schema.ordered(),
    ensures
        table_schema(schema.table_name, schema_as_info(schema)) == Some(schema),
{
    let fields = schema.columns.map_values(|column: ColumnModel| column_as_field(column));
    let info = schema_as_info(schema);
    assert(info->Object_0[0] == ("fields"@, Json::Object(fields)));
    assert(lookup(info->Object_0, "fields"@) == Some(Json::Object(fields)));
    assert(member_names(fields) =~= column_names(schema.columns));
    lemma_sorted_order_of_sorted(member_names(fields));
    let order = sorted_order(member_names(fields));
    let columns = columns_of(Json::Object(fields));
    assert(columns.len() == schema.columns.len());
    assert forall|k: int| 0 <= k < columns.len() implies columns[k] == schema.columns[k] by {
        assert(order[k] == k);
        lemma_field_round_trip(schema.columns[k]);
    }
    assert(columns =~= schema.columns);
}

/// Round trip: what was read from a description of a table is read
/// again, with the same columns in the order of their names, from the
/// description that states it.
pub proof fn lemma_parsed_schema_round_trip(table_name: Seq<char>, info: Json)
    requires
        table_schema(table_name, info) is Some,
    ensures
        table_schema(table_name, info)->0.ordered(),
        table_schema(table_name, schema_as_info(table_schema(table_name, info)->0)) == table_schema(
            table_name,
            info,
        ),
{
    let schema = table_schema(table_name, info)->0;
    let fields = info.get("fields"@)->0;
    match fields {
        Json::Object(members) => {
            lemma_columns_sorted(members);
        },
        _ => {},
    }
    lemma_schema_round_trip(schema);
}

} // verus!
