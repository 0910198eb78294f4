//! The select tool: read-only statements in, readable text out.

use vstd::prelude::*;
use super::{string_parameter, string_parameter_schema, SurrealDbConfig, SurrealError, ToolDefinition};
use crate::json::{
    bool_text, bool_to_text, json_models, json_string_literal, lemma_json_models,
    lemma_member_models, member_models, member_names, number_text, quote_string,
    sorted_member_order, Json, JsonValue,
};
use crate::sorting::{positions, sorted_order};
use crate::text::{
    all_whitespace, chars_of, contains, decimal, has_substring, join, join_strings,
    lemma_trimmed_empty, lowercase, push_decimal, starts_with, texts_of, to_lowercase, trim,
    trimmed,
};

verus! {

/// Arguments of the select tool.
pub struct SurrealSelectArgs {
    /// The statement to run.
    pub query: String,
}

/// Tool that runs read-only statements and renders what they return.
#[derive(Debug)]
pub struct SurrealSelectTool {
    config: SurrealDbConfig,
}

impl Clone for SurrealSelectTool {
    fn clone(&self) -> (tool: Self)
        ensures
            tool.config() == self.config(),
    {
        Self { config: self.config.clone() }
    }
}

/// What the select tool does with a call before anything is sent.
#[derive(Debug)]
pub enum SelectPlan {
    /// The statement was refused: this text is the tool's answer, and
    /// nothing is sent to the datastore.
    Answer(String),
    /// The statement passed: it is to be sent to the datastore as it is.
    Run(String),
}

/// How many keywords the select tool forbids.
pub const FORBIDDEN_KEYWORDS: usize = 7;

/// The keywords that no statement may hold, in the order in which they
/// are looked for.
pub open spec fn forbidden_keywords() -> Seq<Seq<char>> {
    seq!["drop"@, "delete"@, "update"@, "insert"@, "create"@, "alter"@, "truncate"@]
}

/// The first forbidden keyword, from position `from` of the list on,
/// that stands in `text`.
pub open spec fn first_forbidden(text: Seq<char>, from: int) -> Option<int>
    decreases FORBIDDEN_KEYWORDS - from,
{
    if from < 0 || from >= FORBIDDEN_KEYWORDS {
        None
    } else if has_substring(text, forbidden_keywords()[from]) {
        Some(from)
    } else {
        first_forbidden(text, from + 1)
    }
}

/// Why a statement in lower case is refused, if it is: it does not
/// begin with `select`; or it holds a forbidden keyword, of which the
/// first in the list is named.
pub open spec fn statement_fault(text: Seq<char>) -> Option<Seq<char>> {
    if !"select"@.is_prefix_of(text) {
        Some("Only SELECT statements are allowed"@)
    } else {
        match first_forbidden(text, 0) {
            Some(k) => Some("Query contains forbidden keyword: "@ + forbidden_keywords()[k]),
            None => None,
        }
    }
}

/// Why a statement is refused, if it is: it is empty once trimmed; or
/// its trimmed lower-case form is refused.
pub open spec fn query_fault(query: Seq<char>) -> Option<Seq<char>> {
    if trimmed(query).len() == 0 {
        Some("Query cannot be empty"@)
    } else {
        statement_fault(lowercase(trimmed(query)))
    }
}

/// A single value as the result of a statement.
pub open spec fn result_line(value: Seq<char>) -> Seq<char> {
    "Result: "@ + value
}

/// The answer of the select tool to a statement that it refuses for
/// `fault`.
pub open spec fn refusal_text(fault: Seq<char>) -> Seq<char> {
    "Query validation error: "@ + ("Invalid input: "@ + fault)
}

/// The answer of the select tool to a statement that the datastore
/// failed with an error whose message is `message`.
pub open spec fn failure_text(message: Seq<char>) -> Seq<char> {
    "Query execution error: "@ + message + "\n\nPlease check your SQL syntax and try again."@
}

/// The forbidden keyword at position `k` of the list.
fn forbidden_keyword(k: usize) -> (keyword: &'static str)
    requires
        k < FORBIDDEN_KEYWORDS,
    ensures
        keyword@ == forbidden_keywords()[k as int],
{
    if k == 0 {
        "drop"
    } else if k == 1 {
        "delete"
    } else if k == 2 {
        "update"
    } else if k == 3 {
        "insert"
    } else if k == 4 {
        "create"
    } else if k == 5 {
        "alter"
    } else {
        "truncate"
    }
}

/// The text of a value: a string as it is, a list in square brackets,
/// an object in braces, their parts separated by a comma and a space.
pub open spec fn render_value(value: Json) -> Seq<char>
    decreases value,
{
    match value {
        Json::Null => "null"@,
        Json::Bool(b) => bool_text(b),
        Json::Number(n) => number_text(n),
        Json::String(s) => s,
        Json::Array(items) => "["@ + join(render_items(items), ", "@) + "]"@,
        Json::Object(members) => "{"@ + join(render_members(members), ", "@) + "}"@,
    }
}

/// The texts of the items of a list, in order.
pub open spec fn render_items(items: Seq<Json>) -> Seq<Seq<char>>
    decreases items,
{
    if items.len() == 0 {
        Seq::empty()
    } else {
        render_items(items.drop_last()).push(render_value(items.last()))
    }
}

/// The texts of the members of an object, in order, each as its name, a
/// colon and its value.
pub open spec fn render_members(members: Seq<(Seq<char>, Json)>) -> Seq<Seq<char>>
    decreases members,
{
    if members.len() == 0 {
        Seq::empty()
    } else {
        render_members(members.drop_last()).push(
            members.last().0 + ": "@ + render_value(members.last().1),
        )
    }
}

/// One line of a record: two spaces, the member's name, a colon and its
/// value.
pub open spec fn render_line(member: (Seq<char>, Json)) -> Seq<char> {
    "  "@ + member.0 + ": "@ + render_value(member.1) + "\n"@
}

/// The lines of the members at the positions that `order` lists.
pub open spec fn render_lines(members: Seq<(Seq<char>, Json)>, order: Seq<int>) -> Seq<char>
    decreases order.len(),
{
    if order.len() == 0 {
        Seq::empty()
    } else {
        render_lines(members, order.drop_last()) + render_line(members[order.last()])
    }
}

/// A record as text: an object as one line for each member, the members
/// sorted by name; any other value as one line.
pub open spec fn render_record(record: Json) -> Seq<char> {
    match record {
        Json::Object(members) => render_lines(members, sorted_order(member_names(members))),
        _ => "  "@ + render_value(record) + "\n"@,
    }
}

/// The first `count` records of `items` as text, each under a heading
/// that numbers it from one and followed by an empty line.
pub open spec fn render_records(items: Seq<Json>, count: nat) -> Seq<char>
    decreases count,
{
    if count == 0 {
        Seq::empty()
    } else {
        render_records(items, (count - 1) as nat) + "Record "@ + decimal(count) + ":\n"@
            + render_record(items[count - 1]) + "\n"@
    }
}

/// What a statement returned, as text.
pub open spec fn render_result(result: Json) -> Seq<char> {
    match result {
        Json::Array(items) => if items.len() == 0 {
            "No results found."@
        } else {
            "Found "@ + decimal(items.len()) + " record(s):\n\n"@ + render_records(
                items,
                items.len(),
            )
        },
        Json::Object(_) => "Found 1 record:\n\n"@ + "Record 1:\n"@ + render_record(result),
        Json::Null => "No results found."@,
        Json::String(s) => result_line(json_string_literal(s)),
        Json::Number(n) => result_line(number_text(n)),
        Json::Bool(b) => result_line(bool_text(b)),
    }
}

impl SurrealSelectTool {
    /// The connection values this tool was made with.
    pub closed spec fn config(&self) -> SurrealDbConfig {
        self.config
    }

    /// A select tool bound to `config`.
    pub fn new(config: SurrealDbConfig) -> (tool: Self)
        ensures
            tool.config() == config,
    {
        Self { config }
    }

    /// The text of a value.
    pub fn format_value(&self, value: &JsonValue) -> (text: String)
        ensures
            text@ == render_value(value@),
        decreases value,
    {
        match value {
            JsonValue::String(s) => s.clone(),
            JsonValue::Number(n) => n.to_text(),
            JsonValue::Bool(b) => bool_to_text(*b),
            JsonValue::Null => "null".to_owned(),
            JsonValue::Array(items) => {
                let ghost models = json_models(items@);
                proof {
                    lemma_json_models(items@);
                }
                let mut formatted: Vec<String> = Vec::new();
                let mut i: usize = 0;
                assert(texts_of(formatted@) == render_items(models.take(0)));
                while i < items.len()
                    invariant
                        i <= items@.len(),
                        *value == JsonValue::Array(*items),
                        models == json_models(items@),
                        models.len() == items@.len(),
                        forall|k: int| 0 <= k < items@.len() ==> (#[trigger] models[k]) == items@[k]@,
                        texts_of(formatted@) == render_items(models.take(i as int)),
                    decreases items@.len() - i,
                {
                    assert(decreases_to!(*value => value->Array_0));
                    assert(decreases_to!(*items => items[i as int]));
                    let item = self.format_value(&items[i]);
                    formatted.push(item);
                    proof {
                        let shown = models.take(i + 1);
                        assert(shown.drop_last() == models.take(i as int));
                        assert(shown.last() == models[i as int]);
                        assert(texts_of(formatted@) == render_items(shown));
                    }
                    i = i + 1;
                }
                assert(models.take(i as int) == models);
                let mut text = "[".to_owned();
                let inner = join_strings(&formatted, ", ");
                text.append(inner.as_str());
                text.append("]");
                text
            },
            JsonValue::Object(members) => {
                let ghost models = member_models(members@);
                proof {
                    lemma_member_models(members@);
                }
                let mut formatted: Vec<String> = Vec::new();
                let mut i: usize = 0;
                assert(texts_of(formatted@) == render_members(models.take(0)));
                while i < members.len()
                    invariant
                        i <= members@.len(),
                        *value == JsonValue::Object(*members),
                        models == member_models(members@),
                        models.len() == members@.len(),
                        forall|k: int|
                            0 <= k < members@.len() ==> (#[trigger] models[k]) == (
                                members@[k].0@,
                                members@[k].1@,
                            ),
                        texts_of(formatted@) == render_members(models.take(i as int)),
                    decreases members@.len() - i,
                {
                    let mut pair = members[i].0.clone();
                    pair.append(": ");
                    assert(decreases_to!(*value => value->Object_0));
                    assert(decreases_to!(*members => members[i as int]));
                    assert(decreases_to!(members[i as int] => members[i as int].1));
                    let inner = self.format_value(&members[i].1);
                    pair.append(inner.as_str());
                    formatted.push(pair);
                    proof {
                        let shown = models.take(i + 1);
                        assert(shown.drop_last() == models.take(i as int));
                        assert(shown.last() == models[i as int]);
                        assert(texts_of(formatted@) == render_members(shown));
                    }
                    i = i + 1;
                }
                assert(models.take(i as int) == models);
                let mut text = "{".to_owned();
                let inner = join_strings(&formatted, ", ");
                text.append(inner.as_str());
                text.append("}");
                text
            },
        }
    }

    /// A record as text: an object as one line for each member, the
    /// members sorted by name; any other value as one line.
    pub fn format_record(&self, record: &JsonValue) -> (text: String)
        ensures
            text@ == render_record(record@),
    {
        match record {
            JsonValue::Object(members) => {
                let ghost models = member_models(members@);
                proof {
                    lemma_member_models(members@);
                }
                let order = sorted_member_order(members);
                let mut text = String::new();
                let mut j: usize = 0;
                assert(positions(order@).take(0) == Seq::<int>::empty());
                while j < order.len()
                    invariant
                        j <= order@.len(),
                        record@ == Json::Object(models),
                        models == member_models(members@),
                        models.len() == members@.len(),
                        forall|k: int|
                            0 <= k < members@.len() ==> (#[trigger] models[k]) == (
                                members@[k].0@,
                                members@[k].1@,
                            ),
                        positions(order@) == sorted_order(member_names(models)),
                        forall|k: int| 0 <= k < order@.len() ==> (#[trigger] order@[k]) < members@.len(),
                        text@ == render_lines(models, positions(order@).take(j as int)),
                    decreases order@.len() - j,
                {
                    assert(positions(order@)[j as int] == order@[j as int]);
                    let at = order[j];
                    let value = self.format_value(&members[at].1);
                    text.append("  ");
                    text.append(members[at].0.as_str());
                    text.append(": ");
                    text.append(value.as_str());
                    text.append("\n");
                    proof {
                        let shown = positions(order@).take(j + 1);
                        assert(shown.drop_last() == positions(order@).take(j as int));
                        assert(shown.last() == at);
                        assert(text@ == render_lines(models, shown));
                    }
                    j = j + 1;
                }
                assert(positions(order@).take(j as int) == positions(order@));
                text
            },
            _ => {
                let value = self.format_value(record);
                let mut text = "  ".to_owned();
                text.append(value.as_str());
                text.append("\n");
                text
            },
        }
    }

    /// A single value, written as `value`, as the result of a statement.
    pub fn format_scalar(&self, value: &str) -> (text: String)
        ensures
            text@ == result_line(value@),
    {
        let mut text = "Result: ".to_owned();
        text.append(value);
        text
    }

    /// What a statement returned, as text: nothing found, the records
    /// found, or a single value.
    pub fn format_result(&self, result: &JsonValue) -> (text: String)
        ensures
            text@ == render_result(result@),
    {
        match result {
            JsonValue::Array(items) => {
                if items.len() == 0 {
                    return "No results found.".to_owned();
                }
                let ghost models = json_models(items@);
                proof {
                    lemma_json_models(items@);
                }
                let mut text = "Found ".to_owned();
                push_decimal(&mut text, items.len() as u64);
                text.append(" record(s):\n\n");
                let ghost head = text@;
                let mut i: usize = 0;
                while i < items.len()
                    invariant
                        i <= items@.len(),
                        models == json_models(items@),
                        models.len() == items@.len(),
                        forall|k: int| 0 <= k < items@.len() ==> (#[trigger] models[k]) == items@[k]@,
                        text@ == head + render_records(models, i as nat),
                    decreases items@.len() - i,
                {
                    let record = self.format_record(&items[i]);
                    text.append("Record ");
                    push_decimal(&mut text, i as u64 + 1);
                    text.append(":\n");
                    text.append(record.as_str());
                    text.append("\n");
                    proof {
                        assert(text@ == head + render_records(models, (i + 1) as nat));
                    }
                    i = i + 1;
                }
                text
            },
            JsonValue::Object(_) => {
                let record = self.format_record(result);
                let mut text = "Found 1 record:\n\n".to_owned();
                text.append("Record 1:\n");
                text.append(record.as_str());
                text
            },
            JsonValue::Null => "No results found.".to_owned(),
            JsonValue::String(s) => {
                let literal = quote_string(s.as_str());
                self.format_scalar(literal.as_str())
            },
            JsonValue::Number(n) => {
                let number = n.to_text();
                self.format_scalar(number.as_str())
            },
            JsonValue::Bool(b) => {
                let truth = bool_to_text(*b);
                self.format_scalar(truth.as_str())
            },
        }
    }

    /// The connection values that the statements of this tool are sent
    /// with.
    pub fn connection(&self) -> (config: &SurrealDbConfig)
        ensures
            *config == self.config(),
    {
        &self.config
    }

    /// The name under which a language model calls this tool.
    pub fn name(&self) -> (name: String)
        ensures
            name@ == "surreal_select"@,
    {
        "surreal_select".to_owned()
    }

    /// How this tool presents itself to a language model, whatever the
    /// prompt: it takes one required string, `query`.
    pub fn definition(&self, _prompt: String) -> (definition: ToolDefinition)
        ensures
            definition.name@ == "surreal_select"@,
            definition.description@
                == "Execute a SQL SELECT statement against SurrealDB and return formatted text results. Only SELECT queries are allowed for security. Returns human-readable text output of the query results. If there are syntax errors or other query issues, returns the error message so you can correct the query and try again."@,
            definition.parameters@ == string_parameter(
                "query"@,
                "The SQL SELECT statement to execute (e.g., 'SELECT * FROM users WHERE age > 18')"@,
            ),
    {
        ToolDefinition {
            name: "surreal_select".to_owned(),
            description: "Execute a SQL SELECT statement against SurrealDB and return formatted text results. Only SELECT queries are allowed for security. Returns human-readable text output of the query results. If there are syntax errors or other query issues, returns the error message so you can correct the query and try again.".to_owned(),
            parameters: string_parameter_schema(
                "query",
                "The SQL SELECT statement to execute (e.g., 'SELECT * FROM users WHERE age > 18')",
            ),
        }
    }

    /// Tells whether a statement that is trimmed and in lower case may
    /// be sent to the datastore: it must begin with `select` and hold no
    /// forbidden keyword anywhere.
    pub fn screen_statement(&self, statement: &str) -> (verdict: Result<(), SurrealError>)
        ensures
            match verdict {
                Ok(_) => statement_fault(statement@) is None,
                Err(SurrealError::InvalidInput(fault)) => statement_fault(statement@) == Some(fault@),
                Err(_) => false,
            },
    {
        let text = chars_of(statement);
        let select = chars_of("select");
        if !starts_with(&text, &select) {
            return Err(SurrealError::InvalidInput("Only SELECT statements are allowed".to_owned()));
        }
        let mut k: usize = 0;
        while k < FORBIDDEN_KEYWORDS
            invariant
                k <= FORBIDDEN_KEYWORDS,
                text@ == statement@,
                "select"@.is_prefix_of(text@),
                first_forbidden(text@, 0) == first_forbidden(text@, k as int),
            decreases FORBIDDEN_KEYWORDS - k,
        {
            let keyword = forbidden_keyword(k);
            let pattern = chars_of(keyword);
            if contains(&text, &pattern) {
                let mut fault = "Query contains forbidden keyword: ".to_owned();
                fault.append(keyword);
                return Err(SurrealError::InvalidInput(fault));
            }
            k = k + 1;
        }
        Ok(())
    }

    /// Tells whether `query` may be sent to the datastore: it must be a
    /// statement that begins with `select`, whatever its case, and holds
    /// no forbidden keyword anywhere.
    pub fn validate_query(&self, query: &str) -> (verdict: Result<(), SurrealError>)
        ensures
            match verdict {
                Ok(_) => query_fault(query@) is None,
                Err(SurrealError::InvalidInput(fault)) => query_fault(query@) == Some(fault@),
                Err(_) => false,
            },
    {
        let statement = trim(query);
        if statement.is_empty() {
            return Err(SurrealError::InvalidInput("Query cannot be empty".to_owned()));
        }
        let lowered = to_lowercase(statement);
        self.screen_statement(lowered.as_str())
    }

    /// Decides what to do with a call: answer at once with the reason
    /// for which the statement is refused, or send the statement.
    pub fn prepare(&self, args: &SurrealSelectArgs) -> (plan: SelectPlan)
        ensures
            match plan {
                SelectPlan::Answer(text) => query_fault(args.query@) is Some && text@ == refusal_text(
                    query_fault(args.query@)->0,
                ),
                SelectPlan::Run(statement) => query_fault(args.query@) is None && statement@
                    == args.query@,
            },
    {
        match self.validate_query(args.query.as_str()) {
            Ok(_) => SelectPlan::Run(args.query.clone()),
            Err(error) => {
                let message = error.message();
                let mut text = "Query validation error: ".to_owned();
                text.append(message.as_str());
                SelectPlan::Answer(text)
            },
        }
    }

    /// The tool's answer once the datastore has replied: what it
    /// returned as text, or its error as text that asks for a corrected
    /// statement.
    pub fn complete(&self, outcome: &Result<JsonValue, SurrealError>) -> (text: String)
        ensures
            match outcome {
                Ok(result) => text@ == render_result(result@),
                Err(error) => exists|message: Seq<char>|
                    error.has_message(message) && text@ == failure_text(message),
            },
    {
        match outcome {
            Ok(result) => self.format_result(result),
            Err(error) => {
                let message = error.message();
                let mut text = "Query execution error: ".to_owned();
                text.append(message.as_str());
                text.append("\n\nPlease check your SQL syntax and try again.");
                assert(error.has_message(message@) && text@ == failure_text(message@));
                text
            },
        }
    }
}

/// An empty list is written `[]`, an empty object `{}`.
pub proof fn lemma_render_empty()
    ensures
        render_value(Json::Array(Seq::empty())) == "[]"@,
        render_value(Json::Object(Seq::empty())) == "{}"@,
{
    reveal_strlit("[");
    reveal_strlit("]");
    reveal_strlit("[]");
    reveal_strlit("{");
    reveal_strlit("}");
    reveal_strlit("{}");
    assert(render_items(Seq::empty()) == Seq::<Seq<char>>::empty());
    assert(render_members(Seq::empty()) == Seq::<Seq<char>>::empty());
    assert(join(Seq::<Seq<char>>::empty(), ", "@) == Seq::<char>::empty());
    assert(render_value(Json::Array(Seq::empty())) =~= "[]"@);
    assert(render_value(Json::Object(Seq::empty())) =~= "{}"@);
}

/// Every refusal of a statement begins with the words that mark it as
/// one.
pub proof fn lemma_refusal_is_marked(fault: Seq<char>)
    ensures
        "Query validation error"@.is_prefix_of(refusal_text(fault)),
{
    reveal_strlit("Query validation error");
    reveal_strlit("Query validation error: ");
    let marker = "Query validation error"@;
    let opening = "Query validation error: "@;
    assert(marker.len() == 22 && opening.len() == 24);
    assert forall|i: int| 0 <= i < marker.len() implies marker[i] == refusal_text(fault)[i] by {
        assert(refusal_text(fault)[i] == opening[i]);
    }
    assert(marker =~= refusal_text(fault).subrange(0, marker.len() as int));
}

/// A statement of white space only is refused as empty.
pub proof fn lemma_blank_query_is_refused(query: Seq<char>)
    requires
        all_whitespace(query),
    ensures
        query_fault(query) == Some("Query cannot be empty"@),
{
    lemma_trimmed_empty(query);
}

/// A statement whose trimmed lower-case form does not begin with
/// `select` is refused, with an answer that is marked as a refusal; the
/// tool answers at once and sends nothing.
pub proof fn lemma_other_statement_is_refused(query: Seq<char>)
    requires
        !"select"@.is_prefix_of(lowercase(trimmed(query))),
    ensures
        query_fault(query) is Some,
        "Query validation error"@.is_prefix_of(refusal_text(query_fault(query)->0)),
{
    lemma_refusal_is_marked(query_fault(query)->0);
}

/// Where the list of forbidden keywords is searched from `from` on and
/// the keyword at `k` stands in the text, a keyword is found at `k` or
/// before, and it stands in the text.
pub proof fn lemma_first_forbidden(text: Seq<char>, from: int, k: int)
    requires
        0 <= from <= k < FORBIDDEN_KEYWORDS,
        has_substring(text, forbidden_keywords()[k]),
    ensures
        first_forbidden(text, from) is Some,
        from <= first_forbidden(text, from)->0 <= k,
        has_substring(text, forbidden_keywords()[first_forbidden(text, from)->0]),
    decreases k - from,
{
    if !has_substring(text, forbidden_keywords()[from]) {
        lemma_first_forbidden(text, from + 1, k);
    }
}

/// A statement that holds a forbidden keyword anywhere, in whatever
/// case, is refused.
pub proof fn lemma_forbidden_keyword_is_refused(query: Seq<char>, k: int)
    requires
        0 <= k < FORBIDDEN_KEYWORDS,
        has_substring(lowercase(trimmed(query)), forbidden_keywords()[k]),
    ensures
        query_fault(query) is Some,
        "Query validation error"@.is_prefix_of(refusal_text(query_fault(query)->0)),
{
    lemma_first_forbidden(lowercase(trimmed(query)), 0, k);
    lemma_refusal_is_marked(query_fault(query)->0);
}

/// A statement that begins with `select` and holds a forbidden keyword
/// anywhere, in whatever case, is refused, and the refusal names a
/// forbidden keyword that the statement holds: the first in the list.
pub proof fn lemma_forbidden_keyword_is_named(query: Seq<char>, k: int)
    requires
        trimmed(query).len() > 0,
        "select"@.is_prefix_of(lowercase(trimmed(query))),
        0 <= k < FORBIDDEN_KEYWORDS,
        has_substring(lowercase(trimmed(query)), forbidden_keywords()[k]),
    ensures
        exists|j: int|
            0 <= j <= k && has_substring(lowercase(trimmed(query)), #[trigger] forbidden_keywords()[j])
                && query_fault(query) == Some(
                "Query contains forbidden keyword: "@ + forbidden_keywords()[j],
            ),
{
    let text = lowercase(trimmed(query));
    lemma_first_forbidden(text, 0, k);
    let j = first_forbidden(text, 0)->0;
    assert(0 <= j <= k && has_substring(text, forbidden_keywords()[j]) && query_fault(query) == Some(
        "Query contains forbidden keyword: "@ + forbidden_keywords()[j],
    ));
}

/// Formatting is a function of the value alone: results of the same
/// value are formatted to the same text, however often.
pub proof fn lemma_format_is_repeatable(first: JsonValue, second: JsonValue)
    requires
        first@ == second@,
    ensures
        render_result(first@) == render_result(second@),
        render_record(first@) == render_record(second@),
        render_value(first@) == render_value(second@),
{
}

} // verus!
