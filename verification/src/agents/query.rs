//! One table's agent: its instructions, the datastore it asks, and the
//! bound on its turns.

use vstd::prelude::*;
use super::{PromptRequest, MODEL};
use crate::config::SurrealConfig;
use crate::surreal::{SurrealDbConfig, SurrealSchemaTool, SurrealSelectTool};
use crate::text::same_text;

verus! {

/// What the instructions of a table's agent hold before the table's
/// name.
pub const QUERY_PREAMBLE_OPENING: &'static str =
    "\n            You are a helpful assistant that can answer questions from the ";

/// What they hold between the table's name and what is known of the
/// table.
pub const QUERY_PREAMBLE_TABLE: &'static str = " table.\n            ";

/// What they hold between that and the second mention of the table's
/// name.
pub const QUERY_PREAMBLE_TOOLS: &'static str =
    "\n\n            You have access to tools for database operations:\n            - surreal_schema: Get schema information for database tables\n            - surreal_select: Execute SELECT queries to retrieve data\n\n            Use the surreal_select tool to retrieve data from the ";

/// What they hold after it.
pub const QUERY_PREAMBLE_RULES: &'static str =
    " table.\n\n            IMPORTANT: If a query fails with a syntax error or other issue, the tool will return an error message instead of failing. Read the error message carefully and correct your query syntax before trying again. Common issues include:\n            - Missing quotes around string values\n            - Incorrect parentheses matching\n            - Invalid SQL syntax\n\n            Use CONTAINS operator in WHERE clause to partial match on string values.\n\n            The tools connect to a SurrealDB instance. See SQL syntax here https://surrealdb.com/docs/surrealql/statements/select, https://surrealdb.com/docs/surrealql/clauses/where, https://surrealdb.com/docs/surrealql/datamodel/strings.\n\n            Mention the IDs of which rows were used to generate the response.\n            ";

/// The instructions of the agent that answers from `table`, of which
/// `table_context` is known.
pub open spec fn query_preamble_text(table: Seq<char>, table_context: Seq<char>) -> Seq<char> {
    QUERY_PREAMBLE_OPENING@ + table + QUERY_PREAMBLE_TABLE@ + table_context + QUERY_PREAMBLE_TOOLS@
        + table + QUERY_PREAMBLE_RULES@
}

/// The instructions of the agent that answers from `table`, of which
/// `table_context` is known.
pub fn query_preamble(table: &str, table_context: &str) -> (preamble: String)
    ensures
        preamble@ == query_preamble_text(table@, table_context@),
{
    let mut preamble = QUERY_PREAMBLE_OPENING.to_owned();
    preamble.append(table);
    preamble.append(QUERY_PREAMBLE_TABLE);
    preamble.append(table_context);
    preamble.append(QUERY_PREAMBLE_TOOLS);
    preamble.append(table);
    preamble.append(QUERY_PREAMBLE_RULES);
    preamble
}

/// The connection values that an agent's tools use: host, user name and
/// password as configured, the database as the database and the
/// namespace as the namespace.
pub fn db_config(surreal_config: &SurrealConfig) -> (target: SurrealDbConfig)
    ensures
        target.url@ == surreal_config.host@,
        target.user@ == surreal_config.username@,
        target.pass@ == surreal_config.password@,
        target.db@ == surreal_config.database@,
        target.namespace@ == surreal_config.namespace@,
{
    SurrealDbConfig::new(
        surreal_config.host.clone(),
        surreal_config.username.clone(),
        surreal_config.password.clone(),
        surreal_config.database.clone(),
        surreal_config.namespace.clone(),
    )
}

/// The agent of one table: what it is asked, the tools it may call,
/// and how many turns it has.
#[derive(Debug)]
pub struct TableAgent {
    pub request: PromptRequest,
    pub schema_tool: SurrealSchemaTool,
    pub select_tool: SurrealSelectTool,
    pub max_turns: usize,
}

/// The query stage for one table: `sub_question` is put to an agent
/// that is told about `table`, may call the schema tool and the select
/// tool on the configured datastore, and has [`MAX_TURNS`] turns.
pub fn question(
    sub_question: &str,
    table: &str,
    table_context: &str,
    surreal_config: &SurrealConfig,
) -> (agent: TableAgent)
    ensures
        agent.request.model@ == MODEL@,
        agent.request.preamble@ == query_preamble_text(table@, table_context@),
        agent.request.prompt@ == sub_question@,
        agent.max_turns == MAX_TURNS,
        agent.schema_tool.config() == agent.select_tool.config(),
        agent.schema_tool.config().url@ == surreal_config.host@,
        agent.schema_tool.config().user@ == surreal_config.username@,
        agent.schema_tool.config().pass@ == surreal_config.password@,
        agent.schema_tool.config().db@ == surreal_config.database@,
        agent.schema_tool.config().namespace@ == surreal_config.namespace@,
{
    let surreal_db_config = db_config(surreal_config);
    let schema_tool = SurrealSchemaTool::new(surreal_db_config.clone());
    let select_tool = SurrealSelectTool::new(surreal_db_config);
    TableAgent {
        request: PromptRequest {
            model: MODEL.to_owned(),
            preamble: query_preamble(table, table_context),
            prompt: sub_question.to_owned(),
        },
        schema_tool,
        select_tool,
        max_turns: MAX_TURNS,
    }
}

/// How many turns an agent has to answer one sub-question. A turn is
/// one reply of the model: a call of a tool, or the final answer.
pub const MAX_TURNS: usize = 10;

/// The tools that an agent can call.
#[derive(Clone, Copy, Debug, PartialEq, Eq)]
pub enum ToolKind {
    /// The tool called `surreal_schema`.
    Schema,
    /// The tool called `surreal_select`.
    Select,
}

/// The tool that a model means by `name`.
pub open spec fn tool_named(name: Seq<char>) -> Option<ToolKind> {
    if name == "surreal_schema"@ {
        Some(ToolKind::Schema)
    } else if name == "surreal_select"@ {
        Some(ToolKind::Select)
    } else {
        None
    }
}

/// The tool that a model means by `name`, if it names one.
pub fn find_tool(name: &str) -> (tool: Option<ToolKind>)
    ensures
        tool == tool_named(name@),
{
    if same_text(name, "surreal_schema") {
        Some(ToolKind::Schema)
    } else if same_text(name, "surreal_select") {
        Some(ToolKind::Select)
    } else {
        None
    }
}

/// One reply of the model.
#[derive(Debug)]
pub enum ModelReply {
    /// The model asks for a tool to be called with these arguments.
    ToolCall { tool: String, arguments: String },
    /// The model gives its final answer.
    Answer(String),
}

/// Where an agent stands in answering one sub-question.
#[derive(Debug)]
pub enum AgentState {
    /// The model is to be asked; `turns_used` replies were taken so far.
    AwaitingModel { turns_used: usize },
    /// The model asked for a tool, whose output is to be fed back to it.
    DispatchingTool { turns_used: usize, tool: String, arguments: String },
    /// The model gave this answer.
    TerminalAnswer(String),
    /// The turns were used up before the model gave an answer.
    BudgetExhausted,
}

/// The mathematical value of an [`AgentState`].
pub enum AgentModel {
    AwaitingModel { turns_used: nat },
    DispatchingTool { turns_used: nat, tool: Seq<char>, arguments: Seq<char> },
    TerminalAnswer(Seq<char>),
    BudgetExhausted,
}

/// The mathematical value of a [`ModelReply`].
pub enum ReplyModel {
    ToolCall { tool: Seq<char>, arguments: Seq<char> },
    Answer(Seq<char>),
}

impl View for ModelReply {
    type V = ReplyModel;

    open spec fn view(&self) -> ReplyModel {
        match self {
            ModelReply::ToolCall { tool, arguments } => ReplyModel::ToolCall {
                tool: tool@,
                arguments: arguments@,
            },
            ModelReply::Answer(text) => ReplyModel::Answer(text@),
        }
    }
}

impl View for AgentState {
    type V = AgentModel;

    open spec fn view(&self) -> AgentModel {
        match self {
            AgentState::AwaitingModel { turns_used } => AgentModel::AwaitingModel {
                turns_used: *turns_used as nat,
            },
            AgentState::DispatchingTool { turns_used, tool, arguments } => AgentModel::DispatchingTool {
                turns_used: *turns_used as nat,
                tool: tool@,
                arguments: arguments@,
            },
            AgentState::TerminalAnswer(text) => AgentModel::TerminalAnswer(text@),
            AgentState::BudgetExhausted => AgentModel::BudgetExhausted,
        }
    }
}

impl AgentModel {
    /// No state holds more turns than an agent has.
    pub open spec fn within_budget(self) -> bool {
        match self {
            AgentModel::AwaitingModel { turns_used } => turns_used < MAX_TURNS,
            AgentModel::DispatchingTool { turns_used, .. } => 1 <= turns_used < MAX_TURNS,
            _ => true,
        }
    }

    /// The agent has stopped: it has its answer, or no turn is left.
    pub open spec fn is_terminal(self) -> bool {
        self is TerminalAnswer || self is BudgetExhausted
    }

    /// How many replies of the model can still be taken.
    pub open spec fn turns_left(self) -> nat {
        match self {
            AgentModel::AwaitingModel { turns_used } => (MAX_TURNS - turns_used) as nat,
            AgentModel::DispatchingTool { turns_used, .. } => (MAX_TURNS - turns_used) as nat,
            _ => 0,
        }
    }

    /// The state after a reply of the model. An answer ends the loop.
    /// A call of a tool is dispatched while a turn is left after it to
    /// read what the tool gave; the call that takes the last turn finds
    /// the budget exhausted. A state in which no reply is awaited stays
    /// as it is.
    pub open spec fn after_reply(self, reply: ReplyModel) -> AgentModel {
        match self {
            AgentModel::AwaitingModel { turns_used } => match reply {
                ReplyModel::Answer(text) => AgentModel::TerminalAnswer(text),
                ReplyModel::ToolCall { tool, arguments } => if turns_used + 1 < MAX_TURNS {
                    AgentModel::DispatchingTool { turns_used: turns_used + 1, tool, arguments }
                } else {
                    AgentModel::BudgetExhausted
                },
            },
            _ => self,
        }
    }

    /// The state after a tool's output was fed back: the model is asked
    /// again. A state in which no tool is dispatched stays as it is.
    pub open spec fn after_tool_output(self) -> AgentModel {
        match self {
            AgentModel::DispatchingTool { turns_used, .. } => AgentModel::AwaitingModel { turns_used },
            _ => self,
        }
    }
}

impl AgentState {
    /// The state in which an agent starts: the model is to be asked, and
    /// no turn is used.
    pub fn start() -> (state: Self)
        ensures
            state@ == (AgentModel::AwaitingModel { turns_used: 0 }),
            state@.within_budget(),
    {
        AgentState::AwaitingModel { turns_used: 0 }
    }

    /// Takes a reply of the model.
    pub fn on_reply(self, reply: ModelReply) -> (next: Self)
        ensures
            next@ == self@.after_reply(reply@),
            self@.within_budget() ==> next@.within_budget(),
    {
        match self {
            AgentState::AwaitingModel { turns_used } => match reply {
                ModelReply::Answer(text) => AgentState::TerminalAnswer(text),
                ModelReply::ToolCall { tool, arguments } => {
                    if turns_used < MAX_TURNS - 1 {
                        AgentState::DispatchingTool { turns_used: turns_used + 1, tool, arguments }
                    } else {
                        AgentState::BudgetExhausted
                    }
                },
            },
            other => other,
        }
    }

    /// Takes note that the output of the dispatched tool was fed back
    /// to the model.
    pub fn on_tool_output(self) -> (next: Self)
        ensures
            next@ == self@.after_tool_output(),
            self@.within_budget() ==> next@.within_budget(),
    {
        match self {
            AgentState::DispatchingTool { turns_used, tool, arguments } => AgentState::AwaitingModel {
                turns_used,
            },
            other => other,
        }
    }
}

/// The state after each of `replies` was taken in turn and, where it
/// called a tool, the tool's output was fed back.
pub open spec fn after_replies(state: AgentModel, replies: Seq<ReplyModel>) -> AgentModel
    decreases replies.len(),
{
    if replies.len() == 0 {
        state
    } else {
        after_replies(state.after_reply(replies[0]).after_tool_output(), replies.drop_first())
    }
}

/// The budget bounds the loop: an agent that awaits the model has
/// stopped once it has taken as many replies as it had turns left,
/// whatever the replies were.
pub proof fn lemma_budget_bounds_the_loop(state: AgentModel, replies: Seq<ReplyModel>)
    requires
        state.within_budget(),
        state is AwaitingModel || state.is_terminal(),
        replies.len() >= state.turns_left(),
    ensures
        after_replies(state, replies).is_terminal(),
    decreases replies.len(),
{
    if replies.len() > 0 {
        let next = state.after_reply(replies[0]).after_tool_output();
        lemma_budget_bounds_the_loop(next, replies.drop_first());
    }
}

/// Every reply of the model uses up a turn or ends the loop: an agent
/// that is not done has fewer turns left after a reply than before.
pub proof fn lemma_reply_uses_a_turn(state: AgentModel, reply: ReplyModel)
    requires
        state.within_budget(),
        state is AwaitingModel,
    ensures
        state.after_reply(reply).is_terminal() || state.after_reply(reply).turns_left()
            < state.turns_left(),
        state.after_reply(reply).within_budget(),
{
}

/// Feeding a tool's output back uses no turn and ends nothing.
pub proof fn lemma_tool_output_keeps_turns(state: AgentModel)
    requires
        state.within_budget(),
    ensures
        state.after_tool_output().turns_left() == state.turns_left(),
        state.after_tool_output().within_budget(),
        state.after_tool_output().is_terminal() == state.is_terminal(),
{
}

} // verus!
