//! Decomposition: the sub-agents that can be asked, the instructions
//! under which a question is split among them, and the reading of the
//! split that comes back.

use vstd::prelude::*;
use super::{PromptRequest, MODEL};
use crate::json::{lookup, Json, JsonValue};
use crate::text::{
    chars_of, join, join_strings, lemma_lex_lt_irreflexive, lemma_lex_lt_total,
    lemma_lex_lt_transitive, less_than, lex_lt, same_text, texts_of,
};

verus! {

/// The sub-questions that a top-level question is split into, one for
/// each sub-agent. Read from a model's reply, both are present and not
/// empty.
#[derive(Debug, PartialEq, Eq)]
pub struct SubQuestions {
    pub feature_requests: String,
    pub customers: String,
}

/// The mathematical value of [`SubQuestions`].
pub struct SubQuestionsModel {
    pub feature_requests: Seq<char>,
    pub customers: Seq<char>,
}

impl View for SubQuestions {
    type V = SubQuestionsModel;

    open spec fn view(&self) -> SubQuestionsModel {
        SubQuestionsModel { feature_requests: self.feature_requests@, customers: self.customers@ }
    }
}

/// Why a reply is no split of a question.
#[derive(Debug, PartialEq, Eq)]
pub enum DecompositionError {
    /// The reply is no object.
    NotAnObject,
    /// The object has no member of this name.
    MissingField(&'static str),
    /// The member of this name is no string.
    NotText(&'static str),
    /// The member of this name is the empty string.
    EmptyField(&'static str),
    /// The object has members besides the two sub-questions.
    UnexpectedFields,
}

/// The mathematical value of a [`DecompositionError`].
pub enum DecompositionFault {
    NotAnObject,
    MissingField(Seq<char>),
    NotText(Seq<char>),
    EmptyField(Seq<char>),
    UnexpectedFields,
}

impl View for DecompositionError {
    type V = DecompositionFault;

    open spec fn view(&self) -> DecompositionFault {
        match self {
            DecompositionError::NotAnObject => DecompositionFault::NotAnObject,
            DecompositionError::MissingField(name) => DecompositionFault::MissingField(name@),
            DecompositionError::NotText(name) => DecompositionFault::NotText(name@),
            DecompositionError::EmptyField(name) => DecompositionFault::EmptyField(name@),
            DecompositionError::UnexpectedFields => DecompositionFault::UnexpectedFields,
        }
    }
}

/// The sub-question that stands under `name` among `members`: a string
/// that is not empty.
pub open spec fn sub_question(members: Seq<(Seq<char>, Json)>, name: Seq<char>) -> Result<
    Seq<char>,
    DecompositionFault,
> {
    match lookup(members, name) {
        None => Err(DecompositionFault::MissingField(name)),
        Some(Json::String(question)) => if question.len() == 0 {
            Err(DecompositionFault::EmptyField(name))
        } else {
            Ok(question)
        },
        Some(_) => Err(DecompositionFault::NotText(name)),
    }
}

/// The split that a reply states: an object with the two members
/// `feature_requests` and `customers`, each a string that is not empty,
/// and no other member. The first thing amiss is the fault.
pub open spec fn decomposition(reply: Json) -> Result<SubQuestionsModel, DecompositionFault> {
    match reply {
        Json::Object(members) => match sub_question(members, "feature_requests"@) {
            Err(fault) => Err(fault),
            Ok(feature_requests) => match sub_question(members, "customers"@) {
                Err(fault) => Err(fault),
                Ok(customers) => if members.len() != 2 {
                    Err(DecompositionFault::UnexpectedFields)
                } else {
                    Ok(SubQuestionsModel { feature_requests, customers })
                },
            },
        },
        _ => Err(DecompositionFault::NotAnObject),
    }
}

/// The sub-question that stands under `name` among `members`.
fn read_sub_question(members: &Vec<(String, JsonValue)>, name: &'static str) -> (read: Result<
    String,
    DecompositionError,
>)
    ensures
        match read {
            Ok(question) => sub_question(crate::json::member_models(members@), name@) == Ok::<
                Seq<char>,
                DecompositionFault,
            >(question@),
            Err(error) => sub_question(crate::json::member_models(members@), name@) == Err::<
                Seq<char>,
                DecompositionFault,
            >(error@),
        },
{
    match JsonValue::get_member(members, name) {
        None => Err(DecompositionError::MissingField(name)),
        Some(JsonValue::String(question)) => {
            if question.as_str().is_empty() {
                Err(DecompositionError::EmptyField(name))
            } else {
                Ok(question.clone())
            }
        },
        Some(_) => Err(DecompositionError::NotText(name)),
    }
}

impl SubQuestions {
    /// Reads the split of a question from a model's reply. The reply
    /// must have exactly the shape of [`SubQuestions`].
    pub fn from_json(reply: &JsonValue) -> (read: Result<SubQuestions, DecompositionError>)
        ensures
            match read {
                Ok(questions) => decomposition(reply@) == Ok::<SubQuestionsModel, DecompositionFault>(
                    questions@,
                ),
                Err(error) => decomposition(reply@) == Err::<SubQuestionsModel, DecompositionFault>(
                    error@,
                ),
            },
    {
        match reply {
            JsonValue::Object(members) => {
                proof {
                    crate::json::lemma_member_models(members@);
                }
                let feature_requests = match read_sub_question(members, "feature_requests") {
                    Ok(question) => question,
                    Err(error) => {
                        return Err(error);
                    },
                };
                let customers = match read_sub_question(members, "customers") {
                    Ok(question) => question,
                    Err(error) => {
                        return Err(error);
                    },
                };
                if members.len() != 2 {
                    return Err(DecompositionError::UnexpectedFields);
                }
                Ok(SubQuestions { feature_requests, customers })
            },
            _ => Err(DecompositionError::NotAnObject),
        }
    }
}

/// The names in `entries` go up strictly, so none stands twice.
pub open spec fn strictly_increasing(entries: Seq<(Seq<char>, Seq<char>)>) -> bool {
    forall|i: int, j: int|
        0 <= i < j < entries.len() ==> lex_lt((#[trigger] entries[i]).0, (#[trigger] entries[j]).0)
}

/// How many of `entries`, from the start, have a name before `name`.
pub open spec fn rank(entries: Seq<(Seq<char>, Seq<char>)>, name: Seq<char>) -> int
    decreases entries.len(),
{
    if entries.len() == 0 || !lex_lt(entries[0].0, name) {
        0
    } else {
        1 + rank(entries.drop_first(), name)
    }
}

/// `entries` with `name` described by `description`: in place of the
/// entry of that name where there is one, else at the place that keeps
/// the names in order.
pub open spec fn with_entry(
    entries: Seq<(Seq<char>, Seq<char>)>,
    name: Seq<char>,
    description: Seq<char>,
) -> Seq<(Seq<char>, Seq<char>)> {
    let at = rank(entries, name);
    if at < entries.len() && entries[at].0 == name {
        entries.update(at, (name, description))
    } else {
        entries.insert(at, (name, description))
    }
}

/// The description that `entries` give of `name`.
pub open spec fn description_of(entries: Seq<(Seq<char>, Seq<char>)>, name: Seq<char>) -> Option<
    Seq<char>,
>
    decreases entries.len(),
{
    if entries.len() == 0 {
        None
    } else if entries[0].0 == name {
        Some(entries[0].1)
    } else {
        description_of(entries.drop_first(), name)
    }
}

/// The rank of a name lies within the entries; the names before it
/// come before the name.
pub proof fn lemma_rank(entries: Seq<(Seq<char>, Seq<char>)>, name: Seq<char>)
    ensures
        0 <= rank(entries, name) <= entries.len(),
        forall|i: int| 0 <= i < rank(entries, name) ==> lex_lt((#[trigger] entries[i]).0, name),
        rank(entries, name) < entries.len() ==> !lex_lt(entries[rank(entries, name)].0, name),
    decreases entries.len(),
{
    if entries.len() == 0 || !lex_lt(entries[0].0, name) {
    } else {
        let rest = entries.drop_first();
        lemma_rank(rest, name);
        assert forall|i: int| 0 <= i < rank(entries, name) implies lex_lt(
            (#[trigger] entries[i]).0,
            name,
        ) by {
            if i > 0 {
                assert(entries[i] == rest[i - 1]);
            }
        }
        if rank(entries, name) < entries.len() {
            assert(entries[rank(entries, name)] == rest[rank(rest, name)]);
        }
    }
}

/// Adding an entry keeps the names in strict order.
pub proof fn lemma_with_entry_increasing(
    entries: Seq<(Seq<char>, Seq<char>)>,
    name: Seq<char>,
    description: Seq<char>,
)
    requires
        strictly_increasing(entries),
    ensures
        strictly_increasing(with_entry(entries, name, description)),
{
    lemma_rank(entries, name);
    let at = rank(entries, name);
    let after = with_entry(entries, name, description);
    if at < entries.len() && entries[at].0 == name {
        assert forall|i: int, j: int| 0 <= i < j < after.len() implies lex_lt(
            (#[trigger] after[i]).0,
            (#[trigger] after[j]).0,
        ) by {
            assert(after[i].0 == entries[i].0 && after[j].0 == entries[j].0);
        }
    } else {
        assert forall|i: int, j: int| 0 <= i < j < after.len() implies lex_lt(
            (#[trigger] after[i]).0,
            (#[trigger] after[j]).0,
        ) by {
            let oi = if i < at { i } else { i - 1 };
            let oj = if j < at { j } else { j - 1 };
            if i != at {
                assert(after[i] == entries[oi]);
            }
            if j != at {
                assert(after[j] == entries[oj]);
            }
            if at < entries.len() {
                lemma_lex_lt_total(entries[at].0, name);
            }
            if i == at {
                // name < entries[at] <= entries[oj]
                if oj > at {
                    assert(lex_lt(entries[at].0, entries[oj].0));
                    lemma_lex_lt_transitive(name, entries[at].0, entries[oj].0);
                }
            } else if j == at {
                assert(lex_lt(entries[oi].0, name));
            } else {
                assert(lex_lt(entries[oi].0, entries[oj].0));
            }
        }
    }
}

/// In entries whose names go up strictly, the description of the name
/// at a position is the one that stands there.
pub proof fn lemma_description_at(entries: Seq<(Seq<char>, Seq<char>)>, at: int)
    requires
        strictly_increasing(entries),
        0 <= at < entries.len(),
    ensures
        description_of(entries, entries[at].0) == Some(entries[at].1),
    decreases entries.len(),
{
    if at > 0 {
        let rest = entries.drop_first();
        assert(lex_lt(entries[0].0, entries[at].0));
        lemma_lex_lt_irreflexive(entries[0].0);
        assert(strictly_increasing(rest)) by {
            assert forall|i: int, j: int| 0 <= i < j < rest.len() implies lex_lt(
                (#[trigger] rest[i]).0,
                (#[trigger] rest[j]).0,
            ) by {
                assert(rest[i] == entries[i + 1] && rest[j] == entries[j + 1]);
            }
        }
        assert(rest[at - 1] == entries[at]);
        lemma_description_at(rest, at - 1);
    }
}

/// A name that stands nowhere in `entries` has no description.
pub proof fn lemma_description_absent(entries: Seq<(Seq<char>, Seq<char>)>, name: Seq<char>)
    requires
        forall|i: int| 0 <= i < entries.len() ==> (#[trigger] entries[i]).0 != name,
    ensures
        description_of(entries, name) is None,
    decreases entries.len(),
{
    if entries.len() > 0 {
        let rest = entries.drop_first();
        assert(entries[0].0 != name);
        assert forall|i: int| 0 <= i < rest.len() implies (#[trigger] rest[i]).0 != name by {
            assert(rest[i] == entries[i + 1]);
        }
        lemma_description_absent(rest, name);
    }
}

/// What a name is described as is what stands at some position, or
/// nothing where the name stands nowhere.
pub proof fn lemma_description_found(entries: Seq<(Seq<char>, Seq<char>)>, name: Seq<char>)
    ensures
        match description_of(entries, name) {
            Some(description) => exists|i: int|
                0 <= i < entries.len() && (#[trigger] entries[i]) == (name, description),
            None => forall|i: int| 0 <= i < entries.len() ==> (#[trigger] entries[i]).0 != name,
        },
    decreases entries.len(),
{
    if entries.len() == 0 {
    } else if entries[0].0 == name {
        assert(entries[0] == (name, entries[0].1));
    } else {
        let rest = entries.drop_first();
        lemma_description_found(rest, name);
        match description_of(rest, name) {
            Some(description) => {
                let i = choose|i: int| 0 <= i < rest.len() && (#[trigger] rest[i]) == (name, description);
                assert(entries[i + 1] == rest[i]);
            },
            None => {
                assert forall|i: int| 0 <= i < entries.len() implies (#[trigger] entries[i]).0
                    != name by {
                    if i > 0 {
                        assert(entries[i] == rest[i - 1]);
                    }
                }
            },
        }
    }
}

/// After an entry was added, its name has the new description and every
/// other name the description it had.
pub proof fn lemma_with_entry_describes(
    entries: Seq<(Seq<char>, Seq<char>)>,
    name: Seq<char>,
    description: Seq<char>,
    other: Seq<char>,
)
    requires
        strictly_increasing(entries),
    ensures
        description_of(with_entry(entries, name, description), name) == Some(description),
        other != name ==> description_of(with_entry(entries, name, description), other)
            == description_of(entries, other),
{
    lemma_rank(entries, name);
    lemma_with_entry_increasing(entries, name, description);
    let at = rank(entries, name);
    let after = with_entry(entries, name, description);
    assert(after[at] == (name, description));
    lemma_description_at(after, at);
    if other != name {
        lemma_description_found(entries, other);
        lemma_description_found(after, other);
        let replaced = at < entries.len() && entries[at].0 == name;
        match description_of(entries, other) {
            Some(found) => {
                let i = choose|i: int| 0 <= i < entries.len() && (#[trigger] entries[i]) == (other, found);
                let k = if replaced || i < at { i } else { i + 1 };
                assert(after[k] == entries[i]);
                lemma_description_at(after, k);
            },
            None => {
                assert forall|k: int| 0 <= k < after.len() implies (#[trigger] after[k]).0 != other by {
                    if k != at {
                        let i = if replaced || k < at { k } else { k - 1 };
                        assert(after[k] == entries[i]);
                    }
                }
                lemma_description_absent(after, other);
            },
        }
    }
}

/// The sub-agents that a question can be split among: each name with
/// what the sub-agent of that name can answer. No name stands twice,
/// and the names are kept in order.
#[derive(Debug)]
pub struct SubAgentCatalog {
    entries: Vec<(String, String)>,
}

/// What the instructions for the split hold before the list of
/// sub-agents.
pub const MAP_PREAMBLE_HEAD: &'static str =
    "\n                You are a helpful assistant that can answer questions by delagating sub-questions to a sub-agent.\n                Sub-agents are specialized in answering questions from a specific dataset.\n                Sub-agents do not have access to data that they do not specialize in.\n\n                You have access to the following sub-agents:\n                ";

/// What they hold after it.
pub const MAP_PREAMBLE_TAIL: &'static str =
    "\n\n                Please respond with a JSON object map with a key being the name of the sub-agent and a value being the sub-question to ask the sub-agent.\n                ";

/// The line that lists one sub-agent: its name and what it can answer,
/// each in double quotes.
pub open spec fn listing_line(entry: (Seq<char>, Seq<char>)) -> Seq<char> {
    "- \""@ + entry.0 + "\": \""@ + entry.1 + "\""@
}

/// The list of the sub-agents, one line each.
pub open spec fn listing_text(entries: Seq<(Seq<char>, Seq<char>)>) -> Seq<char> {
    join(entries.map_values(|entry: (Seq<char>, Seq<char>)| listing_line(entry)), "\n"@)
}

/// The instructions for the split of a question among `entries`.
pub open spec fn map_preamble_text(entries: Seq<(Seq<char>, Seq<char>)>) -> Seq<char> {
    MAP_PREAMBLE_HEAD@ + listing_text(entries) + MAP_PREAMBLE_TAIL@
}

/// The two names that a split has a sub-question for, in order.
pub open spec fn decomposition_names() -> Seq<Seq<char>> {
    seq!["customers"@, "feature_requests"@]
}

impl View for SubAgentCatalog {
    type V = Seq<(Seq<char>, Seq<char>)>;

    closed spec fn view(&self) -> Seq<(Seq<char>, Seq<char>)> {
        self.entries@.map_values(|entry: (String, String)| (entry.0@, entry.1@))
    }
}

impl SubAgentCatalog {
    #[verifier::type_invariant]
    spec fn names_in_order(self) -> bool {
        strictly_increasing(self@)
    }

    /// A catalog without sub-agents.
    pub fn new() -> (catalog: Self)
        ensures
            catalog@ == Seq::<(Seq<char>, Seq<char>)>::empty(),
            strictly_increasing(catalog@),
    {
        let catalog = SubAgentCatalog { entries: Vec::new() };
        assert(catalog@ =~= Seq::<(Seq<char>, Seq<char>)>::empty());
        catalog
    }

    /// How many sub-agents the catalog holds. Their names stand in
    /// strict order.
    pub fn len(&self) -> (count: usize)
        ensures
            count == self@.len(),
            strictly_increasing(self@),
    {
        proof {
            use_type_invariant(self);
        }
        self.entries.len()
    }

    /// Describes the sub-agent `name` as `description`, in place of an
    /// earlier description of that name if there is one.
    pub fn insert(&mut self, name: String, description: String)
        ensures
            final(self)@ == with_entry(old(self)@, name@, description@),
            strictly_increasing(final(self)@),
    {
        proof {
            use_type_invariant(&*self);
            lemma_with_entry_increasing(self@, name@, description@);
        }
        let ghost before = self@;
        let key = chars_of(name.as_str());
        let count = self.entries.len();
        let mut at: usize = 0;
        assert(before.skip(0) == before);
        while at < count && less_than(&chars_of(self.entries[at].0.as_str()), &key)
            invariant
                count == self.entries@.len(),
                before == self@,
                key@ == name@,
                at <= count,
                rank(before, name@) == at + rank(before.skip(at as int), name@),
            decreases count - at,
        {
            proof {
                let rest = before.skip(at as int);
                assert(rest[0] == before[at as int]);
                assert(rest.drop_first() == before.skip(at + 1));
            }
            at = at + 1;
        }
        proof {
            let rest = before.skip(at as int);
            if at < count {
                assert(rest[0] == before[at as int]);
            }
            assert(rank(before, name@) == at);
        }
        let replace = at < count && same_text(self.entries[at].0.as_str(), name.as_str());
        let ghost after = with_entry(before, name@, description@);
        let mut entries: Vec<(String, String)> = Vec::new();
        core::mem::swap(&mut entries, &mut self.entries);
        if replace {
            entries.set(at, (name, description));
        } else {
            entries.insert(at, (name, description));
        }
        assert(entries@.map_values(|entry: (String, String)| (entry.0@, entry.1@)) =~= after);
        self.entries = entries;
    }

    /// What the catalog describes the sub-agent `name` as.
    pub fn description(&self, name: &str) -> (found: Option<&String>)
        ensures
            match found {
                Some(description) => description_of(self@, name@) == Some(description@),
                None => description_of(self@, name@) is None,
            },
    {
        let ghost all = self@;
        let mut i: usize = 0;
        assert(all.skip(0) == all);
        while i < self.entries.len()
            invariant
                i <= self.entries@.len(),
                all == self@,
                description_of(all, name@) == description_of(all.skip(i as int), name@),
            decreases self.entries@.len() - i,
        {
            proof {
                let rest = all.skip(i as int);
                assert(rest[0] == all[i as int]);
                assert(rest.drop_first() == all.skip(i + 1));
            }
            if same_text(self.entries[i].0.as_str(), name) {
                return Some(&self.entries[i].1);
            }
            i = i + 1;
        }
        None
    }

    /// Whether the catalog names exactly the sub-agents that a split
    /// has a sub-question for.
    pub fn matches_decomposition(&self) -> (matches: bool)
        ensures
            matches == (self@.map_values(|entry: (Seq<char>, Seq<char>)| entry.0)
                == decomposition_names()),
    {
        let ghost names = self@.map_values(|entry: (Seq<char>, Seq<char>)| entry.0);
        if self.entries.len() != 2 {
            assert(names.len() != decomposition_names().len());
            return false;
        }
        let first = same_text(self.entries[0].0.as_str(), "customers");
        let second = same_text(self.entries[1].0.as_str(), "feature_requests");
        proof {
            assert(names[0] == self.entries@[0].0@);
            assert(names[1] == self.entries@[1].0@);
            if first && second {
                assert(names =~= decomposition_names());
            } else {
                assert(decomposition_names()[0] == "customers"@);
                assert(decomposition_names()[1] == "feature_requests"@);
            }
        }
        first && second
    }

    /// The list of the sub-agents, one line each, in the order of their
    /// names.
    pub fn listing(&self) -> (text: String)
        ensures
            text@ == listing_text(self@),
    {
        let ghost lines_wanted = self@.map_values(
            |entry: (Seq<char>, Seq<char>)| listing_line(entry),
        );
        let mut lines: Vec<String> = Vec::new();
        let mut i: usize = 0;
        while i < self.entries.len()
            invariant
                i <= self.entries@.len(),
                lines_wanted == self@.map_values(|entry: (Seq<char>, Seq<char>)| listing_line(entry)),
                lines@.len() == i,
                forall|k: int| 0 <= k < i ==> (#[trigger] lines@[k])@ == lines_wanted[k],
            decreases self.entries@.len() - i,
        {
            let mut line = "- \"".to_owned();
            line.append(self.entries[i].0.as_str());
            line.append("\": \"");
            line.append(self.entries[i].1.as_str());
            line.append("\"");
            assert(line@ == listing_line(self@[i as int]));
            lines.push(line);
            i = i + 1;
        }
        assert(texts_of(lines@) =~= lines_wanted);
        join_strings(&lines, "\n")
    }

    /// The instructions under which the model splits a question among
    /// the sub-agents of this catalog.
    pub fn map_preamble(&self) -> (preamble: String)
        ensures
            preamble@ == map_preamble_text(self@),
    {
        let listing = self.listing();
        let mut preamble = MAP_PREAMBLE_HEAD.to_owned();
        preamble.append(listing.as_str());
        preamble.append(MAP_PREAMBLE_TAIL);
        preamble
    }
}

/// The decomposition: `question` is put to the model under
/// instructions that list the sub-agents and ask for one sub-question
/// for each. The reply is read with [`SubQuestions::from_json`].
pub fn map(question: &str, sub_agents: &SubAgentCatalog) -> (request: PromptRequest)
    ensures
        request.model@ == MODEL@,
        request.preamble@ == map_preamble_text(sub_agents@),
        request.prompt@ == question@,
{
    PromptRequest {
        model: MODEL.to_owned(),
        preamble: sub_agents.map_preamble(),
        prompt: question.to_owned(),
    }
}

} // verus!
