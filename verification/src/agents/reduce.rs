//! Synthesis: one answer from the answers of the sub-agents.

use vstd::prelude::*;
use super::{PromptRequest, MODEL};
use crate::text::{join, join_strings, texts_of};

verus! {

/// What the instructions for the synthesis hold before the data.
pub const REDUCE_PREAMBLE_HEAD: &'static str =
    "\n                You are a helpful assistant that can answer questions by based on data provided below.\n               Use only the provided data, but use your own knowledge to analyze and determine what it means and come up with conclusions that would be useful to a business decision maker.\n\n                ";

/// What the instructions for the synthesis hold after the data.
pub const REDUCE_PREAMBLE_TAIL: &'static str = "\n\n                ";

/// The instructions for the synthesis: the sub-answers in order, an
/// empty line between neighbours, set into the fixed text.
pub open spec fn reduce_preamble_text(data: Seq<Seq<char>>) -> Seq<char> {
    REDUCE_PREAMBLE_HEAD@ + join(data, "\n\n"@) + REDUCE_PREAMBLE_TAIL@
}

/// The instructions under which the model draws the sub-answers `data`
/// together.
pub fn reduce_preamble(data: &Vec<String>) -> (preamble: String)
    ensures
        preamble@ == reduce_preamble_text(texts_of(data@)),
{
    let joined = join_strings(data, "\n\n");
    let mut preamble = REDUCE_PREAMBLE_HEAD.to_owned();
    preamble.append(joined.as_str());
    preamble.append(REDUCE_PREAMBLE_TAIL);
    preamble
}

/// The synthesis: `question` is put to the model under instructions
/// that hold the sub-answers `data`, and nothing else, as evidence.
pub fn reduce(question: &str, data: Vec<String>) -> (request: PromptRequest)
    ensures
        request.model@ == MODEL@,
        request.preamble@ == reduce_preamble_text(texts_of(data@)),
        request.prompt@ == question@,
{
    PromptRequest {
        model: MODEL.to_owned(),
        preamble: reduce_preamble(&data),
        prompt: question.to_owned(),
    }
}

} // verus!
