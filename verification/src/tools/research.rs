//! A bound on direct web research, so that a turn that keeps finding more leads still answers.

use crate::session::messages::{said, spoken, Message, Role};
use crate::text::same;
use vstd::prelude::*;

verus! {

/// How many direct web reads a turn may finish before the next model call has to conclude it.
pub const DIRECT_WEB_READ_LIMIT: usize = 8;

/// What the model is told once the reads are spent.
pub const RESEARCH_CLOSE_INSTRUCTION: &'static str =
    "The direct web research budget for this turn is exhausted. Answer the user's latest request now using the results already available. State any remaining uncertainty. Do not search again, repeat a page fetch, or merely describe what you plan to read.";

/// Whether the model may choose a tool.
#[derive(Clone, Copy, Debug, PartialEq, Eq, Structural)]
pub enum ToolChoice {
    Auto,
    Forbidden,
}

/// A request to the model: the conversation, and the names of the tools that it is offered.
#[derive(Debug, PartialEq)]
pub struct ModelRequest {
    pub messages: Vec<Message>,
    pub tools: Vec<String>,
    pub tool_choice: ToolChoice,
}

/// A tool that reads the web directly.
pub open spec fn reads_the_web(tool: Seq<char>) -> bool {
    tool == "web_search_tool"@ || tool == "web_fetch"@
}

/// The count of the reads that a turn has finished.
#[derive(Debug)]
pub struct ResearchBudgetMiddleware {
    pub completed_reads: usize,
}

impl Default for ResearchBudgetMiddleware {
    fn default() -> (r: Self)
        ensures
            r.completed_reads == 0,
    {
        ResearchBudgetMiddleware { completed_reads: 0 }
    }
}

/// A count one higher, or nought behind the highest.
pub open spec fn counted(reads: usize) -> usize {
    if reads < usize::MAX {
        (reads + 1) as usize
    } else {
        0
    }
}

/// The count after some tools have finished in turn.
pub open spec fn count_after(reads: usize, tools: Seq<Seq<char>>) -> usize
    decreases tools.len(),
{
    if tools.len() == 0 {
        reads
    } else {
        let before = count_after(reads, tools.drop_last());
        if reads_the_web(tools.last()) {
            counted(before)
        } else {
            before
        }
    }
}

/// What becomes of a request after so many reads: nothing before they are spent; then it has no
/// tools, may choose none, and asks for the answer behind its messages.
pub open spec fn concluded(reads: usize, before: ModelRequest, after: ModelRequest) -> bool {
    if reads < DIRECT_WEB_READ_LIMIT {
        after == before
    } else {
        &&& after.tools@.len() == 0
        &&& after.tool_choice == ToolChoice::Forbidden
        &&& said(after.messages@) == said(before.messages@).push(
            spoken(Role::User, RESEARCH_CLOSE_INSTRUCTION@),
        )
    }
}

impl ResearchBudgetMiddleware {
    /// A turn that has read nothing.
    pub fn new() -> (r: Self)
        ensures
            r.completed_reads == 0,
    {
        ResearchBudgetMiddleware::default()
    }

    /// The name of this middleware.
    pub fn name(&self) -> (r: &'static str)
        ensures
            r@ == "research_budget"@,
    {
        "research_budget"
    }

    /// Count the tool that has just finished, where it reads the web.
    pub fn after_tool(&mut self, tool_name: &str)
        ensures
            final(self).completed_reads == (if reads_the_web(tool_name@) {
                counted(old(self).completed_reads)
            } else {
                old(self).completed_reads
            }),
    {
        if same(tool_name, "web_search_tool") || same(tool_name, "web_fetch") {
            self.completed_reads = self.completed_reads.wrapping_add(1);
        }
    }

    /// Once the reads are spent, take the tools out of the request and ask for the answer. Before
    /// that the request stays as it is.
    pub fn before_model(&self, request: &mut ModelRequest)
        ensures
            concluded(self.completed_reads, *old(request), *final(request)),
            self.completed_reads < DIRECT_WEB_READ_LIMIT ==> *final(request) == *old(request),
            self.completed_reads >= DIRECT_WEB_READ_LIMIT ==> {
                &&& final(request).tools@.len() == 0
                &&& final(request).tool_choice == ToolChoice::Forbidden
                &&& said(final(request).messages@) == said(old(request).messages@).push(
                    spoken(Role::User, RESEARCH_CLOSE_INSTRUCTION@),
                )
            },
    {
        if self.completed_reads < DIRECT_WEB_READ_LIMIT {
            return;
        }
        request.tools.clear();
        request.tool_choice = ToolChoice::Forbidden;
        request.messages.push(Message::user(RESEARCH_CLOSE_INSTRUCTION));
        assert(said(request.messages@) =~= said(old(request).messages@).push(
            spoken(Role::User, RESEARCH_CLOSE_INSTRUCTION@),
        ));
    }
}

/// How many of some tools read the web.
pub open spec fn web_reads(tools: Seq<Seq<char>>) -> nat {
    tools.filter(|tool: Seq<char>| reads_the_web(tool)).len()
}

/// The reads of a turn are spent exactly when eight of the tools that it has finished read the
/// web; other tools spend nothing.
pub proof fn law_eight_reads_spend_the_budget(tools: Seq<Seq<char>>)
    requires
        tools.len() <= usize::MAX,
    ensures
        count_after(0, tools) >= DIRECT_WEB_READ_LIMIT <==> web_reads(tools) >= 8,
        count_after(0, tools) == web_reads(tools),
    decreases tools.len(),
{
    broadcast use vstd::seq_lib::group_filter_ensures;

    reveal(Seq::filter);
    if tools.len() > 0 {
        law_eight_reads_spend_the_budget(tools.drop_last());
        assert(web_reads(tools.drop_last()) <= tools.drop_last().len());
    }
}

/// Exactly the search and the fetch read the web; each finished read counts one, and any other tool
/// none.
pub proof fn law_each_read_counts_one(reads: usize, tools: Seq<Seq<char>>, tool: Seq<char>)
    ensures
        reads_the_web(tool) <==> tool == "web_search_tool"@ || tool == "web_fetch"@,
        reads < usize::MAX ==> counted(reads) == reads + 1,
        counted(usize::MAX) == 0,
        count_after(reads, Seq::empty()) == reads,
        tool == "web_search_tool"@ || tool == "web_fetch"@ ==> count_after(reads, tools.push(tool))
            == counted(count_after(reads, tools)),
        tool != "web_search_tool"@ && tool != "web_fetch"@ ==> count_after(reads, tools.push(tool))
            == count_after(reads, tools),
{
    assert(tools.push(tool).drop_last() =~= tools);
}

/// The bound is eight reads, and this is what the model is told once they are spent.
pub proof fn law_the_model_is_told_to_answer()
    ensures
        DIRECT_WEB_READ_LIMIT == 8,
        RESEARCH_CLOSE_INSTRUCTION@
            == "The direct web research budget for this turn is exhausted. Answer the user's latest request now using the results already available. State any remaining uncertainty. Do not search again, repeat a page fetch, or merely describe what you plan to read."@,
{
}

/// With fewer than eight reads a request is left as it is. From the eighth on it has no tool and may
/// choose none, its messages stay, and one message of the user behind them asks for the answer.
pub proof fn law_a_spent_budget_concludes_the_turn(
    reads: usize,
    before: ModelRequest,
    after: ModelRequest,
)
    requires
        concluded(reads, before, after),
    ensures
        reads < 8 ==> after == before,
        reads >= 8 ==> {
            let asked = said(after.messages@);
            &&& after.tools@.len() == 0
            &&& after.tool_choice is Forbidden
            &&& asked.len() == before.messages@.len() + 1
            &&& forall|i: int|
                0 <= i < before.messages@.len() ==> #[trigger] asked[i] == before.messages@[i]@
            &&& asked.last().role == Role::User
            &&& asked.last().text == RESEARCH_CLOSE_INSTRUCTION@
        },
{
}

} // verus!
