//! Tools that are found by search: those that are withheld from what the model is shown, and where
//! their index goes.

use crate::text::{list_has, same, texts};
use vstd::prelude::*;

verus! {

/// The name of the tool that searches.
pub const TOOL_SEARCH_NAME: &'static str = "tool_search";

/// How a tool is offered: shown, found by search, or neither.
#[derive(Clone, Copy, Debug, PartialEq, Eq, Structural)]
pub enum ToolExposure {
    Direct,
    Deferred,
    Hidden,
}

/// What the model is told of a tool.
#[derive(Debug, PartialEq)]
pub struct ToolSpec {
    pub name: String,
    pub description: String,
    pub parameters: serde_json::Value,
}

impl Clone for ToolSpec {
    fn clone(&self) -> (r: Self)
        ensures
            r == *self,
    {
        ToolSpec {
            name: self.name.clone(),
            description: self.description.clone(),
            parameters: self.parameters.clone(),
        }
    }
}

/// A tool of the registry. `indexed` says that it carries the index of a search.
#[derive(Debug, PartialEq)]
pub struct RegisteredTool {
    pub spec: ToolSpec,
    pub exposure: ToolExposure,
    pub indexed: bool,
}

/// The names that are shown, as a set.
pub open spec fn shown(visible: Seq<String>) -> Set<Seq<char>> {
    texts(visible).to_set()
}

/// The names that stay shown and the tools that are left to search, after each of `tools` in
/// turn. The tool that searches is never taken out: without it nothing withheld could be reached.
pub open spec fn stripped(visible: Set<Seq<char>>, tools: Seq<RegisteredTool>) -> (
    Set<Seq<char>>,
    Seq<ToolSpec>,
)
    decreases tools.len(),
{
    if tools.len() == 0 {
        (visible, Seq::empty())
    } else {
        let (names, deferred) = stripped(visible, tools.drop_last());
        let tool = tools.last();
        let name = tool.spec.name@;
        if name == TOOL_SEARCH_NAME@ || !names.contains(name) {
            (names, deferred)
        } else {
            match tool.exposure {
                ToolExposure::Direct => (names, deferred),
                ToolExposure::Deferred => (names.remove(name), deferred.push(tool.spec)),
                ToolExposure::Hidden => (names.remove(name), deferred),
            }
        }
    }
}

/// Take a name out of a list.
fn remove_name(names: &mut Vec<String>, name: &str)
    ensures
        shown(final(names)@) == shown(old(names)@).remove(name@),
{
    let ghost before = names@;
    let mut kept: Vec<String> = Vec::new();
    let mut i: usize = 0;
    while i < names.len()
        invariant
            i <= names@.len(),
            names@ == before,
            forall|k: int| 0 <= k < kept@.len() ==> (#[trigger] kept@[k])@ != name@ && texts(
                before,
            ).contains(kept@[k]@),
            forall|k: int|
                0 <= k < i && (#[trigger] before[k])@ != name@ ==> texts(kept@).contains(
                    before[k]@,
                ),
        decreases names@.len() - i,
    {
        let ghost held = kept@;
        if !same(names[i].as_str(), name) {
            kept.push(names[i].clone());
            proof {
                assert(texts(before)[i as int] == before[i as int]@);
                assert(texts(kept@)[kept@.len() - 1] == before[i as int]@);
                assert forall|k: int|
                    0 <= k < i && (#[trigger] before[k])@ != name@ implies texts(kept@).contains(
                    before[k]@,
                ) by {
                    let j = choose|j: int| 0 <= j < texts(held).len() && texts(held)[j]
                        == before[k]@;
                    assert(texts(kept@)[j] == before[k]@);
                }
            }
        }
        i = i + 1;
    }
    proof {
        assert forall|n: Seq<char>| shown(kept@).contains(n) == shown(before).remove(
            name@,
        ).contains(n) by {
            if texts(kept@).contains(n) {
                let j = choose|j: int| 0 <= j < texts(kept@).len() && texts(kept@)[j] == n;
                assert(kept@[j]@ == n);
            }
            if texts(before).contains(n) && n != name@ {
                let j = choose|j: int| 0 <= j < texts(before).len() && texts(before)[j] == n;
                assert(before[j]@ == n);
            }
        }
        assert(shown(kept@) =~= shown(before).remove(name@));
    }
    *names = kept;
}

/// Take every tool that is found by search or not at all out of what is shown, and give those that
/// are found by search.
pub fn strip_deferred_from_visible(visible: &mut Vec<String>, tools: &Vec<RegisteredTool>) -> (r:
    Vec<ToolSpec>)
    ensures
        (shown(final(visible)@), r@) == stripped(shown(old(visible)@), tools@),
{
    let ghost before = shown(visible@);
    let mut deferred: Vec<ToolSpec> = Vec::new();
    let mut i: usize = 0;
    while i < tools.len()
        invariant
            i <= tools@.len(),
            (shown(visible@), deferred@) == stripped(before, tools@.take(i as int)),
        decreases tools@.len() - i,
    {
        proof {
            assert(tools@.take(i + 1).drop_last() =~= tools@.take(i as int));
            assert(tools@.take(i + 1).last() == tools@[i as int]);
        }
        let name: &str = tools[i].spec.name.as_str();
        if !same(name, TOOL_SEARCH_NAME) && list_has(visible, name) {
            match tools[i].exposure {
                ToolExposure::Direct => (),
                ToolExposure::Deferred => {
                    remove_name(visible, name);
                    deferred.push(tools[i].spec.clone());
                },
                ToolExposure::Hidden => {
                    remove_name(visible, name);
                },
            }
        }
        i = i + 1;
    }
    assert(tools@.take(tools@.len() as int) =~= tools@);
    deferred
}

/// Where the index of the deferred tools goes.
#[derive(Clone, Copy, Debug, PartialEq, Eq)]
pub enum IndexBinding {
    /// Into the tool at that place of the registry.
    At { place: usize },
    /// Nowhere, and nothing was deferred.
    NotNeeded,
    /// Nowhere, so that the deferred tools are out of reach in this session.
    Unreachable { deferred: usize },
}

/// A tool that carries the index of the search.
pub open spec fn carries_index(tool: RegisteredTool) -> bool {
    tool.spec.name@ == TOOL_SEARCH_NAME@ && tool.indexed
}

/// Where the index of the deferred tools goes: into the first tool that carries one.
pub fn bind_tool_search_index(tools: &Vec<RegisteredTool>, deferred: &Vec<ToolSpec>) -> (r:
    IndexBinding)
    ensures
        match r {
            IndexBinding::At { place } => {
                &&& place < tools@.len()
                &&& carries_index(tools@[place as int])
                &&& forall|i: int| 0 <= i < place ==> !carries_index(#[trigger] tools@[i])
            },
            IndexBinding::NotNeeded => deferred@.len() == 0 && forall|i: int|
                0 <= i < tools@.len() ==> !carries_index(#[trigger] tools@[i]),
            IndexBinding::Unreachable { deferred: count } => count == deferred@.len() && count > 0
                && forall|i: int| 0 <= i < tools@.len() ==> !carries_index(#[trigger] tools@[i]),
        },
        r is At <==> exists|i: int|
            0 <= i < tools@.len() && (#[trigger] tools@[i]).spec.name@ == "tool_search"@
                && tools@[i].indexed,
        r is At ==> r->place < tools@.len() && tools@[r->place as int].spec.name@
            == "tool_search"@ && tools@[r->place as int].indexed && forall|i: int|
            0 <= i < r->place ==> (#[trigger] tools@[i]).spec.name@ != "tool_search"@
                || !tools@[i].indexed,
        r is NotNeeded ==> deferred@.len() == 0,
        r is Unreachable ==> deferred@.len() > 0,
{
    let mut i: usize = 0;
    while i < tools.len()
        invariant
            i <= tools@.len(),
            forall|k: int| 0 <= k < i ==> !carries_index(#[trigger] tools@[k]),
        decreases tools@.len() - i,
    {
        if same(tools[i].spec.name.as_str(), TOOL_SEARCH_NAME) && tools[i].indexed {
            return IndexBinding::At { place: i };
        }
        i = i + 1;
    }
    if deferred.len() == 0 {
        IndexBinding::NotNeeded
    } else {
        IndexBinding::Unreachable { deferred: deferred.len() }
    }
}

/// The tool that searches stays shown if it was.
pub proof fn law_the_search_is_never_withheld(visible: Set<Seq<char>>, tools: Seq<RegisteredTool>)
    ensures
        visible.contains(TOOL_SEARCH_NAME@) ==> stripped(visible, tools).0.contains(
            TOOL_SEARCH_NAME@,
        ),
    decreases tools.len(),
{
    if tools.len() > 0 {
        law_the_search_is_never_withheld(visible, tools.drop_last());
    }
}

/// Nothing is shown that was not, and no tool that is deferred or hidden stays shown, the tool
/// that searches aside.
pub proof fn law_withheld_tools_are_not_shown(
    visible: Set<Seq<char>>,
    tools: Seq<RegisteredTool>,
    i: int,
)
    requires
        0 <= i < tools.len(),
        tools[i].exposure != ToolExposure::Direct,
        tools[i].spec.name@ != TOOL_SEARCH_NAME@,
    ensures
        stripped(visible, tools).0.subset_of(visible),
        !stripped(visible, tools).0.contains(tools[i].spec.name@),
    decreases tools.len(),
{
    lemma_stripped_shrinks(visible, tools);
    if i < tools.len() - 1 {
        assert(tools.drop_last()[i] == tools[i]);
        law_withheld_tools_are_not_shown(visible, tools.drop_last(), i);
    }
}

proof fn lemma_stripped_shrinks(visible: Set<Seq<char>>, tools: Seq<RegisteredTool>)
    ensures
        stripped(visible, tools).0.subset_of(visible),
    decreases tools.len(),
{
    if tools.len() > 0 {
        lemma_stripped_shrinks(visible, tools.drop_last());
    }
}

/// What is left to search is a tool that was shown and is deferred: a hidden tool cannot be found,
/// and neither can one that was not offered.
pub proof fn law_only_deferred_tools_are_searched(
    visible: Set<Seq<char>>,
    tools: Seq<RegisteredTool>,
    k: int,
)
    requires
        0 <= k < stripped(visible, tools).1.len(),
    ensures
        visible.contains(stripped(visible, tools).1[k].name@),
        exists|i: int|
            0 <= i < tools.len() && #[trigger] tools[i].spec == stripped(visible, tools).1[k]
                && tools[i].exposure == ToolExposure::Deferred,
    decreases tools.len(),
{
    if tools.len() > 0 {
        let shorter = tools.drop_last();
        lemma_stripped_shrinks(visible, shorter);
        let before = stripped(visible, shorter).1;
        if k < before.len() {
            law_only_deferred_tools_are_searched(visible, shorter, k);
            let i = choose|i: int|
                0 <= i < shorter.len() && #[trigger] shorter[i].spec == before[k]
                    && shorter[i].exposure == ToolExposure::Deferred;
            assert(tools[i] == shorter[i]);
        } else {
            assert(tools[tools.len() - 1] == tools.last());
        }
    }
}

/// The registration at `i` is the one that takes its name out of what is shown: the name was shown,
/// it is not that of the tool that searches, and this is the first registration of it that is not
/// offered directly.
pub open spec fn takes_out(visible: Set<Seq<char>>, tools: Seq<RegisteredTool>, i: int) -> bool {
    &&& 0 <= i < tools.len()
    &&& visible.contains(tools[i].spec.name@)
    &&& tools[i].spec.name@ != "tool_search"@
    &&& tools[i].exposure != ToolExposure::Direct
    &&& forall|j: int|
        0 <= j < i && (#[trigger] tools[j]).spec.name@ == tools[i].spec.name@ ==> tools[j].exposure
            == ToolExposure::Direct
}

/// A name stays shown exactly where it was shown and it is that of the tool that searches or every
/// registration of it is offered directly.
pub proof fn law_a_name_stays_shown_unless_it_is_withheld(
    visible: Set<Seq<char>>,
    tools: Seq<RegisteredTool>,
    name: Seq<char>,
)
    ensures
        stripped(visible, tools).0.contains(name) <==> visible.contains(name) && (name
            == "tool_search"@ || forall|i: int|
            0 <= i < tools.len() && (#[trigger] tools[i]).spec.name@ == name ==> tools[i].exposure
                == ToolExposure::Direct),
    decreases tools.len(),
{
    if tools.len() > 0 {
        let shorter = tools.drop_last();
        law_a_name_stays_shown_unless_it_is_withheld(visible, shorter, name);
        assert forall|i: int| 0 <= i < shorter.len() implies #[trigger] tools[i] == shorter[i] by {}
        assert(tools[tools.len() - 1] == tools.last());
        if forall|i: int|
            0 <= i < tools.len() && (#[trigger] tools[i]).spec.name@ == name ==> tools[i].exposure
                == ToolExposure::Direct {
            assert forall|i: int|
                0 <= i < shorter.len() && (
                #[trigger] shorter[i]).spec.name@ == name implies shorter[i].exposure
                == ToolExposure::Direct by {
                assert(tools[i] == shorter[i]);
            }
        }
    }
}

/// What is left to search are the tools that were taken out of what is shown and are deferred: every
/// one of them, each once, in the order of the registry, and no other. The places of their
/// registrations come back.
pub proof fn law_every_deferred_tool_is_left_to_search(
    visible: Set<Seq<char>>,
    tools: Seq<RegisteredTool>,
) -> (places: Seq<int>)
    ensures
        places.len() == stripped(visible, tools).1.len(),
        forall|k: int|
            0 <= k < places.len() ==> {
                &&& takes_out(visible, tools, #[trigger] places[k])
                &&& tools[places[k]].exposure == ToolExposure::Deferred
                &&& stripped(visible, tools).1[k] == tools[places[k]].spec
            },
        forall|k: int, l: int| 0 <= k < l < places.len() ==> #[trigger] places[k] < #[trigger] places[l],
        forall|i: int|
            #[trigger]
            takes_out(visible, tools, i) && tools[i].exposure == ToolExposure::Deferred
                ==> places.contains(i),
    decreases tools.len(),
{
    if tools.len() == 0 {
        Seq::empty()
    } else {
        let shorter = tools.drop_last();
        let before = law_every_deferred_tool_is_left_to_search(visible, shorter);
        let last = tools.len() - 1;
        let tool = tools.last();
        let name = tool.spec.name@;
        law_a_name_stays_shown_unless_it_is_withheld(visible, shorter, name);
        assert forall|i: int| 0 <= i < shorter.len() implies #[trigger] tools[i] == shorter[i] by {}
        assert(tools[last] == tool);
        assert forall|i: int| i != last implies #[trigger] takes_out(visible, tools, i)
            == takes_out(visible, shorter, i) by {
            if 0 <= i < shorter.len() {
                assert forall|j: int| 0 <= j < i implies #[trigger] tools[j] == shorter[j] by {}
            }
        }
        let taken = name != "tool_search"@ && stripped(visible, shorter).0.contains(name)
            && tool.exposure != ToolExposure::Direct;
        assert(taken == takes_out(visible, tools, last)) by {
            if takes_out(visible, tools, last) {
                assert forall|i: int|
                    0 <= i < shorter.len() && (
                    #[trigger] shorter[i]).spec.name@ == name implies shorter[i].exposure
                    == ToolExposure::Direct by {
                    assert(tools[i] == shorter[i]);
                }
            }
            if taken {
                assert forall|j: int|
                    0 <= j < last && (#[trigger] tools[j]).spec.name@ == name implies tools[j].exposure
                    == ToolExposure::Direct by {
                    assert(tools[j] == shorter[j]);
                }
            }
        }
        if taken && tool.exposure == ToolExposure::Deferred {
            let places = before.push(last);
            assert forall|i: int| #[trigger]
                takes_out(visible, tools, i) && tools[i].exposure
                    == ToolExposure::Deferred implies places.contains(i) by {
                if i == last {
                    assert(places[places.len() - 1] == i);
                } else {
                    assert(takes_out(visible, shorter, i));
                    assert(before.contains(i));
                    let k = choose|k: int| 0 <= k < before.len() && before[k] == i;
                    assert(places[k] == i);
                }
            }
            assert forall|k: int| 0 <= k < places.len() implies {
                &&& takes_out(visible, tools, #[trigger] places[k])
                &&& tools[places[k]].exposure == ToolExposure::Deferred
                &&& stripped(visible, tools).1[k] == tools[places[k]].spec
            } by {
                if k < before.len() {
                    assert(places[k] == before[k]);
                    assert(takes_out(visible, shorter, before[k]));
                }
            }
            assert forall|k: int, l: int| 0 <= k < l < places.len() implies #[trigger] places[k]
                < #[trigger] places[l] by {
                if l == before.len() {
                    assert(takes_out(visible, shorter, before[k]));
                }
            }
            places
        } else {
            assert forall|k: int| 0 <= k < before.len() implies {
                &&& takes_out(visible, tools, #[trigger] before[k])
                &&& tools[before[k]].exposure == ToolExposure::Deferred
                &&& stripped(visible, tools).1[k] == tools[before[k]].spec
            } by {
                assert(takes_out(visible, shorter, before[k]));
            }
            assert forall|i: int| #[trigger]
                takes_out(visible, tools, i) && tools[i].exposure
                    == ToolExposure::Deferred implies before.contains(i) by {
                assert(takes_out(visible, shorter, i));
            }
            before
        }
    }
}

/// No shown tool that is deferred disappears: once it is no longer shown, its name can be found by
/// searching, unless a hidden registration of the name took it out first.
pub proof fn law_a_deferred_tool_is_shown_or_searched(
    visible: Set<Seq<char>>,
    tools: Seq<RegisteredTool>,
    i: int,
)
    requires
        0 <= i < tools.len(),
        visible.contains(tools[i].spec.name@),
        tools[i].exposure == ToolExposure::Deferred,
        tools[i].spec.name@ != "tool_search"@,
        forall|j: int|
            0 <= j < i && (#[trigger] tools[j]).spec.name@ == tools[i].spec.name@
                ==> tools[j].exposure == ToolExposure::Direct,
    ensures
        stripped(visible, tools).1.contains(tools[i].spec),
        !stripped(visible, tools).0.contains(tools[i].spec.name@),
{
    let places = law_every_deferred_tool_is_left_to_search(visible, tools);
    law_a_name_stays_shown_unless_it_is_withheld(visible, tools, tools[i].spec.name@);
    assert(takes_out(visible, tools, i));
    let k = choose|k: int| 0 <= k < places.len() && places[k] == i;
    assert(stripped(visible, tools).1[k] == tools[i].spec);
}

/// What is shown are the names of the list.
pub proof fn law_the_shown_names_are_those_of_the_list(visible: Seq<String>, name: Seq<char>)
    ensures
        shown(visible).contains(name) <==> exists|i: int|
            0 <= i < visible.len() && (#[trigger] visible[i])@ == name,
{
    if shown(visible).contains(name) {
        let i = choose|i: int| 0 <= i < texts(visible).len() && texts(visible)[i] == name;
        assert(visible[i]@ == name);
    }
    if exists|i: int| 0 <= i < visible.len() && (#[trigger] visible[i])@ == name {
        let i = choose|i: int| 0 <= i < visible.len() && (#[trigger] visible[i])@ == name;
        assert(texts(visible)[i] == name);
    }
}

} // verus!
