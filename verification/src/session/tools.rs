//! Which tools a turn may offer: every tool declared to the provider must have an executable
//! source in the request.

use crate::session::failure::{driver_failure, failure_of, DriverFailure};
use crate::text::{cat, join, joined, law_joining_goes_part_by_part, list_has, texts};
use vstd::prelude::*;

verus! {

/// The names of a list, each once, in the order of their first appearance.
pub open spec fn distinct(names: Seq<Seq<char>>) -> Seq<Seq<char>>
    decreases names.len(),
{
    if names.len() == 0 {
        Seq::empty()
    } else {
        let earlier = distinct(names.drop_last());
        if names.drop_last().contains(names.last()) {
            earlier
        } else {
            earlier.push(names.last())
        }
    }
}

/// The visible tools that no source can execute.
pub open spec fn unexecutable(
    visible: Seq<Seq<char>>,
    tools: Seq<Seq<char>>,
    synthesized: Seq<Seq<char>>,
) -> Seq<Seq<char>> {
    visible.filter(|name: Seq<char>| !tools.contains(name) && !synthesized.contains(name))
}

/// The complaint about visible tools without a source.
pub open spec fn unexecutable_message(missing: Seq<Seq<char>>) -> Seq<char> {
    "session tool snapshot declares non-executable tools: "@ + joined(missing, ", "@)
}

proof fn lemma_distinct_members(names: Seq<Seq<char>>, name: Seq<char>)
    ensures
        distinct(names).contains(name) <==> names.contains(name),
    decreases names.len(),
{
    if names.len() > 0 {
        let front = names.drop_last();
        lemma_distinct_members(front, name);
        let earlier = distinct(front);
        if names.contains(name) {
            let i = choose|i: int| 0 <= i < names.len() && names[i] == name;
            if i < front.len() {
                assert(front[i] == name);
            }
        }
        if front.contains(name) {
            let i = choose|i: int| 0 <= i < front.len() && front[i] == name;
            assert(names[i] == name);
        }
        assert(names[names.len() - 1] == names.last());
        if !front.contains(names.last()) {
            let all = earlier.push(names.last());
            if earlier.contains(name) {
                let i = choose|i: int| 0 <= i < earlier.len() && earlier[i] == name;
                assert(all[i] == name);
            }
            if all.contains(name) {
                let i = choose|i: int| 0 <= i < all.len() && all[i] == name;
                if i < earlier.len() {
                    assert(earlier[i] == name);
                }
            }
            assert(all[all.len() - 1] == names.last());
        }
    }
}

/// The names of `declared`, each once, in the order of their first appearance.
pub fn visible_tool_names(declared: &Vec<String>) -> (r: Vec<String>)
    ensures
        texts(r@) == distinct(texts(declared@)),
{
    let mut out: Vec<String> = Vec::new();
    let mut i: usize = 0;
    while i < declared.len()
        invariant
            i <= declared@.len(),
            texts(out@) == distinct(texts(declared@).take(i as int)),
        decreases declared@.len() - i,
    {
        let ghost seen = texts(declared@).take(i as int);
        proof {
            let next = texts(declared@).take(i + 1);
            assert(next.drop_last() =~= seen);
            assert(next.last() == declared@[i as int]@);
            lemma_distinct_members(seen, declared@[i as int]@);
        }
        if !list_has(&out, declared[i].as_str()) {
            out.push(declared[i].clone());
        }
        assert(texts(out@) =~= distinct(texts(declared@).take(i + 1)));
        i = i + 1;
    }
    assert(texts(declared@).take(declared@.len() as int) =~= texts(declared@));
    out
}

/// Refuse a declaration that has no executable source. The sources may hold further tools, but
/// every visible name must be in one of them.
pub fn ensure_snapshot_tools_are_executable(
    visible: &Vec<String>,
    tools: &Vec<String>,
    synthesized: &Vec<String>,
) -> (r: Result<(), DriverFailure>)
    ensures
        ({
            let missing = unexecutable(texts(visible@), texts(tools@), texts(synthesized@));
            match r {
                Ok(_) => missing.len() == 0,
                Err(failure) => missing.len() > 0 && failure@ == failure_of(
                    unexecutable_message(missing),
                ),
            }
        }),
{
    let ghost lacks = |name: Seq<char>|
        !texts(tools@).contains(name) && !texts(synthesized@).contains(name);
    let mut missing: Vec<String> = Vec::new();
    let mut i: usize = 0;
    proof {
        reveal(Seq::filter);
    }
    while i < visible.len()
        invariant
            i <= visible@.len(),
            lacks == (|name: Seq<char>|
                !texts(tools@).contains(name) && !texts(synthesized@).contains(name)),
            texts(missing@) == texts(visible@).take(i as int).filter(lacks),
        decreases visible@.len() - i,
    {
        proof {
            reveal(Seq::filter);
            let next = texts(visible@).take(i + 1);
            assert(next.drop_last() =~= texts(visible@).take(i as int));
            assert(next.last() == visible@[i as int]@);
        }
        if !list_has(tools, visible[i].as_str()) && !list_has(synthesized, visible[i].as_str()) {
            missing.push(visible[i].clone());
        }
        assert(texts(missing@) =~= texts(visible@).take(i + 1).filter(lacks));
        i = i + 1;
    }
    assert(texts(visible@).take(visible@.len() as int) =~= texts(visible@));
    if missing.len() == 0 {
        Ok(())
    } else {
        let names: String = join(&missing, ", ");
        Err(
            driver_failure(
                cat(
                    "session tool snapshot declares non-executable tools: ",
                    names.as_str(),
                ).as_str(),
            ),
        )
    }
}

/// A request is admitted only if each declared tool is in one of its two sources.
pub proof fn law_admission_fails_closed(
    declared: Seq<Seq<char>>,
    tools: Seq<Seq<char>>,
    synthesized: Seq<Seq<char>>,
)
    ensures
        unexecutable(distinct(declared), tools, synthesized).len() == 0 <==> (forall|i: int|
            0 <= i < declared.len() ==> tools.contains(#[trigger] declared[i])
                || synthesized.contains(declared[i])),
{
    let visible = distinct(declared);
    let lacks = |name: Seq<char>| !tools.contains(name) && !synthesized.contains(name);
    let missing = visible.filter(lacks);
    broadcast use vstd::seq_lib::group_filter_ensures;

    if missing.len() == 0 {
        assert forall|i: int| 0 <= i < declared.len() implies tools.contains(#[trigger] declared[i])
            || synthesized.contains(declared[i]) by {
            lemma_distinct_members(declared, declared[i]);
            assert(declared.contains(declared[i]));
            let k = choose|k: int| 0 <= k < visible.len() && visible[k] == declared[i];
            if lacks(visible[k]) {
                assert(missing.contains(visible[k]));
            }
        }
    } else {
        let name = missing[0];
        assert(lacks(name));
        visible.lemma_filter_pred(lacks, 0);
        lemma_filter_member(visible, lacks, name);
        lemma_distinct_members(declared, name);
        let i = choose|i: int| 0 <= i < declared.len() && declared[i] == name;
        assert(!tools.contains(declared[i]) && !synthesized.contains(declared[i]));
    }
}

proof fn lemma_filter_member<A>(s: Seq<A>, keep: spec_fn(A) -> bool, item: A)
    requires
        s.filter(keep).contains(item),
    ensures
        s.contains(item),
    decreases s.len(),
{
    reveal(Seq::filter);
    if s.len() > 0 {
        let front = s.drop_last();
        let sub = front.filter(keep);
        let i = choose|i: int| 0 <= i < s.filter(keep).len() && s.filter(keep)[i] == item;
        if i < sub.len() {
            assert(sub[i] == item);
            lemma_filter_member(front, keep, item);
            let k = choose|k: int| 0 <= k < front.len() && front[k] == item;
            assert(s[k] == item);
        } else {
            assert(s[s.len() - 1] == item);
        }
    }
}

/// The names that a turn offers are the declared ones, each once, in the order of their first
/// appearance.
pub proof fn law_every_declared_tool_is_offered_once(declared: Seq<Seq<char>>, name: Seq<char>)
    ensures
        distinct(declared).contains(name) <==> declared.contains(name),
        distinct(declared).no_duplicates(),
        declared.no_duplicates() ==> distinct(declared) == declared,
    decreases declared.len(),
{
    lemma_distinct_members(declared, name);
    if declared.len() > 0 {
        let front = declared.drop_last();
        let earlier = distinct(front);
        law_every_declared_tool_is_offered_once(front, name);
        lemma_distinct_members(front, declared.last());
        let all = distinct(declared);
        assert forall|i: int, j: int|
            0 <= i < all.len() && 0 <= j < all.len() && i != j implies all[i] != all[j] by {
            if !front.contains(declared.last()) {
                if i == earlier.len() {
                    assert(earlier[j] == all[j]);
                    assert(earlier.contains(all[j]));
                } else if j == earlier.len() {
                    assert(earlier[i] == all[i]);
                    assert(earlier.contains(all[i]));
                } else {
                    assert(earlier[i] == all[i] && earlier[j] == all[j]);
                }
            }
        }
        if declared.no_duplicates() {
            assert forall|i: int, j: int|
                0 <= i < front.len() && 0 <= j < front.len() && i != j implies front[i]
                != front[j] by {
                assert(front[i] == declared[i] && front[j] == declared[j]);
            }
            if front.contains(declared.last()) {
                let i = choose|i: int| 0 <= i < front.len() && front[i] == declared.last();
                assert(declared[i] == declared[declared.len() - 1]);
            }
            assert(distinct(declared) =~= declared);
        }
    }
}

/// The order of the declared names is kept: what is offered of a longer declaration begins with
/// what is offered of a shorter one.
pub proof fn law_the_order_of_the_declaration_is_kept(declared: Seq<Seq<char>>, more: Seq<Seq<char>>)
    ensures
        distinct(declared).is_prefix_of(distinct(declared + more)),
    decreases more.len(),
{
    if more.len() == 0 {
        assert(declared + more =~= declared);
    } else {
        law_the_order_of_the_declaration_is_kept(declared, more.drop_last());
        assert((declared + more).drop_last() =~= declared + more.drop_last());
        assert((declared + more).last() == more.last());
        let shorter = distinct(declared + more.drop_last());
        let all = distinct(declared + more);
        assert(distinct(declared) =~= all.subrange(0, distinct(declared).len() as int)) by {
            assert(distinct(declared) =~= shorter.subrange(0, distinct(declared).len() as int));
        }
    }
}

/// The tools that are complained about are exactly the offered ones that neither source holds.
pub proof fn law_the_missing_tools_are_those_in_no_source(
    visible: Seq<Seq<char>>,
    tools: Seq<Seq<char>>,
    synthesized: Seq<Seq<char>>,
    name: Seq<char>,
)
    ensures
        unexecutable(visible, tools, synthesized).contains(name) <==> visible.contains(name)
            && !tools.contains(name) && !synthesized.contains(name),
        visible.no_duplicates() ==> unexecutable(visible, tools, synthesized).no_duplicates(),
    decreases visible.len(),
{
    let lacks = |n: Seq<char>| !tools.contains(n) && !synthesized.contains(n);
    broadcast use vstd::seq_lib::group_filter_ensures;

    let missing = visible.filter(lacks);
    if missing.contains(name) {
        lemma_filter_member(visible, lacks, name);
        let i = choose|i: int| 0 <= i < missing.len() && missing[i] == name;
        assert(lacks(missing[i]));
    }
    if visible.contains(name) && lacks(name) {
        let k = choose|k: int| 0 <= k < visible.len() && visible[k] == name;
        assert(lacks(visible[k]));
    }
    if visible.no_duplicates() && visible.len() > 0 {
        reveal(Seq::filter);
        let front = visible.drop_last();
        assert forall|i: int, j: int|
            0 <= i < front.len() && 0 <= j < front.len() && i != j implies front[i] != front[j] by {
            assert(front[i] == visible[i] && front[j] == visible[j]);
        }
        law_the_missing_tools_are_those_in_no_source(front, tools, synthesized, name);
        let before = front.filter(lacks);
        assert forall|i: int, j: int|
            0 <= i < missing.len() && 0 <= j < missing.len() && i != j implies missing[i]
            != missing[j] by {
            if missing.len() > before.len() {
                let last = before.len() as int;
                let k = if i == last {
                    j
                } else {
                    i
                };
                if i == last || j == last {
                    assert(before[k] == missing[k]);
                    assert(before.contains(before[k]));
                    lemma_filter_member(front, lacks, before[k]);
                    let m = choose|m: int| 0 <= m < front.len() && front[m] == before[k];
                    assert(visible[m] != visible[visible.len() - 1]);
                } else {
                    assert(before[i] == missing[i] && before[j] == missing[j]);
                }
            }
        }
    }
}

/// The complaint names every missing tool behind the words it opens with, with a comma between
/// two.
pub proof fn law_the_complaint_names_the_missing_tools(
    first: Seq<Seq<char>>,
    second: Seq<Seq<char>>,
    name: Seq<char>,
)
    ensures
        unexecutable_message(seq![name])
            == "session tool snapshot declares non-executable tools: "@ + name,
        first.len() > 0 && second.len() > 0 ==> unexecutable_message(first + second)
            == unexecutable_message(first) + ", "@ + joined(second, ", "@),
{
    law_joining_goes_part_by_part(first, second, name, ", "@);
    if first.len() > 0 && second.len() > 0 {
        assert(unexecutable_message(first + second) =~= unexecutable_message(first) + ", "@
            + joined(second, ", "@));
    }
}

/// The missing tools are in the order in which they are offered: one more name at the end is missing
/// behind the others, or not at all.
pub proof fn law_missing_tools_are_named_in_order(
    visible: Seq<Seq<char>>,
    tools: Seq<Seq<char>>,
    synthesized: Seq<Seq<char>>,
    name: Seq<char>,
)
    ensures
        unexecutable(Seq::empty(), tools, synthesized).len() == 0,
        tools.contains(name) || synthesized.contains(name) ==> unexecutable(
            visible.push(name),
            tools,
            synthesized,
        ) == unexecutable(visible, tools, synthesized),
        !tools.contains(name) && !synthesized.contains(name) ==> unexecutable(
            visible.push(name),
            tools,
            synthesized,
        ) == unexecutable(visible, tools, synthesized).push(name),
{
    reveal(Seq::filter);
    assert(visible.push(name).drop_last() =~= visible);
}

} // verus!
