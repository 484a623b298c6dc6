//! The bytecodes that a ZKsync deployment carries: those of every contract that the deployed
//! one can create, directly or through another, and its own.

use crate::distinct::{
    contents, distinct, distinct_keeps_each_item_once, has_text, insert_bytes,
    lemma_distinct_push,
};
use crate::linking::BytecodeObject;
use crate::text::{before_colon, behind_colon, has_colon, split_at_colon, texts};
use std::collections::VecDeque;
use vstd::prelude::*;
use vstd::string::*;

verus! {

/// What the compiler produced for a contract that another one can create.
#[derive(Debug)]
pub struct FactoryDepArtifact {
    /// The contracts that this one can create.
    pub factory_dependencies: Option<Vec<String>>,
    pub bytecode: Option<BytecodeObject>,
}

/// A contract that the compilation output holds, at its source path and under its name. Others
/// refer to it by an id: the path, a colon and the name.
#[derive(Debug)]
pub struct FactoryDep {
    pub path: String,
    pub name: String,
    pub artifact: FactoryDepArtifact,
}

/// Why a dependency cannot be followed.
#[derive(Debug, Clone, Copy, PartialEq, Eq)]
pub enum Fault {
    /// Its id holds no contract name.
    MissingName,
    /// The compilation output does not hold it.
    NotFound,
    /// The compilation output does not say what it can create.
    NoFactoryDeps,
    /// The compilation output holds no bytecode for it.
    NoBytecode,
    /// Its bytecode lacks library addresses.
    Unlinked,
}

/// A dependency that cannot be followed.
#[derive(Debug)]
pub struct FactoryDepsError {
    pub fault: Fault,
    pub dep: String,
}

/// The first artifact at a path and under a name, looking from position `from` on.
pub open spec fn artifact_from(
    deps: Seq<FactoryDep>,
    path: Seq<char>,
    name: Seq<char>,
    from: int,
) -> Option<FactoryDepArtifact>
    decreases deps.len() - from,
{
    if from >= deps.len() {
        None
    } else if deps[from].path@ == path && deps[from].name@ == name {
        Some(deps[from].artifact)
    } else {
        artifact_from(deps, path, name, from + 1)
    }
}

/// The artifact that an id refers to.
pub open spec fn artifact_of(deps: Seq<FactoryDep>, id: Seq<char>) -> Option<FactoryDepArtifact> {
    artifact_from(deps, before_colon(id), behind_colon(id), 0)
}

/// What is wrong with the dependency under an id, if anything is.
pub open spec fn fault_of(deps: Seq<FactoryDep>, id: Seq<char>) -> Option<Fault> {
    if !has_colon(id) {
        Some(Fault::MissingName)
    } else {
        match artifact_of(deps, id) {
            None => Some(Fault::NotFound),
            Some(artifact) => if artifact.factory_dependencies is None {
                Some(Fault::NoFactoryDeps)
            } else {
                match artifact.bytecode {
                    None => Some(Fault::NoBytecode),
                    Some(BytecodeObject::Unlinked(_)) => Some(Fault::Unlinked),
                    Some(BytecodeObject::Bytecode(_)) => None,
                }
            },
        }
    }
}

/// The ids that the contract under an id can create.
pub open spec fn deps_of(deps: Seq<FactoryDep>, id: Seq<char>) -> Seq<Seq<char>> {
    match artifact_of(deps, id) {
        Some(artifact) => match artifact.factory_dependencies {
            Some(ids) => texts(ids@),
            None => seq![],
        },
        None => seq![],
    }
}

/// The bytecode of the contract under an id.
pub open spec fn code_of(deps: Seq<FactoryDep>, id: Seq<char>) -> Seq<u8> {
    match artifact_of(deps, id) {
        Some(artifact) => match artifact.bytecode {
            Some(BytecodeObject::Bytecode(bytes)) => bytes@,
            _ => seq![],
        },
        None => seq![],
    }
}

/// The bytecodes of contracts.
pub open spec fn codes_of(deps: Seq<FactoryDep>, ids: Seq<Seq<char>>) -> Seq<Seq<u8>> {
    ids.map_values(|id: Seq<char>| code_of(deps, id))
}

/// Whether an id can be reached from the roots by following dependencies along `path`.
pub open spec fn leads_to(
    roots: Seq<Seq<char>>,
    deps: Seq<FactoryDep>,
    path: Seq<Seq<char>>,
    id: Seq<char>,
) -> bool {
    &&& path.len() > 0
    &&& roots.contains(path[0])
    &&& path.last() == id
    &&& forall|i: int|
        #![trigger path[i]]
        0 <= i < path.len() - 1 ==> deps_of(deps, path[i]).contains(path[i + 1])
}

/// Whether a contract can come to be created, directly or through another.
pub open spec fn reachable(roots: Seq<Seq<char>>, deps: Seq<FactoryDep>, id: Seq<char>) -> bool {
    exists|path: Seq<Seq<char>>| leads_to(roots, deps, path, id)
}

/// The ids that are met when the contracts in `order` have been visited: the roots, then what
/// each visited contract can create.
pub open spec fn met(
    roots: Seq<Seq<char>>,
    deps: Seq<FactoryDep>,
    order: Seq<Seq<char>>,
) -> Seq<Seq<char>>
    decreases order.len(),
{
    if order.len() == 0 {
        roots
    } else {
        met(roots, deps, order.drop_last()) + deps_of(deps, order.last())
    }
}

/// Whether `id` is the first of the ids at a position `at` that is not among those visited.
pub open spec fn first_new(
    ids: Seq<Seq<char>>,
    visited: Seq<Seq<char>>,
    id: Seq<char>,
    at: int,
) -> bool {
    &&& 0 <= at < ids.len()
    &&& ids[at] == id
    &&& !visited.contains(id)
    &&& forall|j: int| 0 <= j < at ==> visited.contains(#[trigger] ids[j])
}

/// Whether `order` is how a breadth-first walk begins: each contract in it is the first one
/// met and not yet visited.
pub open spec fn is_walk(
    roots: Seq<Seq<char>>,
    deps: Seq<FactoryDep>,
    order: Seq<Seq<char>>,
) -> bool
    decreases order.len(),
{
    order.len() == 0 || {
        let before = order.drop_last();
        &&& is_walk(roots, deps, before)
        &&& exists|at: int| first_new(met(roots, deps, before), before, order.last(), at)
    }
}

/// Whether `order` is a whole breadth-first walk on which every contract could be followed.
pub open spec fn is_full_walk(
    roots: Seq<Seq<char>>,
    deps: Seq<FactoryDep>,
    order: Seq<Seq<char>>,
) -> bool {
    &&& is_walk(roots, deps, order)
    &&& forall|id: Seq<char>| #[trigger] met(roots, deps, order).contains(id) ==> order.contains(id)
    &&& forall|i: int| 0 <= i < order.len() ==> fault_of(deps, #[trigger] order[i]) is None
}

/// Whether `order` is a breadth-first walk that stops at its last contract, the first one with
/// a fault.
pub open spec fn is_failed_walk(
    roots: Seq<Seq<char>>,
    deps: Seq<FactoryDep>,
    order: Seq<Seq<char>>,
    fault: Fault,
    dep: Seq<char>,
) -> bool {
    &&& is_walk(roots, deps, order)
    &&& order.len() > 0
    &&& order.last() == dep
    &&& fault_of(deps, dep) == Some(fault)
    &&& forall|i: int| 0 <= i < order.len() - 1 ==> fault_of(deps, #[trigger] order[i]) is None
}

/// The bytecodes that a walk collects, the deployed contract's own among them.
pub open spec fn collected(
    deps: Seq<FactoryDep>,
    order: Seq<Seq<char>>,
    bytecode: Seq<u8>,
) -> Seq<Seq<u8>> {
    distinct(codes_of(deps, order).push(bytecode))
}

/// What a visited contract can create has been met.
proof fn lemma_met_holds_deps(
    roots: Seq<Seq<char>>,
    deps: Seq<FactoryDep>,
    order: Seq<Seq<char>>,
    i: int,
    id: Seq<char>,
)
    requires
        0 <= i < order.len(),
        deps_of(deps, order[i]).contains(id),
    ensures
        met(roots, deps, order).contains(id),
    decreases order.len(),
{
    let before = order.drop_last();
    let earlier = met(roots, deps, before);
    let added = deps_of(deps, order.last());
    if i < before.len() {
        assert(before[i] == order[i]);
        lemma_met_holds_deps(roots, deps, before, i, id);
        let k = choose|k: int| 0 <= k < earlier.len() && earlier[k] == id;
        assert((earlier + added)[k] == id);
    } else {
        let k = choose|k: int| 0 <= k < added.len() && added[k] == id;
        assert((earlier + added)[earlier.len() + k] == id);
    }
}

/// The roots have been met.
proof fn lemma_met_holds_roots(
    roots: Seq<Seq<char>>,
    deps: Seq<FactoryDep>,
    order: Seq<Seq<char>>,
    id: Seq<char>,
)
    requires
        roots.contains(id),
    ensures
        met(roots, deps, order).contains(id),
    decreases order.len(),
{
    if order.len() > 0 {
        let before = order.drop_last();
        let earlier = met(roots, deps, before);
        lemma_met_holds_roots(roots, deps, before, id);
        let k = choose|k: int| 0 <= k < earlier.len() && earlier[k] == id;
        assert((earlier + deps_of(deps, order.last()))[k] == id);
    }
}

/// What has been met from reachable contracts is reachable.
proof fn lemma_met_is_reachable(
    roots: Seq<Seq<char>>,
    deps: Seq<FactoryDep>,
    order: Seq<Seq<char>>,
    id: Seq<char>,
)
    requires
        forall|i: int| 0 <= i < order.len() ==> reachable(roots, deps, #[trigger] order[i]),
        met(roots, deps, order).contains(id),
    ensures
        reachable(roots, deps, id),
    decreases order.len(),
{
    if order.len() == 0 {
        let path = seq![id];
        assert(leads_to(roots, deps, path, id));
    } else {
        let before = order.drop_last();
        let earlier = met(roots, deps, before);
        let added = deps_of(deps, order.last());
        let k = choose|k: int| 0 <= k < (earlier + added).len() && (earlier + added)[k] == id;
        if k < earlier.len() {
            assert(earlier[k] == id);
            assert forall|i: int| 0 <= i < before.len() implies reachable(
                roots,
                deps,
                #[trigger] before[i],
            ) by {
                assert(before[i] == order[i]);
            }
            lemma_met_is_reachable(roots, deps, before, id);
        } else {
            assert(added[k - earlier.len()] == id);
            assert(reachable(roots, deps, order[order.len() - 1]));
            let path = choose|path: Seq<Seq<char>>| leads_to(roots, deps, path, order.last());
            let longer = path.push(id);
            assert forall|i: int| #![trigger longer[i]] 0 <= i < longer.len() - 1 implies deps_of(
                deps,
                longer[i],
            ).contains(longer[i + 1]) by {
                if i < path.len() - 1 {
                    assert(longer[i] == path[i] && longer[i + 1] == path[i + 1]);
                }
            }
            assert(longer[0] == path[0]);
            assert(leads_to(roots, deps, longer, id));
        }
    }
}

/// A walk visits no contract twice, and only contracts that can come to be created.
pub proof fn walk_visits_reachable_once(
    roots: Seq<Seq<char>>,
    deps: Seq<FactoryDep>,
    order: Seq<Seq<char>>,
)
    requires
        is_walk(roots, deps, order),
    ensures
        order.no_duplicates(),
        forall|i: int| 0 <= i < order.len() ==> reachable(roots, deps, #[trigger] order[i]),
    decreases order.len(),
{
    if order.len() > 0 {
        let before = order.drop_last();
        walk_visits_reachable_once(roots, deps, before);
        let ids = met(roots, deps, before);
        let at = choose|at: int| first_new(ids, before, order.last(), at);
        assert(ids.contains(order.last()));
        lemma_met_is_reachable(roots, deps, before, order.last());
        assert forall|i: int| 0 <= i < order.len() implies reachable(
            roots,
            deps,
            #[trigger] order[i],
        ) by {
            if i < before.len() {
                assert(before[i] == order[i]);
            }
        }
        assert forall|i: int, j: int| 0 <= i < j < order.len() implies order[i] != order[j] by {
            if j < before.len() {
                assert(before[i] == order[i] && before[j] == order[j]);
            } else {
                assert(before[i] == order[i]);
            }
        }
    }
}

/// A whole walk visits exactly the contracts that can come to be created.
pub proof fn full_walk_visits_all_reachable(
    roots: Seq<Seq<char>>,
    deps: Seq<FactoryDep>,
    order: Seq<Seq<char>>,
)
    requires
        is_full_walk(roots, deps, order),
    ensures
        forall|id: Seq<char>| #[trigger] reachable(roots, deps, id) <==> order.contains(id),
{
    walk_visits_reachable_once(roots, deps, order);
    assert forall|id: Seq<char>| #[trigger] reachable(roots, deps, id) implies order.contains(
        id,
    ) by {
        let path = choose|path: Seq<Seq<char>>| leads_to(roots, deps, path, id);
        lemma_path_is_visited(roots, deps, order, path, path.len() - 1);
    }
}

/// Every contract on a path from the roots is in a whole walk.
proof fn lemma_path_is_visited(
    roots: Seq<Seq<char>>,
    deps: Seq<FactoryDep>,
    order: Seq<Seq<char>>,
    path: Seq<Seq<char>>,
    k: int,
)
    requires
        is_full_walk(roots, deps, order),
        path.len() > 0,
        leads_to(roots, deps, path, path.last()),
        0 <= k < path.len(),
    ensures
        order.contains(path[k]),
    decreases k,
{
    if k == 0 {
        lemma_met_holds_roots(roots, deps, order, path[0]);
    } else {
        lemma_path_is_visited(roots, deps, order, path, k - 1);
        let i = choose|i: int| 0 <= i < order.len() && order[i] == path[k - 1];
        assert(deps_of(deps, path[k - 1]).contains(path[k - 1 + 1]));
        lemma_met_holds_deps(roots, deps, order, i, path[k]);
    }
}

/// Of two walks over the same contracts, one begins with the other: there is one breadth-first
/// order.
pub proof fn walks_agree(
    roots: Seq<Seq<char>>,
    deps: Seq<FactoryDep>,
    a: Seq<Seq<char>>,
    b: Seq<Seq<char>>,
)
    requires
        is_walk(roots, deps, a),
        is_walk(roots, deps, b),
        a.len() <= b.len(),
    ensures
        a == b.take(a.len() as int),
    decreases a.len() + b.len(),
{
    if a.len() == 0 {
        assert(b.take(0) =~= a);
    } else if a.len() < b.len() {
        walks_agree(roots, deps, a, b.drop_last());
        assert(b.drop_last().take(a.len() as int) =~= b.take(a.len() as int));
    } else {
        let before = a.drop_last();
        walks_agree(roots, deps, before, b.drop_last());
        assert(b.drop_last().take(before.len() as int) =~= b.drop_last());
        let ids = met(roots, deps, before);
        let i = choose|at: int| first_new(ids, before, a.last(), at);
        let j = choose|at: int| first_new(ids, before, b.last(), at);
        if i < j {
            assert(before.contains(ids[i]));
        }
        if j < i {
            assert(before.contains(ids[j]));
        }
        assert(a =~= before.push(a.last()));
        assert(b =~= before.push(b.last()));
        assert(b.take(a.len() as int) =~= b);
    }
}

/// A walk cannot both come to its end and fail, and it fails at one contract only.
pub proof fn walk_has_one_outcome(
    roots: Seq<Seq<char>>,
    deps: Seq<FactoryDep>,
    failed: Seq<Seq<char>>,
    fault: Fault,
    dep: Seq<char>,
    other: Seq<Seq<char>>,
)
    requires
        is_failed_walk(roots, deps, failed, fault, dep),
    ensures
        !is_full_walk(roots, deps, other),
        forall|f: Fault, d: Seq<char>| #[trigger]
            is_failed_walk(roots, deps, other, f, d) ==> other == failed && f == fault && d == dep,
{
    if is_full_walk(roots, deps, other) {
        full_walk_visits_all_reachable(roots, deps, other);
        walk_visits_reachable_once(roots, deps, failed);
        assert(reachable(roots, deps, failed[failed.len() - 1]));
        let i = choose|i: int| 0 <= i < other.len() && other[i] == dep;
        assert(fault_of(deps, other[i]) is None);
    }
    assert forall|f: Fault, d: Seq<char>| #[trigger]
        is_failed_walk(roots, deps, other, f, d) implies other == failed && f == fault && d
        == dep by {
        if failed.len() <= other.len() {
            walks_agree(roots, deps, failed, other);
            if failed.len() < other.len() {
                assert(other[failed.len() - 1] == failed[failed.len() - 1]);
            } else {
                assert(other.take(failed.len() as int) =~= other);
            }
        } else {
            walks_agree(roots, deps, other, failed);
            assert(failed[other.len() - 1] == other[other.len() - 1]);
        }
    }
}

/// What a whole walk collects: the own bytecode and the bytecodes of all contracts that can
/// come to be created, each once, and nothing else.
pub proof fn collected_is_every_reachable_code(
    roots: Seq<Seq<char>>,
    deps: Seq<FactoryDep>,
    order: Seq<Seq<char>>,
    bytecode: Seq<u8>,
)
    requires
        is_full_walk(roots, deps, order),
    ensures
        collected(deps, order, bytecode).no_duplicates(),
        forall|code: Seq<u8>| #[trigger]
            collected(deps, order, bytecode).contains(code) <==> code == bytecode || exists|
                id: Seq<char>,
            | #[trigger]
                reachable(roots, deps, id) && code_of(deps, id) == code,
{
    full_walk_visits_all_reachable(roots, deps, order);
    let codes = codes_of(deps, order).push(bytecode);
    distinct_keeps_each_item_once(codes);
    assert forall|code: Seq<u8>| #[trigger]
        collected(deps, order, bytecode).contains(code) <==> code == bytecode || exists|
            id: Seq<char>,
        | #[trigger]
            reachable(roots, deps, id) && code_of(deps, id) == code by {
        if codes.contains(code) {
            let k = choose|k: int| 0 <= k < codes.len() && codes[k] == code;
            if k < order.len() {
                assert(order.contains(order[k]));
                assert(reachable(roots, deps, order[k]));
                assert(code_of(deps, order[k]) == code);
            }
        }
        if code == bytecode {
            assert(codes[order.len() as int] == code);
        }
        if exists|id: Seq<char>| #[trigger]
            reachable(roots, deps, id) && code_of(deps, id) == code {
            let id = choose|id: Seq<char>| #[trigger]
                reachable(roots, deps, id) && code_of(deps, id) == code;
            let k = choose|k: int| 0 <= k < order.len() && order[k] == id;
            assert(codes[k] == code);
        }
    }
}

/// Whether every contract that can come to be created can be followed.
pub open spec fn all_can_be_followed(roots: Seq<Seq<char>>, deps: Seq<FactoryDep>) -> bool {
    forall|id: Seq<char>| #[trigger] reachable(roots, deps, id) ==> fault_of(deps, id) is None
}

/// Whether bytecodes are those that a whole walk collects: the own one and those of all contracts
/// that can come to be created, each once.
pub open spec fn is_collection(
    roots: Seq<Seq<char>>,
    deps: Seq<FactoryDep>,
    bytecode: Seq<u8>,
    codes: Seq<Seq<u8>>,
) -> bool {
    &&& exists|order: Seq<Seq<char>>| #[trigger]
        is_full_walk(roots, deps, order) && codes == collected(deps, order, bytecode)
    &&& codes.no_duplicates()
    &&& forall|code: Seq<u8>| #[trigger]
        codes.contains(code) <==> code == bytecode || exists|id: Seq<char>| #[trigger]
            reachable(roots, deps, id) && code_of(deps, id) == code
}

/// Whether an error is that of the first contract on a walk that cannot be followed.
pub open spec fn is_first_fault(
    roots: Seq<Seq<char>>,
    deps: Seq<FactoryDep>,
    error: FactoryDepsError,
) -> bool {
    exists|order: Seq<Seq<char>>| #[trigger]
        is_failed_walk(roots, deps, order, error.fault, error.dep@)
}

/// The ids in the lists of the first `count` contracts, behind the roots.
spec fn listed(roots: Seq<Seq<char>>, deps: Seq<FactoryDep>, count: int) -> Seq<Seq<char>>
    decreases count,
{
    if count <= 0 {
        roots
    } else {
        let earlier = listed(roots, deps, count - 1);
        match deps[count - 1].artifact.factory_dependencies {
            Some(ids) => earlier + texts(ids@),
            None => earlier,
        }
    }
}

/// What is listed stays listed when more contracts are looked at.
proof fn lemma_listed_grows(
    roots: Seq<Seq<char>>,
    deps: Seq<FactoryDep>,
    low: int,
    high: int,
    id: Seq<char>,
)
    requires
        0 <= low <= high <= deps.len(),
        listed(roots, deps, low).contains(id),
    ensures
        listed(roots, deps, high).contains(id),
    decreases high - low,
{
    if low < high {
        let before = listed(roots, deps, low);
        let k = choose|k: int| 0 <= k < before.len() && before[k] == id;
        assert(listed(roots, deps, low + 1)[k] == id);
        lemma_listed_grows(roots, deps, low + 1, high, id);
    }
}

/// The dependencies of a contract that is found from some position on are listed.
proof fn lemma_found_is_listed(
    roots: Seq<Seq<char>>,
    deps: Seq<FactoryDep>,
    path: Seq<char>,
    name: Seq<char>,
    from: int,
    id: Seq<char>,
)
    requires
        0 <= from,
        artifact_from(deps, path, name, from) matches Some(artifact) && (
        artifact.factory_dependencies matches Some(ids) && texts(ids@).contains(id)),
    ensures
        listed(roots, deps, deps.len() as int).contains(id),
    decreases deps.len() - from,
{
    if deps[from].path@ == path && deps[from].name@ == name {
        let ids = texts(deps[from].artifact.factory_dependencies->Some_0@);
        let earlier = listed(roots, deps, from);
        let k = choose|k: int| 0 <= k < ids.len() && ids[k] == id;
        assert(listed(roots, deps, from + 1)[earlier.len() + k] == id);
        lemma_listed_grows(roots, deps, from + 1, deps.len() as int, id);
    } else {
        lemma_found_is_listed(roots, deps, path, name, from + 1, id);
    }
}

/// What can be met is listed.
proof fn lemma_met_is_listed(
    roots: Seq<Seq<char>>,
    deps: Seq<FactoryDep>,
    order: Seq<Seq<char>>,
    id: Seq<char>,
)
    requires
        met(roots, deps, order).contains(id),
    ensures
        listed(roots, deps, deps.len() as int).contains(id),
    decreases order.len(),
{
    if order.len() == 0 {
        lemma_listed_grows(roots, deps, 0, deps.len() as int, id);
    } else {
        let before = order.drop_last();
        let earlier = met(roots, deps, before);
        let added = deps_of(deps, order.last());
        let k = choose|k: int| 0 <= k < (earlier + added).len() && (earlier + added)[k] == id;
        if k < earlier.len() {
            assert(earlier[k] == id);
            lemma_met_is_listed(roots, deps, before, id);
        } else {
            assert(added[k - earlier.len()] == id);
            let last = order.last();
            lemma_found_is_listed(roots, deps, before_colon(last), behind_colon(last), 0, id);
        }
    }
}

/// A walk is no longer than the number of ids that are listed.
proof fn lemma_walk_is_bounded(
    roots: Seq<Seq<char>>,
    deps: Seq<FactoryDep>,
    order: Seq<Seq<char>>,
)
    requires
        is_walk(roots, deps, order),
    ensures
        order.len() <= listed(roots, deps, deps.len() as int).to_set().len(),
{
    let all = listed(roots, deps, deps.len() as int);
    walk_visits_reachable_once(roots, deps, order);
    assert forall|i: int| 0 <= i < order.len() implies all.contains(#[trigger] order[i]) by {
        lemma_visited_is_listed(roots, deps, order, i);
    }
    assert(order.to_set().subset_of(all.to_set()));
    order.unique_seq_to_set();
    vstd::seq_lib::seq_to_set_is_finite(all);
    vstd::set_lib::lemma_len_subset(order.to_set(), all.to_set());
}

/// What a walk visits is listed.
proof fn lemma_visited_is_listed(
    roots: Seq<Seq<char>>,
    deps: Seq<FactoryDep>,
    order: Seq<Seq<char>>,
    i: int,
)
    requires
        is_walk(roots, deps, order),
        0 <= i < order.len(),
    ensures
        listed(roots, deps, deps.len() as int).contains(order[i]),
    decreases order.len(),
{
    let before = order.drop_last();
    if i < before.len() {
        lemma_visited_is_listed(roots, deps, before, i);
        assert(before[i] == order[i]);
    } else {
        let ids = met(roots, deps, before);
        let at = choose|at: int| first_new(ids, before, order.last(), at);
        assert(ids.contains(order.last()));
        lemma_met_is_listed(roots, deps, before, order.last());
    }
}

/// A walk that fails does so at a contract that can come to be created.
pub proof fn failed_walk_stops_at_reachable(
    roots: Seq<Seq<char>>,
    deps: Seq<FactoryDep>,
    order: Seq<Seq<char>>,
    fault: Fault,
    dep: Seq<char>,
)
    requires
        is_failed_walk(roots, deps, order, fault, dep),
    ensures
        reachable(roots, deps, dep),
{
    walk_visits_reachable_once(roots, deps, order);
    assert(reachable(roots, deps, order[order.len() - 1]));
}

/// Finds the artifact at a path and under a name.
fn find<'a>(deps: &'a Vec<FactoryDep>, path: &String, name: &String) -> (r: Option<
    &'a FactoryDepArtifact,
>)
    ensures
        match r {
            Some(artifact) => artifact_from(deps@, path@, name@, 0) == Some(*artifact),
            None => artifact_from(deps@, path@, name@, 0) is None,
        },
{
    let mut i: usize = 0;
    while i < deps.len()
        invariant
            i <= deps.len(),
            artifact_from(deps@, path@, name@, 0) == artifact_from(deps@, path@, name@, i as int),
        decreases deps.len() - i,
    {
        if deps[i].path == *path && deps[i].name == *name {
            return Some(&deps[i].artifact);
        }
        i = i + 1;
    }
    None
}

/// What the contract under an id can create, and its bytecode.
fn follow<'a>(deps: &'a Vec<FactoryDep>, id: &String) -> (r: Result<
    (&'a Vec<String>, &'a Vec<u8>),
    Fault,
>)
    ensures
        match r {
            Ok((ids, code)) => {
                &&& fault_of(deps@, id@) is None
                &&& texts(ids@) == deps_of(deps@, id@)
                &&& code@ == code_of(deps@, id@)
            },
            Err(fault) => fault_of(deps@, id@) == Some(fault),
        },
{
    match split_at_colon(id.as_str()) {
        None => Err(Fault::MissingName),
        Some((path, name)) => match find(
            deps,
            &path.to_string(),
            &name.to_string(),
        ) {
            None => Err(Fault::NotFound),
            Some(artifact) => match &artifact.factory_dependencies {
                None => Err(Fault::NoFactoryDeps),
                Some(ids) => match &artifact.bytecode {
                    None => Err(Fault::NoBytecode),
                    Some(BytecodeObject::Unlinked(_)) => Err(Fault::Unlinked),
                    Some(BytecodeObject::Bytecode(code)) => Ok((ids, code)),
                },
            },
        },
    }
}

/// Collects the bytecodes of all contracts that can come to be created from the roots, and the
/// deployed contract's own, each once. It follows the dependencies breadth first and stops at
/// the first one with a fault.
pub fn collect_factory_deps(
    roots: &Vec<String>,
    deps: &Vec<FactoryDep>,
    bytecode: &Vec<u8>,
) -> (r: Result<Vec<Vec<u8>>, FactoryDepsError>)
    ensures
        r is Ok <==> all_can_be_followed(texts(roots@), deps@),
        match r {
            Ok(codes) => is_collection(texts(roots@), deps@, bytecode@, contents(codes@)),
            Err(e) => is_first_fault(texts(roots@), deps@, e),
        },
{
    let ghost start = texts(roots@);
    let ghost limit = listed(start, deps@, deps@.len() as int).to_set().len();
    let mut visited: Vec<String> = Vec::new();
    let mut codes: Vec<Vec<u8>> = Vec::new();
    let mut queue: VecDeque<String> = VecDeque::new();
    push_all(&mut queue, roots);
    let ghost mut popped: Seq<Seq<char>> = seq![];
    assert(popped + texts(queue@) =~= start);
    assert(texts(visited@) =~= seq![]);
    assert(contents(codes@) =~= distinct(codes_of(deps@, texts(visited@))));
    while queue.len() > 0
        invariant
            start == texts(roots@),
            limit == listed(start, deps@, deps@.len() as int).to_set().len(),
            met(start, deps@, texts(visited@)) == popped + texts(queue@),
            forall|i: int| 0 <= i < popped.len() ==> texts(visited@).contains(#[trigger] popped[i]),
            is_walk(start, deps@, texts(visited@)),
            texts(visited@).len() <= limit,
            forall|i: int|
                0 <= i < visited@.len() ==> fault_of(deps@, #[trigger] texts(visited@)[i]) is None,
            contents(codes@) == distinct(codes_of(deps@, texts(visited@))),
        decreases limit - visited@.len(), queue@.len(),
    {
        let ghost order = texts(visited@);
        let ghost waiting = texts(queue@);
        let next = queue.pop_front();
        if let Some(dep) = next {
            let ghost id = dep@;
            proof {
                assert(waiting[0] == id);
                assert(texts(queue@) =~= waiting.skip(1));
                assert(popped + waiting =~= popped.push(id) + texts(queue@));
                assert((popped + waiting)[popped.len() as int] == id);
            }
            if !has_text(&visited, &dep) {
                proof {
                    let ids = met(start, deps@, order);
                    assert forall|j: int| 0 <= j < popped.len() implies order.contains(
                        #[trigger] ids[j],
                    ) by {
                        assert(ids[j] == popped[j]);
                    }
                    assert(first_new(ids, order, id, popped.len() as int));
                    let longer = order.push(id);
                    assert(longer.drop_last() =~= order);
                    assert(first_new(
                        met(start, deps@, longer.drop_last()),
                        longer.drop_last(),
                        longer.last(),
                        popped.len() as int,
                    ));
                    assert(is_walk(start, deps@, order.push(id)));
                    lemma_walk_is_bounded(start, deps@, order.push(id));
                }
                match follow(deps, &dep) {
                    Err(fault) => {
                        proof {
                            let failed = order.push(id);
                            assert forall|i: int| 0 <= i < failed.len() - 1 implies fault_of(
                                deps@,
                                #[trigger] failed[i],
                            ) is None by {
                                assert(failed[i] == texts(visited@)[i]);
                            }
                            assert(is_failed_walk(start, deps@, failed, fault, id));
                            failed_walk_stops_at_reachable(start, deps@, failed, fault, id);
                        }
                        let e = FactoryDepsError { fault, dep };
                        assert(is_failed_walk(
                            texts(roots@),
                            deps@,
                            order.push(id),
                            e.fault,
                            e.dep@,
                        ));
                        return Err(e);
                    },
                    Ok((ids, code)) => {
                        let copy = code.clone();
                        assert(copy@ =~= code@);
                        proof {
                            assert(codes_of(deps@, order.push(id)) =~= codes_of(deps@, order).push(
                                copy@,
                            ));
                            lemma_distinct_push(codes_of(deps@, order), copy@);
                        }
                        insert_bytes(&mut codes, copy);
                        let ghost rest = texts(queue@);
                        push_all(&mut queue, ids);
                        visited.push(dep);
                        proof {
                            assert(texts(visited@) =~= order.push(id));
                            assert(popped.push(id) + (rest + texts(ids@)) =~= (popped.push(id)
                                + rest) + texts(ids@));
                            assert forall|i: int| 0 <= i < popped.push(id).len() implies texts(
                                visited@,
                            ).contains(#[trigger] popped.push(id)[i]) by {
                                if i < popped.len() {
                                    assert(order.contains(popped[i]));
                                    let k = choose|k: int|
                                        0 <= k < order.len() && order[k] == popped[i];
                                    assert(texts(visited@)[k] == popped[i]);
                                } else {
                                    assert(texts(visited@)[order.len() as int] == id);
                                }
                            }
                            assert forall|i: int| 0 <= i < visited@.len() implies fault_of(
                                deps@,
                                #[trigger] texts(visited@)[i],
                            ) is None by {
                                if i < order.len() {
                                    assert(texts(visited@)[i] == order[i]);
                                }
                            }
                            popped = popped.push(id);
                        }
                    },
                }
            } else {
                proof {
                    popped = popped.push(id);
                }
            }
        }
    }
    let own = bytecode.clone();
    assert(own@ =~= bytecode@);
    proof {
        let order = texts(visited@);
        assert(popped + texts(queue@) =~= popped);
        assert(is_full_walk(start, deps@, order));
        lemma_distinct_push(codes_of(deps@, order), bytecode@);
        full_walk_visits_all_reachable(start, deps@, order);
        collected_is_every_reachable_code(start, deps@, order, bytecode@);
    }
    insert_bytes(&mut codes, own);
    assert(contents(codes@) == collected(deps@, texts(visited@), bytecode@));
    Ok(codes)
}

/// Adds texts at the end of a queue.
fn push_all(queue: &mut VecDeque<String>, items: &Vec<String>)
    ensures
        texts(final(queue)@) == texts(old(queue)@) + texts(items@),
{
    let ghost before = texts(queue@);
    let mut i: usize = 0;
    assert(before + texts(items@).take(0) =~= before);
    while i < items.len()
        invariant
            i <= items.len(),
            texts(queue@) == before + texts(items@).take(i as int),
        decreases items.len() - i,
    {
        let ghost so_far = texts(queue@);
        let item = items[i].clone();
        queue.push_back(item);
        i = i + 1;
        assert(texts(queue@) =~= so_far.push(item@));
        assert(before + texts(items@).take(i as int) =~= so_far.push(item@));
    }
    assert(texts(items@).take(i as int) =~= texts(items@));
}

/// What is said of a dependency that cannot be followed.
pub open spec fn fault_text(fault: Fault, dep: Seq<char>) -> Seq<char> {
    match fault {
        Fault::MissingName => "Failed to extract contract name for factory dependency"@,
        Fault::NotFound => "Could not find contract "@ + behind_colon(dep) + " at path "@
            + before_colon(dep) + " for compilation output"@,
        Fault::NoFactoryDeps => "factory deps not found"@,
        Fault::NoBytecode => "Bytecode not found for factory dependency"@,
        Fault::Unlinked => "Bytecode of factory dependency is not linked"@,
    }
}

impl FactoryDepsError {
    /// What is wrong with the dependency, in words.
    pub fn message(&self) -> (r: String)
        requires
            self.fault is NotFound ==> has_colon(self.dep@),
        ensures
            r@ == fault_text(self.fault, self.dep@),
    {
        match self.fault {
            Fault::MissingName => {
                "Failed to extract contract name for factory dependency".to_string()
            },
            Fault::NotFound => {
                let mut out = "Could not find contract ".to_string();
                if let Some((path, name)) = split_at_colon(self.dep.as_str()) {
                    out.append(name);
                    out.append(" at path ");
                    out.append(path);
                }
                out.append(" for compilation output");
                out
            },
            Fault::NoFactoryDeps => "factory deps not found".to_string(),
            Fault::NoBytecode => "Bytecode not found for factory dependency".to_string(),
            Fault::Unlinked => "Bytecode of factory dependency is not linked".to_string(),
        }
    }
}

/// Two whole walks over the same contracts are the same walk.
proof fn lemma_full_walk_is_unique(
    roots: Seq<Seq<char>>,
    deps: Seq<FactoryDep>,
    a: Seq<Seq<char>>,
    b: Seq<Seq<char>>,
)
    requires
        is_full_walk(roots, deps, a),
        is_full_walk(roots, deps, b),
        a.len() <= b.len(),
    ensures
        a == b,
{
    walks_agree(roots, deps, a, b);
    if a.len() < b.len() {
        full_walk_visits_all_reachable(roots, deps, a);
        full_walk_visits_all_reachable(roots, deps, b);
        walk_visits_reachable_once(roots, deps, b);
        let extra = b[a.len() as int];
        assert(b.contains(extra));
        assert(reachable(roots, deps, extra));
        let i = choose|i: int| 0 <= i < a.len() && a[i] == extra;
        assert(b[i] == a[i]);
    }
    assert(b.take(a.len() as int) =~= b);
}

/// What is collected depends on the contracts alone: it is the same bytecodes in the same order
/// each time.
pub proof fn collection_is_unique(
    roots: Seq<Seq<char>>,
    deps: Seq<FactoryDep>,
    bytecode: Seq<u8>,
    a: Seq<Seq<u8>>,
    b: Seq<Seq<u8>>,
)
    requires
        is_collection(roots, deps, bytecode, a),
        is_collection(roots, deps, bytecode, b),
    ensures
        a == b,
{
    let x = choose|order: Seq<Seq<char>>| #[trigger]
        is_full_walk(roots, deps, order) && a == collected(deps, order, bytecode);
    let y = choose|order: Seq<Seq<char>>| #[trigger]
        is_full_walk(roots, deps, order) && b == collected(deps, order, bytecode);
    if x.len() <= y.len() {
        lemma_full_walk_is_unique(roots, deps, x, y);
    } else {
        lemma_full_walk_is_unique(roots, deps, y, x);
    }
}

/// The reported fault depends on the contracts alone.
pub proof fn first_fault_is_unique(
    roots: Seq<Seq<char>>,
    deps: Seq<FactoryDep>,
    a: FactoryDepsError,
    b: FactoryDepsError,
)
    requires
        is_first_fault(roots, deps, a),
        is_first_fault(roots, deps, b),
    ensures
        a.fault == b.fault,
        a.dep@ == b.dep@,
{
    let x = choose|order: Seq<Seq<char>>| #[trigger]
        is_failed_walk(roots, deps, order, a.fault, a.dep@);
    let y = choose|order: Seq<Seq<char>>| #[trigger]
        is_failed_walk(roots, deps, order, b.fault, b.dep@);
    walk_has_one_outcome(roots, deps, x, a.fault, a.dep@, y);
}

/// Where no contract before a position, and none from it on, is at a path and under a name.
proof fn lemma_artifact_from(
    deps: Seq<FactoryDep>,
    path: Seq<char>,
    name: Seq<char>,
    from: int,
    k: int,
)
    requires
        0 <= from <= k <= deps.len(),
        forall|j: int|
            from <= j < k ==> !((#[trigger] deps[j]).path@ == path && deps[j].name@ == name),
        k < deps.len() ==> deps[k].path@ == path && deps[k].name@ == name,
    ensures
        artifact_from(deps, path, name, from) == if k < deps.len() {
            Some(deps[k].artifact)
        } else {
            None
        },
    decreases k - from,
{
    if from < k {
        lemma_artifact_from(deps, path, name, from + 1, k);
    }
}

/// A contract is followed under its id, which is its path, a colon and its name. Of several at one
/// path and under one name the first counts. What it can create is what it lists, and its bytecode
/// is the one it holds, of whatever length. It cannot be followed where it lists nothing, where it
/// holds no bytecode, and where that bytecode lacks library addresses, and for no other reason.
pub proof fn a_contract_is_followed_under_its_id(deps: Seq<FactoryDep>, id: Seq<char>, k: int)
    requires
        id.contains(':'),
        0 <= k < deps.len(),
        deps[k].path@ == before_colon(id),
        deps[k].name@ == behind_colon(id),
        forall|j: int|
            0 <= j < k ==> (#[trigger] deps[j]).path@ != before_colon(id) || deps[j].name@
                != behind_colon(id),
    ensures
        match deps[k].artifact.factory_dependencies {
            None => fault_of(deps, id) == Some(Fault::NoFactoryDeps),
            Some(ids) => {
                &&& deps_of(deps, id).len() == ids@.len()
                &&& forall|i: int|
                    0 <= i < ids@.len() ==> #[trigger] deps_of(deps, id)[i] == ids@[i]@
                &&& match deps[k].artifact.bytecode {
                    None => fault_of(deps, id) == Some(Fault::NoBytecode),
                    Some(BytecodeObject::Unlinked(_)) => fault_of(deps, id) == Some(
                        Fault::Unlinked,
                    ),
                    Some(BytecodeObject::Bytecode(code)) => fault_of(deps, id) is None && code_of(
                        deps,
                        id,
                    ) == code@,
                }
            },
        },
{
    lemma_artifact_from(deps, before_colon(id), behind_colon(id), 0, k);
}

/// An id without a colon names no contract, and an id whose path and name are those of no contract
/// is not found.
pub proof fn an_id_that_names_no_contract_is_not_followed(deps: Seq<FactoryDep>, id: Seq<char>)
    ensures
        !id.contains(':') ==> fault_of(deps, id) == Some(Fault::MissingName),
        id.contains(':') && (forall|j: int|
            0 <= j < deps.len() ==> (#[trigger] deps[j]).path@ != before_colon(id) || deps[j].name@
                != behind_colon(id)) ==> fault_of(deps, id) == Some(Fault::NotFound) && deps_of(
            deps,
            id,
        ).len() == 0,
{
    if forall|j: int|
        0 <= j < deps.len() ==> (#[trigger] deps[j]).path@ != before_colon(id) || deps[j].name@
            != behind_colon(id) {
        lemma_artifact_from(deps, before_colon(id), behind_colon(id), 0, deps.len() as int);
    }
}

/// A contract that is reported because its bytecode lacks library addresses holds such bytecode.
pub proof fn only_unlinked_bytecode_is_unlinked(deps: Seq<FactoryDep>, id: Seq<char>)
    requires
        fault_of(deps, id) == Some(Fault::Unlinked),
    ensures
        exists|k: int|
            0 <= k < deps.len() && (#[trigger] deps[k]).path@ == before_colon(id) && deps[k].name@
                == behind_colon(id) && deps[k].artifact.bytecode matches Some(
                BytecodeObject::Unlinked(_),
            ),
{
    an_id_that_names_no_contract_is_not_followed(deps, id);
    let k = lemma_first_of_id(deps, id, 0);
    a_contract_is_followed_under_its_id(deps, id, k);
}

/// Finds the first contract from some position on that an id refers to.
proof fn lemma_first_of_id(deps: Seq<FactoryDep>, id: Seq<char>, from: int) -> (k: int)
    requires
        0 <= from <= deps.len(),
        forall|j: int|
            0 <= j < from ==> (#[trigger] deps[j]).path@ != before_colon(id) || deps[j].name@
                != behind_colon(id),
        exists|j: int|
            0 <= j < deps.len() && (#[trigger] deps[j]).path@ == before_colon(id) && deps[j].name@
                == behind_colon(id),
    ensures
        0 <= k < deps.len(),
        deps[k].path@ == before_colon(id),
        deps[k].name@ == behind_colon(id),
        forall|j: int|
            0 <= j < k ==> (#[trigger] deps[j]).path@ != before_colon(id) || deps[j].name@
                != behind_colon(id),
    decreases deps.len() - from,
{
    if deps[from].path@ == before_colon(id) && deps[from].name@ == behind_colon(id) {
        from
    } else {
        lemma_first_of_id(deps, id, from + 1)
    }
}

/// The roots can come to be created, and so can what a contract that can come to be created lists.
pub proof fn what_is_created_creates_in_turn(
    roots: Seq<Seq<char>>,
    deps: Seq<FactoryDep>,
    id: Seq<char>,
    next: Seq<char>,
)
    ensures
        roots.contains(id) ==> reachable(roots, deps, id),
        reachable(roots, deps, id) && deps_of(deps, id).contains(next) ==> reachable(
            roots,
            deps,
            next,
        ),
{
    if roots.contains(id) {
        let path = seq![id];
        assert(leads_to(roots, deps, path, id));
    }
    if reachable(roots, deps, id) && deps_of(deps, id).contains(next) {
        let path = choose|path: Seq<Seq<char>>| leads_to(roots, deps, path, id);
        let longer = path.push(next);
        assert forall|i: int| #![trigger longer[i]] 0 <= i < longer.len() - 1 implies deps_of(
            deps,
            longer[i],
        ).contains(longer[i + 1]) by {
            if i < path.len() - 1 {
                assert(longer[i] == path[i] && longer[i + 1] == path[i + 1]);
            }
        }
        assert(longer[0] == path[0]);
        assert(leads_to(roots, deps, longer, next));
    }
}

/// Nothing else can come to be created: what the roots have, and each contract hands on to what it
/// lists, every contract has that can come to be created.
pub proof fn nothing_else_is_created(
    roots: Seq<Seq<char>>,
    deps: Seq<FactoryDep>,
    held: spec_fn(Seq<char>) -> bool,
    id: Seq<char>,
)
    requires
        forall|i: int| 0 <= i < roots.len() ==> held(#[trigger] roots[i]),
        forall|from: Seq<char>, i: int|
            held(from) && 0 <= i < deps_of(deps, from).len() ==> held(
                #[trigger] deps_of(deps, from)[i],
            ),
        reachable(roots, deps, id),
    ensures
        held(id),
{
    let path = choose|path: Seq<Seq<char>>| leads_to(roots, deps, path, id);
    lemma_path_is_held(roots, deps, held, path, path.len() - 1);
}

/// What the roots have, and each contract hands on, everything on a path has.
proof fn lemma_path_is_held(
    roots: Seq<Seq<char>>,
    deps: Seq<FactoryDep>,
    held: spec_fn(Seq<char>) -> bool,
    path: Seq<Seq<char>>,
    k: int,
)
    requires
        forall|i: int| 0 <= i < roots.len() ==> held(#[trigger] roots[i]),
        forall|from: Seq<char>, i: int|
            held(from) && 0 <= i < deps_of(deps, from).len() ==> held(
                #[trigger] deps_of(deps, from)[i],
            ),
        path.len() > 0,
        leads_to(roots, deps, path, path.last()),
        0 <= k < path.len(),
    ensures
        held(path[k]),
    decreases k,
{
    if k == 0 {
        let i = choose|i: int| 0 <= i < roots.len() && roots[i] == path[0];
        assert(held(roots[i]));
    } else {
        lemma_path_is_held(roots, deps, held, path, k - 1);
        let ids = deps_of(deps, path[k - 1]);
        assert(ids.contains(path[k - 1 + 1]));
        let i = choose|i: int| 0 <= i < ids.len() && ids[i] == path[k];
        assert(held(deps_of(deps, path[k - 1])[i]));
    }
}

/// Where every contract that can come to be created is in the compilation output, lists what it can
/// create and holds complete bytecode, of whatever length, all can be followed; and where all can
/// be followed, that is so.
pub proof fn all_can_be_followed_where_all_are_linked(
    roots: Seq<Seq<char>>,
    deps: Seq<FactoryDep>,
)
    ensures
        all_can_be_followed(roots, deps) <==> forall|id: Seq<char>| #[trigger]
            reachable(roots, deps, id) ==> id.contains(':') && exists|k: int|
                {
                    &&& 0 <= k < deps.len()
                    &&& (#[trigger] deps[k]).path@ == before_colon(id)
                    &&& deps[k].name@ == behind_colon(id)
                    &&& forall|j: int|
                        0 <= j < k ==> (#[trigger] deps[j]).path@ != before_colon(id)
                            || deps[j].name@ != behind_colon(id)
                    &&& deps[k].artifact.factory_dependencies is Some
                    &&& deps[k].artifact.bytecode matches Some(BytecodeObject::Bytecode(_))
                },
{
    assert forall|id: Seq<char>| #[trigger] reachable(roots, deps, id) implies (fault_of(deps, id)
        is None <==> id.contains(':') && exists|k: int|
        {
            &&& 0 <= k < deps.len()
            &&& (#[trigger] deps[k]).path@ == before_colon(id)
            &&& deps[k].name@ == behind_colon(id)
            &&& forall|j: int|
                0 <= j < k ==> (#[trigger] deps[j]).path@ != before_colon(id) || deps[j].name@
                    != behind_colon(id)
            &&& deps[k].artifact.factory_dependencies is Some
            &&& deps[k].artifact.bytecode matches Some(BytecodeObject::Bytecode(_))
        }) by {
        an_id_that_names_no_contract_is_not_followed(deps, id);
        if id.contains(':') && exists|j: int|
            0 <= j < deps.len() && (#[trigger] deps[j]).path@ == before_colon(id) && deps[j].name@
                == behind_colon(id) {
            let k = lemma_first_of_id(deps, id, 0);
            a_contract_is_followed_under_its_id(deps, id, k);
            assert forall|m: int|
                {
                    &&& 0 <= m < deps.len()
                    &&& (#[trigger] deps[m]).path@ == before_colon(id)
                    &&& deps[m].name@ == behind_colon(id)
                    &&& forall|j: int|
                        0 <= j < m ==> (#[trigger] deps[j]).path@ != before_colon(id)
                            || deps[j].name@ != behind_colon(id)
                } implies m == k by {
                if m < k {
                    assert(deps[m].path@ != before_colon(id) || deps[m].name@ != behind_colon(id));
                }
                if k < m {
                    assert(deps[k].path@ != before_colon(id) || deps[k].name@ != behind_colon(id));
                }
            }
        }
    }
}

/// What is collected are the deployed contract's bytecode and that of every contract that can come
/// to be created, each once, whatever their lengths, and nothing else.
pub proof fn every_bytecode_is_collected_once(
    roots: Seq<Seq<char>>,
    deps: Seq<FactoryDep>,
    bytecode: Seq<u8>,
    codes: Seq<Seq<u8>>,
    id: Seq<char>,
    k: int,
)
    requires
        is_collection(roots, deps, bytecode, codes),
    ensures
        forall|i: int, j: int| 0 <= i < j < codes.len() ==> codes[i] != codes[j],
        exists|i: int| 0 <= i < codes.len() && codes[i] == bytecode,
        reachable(roots, deps, id) && 0 <= k < deps.len() && deps[k].path@ == before_colon(id)
            && deps[k].name@ == behind_colon(id) && (forall|j: int|
            0 <= j < k ==> (#[trigger] deps[j]).path@ != before_colon(id) || deps[j].name@
                != behind_colon(id)) ==> (deps[k].artifact.bytecode matches Some(
            BytecodeObject::Bytecode(code),
        ) && exists|i: int| 0 <= i < codes.len() && codes[i] == code@),
        forall|i: int|
            0 <= i < codes.len() && #[trigger] codes[i] != bytecode ==> exists|from: Seq<char>|
                #[trigger] reachable(roots, deps, from) && code_of(deps, from) == codes[i],
{
    let order = choose|order: Seq<Seq<char>>| #[trigger]
        is_full_walk(roots, deps, order) && codes == collected(deps, order, bytecode);
    full_walk_visits_all_reachable(roots, deps, order);
    assert(codes.contains(bytecode));
    if reachable(roots, deps, id) && 0 <= k < deps.len() && deps[k].path@ == before_colon(id)
        && deps[k].name@ == behind_colon(id) && (forall|j: int|
        0 <= j < k ==> (#[trigger] deps[j]).path@ != before_colon(id) || deps[j].name@
            != behind_colon(id)) {
        let i = choose|i: int| 0 <= i < order.len() && order[i] == id;
        assert(fault_of(deps, order[i]) is None);
        a_contract_is_followed_under_its_id(deps, id, k);
        assert(codes.contains(code_of(deps, id)));
    }
    assert forall|i: int| 0 <= i < codes.len() && #[trigger] codes[i] != bytecode implies exists|
        from: Seq<char>,
    | #[trigger]
        reachable(roots, deps, from) && code_of(deps, from) == codes[i] by {
        assert(codes.contains(codes[i]));
    }
}

/// The reported contract can come to be created, and has the fault that is reported; and where a
/// root has a fault and none before it has, it is that root that is reported.
pub proof fn the_first_faulty_root_is_reported(
    roots: Seq<Seq<char>>,
    deps: Seq<FactoryDep>,
    e: FactoryDepsError,
    at: int,
)
    requires
        is_first_fault(roots, deps, e),
    ensures
        reachable(roots, deps, e.dep@),
        fault_of(deps, e.dep@) == Some(e.fault),
        0 <= at < roots.len() && fault_of(deps, roots[at]) is Some && (forall|i: int|
            0 <= i < at ==> fault_of(deps, #[trigger] roots[i]) is None) ==> e.dep@ == roots[at],
{
    let failed = choose|order: Seq<Seq<char>>| #[trigger]
        is_failed_walk(roots, deps, order, e.fault, e.dep@);
    failed_walk_stops_at_reachable(roots, deps, failed, e.fault, e.dep@);
    if 0 <= at < roots.len() && fault_of(deps, roots[at]) is Some && (forall|i: int|
        0 <= i < at ==> fault_of(deps, #[trigger] roots[i]) is None) {
        let order = lemma_roots_come_first(roots, deps, at);
        let id = roots[at];
        let longer = order.push(id);
        assert forall|i: int| 0 <= i < order.len() implies fault_of(
            deps,
            #[trigger] order[i],
        ) is None by {
            let j = choose|j: int| 0 <= j < at && roots[j] == order[i];
            assert(fault_of(deps, roots[j]) is None);
        }
        if order.contains(id) {
            let i = choose|i: int| 0 <= i < order.len() && order[i] == id;
            assert(fault_of(deps, order[i]) is None);
        }
        lemma_met_begins_with_roots(roots, deps, order);
        assert(longer.drop_last() =~= order);
        assert(first_new(met(roots, deps, longer.drop_last()), longer.drop_last(), longer.last(), at));
        assert forall|i: int| 0 <= i < longer.len() - 1 implies fault_of(
            deps,
            #[trigger] longer[i],
        ) is None by {
            assert(longer[i] == order[i]);
        }
        let fault = fault_of(deps, id)->Some_0;
        assert(is_failed_walk(roots, deps, longer, fault, id));
        walk_has_one_outcome(roots, deps, failed, e.fault, e.dep@, longer);
    }
}

/// What is met begins with the roots.
proof fn lemma_met_begins_with_roots(
    roots: Seq<Seq<char>>,
    deps: Seq<FactoryDep>,
    order: Seq<Seq<char>>,
)
    ensures
        met(roots, deps, order).len() >= roots.len(),
        forall|i: int| 0 <= i < roots.len() ==> #[trigger] met(roots, deps, order)[i] == roots[i],
    decreases order.len(),
{
    if order.len() > 0 {
        lemma_met_begins_with_roots(roots, deps, order.drop_last());
    }
}

/// A walk begins with the first roots.
proof fn lemma_roots_come_first(
    roots: Seq<Seq<char>>,
    deps: Seq<FactoryDep>,
    count: int,
) -> (order: Seq<Seq<char>>)
    requires
        0 <= count <= roots.len(),
    ensures
        is_walk(roots, deps, order),
        forall|i: int| 0 <= i < count ==> order.contains(#[trigger] roots[i]),
        forall|i: int|
            0 <= i < order.len() ==> exists|j: int|
                0 <= j < count && roots[j] == #[trigger] order[i],
    decreases count,
{
    if count == 0 {
        seq![]
    } else {
        let before = lemma_roots_come_first(roots, deps, count - 1);
        let id = roots[count - 1];
        if before.contains(id) {
            before
        } else {
            let order = before.push(id);
            lemma_met_begins_with_roots(roots, deps, before);
            assert(order.drop_last() =~= before);
            assert(first_new(
                met(roots, deps, order.drop_last()),
                order.drop_last(),
                order.last(),
                count - 1,
            ));
            assert forall|i: int| 0 <= i < count implies order.contains(#[trigger] roots[i]) by {
                if i < count - 1 {
                    assert(before.contains(roots[i]));
                    let j = choose|j: int| 0 <= j < before.len() && before[j] == roots[i];
                    assert(order[j] == roots[i]);
                } else {
                    assert(order[before.len() as int] == id);
                }
            }
            assert forall|i: int| 0 <= i < order.len() implies exists|j: int|
                0 <= j < count && roots[j] == #[trigger] order[i] by {
                if i < before.len() {
                    assert(order[i] == before[i]);
                    let j = choose|j: int| 0 <= j < count - 1 && roots[j] == before[i];
                    assert(roots[j] == order[i]);
                } else {
                    assert(roots[count - 1] == order[i]);
                }
            }
            order
        }
    }
}

/// What is said of a dependency that cannot be followed, in words.
pub proof fn faults_are_told_in_words(dep: Seq<char>)
    ensures
        fault_text(Fault::MissingName, dep)
            == "Failed to extract contract name for factory dependency"@,
        fault_text(Fault::NotFound, dep) == "Could not find contract "@ + behind_colon(dep)
            + " at path "@ + before_colon(dep) + " for compilation output"@,
        fault_text(Fault::NoFactoryDeps, dep) == "factory deps not found"@,
        fault_text(Fault::NoBytecode, dep) == "Bytecode not found for factory dependency"@,
        fault_text(Fault::Unlinked, dep) == "Bytecode of factory dependency is not linked"@,
{
}

} // verus!
