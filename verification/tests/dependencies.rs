//! Bytecode that lacks libraries, and the bytecodes that a ZKsync deployment carries.

use forge_create::factory_deps::{
    collect_factory_deps, FactoryDep, FactoryDepArtifact, FactoryDepsError, Fault,
};
use forge_create::linking::{BytecodeObject, EvmBytecode, LinkReference, ZkBytecode};
use forge_create::text::{join_lines, split_at_colon};

const REFUSAL: &str = "Dynamic linking not supported in `create` command - deploy the following library contracts first, then provide the address to link at compile time\n";

fn strings(items: &[&str]) -> Vec<String> {
    items.iter().map(|item| item.to_string()).collect()
}

fn dep(path: &str, name: &str, creates: &[&str], code: &[u8]) -> FactoryDep {
    FactoryDep {
        path: path.to_string(),
        name: name.to_string(),
        artifact: FactoryDepArtifact {
            factory_dependencies: Some(strings(creates)),
            bytecode: Some(BytecodeObject::Bytecode(code.to_vec())),
        },
    }
}

#[test]
fn text_is_split_at_its_first_colons() {
    assert_eq!(split_at_colon("a/b.sol:C"), Some(("a/b.sol", "C")));
    assert_eq!(split_at_colon("a:b:c"), Some(("a", "b")));
    assert_eq!(split_at_colon(":"), Some(("", "")));
    assert_eq!(split_at_colon("é:ü"), Some(("é", "ü")));
    assert_eq!(split_at_colon("abc"), None);
    assert_eq!(split_at_colon(""), None);
}

#[test]
fn lines_are_joined() {
    assert_eq!(join_lines(&vec![]), "");
    assert_eq!(join_lines(&strings(&["a"])), "a");
    assert_eq!(join_lines(&strings(&["a", "", "b"])), "a\n\nb");
}

#[test]
fn complete_bytecode_is_linked() {
    let evm = EvmBytecode {
        object: BytecodeObject::Bytecode(vec![1, 2]),
        link_references: vec![],
    };
    assert_eq!(evm.linked(), Ok(vec![1, 2]));
    let zk = ZkBytecode {
        object: BytecodeObject::Bytecode(vec![3]),
        missing_libraries: vec![],
    };
    assert_eq!(zk.linked(), Ok(vec![3]));
}

#[test]
fn unlinked_bytecode_is_refused_with_its_references() {
    let evm = EvmBytecode {
        object: BytecodeObject::Unlinked("60__$x$__".to_string()),
        link_references: vec![
            LinkReference { path: "a.sol".to_string(), names: strings(&["A", "B"]) },
            LinkReference { path: "c.sol".to_string(), names: strings(&["C"]) },
        ],
    };
    assert_eq!(
        evm.linked(),
        Err(format!("{REFUSAL}\tA: a.sol\n\tB: a.sol\n\tC: c.sol"))
    );
}

#[test]
fn unlinked_zk_bytecode_is_refused_with_each_library_once() {
    let zk = ZkBytecode {
        object: BytecodeObject::Unlinked(String::new()),
        missing_libraries: strings(&["a.sol:A", "b.sol:B", "a.sol:A", "a.sol:A:x"]),
    };
    assert_eq!(zk.linked(), Err(format!("{REFUSAL}\tA: a.sol\n\tB: b.sol")));
}

#[test]
fn a_contract_that_creates_none_carries_itself() {
    assert_eq!(collect_factory_deps(&vec![], &vec![], &vec![9]).unwrap(), vec![vec![9]]);
}

#[test]
fn dependencies_are_followed_breadth_first() {
    let deps = vec![
        dep("a.sol", "A", &["c.sol:C"], &[1]),
        dep("b.sol", "B", &["d.sol:D", "a.sol:A"], &[2]),
        dep("c.sol", "C", &["a.sol:A"], &[3]),
        dep("d.sol", "D", &[], &[4]),
        dep("e.sol", "E", &[], &[5]),
    ];
    let codes =
        collect_factory_deps(&strings(&["a.sol:A", "b.sol:B"]), &deps, &vec![0]).unwrap();
    assert_eq!(codes, vec![vec![1], vec![2], vec![3], vec![4], vec![0]]);
}

#[test]
fn equal_bytecodes_are_carried_once() {
    let deps = vec![
        dep("a.sol", "A", &["b.sol:B"], &[1]),
        dep("b.sol", "B", &["a.sol:A", "b.sol:B"], &[1]),
    ];
    let codes = collect_factory_deps(&strings(&["a.sol:A"]), &deps, &vec![1]).unwrap();
    assert_eq!(codes, vec![vec![1]]);
}

#[test]
fn a_contract_is_found_by_path_and_name() {
    let deps = vec![
        dep("a.sol", "B", &[], &[1]),
        dep("b.sol", "A", &[], &[2]),
        dep("a.sol", "A", &[], &[3]),
        dep("a.sol", "A", &[], &[4]),
    ];
    let codes = collect_factory_deps(&strings(&["a.sol:A"]), &deps, &vec![0]).unwrap();
    assert_eq!(codes, vec![vec![3], vec![0]]);
}

fn fault(roots: &[&str], deps: Vec<FactoryDep>) -> FactoryDepsError {
    collect_factory_deps(&strings(roots), &deps, &vec![0]).unwrap_err()
}

#[test]
fn a_dependency_that_cannot_be_followed_is_reported() {
    let e = fault(&["nameless"], vec![]);
    assert_eq!((e.fault, e.dep.as_str()), (Fault::MissingName, "nameless"));
    assert_eq!(e.message(), "Failed to extract contract name for factory dependency");

    let e = fault(&["a.sol:A"], vec![dep("b.sol", "A", &[], &[1])]);
    assert_eq!((e.fault, e.dep.as_str()), (Fault::NotFound, "a.sol:A"));
    assert_eq!(e.message(), "Could not find contract A at path a.sol for compilation output");

    let mut silent = dep("a.sol", "A", &[], &[1]);
    silent.artifact.factory_dependencies = None;
    silent.artifact.bytecode = None;
    let e = fault(&["a.sol:A"], vec![silent]);
    assert_eq!(e.fault, Fault::NoFactoryDeps);
    assert_eq!(e.message(), "factory deps not found");

    let mut empty = dep("a.sol", "A", &[], &[1]);
    empty.artifact.bytecode = None;
    let e = fault(&["a.sol:A"], vec![empty]);
    assert_eq!(e.fault, Fault::NoBytecode);
    assert_eq!(e.message(), "Bytecode not found for factory dependency");

    let mut unlinked = dep("a.sol", "A", &[], &[1]);
    unlinked.artifact.bytecode = Some(BytecodeObject::Unlinked(String::new()));
    let e = fault(&["a.sol:A"], vec![unlinked]);
    assert_eq!(e.fault, Fault::Unlinked);
    assert_eq!(e.message(), "Bytecode of factory dependency is not linked");
}

#[test]
fn the_first_fault_on_the_way_is_reported() {
    let deps = vec![
        dep("a.sol", "A", &["deep.sol:X"], &[1]),
        dep("b.sol", "B", &["nameless"], &[2]),
    ];
    let e = fault(&["a.sol:A", "b.sol:B"], deps);
    assert_eq!((e.fault, e.dep.as_str()), (Fault::NotFound, "deep.sol:X"));
    let deps = vec![dep("a.sol", "A", &["deep.sol:X"], &[1])];
    let e = fault(&["a.sol:A", "near.sol:N"], deps);
    assert_eq!((e.fault, e.dep.as_str()), (Fault::NotFound, "near.sol:N"));
}

#[test]
fn bytecodes_are_collected_in_the_same_order_each_time() {
    let deps = vec![
        dep("a.sol", "A", &["b.sol:B", "c.sol:C"], &[3]),
        dep("b.sol", "B", &["c.sol:C"], &[1]),
        dep("c.sol", "C", &["a.sol:A"], &[2]),
    ];
    let roots = strings(&["c.sol:C", "b.sol:B"]);
    let first = collect_factory_deps(&roots, &deps, &vec![9]).unwrap();
    assert_eq!(first, vec![vec![2], vec![1], vec![3], vec![9]]);
    assert_eq!(collect_factory_deps(&roots, &deps, &vec![9]).unwrap(), first);
}
