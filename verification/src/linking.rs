//! Compiled bytecode, and the refusal of bytecode that still lacks library addresses.

use crate::distinct::{
    distinct, distinct_keeps_each_item_once, insert_text, lemma_distinct_push,
};
use crate::text::{
    before_colon, behind_colon, has_colon, join_lines, joined, path_and_name_are_told_apart,
    split_at_colon, texts,
};
use vstd::prelude::*;
use vstd::string::*;

verus! {

/// Bytecode as a compiler left it.
#[derive(Debug)]
pub enum BytecodeObject {
    /// Complete bytecode.
    Bytecode(Vec<u8>),
    /// Bytecode text with placeholders for library addresses.
    Unlinked(String),
}

/// The libraries of one source file that some bytecode refers to.
#[derive(Debug)]
pub struct LinkReference {
    pub path: String,
    pub names: Vec<String>,
}

/// Bytecode of the EVM compiler, with what it refers to.
#[derive(Debug)]
pub struct EvmBytecode {
    pub object: BytecodeObject,
    pub link_references: Vec<LinkReference>,
}

/// Bytecode of the ZKsync compiler, with the libraries that it lacks, each written as its
/// source path, a colon and its name.
#[derive(Debug)]
pub struct ZkBytecode {
    pub object: BytecodeObject,
    pub missing_libraries: Vec<String>,
}

/// What is said of one library that has to be deployed first.
pub open spec fn link_line(name: Seq<char>, path: Seq<char>) -> Seq<char> {
    "\t"@ + name + ": "@ + path
}

/// The lines of the first `count` names of a reference.
pub open spec fn reference_lines(reference: LinkReference, count: int) -> Seq<Seq<char>> {
    Seq::new(count as nat, |i: int| link_line(reference.names@[i]@, reference.path@))
}

/// The lines of all names of all references, in order.
pub open spec fn link_lines(references: Seq<LinkReference>) -> Seq<Seq<char>>
    decreases references.len(),
{
    if references.len() == 0 {
        seq![]
    } else {
        link_lines(references.drop_last()) + reference_lines(
            references.last(),
            references.last().names@.len() as int,
        )
    }
}

/// The line of a library that is written as its path, a colon and its name.
pub open spec fn library_line(library: Seq<char>) -> Seq<char> {
    link_line(behind_colon(library), before_colon(library))
}

/// The lines of missing libraries, without repetition.
pub open spec fn missing_library_lines(libraries: Seq<String>) -> Seq<Seq<char>> {
    distinct(texts(libraries).map_values(|library: Seq<char>| library_line(library)))
}

/// The refusal of bytecode that refers to libraries, with a line for each.
pub open spec fn linking_refusal(lines: Seq<Seq<char>>) -> Seq<char> {
    "Dynamic linking not supported in `create` command - deploy the following library contracts first, then provide the address to link at compile time\n"@
        + joined(lines)
}

/// Writes the line of one library.
fn write_link_line(name: &str, path: &str) -> (r: String)
    ensures
        r@ == link_line(name@, path@),
{
    let mut line = "\t".to_string();
    line.append(name);
    line.append(": ");
    line.append(path);
    line
}

/// Writes the refusal with these lines.
fn write_refusal(lines: &Vec<String>) -> (r: String)
    ensures
        r@ == linking_refusal(texts(lines@)),
{
    let refs = join_lines(lines);
    let mut out =
        "Dynamic linking not supported in `create` command - deploy the following library contracts first, then provide the address to link at compile time\n".to_string();
    out.append(refs.as_str());
    out
}

impl EvmBytecode {
    /// The bytecode, or the refusal that names every library it refers to.
    pub fn linked(self) -> (r: Result<Vec<u8>, String>)
        ensures
            match self.object {
                BytecodeObject::Bytecode(bytes) => r == Ok::<Vec<u8>, String>(bytes),
                BytecodeObject::Unlinked(_) => r matches Err(e) && e@ == linking_refusal(
                    link_lines(self.link_references@),
                ),
            },
    {
        match self.object {
            BytecodeObject::Bytecode(bytes) => Ok(bytes),
            BytecodeObject::Unlinked(_) => {
                let references = self.link_references;
                let mut lines: Vec<String> = Vec::new();
                assert(texts(lines@) =~= link_lines(references@.take(0)));
                let mut i: usize = 0;
                while i < references.len()
                    invariant
                        i <= references.len(),
                        texts(lines@) == link_lines(references@.take(i as int)),
                    decreases references.len() - i,
                {
                    let reference = &references[i];
                    let ghost before = texts(lines@);
                    let mut j: usize = 0;
                    assert(reference_lines(*reference, 0) =~= seq![]);
                    assert(before + reference_lines(*reference, 0) =~= before);
                    while j < reference.names.len()
                        invariant
                            j <= reference.names.len(),
                            texts(lines@) == before + reference_lines(*reference, j as int),
                        decreases reference.names.len() - j,
                    {
                        let line = write_link_line(
                            reference.names[j].as_str(),
                            reference.path.as_str(),
                        );
                        let ghost so_far = texts(lines@);
                        lines.push(line);
                        j = j + 1;
                        assert(texts(lines@) =~= so_far.push(line@));
                        assert(before + reference_lines(*reference, j as int) =~= so_far.push(
                            line@,
                        ));
                    }
                    i = i + 1;
                    assert(references@.take(i as int).drop_last() == references@.take(i - 1));
                }
                assert(references@.take(i as int) == references@);
                Err(write_refusal(&lines))
            },
        }
    }
}

impl ZkBytecode {
    /// The bytecode, or the refusal that names every library it lacks, each once.
    pub fn linked(&self) -> (r: Result<Vec<u8>, String>)
        requires
            self.object is Unlinked ==> forall|i: int|
                0 <= i < self.missing_libraries@.len() ==> has_colon(
                    #[trigger] self.missing_libraries@[i]@,
                ),
        ensures
            match self.object {
                BytecodeObject::Bytecode(bytes) => r matches Ok(b) && b@ == bytes@,
                BytecodeObject::Unlinked(_) => r matches Err(e) && e@ == linking_refusal(
                    missing_library_lines(self.missing_libraries@),
                ),
            },
    {
        match &self.object {
            BytecodeObject::Bytecode(bytes) => {
                let copy = bytes.clone();
                assert(copy@ =~= bytes@);
                Ok(copy)
            },
            BytecodeObject::Unlinked(_) => {
                let libraries = &self.missing_libraries;
                let ghost written = texts(libraries@).map_values(
                    |library: Seq<char>| library_line(library),
                );
                let mut lines: Vec<String> = Vec::new();
                let mut i: usize = 0;
                assert(texts(lines@) =~= distinct(written.take(0)));
                while i < libraries.len()
                    invariant
                        i <= libraries.len(),
                        written == texts(libraries@).map_values(
                            |library: Seq<char>| library_line(library),
                        ),
                        texts(lines@) == distinct(written.take(i as int)),
                        forall|j: int|
                            0 <= j < libraries@.len() ==> has_colon(#[trigger] libraries@[j]@),
                    decreases libraries.len() - i,
                {
                    let ghost library = libraries@[i as int]@;
                    assert(has_colon(library));
                    let parts = split_at_colon(libraries[i].as_str());
                    if let Some((path, name)) = parts {
                        let line = write_link_line(name, path);
                        proof {
                            assert(line@ == written[i as int]);
                            assert(written.take(i + 1) =~= written.take(i as int).push(line@));
                            lemma_distinct_push(written.take(i as int), line@);
                        }
                        insert_text(&mut lines, line);
                    }
                    i = i + 1;
                }
                assert(written.take(i as int) == written);
                Err(write_refusal(&lines))
            },
        }
    }
}

/// The refusal names every library that is referred to.
pub proof fn every_reference_has_a_line(references: Seq<LinkReference>, i: int, j: int)
    requires
        0 <= i < references.len(),
        0 <= j < references[i].names@.len(),
    ensures
        link_lines(references).contains(link_line(references[i].names@[j]@, references[i].path@)),
    decreases references.len(),
{
    let front = references.drop_last();
    let last = references.last();
    let earlier = link_lines(front);
    let added = reference_lines(last, last.names@.len() as int);
    let line = link_line(references[i].names@[j]@, references[i].path@);
    if i < front.len() {
        every_reference_has_a_line(front, i, j);
        let k = choose|k: int| 0 <= k < earlier.len() && earlier[k] == line;
        assert((earlier + added)[k] == line);
    } else {
        assert((earlier + added)[earlier.len() + j] == line);
    }
}

/// The refusal names every library that is missing, in one line each.
pub proof fn every_missing_library_has_one_line(libraries: Seq<String>)
    ensures
        missing_library_lines(libraries).no_duplicates(),
        forall|i: int|
            0 <= i < libraries.len() ==> missing_library_lines(libraries).contains(
                library_line(#[trigger] libraries[i]@),
            ),
{
    let written = texts(libraries).map_values(|library: Seq<char>| library_line(library));
    distinct_keeps_each_item_once(written);
    assert forall|i: int| 0 <= i < libraries.len() implies missing_library_lines(
        libraries,
    ).contains(library_line(#[trigger] libraries[i]@)) by {
        assert(written[i] == library_line(libraries[i]@));
        assert(written.contains(written[i]));
    }
}

/// The line of a library holds its name behind a tab and its path behind a colon and a blank, also
/// where the library is written as its path, a colon and its name.
pub proof fn a_line_holds_name_and_path(name: Seq<char>, path: Seq<char>)
    ensures
        link_line(name, path) == "\t"@ + name + ": "@ + path,
        !path.contains(':') && !name.contains(':') ==> library_line(path.push(':') + name)
            == "\t"@ + name + ": "@ + path,
{
    if !path.contains(':') && !name.contains(':') {
        path_and_name_are_told_apart(path, name, seq![]);
    }
}

/// The refusal says that libraries cannot be linked, and what follows are the lines, joined.
pub proof fn the_refusal_ends_in_its_lines(lines: Seq<Seq<char>>)
    ensures
        linking_refusal(lines)
            == "Dynamic linking not supported in `create` command - deploy the following library contracts first, then provide the address to link at compile time\n"@
            + joined(lines),
{
}

/// The lines of two groups of references are those of the first and then those of the second, and
/// one reference has a line for each of its names, in order.
pub proof fn references_have_their_lines_in_order(
    a: Seq<LinkReference>,
    b: Seq<LinkReference>,
    reference: LinkReference,
)
    ensures
        link_lines(Seq::<LinkReference>::empty()) == Seq::<Seq<char>>::empty(),
        link_lines(a + b) == link_lines(a) + link_lines(b),
        link_lines(seq![reference]).len() == reference.names@.len(),
        forall|i: int|
            0 <= i < reference.names@.len() ==> (#[trigger] link_lines(seq![reference])[i])
                == "\t"@ + reference.names@[i]@ + ": "@ + reference.path@,
    decreases b.len(),
{
    let one = seq![reference];
    assert(one.drop_last() =~= Seq::<LinkReference>::empty());
    assert(link_lines(one.drop_last()) =~= Seq::<Seq<char>>::empty());
    assert(link_lines(one) =~= reference_lines(reference, reference.names@.len() as int));
    if b.len() == 0 {
        assert(a + b =~= a);
        assert(link_lines(a) + link_lines(b) =~= link_lines(a));
    } else {
        references_have_their_lines_in_order(a, b.drop_last(), reference);
        assert((a + b).drop_last() =~= a + b.drop_last());
        assert(link_lines(a + b) =~= link_lines(a) + link_lines(b));
    }
}

/// A line of the refusal is that of a missing library, and a library behind others adds its line
/// unless it is there already.
pub proof fn missing_libraries_have_their_lines_in_order(libraries: Seq<String>, library: String)
    ensures
        missing_library_lines(Seq::<String>::empty()) == Seq::<Seq<char>>::empty(),
        forall|line: Seq<char>| #[trigger]
            missing_library_lines(libraries).contains(line) ==> exists|i: int|
                0 <= i < libraries.len() && line == "\t"@ + behind_colon(
                    (#[trigger] libraries[i])@,
                ) + ": "@ + before_colon(libraries[i]@),
        ({
            let line = "\t"@ + behind_colon(library@) + ": "@ + before_colon(library@);
            let lines = missing_library_lines(libraries);
            missing_library_lines(libraries.push(library)) == if lines.contains(line) {
                lines
            } else {
                lines.push(line)
            }
        }),
{
    let written = texts(libraries).map_values(|library: Seq<char>| library_line(library));
    let more = texts(libraries.push(library)).map_values(
        |library: Seq<char>| library_line(library),
    );
    assert(texts(Seq::<String>::empty()).map_values(|library: Seq<char>| library_line(library))
        =~= Seq::<Seq<char>>::empty());
    assert(more =~= written.push(library_line(library@)));
    lemma_distinct_push(written, library_line(library@));
    distinct_keeps_each_item_once(written);
    assert forall|line: Seq<char>| #[trigger]
        missing_library_lines(libraries).contains(line) implies exists|i: int|
        0 <= i < libraries.len() && line == "\t"@ + behind_colon((#[trigger] libraries[i])@) + ": "@
            + before_colon(libraries[i]@) by {
        let i = choose|i: int| 0 <= i < written.len() && written[i] == line;
        assert(line == library_line(libraries[i]@));
    }
}

} // verus!
