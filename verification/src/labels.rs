//! Label declarations and the index from label names to line numbers.
use crate::ascii::COLON;
use crate::text::next_token;
use crate::text::bytes_eq;
use crate::text::lines_view;
use crate::text::nth_token;
use crate::text::word;
use crate::text::Span;
use vstd::prelude::*;
use vstd::slice::slice_subrange;
use vstd::slice::slice_to_vec;

verus! {

/// Where the name of the label stands that `line` declares. A line declares a
/// label when it holds exactly one word and that word ends in a colon; the name
/// is the word without that colon.
pub open spec fn label_span(line: Seq<u8>) -> Option<Span> {
    match nth_token(line, 0) {
        Some(t) => if nth_token(line, 1) is None && line[t.end - 1] == COLON {
            Some(Span { start: t.start, end: (t.end - 1) as usize })
        } else {
            None
        },
        None => None,
    }
}

/// The name of the label that `line` declares.
pub open spec fn label_name(line: Seq<u8>) -> Option<Seq<u8>> {
    match label_span(line) {
        Some(name) => Some(word(line, name)),
        None => None,
    }
}

/// The label index of a program: each declared name maps to the number of the
/// line after its declaration. Of two declarations of one name the later one
/// counts.
pub open spec fn label_index(program: Seq<Seq<u8>>) -> Map<Seq<u8>, usize>
    decreases program.len(),
{
    if program.len() == 0 {
        Map::empty()
    } else {
        let before = label_index(program.drop_last());
        match label_name(program.last()) {
            Some(name) => before.insert(name, program.len() as usize),
            None => before,
        }
    }
}

/// Line `i` of the program declares the label `name`.
pub open spec fn declares(program: Seq<Seq<u8>>, i: int, name: Seq<u8>) -> bool {
    0 <= i < program.len() && label_name(program[i]) == Some(name)
}

/// The label index holds exactly the names that some line declares.
pub proof fn lemma_label_index_names(program: Seq<Seq<u8>>, name: Seq<u8>)
    ensures
        label_index(program).contains_key(name) <==> exists|i: int| declares(program, i, name),
    decreases program.len(),
{
    if program.len() > 0 {
        let before = program.drop_last();
        let n = program.len() - 1;
        lemma_label_index_names(before, name);
        if label_index(program).contains_key(name) {
            if label_name(program.last()) == Some(name) {
                assert(declares(program, n, name));
            } else {
                let i = choose|i: int| declares(before, i, name);
                assert(declares(program, i, name));
            }
        }
        if exists|i: int| declares(program, i, name) {
            let i = choose|i: int| declares(program, i, name);
            if i < n {
                assert(declares(before, i, name));
            }
        }
    }
}

/// A name maps to the line after its last declaration.
pub proof fn lemma_label_index_target(program: Seq<Seq<u8>>, name: Seq<u8>, i: int)
    requires
        program.len() <= usize::MAX,
        declares(program, i, name),
        forall|j: int| i < j < program.len() ==> !declares(program, j, name),
    ensures
        label_index(program).contains_key(name),
        label_index(program)[name] == i + 1,
    decreases program.len(),
{
    let before = program.drop_last();
    let n = program.len() - 1;
    if i < n {
        assert(!declares(program, n, name));
        assert(declares(before, i, name));
        assert forall|j: int| i < j < before.len() implies !declares(before, j, name) by {
            assert(!declares(program, j, name));
        }
        lemma_label_index_target(before, name, i);
    }
}

/// Finds the name of the label that `line` declares, if it declares one.
pub fn find_label(line: &[u8]) -> (r: Option<Span>)
    ensures
        r == label_span(line@),
        r matches Some(name) ==> name.start <= name.end < line.len(),
{
    proof {
        reveal_with_fuel(nth_token, 2);
    }
    match next_token(line, 0) {
        Some(t) => {
            if line[t.end - 1] == COLON && next_token(line, t.end).is_none() {
                Some(Span { start: t.start, end: t.end - 1 })
            } else {
                None
            }
        },
        None => None,
    }
}

/// One declared label.
struct LabelEntry {
    name: Vec<u8>,
    target: usize,
}

/// The map that a list of declarations, in the order of the program, stands for.
spec fn entries_map(entries: Seq<LabelEntry>) -> Map<Seq<u8>, usize>
    decreases entries.len(),
{
    if entries.len() == 0 {
        Map::empty()
    } else {
        entries_map(entries.drop_last()).insert(entries.last().name@, entries.last().target)
    }
}

/// The labels of a program, by name.
pub struct LabelIndex {
    entries: Vec<LabelEntry>,
}

impl View for LabelIndex {
    type V = Map<Seq<u8>, usize>;

    closed spec fn view(&self) -> Map<Seq<u8>, usize> {
        entries_map(self.entries@)
    }
}

impl LabelIndex {
    /// Builds the index of a program in one pass over its lines.
    pub fn build(program: &Vec<Vec<u8>>) -> (index: LabelIndex)
        ensures
            index@ == label_index(lines_view(program@)),
    {
        let mut entries: Vec<LabelEntry> = Vec::new();
        let mut i: usize = 0;
        assert(lines_view(program@).take(0) =~= Seq::<Seq<u8>>::empty());
        while i < program.len()
            invariant
                i <= program.len(),
                entries_map(entries@) == label_index(lines_view(program@).take(i as int)),
            decreases program.len() - i,
        {
            let line = program[i].as_slice();
            proof {
                let upto = lines_view(program@).take(i as int + 1);
                assert(upto.drop_last() =~= lines_view(program@).take(i as int));
                assert(upto.last() == line@);
            }
            match find_label(line) {
                Some(name) => {
                    let entry = LabelEntry {
                        name: slice_to_vec(slice_subrange(line, name.start, name.end)),
                        target: i + 1,
                    };
                    assert(entries@.push(entry).drop_last() =~= entries@);
                    entries.push(entry);
                },
                None => {},
            }
            i += 1;
        }
        assert(lines_view(program@).take(program.len() as int) =~= lines_view(program@));
        LabelIndex { entries }
    }

    /// The line that a branch to `name` goes to, if the program declares `name`.
    pub fn lookup(&self, name: &[u8]) -> (r: Option<usize>)
        ensures
            r == (if self@.contains_key(name@) {
                Some(self@[name@])
            } else {
                None
            }),
    {
        let mut i: usize = self.entries.len();
        assert(self.entries@.take(i as int) =~= self.entries@);
        while i > 0
            invariant
                i <= self.entries.len(),
                self@.contains_key(name@) == entries_map(self.entries@.take(i as int)).contains_key(
                    name@,
                ),
                self@.contains_key(name@) ==> self@[name@] == entries_map(
                    self.entries@.take(i as int),
                )[name@],
            decreases i,
        {
            let entry = &self.entries[i - 1];
            proof {
                let upto = self.entries@.take(i as int);
                assert(upto.drop_last() =~= self.entries@.take(i as int - 1));
                assert(upto.last() == *entry);
            }
            if bytes_eq(entry.name.as_slice(), name) {
                return Some(entry.target);
            }
            i -= 1;
        }
        None
    }
}

} // verus!
