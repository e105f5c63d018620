//! The assembler: an instruction buffer that only grows, with labels that
//! name positions in it and tags that remember positions for a later
//! rewrite.

use super::error::Error;
use super::instruction::{encoded, Instruction, InstructionModel};
use vstd::prelude::*;

verus! {

/// The assembler of one compilation.
pub struct Assembler {
    instructions: Vec<Instruction>,
    labels: Vec<(String, usize)>,
    tags: Vec<(u64, usize)>,
}

/// The model of an [`Assembler`]: its instructions, the position that each
/// label names, and the positions that were tagged, the latest last.
pub struct AssemblerModel {
    pub instructions: Seq<InstructionModel>,
    pub labels: Seq<(Seq<char>, usize)>,
    pub tags: Seq<(u64, usize)>,
}

/// The models of a list of instructions, in order.
pub open spec fn instructions_model(instructions: &Vec<Instruction>) -> Seq<InstructionModel> {
    Seq::new(instructions.len() as nat, |i: int| instructions[i]@)
}

/// The models of a list of labels, in order.
pub open spec fn labels_model(labels: &Vec<(String, usize)>) -> Seq<(Seq<char>, usize)> {
    Seq::new(labels.len() as nat, |i: int| (labels[i].0@, labels[i].1))
}

/// The place of the first label named `name` from `from` on, or the number
/// of labels when there is none.
pub open spec fn label_place(labels: Seq<(Seq<char>, usize)>, name: Seq<char>, from: int) -> int
    decreases labels.len() - from,
{
    if 0 <= from < labels.len() {
        if labels[from].0 == name {
            from
        } else {
            label_place(labels, name, from + 1)
        }
    } else {
        labels.len() as int
    }
}

/// The labels after `name` is bound to `position`: a label of that name is
/// bound anew, else the label is added behind the others.
pub open spec fn with_label(labels: Seq<(Seq<char>, usize)>, name: Seq<char>, position: usize) -> Seq<
    (Seq<char>, usize),
> {
    let place = label_place(labels, name, 0);
    if place < labels.len() {
        labels.update(place, (name, position))
    } else {
        labels.push((name, position))
    }
}

/// The place of the last tag with the key `key` before `before`, or -1 when
/// there is none.
pub open spec fn tag_place(tags: Seq<(u64, usize)>, key: u64, before: int) -> int
    decreases before,
{
    if 0 < before <= tags.len() {
        if tags[before - 1].0 == key {
            before - 1
        } else {
            tag_place(tags, key, before - 1)
        }
    } else {
        -1
    }
}

/// The bytes of a list of instructions in bytecode, one behind the other.
pub open spec fn flattened(instructions: Seq<InstructionModel>) -> Seq<u8>
    decreases instructions.len(),
{
    if instructions.len() == 0 {
        Seq::empty()
    } else {
        flattened(instructions.drop_last()) + encoded(instructions.last())
    }
}

/// The offset in bytecode of the instruction at `position`.
pub open spec fn code_offset(instructions: Seq<InstructionModel>, position: int) -> int {
    flattened(instructions.take(position)).len() as int
}

impl View for Assembler {
    type V = AssemblerModel;

    closed spec fn view(&self) -> AssemblerModel {
        AssemblerModel {
            instructions: instructions_model(&self.instructions),
            labels: labels_model(&self.labels),
            tags: self.tags@,
        }
    }
}

/// Every label and every tag names a position in the buffer or its end.
pub open spec fn in_buffer(assembler: AssemblerModel) -> bool {
    &&& forall|i: int|
        0 <= i < assembler.labels.len() ==> (#[trigger] assembler.labels[i]).1
            <= assembler.instructions.len()
    &&& forall|i: int|
        0 <= i < assembler.tags.len() ==> (#[trigger] assembler.tags[i]).1
            <= assembler.instructions.len()
}

impl Assembler {
    /// Every label and every tag names a position in the buffer or its end.
    pub open spec fn wf(&self) -> bool {
        in_buffer(self@)
    }

    /// An assembler with an empty buffer.
    pub fn new() -> (assembler: Assembler)
        ensures
            assembler.wf(),
            assembler@ == (AssemblerModel {
                instructions: Seq::empty(),
                labels: Seq::empty(),
                tags: Seq::empty(),
            }),
    {
        let assembler = Assembler { instructions: Vec::new(), labels: Vec::new(), tags: Vec::new() };
        assert(assembler@.instructions =~= Seq::empty());
        assert(assembler@.labels =~= Seq::empty());
        assembler
    }

    /// The position of the instruction that is pushed next.
    pub fn position(&self) -> (position: usize)
        ensures
            position == self@.instructions.len(),
    {
        self.instructions.len()
    }

    /// Puts an instruction at the end of the buffer.
    pub fn push_instr(&mut self, instruction: Instruction)
        requires
            old(self).wf(),
        ensures
            final(self).wf(),
            final(self)@ == (AssemblerModel {
                instructions: old(self)@.instructions.push(instruction@),
                ..old(self)@
            }),
    {
        let ghost before = self@.instructions;
        self.instructions.push(instruction);
        assert(self@.instructions =~= before.push(instruction@));
    }

    /// Binds the label `name` to the position of the instruction that is
    /// pushed next.
    #[verifier::loop_isolation(false)]
    pub fn push_label(&mut self, name: String)
        requires
            old(self).wf(),
        ensures
            final(self).wf(),
            final(self)@ == (AssemblerModel {
                labels: with_label(
                    old(self)@.labels,
                    name@,
                    old(self)@.instructions.len() as usize,
                ),
                ..old(self)@
            }),
    {
        let ghost before = self@.labels;
        let position = self.instructions.len();
        let mut place: usize = 0;
        while place < self.labels.len() && !(self.labels[place].0 == name)
            invariant
                place <= self.labels.len(),
                self@ == old(self)@,
                label_place(before, name@, place as int) == label_place(before, name@, 0),
            decreases self.labels.len() - place,
        {
            place += 1;
        }
        if place < self.labels.len() {
            self.labels.set(place, (name, position));
            assert(self@.labels =~= before.update(place as int, (name@, position)));
        } else {
            self.labels.push((name, position));
            assert(self@.labels =~= before.push((name@, position)));
        }
    }

    /// The position that the label `name` names. An error when the label is
    /// not bound.
    #[verifier::loop_isolation(false)]
    pub fn get_label(&self, name: &str) -> (position: Result<usize, Error>)
        ensures
            match position {
                Ok(position) => label_place(self@.labels, name@, 0) < self@.labels.len()
                    && position == self@.labels[label_place(self@.labels, name@, 0)].1,
                Err(error) => label_place(self@.labels, name@, 0) >= self@.labels.len() && error@
                    == super::error::ErrorModel::Unknown,
            },
    {
        let mut place: usize = 0;
        while place < self.labels.len() && !crate::util::text::same_text(
            self.labels[place].0.as_str(),
            name,
        )
            invariant
                place <= self.labels.len(),
                label_place(self@.labels, name@, place as int) == label_place(
                    self@.labels,
                    name@,
                    0,
                ),
            decreases self.labels.len() - place,
        {
            place += 1;
        }
        if place < self.labels.len() {
            Ok(self.labels[place].1)
        } else {
            Err(Error::Unknown)
        }
    }

    /// Remembers the position of the instruction that is pushed next under
    /// the key `key`.
    pub fn new_tag(&mut self, key: u64)
        requires
            old(self).wf(),
        ensures
            final(self).wf(),
            final(self)@ == (AssemblerModel {
                tags: old(self)@.tags.push((key, old(self)@.instructions.len() as usize)),
                ..old(self)@
            }),
    {
        let position = self.instructions.len();
        self.tags.push((key, position));
    }

    /// Takes the position that was remembered last under the key `key`.
    #[verifier::loop_isolation(false)]
    pub fn get_tag(&mut self, key: u64) -> (position: Option<usize>)
        requires
            old(self).wf(),
        ensures
            final(self).wf(),
            match position {
                Some(position) => {
                    let place = tag_place(old(self)@.tags, key, old(self)@.tags.len() as int);
                    &&& 0 <= place < old(self)@.tags.len()
                    &&& position == old(self)@.tags[place].1
                    &&& position <= old(self)@.instructions.len()
                    &&& final(self)@ == (AssemblerModel {
                        tags: old(self)@.tags.remove(place),
                        ..old(self)@
                    })
                },
                None => tag_place(old(self)@.tags, key, old(self)@.tags.len() as int) == -1
                    && final(self)@ == old(self)@,
            },
    {
        let mut place = self.tags.len();
        while place > 0 && self.tags[place - 1].0 != key
            invariant
                place <= self.tags.len(),
                self@ == old(self)@,
                tag_place(self@.tags, key, place as int) == tag_place(
                    self@.tags,
                    key,
                    self@.tags.len() as int,
                ),
            decreases place,
        {
            place -= 1;
        }
        if place > 0 {
            let tag = self.tags.remove(place - 1);
            Some(tag.1)
        } else {
            None
        }
    }

    /// The instruction at `position`.
    pub fn get_instr(&self, position: usize) -> (instruction: Option<&Instruction>)
        ensures
            instruction is Some <==> position < self@.instructions.len(),
            instruction matches Some(found) ==> found@ == self@.instructions[position as int],
    {
        if position < self.instructions.len() {
            Some(&self.instructions[position])
        } else {
            None
        }
    }

    /// Puts `instruction` in the place of the instruction at `position`. An
    /// error when there is no instruction at that position.
    pub fn set_instr(&mut self, position: usize, instruction: Instruction) -> (written: Result<
        (),
        Error,
    >)
        requires
            old(self).wf(),
        ensures
            final(self).wf(),
            match written {
                Ok(_) => position < old(self)@.instructions.len() && final(self)@ == (
                AssemblerModel {
                    instructions: old(self)@.instructions.update(position as int, instruction@),
                    ..old(self)@
                }),
                Err(error) => position >= old(self)@.instructions.len() && final(self)@ == old(
                    self,
                )@ && error@ == super::error::ErrorModel::Unknown,
            },
    {
        if position < self.instructions.len() {
            let ghost before = self@.instructions;
            self.instructions.set(position, instruction);
            assert(self@.instructions =~= before.update(position as int, instruction@));
            Ok(())
        } else {
            Err(Error::Unknown)
        }
    }

    /// The bytecode of the buffer.
    pub fn build(self) -> (code: Vec<u8>)
        requires
            self.wf(),
        ensures
            code@ == flattened(self@.instructions),
    {
        self.finalize().0
    }

    /// The bytecode of the buffer, and the offset in it that each label
    /// names.
    #[verifier::loop_isolation(false)]
    pub fn finalize(self) -> (built: (Vec<u8>, Vec<(String, usize)>))
        requires
            self.wf(),
        ensures
            built.0@ == flattened(self@.instructions),
            built.1.len() == self@.labels.len(),
            forall|i: int|
                0 <= i < built.1.len() ==> (#[trigger] built.1[i]).0@ == self@.labels[i].0
                    && built.1[i].1 == code_offset(self@.instructions, self@.labels[i].1 as int),
    {
        let ghost instructions = self@.instructions;
        let mut code: Vec<u8> = Vec::new();
        let mut starts: Vec<usize> = Vec::new();
        starts.push(0);
        assert(instructions.take(0) =~= Seq::empty());
        let mut i: usize = 0;
        while i < self.instructions.len()
            invariant
                i <= self.instructions.len(),
                code@ == flattened(instructions.take(i as int)),
                starts.len() == i + 1,
                forall|j: int|
                    0 <= j <= i ==> #[trigger] starts[j] == code_offset(instructions, j),
            decreases self.instructions.len() - i,
        {
            let bytes = self.instructions[i].encode();
            let mut k: usize = 0;
            let ghost before = code@;
            while k < bytes.len()
                invariant
                    k <= bytes.len(),
                    code@ == before + bytes@.take(k as int),
                decreases bytes.len() - k,
            {
                code.push(bytes[k]);
                assert(code@ =~= before + bytes@.take(k + 1));
                k += 1;
            }
            assert(bytes@.take(bytes.len() as int) =~= bytes@);
            assert(instructions.take(i + 1).drop_last() =~= instructions.take(i as int));
            assert(instructions.take(i + 1).last() == self.instructions[i as int]@);
            starts.push(code.len());
            i += 1;
        }
        assert(instructions.take(i as int) =~= instructions);
        let mut offsets: Vec<(String, usize)> = Vec::new();
        let mut l: usize = 0;
        while l < self.labels.len()
            invariant
                l <= self.labels.len(),
                offsets.len() == l,
                forall|j: int|
                    0 <= j < l ==> (#[trigger] offsets[j]).0@ == self@.labels[j].0 && offsets[j].1
                        == code_offset(instructions, self@.labels[j].1 as int),
            decreases self.labels.len() - l,
        {
            assert(self@.labels[l as int].1 == self.labels[l as int].1);
            let position = self.labels[l].1;
            offsets.push((self.labels[l].0.clone(), starts[position]));
            l += 1;
        }
        (code, offsets)
    }
}

} // verus!
