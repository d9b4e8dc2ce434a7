//! The instructions the HTTP front end asks the store to carry out.

use vstd::prelude::*;

verus! {

#[derive(Debug)]
pub struct GetTargetSpec {
    pub key: Vec<u8>,
    pub height: Option<u64>,
}

#[derive(Debug)]
pub struct AtomicGetOneInstruction {
    pub target: GetTargetSpec,
}

#[derive(Debug)]
pub struct ReadNamespaceInstruction {}

#[derive(Debug)]
pub struct AtomicRevertAllInstruction {
    pub target_height: u64,
}

#[derive(Debug)]
pub struct RevertTargetSpec {
    pub key: Vec<u8>,
    pub height: u64,
}

#[derive(Debug)]
pub struct AtomicRevertInstruction {
    pub targets: Vec<RevertTargetSpec>,
}

#[derive(Debug)]
pub struct SwitchNamespaceInstruction {
    pub new_namespace: Vec<u8>,
}

#[derive(Debug)]
pub struct SetTargetSpec {
    pub key: Vec<u8>,
    pub value: Vec<u8>,
}

#[derive(Debug)]
pub struct AtomicSetInstruction {
    pub targets: Vec<SetTargetSpec>,
}

#[derive(Debug)]
pub enum Instruction {
    AtomicGetOne(AtomicGetOneInstruction),
    ReadNamespace(ReadNamespaceInstruction),
    AtomicRevertAll(AtomicRevertAllInstruction),
    AtomicRevert(AtomicRevertInstruction),
    SwitchNamespace(SwitchNamespaceInstruction),
    AtomicSet(AtomicSetInstruction),
}

/// An instruction with its byte strings taken as sequences.
pub enum InstructionModel {
    AtomicGetOne(Seq<u8>, Option<u64>),
    ReadNamespace,
    AtomicRevertAll(u64),
    AtomicRevert(Seq<(Seq<u8>, u64)>),
    SwitchNamespace(Seq<u8>),
    AtomicSet(Seq<(Seq<u8>, Seq<u8>)>),
}

pub open spec fn instruction_model(i: Instruction) -> InstructionModel {
    match i {
        Instruction::AtomicGetOne(g) => InstructionModel::AtomicGetOne(g.target.key@, g.target.height),
        Instruction::ReadNamespace(_) => InstructionModel::ReadNamespace,
        Instruction::AtomicRevertAll(r) => InstructionModel::AtomicRevertAll(r.target_height),
        Instruction::AtomicRevert(r) => InstructionModel::AtomicRevert(
            r.targets@.map_values(|t: RevertTargetSpec| (t.key@, t.height)),
        ),
        Instruction::SwitchNamespace(s) => InstructionModel::SwitchNamespace(s.new_namespace@),
        Instruction::AtomicSet(s) => InstructionModel::AtomicSet(
            s.targets@.map_values(|t: SetTargetSpec| (t.key@, t.value@)),
        ),
    }
}

} // verus!
