//! The steps that replace the data file atomically, and a model of the disk
//! that shows what an interrupted replacement leaves behind.

use vstd::prelude::*;
use crate::record::{RecordId, random_id};
use crate::wire::{hyphenated, id_text};

verus! {

/// One step of replacing the data file: the steps run in the order of
/// `write_steps`, and a failing step ends the replacement.
#[derive(Clone, Copy, Debug, PartialEq, Eq, Structural)]
pub enum WriteStep {
    /// Create the data file's directory and its parents where missing.
    CreateParentDir,
    /// Create the temporary file, empty, beside the data file.
    CreateTemp,
    /// Write the whole new contents to the temporary file.
    WriteTemp,
    /// Force the temporary file's contents to stable storage.
    SyncTemp,
    /// Rename the temporary file onto the data file in one operation.
    RenameTempOntoTarget,
}

/// The steps of a replacement, in order.
pub open spec fn write_plan() -> Seq<WriteStep> {
    seq![
        WriteStep::CreateParentDir,
        WriteStep::CreateTemp,
        WriteStep::WriteTemp,
        WriteStep::SyncTemp,
        WriteStep::RenameTempOntoTarget,
    ]
}

/// The steps of a replacement, in order.
pub fn write_steps() -> (r: Vec<WriteStep>)
    ensures
        r@ == write_plan(),
{
    let r = vec![
        WriteStep::CreateParentDir,
        WriteStep::CreateTemp,
        WriteStep::WriteTemp,
        WriteStep::SyncTemp,
        WriteStep::RenameTempOntoTarget,
    ];
    assert(r@ =~= write_plan());
    r
}

/// What the disk holds of one replacement: the data file, the temporary
/// file, and whether the temporary file's contents are on stable storage.
pub struct DiskModel {
    pub dir_exists: bool,
    pub target: Option<Seq<u8>>,
    pub temp: Option<Seq<u8>>,
    pub temp_durable: bool,
}

/// The disk after one step that writes `bytes`.
pub open spec fn apply_step(d: DiskModel, s: WriteStep, bytes: Seq<u8>) -> DiskModel {
    match s {
        WriteStep::CreateParentDir => DiskModel { dir_exists: true, ..d },
        WriteStep::CreateTemp => DiskModel { temp: Some(Seq::empty()), temp_durable: false, ..d },
        WriteStep::WriteTemp => DiskModel { temp: Some(bytes), temp_durable: false, ..d },
        WriteStep::SyncTemp => DiskModel { temp_durable: true, ..d },
        WriteStep::RenameTempOntoTarget => match d.temp {
            Some(t) => DiskModel { target: Some(t), temp: None, ..d },
            None => d,
        },
    }
}

/// The disk after the given steps, in order.
pub open spec fn run_steps(d: DiskModel, steps: Seq<WriteStep>, bytes: Seq<u8>) -> DiskModel
    decreases steps.len(),
{
    if steps.len() == 0 {
        d
    } else {
        apply_step(run_steps(d, steps.drop_last(), bytes), steps.last(), bytes)
    }
}

/// The step to run once `done` steps have succeeded, given whether the last
/// one did: the next step of the plan, and none after a failure or once the
/// rename has run. So the rename runs only after every earlier step succeeded.
pub fn next_step(done: usize, last_ok: bool) -> (r: Option<WriteStep>)
    ensures
        r == if last_ok && done < write_plan().len() {
            Some(write_plan()[done as int])
        } else {
            None::<WriteStep>
        },
{
    if !last_ok {
        return None;
    }
    let steps = write_steps();
    if done < steps.len() {
        Some(steps[done])
    } else {
        None
    }
}

/// A replacement stopped after any number of its steps leaves the data file
/// as it was, and a completed one leaves exactly the new contents: the data
/// file is never missing or partly written by it. When the rename runs, the
/// temporary file holds the whole new contents on stable storage.
pub proof fn lemma_interrupted_write(d: DiskModel, bytes: Seq<u8>, k: int)
    requires
        0 <= k <= write_plan().len(),
    ensures
        run_steps(d, write_plan().take(k), bytes).target == if k == write_plan().len() {
            Some(bytes)
        } else {
            d.target
        },
        run_steps(d, write_plan().take(4), bytes).temp == Some(bytes),
        run_steps(d, write_plan().take(4), bytes).temp_durable,
{
    let p = write_plan();
    assert(p.take(0) =~= Seq::<WriteStep>::empty());
    assert(p.take(1).drop_last() =~= p.take(0));
    assert(p.take(2).drop_last() =~= p.take(1));
    assert(p.take(3).drop_last() =~= p.take(2));
    assert(p.take(4).drop_last() =~= p.take(3));
    assert(p.take(5).drop_last() =~= p.take(4));
    assert(p[0] == WriteStep::CreateParentDir && p.take(1).last() == p[0]);
    assert(p[1] == WriteStep::CreateTemp && p.take(2).last() == p[1]);
    assert(p[2] == WriteStep::WriteTemp && p.take(3).last() == p[2]);
    assert(p[3] == WriteStep::SyncTemp && p.take(4).last() == p[3]);
    assert(p[4] == WriteStep::RenameTempOntoTarget && p.take(5).last() == p[4]);
    assert(run_steps(d, p.take(0), bytes) == d);
    assert(run_steps(d, p.take(1), bytes) == apply_step(d, p[0], bytes));
    assert(run_steps(d, p.take(2), bytes) == apply_step(run_steps(d, p.take(1), bytes), p[1], bytes));
    assert(run_steps(d, p.take(3), bytes) == apply_step(run_steps(d, p.take(2), bytes), p[2], bytes));
    assert(run_steps(d, p.take(4), bytes) == apply_step(run_steps(d, p.take(3), bytes), p[3], bytes));
    assert(run_steps(d, p.take(5), bytes) == apply_step(run_steps(d, p.take(4), bytes), p[4], bytes));
    assert(run_steps(d, p.take(1), bytes).target == d.target);
    assert(run_steps(d, p.take(2), bytes).target == d.target);
    assert(run_steps(d, p.take(3), bytes).temp == Some(bytes));
    assert(run_steps(d, p.take(3), bytes).target == d.target);
    assert(run_steps(d, p.take(4), bytes).temp == Some(bytes));
    assert(run_steps(d, p.take(4), bytes).target == d.target);
    assert(run_steps(d, p.take(5), bytes).target == Some(bytes));
}

/// The name of the temporary file for a replacement, from a UUID.
pub open spec fn temp_name_spec(v: u128) -> Seq<char> {
    ".counters-"@ + hyphenated(v) + ".tmp"@
}

/// The name of the temporary file for a replacement, from an identifier.
pub fn temp_name_for(id: RecordId) -> (r: String)
    ensures
        r@ == temp_name_spec(id.value),
{
    let mut name = String::from_str(".counters-");
    let text = id_text(id);
    name.append(text.as_str());
    name.append(".tmp");
    name
}

/// A temporary file name with a fresh random UUID in it.
pub fn fresh_temp_name() -> (r: String)
    ensures
        exists|v: u128| r@ == temp_name_spec(v),
{
    let id = random_id();
    temp_name_for(id)
}

} // verus!
