//! The one command-line token that selects what a run does.

use vstd::prelude::*;
use crate::matrix::{
    gpt_disk_io_flags, gpt_disk_types_flags, matrix_plan, plan_views, test_all, test_gpt_disk_io,
    test_gpt_disk_types, test_uguid, uguid_flags, CargoInvocation,
};
use crate::text::views;

verus! {

/// What a run of the task runner does.
#[derive(Debug, Clone, Copy, PartialEq, Eq, Structural)]
pub enum Task {
    TestAll,
    TestUguid,
    TestGptDiskTypes,
    TestGptDiskIo,
    GenGuids,
}

/// The task that the arguments (program name first) select: exactly one
/// argument, naming one of the five tasks.
pub open spec fn task_of(args: Seq<Seq<char>>) -> Option<Task> {
    if args.len() != 2 {
        None
    } else if args[1] == "test_all"@ {
        Some(Task::TestAll)
    } else if args[1] == "test_uguid"@ {
        Some(Task::TestUguid)
    } else if args[1] == "test_gpt_disk_types"@ {
        Some(Task::TestGptDiskTypes)
    } else if args[1] == "test_gpt_disk_io"@ {
        Some(Task::TestGptDiskIo)
    } else if args[1] == "gen_guids"@ {
        Some(Task::GenGuids)
    } else {
        None
    }
}

/// The invocations that a task runs, in order; the generator runs none.
pub open spec fn task_plan_spec(task: Task) -> Seq<(crate::cargo::CargoAction, Seq<char>, Seq<Seq<char>>)> {
    match task {
        Task::TestAll => matrix_plan("uguid"@, uguid_flags()) + matrix_plan(
            "gpt_disk_types"@,
            gpt_disk_types_flags(),
        ) + matrix_plan("gpt_disk_io"@, gpt_disk_io_flags()),
        Task::TestUguid => matrix_plan("uguid"@, uguid_flags()),
        Task::TestGptDiskTypes => matrix_plan("gpt_disk_types"@, gpt_disk_types_flags()),
        Task::TestGptDiskIo => matrix_plan("gpt_disk_io"@, gpt_disk_io_flags()),
        Task::GenGuids => Seq::empty(),
    }
}

pub fn parse_task(args: &Vec<String>) -> (r: Option<Task>)
    ensures
        r == task_of(views(args@)),
{
    if args.len() != 2 {
        return None;
    }
    let a = &args[1];
    assert(a@ == views(args@)[1]);
    if *a == String::from_str("test_all") {
        Some(Task::TestAll)
    } else if *a == String::from_str("test_uguid") {
        Some(Task::TestUguid)
    } else if *a == String::from_str("test_gpt_disk_types") {
        Some(Task::TestGptDiskTypes)
    } else if *a == String::from_str("test_gpt_disk_io") {
        Some(Task::TestGptDiskIo)
    } else if *a == String::from_str("gen_guids") {
        Some(Task::GenGuids)
    } else {
        None
    }
}

/// The line printed when the arguments select no task.
pub fn usage() -> (r: String)
    ensures
        r@ == "usage: cargo xtask [test_all|test_uguid|test_gpt_disk_types|test_gpt_disk_io|gen_guids]"@,
{
    String::from_str("usage: cargo xtask [test_all|test_uguid|test_gpt_disk_types|test_gpt_disk_io|gen_guids]")
}

pub fn task_plan(task: Task) -> (r: Vec<CargoInvocation>)
    ensures
        plan_views(r@) == task_plan_spec(task),
{
    match task {
        Task::TestAll => test_all(),
        Task::TestUguid => test_uguid(),
        Task::TestGptDiskTypes => test_gpt_disk_types(),
        Task::TestGptDiskIo => test_gpt_disk_io(),
        Task::GenGuids => {
            let r: Vec<CargoInvocation> = Vec::new();
            assert(plan_views(r@) =~= Seq::empty());
            r
        },
    }
}

} // verus!
