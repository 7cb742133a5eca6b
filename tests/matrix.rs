use xtask::cargo::{command_line, get_cargo_cmd, CargoAction};
use xtask::matrix::{
    feature_combinations, package_matrix, test_all, test_gpt_disk_io, test_gpt_disk_types,
    test_package, test_uguid, CargoInvocation, MatrixRun, Step,
};
use xtask::task::{parse_task, task_plan, usage, Task};

fn strings(v: &[&str]) -> Vec<String> {
    v.iter().map(|s| s.to_string()).collect()
}

fn args_of(inv: &CargoInvocation) -> Vec<String> {
    inv.args()
}

#[test]
fn action_subcommands() {
    assert_eq!(CargoAction::Lint.as_str(), "clippy");
    assert_eq!(CargoAction::Test.as_str(), "test");
}

#[test]
fn combinations_of_three_flags_in_order() {
    let combos = feature_combinations(&strings(&["bytemuck", "serde", "std"]));
    let expected: Vec<Vec<String>> = vec![
        strings(&[]),
        strings(&["std"]),
        strings(&["serde"]),
        strings(&["serde", "std"]),
        strings(&["bytemuck"]),
        strings(&["bytemuck", "std"]),
        strings(&["bytemuck", "serde"]),
        strings(&["bytemuck", "serde", "std"]),
    ];
    assert_eq!(combos, expected);
}

#[test]
fn combinations_of_no_flags_is_one_empty_set() {
    let combos = feature_combinations(&Vec::new());
    assert_eq!(combos, vec![Vec::<String>::new()]);
}

#[test]
fn matrix_size_is_two_per_combination() {
    assert_eq!(test_uguid().len(), 16);
    assert_eq!(test_gpt_disk_types().len(), 8);
    assert_eq!(test_gpt_disk_io().len(), 4);
    assert_eq!(test_all().len(), 28);
}

#[test]
fn matrix_lints_then_tests_each_combination() {
    let plan = test_gpt_disk_types();
    let combos = [
        strings(&[]),
        strings(&["std"]),
        strings(&["bytemuck"]),
        strings(&["bytemuck", "std"]),
    ];
    for (i, c) in combos.iter().enumerate() {
        assert_eq!(plan[2 * i].action, CargoAction::Lint);
        assert_eq!(plan[2 * i + 1].action, CargoAction::Test);
        assert_eq!(plan[2 * i].features, *c);
        assert_eq!(plan[2 * i + 1].features, *c);
        assert_eq!(plan[2 * i].package, "gpt_disk_types");
    }
}

#[test]
fn every_assignment_appears_once() {
    let plan = test_uguid();
    let mut seen: Vec<Vec<String>> = Vec::new();
    for inv in plan.iter().filter(|i| i.action == CargoAction::Test) {
        assert!(!seen.contains(&inv.features));
        seen.push(inv.features.clone());
    }
    assert_eq!(seen.len(), 8);
}

#[test]
fn test_package_lints_then_tests() {
    let plan = test_package("uguid", &strings(&["serde"]));
    assert_eq!(plan.len(), 2);
    assert_eq!(
        args_of(&plan[0]),
        strings(&["clippy", "--package", "uguid", "--features", "serde", "--", "-D", "warnings"])
    );
    assert_eq!(args_of(&plan[1]), strings(&["test", "--package", "uguid", "--features", "serde"]));
}

#[test]
fn features_argument_only_when_some_flag_is_on() {
    let none = get_cargo_cmd(CargoAction::Test, "uguid", &Vec::new());
    assert_eq!(none, strings(&["test", "--package", "uguid"]));
    assert!(!none.contains(&"--features".to_string()));
    let some = get_cargo_cmd(CargoAction::Test, "uguid", &strings(&["bytemuck", "serde", "std"]));
    assert_eq!(
        some,
        strings(&["test", "--package", "uguid", "--features", "bytemuck,serde,std"])
    );
}

#[test]
fn lint_always_denies_warnings_and_test_never_does() {
    for inv in test_all() {
        let args = inv.args();
        let tail: Vec<String> = args[args.len() - 3..].to_vec();
        let denies = tail == strings(&["--", "-D", "warnings"]);
        assert_eq!(denies, inv.action == CargoAction::Lint);
    }
}

#[test]
fn lint_without_features() {
    assert_eq!(
        get_cargo_cmd(CargoAction::Lint, "gpt_disk_io", &Vec::new()),
        strings(&["clippy", "--package", "gpt_disk_io", "--", "-D", "warnings"])
    );
}

#[test]
fn printed_command_line() {
    let args = get_cargo_cmd(CargoAction::Lint, "uguid", &strings(&["bytemuck", "serde"]));
    assert_eq!(
        command_line(&args),
        "cargo clippy --package uguid --features bytemuck,serde -- -D warnings"
    );
    assert_eq!(command_line(&Vec::new()), "cargo");
}

#[test]
fn package_without_flags_runs_once_each() {
    let plan = package_matrix("reduced", &Vec::new());
    assert_eq!(plan.len(), 2);
    assert_eq!(plan[0].action, CargoAction::Lint);
    assert_eq!(plan[1].action, CargoAction::Test);
    assert_eq!(args_of(&plan[0]), strings(&["clippy", "--package", "reduced", "--", "-D", "warnings"]));
    assert_eq!(args_of(&plan[1]), strings(&["test", "--package", "reduced"]));
}

#[test]
fn failure_mid_matrix_stops_the_run() {
    let plan = test_uguid();
    let mut run = MatrixRun::new(plan.len());
    let mut printed: Vec<String> = Vec::new();
    loop {
        match run.step() {
            Step::Run(i) => {
                printed.push(command_line(&plan[i].args()));
                // the test invocation of the second combination fails
                run.record(i != 3);
            }
            Step::Finished => panic!("the run should have stopped"),
            Step::Aborted => break,
        }
    }
    assert_eq!(printed.len(), 4);
    assert_eq!(printed[3], "cargo test --package uguid --features std");
    assert_eq!(run.step(), Step::Aborted);
}

#[test]
fn run_without_failure_finishes() {
    let mut run = MatrixRun::new(2);
    assert_eq!(run.step(), Step::Run(0));
    run.record(true);
    assert_eq!(run.step(), Step::Run(1));
    run.record(true);
    assert_eq!(run.step(), Step::Finished);
}

#[test]
fn task_selection() {
    let p = |a: &[&str]| parse_task(&strings(a));
    assert_eq!(p(&["xtask", "test_all"]), Some(Task::TestAll));
    assert_eq!(p(&["xtask", "test_uguid"]), Some(Task::TestUguid));
    assert_eq!(p(&["xtask", "test_gpt_disk_types"]), Some(Task::TestGptDiskTypes));
    assert_eq!(p(&["xtask", "test_gpt_disk_io"]), Some(Task::TestGptDiskIo));
    assert_eq!(p(&["xtask", "gen_guids"]), Some(Task::GenGuids));
    assert_eq!(p(&["xtask", "other"]), None);
    assert_eq!(p(&["xtask"]), None);
    assert_eq!(p(&["xtask", "test_all", "gen_guids"]), None);
    assert_eq!(
        usage(),
        "usage: cargo xtask [test_all|test_uguid|test_gpt_disk_types|test_gpt_disk_io|gen_guids]"
    );
}

#[test]
fn task_plans() {
    assert_eq!(task_plan(Task::TestAll).len(), 28);
    assert_eq!(task_plan(Task::TestGptDiskIo)[0].package, "gpt_disk_io");
    assert!(task_plan(Task::GenGuids).is_empty());
}
