//! The build-tool invocation for one package, action and set of features.

use vstd::prelude::*;
use crate::text::{joined, join_with, views};

verus! {

/// What one invocation of the build tool does.
#[derive(Clone, Copy, PartialEq, Eq, Structural, Debug)]
pub enum CargoAction {
    Test,
    Lint,
}

impl CargoAction {
    /// The build tool's subcommand for this action.
    pub open spec fn subcommand(self) -> Seq<char> {
        match self {
            CargoAction::Lint => "clippy"@,
            CargoAction::Test => "test"@,
        }
    }

    /// Arguments after the feature list: linting denies every warning.
    pub open spec fn trailing_args(self) -> Seq<Seq<char>> {
        match self {
            CargoAction::Lint => seq!["--"@, "-D"@, "warnings"@],
            CargoAction::Test => Seq::empty(),
        }
    }

    pub fn as_str(self) -> (r: &'static str)
        ensures
            r@ == self.subcommand(),
    {
        match self {
            CargoAction::Lint => "clippy",
            CargoAction::Test => "test",
        }
    }
}

/// The `--features` pair, present only when at least one feature is enabled.
pub open spec fn features_args(features: Seq<Seq<char>>) -> Seq<Seq<char>> {
    if features.len() == 0 {
        Seq::empty()
    } else {
        seq!["--features"@, joined(features, ","@)]
    }
}

/// Arguments handed to the build tool:
/// `<subcommand> --package <name> [--features a,b] [-- -D warnings]`.
pub open spec fn cargo_args(action: CargoAction, package: Seq<char>, features: Seq<Seq<char>>) -> Seq<Seq<char>> {
    seq![action.subcommand(), "--package"@, package] + features_args(features)
        + action.trailing_args()
}

/// The program that every invocation runs.
pub open spec fn build_tool() -> Seq<char> {
    "cargo"@
}

/// Builds the argument list of one build-tool invocation.
pub fn get_cargo_cmd(action: CargoAction, package: &str, features: &Vec<String>) -> (r: Vec<String>)
    ensures
        views(r@) == cargo_args(action, package@, views(features@)),
{
    let mut args: Vec<String> = Vec::new();
    args.push(String::from_str(action.as_str()));
    args.push(String::from_str("--package"));
    args.push(String::from_str(package));
    if features.len() > 0 {
        args.push(String::from_str("--features"));
        args.push(join_with(features, ","));
    }
    match action {
        CargoAction::Test => {},
        CargoAction::Lint => {
            args.push(String::from_str("--"));
            args.push(String::from_str("-D"));
            args.push(String::from_str("warnings"));
        },
    }
    assert(views(args@) =~= cargo_args(action, package@, views(features@)));
    args
}

/// The command line as printed before it runs: the program and its
/// arguments separated by single spaces.
pub fn command_line(args: &Vec<String>) -> (r: String)
    ensures
        r@ == joined(seq![build_tool()] + views(args@), " "@),
{
    let mut all: Vec<String> = Vec::new();
    all.push(String::from_str("cargo"));
    let mut i: usize = 0;
    while i < args.len()
        invariant
            i <= args.len(),
            views(all@) =~= seq![build_tool()] + views(args@).take(i as int),
        decreases args.len() - i,
    {
        let a = args[i].clone();
        proof {
            assert(views(all@.push(a)) =~= views(all@).push(a@));
            assert(views(args@).take(i + 1) =~= views(args@).take(i as int).push(a@));
        }
        all.push(a);
        i = i + 1;
    }
    assert(views(args@).take(i as int) =~= views(args@));
    join_with(&all, " ")
}

/// The arguments end by denying every warning.
pub open spec fn ends_denying_warnings(args: Seq<Seq<char>>) -> bool {
    args.len() >= 3 && args.subrange(args.len() - 3, args.len() as int) == seq![
        "--"@,
        "-D"@,
        "warnings"@,
    ]
}

/// Lint invocations always deny warnings; test invocations never do.
pub proof fn lemma_only_lint_denies_warnings(package: Seq<char>, features: Seq<Seq<char>>)
    ensures
        ends_denying_warnings(cargo_args(CargoAction::Lint, package, features)),
        !ends_denying_warnings(cargo_args(CargoAction::Test, package, features)),
{
    reveal_strlit("--");
    reveal_strlit("-D");
    reveal_strlit("test");
    reveal_strlit("--features");
    let lint = cargo_args(CargoAction::Lint, package, features);
    let test = cargo_args(CargoAction::Test, package, features);
    assert(lint.subrange(lint.len() - 3, lint.len() as int) =~= seq!["--"@, "-D"@, "warnings"@]);
    if features.len() == 0 {
        assert(test.len() == 3);
        assert(test.subrange(0, 3)[0] == "test"@);
        assert("test"@[0] != "--"@[0]);
    } else {
        assert(test.len() == 5);
        assert(test.subrange(2, 5)[1] == "--features"@);
        assert("--features"@.len() != "-D"@.len());
    }
}

} // verus!
