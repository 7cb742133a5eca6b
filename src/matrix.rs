//! The feature matrix: every combination of a package's flags, each linted
//! and then tested, and the run that stops at the first failing invocation.

use vstd::prelude::*;
use crate::cargo::{cargo_args, features_args, get_cargo_cmd, CargoAction};
use crate::text::joined;
use crate::text::views;

verus! {

/// `2` to the power `k`.
pub open spec fn pow2(k: nat) -> nat
    decreases k,
{
    if k == 0 {
        1
    } else {
        2 * pow2((k - 1) as nat)
    }
}

/// Every combination of `flags`, each as the enabled flags in declaration
/// order. The first flag varies slowest; each flag is off before it is on.
pub open spec fn combinations(flags: Seq<Seq<char>>) -> Seq<Seq<Seq<char>>>
    decreases flags.len(),
{
    if flags.len() == 0 {
        seq![Seq::empty()]
    } else {
        let rest = combinations(flags.skip(1));
        rest + rest.map_values(|c: Seq<Seq<char>>| seq![flags[0]] + c)
    }
}

/// The flags whose bit is set, in declaration order.
pub open spec fn selected(flags: Seq<Seq<char>>, bits: Seq<bool>) -> Seq<Seq<char>>
    decreases flags.len(),
{
    if flags.len() == 0 || bits.len() == 0 {
        Seq::empty()
    } else if bits[0] {
        seq![flags[0]] + selected(flags.skip(1), bits.skip(1))
    } else {
        selected(flags.skip(1), bits.skip(1))
    }
}

/// The assignment numbered `i` of `k` flags, the first flag being the most
/// significant bit.
pub open spec fn bits_of(i: nat, k: nat) -> Seq<bool>
    decreases k,
{
    if k == 0 {
        Seq::empty()
    } else {
        seq![i >= pow2((k - 1) as nat)] + bits_of(i % pow2((k - 1) as nat), (k - 1) as nat)
    }
}

/// The number of an assignment: the inverse of `bits_of`.
pub open spec fn index_of(bits: Seq<bool>) -> nat
    decreases bits.len(),
{
    if bits.len() == 0 {
        0
    } else {
        (if bits[0] {
            pow2((bits.len() - 1) as nat)
        } else {
            0
        }) + index_of(bits.skip(1))
    }
}

/// The invocations for one package: for each combination in order, a lint
/// and then a test.
pub open spec fn matrix_plan(package: Seq<char>, flags: Seq<Seq<char>>) -> Seq<
    (CargoAction, Seq<char>, Seq<Seq<char>>),
> {
    let combos = combinations(flags);
    Seq::new(
        2 * combos.len(),
        |i: int|
            (
                if i % 2 == 0 {
                    CargoAction::Lint
                } else {
                    CargoAction::Test
                },
                package,
                combos[i / 2],
            ),
    )
}

/// The views of a sequence of string lists.
pub open spec fn combo_views(v: Seq<Vec<String>>) -> Seq<Seq<Seq<char>>> {
    v.map_values(|c: Vec<String>| views(c@))
}

/// One build-tool invocation.
#[derive(Debug)]
pub struct CargoInvocation {
    pub action: CargoAction,
    pub package: String,
    pub features: Vec<String>,
}

impl View for CargoInvocation {
    type V = (CargoAction, Seq<char>, Seq<Seq<char>>);

    open spec fn view(&self) -> Self::V {
        (self.action, self.package@, views(self.features@))
    }
}

/// The views of a sequence of invocations.
pub open spec fn plan_views(v: Seq<CargoInvocation>) -> Seq<(CargoAction, Seq<char>, Seq<Seq<char>>)> {
    v.map_values(|c: CargoInvocation| c@)
}

impl CargoInvocation {
    /// The arguments handed to the build tool.
    pub fn args(&self) -> (r: Vec<String>)
        ensures
            views(r@) == cargo_args(self.action, self.package@, views(self.features@)),
    {
        get_cargo_cmd(self.action, self.package.as_str(), &self.features)
    }
}

/// A copy of `v` with `first` in front.
fn prepend(first: &String, v: &Vec<String>) -> (r: Vec<String>)
    ensures
        views(r@) == seq![first@] + views(v@),
{
    let mut r: Vec<String> = Vec::new();
    r.push(first.clone());
    let mut i: usize = 0;
    while i < v.len()
        invariant
            i <= v.len(),
            views(r@) =~= seq![first@] + views(v@).take(i as int),
        decreases v.len() - i,
    {
        let s = v[i].clone();
        proof {
            assert(views(r@.push(s)) =~= views(r@).push(s@));
            assert(views(v@).take(i + 1) =~= views(v@).take(i as int).push(s@));
        }
        r.push(s);
        i = i + 1;
    }
    assert(views(v@).take(i as int) =~= views(v@));
    r
}

/// A copy of `v`.
fn copy_strings(v: &Vec<String>) -> (r: Vec<String>)
    ensures
        views(r@) == views(v@),
{
    let mut r: Vec<String> = Vec::new();
    let mut i: usize = 0;
    while i < v.len()
        invariant
            i <= v.len(),
            views(r@) =~= views(v@).take(i as int),
        decreases v.len() - i,
    {
        let s = v[i].clone();
        proof {
            assert(views(r@.push(s)) =~= views(r@).push(s@));
            assert(views(v@).take(i + 1) =~= views(v@).take(i as int).push(s@));
        }
        r.push(s);
        i = i + 1;
    }
    assert(views(v@).take(i as int) =~= views(v@));
    r
}

/// Every combination of `flags`, in the order of `combinations`.
pub fn feature_combinations(flags: &Vec<String>) -> (r: Vec<Vec<String>>)
    ensures
        combo_views(r@) == combinations(views(flags@)),
{
    let ghost fl = views(flags@);
    let mut result: Vec<Vec<String>> = Vec::new();
    result.push(Vec::new());
    let mut i: usize = flags.len();
    assert(fl.skip(i as int) =~= Seq::<Seq<char>>::empty());
    assert(views(result@[0]@) =~= Seq::<Seq<char>>::empty());
    assert(combinations(fl.skip(i as int)) == seq![Seq::<Seq<char>>::empty()]);
    assert(combo_views(result@) =~= combinations(fl.skip(i as int)));
    while i > 0
        invariant
            i <= flags.len(),
            fl == views(flags@),
            combo_views(result@) == combinations(fl.skip(i as int)),
        decreases i,
    {
        i = i - 1;
        let ghost prev = combo_views(result@);
        let ghost f = fl[i as int];
        let n = result.len();
        let mut j: usize = 0;
        while j < n
            invariant
                n <= result.len(),
                i < flags.len(),
                f == views(flags@)[i as int],
                prev.len() == n,
                result.len() == n + j,
                j <= n,
                combo_views(result@) =~= prev + prev.take(j as int).map_values(
                    |c: Seq<Seq<char>>| seq![f] + c,
                ),
            decreases n - j,
        {
            let c = prepend(&flags[i], &result[j]);
            proof {
                assert(combo_views(result@)[j as int] == prev[j as int]);
                assert(combo_views(result@.push(c)) =~= combo_views(result@).push(views(c@)));
                assert(prev.take(j + 1).map_values(|c: Seq<Seq<char>>| seq![f] + c) =~= prev.take(
                    j as int,
                ).map_values(|c: Seq<Seq<char>>| seq![f] + c).push(seq![f] + prev[j as int]));
            }
            result.push(c);
            j = j + 1;
        }
        proof {
            assert(prev.take(n as int) =~= prev);
            assert(fl.skip(i as int).skip(1) =~= fl.skip(i + 1));
            assert(fl.skip(i as int)[0] == f);
        }
    }
    assert(fl.skip(0) =~= fl);
    result
}

/// Lint, then test, `package` with `features` enabled.
pub fn test_package(package: &str, features: &Vec<String>) -> (r: Vec<CargoInvocation>)
    ensures
        plan_views(r@) == seq![
            (CargoAction::Lint, package@, views(features@)),
            (CargoAction::Test, package@, views(features@)),
        ],
{
    let mut r: Vec<CargoInvocation> = Vec::new();
    r.push(
        CargoInvocation {
            action: CargoAction::Lint,
            package: String::from_str(package),
            features: copy_strings(features),
        },
    );
    r.push(
        CargoInvocation {
            action: CargoAction::Test,
            package: String::from_str(package),
            features: copy_strings(features),
        },
    );
    assert(plan_views(r@) =~= seq![
        (CargoAction::Lint, package@, views(features@)),
        (CargoAction::Test, package@, views(features@)),
    ]);
    r
}

/// Every invocation of the matrix of `package` over `flags`, in order.
pub fn package_matrix(package: &str, flags: &Vec<String>) -> (r: Vec<CargoInvocation>)
    ensures
        plan_views(r@) == matrix_plan(package@, views(flags@)),
{
    let combos = feature_combinations(flags);
    let ghost cv = combo_views(combos@);
    let mut r: Vec<CargoInvocation> = Vec::new();
    let mut i: usize = 0;
    while i < combos.len()
        invariant
            i <= combos.len(),
            cv == combo_views(combos@),
            cv == combinations(views(flags@)),
            plan_views(r@) =~= matrix_plan(package@, views(flags@)).take(2 * i),
        decreases combos.len() - i,
    {
        let mut pair = test_package(package, &combos[i]);
        proof {
            assert(cv[i as int] == views(combos@[i as int]@));
            let plan = matrix_plan(package@, views(flags@));
            assert((2 * i) % 2 == 0 && (2 * i) / 2 == i);
            assert((2 * i + 1) % 2 == 1 && (2 * i + 1) / 2 == i);
            assert(plan[2 * i] == (CargoAction::Lint, package@, cv[i as int]));
            assert(plan[2 * i + 1] == (CargoAction::Test, package@, cv[i as int]));
            assert(plan_views(r@ + pair@) =~= plan_views(r@) + plan_views(pair@));
            assert(plan_views(r@ + pair@) =~= plan.take(2 * i + 2));
        }
        r.append(&mut pair);
        i = i + 1;
    }
    assert(matrix_plan(package@, views(flags@)).take(2 * i) =~= matrix_plan(package@, views(flags@)));
    r
}

proof fn lemma_pow2_positive(k: nat)
    ensures
        pow2(k) >= 1,
    decreases k,
{
    if k > 0 {
        lemma_pow2_positive((k - 1) as nat);
    }
}

/// The combination numbered `i` enables the flags of assignment `i`.
proof fn lemma_combination_at(flags: Seq<Seq<char>>)
    ensures
        combinations(flags).len() == pow2(flags.len()),
        forall|i: nat| i < pow2(flags.len()) ==> #[trigger] combinations(flags)[i as int]
            == selected(flags, bits_of(i, flags.len())),
    decreases flags.len(),
{
    if flags.len() > 0 {
        let k = flags.len();
        let rest = flags.skip(1);
        lemma_combination_at(rest);
        let p = pow2((k - 1) as nat);
        lemma_pow2_positive((k - 1) as nat);
        let rc = combinations(rest);
        assert forall|i: nat| i < pow2(k) implies #[trigger] combinations(flags)[i as int] == selected(
            flags,
            bits_of(i, k),
        ) by {
            let b = bits_of(i, k);
            assert(b.skip(1) =~= bits_of(i % p, (k - 1) as nat));
            if i < p {
                assert(i % p == i) by (nonlinear_arith)
                    requires
                        i < p,
                ;
                assert(combinations(flags)[i as int] == rc[i as int]);
            } else {
                let q = (i - p) as nat;
                assert(i % p == q) by (nonlinear_arith)
                    requires
                        p <= i < 2 * p,
                        q == i - p,
                ;
                assert(combinations(flags)[i as int] == seq![flags[0]] + rc[q as int]);
            }
        }
    }
}

proof fn lemma_index_inverts_bits(i: nat, k: nat)
    requires
        i < pow2(k),
    ensures
        bits_of(i, k).len() == k,
        index_of(bits_of(i, k)) == i,
    decreases k,
{
    if k > 0 {
        let p = pow2((k - 1) as nat);
        lemma_pow2_positive((k - 1) as nat);
        let r = i % p;
        assert(r < p && (i >= p ==> r == i - p) && (i < p ==> r == i)) by (nonlinear_arith)
            requires
                i < 2 * p,
                p > 0,
                r == i % p,
        ;
        lemma_index_inverts_bits(r, (k - 1) as nat);
        let b = bits_of(i, k);
        assert(b.skip(1) =~= bits_of(r, (k - 1) as nat));
    }
}

proof fn lemma_bits_invert_index(bits: Seq<bool>)
    ensures
        index_of(bits) < pow2(bits.len()),
        bits_of(index_of(bits), bits.len()) == bits,
    decreases bits.len(),
{
    if bits.len() > 0 {
        let k = bits.len();
        let rest = bits.skip(1);
        lemma_bits_invert_index(rest);
        let p = pow2((k - 1) as nat);
        let x = index_of(rest);
        let i = index_of(bits);
        assert(i % p == x) by (nonlinear_arith)
            requires
                x < p,
                i == x || i == p + x,
        ;
        assert(bits_of(i, k) =~= bits);
    }
}

/// The matrix of a package with `k` flags holds `2 * 2^k` invocations: for
/// each assignment of on or off to the flags, exactly one combination
/// enables precisely the flags set on, and it is linted and then tested.
pub proof fn lemma_matrix_covers_each_assignment_once(package: Seq<char>, flags: Seq<Seq<char>>)
    ensures
        matrix_plan(package, flags).len() == 2 * pow2(flags.len()),
        forall|i: int|
            0 <= i < pow2(flags.len()) ==> {
                &&& #[trigger] matrix_plan(package, flags)[2 * i] == (
                    CargoAction::Lint,
                    package,
                    selected(flags, bits_of(i as nat, flags.len())),
                )
                &&& matrix_plan(package, flags)[2 * i + 1] == (
                    CargoAction::Test,
                    package,
                    selected(flags, bits_of(i as nat, flags.len())),
                )
            },
        forall|bits: Seq<bool>|
            bits.len() == flags.len() ==> index_of(bits) < pow2(flags.len()) && bits_of(
                #[trigger] index_of(bits),
                flags.len(),
            ) == bits,
        forall|i: nat, j: nat|
            i < pow2(flags.len()) && j < pow2(flags.len()) && #[trigger] bits_of(i, flags.len())
                == #[trigger] bits_of(j, flags.len()) ==> i == j,
{
    lemma_combination_at(flags);
    let k = flags.len();
    let plan = matrix_plan(package, flags);
    assert forall|i: int| 0 <= i < pow2(k) implies {
        &&& #[trigger] plan[2 * i] == (CargoAction::Lint, package, selected(flags, bits_of(i as nat, k)))
        &&& plan[2 * i + 1] == (CargoAction::Test, package, selected(flags, bits_of(i as nat, k)))
    } by {
        assert((2 * i) % 2 == 0 && (2 * i) / 2 == i);
        assert((2 * i + 1) % 2 == 1 && (2 * i + 1) / 2 == i);
        assert(combinations(flags)[i] == selected(flags, bits_of(i as nat, k)));
    }
    assert forall|bits: Seq<bool>| bits.len() == k implies index_of(bits) < pow2(k) && bits_of(
        #[trigger] index_of(bits),
        k,
    ) == bits by {
        lemma_bits_invert_index(bits);
    }
    assert forall|i: nat, j: nat|
        i < pow2(k) && j < pow2(k) && #[trigger] bits_of(i, k) == #[trigger] bits_of(j, k) implies i
        == j by {
        lemma_index_inverts_bits(i, k);
        lemma_index_inverts_bits(j, k);
    }
}

/// The `--features` pair: the fourth argument names it.
pub open spec fn has_features_arg(args: Seq<Seq<char>>) -> bool {
    args.len() > 4 && args[3] == "--features"@
}

proof fn lemma_selected_shape(flags: Seq<Seq<char>>, bits: Seq<bool>)
    requires
        bits.len() == flags.len(),
        forall|i: int| 0 <= i < flags.len() ==> #[trigger] flags[i].len() > 0,
    ensures
        selected(flags, bits).len() > 0 <==> exists|j: int| 0 <= j < bits.len() && #[trigger] bits[j],
        forall|i: int|
            0 <= i < selected(flags, bits).len() ==> #[trigger] selected(flags, bits)[i].len() > 0,
    decreases flags.len(),
{
    if flags.len() > 0 {
        let fr = flags.skip(1);
        let br = bits.skip(1);
        assert forall|i: int| 0 <= i < fr.len() implies #[trigger] fr[i].len() > 0 by {
            assert(fr[i] == flags[i + 1]);
        }
        lemma_selected_shape(fr, br);
        if exists|j: int| 0 <= j < br.len() && #[trigger] br[j] {
            let j = choose|j: int| 0 <= j < br.len() && #[trigger] br[j];
            assert(bits[j + 1]);
        }
        if !bits[0] && exists|j: int| 0 <= j < bits.len() && #[trigger] bits[j] {
            let j = choose|j: int| 0 <= j < bits.len() && #[trigger] bits[j];
            assert(br[j - 1]);
        }
        let sel = selected(flags, bits);
        if bits[0] {
            assert forall|i: int| 0 <= i < sel.len() implies #[trigger] sel[i].len() > 0 by {
                if i > 0 {
                    assert(sel[i] == selected(fr, br)[i - 1]);
                }
            }
        }
    }
}

/// The features argument is passed, with a non-empty value, exactly when at
/// least one flag of the combination is on; it is left out when all are off.
pub proof fn lemma_features_arg_iff_any_enabled(
    action: CargoAction,
    package: Seq<char>,
    flags: Seq<Seq<char>>,
    bits: Seq<bool>,
)
    requires
        bits.len() == flags.len(),
        forall|i: int| 0 <= i < flags.len() ==> #[trigger] flags[i].len() > 0,
    ensures
        has_features_arg(cargo_args(action, package, selected(flags, bits))) <==> exists|j: int|
            0 <= j < bits.len() && #[trigger] bits[j],
        has_features_arg(cargo_args(action, package, selected(flags, bits))) ==> cargo_args(
            action,
            package,
            selected(flags, bits),
        )[4].len() > 0,
{
    lemma_selected_shape(flags, bits);
    let sel = selected(flags, bits);
    let args = cargo_args(action, package, sel);
    reveal_strlit("--features");
    reveal_strlit("--");
    if sel.len() > 0 {
        assert(args[3] == "--features"@);
        assert(args[4] == joined(sel, ","@));
        assert(sel[sel.len() - 1].len() > 0);
        if sel.len() > 1 {
            assert(joined(sel, ","@) == joined(sel.drop_last(), ","@) + ","@ + sel.last());
        }
    } else {
        assert(features_args(sel) =~= Seq::<Seq<char>>::empty());
        if action == CargoAction::Lint {
            assert(args[3] == "--"@);
        } else {
            assert(args.len() == 3);
        }
    }
}

/// Where a run of a matrix stands: how many invocations it has, how many
/// succeeded so far, and whether one failed.
#[derive(Debug, PartialEq, Eq, Structural)]
pub struct MatrixRun {
    pub total: usize,
    pub next: usize,
    pub failed: bool,
}

/// What the runner does next.
#[derive(Debug, PartialEq, Eq, Structural)]
pub enum Step {
    /// Run the invocation at this position of the plan.
    Run(usize),
    /// Every invocation succeeded.
    Finished,
    /// An invocation failed: stop without running any other.
    Aborted,
}

impl MatrixRun {
    pub open spec fn wf(&self) -> bool {
        self.next <= self.total
    }

    pub open spec fn step_spec(&self) -> Step {
        if self.failed {
            Step::Aborted
        } else if self.next < self.total {
            Step::Run(self.next)
        } else {
            Step::Finished
        }
    }

    /// The state after the invocation at `next` ended, successfully or not.
    pub open spec fn recorded(&self, succeeded: bool) -> MatrixRun {
        if succeeded {
            MatrixRun { total: self.total, next: (self.next + 1) as usize, failed: false }
        } else {
            MatrixRun { total: self.total, next: self.next, failed: true }
        }
    }

    pub fn new(total: usize) -> (r: MatrixRun)
        ensures
            r == (MatrixRun { total, next: 0, failed: false }),
            r.wf(),
    {
        MatrixRun { total, next: 0, failed: false }
    }

    pub fn step(&self) -> (r: Step)
        ensures
            r == self.step_spec(),
    {
        if self.failed {
            Step::Aborted
        } else if self.next < self.total {
            Step::Run(self.next)
        } else {
            Step::Finished
        }
    }

    /// Records how the invocation that `step` asked for ended.
    pub fn record(&mut self, succeeded: bool)
        requires
            old(self).wf(),
            old(self).step_spec() == Step::Run(old(self).next),
        ensures
            *final(self) == old(self).recorded(succeeded),
            final(self).wf(),
    {
        if succeeded {
            self.next = self.next + 1;
        } else {
            self.failed = true;
        }
    }
}

/// After an invocation fails, the run asks for no further invocation.
pub proof fn lemma_failure_stops_run(run: MatrixRun)
    requires
        run.wf(),
        run.step_spec() == Step::Run(run.next),
    ensures
        run.recorded(false).step_spec() == Step::Aborted,
        run.recorded(false).recorded(false) == run.recorded(false),
{
}

pub open spec fn uguid_flags() -> Seq<Seq<char>> {
    seq!["bytemuck"@, "serde"@, "std"@]
}

pub open spec fn gpt_disk_types_flags() -> Seq<Seq<char>> {
    seq!["bytemuck"@, "std"@]
}

pub open spec fn gpt_disk_io_flags() -> Seq<Seq<char>> {
    seq!["std"@]
}

fn strings3(a: &str, b: &str, c: &str) -> (r: Vec<String>)
    ensures
        views(r@) == seq![a@, b@, c@],
{
    let mut r: Vec<String> = Vec::new();
    r.push(String::from_str(a));
    r.push(String::from_str(b));
    r.push(String::from_str(c));
    assert(views(r@) =~= seq![a@, b@, c@]);
    r
}

/// The invocations that check `uguid`.
pub fn test_uguid() -> (r: Vec<CargoInvocation>)
    ensures
        plan_views(r@) == matrix_plan("uguid"@, uguid_flags()),
{
    let flags = strings3("bytemuck", "serde", "std");
    package_matrix("uguid", &flags)
}

/// The invocations that check `gpt_disk_types`.
pub fn test_gpt_disk_types() -> (r: Vec<CargoInvocation>)
    ensures
        plan_views(r@) == matrix_plan("gpt_disk_types"@, gpt_disk_types_flags()),
{
    let mut flags: Vec<String> = Vec::new();
    flags.push(String::from_str("bytemuck"));
    flags.push(String::from_str("std"));
    assert(views(flags@) =~= gpt_disk_types_flags());
    package_matrix("gpt_disk_types", &flags)
}

/// The invocations that check `gpt_disk_io`.
pub fn test_gpt_disk_io() -> (r: Vec<CargoInvocation>)
    ensures
        plan_views(r@) == matrix_plan("gpt_disk_io"@, gpt_disk_io_flags()),
{
    let mut flags: Vec<String> = Vec::new();
    flags.push(String::from_str("std"));
    assert(views(flags@) =~= gpt_disk_io_flags());
    package_matrix("gpt_disk_io", &flags)
}

/// The invocations of all three packages, in order.
pub fn test_all() -> (r: Vec<CargoInvocation>)
    ensures
        plan_views(r@) == matrix_plan("uguid"@, uguid_flags()) + matrix_plan(
            "gpt_disk_types"@,
            gpt_disk_types_flags(),
        ) + matrix_plan("gpt_disk_io"@, gpt_disk_io_flags()),
{
    let mut r = test_uguid();
    let mut b = test_gpt_disk_types();
    let mut c = test_gpt_disk_io();
    let ghost (ra, rb, rc) = (r@, b@, c@);
    r.append(&mut b);
    r.append(&mut c);
    assert(plan_views(r@) =~= plan_views(ra) + plan_views(rb) + plan_views(rc));
    r
}

} // verus!
