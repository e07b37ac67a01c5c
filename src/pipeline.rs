//! The decisions of the proof pipeline: the shape checks made before any
//! proving work, the split of the composition polynomial into columns, the
//! FRI folding schedule, and the order of the stages.

use vstd::prelude::*;
use crate::error::TraceError;
use crate::field::Felt;

verus! {

/// Whether `n` is a power of two.
pub open spec fn is_pow2(n: nat) -> bool
    decreases n,
{
    if n == 0 {
        false
    } else if n == 1 {
        true
    } else {
        n % 2 == 0 && is_pow2(n / 2)
    }
}

/// Whether `n` is a power of two.
pub fn is_power_of_two(n: usize) -> (r: bool)
    ensures
        r == is_pow2(n as nat),
{
    let mut m = n;
    while m > 1 && m % 2 == 0
        invariant
            is_pow2(n as nat) == is_pow2(m as nat),
        decreases m,
    {
        m = m / 2;
    }
    m == 1
}

/// The shape of one proof: trace length and columns, and the domain and
/// folding parameters.
#[derive(Clone, Copy, Debug)]
pub struct ProofPlan {
    pub trace_len: usize,
    pub num_base_columns: usize,
    pub num_extension_columns: usize,
    pub lde_blowup_factor: usize,
    pub ce_blowup_factor: usize,
    pub fri_folding_factor: usize,
    pub fri_max_remainder_size: usize,
    pub lde_domain_size: usize,
}

impl ProofPlan {
    /// Whether the plan's parameters fit each other.
    pub open spec fn wf(&self) -> bool {
        &&& is_pow2(self.trace_len as nat)
        &&& self.trace_len >= 2
        &&& is_pow2(self.lde_blowup_factor as nat)
        &&& self.ce_blowup_factor >= 1
        &&& self.fri_folding_factor >= 2
        &&& self.lde_domain_size == self.trace_len * self.lde_blowup_factor
    }

    /// Checks the shape of a proof before any work: the trace length must be a
    /// power of two of at least two rows, the blowup a power of two, the
    /// extended domain addressable, the composition split into at least one
    /// column and FRI folding by at least two; and the trace must carry the
    /// columns the constraint system declares.
    pub fn new(
        trace_len: usize,
        trace_base_columns: usize,
        trace_extension_columns: usize,
        air_base_columns: usize,
        air_extension_columns: usize,
        lde_blowup_factor: usize,
        ce_blowup_factor: usize,
        fri_folding_factor: usize,
        fri_max_remainder_size: usize,
    ) -> (r: Result<ProofPlan, TraceError>)
        ensures
            r is Ok <==> {
                &&& is_pow2(trace_len as nat)
                &&& trace_len >= 2
                &&& is_pow2(lde_blowup_factor as nat)
                &&& trace_len * lde_blowup_factor <= usize::MAX
                &&& ce_blowup_factor >= 1
                &&& fri_folding_factor >= 2
                &&& trace_base_columns == air_base_columns
                &&& trace_extension_columns == air_extension_columns
            },
            r matches Ok(p) ==> p.wf() && p.trace_len == trace_len && p.num_base_columns
                == trace_base_columns && p.num_extension_columns == trace_extension_columns
                && p.lde_blowup_factor == lde_blowup_factor && p.ce_blowup_factor
                == ce_blowup_factor && p.fri_folding_factor == fri_folding_factor
                && p.fri_max_remainder_size == fri_max_remainder_size,
            r matches Err(e) ==> e == TraceError::DimensionMismatch,
    {
        if !is_power_of_two(trace_len) || trace_len < 2 || !is_power_of_two(lde_blowup_factor) {
            return Err(TraceError::DimensionMismatch);
        }
        if trace_len > usize::MAX / lde_blowup_factor {
            proof {
                assert(trace_len * lde_blowup_factor > usize::MAX) by (nonlinear_arith)
                    requires
                        trace_len > usize::MAX / lde_blowup_factor,
                        lde_blowup_factor > 0,
                ;
            }
            return Err(TraceError::DimensionMismatch);
        }
        proof {
            assert(trace_len * lde_blowup_factor <= usize::MAX) by (nonlinear_arith)
                requires
                    trace_len <= usize::MAX / lde_blowup_factor,
                    lde_blowup_factor > 0,
            ;
        }
        if ce_blowup_factor < 1 || fri_folding_factor < 2 {
            return Err(TraceError::DimensionMismatch);
        }
        if trace_base_columns != air_base_columns || trace_extension_columns
            != air_extension_columns {
            return Err(TraceError::DimensionMismatch);
        }
        Ok(ProofPlan {
            trace_len,
            num_base_columns: trace_base_columns,
            num_extension_columns: trace_extension_columns,
            lde_blowup_factor,
            ce_blowup_factor,
            fri_folding_factor,
            fri_max_remainder_size,
            lde_domain_size: trace_len * lde_blowup_factor,
        })
    }
}

/// Splits the coefficients of the composition polynomial into `num_columns`
/// columns of equal degree: column `j` holds coefficients `j`, `j + c`,
/// `j + 2c`, ... where `c` is the number of columns.
pub fn split_composition(coeffs: &Vec<Felt>, num_columns: usize) -> (r: Result<
    Vec<Vec<Felt>>,
    TraceError,
>)
    ensures
        r is Ok <==> num_columns >= 1 && coeffs@.len() % (num_columns as nat) == 0,
        r matches Ok(cols) ==> cols@.len() == num_columns && forall|j: int|
            0 <= j < num_columns ==> (#[trigger] cols@[j])@.len() == coeffs@.len()
                / (num_columns as nat) && forall|i: int|
                0 <= i < cols@[j]@.len() ==> #[trigger] cols@[j]@[i] == coeffs@[i
                    * num_columns + j],
        r matches Err(e) ==> e == TraceError::DimensionMismatch,
{
    if num_columns < 1 || coeffs.len() % num_columns != 0 {
        return Err(TraceError::DimensionMismatch);
    }
    let len = coeffs.len();
    let rows = len / num_columns;
    let mut cols: Vec<Vec<Felt>> = Vec::new();
    let mut j: usize = 0;
    while j < num_columns
        invariant
            j <= num_columns,
            num_columns >= 1,
            rows == coeffs@.len() / (num_columns as nat),
            coeffs@.len() % (num_columns as nat) == 0,
            len == coeffs@.len(),
            cols@.len() == j,
            forall|k: int|
                0 <= k < j ==> (#[trigger] cols@[k])@.len() == rows && forall|i: int|
                    0 <= i < rows ==> #[trigger] cols@[k]@[i] == coeffs@[i * num_columns + k],
        decreases num_columns - j,
    {
        let mut col: Vec<Felt> = Vec::new();
        let mut i: usize = 0;
        while i < rows
            invariant
                i <= rows,
                j < num_columns,
                num_columns >= 1,
                rows == coeffs@.len() / (num_columns as nat),
                coeffs@.len() % (num_columns as nat) == 0,
                len == coeffs@.len(),
                col@.len() == i,
                forall|t: int| 0 <= t < i ==> #[trigger] col@[t] == coeffs@[t * num_columns + j],
            decreases rows - i,
        {
            proof {
                assert(i * num_columns + j < coeffs@.len()) by (nonlinear_arith)
                    requires
                        i < rows,
                        j < num_columns,
                        rows == coeffs@.len() / (num_columns as nat),
                        coeffs@.len() % (num_columns as nat) == 0,
                        num_columns >= 1,
                ;
            }
            col.push(coeffs[i * num_columns + j]);
            i += 1;
        }
        cols.push(col);
        j += 1;
    }
    Ok(cols)
}

/// The size of the evaluation domain after `k` FRI foldings.
pub open spec fn folded_size(n: nat, f: nat, k: nat) -> nat
    decreases k,
{
    if k == 0 {
        n
    } else {
        folded_size(n, f, (k - 1) as nat) / f
    }
}

/// The domain sizes of the committed FRI layers: the evaluation domain folded
/// by `folding_factor` for as long as it is larger than `max_remainder_size`.
/// The remainder, sent in full, is the first size not above that bound.
pub fn fri_layer_sizes(domain_size: usize, folding_factor: usize, max_remainder_size: usize) -> (r:
    Vec<usize>)
    requires
        folding_factor >= 2,
    ensures
        forall|k: int|
            0 <= k < r@.len() ==> #[trigger] r@[k] == folded_size(
                domain_size as nat,
                folding_factor as nat,
                k as nat,
            ) && r@[k] > max_remainder_size,
        folded_size(domain_size as nat, folding_factor as nat, r@.len()) <= max_remainder_size,
{
    let mut sizes: Vec<usize> = Vec::new();
    let mut size = domain_size;
    while size > max_remainder_size
        invariant
            folding_factor >= 2,
            size == folded_size(domain_size as nat, folding_factor as nat, sizes@.len()),
            forall|k: int|
                0 <= k < sizes@.len() ==> #[trigger] sizes@[k] == folded_size(
                    domain_size as nat,
                    folding_factor as nat,
                    k as nat,
                ) && sizes@[k] > max_remainder_size,
        decreases size,
    {
        sizes.push(size);
        proof {
            assert(size / folding_factor < size) by (nonlinear_arith)
                requires
                    size >= 1,
                    folding_factor >= 2,
            ;
        }
        size = size / folding_factor;
    }
    sizes
}

/// A stage of proof generation.
#[derive(Clone, Copy, Debug, PartialEq, Eq, Structural)]
pub enum Stage {
    Initialize,
    BaseCommit,
    ChallengeDraw,
    ExtensionCommit,
    ConstraintComposition,
    OutOfDomain,
    DeepComposition,
    Fri,
    Grinding,
    QueryOpen,
    Assemble,
    Done,
}

/// The position of a stage in the pipeline.
pub open spec fn stage_rank(s: Stage) -> nat {
    match s {
        Stage::Initialize => 0,
        Stage::BaseCommit => 1,
        Stage::ChallengeDraw => 2,
        Stage::ExtensionCommit => 3,
        Stage::ConstraintComposition => 4,
        Stage::OutOfDomain => 5,
        Stage::DeepComposition => 6,
        Stage::Fri => 7,
        Stage::Grinding => 8,
        Stage::QueryOpen => 9,
        Stage::Assemble => 10,
        Stage::Done => 11,
    }
}

impl Stage {
    /// The stage after this one; the extension stage is skipped where the
    /// constraint system has no extension columns, and the last stage stays.
    pub fn next(&self, has_extension: bool) -> (r: Stage)
        ensures
            *self == Stage::Done ==> r == Stage::Done,
            *self != Stage::Done ==> stage_rank(r) > stage_rank(*self),
            *self == Stage::ChallengeDraw && !has_extension ==> r
                == Stage::ConstraintComposition,
            *self != Stage::Done && !(*self == Stage::ChallengeDraw && !has_extension)
                ==> stage_rank(r) == stage_rank(*self) + 1,
    {
        match self {
            Stage::Initialize => Stage::BaseCommit,
            Stage::BaseCommit => Stage::ChallengeDraw,
            Stage::ChallengeDraw => if has_extension {
                Stage::ExtensionCommit
            } else {
                Stage::ConstraintComposition
            },
            Stage::ExtensionCommit => Stage::ConstraintComposition,
            Stage::ConstraintComposition => Stage::OutOfDomain,
            Stage::OutOfDomain => Stage::DeepComposition,
            Stage::DeepComposition => Stage::Fri,
            Stage::Fri => Stage::Grinding,
            Stage::Grinding => Stage::QueryOpen,
            Stage::QueryOpen => Stage::Assemble,
            Stage::Assemble => Stage::Done,
            Stage::Done => Stage::Done,
        }
    }
}

/// What the transcript absorbs.
#[derive(Clone, Copy, Debug, PartialEq, Eq, Structural)]
pub enum Absorption {
    BaseRoot,
    ExtensionRoot,
    CompositionRoot,
    OodEvaluations,
    FriLayerRoot,
    Nonce,
}

/// The absorptions made by the stages before `stage`, with `fri_layers` FRI
/// layer roots committed so far.
pub open spec fn absorbed_before(stage: Stage, has_extension: bool, fri_layers: nat) -> Seq<
    Absorption,
> {
    let r = stage_rank(stage);
    let base = if r >= 2 {
        seq![Absorption::BaseRoot]
    } else {
        Seq::empty()
    };
    let ext = if has_extension && r >= 4 {
        seq![Absorption::ExtensionRoot]
    } else {
        Seq::empty()
    };
    let comp = if r >= 5 {
        seq![Absorption::CompositionRoot]
    } else {
        Seq::empty()
    };
    let ood = if r >= 6 {
        seq![Absorption::OodEvaluations]
    } else {
        Seq::empty()
    };
    let fri = if r >= 7 {
        Seq::new(fri_layers, |i: int| Absorption::FriLayerRoot)
    } else {
        Seq::empty()
    };
    let nonce = if r >= 9 {
        seq![Absorption::Nonce]
    } else {
        Seq::empty()
    };
    base + ext + comp + ood + fri + nonce
}

/// The absorptions of a whole proof, in order: the base root, the extension
/// root where there are extension columns, the composition root, the
/// out-of-domain evaluations, one root per FRI layer, and the grinding nonce.
pub open spec fn absorption_order(has_extension: bool, fri_layers: nat) -> Seq<Absorption> {
    absorbed_before(Stage::Done, has_extension, fri_layers)
}

/// The progress of one proof: its plan, the stage reached, and what the
/// transcript has absorbed.
#[derive(Debug)]
pub struct ProverSession {
    pub plan: ProofPlan,
    pub stage: Stage,
    pub absorbed: Vec<Absorption>,
    pub fri_layers: usize,
    pub fri_committed: usize,
}

impl ProverSession {
    pub open spec fn has_extension(&self) -> bool {
        self.plan.num_extension_columns > 0
    }

    /// The transcript holds exactly the absorptions of the stages passed.
    pub open spec fn wf(&self) -> bool {
        &&& self.plan.wf()
        &&& stage_rank(self.stage) >= 1
        &&& self.fri_committed <= self.fri_layers
        &&& stage_rank(self.stage) >= 8 ==> self.fri_committed == self.fri_layers
        &&& stage_rank(self.stage) < 7 ==> self.fri_committed == 0
        &&& !self.has_extension() ==> self.stage != Stage::ExtensionCommit
        &&& self.absorbed@ == absorbed_before(
            self.stage,
            self.has_extension(),
            self.fri_committed as nat,
        )
    }

    /// Starts a proof once its plan is checked; the first stage is the base
    /// commitment.
    pub fn new(plan: ProofPlan) -> (r: ProverSession)
        requires
            plan.wf(),
        ensures
            r.wf(),
            r.plan == plan,
            r.stage == Stage::BaseCommit,
            r.absorbed@.len() == 0,
            r.fri_committed == 0,
            forall|k: nat|
                k < r.fri_layers ==> #[trigger] folded_size(
                    plan.lde_domain_size as nat,
                    plan.fri_folding_factor as nat,
                    k,
                ) > plan.fri_max_remainder_size,
            folded_size(
                plan.lde_domain_size as nat,
                plan.fri_folding_factor as nat,
                r.fri_layers as nat,
            ) <= plan.fri_max_remainder_size,
    {
        let layers = fri_layer_sizes(
            plan.lde_domain_size,
            plan.fri_folding_factor,
            plan.fri_max_remainder_size,
        );
        proof {
            assert forall|k: nat| k < layers@.len() implies #[trigger] folded_size(
                plan.lde_domain_size as nat,
                plan.fri_folding_factor as nat,
                k,
            ) > plan.fri_max_remainder_size by {
                assert(layers@[k as int] > plan.fri_max_remainder_size);
            }
        }
        let r = ProverSession {
            plan,
            stage: Stage::BaseCommit,
            absorbed: Vec::new(),
            fri_layers: layers.len(),
            fri_committed: 0,
        };
        assert(r.absorbed@ =~= absorbed_before(r.stage, r.has_extension(), 0));
        r
    }

    /// Records the base-trace root, once the committed base columns are the
    /// ones the plan declares.
    pub fn commit_base(&mut self, num_columns: usize) -> (r: Result<(), TraceError>)
        requires
            old(self).wf(),
            old(self).stage == Stage::BaseCommit,
        ensures
            final(self).wf(),
            r is Ok <==> num_columns == old(self).plan.num_base_columns,
            r is Ok ==> final(self).stage == Stage::ChallengeDraw && final(self).absorbed@ == old(self).absorbed@.push(Absorption::BaseRoot),
            r matches Err(e) ==> e == TraceError::DimensionMismatch && *final(self) == *old(self),
    {
        if num_columns != self.plan.num_base_columns {
            return Err(TraceError::DimensionMismatch);
        }
        self.absorbed.push(Absorption::BaseRoot);
        self.stage = Stage::ChallengeDraw;
        assert(self.absorbed@ =~= absorbed_before(
            self.stage,
            self.has_extension(),
            self.fri_committed as nat,
        ));
        Ok(())
    }

    /// Moves past the challenge draw, to the extension commitment where there
    /// are extension columns, else to constraint composition.
    pub fn draw_challenges(&mut self)
        requires
            old(self).wf(),
            old(self).stage == Stage::ChallengeDraw,
        ensures
            final(self).wf(),
            final(self).stage == (if old(self).has_extension() {
                Stage::ExtensionCommit
            } else {
                Stage::ConstraintComposition
            }),
            final(self).absorbed@ == old(self).absorbed@,
    {
        self.stage = self.stage.next(self.plan.num_extension_columns > 0);
        assert(self.absorbed@ =~= absorbed_before(
            self.stage,
            self.has_extension(),
            self.fri_committed as nat,
        ));
    }

    /// Records the extension-trace root, once the committed extension columns
    /// are the ones the plan declares.
    pub fn commit_extension(&mut self, num_columns: usize) -> (r: Result<(), TraceError>)
        requires
            old(self).wf(),
            old(self).stage == Stage::ExtensionCommit,
        ensures
            final(self).wf(),
            r is Ok <==> num_columns == old(self).plan.num_extension_columns,
            r is Ok ==> final(self).stage == Stage::ConstraintComposition && final(self).absorbed@ == old(self).absorbed@.push(Absorption::ExtensionRoot),
            r matches Err(e) ==> e == TraceError::DimensionMismatch && *final(self) == *old(self),
    {
        if num_columns != self.plan.num_extension_columns {
            return Err(TraceError::DimensionMismatch);
        }
        self.absorbed.push(Absorption::ExtensionRoot);
        self.stage = Stage::ConstraintComposition;
        assert(self.absorbed@ =~= absorbed_before(
            self.stage,
            self.has_extension(),
            self.fri_committed as nat,
        ));
        Ok(())
    }

    /// Records the composition root, once the composition polynomial was split
    /// into as many columns as the plan asks.
    pub fn commit_composition(&mut self, num_columns: usize) -> (r: Result<(), TraceError>)
        requires
            old(self).wf(),
            old(self).stage == Stage::ConstraintComposition,
        ensures
            final(self).wf(),
            r is Ok <==> num_columns == old(self).plan.ce_blowup_factor,
            r is Ok ==> final(self).stage == Stage::OutOfDomain && final(self).absorbed@ == old(self).absorbed@.push(Absorption::CompositionRoot),
            r matches Err(e) ==> e == TraceError::DimensionMismatch && *final(self) == *old(self),
    {
        if num_columns != self.plan.ce_blowup_factor {
            return Err(TraceError::DimensionMismatch);
        }
        self.absorbed.push(Absorption::CompositionRoot);
        self.stage = Stage::OutOfDomain;
        assert(self.absorbed@ =~= absorbed_before(
            self.stage,
            self.has_extension(),
            self.fri_committed as nat,
        ));
        Ok(())
    }

    /// Records the out-of-domain evaluations sent in the proof.
    pub fn send_ood_evaluations(&mut self)
        requires
            old(self).wf(),
            old(self).stage == Stage::OutOfDomain,
        ensures
            final(self).wf(),
            final(self).stage == Stage::DeepComposition,
            final(self).absorbed@ == old(self).absorbed@.push(Absorption::OodEvaluations),
    {
        self.absorbed.push(Absorption::OodEvaluations);
        self.stage = Stage::DeepComposition;
        assert(self.absorbed@ =~= absorbed_before(
            self.stage,
            self.has_extension(),
            self.fri_committed as nat,
        ));
    }

    /// Moves past the DEEP composition to FRI.
    pub fn compose_deep(&mut self)
        requires
            old(self).wf(),
            old(self).stage == Stage::DeepComposition,
        ensures
            final(self).wf(),
            final(self).stage == Stage::Fri,
            final(self).absorbed@ == old(self).absorbed@,
    {
        self.stage = Stage::Fri;
        assert(self.absorbed@ =~= absorbed_before(
            self.stage,
            self.has_extension(),
            self.fri_committed as nat,
        ));
    }

    /// Records the root of the next FRI layer.
    pub fn commit_fri_layer(&mut self)
        requires
            old(self).wf(),
            old(self).stage == Stage::Fri,
            old(self).fri_committed < old(self).fri_layers,
        ensures
            final(self).wf(),
            final(self).stage == Stage::Fri,
            final(self).fri_committed == old(self).fri_committed + 1,
            final(self).absorbed@ == old(self).absorbed@.push(Absorption::FriLayerRoot),
    {
        self.absorbed.push(Absorption::FriLayerRoot);
        self.fri_committed = self.fri_committed + 1;
        assert(self.absorbed@ =~= absorbed_before(
            self.stage,
            self.has_extension(),
            self.fri_committed as nat,
        ));
    }

    /// Moves to grinding once every FRI layer is committed.
    pub fn finish_fri(&mut self)
        requires
            old(self).wf(),
            old(self).stage == Stage::Fri,
            old(self).fri_committed == old(self).fri_layers,
        ensures
            final(self).wf(),
            final(self).stage == Stage::Grinding,
            final(self).absorbed@ == old(self).absorbed@,
    {
        self.stage = Stage::Grinding;
        assert(self.absorbed@ =~= absorbed_before(
            self.stage,
            self.has_extension(),
            self.fri_committed as nat,
        ));
    }

    /// Records the proof-of-work nonce.
    pub fn absorb_nonce(&mut self)
        requires
            old(self).wf(),
            old(self).stage == Stage::Grinding,
        ensures
            final(self).wf(),
            final(self).stage == Stage::QueryOpen,
            final(self).absorbed@ == old(self).absorbed@.push(Absorption::Nonce),
    {
        self.absorbed.push(Absorption::Nonce);
        self.stage = Stage::QueryOpen;
        assert(self.absorbed@ =~= absorbed_before(
            self.stage,
            self.has_extension(),
            self.fri_committed as nat,
        ));
    }

    /// Moves past opening the queries to assembling the proof.
    pub fn open_queries(&mut self)
        requires
            old(self).wf(),
            old(self).stage == Stage::QueryOpen,
        ensures
            final(self).wf(),
            final(self).stage == Stage::Assemble,
            final(self).absorbed@ == old(self).absorbed@,
    {
        self.stage = Stage::Assemble;
        assert(self.absorbed@ =~= absorbed_before(
            self.stage,
            self.has_extension(),
            self.fri_committed as nat,
        ));
    }

    /// Finishes the proof: the transcript then holds every absorption of the
    /// proof, in the order of the stages.
    pub fn assemble(&mut self)
        requires
            old(self).wf(),
            old(self).stage == Stage::Assemble,
        ensures
            final(self).wf(),
            final(self).stage == Stage::Done,
            final(self).absorbed@ == absorption_order(
                old(self).has_extension(),
                old(self).fri_layers as nat,
            ),
    {
        self.stage = Stage::Done;
        assert(self.absorbed@ =~= absorbed_before(
            self.stage,
            self.has_extension(),
            self.fri_committed as nat,
        ));
    }
}

} // verus!
