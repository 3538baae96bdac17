//! The pipeline continuation engine.
//!
//! A configuration is an ordered list of step descriptors. The engine keeps
//! a stack of pending branches; each branch owns an independent copy of the
//! remaining descriptors, so a fan-out step can never consume descriptors
//! another branch still has to see. Advancing the engine resolves the head
//! descriptor's templates and hands back the step to run; completing it
//! pushes one new branch per produced output map.

use vstd::prelude::*;
use vstd::string::StringExecFns;
use crate::catalog::{lookup, spec_lookup, spec_params, StepKind};
use crate::dict::{spec_get, Dict};
use crate::parser::{fulfill, spec_fulfill, FulfillErr, ResolveError};

verus! {

/// One configured step: its catalog kind and its parameter templates.
pub struct WorkflowConfig {
    pub workflow_type: String,
    pub parameters: Dict,
}

/// Specification view of a [`WorkflowConfig`].
pub ghost struct WorkflowConfigV {
    pub workflow_type: Seq<char>,
    pub parameters: Seq<(Seq<char>, Seq<char>)>,
}

impl View for WorkflowConfig {
    type V = WorkflowConfigV;

    open spec fn view(&self) -> WorkflowConfigV {
        WorkflowConfigV { workflow_type: self.workflow_type@, parameters: self.parameters@ }
    }
}

impl DeepView for WorkflowConfig {
    type V = WorkflowConfigV;

    open spec fn deep_view(&self) -> WorkflowConfigV {
        self.view()
    }
}

impl WorkflowConfig {
    pub fn new(workflow_type: String, parameters: Dict) -> (r: WorkflowConfig)
        ensures
            r@.workflow_type == workflow_type@,
            r@.parameters == parameters@,
    {
        WorkflowConfig { workflow_type, parameters }
    }

    /// An independent copy.
    pub fn duplicate(&self) -> (r: WorkflowConfig)
        ensures
            r@ == self@,
    {
        WorkflowConfig {
            workflow_type: self.workflow_type.clone(),
            parameters: self.parameters.duplicate(),
        }
    }
}

/// An ordered list of step descriptors, as loaded from the configuration.
pub struct Config {
    pub workflows: Vec<WorkflowConfig>,
}

/// One branch's view of the run: the steps still to execute and the
/// environment snapshot, which every branch shares unchanged.
pub struct Context {
    pub workflows: Vec<WorkflowConfig>,
    pub env: Dict,
}

/// Specification view of a [`Context`].
pub ghost struct ContextV {
    pub workflows: Seq<WorkflowConfigV>,
    pub env: Seq<(Seq<char>, Seq<char>)>,
}

impl View for Context {
    type V = ContextV;

    open spec fn view(&self) -> ContextV {
        ContextV { workflows: self.workflows.deep_view(), env: self.env@ }
    }
}

impl Context {
    /// Captures the run's starting state: the configured steps and the
    /// environment snapshot.
    pub fn new(config: Config, env: Dict) -> (r: Context)
        ensures
            r@.workflows == config.workflows.deep_view(),
            r@.env == env@,
    {
        Context { workflows: config.workflows, env }
    }

    /// The environment snapshot.
    pub fn env(&self) -> (r: &Dict)
        ensures
            r@ == self@.env,
    {
        &self.env
    }

    /// Pops the head descriptor: the next step of this branch, if any.
    pub fn next(&mut self) -> (r: Option<WorkflowConfig>)
        ensures
            final(self)@.env == old(self)@.env,
            match r {
                None => old(self)@.workflows.len() == 0 && final(self)@ == old(self)@,
                Some(w) => old(self)@.workflows.len() > 0 && w@ == old(self)@.workflows[0]
                    && final(self)@.workflows == old(self)@.workflows.drop_first(),
            },
    {
        if self.workflows.is_empty() {
            None
        } else {
            let w = self.workflows.remove(0);
            proof {
                assert(final(self).workflows.deep_view() =~= old(self).workflows.deep_view().drop_first());
            }
            Some(w)
        }
    }

    /// An independent copy; fan-out hands one to every branch.
    pub fn duplicate(&self) -> (r: Context)
        ensures
            r@ == self@,
    {
        let n = self.workflows.len();
        let mut ws: Vec<WorkflowConfig> = Vec::new();
        proof {
            assert(self.workflows.deep_view().len() == n);
        }
        let mut i: usize = 0;
        while i < n
            invariant
                i <= n,
                n == self.workflows.len(),
                ws@.len() == i as int,
                ws.deep_view() == self.workflows.deep_view().take(i as int),
            decreases n - i,
        {
            let ghost pre = ws.deep_view();
            let w = self.workflows[i].duplicate();
            ws.push(w);
            proof {
                assert forall|j: int| 0 <= j <= i implies #[trigger] ws.deep_view()[j]
                    == self.workflows.deep_view().take(i + 1)[j] by {
                    if j < i {
                        assert(ws.deep_view()[j] == pre[j]);
                    } else {
                        assert(ws.deep_view()[j] == ws@[j]@);
                    }
                }
                assert(ws.deep_view() =~= self.workflows.deep_view().take(i + 1));
            }
            i = i + 1;
        }
        proof {
            assert(self.workflows.deep_view().take(n as int) =~= self.workflows.deep_view());
        }
        Context { workflows: ws, env: self.env.duplicate() }
    }
}

/// Why a step could not be prepared: its kind is not in the catalog, or
/// one of its parameter templates failed to resolve.
#[derive(Debug)]
pub enum WorkflowError {
    NotFound(String),
    Resolve(ResolveError),
}

impl WorkflowError {
    /// A human-readable description of the failure.
    pub fn message(&self) -> (r: String)
        ensures
            match self {
                WorkflowError::NotFound(k) => r@ == "Workflow "@ + k@ + " is not found."@,
                WorkflowError::Resolve(e) => match e {
                    ResolveError::UnableToParse(t) => r@ == "Unable to parse expression "@ + t@
                        + "."@,
                    ResolveError::MissingKey(k) => r@ == "Missing "@ + k@ + "."@,
                },
            },
    {
        match self {
            WorkflowError::NotFound(k) => {
                let mut m = String::from_str("Workflow ");
                m.append(k.as_str());
                m.append(" is not found.");
                m
            },
            WorkflowError::Resolve(e) => e.message(),
        }
    }
}

/// The specification-level error of [`spec_resolve_params`], as the
/// executable error carries it.
pub open spec fn resolve_err_view(e: ResolveError) -> FulfillErr {
    match e {
        ResolveError::UnableToParse(t) => FulfillErr::Parse(t@),
        ResolveError::MissingKey(k) => FulfillErr::Missing(k@),
    }
}

/// Resolves a step's declared parameter names in order against its
/// configured templates: a declared name without a configured template is
/// skipped, and the first template that fails to parse or hits a missing
/// key aborts with that failure.
pub open spec fn spec_resolve_params(
    names: Seq<Seq<char>>,
    cfg: Seq<(Seq<char>, Seq<char>)>,
    inp: Seq<(Seq<char>, Seq<char>)>,
    env: Seq<(Seq<char>, Seq<char>)>,
) -> Result<Seq<(Seq<char>, Seq<char>)>, FulfillErr>
    decreases names.len(),
{
    if names.len() == 0 {
        Ok(Seq::empty())
    } else {
        match spec_get(cfg, names[0]) {
            None => spec_resolve_params(names.drop_first(), cfg, inp, env),
            Some(t) => match spec_fulfill(t, inp, env) {
                Err(e) => Err(e),
                Ok(v) => match spec_resolve_params(names.drop_first(), cfg, inp, env) {
                    Err(e) => Err(e),
                    Ok(rest) => Ok(seq![(names[0], v)] + rest),
                },
            },
        }
    }
}

/// The step to hand to the outside world: its catalog kind and its fully
/// resolved parameters.
pub struct StepInvocation {
    pub kind: StepKind,
    pub parameters: Dict,
}

impl WorkflowConfig {
    /// Looks this descriptor's kind up in the catalog and resolves every
    /// declared-and-configured parameter template against the step input
    /// and the environment snapshot.
    pub fn make_workflow(&self, input: &Dict, context: &Context) -> (r: Result<
        (StepKind, Dict),
        WorkflowError,
    >)
        ensures
            match r {
                Ok(p) => spec_lookup(self@.workflow_type) == Some(p.0) && spec_resolve_params(
                    spec_params(p.0),
                    self@.parameters,
                    input@,
                    context@.env,
                ) == Ok::<Seq<(Seq<char>, Seq<char>)>, FulfillErr>(p.1@),
                Err(WorkflowError::NotFound(k)) => spec_lookup(self@.workflow_type) is None
                    && k@ == self@.workflow_type,
                Err(WorkflowError::Resolve(e)) => spec_lookup(self@.workflow_type) matches Some(
                    kind,
                ) && spec_resolve_params(
                    spec_params(kind),
                    self@.parameters,
                    input@,
                    context@.env,
                ) == Err::<Seq<(Seq<char>, Seq<char>)>, FulfillErr>(resolve_err_view(e)),
            },
    {
        let kind = match lookup(self.workflow_type.as_str()) {
            Some(k) => k,
            None => {
                return Err(WorkflowError::NotFound(self.workflow_type.clone()));
            },
        };
        let names = kind.parameters();
        let ghost namesv = names.deep_view();
        let ghost cfg = self@.parameters;
        let ghost inp = input@;
        let ghost env = context@.env;
        let n = names.len();
        let mut payload = Dict::new();
        proof {
            assert(namesv.skip(0) =~= namesv);
            assert(names@.len() == namesv.len());
        }
        let mut i: usize = 0;
        while i < n
            invariant
                i <= n,
                n == names@.len(),
                n == namesv.len(),
                namesv == names.deep_view(),
                namesv == spec_params(kind),
                cfg == self@.parameters,
                inp == input@,
                env == context@.env,
                spec_lookup(self@.workflow_type) == Some(kind),
                spec_resolve_params(namesv, cfg, inp, env) == match spec_resolve_params(
                    namesv.skip(i as int),
                    cfg,
                    inp,
                    env,
                ) {
                    Err(e) => Err::<Seq<(Seq<char>, Seq<char>)>, FulfillErr>(e),
                    Ok(rest) => Ok::<Seq<(Seq<char>, Seq<char>)>, FulfillErr>(payload@ + rest),
                },
            decreases n - i,
        {
            proof {
                assert(namesv.skip(i as int)[0] == namesv[i as int]);
                assert(namesv.skip(i as int).drop_first() =~= namesv.skip(i + 1));
                assert(namesv[i as int] == names@[i as int]@);
            }
            let name: &str = names[i];
            match self.parameters.get(name) {
                None => {},
                Some(tpl) => {
                    match fulfill(tpl.as_str(), input, context) {
                        Ok(v) => {
                            let ghost pre = payload@;
                            let ghost vv = v@;
                            payload.insert(String::from_str(name), v);
                            proof {
                                match spec_resolve_params(namesv.skip(i + 1), cfg, inp, env) {
                                    Ok(rest2) => {
                                        assert(pre + (seq![(namesv[i as int], vv)] + rest2)
                                            =~= payload@ + rest2);
                                    },
                                    Err(_) => {},
                                }
                            }
                        },
                        Err(e) => {
                            proof {
                                assert(spec_resolve_params(namesv.skip(i as int), cfg, inp, env)
                                    == Err::<Seq<(Seq<char>, Seq<char>)>, FulfillErr>(
                                    resolve_err_view(e),
                                ));
                            }
                            return Err(WorkflowError::Resolve(e));
                        },
                    }
                },
            }
            i = i + 1;
        }
        proof {
            assert(namesv.skip(n as int) =~= Seq::<Seq<char>>::empty());
            assert(spec_resolve_params(Seq::empty(), cfg, inp, env) == Ok::<
                Seq<(Seq<char>, Seq<char>)>,
                FulfillErr,
            >(Seq::empty()));
            assert(payload@ + Seq::<(Seq<char>, Seq<char>)>::empty() =~= payload@);
        }
        Ok((kind, payload))
    }

    /// Prepares this descriptor for execution: the previous step's output
    /// map becomes the step input, the kind is looked up, and the
    /// parameters are resolved. What remains — running the step — is the
    /// outside world's.
    pub fn execute(&self, context: &Context, output: Dict) -> (r: Result<
        StepInvocation,
        WorkflowError,
    >)
        ensures
            match r {
                Ok(inv) => spec_lookup(self@.workflow_type) == Some(inv.kind)
                    && spec_resolve_params(
                    spec_params(inv.kind),
                    self@.parameters,
                    output@,
                    context@.env,
                ) == Ok::<Seq<(Seq<char>, Seq<char>)>, FulfillErr>(inv.parameters@),
                Err(WorkflowError::NotFound(k)) => spec_lookup(self@.workflow_type) is None
                    && k@ == self@.workflow_type,
                Err(WorkflowError::Resolve(e)) => spec_lookup(self@.workflow_type) matches Some(
                    kind,
                ) && spec_resolve_params(
                    spec_params(kind),
                    self@.parameters,
                    output@,
                    context@.env,
                ) == Err::<Seq<(Seq<char>, Seq<char>)>, FulfillErr>(resolve_err_view(e)),
            },
    {
        match self.make_workflow(&output, context) {
            Ok((kind, parameters)) => Ok(StepInvocation { kind, parameters }),
            Err(e) => Err(e),
        }
    }
}

/// One pending branch of the run: its own copy of the remaining steps
/// and the output map of the step that spawned it.
pub struct Branch {
    pub context: Context,
    pub input: Dict,
}

/// Specification view of a [`Branch`].
pub ghost struct BranchV {
    pub context: ContextV,
    pub input: Seq<(Seq<char>, Seq<char>)>,
}

impl View for Branch {
    type V = BranchV;

    open spec fn view(&self) -> BranchV {
        BranchV { context: self.context@, input: self.input@ }
    }
}

impl DeepView for Branch {
    type V = BranchV;

    open spec fn deep_view(&self) -> BranchV {
        self.view()
    }
}

/// A branch with nothing left to run.
pub open spec fn branch_done(b: BranchV) -> bool {
    b.context.workflows.len() == 0
}

/// The branch stack with finished branches popped off the top.
pub open spec fn trim_done(st: Seq<BranchV>) -> Seq<BranchV>
    decreases st.len(),
{
    if st.len() == 0 {
        st
    } else if branch_done(st.last()) {
        trim_done(st.drop_last())
    } else {
        st
    }
}

/// The branches one completion spawns: one per output map, over the same
/// remaining steps, pushed so that the first output runs first.
pub open spec fn spawned_branches(c: ContextV, outs: Seq<Seq<(Seq<char>, Seq<char>)>>) -> Seq<
    BranchV,
> {
    Seq::new(outs.len(), |i: int| BranchV { context: c, input: outs[outs.len() - 1 - i] })
}

/// Fan-out isolation: every branch spawned by one completion observes the
/// same remaining step list — the running step's tail, unconsumed — and
/// the outputs come to run in their produced order.
pub proof fn lemma_fan_out_isolation(c: ContextV, outs: Seq<Seq<(Seq<char>, Seq<char>)>>)
    ensures
        spawned_branches(c, outs).len() == outs.len(),
        forall|i: int|
            0 <= i < outs.len() ==> (#[trigger] spawned_branches(c, outs)[i]).context == c,
        forall|i: int, j: int|
            0 <= i < outs.len() && 0 <= j < outs.len() ==> spawned_branches(c, outs)[i].context
                == spawned_branches(c, outs)[j].context,
        forall|i: int|
            0 <= i < outs.len() ==> (#[trigger] spawned_branches(c, outs)[i]).input == outs[
                outs.len() - 1 - i
            ],
{
}

/// The continuation engine: a stack of pending branches, the top one
/// running first, and — between `advance` and `complete` — the running
/// step's tail, waiting to be copied to every branch the step spawns.
pub struct Runner {
    pub branches: Vec<Branch>,
    pub current: Option<Context>,
}

/// The first configured kind the catalog does not know, if any.
pub open spec fn first_unknown(ws: Seq<WorkflowConfigV>) -> Option<Seq<char>>
    decreases ws.len(),
{
    if ws.len() == 0 {
        None
    } else if spec_lookup(ws[0].workflow_type) is None {
        Some(ws[0].workflow_type)
    } else {
        first_unknown(ws.drop_first())
    }
}

impl Runner {
    /// Builds the engine over a run's starting context, refusing — before
    /// anything executes — any configuration with a step kind the catalog
    /// does not know, naming the first such kind.
    pub fn new(context: Context) -> (r: Result<Runner, WorkflowError>)
        ensures
            match r {
                Ok(rn) => first_unknown(context@.workflows) is None && rn.current is None
                    && rn.branches.deep_view() =~= seq![
                    BranchV {
                        context: context@,
                        input: Seq::<(Seq<char>, Seq<char>)>::empty(),
                    },
                ],
                Err(e) => e matches WorkflowError::NotFound(k) && first_unknown(
                    context@.workflows,
                ) == Some(k@),
            },
    {
        let ghost ws = context@.workflows;
        let n = context.workflows.len();
        proof {
            assert(ws.len() == n);
            assert(ws.skip(0) =~= ws);
        }
        let mut i: usize = 0;
        while i < n
            invariant
                i <= n,
                n == context.workflows@.len(),
                ws == context@.workflows,
                ws.len() == n,
                first_unknown(ws) == first_unknown(ws.skip(i as int)),
            decreases n - i,
        {
            proof {
                assert(ws.skip(i as int)[0] == ws[i as int]);
                assert(ws.skip(i as int).drop_first() =~= ws.skip(i + 1));
                assert(ws[i as int] == context.workflows@[i as int]@);
            }
            match lookup(context.workflows[i].workflow_type.as_str()) {
                Some(_) => {},
                None => {
                    return Err(
                        WorkflowError::NotFound(context.workflows[i].workflow_type.clone()),
                    );
                },
            }
            i = i + 1;
        }
        proof {
            assert(ws.skip(n as int) =~= Seq::<WorkflowConfigV>::empty());
        }
        let mut branches: Vec<Branch> = Vec::new();
        branches.push(Branch { context, input: Dict::new() });
        Ok(Runner { branches, current: None })
    }

    /// Moves to the next step of the run: drops finished branches, then
    /// prepares the top branch's head step, holding its tail back for
    /// `complete`. `Ok(None)` is the terminal state: no branch has work
    /// left. An error is the head step's, and aborts the run with every
    /// pending sibling branch.
    pub fn advance(&mut self) -> (r: Result<Option<StepInvocation>, WorkflowError>)
        requires
            old(self).current is None,
        ensures
            ({
                let t = trim_done(old(self).branches.deep_view());
                match r {
                    Ok(None) => t.len() == 0 && final(self).branches.deep_view() == t
                        && final(self).current is None,
                    Ok(Some(inv)) => t.len() > 0 && {
                        let b = t.last();
                        let head = b.context.workflows[0];
                        &&& spec_lookup(head.workflow_type) == Some(inv.kind)
                        &&& spec_resolve_params(
                            spec_params(inv.kind),
                            head.parameters,
                            b.input,
                            b.context.env,
                        ) == Ok::<Seq<(Seq<char>, Seq<char>)>, FulfillErr>(inv.parameters@)
                        &&& final(self).branches.deep_view() == t.drop_last()
                        &&& final(self).current matches Some(c) && c@.workflows
                            == b.context.workflows.drop_first() && c@.env == b.context.env
                    },
                    Err(e) => t.len() > 0 && {
                        let b = t.last();
                        let head = b.context.workflows[0];
                        match e {
                            WorkflowError::NotFound(k) => spec_lookup(head.workflow_type) is None
                                && k@ == head.workflow_type,
                            WorkflowError::Resolve(re) => spec_lookup(
                                head.workflow_type,
                            ) matches Some(kind) && spec_resolve_params(
                                spec_params(kind),
                                head.parameters,
                                b.input,
                                b.context.env,
                            ) == Err::<Seq<(Seq<char>, Seq<char>)>, FulfillErr>(resolve_err_view(
                                re,
                            )),
                        }
                    },
                }
            }),
    {
        let ghost t = trim_done(old(self).branches.deep_view());
        loop
            invariant
                self.current is None,
                t == trim_done(old(self).branches.deep_view()),
                t == trim_done(self.branches.deep_view()),
            ensures
                self.current is None,
                t == trim_done(self.branches.deep_view()),
                self.branches@.len() > 0,
                !branch_done(self.branches.deep_view().last()),
            decreases self.branches@.len(),
        {
            let depth = self.branches.len();
            if depth == 0 {
                proof {
                    assert(self.branches.deep_view().len() == 0);
                }
                return Ok(None);
            }
            proof {
                assert(self.branches.deep_view().len() == depth);
                assert(self.branches.deep_view().last() == self.branches@[depth - 1]@);
            }
            if self.branches[depth - 1].context.workflows.len() == 0 {
                let ghost pre = self.branches;
                self.branches.pop();
                proof {
                    crate::dict::lemma_drop_last_deep_view(pre, self.branches);
                }
            } else {
                break;
            }
        }
        let b = match self.branches.pop() {
            Some(b) => b,
            None => {
                return Ok(None);
            },
        };
        let ghost pre_pop = self.branches.deep_view();
        proof {
            assert(t.len() > 0);
            assert(t.last() == b@);
            assert(t.drop_last() =~= pre_pop);
        }
        let Branch { context: mut ctx, input } = b;
        let head = match ctx.next() {
            Some(h) => h,
            None => {
                return Ok(None);
            },
        };
        match head.execute(&ctx, input) {
            Ok(inv) => {
                self.current = Some(ctx);
                Ok(Some(inv))
            },
            Err(e) => Err(e),
        }
    }

    /// Folds a step's outcome back in: one new branch per output map,
    /// each over its own copy of the running step's tail, the first
    /// output on top of the stack so the branches run in output order.
    pub fn complete(&mut self, outputs: Vec<Dict>)
        requires
            old(self).current is Some,
        ensures
            final(self).current is None,
            final(self).branches.deep_view() == old(self).branches.deep_view()
                + spawned_branches(old(self).current->0@, outputs.deep_view()),
    {
        let ghost base = old(self).branches.deep_view();
        let ghost cv = old(self).current->0@;
        let ghost outsv = outputs.deep_view();
        let ctx = self.current.take().unwrap();
        let mut outs = outputs;
        proof {
            assert(outs.deep_view() =~= outsv);
        }
        while outs.len() > 0
            invariant
                self.current is None,
                ctx@ == cv,
                outs.deep_view() =~= outsv.take(outs@.len() as int),
                outs@.len() <= outsv.len(),
                self.branches.deep_view() =~= base + spawned_branches(cv, outsv).take(
                    outsv.len() - outs@.len(),
                ),
            decreases outs@.len(),
        {
            let ghost pre_vec = outs;
            let o = match outs.pop() {
                Some(o) => o,
                None => {
                    return ;
                },
            };
            proof {
                crate::dict::lemma_drop_last_deep_view(pre_vec, outs);
                assert(o == pre_vec@[pre_vec@.len() - 1]);
                assert(pre_vec.deep_view()[pre_vec@.len() - 1] == o@);
                assert(pre_vec.deep_view() =~= outsv.take(pre_vec@.len() as int));
                assert(o@ == outsv[pre_vec@.len() - 1]);
            }
            let nb = Branch { context: ctx.duplicate(), input: o };
            let ghost nb0 = nb;
            let ghost pre_branches = self.branches;
            self.branches.push(nb);
            proof {
                crate::dict::lemma_push_deep_view(pre_branches, self.branches, nb0);
                assert(o@ == outsv[outs@.len() as int]);
                assert(nb0@ == spawned_branches(cv, outsv)[outsv.len() - outs@.len() - 1]);
                assert(self.branches.deep_view() =~= base + spawned_branches(cv, outsv).take(
                    outsv.len() - outs@.len(),
                ));
                assert(outs.deep_view() =~= outsv.take(outs@.len() as int));
            }
        }
        proof {
            assert(spawned_branches(cv, outsv).take(outsv.len() as int) =~= spawned_branches(
                cv,
                outsv,
            ));
        }
    }
}

} // verus!
