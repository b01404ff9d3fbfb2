//! Jobs and multi-stage pipelines supplied by the library's users.

use vstd::prelude::*;

verus! {

/// Why a stage or a job failed.
pub struct StageError {
    pub message: String,
}

/// One transformation step of a [`Pipeline`]; implemented by users.
pub trait Stage<T> {
    /// What running the stage on `input` yields.
    spec fn outcome(&self, input: T) -> Result<T, StageError>;

    fn run(&self, input: T) -> (r: Result<T, StageError>)
        ensures
            r == self.outcome(input);
}

/// A stage of any type.
pub type BoxedStage<T> = Box<dyn Stage<T>>;

/// Stages applied in order, stopping at the first failure.
#[verifier::reject_recursive_types(T)]
pub struct Pipeline<T> {
    stages: Vec<BoxedStage<T>>,
}

/// Runs `stages` in order on `value`: the first failure is the result;
/// without failure, the value after the last stage.
pub open spec fn run_all<T>(stages: Seq<BoxedStage<T>>, value: T) -> Result<T, StageError>
    decreases stages.len(),
{
    if stages.len() == 0 {
        Ok(value)
    } else {
        match stages[0].outcome(value) {
            Ok(v) => run_all(stages.drop_first(), v),
            Err(e) => Err(e),
        }
    }
}

impl<T> Pipeline<T> {
    pub closed spec fn stage_list(&self) -> Seq<BoxedStage<T>> {
        self.stages@
    }

    /// An empty pipeline.
    pub fn new() -> (p: Self)
        ensures
            p.stage_list().len() == 0,
    {
        Pipeline { stages: Vec::new() }
    }

    /// Appends a stage at the end.
    pub fn add(&mut self, s: BoxedStage<T>)
        ensures
            final(self).stage_list() == old(self).stage_list().push(s),
            final(self).stage_list().len() == old(self).stage_list().len() + 1,
            final(self).stage_list().drop_last() == old(self).stage_list(),
    {
        let ghost g = s;
        self.stages.push(s);
        proof { pushed_stage(old(self).stages@, g); }
    }

    /// This pipeline with `s` appended at the end.
    pub fn with_stage(self, s: BoxedStage<T>) -> (p: Self)
        ensures
            p.stage_list() == self.stage_list().push(s),
            p.stage_list().len() == self.stage_list().len() + 1,
            p.stage_list().drop_last() == self.stage_list(),
    {
        let ghost before = self.stages@;
        let ghost g = s;
        let mut stages = self.stages;
        stages.push(s);
        proof { pushed_stage(before, g); }
        Pipeline { stages }
    }

    /// Runs every stage in order on `value` (see [`run_all`]).
    pub fn execute(&self, value: T) -> (r: Result<T, StageError>)
        ensures
            r == run_all(self.stage_list(), value),
    {
        let ghost orig = value;
        let mut cur = value;
        let mut i: usize = 0;
        assert(self.stages@.skip(0) =~= self.stages@);
        while i < self.stages.len()
            invariant
                orig == value,
                i <= self.stages.len(),
                run_all(self.stages@, orig) == run_all(self.stages@.skip(i as int), cur),
            decreases self.stages.len() - i,
        {
            let ghost rest = self.stages@.skip(i as int);
            assert(rest[0] == self.stages@[i as int]);
            assert(rest.drop_first() =~= self.stages@.skip(i + 1));
            let ghost c0 = cur;
            let step = self.stages[i].run(cur);
            assert(step == rest[0].outcome(c0));
            match step {
                Ok(v) => {
                    cur = v;
                },
                Err(e) => {
                    assert(run_all(rest, c0) == Err::<T, StageError>(e));
                    assert(run_all(self.stage_list(), orig) == Err::<T, StageError>(e));
                    return Err(e);
                },
            }
            i = i + 1;
        }
        assert(self.stages@.skip(i as int) =~= Seq::<BoxedStage<T>>::empty());
        Ok(cur)
    }
}

/// Appending an item adds one to the length and keeps the earlier items.
proof fn pushed_stage<A>(items: Seq<A>, s: A)
    ensures
        items.push(s).len() == items.len() + 1,
        items.push(s).drop_last() == items,
{
    assert(items.push(s).drop_last() =~= items);
}

/// A unit of work supplied by users.
pub trait Job {
    /// What running the job yields.
    spec fn outcome(&self) -> Result<(), StageError>;

    fn run(&self) -> (r: Result<(), StageError>)
        ensures
            r == self.outcome();
}

/// Runs a job and reports its result.
pub fn execute<J: Job>(job: J) -> (r: Result<(), StageError>)
    ensures
        r == job.outcome(),
{
    job.run()
}

/// The last stage runs after the others: on the value they produce, and
/// only when none of them failed. (Appending a stage with
/// [`Pipeline::add`] thus runs it last.)
pub proof fn last_stage_runs_last<T>(stages: Seq<BoxedStage<T>>, value: T)
    requires
        stages.len() > 0,
    ensures
        run_all(stages, value) == match run_all(stages.drop_last(), value) {
            Ok(v) => stages.last().outcome(v),
            Err(e) => Err(e),
        },
    decreases stages.len(),
{
    let rest = stages.drop_first();
    if stages.len() == 1 {
        assert(rest =~= Seq::<BoxedStage<T>>::empty());
        assert(stages.drop_last() =~= Seq::<BoxedStage<T>>::empty());
        assert(stages.last() == stages[0]);
    } else {
        assert(stages.drop_last()[0] == stages[0]);
        assert(stages.drop_last().drop_first() =~= rest.drop_last());
        assert(rest.last() == stages.last());
        match stages[0].outcome(value) {
            Ok(v) => { last_stage_runs_last(rest, v); },
            Err(e) => {},
        }
    }
}

} // verus!


