//! The recursive-proof driver as a state machine. Each call of `next_action`
//! says what the host must do next (generate a step's witness, fold a step,
//! finish, or stop), and the host reports each outcome back. Witness
//! generation and folding stay with the host; the order, the public input
//! threaded from step to step, and the abort policy are decided here.
use vstd::prelude::*;
use crate::backend::{DriverError, WitnessBackend};
use crate::codec::FieldElement;
use crate::document::{all_wf, document_text, entries_view, step_input_document, values};

verus! {

/// What the host must do next.
#[derive(Clone, Copy, Debug, PartialEq, Eq, Structural)]
pub enum Action {
    /// Generate the witness of this iteration from the current public input.
    GenerateWitness(usize),
    /// Fold this iteration's step circuit into the accumulator, with the run's
    /// start public input.
    Fold(usize),
    /// Every iteration is folded: remove the scratch file and hand out the proof.
    Finish,
    /// The run was aborted; no proof is handed out.
    Stop,
}

/// The public input state of one circuit track.
pub struct Track {
    /// The caller's start values, used by every fold.
    pub start: Vec<FieldElement>,
    /// The input of the next witness generation.
    pub current: Vec<FieldElement>,
}

impl Track {
    pub open spec fn wf(&self) -> bool {
        &&& all_wf(self.start@)
        &&& all_wf(self.current@)
        &&& self.current@.len() == self.start@.len()
    }
}

/// One run of the driver.
pub struct IvcDriver {
    pub iterations: usize,
    pub backend: WitnessBackend,
    pub primary: Track,
    /// The secondary track, when it is a real circuit; `None` when it is the
    /// fixed placeholder circuit with its constant input.
    pub secondary: Option<Track>,
    /// Number of witnesses generated so far.
    pub witnessed: usize,
    /// Number of steps folded so far.
    pub folded: usize,
    /// Why the run was aborted, if it was.
    pub error: Option<DriverError>,
}

/// The next action of a run. On the blocking backend each step is folded right
/// after its witness is generated; on the suspendable one every witness is
/// generated first and the steps are folded afterwards.
pub open spec fn action_of(
    iterations: nat,
    backend: WitnessBackend,
    witnessed: nat,
    folded: nat,
    aborted: bool,
) -> Action {
    if aborted {
        Action::Stop
    } else if backend == WitnessBackend::Blocking {
        if folded < witnessed {
            Action::Fold(folded as usize)
        } else if witnessed < iterations {
            Action::GenerateWitness(witnessed as usize)
        } else {
            Action::Finish
        }
    } else {
        if witnessed < iterations {
            Action::GenerateWitness(witnessed as usize)
        } else if folded < iterations {
            Action::Fold(folded as usize)
        } else {
            Action::Finish
        }
    }
}

impl IvcDriver {
    pub open spec fn wf(&self) -> bool {
        &&& self.iterations >= 1
        &&& self.folded <= self.witnessed <= self.iterations
        &&& (self.backend == WitnessBackend::Blocking ==> self.witnessed <= self.folded + 1)
        &&& self.primary.wf()
        &&& (self.secondary matches Some(t) ==> t.wf())
    }

    pub open spec fn action(&self) -> Action {
        action_of(
            self.iterations as nat,
            self.backend,
            self.witnessed as nat,
            self.folded as nat,
            self.error is Some,
        )
    }

    /// Starts a run of `iterations` steps. A run of no steps has no proof to
    /// hand out and is refused.
    pub fn new(
        iterations: usize,
        backend: WitnessBackend,
        start_primary: Vec<FieldElement>,
        start_secondary: Option<Vec<FieldElement>>,
    ) -> (r: Result<IvcDriver, DriverError>)
        requires
            all_wf(start_primary@),
            start_secondary matches Some(s) ==> all_wf(s@),
        ensures
            iterations == 0 ==> r matches Err(DriverError::ConfigurationViolation),
            iterations > 0 ==> (r matches Ok(d) && {
                &&& d.wf()
                &&& d.iterations == iterations
                &&& d.backend == backend
                &&& d.primary.start@ == start_primary@
                &&& values(d.primary.current@) == values(start_primary@)
                &&& (start_secondary is None <==> d.secondary is None)
                &&& (start_secondary matches Some(s) ==> (d.secondary matches Some(t) && t.start@
                    == s@ && values(t.current@) == values(s@)))
                &&& d.witnessed == 0
                &&& d.folded == 0
                &&& d.error is None
            }),
    {
        if iterations == 0 {
            return Err(DriverError::ConfigurationViolation);
        }
        let primary = Track { current: copy_state(&start_primary), start: start_primary };
        assert(primary.current@.len() == values(primary.current@).len());
        assert(primary.start@.len() == values(primary.start@).len());
        let secondary = match start_secondary {
            Some(s) => {
                let t = Track { current: copy_state(&s), start: s };
                assert(t.current@.len() == values(t.current@).len());
                assert(t.start@.len() == values(t.start@).len());
                Some(t)
            },
            None => None,
        };
        Ok(
            IvcDriver {
                iterations,
                backend,
                primary,
                secondary,
                witnessed: 0,
                folded: 0,
                error: None,
            },
        )
    }

    /// What the host must do next.
    pub fn next_action(&self) -> (r: Action)
        requires
            self.wf(),
        ensures
            r == self.action(),
    {
        if self.error.is_some() {
            Action::Stop
        } else {
            match self.backend {
                WitnessBackend::Blocking => {
                    if self.folded < self.witnessed {
                        Action::Fold(self.folded)
                    } else if self.witnessed < self.iterations {
                        Action::GenerateWitness(self.witnessed)
                    } else {
                        Action::Finish
                    }
                },
                WitnessBackend::Suspendable => {
                    if self.witnessed < self.iterations {
                        Action::GenerateWitness(self.witnessed)
                    } else if self.folded < self.iterations {
                        Action::Fold(self.folded)
                    } else {
                        Action::Finish
                    }
                },
            }
        }
    }

    /// The input document of the primary track's next witness generation.
    pub fn primary_input(&self, private: &Vec<(String, String)>) -> (r: String)
        requires
            self.wf(),
        ensures
            r@ == document_text(values(self.primary.current@), entries_view(private@)),
    {
        step_input_document(&self.primary.current, private)
    }

    /// The input document of the secondary track's next witness generation;
    /// `None` for the placeholder secondary, which takes no witness. Its private
    /// entries are supplied apart from the primary track's.
    pub fn secondary_input(&self, private: &Vec<(String, String)>) -> (r: Option<String>)
        requires
            self.wf(),
        ensures
            self.secondary is None ==> r is None,
            self.secondary matches Some(t) ==> (r matches Some(s) && s@ == document_text(
                values(t.current@),
                entries_view(private@),
            )),
    {
        match &self.secondary {
            Some(t) => Some(step_input_document(&t.current, private)),
            None => None,
        }
    }

    /// Records the public outputs of the witness just generated: they become
    /// the public input of the next iteration. Outputs whose number differs from
    /// the track's public arity, or a secondary output missing or present
    /// against the run's topology, abort the run as a configuration violation.
    pub fn record_witness(
        &mut self,
        primary_out: Vec<FieldElement>,
        secondary_out: Option<Vec<FieldElement>>,
    )
        requires
            old(self).wf(),
            old(self).action() == Action::GenerateWitness(old(self).witnessed),
            all_wf(primary_out@),
            secondary_out matches Some(s) ==> all_wf(s@),
        ensures
            final(self).wf(),
            final(self).iterations == old(self).iterations,
            final(self).backend == old(self).backend,
            final(self).folded == old(self).folded,
            final(self).primary.start@ == old(self).primary.start@,
            ({
                let fits = primary_out@.len() == old(self).primary.start@.len() && match old(self).secondary {
                    None => secondary_out is None,
                    Some(t) => secondary_out matches Some(s) && s@.len() == t.start@.len(),
                };
                if fits {
                    &&& final(self).error is None
                    &&& final(self).witnessed == old(self).witnessed + 1
                    &&& final(self).primary.current@ == primary_out@
                    &&& (old(self).secondary matches Some(t) ==> (final(self).secondary matches Some(u)
                        && (u.start@ == t.start@ && (secondary_out matches Some(s) && u.current@
                        == s@))))
                } else {
                    &&& final(self).error matches Some(DriverError::ConfigurationViolation)
                    &&& final(self).witnessed == old(self).witnessed
                }
            }),
    {
        if primary_out.len() != self.primary.start.len() {
            self.error = Some(DriverError::ConfigurationViolation);
            return ;
        }
        let fits_secondary = match (&self.secondary, &secondary_out) {
            (None, None) => true,
            (Some(t), Some(s)) => s.len() == t.start.len(),
            _ => false,
        };
        if !fits_secondary {
            self.error = Some(DriverError::ConfigurationViolation);
            return ;
        }
        self.primary.current = primary_out;
        match secondary_out {
            Some(s) => {
                match &mut self.secondary {
                    Some(t) => {
                        t.current = s;
                    },
                    None => {},
                }
            },
            None => {},
        }
        self.witnessed = self.witnessed + 1;
    }

    /// Records that the witness generator rejected the step: the run aborts.
    pub fn record_witness_failure(&mut self, message: String)
        requires
            old(self).wf(),
        ensures
            final(self).wf(),
            final(self).witnessed == old(self).witnessed,
            final(self).folded == old(self).folded,
            final(self).error matches Some(DriverError::WitnessGenerationFailure(m)) && m@
                == message@,
            final(self).action() == Action::Stop,
    {
        self.error = Some(DriverError::WitnessGenerationFailure(message));
    }

    /// Records the outcome of the fold just asked for: success moves on to the
    /// next step, failure aborts the run.
    pub fn record_fold(&mut self, outcome: Result<(), String>)
        requires
            old(self).wf(),
            old(self).action() == Action::Fold(old(self).folded),
        ensures
            final(self).wf(),
            final(self).iterations == old(self).iterations,
            final(self).backend == old(self).backend,
            final(self).witnessed == old(self).witnessed,
            final(self).primary == old(self).primary,
            final(self).secondary == old(self).secondary,
            outcome is Ok ==> final(self).folded == old(self).folded + 1 && final(self).error is None,
            outcome is Err ==> final(self).folded == old(self).folded,
            outcome matches Err(m) ==> (final(self).error matches Some(DriverError::FoldFailure(e))
                && e@ == m@),
    {
        match outcome {
            Ok(()) => {
                self.folded = self.folded + 1;
            },
            Err(m) => {
                self.error = Some(DriverError::FoldFailure(m));
            },
        }
    }
}

/// A copy of a public input state, element by element.
pub fn copy_state(state: &Vec<FieldElement>) -> (r: Vec<FieldElement>)
    requires
        all_wf(state@),
    ensures
        all_wf(r@),
        values(r@) == values(state@),
{
    let mut out: Vec<FieldElement> = Vec::new();
    let mut i: usize = 0;
    while i < state.len()
        invariant
            i <= state.len(),
            all_wf(state@),
            out@.len() == i,
            forall|j: int| 0 <= j < i ==> (#[trigger] out@[j]).repr@ == state@[j].repr@,
        decreases state.len() - i,
    {
        let mut bytes: Vec<u8> = Vec::new();
        let mut k: usize = 0;
        while k < state[i].repr.len()
            invariant
                i < state.len(),
                all_wf(state@),
                out@.len() == i,
                forall|j: int| 0 <= j < i ==> (#[trigger] out@[j]).repr@ == state@[j].repr@,
                k <= state@[i as int].repr@.len(),
                bytes@ == state@[i as int].repr@.subrange(0, k as int),
            decreases state@[i as int].repr@.len() - k,
        {
            bytes.push(state[i].repr[k]);
            k = k + 1;
        }
        assert(bytes@ =~= state@[i as int].repr@);
        out.push(FieldElement { repr: bytes });
        i = i + 1;
    }
    assert(values(out@) =~= values(state@));
    out
}

/// A finished run ends only after every iteration has been witnessed and folded.
pub proof fn lemma_finish_after_all_folds(d: IvcDriver)
    requires
        d.wf(),
        d.action() == Action::Finish,
    ensures
        d.witnessed == d.iterations,
        d.folded == d.iterations,
        d.error is None,
{
}

/// Steps are folded in iteration order, each only after its witness exists.
pub proof fn lemma_fold_after_witness(d: IvcDriver, i: usize)
    requires
        d.wf(),
        d.action() == Action::Fold(i),
    ensures
        i == d.folded,
        i < d.witnessed,
        i < d.iterations,
{
}

/// Witnesses are generated in iteration order, never past the last iteration.
pub proof fn lemma_witness_in_range(d: IvcDriver, i: usize)
    requires
        d.wf(),
        d.action() == Action::GenerateWitness(i),
    ensures
        i == d.witnessed,
        i < d.iterations,
{
}

/// The numbers of witnesses generated and steps folded after `k` events of a
/// run in which every witness generation and every fold succeeds.
pub open spec fn successful_progress(iterations: nat, backend: WitnessBackend, k: nat) -> (nat, nat)
    decreases k,
{
    if k == 0 {
        (0, 0)
    } else {
        let (w, f) = successful_progress(iterations, backend, (k - 1) as nat);
        match action_of(iterations, backend, w, f, false) {
            Action::GenerateWitness(_) => (w + 1, f),
            Action::Fold(_) => (w, f + 1),
            _ => (w, f),
        }
    }
}

/// A run of `iterations >= 1` steps in which every event succeeds asks for
/// exactly `iterations` witnesses and `iterations` folds, one per event, and
/// finishes right after the last fold.
pub proof fn lemma_successful_run(iterations: nat, backend: WitnessBackend, k: nat)
    requires
        iterations >= 1,
        k <= 2 * iterations,
    ensures
        ({
            let (w, f) = successful_progress(iterations, backend, k);
            &&& w + f == k
            &&& f <= w <= iterations
            &&& (backend == WitnessBackend::Blocking ==> w <= f + 1)
            &&& (k < 2 * iterations ==> action_of(iterations, backend, w, f, false) != Action::Finish)
            &&& (k == 2 * iterations ==> w == iterations && f == iterations && action_of(
                iterations,
                backend,
                w,
                f,
                false,
            ) == Action::Finish)
        }),
    decreases k,
{
    if k > 0 {
        lemma_successful_run(iterations, backend, (k - 1) as nat);
    }
}

} // verus!
