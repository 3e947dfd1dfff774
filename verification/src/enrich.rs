//! Collecting the recordings that go into the report.
//!
//! An [`Enrichment`] is offered the recordings of the history one by one.
//! For each it decides, by the rule tables, whether to leave it out, to
//! report it as having no identifier, or to have its duration looked up.
//! A recording joins the output when the lookup made for it has ended
//! with a duration. A lookup that ended in an error ends the run: nothing
//! more is looked up, and there is no output.

use vstd::prelude::*;
use crate::error::PipelineError;
use crate::lookup::{DurationLookup, DurationLookupView, LookupState};
use crate::rank::{is_ranking_of, lemma_ranked_items_are_given, rank, times_fit};
use crate::recording::{
    enriched_views,
    Recording,
    RecordingView,
    RecordingWithLength,
    RecordingWithLengthView,
};
use crate::rules::{
    any_accepts,
    matcher_views,
    remap_views,
    resolve,
    resolve_spec,
    BadData,
    BadDataMatcher,
    BadDataMatcherView,
    BadDataView,
    ResolvedIdentity,
    ResolvedIdentityView,
};

verus! {

/// The rule tables of a run, the recording whose duration is being looked
/// up, the recordings that have their duration, and the error that ended
/// the run, if one did.
pub struct Enrichment {
    skip_rules: Vec<BadDataMatcher>,
    remap_rules: Vec<BadData>,
    pending: Option<Recording>,
    enriched: Vec<RecordingWithLength>,
    failure: Option<PipelineError>,
}

/// The mathematical content of an [`Enrichment`].
pub struct EnrichmentView {
    /// The patterns of the recordings to leave out.
    pub skip_rules: Seq<BadDataMatcherView>,
    /// The rules that supply identifiers, in the order in which they apply.
    pub remap_rules: Seq<BadDataView>,
    /// The recording whose duration is being looked up, if there is one. It
    /// carries the identifier under which the duration is looked up.
    pub pending: Option<RecordingView>,
    /// The recordings that have their duration, in the order in which they
    /// were offered.
    pub enriched: Seq<RecordingWithLengthView>,
    /// The error of the lookup that ended the run, if one did.
    pub failure: Option<PipelineError>,
}

/// A recording with its identifier set.
pub open spec fn with_identifier(recording: RecordingView, mbid: Seq<char>) -> RecordingView {
    RecordingView { recording_mbid: Some(mbid), ..recording }
}

impl EnrichmentView {
    /// Whether a recording may stand in the output: it carries an
    /// identifier, and no skip rule accepts it.
    pub open spec fn admits(self, recording: RecordingView) -> bool {
        recording.recording_mbid is Some && !any_accepts(self.skip_rules, recording)
    }

    /// What holds of every enrichment: the recording whose duration is being
    /// looked up, and every recording that has its duration, carries an
    /// identifier and is accepted by no skip rule; and a run that has failed
    /// holds no recording at all.
    pub open spec fn wf(self) -> bool {
        &&& self.pending matches Some(recording) ==> self.admits(recording)
        &&& forall|i: int|
            0 <= i < self.enriched.len() ==> self.admits((#[trigger] self.enriched[i]).recording)
        &&& self.failure is Some ==> self.pending is None && self.enriched.len() == 0
    }

    /// The enrichment after a recording was offered. If the rules give the
    /// recording an identifier, its duration is now being looked up under
    /// that identifier; if not, nothing is being looked up. The output is as
    /// it was. A run that has failed takes no recording.
    pub open spec fn after_offer(self, recording: RecordingView) -> EnrichmentView {
        if self.failure is Some {
            self
        } else {
            EnrichmentView {
                pending: match resolve_spec(recording, self.skip_rules, self.remap_rules) {
                    ResolvedIdentityView::Id(mbid) => Some(with_identifier(recording, mbid)),
                    _ => None,
                },
                ..self
            }
        }
    }

    /// Whether a lookup was made for the recording that is waiting: the run
    /// has not failed, a recording is waiting, and the lookup was made under
    /// its identifier.
    pub open spec fn awaits(self, lookup: DurationLookupView) -> bool {
        &&& self.failure is None
        &&& self.pending matches Some(recording)
        &&& recording.recording_mbid == Some(lookup.mbid)
    }

    /// Whether a lookup completes the recording that is waiting: it was
    /// made for that recording, and has ended with a duration.
    pub open spec fn completed_by(self, lookup: DurationLookupView) -> bool {
        self.awaits(lookup) && lookup.state matches LookupState::Finished(Ok(_))
    }

    /// Whether a lookup ends the run: it was made for the recording that is
    /// waiting, and has ended in an error.
    pub open spec fn failed_by(self, lookup: DurationLookupView) -> bool {
        self.awaits(lookup) && lookup.state matches LookupState::Finished(Err(_))
    }

    /// The enrichment after a lookup was handed in. A lookup that completes
    /// the waiting recording puts it at the end of the output, with the
    /// duration that the lookup found. A lookup that ends the run leaves its
    /// error, and nothing else: what was collected is given up. Any other
    /// lookup changes nothing.
    pub open spec fn after_lookup(self, lookup: DurationLookupView) -> EnrichmentView {
        if self.completed_by(lookup) {
            EnrichmentView {
                pending: None,
                enriched: self.enriched.push(
                    RecordingWithLengthView {
                        recording: self.pending->0,
                        length: lookup.state->Finished_0->Ok_0 as nat,
                    },
                ),
                ..self
            }
        } else if self.failed_by(lookup) {
            EnrichmentView {
                pending: None,
                enriched: Seq::empty(),
                failure: Some(lookup.state->Finished_0->Err_0),
                ..self
            }
        } else {
            self
        }
    }
}

impl View for Enrichment {
    type V = EnrichmentView;

    closed spec fn view(&self) -> EnrichmentView {
        EnrichmentView {
            skip_rules: matcher_views(self.skip_rules@),
            remap_rules: remap_views(self.remap_rules@),
            pending: match self.pending {
                Some(recording) => Some(recording@),
                None => None,
            },
            enriched: enriched_views(self.enriched@),
            failure: self.failure,
        }
    }
}

impl Enrichment {
    /// Starts an enrichment under the given rule tables, which stay as they
    /// are for the whole run.
    pub fn new(skip_rules: Vec<BadDataMatcher>, remap_rules: Vec<BadData>) -> (run: Enrichment)
        ensures
            run@ == (EnrichmentView {
                skip_rules: matcher_views(skip_rules@),
                remap_rules: remap_views(remap_rules@),
                pending: None,
                enriched: Seq::empty(),
                failure: None,
            }),
            run@.wf(),
    {
        let enriched: Vec<RecordingWithLength> = Vec::new();
        assert(enriched_views(enriched@) =~= Seq::empty());
        Enrichment { skip_rules, remap_rules, pending: None, enriched, failure: None }
    }

    /// Offers a recording of the history, and tells what the rules make of
    /// it. A recording that gets an identifier waits for its duration: the
    /// caller looks the duration up under that identifier and hands the
    /// lookup in. A recording that was waiting until now is given up.
    ///
    /// A run that has failed takes no recording: the answer is the error
    /// that ended it, and nothing is to be looked up.
    pub fn offer(&mut self, recording: Recording) -> (outcome: Result<
        ResolvedIdentity,
        PipelineError,
    >)
        ensures
            match outcome {
                Ok(identity) => old(self)@.failure is None && identity@ == resolve_spec(
                    recording@,
                    old(self)@.skip_rules,
                    old(self)@.remap_rules,
                ),
                Err(e) => old(self)@.failure == Some(e),
            },
            final(self)@ == old(self)@.after_offer(recording@),
            old(self)@.wf() ==> final(self)@.wf(),
    {
        if let Some(error) = self.failure {
            return Err(error);
        }
        let identity = resolve(
            &recording,
            self.skip_rules.as_slice(),
            self.remap_rules.as_slice(),
        );
        match &identity {
            ResolvedIdentity::Id(mbid) => {
                let ghost offered = recording@;
                let mut held = recording;
                held.recording_mbid = Some(mbid.clone());
                proof {
                    let rules = matcher_views(self.skip_rules@);
                    assert(held@ == with_identifier(offered, mbid@));
                    assert(!any_accepts(rules, offered));
                    assert forall|i: int| 0 <= i < rules.len() implies !(#[trigger] rules[i]).accepts(
                        held@,
                    ) by {
                        assert(rules[i].accepts(held@) == rules[i].accepts(offered));
                    }
                }
                self.pending = Some(held);
            },
            _ => {
                self.pending = None;
            },
        }
        Ok(identity)
    }

    /// Tells whether a lookup was made under the identifier of the
    /// recording that is waiting.
    fn is_waiting_for(&self, lookup: &DurationLookup) -> (waiting: bool)
        ensures
            waiting == (self@.pending matches Some(recording) && recording.recording_mbid == Some(
                lookup@.mbid,
            )),
    {
        match &self.pending {
            Some(held) => match &held.recording_mbid {
                Some(mbid) => *mbid == *lookup.mbid(),
                None => false,
            },
            None => false,
        }
    }

    /// Hands in a lookup.
    ///
    /// If the lookup was made for the recording that is waiting and has
    /// ended with a duration, the recording joins the output with that
    /// duration, and the answer is `Ok(true)`. If it was made for that
    /// recording and has ended in an error, the run has failed: the answer
    /// is that error, now and from every later call, and what was collected
    /// is given up. Any other lookup changes nothing, and the answer is
    /// `Ok(false)`.
    pub fn complete(&mut self, lookup: &DurationLookup) -> (outcome: Result<bool, PipelineError>)
        ensures
            match outcome {
                Ok(accepted) => final(self)@.failure is None && accepted == old(
                    self,
                )@.completed_by(lookup@),
                Err(e) => final(self)@.failure == Some(e),
            },
            final(self)@ == old(self)@.after_lookup(lookup@),
            old(self)@.wf() ==> final(self)@.wf(),
    {
        if let Some(error) = self.failure {
            return Err(error);
        }
        if !self.is_waiting_for(lookup) {
            return Ok(false);
        }
        match lookup.state() {
            LookupState::Finished(Ok(length)) => {
                let ghost before = self@;
                let held = self.pending.take().unwrap();
                let ghost added = RecordingWithLengthView {
                    recording: held@,
                    length: length as nat,
                };
                self.enriched.push(RecordingWithLength { recording: held, length });
                proof {
                    assert(enriched_views(self.enriched@) =~= before.enriched.push(added));
                }
                Ok(true)
            },
            LookupState::Finished(Err(error)) => {
                self.failure = Some(error);
                self.pending = None;
                self.enriched = Vec::new();
                proof {
                    assert(enriched_views(self.enriched@) =~= Seq::empty());
                }
                Err(error)
            },
            _ => Ok(false),
        }
    }

    /// The error that ended the run, if one did.
    pub fn failure(&self) -> (failure: Option<PipelineError>)
        ensures
            failure == self@.failure,
    {
        self.failure
    }

    /// The recordings that have their duration so far, in the order in
    /// which they were offered.
    pub fn enriched(&self) -> (enriched: &Vec<RecordingWithLength>)
        ensures
            enriched_views(enriched@) == self@.enriched,
    {
        &self.enriched
    }

    /// Ends the enrichment and ranks its output by listening time, the
    /// longest first. A recording that was still waiting for its duration is
    /// not part of the output. A run that has failed has no output: the
    /// answer is the error that ended it.
    pub fn finish(self) -> (ranked: Result<Vec<RecordingWithLength>, PipelineError>)
        ensures
            match ranked {
                Ok(out) => {
                    &&& self@.failure is None
                    &&& times_fit(self@.enriched)
                    &&& is_ranking_of(enriched_views(out@), self@.enriched)
                    &&& self@.wf() ==> forall|i: int|
                        0 <= i < out@.len() ==> self@.admits((#[trigger] out@[i])@.recording)
                },
                Err(e) => match self@.failure {
                    Some(failure) => e == failure,
                    None => e == PipelineError::Computation && !times_fit(self@.enriched),
                },
            },
    {
        if let Some(error) = self.failure {
            return Err(error);
        }
        let ghost before = self@;
        let ranked = rank(self.enriched);
        proof {
            if let Ok(out) = &ranked {
                if before.wf() {
                    lemma_ranked_items_are_given(enriched_views(out@), before.enriched);
                    assert forall|i: int| 0 <= i < out@.len() implies before.admits(
                        (#[trigger] out@[i])@.recording,
                    ) by {
                        let shown = enriched_views(out@)[i];
                        assert(shown == out@[i]@);
                        assert(before.enriched.contains(shown));
                        let j: int = choose|j: int|
                            0 <= j < before.enriched.len() && before.enriched[j] == shown;
                        assert(before.admits(before.enriched[j].recording));
                    }
                }
            }
        }
        ranked
    }
}

/// A recording that a skip rule accepts never waits for a duration, and so
/// never joins the output: offering it leaves the output as it was and
/// nothing waiting, whatever the replacement rules hold and whether or not
/// the recording carries an identifier.
pub proof fn lemma_skipped_recording_stays_out(run: EnrichmentView, recording: RecordingView)
    requires
        run.wf(),
        any_accepts(run.skip_rules, recording),
    ensures
        run.after_offer(recording).pending is None,
        run.after_offer(recording).enriched == run.enriched,
        forall|lookup: DurationLookupView| #[trigger]
            run.after_offer(recording).after_lookup(lookup).enriched == run.enriched,
{
}

/// Offering recordings and handing in lookups keeps what holds of every
/// enrichment. So at every moment of a run, no recording of the output is
/// accepted by a skip rule, and each carries the identifier under which its
/// duration was looked up.
pub proof fn lemma_steps_keep_output_admitted(
    run: EnrichmentView,
    recording: RecordingView,
    lookup: DurationLookupView,
)
    requires
        run.wf(),
    ensures
        run.after_offer(recording).wf(),
        run.after_lookup(lookup).wf(),
{
    if let ResolvedIdentityView::Id(mbid) = resolve_spec(
        recording,
        run.skip_rules,
        run.remap_rules,
    ) {
        let held = with_identifier(recording, mbid);
        assert forall|i: int| 0 <= i < run.skip_rules.len() implies !(#[trigger] run.skip_rules[i]).accepts(
            held,
        ) by {
            assert(run.skip_rules[i].accepts(held) == run.skip_rules[i].accepts(recording));
        }
    }
}

/// A lookup that was made for the waiting recording and ended in an error
/// ends the run with that error: the output is empty and nothing is
/// waiting, and no recording offered and no lookup handed in afterwards
/// changes that.
pub proof fn lemma_failed_lookup_ends_the_run(
    run: EnrichmentView,
    lookup: DurationLookupView,
    error: PipelineError,
    recording: RecordingView,
    later: DurationLookupView,
)
    requires
        run.awaits(lookup),
        lookup.state == LookupState::Finished(Err(error)),
    ensures
        run.after_lookup(lookup).failure == Some(error),
        run.after_lookup(lookup).enriched.len() == 0,
        run.after_lookup(lookup).pending is None,
        run.after_lookup(lookup).after_offer(recording) == run.after_lookup(lookup),
        run.after_lookup(lookup).after_lookup(later) == run.after_lookup(lookup),
{
}

} // verus!
