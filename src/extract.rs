//! Content extraction for one node, as a state machine. Whoever owns the
//! session performs each requested action (activate the node, wait, enter the
//! page's first frame, find the dynamic content regions, read the breadcrumb,
//! scroll a region into view, read its fragments, probe a URL, leave the
//! frame) and feeds back what came of it. The machine turns fragments into
//! records, decides what is fatal, and always leaves the frame it entered
//! before it finishes.
use vstd::prelude::*;
use crate::records::{
    breadcrumb_path, breadcrumb_spec, classify_probe, classify_probe_spec, is_record_of,
    kept_indices, records_of, region_records, should_probe, ContentRecord, Fragment, UrlStatus,
};

verus! {

/// Milliseconds to wait for a node's content to render after activating it.
pub const LOAD_MILLIS: u64 = 5000;

/// Milliseconds to wait after scrolling a content region into view.
pub const SCROLL_SETTLE_MILLIS: u64 = 500;

/// What the machine waits for, which is also what it asks to be done.
#[derive(Debug)]
pub enum ExtractStage {
    /// Activate the node (through the resilience wrapper).
    Activate,
    /// Wait for the node's content to render.
    Load,
    /// Count the embedded frames on the page.
    CountFrames,
    /// Enter the page's first frame.
    EnterFrame,
    /// Find the dynamic content regions.
    FindRegions,
    /// Read the breadcrumb trail and the page title.
    ReadBreadcrumb,
    /// Scroll the current region into view.
    Scroll,
    /// Wait for the scrolled region to settle.
    Settle,
    /// Read the current region's fragments: link cards, then videos.
    ReadFragments,
    /// Probe the URL of the next fragment.
    Probe,
    /// Return to the top-level page.
    ExitFrame,
    /// Extraction is complete; its result is `records`.
    Done,
    /// Extraction failed with this error.
    Failed(String),
}

/// What came of the action the machine asked for.
#[derive(Debug)]
pub enum ExtractEvent {
    Activated(Result<(), String>),
    Waited,
    FramesCounted(Result<usize, String>),
    /// Whether entering the frame succeeded.
    FrameEntered(bool),
    RegionsFound(Result<usize, String>),
    /// The trail's link texts that could be read (`None` when the trail could
    /// not be queried) and the page title (`None` when it could not be read).
    BreadcrumbRead { trail: Option<Vec<String>>, title: Option<String> },
    Scrolled(Result<(), String>),
    FragmentsRead(Result<Vec<Fragment>, String>),
    /// The status the probed URL answered with, or `None` for no answer.
    Probed(Option<u16>),
    FrameExited,
}

/// The state of one node's extraction.
pub struct Extraction {
    pub node: String,
    /// Whether URLs are probed; otherwise every record is `Skipped`.
    pub validate: bool,
    /// A frame was entered and not yet left.
    pub in_frame: bool,
    pub regions: usize,
    /// The region being read.
    pub current: usize,
    pub crumb: String,
    /// The current region's fragments, and the statuses of its first ones.
    pub frags: Vec<Fragment>,
    pub statuses: Vec<UrlStatus>,
    pub records: Vec<ContentRecord>,
    /// The error to report once the frame has been left.
    pub error: Option<String>,
    pub stage: ExtractStage,
}

/// The status a fragment gets without a probe: `N/A` for an empty URL when
/// validating, `Skipped` when not.
pub open spec fn unprobed_status(validate: bool) -> UrlStatus {
    if validate {
        UrlStatus::NotApplicable
    } else {
        UrlStatus::Skipped
    }
}

/// The first fragment at or after `from` whose URL must be probed.
pub open spec fn next_probe(validate: bool, frags: Seq<Fragment>, from: int) -> Option<int>
    decreases frags.len() - from,
{
    if !validate || from < 0 || from >= frags.len() {
        None
    } else if frags[from].url_spec().len() > 0 {
        Some(from)
    } else {
        next_probe(validate, frags, from + 1)
    }
}

/// The stage after the regions before `current` are done.
pub open spec fn region_stage(current: usize, regions: usize, in_frame: bool) -> ExtractStage {
    if current < regions {
        ExtractStage::Scroll
    } else if in_frame {
        ExtractStage::ExitFrame
    } else {
        ExtractStage::Done
    }
}

impl Extraction {
    /// Ending with `e`: at once, or after leaving the frame.
    pub open spec fn failing(self, e: String) -> Extraction {
        if self.in_frame {
            Extraction { error: Some(e), stage: ExtractStage::ExitFrame, ..self }
        } else {
            Extraction { stage: ExtractStage::Failed(e), ..self }
        }
    }

    /// `new` is this extraction after classifying the current region's
    /// fragments `frags`, whose first statuses are `statuses`: it waits for
    /// the next probe, the statuses of the fragments before it settled
    /// without one; or, with every fragment classified, the region's records
    /// are appended and the next region, or the end, comes.
    pub open spec fn classified(
        self,
        frags: Seq<Fragment>,
        statuses: Seq<UrlStatus>,
        new: Extraction,
    ) -> bool {
        &&& new.node == self.node
        &&& new.validate == self.validate
        &&& new.in_frame == self.in_frame
        &&& new.regions == self.regions
        &&& new.crumb == self.crumb
        &&& new.error == self.error
        &&& match next_probe(self.validate, frags, statuses.len() as int) {
            Some(j) => {
                &&& new.frags@ == frags
                &&& new.statuses@ == statuses + Seq::new(
                    (j - statuses.len()) as nat,
                    |_i: int| unprobed_status(self.validate),
                )
                &&& new.records == self.records
                &&& new.current == self.current
                &&& new.stage is Probe
            },
            None => {
                let all = statuses + Seq::new(
                    (frags.len() - statuses.len()) as nat,
                    |_i: int| unprobed_status(self.validate),
                );
                &&& self.records@.is_prefix_of(new.records@)
                &&& region_records(
                    self.node@,
                    self.crumb@,
                    frags,
                    all,
                    new.records@.subrange(self.records.len() as int, new.records.len() as int),
                )
                &&& new.frags.len() == 0
                &&& new.statuses.len() == 0
                &&& new.current == self.current + 1
                &&& new.stage == region_stage(new.current, new.regions, new.in_frame)
            },
        }
    }

    /// `new` is this extraction after event `ev`. An event that does not
    /// answer the pending stage changes nothing.
    pub open spec fn stepped(self, ev: ExtractEvent, new: Extraction) -> bool {
        match (self.stage, ev) {
            (ExtractStage::Activate, ExtractEvent::Activated(r)) => match r {
                Ok(()) => new == Extraction { stage: ExtractStage::Load, ..self },
                Err(e) => new == self.failing(e),
            },
            (ExtractStage::Load, ExtractEvent::Waited) => new == Extraction {
                stage: ExtractStage::CountFrames,
                ..self
            },
            (ExtractStage::Settle, ExtractEvent::Waited) => new == Extraction {
                stage: ExtractStage::ReadFragments,
                ..self
            },
            (ExtractStage::CountFrames, ExtractEvent::FramesCounted(r)) => match r {
                Ok(n) => new == Extraction {
                    stage: if n > 0 {
                        ExtractStage::EnterFrame
                    } else {
                        ExtractStage::FindRegions
                    },
                    ..self
                },
                Err(e) => new == self.failing(e),
            },
            (ExtractStage::EnterFrame, ExtractEvent::FrameEntered(ok)) => new == Extraction {
                in_frame: ok,
                stage: ExtractStage::FindRegions,
                ..self
            },
            (ExtractStage::FindRegions, ExtractEvent::RegionsFound(r)) => match r {
                Ok(n) => new == Extraction {
                    regions: n,
                    current: 0,
                    stage: ExtractStage::ReadBreadcrumb,
                    ..self
                },
                Err(e) => new == self.failing(e),
            },
            (ExtractStage::ReadBreadcrumb, ExtractEvent::BreadcrumbRead { trail, title }) => {
                &&& new.crumb@ == breadcrumb_spec(
                    match trail {
                        Some(v) => Some(v@),
                        None => None,
                    },
                    match title {
                        Some(t) => Some(t@),
                        None => None,
                    },
                )
                &&& new == Extraction {
                    crumb: new.crumb,
                    stage: region_stage(self.current, self.regions, self.in_frame),
                    ..self
                }
            },
            (ExtractStage::Scroll, ExtractEvent::Scrolled(r)) => match r {
                Ok(()) => new == Extraction { stage: ExtractStage::Settle, ..self },
                Err(e) => new == self.failing(e),
            },
            (ExtractStage::ReadFragments, ExtractEvent::FragmentsRead(r)) => match r {
                Ok(frags) => self.classified(frags@, Seq::empty(), new),
                Err(e) => new == self.failing(e),
            },
            (ExtractStage::Probe, ExtractEvent::Probed(answer)) => self.classified(
                self.frags@,
                self.statuses@.push(
                    classify_probe_spec(self.frags[self.statuses.len() as int].url_spec(), answer),
                ),
                new,
            ),
            (ExtractStage::ExitFrame, ExtractEvent::FrameExited) => new == Extraction {
                in_frame: false,
                stage: match self.error {
                    Some(e) => ExtractStage::Failed(e),
                    None => ExtractStage::Done,
                },
                ..self
            },
            _ => new == self,
        }
    }

    /// Everything the machine keeps true of its data, whatever the stage.
    pub open spec fn wf_data(self) -> bool {
        &&& self.current <= self.regions
        &&& self.statuses.len() <= self.frags.len()
        &&& forall|j: int|
            0 <= j < self.records.len() ==> {
                &&& (#[trigger] self.records[j]).url@.len() > 0 || self.records[j].title@.len() > 0
                &&& self.records[j].source_node@ == self.node@
                &&& !self.validate ==> self.records[j].url_valid == UrlStatus::Skipped
            }
        &&& !self.validate ==> forall|j: int|
            0 <= j < self.statuses.len() ==> #[trigger] self.statuses[j] == UrlStatus::Skipped
    }

    pub open spec fn wf(self) -> bool {
        &&& self.wf_data()
        &&& (self.stage is Probe ==> self.validate && self.statuses.len() < self.frags.len())
        &&& (self.stage is Scroll || self.stage is Settle || self.stage is ReadFragments
            || self.stage is Probe) ==> self.current < self.regions
        &&& (self.stage is ExitFrame ==> self.in_frame)
        &&& (self.stage is Done || self.stage is Failed) ==> !self.in_frame
    }

    /// The extraction of `node`, probing URLs when `validate` holds. It first
    /// asks for the node to be activated.
    pub fn new(node: String, validate: bool) -> (r: Extraction)
        ensures
            r.wf(),
            r.node == node,
            r.validate == validate,
            r.records.len() == 0,
            r.stage is Activate,
            !r.in_frame,
    {
        Extraction {
            node,
            validate,
            in_frame: false,
            regions: 0,
            current: 0,
            crumb: String::new(),
            frags: Vec::new(),
            statuses: Vec::new(),
            records: Vec::new(),
            error: None,
            stage: ExtractStage::Activate,
        }
    }

    /// Ends with `e`, after leaving the frame when one was entered.
    fn fail(&mut self, e: String)
        requires
            old(self).wf(),
        ensures
            final(self).wf(),
            final(self).node == old(self).node,
            final(self).validate == old(self).validate,
            final(self).records == old(self).records,
            *final(self) == old(self).failing(e),
    {
        if self.in_frame {
            self.error = Some(e);
            self.stage = ExtractStage::ExitFrame;
        } else {
            self.stage = ExtractStage::Failed(e);
        }
    }

    /// Goes on to the next region, or finishes when none is left.
    fn next_region(&mut self)
        requires
            old(self).wf_data(),
            old(self).stage is ExitFrame ==> old(self).in_frame,
            (old(self).stage is Done || old(self).stage is Failed) ==> !old(self).in_frame,
        ensures
            final(self).wf(),
            final(self).node == old(self).node,
            final(self).validate == old(self).validate,
            final(self).records == old(self).records,
            *final(self) == (Extraction {
                stage: region_stage(old(self).current, old(self).regions, old(self).in_frame),
                ..*old(self)
            }),
    {
        if self.current < self.regions {
            self.stage = ExtractStage::Scroll;
        } else if self.in_frame {
            self.stage = ExtractStage::ExitFrame;
        } else {
            self.stage = ExtractStage::Done;
        }
    }

    /// Classifies the current region's fragments in turn, asking for a probe
    /// where one is needed; once all are classified, turns them into records
    /// and goes on to the next region.
    fn classify_fragments(&mut self)
        requires
            old(self).wf_data(),
            old(self).stage is Probe || old(self).stage is ReadFragments,
            old(self).current < old(self).regions,
        ensures
            final(self).wf(),
            final(self).node == old(self).node,
            final(self).validate == old(self).validate,
            old(self).records@.is_prefix_of(final(self).records@),
            old(self).classified(old(self).frags@, old(self).statuses@, *final(self)),
    {
        self.stage = ExtractStage::ReadFragments;
        while self.statuses.len() < self.frags.len()
            invariant
                self.wf(),
                self.node == old(self).node,
                self.validate == old(self).validate,
                self.records == old(self).records,
                self.current < self.regions,
                self.stage is ReadFragments,
                self.frags == old(self).frags,
                self.in_frame == old(self).in_frame,
                self.regions == old(self).regions,
                self.current == old(self).current,
                self.crumb == old(self).crumb,
                self.error == old(self).error,
                old(self).statuses.len() <= self.statuses.len(),
                self.statuses@ == old(self).statuses@ + Seq::new(
                    (self.statuses.len() - old(self).statuses.len()) as nat,
                    |_i: int| unprobed_status(self.validate),
                ),
                next_probe(self.validate, self.frags@, old(self).statuses.len() as int) == next_probe(
                    self.validate,
                    self.frags@,
                    self.statuses.len() as int,
                ),
            decreases self.frags.len() - self.statuses.len(),
        {
            let j = self.statuses.len();
            if !self.validate {
                let ghost prev = self.statuses@;
                self.statuses.push(UrlStatus::Skipped);
                proof {
                    assert forall|k: int| 0 <= k < self.statuses.len() implies #[trigger] self.statuses[k]
                        == UrlStatus::Skipped by {
                        if k < prev.len() {
                            assert(self.statuses[k] == prev[k]);
                        }
                    }
                }
            } else {
                let url = self.frags[j].url();
                if should_probe(url.as_str()) {
                    self.stage = ExtractStage::Probe;
                    return;
                }
                self.statuses.push(classify_probe(url.as_str(), None));
            }
        }
        let mut recs = records_of(self.node.as_str(), self.crumb.as_str(), &self.frags, &self.statuses);
        let ghost before = self.records@;
        let ghost fresh = recs@;
        let ghost mid = *self;
        self.records.append(&mut recs);
        proof {
            assert(before.is_prefix_of(self.records@)) by {
                assert(self.records@.subrange(0, before.len() as int) =~= before);
            }
            assert forall|j: int| 0 <= j < self.records.len() implies {
                &&& (#[trigger] self.records[j]).url@.len() > 0 || self.records[j].title@.len() > 0
                &&& self.records[j].source_node@ == self.node@
                &&& !self.validate ==> self.records[j].url_valid == UrlStatus::Skipped
            } by {
                if j < before.len() {
                    assert(self.records[j] == before[j]);
                    assert(mid.records[j] == before[j]);
                } else {
                    let i = j - before.len();
                    assert(self.records[j] == fresh[i]);
                    let k = kept_indices(mid.frags@, mid.frags.len() as int)[i];
                    assert(0 <= k < mid.frags.len() && is_record_of(
                        fresh[i],
                        mid.node@,
                        mid.crumb@,
                        mid.frags[k],
                        mid.statuses[k],
                    ));
                    if !self.validate {
                        assert(mid.statuses[k] == UrlStatus::Skipped);
                    }
                }
            }
        }
        self.frags = Vec::new();
        self.statuses = Vec::new();
        self.current = self.current + 1;
        self.next_region();
    }
}

impl Extraction {
    /// Whether the extraction has ended, completed or failed.
    pub fn is_finished(&self) -> (r: bool)
        ensures
            r == (self.stage is Done || self.stage is Failed),
    {
        matches!(self.stage, ExtractStage::Done | ExtractStage::Failed(_))
    }

    /// The URL to probe, while a probe is pending.
    pub fn probe_url(&self) -> (r: Option<String>)
        requires
            self.wf(),
        ensures
            self.stage is Probe ==> (r matches Some(u) && u@ == self.frags[self.statuses.len() as int].url_spec()),
            !(self.stage is Probe) ==> r is None,
    {
        if matches!(self.stage, ExtractStage::Probe) {
            Some(self.frags[self.statuses.len()].url())
        } else {
            None
        }
    }

    /// Feeds back what came of the pending action. A finished extraction, or
    /// an event that does not answer the pending stage, changes nothing.
    pub fn step(&mut self, ev: ExtractEvent)
        requires
            old(self).wf(),
        ensures
            final(self).wf(),
            final(self).node == old(self).node,
            final(self).validate == old(self).validate,
            old(self).records@.is_prefix_of(final(self).records@),
            (old(self).stage is Done || old(self).stage is Failed) ==> *final(self) == *old(self),
            old(self).stepped(ev, *final(self)),
    {
        proof {
            assert(self.records@.subrange(0, self.records@.len() as int) =~= self.records@);
        }
        match ev {
            ExtractEvent::Activated(r) => {
                if matches!(self.stage, ExtractStage::Activate) {
                    match r {
                        Ok(()) => {
                            self.stage = ExtractStage::Load;
                        },
                        Err(e) => self.fail(e),
                    }
                }
            },
            ExtractEvent::Waited => {
                if matches!(self.stage, ExtractStage::Load) {
                    self.stage = ExtractStage::CountFrames;
                } else if matches!(self.stage, ExtractStage::Settle) {
                    self.stage = ExtractStage::ReadFragments;
                }
            },
            ExtractEvent::FramesCounted(r) => {
                if matches!(self.stage, ExtractStage::CountFrames) {
                    match r {
                        Ok(n) => {
                            self.stage = if n > 0 {
                                ExtractStage::EnterFrame
                            } else {
                                ExtractStage::FindRegions
                            };
                        },
                        Err(e) => self.fail(e),
                    }
                }
            },
            ExtractEvent::FrameEntered(ok) => {
                if matches!(self.stage, ExtractStage::EnterFrame) {
                    self.in_frame = ok;
                    self.stage = ExtractStage::FindRegions;
                }
            },
            ExtractEvent::RegionsFound(r) => {
                if matches!(self.stage, ExtractStage::FindRegions) {
                    match r {
                        Ok(n) => {
                            self.regions = n;
                            self.current = 0;
                            self.stage = ExtractStage::ReadBreadcrumb;
                        },
                        Err(e) => self.fail(e),
                    }
                }
            },
            ExtractEvent::BreadcrumbRead { trail, title } => {
                if matches!(self.stage, ExtractStage::ReadBreadcrumb) {
                    self.crumb = breadcrumb_path(&trail, &title);
                    self.next_region();
                }
            },
            ExtractEvent::Scrolled(r) => {
                if matches!(self.stage, ExtractStage::Scroll) {
                    match r {
                        Ok(()) => {
                            self.stage = ExtractStage::Settle;
                        },
                        Err(e) => self.fail(e),
                    }
                }
            },
            ExtractEvent::FragmentsRead(r) => {
                if matches!(self.stage, ExtractStage::ReadFragments) {
                    match r {
                        Ok(frags) => {
                            self.frags = frags;
                            self.statuses = Vec::new();
                            self.classify_fragments();
                        },
                        Err(e) => self.fail(e),
                    }
                }
            },
            ExtractEvent::Probed(answer) => {
                if matches!(self.stage, ExtractStage::Probe) {
                    let url = self.frags[self.statuses.len()].url();
                    self.statuses.push(classify_probe(url.as_str(), answer));
                    self.classify_fragments();
                }
            },
            ExtractEvent::FrameExited => {
                if matches!(self.stage, ExtractStage::ExitFrame) {
                    self.in_frame = false;
                    self.stage = match &self.error {
                        Some(e) => ExtractStage::Failed(e.clone()),
                        None => ExtractStage::Done,
                    };
                }
            },
        }
    }
}

/// No record an extraction emits has both an empty URL and an empty title;
/// each names the extracted node; and without validation each is `Skipped`.
pub proof fn lemma_records_never_blank(x: Extraction)
    requires
        x.wf(),
    ensures
        forall|j: int|
            0 <= j < x.records.len() ==> (#[trigger] x.records[j]).url@.len() > 0
                || x.records[j].title@.len() > 0,
        forall|j: int| 0 <= j < x.records.len() ==> (#[trigger] x.records[j]).source_node@ == x.node@,
        !x.validate ==> forall|j: int|
            0 <= j < x.records.len() ==> (#[trigger] x.records[j]).url_valid == UrlStatus::Skipped,
{
}

/// A finished extraction has left any frame it entered.
pub proof fn lemma_finished_outside_frame(x: Extraction)
    requires
        x.wf(),
        x.stage is Done || x.stage is Failed,
    ensures
        !x.in_frame,
{
}

} // verus!
