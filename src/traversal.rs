//! Depth-bounded, pre-order traversal of a node's descendants, as a state
//! machine over an explicit stack. Whoever owns the session performs each
//! requested action (discover a node's children, probe a child for an expand
//! toggle, pause) and feeds back the result. The tree lives in the remote
//! session and is re-read at every step; the machine keeps, as ghost state,
//! every parent-child pair that discovery has reported, and its result only
//! ever holds nodes reachable from the root along those pairs within the
//! depth bound.
use vstd::prelude::*;

verus! {

/// Milliseconds to pause after each child, to spare the remote surface.
pub const CHILD_PAUSE_MILLIS: u64 = 500;

/// The parent-child pairs that discovery has reported.
pub type Edges = Set<(Seq<char>, Seq<char>)>;

/// `x` is reachable from `root` in at most `k` steps along `edges`, taking at
/// least one step.
pub open spec fn within(edges: Edges, root: Seq<char>, x: Seq<char>, k: nat) -> bool
    decreases k,
{
    k > 0 && exists|p: Seq<char>|
        #[trigger] edges.contains((p, x)) && (p == root || within(edges, root, p, (k - 1) as nat))
}

/// Reachability survives more reported pairs and a larger step bound.
pub proof fn lemma_within_mono(e1: Edges, e2: Edges, root: Seq<char>, x: Seq<char>, k: nat, k2: nat)
    requires
        e1.subset_of(e2),
        k <= k2,
        within(e1, root, x, k),
    ensures
        within(e2, root, x, k2),
    decreases k,
{
    let p = choose|p: Seq<char>|
        #[trigger] e1.contains((p, x)) && (p == root || within(e1, root, p, (k - 1) as nat));
    assert(e2.contains((p, x)));
    if p != root {
        lemma_within_mono(e1, e2, root, p, (k - 1) as nat, (k2 - 1) as nat);
    }
}

/// A node whose children are being walked.
#[derive(Debug)]
pub struct Frame {
    pub node: String,
    /// Steps from the root: 0 for the root itself.
    pub depth: usize,
    /// Its children, as discovery reported them.
    pub children: Vec<String>,
    /// The child being handled.
    pub next: usize,
}

/// What the traversal waits for, which is also what it asks to be done.
#[derive(Debug)]
pub enum TraversalStage {
    /// Discover the children of `node`, whose frame opens at `depth`.
    Discover { node: String, depth: usize },
    /// Probe the current child for an expand toggle.
    Probe,
    /// Discover the current child's children, to see whether to descend.
    DiscoverChild,
    /// Pause after the current child.
    Pause,
    /// The traversal is complete; its result is `output`.
    Done,
    /// Discovering the root's own children failed with this error. (When
    /// opening a node below the root fails, that subtree is skipped and the
    /// walk goes on with its siblings.)
    Failed(String),
}

/// What came of the action the traversal asked for.
#[derive(Debug)]
pub enum TraversalEvent {
    /// Child discovery: the children in document order, or its error.
    Discovered(Result<Vec<String>, String>),
    /// The expand-toggle probe: whether the child has one, or its error.
    Probed(Result<bool, String>),
    /// The pause is over.
    Waited,
}

/// The state of one traversal.
pub struct Traversal {
    pub root: String,
    pub max_depth: usize,
    /// The descendants found so far, in pre-order.
    pub output: Vec<String>,
    /// The frames being walked, the root's at the bottom.
    pub stack: Vec<Frame>,
    pub stage: TraversalStage,
    /// Every parent-child pair that discovery has reported.
    pub edges: Ghost<Edges>,
}

/// A frame, as mathematical values.
pub struct FrameModel {
    pub node: Seq<char>,
    pub depth: nat,
    pub children: Seq<Seq<char>>,
    pub next: nat,
}

/// A traversal stage, as mathematical values.
pub enum StageModel {
    Discover(Seq<char>, nat),
    Probe,
    DiscoverChild,
    Pause,
    Done,
    Failed(Seq<char>),
}

/// A traversal's evolving state, as mathematical values: what it has found,
/// its frames from the root's up, and its stage.
pub struct TraversalModel {
    pub found: Seq<Seq<char>>,
    pub frames: Seq<FrameModel>,
    pub stage: StageModel,
}

pub open spec fn names(v: Seq<String>) -> Seq<Seq<char>> {
    v.map_values(|c: String| c@)
}

impl Frame {
    pub open spec fn model(self) -> FrameModel {
        FrameModel {
            node: self.node@,
            depth: self.depth as nat,
            children: names(self.children@),
            next: self.next as nat,
        }
    }
}

impl TraversalModel {
    /// Moving on from the top frame's `next`: that child is found and is to
    /// be probed; or, when the frame has no child left, the frame closes and
    /// the walk pauses after the parent's current child, or ends.
    pub open spec fn advance(self) -> TraversalModel {
        let top = self.frames.last();
        if top.next < top.children.len() {
            TraversalModel {
                found: self.found.push(top.children[top.next as int]),
                stage: StageModel::Probe,
                ..self
            }
        } else {
            let frames = self.frames.drop_last();
            TraversalModel {
                frames,
                stage: if frames.len() == 0 {
                    StageModel::Done
                } else {
                    StageModel::Pause
                },
                ..self
            }
        }
    }

    /// The walk's transitions, for a depth bound of `max_depth`. An event
    /// that does not answer the pending stage changes nothing.
    pub open spec fn transition(self, max_depth: nat, ev: TraversalEvent) -> TraversalModel {
        match (self.stage, ev) {
            (StageModel::Discover(node, depth), TraversalEvent::Discovered(Ok(children))) => (
            TraversalModel {
                frames: self.frames.push(
                    FrameModel { node, depth, children: names(children@), next: 0 },
                ),
                ..self
            }).advance(),
            (StageModel::Discover(_, depth), TraversalEvent::Discovered(Err(e))) => TraversalModel {
                stage: if depth == 0 {
                    StageModel::Failed(e@)
                } else {
                    StageModel::Pause
                },
                ..self
            },
            (StageModel::DiscoverChild, TraversalEvent::Discovered(Ok(grandchildren))) => {
                let top = self.frames.last();
                if grandchildren.len() > 0 && top.depth + 1 < max_depth {
                    TraversalModel {
                        stage: StageModel::Discover(top.children[top.next as int], top.depth + 1),
                        ..self
                    }
                } else {
                    TraversalModel { stage: StageModel::Pause, ..self }
                }
            },
            (StageModel::DiscoverChild, TraversalEvent::Discovered(Err(_))) => TraversalModel {
                stage: StageModel::Pause,
                ..self
            },
            (StageModel::Probe, TraversalEvent::Probed(r)) => TraversalModel {
                stage: if r == Ok::<bool, String>(true) {
                    StageModel::DiscoverChild
                } else {
                    StageModel::Pause
                },
                ..self
            },
            (StageModel::Pause, TraversalEvent::Waited) => {
                let top = self.frames.last();
                (TraversalModel {
                    frames: self.frames.update(
                        self.frames.len() - 1,
                        FrameModel { next: top.next + 1, ..top },
                    ),
                    ..self
                }).advance()
            },
            _ => self,
        }
    }
}

impl Traversal {
    /// The descendants found so far, as character sequences.
    pub open spec fn found(self) -> Seq<Seq<char>> {
        self.output@.map_values(|s: String| s@)
    }

    pub open spec fn model(self) -> TraversalModel {
        TraversalModel {
            found: self.found(),
            frames: self.stack@.map_values(|f: Frame| f.model()),
            stage: match self.stage {
                TraversalStage::Discover { node, depth } => StageModel::Discover(node@, depth as nat),
                TraversalStage::Probe => StageModel::Probe,
                TraversalStage::DiscoverChild => StageModel::DiscoverChild,
                TraversalStage::Pause => StageModel::Pause,
                TraversalStage::Done => StageModel::Done,
                TraversalStage::Failed(e) => StageModel::Failed(e@),
            },
        }
    }

    /// The child that the top frame is handling.
    pub open spec fn current_child(self) -> Seq<char> {
        let top = self.stack@.last();
        top.children[top.next as int]@
    }

    pub open spec fn frame_ok(self, i: int) -> bool {
        let f = self.stack[i];
        &&& f.depth == i
        &&& f.depth < self.max_depth
        &&& f.next <= f.children.len()
        &&& forall|j: int|
            0 <= j < f.children.len() ==> #[trigger] self.edges@.contains((f.node@, f.children[j]@))
        &&& if i == 0 {
            f.node@ == self.root@
        } else {
            &&& self.stack[i - 1].next < self.stack[i - 1].children.len()
            &&& f.node@ == self.stack[i - 1].children[self.stack[i - 1].next as int]@
            &&& within(self.edges@, self.root@, f.node@, i as nat)
        }
    }

    /// A child is being handled: the top frame has one at `next`.
    pub open spec fn on_child(self) -> bool {
        self.stack.len() > 0 && self.stack@.last().next < self.stack@.last().children.len()
    }

    pub open spec fn wf(self) -> bool {
        &&& forall|i: int| 0 <= i < self.stack.len() ==> #[trigger] self.frame_ok(i)
        &&& forall|i: int|
            0 <= i < self.output.len() ==> within(
                self.edges@,
                self.root@,
                #[trigger] self.output[i]@,
                self.max_depth as nat,
            )
        &&& match self.stage {
            TraversalStage::Discover { node, depth } => {
                &&& depth == self.stack.len()
                &&& depth < self.max_depth
                &&& if depth == 0 {
                    node@ == self.root@
                } else {
                    self.on_child() && node@ == self.current_child()
                }
            },
            TraversalStage::Probe | TraversalStage::DiscoverChild | TraversalStage::Pause => self.on_child(),
            _ => true,
        }
    }

    /// Starts a traversal of the descendants of `root` up to `max_depth`
    /// steps away. With a depth bound of 0 it is complete at once, with
    /// nothing found; otherwise it first asks for the root's children.
    pub fn new(root: String, max_depth: usize) -> (r: Traversal)
        ensures
            r.wf(),
            r.root@ == root@,
            r.max_depth == max_depth,
            r.output.len() == 0,
            r.edges@ == Set::<(Seq<char>, Seq<char>)>::empty(),
            max_depth == 0 ==> r.stage is Done,
            max_depth > 0 ==> (r.stage matches TraversalStage::Discover { node, depth } && node@
                == root@ && depth == 0),
            r.model().found.len() == 0,
            r.model().frames.len() == 0,
    {
        let stage = if max_depth == 0 {
            TraversalStage::Done
        } else {
            TraversalStage::Discover { node: root.clone(), depth: 0 }
        };
        Traversal {
            root,
            max_depth,
            output: Vec::new(),
            stack: Vec::new(),
            stage,
            edges: Ghost(Set::empty()),
        }
    }
}

/// The pairs linking `node` to each of `children`.
pub open spec fn pairs_of(node: Seq<char>, children: Seq<String>) -> Edges {
    Set::new(
        |e: (Seq<char>, Seq<char>)|
            e.0 == node && exists|j: int| 0 <= j < children.len() && #[trigger] children[j]@ == e.1,
    )
}

impl Traversal {
    /// The same traversal with more reported pairs is still well formed.
    proof fn lemma_more_edges(self, e: Edges)
        requires
            self.wf(),
            self.edges@.subset_of(e),
        ensures
            (Traversal { edges: Ghost(e), ..self }).wf(),
    {
        let t = Traversal { edges: Ghost(e), ..self };
        assert forall|i: int| 0 <= i < t.stack.len() implies #[trigger] t.frame_ok(i) by {
            assert(self.frame_ok(i));
            if i > 0 {
                lemma_within_mono(self.edges@, e, self.root@, self.stack[i].node@, i as nat, i as nat);
            }
        }
        assert forall|i: int| 0 <= i < t.output.len() implies within(
            t.edges@,
            t.root@,
            #[trigger] t.output[i]@,
            t.max_depth as nat,
        ) by {
            lemma_within_mono(
                self.edges@,
                e,
                self.root@,
                self.output[i]@,
                self.max_depth as nat,
                self.max_depth as nat,
            );
        }
    }

    /// The child at `top.next` of a frame that holds one is within one more
    /// step than the frame's own depth.
    proof fn lemma_child_within(self, i: int)
        requires
            self.wf(),
            0 <= i < self.stack.len(),
            self.stack[i].next < self.stack[i].children.len(),
        ensures
            within(
                self.edges@,
                self.root@,
                self.stack[i].children[self.stack[i].next as int]@,
                (i + 1) as nat,
            ),
    {
        assert(self.frame_ok(i));
        let f = self.stack[i];
        let c = f.children[f.next as int]@;
        assert(self.edges@.contains((f.node@, c)));
        if i > 0 {
            assert(within(self.edges@, self.root@, f.node@, i as nat));
        }
    }

    /// Moves on from the top frame's `next`: announces that child and asks
    /// for its probe, or, when the frame is exhausted, closes it.
    fn advance(&mut self)
        requires
            old(self).stack.len() > 0,
            forall|i: int| 0 <= i < old(self).stack.len() ==> #[trigger] old(self).frame_ok(i),
            forall|i: int|
                0 <= i < old(self).output.len() ==> within(
                    old(self).edges@,
                    old(self).root@,
                    #[trigger] old(self).output[i]@,
                    old(self).max_depth as nat,
                ),
        ensures
            final(self).wf(),
            final(self).root == old(self).root,
            final(self).max_depth == old(self).max_depth,
            final(self).edges == old(self).edges,
            final(self).found() == old(self).found() || (final(self).found() == old(
                self,
            ).found().push(final(self).current_child()) && final(self).stage is Probe),
            final(self).model() == old(self).model().advance(),
    {
        let last = self.stack.len() - 1;
        if self.stack[last].next < self.stack[last].children.len() {
            let c = self.stack[last].children[self.stack[last].next].clone();
            self.stage = TraversalStage::Probe;
            proof {
                assert forall|i: int| 0 <= i < self.stack.len() implies #[trigger] self.frame_ok(
                    i,
                ) by {
                    assert(old(self).frame_ok(i));
                }
                assert(self.wf());
                assert(self.frame_ok(last as int));
                self.lemma_child_within(last as int);
                lemma_within_mono(
                    self.edges@,
                    self.edges@,
                    self.root@,
                    c@,
                    (last + 1) as nat,
                    self.max_depth as nat,
                );
            }
            let ghost mid = *self;
            self.output.push(c);
            proof {
                assert(self.found() =~= old(self).found().push(c@));
                let om = old(self).model();
                assert(om.frames.last() == old(self).stack@.last().model());
                assert(om.frames.last().children[om.frames.last().next as int] == c@);
                assert(self.model().frames =~= om.frames);
                assert(self.output@ == mid.output@.push(c));
                assert forall|i: int| 0 <= i < self.output.len() implies within(
                    self.edges@,
                    self.root@,
                    #[trigger] self.output[i]@,
                    self.max_depth as nat,
                ) by {
                    if i < mid.output.len() {
                        assert(self.output[i] == mid.output[i]);
                    }
                }
                assert forall|i: int| 0 <= i < self.stack.len() implies #[trigger] self.frame_ok(
                    i,
                ) by {
                    assert(mid.frame_ok(i));
                }
            }
        } else {
            let ghost before = *self;
            self.stack.pop();
            proof {
                assert(self.stack@ =~= before.stack@.drop_last());
                assert(self.model().frames =~= before.model().frames.drop_last());
            }
            if self.stack.len() == 0 {
                self.stage = TraversalStage::Done;
            } else {
                proof {
                    assert(before.frame_ok(last as int));
                }
                self.stage = TraversalStage::Pause;
            }
            proof {
                assert forall|i: int| 0 <= i < self.stack.len() implies #[trigger] self.frame_ok(
                    i,
                ) by {
                    assert(before.frame_ok(i));
                    assert(self.stack[i] == before.stack[i]);
                    if i > 0 {
                        assert(self.stack[i - 1] == before.stack[i - 1]);
                    }
                }
            }
        }
    }
}

impl Traversal {
    /// Records that discovery reported `children` for `node`.
    fn record_pairs(&mut self, node: &String, children: &Vec<String>)
        requires
            old(self).wf(),
        ensures
            final(self).wf(),
            *final(self) == (Traversal {
                edges: Ghost(old(self).edges@.union(pairs_of(node@, children@))),
                ..*old(self)
            }),
            forall|j: int|
                0 <= j < children.len() ==> #[trigger] final(self).edges@.contains(
                    (node@, children[j]@),
                ),
    {
        proof {
            let e = self.edges@.union(pairs_of(node@, children@));
            self.lemma_more_edges(e);
            assert forall|j: int| 0 <= j < children.len() implies #[trigger] e.contains(
                (node@, children[j]@),
            ) by {
                assert(pairs_of(node@, children@).contains((node@, children[j]@)));
            }
        }
        self.edges = Ghost(self.edges@.union(pairs_of(node@, children@)));
    }

    /// Opens the frame of the node being discovered, with its children, and
    /// moves on to its first child.
    fn open_frame(&mut self, node: String, depth: usize, children: Vec<String>)
        requires
            old(self).wf(),
            old(self).stage matches TraversalStage::Discover { node: n, depth: d } && n@ == node@ && d
                == depth,
        ensures
            final(self).wf(),
            final(self).root == old(self).root,
            final(self).max_depth == old(self).max_depth,
            old(self).edges@.subset_of(final(self).edges@),
            final(self).found() == old(self).found() || (final(self).found() == old(
                self,
            ).found().push(final(self).current_child()) && final(self).stage is Probe),
            final(self).model() == old(self).model().transition(
                old(self).max_depth as nat,
                TraversalEvent::Discovered(Ok(children)),
            ),
    {
        self.record_pairs(&node, &children);
        proof {
            if depth > 0 {
                self.lemma_child_within((depth - 1) as int);
                assert(self.frame_ok((depth - 1) as int));
            }
        }
        let ghost before = *self;
        let ghost fm = FrameModel { node: node@, depth: depth as nat, children: names(children@), next: 0 };
        self.stack.push(Frame { node, depth, children, next: 0 });
        proof {
            assert(self.model().frames =~= before.model().frames.push(fm));
            assert forall|i: int| 0 <= i < self.stack.len() implies #[trigger] self.frame_ok(i) by {
                if i < depth {
                    assert(before.frame_ok(i));
                    assert(self.stack[i] == before.stack[i]);
                    if i > 0 {
                        assert(self.stack[i - 1] == before.stack[i - 1]);
                    }
                } else {
                    if i > 0 {
                        assert(self.stack[i - 1] == before.stack[i - 1]);
                    }
                }
            }
        }
        self.advance();
    }

    /// After the current child was discovered to have `children`: descend
    /// into it when it has some and the depth bound allows, else pause.
    fn descend_or_pause(&mut self, children: Vec<String>)
        requires
            old(self).wf(),
            old(self).stage is DiscoverChild,
        ensures
            final(self).wf(),
            final(self).root == old(self).root,
            final(self).max_depth == old(self).max_depth,
            old(self).edges@.subset_of(final(self).edges@),
            final(self).output == old(self).output,
            final(self).model() == old(self).model().transition(
                old(self).max_depth as nat,
                TraversalEvent::Discovered(Ok(children)),
            ),
    {
        let last = self.stack.len() - 1;
        let child = self.stack[last].children[self.stack[last].next].clone();
        proof {
            let om = old(self).model();
            assert(om.frames.last() == old(self).stack@.last().model());
        }
        self.record_pairs(&child, &children);
        proof {
            assert(self.frame_ok(last as int));
        }
        let ghost before = *self;
        if children.len() > 0 && self.stack[last].depth + 1 < self.max_depth {
            self.stage = TraversalStage::Discover { node: child, depth: self.stack[last].depth + 1 };
        } else {
            self.stage = TraversalStage::Pause;
        }
        proof {
            assert forall|i: int| 0 <= i < self.stack.len() implies #[trigger] self.frame_ok(i) by {
                assert(before.frame_ok(i));
            }
        }
    }

    /// Moves past the current child.
    fn next_child(&mut self)
        requires
            old(self).wf(),
            old(self).stage is Pause,
        ensures
            final(self).wf(),
            final(self).root == old(self).root,
            final(self).max_depth == old(self).max_depth,
            final(self).edges == old(self).edges,
            final(self).found() == old(self).found() || (final(self).found() == old(
                self,
            ).found().push(final(self).current_child()) && final(self).stage is Probe),
            final(self).model() == old(self).model().transition(
                old(self).max_depth as nat,
                TraversalEvent::Waited,
            ),
    {
        let ghost before = *self;
        let mut top = self.stack.pop().unwrap();
        proof {
            assert(before.frame_ok(before.stack.len() - 1));
        }
        top.next = top.next + 1;
        self.stack.push(top);
        proof {
            let om = before.model();
            assert(om.frames.last() == before.stack@.last().model());
            assert(self.model().frames =~= om.frames.update(
                om.frames.len() - 1,
                FrameModel { next: om.frames.last().next + 1, ..om.frames.last() },
            ));
            assert forall|i: int| 0 <= i < self.stack.len() implies #[trigger] self.frame_ok(i) by {
                assert(before.frame_ok(i));
                if i < self.stack.len() - 1 {
                    assert(self.stack[i] == before.stack[i]);
                }
                if i > 0 {
                    assert(self.stack[i - 1] == before.stack[i - 1]);
                }
            }
        }
        self.advance();
    }

    /// Changing the stage alone keeps every frame well formed.
    proof fn lemma_stage_only(self, before: Traversal)
        requires
            before.wf(),
            self == (Traversal { stage: self.stage, ..before }),
        ensures
            forall|i: int| 0 <= i < self.stack.len() ==> #[trigger] self.frame_ok(i),
    {
        assert forall|i: int| 0 <= i < self.stack.len() implies #[trigger] self.frame_ok(i) by {
            assert(before.frame_ok(i));
        }
    }

    /// Feeds back what came of the pending action. A finished traversal, or
    /// an event that does not answer the pending stage, changes nothing.
    pub fn step(&mut self, ev: TraversalEvent)
        requires
            old(self).wf(),
        ensures
            final(self).wf(),
            final(self).root == old(self).root,
            final(self).max_depth == old(self).max_depth,
            old(self).edges@.subset_of(final(self).edges@),
            final(self).found() == old(self).found() || (final(self).found() == old(
                self,
            ).found().push(final(self).current_child()) && final(self).stage is Probe),
            (old(self).stage is Done || old(self).stage is Failed) ==> *final(self) == *old(self),
            final(self).model() == old(self).model().transition(old(self).max_depth as nat, ev),
    {
        match ev {
            TraversalEvent::Discovered(Ok(children)) => {
                let opening: Option<(String, usize)> = match &self.stage {
                    TraversalStage::Discover { node, depth } => Some((node.clone(), *depth)),
                    _ => None,
                };
                match opening {
                    Some((node, depth)) => self.open_frame(node, depth, children),
                    None => {
                        if matches!(self.stage, TraversalStage::DiscoverChild) {
                            self.descend_or_pause(children);
                        }
                    },
                }
            },
            TraversalEvent::Discovered(Err(e)) => {
                let opening_root = match &self.stage {
                    TraversalStage::Discover { depth, .. } => Some(*depth == 0),
                    _ => None,
                };
                if opening_root == Some(true) {
                    self.stage = TraversalStage::Failed(e);
                } else if opening_root == Some(false) {
                    self.stage = TraversalStage::Pause;
                } else if matches!(self.stage, TraversalStage::DiscoverChild) {
                    self.stage = TraversalStage::Pause;
                }
                proof {
                    self.lemma_stage_only(*old(self));
                }
            },
            TraversalEvent::Probed(r) => {
                if matches!(self.stage, TraversalStage::Probe) {
                    self.stage = match r {
                        Ok(true) => TraversalStage::DiscoverChild,
                        _ => TraversalStage::Pause,
                    };
                }
                proof {
                    self.lemma_stage_only(*old(self));
                }
            },
            TraversalEvent::Waited => {
                if matches!(self.stage, TraversalStage::Pause) {
                    self.next_child();
                }
            },
        }
    }
}

impl Traversal {
    /// The node that the pending action concerns: the node to discover, or
    /// the child to probe, discover or pause after. `None` once finished.
    pub fn target(&self) -> (r: Option<String>)
        requires
            self.wf(),
        ensures
            self.stage matches TraversalStage::Discover { node, .. } ==> r == Some(node),
            (self.stage is Probe || self.stage is DiscoverChild || self.stage is Pause) ==> (r matches Some(
                c,
            ) && c@ == self.current_child()),
            (self.stage is Done || self.stage is Failed) ==> r is None,
    {
        match &self.stage {
            TraversalStage::Discover { node, .. } => Some(node.clone()),
            TraversalStage::Probe | TraversalStage::DiscoverChild | TraversalStage::Pause => {
                let last = self.stack.len() - 1;
                Some(self.stack[last].children[self.stack[last].next].clone())
            },
            _ => None,
        }
    }

    /// Whether the traversal has ended, completed or failed.
    pub fn is_finished(&self) -> (r: bool)
        ensures
            r == (self.stage is Done || self.stage is Failed),
    {
        matches!(self.stage, TraversalStage::Done | TraversalStage::Failed(_))
    }
}

/// Every node a traversal has found is reachable from its root in at most
/// `max_depth` steps along the parent-child pairs that discovery reported;
/// and unless those pairs lead from the root back to itself within that
/// bound, the root is never among them.
pub proof fn lemma_found_within_depth(t: Traversal)
    requires
        t.wf(),
    ensures
        forall|i: int|
            0 <= i < t.found().len() ==> within(
                t.edges@,
                t.root@,
                #[trigger] t.found()[i],
                t.max_depth as nat,
            ),
        !within(t.edges@, t.root@, t.root@, t.max_depth as nat) ==> forall|i: int|
            0 <= i < t.found().len() ==> #[trigger] t.found()[i] != t.root@,
{
    assert forall|i: int| 0 <= i < t.found().len() implies within(
        t.edges@,
        t.root@,
        #[trigger] t.found()[i],
        t.max_depth as nat,
    ) by {
        assert(t.found()[i] == t.output[i]@);
    }
}

/// A traversal bounded at depth 0 finds nothing, whatever its root.
pub proof fn lemma_depth_zero_finds_nothing(t: Traversal)
    requires
        t.wf(),
        t.max_depth == 0,
    ensures
        t.found().len() == 0,
{
    if t.found().len() > 0 {
        assert(within(t.edges@, t.root@, t.output[0]@, 0));
    }
}

} // verus!
