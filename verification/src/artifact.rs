//! What the pipeline of one file hands back: the artifacts it made, in the
//! order in which they are to be written, and the error it stopped on, if
//! any. A plan says what a run has to look like.

use vstd::prelude::*;
use crate::bytes::optional_view;
use crate::error::{Error, Fault};

verus! {

/// The codec or image format of an artifact.
#[derive(Debug, Clone, Copy, PartialEq, Eq, Structural)]
pub enum ArtifactKind {
    Brotli,
    Gzip,
    Zstd,
    Deflate,
    /// The bytes of the source, unchanged.
    Original,
    Avif,
    Jpeg,
    Png,
    WebP,
}

impl ArtifactKind {
    /// The extension that marks an artifact of this kind: `br`, `gz`, `zst`,
    /// `zz`, `avif`, `jpeg`, `png` or `webp`. A copy of the source has none.
    pub open spec fn extension_spec(&self) -> Seq<u8> {
        match *self {
            ArtifactKind::Brotli => seq![98u8, 114u8],
            ArtifactKind::Gzip => seq![103u8, 122u8],
            ArtifactKind::Zstd => seq![122u8, 115u8, 116u8],
            ArtifactKind::Deflate => seq![122u8, 122u8],
            ArtifactKind::Original => seq![],
            ArtifactKind::Avif => seq![97u8, 118u8, 105u8, 102u8],
            ArtifactKind::Jpeg => seq![106u8, 112u8, 101u8, 103u8],
            ArtifactKind::Png => seq![112u8, 110u8, 103u8],
            ArtifactKind::WebP => seq![119u8, 101u8, 98u8, 112u8],
        }
    }

    /// The extension that marks an artifact of this kind.
    pub fn extension(&self) -> (r: Vec<u8>)
        ensures
            r@ == self.extension_spec(),
    {
        let mut out: Vec<u8> = Vec::new();
        match self {
            ArtifactKind::Brotli => {
                out.push(98);
                out.push(114);
            },
            ArtifactKind::Gzip => {
                out.push(103);
                out.push(122);
            },
            ArtifactKind::Zstd => {
                out.push(122);
                out.push(115);
                out.push(116);
            },
            ArtifactKind::Deflate => {
                out.push(122);
                out.push(122);
            },
            ArtifactKind::Original => {},
            ArtifactKind::Avif => {
                out.push(97);
                out.push(118);
                out.push(105);
                out.push(102);
            },
            ArtifactKind::Jpeg => {
                out.push(106);
                out.push(112);
                out.push(101);
                out.push(103);
            },
            ArtifactKind::Png => {
                out.push(112);
                out.push(110);
                out.push(103);
            },
            ArtifactKind::WebP => {
                out.push(119);
                out.push(101);
                out.push(98);
                out.push(112);
            },
        }
        assert(out@ =~= self.extension_spec());
        out
    }
}

/// What the writer does when the destination is there already.
#[derive(Debug, Clone, Copy, PartialEq, Eq, Structural)]
pub enum OnExisting {
    /// The artifact is refused: the file is left as it is and the pipeline
    /// of the source ends in an error.
    Fail,
    /// The artifact is passed over without an error.
    Skip,
}

/// What the writer does with one artifact.
#[derive(Debug, Clone, Copy, PartialEq, Eq, Structural)]
pub enum WriteAction {
    /// The file is created and filled.
    Write,
    /// Nothing is written, and the run goes on.
    Skip,
    /// Nothing is written, and the run ends in an error.
    Refuse,
}

impl OnExisting {
    /// What becomes of an artifact with this policy: it is written where
    /// its destination is free; where it is taken, `Fail` refuses the
    /// artifact and `Skip` passes it over.
    pub open spec fn action_spec(&self, exists: bool) -> WriteAction {
        if !exists {
            WriteAction::Write
        } else {
            match *self {
                OnExisting::Fail => WriteAction::Refuse,
                OnExisting::Skip => WriteAction::Skip,
            }
        }
    }

    /// Decides what the writer does, given whether the destination exists.
    #[verifier::when_used_as_spec(action_spec)]
    pub fn action(&self, exists: bool) -> (r: WriteAction)
        ensures
            r == self.action_spec(exists),
    {
        if !exists {
            WriteAction::Write
        } else {
            match self {
                OnExisting::Fail => WriteAction::Refuse,
                OnExisting::Skip => WriteAction::Skip,
            }
        }
    }
}

/// The pixels and the parameters of a WebP variant that is still to be
/// encoded. The quality is counted in thousandths of a point.
#[derive(Debug, Clone, PartialEq, Eq)]
pub struct WebPSource {
    /// Four bytes per pixel, row by row: red, green, blue, alpha.
    pub rgba: Vec<u8>,
    pub width: u32,
    pub height: u32,
    pub lossless: bool,
    pub quality: u32,
}

/// What an artifact holds.
#[derive(Debug, Clone, PartialEq, Eq)]
pub enum Payload {
    /// The bytes of the file.
    Bytes(Vec<u8>),
    /// A WebP image that the writer encodes before it writes.
    WebP(WebPSource),
}

/// A payload as a plain value.
pub enum PayloadView {
    Bytes(Seq<u8>),
    WebP { rgba: Seq<u8>, width: u32, height: u32, lossless: bool, quality: u32 },
}

impl View for Payload {
    type V = PayloadView;

    open spec fn view(&self) -> PayloadView {
        match *self {
            Payload::Bytes(bytes) => PayloadView::Bytes(bytes@),
            Payload::WebP(source) => PayloadView::WebP {
                rgba: source.rgba@,
                width: source.width,
                height: source.height,
                lossless: source.lossless,
                quality: source.quality,
            },
        }
    }
}

/// One file of the output tree.
#[derive(Debug, Clone, PartialEq, Eq)]
pub struct Artifact {
    pub path: Vec<u8>,
    pub kind: ArtifactKind,
    /// The label of the resize tier, for a resized variant.
    pub label: Option<Vec<u8>>,
    pub on_existing: OnExisting,
    pub payload: Payload,
}

/// An artifact as a plain value.
pub struct ArtifactView {
    pub path: Seq<u8>,
    pub kind: ArtifactKind,
    pub label: Option<Seq<u8>>,
    pub on_existing: OnExisting,
    pub payload: PayloadView,
}

impl View for Artifact {
    type V = ArtifactView;

    open spec fn view(&self) -> ArtifactView {
        ArtifactView {
            path: self.path@,
            kind: self.kind,
            label: optional_view(self.label),
            on_existing: self.on_existing,
            payload: self.payload@,
        }
    }
}

/// The views of `artifacts`, in their order.
pub open spec fn artifact_views(artifacts: Seq<Artifact>) -> Seq<ArtifactView> {
    Seq::new(artifacts.len(), |i: int| artifacts[i]@)
}

/// The outcome of one file's pipeline.
#[derive(Debug)]
pub struct PipelineRun {
    /// The path of the source.
    pub source: Vec<u8>,
    /// What was made before the pipeline ended, in writing order.
    pub artifacts: Vec<Artifact>,
    /// Why the pipeline ended early, if it did.
    pub error: Option<Error>,
}

/// A run as a plain value. Of the error only its kind is kept.
pub struct RunView {
    pub source: Seq<u8>,
    pub artifacts: Seq<ArtifactView>,
    pub fault: Option<Fault>,
}

/// The kind of an error that may be missing.
pub open spec fn fault_view(error: Option<Error>) -> Option<Fault> {
    match error {
        Some(e) => Some(e.fault()),
        None => None,
    }
}

impl View for PipelineRun {
    type V = RunView;

    open spec fn view(&self) -> RunView {
        RunView {
            source: self.source@,
            artifacts: artifact_views(self.artifacts@),
            fault: fault_view(self.error),
        }
    }
}

/// What a plan knows of the payload of a step.
pub enum Expected {
    /// The step succeeds with this payload.
    Exactly(PayloadView),
    /// The step fails.
    Refused,
    /// The step may fail, and may succeed with any bytes.
    Unspecified,
}

/// One step of a plan: the artifact that it is to make, and the kind of
/// error in which the pipeline ends where it cannot.
pub struct Step {
    pub path: Seq<u8>,
    pub kind: ArtifactKind,
    pub label: Option<Seq<u8>>,
    pub on_existing: OnExisting,
    pub expected: Expected,
    pub fault: Fault,
}

/// The steps of a pipeline in their order, and the kind of error in which it
/// ends once they are all done, if it still does.
pub struct Plan {
    pub steps: Seq<Step>,
    pub stop: Option<Fault>,
}

/// Whether `artifact` is what `step` asks for.
pub open spec fn produced_by(artifact: ArtifactView, step: Step) -> bool {
    &&& artifact.path == step.path
    &&& artifact.kind == step.kind
    &&& artifact.label == step.label
    &&& artifact.on_existing == step.on_existing
    &&& match step.expected {
        Expected::Exactly(payload) => artifact.payload == payload,
        Expected::Refused => false,
        Expected::Unspecified => artifact.payload is Bytes,
    }
}

/// Whether `run` went as `plan` says: its artifacts are those of the first
/// steps, one for one; it ended early only at a step that was free to fail,
/// with that step's kind of error; and where every step was done it ended as
/// the plan ends.
pub open spec fn follows(run: RunView, plan: Plan) -> bool {
    &&& run.artifacts.len() <= plan.steps.len()
    &&& forall|i: int|
        0 <= i < run.artifacts.len() ==> produced_by(#[trigger] run.artifacts[i], plan.steps[i])
    &&& if run.artifacts.len() < plan.steps.len() {
        let step = plan.steps[run.artifacts.len() as int];
        !(step.expected is Exactly) && run.fault == Some(step.fault)
    } else {
        run.fault == plan.stop
    }
}

/// A plan that leaves no step unspecified leaves nothing open: any two runs
/// on one source that follow it make the same artifacts and end alike.
pub proof fn lemma_follows_unique(a: RunView, b: RunView, plan: Plan)
    requires
        follows(a, plan),
        follows(b, plan),
        a.source == b.source,
        forall|i: int| 0 <= i < plan.steps.len() ==> !((#[trigger] plan.steps[i]).expected is Unspecified),
    ensures
        a == b,
{
    if a.artifacts.len() < b.artifacts.len() {
        assert(produced_by(b.artifacts[a.artifacts.len() as int], plan.steps[a.artifacts.len() as int]));
    }
    if b.artifacts.len() < a.artifacts.len() {
        assert(produced_by(a.artifacts[b.artifacts.len() as int], plan.steps[b.artifacts.len() as int]));
    }
    assert forall|i: int| 0 <= i < a.artifacts.len() implies a.artifacts[i] == b.artifacts[i] by {
        assert(produced_by(a.artifacts[i], plan.steps[i]));
        assert(produced_by(b.artifacts[i], plan.steps[i]));
    }
    assert(a.artifacts =~= b.artifacts);
}

/// Whether `after` is `before` taken further by `steps`: a run that had
/// ended is unchanged; any other has kept its artifacts and has followed
/// `steps` from there.
pub open spec fn extends(before: RunView, after: RunView, steps: Seq<Step>) -> bool {
    &&& after.source == before.source
    &&& if before.fault.is_some() {
        after == before
    } else {
        &&& before.artifacts.len() <= after.artifacts.len()
        &&& after.artifacts.take(before.artifacts.len() as int) == before.artifacts
        &&& follows(
            RunView {
                source: after.source,
                artifacts: after.artifacts.skip(before.artifacts.len() as int),
                fault: after.fault,
            },
            Plan { steps, stop: None },
        )
    }
}

/// A run that followed `done` and was then taken further by `steps` has
/// followed the two in a row.
pub proof fn lemma_extends_follows(before: RunView, after: RunView, done: Seq<Step>, steps: Seq<Step>)
    requires
        follows(before, Plan { steps: done, stop: None }),
        extends(before, after, steps),
    ensures
        follows(after, Plan { steps: done + steps, stop: None }),
{
    let all = done + steps;
    if before.fault.is_some() {
        assert forall|i: int| 0 <= i < after.artifacts.len() implies produced_by(
            #[trigger] after.artifacts[i],
            all[i],
        ) by {
            assert(all[i] == done[i]);
        }
        assert(all[after.artifacts.len() as int] == done[after.artifacts.len() as int]);
    } else {
        let n = before.artifacts.len() as int;
        let rest = after.artifacts.skip(n);
        assert(n == done.len());
        assert forall|i: int| 0 <= i < after.artifacts.len() implies produced_by(
            #[trigger] after.artifacts[i],
            all[i],
        ) by {
            if i < n {
                assert(after.artifacts.take(n)[i] == after.artifacts[i]);
                assert(all[i] == done[i]);
            } else {
                assert(rest[i - n] == after.artifacts[i]);
                assert(all[i] == steps[i - n]);
            }
        }
        if after.artifacts.len() < all.len() {
            assert(all[after.artifacts.len() as int] == steps[rest.len() as int]);
        }
    }
}

/// An output tree: what stands at each path that is taken.
pub type Tree = Map<Seq<u8>, PayloadView>;

/// The tree after a writer that obeys `OnExisting::action` has gone through
/// `artifacts` in their order, and whether it came to their end: it stops
/// at the first artifact that is refused.
pub open spec fn committed(tree: Tree, artifacts: Seq<ArtifactView>) -> (Tree, bool)
    decreases artifacts.len(),
{
    if artifacts.len() == 0 {
        (tree, true)
    } else {
        let first = artifacts[0];
        match first.on_existing.action_spec(tree.dom().contains(first.path)) {
            WriteAction::Write => committed(
                tree.insert(first.path, first.payload),
                artifacts.skip(1),
            ),
            WriteAction::Skip => committed(tree, artifacts.skip(1)),
            WriteAction::Refuse => (tree, false),
        }
    }
}

/// Writing takes no path away, and leaves what stood at a path as it was.
pub proof fn lemma_committed_keeps(tree: Tree, artifacts: Seq<ArtifactView>, path: Seq<u8>)
    requires
        tree.dom().contains(path),
    ensures
        committed(tree, artifacts).0.dom().contains(path),
        committed(tree, artifacts).0[path] == tree[path],
    decreases artifacts.len(),
{
    if artifacts.len() > 0 {
        let first = artifacts[0];
        match first.on_existing.action_spec(tree.dom().contains(first.path)) {
            WriteAction::Write => {
                lemma_committed_keeps(
                    tree.insert(first.path, first.payload),
                    artifacts.skip(1),
                    path,
                );
            },
            WriteAction::Skip => {
                lemma_committed_keeps(tree, artifacts.skip(1), path);
            },
            WriteAction::Refuse => {},
        }
    }
}

/// Once the writer has come to the end of a run, the path of every artifact
/// of the run is taken.
pub proof fn lemma_committed_takes(tree: Tree, artifacts: Seq<ArtifactView>, i: int)
    requires
        0 <= i < artifacts.len(),
        committed(tree, artifacts).1,
    ensures
        committed(tree, artifacts).0.dom().contains(artifacts[i].path),
    decreases artifacts.len(),
{
    let first = artifacts[0];
    let rest = artifacts.skip(1);
    let next = match first.on_existing.action_spec(tree.dom().contains(first.path)) {
        WriteAction::Write => tree.insert(first.path, first.payload),
        _ => tree,
    };
    if i == 0 {
        assert(next.dom().contains(first.path));
        lemma_committed_keeps(next, rest, first.path);
    } else {
        assert(rest[i - 1] == artifacts[i]);
        lemma_committed_takes(next, rest, i - 1);
    }
}

impl PipelineRun {
    /// A run for `source` in which nothing has happened yet.
    pub fn new(source: &[u8]) -> (run: PipelineRun)
        ensures
            run@.source == source@,
            run@.artifacts == Seq::<ArtifactView>::empty(),
            run@.fault.is_none(),
            run.error.is_none(),
    {
        let run = PipelineRun {
            source: vstd::slice::slice_to_vec(source),
            artifacts: Vec::new(),
            error: None,
        };
        assert(run@.artifacts =~= Seq::<ArtifactView>::empty());
        run
    }

    /// Whether the pipeline came to its end without an error.
    pub fn succeeded(&self) -> (r: bool)
        ensures
            r == self@.fault.is_none(),
    {
        self.error.is_none()
    }

    /// Ends the run in `error`, unless it has ended in one already.
    pub fn fail(&mut self, error: Error)
        ensures
            final(self)@.source == old(self)@.source,
            final(self)@.artifacts == old(self)@.artifacts,
            final(self)@.fault == if old(self)@.fault.is_some() {
                old(self)@.fault
            } else {
                Some(error.fault())
            },
    {
        if self.error.is_none() {
            self.error = Some(error);
        }
    }

    /// Takes in what a step came to. A run that has ended stays as it is.
    /// Else a payload becomes the next artifact, with the path, kind, label
    /// and policy given, and an error ends the run. Returns whether the run
    /// goes on.
    pub fn record(
        &mut self,
        path: Vec<u8>,
        kind: ArtifactKind,
        label: Option<Vec<u8>>,
        on_existing: OnExisting,
        outcome: Result<Payload, Error>,
    ) -> (r: bool)
        ensures
            final(self)@.source == old(self)@.source,
            r == final(self)@.fault.is_none(),
            old(self)@.fault.is_some() ==> final(self)@ == old(self)@,
            old(self)@.fault.is_none() ==> match outcome {
                Ok(payload) => {
                    &&& final(self)@.fault.is_none()
                    &&& final(self)@.artifacts == old(self)@.artifacts.push(
                        ArtifactView {
                            path: path@,
                            kind,
                            label: optional_view(label),
                            on_existing,
                            payload: payload@,
                        },
                    )
                },
                Err(error) => {
                    &&& final(self)@.fault == Some(error.fault())
                    &&& final(self)@.artifacts == old(self)@.artifacts
                },
            },
    {
        if self.error.is_some() {
            return false;
        }
        match outcome {
            Ok(payload) => {
                let artifact = Artifact { path, kind, label, on_existing, payload };
                self.artifacts.push(artifact);
                assert(final(self)@.artifacts =~= old(self)@.artifacts.push(artifact@));
                true
            },
            Err(error) => {
                self.error = Some(error);
                false
            },
        }
    }
}

} // verus!
