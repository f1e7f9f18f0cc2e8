//! The pipeline of a generic file: four compressed siblings and a copy.

use vstd::prelude::*;
use vstd::slice::slice_to_vec;
use crate::artifact::{
    committed, follows, lemma_committed_takes, lemma_follows_unique, produced_by, ArtifactKind, Expected, OnExisting,
    Payload, PayloadView, PipelineRun, Plan, RunView, Step, Tree,
};
use crate::codec::{
    brotli_compress, brotli_stream, deflate_compress, deflate_stream, gzip_compress, gzip_stream,
    zstd_compress, zstd_stream,
};
use crate::config::{Config, ConfigView};
use crate::error::{Error, Fault};
use crate::path::{add_extension, appended_extension, destination, mirrored};

verus! {

/// The step that writes `stream` to `dest` with the extension of `kind`
/// added. Where the codec gave no stream the step fails.
pub open spec fn stream_step(dest: Seq<u8>, kind: ArtifactKind, stream: Option<Seq<u8>>) -> Step {
    Step {
        path: appended_extension(dest, kind.extension_spec()),
        kind,
        label: None,
        on_existing: OnExisting::Fail,
        expected: match stream {
            Some(bytes) => Expected::Exactly(PayloadView::Bytes(bytes)),
            None => Expected::Refused,
        },
        fault: Fault::Io,
    }
}

/// The step that copies `content` to `dest`.
pub open spec fn copy_step(dest: Seq<u8>, content: Seq<u8>, on_existing: OnExisting) -> Step {
    Step {
        path: dest,
        kind: ArtifactKind::Original,
        label: None,
        on_existing,
        expected: Expected::Exactly(PayloadView::Bytes(content)),
        fault: Fault::Io,
    }
}

/// The five steps for a generic file that goes to `dest`: brotli, gzip, zstd
/// and raw deflate, each at its configured level and under its own
/// extension, then the copy at `dest` itself. None of them may replace a
/// file.
pub open spec fn generic_steps(c: ConfigView, dest: Seq<u8>, content: Seq<u8>) -> Seq<Step> {
    seq![
        stream_step(dest, ArtifactKind::Brotli, brotli_stream(content, c.brotli)),
        stream_step(dest, ArtifactKind::Gzip, gzip_stream(content, c.gzip)),
        stream_step(dest, ArtifactKind::Zstd, zstd_stream(content, c.zstd)),
        stream_step(dest, ArtifactKind::Deflate, deflate_stream(content, c.deflate)),
        copy_step(dest, content, OnExisting::Fail),
    ]
}

/// The plan for the generic file `item` with the bytes `content`. A file
/// outside the input root has no destination, and nothing is made for it.
pub open spec fn generic_plan(c: ConfigView, item: Seq<u8>, content: Seq<u8>) -> Plan {
    match mirrored(c.out_dir, c.in_dir, item) {
        Some(dest) => Plan { steps: generic_steps(c, dest, content), stop: None },
        None => Plan { steps: seq![], stop: Some(Fault::StripPrefixError) },
    }
}

/// No two steps of the plan for a generic file write to the same path.
pub proof fn law_generic_paths_distinct(c: ConfigView, item: Seq<u8>, content: Seq<u8>)
    ensures
        forall|i: int, j: int|
            0 <= i < j < generic_plan(c, item, content).steps.len() ==> (#[trigger] generic_plan(
                c,
                item,
                content,
            ).steps[i]).path != (#[trigger] generic_plan(c, item, content).steps[j]).path,
{
    let plan = generic_plan(c, item, content);
    if mirrored(c.out_dir, c.in_dir, item) is Some {
        let dest = mirrored(c.out_dir, c.in_dir, item)->Some_0;
        let steps = plan.steps;
        let n = dest.len() as int;
        assert(steps[0].path.len() == n + 3 && steps[0].path[n + 1] == 98);
        assert(steps[1].path.len() == n + 3 && steps[1].path[n + 1] == 103);
        assert(steps[2].path.len() == n + 4);
        assert(steps[3].path.len() == n + 3 && steps[3].path[n + 1] == 122);
        assert(steps[4].path.len() == n);
    }
}

/// A run of the generic pipeline that ends without an error has made
/// exactly five artifacts, none of which may replace a file: the brotli,
/// gzip, zstd and deflate streams of the source, each at its configured
/// level and under its own extension, and the bytes of the source themselves
/// at the destination.
pub proof fn law_generic_outputs(run: RunView, c: ConfigView, item: Seq<u8>, content: Seq<u8>)
    requires
        follows(run, generic_plan(c, item, content)),
        run.fault.is_none(),
    ensures
        mirrored(c.out_dir, c.in_dir, item) is Some,
        run.artifacts.len() == 5,
        forall|i: int| 0 <= i < 5 ==> (#[trigger] run.artifacts[i]).on_existing == OnExisting::Fail,
        ({
            let dest = mirrored(c.out_dir, c.in_dir, item)->Some_0;
            let a = run.artifacts;
            &&& a[0].kind == ArtifactKind::Brotli
            &&& a[0].path == appended_extension(dest, ArtifactKind::Brotli.extension_spec())
            &&& brotli_stream(content, c.brotli) == Some(a[0].payload->Bytes_0)
            &&& a[1].kind == ArtifactKind::Gzip
            &&& a[1].path == appended_extension(dest, ArtifactKind::Gzip.extension_spec())
            &&& gzip_stream(content, c.gzip) == Some(a[1].payload->Bytes_0)
            &&& a[2].kind == ArtifactKind::Zstd
            &&& a[2].path == appended_extension(dest, ArtifactKind::Zstd.extension_spec())
            &&& zstd_stream(content, c.zstd) == Some(a[2].payload->Bytes_0)
            &&& a[3].kind == ArtifactKind::Deflate
            &&& a[3].path == appended_extension(dest, ArtifactKind::Deflate.extension_spec())
            &&& deflate_stream(content, c.deflate) == Some(a[3].payload->Bytes_0)
            &&& a[4].kind == ArtifactKind::Original
            &&& a[4].path == dest
            &&& a[4].payload == PayloadView::Bytes(content)
        }),
{
    let plan = generic_plan(c, item, content);
    assert(run.artifacts.len() == plan.steps.len());
    assert(produced_by(run.artifacts[0], plan.steps[0]));
    assert(produced_by(run.artifacts[1], plan.steps[1]));
    assert(produced_by(run.artifacts[2], plan.steps[2]));
    assert(produced_by(run.artifacts[3], plan.steps[3]));
    assert(produced_by(run.artifacts[4], plan.steps[4]));
}

/// The generic pipeline is a function of its input: two runs on the same
/// file under the same configuration make the same artifacts, byte for
/// byte, and end alike.
pub proof fn law_generic_deterministic(
    first: RunView,
    second: RunView,
    c: ConfigView,
    item: Seq<u8>,
    content: Seq<u8>,
)
    requires
        follows(first, generic_plan(c, item, content)),
        follows(second, generic_plan(c, item, content)),
        first.source == second.source,
    ensures
        first == second,
{
    lemma_follows_unique(first, second, generic_plan(c, item, content));
}

/// Running the generic pipeline again over its own output is refused: once
/// the artifacts of a run on a file are written, the writer refuses the
/// first artifact of any further run on that file and leaves the tree as it
/// is.
pub proof fn law_rerun_is_refused(
    first: RunView,
    second: RunView,
    c: ConfigView,
    item: Seq<u8>,
    content: Seq<u8>,
    again: Seq<u8>,
    tree: Tree,
)
    requires
        follows(first, generic_plan(c, item, content)),
        follows(second, generic_plan(c, item, again)),
        first.artifacts.len() > 0,
        second.artifacts.len() > 0,
        committed(tree, first.artifacts).1,
    ensures
        committed(committed(tree, first.artifacts).0, second.artifacts) == (
            committed(tree, first.artifacts).0,
            false,
        ),
{
    let one = generic_plan(c, item, content);
    let two = generic_plan(c, item, again);
    assert(produced_by(first.artifacts[0], one.steps[0]));
    assert(produced_by(second.artifacts[0], two.steps[0]));
    lemma_committed_takes(tree, first.artifacts, 0);
}

/// What a stream codec returned, as the outcome of a step.
pub fn stream_outcome(result: Result<Vec<u8>, std::io::Error>) -> (r: Result<Payload, Error>)
    ensures
        match result {
            Ok(bytes) => r == Ok::<Payload, Error>(Payload::Bytes(bytes)),
            Err(e) => r == Err::<Payload, Error>(Error::Io(e)),
        },
{
    match result {
        Ok(bytes) => Ok(Payload::Bytes(bytes)),
        Err(e) => Err(Error::Io(e)),
    }
}

/// Runs the pipeline of the generic file `item_path`, whose bytes are
/// `content`: the four codecs in their order, each at its configured level,
/// then the copy. The first codec that fails ends the run; what was made
/// before it stays.
pub fn generic_compress(config: &Config, item_path: &[u8], content: &[u8]) -> (run: PipelineRun)
    ensures
        run@.source == item_path@,
        follows(run@, generic_plan(config@, item_path@, content@)),
{
    let mut run = PipelineRun::new(item_path);
    let dest = match destination(config.out_dir(), config.in_dir(), item_path) {
        Ok(dest) => dest,
        Err(e) => {
            run.fail(e);
            return run;
        },
    };
    let ghost steps = generic_steps(config@, dest@, content@);

    let kind = ArtifactKind::Brotli;
    let path = add_extension(slice_to_vec(dest.as_slice()), kind.extension().as_slice());
    let outcome = stream_outcome(brotli_compress(content, config.brotli_level()));
    if !run.record(path, kind, None, OnExisting::Fail, outcome) {
        return run;
    }
    assert(follows(run@, Plan { steps: steps.take(1), stop: None }));

    let kind = ArtifactKind::Gzip;
    let path = add_extension(slice_to_vec(dest.as_slice()), kind.extension().as_slice());
    let outcome = stream_outcome(gzip_compress(content, config.gzip_level()));
    if !run.record(path, kind, None, OnExisting::Fail, outcome) {
        return run;
    }
    assert(follows(run@, Plan { steps: steps.take(2), stop: None }));

    let kind = ArtifactKind::Zstd;
    let path = add_extension(slice_to_vec(dest.as_slice()), kind.extension().as_slice());
    let outcome = stream_outcome(zstd_compress(content, config.zstd_level()));
    if !run.record(path, kind, None, OnExisting::Fail, outcome) {
        return run;
    }
    assert(follows(run@, Plan { steps: steps.take(3), stop: None }));

    let kind = ArtifactKind::Deflate;
    let path = add_extension(slice_to_vec(dest.as_slice()), kind.extension().as_slice());
    let outcome = stream_outcome(deflate_compress(content, config.deflate_level()));
    if !run.record(path, kind, None, OnExisting::Fail, outcome) {
        return run;
    }
    assert(follows(run@, Plan { steps: steps.take(4), stop: None }));

    run.record(
        dest,
        ArtifactKind::Original,
        None,
        OnExisting::Fail,
        Ok(Payload::Bytes(slice_to_vec(content))),
    );
    run
}

} // verus!
