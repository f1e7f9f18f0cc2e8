//! The pipeline of an image: the picture is decoded once, scaled down for
//! each tier, and every size is rendered in four formats.

use vstd::prelude::*;
use vstd::slice::slice_to_vec;
use crate::artifact::{
    extends, follows, lemma_extends_follows, ArtifactKind, Expected, OnExisting, Payload,
    PayloadView, PipelineRun, Plan, RunView, Step, WebPSource,
};
use crate::bytes::{append, optional_view};
use crate::classify::image_kind;
use crate::config::{valid_config, valid_tier, Config, ConfigView, WebPQualityConfig};
use crate::error::{Error, Fault};
use crate::generic::copy_step;
use crate::path::{
    destination, extension, gen_path, has_file_name, law_mirrored_keeps_name,
    lemma_replaced_shape, lemma_spliced_shape, mirrored, replaced_extension, spliced,
    with_extension, without_extension, DOT, SEPARATOR,
};
use crate::picture::{
    drop_alpha, law_alpha_is_dropped, same_colours, valid_picture, without_alpha, Picture,
    PictureView,
};
use crate::raster::{encode_avif, encode_jpeg, encode_png, jpeg_file, png_file};

verus! {

/// The byte `-`, which stands before a tier's label.
pub const DASH: u8 = 45;

/// What a plan knows of a file that an encoder has a name for.
pub open spec fn named_file(file: Option<Seq<u8>>) -> Expected {
    match file {
        Some(bytes) => Expected::Exactly(PayloadView::Bytes(bytes)),
        None => Expected::Refused,
    }
}

/// The step that renders a picture in the format `kind`, beside
/// `output_path` and under the extension of `kind`. It may not replace a
/// file.
pub open spec fn image_step(
    output_path: Seq<u8>,
    kind: ArtifactKind,
    label: Option<Seq<u8>>,
    expected: Expected,
) -> Step {
    Step {
        path: replaced_extension(output_path, kind.extension_spec()),
        kind,
        label,
        on_existing: OnExisting::Fail,
        expected,
        fault: Fault::Image,
    }
}

/// What is handed on for the WebP variant of `p`: all four bytes of each
/// pixel, and the mode and quality of the configuration.
pub open spec fn webp_payload(webp: WebPQualityConfig, p: PictureView) -> PayloadView {
    PayloadView::WebP {
        rgba: p.rgba,
        width: p.width,
        height: p.height,
        lossless: webp is Lossless,
        quality: webp.quality_spec(),
    }
}

/// The four steps that render the picture `p` beside `output_path`: AVIF
/// from all four bytes of each pixel; JPEG from the three colour bytes of
/// each pixel, the alpha left out; PNG from all four bytes; and the WebP
/// variant, which is handed on unencoded.
pub open spec fn render_steps(
    webp: WebPQualityConfig,
    p: PictureView,
    output_path: Seq<u8>,
    label: Option<Seq<u8>>,
) -> Seq<Step> {
    seq![
        image_step(output_path, ArtifactKind::Avif, label, Expected::Unspecified),
        image_step(
            output_path,
            ArtifactKind::Jpeg,
            label,
            named_file(jpeg_file(without_alpha(p.rgba), p.width, p.height)),
        ),
        image_step(
            output_path,
            ArtifactKind::Png,
            label,
            named_file(png_file(p.rgba, p.width, p.height)),
        ),
        image_step(
            output_path,
            ArtifactKind::WebP,
            label,
            Expected::Exactly(webp_payload(webp, p)),
        ),
    ]
}

/// The JPEG of a picture never depends on its alpha: two pictures of one
/// size with the same colours get the same JPEG step. The PNG and the WebP
/// step are made from all four bytes of each pixel, the alpha among them.
pub proof fn law_alpha(
    webp: WebPQualityConfig,
    p: PictureView,
    q: PictureView,
    output_path: Seq<u8>,
    label: Option<Seq<u8>>,
)
    requires
        p.width == q.width,
        p.height == q.height,
        same_colours(p.rgba, q.rgba),
    ensures
        render_steps(webp, p, output_path, label)[1] == render_steps(webp, q, output_path, label)[1],
        render_steps(webp, p, output_path, label)[2].expected == named_file(
            png_file(p.rgba, p.width, p.height),
        ),
        render_steps(webp, p, output_path, label)[3].expected matches Expected::Exactly(
            PayloadView::WebP { rgba, .. },
        ) && rgba == p.rgba,
{
    law_alpha_is_dropped(p.rgba, q.rgba);
}

/// What an image encoder returned, as the outcome of a step.
pub fn image_outcome(result: Result<Vec<u8>, image::ImageError>) -> (r: Result<Payload, Error>)
    ensures
        match result {
            Ok(bytes) => r == Ok::<Payload, Error>(Payload::Bytes(bytes)),
            Err(e) => r == Err::<Payload, Error>(Error::Image(e)),
        },
{
    match result {
        Ok(bytes) => Ok(Payload::Bytes(bytes)),
        Err(e) => Err(Error::Image(e)),
    }
}

/// Copies a label that may be missing.
fn copy_label(label: &Option<Vec<u8>>) -> (r: Option<Vec<u8>>)
    ensures
        optional_view(r) == optional_view(*label),
{
    match label {
        Some(bytes) => Some(slice_to_vec(bytes.as_slice())),
        None => None,
    }
}

/// Renders `picture` beside `output_path` in the four formats, in the order
/// AVIF, JPEG, PNG, WebP, and takes `run` further by them. The first encoder
/// that fails ends the run.
pub fn dynamic_render(
    config: &Config,
    picture: &Picture,
    output_path: &[u8],
    label: &Option<Vec<u8>>,
    run: &mut PipelineRun,
)
    ensures
        extends(
            old(run)@,
            final(run)@,
            render_steps(config@.webp, picture@, output_path@, optional_view(*label)),
        ),
{
    if !run.succeeded() {
        return;
    }
    let ghost before = run@;
    let ghost base = before.artifacts.len() as int;
    let ghost steps = render_steps(config@.webp, picture@, output_path@, optional_view(*label));
    let rgba = picture.rgba();
    let width = picture.width();
    let height = picture.height();

    let kind = ArtifactKind::Avif;
    let path = with_extension(output_path, kind.extension().as_slice());
    let outcome = image_outcome(encode_avif(rgba, width, height));
    let goes_on = run.record(path, kind, copy_label(label), OnExisting::Fail, outcome);
    proof {
        assert(run@.artifacts.take(base) =~= before.artifacts);
        assert(follows(
            RunView { source: run@.source, artifacts: run@.artifacts.skip(base), fault: run@.fault },
            Plan { steps: steps.take(1), stop: None },
        ));
    }
    if !goes_on {
        return;
    }
    let rgb = drop_alpha(rgba);
    assert(rgb@.len() == 3 * width * height) by (nonlinear_arith)
        requires
            rgb@.len() == rgba@.len() / 4 * 3,
            rgba@.len() == 4 * width * height,
    ;
    let kind = ArtifactKind::Jpeg;
    let path = with_extension(output_path, kind.extension().as_slice());
    let outcome = image_outcome(encode_jpeg(rgb.as_slice(), width, height));
    let goes_on = run.record(path, kind, copy_label(label), OnExisting::Fail, outcome);
    proof {
        assert(run@.artifacts.take(base) =~= before.artifacts);
        assert(follows(
            RunView { source: run@.source, artifacts: run@.artifacts.skip(base), fault: run@.fault },
            Plan { steps: steps.take(2), stop: None },
        ));
    }
    if !goes_on {
        return;
    }
    let kind = ArtifactKind::Png;
    let path = with_extension(output_path, kind.extension().as_slice());
    let outcome = image_outcome(encode_png(rgba, width, height));
    let goes_on = run.record(path, kind, copy_label(label), OnExisting::Fail, outcome);
    proof {
        assert(run@.artifacts.take(base) =~= before.artifacts);
        assert(follows(
            RunView { source: run@.source, artifacts: run@.artifacts.skip(base), fault: run@.fault },
            Plan { steps: steps.take(3), stop: None },
        ));
    }
    if !goes_on {
        return;
    }
    let kind = ArtifactKind::WebP;
    let path = with_extension(output_path, kind.extension().as_slice());
    let source = WebPSource {
        rgba: slice_to_vec(rgba),
        width,
        height,
        lossless: config.webp().lossless(),
        quality: config.webp().quality(),
    };
    run.record(path, kind, copy_label(label), OnExisting::Fail, Ok(Payload::WebP(source)));
    proof {
        assert(run@.artifacts.take(base) =~= before.artifacts);
        assert(steps.take(4) == steps);
    }
}

/// What stands between the file stem and the extension of a tier's
/// variants: a `-` and the label.
pub open spec fn tier_suffix(label: Seq<u8>) -> Seq<u8> {
    seq![DASH] + label
}

/// The steps for tier `i`: the picture scaled down to the tier's bound and
/// rendered beside `dest`, the tier's suffix spliced in.
pub open spec fn tier_steps(c: ConfigView, dest: Seq<u8>, p: PictureView, i: int) -> Seq<Step> {
    let tier = c.tiers[i];
    render_steps(
        c.webp,
        Picture::tier_variant(p, tier.max_dimension),
        spliced(dest, tier_suffix(tier.label))->Ok_0,
        Some(tier.label),
    )
}

/// The steps for the first `n` tiers, in their order.
pub open spec fn tiers_steps(c: ConfigView, dest: Seq<u8>, p: PictureView, n: nat) -> Seq<Step>
    decreases n,
{
    if n == 0 {
        seq![]
    } else {
        tiers_steps(c, dest, p, (n - 1) as nat) + tier_steps(c, dest, p, n - 1)
    }
}

/// The plan for the picture `p` that goes to `dest`: with resizing, the
/// renderings of each tier, then those of the picture itself at `dest`.
/// Where a tier is due and `dest` has no place for its suffix, nothing is
/// made.
pub open spec fn transcode_plan(c: ConfigView, dest: Seq<u8>, p: PictureView) -> Plan {
    let resizing = !c.no_resize_images && c.tiers.len() > 0;
    if resizing && spliced(dest, seq![]) is Err {
        Plan { steps: seq![], stop: Some(spliced(dest, seq![])->Err_0) }
    } else {
        let tiered = if resizing {
            tiers_steps(c, dest, p, c.tiers.len())
        } else {
            seq![]
        };
        Plan { steps: tiered + render_steps(c.webp, p, dest, None), stop: None }
    }
}

/// The kind of the step at place `k` among the four that render a picture.
pub open spec fn render_kind(k: int) -> ArtifactKind {
    if k == 0 {
        ArtifactKind::Avif
    } else if k == 1 {
        ArtifactKind::Jpeg
    } else if k == 2 {
        ArtifactKind::Png
    } else {
        ArtifactKind::WebP
    }
}

/// Each tier adds four steps.
pub proof fn lemma_tiers_steps_len(c: ConfigView, dest: Seq<u8>, p: PictureView, n: nat)
    ensures
        tiers_steps(c, dest, p, n).len() == 4 * n,
    decreases n,
{
    if n > 0 {
        lemma_tiers_steps_len(c, dest, p, (n - 1) as nat);
    }
}

/// The step at place `i` among those of the first `n` tiers is step `i % 4`
/// of tier `i / 4`.
pub proof fn lemma_tiers_steps_index(c: ConfigView, dest: Seq<u8>, p: PictureView, n: nat, i: int)
    requires
        0 <= i < 4 * n,
    ensures
        tiers_steps(c, dest, p, n).len() == 4 * n,
        tiers_steps(c, dest, p, n)[i] == tier_steps(c, dest, p, i / 4)[i % 4],
    decreases n,
{
    lemma_tiers_steps_len(c, dest, p, n);
    lemma_tiers_steps_len(c, dest, p, (n - 1) as nat);
    if i < 4 * (n - 1) {
        lemma_tiers_steps_index(c, dest, p, (n - 1) as nat, i);
    } else {
        assert(i / 4 == n - 1);
        assert(i % 4 == i - 4 * (n - 1));
    }
}

/// A run of the image pipeline that ends without an error has made four
/// artifacts for the picture itself and four for each tier: with the three
/// default tiers sixteen, and four where resizing is off.
pub proof fn law_transcode_count(run: RunView, c: ConfigView, dest: Seq<u8>, p: PictureView)
    requires
        follows(run, transcode_plan(c, dest, p)),
        run.fault.is_none(),
    ensures
        run.artifacts.len() == if c.no_resize_images {
            4
        } else {
            4 * (c.tiers.len() + 1)
        },
{
    lemma_tiers_steps_len(c, dest, p, c.tiers.len());
}

/// Paths that end in a dot and the extensions of two different image
/// formats differ.
pub proof fn lemma_formats_differ(a: Seq<u8>, j: int, b: Seq<u8>, k: int)
    requires
        0 <= j < 4,
        0 <= k < 4,
        j != k,
    ensures
        a + seq![DOT] + render_kind(j).extension_spec() != b + seq![DOT] + render_kind(
            k,
        ).extension_spec(),
{
    let x = a + seq![DOT] + render_kind(j).extension_spec();
    let y = b + seq![DOT] + render_kind(k).extension_spec();
    let e = render_kind(j).extension_spec();
    let f = render_kind(k).extension_spec();
    assert(x[x.len() - 1] == e[e.len() - 1]);
    assert(x[x.len() - 2] == e[e.len() - 2]);
    assert(y[y.len() - 1] == f[f.len() - 1]);
    assert(y[y.len() - 2] == f[f.len() - 2]);
}

/// What stands between the stem and the extension in the paths of the
/// steps of size `a`: the suffix of tier `a`, and nothing for the picture in
/// its own size, which comes after the tiers.
pub open spec fn size_suffix(c: ConfigView, tiered: bool, a: int) -> Seq<u8> {
    if tiered && a < c.tiers.len() {
        tier_suffix(c.tiers[a].label)
    } else {
        seq![]
    }
}

/// The paths of a plan are the destination without its extension, the
/// suffix of the size, a dot and the extension of the format.
pub proof fn lemma_transcode_path(c: ConfigView, dest: Seq<u8>, p: PictureView, i: int)
    requires
        valid_config(c),
        has_file_name(dest),
        0 <= i < transcode_plan(c, dest, p).steps.len(),
    ensures
        ({
            let tiered = !c.no_resize_images && c.tiers.len() > 0;
            transcode_plan(c, dest, p).steps[i].path == without_extension(dest) + size_suffix(
                c,
                tiered,
                i / 4,
            ) + seq![DOT] + render_kind(i % 4).extension_spec()
        }),
        !c.no_resize_images ==> i / 4 <= c.tiers.len(),
        c.no_resize_images ==> i / 4 == 0,
{
    let tiered = !c.no_resize_images && c.tiers.len() > 0;
    let n = if tiered {
        c.tiers.len()
    } else {
        0
    };
    let plan = transcode_plan(c, dest, p);
    lemma_tiers_steps_len(c, dest, p, n);
    let front = without_extension(dest);
    let k = i % 4;
    let ext = render_kind(k).extension_spec();
    assert(ext.len() > 0);
    if i < 4 * n {
        let a = i / 4;
        lemma_tiers_steps_index(c, dest, p, n, i);
        let tier = c.tiers[a];
        assert(valid_tier(tier));
        let suffix = tier_suffix(tier.label);
        assert(!suffix.contains(SEPARATOR)) by {
            if suffix.contains(SEPARATOR) {
                let at = choose|at: int| 0 <= at < suffix.len() && suffix[at] == SEPARATOR;
                assert(at > 0);
                assert(tier.label[at - 1] == SEPARATOR);
                assert(tier.label.contains(SEPARATOR));
            }
        }
        assert(spliced(dest, suffix) is Ok);
        lemma_spliced_shape(dest, suffix);
        let out = spliced(dest, suffix)->Ok_0;
        lemma_replaced_shape(out, ext);
        assert(plan.steps[i] == tier_steps(c, dest, p, a)[k]);
        assert(tier_steps(c, dest, p, a)[k].path == replaced_extension(out, ext));
    } else {
        assert(i / 4 == n);
        assert(k == i - 4 * n);
        lemma_replaced_shape(dest, ext);
        assert(plan.steps[i] == render_steps(c.webp, p, dest, None)[k]);
        assert(size_suffix(c, tiered, i / 4) == Seq::<u8>::empty());
        assert(front + Seq::<u8>::empty() =~= front);
    }
}

/// No two steps of the plan for an image write to the same path, whatever
/// the tiers of the configuration are, as long as the destination has a
/// file name.
pub proof fn law_transcode_paths_distinct(c: ConfigView, dest: Seq<u8>, p: PictureView)
    requires
        valid_config(c),
        has_file_name(dest),
    ensures
        forall|i: int, j: int|
            0 <= i < j < transcode_plan(c, dest, p).steps.len() ==> (#[trigger] transcode_plan(
                c,
                dest,
                p,
            ).steps[i]).path != (#[trigger] transcode_plan(c, dest, p).steps[j]).path,
{
    let plan = transcode_plan(c, dest, p);
    let tiered = !c.no_resize_images && c.tiers.len() > 0;
    let front = without_extension(dest);
    assert forall|i: int, j: int| 0 <= i < j < plan.steps.len() implies (#[trigger] plan.steps[i]).path
        != (#[trigger] plan.steps[j]).path by {
        lemma_transcode_path(c, dest, p, i);
        lemma_transcode_path(c, dest, p, j);
        let s = size_suffix(c, tiered, i / 4);
        let t = size_suffix(c, tiered, j / 4);
        if i % 4 != j % 4 {
            lemma_formats_differ(front + s, i % 4, front + t, j % 4);
        } else {
            let tail = seq![DOT] + render_kind(i % 4).extension_spec();
            let x = front + s + tail;
            let y = front + t + tail;
            assert(plan.steps[i].path =~= x);
            assert(plan.steps[j].path =~= y);
            assert(i / 4 < j / 4);
            if x == y {
                assert(s.len() == t.len());
                assert forall|m: int| 0 <= m < s.len() implies s[m] == t[m] by {
                    assert(x[front.len() + m] == s[m]);
                    assert(y[front.len() + m] == t[m]);
                }
                assert(s =~= t);
                let a = c.tiers[i / 4];
                assert(s == tier_suffix(a.label));
                assert(s.len() > 0);
                let b = c.tiers[j / 4];
                assert(t == tier_suffix(b.label));
                assert(a.label =~= s.skip(1));
                assert(b.label =~= t.skip(1));
                assert(false);
            }
        }
    }
}

/// No two artifacts of an image share a path: for a file with a name that
/// lies below the input root, the steps of the plan at its destination
/// write to paths that differ from one another.
pub proof fn law_image_paths_distinct(c: ConfigView, item: Seq<u8>, p: PictureView)
    requires
        valid_config(c),
        has_file_name(item),
        item != c.in_dir,
        mirrored(c.out_dir, c.in_dir, item) is Some,
    ensures
        ({
            let plan = transcode_plan(c, mirrored(c.out_dir, c.in_dir, item)->Some_0, p);
            forall|i: int, j: int|
                0 <= i < j < plan.steps.len() ==> (#[trigger] plan.steps[i]).path != (
                #[trigger] plan.steps[j]).path
        }),
{
    law_mirrored_keeps_name(c.out_dir, c.in_dir, item);
    law_transcode_paths_distinct(c, mirrored(c.out_dir, c.in_dir, item)->Some_0, p);
}

/// Renders `picture`, which was decoded from the file `source`, for the
/// destination `dest`: each tier in its order, unless resizing is off, and
/// then the picture in its own size.
pub fn transcode(config: &Config, source: &[u8], dest: &[u8], picture: &Picture) -> (run:
    PipelineRun)
    ensures
        run@.source == source@,
        follows(run@, transcode_plan(config@, dest@, picture@)),
{
    let mut run = PipelineRun::new(source);
    let ghost c = config@;
    let ghost p = picture@;
    if !config.no_resize_images() {
        let tiers = config.tiers();
        let mut i: usize = 0;
        while i < tiers.len()
            invariant
                i <= tiers.len(),
                c == config@,
                p == picture@,
                !c.no_resize_images,
                crate::config::tier_views(tiers@) == c.tiers,
                run@.source == source@,
                i > 0 ==> spliced(dest@, seq![]) is Ok,
                follows(run@, Plan { steps: tiers_steps(c, dest@, p, i as nat), stop: None }),
            decreases tiers.len() - i,
        {
            let tier = &tiers[i];
            assert(c.tiers[i as int] == tier@);
            let mut suffix: Vec<u8> = Vec::new();
            suffix.push(DASH);
            append(&mut suffix, tier.label.as_slice());
            let path = match gen_path(dest, suffix.as_slice()) {
                Ok(path) => path,
                Err(e) => {
                    run.fail(e);
                    return run;
                },
            };
            let variant = picture.thumbnail(tier.max_dimension);
            let label = Some(slice_to_vec(tier.label.as_slice()));
            let ghost before = run@;
            dynamic_render(config, &variant, path.as_slice(), &label, &mut run);
            proof {
                lemma_extends_follows(
                    before,
                    run@,
                    tiers_steps(c, dest@, p, i as nat),
                    tier_steps(c, dest@, p, i as int),
                );
            }
            i += 1;
        }
    }
    let ghost before = run@;
    dynamic_render(config, picture, dest, &None, &mut run);
    proof {
        lemma_extends_follows(
            before,
            run@,
            if !c.no_resize_images && c.tiers.len() > 0 {
                tiers_steps(c, dest@, p, c.tiers.len())
            } else {
                seq![]
            },
            render_steps(c.webp, p, dest@, None),
        );
    }
    run
}

/// The plan for the image `item` when images are left as they are: one copy
/// at the destination, which is passed over where a file is there already.
pub open spec fn image_copy_plan(c: ConfigView, item: Seq<u8>, content: Seq<u8>) -> Plan {
    match mirrored(c.out_dir, c.in_dir, item) {
        Some(dest) => Plan { steps: seq![copy_step(dest, content, OnExisting::Skip)], stop: None },
        None => Plan { steps: seq![], stop: Some(Fault::StripPrefixError) },
    }
}

/// Whether `run` is a run of the image pipeline on the file `item` with the
/// bytes `content`.
///
/// A file outside the input root ends the run before anything is made.
/// Where images are left as they are, the run is the copy. Else the file is
/// decoded, in the format that its extension stands for: either that fails,
/// and the run ends in an image error with nothing made, or it gives some
/// well-formed picture, and the run follows the plan for that picture.
pub open spec fn image_run(run: RunView, c: ConfigView, item: Seq<u8>, content: Seq<u8>) -> bool {
    if c.no_compress_images || mirrored(c.out_dir, c.in_dir, item).is_none() {
        follows(run, image_copy_plan(c, item, content))
    } else {
        ||| run.artifacts.len() == 0 && run.fault == Some(Fault::Image)
        ||| exists|p: PictureView|
            valid_picture(p) && follows(
                run,
                #[trigger] transcode_plan(c, mirrored(c.out_dir, c.in_dir, item)->Some_0, p),
            )
    }
}

/// Runs the pipeline of the image `item_path`, whose bytes are `content`.
pub fn image_compress(config: &Config, item_path: &[u8], content: &[u8]) -> (run: PipelineRun)
    ensures
        run@.source == item_path@,
        image_run(run@, config@, item_path@, content@),
{
    let dest = match destination(config.out_dir(), config.in_dir(), item_path) {
        Ok(dest) => dest,
        Err(e) => {
            let mut run = PipelineRun::new(item_path);
            run.fail(e);
            return run;
        },
    };
    if config.no_compress_images() {
        let mut run = PipelineRun::new(item_path);
        run.record(
            dest,
            ArtifactKind::Original,
            None,
            OnExisting::Skip,
            Ok(Payload::Bytes(slice_to_vec(content))),
        );
        return run;
    }
    let kind = match extension(item_path) {
        Some(ext) => image_kind(ext.as_slice()),
        None => None,
    };
    match Picture::decode(content, kind) {
        Ok(picture) => transcode(config, item_path, dest.as_slice(), &picture),
        Err(e) => {
            let mut run = PipelineRun::new(item_path);
            run.fail(e);
            run
        },
    }
}

} // verus!
