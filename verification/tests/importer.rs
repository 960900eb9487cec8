use weldwm::importer::{
    ownership_transfer, staged_render_image, BufferImage, DmabufLayers, DmabufReleaseId,
    ImageAccess, ImageLayout, ImageOwner, PipelineStage,
};
use weldwm::number::{Real32, Real64, Vec2};
use weldwm::surface::{SurfaceId, SurfaceImageEncoding, SurfaceLayerId};

fn buffer(handle: u64, source: u64) -> BufferImage {
    BufferImage {
        handle,
        source,
        release: DmabufReleaseId::new(handle + 1000),
    }
}

const SURFACE: SurfaceId = SurfaceId(1);

fn layer(raw: u64) -> SurfaceLayerId {
    SurfaceLayerId::new(raw)
}

/// Shows every staged buffer whose placeholder is among `live`.
fn show(layers: &mut DmabufLayers, live: &[u64]) -> (Vec<BufferImage>, Vec<u64>) {
    let batch = layers.take_staged(&live.to_vec());
    assert!(layers.settle_batch(&batch.promotions, true).is_empty());
    (batch.discarded, batch.acquire)
}

#[test]
fn replaced_buffers_are_released_after_their_last_use() {
    let mut layers = DmabufLayers::default();
    layers.stage(SURFACE, layer(1), buffer(1, 50));
    layers.stage(SURFACE, layer(2), buffer(2, 50));
    assert_eq!(show(&mut layers, &[1, 2]), (vec![], vec![50]));
    assert!(layers.plan_finish().expect("counted").is_none());

    layers.stage(SURFACE, layer(1), buffer(3, 51));
    assert_eq!(show(&mut layers, &[3]), (vec![], vec![51]));
    let plan = layers.plan_finish().expect("counted").expect("one retires");
    assert!(plan.releases.is_empty());
    assert_eq!(layers.commit_finish(&plan), [buffer(1, 50)]);

    layers.remove_layer(SURFACE, layer(2));
    let plan = layers.plan_finish().expect("counted").expect("one retires");
    assert_eq!(plan.releases, [50]);
    assert_eq!(layers.commit_finish(&plan), [buffer(2, 50)]);
    assert!(layers.plan_finish().expect("counted").is_none());
}

#[test]
fn buffers_that_are_never_shown_are_released_at_once() {
    let mut layers = DmabufLayers::default();
    layers.stage(SURFACE, layer(1), buffer(1, 50));
    layers.stage(SURFACE, layer(1), buffer(2, 51));
    assert_eq!(layers.take_superseded(), [buffer(1, 50)]);
    assert!(layers.take_superseded().is_empty());
    let (discarded, acquire) = show(&mut layers, &[]);
    assert_eq!(discarded, [buffer(2, 51)]);
    assert!(acquire.is_empty());
}

#[test]
fn batches_are_shown_as_a_whole_or_released() {
    let mut layers = DmabufLayers::default();
    layers.stage(SURFACE, layer(1), buffer(1, 50));
    layers.stage(SURFACE, layer(2), buffer(2, 51));
    let batch = layers.take_staged(&vec![1, 2]);
    assert_eq!(batch.acquire, [50, 51]);
    assert_eq!(
        layers.settle_batch(&batch.promotions, false),
        [buffer(1, 50), buffer(2, 51)]
    );
    let plan = layers.shutdown();
    assert!(plan.staged.is_empty() && plan.displayed.is_empty());

    layers.stage(SURFACE, layer(1), buffer(3, 52));
    let batch = layers.take_staged(&vec![3]);
    layers.promote(&batch.promotions);
    assert_eq!(layers.shutdown().displayed, [buffer(3, 52)]);
}

#[test]
fn images_change_hands_both_ways() {
    let taken = ownership_transfer(2, true);
    assert_eq!(taken.before.owner, ImageOwner::Foreign);
    assert_eq!(taken.before.layout, ImageLayout::General);
    assert_eq!(taken.before.access, ImageAccess::MemoryWrite);
    assert_eq!(taken.before.stage, PipelineStage::AllCommands);
    assert_eq!(taken.after.owner, ImageOwner::Family(2));
    assert_eq!(taken.after.layout, ImageLayout::ShaderReadOnly);
    let returned = ownership_transfer(2, false);
    assert_eq!(returned.before, taken.after);
    assert_eq!(returned.after.owner, ImageOwner::Foreign);
    assert_eq!(returned.after.layout, ImageLayout::General);
    assert_eq!(returned.after.access, ImageAccess::Untouched);
    assert_eq!(returned.after.stage, PipelineStage::BottomOfPipe);
}

#[test]
fn surfaces_keep_only_the_layers_they_list() {
    let mut layers = DmabufLayers::default();
    for raw in 1..4 {
        layers.stage(SURFACE, layer(raw), buffer(raw, raw));
    }
    layers.stage(SurfaceId::new(2), layer(1), buffer(9, 9));
    layers.retain_surface_layers(SURFACE, &vec![2]);
    assert_eq!(layers.take_superseded(), [buffer(1, 1), buffer(3, 3)]);
    show(&mut layers, &[2, 9]);
    layers.remove_surface(SURFACE);
    let plan = layers.plan_finish().expect("counted").expect("one retires");
    assert_eq!(layers.commit_finish(&plan), [buffer(2, 2)]);
}

#[test]
fn shutdown_releases_everything() {
    let mut layers = DmabufLayers::default();
    layers.stage(SURFACE, layer(1), buffer(1, 50));
    show(&mut layers, &[1]);
    layers.stage(SURFACE, layer(1), buffer(2, 51));
    let plan = layers.shutdown();
    assert_eq!(plan.staged, [buffer(2, 51)]);
    assert_eq!(plan.displayed, [buffer(1, 50)]);
    assert_eq!(plan.sources, Some(vec![50]));
    layers.shutdown_submitted();
    let plan = layers.shutdown();
    assert!(plan.staged.is_empty() && plan.displayed.is_empty());
    assert_eq!(plan.sources, None);
}

#[test]
fn staged_images_say_how_they_are_sampled() {
    let opaque = staged_render_image(4, true, false);
    assert_eq!(opaque.image, 4);
    assert_eq!(opaque.encoding, SurfaceImageEncoding::EncodedOpaque);
    let blended = staged_render_image(5, false, true);
    assert_eq!(blended.encoding, SurfaceImageEncoding::EncodedPremultiplied);
    assert!(blended.y_inverted);
}

#[test]
fn bit_patterns_order_like_numbers() {
    let values = [
        f64::NAN,
        f64::NEG_INFINITY,
        -1.5,
        -f64::MIN_POSITIVE,
        -0.0,
        0.0,
        5e-324,
        1.0,
        f64::MAX,
        f64::INFINITY,
    ];
    for left in values {
        let first = Real64::new(left.to_bits());
        assert_eq!(first.is_nan(), left.is_nan());
        assert_eq!(first.is_finite(), left.is_finite());
        assert_eq!(first.is_positive(), left > 0.0);
        for right in values {
            let second = Real64::new(right.to_bits());
            assert_eq!(first.equals(second), left == right);
            assert_eq!(first.less_than(second), left < right);
        }
        if !left.is_nan() {
            let limited = first.clamp(Real64::zero(), Real64::new(2.0f64.to_bits()));
            assert_eq!(f64::from_bits(limited.bits), left.clamp(0.0, 2.0));
        }
    }
    let singles = [f32::NAN, f32::NEG_INFINITY, -2.0, -0.0, 0.0, 1e-45, 3.0, f32::INFINITY];
    for left in singles {
        let first = Real32::new(left.to_bits());
        assert_eq!(first.is_nan(), left.is_nan());
        assert_eq!(first.is_finite(), left.is_finite());
        assert_eq!(first.is_positive(), left > 0.0);
        assert_eq!(first.negate().bits, (-left).to_bits());
        for right in singles {
            let second = Real32::new(right.to_bits());
            assert_eq!(first.equals(second), left == right);
            assert_eq!(first.at_most(second), left <= right);
        }
    }
    let pair = Vec2::new(Real32::new(1.0f32.to_bits()), Real32::new(0));
    assert!(pair.is_finite());
    assert!(pair.equals(pair));
    assert!(!pair.equals(Vec2::zero()));
    assert_eq!(f32::from_bits(pair.negate().x.bits), -1.0);
}
