//! Pull protocol behavior: memoization, smoothing, rendering.

use picasound::fixed::SCALE;
use picasound::load::{PipelineConfig, PipelineConfigNode};
use picasound::options::{Num, Options, Value};
use picasound::pipeline::NodeFactory;
use picasound::processors::circle;
use picasound::sources::random_color::get_borders;
use picasound::processors::equalizer;
use picasound::processors::merge::{combine_frames, weight_frame, Mode};
use picasound::util::spectrum::{Bin, ComputeSpectrum, Spectrum, MAX_WINDOW};
use picasound::util::video::{Pixel, VideoFrame};
use picasound::util::FrameIds;

struct ZeroTransform {
    len: usize,
}

impl ComputeSpectrum for ZeroTransform {
    fn create(window_len: usize) -> ZeroTransform {
        assert!(2 <= window_len && window_len <= MAX_WINDOW);
        ZeroTransform { len: window_len }
    }

    fn window_len(&self) -> usize {
        self.len
    }

    fn compute(&mut self, data: &Vec<i32>) -> Vec<Bin> {
        assert_eq!(data.len(), self.len);
        vec![Bin { re: 0, im: 0 }; self.len / 2 + 1]
    }
}

fn def_with(
    name: &str,
    node_type: &str,
    inputs: &[&str],
    options: Options,
) -> (String, PipelineConfigNode) {
    (
        String::from(name),
        PipelineConfigNode {
            node_type: String::from(node_type),
            inputs: inputs.iter().map(|s| String::from(*s)).collect(),
            options,
        },
    )
}

fn alpha_options(mag: u64) -> Options {
    Options::from_entries(vec![(
        String::from("smoothing-factor"),
        Value::Number(Num::from_raw(false, mag)),
    )])
}

#[test]
fn memoization_computes_once_per_tick() {
    let cfg = PipelineConfig {
        video: None,
        pipeline: vec![
            def_with("mic", "device", &[], Options::empty()),
            def_with("loud", "loudness", &["mic"], Options::empty()),
            def_with("color", "random-color", &[], Options::empty()),
            def_with("out", "rtsp", &["color"], Options::empty()),
        ],
    };
    let mut p = cfg.pipeline::<ZeroTransform>(&NodeFactory::default(), Some(2400)).unwrap();
    let mic = p.find_node("mic").unwrap();
    let loud = p.find_node("loud").unwrap();
    let mut ids = FrameIds::new();

    // 2400 samples/s at 24 fps: one frame period is 100 samples.
    let loud_chunk: Vec<i32> = vec![SCALE as i32; 100];
    assert!(p.push_audio(mic, &loud_chunk));

    let id1 = ids.mint();
    let v1 = p.provide_number(loud, id1);
    assert_eq!(v1, SCALE, "constant full-scale signal has full-scale loudness");

    // New audio arrives, but a pull for the same tick must observe the
    // cached result: exactly one computation per tick.
    let silence: Vec<i32> = vec![0; 100];
    assert!(p.push_audio(mic, &silence));
    let v2 = p.provide_number(loud, id1);
    assert_eq!(v2, v1);

    // A new tick recomputes and sees the silence.
    let id2 = ids.mint();
    let v3 = p.provide_number(loud, id2);
    assert_eq!(v3, 0);
}

#[test]
fn average_alpha_one_reproduces_input() {
    let cfg = PipelineConfig {
        video: None,
        pipeline: vec![
            def_with("mic", "device", &[], Options::empty()),
            def_with("loud", "loudness", &["mic"], Options::empty()),
            def_with("avg", "average", &["loud"], alpha_options(SCALE)),
            def_with("color", "random-color", &[], Options::empty()),
            def_with("out", "rtsp", &["color"], Options::empty()),
        ],
    };
    let mut p = cfg.pipeline::<ZeroTransform>(&NodeFactory::default(), Some(2400)).unwrap();
    let mic = p.find_node("mic").unwrap();
    let avg = p.find_node("avg").unwrap();
    let mut ids = FrameIds::new();

    let chunk: Vec<i32> = vec![SCALE as i32; 100];
    assert!(p.push_audio(mic, &chunk));
    let v = p.provide_number(avg, ids.mint());
    assert_eq!(v, SCALE, "alpha of one passes the raw input through");
}

#[test]
fn average_alpha_zero_stays_at_zero() {
    let cfg = PipelineConfig {
        video: None,
        pipeline: vec![
            def_with("mic", "device", &[], Options::empty()),
            def_with("loud", "loudness", &["mic"], Options::empty()),
            def_with("avg", "average", &["loud"], alpha_options(0)),
            def_with("color", "random-color", &[], Options::empty()),
            def_with("out", "rtsp", &["color"], Options::empty()),
        ],
    };
    let mut p = cfg.pipeline::<ZeroTransform>(&NodeFactory::default(), Some(2400)).unwrap();
    let mic = p.find_node("mic").unwrap();
    let avg = p.find_node("avg").unwrap();
    let mut ids = FrameIds::new();

    let chunk: Vec<i32> = vec![SCALE as i32; 100];
    assert!(p.push_audio(mic, &chunk));
    for _ in 0..5 {
        let v = p.provide_number(avg, ids.mint());
        assert_eq!(v, 0, "alpha of zero keeps the average frozen at zero");
    }
}

#[test]
fn circle_renders_center_and_leaves_corners() {
    let mut frame = VideoFrame::new(8, 8);
    circle::render(&mut frame, 2);
    let center = frame.read_pixel(4, 4);
    assert_eq!((center.red(), center.green(), center.blue()), (255, 255, 255));
    let corner = frame.read_pixel(0, 0);
    assert_eq!((corner.red(), corner.green(), corner.blue()), (0, 0, 0));
}

#[test]
fn merge_sum_of_halves_is_the_average_color() {
    let mut dst = VideoFrame::new(1, 1);
    dst.write_pixel(0, 0, Pixel::new(100, 200, 50));
    let mut src = VideoFrame::new(1, 1);
    src.write_pixel(0, 0, Pixel::new(40, 60, 80));

    let half = SCALE / 2;
    weight_frame(&mut dst, half);
    combine_frames(&mut dst, &src, half, Mode::Sum);

    let p = dst.read_pixel(0, 0);
    assert_eq!((p.blue(), p.green(), p.red()), (70, 130, 65));
}

#[test]
fn merge_product_differs_from_sum() {
    let mut dst = VideoFrame::new(1, 1);
    dst.write_pixel(0, 0, Pixel::new(100, 200, 50));
    let mut src = VideoFrame::new(1, 1);
    src.write_pixel(0, 0, Pixel::new(40, 60, 80));

    let half = SCALE / 2;
    weight_frame(&mut dst, half);
    combine_frames(&mut dst, &src, half, Mode::Product);

    let p = dst.read_pixel(0, 0);
    // Normalized multiply of the two weighted frames.
    assert_eq!((p.blue(), p.green(), p.red()), (3, 11, 3));
    assert_ne!((p.blue(), p.green(), p.red()), (70, 130, 65));
}

#[test]
fn mode_apply_clamps_and_multiplies() {
    assert_eq!(Mode::Sum.apply(200, 100), 255);
    assert_eq!(Mode::Sum.apply(20, 30), 50);
    assert_eq!(Mode::Product.apply(255, 255), 255);
    assert_eq!(Mode::Product.apply(128, 128), 64);
}

#[test]
fn equalizer_suppresses_short_bars() {
    // One bin; on an 8-pixel-tall frame a magnitude of 0.5 yields height 4,
    // which is below the threshold: nothing is drawn.
    let bins = vec![Bin { re: (SCALE / 2) as i64, im: 0 }];
    let spectrum = Spectrum::from_parts(bins, 0, 16, 1, 65536 * 4000);
    let mut frame = VideoFrame::new(8, 8);
    equalizer::render(&mut frame, &spectrum);
    for y in 0..8 {
        for x in 0..8 {
            let p = frame.read_pixel(x, y);
            assert_eq!((p.red(), p.green(), p.blue()), (0, 0, 0));
        }
    }
}

#[test]
fn equalizer_draws_exact_bar_height() {
    // A magnitude of 0.625 on an 8-pixel-tall frame yields height 5: a bar
    // exactly five pixels tall from the bottom.
    let bins = vec![Bin { re: (SCALE * 5 / 8) as i64, im: 0 }];
    let spectrum = Spectrum::from_parts(bins, 0, 16, 1, 65536 * 4000);
    let mut frame = VideoFrame::new(8, 8);
    equalizer::render(&mut frame, &spectrum);
    for y in 0..8 {
        let p = frame.read_pixel(0, y);
        if y >= 3 {
            assert_eq!((p.red(), p.green(), p.blue()), (255, 255, 255));
        } else {
            assert_eq!((p.red(), p.green(), p.blue()), (0, 0, 0));
        }
    }
}

#[test]
fn sink_tick_renders_a_frame() {
    let cfg = PipelineConfig {
        video: None,
        pipeline: vec![
            def_with("color", "random-color", &[], Options::empty()),
            def_with("out", "rtsp", &["color"], Options::empty()),
        ],
    };
    let mut p = cfg.pipeline::<ZeroTransform>(&NodeFactory::default(), Some(2400)).unwrap();
    let sink = p.sinks()[0];
    let mut ids = FrameIds::new();
    let c = p.config();
    let mut frame = VideoFrame::new(c.width(), c.height());
    p.tick(sink, ids.mint(), &mut frame);
    assert_eq!(frame.width(), 1280);
    assert_eq!(frame.height(), 720);
}

#[test]
fn apply_visits_every_pixel() {
    let mut frame = VideoFrame::new(2, 2);
    frame.apply(|x, y, p| Pixel::new((x as u8) + 1, (y as u8) + 1, p.red()));
    for y in 0..2 {
        for x in 0..2 {
            let p = frame.read_pixel(x, y);
            assert_eq!((p.blue(), p.green(), p.red()), ((x as u8) + 1, (y as u8) + 1, 0));
        }
    }
}

#[test]
fn apply_zip_blends_pairwise() {
    let mut a = VideoFrame::new(1, 1);
    a.write_pixel(0, 0, Pixel::new(10, 20, 30));
    let mut b = VideoFrame::new(1, 1);
    b.write_pixel(0, 0, Pixel::new(1, 2, 3));
    a.apply_zip(&mut b, |_x, _y, p1, p2| {
        (Pixel::new(p1.blue() + p2.blue(), p1.green() + p2.green(), p1.red() + p2.red()), p2)
    });
    let p = a.read_pixel(0, 0);
    assert_eq!((p.blue(), p.green(), p.red()), (11, 22, 33));
    let q = b.read_pixel(0, 0);
    assert_eq!((q.blue(), q.green(), q.red()), (1, 2, 3));
}

#[test]
fn borders_round_and_clamp() {
    let opts = Options::from_entries(vec![(
        String::from("split-x"),
        Value::Sequence(vec![
            Value::Number(Num::from_raw(false, SCALE / 2)),
            Value::Number(Num::from_raw(true, SCALE / 4)),
            Value::Number(Num::from_raw(false, 3 * SCALE)),
        ]),
    )]);
    // A half split of 100 pixels lands on 50; negative fractions land on
    // 0; fractions above one land on the axis length.
    let b = get_borders(&opts, "split-x", 100).unwrap();
    assert_eq!(b, vec![0, 50, 0, 100, 100]);
    // No declared splits: just the two axis ends.
    let none = get_borders(&Options::empty(), "split-x", 64).unwrap();
    assert_eq!(none, vec![0, 64]);
}

#[test]
fn update_every_below_one_tick_is_rejected() {
    let opts = Options::from_entries(vec![(
        String::from("update-every"),
        Value::Number(Num::from_raw(false, 1)),
    )]);
    let cfg = PipelineConfig {
        video: None,
        pipeline: vec![
            def_with("color", "random-color", &[], opts),
            def_with("out", "rtsp", &["color"], Options::empty()),
        ],
    };
    let r = cfg.pipeline::<ZeroTransform>(&NodeFactory::default(), Some(2400));
    assert!(matches!(r, Err(picasound::util::Error::InvalidOptions)));
}
