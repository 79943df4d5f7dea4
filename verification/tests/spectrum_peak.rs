//! Spectrum slicing against a real transform: the bin reported for a
//! sinusoid's frequency sits at (or next to) the magnitude peak.

use picasound::fixed::SCALE;
use picasound::load::{PipelineConfig, PipelineConfigNode};
use picasound::options::{Num, Options, Value};
use picasound::pipeline::NodeFactory;
use picasound::util::spectrum::{Bin, ComputeSpectrum, BIN_LIMIT, MAX_WINDOW};
use picasound::util::FrameIds;
use realfft::RealFftPlanner;

/// A transform backed by a real FFT, normalized by the square root of the
/// window length, converted to fixed point.
struct FftTransform {
    len: usize,
    planner: RealFftPlanner<f32>,
}

impl ComputeSpectrum for FftTransform {
    fn create(window_len: usize) -> FftTransform {
        assert!(2 <= window_len && window_len <= MAX_WINDOW);
        FftTransform { len: window_len, planner: RealFftPlanner::new() }
    }

    fn window_len(&self) -> usize {
        self.len
    }

    fn compute(&mut self, data: &Vec<i32>) -> Vec<Bin> {
        assert_eq!(data.len(), self.len);
        let fft = self.planner.plan_fft_forward(self.len);
        let mut input: Vec<f32> = data.iter().map(|&x| x as f32 / SCALE as f32).collect();
        let mut output = fft.make_output_vec();
        fft.process(&mut input, &mut output).expect("valid transform inputs");
        let norm = (self.len as f32).sqrt();
        output
            .iter()
            .map(|c| {
                let re = (c.re / norm * SCALE as f32) as i64;
                let im = (c.im / norm * SCALE as f32) as i64;
                Bin {
                    re: re.clamp(-BIN_LIMIT, BIN_LIMIT),
                    im: im.clamp(-BIN_LIMIT, BIN_LIMIT),
                }
            })
            .collect()
    }
}

#[test]
fn sinusoid_peak_matches_bin_for() {
    let sample_rate = 8000usize;
    let window = 1024usize;
    let tone_hz = 440.0f32;

    let mut opts_entries = Vec::new();
    opts_entries.push((
        String::from("window-size"),
        Value::Number(Num::from_raw(false, 1024 * 65536)),
    ));
    opts_entries.push((
        String::from("frequency-range"),
        Value::Sequence(vec![
            Value::Number(Num::from_raw(false, 20 * 65536)),
            Value::Number(Num::from_raw(false, 3900 * 65536)),
        ]),
    ));
    let cfg = PipelineConfig {
        video: None,
        pipeline: vec![
            (
                String::from("mic"),
                PipelineConfigNode {
                    node_type: String::from("device"),
                    inputs: vec![],
                    options: Options::empty(),
                },
            ),
            (
                String::from("spec"),
                PipelineConfigNode {
                    node_type: String::from("spectrum"),
                    inputs: vec![String::from("mic")],
                    options: Options::from_entries(opts_entries),
                },
            ),
            (
                String::from("color"),
                PipelineConfigNode {
                    node_type: String::from("random-color"),
                    inputs: vec![],
                    options: Options::empty(),
                },
            ),
            (
                String::from("out"),
                PipelineConfigNode {
                    node_type: String::from("rtsp"),
                    inputs: vec![String::from("color")],
                    options: Options::empty(),
                },
            ),
        ],
    };
    let mut p = cfg.pipeline::<FftTransform>(&NodeFactory::default(), Some(sample_rate)).unwrap();
    let mic = p.find_node("mic").unwrap();
    let spec = p.find_node("spec").unwrap();

    let samples: Vec<i32> = (0..window)
        .map(|i| {
            let t = i as f32 / sample_rate as f32;
            ((2.0 * std::f32::consts::PI * tone_hz * t).sin() * SCALE as f32) as i32
        })
        .collect();
    assert!(p.push_audio(mic, &samples));

    let mut ids = FrameIds::new();
    let s = p.provide_spectrum(spec, ids.mint());
    assert!(s.len() > 0);

    let mut peak = 0usize;
    let mut peak_norm = 0u64;
    for i in 0..s.len() {
        let n = s.bin(i).norm();
        if n > peak_norm {
            peak_norm = n;
            peak = i;
        }
    }
    let expected = s.bin_for(440 * 65536, sample_rate);
    let diff = if peak > expected { peak - expected } else { expected - peak };
    assert!(diff <= 1, "peak bin {} is not within one of {}", peak, expected);
}
