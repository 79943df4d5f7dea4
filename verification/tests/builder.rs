//! The graph builder: validation order, structural errors, and successful
//! construction.

use picasound::load::{PipelineConfig, PipelineConfigNode, PipelineConfigVideo};
use picasound::options::Options;
use picasound::pipeline::{NodeFactory, NodeRegistry, NodeType};
use picasound::util::spectrum::{Bin, ComputeSpectrum, MAX_WINDOW};
use picasound::util::{Error, InvalidPipeline};

/// A transform stub: all-zero bins of the right shape.
struct ZeroTransform {
    len: usize,
}

impl ComputeSpectrum for ZeroTransform {
    fn create(window_len: usize) -> ZeroTransform {
        assert!(2 <= window_len && window_len <= MAX_WINDOW);
        ZeroTransform { len: window_len }
    }

    fn window_len(&self) -> usize {
        self.len
    }

    fn compute(&mut self, data: &Vec<i32>) -> Vec<Bin> {
        assert_eq!(data.len(), self.len);
        vec![Bin { re: 0, im: 0 }; self.len / 2 + 1]
    }
}

fn def(name: &str, node_type: &str, inputs: &[&str]) -> (String, PipelineConfigNode) {
    (
        String::from(name),
        PipelineConfigNode {
            node_type: String::from(node_type),
            inputs: inputs.iter().map(|s| String::from(*s)).collect(),
            options: Options::empty(),
        },
    )
}

fn build(
    defs: Vec<(String, PipelineConfigNode)>,
) -> Result<picasound::pipeline::Pipeline<ZeroTransform>, Error> {
    let cfg = PipelineConfig { video: None, pipeline: defs };
    cfg.pipeline::<ZeroTransform>(&NodeFactory::default(), Some(8000))
}

#[test]
fn unknown_type_is_reported_with_its_name() {
    let r = build(vec![def("a", "nope", &[])]);
    match r {
        Err(Error::UnknownNode(n)) => assert_eq!(n, "nope"),
        _ => panic!("expected an unknown-node error"),
    }
}

#[test]
fn no_sink_fails_regardless_of_size() {
    let r = build(vec![def("a", "device", &[]), def("l", "loudness", &["a"])]);
    assert!(matches!(
        r,
        Err(Error::InvalidPipeline(InvalidPipeline::SourceProcessorsSinkOrder))
    ));
    let r2 = build(vec![]);
    assert!(matches!(
        r2,
        Err(Error::InvalidPipeline(InvalidPipeline::SourceProcessorsSinkOrder))
    ));
}

#[test]
fn unknown_input_is_distinct() {
    let r = build(vec![
        def("a", "device", &[]),
        def("l", "loudness", &["zzz"]),
        def("s", "rtsp", &["r"]),
        def("r", "random-color", &[]),
    ]);
    assert!(matches!(
        r,
        Err(Error::InvalidPipeline(InvalidPipeline::UnknownInput))
    ));
}

#[test]
fn cycles_are_detected() {
    let r = build(vec![
        def("a", "average", &["b"]),
        def("b", "average", &["a"]),
        def("r", "random-color", &[]),
        def("s", "rtsp", &["r"]),
    ]);
    assert!(matches!(r, Err(Error::InvalidPipeline(InvalidPipeline::Cycle))));
}

#[test]
fn acyclic_graph_builds_in_dependency_order() {
    let p = build(vec![
        def("sink", "rtsp", &["eq"]),
        def("eq", "equalizer", &["spec"]),
        def("spec", "spectrum", &["mic"]),
        def("mic", "device", &[]),
    ])
    .unwrap();
    assert_eq!(p.node_count(), 4);
    assert_eq!(p.sinks().len(), 1);
    // Every node exists under its declared name.
    for name in ["sink", "eq", "spec", "mic"] {
        assert!(p.find_node(name).is_some());
    }
}

#[test]
fn end_to_end_needs_a_sink() {
    let defs = vec![
        def("a", "device", &[]),
        def("b", "spectrum", &["a"]),
        def("c", "equalizer", &["b"]),
    ];
    let r = build(defs);
    assert!(matches!(
        r,
        Err(Error::InvalidPipeline(InvalidPipeline::SourceProcessorsSinkOrder))
    ));

    let defs2 = vec![
        def("a", "device", &[]),
        def("b", "spectrum", &["a"]),
        def("c", "equalizer", &["b"]),
        def("d", "rtsp", &["c"]),
    ];
    let p = build(defs2).unwrap();
    assert_eq!(p.sinks().len(), 1);
}

#[test]
fn missing_device_is_a_system_error() {
    let cfg = PipelineConfig {
        video: None,
        pipeline: vec![def("a", "device", &[]), def("s", "rtsp", &["r"]), def("r", "random-color", &[])],
    };
    let r = cfg.pipeline::<ZeroTransform>(&NodeFactory::default(), None);
    assert!(matches!(r, Err(Error::System)));
}

#[test]
fn wrong_capability_is_invalid_inputs() {
    // loudness demands an audio provider; a random-color source is not one.
    let r = build(vec![
        def("r", "random-color", &[]),
        def("l", "loudness", &["r"]),
        def("s", "rtsp", &["r"]),
    ]);
    assert!(matches!(r, Err(Error::InvalidInputs)));
}

#[test]
fn video_settings_validated_with_defaults() {
    let cfg = PipelineConfig { video: None, pipeline: vec![] };
    let c = cfg.video_config().unwrap();
    assert_eq!((c.width(), c.height(), c.fps()), (1280, 720, 24));

    let cfg2 = PipelineConfig {
        video: Some(PipelineConfigVideo { width: Some(640), height: None, fps: Some(30) }),
        pipeline: vec![],
    };
    let c2 = cfg2.video_config().unwrap();
    assert_eq!((c2.width(), c2.height(), c2.fps()), (640, 720, 30));

    let cfg3 = PipelineConfig {
        video: Some(PipelineConfigVideo { width: Some(641), height: None, fps: None }),
        pipeline: vec![],
    };
    assert!(matches!(cfg3.video_config(), Err(Error::InvalidOptions)));
}

#[test]
fn registry_returns_latest_registration() {
    let mut reg = NodeRegistry::new();
    assert!(reg.get("a").is_none());
    reg.register(String::from("a"), 0);
    reg.register(String::from("b"), 1);
    reg.register(String::from("a"), 2);
    assert_eq!(reg.get("a"), Some(2));
    assert_eq!(reg.get("b"), Some(1));
    assert_eq!(reg.get("c"), None);
}

#[test]
fn factory_knows_the_builtin_type_names() {
    let f = NodeFactory::default();
    assert!(matches!(f.get("average"), Some(NodeType::Average)));
    assert!(matches!(f.get("rtsp"), Some(NodeType::Rtsp)));
    assert!(f.get("rtsp").unwrap().is_sink());
    assert!(!f.get("merge").unwrap().is_sink());
    assert!(f.get("unheard-of").is_none());
}

#[test]
fn duplicated_names_are_malformed() {
    let r = build(vec![
        def("a", "device", &[]),
        def("a", "random-color", &[]),
        def("s", "rtsp", &["a"]),
    ]);
    assert!(matches!(
        r,
        Err(Error::InvalidPipeline(InvalidPipeline::InvalidSyntax))
    ));
}
