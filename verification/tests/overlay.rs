use rx::error::GameError;
use rx::overlay::{exhausted, not_found, record_failure, LayerSearch, LayerStep, OverlayFS, OverlayOp};

fn debug_of(text: &str) -> String {
    format!("{:?}", std::path::Path::new(text))
}

#[test]
fn layers_keep_their_order() {
    let mut fs: OverlayFS<u32> = OverlayFS::new();
    fs.push_back(2);
    fs.push_back(3);
    fs.push_front(1);
    assert_eq!(fs.roots().iter().copied().collect::<Vec<_>>(), [1, 2, 3]);
}

fn run(layers: usize, answers: &[bool]) -> (LayerStep, usize) {
    let (mut search, mut step) = LayerSearch::start(layers);
    let mut asked = 0;
    while let LayerStep::Consult(i) = step {
        assert_eq!(i, asked);
        step = search.answer(answers[i]);
        asked += 1;
    }
    (step, asked)
}

#[test]
fn the_first_layer_that_succeeds_wins() {
    assert_eq!(run(3, &[false, true, true]), (LayerStep::Found(1), 2));
    assert_eq!(run(3, &[true, false, false]), (LayerStep::Found(0), 1));
    assert_eq!(run(3, &[false, false, false]), (LayerStep::Exhausted, 3));
    assert_eq!(run(0, &[]), (LayerStep::Exhausted, 0));
}

#[test]
fn failures_are_recorded_in_order() {
    let mut tried = Vec::new();
    record_failure(&mut tried, Some(b"/one".to_vec()), GameError::CustomError("a".into()));
    record_failure(&mut tried, None, GameError::CustomError("b".into()));
    assert_eq!(tried[0].0, b"/one");
    assert_eq!(tried[1].0, b"<invalid path>");
    assert!(matches!(&tried[1].1, GameError::CustomError(m) if m == "b"));
    match not_found(b"/res.png", tried) {
        GameError::ResourceNotFound(name, t) => {
            assert_eq!(name, "/res.png");
            assert_eq!(t.len(), 2);
        }
        other => panic!("unexpected {other:?}"),
    }
    assert!(matches!(not_found(b"/\xff", Vec::new()), GameError::FilesystemError(_)));
}

#[test]
fn exhausted_operations_name_the_path() {
    let cases = [
        (OverlayOp::Mkdir, "Could not find anywhere writeable to make dir "),
        (OverlayOp::Rm, "Could not remove file "),
        (OverlayOp::Rmrf, "Could not remove file/dir "),
        (OverlayOp::Metadata, "Could not get metadata for file/dir "),
    ];
    for (op, head) in cases {
        match exhausted(op, b"/x") {
            GameError::FilesystemError(m) => assert_eq!(m, format!("{head}{}", debug_of("/x"))),
            other => panic!("unexpected {other:?}"),
        }
    }
}
