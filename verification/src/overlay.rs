use std::collections::VecDeque;
use vstd::prelude::*;
use vstd::string::StringSliceAdditionalSpecFns;
use vstd::utf8::*;
use crate::error::{is_fs_error, GameError};
use crate::path::{convenient_path_to_str, invalid_format_message};
use crate::text::{concat, show_path, shown};

verus! {

/// Several filesystems joined in order: an operation goes to each layer in
/// turn, front to back, until one of them carries it out.
#[derive(Debug)]
#[allow(clippy::upper_case_acronyms)]
pub struct OverlayFS<L> {
    roots: VecDeque<L>,
}

impl<L> OverlayFS<L> {
    /// The layers, front first.
    pub closed spec fn layers(&self) -> Seq<L> {
        self.roots@
    }

    pub fn new() -> (fs: OverlayFS<L>)
        ensures
            fs.layers() == Seq::<L>::empty(),
    {
        OverlayFS { roots: VecDeque::new() }
    }

    /// Adds a new VFS to the front of the list.
    pub fn push_front(&mut self, fs: L)
        ensures
            final(self).layers() == seq![fs] + old(self).layers(),
    {
        self.roots.push_front(fs);
    }

    /// Adds a new VFS to the end of the list.
    pub fn push_back(&mut self, fs: L)
        ensures
            final(self).layers() == old(self).layers().push(fs),
    {
        self.roots.push_back(fs);
    }

    /// The layers, front first.
    pub fn roots(&self) -> (r: &VecDeque<L>)
        ensures
            r@ == self.layers(),
    {
        &self.roots
    }
}

/// What to do next in a search over the layers of an overlay.
#[derive(Debug, Copy, Clone, PartialEq, Eq, Structural)]
pub enum LayerStep {
    /// Ask the layer with this index.
    Consult(usize),
    /// The layer with this index carried the operation out.
    Found(usize),
    /// Every layer was asked and none carried it out.
    Exhausted,
}

/// The index of the first layer that carried the operation out, given the
/// answers of the layers asked so far, in order.
pub open spec fn first_hit(answers: Seq<bool>) -> Option<nat>
    decreases answers.len(),
{
    if answers.len() == 0 {
        None
    } else {
        match first_hit(answers.drop_last()) {
            Some(i) => Some(i),
            None => if answers.last() {
                Some((answers.len() - 1) as nat)
            } else {
                None
            },
        }
    }
}

/// What to do after the given answers of `layers` layers: stop at the first
/// layer that carried the operation out, else ask the next one, else give up.
pub open spec fn next_step(layers: nat, answers: Seq<bool>) -> LayerStep {
    match first_hit(answers) {
        Some(i) => LayerStep::Found(i as usize),
        None => if answers.len() < layers {
            LayerStep::Consult(answers.len() as usize)
        } else {
            LayerStep::Exhausted
        },
    }
}

/// The search of an operation over the layers of an overlay. The layers
/// themselves are asked by the caller, who reports each answer.
pub struct LayerSearch {
    layers: usize,
    asked: usize,
    hit: Option<usize>,
    answers: Ghost<Seq<bool>>,
}

impl LayerSearch {
    /// How many layers are searched.
    pub closed spec fn layer_count(&self) -> nat {
        self.layers as nat
    }

    /// The answers reported so far, in order: whether each layer asked
    /// carried the operation out.
    pub closed spec fn answers(&self) -> Seq<bool> {
        self.answers@
    }

    /// The state matches the answers reported.
    pub closed spec fn wf(&self) -> bool {
        &&& self.asked == self.answers@.len()
        &&& self.asked <= self.layers
        &&& self.hit == match first_hit(self.answers@) {
            Some(i) => Some(i as usize),
            None => None::<usize>,
        }
        &&& first_hit(self.answers@) matches Some(i) ==> i == self.asked - 1
    }

    /// What to do next in this search.
    pub open spec fn step(&self) -> LayerStep {
        next_step(self.layer_count(), self.answers())
    }

    /// A search over `layers` layers, and its first step.
    pub fn start(layers: usize) -> (r: (LayerSearch, LayerStep))
        ensures
            r.0.wf(),
            r.0.layer_count() == layers,
            r.0.answers() == Seq::<bool>::empty(),
            r.1 == r.0.step(),
            layers > 0 ==> r.1 == LayerStep::Consult(0),
            layers == 0 ==> r.1 == LayerStep::Exhausted,
    {
        let s = LayerSearch { layers, asked: 0, hit: None, answers: Ghost(Seq::empty()) };
        if layers == 0 {
            (s, LayerStep::Exhausted)
        } else {
            (s, LayerStep::Consult(0))
        }
    }

    /// Reports whether the layer last consulted carried the operation out,
    /// and gives the next step.
    pub fn answer(&mut self, carried_out: bool) -> (step: LayerStep)
        requires
            old(self).wf(),
            old(self).step() is Consult,
        ensures
            final(self).wf(),
            final(self).layer_count() == old(self).layer_count(),
            final(self).answers() == old(self).answers().push(carried_out),
            step == final(self).step(),
            carried_out ==> step == LayerStep::Found(old(self).answers().len() as usize),
            !carried_out && old(self).answers().len() + 1 < old(self).layer_count() ==> step
                == LayerStep::Consult((old(self).answers().len() + 1) as usize),
            !carried_out && old(self).answers().len() + 1 >= old(self).layer_count() ==> step
                is Exhausted,
    {
        assert(self.answers@.push(carried_out).drop_last() =~= self.answers@);
        self.answers = Ghost(self.answers@.push(carried_out));
        let i = self.asked;
        self.asked = self.asked + 1;
        if carried_out {
            self.hit = Some(i);
            LayerStep::Found(i)
        } else if self.asked < self.layers {
            LayerStep::Consult(self.asked)
        } else {
            LayerStep::Exhausted
        }
    }
}

/// A search ends at the first layer that carried the operation out, after
/// every layer before it failed; it gives up only after all layers were
/// asked and failed; and otherwise it consults the next layer in order.
pub proof fn law_first_success_wins(layers: nat, answers: Seq<bool>)
    ensures
        first_hit(answers) matches Some(i) ==> i < answers.len() && answers[i as int] && forall|
            j: int,
        | 0 <= j < i ==> !answers[j],
        first_hit(answers) is None ==> forall|j: int| 0 <= j < answers.len() ==> !answers[j],
        next_step(layers, answers) is Exhausted ==> answers.len() >= layers && first_hit(answers) is None,
        next_step(layers, answers) is Consult ==> answers.len() < layers && first_hit(answers) is None,
        layers <= usize::MAX ==> (next_step(layers, answers) matches LayerStep::Consult(k) ==> k
            == answers.len()),
        layers > 0 ==> next_step(layers, Seq::empty()) == LayerStep::Consult(0),
    decreases answers.len(),
{
    if answers.len() > 0 {
        let prev = answers.drop_last();
        law_first_success_wins(layers, prev);
        assert forall|j: int| 0 <= j < prev.len() implies prev[j] == answers[j] by {}
    }
}

/// The bytes recorded for a layer that cannot say where it is rooted.
pub open spec fn invalid_path_marker() -> Seq<u8> {
    encode_utf8("<invalid path>"@)
}

/// Records that the layer rooted at `source` (if it can say) failed to open a
/// file with the error `e`.
pub fn record_failure(tried: &mut Vec<(Vec<u8>, GameError)>, source: Option<Vec<u8>>, e: GameError)
    ensures
        final(tried)@.len() == old(tried)@.len() + 1,
        final(tried)@.drop_last() == old(tried)@,
        final(tried)@.last().0@ == match source {
            Some(p) => p@,
            None => invalid_path_marker(),
        },
        final(tried)@.last().1 == e,
{
    let at = match source {
        Some(p) => p,
        None => vstd::slice::slice_to_vec("<invalid path>".as_bytes()),
    };
    tried.push((at, e));
    assert(tried@.drop_last() =~= old(tried)@);
}

/// The error for a file that no layer could open: the layers tried and their
/// errors, in order, under the path asked for; or, when the path is not
/// text, the error saying so.
pub fn not_found(path: &[u8], tried: Vec<(Vec<u8>, GameError)>) -> (e: GameError)
    ensures
        valid_utf8(path@) ==> (e matches GameError::ResourceNotFound(name, t) && name@ == decode_utf8(
            path@,
        ) && t@ == tried@),
        !valid_utf8(path@) ==> is_fs_error(e, invalid_format_message(path@)),
{
    match convenient_path_to_str(path) {
        Ok(name) => GameError::ResourceNotFound(name.to_owned(), tried),
        Err(e) => e,
    }
}

/// An operation that an overlay passes on to its layers.
#[derive(Debug, Copy, Clone, PartialEq, Eq, Structural)]
pub enum OverlayOp {
    Mkdir,
    Rm,
    Rmrf,
    Metadata,
}

/// The start of the message for an operation that no layer carried out.
pub open spec fn exhausted_prefix(op: OverlayOp) -> Seq<char> {
    match op {
        OverlayOp::Mkdir => "Could not find anywhere writeable to make dir "@,
        OverlayOp::Rm => "Could not remove file "@,
        OverlayOp::Rmrf => "Could not remove file/dir "@,
        OverlayOp::Metadata => "Could not get metadata for file/dir "@,
    }
}

/// The error for the operation `op` on `path` that no layer carried out.
pub fn exhausted(op: OverlayOp, path: &[u8]) -> (e: GameError)
    ensures
        is_fs_error(e, exhausted_prefix(op) + shown(path@)),
{
    let head = match op {
        OverlayOp::Mkdir => "Could not find anywhere writeable to make dir ",
        OverlayOp::Rm => "Could not remove file ",
        OverlayOp::Rmrf => "Could not remove file/dir ",
        OverlayOp::Metadata => "Could not get metadata for file/dir ",
    };
    let shown_path = show_path(path);
    GameError::FilesystemError(concat(head, shown_path.as_str()))
}

} // verus!
