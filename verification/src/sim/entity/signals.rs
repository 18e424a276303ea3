//! The audio engine's side of the entities: the engine and its signal
//! ids, as `screech` provides them.
use screech::{BasicTracker, Input, Output, Screech};
use vstd::prelude::*;

verus! {

/// The audio engine of `screech`, carried through opaque.
#[verifier::external_type_specification]
#[verifier::external_body]
#[verifier::reject_recursive_types(MessageData)]
pub struct ExScreech<MessageData>(Screech<MessageData>);

/// The signal identifier of `screech` (its `Input` and `Output`), carried
/// through opaque.
#[verifier::external_type_specification]
#[verifier::external_body]
pub struct ExSignalId(Output);

/// The output that `Screech::init_output` makes for a source id and a name.
pub uninterp spec fn initialized_output(source_id: usize, name: Seq<char>) -> Output;

/// The input that `Screech::init_input` makes for a source id and a name.
pub uninterp spec fn initialized_input(source_id: usize, name: Seq<char>) -> Input;

/// How many source ids the tracker of a screech keeps signals for: the ids
/// from zero up to below it. A `BasicTracker<N>` holds `N` sources in arrays
/// fixed when it is made and fails on any higher id; the `DynamicTracker` of
/// `Screech::new` grows, and keeps every `usize` id (`usize::MAX + 1`).
pub uninterp spec fn source_limit(screech: Screech) -> nat;

/// The source id that the tracker of a screech hands out next: both trackers
/// of `screech` count the ids up from zero, so this is how many ids were
/// handed out, the engine's own among them.
pub uninterp spec fn next_source_id(screech: Screech) -> usize;

/// The inputs that the tracker of a screech has registered, each with the
/// outputs connected to it, in the order in which they were connected.
pub uninterp spec fn tracker_inputs(screech: Screech) -> Map<Input, Seq<Output>>;

/// The inputs after `output` is connected to `input`: a registered input
/// takes the output at the end of its list; an unregistered one is ignored.
pub open spec fn connected(inputs: Map<Input, Seq<Output>>, output: Output, input: Input) -> Map<Input, Seq<Output>> {
    if inputs.dom().contains(input) {
        inputs.insert(input, inputs[input].push(output))
    } else {
        inputs
    }
}

/// The inputs after each pair of `conns` is connected, in order.
pub open spec fn apply_connections(inputs: Map<Input, Seq<Output>>, conns: Seq<(Output, Input)>) -> Map<
    Input,
    Seq<Output>,
>
    decreases conns.len(),
{
    if conns.len() == 0 {
        inputs
    } else {
        connected(apply_connections(inputs, conns.drop_last()), conns.last().0, conns.last().1)
    }
}

/// The outputs that `conns` feed into `input`, in order.
pub open spec fn fed_into(conns: Seq<(Output, Input)>, input: Input) -> Seq<Output>
    decreases conns.len(),
{
    if conns.len() == 0 {
        Seq::empty()
    } else if conns.last().1 == input {
        fed_into(conns.drop_last(), input).push(conns.last().0)
    } else {
        fed_into(conns.drop_last(), input)
    }
}

/// Connecting a list of pairs registers no input, and each registered input
/// ends up with its old outputs followed by those that the list feeds into
/// it, in the list's order.
pub proof fn law_connections_append(inputs: Map<Input, Seq<Output>>, conns: Seq<(Output, Input)>)
    ensures
        apply_connections(inputs, conns).dom() == inputs.dom(),
        forall|i: Input| #[trigger]
            inputs.dom().contains(i) ==> apply_connections(inputs, conns)[i] == inputs[i] + fed_into(conns, i),
    decreases conns.len(),
{
    if conns.len() > 0 {
        law_connections_append(inputs, conns.drop_last());
        let before = apply_connections(inputs, conns.drop_last());
        assert(apply_connections(inputs, conns).dom() =~= inputs.dom());
        assert forall|i: Input| #[trigger] inputs.dom().contains(i) implies apply_connections(inputs, conns)[i]
            == inputs[i] + fed_into(conns, i) by {
            if conns.last().1 == i {
                assert(inputs[i] + fed_into(conns.drop_last(), i).push(conns.last().0) =~= (inputs[i]
                    + fed_into(conns.drop_last(), i)).push(conns.last().0));
            }
        }
    } else {
        assert forall|i: Input| #[trigger] inputs.dom().contains(i) implies apply_connections(inputs, conns)[i]
            == inputs[i] + fed_into(conns, i) by {
            assert(inputs[i] + Seq::<Output>::empty() =~= inputs[i]);
        }
    }
}

/// `Screech::create_source_id`: the tracker's next id, after which the
/// tracker counts on by one (the count itself is not stated past
/// `usize::MAX`, where it overflows). The tracker's size and its inputs do
/// not change.
#[verifier::external_body]
pub(crate) fn create_source_id(screech: &mut Screech) -> (r: usize)
    ensures
        r == next_source_id(*old(screech)),
        r < usize::MAX ==> next_source_id(*final(screech)) == r + 1,
        source_limit(*final(screech)) == source_limit(*old(screech)),
        tracker_inputs(*final(screech)) == tracker_inputs(*old(screech)),
{
    screech.create_source_id()
}

/// `Screech::with_tracker` on a new `BasicTracker` of `SOURCES` sources
/// whose buffers are `buffer_size` samples long: an engine with no inputs,
/// which took the tracker's first id, zero, for itself.
#[verifier::external_body]
pub(crate) fn engine_with_sources<const SOURCES: usize>(buffer_size: usize, sample_rate: usize) -> (r: Screech)
    ensures
        source_limit(r) == SOURCES,
        next_source_id(r) == 1,
        tracker_inputs(r).dom() == Set::<Input>::empty(),
{
    Screech::with_tracker(Box::new(BasicTracker::<SOURCES>::new(buffer_size)), sample_rate)
}

/// `Screech::create_main_out`: registers a main output of the engine's own
/// source, named `signal_id`, with its input empty. The engine's own id is
/// one that its tracker handed out before, so below the next one, and the
/// tracker must keep signals for it. Its size and next id do not change.
#[verifier::external_body]
pub(crate) fn create_main_out(screech: &mut Screech, signal_id: &'static str)
    requires
        next_source_id(*old(screech)) <= source_limit(*old(screech)),
    ensures
        source_limit(*final(screech)) == source_limit(*old(screech)),
        next_source_id(*final(screech)) == next_source_id(*old(screech)),
        exists|id: usize|
            id < next_source_id(*old(screech)) && tracker_inputs(*final(screech)) == tracker_inputs(
                *old(screech),
            ).insert(initialized_input(id, signal_id@), Seq::empty()),
{
    screech.create_main_out(signal_id)
}

/// `Screech::init_output`: registers an output buffer for the source and
/// returns the signal id made of the source id and the name. The tracker
/// must keep signals for the source id. What the call does to the tracker's
/// buffers is not stated; its size and its inputs do not change.
#[verifier::external_body]
pub(crate) fn init_output(screech: &mut Screech, source_id: &usize, signal_id: &'static str) -> (r: Output)
    requires
        *source_id < source_limit(*old(screech)),
    ensures
        r == initialized_output(*source_id, signal_id@),
        source_limit(*final(screech)) == source_limit(*old(screech)),
        next_source_id(*final(screech)) == next_source_id(*old(screech)),
        tracker_inputs(*final(screech)) == tracker_inputs(*old(screech)),
{
    screech.init_output(source_id, signal_id)
}

/// `Screech::init_input`: registers an input for the source and returns the
/// signal id made of the source id and the name, registered with no output
/// connected to it (an input registered before is emptied). The tracker must
/// keep signals for the source id. Its size does not change.
#[verifier::external_body]
pub(crate) fn init_input(screech: &mut Screech, source_id: &usize, signal_id: &'static str) -> (r: Input)
    requires
        *source_id < source_limit(*old(screech)),
    ensures
        r == initialized_input(*source_id, signal_id@),
        source_limit(*final(screech)) == source_limit(*old(screech)),
        next_source_id(*final(screech)) == next_source_id(*old(screech)),
        tracker_inputs(*final(screech)) == tracker_inputs(*old(screech)).insert(r, Seq::empty()),
{
    screech.init_input(source_id, signal_id)
}

/// `Screech::connect_signal`: feeds `output` into `input`: where the input is
/// registered, the output goes at the end of its list; otherwise nothing is
/// connected. The input must belong to a source whose signals the tracker
/// keeps. Its size does not change.
#[verifier::external_body]
pub(crate) fn connect_signal(screech: &mut Screech, output: &Output, input: &Input)
    requires
        exists|id: usize, name: Seq<char>| *input == initialized_input(id, name) && id < source_limit(*old(screech)),
    ensures
        source_limit(*final(screech)) == source_limit(*old(screech)),
        next_source_id(*final(screech)) == next_source_id(*old(screech)),
        tracker_inputs(*final(screech)) == connected(tracker_inputs(*old(screech)), *output, *input),
{
    screech.connect_signal(output, input)
}

} // verus!
