use vstd::prelude::*;

verus! {

/// A key identifier as the back end reports it.
#[derive(Clone, Copy, Debug, PartialEq, Eq, Hash, Structural)]
pub struct Keycode(pub i32);

/// A pending input event, as far as this library tells them apart.
#[derive(Clone, Copy, Debug, PartialEq, Eq, Structural)]
pub enum InputEvent {
    Quit,
    KeyDown(Keycode),
    Other,
}

/// What one drain of the input queue yields.
#[derive(Clone, Debug, PartialEq, Eq)]
pub enum PollOutcome {
    /// A quit signal was seen; keys collected in the same drain are dropped.
    Quit,
    /// No quit signal: the key-down events, in arrival order.
    Keys(Vec<Keycode>),
}

/// Whether any of `events` is a quit signal.
pub open spec fn has_quit(events: Seq<InputEvent>) -> bool {
    exists|i: int| 0 <= i < events.len() && events[i] is Quit
}

/// The keys of the key-down events among `events`, in order.
pub open spec fn key_downs(events: Seq<InputEvent>) -> Seq<Keycode>
    decreases events.len(),
{
    if events.len() == 0 {
        Seq::empty()
    } else {
        let prev = key_downs(events.drop_last());
        match events.last() {
            InputEvent::KeyDown(k) => prev.push(k),
            _ => prev,
        }
    }
}

/// Sorts one drain of events: a quit signal wins, otherwise the key-down
/// events are returned in arrival order and every other event is ignored.
pub fn classify_events(events: &[InputEvent]) -> (r: PollOutcome)
    ensures
        has_quit(events@) ==> r == PollOutcome::Quit,
        !has_quit(events@) ==> (r matches PollOutcome::Keys(keys) && keys@ == key_downs(events@)),
{
    let mut keys: Vec<Keycode> = Vec::new();
    let mut i: usize = 0;
    while i < events.len()
        invariant
            i <= events@.len(),
            !has_quit(events@.subrange(0, i as int)),
            keys@ == key_downs(events@.subrange(0, i as int)),
        decreases events@.len() - i,
    {
        let ev = events[i];
        let ghost prefix = events@.subrange(0, i as int + 1);
        assert(prefix.drop_last() =~= events@.subrange(0, i as int));
        match ev {
            InputEvent::Quit => {
                assert(events@[i as int] is Quit);
                return PollOutcome::Quit;
            },
            InputEvent::KeyDown(k) => {
                keys.push(k);
            },
            InputEvent::Other => {},
        }
        i += 1;
        assert(!has_quit(prefix)) by {
            if has_quit(prefix) {
                let j = choose|j: int| 0 <= j < prefix.len() && prefix[j] is Quit;
                assert(events@.subrange(0, i - 1)[j] is Quit);
            }
        }
    }
    assert(events@.subrange(0, i as int) =~= events@);
    PollOutcome::Keys(keys)
}

/// With nothing queued a drain yields no keys, and a run of key-down events
/// yields their keys in the order they arrived.
pub proof fn key_downs_keep_arrival_order(keys: Seq<Keycode>)
    ensures
        !has_quit(Seq::<InputEvent>::empty()),
        key_downs(Seq::<InputEvent>::empty()) == Seq::<Keycode>::empty(),
        !has_quit(keys.map_values(|k: Keycode| InputEvent::KeyDown(k))),
        key_downs(keys.map_values(|k: Keycode| InputEvent::KeyDown(k))) == keys,
    decreases keys.len(),
{
    let events = keys.map_values(|k: Keycode| InputEvent::KeyDown(k));
    if keys.len() > 0 {
        key_downs_keep_arrival_order(keys.drop_last());
        assert(events.drop_last() =~= keys.drop_last().map_values(|k: Keycode| InputEvent::KeyDown(k)));
        assert(keys.drop_last().push(keys.last()) =~= keys);
    }
    assert(!has_quit(events)) by {
        if has_quit(events) {
            let i = choose|i: int| 0 <= i < events.len() && events[i] is Quit;
            assert(events[i] == InputEvent::KeyDown(keys[i]));
        }
    }
}

} // verus!
