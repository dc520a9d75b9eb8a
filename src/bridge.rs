use vstd::prelude::*;

verus! {

/// The logical level that the bridge device holds on its output.
#[derive(Clone, Copy, Debug, PartialEq, Eq, Structural)]
pub enum BridgeState {
    Low,
    High,
}

/// How a board wires its status LED relative to the output pin.
#[derive(Clone, Copy, Debug, PartialEq, Eq, Structural)]
pub struct Polarity {
    /// The LED is lit by driving it low, so it takes the opposite level of the pin.
    pub led_inverted: bool,
}

impl Polarity {
    /// A board whose LED follows the output pin.
    pub fn direct() -> (r: Polarity)
        ensures
            !r.led_inverted,
    {
        Polarity { led_inverted: false }
    }

    /// A board whose LED takes the opposite electrical level of the output pin.
    pub fn inverted_led() -> (r: Polarity)
        ensures
            r.led_inverted,
    {
        Polarity { led_inverted: true }
    }
}

/// The electrical levels to drive: `true` is high.
#[derive(Clone, Copy, Debug, PartialEq, Eq, Structural)]
pub struct OutputLevels {
    pub pin_high: bool,
    pub led_high: bool,
}

/// The levels that mirror a logical state on a board of the given polarity.
pub open spec fn levels_of(state: BridgeState, polarity: Polarity) -> OutputLevels {
    let high = state == BridgeState::High;
    OutputLevels { pin_high: high, led_high: high != polarity.led_inverted }
}

/// The byte that commands the `Low` state: ASCII `'0'`.
pub const COMMAND_LOW: u8 = 0x30;

/// The byte that commands the `High` state: ASCII `'1'`.
pub const COMMAND_HIGH: u8 = 0x31;

/// The command carried by the bytes of one read: exactly one byte, `'0'` or
/// `'1'`. Anything else is no command.
pub open spec fn decode_read(received: Seq<u8>) -> Option<BridgeState> {
    if received.len() == 1 && received[0] == COMMAND_LOW {
        Some(BridgeState::Low)
    } else if received.len() == 1 && received[0] == COMMAND_HIGH {
        Some(BridgeState::High)
    } else {
        None
    }
}

/// The state after a read: the decoded command, or the state unchanged.
pub open spec fn step(state: BridgeState, received: Seq<u8>) -> BridgeState {
    match decode_read(received) {
        Some(next) => next,
        None => state,
    }
}

/// The state after a sequence of reads, in order.
pub open spec fn step_all(state: BridgeState, reads: Seq<Seq<u8>>) -> BridgeState
    decreases reads.len(),
{
    if reads.len() == 0 {
        state
    } else {
        step_all(step(state, reads[0]), reads.drop_first())
    }
}

/// The bridge device's command handler: each read from the serial endpoint
/// yields at most one transition, mirrored onto the output pin and the LED.
pub struct Bridge {
    state: BridgeState,
    polarity: Polarity,
}

impl Bridge {
    pub closed spec fn state_spec(&self) -> BridgeState {
        self.state
    }

    pub closed spec fn polarity_spec(&self) -> Polarity {
        self.polarity
    }

    /// A device at boot, in state `Low`.
    pub fn new(polarity: Polarity) -> (r: Bridge)
        ensures
            r.state_spec() == BridgeState::Low,
            r.polarity_spec() == polarity,
    {
        Bridge { state: BridgeState::Low, polarity }
    }

    pub fn state(&self) -> (r: BridgeState)
        ensures
            r == self.state_spec(),
    {
        self.state
    }

    pub fn polarity(&self) -> (r: Polarity)
        ensures
            r == self.polarity_spec(),
    {
        self.polarity
    }

    /// The levels that the outputs must hold in the current state.
    pub fn outputs(&self) -> (r: OutputLevels)
        ensures
            r == levels_of(self.state_spec(), self.polarity_spec()),
    {
        let high = match self.state {
            BridgeState::High => true,
            BridgeState::Low => false,
        };
        OutputLevels { pin_high: high, led_high: high != self.polarity.led_inverted }
    }

    /// Handles the bytes of one read. A read of exactly one byte `'0'` or
    /// `'1'` sets the state and returns the levels to drive; any other read
    /// changes nothing and returns `None`.
    pub fn on_read(&mut self, received: &[u8]) -> (r: Option<OutputLevels>)
        ensures
            final(self).state_spec() == step(old(self).state_spec(), received@),
            final(self).polarity_spec() == old(self).polarity_spec(),
            r == match decode_read(received@) {
                Some(next) => Some(levels_of(next, old(self).polarity_spec())),
                None => None::<OutputLevels>,
            },
    {
        if received.len() != 1 {
            return None;
        }
        let next = if received[0] == COMMAND_LOW {
            BridgeState::Low
        } else if received[0] == COMMAND_HIGH {
            BridgeState::High
        } else {
            return None;
        };
        self.state = next;
        Some(self.outputs())
    }
}

/// A read of zero bytes or of two or more bytes leaves the state as it was.
pub proof fn lemma_malformed_read_ignored(state: BridgeState, received: Seq<u8>)
    requires
        received.len() != 1,
    ensures
        step(state, received) == state,
        decode_read(received) is None,
{
}

/// Deasserting a device that is already `Low` changes no level, and a
/// repeated command has the effect of a single one.
pub proof fn lemma_deassert_idempotent(state: BridgeState, polarity: Polarity)
    ensures
        step(BridgeState::Low, seq![COMMAND_LOW]) == BridgeState::Low,
        levels_of(step(BridgeState::Low, seq![COMMAND_LOW]), polarity) == levels_of(
            BridgeState::Low,
            polarity,
        ),
        step(step(state, seq![COMMAND_LOW]), seq![COMMAND_LOW]) == step(state, seq![COMMAND_LOW]),
        step(step(state, seq![COMMAND_HIGH]), seq![COMMAND_HIGH]) == step(
            state,
            seq![COMMAND_HIGH],
        ),
{
}

/// The state after a series of reads is set by the last accepted command;
/// a read that is no command keeps the state that came before it.
pub proof fn lemma_last_command_wins(state: BridgeState, reads: Seq<Seq<u8>>, last: Seq<u8>)
    ensures
        step_all(state, reads.push(last)) == step(step_all(state, reads), last),
        decode_read(last) is Some ==> step_all(state, reads.push(last)) == decode_read(
            last,
        )->Some_0,
    decreases reads.len(),
{
    if reads.len() > 0 {
        lemma_last_command_wins(step(state, reads[0]), reads.drop_first(), last);
        assert(reads.push(last)[0] == reads[0]);
        assert(reads.push(last).drop_first() =~= reads.drop_first().push(last));
    } else {
        assert(reads.push(last).drop_first() =~= Seq::<Seq<u8>>::empty());
        assert(step_all(step(state, last), Seq::<Seq<u8>>::empty()) == step(state, last));
    }
}

} // verus!
