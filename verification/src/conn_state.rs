//! The directions in which a connection is still open.

use vstd::prelude::*;

verus! {

/// The directions in which a connection is still open.
#[derive(Clone, Copy, Debug, PartialEq, Eq, Structural)]
pub enum ConnState {
    ReadWrite,
    Read,
    Write,
    Closed,
}

impl Default for ConnState {
    /// A new connection is open in both directions.
    fn default() -> (r: Self)
        ensures
            r == ConnState::ReadWrite,
    {
        ConnState::ReadWrite
    }
}

impl ConnState {
    /// The connection is open for reading.
    pub open spec fn reads(self) -> bool {
        self is ReadWrite || self is Read
    }

    /// The connection is open for writing.
    pub open spec fn writes(self) -> bool {
        self is ReadWrite || self is Write
    }

    /// The state in which a connection is open for reading and for writing as given.
    pub open spec fn open_for(reads: bool, writes: bool) -> ConnState {
        if reads && writes {
            ConnState::ReadWrite
        } else if reads {
            ConnState::Read
        } else if writes {
            ConnState::Write
        } else {
            ConnState::Closed
        }
    }

    /// The state once nothing more is read.
    pub open spec fn read_shut(self) -> ConnState {
        ConnState::open_for(false, self.writes())
    }

    /// The state once nothing more is written.
    pub open spec fn write_shut(self) -> ConnState {
        ConnState::open_for(self.reads(), false)
    }

    /// Ends the reading.
    pub fn shutdown_read(&mut self)
        ensures
            *final(self) == old(self).read_shut(),
    {
        match *self {
            ConnState::ReadWrite => {
                *self = ConnState::Write;
            },
            ConnState::Read => {
                *self = ConnState::Closed;
            },
            ConnState::Write | ConnState::Closed => {},
        }
    }

    /// Ends the writing.
    pub fn shutdown_write(&mut self)
        ensures
            *final(self) == old(self).write_shut(),
    {
        match *self {
            ConnState::ReadWrite => {
                *self = ConnState::Read;
            },
            ConnState::Write => {
                *self = ConnState::Closed;
            },
            ConnState::Read | ConnState::Closed => {},
        }
    }

    /// Whether the connection is open for writing.
    pub fn can_write(&self) -> (r: bool)
        ensures
            r == self.writes(),
    {
        matches!(self, ConnState::ReadWrite | ConnState::Write)
    }

    /// The name of the state.
    pub open spec fn text(self) -> Seq<char> {
        match self {
            ConnState::ReadWrite => "ReadWrite"@,
            ConnState::Read => "Read"@,
            ConnState::Write => "Write"@,
            ConnState::Closed => "Closed"@,
        }
    }

    /// The name of the state.
    pub fn as_str(&self) -> (r: &'static str)
        ensures
            r@ == self.text(),
    {
        match self {
            ConnState::ReadWrite => "ReadWrite",
            ConnState::Read => "Read",
            ConnState::Write => "Write",
            ConnState::Closed => "Closed",
        }
    }
}

/// A state is told by the directions in which it is open.
pub proof fn law_state_is_its_directions(state: ConnState)
    ensures
        state == ConnState::open_for(state.reads(), state.writes()),
{
}

/// Ending one direction leaves the other as it is, and no direction is opened again.
pub proof fn law_shutdown_touches_one_direction(state: ConnState)
    ensures
        !state.read_shut().reads(),
        state.read_shut().writes() == state.writes(),
        !state.write_shut().writes(),
        state.write_shut().reads() == state.reads(),
{
}

/// Ending a direction twice is ending it once.
pub proof fn law_shutdown_once_is_enough(state: ConnState)
    ensures
        state.read_shut().read_shut() == state.read_shut(),
        state.write_shut().write_shut() == state.write_shut(),
{
}

/// A connection is closed once both directions have ended, in whatever order, and not before.
pub proof fn law_closed_after_both_shutdowns(state: ConnState)
    ensures
        state.read_shut().write_shut() is Closed,
        state.write_shut().read_shut() is Closed,
        state.read_shut() is Closed == !state.writes(),
        state.write_shut() is Closed == !state.reads(),
{
}

/// Which directions are open in which state.
pub proof fn law_directions_of_a_state(state: ConnState)
    ensures
        match state {
            ConnState::ReadWrite => state.reads() && state.writes(),
            ConnState::Read => state.reads() && !state.writes(),
            ConnState::Write => !state.reads() && state.writes(),
            ConnState::Closed => !state.reads() && !state.writes(),
        },
{
}

/// Different states have different names.
pub proof fn law_names_tell_states_apart(a: ConnState, b: ConnState)
    requires
        a.text() == b.text(),
    ensures
        a == b,
{
    reveal_strlit("ReadWrite");
    reveal_strlit("Read");
    reveal_strlit("Write");
    reveal_strlit("Closed");
    assert("ReadWrite"@.len() == 9 && "Read"@.len() == 4 && "Write"@.len() == 5);
    assert("Closed"@.len() == 6);
}

/// The name of a state says which directions are open.
pub proof fn law_names_of_states(state: ConnState)
    ensures
        match state {
            ConnState::ReadWrite => state.text() == seq![
                'R',
                'e',
                'a',
                'd',
                'W',
                'r',
                'i',
                't',
                'e',
            ],
            ConnState::Read => state.text() == seq!['R', 'e', 'a', 'd'],
            ConnState::Write => state.text() == seq!['W', 'r', 'i', 't', 'e'],
            ConnState::Closed => state.text() == seq!['C', 'l', 'o', 's', 'e', 'd'],
        },
{
    reveal_strlit("ReadWrite");
    reveal_strlit("Read");
    reveal_strlit("Write");
    reveal_strlit("Closed");
    assert("ReadWrite"@ =~= seq!['R', 'e', 'a', 'd', 'W', 'r', 'i', 't', 'e']);
    assert("Read"@ =~= seq!['R', 'e', 'a', 'd']);
    assert("Write"@ =~= seq!['W', 'r', 'i', 't', 'e']);
    assert("Closed"@ =~= seq!['C', 'l', 'o', 's', 'e', 'd']);
}

} // verus!
