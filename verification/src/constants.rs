//! Fixed configuration of the server: timeouts and authentication secrets.

use vstd::prelude::*;

verus! {

/// The read/write timeout that a connection runs under.
#[derive(Clone, Copy, Debug, PartialEq, Eq, Structural)]
pub enum BTimeout {
    /// The timeout of ordinary traffic.
    Normal,
    /// The longer timeout granted while the client recharges.
    Refilling,
}

impl BTimeout {
    /// The length of the timeout in seconds.
    pub open spec fn seconds(self) -> u64 {
        match self {
            BTimeout::Normal => 1,
            BTimeout::Refilling => 5,
        }
    }

    /// The length of the timeout in seconds.
    pub fn value(self) -> (secs: u64)
        ensures
            secs == self.seconds(),
    {
        match self {
            BTimeout::Normal => 1,
            BTimeout::Refilling => 5,
        }
    }
}

/// A pair of seeds for the mutual authentication hash: `s` is added on the
/// server's side, `c` on the client's.
#[derive(Clone, Copy, Debug, PartialEq, Eq, Structural)]
pub struct ServerSecret {
    pub s: u32,
    pub c: u32,
}

impl ServerSecret {
    /// The known secret pairs, in the order of their key index.
    pub open spec fn table() -> Seq<ServerSecret> {
        seq![
            ServerSecret { s: 23019, c: 32037 },
            ServerSecret { s: 32037, c: 29295 },
            ServerSecret { s: 18789, c: 13603 },
            ServerSecret { s: 16443, c: 29533 },
            ServerSecret { s: 18189, c: 21952 },
        ]
    }

    /// The known secret pairs, in the order of their key index.
    pub fn secrets() -> (table: Vec<ServerSecret>)
        ensures
            table@ == Self::table(),
    {
        let mut table: Vec<ServerSecret> = Vec::new();
        table.push(ServerSecret { s: 23019, c: 32037 });
        table.push(ServerSecret { s: 32037, c: 29295 });
        table.push(ServerSecret { s: 18789, c: 13603 });
        table.push(ServerSecret { s: 16443, c: 29533 });
        table.push(ServerSecret { s: 18189, c: 21952 });
        assert(table@ =~= Self::table());
        table
    }
}

} // verus!
