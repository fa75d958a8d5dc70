//! Opening a connection and the write half's lifecycle: the target address,
//! the one-shot readiness signal, and the one-way close.
use vstd::prelude::*;
use vstd::string::StringExecFns;

verus! {

/// Why a connection could not be used.
#[derive(PartialEq, Eq, Structural, Clone, Copy, Debug)]
pub enum ConnectionError {
    /// The transport could not be created for the address.
    InvalidAddress,
    /// The transport failed before it opened, or never opened in time.
    NotOpened,
}

/// A send that the transport did not take.
#[derive(PartialEq, Eq, Structural, Clone, Copy, Debug)]
pub enum SendError {
    /// The write half was closed before this write.
    Closed,
    /// The transport refused the bytes.
    Rejected,
}

pub open spec fn plain_prefix() -> Seq<char> {
    seq!['w', 's', ':', '/', '/']
}

pub open spec fn secure_prefix() -> Seq<char> {
    seq!['w', 's', 's', ':', '/', '/']
}

/// The URL for `addr`, with the plaintext or the encrypted scheme.
pub open spec fn url_of(addr: Seq<char>, secure: bool) -> Seq<char> {
    (if secure { secure_prefix() } else { plain_prefix() }) + addr
}

/// Builds `ws://addr` or, when `secure`, `wss://addr`.
pub fn socket_url(addr: &str, secure: bool) -> (r: String)
    ensures
        r@ == url_of(addr@, secure),
{
    let mut s = if secure {
        proof {
            reveal_strlit("wss://");
        }
        let p = String::from_str("wss://");
        assert(p@ =~= secure_prefix());
        p
    } else {
        proof {
            reveal_strlit("ws://");
        }
        let p = String::from_str("ws://");
        assert(p@ =~= plain_prefix());
        p
    };
    s.append(addr);
    s
}

/// Where the opening of a connection stands.
#[derive(PartialEq, Eq, Structural, Clone, Copy, Debug)]
pub enum Readiness {
    Waiting,
    Ready,
    Failed,
}

/// The one-shot readiness signal that the constructor waits on: set once by
/// the open event, or failed by an error or a timeout before that.
pub struct Bootstrap {
    phase: Readiness,
}

impl Bootstrap {
    pub closed spec fn phase(&self) -> Readiness {
        self.phase
    }

    pub fn new() -> (r: Bootstrap)
        ensures
            r.phase() == Readiness::Waiting,
    {
        Bootstrap { phase: Readiness::Waiting }
    }

    /// The open event fired. Returns whether this firing set the signal; a
    /// later firing, or one after a failure, changes nothing.
    pub fn on_open(&mut self) -> (fired: bool)
        ensures
            fired == (old(self).phase() == Readiness::Waiting),
            final(self).phase() == (if fired {
                Readiness::Ready
            } else {
                old(self).phase()
            }),
    {
        if self.phase == Readiness::Waiting {
            self.phase = Readiness::Ready;
            true
        } else {
            false
        }
    }

    /// The transport failed, or the wait timed out. Only a connection still
    /// waiting is failed by it; one that opened stays open.
    pub fn on_failure(&mut self) -> (failed: bool)
        ensures
            failed == (old(self).phase() == Readiness::Waiting),
            final(self).phase() == (if failed {
                Readiness::Failed
            } else {
                old(self).phase()
            }),
    {
        if self.phase == Readiness::Waiting {
            self.phase = Readiness::Failed;
            true
        } else {
            false
        }
    }

    /// What the waiting constructor returns: nothing yet while waiting.
    pub fn outcome(&self) -> (r: Option<Result<(), ConnectionError>>)
        ensures
            r == (match self.phase() {
                Readiness::Waiting => None,
                Readiness::Ready => Some(Ok(())),
                Readiness::Failed => Some(Err(ConnectionError::NotOpened)),
            }),
    {
        match self.phase {
            Readiness::Waiting => None,
            Readiness::Ready => Some(Ok(())),
            Readiness::Failed => Some(Err(ConnectionError::NotOpened)),
        }
    }
}

/// The write half's view of the shared transport: open until the first close.
pub struct WriterState {
    closed: bool,
}

impl WriterState {
    pub closed spec fn is_closed(&self) -> bool {
        self.closed
    }

    pub fn new() -> (r: WriterState)
        ensures
            !r.is_closed(),
    {
        WriterState { closed: false }
    }

    /// Whether a write of `len` bytes may be handed to the transport: the
    /// whole length, or `Closed` after a close.
    pub fn admit_write(&self, len: usize) -> (r: Result<usize, SendError>)
        ensures
            r == (if self.is_closed() {
                Err(SendError::Closed)
            } else {
                Ok(len)
            }),
    {
        if self.closed {
            Err(SendError::Closed)
        } else {
            Ok(len)
        }
    }

    /// What a write reports once the transport's send returned: all of
    /// `len` when it took the bytes, else `Rejected`.
    pub fn write_result(len: usize, sent: bool) -> (r: Result<usize, SendError>)
        ensures
            r == (if sent {
                Ok(len)
            } else {
                Err(SendError::Rejected)
            }),
    {
        if sent {
            Ok(len)
        } else {
            Err(SendError::Rejected)
        }
    }

    /// Closes the write half. Returns whether the transport must now be torn
    /// down: only the first close does; later ones change nothing.
    pub fn close(&mut self) -> (teardown: bool)
        ensures
            teardown == !old(self).is_closed(),
            final(self).is_closed(),
    {
        if self.closed {
            false
        } else {
            self.closed = true;
            true
        }
    }
}

} // verus!
