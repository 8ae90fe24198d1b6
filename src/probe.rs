//! Classification of one connection attempt into a scan result.
use vstd::prelude::*;
use crate::address::Address;

verus! {

/// Largest number of banner bytes kept from one connection.
pub const BANNER_LIMIT: usize = 64;

/// The state reported for one (address, port) pair.
#[derive(Clone, Copy, Debug, PartialEq, Eq, Structural)]
pub enum PortState {
    Open,
    Closed,
    Timeout,
    Error,
}

/// How one connection attempt ended, as observed by the caller.
#[derive(Clone, Copy, Debug, PartialEq, Eq, Structural)]
pub enum ConnectOutcome {
    /// The connection was established within the timeout.
    Connected,
    /// The peer actively refused the connection.
    Refused,
    /// The attempt failed otherwise before the timeout (unreachable, reset,
    /// or the probe task itself failed).
    Failed,
    /// Neither success nor failure before the timeout.
    TimedOut,
}

/// The state that an attempt's ending maps to; an explicit refusal is `Closed`.
pub open spec fn state_of(c: ConnectOutcome) -> PortState {
    match c {
        ConnectOutcome::Connected => PortState::Open,
        ConnectOutcome::Refused => PortState::Closed,
        ConnectOutcome::Failed => PortState::Error,
        ConnectOutcome::TimedOut => PortState::Timeout,
    }
}

/// The lowercase name of a state.
pub open spec fn state_label(s: PortState) -> Seq<char> {
    match s {
        PortState::Open => "open"@,
        PortState::Closed => "closed"@,
        PortState::Timeout => "timeout"@,
        PortState::Error => "error"@,
    }
}

impl PortState {
    /// The state an attempt's ending maps to.
    pub fn from_outcome(c: ConnectOutcome) -> (r: PortState)
        ensures
            r == state_of(c),
    {
        match c {
            ConnectOutcome::Connected => PortState::Open,
            ConnectOutcome::Refused => PortState::Closed,
            ConnectOutcome::Failed => PortState::Error,
            ConnectOutcome::TimedOut => PortState::Timeout,
        }
    }

    /// The lowercase name of the state, as reports print it.
    pub fn as_str(&self) -> (r: &'static str)
        ensures
            r@ == state_label(*self),
    {
        match self {
            PortState::Open => "open",
            PortState::Closed => "closed",
            PortState::Timeout => "timeout",
            PortState::Error => "error",
        }
    }
}

/// What `String::from_utf8_lossy` makes of a byte sequence.
pub uninterp spec fn lossy_text_of(b: Seq<u8>) -> Seq<char>;

/// Relies on `String::from_utf8_lossy`: valid UTF-8 is decoded and each
/// invalid sequence is replaced, so decoding never fails.
#[verifier::external_body]
fn decode_lossy(b: &[u8]) -> (r: String)
    ensures
        r@ == lossy_text_of(b@),
{
    String::from_utf8_lossy(b).into_owned()
}

/// The first `BANNER_LIMIT` bytes of `b`.
pub open spec fn banner_bytes(b: Seq<u8>) -> Seq<u8> {
    if b.len() <= BANNER_LIMIT { b } else { b.take(BANNER_LIMIT as int) }
}

/// The banner kept for an attempt: only for an established connection, with
/// capture on, and when some data arrived.
pub open spec fn banner_of(c: ConnectOutcome, capture: bool, data: Option<Seq<u8>>) -> Option<Seq<char>> {
    match data {
        Some(b) => if c == ConnectOutcome::Connected && capture && b.len() > 0 {
            Some(lossy_text_of(banner_bytes(b)))
        } else {
            None
        },
        None => None,
    }
}

/// The view of an optional text.
pub open spec fn text_view(o: Option<String>) -> Option<Seq<char>> {
    match o {
        Some(s) => Some(s@),
        None => None,
    }
}

/// The view of optional bytes.
pub open spec fn bytes_view(o: Option<Vec<u8>>) -> Option<Seq<u8>> {
    match o {
        Some(b) => Some(b@),
        None => None,
    }
}

/// The outcome of probing one (address, port) pair.
#[derive(Debug)]
pub struct ScanResult {
    pub ip: Address,
    pub port: u16,
    pub state: PortState,
    pub banner: Option<String>,
}

/// Lets a caller derive extra text from each result.
pub trait ScanPlugin: Send + Sync {
    fn process(&self, result: &ScanResult) -> Option<String>;
}

/// The first `BANNER_LIMIT` bytes of `b`.
fn clip_banner(b: &Vec<u8>) -> (r: Vec<u8>)
    ensures
        r@ == banner_bytes(b@),
{
    let n: usize = if b.len() <= BANNER_LIMIT { b.len() } else { BANNER_LIMIT };
    let mut out: Vec<u8> = Vec::new();
    let mut i: usize = 0;
    while i < n
        invariant
            n <= b.len(),
            n == banner_bytes(b@).len(),
            i <= n,
            out@ == b@.take(i as int),
        decreases n - i,
    {
        out.push(b[i]);
        i = i + 1;
        assert(out@ =~= b@.take(i as int));
    }
    assert(out@ =~= banner_bytes(b@));
    out
}

impl ScanResult {
    /// Builds the result of one attempt against `ip:port`. `data` is what
    /// was read from the connection, if a read was made.
    pub fn from_probe(
        ip: Address,
        port: u16,
        outcome: ConnectOutcome,
        data: Option<Vec<u8>>,
        capture: bool,
    ) -> (r: ScanResult)
        ensures
            r.ip == ip,
            r.port == port,
            r.state == state_of(outcome),
            text_view(r.banner) == banner_of(outcome, capture, bytes_view(data)),
            r.banner is Some ==> r.state == PortState::Open && capture,
    {
        let state = PortState::from_outcome(outcome);
        let banner = match data {
            Some(b) => {
                if outcome == ConnectOutcome::Connected && capture && b.len() > 0 {
                    let kept = clip_banner(&b);
                    Some(decode_lossy(kept.as_slice()))
                } else {
                    None
                }
            },
            None => None,
        };
        ScanResult { ip, port, state, banner }
    }
}

} // verus!
