use vstd::prelude::*;

verus! {

/// Delay before the first reconnect attempt, in milliseconds.
pub const BACKOFF_BASE_MS: u64 = 500;

/// Upper bound on any reconnect delay, in milliseconds.
pub const BACKOFF_MAX_MS: u64 = 30_000;

/// Keep-alive interval negotiated with the broker, in seconds.
pub const KEEP_ALIVE_SECS: u64 = 30;

/// Where the subscriber's connection stands. `attempt` counts the transport
/// failures since the connection last worked.
#[derive(Clone, Copy, Debug, PartialEq, Eq, Structural)]
pub enum LinkState {
    Disconnected,
    Connecting { attempt: u32 },
    Connected,
    Subscribed,
    Receiving,
    ShutdownRequested,
}

/// What the transport reported, or what the process asked for.
#[derive(Clone, Copy, Debug, PartialEq, Eq, Structural)]
pub enum LinkEvent {
    Start,
    ConnAck,
    SubAck,
    Publish,
    PingResp,
    TransportError,
    Shutdown,
    Other,
}

/// What the driver of the connection does next.
#[derive(Clone, Copy, Debug, PartialEq, Eq, Structural)]
pub enum LinkAction {
    /// Open the connection.
    Connect,
    /// Subscribe to the topic at least once.
    Subscribe,
    /// Validate the message just received and store it.
    Process,
    /// Wait `backoff_delay_ms(attempt, ..)` and then reconnect.
    Retry { attempt: u32 },
    /// Close the connection and end the loop.
    Stop,
    /// Nothing beyond noting the event.
    Nothing,
}

/// The transition table of the subscriber.
pub open spec fn next(state: LinkState, event: LinkEvent) -> (LinkState, LinkAction) {
    match (state, event) {
        (LinkState::ShutdownRequested, _) => (state, LinkAction::Nothing),
        (_, LinkEvent::Shutdown) => (LinkState::ShutdownRequested, LinkAction::Stop),
        (LinkState::Disconnected, LinkEvent::Start) => (
            LinkState::Connecting { attempt: 0 },
            LinkAction::Connect,
        ),
        (_, LinkEvent::TransportError) => {
            let attempt = match state {
                LinkState::Connecting { attempt } => if attempt < u32::MAX {
                    (attempt + 1) as u32
                } else {
                    attempt
                },
                _ => 1,
            };
            (LinkState::Connecting { attempt }, LinkAction::Retry { attempt })
        },
        (_, LinkEvent::ConnAck) => (LinkState::Connected, LinkAction::Subscribe),
        (LinkState::Connected, LinkEvent::SubAck) => (LinkState::Subscribed, LinkAction::Nothing),
        (_, LinkEvent::Publish) => (LinkState::Receiving, LinkAction::Process),
        _ => (state, LinkAction::Nothing),
    }
}

/// Decides the next state and action of the subscriber.
pub fn step(state: LinkState, event: LinkEvent) -> (r: (LinkState, LinkAction))
    ensures
        r == next(state, event),
{
    match (state, event) {
        (LinkState::ShutdownRequested, _) => (state, LinkAction::Nothing),
        (_, LinkEvent::Shutdown) => (LinkState::ShutdownRequested, LinkAction::Stop),
        (LinkState::Disconnected, LinkEvent::Start) => (
            LinkState::Connecting { attempt: 0 },
            LinkAction::Connect,
        ),
        (_, LinkEvent::TransportError) => {
            let attempt = match state {
                LinkState::Connecting { attempt } => if attempt < u32::MAX {
                    attempt + 1
                } else {
                    attempt
                },
                _ => 1,
            };
            (LinkState::Connecting { attempt }, LinkAction::Retry { attempt })
        },
        (_, LinkEvent::ConnAck) => (LinkState::Connected, LinkAction::Subscribe),
        (LinkState::Connected, LinkEvent::SubAck) => (LinkState::Subscribed, LinkAction::Nothing),
        (_, LinkEvent::Publish) => (LinkState::Receiving, LinkAction::Process),
        _ => (state, LinkAction::Nothing),
    }
}

/// Until shutdown is requested, a transport fault in any state leads back to
/// connecting, with a wait before the retry.
pub proof fn lemma_faults_reconnect(state: LinkState)
    requires
        state != LinkState::ShutdownRequested,
    ensures
        next(state, LinkEvent::TransportError).0 is Connecting,
        next(state, LinkEvent::TransportError).1 is Retry,
        next(state, LinkEvent::TransportError).1->Retry_attempt >= 1,
{
}

/// Shutdown is terminal: once requested, no event leaves that state.
pub proof fn lemma_shutdown_terminal(state: LinkState, event: LinkEvent)
    ensures
        next(state, LinkEvent::Shutdown).0 == LinkState::ShutdownRequested,
        state == LinkState::ShutdownRequested ==> next(state, event) == (
            state,
            LinkAction::Nothing,
        ),
{
}

/// The longest wait before reconnect attempt `attempt`: the base delay,
/// doubled for each earlier failure, never above the maximum.
pub open spec fn backoff_ceiling(attempt: nat) -> nat
    decreases attempt,
{
    if attempt <= 1 {
        BACKOFF_BASE_MS as nat
    } else {
        let prev = backoff_ceiling((attempt - 1) as nat);
        if 2 * prev < BACKOFF_MAX_MS {
            2 * prev
        } else {
            BACKOFF_MAX_MS as nat
        }
    }
}

proof fn lemma_ceiling_bounds(attempt: nat)
    ensures
        BACKOFF_BASE_MS <= backoff_ceiling(attempt) <= BACKOFF_MAX_MS,
    decreases attempt,
{
    if attempt > 1 {
        lemma_ceiling_bounds((attempt - 1) as nat);
    }
}

/// The wait before reconnect attempt `attempt`, in milliseconds, with equal
/// jitter: half the ceiling plus `jitter` reduced into the other half.
pub open spec fn backoff_spec(attempt: nat, jitter: nat) -> nat {
    let c = backoff_ceiling(attempt);
    (c / 2 + jitter % ((c - c / 2 + 1) as nat)) as nat
}

/// The wait before reconnect attempt `attempt`; `jitter` is any random value.
pub fn backoff_delay_ms(attempt: u32, jitter: u64) -> (r: u64)
    ensures
        r == backoff_spec(attempt as nat, jitter as nat),
        backoff_ceiling(attempt as nat) / 2 <= r <= backoff_ceiling(attempt as nat),
        r <= BACKOFF_MAX_MS,
{
    let mut ceiling: u64 = BACKOFF_BASE_MS;
    let mut k: u32 = 1;
    while k < attempt && ceiling < BACKOFF_MAX_MS
        invariant
            1 <= k,
            k <= attempt || k == 1,
            ceiling == backoff_ceiling(k as nat),
            BACKOFF_BASE_MS <= ceiling <= BACKOFF_MAX_MS,
        decreases attempt - k,
    {
        ceiling = if 2 * ceiling < BACKOFF_MAX_MS {
            2 * ceiling
        } else {
            BACKOFF_MAX_MS
        };
        k += 1;
    }
    proof {
        lemma_ceiling_settles(k as nat, attempt as nat);
    }
    let half = ceiling / 2;
    half + jitter % (ceiling - half + 1)
}

/// Once the ceiling reaches the maximum it stays there; below it, attempts
/// under two have the base ceiling.
proof fn lemma_ceiling_settles(k: nat, attempt: nat)
    requires
        1 <= k,
        k <= attempt || k == 1,
        k >= attempt || backoff_ceiling(k) >= BACKOFF_MAX_MS,
    ensures
        backoff_ceiling(attempt) == backoff_ceiling(k),
    decreases attempt - k,
{
    lemma_ceiling_bounds(k);
    if attempt > k {
        assert(backoff_ceiling(k + 1) == backoff_ceiling(k));
        lemma_ceiling_settles(k + 1, attempt);
    } else if attempt < k {
        assert(backoff_ceiling(attempt) == BACKOFF_BASE_MS);
        assert(backoff_ceiling(k) == BACKOFF_BASE_MS);
    }
}

} // verus!
