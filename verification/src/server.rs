//! The socket-server core: the per-listener accept/receive state machine
//! with its consecutive-error circuit breaker, the fixed-capacity response
//! framing for both transports, the selection of live listeners out of the
//! configured addresses, and the startup assessment that decides between
//! running, warning and aborting.

use vstd::prelude::*;
use crate::addr::{Address, addr_text};
use crate::text::{dec_text, write_bounded};

verus! {

/// Number of consecutive accept/receive failures after which a transport
/// loop tears itself down.
pub const ERROR_THRESHOLD: u32 = 10;

/// Size in bytes of the fixed TCP response buffer.
pub const TCP_RESPONSE_SIZE: usize = 256;

/// Size in bytes of the UDP receive buffer, and the cap on a UDP reply.
pub const UDP_BUF_SIZE: usize = 1400;

/// `you: `
pub open spec fn you_prefix() -> Seq<u8> {
    seq![('y' as u8), ('o' as u8), ('u' as u8), (':' as u8), (' ' as u8)]
}

/// ` | connection_number: `
pub open spec fn connection_label() -> Seq<u8> {
    seq![
        (' ' as u8),
        ('|' as u8),
        (' ' as u8),
        ('c' as u8),
        ('o' as u8),
        ('n' as u8),
        ('n' as u8),
        ('e' as u8),
        ('c' as u8),
        ('t' as u8),
        ('i' as u8),
        ('o' as u8),
        ('n' as u8),
        ('_' as u8),
        ('n' as u8),
        ('u' as u8),
        ('m' as u8),
        ('b' as u8),
        ('e' as u8),
        ('r' as u8),
        (':' as u8),
        (' ' as u8),
    ]
}

/// ` | bytes: `
pub open spec fn bytes_label() -> Seq<u8> {
    seq![
        (' ' as u8),
        ('|' as u8),
        (' ' as u8),
        ('b' as u8),
        ('y' as u8),
        ('t' as u8),
        ('e' as u8),
        ('s' as u8),
        (':' as u8),
        (' ' as u8),
    ]
}

/// ` | packet_number: `
pub open spec fn packet_label() -> Seq<u8> {
    seq![
        (' ' as u8),
        ('|' as u8),
        (' ' as u8),
        ('p' as u8),
        ('a' as u8),
        ('c' as u8),
        ('k' as u8),
        ('e' as u8),
        ('t' as u8),
        ('_' as u8),
        ('n' as u8),
        ('u' as u8),
        ('m' as u8),
        ('b' as u8),
        ('e' as u8),
        ('r' as u8),
        (':' as u8),
        (' ' as u8),
    ]
}

/// Body of a TCP reply: `you: {remote} | connection_number: {n}`.
pub open spec fn tcp_text(remote: Address, n: u64) -> Seq<u8> {
    you_prefix() + addr_text(remote) + connection_label() + dec_text(n as nat)
}

/// Body of a UDP reply:
/// `you: {remote} | bytes: {received} | packet_number: {n}`.
pub open spec fn udp_text(remote: Address, received: nat, n: u64) -> Seq<u8> {
    you_prefix() + addr_text(remote) + bytes_label() + dec_text(received) + packet_label()
        + dec_text(n as nat)
}

/// `text` fitted into a buffer of exactly `size` bytes: truncated when too
/// long, zero-padded on the right when shorter.
pub open spec fn framed(text: Seq<u8>, size: nat) -> Seq<u8> {
    if text.len() >= size {
        text.take(size as int)
    } else {
        text + Seq::<u8>::new((size - text.len()) as nat, |i: int| 0u8)
    }
}

/// `text` clipped to at most `cap` bytes.
pub open spec fn clipped(text: Seq<u8>, cap: nat) -> Seq<u8> {
    if text.len() <= cap {
        text
    } else {
        text.take(cap as int)
    }
}

fn push_you_prefix(out: &mut Vec<u8>)
    ensures
        final(out)@ == old(out)@ + you_prefix(),
{
    out.push('y' as u8);
    out.push('o' as u8);
    out.push('u' as u8);
    out.push(':' as u8);
    out.push(' ' as u8);
    proof {
        assert(out@ =~= old(out)@ + you_prefix());
    }
}

fn push_label_sep(out: &mut Vec<u8>)
    ensures
        final(out)@ == old(out)@ + seq![(' ' as u8), ('|' as u8), (' ' as u8)],
{
    out.push(' ' as u8);
    out.push('|' as u8);
    out.push(' ' as u8);
    proof {
        assert(out@ =~= old(out)@ + seq![(' ' as u8), ('|' as u8), (' ' as u8)]);
    }
}

fn push_connection_label(out: &mut Vec<u8>)
    ensures
        final(out)@ == old(out)@ + connection_label(),
{
    push_label_sep(out);
    out.push('c' as u8);
    out.push('o' as u8);
    out.push('n' as u8);
    out.push('n' as u8);
    out.push('e' as u8);
    out.push('c' as u8);
    out.push('t' as u8);
    out.push('i' as u8);
    out.push('o' as u8);
    out.push('n' as u8);
    out.push('_' as u8);
    out.push('n' as u8);
    out.push('u' as u8);
    out.push('m' as u8);
    out.push('b' as u8);
    out.push('e' as u8);
    out.push('r' as u8);
    out.push(':' as u8);
    out.push(' ' as u8);
    proof {
        assert(out@ =~= old(out)@ + connection_label());
    }
}

fn push_bytes_label(out: &mut Vec<u8>)
    ensures
        final(out)@ == old(out)@ + bytes_label(),
{
    push_label_sep(out);
    out.push('b' as u8);
    out.push('y' as u8);
    out.push('t' as u8);
    out.push('e' as u8);
    out.push('s' as u8);
    out.push(':' as u8);
    out.push(' ' as u8);
    proof {
        assert(out@ =~= old(out)@ + bytes_label());
    }
}

fn push_packet_label(out: &mut Vec<u8>)
    ensures
        final(out)@ == old(out)@ + packet_label(),
{
    push_label_sep(out);
    out.push('p' as u8);
    out.push('a' as u8);
    out.push('c' as u8);
    out.push('k' as u8);
    out.push('e' as u8);
    out.push('t' as u8);
    out.push('_' as u8);
    out.push('n' as u8);
    out.push('u' as u8);
    out.push('m' as u8);
    out.push('b' as u8);
    out.push('e' as u8);
    out.push('r' as u8);
    out.push(':' as u8);
    out.push(' ' as u8);
    proof {
        assert(out@ =~= old(out)@ + packet_label());
    }
}

fn push_byte_seq(out: &mut Vec<u8>, s: &Vec<u8>)
    ensures
        final(out)@ == old(out)@ + s@,
{
    let mut k: usize = 0;
    proof {
        assert(out@ =~= old(out)@ + s@.take(0));
    }
    while k < s.len()
        invariant
            k <= s@.len(),
            out@ == old(out)@ + s@.take(k as int),
        decreases s@.len() - k,
    {
        let b = s[k];
        out.push(b);
        proof {
            assert(out@ =~= old(out)@ + s@.take((k + 1) as int));
        }
        k = k + 1;
    }
    proof {
        assert(s@.take(s@.len() as int) =~= s@);
    }
}

/// Builds the full 256-byte TCP reply for a connection from `remote` with
/// connection number `n`: the body text, zero-padded (or truncated) to the
/// fixed buffer size.
pub fn tcp_response(remote: &Address, n: u64) -> (r: Vec<u8>)
    ensures
        r@ == framed(tcp_text(*remote, n), TCP_RESPONSE_SIZE as nat),
        r@.len() == TCP_RESPONSE_SIZE,
{
    let mut text: Vec<u8> = Vec::new();
    push_you_prefix(&mut text);
    let addr = crate::addr::address_text(remote);
    push_byte_seq(&mut text, &addr);
    push_connection_label(&mut text);
    crate::text::push_dec_u64(&mut text, n);
    proof {
        assert(text@ =~= tcp_text(*remote, n));
    }
    let mut buf: Vec<u8> = Vec::new();
    let mut z: usize = 0;
    while z < TCP_RESPONSE_SIZE
        invariant
            z <= TCP_RESPONSE_SIZE,
            buf@.len() == z,
            forall|i: int| 0 <= i < z ==> buf@[i] == 0u8,
        decreases TCP_RESPONSE_SIZE - z,
    {
        buf.push(0u8);
        z = z + 1;
    }
    write_bounded(&mut buf, &text);
    proof {
        assert(buf@ =~= framed(tcp_text(*remote, n), TCP_RESPONSE_SIZE as nat));
    }
    buf
}

/// Builds the UDP reply for a datagram of `received` bytes from `remote`
/// with packet number `n`: the body text, clipped to the buffer size.
pub fn udp_response(remote: &Address, received: usize, n: u64) -> (r: Vec<u8>)
    ensures
        r@ == clipped(udp_text(*remote, received as nat, n), UDP_BUF_SIZE as nat),
{
    let mut text: Vec<u8> = Vec::new();
    push_you_prefix(&mut text);
    let addr = crate::addr::address_text(remote);
    push_byte_seq(&mut text, &addr);
    push_bytes_label(&mut text);
    crate::text::push_dec_u64(&mut text, received as u64);
    push_packet_label(&mut text);
    crate::text::push_dec_u64(&mut text, n);
    proof {
        assert(text@ =~= udp_text(*remote, received as nat, n));
    }
    if text.len() > UDP_BUF_SIZE {
        text.truncate(UDP_BUF_SIZE);
    }
    text
}

/// Phase of a transport loop: still accepting or receiving, or torn down.
#[derive(Clone, Copy, Debug, PartialEq, Eq, Structural)]
pub enum LoopPhase {
    Accepting,
    Closed,
}

/// One accept or receive outcome, as seen by a transport loop.
#[derive(Clone, Copy, Debug, PartialEq, Eq, Structural)]
pub enum LoopEvent {
    Success,
    Failure,
}

/// The loop-local state of one transport loop: its phase, the count of
/// successful accepts/receives, and the count of consecutive failures.
/// Each bound listener or socket owns exactly one of these; it is never
/// shared between loops.
#[derive(Clone, Copy, Debug, PartialEq, Eq, Structural)]
pub struct TransportLoopState {
    pub phase: LoopPhase,
    pub connection_count: u64,
    pub consecutive_errors: u32,
}

/// The transition of the transport-loop state machine: a success counts the
/// event and clears the consecutive-error count; a failure counts toward the
/// threshold and closes the loop when it is reached; a closed loop no longer
/// changes.
pub open spec fn loop_step(s: TransportLoopState, ev: LoopEvent) -> TransportLoopState {
    if s.phase is Closed {
        s
    } else {
        match ev {
            LoopEvent::Success => TransportLoopState {
                phase: LoopPhase::Accepting,
                connection_count: (s.connection_count + 1) as u64,
                consecutive_errors: 0,
            },
            LoopEvent::Failure => TransportLoopState {
                phase: if s.consecutive_errors + 1 >= ERROR_THRESHOLD {
                    LoopPhase::Closed
                } else {
                    LoopPhase::Accepting
                },
                connection_count: s.connection_count,
                consecutive_errors: (s.consecutive_errors + 1) as u32,
            },
        }
    }
}

/// The state after a whole sequence of accept/receive outcomes.
pub open spec fn loop_run(s: TransportLoopState, evs: Seq<LoopEvent>) -> TransportLoopState
    decreases evs.len(),
{
    if evs.len() == 0 {
        s
    } else {
        loop_run(loop_step(s, evs[0]), evs.drop_first())
    }
}

impl TransportLoopState {
    /// The state a transport loop starts in.
    pub open spec fn initial() -> TransportLoopState {
        TransportLoopState { phase: LoopPhase::Accepting, connection_count: 0, consecutive_errors: 0 }
    }

    /// An accepting loop has not yet reached the error threshold.
    pub open spec fn wf(self) -> bool {
        self.phase is Accepting ==> self.consecutive_errors < ERROR_THRESHOLD
    }

    /// A fresh loop state, with both counters at zero.
    pub fn new() -> (s: TransportLoopState)
        ensures
            s == TransportLoopState::initial(),
            s.wf(),
    {
        TransportLoopState { phase: LoopPhase::Accepting, connection_count: 0, consecutive_errors: 0 }
    }

    /// Records one successful accept or receive and returns the number that
    /// identifies it in the reply: successes are numbered 1, 2, ... in
    /// order, failures never advance the number, and a success clears the
    /// consecutive-error count.
    pub fn record_success(&mut self) -> (n: u64)
        requires
            old(self).phase is Accepting,
            old(self).connection_count < u64::MAX,
        ensures
            *final(self) == loop_step(*old(self), LoopEvent::Success),
            final(self).phase is Accepting,
            final(self).connection_count == old(self).connection_count + 1,
            final(self).consecutive_errors == 0,
            n == final(self).connection_count,
            final(self).wf(),
    {
        self.connection_count = self.connection_count + 1;
        self.consecutive_errors = 0;
        self.connection_count
    }

    /// Records one failed accept or receive: the consecutive-error count
    /// rises by one, the success count does not move, and the loop closes
    /// exactly when the count reaches the threshold.
    pub fn record_failure(&mut self)
        requires
            old(self).phase is Accepting,
            old(self).wf(),
        ensures
            *final(self) == loop_step(*old(self), LoopEvent::Failure),
            final(self).connection_count == old(self).connection_count,
            final(self).consecutive_errors == old(self).consecutive_errors + 1,
            final(self).phase is Closed <==> old(self).consecutive_errors + 1 >= ERROR_THRESHOLD,
            final(self).wf(),
    {
        self.consecutive_errors = self.consecutive_errors + 1;
        if self.consecutive_errors >= ERROR_THRESHOLD {
            self.phase = LoopPhase::Closed;
        }
    }

    /// Whether the loop has torn itself down.
    pub fn is_closed(&self) -> (b: bool)
        ensures
            b == (self.phase is Closed),
    {
        match self.phase {
            LoopPhase::Closed => true,
            LoopPhase::Accepting => false,
        }
    }
}

/// Every outcome in the sequence is a success.
pub open spec fn all_successes(evs: Seq<LoopEvent>) -> bool {
    forall|i: int| 0 <= i < evs.len() ==> evs[i] is Success
}

/// Every outcome in the sequence is a failure.
pub open spec fn all_failures(evs: Seq<LoopEvent>) -> bool {
    forall|i: int| 0 <= i < evs.len() ==> evs[i] is Failure
}

/// A run of successes keeps the loop accepting and advances the success
/// count by exactly the number of successes.
pub proof fn lemma_success_run(s: TransportLoopState, evs: Seq<LoopEvent>)
    requires
        s.phase is Accepting,
        all_successes(evs),
        s.connection_count + evs.len() <= u64::MAX,
    ensures
        loop_run(s, evs).phase is Accepting,
        loop_run(s, evs).connection_count == s.connection_count + evs.len(),
        evs.len() > 0 ==> loop_run(s, evs).consecutive_errors == 0,
    decreases evs.len(),
{
    if evs.len() > 0 {
        assert(evs[0] is Success);
        let s1 = loop_step(s, evs[0]);
        assert(all_successes(evs.drop_first()));
        lemma_success_run(s1, evs.drop_first());
    }
}

/// Sending N well-formed datagrams to an idle socket (or accepting N
/// connections on an idle listener) yields replies numbered 1 through N in
/// receipt order: after the first i outcomes the success count is exactly i,
/// and the reply to the i-th success carries that count.
pub proof fn lemma_success_numbers(evs: Seq<LoopEvent>)
    requires
        all_successes(evs),
        evs.len() <= u64::MAX,
    ensures
        forall|i: int|
            0 <= i < evs.len() ==> #[trigger] loop_run(
                TransportLoopState::initial(),
                evs.take(i + 1),
            ).connection_count == i + 1,
{
    assert forall|i: int| 0 <= i < evs.len() implies #[trigger] loop_run(
        TransportLoopState::initial(),
        evs.take(i + 1),
    ).connection_count == i + 1 by {
        let pre = evs.take(i + 1);
        assert(all_successes(pre));
        lemma_success_run(TransportLoopState::initial(), pre);
    }
}

/// A run of failures that stays below the threshold leaves the loop
/// accepting with the failures counted; reaching the threshold closes it.
/// Either way the success count does not move, so failures never advance
/// the reply numbering.
pub proof fn lemma_failure_run(s: TransportLoopState, evs: Seq<LoopEvent>)
    requires
        s.phase is Accepting,
        s.wf(),
        all_failures(evs),
        s.consecutive_errors + evs.len() <= ERROR_THRESHOLD,
    ensures
        loop_run(s, evs).connection_count == s.connection_count,
        loop_run(s, evs).consecutive_errors == s.consecutive_errors + evs.len(),
        loop_run(s, evs).phase is Closed <==> s.consecutive_errors + evs.len() == ERROR_THRESHOLD,
    decreases evs.len(),
{
    if evs.len() > 0 {
        assert(evs[0] is Failure);
        let s1 = loop_step(s, evs[0]);
        assert(all_failures(evs.drop_first()));
        if s1.phase is Closed {
            assert(s.consecutive_errors + 1 == ERROR_THRESHOLD);
            assert(evs.len() == 1);
            lemma_closed_run(s1, evs.drop_first());
            assert(evs.drop_first().len() == 0);
        } else {
            lemma_failure_run(s1, evs.drop_first());
        }
    }
}

/// Failed accepts or receives never advance the reply numbering, however
/// many there are and whatever state the loop is in.
pub proof fn lemma_failures_never_advance(s: TransportLoopState, evs: Seq<LoopEvent>)
    requires
        all_failures(evs),
    ensures
        loop_run(s, evs).connection_count == s.connection_count,
    decreases evs.len(),
{
    if evs.len() > 0 {
        assert(evs[0] is Failure);
        assert(all_failures(evs.drop_first()));
        lemma_failures_never_advance(loop_step(s, evs[0]), evs.drop_first());
    }
}

/// A closed loop never changes again: no event produces a response or moves
/// a counter on it.
pub proof fn lemma_closed_run(s: TransportLoopState, evs: Seq<LoopEvent>)
    requires
        s.phase is Closed,
    ensures
        loop_run(s, evs) == s,
    decreases evs.len(),
{
    if evs.len() > 0 {
        lemma_closed_run(loop_step(s, evs[0]), evs.drop_first());
    }
}

/// The threshold property: exactly `ERROR_THRESHOLD` consecutive failures
/// with no intervening success close the loop, every proper prefix of them
/// leaves it accepting, and no reply number is ever produced by them.
pub proof fn lemma_error_threshold(s: TransportLoopState, evs: Seq<LoopEvent>)
    requires
        s.phase is Accepting,
        s.consecutive_errors == 0,
        all_failures(evs),
        evs.len() == ERROR_THRESHOLD,
    ensures
        loop_run(s, evs).phase is Closed,
        loop_run(s, evs).connection_count == s.connection_count,
        forall|i: int|
            0 <= i < evs.len() ==> (#[trigger] loop_run(s, evs.take(i))).phase is Accepting,
{
    lemma_failure_run(s, evs);
    assert forall|i: int| 0 <= i < evs.len() implies (#[trigger] loop_run(
        s,
        evs.take(i),
    )).phase is Accepting by {
        let pre = evs.take(i);
        assert(all_failures(pre));
        lemma_failure_run(s, pre);
    }
}

/// The addresses whose bind attempt succeeded, in configuration order.
pub open spec fn selected(addrs: Seq<Address>, flags: Seq<bool>) -> Seq<Address>
    decreases addrs.len(),
{
    if addrs.len() == 0 {
        Seq::empty()
    } else {
        selected(addrs.drop_last(), flags.drop_last()) + (if flags.len() == addrs.len()
            && flags.last() {
            seq![addrs.last()]
        } else {
            Seq::<Address>::empty()
        })
    }
}

/// No address appears twice.
pub open spec fn distinct_addresses(s: Seq<Address>) -> bool {
    forall|i: int, j: int| 0 <= i < j < s.len() ==> s[i] != s[j]
}

/// Given the configured addresses and, for each, whether its bind attempt
/// succeeded, returns the live addresses: exactly those that bound, in
/// configuration order.
pub fn select_bound(addresses: &Vec<Address>, bound: &Vec<bool>) -> (live: Vec<Address>)
    requires
        addresses@.len() == bound@.len(),
    ensures
        live@ == selected(addresses@, bound@),
{
    let mut live: Vec<Address> = Vec::new();
    let mut k: usize = 0;
    proof {
        assert(live@ =~= selected(addresses@.take(0), bound@.take(0)));
    }
    while k < addresses.len()
        invariant
            addresses@.len() == bound@.len(),
            k <= addresses@.len(),
            live@ == selected(addresses@.take(k as int), bound@.take(k as int)),
        decreases addresses@.len() - k,
    {
        if bound[k] {
            let a = addresses[k];
            live.push(a);
        }
        proof {
            let ap = addresses@.take((k + 1) as int);
            let fp = bound@.take((k + 1) as int);
            assert(ap.drop_last() =~= addresses@.take(k as int));
            assert(fp.drop_last() =~= bound@.take(k as int));
            assert(live@ =~= selected(ap, fp));
        }
        k = k + 1;
    }
    proof {
        assert(addresses@.take(addresses@.len() as int) =~= addresses@);
        assert(bound@.take(bound@.len() as int) =~= bound@);
    }
    live
}

/// Every live address is one of the configured addresses.
pub proof fn lemma_selected_subset(addrs: Seq<Address>, flags: Seq<bool>)
    requires
        addrs.len() == flags.len(),
    ensures
        forall|i: int|
            0 <= i < selected(addrs, flags).len() ==> addrs.contains(
                #[trigger] selected(addrs, flags)[i],
            ),
    decreases addrs.len(),
{
    if addrs.len() > 0 {
        lemma_selected_subset(addrs.drop_last(), flags.drop_last());
        assert forall|i: int| 0 <= i < selected(addrs, flags).len() implies addrs.contains(
            #[trigger] selected(addrs, flags)[i],
        ) by {
            let s = selected(addrs, flags);
            let sp = selected(addrs.drop_last(), flags.drop_last());
            if i < sp.len() {
                assert(sp[i] == s[i]);
                let w = choose|w: int| 0 <= w < addrs.drop_last().len() && addrs.drop_last()[w]
                    == sp[i];
                assert(addrs[w] == s[i]);
            } else {
                assert(s[i] == addrs.last());
                assert(addrs[addrs.len() - 1] == s[i]);
            }
        }
    }
}

/// Binding cannot introduce duplicates: if the configured addresses are
/// distinct, so is the set of live listeners.
pub proof fn lemma_selected_distinct(addrs: Seq<Address>, flags: Seq<bool>)
    requires
        addrs.len() == flags.len(),
        distinct_addresses(addrs),
    ensures
        distinct_addresses(selected(addrs, flags)),
    decreases addrs.len(),
{
    if addrs.len() > 0 {
        assert(distinct_addresses(addrs.drop_last()));
        lemma_selected_distinct(addrs.drop_last(), flags.drop_last());
        lemma_selected_subset(addrs.drop_last(), flags.drop_last());
        let s = selected(addrs, flags);
        let sp = selected(addrs.drop_last(), flags.drop_last());
        assert forall|i: int, j: int| 0 <= i < j < s.len() implies s[i] != s[j] by {
            if j < sp.len() {
                assert(s[i] == sp[i] && s[j] == sp[j]);
            } else if j >= sp.len() {
                assert(s[j] == addrs.last());
                assert(sp[i] == s[i]);
                let w = choose|w: int| 0 <= w < addrs.drop_last().len() && addrs.drop_last()[w]
                    == sp[i];
                assert(addrs[w] == s[i]);
                assert(addrs[w] != addrs[addrs.len() - 1]);
            }
        }
    }
}

/// What the process should do after the bind phase.
#[derive(Clone, Copy, Debug, PartialEq, Eq, Structural)]
pub struct StartupAssessment {
    pub fatal: bool,
    pub tcp_warning: bool,
    pub udp_warning: bool,
}

/// Decides the startup outcome from how many addresses were configured and
/// how many bound, per protocol: fatal exactly when nothing bound at all;
/// otherwise a warning for a protocol that was configured but bound nothing.
pub fn assess_startup(
    tcp_configured: usize,
    udp_configured: usize,
    tcp_bound: usize,
    udp_bound: usize,
) -> (r: StartupAssessment)
    ensures
        r.fatal <==> (tcp_bound == 0 && udp_bound == 0),
        r.tcp_warning <==> (!r.fatal && tcp_configured > 0 && tcp_bound == 0),
        r.udp_warning <==> (!r.fatal && udp_configured > 0 && udp_bound == 0),
{
    let fatal = tcp_bound == 0 && udp_bound == 0;
    StartupAssessment {
        fatal,
        tcp_warning: !fatal && tcp_configured > 0 && tcp_bound == 0,
        udp_warning: !fatal && udp_configured > 0 && udp_bound == 0,
    }
}

} // verus!
