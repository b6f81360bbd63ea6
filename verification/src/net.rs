//! The decision core of the publisher and the subscriber: which local
//! address to advertise and under what instance name, when the publisher
//! reports a live connection, what a per-client writer does with each slot
//! event, and when a subscriber joins its reader task to surface its error.
//!
//! The sockets, the multicast DNS exchange and the task plumbing live outside
//! the library; they feed these functions plain values and act on what comes
//! back.

use vstd::prelude::*;
use crate::slot::Disconnected;

verus! {

/// The four octets of an IPv4 address.
#[derive(Debug, Clone, Copy, PartialEq, Eq, Structural)]
pub struct Ipv4Octets {
    pub a: u8,
    pub b: u8,
    pub c: u8,
    pub d: u8,
}

/// No local network interface carries a private IPv4 address, so the
/// publisher has nothing to advertise.
#[derive(Debug, Clone, Copy, PartialEq, Eq, Structural)]
pub struct AddrNotAvailable;

/// A private IPv4 address: 10/8, 172.16/12 or 192.168/16.
pub open spec fn is_private(o: Ipv4Octets) -> bool {
    ||| o.a == 10
    ||| (o.a == 172 && 16 <= o.b && o.b < 32)
    ||| (o.a == 192 && o.b == 168)
}

/// Reports whether the address lies in one of the three private IPv4 blocks.
pub fn is_private_ipv4(o: Ipv4Octets) -> (r: bool)
    ensures
        r == is_private(o),
{
    o.a == 10 || (o.a == 172 && 16 <= o.b && o.b < 32) || (o.a == 192 && o.b == 168)
}

/// The private addresses among the given ones, in their given order.
pub open spec fn private_addrs(addrs: Seq<Ipv4Octets>) -> Seq<Ipv4Octets> {
    addrs.filter(|o: Ipv4Octets| is_private(o))
}

/// Picks the addresses the publisher advertises: the first private IPv4 of
/// the interface list becomes the primary name, the remaining private ones
/// become additional names. With no private address the publisher cannot
/// start.
pub fn choose_publisher_addrs(addrs: &Vec<Ipv4Octets>) -> (r: Result<
    (Ipv4Octets, Vec<Ipv4Octets>),
    AddrNotAvailable,
>)
    ensures
        match r {
            Ok((first, rest)) => private_addrs(addrs@).len() > 0 && first == private_addrs(
                addrs@,
            )[0] && rest@ == private_addrs(addrs@).drop_first(),
            Err(_) => private_addrs(addrs@).len() == 0,
        },
{
    let mut privates: Vec<Ipv4Octets> = Vec::new();
    let mut i: usize = 0;
    proof {
        reveal(Seq::filter);
        assert(addrs@.take(0).filter(|o: Ipv4Octets| is_private(o)) =~= Seq::<Ipv4Octets>::empty());
    }
    while i < addrs.len()
        invariant
            i <= addrs@.len(),
            privates@ == addrs@.take(i as int).filter(|o: Ipv4Octets| is_private(o)),
        decreases addrs@.len() - i,
    {
        let o = addrs[i];
        if is_private_ipv4(o) {
            privates.push(o);
        }
        proof {
            reveal(Seq::filter);
            assert(addrs@.take(i as int + 1).drop_last() =~= addrs@.take(i as int));
            assert(addrs@.take(i as int + 1).last() == addrs@[i as int]);
        }
        i = i + 1;
    }
    proof {
        assert(addrs@.take(addrs@.len() as int) =~= addrs@);
    }
    if privates.len() == 0 {
        return Err(AddrNotAvailable);
    }
    let first = privates[0];
    let mut rest = privates;
    let _removed = rest.remove(0);
    proof {
        assert(rest@ =~= private_addrs(addrs@).drop_first());
    }
    Ok((first, rest))
}

/// The decimal digit `d` as a character.
pub open spec fn digit_char(d: int) -> char {
    if d == 0 {
        '0'
    } else if d == 1 {
        '1'
    } else if d == 2 {
        '2'
    } else if d == 3 {
        '3'
    } else if d == 4 {
        '4'
    } else if d == 5 {
        '5'
    } else if d == 6 {
        '6'
    } else if d == 7 {
        '7'
    } else if d == 8 {
        '8'
    } else {
        '9'
    }
}

/// The decimal notation of a byte, without leading zeros.
pub open spec fn spec_u8_decimal(n: u8) -> Seq<char> {
    if n < 10 {
        seq![digit_char(n as int)]
    } else if n < 100 {
        seq![digit_char(n as int / 10), digit_char(n as int % 10)]
    } else {
        seq![
            digit_char(n as int / 100),
            digit_char((n as int / 10) % 10),
            digit_char(n as int % 10),
        ]
    }
}

/// One decimal digit as a string slice.
fn digit_str(d: u8) -> (r: &'static str)
    requires
        d < 10,
    ensures
        r@ == seq![digit_char(d as int)],
{
    proof {
        reveal_strlit("0");
        reveal_strlit("1");
        reveal_strlit("2");
        reveal_strlit("3");
        reveal_strlit("4");
        reveal_strlit("5");
        reveal_strlit("6");
        reveal_strlit("7");
        reveal_strlit("8");
        reveal_strlit("9");
    }
    match d {
        0 => "0",
        1 => "1",
        2 => "2",
        3 => "3",
        4 => "4",
        5 => "5",
        6 => "6",
        7 => "7",
        8 => "8",
        _ => "9",
    }
}

/// Appends the decimal notation of `n` to the string.
fn append_u8_decimal(out: &mut String, n: u8)
    ensures
        final(out)@ == old(out)@ + spec_u8_decimal(n),
{
    let ghost out0 = out@;
    if n >= 100 {
        out.append(digit_str(n / 100));
    }
    if n >= 10 {
        out.append(digit_str((n / 10) % 10));
    }
    out.append(digit_str(n % 10));
    proof {
        assert(out@ =~= out0 + spec_u8_decimal(n));
    }
}

/// The service instance name the publisher advertises for an address: the
/// service label, then the four octets in decimal, all joined with dashes.
pub open spec fn spec_instance_name(o: Ipv4Octets) -> Seq<char> {
    "providence-"@ + spec_u8_decimal(o.a) + "-"@ + spec_u8_decimal(o.b) + "-"@ + spec_u8_decimal(
        o.c,
    ) + "-"@ + spec_u8_decimal(o.d)
}

/// Builds the service instance name for the given address, dashes in place
/// of the dots of the usual notation.
pub fn instance_name(o: Ipv4Octets) -> (r: String)
    ensures
        r@ == spec_instance_name(o),
{
    let mut out = String::new();
    out.append("providence-");
    append_u8_decimal(&mut out, o.a);
    out.append("-");
    append_u8_decimal(&mut out, o.b);
    out.append("-");
    append_u8_decimal(&mut out, o.c);
    out.append("-");
    append_u8_decimal(&mut out, o.d);
    proof {
        assert(out@ =~= spec_instance_name(o));
    }
    out
}

/// The publisher's count of connected client writers. Every per-client
/// writer task enters when it starts and exits on every way out, so the
/// count is the number of writer tasks currently holding their scoped
/// increment.
pub struct ConnectionTally {
    /// Number of client writers that entered and have not exited.
    pub count: u64,
}

impl ConnectionTally {
    /// A fresh tally: no client is connected.
    pub fn new() -> (r: ConnectionTally)
        ensures
            r.count == 0,
    {
        ConnectionTally { count: 0 }
    }

    /// A client writer enters its scoped increment.
    pub fn client_enter(&mut self)
        requires
            old(self).count < u64::MAX,
        ensures
            final(self).count == old(self).count + 1,
    {
        self.count = self.count + 1;
    }

    /// A client writer leaves its scoped increment, on any exit path.
    pub fn client_exit(&mut self)
        requires
            old(self).count > 0,
        ensures
            final(self).count == old(self).count - 1,
    {
        self.count = self.count - 1;
    }

    /// True exactly when at least one client writer currently holds its
    /// scoped increment.
    pub fn has_connection(&self) -> (r: bool)
        ensures
            r == (self.count != 0),
    {
        self.count != 0
    }
}

/// One enter or exit event of a per-client writer task: `true` when the task
/// starts and takes its scoped increment, `false` when it gives the
/// increment back on its way out.
pub open spec fn count_after(events: Seq<bool>) -> int
    decreases events.len(),
{
    if events.len() == 0 {
        0int
    } else {
        count_after(events.drop_last()) + (if events.last() {
            1int
        } else {
            -1int
        })
    }
}

/// An event history a scoped increment can produce: every exit is preceded
/// by its enter, and fewer tasks run at once than the counter can hold.
pub open spec fn wf_events(events: Seq<bool>) -> bool {
    forall|k: int|
        0 <= k <= events.len() ==> 0 <= #[trigger] count_after(events.take(k)) < u64::MAX
}

/// The tally after a history of enters and exits.
pub open spec fn tally_after(events: Seq<bool>) -> ConnectionTally
    decreases events.len(),
{
    if events.len() == 0 {
        ConnectionTally { count: 0 }
    } else {
        let before = tally_after(events.drop_last());
        if events.last() {
            ConnectionTally { count: (before.count + 1) as u64 }
        } else {
            ConnectionTally { count: (before.count - 1) as u64 }
        }
    }
}

/// After any history of scoped enters and exits, the tally holds exactly the
/// number of writer tasks that entered and have not exited, so
/// `has_connection` is true exactly while at least one writer task holds its
/// scoped increment.
pub proof fn lemma_tally_counts_open_guards(events: Seq<bool>)
    requires
        wf_events(events),
    ensures
        tally_after(events).count == count_after(events),
        (tally_after(events).count != 0) <==> count_after(events) > 0,
    decreases events.len(),
{
    if events.len() == 0 {
    } else {
        let prefix = events.drop_last();
        assert(wf_events(prefix)) by {
            assert forall|k: int| 0 <= k <= prefix.len() implies 0 <= #[trigger] count_after(
                prefix.take(k),
            ) < u64::MAX by {
                assert(prefix.take(k) =~= events.take(k));
            }
        }
        lemma_tally_counts_open_guards(prefix);
        assert(events.take(events.len() as int) =~= events);
        assert(events.take(prefix.len() as int) =~= prefix);
    }
}

/// What a per-client writer task does with one slot event.
#[derive(Debug, Clone, Copy, PartialEq, Eq, Structural)]
pub enum ClientWriterAction {
    /// A fresh message arrived: encode it and write it to the client.
    Send,
    /// The slot was cleared: nothing to send, keep waiting.
    Skip,
    /// The slot writer is gone: the publisher is shutting down, exit cleanly.
    Exit,
}

/// The per-client writer's decision for one slot event.
pub open spec fn spec_client_writer_step<T>(event: Result<Option<T>, Disconnected>) -> ClientWriterAction {
    match event {
        Ok(Some(_)) => ClientWriterAction::Send,
        Ok(None) => ClientWriterAction::Skip,
        Err(_) => ClientWriterAction::Exit,
    }
}

/// Decides what a per-client writer does with one slot event: send a fresh
/// message, skip a cleared slot, or exit once the publisher's slot is gone.
pub fn client_writer_step<T>(event: &Result<Option<T>, Disconnected>) -> (r: ClientWriterAction)
    ensures
        r == spec_client_writer_step(*event),
{
    match event {
        Ok(Some(_)) => ClientWriterAction::Send,
        Ok(None) => ClientWriterAction::Skip,
        Err(_) => ClientWriterAction::Exit,
    }
}

/// Tracks whether a subscriber has already joined its reader task. The task
/// is joined at most once, on the first call that observes the disconnect;
/// the subscriber is dead from then on.
pub struct SubscriberGate {
    /// True once the reader task has been joined to surface its error.
    pub joined: bool,
}

impl SubscriberGate {
    /// A fresh subscriber: its task is running.
    pub fn new() -> (r: SubscriberGate)
        ensures
            !r.joined,
    {
        SubscriberGate { joined: false }
    }

    /// Decides whether this call joins the reader task: exactly the first
    /// call that observes the slot writer gone.
    pub fn should_join(&mut self, disconnected: bool) -> (r: bool)
        ensures
            r == (disconnected && !old(self).joined),
            final(self).joined == (old(self).joined || disconnected),
    {
        let join = disconnected && !self.joined;
        self.joined = self.joined || disconnected;
        join
    }
}

} // verus!
