//! The decisions of the per-target monitor loops. Each loop is a state
//! machine: it is told what happened (it started, a probe finished, its sleep
//! ended), records what a finished probe found, and says what to do next.
use crate::status::{DeviceStatus, DomainStatus, StatusTable};
use vstd::prelude::*;

verus! {

/// Seconds between the end of one device echo and the next.
pub const DEVICE_PING_INTERVAL_SECS: u64 = 5;

/// Seconds between the end of one domain request and the next.
pub const DOMAIN_TEST_INTERVAL_SECS: u64 = 20;

/// Seconds an echo request waits for its reply.
pub const ECHO_TIMEOUT_SECS: u64 = 1;

/// Seconds an HTTP request may take.
pub const REQUEST_TIMEOUT_SECS: u64 = 5;

/// Identifier carried by every echo request of this process.
pub const ECHO_IDENTIFIER: u16 = 24;

/// The echo sequence number after an echo: one more, wrapping at the width
/// of the counter, after a reply; zero after a failure.
pub open spec fn next_sequence(sequence: u16, replied: bool) -> u16 {
    if replied {
        ((sequence as int + 1) % 0x10000) as u16
    } else {
        0
    }
}

/// What happened to a device loop.
pub enum DeviceEvent {
    Started,
    EchoDone { latency_milliseconds: Option<u128> },
    Woke,
}

/// What a device loop does next.
#[derive(Debug, Clone, PartialEq, Eq)]
pub enum DeviceAction {
    Echo { sequence: u16, timeout_secs: u64 },
    Sleep { secs: u64 },
}

/// The loop that watches one device.
pub struct DeviceMonitor {
    pub name: String,
    pub ip: String,
    pub sequence: u16,
}

impl DeviceMonitor {
    pub fn new(name: String, ip: String) -> (r: Self)
        ensures
            r.name == name,
            r.ip == ip,
            r.sequence == 0,
    {
        DeviceMonitor { name, ip, sequence: 0 }
    }

    /// The echo to send next.
    pub fn next_echo(&self) -> (a: DeviceAction)
        ensures
            a == (DeviceAction::Echo { sequence: self.sequence, timeout_secs: ECHO_TIMEOUT_SECS }),
    {
        DeviceAction::Echo { sequence: self.sequence, timeout_secs: ECHO_TIMEOUT_SECS }
    }

    /// The record of this device with the given echo outcome.
    pub fn status(&self, latency_milliseconds: Option<u128>) -> (r: DeviceStatus)
        ensures
            r == (DeviceStatus { name: self.name, ip: self.ip, latency_milliseconds }),
    {
        DeviceStatus { name: self.name.clone(), ip: self.ip.clone(), latency_milliseconds }
    }

    /// Takes one event: a finished echo is recorded in `table` and moves the
    /// sequence on, and is followed by a sleep; any other event is followed
    /// by an echo.
    pub fn on_event(&mut self, table: &mut StatusTable, event: DeviceEvent) -> (a: DeviceAction)
        requires
            old(table).wf(),
        ensures
            final(self).name == old(self).name,
            final(self).ip == old(self).ip,
            final(table).wf(),
            final(table).domains() == old(table).domains(),
            match event {
                DeviceEvent::EchoDone { latency_milliseconds } => {
                    &&& final(self).sequence == next_sequence(old(self).sequence, latency_milliseconds is Some)
                    &&& final(table).device_map() == old(table).device_map().insert(
                        old(self).name@,
                        DeviceStatus { name: old(self).name, ip: old(self).ip, latency_milliseconds },
                    )
                    &&& a == (DeviceAction::Sleep { secs: DEVICE_PING_INTERVAL_SECS })
                },
                _ => {
                    &&& final(self).sequence == old(self).sequence
                    &&& final(table).devices() == old(table).devices()
                    &&& a == (DeviceAction::Echo { sequence: old(self).sequence, timeout_secs: ECHO_TIMEOUT_SECS })
                },
            },
    {
        match event {
            DeviceEvent::EchoDone { latency_milliseconds } => {
                let s = self.status(latency_milliseconds);
                if latency_milliseconds.is_some() {
                    self.sequence = self.sequence.wrapping_add(1);
                } else {
                    self.sequence = 0;
                }
                table.put_device(s);
                DeviceAction::Sleep { secs: DEVICE_PING_INTERVAL_SECS }
            },
            _ => self.next_echo(),
        }
    }
}

/// The status code recorded for a request: the response's code, or 0 where
/// no response came.
pub open spec fn response_code_of(response: Option<u16>) -> usize {
    match response {
        Some(code) => code as usize,
        None => 0,
    }
}

pub fn response_code(response: Option<u16>) -> (r: usize)
    ensures
        r == response_code_of(response),
{
    match response {
        Some(code) => code as usize,
        None => 0,
    }
}

/// The address requested for a domain: `http://{domain}/`.
pub open spec fn url_of(domain: Seq<char>) -> Seq<char> {
    seq!['h', 't', 't', 'p', ':', '/', '/'] + domain + seq!['/']
}

pub fn probe_url(domain: &String) -> (r: String)
    ensures
        r@ == url_of(domain@),
{
    let mut url = "http://".to_owned();
    url.append(domain.as_str());
    url.append("/");
    proof {
        reveal_strlit("http://");
        reveal_strlit("/");
        assert(url@ =~= url_of(domain@));
    }
    url
}

/// What happened to a domain loop.
pub enum DomainEvent {
    Started,
    Responded { status: Option<u16> },
    Woke,
}

/// What a domain loop does next.
#[derive(Debug, Clone, PartialEq, Eq)]
pub enum DomainAction {
    Request { url: String, timeout_secs: u64 },
    Sleep { secs: u64 },
}

/// The loop that watches one domain.
pub struct DomainMonitor {
    pub domain: String,
}

impl DomainMonitor {
    pub fn new(domain: String) -> (r: Self)
        ensures
            r.domain == domain,
    {
        DomainMonitor { domain }
    }

    /// The request to send next.
    pub fn next_request(&self) -> (a: DomainAction)
        ensures
            a matches DomainAction::Request { url, timeout_secs }
                && url@ == url_of(self.domain@) && timeout_secs == REQUEST_TIMEOUT_SECS,
    {
        DomainAction::Request { url: probe_url(&self.domain), timeout_secs: REQUEST_TIMEOUT_SECS }
    }

    /// The record of this domain with the given request outcome.
    pub fn status(&self, response: Option<u16>) -> (r: DomainStatus)
        ensures
            r == (DomainStatus { domain: self.domain, status: response_code_of(response) }),
    {
        DomainStatus { domain: self.domain.clone(), status: response_code(response) }
    }

    /// Takes one event: a finished request is recorded in `table` and is
    /// followed by a sleep; any other event is followed by a request.
    pub fn on_event(&self, table: &mut StatusTable, event: DomainEvent) -> (a: DomainAction)
        requires
            old(table).wf(),
        ensures
            final(table).wf(),
            final(table).devices() == old(table).devices(),
            match event {
                DomainEvent::Responded { status } => {
                    &&& final(table).domain_map() == old(table).domain_map().insert(
                        self.domain@,
                        DomainStatus { domain: self.domain, status: response_code_of(status) },
                    )
                    &&& a == (DomainAction::Sleep { secs: DOMAIN_TEST_INTERVAL_SECS })
                },
                _ => {
                    &&& final(table).domains() == old(table).domains()
                    &&& a matches DomainAction::Request { url, timeout_secs }
                        && url@ == url_of(self.domain@) && timeout_secs == REQUEST_TIMEOUT_SECS
                },
            },
    {
        match event {
            DomainEvent::Responded { status } => {
                table.put_domain(self.status(status));
                DomainAction::Sleep { secs: DOMAIN_TEST_INTERVAL_SECS }
            },
            _ => self.next_request(),
        }
    }
}

} // verus!
