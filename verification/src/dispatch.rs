//! Dispatch: the decisions around one request. The caller forwards the
//! request and carries the load deltas to the accountant; here it is decided
//! where the request goes, which deltas are due, and what the caller's
//! client is answered.

use crate::accountant::{applied_all, Message};
use crate::error::Error;
use crate::model::{adjusted, least_loaded, lemma_start_then_end, no_entries, sound};
use crate::registry::Registry;
use crate::request::Request;
use vstd::prelude::*;

verus! {

/// The settings of the proxy.
#[derive(Debug, Clone, PartialEq, Eq)]
pub struct AppConfig {
    /// The namespace the membership feed is scoped to.
    pub namespace: String,
    /// The name of the service, for addressing by name.
    pub service_name: String,
    /// The label selector of the membership feed.
    pub selector: String,
    /// The port on which the backends listen.
    pub container_port: u16,
}

/// The character of a decimal digit.
pub open spec fn digit(d: nat) -> char {
    if d == 0 {
        '0'
    } else if d == 1 {
        '1'
    } else if d == 2 {
        '2'
    } else if d == 3 {
        '3'
    } else if d == 4 {
        '4'
    } else if d == 5 {
        '5'
    } else if d == 6 {
        '6'
    } else if d == 7 {
        '7'
    } else if d == 8 {
        '8'
    } else {
        '9'
    }
}

/// A number in decimal, without leading zeros.
pub open spec fn decimal(n: nat) -> Seq<char>
    decreases n,
{
    if n < 10 {
        seq![digit(n)]
    } else {
        decimal(n / 10).push(digit(n % 10))
    }
}

/// The address of a request at a backend: the scheme, the backend's address
/// and port, and the request's own path and query.
pub open spec fn url_of(address: Seq<char>, port: u16, target: Seq<char>) -> Seq<char> {
    seq!['h', 't', 't', 'p', ':', '/', '/'] + address + seq![':'] + decimal(port as nat) + target
}

fn digit_text(d: u16) -> (text: &'static str)
    requires
        d < 10,
    ensures
        text@ == seq![digit(d as nat)],
{
    proof {
        reveal_strlit("0");
        reveal_strlit("1");
        reveal_strlit("2");
        reveal_strlit("3");
        reveal_strlit("4");
        reveal_strlit("5");
        reveal_strlit("6");
        reveal_strlit("7");
        reveal_strlit("8");
        reveal_strlit("9");
    }
    let text = match d {
        0 => "0",
        1 => "1",
        2 => "2",
        3 => "3",
        4 => "4",
        5 => "5",
        6 => "6",
        7 => "7",
        8 => "8",
        _ => "9",
    };
    assert(text@ =~= seq![digit(d as nat)]);
    text
}

/// A port number in decimal.
pub fn port_text(port: u16) -> (text: String)
    ensures
        text@ == decimal(port as nat),
    decreases port,
{
    if port < 10 {
        String::from_str(digit_text(port))
    } else {
        let mut text = port_text(port / 10);
        text.append(digit_text(port % 10));
        text
    }
}

/// The address of a request at a backend.
pub fn backend_url(address: &str, port: u16, target: &str) -> (url: String)
    ensures
        url@ == url_of(address@, port, target@),
{
    proof {
        reveal_strlit("http://");
        reveal_strlit(":");
        assert("http://"@ =~= seq!['h', 't', 't', 'p', ':', '/', '/']);
        assert(":"@ =~= seq![':']);
    }
    let mut url = String::from_str("http://");
    url.append(address);
    url.append(":");
    let port = port_text(port);
    url.append(port.as_str());
    url.append(target);
    url
}

/// A request that has been given a backend and is counted as in flight
/// there. It comes into being with its start delta, in `Pool::begin`, and
/// goes out of being with its end delta, in `finish` or in `abandon`: it
/// cannot be copied, so each request has one of each.
#[derive(Debug)]
pub struct InFlight {
    target: String,
    url: String,
}

impl InFlight {
    /// The identity of the backend, over its characters.
    pub closed spec fn target_view(&self) -> Seq<char> {
        self.target@
    }

    /// Where the request is to be sent, over its characters.
    pub closed spec fn url_view(&self) -> Seq<char> {
        self.url@
    }

    /// The identity of the backend.
    pub fn target(&self) -> (target: &String)
        ensures
            target@ == self.target_view(),
    {
        &self.target
    }

    /// Where the request is to be sent.
    pub fn url(&self) -> (url: &String)
        ensures
            url@ == self.url_view(),
    {
        &self.url
    }

    /// Ends the request. Whatever the backend did, the request is counted
    /// out; the backend's reply goes back as it is, and a missing reply is
    /// reported as an unreachable backend.
    pub fn finish<R>(self, reply: Option<R>) -> (done: (Message, Result<R, Error>))
        ensures
            done.0@ == (self.target_view(), -1i16),
            done.1 == match reply {
                Some(answer) => Ok::<R, Error>(answer),
                None => Err::<R, Error>(Error::BackendUnreachable),
            },
    {
        let message = Message::end(self.target);
        match reply {
            Some(answer) => (message, Ok(answer)),
            None => (message, Err(Error::BackendUnreachable)),
        }
    }

    /// Gives the request up while its backend is still at work, as when its
    /// caller has gone away. The request is counted out all the same.
    pub fn abandon(self) -> (message: Message)
        ensures
            message@ == (self.target_view(), -1i16),
    {
        Message::end(self.target)
    }
}

/// The dispatcher: it gives each request the least-loaded backend.
#[derive(Debug, Clone, PartialEq, Eq)]
pub struct Pool {
    /// The settings of the proxy.
    pub config: AppConfig,
}

impl Pool {
    /// A dispatcher with these settings.
    pub fn new(config: AppConfig) -> (pool: Pool)
        ensures
            pool.config == config,
    {
        Pool { config }
    }

    /// The identity of a least-loaded backend, or `NoBackendsAvailable` when
    /// there is none.
    pub fn get_ip(&self, registry: &Registry) -> (chosen: Result<String, Error>)
        ensures
            chosen is Err <==> registry@ == no_entries(),
            chosen matches Ok(identity) ==> least_loaded(registry@, identity@),
            chosen matches Err(e) ==> e == Error::NoBackendsAvailable,
    {
        registry.select_least_loaded()
    }

    /// Gives the request a backend, and hands out the delta that counts the
    /// request in there. The backend is a least-loaded one, and the request
    /// is to be sent to its address at the configured port, with the
    /// request's own path and query. Without a backend the request fails at
    /// once, and no delta is due.
    pub fn begin(&self, registry: &Registry, request: &Request) -> (begun: Result<
        (InFlight, Message),
        Error,
    >)
        ensures
            begun is Err <==> registry@ == no_entries(),
            begun matches Ok(pair) ==> {
                &&& least_loaded(registry@, pair.0.target_view())
                &&& pair.0.url_view() == url_of(
                    pair.0.target_view(),
                    self.config.container_port,
                    request.uri@,
                )
                &&& pair.1@ == (pair.0.target_view(), 1i16)
            },
            begun matches Err(e) ==> e == Error::NoBackendsAvailable,
    {
        match registry.select_least_loaded() {
            Ok(target) => {
                let url = backend_url(
                    target.as_str(),
                    self.config.container_port,
                    request.uri.as_str(),
                );
                let start = Message::start(target.clone());
                Ok((InFlight { target, url }, start))
            },
            Err(e) => Err(e),
        }
    }
}

/// A request that is counted in and then counted out leaves every counter
/// where it was, whether its backend answered or not, unless that backend's
/// counter already stood at `i16::MAX`. If the backend has left the registry
/// meanwhile, both deltas pass without a trace.
pub proof fn lemma_request_nets_zero(m: Map<Seq<char>, i16>, target: Seq<char>)
    requires
        sound(m),
        m.contains_key(target) ==> m[target] < i16::MAX,
    ensures
        applied_all(m, seq![(target, 1i16), (target, -1i16)]) == m,
{
    let both = seq![(target, 1i16), (target, -1i16)];
    let first = both.drop_last();
    assert(first.drop_last().len() == 0);
    assert(applied_all(m, first.drop_last()) == m);
    assert(applied_all(m, first) == adjusted(m, target, 1i16));
    lemma_start_then_end(m, target);
}

} // verus!
