//! The hosts that requests to the web server may name.

use vstd::prelude::*;
use vstd::string::StringExecFns;

#[allow(unused_imports)]
use crate::text::decimal;
use crate::text::decimal_text;

verus! {

/// The port that the web server listens on.
pub const PORT: u16 = 8100;

/// Why a request is turned away: it names a host that is none of the server's.
#[derive(Clone, Copy, Debug, PartialEq, Eq, Structural)]
pub struct InvalidHost;

impl InvalidHost {
    /// The words for it.
    pub fn message(&self) -> (message: &'static str)
        ensures
            message@ == "Invalid Host header"@,
    {
        "Invalid Host header"
    }
}

/// What texts in a row stand for.
pub open spec fn texts_view(texts: Seq<String>) -> Seq<Seq<char>> {
    texts.map_values(|text: String| text@)
}

/// The names of the server itself on a port: its address and `localhost`.
pub open spec fn own_hosts(port: u16) -> Seq<Seq<char>> {
    seq![
        "127.0.0.1:"@ + decimal(port as nat),
        "localhost:"@ + decimal(port as nat),
    ]
}

/// The hosts that requests to the server on a port may name.
pub fn allowed_hosts(port: u16) -> (hosts: Vec<String>)
    ensures
        texts_view(hosts@) == own_hosts(port),
        hosts@.len() == 2,
        hosts@[0]@ == "127.0.0.1:"@ + decimal(port as nat),
        hosts@[1]@ == "localhost:"@ + decimal(port as nat),
{
    let number = decimal_text(port as u64);
    let mut hosts: Vec<String> = Vec::new();
    hosts.push("127.0.0.1:".to_owned().concat(number.as_str()));
    hosts.push("localhost:".to_owned().concat(number.as_str()));
    assert(texts_view(hosts@) =~= own_hosts(port));
    hosts
}

/// Whether a host is one of those that are allowed.
pub fn host_allowed(allowed: &Vec<String>, host: &str) -> (yes: bool)
    ensures
        yes == texts_view(allowed@).contains(host@),
        yes <==> exists|i: int| 0 <= i < allowed@.len() && (#[trigger] allowed@[i])@ == host@,
{
    let wanted = host.to_owned();
    let mut i: usize = 0;
    while i < allowed.len()
        invariant
            i <= allowed@.len(),
            wanted@ == host@,
            forall|j: int| 0 <= j < i ==> (#[trigger] allowed@[j])@ != host@,
        decreases allowed@.len() - i,
    {
        if allowed[i] == wanted {
            assert(texts_view(allowed@)[i as int] == host@);
            return true;
        }
        i = i + 1;
    }
    assert forall|j: int| 0 <= j < texts_view(allowed@).len() implies texts_view(allowed@)[j]
        != host@ by {
        assert(allowed@[j]@ != host@);
    }
    false
}

/// Lets a request through if the host that it names passes a test.
pub fn host_filter<F: Fn(&str) -> bool>(hostp: F, req_host: &str) -> (passed: Result<
    (),
    InvalidHost,
>)
    requires
        call_requires(hostp, (req_host,)),
    ensures
        call_ensures(hostp, (req_host,), passed is Ok),
{
    if hostp(req_host) {
        Ok(())
    } else {
        Err(InvalidHost)
    }
}

/// Lets a request to the server on a port through if it names one of the server's own hosts.
pub fn check_host(port: u16, req_host: &str) -> (passed: Result<(), InvalidHost>)
    ensures
        passed is Ok <==> own_hosts(port).contains(req_host@),
        passed is Ok <==> req_host@ == "127.0.0.1:"@ + decimal(port as nat) || req_host@
            == "localhost:"@ + decimal(port as nat),
{
    proof {
        law_own_hosts_pass(port, req_host@);
    }
    let allowed = allowed_hosts(port);
    let own = |host: &str| -> (yes: bool)
        ensures
            yes == texts_view(allowed@).contains(host@),
    {
        host_allowed(&allowed, host)
    };
    host_filter(own, req_host)
}

/// A request goes through only if it names the address of the server or `localhost`, each with
/// the port.
pub proof fn law_own_hosts_pass(port: u16, host: Seq<char>)
    ensures
        own_hosts(port).contains(host) <==> {
            ||| host == "127.0.0.1:"@ + decimal(port as nat)
            ||| host == "localhost:"@ + decimal(port as nat)
        },
{
    assert(own_hosts(port)[0] == "127.0.0.1:"@ + decimal(port as nat));
    assert(own_hosts(port)[1] == "localhost:"@ + decimal(port as nat));
}

} // verus!
