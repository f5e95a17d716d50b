//! Peers as the host application sees them, with a hand-rolled JSON
//! rendering whose exact text is pinned down by the contracts.

use vstd::prelude::*;
use crate::node::hex_char;
use crate::node::hex_digit_str;

verus! {

use vstd::string::StringExecFns;

/// The decimal digits of a nonnegative number, most significant first.
pub open spec fn dec_digits(n: int) -> Seq<char>
    decreases n,
{
    if n < 10 {
        seq![hex_char(n)]
    } else {
        dec_digits(n / 10).push(hex_char(n % 10))
    }
}

/// The JSON text of a boolean.
pub open spec fn bool_text(b: bool) -> Seq<char> {
    if b {
        "true"@
    } else {
        "false"@
    }
}

/// The JSON text of an optional number: its digits, or null.
pub open spec fn latency_text(v: Option<u32>) -> Seq<char> {
    match v {
        Some(n) => dec_digits(n as int),
        None => "null"@,
    }
}

/// A string wrapped in double quotes.
pub open spec fn quoted(s: Seq<char>) -> Seq<char> {
    "\""@ + s + "\""@
}

/// The strings of `s`, each in double quotes, joined by commas.
pub open spec fn quoted_list(s: Seq<Seq<char>>) -> Seq<char>
    decreases s.len(),
{
    if s.len() == 0 {
        Seq::empty()
    } else if s.len() == 1 {
        quoted(s[0])
    } else {
        quoted_list(s.drop_last()) + ","@ + quoted(s.last())
    }
}

/// Abstract value of a peer record.
#[verifier::ext_equal]
pub ghost struct PeerView {
    pub node_id: Seq<char>,
    pub name: Seq<char>,
    pub address: Seq<char>,
    pub connected: bool,
    pub latency_ms: Option<u32>,
    pub capabilities: Seq<Seq<char>>,
}

/// A peer as presented to the host application.
#[derive(Debug)]
pub struct Peer {
    /// The peer's node id, as text.
    pub node_id: String,
    /// The peer's display name.
    pub name: String,
    /// The peer's address.
    pub address: String,
    /// Whether the peer is currently connected.
    pub connected: bool,
    /// Measured latency in milliseconds, if known.
    pub latency_ms: Option<u32>,
    /// Names of the peer's capabilities.
    pub capabilities: Vec<String>,
}

impl View for Peer {
    type V = PeerView;

    open spec fn view(&self) -> PeerView {
        PeerView {
            node_id: self.node_id@,
            name: self.name@,
            address: self.address@,
            connected: self.connected,
            latency_ms: self.latency_ms,
            capabilities: self.capabilities.deep_view(),
        }
    }
}

impl DeepView for Peer {
    type V = PeerView;

    open spec fn deep_view(&self) -> PeerView {
        self.view()
    }
}

impl Clone for Peer {
    /// An identical copy of the peer record.
    fn clone(&self) -> (r: Self)
        ensures
            r@ == self@,
    {
        let r = Peer {
            node_id: self.node_id.clone(),
            name: self.name.clone(),
            address: self.address.clone(),
            connected: self.connected,
            latency_ms: self.latency_ms,
            capabilities: crate::util::clone_strings(&self.capabilities),
        };
        proof {
            assert(r@ =~= self@);
        }
        r
    }
}

/// The JSON object text for a peer record: all fields, in a fixed order,
/// with no escaping of the string fields.
pub open spec fn spec_peer_json(p: PeerView) -> Seq<char> {
    "{\"node_id\":\""@ + p.node_id + "\",\"name\":\""@ + p.name + "\",\"address\":\""@
        + p.address + "\",\"connected\":"@ + bool_text(p.connected) + ",\"latency_ms\":"@
        + latency_text(p.latency_ms) + ",\"capabilities\":["@ + quoted_list(p.capabilities)
        + "]}"@
}

/// The JSON array text for a list of peer records.
pub open spec fn spec_peers_json(s: Seq<PeerView>) -> Seq<char>
    decreases s.len(),
{
    if s.len() == 0 {
        Seq::empty()
    } else if s.len() == 1 {
        spec_peer_json(s[0])
    } else {
        spec_peers_json(s.drop_last()) + ","@ + spec_peer_json(s.last())
    }
}

/// Append the decimal digits of `n` to `out`.
fn push_decimal(out: &mut String, n: u32)
    ensures
        final(out)@ == old(out)@ + dec_digits(n as int),
    decreases n,
{
    if n < 10 {
        out.append(hex_digit_str(n as u8));
        proof {
            assert(final(out)@ =~= old(out)@ + dec_digits(n as int));
        }
    } else {
        proof {
            vstd::arithmetic::div_mod::lemma_div_decreases(n as int, 10);
            vstd::arithmetic::div_mod::lemma_div_pos_is_pos(n as int, 10);
        }
        push_decimal(out, n / 10);
        out.append(hex_digit_str((n % 10) as u8));
        proof {
            assert(final(out)@ =~= old(out)@ + dec_digits(n as int));
        }
    }
}

impl Peer {
    /// Render this peer record as a JSON object, exactly as
    /// `spec_peer_json` lays it out.
    #[verifier::loop_isolation(false)]
    pub fn to_json(&self) -> (r: String)
        ensures
            r@ == spec_peer_json(self@),
    {
        let mut r = "{\"node_id\":\"".to_owned();
        r.append(self.node_id.as_str());
        r.append("\",\"name\":\"");
        r.append(self.name.as_str());
        r.append("\",\"address\":\"");
        r.append(self.address.as_str());
        r.append("\",\"connected\":");
        if self.connected {
            r.append("true");
        } else {
            r.append("false");
        }
        r.append(",\"latency_ms\":");
        match self.latency_ms {
            Some(v) => {
                push_decimal(&mut r, v);
            },
            None => {
                r.append("null");
            },
        }
        r.append(",\"capabilities\":[");

        let n = self.capabilities.len();
        let mut i: usize = 0;
        let ghost base = r@;
        while i < n
            invariant
                0 <= i <= n == self@.capabilities.len(),
                r@ == base + quoted_list(self@.capabilities.take(i as int)),
            decreases n - i,
        {
            proof {
                assert(self@.capabilities.take(i + 1).drop_last()
                    =~= self@.capabilities.take(i as int));
                assert(self@.capabilities.take(i + 1).last() == self@.capabilities[i as int]);
            }
            if i > 0 {
                r.append(",");
            }
            r.append("\"");
            r.append(self.capabilities[i].as_str());
            r.append("\"");
            proof {
                assert(r@ =~= base + quoted_list(self@.capabilities.take(i + 1)));
            }
            i = i + 1;
        }
        proof {
            assert(self@.capabilities.take(n as int) =~= self@.capabilities);
        }

        r.append("]}");
        proof {
            assert(r@ =~= spec_peer_json(self@));
        }
        r
    }
}

/// Render a list of peer records as a JSON array, the objects in order.
#[verifier::loop_isolation(false)]
pub fn peers_to_json(peers: &Vec<Peer>) -> (r: String)
    ensures
        r@ == "["@ + spec_peers_json(peers.deep_view()) + "]"@,
{
    let mut r = "[".to_owned();
    let n = peers.len();
    let mut i: usize = 0;
    let ghost views = peers.deep_view();
    while i < n
        invariant
            0 <= i <= n == views.len(),
            views == peers.deep_view(),
            r@ == "["@ + spec_peers_json(views.take(i as int)),
        decreases n - i,
    {
        proof {
            assert(views.take(i + 1).drop_last() =~= views.take(i as int));
            assert(views.take(i + 1).last() == views[i as int]);
        }
        if i > 0 {
            r.append(",");
        }
        let piece = peers[i].to_json();
        proof {
            assert(peers[i as int]@ == views[i as int]);
        }
        r.append(piece.as_str());
        proof {
            assert(r@ =~= "["@ + spec_peers_json(views.take(i + 1)));
        }
        i = i + 1;
    }
    proof {
        assert(views.take(n as int) =~= views);
    }
    r.append("]");
    proof {
        assert(r@ =~= "["@ + spec_peers_json(views) + "]"@);
    }
    r
}

} // verus!
