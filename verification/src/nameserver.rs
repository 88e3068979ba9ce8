//! Nameserver sessions: one stub resolver per distinct nameserver address.

use crate::ip::{ip_text, IpAddress};
use domain::resolv::stub::conf::{ResolvConf, ServerConf};
use domain::resolv::StubResolver;
use vstd::prelude::*;

verus! {

/// How a nameserver is talked to.
#[derive(Clone, Copy, Debug, PartialEq, Eq, Structural)]
pub enum Transport {
    /// UDP, with TCP for truncated responses.
    UdpTcp,
    /// TCP only.
    Tcp,
}

/// One configured nameserver.
#[derive(Clone, Copy, Debug, PartialEq, Eq, Structural)]
pub struct ServerAddr {
    pub ip: IpAddress,
    pub port: u16,
    pub transport: Transport,
}

/// The options of a resolver that are shown with a session.
#[derive(Clone, Copy, Debug, PartialEq, Eq, Structural)]
pub struct SessionOptions {
    pub recurse: bool,
    pub use_tcp: bool,
    pub use_edns0: bool,
    pub authoritative_only: bool,
    pub attempts: usize,
    pub timeout_secs: u64,
    pub ndots: usize,
}

/// The options of a configuration that nothing was changed in.
pub open spec fn default_options() -> SessionOptions {
    SessionOptions {
        recurse: true,
        use_tcp: false,
        use_edns0: false,
        authoritative_only: false,
        attempts: 2,
        timeout_secs: 5,
        ndots: 1,
    }
}

#[verifier::external_type_specification]
#[verifier::external_body]
pub struct ExResolvConf(ResolvConf);

#[verifier::external_type_specification]
#[verifier::external_body]
pub struct ExStubResolver(StubResolver);

/// The servers of a configuration, in order: address, port and transport of
/// each entry of its `servers` field.
pub uninterp spec fn conf_servers(conf: ResolvConf) -> Seq<ServerAddr>;

/// The shown options of a configuration: its `options` field.
pub uninterp spec fn conf_options(conf: ResolvConf) -> SessionOptions;

/// The servers that a resolver was configured with.
pub uninterp spec fn resolver_servers(resolver: StubResolver) -> Seq<ServerAddr>;

/// The shown options that a resolver was configured with.
pub uninterp spec fn resolver_options(resolver: StubResolver) -> SessionOptions;

/// Calls `ResolvConf::new`. Trusted: the configuration has no server, and
/// its options are the defaults that `ResolvOptions::default` sets.
#[verifier::external_body]
fn empty_conf() -> (conf: ResolvConf)
    ensures
        conf_servers(conf) == Seq::<ServerAddr>::empty(),
        conf_options(conf) == default_options(),
{
    ResolvConf::new()
}

/// Sets the `servers` field to the one entry that `ServerConf::new` makes
/// for the address. Trusted: the configuration then holds that server alone,
/// and its options are as before.
#[verifier::external_body]
fn set_only_server(conf: &mut ResolvConf, addr: ServerAddr)
    ensures
        conf_servers(*final(conf)) == seq![addr],
        conf_options(*final(conf)) == conf_options(*old(conf)),
{
    let socket = match addr.ip {
        IpAddress::V4(bits) => (bits.to_be_bytes(), addr.port).into(),
        IpAddress::V6(bits) => (bits.to_be_bytes(), addr.port).into(),
    };
    let transport = match addr.transport {
        Transport::UdpTcp => domain::resolv::stub::conf::Transport::UdpTcp,
        Transport::Tcp => domain::resolv::stub::conf::Transport::Tcp,
    };
    conf.servers = vec![ServerConf::new(socket, transport)];
}

/// Calls `ResolvConf::finalize`. Trusted: a configuration that has a server
/// keeps its servers, and the shown options are as before (the call only
/// completes an empty server list and an empty search list).
#[verifier::external_body]
fn finalize_conf(conf: &mut ResolvConf)
    ensures
        conf_servers(*old(conf)).len() > 0 ==> conf_servers(*final(conf)) == conf_servers(*old(conf)),
        conf_options(*final(conf)) == conf_options(*old(conf)),
{
    conf.finalize();
}

/// Calls `StubResolver::from_conf`. Trusted: the resolver takes servers and
/// options over from the configuration.
#[verifier::external_body]
fn resolver_from_conf(conf: ResolvConf) -> (resolver: StubResolver)
    ensures
        resolver_servers(resolver) == conf_servers(conf),
        resolver_options(resolver) == conf_options(conf),
{
    StubResolver::from_conf(conf)
}

/// Calls `StubResolver::options` and copies the shown fields. Trusted: they
/// are the options the resolver was configured with.
#[verifier::external_body]
fn read_options(resolver: &StubResolver) -> (options: SessionOptions)
    ensures
        options == resolver_options(*resolver),
{
    let o = resolver.options();
    SessionOptions {
        recurse: o.recurse,
        use_tcp: o.use_vc,
        use_edns0: o.use_edns0,
        authoritative_only: o.aa_only,
        attempts: o.attempts,
        timeout_secs: o.timeout.as_secs(),
        ndots: o.ndots,
    }
}

/// A resolver bound to one nameserver.
#[derive(Debug)]
pub struct NameserverSession {
    address: ServerAddr,
    display_name: String,
    resolver: StubResolver,
    options: SessionOptions,
}

/// The mathematical value of a [`NameserverSession`].
pub struct NameserverSessionView {
    pub address: ServerAddr,
    pub display_name: Seq<char>,
    pub servers: Seq<ServerAddr>,
    pub options: SessionOptions,
}

impl NameserverSessionView {
    /// The session is shown under the text of its address, its resolver
    /// asks that nameserver and no other, and its options are the defaults.
    pub open spec fn wf(self) -> bool {
        &&& self.display_name == ip_text(self.address.ip)
        &&& self.servers == seq![self.address]
        &&& self.options == default_options()
    }
}

impl View for NameserverSession {
    type V = NameserverSessionView;

    closed spec fn view(&self) -> NameserverSessionView {
        NameserverSessionView {
            address: self.address,
            display_name: self.display_name@,
            servers: resolver_servers(self.resolver),
            options: self.options,
        }
    }
}

impl NameserverSession {
    #[verifier::type_invariant]
    spec fn inv(self) -> bool {
        &&& self@.wf()
        &&& self.options == resolver_options(self.resolver)
    }

    /// Opens a session for one nameserver: a resolver of its own, with the
    /// default options, that asks this nameserver and no other.
    pub fn open(address: ServerAddr) -> (s: NameserverSession)
        ensures
            s@.address == address,
            s@.wf(),
    {
        let mut conf = empty_conf();
        set_only_server(&mut conf, address);
        finalize_conf(&mut conf);
        let resolver = resolver_from_conf(conf);
        let options = read_options(&resolver);
        NameserverSession { address, display_name: address.ip.to_text(), resolver, options }
    }

    /// The nameserver's address.
    pub fn address(&self) -> (r: ServerAddr)
        ensures
            r == self@.address,
    {
        self.address
    }

    /// The text the session is shown under: the nameserver's IP address.
    pub fn display_name(&self) -> (r: &str)
        ensures
            r@ == self@.display_name,
            self@.wf(),
    {
        proof {
            use_type_invariant(self);
        }
        self.display_name.as_str()
    }

    /// The resolver of this session.
    pub fn resolver(&self) -> (r: &StubResolver)
        ensures
            resolver_servers(*r) == self@.servers,
            resolver_options(*r) == self@.options,
            self@.wf(),
    {
        proof {
            use_type_invariant(self);
        }
        &self.resolver
    }

    /// The options the resolver works with.
    pub fn options(&self) -> (r: SessionOptions)
        ensures
            r == self@.options,
            self@.wf(),
    {
        proof {
            use_type_invariant(self);
        }
        self.options
    }
}

/// Why no set of sessions could be built.
#[derive(Clone, Copy, Debug, PartialEq, Eq, Structural)]
pub enum ConfigurationError {
    /// No nameserver was configured.
    NoNameservers,
}

/// Some entry has the address text `text`.
pub open spec fn text_known(entries: Seq<ServerAddr>, text: Seq<char>) -> bool {
    exists|j: int| 0 <= j < entries.len() && ip_text((#[trigger] entries[j]).ip) == text
}

/// The entries that a session is opened for: of the entries with one
/// address text the first, whatever its port and transport; in the order
/// given.
pub open spec fn retained(entries: Seq<ServerAddr>) -> Seq<ServerAddr>
    decreases entries.len(),
{
    if entries.len() == 0 {
        Seq::empty()
    } else if text_known(entries.drop_last(), ip_text(entries.last().ip)) {
        retained(entries.drop_last())
    } else {
        retained(entries.drop_last()).push(entries.last())
    }
}

/// The sessions of a run, one for each distinct nameserver address.
#[derive(Debug)]
pub struct NameserverSet {
    sessions: Vec<NameserverSession>,
}

/// The values of a sequence of sessions.
pub open spec fn sessions_view(sessions: Seq<NameserverSession>) -> Seq<NameserverSessionView> {
    sessions.map_values(|s: NameserverSession| s@)
}

/// The addresses of a sequence of sessions.
pub open spec fn addresses_of(sessions: Seq<NameserverSessionView>) -> Seq<ServerAddr> {
    sessions.map_values(|s: NameserverSessionView| s.address)
}

/// No two entries have the same address text.
pub open spec fn distinct_texts(entries: Seq<ServerAddr>) -> bool {
    forall|i: int, j: int|
        0 <= i < j < entries.len() ==> ip_text((#[trigger] entries[i]).ip) != ip_text((#[trigger] entries[j]).ip)
}

/// Every session is well formed and no two have the same address text.
pub open spec fn distinct_sessions(sessions: Seq<NameserverSessionView>) -> bool {
    &&& forall|i: int| 0 <= i < sessions.len() ==> (#[trigger] sessions[i]).wf()
    &&& distinct_texts(addresses_of(sessions))
}

impl View for NameserverSet {
    type V = Seq<NameserverSessionView>;

    closed spec fn view(&self) -> Seq<NameserverSessionView> {
        sessions_view(self.sessions@)
    }
}

proof fn lemma_known_step(entries: Seq<ServerAddr>, text: Seq<char>)
    requires
        entries.len() > 0,
    ensures
        text_known(entries, text) <==> (text_known(entries.drop_last(), text) || ip_text(entries.last().ip) == text),
{
    let front = entries.drop_last();
    if text_known(entries, text) {
        let j = choose|j: int| 0 <= j < entries.len() && ip_text((#[trigger] entries[j]).ip) == text;
        if j < front.len() {
            assert(ip_text(front[j].ip) == text);
        }
    }
    if text_known(front, text) {
        let j = choose|j: int| 0 <= j < front.len() && ip_text((#[trigger] front[j]).ip) == text;
        assert(ip_text(entries[j].ip) == text);
    }
    if ip_text(entries.last().ip) == text {
        assert(ip_text(entries[entries.len() - 1].ip) == text);
    }
}

/// A text is the address text of a retained entry exactly when it is that
/// of some entry.
pub proof fn lemma_retained_texts(entries: Seq<ServerAddr>, text: Seq<char>)
    ensures
        text_known(retained(entries), text) <==> text_known(entries, text),
    decreases entries.len(),
{
    if entries.len() > 0 {
        let front = entries.drop_last();
        lemma_retained_texts(front, text);
        lemma_known_step(entries, text);
        if !text_known(front, ip_text(entries.last().ip)) {
            let kept = retained(entries);
            assert(kept.drop_last() =~= retained(front));
            assert(kept.last() == entries.last());
            lemma_known_step(kept, text);
        }
    }
}

/// No two retained entries have the same address text.
pub proof fn lemma_retained_distinct(entries: Seq<ServerAddr>)
    ensures
        distinct_texts(retained(entries)),
    decreases entries.len(),
{
    if entries.len() > 0 {
        let front = entries.drop_last();
        let text = ip_text(entries.last().ip);
        lemma_retained_distinct(front);
        lemma_retained_texts(front, text);
        if !text_known(front, text) {
            let kept = retained(entries);
            let old_kept = retained(front);
            assert forall|i: int, j: int| 0 <= i < j < kept.len() implies ip_text((#[trigger] kept[i]).ip) != ip_text(
                (#[trigger] kept[j]).ip,
            ) by {
                assert(kept[i] == old_kept[i]);
                if j < old_kept.len() {
                    assert(kept[j] == old_kept[j]);
                } else {
                    assert(kept[j] == entries.last());
                }
            }
        }
    }
}

/// Of two entries with the same IP address only the first is retained,
/// whatever their ports and transports.
pub proof fn lemma_same_address_once(first: ServerAddr, second: ServerAddr)
    requires
        first.ip == second.ip,
    ensures
        retained(seq![first, second]) == seq![first],
{
    let both = seq![first, second];
    let one = both.drop_last();
    assert(one =~= seq![first]);
    assert(one.drop_last() =~= Seq::<ServerAddr>::empty());
    assert(!text_known(one.drop_last(), ip_text(first.ip)));
    assert(retained(one.drop_last()) =~= Seq::<ServerAddr>::empty());
    assert(retained(one) =~= seq![first]);
    assert(ip_text(one[0].ip) == ip_text(both.last().ip));
    assert(text_known(one, ip_text(both.last().ip)));
}

impl NameserverSet {
    #[verifier::type_invariant]
    spec fn inv(self) -> bool {
        distinct_sessions(self@)
    }

    fn holds_text(sessions: &Vec<NameserverSession>, text: &String) -> (found: bool)
        ensures
            found == text_known(addresses_of(sessions_view(sessions@)), text@),
    {
        let ghost addrs = addresses_of(sessions_view(sessions@));
        let mut k: usize = 0;
        while k < sessions.len()
            invariant
                k <= sessions.len(),
                addrs == addresses_of(sessions_view(sessions@)),
                forall|m: int| 0 <= m < k ==> ip_text((#[trigger] addrs[m]).ip) != text@,
            decreases sessions.len() - k,
        {
            let session = &sessions[k];
            proof {
                use_type_invariant(session);
                assert(sessions_view(sessions@)[k as int] == session@);
                assert(addrs[k as int] == session@.address);
            }
            if session.display_name == *text {
                return true;
            }
            k += 1;
        }
        false
    }

    /// Builds the sessions for the configured nameservers, first
    /// occurrence of an address first; fails where none is configured.
    pub fn build(configured: &Vec<ServerAddr>) -> (r: Result<NameserverSet, ConfigurationError>)
        ensures
            r is Err <==> configured@.len() == 0,
            r matches Ok(set) ==> {
                &&& addresses_of(set@) == retained(configured@)
                &&& set@.len() > 0
                &&& distinct_sessions(set@)
            },
    {
        if configured.len() == 0 {
            return Err(ConfigurationError::NoNameservers);
        }
        let mut sessions: Vec<NameserverSession> = Vec::new();
        let mut i: usize = 0;
        assert(configured@.take(0) =~= Seq::<ServerAddr>::empty());
        assert(addresses_of(sessions_view(sessions@)) =~= retained(configured@.take(0)));
        while i < configured.len()
            invariant
                i <= configured.len(),
                addresses_of(sessions_view(sessions@)) == retained(configured@.take(i as int)),
                forall|k: int| 0 <= k < sessions.len() ==> (#[trigger] sessions_view(sessions@)[k]).wf(),
                i > 0 ==> sessions.len() > 0,
            decreases configured.len() - i,
        {
            let entry = configured[i];
            let text = entry.ip.to_text();
            let ghost seen = configured@.take(i as int);
            let ghost next = configured@.take(i + 1);
            proof {
                assert(next.drop_last() =~= seen);
                assert(next.last() == entry);
                lemma_retained_texts(seen, text@);
            }
            let found = Self::holds_text(&sessions, &text);
            if !found {
                let ghost before = sessions@;
                let session = NameserverSession::open(entry);
                sessions.push(session);
                assert(sessions_view(sessions@) =~= sessions_view(before).push(session@));
                assert(addresses_of(sessions_view(sessions@)) =~= addresses_of(sessions_view(before)).push(entry));
            } else {
                assert(i > 0) by {
                    assert(seen.len() == i);
                }
            }
            i += 1;
        }
        assert(configured@.take(i as int) =~= configured@);
        proof {
            lemma_retained_distinct(configured@);
        }
        Ok(NameserverSet { sessions })
    }

    /// The number of sessions.
    pub fn len(&self) -> (n: usize)
        ensures
            n == self@.len(),
            distinct_sessions(self@),
    {
        proof {
            use_type_invariant(self);
        }
        self.sessions.len()
    }

    /// The session at `index`, in the order the nameservers were
    /// configured; none past the last.
    pub fn get(&self, index: usize) -> (r: Option<&NameserverSession>)
        ensures
            match r {
                Some(s) => index < self@.len() && s@ == self@[index as int],
                None => index >= self@.len(),
            },
    {
        if index < self.sessions.len() {
            Some(&self.sessions[index])
        } else {
            None
        }
    }
}

} // verus!
