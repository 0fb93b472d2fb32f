//! Container networking.
//!
//! A bridge connects the containers. Each container gets a veth pair: one end
//! stays on the host, attached to the bridge, the other moves into the
//! container's network namespace. Addresses are allocated from the subnet by a
//! counter, and outbound traffic is masqueraded by iptables.

use vstd::prelude::*;
use vstd::string::*;

use crate::dialogue::{
    answered, answered_at, asked, dialogue_asks_the_next_stage,
    dialogue_completes_when_every_stage_passes, end_with, halt_of, heard, walk, walk_from, Halt,
    Next, Stage, Stop, Turn,
};
use crate::error::{labelled, ContainerError, Failure};
use crate::text::{contains_text, decimal, decimal_text, has_text, list_quoted, quoted_list, views};
use crate::util::is_linux;

verus! {

/// An IPv4 address.
#[derive(Debug, Clone, Copy, PartialEq, Eq, Hash, Structural)]
pub struct Ipv4Addr {
    /// The four octets as one number, the first octet highest.
    pub bits: u32,
}

/// The number of an address with four octets.
pub open spec fn address_bits(a: u8, b: u8, c: u8, d: u8) -> int {
    a * 0x100_0000 + b * 0x1_0000 + c * 0x100 + d
}

/// An address in dotted decimal notation.
pub open spec fn dotted(bits: u32) -> Seq<char> {
    decimal((bits / 0x100_0000) as nat) + "."@ + decimal((bits / 0x1_0000 % 0x100) as nat) + "."@
        + decimal((bits / 0x100 % 0x100) as nat) + "."@ + decimal((bits % 0x100) as nat)
}

impl Ipv4Addr {
    /// The address with these four octets.
    pub fn new(a: u8, b: u8, c: u8, d: u8) -> (r: Ipv4Addr)
        ensures
            r.bits == address_bits(a, b, c, d),
    {
        Ipv4Addr { bits: a as u32 * 0x100_0000 + b as u32 * 0x1_0000 + c as u32 * 0x100 + d as u32 }
    }

    /// The address in dotted decimal notation.
    pub fn to_string(&self) -> (r: String)
        ensures
            r@ == dotted(self.bits),
    {
        let mut r = decimal_text((self.bits / 0x100_0000) as u64);
        r.append(".");
        r.append(decimal_text((self.bits / 0x1_0000 % 0x100) as u64).as_str());
        r.append(".");
        r.append(decimal_text((self.bits / 0x100 % 0x100) as u64).as_str());
        r.append(".");
        r.append(decimal_text((self.bits % 0x100) as u64).as_str());
        r
    }
}

/// Configuration of the container bridge network.
#[derive(Debug, Clone)]
pub struct NetworkConfig {
    /// Base address of the subnet (e.g. 172.28.0.0).
    pub subnet: Ipv4Addr,
    /// CIDR prefix length (e.g. 16).
    pub prefix_len: u8,
    /// Name of the bridge interface.
    pub bridge_name: String,
    /// Gateway address (assigned to the bridge).
    pub gateway: Ipv4Addr,
}

/// What a [`NetworkConfig`] says, with texts as characters.
pub struct Network {
    pub subnet: Ipv4Addr,
    pub prefix_len: u8,
    pub bridge_name: Seq<char>,
    pub gateway: Ipv4Addr,
}

impl View for NetworkConfig {
    type V = Network;

    open spec fn view(&self) -> Network {
        Network {
            subnet: self.subnet,
            prefix_len: self.prefix_len,
            bridge_name: self.bridge_name@,
            gateway: self.gateway,
        }
    }
}

impl Default for NetworkConfig {
    fn default() -> (r: NetworkConfig)
        ensures
            r.subnet.bits == address_bits(172, 28, 0, 0),
            r.prefix_len == 16,
            r.bridge_name@ == "crate0"@,
            r.gateway.bits == address_bits(172, 28, 0, 1),
    {
        NetworkConfig {
            subnet: Ipv4Addr::new(172, 28, 0, 0),
            prefix_len: 16,
            bridge_name: "crate0".to_owned(),
            gateway: Ipv4Addr::new(172, 28, 0, 1),
        }
    }
}

/// The first host number that is allocated: 0 is the network and 1 the gateway.
pub const FIRST_HOST: u32 = 2;

/// The last host number that is allocated.
pub const LAST_HOST: u32 = 0xFFFE;

/// The number of the address of host number `host`. There is none beyond the last
/// host number.
pub open spec fn allotted(subnet: Ipv4Addr, host: u32) -> Option<int> {
    if host > LAST_HOST {
        None
    } else {
        Some(subnet.bits + host)
    }
}

/// The counter of host numbers after an allocation: one more, wrapping around.
pub open spec fn next_counter(counter: u32) -> u32 {
    if counter == u32::MAX {
        0
    } else {
        (counter + 1) as u32
    }
}

/// What an allocation owes: the address, or an error when there is none.
pub open spec fn allocates(r: Result<Ipv4Addr, ContainerError>, address: Option<int>) -> bool {
    match address {
        Some(bits) => r is Ok && r->Ok_0.bits == bits,
        None => r is Err && r->Err_0@ == Failure::Network("IP address pool exhausted"@),
    }
}

/// The address of host number `host`.
pub fn host_address(config: &NetworkConfig, host: u32) -> (r: Result<Ipv4Addr, ContainerError>)
    requires
        host <= LAST_HOST ==> config.subnet.bits + host <= u32::MAX,
    ensures
        allocates(r, allotted(config.subnet, host)),
{
    if host > LAST_HOST {
        return Err(ContainerError::Network("IP address pool exhausted".to_owned()));
    }
    Ok(Ipv4Addr { bits: config.subnet.bits + host })
}

/// Set the counter of host numbers to its initial value.
pub fn reset_ip_counter(counter: &mut u32)
    ensures
        *final(counter) == FIRST_HOST,
{
    *counter = FIRST_HOST;
}

/// Allocate the next address of the configured subnet. `counter` holds the next
/// host number and is incremented, wrapping around, also when the range is
/// exhausted.
pub fn allocate_ip(config: &NetworkConfig, counter: &mut u32) -> (r: Result<
    Ipv4Addr,
    ContainerError,
>)
    requires
        *old(counter) <= LAST_HOST ==> config.subnet.bits + *old(counter) <= u32::MAX,
    ensures
        *final(counter) == next_counter(*old(counter)),
        allocates(r, allotted(config.subnet, *old(counter))),
{
    let host = *counter;
    *counter = if host == u32::MAX {
        0
    } else {
        host + 1
    };
    host_address(config, host)
}

/// The counter after `n` allocations from its initial value.
pub open spec fn counter_after(n: nat) -> u32
    decreases n,
{
    if n == 0 {
        FIRST_HOST
    } else {
        next_counter(counter_after((n - 1) as nat))
    }
}

proof fn counter_counts(n: nat)
    requires
        n + FIRST_HOST <= u32::MAX,
    ensures
        counter_after(n) == n + FIRST_HOST,
    decreases n,
{
    if n > 0 {
        counter_counts((n - 1) as nat);
    }
}

/// Starting from the initial counter, addresses are allocated in sequence: the
/// first one follows the gateway's, each later one follows the one before, until
/// the last host number has been allocated. After that allocation fails.
pub proof fn addresses_are_allocated_in_sequence(subnet: Ipv4Addr, n: nat)
    requires
        n + FIRST_HOST <= u32::MAX,
    ensures
        allotted(subnet, counter_after(n)) == (if n <= LAST_HOST - FIRST_HOST {
            Some(subnet.bits + FIRST_HOST + n)
        } else {
            None
        }),
{
    counter_counts(n);
}

/// No address is allocated twice before the counter wraps around, and neither the
/// network's address nor the gateway's is ever allocated.
pub proof fn allocated_addresses_are_distinct(subnet: Ipv4Addr, m: nat, n: nat)
    requires
        m < n,
        n + FIRST_HOST <= u32::MAX,
        allotted(subnet, counter_after(m)) is Some,
    ensures
        allotted(subnet, counter_after(m)) != allotted(subnet, counter_after(n)),
        allotted(subnet, counter_after(m))->Some_0 != subnet.bits,
        allotted(subnet, counter_after(m))->Some_0 != subnet.bits + 1,
{
    addresses_are_allocated_in_sequence(subnet, m);
    addresses_are_allocated_in_sequence(subnet, n);
}

/// The name of the host side of a container's veth pair: `veth` and the first
/// eight characters of the container id.
pub open spec fn host_veth(container_id: Seq<char>) -> Seq<char> {
    "veth"@ + (if container_id.len() <= 8 {
        container_id
    } else {
        container_id.take(8)
    })
}

/// The name of the host side of a container's veth pair.
///
/// The first eight characters of the container id keep it within the limit of 15
/// characters that Linux sets on interface names.
pub fn veth_host_name(container_id: &str) -> (r: String)
    ensures
        r@ == host_veth(container_id@),
        r@.len() <= 15,
{
    proof {
        reveal_strlit("veth");
    }
    let len = container_id.unicode_len();
    if len <= 8 {
        return labelled("veth", container_id);
    }
    let short = container_id.substring_char(0, 8);
    assert(short@ =~= container_id@.take(8));
    labelled("veth", short)
}

/// The name of the container side of a veth pair. Always `eth0`.
pub fn veth_container_name() -> (r: &'static str)
    ensures
        r@ == "eth0"@,
{
    "eth0"
}

/// A subnet in CIDR notation.
pub open spec fn cidr(subnet: Ipv4Addr, prefix_len: u8) -> Seq<char> {
    dotted(subnet.bits) + "/"@ + decimal(prefix_len as nat)
}

fn cidr_text(config: &NetworkConfig) -> (r: String)
    ensures
        r@ == cidr(config.subnet, config.prefix_len),
{
    let mut r = config.subnet.to_string();
    r.append("/");
    r.append(decimal_text(config.prefix_len as u64).as_str());
    r
}

/// The network resources of a single container.
#[derive(Debug, Clone)]
pub struct ContainerNetwork {
    /// Container identifier.
    pub container_id: String,
    /// Host side of the veth pair.
    pub veth_host: String,
    /// Container side of the veth pair (always `eth0`).
    pub veth_container: String,
    /// Address assigned to the container.
    pub ip_address: Ipv4Addr,
    /// Name of the bridge.
    pub bridge_name: String,
    /// Subnet in CIDR notation (e.g. `172.28.0.0/16`).
    pub subnet_cidr: String,
}

/// What a [`ContainerNetwork`] says, with texts as characters.
pub struct Attachment {
    pub container_id: Seq<char>,
    pub veth_host: Seq<char>,
    pub veth_container: Seq<char>,
    pub ip_address: Ipv4Addr,
    pub bridge_name: Seq<char>,
    pub subnet_cidr: Seq<char>,
}

impl View for ContainerNetwork {
    type V = Attachment;

    open spec fn view(&self) -> Attachment {
        Attachment {
            container_id: self.container_id@,
            veth_host: self.veth_host@,
            veth_container: self.veth_container@,
            ip_address: self.ip_address,
            bridge_name: self.bridge_name@,
            subnet_cidr: self.subnet_cidr@,
        }
    }
}

/// A question to the host about its network.
#[derive(Debug)]
pub enum NetCall {
    /// Open a netlink connection.
    Connect,
    /// Add a bridge.
    AddBridge(String),
    /// Add a veth pair.
    AddVeth { host: String, container: String },
    /// Find the index of an interface.
    FindLink(String),
    /// Bring an interface up.
    SetUp(u32),
    /// Attach an interface to a bridge.
    Attach { link: u32, bridge: u32 },
    /// Delete an interface.
    DeleteLink(u32),
    /// Add an address to an interface.
    AddAddress { link: u32, address: Ipv4Addr, prefix_len: u8 },
    /// Take the next host number from the counter.
    NextHost,
    /// Run iptables with these arguments.
    Iptables(Vec<String>),
    /// Write a whole file.
    WriteFile { path: String, contents: String },
}

/// What a [`NetCall`] asks, with texts as characters.
pub enum NetAsk {
    Connect,
    AddBridge(Seq<char>),
    AddVeth { host: Seq<char>, container: Seq<char> },
    FindLink(Seq<char>),
    SetUp(u32),
    Attach { link: u32, bridge: u32 },
    DeleteLink(u32),
    AddAddress { link: u32, address: Ipv4Addr, prefix_len: u8 },
    NextHost,
    Iptables(Seq<Seq<char>>),
    WriteFile { path: Seq<char>, contents: Seq<char> },
}

impl View for NetCall {
    type V = NetAsk;

    open spec fn view(&self) -> NetAsk {
        match *self {
            NetCall::Connect => NetAsk::Connect,
            NetCall::AddBridge(name) => NetAsk::AddBridge(name@),
            NetCall::AddVeth { host, container } => NetAsk::AddVeth {
                host: host@,
                container: container@,
            },
            NetCall::FindLink(name) => NetAsk::FindLink(name@),
            NetCall::SetUp(link) => NetAsk::SetUp(link),
            NetCall::Attach { link, bridge } => NetAsk::Attach { link, bridge },
            NetCall::DeleteLink(link) => NetAsk::DeleteLink(link),
            NetCall::AddAddress { link, address, prefix_len } => NetAsk::AddAddress {
                link,
                address,
                prefix_len,
            },
            NetCall::NextHost => NetAsk::NextHost,
            NetCall::Iptables(args) => NetAsk::Iptables(views(args@)),
            NetCall::WriteFile { path, contents } => NetAsk::WriteFile {
                path: path@,
                contents: contents@,
            },
        }
    }
}

/// The host's answer to a [`NetCall`].
#[derive(Debug)]
pub enum NetReply {
    /// It is done.
    Done,
    /// It failed with this text.
    Failed(String),
    /// The interface has this index.
    Index(u32),
    /// There is no such interface.
    Missing,
    /// The next host number.
    Host(u32),
    /// The command ran.
    Ran { success: bool, stderr: String },
}

/// What a [`NetReply`] says, with texts as characters.
pub enum NetAnswer {
    Done,
    Failed(Seq<char>),
    Index(u32),
    Missing,
    Host(u32),
    Ran { success: bool, stderr: Seq<char> },
}

impl View for NetReply {
    type V = NetAnswer;

    open spec fn view(&self) -> NetAnswer {
        match *self {
            NetReply::Done => NetAnswer::Done,
            NetReply::Failed(text) => NetAnswer::Failed(text@),
            NetReply::Index(index) => NetAnswer::Index(index),
            NetReply::Missing => NetAnswer::Missing,
            NetReply::Host(host) => NetAnswer::Host(host),
            NetReply::Ran { success, stderr } => NetAnswer::Ran { success, stderr: stderr@ },
        }
    }
}

/// Whether an operation that must succeed ends the dialogue.
pub open spec fn must_succeed(answer: NetAnswer, text: Seq<char>) -> Option<Halt> {
    match answer {
        NetAnswer::Done => None,
        NetAnswer::Failed(error) => Some(Halt::Fail(Failure::Network(text + error))),
        _ => Some(Halt::Stray),
    }
}

fn check_success(reply: &NetReply, text: &str) -> (r: Option<Stop>)
    ensures
        halt_of(r) == must_succeed(reply@, text@),
{
    match reply {
        NetReply::Done => None,
        NetReply::Failed(error) => Some(
            Stop::Fail(ContainerError::Network(labelled(text, error.as_str()))),
        ),
        _ => Some(Stop::Stray),
    }
}

/// Whether an answer says that what was to be created exists already.
pub open spec fn says_existing(answer: NetAnswer) -> bool {
    answer is Failed && has_text(answer->Failed_0, "File exists"@)
}

fn exists_already(reply: &NetReply) -> (r: bool)
    ensures
        r == says_existing(reply@),
{
    match reply {
        NetReply::Failed(error) => contains_text(error.as_str(), "File exists"),
        _ => false,
    }
}

/// Whether an operation ends the dialogue whose effect may be there already.
pub open spec fn may_exist(answer: NetAnswer, text: Seq<char>) -> Option<Halt> {
    if says_existing(answer) {
        None
    } else {
        must_succeed(answer, text)
    }
}

fn check_existing(reply: &NetReply, text: &str) -> (r: Option<Stop>)
    ensures
        halt_of(r) == may_exist(reply@, text@),
{
    if exists_already(reply) {
        None
    } else {
        check_success(reply, text)
    }
}

/// Whether the search for an interface ends the dialogue.
pub open spec fn must_find(answer: NetAnswer, name: Seq<char>) -> Option<Halt> {
    match answer {
        NetAnswer::Index(_) => None,
        NetAnswer::Missing | NetAnswer::Failed(_) => Some(
            Halt::Fail(Failure::Network("Interface "@ + name + " not found"@)),
        ),
        _ => Some(Halt::Stray),
    }
}

fn find_index(reply: &NetReply, name: &str) -> (r: Result<u32, Stop>)
    ensures
        match r {
            Ok(index) => reply@ == NetAnswer::Index(index) && must_find(reply@, name@) is None,
            Err(stop) => must_find(reply@, name@) == Some(stop@),
        },
{
    match reply {
        NetReply::Index(index) => Ok(*index),
        NetReply::Missing | NetReply::Failed(_) => {
            let mut text = labelled("Interface ", name);
            text.append(" not found");
            Err(Stop::Fail(ContainerError::Network(text)))
        },
        _ => Err(Stop::Stray),
    }
}

/// Whether a run of iptables ends the dialogue. A complaint that something is
/// there already does not.
pub open spec fn must_apply(answer: NetAnswer, args: Seq<Seq<char>>) -> Option<Halt> {
    match answer {
        NetAnswer::Ran { success, stderr } => if success || has_text(stderr, "already exists"@) {
            None
        } else {
            Some(
                Halt::Fail(
                    Failure::Network("iptables "@ + quoted_list(args) + " failed: "@ + stderr),
                ),
            )
        },
        NetAnswer::Failed(error) => Some(
            Halt::Fail(Failure::Network("Failed to run iptables: "@ + error)),
        ),
        _ => Some(Halt::Stray),
    }
}

fn check_iptables(reply: &NetReply, args: &Vec<String>) -> (r: Option<Stop>)
    ensures
        halt_of(r) == must_apply(reply@, views(args@)),
{
    match reply {
        NetReply::Ran { success, stderr } => {
            if *success || contains_text(stderr.as_str(), "already exists") {
                return None;
            }
            let mut text = labelled("iptables ", list_quoted(args).as_str());
            text.append(" failed: ");
            text.append(stderr.as_str());
            Some(Stop::Fail(ContainerError::Network(text)))
        },
        NetReply::Failed(error) => Some(
            Stop::Fail(
                ContainerError::Network(labelled("Failed to run iptables: ", error.as_str())),
            ),
        ),
        _ => Some(Stop::Stray),
    }
}

/// The arguments with which iptables adds (`-A`) or deletes (`-D`) the rule that
/// masquerades the outbound traffic of a subnet.
pub open spec fn masquerade(action: Seq<char>, subnet: Seq<char>) -> Seq<Seq<char>> {
    seq!["-t"@, "nat"@, action, "POSTROUTING"@, "-s"@, subnet, "-j"@, "MASQUERADE"@]
}

fn masquerade_args(action: &str, subnet: &str) -> (r: Vec<String>)
    ensures
        views(r@) == masquerade(action@, subnet@),
{
    let r = vec![
        "-t".to_owned(),
        "nat".to_owned(),
        action.to_owned(),
        "POSTROUTING".to_owned(),
        "-s".to_owned(),
        subnet.to_owned(),
        "-j".to_owned(),
        "MASQUERADE".to_owned(),
    ];
    assert(views(r@) =~= masquerade(action@, subnet@));
    r
}

/// Manages the bridge network and the veth pairs of the containers.
///
/// [`NetworkManager::setup_bridge`] is performed once, then
/// [`NetworkManager::create_container_network`] for each container.
#[derive(Debug)]
pub struct NetworkManager {
    pub config: NetworkConfig,
}

/// The stages that set up the bridge, given the answers so far.
pub open spec fn bridge_stages(config: Network, said: Seq<NetAnswer>) -> Seq<Stage<NetAsk>> {
    let bridge = config.bridge_name;
    let link = said[2]->Index_0;
    let rule = masquerade("-A"@, cidr(config.subnet, config.prefix_len));
    seq![
        Stage {
            ask: NetAsk::Connect,
            halt: must_succeed(said[0], "Failed to open netlink connection: "@),
        },
        Stage {
            ask: NetAsk::AddBridge(bridge),
            halt: must_succeed(said[1], "Failed to create bridge "@ + bridge + ": "@),
        },
        Stage { ask: NetAsk::FindLink(bridge), halt: must_find(said[2], bridge) },
        Stage {
            ask: NetAsk::SetUp(link),
            halt: must_succeed(said[3], "Failed to bring up bridge "@ + bridge + ": "@),
        },
        Stage {
            ask: NetAsk::AddAddress {
                link,
                address: config.gateway,
                prefix_len: config.prefix_len,
            },
            halt: may_exist(
                said[4],
                "Failed to add address "@ + dotted(config.gateway.bits) + " to "@ + bridge + ": "@,
            ),
        },
        Stage { ask: NetAsk::Iptables(rule), halt: must_apply(said[5], rule) },
        Stage {
            ask: NetAsk::WriteFile { path: "/proc/sys/net/ipv4/ip_forward"@, contents: "1"@ },
            halt: must_succeed(said[6], "Failed to enable IP forwarding: "@),
        },
    ]
}

/// The turn of the setup of the bridge after the answers so far. A bridge that exists
/// already is left as it is.
pub open spec fn bridge_turn(
    config: Network,
    os: Seq<char>,
    said: Seq<NetAnswer>,
) -> Turn<NetAsk, ()> {
    if os == "linux"@ {
        if said.len() >= 2 && must_succeed(said[0], "Failed to open netlink connection: "@) is None
            && says_existing(said[1]) {
            Turn::Done(())
        } else {
            walk(bridge_stages(config, said), said.len(), ())
        }
    } else {
        Turn::Fail(Failure::Network("Bridge networking is only supported on Linux"@))
    }
}

/// The network of a container with a given host number.
pub open spec fn attachment(config: Network, container_id: Seq<char>, host: u32) -> Attachment {
    Attachment {
        container_id,
        veth_host: host_veth(container_id),
        veth_container: "eth0"@,
        ip_address: Ipv4Addr { bits: (config.subnet.bits + host) as u32 },
        bridge_name: config.bridge_name,
        subnet_cidr: cidr(config.subnet, config.prefix_len),
    }
}

/// Whether the allocation of a host number ends the dialogue.
pub open spec fn must_allocate(answer: NetAnswer) -> Option<Halt> {
    match answer {
        NetAnswer::Host(host) => if host > LAST_HOST {
            Some(Halt::Fail(Failure::Network("IP address pool exhausted"@)))
        } else {
            None
        },
        _ => Some(Halt::Stray),
    }
}

/// The stages that create the network of a container, given the answers so far.
pub open spec fn attach_stages(
    config: Network,
    container_id: Seq<char>,
    said: Seq<NetAnswer>,
) -> Seq<Stage<NetAsk>> {
    let veth = host_veth(container_id);
    let bridge = said[2]->Index_0;
    let link = said[3]->Index_0;
    let address = Ipv4Addr { bits: (config.subnet.bits + said[6]->Host_0) as u32 };
    seq![
        Stage {
            ask: NetAsk::Connect,
            halt: must_succeed(said[0], "Failed to open netlink connection: "@),
        },
        Stage {
            ask: NetAsk::AddVeth { host: veth, container: "eth0"@ },
            halt: must_succeed(said[1], "Failed to create veth pair: "@),
        },
        Stage {
            ask: NetAsk::FindLink(config.bridge_name),
            halt: must_find(said[2], config.bridge_name),
        },
        Stage { ask: NetAsk::FindLink(veth), halt: must_find(said[3], veth) },
        Stage {
            ask: NetAsk::Attach { link, bridge },
            halt: must_succeed(said[4], "Failed to attach "@ + veth + " to bridge: "@),
        },
        Stage {
            ask: NetAsk::SetUp(link),
            halt: must_succeed(said[5], "Failed to bring up "@ + veth + ": "@),
        },
        Stage { ask: NetAsk::NextHost, halt: must_allocate(said[6]) },
        Stage { ask: NetAsk::FindLink("eth0"@), halt: must_find(said[7], "eth0"@) },
        Stage {
            ask: NetAsk::AddAddress {
                link: said[7]->Index_0,
                address,
                prefix_len: config.prefix_len,
            },
            halt: must_succeed(
                said[8],
                "Failed to assign "@ + dotted(address.bits) + " to "@ + "eth0"@ + ": "@,
            ),
        },
    ]
}

/// The turn of the creation of a container's network after the answers so far.
pub open spec fn attach_turn(
    config: Network,
    container_id: Seq<char>,
    os: Seq<char>,
    said: Seq<NetAnswer>,
) -> Turn<NetAsk, Attachment> {
    if os == "linux"@ {
        walk(
            attach_stages(config, container_id, said),
            said.len(),
            attachment(config, container_id, said[6]->Host_0),
        )
    } else {
        Turn::Fail(Failure::Network("Container networking is only supported on Linux"@))
    }
}

/// Whether every host number among the answers that is allocated leads to an
/// address.
pub open spec fn addresses_fit(config: Network, said: Seq<NetAnswer>) -> bool {
    forall|i: int|
        0 <= i < said.len() ==> match #[trigger] said[i] {
            NetAnswer::Host(host) => host <= LAST_HOST ==> config.subnet.bits + host <= u32::MAX,
            _ => true,
        }
}

impl NetworkManager {
    /// Create a new network manager with the given configuration.
    pub fn new(config: NetworkConfig) -> (r: NetworkManager)
        ensures
            r.config == config,
    {
        NetworkManager { config }
    }

    /// Create a new network manager with the default configuration.
    pub fn with_defaults() -> (r: NetworkManager)
        ensures
            r.config.subnet.bits == address_bits(172, 28, 0, 0),
            r.config.prefix_len == 16,
            r.config.bridge_name@ == "crate0"@,
            r.config.gateway.bits == address_bits(172, 28, 0, 1),
    {
        NetworkManager::new(NetworkConfig::default())
    }

    /// The configuration.
    pub fn config(&self) -> (r: &NetworkConfig)
        ensures
            *r == self.config,
    {
        &self.config
    }

    /// The dialogue that creates the bridge, assigns the gateway address to it and
    /// lets outbound traffic through. If the bridge exists already, nothing else is
    /// done. `os` names the target operating system; `replies` holds the answers so
    /// far.
    pub fn setup_bridge(&self, os: &str, replies: &Vec<NetReply>) -> (r: Next<NetCall, ()>)
        ensures
            r@ == bridge_turn(self.config@, os@, heard(replies@)),
    {
        let ghost said = heard(replies@);
        let ghost stages = bridge_stages(self.config@, said);
        proof {
            reveal_with_fuel(walk_from, 8);
        }
        if !is_linux(os) {
            return Next::Fail(
                ContainerError::Network("Bridge networking is only supported on Linux".to_owned()),
            );
        }
        let bridge = self.config.bridge_name.as_str();
        let len = replies.len();
        if len == 0 {
            return Next::Ask(NetCall::Connect);
        }
        if let Some(stop) = check_success(&replies[0], "Failed to open netlink connection: ") {
            return end_with(stop);
        }
        if len == 1 {
            return Next::Ask(NetCall::AddBridge(bridge.to_owned()));
        }
        let mut text = labelled("Failed to create bridge ", bridge);
        text.append(": ");
        if exists_already(&replies[1]) {
            return Next::Done(());
        }
        if let Some(stop) = check_success(&replies[1], text.as_str()) {
            return end_with(stop);
        }
        if len == 2 {
            return Next::Ask(NetCall::FindLink(bridge.to_owned()));
        }
        let link: u32 = match find_index(&replies[2], bridge) {
            Err(stop) => return end_with(stop),
            Ok(link) => link,
        };
        if len == 3 {
            return Next::Ask(NetCall::SetUp(link));
        }
        let mut text = labelled("Failed to bring up bridge ", bridge);
        text.append(": ");
        if let Some(stop) = check_success(&replies[3], text.as_str()) {
            return end_with(stop);
        }
        let address = self.config.gateway;
        if len == 4 {
            return Next::Ask(
                NetCall::AddAddress { link, address, prefix_len: self.config.prefix_len },
            );
        }
        let mut text = labelled("Failed to add address ", address.to_string().as_str());
        text.append(" to ");
        text.append(bridge);
        text.append(": ");
        if let Some(stop) = check_existing(&replies[4], text.as_str()) {
            return end_with(stop);
        }
        let args = masquerade_args("-A", cidr_text(&self.config).as_str());
        if len == 5 {
            return Next::Ask(NetCall::Iptables(args));
        }
        if let Some(stop) = check_iptables(&replies[5], &args) {
            return end_with(stop);
        }
        if len == 6 {
            return Next::Ask(
                NetCall::WriteFile {
                    path: "/proc/sys/net/ipv4/ip_forward".to_owned(),
                    contents: "1".to_owned(),
                },
            );
        }
        if let Some(stop) = check_success(&replies[6], "Failed to enable IP forwarding: ") {
            return end_with(stop);
        }
        Next::Done(())
    }

    /// The dialogue that creates a veth pair, attaches one end to the bridge and
    /// allocates an address for the other. `os` names the target operating system;
    /// `replies` holds the answers so far.
    ///
    /// The container side (`eth0`) must be moved into the container's network
    /// namespace by the caller.
    pub fn create_container_network(
        &self,
        container_id: &str,
        os: &str,
        replies: &Vec<NetReply>,
    ) -> (r: Next<NetCall, ContainerNetwork>)
        requires
            addresses_fit(self.config@, heard(replies@)),
        ensures
            r@ == attach_turn(self.config@, container_id@, os@, heard(replies@)),
    {
        let ghost said = heard(replies@);
        let ghost stages = attach_stages(self.config@, container_id@, said);
        proof {
            reveal_with_fuel(walk_from, 10);
        }
        if !is_linux(os) {
            return Next::Fail(
                ContainerError::Network(
                    "Container networking is only supported on Linux".to_owned(),
                ),
            );
        }
        let bridge_name = self.config.bridge_name.as_str();
        let veth = veth_host_name(container_id);
        let peer = veth_container_name();
        let len = replies.len();
        if len == 0 {
            return Next::Ask(NetCall::Connect);
        }
        if let Some(stop) = check_success(&replies[0], "Failed to open netlink connection: ") {
            return end_with(stop);
        }
        if len == 1 {
            return Next::Ask(NetCall::AddVeth { host: veth, container: peer.to_owned() });
        }
        if let Some(stop) = check_success(&replies[1], "Failed to create veth pair: ") {
            return end_with(stop);
        }
        if len == 2 {
            return Next::Ask(NetCall::FindLink(bridge_name.to_owned()));
        }
        let bridge: u32 = match find_index(&replies[2], bridge_name) {
            Err(stop) => return end_with(stop),
            Ok(bridge) => bridge,
        };
        if len == 3 {
            return Next::Ask(NetCall::FindLink(veth));
        }
        let link: u32 = match find_index(&replies[3], veth.as_str()) {
            Err(stop) => return end_with(stop),
            Ok(link) => link,
        };
        if len == 4 {
            return Next::Ask(NetCall::Attach { link, bridge });
        }
        let mut text = labelled("Failed to attach ", veth.as_str());
        text.append(" to bridge: ");
        if let Some(stop) = check_success(&replies[4], text.as_str()) {
            return end_with(stop);
        }
        if len == 5 {
            return Next::Ask(NetCall::SetUp(link));
        }
        let mut text = labelled("Failed to bring up ", veth.as_str());
        text.append(": ");
        if let Some(stop) = check_success(&replies[5], text.as_str()) {
            return end_with(stop);
        }
        if len == 6 {
            return Next::Ask(NetCall::NextHost);
        }
        assert(said[6] == replies@[6]@);
        let host: u32 = match &replies[6] {
            NetReply::Host(host) => *host,
            _ => return Next::Stray,
        };
        let address = match host_address(&self.config, host) {
            Err(error) => return Next::Fail(error),
            Ok(address) => address,
        };
        assert(address.bits == (self.config.subnet.bits + host) as u32);
        if len == 7 {
            return Next::Ask(NetCall::FindLink(peer.to_owned()));
        }
        let peer_link: u32 = match find_index(&replies[7], peer) {
            Err(stop) => return end_with(stop),
            Ok(link) => link,
        };
        if len == 8 {
            return Next::Ask(
                NetCall::AddAddress {
                    link: peer_link,
                    address,
                    prefix_len: self.config.prefix_len,
                },
            );
        }
        let mut text = labelled("Failed to assign ", address.to_string().as_str());
        text.append(" to ");
        text.append(peer);
        text.append(": ");
        if let Some(stop) = check_success(&replies[8], text.as_str()) {
            return end_with(stop);
        }
        Next::Done(
            ContainerNetwork {
                container_id: container_id.to_owned(),
                veth_host: veth,
                veth_container: peer.to_owned(),
                ip_address: address,
                bridge_name: bridge_name.to_owned(),
                subnet_cidr: cidr_text(&self.config),
            },
        )
    }
}

/// Whether the search for an interface that may be gone ends the dialogue.
pub open spec fn may_be_gone(answer: NetAnswer) -> Option<Halt> {
    match answer {
        NetAnswer::Index(_) | NetAnswer::Missing | NetAnswer::Failed(_) => None,
        _ => Some(Halt::Stray),
    }
}

/// Whether a run of iptables whose result does not matter ends the dialogue.
pub open spec fn may_fail(answer: NetAnswer) -> Option<Halt> {
    match answer {
        NetAnswer::Ran { .. } | NetAnswer::Failed(_) => None,
        _ => Some(Halt::Stray),
    }
}

/// The stages that remove the network of a container, given the answers so far.
/// The interface is deleted only when it is found.
pub open spec fn detach_stages(
    network: Attachment,
    said: Seq<NetAnswer>,
) -> Seq<Stage<NetAsk>> {
    let rule = NetAsk::Iptables(masquerade("-D"@, network.subnet_cidr));
    let search = seq![
        Stage {
            ask: NetAsk::Connect,
            halt: must_succeed(said[0], "Failed to open netlink connection: "@),
        },
        Stage { ask: NetAsk::FindLink(network.veth_host), halt: may_be_gone(said[1]) },
    ];
    if said[1] is Index {
        search.push(
            Stage {
                ask: NetAsk::DeleteLink(said[1]->Index_0),
                halt: must_succeed(
                    said[2],
                    "Failed to delete veth "@ + network.veth_host + ": "@,
                ),
            },
        ).push(Stage { ask: rule, halt: may_fail(said[3]) })
    } else {
        search.push(Stage { ask: rule, halt: may_fail(said[2]) })
    }
}

/// The turn of the removal of a container's network after the answers so far.
pub open spec fn detach_turn(
    network: Attachment,
    os: Seq<char>,
    said: Seq<NetAnswer>,
) -> Turn<NetAsk, ()> {
    if os == "linux"@ {
        walk(detach_stages(network, said), said.len(), ())
    } else {
        Turn::Fail(Failure::Network("Container networking is only supported on Linux"@))
    }
}

impl ContainerNetwork {
    /// The dialogue that removes the veth pair and the rule that masquerades its
    /// subnet. Deleting the host side removes the peer too; the rule may be shared,
    /// so its removal may fail. `os` names the target operating system; `replies`
    /// holds the answers so far.
    pub fn cleanup(&self, os: &str, replies: &Vec<NetReply>) -> (r: Next<NetCall, ()>)
        ensures
            r@ == detach_turn(self@, os@, heard(replies@)),
    {
        let ghost said = heard(replies@);
        let ghost stages = detach_stages(self@, said);
        proof {
            reveal_with_fuel(walk_from, 5);
        }
        if !is_linux(os) {
            return Next::Fail(
                ContainerError::Network(
                    "Container networking is only supported on Linux".to_owned(),
                ),
            );
        }
        let veth = self.veth_host.as_str();
        let len = replies.len();
        if len == 0 {
            return Next::Ask(NetCall::Connect);
        }
        if let Some(stop) = check_success(&replies[0], "Failed to open netlink connection: ") {
            return end_with(stop);
        }
        if len == 1 {
            return Next::Ask(NetCall::FindLink(veth.to_owned()));
        }
        assert(said[1] == replies@[1]@);
        let mut at: usize = 2;
        match &replies[1] {
            NetReply::Index(link) => {
                if len == 2 {
                    return Next::Ask(NetCall::DeleteLink(*link));
                }
                let mut text = labelled("Failed to delete veth ", veth);
                text.append(": ");
                if let Some(stop) = check_success(&replies[2], text.as_str()) {
                    return end_with(stop);
                }
                at = 3;
            },
            NetReply::Missing | NetReply::Failed(_) => {},
            _ => return Next::Stray,
        }
        if len == at {
            return Next::Ask(
                NetCall::Iptables(masquerade_args("-D", self.subnet_cidr.as_str())),
            );
        }
        assert(said[at as int] == replies@[at as int]@);
        match &replies[at] {
            NetReply::Ran { .. } | NetReply::Failed(_) => Next::Done(()),
            _ => Next::Stray,
        }
    }
}

/// A network that was created has the address of the host number that was
/// allocated for it, beyond the gateway's when the number was, and an interface
/// name of at most 15 characters.
pub proof fn created_network_holds_an_allocated_address(
    config: Network,
    container_id: Seq<char>,
    said: Seq<NetAnswer>,
)
    requires
        addresses_fit(config, said),
        attach_turn(config, container_id, "linux"@, said) is Done,
    ensures
        said[6] is Host,
        allotted(config.subnet, said[6]->Host_0) == Some(
            attach_turn(config, container_id, "linux"@, said)->Done_0.ip_address.bits as int,
        ),
        attach_turn(config, container_id, "linux"@, said)->Done_0.veth_host.len() <= 15,
{
    reveal_strlit("veth");
    let stages = attach_stages(config, container_id, said);
    let result = attachment(config, container_id, said[6]->Host_0);
    crate::dialogue::dialogue_completes_when_every_stage_passes(stages, said.len(), result);
    assert(stages[6].halt is None);
}

/// The setup of a bridge that exists already is done at once: nothing is asked of the
/// host after it has said so.
pub proof fn existing_bridge_is_left_alone(config: Network, said: Seq<NetAnswer>)
    requires
        said.len() >= 2,
        must_succeed(said[0], "Failed to open netlink connection: "@) is None,
        said[1] is Failed,
        has_text(said[1]->Failed_0, "File exists"@),
    ensures
        bridge_turn(config, "linux"@, said) == Turn::<NetAsk, ()>::Done(()),
{
}

/// The turns of the setup of a bridge on Linux.
pub open spec fn bridge_turns(config: Network) -> spec_fn(Seq<NetAnswer>) -> Turn<NetAsk, ()> {
    |said: Seq<NetAnswer>| bridge_turn(config, "linux"@, said)
}

/// The turns of the creation of a container's network on Linux.
pub open spec fn attach_turns(config: Network, container_id: Seq<char>) -> spec_fn(
    Seq<NetAnswer>,
) -> Turn<NetAsk, Attachment> {
    |said: Seq<NetAnswer>| attach_turn(config, container_id, "linux"@, said)
}

/// The turns of the removal of a container's network on Linux.
pub open spec fn detach_turns(network: Attachment) -> spec_fn(Seq<NetAnswer>) -> Turn<NetAsk, ()> {
    |said: Seq<NetAnswer>| detach_turn(network, "linux"@, said)
}

/// What an earlier turn asked is what the stage of the whole dialogue asks.
proof fn attach_asked(config: Network, container_id: Seq<char>, said: Seq<NetAnswer>, n: int)
    requires
        0 <= n < said.len(),
        n < 9,
        forall|i: int|
            0 <= i < n ==> (#[trigger] attach_stages(config, container_id, said)[i]).halt is None,
    ensures
        answered_at(
            attach_turns(config, container_id),
            said,
            n,
            attach_stages(config, container_id, said)[n].ask,
            said[n],
        ),
{
    let whole = attach_stages(config, container_id, said);
    let part = attach_stages(config, container_id, said.take(n));
    let result = attachment(config, container_id, said.take(n)[6]->Host_0);
    assert forall|i: int| 0 <= i < n implies (#[trigger] part[i]).halt is None by {
        assert(whole[i].halt is None);
        assert(said.take(n)[i] == said[i]);
        assert(part[i].halt == whole[i].halt);
    }
    dialogue_asks_the_next_stage(part, n as nat, result);
    assert(part[n].ask == whole[n].ask);
}

/// A container's interface is attached to the bridge of the configuration: the bridge of
/// the attachment is the one that was found under the configured name, and the interface
/// is the host side of the pair that was created for the container.
pub proof fn container_is_attached_to_the_configured_bridge(
    config: Network,
    container_id: Seq<char>,
    said: Seq<NetAnswer>,
    link: u32,
    bridge: u32,
)
    requires
        attach_turn(config, container_id, "linux"@, said) == Turn::<NetAsk, Attachment>::Ask(
            NetAsk::Attach { link, bridge },
        ),
    ensures
        ({
            let turns = attach_turns(config, container_id);
            let name = "veth"@ + container_id.take(
                if container_id.len() < 8 {
                    container_id.len() as int
                } else {
                    8
                },
            );
            &&& answered(
                turns,
                said,
                NetAsk::FindLink(config.bridge_name),
                NetAnswer::Index(bridge),
            )
            &&& answered(
                turns,
                said,
                NetAsk::AddVeth { host: name, container: "eth0"@ },
                NetAnswer::Done,
            )
            &&& answered(turns, said, NetAsk::FindLink(name), NetAnswer::Index(link))
        }),
{
    let stages = attach_stages(config, container_id, said);
    let result = attachment(config, container_id, said[6]->Host_0);
    dialogue_asks_the_next_stage(stages, said.len(), result);
    assert(said.len() == 4);
    assert(stages[0].halt is None && stages[1].halt is None && stages[2].halt is None
        && stages[3].halt is None);
    attach_asked(config, container_id, said, 1);
    attach_asked(config, container_id, said, 2);
    attach_asked(config, container_id, said, 3);
    if container_id.len() <= 8 {
        assert(container_id.take(container_id.len() as int) =~= container_id);
    }
}

/// Whether a host made a network as it was asked to, with this host number, and with
/// these indices of the bridge and of the two sides of the pair of interfaces.
pub open spec fn made_for(
    config: Network,
    container_id: Seq<char>,
    said: Seq<NetAnswer>,
    network: Attachment,
    host: u32,
    bridge: u32,
    link: u32,
    peer: u32,
) -> bool {
    let turns = attach_turns(config, container_id);
    &&& host <= 65534
    &&& network.ip_address.bits == config.subnet.bits + host
    &&& answered(turns, said, NetAsk::NextHost, NetAnswer::Host(host))
    &&& answered(
        turns,
        said,
        NetAsk::AddVeth { host: network.veth_host, container: network.veth_container },
        NetAnswer::Done,
    )
    &&& answered(
        turns,
        said,
        NetAsk::FindLink(network.bridge_name),
        NetAnswer::Index(bridge),
    )
    &&& answered(
        turns,
        said,
        NetAsk::FindLink(network.veth_host),
        NetAnswer::Index(link),
    )
    &&& answered(
        turns,
        said,
        NetAsk::FindLink(network.veth_container),
        NetAnswer::Index(peer),
    )
    &&& answered(
        turns,
        said,
        NetAsk::Attach { link, bridge },
        NetAnswer::Done,
    )
    &&& answered(turns, said, NetAsk::SetUp(link), NetAnswer::Done)
    &&& answered(
        turns,
        said,
        NetAsk::AddAddress {
            link: peer,
            address: Ipv4Addr { bits: (config.subnet.bits + host) as u32 },
            prefix_len: config.prefix_len,
        },
        NetAnswer::Done,
    )
}

/// When the network of a container has been created, the host has created a pair of
/// interfaces for the container, has attached its host side to the configured bridge and
/// brought it up, and has given the container side the address that the result names: the
/// one of the host number that was allotted, in the configured subnet.
pub proof fn created_network_is_what_the_host_was_asked_for(
    config: Network,
    container_id: Seq<char>,
    said: Seq<NetAnswer>,
    network: Attachment,
)
    requires
        addresses_fit(config, said),
        attach_turn(config, container_id, "linux"@, said) == Turn::<NetAsk, Attachment>::Done(
            network,
        ),
    ensures
        network.container_id == container_id,
        network.bridge_name == config.bridge_name,
        network.veth_container == "eth0"@,
        network.veth_host == "veth"@ + container_id.take(
            if container_id.len() < 8 {
                container_id.len() as int
            } else {
                8
            },
        ),
        exists|host: u32, bridge: u32, link: u32, peer: u32|
            made_for(config, container_id, said, network, host, bridge, link, peer),
{
    let stages = attach_stages(config, container_id, said);
    let result = attachment(config, container_id, said[6]->Host_0);
    dialogue_completes_when_every_stage_passes(stages, said.len(), result);
    assert(forall|i: int| 0 <= i < 9 ==> (#[trigger] stages[i]).halt is None);
    assert(stages[0].halt is None && stages[1].halt is None && stages[2].halt is None
        && stages[3].halt is None && stages[4].halt is None && stages[5].halt is None
        && stages[6].halt is None && stages[7].halt is None && stages[8].halt is None);
    attach_asked(config, container_id, said, 1);
    attach_asked(config, container_id, said, 2);
    attach_asked(config, container_id, said, 3);
    attach_asked(config, container_id, said, 4);
    attach_asked(config, container_id, said, 5);
    attach_asked(config, container_id, said, 6);
    attach_asked(config, container_id, said, 7);
    attach_asked(config, container_id, said, 8);
    if container_id.len() <= 8 {
        assert(container_id.take(container_id.len() as int) =~= container_id);
    }
    let host = said[6]->Host_0;
    let bridge = said[2]->Index_0;
    let link = said[3]->Index_0;
    let peer = said[7]->Index_0;
    assert(said[6] == NetAnswer::Host(host));
    assert(made_for(config, container_id, said, network, host, bridge, link, peer));
}

/// An address is written as its four octets, the highest first, with dots between them.
pub proof fn address_is_written_octet_by_octet(address: Ipv4Addr, a: u8, b: u8, c: u8, d: u8)
    requires
        address.bits == a * 16777216 + b * 65536 + c * 256 + d,
    ensures
        dotted(address.bits) == decimal(a as nat) + "."@ + decimal(b as nat) + "."@ + decimal(
            c as nat,
        ) + "."@ + decimal(d as nat),
        address_bits(a, b, c, d) == address.bits,
{
    let bits = address.bits;
    assert(bits / 0x100_0000 == a && bits / 0x1_0000 % 0x100 == b && bits / 0x100 % 0x100 == c
        && bits % 0x100 == d) by (bit_vector)
        requires
            bits == a * 16777216 + b * 65536 + c * 256 + d,
    ;
}

proof fn bridge_asked(config: Network, said: Seq<NetAnswer>, n: int)
    requires
        0 <= n < said.len(),
        n < 7,
        said.len() >= 2 ==> !says_existing(said[1]),
        forall|i: int| 0 <= i < n ==> (#[trigger] bridge_stages(config, said)[i]).halt is None,
    ensures
        answered_at(bridge_turns(config), said, n, bridge_stages(config, said)[n].ask, said[n]),
{
    let whole = bridge_stages(config, said);
    let part = bridge_stages(config, said.take(n));
    assert forall|i: int| 0 <= i < n implies (#[trigger] part[i]).halt is None by {
        assert(whole[i].halt is None);
        assert(said.take(n)[i] == said[i]);
        assert(part[i].halt == whole[i].halt);
    }
    dialogue_asks_the_next_stage(part, n as nat, ());
    assert(part[n].ask == whole[n].ask);
    if n >= 2 {
        assert(said.take(n)[1] == said[1]);
    }
}

/// Whether an answer is one of success, or says that the thing is there already.
pub open spec fn holds_now(answer: NetAnswer) -> bool {
    match answer {
        NetAnswer::Done => true,
        NetAnswer::Failed(text) => has_text(text, "File exists"@),
        NetAnswer::Ran { success, stderr } => success || has_text(stderr, "already exists"@),
        _ => false,
    }
}

/// Whether a host set a bridge up as it was asked to, with this index, these answers to
/// the address and to the rule.
pub open spec fn set_up_as(
    config: Network,
    said: Seq<NetAnswer>,
    link: u32,
    added: NetAnswer,
    ruled: NetAnswer,
) -> bool {
    let turns = bridge_turns(config);
    let subnet = dotted(config.subnet.bits) + "/"@ + decimal(config.prefix_len as nat);
    &&& answered(turns, said, NetAsk::AddBridge(config.bridge_name), NetAnswer::Done)
    &&& answered(turns, said, NetAsk::FindLink(config.bridge_name), NetAnswer::Index(link))
    &&& answered(turns, said, NetAsk::SetUp(link), NetAnswer::Done)
    &&& answered(
        turns,
        said,
        NetAsk::AddAddress { link, address: config.gateway, prefix_len: config.prefix_len },
        added,
    )
    &&& holds_now(added)
    &&& answered(
        turns,
        said,
        NetAsk::Iptables(
            seq!["-t"@, "nat"@, "-A"@, "POSTROUTING"@, "-s"@, subnet, "-j"@, "MASQUERADE"@],
        ),
        ruled,
    )
    &&& holds_now(ruled)
    &&& answered(
        turns,
        said,
        NetAsk::WriteFile { path: "/proc/sys/net/ipv4/ip_forward"@, contents: "1"@ },
        NetAnswer::Done,
    )
}

/// When the setup of a bridge is done that did not exist, the host has created the bridge
/// with the configured name, has given it the configured gateway address and brought it
/// up, masquerades what comes from the configured subnet, and forwards packets.
pub proof fn bridge_is_set_up_as_configured(config: Network, said: Seq<NetAnswer>)
    requires
        bridge_turn(config, "linux"@, said) is Done,
        !says_existing(said[1]),
    ensures
        exists|link: u32, added: NetAnswer, ruled: NetAnswer|
            set_up_as(config, said, link, added, ruled),
{
    let stages = bridge_stages(config, said);
    dialogue_completes_when_every_stage_passes(stages, said.len(), ());
    assert(stages[0].halt is None && stages[1].halt is None && stages[2].halt is None
        && stages[3].halt is None && stages[4].halt is None && stages[5].halt is None
        && stages[6].halt is None);
    bridge_asked(config, said, 1);
    bridge_asked(config, said, 2);
    bridge_asked(config, said, 3);
    bridge_asked(config, said, 4);
    bridge_asked(config, said, 5);
    bridge_asked(config, said, 6);
    assert(set_up_as(config, said, said[2]->Index_0, said[4], said[5]));
}

proof fn detach_asked(network: Attachment, said: Seq<NetAnswer>, n: int)
    requires
        0 <= n < said.len(),
        n < detach_stages(network, said).len(),
        forall|i: int| 0 <= i < n ==> (#[trigger] detach_stages(network, said)[i]).halt is None,
    ensures
        answered_at(detach_turns(network), said, n, detach_stages(network, said)[n].ask, said[n]),
{
    let whole = detach_stages(network, said);
    let part = detach_stages(network, said.take(n));
    assert forall|i: int| 0 <= i < n implies said.take(n)[i] == said[i] by {}
    reveal_with_fuel(walk_from, 5);
    if n >= 1 {
        assert(whole[0].halt is None);
    }
    if n >= 2 {
        assert(whole[1].halt is None);
    }
    if n >= 3 {
        assert(whole[2].halt is None);
    }
}

/// Only the interface of the container is deleted: the one that was found under the name
/// of the host side of its pair.
pub proof fn only_the_own_interface_is_deleted(
    network: Attachment,
    said: Seq<NetAnswer>,
    link: u32,
)
    requires
        detach_turn(network, "linux"@, said) == Turn::<NetAsk, ()>::Ask(NetAsk::DeleteLink(link)),
    ensures
        answered(
            detach_turns(network),
            said,
            NetAsk::FindLink(network.veth_host),
            NetAnswer::Index(link),
        ),
{
    let stages = detach_stages(network, said);
    dialogue_asks_the_next_stage(stages, said.len(), ());
    assert(said.len() == 2);
    assert(stages[0].halt is None);
    detach_asked(network, said, 1);
}

/// When the removal of a container's network is done, the host has looked for the host
/// side of its pair, has deleted it when there was one, and was asked to delete the rule
/// for the subnet.
pub proof fn removed_network_is_gone(network: Attachment, said: Seq<NetAnswer>)
    requires
        detach_turn(network, "linux"@, said) is Done,
    ensures
        exists|found: NetAnswer|
            {
                &&& #[trigger] answered(
                    detach_turns(network),
                    said,
                    NetAsk::FindLink(network.veth_host),
                    found,
                )
                &&& found is Index ==> answered(
                    detach_turns(network),
                    said,
                    NetAsk::DeleteLink(found->Index_0),
                    NetAnswer::Done,
                )
            },
        asked(
            detach_turns(network),
            said,
            NetAsk::Iptables(
                seq![
                    "-t"@,
                    "nat"@,
                    "-D"@,
                    "POSTROUTING"@,
                    "-s"@,
                    network.subnet_cidr,
                    "-j"@,
                    "MASQUERADE"@,
                ],
            ),
        ),
{
    let stages = detach_stages(network, said);
    dialogue_completes_when_every_stage_passes(stages, said.len(), ());
    assert(stages[0].halt is None && stages[1].halt is None && stages[2].halt is None);
    detach_asked(network, said, 1);
    detach_asked(network, said, 2);
    assert(answered(
        detach_turns(network),
        said,
        NetAsk::FindLink(network.veth_host),
        said[1],
    ));
    if said[1] is Index {
        assert(stages[3].halt is None);
        detach_asked(network, said, 3);
        assert(answered(detach_turns(network), said, stages[3].ask, said[3]));
    } else {
        assert(answered(detach_turns(network), said, stages[2].ask, said[2]));
    }
}

/// The rule that the removal of a container's network deletes is the one that the setup of
/// its bridge added: it is for the subnet of the bridge's configuration.
pub proof fn network_is_in_the_subnet_of_the_rule(
    config: Network,
    container_id: Seq<char>,
    said: Seq<NetAnswer>,
    network: Attachment,
)
    requires
        attach_turn(config, container_id, "linux"@, said) == Turn::<NetAsk, Attachment>::Done(
            network,
        ),
    ensures
        network.subnet_cidr == dotted(config.subnet.bits) + "/"@ + decimal(
            config.prefix_len as nat,
        ),
{
    let stages = attach_stages(config, container_id, said);
    let result = attachment(config, container_id, said[6]->Host_0);
    dialogue_completes_when_every_stage_passes(stages, said.len(), result);
}

/// The bridge is set up when the host does what it is asked for; that the bridge has its
/// address already, or that the rule is there already, does no harm.
pub proof fn bridge_setup_succeeds(config: Network, said: Seq<NetAnswer>)
    requires
        said.len() >= 7,
        said[0] == NetAnswer::Done,
        said[1] == NetAnswer::Done,
        said[2] is Index,
        said[3] == NetAnswer::Done,
        said[4] == NetAnswer::Done || (said[4] is Failed && has_text(
            said[4]->Failed_0,
            "File exists"@,
        )),
        said[5] is Ran,
        said[5]->success || has_text(said[5]->stderr, "already exists"@),
        said[6] == NetAnswer::Done,
    ensures
        bridge_turn(config, "linux"@, said) == Turn::<NetAsk, ()>::Done(()),
{
    reveal_with_fuel(walk_from, 8);
}

/// A container gets its network when the host does what it is asked for and an address is
/// left. When none is left, it does not.
pub proof fn attachment_succeeds(config: Network, container_id: Seq<char>, said: Seq<NetAnswer>)
    requires
        said.len() >= 9,
        said[0] == NetAnswer::Done,
        said[1] == NetAnswer::Done,
        said[2] is Index,
        said[3] is Index,
        said[4] == NetAnswer::Done,
        said[5] == NetAnswer::Done,
        said[6] is Host,
        said[7] is Index,
        said[8] == NetAnswer::Done,
    ensures
        said[6]->Host_0 <= 0xFFFE <==> attach_turn(config, container_id, "linux"@, said) is Done,
        said[6]->Host_0 > 0xFFFE <==> attach_turn(config, container_id, "linux"@, said) is Fail,
{
    reveal_with_fuel(walk_from, 10);
}

/// The network of a container can be removed although its interface is gone already, and
/// although its rule cannot be removed.
pub proof fn removal_succeeds(network: Attachment, said: Seq<NetAnswer>)
    requires
        said.len() >= 4,
        said[0] == NetAnswer::Done,
        said[1] is Index || said[1] is Missing || said[1] is Failed,
        said[1] is Index ==> said[2] == NetAnswer::Done && (said[3] is Ran || said[3] is Failed),
        !(said[1] is Index) ==> said[2] is Ran || said[2] is Failed,
    ensures
        detach_turn(network, "linux"@, said) == Turn::<NetAsk, ()>::Done(()),
{
    reveal_with_fuel(walk_from, 6);
}

/// Addresses are allocated from the third one of the subnet on, one after the other, and
/// the last one is 65534 after the first of the subnet.
pub proof fn addresses_begin_after_the_gateway(subnet: Ipv4Addr, n: nat)
    requires
        n <= 100_000,
    ensures
        allotted(subnet, counter_after(n)) == (if n + 2 <= 65534 {
            Some(subnet.bits + 2 + n)
        } else {
            None
        }),
{
    addresses_are_allocated_in_sequence(subnet, n);
}

/// The interface of a container on the host is called after the first eight characters of
/// its id, so that its name fits, and containers whose ids differ in these have different
/// ones.
pub proof fn interfaces_are_called_after_their_containers(a: Seq<char>, b: Seq<char>)
    ensures
        a.len() <= 8 ==> host_veth(a) == "veth"@ + a,
        a.len() > 8 ==> host_veth(a) == "veth"@ + a.take(8),
        host_veth(a).len() <= 12,
        a.len() >= 8 && b.len() >= 8 && a.take(8) != b.take(8) ==> host_veth(a) != host_veth(b),
{
    reveal_strlit("veth");
    assert(a.len() == 8 ==> a.take(8) =~= a);
    assert(b.len() == 8 ==> b.take(8) =~= b);
    assert(host_veth(a).skip(4) =~= if a.len() <= 8 {
        a
    } else {
        a.take(8)
    });
    assert(host_veth(b).skip(4) =~= if b.len() <= 8 {
        b
    } else {
        b.take(8)
    });
}

} // verus!
