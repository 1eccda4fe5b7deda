//! Host records of the inventory, and how they are made from the entries
//! of a client configuration.

use crate::number::{decimal, u64_to_string};
use crate::text::same_text;
use vstd::prelude::*;
use vstd::string::*;

verus! {

/// Address of a host for which the configuration gives none.
pub const PLACEHOLDER_IP: &'static str = "-";

/// User of a host for which the configuration gives none.
pub const PLACEHOLDER_USER: &'static str = "-";

/// Port of a host for which the configuration gives none.
pub const PLACEHOLDER_PORT: u16 = 22;

/// Identity file of a host for which the configuration gives none.
pub const PLACEHOLDER_IDENTITY_FILE: &'static str = "-";

/// One host of the inventory.
///
/// `id` is made from name, address and port alone, so that reading the
/// same configuration again gives the same `id`.
#[derive(Debug, Clone, PartialEq, Eq)]
pub struct SshHostInfo {
    pub id: String,
    pub name: String,
    pub ip: String,
    pub port: u16,
    pub user: String,
    pub identity_file: String,
}

/// A host record by the characters of its texts.
pub struct HostView {
    pub id: Seq<char>,
    pub name: Seq<char>,
    pub ip: Seq<char>,
    pub port: u16,
    pub user: Seq<char>,
    pub identity_file: Seq<char>,
}

impl View for SshHostInfo {
    type V = HostView;

    open spec fn view(&self) -> HostView {
        HostView {
            id: self.id@,
            name: self.name@,
            ip: self.ip@,
            port: self.port,
            user: self.user@,
            identity_file: self.identity_file@,
        }
    }
}

impl DeepView for SshHostInfo {
    type V = HostView;

    open spec fn deep_view(&self) -> HostView {
        self@
    }
}

/// What a client configuration says of one host: the patterns of its
/// section and the settings found there.
#[derive(Debug, Clone, PartialEq, Eq)]
pub struct HostEntry {
    pub patterns: Vec<String>,
    pub host_name: Option<String>,
    pub port: Option<u16>,
    pub user: Option<String>,
    pub identity_files: Vec<String>,
}

/// A `HostEntry` by the characters of its texts.
pub struct HostEntryView {
    pub patterns: Seq<Seq<char>>,
    pub host_name: Option<Seq<char>>,
    pub port: Option<u16>,
    pub user: Option<Seq<char>>,
    pub identity_files: Seq<Seq<char>>,
}

impl View for HostEntry {
    type V = HostEntryView;

    open spec fn view(&self) -> HostEntryView {
        HostEntryView {
            patterns: self.patterns.deep_view(),
            host_name: self.host_name.deep_view(),
            port: self.port,
            user: self.user.deep_view(),
            identity_files: self.identity_files.deep_view(),
        }
    }
}

impl DeepView for HostEntry {
    type V = HostEntryView;

    open spec fn deep_view(&self) -> HostEntryView {
        self@
    }
}

/// The MD5 digest of the UTF-8 encoding of `data`: 16 bytes.
pub uninterp spec fn md5_digest(data: Seq<char>) -> Seq<u8>;

/// The lower-case hexadecimal digit for `d < 16`.
pub open spec fn hex_digit(d: nat) -> char {
    if d % 16 < 10 {
        ((0x30 + d % 16) as u8) as char
    } else {
        ((0x57 + d % 16) as u8) as char
    }
}

/// `bytes` in lower-case hexadecimal digits, two for each byte.
pub open spec fn hex_lower(bytes: Seq<u8>) -> Seq<char>
    decreases bytes.len(),
{
    if bytes.len() == 0 {
        Seq::empty()
    } else {
        hex_lower(bytes.drop_last()).push(hex_digit(bytes.last() as nat / 16)).push(
            hex_digit(bytes.last() as nat % 16),
        )
    }
}

/// The text that identifies a host: name, address and port with colons between.
pub open spec fn host_key(name: Seq<char>, ip: Seq<char>, port: u16) -> Seq<char> {
    name + ":"@ + ip + ":"@ + decimal(port as nat)
}

/// The id of the host with this name, address and port.
pub open spec fn host_id_text(name: Seq<char>, ip: Seq<char>, port: u16) -> Seq<char> {
    hex_lower(md5_digest(host_key(name, ip, port)))
}

/// The host that an entry describes, if it describes one: its name is the
/// first pattern; an entry without patterns, or whose first pattern is
/// `*`, describes none. What the entry leaves open is filled with the
/// placeholders.
pub open spec fn host_of(entry: HostEntryView) -> Option<HostView> {
    if entry.patterns.len() == 0 || entry.patterns[0] == "*"@ {
        None
    } else {
        let name = entry.patterns[0];
        let ip = match entry.host_name {
            Some(ip) => ip,
            None => "-"@,
        };
        let port = match entry.port {
            Some(port) => port,
            None => 22u16,
        };
        Some(
            HostView {
                id: host_id_text(name, ip, port),
                name,
                ip,
                port,
                user: match entry.user {
                    Some(user) => user,
                    None => "-"@,
                },
                identity_file: if entry.identity_files.len() > 0 {
                    entry.identity_files[0]
                } else {
                    "-"@
                },
            },
        )
    }
}

/// Index of the host with this id in `hosts`, or the length of `hosts`.
pub open spec fn position_of(hosts: Seq<HostView>, id: Seq<char>) -> int
    decreases hosts.len(),
{
    if hosts.len() == 0 {
        0
    } else if hosts[0].id == id {
        0
    } else {
        1 + position_of(hosts.drop_first(), id)
    }
}

/// `hosts` with `host` in the place of the host of the same id, or at the
/// end if there is none.
pub open spec fn with_host(hosts: Seq<HostView>, host: HostView) -> Seq<HostView> {
    let i = position_of(hosts, host.id);
    if i < hosts.len() {
        hosts.update(i, host)
    } else {
        hosts.push(host)
    }
}

/// The inventory that the entries describe, taken in order: a host whose
/// id has come before takes the place of the earlier one.
pub open spec fn inventory(entries: Seq<HostEntryView>) -> Seq<HostView>
    decreases entries.len(),
{
    if entries.len() == 0 {
        Seq::empty()
    } else {
        match host_of(entries.last()) {
            Some(host) => with_host(inventory(entries.drop_last()), host),
            None => inventory(entries.drop_last()),
        }
    }
}

/// Whether no two hosts have the same id.
pub open spec fn distinct_ids(hosts: Seq<HostView>) -> bool {
    forall|i: int, j: int| 0 <= i < j < hosts.len() ==> hosts[i].id != hosts[j].id
}

pub proof fn lemma_position_of(hosts: Seq<HostView>, id: Seq<char>)
    ensures
        0 <= position_of(hosts, id) <= hosts.len(),
        position_of(hosts, id) < hosts.len() ==> hosts[position_of(hosts, id)].id == id,
        forall|k: int| 0 <= k < position_of(hosts, id) ==> hosts[k].id != id,
    decreases hosts.len(),
{
    if hosts.len() > 0 && hosts[0].id != id {
        let rest = hosts.drop_first();
        lemma_position_of(rest, id);
        assert forall|k: int| 0 <= k < position_of(hosts, id) implies hosts[k].id != id by {
            if k > 0 {
                assert(rest[k - 1] == hosts[k]);
            }
        }
    }
}

/// No two hosts of an inventory have the same id.
pub proof fn law_inventory_ids_differ(entries: Seq<HostEntryView>)
    ensures
        distinct_ids(inventory(entries)),
    decreases entries.len(),
{
    if entries.len() > 0 {
        law_inventory_ids_differ(entries.drop_last());
        if let Some(host) = host_of(entries.last()) {
            lemma_position_of(inventory(entries.drop_last()), host.id);
        }
    }
}

impl SshHostInfo {
    /// Whether no identity file was configured for this host.
    pub fn is_placeholder_identity_file(&self) -> (r: bool)
        ensures
            r == (self.identity_file@ == "-"@),
    {
        same_text(self.identity_file.as_str(), PLACEHOLDER_IDENTITY_FILE)
    }
}

/// Computes the MD5 digest of `data` with `md5::compute`; the contract
/// only gives the digest its name.
#[verifier::external_body]
fn digest(data: &str) -> (d: [u8; 16])
    ensures
        d@ == md5_digest(data@),
{
    md5::compute(data).0
}

/// The text of one hexadecimal digit.
fn hex_text(d: u8) -> (r: &'static str)
    requires
        d < 16,
    ensures
        r@ == seq![hex_digit(d as nat)],
{
    proof {
        reveal_strlit("0");
        reveal_strlit("1");
        reveal_strlit("2");
        reveal_strlit("3");
        reveal_strlit("4");
        reveal_strlit("5");
        reveal_strlit("6");
        reveal_strlit("7");
        reveal_strlit("8");
        reveal_strlit("9");
        reveal_strlit("a");
        reveal_strlit("b");
        reveal_strlit("c");
        reveal_strlit("d");
        reveal_strlit("e");
        reveal_strlit("f");
    }
    let r = if d == 0 {
        "0"
    } else if d == 1 {
        "1"
    } else if d == 2 {
        "2"
    } else if d == 3 {
        "3"
    } else if d == 4 {
        "4"
    } else if d == 5 {
        "5"
    } else if d == 6 {
        "6"
    } else if d == 7 {
        "7"
    } else if d == 8 {
        "8"
    } else if d == 9 {
        "9"
    } else if d == 10 {
        "a"
    } else if d == 11 {
        "b"
    } else if d == 12 {
        "c"
    } else if d == 13 {
        "d"
    } else if d == 14 {
        "e"
    } else {
        "f"
    };
    assert(r@ =~= seq![hex_digit(d as nat)]);
    r
}

/// Writes `bytes` in lower-case hexadecimal digits.
pub fn to_hex(bytes: &[u8]) -> (r: String)
    ensures
        r@ == hex_lower(bytes@),
{
    let mut r = String::new();
    let mut i: usize = 0;
    while i < bytes.len()
        invariant
            i <= bytes.len(),
            r@ == hex_lower(bytes@.take(i as int)),
        decreases bytes.len() - i,
    {
        let b = bytes[i];
        assert(bytes@.take(i + 1).drop_last() == bytes@.take(i as int));
        r.append(hex_text(b / 16));
        r.append(hex_text(b % 16));
        assert(r@ == hex_lower(bytes@.take(i as int)).push(hex_digit(b as nat / 16)).push(
            hex_digit(b as nat % 16),
        ));
        i += 1;
    }
    assert(bytes@.take(i as int) == bytes@);
    r
}

/// The id of the host with this name, address and port.
pub fn host_id(name: &str, ip: &str, port: u16) -> (r: String)
    ensures
        r@ == host_id_text(name@, ip@, port),
{
    let mut key = String::from_str(name);
    key.append(":");
    key.append(ip);
    key.append(":");
    key.append(u64_to_string(port as u64).as_str());
    let d = digest(key.as_str());
    to_hex(d.as_slice())
}

/// The host that an entry of the configuration describes, if it describes one.
pub fn host_from_entry(entry: &HostEntry) -> (r: Option<SshHostInfo>)
    ensures
        r.deep_view() == host_of(entry@),
{
    if entry.patterns.len() == 0 {
        return None;
    }
    assert(entry.patterns.deep_view()[0] == entry.patterns@[0]@);
    if same_text(entry.patterns[0].as_str(), "*") {
        return None;
    }
    let name = entry.patterns[0].clone();
    let ip = match &entry.host_name {
        Some(ip) => ip.clone(),
        None => String::from_str(PLACEHOLDER_IP),
    };
    let user = match &entry.user {
        Some(user) => user.clone(),
        None => String::from_str(PLACEHOLDER_USER),
    };
    let port = match entry.port {
        Some(port) => port,
        None => PLACEHOLDER_PORT,
    };
    let identity_file = if entry.identity_files.len() > 0 {
        assert(entry.identity_files.deep_view()[0] == entry.identity_files@[0]@);
        entry.identity_files[0].clone()
    } else {
        String::from_str(PLACEHOLDER_IDENTITY_FILE)
    };
    let id = host_id(name.as_str(), ip.as_str(), port);
    Some(SshHostInfo { id, name, ip, port, user, identity_file })
}

/// Index of the host with this id in `hosts`, or the length of `hosts`.
pub fn find_host(hosts: &Vec<SshHostInfo>, id: &str) -> (r: usize)
    ensures
        r == position_of(hosts.deep_view(), id@),
        r <= hosts.len(),
{
    let mut i: usize = 0;
    assert(hosts.deep_view().subrange(0, hosts.len() as int) == hosts.deep_view());
    while i < hosts.len()
        invariant
            i <= hosts.len(),
            position_of(hosts.deep_view(), id@) == i + position_of(
                hosts.deep_view().subrange(i as int, hosts.len() as int),
                id@,
            ),
        decreases hosts.len() - i,
    {
        let ghost rest = hosts.deep_view().subrange(i as int, hosts.len() as int);
        assert(rest[0] == hosts@[i as int]@);
        assert(rest.drop_first() == hosts.deep_view().subrange(i + 1, hosts.len() as int));
        if same_text(hosts[i].id.as_str(), id) {
            return i;
        }
        i += 1;
    }
    assert(hosts.deep_view().subrange(i as int, hosts.len() as int).len() == 0);
    i
}

/// The inventory that the entries of a configuration describe.
pub fn load_ssh_configs(entries: &Vec<HostEntry>) -> (hosts: Vec<SshHostInfo>)
    ensures
        hosts.deep_view() == inventory(entries.deep_view()),
        distinct_ids(hosts.deep_view()),
{
    let mut hosts: Vec<SshHostInfo> = Vec::new();
    let mut i: usize = 0;
    while i < entries.len()
        invariant
            i <= entries.len(),
            hosts.deep_view() == inventory(entries.deep_view().take(i as int)),
        decreases entries.len() - i,
    {
        assert(entries.deep_view().take(i + 1).drop_last() == entries.deep_view().take(i as int));
        assert(entries.deep_view()[i as int] == entries@[i as int]@);
        if let Some(host) = host_from_entry(&entries[i]) {
            let at = find_host(&hosts, host.id.as_str());
            let ghost before = hosts.deep_view();
            if at < hosts.len() {
                hosts.set(at, host);
                assert(hosts.deep_view() == before.update(at as int, host@));
            } else {
                hosts.push(host);
                assert(hosts.deep_view() == before.push(host@));
            }
        }
        i += 1;
    }
    assert(entries.deep_view().take(i as int) == entries.deep_view());
    proof {
        law_inventory_ids_differ(entries.deep_view());
    }
    hosts
}

} // verus!
