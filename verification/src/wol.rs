//! Waking machines of the local network.
//!
//! The addresses are in the configuration and never in the request: the client
//! only picks a name from a list. A service that took any address would amplify
//! broadcasts for whatever reaches it.

use crate::crypto;
use crate::net::{self, IpAddress};
use crate::proto::signaling;
use crate::text;
use vstd::prelude::*;
use vstd::string::*;

verus! {

/// Destination port. The network card looks for the pattern and not for the port.
pub const WOL_PORT: u16 = 9;

/// How often the address is repeated in a packet, by the format.
pub const MAC_REPEATS: usize = 16;

/// How often a packet is sent: it is never acknowledged, and a card in deep sleep
/// sometimes misses one.
pub const SEND_COUNT: usize = 2;

/// Shortest token, in bytes.
pub const MIN_TOKEN_LEN: usize = 16;

/// Configuration of the service.
#[derive(Debug, Clone)]
pub struct WolConfig {
    /// Address to listen on: that of the tunnel, never the wildcard.
    pub listen: IpAddress,
    /// Port to listen on.
    pub port: u16,
    /// Broadcast address of the local network, as a number.
    pub broadcast: u32,
    /// Shared token.
    pub token: String,
    /// Machines that can be woken, by name.
    pub hosts: Vec<Host>,
}

/// A machine that can be woken.
#[derive(Debug, Clone)]
pub struct Host {
    /// Name used in requests.
    pub name: String,
    /// Hardware address, as `aa:bb:cc:dd:ee:ff`.
    pub mac: String,
}

/// Why a configuration is refused.
#[derive(Debug, Clone, Copy, PartialEq, Eq, Structural)]
pub enum WolConfigError {
    /// Listening on every interface.
    Wildcard,
    /// The token is too short.
    ShortToken,
    /// No machine is declared.
    NoHost,
    /// The machine at this place has no valid address.
    InvalidMac(usize),
}

/// Why a request is refused.
#[derive(Debug, Clone, Copy, PartialEq, Eq, Structural)]
pub enum WolStatus {
    /// The token is missing or wrong.
    Unauthorized,
    /// There is no machine of this name.
    NotFound,
    /// The packet could not be made or sent.
    Internal,
}

/// The answer to a request to wake a machine.
#[derive(Debug, Clone, PartialEq, Eq)]
pub struct WakeResponse {
    /// Name of the machine.
    pub host: String,
    /// Whether the packet was sent.
    pub sent: bool,
}

/// Whether a character separates the bytes of an address.
pub open spec fn separator(c: char) -> bool {
    c == ':' || c == '-'
}

/// Where the first separator stands; the length if there is none.
pub open spec fn first_separator(t: Seq<char>) -> nat
    decreases t.len(),
{
    if t.len() == 0 || separator(t[0]) {
        0
    } else {
        1 + first_separator(t.drop_first())
    }
}

/// The value of one part of an address: two hexadecimal digits.
pub open spec fn part_value(p: Seq<char>) -> Option<u8> {
    if p.len() != 2 {
        None
    } else {
        match (signaling::hex_value(p[0]), signaling::hex_value(p[1])) {
            (Some(hi), Some(lo)) => Some((16 * hi + lo) as u8),
            _ => None,
        }
    }
}

/// The values of the `n` parts that a text consists of, with separators between
/// them; nothing if the parts are more, fewer or malformed.
pub open spec fn mac_parts(t: Seq<char>, n: nat) -> Option<Seq<u8>>
    decreases n,
{
    let k = first_separator(t) as int;
    if n == 0 {
        None
    } else if n == 1 {
        if k < t.len() {
            None
        } else {
            match part_value(t) {
                Some(v) => Some(seq![v]),
                None => None,
            }
        }
    } else if k >= t.len() {
        None
    } else {
        match (part_value(t.take(k)), mac_parts(t.skip(k + 1), (n - 1) as nat)) {
            (Some(v), Some(rest)) => Some(seq![v] + rest),
            _ => None,
        }
    }
}

/// The hardware address that a text stands for.
pub open spec fn mac_of(t: Seq<char>) -> Option<Seq<u8>> {
    mac_parts(t, 6)
}

/// The packet that wakes a machine: six bytes `0xFF`, then its address sixteen
/// times.
pub open spec fn packet_for(mac: Seq<u8>) -> Seq<u8> {
    Seq::new(
        102,
        |i: int|
            if i < 6 {
                0xFFu8
            } else {
                mac[i % 6]
            },
    )
}

/// The value of the part that spans `from..to`.
fn read_part(chars: &[char], from: usize, to: usize) -> (v: Option<u8>)
    requires
        from <= to <= chars@.len(),
    ensures
        v == part_value(chars@.subrange(from as int, to as int)),
{
    if to - from != 2 {
        return None;
    }
    let first = chars[from];
    let second = chars[from + 1];
    assert(chars@.subrange(from as int, to as int)[0] == first);
    assert(chars@.subrange(from as int, to as int)[1] == second);
    match (signaling::digit_value(first), signaling::digit_value(second)) {
        (Some(hi), Some(lo)) => Some(hi * 16 + lo),
        _ => None,
    }
}

proof fn lemma_first_separator(t: Seq<char>, n: int)
    requires
        0 <= n <= t.len(),
        forall|k: int| 0 <= k < n ==> !separator(#[trigger] t[k]),
        n < t.len() ==> separator(t[n]),
    ensures
        first_separator(t) == n,
    decreases n,
{
    if n > 0 {
        let rest = t.drop_first();
        assert forall|k: int| 0 <= k < n - 1 implies !separator(#[trigger] rest[k]) by {
            assert(rest[k] == t[k + 1]);
        }
        lemma_first_separator(rest, n - 1);
    }
}

/// Decodes a hardware address written `aa:bb:cc:dd:ee:ff` or `aa-bb-cc-dd-ee-ff`.
pub fn parse_mac(t: &str) -> (r: Option<[u8; 6]>)
    ensures
        match r {
            Some(mac) => mac_of(t@) == Some(mac@),
            None => mac_of(t@) is None,
        },
{
    let chars = text::chars_of(t);
    let mut bytes: Vec<u8> = Vec::new();
    let mut at: usize = 0;
    let mut left: usize = 6;
    assert(chars@.skip(0) =~= chars@);
    while left > 1
        invariant
            1 <= left <= 6,
            at <= chars@.len(),
            chars@ == t@,
            bytes@.len() == 6 - left,
            mac_parts(chars@, 6) == match mac_parts(chars@.skip(at as int), left as nat) {
                Some(rest) => Some(bytes@ + rest),
                None => None,
            },
        decreases left,
    {
        let ghost tail = chars@.skip(at as int);
        let mut i: usize = at;
        while i < chars.len() && chars[i] != ':' && chars[i] != '-'
            invariant
                at <= i <= chars@.len(),
                forall|k: int| at <= k < i ==> !separator(#[trigger] chars@[k]),
            ensures
                at <= i <= chars@.len(),
                forall|k: int| at <= k < i ==> !separator(#[trigger] chars@[k]),
                i < chars@.len() ==> separator(chars@[i as int]),
            decreases chars@.len() - i,
        {
            i = i + 1;
        }
        proof {
            assert forall|k: int| 0 <= k < i - at implies !separator(#[trigger] tail[k]) by {
                assert(tail[k] == chars@[at + k]);
            }
            lemma_first_separator(tail, i - at);
            assert(tail.take(i - at) =~= chars@.subrange(at as int, i as int));
        }
        if i == chars.len() {
            return None;
        }
        match read_part(chars.as_slice(), at, i) {
            None => {
                return None;
            },
            Some(v) => {
                let ghost before = bytes@;
                bytes.push(v);
                proof {
                    assert(tail.skip(i - at + 1) =~= chars@.skip(i + 1));
                    match mac_parts(chars@.skip(i + 1), (left - 1) as nat) {
                        Some(rest) => {
                            assert(before + (seq![v] + rest) =~= bytes@ + rest);
                        },
                        None => {},
                    }
                }
            },
        }
        at = i + 1;
        left = left - 1;
    }
    let ghost tail = chars@.skip(at as int);
    let mut j: usize = at;
    while j < chars.len() && chars[j] != ':' && chars[j] != '-'
        invariant
            at <= j <= chars@.len(),
            forall|k: int| at <= k < j ==> !separator(#[trigger] chars@[k]),
        ensures
            at <= j <= chars@.len(),
            forall|k: int| at <= k < j ==> !separator(#[trigger] chars@[k]),
            j < chars@.len() ==> separator(chars@[j as int]),
        decreases chars@.len() - j,
    {
        j = j + 1;
    }
    proof {
        assert forall|k: int| 0 <= k < j - at implies !separator(#[trigger] tail[k]) by {
            assert(tail[k] == chars@[at + k]);
        }
        lemma_first_separator(tail, j - at);
    }
    if j < chars.len() {
        return None;
    }
    assert(tail =~= chars@.subrange(at as int, j as int));
    match read_part(chars.as_slice(), at, j) {
        None => None,
        Some(v) => {
            let ghost before = bytes@;
            bytes.push(v);
            assert(before + seq![v] =~= bytes@);
            signaling::array_of::<6>(bytes)
        },
    }
}

/// Makes the packet that wakes a machine.
pub fn magic_packet(mac: &[u8; 6]) -> (packet: [u8; 102])
    ensures
        packet@ == packet_for(mac@),
{
    let mut packet: [u8; 102] = [0xFFu8; 102];
    let mut i: usize = 6;
    while i < 102
        invariant
            6 <= i <= 102,
            packet@.len() == 102,
            mac@.len() == 6,
            forall|k: int| 0 <= k < i ==> packet@[k] == packet_for(mac@)[k],
        decreases 102 - i,
    {
        packet[i] = mac[i % 6];
        i = i + 1;
    }
    assert(packet@ =~= packet_for(mac@));
    packet
}

/// What is wrong with the machines from a place on: the first whose address is not
/// valid.
pub open spec fn first_invalid_mac(hosts: Seq<Host>, from: int) -> Option<usize>
    decreases hosts.len() - from,
{
    if from >= hosts.len() {
        None
    } else if mac_of(hosts[from].mac@) is None {
        Some(from as usize)
    } else {
        first_invalid_mac(hosts, from + 1)
    }
}

/// What is wrong with a configuration: the first of the tests that fails.
pub open spec fn config_error(c: WolConfig) -> Option<WolConfigError> {
    if net::unspecified(c.listen) {
        Some(WolConfigError::Wildcard)
    } else if vstd::utf8::encode_utf8(c.token@).len() < MIN_TOKEN_LEN {
        Some(WolConfigError::ShortToken)
    } else if c.hosts@.len() == 0 {
        Some(WolConfigError::NoHost)
    } else {
        match first_invalid_mac(c.hosts@, 0) {
            Some(i) => Some(WolConfigError::InvalidMac(i)),
            None => None,
        }
    }
}

/// Whether a request carries the token. No header counts as an empty one.
pub open spec fn carries_token(c: WolConfig, provided: Option<Seq<char>>) -> bool {
    match provided {
        Some(t) => t == c.token@,
        None => c.token@.len() == 0,
    }
}

/// The place of the first machine with a name.
pub open spec fn host_at(hosts: Seq<Host>, name: Seq<char>, from: int) -> Option<int>
    decreases hosts.len() - from,
{
    if from >= hosts.len() {
        None
    } else if hosts[from].name@ == name {
        Some(from)
    } else {
        host_at(hosts, name, from + 1)
    }
}

/// The packet that a request calls for, or why it is refused.
pub open spec fn wake_plan(
    c: WolConfig,
    provided: Option<Seq<char>>,
    name: Seq<char>,
) -> Result<Seq<u8>, WolStatus> {
    if !carries_token(c, provided) {
        Err(WolStatus::Unauthorized)
    } else {
        match host_at(c.hosts@, name, 0) {
            None => Err(WolStatus::NotFound),
            Some(i) => match mac_of(c.hosts@[i].mac@) {
                None => Err(WolStatus::Internal),
                Some(mac) => Ok(packet_for(mac)),
            },
        }
    }
}

/// The names of the machines, in the order in which they are declared.
pub open spec fn names_of(c: WolConfig) -> Seq<Seq<char>> {
    Seq::new(c.hosts@.len(), |i: int| c.hosts@[i].name@)
}

/// What a header holds, as a text.
pub open spec fn header_text(provided: Option<&str>) -> Option<Seq<char>> {
    match provided {
        Some(s) => Some(s@),
        None => None,
    }
}

impl WolConfig {
    /// Checks the values that were loaded.
    pub fn validate(&self) -> (r: Result<(), WolConfigError>)
        ensures
            match config_error(*self) {
                None => r == Ok::<(), WolConfigError>(()),
                Some(e) => r == Err::<(), WolConfigError>(e),
            },
    {
        if self.listen.is_unspecified() {
            return Err(WolConfigError::Wildcard);
        }
        if self.token.as_str().as_bytes().len() < MIN_TOKEN_LEN {
            return Err(WolConfigError::ShortToken);
        }
        if self.hosts.len() == 0 {
            return Err(WolConfigError::NoHost);
        }
        let mut i: usize = 0;
        while i < self.hosts.len()
            invariant
                i <= self.hosts@.len(),
                self.hosts@.len() > 0,
                !net::unspecified(self.listen),
                vstd::utf8::encode_utf8(self.token@).len() >= MIN_TOKEN_LEN,
                first_invalid_mac(self.hosts@, 0) == first_invalid_mac(self.hosts@, i as int),
            decreases self.hosts@.len() - i,
        {
            if parse_mac(self.hosts[i].mac.as_str()).is_none() {
                return Err(WolConfigError::InvalidMac(i));
            }
            i = i + 1;
        }
        Ok(())
    }

    /// Checks the shared token, in constant time. `provided` is what the request's
    /// header holds, if it is there and is a text.
    pub fn authorize(&self, provided: Option<&str>) -> (r: Result<(), WolStatus>)
        ensures
            r == if carries_token(*self, header_text(provided)) {
                Ok::<(), WolStatus>(())
            } else {
                Err(WolStatus::Unauthorized)
            },
    {
        let given: &str = match provided {
            Some(s) => s,
            None => "",
        };
        proof {
            reveal_strlit("");
            assert(""@ =~= Seq::<char>::empty());
            vstd::utf8::encode_utf8_decode_utf8(given@);
            vstd::utf8::encode_utf8_decode_utf8(self.token@);
            if provided is None && self.token@.len() == 0 {
                assert(self.token@ =~= given@);
            }
        }
        if crypto::constant_time_eq(given.as_bytes(), self.token.as_str().as_bytes()) {
            Ok(())
        } else {
            Err(WolStatus::Unauthorized)
        }
    }

    /// The names of the machines, for a request that carries the token.
    pub fn list_hosts(&self, provided: Option<&str>) -> (r: Result<Vec<String>, WolStatus>)
        ensures
            if carries_token(*self, header_text(provided)) {
                r matches Ok(names) && text::texts(names@) == names_of(*self)
            } else {
                r matches Err(e) && e == WolStatus::Unauthorized
            },
    {
        if let Err(e) = self.authorize(provided) {
            return Err(e);
        }
        let mut names: Vec<String> = Vec::new();
        let mut i: usize = 0;
        while i < self.hosts.len()
            invariant
                i <= self.hosts@.len(),
                names@.len() == i,
                forall|k: int| 0 <= k < i ==> (#[trigger] names@[k])@ == self.hosts@[k].name@,
            decreases self.hosts@.len() - i,
        {
            names.push(self.hosts[i].name.clone());
            i = i + 1;
        }
        assert(text::texts(names@) =~= names_of(*self));
        Ok(names)
    }

    /// The packet that a request to wake `name` calls for, or why it is refused.
    pub fn wake(&self, provided: Option<&str>, name: &str) -> (r: Result<[u8; 102], WolStatus>)
        ensures
            match (r, wake_plan(*self, header_text(provided), name@)) {
                (Ok(packet), Ok(expected)) => packet@ == expected,
                (Err(e), Err(expected)) => e == expected,
                _ => false,
            },
    {
        if let Err(e) = self.authorize(provided) {
            return Err(e);
        }
        let mut i: usize = 0;
        while i < self.hosts.len()
            invariant
                i <= self.hosts@.len(),
                carries_token(*self, header_text(provided)),
                host_at(self.hosts@, name@, 0) == host_at(self.hosts@, name@, i as int),
            decreases self.hosts@.len() - i,
        {
            if text::same_text(self.hosts[i].name.as_str(), name) {
                return match parse_mac(self.hosts[i].mac.as_str()) {
                    Some(mac) => Ok(magic_packet(&mac)),
                    None => Err(WolStatus::Internal),
                };
            }
            i = i + 1;
        }
        Err(WolStatus::NotFound)
    }
}

/// What is wrong with a configuration, in words.
pub open spec fn error_text(c: WolConfig, e: WolConfigError) -> Seq<char> {
    match e {
        WolConfigError::Wildcard =>
            "l'écoute doit être liée à l'adresse de wg0, pas à toutes les interfaces"@,
        WolConfigError::ShortToken => "le jeton doit faire au moins 16 caractères"@,
        WolConfigError::NoHost => "aucune machine déclarée"@,
        WolConfigError::InvalidMac(i) => "adresse MAC invalide pour "@ + c.hosts@[i as int].name@
            + ": "@ + c.hosts@[i as int].mac@,
    }
}

proof fn lemma_invalid_mac_is_there(hosts: Seq<Host>, from: int)
    requires
        0 <= from <= hosts.len() <= usize::MAX,
    ensures
        first_invalid_mac(hosts, from) matches Some(i) ==> i < hosts.len(),
    decreases hosts.len() - from,
{
    if from < hosts.len() && mac_of(hosts[from].mac@) is Some {
        lemma_invalid_mac_is_there(hosts, from + 1);
    }
}

/// The configuration to serve with, given what the file holds, or what is wrong with
/// it.
pub fn load_config(config: WolConfig) -> (r: Result<WolConfig, String>)
    ensures
        match config_error(config) {
            None => r == Ok::<WolConfig, String>(config),
            Some(e) => r matches Err(t) && t@ == error_text(config, e),
        },
{
    let error = match config.validate() {
        Ok(()) => {
            return Ok(config);
        },
        Err(error) => error,
    };
    let mut s = String::new();
    match error {
        WolConfigError::Wildcard => {
            text::push_text(
                &mut s,
                "l'écoute doit être liée à l'adresse de wg0, pas à toutes les interfaces",
            );
        },
        WolConfigError::ShortToken => {
            text::push_text(&mut s, "le jeton doit faire au moins 16 caractères");
        },
        WolConfigError::NoHost => {
            text::push_text(&mut s, "aucune machine déclarée");
        },
        WolConfigError::InvalidMac(i) => {
            let hosts = config.hosts.as_slice();
            proof {
                lemma_invalid_mac_is_there(config.hosts@, 0);
            }
            text::push_text(&mut s, "adresse MAC invalide pour ");
            text::push_text(&mut s, hosts[i].name.as_str());
            text::push_text(&mut s, ": ");
            text::push_text(&mut s, hosts[i].mac.as_str());
        },
    }
    assert(s@ =~= error_text(config, error));
    Err(s)
}

/// The answer to a request once the packet was sent, or could not be.
pub fn wake_response(name: String, sent: bool) -> (r: Result<WakeResponse, WolStatus>)
    ensures
        if sent {
            r matches Ok(w) && w.host@ == name@ && w.sent
        } else {
            r matches Err(e) && e == WolStatus::Internal
        },
{
    if sent {
        Ok(WakeResponse { host: name, sent: true })
    } else {
        Err(WolStatus::Internal)
    }
}

/// Whether a packet is the one of a machine that the configuration declares.
pub open spec fn declared_packet(c: WolConfig, packet: Seq<u8>) -> bool {
    exists|i: int|
        0 <= i < c.hosts@.len() && mac_of((#[trigger] c.hosts@[i]).mac@) is Some && packet
            == packet_for(mac_of(c.hosts@[i].mac@)->0)
}

/// Whatever the request, the only packets that leave are those of declared machines;
/// and none leaves without the token.
pub proof fn law_only_declared_machines_are_woken(
    c: WolConfig,
    provided: Option<Seq<char>>,
    name: Seq<char>,
)
    ensures
        wake_plan(c, provided, name) matches Ok(packet) ==> carries_token(c, provided)
            && declared_packet(c, packet),
{
    if wake_plan(c, provided, name) is Ok {
        lemma_host_at(c.hosts@, name, 0);
    }
}

proof fn lemma_host_at(hosts: Seq<Host>, name: Seq<char>, from: int)
    requires
        0 <= from,
    ensures
        host_at(hosts, name, from) matches Some(i) ==> from <= i < hosts.len() && hosts[i].name@
            == name,
        host_at(hosts, name, from) is None ==> forall|i: int|
            from <= i < hosts.len() ==> (#[trigger] hosts[i]).name@ != name,
    decreases hosts.len() - from,
{
    if from < hosts.len() && hosts[from].name@ != name {
        lemma_host_at(hosts, name, from + 1);
    }
}

/// With a valid configuration a request that carries the token fails in one case
/// only: that no machine has the name.
pub proof fn law_valid_configuration_wakes_its_machines(
    c: WolConfig,
    provided: Option<Seq<char>>,
    name: Seq<char>,
)
    requires
        config_error(c) is None,
        carries_token(c, provided),
    ensures
        wake_plan(c, provided, name) is Ok <==> exists|i: int|
            0 <= i < c.hosts@.len() && (#[trigger] c.hosts@[i]).name@ == name,
        wake_plan(c, provided, name) is Err ==> wake_plan(c, provided, name)->Err_0
            == WolStatus::NotFound,
{
    lemma_host_at(c.hosts@, name, 0);
    match host_at(c.hosts@, name, 0) {
        Some(i) => {
            lemma_all_macs_valid(c.hosts@, 0, i);
        },
        None => {},
    }
}

proof fn lemma_all_macs_valid(hosts: Seq<Host>, from: int, i: int)
    requires
        0 <= from <= i < hosts.len(),
        first_invalid_mac(hosts, from) is None,
    ensures
        mac_of(hosts[i].mac@) is Some,
    decreases i - from,
{
    if from < i {
        lemma_all_macs_valid(hosts, from + 1, i);
    }
}

/// A valid configuration never lets a request without a token through, nor listens
/// on every interface.
pub proof fn law_valid_configuration_is_closed(c: WolConfig)
    requires
        config_error(c) is None,
    ensures
        !carries_token(c, None),
        !net::unspecified(c.listen),
{
    if c.token@.len() == 0 {
        assert(vstd::utf8::encode_utf8(c.token@).len() == 0);
    }
}

/// Two machines with different addresses get different packets.
pub proof fn law_packets_tell_machines_apart(a: Seq<u8>, b: Seq<u8>)
    requires
        a.len() == 6,
        b.len() == 6,
        packet_for(a) == packet_for(b),
    ensures
        a == b,
{
    assert forall|i: int| 0 <= i < 6 implies a[i] == b[i] by {
        assert((i + 6) % 6 == i);
        assert(packet_for(a)[i + 6] == a[i]);
        assert(packet_for(b)[i + 6] == b[i]);
    }
    assert(a =~= b);
}

/// Whether a text is `n` bytes written as two hexadecimal digits each, with a colon or a
/// dash between two of them.
pub open spec fn written_bytes(t: Seq<char>, n: nat) -> bool {
    &&& n > 0
    &&& t.len() == 3 * n - 1
    &&& forall|k: int|
        0 <= k < n ==> signaling::hex_value(#[trigger] t[3 * k]) is Some && signaling::hex_value(
            t[3 * k + 1],
        ) is Some
    &&& forall|k: int| 0 <= k < n - 1 ==> #[trigger] t[3 * k + 2] == ':' || t[3 * k + 2] == '-'
}

proof fn lemma_hex_digit_separates_nothing(c: char)
    requires
        signaling::hex_value(c) is Some,
    ensures
        !separator(c),
        0 <= signaling::hex_value(c)->0 < 16,
{
}

proof fn lemma_first_separator_is_first(t: Seq<char>)
    ensures
        first_separator(t) <= t.len(),
        forall|k: int| 0 <= k < first_separator(t) ==> !separator(#[trigger] t[k]),
        first_separator(t) < t.len() ==> separator(t[first_separator(t) as int]),
    decreases t.len(),
{
    if t.len() > 0 && !separator(t[0]) {
        let rest = t.drop_first();
        lemma_first_separator_is_first(rest);
        assert forall|k: int| 0 <= k < first_separator(t) implies !separator(#[trigger] t[k]) by {
            if k > 0 {
                assert(rest[k - 1] == t[k]);
            }
        }
        if first_separator(t) < t.len() {
            assert(rest[first_separator(rest) as int] == t[first_separator(t) as int]);
        }
    }
}

proof fn lemma_mac_parts(t: Seq<char>, n: nat)
    ensures
        mac_parts(t, n) is Some <==> written_bytes(t, n),
        mac_parts(t, n) matches Some(v) ==> v.len() == n && forall|k: int|
            0 <= k < n ==> #[trigger] v[k] == 16 * signaling::hex_value(t[3 * k])->0
                + signaling::hex_value(t[3 * k + 1])->0,
    decreases n,
{
    let k = first_separator(t) as int;
    lemma_first_separator_is_first(t);
    if n == 1 {
        if written_bytes(t, 1) {
            assert(signaling::hex_value(t[3 * 0int]) is Some);
            lemma_hex_digit_separates_nothing(t[0]);
            lemma_hex_digit_separates_nothing(t[1]);
            lemma_first_separator(t, 2);
        }
        if mac_parts(t, 1) is Some {
            lemma_hex_digit_separates_nothing(t[0]);
            lemma_hex_digit_separates_nothing(t[1]);
        }
    } else if n > 1 {
        let m = (n - 1) as nat;
        if written_bytes(t, n) {
            let rest = t.skip(3);
            assert(signaling::hex_value(t[3 * 0int]) is Some);
            lemma_hex_digit_separates_nothing(t[0]);
            lemma_hex_digit_separates_nothing(t[1]);
            assert(t[3 * 0int + 2] == ':' || t[3 * 0int + 2] == '-');
            assert(separator(t[2]));
            lemma_first_separator(t, 2);
            assert forall|j: int| 0 <= j < m implies signaling::hex_value(#[trigger] rest[3 * j])
                is Some && signaling::hex_value(rest[3 * j + 1]) is Some by {
                assert(rest[3 * j] == t[3 * (j + 1)]);
                assert(rest[3 * j + 1] == t[3 * (j + 1) + 1]);
            }
            assert forall|j: int| 0 <= j < m - 1 implies #[trigger] rest[3 * j + 2] == ':'
                || rest[3 * j + 2] == '-' by {
                assert(rest[3 * j + 2] == t[3 * (j + 1) + 2]);
            }
            lemma_mac_parts(rest, m);
        }
        if mac_parts(t, n) is Some {
            let head = t.take(k);
            let rest = t.skip(k + 1);
            lemma_mac_parts(rest, m);
            assert(k == 2);
            assert(head[0] == t[0] && head[1] == t[1]);
            lemma_hex_digit_separates_nothing(t[0]);
            lemma_hex_digit_separates_nothing(t[1]);
            assert forall|j: int| 0 <= j < n implies signaling::hex_value(#[trigger] t[3 * j])
                is Some && signaling::hex_value(t[3 * j + 1]) is Some by {
                if j > 0 {
                    assert(rest[3 * (j - 1)] == t[3 * j]);
                    assert(rest[3 * (j - 1) + 1] == t[3 * j + 1]);
                }
            }
            assert forall|j: int| 0 <= j < n - 1 implies #[trigger] t[3 * j + 2] == ':' || t[3 * j
                + 2] == '-' by {
                if j > 0 {
                    assert(rest[3 * (j - 1) + 2] == t[3 * j + 2]);
                }
            }
            let v = mac_parts(t, n)->0;
            let w = mac_parts(rest, m)->0;
            assert forall|j: int| 0 <= j < n implies #[trigger] v[j] == 16 * signaling::hex_value(
                t[3 * j],
            )->0 + signaling::hex_value(t[3 * j + 1])->0 by {
                if j > 0 {
                    assert(v[j] == w[j - 1]);
                    assert(rest[3 * (j - 1)] == t[3 * j]);
                    assert(rest[3 * (j - 1) + 1] == t[3 * j + 1]);
                }
            }
        }
    }
}

/// An address is seventeen characters: six times two hexadecimal digits, with a colon or
/// a dash in between. Nothing else is an address, and each byte is what its two digits
/// say, in the order in which they are written.
pub proof fn law_an_address_is_six_pairs_of_digits(t: Seq<char>)
    ensures
        mac_of(t) is Some <==> {
            &&& t.len() == 17
            &&& forall|k: int|
                0 <= k < 6 ==> signaling::hex_value(#[trigger] t[3 * k]) is Some
                    && signaling::hex_value(t[3 * k + 1]) is Some
            &&& forall|k: int| 0 <= k < 5 ==> #[trigger] t[3 * k + 2] == ':' || t[3 * k + 2] == '-'
        },
        mac_of(t) matches Some(mac) ==> mac.len() == 6 && forall|k: int|
            0 <= k < 6 ==> #[trigger] mac[k] == 16 * signaling::hex_value(t[3 * k])->0
                + signaling::hex_value(t[3 * k + 1])->0,
{
    lemma_mac_parts(t, 6);
}

/// A packet is 102 bytes: six times `0xFF`, then sixteen times the address, whole and in
/// its order.
pub proof fn law_a_packet_repeats_its_address(mac: Seq<u8>, i: int, j: int)
    requires
        mac.len() == 6,
        0 <= i < 16,
        0 <= j < 6,
    ensures
        packet_for(mac).len() == 102,
        packet_for(mac)[j] == 0xFF,
        packet_for(mac)[6 + 6 * i + j] == mac[j],
{
    assert((6 + 6 * i + j) % 6 == j);
}

proof fn lemma_host_at_is_first(hosts: Seq<Host>, name: Seq<char>, from: int)
    requires
        0 <= from,
    ensures
        match host_at(hosts, name, from) {
            Some(i) => from <= i < hosts.len() && hosts[i].name@ == name && forall|k: int|
                from <= k < i ==> (#[trigger] hosts[k]).name@ != name,
            None => forall|k: int| from <= k < hosts.len() ==> (#[trigger] hosts[k]).name@ != name,
        },
    decreases hosts.len() - from,
{
    if from < hosts.len() && hosts[from].name@ != name {
        lemma_host_at_is_first(hosts, name, from + 1);
    }
}

/// The packet that leaves is that of the machine that was named. Of the machines
/// declared, the first with the name counts: its address, written in the configuration,
/// stands sixteen times in the packet. Whatever the others, `i` tells which it is.
pub proof fn law_the_named_machine_is_woken(
    c: WolConfig,
    provided: Option<Seq<char>>,
    name: Seq<char>,
    i: int,
)
    requires
        0 <= i < c.hosts@.len(),
        c.hosts@[i].name@ == name,
        forall|k: int| 0 <= k < i ==> (#[trigger] c.hosts@[k]).name@ != name,
        provided == Some(c.token@),
    ensures
        match mac_of(c.hosts@[i].mac@) {
            Some(mac) => wake_plan(c, provided, name) matches Ok(packet) && packet.len() == 102
                && (forall|k: int| 0 <= k < 6 ==> #[trigger] packet[k] == 0xFF) && (forall|k: int|
                6 <= k < 102 ==> #[trigger] packet[k] == mac[k % 6]),
            None => wake_plan(c, provided, name) == Err::<Seq<u8>, WolStatus>(WolStatus::Internal),
        },
{
    lemma_host_at_is_first(c.hosts@, name, 0);
    let j = host_at(c.hosts@, name, 0);
    if j is Some && j->0 != i {
        if j->0 < i {
            assert(c.hosts@[j->0].name@ != name);
        } else {
            assert(c.hosts@[i].name@ != name);
        }
    }
}

/// A request is refused for three reasons and no other. Without the configured token it
/// is unauthorized, whatever machine it names, and whether that machine exists does not
/// show. With it, a name that no machine has is not found; and only a machine whose
/// address cannot be read makes the service fail.
pub proof fn law_requests_are_refused_for_cause(
    c: WolConfig,
    provided: Option<Seq<char>>,
    name: Seq<char>,
)
    ensures
        ({
            let known = provided == Some(c.token@) || (provided is None && c.token@.len() == 0);
            let declared = exists|i: int|
                0 <= i < c.hosts@.len() && (#[trigger] c.hosts@[i]).name@ == name;
            &&& wake_plan(c, provided, name) == Err::<Seq<u8>, WolStatus>(WolStatus::Unauthorized)
                <==> !known
            &&& wake_plan(c, provided, name) == Err::<Seq<u8>, WolStatus>(WolStatus::NotFound)
                <==> known && !declared
            &&& wake_plan(c, provided, name) == Err::<Seq<u8>, WolStatus>(WolStatus::Internal)
                ==> known && declared
            &&& wake_plan(c, provided, name) is Ok ==> known && declared
        }),
{
    lemma_host_at_is_first(c.hosts@, name, 0);
}

proof fn lemma_first_invalid_mac(hosts: Seq<Host>, from: int)
    requires
        0 <= from <= hosts.len() <= usize::MAX,
    ensures
        match first_invalid_mac(hosts, from) {
            Some(i) => from <= i < hosts.len() && mac_of(hosts[i as int].mac@) is None && forall|
                k: int,
            |
                from <= k < i ==> mac_of((#[trigger] hosts[k]).mac@) is Some,
            None => forall|k: int|
                from <= k < hosts.len() ==> mac_of((#[trigger] hosts[k]).mac@) is Some,
        },
    decreases hosts.len() - from,
{
    if from < hosts.len() && mac_of(hosts[from].mac@) is Some {
        lemma_first_invalid_mac(hosts, from + 1);
    }
}

/// A configuration is valid exactly when it listens on one address, has a token of
/// sixteen bytes or more, and declares machines whose addresses can all be read. What is
/// reported otherwise is there: the wildcard, a shorter token, no machine, or the first
/// machine whose address cannot be read.
pub proof fn law_a_configuration_is_refused_for_cause(c: WolConfig)
    ensures
        config_error(c) is None <==> {
            &&& c.listen != IpAddress::V4(0) && c.listen != IpAddress::V6(0)
            &&& vstd::utf8::encode_utf8(c.token@).len() >= 16
            &&& c.hosts@.len() > 0
            &&& forall|k: int|
                0 <= k < c.hosts@.len() ==> mac_of((#[trigger] c.hosts@[k]).mac@) is Some
        },
        config_error(c) == Some(WolConfigError::Wildcard) <==> c.listen == IpAddress::V4(0)
            || c.listen == IpAddress::V6(0),
        config_error(c) == Some(WolConfigError::ShortToken) ==> vstd::utf8::encode_utf8(
            c.token@,
        ).len() < 16,
        config_error(c) == Some(WolConfigError::NoHost) ==> c.hosts@.len() == 0,
        config_error(c) matches Some(WolConfigError::InvalidMac(i)) ==> i < c.hosts@.len()
            && mac_of(c.hosts@[i as int].mac@) is None && forall|k: int|
            0 <= k < i ==> mac_of((#[trigger] c.hosts@[k]).mac@) is Some,
{
    assert(c.hosts@.len() == c.hosts.len());
    lemma_first_invalid_mac(c.hosts@, 0);
}

/// What a valid configuration lists can be woken: with the token, each name of the list
/// gives the packet of a machine of that name.
pub proof fn law_listed_machines_can_be_woken(c: WolConfig, i: int)
    requires
        config_error(c) is None,
        0 <= i < c.hosts@.len(),
    ensures
        names_of(c)[i] == c.hosts@[i].name@,
        names_of(c).len() == c.hosts@.len(),
        wake_plan(c, Some(c.token@), names_of(c)[i]) is Ok,
{
    law_valid_configuration_wakes_its_machines(c, Some(c.token@), c.hosts@[i].name@);
}

/// An error shows what it is about: the interfaces, the token with its least length, the
/// machines of which there is none, or the name and then the address of the machine that is
/// badly declared.
pub proof fn law_errors_show_what_they_are_about(c: WolConfig, e: WolConfigError)
    ensures
        e is Wildcard ==> text::shows(error_text(c, e), "interfaces"@),
        e is ShortToken ==> text::shows(error_text(c, e), "jeton"@) && text::shows(
            error_text(c, e),
            "16"@,
        ),
        e is NoHost ==> text::shows(error_text(c, e), "aucune machine"@),
        e matches WolConfigError::InvalidMac(i) ==> text::shows_both(
            error_text(c, e),
            c.hosts@[i as int].name@,
            c.hosts@[i as int].mac@,
        ),
{
    match e {
        WolConfigError::Wildcard => {
            reveal_strlit("interfaces");
            reveal_strlit(
                "l'écoute doit être liée à l'adresse de wg0, pas à toutes les interfaces",
            );
            assert(error_text(c, e).subrange(61, 61int + "interfaces"@.len()) =~= "interfaces"@);
        },
        WolConfigError::ShortToken => {
            reveal_strlit("jeton");
            reveal_strlit("16");
            reveal_strlit("le jeton doit faire au moins 16 caractères");
            assert(error_text(c, e).subrange(3, 3int + "jeton"@.len()) =~= "jeton"@);
            assert(error_text(c, e).subrange(29, 29int + "16"@.len()) =~= "16"@);
        },
        WolConfigError::NoHost => {
            reveal_strlit("aucune machine");
            reveal_strlit("aucune machine déclarée");
            assert(error_text(c, e).subrange(0, 0int + "aucune machine"@.len())
                =~= "aucune machine"@);
        },
        WolConfigError::InvalidMac(i) => text::lemma_shows_both(
            "adresse MAC invalide pour "@,
            c.hosts@[i as int].name@,
            ": "@,
            c.hosts@[i as int].mac@,
            Seq::empty(),
        ),
    }
}

/// A header that is there is read whole, and one that is not there is not made up.
pub proof fn law_headers_are_read_whole(provided: Option<&str>)
    ensures
        header_text(provided) is Some <==> provided is Some,
        provided matches Some(s) ==> header_text(provided) == Some(s@),
{
}

} // verus!
