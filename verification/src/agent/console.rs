//! The host's console: what is typed there, and what it shows.
//!
//! Pairing is opened from the machine itself and never from the network: that is what
//! keeps a remote attacker from inviting themselves in.

use crate::agent::identity::PairedClient;
use crate::text;
use vstd::prelude::*;

verus! {

/// Whether someone sits at the agent's console.
#[derive(Debug, Clone, Copy, PartialEq, Eq, Structural)]
pub enum Console {
    /// Started by hand: banner, keyboard commands, pairing.
    Interactive,
    /// Started by the service: nobody reads and nobody types.
    Detached,
}

/// What the agent does on the console when it starts.
#[derive(Debug, Clone, Copy, PartialEq, Eq, Structural)]
pub struct StartPlan {
    /// Show the banner.
    pub banner: bool,
    /// Open a pairing window.
    pub open_pairing: bool,
    /// Warn that no client is paired.
    pub warn_no_client: bool,
    /// Read commands.
    pub read_commands: bool,
}

/// What to do on the console at start.
pub open spec fn plan_for(console: Console, pair_now: bool, no_clients: bool) -> StartPlan {
    StartPlan {
        banner: console == Console::Interactive,
        open_pairing: console == Console::Interactive && (pair_now || no_clients),
        warn_no_client: console == Console::Detached && no_clients,
        read_commands: console == Console::Interactive,
    }
}

/// What to do on the console at start. An agent without a paired client can be reached
/// by nobody: the pairing window opens at once, provided that someone can read the
/// code.
pub fn start_plan(console: Console, pair_now: bool, no_clients: bool) -> (p: StartPlan)
    ensures
        p == plan_for(console, pair_now, no_clients),
{
    match console {
        Console::Interactive => StartPlan {
            banner: true,
            open_pairing: pair_now || no_clients,
            warn_no_client: false,
            read_commands: true,
        },
        Console::Detached => StartPlan {
            banner: false,
            open_pairing: false,
            warn_no_client: no_clients,
            read_commands: false,
        },
    }
}

/// What was typed on the console.
#[derive(Debug, Clone, PartialEq, Eq)]
pub enum ConsoleCommand {
    /// Open a pairing window.
    Pair,
    /// List the clients.
    Clients,
    /// Close the pairing window.
    Cancel,
    /// Nothing.
    Empty,
    /// Something else.
    Unknown(String),
}

/// Whether `c` is what a line means, its text being `t` once trimmed.
pub open spec fn command_is(c: ConsoleCommand, t: Seq<char>) -> bool {
    if t == "p"@ || t == "pair"@ {
        c is Pair
    } else if t == "c"@ || t == "clients"@ {
        c is Clients
    } else if t == "x"@ || t == "cancel"@ {
        c is Cancel
    } else if t == ""@ {
        c is Empty
    } else {
        c matches ConsoleCommand::Unknown(s) && s@ == t
    }
}

/// What a line typed on the console means. White space at its ends does not count.
pub fn parse_command(line: &str) -> (c: ConsoleCommand)
    ensures
        command_is(c, text::trimmed(line@)),
{
    let chars = text::chars_of(line);
    let name = text::string_of(text::trim(chars.as_slice()).as_slice());
    let s = name.as_str();
    if text::same_text(s, "p") || text::same_text(s, "pair") {
        ConsoleCommand::Pair
    } else if text::same_text(s, "c") || text::same_text(s, "clients") {
        ConsoleCommand::Clients
    } else if text::same_text(s, "x") || text::same_text(s, "cancel") {
        ConsoleCommand::Cancel
    } else if text::same_text(s, "") {
        ConsoleCommand::Empty
    } else {
        ConsoleCommand::Unknown(name)
    }
}

/// The address that the agent listens on, as a URL.
pub open spec fn url_text(tls: bool, host: Seq<char>, port: u16) -> Seq<char> {
    (if tls {
        "https"@
    } else {
        "http"@
    }) + "://"@ + host + ":"@ + text::decimal(port as nat)
}

/// The address that the agent listens on, as a URL.
pub fn listen_url(tls: bool, host: &str, port: u16) -> (s: String)
    ensures
        s@ == url_text(tls, host@, port),
{
    let mut s = if tls {
        "https".to_owned()
    } else {
        "http".to_owned()
    };
    text::push_text(&mut s, "://");
    text::push_text(&mut s, host);
    text::push_text(&mut s, ":");
    text::push_decimal(&mut s, port as u64);
    assert(s@ =~= url_text(tls, host@, port));
    s
}

/// A label followed by a value.
fn labelled(label: &str, value: &str) -> (s: String)
    ensures
        s@ == label@ + value@,
{
    let mut s = label.to_owned();
    text::push_text(&mut s, value);
    s
}

/// What the agent says of itself when it starts at a console.
pub open spec fn banner_text(
    version: Seq<char>,
    dir: Seq<char>,
    url: Seq<char>,
    identity: Seq<char>,
    certificate: Seq<char>,
    clients: nat,
) -> Seq<Seq<char>> {
    seq![
        "sidgate "@ + version,
        "  données     : "@ + dir,
        "  écoute      : "@ + url,
        "  identité    : "@ + identity,
        "  certificat  : "@ + certificate,
        "  clients     : "@ + text::decimal(clients),
        ""@,
        "  tapez « p » puis Entrée pour ouvrir un appairage, « x » pour l'annuler"@,
        ""@,
    ]
}

/// What the agent says of itself when it starts at a console, line by line.
pub fn print_banner(
    version: &str,
    dir: &str,
    url: &str,
    identity: &str,
    certificate: &str,
    clients: usize,
) -> (v: Vec<String>)
    ensures
        text::texts(v@) == banner_text(
            version@,
            dir@,
            url@,
            identity@,
            certificate@,
            clients as nat,
        ),
{
    let mut count = "  clients     : ".to_owned();
    text::push_decimal(&mut count, clients as u64);
    let mut v: Vec<String> = Vec::new();
    v.push(labelled("sidgate ", version));
    v.push(labelled("  données     : ", dir));
    v.push(labelled("  écoute      : ", url));
    v.push(labelled("  identité    : ", identity));
    v.push(labelled("  certificat  : ", certificate));
    v.push(count);
    v.push("".to_owned());
    v.push("  tapez « p » puis Entrée pour ouvrir un appairage, « x » pour l'annuler".to_owned());
    v.push("".to_owned());
    assert(text::texts(v@) =~= banner_text(
        version@,
        dir@,
        url@,
        identity@,
        certificate@,
        clients as nat,
    ));
    v
}

/// What a pairing code is shown with.
pub open spec fn pairing_text(code: Seq<char>, seconds: u64) -> Seq<Seq<char>> {
    seq![
        ""@,
        "  ┌──────────────────────────────────┐"@,
        "  │  code d'appairage : "@ + code + "     │"@,
        "  └──────────────────────────────────┘"@,
        "  valable "@ + text::decimal(seconds as nat) + " secondes, un seul usage"@,
        ""@,
    ]
}

/// What a pairing code is shown with, line by line.
pub fn pairing_lines(code: &str, seconds: u64) -> (v: Vec<String>)
    ensures
        text::texts(v@) == pairing_text(code@, seconds),
{
    let mut shown = labelled("  │  code d'appairage : ", code);
    text::push_text(&mut shown, "     │");
    let mut limit = "  valable ".to_owned();
    text::push_decimal(&mut limit, seconds);
    text::push_text(&mut limit, " secondes, un seul usage");
    let mut v: Vec<String> = Vec::new();
    v.push("".to_owned());
    v.push("  ┌──────────────────────────────────┐".to_owned());
    v.push(shown);
    v.push("  └──────────────────────────────────┘".to_owned());
    v.push(limit);
    v.push("".to_owned());
    assert(text::texts(v@) =~= pairing_text(code@, seconds));
    v
}

/// What `info` shows.
pub open spec fn info_text(
    dir: Seq<char>,
    file: Seq<char>,
    public_key: Seq<char>,
    identity: Seq<char>,
    certificate: Seq<char>,
    host: Seq<char>,
    port: u16,
    power_actions: bool,
) -> Seq<Seq<char>> {
    seq![
        "répertoire de données : "@ + dir,
        "configuration         : "@ + file,
        "clé publique          : "@ + public_key,
        "empreinte identité    : "@ + identity,
        "empreinte certificat  : "@ + certificate,
        "écoute                : "@ + url_text(true, host, port),
        "actions alimentation  : "@ + if power_actions {
            "autorisées"@
        } else {
            "refusées"@
        },
    ]
}

/// What `info` shows, line by line.
pub fn info(
    dir: &str,
    file: &str,
    public_key: &str,
    identity: &str,
    certificate: &str,
    host: &str,
    port: u16,
    power_actions: bool,
) -> (v: Vec<String>)
    ensures
        text::texts(v@) == info_text(
            dir@,
            file@,
            public_key@,
            identity@,
            certificate@,
            host@,
            port,
            power_actions,
        ),
{
    let power = if power_actions {
        "autorisées"
    } else {
        "refusées"
    };
    let mut v: Vec<String> = Vec::new();
    v.push(labelled("répertoire de données : ", dir));
    v.push(labelled("configuration         : ", file));
    v.push(labelled("clé publique          : ", public_key));
    v.push(labelled("empreinte identité    : ", identity));
    v.push(labelled("empreinte certificat  : ", certificate));
    v.push(labelled("écoute                : ", listen_url(true, host, port).as_str()));
    v.push(labelled("actions alimentation  : ", power));
    assert(text::texts(v@) =~= info_text(
        dir@,
        file@,
        public_key@,
        identity@,
        certificate@,
        host@,
        port,
        power_actions,
    ));
    v
}

/// What the console answers to something that it does not know.
pub open spec fn unknown_text(typed: Seq<char>) -> Seq<char> {
    "commande inconnue: "@ + typed + " (p = appairer, x = annuler, c = clients)"@
}

/// What the console says of a client, in one line.
pub open spec fn client_summary(c: PairedClient) -> Seq<char> {
    "  "@ + c.label@ + " — "@ + c.key@
}

/// What is said of a revocation.
pub open spec fn revoke_text(removed: bool) -> Seq<char> {
    if removed {
        "client révoqué"@
    } else {
        "aucun client avec cette clé"@
    }
}

/// What the console answers to something that it does not know.
pub fn unknown_line(typed: &str) -> (s: String)
    ensures
        s@ == unknown_text(typed@),
{
    let mut s = labelled("commande inconnue: ", typed);
    text::push_text(&mut s, " (p = appairer, x = annuler, c = clients)");
    s
}

/// What the console says of a client, in one line.
pub fn client_line(c: &PairedClient) -> (s: String)
    ensures
        s@ == client_summary(*c),
{
    let mut s = labelled("  ", c.label.as_str());
    text::push_text(&mut s, " — ");
    text::push_text(&mut s, c.key.as_str());
    s
}

/// What is said of a revocation.
pub fn revoke_line(removed: bool) -> (s: &'static str)
    ensures
        s@ == revoke_text(removed),
{
    if removed {
        "client révoqué"
    } else {
        "aucun client avec cette clé"
    }
}

/// What the `time` crate makes of a number of seconds since the Unix epoch, in the
/// form of RFC 3339; nothing where it cannot.
pub uninterp spec fn rfc3339(seconds: i64) -> Option<Seq<char>>;

/// `time::OffsetDateTime::from_unix_timestamp` and `OffsetDateTime::format` with
/// `Rfc3339` make a date in UTC of a number of seconds, or refuse it, from the number
/// alone.
#[verifier::external_body]
fn to_rfc3339(seconds: i64) -> (r: Option<String>)
    ensures
        match r {
            Some(s) => rfc3339(seconds) == Some(s@),
            None => rfc3339(seconds) is None,
        },
{
    let date = time::OffsetDateTime::from_unix_timestamp(seconds).ok()?;
    date.format(&time::format_description::well_known::Rfc3339).ok()
}

/// The signed number with the same 64 bits as `x`.
pub open spec fn i64_of_bits(x: u64) -> i64 {
    if x >= 0x8000_0000_0000_0000 {
        (x - 0x1_0000_0000_0000_0000) as i64
    } else {
        x as i64
    }
}

/// A date in words: RFC 3339, or the number of seconds where that cannot be had.
pub open spec fn date_text(seconds: u64) -> Seq<char> {
    match rfc3339(i64_of_bits(seconds)) {
        Some(t) => t,
        None => text::decimal(seconds as nat),
    }
}

/// A date in words, given what the calendar makes of it.
pub fn date_or_seconds(date: Option<String>, seconds: u64) -> (s: String)
    ensures
        s@ == match date {
            Some(d) => d@,
            None => text::decimal(seconds as nat),
        },
{
    match date {
        Some(d) => d,
        None => {
            let mut s = String::new();
            text::push_decimal(&mut s, seconds);
            assert(s@ =~= text::decimal(seconds as nat));
            s
        },
    }
}

/// A number of seconds since the Unix epoch, in words.
pub fn format_unix(seconds: u64) -> (s: String)
    ensures
        s@ == date_text(seconds),
{
    let signed: i64 = if seconds >= 0x8000_0000_0000_0000 {
        (seconds as i128 - 0x1_0000_0000_0000_0000) as i64
    } else {
        seconds as i64
    };
    date_or_seconds(to_rfc3339(signed), seconds)
}

/// What the list of clients says of one of them.
pub open spec fn client_text(c: PairedClient) -> Seq<Seq<char>> {
    seq![
        c.label@,
        "  clé       : "@ + c.key@,
        "  appairé   : "@ + date_text(c.paired_at),
        "  vu le     : "@ + match c.last_seen {
            Some(t) => date_text(t),
            None => "jamais"@,
        },
    ]
}

/// What the list of clients says of one of them, line by line.
pub fn client_lines(c: &PairedClient) -> (v: Vec<String>)
    ensures
        text::texts(v@) == client_text(*c),
{
    let mut key = "  clé       : ".to_owned();
    text::push_text(&mut key, c.key.as_str());
    let mut paired = "  appairé   : ".to_owned();
    text::push_text(&mut paired, format_unix(c.paired_at).as_str());
    let mut seen = "  vu le     : ".to_owned();
    match c.last_seen {
        Some(t) => {
            text::push_text(&mut seen, format_unix(t).as_str());
        },
        None => {
            text::push_text(&mut seen, "jamais");
        },
    }
    let mut v: Vec<String> = Vec::new();
    v.push(c.label.clone());
    v.push(key);
    v.push(paired);
    v.push(seen);
    assert(text::texts(v@) =~= client_text(*c));
    v
}

/// What is said of each of the clients, in their order.
pub open spec fn listing(clients: Seq<PairedClient>) -> Seq<Seq<char>>
    decreases clients.len(),
{
    if clients.len() == 0 {
        Seq::empty()
    } else {
        listing(clients.drop_last()) + client_text(clients.last())
    }
}

/// The list of the clients.
pub open spec fn clients_text(clients: Seq<PairedClient>) -> Seq<Seq<char>> {
    if clients.len() == 0 {
        seq!["aucun client appairé"@]
    } else {
        listing(clients)
    }
}

/// The list of the clients, line by line.
pub fn clients(paired: &[PairedClient]) -> (v: Vec<String>)
    ensures
        text::texts(v@) == clients_text(paired@),
{
    let mut v: Vec<String> = Vec::new();
    if paired.len() == 0 {
        v.push("aucun client appairé".to_owned());
        assert(text::texts(v@) =~= clients_text(paired@));
        return v;
    }
    let mut i: usize = 0;
    assert(text::texts(v@) =~= listing(paired@.take(0)));
    while i < paired.len()
        invariant
            i <= paired@.len(),
            text::texts(v@) == listing(paired@.take(i as int)),
        decreases paired@.len() - i,
    {
        let mut lines = client_lines(&paired[i]);
        let ghost before = v@;
        let ghost more = lines@;
        v.append(&mut lines);
        proof {
            let head = paired@.take(i + 1);
            assert(head.drop_last() =~= paired@.take(i as int));
            assert(text::texts(v@) =~= text::texts(before) + text::texts(more));
        }
        i = i + 1;
    }
    assert(paired@.take(i as int) =~= paired@);
    v
}

/// No pairing window ever opens where nobody can read the code; and where somebody can,
/// one opens whenever no client is paired.
pub proof fn law_pairing_needs_a_console(console: Console, pair_now: bool, no_clients: bool)
    ensures
        plan_for(console, pair_now, no_clients).open_pairing ==> console == Console::Interactive,
        console == Console::Interactive && no_clients ==> plan_for(
            console,
            pair_now,
            no_clients,
        ).open_pairing,
{
}

/// What the agent does on the console when it starts. With someone there it shows its banner
/// and takes commands, and opens a window if it is asked to or has no client. With nobody
/// there it does none of this, and warns if it has no client.
pub proof fn law_the_start_depends_on_who_is_there(
    console: Console,
    pair_now: bool,
    no_clients: bool,
)
    ensures
        ({
            let p = plan_for(console, pair_now, no_clients);
            &&& p.banner <==> console is Interactive
            &&& p.read_commands <==> console is Interactive
            &&& p.open_pairing <==> console is Interactive && (pair_now || no_clients)
            &&& p.warn_no_client <==> console is Detached && no_clients
        }),
{
}

/// What is typed means one thing: `p` or `pair` opens a window, `x` or `cancel` closes it, `c`
/// or `clients` lists the clients, nothing is nothing, and everything else is unknown and
/// handed back as it was typed.
pub proof fn law_commands_mean_one_thing(c: ConsoleCommand, t: Seq<char>)
    requires
        command_is(c, t),
    ensures
        c is Pair <==> t == "p"@ || t == "pair"@,
        c is Clients <==> t == "c"@ || t == "clients"@,
        c is Cancel <==> t == "x"@ || t == "cancel"@,
        c is Empty <==> t.len() == 0,
        c matches ConsoleCommand::Unknown(s) ==> s@ == t,
{
    reveal_strlit("p");
    reveal_strlit("pair");
    reveal_strlit("c");
    reveal_strlit("clients");
    reveal_strlit("x");
    reveal_strlit("cancel");
    reveal_strlit("");
    assert("p"@[0] == 'p' && "c"@[0] == 'c' && "x"@[0] == 'x');
    assert("p"@.len() == 1 && "c"@.len() == 1 && "x"@.len() == 1);
    assert("pair"@.len() == 4 && "clients"@.len() == 7 && "cancel"@.len() == 6);
    if t.len() == 0 {
        assert(t =~= ""@);
    }
}

/// The address is a URL: the scheme that goes with TLS, then the host, a colon and the port.
pub proof fn law_the_address_is_a_url(tls: bool, host: Seq<char>, port: u16)
    ensures
        url_text(true, host, port) == "https://"@ + host + ":"@ + text::decimal(port as nat),
        url_text(false, host, port) == "http://"@ + host + ":"@ + text::decimal(port as nat),
{
    reveal_strlit("https");
    reveal_strlit("http");
    reveal_strlit("://");
    reveal_strlit("https://");
    reveal_strlit("http://");
    assert("https"@ + "://"@ =~= "https://"@);
    assert("http"@ + "://"@ =~= "http://"@);
}

/// The clients are listed in their order, four lines each: the name, the key, when it was
/// paired and when it was last seen, or that it never was. Without clients the list says so.
pub proof fn law_clients_are_listed_in_order(clients: Seq<PairedClient>, c: PairedClient)
    ensures
        listing(clients.push(c)) == listing(clients) + client_text(c),
        listing(Seq::<PairedClient>::empty()).len() == 0,
        client_text(c).len() == 4,
        client_text(c)[0] == c.label@,
        client_text(c)[1] == "  clé       : "@ + c.key@,
        client_text(c)[2] == "  appairé   : "@ + date_text(c.paired_at),
        c.last_seen matches Some(t) ==> client_text(c)[3] == "  vu le     : "@ + date_text(t),
        c.last_seen is None ==> client_text(c)[3] == "  vu le     : "@ + "jamais"@,
        clients.len() == 0 ==> clients_text(clients) == seq!["aucun client appairé"@],
        clients.len() > 0 ==> clients_text(clients) == listing(clients),
{
    assert(clients.push(c).drop_last() =~= clients);
}

/// A date is what the calendar makes of it, and the seconds themselves where it makes
/// nothing of them. A number of seconds is taken by its 64 bits.
pub proof fn law_dates_fall_back_to_seconds(seconds: u64)
    ensures
        i64_of_bits(seconds) as int % 0x1_0000_0000_0000_0000 == seconds,
        seconds < 0x8000_0000_0000_0000 ==> i64_of_bits(seconds) == seconds,
        match rfc3339(i64_of_bits(seconds)) {
            Some(t) => date_text(seconds) == t,
            None => date_text(seconds) == text::decimal(seconds as nat),
        },
{
}

/// Whether a text ends with another.
pub open spec fn ends_with(t: Seq<char>, end: Seq<char>) -> bool {
    t.len() >= end.len() && t.skip(t.len() - end.len()) == end
}

proof fn lemma_ends_with(lead: Seq<char>, end: Seq<char>)
    ensures
        ends_with(lead + end, end),
{
    assert((lead + end).skip((lead + end).len() - end.len()) =~= end);
}

/// The banner shows each value on a line of its own, whole and at its end, in this order: the
/// version, the directory, the address, the identity, the certificate and the number of
/// clients.
pub proof fn law_the_banner_shows_each_value_whole(
    version: Seq<char>,
    dir: Seq<char>,
    url: Seq<char>,
    identity: Seq<char>,
    certificate: Seq<char>,
    clients: nat,
)
    ensures
        ({
            let b = banner_text(version, dir, url, identity, certificate, clients);
            &&& ends_with(b[0], version)
            &&& ends_with(b[1], dir)
            &&& ends_with(b[2], url)
            &&& ends_with(b[3], identity)
            &&& ends_with(b[4], certificate)
            &&& ends_with(b[5], text::decimal(clients))
        }),
{
    lemma_ends_with("sidgate "@, version);
    lemma_ends_with("  données     : "@, dir);
    lemma_ends_with("  écoute      : "@, url);
    lemma_ends_with("  identité    : "@, identity);
    lemma_ends_with("  certificat  : "@, certificate);
    lemma_ends_with("  clients     : "@, text::decimal(clients));
}

/// The information shows each value on a line of its own, whole and at its end, in this order:
/// the directory, the file, the key, the identity, the certificate and the address, which is
/// one of TLS. The last line tells whether power actions are allowed from whether they are not.
pub proof fn law_the_information_shows_each_value_whole(
    dir: Seq<char>,
    file: Seq<char>,
    public_key: Seq<char>,
    identity: Seq<char>,
    certificate: Seq<char>,
    host: Seq<char>,
    port: u16,
)
    ensures
        ({
            let yes = info_text(dir, file, public_key, identity, certificate, host, port, true);
            let no = info_text(dir, file, public_key, identity, certificate, host, port, false);
            &&& yes.len() == 7
            &&& no.len() == 7
            &&& yes.take(6) == no.take(6)
            &&& ends_with(yes[0], dir)
            &&& ends_with(yes[1], file)
            &&& ends_with(yes[2], public_key)
            &&& ends_with(yes[3], identity)
            &&& ends_with(yes[4], certificate)
            &&& ends_with(yes[5], "https://"@ + host + ":"@ + text::decimal(port as nat))
            &&& ends_with(yes[6], "autorisées"@)
            &&& ends_with(no[6], "refusées"@)
        }),
{
    law_the_address_is_a_url(true, host, port);
    lemma_ends_with("répertoire de données : "@, dir);
    lemma_ends_with("configuration         : "@, file);
    lemma_ends_with("clé publique          : "@, public_key);
    lemma_ends_with("empreinte identité    : "@, identity);
    lemma_ends_with("empreinte certificat  : "@, certificate);
    lemma_ends_with("écoute                : "@, url_text(true, host, port));
    lemma_ends_with("actions alimentation  : "@, "autorisées"@);
    lemma_ends_with("actions alimentation  : "@, "refusées"@);
    assert(info_text(dir, file, public_key, identity, certificate, host, port, true).take(6)
        =~= info_text(dir, file, public_key, identity, certificate, host, port, false).take(6));
}

/// What is said shows what it is about, whole: a code and how long it holds, the line that was
/// not understood, the name of a client and then its key. That a client was revoked is said
/// exactly where one was.
pub proof fn law_what_is_said_shows_what_it_is_about(
    code: Seq<char>,
    seconds: u64,
    typed: Seq<char>,
    c: PairedClient,
)
    ensures
        text::shows(pairing_text(code, seconds)[2], code),
        text::shows(pairing_text(code, seconds)[4], text::decimal(seconds as nat)),
        text::shows(unknown_text(typed), typed),
        text::shows_both(client_summary(c), c.label@, c.key@),
        text::shows(revoke_text(true), "révoqué"@),
        text::shows(revoke_text(false), "aucun client"@),
{
    text::lemma_shows("  │  code d'appairage : "@, code, "     │"@);
    text::lemma_shows(
        "  valable "@,
        text::decimal(seconds as nat),
        " secondes, un seul usage"@,
    );
    text::lemma_shows(
        "commande inconnue: "@,
        typed,
        " (p = appairer, x = annuler, c = clients)"@,
    );
    text::lemma_shows_both("  "@, c.label@, " — "@, c.key@, Seq::empty());
    reveal_strlit("révoqué");
    reveal_strlit("client révoqué");
    reveal_strlit("aucun client");
    reveal_strlit("aucun client avec cette clé");
    assert(revoke_text(true).subrange(7, 7int + "révoqué"@.len()) =~= "révoqué"@);
    assert(revoke_text(false).subrange(0, 0int + "aucun client"@.len()) =~= "aucun client"@);
}

} // verus!
