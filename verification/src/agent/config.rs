//! Configuration of the agent.
//!
//! Everything is refused by default: power actions are off and the agent listens
//! on the loopback only, until the configuration says otherwise. An agent that
//! was installed and never configured exposes nothing.

use crate::net;
use crate::net::IpAddress;
use crate::proto::control::QualityPreset;
use crate::text;
use vstd::prelude::*;

verus! {

/// Name of the configuration file in the data directory.
pub const CONFIG_FILE: &'static str = "sidgate.toml";

/// Complete configuration of the agent.
#[derive(Debug, Clone, PartialEq)]
pub struct Config {
    /// Listening and signalling.
    pub network: NetworkConfig,
    /// Capture and encoding.
    pub video: VideoConfig,
    /// What the agent allows itself to do.
    pub security: SecurityConfig,
}

/// Listening.
#[derive(Debug, Clone, PartialEq)]
pub struct NetworkConfig {
    /// Address to listen on. The loopback by default; in production, the address
    /// of the tunnel's interface.
    pub bind: IpAddress,
    /// Port for HTTPS and WSS.
    pub port: u16,
    /// Serve over TLS. Turning it off is accepted on a loopback address only.
    pub tls: bool,
    /// STUN servers for the gathering of ICE candidates. Empty by default:
    /// asking a public server would disclose that the machine exists.
    pub stun_servers: Vec<String>,
}

/// Capture and encoding.
#[derive(Debug, Clone, Copy, PartialEq, Eq, Structural)]
pub struct VideoConfig {
    /// Index of the video output to duplicate.
    pub output: u32,
    /// Highest rate, in frames per second.
    pub framerate: u32,
    /// Initial quality preset.
    pub quality: QualityPreset,
}

/// Safeguards.
#[derive(Debug, Clone, Copy, PartialEq, Eq, Structural)]
pub struct SecurityConfig {
    /// Allow `sleep`, `reboot` and `shutdown`.
    pub allow_power_actions: bool,
    /// Allow the injection of mouse and keyboard.
    pub allow_input: bool,
    /// Lock the session as soon as the transport is lost.
    pub lock_on_disconnect: bool,
    /// How long a pairing code stays valid, in seconds.
    pub pairing_window_secs: u64,
    /// Authentication attempts tolerated per minute and per address.
    pub auth_attempts_per_minute: u32,
}

/// Why a configuration is refused.
#[derive(Debug, Clone, Copy, PartialEq, Eq, Structural)]
pub enum ConfigError {
    /// The port is zero.
    ZeroPort,
    /// The frame rate is outside `1..=240`.
    Framerate,
    /// A pairing window under ten seconds cannot be used.
    PairingWindow,
    /// Plain HTTP outside the loopback, where a browser refuses WebRTC.
    PlainHttp,
}

/// What is wrong with a configuration, in words.
pub open spec fn error_text(e: ConfigError, bind: Seq<char>) -> Seq<char> {
    match e {
        ConfigError::ZeroPort => "le port d'écoute ne peut être nul"@,
        ConfigError::Framerate =>
            "la cadence doit être comprise entre 1 et 240 images par seconde"@,
        ConfigError::PairingWindow =>
            "une fenêtre d'appairage de moins de 10 secondes est inutilisable"@,
        ConfigError::PlainHttp =>
            "servir en clair n'est autorisé que sur la boucle locale ; sur "@ + bind
                + " un              navigateur refuserait WebRTC faute de contexte sécurisé"@,
    }
}

impl ConfigError {
    /// What is wrong, in words, the listening address being `bind`.
    pub fn message(&self, bind: &str) -> (s: String)
        ensures
            s@ == error_text(*self, bind@),
    {
        match self {
            ConfigError::ZeroPort => "le port d'écoute ne peut être nul".to_owned(),
            ConfigError::Framerate => {
                "la cadence doit être comprise entre 1 et 240 images par seconde".to_owned()
            },
            ConfigError::PairingWindow => {
                "une fenêtre d'appairage de moins de 10 secondes est inutilisable".to_owned()
            },
            ConfigError::PlainHttp => {
                let mut s =
                    "servir en clair n'est autorisé que sur la boucle locale ; sur ".to_owned();
                text::push_text(&mut s, bind);
                text::push_text(
                    &mut s,
                    " un              navigateur refuserait WebRTC faute de contexte sécurisé",
                );
                s
            },
        }
    }
}

/// The defaults of the network section.
pub open spec fn is_default_network(n: NetworkConfig) -> bool {
    &&& n.bind == IpAddress::V4(net::v4_number(127, 0, 0, 1))
    &&& n.port == 8443
    &&& n.tls
    &&& n.stun_servers@.len() == 0
}

/// The defaults of the video section.
pub open spec fn default_video() -> VideoConfig {
    VideoConfig { output: 0, framerate: 60, quality: QualityPreset::Balanced }
}

/// The defaults of the security section.
pub open spec fn default_security() -> SecurityConfig {
    SecurityConfig {
        allow_power_actions: false,
        allow_input: true,
        lock_on_disconnect: true,
        pairing_window_secs: 120,
        auth_attempts_per_minute: 10,
    }
}

/// The default configuration.
pub open spec fn is_default(c: Config) -> bool {
    &&& is_default_network(c.network)
    &&& c.video == default_video()
    &&& c.security == default_security()
}

/// What is wrong with a configuration: the first of the tests that fails.
pub open spec fn config_error(c: Config) -> Option<ConfigError> {
    if c.network.port == 0 {
        Some(ConfigError::ZeroPort)
    } else if !(1 <= c.video.framerate <= 240) {
        Some(ConfigError::Framerate)
    } else if c.security.pairing_window_secs < 10 {
        Some(ConfigError::PairingWindow)
    } else if !c.network.tls && !net::loopback(c.network.bind) {
        Some(ConfigError::PlainHttp)
    } else {
        None
    }
}

/// Whether a result is the configuration to run with, given what the file holds.
pub open spec fn loaded(stored: Option<Config>, r: Result<(Config, bool), ConfigError>) -> bool {
    match stored {
        None => r matches Ok((c, write)) && is_default(c) && write,
        Some(config) => match config_error(config) {
            None => r == Ok::<(Config, bool), ConfigError>((config, false)),
            Some(e) => r == Err::<(Config, bool), ConfigError>(e),
        },
    }
}

impl Default for NetworkConfig {
    fn default() -> (n: NetworkConfig)
        ensures
            is_default_network(n),
    {
        NetworkConfig {
            bind: IpAddress::v4(127, 0, 0, 1),
            port: 8443,
            tls: true,
            stun_servers: Vec::new(),
        }
    }
}

impl Default for VideoConfig {
    fn default() -> (v: VideoConfig)
        ensures
            v == default_video(),
    {
        VideoConfig { output: 0, framerate: 60, quality: QualityPreset::Balanced }
    }
}

impl Default for SecurityConfig {
    fn default() -> (s: SecurityConfig)
        ensures
            s == default_security(),
    {
        SecurityConfig {
            allow_power_actions: false,
            allow_input: true,
            lock_on_disconnect: true,
            pairing_window_secs: 120,
            auth_attempts_per_minute: 10,
        }
    }
}

impl Default for Config {
    fn default() -> (c: Config)
        ensures
            is_default(c),
    {
        Config {
            network: NetworkConfig::default(),
            video: VideoConfig::default(),
            security: SecurityConfig::default(),
        }
    }
}

impl Config {
    /// The configuration to run with, given what the file holds (`None`: there is
    /// no file). The flag says that it has to be written.
    pub fn load_or_create(stored: Option<Config>) -> (r: Result<(Config, bool), ConfigError>)
        ensures
            loaded(stored, r),
    {
        match stored {
            None => Ok((Config::default(), true)),
            Some(config) => match config.validate() {
                Ok(()) => Ok((config, false)),
                Err(e) => Err(e),
            },
        }
    }

    /// Checks the values that were loaded.
    pub fn validate(&self) -> (r: Result<(), ConfigError>)
        ensures
            match config_error(*self) {
                None => r == Ok::<(), ConfigError>(()),
                Some(e) => r == Err::<(), ConfigError>(e),
            },
    {
        if self.network.port == 0 {
            return Err(ConfigError::ZeroPort);
        }
        if self.video.framerate < 1 || self.video.framerate > 240 {
            return Err(ConfigError::Framerate);
        }
        if self.security.pairing_window_secs < 10 {
            return Err(ConfigError::PairingWindow);
        }
        if !self.network.tls && !self.network.bind.is_loopback() {
            return Err(ConfigError::PlainHttp);
        }
        Ok(())
    }
}

/// The defaults are closed: no power action, nothing reachable from outside the
/// machine, no third party asked, the session locked when the transport is lost;
/// and they are valid.
pub proof fn law_defaults_are_closed(c: Config)
    requires
        is_default(c),
    ensures
        !c.security.allow_power_actions,
        c.security.lock_on_disconnect,
        net::loopback(c.network.bind),
        c.network.tls,
        c.network.stun_servers@.len() == 0,
        config_error(c) is None,
{
}

/// A valid configuration never serves in clear outside the loopback.
pub proof fn law_plain_http_is_confined_to_loopback(c: Config)
    requires
        config_error(c) is None,
    ensures
        !c.network.tls ==> net::loopback(c.network.bind),
{
}

/// Variable that names the data directory. It comes before everything else, so that
/// several instances can run side by side.
pub const DATA_DIR_VARIABLE: &'static str = "SIDGATE_DATA_DIR";

/// Name of the data directory in its base.
pub const DATA_DIR_NAME: &'static str = "sidgate";

/// Data directory where no base can be written.
pub const LOCAL_DATA_DIR: &'static str = "sidgate-data";

/// A directory that the data directory may stand in.
#[derive(Debug, Clone, Copy, PartialEq, Eq, Structural)]
pub enum DataDirBase {
    /// The machine's, which outlives a change of user: the agent needs it as a service.
    ProgramData,
    /// The user's, where the machine's cannot be written.
    LocalAppData,
    /// The user's on other systems.
    Home,
}

/// The text of the variable that names a base.
pub open spec fn base_variable(base: DataDirBase) -> Seq<char> {
    match base {
        DataDirBase::ProgramData => "ProgramData"@,
        DataDirBase::LocalAppData => "LOCALAPPDATA"@,
        DataDirBase::Home => "HOME"@,
    }
}

/// The bases, the preferred one first.
pub open spec fn bases() -> Seq<DataDirBase> {
    seq![DataDirBase::ProgramData, DataDirBase::LocalAppData, DataDirBase::Home]
}

impl DataDirBase {
    /// The variable that names this base.
    pub fn variable(&self) -> (s: &'static str)
        ensures
            s@ == base_variable(*self),
    {
        match self {
            DataDirBase::ProgramData => "ProgramData",
            DataDirBase::LocalAppData => "LOCALAPPDATA",
            DataDirBase::Home => "HOME",
        }
    }
}

/// What the choice of the data directory calls for.
#[derive(Debug, Clone, Copy, PartialEq, Eq, Structural)]
pub enum DataDirStep {
    /// Use the directory that was given.
    Given,
    /// Try to write in this base.
    Try(DataDirBase),
    /// Use the directory in this base.
    Use(DataDirBase),
    /// Use [`LOCAL_DATA_DIR`].
    Local,
}

/// Whether a step is what the choice of the data directory calls for.
pub open spec fn chooses(given: bool, tried: Seq<bool>, step: DataDirStep) -> bool {
    if given {
        step == DataDirStep::Given
    } else {
        match step {
            DataDirStep::Given => false,
            DataDirStep::Use(base) => exists|i: int|
                0 <= i < tried.len() && #[trigger] tried[i] && base == bases()[i] && forall|k: int|
                    0 <= k < i ==> !#[trigger] tried[k],
            DataDirStep::Try(base) => !tried.contains(true) && tried.len() < bases().len() && base
                == bases()[tried.len() as int],
            DataDirStep::Local => !tried.contains(true) && tried.len() == bases().len(),
        }
    }
}

/// The data directory. One that is `given` comes before everything else. Else `tried`
/// tells of the bases tried so far, in their order, which could be written: the first
/// that can is used, and where none can, a local directory.
pub fn data_dir(given: bool, tried: &[bool]) -> (step: DataDirStep)
    requires
        tried@.len() <= bases().len(),
    ensures
        chooses(given, tried@, step),
{
    if given {
        return DataDirStep::Given;
    }
    let mut i: usize = 0;
    while i < tried.len()
        invariant
            i <= tried@.len() <= bases().len(),
            forall|k: int| 0 <= k < i ==> !#[trigger] tried@[k],
            !given,
        decreases tried@.len() - i,
    {
        if tried[i] {
            assert(tried@[i as int]);
            return DataDirStep::Use(base_at(i));
        }
        i = i + 1;
    }
    if tried.len() < 3 {
        DataDirStep::Try(base_at(tried.len()))
    } else {
        DataDirStep::Local
    }
}

/// The base at a place.
fn base_at(i: usize) -> (base: DataDirBase)
    requires
        i < bases().len(),
    ensures
        base == bases()[i as int],
{
    if i == 0 {
        DataDirBase::ProgramData
    } else if i == 1 {
        DataDirBase::LocalAppData
    } else {
        DataDirBase::Home
    }
}

/// A configuration is refused for four reasons, looked at in this order: no port, a rate
/// outside 1 to 240, a window under ten seconds, and plain HTTP outside the loopback. There
/// is no other.
pub proof fn law_configurations_are_refused_for_cause(c: Config)
    ensures
        ({
            let port = c.network.port == 0;
            let rate = c.video.framerate < 1 || c.video.framerate > 240;
            let window = c.security.pairing_window_secs < 10;
            let plain = !c.network.tls && !net::loopback(c.network.bind);
            &&& config_error(c) is None <==> !port && !rate && !window && !plain
            &&& config_error(c) == Some(ConfigError::ZeroPort) <==> port
            &&& config_error(c) == Some(ConfigError::Framerate) <==> !port && rate
            &&& config_error(c) == Some(ConfigError::PairingWindow) <==> !port && !rate && window
            &&& config_error(c) == Some(ConfigError::PlainHttp) <==> !port && !rate && !window
                && plain
        }),
{
}

/// The defaults, number by number: port 8443 of 127.0.0.1, over TLS and without STUN; the
/// first screen at 60 images a second, balanced; input allowed, power not; a window of two
/// minutes, and ten attempts a minute.
pub proof fn law_the_defaults_are_these(c: Config)
    requires
        is_default(c),
    ensures
        c.network.bind == IpAddress::V4(0x7F00_0001),
        c.network.port == 8443,
        c.network.tls,
        c.network.stun_servers@.len() == 0,
        c.video.output == 0,
        c.video.framerate == 60,
        c.video.quality is Balanced,
        !c.security.allow_power_actions,
        c.security.allow_input,
        c.security.lock_on_disconnect,
        c.security.pairing_window_secs == 120,
        c.security.auth_attempts_per_minute == 10,
{
}

/// The configuration to run with: what is stored, as it is, if it is valid; what is wrong
/// with it, if not; and where nothing is stored, the defaults, which are then written. What
/// is stored is never written over.
pub proof fn law_what_is_stored_is_kept(
    stored: Option<Config>,
    r: Result<(Config, bool), ConfigError>,
)
    requires
        loaded(stored, r),
    ensures
        r matches Ok((c, write)) ==> (write <==> stored is None),
        stored matches Some(s) ==> (r matches Ok((c, _)) ==> c == s && config_error(s) is None),
        stored matches Some(s) ==> (r matches Err(e) ==> config_error(s) == Some(e)),
        stored is None ==> (r matches Ok((c, _)) && is_default(c)),
{
}

/// Where the data goes. A directory that is given is used, whatever can be written. Else the
/// bases are tried in their order, the machine's, then the user's, and the first that can be
/// written is used; where none can, the data stays local. A base is named by its variable.
pub proof fn law_data_goes_where_it_can_be_written(
    given: bool,
    tried: Seq<bool>,
    step: DataDirStep,
)
    requires
        chooses(given, tried, step),
        tried.len() <= 3,
    ensures
        given <==> step is Given,
        !given && tried.len() > 0 && tried[0] ==> step == DataDirStep::Use(
            DataDirBase::ProgramData,
        ),
        !given && tried.len() > 1 && !tried[0] && tried[1] ==> step == DataDirStep::Use(
            DataDirBase::LocalAppData,
        ),
        !given && tried.len() > 2 && !tried[0] && !tried[1] && tried[2] ==> step
            == DataDirStep::Use(DataDirBase::Home),
        !given && tried.len() == 0 ==> step == DataDirStep::Try(DataDirBase::ProgramData),
        !given && tried.len() == 1 && !tried[0] ==> step == DataDirStep::Try(
            DataDirBase::LocalAppData,
        ),
        !given && tried.len() == 2 && !tried[0] && !tried[1] ==> step == DataDirStep::Try(
            DataDirBase::Home,
        ),
        !given && tried.len() == 3 && !tried[0] && !tried[1] && !tried[2] ==> step is Local,
        base_variable(DataDirBase::ProgramData) == "ProgramData"@,
        base_variable(DataDirBase::LocalAppData) == "LOCALAPPDATA"@,
        base_variable(DataDirBase::Home) == "HOME"@,
{
    if !given {
        if tried.len() > 0 && tried[0] {
            assert(tried.contains(true));
        }
        if tried.len() > 1 && tried[1] {
            assert(tried.contains(true));
        }
        if tried.len() > 2 && tried[2] {
            assert(tried.contains(true));
        }
    }
}

/// An error shows what it is about: the port, the rate with its bounds, the pairing window
/// with its least length, or the address that may not be served in the clear.
pub proof fn law_errors_show_what_they_are_about(e: ConfigError, bind: Seq<char>)
    ensures
        e is ZeroPort ==> text::shows(error_text(e, bind), "port"@),
        e is Framerate ==> text::shows(error_text(e, bind), "cadence"@) && text::shows(
            error_text(e, bind),
            "entre 1 et 240"@,
        ),
        e is PairingWindow ==> text::shows(error_text(e, bind), "moins de 10 secondes"@),
        e is PlainHttp ==> text::shows(error_text(e, bind), bind),
{
    match e {
        ConfigError::ZeroPort => {
            reveal_strlit("port");
            reveal_strlit("le port d'écoute ne peut être nul");
            assert(error_text(e, bind).subrange(3, 3int + "port"@.len()) =~= "port"@);
        },
        ConfigError::Framerate => {
            reveal_strlit("cadence");
            reveal_strlit("entre 1 et 240");
            reveal_strlit("la cadence doit être comprise entre 1 et 240 images par seconde");
            assert(error_text(e, bind).subrange(3, 3int + "cadence"@.len()) =~= "cadence"@);
            assert(error_text(e, bind).subrange(30, 30int + "entre 1 et 240"@.len())
                =~= "entre 1 et 240"@);
        },
        ConfigError::PairingWindow => {
            reveal_strlit("moins de 10 secondes");
            reveal_strlit("une fenêtre d'appairage de moins de 10 secondes est inutilisable");
            assert(error_text(e, bind).subrange(27, 27int + "moins de 10 secondes"@.len())
                =~= "moins de 10 secondes"@);
        },
        ConfigError::PlainHttp => text::lemma_shows(
            "servir en clair n'est autorisé que sur la boucle locale ; sur "@,
            bind,
            " un              navigateur refuserait WebRTC faute de contexte sécurisé"@,
        ),
    }
}

} // verus!
