//! Host profiles, settings and the configuration that holds them.
use std::time::{Duration, SystemTime, SystemTimeError};
use vstd::prelude::*;
use vstd::string::StringExecFns;

use crate::text;
use crate::text::blank;

verus! {

// ----- errors -----

/// What is wrong with a profile, the settings, or a change of the configuration.
#[derive(Debug, Clone, Copy, PartialEq, Eq, Structural)]
pub enum ConfigError {
    /// The profile names no host.
    MissingHost,
    /// The profile names no user.
    MissingUser,
    /// The SSH port is zero.
    BadSshPort,
    /// The password is empty.
    MissingPassword,
    /// The profile names no key file.
    MissingKeyFile,
    /// The key file does not exist.
    KeyFileNotFound,
    /// A local port is zero.
    BadLocalPort,
    /// Both local ports are the same.
    SamePorts,
    /// The last profile cannot be removed.
    LastProfile,
}

impl ConfigError {
    /// The text for the error.
    pub open spec fn text(self) -> Seq<char> {
        match self {
            ConfigError::MissingHost => "请填写 SSH 主机地址"@,
            ConfigError::MissingUser => "请填写用户名"@,
            ConfigError::BadSshPort => "SSH 端口无效"@,
            ConfigError::MissingPassword => "请填写密码（密码仅保存在内存，切换后需重填）"@,
            ConfigError::MissingKeyFile => "请选择私钥文件"@,
            ConfigError::KeyFileNotFound => "私钥文件不存在"@,
            ConfigError::BadLocalPort => "本地代理端口无效"@,
            ConfigError::SamePorts => "SOCKS 与 HTTP 端口不能相同"@,
            ConfigError::LastProfile => "至少保留一个主机"@,
        }
    }

    /// The text for the error.
    pub fn message(&self) -> (r: String)
        ensures
            r@ == self.text(),
    {
        match self {
            ConfigError::MissingHost => "请填写 SSH 主机地址".to_owned(),
            ConfigError::MissingUser => "请填写用户名".to_owned(),
            ConfigError::BadSshPort => "SSH 端口无效".to_owned(),
            ConfigError::MissingPassword =>
                "请填写密码（密码仅保存在内存，切换后需重填）".to_owned(),
            ConfigError::MissingKeyFile => "请选择私钥文件".to_owned(),
            ConfigError::KeyFileNotFound => "私钥文件不存在".to_owned(),
            ConfigError::BadLocalPort => "本地代理端口无效".to_owned(),
            ConfigError::SamePorts => "SOCKS 与 HTTP 端口不能相同".to_owned(),
            ConfigError::LastProfile => "至少保留一个主机".to_owned(),
        }
    }
}

// ----- identifiers -----

/// A point in time of the system clock.
#[verifier::external_type_specification]
#[verifier::external_body]
pub struct ExSystemTime(SystemTime);

/// The error for a point in time before another.
#[verifier::external_type_specification]
#[verifier::external_body]
pub struct ExSystemTimeError(SystemTimeError);

/// `SystemTime::now` of the standard library: the time of the system clock, of which nothing
/// is known.
pub assume_specification[ SystemTime::now ]() -> SystemTime
;

/// `SystemTime::duration_since` of the standard library, for the Unix epoch: how long ago the
/// epoch was, or an error for a time before it. Nothing is known of the length.
#[verifier::external_body]
fn since_epoch(time: SystemTime) -> Result<Duration, SystemTimeError> {
    time.duration_since(SystemTime::UNIX_EPOCH)
}

/// `Duration::as_nanos` of the standard library: the whole length in nanoseconds, of which
/// nothing is known here.
pub assume_specification[ Duration::as_nanos ](d: &Duration) -> u128
;

/// The identifier made of a number of nanoseconds.
pub open spec fn host_id(nanos: u128) -> Seq<char> {
    "host-"@ + text::decimal(nanos as nat)
}

/// The identifier made of a number of nanoseconds.
pub fn id_of(nanos: u128) -> (r: String)
    ensures
        r@ == host_id(nanos),
{
    text::join("host-", text::decimal_string(nanos).as_str())
}

/// Whether the text is an identifier made of some number of nanoseconds.
pub open spec fn is_host_id(s: Seq<char>) -> bool {
    exists|nanos: u128| s == host_id(nanos)
}

/// An identifier made of the nanoseconds since the Unix epoch; of zero, if the clock stands
/// before it.
pub fn new_id() -> (r: String)
    ensures
        is_host_id(r@),
{
    let nanos: u128 = match since_epoch(SystemTime::now()) {
        Ok(d) => d.as_nanos(),
        Err(_) => 0,
    };
    id_of(nanos)
}

/// Identifiers made of different numbers differ.
pub proof fn law_ids_differ(a: u128, b: u128)
    ensures
        host_id(a) == host_id(b) ==> a == b,
{
    if host_id(a) == host_id(b) {
        reveal_strlit("host-");
        assert(host_id(a).skip(5) =~= text::decimal(a as nat));
        assert(host_id(b).skip(5) =~= text::decimal(b as nat));
        text::law_decimal_reads_back(a as nat);
        text::law_decimal_reads_back(b as nat);
    }
}

/// An identifier is not blank.
pub proof fn law_id_is_not_blank(nanos: u128)
    ensures
        !blank(host_id(nanos)),
{
    reveal_strlit("host-");
    text::lemma_not_blank(host_id(nanos), 0);
}

// ----- profiles -----

/// How a user proves who they are.
#[derive(Debug, Clone, Copy, PartialEq, Eq, Structural)]
pub enum AuthMethod {
    /// With a password.
    Password,
    /// With a private key.
    PrivateKey,
}

impl Default for AuthMethod {
    fn default() -> (r: Self)
        ensures
            r == AuthMethod::Password,
    {
        AuthMethod::Password
    }
}

/// One SSH host.
#[derive(Debug)]
pub struct HostProfile {
    pub id: String,
    pub name: String,
    pub host: String,
    pub port: u16,
    pub username: String,
    pub auth_method: AuthMethod,
    /// Kept in memory only.
    pub password: String,
    pub private_key_path: String,
}

/// One SSH host, as plain text.
#[verifier::ext_equal]
pub struct ProfileModel {
    pub id: Seq<char>,
    pub name: Seq<char>,
    pub host: Seq<char>,
    pub port: u16,
    pub username: Seq<char>,
    pub auth_method: AuthMethod,
    pub password: Seq<char>,
    pub private_key_path: Seq<char>,
}

impl View for HostProfile {
    type V = ProfileModel;

    open spec fn view(&self) -> ProfileModel {
        ProfileModel {
            id: self.id@,
            name: self.name@,
            host: self.host@,
            port: self.port,
            username: self.username@,
            auth_method: self.auth_method,
            password: self.password@,
            private_key_path: self.private_key_path@,
        }
    }
}

impl Clone for HostProfile {
    fn clone(&self) -> (r: Self)
        ensures
            r@ == self@,
    {
        HostProfile {
            id: self.id.clone(),
            name: self.name.clone(),
            host: self.host.clone(),
            port: self.port,
            username: self.username.clone(),
            auth_method: self.auth_method,
            password: self.password.clone(),
            private_key_path: self.private_key_path.clone(),
        }
    }
}

/// A new profile with the given identifier.
pub open spec fn fresh_profile(id: Seq<char>) -> ProfileModel {
    ProfileModel {
        id,
        name: "新主机"@,
        host: Seq::empty(),
        port: 22,
        username: Seq::empty(),
        auth_method: AuthMethod::Password,
        password: Seq::empty(),
        private_key_path: Seq::empty(),
    }
}

impl Default for HostProfile {
    fn default() -> (r: Self)
        ensures
            is_host_id(r@.id),
            r@ == fresh_profile(r@.id),
    {
        HostProfile::with_id(new_id())
    }
}

/// The name of a host that has none.
pub open spec fn unnamed() -> Seq<char> {
    "未命名主机"@
}

impl ProfileModel {
    /// How the profile is called in the list of hosts.
    pub open spec fn title(self) -> Seq<char> {
        if blank(self.name) {
            unnamed()
        } else {
            text::trimmed(self.name)
        }
    }

    /// How the profile is called elsewhere: by its name and host, or by its user and host
    /// where it has no name of its own.
    pub open spec fn label(self) -> Seq<char> {
        let name = text::trimmed(self.name);
        let host = text::trimmed(self.host);
        let user = text::trimmed(self.username);
        if name.len() > 0 && name != "新主机"@ {
            if host.len() == 0 {
                name
            } else {
                name + " ("@ + host + ")"@
            }
        } else if host.len() > 0 {
            if user.len() == 0 {
                host
            } else {
                user + "@"@ + host
            }
        } else {
            unnamed()
        }
    }

    /// The first thing that stands in the way of a connection, if any.
    pub open spec fn ssh_problem(self, key_file_exists: bool) -> Option<ConfigError> {
        if blank(self.host) {
            Some(ConfigError::MissingHost)
        } else if blank(self.username) {
            Some(ConfigError::MissingUser)
        } else if self.port == 0 {
            Some(ConfigError::BadSshPort)
        } else {
            match self.auth_method {
                AuthMethod::Password => if self.password.len() == 0 {
                    Some(ConfigError::MissingPassword)
                } else {
                    None
                },
                AuthMethod::PrivateKey => if blank(self.private_key_path) {
                    Some(ConfigError::MissingKeyFile)
                } else if !key_file_exists {
                    Some(ConfigError::KeyFileNotFound)
                } else {
                    None
                },
            }
        }
    }
}

impl HostProfile {
    /// A new profile with the given identifier.
    pub fn with_id(id: String) -> (r: Self)
        ensures
            r@ == fresh_profile(id@),
    {
        HostProfile {
            id,
            name: "新主机".to_owned(),
            host: String::new(),
            port: 22,
            username: String::new(),
            auth_method: AuthMethod::Password,
            password: String::new(),
            private_key_path: String::new(),
        }
    }

    /// How the profile is called in the list of hosts.
    pub fn list_title(&self) -> (r: String)
        ensures
            r@ == self@.title(),
    {
        let name = text::trim(self.name.as_str());
        if !name.is_empty() {
            name.to_owned()
        } else {
            "未命名主机".to_owned()
        }
    }

    /// How the profile is called elsewhere.
    pub fn display_label(&self) -> (r: String)
        ensures
            r@ == self@.label(),
    {
        let name = text::trim(self.name.as_str());
        let host = text::trim(self.host.as_str());
        if !name.is_empty() && !text::same_text(name, "新主机") {
            if host.is_empty() {
                name.to_owned()
            } else {
                let mut out = name.to_owned();
                out.append(" (");
                out.append(host);
                out.append(")");
                out
            }
        } else if !host.is_empty() {
            let user = text::trim(self.username.as_str());
            if user.is_empty() {
                host.to_owned()
            } else {
                let mut out = user.to_owned();
                out.append("@");
                out.append(host);
                out
            }
        } else {
            "未命名主机".to_owned()
        }
    }

    /// Whether the profile is enough for a connection; `key_file_exists` says whether the file
    /// at `private_key_path` exists.
    pub fn validate_ssh(&self, key_file_exists: bool) -> (r: Result<(), ConfigError>)
        ensures
            match r {
                Ok(_) => self@.ssh_problem(key_file_exists) is None,
                Err(e) => self@.ssh_problem(key_file_exists) == Some(e),
            },
    {
        if text::trim(self.host.as_str()).is_empty() {
            return Err(ConfigError::MissingHost);
        }
        if text::trim(self.username.as_str()).is_empty() {
            return Err(ConfigError::MissingUser);
        }
        if self.port == 0 {
            return Err(ConfigError::BadSshPort);
        }
        match self.auth_method {
            AuthMethod::Password => {
                if self.password.as_str().is_empty() {
                    return Err(ConfigError::MissingPassword);
                }
            },
            AuthMethod::PrivateKey => {
                if text::trim(self.private_key_path.as_str()).is_empty() {
                    return Err(ConfigError::MissingKeyFile);
                }
                if !key_file_exists {
                    return Err(ConfigError::KeyFileNotFound);
                }
            },
        }
        Ok(())
    }
}

// ----- settings -----

/// The settings that all hosts share.
#[derive(Debug, Clone, Copy, PartialEq, Eq, Structural)]
pub struct AppSettings {
    pub socks_port: u16,
    pub http_port: u16,
    pub auto_set_system_proxy: bool,
}

impl Default for AppSettings {
    fn default() -> (r: Self)
        ensures
            r == (AppSettings { socks_port: 1080, http_port: 7890, auto_set_system_proxy: true }),
    {
        AppSettings { socks_port: 1080, http_port: 7890, auto_set_system_proxy: true }
    }
}

impl AppSettings {
    /// What is wrong with the settings, if anything.
    pub open spec fn problem(self) -> Option<ConfigError> {
        if self.socks_port == 0 || self.http_port == 0 {
            Some(ConfigError::BadLocalPort)
        } else if self.socks_port == self.http_port {
            Some(ConfigError::SamePorts)
        } else {
            None
        }
    }

    /// Whether the local ports can be used.
    pub fn validate(&self) -> (r: Result<(), ConfigError>)
        ensures
            match r {
                Ok(_) => self.problem() is None,
                Err(e) => self.problem() == Some(e),
            },
    {
        if self.socks_port == 0 || self.http_port == 0 {
            return Err(ConfigError::BadLocalPort);
        }
        if self.socks_port == self.http_port {
            return Err(ConfigError::SamePorts);
        }
        Ok(())
    }
}

// ----- what a tunnel is started with -----

/// Everything that a tunnel needs to know.
#[derive(Debug)]
pub struct TunnelRequest {
    pub host: String,
    pub port: u16,
    pub username: String,
    pub auth_method: AuthMethod,
    pub password: String,
    pub private_key_path: String,
    pub socks_port: u16,
    pub http_port: u16,
}

/// Everything that a tunnel needs to know, as plain text.
#[verifier::ext_equal]
pub struct TunnelModel {
    pub host: Seq<char>,
    pub port: u16,
    pub username: Seq<char>,
    pub auth_method: AuthMethod,
    pub password: Seq<char>,
    pub private_key_path: Seq<char>,
    pub socks_port: u16,
    pub http_port: u16,
}

impl View for TunnelRequest {
    type V = TunnelModel;

    open spec fn view(&self) -> TunnelModel {
        TunnelModel {
            host: self.host@,
            port: self.port,
            username: self.username@,
            auth_method: self.auth_method,
            password: self.password@,
            private_key_path: self.private_key_path@,
            socks_port: self.socks_port,
            http_port: self.http_port,
        }
    }
}

impl Clone for TunnelRequest {
    fn clone(&self) -> (r: Self)
        ensures
            r@ == self@,
    {
        TunnelRequest {
            host: self.host.clone(),
            port: self.port,
            username: self.username.clone(),
            auth_method: self.auth_method,
            password: self.password.clone(),
            private_key_path: self.private_key_path.clone(),
            socks_port: self.socks_port,
            http_port: self.http_port,
        }
    }
}

/// The request for a profile and the settings, or the first thing that stands in its way: the
/// profile is looked at before the settings.
pub open spec fn tunnel_request(
    profile: ProfileModel,
    settings: AppSettings,
    key_file_exists: bool,
) -> Result<TunnelModel, ConfigError> {
    match profile.ssh_problem(key_file_exists) {
        Some(e) => Err(e),
        None => match settings.problem() {
            Some(e) => Err(e),
            None => Ok(
                TunnelModel {
                    host: profile.host,
                    port: profile.port,
                    username: profile.username,
                    auth_method: profile.auth_method,
                    password: profile.password,
                    private_key_path: profile.private_key_path,
                    socks_port: settings.socks_port,
                    http_port: settings.http_port,
                },
            ),
        },
    }
}

/// The view of a request, or the error.
pub open spec fn view_tunnel_request(r: Result<TunnelRequest, ConfigError>) -> Result<
    TunnelModel,
    ConfigError,
> {
    match r {
        Ok(q) => Ok(q@),
        Err(e) => Err(e),
    }
}

impl TunnelRequest {
    /// The request for a profile and the settings; `key_file_exists` says whether the key file
    /// of the profile exists.
    pub fn from_profile(
        profile: &HostProfile,
        settings: &AppSettings,
        key_file_exists: bool,
    ) -> (r: Result<Self, ConfigError>)
        ensures
            view_tunnel_request(r) == tunnel_request(profile@, *settings, key_file_exists),
            r matches Ok(q) ==> {
                &&& q.host@ == profile.host@
                &&& q.port == profile.port
                &&& q.username@ == profile.username@
                &&& q.auth_method == profile.auth_method
                &&& q.password@ == profile.password@
                &&& q.private_key_path@ == profile.private_key_path@
                &&& q.socks_port == settings.socks_port
                &&& q.http_port == settings.http_port
            },
    {
        match profile.validate_ssh(key_file_exists) {
            Ok(_) => {},
            Err(e) => {
                return Err(e);
            },
        }
        match settings.validate() {
            Ok(_) => {},
            Err(e) => {
                return Err(e);
            },
        }
        Ok(
            TunnelRequest {
                host: profile.host.clone(),
                port: profile.port,
                username: profile.username.clone(),
                auth_method: profile.auth_method,
                password: profile.password.clone(),
                private_key_path: profile.private_key_path.clone(),
                socks_port: settings.socks_port,
                http_port: settings.http_port,
            },
        )
    }
}

/// A request that is made names a host, a user and ports that can be used, and something to
/// prove who the user is.
pub proof fn law_request_is_usable(
    profile: ProfileModel,
    settings: AppSettings,
    key_file_exists: bool,
)
    ensures
        tunnel_request(profile, settings, key_file_exists) matches Ok(q) ==> {
            &&& !blank(q.host)
            &&& !blank(q.username)
            &&& q.port != 0
            &&& q.socks_port != 0
            &&& q.http_port != 0
            &&& q.socks_port != q.http_port
            &&& q.auth_method == AuthMethod::Password ==> q.password.len() > 0
            &&& q.auth_method == AuthMethod::PrivateKey ==> !blank(q.private_key_path)
                && key_file_exists
        },
{
}

// ----- the configuration -----

/// All profiles, the one in use, and the settings.
#[derive(Debug)]
pub struct AppConfig {
    pub profiles: Vec<HostProfile>,
    pub active_profile_id: String,
    pub settings: AppSettings,
}

/// All profiles, the one in use, and the settings, as plain text.
#[verifier::ext_equal]
pub struct ConfigModel {
    pub profiles: Seq<ProfileModel>,
    pub active_profile_id: Seq<char>,
    pub settings: AppSettings,
}

/// The views of a list of profiles.
pub open spec fn profile_views(v: Seq<HostProfile>) -> Seq<ProfileModel> {
    v.map_values(|p: HostProfile| p@)
}

impl View for AppConfig {
    type V = ConfigModel;

    open spec fn view(&self) -> ConfigModel {
        ConfigModel {
            profiles: profile_views(self.profiles@),
            active_profile_id: self.active_profile_id@,
            settings: self.settings,
        }
    }
}

/// The first position of a profile with the identifier.
pub open spec fn position_of_id(profiles: Seq<ProfileModel>, id: Seq<char>) -> Option<int>
    decreases profiles.len(),
{
    if profiles.len() == 0 {
        None
    } else if profiles[0].id == id {
        Some(0)
    } else {
        match position_of_id(profiles.drop_first(), id) {
            Some(i) => Some(i + 1),
            None => None,
        }
    }
}

/// Whether some profile has the identifier.
pub open spec fn has_id(profiles: Seq<ProfileModel>, id: Seq<char>) -> bool {
    exists|i: int| 0 <= i < profiles.len() && (#[trigger] profiles[i]).id == id
}

/// A position whose profile has the identifier, with none before it, is the first.
pub proof fn lemma_position_of_id(profiles: Seq<ProfileModel>, id: Seq<char>, i: int)
    requires
        0 <= i <= profiles.len(),
        forall|k: int| 0 <= k < i ==> (#[trigger] profiles[k]).id != id,
    ensures
        i < profiles.len() && profiles[i].id == id ==> position_of_id(profiles, id) == Some(i),
        i == profiles.len() ==> position_of_id(profiles, id) is None,
    decreases profiles.len(),
{
    if profiles.len() > 0 && i > 0 {
        assert(profiles[0].id != id);
        lemma_position_of_id(profiles.drop_first(), id, i - 1);
    }
}

/// The first position is a position of the identifier, and there is one exactly where some
/// profile has the identifier.
pub proof fn law_position_of_id(profiles: Seq<ProfileModel>, id: Seq<char>)
    ensures
        position_of_id(profiles, id) is Some <==> has_id(profiles, id),
        position_of_id(profiles, id) matches Some(i) ==> 0 <= i < profiles.len() && profiles[i].id
            == id,
    decreases profiles.len(),
{
    if profiles.len() > 0 {
        law_position_of_id(profiles.drop_first(), id);
        if profiles[0].id != id {
            let rest = profiles.drop_first();
            assert forall|i: int|
                0 <= i < profiles.len() && (#[trigger] profiles[i]).id == id implies has_id(
                rest,
                id,
            ) by {
                assert(rest[i - 1] == profiles[i]);
            }
            assert forall|i: int|
                0 <= i < rest.len() && (#[trigger] rest[i]).id == id implies has_id(
                profiles,
                id,
            ) by {
                assert(profiles[i + 1] == rest[i]);
            }
        }
    }
}

/// Lists of profiles with the same identifiers have them at the same positions.
pub proof fn lemma_same_ids(a: Seq<ProfileModel>, b: Seq<ProfileModel>, id: Seq<char>)
    requires
        a.len() == b.len(),
        forall|i: int| 0 <= i < a.len() ==> (#[trigger] a[i]).id == b[i].id,
    ensures
        position_of_id(a, id) == position_of_id(b, id),
    decreases a.len(),
{
    if a.len() > 0 {
        assert(a[0].id == b[0].id);
        assert forall|i: int| 0 <= i < a.drop_first().len() implies (#[trigger] a.drop_first()[i]).id
            == b.drop_first()[i].id by {
            assert(a[i + 1].id == b[i + 1].id);
        }
        lemma_same_ids(a.drop_first(), b.drop_first(), id);
    }
}

impl ConfigModel {
    /// The position of the profile in use: the first with the active identifier, or the first
    /// of all where there is none.
    pub open spec fn active_index(self) -> int {
        match position_of_id(self.profiles, self.active_profile_id) {
            Some(i) => i,
            None => 0,
        }
    }

    /// The profile in use.
    pub open spec fn active_profile(self) -> ProfileModel {
        self.profiles[self.active_index()]
    }

    /// With the profile of the given identifier in use, if there is one.
    pub open spec fn with_active(self, id: Seq<char>) -> ConfigModel {
        if has_id(self.profiles, id) {
            ConfigModel { active_profile_id: id, ..self }
        } else {
            self
        }
    }

    /// With the profile behind all others, and in use.
    pub open spec fn with_profile(self, profile: ProfileModel) -> ConfigModel {
        ConfigModel {
            profiles: self.profiles.push(profile),
            active_profile_id: profile.id,
            ..self
        }
    }

    /// With a new profile of the given identifier, named by its number.
    pub open spec fn with_new_profile(self, id: Seq<char>) -> ConfigModel {
        self.with_profile(
            ProfileModel {
                name: "主机 "@ + text::decimal((self.profiles.len() + 1) as nat),
                ..fresh_profile(id)
            },
        )
    }

    /// With a copy of the profile in use, under the given identifier and without its password.
    pub open spec fn with_duplicate(self, id: Seq<char>) -> ConfigModel {
        let source = self.active_profile();
        self.with_profile(
            ProfileModel {
                id,
                name: source.name + " (副本)"@,
                password: Seq::empty(),
                ..source
            },
        )
    }

    /// Without the profile in use; the one that takes its place is used next, or the last one.
    pub open spec fn without_active(self) -> ConfigModel {
        let i = self.active_index();
        let rest = self.profiles.remove(i);
        ConfigModel {
            profiles: rest,
            active_profile_id: rest[if i < rest.len() {
                i
            } else {
                rest.len() - 1
            }].id,
            ..self
        }
    }

    /// What is written to disk: everything but the passwords.
    pub open spec fn for_disk(self) -> ConfigModel {
        ConfigModel {
            profiles: self.profiles.map_values(
                |p: ProfileModel| ProfileModel { password: Seq::empty(), ..p },
            ),
            ..self
        }
    }
}

/// A configuration with the one given profile, and the settings it starts with.
pub open spec fn fresh_config(profile: ProfileModel) -> ConfigModel {
    ConfigModel {
        profiles: seq![profile],
        active_profile_id: profile.id,
        settings: AppSettings { socks_port: 1080, http_port: 7890, auto_set_system_proxy: true },
    }
}

impl Default for AppConfig {
    fn default() -> (r: Self)
        ensures
            is_host_id(r@.active_profile_id),
            r@ == fresh_config(fresh_profile(r@.active_profile_id)),
    {
        AppConfig::with_profile(HostProfile::default())
    }
}

/// A profile with what it lacks filled in: an identifier, a port and a name.
pub open spec fn completed(p: ProfileModel, id: Seq<char>) -> ProfileModel {
    ProfileModel {
        id: if blank(p.id) {
            id
        } else {
            p.id
        },
        port: if p.port == 0 {
            22
        } else {
            p.port
        },
        name: if blank(p.name) {
            p.label()
        } else {
            p.name
        },
        ..p
    }
}

/// The profiles of a configuration, or the one given profile where there are none.
pub open spec fn profiles_or(c: ConfigModel, fallback: ProfileModel) -> Seq<ProfileModel> {
    if c.profiles.len() == 0 {
        seq![fallback]
    } else {
        c.profiles
    }
}

/// The active identifier, or that of the first profile where no profile has it.
pub open spec fn active_id_or_first(profiles: Seq<ProfileModel>, id: Seq<char>) -> Seq<char> {
    if has_id(profiles, id) {
        id
    } else {
        profiles[0].id
    }
}

/// A configuration with at least one profile, one of them in use, and what the profiles lack
/// filled in; the profile in use is found before blank identifiers are replaced.
pub open spec fn normalized_config(
    c: ConfigModel,
    fallback: ProfileModel,
    ids: Seq<Seq<char>>,
) -> ConfigModel {
    let profiles = profiles_or(c, fallback);
    ConfigModel {
        profiles: Seq::new(profiles.len(), |i: int| completed(profiles[i], ids[i])),
        active_profile_id: active_id_or_first(profiles, c.active_profile_id),
        settings: c.settings,
    }
}

/// Whether the second configuration is the first one, normalised with new identifiers.
pub open spec fn is_normalized(c: ConfigModel, r: ConfigModel) -> bool {
    exists|fallback: Seq<char>, ids: Seq<Seq<char>>|
        {
            &&& is_host_id(fallback)
            &&& ids.len() >= profiles_or(c, fresh_profile(fallback)).len()
            &&& forall|i: int| 0 <= i < ids.len() ==> is_host_id(#[trigger] ids[i])
            &&& r == #[trigger] normalized_config(c, fresh_profile(fallback), ids)
        }
}

impl AppConfig {
    /// A configuration with the one given profile.
    pub fn with_profile(profile: HostProfile) -> (r: Self)
        ensures
            r@ == fresh_config(profile@),
    {
        let id = profile.id.clone();
        let mut profiles: Vec<HostProfile> = Vec::new();
        profiles.push(profile);
        assert(profile_views(profiles@) =~= seq![profile@]);
        AppConfig { profiles, active_profile_id: id, settings: AppSettings::default() }
    }

    fn find_id(&self, id: &str) -> (r: Option<usize>)
        ensures
            match r {
                Some(i) => i < self.profiles@.len() && position_of_id(self@.profiles, id@) == Some(
                    i as int,
                ),
                None => position_of_id(self@.profiles, id@) is None,
            },
    {
        let mut i: usize = 0;
        while i < self.profiles.len()
            invariant
                i <= self.profiles@.len(),
                forall|k: int| 0 <= k < i ==> (#[trigger] self@.profiles[k]).id != id@,
            decreases self.profiles@.len() - i,
        {
            assert(self@.profiles[i as int] == self.profiles@[i as int]@);
            if text::same_text(self.profiles[i].id.as_str(), id) {
                proof {
                    lemma_position_of_id(self@.profiles, id@, i as int);
                }
                return Some(i);
            }
            i = i + 1;
        }
        proof {
            lemma_position_of_id(self@.profiles, id@, i as int);
        }
        None
    }

    /// The position of the profile in use.
    pub fn active_index(&self) -> (r: usize)
        ensures
            r == self@.active_index(),
            self.profiles@.len() > 0 ==> r < self.profiles@.len(),
    {
        match self.find_id(self.active_profile_id.as_str()) {
            Some(i) => i,
            None => 0,
        }
    }

    /// The profile in use.
    pub fn active_profile(&self) -> (r: &HostProfile)
        requires
            self@.profiles.len() > 0,
        ensures
            r@ == self@.active_profile(),
            *r == self.profiles@[self@.active_index()],
    {
        let i = self.active_index();
        &self.profiles[i]
    }

    /// The profile in use, to be changed.
    pub fn active_profile_mut(&mut self) -> (r: &mut HostProfile)
        requires
            old(self)@.profiles.len() > 0,
        ensures
            *r == old(self).profiles@[old(self)@.active_index()],
            r@ == old(self)@.active_profile(),
            final(self).profiles@ == old(self).profiles@.update(
                old(self)@.active_index(),
                *final(r),
            ),
            final(self).active_profile_id == old(self).active_profile_id,
            final(self).settings == old(self).settings,
    {
        let i = self.active_index();
        &mut self.profiles[i]
    }

    /// Puts the profile with the identifier to use; says whether there is one.
    pub fn set_active(&mut self, id: &str) -> (r: bool)
        ensures
            r == has_id(old(self)@.profiles, id@),
            final(self)@ == old(self)@.with_active(id@),
    {
        proof {
            law_position_of_id(self@.profiles, id@);
        }
        if self.find_id(id).is_some() {
            self.active_profile_id = id.to_owned();
            true
        } else {
            false
        }
    }

    fn push_profile(&mut self, profile: HostProfile)
        ensures
            final(self)@ == old(self)@.with_profile(profile@),
    {
        self.active_profile_id = profile.id.clone();
        self.profiles.push(profile);
        assert(self@.profiles =~= old(self)@.profiles.push(profile@));
    }

    /// Adds a new profile with the given identifier, and puts it to use.
    pub fn add_profile_as(&mut self, id: String) -> (r: String)
        ensures
            final(self)@ == old(self)@.with_new_profile(id@),
            r@ == id@,
    {
        let number: u128 = self.profiles.len() as u128 + 1;
        let result = id.clone();
        let mut profile = HostProfile::with_id(id);
        profile.name = text::join("主机 ", text::decimal_string(number).as_str());
        self.push_profile(profile);
        result
    }

    /// Adds a new profile, and puts it to use; gives its identifier.
    pub fn add_profile(&mut self) -> (r: String)
        ensures
            is_host_id(r@),
            final(self)@ == old(self)@.with_new_profile(r@),
    {
        self.add_profile_as(new_id())
    }

    /// Adds a copy of the profile in use with the given identifier, and puts it to use.
    pub fn duplicate_active_as(&mut self, id: String) -> (r: Option<String>)
        requires
            old(self)@.profiles.len() > 0,
        ensures
            final(self)@ == old(self)@.with_duplicate(id@),
            r matches Some(t) && t@ == id@,
    {
        let result = id.clone();
        let mut profile = self.active_profile().clone();
        profile.id = id;
        profile.name = text::join(profile.name.as_str(), " (副本)");
        profile.password = String::new();
        self.push_profile(profile);
        Some(result)
    }

    /// Adds a copy of the profile in use, without its password, and puts it to use; gives its
    /// identifier.
    pub fn duplicate_active(&mut self) -> (r: Option<String>)
        requires
            old(self)@.profiles.len() > 0,
        ensures
            r matches Some(id) && is_host_id(id@) && final(self)@ == old(self)@.with_duplicate(id@),
    {
        self.duplicate_active_as(new_id())
    }

    /// Removes the profile in use, unless it is the last one.
    pub fn remove_active(&mut self) -> (r: Result<(), ConfigError>)
        ensures
            old(self)@.profiles.len() <= 1 ==> r == Err::<(), ConfigError>(
                ConfigError::LastProfile,
            ) && final(self)@ == old(self)@,
            old(self)@.profiles.len() > 1 ==> r is Ok && final(self)@
                == old(self)@.without_active(),
    {
        if self.profiles.len() <= 1 {
            return Err(ConfigError::LastProfile);
        }
        let i = self.active_index();
        let _removed = self.profiles.remove(i);
        assert(self@.profiles =~= old(self)@.profiles.remove(i as int));
        let last: usize = self.profiles.len() - 1;
        let next: usize = if i < last {
            i
        } else {
            last
        };
        self.active_profile_id = self.profiles[next].id.clone();
        Ok(())
    }
}

// ----- reading and writing -----

fn complete_profile(profile: &mut HostProfile, id: &String)
    ensures
        final(profile)@ == completed(old(profile)@, id@),
{
    let label = profile.display_label();
    if text::trim(profile.id.as_str()).is_empty() {
        profile.id = id.clone();
    }
    if profile.port == 0 {
        profile.port = 22;
    }
    if text::trim(profile.name.as_str()).is_empty() {
        profile.name = label;
    }
}

impl AppConfig {
    /// The configuration with at least one profile and what the profiles lack filled in; the
    /// given profile and identifiers are taken where some are missing.
    pub fn normalized_with(self, fallback: HostProfile, ids: &Vec<String>) -> (r: Self)
        requires
            ids@.len() >= profiles_or(self@, fallback@).len(),
        ensures
            r@ == normalized_config(self@, fallback@, text::views(ids@)),
    {
        let ghost before = self@;
        let mut config = self;
        if config.profiles.len() == 0 {
            config.profiles.push(fallback);
        }
        assert(config@.profiles =~= profiles_or(before, fallback@));
        let ghost start = config@;
        proof {
            law_position_of_id(config@.profiles, config@.active_profile_id);
        }
        if config.find_id(config.active_profile_id.as_str()).is_none() {
            config.active_profile_id = config.profiles[0].id.clone();
        }
        let mut i: usize = 0;
        while i < config.profiles.len()
            invariant
                i <= config.profiles@.len(),
                config.profiles@.len() == start.profiles.len(),
                start.profiles.len() <= ids@.len(),
                config.settings == before.settings,
                config.active_profile_id@ == active_id_or_first(
                    start.profiles,
                    before.active_profile_id,
                ),
                forall|k: int|
                    0 <= k < i ==> (#[trigger] config.profiles@[k])@ == completed(
                        start.profiles[k],
                        ids@[k]@,
                    ),
                forall|k: int|
                    i <= k < start.profiles.len() ==> (#[trigger] config.profiles@[k])@
                        == start.profiles[k],
            decreases start.profiles.len() - i,
        {
            complete_profile(&mut config.profiles[i], &ids[i]);
            i = i + 1;
        }
        assert(config@.profiles =~= normalized_config(
            before,
            fallback@,
            text::views(ids@),
        ).profiles);
        config
    }

    /// The configuration with at least one profile and what the profiles lack filled in, with
    /// new identifiers where some are missing.
    pub fn normalized(self) -> (r: Self)
        ensures
            is_normalized(self@, r@),
    {
        let fallback = HostProfile::default();
        let mut ids: Vec<String> = Vec::new();
        ids.push(new_id());
        while ids.len() < self.profiles.len()
            invariant
                ids@.len() >= 1,
                forall|i: int| 0 <= i < ids@.len() ==> is_host_id(#[trigger] ids@[i]@),
            decreases self.profiles@.len() - ids@.len(),
        {
            ids.push(new_id());
        }
        let ghost shown = text::views(ids@);
        assert forall|i: int| 0 <= i < shown.len() implies is_host_id(#[trigger] shown[i]) by {
            assert(shown[i] == ids@[i]@);
        }
        self.normalized_with(fallback, &ids)
    }

    /// What is written to disk: everything but the passwords.
    pub fn to_save(&self) -> (r: Self)
        ensures
            r@ == self@.for_disk(),
    {
        let mut profiles: Vec<HostProfile> = Vec::new();
        let mut i: usize = 0;
        while i < self.profiles.len()
            invariant
                i <= self.profiles@.len(),
                profiles@.len() == i,
                forall|k: int|
                    0 <= k < i ==> (#[trigger] profiles@[k])@ == (ProfileModel {
                        password: Seq::empty(),
                        ..self.profiles@[k]@
                    }),
            decreases self.profiles@.len() - i,
        {
            let mut profile = self.profiles[i].clone();
            profile.password = String::new();
            profiles.push(profile);
            i = i + 1;
        }
        let config = AppConfig {
            profiles,
            active_profile_id: self.active_profile_id.clone(),
            settings: self.settings,
        };
        assert(config@.profiles =~= self@.for_disk().profiles);
        config
    }

    /// The configuration that a file holds, by its topmost keys: `current` is what it holds in
    /// the present form and `legacy` what it holds in the form for one host, if it can be read
    /// so. A file in neither form gives a new configuration.
    pub fn load_by_keys(
        keys: &[String],
        current: Option<AppConfig>,
        legacy: Option<LegacyConfig>,
    ) -> (r: Self)
        ensures
            is_loaded(text::views(keys@), view_current(current), view_legacy(legacy), r@),
    {
        let former = is_former_form(keys);
        match (current, legacy) {
            (Some(c), None) => c.normalized(),
            (Some(c), Some(l)) => {
                if former {
                    l.into_normalized()
                } else {
                    c.normalized()
                }
            },
            (None, Some(l)) => l.into_normalized(),
            (None, None) => AppConfig::default(),
        }
    }

    /// The configuration that a file with the given content holds: `current` is what it holds
    /// in the present form and `legacy` what it holds in the form for one host, if it can be
    /// read so. Without a file there is a new configuration.
    pub fn load(
        content: Option<&str>,
        current: Option<AppConfig>,
        legacy: Option<LegacyConfig>,
    ) -> (r: Self)
        ensures
            is_loaded_from(
                match content {
                    Some(text) => Some(text@),
                    None => None,
                },
                view_current(current),
                view_legacy(legacy),
                r@,
            ),
    {
        let text = match content {
            Some(text) => text,
            None => {
                return AppConfig::default();
            },
        };
        match top_keys(text) {
            Some(keys) => AppConfig::load_by_keys(&keys, current, legacy),
            None => {
                let keys: Vec<String> = Vec::new();
                assert(text::views(keys@) =~= Seq::<Seq<char>>::empty());
                AppConfig::load_by_keys(&keys, current, legacy)
            },
        }
    }
}

impl Clone for AppConfig {
    fn clone(&self) -> (r: Self)
        ensures
            r@ == self@,
    {
        let mut profiles: Vec<HostProfile> = Vec::new();
        let mut i: usize = 0;
        while i < self.profiles.len()
            invariant
                i <= self.profiles@.len(),
                profiles@.len() == i,
                forall|k: int| 0 <= k < i ==> (#[trigger] profiles@[k])@ == self.profiles@[k]@,
            decreases self.profiles@.len() - i,
        {
            profiles.push(self.profiles[i].clone());
            i = i + 1;
        }
        assert(profile_views(profiles@) =~= profile_views(self.profiles@));
        AppConfig {
            profiles,
            active_profile_id: self.active_profile_id.clone(),
            settings: self.settings,
        }
    }
}

/// The view of a configuration that may be missing.
pub open spec fn view_current(o: Option<AppConfig>) -> Option<ConfigModel> {
    match o {
        Some(c) => Some(c@),
        None => None,
    }
}

/// The view of a former configuration that may be missing.
pub open spec fn view_legacy(o: Option<LegacyConfig>) -> Option<LegacyModel> {
    match o {
        Some(l) => Some(l@),
        None => None,
    }
}

/// Whether a configuration is what was read from a file with the topmost keys. What was read in
/// the former form counts where the file is in that form, or cannot be read in the present one;
/// identifiers that are missing are new ones.
pub open spec fn is_loaded(
    keys: Seq<Seq<char>>,
    current: Option<ConfigModel>,
    legacy: Option<LegacyModel>,
    r: ConfigModel,
) -> bool {
    if legacy is Some && (is_former(keys) || current is None) {
        is_host_id(r.active_profile_id) && r == migrated_and_normalized(
            legacy->0,
            r.active_profile_id,
        )
    } else {
        match current {
            Some(c) => is_normalized(c, r),
            None => is_host_id(r.active_profile_id) && r == fresh_config(
                fresh_profile(r.active_profile_id),
            ),
        }
    }
}

/// The topmost keys of a text; none, where it is no TOML document.
pub open spec fn keys_of(content: Seq<char>) -> Seq<Seq<char>> {
    match toml_keys(content) {
        Some(keys) => keys,
        None => Seq::empty(),
    }
}

/// Whether a configuration is what was read from a file with the content, or a new one, where
/// there is no file.
pub open spec fn is_loaded_from(
    content: Option<Seq<char>>,
    current: Option<ConfigModel>,
    legacy: Option<LegacyModel>,
    r: ConfigModel,
) -> bool {
    match content {
        Some(text) => is_loaded(keys_of(text), current, legacy, r),
        None => is_host_id(r.active_profile_id) && r == fresh_config(
            fresh_profile(r.active_profile_id),
        ),
    }
}

/// The topmost keys of a TOML document, in the order in which its table is walked; nothing,
/// where the text is no such document.
pub uninterp spec fn toml_keys(content: Seq<char>) -> Option<Seq<Seq<char>>>;

/// `toml::from_str` of `toml` for a table, of which the keys are taken.
#[verifier::external_body]
fn top_keys(content: &str) -> (r: Option<Vec<String>>)
    ensures
        toml_keys(content@) == (match r {
            Some(v) => Some(text::views(v@)),
            None => None,
        }),
{
    match toml::from_str::<toml::Table>(content) {
        Ok(table) => Some(table.keys().cloned().collect()),
        Err(_) => None,
    }
}

/// Whether a topmost key belongs to the present form of a configuration.
pub open spec fn is_present_key(key: Seq<char>) -> bool {
    key == "profiles"@ || key == "active_profile_id"@ || key == "settings"@
}

/// Whether a topmost key belongs to the former form of a configuration.
pub open spec fn is_former_key(key: Seq<char>) -> bool {
    ||| key == "host"@
    ||| key == "port"@
    ||| key == "username"@
    ||| key == "auth_method"@
    ||| key == "private_key_path"@
    ||| key == "socks_port"@
    ||| key == "http_port"@
    ||| key == "auto_set_system_proxy"@
}

/// Whether a file with the topmost keys is in the former form: it has keys of that form, and
/// none of the present one. Every key of either form may be missing.
pub open spec fn is_former(keys: Seq<Seq<char>>) -> bool {
    &&& exists|i: int| 0 <= i < keys.len() && is_former_key(#[trigger] keys[i])
    &&& forall|i: int| 0 <= i < keys.len() ==> !is_present_key(#[trigger] keys[i])
}

fn present_key(key: &str) -> (r: bool)
    ensures
        r == is_present_key(key@),
{
    text::same_text(key, "profiles") || text::same_text(key, "active_profile_id")
        || text::same_text(key, "settings")
}

fn former_key(key: &str) -> (r: bool)
    ensures
        r == is_former_key(key@),
{
    text::same_text(key, "host") || text::same_text(key, "port") || text::same_text(
        key,
        "username",
    ) || text::same_text(key, "auth_method") || text::same_text(key, "private_key_path")
        || text::same_text(key, "socks_port") || text::same_text(key, "http_port")
        || text::same_text(key, "auto_set_system_proxy")
}

/// Whether a file with the topmost keys is in the former form.
pub fn is_former_form(keys: &[String]) -> (r: bool)
    ensures
        r == is_former(text::views(keys@)),
{
    let ghost all = text::views(keys@);
    let mut found = false;
    let mut i: usize = 0;
    while i < keys.len()
        invariant
            i <= keys@.len(),
            all == text::views(keys@),
            found == exists|k: int| 0 <= k < i && is_former_key(#[trigger] all[k]),
            forall|k: int| 0 <= k < i ==> !is_present_key(#[trigger] all[k]),
        decreases keys@.len() - i,
    {
        assert(all[i as int] == keys@[i as int]@);
        if present_key(keys[i].as_str()) {
            return false;
        }
        if former_key(keys[i].as_str()) {
            found = true;
        }
        i = i + 1;
    }
    found
}

/// The directories below the place for configurations that may hold one, in the order in
/// which they are looked at: the present one, and those of former names.
pub open spec fn config_directories() -> Seq<Seq<char>> {
    seq!["sway"@, "sslink"@, "sshtools"@]
}

/// The directory that is looked at next, after as many have been looked at in vain.
pub fn config_directory(tried: usize) -> (r: Option<&'static str>)
    ensures
        match r {
            Some(d) => tried < config_directories().len() && d@ == config_directories()[
                tried as int
            ],
            None => tried >= config_directories().len(),
        },
{
    if tried == 0 {
        Some("sway")
    } else if tried == 1 {
        Some("sslink")
    } else if tried == 2 {
        Some("sshtools")
    } else {
        None
    }
}

/// Whether a configuration that was found, after as many directories had been looked at in
/// vain, is copied to the present directory.
pub fn is_migrated(tried: usize) -> (r: bool)
    ensures
        r == (tried > 0),
{
    tried > 0
}

/// How the search for a configuration goes on.
#[derive(Debug)]
pub enum Search {
    /// The directory with this number is looked at.
    Look(usize),
    /// The file was found. It is written to the present directory, if `copy` says so.
    Found { content: String, copy: bool },
    /// There is no file.
    Nothing,
}

/// How the search for a configuration goes on, as plain text.
#[verifier::ext_equal]
pub enum SearchModel {
    Look(nat),
    Found { content: Seq<char>, copy: bool },
    Nothing,
}

impl View for Search {
    type V = SearchModel;

    open spec fn view(&self) -> SearchModel {
        match self {
            Search::Look(tried) => SearchModel::Look(*tried as nat),
            Search::Found { content, copy } => SearchModel::Found {
                content: content@,
                copy: *copy,
            },
            Search::Nothing => SearchModel::Nothing,
        }
    }
}

/// How the search goes on from what the file of a directory holds, if it can be read.
pub open spec fn search_after(tried: nat, read: Option<Seq<char>>) -> SearchModel {
    match read {
        Some(content) => SearchModel::Found { content, copy: tried > 0 },
        None => if tried + 1 < config_directories().len() {
            SearchModel::Look(tried + 1)
        } else {
            SearchModel::Nothing
        },
    }
}

/// How the search goes on from what the file of a directory holds, if it can be read. It begins
/// with the directory of number 0.
pub fn search_on(tried: usize, read: Option<String>) -> (r: Search)
    ensures
        r@ == search_after(
            tried as nat,
            match read {
                Some(content) => Some(content@),
                None => None,
            },
        ),
{
    match read {
        Some(content) => Search::Found { content, copy: is_migrated(tried) },
        None => {
            if tried < usize::MAX && config_directory(tried + 1).is_some() {
                Search::Look(tried + 1)
            } else {
                Search::Nothing
            }
        },
    }
}

// ----- the former form, for one host -----

/// A configuration for one host.
#[derive(Debug)]
pub struct LegacyConfig {
    pub host: String,
    pub port: u16,
    pub username: String,
    pub auth_method: AuthMethod,
    pub private_key_path: String,
    pub socks_port: u16,
    pub http_port: u16,
    pub auto_set_system_proxy: bool,
}

/// A configuration for one host, as plain text.
#[verifier::ext_equal]
pub struct LegacyModel {
    pub host: Seq<char>,
    pub port: u16,
    pub username: Seq<char>,
    pub auth_method: AuthMethod,
    pub private_key_path: Seq<char>,
    pub socks_port: u16,
    pub http_port: u16,
    pub auto_set_system_proxy: bool,
}

impl View for LegacyConfig {
    type V = LegacyModel;

    open spec fn view(&self) -> LegacyModel {
        LegacyModel {
            host: self.host@,
            port: self.port,
            username: self.username@,
            auth_method: self.auth_method,
            private_key_path: self.private_key_path@,
            socks_port: self.socks_port,
            http_port: self.http_port,
            auto_set_system_proxy: self.auto_set_system_proxy,
        }
    }
}

/// The port where the former form names none.
pub fn default_port() -> (r: u16)
    ensures
        r == 22,
        r == fresh_profile(Seq::empty()).port,
{
    22
}

/// The SOCKS port where the former form names none.
pub fn default_socks() -> (r: u16)
    ensures
        r == 1080,
        r == fresh_config(fresh_profile(Seq::empty())).settings.socks_port,
{
    1080
}

/// The HTTP port where the former form names none.
pub fn default_http() -> (r: u16)
    ensures
        r == 7890,
        r == fresh_config(fresh_profile(Seq::empty())).settings.http_port,
{
    7890
}

/// Whether the system proxy is set where the former form does not say.
pub fn default_true() -> (r: bool)
    ensures
        r,
        r == fresh_config(fresh_profile(Seq::empty())).settings.auto_set_system_proxy,
{
    true
}

/// The one profile of a former configuration, under the given identifier.
pub open spec fn migrated_profile(l: LegacyModel, id: Seq<char>) -> ProfileModel {
    ProfileModel {
        name: if l.host.len() == 0 {
            "默认主机"@
        } else {
            l.host
        },
        host: l.host,
        port: l.port,
        username: l.username,
        auth_method: l.auth_method,
        private_key_path: l.private_key_path,
        ..fresh_profile(id)
    }
}

/// A former configuration in the present form, with the given identifier for its profile.
pub open spec fn migrated(l: LegacyModel, id: Seq<char>) -> ConfigModel {
    ConfigModel {
        profiles: seq![migrated_profile(l, id)],
        active_profile_id: id,
        settings: AppSettings {
            socks_port: l.socks_port,
            http_port: l.http_port,
            auto_set_system_proxy: l.auto_set_system_proxy,
        },
    }
}

/// A former configuration in the present form, with what its profile lacks filled in.
pub open spec fn migrated_and_normalized(l: LegacyModel, id: Seq<char>) -> ConfigModel {
    ConfigModel { profiles: seq![completed(migrated_profile(l, id), id)], ..migrated(l, id) }
}

impl LegacyConfig {
    /// The configuration in the present form, with the given identifier for its profile.
    pub fn into_app_config_as(self, id: String) -> (r: AppConfig)
        ensures
            r@ == migrated(self@, id@),
    {
        let mut profile = HostProfile::with_id(id);
        profile.name = if self.host.as_str().is_empty() {
            "默认主机".to_owned()
        } else {
            self.host.clone()
        };
        profile.host = self.host;
        profile.port = self.port;
        profile.username = self.username;
        profile.auth_method = self.auth_method;
        profile.private_key_path = self.private_key_path;
        let mut config = AppConfig::with_profile(profile);
        config.settings = AppSettings {
            socks_port: self.socks_port,
            http_port: self.http_port,
            auto_set_system_proxy: self.auto_set_system_proxy,
        };
        config
    }

    /// The configuration in the present form, with a new identifier for its profile.
    pub fn into_app_config(self) -> (r: AppConfig)
        ensures
            is_host_id(r@.active_profile_id),
            r@ == migrated(self@, r@.active_profile_id),
    {
        self.into_app_config_as(new_id())
    }

    /// The configuration in the present form, with a new identifier for its profile and what
    /// the profile lacks filled in.
    pub fn into_normalized(self) -> (r: AppConfig)
        ensures
            is_host_id(r@.active_profile_id),
            r@ == migrated_and_normalized(self@, r@.active_profile_id),
    {
        let ghost before = self@;
        let config = self.into_app_config();
        let ghost id = config@.active_profile_id;
        let ghost moved = config@;
        let done = config.normalized();
        proof {
            let (fallback, ids) = choose|fallback: Seq<char>, ids: Seq<Seq<char>>|
                {
                    &&& is_host_id(fallback)
                    &&& ids.len() >= profiles_or(moved, fresh_profile(fallback)).len()
                    &&& forall|i: int| 0 <= i < ids.len() ==> is_host_id(#[trigger] ids[i])
                    &&& done@ == #[trigger] normalized_config(moved, fresh_profile(fallback), ids)
                };
            let nanos = choose|nanos: u128| id == host_id(nanos);
            law_id_is_not_blank(nanos);
            assert(moved.profiles[0].id == id);
            assert(done@.profiles =~= migrated_and_normalized(before, id).profiles);
        }
        done
    }
}

// ----- laws -----

/// Every profile has a label that can be seen.
pub proof fn law_label_is_not_blank(p: ProfileModel)
    ensures
        !blank(p.label()),
{
    let name = text::trimmed(p.name);
    let host = text::trimmed(p.host);
    let user = text::trimmed(p.username);
    text::law_trimmed_has_no_outer_white_space(p.name);
    text::law_trimmed_has_no_outer_white_space(p.host);
    text::law_trimmed_has_no_outer_white_space(p.username);
    reveal_strlit("未命名主机");
    text::lemma_not_blank(unnamed(), 0);
    if name.len() > 0 {
        text::lemma_not_blank(name, 0);
        text::lemma_not_blank(name + " ("@ + host + ")"@, 0);
    }
    if host.len() > 0 {
        text::lemma_not_blank(host, 0);
        if user.len() > 0 {
            text::lemma_not_blank(user + "@"@ + host, 0);
        }
    }
}

/// A normalised configuration has a profile, and each of its profiles has an identifier, a
/// name and a port; its settings are those from before.
pub proof fn law_normalized_is_complete(
    c: ConfigModel,
    fallback: ProfileModel,
    ids: Seq<Seq<char>>,
)
    requires
        ids.len() >= profiles_or(c, fallback).len(),
        forall|i: int| 0 <= i < ids.len() ==> !blank(#[trigger] ids[i]),
    ensures
        ({
            let n = normalized_config(c, fallback, ids);
            &&& n.profiles.len() > 0
            &&& n.settings == c.settings
            &&& forall|i: int|
                0 <= i < n.profiles.len() ==> {
                    &&& !blank((#[trigger] n.profiles[i]).id)
                    &&& !blank(n.profiles[i].name)
                    &&& n.profiles[i].port != 0
                }
        }),
{
    let profiles = profiles_or(c, fallback);
    let n = normalized_config(c, fallback, ids);
    assert forall|i: int| 0 <= i < n.profiles.len() implies {
        &&& !blank((#[trigger] n.profiles[i]).id)
        &&& !blank(n.profiles[i].name)
        &&& n.profiles[i].port != 0
    } by {
        law_label_is_not_blank(profiles[i]);
        assert(!blank(ids[i]));
    }
}

/// Normalising changes nothing of a profile that lacks nothing.
pub proof fn law_complete_profile_is_kept(p: ProfileModel, id: Seq<char>)
    requires
        !blank(p.id),
        !blank(p.name),
        p.port != 0,
    ensures
        completed(p, id) == p,
{
}

/// A profile of a normalised configuration is in use, if the identifier in use was not blank.
pub proof fn law_normalized_has_active(
    c: ConfigModel,
    fallback: ProfileModel,
    ids: Seq<Seq<char>>,
)
    requires
        ids.len() >= profiles_or(c, fallback).len(),
        !blank(active_id_or_first(profiles_or(c, fallback), c.active_profile_id)),
    ensures
        has_id(
            normalized_config(c, fallback, ids).profiles,
            normalized_config(c, fallback, ids).active_profile_id,
        ),
{
    let profiles = profiles_or(c, fallback);
    let n = normalized_config(c, fallback, ids);
    assert(profiles[0].id == profiles[0].id);
    assert(has_id(profiles, n.active_profile_id));
    let i = choose|i: int|
        0 <= i < profiles.len() && (#[trigger] profiles[i]).id == n.active_profile_id;
    assert(n.profiles[i].id == n.active_profile_id);
}

/// Normalising a normalised configuration changes nothing, if the identifier in use was not
/// blank.
pub proof fn law_normalize_twice(
    c: ConfigModel,
    fallback: ProfileModel,
    ids: Seq<Seq<char>>,
    other_fallback: ProfileModel,
    other_ids: Seq<Seq<char>>,
)
    requires
        ids.len() >= profiles_or(c, fallback).len(),
        forall|i: int| 0 <= i < ids.len() ==> !blank(#[trigger] ids[i]),
        !blank(active_id_or_first(profiles_or(c, fallback), c.active_profile_id)),
    ensures
        normalized_config(normalized_config(c, fallback, ids), other_fallback, other_ids)
            == normalized_config(c, fallback, ids),
{
    let n = normalized_config(c, fallback, ids);
    law_normalized_is_complete(c, fallback, ids);
    law_normalized_has_active(c, fallback, ids);
    let m = normalized_config(n, other_fallback, other_ids);
    assert forall|i: int| 0 <= i < n.profiles.len() implies m.profiles[i] == n.profiles[i] by {
        law_complete_profile_is_kept(n.profiles[i], other_ids[i]);
    }
    assert(m.profiles =~= n.profiles);
}

/// A profile that is added under an identifier of its own is the one in use, and the others
/// stay as they were.
pub proof fn law_added_profile_is_active(c: ConfigModel, profile: ProfileModel)
    requires
        !has_id(c.profiles, profile.id),
    ensures
        c.with_profile(profile).active_index() == c.profiles.len(),
        c.with_profile(profile).active_profile() == profile,
        c.with_profile(profile).profiles.drop_last() == c.profiles,
{
    let after = c.with_profile(profile);
    assert forall|k: int| 0 <= k < c.profiles.len() implies (#[trigger] after.profiles[k]).id
        != profile.id by {
        assert(after.profiles[k] == c.profiles[k]);
    }
    lemma_position_of_id(after.profiles, profile.id, c.profiles.len() as int);
    assert(after.profiles.drop_last() =~= c.profiles);
}

/// Removing what was just added under an identifier of its own gives the profiles from before.
pub proof fn law_remove_undoes_add(c: ConfigModel, profile: ProfileModel)
    requires
        c.profiles.len() > 0,
        !has_id(c.profiles, profile.id),
    ensures
        c.with_profile(profile).without_active().profiles == c.profiles,
        c.with_profile(profile).without_active().settings == c.settings,
        c.with_profile(profile).without_active().active_profile_id == c.profiles.last().id,
{
    law_added_profile_is_active(c, profile);
    assert(c.profiles.push(profile).remove(c.profiles.len() as int) =~= c.profiles);
}

/// Once a profile is put to use by its identifier, the profile in use has that identifier; no
/// profile is changed.
pub proof fn law_set_active_is_seen(c: ConfigModel, id: Seq<char>)
    requires
        has_id(c.profiles, id),
    ensures
        c.with_active(id).active_profile().id == id,
        c.with_active(id).profiles == c.profiles,
{
    law_position_of_id(c.profiles, id);
}

/// A profile is always in use: no change of the list leaves it empty, and after each of them
/// the identifier in use is that of a profile.
pub proof fn law_changes_keep_a_profile_in_use(c: ConfigModel, id: Seq<char>)
    requires
        c.profiles.len() > 0,
    ensures
        c.with_new_profile(id).profiles.len() == c.profiles.len() + 1,
        has_id(c.with_new_profile(id).profiles, id),
        c.with_duplicate(id).profiles.len() == c.profiles.len() + 1,
        has_id(c.with_duplicate(id).profiles, id),
        c.profiles.len() > 1 ==> {
            &&& c.without_active().profiles.len() == c.profiles.len() - 1
            &&& has_id(c.without_active().profiles, c.without_active().active_profile_id)
        },
{
    let n = c.with_new_profile(id);
    assert(n.profiles[c.profiles.len() as int].id == id);
    let d = c.with_duplicate(id);
    assert(d.profiles[c.profiles.len() as int].id == id);
    if c.profiles.len() > 1 {
        law_position_of_id(c.profiles, c.active_profile_id);
        let i = c.active_index();
        let rest = c.profiles.remove(i);
        let k = if i < rest.len() {
            i
        } else {
            rest.len() - 1
        };
        assert(rest[k].id == c.without_active().active_profile_id);
    }
}

/// A copy of a profile has everything of it but the identifier, the name and the password.
pub proof fn law_duplicate_keeps_the_connection(c: ConfigModel, id: Seq<char>)
    requires
        c.profiles.len() > 0,
    ensures
        ({
            let source = c.active_profile();
            let copy = c.with_duplicate(id).profiles.last();
            &&& copy.host == source.host
            &&& copy.port == source.port
            &&& copy.username == source.username
            &&& copy.auth_method == source.auth_method
            &&& copy.private_key_path == source.private_key_path
            &&& copy.password.len() == 0
        }),
{
}

/// No password is written to disk, and everything else is.
pub proof fn law_passwords_stay_in_memory(c: ConfigModel)
    ensures
        c.for_disk().profiles.len() == c.profiles.len(),
        c.for_disk().active_profile_id == c.active_profile_id,
        c.for_disk().settings == c.settings,
        forall|i: int|
            0 <= i < c.profiles.len() ==> {
                &&& (#[trigger] c.for_disk().profiles[i]).password.len() == 0
                &&& c.profiles[i] == (ProfileModel {
                    password: c.profiles[i].password,
                    ..c.for_disk().profiles[i]
                })
            },
{
}

/// The former form is taken over with all that it holds: host, user, login and settings, under
/// the name of the host.
pub proof fn law_former_form_is_kept(l: LegacyModel, id: Seq<char>)
    requires
        !blank(l.host),
        l.port != 0,
        !blank(id),
    ensures
        ({
            let c = migrated_and_normalized(l, id);
            let p = c.active_profile();
            &&& c.profiles.len() == 1
            &&& p.id == id
            &&& p.name == l.host
            &&& p.host == l.host
            &&& p.port == l.port
            &&& p.username == l.username
            &&& p.auth_method == l.auth_method
            &&& p.private_key_path == l.private_key_path
            &&& c.settings.socks_port == l.socks_port
            &&& c.settings.http_port == l.http_port
            &&& c.settings.auto_set_system_proxy == l.auto_set_system_proxy
        }),
{
    let c = migrated_and_normalized(l, id);
    assert(c.profiles[0].id == id);
    lemma_position_of_id(c.profiles, id, 0);
    assert(l.host.len() > 0) by {
        if l.host.len() == 0 {
            assert(l.host =~= Seq::<char>::empty());
            assert(blank(Seq::<char>::empty()));
        }
    }
}

/// Whether a configuration lacks nothing: there are profiles, one of them is in use, and each
/// has an identifier, a port and a name.
pub open spec fn is_complete(c: ConfigModel) -> bool {
    &&& c.profiles.len() > 0
    &&& has_id(c.profiles, c.active_profile_id)
    &&& forall|i: int|
        0 <= i < c.profiles.len() ==> !blank((#[trigger] c.profiles[i]).id) && c.profiles[i].port
            != 0 && !blank(c.profiles[i].name)
}

/// A configuration that lacks nothing is read back from what is written of it as it was, but
/// for the passwords.
pub proof fn law_saved_configuration_reads_back(
    c: ConfigModel,
    fallback: ProfileModel,
    ids: Seq<Seq<char>>,
)
    requires
        is_complete(c),
    ensures
        normalized_config(c.for_disk(), fallback, ids) == c.for_disk(),
{
    let saved = c.for_disk();
    let read = normalized_config(saved, fallback, ids);
    let k = choose|k: int|
        0 <= k < c.profiles.len() && (#[trigger] c.profiles[k]).id == c.active_profile_id;
    assert(saved.profiles[k].id == saved.active_profile_id);
    assert forall|i: int| 0 <= i < saved.profiles.len() implies read.profiles[i]
        == saved.profiles[i] by {
        assert(saved.profiles[i] == (ProfileModel { password: Seq::empty(), ..c.profiles[i] }));
        assert(!blank(c.profiles[i].id));
    }
    assert(read.profiles =~= saved.profiles);
}

/// A configuration lacks nothing exactly if normalising can leave it as it is.
pub proof fn law_complete_is_normalized(c: ConfigModel)
    ensures
        is_complete(c) <==> is_normalized(c, c),
{
    if is_complete(c) {
        let id = host_id(0);
        let ids = Seq::new(c.profiles.len(), |i: int| id);
        assert(is_host_id(id));
        assert(forall|i: int| 0 <= i < ids.len() ==> is_host_id(#[trigger] ids[i]));
        let read = normalized_config(c, fresh_profile(id), ids);
        assert forall|i: int| 0 <= i < c.profiles.len() implies read.profiles[i]
            == c.profiles[i] by {
            assert(!blank(c.profiles[i].id));
        }
        assert(read.profiles =~= c.profiles);
        assert(c == normalized_config(c, fresh_profile(id), ids));
    }
    if is_normalized(c, c) {
        let (fallback, ids) = choose|fallback: Seq<char>, ids: Seq<Seq<char>>|
            {
                &&& is_host_id(fallback)
                &&& ids.len() >= profiles_or(c, fresh_profile(fallback)).len()
                &&& forall|i: int| 0 <= i < ids.len() ==> is_host_id(#[trigger] ids[i])
                &&& c == #[trigger] normalized_config(c, fresh_profile(fallback), ids)
            };
        assert forall|i: int| 0 <= i < ids.len() implies !blank(#[trigger] ids[i]) by {
            assert(is_host_id(ids[i]));
            let nanos = choose|nanos: u128| ids[i] == host_id(nanos);
            law_id_is_not_blank(nanos);
        }
        law_normalized_is_complete(c, fresh_profile(fallback), ids);
        assert(c.profiles[0].id == c.profiles[0].id);
    }
}

/// A configuration that lacks nothing loads back as what was saved of it: as it was, but for the
/// passwords. The file that it was saved to has a key of the present form, whatever it could be
/// read as in the former one.
pub proof fn law_saved_configuration_loads_back(
    c: ConfigModel,
    keys: Seq<Seq<char>>,
    legacy: Option<LegacyModel>,
    r: ConfigModel,
)
    requires
        is_complete(c),
        exists|i: int| 0 <= i < keys.len() && is_present_key(#[trigger] keys[i]),
        is_loaded(keys, Some(c.for_disk()), legacy, r),
    ensures
        r == c.for_disk(),
{
    assert(!is_former(keys));
    let (fallback, ids) = choose|fallback: Seq<char>, ids: Seq<Seq<char>>|
        {
            &&& is_host_id(fallback)
            &&& ids.len() >= profiles_or(c.for_disk(), fresh_profile(fallback)).len()
            &&& forall|i: int| 0 <= i < ids.len() ==> is_host_id(#[trigger] ids[i])
            &&& r == #[trigger] normalized_config(c.for_disk(), fresh_profile(fallback), ids)
        };
    law_saved_configuration_reads_back(c, fresh_profile(fallback), ids);
}

/// What the search comes to, from the directory of the number on, for what the files hold.
pub open spec fn search_outcome(files: Seq<Option<Seq<char>>>, tried: nat) -> SearchModel
    decreases files.len() - tried,
{
    if tried >= files.len() {
        SearchModel::Nothing
    } else {
        match search_after(tried, files[tried as int]) {
            SearchModel::Look(next) => if next > tried {
                search_outcome(files, next)
            } else {
                SearchModel::Nothing
            },
            done => done,
        }
    }
}

/// The text that was found, if one was.
pub open spec fn found_text(outcome: SearchModel) -> Option<Seq<char>> {
    match outcome {
        SearchModel::Found { content, .. } => Some(content),
        _ => None,
    }
}

/// What the files hold after the search, if writing did not fail.
pub open spec fn files_after(files: Seq<Option<Seq<char>>>, outcome: SearchModel) -> Seq<
    Option<Seq<char>>,
> {
    match outcome {
        SearchModel::Found { content, copy } => if copy {
            files.update(0, Some(content))
        } else {
            files
        },
        _ => files,
    }
}

proof fn lemma_search_outcome(files: Seq<Option<Seq<char>>>, tried: nat, k: nat)
    requires
        files.len() == config_directories().len(),
        tried <= k < files.len(),
        files[k as int] is Some,
        forall|i: int| tried <= i < k ==> #[trigger] files[i] is None,
    ensures
        search_outcome(files, tried) == (SearchModel::Found {
            content: files[k as int]->0,
            copy: k > 0,
        }),
    decreases k - tried,
{
    if tried < k {
        assert(files[tried as int] is None);
        lemma_search_outcome(files, tried + 1, k);
    }
}

/// The file of the first directory that has one is what is found, and it is copied exactly if
/// that directory is a former one.
pub proof fn law_first_directory_counts(files: Seq<Option<Seq<char>>>, k: nat)
    requires
        files.len() == config_directories().len(),
        k < files.len(),
        files[k as int] is Some,
        forall|i: int| 0 <= i < k ==> #[trigger] files[i] is None,
    ensures
        search_outcome(files, 0) == (SearchModel::Found {
            content: files[k as int]->0,
            copy: k > 0,
        }),
{
    lemma_search_outcome(files, 0, k);
}

/// A file of a former directory is moved as it is: the present directory holds the same text
/// afterwards and no other file changes, the next search finds that text there and writes
/// nothing, and what is loaded from it is what would be loaded from the present directory.
pub proof fn law_former_directory_moves_as_it_is(
    files: Seq<Option<Seq<char>>>,
    k: nat,
    current: Option<ConfigModel>,
    legacy: Option<LegacyModel>,
    r: ConfigModel,
)
    requires
        files.len() == config_directories().len(),
        0 < k < files.len(),
        files[k as int] is Some,
        forall|i: int| 0 <= i < k ==> #[trigger] files[i] is None,
    ensures
        ({
            let found = search_outcome(files, 0);
            let after = files_after(files, found);
            let again = search_outcome(after, 0);
            &&& after == files.update(0, files[k as int])
            &&& again == (SearchModel::Found { content: files[k as int]->0, copy: false })
            &&& files_after(after, again) == after
            &&& is_loaded_from(found_text(found), current, legacy, r) <==> is_loaded_from(
                found_text(again),
                current,
                legacy,
                r,
            )
        }),
{
    lemma_search_outcome(files, 0, k);
    let after = files_after(files, search_outcome(files, 0));
    lemma_search_outcome(after, 0, 0);
}

/// Where no directory has a file, there is a new configuration and nothing is written.
pub proof fn law_without_a_file_there_is_a_new_configuration(
    files: Seq<Option<Seq<char>>>,
    current: Option<ConfigModel>,
    legacy: Option<LegacyModel>,
    r: ConfigModel,
)
    requires
        files.len() == config_directories().len(),
        forall|i: int| 0 <= i < files.len() ==> #[trigger] files[i] is None,
        is_loaded_from(found_text(search_outcome(files, 0)), current, legacy, r),
    ensures
        search_outcome(files, 0) is Nothing,
        files_after(files, search_outcome(files, 0)) == files,
        is_host_id(r.active_profile_id),
        r == fresh_config(fresh_profile(r.active_profile_id)),
{
    reveal_with_fuel(search_outcome, 4);
    assert(files[0] is None && files[1] is None && files[2] is None);
}

/// Whatever a file holds, what is loaded has a profile to use.
pub proof fn law_loaded_configuration_has_a_profile(
    keys: Seq<Seq<char>>,
    current: Option<ConfigModel>,
    legacy: Option<LegacyModel>,
    r: ConfigModel,
)
    requires
        is_loaded(keys, current, legacy, r),
    ensures
        r.profiles.len() > 0,
{
}

// ----- what a request is made of -----

/// A request that is made carries what the profile and the settings hold, field by field.
pub proof fn law_request_carries_profile_and_settings(
    profile: ProfileModel,
    settings: AppSettings,
    key_file_exists: bool,
)
    ensures
        tunnel_request(profile, settings, key_file_exists) matches Ok(q) ==> {
            &&& q.host == profile.host
            &&& q.port == profile.port
            &&& q.username == profile.username
            &&& q.auth_method == profile.auth_method
            &&& q.password == profile.password
            &&& q.private_key_path == profile.private_key_path
            &&& q.socks_port == settings.socks_port
            &&& q.http_port == settings.http_port
        },
{
}

/// A request is made exactly where the profile names a host, a user, a port and what its login
/// takes, and the local ports can be used; it does not matter what the other login would take.
pub proof fn law_request_is_made_where_nothing_is_missing(
    profile: ProfileModel,
    settings: AppSettings,
    key_file_exists: bool,
)
    ensures
        tunnel_request(profile, settings, key_file_exists) is Ok <==> {
            &&& text::trimmed(profile.host).len() > 0
            &&& text::trimmed(profile.username).len() > 0
            &&& profile.port > 0
            &&& profile.auth_method == AuthMethod::Password ==> profile.password.len() > 0
            &&& profile.auth_method == AuthMethod::PrivateKey ==> text::trimmed(
                profile.private_key_path,
            ).len() > 0 && key_file_exists
            &&& settings.socks_port > 0
            &&& settings.http_port > 0
            &&& settings.socks_port != settings.http_port
        },
{
}

/// What is told of a request that cannot be made is what stands in its way first: the host, the
/// user, the port of the server, the login, and then the local ports.
pub proof fn law_first_problem_is_told(
    profile: ProfileModel,
    settings: AppSettings,
    key_file_exists: bool,
    e: ConfigError,
)
    requires
        tunnel_request(profile, settings, key_file_exists) == Err::<TunnelModel, ConfigError>(e),
    ensures
        ({
            let host = text::trimmed(profile.host).len() > 0;
            let user = text::trimmed(profile.username).len() > 0;
            let reached = host && user && profile.port > 0;
            let by_password = profile.auth_method == AuthMethod::Password;
            let key = text::trimmed(profile.private_key_path).len() > 0;
            let ready = reached && (if by_password {
                profile.password.len() > 0
            } else {
                key && key_file_exists
            });
            &&& e == ConfigError::MissingHost <==> !host
            &&& e == ConfigError::MissingUser <==> host && !user
            &&& e == ConfigError::BadSshPort <==> host && user && profile.port == 0
            &&& e == ConfigError::MissingPassword <==> reached && by_password
                && profile.password.len() == 0
            &&& e == ConfigError::MissingKeyFile <==> reached && !by_password && !key
            &&& e == ConfigError::KeyFileNotFound <==> reached && !by_password && key
                && !key_file_exists
            &&& e == ConfigError::BadLocalPort <==> ready && (settings.socks_port == 0
                || settings.http_port == 0)
            &&& e == ConfigError::SamePorts <==> ready && settings.socks_port > 0
                && settings.socks_port == settings.http_port
            &&& e != ConfigError::LastProfile
        }),
{
}

// ----- what profiles are called -----

/// A profile with a name of its own is called by it, with its host behind; one without is called
/// by its user and host, or by its host alone.
pub proof fn law_label_names_the_host(p: ProfileModel)
    ensures
        ({
            let name = text::trimmed(p.name);
            let host = text::trimmed(p.host);
            let user = text::trimmed(p.username);
            let own = name.len() > 0 && name != "新主机"@;
            &&& own ==> text::starts_with(p.label(), name)
            &&& host.len() > 0 ==> text::contains(p.label(), host)
            &&& own && host.len() == 0 ==> p.label() == name
            &&& own && host.len() > 0 ==> p.label().len() == name.len() + host.len() + 3
            &&& !own && host.len() > 0 && user.len() == 0 ==> p.label() == host
            &&& !own && host.len() > 0 && user.len() > 0 ==> text::starts_with(p.label(), user)
                && crate::keys::ends_with(p.label(), host) && p.label()[user.len() as int] == '@'
                && p.label().len() == user.len() + 1 + host.len()
            &&& !own && host.len() == 0 ==> p.label() == "未命名主机"@
            &&& name.len() > 0 ==> p.title() == name
            &&& name.len() == 0 ==> p.title() == "未命名主机"@
        }),
{
    let name = text::trimmed(p.name);
    let host = text::trimmed(p.host);
    let user = text::trimmed(p.username);
    let l = p.label();
    reveal_strlit(" (");
    reveal_strlit(")");
    reveal_strlit("@");
    let n = name.len() as int;
    let u = user.len() as int;
    if name.len() > 0 && name != "新主机"@ {
        assert(l.subrange(0, n) =~= name);
        if host.len() > 0 {
            assert(l.subrange(n + 2, n + 2 + host.len()) =~= host);
            assert(text::occurs_at(l, host, n + 2));
        }
    } else if host.len() > 0 {
        if user.len() == 0 {
            assert(l.subrange(0, host.len() as int) =~= host);
            assert(text::occurs_at(l, host, 0));
        } else {
            assert(l.subrange(0, u) =~= user);
            assert(l.subrange(u + 1, u + 1 + host.len()) =~= host);
            assert(text::occurs_at(l, host, u + 1));
            assert(l.skip(l.len() - host.len()) =~= host);
        }
    }
}

/// Two profiles that differ only in what is not shown have the same label, and the password is
/// never shown.
pub proof fn law_label_shows_no_password(p: ProfileModel, password: Seq<char>, key: Seq<char>)
    ensures
        (ProfileModel { password, private_key_path: key, ..p }).label() == p.label(),
        (ProfileModel { password, private_key_path: key, ..p }).title() == p.title(),
{
}

// ----- what changes of the configuration keep -----

/// The first profile with an identifier is the one that is found.
pub proof fn law_found_profile_is_the_first(profiles: Seq<ProfileModel>, id: Seq<char>, k: int)
    requires
        0 <= k < profiles.len(),
        profiles[k].id == id,
    ensures
        position_of_id(profiles, id) matches Some(i) && 0 <= i <= k && profiles[i].id == id,
    decreases profiles.len(),
{
    if profiles[0].id != id {
        let rest = profiles.drop_first();
        assert(rest[k - 1] == profiles[k]);
        law_found_profile_is_the_first(rest, id, k - 1);
    }
}

/// The profile in use is the first with the identifier in use; where there is none, it is the
/// first of all.
pub proof fn law_profile_in_use(c: ConfigModel)
    requires
        c.profiles.len() > 0,
    ensures
        0 <= c.active_index() < c.profiles.len(),
        c.active_profile() == c.profiles[c.active_index()],
        has_id(c.profiles, c.active_profile_id) ==> c.active_profile().id == c.active_profile_id
            && forall|k: int|
            0 <= k < c.profiles.len() && (#[trigger] c.profiles[k]).id == c.active_profile_id
                ==> c.active_index() <= k,
        !has_id(c.profiles, c.active_profile_id) ==> c.active_index() == 0,
{
    law_position_of_id(c.profiles, c.active_profile_id);
    if has_id(c.profiles, c.active_profile_id) {
        assert forall|k: int|
            0 <= k < c.profiles.len() && (#[trigger] c.profiles[k]).id
                == c.active_profile_id implies c.active_index() <= k by {
            law_found_profile_is_the_first(c.profiles, c.active_profile_id, k);
        }
    }
}

/// An identifier that no profile has is not put to use, and nothing changes; one that some has
/// is, and nothing else changes.
pub proof fn law_only_known_profiles_are_put_to_use(c: ConfigModel, id: Seq<char>)
    ensures
        !has_id(c.profiles, id) ==> c.with_active(id) == c,
        has_id(c.profiles, id) ==> c.with_active(id).active_profile_id == id,
        c.with_active(id).profiles == c.profiles,
        c.with_active(id).settings == c.settings,
{
}

/// A new profile comes last, is in use, and is named by its number; it names no host and no user,
/// has the port 22 and is to log in by password. All others and the settings stay.
pub proof fn law_new_profile_is_empty(c: ConfigModel, id: Seq<char>, i: int)
    requires
        0 <= i < c.profiles.len(),
    ensures
        ({
            let after = c.with_new_profile(id);
            let fresh = after.profiles.last();
            let start = "主机 "@;
            &&& after.profiles.len() == c.profiles.len() + 1
            &&& after.profiles[i] == c.profiles[i]
            &&& after.settings == c.settings
            &&& after.active_profile_id == id
            &&& fresh.id == id
            &&& text::starts_with(fresh.name, start)
            &&& text::all_digits(fresh.name.skip(start.len() as int))
            &&& text::digits_value(fresh.name.skip(start.len() as int)) == c.profiles.len() + 1
            &&& fresh.host.len() == 0
            &&& fresh.username.len() == 0
            &&& fresh.password.len() == 0
            &&& fresh.private_key_path.len() == 0
            &&& fresh.port == 22
            &&& fresh.auth_method == AuthMethod::Password
        }),
{
    let after = c.with_new_profile(id);
    let start = "主机 "@;
    let n = (c.profiles.len() + 1) as nat;
    text::law_decimal_reads_back(n);
    let name = after.profiles.last().name;
    assert(name.subrange(0, start.len() as int) =~= start);
    assert(name.skip(start.len() as int) =~= text::decimal(n));
}

/// A copy comes last, is in use under its own identifier, and is called like the profile that was
/// in use with a mark behind it. All others and the settings stay.
pub proof fn law_copy_comes_last(c: ConfigModel, id: Seq<char>, i: int)
    requires
        0 <= i < c.profiles.len(),
    ensures
        ({
            let after = c.with_duplicate(id);
            let copy = after.profiles.last();
            let source = c.active_profile();
            &&& after.profiles.len() == c.profiles.len() + 1
            &&& after.profiles[i] == c.profiles[i]
            &&& after.settings == c.settings
            &&& after.active_profile_id == id
            &&& copy.id == id
            &&& text::starts_with(copy.name, source.name)
            &&& copy.name.len() > source.name.len()
        }),
{
    let source = c.active_profile();
    let name = c.with_duplicate(id).profiles.last().name;
    reveal_strlit(" (副本)");
    assert(name.subrange(0, source.name.len() as int) =~= source.name);
}

/// Removing takes away the profile in use and no other: those before it and behind it stay in
/// their order, and the one behind it is used next, or the one before it where it was the last.
pub proof fn law_removing_takes_the_profile_in_use(c: ConfigModel)
    requires
        c.profiles.len() > 1,
    ensures
        ({
            let i = c.active_index();
            let after = c.without_active();
            &&& after.profiles == c.profiles.take(i) + c.profiles.skip(i + 1)
            &&& after.settings == c.settings
            &&& i + 1 < c.profiles.len() ==> after.active_profile_id == c.profiles[i + 1].id
            &&& i + 1 == c.profiles.len() ==> after.active_profile_id == c.profiles[i - 1].id
        }),
{
    law_profile_in_use(c);
    let i = c.active_index();
    assert(c.profiles.remove(i) =~= c.profiles.take(i) + c.profiles.skip(i + 1));
}

// ----- what normalising fills in -----

/// A profile gets what it lacks and keeps all else: an identifier in place of a blank one, the
/// port 22 in place of none, and its label in place of a blank name.
pub proof fn law_completing_fills_in_what_is_missing(p: ProfileModel, id: Seq<char>)
    ensures
        ({
            let done = completed(p, id);
            &&& done.id == (if text::trimmed(p.id).len() == 0 { id } else { p.id })
            &&& done.port == (if p.port == 0 { 22u16 } else { p.port })
            &&& text::trimmed(p.name).len() > 0 ==> done.name == p.name
            &&& text::trimmed(p.name).len() == 0 ==> done.name == p.label()
            &&& done.host == p.host
            &&& done.username == p.username
            &&& done.auth_method == p.auth_method
            &&& done.password == p.password
            &&& done.private_key_path == p.private_key_path
        }),
{
}

/// Normalising keeps the profiles in their order, each with what it lacks filled in, and the
/// settings; the identifier in use stays where a profile has it, and is that of the first profile
/// otherwise.
pub proof fn law_normalizing_keeps_the_profiles(
    c: ConfigModel,
    fallback: ProfileModel,
    ids: Seq<Seq<char>>,
    i: int,
)
    requires
        0 <= i < c.profiles.len(),
    ensures
        ({
            let n = normalized_config(c, fallback, ids);
            &&& n.profiles.len() == c.profiles.len()
            &&& n.profiles[i].host == c.profiles[i].host
            &&& n.profiles[i].username == c.profiles[i].username
            &&& n.profiles[i].auth_method == c.profiles[i].auth_method
            &&& n.profiles[i].private_key_path == c.profiles[i].private_key_path
            &&& n.profiles[i].password == c.profiles[i].password
            &&& text::trimmed(c.profiles[i].id).len() > 0 ==> n.profiles[i].id == c.profiles[i].id
            &&& text::trimmed(c.profiles[i].id).len() == 0 ==> n.profiles[i].id == ids[i]
            &&& text::trimmed(c.profiles[i].name).len() > 0 ==> n.profiles[i].name
                == c.profiles[i].name
            &&& c.profiles[i].port > 0 ==> n.profiles[i].port == c.profiles[i].port
            &&& c.profiles[i].port == 0 ==> n.profiles[i].port == 22
            &&& n.settings == c.settings
            &&& c.profiles[i].id == c.active_profile_id ==> n.active_profile_id
                == c.active_profile_id
            &&& !has_id(c.profiles, c.active_profile_id) ==> n.active_profile_id
                == c.profiles[0].id
        }),
{
}

/// A configuration without profiles gets a new one: with the given identifier, the port 22 and
/// nothing else but a name.
pub proof fn law_empty_configuration_gets_a_profile(
    c: ConfigModel,
    id: Seq<char>,
    ids: Seq<Seq<char>>,
)
    requires
        c.profiles.len() == 0,
        !blank(id),
    ensures
        ({
            let n = normalized_config(c, fresh_profile(id), ids);
            &&& n.profiles.len() == 1
            &&& n.profiles[0].id == id
            &&& n.active_profile_id == id
            &&& n.profiles[0].port == 22
            &&& n.profiles[0].host.len() == 0
            &&& n.profiles[0].username.len() == 0
            &&& n.profiles[0].password.len() == 0
            &&& n.profiles[0].auth_method == AuthMethod::Password
            &&& n.settings == c.settings
        }),
{
    assert(!has_id(c.profiles, c.active_profile_id));
    let one = seq![fresh_profile(id)];
    assert(one[0].id == id);
}

/// A new configuration has one new profile, in use, and listens on the ports 1080 and 7890 with
/// the system made to use it.
pub proof fn law_new_configuration(id: Seq<char>)
    ensures
        ({
            let c = fresh_config(fresh_profile(id));
            &&& c.profiles.len() == 1
            &&& c.profiles[0].id == id
            &&& c.active_profile_id == id
            &&& c.profiles[0].port == 22
            &&& c.profiles[0].host.len() == 0
            &&& c.settings.socks_port == 1080
            &&& c.settings.http_port == 7890
            &&& c.settings.auto_set_system_proxy
            &&& c.settings.problem() is None
        }),
{
}

/// An identifier is the word `host-` and digits that stand for the number it was made of.
pub proof fn law_identifier_reads_back(nanos: u128)
    ensures
        text::starts_with(host_id(nanos), "host-"@),
        text::all_digits(host_id(nanos).skip(5)),
        text::digits_value(host_id(nanos).skip(5)) == nanos,
        is_host_id(host_id(nanos)),
{
    reveal_strlit("host-");
    text::law_decimal_reads_back(nanos as nat);
    assert(host_id(nanos).subrange(0, 5) =~= "host-"@);
    assert(host_id(nanos).skip(5) =~= text::decimal(nanos as nat));
}

// ----- the former form -----

/// The former form gives one profile with all that it holds, whatever is missing in it: without a
/// host it has a name for that, without a port it has 22, and it never has a password.
pub proof fn law_former_form_is_taken_over(l: LegacyModel, id: Seq<char>)
    requires
        !blank(id),
    ensures
        ({
            let raw = migrated(l, id);
            let c = migrated_and_normalized(l, id);
            let p = c.profiles[0];
            &&& raw.profiles.len() == 1
            &&& c.profiles.len() == 1
            &&& raw.active_profile_id == id
            &&& c.active_profile_id == id
            &&& raw.profiles[0].id == id
            &&& p.id == id
            &&& p.host == l.host
            &&& p.username == l.username
            &&& p.auth_method == l.auth_method
            &&& p.private_key_path == l.private_key_path
            &&& p.password.len() == 0
            &&& raw.profiles[0].port == l.port
            &&& p.port == (if l.port == 0 { 22u16 } else { l.port })
            &&& l.host.len() == 0 ==> p.name == "默认主机"@
            &&& !blank(l.host) ==> p.name == l.host
            &&& !blank(p.name)
            &&& c.settings.socks_port == l.socks_port
            &&& c.settings.http_port == l.http_port
            &&& c.settings.auto_set_system_proxy == l.auto_set_system_proxy
            &&& raw.settings == c.settings
        }),
{
    reveal_strlit("默认主机");
    text::lemma_not_blank("默认主机"@, 0);
    law_label_is_not_blank(migrated_profile(l, id));
    if l.host.len() == 0 {
        assert(l.host =~= Seq::<char>::empty());
        assert(blank(Seq::<char>::empty()));
    }
}

/// A file is in the former form exactly if one of its topmost keys is of that form, and none is
/// of the present one.
pub proof fn law_keys_tell_the_form(keys: Seq<Seq<char>>)
    ensures
        is_former(keys) <==> {
            &&& keys.contains("host"@) || keys.contains("port"@) || keys.contains("username"@)
                || keys.contains("auth_method"@) || keys.contains("private_key_path"@)
                || keys.contains("socks_port"@) || keys.contains("http_port"@) || keys.contains(
                "auto_set_system_proxy"@,
            )
            &&& !keys.contains("profiles"@)
            &&& !keys.contains("active_profile_id"@)
            &&& !keys.contains("settings"@)
        },
{
    if is_former(keys) {
        let i = choose|i: int| 0 <= i < keys.len() && is_former_key(#[trigger] keys[i]);
        assert(keys.contains(keys[i]));
        assert forall|key: Seq<char>| is_present_key(key) implies !keys.contains(key) by {
            if keys.contains(key) {
                let k = choose|k: int| 0 <= k < keys.len() && keys[k] == key;
                assert(!is_present_key(keys[k]));
            }
        }
        assert(is_present_key("profiles"@));
        assert(is_present_key("active_profile_id"@));
        assert(is_present_key("settings"@));
    } else {
        assert forall|key: Seq<char>| keys.contains(key) && is_former_key(key) implies exists|k: int|
            0 <= k < keys.len() && is_present_key(#[trigger] keys[k]) by {
            let k = choose|k: int| 0 <= k < keys.len() && keys[k] == key;
            assert(is_former_key(keys[k]));
        }
        if exists|k: int| 0 <= k < keys.len() && is_present_key(#[trigger] keys[k]) {
            let k = choose|k: int| 0 <= k < keys.len() && is_present_key(#[trigger] keys[k]);
            assert(keys.contains(keys[k]));
        }
        assert(is_former_key("host"@) && is_former_key("port"@) && is_former_key("username"@)
            && is_former_key("auth_method"@) && is_former_key("private_key_path"@) && is_former_key(
            "socks_port"@,
        ) && is_former_key("http_port"@) && is_former_key("auto_set_system_proxy"@));
    }
}

/// What a file holds in the present form counts, unless it is in the former form; what it holds
/// in the former form counts where it is in that form or holds nothing in the present one; and a
/// file that holds neither gives a new configuration.
pub proof fn law_which_form_counts(
    keys: Seq<Seq<char>>,
    current: Option<ConfigModel>,
    legacy: Option<LegacyModel>,
    r: ConfigModel,
)
    requires
        is_loaded(keys, current, legacy, r),
    ensures
        current is Some && (legacy is None || !is_former(keys)) ==> {
            &&& r.settings == current->0.settings
            &&& current->0.profiles.len() > 0 ==> r.profiles.len() == current->0.profiles.len()
            &&& forall|i: int|
                0 <= i < current->0.profiles.len() ==> (#[trigger] r.profiles[i]).host
                    == current->0.profiles[i].host && r.profiles[i].username
                    == current->0.profiles[i].username
        },
        legacy is Some && (current is None || is_former(keys)) ==> {
            &&& r.profiles.len() == 1
            &&& r.profiles[0].host == legacy->0.host
            &&& r.profiles[0].username == legacy->0.username
            &&& r.settings.socks_port == legacy->0.socks_port
            &&& r.settings.http_port == legacy->0.http_port
        },
        current is None && legacy is None ==> {
            &&& r.profiles.len() == 1
            &&& r.profiles[0].host.len() == 0
            &&& r.settings.socks_port == 1080
            &&& r.settings.http_port == 7890
        },
{
}

/// The directories are looked at one after the other, and none is left out or looked at twice: the
/// present one comes first, and the search ends with the last.
pub proof fn law_directories_are_looked_at_in_turn(tried: nat, i: int, j: int)
    requires
        0 <= i < j < config_directories().len(),
    ensures
        tried + 1 < config_directories().len() ==> search_after(tried, None) == SearchModel::Look(
            tried + 1,
        ),
        tried + 1 >= config_directories().len() ==> search_after(tried, None) is Nothing,
        config_directories()[0] == "sway"@,
        config_directories()[i] != config_directories()[j],
        config_directories().contains("sslink"@),
        config_directories().contains("sshtools"@),
{
    reveal_strlit("sway");
    reveal_strlit("sslink");
    reveal_strlit("sshtools");
    assert("sway"@.len() == 4);
    assert("sslink"@.len() == 6);
    assert("sshtools"@.len() == 8);
    assert(config_directories()[1] == "sslink"@);
    assert(config_directories()[2] == "sshtools"@);
}

} // verus!
