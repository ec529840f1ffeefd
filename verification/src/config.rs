//! Application configuration and key derivation.

use std::path::PathBuf;

use vstd::prelude::*;
use vstd::string::*;

use crate::digest;
use crate::environment::EnvValue;
use crate::paths;
use crate::text;

verus! {

/// The address that the server listens on where no other is given.
pub const DEFAULT_HOST: &'static str = "127.0.0.1";

/// The port that the server listens on where no other is given.
pub const DEFAULT_PORT: u16 = 25808;

/// The directory for data and work where no other is given.
pub const DEFAULT_DIRECTORY: &'static str = "data";

/// The version of this package.
pub const PACKAGE_VERSION: &'static str = "0.1.0";

/// The name of the SQLite database file.
pub const DATABASE_FILE: &'static str = "aionui-backend.db";

/// The variable that switches messages between sessions.
pub const SESSION_MESSAGES_VARIABLE: &'static str = "AIONUI_SESSION_MESSAGES_ENABLED";

/// The variable that switches the authentication of runtime users.
pub const RUNTIME_USER_AUTH_VARIABLE: &'static str = "AIONUI_RUNTIME_USER_AUTH_ENABLED";

/// The variable that switches delivery in the middle of a turn.
pub const MIDTURN_DELIVERY_VARIABLE: &'static str = "AIONUI_MIDTURN_DELIVERY_ENABLED";

/// What stands in front of the secret from which the storage encryption key is derived. It is part
/// of the on-disk contract and must never change: every stored ciphertext would be orphaned.
pub const ENCRYPTION_KEY_PREFIX: &'static str = "aionui-encryption-key:";

/// Who vouches for the identity of a user.
#[derive(Debug, Clone, Copy, PartialEq, Eq, Structural)]
pub enum IdentityMode {
    Local,
    WebUi,
    AionPro,
}

impl IdentityMode {
    /// The name of the mode.
    pub open spec fn label(self) -> Seq<char> {
        match self {
            IdentityMode::Local => "local"@,
            IdentityMode::WebUi => "webui"@,
            IdentityMode::AionPro => "aionpro"@,
        }
    }

    /// The name of the mode.
    pub fn auth_label(self) -> (label: &'static str)
        ensures
            label@ == self.label(),
            self is Local ==> label@ == "local"@,
            self is WebUi ==> label@ == "webui"@,
            self is AionPro ==> label@ == "aionpro"@,
    {
        match self {
            IdentityMode::Local => "local",
            IdentityMode::WebUi => "webui",
            IdentityMode::AionPro => "aionpro",
        }
    }

    /// The mode is the local one.
    pub fn is_local(self) -> (local: bool)
        ensures
            local == (self is Local),
    {
        self == IdentityMode::Local
    }
}

/// Server capability switches; user settings cannot override these gates.
#[derive(Debug, Clone, Copy)]
pub struct RuntimeFeaturePolicy {
    pub session_messages: bool,
    pub midturn_delivery: bool,
    pub runtime_user_auth: bool,
}

/// What `parse_feature_switch` answers: a switch is on unless it is switched off.
pub open spec fn switch_value(name: Seq<char>, value: Option<Seq<char>>) -> Result<
    bool,
    Seq<char>,
> {
    match value {
        None => Ok(true),
        Some(text) => if text == "1"@ || text == "true"@ {
            Ok(true)
        } else if text == "0"@ || text == "false"@ {
            Ok(false)
        } else {
            Err(name + " must be 0, 1, false, or true"@)
        },
    }
}

/// No word for an open switch is one for a closed switch.
proof fn lemma_switch_words_differ()
    ensures
        "0"@ != "1"@,
        "0"@ != "true"@,
        "false"@ != "1"@,
        "false"@ != "true"@,
{
    reveal_strlit("0");
    reveal_strlit("1");
    reveal_strlit("true");
    reveal_strlit("false");
    assert("0"@[0] != "1"@[0]);
    assert("0"@.len() != "true"@.len());
    assert("false"@.len() != "1"@.len());
    assert("false"@.len() != "true"@.len());
}

/// A switch is on where it is not set, or is set to `1` or `true`; it is off where it is set to `0`
/// or `false`; on any other text it is complained of by its name.
pub proof fn law_switches(name: Seq<char>, value: Option<Seq<char>>)
    ensures
        switch_value(name, value) == Ok::<bool, Seq<char>>(true) <==> value is None || value
            == Some("1"@) || value == Some("true"@),
        switch_value(name, value) == Ok::<bool, Seq<char>>(false) <==> value == Some("0"@) || value
            == Some("false"@),
        switch_value(name, value) matches Err(message) ==> message == name
            + " must be 0, 1, false, or true"@,
{
    lemma_switch_words_differ();
}

/// Reads the switch `name`.
pub fn parse_feature_switch(name: &str, value: Option<&str>) -> (on: Result<bool, String>)
    ensures
        text::same_outcome(
            on,
            switch_value(
                name@,
                match value {
                    Some(text) => Some(text@),
                    None => None,
                },
            ),
        ),
        on matches Ok(on) ==> (on <==> value is None || value->0@ == "1"@ || value->0@ == "true"@),
        on == Ok::<bool, String>(false) <==> value is Some && (value->0@ == "0"@ || value->0@
            == "false"@),
        on matches Err(message) ==> message@ == name@ + " must be 0, 1, false, or true"@,
{
    proof {
        lemma_switch_words_differ();
    }
    match value {
        None => Ok(true),
        Some(text) => if text::same_text(text, "1") || text::same_text(text, "true") {
            Ok(true)
        } else if text::same_text(text, "0") || text::same_text(text, "false") {
            Ok(false)
        } else {
            let mut complaint: String = name.to_owned();
            complaint.append(" must be 0, 1, false, or true");
            Err(complaint)
        },
    }
}

impl RuntimeFeaturePolicy {
    /// The switches that the three variables give; or what is wrong with the first of them, in the
    /// order of the parameters, that is wrong.
    pub open spec fn configured(
        session_messages: EnvValue,
        runtime_user_auth: EnvValue,
        midturn_delivery: EnvValue,
    ) -> Result<RuntimeFeaturePolicy, Seq<char>> {
        match switch_value(SESSION_MESSAGES_VARIABLE@, session_messages.spec_text()) {
            Err(error) => Err(error),
            Ok(session_messages) => match switch_value(
                RUNTIME_USER_AUTH_VARIABLE@,
                runtime_user_auth.spec_text(),
            ) {
                Err(error) => Err(error),
                Ok(runtime_user_auth) => match switch_value(
                    MIDTURN_DELIVERY_VARIABLE@,
                    midturn_delivery.spec_text(),
                ) {
                    Err(error) => Err(error),
                    Ok(midturn_delivery) => Ok(
                        RuntimeFeaturePolicy {
                            session_messages,
                            midturn_delivery,
                            runtime_user_auth,
                        },
                    ),
                },
            },
        }
    }

    /// Takes the switches from the process environment.
    pub fn from_env(
        session_messages: &EnvValue,
        runtime_user_auth: &EnvValue,
        midturn_delivery: &EnvValue,
    ) -> (policy: Result<Self, String>)
        ensures
            text::same_outcome(
                policy,
                Self::configured(*session_messages, *runtime_user_auth, *midturn_delivery),
            ),
            policy matches Ok(policy) ==> {
                &&& policy.session_messages <==> (session_messages matches EnvValue::Present(text)
                    ==> text@ == "1"@ || text@ == "true"@)
                &&& policy.runtime_user_auth <==> (runtime_user_auth matches EnvValue::Present(text)
                    ==> text@ == "1"@ || text@ == "true"@)
                &&& policy.midturn_delivery <==> (midturn_delivery matches EnvValue::Present(text)
                    ==> text@ == "1"@ || text@ == "true"@)
            },
    {
        let session_messages: bool = match parse_feature_switch(
            SESSION_MESSAGES_VARIABLE,
            session_messages.text(),
        ) {
            Ok(on) => on,
            Err(error) => return Err(error),
        };
        let runtime_user_auth: bool = match parse_feature_switch(
            RUNTIME_USER_AUTH_VARIABLE,
            runtime_user_auth.text(),
        ) {
            Ok(on) => on,
            Err(error) => return Err(error),
        };
        let midturn_delivery: bool = match parse_feature_switch(
            MIDTURN_DELIVERY_VARIABLE,
            midturn_delivery.text(),
        ) {
            Ok(on) => on,
            Err(error) => return Err(error),
        };
        Ok(RuntimeFeaturePolicy { session_messages, midturn_delivery, runtime_user_auth })
    }
}

/// Each switch of a policy is what its own variable says: on where the variable is not set to a
/// text, or to `1` or `true`; off where it is set to `0` or `false`.
pub proof fn law_switches_come_from_their_variables(
    session_messages: EnvValue,
    runtime_user_auth: EnvValue,
    midturn_delivery: EnvValue,
    policy: RuntimeFeaturePolicy,
)
    requires
        RuntimeFeaturePolicy::configured(session_messages, runtime_user_auth, midturn_delivery)
            == Ok::<RuntimeFeaturePolicy, Seq<char>>(policy),
    ensures
        session_messages !is Present ==> policy.session_messages,
        runtime_user_auth !is Present ==> policy.runtime_user_auth,
        midturn_delivery !is Present ==> policy.midturn_delivery,
        session_messages matches EnvValue::Present(text) ==> if policy.session_messages {
            text@ == "1"@ || text@ == "true"@
        } else {
            text@ == "0"@ || text@ == "false"@
        },
        runtime_user_auth matches EnvValue::Present(text) ==> if policy.runtime_user_auth {
            text@ == "1"@ || text@ == "true"@
        } else {
            text@ == "0"@ || text@ == "false"@
        },
        midturn_delivery matches EnvValue::Present(text) ==> if policy.midturn_delivery {
            text@ == "1"@ || text@ == "true"@
        } else {
            text@ == "0"@ || text@ == "false"@
        },
{
    lemma_switch_words_differ();
}

/// To turn one variable changes its own switch and no other.
pub proof fn law_switches_are_independent(
    session_messages: EnvValue,
    runtime_user_auth: EnvValue,
    midturn_delivery: EnvValue,
    turned: EnvValue,
)
    ensures
        ({
            let configured = |a: EnvValue, b: EnvValue, c: EnvValue|
                RuntimeFeaturePolicy::configured(a, b, c);
            let policy = configured(session_messages, runtime_user_auth, midturn_delivery);
            let first = configured(turned, runtime_user_auth, midturn_delivery);
            let second = configured(session_messages, turned, midturn_delivery);
            let third = configured(session_messages, runtime_user_auth, turned);
            &&& policy is Ok && first is Ok ==> policy->Ok_0.runtime_user_auth
                == first->Ok_0.runtime_user_auth && policy->Ok_0.midturn_delivery
                == first->Ok_0.midturn_delivery
            &&& policy is Ok && second is Ok ==> policy->Ok_0.session_messages
                == second->Ok_0.session_messages && policy->Ok_0.midturn_delivery
                == second->Ok_0.midturn_delivery
            &&& policy is Ok && third is Ok ==> policy->Ok_0.session_messages
                == third->Ok_0.session_messages && policy->Ok_0.runtime_user_auth
                == third->Ok_0.runtime_user_auth
        }),
{
}

/// The switches are read unless a variable is set to something else than the four words, and the
/// first such variable is complained of by its name.
pub proof fn law_first_wrong_switch_is_named(
    session_messages: EnvValue,
    runtime_user_auth: EnvValue,
    midturn_delivery: EnvValue,
)
    ensures
        ({
            let wrong = |value: EnvValue|
                value is Present && value->Present_0@ != "0"@ && value->Present_0@ != "1"@
                    && value->Present_0@ != "false"@ && value->Present_0@ != "true"@;
            let complaint = " must be 0, 1, false, or true"@;
            let configured = RuntimeFeaturePolicy::configured(
                session_messages,
                runtime_user_auth,
                midturn_delivery,
            );
            if wrong(session_messages) {
                configured == Err::<RuntimeFeaturePolicy, Seq<char>>(
                    "AIONUI_SESSION_MESSAGES_ENABLED"@ + complaint,
                )
            } else if wrong(runtime_user_auth) {
                configured == Err::<RuntimeFeaturePolicy, Seq<char>>(
                    "AIONUI_RUNTIME_USER_AUTH_ENABLED"@ + complaint,
                )
            } else if wrong(midturn_delivery) {
                configured == Err::<RuntimeFeaturePolicy, Seq<char>>(
                    "AIONUI_MIDTURN_DELIVERY_ENABLED"@ + complaint,
                )
            } else {
                configured is Ok
            }
        }),
{
}

/// No two identity modes have the same name.
pub proof fn law_labels_tell_modes_apart(a: IdentityMode, b: IdentityMode)
    requires
        a.label() == b.label(),
    ensures
        a == b,
{
    reveal_strlit("local");
    reveal_strlit("webui");
    reveal_strlit("aionpro");
    assert("local"@[0] != "webui"@[0]);
    assert("aionpro"@.len() == 7);
}

/// Application configuration parsed from CLI arguments.
#[derive(Debug)]
pub struct AppConfig {
    pub host: String,
    pub port: u16,
    pub data_dir: PathBuf,
    pub work_dir: PathBuf,
    pub app_version: String,
    /// Run in local embedded mode (skip authentication, use system_default_user).
    pub local: bool,
    pub identity_mode: IdentityMode,
    pub bootstrap_secret: Option<String>,
    /// Dump prompt diagnostics under `data_dir/prompt-dumps`.
    pub dump_prompts: bool,
    /// Explicitly authorize backup and rebuild for corruption-like local databases.
    pub recover_corrupted_database: bool,
}

/// The host under which a server that listens on `host` is reached from the same machine.
pub open spec fn reachable_host(host: Seq<char>) -> Seq<char> {
    if host == "0.0.0.0"@ || host == "::"@ {
        "127.0.0.1"@
    } else {
        host
    }
}

/// A host that is no wildcard is kept, and a wildcard gives the loopback address: the host that
/// comes out is never a wildcard.
pub proof fn law_reachable_hosts(host: Seq<char>)
    ensures
        host != "0.0.0.0"@ && host != "::"@ ==> reachable_host(host) == host,
        host == "0.0.0.0"@ || host == "::"@ ==> reachable_host(host) == "127.0.0.1"@,
        reachable_host(host) != "0.0.0.0"@,
        reachable_host(host) != "::"@,
        reachable_host(reachable_host(host)) == reachable_host(host),
{
    reveal_strlit("0.0.0.0");
    reveal_strlit("::");
    reveal_strlit("127.0.0.1");
    assert("127.0.0.1"@.len() != "0.0.0.0"@.len());
    assert("127.0.0.1"@.len() != "::"@.len());
}

fn push_host_and_port(prefix: &str, host: &str, port: u16) -> (text: String)
    ensures
        text@ == prefix@ + host@ + ":"@ + text::decimal(port as nat),
{
    let mut text: String = prefix.to_owned();
    text.append(host);
    text.append(":");
    text.append(text::decimal_text(port as u64).as_str());
    text
}

impl AppConfig {
    /// The identity mode that is in effect.
    pub open spec fn effective_mode(self) -> IdentityMode {
        if self.local {
            IdentityMode::Local
        } else {
            self.identity_mode
        }
    }

    /// The address that the server binds.
    pub open spec fn address(self) -> Seq<char> {
        self.host@ + ":"@ + text::decimal(self.port as nat)
    }

    /// The URL under which the server is called from the same machine.
    pub open spec fn base_url(self) -> Seq<char> {
        "http://"@ + reachable_host(self.host@) + ":"@ + text::decimal(self.port as nat)
    }

    /// The identity mode, which local embedded mode overrides.
    pub fn effective_identity_mode(&self) -> (mode: IdentityMode)
        ensures
            mode == self.effective_mode(),
            self.local ==> mode == IdentityMode::Local,
            !self.local ==> mode == self.identity_mode,
    {
        if self.local {
            IdentityMode::Local
        } else {
            self.identity_mode
        }
    }

    /// Format as `host:port` for socket binding.
    pub fn socket_addr(&self) -> (addr: String)
        ensures
            addr@ == self.address(),
            addr@ == self.host@ + ":"@ + text::decimal(self.port as nat),
    {
        let addr: String = push_host_and_port("", self.host.as_str(), self.port);
        proof {
            reveal_strlit("");
            assert(""@ =~= Seq::<char>::empty());
            assert(""@ + self.host@ =~= self.host@);
        }
        addr
    }

    /// Local URL helpers should use to call this backend from the same machine.
    pub fn local_base_url(&self) -> (url: String)
        ensures
            url@ == self.base_url(),
            self.host@ != "0.0.0.0"@ && self.host@ != "::"@ ==> url@ == "http://"@ + self.host@
                + ":"@ + text::decimal(self.port as nat),
            self.host@ == "0.0.0.0"@ || self.host@ == "::"@ ==> url@ == "http://"@
                + "127.0.0.1"@ + ":"@ + text::decimal(self.port as nat),
            url@ == "http://"@ + reachable_host(self.host@) + ":"@ + text::decimal(
                self.port as nat,
            ),
    {
        let host: &str = self.host.as_str();
        if text::same_text(host, "0.0.0.0") || text::same_text(host, "::") {
            push_host_and_port("http://", "127.0.0.1", self.port)
        } else {
            push_host_and_port("http://", host, self.port)
        }
    }

    /// Path to the SQLite database file.
    ///
    /// The separator in front of the file name is the platform's.
    pub fn database_path(&self) -> (path: PathBuf)
        ensures
            paths::is_joined(
                paths::path_bytes(path),
                paths::path_bytes(self.data_dir),
                vstd::utf8::encode_utf8(DATABASE_FILE@),
            ),
            paths::ends_in(
                paths::path_bytes(path),
                vstd::utf8::encode_utf8(DATABASE_FILE@),
            ),
            paths::ends_in(
                paths::path_bytes(path),
                vstd::utf8::encode_utf8("aionui-backend.db"@),
            ),
    {
        proof {
            reveal_strlit("aionui-backend.db");
        }
        let path: PathBuf = paths::path_join(&self.data_dir, DATABASE_FILE);
        proof {
            paths::law_path_ends_in_the_file_name(
                paths::path_bytes(path),
                paths::path_bytes(self.data_dir),
                vstd::utf8::encode_utf8(DATABASE_FILE@),
            );
        }
        path
    }
}

impl Clone for AppConfig {
    fn clone(&self) -> (copy: Self)
        ensures
            copy.host == self.host,
            copy.port == self.port,
            paths::path_bytes(copy.data_dir) == paths::path_bytes(self.data_dir),
            paths::path_bytes(copy.work_dir) == paths::path_bytes(self.work_dir),
            copy.app_version == self.app_version,
            copy.local == self.local,
            copy.identity_mode == self.identity_mode,
            copy.bootstrap_secret == self.bootstrap_secret,
            copy.dump_prompts == self.dump_prompts,
            copy.recover_corrupted_database == self.recover_corrupted_database,
    {
        AppConfig {
            host: self.host.clone(),
            port: self.port,
            data_dir: self.data_dir.clone(),
            work_dir: self.work_dir.clone(),
            app_version: self.app_version.clone(),
            local: self.local,
            identity_mode: self.identity_mode,
            bootstrap_secret: match &self.bootstrap_secret {
                Some(secret) => Some(secret.clone()),
                None => None,
            },
            dump_prompts: self.dump_prompts,
            recover_corrupted_database: self.recover_corrupted_database,
        }
    }
}

impl Default for AppConfig {
    fn default() -> (config: Self)
        ensures
            config.host@ == DEFAULT_HOST@,
            config.host@ == "127.0.0.1"@,
            config.port == DEFAULT_PORT,
            config.port == 25808,
            paths::path_bytes(config.data_dir) == vstd::utf8::encode_utf8("data"@),
            paths::path_bytes(config.work_dir) == vstd::utf8::encode_utf8("data"@),
            paths::path_bytes(config.data_dir) == vstd::utf8::encode_utf8(DEFAULT_DIRECTORY@),
            paths::path_bytes(config.work_dir) == vstd::utf8::encode_utf8(DEFAULT_DIRECTORY@),
            config.app_version@ == PACKAGE_VERSION@,
            !config.local,
            config.identity_mode == IdentityMode::WebUi,
            config.bootstrap_secret is None,
            !config.dump_prompts,
            !config.recover_corrupted_database,
    {
        AppConfig {
            host: DEFAULT_HOST.to_owned(),
            port: DEFAULT_PORT,
            data_dir: paths::path_from(DEFAULT_DIRECTORY),
            work_dir: paths::path_from(DEFAULT_DIRECTORY),
            app_version: PACKAGE_VERSION.to_owned(),
            local: false,
            identity_mode: IdentityMode::WebUi,
            bootstrap_secret: None,
            dump_prompts: false,
            recover_corrupted_database: false,
        }
    }
}

/// The bytes whose digest is the storage encryption key.
pub open spec fn key_material(secret: Seq<char>) -> Seq<u8> {
    vstd::utf8::encode_utf8(ENCRYPTION_KEY_PREFIX@) + vstd::utf8::encode_utf8(secret)
}

/// Puts together the bytes whose digest is the storage encryption key.
pub fn encryption_key_material(secret: &str) -> (material: Vec<u8>)
    ensures
        material@ == key_material(secret@),
{
    let mut material: Vec<u8> = Vec::new();
    material.extend_from_slice(ENCRYPTION_KEY_PREFIX.as_bytes());
    material.extend_from_slice(secret.as_bytes());
    assert(material@ =~= key_material(secret@));
    material
}

/// Derives a 32-byte encryption key from the storage-encryption secret using SHA-256.
pub fn derive_encryption_key(secret: &str) -> (key: [u8; 32])
    ensures
        key@ == digest::sha256(key_material(secret@)),
        key@ == digest::sha256(
            vstd::utf8::encode_utf8("aionui-encryption-key:"@) + vstd::utf8::encode_utf8(secret@),
        ),
{
    digest::sha256_digest(encryption_key_material(secret).as_slice())
}

/// No two secrets are digested as the same bytes.
pub proof fn law_key_material_tells_secrets_apart(a: Seq<char>, b: Seq<char>)
    requires
        key_material(a) == key_material(b),
    ensures
        a == b,
{
    let prefix = vstd::utf8::encode_utf8(ENCRYPTION_KEY_PREFIX@);
    let left = vstd::utf8::encode_utf8(a);
    let right = vstd::utf8::encode_utf8(b);
    assert(key_material(a).skip(prefix.len() as int) =~= left);
    assert(key_material(b).skip(prefix.len() as int) =~= right);
    vstd::utf8::encode_utf8_decode_utf8(a);
    vstd::utf8::encode_utf8_decode_utf8(b);
}

/// What is digested is the fixed prefix and, behind it, the secret, and nothing else.
pub proof fn law_key_material_is_prefix_and_secret(secret: Seq<char>)
    ensures
        ({
            let prefix = vstd::utf8::encode_utf8("aionui-encryption-key:"@);
            let material = key_material(secret);
            &&& material.len() == prefix.len() + vstd::utf8::encode_utf8(secret).len()
            &&& material.take(prefix.len() as int) == prefix
            &&& material.skip(prefix.len() as int) == vstd::utf8::encode_utf8(secret)
        }),
{
    let prefix = vstd::utf8::encode_utf8("aionui-encryption-key:"@);
    assert(key_material(secret).take(prefix.len() as int) =~= prefix);
    assert(key_material(secret).skip(prefix.len() as int) =~= vstd::utf8::encode_utf8(secret));
}

/// Local embedded mode is in effect exactly where it is asked for or configured; else the configured
/// mode is.
pub proof fn law_local_mode_overrides(config: AppConfig)
    ensures
        config.effective_mode() is Local <==> config.local || config.identity_mode is Local,
        !config.local ==> config.effective_mode() == config.identity_mode,
{
}

/// The address is the host, a colon and the digits of the port.
pub proof fn law_address_is_host_and_port(config: AppConfig)
    ensures
        ({
            let host = config.host@;
            let address = config.address();
            let digits = address.skip(host.len() as int + 1);
            &&& address.len() > host.len() + 1
            &&& address.take(host.len() as int) == host
            &&& address[host.len() as int] == ':'
            &&& forall|i: int|
                0 <= i < digits.len() ==> '0' <= #[trigger] digits[i] && digits[i] <= '9'
            &&& digits.len() > 1 ==> digits[0] != '0'
            &&& text::decimal_value(digits) == config.port
        }),
{
    reveal_strlit(":");
    let host = config.host@;
    let port = text::decimal(config.port as nat);
    let address = config.address();
    text::law_decimal_reads_back(config.port as nat);
    text::law_decimal_has_no_leading_zero(config.port as nat);
    assert(address.take(host.len() as int) =~= host);
    assert(address.skip(host.len() as int + 1) =~= port);
    assert(forall|i: int| 0 <= i < port.len() ==> text::is_digit(#[trigger] port[i]));
}

/// The URL names the address of the server itself, unless the server listens on a wildcard; then it
/// names the same port of the loopback address.
pub proof fn law_base_url_reaches_the_server(config: AppConfig, loopback: AppConfig)
    requires
        loopback.host@ == "127.0.0.1"@,
        loopback.port == config.port,
    ensures
        config.host@ != "0.0.0.0"@ && config.host@ != "::"@ ==> config.base_url() == "http://"@
            + config.address(),
        config.host@ == "0.0.0.0"@ || config.host@ == "::"@ ==> config.base_url() == "http://"@
            + loopback.address(),
        loopback.base_url() == "http://"@ + loopback.address(),
{
    law_reachable_hosts(config.host@);
    law_reachable_hosts(loopback.host@);
    reveal_strlit("0.0.0.0");
    reveal_strlit("::");
    reveal_strlit("127.0.0.1");
    assert("127.0.0.1"@.len() != "0.0.0.0"@.len());
    assert("127.0.0.1"@.len() != "::"@.len());
    assert(config.base_url() =~= "http://"@ + (reachable_host(config.host@) + ":"@
        + text::decimal(config.port as nat)));
    assert(loopback.base_url() =~= "http://"@ + loopback.address());
}

} // verus!
