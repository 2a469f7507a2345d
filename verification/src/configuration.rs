//! Typed settings, their layered merge, and connection descriptors.

use vstd::prelude::*;

verus! {

/// A secret value. The plain text is reachable only through
/// `expose_secret`, so nothing else can display or copy it by accident.
pub struct Secret {
    secret: String,
}

impl View for Secret {
    type V = Seq<char>;

    closed spec fn view(&self) -> Seq<char> {
        self.secret@
    }
}

impl Secret {
    /// Wrap a plain value as a secret.
    pub fn new(value: String) -> (r: Secret)
        ensures
            r@ == value@,
    {
        Secret { secret: value }
    }

    /// Read the plain value. Only the connection-establishment step is
    /// meant to call this.
    pub fn expose_secret(&self) -> (r: &String)
        ensures
            r@ == self@,
    {
        &self.secret
    }
}

/// Where the HTTP server listens.
pub struct ApplicationSettings {
    pub port: u16,
    pub host: String,
}

/// How to reach the database.
pub struct DatabaseSettings {
    pub username: String,
    pub password: Secret,
    pub port: u16,
    pub host: String,
    pub database_name: String,
    pub require_ssl: bool,
}

/// Everything the service needs at startup.
pub struct Settings {
    pub database: DatabaseSettings,
    pub application: ApplicationSettings,
}

/// How strongly a connection insists on SSL.
pub enum SslMode {
    /// SSL is mandatory.
    Require,
    /// SSL is used when the server offers it.
    Prefer,
}

/// A connection descriptor: everything the connection library needs, with
/// the database name present only when a specific database is addressed.
pub struct ConnectionOptions {
    pub host: String,
    pub port: u16,
    pub username: String,
    pub password: Secret,
    pub ssl_mode: SslMode,
    pub database: Option<String>,
}

impl DatabaseSettings {
    /// The descriptor of the server alone, no database named: what
    /// administrative work (creating a database) connects with. SSL is
    /// mandatory exactly when the settings require it, merely preferred
    /// otherwise.
    pub fn without_db(&self) -> (r: ConnectionOptions)
        ensures
            r.host@ == self.host@,
            r.port == self.port,
            r.username@ == self.username@,
            r.password@ == self.password@,
            r.ssl_mode == (if self.require_ssl {
                SslMode::Require
            } else {
                SslMode::Prefer
            }),
            r.database is None,
    {
        let ssl_mode = if self.require_ssl {
            SslMode::Require
        } else {
            SslMode::Prefer
        };
        ConnectionOptions {
            host: self.host.clone(),
            port: self.port,
            username: self.username.clone(),
            password: Secret::new(self.password.expose_secret().clone()),
            ssl_mode,
            database: None,
        }
    }

    /// The descriptor of this settings' own database: `without_db`, scoped
    /// to the configured database name. The running service connects with
    /// this one.
    pub fn with_db(&self) -> (r: ConnectionOptions)
        ensures
            r.host@ == self.host@,
            r.port == self.port,
            r.username@ == self.username@,
            r.password@ == self.password@,
            r.ssl_mode == (if self.require_ssl {
                SslMode::Require
            } else {
                SslMode::Prefer
            }),
            r.database is Some && r.database->0@ == self.database_name@,
    {
        let mut options = self.without_db();
        options.database = Some(self.database_name.clone());
        options
    }
}

/// One configuration source's contribution: each leaf the source may or may
/// not supply.
pub struct PartialSettings {
    pub db_username: Option<String>,
    pub db_password: Option<String>,
    pub db_port: Option<u16>,
    pub db_host: Option<String>,
    pub db_database_name: Option<String>,
    pub db_require_ssl: Option<bool>,
    pub app_port: Option<u16>,
    pub app_host: Option<String>,
}

/// Why startup configuration failed.
#[derive(Debug)]
pub enum ConfigError {
    /// Some required leaf was supplied by no source.
    MissingField,
}

/// The value a leaf takes under the merge: the environment's when it
/// supplies one, else the override file's, else the base file's.
pub open spec fn pick<T>(base: Option<T>, file: Option<T>, env: Option<T>) -> Option<T> {
    if env is Some {
        env
    } else if file is Some {
        file
    } else {
        base
    }
}

fn pick_opt<T>(base: Option<T>, file: Option<T>, env: Option<T>) -> (r: Option<T>)
    ensures
        r == pick(base, file, env),
{
    match env {
        Some(v) => Some(v),
        None => match file {
            Some(v) => Some(v),
            None => base,
        },
    }
}

/// Merge three configuration sources, in increasing precedence: the base
/// file, the environment-selected override file, and environment variables.
/// Every leaf takes the highest-precedence value supplied; the merge fails
/// exactly when some leaf is supplied by no source.
pub fn merge_settings(base: PartialSettings, file: PartialSettings, env: PartialSettings) -> (r:
    Result<Settings, ConfigError>)
    ensures
        r is Ok <==> {
            &&& pick(base.db_username, file.db_username, env.db_username) is Some
            &&& pick(base.db_password, file.db_password, env.db_password) is Some
            &&& pick(base.db_port, file.db_port, env.db_port) is Some
            &&& pick(base.db_host, file.db_host, env.db_host) is Some
            &&& pick(base.db_database_name, file.db_database_name, env.db_database_name) is Some
            &&& pick(base.db_require_ssl, file.db_require_ssl, env.db_require_ssl) is Some
            &&& pick(base.app_port, file.app_port, env.app_port) is Some
            &&& pick(base.app_host, file.app_host, env.app_host) is Some
        },
        r is Ok ==> {
            &&& r->Ok_0.database.username == pick(
                base.db_username,
                file.db_username,
                env.db_username,
            )->0
            &&& r->Ok_0.database.password@ == pick(
                base.db_password,
                file.db_password,
                env.db_password,
            )->0@
            &&& r->Ok_0.database.port == pick(base.db_port, file.db_port, env.db_port)->0
            &&& r->Ok_0.database.host == pick(base.db_host, file.db_host, env.db_host)->0
            &&& r->Ok_0.database.database_name == pick(
                base.db_database_name,
                file.db_database_name,
                env.db_database_name,
            )->0
            &&& r->Ok_0.database.require_ssl == pick(
                base.db_require_ssl,
                file.db_require_ssl,
                env.db_require_ssl,
            )->0
            &&& r->Ok_0.application.port == pick(base.app_port, file.app_port, env.app_port)->0
            &&& r->Ok_0.application.host == pick(base.app_host, file.app_host, env.app_host)->0
        },
        r is Err ==> r->Err_0 == ConfigError::MissingField,
{
    let db_username = pick_opt(base.db_username, file.db_username, env.db_username);
    let db_password = pick_opt(base.db_password, file.db_password, env.db_password);
    let db_port = pick_opt(base.db_port, file.db_port, env.db_port);
    let db_host = pick_opt(base.db_host, file.db_host, env.db_host);
    let db_database_name = pick_opt(
        base.db_database_name,
        file.db_database_name,
        env.db_database_name,
    );
    let db_require_ssl = pick_opt(base.db_require_ssl, file.db_require_ssl, env.db_require_ssl);
    let app_port = pick_opt(base.app_port, file.app_port, env.app_port);
    let app_host = pick_opt(base.app_host, file.app_host, env.app_host);
    if db_username.is_none() || db_password.is_none() || db_port.is_none() || db_host.is_none()
        || db_database_name.is_none() || db_require_ssl.is_none() || app_port.is_none()
        || app_host.is_none() {
        return Err(ConfigError::MissingField);
    }
    Ok(
        Settings {
            database: DatabaseSettings {
                username: db_username.unwrap(),
                password: Secret::new(db_password.unwrap()),
                port: db_port.unwrap(),
                host: db_host.unwrap(),
                database_name: db_database_name.unwrap(),
                require_ssl: db_require_ssl.unwrap(),
            },
            application: ApplicationSettings { port: app_port.unwrap(), host: app_host.unwrap() },
        },
    )
}

} // verus!
