//! Runtime configuration of the server and how it is resolved.

use crate::document::{has_key, lemma_lookup_finds_keys, lookup, parse_document, parsed_view, toml_parse, Document, Entries, Value, ValueView};
use vstd::prelude::*;

verus! {

/// Mathematical model of a [`ServerConfig`].
pub struct ServerConfigView {
    pub address: Seq<char>,
    pub database: Seq<char>,
    pub microcontroller_count: u16,
    pub sensors_per_microcontroller: u8,
}

/// Fully populated server configuration.
///
/// Every field always holds a value: the built-in default or an override.
#[derive(Debug, Clone, PartialEq, Eq)]
pub struct ServerConfig {
    /// Network bind address, `host:port`.
    pub address: String,
    /// Database locator in connection-string form.
    pub database: String,
    /// Number of microcontrollers in the fleet.
    pub microcontroller_count: u16,
    /// Number of sensors attached to each microcontroller.
    pub sensors_per_microcontroller: u8,
}

impl View for ServerConfig {
    type V = ServerConfigView;

    open spec fn view(&self) -> ServerConfigView {
        ServerConfigView {
            address: self.address@,
            database: self.database@,
            microcontroller_count: self.microcontroller_count,
            sensors_per_microcontroller: self.sensors_per_microcontroller,
        }
    }
}

/// The built-in configuration, used wherever nothing overrides it.
pub open spec fn default_config() -> ServerConfigView {
    ServerConfigView {
        address: "127.0.0.1:3000"@,
        database: "sqlite:w_orchid.db"@,
        microcontroller_count: 1,
        sensors_per_microcontroller: 2,
    }
}

/// Why no configuration could be resolved.
#[derive(Clone, Debug, PartialEq, Eq)]
pub enum ConfigError {
    /// The configuration file exists but could not be read.
    Io,
    /// The configuration file is not a well-formed document; the parser's
    /// diagnostic is attached.
    Parse(String),
    /// A count in the document does not fit the width of its field.
    OutOfRange,
}

/// Mathematical model of a [`ConfigError`].
pub enum ConfigErrorView {
    Io,
    Parse(Seq<char>),
    OutOfRange,
}

impl View for ConfigError {
    type V = ConfigErrorView;

    open spec fn view(&self) -> ConfigErrorView {
        match *self {
            ConfigError::Io => ConfigErrorView::Io,
            ConfigError::Parse(diagnostic) => ConfigErrorView::Parse(diagnostic@),
            ConfigError::OutOfRange => ConfigErrorView::OutOfRange,
        }
    }
}

/// What the caller found at the path of the configuration file.
#[derive(Clone, Debug, PartialEq, Eq)]
pub enum ConfigSource {
    /// No file exists there.
    Missing,
    /// A file exists but could not be read.
    Unreadable,
    /// The full contents of the file.
    Text(String),
}

/// Mathematical model of a [`ConfigSource`].
pub enum ConfigSourceView {
    Missing,
    Unreadable,
    Text(Seq<char>),
}

impl View for ConfigSource {
    type V = ConfigSourceView;

    open spec fn view(&self) -> ConfigSourceView {
        match *self {
            ConfigSource::Missing => ConfigSourceView::Missing,
            ConfigSource::Unreadable => ConfigSourceView::Unreadable,
            ConfigSource::Text(text) => ConfigSourceView::Text(text@),
        }
    }
}

/// Where the configuration file is looked for unless the caller names one.
pub const DEFAULT_CONFIG: &'static str = "config.toml";

/// Key of the network bind address, a string.
pub const ADDRESS: &'static str = "address";

/// Key of the database locator, a string.
pub const DATABASE: &'static str = "database";

/// Key of the number of microcontrollers, an integer.
pub const MICROCONTROLLER_COUNT: &'static str = "microcontroller_count";

/// Key of the number of sensors per microcontroller, an integer.
pub const SENSORS_PER_MICROCONTROLLER: &'static str = "sensors_per_microcontroller";

/// The string that a document gives for `key`; `default` where the key is
/// missing or its value is no string.
pub open spec fn text_or(entries: Entries, key: Seq<char>, default: Seq<char>) -> Seq<char> {
    match lookup(entries, key) {
        Some(ValueView::Text(text)) => text,
        _ => default,
    }
}

/// The count that a document gives for `key`, which has to lie between zero
/// and `max`; `default` where the key is missing or its value is no integer;
/// `None` where the value is an integer outside that range.
pub open spec fn count_or(entries: Entries, key: Seq<char>, default: int, max: int) -> Option<int> {
    match lookup(entries, key) {
        Some(ValueView::Integer(number)) => if 0 <= number <= max {
            Some(number as int)
        } else {
            None
        },
        _ => Some(default),
    }
}

/// The configuration that a document resolves to: the built-in one, with
/// each field overridden by what the document gives for its key.
pub open spec fn resolve(entries: Entries) -> Result<ServerConfigView, ConfigErrorView> {
    let default = default_config();
    let microcontroller_count = count_or(
        entries,
        MICROCONTROLLER_COUNT@,
        default.microcontroller_count as int,
        u16::MAX as int,
    );
    let sensors_per_microcontroller = count_or(
        entries,
        SENSORS_PER_MICROCONTROLLER@,
        default.sensors_per_microcontroller as int,
        u8::MAX as int,
    );
    match (microcontroller_count, sensors_per_microcontroller) {
        (Some(microcontrollers), Some(sensors)) => Ok(
            ServerConfigView {
                address: text_or(entries, ADDRESS@, default.address),
                database: text_or(entries, DATABASE@, default.database),
                microcontroller_count: microcontrollers as u16,
                sensors_per_microcontroller: sensors as u8,
            },
        ),
        _ => Err(ConfigErrorView::OutOfRange),
    }
}

/// The configuration that a parser result resolves to. A malformed document
/// resolves to no configuration at all.
pub open spec fn resolve_parsed(parsed: Result<Entries, Seq<char>>) -> Result<
    ServerConfigView,
    ConfigErrorView,
> {
    match parsed {
        Ok(entries) => resolve(entries),
        Err(diagnostic) => Err(ConfigErrorView::Parse(diagnostic)),
    }
}

/// The configuration that resolution arrives at, given what was found at the
/// path of the configuration file.
pub open spec fn resolve_source(source: ConfigSourceView) -> Result<
    ServerConfigView,
    ConfigErrorView,
> {
    match source {
        ConfigSourceView::Missing => Ok(default_config()),
        ConfigSourceView::Unreadable => Err(ConfigErrorView::Io),
        ConfigSourceView::Text(text) => resolve_parsed(toml_parse(text)),
    }
}

/// Model of the result of a resolution.
pub open spec fn resolved_view(resolved: Result<ServerConfig, ConfigError>) -> Result<
    ServerConfigView,
    ConfigErrorView,
> {
    match resolved {
        Ok(config) => Ok(config@),
        Err(error) => Err(error@),
    }
}

/// The string under `key`, or `default`.
fn text_field(document: &Document, key: &str, default: String) -> (text: String)
    ensures
        text@ == text_or(document@, key@, default@),
{
    match document.get(key) {
        Some(Value::Text(text)) => text.clone(),
        _ => default,
    }
}

/// The integer under `key` where it lies between zero and `max`, or
/// `default` where there is no integer.
fn count_field(document: &Document, key: &str, default: u16, max: u16) -> (count: Option<u16>)
    requires
        default <= max,
    ensures
        count_or(document@, key@, default as int, max as int) == match count {
            Some(count) => Some(count as int),
            None => None,
        },
        count matches Some(count) ==> count <= max,
{
    match document.get(key) {
        Some(Value::Integer(number)) => {
            if 0 <= *number && *number <= max as i64 {
                Some(*number as u16)
            } else {
                None
            }
        },
        _ => Some(default),
    }
}

impl ServerConfig {
    /// Returns the built-in configuration.
    pub fn default() -> (config: ServerConfig)
        ensures
            config@ == default_config(),
    {
        ServerConfig {
            address: "127.0.0.1:3000".to_owned(),
            database: "sqlite:w_orchid.db".to_owned(),
            microcontroller_count: 1,
            sensors_per_microcontroller: 2,
        }
    }

    /// Resolves the configuration from what was found at the path of the
    /// configuration file.
    ///
    /// Without a file the built-in configuration is used as it is. A file
    /// that cannot be read, or that holds no well-formed document, is an
    /// error. Otherwise the document is laid over the built-in configuration
    /// as [`ServerConfig::from_document`] does.
    pub fn new(source: &ConfigSource) -> (resolved: Result<ServerConfig, ConfigError>)
        ensures
            resolved_view(resolved) == resolve_source(source@),
    {
        match source {
            ConfigSource::Missing => Ok(ServerConfig::default()),
            ConfigSource::Unreadable => Err(ConfigError::Io),
            ConfigSource::Text(text) => ServerConfig::parse(text.as_str()),
        }
    }

    /// Resolves the configuration from the text of a configuration document.
    pub fn parse(text: &str) -> (resolved: Result<ServerConfig, ConfigError>)
        ensures
            resolved_view(resolved) == resolve_parsed(toml_parse(text@)),
    {
        ServerConfig::from_parsed(parse_document(text))
    }

    /// Resolves the configuration from what the parser made of a document.
    pub fn from_parsed(parsed: Result<Document, String>) -> (resolved: Result<
        ServerConfig,
        ConfigError,
    >)
        ensures
            resolved_view(resolved) == resolve_parsed(parsed_view(parsed)),
    {
        match parsed {
            Ok(document) => ServerConfig::from_document(&document),
            Err(diagnostic) => Err(ConfigError::Parse(diagnostic)),
        }
    }

    /// Lays a document over the built-in configuration, key by key.
    ///
    /// A key that is missing, or whose value has another type than its field,
    /// leaves the field at its default; keys that no field belongs to are
    /// ignored. A count that does not fit its field is an error.
    pub fn from_document(document: &Document) -> (resolved: Result<ServerConfig, ConfigError>)
        ensures
            resolved_view(resolved) == resolve(document@),
    {
        let default = ServerConfig::default();
        let microcontroller_count = count_field(
            document,
            MICROCONTROLLER_COUNT,
            default.microcontroller_count,
            u16::MAX,
        );
        let sensors_per_microcontroller = count_field(
            document,
            SENSORS_PER_MICROCONTROLLER,
            default.sensors_per_microcontroller as u16,
            u8::MAX as u16,
        );
        match (microcontroller_count, sensors_per_microcontroller) {
            (Some(microcontrollers), Some(sensors)) => Ok(
                ServerConfig {
                    address: text_field(document, ADDRESS, default.address),
                    database: text_field(document, DATABASE, default.database),
                    microcontroller_count: microcontrollers,
                    sensors_per_microcontroller: sensors as u8,
                },
            ),
            _ => Err(ConfigError::OutOfRange),
        }
    }
}

/// Whether every count that the document gives lies within the width of its
/// field.
pub open spec fn counts_fit(entries: Entries) -> bool {
    &&& lookup(entries, MICROCONTROLLER_COUNT@) matches Some(ValueView::Integer(number))
        ==> 0 <= number <= u16::MAX
    &&& lookup(entries, SENSORS_PER_MICROCONTROLLER@) matches Some(ValueView::Integer(number))
        ==> 0 <= number <= u8::MAX
}

/// Resolution of a document fails exactly where a count does not fit its
/// field, and then with [`ConfigError::OutOfRange`].
pub proof fn lemma_resolves_unless_out_of_range(entries: Entries)
    ensures
        resolve(entries) is Ok <==> counts_fit(entries),
        resolve(entries) is Err ==> resolve(entries) == Err::<ServerConfigView, _>(
            ConfigErrorView::OutOfRange,
        ),
{
}

/// A key that the document does not have leaves its field at the built-in
/// default, whatever else the document holds.
pub proof fn lemma_missing_key_keeps_default(entries: Entries)
    ensures
        resolve(entries) matches Ok(config) ==> {
            &&& !has_key(entries, ADDRESS@) ==> config.address == default_config().address
            &&& !has_key(entries, DATABASE@) ==> config.database == default_config().database
            &&& !has_key(entries, MICROCONTROLLER_COUNT@) ==> config.microcontroller_count
                == default_config().microcontroller_count
            &&& !has_key(entries, SENSORS_PER_MICROCONTROLLER@)
                ==> config.sensors_per_microcontroller
                == default_config().sensors_per_microcontroller
        },
{
    lemma_lookup_finds_keys(entries, ADDRESS@);
    lemma_lookup_finds_keys(entries, DATABASE@);
    lemma_lookup_finds_keys(entries, MICROCONTROLLER_COUNT@);
    lemma_lookup_finds_keys(entries, SENSORS_PER_MICROCONTROLLER@);
}

/// Whether the document gives, under `key`, a value that is no string.
pub open spec fn holds_no_string(entries: Entries, key: Seq<char>) -> bool {
    match lookup(entries, key) {
        Some(ValueView::Text(_)) | None => false,
        Some(_) => true,
    }
}

/// Whether the document gives, under `key`, a value that is no integer.
pub open spec fn holds_no_integer(entries: Entries, key: Seq<char>) -> bool {
    match lookup(entries, key) {
        Some(ValueView::Integer(_)) | None => false,
        Some(_) => true,
    }
}

/// A key whose value has another type than its field leaves the field at the
/// built-in default, and resolution succeeds all the same: a string is asked
/// for under `address` and `database`, an integer under the two counts.
///
/// A count elsewhere in the document that does not fit its field still fails
/// the resolution, so such documents are left out.
pub proof fn lemma_mistyped_key_keeps_default(entries: Entries)
    requires
        counts_fit(entries),
    ensures
        resolve(entries) is Ok,
        resolve(entries) matches Ok(config) ==> {
            &&& holds_no_string(entries, ADDRESS@) ==> config.address == default_config().address
            &&& holds_no_string(entries, DATABASE@) ==> config.database
                == default_config().database
            &&& holds_no_integer(entries, MICROCONTROLLER_COUNT@) ==> config.microcontroller_count
                == default_config().microcontroller_count
            &&& holds_no_integer(entries, SENSORS_PER_MICROCONTROLLER@)
                ==> config.sensors_per_microcontroller
                == default_config().sensors_per_microcontroller
        },
{
}

/// Each field is resolved from the value under its own key alone: two
/// documents that agree on a key agree on its field.
pub proof fn lemma_fields_resolve_independently(first: Entries, second: Entries)
    ensures
        resolve(first) matches Ok(a) ==> resolve(second) matches Ok(b) ==> {
            &&& lookup(first, ADDRESS@) == lookup(second, ADDRESS@) ==> a.address == b.address
            &&& lookup(first, DATABASE@) == lookup(second, DATABASE@) ==> a.database == b.database
            &&& lookup(first, MICROCONTROLLER_COUNT@) == lookup(second, MICROCONTROLLER_COUNT@)
                ==> a.microcontroller_count == b.microcontroller_count
            &&& lookup(first, SENSORS_PER_MICROCONTROLLER@) == lookup(
                second,
                SENSORS_PER_MICROCONTROLLER@,
            ) ==> a.sensors_per_microcontroller == b.sensors_per_microcontroller
        },
{
}

/// A value of the right type under a key becomes the value of its field.
pub proof fn lemma_given_value_overrides(entries: Entries)
    ensures
        resolve(entries) matches Ok(config) ==> {
            &&& lookup(entries, ADDRESS@) matches Some(ValueView::Text(text)) ==> config.address
                == text
            &&& lookup(entries, DATABASE@) matches Some(ValueView::Text(text)) ==> config.database
                == text
            &&& lookup(entries, MICROCONTROLLER_COUNT@) matches Some(ValueView::Integer(number))
                ==> config.microcontroller_count == number
            &&& lookup(entries, SENSORS_PER_MICROCONTROLLER@) matches Some(
                ValueView::Integer(number),
            ) ==> config.sensors_per_microcontroller == number
        },
{
}

/// A malformed document resolves to a parse error that carries the parser's
/// diagnostic, and to no configuration; without a file, resolution gives the
/// built-in configuration.
pub proof fn lemma_malformed_or_missing(diagnostic: Seq<char>)
    ensures
        resolve_parsed(Err(diagnostic)) == Err::<ServerConfigView, _>(
            ConfigErrorView::Parse(diagnostic),
        ),
        resolve_source(ConfigSourceView::Missing) == Ok::<_, ConfigErrorView>(default_config()),
        resolve_source(ConfigSourceView::Unreadable) == Err::<ServerConfigView, _>(
            ConfigErrorView::Io,
        ),
{
}

} // verus!
