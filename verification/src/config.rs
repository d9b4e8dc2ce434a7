//! Server-wide settings: endpoints, limits, keywords of the HTTP interface,
//! the sigils that prefix stored keys, and the configuration that the server
//! is started with and keeps in its core.

use crate::errors::{ImmuxError, ImmuxResult};
use crate::storage::kv::KeyValueEngine;
use crate::storage::kv_core::ImmuxDBCore;
use vstd::prelude::*;
use vstd::utf8::encode_utf8;
use vstd::std_specs::convert::TryFromSpecImpl;

verus! {

pub const IMMUXDB_VERSION: u32 = 1;

pub const UNICUS_ENDPOINT: &'static str = "127.0.0.1:1991";
pub const MONGO_ENDPOINT: &'static str = "127.0.0.1:27017";
pub const MYSQL_ENDPOINT: &'static str = "127.0.0.1:3306";

pub const INSPECT_KEYWORD: &'static str = "inspect";
pub const HEIGHT_QUERY_KEYWORD: &'static str = "height";
pub const REVERT_QUERY_KEYWORD: &'static str = "revert";
pub const REVERTALL_QUERY_KEYWORD: &'static str = "revert_all";
pub const CHAIN_KEYWORD: &'static str = "chain";
pub const SELECT_CONDITION_KEYWORD: &'static str = "select";
pub const CREATE_INDEX_KEYWORD: &'static str = "index";
pub const INTERNAL_API_TARGET_ID_IDENTIFIER: &'static str = "internal_api_target_id_identifier";

pub const MULTIFIELD_SEPARATOR: &'static str = "|";

pub const DEFAULT_CHAIN_NAME: &'static str = "default";
pub const DEFAULT_PERMANENCE_PATH: &'static str = "/tmp/";

pub const INITIAL_TRANSACTION_ID_DATA: u64 = 1;

pub const DEFAULT_KV_ENGINE: KeyValueEngine = KeyValueEngine::Rocks;

pub const MAX_KVKEY_LENGTH: usize = 8 * 1024;
pub const MAX_KVVALUE_LENGTH: usize = 32 * 1024 * 1024;

pub const MAX_GROUPING_LABEL_LENGTH: usize = 128;

pub const MAX_CHAIN_NAME_LENGTH: usize = 128;

pub const MAX_PROPERTY_NAME_LENGTH: usize = 128;

pub const IS_MASTER: bool = true;
pub const MAX_MESSAGE_SIZE_BYTES: u32 = 48000000;
pub const MAX_WRITE_BATCH_SIZE: u32 = 100000;
pub const LOGICAL_SESSION_TIMEOUT_MINUTES: u32 = 30;
pub const MIN_MONGO_WIRE_VERSION: u32 = 0;
pub const MAX_MONGO_WIRE_VERSION: u32 = 7;
pub const READ_ONLY: bool = false;

pub const MAX_RECURSION: u16 = 128;

#[derive(Debug, PartialEq, Eq, Structural)]
pub enum ConfigError {
    CannotRead,
    UnexpectedCoreAnswer,
    CannotSerialize,
    CannotSet,
    CannotDeserialize,
    UnexpectedKeySigil(u8),
}

struct ImmuxDBCommandlineOptions {
    kv_engine: Option<KeyValueEngine>,
}

/// The engine the command line asks for: the in-memory engine when there
/// are more than two arguments and the first after the program name is
/// `--memory`, and none otherwise.
pub open spec fn commandline_engine(args: Seq<Seq<char>>) -> Option<KeyValueEngine> {
    if args.len() > 2 && args[1] == "--memory"@ {
        Some(KeyValueEngine::HashMap)
    } else {
        None
    }
}

/// The arguments taken as character sequences.
pub open spec fn args_view(args: Seq<String>) -> Seq<Seq<char>> {
    args.map_values(|a: String| a@)
}

fn parse_commandline_options(args: &[String]) -> (options: ImmuxDBCommandlineOptions)
    ensures
        options.kv_engine == commandline_engine(args_view(args@)),
{
    let mut options = ImmuxDBCommandlineOptions { kv_engine: None };
    if args.len() > 2 {
        let memory_flag = "--memory".to_owned();
        options.kv_engine = if args[1] == memory_flag {
            Some(KeyValueEngine::HashMap)
        } else {
            None
        };
    }
    options
}

/// The kinds of stored key, each marked by the byte its keys start with.
#[derive(Debug, Clone, Copy, PartialEq, Eq, Structural)]
pub enum KVKeySigil {
    ChainInfo,
    ChainHeight,
    GroupingInfo,
    GroupingIndexedNames,
    UnitJournal,
    HeightToInstructionRecord,
    ReverseIndexIdList,
}

/// The byte that marks each kind of key.
pub open spec fn kv_key_sigil_byte(sigil: KVKeySigil) -> u8 {
    match sigil {
        KVKeySigil::ChainInfo => 0x10,
        KVKeySigil::ChainHeight => 0x11,
        KVKeySigil::GroupingInfo => 0x20,
        KVKeySigil::GroupingIndexedNames => 0x21,
        KVKeySigil::UnitJournal => 0x30,
        KVKeySigil::HeightToInstructionRecord => 0x31,
        KVKeySigil::ReverseIndexIdList => 0xA0,
    }
}

/// The kind of key a byte marks, or the byte itself as the error when it
/// marks none.
pub open spec fn kv_key_sigil_of(u: u8) -> Result<KVKeySigil, ConfigError> {
    if u == 0x10 {
        Ok(KVKeySigil::ChainInfo)
    } else if u == 0x11 {
        Ok(KVKeySigil::ChainHeight)
    } else if u == 0x20 {
        Ok(KVKeySigil::GroupingInfo)
    } else if u == 0x21 {
        Ok(KVKeySigil::GroupingIndexedNames)
    } else if u == 0x30 {
        Ok(KVKeySigil::UnitJournal)
    } else if u == 0x31 {
        Ok(KVKeySigil::HeightToInstructionRecord)
    } else if u == 0xA0 {
        Ok(KVKeySigil::ReverseIndexIdList)
    } else {
        Err(ConfigError::UnexpectedKeySigil(u))
    }
}

impl TryFrom<u8> for KVKeySigil {
    type Error = ConfigError;

    fn try_from(u: u8) -> (res: Result<KVKeySigil, ConfigError>) {
        if u == 0x10 {
            Ok(KVKeySigil::ChainInfo)
        } else if u == 0x11 {
            Ok(KVKeySigil::ChainHeight)
        } else if u == 0x20 {
            Ok(KVKeySigil::GroupingInfo)
        } else if u == 0x21 {
            Ok(KVKeySigil::GroupingIndexedNames)
        } else if u == 0x30 {
            Ok(KVKeySigil::UnitJournal)
        } else if u == 0x31 {
            Ok(KVKeySigil::HeightToInstructionRecord)
        } else if u == 0xA0 {
            Ok(KVKeySigil::ReverseIndexIdList)
        } else {
            Err(ConfigError::UnexpectedKeySigil(u))
        }
    }
}

impl TryFromSpecImpl<u8> for KVKeySigil {
    open spec fn obeys_try_from_spec() -> bool {
        true
    }

    open spec fn try_from_spec(u: u8) -> Result<KVKeySigil, ConfigError> {
        kv_key_sigil_of(u)
    }
}

impl From<KVKeySigil> for u8 {
    fn from(sigil: KVKeySigil) -> (res: u8) {
        match sigil {
            KVKeySigil::ChainInfo => 0x10,
            KVKeySigil::ChainHeight => 0x11,
            KVKeySigil::GroupingInfo => 0x20,
            KVKeySigil::GroupingIndexedNames => 0x21,
            KVKeySigil::UnitJournal => 0x30,
            KVKeySigil::HeightToInstructionRecord => 0x31,
            KVKeySigil::ReverseIndexIdList => 0xA0,
        }
    }
}

impl vstd::std_specs::convert::FromSpecImpl<KVKeySigil> for u8 {
    open spec fn obeys_from_spec() -> bool {
        true
    }

    open spec fn from_spec(sigil: KVKeySigil) -> u8 {
        kv_key_sigil_byte(sigil)
    }
}

/// Reading back the byte that marks a kind of key gives that kind.
pub proof fn lemma_kv_key_sigil_roundtrip(sigil: KVKeySigil)
    ensures
        kv_key_sigil_of(kv_key_sigil_byte(sigil)) == Ok::<KVKeySigil, ConfigError>(sigil),
{
}

#[derive(Debug)]
pub struct ImmuxDBConfiguration {
    pub immuxdb_version: u32,
    pub engine_choice: KeyValueEngine,
    pub unicus_endpoint: String,
    pub mongo_endpoint: String,
    pub mysql_endpoint: String,
    pub data_root: String,
    pub is_master: bool,
    pub max_bson_object_size: u32,
    pub max_message_size_in_bytes: u32,
    pub max_write_batch_size: u32,
    pub logical_session_timeout_minutes: u32,
    pub min_mongo_wire_version: u32,
    pub max_mongo_wire_version: u32,
    pub read_only: bool,
}

/// The default configuration: this version, the default engine, endpoints,
/// data root and limits; all but the engine are the same in every
/// configuration compiled from arguments.
pub open spec fn is_default_configuration_but_engine(c: ImmuxDBConfiguration) -> bool {
    &&& c.immuxdb_version == IMMUXDB_VERSION
    &&& c.unicus_endpoint@ == UNICUS_ENDPOINT@
    &&& c.mongo_endpoint@ == MONGO_ENDPOINT@
    &&& c.mysql_endpoint@ == MYSQL_ENDPOINT@
    &&& c.data_root@ == DEFAULT_PERMANENCE_PATH@
    &&& c.is_master == IS_MASTER
    &&& c.max_bson_object_size == MAX_KVVALUE_LENGTH as u32
    &&& c.max_message_size_in_bytes == MAX_MESSAGE_SIZE_BYTES
    &&& c.max_write_batch_size == MAX_WRITE_BATCH_SIZE
    &&& c.logical_session_timeout_minutes == LOGICAL_SESSION_TIMEOUT_MINUTES
    &&& c.min_mongo_wire_version == MIN_MONGO_WIRE_VERSION
    &&& c.max_mongo_wire_version == MAX_MONGO_WIRE_VERSION
    &&& c.read_only == READ_ONLY
}

impl Default for ImmuxDBConfiguration {
    fn default() -> (res: Self)
        ensures
            is_default_configuration_but_engine(res),
            res.engine_choice == DEFAULT_KV_ENGINE,
    {
        Self {
            immuxdb_version: IMMUXDB_VERSION,
            engine_choice: DEFAULT_KV_ENGINE,
            unicus_endpoint: UNICUS_ENDPOINT.to_owned(),
            mongo_endpoint: MONGO_ENDPOINT.to_owned(),
            mysql_endpoint: MYSQL_ENDPOINT.to_owned(),
            data_root: DEFAULT_PERMANENCE_PATH.to_owned(),
            is_master: IS_MASTER,
            max_bson_object_size: MAX_KVVALUE_LENGTH as u32,
            max_message_size_in_bytes: MAX_MESSAGE_SIZE_BYTES,
            max_write_batch_size: MAX_WRITE_BATCH_SIZE,
            logical_session_timeout_minutes: LOGICAL_SESSION_TIMEOUT_MINUTES,
            min_mongo_wire_version: MIN_MONGO_WIRE_VERSION,
            max_mongo_wire_version: MAX_MONGO_WIRE_VERSION,
            read_only: READ_ONLY,
        }
    }
}

impl ImmuxDBConfiguration {
    /// The default configuration, with the engine the command line asks for
    /// where it asks for one.
    pub fn compile_from_args(commandline_args: &[String]) -> (config: Self)
        ensures
            is_default_configuration_but_engine(config),
            config.engine_choice == match commandline_engine(args_view(commandline_args@)) {
                Some(choice) => choice,
                None => DEFAULT_KV_ENGINE,
            },
    {
        let mut config = Self::default();
        let commandline_options = parse_commandline_options(commandline_args);
        match commandline_options.kv_engine {
            Some(choice) => {
                config.engine_choice = choice;
            },
            None => {},
        }
        config
    }
}

pub const GLOBAL_CONFIG_KEY: &'static str = "_CONFIG";

/// The key the configuration is kept under.
pub open spec fn global_config_key() -> Seq<u8> {
    encode_utf8(GLOBAL_CONFIG_KEY@)
}

/// Keeps the serialized configuration `bytes` in the core.
pub fn save_config(bytes: &[u8], core: &mut ImmuxDBCore) -> (res: ImmuxResult<()>)
    ensures
        res is Ok,
        final(core)@ == old(core)@.insert(global_config_key(), bytes@),
{
    core.set(GLOBAL_CONFIG_KEY.as_bytes(), bytes);
    Ok(())
}

/// Reads back the serialized configuration kept in the core; it fails with
/// `CannotRead` when none is kept.
pub fn load_config(core: &ImmuxDBCore) -> (res: ImmuxResult<Vec<u8>>)
    ensures
        core@.contains_key(global_config_key()) ==> (res matches Ok(v) && v@ == core@[global_config_key()]),
        !core@.contains_key(global_config_key()) ==> res matches Err(
            ImmuxError::Config(ConfigError::CannotRead),
        ),
{
    match core.get(GLOBAL_CONFIG_KEY.as_bytes()) {
        None => Err(ImmuxError::Config(ConfigError::CannotRead)),
        Some(value) => Ok(value),
    }
}

/// Loading the configuration after saving `bytes` gives `bytes`, whatever
/// else the core holds.
pub proof fn lemma_load_after_save_config(m: Map<Seq<u8>, Seq<u8>>, bytes: Seq<u8>)
    ensures
        m.insert(global_config_key(), bytes).contains_key(global_config_key()),
        m.insert(global_config_key(), bytes)[global_config_key()] == bytes,
{
}

} // verus!
