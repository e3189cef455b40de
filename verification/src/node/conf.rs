//! What a node is started with: how much it logs, and the protocol's configuration.

use vstd::prelude::*;
use vstd::string::*;
use crate::protocol::config::{
    built, unset, ProtocolConfig, ProtocolConfigBuilder, ProtocolConfigBuilderView,
};

verus! {

/// Where the configuration of a node is read from.
pub const CONF_PATH: &'static str = "./conf.toml";

/// The log level of a node that names none.
pub const CONF_LOG_LEVEL: &'static str = "info";

/// How much a node logs.
#[derive(Clone, Copy, Debug, PartialEq, Eq, Structural)]
pub enum LogLevel {
    Trace,
    Debug,
    Info,
    Warn,
    Error,
}

/// Collects what is set and fills in defaults for the rest.
pub struct NodeConfBuilder {
    log_level: Option<String>,
    protocol: ProtocolConfigBuilder,
}

/// The configuration of a node.
pub struct NodeConf {
    pub log_level: LogLevel,
    pub protocol: ProtocolConfig,
}

/// The level that a name stands for; `info` for a name that is none of
/// `trace`, `debug`, `info`, `warn` and `error`.
pub open spec fn level_of(name: Seq<char>) -> LogLevel {
    if name == "trace"@ {
        LogLevel::Trace
    } else if name == "debug"@ {
        LogLevel::Debug
    } else if name == "warn"@ {
        LogLevel::Warn
    } else if name == "error"@ {
        LogLevel::Error
    } else {
        LogLevel::Info
    }
}

impl NodeConfBuilder {
    /// The name of the log level, if one was set.
    pub closed spec fn spec_log_level(&self) -> Option<Seq<char>> {
        match self.log_level {
            Some(name) => Some(name@),
            None => None,
        }
    }

    /// The builder of the protocol's configuration.
    pub closed spec fn spec_protocol(&self) -> ProtocolConfigBuilderView {
        self.protocol@
    }

    /// A builder with nothing set.
    pub fn new() -> (builder: Self)
        ensures
            builder.spec_log_level().is_none(),
            builder.spec_protocol() == unset(),
    {
        Self { log_level: None, protocol: ProtocolConfigBuilder::new() }
    }

    /// Sets the log level by name.
    pub fn log_level(self, log_level: &str) -> (builder: Self)
        ensures
            builder.spec_log_level() == Some(log_level@),
            builder.spec_protocol() == self.spec_protocol(),
    {
        let mut builder = self;
        builder.log_level = Some(String::from_str(log_level));
        builder
    }

    /// Sets the builder of the protocol's configuration.
    pub fn protocol(self, protocol: ProtocolConfigBuilder) -> (builder: Self)
        ensures
            builder.spec_log_level() == self.spec_log_level(),
            builder.spec_protocol() == protocol@,
    {
        let mut builder = self;
        builder.protocol = protocol;
        builder
    }

    /// The configuration: the level that the name stands for, `info` where
    /// none was set, and the protocol's configuration as its builder makes it.
    pub fn build(self) -> (conf: NodeConf)
        ensures
            conf.log_level == (match self.spec_log_level() {
                Some(name) => level_of(name),
                None => LogLevel::Info,
            }),
            built(self.spec_protocol(), conf.protocol),
    {
        let log_level = match &self.log_level {
            None => LogLevel::Info,
            Some(name) => {
                if *name == String::from_str("trace") {
                    LogLevel::Trace
                } else if *name == String::from_str("debug") {
                    LogLevel::Debug
                } else if *name == String::from_str("warn") {
                    LogLevel::Warn
                } else if *name == String::from_str("error") {
                    LogLevel::Error
                } else {
                    LogLevel::Info
                }
            },
        };
        NodeConf { log_level, protocol: self.protocol.build() }
    }
}

} // verus!
