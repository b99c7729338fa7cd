//! Protocol, configuration and connection-control logic of the p2x relay,
//! verified with Verus.
pub mod address;
pub mod auth;
pub mod auth_codec;
pub mod auth_state;
pub mod availability;
pub mod builder;
pub mod bytes;
pub mod clock;
pub mod connection_book;
pub mod credential;
pub mod credential_file;
pub mod crypto;
pub mod error;
pub mod exchange_link;
pub mod frame;
pub mod hex;
pub mod identity;
pub mod ids;
pub mod lifecycle;
pub mod path_selector;
pub mod peer;
pub mod probe;
pub mod probe_stream;
pub mod proxy;
pub mod proxy_codec;
pub mod proxy_open;
pub mod proxy_owner;
pub mod proxy_stream;
pub mod registry;
pub mod registry_codec;
pub mod registry_operation;
pub mod relay_admission;
pub mod reservation;
pub mod resolve;
pub mod resolve_codec;
pub mod secret_file;
pub mod selector;
pub mod service_config;
pub mod stream_admission;
pub mod stream_handler;
pub mod streams;
pub mod table;
pub mod text;
pub mod ticket;
pub mod ticket_admission;
pub mod ticket_key;
pub mod trust;
pub mod tunnel;
pub mod upstream;
pub mod worker_finish;
pub mod workers;
pub mod yaml;
