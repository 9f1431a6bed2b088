//! An MQTT broker library: packet codecs for MQTT 3.1.1 / 5.0, a streaming
//! decoder, a retained-message store with topic-filter matching and the
//! session bookkeeping of the broker.

pub mod aqua;
pub mod buffers;
pub mod concurrent_maps;
pub mod hello_mqtt_world;
pub mod mqtt;
pub mod mqtt_coder;
pub mod mqtt_decoder;
pub mod serve;
pub mod text;
pub mod timeout;

pub use aqua::connection::connack_response::{ConnackError, ConnackResponse};
pub use aqua::connection::response;
