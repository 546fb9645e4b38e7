//! Avro data exchange between R and Confluent Schema Registry / Kafka:
//! schema-directed conversion of R data to Avro values and back, the
//! Confluent wire format, registry client settings and Kafka producer
//! configuration.
use vstd::prelude::*;

pub mod avro;
pub mod r_value;
pub mod convert;
pub mod laws;
pub mod wire;
pub mod text;
pub mod registry;
pub mod kafka;
pub mod schema;

verus! {

} // verus!
