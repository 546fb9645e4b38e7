# ravrosr

Avro serialization, Confluent Schema Registry support and Kafka producing for
R. The logic is a Verus-verified library; the R-facing functions, the HTTP and
Kafka calls and the Avro codec calls stand around it.

## Layout

- `src/` — the verified library
  - `r_value.rs` — the model of R objects: what R hands over (`RInput`, with
    extendr's scalar readings) and what R is asked to build (`ROutput`)
  - `avro.rs` — the model of Avro schemas (`AvroSchema`) and values (`AvroDatum`)
  - `convert.rs` — `robj_to_avro` and `avro_to_robj`, specified by `to_datum`
    and `datum_to_r`, with the exact texts of their errors
  - `laws.rs` — the conversions' laws: converted values are values of the
    schema, they convert back, and R data in the type mapping round-trips
  - `wire.rs` — the Confluent wire format (`0x00`, big-endian schema id, Avro
    encoding), framing and splitting, and their laws
  - `schema.rs` — schema texts parsed by apache-avro, and the model of the
    parsed schema
  - `registry.rs` — `SrClient` (settings and what they were built from, Basic
    authorization header), the registry addresses, the schema lookup and the
    decisions on the registry's answers
  - `kafka.rs` — the librdkafka configuration built from an R list, the
    flush timeout
  - `text.rs` — decimal text of numbers
- `tests/` — the library's tests, with apache-avro, rdkafka and base64 linked
- `app/` — the R module (extendr): reading and building R objects, the Avro
  value codec of apache-avro, registry HTTP calls, the Kafka producer
