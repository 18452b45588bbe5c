# mechanics_config

Schema types and validation helpers for mechanics-style HTTP endpoints and
job configuration, written in Verus: every function in `src/` carries a
contract that Verus proves, except the few trusted items that call into the
`http` and `url` crates and `String::push`, whose contracts state what those
crates' sources show.

- `src/endpoint/` — `HttpEndpoint` and its parts (`HttpMethod`,
  `UrlParamSpec`, `QuerySpec`, `EndpointBodyType`); structural validation and
  preparation (`validate.rs`); URL and header building (`request.rs`).
- `src/config.rs` — `MechanicsConfig`, a per-job endpoint map validated on
  construction and by `with_endpoint` and `with_endpoint_overrides`;
  `endpoints_mut` hands out the map without checks, and `validate` checks it
  again.
- `src/template.rs` — the URL-template grammar (`{slot}` placeholders), its
  parser, and percent-encoding of substituted values.
- `src/query.rs` — slotted-query resolution modes and byte-length bounds.
- `src/headers.rs` — header-name and header-value validation through the
  `http` crate; case-insensitive allowlists.
- `src/strmap.rs` — `StringMap`, an insertion-ordered map with unique keys.
- `src/error.rs` — `ConfigError`, with its kind and message.
- `src/urls.rs` — absolute-URL parsing and query serialization through the
  `url` crate.
- `app/` — the `serde` and `std` facing surface: JSON (de)serialization of the
  schema types, `HashMap` inputs and `std::io::Error` results.

Each contract states the exact result: the value built, or the first fault
found in a fixed checking order, with its message. The one part not spelled
out is what the `url` crate makes of a resolved URL (its serialization, or
the text of its parse error), which the contracts name as a function of that
URL. Laws proved about the library include the
round trip of template parsing and rendering, that substituted slot values
can only contribute unreserved characters and `%`-escapes, read-after-write
of the endpoint map, and that inserting, overriding or removing endpoints through the checked
methods keeps a valid configuration valid.
