# xplm

Datarefs for X-Plane plugins: reading and writing the simulator's data, creating
datarefs whose contents a plugin provides, and checking or converting the data on its way
through.

The crate is verified with Verus. Its functions carry contracts that Verus proves, with
two exceptions: the few wrappers marked `external_body` that call `String::from_utf8` and
`num::FromPrimitive::from_i64`, whose contracts are trusted and follow those functions'
documentation and source; and the methods of the traits that users and X-Plane's
datarefs implement (`DataRead`, `ArrayRead`, `DynamicArrayRead`, the conversions), which
state only what every implementation owes:

- `src/data.rs`: the access markers, the read and write traits for scalar, array and
  string datarefs, the conversion of integer types to and from X-Plane's C `int`, and the
  range arithmetic of partial array reads.
- `src/data/borrowed.rs`: the decisions taken when a dataref of X-Plane or of another
  plugin is looked up.
- `src/data/owned.rs`: the storage of datarefs that this plugin owns, the accessor
  callbacks that X-Plane calls on it, and the steps of creating one.
- `src/data/dynamic.rs`: datarefs whose contents a data source produces on demand.
- `src/data/typed.rs`: datarefs that convert between the X-Plane type and a Rust type.
- `src/data/validated.rs`: datarefs that check every value with a validator, and the
  ready-made numeric range validators and their combinations.
- `src/graphics.rs`: font identifiers and dimensions.

`app/` is the part that talks to X-Plane through `xplm-sys`: the dataref handles, the
`extern "C"` callbacks, drawing, and the error types with their messages. It takes every
decision from the verified crate.
