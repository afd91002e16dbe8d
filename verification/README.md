# unet_core

The core of a network configuration manager: SNMP polling and a template
system for device configurations. The library is written in Verus; each
public function carries a `requires`/`ensures` contract that Verus proves.

## Layout

- `src/snmp/` — SNMP values and types, well-known and vendor OIDs,
  session and client settings, sessions and their pool, turning device
  answers into values, the polling tasks and their scheduling decisions,
  and stand-in clients for tests.
- `src/template/` — template headers and scope matching, network filters,
  configuration parsers and slicing, template-driven slicing and
  consistency rules, validation and security checks, quality analysis,
  unit tests of templates and their reports, and dependency resolution.
- `src/stateless.rs` — settings for running without local state.
- `src/text.rs`, `src/assoc.rs`, `src/order.rs`, `src/patterns.rs`,
  `src/time.rs`, `src/ids.rs` — text building, name-keyed tables,
  orderings, the regular-expression and template-syntax calls, spans of
  time and the clock, random identifiers.
- `app/` — what runs around the library: the template environment with
  its filters, file and git loading, the polling loop and SNMP requests,
  and the serde forms of the library's types.
- `tests/` — tests of the library.

Calls into `regex`, `minijinja`, `csnmp`, `serde_json`, `uuid` and the
system clock go through small trusted wrappers whose contracts are stated
next to them.

## Tables by name

Where a table is keyed by a name (OIDs by name in `OidMap`, sessions by
address, the metadata of a `ScopeContext`, templates by identifier), it is
held as a `Vec` of name/value pairs with the functions of `src/assoc.rs`
(`lookup`, `upsert`, `remove_entry`), not as a `HashMap<String, _>`: vstd
specifies std's maps for keys such as integers, but with `String` keys the
calls verify without telling the contracts what the map holds. `OidMap`
keeps its names distinct by a type invariant, and the session pool by its
`wf`. The template lists handed to scope resolution are plain lists: two
entries may carry the same identifier, which a `HashMap` could not hold;
the laws on resolution order are stated for lists whose identifiers are
distinct. The polling task table, keyed by integer task ids, is viewed as a
`Map` from id to task and every operation on it is stated over that map;
it is held as a `Vec` with distinct ids so that scheduling walks the tasks in
one fixed order.

Configuration parsers implement the `ConfigParser` trait, whose methods are
stated over spec functions each parser defines. The slice extractor
registers parsers of the closed `VendorParser` set (Cisco, Juniper, Arista,
generic), and its contract is stated over what each of these does; a parser
of another type can implement the trait but is not registered with it.
