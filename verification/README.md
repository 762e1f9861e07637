# nando_kernel

The operator kernel of Nando: typed operator structures, their canonical JSON
encodings and SHA-256 identities, bounded response-program contracts, protocol
modes, structural extraction of payloads, relation routing ids and bound
protocol actions. Every check fails closed. Every function of the library is
stated by a contract; the library's own functions are proved with Verus,
and the few calls it makes into SHA-256, JSON parsing and Unicode tables go
through small trusted wrappers whose contracts say what those calls give.

## Layout

- `src/` — the verified library.
  - `text`, `scan`, `json`, `digest`: UTF-8 text, ordered sequences, the
    canonical JSON writer (compact, members in key order) and the SHA-256
    hex digest behind every root.
  - `program`, `selector_rules`, `program_rules`, `program_json`,
    `static_text`: response programs, their selectors and the rules that
    bound and privacy-check them.
  - `canonical_operator_ir`, `effect_law`, `program_semantic_class`,
    `operator_generation`, `protocol_mode`, `executable_protocol_mode`,
    `runtime_phase_control`, `multi_source`: sealed artifacts, each with the
    root it is identified by and a validator that accepts exactly the sealed
    values.
  - `structural_context`, `structural_walk`, `structural_projection`:
    extraction of a payload's structural surface under a budget, and its
    canonical projection.
  - `relation_routing`: phase, routing and hidden wave atom ids of relation
    frames.
  - `bound_protocol_action`, `bound_protocol_program`: binding a protocol
    mode to a physical action and compiling it to a bounded program.
- `tests/` — tests of the library on concrete values.
- `app/` — the serde edges: decoding canonical bytes, serde's selector text,
  `serde_json::Value` payloads and the serde form of SHA-256 commitments.

The phase atom id of each individual atom is an input of the routing
functions, given in the order of the frame's atoms; the routing functions
state what they compute from those ids.
