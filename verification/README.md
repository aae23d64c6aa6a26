# blixard-core

The core of a cluster manager for micro-VMs: the replicated state machine
behind the consensus log, resource accounting and admission of VMs, per-tenant
quotas, role-based access control, automatic remediation, and the batching and
routing of consensus traffic. The library is written in Verus, and Verus proves
the contract of every function in `src/` with one exception: the few functions
marked `#[verifier::external_body]` that call outside crates or std (the
clock, random numbers, identifiers, hashing, the protobuf encoding of
consensus messages). Their contracts are taken on trust, and each one's doc
comment says what it claims of the call.

## Layout

- `src/` — the verified library.
  - State: `state_machine` (the replicated tables and what each committed
    proposal does to them), `tables` (keyed tables seen as maps), `snapshot`,
    `proposals`, `types`, `storage` and `codec` (log storage decisions and the
    byte formats of entries and consensus state), `membership`, `consensus`.
  - Resources: `resource_management` (node and cluster accounting),
    `admission`, `quotas`, `resource_manager` (shared types), `memory_manager`,
    `cpu_manager` and `cpu_cores`, `factory`, `composite` and
    `composite_allocations`, `migration` and `migration_wrapper`,
    `resource_monitor`, `system_metrics` (parsing of kernel resource files).
  - Operations: `remediation` and `remediation_raft`, `rbac`, `batching`,
    `priority_batching`, `message_processing`, `messages`.
  - Support: `clock` and `ids` (time and identifiers from outside crates),
    `decimal`, `text`, `text_fields`, `error`.
- `app/` — the runtime around the library: the consensus node, its redb
  storage and its event loop, serde and bincode encodings, asynchronous loops, reading of kernel
  files, measurements in floating point, and worked examples.
- `tests/` — tests of the library on concrete values.

The tables are kept as vectors of entries with no key twice, seen as maps from
key to entry. The library holds them in memory; `app/redb_storage.rs` keeps
the consensus log, the hard and configuration state and the encoded tables in
a redb database, with the library's byte formats and its rules for what is
read back (`codec`, `storage`).

The contracts speak of mathematical views of the data (sequences, maps and
integers); laws that relate several operations, such as a snapshot restoring
the tables it was taken from, are public proof functions next to the code they
are about.
