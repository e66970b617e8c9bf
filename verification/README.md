# valence

The core of a framework for Minecraft: Java Edition servers, written in Verus:
each function states what it does in `requires`/`ensures` and the verifier
proves it.

## Layout

- `src/` — the verified library.
  - `protocol`, `protocol/*` — the wire format: VarInts and VarLongs,
    big-endian integers, strings and byte arrays, angles, the nodes of the
    command graph and their parsers, the packet frame codec (compression and encryption through
    `flate2`, `aes` and `cfb8`), the byte channel between the network
    tasks and the server, and (`protocol/c2s`, `protocol/c2s_text`) the
    play packets that clients send and the events the server draws from
    them.
  - `ident`, `block_pos`, `chunk_pos`, `block`, `item`, `biome`,
    `dimension`, `particle` — identifiers, positions and game values, and
    how particles and the particle packet are written and read (real values
    held as their bit patterns).
  - `paletted_container`, `chunk` — chunk sections stored compactly,
    chunks with their change tracking, their encoding for clients, and the
    chunks of a world.
  - `component`, `chunk_store`, `key`, `retain` — item storage with
    generational IDs and component columns.
  - `entity`, `entity/*`, `entity_partition` — entity IDs and metadata
    values, and the partition of entities by chunk.
  - `command` — commands and the command graph built from them.
  - `client`, `inventory`, `player_list`, `player_textures` — what the
    server tracks per client: teleport confirmations, keepalives,
    inventories and their updates, the tab list, and player skins.
  - `aabb`, `bvh`, `rtree` — boxes on the integer grid and the decisions of
    the spatial indexes that do not depend on real coordinates.
- `tests/` — tests run against the compiled library.
- `app/` — the code around the library that is not verified: geometry with
  real coordinates (the spatial indexes, angle conversions), the hooks for
  the block table and item reader that finish a particle read from bytes,
  the byte channel shared between threads, and the JSON of player
  textures.
