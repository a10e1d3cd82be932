# blam_tags

A library for Halo tag files, written in Verus: the functions in `src/`
carry `requires` / `ensures` contracts that the verifier proves, except
for a few small functions marked `#[verifier::external_body]`. Those
call code from outside (the `bcdec_rs` block decoders, and std's UTF-8
decoding and lower-casing); their contracts are believed, not proved, and
each says in its doc comment what it claims of the call.

## Layout

- `src/` — the verified library.
  - `layout`, `data`, `fields`, `api`, `editing`, `assign`, `path`:
    the tag layout tables, the data tree, typed field readers, mutable
    handles with block and flag editing, setting a field from text (or a
    floating-point field from its `f32` bits), and `/`-separated field
    paths, read-only and mutable; an edit made through a path handle is
    put back at the place the path names and reads back through it.
  - `chunk`: the chunked on-disk form of the data tree (`tgst`, `tgbl`
    and leaf chunks), its writer, and its reader. What the reader returns
    writes back as the bytes it was read from, and every sub-chunk is
    owned by the field it was read for; a struct or block that the
    writer wrote and that agrees with the layout (`struct_readable`,
    `block_readable`) reads back whole as the same tree (`same_struct`,
    `same_block`: the same field owners and payloads at every level).
  - `file`, `dependencies`: the tag-file header, optional streams and the
    dependency-list rebuild.
  - `classic`: the Halo CE / Halo 2 loose-tag codec, its checksum, the
    file writer, and the layout check both readers rely on.
  - `bitmap`: pixel formats, block and per-pixel decoders, DDS headers.
  - `animation`: graph lookups, codec headers and the sampling plans of
    the full-frame, keyframe and curve codecs, JMA helpers.
  - `geometry`: triangle strips and BSP edge rings.
  - `biped`, `damage_effect`, `equipment`, `device`, `device_control`,
    `crate_definition`, `area_screen_effect`: the option sets of the
    object definition tags.
- `tests/` — tests on concrete values.
- `app/` — the unverified rim: reading files, parsing the text of
  floating-point fields, and the floating-point evaluation of animation
  samples and poses.
