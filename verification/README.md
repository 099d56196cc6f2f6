# bitchain

A bitchain is a JSON manifest listing, for each file, the content-addressed
blocks the file is made of and the URIs each block can be fetched from.

- `src/` is the library, verified with Verus: block naming (`digest`), block
  URIs, download sources and S3 locations (`uri`), the per-file ingest state
  machine (`ingest`), the per-block fetch state machine (`rebuild`), manifest
  schemas (`schema`), the structural check (`validate`), configuration
  decisions (`config`) and the string helpers they share (`text`).
- `app/` is the command line tool around it: arguments, configuration file,
  file system, S3 and HTTP transfers, JSON (de)serialisation.
- `tests/` exercises the library on concrete values.
