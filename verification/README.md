# getlyricsmcp

An MCP server that finds song lyrics by guessing each lyrics site's URL from
the artist and title, keeping the guesses that resolve, and reading the lyrics
off the page.

- `src/` is the verified library (Verus): slug and URL construction
  (`sites/slug.rs`, `sites/spec.rs`), page extraction over a flattened view of
  the parsed document (`dom.rs`, `sites/scrape.rs`), SoundCloud answers
  (`json.rs`, `sites/soundcloud.rs`), ranking and routing of hits
  (`sites/registry.rs`), hit ids (`id.rs`), the hit cache (`cache.rs`) and the
  text answer of the tools (`mcp/server.rs`).
- `app/` is the process around it: HTTP requests, the SoundCloud client-id
  lookup, JSON decoding, serialization and the MCP service on stdio.
- `tests/` exercises the library on concrete pages, answers and names.
