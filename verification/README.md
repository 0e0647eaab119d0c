# imggen

The verified core of ImgGen, an image-generation workbench that talks to
OpenAI-compatible image APIs and offers its functions as an MCP stdio server.

- `src/` is the library, verified with Verus:
  - `text.rs`: whitespace, trimming, ASCII case folding, decimal rendering,
    stated over the `Seq<char>` view of strings;
  - `storage.rs`: provider settings, generated-image history, image file
    names, the paths of the data directory, and the step functions that
    order the file operations of storing and deleting images (including
    putting things back when one fails);
  - `api.rs`: endpoint URLs, image and model requests, response handling and
    error messages of the image API;
  - `mcp.rs`: the MCP tools' requests, their changes to the settings and
    what they answer;
  - `workbench.rs`: the decisions behind the desktop workbench's provider
    list, model fetching, generation checks, quantity field, history
    entries and status line;
  - `laws.rs`: properties across these operations.
- `app/` is the program around it: the data directory on disk (lock, JSON
  and image files, each operation performed as the library's step functions
  direct), the HTTP exchanges and the MCP server (`--mcp`).
- `tests/` exercises the library on concrete values.
