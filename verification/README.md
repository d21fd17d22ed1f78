# myaitoimg

The logic of a node-based image generation workbench (OpenAI Images API,
Gemini and OpenAI-compatible relays), written in Verus.

- `src/` is the verified library:
  - `validation` checks a generation request and picks the protocol;
  - `prompt` builds the prompt text;
  - `requests` builds what goes out: authentication header, JSON bodies,
    multipart fields and uploads, Gemini URL and body;
  - `responses` reads images out of the services' JSON replies and words
    their errors;
  - `files` decodes a displayed image back into bytes and names saved files;
  - `json` is the JSON model the builders fill and the parsers read;
  - `text` holds string operations with contracts over `Seq<char>`;
  - `outside` holds the calls into base64, reqwest/http and the clock, with
    the contracts the library relies on;
  - `laws` states and proves properties that span several functions.
- `app/` is the desktop shell: Tauri commands, HTTP, files and processes.
- `tests/` runs the library on concrete values.
