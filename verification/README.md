# Pocket LLaMA — verified core

`src/` is the verified library (crate `pocket_llama`):

- `conversation` — `Role`, `Message`, `ConversationManager` and the chat-template
  rendering of a conversation, with the laws of rendering.
- `memory` — the conversational memory of the offline responder (the dog's name
  the user stated, the previous prompt).
- `cli` — the terminal responder's replies, the launch mode and the reading of
  typed lines.
- `server` — the Gemini `generateContent` envelopes, their mapping onto a
  conversation, the API's offline responder and the content type of web assets.
- `generation` — the decisions of the token-generation loop.
- `guardrail` — the pre-flight RAM check.
- `error` — `PocketError`.
- `text` — character-sequence utilities (search, trimming, UTF-8 sizes).

`app/` is the program around it: argument parsing, the candle inference engine,
the axum server, the rustyline loop, the browser launch and the serde and
thiserror copies of the library's types.
