# smart_tavern

The core of a role-play chat client with an agent-maintained world, written
in Verus: every function under `src/` carries a `requires` / `ensures`
contract, and Verus proves each body against it.

## What the library covers

- **Chat requests.** Provider routing, request bodies for the OpenAI,
  Anthropic, Gemini and DeepSeek protocols (`provider_bodies`,
  `chat_content`, `provider_routing`), the replies they send back
  (`provider_responses`), server-sent-event streams (`sse`), and the
  events of a streamed reply (`chat_stream`).
- **Attachments and uploads.** Kind detection by MIME type, name and magic
  bytes, the size limit and blob names (`attachments`), data URLs
  (`data_urls`), and what is prepared and cached before a file is uploaded
  (`file_prep`, `file_upload`).
- **Presets and lorebooks.** The built-in prompt preset and how stored
  presets are brought up to date with it (`preset_merge`), preset names
  (`preset_names`), which lorebooks a request reads (`lore_selection`), and
  how references to a deleted lorebook are removed (`worldbook_refs`).
- **The world editor.** The world model and its codecs (`world_model`,
  `codecs`), input checks and snapshots (`editor_input`, `editor_snapshot`,
  `editor_state`, `editor_operations`), validation (`world_editor`),
  commits and their rollback patches (`editor_commit`, `world_patch`), and
  world ids (`world_ids`).
- **Agent turns.** Turn and effect models with their validators
  (`turn_model`, `turn_rules`, `turn_validator`, `effect_model`,
  `effect_rules`, `effect_validator`), the timeline checks of proposed
  truths (`temporal_validator`), agent requests (`agent_requests`), and the
  request log (`log_format`, `log_listing`, `log_query`, `log_requests`).
- **Shared pieces.** JSON values (`json`), text helpers (`text`, `words`),
  fixed-point quantities (`quantity`), sampling settings (`sampling`) and
  stable ordering (`stable_order`).

Besides the contracts of single functions, the library states laws as public
proof functions named `law_*`: round trips of the codecs, that a rollback
patch restores what a commit changed, that merging a preset twice changes
nothing, that a stream announces itself first and ends exactly once, the
shape and idempotence of world-name slugs, that the timeline check of
concatenated candidate lists concatenates the reports, and others.

Calls into outside crates (`base64`, `chrono`, `serde_json`, `uuid`) and a
few std functions go through small trusted wrappers whose doc comments say
what their contracts claim.

## Layout

- `src/` – the verified library; `src/lib.rs` lists its modules.
- `tests/` – tests of the library on concrete values.
- `app/` – a small command-line front end: file I/O, serde conversions and
  the clock, around calls into the library.
