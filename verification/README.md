# zeptoclaw

The decision logic of the ZeptoClaw personal assistant, written in Verus and
proved against its contracts, with a thin command-line program around it.

## Layout

- `src/` — the verified library.
  - `text.rs`, `split.rs`, `seqs.rs`: text, splitting and sequence facts the
    rest builds on (including the `str` order used for sorting by name).
  - `error.rs`: the error types and their messages.
  - `config.rs`, `overrides.rs`, `validate.rs`: configuration records, the
    environment-variable overrides, and the validation of a configuration
    document.
  - `cron.rs`: schedules, cron expressions, and the bookkeeping the
    scheduler applies before and after each dispatch.
  - `whatsapp.rs`: the WhatsApp Cloud webhook (HTTP request parsing,
    verification handshake, inbound message extraction with the sender
    allowlist) and the channel's start/stop/send steps.
  - `deps.rs`: dependency kinds, the install plan, start commands and the
    installed-dependency registry.
  - `devices.rs`: USB device events.
  - `templates.rs`: agent templates and the registry that holds them by name.
  - `cli/`: what each subcommand decides and prints.
- `tests/` — tests of the library.
- `app/` — the `zeptoclaw` program: argument parsing, files, network,
  processes and the event loops, which hand plain values to the library and
  perform the steps it returns.
