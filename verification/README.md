# rf_mail

Email composition and delivery planning for the RustForge framework, with the
conventions of its code generators, verified with Verus.

## Layout

- `src/` — the verified library.
  - `address`, `attachment`, `message`, `builder`, `mail`, `mail_builder`:
    addresses, messages and mails, their builders and validation.
  - `markdown`: markdown bodies with button, panel and table components.
  - `backends/`: what each transport sends — the `.eml` text of the file
    mailer, log records, the request payloads of Mailgun, Postmark, SendGrid
    and SES (with SES request signing), the SMTP and sendmail message plans,
    and the in-memory and mock mailers.
  - `config`, `manager`: driver configuration and the choice of a driver from
    the environment's values.
  - `facade`, `mailable`, `mailables/`: the `Mail::to(..)` facade, the
    `Mailable` trait and the bundled mailables.
  - `naming`, `field_types`, `rf_model`, `simple_model`, `laravel_model`,
    `validation_rules`, `validate_dsl`, `request_rules`, `routing`, `jobs`, `cache_macro`, `blade`,
    `await_transformer`: what the code generators' declarations mean — model
    metadata and expansions, validation rules, routes, Blade templates and
    the automatic `.await` rewrite.
  - `outside`: the calls into other crates and into std that the library
    relies on, each with the contract it is trusted to meet.
- `tests/` — tests of the library.
- `app/` — the I/O around the library: transports (SMTP through lettre,
  HTTP APIs through reqwest, files, sendmail), the global facade state, the
  mail manager and the serde forms of the library's types.
