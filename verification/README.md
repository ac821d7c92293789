# sluice

The verified core of a self-hosted gateway that sits between agents and the
language-model APIs they call.

- `src/` is the library, verified by Verus. Every function in it but those of the
  readiness flag, which changes behind shared references, carries a contract:
  the dialects of Anthropic, OpenAI and Google and the canonical form between them
  (`llm/`), the rules of the configuration and its reading from TOML (`config/`), the
  directives that steps answer with (`directive`, `envelope`, `http_msg`), the shapes
  in which a JSON or TOML value can give a record (`shape`, `members`), parked chains
  and their signed tokens (`loopback/`), the admin replies, the reports of the command
  line, and the planning and statistics of the benchmark (`bench/`).
  Functions named `law_…` state what holds across several calls.
- `tests/` runs the library on concrete values, with the outside crates linked.
- `app/` is the program around it: the command line, files, sockets, processes, and
  whatever is made of floating-point numbers.

What the library does not prove but believes of an outside crate stands in small
wrappers, each with a doc comment that names the outside function: JSON text in
`json` and `members`, TOML in `config::read`, Base64 in `http_msg` and `loopback::token`, HMAC in
`loopback::token`, the concurrent map in `loopback`, constant-time comparison in
`admin`, fresh ids in `observability`, and the text of a number in `report`.
