# moneyball-core

The logic of a tool for marketing teams: it fetches what ads delivered, joins it with what became of
the leads in a CRM, and sums it up as briefs, funnels and reports; an agent answers questions about
it. The library is verified with Verus: each function states what it returns, and Verus proves it.

- `src/` is the library. Documents (`json`), texts (`strs`, `text`, `table`, `sets`, `rank`), days
  (`dates`, `window`), what is kept on disk (`config`, `secrets`, `session`, `snapshot`, `schema`),
  the CRM (`crm`), the ads (`fetch`, `meta`), language models (`llm`, `provider`, `tools`, `agent`),
  and what is made of all that (`brief`, `funnel`, `report`, `debug`).
- `app/` is ordinary Rust around it: files, the environment, the clock, requests over the network,
  and arithmetic on amounts of money, which are floating-point numbers. The library takes an amount
  as it is shown, as the outcome of a comparison, or as a number that orders as the amount does.
- `tests/` runs the library on concrete values.

Calls into other crates stand in small functions that Verus does not read; the comment above each
says what is taken for granted of the call. Public proof functions whose names begin with `law_`
state what holds of several functions together.
