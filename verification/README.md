# Slipway

The logic of Slipway, a small marina and boatyard site: its berths, the
vessel search shared by the shard and htmx transports, the work-order list,
magic-link sign-in and session records, and the rules that keep redirect
targets on the site and search URLs reversible.

- `src/` is the library, written in Verus. Every function there carries a
  contract, and the properties the site relies on are proved as lemmas:
  a remembered return-to target always comes out as a local path, an
  encoded search decodes back to itself, the search returns exactly the
  vessels whose names contain the query (and narrowing a query never adds
  results), a magic link signs its visitor in
  once and only before it expires, signing out ends a session, rotation
  moves a session to its new token, and completing a work order sticks.
- `tests/` runs the library on concrete values.
- `app/` is the web application around it: pages, components, cookies and
  sessions built with the Topcoat framework, the markup of each page, and
  the server's entry point.

Instants are signed nanoseconds from the UNIX epoch (negative before it),
read from `web_time`.
