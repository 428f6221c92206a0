# democratos_app

The application layer of Democratos, a forum where each community (a *demos*)
governs itself: citizenship is earned, rules are voted, and misconduct goes
to a jury. This crate holds the decisions behind every use-case, proved
correct with Verus, plus a thin driver that runs them over storage.

## Layout

- `src/session/` — session cookies: `"<id>.<expiry>.<hex HMAC-SHA256>"`
  signing and verification (the MAC comes from the `hmac` and `sha2`
  crates, the comparison from `subtle`), with the hex and decimal codecs
  they use. Proved: `verify` returns exactly the claims a well-formed cookie
  carries when its tag matches, `verify(sign(id, exp)) == Some((id, exp))`,
  and a tag moved onto another id or expiry is accepted only under an HMAC
  collision.
- `src/services/` — the use-case decisions over plain values: posting
  policy, member metrics, feed ranking, search matching, juries and
  verdicts, governance ballots and closing, accounts, invites, founding,
  sensitive-content review, blocking, and the write a passed proposal
  makes. `service_set.rs` wires the per-area services over the container's
  ports. Each public function states its full result in its `ensures`; the
  laws that relate several of them are public proof functions named `law_*`.
- `tests/` — concrete scenarios for every decision.
- `app/` — the driver: storage and delivery ports, the community rules a
  deployment plugs in, and the async flows that read through the ports, call
  the library, and carry out what it decides.
