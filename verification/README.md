# cedar_agent

The verified core of a Cedar policy decision point agent.

- `src/` is checked by Verus. It holds the request statistics, the list of
  databases whose authorization caches are flushed after a change (with the
  reading of its setting and the course of one database's flush), the edits
  of the schema document (a JSON model with a well-formedness predicate), the
  answers the policy routes give to store failures, and the course of every
  mutating request (change, cache flush, rollback) as a state machine whose
  steps the caller carries out.
- `tests/` runs the library on concrete values.
- `app/` is the HTTP side: Rocket routes and request guards, the `sqlx`
  connections that flush caches, the shared state behind locks, the Cedar
  schema conversion and the conversions between wire types and library types.
