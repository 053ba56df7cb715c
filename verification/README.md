# pessimistic_lock

Decides what a request for pessimistic locks comes to: which locks are written, what the client is
told of each key, and whether the request waits for a lock that it met. The decisions are verified
with Verus.

* `src/` is the library. `command` holds the request, `run` processes it reply by reply, `outcome`
  says what it comes to, and `laws` proves what holds of every request.
* `app/` runs requests against a storage engine.
* `tests/` holds the tests, among them some against a small in-memory engine.

The engine tries the keys one at a time. It says of each whether it is locked now, with what is to
be written for it, or why it is not. A request that meets the lock of another transaction

* skips the key if it was asked to,
* waits if it has a timeout,
* fails otherwise;

unless it skips, it then locks none of its keys. Shared locks that stand in the way of an exclusive
one are made shrink-only, so that they die out.
