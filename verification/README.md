# dlms_cosem

DLMS/COSEM for meters and for those who read them: OBIS codes, A-XDR and BER, the COSEM
object model, association control, the xDLMS services, the protection of messages, and a
client and a server that turn bytes into bytes and open no connection.

Everything under `src/` is verified with Verus. Each function says what it returns on which
input, and which error comes when. Of an encoding that does not fit a buffer it says that a
whole number of writes came first and that the error counts the next one, not into how many
writes an encoding is split. What a store, a provider or a source of randomness answers is theirs
to say: a contract states that they are asked, with what, and what is made of the answer.
What relates several functions is stated by the public proof functions whose names begin
with `law_`.

| module     | what it holds |
|------------|---------------|
| `codec`    | the reader, the writers, lengths, errors |
| `fixed`    | a writer that owns a buffer of a fixed size |
| `ber`      | the tags and lengths of association control |
| `axdr`     | values, compact arrays, dates and times, units |
| `obis`     | logical names |
| `acse`     | opening and closing an association |
| `xdlms`    | the services and how they are written; `xdlms::laws` shows that they read back |
| `cosem`    | classes, access rights, profiles, short names |
| `security` | keys, counters, policies, protection, wrapping |
| `client`   | the session that asks, and the listener for what is pushed |
| `server`   | the association, the dispatch of requests to an object store, and pushing |
| `exchange` | that what one end sends reaches the other as it was meant |

What the proofs rest on besides Verus is marked `external_body`: the calls into `aes`,
`aes-gcm`, `aes-kw`, `ghash`, `heapless`, `subtle` and `zeroize`, and one into the standard
library. The comment above each says what is taken of it.

`app/` is ordinary Rust round the library: floating point, and the traits that a value is
printed through. `tests/` runs the library, with both ends talking to each other.
