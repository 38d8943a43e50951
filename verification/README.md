# nwt_auth

A media-drive server that authorizes each API call with a signed JSON token
(an "nwt" event: a Nostr-style event whose content names the method and URI
it grants), carried base64url-encoded in `Authorization: Bearer ...`.

- `src/` is the verified library (Verus):
  - `text.rs`: decimal text, prefixes, ASCII case-insensitive comparison,
    `{:?}`-style lists, and the collapsing of `", "` into `","`;
  - `hex.rs`: lowercase hex of digests, and `from_hex` into fixed buffers;
  - `digest.rs`: SHA-256 (via `sha2`) fed in 1024-byte blocks, as hex;
  - `event.rs`: methods, the event, its canonical serialization and id;
  - `auth.rs`: header, base64url/UTF-8 decoding, binding to the user
    registry, id and BIP-340 signature check (via `secp256k1`), and the
    permission check against the request;
  - `routes.rs`: the search report, the error page, and where uploads go.
- `app/` is the Rocket server around it: routes, forms, JSON parsing of the
  token and of `static/users.json`, and file I/O.
- `tests/` exercises the library on concrete values.
