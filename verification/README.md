# cursor

The client side of the Cursor completion service, verified with Verus.

`src/` is the library:

- `envelope`, `gzip`: messages are compressed and framed, and read back.
- `stream`: a streamed answer is put together into one completion.
- `keys`, `http`: identifiers, keys, checksums, and the headers of a request.
- `client`: what goes out for each call of the service, and what its answer means.
- `messages`: what a request for a completion tells about the file at hand.
- `text`, `diff`: a completion is cut to what fits at the cursor and laid over the buffer.
- `provider`: the state of a suggestion, from the refresh that asks for it to its fate.
- `error`: what can go wrong.

Functions named `law_..` state what holds of the library as a whole.

What compression, hashing, random identifiers, the machine's time zone and the boundaries of
grapheme clusters come down to is left to `flate2`, `sha2`, `uuid`, `chrono` and
`unicode-segmentation`; each call into them stands behind one function whose comment says
what is taken on trust.

`app/` is the editor around it: entities, tasks, buffers, HTTP, and the generated protobuf
types. `tests/` runs the library.
