# lsp_web

A web view of the project that a language server looks at.

- `src/` is the library, verified with Verus: the frames and messages of the protocol, the reading
  and the writing side of the connection as state machines, the client, and the pages and hosts of
  the web server. It does no input or output.
- `app/` is the program around it: the process of the language server, the threads and channels
  that talk to it, JSON text, the web server and the templates.
- `tests/` runs the library.

A message goes through the library as follows. `client::LsClient::call` says which awaiter to
register and which request to write. `writer::Writer::step` turns the request into a JSON tree, and
`frame::encode_frame` puts its text in a frame. On the way back `reader::Reader::step` asks for the
lines and bytes of a frame, reads the message from its tree, and hands a response to the awaiter of
its id. What a message carries is a value: in its objects each name stands once.

The functions named `law_...` state what holds of these parts together.
