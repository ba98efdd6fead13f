# gecko

Rooms for the Gecko party game, verified with Verus.

`src/` is the library. It holds what the server and the browser client
decide:

- `ids`: room codes and client ids, drawn at random, and how a typed room
  code is cleaned up;
- `room`: a room and its members;
- `registry`: the rooms a server holds: creating and joining them, the
  room tokens handed out, socket connections, nickname changes;
- `auth`: signing and reading room tokens, and the errors of the room API;
- `session`: how a room socket frames messages and forwards updates;
- `game`: game kinds and the topic cards of the Gecko game;
- `messages`: what travels between client and server;
- `client`: the state of the client's room page and the decisions of its
  pages;
- `text`: character classes and decimal rendering.

`app/` is the server program around the library: the HTTP routes, the
JSON forms of the messages, the locks, channels and sockets.

`tests/` exercises the library on concrete values.
