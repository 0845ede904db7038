# Zali

The rules of the Zali messenger server, as a Verus library.

`src/` holds the library: who may see and do what, how roles, servers, channels,
invites, messages and reactions are made and changed, how an upload runs its course,
voice rooms, live connections, logins and their limits, and the server's settings.
Every function there states what it returns or changes, and Verus proves it. Calls
into other crates stand behind small functions marked `external_body`: what those
state is taken on trust, and their doc comments say what it is. The promises that
span several functions are public proof functions.

`app/` is the server around the library: the database, the files, HTTP and websockets.
It reads rows and requests, hands them to the library as plain values, and does what
the library answers.

`tests/` runs the library on examples.
