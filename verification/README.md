# music_bot

A bot that plays music in the room where it runs. It is asked for tracks over an admin
socket or in Telegram chats, downloads them, and plays one after the other.

- `src/` is the library: the rules of the player, the queue, the downloads, the admin
  server and the chats. It is verified with Verus.
  - `player` — what each request does to the sound sink, and what is told about it
  - `track_manager` — which tracks are downloaded, which wait, which are deleted
  - `controller` — the queue, and who is told what
  - `youtube` — tracks, their pages, and the errors of the downloader
  - `server` — the lines of the admin socket
  - `telegram`, `bot` — the commands and messages of chats
  - `run`, `cli`, `util` — tasks, settings, text, addresses, arguments
- `app/` is the program around it: sound, Python, sockets, Telegram, the command line.
  It looks for the downloader, a Python module `youtube.py` with a class `Youtube`, in the
  working directory.
- `tests/` runs the library.
