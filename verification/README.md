# xread

A token-free reader for public X/Twitter posts, with its logic verified by Verus.

- `src/` is the library. Every function has a contract over plain models
  (`Seq<char>` for text, view structs for records) and is proved against it.
  `src/lib.rs` lists the modules. `src/bridge.rs` holds every call into another
  crate and what is taken on trust of it.
- `tests/` runs the library on concrete values, with the real crates linked.
- `app/` is the program around the library: the command line, HTTP, files, and
  the service. It performs the work that the library asks for and hands back
  what came of it.

A post is read from a structured community source first. Where that fails, the
embedding service is asked, which can still return the text. Replies are the
first page of the source, in its order, without repetition, and no more than
were asked for. Every video yields one MP4: the best, the worst, or the one
nearest below a height; the videos of quoted and reposted posts follow the own
ones. Downloads go to a temporary file that is renamed only when it is complete.

Public functions named `law_..` state what holds of the library as a whole.
