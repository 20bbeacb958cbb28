# ai-memory

The rules of ai-memory, a long-term memory for coding agents, written in Verus:
the functions of the library say what they return, and that is proved, down to
the few calls into other crates named below.

- `src/` is the library. It turns the observations of a session into a page of
  the wiki, decides the steps by which the wiki's git repository is opened,
  committed to and read, words the report of a server, and plans requests to
  providers of language models. It touches no disk and no network.
- `tests/` runs the library on concrete values.
- `app/` is the program around it: it reads, sends and prints.

What the library takes from other crates stands behind small functions whose doc
comments name the function that is called and say what is believed of it: texts
of instants (`jiff`), UUIDs (`uuid`), JSON values and their texts (`serde_json`),
the names of git objects and the errors of the git library (`git2`), and the
errors of the HTTP transport (`reqwest`).
