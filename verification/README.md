# furbrowser

A terminal browser for voting on e621 posts.

- `src/` is the verified core: parsing blacklists, filtering pages of posts,
  building request addresses and headers, the texts shown in the terminal,
  and the browsing session as a state machine whose steps are proved
  against their contracts.
- `app/` is the program around it: reading files and the environment,
  talking to the site (ureq) and the vote database (rusqlite), colouring
  output and prompting the user. It performs what the session asks for and
  hands back what came of it.
- `tests/` runs the core on concrete inputs.
