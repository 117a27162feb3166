# zhihu_dl

A library and command-line tool that keeps a local store of Zhihu content
(answers, articles, pins, questions, collections, columns, users and their
comments) and lays it out in directories as a manifest describes.

The library in `src/` is written in Verus: its functions carry contracts,
and Verus proves the code against them.

- `request`: the API endpoints and the `x-zse-96` request signature.
- `element`: authors; comments, what to fetch of them and their reply
  trees; the document model of contents, how HTML reads into it, the
  pictures it shows and its conversion for pandoc.
- `item`: the ids and lists of the kinds of objects.
- `store`: the store's bookkeeping of objects, containers and links.
- `driver`: which containers need work, and the steps that apply a
  manifest.
- `cli`: the command-line options and the messages the tool prints.
- `util`: maps and sets with distinct keys, relative paths, text and web
  addresses.

`app/` holds the command-line program: argument parsing, files, colored
output and the calls to pandoc. `tests/` holds the tests.

The program fetches nothing: it has no HTTP client and no Zhihu session.
Its commands work on what is already on disk: they print the signature
headers of a request (`sign`), reformat a manifest, show what applying it
would fetch, and link the objects of an existing store as it describes
(`manifest`), and convert a stored document with pandoc (`convert`). The
decisions of fetching (which items to fetch, when a client is needed,
where a run stops, what the store records afterwards) are in the library,
with their contracts, for a client to drive.
