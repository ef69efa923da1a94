# fetcher

A downloader of resources over HTTP, verified with Verus.

- `src/` is the library. It decides what is asked of a server, what its replies mean,
  how a resource is split into ranges, what is done next in a download and how it ends.
  Every item carries its contract; the laws that relate several items are the public
  proof functions whose names begin with `law_`.
- `app/` is the program around it: the command line, the network, the files and the
  progress bars on the terminal.
- `tests/` runs the library on concrete values.

Modules of the library:

| module | what it holds |
| --- | --- |
| `text` | characters, decimal numbers, visible ASCII |
| `http` | header maps and status codes, as `reqwest` has them |
| `request` | the headers that requests are sent with |
| `address` | URLs, file names and file paths |
| `links` | the links that an address gives, and the resources they name |
| `probe` | what a server tells of a resource |
| `chunks` | the ranges of a resource |
| `range_task` | the fetching of one range, step by step |
| `fetch` | the fetching of one resource, step by step |
| `resource` | resources, and summaries of their downloads |
| `style` | progress bars |
| `downloader` | the settings of a downloader |
