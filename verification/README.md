# raven

An OSINT tool that investigates the person behind a username: it reads the
profiles of the accounts found under the name, enriches them from public
APIs, looks for a personal domain, compares avatars, infers an identity
cluster with a confidence score, builds an activity timeline and an account
graph, and writes an HTML report.

The library in `src/` is verified with Verus; `app/` holds the command line,
the network and file I/O, and the floating-point confidence score.

- `variants`: username variants (separators, suffixes, prefixes, leet).
- `avatar`: perceptual hashes of avatars and their Hamming distance.
- `identity`: the identity cluster, its signals and confidence factors,
  Jaccard similarity of bios.
- `timeline`: dated accounts in time order, footprint, platforms by year.
- `graph`: the account graph and its DOT and D3 forms.
- `scraper`, `enricher`, `domain`: what is read from profile pages, API
  answers and a personal domain.
- `html_report`, `report`, `report_text`: the HTML report.
- `console`: the terminal reports as lines of toned pieces of text, which
  `app/` colours and prints.
- `options`, `search`: command-line decisions and the handling of search
  answers.
- `text`, `pattern`, `types`: shared text operations, regular expressions and
  records.
