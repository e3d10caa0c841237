# newgrounds_audio_downloader

Downloads every audio submission of a Newgrounds artist together with the
metadata shown on each submission's listen page.

- `src/` is the verified library:
  - `text.rs`: characters, comma removal, whitespace trimming, and the grammars
    of unsigned decimal numbers and floating-point literals;
  - `patterns.rs`: the regular expressions and the calls into `regex`;
  - `crawl.rs`: the walk over the pages of an artist's list, the judgement of
    redirections, submission ids and addresses;
  - `sidestats.rs`: reading the statistics panel of a listen page
    (through `scraper`) into the metadata of a submission;
  - `download.rs`: rate limits, the download plan and target paths, file
    names, and files already on disk;
  - `laws.rs`: properties that span these functions.
- `app/main.rs` does the network and file work (`reqwest`, `backoff`,
  `serde_json`) and asks the library for every decision.
- `tests/` runs the library on concrete inputs.
