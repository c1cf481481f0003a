# trend_analyzes

The logic of the trend analysis services (API gateway, AI service, analyze
API, analyzer service), with its contracts proved by Verus.

- `src/` — the verified library:
  - `text` — whitespace, trimming, splitting and joining; the search query
    built from a comma-separated keyword list; service endpoint addresses.
  - `news` — reading the articles of a news RSS feed; the feed's search address.
  - `batches` — cutting the found articles into the two analysed batches.
  - `json` — JSON documents of upstream answers and what is read from them.
  - `reddit` — what is read from Reddit's OAuth and search answers.
  - `analysis` — the steps of an analysis (search, two batch analyses, final
    analysis) as a state machine, and the chat request's message.
  - `agent` — the steps of the news agent (the model asks for a news search
    through a tool call, then answers with its result) as a state machine.
  - `launcher` — what the launcher does when one of its two services exits.
  - `config`, `gateway`, `error`, `model` — settings, gateway decisions,
    errors and their HTTP answers, request and response bodies.
  - `laws` — properties that hold across these functions.
- `tests/` — tests of the library.
- `app/` — the HTTP servers, clients and launcher around the library.
