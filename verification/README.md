# hipmh

The logic of an Aidoku manga source for m.hipmh.com, written in Verus.

- `src/` is the verified library: request URLs, the reading of the site API's
  JSON answers (modelled by `json::Json`), deep links, manga details from the
  values that the detail pages' HTML queries give, the site's base64 manga keys
  (`codec`), and the decoder of the reader's scrambled image payload
  (`page_list`). The base64 and serde_json crates are called through a few
  trusted wrappers whose contracts are stated in `codec.rs` and `json.rs`.
- `app/` is the Aidoku plumbing: network requests, HTML queries, conversions
  between Aidoku's types and the library's, and the chapter number (a float).
- `tests/` exercises the library on concrete values.
