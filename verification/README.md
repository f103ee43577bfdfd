# advert

An ad-serving back end in two programs, with its rules verified by Verus.

- `src/` is the verified library (crate `advert`):
  - `monitor`: the scheduled checks. The DSP check reports plans placed by
    the same slot rule whose delivery overlaps; the report check raises an
    alarm for every run of days in which a slot's requests, fills, clicks or
    impressions kept falling; the SSP check builds the request templates that
    are sent for each plan of a slot's strategy.
  - `server`: the SSP server's rules. Trigger rules are matched against the
    values of a request, targets and DSPs are chosen at random by weight, the
    own DSP groups its plans by bid type and price, and requests and answers
    are mapped to and from the WanHui DSP.
  - `text`: the string operations the rules are written with (splitting,
    decimal text, parsing integers).
- `tests/` runs the library on concrete values.
- `app/` holds what is not verified: `main`, configuration files, database
  queries, HTTP handling and the JSON forms of the library's types. Run it as
  `monitor` for the checks; with any other argument it serves HTTP.

Times are held as microseconds since the Unix epoch, report dates as days
from the common era, and floating-point fields as their bits.
