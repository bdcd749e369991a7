# synexai

A balance assistant for the Internet Computer, verified with Verus.

- `src/` is the verified library:
  - `text`: character classes, decimal and hexadecimal rendering, substring
    search, splitting at white space;
  - `address`: Sui addresses and ICP account identifiers, and finding them in
    a message;
  - `json`: the JSON document that a Sui node returns;
  - `http`: requests and replies, and the transform that drops reply headers;
  - `sui`: the Sui balance lookup as a state machine, against the Sui testnet;
  - `icp`: checking an ICP account text and wording the ledger's answer;
  - `chat`: the conversation with the model as a state machine, with the
    balance lookups offered as tools.
- `app/` is the canister around it: its endpoints, the HTTP outcalls, the
  ledger query and the calls to the LLM canister.
- `tests/` runs the library on concrete inputs.
