# eleve_ui

The state and decision logic of the ELEVE agent workbench, verified with Verus,
and a thin iced front end around it.

- `src/` — the verified library.
  - `state.rs`: the workbench state, its messages, and `update`, whose
    contract is the transition `step` stated over views.
  - `data.rs`: the initial state (`new`) with its exact contents.
  - `laws.rs`: properties of `step` across messages (toggles undo themselves,
    creation and deletion, the home bucket stays first, cards are conserved).
  - `inline.rs`, `markdown.rs`: inline markup and block splitting of chat text.
  - `panels.rs`: what each panel shows, decided from the state.
  - `theme.rs`: theme parameters and `#RRGGBB` parsing.
  - `collections.rs`, `text.rs`, `seqs.rs`, `model.rs`: supporting types and
    character-level helpers.
- `tests/` — tests on concrete values.
- `app/` — the iced application: window, widgets, fonts and colour palette.
