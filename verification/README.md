# muskitty_cascade

A verified CSS cascade engine. Given style sheets (with their origins) and
an element, it works out which declarations apply, orders them by the
cascade, applies the CSS-wide keywords and defaulting, and substitutes
`var()` references, with contracts that Verus proves.

## Layout

- `src/` — the verified library:
  - `token.rs`: the component-value model (tokens, functions, blocks) and
    its mathematical view;
  - `registry.rs`: the built-in property table;
  - `media.rs`: media query lists in three-valued logic, with lengths
    compared exactly against the viewport (both binary64 values);
  - `style_attr.rs`: the declarations of a `style` attribute's text;
  - `filter.rs`: the style sheet model, preparation (pruning, `@layer`
    numbering, selector parsing) and collection of declared values;
  - `cascade.rs`: cascade ordering and winners;
  - `defaulting.rs`: `initial`, `inherit`, `unset`, `revert`;
  - `custom_properties.rs`, `compute.rs`: custom property tables and
    `var()` substitution, and the token part of computing a property;
  - `calc.rs`: the `calc()` grammar and its type rules;
  - `shorthand.rs`: expansion of the `border*` and `outline` shorthands,
    and computed line widths (`thin`, `medium`, `thick`);
  - `style.rs`, `text_props.rs`, `strutil.rs`: computed styles, the text
    properties, string helpers.
- `app/` — the same engine over the CSS parser's, CSSOM's and DOM's types,
  and the floating-point parts: relative units, `calc()` evaluation,
  font-size propagation down a DOM tree, percentage and used `line-height`.
- `tests/` — tests of the library.
