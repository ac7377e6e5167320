# style_sharing

A cache of recently styled elements, and the checks that tell whether an element
that is about to be styled can take over the style of one of them. What is under
`src/` is verified with Verus, except the bodies of the few wrappers around calls
into other crates, whose contracts are taken for granted.

- `sharing`, `target`, `candidate`, `validation`, `checks`: the cache, the elements
  on both sides, and what is worked out about them.
- `outcome`, `walk`: what comes out of holding an element against one cached
  element, and against one after the other.
- `cache`, `class_order`: the least-recently-used cache and the order of classes.
- `laws`: what holds of sharing as a whole.
- `dom`, `data`, `properties`, `context`, `bloom`, `atom`, `stylist`: the elements,
  their style data, and the rest of the style system, which a user of the library
  supplies as an implementation of `stylist::StyleSystem`.
- `inline_list`, `bits`, `relations`: the parts of `smallvec`, `bit-vec` and
  `selectors` that are called, with what is taken for granted of them.
