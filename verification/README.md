# Loading crate artifacts, verified

This library loads the products of a compiled crate (its interface, the
bodies its users compile again, its language items and its link data) into a
compilation session, checking every row against the rest and renumbering
every definition into the session's crates. It is written in Verus, and
Verus proves every function against its contract. The contracts state
exactly when each check accepts, and most of them the error reported, word
for word: the language-item registry check reports its stages in order
(locality, IndexMut pairing, reached rows, bundle shapes), and the load
passes that error on. The load states when it succeeds, that a failed load
leaves the session unchanged, how it numbers the crates it adds, and the
messages of its renumbering, registry, interface-row, type-field,
link-record and duplicate-crate stages; inside bodies every error is stated
down to the failing part. Some error texts are left unstated, and the
contracts then say only when an error is reported: those of the trait, impl
and extern interface rows, and, at the load, of the stages after the link
records (the functions that make those stages state most of theirs).

Not checked or kept here: the coherence of impls and the supertrait graph
of a loaded interface (their checks belong to modules outside this
library), so an artifact with incoherent impls loads; a crate's infix
precedence table and procedural macros; and the interning of a loaded
crate's types into a session type context (only the name conflicts of its
interface are checked).

Layout of `src/`:

- `ids`, `types`, `hir`, `products`, `collections`, `text`, `render`: the data
  the artifact is made of, and the text of diagnostics.
- `remap`: the session (`CrateContext`) and the renumbering of an artifact's
  product crates into session crates (`ProductIdentityRemap`).
- `validator`, `tables`, `child`, `deps`: which definitions, fields and
  variants exist, in the artifact and in the crates loaded before it.
- `typemap`, `bodyspec`, `bodymap`, `interface`, `bodies`: renumbering types,
  function bodies, declarations, traits and impls, with their checks.
- `alpha`: equivalence of types up to the renaming of impl generics.
- `rows`, `authority`, `langitems`, `shapes`: the consistency checks of an
  artifact's rows, method authority tables and language-item registry, with
  the shape of each language-item bundle.
- `artifact`, `names`, `load`: the record of a loaded crate and the load
  itself, which changes the session only when every check passes.

`app/` reads an artifact file, finds its object file on disk and hands both to
the library.
