# iceblock

A small virtual-DOM layer, verified with Verus. A render function returns a
*request*: the tree it wants, possibly holding custom components. Rendering a
request builds a *render*; updating an old render to a new request builds the new
render and reports, as a diff, what changed in the plain tree.

Layout of `src/`:

- `change.rs`: the change types (`NodeChange`, `ChildChange`), the generic field
  `diff`, and the traits `Diffable`, `ToPlain`, `ToRender`.
- `ast.rs`: the element kinds (`Div`, `Cont`, `P`, `Button`, `Input`), their diff
  structs and the diff of two props.
- `node.rs`: plain trees (`Node`), their diff (`Node::diff`) and `compare_children`.
- `render.rs`: requests, renders, components (`Renderer`, `RequestedComponentImpl`,
  `ComponentImpl`) and `compare_render_children`.
- `trial.rs`: two example components and the render functions they use.
- `laws.rs`: properties proved across the functions above.
- `jade.rs`: the builders that the element-building macros call.
- `igloo.rs`, `codegen.rs`: the code generator behind the `igloo_ast` attribute,
  working on structs given as text; it writes the node, diff, render and request
  code of a module as source text.

`app/` holds the attribute's plumbing: it reads tokens with `syn`, hands the
structs to `codegen::filter_content`, and parses the text that comes back.
