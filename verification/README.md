# franzplot

The logic of a node-based tool for drawing curves, surfaces and their
transformations, written in Verus with its behaviour stated in contracts and
proved.

The user builds a graph of nodes (intervals, curves, surfaces, matrices,
transforms, renderings...) whose pins are linked. The library keeps that graph
consistent, parses the expressions typed into the nodes, orders the nodes so that
each one comes after those it reads from, and turns every node into a compute step
describing the shape of its output, or into an error of its own.

## Layout

- `src/node_graph/`: the graph (`graph.rs`: nodes, attributes, links, insertion,
  removal, duplication with links), the attribute and node kinds (`contents.rs`),
  the templates of fresh nodes (`templates.rs`), and the node editor's bookkeeping
  between frames (`editor.rs`: zoom steps, link dragging, menu actions).
- `src/parser.rs`, `src/parser/`: the tokenizer and the recursive-descent parser of
  the expression language, with the rendering of a parsed expression.
- `src/compute_graph/`: globals and expression checking, the processing order
  (through `pathfinding`'s topological sort), the compute step of each node kind,
  and the processing of a whole graph.
- `src/compute_block.rs`: block descriptors built from nodes, parameters and
  dimensions, and the dimensions of a transformed geometry.
- `src/mesh.rs`: index buffers of tubes, grids and arrows.
- `src/file_io.rs`: reading the list of parts of a parts file.
- `src/ferre.rs`: how a step of a guided procedure uses the global variables.
- `app/`: a command line front end that reads a graph file and prints the compute
  steps and the errors of its nodes.
- `tests/`: tests of the library on concrete values.
