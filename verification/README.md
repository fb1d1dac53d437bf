# p2o

A PaddlePaddle New IR (PIR) to ONNX converter whose logic is verified with Verus.

* `src/` is the library. `document` reads a model description, `converter` turns it into a graph
  (`pass1` collects what is known of the values, `pass2` and `ops` add the nodes), optimizes the
  graph (`optimizer`) and makes it ready for export (`export`). `float` and `arith` hold IEEE 754
  arithmetic on bit patterns, so that constants can be folded exactly. `laws` holds what is proved
  of the library as a whole.
* `tests/` runs the library.
* `app/` is the command line program around it: arguments, files, and the messages of an ONNX file.

```
p2o <model.json> <model.pdiparams> <output.onnx> [--opset 17] [--optimize none|basic] [--strict]
```

The program converts models without parameters: it reads no `.pdiparams` file and stops with an
error where the model needs one.
