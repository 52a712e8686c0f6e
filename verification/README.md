# segrep

Semantic filtering of log lines. `src/` is the verified library: text
normalisation (`preprocess`), word splitting and the word windows that a log
line is compared through, the decision rules that turn a classifier's answer
into a match, tokenisation with a loaded tokenizer, and the error types with
their messages. `app/` holds what runs the models (rust-bert), downloads the
pretrained tokenizer, and computes with floating-point scores.
