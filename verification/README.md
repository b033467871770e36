# core1_etb

Translation support for Excel workbooks: Japanese text in the cells of the
selected sheets is sent to up to three translation providers, which give up
to three candidates per cell; Generate writes no translation into the source
sheets, and Apply writes only the chosen candidates into the base workbook.
The review workbook's UI sheet writer and reader are not part of this
crate, so its Generate and Apply modes stop before the review workbook.

`src/` is the verified library (Verus). It holds the logic: how cells are
classified and segmented, how line breaks and formula string literals are
protected on the way through a provider and restored, how requests are
batched, which candidate is selected by default, how shared formulas are
resolved and rewritten in the sheet XML, how the job plan is read and
repaired, and how the billing estimate is priced. Its contracts state what
each function returns; where a provider answers, they state what is sent to
it and what is made of whatever it answers. Proof functions state the laws
that tie the functions together (for instance that restoring a protected text gives the
text back, that reassembling a formula from its own literals gives the
formula back, and that a formula written into a cell's XML reads back as
written).

`app/` is the program around it: command-line modes, the environment,
questions to the user, reading and writing `.xlsx` files, and the HTTP / AWS
calls to the providers.

`tests/` exercises the library on concrete values.
