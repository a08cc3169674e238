# spectrum_card

A card on which a person lists their spectrums (each a quadrant, unknown, or
a number between 0 and 1), printed to PDF.

- `src/` is the verified library: the spectrum values and their labels
  (`spectrum`), the card's state and how a stored card is merged into the
  default list of spectrums (`card`), the HTML page a card is laid out from
  (`render`), and the checks on what a user types and how a submitted value
  is printed (`input`).
- `app/` holds the two front ends: the desktop program (slint window, PDF
  through genpdf) and the web version (eframe, PDF through printpdf). Number
  parsing, formatting and comparison, which are floating point, stay there.
- `tests/` runs the library on concrete cards and inputs.
