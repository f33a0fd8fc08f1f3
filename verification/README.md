# whatcolor

An instant screen color picker for Windows. The verified library (`src/`)
holds the exact parts of the picker: hex, `rgb(..)`, `hsl(..)` and `hsv(..)`
text, decoding of `COLORREF` and 32-bit DIB pixels, the loupe square around
the cursor and how it is read, the hue branch of the HSL/HSV formulas, and
the bounded capture history. `app/` is the program around it: GDI screen
reads, the clipboard, the egui window and the floating-point HSL/HSV values.
