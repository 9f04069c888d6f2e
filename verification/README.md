# probador

Bench tester for a PIC board. The verified library (`src/`) holds:

- `datos`: the record of a test run (`TestData`); voltages are kept as the
  bit patterns of their `f64` values.
- `funciones_internas`: the 30-byte wire format of the record with its
  round-trip laws, and the decisions on the pause channel.
- `medicion`: the expected Z and Y outputs of the board, how measurements
  are appended to the record, and the contents of the results screen.
- `corrida`: the schedule of a run and the run itself as a state machine,
  with the laws that a run records exactly what it observed.
- `programacion`: judging the output of the programmer tool.

`app/` drives the hardware (GPIO lines, I2C converter, programmer tool,
results screen, waiting on the pause channel) and does the floating-point
work on the voltages.
