# Crazyflie positioning alignment

A desktop tool that aligns the Loco and the Lighthouse positioning system of a
Crazyflie, so that both report positions in the same coordinate frame. It
connects over USB, leads through capturing the position that each system reports
at one or more points, and computes the shift that brings the "moving" system in
line with the "base".

- `src/` is the library: what the tool decides and computes, with contracts that
  Verus proves.
- `app/` is the program around it: the window, the link to the Crazyflie, files
  and floating-point arithmetic.
- `tests/` runs the library on concrete values.

| module | what it holds |
| --- | --- |
| `backend` | the commands of the user and what follows from them |
| `measurement` | a run over the measurement points |
| `capture`, `collect` | the steps of one capture, and its samples |
| `stats`, `scalar` | means, deviations and the alignment report |
| `shift_file`, `geometry` | shifting anchor positions and base station geometries |
| `yaml` | YAML documents as trees, over `serde_yaml` |
| `live`, `live_log` | the live position and its log |
| `estimator`, `system` | the positioning systems and the parameters that forward them |
| `config`, `instruction`, `ui` | settings, instructions and what is shown |
| `toc_cache`, `text` | names of cached files, and text primitives |

Coordinates are of any type that implements `scalar::Scalar`. The trait promises
nothing of its operations; the statistics are stated as which operations are
applied to which values. The program uses single-precision numbers.
