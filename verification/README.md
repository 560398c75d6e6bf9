# bbr3

The BBRv3 congestion controller, with a proof that every operation does what its
contract says and that no arithmetic leaves its range.

`Bbr3` is told of packets sent, acknowledged and lost; it answers with a congestion
window, a pacing rate and a burst size. Experimental: use at your own risk.

## Layout

- `src/bbr3.rs`, `src/config.rs`: the controller and its configuration.
- `src/model.rs`: the model of the path, that is the flow and its two filters.
- `src/flow.rs`: the state of a flow. The steps of the algorithm stand beside it:
  `samples.rs` (packets to rate samples), `signals.rs` and `aggregation.rs` (what
  samples tell), `pipe.rs` (when the pipe is full), `estimates.rs` (volumes in
  flight), `phases.rs`, `cycle.rs` and `rtt.rs` (the state machine), `control.rs`
  (window, pacing and bursts).
- `src/checks.rs`: whether the sums of an operation stay in range, asked beforehand.
- `src/packet.rs`, `src/max_filter.rs`, `src/time.rs`, `src/params.rs`: the packet
  log, the windowed maximum, the clock and the constants.
- `src/double.rs`, with `rounding.rs` and `scaled.rs`: binary64 arithmetic, rounded to
  nearest, in integers. The bits are those of `f64`.
- `src/probe_rng.rs`: the generator that spreads bandwidth probes, from `rand_pcg`.
- `src/laws`: what holds of the controller as a whole.
- `app`: the controller behind the traits of a connection, with the clock of the
  machine.

## Reading the contracts

For each step `x` of a flow there is a specification `after_x`, the state that follows.
The contract of the executable function is that it leads there. `x_fits` says that no
sum on the way is out of range; `can_x` computes it. `wf` is what every operation keeps.

What is believed without proof stands in `src/probe_rng.rs`: four calls into `rand` and
`rand_pcg`.
